//! The fixed-size record, its seeds, and the list made of records.

use transfer_hook_max_account_test::list::ExtraAccountMetaList;
use transfer_hook_max_account_test::list::InitError;
use transfer_hook_max_account_test::meta::DecodeError;
use transfer_hook_max_account_test::meta::ExtraAccountMeta;
use transfer_hook_max_account_test::meta::MetaKind;
use transfer_hook_max_account_test::seeds::Seed;
use transfer_hook_max_account_test::validate::validate;
use transfer_hook_max_account_test::validate::validate_record;
use transfer_hook_max_account_test::validate::seeds_reach;
use transfer_hook_max_account_test::validate::ResolveError;
use transfer_hook_max_account_test::wire::read_u32_le;
use transfer_hook_max_account_test::wire::write_u32_le;

fn literal(tag: u8, is_signer: bool, is_writable: bool) -> ExtraAccountMeta {
    ExtraAccountMeta::new_with_pubkey(&[tag; 32], is_signer, is_writable)
}

fn derived(seeds: &[Seed]) -> ExtraAccountMeta {
    ExtraAccountMeta::new_with_seeds(seeds, false, true).unwrap()
}

fn record(tag: u8, fill: u8, signer: u8, writable: u8) -> Vec<u8> {
    let mut bytes = vec![tag];
    bytes.extend_from_slice(&[fill; 32]);
    bytes.push(signer);
    bytes.push(writable);
    bytes
}

#[test]
fn u32_is_written_least_significant_byte_first() {
    let mut buf = [9u8; 7];
    write_u32_le(&mut buf, 2, 0x0403_0201);
    assert_eq!(buf, [9, 9, 1, 2, 3, 4, 9]);
    assert_eq!(read_u32_le(&buf, 2), 0x0403_0201);
    write_u32_le(&mut buf, 0, u32::MAX);
    assert_eq!(buf, [255, 255, 255, 255, 3, 4, 9]);
    assert_eq!(read_u32_le(&buf, 0), u32::MAX);
    assert_eq!(read_u32_le(&[0, 1, 0, 0], 0), 256);
}

#[test]
fn encode_gives_tag_config_and_flags() {
    assert_eq!(literal(7, true, false).encode().to_vec(), record(0, 7, 1, 0));
    assert_eq!(literal(0, false, true).encode().to_vec(), record(0, 0, 0, 1));
    let rule = ExtraAccountMeta {
        kind: MetaKind::Derived,
        address_config: [3; 32],
        is_signer: true,
        is_writable: true,
    };
    assert_eq!(rule.encode().to_vec(), record(1, 3, 1, 1));
    assert_eq!(rule.encode().len(), 35);
}

#[test]
fn decode_reads_back_what_encode_wrote() {
    for meta in [
        literal(7, true, false),
        literal(255, false, false),
        derived(&[Seed::Literal { bytes: b"vault".to_vec() }, Seed::AccountKey { index: 1 }]),
    ] {
        assert_eq!(ExtraAccountMeta::decode(&meta.encode()), Ok(meta));
    }
}

#[test]
fn decode_reads_only_the_first_record() {
    let mut bytes = record(1, 4, 0, 1);
    bytes.extend_from_slice(&[200; 10]);
    let meta = ExtraAccountMeta::decode(&bytes).unwrap();
    assert_eq!(meta.kind, MetaKind::Derived);
    assert_eq!(meta.address_config, [4; 32]);
    assert!(!meta.is_signer);
    assert!(meta.is_writable);
}

#[test]
fn decode_takes_any_nonzero_flag_byte_as_set() {
    let meta = ExtraAccountMeta::decode(&record(0, 1, 2, 255)).unwrap();
    assert!(meta.is_signer);
    assert!(meta.is_writable);
}

#[test]
fn decode_rejects_unknown_tag() {
    for tag in [2u8, 3, 127, 128, 255] {
        assert_eq!(
            ExtraAccountMeta::decode(&record(tag, 0, 0, 0)),
            Err(DecodeError::InvalidDiscriminator)
        );
    }
}

#[test]
fn decode_rejects_short_input() {
    assert_eq!(ExtraAccountMeta::decode(&[]), Err(DecodeError::TruncatedRecord));
    let bytes = record(0, 0, 0, 0);
    assert_eq!(ExtraAccountMeta::decode(&bytes[..34]), Err(DecodeError::TruncatedRecord));
    // A short input is truncated whatever its tag is.
    assert_eq!(ExtraAccountMeta::decode(&[9; 34]), Err(DecodeError::TruncatedRecord));
}

#[test]
fn seeds_are_packed_one_after_another() {
    let seeds = vec![
        Seed::Literal { bytes: b"ab".to_vec() },
        Seed::AccountKey { index: 1 },
        Seed::Literal { bytes: Vec::new() },
        Seed::AccountKey { index: 200 },
    ];
    let config = Seed::pack_into_address_config(&seeds).unwrap();
    let mut expected = [0u8; 32];
    expected[..10].copy_from_slice(&[1, 2, 97, 98, 3, 1, 1, 0, 3, 200]);
    assert_eq!(config, expected);
    assert_eq!(Seed::unpack_address_config(&config), Some(seeds));
}

#[test]
fn no_seeds_pack_to_zeros() {
    assert_eq!(Seed::pack_into_address_config(&[]), Some([0u8; 32]));
    assert_eq!(Seed::unpack_address_config(&[0u8; 32]), Some(Vec::new()));
}

#[test]
fn seeds_fill_the_configuration_exactly() {
    let full = vec![Seed::Literal { bytes: vec![5; 30] }];
    let config = Seed::pack_into_address_config(&full).unwrap();
    assert_eq!(config[0], 1);
    assert_eq!(config[1], 30);
    assert_eq!(&config[2..], &[5u8; 30][..]);
    assert_eq!(Seed::unpack_address_config(&config), Some(full));

    let keys: Vec<Seed> = (0..16).map(|index| Seed::AccountKey { index }).collect();
    let config = Seed::pack_into_address_config(&keys).unwrap();
    assert_eq!(Seed::unpack_address_config(&config), Some(keys));
}

#[test]
fn seeds_that_do_not_fit_are_refused() {
    assert_eq!(Seed::pack_into_address_config(&[Seed::Literal { bytes: vec![5; 31] }]), None);
    assert_eq!(Seed::pack_into_address_config(&[Seed::Literal { bytes: vec![5; 300] }]), None);
    let keys: Vec<Seed> = (0..17).map(|index| Seed::AccountKey { index }).collect();
    assert_eq!(Seed::pack_into_address_config(&keys), None);
    assert_eq!(ExtraAccountMeta::new_with_seeds(&keys, false, false), None);
}

#[test]
fn malformed_seed_bytes_do_not_parse() {
    // Unknown tag.
    let mut config = [0u8; 32];
    config[0] = 2;
    assert_eq!(Seed::unpack_address_config(&config), None);
    config[0] = 4;
    assert_eq!(Seed::unpack_address_config(&config), None);
    // A literal that runs past the end.
    let mut config = [0u8; 32];
    config[0] = 1;
    config[1] = 31;
    assert_eq!(Seed::unpack_address_config(&config), None);
    // A tag in the last byte, with no room for what follows it.
    let mut config = [0u8; 32];
    config[0] = 1;
    config[1] = 29;
    config[31] = 3;
    assert_eq!(Seed::unpack_address_config(&config), None);
    config[31] = 1;
    assert_eq!(Seed::unpack_address_config(&config), None);
    config[31] = 0;
    assert_eq!(
        Seed::unpack_address_config(&config),
        Some(vec![Seed::Literal { bytes: vec![0; 29] }])
    );
}

#[test]
fn new_with_seeds_marks_the_record_as_derived() {
    let meta = ExtraAccountMeta::new_with_seeds(&[Seed::AccountKey { index: 4 }], true, false).unwrap();
    assert_eq!(meta.kind, MetaKind::Derived);
    assert_eq!(&meta.address_config[..3], &[3, 4, 0]);
    assert!(meta.is_signer);
    assert!(!meta.is_writable);
}

#[test]
fn size_of_is_header_plus_records() {
    assert_eq!(ExtraAccountMetaList::size_of(0), 4);
    assert_eq!(ExtraAccountMetaList::size_of(1), 39);
    assert_eq!(ExtraAccountMetaList::size_of(3), 109);
    assert_eq!(ExtraAccountMetaList::size_of(15), 529);
    assert_eq!(ExtraAccountMetaList::size_of(16), 564);
    for count in 0..300 {
        assert_eq!(ExtraAccountMetaList::size_of(count), 4 + count * 35);
    }
}

#[test]
fn init_writes_count_then_records() {
    let metas = vec![literal(7, true, false), literal(8, false, true)];
    let mut buffer = vec![0xEE; 74];
    assert_eq!(ExtraAccountMetaList::init(&mut buffer, &metas), Ok(()));
    let mut expected = vec![2, 0, 0, 0];
    expected.extend(record(0, 7, 1, 0));
    expected.extend(record(0, 8, 0, 1));
    assert_eq!(buffer, expected);
}

#[test]
fn init_leaves_the_bytes_after_the_list() {
    let metas = vec![literal(7, false, false)];
    let mut buffer = vec![0xEE; 50];
    assert_eq!(ExtraAccountMetaList::init(&mut buffer, &metas), Ok(()));
    assert_eq!(&buffer[..4], &[1, 0, 0, 0]);
    assert_eq!(&buffer[4..39], &record(0, 7, 0, 0)[..]);
    assert_eq!(&buffer[39..], &[0xEE; 11][..]);
    let list = ExtraAccountMetaList::unpack(&buffer).unwrap();
    assert_eq!(list.as_slice(), &metas[..]);
}

#[test]
fn init_fails_exactly_when_the_buffer_is_short() {
    for count in 0usize..20 {
        let metas: Vec<ExtraAccountMeta> = (0..count).map(|i| literal(i as u8, false, false)).collect();
        let size = ExtraAccountMetaList::size_of(count);
        for len in [0, size.saturating_sub(35), size.saturating_sub(1), size, size + 1, size + 100] {
            let mut buffer = vec![0xAB; len];
            let result = ExtraAccountMetaList::init(&mut buffer, &metas);
            if len < size {
                assert_eq!(result, Err(InitError::BufferTooSmall));
                assert_eq!(buffer, vec![0xAB; len]);
            } else {
                assert_eq!(result, Ok(()));
            }
        }
    }
}

#[test]
fn unpack_gives_back_what_init_wrote() {
    for count in 0usize..=15 {
        let metas: Vec<ExtraAccountMeta> = (0..count)
            .map(|i| {
                if i % 3 == 2 {
                    derived(&[Seed::Literal { bytes: vec![i as u8; i] }, Seed::AccountKey { index: i as u8 }])
                } else {
                    literal(i as u8, i % 2 == 0, i % 4 == 1)
                }
            })
            .collect();
        let mut buffer = vec![0; ExtraAccountMetaList::size_of(count) + count];
        assert_eq!(ExtraAccountMetaList::init(&mut buffer, &metas), Ok(()));
        let list = ExtraAccountMetaList::unpack(&buffer).unwrap();
        assert_eq!(list.len(), count);
        assert_eq!(list.as_slice(), &metas[..]);
        assert_eq!(list, ExtraAccountMetaList::new(metas));
    }
}

#[test]
fn init_refuses_a_forward_reference() {
    // The record at position 1 is resolved when six accounts are placed:
    // index 5 is the record before it, index 6 is itself.
    let ok = vec![literal(1, false, false), derived(&[Seed::AccountKey { index: 5 }])];
    let mut buffer = vec![0; 74];
    assert_eq!(ExtraAccountMetaList::init(&mut buffer, &ok), Ok(()));

    for index in [6u8, 7, 255] {
        let bad = vec![literal(1, false, false), derived(&[Seed::AccountKey { index }])];
        let mut buffer = vec![0x11; 74];
        assert_eq!(ExtraAccountMetaList::init(&mut buffer, &bad), Err(InitError::ForwardReference));
        assert_eq!(buffer, vec![0x11; 74]);
        // The buffer is looked at first.
        let mut short = vec![0x11; 73];
        assert_eq!(ExtraAccountMetaList::init(&mut short, &bad), Err(InitError::BufferTooSmall));
    }
}

#[test]
fn init_refuses_seed_bytes_that_do_not_parse() {
    let bad = vec![ExtraAccountMeta {
        kind: MetaKind::Derived,
        address_config: [9; 32],
        is_signer: false,
        is_writable: false,
    }];
    let mut buffer = vec![0x11; 39];
    assert_eq!(ExtraAccountMetaList::init(&mut buffer, &bad), Err(InitError::UnresolvableDerivation));
    assert_eq!(buffer, vec![0x11; 39]);
}

#[test]
fn validate_reports_the_first_record_that_fails() {
    let unparsable = ExtraAccountMeta {
        kind: MetaKind::Derived,
        address_config: [9; 32],
        is_signer: false,
        is_writable: false,
    };
    let forward = derived(&[Seed::AccountKey { index: 250 }]);
    assert_eq!(validate(&[], 5), Ok(()));
    assert_eq!(validate(&[literal(1, false, false)], 0), Ok(()));
    assert_eq!(validate(&[forward, unparsable], 5), Err(ResolveError::ForwardReference));
    assert_eq!(validate(&[unparsable, forward], 5), Err(ResolveError::UnresolvableDerivation));
    assert_eq!(validate(&[literal(1, false, false), forward], 250), Ok(()));
    assert_eq!(validate(&[forward, literal(1, false, false)], 250), Err(ResolveError::ForwardReference));
}

#[test]
fn a_rule_may_refer_to_base_accounts_and_earlier_records_only() {
    let rule = derived(&[Seed::AccountKey { index: 7 }]);
    assert_eq!(validate_record(&rule, 5, 3), Ok(()));
    assert_eq!(validate_record(&rule, 5, 2), Err(ResolveError::ForwardReference));
    assert_eq!(validate_record(&rule, 8, 0), Ok(()));
    assert_eq!(validate_record(&rule, 0, 7), Err(ResolveError::ForwardReference));
    assert_eq!(validate_record(&rule, usize::MAX, usize::MAX), Ok(()));
    assert_eq!(validate_record(&literal(1, false, false), 0, 0), Ok(()));
    let seeds = [Seed::Literal { bytes: vec![1] }, Seed::AccountKey { index: 0 }];
    assert!(!seeds_reach(&seeds, 0, 0));
    assert!(seeds_reach(&seeds, 1, 0));
    assert!(seeds_reach(&seeds, 0, 1));
    assert!(seeds_reach(&seeds[..1], 0, 0));
}

#[test]
fn unpack_holds_the_count_against_the_buffer() {
    assert_eq!(ExtraAccountMetaList::unpack(&[]), Err(DecodeError::TruncatedRecord));
    assert_eq!(ExtraAccountMetaList::unpack(&[0, 0, 0]), Err(DecodeError::TruncatedRecord));
    assert_eq!(ExtraAccountMetaList::unpack(&[0, 0, 0, 0]).map(|list| list.len()), Ok(0));
    // One record declared, one byte short.
    let mut bytes = vec![1, 0, 0, 0];
    bytes.extend(&record(0, 1, 0, 0)[..34]);
    assert_eq!(ExtraAccountMetaList::unpack(&bytes), Err(DecodeError::TruncatedRecord));
    // The count is checked before any record: the bad tag is not reached.
    let mut bytes = vec![2, 0, 0, 0];
    bytes.extend(record(9, 1, 0, 0));
    assert_eq!(ExtraAccountMetaList::unpack(&bytes), Err(DecodeError::TruncatedRecord));
    // A count that no buffer can hold.
    assert_eq!(
        ExtraAccountMetaList::unpack(&[255, 255, 255, 255, 0, 0]),
        Err(DecodeError::TruncatedRecord)
    );
}

#[test]
fn unpack_rejects_an_unknown_tag_in_any_record() {
    for bad in 0..3 {
        let mut bytes = vec![3, 0, 0, 0];
        for position in 0..3 {
            bytes.extend(record(if position == bad { 2 } else { 1 }, 0, 0, 0));
        }
        assert_eq!(ExtraAccountMetaList::unpack(&bytes), Err(DecodeError::InvalidDiscriminator));
    }
    // Bytes after the declared records are not read.
    let mut bytes = vec![1, 0, 0, 0];
    bytes.extend(record(1, 0, 0, 0));
    bytes.extend(record(77, 0, 0, 0));
    assert_eq!(ExtraAccountMetaList::unpack(&bytes).map(|list| list.len()), Ok(1));
}

#[test]
fn get_looks_a_record_up_by_position() {
    let metas = vec![literal(1, false, false), literal(2, true, true)];
    let list = ExtraAccountMetaList::new(metas.clone());
    assert_eq!(list.len(), 2);
    assert_eq!(list.get(0), Some(metas[0]));
    assert_eq!(list.get(1), Some(metas[1]));
    assert_eq!(list.get(2), None);
    assert_eq!(list.get(usize::MAX), None);
}
