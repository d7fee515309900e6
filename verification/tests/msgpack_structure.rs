use mutsuki_runtime::msgpack::validate_messagepack_structure;
use mutsuki_runtime::protocol::WireCodecError;

fn valid(bytes: &[u8]) -> bool {
    match validate_messagepack_structure(bytes) {
        Ok(()) => true,
        Err(WireCodecError::Decode(_)) => false,
        Err(other) => panic!("unexpected error {other:?}"),
    }
}

#[test]
fn scalars_strings_and_binaries_are_accepted() {
    assert!(valid(&[0xc0]));
    assert!(valid(&[0x7f]));
    assert!(valid(&[0xe0]));
    assert!(valid(&[0xc3]));
    assert!(valid(&[0xa3, b'a', b'b', b'c']));
    assert!(valid(&[0xd9, 2, b'h', b'i']));
    assert!(valid(&[0xc5, 0, 1, 0xff]));
    assert!(valid(&[0xcb, 0, 0, 0, 0, 0, 0, 0, 0]));
    assert!(valid(&[0xd4, 1, 2]));
    assert!(valid(&[0xc7, 1, 9, 0xaa]));
}

#[test]
fn containers_are_walked_item_by_item() {
    assert!(valid(&[0x82, 0xa1, b'a', 0x01, 0xa1, b'b', 0x92, 0x01, 0x02]));
    assert!(valid(&[0xdc, 0, 2, 0xc0, 0xc0]));
    assert!(valid(&[0xde, 0, 1, 0xc0, 0xc0]));
    assert!(!valid(&[0x82, 0xa1, b'a', 0x01]));
    assert!(!valid(&[0x92, 0x01]));
}

#[test]
fn malformed_values_are_rejected() {
    assert!(!valid(&[]));
    assert!(!valid(&[0xc1]));
    assert!(!valid(&[0xa3, b'a']));
    assert!(!valid(&[0xc0, 0xc0]));
    assert!(!valid(&[0xcd, 1]));
    assert!(!valid(&[0xc6, 0xff, 0xff, 0xff, 0xff]));
    assert!(!valid(&[0xd8, 1, 2, 3]));
}

#[test]
fn nesting_is_limited_to_sixty_four_levels() {
    let mut deep = vec![0x91; 64];
    deep.push(0xc0);
    assert!(valid(&deep));
    let mut deeper = vec![0x91; 65];
    deeper.push(0xc0);
    assert!(!valid(&deeper));
    let mut empty_at_limit = vec![0x91; 64];
    empty_at_limit.push(0x90);
    assert!(valid(&empty_at_limit));
}

#[test]
fn container_item_count_is_limited() {
    let mut at_limit = vec![0xdd, 0x00, 0x01, 0x00, 0x00];
    at_limit.extend(std::iter::repeat(0xc0).take(65_536));
    assert!(valid(&at_limit));
    let mut over = vec![0xdd, 0x00, 0x01, 0x00, 0x01];
    over.extend(std::iter::repeat(0xc0).take(65_537));
    assert!(!valid(&over));
}

fn message(bytes: &[u8]) -> String {
    match validate_messagepack_structure(bytes) {
        Err(WireCodecError::Decode(m)) => m,
        other => panic!("unexpected {other:?}"),
    }
}

#[test]
fn structure_errors_name_the_first_fault() {
    assert_eq!(message(&[]), "truncated MessagePack value");
    assert_eq!(message(&[0xd4, 0x01]), "truncated MessagePack value");
    assert_eq!(message(&[0x81, 0x01]), "truncated MessagePack value");
    assert_eq!(message(&[0x01, 0x02]), "trailing bytes after MessagePack value");
    assert_eq!(message(&[0xc1]), "reserved MessagePack marker");
    assert_eq!(message(&[0xdd, 0x00, 0x01, 0x00, 0x01]), "MessagePack container item limit exceeded");
    assert!(validate_messagepack_structure(&[0x92, 0x01, 0x02]).is_ok());
    assert!(validate_messagepack_structure(&[0x81, 0x01, 0x02]).is_ok());
    assert!(validate_messagepack_structure(&[0xd9, 0x02, 0x61, 0x62]).is_ok());
    let mut deep = vec![0x91u8; 64];
    deep.push(0x01);
    assert!(validate_messagepack_structure(&deep).is_ok());
    let mut too_deep = vec![0x91u8; 65];
    too_deep.push(0x01);
    assert_eq!(message(&too_deep), "MessagePack nesting depth exceeded");
}
