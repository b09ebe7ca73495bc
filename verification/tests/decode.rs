use gas_watcher::hex::decode_quantity;

#[test]
fn decode_with_prefix() {
    assert_eq!(decode_quantity("0x3b9aca00"), Some(1_000_000_000));
}

#[test]
fn decode_without_prefix() {
    assert_eq!(decode_quantity("3b9aca00"), Some(1_000_000_000));
    assert_eq!(decode_quantity("0x3b9aca00"), decode_quantity("3b9aca00"));
}

#[test]
fn decode_case_insensitive() {
    assert_eq!(decode_quantity("0xff"), Some(255));
    assert_eq!(decode_quantity("0xFF"), Some(255));
    assert_eq!(decode_quantity("0xDeadBeef"), decode_quantity("0xdeadbeef"));
}

#[test]
fn decode_repeated_prefix_stripped() {
    assert_eq!(decode_quantity("0x0xff"), Some(255));
}

#[test]
fn decode_plus_sign_accepted() {
    assert_eq!(decode_quantity("+ff"), Some(255));
    assert_eq!(decode_quantity("0x+ff"), Some(255));
}

#[test]
fn decode_rejects_empty() {
    assert_eq!(decode_quantity(""), None);
    assert_eq!(decode_quantity("0x"), None);
    assert_eq!(decode_quantity("+"), None);
}

#[test]
fn decode_rejects_invalid_digits() {
    assert_eq!(decode_quantity("0xzz"), None);
    assert_eq!(decode_quantity("0Xff"), None);
    assert_eq!(decode_quantity("-ff"), None);
    assert_eq!(decode_quantity("0x12 34"), None);
}

#[test]
fn decode_zero() {
    assert_eq!(decode_quantity("0x0"), Some(0));
    assert_eq!(decode_quantity("0x000"), Some(0));
}

#[test]
fn decode_largest_quantity() {
    assert_eq!(
        decode_quantity("0xffffffffffffffffffffffffffffffff"),
        Some(u128::MAX)
    );
}

#[test]
fn decode_rejects_overflow() {
    assert_eq!(decode_quantity("0x100000000000000000000000000000000"), None);
    assert_eq!(decode_quantity("0xffffffffffffffffffffffffffffffff0"), None);
}
