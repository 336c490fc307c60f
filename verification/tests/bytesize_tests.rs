use fetch_cache::bytesize::parse_byte_size;

#[test]
fn binary_multiples() {
    assert_eq!(parse_byte_size("10MB"), Some(10 * (1u64 << 20)));
    assert_eq!(parse_byte_size("10MiB"), Some(10 * (1u64 << 20)));
    assert_eq!(parse_byte_size("1KB"), Some(1024));
    assert_eq!(parse_byte_size("1KiB"), Some(1024));
    assert_eq!(parse_byte_size("3GB"), Some(3 * (1u64 << 30)));
    assert_eq!(parse_byte_size("2TB"), Some(2 * (1u64 << 40)));
    assert_eq!(parse_byte_size("17B"), Some(17));
    assert_eq!(parse_byte_size("17"), Some(17));
}

#[test]
fn fractions_need_a_multiplier() {
    assert_eq!(parse_byte_size("1.5GB"), Some((3u64 << 30) / 2));
    assert_eq!(parse_byte_size("1.5"), None);
    assert_eq!(parse_byte_size("1.5B"), None);
    // a fraction naming a whole number of bytes passes
    assert_eq!(parse_byte_size("2.0"), Some(2));
    assert_eq!(parse_byte_size("2.0B"), Some(2));
    assert_eq!(parse_byte_size("0.5KB"), Some(512));
}

#[test]
fn case_and_whitespace() {
    assert_eq!(parse_byte_size("10mb"), Some(10 * (1u64 << 20)));
    assert_eq!(parse_byte_size("10Mb"), Some(10 * (1u64 << 20)));
    assert_eq!(parse_byte_size(" 10 MB"), Some(10 * (1u64 << 20)));
}

#[test]
fn rejected_forms() {
    assert_eq!(parse_byte_size(""), None);
    assert_eq!(parse_byte_size("MB"), None);
    assert_eq!(parse_byte_size("ten"), None);
    assert_eq!(parse_byte_size("1.2.3MB"), None);
    assert_eq!(parse_byte_size("."), None);
    assert_eq!(parse_byte_size("-5MB"), None);
    // more bytes than a 64-bit counter can hold
    assert_eq!(parse_byte_size("99999999999TB"), None);
}

#[test]
fn fraction_contributes_its_floor() {
    // 0.3 KB = 307.2 bytes, floored
    assert_eq!(parse_byte_size("0.3KB"), Some(307));
}
