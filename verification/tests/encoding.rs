use byte_hex::format_as_prefixed_hex;
use byte_hex::get_string_bytes;
use byte_hex::get_string_hex;
use byte_hex::get_uint_bytes;
use byte_hex::get_uint_hex;

#[test]
fn string_bytes_hello() {
    let bytes = get_string_bytes("Hello, World!");
    assert_eq!(bytes, b"Hello, World!".to_vec());
    assert_eq!(bytes.len(), "Hello, World!".len());
}

#[test]
fn string_bytes_empty() {
    let bytes = get_string_bytes("");
    assert_eq!(bytes, Vec::<u8>::new());
}

#[test]
fn string_bytes_len_is_utf8_len() {
    // A two-byte and a three-byte character: the byte length is the UTF-8
    // length, not the character count.
    let s = "\u{e9}\u{20ac}";
    let bytes = get_string_bytes(s);
    assert_eq!(bytes.len(), s.len());
    assert_eq!(bytes, vec![0xc3, 0xa9, 0xe2, 0x82, 0xac]);
}

#[test]
fn uint_bytes_12345() {
    let bytes = get_uint_bytes(12345);
    assert_eq!(bytes, [0, 0, 0, 0, 0, 0, 0x30, 0x39]);
}

#[test]
fn uint_bytes_big_endian_round_trip() {
    for &u in &[0u64, 1, 255, 256, 12345, 0x0123456789abcdef, u64::MAX] {
        let bytes = get_uint_bytes(u);
        assert_eq!(bytes.len(), 8);
        let mut decoded: u64 = 0;
        for &b in bytes.iter() {
            decoded = decoded << 8 | b as u64;
        }
        assert_eq!(decoded, u);
    }
}

#[test]
fn string_hex_hello() {
    assert_eq!(get_string_hex("Hello, World!"), "48656c6c6f2c20576f726c6421");
}

#[test]
fn string_hex_empty() {
    assert_eq!(get_string_hex(""), "");
}

#[test]
fn string_hex_non_ascii() {
    assert_eq!(get_string_hex("\u{e9}"), "c3a9");
}

#[test]
fn string_hex_zero_pads_each_byte() {
    // A byte below 0x10 still takes two digits.
    assert_eq!(get_string_hex("\n"), "0a");
}

#[test]
fn uint_hex_12345() {
    assert_eq!(get_uint_hex(12345), "3039");
}

#[test]
fn uint_hex_zero() {
    assert_eq!(get_uint_hex(0), "0");
}

#[test]
fn uint_hex_is_minimal() {
    // No leading zeros, unlike the fixed-width byte encoding.
    assert_eq!(get_uint_hex(1), "1");
    assert_eq!(get_uint_hex(15), "f");
    assert_eq!(get_uint_hex(16), "10");
    assert_eq!(get_uint_hex(255), "ff");
    assert_eq!(get_uint_hex(u64::MAX), "ffffffffffffffff");
}

#[test]
fn prefixed_hex_of_string_bytes() {
    let display = format_as_prefixed_hex(&get_string_bytes("Hello, World!"));
    assert_eq!(display, "0x48656c6c6f2c20576f726c6421");
}

#[test]
fn prefixed_hex_of_uint_bytes() {
    let display = format_as_prefixed_hex(&get_uint_bytes(12345).to_vec());
    assert_eq!(display, "0x0000000000003039");
}

#[test]
fn prefixed_hex_shape() {
    for bytes in [vec![], vec![0x00], vec![0x00, 0xff], vec![0xab, 0xcd, 0xef]] {
        let display = format_as_prefixed_hex(&bytes);
        assert_eq!(display.len(), 2 * bytes.len() + 2);
        assert!(display.starts_with("0x"));
    }
    assert_eq!(format_as_prefixed_hex(&vec![0x00, 0xff]), "0x00ff");
}

#[test]
fn string_hex_is_stripped_prefixed_hex() {
    for s in ["", "Hello, World!", "\u{e9}\u{20ac}", "\n"] {
        let display = format_as_prefixed_hex(&get_string_bytes(s));
        assert_eq!(get_string_hex(s), &display[2..]);
    }
}

#[test]
fn repeated_calls_agree() {
    assert_eq!(get_string_bytes("Hello, World!"), get_string_bytes("Hello, World!"));
    assert_eq!(get_uint_bytes(12345), get_uint_bytes(12345));
    assert_eq!(get_string_hex("Hello, World!"), get_string_hex("Hello, World!"));
    assert_eq!(get_uint_hex(12345), get_uint_hex(12345));
    let bytes = vec![0x01, 0x02];
    assert_eq!(format_as_prefixed_hex(&bytes), format_as_prefixed_hex(&bytes));
}
