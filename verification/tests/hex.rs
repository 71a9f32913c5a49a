use urlcode::hex::{from_hex, to_hex};

#[test]
fn roundtrip() {
    // Test we can from all bytes to hex and back.
    for b in u8::MIN..=u8::MAX {
        let (hi, lo) = to_hex(b);
        assert_eq!(from_hex(hi, lo), Some(b));
    }
}

#[test]
fn invalid() {
    // Test no non-hex digits parse as valid bytes.
    for hi in u8::MIN..=u8::MAX {
        for lo in u8::MIN..=u8::MAX {
            let res = from_hex(hi, lo);

            if hi.is_ascii_hexdigit() && lo.is_ascii_hexdigit() {
                assert!(res.is_some());
            } else {
                assert_eq!(res, None);
            }
        }
    }
}

#[test]
fn digits_values() {
    assert_eq!(to_hex(0x00), (b'0', b'0'));
    assert_eq!(to_hex(0xAB), (b'A', b'B'));
    assert_eq!(to_hex(0x9f), (b'9', b'F'));
    assert_eq!(from_hex(b'f', b'F'), Some(0xFF));
    assert_eq!(from_hex(b'2', b'a'), Some(0x2A));
    assert_eq!(from_hex(b'g', b'0'), None);
    assert_eq!(from_hex(b'0', b'G'), None);
    assert_eq!(from_hex(b'@', b'0'), None);
}
