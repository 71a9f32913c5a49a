use urlcode::{AsciiCharset, Preset};

fn encode(preset: &Preset, src: &[u8]) -> Vec<u8> {
    let mut out = Vec::new();
    preset.encode_into(src, &mut out);
    out
}

fn decode(preset: &Preset, src: &[u8]) -> Vec<u8> {
    let mut out = Vec::new();
    preset.decode_into(src, &mut out);
    out
}

#[test]
fn form_urlencoded_example() {
    let preset = Preset::x_www_form_urlencoded();
    let encoded = encode(&preset, b"hello there/ asd23@#%23");
    assert_eq!(encoded, b"hello+there%2F+asd23%40%23%2523".to_vec());
    assert_eq!(decode(&preset, &encoded), b"hello there/ asd23@#%23".to_vec());
}

#[test]
fn all_and_none_examples() {
    assert_eq!(encode(&Preset::all(), b"a sdf"), b"%61%20%73%64%66".to_vec());
    let mut all_plus = Preset::all();
    all_plus.set_space_as_plus(true);
    assert_eq!(encode(&all_plus, b"a sdf"), b"%61+%73%64%66".to_vec());
    let mut none = Preset::none();
    none.set_encode_charset(none.encode_charset().add_all(b"ad"));
    assert_eq!(encode(&none, b"a sdf"), b"%61 s%64f".to_vec());
    assert_eq!(encode(&Preset::none(), b"a %41\xff"), b"a %41\xff".to_vec());
}

#[test]
fn non_ascii_bytes() {
    let mut preset = Preset::x_www_form_urlencoded();
    assert_eq!(encode(&preset, "abc αβγ".as_bytes()), "abc+αβγ".as_bytes().to_vec());
    preset.set_ascii_only(true);
    assert_eq!(
        encode(&preset, "abc αβγ".as_bytes()),
        b"abc+%CE%B1%CE%B2%CE%B3".to_vec()
    );
    assert!(preset.ascii_only() && preset.space_as_plus());
    assert_eq!(decode(&preset, b"abc+%CE%B1%ce%b2%CE%B3"), "abc αβγ".as_bytes().to_vec());
}

#[test]
fn flags() {
    let mut p = Preset::new(AsciiCharset::path());
    assert!(!p.space_as_plus() && !p.ascii_only());
    p.set_space_as_plus(true);
    assert!(p.space_as_plus() && !p.ascii_only());
    p.set_ascii_only(true);
    assert!(p.space_as_plus() && p.ascii_only());
    p.set_space_as_plus(false);
    assert!(!p.space_as_plus() && p.ascii_only());
    p.set_ascii_only(false);
    assert!(!p.space_as_plus() && !p.ascii_only());
    assert_eq!(p.encode_charset(), AsciiCharset::path());
    assert!(Preset::all().ascii_only());
    assert!(Preset::x_www_form_urlencoded().space_as_plus());
    assert_eq!(Preset::control().encode_charset(), AsciiCharset::control());
    assert_eq!(Preset::fragment().encode_charset(), AsciiCharset::fragment());
    assert_eq!(Preset::query().encode_charset(), AsciiCharset::query());
    assert_eq!(Preset::special_query().encode_charset(), AsciiCharset::special_query());
    assert_eq!(Preset::userinfo().encode_charset(), AsciiCharset::userinfo());
    assert_eq!(Preset::component().encode_charset(), AsciiCharset::component());
    assert_eq!(Preset::path().encode_charset(), AsciiCharset::path());
}

#[test]
fn decode_edge_cases() {
    let plain = Preset::none();
    assert_eq!(decode(&plain, b"%"), b"%".to_vec());
    assert_eq!(decode(&plain, b"%4"), b"%4".to_vec());
    assert_eq!(decode(&plain, b"%4g%41"), b"%4gA".to_vec());
    assert_eq!(decode(&plain, b"%%41"), b"%A".to_vec());
    assert_eq!(decode(&plain, b"a+b"), b"a+b".to_vec());
    assert_eq!(decode(&Preset::x_www_form_urlencoded(), b"a+b%2B"), b"a b+".to_vec());
    let mut dst = b"xy".to_vec();
    plain.decode_into(b"%7a", &mut dst);
    assert_eq!(dst, b"xyz".to_vec());
}

#[test]
fn encode_appends() {
    let mut dst = b"q=".to_vec();
    Preset::component().encode_into(b"a&b c", &mut dst);
    assert_eq!(dst, b"q=a%26b%20c".to_vec());
    assert_eq!(encode(&Preset::control(), b"\x00\x1f \x7f"), b"%00%1F %7F".to_vec());
}

#[test]
fn roundtrip_when_percent_is_encoded() {
    let inputs: [&[u8]; 4] = [b"", b"100% + 1 = ?", b"\x00\xff%2B+ ", b"%41%zz++"];
    for input in inputs {
        for preset in [Preset::x_www_form_urlencoded(), Preset::component(), Preset::all()] {
            assert_eq!(decode(&preset, &encode(&preset, input)), input.to_vec());
        }
    }
    // Without `%` in the set the round trip can fail.
    assert_eq!(decode(&Preset::none(), &encode(&Preset::none(), b"%41")), b"A".to_vec());
}
