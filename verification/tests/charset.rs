use urlcode::AsciiCharset;

#[test]
fn create() {
    let set = AsciiCharset::new(b"abcd1234");
    assert!(set.contains(b'b'));
    assert!(set.contains(b'3'));
    assert!(!set.contains(b'e'));
    assert!(!set.contains(b'5'));

    assert_eq!(set.remove_all(b"c3"), AsciiCharset::new(b"abd124"));
}

#[test]
fn op_add() {
    let mut set = AsciiCharset::new(b"a1");
    set += b'b';
    assert_eq!(set, AsciiCharset::new(b"ab1"));
}

#[test]
fn op_remove() {
    let mut set = AsciiCharset::new(b"a1");
    set -= b'a';
    assert_eq!(set, AsciiCharset::new(b"1"));
}

#[test]
fn complement() {
    let a = AsciiCharset::new(b"ab12");
    let res = !a;
    assert_eq!(res, a.complement());
    assert!(!res.contains(b'a'));
    assert!(!res.contains(b'b'));
    assert!(!res.contains(b'1'));
    assert!(!res.contains(b'2'));
}

#[test]
fn union() {
    let a = AsciiCharset::new(b"ab12");
    let b = AsciiCharset::new(b"cd34");
    let res = a + b;
    assert_eq!(res, a.union(b));
    assert_eq!(res, b.union(a));
    assert_eq!(res, AsciiCharset::new(b"abcd1234"));
}

#[test]
fn intersection() {
    let a = AsciiCharset::new(b"abc123");
    let b = AsciiCharset::new(b"cd34");
    let res = a.intersection(b);
    assert_eq!(res, b.intersection(a));
    assert_eq!(res, AsciiCharset::new(b"c3"));
}

#[test]
fn difference() {
    let set_a = AsciiCharset::new(b"abc123");
    let set_b = AsciiCharset::new(b"cd34");
    assert_eq!(set_a - set_b, AsciiCharset::new(b"ab12"));
}

#[test]
fn debug() {
    assert_eq!(
        AsciiCharset::new(b"\0aabc123").debug_string(),
        r#"AsciiCharset("\0123abc")"#
    );
}

#[test]
fn control() {
    let set = AsciiCharset::control();
    assert!(set.contains(0x1F));
    assert!(!set.contains(0x20));
    assert!(!set.contains(0x7E));
    assert!(set.contains(0x7F));
    assert!(!set.contains(0x80));
}

#[test]
fn x_www_form_urlencoded() {
    assert_eq!(
        AsciiCharset::x_www_form_urlencoded().complement(),
        AsciiCharset::new(
            b"*-.0123456789ABCDEFGHIJKLMNOPQRSTUVWXYZ_abcdefghijklmnopqrstuvwxyz"
        )
    )
}

#[test]
fn complement_keeps_non_ascii_out() {
    let all = AsciiCharset::empty().complement();
    assert_eq!(all, AsciiCharset::all());
    for c in 0u8..=255 {
        assert_eq!(all.contains(c), c < 128);
    }
    assert_eq!(!!AsciiCharset::new(b"xyz"), AsciiCharset::new(b"xyz"));
}

#[test]
fn add_remove_single() {
    let set = AsciiCharset::empty().add(b'~').add(0x7F).add(0);
    assert!(set.contains(b'~') && set.contains(0x7F) && set.contains(0));
    assert!(!set.contains(b'}'));
    let set = set.remove(0x7F);
    assert!(!set.contains(0x7F));
    assert_eq!(set, AsciiCharset::new(b"~\0"));
    assert_eq!(set + b'q', AsciiCharset::new(b"~\0q"));
    assert_eq!(set - b'~', AsciiCharset::new(b"\0"));
    let mut other = AsciiCharset::new(b"ab");
    other += AsciiCharset::new(b"bc");
    assert_eq!(other, AsciiCharset::new(b"abc"));
    other -= AsciiCharset::new(b"a");
    assert_eq!(other, AsciiCharset::new(b"bc"));
}

#[test]
fn iterate_in_order() {
    let mut it = AsciiCharset::new(b"zA0\x7f\0 ").into_iter();
    let mut seen = Vec::new();
    while let Some(c) = it.next() {
        seen.push(c);
    }
    assert_eq!(seen, vec![0u8, b' ', b'0', b'A', b'z', 0x7F]);
    assert_eq!(it.next(), None);
    assert_eq!(AsciiCharset::empty().into_iter().next(), None);
}

#[test]
fn debug_escapes() {
    assert_eq!(
        AsciiCharset::new(b"\t\n\r\"'\\\x01\x1b\x7f").debug_string(),
        "AsciiCharset(\"\\u{1}\\t\\n\\r\\u{1b}\\\"\\'\\\\\\u{7f}\")"
    );
    assert_eq!(AsciiCharset::empty().debug_string(), "AsciiCharset(\"\")");
    let expected: String = {
        let mut s = String::from("AsciiCharset(\"");
        for c in 0u8..128 {
            s.extend((c as char).escape_debug());
        }
        s.push_str("\")");
        s
    };
    assert_eq!(AsciiCharset::all().debug_string(), expected);
}

#[test]
fn named_sets() {
    assert_eq!(AsciiCharset::fragment(), AsciiCharset::control().add_all(b" \"<>`"));
    assert_eq!(AsciiCharset::query(), AsciiCharset::control().add_all(b" \"<>#"));
    assert_eq!(AsciiCharset::special_query(), AsciiCharset::query().add(b'\''));
    assert_eq!(AsciiCharset::path(), AsciiCharset::query().add_all(b"?^`{}"));
    assert_eq!(AsciiCharset::userinfo(), AsciiCharset::path().add_all(b"/:;=@[\\]|"));
    assert_eq!(AsciiCharset::component(), AsciiCharset::userinfo().add_all(b"$%&+,"));
    assert!(AsciiCharset::component().contains(b'%'));
    assert!(!AsciiCharset::query().contains(b'\''));
}

#[test]
fn iterator_yields_members_once_ascending() {
    let set = AsciiCharset::x_www_form_urlencoded();
    let mut it = set.into_iter();
    let mut seen = Vec::new();
    while let Some(c) = it.next() {
        seen.push(c);
    }
    assert!(seen.windows(2).all(|w| w[0] < w[1]));
    for c in 0u8..=255 {
        assert_eq!(seen.contains(&c), set.contains(c));
    }
    assert_eq!(it.next(), None);
    assert_eq!(it.next(), None);
}

#[test]
fn non_alphanumeric_set() {
    let set = AsciiCharset::non_alphanumeric();
    for c in 0u8..=255 {
        assert_eq!(set.contains(c), c < 128 && !c.is_ascii_alphanumeric());
    }
}
