//! What percent-encoding and percent-decoding make of a byte string.
use vstd::prelude::*;

use crate::charset::{all_ascii, ascii_bytes};
use crate::hex::{hex_digit, hex_pair_value, hex_value, is_hex_digit, lemma_hex_roundtrip};

verus! {

/// `'%'`
pub const PERCENT: u8 = 0x25;
/// `'+'`
pub const PLUS: u8 = 0x2B;
/// `' '`
pub const SPACE: u8 = 0x20;

/// `%` followed by the two upper-case hex digits of `c`.
pub open spec fn percent_escape(c: u8) -> Seq<u8> {
    seq![PERCENT, hex_digit(c / 16), hex_digit(c % 16)]
}

/// Whether a byte is written as a `%` escape: it is in the set, or it is not ASCII and
/// non-ASCII bytes are to be encoded.
pub open spec fn escapes(set: Set<u8>, ascii_only: bool, c: u8) -> bool {
    set.contains(c) || (ascii_only && c >= 128)
}

/// What one byte becomes: a space is `+` when spaces go as plus signs, an escaped byte is
/// `%XX`, and any other byte stays as it is.
pub open spec fn encoded_byte(set: Set<u8>, space_as_plus: bool, ascii_only: bool, c: u8) -> Seq<u8> {
    if c == SPACE && space_as_plus {
        seq![PLUS]
    } else if escapes(set, ascii_only, c) {
        percent_escape(c)
    } else {
        seq![c]
    }
}

/// The percent-encoding of a byte string: each byte encoded in turn.
pub open spec fn encoded(set: Set<u8>, space_as_plus: bool, ascii_only: bool, s: Seq<u8>) -> Seq<u8>
    decreases s.len(),
{
    if s.len() == 0 {
        Seq::empty()
    } else {
        encoded_byte(set, space_as_plus, ascii_only, s[0]) + encoded(
            set,
            space_as_plus,
            ascii_only,
            s.skip(1),
        )
    }
}

/// The percent-decoding of a byte string, read from the left: `%` and two hex digits give the
/// byte they spell; `+` gives a space when spaces go as plus signs; any other byte, a `%`
/// that does not start a valid escape among them, stays as it is.
pub open spec fn decoded(s: Seq<u8>, space_as_plus: bool) -> Seq<u8>
    decreases s.len(),
{
    if s.len() == 0 {
        Seq::empty()
    } else if s[0] != PERCENT {
        seq![if space_as_plus && s[0] == PLUS { SPACE } else { s[0] }] + decoded(
            s.skip(1),
            space_as_plus,
        )
    } else if s.len() >= 3 && hex_pair_value(s[1], s[2]) is Some {
        seq![hex_pair_value(s[1], s[2])->0] + decoded(s.skip(3), space_as_plus)
    } else {
        seq![PERCENT] + decoded(s.skip(1), space_as_plus)
    }
}

/// Decoding the encoding of one byte followed by anything gives that byte back, followed by
/// the decoding of the rest.
proof fn lemma_decode_encoded_byte(
    set: Set<u8>,
    space_as_plus: bool,
    ascii_only: bool,
    c: u8,
    rest: Seq<u8>,
)
    requires
        set.contains(PERCENT),
        space_as_plus ==> set.contains(PLUS),
    ensures
        decoded(encoded_byte(set, space_as_plus, ascii_only, c) + rest, space_as_plus) == seq![c]
            + decoded(rest, space_as_plus),
{
    let e = encoded_byte(set, space_as_plus, ascii_only, c);
    let t = e + rest;
    if c == SPACE && space_as_plus {
        assert(t.skip(1) =~= rest);
    } else if escapes(set, ascii_only, c) {
        lemma_hex_roundtrip(c);
        assert(t[0] == PERCENT && t[1] == hex_digit(c / 16) && t[2] == hex_digit(c % 16));
        assert(t.skip(3) =~= rest);
    } else {
        assert(t.skip(1) =~= rest);
    }
}

/// Decoding undoes encoding, provided that `%` is always escaped and, when spaces go as plus
/// signs, that `+` is escaped too.
pub proof fn lemma_decode_inverts_encode(
    set: Set<u8>,
    space_as_plus: bool,
    ascii_only: bool,
    s: Seq<u8>,
)
    requires
        set.contains(PERCENT),
        space_as_plus ==> set.contains(PLUS),
    ensures
        decoded(encoded(set, space_as_plus, ascii_only, s), space_as_plus) == s,
    decreases s.len(),
{
    if s.len() > 0 {
        lemma_decode_inverts_encode(set, space_as_plus, ascii_only, s.skip(1));
        lemma_decode_encoded_byte(
            set,
            space_as_plus,
            ascii_only,
            s[0],
            encoded(set, space_as_plus, ascii_only, s.skip(1)),
        );
        assert(s =~= seq![s[0]] + s.skip(1));
    }
}

/// With an empty set and neither flag, encoding leaves every byte string as it is.
pub proof fn lemma_encode_empty_set_is_identity(s: Seq<u8>)
    ensures
        encoded(Set::empty(), false, false, s) == s,
    decreases s.len(),
{
    if s.len() > 0 {
        lemma_encode_empty_set_is_identity(s.skip(1));
        assert(s =~= seq![s[0]] + s.skip(1));
    }
}

/// When every ASCII byte is in the set and non-ASCII bytes are encoded, every byte becomes
/// its three-byte `%XX` escape.
pub proof fn lemma_encode_all_escapes_every_byte(s: Seq<u8>)
    ensures
        encoded(ascii_bytes(), false, true, s).len() == 3 * s.len(),
        forall|i: int|
            0 <= i < s.len() ==> encoded(ascii_bytes(), false, true, s).subrange(3 * i, 3 * i + 3)
                == percent_escape(#[trigger] s[i]),
    decreases s.len(),
{
    if s.len() > 0 {
        let rest = s.skip(1);
        lemma_encode_all_escapes_every_byte(rest);
        let out = encoded(ascii_bytes(), false, true, s);
        let out_rest = encoded(ascii_bytes(), false, true, rest);
        assert(out == percent_escape(s[0]) + out_rest);
        assert forall|i: int| 0 <= i < s.len() implies out.subrange(3 * i, 3 * i + 3)
            == percent_escape(#[trigger] s[i]) by {
            if i == 0 {
                assert(out.subrange(0, 3) =~= percent_escape(s[0]));
            } else {
                assert(rest[i - 1] == s[i]);
                assert(out_rest.subrange(3 * (i - 1), 3 * (i - 1) + 3) == percent_escape(rest[i - 1]));
                assert(out.subrange(3 * i, 3 * i + 3) =~= out_rest.subrange(3 * (i - 1), 3 * (i - 1) + 3));
            }
        }
    }
}

/// When non-ASCII bytes are encoded, the encoding is all ASCII.
pub proof fn lemma_ascii_only_output_is_ascii(
    set: Set<u8>,
    space_as_plus: bool,
    s: Seq<u8>,
)
    ensures
        all_ascii(encoded(set, space_as_plus, true, s)),
    decreases s.len(),
{
    if s.len() > 0 {
        lemma_ascii_only_output_is_ascii(set, space_as_plus, s.skip(1));
        let e = encoded_byte(set, space_as_plus, true, s[0]);
        let out_rest = encoded(set, space_as_plus, true, s.skip(1));
        let out = e + out_rest;
        assert forall|i: int| 0 <= i < out.len() implies #[trigger] out[i] < 128 by {
            if i >= e.len() {
                assert(out[i] == out_rest[i - e.len()]);
            }
        }
    }
}

/// Encoding works byte by byte: the encoding of two strings one after the other is the
/// encoding of the first followed by the encoding of the second.
pub proof fn lemma_encode_concat(
    set: Set<u8>,
    space_as_plus: bool,
    ascii_only: bool,
    s1: Seq<u8>,
    s2: Seq<u8>,
)
    ensures
        encoded(set, space_as_plus, ascii_only, s1 + s2) == encoded(
            set,
            space_as_plus,
            ascii_only,
            s1,
        ) + encoded(set, space_as_plus, ascii_only, s2),
    decreases s1.len(),
{
    if s1.len() == 0 {
        assert(s1 + s2 =~= s2);
    } else {
        lemma_encode_concat(set, space_as_plus, ascii_only, s1.skip(1), s2);
        assert((s1 + s2).skip(1) =~= s1.skip(1) + s2);
        assert((s1 + s2)[0] == s1[0]);
    }
}

/// What one byte becomes: with spaces as plus signs a space is one `+`, whatever the set
/// holds; else a byte of the set, and a non-ascii byte when those are encoded, is `%` and
/// its two upper-case hex digits; any other byte stays as it is.
pub proof fn lemma_encode_one_byte(set: Set<u8>, space_as_plus: bool, ascii_only: bool, c: u8)
    ensures
        c == SPACE && space_as_plus ==> encoded(set, space_as_plus, ascii_only, seq![c]) == seq![
            PLUS,
        ],
        !(c == SPACE && space_as_plus) && (set.contains(c) || (ascii_only && c >= 128))
            ==> encoded(set, space_as_plus, ascii_only, seq![c]) == seq![
            PERCENT,
            hex_digit(c / 16),
            hex_digit(c % 16),
        ],
        !(c == SPACE && space_as_plus) && !set.contains(c) && !(ascii_only && c >= 128)
            ==> encoded(set, space_as_plus, ascii_only, seq![c]) == seq![c],
{
    assert(seq![c].skip(1) =~= Seq::<u8>::empty());
    assert(seq![c][0] == c);
    assert(encoded(set, space_as_plus, ascii_only, seq![c].skip(1)) == Seq::<u8>::empty());
    assert(encoded(set, space_as_plus, ascii_only, seq![c]) =~= encoded_byte(
        set,
        space_as_plus,
        ascii_only,
        c,
    ));
}

/// With spaces as plus signs, each space of the input becomes exactly one `+` in its place,
/// whatever the set holds, and no space is left in the encoding.
pub proof fn lemma_space_becomes_plus(set: Set<u8>, ascii_only: bool, s1: Seq<u8>, s2: Seq<u8>)
    ensures
        encoded(set, true, ascii_only, s1 + seq![SPACE] + s2) == encoded(set, true, ascii_only, s1)
            + seq![PLUS] + encoded(set, true, ascii_only, s2),
        !encoded(set, true, ascii_only, s1).contains(SPACE),
    decreases s1.len(),
{
    lemma_encode_concat(set, true, ascii_only, s1 + seq![SPACE], s2);
    lemma_encode_concat(set, true, ascii_only, s1, seq![SPACE]);
    lemma_encode_one_byte(set, true, ascii_only, SPACE);
    if s1.len() > 0 {
        lemma_space_becomes_plus(set, ascii_only, s1.skip(1), s2);
        let e = encoded_byte(set, true, ascii_only, s1[0]);
        let rest = encoded(set, true, ascii_only, s1.skip(1));
        lemma_hex_roundtrip(s1[0]);
        assert(!e.contains(SPACE));
        assert forall|i: int| 0 <= i < (e + rest).len() implies (e + rest)[i] != SPACE by {
            if i < e.len() {
                assert(e[i] != SPACE);
            } else {
                assert((e + rest)[i] == rest[i - e.len()]);
            }
        }
    }
}

/// A `%` that is not followed by two hex digits is kept as it is, and decoding goes on with
/// the byte after it; no byte is dropped.
pub proof fn lemma_decode_stray_percent(s: Seq<u8>, space_as_plus: bool)
    requires
        s.len() > 0,
        s[0] == PERCENT,
        !(s.len() >= 3 && is_hex_digit(s[1]) && is_hex_digit(s[2])),
    ensures
        decoded(s, space_as_plus) == seq![PERCENT] + decoded(s.skip(1), space_as_plus),
{
}

/// `%` and two hex digits (either case) decode to the byte they spell, and decoding goes on
/// after them.
pub proof fn lemma_decode_escape(hi: u8, lo: u8, rest: Seq<u8>, space_as_plus: bool)
    requires
        is_hex_digit(hi),
        is_hex_digit(lo),
    ensures
        decoded(seq![PERCENT, hi, lo] + rest, space_as_plus) == seq![
            (hex_value(hi)->0 * 16 + hex_value(lo)->0) as u8,
        ] + decoded(rest, space_as_plus),
{
    let s = seq![PERCENT, hi, lo] + rest;
    assert(s[0] == PERCENT && s[1] == hi && s[2] == lo);
    assert(s.skip(3) =~= rest);
}

/// Any byte but `%` decodes to itself, except `+`, which is a space when spaces go as plus
/// signs.
pub proof fn lemma_decode_plain_byte(c: u8, rest: Seq<u8>, space_as_plus: bool)
    requires
        c != PERCENT,
    ensures
        decoded(seq![c] + rest, space_as_plus) == seq![
            if space_as_plus && c == PLUS { SPACE } else { c },
        ] + decoded(rest, space_as_plus),
{
    let s = seq![c] + rest;
    assert(s[0] == c);
    assert(s.skip(1) =~= rest);
}

/// There is a valid `%XX` escape at position `i`.
pub open spec fn escape_at(s: Seq<u8>, i: int) -> bool {
    0 <= i && i + 2 < s.len() && s[i] == PERCENT && is_hex_digit(s[i + 1]) && is_hex_digit(
        s[i + 2],
    )
}

/// Decoding never makes a string longer, and leaves its length as it is when it holds no
/// valid `%XX` escape: every byte that starts no escape gives exactly one byte.
pub proof fn lemma_decode_length(s: Seq<u8>, space_as_plus: bool)
    ensures
        decoded(s, space_as_plus).len() <= s.len(),
        (forall|i: int| !escape_at(s, i)) ==> decoded(s, space_as_plus).len() == s.len(),
    decreases s.len(),
{
    if s.len() > 0 {
        lemma_decode_length(s.skip(1), space_as_plus);
        if s.len() >= 3 {
            lemma_decode_length(s.skip(3), space_as_plus);
        }
        if forall|i: int| !escape_at(s, i) {
            assert(!escape_at(s, 0));
            assert forall|i: int| !escape_at(s.skip(1), i) by {
                if escape_at(s.skip(1), i) {
                    assert(escape_at(s, i + 1));
                }
            }
        }
    }
}

} // verus!
