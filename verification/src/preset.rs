//! Percent-encoding presets: the characters to encode and a couple of flags.
use vstd::prelude::*;

use crate::charset::{
    ascii_bytes, component_set, control_set, fragment_set, path_set, query_set, special_query_set,
    userinfo_set, x_www_form_urlencoded_set, AsciiCharset,
};
use crate::codec::{
    decoded, encoded, lemma_decode_inverts_encode, lemma_decode_stray_percent,
    lemma_space_becomes_plus, PERCENT, PLUS, SPACE,
};
use crate::hex;

verus! {

/// Space should be encoded/decoded as a `+` character.
const FLAG_SPACE_AS_PLUS: u8 = 1;

/// Non-ascii characters should be encoded.
const FLAG_ASCII_ONLY: u8 = 2;

/// A percent-encoding preset.
///
/// This is an [`AsciiCharset`] representing the characters to encode and a couple flags.
pub struct Preset {
    encode_charset: AsciiCharset,
    flags: u8,
}

proof fn lemma_flags(flags: u8)
    by (bit_vector)
    ensures
        (flags | 1) & 1 != 0,
        ((flags | 1) & 2 != 0) == (flags & 2 != 0),
        (flags & !1u8) & 1 == 0,
        ((flags & !1u8) & 2 != 0) == (flags & 2 != 0),
        (flags | 2) & 2 != 0,
        ((flags | 2) & 1 != 0) == (flags & 1 != 0),
        (flags & !2u8) & 2 == 0,
        ((flags & !2u8) & 1 != 0) == (flags & 1 != 0),
        0u8 & 1 == 0,
        0u8 & 2 == 0,
{
}

impl Preset {
    /// The characters that are percent-encoded.
    pub closed spec fn spec_encode_charset(self) -> Set<u8> {
        self.encode_charset@
    }

    /// Whether spaces are encoded as `+` (and `+` decoded as a space).
    pub closed spec fn spec_space_as_plus(self) -> bool {
        self.flags & FLAG_SPACE_AS_PLUS != 0
    }

    /// Whether non-ascii bytes are encoded.
    pub closed spec fn spec_ascii_only(self) -> bool {
        self.flags & FLAG_ASCII_ONLY != 0
    }

    /// What encoding a byte string with this preset gives.
    pub open spec fn spec_encode(self, src: Seq<u8>) -> Seq<u8> {
        encoded(self.spec_encode_charset(), self.spec_space_as_plus(), self.spec_ascii_only(), src)
    }

    /// What decoding a byte string with this preset gives.
    pub open spec fn spec_decode(self, src: Seq<u8>) -> Seq<u8> {
        decoded(src, self.spec_space_as_plus())
    }

    /// Create a new preset.
    pub fn new(encode_charset: AsciiCharset) -> (r: Self)
        ensures
            r.spec_encode_charset() == encode_charset@,
            !r.spec_space_as_plus(),
            !r.spec_ascii_only(),
    {
        proof { lemma_flags(0); }
        let flags: u8 = 0;
        Self { encode_charset, flags }
    }

    /// Encodes the C0 control percent-encode set.
    pub fn control() -> (r: Self)
        ensures
            r.spec_encode_charset() == control_set(),
            !r.spec_space_as_plus(),
            !r.spec_ascii_only(),
    {
        Self::new(AsciiCharset::control())
    }

    /// Encodes the fragment percent-encode set.
    pub fn fragment() -> (r: Self)
        ensures
            r.spec_encode_charset() == fragment_set(),
            !r.spec_space_as_plus(),
            !r.spec_ascii_only(),
    {
        Self::new(AsciiCharset::fragment())
    }

    /// Encodes the query percent-encode set.
    pub fn query() -> (r: Self)
        ensures
            r.spec_encode_charset() == query_set(),
            !r.spec_space_as_plus(),
            !r.spec_ascii_only(),
    {
        Self::new(AsciiCharset::query())
    }

    /// Encodes the special-query percent-encode set.
    pub fn special_query() -> (r: Self)
        ensures
            r.spec_encode_charset() == special_query_set(),
            !r.spec_space_as_plus(),
            !r.spec_ascii_only(),
    {
        Self::new(AsciiCharset::special_query())
    }

    /// Encodes the path percent-encode set.
    pub fn path() -> (r: Self)
        ensures
            r.spec_encode_charset() == path_set(),
            !r.spec_space_as_plus(),
            !r.spec_ascii_only(),
    {
        Self::new(AsciiCharset::path())
    }

    /// Encodes the userinfo percent-encode set.
    pub fn userinfo() -> (r: Self)
        ensures
            r.spec_encode_charset() == userinfo_set(),
            !r.spec_space_as_plus(),
            !r.spec_ascii_only(),
    {
        Self::new(AsciiCharset::userinfo())
    }

    /// Encodes the component percent-encode set.
    pub fn component() -> (r: Self)
        ensures
            r.spec_encode_charset() == component_set(),
            !r.spec_space_as_plus(),
            !r.spec_ascii_only(),
    {
        Self::new(AsciiCharset::component())
    }

    /// The `application/x-www-form-urlencoded` preset: its percent-encode set, and spaces as `+`.
    pub fn x_www_form_urlencoded() -> (r: Self)
        ensures
            r.spec_encode_charset() == x_www_form_urlencoded_set(),
            r.spec_space_as_plus(),
            !r.spec_ascii_only(),
    {
        let mut r = Self::new(AsciiCharset::x_www_form_urlencoded());
        r.set_space_as_plus(true);
        r
    }

    /// Percent-encodes all bytes.
    pub fn all() -> (r: Self)
        ensures
            r.spec_encode_charset() == ascii_bytes(),
            !r.spec_space_as_plus(),
            r.spec_ascii_only(),
    {
        let mut r = Self::new(AsciiCharset::all());
        r.set_ascii_only(true);
        r
    }

    /// Percent-encodes no bytes.
    pub fn none() -> (r: Self)
        ensures
            r.spec_encode_charset() == Set::<u8>::empty(),
            !r.spec_space_as_plus(),
            !r.spec_ascii_only(),
    {
        Self::new(AsciiCharset::empty())
    }

    /// Set the set of ascii characters that are expected to be percent-encoded.
    pub fn set_encode_charset(&mut self, encode_charset: AsciiCharset)
        ensures
            final(self).spec_encode_charset() == encode_charset@,
            final(self).spec_space_as_plus() == old(self).spec_space_as_plus(),
            final(self).spec_ascii_only() == old(self).spec_ascii_only(),
    {
        self.encode_charset = encode_charset;
    }

    /// Get the set of ascii characters that are expected to be percent-encoded.
    pub fn encode_charset(&self) -> (r: AsciiCharset)
        ensures
            r@ == self.spec_encode_charset(),
    {
        self.encode_charset
    }

    /// Encodes spaces as '+' when set.
    ///
    /// The url spec does not mention what decoding with this setting means, but this
    /// implementation will decode '+' into ' ' when this option is set.
    ///
    /// Defaults to false, though needs to be set for `application/x-www-form-urlencoded`.
    pub fn set_space_as_plus(&mut self, space_as_plus: bool)
        ensures
            final(self).spec_space_as_plus() == space_as_plus,
            final(self).spec_encode_charset() == old(self).spec_encode_charset(),
            final(self).spec_ascii_only() == old(self).spec_ascii_only(),
    {
        proof { lemma_flags(self.flags); }
        if space_as_plus {
            self.flags = self.flags | FLAG_SPACE_AS_PLUS;
        } else {
            self.flags = self.flags & !FLAG_SPACE_AS_PLUS;
        }
    }

    /// Get the value of the 'space as plus' setting.
    pub fn space_as_plus(&self) -> (r: bool)
        ensures
            r == self.spec_space_as_plus(),
    {
        (self.flags & FLAG_SPACE_AS_PLUS) != 0
    }

    /// Encodes all non-ascii bytes when set.
    ///
    /// Defaults to false, as the [spec](https://url.spec.whatwg.org/#percent-encoded-bytes) would
    /// suggest.
    pub fn set_ascii_only(&mut self, ascii_only: bool)
        ensures
            final(self).spec_ascii_only() == ascii_only,
            final(self).spec_encode_charset() == old(self).spec_encode_charset(),
            final(self).spec_space_as_plus() == old(self).spec_space_as_plus(),
    {
        proof { lemma_flags(self.flags); }
        if ascii_only {
            self.flags = self.flags | FLAG_ASCII_ONLY;
        } else {
            self.flags = self.flags & !FLAG_ASCII_ONLY;
        }
    }

    /// Get the value of the 'ascii only' setting.
    pub fn ascii_only(&self) -> (r: bool)
        ensures
            r == self.spec_ascii_only(),
    {
        (self.flags & FLAG_ASCII_ONLY) != 0
    }

    /// Appends percent-encoded bytes from `src` into `dst`.
    pub fn encode_into(&self, src: &[u8], dst: &mut Vec<u8>)
        ensures
            final(dst)@ == old(dst)@ + self.spec_encode(src@),
    {
        let space_as_plus = self.space_as_plus();
        let ascii_only = self.ascii_only();
        let ghost set = self.spec_encode_charset();
        let ghost start = dst@;
        let mut i: usize = 0;
        assert(src@.skip(0) =~= src@);
        while i < src.len()
            invariant
                i <= src.len(),
                space_as_plus == self.spec_space_as_plus(),
                ascii_only == self.spec_ascii_only(),
                set == self.spec_encode_charset(),
                start + encoded(set, space_as_plus, ascii_only, src@) == dst@ + encoded(
                    set,
                    space_as_plus,
                    ascii_only,
                    src@.skip(i as int),
                ),
            decreases src.len() - i,
        {
            let ghost before = dst@;
            let c = src[i];
            if c == SPACE && space_as_plus {
                dst.push(PLUS);
            } else if self.encode_charset.contains(c) || (ascii_only && c >= 128) {
                dst.push(PERCENT);
                let (hi, lo) = hex::to_hex(c);
                dst.push(hi);
                dst.push(lo);
            } else {
                dst.push(c);
            }
            assert(src@.skip(i as int).skip(1) =~= src@.skip(i + 1));
            assert(src@.skip(i as int)[0] == c);
            assert(before + encoded(set, space_as_plus, ascii_only, src@.skip(i as int)) =~= dst@
                + encoded(set, space_as_plus, ascii_only, src@.skip(i + 1)));
            i = i + 1;
        }
        assert(dst@ =~= start + encoded(set, space_as_plus, ascii_only, src@));
    }

    /// Appends percent-decoded bytes from `src` into `dst`.
    pub fn decode_into(&self, src: &[u8], dst: &mut Vec<u8>)
        ensures
            final(dst)@ == old(dst)@ + self.spec_decode(src@),
    {
        let space_as_plus = self.space_as_plus();
        let ghost start = dst@;
        let mut i: usize = 0;
        assert(src@.skip(0) =~= src@);
        while i < src.len()
            invariant
                i <= src.len(),
                space_as_plus == self.spec_space_as_plus(),
                start + decoded(src@, space_as_plus) == dst@ + decoded(
                    src@.skip(i as int),
                    space_as_plus,
                ),
            decreases src.len() - i,
        {
            let ghost before = dst@;
            let ghost rest = src@.skip(i as int);
            let c = src[i];
            assert(rest[0] == c);
            if c != PERCENT {
                if space_as_plus && c == PLUS {
                    dst.push(SPACE);
                } else {
                    dst.push(c);
                }
                assert(rest.skip(1) =~= src@.skip(i + 1));
                assert(before + decoded(rest, space_as_plus) =~= dst@ + decoded(
                    src@.skip(i + 1),
                    space_as_plus,
                ));
                i = i + 1;
            } else {
                let mut byte: Option<u8> = None;
                if src.len() - i >= 3 {
                    byte = hex::from_hex(src[i + 1], src[i + 2]);
                    assert(rest[1] == src[i + 1] && rest[2] == src[i + 2]);
                }
                match byte {
                    Some(b) => {
                        dst.push(b);
                        assert(rest.skip(3) =~= src@.skip(i + 3));
                        assert(before + decoded(rest, space_as_plus) =~= dst@ + decoded(
                            src@.skip(i + 3),
                            space_as_plus,
                        ));
                        i = i + 3;
                    },
                    None => {
                        dst.push(c);
                        assert(rest.skip(1) =~= src@.skip(i + 1));
                        assert(before + decoded(rest, space_as_plus) =~= dst@ + decoded(
                            src@.skip(i + 1),
                            space_as_plus,
                        ));
                        i = i + 1;
                    },
                }
            }
        }
        assert(src@.skip(src.len() as int) =~= Seq::<u8>::empty());
        assert(dst@ =~= start + decoded(src@, space_as_plus));
    }
}

/// Decoding with a preset undoes encoding with it, provided that the preset encodes `%`
/// and, when it writes spaces as `+`, encodes `+` too.
pub proof fn lemma_preset_decode_inverts_encode(p: Preset, s: Seq<u8>)
    requires
        p.spec_encode_charset().contains(PERCENT),
        p.spec_space_as_plus() ==> p.spec_encode_charset().contains(PLUS),
    ensures
        p.spec_decode(p.spec_encode(s)) == s,
{
    lemma_decode_inverts_encode(
        p.spec_encode_charset(),
        p.spec_space_as_plus(),
        p.spec_ascii_only(),
        s,
    );
}

/// The `application/x-www-form-urlencoded` set encodes both `%` and `+`, so decoding undoes
/// encoding with it whatever the flags.
pub proof fn lemma_form_urlencoded_roundtrip(space_as_plus: bool, ascii_only: bool, s: Seq<u8>)
    ensures
        decoded(encoded(x_www_form_urlencoded_set(), space_as_plus, ascii_only, s), space_as_plus)
            == s,
{
    assert(x_www_form_urlencoded_set().contains(PERCENT));
    assert(x_www_form_urlencoded_set().contains(PLUS));
    lemma_decode_inverts_encode(x_www_form_urlencoded_set(), space_as_plus, ascii_only, s);
}

/// A preset that writes spaces as `+` turns each space of the input into exactly one `+` in
/// its place, whatever its charset holds, and leaves no space in what it writes.
pub proof fn lemma_preset_space_as_plus(p: Preset, s1: Seq<u8>, s2: Seq<u8>)
    requires
        p.spec_space_as_plus(),
    ensures
        p.spec_encode(s1 + seq![SPACE] + s2) == p.spec_encode(s1) + seq![PLUS] + p.spec_encode(
            s2,
        ),
        !p.spec_encode(s1).contains(SPACE),
{
    lemma_space_becomes_plus(p.spec_encode_charset(), p.spec_ascii_only(), s1, s2);
}

/// Decoding with any preset keeps a `%` that is not followed by two hex digits, and goes on
/// with the byte after it.
pub proof fn lemma_preset_keeps_stray_percent(p: Preset, s: Seq<u8>)
    requires
        s.len() > 0,
        s[0] == PERCENT,
        !(s.len() >= 3 && hex::is_hex_digit(s[1]) && hex::is_hex_digit(s[2])),
    ensures
        p.spec_decode(s) == seq![PERCENT] + p.spec_decode(s.skip(1)),
{
    lemma_decode_stray_percent(s, p.spec_space_as_plus());
}

} // verus!
