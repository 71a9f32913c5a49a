//! Sets of ASCII characters, stored as a 128-bit mask.
use vstd::prelude::*;

verus! {

/// Bit `k` of the word `w` is set.
pub open spec fn bit_set(w: u64, k: u64) -> bool {
    w & (1u64 << k) != 0
}

/// All ASCII bytes (U+0000 to U+007F inclusive).
pub open spec fn ascii_bytes() -> Set<u8> {
    Set::new(|c: u8| c < 128)
}

/// The bytes that occur in a sequence.
pub open spec fn bytes_of(s: Seq<u8>) -> Set<u8> {
    Set::new(|c: u8| s.contains(c))
}

/// Every byte of a sequence is ASCII.
pub open spec fn all_ascii(s: Seq<u8>) -> bool {
    forall|i: int| 0 <= i < s.len() ==> #[trigger] s[i] < 128
}

/// The [C0 control percent-encode set](https://url.spec.whatwg.org/#c0-control-percent-encode-set):
/// U+0000 NULL to U+001F INFORMATION SEPARATOR ONE, inclusive, and U+007F DEL.
pub open spec fn control_set() -> Set<u8> {
    Set::new(|c: u8| c < 0x20 || c == 0x7F)
}

/// The [fragment percent-encode set](https://url.spec.whatwg.org/#fragment-percent-encode-set):
/// the C0 control set and space, `"`, `<`, `>` and `` ` ``.
pub open spec fn fragment_set() -> Set<u8> {
    control_set().union(set![0x20u8, 0x22u8, 0x3Cu8, 0x3Eu8, 0x60u8])
}

/// The [query percent-encode set](https://url.spec.whatwg.org/#query-percent-encode-set):
/// the C0 control set and space, `"`, `#`, `<` and `>`.
pub open spec fn query_set() -> Set<u8> {
    control_set().union(set![0x20u8, 0x22u8, 0x23u8, 0x3Cu8, 0x3Eu8])
}

/// The [special-query percent-encode set](https://url.spec.whatwg.org/#special-query-percent-encode-set):
/// the query set and `'`.
pub open spec fn special_query_set() -> Set<u8> {
    query_set().insert(0x27u8)
}

/// The [path percent-encode set](https://url.spec.whatwg.org/#path-percent-encode-set):
/// the query set and `?`, `^`, `` ` ``, `{` and `}`.
pub open spec fn path_set() -> Set<u8> {
    query_set().union(set![0x3Fu8, 0x5Eu8, 0x60u8, 0x7Bu8, 0x7Du8])
}

/// The [userinfo percent-encode set](https://url.spec.whatwg.org/#userinfo-percent-encode-set):
/// the path set and `/`, `:`, `;`, `=`, `@`, `[`, `\`, `]` and `|`.
pub open spec fn userinfo_set() -> Set<u8> {
    path_set().union(set![0x2Fu8, 0x3Au8, 0x3Bu8, 0x3Du8, 0x40u8, 0x5Bu8, 0x5Cu8, 0x5Du8, 0x7Cu8])
}

/// The [component percent-encode set](https://url.spec.whatwg.org/#component-percent-encode-set):
/// the userinfo set and `$`, `%`, `&`, `+` and `,`.
pub open spec fn component_set() -> Set<u8> {
    userinfo_set().union(set![0x24u8, 0x25u8, 0x26u8, 0x2Bu8, 0x2Cu8])
}

/// The [application/x-www-form-urlencoded percent-encode set](https://url.spec.whatwg.org/#application-x-www-form-urlencoded-percent-encode-set):
/// the component set and `!`, `'`, `(`, `)` and `~`.
pub open spec fn x_www_form_urlencoded_set() -> Set<u8> {
    component_set().union(set![0x21u8, 0x27u8, 0x28u8, 0x29u8, 0x7Eu8])
}

/// The bytes among the first `i + 1` of a sequence are those among the first `i` and the
/// byte at `i`.
proof fn lemma_bytes_of_take_next(mask: Seq<u8>, i: int)
    requires
        0 <= i < mask.len(),
    ensures
        bytes_of(mask.take(i + 1)) == bytes_of(mask.take(i)).insert(mask[i]),
{
    let before = mask.take(i);
    let after = mask.take(i + 1);
    let c = mask[i];
    assert forall|d: u8| after.contains(d) == (before.contains(d) || d == c) by {
        if after.contains(d) {
            let j = choose|j: int| 0 <= j < after.len() && after[j] == d;
            if j < i {
                assert(before[j] == d);
            }
        }
        if before.contains(d) {
            let j = choose|j: int| 0 <= j < before.len() && before[j] == d;
            assert(after[j] == d);
        }
        if d == c {
            assert(after[i] == d);
        }
    }
    assert(bytes_of(after) =~= bytes_of(before).insert(c));
}

/// An ASCII letter or digit.
pub open spec fn is_ascii_alphanumeric(c: u8) -> bool {
    ||| 0x30 <= c <= 0x39
    ||| 0x41 <= c <= 0x5A
    ||| 0x61 <= c <= 0x7A
}

/// Every ASCII byte but the letters and digits.
pub open spec fn non_alphanumeric_set() -> Set<u8> {
    Set::new(|c: u8| c < 128 && !is_ascii_alphanumeric(c))
}

/// The bytes of a five-byte sequence.
proof fn lemma_bytes_of_5(a: u8, b: u8, c: u8, d: u8, e: u8)
    ensures
        bytes_of(seq![a, b, c, d, e]) == set![a, b, c, d, e],
{
    let s = seq![a, b, c, d, e];
    assert(s[0] == a && s[1] == b && s[2] == c && s[3] == d && s[4] == e);
    assert(bytes_of(s) =~= set![a, b, c, d, e]);
}

/// A set of ascii characters.
///
/// Byte `c` below 64 is bit `c` of `lo`; byte `c` from 64 to 127 is bit `c - 64` of `hi`.
#[derive(Clone, Copy, PartialEq, Eq, Hash, Debug, Structural)]
pub struct AsciiCharset {
    lo: u64,
    hi: u64,
}

impl AsciiCharset {
    /// Whether the mask holds byte `c`; bytes from 128 up are never held.
    pub closed spec fn has(self, c: u8) -> bool {
        if c < 64 {
            bit_set(self.lo, c as u64)
        } else if c < 128 {
            bit_set(self.hi, (c - 64) as u64)
        } else {
            false
        }
    }
}

impl View for AsciiCharset {
    type V = Set<u8>;

    open spec fn view(&self) -> Set<u8> {
        Set::new(|c: u8| self.has(c))
    }
}

proof fn lemma_bit_or(a: u64, b: u64, j: u64)
    by (bit_vector)
    requires
        j < 64,
    ensures
        bit_set(a | b, j) == (bit_set(a, j) || bit_set(b, j)),
{
}

proof fn lemma_bit_and(a: u64, b: u64, j: u64)
    by (bit_vector)
    requires
        j < 64,
    ensures
        bit_set(a & b, j) == (bit_set(a, j) && bit_set(b, j)),
{
}

proof fn lemma_bit_not(a: u64, j: u64)
    by (bit_vector)
    requires
        j < 64,
    ensures
        bit_set(!a, j) == !bit_set(a, j),
{
}

proof fn lemma_bit_single(k: u64, j: u64)
    by (bit_vector)
    requires
        k < 64,
        j < 64,
    ensures
        bit_set(1u64 << k, j) == (j == k),
{
}

proof fn lemma_shift_step(a: u64, b: u64, n: u64, m: u64)
    by (bit_vector)
    requires
        n < 64,
        m == n + 1,
        a >> m == b >> m,
        bit_set(a, n) == bit_set(b, n),
    ensures
        a >> n == b >> n,
{
}

proof fn lemma_shift_ends(a: u64)
    by (bit_vector)
    ensures
        a >> 64u64 == 0,
        a >> 0u64 == a,
{
}

/// Two words that agree on the bits from `n` up agree once shifted right by `n`.
proof fn lemma_high_bits_eq(a: u64, b: u64, n: u64)
    requires
        n <= 64,
        forall|j: u64| n <= j < 64 ==> bit_set(a, j) == bit_set(b, j),
    ensures
        a >> n == b >> n,
    decreases 64 - n,
{
    if n == 64 {
        lemma_shift_ends(a);
        lemma_shift_ends(b);
    } else {
        lemma_high_bits_eq(a, b, (n + 1) as u64);
        lemma_shift_step(a, b, n, (n + 1) as u64);
    }
}

/// Two words with the same bits are equal.
proof fn lemma_words_eq(a: u64, b: u64)
    requires
        forall|j: u64| j < 64 ==> bit_set(a, j) == bit_set(b, j),
    ensures
        a == b,
{
    lemma_high_bits_eq(a, b, 0);
    lemma_shift_ends(a);
    lemma_shift_ends(b);
}

/// Two charsets are equal exactly when they hold the same characters.
pub proof fn lemma_eq_iff_same_members(a: AsciiCharset, b: AsciiCharset)
    ensures
        (a == b) <==> (a@ == b@),
{
    if a@ == b@ {
        assert forall|j: u64| j < 64 implies bit_set(a.lo, j) == bit_set(b.lo, j) by {
            assert(a@.contains(j as u8) == b@.contains(j as u8));
        }
        assert forall|j: u64| j < 64 implies bit_set(a.hi, j) == bit_set(b.hi, j) by {
            assert(a@.contains((j + 64) as u8) == b@.contains((j + 64) as u8));
        }
        lemma_words_eq(a.lo, b.lo);
        lemma_words_eq(a.hi, b.hi);
    }
}

impl AsciiCharset {
    /// The charset that holds exactly the bytes of `s` (meaningful when `s` holds ASCII bytes only).
    pub closed spec fn from_members(s: Set<u8>) -> Self {
        choose|r: Self| r@ == s
    }

    /// The charset without members holds no byte.
    pub proof fn lemma_from_no_members()
        ensures
            Self::from_members(Set::empty())@ == Set::<u8>::empty(),
    {
        let e = AsciiCharset { lo: 0, hi: 0 };
        assert forall|j: u64| j < 64 implies !bit_set(0u64, j) by {
            assert(j < 64 ==> 0u64 & (1u64 << j) == 0) by (bit_vector);
        }
        assert(e@ =~= Set::<u8>::empty());
        let r = Self::from_members(Set::empty());
        assert(r@ == Set::<u8>::empty());
    }

    /// A charset is the charset of its own members.
    pub proof fn lemma_from_members(self)
        ensures
            Self::from_members(self@) == self,
    {
        let r = Self::from_members(self@);
        assert(r@ == self@);
        lemma_eq_iff_same_members(r, self);
    }
}

/// Union does not depend on the order of its operands: what `a.union(b)` returns equals
/// what `b.union(a)` returns.
pub proof fn lemma_union_commutes(a: AsciiCharset, b: AsciiCharset, ab: AsciiCharset, ba: AsciiCharset)
    requires
        ab@ == a@.union(b@),
        ba@ == b@.union(a@),
    ensures
        ab == ba,
{
    assert(ab@ =~= ba@);
    lemma_eq_iff_same_members(ab, ba);
}

/// Intersection does not depend on the order of its operands.
pub proof fn lemma_intersection_commutes(
    a: AsciiCharset,
    b: AsciiCharset,
    ab: AsciiCharset,
    ba: AsciiCharset,
)
    requires
        ab@ == a@.intersect(b@),
        ba@ == b@.intersect(a@),
    ensures
        ab == ba,
{
    assert(ab@ =~= ba@);
    lemma_eq_iff_same_members(ab, ba);
}

/// Taking the complement twice gives the charset back.
pub proof fn lemma_complement_involutive(a: AsciiCharset, c: AsciiCharset, cc: AsciiCharset)
    requires
        c@ == ascii_bytes().difference(a@),
        cc@ == ascii_bytes().difference(c@),
    ensures
        cc == a,
{
    assert(cc@ =~= a@);
    lemma_eq_iff_same_members(cc, a);
}

/// The difference of two charsets is the intersection with the complement of the second:
/// what `a.difference(b)` returns equals what `a.intersection(b.complement())` returns.
pub proof fn lemma_difference_is_intersection_with_complement(
    a: AsciiCharset,
    b: AsciiCharset,
    d: AsciiCharset,
    c: AsciiCharset,
    i: AsciiCharset,
)
    requires
        d@ == a@.difference(b@),
        c@ == ascii_bytes().difference(b@),
        i@ == a@.intersect(c@),
    ensures
        d == i,
{
    assert(d@ =~= i@);
    lemma_eq_iff_same_members(d, i);
}

/// A charset holds ASCII characters only.
pub proof fn lemma_only_ascii(a: AsciiCharset)
    ensures
        a@.subset_of(ascii_bytes()),
{
}

impl AsciiCharset {
    /// Create a new charset containing the provided ascii characters.
    ///
    /// Only ascii characters are allowed.
    pub fn new(mask: &[u8]) -> (r: Self)
        requires
            all_ascii(mask@),
        ensures
            r@ == bytes_of(mask@),
    {
        let r = Self::empty().add_all(mask);
        assert(r@ =~= bytes_of(mask@));
        r
    }

    /// Add a set of ascii characters to the mask.
    ///
    /// Only ascii characters are allowed.
    pub fn add_all(self, mask: &[u8]) -> (r: Self)
        requires
            all_ascii(mask@),
        ensures
            r@ == self@.union(bytes_of(mask@)),
    {
        let mut r = self;
        let mut i: usize = 0;
        while i < mask.len()
            invariant
                i <= mask.len(),
                all_ascii(mask@),
                r@ == self@.union(bytes_of(mask@.take(i as int))),
            decreases mask.len() - i,
        {
            let c = mask[i];
            r = r.add(c);
            proof {
                lemma_bytes_of_take_next(mask@, i as int);
                assert(r@ =~= self@.union(bytes_of(mask@.take(i + 1))));
            }
            i = i + 1;
        }
        assert(mask@.take(mask.len() as int) =~= mask@);
        r
    }

    /// Remove a set of ascii characters from the mask.
    ///
    /// Only ascii characters are allowed.
    pub fn remove_all(self, mask: &[u8]) -> (r: Self)
        requires
            all_ascii(mask@),
        ensures
            r@ == self@.difference(bytes_of(mask@)),
    {
        let mut r = self;
        let mut i: usize = 0;
        while i < mask.len()
            invariant
                i <= mask.len(),
                all_ascii(mask@),
                r@ == self@.difference(bytes_of(mask@.take(i as int))),
            decreases mask.len() - i,
        {
            let c = mask[i];
            r = r.remove(c);
            proof {
                lemma_bytes_of_take_next(mask@, i as int);
                assert(r@ =~= self@.difference(bytes_of(mask@.take(i + 1))));
            }
            i = i + 1;
        }
        assert(mask@.take(mask.len() as int) =~= mask@);
        r
    }

    /// An empty character set.
    pub fn empty() -> (r: Self)
        ensures
            r@ == Set::<u8>::empty(),
    {
        let r = AsciiCharset { lo: 0, hi: 0 };
        assert forall|j: u64| j < 64 implies !bit_set(0u64, j) by {
            assert(j < 64 ==> 0u64 & (1u64 << j) == 0) by (bit_vector);
        }
        assert(r@ =~= Set::<u8>::empty());
        r
    }

    /// The set of all ascii characters (U+0000 to U+007F inclusive).
    pub fn all() -> (r: Self)
        ensures
            r@ == ascii_bytes(),
    {
        Self::empty().complement()
    }

    /// Every ascii character but the letters and digits.
    pub fn non_alphanumeric() -> (r: Self)
        ensures
            r@ == non_alphanumeric_set(),
    {
        let mut r = Self::empty();
        let mut c: u8 = 0;
        while c < 0x80
            invariant
                c <= 0x80,
                r@ == Set::new(|d: u8| d < c && !is_ascii_alphanumeric(d)),
            decreases 0x80 - c,
        {
            let alphanumeric = (0x30 <= c && c <= 0x39) || (0x41 <= c && c <= 0x5A) || (0x61 <= c
                && c <= 0x7A);
            if !alphanumeric {
                r = r.add(c);
            }
            assert(r@ =~= Set::new(|d: u8| d < c + 1 && !is_ascii_alphanumeric(d)));
            c = c + 1;
        }
        assert(r@ =~= non_alphanumeric_set());
        r
    }

    /// The C0 control percent-encode set.
    pub fn control() -> (r: Self)
        ensures
            r@ == control_set(),
    {
        let base = AsciiCharset { lo: 0xFFFF_FFFF, hi: 0 };
        assert forall|j: u64| j < 64 implies bit_set(0xFFFF_FFFFu64, j) == (j < 32) && !bit_set(0u64, j) by {
            assert(j < 64 ==> ((0xFFFF_FFFFu64 & (1u64 << j) != 0) == (j < 32) && 0u64 & (1u64 << j) == 0))
                by (bit_vector);
        }
        let r = base.add(0x7F);
        assert(r@ =~= control_set());
        r
    }

    /// The fragment percent-encode set.
    pub fn fragment() -> (r: Self)
        ensures
            r@ == fragment_set(),
    {
        let r = Self::control().add_all(&[0x20u8, 0x22, 0x3C, 0x3E, 0x60]);
        proof { lemma_bytes_of_5(0x20u8, 0x22, 0x3C, 0x3E, 0x60); }
        r
    }

    /// The query percent-encode set.
    pub fn query() -> (r: Self)
        ensures
            r@ == query_set(),
    {
        let r = Self::control().add_all(&[0x20u8, 0x22, 0x23, 0x3C, 0x3E]);
        proof { lemma_bytes_of_5(0x20u8, 0x22, 0x23, 0x3C, 0x3E); }
        r
    }

    /// The special-query percent-encode set.
    pub fn special_query() -> (r: Self)
        ensures
            r@ == special_query_set(),
    {
        Self::query().add(0x27)
    }

    /// The path percent-encode set.
    pub fn path() -> (r: Self)
        ensures
            r@ == path_set(),
    {
        let r = Self::query().add_all(&[0x3Fu8, 0x5E, 0x60, 0x7B, 0x7D]);
        proof { lemma_bytes_of_5(0x3Fu8, 0x5E, 0x60, 0x7B, 0x7D); }
        r
    }

    /// The userinfo percent-encode set.
    pub fn userinfo() -> (r: Self)
        ensures
            r@ == userinfo_set(),
    {
        let m = [0x2Fu8, 0x3A, 0x3B, 0x3D, 0x40, 0x5B, 0x5C, 0x5D, 0x7C];
        let r = Self::path().add_all(&m);
        assert(bytes_of(m@) =~= set![0x2Fu8, 0x3Au8, 0x3Bu8, 0x3Du8, 0x40u8, 0x5Bu8, 0x5Cu8, 0x5Du8, 0x7Cu8]) by {
            assert(m@[0] == 0x2F && m@[1] == 0x3A && m@[2] == 0x3B && m@[3] == 0x3D && m@[4] == 0x40);
            assert(m@[5] == 0x5B && m@[6] == 0x5C && m@[7] == 0x5D && m@[8] == 0x7C);
        }
        r
    }

    /// The component percent-encode set.
    pub fn component() -> (r: Self)
        ensures
            r@ == component_set(),
    {
        let r = Self::userinfo().add_all(&[0x24u8, 0x25, 0x26, 0x2B, 0x2C]);
        proof { lemma_bytes_of_5(0x24u8, 0x25, 0x26, 0x2B, 0x2C); }
        r
    }

    /// The application/x-www-form-urlencoded percent-encode set.
    pub fn x_www_form_urlencoded() -> (r: Self)
        ensures
            r@ == x_www_form_urlencoded_set(),
    {
        let r = Self::component().add_all(&[0x21u8, 0x27, 0x28, 0x29, 0x7E]);
        proof { lemma_bytes_of_5(0x21u8, 0x27, 0x28, 0x29, 0x7E); }
        r
    }

    /// Add an ascii character to the mask.
    ///
    /// Only ascii characters are allowed (the caller must not pass a byte from 128 up).
    pub fn add(self, c: u8) -> (r: Self)
        requires
            c < 128,
        ensures
            r@ == self@.insert(c),
    {
        let k: u64 = (c & 0x3F) as u64;
        assert(c < 64 ==> c & 0x3F == c) by (bit_vector);
        assert(64 <= c < 128 ==> c & 0x3F == c - 64) by (bit_vector);
        let r = if c < 64 {
            AsciiCharset { lo: self.lo | (1u64 << k), hi: self.hi }
        } else {
            AsciiCharset { lo: self.lo, hi: self.hi | (1u64 << k) }
        };
        assert forall|d: u8| r@.contains(d) == (self@.contains(d) || d == c) by {
            if d < 64 {
                lemma_bit_or(self.lo, 1u64 << k, d as u64);
                lemma_bit_single(k, d as u64);
            } else if d < 128 {
                lemma_bit_or(self.hi, 1u64 << k, (d - 64) as u64);
                lemma_bit_single(k, (d - 64) as u64);
            }
        }
        assert(r@ =~= self@.insert(c));
        r
    }

    /// Remove an ascii character from the mask.
    ///
    /// Only ascii characters are allowed (the caller must not pass a byte from 128 up).
    pub fn remove(self, c: u8) -> (r: Self)
        requires
            c < 128,
        ensures
            r@ == self@.remove(c),
    {
        let k: u64 = (c & 0x3F) as u64;
        assert(c < 64 ==> c & 0x3F == c) by (bit_vector);
        assert(64 <= c < 128 ==> c & 0x3F == c - 64) by (bit_vector);
        let r = if c < 64 {
            AsciiCharset { lo: self.lo & !(1u64 << k), hi: self.hi }
        } else {
            AsciiCharset { lo: self.lo, hi: self.hi & !(1u64 << k) }
        };
        assert forall|d: u8| r@.contains(d) == (self@.contains(d) && d != c) by {
            if d < 64 {
                lemma_bit_and(self.lo, !(1u64 << k), d as u64);
                lemma_bit_not(1u64 << k, d as u64);
                lemma_bit_single(k, d as u64);
            } else if d < 128 {
                lemma_bit_and(self.hi, !(1u64 << k), (d - 64) as u64);
                lemma_bit_not(1u64 << k, (d - 64) as u64);
                lemma_bit_single(k, (d - 64) as u64);
            }
        }
        assert(r@ =~= self@.remove(c));
        r
    }

    /// Check if an ascii character is part of the character set.
    ///
    /// Will return `false` for non-ascii characters.
    pub fn contains(&self, c: u8) -> (r: bool)
        ensures
            r == self@.contains(c),
            c >= 128 ==> !r,
    {
        if c >= 128 {
            return false;
        }
        let k: u64 = (c & 0x3F) as u64;
        assert(c < 64 ==> c & 0x3F == c) by (bit_vector);
        assert(64 <= c < 128 ==> c & 0x3F == c - 64) by (bit_vector);
        if c < 64 {
            (self.lo & (1u64 << k)) != 0
        } else {
            (self.hi & (1u64 << k)) != 0
        }
    }

    /// Returns the complement of this character set.
    ///
    /// **NOTE**: non-ascii characters will still be outside the set.
    pub fn complement(self) -> (r: Self)
        ensures
            r@ == ascii_bytes().difference(self@),
    {
        let r = AsciiCharset { lo: !self.lo, hi: !self.hi };
        assert forall|d: u8| r@.contains(d) == (d < 128 && !self@.contains(d)) by {
            if d < 64 {
                lemma_bit_not(self.lo, d as u64);
            } else if d < 128 {
                lemma_bit_not(self.hi, (d - 64) as u64);
            }
        }
        assert(r@ =~= ascii_bytes().difference(self@));
        r
    }

    /// Returns the union of two character sets.
    pub fn union(self, rhs: Self) -> (r: Self)
        ensures
            r@ == self@.union(rhs@),
    {
        let r = AsciiCharset { lo: self.lo | rhs.lo, hi: self.hi | rhs.hi };
        assert forall|d: u8| r@.contains(d) == (self@.contains(d) || rhs@.contains(d)) by {
            if d < 64 {
                lemma_bit_or(self.lo, rhs.lo, d as u64);
            } else if d < 128 {
                lemma_bit_or(self.hi, rhs.hi, (d - 64) as u64);
            }
        }
        assert(r@ =~= self@.union(rhs@));
        r
    }

    /// Returns the intersection of two character sets.
    pub fn intersection(self, rhs: Self) -> (r: Self)
        ensures
            r@ == self@.intersect(rhs@),
    {
        let r = AsciiCharset { lo: self.lo & rhs.lo, hi: self.hi & rhs.hi };
        assert forall|d: u8| r@.contains(d) == (self@.contains(d) && rhs@.contains(d)) by {
            if d < 64 {
                lemma_bit_and(self.lo, rhs.lo, d as u64);
            } else if d < 128 {
                lemma_bit_and(self.hi, rhs.hi, (d - 64) as u64);
            }
        }
        assert(r@ =~= self@.intersect(rhs@));
        r
    }

    /// Returns the difference of two character sets.
    pub fn difference(self, rhs: Self) -> (r: Self)
        ensures
            r@ == self@.difference(rhs@),
    {
        let r = self.intersection(rhs.complement());
        assert(r@ =~= self@.difference(rhs@));
        r
    }
}

impl core::ops::Not for AsciiCharset {
    type Output = Self;

    fn not(self) -> (r: Self::Output) {
        let r = self.complement();
        proof { r.lemma_from_members(); }
        r
    }
}

impl vstd::std_specs::ops::NotSpecImpl for AsciiCharset {
    open spec fn obeys_not_spec() -> bool {
        true
    }

    open spec fn not_req(self) -> bool {
        true
    }

    open spec fn not_spec(self) -> Self {
        Self::from_members(ascii_bytes().difference(self@))
    }
}

impl core::ops::Add for AsciiCharset {
    type Output = Self;

    fn add(self, rhs: Self) -> (r: Self::Output) {
        let r = self.union(rhs);
        proof { r.lemma_from_members(); }
        r
    }
}

impl vstd::std_specs::ops::AddSpecImpl for AsciiCharset {
    open spec fn obeys_add_spec() -> bool {
        true
    }

    open spec fn add_req(self, rhs: Self) -> bool {
        true
    }

    open spec fn add_spec(self, rhs: Self) -> Self {
        Self::from_members(self@.union(rhs@))
    }
}

impl core::ops::Add<u8> for AsciiCharset {
    type Output = Self;

    fn add(self, rhs: u8) -> (r: Self::Output) {
        let r = AsciiCharset::add(self, rhs);
        proof { r.lemma_from_members(); }
        r
    }
}

impl vstd::std_specs::ops::AddSpecImpl<u8> for AsciiCharset {
    open spec fn obeys_add_spec() -> bool {
        true
    }

    open spec fn add_req(self, rhs: u8) -> bool {
        rhs < 128
    }

    open spec fn add_spec(self, rhs: u8) -> Self {
        Self::from_members(self@.insert(rhs))
    }
}

impl core::ops::Sub for AsciiCharset {
    type Output = Self;

    fn sub(self, rhs: Self) -> (r: Self::Output) {
        let r = self.difference(rhs);
        proof { r.lemma_from_members(); }
        r
    }
}

impl vstd::std_specs::ops::SubSpecImpl for AsciiCharset {
    open spec fn obeys_sub_spec() -> bool {
        true
    }

    open spec fn sub_req(self, rhs: Self) -> bool {
        true
    }

    open spec fn sub_spec(self, rhs: Self) -> Self {
        Self::from_members(self@.difference(rhs@))
    }
}

impl core::ops::Sub<u8> for AsciiCharset {
    type Output = Self;

    fn sub(self, rhs: u8) -> (r: Self::Output) {
        let r = self.remove(rhs);
        proof { r.lemma_from_members(); }
        r
    }
}

impl vstd::std_specs::ops::SubSpecImpl<u8> for AsciiCharset {
    open spec fn obeys_sub_spec() -> bool {
        true
    }

    open spec fn sub_req(self, rhs: u8) -> bool {
        rhs < 128
    }

    open spec fn sub_spec(self, rhs: u8) -> Self {
        Self::from_members(self@.remove(rhs))
    }
}

impl core::ops::AddAssign<u8> for AsciiCharset {
    fn add_assign(&mut self, rhs: u8)
        requires
            rhs < 128,
        ensures
            final(self)@ == old(self)@.insert(rhs),
    {
        *self = self.add(rhs);
    }
}

impl core::ops::AddAssign for AsciiCharset {
    fn add_assign(&mut self, rhs: Self)
        ensures
            final(self)@ == old(self)@.union(rhs@),
    {
        *self = self.union(rhs);
    }
}

impl core::ops::SubAssign<u8> for AsciiCharset {
    fn sub_assign(&mut self, rhs: u8)
        requires
            rhs < 128,
        ensures
            final(self)@ == old(self)@.remove(rhs),
    {
        *self = self.remove(rhs);
    }
}

impl core::ops::SubAssign for AsciiCharset {
    fn sub_assign(&mut self, rhs: Self)
        ensures
            final(self)@ == old(self)@.difference(rhs@),
    {
        *self = self.difference(rhs);
    }
}

/// The least member of `s` that is at least `k` and below 128, if any.
pub open spec fn next_member(s: Set<u8>, k: int) -> Option<u8>
    decreases 128 - k,
{
    if k < 0 || k >= 128 {
        None
    } else if s.contains(k as u8) {
        Some(k as u8)
    } else {
        next_member(s, k + 1)
    }
}

/// The next member from `k` on is a member, at least `k`, and no member lies between `k` and
/// it; when there is none, no member lies from `k` up.
pub proof fn lemma_next_member(s: Set<u8>, k: int)
    requires
        0 <= k,
    ensures
        next_member(s, k) matches Some(c) ==> {
            &&& s.contains(c)
            &&& k <= c < 128
            &&& forall|d: u8| k <= d < c ==> !s.contains(d)
        },
        next_member(s, k) is None ==> forall|d: u8| k <= d < 128 ==> !s.contains(d),
    decreases 128 - k,
{
    if k < 128 && !s.contains(k as u8) {
        lemma_next_member(s, k + 1);
        assert forall|d: u8| k <= d < k + 1 implies !s.contains(d) by {
            assert(d == k as u8);
        }
    }
}

/// The members of `s` from `k` up, one after another as [`next_member`] finds them: what an
/// iterator at position `k` yields, call after call, until it returns `None`.
pub open spec fn walk_from(s: Set<u8>, k: int) -> Seq<u8>
    decreases 128 - k,
{
    if k < 0 || k >= 128 {
        Seq::empty()
    } else {
        match next_member(s, k) {
            Some(c) => if k <= c < 128 {
                seq![c] + walk_from(s, c + 1)
            } else {
                Seq::empty()
            },
            None => Seq::empty(),
        }
    }
}

/// An iterator yields the members of its set from its position up, each once, in strictly
/// ascending order; and each call of `next` yields the first of what is left.
pub proof fn lemma_walk(s: Set<u8>, k: int)
    requires
        0 <= k,
    ensures
        forall|i: int, j: int|
            0 <= i < j < walk_from(s, k).len() ==> walk_from(s, k)[i] < walk_from(s, k)[j],
        forall|c: u8| walk_from(s, k).contains(c) <==> (s.contains(c) && k <= c < 128),
        walk_from(s, k) == match next_member(s, k) {
            Some(c) => seq![c] + walk_from(s, c + 1),
            None => Seq::<u8>::empty(),
        },
    decreases 128 - k,
{
    lemma_next_member(s, k);
    let w = walk_from(s, k);
    if k < 128 {
        match next_member(s, k) {
            Some(c) => {
                lemma_walk(s, c + 1);
                let t = walk_from(s, c + 1);
                assert(w == seq![c] + t);
                assert forall|i: int, j: int| 0 <= i < j < w.len() implies w[i] < w[j] by {
                    if i == 0 {
                        assert(w[0] == c);
                        assert(w[j] == t[j - 1]);
                        let x = t[j - 1];
                        assert(t.contains(x));
                        assert(walk_from(s, c + 1).contains(x));
                        assert(s.contains(x));
                        assert(x < 128);
                        assert(c + 1 <= x);
                    } else {
                        assert(w[i] == t[i - 1] && w[j] == t[j - 1]);
                        assert(t[i - 1] < t[j - 1]);
                    }
                }
                assert forall|d: u8| w.contains(d) <==> (s.contains(d) && k <= d < 128) by {
                    if w.contains(d) {
                        let i = choose|i: int| 0 <= i < w.len() && w[i] == d;
                        if i > 0 {
                            assert(t[i - 1] == d);
                        }
                    }
                    if s.contains(d) && k <= d < 128 {
                        if d == c {
                            assert(w[0] == d);
                        } else {
                            assert(t.contains(d));
                            let i = choose|i: int| 0 <= i < t.len() && t[i] == d;
                            assert(w[i + 1] == d);
                        }
                    }
                }
            },
            None => {},
        }
    }
}

/// Iterates over the characters of an [`AsciiCharset`] in ascending order.
pub struct AsciiCharsetIterator {
    charset: AsciiCharset,
    current: u8,
}

impl AsciiCharsetIterator {
    /// The characters that the iterator walks through.
    pub closed spec fn spec_charset(self) -> Set<u8> {
        self.charset@
    }

    /// The character from which the iterator goes on searching.
    pub closed spec fn spec_position(self) -> int {
        self.current as int
    }

    /// Returns the next character of the set, in ascending order.
    pub fn next(&mut self) -> (r: Option<u8>)
        ensures
            r == next_member(old(self).spec_charset(), old(self).spec_position()),
            final(self).spec_charset() == old(self).spec_charset(),
            final(self).spec_position() == match r {
                Some(c) => c + 1,
                None => if old(self).spec_position() < 128 { 128 } else { old(self).spec_position() },
            },
    {
        while self.current < 0x80
            invariant
                self.charset == old(self).charset,
                old(self).current <= self.current,
                old(self).current < 128 ==> self.current <= 128,
                old(self).current >= 128 ==> self.current == old(self).current,
                next_member(self.charset@, old(self).current as int) == next_member(
                    self.charset@,
                    self.current as int,
                ),
            decreases 0x80 - self.current,
        {
            let c = self.current;
            if self.charset.contains(c) {
                self.current = self.current + 1;
                return Some(c);
            }
            self.current = self.current + 1;
        }
        None
    }
}

/// Once an iterator has run out, it stays out: its position is past the ASCII range, where no
/// member is found.
pub proof fn lemma_exhausted_iterator_stays_exhausted(it: AsciiCharsetIterator)
    requires
        it.spec_position() >= 128,
    ensures
        next_member(it.spec_charset(), it.spec_position()) is None,
{
}

impl AsciiCharset {
    /// An iterator over the characters of the set, in ascending order.
    pub fn into_iter(self) -> (r: AsciiCharsetIterator)
        ensures
            r.spec_charset() == self@,
            r.spec_position() == 0,
    {
        AsciiCharsetIterator { charset: self, current: 0 }
    }
}

/// The lower-case hex digit of a value below 16.
pub open spec fn lower_hex_char(n: u8) -> char {
    if n < 10 {
        (0x30 + n) as char
    } else {
        (0x61 + n - 10) as char
    }
}

/// How `char::escape_debug` writes an ASCII character: the usual backslash escapes, printable
/// characters as themselves, and every other control character as `\u{..}` in lower-case hex.
pub open spec fn escape_debug_ascii(c: u8) -> Seq<char> {
    if c == 0 {
        seq!['\\', '0']
    } else if c == 0x09 {
        seq!['\\', 't']
    } else if c == 0x0A {
        seq!['\\', 'n']
    } else if c == 0x0D {
        seq!['\\', 'r']
    } else if c == 0x22 {
        seq!['\\', '"']
    } else if c == 0x27 {
        seq!['\\', '\'']
    } else if c == 0x5C {
        seq!['\\', '\\']
    } else if 0x20 <= c < 0x7F {
        seq![c as char]
    } else if c < 16 {
        seq!['\\', 'u', '{', lower_hex_char(c), '}']
    } else {
        seq!['\\', 'u', '{', lower_hex_char(c / 16), lower_hex_char(c % 16), '}']
    }
}

/// The escaped members of `s` from `k` up, in ascending order.
pub open spec fn escaped_from(s: Set<u8>, k: int) -> Seq<char>
    decreases 128 - k,
{
    if k < 0 || k >= 128 {
        Seq::empty()
    } else {
        (if s.contains(k as u8) {
            escape_debug_ascii(k as u8)
        } else {
            Seq::empty()
        }) + escaped_from(s, k + 1)
    }
}

/// Appends one character to a string.
///
/// Calls `String::push`, which appends the character at the end of the string.
#[verifier::external_body]
fn push_char(s: &mut String, c: char)
    ensures
        final(s)@ == old(s)@.push(c),
{
    s.push(c);
}

/// Appends the lower-case hex digit of a value below 16.
fn push_lower_hex(out: &mut String, n: u8)
    requires
        n < 16,
    ensures
        final(out)@ == old(out)@.push(lower_hex_char(n)),
{
    if n < 10 {
        push_char(out, (0x30 + n) as char);
    } else {
        push_char(out, (0x61 + n - 10) as char);
    }
}

/// Appends the debug escape of an ASCII character.
fn push_escaped(out: &mut String, c: u8)
    requires
        c < 128,
    ensures
        final(out)@ == old(out)@ + escape_debug_ascii(c),
{
    let ghost start = out@;
    if c == 0 {
        push_char(out, '\\');
        push_char(out, '0');
    } else if c == 0x09 {
        push_char(out, '\\');
        push_char(out, 't');
    } else if c == 0x0A {
        push_char(out, '\\');
        push_char(out, 'n');
    } else if c == 0x0D {
        push_char(out, '\\');
        push_char(out, 'r');
    } else if c == 0x22 {
        push_char(out, '\\');
        push_char(out, '"');
    } else if c == 0x27 {
        push_char(out, '\\');
        push_char(out, '\'');
    } else if c == 0x5C {
        push_char(out, '\\');
        push_char(out, '\\');
    } else if 0x20 <= c && c < 0x7F {
        push_char(out, c as char);
    } else {
        push_char(out, '\\');
        push_char(out, 'u');
        push_char(out, '{');
        if c < 16 {
            push_lower_hex(out, c);
        } else {
            push_lower_hex(out, c / 16);
            push_lower_hex(out, c % 16);
        }
        push_char(out, '}');
    }
    assert(out@ =~= start + escape_debug_ascii(c));
}

impl AsciiCharset {
    /// The text that `{:?}` shows for the charset: `AsciiCharset("...")`, with the characters
    /// in ascending order, each escaped as `char::escape_debug` does.
    pub fn debug_string(&self) -> (r: String)
        ensures
            r@ == "AsciiCharset(\""@ + escaped_from(self@, 0) + "\")"@,
    {
        let mut out = String::from_str("AsciiCharset(\"");
        let ghost prefix = out@;
        let mut c: u8 = 0;
        while c < 0x80
            invariant
                c <= 0x80,
                prefix + escaped_from(self@, 0) == out@ + escaped_from(self@, c as int),
            decreases 0x80 - c,
        {
            let ghost before = out@;
            if self.contains(c) {
                push_escaped(&mut out, c);
            }
            assert(escaped_from(self@, c as int) == (if self@.contains(c) {
                escape_debug_ascii(c)
            } else {
                Seq::empty()
            }) + escaped_from(self@, c + 1));
            assert(before + escaped_from(self@, c as int) =~= out@ + escaped_from(self@, c + 1));
            c = c + 1;
        }
        out.append("\")");
        assert(out@ =~= "AsciiCharset(\""@ + escaped_from(self@, 0) + "\")"@);
        out
    }
}

} // verus!
