//! Keys that pair a first-seen position with a payload: equal by payload alone, ordered by
//! position first.
use std::cmp::Ordering;
use vstd::prelude::*;

verus! {

/// Lexicographic comparison of two byte strings, starting at offset `i`.
pub open spec fn lex_cmp_from(a: Seq<u8>, b: Seq<u8>, i: int) -> Ordering
    decreases a.len() - i,
{
    if i >= a.len() {
        if i >= b.len() {
            Ordering::Equal
        } else {
            Ordering::Less
        }
    } else if i >= b.len() {
        Ordering::Greater
    } else if a[i] < b[i] {
        Ordering::Less
    } else if a[i] > b[i] {
        Ordering::Greater
    } else {
        lex_cmp_from(a, b, i + 1)
    }
}

/// Lexicographic comparison of two byte strings.
pub open spec fn lex_cmp(a: Seq<u8>, b: Seq<u8>) -> Ordering {
    lex_cmp_from(a, b, 0)
}

/// The UTF-8 bytes of a payload.
pub open spec fn utf8_of(s: Seq<char>) -> Seq<u8> {
    vstd::utf8::encode_utf8(s)
}

/// The order of keys: equal payloads are equal keys; otherwise the earlier position comes
/// first, and only equal positions fall back to the payloads' byte order.
pub open spec fn key_cmp(pa: int, a: Seq<char>, pb: int, b: Seq<char>) -> Ordering {
    let s = lex_cmp(utf8_of(a), utf8_of(b));
    if a == b {
        Ordering::Equal
    } else if pa < pb {
        Ordering::Less
    } else if pa > pb {
        Ordering::Greater
    } else {
        s
    }
}

pub open spec fn flip(o: Ordering) -> Ordering {
    match o {
        Ordering::Less => Ordering::Greater,
        Ordering::Equal => Ordering::Equal,
        Ordering::Greater => Ordering::Less,
    }
}

pub proof fn lemma_lex_flip(a: Seq<u8>, b: Seq<u8>, i: int)
    requires
        0 <= i,
    ensures
        lex_cmp_from(b, a, i) == flip(lex_cmp_from(a, b, i)),
    decreases a.len() - i,
{
    if i < a.len() && i < b.len() && a[i] == b[i] {
        lemma_lex_flip(a, b, i + 1);
    }
}

pub proof fn lemma_lex_equal(a: Seq<u8>, b: Seq<u8>, i: int)
    requires
        0 <= i <= a.len(),
        i <= b.len(),
        lex_cmp_from(a, b, i) == Ordering::Equal,
    ensures
        a.subrange(i, a.len() as int) == b.subrange(i, b.len() as int),
    decreases a.len() - i,
{
    if i < a.len() {
        lemma_lex_equal(a, b, i + 1);
        assert(a.subrange(i, a.len() as int) =~= seq![a[i]] + a.subrange(i + 1, a.len() as int));
        assert(b.subrange(i, b.len() as int) =~= seq![b[i]] + b.subrange(i + 1, b.len() as int));
    } else {
        assert(a.subrange(i, a.len() as int) =~= b.subrange(i, b.len() as int));
    }
}

pub proof fn lemma_lex_le_trans(a: Seq<u8>, b: Seq<u8>, c: Seq<u8>, i: int)
    requires
        0 <= i,
        lex_cmp_from(a, b, i) != Ordering::Greater,
        lex_cmp_from(b, c, i) != Ordering::Greater,
    ensures
        lex_cmp_from(a, c, i) != Ordering::Greater,
        lex_cmp_from(a, b, i) == Ordering::Less ==> lex_cmp_from(a, c, i) == Ordering::Less,
        lex_cmp_from(b, c, i) == Ordering::Less ==> lex_cmp_from(a, c, i) == Ordering::Less,
    decreases a.len() - i,
{
    if i < a.len() && i < b.len() && i < c.len() && a[i] == b[i] && b[i] == c[i] {
        lemma_lex_le_trans(a, b, c, i + 1);
    }
}

/// Byte order on payloads is total, and tells distinct payloads apart.
pub proof fn lemma_lex_payload(a: Seq<char>, b: Seq<char>)
    ensures
        lex_cmp(utf8_of(b), utf8_of(a)) == flip(lex_cmp(utf8_of(a), utf8_of(b))),
        lex_cmp(utf8_of(a), utf8_of(b)) == Ordering::Equal <==> a == b,
{
    lemma_lex_flip(utf8_of(a), utf8_of(b), 0);
    if lex_cmp(utf8_of(a), utf8_of(b)) == Ordering::Equal {
        lemma_lex_equal(utf8_of(a), utf8_of(b), 0);
        assert(utf8_of(a) =~= utf8_of(a).subrange(0, utf8_of(a).len() as int));
        assert(utf8_of(b) =~= utf8_of(b).subrange(0, utf8_of(b).len() as int));
        vstd::utf8::encode_utf8_decode_utf8(a);
        vstd::utf8::encode_utf8_decode_utf8(b);
    }
    if a == b {
        lemma_lex_self(utf8_of(a), 0);
    }
}

pub proof fn lemma_lex_self(a: Seq<u8>, i: int)
    requires
        0 <= i,
    ensures
        lex_cmp_from(a, a, i) == Ordering::Equal,
    decreases a.len() - i,
{
    if i < a.len() {
        lemma_lex_self(a, i + 1);
    }
}

/// Compares two strings by their UTF-8 bytes.
pub fn lex_compare(a: &str, b: &str) -> (r: Ordering)
    ensures
        r == lex_cmp(utf8_of(a@), utf8_of(b@)),
{
    let x = a.as_bytes();
    let y = b.as_bytes();
    let mut i: usize = 0;
    while i < x.len() && i < y.len()
        invariant
            x@ == utf8_of(a@),
            y@ == utf8_of(b@),
            lex_cmp_from(x@, y@, 0) == lex_cmp_from(x@, y@, i as int),
            i <= x@.len(),
            i <= y@.len(),
        decreases x@.len() - i,
    {
        if x[i] < y[i] {
            return Ordering::Less;
        }
        if x[i] > y[i] {
            return Ordering::Greater;
        }
        i = i + 1;
    }
    if i < x.len() {
        Ordering::Greater
    } else if i < y.len() {
        Ordering::Less
    } else {
        Ordering::Equal
    }
}

/// Compares two positioned payloads by the key order.
pub fn compare_keys(pa: usize, a: &str, pb: usize, b: &str) -> (r: Ordering)
    ensures
        r == key_cmp(pa as int, a@, pb as int, b@),
{
    let s = lex_compare(a, b);
    proof {
        lemma_lex_payload(a@, b@);
    }
    if let Ordering::Equal = s {
        Ordering::Equal
    } else if pa < pb {
        Ordering::Less
    } else if pa > pb {
        Ordering::Greater
    } else {
        s
    }
}

/// A value of type `U` tagged with a position of type `T`.
pub struct Ordered<T, U>(pub T, pub U);

impl<T, U> Ordered<T, U> {
    pub fn new(n: T, s: U) -> (r: Ordered<T, U>)
        ensures
            r.0 == n,
            r.1 == s,
    {
        Ordered(n, s)
    }
}

impl Ordered<usize, String> {
    /// Key equality: the payloads alone decide.
    pub fn same_key(&self, other: &Self) -> (r: bool)
        ensures
            r == (self.1@ == other.1@),
    {
        self.1 == other.1
    }

    /// The key order.
    pub fn cmp_key(&self, other: &Self) -> (r: Ordering)
        ensures
            r == key_cmp(self.0 as int, self.1@, other.0 as int, other.1@),
    {
        compare_keys(self.0, self.1.as_str(), other.0, other.1.as_str())
    }

    pub fn payload(&self) -> (r: &str)
        ensures
            r@ == self.1@,
    {
        self.1.as_str()
    }

    pub fn position(&self) -> (r: usize)
        ensures
            r == self.0,
    {
        self.0
    }
}

} // verus!
