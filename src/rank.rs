//! Ranking of counted entries under one of four sort policies.
use crate::ordered::{
    compare_keys, key_cmp, lemma_lex_le_trans, lemma_lex_payload, lex_cmp, lex_compare, utf8_of,
    Ordered,
};
use std::cmp::Ordering;
use vstd::prelude::*;
use vstd::relations::sorted_by;
use vstd::seq_lib::{group_to_multiset_ensures, lemma_multiset_commutative, to_multiset_build};

verus! {

/// A distinct key with the number of times it was counted.
pub struct Entry {
    pub key: Ordered<usize, String>,
    pub count: u64,
}

/// An entry as (first-seen position, payload, count).
pub type EntryView = (int, Seq<char>, int);

impl View for Entry {
    type V = EntryView;

    open spec fn view(&self) -> EntryView {
        (self.key.0 as int, self.key.1@, self.count as int)
    }
}

impl Entry {
    pub fn new(position: usize, payload: String, count: u64) -> (r: Entry)
        ensures
            r@ == (position as int, payload@, count as int),
    {
        Entry { key: Ordered::new(position, payload), count }
    }

    pub fn duplicate(&self) -> (r: Entry)
        ensures
            r@ == self@,
    {
        Entry { key: Ordered::new(self.key.0, self.key.1.clone()), count: self.count }
    }
}

pub open spec fn views(s: Seq<Entry>) -> Seq<EntryView> {
    s.map_values(|e: Entry| e@)
}

/// Direction of the sort by count.
#[derive(Clone, Copy, PartialEq, Eq, Structural, Debug)]
pub enum CountOrder {
    /// Most frequent first.
    Descending,
    /// Least frequent first.
    Ascending,
}

/// How entries with equal counts are ordered.
#[derive(Clone, Copy, PartialEq, Eq, Structural, Debug)]
pub enum TieBreak {
    /// By first-seen position.
    Insertion,
    /// By the payloads' bytes.
    Lexicographic,
}

/// The four ways of ordering the entries.
#[derive(Clone, Copy, PartialEq, Eq, Structural, Debug)]
pub enum SortPolicy {
    /// By count, then by the tie-break among equal counts.
    CountThenTie(CountOrder, TieBreak),
    /// By count alone; equal counts are left in no particular order.
    CountOnly(CountOrder),
    /// By the tie-break alone.
    TieOnly(TieBreak),
    /// Not sorted: the entries keep the order they came in.
    Unsorted,
}

pub open spec fn int_cmp(a: int, b: int) -> Ordering {
    if a < b {
        Ordering::Less
    } else if a > b {
        Ordering::Greater
    } else {
        Ordering::Equal
    }
}

/// Lexicographic "at most" over three successive comparisons.
pub open spec fn lex3_le(c1: Ordering, c2: Ordering, c3: Ordering) -> bool {
    c1 == Ordering::Less || (c1 == Ordering::Equal && (c2 == Ordering::Less || (c2
        == Ordering::Equal && c3 != Ordering::Greater)))
}

/// The count comparison in the given direction.
pub open spec fn count_cmp(o: CountOrder, a: EntryView, b: EntryView) -> Ordering {
    match o {
        CountOrder::Descending => int_cmp(b.2, a.2),
        CountOrder::Ascending => int_cmp(a.2, b.2),
    }
}

/// Whether `a` may stand before `b` under the tie-break. Insertion order is the key order:
/// equal payloads are equal, otherwise the earlier first-seen position goes first.
/// Lexicographic order compares the payloads' bytes alone.
pub open spec fn tie_le(t: TieBreak, a: EntryView, b: EntryView) -> bool {
    match t {
        TieBreak::Insertion => key_cmp(a.0, a.1, b.0, b.1) != Ordering::Greater,
        TieBreak::Lexicographic => lex_cmp(utf8_of(a.1), utf8_of(b.1)) != Ordering::Greater,
    }
}

/// Whether `a` may stand before `b` in a ranking under policy `p`.
pub open spec fn ranks_before(p: SortPolicy, a: EntryView, b: EntryView) -> bool {
    match p {
        SortPolicy::CountThenTie(o, t) => count_cmp(o, a, b) == Ordering::Less || (count_cmp(
            o,
            a,
            b,
        ) == Ordering::Equal && tie_le(t, a, b)),
        SortPolicy::CountOnly(o) => count_cmp(o, a, b) != Ordering::Greater,
        SortPolicy::TieOnly(t) => tie_le(t, a, b),
        SortPolicy::Unsorted => true,
    }
}

pub open spec fn rank_order(p: SortPolicy) -> spec_fn(EntryView, EntryView) -> bool {
    |a: EntryView, b: EntryView| ranks_before(p, a, b)
}

/// Whether the policy breaks ties by first-seen position.
pub open spec fn uses_insertion(p: SortPolicy) -> bool {
    p == SortPolicy::CountThenTie(CountOrder::Descending, TieBreak::Insertion) || p
        == SortPolicy::CountThenTie(CountOrder::Ascending, TieBreak::Insertion) || p
        == SortPolicy::TieOnly(TieBreak::Insertion)
}

/// Two entries with the same payload are the same entry (as in a counted table). The key
/// order is transitive among such entries.
pub open spec fn coherent(a: EntryView, b: EntryView) -> bool {
    a.1 == b.1 ==> a == b
}

/// Entries on which the policy's order is transitive: any entries, or, under insertion
/// order, entries where a payload determines its entry.
pub open spec fn coherent_for(p: SortPolicy, u: Seq<EntryView>) -> bool {
    uses_insertion(p) ==> forall|i: int, j: int|
        0 <= i < u.len() && 0 <= j < u.len() ==> coherent(#[trigger] u[i], #[trigger] u[j])
}

proof fn lemma_coherent_members(p: SortPolicy, u: Seq<EntryView>, a: EntryView, b: EntryView)
    requires
        coherent_for(p, u),
        u.contains(a),
        u.contains(b),
    ensures
        uses_insertion(p) ==> coherent(a, b),
{
    if uses_insertion(p) {
        let i = choose|i: int| 0 <= i < u.len() && u[i] == a;
        let j = choose|j: int| 0 <= j < u.len() && u[j] == b;
        assert(coherent(u[i], u[j]));
    }
}

/// Any two entries are related one way or the other.
pub proof fn lemma_ranks_total(p: SortPolicy, a: EntryView, b: EntryView)
    ensures
        ranks_before(p, a, b) || ranks_before(p, b, a),
{
    lemma_lex_payload(a.1, b.1);
}

pub proof fn lemma_ranks_trans(p: SortPolicy, a: EntryView, b: EntryView, c: EntryView)
    requires
        ranks_before(p, a, b),
        ranks_before(p, b, c),
        uses_insertion(p) ==> coherent(a, b) && coherent(b, c) && coherent(a, c),
    ensures
        ranks_before(p, a, c),
{
    lemma_lex_payload(a.1, b.1);
    lemma_lex_payload(b.1, c.1);
    lemma_lex_payload(a.1, c.1);
    let (x, y, z) = (utf8_of(a.1), utf8_of(b.1), utf8_of(c.1));
    if lex_cmp(x, y) != Ordering::Greater && lex_cmp(y, z) != Ordering::Greater {
        lemma_lex_le_trans(x, y, z, 0);
    }
}

/// Evaluates `ranks_before` on two entries.
pub fn ranks_before_exec(p: SortPolicy, a: &Entry, b: &Entry) -> (r: bool)
    ensures
        r == ranks_before(p, a@, b@),
{
    let cnt = if a.count < b.count {
        Ordering::Less
    } else if a.count > b.count {
        Ordering::Greater
    } else {
        Ordering::Equal
    };
    let tie = |t: TieBreak| -> (r: bool)
        ensures
            r == tie_le(t, a@, b@),
        {
            let c = match t {
                TieBreak::Insertion => compare_keys(
                    a.key.0,
                    a.key.1.as_str(),
                    b.key.0,
                    b.key.1.as_str(),
                ),
                TieBreak::Lexicographic => lex_compare(a.key.1.as_str(), b.key.1.as_str()),
            };
            !matches!(c, Ordering::Greater)
        };
    match p {
        SortPolicy::CountThenTie(o, t) => {
            let c = match o {
                CountOrder::Descending => reverse(cnt),
                CountOrder::Ascending => cnt,
            };
            match c {
                Ordering::Less => true,
                Ordering::Equal => tie(t),
                Ordering::Greater => false,
            }
        },
        SortPolicy::CountOnly(o) => {
            let c = match o {
                CountOrder::Descending => reverse(cnt),
                CountOrder::Ascending => cnt,
            };
            !matches!(c, Ordering::Greater)
        },
        SortPolicy::TieOnly(t) => tie(t),
        SortPolicy::Unsorted => true,
    }
}

fn reverse(c: Ordering) -> (r: Ordering)
    ensures
        r == crate::ordered::flip(c),
{
    match c {
        Ordering::Less => Ordering::Greater,
        Ordering::Equal => Ordering::Equal,
        Ordering::Greater => Ordering::Less,
    }
}

/// Merges two ranked runs into one.
fn merge(l: Vec<Entry>, r: Vec<Entry>, p: SortPolicy, Ghost(u): Ghost<Seq<EntryView>>) -> (out:
    Vec<Entry>)
    requires
        sorted_by(views(l@), rank_order(p)),
        sorted_by(views(r@), rank_order(p)),
        coherent_for(p, u),
        forall|k: int| 0 <= k < l@.len() ==> u.contains(#[trigger] views(l@)[k]),
        forall|k: int| 0 <= k < r@.len() ==> u.contains(#[trigger] views(r@)[k]),
    ensures
        forall|k: int| 0 <= k < out@.len() ==> u.contains(#[trigger] views(out@)[k]),
        views(out@).to_multiset() == views(l@).to_multiset().add(views(r@).to_multiset()),
        sorted_by(views(out@), rank_order(p)),
{
    broadcast use group_to_multiset_ensures, vstd::multiset::group_multiset_axioms;

    let mut out: Vec<Entry> = Vec::new();
    let mut i: usize = 0;
    let mut j: usize = 0;
    let ghost lv = views(l@);
    let ghost rv = views(r@);
    while i < l.len() || j < r.len()
        invariant
            i <= l@.len(),
            j <= r@.len(),
            lv == views(l@),
            rv == views(r@),
            sorted_by(lv, rank_order(p)),
            sorted_by(rv, rank_order(p)),
            views(out@).to_multiset() == lv.take(i as int).to_multiset().add(
                rv.take(j as int).to_multiset(),
            ),
            sorted_by(views(out@), rank_order(p)),
            coherent_for(p, u),
            forall|k: int| 0 <= k < l@.len() ==> u.contains(#[trigger] lv[k]),
            forall|k: int| 0 <= k < r@.len() ==> u.contains(#[trigger] rv[k]),
            forall|k: int| 0 <= k < out@.len() ==> u.contains(#[trigger] views(out@)[k]),
            out@.len() > 0 && i < l@.len() ==> ranks_before(p, views(out@).last(), lv[i as int]),
            out@.len() > 0 && j < r@.len() ==> ranks_before(p, views(out@).last(), rv[j as int]),
        decreases l@.len() + r@.len() - i - j,
    {
        let take_left = if i == l.len() {
            false
        } else if j == r.len() {
            true
        } else {
            ranks_before_exec(p, &l[i], &r[j])
        };
        let ghost before = views(out@);
        let x = if take_left {
            l[i].duplicate()
        } else {
            r[j].duplicate()
        };
        proof {
            if take_left {
                assert(x@ == lv[i as int]);
                assert(u.contains(lv[i as int]));
            } else {
                assert(x@ == rv[j as int]);
                assert(u.contains(rv[j as int]));
            }
            if !take_left && i < l@.len() {
                lemma_ranks_total(p, lv[i as int], rv[j as int]);
            }
            assert forall|k: int| 0 <= k < before.len() implies ranks_before(p, before[k], x@) by {
                if k < before.len() - 1 {
                    assert(rank_order(p)(before[k], before[before.len() - 1]));
                    assert(u.contains(before[k]));
                    assert(u.contains(before[before.len() - 1]));
                    lemma_coherent_members(p, u, before[k], before.last());
                    lemma_coherent_members(p, u, before.last(), x@);
                    lemma_coherent_members(p, u, before[k], x@);
                    lemma_ranks_trans(p, before[k], before.last(), x@);
                }
            }
            if take_left && i + 1 < l@.len() {
                assert(rank_order(p)(lv[i as int], lv[i + 1]));
            }
            if !take_left && j + 1 < r@.len() {
                assert(rank_order(p)(rv[j as int], rv[j + 1]));
            }
        }
        out.push(x);
        proof {
            assert(views(out@) =~= before.push(x@));
            to_multiset_build(before, x@);
        }
        if take_left {
            proof {
                assert(lv.take(i + 1) =~= lv.take(i as int).push(lv[i as int]));
                to_multiset_build(lv.take(i as int), lv[i as int]);
            }
            i = i + 1;
        } else {
            proof {
                assert(rv.take(j + 1) =~= rv.take(j as int).push(rv[j as int]));
                to_multiset_build(rv.take(j as int), rv[j as int]);
            }
            j = j + 1;
        }
    }
    proof {
        assert(lv.take(i as int) =~= lv);
        assert(rv.take(j as int) =~= rv);
    }
    out
}

/// Sorts copies of `v[lo..hi]`.
fn sort_range(v: &Vec<Entry>, lo: usize, hi: usize, p: SortPolicy) -> (out: Vec<Entry>)
    requires
        lo <= hi <= v@.len(),
        coherent_for(p, views(v@)),
    ensures
        forall|k: int| 0 <= k < out@.len() ==> views(v@).contains(#[trigger] views(out@)[k]),
        views(out@).to_multiset() == views(v@).subrange(lo as int, hi as int).to_multiset(),
        sorted_by(views(out@), rank_order(p)),
    decreases hi - lo,
{
    if hi - lo <= 1 {
        let mut out: Vec<Entry> = Vec::new();
        if hi > lo {
            out.push(v[lo].duplicate());
        }
        proof {
            assert(views(out@) =~= views(v@).subrange(lo as int, hi as int));
            if hi > lo {
                assert(views(v@)[lo as int] == views(out@)[0]);
            }
        }
        out
    } else {
        let mid = lo + (hi - lo) / 2;
        let a = sort_range(v, lo, mid, p);
        let b = sort_range(v, mid, hi, p);
        proof {
            let s = views(v@);
            assert(s.subrange(lo as int, hi as int) =~= s.subrange(lo as int, mid as int)
                + s.subrange(mid as int, hi as int));
            lemma_multiset_commutative(
                s.subrange(lo as int, mid as int),
                s.subrange(mid as int, hi as int),
            );
        }
        merge(a, b, p, Ghost(views(v@)))
    }
}

/// Orders the entries by the policy. An unsorted policy hands them back as they are;
/// otherwise the result holds the same entries, each ranked no later than those after it.
pub fn rank(v: Vec<Entry>, p: SortPolicy) -> (r: Vec<Entry>)
    requires
        coherent_for(p, views(v@)),
    ensures
        p == SortPolicy::Unsorted ==> views(r@) == views(v@),
        views(r@).to_multiset() == views(v@).to_multiset(),
        sorted_by(views(r@), rank_order(p)),
{
    if let SortPolicy::Unsorted = p {
        v
    } else {
        let r = sort_range(&v, 0, v.len(), p);
        proof {
            assert(views(v@).subrange(0, v@.len() as int) =~= views(v@));
        }
        r
    }
}


/// A refinement of the tie-break that also separates entries with equal payloads (by
/// position, payload bytes, count); it agrees with `tie_le` on different payloads.
pub open spec fn strict_tie_le(t: TieBreak, a: EntryView, b: EntryView) -> bool {
    let pos = int_cmp(a.0, b.0);
    let text = lex_cmp(utf8_of(a.1), utf8_of(b.1));
    let cnt = int_cmp(a.2, b.2);
    match t {
        TieBreak::Insertion => lex3_le(pos, text, cnt),
        TieBreak::Lexicographic => lex3_le(text, pos, cnt),
    }
}

pub open spec fn strict_order(p: SortPolicy) -> spec_fn(EntryView, EntryView) -> bool {
    |a: EntryView, b: EntryView|
        match p {
            SortPolicy::CountThenTie(o, t) => count_cmp(o, a, b) == Ordering::Less || (count_cmp(
                o,
                a,
                b,
            ) == Ordering::Equal && strict_tie_le(t, a, b)),
            SortPolicy::TieOnly(t) => strict_tie_le(t, a, b),
            _ => true,
        }
}

proof fn lemma_strict_total(p: SortPolicy)
    requires
        p is CountThenTie || p is TieOnly,
    ensures
        vstd::relations::total_ordering(strict_order(p)),
{
    let f = strict_order(p);
    assert forall|a: EntryView| #[trigger] f(a, a) by {
        lemma_lex_payload(a.1, a.1);
    }
    assert forall|a: EntryView, b: EntryView| #[trigger] f(a, b) && #[trigger] f(b, a) implies a
        == b by {
        lemma_lex_payload(a.1, b.1);
    }
    assert forall|a: EntryView, b: EntryView, c: EntryView|
        #[trigger] f(a, b) && #[trigger] f(b, c) implies #[trigger] f(a, c) by {
        lemma_lex_payload(a.1, b.1);
        lemma_lex_payload(b.1, c.1);
        lemma_lex_payload(a.1, c.1);
        let (x, y, z) = (utf8_of(a.1), utf8_of(b.1), utf8_of(c.1));
        if lex_cmp(x, y) != Ordering::Greater && lex_cmp(y, z) != Ordering::Greater {
            lemma_lex_le_trans(x, y, z, 0);
        }
    }
    assert forall|a: EntryView, b: EntryView| #[trigger] f(a, b) || #[trigger] f(b, a) by {
        lemma_lex_payload(a.1, b.1);
    }
}

/// Under a policy with a tie-break, two rankings of the same entries with distinct payloads
/// are the same sequence.
pub proof fn lemma_ranking_unique(p: SortPolicy, r1: Seq<EntryView>, r2: Seq<EntryView>)
    requires
        p is CountThenTie || p is TieOnly,
        r1.to_multiset() == r2.to_multiset(),
        sorted_by(r1, rank_order(p)),
        sorted_by(r2, rank_order(p)),
        forall|i: int, j: int| 0 <= i < j < r1.len() ==> r1[i].1 != r1[j].1,
        forall|i: int, j: int| 0 <= i < j < r2.len() ==> r2[i].1 != r2[j].1,
    ensures
        r1 == r2,
{
    lemma_strict_total(p);
    assert forall|i: int, j: int| 0 <= i < j < r1.len() implies (#[trigger] strict_order(p)(
        r1[i],
        r1[j],
    )) by {
        assert(rank_order(p)(r1[i], r1[j]));
        lemma_lex_payload(r1[i].1, r1[j].1);
    }
    assert forall|i: int, j: int| 0 <= i < j < r2.len() implies (#[trigger] strict_order(p)(
        r2[i],
        r2[j],
    )) by {
        assert(rank_order(p)(r2[i], r2[j]));
        lemma_lex_payload(r2[i].1, r2[j].1);
    }
    vstd::seq_lib::lemma_sorted_unique(r1, r2, strict_order(p));
}

} // verus!
