//! The frequency table: counts per distinct payload, remembering where each was first seen.
use crate::ordered::Ordered;
use crate::rank::{views, Entry, EntryView};
use counter::Counter;
use vstd::prelude::*;

verus! {

#[verifier::external_type_specification]
#[verifier::external_body]
#[verifier::reject_recursive_types(T)]
#[verifier::reject_recursive_types(N)]
#[verifier::reject_recursive_types(S)]
pub struct ExCounter<T, N, S>(Counter<T, N, S>);

/// What a counter holds: the count of each key, by the key's characters.
pub uninterp spec fn counts_of(c: Counter<String, u64>) -> Map<Seq<char>, u64>;

/// Relies on `counter::Counter::new`: a new counter holds no key.
#[verifier::external_body]
fn counter_new() -> (r: Counter<String, u64>)
    ensures
        forall|k: Seq<char>| !counts_of(r).contains_key(k),
{
    Counter::new()
}

/// Relies on `Counter`'s `Extend<(T, N)>`: the key's entry is created at zero when absent,
/// then `n` is added to it; the other keys keep their counts.
#[verifier::external_body]
fn counter_add(c: &mut Counter<String, u64>, key: String, n: u64)
    requires
        counts_of(*old(c)).contains_key(key@) ==> counts_of(*old(c))[key@] + n <= u64::MAX,
    ensures
        counts_of(*final(c)) == counts_of(*old(c)).insert(
            key@,
            if counts_of(*old(c)).contains_key(key@) {
                (counts_of(*old(c))[key@] + n) as u64
            } else {
                n
            },
        ),
{
    c.extend(std::iter::once((key, n)));
}

/// Relies on `Counter`'s `Index<&Q>`: the count of a key, zero when it is absent.
#[verifier::external_body]
fn counter_get(c: &Counter<String, u64>, key: &String) -> (r: u64)
    ensures
        r == (if counts_of(*c).contains_key(key@) {
            counts_of(*c)[key@]
        } else {
            0
        }),
{
    c[key]
}

/// Relies on `HashMap::contains_key`, reached through `Counter`'s `Deref`.
#[verifier::external_body]
fn counter_contains(c: &Counter<String, u64>, key: &str) -> (r: bool)
    ensures
        r == counts_of(*c).contains_key(key@),
{
    c.contains_key(key)
}

/// The sum of the counts of a sequence of entries.
pub open spec fn sum_counts(s: Seq<EntryView>) -> int
    decreases s.len(),
{
    if s.len() == 0 {
        0
    } else {
        sum_counts(s.drop_last()) + s.last().2
    }
}

/// Whether some entry has the payload.
pub open spec fn has_payload(s: Seq<EntryView>, payload: Seq<char>) -> bool {
    exists|i: int| 0 <= i < s.len() && s[i].1 == payload
}

/// The entries after `n` more occurrences of `payload`, seen at `pos`: an entry already
/// holding the payload gains `n` and keeps its position; otherwise a new entry is appended.
pub open spec fn tally_step(s: Seq<EntryView>, pos: int, payload: Seq<char>, n: int) -> Seq<
    EntryView,
> {
    if has_payload(s, payload) {
        let i = choose|i: int| 0 <= i < s.len() && s[i].1 == payload;
        s.update(i, (s[i].0, payload, s[i].2 + n))
    } else {
        s.push((pos, payload, n))
    }
}

/// The entries after counting each (position, payload, increment) in turn from empty.
pub open spec fn tally(events: Seq<(int, Seq<char>, int)>) -> Seq<EntryView>
    decreases events.len(),
{
    if events.len() == 0 {
        Seq::empty()
    } else {
        let e = events.last();
        tally_step(tally(events.drop_last()), e.0, e.1, e.2)
    }
}

pub open spec fn distinct_payloads(s: Seq<EntryView>) -> bool {
    forall|i: int, j: int| 0 <= i < j < s.len() ==> s[i].1 != s[j].1
}

pub proof fn lemma_sum_update(s: Seq<EntryView>, i: int, n: int)
    requires
        0 <= i < s.len(),
    ensures
        sum_counts(s.update(i, (s[i].0, s[i].1, s[i].2 + n))) == sum_counts(s) + n,
    decreases s.len(),
{
    let t = s.update(i, (s[i].0, s[i].1, s[i].2 + n));
    if i == s.len() - 1 {
        assert(t.drop_last() =~= s.drop_last());
    } else {
        lemma_sum_update(s.drop_last(), i, n);
        assert(t.drop_last() =~= s.drop_last().update(i, (s[i].0, s[i].1, s[i].2 + n)));
    }
}

pub proof fn lemma_count_le_sum(s: Seq<EntryView>, i: int)
    requires
        0 <= i < s.len(),
        forall|k: int| 0 <= k < s.len() ==> s[k].2 >= 0,
    ensures
        s[i].2 <= sum_counts(s),
        sum_counts(s) >= 0,
    decreases s.len(),
{
    lemma_sum_nonneg(s.drop_last());
    if i < s.len() - 1 {
        lemma_count_le_sum(s.drop_last(), i);
    }
}

pub proof fn lemma_sum_nonneg(s: Seq<EntryView>)
    requires
        forall|k: int| 0 <= k < s.len() ==> s[k].2 >= 0,
    ensures
        sum_counts(s) >= 0,
    decreases s.len(),
{
    if s.len() > 0 {
        lemma_sum_nonneg(s.drop_last());
    }
}

/// Counts of distinct payloads. Each payload keeps the position at which it was first
/// recorded; later occurrences only add to its count.
pub struct FrequencyTable {
    counts: Counter<String, u64>,
    order: Vec<Ordered<usize, String>>,
    sum: u64,
}

impl FrequencyTable {
    /// The entries, in the order their payloads were first recorded.
    pub closed spec fn entries(&self) -> Seq<EntryView> {
        self.order@.map_values(
            |k: Ordered<usize, String>| (k.0 as int, k.1@, counts_of(self.counts)[k.1@] as int),
        )
    }

    pub closed spec fn wf(&self) -> bool {
        &&& forall|i: int, j: int|
            0 <= i < j < self.order@.len() ==> self.order@[i].1@ != self.order@[j].1@
        &&& forall|i: int|
            0 <= i < self.order@.len() ==> counts_of(self.counts).contains_key(
                #[trigger] self.order@[i].1@,
            )
        &&& forall|k: Seq<char>|
            counts_of(self.counts).contains_key(k) ==> exists|i: int|
                0 <= i < self.order@.len() && #[trigger] self.order@[i].1@ == k
        &&& self.sum == sum_counts(self.entries())
    }

    pub closed spec fn spec_total(&self) -> int {
        self.sum as int
    }

    pub proof fn lemma_wf(&self)
        requires
            self.wf(),
        ensures
            distinct_payloads(self.entries()),
            self.spec_total() == sum_counts(self.entries()),
            forall|i: int|
                0 <= i < self.entries().len() ==> 0 <= #[trigger] self.entries()[i].2 <= u64::MAX,
    {
    }

    /// An empty table.
    pub fn new() -> (t: FrequencyTable)
        ensures
            t.wf(),
            t.entries() == Seq::<EntryView>::empty(),
            t.spec_total() == 0,
    {
        let t = FrequencyTable { counts: counter_new(), order: Vec::new(), sum: 0 };
        proof {
            assert(counts_of(t.counts) =~= Map::<Seq<char>, u64>::empty());
            assert(t.entries() =~= Seq::<EntryView>::empty());
        }
        t
    }

    /// Adds `n` occurrences of the key's payload.
    pub fn record(&mut self, key: Ordered<usize, String>, n: u64)
        requires
            old(self).wf(),
            old(self).spec_total() + n <= u64::MAX,
        ensures
            final(self).wf(),
            final(self).entries() == tally_step(
                old(self).entries(),
                key.0 as int,
                key.1@,
                n as int,
            ),
            final(self).spec_total() == old(self).spec_total() + n,
    {
        let ghost es = self.entries();
        let ghost p = key.1@;
        let known = counter_contains(&self.counts, key.1.as_str());
        if known {
            let ghost i = choose|i: int| 0 <= i < self.order@.len() && self.order@[i].1@ == p;
            proof {
                assert(es[i].1 == p);
                lemma_count_le_sum(es, i);
            }
            counter_add(&mut self.counts, key.1, n);
            self.sum = self.sum + n;
            proof {
                assert(has_payload(es, p));
                let j = choose|j: int| 0 <= j < es.len() && es[j].1 == p;
                assert(j == i);
                assert(self.entries() =~= es.update(i, (es[i].0, p, es[i].2 + n)));
                lemma_sum_update(es, i, n as int);
                assert forall|k: Seq<char>|
                    counts_of(self.counts).contains_key(k) implies exists|i: int|
                    0 <= i < self.order@.len() && #[trigger] self.order@[i].1@ == k by {
                    if k != p {
                        assert(counts_of(old(self).counts).contains_key(k));
                    }
                }
            }
        } else {
            let stored = Ordered::new(key.0, key.1.clone());
            counter_add(&mut self.counts, key.1, n);
            self.order.push(stored);
            self.sum = self.sum + n;
            proof {
                assert(!has_payload(es, p));
                assert(self.entries().drop_last() =~= es);
                assert(self.entries() =~= es.push((key.0 as int, p, n as int)));
                assert forall|k: Seq<char>|
                    counts_of(self.counts).contains_key(k) implies exists|i: int|
                    0 <= i < self.order@.len() && #[trigger] self.order@[i].1@ == k by {
                    if k != p {
                        assert(counts_of(old(self).counts).contains_key(k));
                        let i = choose|i: int|
                            0 <= i < old(self).order@.len() && old(self).order@[i].1@ == k;
                        assert(self.order@[i].1@ == k);
                    } else {
                        assert(self.order@[self.order@.len() - 1].1@ == k);
                    }
                }
            }
        }
    }

    /// The number of distinct payloads.
    pub fn len(&self) -> (r: usize)
        requires
            self.wf(),
        ensures
            r == self.entries().len(),
    {
        self.order.len()
    }

    /// The sum of all counts.
    pub fn total(&self) -> (r: u64)
        requires
            self.wf(),
        ensures
            r == self.spec_total(),
            r == sum_counts(self.entries()),
    {
        self.sum
    }

    /// Whether nothing was recorded.
    pub fn is_empty(&self) -> (r: bool)
        requires
            self.wf(),
        ensures
            r == (self.entries().len() == 0),
    {
        self.order.len() == 0
    }

    /// Hands out the entries, one per distinct payload.
    pub fn drain(self) -> (r: Vec<Entry>)
        requires
            self.wf(),
        ensures
            views(r@) == self.entries(),
    {
        let mut out: Vec<Entry> = Vec::new();
        let mut i: usize = 0;
        while i < self.order.len()
            invariant
                self.wf(),
                i <= self.order@.len(),
                views(out@) == self.entries().take(i as int),
            decreases self.order@.len() - i,
        {
            let k = &self.order[i];
            let c = counter_get(&self.counts, &k.1);
            let e = Entry::new(k.0, k.1.clone(), c);
            let ghost before = views(out@);
            out.push(e);
            proof {
                assert(views(out@) =~= before.push(e@));
                assert(self.entries().take(i + 1) =~= self.entries().take(i as int).push(
                    self.entries()[i as int],
                ));
            }
            i = i + 1;
        }
        proof {
            assert(self.entries().take(i as int) =~= self.entries());
        }
        out
    }
}


/// The sum of the increments of a sequence of (position, payload, increment) events.
pub open spec fn sum_incs(events: Seq<(int, Seq<char>, int)>) -> int
    decreases events.len(),
{
    if events.len() == 0 {
        0
    } else {
        sum_incs(events.drop_last()) + events.last().2
    }
}

proof fn lemma_sum_remove(s: Seq<EntryView>, j: int)
    requires
        0 <= j < s.len(),
    ensures
        sum_counts(s) == sum_counts(s.remove(j)) + s[j].2,
    decreases s.len(),
{
    if j < s.len() - 1 {
        lemma_sum_remove(s.drop_last(), j);
        assert(s.remove(j).drop_last() =~= s.drop_last().remove(j));
        assert(s.remove(j).last() == s.last());
    } else {
        assert(s.remove(j) =~= s.drop_last());
    }
}

/// Sequences holding the same entries have the same sum of counts.
pub proof fn lemma_sum_permutation(a: Seq<EntryView>, b: Seq<EntryView>)
    requires
        a.to_multiset() == b.to_multiset(),
    ensures
        sum_counts(a) == sum_counts(b),
        a.len() == b.len(),
    decreases a.len(),
{
    broadcast use vstd::seq_lib::group_to_multiset_ensures;

    if a.len() == 0 {
        assert(b.to_multiset().len() == 0);
    } else {
        let x = a.last();
        assert(a.to_multiset().count(x) > 0) by {
            assert(a.contains(x)) by {
                assert(a[a.len() - 1] == x);
            }
        }
        assert(b.contains(x));
        let j = choose|j: int| 0 <= j < b.len() && b[j] == x;
        assert(a =~= a.drop_last().push(x));
        assert(a.drop_last().to_multiset() =~= a.to_multiset().remove(x));
        assert(b.remove(j).to_multiset() =~= b.to_multiset().remove(x));
        lemma_sum_permutation(a.drop_last(), b.remove(j));
        lemma_sum_remove(b, j);
    }
}


/// The payloads of the entries, in order.
pub open spec fn payloads(s: Seq<EntryView>) -> Seq<Seq<char>> {
    s.map_values(|e: EntryView| e.1)
}

/// The distinct payloads among the events.
pub open spec fn event_payloads(events: Seq<(int, Seq<char>, int)>) -> Set<Seq<char>> {
    events.map_values(|e: (int, Seq<char>, int)| e.1).to_set()
}

/// Counting a sequence of events gives one entry per distinct payload, and the counts add up
/// to the increments.
pub proof fn lemma_tally(events: Seq<(int, Seq<char>, int)>)
    ensures
        distinct_payloads(tally(events)),
        payloads(tally(events)).to_set() == event_payloads(events),
        sum_counts(tally(events)) == sum_incs(events),
    decreases events.len(),
{
    broadcast use vstd::set::group_set_axioms;

    if events.len() == 0 {
        assert(payloads(tally(events)) =~= Seq::<Seq<char>>::empty());
        assert(events.map_values(|e: (int, Seq<char>, int)| e.1) =~= Seq::<Seq<char>>::empty());
        assert(payloads(tally(events)).to_set() =~= event_payloads(events));
    } else {
        let prev = events.drop_last();
        lemma_tally(prev);
        let t = tally(prev);
        let e = events.last();
        let ep = events.map_values(|e: (int, Seq<char>, int)| e.1);
        assert(ep =~= prev.map_values(|e: (int, Seq<char>, int)| e.1).push(e.1));
        prev.map_values(|e: (int, Seq<char>, int)| e.1).lemma_push_to_set_commute(e.1);
        if has_payload(t, e.1) {
            let i = choose|i: int| 0 <= i < t.len() && t[i].1 == e.1;
            lemma_sum_update(t, i, e.2);
            let u = t.update(i, (t[i].0, e.1, t[i].2 + e.2));
            assert(payloads(u) =~= payloads(t));
            assert(payloads(t)[i] == e.1);
            assert(payloads(t).to_set().contains(e.1));
            assert(payloads(u).to_set() =~= event_payloads(events));
        } else {
            let u = t.push((e.0, e.1, e.2));
            assert(payloads(u) =~= payloads(t).push(e.1));
            payloads(t).lemma_push_to_set_commute(e.1);
            assert(u.drop_last() =~= t);
            assert(payloads(u).to_set() =~= event_payloads(events));
        }
    }
}

/// There are as many entries as distinct payloads among the events counted.
pub proof fn lemma_tally_distinct(events: Seq<(int, Seq<char>, int)>)
    ensures
        tally(events).len() == event_payloads(events).len(),
{
    lemma_tally(events);
    let p = payloads(tally(events));
    assert(p.no_duplicates());
    p.unique_seq_to_set();
}


/// Reordering entries with distinct payloads keeps them distinct.
pub proof fn lemma_permutation_distinct(t: Seq<EntryView>, r: Seq<EntryView>)
    requires
        t.to_multiset() == r.to_multiset(),
        distinct_payloads(t),
    ensures
        distinct_payloads(r),
{
    broadcast use vstd::seq_lib::group_to_multiset_ensures, vstd::multiset::group_multiset_axioms;

    assert(t.no_duplicates());
    t.lemma_multiset_has_no_duplicates();
    assert forall|i: int, j: int| 0 <= i < j < r.len() implies r[i].1 != r[j].1 by {
        if r[i].1 == r[j].1 {
            assert(r.contains(r[i]));
            assert(r.contains(r[j]));
            assert(r.to_multiset().count(r[i]) > 0);
            assert(r.to_multiset().count(r[j]) > 0);
            assert(t.to_multiset().count(r[i]) > 0);
            assert(t.to_multiset().count(r[j]) > 0);
            assert(t.contains(r[i]));
            assert(t.contains(r[j]));
            if r[i] == r[j] {
                let x = r[j];
                assert(r.remove(j)[i] == x);
                assert(r.remove(j).contains(x));
                vstd::seq_lib::to_multiset_remove(r, j);
                assert(r.remove(j).to_multiset().count(x) > 0);
                assert(r.remove(j).to_multiset().count(x) == r.to_multiset().count(x) - 1);
                assert(r.to_multiset().count(x) >= 2);
            } else {
                let a = choose|a: int| 0 <= a < t.len() && t[a] == r[i];
                let b = choose|b: int| 0 <= b < t.len() && t[b] == r[j];
                if a < b {
                    assert(t[a].1 != t[b].1);
                } else {
                    assert(t[b].1 != t[a].1);
                }
            }
        }
    }
}

} // verus!
