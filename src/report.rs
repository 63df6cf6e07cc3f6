//! Enumerating a ranking into rows: filters by count, a rank limit, and running sums.
use crate::rank::{views, Entry, EntryView};
use crate::render::{column_ready, render_row, row_text, Column, Syntax};
use crate::table::{lemma_count_le_sum, lemma_sum_nonneg, sum_counts};
use vstd::prelude::*;

verus! {

/// Which ranked entries become rows.
#[derive(Clone, Copy, PartialEq, Eq, Structural, Debug)]
pub struct Filters {
    /// Leave out entries counted fewer times.
    pub min: Option<u64>,
    /// Leave out entries counted more times.
    pub max: Option<u64>,
    /// Stop after this rank.
    pub limit: Option<usize>,
}

/// Whether a count passes the minimum and maximum.
pub open spec fn kept(count: int, f: Filters) -> bool {
    (f.min matches Some(m) ==> count >= m) && (f.max matches Some(m) ==> count <= m)
}

/// A row as (rank, count, running sum, index of the entry).
pub type RowView = (int, int, int, int);

/// The rows for the first `k` ranked counts: each entry within the limit whose count passes
/// the filters keeps its 1-based rank, and the running sum adds up the counts of the rows
/// emitted so far.
pub open spec fn select(counts: Seq<int>, f: Filters, k: int) -> Seq<RowView>
    decreases k,
{
    if k <= 0 || k > counts.len() {
        Seq::empty()
    } else {
        let prev = select(counts, f, k - 1);
        let run = if prev.len() == 0 {
            0
        } else {
            prev.last().2
        };
        let c = counts[k - 1];
        if (f.limit matches Some(l) && k > l) || !kept(c, f) {
            prev
        } else {
            prev.push((k, c, run + c, k - 1))
        }
    }
}

pub open spec fn counts_of_entries(s: Seq<EntryView>) -> Seq<int> {
    s.map_values(|e: EntryView| e.2)
}

pub open spec fn sum_ints(s: Seq<int>) -> int
    decreases s.len(),
{
    if s.len() == 0 {
        0
    } else {
        sum_ints(s.drop_last()) + s.last()
    }
}

pub proof fn lemma_sum_ints_counts(s: Seq<EntryView>)
    ensures
        sum_ints(counts_of_entries(s)) == sum_counts(s),
    decreases s.len(),
{
    if s.len() > 0 {
        lemma_sum_ints_counts(s.drop_last());
        assert(counts_of_entries(s).drop_last() =~= counts_of_entries(s.drop_last()));
    }
}

/// The running sum of the rows for the first `k` counts stays within those counts' sum.
pub proof fn lemma_select_running(counts: Seq<int>, f: Filters, k: int)
    requires
        0 <= k <= counts.len(),
        forall|i: int| 0 <= i < counts.len() ==> counts[i] >= 0,
    ensures
        select(counts, f, k).len() > 0 ==> 0 <= select(counts, f, k).last().2 <= sum_ints(
            counts.take(k),
        ),
        sum_ints(counts.take(k)) >= 0,
    decreases k,
{
    if k > 0 {
        lemma_select_running(counts, f, k - 1);
        assert(counts.take(k).drop_last() =~= counts.take(k - 1));
    }
}

pub proof fn lemma_prefix_sum(counts: Seq<int>, k: int)
    requires
        0 <= k <= counts.len(),
        forall|i: int| 0 <= i < counts.len() ==> counts[i] >= 0,
    ensures
        sum_ints(counts.take(k)) <= sum_ints(counts),
    decreases counts.len() - k,
{
    if k < counts.len() {
        lemma_prefix_sum(counts, k + 1);
        assert(counts.take(k + 1).drop_last() =~= counts.take(k));
        lemma_select_running(counts, Filters { min: None, max: None, limit: None }, k);
    } else {
        assert(counts.take(k) =~= counts);
    }
}

/// The text of each selected row of a ranking, over the grand total of its counts.
pub open spec fn rendered(
    items: Seq<EntryView>,
    cols: Seq<Column>,
    syntax: Syntax,
    f: Filters,
) -> Seq<Seq<char>> {
    let rows = select(counts_of_entries(items), f, items.len() as int);
    let total = sum_counts(items);
    rows.map_values(
        |w: RowView| row_text(cols, syntax, w.0, w.1, w.2, total, items[w.3].1),
    )
}

/// Whether the columns can be rendered: percentages need a precision of at most nine.
pub open spec fn columns_ok(cols: Seq<Column>) -> bool {
    forall|i: int| 0 <= i < cols.len() ==> (#[trigger] cols[i]).digits <= 9
}

/// Whether a column shows a share of the total.
pub open spec fn is_share(c: Column) -> bool {
    c.kind is Percent || c.kind is Cdf
}

pub open spec fn has_share_columns(cols: Seq<Column>) -> bool {
    exists|i: int| 0 <= i < cols.len() && is_share(#[trigger] cols[i])
}

/// Writes the rows of a ranking.
pub fn render_rows(items: &Vec<Entry>, cols: &Vec<Column>, syntax: Syntax, f: Filters) -> (r: Vec<
    String,
>)
    requires
        sum_counts(views(items@)) <= u64::MAX,
        sum_counts(views(items@)) > 0 || !has_share_columns(cols@),
        columns_ok(cols@),
    ensures
        r@.map_values(|s: String| s@) == rendered(views(items@), cols@, syntax, f),
{
    let ghost iv = views(items@);
    let ghost counts = counts_of_entries(iv);
    let ghost rows_all = select(counts, f, iv.len() as int);
    let mut total: u64 = 0;
    let mut i: usize = 0;
    while i < items.len()
        invariant
            iv == views(items@),
            i <= items@.len(),
            total == sum_counts(iv.take(i as int)),
            sum_counts(iv) <= u64::MAX,
        decreases items@.len() - i,
    {
        proof {
            assert(iv.take(i + 1).drop_last() =~= iv.take(i as int));
            lemma_sum_nonneg(iv.take(i + 1));
            lemma_sum_ints_counts(iv.take(i + 1));
            lemma_sum_ints_counts(iv);
            assert(counts_of_entries(iv.take(i + 1)) =~= counts_of_entries(iv).take(i + 1));
            lemma_prefix_sum(counts_of_entries(iv), i + 1);
        }
        total = total + items[i].count;
        i = i + 1;
    }
    proof {
        assert(iv.take(i as int) =~= iv);
    }
    let mut out: Vec<String> = Vec::new();
    let mut run: u64 = 0;
    let mut k: usize = 0;
    while k < items.len()
        invariant
            iv == views(items@),
            counts == counts_of_entries(iv),
            k <= items@.len(),
            total == sum_counts(iv),
            columns_ok(cols@),
            total > 0 || !has_share_columns(cols@),
            out@.map_values(|s: String| s@) == select(counts, f, k as int).map_values(
                |w: RowView| row_text(cols@, syntax, w.0, w.1, w.2, total as int, iv[w.3].1),
            ),
            run == (if select(counts, f, k as int).len() == 0 {
                0
            } else {
                select(counts, f, k as int).last().2
            }),
        decreases items@.len() - k,
    {
        let rank = k + 1;
        let c = items[k].count;
        proof {
            lemma_sum_ints_counts(iv);
            lemma_select_running(counts, f, k + 1);
            lemma_prefix_sum(counts, k + 1);
            lemma_count_le_sum(iv, k as int);
        }
        let within = match f.limit {
            Some(l) => rank <= l,
            None => true,
        };
        let pass_min = match f.min {
            Some(m) => c >= m,
            None => true,
        };
        let pass_max = match f.max {
            Some(m) => c <= m,
            None => true,
        };
        let ghost before = out@.map_values(|s: String| s@);
        if within && pass_min && pass_max {
            proof {
                assert(counts[k as int] == c);
                assert(kept(c as int, f));
                assert(select(counts, f, k + 1) == select(counts, f, k as int).push(
                    ((k + 1) as int, c as int, run + c, k as int),
                ));
            }
            let next = run + c;
            proof {
                assert forall|j: int| 0 <= j < cols@.len() implies column_ready(
                    #[trigger] cols@[j],
                    c as int,
                    next as int,
                    total as int,
                ) by {
                    assert(cols@[j].digits <= 9);
                    if total == 0 {
                        assert(!is_share(cols@[j]));
                    }
                }
            }
            let line = render_row(
                cols,
                syntax,
                rank as u64,
                c,
                next,
                total,
                items[k].key.1.as_str(),
            );
            out.push(line);
            run = next;
            proof {
                assert(out@.map_values(|s: String| s@) =~= before.push(line@));
            }
        }
        proof {
            assert(out@.map_values(|s: String| s@) =~= select(counts, f, k + 1).map_values(
                |w: RowView| row_text(cols@, syntax, w.0, w.1, w.2, total as int, iv[w.3].1),
            ));
        }
        k = k + 1;
    }
    out
}


/// The counts of some rows.
pub open spec fn row_counts(rows: Seq<RowView>) -> Seq<int> {
    rows.map_values(|w: RowView| w.1)
}

/// The selected rows keep their entries' order and their original 1-based ranks, pass the
/// filters, and carry as running sum the counts of the rows emitted up to and including
/// themselves.
pub proof fn lemma_selected_rows(counts: Seq<int>, f: Filters, k: int)
    requires
        0 <= k <= counts.len(),
    ensures
        ({
            let rows = select(counts, f, k);
            &&& forall|j: int|
                0 <= j < rows.len() ==> {
                    let w = #[trigger] rows[j];
                    &&& 0 <= w.3 < k
                    &&& w.0 == w.3 + 1
                    &&& w.1 == counts[w.3]
                    &&& kept(w.1, f)
                    &&& (f.limit matches Some(l) ==> w.0 <= l)
                    &&& w.2 == sum_ints(row_counts(rows.take(j + 1)))
                }
            &&& forall|i: int, j: int| 0 <= i < j < rows.len() ==> rows[i].3 < rows[j].3
        }),
    decreases k,
{
    if k > 0 {
        lemma_selected_rows(counts, f, k - 1);
        let prev = select(counts, f, k - 1);
        let rows = select(counts, f, k);
        if rows.len() > prev.len() {
            assert(rows == prev.push(rows.last()));
            let j = rows.len() - 1;
            assert(rows.take(j + 1) =~= rows);
            assert(row_counts(rows).drop_last() =~= row_counts(prev));
            if prev.len() > 0 {
                assert(prev.take(prev.len() as int) =~= prev);
            } else {
                assert(row_counts(prev) =~= Seq::<int>::empty());
            }
            assert forall|i: int| 0 <= i < rows.len() implies (#[trigger] rows[i]).2 == sum_ints(
                row_counts(rows.take(i + 1)),
            ) by {
                if i < prev.len() {
                    assert(rows.take(i + 1) =~= prev.take(i + 1));
                    assert(prev[i] == rows[i]);
                } else {
                    let rc = row_counts(rows.take(i + 1));
                    let run = if prev.len() == 0 {
                        0
                    } else {
                        prev.last().2
                    };
                    assert(rows[i] == (k, counts[k - 1], run + counts[k - 1], k - 1));
                    assert(rc.drop_last() =~= row_counts(prev));
                    assert(rc.last() == rows[i].1);
                    assert(sum_ints(rc) == sum_ints(rc.drop_last()) + rc.last());
                    if prev.len() == 0 {
                        assert(sum_ints(row_counts(prev)) == 0);
                    }
                    if prev.len() > 0 {
                        let q = prev.len() - 1;
                        assert(prev[q].2 == sum_ints(row_counts(prev.take(q + 1))));
                        assert(prev.take(q + 1) =~= prev);
                    }
                }
            }
        }
    }
}

} // verus!
