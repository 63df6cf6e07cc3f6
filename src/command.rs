//! A whole counting run: lines in, rows out.
use crate::args::{layout_columns, spec_policy, spec_syntax, ArgsError, FreqArgs};
use crate::extract::{
    count_only, line_outcome, pattern_compiles, pattern_groups, policy_fits, ExtractError,
    Extractor, PatternError, Policy,
};
use crate::rank::{
    coherent, coherent_for, lemma_ranking_unique, rank, rank_order, views, Entry, EntryView,
};
use crate::render::Syntax;
use crate::report::{
    counts_of_entries, has_share_columns, is_share, lemma_sum_ints_counts, render_rows, rendered,
    select, sum_ints, Filters, RowView,
};
use crate::table::{
    event_payloads, lemma_permutation_distinct, lemma_sum_permutation, lemma_tally, lemma_tally_distinct, sum_counts, sum_incs,
    tally, tally_step, FrequencyTable,
};
use vstd::prelude::*;
use vstd::relations::sorted_by;

verus! {

/// Why a run stopped.
pub enum FreqError {
    /// The settings are inconsistent.
    Args(ArgsError),
    /// The pattern cannot be used.
    Pattern(PatternError),
    /// A line's count could not be read.
    Extract { line: usize, error: ExtractError },
    /// The total count would not fit in 64 bits.
    CountOverflow { line: usize },
    /// Every count is zero, so no share of the total exists.
    ZeroTotal,
}

/// What recording outcome `o` of line `index` does to a table.
pub open spec fn applied(
    o: Result<Option<EntryView>, ExtractError>,
    before: FrequencyTable,
    after: FrequencyTable,
    r: Result<(), FreqError>,
    index: usize,
) -> bool {
    let unchanged = after.entries() == before.entries() && after.spec_total()
        == before.spec_total();
    match o {
        Ok(None) => r is Ok && unchanged,
        Ok(Some(e)) => if before.spec_total() + e.2 <= u64::MAX {
            r is Ok && after.entries() == tally_step(before.entries(), e.0, e.1, e.2)
                && after.spec_total() == before.spec_total() + e.2
        } else {
            r == Err::<(), FreqError>(FreqError::CountOverflow { line: index }) && unchanged
        },
        Err(x) => r == Err::<(), FreqError>(FreqError::Extract { line: index, error: x })
            && unchanged,
    }
}

/// Extracts line `index` and records what it gives.
pub fn add_line(table: &mut FrequencyTable, ext: &Extractor, index: usize, line: &str) -> (r:
    Result<(), FreqError>)
    requires
        old(table).wf(),
        ext.wf(),
    ensures
        final(table).wf(),
        applied(
            line_outcome(ext.spec_policy(), ext.spec_source(), index as int, line@),
            *old(table),
            *final(table),
            r,
            index,
        ),
{
    let out = ext.extract(index, line);
    match out {
        Ok(Some(e)) => {
            if e.count > u64::MAX - table.total() {
                return Err(FreqError::CountOverflow { line: index });
            }
            table.record(e.key, e.count);
            Ok(())
        },
        Ok(None) => Ok(()),
        Err(x) => Err(FreqError::Extract { line: index, error: x }),
    }
}

pub type Event = (int, Seq<char>, int);

/// The events of the first `k` lines: one for each line that gives a payload, in order.
pub open spec fn events_upto(
    p: Policy,
    source: Option<Seq<char>>,
    lines: Seq<String>,
    k: int,
) -> Seq<Event>
    decreases k,
{
    if k <= 0 || k > lines.len() {
        Seq::empty()
    } else {
        let prev = events_upto(p, source, lines, k - 1);
        match line_outcome(p, source, k - 1, lines[k - 1]@) {
            Ok(Some(e)) => prev.push(e),
            _ => prev,
        }
    }
}

/// The events of all the lines.
pub open spec fn events_of(p: Policy, source: Option<Seq<char>>, lines: Seq<String>) -> Seq<Event> {
    events_upto(p, source, lines, lines.len() as int)
}

/// Whether every line can be counted: none gives an error, and no running total overflows.
pub open spec fn countable(p: Policy, source: Option<Seq<char>>, lines: Seq<String>) -> bool {
    &&& forall|i: int|
        0 <= i < lines.len() ==> !(#[trigger] line_outcome(p, source, i, lines[i]@) is Err)
    &&& forall|k: int| 0 <= k <= lines.len() ==> sum_incs(#[trigger] events_upto(p, source, lines, k)) <= u64::MAX
}

/// Counts the lines, numbered from zero.
pub fn count_lines(ext: &Extractor, lines: &Vec<String>) -> (r: Result<FrequencyTable, FreqError>)
    requires
        ext.wf(),
    ensures
        r matches Ok(t) ==> t.wf() && t.entries() == tally(
            events_of(ext.spec_policy(), ext.spec_source(), lines@),
        ) && t.spec_total() == sum_incs(events_of(ext.spec_policy(), ext.spec_source(), lines@)),
        countable(ext.spec_policy(), ext.spec_source(), lines@) ==> r is Ok,
        ext.spec_policy() is Verbatim ==> (r matches Ok(t) && t.spec_total() == lines@.len()),
        r matches Err(e) ==> match e {
            FreqError::Extract { line, error } => line < lines@.len() && line_outcome(
                ext.spec_policy(),
                ext.spec_source(),
                line as int,
                lines@[line as int]@,
            ) == Err::<Option<EntryView>, ExtractError>(error),
            FreqError::CountOverflow { line } => line < lines@.len() && sum_incs(
                events_upto(ext.spec_policy(), ext.spec_source(), lines@, line + 1),
            ) > u64::MAX,
            _ => false,
        },
{
    let ghost p = ext.spec_policy();
    let ghost src = ext.spec_source();
    let mut table = FrequencyTable::new();
    let mut i: usize = 0;
    while i < lines.len()
        invariant
            ext.wf(),
            p == ext.spec_policy(),
            src == ext.spec_source(),
            table.wf(),
            i <= lines@.len(),
            tally(events_upto(p, src, lines@, i as int)) == table.entries(),
            table.spec_total() == sum_incs(events_upto(p, src, lines@, i as int)),
            p is Verbatim ==> table.spec_total() == i,
        decreases lines@.len() - i,
    {
        let ghost before = table;
        let ghost ev = events_upto(p, src, lines@, i as int);
        let step = add_line(&mut table, ext, i, lines[i].as_str());
        proof {
            let o = line_outcome(p, src, i as int, lines@[i as int]@);
            assert(events_upto(p, src, lines@, i + 1) == (match o {
                Ok(Some(e)) => ev.push(e),
                _ => ev,
            }));
            if o is Ok && o->Ok_0 is Some {
                assert(ev.push(o->Ok_0->0).drop_last() =~= ev);
            }
        }
        match step {
            Ok(()) => {},
            Err(x) => {
                return Err(x);
            },
        }
        i = i + 1;
    }
    Ok(table)
}

/// Whether `ranked` is a ranking of the counts of `ev` under the settings.
pub open spec fn ranks(a: FreqArgs, ev: Seq<Event>, ranked: Seq<EntryView>) -> bool {
    &&& ranked.to_multiset() == tally(ev).to_multiset()
    &&& sorted_by(ranked, rank_order(spec_policy(a)))
    &&& spec_policy(a) is Unsorted ==> ranked == tally(ev)
}

/// The largest count among the entries (zero for none).
pub open spec fn max_count(s: Seq<EntryView>) -> int
    decreases s.len(),
{
    if s.len() == 0 {
        0
    } else if s.last().2 > max_count(s.drop_last()) {
        s.last().2
    } else {
        max_count(s.drop_last())
    }
}

/// Whether the rows show a share of the total.
pub open spec fn shows_shares(a: FreqArgs) -> bool {
    !(spec_syntax(a) is Unique) && (!a.no_pct || !a.no_cdf)
}

fn largest_count(items: &Vec<Entry>) -> (r: u64)
    ensures
        r == max_count(views(items@)),
{
    let mut m: u64 = 0;
    let mut i: usize = 0;
    while i < items.len()
        invariant
            i <= items@.len(),
            m == max_count(views(items@).take(i as int)),
        decreases items@.len() - i,
    {
        proof {
            assert(views(items@).take(i + 1).drop_last() =~= views(items@).take(i as int));
        }
        if items[i].count > m {
            m = items[i].count;
        }
        i = i + 1;
    }
    proof {
        assert(views(items@).take(i as int) =~= views(items@));
    }
    m
}

/// The rows written for a ranking under the settings.
pub open spec fn report_rows(a: FreqArgs, ranked: Seq<EntryView>) -> Seq<Seq<char>> {
    if ranked.len() == 0 {
        Seq::empty()
    } else {
        let syntax = spec_syntax(a);
        let cols = if syntax is Unique {
            Seq::empty()
        } else {
            layout_columns(a, ranked.len(), max_count(ranked) as nat, sum_counts(ranked) as nat)
        };
        rendered(ranked, cols, syntax, Filters { min: a.min, max: a.max, limit: a.limit })
    }
}

pub open spec fn args_ok(a: FreqArgs) -> bool {
    !(a.min is Some && a.max is Some && a.max->0 < a.min->0) && a.digits <= 9
}

/// Ranks the counted entries and writes one row per kept entry.
pub fn report(a: &FreqArgs, table: FrequencyTable) -> (r: Result<Vec<String>, FreqError>)
    requires
        table.wf(),
        args_ok(*a),
    ensures
        r matches Ok(rows) ==> exists|ranked: Seq<EntryView>|
            #[trigger] ranks_entries(*a, table.entries(), ranked) && rows@.map_values(
                |s: String| s@,
            ) == report_rows(*a, ranked),
        r is Err ==> r == Err::<Vec<String>, FreqError>(FreqError::ZeroTotal),
        r is Err <==> table.entries().len() > 0 && table.spec_total() == 0 && shows_shares(*a),
{
    if table.is_empty() {
        let rows: Vec<String> = Vec::new();
        proof {
            assert(rows@.map_values(|s: String| s@) =~= report_rows(*a, table.entries()));
            assert(ranks_entries(*a, table.entries(), table.entries()));
        }
        return Ok(rows);
    }
    let ghost entries = table.entries();
    proof {
        table.lemma_wf();
        assert(coherent_for(spec_policy(*a), entries)) by {
            assert forall|i: int, j: int| 0 <= i < entries.len() && 0 <= j < entries.len() implies coherent(#[trigger] entries[i], #[trigger] entries[j]) by {
                if i < j {
                    assert(entries[i].1 != entries[j].1);
                } else if j < i {
                    assert(entries[j].1 != entries[i].1);
                }
            }
        }
    }
    let distinct = table.len();
    let total = table.total();
    let items = table.drain();
    let policy = a.sort_policy();
    let ranked = rank(items, policy);
    let ghost rv = views(ranked@);
    proof {
        lemma_sum_permutation(rv, entries);
        assert(ranks_entries(*a, entries, rv));
    }
    let most = largest_count(&ranked);
    let syntax = a.syntax();
    let cols = if let Syntax::Unique = syntax {
        Vec::new()
    } else {
        a.columns(distinct, most, total)
    };
    if total == 0 && !matches!(syntax, Syntax::Unique) && (!a.no_pct || !a.no_cdf) {
        return Err(FreqError::ZeroTotal);
    }
    proof {
        if total == 0 {
            assert(!has_share_columns(cols@)) by {
                if has_share_columns(cols@) {
                    let i = choose|i: int| 0 <= i < cols@.len() && is_share(#[trigger] cols@[i]);
                }
            }
        }
        assert(crate::report::columns_ok(cols@));
    }
    let rows = render_rows(&ranked, &cols, syntax, a.filters());
    Ok(rows)
}

/// Whether `ranked` is a ranking of `entries` under the settings.
pub open spec fn ranks_entries(a: FreqArgs, entries: Seq<EntryView>, ranked: Seq<EntryView>) -> bool {
    &&& ranked.to_multiset() == entries.to_multiset()
    &&& sorted_by(ranked, rank_order(spec_policy(a)))
    &&& spec_policy(a) is Unsorted ==> ranked == entries
}

/// The text of an optional pattern.
pub open spec fn source_of(regex: Option<String>) -> Option<Seq<char>> {
    match regex {
        Some(s) => Some(s@),
        None => None,
    }
}

/// Whether `p` is the policy that the settings' pattern (or its absence) calls for.
pub open spec fn run_policy(a: FreqArgs, p: Policy) -> bool {
    match a.regex {
        Some(s) => pattern_compiles(s@) && policy_fits(pattern_groups(s@), p),
        None => p is Verbatim,
    }
}

/// Counts the lines, ranks the entries and writes one row per kept entry.
pub fn run(a: &FreqArgs, lines: &Vec<String>) -> (r: Result<Vec<String>, FreqError>)
    ensures
        !args_ok(*a) ==> r is Err,
        r matches Ok(rows) ==> exists|p: Policy, ranked: Seq<EntryView>|
            run_policy(*a, p) && #[trigger] ranks(*a, events_of(p, source_of(a.regex), lines@), ranked)
                && rows@.map_values(|s: String| s@) == report_rows(*a, ranked),
        args_ok(*a) && a.regex is None ==> r is Ok,
        args_ok(*a) && a.regex is Some && !pattern_compiles(a.regex->0@) ==> (r is Err
            && r->Err_0 is Pattern),
        args_ok(*a) && a.regex is Some && pattern_compiles(a.regex->0@) && count_only(
            pattern_groups(a.regex->0@),
        ) ==> (r is Err && r->Err_0 is Pattern),
        args_ok(*a) && a.regex is Some && pattern_compiles(a.regex->0@) && !count_only(
            pattern_groups(a.regex->0@),
        ) && (forall|p: Policy|
            #[trigger] run_policy(*a, p) ==> countable(p, source_of(a.regex), lines@) && (
            sum_incs(events_of(p, source_of(a.regex), lines@)) > 0 || events_of(
                p,
                source_of(a.regex),
                lines@,
            ).len() == 0 || !shows_shares(*a))) ==> r is Ok,
{
    if let Err(e) = a.check_args() {
        return Err(FreqError::Args(e));
    }
    let ext = match &a.regex {
        Some(p) => match Extractor::with_pattern(p.as_str()) {
            Ok(x) => x,
            Err(e) => {
                return Err(FreqError::Pattern(e));
            },
        },
        None => Extractor::verbatim(),
    };
    let ghost p = ext.spec_policy();
    let ghost src = source_of(a.regex);
    proof {
        assert(run_policy(*a, p));
        assert(ext.spec_source() == src);
    }
    let table = match count_lines(&ext, lines) {
        Ok(t) => t,
        Err(e) => {
            return Err(e);
        },
    };
    let ghost ev = events_of(p, src, lines@);
    proof {
        if sum_incs(ev) == 0 && ev.len() == 0 {
            assert(ev =~= Seq::<Event>::empty());
        }
        if p is Verbatim && lines@.len() == 0 {
            assert(ev =~= Seq::<Event>::empty());
            assert(tally(ev).len() == 0);
        }
        if ev.len() == 0 {
            assert(tally(ev).len() == 0) by {
                assert(ev =~= Seq::<Event>::empty());
            }
        }
    }
    let r = report(a, table);
    proof {
        if r is Ok {
            let rows = r->Ok_0;
            let ranked = choose|ranked: Seq<EntryView>|
                #[trigger] ranks_entries(*a, tally(ev), ranked) && rows@.map_values(
                    |s: String| s@,
                ) == report_rows(*a, ranked);
            assert(ranks(*a, ev, ranked));
            assert(run_policy(*a, p) && ranks(*a, events_of(p, source_of(a.regex), lines@), ranked));
        }
    }
    r
}

proof fn lemma_select_all(counts: Seq<int>, k: int)
    requires
        0 <= k <= counts.len(),
    ensures
        select(counts, Filters { min: None, max: None, limit: None }, k).map_values(
            |w: RowView| w.1,
        ) == counts.take(k),
    decreases k,
{
    if k > 0 {
        lemma_select_all(counts, k - 1);
        let f = Filters { min: None, max: None, limit: None };
        assert(select(counts, f, k).map_values(|w: RowView| w.1) =~= select(
            counts,
            f,
            k - 1,
        ).map_values(|w: RowView| w.1).push(counts[k - 1]));
        assert(counts.take(k) =~= counts.take(k - 1).push(counts[k - 1]));
    } else {
        assert(counts.take(k) =~= Seq::<int>::empty());
        assert(select(counts, Filters { min: None, max: None, limit: None }, k).map_values(
            |w: RowView| w.1,
        ) =~= Seq::<int>::empty());
    }
}

proof fn lemma_unit_increments(ev: Seq<Event>)
    requires
        forall|i: int| 0 <= i < ev.len() ==> (#[trigger] ev[i]).2 == 1,
    ensures
        sum_incs(ev) == ev.len(),
    decreases ev.len(),
{
    if ev.len() > 0 {
        lemma_unit_increments(ev.drop_last());
    }
}

/// With no count filters and no rank limit, every ranked entry becomes a row, and the rows'
/// counts add up to the increments counted; when each counted line adds one, that is the
/// number of lines that gave a payload.
pub proof fn lemma_rows_add_up(a: FreqArgs, ev: Seq<Event>, ranked: Seq<EntryView>)
    requires
        ranks(a, ev, ranked),
        a.min is None,
        a.max is None,
        a.limit is None,
    ensures
        select(
            counts_of_entries(ranked),
            Filters { min: a.min, max: a.max, limit: a.limit },
            ranked.len() as int,
        ).len() == ranked.len(),
        sum_ints(
            select(
                counts_of_entries(ranked),
                Filters { min: a.min, max: a.max, limit: a.limit },
                ranked.len() as int,
            ).map_values(|w: RowView| w.1),
        ) == sum_incs(ev),
        (forall|i: int| 0 <= i < ev.len() ==> (#[trigger] ev[i]).2 == 1) ==> sum_incs(ev)
            == ev.len(),
{
    let counts = counts_of_entries(ranked);
    lemma_select_all(counts, ranked.len() as int);
    assert(counts.take(ranked.len() as int) =~= counts);
    lemma_sum_ints_counts(ranked);
    lemma_sum_permutation(ranked, tally(ev));
    lemma_tally(ev);
    if forall|i: int| 0 <= i < ev.len() ==> (#[trigger] ev[i]).2 == 1 {
        lemma_unit_increments(ev);
    }
}

/// A ranking has one entry per distinct payload among the events counted.
pub proof fn lemma_ranked_distinct(a: FreqArgs, ev: Seq<Event>, ranked: Seq<EntryView>)
    requires
        ranks(a, ev, ranked),
    ensures
        ranked.len() == event_payloads(ev).len(),
{
    lemma_sum_permutation(ranked, tally(ev));
    lemma_tally_distinct(ev);
}

/// With ties broken (by first-seen position or by bytes), counting the same events twice
/// ranks them the same way and writes the same rows in the same order.
pub proof fn lemma_same_rows(a: FreqArgs, ev: Seq<Event>, r1: Seq<EntryView>, r2: Seq<EntryView>)
    requires
        !a.unstable,
        ranks(a, ev, r1),
        ranks(a, ev, r2),
    ensures
        r1 == r2,
        report_rows(a, r1) == report_rows(a, r2),
{
    lemma_tally(ev);
    lemma_permutation_distinct(tally(ev), r1);
    lemma_permutation_distinct(tally(ev), r2);
    lemma_ranking_unique(spec_policy(a), r1, r2);
}

} // verus!
