//! The settings of a counting run.
use crate::rank::{CountOrder, SortPolicy, TieBreak};
use crate::render::{mk_cdf, mk_cnt, mk_idx, mk_pct, mk_run, Column, ColumnKind, Syntax};
use crate::report::{columns_ok, Filters};
use crate::text::{decimal, n_width};
use vstd::prelude::*;

verus! {

/// What to count and how to rank and write it.
#[derive(Clone, Debug)]
pub struct FreqArgs {
    /// A pattern to filter lines by or to capture payloads with.
    pub regex: Option<String>,
    /// Decimal places of the percentages, 0 to 9.
    pub digits: u32,
    /// Write at most this many ranks.
    pub limit: Option<usize>,
    /// Write only entries counted at least this many times.
    pub min: Option<u64>,
    /// Write only entries counted at most this many times.
    pub max: Option<u64>,
    /// Break ties by first-seen position (the default).
    pub insertion: bool,
    /// Break ties by the payloads' bytes.
    pub lexigraphic: bool,
    /// Do not break ties.
    pub unstable: bool,
    /// Do not sort by count.
    pub no_freq_sort: bool,
    /// Skip the first line of each input.
    pub skip_header: bool,
    /// Least frequent first.
    pub reverse: bool,
    /// Write the payloads alone.
    pub unique: bool,
    /// Write the rank of each row.
    pub number: bool,
    /// Write the running sum of counts.
    pub sum: bool,
    /// Leave out the percentage column.
    pub no_pct: bool,
    /// Leave out the cumulative percentage column.
    pub no_cdf: bool,
    /// Tab-separated rows.
    pub tsv: bool,
    /// Comma-separated rows.
    pub csv: bool,
}

/// Why the settings cannot be used.
#[derive(Clone, Copy, PartialEq, Eq, Structural, Debug)]
pub enum ArgsError {
    /// The maximum count is below the minimum.
    MaxBelowMin,
    /// The precision is above nine.
    DigitsOutOfRange,
}

pub open spec fn spec_max(a: nat, b: nat) -> nat {
    if a >= b {
        a
    } else {
        b
    }
}

/// The columns of a row, in order: rank, count, running sum, percentage, cumulative
/// percentage. Padded widths come from the largest value each can show, with a floor.
pub open spec fn layout_columns(a: FreqArgs, distinct: nat, most: nat, total: nat) -> Seq<Column> {
    let lpad = !(a.tsv || a.csv);
    let idx = if a.number {
        seq![Column { kind: ColumnKind::Index, width: spec_max(6, 1 + decimal(distinct).len()) as usize, digits: 0, lpad }]
    } else {
        Seq::empty()
    };
    let cnt = seq![Column { kind: ColumnKind::Count, width: spec_max(7, 1 + decimal(most).len()) as usize, digits: 0, lpad }];
    let run = if a.sum {
        seq![Column { kind: ColumnKind::Running, width: spec_max(7, 1 + decimal(total).len()) as usize, digits: 0, lpad }]
    } else {
        Seq::empty()
    };
    let pct = if !a.no_pct {
        seq![Column { kind: ColumnKind::Percent, width: 0, digits: a.digits, lpad }]
    } else {
        Seq::empty()
    };
    let cdf = if !a.no_cdf {
        seq![Column { kind: ColumnKind::Cdf, width: 0, digits: a.digits, lpad }]
    } else {
        Seq::empty()
    };
    idx + cnt + run + pct + cdf
}

pub open spec fn spec_policy(a: FreqArgs) -> SortPolicy {
    let order = if a.reverse {
        CountOrder::Ascending
    } else {
        CountOrder::Descending
    };
    let tie = if a.lexigraphic {
        TieBreak::Lexicographic
    } else {
        TieBreak::Insertion
    };
    if !a.no_freq_sort && a.unstable {
        SortPolicy::CountOnly(order)
    } else if a.no_freq_sort && !a.unstable {
        SortPolicy::TieOnly(tie)
    } else if !a.no_freq_sort && !a.unstable {
        SortPolicy::CountThenTie(order, tie)
    } else {
        SortPolicy::Unsorted
    }
}

pub open spec fn spec_syntax(a: FreqArgs) -> Syntax {
    if a.unique {
        Syntax::Unique
    } else if a.csv {
        Syntax::Csv
    } else if a.tsv {
        Syntax::Tsv
    } else {
        Syntax::Plain
    }
}

fn wider(floor: usize, w: usize) -> (r: usize)
    requires
        w <= 20,
    ensures
        r == spec_max(floor as nat, (1 + w) as nat),
{
    if floor >= 1 + w {
        floor
    } else {
        1 + w
    }
}

impl FreqArgs {
    /// The default settings: three decimals, sorted by count then first-seen position,
    /// plain rows with count, percentage and cumulative percentage.
    pub fn new() -> (r: FreqArgs)
        ensures
            r.regex is None && r.digits == 3 && r.limit is None && r.min is None && r.max is None,
            !r.insertion && !r.lexigraphic && !r.unstable && !r.no_freq_sort && !r.skip_header,
            !r.reverse && !r.unique && !r.number && !r.sum && !r.no_pct && !r.no_cdf,
            !r.tsv && !r.csv,
    {
        FreqArgs {
            regex: None,
            digits: 3,
            limit: None,
            min: None,
            max: None,
            insertion: false,
            lexigraphic: false,
            unstable: false,
            no_freq_sort: false,
            skip_header: false,
            reverse: false,
            unique: false,
            number: false,
            sum: false,
            no_pct: false,
            no_cdf: false,
            tsv: false,
            csv: false,
        }
    }

    /// Checks the settings before any input is read.
    pub fn check_args(&self) -> (r: Result<(), ArgsError>)
        ensures
            r == (if self.min is Some && self.max is Some && self.max->0 < self.min->0 {
                Err::<(), ArgsError>(ArgsError::MaxBelowMin)
            } else if self.digits > 9 {
                Err(ArgsError::DigitsOutOfRange)
            } else {
                Ok(())
            }),
    {
        if let (Some(min), Some(max)) = (self.min, self.max) {
            if max < min {
                return Err(ArgsError::MaxBelowMin);
            }
        }
        if self.digits > 9 {
            return Err(ArgsError::DigitsOutOfRange);
        }
        Ok(())
    }

    /// The sort policy: by count unless `no_freq_sort`, with ties broken unless `unstable`.
    pub fn sort_policy(&self) -> (r: SortPolicy)
        ensures
            r == spec_policy(*self),
    {
        let order = if self.reverse {
            CountOrder::Ascending
        } else {
            CountOrder::Descending
        };
        let tie = if self.lexigraphic {
            TieBreak::Lexicographic
        } else {
            TieBreak::Insertion
        };
        match (self.no_freq_sort, self.unstable) {
            (false, true) => SortPolicy::CountOnly(order),
            (true, false) => SortPolicy::TieOnly(tie),
            (false, false) => SortPolicy::CountThenTie(order, tie),
            (true, true) => SortPolicy::Unsorted,
        }
    }

    /// The row syntax.
    pub fn syntax(&self) -> (r: Syntax)
        ensures
            r == spec_syntax(*self),
    {
        if self.unique {
            Syntax::Unique
        } else if self.csv {
            Syntax::Csv
        } else if self.tsv {
            Syntax::Tsv
        } else {
            Syntax::Plain
        }
    }

    /// The count filters and the rank limit.
    pub fn filters(&self) -> (r: Filters)
        ensures
            r == (Filters { min: self.min, max: self.max, limit: self.limit }),
    {
        Filters { min: self.min, max: self.max, limit: self.limit }
    }

    /// The columns for a ranking of `distinct` entries whose top count is `most`.
    pub fn columns(&self, distinct: usize, most: u64, total: u64) -> (r: Vec<Column>)
        requires
            self.digits <= 9,
        ensures
            r@ == layout_columns(*self, distinct as nat, most as nat, total as nat),
            columns_ok(r@),
    {
        let lpad = !(self.tsv || self.csv);
        let mut cols: Vec<Column> = Vec::new();
        if self.number {
            cols.push(mk_idx(wider(6, n_width(distinct as u64)), lpad));
        }
        cols.push(mk_cnt(wider(7, n_width(most)), lpad));
        if self.sum {
            cols.push(mk_run(wider(7, n_width(total)), lpad));
        }
        if !self.no_pct {
            cols.push(mk_pct(self.digits, lpad));
        }
        if !self.no_cdf {
            cols.push(mk_cdf(self.digits, lpad));
        }
        proof {
            assert(cols@ =~= layout_columns(*self, distinct as nat, most as nat, total as nat));
        }
        cols
    }
}

} // verus!
