//! Columns and rows of the rendered ranking.
use crate::fixed::{fraction_fits, fraction_of, format_fraction};
use crate::text::{decimal, decimal_string, pad_left, pad_string};
use vstd::prelude::*;

verus! {

/// Relies on `String::push`: appends one character.
#[verifier::external_body]
pub(crate) fn push_char(s: &mut String, c: char)
    ensures
        final(s)@ == old(s)@.push(c),
{
    s.push(c);
}

/// What a column shows.
#[derive(Clone, Copy, PartialEq, Eq, Structural, Debug)]
pub enum ColumnKind {
    /// The 1-based rank.
    Index,
    /// The entry's count.
    Count,
    /// The running sum of counts.
    Running,
    /// The count as a percentage of the total.
    Percent,
    /// The running sum as a percentage of the total.
    Cdf,
}

/// One column of a row: what it shows, its width when padded, and its precision.
#[derive(Clone, Copy, PartialEq, Eq, Structural, Debug)]
pub struct Column {
    pub kind: ColumnKind,
    pub width: usize,
    pub digits: u32,
    pub lpad: bool,
}

/// An integer, right-aligned to `width` when padded.
pub open spec fn int_text(n: int, width: nat, lpad: bool) -> Seq<char> {
    if lpad {
        pad_left(decimal(n as nat), width, ' ')
    } else {
        decimal(n as nat)
    }
}

/// A percentage with `digits` decimals; padded, the whole part is right-aligned to four.
pub open spec fn pct_text(n: int, t: int, digits: nat, lpad: bool) -> Seq<char> {
    let f = fraction_of(n, t, digits);
    let whole = if lpad {
        pad_left(decimal(f.0 as nat), 4, ' ')
    } else {
        decimal(f.0 as nat)
    };
    if digits > 0 {
        whole + seq!['.'] + pad_left(decimal(f.1 as nat), digits, '0')
    } else {
        whole
    }
}

/// The text of a column for a row with this rank, count, running sum and grand total.
pub open spec fn column_text(c: Column, rank: int, count: int, running: int, total: int) -> Seq<
    char,
> {
    match c.kind {
        ColumnKind::Index => int_text(rank, c.width as nat, c.lpad),
        ColumnKind::Count => int_text(count, c.width as nat, c.lpad),
        ColumnKind::Running => int_text(running, c.width as nat, c.lpad),
        ColumnKind::Percent => pct_text(count, total, c.digits as nat, c.lpad),
        ColumnKind::Cdf => pct_text(running, total, c.digits as nat, c.lpad),
    }
}

/// Whether a column can render these values.
pub open spec fn column_ready(c: Column, count: int, running: int, total: int) -> bool {
    match c.kind {
        ColumnKind::Percent => 0 < total && 0 <= count && c.digits <= 9 && (count <= total
            || fraction_fits(count, total, c.digits as nat)),
        ColumnKind::Cdf => 0 < total && 0 <= running && c.digits <= 9 && (running <= total
            || fraction_fits(running, total, c.digits as nat)),
        _ => true,
    }
}

pub fn mk_idx(width: usize, lpad: bool) -> (r: Column)
    ensures
        r == (Column { kind: ColumnKind::Index, width, digits: 0, lpad }),
{
    Column { kind: ColumnKind::Index, width, digits: 0, lpad }
}

pub fn mk_cnt(width: usize, lpad: bool) -> (r: Column)
    ensures
        r == (Column { kind: ColumnKind::Count, width, digits: 0, lpad }),
{
    Column { kind: ColumnKind::Count, width, digits: 0, lpad }
}

pub fn mk_run(width: usize, lpad: bool) -> (r: Column)
    ensures
        r == (Column { kind: ColumnKind::Running, width, digits: 0, lpad }),
{
    Column { kind: ColumnKind::Running, width, digits: 0, lpad }
}

pub fn mk_pct(digits: u32, lpad: bool) -> (r: Column)
    ensures
        r == (Column { kind: ColumnKind::Percent, width: 0, digits, lpad }),
{
    Column { kind: ColumnKind::Percent, width: 0, digits, lpad }
}

pub fn mk_cdf(digits: u32, lpad: bool) -> (r: Column)
    ensures
        r == (Column { kind: ColumnKind::Cdf, width: 0, digits, lpad }),
{
    Column { kind: ColumnKind::Cdf, width: 0, digits, lpad }
}

/// Renders an integer, right-aligned to `width` when padded.
pub fn mk_fmt_int(n: u64, width: usize, lpad: bool) -> (r: String)
    ensures
        r@ == int_text(n as int, width as nat, lpad),
{
    let s = decimal_string(n);
    if lpad {
        proof {
            reveal_strlit(" ");
        }
        pad_string(s, width, " ")
    } else {
        s
    }
}

/// Renders the percentage `n / t * 100` with `digits` decimals.
pub fn mk_fmt_pct(n: u64, t: u64, digits: u32, lpad: bool) -> (r: String)
    requires
        0 < t,
        digits <= 9,
        n <= t || fraction_fits(n as int, t as int, digits as nat),
    ensures
        r@ == pct_text(n as int, t as int, digits as nat, lpad),
{
    proof {
        reveal_strlit(" ");
        reveal_strlit("0");
        reveal_strlit(".");
    }
    let (whole, frac) = format_fraction(n, t, digits);
    let w = decimal_string(whole);
    let mut out = if lpad {
        pad_string(w, 4, " ")
    } else {
        w
    };
    if digits > 0 {
        out.append(".");
        let f = pad_string(decimal_string(frac), digits as usize, "0");
        out.append(f.as_str());
    }
    out
}

impl Column {
    /// The column's text for a row.
    pub fn render(&self, rank: u64, count: u64, running: u64, total: u64) -> (r: String)
        requires
            column_ready(*self, count as int, running as int, total as int),
        ensures
            r@ == column_text(*self, rank as int, count as int, running as int, total as int),
    {
        match self.kind {
            ColumnKind::Index => mk_fmt_int(rank, self.width, self.lpad),
            ColumnKind::Count => mk_fmt_int(count, self.width, self.lpad),
            ColumnKind::Running => mk_fmt_int(running, self.width, self.lpad),
            ColumnKind::Percent => mk_fmt_pct(count, total, self.digits, self.lpad),
            ColumnKind::Cdf => mk_fmt_pct(running, total, self.digits, self.lpad),
        }
    }
}

/// How a row is written.
#[derive(Clone, Copy, PartialEq, Eq, Structural, Debug)]
pub enum Syntax {
    /// Padded columns, then two spaces and the payload.
    Plain,
    /// Columns and payload separated by tabs.
    Tsv,
    /// Columns separated by commas, then the payload quoted and escaped.
    Csv,
    /// The payload alone.
    Unique,
}

/// The parts joined by `sep`.
pub open spec fn join_with(parts: Seq<Seq<char>>, sep: Seq<char>) -> Seq<char>
    decreases parts.len(),
{
    if parts.len() == 0 {
        Seq::empty()
    } else if parts.len() == 1 {
        parts[0]
    } else {
        join_with(parts.drop_last(), sep) + sep + parts.last()
    }
}

/// Whether a character is escaped in a quoted payload.
pub open spec fn needs_escape(c: char) -> bool {
    c == '\\' || c == ',' || c == '"'
}

/// A payload with a backslash before each backslash, comma and double quote.
pub open spec fn csv_escape(s: Seq<char>) -> Seq<char>
    decreases s.len(),
{
    if s.len() == 0 {
        Seq::empty()
    } else {
        let c = s.last();
        csv_escape(s.drop_last()) + if needs_escape(c) {
            seq!['\\', c]
        } else {
            seq![c]
        }
    }
}

/// The texts of the columns for one row.
pub open spec fn parts_of(cols: Seq<Column>, rank: int, count: int, running: int, total: int) -> Seq<
    Seq<char>,
> {
    cols.map_values(|c: Column| column_text(c, rank, count, running, total))
}

/// One row of output, without its line end.
pub open spec fn row_text(
    cols: Seq<Column>,
    syntax: Syntax,
    rank: int,
    count: int,
    running: int,
    total: int,
    payload: Seq<char>,
) -> Seq<char> {
    let parts = parts_of(cols, rank, count, running, total);
    match syntax {
        Syntax::Unique => payload,
        Syntax::Csv => join_with(parts, seq![',']) + seq![',', '"'] + csv_escape(payload) + seq![
            '"',
        ],
        Syntax::Tsv => join_with(parts, seq!['\t']) + seq!['\t'] + payload,
        Syntax::Plain => join_with(parts, Seq::empty()) + seq![' ', ' '] + payload,
    }
}

/// Escapes backslashes, commas and double quotes with a backslash.
pub fn escape_csv(s: &str) -> (r: String)
    ensures
        r@ == csv_escape(s@),
{
    let mut out = String::new();
    for c in it: s.chars()
        invariant
            it.seq() == s@,
            out@ == csv_escape(s@.take(it.index() as int)),
    {
        let ghost i = it.index();
        if c == '\\' || c == ',' || c == '"' {
            push_char(&mut out, '\\');
        }
        push_char(&mut out, c);
        proof {
            assert(s@.take(i + 1).drop_last() =~= s@.take(i as int));
            assert(s@.take(i + 1).last() == c);
        }
    }
    proof {
        assert(s@.take(s@.len() as int) =~= s@);
    }
    out
}

/// Writes one row: the columns in the row syntax, then the payload.
pub fn render_row(
    cols: &Vec<Column>,
    syntax: Syntax,
    rank: u64,
    count: u64,
    running: u64,
    total: u64,
    payload: &str,
) -> (r: String)
    requires
        forall|i: int|
            0 <= i < cols@.len() ==> column_ready(
                #[trigger] cols@[i],
                count as int,
                running as int,
                total as int,
            ),
    ensures
        r@ == row_text(
            cols@,
            syntax,
            rank as int,
            count as int,
            running as int,
            total as int,
            payload@,
        ),
{
    proof {
        reveal_strlit(",");
        reveal_strlit("\t");
        reveal_strlit("");
        reveal_strlit("  ");
        reveal_strlit(",\"");
        reveal_strlit("\"");
    }
    if let Syntax::Unique = syntax {
        return payload.to_owned();
    }
    let sep = match syntax {
        Syntax::Csv => ",",
        Syntax::Tsv => "\t",
        _ => "",
    };
    let ghost parts = parts_of(cols@, rank as int, count as int, running as int, total as int);
    let mut s = String::new();
    let mut k: usize = 0;
    while k < cols.len()
        invariant
            k <= cols@.len(),
            parts == parts_of(cols@, rank as int, count as int, running as int, total as int),
            s@ == join_with(parts.take(k as int), sep@),
            forall|i: int|
                0 <= i < cols@.len() ==> column_ready(
                    #[trigger] cols@[i],
                    count as int,
                    running as int,
                    total as int,
                ),
        decreases cols@.len() - k,
    {
        if k > 0 {
            s.append(sep);
        }
        let part = cols[k].render(rank, count, running, total);
        s.append(part.as_str());
        proof {
            assert(parts.take(k + 1).drop_last() =~= parts.take(k as int));
            if k == 0 {
                assert(s@ =~= join_with(parts.take(1), sep@));
            } else {
                assert(s@ =~= join_with(parts.take(k + 1), sep@));
            }
        }
        k = k + 1;
    }
    proof {
        assert(parts.take(k as int) =~= parts);
    }
    let ghost head = s@;
    match syntax {
        Syntax::Csv => {
            assert(sep@ =~= seq![',']);
            s.append(",\"");
            let e = escape_csv(payload);
            s.append(e.as_str());
            s.append("\"");
            assert(s@ =~= head + seq![',', '"'] + csv_escape(payload@) + seq!['"']);
        },
        Syntax::Tsv => {
            assert(sep@ =~= seq!['\t']);
            s.append("\t");
            s.append(payload);
            assert(s@ =~= head + seq!['\t'] + payload@);
        },
        _ => {
            assert(sep@ =~= Seq::<char>::empty());
            s.append("  ");
            s.append(payload);
            assert(s@ =~= head + seq![' ', ' '] + payload@);
        },
    }
    s
}

} // verus!
