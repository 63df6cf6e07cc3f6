use freq::args::{ArgsError, FreqArgs};
use freq::command::{count_lines, run, FreqError};
use freq::egg::{build_lut, decode, egg, render_symbol};
use freq::extract::{parse_count, ExtractError, Extractor, PatternError, Policy};
use freq::fixed::{format_fraction, format_integer_fraction};
use freq::input::Input;
use freq::ordered::{lex_compare, Ordered};
use freq::orderedstring::OrderedString;
use freq::rank::{rank, CountOrder, Entry, SortPolicy, TieBreak};
use freq::render::{escape_csv, mk_cdf, mk_cnt, mk_fmt_int, mk_fmt_pct, mk_idx, mk_pct, render_row, Syntax};
use freq::table::FrequencyTable;
use freq::text::{decimal_string, n_width};
use freq::version::check_version;
use std::cmp::Ordering;

fn lines(xs: &[&str]) -> Vec<String> {
    xs.iter().map(|s| s.to_string()).collect()
}

fn sample() -> Vec<String> {
    lines(&["a", "b", "a", "c", "b", "a"])
}

#[test]
fn default_ranking_with_whole_percentages() {
    let mut a = FreqArgs::new();
    a.digits = 0;
    let rows = run(&a, &sample()).ok().unwrap();
    assert_eq!(
        rows,
        vec![
            "      3  50  50  a".to_string(),
            "      2  33  83  b".to_string(),
            "      1  17 100  c".to_string(),
        ]
    );
}

#[test]
fn default_ranking_with_three_decimals() {
    let a = FreqArgs::new();
    let rows = run(&a, &sample()).ok().unwrap();
    assert_eq!(rows[0], "      3  50.000  50.000  a");
    assert_eq!(rows[1], "      2  33.333  83.333  b");
    assert_eq!(rows[2], "      1  16.667 100.000  c");
}

#[test]
fn lexicographic_only_ordering() {
    let mut a = FreqArgs::new();
    a.no_freq_sort = true;
    a.lexigraphic = true;
    a.unique = true;
    let rows = run(&a, &lines(&["c", "b", "a", "c", "b", "c"])).ok().unwrap();
    assert_eq!(rows, vec!["a".to_string(), "b".to_string(), "c".to_string()]);
}

#[test]
fn lexicographic_scenario_on_sample() {
    let mut a = FreqArgs::new();
    a.no_freq_sort = true;
    a.lexigraphic = true;
    a.unique = true;
    let rows = run(&a, &sample()).ok().unwrap();
    assert_eq!(rows, vec!["a".to_string(), "b".to_string(), "c".to_string()]);
}

#[test]
fn insertion_order_breaks_ties() {
    let mut a = FreqArgs::new();
    a.unique = true;
    let rows = run(&a, &lines(&["z", "y", "x", "y", "z", "x"])).ok().unwrap();
    assert_eq!(rows, vec!["z".to_string(), "y".to_string(), "x".to_string()]);
}

#[test]
fn reverse_puts_least_frequent_first() {
    let mut a = FreqArgs::new();
    a.unique = true;
    a.reverse = true;
    let rows = run(&a, &sample()).ok().unwrap();
    assert_eq!(rows, vec!["c".to_string(), "b".to_string(), "a".to_string()]);
}

#[test]
fn same_input_same_rows() {
    let a = FreqArgs::new();
    let first = run(&a, &sample()).ok().unwrap();
    let second = run(&a, &sample()).ok().unwrap();
    assert_eq!(first, second);
}

#[test]
fn count_capture_pattern() {
    let e = Extractor::with_pattern("^(?P<n>\\d+)\\t(?P<v>.+)$").ok().unwrap();
    let got = e.extract(0, "5\tfoo").ok().unwrap().unwrap();
    assert_eq!(got.key.1, "foo");
    assert_eq!(got.count, 5);
    assert_eq!(got.key.0, 0);
}

#[test]
fn count_capture_rejects_bad_number() {
    let e = Extractor::with_pattern("^(?P<n>\\w+)\\t(?P<v>.+)$").ok().unwrap();
    assert!(matches!(e.extract(3, "x\tfoo"), Err(ExtractError::BadCount)));
}

#[test]
fn count_group_alone_is_refused() {
    let r = Extractor::with_pattern("^(?P<n>\\d+)$");
    assert!(matches!(r, Err(PatternError::CountWithoutValue)));
}

#[test]
fn invalid_pattern_is_refused() {
    assert!(matches!(Extractor::with_pattern("(unclosed"), Err(PatternError::Invalid(_))));
}

#[test]
fn filter_pattern_keeps_matching_lines() {
    let e = Extractor::with_pattern("^a").ok().unwrap();
    assert!(matches!(e.policy(), Policy::Filter));
    let got = e.extract(2, "abc").ok().unwrap().unwrap();
    assert_eq!(got.key.1, "abc");
    assert_eq!(got.count, 1);
    assert!(e.extract(3, "xyz").ok().unwrap().is_none());
}

#[test]
fn projection_sorts_named_groups_then_unnamed() {
    let e = Extractor::with_pattern("(?P<b>\\w)(\\w)(?P<a>\\w)").ok().unwrap();
    let got = e.extract(0, "xyz").ok().unwrap().unwrap();
    assert_eq!(got.key.1, "z\tx\ty");
}

#[test]
fn missing_group_gives_empty_field() {
    let e = Extractor::with_pattern("(a)|(b)").ok().unwrap();
    let got = e.extract(0, "b").ok().unwrap().unwrap();
    assert_eq!(got.key.1, "\tb");
}

#[test]
fn minimum_filter_keeps_ranks() {
    let mut a = FreqArgs::new();
    a.digits = 0;
    a.min = Some(2);
    a.number = true;
    a.sum = true;
    a.tsv = true;
    let rows = run(&a, &sample()).ok().unwrap();
    assert_eq!(rows, vec!["1\t3\t3\t50\t50\ta".to_string(), "2\t2\t5\t33\t83\tb".to_string()]);
}

#[test]
fn maximum_filter_sums_emitted_rows_only() {
    let mut a = FreqArgs::new();
    a.digits = 0;
    a.max = Some(2);
    a.number = true;
    a.sum = true;
    a.tsv = true;
    let rows = run(&a, &sample()).ok().unwrap();
    assert_eq!(rows, vec!["2\t2\t2\t33\t33\tb".to_string(), "3\t1\t3\t17\t50\tc".to_string()]);
}

#[test]
fn limit_stops_after_rank() {
    let mut a = FreqArgs::new();
    a.unique = true;
    a.limit = Some(2);
    let rows = run(&a, &sample()).ok().unwrap();
    assert_eq!(rows, vec!["a".to_string(), "b".to_string()]);
}

#[test]
fn csv_rows_quote_and_escape() {
    let mut a = FreqArgs::new();
    a.csv = true;
    a.digits = 1;
    let rows = run(&a, &lines(&["x,\"y\"\\", "q"])).ok().unwrap();
    assert_eq!(rows[0], "1,50.0,50.0,\"x\\,\\\"y\\\"\\\\\"");
    assert_eq!(rows[1], "1,50.0,100.0,\"q\"");
}

#[test]
fn empty_input_gives_no_rows() {
    let rows = run(&FreqArgs::new(), &Vec::new()).ok().unwrap();
    assert!(rows.is_empty());
}

#[test]
fn max_below_min_is_refused() {
    let mut a = FreqArgs::new();
    a.min = Some(3);
    a.max = Some(2);
    assert_eq!(a.check_args(), Err(ArgsError::MaxBelowMin));
    assert!(matches!(run(&a, &sample()), Err(FreqError::Args(ArgsError::MaxBelowMin))));
}

#[test]
fn digits_above_nine_are_refused() {
    let mut a = FreqArgs::new();
    a.digits = 10;
    assert_eq!(a.check_args(), Err(ArgsError::DigitsOutOfRange));
}

#[test]
fn bad_count_reports_its_line() {
    let mut a = FreqArgs::new();
    a.regex = Some("^(?P<n>\\S+) (?P<v>.+)$".to_string());
    let r = run(&a, &lines(&["2 x", "two y"]));
    assert!(matches!(
        r,
        Err(FreqError::Extract { line: 1, error: ExtractError::BadCount })
    ));
}

#[test]
fn zero_counts_are_refused_when_shares_are_shown() {
    let mut a = FreqArgs::new();
    a.regex = Some("^(?P<n>\\d+) (?P<v>.+)$".to_string());
    assert!(matches!(run(&a, &lines(&["0 x"])), Err(FreqError::ZeroTotal)));
}

#[test]
fn count_overflow_is_refused() {
    let mut a = FreqArgs::new();
    a.regex = Some("^(?P<n>\\d+) (?P<v>.+)$".to_string());
    let r = run(&a, &lines(&["18446744073709551615 x", "1 y"]));
    assert!(matches!(r, Err(FreqError::CountOverflow { line: 1 })));
}

#[test]
fn counted_lines_add_their_counts() {
    let mut a = FreqArgs::new();
    a.regex = Some("^(?P<n>\\d+)\\t(?P<v>.+)$".to_string());
    a.digits = 0;
    a.tsv = true;
    let rows = run(&a, &lines(&["5\tfoo", "3\tbar", "2\tfoo", "junk"])).ok().unwrap();
    assert_eq!(rows, vec!["7\t70\t70\tfoo".to_string(), "3\t30\t100\tbar".to_string()]);
}

#[test]
fn whole_fraction_is_one_hundred() {
    for d in 0..=9u32 {
        assert_eq!(format_fraction(7, 7, d), (100, 0));
    }
    assert_eq!(format_fraction(u64::MAX, u64::MAX, 9), (100, 0));
}

#[test]
fn fraction_rounds_half_up() {
    assert_eq!(format_fraction(1, 3, 0), (33, 0));
    assert_eq!(format_fraction(2, 3, 0), (67, 0));
    assert_eq!(format_fraction(1, 6, 2), (16, 67));
    assert_eq!(format_fraction(1, 8, 1), (12, 5));
    assert_eq!(format_fraction(1, 8, 0), (13, 0));
    assert_eq!(format_fraction(1, 200, 0), (1, 0));
    assert_eq!(format_fraction(1, 3, 9), (33, 333333333));
    assert_eq!(format_integer_fraction(5, 6), 83);
}

#[test]
fn fraction_is_monotonic() {
    let mut last = (0, 0);
    for n in 0..=40u64 {
        let f = format_fraction(n, 40, 2);
        assert!(f >= last);
        last = f;
    }
}

#[test]
fn fraction_of_huge_counts() {
    assert_eq!(format_fraction(u64::MAX / 2, u64::MAX, 3), (50, 0));
    assert_eq!(format_integer_fraction(u64::MAX - 1, u64::MAX), 100);
}

#[test]
fn widths_and_decimals() {
    assert_eq!(n_width(0), 1);
    assert_eq!(n_width(9), 1);
    assert_eq!(n_width(10), 2);
    assert_eq!(n_width(u64::MAX), 20);
    assert_eq!(decimal_string(0), "0");
    assert_eq!(decimal_string(1234567890), "1234567890");
    assert_eq!(decimal_string(u64::MAX), "18446744073709551615");
}

#[test]
fn padded_numbers() {
    assert_eq!(mk_fmt_int(42, 7, true), "     42");
    assert_eq!(mk_fmt_int(42, 7, false), "42");
    assert_eq!(mk_fmt_int(12345678, 7, true), "12345678");
    assert_eq!(mk_fmt_pct(1, 3, 3, true), "  33.333");
    assert_eq!(mk_fmt_pct(1, 3, 3, false), "33.333");
    assert_eq!(mk_fmt_pct(1, 200, 2, false), "0.50");
    assert_eq!(mk_fmt_pct(1, 3, 0, true), "  33");
    assert_eq!(mk_fmt_pct(3, 3, 0, false), "100");
}

#[test]
fn columns_render_in_rows() {
    let cols = vec![mk_idx(6, true), mk_cnt(7, true), mk_pct(1, true), mk_cdf(1, true)];
    let row = render_row(&cols, Syntax::Plain, 1, 3, 3, 6, "a");
    assert_eq!(row, "     1      3  50.0  50.0  a");
    let row = render_row(&cols, Syntax::Unique, 1, 3, 3, 6, "a");
    assert_eq!(row, "a");
}

#[test]
fn csv_escaping() {
    assert_eq!(escape_csv("a,b\"c\\d"), "a\\,b\\\"c\\\\d");
    assert_eq!(escape_csv("plain"), "plain");
    assert_eq!(escape_csv(""), "");
}

#[test]
fn count_parsing() {
    assert_eq!(parse_count("0"), Some(0));
    assert_eq!(parse_count("+17"), Some(17));
    assert_eq!(parse_count("18446744073709551615"), Some(u64::MAX));
    assert_eq!(parse_count("18446744073709551616"), None);
    assert_eq!(parse_count(""), None);
    assert_eq!(parse_count("+"), None);
    assert_eq!(parse_count("-1"), None);
    assert_eq!(parse_count("1x"), None);
}

#[test]
fn table_keeps_first_position() {
    let mut t = FrequencyTable::new();
    t.record(Ordered::new(4, "b".to_string()), 1);
    t.record(Ordered::new(7, "a".to_string()), 2);
    t.record(Ordered::new(9, "b".to_string()), 3);
    assert_eq!(t.len(), 2);
    assert_eq!(t.total(), 6);
    let items = t.drain();
    assert_eq!(items.len(), 2);
    assert_eq!((items[0].key.0, items[0].key.1.as_str(), items[0].count), (4, "b", 4));
    assert_eq!((items[1].key.0, items[1].key.1.as_str(), items[1].count), (7, "a", 2));
}

#[test]
fn verbatim_counting() {
    let t = count_lines(&Extractor::verbatim(), &sample()).ok().unwrap();
    assert_eq!(t.len(), 3);
    assert_eq!(t.total(), 6);
}

#[test]
fn ranking_policies() {
    let items = || {
        vec![
            Entry::new(0, "b".to_string(), 1),
            Entry::new(1, "a".to_string(), 2),
            Entry::new(2, "c".to_string(), 1),
        ]
    };
    let names = |v: Vec<Entry>| v.into_iter().map(|e| e.key.1).collect::<Vec<_>>();
    let by = |p| names(rank(items(), p));
    assert_eq!(by(SortPolicy::CountThenTie(CountOrder::Descending, TieBreak::Insertion)), ["a", "b", "c"]);
    assert_eq!(by(SortPolicy::CountThenTie(CountOrder::Ascending, TieBreak::Lexicographic)), ["b", "c", "a"]);
    assert_eq!(by(SortPolicy::TieOnly(TieBreak::Insertion)), ["b", "a", "c"]);
    assert_eq!(by(SortPolicy::TieOnly(TieBreak::Lexicographic)), ["a", "b", "c"]);
    assert_eq!(by(SortPolicy::Unsorted), ["b", "a", "c"]);
    let counts: Vec<u64> = rank(items(), SortPolicy::CountOnly(CountOrder::Descending))
        .iter()
        .map(|e| e.count)
        .collect();
    assert_eq!(counts, [2, 1, 1]);
}

#[test]
fn key_order_and_equality() {
    let a = Ordered::new(5usize, "x".to_string());
    let b = Ordered::new(2usize, "x".to_string());
    let c = Ordered::new(1usize, "y".to_string());
    assert!(a.same_key(&b));
    assert_eq!(a.cmp_key(&b), Ordering::Equal);
    assert_eq!(a.cmp_key(&c), Ordering::Greater);
    assert_eq!(c.cmp_key(&a), Ordering::Less);
    let d = Ordered::new(1usize, "a".to_string());
    assert_eq!(c.cmp_key(&d), Ordering::Greater);
    let s = OrderedString::new(3usize, "p".to_string());
    let t = OrderedString::new(8usize, "q".to_string());
    assert_eq!(s.cmp_key(&t), Ordering::Less);
    assert!(!s.same_key(&t));
    assert_eq!(s.as_str(), "p");
    assert_eq!(lex_compare("ab", "b"), Ordering::Less);
    assert_eq!(lex_compare("é", "z"), Ordering::Greater);
}

#[test]
fn input_formats_from_magic() {
    let gz = Input::reader(&[0x1f, 0x8b, 0x08, 0x00], "f.gz".to_string());
    assert_eq!(gz.get_format(), &Some("gzip"));
    assert_eq!(gz.get_label(), "f.gz");
    assert_eq!(Input::reader(b"BZh91AY", "b".to_string()).get_format(), &Some("bzip2"));
    assert_eq!(Input::reader(&[0x04, 0x22, 0x4d, 0x18], "l".to_string()).get_format(), &Some("lz4"));
    assert_eq!(Input::reader(b"\xfd7zXZ\x00rest", "x".to_string()).get_format(), &Some("xz"));
    assert_eq!(Input::reader(&[0x28, 0xb5, 0x2f, 0xfd], "z".to_string()).get_format(), &Some("zstd"));
    assert_eq!(Input::reader(b"plain text", "p".to_string()).get_format(), &None);
    assert_eq!(Input::reader(&[0x1f, 0x8b], "short".to_string()).get_format(), &None);
}

#[test]
fn unfiltered_counts_add_up_to_lines() {
    let mut a = FreqArgs::new();
    a.tsv = true;
    a.no_pct = true;
    a.no_cdf = true;
    let input = lines(&["x", "y", "x", "z", "x", "y", "w"]);
    let rows = run(&a, &input).ok().unwrap();
    let total: u64 = rows
        .iter()
        .map(|r| r.split('\t').next().unwrap().parse::<u64>().unwrap())
        .sum();
    assert_eq!(total, input.len() as u64);
    assert_eq!(rows.len(), 4);
}

#[test]
fn filtered_lines_do_not_count() {
    let mut a = FreqArgs::new();
    a.regex = Some("^x".to_string());
    a.unique = true;
    let rows = run(&a, &lines(&["xa", "ya", "xa", "xb"])).ok().unwrap();
    assert_eq!(rows, vec!["xa".to_string(), "xb".to_string()]);
}

#[test]
fn version_ranges() {
    assert_eq!(check_version(">=0.1", "0.1.0"), Ok(0));
    assert_eq!(check_version("<0.1", "0.1.0"), Ok(1));
    assert!(check_version("not a range", "0.1.0").is_err());
    assert!(check_version("*", "x.y").is_err());
}

#[test]
fn unicode_payloads_keep_their_text() {
    let mut a = FreqArgs::new();
    a.csv = true;
    a.no_pct = true;
    a.no_cdf = true;
    let rows = run(&a, &lines(&["é,ü", "é,ü"])).ok().unwrap();
    assert_eq!(rows, vec!["2,\"é\\,ü\"".to_string()]);
}

#[test]
fn canonical_code_table() {
    let lut = build_lut(&[1, 1], &[7, 255]).unwrap();
    assert_eq!(lut.len(), 2);
    assert_eq!(lut.get(&2), Some(&7));
    assert_eq!(lut.get(&6), Some(&255));
    assert!(build_lut(&[3], &[1, 2, 3]).is_none());
    assert!(build_lut(&[1, 1], &[7]).is_none());
}

#[test]
fn huffman_decoding_stops_at_terminator() {
    let lut = build_lut(&[1, 1], &[7, 255]).unwrap();
    assert_eq!(decode(&lut, &[0x20, 0x00]), vec![7, 7]);
    assert_eq!(decode(&lut, &[0x00]), vec![7; 8]);
}

#[test]
fn symbols_render_as_escapes_and_glyphs() {
    let colors = [(1u8, 2u8, 3u8)];
    let chars = [65u16, 0xD800];
    let mut out = String::new();
    render_symbol(&mut out, 1, &colors, &chars);
    render_symbol(&mut out, 0, &colors, &chars);
    render_symbol(&mut out, 2, &colors, &chars);
    render_symbol(&mut out, 3, &colors, &chars);
    render_symbol(&mut out, 9, &colors, &chars);
    render_symbol(&mut out, 254, &colors, &chars);
    assert_eq!(out, "\x1b[38;2;1;2;3m\x1b[48;2;1;2;3mA\x1b[0m\n");
}

#[test]
fn picture_decodes() {
    let text = egg();
    assert!(text.starts_with("\x1b["));
    assert!(text.ends_with("\x1b[0m\n"));
    assert!(text.lines().count() > 5);
}

#[test]
fn count_column_fits_the_largest_count() {
    let mut a = FreqArgs::new();
    a.regex = Some("^(?P<n>\\d+)\\t(?P<v>.+)$".to_string());
    a.reverse = true;
    a.no_pct = true;
    a.no_cdf = true;
    let rows = run(&a, &lines(&["10000000\tx", "1\ty"])).ok().unwrap();
    assert_eq!(rows, vec!["        1  y".to_string(), " 10000000  x".to_string()]);
}

#[test]
fn zero_counts_without_shares_are_written() {
    let mut a = FreqArgs::new();
    a.regex = Some("^(?P<n>\\d+) (?P<v>.+)$".to_string());
    a.no_pct = true;
    a.no_cdf = true;
    let rows = run(&a, &lines(&["0 x"])).ok().unwrap();
    assert_eq!(rows, vec!["      0  x".to_string()]);
}

#[test]
fn percentages_above_one_hundred() {
    assert_eq!(mk_fmt_pct(3, 2, 1, false), "150.0");
    assert_eq!(mk_fmt_pct(3, 2, 0, true), " 150");
}

#[test]
fn pattern_without_matches_gives_no_rows() {
    let mut a = FreqArgs::new();
    a.regex = Some("^zzz".to_string());
    let rows = run(&a, &sample()).ok().unwrap();
    assert!(rows.is_empty());
}

#[test]
fn count_only_pattern_is_refused_by_run() {
    let mut a = FreqArgs::new();
    a.regex = Some("^(?P<n>\\d+)$".to_string());
    assert!(matches!(run(&a, &sample()), Err(FreqError::Pattern(PatternError::CountWithoutValue))));
}
