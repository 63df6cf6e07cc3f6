//! Turning a line into a payload and an increment: verbatim, filtered by a pattern, or
//! projected onto the pattern's capture groups.
use crate::ordered::utf8_of;
use crate::rank::{rank, rank_order, views, Entry, EntryView, SortPolicy, TieBreak};
use regex::Regex;
use vstd::prelude::*;
use vstd::relations::sorted_by;

verus! {

#[verifier::external_type_specification]
#[verifier::external_body]
pub struct ExRegex(Regex);

/// Whether a pattern compiles.
pub uninterp spec fn pattern_compiles(p: Seq<char>) -> bool;

/// The names of a compiled pattern's capture groups, by index (the first for the whole
/// match).
pub uninterp spec fn pattern_groups(p: Seq<char>) -> Seq<Option<Seq<char>>>;

/// What a compiled pattern captures on a line: the text of each group by index, or none
/// when the pattern does not match.
pub uninterp spec fn pattern_captures(p: Seq<char>, line: Seq<char>) -> Option<
    Seq<Option<Seq<char>>>,
>;

/// A compiled pattern beside the text it was compiled from. Only `compile` makes one, so
/// the two always belong together.
pub struct Pattern {
    re: Regex,
    text: String,
}

impl Pattern {
    /// The text the pattern was compiled from.
    pub closed spec fn source(&self) -> Seq<char> {
        self.text@
    }
}

/// Relies on `regex::Regex::new`: compiles a pattern, keeping its text; an invalid one gives
/// the error's text.
#[verifier::external_body]
fn compile(pattern: &str) -> (r: Result<Pattern, String>)
    ensures
        r is Ok <==> pattern_compiles(pattern@),
        r matches Ok(p) ==> p.text@ == pattern@,
{
    Regex::new(pattern).map(|re| Pattern { re, text: pattern.to_string() }).map_err(|e| e.to_string())
}

/// Relies on `regex::Regex::capture_names`: one entry per capture group, by index; the
/// first stands for the whole match and has no name.
#[verifier::external_body]
fn capture_names(p: &Pattern) -> (r: Vec<Option<String>>)
    ensures
        r@.len() >= 1,
        r@[0] is None,
        text_views(r@) == pattern_groups(p.text@),
{
    p.re.capture_names().map(|n| n.map(|s| s.to_string())).collect()
}

/// Relies on `regex::Regex::captures`: on a match, the text of each capture group by index
/// (none for a group that did not take part); no match gives none.
#[verifier::external_body]
fn captures(p: &Pattern, line: &str) -> (r: Option<Vec<Option<String>>>)
    ensures
        caps_view(r) == pattern_captures(p.text@, line@),
{
    p.re.captures(line).map(|c| c.iter().map(|m| m.map(|m| m.as_str().to_string())).collect())
}

/// Why a line could not be counted.
#[derive(Clone, Copy, PartialEq, Eq, Structural, Debug)]
pub enum ExtractError {
    /// The count group did not take part in the match.
    MissingCount,
    /// The count group's text is not a non-negative integer that fits in 64 bits.
    BadCount,
}

/// The value of a sequence of ASCII digits.
pub open spec fn digits_value(b: Seq<u8>) -> int
    decreases b.len(),
{
    if b.len() == 0 {
        0
    } else {
        digits_value(b.drop_last()) * 10 + (b.last() - 48)
    }
}

pub open spec fn all_digits(b: Seq<u8>) -> bool {
    forall|i: int| 0 <= i < b.len() ==> 48 <= #[trigger] b[i] <= 57
}

/// The digits of a count, after an optional leading `+`.
pub open spec fn count_digits(b: Seq<u8>) -> Seq<u8> {
    if b.len() > 0 && b[0] == 43 {
        b.drop_first()
    } else {
        b
    }
}

/// The integer a count's text spells: one or more ASCII digits after an optional `+`, with a
/// value that fits in 64 bits.
pub open spec fn count_value(b: Seq<u8>) -> Option<int> {
    let d = count_digits(b);
    if d.len() > 0 && all_digits(d) && digits_value(d) <= u64::MAX {
        Some(digits_value(d))
    } else {
        None
    }
}

proof fn lemma_digits_prefix(b: Seq<u8>, k: int)
    requires
        0 <= k <= b.len(),
        all_digits(b),
    ensures
        0 <= digits_value(b.take(k)) <= digits_value(b),
    decreases b.len() - k,
{
    if k < b.len() {
        lemma_digits_prefix(b, k + 1);
        assert(b.take(k + 1).drop_last() =~= b.take(k));
    } else {
        assert(b.take(k) =~= b);
        lemma_digits_nonneg(b);
    }
}

proof fn lemma_digits_nonneg(b: Seq<u8>)
    requires
        all_digits(b),
    ensures
        digits_value(b) >= 0,
    decreases b.len(),
{
    if b.len() > 0 {
        lemma_digits_nonneg(b.drop_last());
    }
}

/// Reads a count: an unsigned decimal integer, as `str::parse::<u64>` accepts it.
pub fn parse_count(s: &str) -> (r: Option<u64>)
    ensures
        r matches Some(v) ==> count_value(utf8_of(s@)) == Some(v as int),
        r is None ==> count_value(utf8_of(s@)) is None,
{
    let b = s.as_bytes();
    let ghost d = count_digits(b@);
    assert(b@ == utf8_of(s@));
    let start: usize = if b.len() > 0 && b[0] == 43 {
        1
    } else {
        0
    };
    proof {
        assert(d =~= b@.subrange(start as int, b@.len() as int));
    }
    if start >= b.len() {
        return None;
    }
    let mut v: u64 = 0;
    let mut i: usize = start;
    while i < b.len()
        invariant
            start <= i <= b@.len(),
            d == count_digits(b@),
            b@ == utf8_of(s@),
            d =~= b@.subrange(start as int, b@.len() as int),
            all_digits(d.take(i - start)),
            v == digits_value(d.take(i - start)),
        decreases b@.len() - i,
    {
        let c = b[i];
        let ghost k = i - start;
        proof {
            assert(d[k] == c);
        }
        if c < 48 || c > 57 {
            proof {
                assert(!(48 <= d[k] <= 57));
                assert(!all_digits(d));
                assert(count_value(b@) is None);
            }
            return None;
        }
        proof {
            assert(d.take(k + 1).drop_last() =~= d.take(k));
            assert(all_digits(d.take(k + 1)));
        }
        let digit = (c - 48) as u64;
        if v > (u64::MAX - digit) / 10 {
            proof {
                assert(v * 10 + digit > u64::MAX) by (nonlinear_arith)
                    requires
                        v > (u64::MAX - digit) / 10,
                        digit <= 9,
                ;
                assert(d.take(k + 1).last() == c);
                assert(digits_value(d.take(k + 1)) == v * 10 + digit);
                if all_digits(d) {
                    lemma_digits_prefix(d, k + 1);
                }
                assert(count_value(b@) is None);
            }
            return None;
        }
        proof {
            assert(v * 10 + digit <= u64::MAX) by (nonlinear_arith)
                requires
                    v <= (u64::MAX - digit) / 10,
                    digit <= 9,
            ;
        }
        v = v * 10 + digit;
        proof {
            assert(d.take(k + 1).last() == c);
        }
        i = i + 1;
    }
    proof {
        assert(d.take(i - start) =~= d);
    }
    Some(v)
}

/// The text of capture group `g`, empty when the group is absent or did not take part.
pub open spec fn field(caps: Seq<Option<Seq<char>>>, g: int) -> Seq<char> {
    if 0 <= g < caps.len() && caps[g] is Some {
        caps[g]->0
    } else {
        Seq::empty()
    }
}

/// The fields of the groups in `plan`, joined by tabs.
pub open spec fn joined(caps: Seq<Option<Seq<char>>>, plan: Seq<usize>) -> Seq<char>
    decreases plan.len(),
{
    if plan.len() == 0 {
        Seq::empty()
    } else if plan.len() == 1 {
        field(caps, plan[0] as int)
    } else {
        joined(caps, plan.drop_last()) + seq!['\t'] + field(caps, plan.last() as int)
    }
}

pub open spec fn text_views(caps: Seq<Option<String>>) -> Seq<Option<Seq<char>>> {
    caps.map_values(|c: Option<String>| if c is Some { Some(c->0@) } else { None })
}

pub open spec fn caps_view(caps: Option<Vec<Option<String>>>) -> Option<Seq<Option<Seq<char>>>> {
    if caps is Some {
        Some(text_views(caps->0@))
    } else {
        None
    }
}

/// Joins the texts of the planned groups with tabs.
pub fn join_groups(caps: &Vec<Option<String>>, plan: &Vec<usize>) -> (r: String)
    ensures
        r@ == joined(text_views(caps@), plan@),
{
    let ghost c = text_views(caps@);
    let mut s = String::new();
    let mut k: usize = 0;
    while k < plan.len()
        invariant
            k <= plan@.len(),
            c == text_views(caps@),
            s@ == joined(c, plan@.take(k as int)),
        decreases plan@.len() - k,
    {
        proof {
            reveal_strlit("\t");
            assert(plan@.take(k + 1).drop_last() =~= plan@.take(k as int));
        }
        if k > 0 {
            s.append("\t");
        }
        let g = plan[k];
        if g < caps.len() {
            match &caps[g] {
                Some(t) => s.append(t.as_str()),
                None => {},
            }
        }
        proof {
            if k == 0 {
                assert(s@ =~= joined(c, plan@.take(1)));
            } else {
                assert(s@ =~= joined(c, plan@.take(k + 1)));
            }
        }
        k = k + 1;
    }
    proof {
        assert(plan@.take(k as int) =~= plan@);
    }
    s
}


/// The name of the group that holds a count.
pub open spec fn count_name() -> Seq<char> {
    seq!['n']
}

/// The named groups below index `k`, other than the count group, as (index, name, 0).
pub open spec fn named_groups(names: Seq<Option<Seq<char>>>, k: int) -> Seq<EntryView>
    decreases k,
{
    if k <= 1 || k > names.len() {
        Seq::empty()
    } else {
        let rest = named_groups(names, k - 1);
        let g = names[k - 1];
        if g is Some && g->0 != count_name() {
            rest.push((k - 1, g->0, 0))
        } else {
            rest
        }
    }
}

/// The unnamed groups below index `k`, leaving out the whole match, in index order.
pub open spec fn unnamed_groups(names: Seq<Option<Seq<char>>>, k: int) -> Seq<usize>
    decreases k,
{
    if k <= 1 || k > names.len() {
        Seq::empty()
    } else {
        let rest = unnamed_groups(names, k - 1);
        if names[k - 1] is None {
            rest.push((k - 1) as usize)
        } else {
            rest
        }
    }
}

/// Whether a group is named for the count.
pub open spec fn has_count_group(names: Seq<Option<Seq<char>>>) -> bool {
    exists|i: int| 1 <= i < names.len() && names[i] == Some(count_name())
}

/// The groups whose texts form the payload, in order: the named groups sorted by name,
/// then the unnamed groups by index.
pub open spec fn is_group_plan(names: Seq<Option<Seq<char>>>, plan: Seq<usize>) -> bool {
    let named = named_groups(names, names.len() as int);
    let un = unnamed_groups(names, names.len() as int);
    let k = named.len() as int;
    &&& plan.len() == k + un.len()
    &&& plan.subrange(k, plan.len() as int) == un
    &&& exists|s: Seq<EntryView>|
        #![trigger sorted_by(s, rank_order(SortPolicy::TieOnly(TieBreak::Lexicographic)))]
        s.to_multiset() == named.to_multiset() && sorted_by(
            s,
            rank_order(SortPolicy::TieOnly(TieBreak::Lexicographic)),
        ) && forall|i: int| 0 <= i < k ==> plan[i] == s[i].0
}

pub open spec fn name_views(names: Seq<Option<String>>) -> Seq<Option<Seq<char>>> {
    text_views(names)
}

/// How lines are turned into payloads and increments.
pub enum Policy {
    /// The whole line, once.
    Verbatim,
    /// The whole line, once, when the pattern matches.
    Filter,
    /// The planned groups joined by tabs, once, when the pattern matches.
    Project(Vec<usize>),
    /// The planned groups joined by tabs, as many times as the count group says.
    Counted(Vec<usize>, usize),
}

/// Why a pattern cannot be used.
pub enum PatternError {
    /// The pattern does not compile; the text says why.
    Invalid(String),
    /// The pattern captures a count but no value to count.
    CountWithoutValue,
}

/// Plans the payload from the capture groups' names.
fn group_plan(names: &Vec<Option<String>>) -> (r: (Vec<usize>, Option<usize>))
    requires
        names@.len() >= 1,
    ensures
        is_group_plan(name_views(names@), r.0@),
        r.1 is Some <==> has_count_group(name_views(names@)),
        r.1 matches Some(g) ==> 1 <= g < names@.len() && name_views(names@)[g as int] == Some(
            count_name(),
        ),
{
    let ghost nv = name_views(names@);
    let mut named: Vec<Entry> = Vec::new();
    let mut unnamed: Vec<usize> = Vec::new();
    let mut count_group: Option<usize> = None;
    let mut i: usize = 1;
    proof {
        reveal_strlit("n");
        assert(nv.len() == names@.len());
    }
    while i < names.len()
        invariant
            1 <= i <= names@.len(),
            nv == name_views(names@),
            nv.len() == names@.len(),
            "n"@ == count_name(),
            views(named@) == named_groups(nv, i as int),
            unnamed@ == unnamed_groups(nv, i as int),
            count_group is Some <==> exists|j: int| 1 <= j < i && nv[j] == Some(count_name()),
            count_group matches Some(g) ==> 1 <= g < i && nv[g as int] == Some(count_name()),
        decreases names@.len() - i,
    {
        let ghost before = views(named@);
        match &names[i] {
            Some(name) => {
                let o = crate::ordered::lex_compare(name.as_str(), "n");
                proof {
                    crate::ordered::lemma_lex_payload(name@, "n"@);
                }
                if let std::cmp::Ordering::Equal = o {
                    count_group = Some(i);
                } else {
                    named.push(Entry::new(i, name.clone(), 0));
                    proof {
                        assert(views(named@) =~= before.push((i as int, name@, 0)));
                    }
                }
            },
            None => {
                unnamed.push(i);
            },
        }
        i = i + 1;
    }
    let sorted = rank(named, SortPolicy::TieOnly(TieBreak::Lexicographic));
    let mut plan: Vec<usize> = Vec::new();
    let mut k: usize = 0;
    while k < sorted.len()
        invariant
            k <= sorted@.len(),
            plan@.len() == k,
            forall|j: int| 0 <= j < k ==> plan@[j] == views(sorted@)[j].0,
        decreases sorted@.len() - k,
    {
        plan.push(sorted[k].key.0);
        k = k + 1;
    }
    let mut u: usize = 0;
    while u < unnamed.len()
        invariant
            u <= unnamed@.len(),
            plan@.len() == sorted@.len() + u,
            forall|j: int| 0 <= j < sorted@.len() ==> plan@[j] == views(sorted@)[j].0,
            plan@.subrange(sorted@.len() as int, plan@.len() as int) == unnamed@.take(u as int),
        decreases unnamed@.len() - u,
    {
        let ghost before = plan@;
        plan.push(unnamed[u]);
        proof {
            assert(plan@.subrange(sorted@.len() as int, plan@.len() as int) =~= before.subrange(
                sorted@.len() as int,
                before.len() as int,
            ).push(unnamed@[u as int]));
            assert(unnamed@.take(u + 1) =~= unnamed@.take(u as int).push(unnamed@[u as int]));
        }
        u = u + 1;
    }
    proof {
        assert(unnamed@.take(u as int) =~= unnamed@);
        let s = views(sorted@);
        assert(views(sorted@).len() == sorted@.len());
        assert(s.to_multiset() =~= named_groups(nv, nv.len() as int).to_multiset());
        assert(s.len() == named_groups(nv, nv.len() as int).len()) by {
            vstd::seq_lib::to_multiset_len(s);
            vstd::seq_lib::to_multiset_len(named_groups(nv, nv.len() as int));
        }
        assert(sorted_by(s, rank_order(SortPolicy::TieOnly(TieBreak::Lexicographic))));
    }
    (plan, count_group)
}


/// The policy a pattern with these capture-group names calls for: a filter without groups,
/// a projection with groups, a counted projection when one group is named `n`; a count
/// group with no other group is refused.
pub open spec fn policy_fits(names: Seq<Option<Seq<char>>>, p: Policy) -> bool {
    let named = named_groups(names, names.len() as int);
    let un = unnamed_groups(names, names.len() as int);
    let empty = named.len() + un.len() == 0;
    if has_count_group(names) {
        p matches Policy::Counted(plan, g) && !empty && is_group_plan(names, plan@) && 1 <= g
            < names.len() && names[g as int] == Some(count_name())
    } else if empty {
        p is Filter
    } else {
        p matches Policy::Project(plan) && is_group_plan(names, plan@)
    }
}

/// Chooses the policy for a pattern from its capture groups' names (the first for the
/// whole match).
pub fn policy_for(names: &Vec<Option<String>>) -> (r: Result<Policy, PatternError>)
    requires
        names@.len() >= 1,
    ensures
        r matches Ok(p) ==> policy_fits(name_views(names@), p),
        r is Err <==> has_count_group(name_views(names@)) && named_groups(
            name_views(names@),
            names@.len() as int,
        ).len() + unnamed_groups(name_views(names@), names@.len() as int).len() == 0,
        r matches Err(e) ==> e is CountWithoutValue,
{
    let (plan, count_group) = group_plan(names);
    match count_group {
        Some(g) => {
            if plan.len() == 0 {
                Err(PatternError::CountWithoutValue)
            } else {
                Ok(Policy::Counted(plan, g))
            }
        },
        None => {
            if plan.len() == 0 {
                Ok(Policy::Filter)
            } else {
                Ok(Policy::Project(plan))
            }
        },
    }
}

/// What a line gives under a policy, from what the pattern captured (`None`: no match).
pub open spec fn captured(
    p: Policy,
    index: int,
    line: Seq<char>,
    caps: Option<Seq<Option<Seq<char>>>>,
) -> Result<Option<EntryView>, ExtractError> {
    match p {
        Policy::Verbatim => Ok(Some((index, line, 1))),
        Policy::Filter => if caps is Some {
            Ok(Some((index, line, 1)))
        } else {
            Ok(None)
        },
        Policy::Project(plan) => if caps is Some {
            Ok(Some((index, joined(caps->0, plan@), 1)))
        } else {
            Ok(None)
        },
        Policy::Counted(plan, g) => if caps is Some {
            let c = caps->0;
            if (g as int) < c.len() && c[g as int] is Some {
                match count_value(utf8_of(c[g as int]->0)) {
                    Some(v) => Ok(Some((index, joined(c, plan@), v))),
                    None => Err(ExtractError::BadCount),
                }
            } else {
                Err(ExtractError::MissingCount)
            }
        } else {
            Ok(None)
        },
    }
}

pub open spec fn outcome_view(r: Result<Option<Entry>, ExtractError>) -> Result<
    Option<EntryView>,
    ExtractError,
> {
    match r {
        Ok(Some(e)) => Ok(Some(e@)),
        Ok(None) => Ok(None),
        Err(e) => Err(e),
    }
}

/// Applies a policy to a line, given what the pattern captured on it.
pub fn extract_captured(
    p: &Policy,
    index: usize,
    line: &str,
    caps: Option<Vec<Option<String>>>,
) -> (r: Result<Option<Entry>, ExtractError>)
    ensures
        outcome_view(r) == captured(*p, index as int, line@, caps_view(caps)),
{
    match p {
        Policy::Verbatim => Ok(Some(Entry::new(index, line.to_owned(), 1))),
        Policy::Filter => match caps {
            Some(_) => Ok(Some(Entry::new(index, line.to_owned(), 1))),
            None => Ok(None),
        },
        Policy::Project(plan) => match caps {
            Some(c) => Ok(Some(Entry::new(index, join_groups(&c, plan), 1))),
            None => Ok(None),
        },
        Policy::Counted(plan, g) => match caps {
            Some(c) => {
                let g = *g;
                if g < c.len() {
                    match &c[g] {
                        Some(t) => match parse_count(t.as_str()) {
                            Some(v) => Ok(Some(Entry::new(index, join_groups(&c, plan), v))),
                            None => Err(ExtractError::BadCount),
                        },
                        None => Err(ExtractError::MissingCount),
                    }
                } else {
                    Err(ExtractError::MissingCount)
                }
            },
            None => Ok(None),
        },
    }
}

/// The captures a line gets: those of the pattern, if there is one.
pub open spec fn caps_for(source: Option<Seq<char>>, line: Seq<char>) -> Option<
    Seq<Option<Seq<char>>>,
> {
    match source {
        Some(p) => pattern_captures(p, line),
        None => None,
    }
}

/// What line `index` gives under a policy and an optional pattern.
pub open spec fn line_outcome(
    p: Policy,
    source: Option<Seq<char>>,
    index: int,
    line: Seq<char>,
) -> Result<Option<EntryView>, ExtractError> {
    captured(p, index, line, caps_for(source, line))
}

/// Whether a pattern's only capture group is the count group.
pub open spec fn count_only(names: Seq<Option<Seq<char>>>) -> bool {
    has_count_group(names) && named_groups(names, names.len() as int).len() + unnamed_groups(
        names,
        names.len() as int,
    ).len() == 0
}

/// Turns lines into payloads and increments, with a compiled pattern where the policy
/// needs one.
pub struct Extractor {
    pattern: Option<Pattern>,
    policy: Policy,
}

impl Extractor {
    pub closed spec fn wf(&self) -> bool {
        (self.policy is Verbatim) == (self.pattern is None)
    }

    pub closed spec fn spec_policy(&self) -> Policy {
        self.policy
    }

    /// The text of the pattern in use, if any.
    pub closed spec fn spec_source(&self) -> Option<Seq<char>> {
        match self.pattern {
            Some(p) => Some(p.text@),
            None => None,
        }
    }

    /// Takes each line whole.
    pub fn verbatim() -> (r: Extractor)
        ensures
            r.wf(),
            r.spec_policy() is Verbatim,
            r.spec_source() is None,
    {
        Extractor { pattern: None, policy: Policy::Verbatim }
    }

    /// Compiles `pattern` and picks the policy that its capture groups call for.
    pub fn with_pattern(pattern: &str) -> (r: Result<Extractor, PatternError>)
        ensures
            (r is Err && r->Err_0 is Invalid) <==> !pattern_compiles(pattern@),
            (r is Err && r->Err_0 is CountWithoutValue) <==> pattern_compiles(pattern@)
                && count_only(pattern_groups(pattern@)),
            r matches Ok(e) ==> e.wf() && e.spec_source() == Some(pattern@) && policy_fits(
                pattern_groups(pattern@),
                e.spec_policy(),
            ),
    {
        match compile(pattern) {
            Ok(p) => {
                let names = capture_names(&p);
                match policy_for(&names) {
                    Ok(policy) => {
                        proof {
                            assert(!(policy is Verbatim));
                        }
                        Ok(Extractor { pattern: Some(p), policy })
                    },
                    Err(e) => Err(e),
                }
            },
            Err(text) => Err(PatternError::Invalid(text)),
        }
    }

    /// The policy in use.
    pub fn policy(&self) -> (r: &Policy)
        ensures
            *r == self.spec_policy(),
    {
        &self.policy
    }

    /// What line `index` gives: `Ok(None)` drops it, `Ok(Some(e))` counts `e.count`
    /// occurrences of its payload first seen at `index`.
    pub fn extract(&self, index: usize, line: &str) -> (r: Result<Option<Entry>, ExtractError>)
        requires
            self.wf(),
        ensures
            outcome_view(r) == line_outcome(
                self.spec_policy(),
                self.spec_source(),
                index as int,
                line@,
            ),
    {
        match &self.pattern {
            None => extract_captured(&self.policy, index, line, None),
            Some(p) => {
                let caps = captures(p, line);
                extract_captured(&self.policy, index, line, caps)
            },
        }
    }
}

} // verus!
