//! Decimal rendering and padding of numbers.
use vstd::prelude::*;

verus! {

/// The character of a decimal digit.
pub open spec fn digit_char(d: int) -> char {
    if d == 0 {
        '0'
    } else if d == 1 {
        '1'
    } else if d == 2 {
        '2'
    } else if d == 3 {
        '3'
    } else if d == 4 {
        '4'
    } else if d == 5 {
        '5'
    } else if d == 6 {
        '6'
    } else if d == 7 {
        '7'
    } else if d == 8 {
        '8'
    } else {
        '9'
    }
}

/// The decimal digits of `n`, without leading zeros.
pub open spec fn decimal(n: nat) -> Seq<char>
    decreases n,
{
    if n < 10 {
        seq![digit_char(n as int)]
    } else {
        decimal(n / 10) + seq![digit_char((n % 10) as int)]
    }
}

/// `s` with `c` added on the left up to `width` characters.
pub open spec fn pad_left(s: Seq<char>, width: nat, c: char) -> Seq<char> {
    if s.len() >= width {
        s
    } else {
        Seq::new((width - s.len()) as nat, |_i: int| c) + s
    }
}

fn digit_str(d: u64) -> (r: &'static str)
    requires
        d < 10,
    ensures
        r@ == seq![digit_char(d as int)],
{
    proof {
        reveal_strlit("0");
        reveal_strlit("1");
        reveal_strlit("2");
        reveal_strlit("3");
        reveal_strlit("4");
        reveal_strlit("5");
        reveal_strlit("6");
        reveal_strlit("7");
        reveal_strlit("8");
        reveal_strlit("9");
    }
    match d {
        0 => "0",
        1 => "1",
        2 => "2",
        3 => "3",
        4 => "4",
        5 => "5",
        6 => "6",
        7 => "7",
        8 => "8",
        _ => "9",
    }
}

/// The decimal text of `n`.
pub fn decimal_string(n: u64) -> (r: String)
    ensures
        r@ == decimal(n as nat),
    decreases n,
{
    if n < 10 {
        let mut s = String::new();
        s.append(digit_str(n));
        proof {
            assert(s@ =~= decimal(n as nat));
        }
        s
    } else {
        let mut s = decimal_string(n / 10);
        s.append(digit_str(n % 10));
        s
    }
}

/// The number of decimal digits of `n`.
pub fn n_width(n: u64) -> (r: usize)
    ensures
        r == decimal(n as nat).len(),
        1 <= r <= 20,
    decreases n,
{
    if n < 10 {
        1
    } else {
        let w = n_width(n / 10);
        proof {
            lemma_width_bound(n / 10);
        }
        w + 1
    }
}

proof fn lemma_width_bound(n: u64)
    requires
        n < 10_000_000_000_000_000_000u64,
    ensures
        decimal(n as nat).len() <= 19,
{
    reveal_with_fuel(crate::fixed::pow10, 20);
    assert(crate::fixed::pow10(19) == 10_000_000_000_000_000_000nat);
    lemma_decimal_len(n as nat, 19);
}

/// Numbers below `10^k` have at most `k` digits.
proof fn lemma_decimal_len(n: nat, k: nat)
    requires
        k >= 1,
    ensures
        n < crate::fixed::pow10(k) ==> decimal(n).len() <= k,
    decreases k,
{
    reveal_with_fuel(crate::fixed::pow10, 2);
    if k > 1 && n >= 10 {
        lemma_decimal_len(n / 10, (k - 1) as nat);
    }
}

/// `s` with `c` added on the left up to `width` characters.
pub fn pad_string(s: String, width: usize, c: &str) -> (r: String)
    requires
        c@.len() == 1,
    ensures
        r@ == pad_left(s@, width as nat, c@[0]),
{
    if s.unicode_len() >= width {
        return s;
    }
    let fill = width - s.unicode_len();
    let mut out = String::new();
    let mut i: usize = 0;
    while i < fill
        invariant
            i <= fill,
            c@.len() == 1,
            out@ =~= Seq::new(i as nat, |_i: int| c@[0]),
        decreases fill - i,
    {
        out.append(c);
        i = i + 1;
    }
    out.append(s.as_str());
    out
}

} // verus!
