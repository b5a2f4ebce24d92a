//! Numbers as text.

use vstd::prelude::*;
use vstd::string::*;

verus! {

/// The character of a decimal digit.
pub open spec fn digit(d: nat) -> char {
    if d == 0 {
        '0'
    } else if d == 1 {
        '1'
    } else if d == 2 {
        '2'
    } else if d == 3 {
        '3'
    } else if d == 4 {
        '4'
    } else if d == 5 {
        '5'
    } else if d == 6 {
        '6'
    } else if d == 7 {
        '7'
    } else if d == 8 {
        '8'
    } else {
        '9'
    }
}

/// `n` in decimal, without leading zeros.
pub open spec fn decimal(n: nat) -> Seq<char>
    decreases n,
{
    if n < 10 {
        seq![digit(n)]
    } else {
        decimal(n / 10).push(digit(n % 10))
    }
}

fn append_digit(out: &mut String, d: u64)
    requires
        d < 10,
    ensures
        final(out)@ == old(out)@.push(digit(d as nat)),
{
    proof {
        reveal_strlit("0");
        reveal_strlit("1");
        reveal_strlit("2");
        reveal_strlit("3");
        reveal_strlit("4");
        reveal_strlit("5");
        reveal_strlit("6");
        reveal_strlit("7");
        reveal_strlit("8");
        reveal_strlit("9");
    }
    let s: &str = match d {
        0 => "0",
        1 => "1",
        2 => "2",
        3 => "3",
        4 => "4",
        5 => "5",
        6 => "6",
        7 => "7",
        8 => "8",
        _ => "9",
    };
    out.append(s);
    assert(out@ =~= old(out)@.push(digit(d as nat)));
}

/// `n` in decimal.
pub fn to_decimal(n: u64) -> (r: String)
    ensures
        r@ == decimal(n as nat),
    decreases n,
{
    if n < 10 {
        let mut out: String = String::new();
        append_digit(&mut out, n);
        assert(out@ =~= decimal(n as nat));
        out
    } else {
        let mut out: String = to_decimal(n / 10);
        append_digit(&mut out, n % 10);
        out
    }
}

/// What a digit character stands for.
pub open spec fn digit_value(c: char) -> Option<nat> {
    if c == '0' {
        Some(0)
    } else if c == '1' {
        Some(1)
    } else if c == '2' {
        Some(2)
    } else if c == '3' {
        Some(3)
    } else if c == '4' {
        Some(4)
    } else if c == '5' {
        Some(5)
    } else if c == '6' {
        Some(6)
    } else if c == '7' {
        Some(7)
    } else if c == '8' {
        Some(8)
    } else if c == '9' {
        Some(9)
    } else {
        None
    }
}

/// The number that a row of digits spells; `None` where one is no digit.
pub open spec fn digits_value(s: Seq<char>) -> Option<nat>
    decreases s.len(),
{
    if s.len() == 0 {
        Some(0)
    } else {
        match (digits_value(s.drop_last()), digit_value(s.last())) {
            (Some(n), Some(d)) => Some(n * 10 + d),
            _ => None,
        }
    }
}

/// The index that a text spells: digits, at least one, after at most one plus
/// sign, and no more than a `usize` holds.
pub open spec fn index_of(s: Seq<char>) -> Option<usize> {
    let digits = if s.len() > 0 && s[0] == '+' {
        s.drop_first()
    } else {
        s
    };
    match digits_value(digits) {
        Some(n) if digits.len() > 0 && n <= usize::MAX => Some(n as usize),
        _ => None,
    }
}

fn value_of_digit(c: char) -> (r: Option<usize>)
    ensures
        match digit_value(c) {
            Some(d) => r == Some(d as usize) && d < 10,
            None => r is None,
        },
{
    match c {
        '0' => Some(0),
        '1' => Some(1),
        '2' => Some(2),
        '3' => Some(3),
        '4' => Some(4),
        '5' => Some(5),
        '6' => Some(6),
        '7' => Some(7),
        '8' => Some(8),
        '9' => Some(9),
        _ => None,
    }
}

/// A number only grows as digits follow.
proof fn lemma_digits_grow(s: Seq<char>, i: int)
    requires
        0 <= i <= s.len(),
    ensures
        digits_value(s.take(i)) is None ==> digits_value(s) is None,
        digits_value(s) is Some ==> digits_value(s.take(i)) is Some && digits_value(s.take(i))->0
            <= digits_value(s)->0,
    decreases s.len() - i,
{
    if i < s.len() {
        lemma_digits_grow(s, i + 1);
        assert(s.take(i + 1).drop_last() =~= s.take(i));
    } else {
        assert(s.take(i) =~= s);
    }
}

/// The index that the characters from `from` on spell.
pub fn parse_index(s: &Vec<char>, from: usize) -> (r: Option<usize>)
    requires
        from <= s.len(),
    ensures
        r == index_of(s@.skip(from as int)),
{
    let ghost rest = s@.skip(from as int);
    let start: usize = if from < s.len() && s[from] == '+' {
        from + 1
    } else {
        from
    };
    let ghost digits = if rest.len() > 0 && rest[0] == '+' {
        rest.drop_first()
    } else {
        rest
    };
    assert(digits =~= s@.skip(start as int));
    if start == s.len() {
        return None;
    }
    let mut n: usize = 0;
    let mut i: usize = start;
    assert(digits.take(0) =~= Seq::empty());
    while i < s.len()
        invariant
            start <= i <= s.len(),
            digits == s@.skip(start as int),
            digits == (if rest.len() > 0 && rest[0] == '+' {
                rest.drop_first()
            } else {
                rest
            }),
            rest == s@.skip(from as int),
            digits_value(digits.take(i - start)) == Some(n as nat),
        decreases s.len() - i,
    {
        let c: char = s[i];
        proof {
            assert(digits.take(i - start + 1).drop_last() =~= digits.take(i - start));
            assert(digits.take(i - start + 1).last() == c);
            lemma_digits_grow(digits, i - start + 1);
        }
        match value_of_digit(c) {
            None => {
                return None;
            },
            Some(d) => {
                if n > usize::MAX / 10 {
                    return None;
                }
                if d > usize::MAX - n * 10 {
                    return None;
                }
                n = n * 10 + d;
            },
        }
        i = i + 1;
    }
    assert(digits.take(digits.len() as int) =~= digits);
    Some(n)
}

/// Reading a number back from its decimal text gives the number.
pub proof fn law_decimal_reads_back(n: usize)
    ensures
        index_of(decimal(n as nat)) == Some(n),
{
    lemma_decimal_value(n as nat);
}

proof fn lemma_decimal_value(n: nat)
    ensures
        digits_value(decimal(n)) == Some(n),
        decimal(n).len() > 0,
        decimal(n)[0] != '+',
    decreases n,
{
    reveal_with_fuel(digits_value, 2);
    if n < 10 {
        assert(decimal(n).drop_last() =~= Seq::empty());
    } else {
        lemma_decimal_value(n / 10);
        assert(decimal(n).drop_last() =~= decimal(n / 10));
    }
}

/// Different numbers have different decimal texts.
pub proof fn law_decimals_differ(m: nat, n: nat)
    requires
        m != n,
    ensures
        decimal(m) != decimal(n),
{
    lemma_decimal_value(m);
    lemma_decimal_value(n);
}

/// The sum, or the greatest number there is.
pub open spec fn capped_sum(a: u64, b: int) -> u64 {
    if a + b <= u64::MAX {
        (a + b) as u64
    } else {
        u64::MAX
    }
}

/// The sum, or the greatest number there is.
pub fn add_capped(a: u64, b: u64) -> (r: u64)
    ensures
        r == capped_sum(a, b as int),
{
    if b <= u64::MAX - a {
        a + b
    } else {
        u64::MAX
    }
}

} // verus!
