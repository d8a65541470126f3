//! Small pieces of text: whole numbers in decimal, and a prefix taken off.

use vstd::prelude::*;

verus! {

/// The character that stands for the digit `d`.
pub open spec fn digit_char(d: int) -> char {
    if d == 0 {
        '0'
    } else if d == 1 {
        '1'
    } else if d == 2 {
        '2'
    } else if d == 3 {
        '3'
    } else if d == 4 {
        '4'
    } else if d == 5 {
        '5'
    } else if d == 6 {
        '6'
    } else if d == 7 {
        '7'
    } else if d == 8 {
        '8'
    } else {
        '9'
    }
}

/// The decimal digits of `n`, most significant first, without leading zeros.
pub open spec fn natural_text(n: nat) -> Seq<char>
    decreases n,
{
    if n < 10 {
        seq![digit_char(n as int)]
    } else {
        natural_text(n / 10).push(digit_char((n % 10) as int))
    }
}

/// `n` in decimal, with a minus sign in front if it is negative.
pub open spec fn decimal_text(n: int) -> Seq<char> {
    if n < 0 {
        seq!['-'] + natural_text((-n) as nat)
    } else {
        natural_text(n as nat)
    }
}

/// `s` without `prefix` in front: if `s` starts with `prefix`, that one
/// copy is taken off, and nothing more; otherwise `s` is left as it is.
pub open spec fn without_one_leading(s: Seq<char>, prefix: Seq<char>) -> Seq<char> {
    if prefix.is_prefix_of(s) {
        s.skip(prefix.len() as int)
    } else {
        s
    }
}

fn digit_str(d: u64) -> (text: &'static str)
    requires
        d < 10,
    ensures
        text@ == seq![digit_char(d as int)],
{
    proof {
        reveal_strlit("0");
        reveal_strlit("1");
        reveal_strlit("2");
        reveal_strlit("3");
        reveal_strlit("4");
        reveal_strlit("5");
        reveal_strlit("6");
        reveal_strlit("7");
        reveal_strlit("8");
        reveal_strlit("9");
    }
    if d == 0 {
        "0"
    } else if d == 1 {
        "1"
    } else if d == 2 {
        "2"
    } else if d == 3 {
        "3"
    } else if d == 4 {
        "4"
    } else if d == 5 {
        "5"
    } else if d == 6 {
        "6"
    } else if d == 7 {
        "7"
    } else if d == 8 {
        "8"
    } else {
        "9"
    }
}

/// Writes `n` in decimal.
pub fn natural_string(n: u64) -> (text: String)
    ensures
        text@ == natural_text(n as nat),
    decreases n,
{
    if n < 10 {
        String::from_str(digit_str(n))
    } else {
        let mut text = natural_string(n / 10);
        text.append(digit_str(n % 10));
        text
    }
}

/// Writes `n` in decimal, with a minus sign in front if it is negative.
pub fn decimal_string(n: i64) -> (text: String)
    ensures
        text@ == decimal_text(n as int),
{
    if n < 0 {
        let magnitude: u64 = (-(n + 1)) as u64 + 1;
        let digits = natural_string(magnitude);
        proof {
            reveal_strlit("-");
        }
        let mut text = String::from_str("-");
        text.append(digits.as_str());
        text
    } else {
        natural_string(n as u64)
    }
}

/// Whether `s` starts with `prefix`.
fn begins_with(s: &str, prefix: &str) -> (found: bool)
    ensures
        found == prefix@.is_prefix_of(s@),
{
    let n: usize = s.unicode_len();
    let p: usize = prefix.unicode_len();
    if p > n {
        return false;
    }
    let mut i: usize = 0;
    while i < p
        invariant
            i <= p <= n,
            p == prefix@.len(),
            n == s@.len(),
            forall|j: int| 0 <= j < i ==> prefix@[j] == s@[j],
        decreases p - i,
    {
        if prefix.get_char(i) != s.get_char(i) {
            return false;
        }
        i += 1;
    }
    true
}

/// The part of `s` that follows `prefix`, if `s` starts with it; `s`
/// itself if it does not. One copy of `prefix` is removed at most.
pub fn strip_leading<'a>(s: &'a str, prefix: &str) -> (rest: &'a str)
    ensures
        rest@ == without_one_leading(s@, prefix@),
{
    if begins_with(s, prefix) {
        s.substring_char(prefix.unicode_len(), s.unicode_len())
    } else {
        s
    }
}

} // verus!
