//! Names for the locals that the lowering creates.

use vstd::prelude::*;
use vstd::string::*;

verus! {

/// The character of a decimal digit.
pub open spec fn digit(d: nat) -> char {
    if d == 0 {
        '0'
    } else if d == 1 {
        '1'
    } else if d == 2 {
        '2'
    } else if d == 3 {
        '3'
    } else if d == 4 {
        '4'
    } else if d == 5 {
        '5'
    } else if d == 6 {
        '6'
    } else if d == 7 {
        '7'
    } else if d == 8 {
        '8'
    } else {
        '9'
    }
}

/// The decimal numeral of `n`, without leading zeros.
pub open spec fn decimal(n: nat) -> Seq<char>
    decreases n,
{
    if n < 10 {
        seq![digit(n)]
    } else {
        decimal(n / 10).push(digit(n % 10))
    }
}

/// The name of a generated local: a prefix followed by the decimal numeral of the
/// local's position.
pub open spec fn numbered(prefix: Seq<char>, index: nat) -> Seq<char> {
    prefix + decimal(index)
}

fn digit_str(d: usize) -> (text: &'static str)
    requires
        d < 10,
    ensures
        text@ == seq![digit(d as nat)],
{
    proof {
        reveal_strlit("0");
        reveal_strlit("1");
        reveal_strlit("2");
        reveal_strlit("3");
        reveal_strlit("4");
        reveal_strlit("5");
        reveal_strlit("6");
        reveal_strlit("7");
        reveal_strlit("8");
        reveal_strlit("9");
    }
    let text = if d == 0 {
        "0"
    } else if d == 1 {
        "1"
    } else if d == 2 {
        "2"
    } else if d == 3 {
        "3"
    } else if d == 4 {
        "4"
    } else if d == 5 {
        "5"
    } else if d == 6 {
        "6"
    } else if d == 7 {
        "7"
    } else if d == 8 {
        "8"
    } else {
        "9"
    };
    assert(text@ =~= seq![digit(d as nat)]);
    text
}

/// Appends the decimal numeral of `n` to `text`.
pub fn push_decimal(text: &mut String, n: usize)
    ensures
        final(text)@ == old(text)@ + decimal(n as nat),
    decreases n,
{
    if n < 10 {
        text.append(digit_str(n));
    } else {
        push_decimal(text, n / 10);
        text.append(digit_str(n % 10));
        assert(text@ =~= old(text)@ + decimal(n as nat));
    }
}

/// The name of a generated local: `prefix` followed by the decimal numeral of `index`.
pub fn numbered_name(prefix: &str, index: usize) -> (name: String)
    ensures
        name@ == numbered(prefix@, index as nat),
{
    let mut name = String::from_str(prefix);
    push_decimal(&mut name, index);
    name
}

/// The name of one half of a split local: the local's own name, or the decimal numeral of
/// its position where it has none or an empty one, followed by `suffix`.
pub open spec fn half_named(name: Option<Seq<char>>, index: nat, suffix: Seq<char>) -> Seq<char> {
    match name {
        Some(n) => if n.len() == 0 {
            decimal(index) + suffix
        } else {
            n + suffix
        },
        None => decimal(index) + suffix,
    }
}

/// The name of one half of a split local.
pub fn half_name(name: Option<&String>, index: usize, suffix: &str) -> (half: String)
    ensures
        half@ == half_named(
            match name {
                Some(n) => Some(n@),
                None => None,
            },
            index as nat,
            suffix@,
        ),
{
    let mut base = match name {
        Some(n) => String::from_str(n.as_str()),
        None => String::new(),
    };
    if base.as_str().is_empty() {
        push_decimal(&mut base, index);
        assert(base@ =~= decimal(index as nat));
    }
    base.append(suffix);
    base
}

} // verus!
