//! The line that tells where a match is: path, line and column.

use vstd::prelude::*;
use vstd::string::StringExecFns;
use crate::tags::TagMatch;

verus! {

/// The ten digits, each at the place of its value.
pub const DIGITS: &'static str = "0123456789";

/// A number in decimal, without leading zeros.
pub open spec fn decimal_text(n: nat) -> Seq<char>
    decreases n,
{
    if n < 10 {
        seq![DIGITS@[n as int]]
    } else {
        decimal_text(n / 10).push(DIGITS@[(n % 10) as int])
    }
}

/// Where a match is, as one line of text: the path, the line and the column,
/// with a colon between them.
pub open spec fn location_text(path: Seq<char>, m: TagMatch) -> Seq<char> {
    path + seq![':'] + decimal_text(m.line as nat) + seq![':'] + decimal_text(m.column as nat)
}

/// The text of one digit.
fn digit_text(d: usize) -> (text: &'static str)
    requires
        d < 10,
    ensures
        text@ == seq![DIGITS@[d as int]],
{
    proof {
        reveal_strlit("0123456789");
        reveal_strlit("0");
        reveal_strlit("1");
        reveal_strlit("2");
        reveal_strlit("3");
        reveal_strlit("4");
        reveal_strlit("5");
        reveal_strlit("6");
        reveal_strlit("7");
        reveal_strlit("8");
        reveal_strlit("9");
    }
    let text = if d == 0 {
        "0"
    } else if d == 1 {
        "1"
    } else if d == 2 {
        "2"
    } else if d == 3 {
        "3"
    } else if d == 4 {
        "4"
    } else if d == 5 {
        "5"
    } else if d == 6 {
        "6"
    } else if d == 7 {
        "7"
    } else if d == 8 {
        "8"
    } else {
        "9"
    };
    assert(text@ =~= seq![DIGITS@[d as int]]);
    text
}

/// Writes a number in decimal.
pub fn decimal(n: usize) -> (text: String)
    ensures
        text@ == decimal_text(n as nat),
{
    let mut text = String::from_str(digit_text(n % 10));
    let mut rest: usize = n / 10;
    while rest > 0
        invariant
            rest > 0 ==> decimal_text(n as nat) == decimal_text(rest as nat) + text@,
            rest == 0 ==> decimal_text(n as nat) == text@,
        decreases rest,
    {
        let ghost behind = text@;
        let ghost d = seq![DIGITS@[(rest % 10) as int]];
        text = String::from_str(digit_text(rest % 10)).concat(text.as_str());
        proof {
            assert(text@ == d + behind);
            if rest < 10 {
                assert(decimal_text(rest as nat) == d);
            } else {
                assert(decimal_text(rest as nat) == decimal_text((rest / 10) as nat).push(DIGITS@[(rest % 10) as int]));
                assert(decimal_text((rest / 10) as nat).push(DIGITS@[(rest % 10) as int]) + behind =~= decimal_text(
                    (rest / 10) as nat,
                ) + (d + behind));
            }
        }
        rest = rest / 10;
    }
    text
}

/// The line that tells where a match is: `path:line:column`, line and column
/// counted from one as the match holds them.
pub fn location_line(path: &str, m: &TagMatch) -> (line: String)
    ensures
        line@ == location_text(path@, *m),
{
    let mut line = String::from_str(path);
    line.append(":");
    line.append(decimal(m.line).as_str());
    line.append(":");
    line.append(decimal(m.column).as_str());
    proof {
        reveal_strlit(":");
        assert(":"@ =~= seq![':']);
    }
    line
}

} // verus!
