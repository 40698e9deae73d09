//! What the player shows: the position in a song as minutes and seconds, and
//! whether a text is too wide for its place.

use vstd::prelude::*;
use vstd::string::*;

verus! {

/// The ten digits.
pub open spec fn digits() -> Seq<char> {
    seq!['0', '1', '2', '3', '4', '5', '6', '7', '8', '9']
}

/// The digits of a number, without leading zeros; one digit for zero.
pub open spec fn decimal(n: nat) -> Seq<char>
    decreases n,
{
    if n < 10 {
        seq![digits()[n as int]]
    } else {
        decimal(n / 10).push(digits()[(n % 10) as int])
    }
}

/// A time as it is shown: the whole minutes, a colon, and the seconds that are
/// left as two digits.
pub open spec fn min_sec(millis: nat) -> Seq<char> {
    let seconds = millis / 1000;
    decimal(seconds / 60) + seq![':', digits()[((seconds % 60) / 10) as int], digits()[((seconds % 60)
        % 10) as int]]
}

fn digit(d: u32) -> (r: &'static str)
    requires
        d < 10,
    ensures
        r@ == seq![digits()[d as int]],
{
    proof {
        reveal_strlit("0");
        reveal_strlit("1");
        reveal_strlit("2");
        reveal_strlit("3");
        reveal_strlit("4");
        reveal_strlit("5");
        reveal_strlit("6");
        reveal_strlit("7");
        reveal_strlit("8");
        reveal_strlit("9");
    }
    let r = if d == 0 {
        "0"
    } else if d == 1 {
        "1"
    } else if d == 2 {
        "2"
    } else if d == 3 {
        "3"
    } else if d == 4 {
        "4"
    } else if d == 5 {
        "5"
    } else if d == 6 {
        "6"
    } else if d == 7 {
        "7"
    } else if d == 8 {
        "8"
    } else {
        "9"
    };
    proof {
        assert(r@ =~= seq![digits()[d as int]]);
    }
    r
}

fn number(n: u32) -> (r: String)
    ensures
        r@ == decimal(n as nat),
    decreases n,
{
    if n < 10 {
        digit(n).to_owned()
    } else {
        let mut r = number(n / 10);
        r.append(digit(n % 10));
        proof {
            assert(r@ =~= decimal((n / 10) as nat).push(digits()[(n % 10) as int]));
        }
        r
    }
}

/// A length of time in milliseconds as minutes and seconds, such as `3:07`.
pub fn millis_to_min_sec(millis: u32) -> (r: String)
    ensures
        r@ == min_sec(millis as nat),
{
    let seconds: u32 = millis / 1000;
    let minutes: u32 = seconds / 60;
    let seconds: u32 = seconds % 60;
    let mut r = number(minutes);
    proof {
        reveal_strlit(":");
    }
    r.append(":");
    r.append(digit(seconds / 10));
    r.append(digit(seconds % 10));
    proof {
        assert(r@ =~= min_sec(millis as nat));
    }
    r
}

/// Whether an element is wider than the place it is shown in, given the width
/// of the place and the width of the element.
pub fn will_element_overflow(parent_width: i32, element_width: i32) -> (r: bool)
    ensures
        r == (parent_width < element_width),
{
    parent_width < element_width
}

} // verus!
