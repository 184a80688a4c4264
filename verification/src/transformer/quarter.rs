//! Fiscal quarters: the quarter of a month, and the label of a quarter of a
//! year, which is the key that all tables are joined on.

use vstd::prelude::*;
use vstd::string::StringExecFns;

verus! {

/// The quarter, from 1 to 4, of a month from 1 to 12: months 1 to 3 are in
/// quarter 1, 4 to 6 in quarter 2, 7 to 9 in quarter 3, 10 to 12 in quarter 4.
pub open spec fn quarter_of_month(month: int) -> int {
    if month <= 3 {
        1
    } else if month <= 6 {
        2
    } else if month <= 9 {
        3
    } else {
        4
    }
}

/// Whether `month` is a month of the calendar.
pub open spec fn is_month(month: int) -> bool {
    1 <= month <= 12
}

/// The quarter of a month, or none where `month` is no month.
pub fn quarter_of(month: i8) -> (quarter: Option<u8>)
    ensures
        quarter is Some <==> is_month(month as int),
        quarter matches Some(q) ==> q == quarter_of_month(month as int) && 1 <= q <= 4,
{
    if month < 1 || month > 12 {
        None
    } else if month <= 3 {
        Some(1)
    } else if month <= 6 {
        Some(2)
    } else if month <= 9 {
        Some(3)
    } else {
        Some(4)
    }
}

/// Every month has one quarter from 1 to 4, a later month has no earlier
/// quarter, and quarter `q` holds the three months from `3q - 2` to `3q`.
pub proof fn quarters_partition_the_year()
    ensures
        forall|m: int| is_month(m) ==> 1 <= #[trigger] quarter_of_month(m) <= 4,
        forall|m: int, n: int|
            is_month(m) && is_month(n) && m <= n ==> quarter_of_month(m) <= quarter_of_month(n),
        forall|m: int|
            is_month(m) ==> 3 * (#[trigger] quarter_of_month(m)) - 2 <= m <= 3 * quarter_of_month(
                m,
            ),
{
}

/// The character of a digit from 0 to 9.
pub open spec fn digit_char(digit: int) -> char {
    if digit == 0 {
        '0'
    } else if digit == 1 {
        '1'
    } else if digit == 2 {
        '2'
    } else if digit == 3 {
        '3'
    } else if digit == 4 {
        '4'
    } else if digit == 5 {
        '5'
    } else if digit == 6 {
        '6'
    } else if digit == 7 {
        '7'
    } else if digit == 8 {
        '8'
    } else {
        '9'
    }
}

/// The decimal digits of a number, without leading zeros.
pub open spec fn digits_of(n: nat) -> Seq<char>
    decreases n,
{
    if n < 10 {
        seq![digit_char(n as int)]
    } else {
        digits_of(n / 10).push(digit_char((n % 10) as int))
    }
}

/// An integer in decimal, with a minus sign where it is negative.
pub open spec fn decimal_text(n: int) -> Seq<char> {
    if n < 0 {
        seq!['-'] + digits_of((-n) as nat)
    } else {
        digits_of(n as nat)
    }
}

/// The tag of the quarter of a month: `Q1` to `Q4`.
pub open spec fn quarter_tag(month: int) -> Seq<char> {
    seq!['Q', digit_char(quarter_of_month(month))]
}

/// The label of the quarter that a month of a year falls in: the year, a
/// hyphen, and the quarter's tag.
pub open spec fn quarter_label(year: int, month: int) -> Seq<char> {
    decimal_text(year) + seq!['-'] + quarter_tag(month)
}

/// The text of one digit.
fn digit_text(digit: u64) -> (text: &'static str)
    requires
        digit < 10,
    ensures
        text@ == seq![digit_char(digit as int)],
{
    proof {
        reveal_strlit("0");
        reveal_strlit("1");
        reveal_strlit("2");
        reveal_strlit("3");
        reveal_strlit("4");
        reveal_strlit("5");
        reveal_strlit("6");
        reveal_strlit("7");
        reveal_strlit("8");
        reveal_strlit("9");
    }
    let text = if digit == 0 {
        "0"
    } else if digit == 1 {
        "1"
    } else if digit == 2 {
        "2"
    } else if digit == 3 {
        "3"
    } else if digit == 4 {
        "4"
    } else if digit == 5 {
        "5"
    } else if digit == 6 {
        "6"
    } else if digit == 7 {
        "7"
    } else if digit == 8 {
        "8"
    } else {
        "9"
    };
    assert(text@ =~= seq![digit_char(digit as int)]);
    text
}

/// A number in decimal.
pub fn render_natural(n: u64) -> (text: String)
    ensures
        text@ == digits_of(n as nat),
{
    let mut text = String::from_str(digit_text(n % 10));
    let mut rest: u64 = n / 10;
    proof {
        if n >= 10 {
            assert(digits_of(n as nat) =~= digits_of(rest as nat) + text@);
        }
    }
    while rest > 0
        invariant
            rest > 0 ==> digits_of(n as nat) == digits_of(rest as nat) + text@,
            rest == 0 ==> digits_of(n as nat) == text@,
        decreases rest,
    {
        let digit = rest % 10;
        let ghost before = text@;
        text = String::from_str(digit_text(digit)).concat(text.as_str());
        proof {
            if rest >= 10 {
                assert(digits_of(rest as nat) == digits_of((rest / 10) as nat).push(
                    digit_char(digit as int),
                ));
                assert(digits_of(n as nat) =~= digits_of((rest / 10) as nat) + text@);
            } else {
                assert(digits_of(n as nat) =~= text@);
            }
        }
        rest = rest / 10;
    }
    text
}

/// An integer in decimal, with a minus sign where it is negative.
pub fn render_integer(n: i32) -> (text: String)
    ensures
        text@ == decimal_text(n as int),
{
    if n < 0 {
        let magnitude: u64 = (-(n as i64)) as u64;
        proof {
            reveal_strlit("-");
        }
        let text = String::from_str("-").concat(render_natural(magnitude).as_str());
        assert(text@ =~= decimal_text(n as int));
        text
    } else {
        render_natural(n as u64)
    }
}

/// The label of the quarter that a month of a year falls in, such as
/// `2023-Q1`.
pub fn label_of(year: i32, month: i8) -> (label: String)
    requires
        is_month(month as int),
    ensures
        label@ == quarter_label(year as int, month as int),
{
    proof {
        reveal_strlit("-Q1");
        reveal_strlit("-Q2");
        reveal_strlit("-Q3");
        reveal_strlit("-Q4");
    }
    let tag = match quarter_of(month) {
        Some(1) => "-Q1",
        Some(2) => "-Q2",
        Some(3) => "-Q3",
        _ => "-Q4",
    };
    assert(tag@ =~= seq!['-'] + quarter_tag(month as int));
    let label = render_integer(year).concat(tag);
    assert(label@ =~= quarter_label(year as int, month as int));
    label
}

} // verus!
