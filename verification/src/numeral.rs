//! Numbers written out as digits.
use vstd::prelude::*;
use vstd::string::StringExecFns;

verus! {

/// The digit that stands for `digit` in bases up to sixteen, in lower case.
pub open spec fn digit_char(digit: nat) -> char {
    if digit < 10 {
        (('0' as u32) + digit) as char
    } else {
        (('a' as u32) + digit - 10) as char
    }
}

/// `value` written in `base`, the highest digit first and without leading zeros.
pub open spec fn numeral(value: nat, base: nat) -> Seq<char>
    decreases value,
{
    if value < base || base < 2 {
        seq![digit_char(value)]
    } else {
        proof {
            assert(value / base < value) by (nonlinear_arith)
                requires
                    value >= base,
                    base >= 2,
            ;
        }
        numeral(value / base, base).push(digit_char(value % base))
    }
}

/// The decimal digit for `digit`.
fn decimal_digit(digit: u64) -> (text: &'static str)
    requires
        digit < 10,
    ensures
        text@ == seq![digit_char(digit as nat)],
{
    proof {
        reveal_strlit("0");
        reveal_strlit("1");
        reveal_strlit("2");
        reveal_strlit("3");
        reveal_strlit("4");
        reveal_strlit("5");
        reveal_strlit("6");
        reveal_strlit("7");
        reveal_strlit("8");
        reveal_strlit("9");
    }
    match digit {
        0 => "0",
        1 => "1",
        2 => "2",
        3 => "3",
        4 => "4",
        5 => "5",
        6 => "6",
        7 => "7",
        8 => "8",
        _ => "9",
    }
}

/// `value` in decimal digits.
pub fn decimal(value: u64) -> (text: String)
    ensures
        text@ == numeral(value as nat, 10),
    decreases value,
{
    if value < 10 {
        let text = String::from_str(decimal_digit(value));
        text
    } else {
        let mut text = decimal(value / 10);
        text.append(decimal_digit(value % 10));
        text
    }
}

/// The number that a digit stands for.
pub open spec fn digit_value(digit: char) -> int {
    if '0' <= digit && digit <= '9' {
        digit as int - '0' as int
    } else {
        digit as int - 'a' as int + 10
    }
}

/// The number that digits stand for, read from the left.
pub open spec fn read(digits: Seq<char>, base: nat) -> int
    decreases digits.len(),
{
    if digits.len() == 0 {
        0
    } else {
        read(digits.drop_last(), base) * base + digit_value(digits.last())
    }
}

/// A number that is written out reads back as itself, and is written without leading zeros.
pub proof fn a_numeral_reads_back(value: nat, base: nat)
    requires
        2 <= base <= 16,
    ensures
        read(numeral(value, base), base) == value,
        numeral(value, base).len() > 0,
        value > 0 ==> numeral(value, base)[0] != '0',
    decreases value,
{
    let text = numeral(value, base);
    if value < base {
        assert(text.drop_last() =~= Seq::<char>::empty());
        assert(read(text.drop_last(), base) == 0);
        assert(0 * base == 0) by (nonlinear_arith);
        assert(digit_value(digit_char(value)) == value);
    } else {
        assert(value / base < value && value / base >= 1 && (value / base) * base + value % base == value)
            by (nonlinear_arith)
            requires
                value >= base,
                base >= 2,
        ;
        a_numeral_reads_back(value / base, base);
        assert(text.drop_last() =~= numeral(value / base, base));
        assert(value % base < base) by (nonlinear_arith)
            requires
                base >= 2,
        ;
        assert(digit_value(digit_char(value % base)) == value % base);
    }
}

} // verus!
