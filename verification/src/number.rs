//! Numbers as text.

use vstd::prelude::*;

use crate::text;

verus! {

/// The character of a decimal digit.
pub open spec fn digit(value: nat) -> char {
    (48 + value) as char
}

/// The decimal notation of a number.
pub open spec fn decimal(value: nat) -> Seq<char>
    decreases value,
{
    if value < 10 {
        seq![digit(value)]
    } else {
        decimal(value / 10).push(digit(value % 10))
    }
}

/// The decimal notation of a number.
pub fn decimal_of(value: u128) -> (r: String)
    ensures
        r@ == decimal(value as nat),
    decreases value,
{
    if value < 10 {
        let mut r = String::new();
        r.push((48u8 + value as u8) as char);
        r
    } else {
        let mut r = decimal_of(value / 10);
        r.push((48u8 + (value % 10) as u8) as char);
        r
    }
}

/// The decimal notation of a signed number.
pub open spec fn signed_decimal(value: int) -> Seq<char> {
    if value < 0 {
        "-"@ + decimal((-value) as nat)
    } else {
        decimal(value as nat)
    }
}

/// The decimal notation of a signed number.
pub fn signed_decimal_of(value: i64) -> (r: String)
    ensures
        r@ == signed_decimal(value as int),
{
    if value < 0 {
        let size: i128 = -(value as i128);
        let mut r = String::new();
        r.append("-");
        r.append(decimal_of(size as u128).as_str());
        r
    } else {
        decimal_of(value as u128)
    }
}

/// Different numbers have different decimal notations.
pub proof fn decimal_is_injective(a: nat, b: nat)
    requires
        decimal(a) == decimal(b),
    ensures
        a == b,
    decreases a,
{
    decimal_is_not_empty(a / 10);
    decimal_is_not_empty(b / 10);
    assert(decimal(a).last() == digit(a % 10));
    assert(decimal(b).last() == digit(b % 10));
    if a >= 10 && b >= 10 {
        assert(decimal(a).drop_last() =~= decimal(a / 10));
        assert(decimal(b).drop_last() =~= decimal(b / 10));
        decimal_is_injective(a / 10, b / 10);
    } else if a >= 10 {
        assert(decimal(a).len() > 1);
    } else if b >= 10 {
        assert(decimal(b).len() > 1);
    }
}

proof fn decimal_is_not_empty(value: nat)
    ensures
        decimal(value).len() > 0,
    decreases value,
{
    if value >= 10 {
        decimal_is_not_empty(value / 10);
    }
}

/// A decimal digit.
pub open spec fn is_digit(c: char) -> bool {
    '0' <= c <= '9'
}

/// The value of a row of decimal digits.
pub open spec fn digits_value(digits: Seq<char>) -> nat
    decreases digits.len(),
{
    if digits.len() == 0 {
        0
    } else {
        digits_value(digits.drop_last()) * 10 + (digits.last() as nat - 48) as nat
    }
}

/// A row of decimal digits with at least one digit in it.
pub open spec fn all_digits(digits: Seq<char>) -> bool {
    digits.len() > 0 && forall|i: int| 0 <= i < digits.len() ==> is_digit(#[trigger] digits[i])
}

/// The number that an optional sign and a row of digits stand for.
pub open spec fn parsed_int(text: Seq<char>) -> Option<int> {
    let signed = text.len() > 0 && (text[0] == '-' || text[0] == '+');
    let digits = if signed {
        text.drop_first()
    } else {
        text
    };
    if !all_digits(digits) {
        None
    } else if signed && text[0] == '-' {
        Some(-(digits_value(digits) as int))
    } else {
        Some(digits_value(digits) as int)
    }
}

/// The number that a text stands for, when it is one and fits.
pub open spec fn parsed_i64(text: Seq<char>) -> Option<int> {
    match parsed_int(text) {
        Some(value) => if i64::MIN <= value <= i64::MAX {
            Some(value)
        } else {
            None
        },
        None => None,
    }
}

/// The number that a text stands for, when it is one and fits.
pub fn parse_i64(text: &str) -> (r: Option<i64>)
    ensures
        match r {
            Some(value) => parsed_i64(text@) == Some(value as int),
            None => parsed_i64(text@) is None,
        },
{
    let chars = text::chars_of(text);
    let signed = chars.len() > 0 && (chars[0] == '-' || chars[0] == '+');
    let negative = signed && chars[0] == '-';
    let start: usize = if signed {
        1
    } else {
        0
    };
    let ghost digits = if signed {
        chars@.drop_first()
    } else {
        chars@
    };
    if chars.len() == start {
        return None;
    }
    let limit: i128 = 9223372036854775808;
    let mut value: i128 = 0;
    let mut over = false;
    assert(digits.take(0) == Seq::<char>::empty());
    for i in start..chars.len()
        invariant
            start <= 1,
            !all_digits(digits) ==> parsed_int(text@) is None,
            digits.len() == chars@.len() - start,
            forall|j: int| 0 <= j < digits.len() ==> digits[j] == chars@[j + start],
            forall|j: int| 0 <= j < i - start ==> is_digit(#[trigger] digits[j]),
            limit == 9223372036854775808,
            0 <= value <= limit,
            !over ==> value == digits_value(digits.take(i - start)),
            over ==> digits_value(digits.take(i - start)) > limit,
    {
        let c = chars[i];
        assert(digits[i - start] == c);
        if c < '0' || '9' < c {
            assert(!is_digit(digits[i - start]));
            return None;
        }
        proof {
            assert(digits.take(i - start + 1).drop_last() == digits.take(i - start));
        }
        if !over {
            let next: i128 = value * 10 + ((c as u32 - 48) as i128);
            if next > limit {
                over = true;
            } else {
                value = next;
            }
        }
    }
    assert(digits.take(digits.len() as int) == digits);
    if over {
        None
    } else if negative {
        Some((-value) as i64)
    } else if value == limit {
        None
    } else {
        Some(value as i64)
    }
}

/// The digits of a number stand for it.
pub proof fn numbers_come_back(value: nat)
    ensures
        digits_value(decimal(value)) == value,
        all_digits(decimal(value)),
        parsed_int(decimal(value)) == Some(value as int),
    decreases value,
{
    if value < 10 {
        let one = decimal(value);
        assert(one.drop_last() =~= Seq::<char>::empty());
        assert(one.last() as nat - 48 == value);
        assert(digits_value(one.drop_last()) == 0);
        assert(digits_value(one) == value);
        assert(is_digit(one[0]));
    } else {
        let rest = decimal(value / 10);
        numbers_come_back(value / 10);
        assert(decimal(value).drop_last() =~= rest);
        assert(decimal(value).last() as nat - 48 == value % 10);
        assert(digits_value(decimal(value)) == digits_value(rest) * 10 + value % 10);
        assert forall|i: int| 0 <= i < decimal(value).len() implies is_digit(
            #[trigger] decimal(value)[i],
        ) by {
            if i < rest.len() {
                assert(decimal(value)[i] == rest[i]);
            }
        }
    }
    assert(is_digit(decimal(value)[0]));
}

/// A number with its sign is read back as it was written.
pub proof fn signed_numbers_come_back(value: int)
    ensures
        parsed_int(signed_decimal(value)) == Some(value),
        i64::MIN <= value <= i64::MAX ==> parsed_i64(signed_decimal(value)) == Some(value),
{
    if value < 0 {
        numbers_come_back((-value) as nat);
        reveal_strlit("-");
        let text = signed_decimal(value);
        assert(text[0] == '-');
        assert(text.drop_first() =~= decimal((-value) as nat));
    } else {
        numbers_come_back(value as nat);
    }
}

} // verus!
