//! Decimal texts as whole numbers of units.
//!
//! The exchange writes prices and quantities as decimal texts. To compare
//! and add them without rounding, a text is read as a count of units of
//! one hundred-millionth.

use vstd::prelude::*;

verus! {

/// The number of units in one.
pub const UNITS_PER_ONE: u64 = 100_000_000;

/// The number of digits that may follow the point.
pub const FRACTION_DIGITS: usize = 8;

/// Whether a character is a decimal digit.
pub open spec fn is_digit(c: char) -> bool {
    '0' <= c && c <= '9'
}

/// The value of a decimal digit.
pub open spec fn digit_value(c: char) -> nat {
    (c as u32 - '0' as u32) as nat
}

/// The value of a run of digits, read as a decimal numeral.
pub open spec fn digits_value(digits: Seq<char>) -> nat
    decreases digits.len(),
{
    if digits.len() == 0 {
        0
    } else {
        digits_value(digits.drop_last()) * 10 + digit_value(digits.last())
    }
}

/// The position behind the digits that start at `from`.
pub open spec fn digits_end(text: Seq<char>, from: int) -> int
    decreases text.len() - from,
{
    if from < 0 || from >= text.len() || !is_digit(text[from]) {
        from
    } else {
        digits_end(text, from + 1)
    }
}

/// The digits in front of the point.
pub open spec fn whole_part(text: Seq<char>) -> Seq<char> {
    text.subrange(0, digits_end(text, 0))
}

/// The digits behind the point, filled up with zeros to the full number of
/// places. Where the text ends with its whole part these are all zeros.
pub open spec fn fraction_part(text: Seq<char>) -> Seq<char> {
    Seq::new(
        FRACTION_DIGITS as nat,
        |k: int|
            if digits_end(text, 0) + 1 + k < text.len() {
                text[digits_end(text, 0) + 1 + k]
            } else {
                '0'
            },
    )
}

/// Whether a text is a decimal: one digit or more, then possibly a point
/// and up to eight digits. No sign, no exponent, no blank.
pub open spec fn is_decimal(text: Seq<char>) -> bool {
    let end = digits_end(text, 0);
    &&& end >= 1
    &&& end == text.len() || {
        &&& text[end] == '.'
        &&& digits_end(text, end + 1) == text.len()
        &&& text.len() - end - 1 <= FRACTION_DIGITS
    }
}

/// The number of units that a decimal stands for.
pub open spec fn decimal_units(text: Seq<char>) -> nat {
    digits_value(whole_part(text)) * (UNITS_PER_ONE as nat) + digits_value(fraction_part(text))
}

/// The units of a text, where it is a decimal whose units fit the machine
/// word.
pub open spec fn parsed_units(text: Seq<char>) -> Option<u64> {
    if is_decimal(text) && decimal_units(text) <= u64::MAX {
        Some(decimal_units(text) as u64)
    } else {
        None
    }
}

/// Ten to the power of `k`.
pub open spec fn pow10(k: nat) -> nat
    decreases k,
{
    if k == 0 {
        1
    } else {
        10 * pow10((k - 1) as nat)
    }
}

/// The digits that start at a position end within the text, hold digits
/// only, and stop at the first character that is none.
pub proof fn lemma_digits_end(text: Seq<char>, from: int)
    requires
        0 <= from <= text.len(),
    ensures
        from <= digits_end(text, from) <= text.len(),
        forall|k: int| from <= k < digits_end(text, from) ==> is_digit(#[trigger] text[k]),
        digits_end(text, from) < text.len() ==> !is_digit(text[digits_end(text, from)]),
    decreases text.len() - from,
{
    if from < text.len() && is_digit(text[from]) {
        lemma_digits_end(text, from + 1);
    }
}

/// A run of digits that reaches a position is the run that starts there.
pub proof fn lemma_digits_end_from(text: Seq<char>, from: int, to: int)
    requires
        0 <= from <= to <= text.len(),
        forall|k: int| from <= k < to ==> is_digit(#[trigger] text[k]),
    ensures
        digits_end(text, from) == digits_end(text, to),
    decreases to - from,
{
    if from < to {
        lemma_digits_end_from(text, from + 1, to);
    }
}

/// A longer run of digits is worth no less than the run it starts with.
pub proof fn lemma_digits_value_grows(digits: Seq<char>, shorter: int)
    requires
        0 <= shorter <= digits.len(),
    ensures
        digits_value(digits.subrange(0, shorter)) <= digits_value(digits),
    decreases digits.len(),
{
    if shorter == digits.len() {
        assert(digits.subrange(0, shorter) =~= digits);
    } else {
        let front = digits.drop_last();
        lemma_digits_value_grows(front, shorter);
        assert(front.subrange(0, shorter) =~= digits.subrange(0, shorter));
    }
}

/// Whether a text spells zero as a decimal: zeros, one of them in front, and
/// at most one point among them. So `0`, `0.0`, `00` and `0.000` spell zero,
/// with however many places.
pub open spec fn is_zero_decimal(text: Seq<char>) -> bool {
    &&& text.len() >= 1
    &&& text[0] == '0'
    &&& forall|i: int| 0 <= i < text.len() ==> (#[trigger] text[i]) == '0' || text[i] == '.'
    &&& forall|i: int, j: int|
        0 <= i < j < text.len() ==> !((#[trigger] text[i]) == '.' && (#[trigger] text[j]) == '.')
}

/// A run of digits is worth nothing exactly when all of them are zeros.
pub proof fn lemma_digits_value_zero(digits: Seq<char>)
    requires
        forall|k: int| 0 <= k < digits.len() ==> is_digit(#[trigger] digits[k]),
    ensures
        digits_value(digits) == 0 <==> forall|k: int|
            0 <= k < digits.len() ==> (#[trigger] digits[k]) == '0',
    decreases digits.len(),
{
    if digits.len() > 0 {
        let front = digits.drop_last();
        assert(forall|k: int| 0 <= k < front.len() ==> front[k] == digits[k]);
        lemma_digits_value_zero(front);
        assert(is_digit(digits[digits.len() - 1]));
        if digits_value(digits) == 0 {
            assert(digit_value(digits.last()) == 0);
            assert forall|k: int| 0 <= k < digits.len() implies (#[trigger] digits[k]) == '0' by {
                if k < front.len() {
                    assert(front[k] == '0');
                }
            }
        }
        if forall|k: int| 0 <= k < digits.len() ==> (#[trigger] digits[k]) == '0' {
            assert(digits.last() == '0');
            assert forall|k: int| 0 <= k < front.len() implies (#[trigger] front[k]) == '0' by {
                assert(digits[k] == '0');
            }
        }
    }
}

/// Among the decimals, those that spell zero are those that stand for no
/// unit.
pub proof fn lemma_zero_decimal_has_no_units(text: Seq<char>)
    requires
        is_decimal(text),
    ensures
        is_zero_decimal(text) <==> decimal_units(text) == 0,
{
    let end = digits_end(text, 0);
    lemma_digits_end(text, 0);
    let whole = whole_part(text);
    let filled = fraction_part(text);
    if end < text.len() {
        lemma_digits_end(text, end + 1);
    }
    assert forall|k: int| 0 <= k < whole.len() implies is_digit(#[trigger] whole[k]) by {
        assert(whole[k] == text[k]);
    }
    assert forall|k: int| 0 <= k < filled.len() implies is_digit(#[trigger] filled[k]) by {
        if end + 1 + k < text.len() {
            assert(is_digit(text[end + 1 + k]));
        }
    }
    lemma_digits_value_zero(whole);
    lemma_digits_value_zero(filled);
    let first = digits_value(whole);
    let second = digits_value(filled);
    assert(first * (UNITS_PER_ONE as nat) + second == 0 <==> first == 0 && second == 0)
        by (nonlinear_arith)
        requires
            UNITS_PER_ONE == 100_000_000,
    ;
    if is_zero_decimal(text) {
        assert forall|k: int| 0 <= k < whole.len() implies (#[trigger] whole[k]) == '0' by {
            assert(whole[k] == text[k]);
            assert(is_digit(text[k]));
        }
        assert forall|k: int| 0 <= k < filled.len() implies (#[trigger] filled[k]) == '0' by {
            if end + 1 + k < text.len() {
                assert(is_digit(text[end + 1 + k]));
            }
        }
    }
    if decimal_units(text) == 0 {
        assert(whole[0] == '0');
        assert(text[0] == '0');
        assert forall|i: int| 0 <= i < text.len() implies (#[trigger] text[i]) == '0' || text[i]
            == '.' by {
            if i < end {
                assert(whole[i] == '0');
            } else if i > end {
                assert(filled[i - end - 1] == '0');
            }
        }
        assert forall|i: int, j: int| 0 <= i < j < text.len() implies !((#[trigger] text[i]) == '.'
            && (#[trigger] text[j]) == '.') by {
            if i < end {
                assert(whole[i] == '0');
            } else {
                assert(filled[j - end - 1] == '0');
            }
        }
    }
}

/// Whether a text spells zero as a decimal.
pub fn spells_zero(text: &str) -> (zero: bool)
    ensures
        zero == is_zero_decimal(text@),
{
    let len = text.unicode_len();
    if len == 0 {
        return false;
    }
    if text.get_char(0) != '0' {
        return false;
    }
    let mut point: Option<usize> = None;
    let mut i: usize = 1;
    while i < len
        invariant
            1 <= i <= len,
            len == text@.len(),
            text@[0] == '0',
            forall|k: int| 0 <= k < i ==> (#[trigger] text@[k]) == '0' || text@[k] == '.',
            forall|a: int, b: int|
                0 <= a < b < i ==> !((#[trigger] text@[a]) == '.' && (#[trigger] text@[b]) == '.'),
            match point {
                Some(at) => at < i && text@[at as int] == '.',
                None => forall|k: int| 0 <= k < i ==> (#[trigger] text@[k]) != '.',
            },
        decreases len - i,
    {
        let c = text.get_char(i);
        if c == '.' {
            match point {
                Some(at) => {
                    assert(text@[at as int] == '.' && text@[i as int] == '.');
                    return false;
                },
                None => {
                    point = Some(i);
                },
            }
        } else if c != '0' {
            assert(!(text@[i as int] == '0' || text@[i as int] == '.'));
            return false;
        }
        i += 1;
    }
    true
}

/// The value of a character that is a digit.
pub fn digit_of(c: char) -> (digit: Option<u64>)
    ensures
        match digit {
            Some(d) => is_digit(c) && d == digit_value(c) && d <= 9,
            None => !is_digit(c),
        },
{
    if '0' <= c && c <= '9' {
        Some((c as u32 - '0' as u32) as u64)
    } else {
        None
    }
}

/// Reads a decimal text as a count of units of one hundred-millionth. A text
/// that is no decimal, or whose units do not fit the machine word, gives
/// nothing.
pub fn parse_decimal(text: &str) -> (units: Option<u64>)
    ensures
        units == parsed_units(text@),
{
    let len = text.unicode_len();
    let mut end: usize = 0;
    let mut whole: u64 = 0;
    let mut stopped = false;
    proof {
        assert(text@.subrange(0, 0) =~= Seq::<char>::empty());
    }
    while end < len && !stopped
        invariant
            len == text@.len(),
            end <= len,
            forall|k: int| 0 <= k < end ==> is_digit(#[trigger] text@[k]),
            whole == digits_value(text@.subrange(0, end as int)),
            stopped ==> end < len && !is_digit(text@[end as int]),
        decreases len - end + if stopped { 0int } else { 1int },
    {
        match digit_of(text.get_char(end)) {
            Some(digit) => {
                let ghost longer = text@.subrange(0, end + 1);
                proof {
                    assert(longer.drop_last() =~= text@.subrange(0, end as int));
                    assert(longer.last() == text@[end as int]);
                }
                if whole > (u64::MAX - digit) / 10 {
                    proof {
                        lemma_digits_end_from(text@, 0, end + 1);
                        lemma_digits_end(text@, end + 1);
                        let all = whole_part(text@);
                        lemma_digits_value_grows(all, end + 1);
                        assert(all.subrange(0, end + 1) =~= longer);
                        assert(digits_value(all) * (UNITS_PER_ONE as nat) >= digits_value(all))
                            by (nonlinear_arith);
                    }
                    return None;
                }
                whole = whole * 10 + digit;
                end += 1;
            },
            None => {
                stopped = true;
            },
        }
    }
    proof {
        lemma_digits_end_from(text@, 0, end as int);
        lemma_digits_end(text@, end as int);
        assert(digits_end(text@, 0) == end);
    }
    if end == 0 {
        return None;
    }
    let mut places: usize = 0;
    if end < len {
        if text.get_char(end) != '.' {
            return None;
        }
        places = len - end - 1;
        if places > FRACTION_DIGITS {
            return None;
        }
    }
    let ghost filled = fraction_part(text@);
    let mut fraction: u64 = 0;
    let mut k: usize = 0;
    proof {
        assert(filled.subrange(0, 0) =~= Seq::<char>::empty());
        reveal_with_fuel(pow10, 9);
    }
    while k < FRACTION_DIGITS
        invariant
            k <= FRACTION_DIGITS,
            len == text@.len(),
            1 <= end <= len,
            end == digits_end(text@, 0),
            end < len ==> text@[end as int] == '.' && places == len - end - 1,
            end == len ==> places == 0,
            places <= FRACTION_DIGITS,
            filled == fraction_part(text@),
            forall|j: int| 0 <= j < k ==> is_digit(#[trigger] filled[j]),
            forall|j: int| 0 <= j < k && j < places ==> is_digit(#[trigger] text@[end + 1 + j]),
            fraction == digits_value(filled.subrange(0, k as int)),
            fraction < pow10(k as nat),
            pow10(k as nat) <= UNITS_PER_ONE,
        decreases FRACTION_DIGITS - k,
    {
        let ghost longer = filled.subrange(0, k + 1);
        proof {
            assert(longer.drop_last() =~= filled.subrange(0, k as int));
            assert(longer.last() == filled[k as int]);
            reveal_with_fuel(pow10, 9);
        }
        let digit = if k < places {
            match digit_of(text.get_char(end + 1 + k)) {
                Some(digit) => digit,
                None => {
                    proof {
                        assert forall|j: int| end + 1 <= j < end + 1 + k implies is_digit(
                            #[trigger] text@[j],
                        ) by {
                            assert(is_digit(text@[end + 1 + (j - end - 1)]));
                        }
                        lemma_digits_end_from(text@, end + 1, end + 1 + k);
                        lemma_digits_end(text@, end + 1 + k);
                    }
                    return None;
                },
            }
        } else {
            0
        };
        fraction = fraction * 10 + digit;
        k += 1;
    }
    proof {
        assert(filled.subrange(0, FRACTION_DIGITS as int) =~= filled);
        if end < len {
            assert forall|j: int| end + 1 <= j < len implies is_digit(#[trigger] text@[j]) by {
                assert(is_digit(text@[end + 1 + (j - end - 1)]));
            }
            lemma_digits_end_from(text@, end + 1, len as int);
            lemma_digits_end(text@, len as int);
        }
        assert(is_decimal(text@));
        assert(whole_part(text@) =~= text@.subrange(0, end as int));
    }
    if whole > (u64::MAX - fraction) / UNITS_PER_ONE {
        proof {
            assert(whole * (UNITS_PER_ONE as nat) + fraction > u64::MAX) by (nonlinear_arith)
                requires
                    whole > (u64::MAX - fraction) / (UNITS_PER_ONE as int),
                    fraction < UNITS_PER_ONE,
                    UNITS_PER_ONE == 100_000_000,
            ;
        }
        return None;
    }
    proof {
        assert(whole * (UNITS_PER_ONE as nat) + fraction <= u64::MAX) by (nonlinear_arith)
            requires
                whole <= (u64::MAX - fraction) / (UNITS_PER_ONE as int),
                fraction < UNITS_PER_ONE,
                UNITS_PER_ONE == 100_000_000,
        ;
    }
    Some(whole * UNITS_PER_ONE + fraction)
}

} // verus!
