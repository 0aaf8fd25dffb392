//! The text form of the table of strike coefficients.
//!
//! Each line names a skill and its coefficient: the skill id in decimal
//! digits, blanks, and the coefficient as a decimal fraction such as `0.73`.
//! What follows the coefficient on a line is passed over. A coefficient is
//! kept in ten-thousandths, rounded to the nearest.

use crate::gamedata::SkillData;
use vstd::prelude::*;
use vstd::slice::slice_subrange;

verus! {

/// Why a table could not be read.
#[derive(PartialEq, Eq, Structural, Clone, Copy, Debug)]
pub enum TableError {
    /// A line has no skill id, or no coefficient.
    MissingField,
    /// A skill id is no 32-bit number in decimal digits.
    InvalidSkillId,
    /// A coefficient is no decimal fraction, or is beyond what 32 bits hold
    /// of ten-thousandths.
    InvalidMultiplier,
}

/// Space, tab, line feed, vertical tab, form feed and carriage return.
pub open spec fn is_blank(b: u8) -> bool {
    b == 32 || (9 <= b <= 13)
}

pub open spec fn is_digit(b: u8) -> bool {
    48 <= b <= 57
}

/// The position of the first byte from `k` on that is not blank, or the
/// length where all are.
pub open spec fn field_start(line: Seq<u8>, k: int) -> int
    decreases line.len() - k,
{
    if 0 <= k < line.len() && is_blank(line[k]) {
        field_start(line, k + 1)
    } else {
        k
    }
}

/// The position of the first blank byte from `k` on, or the length where
/// none is.
pub open spec fn field_end(line: Seq<u8>, k: int) -> int
    decreases line.len() - k,
{
    if 0 <= k < line.len() && !is_blank(line[k]) {
        field_end(line, k + 1)
    } else {
        k
    }
}

/// Whether every byte is a decimal digit.
pub open spec fn all_digits(digits: Seq<u8>) -> bool {
    forall|i: int| 0 <= i < digits.len() ==> is_digit(#[trigger] digits[i])
}

/// The number that decimal digits spell.
pub open spec fn digits_value(digits: Seq<u8>) -> nat
    decreases digits.len(),
{
    if digits.len() == 0 {
        0
    } else {
        digits_value(digits.drop_last()) * 10 + (digits.last() - 48) as nat
    }
}

/// The digit at place `i` of a fraction, which is zero behind its end.
pub open spec fn digit_at(fraction: Seq<u8>, i: int) -> int {
    if 0 <= i < fraction.len() {
        fraction[i] - 48
    } else {
        0
    }
}

/// The ten-thousandths that the digits of a fraction come to: its first four
/// digits, and one more where the fifth digit is five or above.
pub open spec fn fraction_value(fraction: Seq<u8>) -> int {
    digit_at(fraction, 0) * 1000 + digit_at(fraction, 1) * 100 + digit_at(fraction, 2) * 10
        + digit_at(fraction, 3) + if digit_at(fraction, 4) >= 5 {
        1int
    } else {
        0int
    }
}

/// The position of the first point from `k` on, or the length where none
/// is.
pub open spec fn first_point(field: Seq<u8>, k: int) -> int
    decreases field.len() - k,
{
    if 0 <= k < field.len() && field[k] != 46 {
        first_point(field, k + 1)
    } else {
        k
    }
}

/// The skill id that a field spells: one or more decimal digits that make a
/// 32-bit number.
pub open spec fn skill_id_of(field: Seq<u8>) -> Option<u32> {
    if field.len() > 0 && all_digits(field) && digits_value(field) <= u32::MAX {
        Some(digits_value(field) as u32)
    } else {
        None
    }
}

/// The digits of a field before its first point.
pub open spec fn whole_part(field: Seq<u8>) -> Seq<u8> {
    field.take(first_point(field, 0))
}

/// The digits of a field behind its first point.
pub open spec fn fraction_part(field: Seq<u8>) -> Seq<u8> {
    if first_point(field, 0) < field.len() {
        field.skip(first_point(field, 0) + 1)
    } else {
        Seq::empty()
    }
}

/// The coefficient, in ten-thousandths, that a field spells: decimal digits,
/// with or without a point among them, and at least one digit.
pub open spec fn coefficient_of(field: Seq<u8>) -> Option<u32> {
    let whole = whole_part(field);
    let fraction = fraction_part(field);
    let value = digits_value(whole) * 10_000 + fraction_value(fraction);
    if whole.len() + fraction.len() > 0 && all_digits(whole) && all_digits(fraction) && value
        <= u32::MAX {
        Some(value as u32)
    } else {
        None
    }
}

/// The skill id and the coefficient that a line holds in its first two
/// fields.
pub open spec fn line_entry(line: Seq<u8>) -> Result<(u32, u32), TableError> {
    let id_start = field_start(line, 0);
    let id_end = field_end(line, id_start);
    let start = field_start(line, id_end);
    let end = field_end(line, start);
    if id_start >= line.len() || start >= line.len() {
        Err(TableError::MissingField)
    } else {
        match skill_id_of(line.subrange(id_start, id_end)) {
            None => Err(TableError::InvalidSkillId),
            Some(id) => match coefficient_of(line.subrange(start, end)) {
                None => Err(TableError::InvalidMultiplier),
                Some(coefficient) => Ok((id, coefficient)),
            },
        }
    }
}

/// The position of the first line feed from `k` on, or the length where
/// none is.
pub open spec fn line_end(text: Seq<u8>, k: int) -> int
    decreases text.len() - k,
{
    if 0 <= k < text.len() && text[k] != 10 {
        line_end(text, k + 1)
    } else {
        k
    }
}

/// The table that the lines of `text` from `k` on make of `table`: each line
/// gives its skill the coefficient it names, in place of any it had. The
/// first line that cannot be read stops the reading.
pub open spec fn table_from(text: Seq<u8>, k: int, table: Map<u32, u32>) -> Result<
    Map<u32, u32>,
    TableError,
>
    decreases text.len() - k + 1,
    via table_from_goes_on
{
    if k < 0 || k >= text.len() {
        Ok(table)
    } else {
        match line_entry(text.subrange(k, line_end(text, k))) {
            Err(e) => Err(e),
            Ok((id, coefficient)) => table_from(
                text,
                line_end(text, k) + 1,
                table.insert(id, coefficient),
            ),
        }
    }
}

#[via_fn]
proof fn table_from_goes_on(text: Seq<u8>, k: int, table: Map<u32, u32>) {
    if 0 <= k < text.len() {
        lemma_line_end_bounds(text, k);
    }
}

proof fn lemma_line_end_bounds(text: Seq<u8>, k: int)
    requires
        0 <= k <= text.len(),
    ensures
        k <= line_end(text, k) <= text.len(),
    decreases text.len() - k,
{
    if k < text.len() && text[k] != 10 {
        lemma_line_end_bounds(text, k + 1);
    }
}

fn blank(b: u8) -> (r: bool)
    ensures
        r == is_blank(b),
{
    b == 32 || (9 <= b && b <= 13)
}

fn skip_blanks(line: &[u8], k: usize) -> (r: usize)
    requires
        k <= line.len(),
    ensures
        r == field_start(line@, k as int),
        k <= r <= line.len(),
{
    let len = line.len();
    let mut at: usize = k;
    while at < len && blank(line[at])
        invariant
            k <= at <= len == line@.len(),
            field_start(line@, at as int) == field_start(line@, k as int),
        decreases len - at,
    {
        at += 1;
    }
    at
}

fn skip_field(line: &[u8], k: usize) -> (r: usize)
    requires
        k <= line.len(),
    ensures
        r == field_end(line@, k as int),
        k <= r <= line.len(),
{
    let len = line.len();
    let mut at: usize = k;
    while at < len && !blank(line[at])
        invariant
            k <= at <= len == line@.len(),
            field_end(line@, at as int) == field_end(line@, k as int),
        decreases len - at,
    {
        at += 1;
    }
    at
}

/// A number does not shrink as digits are added to it.
proof fn lemma_digits_value_grows(digits: Seq<u8>, k: int)
    requires
        0 <= k <= digits.len(),
        all_digits(digits),
    ensures
        digits_value(digits.take(k)) <= digits_value(digits),
    decreases digits.len() - k,
{
    if k < digits.len() {
        lemma_digits_value_grows(digits, k + 1);
        assert(digits.take(k + 1).drop_last() =~= digits.take(k));
        assert(digits.take(k + 1).last() == digits[k]);
    } else {
        assert(digits.take(k) =~= digits);
    }
}

/// The number that decimal digits spell, if they are digits and spell at
/// most `cap`.
fn parse_digits(digits: &[u8], cap: u64) -> (r: Option<u64>)
    requires
        cap <= u32::MAX,
    ensures
        r == if all_digits(digits@) && digits_value(digits@) <= cap {
            Some(digits_value(digits@) as u64)
        } else {
            None
        },
{
    let len = digits.len();
    let mut value: u64 = 0;
    let mut k: usize = 0;
    assert(digits@.take(0) =~= Seq::<u8>::empty());
    while k < len
        invariant
            k <= len == digits@.len(),
            cap <= u32::MAX,
            all_digits(digits@.take(k as int)),
            value == digits_value(digits@.take(k as int)),
            value <= cap,
        decreases len - k,
    {
        let b = digits[k];
        if !(48 <= b && b <= 57) {
            assert(!is_digit(digits@[k as int]));
            return None;
        }
        proof {
            assert(digits@.take(k + 1).drop_last() =~= digits@.take(k as int));
            assert(digits@.take(k + 1).last() == b);
            assert forall|i: int| 0 <= i < k + 1 implies is_digit(
                #[trigger] digits@.take(k + 1)[i],
            ) by {
                if i < k {
                    assert(digits@.take(k + 1)[i] == digits@.take(k as int)[i]);
                }
            }
        }
        let next = value * 10 + (b - 48) as u64;
        if next > cap {
            proof {
                if all_digits(digits@) {
                    lemma_digits_value_grows(digits@, k + 1);
                }
            }
            return None;
        }
        value = next;
        k += 1;
    }
    assert(digits@.take(k as int) =~= digits@);
    Some(value)
}

/// The skill id that a field spells.
fn parse_skill_id(field: &[u8]) -> (r: Option<u32>)
    ensures
        r == skill_id_of(field@),
{
    if field.len() == 0 {
        return None;
    }
    match parse_digits(field, u32::MAX as u64) {
        Some(value) => Some(value as u32),
        None => None,
    }
}

/// The digit at place `i` of a fraction of digits.
fn digit(fraction: &[u8], i: usize) -> (r: u64)
    requires
        all_digits(fraction@),
    ensures
        r == digit_at(fraction@, i as int),
        r <= 9,
{
    if i < fraction.len() {
        (fraction[i] - 48) as u64
    } else {
        0
    }
}

/// Whether every byte is a decimal digit.
fn only_digits(digits: &[u8]) -> (r: bool)
    ensures
        r == all_digits(digits@),
{
    let len = digits.len();
    let mut k: usize = 0;
    while k < len
        invariant
            k <= len == digits@.len(),
            forall|i: int| 0 <= i < k ==> is_digit(#[trigger] digits@[i]),
        decreases len - k,
    {
        if !(48 <= digits[k] && digits[k] <= 57) {
            return false;
        }
        k += 1;
    }
    true
}

/// The coefficient, in ten-thousandths, that a field spells.
fn parse_coefficient(field: &[u8]) -> (r: Option<u32>)
    ensures
        r == coefficient_of(field@),
{
    let len = field.len();
    let mut point: usize = 0;
    while point < len && field[point] != 46
        invariant
            point <= len == field@.len(),
            first_point(field@, point as int) == first_point(field@, 0),
        decreases len - point,
    {
        point += 1;
    }
    let whole = slice_subrange(field, 0, point);
    let fraction = if point < len {
        slice_subrange(field, point + 1, len)
    } else {
        slice_subrange(field, len, len)
    };
    assert(whole@ =~= whole_part(field@));
    assert(fraction@ =~= fraction_part(field@));
    if whole.len() == 0 && fraction.len() == 0 {
        return None;
    }
    if !only_digits(fraction) {
        return None;
    }
    // ten-thousandths of at most 32 bits leave the whole part below 429497
    match parse_digits(whole, 429_497) {
        None => {
            assert(!all_digits(whole@) || digits_value(whole@) * 10_000 > u32::MAX);
            None
        },
        Some(units) => {
            let rounding: u64 = if digit(fraction, 4) >= 5 {
                1
            } else {
                0
            };
            let value: u64 = units * 10_000 + digit(fraction, 0) * 1000 + digit(fraction, 1) * 100
                + digit(fraction, 2) * 10 + digit(fraction, 3) + rounding;
            if value > u32::MAX as u64 {
                None
            } else {
                Some(value as u32)
            }
        },
    }
}

/// The skill id and the coefficient that a line holds.
fn parse_line(line: &[u8]) -> (r: Result<(u32, u32), TableError>)
    ensures
        r == line_entry(line@),
{
    let id_start = skip_blanks(line, 0);
    let id_end = skip_field(line, id_start);
    let start = skip_blanks(line, id_end);
    let end = skip_field(line, start);
    if id_start >= line.len() || start >= line.len() {
        return Err(TableError::MissingField);
    }
    match parse_skill_id(slice_subrange(line, id_start, id_end)) {
        None => Err(TableError::InvalidSkillId),
        Some(id) => match parse_coefficient(slice_subrange(line, start, end)) {
            None => Err(TableError::InvalidMultiplier),
            Some(coefficient) => Ok((id, coefficient)),
        },
    }
}

impl SkillData {
    /// Reads a table from its text.
    pub fn from_text(text: &[u8]) -> (r: Result<SkillData, TableError>)
        ensures
            match r {
                Ok(table) => table_from(text@, 0, Map::empty()) == Ok::<_, TableError>(table@),
                Err(e) => table_from(text@, 0, Map::empty()) == Err::<Map<u32, u32>, _>(e),
            },
    {
        let len = text.len();
        let mut table = SkillData::new();
        let mut k: usize = 0;
        while k < len
            invariant
                k <= len == text@.len(),
                table_from(text@, k as int, table@) == table_from(text@, 0, Map::empty()),
            decreases len - k,
        {
            let mut end: usize = k;
            while end < len && text[end] != 10
                invariant
                    k <= end <= len == text@.len(),
                    line_end(text@, end as int) == line_end(text@, k as int),
                decreases len - end,
            {
                end += 1;
            }
            match parse_line(slice_subrange(text, k, end)) {
                Err(e) => {
                    return Err(e);
                },
                Ok((id, coefficient)) => {
                    table.set_power_multiplier(id, coefficient);
                },
            }
            if end == len {
                k = len;
            } else {
                k = end + 1;
            }
        }
        Ok(table)
    }
}

} // verus!
