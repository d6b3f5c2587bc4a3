use vstd::prelude::*;

verus! {

use crate::num::{
    all_digits, all_digits_range, digit_char, digit_char_of, digits_val, lemma_digits_val_bound,
    lemma_pow10_vals, parse_digits, push_u64, spec_digits_seq,
};
use crate::text::push_char;

/// A calendar date, already validated: `month` is 1..=12 and `day` fits the
/// month (leap years included).
#[derive(Clone, Copy, PartialEq, Eq, Structural, Debug)]
pub struct Date {
    pub year: u32,
    pub month: u32,
    pub day: u32,
}

/// Days in a given month of a given year, with the Gregorian leap-year rule.
pub open spec fn spec_days_in_month(year: u32, month: u32) -> u32 {
    if month == 2 {
        if (year % 4 == 0 && year % 100 != 0) || year % 400 == 0 {
            29u32
        } else {
            28u32
        }
    } else if month == 4 || month == 6 || month == 9 || month == 11 {
        30u32
    } else {
        31u32
    }
}

pub fn days_in_month(year: u32, month: u32) -> (r: u32)
    ensures
        r == spec_days_in_month(year, month),
{
    if month == 2 {
        if (year % 4 == 0 && year % 100 != 0) || year % 400 == 0 {
            29
        } else {
            28
        }
    } else if month == 4 || month == 6 || month == 9 || month == 11 {
        30
    } else {
        31
    }
}

/// What parsing a date field means: exactly the form YYYY-MM-DD, and the
/// numbers must name a real calendar day.
pub open spec fn spec_parse_date(s: Seq<char>) -> Option<Date> {
    if s.len() == 10 && s[4] == '-' && s[7] == '-' && all_digits(s.subrange(0, 4)) && all_digits(
        s.subrange(5, 7),
    ) && all_digits(s.subrange(8, 10)) {
        let y = digits_val(s.subrange(0, 4));
        let m = digits_val(s.subrange(5, 7));
        let d = digits_val(s.subrange(8, 10));
        if 1 <= m <= 12 && 1 <= d <= spec_days_in_month(y as u32, m as u32) {
            Some(Date { year: y as u32, month: m as u32, day: d as u32 })
        } else {
            None
        }
    } else {
        None
    }
}

/// Parse a date field; a field that is not a valid YYYY-MM-DD day yields `None`.
pub fn parse_date(s: &str) -> (r: Option<Date>)
    ensures
        r == spec_parse_date(s@),
        r matches Some(d) ==> 1 <= d.month <= 12 && d.year <= 9999,
{
    let n = s.unicode_len();
    if n != 10 {
        return None;
    }
    if s.get_char(4) != '-' || s.get_char(7) != '-' {
        return None;
    }
    if !all_digits_range(s, 0, 4) || !all_digits_range(s, 5, 7) || !all_digits_range(s, 8, 10) {
        return None;
    }
    proof {
        lemma_pow10_vals();
        lemma_digits_val_bound(s@.subrange(0, 4));
        lemma_digits_val_bound(s@.subrange(5, 7));
        lemma_digits_val_bound(s@.subrange(8, 10));
    }
    let y = parse_digits(s, 0, 4);
    let m = parse_digits(s, 5, 7);
    let d = parse_digits(s, 8, 10);
    if 1 <= m && m <= 12 && 1 <= d && d as u32 <= days_in_month(y as u32, m as u32) {
        Some(Date { year: y as u32, month: m as u32, day: d as u32 })
    } else {
        None
    }
}

/// The aggregation bucket of a date: its year, a dash, and its two-digit month.
pub open spec fn spec_bucket_key(d: Date) -> Seq<char> {
    spec_digits_seq(d.year as nat) + seq!['-'] + seq![
        digit_char((d.month / 10) as int),
        digit_char((d.month % 10) as int),
    ]
}

pub fn bucket_key(d: &Date) -> (r: String)
    requires
        d.month <= 99,
    ensures
        r@ == spec_bucket_key(*d),
{
    let mut s = String::new();
    push_u64(&mut s, d.year as u64);
    push_char(&mut s, '-');
    push_char(&mut s, digit_char_of((d.month / 10) as u64));
    push_char(&mut s, digit_char_of((d.month % 10) as u64));
    proof {
        assert(s@ =~= spec_bucket_key(*d));
    }
    s
}

} // verus!
