use vstd::prelude::*;

verus! {

use crate::dataset::{
    col_filtered, filter_rows, lemma_count_true_pos, spec_count_true, Column, ColumnValues, Dataset,
};
use crate::date::{spec_parse_date, parse_date};
use crate::text::str_eq;

/// Why a selection could not be produced. Neither case is fatal: callers
/// answer both with a default report.
#[derive(Clone, Copy, PartialEq, Eq, Structural, Debug)]
pub enum SelectError {
    /// The dataset has no text column of the required name.
    ColumnNotFound,
    /// No row matched the filter.
    EmptySelection,
}

/// The cells of the first column with this name, provided it is a text
/// column.
pub open spec fn spec_text_col(ds: Dataset, name: Seq<char>) -> Option<Seq<Option<Seq<char>>>> {
    match ds.spec_find(name) {
        Some(j) => match ds.columns@[j].values {
            ColumnValues::Texts(v) => Some(v.deep_view()),
            ColumnValues::Nums(_) => None,
        },
        None => None,
    }
}

/// A row matches a location when its cell holds exactly that string.
pub open spec fn spec_loc_match(cell: Option<Seq<char>>, city: Seq<char>) -> bool {
    cell matches Some(s) && s == city
}

/// A row matches a month when its date cell parses as YYYY-MM-DD and falls in
/// that calendar month; a missing or unparseable date never matches.
pub open spec fn spec_month_match(cell: Option<Seq<char>>, year: i32, month: u32) -> bool {
    cell matches Some(s) && spec_parse_date(s) matches Some(d) && d.year as int == year as int
        && d.month == month
}

pub open spec fn spec_location_mask(cells: Seq<Option<Seq<char>>>, city: Seq<char>) -> Seq<bool> {
    Seq::new(cells.len(), |j: int| spec_loc_match(cells[j], city))
}

pub open spec fn spec_location_month_mask(
    locs: Seq<Option<Seq<char>>>,
    dates: Seq<Option<Seq<char>>>,
    city: Seq<char>,
    year: i32,
    month: u32,
) -> Seq<bool> {
    Seq::new(locs.len(), |j: int| spec_loc_match(locs[j], city) && spec_month_match(dates[j], year, month))
}

pub(crate) fn text_column<'a>(ds: &'a Dataset, name: &str) -> (r: Option<&'a Vec<Option<String>>>)
    requires
        ds.well_formed(),
    ensures
        match r {
            Some(v) => spec_text_col(*ds, name@) == Some(v.deep_view()) && v@.len()
                == ds.spec_height() && ds.columns@.len() > 0,
            None => spec_text_col(*ds, name@) is None,
        },
{
    proof {
        ds.lemma_find_range(name@);
    }
    match ds.find_column(name) {
        Some(j) => match &ds.columns[j].values {
            ColumnValues::Texts(v) => Some(v),
            ColumnValues::Nums(_) => None,
        },
        None => None,
    }
}

fn location_mask(texts: &Vec<Option<String>>, city: &str) -> (mask: Vec<bool>)
    ensures
        mask@ == spec_location_mask(texts.deep_view(), city@),
{
    let n = texts.len();
    let mut mask: Vec<bool> = Vec::new();
    let mut i: usize = 0;
    while i < n
        invariant
            i <= n,
            n == texts@.len(),
            texts.deep_view().len() == n,
            mask@.len() == i,
            forall|j: int|
                0 <= j < i ==> mask@[j] == spec_loc_match(texts.deep_view()[j], city@),
        decreases n - i,
    {
        let m = match &texts[i] {
            Some(s) => str_eq(s.as_str(), city),
            None => false,
        };
        mask.push(m);
        i = i + 1;
    }
    proof {
        assert(mask@ =~= spec_location_mask(texts.deep_view(), city@));
    }
    mask
}

fn location_month_mask(
    locs: &Vec<Option<String>>,
    dates: &Vec<Option<String>>,
    city: &str,
    year: i32,
    month: u32,
) -> (mask: Vec<bool>)
    requires
        locs@.len() == dates@.len(),
    ensures
        mask@ == spec_location_month_mask(locs.deep_view(), dates.deep_view(), city@, year, month),
{
    let n = locs.len();
    let mut mask: Vec<bool> = Vec::new();
    let mut i: usize = 0;
    while i < n
        invariant
            i <= n,
            n == locs@.len(),
            n == dates@.len(),
            locs.deep_view().len() == n,
            dates.deep_view().len() == n,
            mask@.len() == i,
            forall|j: int|
                0 <= j < i ==> mask@[j] == (spec_loc_match(locs.deep_view()[j], city@)
                    && spec_month_match(dates.deep_view()[j], year, month)),
        decreases n - i,
    {
        let loc_ok = match &locs[i] {
            Some(s) => str_eq(s.as_str(), city),
            None => false,
        };
        let month_ok = match &dates[i] {
            Some(s) => match parse_date(s.as_str()) {
                Some(d) => d.year as i64 == year as i64 && d.month == month,
                None => false,
            },
            None => false,
        };
        mask.push(loc_ok && month_ok);
        i = i + 1;
    }
    proof {
        assert(mask@ =~= spec_location_month_mask(
            locs.deep_view(),
            dates.deep_view(),
            city@,
            year,
            month,
        ));
    }
    mask
}

fn any_true(mask: &Vec<bool>) -> (r: bool)
    ensures
        r == exists|j: int| 0 <= j < mask@.len() && mask@[j],
{
    let n = mask.len();
    let mut i: usize = 0;
    while i < n
        invariant
            i <= n,
            n == mask@.len(),
            forall|j: int| 0 <= j < i ==> !mask@[j],
        decreases n - i,
    {
        if mask[i] {
            return true;
        }
        i = i + 1;
    }
    false
}

/// Filter a dataset down to the rows of one location. The result keeps the
/// schema and the relative row order. `Err(ColumnNotFound)` names a schema
/// mismatch, `Err(EmptySelection)` a location absent from the data.
pub fn select_location(ds: &Dataset, location_col: &str, city: &str) -> (r: Result<
    Dataset,
    SelectError,
>)
    requires
        ds.well_formed(),
    ensures
        match r {
            Ok(out) => spec_text_col(*ds, location_col@) matches Some(cells) && {
                let mask = spec_location_mask(cells, city@);
                &&& out.well_formed()
                &&& out.columns@.len() == ds.columns@.len()
                &&& forall|j: int|
                    0 <= j < ds.columns@.len() ==> col_filtered(
                        ds.columns@[j],
                        #[trigger] out.columns@[j],
                        mask,
                    )
                &&& out.spec_height() == spec_count_true(mask)
                &&& out.spec_height() > 0
            },
            Err(SelectError::ColumnNotFound) => spec_text_col(*ds, location_col@) is None,
            Err(SelectError::EmptySelection) => spec_text_col(*ds, location_col@) matches Some(
                cells,
            ) && !(exists|j: int| 0 <= j < cells.len() && spec_loc_match(cells[j], city@)),
        },
{
    let texts = match text_column(ds, location_col) {
        Some(v) => v,
        None => {
            return Err(SelectError::ColumnNotFound);
        },
    };
    let mask = location_mask(texts, city);
    if !any_true(&mask) {
        proof {
            assert forall|j: int| 0 <= j < texts.deep_view().len() implies !spec_loc_match(
                texts.deep_view()[j],
                city@,
            ) by {
                assert(!mask@[j]);
            }
        }
        return Err(SelectError::EmptySelection);
    }
    proof {
        let j = choose|j: int| 0 <= j < mask@.len() && mask@[j];
        lemma_count_true_pos(mask@, j);
    }
    let out = filter_rows(ds, &mask);
    Ok(out)
}

/// Filter a dataset down to the rows of one location that fall in one
/// calendar month. Rows whose date cell is missing or not a valid YYYY-MM-DD
/// day are treated as non-matching, not as errors.
pub fn select_location_month(
    ds: &Dataset,
    location_col: &str,
    date_col: &str,
    city: &str,
    year: i32,
    month: u32,
) -> (r: Result<Dataset, SelectError>)
    requires
        ds.well_formed(),
    ensures
        match r {
            Ok(out) => spec_text_col(*ds, location_col@) matches Some(locs) && spec_text_col(
                *ds,
                date_col@,
            ) matches Some(dates) && {
                let mask = spec_location_month_mask(locs, dates, city@, year, month);
                &&& out.well_formed()
                &&& out.columns@.len() == ds.columns@.len()
                &&& forall|j: int|
                    0 <= j < ds.columns@.len() ==> col_filtered(
                        ds.columns@[j],
                        #[trigger] out.columns@[j],
                        mask,
                    )
                &&& out.spec_height() == spec_count_true(mask)
                &&& out.spec_height() > 0
            },
            Err(SelectError::ColumnNotFound) => spec_text_col(*ds, location_col@) is None
                || spec_text_col(*ds, date_col@) is None,
            Err(SelectError::EmptySelection) => spec_text_col(*ds, location_col@) matches Some(
                locs,
            ) && spec_text_col(*ds, date_col@) matches Some(dates) && !(exists|j: int|
                0 <= j < locs.len() && spec_loc_match(locs[j], city@) && spec_month_match(
                    dates[j],
                    year,
                    month,
                )),
        },
{
    let locs = match text_column(ds, location_col) {
        Some(v) => v,
        None => {
            return Err(SelectError::ColumnNotFound);
        },
    };
    let dates = match text_column(ds, date_col) {
        Some(v) => v,
        None => {
            return Err(SelectError::ColumnNotFound);
        },
    };
    let mask = location_month_mask(locs, dates, city, year, month);
    if !any_true(&mask) {
        proof {
            assert forall|j: int|
                0 <= j < locs.deep_view().len() implies !(spec_loc_match(locs.deep_view()[j], city@)
                && spec_month_match(dates.deep_view()[j], year, month)) by {
                assert(!mask@[j]);
            }
        }
        return Err(SelectError::EmptySelection);
    }
    proof {
        let j = choose|j: int| 0 <= j < mask@.len() && mask@[j];
        lemma_count_true_pos(mask@, j);
    }
    let out = filter_rows(ds, &mask);
    Ok(out)
}

} // verus!
