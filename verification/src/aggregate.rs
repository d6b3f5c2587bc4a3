use vstd::prelude::*;

verus! {

use crate::dataset::{
    col_filtered, filter_nums, filter_rows, filter_texts, lemma_mask_len, spec_count_true,
    spec_mask, Column, ColumnValues, Dataset,
};
use crate::date::{bucket_key, parse_date, spec_bucket_key, spec_parse_date};
use crate::reduce::{mean_milli, mode_text, spec_mean, spec_mode};
use crate::select::{spec_text_col, SelectError};
use crate::text::str_eq;

/// The bucket of one row: the year-month of its date cell, or nothing when the
/// cell is missing or not a valid date.
pub open spec fn spec_key_of(cell: Option<Seq<char>>) -> Option<Seq<char>> {
    match cell {
        Some(s) => match spec_parse_date(s) {
            Some(d) => Some(spec_bucket_key(d)),
            None => None,
        },
        None => None,
    }
}

pub open spec fn spec_row_keys(dates: Seq<Option<Seq<char>>>) -> Seq<Option<Seq<char>>> {
    Seq::new(dates.len(), |j: int| spec_key_of(dates[j]))
}

pub open spec fn spec_some_mask<T>(keys: Seq<Option<T>>) -> Seq<bool> {
    Seq::new(keys.len(), |j: int| keys[j] is Some)
}

pub open spec fn spec_unwrap<T>(s: Seq<Option<T>>) -> Seq<T> {
    Seq::new(s.len(), |j: int| s[j]->Some_0)
}

/// The distinct values of a sequence, each at its first occurrence, in order.
pub open spec fn spec_first_seen(s: Seq<Seq<char>>) -> Seq<Seq<char>>
    decreases s.len(),
{
    if s.len() == 0 {
        Seq::<Seq<char>>::empty()
    } else {
        let p = spec_first_seen(s.take(s.len() - 1));
        if p.contains(s[s.len() - 1]) {
            p
        } else {
            p.push(s[s.len() - 1])
        }
    }
}

pub open spec fn spec_eq_mask(keys: Seq<Seq<char>>, k: Seq<char>) -> Seq<bool> {
    Seq::new(keys.len(), |j: int| keys[j] == k)
}

pub open spec fn spec_map_some(s: Seq<Seq<char>>) -> Seq<Option<Seq<char>>> {
    Seq::new(s.len(), |j: int| Some(s[j]))
}

/// Columns that survive aggregation: everything but the grouping columns and
/// the bucket column itself, in their original order, named by index.
pub open spec fn spec_keep_col(name: Seq<char>, loc: Seq<char>, date: Seq<char>) -> bool {
    name != loc && name != date && name != "Year-Month"@
}

pub open spec fn spec_kept_idx(cols: Seq<Column>, loc: Seq<char>, date: Seq<char>) -> Seq<int>
    decreases cols.len(),
{
    if cols.len() == 0 {
        Seq::<int>::empty()
    } else {
        let p = spec_kept_idx(cols.take(cols.len() - 1), loc, date);
        if spec_keep_col(cols[cols.len() - 1].name@, loc, date) {
            p.push(cols.len() - 1)
        } else {
            p
        }
    }
}

/// One aggregated column: per bucket, the mean of the numeric cells or the
/// mode of the text cells of the rows of that bucket.
pub open spec fn agg_col_ok(
    c: Column,
    d: Column,
    mask: Seq<bool>,
    fkeys: Seq<Seq<char>>,
    uniq: Seq<Seq<char>>,
) -> bool {
    d.name@ == c.name@ && match c.values {
        ColumnValues::Nums(a) => d.values matches ColumnValues::Nums(b) && b@.len() == uniq.len()
            && forall|bi: int|
            0 <= bi < uniq.len() ==> b@[bi] == spec_mean(
                spec_mask(spec_mask(a@, mask), spec_eq_mask(fkeys, uniq[bi])),
            ),
        ColumnValues::Texts(a) => d.values matches ColumnValues::Texts(b) && b@.len() == uniq.len()
            && forall|bi: int|
            0 <= bi < uniq.len() ==> b.deep_view()[bi] == spec_mode(
                spec_mask(spec_mask(a.deep_view(), mask), spec_eq_mask(fkeys, uniq[bi])),
            ),
    }
}

fn row_keys(dates: &Vec<Option<String>>) -> (r: Vec<Option<String>>)
    ensures
        r.deep_view() == spec_row_keys(dates.deep_view()),
        r@.len() == dates@.len(),
{
    let n = dates.len();
    let mut out: Vec<Option<String>> = Vec::new();
    let mut i: usize = 0;
    while i < n
        invariant
            i <= n,
            n == dates@.len(),
            dates.deep_view().len() == n,
            out@.len() == i,
            forall|j: int|
                0 <= j < i ==> out.deep_view()[j] == spec_key_of(dates.deep_view()[j]),
        decreases n - i,
    {
        let ghost oldd = out.deep_view();
        let k: Option<String> = match &dates[i] {
            Some(s) => match parse_date(s.as_str()) {
                Some(d) => Some(bucket_key(&d)),
                None => None,
            },
            None => None,
        };
        proof {
            assert(k.deep_view() == spec_key_of(dates.deep_view()[i as int]));
        }
        out.push(k);
        proof {
            assert(out.deep_view() =~= oldd.push(k.deep_view()));
        }
        i = i + 1;
    }
    proof {
        assert(out.deep_view() =~= spec_row_keys(dates.deep_view()));
    }
    out
}

fn some_mask(keys: &Vec<Option<String>>) -> (r: Vec<bool>)
    ensures
        r@ == spec_some_mask(keys.deep_view()),
{
    let n = keys.len();
    let mut out: Vec<bool> = Vec::new();
    let mut i: usize = 0;
    while i < n
        invariant
            i <= n,
            n == keys@.len(),
            keys.deep_view().len() == n,
            out@.len() == i,
            forall|j: int| 0 <= j < i ==> out@[j] == keys.deep_view()[j] is Some,
        decreases n - i,
    {
        let b = match &keys[i] {
            Some(_) => true,
            None => false,
        };
        out.push(b);
        i = i + 1;
    }
    proof {
        assert(out@ =~= spec_some_mask(keys.deep_view()));
    }
    out
}

proof fn lemma_masked_some<T>(keys: Seq<Option<T>>)
    ensures
        forall|j: int|
            0 <= j < spec_mask(keys, spec_some_mask(keys)).len() ==> spec_mask(
                keys,
                spec_some_mask(keys),
            )[j] is Some,
    decreases keys.len(),
{
    if keys.len() > 0 {
        let pre = keys.take(keys.len() - 1);
        lemma_masked_some(pre);
        assert(spec_some_mask(keys).take(keys.len() - 1) =~= spec_some_mask(pre));
        assert(spec_mask(keys, spec_some_mask(keys)) == spec_mask(pre, spec_some_mask(pre))
            + if spec_some_mask(keys)[keys.len() - 1] {
            seq![keys[keys.len() - 1]]
        } else {
            Seq::<Option<T>>::empty()
        });
    }
}

fn unwrap_all(v: &Vec<Option<String>>) -> (r: Vec<String>)
    requires
        forall|j: int| 0 <= j < v.deep_view().len() ==> v.deep_view()[j] is Some,
    ensures
        r.deep_view() == spec_unwrap(v.deep_view()),
        r@.len() == v@.len(),
{
    let n = v.len();
    let mut out: Vec<String> = Vec::new();
    let mut i: usize = 0;
    while i < n
        invariant
            i <= n,
            n == v@.len(),
            v.deep_view().len() == n,
            forall|j: int| 0 <= j < v.deep_view().len() ==> v.deep_view()[j] is Some,
            out@.len() == i,
            forall|j: int| 0 <= j < i ==> out.deep_view()[j] == v.deep_view()[j]->Some_0,
        decreases n - i,
    {
        let ghost oldd = out.deep_view();
        match &v[i] {
            Some(s) => {
                out.push(s.clone());
                proof {
                    assert(out.deep_view() =~= oldd.push(s@));
                }
            },
            None => {
                proof {
                    assert(v.deep_view()[i as int] is Some);
                    assert(false);
                }
            },
        }
        i = i + 1;
    }
    proof {
        assert(out.deep_view() =~= spec_unwrap(v.deep_view()));
    }
    out
}

fn contains_str(v: &Vec<String>, s: &String) -> (r: bool)
    ensures
        r == v.deep_view().contains(s@),
{
    let n = v.len();
    let mut i: usize = 0;
    while i < n
        invariant
            i <= n,
            n == v@.len(),
            v.deep_view().len() == n,
            forall|j: int| 0 <= j < i ==> v.deep_view()[j] != s@,
        decreases n - i,
    {
        if str_eq(v[i].as_str(), s.as_str()) {
            assert(v.deep_view()[i as int] == s@);
            return true;
        }
        i = i + 1;
    }
    false
}

fn first_seen(keys: &Vec<String>) -> (r: Vec<String>)
    ensures
        r.deep_view() == spec_first_seen(keys.deep_view()),
{
    let n = keys.len();
    let mut out: Vec<String> = Vec::new();
    let mut i: usize = 0;
    proof {
        assert(keys.deep_view().take(0) =~= Seq::<Seq<char>>::empty());
        assert(out.deep_view() =~= spec_first_seen(keys.deep_view().take(0)));
    }
    while i < n
        invariant
            i <= n,
            n == keys@.len(),
            keys.deep_view().len() == n,
            out.deep_view() == spec_first_seen(keys.deep_view().take(i as int)),
        decreases n - i,
    {
        let ghost post = keys.deep_view().take(i as int + 1);
        proof {
            assert(post.take(post.len() - 1) =~= keys.deep_view().take(i as int));
            assert(post[post.len() - 1] == keys.deep_view()[i as int]);
        }
        let ghost oldd = out.deep_view();
        if !contains_str(&out, &keys[i]) {
            out.push(keys[i].clone());
            proof {
                assert(out.deep_view() =~= oldd.push(keys.deep_view()[i as int]));
            }
        }
        i = i + 1;
    }
    proof {
        assert(keys.deep_view().take(n as int) =~= keys.deep_view());
    }
    out
}

fn eq_mask(keys: &Vec<String>, k: &String) -> (r: Vec<bool>)
    ensures
        r@ == spec_eq_mask(keys.deep_view(), k@),
{
    let n = keys.len();
    let mut out: Vec<bool> = Vec::new();
    let mut i: usize = 0;
    while i < n
        invariant
            i <= n,
            n == keys@.len(),
            keys.deep_view().len() == n,
            out@.len() == i,
            forall|j: int| 0 <= j < i ==> out@[j] == (keys.deep_view()[j] == k@),
        decreases n - i,
    {
        out.push(str_eq(keys[i].as_str(), k.as_str()));
        i = i + 1;
    }
    proof {
        assert(out@ =~= spec_eq_mask(keys.deep_view(), k@));
    }
    out
}

fn map_some(v: &Vec<String>) -> (r: Vec<Option<String>>)
    ensures
        r.deep_view() == spec_map_some(v.deep_view()),
        r@.len() == v@.len(),
{
    let n = v.len();
    let mut out: Vec<Option<String>> = Vec::new();
    let mut i: usize = 0;
    while i < n
        invariant
            i <= n,
            n == v@.len(),
            v.deep_view().len() == n,
            out@.len() == i,
            forall|j: int| 0 <= j < i ==> out.deep_view()[j] == Some(v.deep_view()[j]),
        decreases n - i,
    {
        let ghost oldd = out.deep_view();
        let cell: Option<String> = Some(v[i].clone());
        proof {
            assert(cell.deep_view() == Some(v.deep_view()[i as int]));
        }
        out.push(cell);
        proof {
            assert(out.deep_view() =~= oldd.push(cell.deep_view()));
        }
        i = i + 1;
    }
    proof {
        assert(out.deep_view() =~= spec_map_some(v.deep_view()));
    }
    out
}

fn agg_num_column(fv: &Vec<Option<i64>>, fkeys: &Vec<String>, uniq: &Vec<String>) -> (r: Vec<
    Option<i64>,
>)
    requires
        fv@.len() == fkeys@.len(),
    ensures
        r@.len() == uniq@.len(),
        forall|b: int|
            0 <= b < uniq@.len() ==> r@[b] == spec_mean(
                spec_mask(fv@, spec_eq_mask(fkeys.deep_view(), uniq.deep_view()[b])),
            ),
{
    let n = uniq.len();
    let mut out: Vec<Option<i64>> = Vec::new();
    let mut b: usize = 0;
    while b < n
        invariant
            b <= n,
            n == uniq@.len(),
            uniq.deep_view().len() == n,
            fv@.len() == fkeys@.len(),
            fkeys.deep_view().len() == fkeys@.len(),
            out@.len() == b,
            forall|k: int|
                0 <= k < b ==> out@[k] == spec_mean(
                    spec_mask(fv@, spec_eq_mask(fkeys.deep_view(), uniq.deep_view()[k])),
                ),
        decreases n - b,
    {
        let m = eq_mask(fkeys, &uniq[b]);
        let bucket = filter_nums(fv, &m);
        out.push(mean_milli(&bucket));
        b = b + 1;
    }
    out
}

fn agg_text_column(fv: &Vec<Option<String>>, fkeys: &Vec<String>, uniq: &Vec<String>) -> (r: Vec<
    Option<String>,
>)
    requires
        fv@.len() == fkeys@.len(),
    ensures
        r@.len() == uniq@.len(),
        forall|b: int|
            0 <= b < uniq@.len() ==> r.deep_view()[b] == spec_mode(
                spec_mask(fv.deep_view(), spec_eq_mask(fkeys.deep_view(), uniq.deep_view()[b])),
            ),
{
    let n = uniq.len();
    let mut out: Vec<Option<String>> = Vec::new();
    let mut b: usize = 0;
    while b < n
        invariant
            b <= n,
            n == uniq@.len(),
            uniq.deep_view().len() == n,
            fv@.len() == fkeys@.len(),
            fv.deep_view().len() == fv@.len(),
            fkeys.deep_view().len() == fkeys@.len(),
            out@.len() == b,
            forall|k: int|
                0 <= k < b ==> out.deep_view()[k] == spec_mode(
                    spec_mask(fv.deep_view(), spec_eq_mask(fkeys.deep_view(), uniq.deep_view()[k])),
                ),
        decreases n - b,
    {
        let ghost oldd = out.deep_view();
        let m = eq_mask(fkeys, &uniq[b]);
        let bucket = filter_texts(fv, &m);
        let cell = mode_text(&bucket);
        proof {
            assert(cell.deep_view() == spec_mode(
                spec_mask(fv.deep_view(), spec_eq_mask(fkeys.deep_view(), uniq.deep_view()[b as int])),
            ));
        }
        out.push(cell);
        proof {
            assert(out.deep_view() =~= oldd.push(cell.deep_view()));
        }
        b = b + 1;
    }
    out
}

/// Aggregate a dataset into one row per year-month bucket.
///
/// Rows whose date cell is missing or unparseable are dropped first. The
/// output holds the bucket keys (first-seen order) as a new `Year-Month`
/// column, then every column other than the location, date and bucket
/// columns, reduced per bucket: numeric columns by the mean of their non-null
/// cells, text columns by their mode with ties broken by first occurrence.
/// A dataset whose rows all drop yields an empty output, not an error.
pub fn aggregate_monthly(ds: &Dataset, location_col: &str, date_col: &str) -> (r: Result<
    Dataset,
    SelectError,
>)
    requires
        ds.well_formed(),
    ensures
        match r {
            Ok(out) => spec_text_col(*ds, date_col@) matches Some(dates) && {
                let keys0 = spec_row_keys(dates);
                let mask = spec_some_mask(keys0);
                let fkeys = spec_unwrap(spec_mask(keys0, mask));
                let uniq = spec_first_seen(fkeys);
                let kept = spec_kept_idx(ds.columns@, location_col@, date_col@);
                &&& out.well_formed()
                &&& out.spec_height() == uniq.len()
                &&& out.columns@.len() == 1 + kept.len()
                &&& out.columns@[0].name@ == "Year-Month"@
                &&& (out.columns@[0].values matches ColumnValues::Texts(v) && v.deep_view()
                    == spec_map_some(uniq))
                &&& forall|k: int|
                    0 <= k < kept.len() ==> agg_col_ok(
                        ds.columns@[kept[k]],
                        #[trigger] out.columns@[1 + k],
                        mask,
                        fkeys,
                        uniq,
                    )
            },
            Err(e) => e == SelectError::ColumnNotFound && spec_text_col(*ds, date_col@) is None,
        },
{
    let dates = match crate::select::text_column(ds, date_col) {
        Some(v) => v,
        None => {
            return Err(SelectError::ColumnNotFound);
        },
    };
    let keys0 = row_keys(dates);
    let mask = some_mask(&keys0);
    proof {
        assert(mask@.len() == keys0.deep_view().len());
    }
    let fds = filter_rows(ds, &mask);
    let fkeys_opt = filter_texts(&keys0, &mask);
    proof {
        lemma_masked_some(keys0.deep_view());
    }
    let fkeys = unwrap_all(&fkeys_opt);
    let uniq = first_seen(&fkeys);
    let ghost gdates = dates.deep_view();
    let ghost gkeys0 = spec_row_keys(gdates);
    let ghost gmask = spec_some_mask(gkeys0);
    let ghost gfkeys = spec_unwrap(spec_mask(gkeys0, gmask));
    let ghost guniq = spec_first_seen(gfkeys);
    proof {
        assert(fkeys.deep_view() == gfkeys);
        assert(uniq.deep_view() == guniq);
        lemma_mask_len(gkeys0, gmask);
    }
    let mut out_cols: Vec<Column> = Vec::new();
    let ym = map_some(&uniq);
    out_cols.push(
        Column { name: String::from_str("Year-Month"), values: ColumnValues::Texts(ym) },
    );
    let ncols = ds.columns.len();
    let mut j: usize = 0;
    proof {
        assert(ds.columns@.take(0) =~= Seq::<Column>::empty());
    }
    while j < ncols
        invariant
            j <= ncols,
            ncols == ds.columns@.len(),
            ds.well_formed(),
            fds.columns@.len() == ds.columns@.len(),
            forall|k: int|
                0 <= k < ds.columns@.len() ==> col_filtered(
                    ds.columns@[k],
                    #[trigger] fds.columns@[k],
                    gmask,
                ),
            gmask.len() == ds.spec_height(),
            fkeys@.len() == spec_count_true(gmask),
            fkeys.deep_view() == gfkeys,
            fkeys.deep_view().len() == fkeys@.len(),
            uniq.deep_view() == guniq,
            uniq@.len() == guniq.len(),
            out_cols@.len() == 1 + spec_kept_idx(ds.columns@.take(j as int), location_col@, date_col@).len(),
            out_cols@[0].name@ == "Year-Month"@,
            out_cols@[0].values matches ColumnValues::Texts(v) && v.deep_view() == spec_map_some(
                guniq,
            ),
            forall|k: int|
                0 <= k < out_cols@.len() ==> (#[trigger] out_cols@[k]).values.spec_len()
                    == guniq.len(),
            forall|k: int|
                0 <= k < spec_kept_idx(ds.columns@.take(j as int), location_col@, date_col@).len()
                    ==> agg_col_ok(
                    ds.columns@[spec_kept_idx(ds.columns@.take(j as int), location_col@, date_col@)[k]],
                    #[trigger] out_cols@[1 + k],
                    gmask,
                    gfkeys,
                    guniq,
                ),
        decreases ncols - j,
    {
        let ghost pre_kept = spec_kept_idx(ds.columns@.take(j as int), location_col@, date_col@);
        let ghost post_cols = ds.columns@.take(j as int + 1);
        proof {
            assert(post_cols.take(post_cols.len() - 1) =~= ds.columns@.take(j as int));
            assert(post_cols[post_cols.len() - 1] == ds.columns@[j as int]);
        }
        let c = &fds.columns[j];
        let keep = !str_eq(c.name.as_str(), location_col) && !str_eq(c.name.as_str(), date_col)
            && !str_eq(c.name.as_str(), "Year-Month");
        proof {
            assert(col_filtered(ds.columns@[j as int], fds.columns@[j as int], gmask));
            assert(c.name@ == ds.columns@[j as int].name@);
        }
        if keep {
            let vals: ColumnValues = match &c.values {
                ColumnValues::Nums(fv) => {
                    proof {
                        match ds.columns@[j as int].values {
                            ColumnValues::Nums(a) => {
                                lemma_mask_len(a@, gmask);
                            },
                            ColumnValues::Texts(_) => {
                                assert(false);
                            },
                        }
                    }
                    ColumnValues::Nums(agg_num_column(fv, &fkeys, &uniq))
                },
                ColumnValues::Texts(fv) => {
                    proof {
                        match ds.columns@[j as int].values {
                            ColumnValues::Texts(a) => {
                                lemma_mask_len(a.deep_view(), gmask);
                            },
                            ColumnValues::Nums(_) => {
                                assert(false);
                            },
                        }
                    }
                    ColumnValues::Texts(agg_text_column(fv, &fkeys, &uniq))
                },
            };
            out_cols.push(Column { name: c.name.clone(), values: vals });
            proof {
                assert(spec_kept_idx(post_cols, location_col@, date_col@) =~= pre_kept.push(
                    j as int,
                ));
                assert(agg_col_ok(
                    ds.columns@[j as int],
                    out_cols@[out_cols@.len() - 1],
                    gmask,
                    gfkeys,
                    guniq,
                ));
            }
        } else {
            proof {
                assert(spec_kept_idx(post_cols, location_col@, date_col@) =~= pre_kept);
            }
        }
        j = j + 1;
    }
    proof {
        assert(ds.columns@.take(ncols as int) =~= ds.columns@);
    }
    let out = Dataset { columns: out_cols };
    proof {
        assert(out.spec_height() == guniq.len());
    }
    Ok(out)
}

} // verus!
