use vstd::prelude::*;

verus! {

use crate::dataset::{Column, ColumnValues, Dataset};
use crate::num::{
    is_digit, lemma_digits_seq_digits, push_i64, push_u64, render_milli_onto, spec_digits_seq,
    spec_render_int, spec_render_milli,
};
use crate::text::{push_char, spec_split, split_str};

/// A numeric cell renders as its canonical milli form, a null cell as the
/// empty field.
pub open spec fn spec_render_num_cell(c: Option<i64>) -> Seq<char> {
    match c {
        Some(v) => spec_render_milli(v as int),
        None => Seq::<char>::empty(),
    }
}

pub open spec fn spec_cell_at(col: Column, i: int) -> Seq<char> {
    match col.values {
        ColumnValues::Nums(v) => spec_render_num_cell(v@[i]),
        ColumnValues::Texts(v) => match v.deep_view()[i] {
            Some(s) => s,
            None => Seq::<char>::empty(),
        },
    }
}

pub open spec fn spec_header_tail(cols: Seq<Column>, j: int) -> Seq<char>
    decreases cols.len() - j,
{
    if cols.len() <= j {
        Seq::<char>::empty()
    } else {
        seq![','] + cols[j].name@ + spec_header_tail(cols, j + 1)
    }
}

/// The header line: the column names, comma-separated.
pub open spec fn spec_render_header(cols: Seq<Column>) -> Seq<char> {
    if cols.len() == 0 {
        Seq::<char>::empty()
    } else {
        cols[0].name@ + spec_header_tail(cols, 1)
    }
}

pub open spec fn spec_row_tail(cols: Seq<Column>, j: int, i: int) -> Seq<char>
    decreases cols.len() - j,
{
    if cols.len() <= j {
        Seq::<char>::empty()
    } else {
        seq![','] + spec_cell_at(cols[j], i) + spec_row_tail(cols, j + 1, i)
    }
}

/// One data row: the cells of row `i`, comma-separated.
pub open spec fn spec_render_row(cols: Seq<Column>, i: int) -> Seq<char> {
    if cols.len() == 0 {
        Seq::<char>::empty()
    } else {
        spec_cell_at(cols[0], i) + spec_row_tail(cols, 1, i)
    }
}

pub open spec fn spec_render_rows_from(cols: Seq<Column>, i: int, h: int) -> Seq<char>
    decreases h - i,
{
    if h <= i {
        Seq::<char>::empty()
    } else {
        spec_render_row(cols, i) + seq!['\n'] + spec_render_rows_from(cols, i + 1, h)
    }
}

/// The delimited text table of a dataset: the header line, then one line per
/// row, each line ended by a newline.
pub open spec fn spec_render_table(ds: Dataset) -> Seq<char> {
    spec_render_header(ds.columns@) + seq!['\n'] + spec_render_rows_from(
        ds.columns@,
        0,
        ds.spec_height() as int,
    )
}

fn append_cell(s: &mut String, col: &Column, i: usize)
    requires
        i < col.values.spec_len(),
    ensures
        final(s)@ == old(s)@ + spec_cell_at(*col, i as int),
{
    let ghost pre = s@;
    match &col.values {
        ColumnValues::Nums(v) => match v[i] {
            Some(x) => {
                render_milli_onto(s, x);
            },
            None => {
                proof {
                    assert(pre + spec_cell_at(*col, i as int) =~= pre);
                }
            },
        },
        ColumnValues::Texts(v) => match &v[i] {
            Some(t) => {
                s.append(t.as_str());
                proof {
                    assert(v.deep_view()[i as int] == Some(t@));
                }
            },
            None => {
                proof {
                    assert(v.deep_view()[i as int] is None);
                    assert(pre + spec_cell_at(*col, i as int) =~= pre);
                }
            },
        },
    }
}

/// Serialize a dataset to the delimited prompt table: a header of column
/// names, then one comma-separated line per row, null cells rendered as empty
/// fields.
pub fn render_table(ds: &Dataset) -> (r: String)
    requires
        ds.well_formed(),
    ensures
        r@ == spec_render_table(*ds),
{
    let ghost cols = ds.columns@;
    let mut s = String::new();
    let ncols = ds.columns.len();
    if ncols > 0 {
        s.append(ds.columns[0].name.as_str());
        let mut j: usize = 1;
        proof {
            assert(spec_render_header(cols) == cols[0].name@ + spec_header_tail(cols, 1));
            assert(spec_render_header(cols) =~= s@ + spec_header_tail(cols, 1));
        }
        while j < ncols
            invariant
                1 <= j <= ncols,
                ncols == cols.len(),
                cols == ds.columns@,
                spec_render_header(cols) == s@ + spec_header_tail(cols, j as int),
            decreases ncols - j,
        {
            let ghost pre = s@;
            push_char(&mut s, ',');
            s.append(ds.columns[j].name.as_str());
            proof {
                assert(s@ =~= pre + (seq![','] + cols[j as int].name@));
                assert(pre + spec_header_tail(cols, j as int) =~= (pre + (seq![','] + cols[
                    j as int].name@)) + spec_header_tail(cols, j as int + 1));
            }
            j = j + 1;
        }
        proof {
            assert(spec_render_header(cols) =~= s@ + spec_header_tail(cols, ncols as int));
            assert(s@ + spec_header_tail(cols, ncols as int) =~= s@);
        }
    }
    push_char(&mut s, '\n');
    proof {
        assert(s@ =~= spec_render_header(cols) + seq!['\n']);
    }
    let h = ds.height();
    let mut i: usize = 0;
    proof {
        assert(spec_render_table(*ds) =~= s@ + spec_render_rows_from(cols, 0, h as int));
    }
    while i < h
        invariant
            i <= h,
            h == ds.spec_height(),
            ncols == cols.len(),
            cols == ds.columns@,
            ds.well_formed(),
            spec_render_table(*ds) == s@ + spec_render_rows_from(cols, i as int, h as int),
        decreases h - i,
    {
        let ghost rowpre = s@;
        if ncols > 0 {
            proof {
                assert(cols[0].values.spec_len() == ds.spec_height());
            }
            append_cell(&mut s, &ds.columns[0], i);
            proof {
                assert(rowpre + spec_render_row(cols, i as int) =~= s@ + spec_row_tail(
                    cols,
                    1,
                    i as int,
                ));
            }
            let mut j: usize = 1;
            while j < ncols
                invariant
                    1 <= j <= ncols,
                    ncols == cols.len(),
                    cols == ds.columns@,
                    ds.well_formed(),
                    i < h,
                    h == ds.spec_height(),
                    rowpre + spec_render_row(cols, i as int) == s@ + spec_row_tail(
                        cols,
                        j as int,
                        i as int,
                    ),
                decreases ncols - j,
            {
                let ghost pre = s@;
                push_char(&mut s, ',');
                proof {
                    assert(cols[j as int].values.spec_len() == ds.spec_height());
                }
                append_cell(&mut s, &ds.columns[j], i);
                proof {
                    assert(s@ =~= pre + (seq![','] + spec_cell_at(cols[j as int], i as int)));
                    assert(pre + spec_row_tail(cols, j as int, i as int) =~= s@ + spec_row_tail(
                        cols,
                        j as int + 1,
                        i as int,
                    ));
                }
                j = j + 1;
            }
            proof {
                assert(spec_row_tail(cols, ncols as int, i as int) =~= Seq::<char>::empty());
                assert(s@ =~= rowpre + spec_render_row(cols, i as int));
            }
        } else {
            proof {
                assert(spec_render_row(cols, i as int) =~= Seq::<char>::empty());
                assert(s@ =~= rowpre + spec_render_row(cols, i as int));
            }
        }
        push_char(&mut s, '\n');
        proof {
            assert(spec_render_rows_from(cols, i as int, h as int) == spec_render_row(
                cols,
                i as int,
            ) + seq!['\n'] + spec_render_rows_from(cols, i as int + 1, h as int));
            assert(s@ =~= rowpre + (spec_render_row(cols, i as int) + seq!['\n']));
            assert(rowpre + spec_render_rows_from(cols, i as int, h as int) =~= s@
                + spec_render_rows_from(cols, i as int + 1, h as int));
        }
        i = i + 1;
    }
    proof {
        assert(spec_render_rows_from(cols, h as int, h as int) =~= Seq::<char>::empty());
        assert(s@ + spec_render_rows_from(cols, h as int, h as int) =~= s@);
    }
    s
}

/// How many data rows a rendered table reports: its newline-separated fields,
/// minus the header field and the empty field after the final newline.
pub open spec fn spec_table_rows(s: Seq<char>) -> int {
    let f = spec_split(s, '\n').len();
    if f >= 2 {
        f - 2
    } else {
        0
    }
}

/// Re-parse a rendered table for its data row count.
pub fn table_row_count(text: &str) -> (r: usize)
    ensures
        r as int == spec_table_rows(text@),
{
    let fields = split_str(text, '\n');
    if fields.len() >= 2 {
        fields.len() - 2
    } else {
        0
    }
}

pub open spec fn newline_free(s: Seq<char>) -> bool {
    forall|j: int| 0 <= j < s.len() ==> s[j] != '\n'
}

pub open spec fn cell_newline_free(c: Option<Seq<char>>) -> bool {
    match c {
        Some(s) => newline_free(s),
        None => true,
    }
}

pub open spec fn col_newline_free(c: Column) -> bool {
    newline_free(c.name@) && match c.values {
        ColumnValues::Nums(_) => true,
        ColumnValues::Texts(v) => forall|i: int|
            0 <= i < v.deep_view().len() ==> cell_newline_free(#[trigger] v.deep_view()[i]),
    }
}

/// No column name and no text cell of the dataset contains a newline.
pub open spec fn table_newline_free(ds: Dataset) -> bool {
    forall|j: int| 0 <= j < ds.columns@.len() ==> col_newline_free(#[trigger] ds.columns@[j])
}

proof fn lemma_digits_clean(n: nat)
    ensures
        newline_free(spec_digits_seq(n)),
{
    lemma_digits_seq_digits(n);
    assert forall|j: int| 0 <= j < spec_digits_seq(n).len() implies spec_digits_seq(n)[j]
        != '\n' by {
        assert(is_digit(spec_digits_seq(n)[j]));
    }
}

proof fn lemma_render_milli_clean(v: int)
    ensures
        newline_free(spec_render_milli(v)),
{
    let mag = if v < 0 {
        -v
    } else {
        v
    };
    lemma_digits_clean((mag / 1000) as nat);
}

proof fn lemma_cell_clean(col: Column, i: int)
    requires
        col_newline_free(col),
        0 <= i < col.values.spec_len(),
    ensures
        newline_free(spec_cell_at(col, i)),
{
    match col.values {
        ColumnValues::Nums(v) => {
            match v@[i] {
                Some(x) => {
                    lemma_render_milli_clean(x as int);
                },
                None => {},
            }
        },
        ColumnValues::Texts(v) => {
            assert(cell_newline_free(v.deep_view()[i]));
        },
    }
}

proof fn lemma_header_tail_clean(cols: Seq<Column>, j: int)
    requires
        forall|k: int| 0 <= k < cols.len() ==> newline_free((#[trigger] cols[k]).name@),
        0 <= j,
    ensures
        newline_free(spec_header_tail(cols, j)),
    decreases cols.len() - j,
{
    if cols.len() <= j {
    } else {
        lemma_header_tail_clean(cols, j + 1);
    }
}

proof fn lemma_row_tail_clean(ds: Dataset, j: int, i: int)
    requires
        ds.well_formed(),
        table_newline_free(ds),
        0 <= i < ds.spec_height(),
        0 <= j,
    ensures
        newline_free(spec_row_tail(ds.columns@, j, i)),
    decreases ds.columns@.len() - j,
{
    if ds.columns@.len() <= j {
    } else {
        lemma_cell_clean(ds.columns@[j], i);
        lemma_row_tail_clean(ds, j + 1, i);
    }
}

proof fn lemma_row_clean(ds: Dataset, i: int)
    requires
        ds.well_formed(),
        table_newline_free(ds),
        0 <= i < ds.spec_height(),
    ensures
        newline_free(spec_render_row(ds.columns@, i)),
{
    if ds.columns@.len() > 0 {
        lemma_cell_clean(ds.columns@[0], i);
        lemma_row_tail_clean(ds, 1, i);
    }
}

proof fn lemma_split_concat(a: Seq<char>, b: Seq<char>)
    requires
        newline_free(a),
    ensures
        spec_split(a + seq!['\n'] + b, '\n') == seq![a] + spec_split(b, '\n'),
    decreases a.len(),
{
    let s = a + seq!['\n'] + b;
    if a.len() == 0 {
        assert(s[0] == '\n');
        assert(s.skip(1) =~= b);
        assert(a =~= Seq::<char>::empty());
        assert(spec_split(s, '\n') =~= seq![a] + spec_split(b, '\n'));
    } else {
        assert(s[0] == a[0]);
        assert(s[0] != '\n');
        lemma_split_concat(a.skip(1), b);
        assert(s.skip(1) =~= a.skip(1) + seq!['\n'] + b);
        let rest = spec_split(s.skip(1), '\n');
        assert(rest == seq![a.skip(1)] + spec_split(b, '\n'));
        assert(rest[0] == a.skip(1));
        assert(seq![s[0]] + rest[0] =~= a);
        assert(rest.skip(1) =~= spec_split(b, '\n'));
        assert(spec_split(s, '\n') =~= seq![a] + spec_split(b, '\n'));
    }
}

proof fn lemma_rows_split(ds: Dataset, i: int, h: int)
    requires
        ds.well_formed(),
        table_newline_free(ds),
        0 <= i <= h,
        h == ds.spec_height(),
    ensures
        spec_split(spec_render_rows_from(ds.columns@, i, h), '\n').len() == h - i + 1,
    decreases h - i,
{
    if i == h {
        assert(spec_render_rows_from(ds.columns@, i, h) =~= Seq::<char>::empty());
    } else {
        lemma_row_clean(ds, i);
        lemma_rows_split(ds, i + 1, h);
        let row = spec_render_row(ds.columns@, i);
        let rest = spec_render_rows_from(ds.columns@, i + 1, h);
        assert(spec_render_rows_from(ds.columns@, i, h) =~= row + seq!['\n'] + rest);
        lemma_split_concat(row, rest);
    }
}

/// Rendering a dataset to the delimited prompt table and re-parsing the text
/// for its row count gives back exactly the dataset's row count, whatever the
/// data, provided no column name or text cell carries a newline of its own.
pub proof fn lemma_table_round_trip(ds: Dataset)
    requires
        ds.well_formed(),
        table_newline_free(ds),
    ensures
        spec_table_rows(spec_render_table(ds)) == ds.spec_height(),
{
    let cols = ds.columns@;
    let h = ds.spec_height() as int;
    let header = spec_render_header(cols);
    if cols.len() == 0 {
        assert(newline_free(header));
    } else {
        lemma_header_tail_clean(cols, 1);
        assert forall|k: int| 0 <= k < cols.len() implies newline_free(
            (#[trigger] cols[k]).name@,
        ) by {
            assert(col_newline_free(cols[k]));
        }
        assert(newline_free(header));
    }
    lemma_rows_split(ds, 0, h);
    lemma_split_concat(header, spec_render_rows_from(cols, 0, h));
    assert(spec_render_table(ds) =~= header + seq!['\n'] + spec_render_rows_from(cols, 0, h));
}

/// The prompt of the monthly pipeline: a preamble naming the location and the
/// month, then the rendered table.
pub open spec fn spec_monthly_prompt(
    city: Seq<char>,
    year: i32,
    month: u32,
    table: Seq<char>,
) -> Seq<char> {
    "Below is the weather data for "@ + city + " during "@ + spec_render_int(month as int) + seq![
        '/',
    ] + spec_render_int(year as int) + ":\n\n"@ + table
}

pub fn monthly_prompt(city: &str, year: i32, month: u32, ds: &Dataset) -> (r: String)
    requires
        ds.well_formed(),
    ensures
        r@ == spec_monthly_prompt(city@, year, month, spec_render_table(*ds)),
{
    let mut s = String::from_str("Below is the weather data for ");
    s.append(city);
    s.append(" during ");
    push_u64(&mut s, month as u64);
    push_char(&mut s, '/');
    push_i64(&mut s, year as i64);
    s.append(":\n\n");
    let table = render_table(ds);
    s.append(table.as_str());
    proof {
        assert(s@ =~= spec_monthly_prompt(city@, year, month, spec_render_table(*ds)));
    }
    s
}

/// The prompt of the location pipeline: a preamble naming the location, then
/// the rendered table.
pub open spec fn spec_location_prompt(city: Seq<char>, table: Seq<char>) -> Seq<char> {
    "Below is the weather data for "@ + city + ":\n\n"@ + table
}

pub fn location_prompt(city: &str, ds: &Dataset) -> (r: String)
    requires
        ds.well_formed(),
    ensures
        r@ == spec_location_prompt(city@, spec_render_table(*ds)),
{
    let mut s = String::from_str("Below is the weather data for ");
    s.append(city);
    s.append(":\n\n");
    let table = render_table(ds);
    s.append(table.as_str());
    proof {
        assert(s@ =~= spec_location_prompt(city@, spec_render_table(*ds)));
    }
    s
}

/// The terminal notice when a selection has no rows: no prompt is built and
/// the completion service must not be called.
pub open spec fn spec_no_data_message(city: Seq<char>) -> Seq<char> {
    "No data available for "@ + city + seq!['.']
}

pub fn no_data_message(city: &str) -> (r: String)
    ensures
        r@ == spec_no_data_message(city@),
{
    let mut s = String::from_str("No data available for ");
    s.append(city);
    push_char(&mut s, '.');
    proof {
        assert(s@ =~= spec_no_data_message(city@));
    }
    s
}

/// The terminal notice of the monthly pipeline, naming the month and year.
pub open spec fn spec_no_data_month_message(city: Seq<char>, year: i32, month: u32) -> Seq<char> {
    "No data available for "@ + city + " in "@ + spec_render_int(month as int) + seq!['/']
        + spec_render_int(year as int) + seq!['.']
}

pub fn no_data_month_message(city: &str, year: i32, month: u32) -> (r: String)
    ensures
        r@ == spec_no_data_month_message(city@, year, month),
{
    let mut s = String::from_str("No data available for ");
    s.append(city);
    s.append(" in ");
    push_u64(&mut s, month as u64);
    push_char(&mut s, '/');
    push_i64(&mut s, year as i64);
    push_char(&mut s, '.');
    proof {
        assert(s@ =~= spec_no_data_month_message(city@, year, month));
    }
    s
}

} // verus!
