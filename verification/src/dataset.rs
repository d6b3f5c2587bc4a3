use vstd::prelude::*;

verus! {

use crate::text::str_eq;

/// One typed column of nullable cells: numeric cells hold fixed-point milli
/// values, text cells hold strings.
pub enum ColumnValues {
    Nums(Vec<Option<i64>>),
    Texts(Vec<Option<String>>),
}

pub struct Column {
    pub name: String,
    pub values: ColumnValues,
}

/// An in-memory table: named, typed columns of equal length.
pub struct Dataset {
    pub columns: Vec<Column>,
}

impl ColumnValues {
    pub open spec fn spec_len(&self) -> nat {
        match self {
            ColumnValues::Nums(v) => v@.len(),
            ColumnValues::Texts(v) => v@.len(),
        }
    }

    pub fn len(&self) -> (r: usize)
        ensures
            r == self.spec_len(),
    {
        match self {
            ColumnValues::Nums(v) => v.len(),
            ColumnValues::Texts(v) => v.len(),
        }
    }
}

impl Dataset {
    /// Number of rows: the length of the first column, zero when there are no
    /// columns at all.
    pub open spec fn spec_height(&self) -> nat {
        if self.columns@.len() == 0 {
            0
        } else {
            self.columns@[0].values.spec_len()
        }
    }

    /// Every column has as many cells as every other.
    pub open spec fn well_formed(&self) -> bool {
        forall|j: int|
            0 <= j < self.columns@.len() ==> (#[trigger] self.columns@[j]).values.spec_len()
                == self.spec_height()
    }

    pub fn height(&self) -> (r: usize)
        ensures
            r == self.spec_height(),
    {
        if self.columns.len() == 0 {
            0
        } else {
            self.columns[0].values.len()
        }
    }

    /// The first column with the given name, scanning from `i`.
    pub open spec fn spec_find_from(&self, name: Seq<char>, i: nat) -> Option<int>
        decreases self.columns@.len() - i,
    {
        if i >= self.columns@.len() {
            None
        } else if self.columns@[i as int].name@ == name {
            Some(i as int)
        } else {
            self.spec_find_from(name, i + 1)
        }
    }

    /// The first column with the given name, if any.
    pub open spec fn spec_find(&self, name: Seq<char>) -> Option<int> {
        self.spec_find_from(name, 0)
    }

    pub proof fn lemma_find_from_range(&self, name: Seq<char>, i: nat)
        ensures
            self.spec_find_from(name, i) matches Some(j) ==> i <= j < self.columns@.len()
                && self.columns@[j].name@ == name,
        decreases self.columns@.len() - i,
    {
        if i >= self.columns@.len() {
        } else if self.columns@[i as int].name@ == name {
        } else {
            self.lemma_find_from_range(name, i + 1);
        }
    }

    pub proof fn lemma_find_range(&self, name: Seq<char>)
        ensures
            self.spec_find(name) matches Some(j) ==> 0 <= j < self.columns@.len()
                && self.columns@[j].name@ == name,
    {
        self.lemma_find_from_range(name, 0);
    }

    pub fn find_column(&self, name: &str) -> (r: Option<usize>)
        ensures
            match r {
                Some(j) => self.spec_find(name@) == Some(j as int),
                None => self.spec_find(name@) is None,
            },
    {
        let n = self.columns.len();
        let mut j: usize = 0;
        while j < n
            invariant
                j <= n,
                n == self.columns@.len(),
                self.spec_find(name@) == self.spec_find_from(name@, j as nat),
            decreases n - j,
        {
            if str_eq(self.columns[j].name.as_str(), name) {
                return Some(j);
            }
            j = j + 1;
        }
        None
    }
}

/// Keep the entries whose row is marked in the mask, in order.
pub open spec fn spec_mask<T>(v: Seq<T>, mask: Seq<bool>) -> Seq<T>
    decreases v.len(),
{
    if v.len() == 0 {
        Seq::<T>::empty()
    } else {
        spec_mask(v.take(v.len() - 1), mask.take(mask.len() - 1)) + if mask[v.len() - 1] {
            seq![v[v.len() - 1]]
        } else {
            Seq::<T>::empty()
        }
    }
}

pub open spec fn spec_count_true(mask: Seq<bool>) -> int
    decreases mask.len(),
{
    if mask.len() == 0 {
        0
    } else {
        spec_count_true(mask.take(mask.len() - 1)) + if mask[mask.len() - 1] {
            1int
        } else {
            0int
        }
    }
}

pub proof fn lemma_mask_len<T>(v: Seq<T>, mask: Seq<bool>)
    requires
        v.len() == mask.len(),
    ensures
        spec_mask(v, mask).len() == spec_count_true(mask),
        spec_count_true(mask) >= 0,
    decreases v.len(),
{
    if v.len() > 0 {
        lemma_mask_len(v.take(v.len() - 1), mask.take(mask.len() - 1));
    }
}

pub proof fn lemma_count_true_pos(mask: Seq<bool>, j: int)
    requires
        0 <= j < mask.len(),
        mask[j],
    ensures
        spec_count_true(mask) >= 1,
    decreases mask.len(),
{
    if j < mask.len() - 1 {
        lemma_count_true_pos(mask.take(mask.len() - 1), j);
        lemma_count_true_nonneg(mask.take(mask.len() - 1));
    } else {
        lemma_count_true_nonneg(mask.take(mask.len() - 1));
    }
}

pub proof fn lemma_count_true_exists(mask: Seq<bool>)
    requires
        spec_count_true(mask) > 0,
    ensures
        exists|j: int| 0 <= j < mask.len() && mask[j],
    decreases mask.len(),
{
    if mask.len() > 0 {
        if mask[mask.len() - 1] {
        } else {
            lemma_count_true_exists(mask.take(mask.len() - 1));
            let pre = mask.take(mask.len() - 1);
            let j = choose|j: int| 0 <= j < pre.len() && #[trigger] pre[j];
            assert(mask[j]);
        }
    }
}

pub proof fn lemma_count_true_nonneg(mask: Seq<bool>)
    ensures
        spec_count_true(mask) >= 0,
    decreases mask.len(),
{
    if mask.len() > 0 {
        lemma_count_true_nonneg(mask.take(mask.len() - 1));
    }
}

pub(crate) fn filter_nums(v: &Vec<Option<i64>>, mask: &Vec<bool>) -> (r: Vec<Option<i64>>)
    requires
        v@.len() == mask@.len(),
    ensures
        r@ == spec_mask(v@, mask@),
{
    let n = v.len();
    let mut out: Vec<Option<i64>> = Vec::new();
    let mut i: usize = 0;
    proof {
        assert(out@ =~= spec_mask(v@.take(0), mask@.take(0)));
    }
    while i < n
        invariant
            i <= n,
            n == v@.len(),
            n == mask@.len(),
            out@ == spec_mask(v@.take(i as int), mask@.take(i as int)),
        decreases n - i,
    {
        let ghost post_v = v@.take(i as int + 1);
        let ghost post_m = mask@.take(i as int + 1);
        proof {
            assert(post_v.take(post_v.len() - 1) =~= v@.take(i as int));
            assert(post_m.take(post_m.len() - 1) =~= mask@.take(i as int));
            assert(post_v[post_v.len() - 1] == v@[i as int]);
            assert(post_m[post_v.len() - 1] == mask@[i as int]);
        }
        if mask[i] {
            out.push(v[i]);
            proof {
                assert(out@ =~= spec_mask(post_v, post_m));
            }
        } else {
            proof {
                assert(out@ =~= spec_mask(post_v, post_m));
            }
        }
        i = i + 1;
    }
    proof {
        assert(v@.take(n as int) =~= v@);
        assert(mask@.take(n as int) =~= mask@);
    }
    out
}

pub(crate) fn filter_texts(v: &Vec<Option<String>>, mask: &Vec<bool>) -> (r: Vec<Option<String>>)
    requires
        v@.len() == mask@.len(),
    ensures
        r.deep_view() == spec_mask(v.deep_view(), mask@),
        r@.len() == spec_mask(v.deep_view(), mask@).len(),
{
    let n = v.len();
    let mut out: Vec<Option<String>> = Vec::new();
    let mut i: usize = 0;
    proof {
        assert(out.deep_view() =~= spec_mask(v.deep_view().take(0), mask@.take(0)));
    }
    while i < n
        invariant
            i <= n,
            n == v@.len(),
            n == mask@.len(),
            v.deep_view().len() == n,
            out.deep_view() == spec_mask(v.deep_view().take(i as int), mask@.take(i as int)),
        decreases n - i,
    {
        let ghost post_v = v.deep_view().take(i as int + 1);
        let ghost post_m = mask@.take(i as int + 1);
        let ghost oldd = out.deep_view();
        proof {
            assert(post_v.take(post_v.len() - 1) =~= v.deep_view().take(i as int));
            assert(post_m.take(post_m.len() - 1) =~= mask@.take(i as int));
            assert(post_v[post_v.len() - 1] == v.deep_view()[i as int]);
            assert(post_m[post_v.len() - 1] == mask@[i as int]);
        }
        if mask[i] {
            let cell: Option<String> = match &v[i] {
                Some(s) => Some(s.clone()),
                None => None,
            };
            proof {
                assert(cell.deep_view() == v.deep_view()[i as int]);
            }
            out.push(cell);
            proof {
                assert(out.deep_view() =~= oldd.push(v.deep_view()[i as int]));
                assert(out.deep_view() =~= spec_mask(post_v, post_m));
            }
        } else {
            proof {
                assert(out.deep_view() =~= spec_mask(post_v, post_m));
            }
        }
        i = i + 1;
    }
    proof {
        assert(v.deep_view().take(n as int) =~= v.deep_view());
        assert(mask@.take(n as int) =~= mask@);
    }
    out
}

/// One output column is the masked copy of one input column.
pub open spec fn col_filtered(c: Column, d: Column, mask: Seq<bool>) -> bool {
    d.name@ == c.name@ && match c.values {
        ColumnValues::Nums(a) => d.values matches ColumnValues::Nums(b) && b@ == spec_mask(
            a@,
            mask,
        ),
        ColumnValues::Texts(a) => d.values matches ColumnValues::Texts(b) && b.deep_view()
            == spec_mask(a.deep_view(), mask),
    }
}

/// A new dataset with the same schema and only the rows the mask marks,
/// their relative order kept. The source dataset is left as it is.
pub fn filter_rows(ds: &Dataset, mask: &Vec<bool>) -> (r: Dataset)
    requires
        ds.well_formed(),
        mask@.len() == ds.spec_height(),
    ensures
        r.well_formed(),
        r.columns@.len() == ds.columns@.len(),
        forall|j: int|
            0 <= j < ds.columns@.len() ==> col_filtered(
                ds.columns@[j],
                #[trigger] r.columns@[j],
                mask@,
            ),
        r.spec_height() == if ds.columns@.len() == 0 {
            0int
        } else {
            spec_count_true(mask@)
        },
{
    let ncols = ds.columns.len();
    let mut out: Vec<Column> = Vec::new();
    let mut j: usize = 0;
    while j < ncols
        invariant
            j <= ncols,
            ncols == ds.columns@.len(),
            ds.well_formed(),
            mask@.len() == ds.spec_height(),
            out@.len() == j,
            forall|k: int|
                0 <= k < j ==> col_filtered(ds.columns@[k], #[trigger] out@[k], mask@),
            forall|k: int|
                0 <= k < j ==> (#[trigger] out@[k]).values.spec_len() == spec_count_true(mask@),
        decreases ncols - j,
    {
        let c = &ds.columns[j];
        let name = c.name.clone();
        let values = match &c.values {
            ColumnValues::Nums(v) => {
                proof {
                    lemma_mask_len(v@, mask@);
                }
                ColumnValues::Nums(filter_nums(v, mask))
            },
            ColumnValues::Texts(v) => {
                proof {
                    lemma_mask_len(v.deep_view(), mask@);
                }
                ColumnValues::Texts(filter_texts(v, mask))
            },
        };
        out.push(Column { name, values });
        j = j + 1;
    }
    let r = Dataset { columns: out };
    proof {
        if ds.columns@.len() > 0 {
            assert(r.columns@[0].values.spec_len() == spec_count_true(mask@));
            lemma_count_true_nonneg(mask@);
        }
    }
    r
}

} // verus!
