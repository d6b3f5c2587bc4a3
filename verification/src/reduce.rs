use vstd::prelude::*;

verus! {

use vstd::arithmetic::div_mod::{lemma_div_is_ordered, lemma_div_multiples_vanish};
use crate::text::str_eq;

/// The non-null values of a column slice, in row order.
pub open spec fn spec_present<T>(s: Seq<Option<T>>) -> Seq<T>
    decreases s.len(),
{
    if s.len() == 0 {
        Seq::<T>::empty()
    } else {
        spec_present(s.take(s.len() - 1)) + match s[s.len() - 1] {
            Some(v) => seq![v],
            None => Seq::<T>::empty(),
        }
    }
}

pub open spec fn spec_sum(s: Seq<i64>) -> int
    decreases s.len(),
{
    if s.len() == 0 {
        0
    } else {
        spec_sum(s.take(s.len() - 1)) + s[s.len() - 1]
    }
}

/// Division that rounds towards zero, for a positive divisor.
pub open spec fn spec_trunc_div(a: int, b: int) -> int {
    if a >= 0 {
        a / b
    } else {
        -((-a) / b)
    }
}

/// The arithmetic mean of the non-null values, rounded towards zero; a slice
/// with no value at all has no mean.
pub open spec fn spec_mean(s: Seq<Option<i64>>) -> Option<i64> {
    let p = spec_present(s);
    if p.len() == 0 {
        None
    } else {
        Some(spec_trunc_div(spec_sum(p), p.len() as int) as i64)
    }
}

/// The mean reducer never invents a value: a slice of nulls only, however
/// long, yields null.
pub proof fn lemma_mean_all_null(s: Seq<Option<i64>>)
    requires
        forall|j: int| 0 <= j < s.len() ==> s[j] is None,
    ensures
        spec_mean(s) is None,
    decreases s.len(),
{
    lemma_present_all_null(s);
}

proof fn lemma_present_all_null<T>(s: Seq<Option<T>>)
    requires
        forall|j: int| 0 <= j < s.len() ==> s[j] is None,
    ensures
        spec_present(s).len() == 0,
    decreases s.len(),
{
    if s.len() > 0 {
        let pre = s.take(s.len() - 1);
        lemma_present_all_null(pre);
        assert(spec_present(s) =~= spec_present(pre));
    }
}

/// The mean of the non-null cells, in milli, rounded towards zero.
pub fn mean_milli(cells: &Vec<Option<i64>>) -> (r: Option<i64>)
    ensures
        r == spec_mean(cells@),
{
    let n = cells.len();
    let mut sum: i128 = 0;
    let mut cnt: usize = 0;
    let mut i: usize = 0;
    proof {
        assert(cells@.take(0) =~= Seq::<Option<i64>>::empty());
    }
    while i < n
        invariant
            i <= n,
            n == cells@.len(),
            cnt <= i,
            cnt as int == spec_present(cells@.take(i as int)).len(),
            sum == spec_sum(spec_present(cells@.take(i as int))),
            -(cnt as int) * 0x8000000000000000 <= sum <= (cnt as int) * 0x7fffffffffffffff,
        decreases n - i,
    {
        let ghost pre = spec_present(cells@.take(i as int));
        let ghost post = cells@.take(i as int + 1);
        proof {
            assert(post.take(post.len() - 1) =~= cells@.take(i as int));
            assert(post[post.len() - 1] == cells@[i as int]);
        }
        match cells[i] {
            Some(v) => {
                proof {
                    assert(spec_present(post) =~= pre.push(v));
                    assert(spec_present(post).take(spec_present(post).len() - 1) =~= pre);
                    assert((cnt as int + 1) * 0x8000000000000000 == (cnt as int)
                        * 0x8000000000000000 + 0x8000000000000000) by (nonlinear_arith);
                    assert((cnt as int + 1) * 0x7fffffffffffffff == (cnt as int)
                        * 0x7fffffffffffffff + 0x7fffffffffffffff) by (nonlinear_arith);
                    assert((cnt as int) * 0x8000000000000000 <= 0xffffffffffffffff
                        * 0x8000000000000000) by (nonlinear_arith)
                        requires
                            0 <= cnt as int <= 0xffffffffffffffff,
                    ;
                    assert((cnt as int) * 0x7fffffffffffffff <= 0xffffffffffffffff
                        * 0x7fffffffffffffff) by (nonlinear_arith)
                        requires
                            0 <= cnt as int <= 0xffffffffffffffff,
                    ;
                }
                sum = sum + v as i128;
                cnt = cnt + 1;
            },
            None => {
                proof {
                    assert(spec_present(post) =~= pre);
                }
            },
        }
        i = i + 1;
    }
    proof {
        assert(cells@.take(n as int) =~= cells@);
    }
    if cnt == 0 {
        None
    } else {
        let ghost p = spec_present(cells@);
        let neg = sum < 0;
        let mag: u128 = if neg {
            (-sum) as u128
        } else {
            sum as u128
        };
        let q: u128 = mag / (cnt as u128);
        proof {
            if neg {
                lemma_div_is_ordered(mag as int, (cnt as int) * 0x8000000000000000, cnt as int);
                lemma_div_multiples_vanish(0x8000000000000000, cnt as int);
                assert((cnt as int) * 0x8000000000000000 == 0x8000000000000000 * (cnt as int))
                    by (nonlinear_arith);
            } else {
                lemma_div_is_ordered(mag as int, (cnt as int) * 0x7fffffffffffffff, cnt as int);
                lemma_div_multiples_vanish(0x7fffffffffffffff, cnt as int);
                assert((cnt as int) * 0x7fffffffffffffff == 0x7fffffffffffffff * (cnt as int))
                    by (nonlinear_arith);
            }
        }
        let r: i64 = if neg {
            (-(q as i128)) as i64
        } else {
            q as i64
        };
        Some(r)
    }
}

/// How often a value occurs in a slice.
pub open spec fn count_in(s: Seq<Seq<char>>, v: Seq<char>) -> int
    decreases s.len(),
{
    if s.len() == 0 {
        0
    } else {
        count_in(s.take(s.len() - 1), v) + if s[s.len() - 1] == v {
            1int
        } else {
            0int
        }
    }
}

/// The index of the most frequent value among the first `n`, the earliest
/// index winning ties.
pub open spec fn best_idx(p: Seq<Seq<char>>, n: int) -> int
    decreases n,
{
    if n <= 1 {
        0
    } else {
        let b = best_idx(p, n - 1);
        if count_in(p, p[n - 1]) > count_in(p, p[b]) {
            n - 1
        } else {
            b
        }
    }
}

pub proof fn lemma_best_idx_range(p: Seq<Seq<char>>, n: int)
    requires
        n >= 1,
    ensures
        0 <= best_idx(p, n) < n,
    decreases n,
{
    if n > 1 {
        lemma_best_idx_range(p, n - 1);
    }
}

/// The mode of the non-null values: the most frequent one, ties broken by
/// first occurrence in row order; a slice with no value has no mode.
pub open spec fn spec_mode(s: Seq<Option<Seq<char>>>) -> Option<Seq<char>> {
    let p = spec_present(s);
    if p.len() == 0 {
        None
    } else {
        Some(p[best_idx(p, p.len() as int)])
    }
}

fn count_matches(p: &Vec<String>, v: &String) -> (r: usize)
    ensures
        r as int == count_in(p.deep_view(), v@),
{
    let n = p.len();
    let mut r: usize = 0;
    let mut j: usize = 0;
    proof {
        assert(p.deep_view().take(0) =~= Seq::<Seq<char>>::empty());
    }
    while j < n
        invariant
            j <= n,
            n == p@.len(),
            p.deep_view().len() == p@.len(),
            r as int == count_in(p.deep_view().take(j as int), v@),
            r <= j,
        decreases n - j,
    {
        let ghost post = p.deep_view().take(j as int + 1);
        proof {
            assert(post.take(post.len() - 1) =~= p.deep_view().take(j as int));
            assert(post[post.len() - 1] == p.deep_view()[j as int]);
        }
        if str_eq(p[j].as_str(), v.as_str()) {
            r = r + 1;
        }
        j = j + 1;
    }
    proof {
        assert(p.deep_view().take(n as int) =~= p.deep_view());
    }
    r
}

/// The mode of the non-null cells of a text column slice.
pub fn mode_text(cells: &Vec<Option<String>>) -> (r: Option<String>)
    ensures
        r.deep_view() == spec_mode(cells.deep_view()),
{
    let n = cells.len();
    let mut p: Vec<String> = Vec::new();
    let mut i: usize = 0;
    proof {
        assert(cells.deep_view().take(0) =~= Seq::<Option<Seq<char>>>::empty());
        assert(p.deep_view() =~= spec_present(cells.deep_view().take(0)));
    }
    while i < n
        invariant
            i <= n,
            n == cells@.len(),
            cells.deep_view().len() == cells@.len(),
            p.deep_view() == spec_present(cells.deep_view().take(i as int)),
        decreases n - i,
    {
        let ghost pre = spec_present(cells.deep_view().take(i as int));
        let ghost post = cells.deep_view().take(i as int + 1);
        proof {
            assert(post.take(post.len() - 1) =~= cells.deep_view().take(i as int));
            assert(post[post.len() - 1] == cells.deep_view()[i as int]);
        }
        match &cells[i] {
            Some(s) => {
                let ghost oldp = p.deep_view();
                p.push(s.clone());
                proof {
                    assert(p.deep_view() =~= oldp.push(s@));
                    assert(spec_present(post) =~= pre.push(s@));
                }
            },
            None => {
                proof {
                    assert(spec_present(post) =~= pre);
                }
            },
        }
        i = i + 1;
    }
    proof {
        assert(cells.deep_view().take(n as int) =~= cells.deep_view());
    }
    if p.len() == 0 {
        return None;
    }
    let m = p.len();
    let mut best: usize = 0;
    let mut j: usize = 1;
    while j < m
        invariant
            1 <= j <= m,
            m == p@.len(),
            p.deep_view().len() == p@.len(),
            best < j,
            best as int == best_idx(p.deep_view(), j as int),
            p.deep_view() == spec_present(cells.deep_view()),
        decreases m - j,
    {
        let cj = count_matches(&p, &p[j]);
        let cb = count_matches(&p, &p[best]);
        if cj > cb {
            best = j;
        }
        j = j + 1;
    }
    Some(p[best].clone())
}

} // verus!
