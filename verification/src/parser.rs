use vstd::prelude::*;

verus! {

use crate::num::{parse_milli, spec_parse_milli};
use crate::text::{
    spec_split, spec_split_once, spec_trim, split_once_str, split_str, str_eq, trim_str,
};

/// The value of the last `Key: value` line whose trimmed key equals `key`;
/// lines without a colon and lines for other keys are ignored, and the value
/// is trimmed.
pub open spec fn spec_lookup_lines(lines: Seq<Seq<char>>, key: Seq<char>) -> Option<Seq<char>>
    decreases lines.len(),
{
    if lines.len() == 0 {
        None
    } else {
        match spec_split_once(lines[lines.len() - 1], ':') {
            Some(p) => if spec_trim(p.0) == key {
                Some(spec_trim(p.1))
            } else {
                spec_lookup_lines(lines.take(lines.len() - 1), key)
            },
            None => spec_lookup_lines(lines.take(lines.len() - 1), key),
        }
    }
}

pub open spec fn spec_lookup(text: Seq<char>, key: Seq<char>) -> Option<Seq<char>> {
    spec_lookup_lines(spec_split(text, '\n'), key)
}

/// Find the value of a recognized key in a newline-separated `Key: value`
/// reply; when a key occurs on several lines the last one wins.
pub fn lookup_value(text: &str, key: &str) -> (r: Option<String>)
    ensures
        r.deep_view() == spec_lookup(text@, key@),
{
    let lines = split_str(text, '\n');
    let n = lines.len();
    let mut best: Option<String> = None;
    let mut i: usize = 0;
    proof {
        assert(lines.deep_view().take(0) =~= Seq::<Seq<char>>::empty());
    }
    while i < n
        invariant
            i <= n,
            n == lines@.len(),
            lines.deep_view().len() == n,
            best.deep_view() == spec_lookup_lines(lines.deep_view().take(i as int), key@),
        decreases n - i,
    {
        let ghost post = lines.deep_view().take(i as int + 1);
        proof {
            assert(post.take(post.len() - 1) =~= lines.deep_view().take(i as int));
            assert(post[post.len() - 1] == lines.deep_view()[i as int]);
        }
        match split_once_str(lines[i].as_str(), ':') {
            Some((k, v)) => {
                if str_eq(trim_str(k), key) {
                    best = Some(String::from_str(trim_str(v)));
                }
            },
            None => {},
        }
        i = i + 1;
    }
    proof {
        assert(lines.deep_view().take(n as int) =~= lines.deep_view());
    }
    best
}

/// The milli values of the comma-separated numeric tokens of a field, each
/// trimmed; tokens that are not numbers are dropped, they leave no
/// placeholder behind.
pub open spec fn spec_parse_list(fields: Seq<Seq<char>>) -> Seq<i64>
    decreases fields.len(),
{
    if fields.len() == 0 {
        Seq::<i64>::empty()
    } else {
        spec_parse_list(fields.take(fields.len() - 1)) + match spec_parse_milli(
            spec_trim(fields[fields.len() - 1]),
        ) {
            Some(v) => seq![v],
            None => Seq::<i64>::empty(),
        }
    }
}

pub open spec fn spec_num_list(s: Seq<char>) -> Seq<i64> {
    spec_parse_list(spec_split(s, ','))
}

pub fn parse_num_list(s: &str) -> (r: Vec<i64>)
    ensures
        r@ == spec_num_list(s@),
{
    let fields = split_str(s, ',');
    let n = fields.len();
    let mut out: Vec<i64> = Vec::new();
    let mut i: usize = 0;
    proof {
        assert(fields.deep_view().take(0) =~= Seq::<Seq<char>>::empty());
        assert(out@ =~= spec_parse_list(fields.deep_view().take(0)));
    }
    while i < n
        invariant
            i <= n,
            n == fields@.len(),
            fields.deep_view().len() == n,
            out@ == spec_parse_list(fields.deep_view().take(i as int)),
        decreases n - i,
    {
        let ghost post = fields.deep_view().take(i as int + 1);
        proof {
            assert(post.take(post.len() - 1) =~= fields.deep_view().take(i as int));
            assert(post[post.len() - 1] == fields.deep_view()[i as int]);
        }
        match parse_milli(trim_str(fields[i].as_str())) {
            Some(v) => {
                out.push(v);
                proof {
                    assert(out@ =~= spec_parse_list(post));
                }
            },
            None => {
                proof {
                    assert(out@ =~= spec_parse_list(post));
                }
            },
        }
        i = i + 1;
    }
    proof {
        assert(fields.deep_view().take(n as int) =~= fields.deep_view());
    }
    out
}

/// The comma-separated tokens of a field, each trimmed, none dropped.
pub open spec fn spec_text_list(s: Seq<char>) -> Seq<Seq<char>> {
    Seq::new(spec_split(s, ',').len(), |j: int| spec_trim(spec_split(s, ',')[j]))
}

pub fn parse_text_list(s: &str) -> (r: Vec<String>)
    ensures
        r.deep_view() == spec_text_list(s@),
{
    let fields = split_str(s, ',');
    let n = fields.len();
    let mut out: Vec<String> = Vec::new();
    let mut i: usize = 0;
    while i < n
        invariant
            i <= n,
            n == fields@.len(),
            fields.deep_view().len() == n,
            out@.len() == i,
            forall|j: int|
                0 <= j < i ==> out.deep_view()[j] == spec_trim(fields.deep_view()[j]),
        decreases n - i,
    {
        let ghost oldd = out.deep_view();
        let t = String::from_str(trim_str(fields[i].as_str()));
        out.push(t);
        proof {
            assert(out.deep_view() =~= oldd.push(t@));
        }
        i = i + 1;
    }
    proof {
        assert(out.deep_view() =~= spec_text_list(s@));
    }
    out
}

/// Twelve zero entries, one per month.
pub open spec fn spec_zeros12() -> Seq<i64> {
    Seq::new(12, |j: int| 0i64)
}

/// Twelve empty strings, one per month.
pub open spec fn spec_empties12() -> Seq<Seq<char>> {
    Seq::new(12, |j: int| Seq::<char>::empty())
}

pub fn zeros12() -> (r: Vec<i64>)
    ensures
        r@ == spec_zeros12(),
{
    let mut out: Vec<i64> = Vec::new();
    let mut i: usize = 0;
    while i < 12
        invariant
            i <= 12,
            out@.len() == i,
            forall|j: int| 0 <= j < i ==> out@[j] == 0i64,
        decreases 12 - i,
    {
        out.push(0);
        i = i + 1;
    }
    proof {
        assert(out@ =~= spec_zeros12());
    }
    out
}

pub fn empties12() -> (r: Vec<String>)
    ensures
        r.deep_view() == spec_empties12(),
{
    let mut out: Vec<String> = Vec::new();
    let mut i: usize = 0;
    while i < 12
        invariant
            i <= 12,
            out@.len() == i,
            forall|j: int| 0 <= j < i ==> out.deep_view()[j] == Seq::<char>::empty(),
        decreases 12 - i,
    {
        let ghost oldd = out.deep_view();
        let t = String::new();
        out.push(t);
        proof {
            assert(out.deep_view() =~= oldd.push(Seq::<char>::empty()));
        }
        i = i + 1;
    }
    proof {
        assert(out.deep_view() =~= spec_empties12());
    }
    out
}

/// A numeric field of the reply: the parsed list when the key is present,
/// twelve zeros when it is not.
pub open spec fn spec_num_field(text: Seq<char>, key: Seq<char>) -> Seq<i64> {
    match spec_lookup(text, key) {
        Some(v) => spec_num_list(v),
        None => spec_zeros12(),
    }
}

/// A text field of the reply: the trimmed tokens when the key is present,
/// twelve empty strings when it is not.
pub open spec fn spec_text_field(text: Seq<char>, key: Seq<char>) -> Seq<Seq<char>> {
    match spec_lookup(text, key) {
        Some(v) => spec_text_list(v),
        None => spec_empties12(),
    }
}

pub fn num_field(text: &str, key: &str) -> (r: Vec<i64>)
    ensures
        r@ == spec_num_field(text@, key@),
{
    match lookup_value(text, key) {
        Some(v) => parse_num_list(v.as_str()),
        None => zeros12(),
    }
}

pub fn text_field(text: &str, key: &str) -> (r: Vec<String>)
    ensures
        r.deep_view() == spec_text_field(text@, key@),
{
    match lookup_value(text, key) {
        Some(v) => parse_text_list(v.as_str()),
        None => empties12(),
    }
}

} // verus!
