use vstd::prelude::*;

verus! {

/// The single trusted string builder of the crate.
///
/// Relies on std's `String::push`: appending one character to the end of the
/// string, which vstd does not specify.
#[verifier::external_body]
pub fn push_char(s: &mut String, c: char)
    ensures
        final(s)@ == old(s)@.push(c),
{
    s.push(c);
}

/// The whitespace characters that `trim` strips from either end of a field.
pub open spec fn is_space(c: char) -> bool {
    c == ' ' || c == '\t' || c == '\r' || c == '\n'
}

/// What trimming means: strip whitespace from both ends, one character at a time.
pub open spec fn spec_trim(s: Seq<char>) -> Seq<char>
    decreases s.len(),
{
    if s.len() == 0 {
        s
    } else if is_space(s[0]) {
        spec_trim(s.skip(1))
    } else if is_space(s[s.len() - 1]) {
        spec_trim(s.take(s.len() - 1))
    } else {
        s
    }
}

pub proof fn lemma_trim_all_space(s: Seq<char>)
    requires
        forall|j: int| 0 <= j < s.len() ==> is_space(s[j]),
    ensures
        spec_trim(s) == Seq::<char>::empty(),
    decreases s.len(),
{
    if s.len() == 0 {
        assert(s =~= Seq::<char>::empty());
    } else {
        lemma_trim_all_space(s.skip(1));
    }
}

pub proof fn lemma_trim_range(s: Seq<char>, a: int, b: int)
    requires
        0 <= a <= b < s.len(),
        !is_space(s[a]),
        !is_space(s[b]),
        forall|j: int| 0 <= j < a ==> is_space(s[j]),
        forall|j: int| b < j < s.len() ==> is_space(s[j]),
    ensures
        spec_trim(s) == s.subrange(a, b + 1),
    decreases s.len(),
{
    if a > 0 {
        lemma_trim_range(s.skip(1), a - 1, b - 1);
        assert(s.skip(1).subrange(a - 1, b) =~= s.subrange(a, b + 1));
    } else if b < s.len() - 1 {
        lemma_trim_range(s.take(s.len() - 1), a, b);
        assert(s.take(s.len() - 1).subrange(a, b + 1) =~= s.subrange(a, b + 1));
    } else {
        assert(s.subrange(0, s.len() as int) =~= s);
    }
}

pub fn is_space_exec(c: char) -> (r: bool)
    ensures
        r == is_space(c),
{
    c == ' ' || c == '\t' || c == '\r' || c == '\n'
}

/// Strip leading and trailing whitespace.
pub fn trim_str<'a>(s: &'a str) -> (r: &'a str)
    ensures
        r@ == spec_trim(s@),
{
    let n = s.unicode_len();
    let mut a: usize = 0;
    while a < n && is_space_exec(s.get_char(a))
        invariant
            a <= n,
            n == s@.len(),
            forall|j: int| 0 <= j < a ==> is_space(s@[j]),
        decreases n - a,
    {
        a = a + 1;
    }
    if a == n {
        proof {
            lemma_trim_all_space(s@);
        }
        let r = s.substring_char(n, n);
        proof {
            assert(r@ =~= Seq::<char>::empty());
        }
        r
    } else {
        let mut b: usize = n - 1;
        while b > a && is_space_exec(s.get_char(b))
            invariant
                a <= b < n,
                n == s@.len(),
                !is_space(s@[a as int]),
                forall|j: int| b < j < n ==> is_space(s@[j]),
            decreases b,
        {
            b = b - 1;
        }
        proof {
            lemma_trim_range(s@, a as int, b as int);
        }
        s.substring_char(a, b + 1)
    }
}

/// Character-wise string equality.
pub fn str_eq(a: &str, b: &str) -> (r: bool)
    ensures
        r == (a@ == b@),
{
    let na = a.unicode_len();
    let nb = b.unicode_len();
    if na != nb {
        return false;
    }
    let mut i: usize = 0;
    while i < na
        invariant
            i <= na,
            na == a@.len(),
            na == b@.len(),
            forall|j: int| 0 <= j < i ==> a@[j] == b@[j],
        decreases na - i,
    {
        if a.get_char(i) != b.get_char(i) {
            return false;
        }
        i = i + 1;
    }
    proof {
        assert(a@ =~= b@);
    }
    true
}

/// What splitting on a separator means; there is always at least one field,
/// and an empty input yields one empty field.
pub open spec fn spec_split(s: Seq<char>, sep: char) -> Seq<Seq<char>>
    decreases s.len(),
{
    if s.len() == 0 {
        seq![Seq::<char>::empty()]
    } else if s[0] == sep {
        seq![Seq::<char>::empty()] + spec_split(s.skip(1), sep)
    } else {
        let rest = spec_split(s.skip(1), sep);
        seq![seq![s[0]] + rest[0]] + rest.skip(1)
    }
}

pub proof fn lemma_split_len(s: Seq<char>, sep: char)
    ensures
        spec_split(s, sep).len() >= 1,
    decreases s.len(),
{
    if s.len() == 0 {
    } else {
        lemma_split_len(s.skip(1), sep);
    }
}

/// The first field of a split, extended at the front by a prefix.
pub open spec fn prepend_first(p: Seq<char>, ss: Seq<Seq<char>>) -> Seq<Seq<char>> {
    seq![p + ss[0]] + ss.skip(1)
}

/// Split a string on a separator character; fields come in order, an empty
/// string yields one empty field.
pub fn split_str(s: &str, sep: char) -> (r: Vec<String>)
    ensures
        r.deep_view() == spec_split(s@, sep),
{
    let n = s.unicode_len();
    let mut out: Vec<String> = Vec::new();
    let mut cur: String = String::new();
    let mut i: usize = 0;
    proof {
        lemma_split_len(s@, sep);
        assert(s@.skip(0) =~= s@);
        assert(out.deep_view() + prepend_first(cur@, spec_split(s@, sep)) =~= prepend_first(
            cur@,
            spec_split(s@, sep),
        ));
    }
    while i < n
        invariant
            i <= n,
            n == s@.len(),
            spec_split(s@, sep) =~= out.deep_view() + prepend_first(
                cur@,
                spec_split(s@.skip(i as int), sep),
            ),
        decreases n - i,
    {
        let ghost rem = s@.skip(i as int);
        let ghost rest = spec_split(s@.skip(i as int + 1), sep);
        proof {
            lemma_split_len(s@.skip(i as int + 1), sep);
            assert(rem[0] == s@[i as int]);
            assert(rem.skip(1) =~= s@.skip(i as int + 1));
        }
        let c = s.get_char(i);
        if c == sep {
            let ghost old_out = out.deep_view();
            let ghost old_cur = cur@;
            proof {
                assert(spec_split(rem, sep) =~= seq![Seq::<char>::empty()] + rest);
                assert(prepend_first(old_cur, seq![Seq::<char>::empty()] + rest) =~= seq![old_cur]
                    + prepend_first(Seq::<char>::empty(), rest));
                assert(prepend_first(Seq::<char>::empty(), rest) =~= rest);
            }
            out.push(cur);
            cur = String::new();
            proof {
                assert(out.deep_view() =~= old_out.push(old_cur));
                assert(out.deep_view() + prepend_first(cur@, rest) =~= old_out + (seq![old_cur]
                    + prepend_first(Seq::<char>::empty(), rest)));
            }
        } else {
            let ghost old_cur = cur@;
            proof {
                assert(spec_split(rem, sep) =~= seq![seq![rem[0]] + rest[0]] + rest.skip(1));
                assert(old_cur + (seq![rem[0]] + rest[0]) =~= old_cur.push(rem[0]) + rest[0]);
                assert(prepend_first(old_cur, spec_split(rem, sep)) =~= prepend_first(
                    old_cur.push(rem[0]),
                    rest,
                ));
            }
            push_char(&mut cur, c);
        }
        i = i + 1;
    }
    proof {
        assert(s@.skip(n as int) =~= Seq::<char>::empty());
        assert(prepend_first(cur@, spec_split(s@.skip(n as int), sep)) =~= seq![cur@]);
    }
    let ghost old_out = out.deep_view();
    let ghost old_cur = cur@;
    out.push(cur);
    proof {
        assert(out.deep_view() =~= old_out.push(old_cur));
        assert(out.deep_view() =~= spec_split(s@, sep));
    }
    out
}

/// What splitting at the first occurrence of a separator means: `None` when
/// the separator does not occur, otherwise the part before it and the part
/// after it.
pub open spec fn spec_split_once(s: Seq<char>, sep: char) -> Option<(Seq<char>, Seq<char>)>
    decreases s.len(),
{
    if s.len() == 0 {
        None
    } else if s[0] == sep {
        Some((Seq::<char>::empty(), s.skip(1)))
    } else {
        match spec_split_once(s.skip(1), sep) {
            None => None,
            Some(p) => Some((seq![s[0]] + p.0, p.1)),
        }
    }
}

pub proof fn lemma_split_once_none(s: Seq<char>, sep: char)
    requires
        forall|j: int| 0 <= j < s.len() ==> s[j] != sep,
    ensures
        spec_split_once(s, sep) is None,
    decreases s.len(),
{
    if s.len() > 0 {
        lemma_split_once_none(s.skip(1), sep);
    }
}

pub proof fn lemma_split_once_at(s: Seq<char>, sep: char, i: int)
    requires
        0 <= i < s.len(),
        s[i] == sep,
        forall|j: int| 0 <= j < i ==> s[j] != sep,
    ensures
        spec_split_once(s, sep) matches Some(p) && p.0 == s.take(i) && p.1 == s.skip(i + 1),
    decreases i,
{
    if i == 0 {
        assert(s.take(0) =~= Seq::<char>::empty());
    } else {
        lemma_split_once_at(s.skip(1), sep, i - 1);
        let p = spec_split_once(s.skip(1), sep)->Some_0;
        assert(seq![s[0]] + s.skip(1).take(i - 1) =~= s.take(i));
        assert(s.skip(1).skip(i) =~= s.skip(i + 1));
    }
}

/// Split at the first occurrence of a separator character, when there is one.
pub fn split_once_str<'a>(s: &'a str, sep: char) -> (r: Option<(&'a str, &'a str)>)
    ensures
        match spec_split_once(s@, sep) {
            Some(p) => r matches Some(q) && q.0@ == p.0 && q.1@ == p.1,
            None => r is None,
        },
{
    let n = s.unicode_len();
    let mut i: usize = 0;
    while i < n
        invariant
            i <= n,
            n == s@.len(),
            forall|j: int| 0 <= j < i ==> s@[j] != sep,
        decreases n - i,
    {
        if s.get_char(i) == sep {
            proof {
                lemma_split_once_at(s@, sep, i as int);
            }
            let before = s.substring_char(0, i);
            let after = s.substring_char(i + 1, n);
            proof {
                assert(s@.subrange(0, i as int) =~= s@.take(i as int));
                assert(s@.subrange(i as int + 1, n as int) =~= s@.skip(i as int + 1));
            }
            return Some((before, after));
        }
        i = i + 1;
    }
    proof {
        lemma_split_once_none(s@, sep);
    }
    None
}

} // verus!
