use vstd::prelude::*;

verus! {

use crate::text::{push_char, spec_split_once, split_once_str};

/// Numeric cells and parsed numbers are fixed-point values counted in
/// thousandths ("milli"): the number 10.5 is held as 10500.
pub open spec fn is_digit(c: char) -> bool {
    '0' <= c && c <= '9'
}

pub open spec fn digit_val(c: char) -> int {
    c as int - '0' as int
}

pub open spec fn all_digits(s: Seq<char>) -> bool {
    forall|j: int| 0 <= j < s.len() ==> is_digit(s[j])
}

/// The value of a digit string read left to right in base ten.
pub open spec fn digits_val(s: Seq<char>) -> int
    decreases s.len(),
{
    if s.len() == 0 {
        0
    } else {
        digits_val(s.take(s.len() - 1)) * 10 + digit_val(s[s.len() - 1])
    }
}

pub open spec fn pow10(n: nat) -> int
    decreases n,
{
    if n == 0 {
        1
    } else {
        10 * pow10((n - 1) as nat)
    }
}

pub proof fn lemma_pow10_pos(n: nat)
    ensures
        pow10(n) >= 1,
    decreases n,
{
    if n > 0 {
        lemma_pow10_pos((n - 1) as nat);
    }
}

pub proof fn lemma_pow10_increases(a: nat, b: nat)
    requires
        a <= b,
    ensures
        pow10(a) <= pow10(b),
    decreases b,
{
    if a < b {
        lemma_pow10_increases(a, (b - 1) as nat);
        lemma_pow10_pos((b - 1) as nat);
    }
}

pub proof fn lemma_pow10_vals()
    ensures
        pow10(0) == 1,
        pow10(1) == 10,
        pow10(2) == 100,
        pow10(3) == 1000,
        pow10(4) == 10000,
        pow10(15) == 1000000000000000,
    decreases 0int,
{
    reveal_with_fuel(pow10, 17);
}

pub proof fn lemma_digits_val_bound(s: Seq<char>)
    requires
        all_digits(s),
    ensures
        0 <= digits_val(s) < pow10(s.len()),
    decreases s.len(),
{
    if s.len() == 0 {
    } else {
        let pre = s.take(s.len() - 1);
        assert(all_digits(pre));
        lemma_digits_val_bound(pre);
    }
}

pub fn digit_of(c: char) -> (r: u64)
    requires
        is_digit(c),
    ensures
        r as int == digit_val(c),
        r <= 9,
{
    (c as u32 as u64) - 48
}

pub fn all_digits_range(s: &str, from: usize, to: usize) -> (r: bool)
    requires
        from <= to <= s@.len(),
    ensures
        r == all_digits(s@.subrange(from as int, to as int)),
{
    let mut i: usize = from;
    while i < to
        invariant
            from <= i <= to <= s@.len(),
            forall|j: int| from <= j < i ==> is_digit(s@[j]),
        decreases to - i,
    {
        if !('0' <= s.get_char(i) && s.get_char(i) <= '9') {
            proof {
                assert(s@.subrange(from as int, to as int)[i - from] == s@[i as int]);
            }
            return false;
        }
        i = i + 1;
    }
    proof {
        assert forall|j: int| 0 <= j < to - from implies is_digit(
            s@.subrange(from as int, to as int)[j],
        ) by {
            assert(s@.subrange(from as int, to as int)[j] == s@[from + j]);
        }
    }
    true
}

/// Read the digits of `s` between `from` and `to` as one base-ten number.
pub fn parse_digits(s: &str, from: usize, to: usize) -> (r: u64)
    requires
        from <= to <= s@.len(),
        to - from <= 15,
        all_digits(s@.subrange(from as int, to as int)),
    ensures
        r as int == digits_val(s@.subrange(from as int, to as int)),
        (r as int) < pow10(s@.subrange(from as int, to as int).len()),
{
    proof {
        lemma_pow10_vals();
    }
    let mut acc: u64 = 0;
    let mut i: usize = from;
    proof {
        assert(s@.subrange(from as int, from as int) =~= Seq::<char>::empty());
    }
    while i < to
        invariant
            from <= i <= to <= s@.len(),
            to - from <= 15,
            all_digits(s@.subrange(from as int, to as int)),
            acc as int == digits_val(s@.subrange(from as int, i as int)),
            (acc as int) < pow10(s@.subrange(from as int, i as int).len()),
            pow10(15) == 1000000000000000,
        decreases to - i,
    {
        let ghost pre = s@.subrange(from as int, i as int);
        let ghost post = s@.subrange(from as int, i as int + 1);
        proof {
            assert(post.take(post.len() - 1) =~= pre);
            assert(post[post.len() - 1] == s@[i as int]);
            assert(s@.subrange(from as int, to as int)[i - from] == s@[i as int]);
            lemma_pow10_increases((i + 1 - from) as nat, 15);
        }
        let d = digit_of(s.get_char(i));
        acc = acc * 10 + d;
        i = i + 1;
    }
    proof {
        lemma_pow10_increases((to - from) as nat, 15);
    }
    acc
}

/// The character for one digit value.
pub open spec fn digit_char(n: int) -> char {
    if n == 0 {
        '0'
    } else if n == 1 {
        '1'
    } else if n == 2 {
        '2'
    } else if n == 3 {
        '3'
    } else if n == 4 {
        '4'
    } else if n == 5 {
        '5'
    } else if n == 6 {
        '6'
    } else if n == 7 {
        '7'
    } else if n == 8 {
        '8'
    } else {
        '9'
    }
}

pub fn digit_char_of(n: u64) -> (r: char)
    requires
        n < 10,
    ensures
        r == digit_char(n as int),
{
    if n == 0 {
        '0'
    } else if n == 1 {
        '1'
    } else if n == 2 {
        '2'
    } else if n == 3 {
        '3'
    } else if n == 4 {
        '4'
    } else if n == 5 {
        '5'
    } else if n == 6 {
        '6'
    } else if n == 7 {
        '7'
    } else if n == 8 {
        '8'
    } else {
        '9'
    }
}

/// The base-ten rendering of a natural number, most significant digit first.
pub open spec fn spec_digits_seq(n: nat) -> Seq<char>
    decreases n,
{
    if n < 10 {
        seq![digit_char(n as int)]
    } else {
        spec_digits_seq(n / 10).push(digit_char((n % 10) as int))
    }
}

pub proof fn lemma_digits_seq_digits(n: nat)
    ensures
        forall|j: int| 0 <= j < spec_digits_seq(n).len() ==> is_digit(spec_digits_seq(n)[j]),
    decreases n,
{
    if n < 10 {
        assert(spec_digits_seq(n) =~= seq![digit_char(n as int)]);
        assert(is_digit(digit_char(n as int)));
    } else {
        lemma_digits_seq_digits(n / 10);
        let pre = spec_digits_seq(n / 10);
        assert(spec_digits_seq(n) =~= pre.push(digit_char((n % 10) as int)));
        assert(is_digit(digit_char((n % 10) as int)));
        assert forall|j: int| 0 <= j < spec_digits_seq(n).len() implies is_digit(
            spec_digits_seq(n)[j],
        ) by {
            if j < pre.len() {
                assert(spec_digits_seq(n)[j] == pre[j]);
            }
        }
    }
}

/// Append the base-ten rendering of `n`.
pub fn push_u64(s: &mut String, n: u64)
    ensures
        final(s)@ == old(s)@ + spec_digits_seq(n as nat),
    decreases n,
{
    if n < 10 {
        let ghost pre = s@;
        push_char(s, digit_char_of(n));
        proof {
            assert(pre.push(digit_char(n as int)) =~= pre + spec_digits_seq(n as nat));
        }
    } else {
        let ghost pre = s@;
        push_u64(s, n / 10);
        push_char(s, digit_char_of(n % 10));
        proof {
            assert((pre + spec_digits_seq((n / 10) as nat)).push(digit_char((n % 10) as int)) =~= pre
                + spec_digits_seq(n as nat));
        }
    }
}

/// The rendering of a signed whole number.
pub open spec fn spec_render_int(v: int) -> Seq<char> {
    if v < 0 {
        seq!['-'] + spec_digits_seq((-v) as nat)
    } else {
        spec_digits_seq(v as nat)
    }
}

pub fn push_i64(s: &mut String, v: i64)
    ensures
        final(s)@ == old(s)@ + spec_render_int(v as int),
{
    let ghost pre = s@;
    if v < 0 {
        push_char(s, '-');
        let mag: u64 = (-(v as i128)) as u64;
        push_u64(s, mag);
        proof {
            assert(pre.push('-') + spec_digits_seq(mag as nat) =~= pre + spec_render_int(v as int));
        }
    } else {
        push_u64(s, v as u64);
    }
}

/// The canonical rendering of a milli value: optional sign, whole part, then
/// a dot and exactly three fraction digits.
pub open spec fn spec_render_milli(v: int) -> Seq<char> {
    let mag = if v < 0 {
        -v
    } else {
        v
    };
    let sign: Seq<char> = if v < 0 {
        seq!['-']
    } else {
        Seq::<char>::empty()
    };
    sign + spec_digits_seq((mag / 1000) as nat) + seq!['.'] + seq![
        digit_char((mag / 100) % 10),
        digit_char((mag / 10) % 10),
        digit_char(mag % 10),
    ]
}

pub fn render_milli_onto(s: &mut String, v: i64)
    ensures
        final(s)@ == old(s)@ + spec_render_milli(v as int),
{
    let ghost pre = s@;
    let mag: u64 = if v < 0 {
        (-(v as i128)) as u64
    } else {
        v as u64
    };
    if v < 0 {
        push_char(s, '-');
    }
    push_u64(s, mag / 1000);
    push_char(s, '.');
    push_char(s, digit_char_of((mag / 100) % 10));
    push_char(s, digit_char_of((mag / 10) % 10));
    push_char(s, digit_char_of(mag % 10));
    proof {
        assert(s@ =~= pre + spec_render_milli(v as int));
    }
}

pub fn render_milli(v: i64) -> (r: String)
    ensures
        r@ == spec_render_milli(v as int),
{
    let mut s = String::new();
    render_milli_onto(&mut s, v);
    proof {
        assert(Seq::<char>::empty() + spec_render_milli(v as int) =~= spec_render_milli(v as int));
    }
    s
}

/// The milli magnitude of an unsigned token: digits, optionally a dot and at
/// least one fraction digit, of which the first three count.
pub open spec fn spec_milli_body(s: Seq<char>) -> Option<int> {
    match spec_split_once(s, '.') {
        None => if 1 <= s.len() <= 15 && all_digits(s) {
            Some(digits_val(s) * 1000)
        } else {
            None
        },
        Some(p) => if 1 <= p.0.len() <= 15 && all_digits(p.0) && 1 <= p.1.len() && all_digits(p.1) {
            Some(digits_val(p.0) * 1000 + spec_frac_milli(p.1))
        } else {
            None
        },
    }
}

/// The first three fraction digits, padded with zeros on the right.
pub open spec fn spec_frac_milli(f: Seq<char>) -> int {
    if f.len() >= 3 {
        digits_val(f.take(3))
    } else {
        digits_val(f) * pow10((3 - f.len()) as nat)
    }
}

/// What parsing a numeric token means: an optional leading minus sign, then
/// an unsigned milli magnitude; anything else is not a number.
pub open spec fn spec_parse_milli(s: Seq<char>) -> Option<i64> {
    if s.len() > 0 && s[0] == '-' {
        match spec_milli_body(s.skip(1)) {
            Some(v) => Some((-v) as i64),
            None => None,
        }
    } else {
        match spec_milli_body(s) {
            Some(v) => Some(v as i64),
            None => None,
        }
    }
}

proof fn lemma_milli_body_bound(s: Seq<char>)
    ensures
        spec_milli_body(s) matches Some(v) ==> 0 <= v < 1000000000000000000,
{
    lemma_pow10_vals();
    match spec_split_once(s, '.') {
        None => {
            if 1 <= s.len() <= 15 && all_digits(s) {
                lemma_digits_val_bound(s);
                lemma_pow10_increases(s.len(), 15);
            }
        },
        Some(p) => {
            if 1 <= p.0.len() <= 15 && all_digits(p.0) && 1 <= p.1.len() && all_digits(p.1) {
                lemma_digits_val_bound(p.0);
                lemma_pow10_increases(p.0.len(), 15);
                if p.1.len() >= 3 {
                    assert(all_digits(p.1.take(3)));
                    lemma_digits_val_bound(p.1.take(3));
                    lemma_pow10_vals();
                } else {
                    lemma_digits_val_bound(p.1);
                    if p.1.len() == 1 {
                        assert(digits_val(p.1) * pow10(2) <= 900) by {
                            lemma_pow10_vals();
                        }
                    } else {
                        assert(p.1.len() == 2);
                        assert(digits_val(p.1) * pow10(1) <= 990) by {
                            lemma_pow10_vals();
                        }
                    }
                }
            }
        },
    }
}

fn parse_milli_body(s: &str) -> (r: Option<u64>)
    ensures
        match spec_milli_body(s@) {
            Some(v) => r matches Some(m) && m as int == v,
            None => r is None,
        },
{
    proof {
        lemma_pow10_vals();
        lemma_milli_body_bound(s@);
    }
    let n = s.unicode_len();
    match split_once_str(s, '.') {
        None => {
            proof {
                assert(s@.subrange(0, n as int) =~= s@);
            }
            if 1 <= n && n <= 15 && all_digits_range(s, 0, n) {
                let v = parse_digits(s, 0, n);
                proof {
                    lemma_digits_val_bound(s@);
                    lemma_pow10_increases(s@.len(), 15);
                }
                Some(v * 1000)
            } else {
                None
            }
        },
        Some((ip, fp)) => {
            let ni = ip.unicode_len();
            let nf = fp.unicode_len();
            proof {
                assert(ip@.subrange(0, ni as int) =~= ip@);
                assert(fp@.subrange(0, nf as int) =~= fp@);
            }
            if 1 <= ni && ni <= 15 && nf >= 1 && all_digits_range(ip, 0, ni) && all_digits_range(
                fp,
                0,
                nf,
            ) {
                let iv = parse_digits(ip, 0, ni);
                proof {
                    lemma_digits_val_bound(ip@);
                    lemma_pow10_increases(ip@.len(), 15);
                }
                let fv: u64 = if nf >= 3 {
                    proof {
                        assert(fp@.subrange(0, 3) =~= fp@.take(3));
                        assert(all_digits(fp@.take(3)));
                        lemma_digits_val_bound(fp@.take(3));
                    }
                    parse_digits(fp, 0, 3)
                } else if nf == 2 {
                    proof {
                        lemma_digits_val_bound(fp@);
                    }
                    parse_digits(fp, 0, 2) * 10
                } else {
                    proof {
                        lemma_digits_val_bound(fp@);
                    }
                    parse_digits(fp, 0, 1) * 100
                };
                Some(iv * 1000 + fv)
            } else {
                None
            }
        },
    }
}

proof fn lemma_digit_char_val(k: int)
    requires
        0 <= k <= 9,
    ensures
        digit_val(digit_char(k)) == k,
        is_digit(digit_char(k)),
{
}

proof fn lemma_digits_seq_val(n: nat)
    ensures
        all_digits(spec_digits_seq(n)),
        digits_val(spec_digits_seq(n)) == n,
        spec_digits_seq(n).len() >= 1,
    decreases n,
{
    if n < 10 {
        lemma_digit_char_val(n as int);
        let s = seq![digit_char(n as int)];
        assert(spec_digits_seq(n) =~= s);
        assert(s.take(0) =~= Seq::<char>::empty());
        assert(digits_val(Seq::<char>::empty()) == 0);
        assert(digits_val(s) == digits_val(s.take(0)) * 10 + digit_val(s[0]));
    } else {
        lemma_digits_seq_val(n / 10);
        lemma_digit_char_val((n % 10) as int);
        let pre = spec_digits_seq(n / 10);
        let s = pre.push(digit_char((n % 10) as int));
        assert(spec_digits_seq(n) =~= s);
        assert(s.take(s.len() - 1) =~= pre);
        assert(s[s.len() - 1] == digit_char((n % 10) as int));
        vstd::arithmetic::div_mod::lemma_fundamental_div_mod(n as int, 10);
        assert forall|j: int| 0 <= j < s.len() implies is_digit(s[j]) by {
            if j < pre.len() {
                assert(s[j] == pre[j]);
            }
        }
    }
}

proof fn lemma_digits_seq_len(n: nat, k: nat)
    requires
        n < pow10(k),
        k >= 1,
    ensures
        spec_digits_seq(n).len() <= k,
    decreases n,
{
    if n < 10 {
    } else {
        lemma_pow10_pos((k - 1) as nat);
        assert(pow10(k) == 10 * pow10((k - 1) as nat));
        vstd::arithmetic::div_mod::lemma_fundamental_div_mod(n as int, 10);
        assert(n / 10 < pow10((k - 1) as nat));
        if k == 1 {
            assert(pow10(1) == 10) by {
                lemma_pow10_vals();
            }
        } else {
            lemma_digits_seq_len(n / 10, (k - 1) as nat);
        }
    }
}

proof fn lemma_frac3_val(mag: int)
    requires
        mag >= 0,
    ensures
        all_digits(
            seq![
                digit_char((mag / 100) % 10),
                digit_char((mag / 10) % 10),
                digit_char(mag % 10),
            ],
        ),
        digits_val(
            seq![
                digit_char((mag / 100) % 10),
                digit_char((mag / 10) % 10),
                digit_char(mag % 10),
            ],
        ) == mag % 1000,
{
    let d2 = (mag / 100) % 10;
    let d1 = (mag / 10) % 10;
    let d0 = mag % 10;
    lemma_digit_char_val(d2);
    lemma_digit_char_val(d1);
    lemma_digit_char_val(d0);
    let frac = seq![digit_char(d2), digit_char(d1), digit_char(d0)];
    let t1 = frac.take(1);
    let t2 = frac.take(2);
    assert(t1.take(0) =~= Seq::<char>::empty());
    assert(digits_val(Seq::<char>::empty()) == 0);
    assert(t1[0] == frac[0]);
    assert(digits_val(t1) == digits_val(t1.take(0)) * 10 + digit_val(t1[0]));
    assert(digits_val(t1) == d2);
    assert(t2.take(1) =~= t1);
    assert(t2[1] == frac[1]);
    assert(digits_val(t2) == digits_val(t2.take(1)) * 10 + digit_val(t2[1]));
    assert(digits_val(t2) == d2 * 10 + d1);
    assert(frac.take(2) =~= t2);
    assert(digits_val(frac) == digits_val(frac.take(2)) * 10 + digit_val(frac[2]));
    assert(digits_val(frac) == (d2 * 10 + d1) * 10 + d0);
    assert(d2 * 100 + d1 * 10 + d0 == mag % 1000) by (nonlinear_arith)
        requires
            0 <= mag,
            d2 == (mag / 100) % 10,
            d1 == (mag / 10) % 10,
            d0 == mag % 10,
    ;
    assert(is_digit(frac[0]));
    assert(is_digit(frac[1]));
    assert(is_digit(frac[2]));
}

/// Rendering a milli value and parsing the text back yields the value again,
/// for every value whose whole part stays within the parser's fifteen digits.
#[verifier::rlimit(60)]
pub proof fn lemma_milli_round_trip(v: i64)
    requires
        -1000000000000000000 < v < 1000000000000000000,
    ensures
        spec_parse_milli(spec_render_milli(v as int)) == Some(v),
{
    lemma_pow10_vals();
    let mag = if v < 0 {
        -(v as int)
    } else {
        v as int
    };
    let ipn = (mag / 1000) as nat;
    let ip = spec_digits_seq(ipn);
    let frac = seq![
        digit_char((mag / 100) % 10),
        digit_char((mag / 10) % 10),
        digit_char(mag % 10),
    ];
    let body = ip + seq!['.'] + frac;
    lemma_digits_seq_val(ipn);
    assert(mag / 1000 < 1000000000000000) by {
        vstd::arithmetic::div_mod::lemma_fundamental_div_mod(mag, 1000);
    }
    lemma_digits_seq_len(ipn, 15);
    lemma_frac3_val(mag);
    assert forall|j: int| 0 <= j < body.len() && j < ip.len() implies body[j] != '.' by {
        assert(body[j] == ip[j]);
        assert(is_digit(ip[j]));
    }
    assert(body[ip.len() as int] == '.');
    crate::text::lemma_split_once_at(body, '.', ip.len() as int);
    assert(body.take(ip.len() as int) =~= ip);
    assert(body.skip(ip.len() as int + 1) =~= frac);
    assert(frac.take(3) =~= frac);
    assert(spec_frac_milli(frac) == mag % 1000);
    assert(spec_milli_body(body) == Some(mag)) by {
        vstd::arithmetic::div_mod::lemma_fundamental_div_mod(mag, 1000);
    }
    let rendered = spec_render_milli(v as int);
    if v < 0 {
        assert(rendered =~= seq!['-'] + body);
        assert(rendered[0] == '-');
        assert(rendered.skip(1) =~= body);
    } else {
        assert(rendered =~= body);
        assert(rendered[0] == ip[0]);
        assert(is_digit(ip[0]));
        assert(rendered[0] != '-');
    }
}

/// Parse a numeric token into a milli value; tokens that do not fit the
/// grammar yield `None`.
pub fn parse_milli(s: &str) -> (r: Option<i64>)
    ensures
        r == spec_parse_milli(s@),
{
    proof {
        lemma_milli_body_bound(s@);
        if s@.len() > 0 && s@[0] == '-' {
            lemma_milli_body_bound(s@.skip(1));
        }
    }
    let n = s.unicode_len();
    if n > 0 && s.get_char(0) == '-' {
        let body = s.substring_char(1, n);
        proof {
            assert(body@ =~= s@.skip(1));
        }
        match parse_milli_body(body) {
            Some(m) => Some(-(m as i64)),
            None => None,
        }
    } else {
        match parse_milli_body(s) {
            Some(m) => Some(m as i64),
            None => None,
        }
    }
}

} // verus!
