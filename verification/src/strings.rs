use vstd::prelude::*;
use vstd::string::StrSliceExecFns;
use vstd::string::StringExecFns;

verus! {

/// Relies on std's `String::push`: appends exactly one character at the end.
#[verifier::external_body]
pub(crate) fn push_char(s: &mut String, c: char)
    ensures
        final(s)@ == old(s)@ + seq![c],
{
    s.push(c);
}

/// Whether `pat` occurs in `s` starting at position `at`.
pub open spec fn matches_at(s: Seq<char>, pat: Seq<char>, at: int) -> bool {
    0 <= at && at + pat.len() <= s.len() && s.subrange(at, at + pat.len()) == pat
}

fn match_at(s: &str, pat: &str, at: usize) -> (r: bool)
    requires
        at + pat@.len() <= s@.len(),
    ensures
        r == matches_at(s@, pat@, at as int),
{
    let s_n = s.unicode_len();
    let n = pat.unicode_len();
    let mut j: usize = 0;
    while j < n
        invariant
            s_n == s@.len(),
            n == pat@.len(),
            at + n <= s_n,
            j <= n,
            forall|k: int| 0 <= k < j ==> s@[at + k] == pat@[k],
        decreases n - j,
    {
        let idx = at + j;
        if s.get_char(idx) != pat.get_char(j) {
            proof {
                assert(s@.subrange(at as int, at + pat@.len())[j as int] == s@[at + j]);
            }
            return false;
        }
        j += 1;
    }
    assert(s@.subrange(at as int, at + pat@.len()) =~= pat@);
    true
}

/// Whether `s` begins with `pat`.
pub open spec fn starts_with_spec(s: Seq<char>, pat: Seq<char>) -> bool {
    matches_at(s, pat, 0)
}

pub fn starts_with(s: &str, pat: &str) -> (r: bool)
    ensures
        r == starts_with_spec(s@, pat@),
{
    let s_len = s.unicode_len();
    let p_len = pat.unicode_len();
    if p_len > s_len {
        return false;
    }
    match_at(s, pat, 0)
}

/// Whether the two strings hold the same characters.
pub fn str_eq(a: &str, b: &str) -> (r: bool)
    ensures
        r == (a@ == b@),
{
    let a_len = a.unicode_len();
    let b_len = b.unicode_len();
    if a_len != b_len {
        return false;
    }
    let r = match_at(a, b, 0);
    assert(a@.subrange(0, b@.len() as int) =~= a@);
    r
}

/// `s` with every non-overlapping occurrence of `pat` replaced by `to`,
/// scanning left to right; the empty pattern replaces nothing.
pub open spec fn replace_spec(s: Seq<char>, pat: Seq<char>, to: Seq<char>) -> Seq<char>
    decreases s.len(),
{
    if pat.len() == 0 || s.len() < pat.len() {
        s
    } else if s.subrange(0, pat.len() as int) == pat {
        to + replace_spec(s.skip(pat.len() as int), pat, to)
    } else {
        seq![s[0]] + replace_spec(s.skip(1), pat, to)
    }
}

pub fn replace_all(s: &str, pat: &str, to: &str) -> (r: String)
    ensures
        r@ == replace_spec(s@, pat@, to@),
{
    let s_len = s.unicode_len();
    let pat_len = pat.unicode_len();
    if pat_len == 0 {
        return s.to_owned();
    }
    let mut r = String::new();
    let mut i: usize = 0;
    proof {
        assert(s@.skip(0) =~= s@);
        assert(Seq::<char>::empty() + replace_spec(s@, pat@, to@) =~= replace_spec(
            s@,
            pat@,
            to@,
        ));
    }
    while i < s_len
        invariant
            s_len == s@.len(),
            pat_len == pat@.len(),
            pat_len >= 1,
            i <= s_len,
            replace_spec(s@, pat@, to@) == r@ + replace_spec(s@.skip(i as int), pat@, to@),
        decreases s_len - i,
    {
        let ghost rest = s@.skip(i as int);
        let ghost r_old = r@;
        if pat_len <= s_len - i && match_at(s, pat, i) {
            proof {
                assert(rest.subrange(0, pat@.len() as int) =~= s@.subrange(
                    i as int,
                    i + pat@.len(),
                ));
                assert(rest.skip(pat@.len() as int) =~= s@.skip(i + pat@.len()));
            }
            r.append(to);
            i += pat_len;
            proof {
                let tail = replace_spec(s@.skip(i as int), pat@, to@);
                assert((r_old + to@) + tail =~= r_old + (to@ + tail));
            }
        } else {
            proof {
                if i + pat_len <= s_len {
                    assert(rest.subrange(0, pat@.len() as int) =~= s@.subrange(
                        i as int,
                        i + pat@.len(),
                    ));
                } else {
                    assert(rest.len() < pat@.len());
                }
                assert(rest.skip(1) =~= s@.skip(i + 1));
            }
            let c = s.get_char(i);
            push_char(&mut r, c);
            i += 1;
            proof {
                let tail = replace_spec(s@.skip(i as int), pat@, to@);
                if rest.len() < pat@.len() {
                    assert(rest.skip(1).len() < pat@.len());
                    assert(replace_spec(rest, pat@, to@) == rest);
                    assert(seq![rest[0]] + rest.skip(1) =~= rest);
                }
                assert((r_old + seq![rest[0]]) + tail =~= r_old + (seq![rest[0]] + tail));
            }
        }
    }
    proof {
        assert(s@.skip(i as int) =~= Seq::<char>::empty());
        assert(r@ + Seq::<char>::empty() =~= r@);
    }
    r
}


/// The elements of `vals` concatenated with `sep` between consecutive
/// elements.
pub open spec fn join_spec(vals: Seq<Seq<char>>, sep: Seq<char>) -> Seq<char>
    decreases vals.len(),
{
    if vals.len() == 0 {
        Seq::empty()
    } else if vals.len() == 1 {
        vals[0]
    } else {
        vals[0] + sep + join_spec(vals.skip(1), sep)
    }
}

pub fn join_values(vals: &Vec<String>, sep: &str) -> (r: String)
    ensures
        r@ == join_spec(vals.deep_view(), sep@),
{
    let ghost model = vals.deep_view();
    let mut r = String::new();
    let n = vals.len();
    if n == 0 {
        return r;
    }
    let mut i: usize = 0;
    proof {
        assert(model.skip(0) =~= model);
        assert(Seq::<char>::empty() + join_spec(model, sep@) =~= join_spec(model, sep@));
    }
    while i < n
        invariant
            n == vals@.len(),
            model == vals.deep_view(),
            model.len() == n,
            1 <= n,
            i <= n,
            i < n ==> join_spec(model, sep@) == r@ + join_spec(model.skip(i as int), sep@),
            i == n ==> join_spec(model, sep@) == r@,
        decreases n - i,
    {
        let ghost r_old = r@;
        let ghost rest = model.skip(i as int);
        r.append(vals[i].as_str());
        proof {
            assert(vals@[i as int]@ == model[i as int]);
        }
        if i + 1 < n {
            r.append(sep);
            proof {
                assert(rest.skip(1) =~= model.skip(i + 1));
                let tail = join_spec(model.skip(i + 1), sep@);
                assert(rest[0] == model[i as int]);
                assert(join_spec(rest, sep@) == rest[0] + sep@ + tail);
                assert(((r_old + rest[0]) + sep@) + tail =~= r_old + (rest[0] + sep@ + tail));
            }
        } else {
            proof {
                assert(rest.len() == 1);
                assert(rest[0] == model[i as int]);
                assert(join_spec(rest, sep@) == rest[0]);
            }
        }
        i += 1;
    }
    r
}

pub open spec fn digit_char(d: nat) -> char {
    ((48 + d) as u8) as char
}

/// The decimal representation of `n`, most significant digit first.
pub open spec fn dec_spec(n: nat) -> Seq<char>
    decreases n,
{
    if n < 10 {
        seq![digit_char(n)]
    } else {
        dec_spec(n / 10) + seq![digit_char(n % 10)]
    }
}

pub fn u32_to_string(n: u32) -> (r: String)
    ensures
        r@ == dec_spec(n as nat),
    decreases n,
{
    if n < 10 {
        let mut s = String::new();
        let d: u8 = 48 + (n as u8);
        push_char(&mut s, d as char);
        s
    } else {
        assert(n / 10 < n) by (nonlinear_arith)
            requires n >= 10;
        let mut s = u32_to_string(n / 10);
        let d: u8 = 48 + ((n % 10) as u8);
        push_char(&mut s, d as char);
        s
    }
}

/// The decimal representation of `n`, zero-padded on the left to at least two
/// digits.
pub open spec fn pad2_spec(n: nat) -> Seq<char> {
    if n < 10 {
        seq!['0'] + dec_spec(n)
    } else {
        dec_spec(n)
    }
}

pub fn u32_to_padded2(n: u32) -> (r: String)
    ensures
        r@ == pad2_spec(n as nat),
{
    if n < 10 {
        let mut s = String::new();
        push_char(&mut s, '0');
        let d: u8 = 48 + (n as u8);
        push_char(&mut s, d as char);
        proof {
            assert((Seq::<char>::empty() + seq!['0']) + seq![digit_char(n as nat)] =~= seq!['0']
                + dec_spec(n as nat));
        }
        s
    } else {
        u32_to_string(n)
    }
}

/// How many times `c` occurs in `s`.
pub open spec fn count_char_spec(s: Seq<char>, c: char) -> nat
    decreases s.len(),
{
    if s.len() == 0 {
        0
    } else {
        count_char_spec(s.drop_last(), c) + if s.last() == c {
            1nat
        } else {
            0nat
        }
    }
}

pub fn count_char(s: &str, c: char) -> (r: usize)
    ensures
        r == count_char_spec(s@, c),
{
    let n = s.unicode_len();
    let mut cnt: usize = 0;
    let mut i: usize = 0;
    proof {
        assert(s@.take(0) =~= Seq::<char>::empty());
    }
    while i < n
        invariant
            n == s@.len(),
            i <= n,
            cnt <= i,
            cnt == count_char_spec(s@.take(i as int), c),
        decreases n - i,
    {
        proof {
            assert(s@.take(i + 1).drop_last() =~= s@.take(i as int));
            assert(s@.take(i + 1).last() == s@[i as int]);
        }
        if s.get_char(i) == c {
            cnt += 1;
        }
        i += 1;
    }
    proof {
        assert(s@.take(n as int) =~= s@);
    }
    cnt
}

/// The segments of `s` between occurrences of the separator `c`; one segment
/// more than there are separators, in order, separators removed.
pub open spec fn split_acc(s: Seq<char>, c: char, cur: Seq<char>) -> Seq<Seq<char>>
    decreases s.len(),
{
    if s.len() == 0 {
        seq![cur]
    } else if s[0] == c {
        seq![cur] + split_acc(s.skip(1), c, Seq::empty())
    } else {
        split_acc(s.skip(1), c, cur.push(s[0]))
    }
}

pub open spec fn split_spec(s: Seq<char>, c: char) -> Seq<Seq<char>> {
    split_acc(s, c, Seq::empty())
}

pub fn split_char(s: &str, c: char) -> (r: Vec<String>)
    ensures
        r.deep_view() == split_spec(s@, c),
        r@.len() >= 1,
{
    let n = s.unicode_len();
    let mut parts: Vec<String> = Vec::new();
    let mut cur = String::new();
    let mut i: usize = 0;
    proof {
        assert(s@.skip(0) =~= s@);
        assert(parts.deep_view() + split_acc(s@, c, cur@) =~= split_acc(s@, c, cur@));
    }
    while i < n
        invariant
            n == s@.len(),
            i <= n,
            split_spec(s@, c) == parts.deep_view() + split_acc(s@.skip(i as int), c, cur@),
        decreases n - i,
    {
        let ghost rest = s@.skip(i as int);
        let ghost parts_old = parts.deep_view();
        let ghost cur_old = cur@;
        proof {
            assert(rest[0] == s@[i as int]);
            assert(rest.skip(1) =~= s@.skip(i + 1));
        }
        let ch = s.get_char(i);
        if ch == c {
            let done = cur;
            parts.push(done);
            cur = String::new();
            proof {
                assert(parts.deep_view() =~= parts_old.push(cur_old));
                assert(split_acc(rest, c, cur_old) == seq![cur_old] + split_acc(
                    rest.skip(1),
                    c,
                    Seq::empty(),
                ));
                assert(parts_old.push(cur_old) + split_acc(rest.skip(1), c, Seq::empty())
                    =~= parts_old + (seq![cur_old] + split_acc(rest.skip(1), c, Seq::empty())));
            }
        } else {
            push_char(&mut cur, ch);
            proof {
                assert(cur@ =~= cur_old.push(ch));
                assert(split_acc(rest, c, cur_old) == split_acc(rest.skip(1), c, cur_old.push(
                    rest[0],
                )));
            }
        }
        i += 1;
    }
    proof {
        assert(s@.skip(i as int) =~= Seq::<char>::empty());
    }
    let ghost parts_old = parts.deep_view();
    let ghost cur_old = cur@;
    parts.push(cur);
    proof {
        assert(parts.deep_view() =~= parts_old.push(cur_old));
        assert(split_acc(Seq::<char>::empty(), c, cur_old) == seq![cur_old]);
        assert(parts_old + seq![cur_old] =~= parts_old.push(cur_old));
    }
    parts
}


/// The decimal representation of `n`, zero-padded on the left to at least
/// four digits.
pub open spec fn pad4_spec(n: nat) -> Seq<char> {
    if n < 10 {
        seq!['0', '0', '0'] + dec_spec(n)
    } else if n < 100 {
        seq!['0', '0'] + dec_spec(n)
    } else if n < 1000 {
        seq!['0'] + dec_spec(n)
    } else {
        dec_spec(n)
    }
}

pub fn u32_to_padded4(n: u32) -> (r: String)
    ensures
        r@ == pad4_spec(n as nat),
{
    let mut s = String::new();
    if n < 10 {
        push_char(&mut s, '0');
        push_char(&mut s, '0');
        push_char(&mut s, '0');
    } else if n < 100 {
        push_char(&mut s, '0');
        push_char(&mut s, '0');
    } else if n < 1000 {
        push_char(&mut s, '0');
    }
    let digits = u32_to_string(n);
    s.append(digits.as_str());
    proof {
        if n < 10 {
            assert(s@ =~= seq!['0', '0', '0'] + dec_spec(n as nat));
        } else if n < 100 {
            assert(s@ =~= seq!['0', '0'] + dec_spec(n as nat));
        } else if n < 1000 {
            assert(s@ =~= seq!['0'] + dec_spec(n as nat));
        } else {
            assert(s@ =~= dec_spec(n as nat));
        }
    }
    s
}

/// An ASCII whitespace character, as trimming understands it.
pub open spec fn is_ascii_space(c: char) -> bool {
    c == ' ' || c == '\t' || c == '\n' || c == '\r'
}

/// `s` without its leading ASCII whitespace.
pub open spec fn trim_start_spec(s: Seq<char>) -> Seq<char>
    decreases s.len(),
{
    if s.len() > 0 && is_ascii_space(s[0]) {
        trim_start_spec(s.skip(1))
    } else {
        s
    }
}

/// `s` without its trailing ASCII whitespace.
pub open spec fn trim_end_spec(s: Seq<char>) -> Seq<char>
    decreases s.len(),
{
    if s.len() > 0 && is_ascii_space(s.last()) {
        trim_end_spec(s.drop_last())
    } else {
        s
    }
}

/// `s` without leading and trailing ASCII whitespace.
pub open spec fn trim_spec(s: Seq<char>) -> Seq<char> {
    trim_end_spec(trim_start_spec(s))
}

fn is_space(c: char) -> (r: bool)
    ensures
        r == is_ascii_space(c),
{
    c == ' ' || c == '\t' || c == '\n' || c == '\r'
}

#[verifier::loop_isolation(false)]
pub fn trim_ascii(s: &str) -> (r: String)
    ensures
        r@ == trim_spec(s@),
{
    let n = s.unicode_len();
    let mut a: usize = 0;
    proof {
        assert(s@.skip(0) =~= s@);
    }
    while a < n && is_space(s.get_char(a))
        invariant
            a <= n,
            trim_start_spec(s@) == trim_start_spec(s@.skip(a as int)),
        decreases n - a,
    {
        proof {
            assert(s@.skip(a as int).skip(1) =~= s@.skip(a + 1));
        }
        a += 1;
    }
    proof {
        if a == n {
            assert(s@.skip(a as int).len() == 0);
        }
        assert(trim_start_spec(s@) == s@.skip(a as int));
    }
    let mut b: usize = n;
    proof {
        assert(s@.skip(a as int).take(n - a as int) =~= s@.skip(a as int));
    }
    while b > a && is_space(s.get_char(b - 1))
        invariant
            a <= b <= n,
            trim_end_spec(s@.skip(a as int)) == trim_end_spec(
                s@.skip(a as int).take(b - a as int),
            ),
        decreases b,
    {
        proof {
            let mid = s@.skip(a as int);
            assert(mid.take(b - a as int).last() == s@[b - 1]);
            assert(mid.take(b - a as int).drop_last() =~= mid.take(b - 1 - a as int));
        }
        b -= 1;
    }
    proof {
        let mid = s@.skip(a as int);
        if b == a {
            assert(mid.take(0).len() == 0);
        } else {
            assert(mid.take(b - a as int).last() == s@[b - 1]);
        }
        assert(trim_end_spec(mid) == mid.take(b - a as int));
    }
    let out = s.substring_char(a, b);
    proof {
        assert(s@.subrange(a as int, b as int) =~= s@.skip(a as int).take(b - a as int));
    }
    out.to_owned()
}

} // verus!
