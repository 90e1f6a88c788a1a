use vstd::prelude::*;
use vstd::string::StringExecFns;
use vstd::utf8::*;

verus! {

/// The character of a decimal digit `d` (`d < 10`).
pub open spec fn digit_char(d: nat) -> char {
    if d == 0 { '0' }
    else if d == 1 { '1' }
    else if d == 2 { '2' }
    else if d == 3 { '3' }
    else if d == 4 { '4' }
    else if d == 5 { '5' }
    else if d == 6 { '6' }
    else if d == 7 { '7' }
    else if d == 8 { '8' }
    else { '9' }
}

/// The decimal representation of `n`, as `format!("{}", n)` writes it.
pub open spec fn decimal(n: nat) -> Seq<char>
    decreases n,
{
    if n < 10 {
        seq![digit_char(n)]
    } else {
        decimal(n / 10).push(digit_char(n % 10))
    }
}

/// Appends one character to a string (`String::push`).
#[verifier::external_body]
pub(crate) fn push_char(s: &mut String, c: char)
    ensures
        final(s)@ == old(s)@.push(c),
{
    s.push(c)
}

fn digit(d: u64) -> (c: char)
    requires
        d < 10,
    ensures
        c == digit_char(d as nat),
{
    if d == 0 { '0' }
    else if d == 1 { '1' }
    else if d == 2 { '2' }
    else if d == 3 { '3' }
    else if d == 4 { '4' }
    else if d == 5 { '5' }
    else if d == 6 { '6' }
    else if d == 7 { '7' }
    else if d == 8 { '8' }
    else { '9' }
}

/// Writes `n` in decimal.
pub fn decimal_string(n: u64) -> (s: String)
    ensures
        s@ == decimal(n as nat),
    decreases n,
{
    if n < 10 {
        let mut s = String::new();
        push_char(&mut s, digit(n));
        s
    } else {
        let mut s = decimal_string(n / 10);
        push_char(&mut s, digit(n % 10));
        s
    }
}


/// The characters of `s`, in order.
pub fn chars_of(s: &str) -> (v: Vec<char>)
    ensures
        v@ == s@,
{
    let mut v: Vec<char> = Vec::new();
    for c in it: s.chars()
        invariant
            v@ == it.seq().take(it.index()),
            it.seq() == s@,
    {
        v.push(c);
    }
    v
}


/// Whether two strings hold the same characters.
pub fn str_eq(a: &str, b: &str) -> (r: bool)
    ensures
        r == (a@ == b@),
{
    let x = a.to_owned();
    let y = b.to_owned();
    x == y
}

/// `s` with every `from` character turned into `to`.
pub open spec fn replace_char_spec(s: Seq<char>, from: char, to: char) -> Seq<char> {
    s.map_values(|c: char| if c == from { to } else { c })
}

/// `s.replace(from, to)` for single-character patterns.
pub fn replace_char(s: &str, from: char, to: char) -> (r: String)
    ensures
        r@ == replace_char_spec(s@, from, to),
{
    let v = chars_of(s);
    let mut r = String::new();
    let mut i: usize = 0;
    while i < v.len()
        invariant
            v@ == s@,
            i <= v.len(),
            r@ == replace_char_spec(s@.take(i as int), from, to),
        decreases v.len() - i,
    {
        let c = v[i];
        if c == from {
            push_char(&mut r, to);
        } else {
            push_char(&mut r, c);
        }
        assert(s@.take(i + 1) == s@.take(i as int).push(c));
        i = i + 1;
    }
    assert(s@.take(i as int) == s@);
    r
}

/// The pieces of `parts` joined by `sep`.
pub open spec fn join_spec(parts: Seq<Seq<char>>, sep: Seq<char>) -> Seq<char>
    decreases parts.len(),
{
    if parts.len() == 0 {
        Seq::empty()
    } else if parts.len() == 1 {
        parts[0]
    } else {
        join_spec(parts.drop_last(), sep) + sep + parts.last()
    }
}

/// `parts.join(sep)`.
pub fn join(parts: &Vec<String>, sep: &str) -> (r: String)
    ensures
        r@ == join_spec(parts.deep_view(), sep@),
{
    let mut r = String::new();
    let ghost dv = parts.deep_view();
    let mut i: usize = 0;
    while i < parts.len()
        invariant
            dv == parts.deep_view(),
            dv.len() == parts.len(),
            i <= parts.len(),
            r@ == join_spec(dv.take(i as int), sep@),
        decreases parts.len() - i,
    {
        assert(dv[i as int] == parts[i as int]@);
        if i != 0 {
            r.append(sep);
        }
        r.append(parts[i].as_str());
        assert(dv.take(i + 1).drop_last() == dv.take(i as int));
        i = i + 1;
    }
    assert(dv.take(i as int) == dv);
    r
}

/// Whether `suffix` ends `s`.
pub open spec fn ends_with_spec(s: Seq<char>, suffix: Seq<char>) -> bool {
    suffix.len() <= s.len() && s.subrange(s.len() - suffix.len(), s.len() as int) == suffix
}

/// `s.ends_with(suffix)`.
pub fn ends_with(s: &str, suffix: &str) -> (r: bool)
    ensures
        r == ends_with_spec(s@, suffix@),
{
    let a = chars_of(s);
    let b = chars_of(suffix);
    if b.len() > a.len() {
        return false;
    }
    let off = a.len() - b.len();
    let mut i: usize = 0;
    while i < b.len()
        invariant
            a@ == s@,
            b@ == suffix@,
            off == a.len() - b.len(),
            i <= b.len(),
            forall|j: int| 0 <= j < i ==> a@[off + j] == b@[j],
        decreases b.len() - i,
    {
        if a[off + i] != b[i] {
            assert(s@.subrange(s@.len() - suffix@.len(), s@.len() as int)[i as int] != suffix@[i as int]);
            return false;
        }
        i = i + 1;
    }
    assert(s@.subrange(s@.len() - suffix@.len(), s@.len() as int) =~= suffix@);
    true
}

/// Whether `t` occurs in `s` at position `i`.
pub open spec fn occurs_at(s: Seq<char>, t: Seq<char>, i: int) -> bool {
    0 <= i && i + t.len() <= s.len() && s.subrange(i, i + t.len()) == t
}

/// Whether `t` occurs somewhere in `s` (`str::contains`).
pub open spec fn contains_spec(s: Seq<char>, t: Seq<char>) -> bool {
    exists|i: int| occurs_at(s, t, i)
}

fn occurs_at_exec(a: &Vec<char>, b: &Vec<char>, i: usize) -> (r: bool)
    requires
        i + b.len() <= a.len(),
    ensures
        r == occurs_at(a@, b@, i as int),
{
    let mut j: usize = 0;
    while j < b.len()
        invariant
            i + b.len() <= a.len(),
            j <= b.len(),
            forall|k: int| 0 <= k < j ==> a@[i + k] == b@[k],
        decreases b.len() - j,
    {
        if a[i + j] != b[j] {
            assert(a@.subrange(i as int, i + b@.len())[j as int] != b@[j as int]);
            return false;
        }
        j = j + 1;
    }
    assert(a@.subrange(i as int, i + b@.len()) =~= b@);
    true
}

/// `s.contains(t)`.
pub fn contains(s: &str, t: &str) -> (r: bool)
    ensures
        r == contains_spec(s@, t@),
{
    let a = chars_of(s);
    let b = chars_of(t);
    if b.len() > a.len() {
        return false;
    }
    if b.len() == 0 {
        assert(s@.subrange(0, 0) =~= t@);
        assert(occurs_at(s@, t@, 0));
        return true;
    }
    let mut i: usize = 0;
    while i <= a.len() - b.len()
        invariant
            a@ == s@,
            b@ == t@,
            1 <= b.len() <= a.len(),
            i <= a.len() - b.len() + 1,
            forall|k: int| 0 <= k < i ==> !occurs_at(s@, t@, k),
        decreases a.len() - b.len() + 1 - i,
    {
        if occurs_at_exec(&a, &b, i) {
            return true;
        }
        i = i + 1;
    }
    false
}

/// The part of `s` before the first `c` (all of `s` when there is none):
/// what `s.split(c).next()` gives.
pub open spec fn before_char(s: Seq<char>, c: char) -> Seq<char>
    decreases s.len(),
{
    if s.len() == 0 {
        s
    } else if s[0] == c {
        Seq::empty()
    } else {
        seq![s[0]] + before_char(s.drop_first(), c)
    }
}

pub proof fn lemma_before_char_at(s: Seq<char>, c: char, i: int)
    requires
        0 <= i <= s.len(),
        forall|j: int| 0 <= j < i ==> s[j] != c,
        i == s.len() || s[i] == c,
    ensures
        before_char(s, c) == s.take(i),
    decreases s.len(),
{
    if s.len() == 0 {
        assert(s.take(i) =~= s);
    } else if s[0] == c {
        assert(s.take(i) =~= Seq::<char>::empty());
    } else {
        lemma_before_char_at(s.drop_first(), c, i - 1);
        assert(seq![s[0]] + s.drop_first().take(i - 1) =~= s.take(i));
    }
}

/// `s.split(c).next()`: the characters before the first `c`.
pub fn before_first(s: &str, c: char) -> (r: String)
    ensures
        r@ == before_char(s@, c),
{
    let v = chars_of(s);
    let mut r = String::new();
    let mut i: usize = 0;
    while i < v.len() && v[i] != c
        invariant
            v@ == s@,
            i <= v.len(),
            r@ == s@.take(i as int),
            forall|j: int| 0 <= j < i ==> s@[j] != c,
        decreases v.len() - i,
    {
        push_char(&mut r, v[i]);
        assert(s@.take(i + 1) == s@.take(i as int).push(v@[i as int]));
        i = i + 1;
    }
    proof {
        lemma_before_char_at(s@, c, i as int);
    }
    r
}

/// The pieces of `s` between the occurrences of `c` (`str::split` with a
/// character pattern); there is always at least one piece.
pub open spec fn split_spec(s: Seq<char>, c: char) -> Seq<Seq<char>>
    decreases s.len(),
{
    if s.len() == 0 {
        seq![Seq::empty()]
    } else {
        let p = split_spec(s.drop_last(), c);
        if s.last() == c {
            p.push(Seq::empty())
        } else {
            p.update(p.len() - 1, p.last().push(s.last()))
        }
    }
}

pub proof fn lemma_split_nonempty(s: Seq<char>, c: char)
    ensures
        split_spec(s, c).len() >= 1,
    decreases s.len(),
{
    if s.len() > 0 {
        lemma_split_nonempty(s.drop_last(), c);
    }
}

/// `s.split(c).collect::<Vec<_>>()`.
pub fn split(s: &str, c: char) -> (r: Vec<String>)
    ensures
        r.deep_view() == split_spec(s@, c),
{
    let v = chars_of(s);
    let mut r: Vec<String> = Vec::new();
    let mut cur = String::new();
    let mut i: usize = 0;
    while i < v.len()
        invariant
            v@ == s@,
            i <= v.len(),
            r.deep_view().push(cur@) == split_spec(s@.take(i as int), c),
        decreases v.len() - i,
    {
        let ch = v[i];
        let ghost dv0 = r.deep_view();
        let ghost cur0 = cur@;
        proof {
            let t = s@.take(i + 1);
            assert(t.drop_last() == s@.take(i as int));
            assert(t.last() == ch);
            lemma_split_nonempty(s@.take(i as int), c);
        }
        if ch == c {
            let done = cur;
            r.push(done);
            cur = String::new();
            assert(r.deep_view() =~= dv0.push(cur0));
            assert(r.deep_view().push(cur@) =~= split_spec(s@.take(i + 1), c));
        } else {
            push_char(&mut cur, ch);
            assert(r.deep_view() == dv0);
            assert(r.deep_view().push(cur@) =~= split_spec(s@.take(i + 1), c));
        }
        i = i + 1;
    }
    assert(s@.take(i as int) == s@);
    let ghost dv1 = r.deep_view();
    let ghost cur1 = cur@;
    r.push(cur);
    assert(r.deep_view() =~= dv1.push(cur1));
    r
}


/// The number of bytes of `s` in UTF-8 (`str::len`).
pub open spec fn byte_len(s: Seq<char>) -> nat {
    encode_utf8(s).len()
}

/// Whether byte offset `n` of `s`'s UTF-8 encoding falls between two characters.
pub open spec fn at_char_boundary(s: Seq<char>, n: int) -> bool {
    is_char_boundary(encode_utf8(s), n)
}

/// The characters held by the first `n` bytes of `s` (`&s[..n]`).
pub open spec fn byte_prefix(s: Seq<char>, n: int) -> Seq<char> {
    decode_utf8(encode_utf8(s).subrange(0, n))
}

/// `&s[..n]`; slicing inside a character panics, hence the `requires`.
pub fn prefix_bytes(s: &str, n: usize) -> (r: &str)
    requires
        n <= byte_len(s@),
        at_char_boundary(s@, n as int),
    ensures
        r@ == byte_prefix(s@, n as int),
{
    let (a, _b) = s.split_at(n);
    proof {
        encode_utf8_decode_utf8(a@);
    }
    a
}

/// Unicode `White_Space`, the set `char::is_whitespace` tests for.
pub open spec fn is_white_space(c: char) -> bool {
    let u = c as u32;
    (0x09 <= u <= 0x0d) || u == 0x20 || u == 0x85 || u == 0xa0 || u == 0x1680
        || (0x2000 <= u <= 0x200a) || u == 0x2028 || u == 0x2029 || u == 0x202f
        || u == 0x205f || u == 0x3000
}

fn white_space(c: char) -> (r: bool)
    ensures
        r == is_white_space(c),
{
    let u = c as u32;
    (0x09 <= u && u <= 0x0d) || u == 0x20 || u == 0x85 || u == 0xa0 || u == 0x1680
        || (0x2000 <= u && u <= 0x200a) || u == 0x2028 || u == 0x2029 || u == 0x202f
        || u == 0x205f || u == 0x3000
}

/// `s` without its leading white space.
pub open spec fn trim_start_spec(s: Seq<char>) -> Seq<char>
    decreases s.len(),
{
    if s.len() > 0 && is_white_space(s[0]) {
        trim_start_spec(s.drop_first())
    } else {
        s
    }
}

/// `s` without its trailing white space.
pub open spec fn trim_end_spec(s: Seq<char>) -> Seq<char>
    decreases s.len(),
{
    if s.len() > 0 && is_white_space(s.last()) {
        trim_end_spec(s.drop_last())
    } else {
        s
    }
}

/// `str::trim`: `s` without leading and trailing white space.
pub open spec fn trim_spec(s: Seq<char>) -> Seq<char> {
    trim_end_spec(trim_start_spec(s))
}

proof fn lemma_trim_start(s: Seq<char>, i: int)
    requires
        0 <= i <= s.len(),
        forall|j: int| 0 <= j < i ==> is_white_space(s[j]),
        i == s.len() || !is_white_space(s[i]),
    ensures
        trim_start_spec(s) == s.subrange(i, s.len() as int),
    decreases i,
{
    if i == 0 {
        assert(s.subrange(0, s.len() as int) =~= s);
    } else {
        lemma_trim_start(s.drop_first(), i - 1);
        assert(s.drop_first().subrange(i - 1, s.len() - 1) =~= s.subrange(i, s.len() as int));
    }
}

proof fn lemma_trim_end(s: Seq<char>, k: int)
    requires
        0 <= k <= s.len(),
        forall|j: int| k <= j < s.len() ==> is_white_space(s[j]),
        k == 0 || !is_white_space(s[k - 1]),
    ensures
        trim_end_spec(s) == s.subrange(0, k),
    decreases s.len() - k,
{
    if k == s.len() {
        assert(s.subrange(0, k) =~= s);
    } else {
        lemma_trim_end(s.drop_last(), k);
        assert(s.drop_last().subrange(0, k) =~= s.subrange(0, k));
    }
}

/// `s.trim().to_string()`.
pub fn trim(s: &str) -> (r: String)
    ensures
        r@ == trim_spec(s@),
{
    let v = chars_of(s);
    let mut i: usize = 0;
    while i < v.len() && white_space(v[i])
        invariant
            v@ == s@,
            i <= v.len(),
            forall|j: int| 0 <= j < i ==> is_white_space(s@[j]),
        decreases v.len() - i,
    {
        i = i + 1;
    }
    let mut k: usize = v.len();
    while k > i && white_space(v[k - 1])
        invariant
            v@ == s@,
            i <= k <= v.len(),
            forall|j: int| k <= j < v.len() ==> is_white_space(s@[j]),
        decreases k - i,
    {
        k = k - 1;
    }
    proof {
        lemma_trim_start(s@, i as int);
        let t = s@.subrange(i as int, s@.len() as int);
        if k == i && i < v.len() {
            assert(!is_white_space(s@[i as int]));
        }
        assert(forall|j: int| k - i <= j < t.len() ==> is_white_space(t[j]));
        lemma_trim_end(t, k - i);
        assert(t.subrange(0, k - i) =~= s@.subrange(i as int, k as int));
    }
    let mut r = String::new();
    let mut j: usize = i;
    while j < k
        invariant
            v@ == s@,
            i <= j <= k <= v.len(),
            r@ == s@.subrange(i as int, j as int),
        decreases k - j,
    {
        push_char(&mut r, v[j]);
        assert(s@.subrange(i as int, j + 1) == s@.subrange(i as int, j as int).push(v@[j as int]));
        j = j + 1;
    }
    r
}


/// What `str::to_lowercase` gives for `s`: its characters mapped to their
/// Unicode lowercase forms.
pub uninterp spec fn unicode_lowercase(s: Seq<char>) -> Seq<char>;

/// `str::to_lowercase`.  Claimed: the result is `unicode_lowercase(s)`, a
/// function of `s` alone.
#[verifier::external_body]
pub(crate) fn to_lowercase(s: &str) -> (r: String)
    ensures
        r@ == unicode_lowercase(s@),
{
    s.to_lowercase()
}

/// `s` with every occurrence of the non-empty `pat`, scanning from the left
/// without overlaps, replaced by `rep` (`str::replace`).
pub open spec fn replace_spec(s: Seq<char>, pat: Seq<char>, rep: Seq<char>) -> Seq<char>
    recommends
        pat.len() > 0,
    decreases s.len(),
{
    if pat.len() == 0 || s.len() < pat.len() {
        s
    } else if s.subrange(0, pat.len() as int) == pat {
        rep + replace_spec(s.skip(pat.len() as int), pat, rep)
    } else {
        seq![s[0]] + replace_spec(s.drop_first(), pat, rep)
    }
}

/// `s.replace(pat, rep)` for a non-empty pattern.
pub fn replace_str(s: &str, pat: &str, rep: &str) -> (r: String)
    requires
        pat@.len() > 0,
    ensures
        r@ == replace_spec(s@, pat@, rep@),
{
    let a = chars_of(s);
    let b = chars_of(pat);
    let mut r = String::new();
    let mut i: usize = 0;
    assert(s@.skip(0) =~= s@);
    while i < a.len()
        invariant
            a@ == s@,
            b@ == pat@,
            b.len() > 0,
            i <= a.len(),
            r@ + replace_spec(s@.skip(i as int), pat@, rep@) == replace_spec(s@, pat@, rep@),
        decreases a.len() - i,
    {
        let ghost rest = s@.skip(i as int);
        if b.len() <= a.len() - i && occurs_at_exec(&a, &b, i) {
            proof {
                assert(rest.subrange(0, pat@.len() as int) =~= s@.subrange(i as int, i + pat@.len()));
                assert(rest.skip(pat@.len() as int) =~= s@.skip(i + b.len()));
            }
            r.append(rep);
            i = i + b.len();
        } else {
            proof {
                if b.len() <= a.len() - i {
                    assert(rest.subrange(0, pat@.len() as int) =~= s@.subrange(i as int, i + pat@.len()));
                }
                assert(rest.drop_first() =~= s@.skip(i + 1));
            }
            push_char(&mut r, a[i]);
            i = i + 1;
        }
    }
    assert(s@.skip(i as int) =~= Seq::<char>::empty());
    r
}
} // verus!
