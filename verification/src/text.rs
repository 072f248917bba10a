//! Character-sequence utilities shared by the protocol modules: substring
//! search, trimming, splitting into lines and fields, and conversions
//! between `&str`, `Vec<char>` and `String`.
//!
//! Specifications index sequences with `int` positions; the executable
//! functions work on `Vec<char>` so that access is by plain indexing.

use vstd::prelude::*;

verus! {

/// The views of a sequence of character vectors.
pub open spec fn views(vs: Seq<Vec<char>>) -> Seq<Seq<char>> {
    vs.map_values(|v: Vec<char>| v@)
}

/// The pattern `p` occurs in `s` at position `i`.
pub open spec fn occurs_at(s: Seq<char>, p: Seq<char>, i: int) -> bool {
    0 <= i && i + p.len() <= s.len() && s.subrange(i, i + p.len() as int) == p
}

/// The pattern `p` occurs somewhere in `s`.
pub open spec fn contains_seq(s: Seq<char>, p: Seq<char>) -> bool {
    exists|i: int| occurs_at(s, p, i)
}

pub open spec fn starts_with_seq(s: Seq<char>, p: Seq<char>) -> bool {
    occurs_at(s, p, 0)
}

pub open spec fn ends_with_seq(s: Seq<char>, p: Seq<char>) -> bool {
    p.len() <= s.len() && occurs_at(s, p, s.len() - p.len())
}

/// Position of the first occurrence of the character `c` in `s` at or
/// after position `i`.
pub open spec fn find_char_from(s: Seq<char>, c: char, i: int) -> Option<int>
    decreases s.len() - i when 0 <= i <= s.len()
{
    if i >= s.len() {
        None
    } else if s[i] == c {
        Some(i)
    } else {
        find_char_from(s, c, i + 1)
    }
}

pub proof fn lemma_find_char_from(s: Seq<char>, c: char, i: int)
    requires
        0 <= i <= s.len(),
    ensures
        match find_char_from(s, c, i) {
            Some(k) => i <= k < s.len() && s[k] == c && (forall|j: int| i <= j < k ==> s[j] != c),
            None => forall|j: int| i <= j < s.len() ==> s[j] != c,
        },
    decreases s.len() - i,
{
    if i < s.len() && s[i] != c {
        lemma_find_char_from(s, c, i + 1);
    }
}

/// Position of the first occurrence of the pattern `p` in `s` at or
/// after position `i`.
pub open spec fn find_sub_from(s: Seq<char>, p: Seq<char>, i: int) -> Option<int>
    decreases s.len() - i when 0 <= i <= s.len()
{
    if i + p.len() > s.len() {
        None
    } else if p.len() == 0 {
        Some(i)
    } else if occurs_at(s, p, i) {
        Some(i)
    } else {
        find_sub_from(s, p, i + 1)
    }
}

pub proof fn lemma_find_sub_from(s: Seq<char>, p: Seq<char>, i: int)
    requires
        0 <= i <= s.len(),
    ensures
        match find_sub_from(s, p, i) {
            Some(k) => i <= k && occurs_at(s, p, k) && (forall|j: int| i <= j < k ==> !occurs_at(
                s,
                p,
                j,
            )),
            None => forall|j: int| i <= j ==> !occurs_at(s, p, j),
        },
    decreases s.len() - i,
{
    if i + p.len() > s.len() {
        assert forall|j: int| i <= j implies !occurs_at(s, p, j) by {}
    } else if p.len() == 0 {
        assert(s.subrange(i, i) =~= p);
    } else if !occurs_at(s, p, i) {
        lemma_find_sub_from(s, p, i + 1);
    }
}

/// A found occurrence makes `contains_seq` true; an exhausted search
/// refutes it.
pub proof fn lemma_find_sub_contains(s: Seq<char>, p: Seq<char>)
    ensures
        contains_seq(s, p) <==> find_sub_from(s, p, 0) is Some,
{
    lemma_find_sub_from(s, p, 0);
    if find_sub_from(s, p, 0) is Some {
        let k = find_sub_from(s, p, 0)->Some_0;
        assert(occurs_at(s, p, k));
    }
}

/// The whitespace the protocol's line handling trims: blank, tab,
/// carriage return, line feed.
pub open spec fn is_ws(c: char) -> bool {
    c == ' ' || c == '\t' || c == '\r' || c == '\n'
}

/// First position at or after `i` holding a non-whitespace character,
/// or the length of `s`.
pub open spec fn skip_ws_from(s: Seq<char>, i: int) -> int
    decreases s.len() - i when 0 <= i <= s.len()
{
    if i >= s.len() {
        i
    } else if is_ws(s[i]) {
        skip_ws_from(s, i + 1)
    } else {
        i
    }
}

/// Position after the last non-whitespace character strictly before
/// position `j`, or zero.
pub open spec fn rskip_ws_upto(s: Seq<char>, j: int) -> int
    decreases j when 0 <= j <= s.len()
{
    if j <= 0 {
        0
    } else if is_ws(s[j - 1]) {
        rskip_ws_upto(s, j - 1)
    } else {
        j
    }
}

/// `s` with leading and trailing whitespace removed.
pub open spec fn spec_trim(s: Seq<char>) -> Seq<char> {
    let a = skip_ws_from(s, 0);
    let b = rskip_ws_upto(s, s.len() as int);
    if a < b {
        s.subrange(a, b)
    } else {
        Seq::empty()
    }
}

/// The fields of `s` separated by `sep`, from position `i` on.  Every
/// separator yields a field boundary, so `n` separators give `n + 1`
/// fields, empty ones included.
pub open spec fn split_from(s: Seq<char>, sep: char, i: int) -> Seq<Seq<char>>
    decreases s.len() - i when 0 <= i <= s.len() via split_from_decreases
{
    match find_char_from(s, sep, i) {
        None => seq![s.subrange(i, s.len() as int)],
        Some(k) => seq![s.subrange(i, k)] + split_from(s, sep, k + 1),
    }
}

#[via_fn]
proof fn split_from_decreases(s: Seq<char>, sep: char, i: int) {
    lemma_find_char_from(s, sep, i);
}

pub open spec fn spec_split(s: Seq<char>, sep: char) -> Seq<Seq<char>> {
    split_from(s, sep, 0)
}

/// One trailing carriage return removed, as the line splitter does to
/// each line it ends at a line feed.
pub open spec fn strip_cr(s: Seq<char>) -> Seq<char> {
    if s.len() > 0 && s[s.len() - 1] == '\r' {
        s.subrange(0, s.len() - 1)
    } else {
        s
    }
}

/// The lines of `s` from position `i` on: line feeds end lines, a
/// carriage return just before a line feed is dropped, and a final
/// line feed opens no further line.
pub open spec fn lines_from(s: Seq<char>, i: int) -> Seq<Seq<char>>
    decreases s.len() - i when 0 <= i <= s.len() via lines_from_decreases
{
    if i >= s.len() {
        Seq::empty()
    } else {
        match find_char_from(s, '\n', i) {
            None => seq![s.subrange(i, s.len() as int)],
            Some(k) => seq![strip_cr(s.subrange(i, k))] + lines_from(s, k + 1),
        }
    }
}

#[via_fn]
proof fn lines_from_decreases(s: Seq<char>, i: int) {
    if 0 <= i <= s.len() {
        lemma_find_char_from(s, '\n', i);
    }
}

pub open spec fn spec_lines(s: Seq<char>) -> Seq<Seq<char>> {
    lines_from(s, 0)
}

/// Relies on `String::push`: appends exactly one character.
#[verifier::external_body]
pub(crate) fn push_char(s: &mut String, c: char)
    ensures
        final(s)@ == old(s)@.push(c),
{
    s.push(c)
}

/// The characters of `s` as a vector, for random access.
pub fn str_chars(s: &str) -> (v: Vec<char>)
    ensures
        v@ == s@,
{
    let n = s.unicode_len();
    let mut v: Vec<char> = Vec::new();
    let mut i: usize = 0;
    while i < n
        invariant
            n == s@.len(),
            i <= n,
            v@ == s@.take(i as int),
        decreases n - i,
    {
        v.push(s.get_char(i));
        proof {
            assert(v@ =~= s@.take(i + 1));
        }
        i += 1;
    }
    proof {
        assert(v@ =~= s@);
    }
    v
}

/// The characters of `v` gathered back into a string.
pub fn chars_string(v: &Vec<char>) -> (r: String)
    ensures
        r@ == v@,
{
    let mut s = String::new();
    let mut i: usize = 0;
    while i < v.len()
        invariant
            i <= v@.len(),
            s@ == v@.take(i as int),
        decreases v@.len() - i,
    {
        push_char(&mut s, v[i]);
        proof {
            assert(s@ =~= v@.take(i + 1));
        }
        i += 1;
    }
    proof {
        assert(s@ =~= v@);
    }
    s
}

/// A copy of `v[i..j]`.
pub fn sub_chars(v: &Vec<char>, i: usize, j: usize) -> (r: Vec<char>)
    requires
        i <= j <= v@.len(),
    ensures
        r@ == v@.subrange(i as int, j as int),
{
    let mut r: Vec<char> = Vec::new();
    let mut t: usize = i;
    while t < j
        invariant
            i <= t <= j <= v@.len(),
            r@ == v@.subrange(i as int, t as int),
        decreases j - t,
    {
        r.push(v[t]);
        proof {
            assert(r@ =~= v@.subrange(i as int, t + 1));
        }
        t += 1;
    }
    r
}

pub fn eq_chars(a: &Vec<char>, b: &Vec<char>) -> (r: bool)
    ensures
        r == (a@ == b@),
{
    if a.len() != b.len() {
        return false;
    }
    let mut i: usize = 0;
    while i < a.len()
        invariant
            a@.len() == b@.len(),
            i <= a@.len(),
            forall|j: int| 0 <= j < i ==> a@[j] == b@[j],
        decreases a@.len() - i,
    {
        if a[i] != b[i] {
            return false;
        }
        i += 1;
    }
    proof {
        assert(a@ =~= b@);
    }
    true
}

/// Whether `p` occurs in `v` at position `i`.
pub fn match_at(v: &Vec<char>, p: &Vec<char>, i: usize) -> (r: bool)
    requires
        i + p@.len() <= v@.len(),
    ensures
        r == occurs_at(v@, p@, i as int),
{
    let n = v.len();
    let mut j: usize = 0;
    while j < p.len()
        invariant
            n == v@.len(),
            i + p@.len() <= v@.len(),
            j <= p@.len(),
            forall|t: int| 0 <= t < j ==> v@[i + t] == p@[t],
        decreases p@.len() - j,
    {
        if v[i + j] != p[j] {
            proof {
                assert(v@.subrange(i as int, i + p@.len())[j as int] == v@[i + j]);
            }
            return false;
        }
        j += 1;
    }
    proof {
        assert(v@.subrange(i as int, i + p@.len()) =~= p@);
    }
    true
}

/// First occurrence of the character `c` in `v` at or after `from`.
pub fn find_char(v: &Vec<char>, c: char, from: usize) -> (r: Option<usize>)
    requires
        from <= v@.len(),
    ensures
        match r {
            Some(k) => from <= k < v@.len() && find_char_from(v@, c, from as int) == Some(k as int),
            None => find_char_from(v@, c, from as int) is None,
        },
{
    let mut i: usize = from;
    while i < v.len()
        invariant
            from <= i <= v@.len(),
            find_char_from(v@, c, from as int) == find_char_from(v@, c, i as int),
        decreases v@.len() - i,
    {
        if v[i] == c {
            return Some(i);
        }
        i += 1;
    }
    None
}

/// First occurrence of the pattern `p` in `v` at or after `from`.
pub fn find_sub(v: &Vec<char>, p: &Vec<char>, from: usize) -> (r: Option<usize>)
    requires
        from <= v@.len(),
    ensures
        match r {
            Some(k) => from <= k && k + p@.len() <= v@.len() && find_sub_from(
                v@,
                p@,
                from as int,
            ) == Some(k as int),
            None => find_sub_from(v@, p@, from as int) is None,
        },
{
    if p.len() == 0 {
        proof {
            assert(v@.subrange(from as int, from as int) =~= p@);
        }
        return Some(from);
    }
    let n = v.len();
    let mut i: usize = from;
    loop
        invariant
            n == v@.len(),
            p@.len() >= 1,
            from <= i <= v@.len(),
            find_sub_from(v@, p@, from as int) == find_sub_from(v@, p@, i as int),
        decreases v@.len() - i,
    {
        if p.len() > n - i {
            return None;
        }
        if match_at(v, p, i) {
            return Some(i);
        }
        i += 1;
    }
}

pub fn contains_sub(v: &Vec<char>, p: &Vec<char>) -> (r: bool)
    ensures
        r == contains_seq(v@, p@),
{
    proof {
        lemma_find_sub_contains(v@, p@);
    }
    match find_sub(v, p, 0) {
        Some(_) => true,
        None => false,
    }
}

pub fn starts_with_chars(v: &Vec<char>, p: &Vec<char>) -> (r: bool)
    ensures
        r == starts_with_seq(v@, p@),
{
    if p.len() > v.len() {
        return false;
    }
    match_at(v, p, 0)
}

pub fn ends_with_chars(v: &Vec<char>, p: &Vec<char>) -> (r: bool)
    ensures
        r == ends_with_seq(v@, p@),
{
    if p.len() > v.len() {
        return false;
    }
    match_at(v, p, v.len() - p.len())
}

/// Whitespace test matching [`is_ws`].
pub fn is_ws_char(c: char) -> (r: bool)
    ensures
        r == is_ws(c),
{
    c == ' ' || c == '\t' || c == '\r' || c == '\n'
}

/// `v` with leading and trailing whitespace removed.
pub fn trim_chars(v: &Vec<char>) -> (r: Vec<char>)
    ensures
        r@ == spec_trim(v@),
{
    let n = v.len();
    let mut a: usize = 0;
    while a < n && is_ws_char(v[a])
        invariant
            n == v@.len(),
            0 <= a <= n,
            skip_ws_from(v@, 0) == skip_ws_from(v@, a as int),
        decreases n - a,
    {
        a += 1;
    }
    let mut b: usize = n;
    while b > 0 && is_ws_char(v[b - 1])
        invariant
            n == v@.len(),
            0 <= b <= n,
            rskip_ws_upto(v@, n as int) == rskip_ws_upto(v@, b as int),
        decreases b,
    {
        b -= 1;
    }
    if a < b {
        sub_chars(v, a, b)
    } else {
        Vec::new()
    }
}

/// The fields of `v` separated by `sep`.
pub fn split_on_char(v: &Vec<char>, sep: char) -> (r: Vec<Vec<char>>)
    ensures
        views(r@) == spec_split(v@, sep),
        r@.len() >= 1,
{
    let n = v.len();
    let mut out: Vec<Vec<char>> = Vec::new();
    let mut pos: usize = 0;
    loop
        invariant_except_break
            n == v@.len(),
            pos <= v@.len(),
            spec_split(v@, sep) == views(out@) + split_from(v@, sep, pos as int),
        ensures
            views(out@) == spec_split(v@, sep),
            out@.len() >= 1,
        decreases v@.len() - pos,
    {
        match find_char(v, sep, pos) {
            None => {
                let piece = sub_chars(v, pos, n);
                out.push(piece);
                proof {
                    assert(views(out@) =~= spec_split(v@, sep));
                }
                break;
            },
            Some(k) => {
                let piece = sub_chars(v, pos, k);
                out.push(piece);
                proof {
                    assert(views(out@) + split_from(v@, sep, k + 1) =~= spec_split(v@, sep));
                }
                pos = k + 1;
            },
        }
    }
    out
}

/// The lines of `v`, as the framing rules read them.
pub fn split_lines(v: &Vec<char>) -> (r: Vec<Vec<char>>)
    ensures
        views(r@) == spec_lines(v@),
{
    let n = v.len();
    let mut out: Vec<Vec<char>> = Vec::new();
    let mut pos: usize = 0;
    while pos < n
        invariant
            n == v@.len(),
            pos <= v@.len(),
            spec_lines(v@) == views(out@) + lines_from(v@, pos as int),
        decreases v@.len() - pos,
    {
        match find_char(v, '\n', pos) {
            None => {
                let piece = sub_chars(v, pos, n);
                out.push(piece);
                proof {
                    assert(views(out@) =~= spec_lines(v@));
                }
                pos = n;
            },
            Some(k) => {
                let raw = sub_chars(v, pos, k);
                let piece = if raw.len() > 0 && raw[raw.len() - 1] == '\r' {
                    sub_chars(&raw, 0, raw.len() - 1)
                } else {
                    raw
                };
                proof {
                    assert(piece@ == strip_cr(v@.subrange(pos as int, k as int)));
                }
                out.push(piece);
                proof {
                    lemma_find_char_from(v@, '\n', pos as int);
                    assert(views(out@) + lines_from(v@, k + 1) =~= spec_lines(v@));
                }
                pos = k + 1;
            },
        }
    }
    proof {
        assert(views(out@) =~= spec_lines(v@));
    }
    out
}

} // verus!
