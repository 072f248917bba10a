//! The `key=value` record grammar of the wire protocol: value escaping
//! and the lookup of a key's value inside one record.
//!
//! A record is a run of fields separated by single blanks; each field is
//! a key, optionally followed by `=` and an escaped value.  In escaped
//! values a backslash stands for itself doubled, a blank is written
//! `\s`, and a forward slash `\/`.

use vstd::prelude::*;
use crate::text::{
    find_char_from, spec_split, views, split_on_char, sub_chars, eq_chars, find_char,
};

verus! {

/// How one character is written inside an escaped value: the backslash
/// is escaped first, so the escapes of blank and slash are never
/// re-escaped.
pub open spec fn escape_char(c: char) -> Seq<char> {
    if c == '\\' {
        seq!['\\', '\\']
    } else if c == ' ' {
        seq!['\\', 's']
    } else if c == '/' {
        seq!['\\', '/']
    } else {
        seq![c]
    }
}

pub open spec fn escape_from(s: Seq<char>, i: int) -> Seq<char>
    decreases s.len() - i when 0 <= i <= s.len()
{
    if i >= s.len() {
        Seq::empty()
    } else {
        escape_char(s[i]) + escape_from(s, i + 1)
    }
}

/// `s` written as an escaped value.
pub open spec fn spec_escape(s: Seq<char>) -> Seq<char> {
    escape_from(s, 0)
}

/// The character an escape pair `\x` stands for, if `\x` is one of the
/// recognised pairs.
pub open spec fn unescape_pair(c: char) -> Option<char> {
    if c == '\\' {
        Some('\\')
    } else if c == 's' {
        Some(' ')
    } else if c == '/' {
        Some('/')
    } else {
        None
    }
}

pub open spec fn unescape_from(s: Seq<char>, i: int) -> Seq<char>
    decreases s.len() - i when 0 <= i <= s.len()
{
    if i >= s.len() {
        Seq::empty()
    } else if s[i] == '\\' && i + 1 < s.len() && unescape_pair(s[i + 1]) is Some {
        seq![unescape_pair(s[i + 1])->Some_0] + unescape_from(s, i + 2)
    } else {
        seq![s[i]] + unescape_from(s, i + 1)
    }
}

/// An escaped value read back: recognised escape pairs become their
/// characters; a backslash before anything else stands for itself.
pub open spec fn spec_unescape(s: Seq<char>) -> Seq<char> {
    unescape_from(s, 0)
}

/// Reading an escaped value from any later position is reading the
/// tail that starts there.
pub proof fn lemma_unescape_shift(u: Seq<char>, i: int)
    requires
        0 <= i <= u.len(),
    ensures
        unescape_from(u, i) == spec_unescape(u.skip(i)),
    decreases u.len() - i,
{
    let v = u.skip(i);
    if i >= u.len() {
        assert(v.len() == 0);
    } else {
        assert(v[0] == u[i]);
        if 1 < v.len() {
            assert(v[1] == u[i + 1]);
        }
        if u[i] == '\\' && i + 1 < u.len() && unescape_pair(u[i + 1]) is Some {
            lemma_unescape_shift(u, i + 2);
            lemma_unescape_shift(v, 2);
            assert(v.skip(2) =~= u.skip(i + 2));
        } else {
            lemma_unescape_shift(u, i + 1);
            lemma_unescape_shift(v, 1);
            assert(v.skip(1) =~= u.skip(i + 1));
        }
    }
}

proof fn lemma_escape_then_unescape_from(s: Seq<char>, i: int)
    requires
        0 <= i <= s.len(),
    ensures
        spec_unescape(escape_from(s, i)) == s.skip(i),
    decreases s.len() - i,
{
    if i >= s.len() {
        assert(s.skip(i) =~= Seq::<char>::empty());
    } else {
        let c = s[i];
        let u = escape_from(s, i);
        let rest = escape_from(s, i + 1);
        lemma_escape_then_unescape_from(s, i + 1);
        if c == '\\' || c == ' ' || c == '/' {
            assert(u[0] == escape_char(c)[0]);
            assert(u[1] == escape_char(c)[1]);
            lemma_unescape_shift(u, 2);
            assert(u.skip(2) =~= rest);
            assert(spec_unescape(u) =~= seq![c] + s.skip(i + 1));
        } else {
            assert(u[0] == c);
            lemma_unescape_shift(u, 1);
            assert(u.skip(1) =~= rest);
            assert(spec_unescape(u) =~= seq![c] + s.skip(i + 1));
        }
        assert(seq![c] + s.skip(i + 1) =~= s.skip(i));
    }
}

/// An escaped value reads back to exactly the text it was made from:
/// because the backslash is escaped first, no escape is ever escaped
/// again, and nothing written by [`spec_escape`] is lost or doubled.
pub proof fn lemma_escape_round_trip(s: Seq<char>)
    ensures
        spec_unescape(spec_escape(s)) == s,
{
    lemma_escape_then_unescape_from(s, 0);
    assert(s.skip(0) =~= s);
}

/// A field split at its first `=`: the key, and the unescaped value
/// (empty when the field has no `=`).
pub open spec fn split_kv(tok: Seq<char>) -> (Seq<char>, Seq<char>) {
    match find_char_from(tok, '=', 0) {
        None => (tok, Seq::empty()),
        Some(k) => (tok.subrange(0, k), spec_unescape(tok.subrange(k + 1, tok.len() as int))),
    }
}

/// The value of the first field of `toks` whose key is `key`.
pub open spec fn lookup_in(toks: Seq<Seq<char>>, key: Seq<char>) -> Option<Seq<char>>
    decreases toks.len(),
{
    if toks.len() == 0 {
        None
    } else if split_kv(toks[0]).0 == key {
        Some(split_kv(toks[0]).1)
    } else {
        lookup_in(toks.drop_first(), key)
    }
}

/// The value `key` holds in the record `rec`, unescaped; `None` when no
/// field carries that key.
pub open spec fn record_value(rec: Seq<char>, key: Seq<char>) -> Option<Seq<char>> {
    lookup_in(spec_split(rec, ' '), key)
}

/// `v` written as an escaped value.
pub fn escape_chars(v: &Vec<char>) -> (r: Vec<char>)
    ensures
        r@ == spec_escape(v@),
{
    let n = v.len();
    let mut out: Vec<char> = Vec::new();
    let mut i: usize = 0;
    while i < n
        invariant
            n == v@.len(),
            i <= n,
            spec_escape(v@) == out@ + escape_from(v@, i as int),
        decreases n - i,
    {
        let ghost before = out@;
        let c = v[i];
        if c == '\\' {
            out.push('\\');
            out.push('\\');
        } else if c == ' ' {
            out.push('\\');
            out.push('s');
        } else if c == '/' {
            out.push('\\');
            out.push('/');
        } else {
            out.push(c);
        }
        proof {
            assert(out@ =~= before + escape_char(v@[i as int]));
            assert(before + escape_char(v@[i as int]) + escape_from(v@, i + 1) =~= before
                + escape_from(v@, i as int));
        }
        i += 1;
    }
    proof {
        assert(out@ + escape_from(v@, n as int) =~= out@);
    }
    out
}

/// An escaped value read back.
pub fn unescape_chars(v: &Vec<char>) -> (r: Vec<char>)
    ensures
        r@ == spec_unescape(v@),
{
    let n = v.len();
    let mut out: Vec<char> = Vec::new();
    let mut i: usize = 0;
    while i < n
        invariant
            n == v@.len(),
            i <= n,
            spec_unescape(v@) == out@ + unescape_from(v@, i as int),
        decreases n - i,
    {
        let ghost before = out@;
        let ghost start = i as int;
        let c = v[i];
        if c == '\\' && i + 1 < n {
            let e = v[i + 1];
            if e == '\\' {
                out.push('\\');
                i += 2;
            } else if e == 's' {
                out.push(' ');
                i += 2;
            } else if e == '/' {
                out.push('/');
                i += 2;
            } else {
                out.push(c);
                i += 1;
            }
        } else {
            out.push(c);
            i += 1;
        }
        proof {
            assert(out@ + unescape_from(v@, i as int) =~= before + unescape_from(v@, start));
        }
    }
    proof {
        assert(out@ + unescape_from(v@, n as int) =~= out@);
    }
    out
}

/// The value `key` holds in the record `rec`, unescaped.
pub fn record_value_chars(rec: &Vec<char>, key: &Vec<char>) -> (r: Option<Vec<char>>)
    ensures
        match r {
            Some(v) => record_value(rec@, key@) == Some(v@),
            None => record_value(rec@, key@) is None,
        },
{
    let toks = split_on_char(rec, ' ');
    proof {
        assert(views(toks@).skip(0) =~= views(toks@));
    }
    let n = toks.len();
    let mut i: usize = 0;
    while i < n
        invariant
            n == toks@.len(),
            i <= n,
            views(toks@) == spec_split(rec@, ' '),
            record_value(rec@, key@) == lookup_in(views(toks@).skip(i as int), key@),
        decreases n - i,
    {
        let tok = &toks[i];
        proof {
            assert(views(toks@).skip(i as int)[0] == tok@);
            assert(views(toks@).skip(i as int).drop_first() =~= views(toks@).skip(i + 1));
        }
        match find_char(tok, '=', 0) {
            None => {
                if eq_chars(tok, key) {
                    return Some(Vec::new());
                }
            },
            Some(p) => {
                let k_part = sub_chars(tok, 0, p);
                if eq_chars(&k_part, key) {
                    let raw = sub_chars(tok, p + 1, tok.len());
                    let val = unescape_chars(&raw);
                    return Some(val);
                }
            },
        }
        i += 1;
    }
    proof {
        assert(views(toks@).skip(n as int) =~= Seq::<Seq<char>>::empty());
    }
    None
}

} // verus!
