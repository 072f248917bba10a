//! Decimal integers as the wire protocol carries them: parsing the
//! `key=value` fields that hold numbers, and printing the handler and
//! target identifiers into outbound commands.

use vstd::prelude::*;
use crate::text::sub_chars;

verus! {

/// The value of a decimal digit character.
pub open spec fn digit_val(c: char) -> Option<int> {
    if c == '0' {
        Some(0)
    } else if c == '1' {
        Some(1)
    } else if c == '2' {
        Some(2)
    } else if c == '3' {
        Some(3)
    } else if c == '4' {
        Some(4)
    } else if c == '5' {
        Some(5)
    } else if c == '6' {
        Some(6)
    } else if c == '7' {
        Some(7)
    } else if c == '8' {
        Some(8)
    } else if c == '9' {
        Some(9)
    } else {
        None
    }
}

pub open spec fn all_digits(s: Seq<char>) -> bool {
    forall|i: int| 0 <= i < s.len() ==> #[trigger] digit_val(s[i]) is Some
}

/// The number written by `s` read as base-ten digits; a non-digit
/// counts as zero, so this is only meaningful under [`all_digits`].
pub open spec fn digits_val(s: Seq<char>) -> int
    decreases s.len(),
{
    if s.len() == 0 {
        0
    } else {
        digits_val(s.drop_last()) * 10 + (match digit_val(s.last()) {
            Some(d) => d,
            None => 0,
        })
    }
}

/// The integer a field holds: an optional leading minus sign followed
/// by at least one decimal digit, and nothing else.
pub open spec fn spec_parse_int(s: Seq<char>) -> Option<int> {
    if s.len() >= 1 && s[0] == '-' {
        let d = s.skip(1);
        if d.len() >= 1 && all_digits(d) {
            Some(-digits_val(d))
        } else {
            None
        }
    } else if s.len() >= 1 && all_digits(s) {
        Some(digits_val(s))
    } else {
        None
    }
}

pub proof fn lemma_digits_val_nonneg(s: Seq<char>)
    ensures
        digits_val(s) >= 0,
    decreases s.len(),
{
    if s.len() > 0 {
        lemma_digits_val_nonneg(s.drop_last());
    }
}

/// Reading more digits never shrinks the value.
pub proof fn lemma_digits_val_prefix(s: Seq<char>, i: int)
    requires
        0 <= i <= s.len(),
    ensures
        digits_val(s.take(i)) <= digits_val(s),
    decreases s.len() - i,
{
    if i == s.len() {
        assert(s.take(i) =~= s);
    } else {
        assert(s.take(i + 1).drop_last() =~= s.take(i));
        lemma_digits_val_nonneg(s.take(i));
        lemma_digits_val_prefix(s, i + 1);
    }
}

/// Parses `d` as an unsigned decimal number, refusing anything that is
/// not all digits and any value above `bound`.
pub fn parse_digits(d: &Vec<char>, bound: u64) -> (r: Option<u64>)
    ensures
        match r {
            Some(u) => d@.len() >= 1 && all_digits(d@) && u as int == digits_val(d@) && u as int
                <= bound as int,
            None => d@.len() == 0 || !all_digits(d@) || digits_val(d@) > bound as int,
        },
{
    if d.len() == 0 {
        return None;
    }
    let n = d.len();
    let mut acc: u64 = 0;
    let mut i: usize = 0;
    while i < n
        invariant
            n == d@.len(),
            i <= n,
            acc as int == digits_val(d@.take(i as int)),
            acc <= bound,
            forall|j: int| 0 <= j < i ==> #[trigger] digit_val(d@[j]) is Some,
        decreases n - i,
    {
        let dv: u64 = match d[i] {
            '0' => 0,
            '1' => 1,
            '2' => 2,
            '3' => 3,
            '4' => 4,
            '5' => 5,
            '6' => 6,
            '7' => 7,
            '8' => 8,
            '9' => 9,
            _ => {
                return None;
            },
        };
        proof {
            assert(digit_val(d@[i as int]) == Some(dv as int));
            assert(d@.take(i + 1).drop_last() =~= d@.take(i as int));
            assert(d@.take(i + 1).last() == d@[i as int]);
        }
        if dv > bound {
            proof {
                lemma_digits_val_nonneg(d@.take(i as int));
                lemma_digits_val_prefix(d@, i + 1);
                assert(acc as int * 10 + dv as int > bound as int) by (nonlinear_arith)
                    requires
                        0 <= acc as int,
                        dv as int > bound as int,
                ;
            }
            return None;
        }
        let limit: u64 = (bound - dv) / 10;
        if acc > limit {
            proof {
                let m: int = bound as int;
                assert(acc as int * 10 + dv as int > m) by (nonlinear_arith)
                    requires
                        acc as int > (m - dv as int) / 10,
                        0 <= dv as int <= 9,
                        dv as int <= m,
                        acc as int >= 0,
                ;
                lemma_digits_val_prefix(d@, i + 1);
            }
            return None;
        }
        proof {
            let m: int = bound as int;
            assert(acc as int * 10 + dv as int <= m) by (nonlinear_arith)
                requires
                    acc as int <= (m - dv as int) / 10,
                    0 <= dv as int <= 9,
                    dv as int <= m,
                    acc as int >= 0,
            ;
        }
        acc = acc * 10 + dv;
        i += 1;
    }
    proof {
        assert(d@.take(n as int) =~= d@);
    }
    Some(acc)
}

/// Parses `v` as a signed decimal `i64`; values outside the type's
/// range are refused.
pub fn parse_i64(v: &Vec<char>) -> (r: Option<i64>)
    ensures
        match spec_parse_int(v@) {
            Some(x) => if -0x8000_0000_0000_0000 <= x <= 0x7fff_ffff_ffff_ffff {
                r == Some(x as i64)
            } else {
                r is None
            },
            None => r is None,
        },
{
    if v.len() >= 1 && v[0] == '-' {
        let d = sub_chars(v, 1, v.len());
        proof {
            assert(d@ =~= v@.skip(1));
        }
        match parse_digits(&d, 0x8000_0000_0000_0000u64) {
            Some(u) => {
                proof {
                    lemma_digits_val_nonneg(d@);
                }
                if u == 0x8000_0000_0000_0000u64 {
                    Some(i64::MIN)
                } else {
                    Some(-(u as i64))
                }
            },
            None => None,
        }
    } else {
        match parse_digits(v, 0x7fff_ffff_ffff_ffffu64) {
            Some(u) => Some(u as i64),
            None => None,
        }
    }
}

/// Parses `v` as a signed decimal `i32`; values outside the type's
/// range are refused.
pub fn parse_i32(v: &Vec<char>) -> (r: Option<i32>)
    ensures
        match spec_parse_int(v@) {
            Some(x) => if -0x8000_0000 <= x <= 0x7fff_ffff {
                r == Some(x as i32)
            } else {
                r is None
            },
            None => r is None,
        },
{
    match parse_i64(v) {
        Some(x) => if -0x8000_0000 <= x && x <= 0x7fff_ffff {
            Some(x as i32)
        } else {
            None
        },
        None => None,
    }
}

/// The digit character for a value below ten.
pub open spec fn digit_char(d: int) -> char {
    if d == 0 {
        '0'
    } else if d == 1 {
        '1'
    } else if d == 2 {
        '2'
    } else if d == 3 {
        '3'
    } else if d == 4 {
        '4'
    } else if d == 5 {
        '5'
    } else if d == 6 {
        '6'
    } else if d == 7 {
        '7'
    } else if d == 8 {
        '8'
    } else {
        '9'
    }
}

/// The decimal digits of a non-negative number, most significant first.
pub open spec fn spec_uint_str(n: int) -> Seq<char>
    decreases n when n >= 0
{
    if n < 10 {
        seq![digit_char(n)]
    } else {
        spec_uint_str(n / 10).push(digit_char(n % 10))
    }
}

/// The decimal writing of an integer, with a minus sign when negative.
pub open spec fn spec_int_str(x: int) -> Seq<char> {
    if x < 0 {
        seq!['-'] + spec_uint_str(-x)
    } else {
        spec_uint_str(x)
    }
}

fn digit_char_of(d: u64) -> (c: char)
    requires
        d < 10,
    ensures
        c == digit_char(d as int),
{
    match d {
        0 => '0',
        1 => '1',
        2 => '2',
        3 => '3',
        4 => '4',
        5 => '5',
        6 => '6',
        7 => '7',
        8 => '8',
        _ => '9',
    }
}

fn reverse_chars(v: &Vec<char>) -> (r: Vec<char>)
    ensures
        r@ == v@.reverse(),
{
    let n = v.len();
    let mut r: Vec<char> = Vec::new();
    let mut i: usize = 0;
    while i < n
        invariant
            n == v@.len(),
            i <= n,
            r@.len() == i,
            forall|j: int| 0 <= j < i ==> r@[j] == v@[n - 1 - j],
        decreases n - i,
    {
        r.push(v[n - 1 - i]);
        i += 1;
    }
    proof {
        assert(r@ =~= v@.reverse());
    }
    r
}

/// The decimal digits of `m`, most significant first.
pub fn format_u64(m: u64) -> (r: Vec<char>)
    ensures
        r@ == spec_uint_str(m as int),
{
    let mut rev: Vec<char> = Vec::new();
    let mut cur: u64 = m;
    while cur >= 10
        invariant
            spec_uint_str(m as int) == spec_uint_str(cur as int) + rev@.reverse(),
        decreases cur,
    {
        let d = cur % 10;
        let c = digit_char_of(d);
        proof {
            let prev = rev@;
            assert((prev.push(c)).reverse() =~= seq![c] + prev.reverse());
            assert(spec_uint_str(cur as int) == spec_uint_str(cur as int / 10).push(
                digit_char(cur as int % 10),
            ));
            assert(spec_uint_str(cur as int / 10).push(c) + prev.reverse() =~= spec_uint_str(
                cur as int / 10,
            ) + (seq![c] + prev.reverse()));
        }
        rev.push(c);
        cur = cur / 10;
    }
    let c = digit_char_of(cur);
    proof {
        let prev = rev@;
        assert((prev.push(c)).reverse() =~= seq![c] + prev.reverse());
        assert(seq![c] + prev.reverse() =~= spec_uint_str(cur as int) + prev.reverse());
    }
    rev.push(c);
    reverse_chars(&rev)
}

/// The decimal writing of `x`.
pub fn format_i64(x: i64) -> (r: Vec<char>)
    ensures
        r@ == spec_int_str(x as int),
{
    if x >= 0 {
        format_u64(x as u64)
    } else {
        let m: u64 = ((-(x + 1)) as u64) + 1;
        proof {
            assert(m as int == -(x as int));
        }
        let digits = format_u64(m);
        let mut out: Vec<char> = Vec::new();
        out.push('-');
        let mut tail = digits;
        out.append(&mut tail);
        proof {
            assert(out@ =~= spec_int_str(x as int));
        }
        out
    }
}

} // verus!
