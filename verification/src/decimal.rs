//! Decimal numbers: reading one out of a text as `u64`'s `FromStr` does after a trim,
//! and writing one.

use vstd::prelude::*;
use crate::text::{is_space, is_space_char, chars_of};

verus! {

/// `c` is one of the ASCII digits `0` to `9`.
pub open spec fn is_digit(c: char) -> bool {
    48 <= (c as u32) <= 57
}

/// The value of an ASCII digit.
pub open spec fn digit_value(c: char) -> nat {
    ((c as u32) - 48) as nat
}

/// Every character of `s` is an ASCII digit.
pub open spec fn all_digits(s: Seq<char>) -> bool {
    forall|i: int| 0 <= i < s.len() ==> is_digit(#[trigger] s[i])
}

/// The number that the digits of `s` write in base ten.
pub open spec fn dec_value(s: Seq<char>) -> nat
    decreases s.len(),
{
    if s.len() == 0 {
        0
    } else {
        dec_value(s.drop_last()) * 10 + digit_value(s.last())
    }
}

/// `s` without its leading white space.
pub open spec fn trim_start(s: Seq<char>) -> Seq<char>
    decreases s.len(),
{
    if s.len() > 0 && is_space(s[0]) {
        trim_start(s.drop_first())
    } else {
        s
    }
}

/// `s` without its trailing white space.
pub open spec fn trim_end(s: Seq<char>) -> Seq<char>
    decreases s.len(),
{
    if s.len() > 0 && is_space(s.last()) {
        trim_end(s.drop_last())
    } else {
        s
    }
}

/// `s` without its leading and trailing white space, as `str::trim` gives it.
pub open spec fn trim(s: Seq<char>) -> Seq<char> {
    trim_end(trim_start(s))
}

/// What `text.trim().parse::<u64>()` gives: after the trim an optional `+` and then
/// one or more ASCII digits whose value fits in `u64`; nothing otherwise.
pub open spec fn parsed_u64(text: Seq<char>) -> Option<u64> {
    let t = trim(text);
    let d = if t.len() > 0 && t[0] == '+' {
        t.drop_first()
    } else {
        t
    };
    if d.len() > 0 && all_digits(d) && dec_value(d) <= u64::MAX {
        Some(dec_value(d) as u64)
    } else {
        None
    }
}

/// A longer run of digits is worth at least as much as its beginning.
proof fn lemma_dec_value_prefix(d: Seq<char>, i: int)
    requires
        0 <= i <= d.len(),
    ensures
        dec_value(d.take(i)) <= dec_value(d),
    decreases d.len(),
{
    if i < d.len() {
        assert(d.drop_last().take(i) =~= d.take(i));
        lemma_dec_value_prefix(d.drop_last(), i);
    } else {
        assert(d.take(i) =~= d);
    }
}

/// Reads a decimal number out of `text` as `text.trim().parse::<u64>()` does: the
/// number where the text holds one that fits, nothing otherwise.
pub fn parse_u64(text: &str) -> (r: Option<u64>)
    ensures
        r == parsed_u64(text@),
{
    let s = chars_of(text);
    let n = s.len();
    let mut lo: usize = 0;
    assert(s@.skip(0) =~= s@);
    while lo < n && is_space_char(s[lo])
        invariant
            n == s.len(),
            lo <= n,
            trim_start(s@) == trim_start(s@.skip(lo as int)),
        decreases n - lo,
    {
        assert(s@.skip(lo as int)[0] == s@[lo as int]);
        assert(s@.skip(lo as int).drop_first() =~= s@.skip(lo + 1));
        lo = lo + 1;
    }
    proof {
        if lo < n {
            assert(s@.skip(lo as int)[0] == s@[lo as int]);
        }
    }
    let ghost u = s@.skip(lo as int);
    assert(trim_start(s@) == u);
    let mut hi: usize = n;
    assert(u.take((n - lo) as int) =~= u);
    while hi > lo && is_space_char(s[hi - 1])
        invariant
            n == s.len(),
            lo <= hi <= n,
            u == s@.skip(lo as int),
            trim_end(u) == trim_end(u.take(hi - lo)),
        decreases hi,
    {
        assert(u.take(hi - lo).last() == s@[hi - 1]);
        assert(u.take(hi - lo).drop_last() =~= u.take(hi - 1 - lo));
        hi = hi - 1;
    }
    proof {
        if hi > lo {
            assert(u.take(hi - lo).last() == s@[hi - 1]);
        }
    }
    let ghost t = u.take(hi - lo);
    assert(trim(s@) == t);
    let mut start = lo;
    if lo < hi && s[lo] == '+' {
        start = lo + 1;
    }
    let ghost d = s@.subrange(start as int, hi as int);
    assert(d =~= (if t.len() > 0 && t[0] == '+' {
        t.drop_first()
    } else {
        t
    }));
    if start >= hi {
        return None;
    }
    let mut acc: u64 = 0;
    let mut i = start;
    while i < hi
        invariant
            n == s.len(),
            start <= i <= hi <= n,
            d == s@.subrange(start as int, hi as int),
            d.len() > 0,
            parsed_u64(text@) == (if all_digits(d) && dec_value(d) <= u64::MAX {
                Some(dec_value(d) as u64)
            } else {
                None
            }),
            all_digits(d.take(i - start)),
            acc as nat == dec_value(d.take(i - start)),
        decreases hi - i,
    {
        let c = s[i];
        let ghost k = i - start;
        assert(d[k] == c);
        assert(d.take(k + 1).drop_last() =~= d.take(k));
        assert(d.take(k + 1).last() == c);
        if !((c as u32) >= 48 && (c as u32) <= 57) {
            assert(!is_digit(d[k]));
            return None;
        }
        let dv = ((c as u32) - 48) as u64;
        let m = acc.checked_mul(10);
        match m {
            None => {
                proof {
                    lemma_dec_value_prefix(d, k + 1);
                }
                return None;
            },
            Some(m) => {
                let a = m.checked_add(dv);
                match a {
                    None => {
                        proof {
                            lemma_dec_value_prefix(d, k + 1);
                        }
                        return None;
                    },
                    Some(a) => {
                        acc = a;
                    },
                }
            },
        }
        i = i + 1;
    }
    assert(d.take(hi - start) =~= d);
    Some(acc)
}

/// The ASCII digit of a number below ten.
pub open spec fn digit_char(v: nat) -> char {
    if v == 0 {
        '0'
    } else if v == 1 {
        '1'
    } else if v == 2 {
        '2'
    } else if v == 3 {
        '3'
    } else if v == 4 {
        '4'
    } else if v == 5 {
        '5'
    } else if v == 6 {
        '6'
    } else if v == 7 {
        '7'
    } else if v == 8 {
        '8'
    } else {
        '9'
    }
}

/// The ASCII digit of a number below ten.
fn digit_of(v: usize) -> (c: char)
    requires
        v < 10,
    ensures
        c == digit_char(v as nat),
{
    if v == 0 {
        '0'
    } else if v == 1 {
        '1'
    } else if v == 2 {
        '2'
    } else if v == 3 {
        '3'
    } else if v == 4 {
        '4'
    } else if v == 5 {
        '5'
    } else if v == 6 {
        '6'
    } else if v == 7 {
        '7'
    } else if v == 8 {
        '8'
    } else {
        '9'
    }
}

/// The decimal digits of `v`, as `Display` writes an unsigned number.
pub open spec fn dec_digits(v: nat) -> Seq<char>
    decreases v,
{
    if v < 10 {
        seq![digit_char(v)]
    } else {
        dec_digits(v / 10).push(digit_char(v % 10))
    }
}

/// The decimal digits of `v`.
pub fn decimal_chars(v: usize) -> (r: Vec<char>)
    ensures
        r@ == dec_digits(v as nat),
    decreases v,
{
    if v < 10 {
        let c = digit_of(v);
        vec![c]
    } else {
        let mut r = decimal_chars(v / 10);
        let c = digit_of(v % 10);
        r.push(c);
        r
    }
}

/// Writing a number in decimal and reading it back gives the number.
pub proof fn law_decimal_roundtrip(v: u64)
    ensures
        parsed_u64(dec_digits(v as nat)) == Some(v),
{
    lemma_digits(v as nat);
    let s = dec_digits(v as nat);
    assert(trim_start(s) == s);
    assert(trim_end(s) == s);
}

/// The decimal digits of a number are ASCII digits that write it.
proof fn lemma_digits(v: nat)
    ensures
        dec_digits(v).len() > 0,
        all_digits(dec_digits(v)),
        dec_value(dec_digits(v)) == v,
    decreases v,
{
    if v >= 10 {
        lemma_digits(v / 10);
        let s = dec_digits(v);
        assert(s.drop_last() =~= dec_digits(v / 10));
        assert forall|i: int| 0 <= i < s.len() implies is_digit(#[trigger] s[i]) by {
            if i < s.len() - 1 {
                assert(s[i] == dec_digits(v / 10)[i]);
            }
        }
        lemma_digit_char(v % 10);
        assert(s.last() == digit_char(v % 10));
        assert(v == (v / 10) * 10 + v % 10);
        assert(dec_value(s) == dec_value(s.drop_last()) * 10 + digit_value(s.last()));
    } else {
        lemma_digit_char(v);
        let s = dec_digits(v);
        assert(s.drop_last().len() == 0);
        assert(dec_value(s) == dec_value(s.drop_last()) * 10 + digit_value(s.last()));
    }
}

/// The digit of a number below ten is an ASCII digit worth that number.
proof fn lemma_digit_char(d: nat)
    requires
        d < 10,
    ensures
        is_digit(digit_char(d)),
        digit_value(digit_char(d)) == d,
{
}

} // verus!
