//! Character-level text handling: white space, prefixes, word splitting.

use vstd::prelude::*;
use vstd::utf8::encode_utf8;

verus! {

broadcast use vstd::string::group_string_axioms;

/// The characters with the Unicode `White_Space` property: what `char::is_whitespace`,
/// `str::trim` and `str::split_whitespace` treat as white space.
pub open spec fn is_space(c: char) -> bool {
    let u = c as u32;
    ||| 0x09 <= u <= 0x0d
    ||| u == 0x20 || u == 0x85 || u == 0xa0 || u == 0x1680
    ||| 0x2000 <= u <= 0x200a
    ||| u == 0x2028 || u == 0x2029 || u == 0x202f || u == 0x205f || u == 0x3000
}

/// Tests a character for the Unicode `White_Space` property.
pub fn is_space_char(c: char) -> (b: bool)
    ensures
        b == is_space(c),
{
    let u = c as u32;
    (0x09 <= u && u <= 0x0d) || u == 0x20 || u == 0x85 || u == 0xa0 || u == 0x1680 || (0x2000
        <= u && u <= 0x200a) || u == 0x2028 || u == 0x2029 || u == 0x202f || u == 0x205f || u
        == 0x3000
}

/// The characters of a string slice, in order.
pub fn chars_of(s: &str) -> (v: Vec<char>)
    ensures
        v@ == s@,
{
    let mut v: Vec<char> = Vec::new();
    for c in it: s.chars()
        invariant
            v@ == it.seq().take(it.index() as int),
    {
        v.push(c);
    }
    v
}

/// `String::push`: appends one character.
#[verifier::external_body]
fn push_char(s: &mut String, c: char)
    ensures
        final(s)@ == old(s)@.push(c),
{
    s.push(c);
}

/// The string made of the given characters.
pub fn string_of(v: &Vec<char>) -> (s: String)
    ensures
        s@ == v@,
{
    let mut s = String::new();
    for i in 0..v.len()
        invariant
            s@ == v@.take(i as int),
    {
        push_char(&mut s, v[i]);
        assert(v@.take(i + 1) =~= v@.take(i as int).push(v@[i as int]));
    }
    assert(v@.take(v@.len() as int) =~= v@);
    s
}


/// `p` is a prefix of `s`.
pub open spec fn has_prefix(s: Seq<char>, p: Seq<char>) -> bool {
    p.len() <= s.len() && s.take(p.len() as int) == p
}

/// `s` ends with the character `c`.
pub open spec fn ends_with_char(s: Seq<char>, c: char) -> bool {
    s.len() > 0 && s.last() == c
}

/// The characters of several words, each taken by its view.
pub open spec fn deep(v: Seq<Vec<char>>) -> Seq<Seq<char>> {
    v.map_values(|w: Vec<char>| w@)
}

/// The views of several strings.
pub open spec fn strs(v: Seq<String>) -> Seq<Seq<char>> {
    v.map_values(|w: String| w@)
}

/// Tests whether `p` is a prefix of `s`.
pub fn starts_with(s: &Vec<char>, p: &Vec<char>) -> (b: bool)
    ensures
        b == has_prefix(s@, p@),
{
    if p.len() > s.len() {
        return false;
    }
    let mut i: usize = 0;
    while i < p.len()
        invariant
            p.len() <= s.len(),
            i <= p.len(),
            s@.take(i as int) == p@.take(i as int),
        decreases p.len() - i,
    {
        if s[i] != p[i] {
            assert(s@.take(p.len() as int)[i as int] != p@[i as int]);
            return false;
        }
        assert(s@.take(i + 1) =~= s@.take(i as int).push(s@[i as int]));
        assert(p@.take(i + 1) =~= p@.take(i as int).push(p@[i as int]));
        i = i + 1;
    }
    assert(p@.take(p.len() as int) =~= p@);
    true
}

/// Tests two character sequences for equality.
pub fn same_chars(a: &Vec<char>, b: &Vec<char>) -> (r: bool)
    ensures
        r == (a@ == b@),
{
    if a.len() != b.len() {
        return false;
    }
    let r = starts_with(a, b);
    assert(a@.take(b@.len() as int) =~= a@);
    r
}

/// Tests whether the characters of `a` are those of the string slice `lit`.
pub fn is_text(a: &Vec<char>, lit: &str) -> (r: bool)
    ensures
        r == (a@ == lit@),
{
    let l = chars_of(lit);
    same_chars(a, &l)
}

/// Tests whether `s` holds the character `c`.
pub fn has_char(s: &Vec<char>, c: char) -> (b: bool)
    ensures
        b == s@.contains(c),
{
    let mut i: usize = 0;
    while i < s.len()
        invariant
            i <= s.len(),
            forall|k: int| 0 <= k < i ==> s@[k] != c,
        decreases s.len() - i,
    {
        if s[i] == c {
            assert(s@[i as int] == c);
            return true;
        }
        i = i + 1;
    }
    false
}

/// Tests whether `s` ends with the character `c`.
pub fn ends_with(s: &Vec<char>, c: char) -> (b: bool)
    ensures
        b == ends_with_char(s@, c),
{
    s.len() > 0 && s[s.len() - 1] == c
}

/// Appends the characters of `t` to `s`.
pub fn append_chars(s: &mut Vec<char>, t: &Vec<char>)
    ensures
        final(s)@ == old(s)@ + t@,
{
    let ghost s0 = s@;
    for i in 0..t.len()
        invariant
            s@ == s0 + t@.take(i as int),
    {
        s.push(t[i]);
        assert(t@.take(i + 1) =~= t@.take(i as int).push(t@[i as int]));
        assert(s0 + t@.take(i + 1) =~= (s0 + t@.take(i as int)).push(t@[i as int]));
    }
    assert(t@.take(t@.len() as int) =~= t@);
}

/// The characters of `a` followed by those of `b`.
pub fn concat_chars(a: &Vec<char>, b: &Vec<char>) -> (r: Vec<char>)
    ensures
        r@ == a@ + b@,
{
    let mut r: Vec<char> = Vec::new();
    append_chars(&mut r, a);
    append_chars(&mut r, b);
    assert(Seq::<char>::empty() + a@ + b@ =~= a@ + b@);
    r
}

/// The characters of a string slice followed by those of another.
pub fn concat_str(a: &Vec<char>, lit: &str) -> (r: Vec<char>)
    ensures
        r@ == a@ + lit@,
{
    let l = chars_of(lit);
    concat_chars(a, &l)
}

/// A copy of a character sequence.
pub fn copy_chars(a: &Vec<char>) -> (r: Vec<char>)
    ensures
        r@ == a@,
{
    let mut r: Vec<char> = Vec::new();
    append_chars(&mut r, a);
    assert(Seq::<char>::empty() + a@ =~= a@);
    r
}

/// The number of characters of the first word of `s`: the characters before the first
/// white space.
pub open spec fn word_len(s: Seq<char>) -> nat
    decreases s.len(),
{
    if s.len() == 0 || is_space(s[0]) {
        0
    } else {
        1 + word_len(s.drop_first())
    }
}

/// The first word of `s` is no longer than `s`.
pub proof fn lemma_word_len_bound(s: Seq<char>)
    ensures
        word_len(s) <= s.len(),
        s.len() > 0 && !is_space(s[0]) ==> word_len(s) >= 1,
    decreases s.len(),
{
    if s.len() > 0 && !is_space(s[0]) {
        lemma_word_len_bound(s.drop_first());
    }
}

/// The words of `s`, as `str::split_whitespace` yields them: the maximal runs of
/// characters without white space, in order.
pub open spec fn split_ws(s: Seq<char>) -> Seq<Seq<char>>
    decreases s.len(),
{
    if s.len() == 0 {
        seq![]
    } else if is_space(s[0]) {
        split_ws(s.drop_first())
    } else {
        proof {
            lemma_word_len_bound(s);
        }
        seq![s.take(word_len(s) as int)] + split_ws(s.skip(word_len(s) as int))
    }
}

/// Every character of `s` is white space: what `str::trim` leaves empty.
pub open spec fn is_blank(s: Seq<char>) -> bool {
    forall|i: int| 0 <= i < s.len() ==> is_space(#[trigger] s[i])
}

/// A text has no words exactly when it is blank.
pub proof fn lemma_blank_iff_no_words(s: Seq<char>)
    ensures
        is_blank(s) <==> split_ws(s).len() == 0,
    decreases s.len(),
{
    if s.len() > 0 {
        if is_space(s[0]) {
            lemma_blank_iff_no_words(s.drop_first());
            if is_blank(s.drop_first()) {
                assert forall|i: int| 0 <= i < s.len() implies is_space(#[trigger] s[i]) by {
                    if i > 0 {
                        assert(s[i] == s.drop_first()[i - 1]);
                    }
                }
            }
            if is_blank(s) {
                assert forall|i: int| 0 <= i < s.drop_first().len() implies is_space(
                    #[trigger] s.drop_first()[i],
                ) by {
                    assert(s.drop_first()[i] == s[i + 1]);
                }
            }
        } else {
            assert(!is_space(s[0]));
        }
    }
}

/// Splits `s` into its words, as `str::split_whitespace` does.
pub fn split_whitespace(s: &Vec<char>) -> (words: Vec<Vec<char>>)
    ensures
        deep(words@) == split_ws(s@),
{
    let n = s.len();
    let mut words: Vec<Vec<char>> = Vec::new();
    let mut i: usize = 0;
    assert(s@.skip(0) =~= s@);
    while i < n
        invariant
            n == s.len(),
            i <= n,
            split_ws(s@) == deep(words@) + split_ws(s@.skip(i as int)),
        decreases n - i,
    {
        let ghost rest = s@.skip(i as int);
        if is_space_char(s[i]) {
            assert(rest[0] == s@[i as int]);
            assert(rest.drop_first() =~= s@.skip(i + 1));
            i = i + 1;
        } else {
            let mut j: usize = i;
            let mut w: Vec<char> = Vec::new();
            assert(s@.skip(j as int) =~= rest);
            while j < n && !is_space_char(s[j])
                invariant
                    n == s.len(),
                    i <= j <= n,
                    rest == s@.skip(i as int),
                    w@ == s@.subrange(i as int, j as int),
                    word_len(rest) == (j - i) + word_len(s@.skip(j as int)),
                decreases n - j,
            {
                let ghost r = s@.skip(j as int);
                assert(r[0] == s@[j as int]);
                assert(r.drop_first() =~= s@.skip(j + 1));
                w.push(s[j]);
                assert(s@.subrange(i as int, j + 1) =~= s@.subrange(i as int, j as int).push(
                    s@[j as int],
                ));
                j = j + 1;
            }
            proof {
                if j < n {
                    assert(s@.skip(j as int)[0] == s@[j as int]);
                }
                assert(word_len(s@.skip(j as int)) == 0);
                assert(rest.take(word_len(rest) as int) =~= w@);
                assert(rest.skip(word_len(rest) as int) =~= s@.skip(j as int));
                assert(deep(words@.push(w)) =~= deep(words@).push(w@));
                assert(deep(words@) + split_ws(rest) =~= deep(words@).push(w@) + split_ws(
                    s@.skip(j as int),
                ));
            }
            words.push(w);
            i = j;
        }
    }
    assert(split_ws(s@.skip(n as int)) =~= Seq::<Seq<char>>::empty());
    assert(deep(words@) + Seq::<Seq<char>>::empty() =~= deep(words@));
    words
}


/// The UTF-8 encoding of two texts side by side is the two encodings side by side.
pub proof fn lemma_encode_concat(a: Seq<char>, b: Seq<char>)
    ensures
        encode_utf8(a + b) == encode_utf8(a) + encode_utf8(b),
    decreases a.len(),
{
    if a.len() == 0 {
        assert(a + b =~= b);
        assert(encode_utf8(a) + encode_utf8(b) =~= encode_utf8(b));
    } else {
        assert((a + b)[0] == a[0]);
        assert((a + b).drop_first() =~= a.drop_first() + b);
        lemma_encode_concat(a.drop_first(), b);
        let e = vstd::utf8::encode_scalar(a[0] as u32);
        assert(e + (encode_utf8(a.drop_first()) + encode_utf8(b)) =~= (e + encode_utf8(
            a.drop_first(),
        )) + encode_utf8(b));
    }
}

/// No word of a text takes more bytes in UTF-8 than the whole text.
pub proof fn lemma_word_encoding_bound(s: Seq<char>, k: int)
    requires
        0 <= k < split_ws(s).len(),
    ensures
        encode_utf8(split_ws(s)[k]).len() <= encode_utf8(s).len(),
    decreases s.len(),
{
    if s.len() > 0 {
        let e = vstd::utf8::encode_scalar(s[0] as u32);
        if is_space(s[0]) {
            lemma_word_encoding_bound(s.drop_first(), k);
            assert(encode_utf8(s) == e + encode_utf8(s.drop_first()));
        } else {
            lemma_word_len_bound(s);
            let n = word_len(s) as int;
            assert(s =~= s.take(n) + s.skip(n));
            lemma_encode_concat(s.take(n), s.skip(n));
            if k > 0 {
                assert(split_ws(s)[k] == split_ws(s.skip(n))[k - 1]);
                lemma_word_encoding_bound(s.skip(n), k - 1);
            }
        }
    }
}

/// The pieces of `s` between occurrences of `c`, as `str::split` with a character
/// yields them: one more piece than there are occurrences, empty ones included.
pub open spec fn split_char(s: Seq<char>, c: char) -> Seq<Seq<char>>
    decreases s.len(),
{
    if s.len() == 0 {
        seq![Seq::empty()]
    } else {
        let r = split_char(s.drop_last(), c);
        if s.last() == c {
            r.push(Seq::empty())
        } else {
            r.update(r.len() - 1, r.last().push(s.last()))
        }
    }
}

/// There is always at least one piece.
pub proof fn lemma_split_char_len(s: Seq<char>, c: char)
    ensures
        split_char(s, c).len() >= 1,
    decreases s.len(),
{
    if s.len() > 0 {
        lemma_split_char_len(s.drop_last(), c);
    }
}

/// Splits `s` at each occurrence of `c`.
pub fn split_on(s: &Vec<char>, c: char) -> (r: Vec<Vec<char>>)
    ensures
        deep(r@) == split_char(s@, c),
{
    let mut done: Vec<Vec<char>> = Vec::new();
    let mut cur: Vec<char> = Vec::new();
    assert(s@.take(0) =~= Seq::<char>::empty());
    assert(deep(done@).push(cur@) =~= split_char(s@.take(0), c));
    for i in 0..s.len()
        invariant
            deep(done@).push(cur@) == split_char(s@.take(i as int), c),
    {
        let ghost t = s@.take(i + 1);
        assert(t.drop_last() =~= s@.take(i as int));
        assert(t.last() == s@[i as int]);
        proof {
            lemma_split_char_len(s@.take(i as int), c);
        }
        if s[i] == c {
            let ghost d0 = deep(done@);
            let ghost c0 = cur@;
            done.push(cur);
            cur = Vec::new();
            assert(deep(done@) =~= d0.push(c0));
            assert(deep(done@).push(cur@) =~= (d0.push(c0)).push(Seq::<char>::empty()));
        } else {
            let ghost d0 = deep(done@);
            let ghost c0 = cur@;
            cur.push(s[i]);
            assert(d0.push(cur@) =~= d0.push(c0).update(d0.len() as int, c0.push(s@[i as int])));
        }
    }
    assert(s@.take(s@.len() as int) =~= s@);
    let ghost d0 = deep(done@);
    let ghost c0 = cur@;
    done.push(cur);
    assert(deep(done@) =~= d0.push(c0));
    done
}

} // verus!
