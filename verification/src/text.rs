//! Text as sequences of characters: lines, substrings, byte ranges, and the
//! helpers that build strings.

use vstd::prelude::*;
use vstd::string::StringSliceAdditionalSpecFns;
use vstd::utf8::{decode_utf8, encode_utf8, is_char_boundary, valid_utf8};

verus! {

/// Removes one carriage return at the end of a line, if there is one.
pub open spec fn strip_cr(line: Seq<char>) -> Seq<char> {
    if line.len() > 0 && line.last() == '\r' {
        line.drop_last()
    } else {
        line
    }
}

/// Splits `s` at each newline: the lines that a newline ended (without it and
/// without a carriage return before it), and the text after the last newline.
pub open spec fn split_state(s: Seq<char>) -> (Seq<Seq<char>>, Seq<char>)
    decreases s.len(),
{
    if s.len() == 0 {
        (seq![], seq![])
    } else {
        let (done, cur) = split_state(s.drop_last());
        if s.last() == '\n' {
            (done.push(strip_cr(cur)), seq![])
        } else {
            (done, cur.push(s.last()))
        }
    }
}

/// The lines of `s`, as `str::lines` gives them: split at `\n` or `\r\n`; a
/// final line without a newline counts when it is not empty.
pub open spec fn lines(s: Seq<char>) -> Seq<Seq<char>> {
    let (done, cur) = split_state(s);
    if cur.len() > 0 {
        done.push(cur)
    } else {
        done
    }
}

/// The lines joined with a newline between each two.
pub open spec fn join_lines(ls: Seq<Seq<char>>) -> Seq<char>
    decreases ls.len(),
{
    if ls.len() == 0 {
        seq![]
    } else if ls.len() == 1 {
        ls[0]
    } else {
        join_lines(ls.drop_last()) + seq!['\n'] + ls.last()
    }
}

/// `pat` occurs in `s` at index `i`.
pub open spec fn occurs_at(s: Seq<char>, pat: Seq<char>, i: int) -> bool {
    0 <= i && i + pat.len() <= s.len() && s.subrange(i, i + pat.len()) == pat
}

/// `pat` occurs somewhere in `s`.
pub open spec fn contains_sub(s: Seq<char>, pat: Seq<char>) -> bool {
    exists|i: int| occurs_at(s, pat, i)
}

/// The index of the first newline in `s` at or after `i`, or the length of `s`.
pub open spec fn line_end(s: Seq<char>, i: int) -> int
    decreases s.len() - i,
{
    if i >= s.len() || i < 0 {
        s.len() as int
    } else if s[i] == '\n' {
        i
    } else {
        line_end(s, i + 1)
    }
}

/// The first line of `s`, as `str::lines` gives it, if `s` has any line.
pub open spec fn first_line(s: Seq<char>) -> Option<Seq<char>> {
    if s.len() == 0 {
        None
    } else if line_end(s, 0) < s.len() {
        Some(strip_cr(s.take(line_end(s, 0))))
    } else {
        Some(s)
    }
}

/// The characters encoded by bytes `start` to `end` of the UTF-8 encoding of `s`.
pub open spec fn byte_slice(s: Seq<char>, start: int, end: int) -> Seq<char> {
    decode_utf8(encode_utf8(s).subrange(start, end))
}

/// `start..end` is a range of whole characters in the UTF-8 encoding of `s`.
pub open spec fn valid_byte_range(s: Seq<char>, start: int, end: int) -> bool {
    &&& start <= end
    &&& is_char_boundary(encode_utf8(s), start)
    &&& is_char_boundary(encode_utf8(s), end)
}

/// `n` spaces.
pub open spec fn spaces(n: nat) -> Seq<char> {
    Seq::new(n, |i: int| ' ')
}

/// Appends one character to a string with `String::push`.
#[verifier::external_body]
pub fn push_char(s: &mut String, c: char)
    ensures
        final(s)@ == old(s)@.push(c),
{
    s.push(c);
}

/// The characters of `s`, in order.
pub fn chars_of(s: &str) -> (v: Vec<char>)
    ensures
        v@ == s@,
{
    let mut v: Vec<char> = Vec::new();
    for c in it: s.chars()
        invariant
            v@ == it.seq().take(it.index() as int),
            it.seq() == s@,
    {
        v.push(c);
    }
    v
}

/// Appends the characters of `v` to `s`.
pub fn push_chars(s: &mut String, v: &Vec<char>)
    ensures
        final(s)@ == old(s)@ + v@,
{
    let n = v.len();
    for i in 0..n
        invariant
            n == v@.len(),
            s@ == old(s)@ + v@.take(i as int),
    {
        push_char(s, v[i]);
        proof {
            assert(v@.take(i + 1) =~= v@.take(i as int).push(v@[i as int]));
        }
    }
    proof {
        assert(v@.take(n as int) =~= v@);
    }
}

/// The string made of the characters of `v`.
pub fn string_of(v: &Vec<char>) -> (s: String)
    ensures
        s@ == v@,
{
    let mut s = String::new();
    push_chars(&mut s, v);
    proof {
        assert(s@ =~= v@);
    }
    s
}

/// Appends `n` spaces to `s`.
pub fn push_spaces(s: &mut String, n: usize)
    ensures
        final(s)@ == old(s)@ + spaces(n as nat),
{
    for i in 0..n
        invariant
            s@ == old(s)@ + spaces(i as nat),
    {
        push_char(s, ' ');
        proof {
            assert(spaces((i + 1) as nat) =~= spaces(i as nat).push(' '));
        }
    }
}

/// Whether two string slices hold the same characters.
pub fn str_equal(a: &str, b: &str) -> (r: bool)
    ensures
        r == (a@ == b@),
{
    let x = a.to_string();
    let y = b.to_string();
    x == y
}

/// Whether `pat` occurs in `s`.
pub fn contains_chars(s: &Vec<char>, pat: &Vec<char>) -> (r: bool)
    ensures
        r == contains_sub(s@, pat@),
{
    let n = s.len();
    let m = pat.len();
    if m > n {
        proof {
            assert forall|i: int| !occurs_at(s@, pat@, i) by {}
        }
        return false;
    }
    let last = n - m;
    let mut i: usize = 0;
    while i <= last
        invariant
            n == s@.len(),
            m == pat@.len(),
            m <= n,
            last == n - m,
            i <= last + 1,
            forall|k: int| 0 <= k < i ==> !occurs_at(s@, pat@, k),
        decreases last + 1 - i,
    {
        let mut j: usize = 0;
        let mut same = true;
        while j < m
            invariant
                n == s@.len(),
                m == pat@.len(),
                i + m <= n,
                j <= m,
                same == (forall|t: int| 0 <= t < j ==> s@[i + t] == pat@[t]),
            decreases m - j,
        {
            if s[i + j] != pat[j] {
                same = false;
            }
            j = j + 1;
        }
        if same {
            proof {
                assert(s@.subrange(i as int, i + m) =~= pat@);
                assert(occurs_at(s@, pat@, i as int));
            }
            return true;
        }
        proof {
            assert(!occurs_at(s@, pat@, i as int)) by {
                if occurs_at(s@, pat@, i as int) {
                    let t = choose|t: int| 0 <= t < m && s@[i + t] != pat@[t];
                    assert(s@.subrange(i as int, i + m)[t] == s@[i + t]);
                }
            }
        }
        i = i + 1;
    }
    proof {
        assert forall|k: int| !occurs_at(s@, pat@, k) by {
            if k > last {
                assert(!(k + m <= n));
            }
        }
    }
    false
}

/// The first line of `s`, as `str::lines` gives it, if `s` has any line.
pub fn first_line_of(s: &str) -> (r: Option<String>)
    ensures
        match r {
            Some(l) => first_line(s@) == Some(l@),
            None => first_line(s@) is None,
        },
{
    let chars = chars_of(s);
    let n = chars.len();
    if n == 0 {
        return None;
    }
    let mut i: usize = 0;
    while i < n && chars[i] != '\n'
        invariant
            n == chars@.len(),
            chars@ == s@,
            i <= n,
            line_end(s@, 0) == line_end(s@, i as int),
        decreases n - i,
    {
        i = i + 1;
    }
    let mut line: Vec<char> = Vec::new();
    let mut k: usize = 0;
    while k < i
        invariant
            n == chars@.len(),
            chars@ == s@,
            k <= i <= n,
            line@ == s@.take(k as int),
        decreases i - k,
    {
        line.push(chars[k]);
        proof {
            assert(s@.take(k + 1) =~= s@.take(k as int).push(s@[k as int]));
        }
        k = k + 1;
    }
    if i < n {
        let len = line.len();
        if len > 0 && line[len - 1] == '\r' {
            line.pop();
        }
        proof {
            assert(line_end(s@, 0) == i);
        }
    } else {
        proof {
            assert(line_end(s@, 0) == n);
            assert(s@.take(n as int) =~= s@);
        }
    }
    Some(string_of(&line))
}

/// Bytes `start` to `end` of `s`, which must fall between characters.
pub fn str_byte_slice(s: &str, start: usize, end: usize) -> (r: &str)
    requires
        valid_byte_range(s@, start as int, end as int),
    ensures
        r@ == byte_slice(s@, start as int, end as int),
{
    proof {
        vstd::utf8::encode_utf8_valid_utf8(s@);
        lemma_boundary_shift(s.spec_bytes(), start as int, end as int);
    }
    let (_, rest) = s.split_at(start);
    let (mid, _) = rest.split_at(end - start);
    proof {
        vstd::utf8::encode_utf8_decode_utf8(mid@);
        assert(mid.spec_bytes() =~= s.spec_bytes().subrange(start as int, end as int));
    }
    mid
}

/// A boundary at or after `a` stays a boundary in the bytes that follow `a`.
proof fn lemma_boundary_shift(bytes: Seq<u8>, a: int, b: int)
    requires
        valid_utf8(bytes),
        a <= b,
        is_char_boundary(bytes, a),
        is_char_boundary(bytes, b),
    ensures
        0 <= a <= b <= bytes.len(),
        valid_utf8(bytes.subrange(a, bytes.len() as int)),
        is_char_boundary(bytes.subrange(a, bytes.len() as int), b - a),
{
    lemma_boundary_in_range(bytes, a);
    lemma_boundary_in_range(bytes, b);
    let rest = bytes.subrange(a, bytes.len() as int);
    vstd::utf8::valid_utf8_split(bytes, a);
    vstd::utf8::is_char_boundary_start_end_of_seq(rest);
    if b < bytes.len() {
        vstd::utf8::is_char_boundary_iff_not_is_continuation_byte(bytes, b);
        vstd::utf8::is_char_boundary_iff_not_is_continuation_byte(rest, b - a);
    } else {
        assert(rest.len() == b - a);
    }
}

/// A character boundary lies within the byte sequence.
pub proof fn lemma_boundary_in_range(bytes: Seq<u8>, i: int)
    requires
        valid_utf8(bytes),
        is_char_boundary(bytes, i),
    ensures
        0 <= i <= bytes.len(),
    decreases bytes.len(),
{
    reveal_with_fuel(is_char_boundary, 2);
    if i != 0 && 0 <= i <= bytes.len() {
    } else if i != 0 {
        assert(false);
    }
}

/// Cutting a range of whole characters at a character boundary cuts its
/// characters there: bytes `a` to `c` read as bytes `a` to `b`, then `b` to `c`.
pub proof fn lemma_byte_slice_split(s: Seq<char>, a: int, b: int, c: int)
    requires
        valid_byte_range(s, a, b),
        valid_byte_range(s, b, c),
    ensures
        valid_byte_range(s, a, c),
        byte_slice(s, a, c) == byte_slice(s, a, b) + byte_slice(s, b, c),
{
    let bytes = encode_utf8(s);
    vstd::utf8::encode_utf8_valid_utf8(s);
    lemma_boundary_shift(bytes, a, c);
    lemma_boundary_shift(bytes, a, b);
    let rest = bytes.subrange(a, bytes.len() as int);
    let x = rest.subrange(0, c - a);
    vstd::utf8::valid_utf8_split(rest, c - a);
    assert(x =~= bytes.subrange(a, c));
    let k = b - a;
    if 0 < k < x.len() {
        vstd::utf8::is_char_boundary_iff_not_is_continuation_byte(rest, k);
        vstd::utf8::is_char_boundary_iff_not_is_continuation_byte(x, k);
        assert(x[k] == rest[k]);
    } else if k == x.len() {
        vstd::utf8::is_char_boundary_start_end_of_seq(x);
    }
    assert(is_char_boundary(x, k));
    vstd::utf8::decode_utf8_split(x, k);
    assert(x.subrange(0, k) =~= bytes.subrange(a, b));
    assert(x.subrange(k, x.len() as int) =~= bytes.subrange(b, c));
}

/// The whole byte range of `s` holds `s` itself.
pub proof fn lemma_full_byte_slice(s: Seq<char>)
    ensures
        valid_byte_range(s, 0, encode_utf8(s).len() as int),
        byte_slice(s, 0, encode_utf8(s).len() as int) == s,
{
    vstd::utf8::encode_utf8_valid_utf8(s);
    vstd::utf8::is_char_boundary_start_end_of_seq(encode_utf8(s));
    vstd::utf8::encode_utf8_decode_utf8(s);
    assert(encode_utf8(s).subrange(0, encode_utf8(s).len() as int) =~= encode_utf8(s));
}

/// The length of `s` in bytes.
pub fn byte_len(s: &str) -> (n: usize)
    ensures
        n == encode_utf8(s@).len(),
{
    s.as_bytes().len()
}

/// Whether byte offset `i` of `s` falls between characters.
pub fn is_boundary(s: &str, i: usize) -> (r: bool)
    ensures
        r == is_char_boundary(encode_utf8(s@), i as int),
{
    s.is_char_boundary(i)
}

} // verus!
