//! Character-level helpers: white space, searching for a character or a
//! pattern, cutting a text at a delimiter, and building strings.

use vstd::prelude::*;

verus! {

/// Unicode `White_Space`: the characters that `char::is_whitespace` and the
/// `\s` class of a Unicode regular expression accept.
pub open spec fn is_white_space(c: char) -> bool {
    ||| ('\u{9}' <= c && c <= '\u{d}')
    ||| c == ' '
    ||| c == '\u{85}'
    ||| c == '\u{a0}'
    ||| c == '\u{1680}'
    ||| ('\u{2000}' <= c && c <= '\u{200a}')
    ||| c == '\u{2028}'
    ||| c == '\u{2029}'
    ||| c == '\u{202f}'
    ||| c == '\u{205f}'
    ||| c == '\u{3000}'
}

/// Whether `s` holds nothing but white space (so that trimming it leaves
/// nothing).
pub open spec fn is_blank_seq(s: Seq<char>) -> bool {
    forall|i: int| 0 <= i < s.len() ==> #[trigger] is_white_space(s[i])
}

/// Index of the first `d` at or after `i`, or the length of `s` when there is
/// none.
pub open spec fn next_index(s: Seq<char>, d: char, i: int) -> int
    decreases s.len() - i,
{
    if i < 0 || i >= s.len() {
        s.len() as int
    } else if s[i] == d {
        i
    } else {
        next_index(s, d, i + 1)
    }
}

/// Index of the last `d` among the first `j` characters of `s`, or -1.
pub open spec fn last_index(s: Seq<char>, d: char, j: int) -> int
    decreases j,
{
    if j <= 0 {
        -1
    } else if s[j - 1] == d {
        j - 1
    } else {
        last_index(s, d, j - 1)
    }
}

/// The first piece of `s` cut at `d` (`split(d).nth(0)`).
pub open spec fn before_first(s: Seq<char>, d: char) -> Seq<char> {
    s.take(next_index(s, d, 0))
}

/// The last piece of `s` cut at `d` (`split(d).last()`).
pub open spec fn after_last(s: Seq<char>, d: char) -> Seq<char> {
    s.skip(last_index(s, d, s.len() as int) + 1)
}

/// Everything before the last `d`, or nothing when `d` does not occur: all the
/// pieces of `s` cut at `d` but the last, joined again with `d`.
pub open spec fn before_last(s: Seq<char>, d: char) -> Seq<char> {
    let k = last_index(s, d, s.len() as int);
    if k < 0 {
        Seq::empty()
    } else {
        s.take(k)
    }
}

/// The second piece of `s` cut at `d` (`split(d).nth(1)`): what stands
/// between the first `d` and the next one (or the end); none when `d` does
/// not occur.
pub open spec fn second_piece(s: Seq<char>, d: char) -> Option<Seq<char>> {
    let i = next_index(s, d, 0);
    if i >= s.len() {
        None
    } else {
        Some(s.subrange(i + 1, next_index(s, d, i + 1)))
    }
}

/// The text of an optional string.
pub open spec fn opt_view(o: Option<String>) -> Option<Seq<char>> {
    match o {
        Some(s) => Some(s@),
        None => None,
    }
}

/// `p` occurs in `s` starting at `i`.
pub open spec fn occurs_at(s: Seq<char>, p: Seq<char>, i: int) -> bool {
    0 <= i && i + p.len() <= s.len() && s.subrange(i, i + p.len()) == p
}

/// `p` occurs somewhere in `s`.
pub open spec fn contains_seq(s: Seq<char>, p: Seq<char>) -> bool {
    exists|i: int| #[trigger] occurs_at(s, p, i)
}

/// The test "is not `d`".
pub open spec fn differs_from(d: char) -> spec_fn(char) -> bool {
    |c: char| c != d
}

/// `s` without any `d`.
pub open spec fn without_char(s: Seq<char>, d: char) -> Seq<char> {
    s.filter(differs_from(d))
}

pub proof fn lemma_next_index(s: Seq<char>, d: char, i: int)
    requires
        0 <= i <= s.len(),
    ensures
        i <= next_index(s, d, i) <= s.len(),
        next_index(s, d, i) < s.len() ==> s[next_index(s, d, i)] == d,
        forall|k: int| i <= k < next_index(s, d, i) ==> s[k] != d,
    decreases s.len() - i,
{
    if i < s.len() && s[i] != d {
        lemma_next_index(s, d, i + 1);
    }
}

pub proof fn lemma_last_index(s: Seq<char>, d: char, j: int)
    requires
        0 <= j <= s.len(),
    ensures
        -1 <= last_index(s, d, j) < j,
        last_index(s, d, j) >= 0 ==> s[last_index(s, d, j)] == d,
        forall|k: int| last_index(s, d, j) < k < j ==> s[k] != d,
    decreases j,
{
    if j > 0 && s[j - 1] != d {
        lemma_last_index(s, d, j - 1);
    }
}

/// Whether `c` is white space (`char::is_whitespace`).
pub fn white_space(c: char) -> (r: bool)
    ensures
        r == is_white_space(c),
{
    ('\u{9}' <= c && c <= '\u{d}') || c == ' ' || c == '\u{85}' || c == '\u{a0}' || c
        == '\u{1680}' || ('\u{2000}' <= c && c <= '\u{200a}') || c == '\u{2028}' || c
        == '\u{2029}' || c == '\u{202f}' || c == '\u{205f}' || c == '\u{3000}'
}

/// Whether `s` holds nothing but white space (`s.trim().is_empty()`).
pub fn is_blank(s: &Vec<char>) -> (r: bool)
    ensures
        r == is_blank_seq(s@),
{
    let mut i: usize = 0;
    while i < s.len()
        invariant
            i <= s.len(),
            forall|k: int| 0 <= k < i ==> #[trigger] is_white_space(s@[k]),
        decreases s.len() - i,
    {
        if !white_space(s[i]) {
            return false;
        }
        i += 1;
    }
    true
}

/// Index of the first `d` at or after `from`, or the length of `s`.
pub fn find_char(s: &Vec<char>, d: char, from: usize) -> (r: usize)
    requires
        from <= s.len(),
    ensures
        r == next_index(s@, d, from as int),
{
    let mut i = from;
    while i < s.len()
        invariant
            from <= i <= s.len(),
            next_index(s@, d, from as int) == next_index(s@, d, i as int),
        decreases s.len() - i,
    {
        if s[i] == d {
            return i;
        }
        i += 1;
    }
    i
}

/// Index of the last `d` in `s`, if any.
pub fn rfind_char(s: &Vec<char>, d: char) -> (r: Option<usize>)
    ensures
        match r {
            Some(k) => k < s.len() && k == last_index(s@, d, s@.len() as int),
            None => last_index(s@, d, s@.len() as int) == -1,
        },
{
    let mut j = s.len();
    while j > 0
        invariant
            j <= s.len(),
            last_index(s@, d, s@.len() as int) == last_index(s@, d, j as int),
        decreases j,
    {
        if s[j - 1] == d {
            proof {
                lemma_last_index(s@, d, s@.len() as int);
            }
            return Some(j - 1);
        }
        j -= 1;
    }
    None
}

/// The characters `s[from..to]`.
pub fn slice_chars(s: &Vec<char>, from: usize, to: usize) -> (r: Vec<char>)
    requires
        from <= to <= s.len(),
    ensures
        r@ == s@.subrange(from as int, to as int),
{
    let mut r: Vec<char> = Vec::new();
    let mut i = from;
    while i < to
        invariant
            from <= i <= to <= s.len(),
            r@ == s@.subrange(from as int, i as int),
        decreases to - i,
    {
        r.push(s[i]);
        i += 1;
    }
    r
}

/// The first piece of `s` cut at `d`.
pub fn first_piece(s: &Vec<char>, d: char) -> (r: Vec<char>)
    ensures
        r@ == before_first(s@, d),
{
    let k = find_char(s, d, 0);
    proof {
        lemma_next_index(s@, d, 0);
    }
    slice_chars(s, 0, k)
}

/// The last piece of `s` cut at `d`.
pub fn last_piece(s: &Vec<char>, d: char) -> (r: Vec<char>)
    ensures
        r@ == after_last(s@, d),
{
    proof {
        lemma_last_index(s@, d, s@.len() as int);
    }
    match rfind_char(s, d) {
        Some(k) => slice_chars(s, k + 1, s.len()),
        None => slice_chars(s, 0, s.len()),
    }
}

/// Everything before the last `d`, or nothing when there is none.
pub fn head_before_last(s: &Vec<char>, d: char) -> (r: Vec<char>)
    ensures
        r@ == before_last(s@, d),
{
    proof {
        lemma_last_index(s@, d, s@.len() as int);
    }
    match rfind_char(s, d) {
        Some(k) => slice_chars(s, 0, k),
        None => Vec::new(),
    }
}

/// The second piece of `s` cut at `d`, if `d` occurs.
pub fn nth1_piece(s: &Vec<char>, d: char) -> (r: Option<Vec<char>>)
    ensures
        match r {
            Some(v) => second_piece(s@, d) == Some(v@),
            None => second_piece(s@, d) is None,
        },
{
    let i = find_char(s, d, 0);
    proof {
        lemma_next_index(s@, d, 0);
    }
    if i >= s.len() {
        None
    } else {
        let j = find_char(s, d, i + 1);
        proof {
            lemma_next_index(s@, d, i + 1);
        }
        Some(slice_chars(s, i + 1, j))
    }
}

/// Whether `p` occurs in `s` starting at `i`.
pub fn matches_at(s: &Vec<char>, p: &Vec<char>, i: usize) -> (r: bool)
    ensures
        r == occurs_at(s@, p@, i as int),
{
    if i > s.len() || p.len() > s.len() - i {
        return false;
    }
    let mut k: usize = 0;
    while k < p.len()
        invariant
            i + p.len() <= s.len(),
            k <= p.len(),
            forall|m: int| 0 <= m < k ==> s@[i + m] == p@[m],
        decreases p.len() - k,
    {
        if s[i + k] != p[k] {
            assert(s@.subrange(i as int, i + p@.len())[k as int] != p@[k as int]);
            return false;
        }
        k += 1;
    }
    assert(s@.subrange(i as int, i + p@.len()) =~= p@);
    true
}

/// Whether `p` occurs somewhere in `s` (`str::contains`).
pub fn contains(s: &Vec<char>, p: &Vec<char>) -> (r: bool)
    ensures
        r == contains_seq(s@, p@),
{
    if p.len() == 0 {
        assert(s@.subrange(0, 0) =~= p@);
        assert(occurs_at(s@, p@, 0));
        return true;
    }
    if p.len() > s.len() {
        assert forall|k: int| !#[trigger] occurs_at(s@, p@, k) by {}
        return false;
    }
    let last = s.len() - p.len();
    let mut i: usize = 0;
    while i <= last
        invariant
            last == s.len() - p.len(),
            last < s.len(),
            i <= last + 1,
            forall|k: int| 0 <= k < i ==> !#[trigger] occurs_at(s@, p@, k),
        decreases last + 1 - i,
    {
        if matches_at(s, p, i) {
            return true;
        }
        i += 1;
    }
    assert forall|k: int| !#[trigger] occurs_at(s@, p@, k) by {
        if 0 <= k < i {
        }
    }
    false
}

/// `s` without any `d` (`str::replace(d, "")`).
pub fn remove_char(s: &Vec<char>, d: char) -> (r: Vec<char>)
    ensures
        r@ == without_char(s@, d),
{
    let mut r: Vec<char> = Vec::new();
    let mut i: usize = 0;
    while i < s.len()
        invariant
            i <= s.len(),
            r@ == without_char(s@.take(i as int), d),
        decreases s.len() - i,
    {
        proof {
            reveal(Seq::filter);
            assert(s@.take(i + 1).drop_last() =~= s@.take(i as int));
        }
        if s[i] != d {
            r.push(s[i]);
        }
        i += 1;
    }
    assert(s@.take(s.len() as int) =~= s@);
    r
}

/// Appends one character (`String::push`).
#[verifier::external_body]
pub(crate) fn push_char(s: &mut String, c: char)
    ensures
        final(s)@ == old(s)@.push(c),
{
    s.push(c);
}

/// Appends a string slice (`String::push_str`).
#[verifier::external_body]
pub(crate) fn push_str(s: &mut String, t: &str)
    ensures
        final(s)@ == old(s)@ + t@,
{
    s.push_str(t);
}

/// Appends characters to a string.
pub fn push_chars(s: &mut String, v: &Vec<char>)
    ensures
        final(s)@ == old(s)@ + v@,
{
    let mut i: usize = 0;
    while i < v.len()
        invariant
            i <= v.len(),
            s@ == old(s)@ + v@.take(i as int),
        decreases v.len() - i,
    {
        push_char(s, v[i]);
        i += 1;
        assert(v@.take(i as int) =~= v@.take(i - 1).push(v@[i - 1]));
    }
    assert(v@.take(v.len() as int) =~= v@);
}

/// The string made of the characters of `v`.
pub fn string_of(v: &Vec<char>) -> (r: String)
    ensures
        r@ == v@,
{
    let mut s = String::new();
    push_chars(&mut s, v);
    assert(s@ =~= v@);
    s
}

/// The characters of `s`, in order.
pub fn chars_of(s: &str) -> (r: Vec<char>)
    ensures
        r@ == s@,
{
    let mut v: Vec<char> = Vec::new();
    for c in it: s.chars()
        invariant
            v@ == it.seq().take(it.index() as int),
    {
        v.push(c);
    }
    v
}

} // verus!
