//! The key token that unlocks the stream sources of a player page.
//!
//! The page hides the token in one of six places, tried in this order: the
//! `content` of `meta[name="_gg_fb"]`, the `nonce` of a `script`, the
//! `data-dpi` of a `div`, the first quoted text of a script that mentions
//! `window._xy_ws`, an HTML comment `<!-- _is_th: TOKEN -->`, and the three
//! parts of `window._lk_db = { x: "..", y: "..", z: ".." }` put together.
//!
//! The last two forms are read by scanners over the characters of the page.
//! They find what the patterns `<!--\s*_is_th:\s*(.*?)\s*-->` and
//! `window\._lk_db\s*=\s*\{\s*x:\s*"([^"]+)",\s*y:\s*"([^"]+)",\s*z:\s*"([^"]+)"\s*\}`
//! find with leftmost-first matching, `\s` being Unicode white space and `.`
//! any character but a line break: the leftmost start that matches, and
//! there the shortest lazy group.

use crate::dom::{attr, attribute, count, find, load, loaded, node_at, node_count, nth, selected, text, text_content};
use crate::text::{
    chars_of, contains, contains_seq, is_white_space, next_index, lemma_next_index, nth1_piece,
    occurs_at, matches_at, second_piece, slice_chars, string_of, white_space, find_char, opt_view,
};
use visdom::types::Elements;
use vstd::prelude::*;

verus! {

/// The first position at or after `i` that is not white space.
pub open spec fn skip_space(s: Seq<char>, i: int) -> int
    decreases s.len() - i,
{
    if 0 <= i < s.len() && is_white_space(s[i]) {
        skip_space(s, i + 1)
    } else {
        i
    }
}

/// After the literal `lit` at `i`, the first position that is not white
/// space; none when `lit` does not stand at `i`.
pub open spec fn after_lit(s: Seq<char>, i: int, lit: Seq<char>) -> Option<int> {
    if occurs_at(s, lit, i) {
        Some(skip_space(s, i + lit.len()))
    } else {
        None
    }
}

/// Where the token of a comment ends when it starts at `e` or earlier:
/// the first position from `e` on, before any line break, after which
/// white space and `-->` close the comment.
pub open spec fn comment_close(s: Seq<char>, e: int) -> Option<int>
    decreases s.len() + 1 - e,
{
    if e < 0 || e > s.len() {
        None
    } else if occurs_at(s, "-->"@, skip_space(s, e)) {
        Some(e)
    } else if e < s.len() && s[e] != '\n' {
        comment_close(s, e + 1)
    } else {
        None
    }
}

/// The token of a comment `<!-- _is_th: TOKEN -->` that starts at `i`:
/// the shortest text, on one line, between the white space after `_is_th:`
/// and the white space before `-->`.
pub open spec fn comment_token_at(s: Seq<char>, i: int) -> Option<Seq<char>> {
    match after_lit(s, i, "<!--"@) {
        Some(j) => match after_lit(s, j, "_is_th:"@) {
            Some(k) => match comment_close(s, k) {
                Some(e) => Some(s.subrange(k, e)),
                None => None,
            },
            None => None,
        },
        None => None,
    }
}

/// The token of the first such comment that starts at `i` or later.
pub open spec fn comment_token_from(s: Seq<char>, i: int) -> Option<Seq<char>>
    decreases s.len() - i,
{
    if i < 0 || i >= s.len() {
        None
    } else {
        match comment_token_at(s, i) {
            Some(t) => Some(t),
            None => comment_token_from(s, i + 1),
        }
    }
}

/// A non-empty quoted text at `i`: the text and the position after its
/// closing quote.
pub open spec fn quoted_at(s: Seq<char>, i: int) -> Option<(Seq<char>, int)> {
    if 0 <= i < s.len() && s[i] == '"' {
        let q = next_index(s, '"', i + 1);
        if q < s.len() && q > i + 1 {
            Some((s.subrange(i + 1, q), q + 1))
        } else {
            None
        }
    } else {
        None
    }
}

/// A part `name: "VALUE"` that starts at `i` (white space allowed after
/// the colon): the value and the position after it.
pub open spec fn part_at(s: Seq<char>, i: int, name: Seq<char>) -> Option<(Seq<char>, int)> {
    match after_lit(s, i, name) {
        Some(j) => quoted_at(s, j),
        None => None,
    }
}

/// The token of `window._lk_db = { x: "X", y: "Y", z: "Z" }` that starts
/// at `i`: `X`, `Y` and `Z` put together.
pub open spec fn lk_token_at(s: Seq<char>, i: int) -> Option<Seq<char>> {
    match after_lit(s, i, "window._lk_db"@) {
        Some(a) => match after_lit(s, a, "="@) {
            Some(b) => match after_lit(s, b, "{"@) {
                Some(c) => match part_at(s, c, "x:"@) {
                    Some((x, d)) => match after_lit(s, d, ","@) {
                        Some(e) => match part_at(s, e, "y:"@) {
                            Some((y, f)) => match after_lit(s, f, ","@) {
                                Some(g) => match part_at(s, g, "z:"@) {
                                    Some((z, h)) => if occurs_at(s, "}"@, skip_space(s, h)) {
                                        Some(x + y + z)
                                    } else {
                                        None
                                    },
                                    None => None,
                                },
                                None => None,
                            },
                            None => None,
                        },
                        None => None,
                    },
                    None => None,
                },
                None => None,
            },
            None => None,
        },
        None => None,
    }
}

/// The token of the first such assignment that starts at `i` or later.
pub open spec fn lk_token_from(s: Seq<char>, i: int) -> Option<Seq<char>>
    decreases s.len() - i,
{
    if i < 0 || i >= s.len() {
        None
    } else {
        match lk_token_at(s, i) {
            Some(t) => Some(t),
            None => lk_token_from(s, i + 1),
        }
    }
}

/// The token in the text of a script: its first quoted piece, when the
/// script mentions `window._xy_ws`.
pub open spec fn script_token(text: Seq<char>) -> Option<Seq<char>> {
    if contains_seq(text, "window._xy_ws"@) {
        second_piece(text, '"')
    } else {
        None
    }
}

/// The token of the first script, from the `i`-th on, that holds one.
pub open spec fn scripts_token_from(scripts: Elements<'static>, i: int) -> Option<Seq<char>>
    decreases node_count(scripts) - i,
{
    if i < 0 || i >= node_count(scripts) {
        None
    } else {
        match script_token(text_content(node_at(scripts, i))) {
            Some(t) => Some(t),
            None => scripts_token_from(scripts, i + 1),
        }
    }
}

/// The first of the six places that holds a token.
pub open spec fn choose_token(
    meta: Option<Seq<char>>,
    nonce: Option<Seq<char>>,
    dpi: Option<Seq<char>>,
    script: Option<Seq<char>>,
    comment: Option<Seq<char>>,
    lk: Option<Seq<char>>,
) -> Option<Seq<char>> {
    if meta is Some {
        meta
    } else if nonce is Some {
        nonce
    } else if dpi is Some {
        dpi
    } else if script is Some {
        script
    } else if comment is Some {
        comment
    } else {
        lk
    }
}

/// The token of a parsed page `doc` whose text is `html`.
pub open spec fn document_token(doc: Elements<'static>, html: Seq<char>) -> Option<Seq<char>> {
    choose_token(
        attribute(selected(doc, "meta[name=\"_gg_fb\"]"@), "content"@),
        attribute(selected(doc, "script[nonce]"@), "nonce"@),
        attribute(selected(doc, "div[data-dpi]"@), "data-dpi"@),
        scripts_token_from(selected(doc, "script"@), 0),
        comment_token_from(html, 0),
        lk_token_from(html, 0),
    )
}

/// The token of the page `html`: `None` when `visdom` cannot parse it,
/// else the token found, if any.
pub open spec fn page_token(html: Seq<char>) -> Option<Option<Seq<char>>> {
    match loaded(html) {
        Some(doc) => Some(document_token(doc, html)),
        None => None,
    }
}

proof fn lemma_skip_stops(s: Seq<char>, e: int, stop: int)
    requires
        0 <= e <= stop < s.len(),
        !is_white_space(s[stop]),
    ensures
        e <= skip_space(s, e) <= stop,
    decreases stop - e,
{
    if is_white_space(s[e]) {
        lemma_skip_stops(s, e + 1, stop);
    }
}

proof fn lemma_close_walks(s: Seq<char>, e: int, end: int)
    requires
        0 <= e <= end <= s.len(),
        comment_close(s, end) == Some(end),
        forall|m: int| e <= m < end ==> #[trigger] s[m] != '\n',
        forall|m: int| e <= m < end ==> !#[trigger] occurs_at(s, "-->"@, skip_space(s, m)),
    ensures
        comment_close(s, e) == Some(end),
    decreases end - e,
{
    if e < end {
        assert(!occurs_at(s, "-->"@, skip_space(s, e)));
        assert(s[e] != '\n');
        lemma_close_walks(s, e + 1, end);
    }
}

proof fn lemma_scan_skips(s: Seq<char>, i: int, p: int)
    requires
        0 <= i <= p <= s.len(),
        forall|k: int| i <= k < p ==> #[trigger] comment_token_at(s, k) is None,
    ensures
        comment_token_from(s, i) == comment_token_from(s, p),
    decreases p - i,
{
    if i < p {
        assert(comment_token_at(s, i) is None);
        lemma_scan_skips(s, i + 1, p);
    }
}

/// A comment `<!-- _is_th: T -->` gives `T` as the token, when nothing
/// before it opens a tag and `T` is one line that neither starts nor ends
/// with white space and holds no `-->`.
pub proof fn lemma_comment_token_found(prefix: Seq<char>, t: Seq<char>, suffix: Seq<char>)
    requires
        forall|i: int| 0 <= i < prefix.len() ==> prefix[i] != '<',
        forall|i: int| 0 <= i < t.len() ==> t[i] != '\n',
        t.len() > 0 ==> !is_white_space(t[0]) && !is_white_space(t[t.len() - 1]),
        !contains_seq(t, "-->"@),
    ensures
        comment_token_from(prefix + "<!-- _is_th: "@ + t + " -->"@ + suffix, 0) == Some(t),
{
    reveal_strlit("<!-- _is_th: ");
    reveal_strlit(" -->");
    reveal_strlit("<!--");
    reveal_strlit("_is_th:");
    reveal_strlit("-->");
    let o = "<!-- _is_th: "@;
    let c = " -->"@;
    let s = prefix + o + t + c + suffix;
    let p = prefix.len() as int;
    let k = p + 13;
    let end = k + t.len();
    assert(o.len() == 13);
    assert(c.len() == 4);
    assert(forall|m: int| 0 <= m < p ==> #[trigger] s[m] == prefix[m]);
    assert(forall|m: int| 0 <= m < 13 ==> #[trigger] s[p + m] == o[m]);
    assert(forall|m: int| 0 <= m < t.len() ==> #[trigger] s[k + m] == t[m]);
    assert(forall|m: int| 0 <= m < 4 ==> #[trigger] s[end + m] == c[m]);
    // nothing before the comment opens one
    assert forall|i: int| 0 <= i < p implies #[trigger] comment_token_at(s, i) is None by {
        assert(s[i] == prefix[i]);
        if occurs_at(s, "<!--"@, i) {
            assert(s.subrange(i, i + 4)[0] == s[i]);
        }
    }
    lemma_scan_skips(s, 0, p);
    // the comment itself
    assert(s.subrange(p, p + 4) =~= "<!--"@);
    assert(s[p + 4] == ' ' && s[p + 5] == '_');
    assert(skip_space(s, p + 4) == p + 5) by {
        assert(skip_space(s, p + 5) == p + 5);
    }
    assert(s.subrange(p + 5, p + 12) =~= "_is_th:"@);
    assert(s[p + 12] == ' ');
    // where the closing `-->` stands
    assert(s[end] == ' ' && s[end + 1] == '-');
    assert(skip_space(s, end) == end + 1) by {
        assert(skip_space(s, end + 1) == end + 1);
    }
    assert(s.subrange(end + 1, end + 4) =~= "-->"@);
    assert(comment_close(s, end) == Some(end));
    if t.len() == 0 {
        assert(skip_space(s, p + 12) == end + 1) by {
            assert(skip_space(s, p + 13) == end + 1);
        }
        assert(s.subrange(end + 1, end + 1) =~= t);
        assert(comment_close(s, end + 1) == Some(end + 1)) by {
            assert(skip_space(s, end + 1) == end + 1);
        }
        assert(comment_token_at(s, p) == Some(t));
    } else {
        assert(skip_space(s, p + 12) == k) by {
            assert(s[k] == t[0]);
            assert(skip_space(s, k) == k);
        }
        assert forall|m: int| k <= m < end implies #[trigger] s[m] != '\n' by {
            assert(s[m] == t[m - k]);
        }
        assert forall|m: int| k <= m < end implies !#[trigger] occurs_at(
            s,
            "-->"@,
            skip_space(s, m),
        ) by {
            assert(s[m] == t[m - k]);
            assert(s[end - 1] == t[t.len() - 1]);
            lemma_skip_stops(s, m, end - 1);
            let q = skip_space(s, m);
            if occurs_at(s, "-->"@, q) {
                if q + 3 <= end {
                    assert(t.subrange(q - k, q - k + 3) =~= s.subrange(q, q + 3));
                    assert(occurs_at(t, "-->"@, q - k));
                } else if q == end - 1 {
                    assert(s.subrange(q, q + 3)[1] == s[end]);
                } else {
                    assert(q == end - 2);
                    assert(s.subrange(q, q + 3)[2] == s[end]);
                }
            }
        }
        lemma_close_walks(s, k, end);
        assert(s.subrange(k, end) =~= t);
        assert(comment_token_at(s, p) == Some(t));
    }
}

proof fn lemma_comment_close_one_line(s: Seq<char>, e: int)
    requires
        comment_close(s, e) is Some,
    ensures
        e <= comment_close(s, e)->0 <= s.len(),
        forall|k: int| e <= k < comment_close(s, e)->0 ==> s[k] != '\n',
    decreases s.len() + 1 - e,
{
    if !occurs_at(s, "-->"@, skip_space(s, e)) {
        lemma_comment_close_one_line(s, e + 1);
    }
}

proof fn lemma_comment_token_from_one_line(s: Seq<char>, i: int)
    requires
        comment_token_from(s, i) is Some,
    ensures
        !comment_token_from(s, i)->0.contains('\n'),
    decreases s.len() - i,
{
    match comment_token_at(s, i) {
        Some(t) => {
            let j = after_lit(s, i, "<!--"@)->0;
            let k = after_lit(s, j, "_is_th:"@)->0;
            lemma_comment_close_one_line(s, k);
            let end = comment_close(s, k)->0;
            assert forall|m: int| 0 <= m < t.len() implies t[m] != '\n' by {
                assert(t[m] == s[k + m]);
            }
        },
        None => {
            lemma_comment_token_from_one_line(s, i + 1);
        },
    }
}

/// A token hidden in a comment never spans two lines.
pub proof fn lemma_comment_token_one_line(html: Seq<char>)
    requires
        comment_token_from(html, 0) is Some,
    ensures
        !comment_token_from(html, 0)->0.contains('\n'),
{
    lemma_comment_token_from_one_line(html, 0);
}

/// The first position at or after `i` that is not white space.
fn skip_spaces(s: &Vec<char>, i: usize) -> (r: usize)
    requires
        i <= s.len(),
    ensures
        r == skip_space(s@, i as int),
        i <= r <= s.len(),
{
    let mut k = i;
    while k < s.len() && white_space(s[k])
        invariant
            i <= k <= s.len(),
            skip_space(s@, i as int) == skip_space(s@, k as int),
        decreases s.len() - k,
    {
        k += 1;
    }
    k
}

/// After the literal `lit` at `i`, the first position that is not white
/// space.
fn after_literal(s: &Vec<char>, i: usize, lit: &Vec<char>) -> (r: Option<usize>)
    ensures
        match r {
            Some(k) => after_lit(s@, i as int, lit@) == Some(k as int) && k <= s.len(),
            None => after_lit(s@, i as int, lit@) is None,
        },
{
    if matches_at(s, lit, i) {
        assert(i + lit@.len() <= s@.len());
        assert(s@.len() == s.len());
        assert(lit@.len() == lit.len());
        Some(skip_spaces(s, i + lit.len()))
    } else {
        None
    }
}

/// Where the token of a comment ends, from `e` on.
fn comment_end(s: &Vec<char>, e: usize, close: &Vec<char>) -> (r: Option<usize>)
    requires
        e <= s.len(),
        close@ == "-->"@,
    ensures
        match r {
            Some(k) => comment_close(s@, e as int) == Some(k as int) && e <= k <= s.len(),
            None => comment_close(s@, e as int) is None,
        },
{
    let mut k = e;
    loop
        invariant
            e <= k <= s.len(),
            close@ == "-->"@,
            comment_close(s@, e as int) == comment_close(s@, k as int),
        decreases s.len() - k,
    {
        let p = skip_spaces(s, k);
        if matches_at(s, close, p) {
            return Some(k);
        }
        if k < s.len() && s[k] != '\n' {
            k += 1;
        } else {
            return None;
        }
    }
}

/// The literals that the two hidden forms are written with.
struct Marks {
    open: Vec<char>,
    key: Vec<char>,
    close: Vec<char>,
    lk: Vec<char>,
    eq: Vec<char>,
    brace: Vec<char>,
    x: Vec<char>,
    y: Vec<char>,
    z: Vec<char>,
    comma: Vec<char>,
    end: Vec<char>,
}

impl Marks {
    spec fn wf(&self) -> bool {
        &&& self.open@ == "<!--"@
        &&& self.key@ == "_is_th:"@
        &&& self.close@ == "-->"@
        &&& self.lk@ == "window._lk_db"@
        &&& self.eq@ == "="@
        &&& self.brace@ == "{"@
        &&& self.x@ == "x:"@
        &&& self.y@ == "y:"@
        &&& self.z@ == "z:"@
        &&& self.comma@ == ","@
        &&& self.end@ == "}"@
    }

    fn new() -> (r: Marks)
        ensures
            r.wf(),
    {
        Marks {
            open: chars_of("<!--"),
            key: chars_of("_is_th:"),
            close: chars_of("-->"),
            lk: chars_of("window._lk_db"),
            eq: chars_of("="),
            brace: chars_of("{"),
            x: chars_of("x:"),
            y: chars_of("y:"),
            z: chars_of("z:"),
            comma: chars_of(","),
            end: chars_of("}"),
        }
    }
}

/// The token of a comment that starts at `i`.
fn comment_token_here(s: &Vec<char>, i: usize, m: &Marks) -> (r: Option<Vec<char>>)
    requires
        m.wf(),
    ensures
        match r {
            Some(t) => comment_token_at(s@, i as int) == Some(t@),
            None => comment_token_at(s@, i as int) is None,
        },
{
    let j = match after_literal(s, i, &m.open) {
        Some(j) => j,
        None => return None,
    };
    let k = match after_literal(s, j, &m.key) {
        Some(k) => k,
        None => return None,
    };
    match comment_end(s, k, &m.close) {
        Some(e) => Some(slice_chars(s, k, e)),
        None => None,
    }
}

/// The token of the first comment `<!-- _is_th: TOKEN -->` in `s`.
fn comment_token(s: &Vec<char>, m: &Marks) -> (r: Option<Vec<char>>)
    requires
        m.wf(),
    ensures
        match r {
            Some(t) => comment_token_from(s@, 0) == Some(t@),
            None => comment_token_from(s@, 0) is None,
        },
{
    let mut i: usize = 0;
    while i < s.len()
        invariant
            m.wf(),
            i <= s.len(),
            comment_token_from(s@, 0) == comment_token_from(s@, i as int),
        decreases s.len() - i,
    {
        match comment_token_here(s, i, m) {
            Some(t) => return Some(t),
            None => {},
        }
        i += 1;
    }
    None
}

/// A non-empty quoted text at `i`.
fn quoted(s: &Vec<char>, i: usize) -> (r: Option<(Vec<char>, usize)>)
    requires
        i <= s.len(),
    ensures
        match r {
            Some((t, k)) => quoted_at(s@, i as int) == Some((t@, k as int)) && k <= s.len(),
            None => quoted_at(s@, i as int) is None,
        },
{
    if i < s.len() && s[i] == '"' {
        let q = find_char(s, '"', i + 1);
        proof {
            lemma_next_index(s@, '"', i + 1);
        }
        if q < s.len() && q > i + 1 {
            Some((slice_chars(s, i + 1, q), q + 1))
        } else {
            None
        }
    } else {
        None
    }
}

/// A part `name: "VALUE"` at `i`.
fn part(s: &Vec<char>, i: usize, name: &Vec<char>) -> (r: Option<(Vec<char>, usize)>)
    ensures
        match r {
            Some((t, k)) => part_at(s@, i as int, name@) == Some((t@, k as int)) && k <= s.len(),
            None => part_at(s@, i as int, name@) is None,
        },
{
    match after_literal(s, i, name) {
        Some(j) => quoted(s, j),
        None => None,
    }
}

/// The token of a `window._lk_db` assignment that starts at `i`.
fn lk_token_here(s: &Vec<char>, i: usize, m: &Marks) -> (r: Option<Vec<char>>)
    requires
        m.wf(),
    ensures
        match r {
            Some(t) => lk_token_at(s@, i as int) == Some(t@),
            None => lk_token_at(s@, i as int) is None,
        },
{
    let a = match after_literal(s, i, &m.lk) {
        Some(a) => a,
        None => return None,
    };
    let b = match after_literal(s, a, &m.eq) {
        Some(b) => b,
        None => return None,
    };
    let c = match after_literal(s, b, &m.brace) {
        Some(c) => c,
        None => return None,
    };
    let (x, d) = match part(s, c, &m.x) {
        Some(p) => p,
        None => return None,
    };
    let e = match after_literal(s, d, &m.comma) {
        Some(e) => e,
        None => return None,
    };
    let (y, f) = match part(s, e, &m.y) {
        Some(p) => p,
        None => return None,
    };
    let g = match after_literal(s, f, &m.comma) {
        Some(g) => g,
        None => return None,
    };
    let (z, h) = match part(s, g, &m.z) {
        Some(p) => p,
        None => return None,
    };
    let p = skip_spaces(s, h);
    if matches_at(s, &m.end, p) {
        let mut t = x;
        let mut y = y;
        let mut z = z;
        t.append(&mut y);
        t.append(&mut z);
        Some(t)
    } else {
        None
    }
}

/// The token of the first `window._lk_db` assignment in `s`.
fn lk_token(s: &Vec<char>, m: &Marks) -> (r: Option<Vec<char>>)
    requires
        m.wf(),
    ensures
        match r {
            Some(t) => lk_token_from(s@, 0) == Some(t@),
            None => lk_token_from(s@, 0) is None,
        },
{
    let mut i: usize = 0;
    while i < s.len()
        invariant
            m.wf(),
            i <= s.len(),
            lk_token_from(s@, 0) == lk_token_from(s@, i as int),
        decreases s.len() - i,
    {
        match lk_token_here(s, i, m) {
            Some(t) => return Some(t),
            None => {},
        }
        i += 1;
    }
    None
}

/// The token in the text of a script, if it mentions `window._xy_ws`.
pub fn token_of_script(text: &str) -> (r: Option<String>)
    ensures
        opt_view(r) == script_token(text@),
{
    let t = chars_of(text);
    let mark = chars_of("window._xy_ws");
    if contains(&t, &mark) {
        match nth1_piece(&t, '"') {
            Some(p) => Some(string_of(&p)),
            None => None,
        }
    } else {
        None
    }
}

/// The token of the first script that holds one.
fn scripts_token(scripts: &Elements<'static>) -> (r: Option<String>)
    ensures
        opt_view(r) == scripts_token_from(*scripts, 0),
{
    let n = count(scripts);
    let mut i: usize = 0;
    while i < n
        invariant
            i <= n,
            n == node_count(*scripts),
            scripts_token_from(*scripts, 0) == scripts_token_from(*scripts, i as int),
        decreases n - i,
    {
        let node = nth(scripts, i);
        match token_of_script(text(&node).as_str()) {
            Some(t) => return Some(t),
            None => {},
        }
        i += 1;
    }
    None
}

/// The token of the first comment `<!-- _is_th: TOKEN -->` in `html`.
pub fn comment_token_of(html: &str) -> (r: Option<String>)
    ensures
        opt_view(r) == comment_token_from(html@, 0),
{
    let s = chars_of(html);
    let m = Marks::new();
    match comment_token(&s, &m) {
        Some(t) => Some(string_of(&t)),
        None => None,
    }
}

/// The token of the first assignment `window._lk_db = { x: "X", y: "Y",
/// z: "Z" }` in `html`: `X`, `Y` and `Z` put together.
pub fn assigned_token_of(html: &str) -> (r: Option<String>)
    ensures
        opt_view(r) == lk_token_from(html@, 0),
{
    let s = chars_of(html);
    let m = Marks::new();
    match lk_token(&s, &m) {
        Some(t) => Some(string_of(&t)),
        None => None,
    }
}

/// The page could not be parsed.
pub struct UnreadablePage;

/// The key token of the player page `html`, looked for in the six places
/// in order; an error when `visdom` cannot parse the page.
pub fn extract_key_token(html: &str) -> (r: Result<Option<String>, UnreadablePage>)
    ensures
        match r {
            Ok(t) => page_token(html@) == Some(opt_view(t)),
            Err(_) => page_token(html@) is None,
        },
{
    let dom = match load(html) {
        Some(d) => d,
        None => return Err(UnreadablePage),
    };
    if let Some(content) = attr(&find(&dom, "meta[name=\"_gg_fb\"]"), "content") {
        return Ok(Some(content));
    }
    if let Some(nonce) = attr(&find(&dom, "script[nonce]"), "nonce") {
        return Ok(Some(nonce));
    }
    if let Some(dpi) = attr(&find(&dom, "div[data-dpi]"), "data-dpi") {
        return Ok(Some(dpi));
    }
    if let Some(t) = scripts_token(&find(&dom, "script")) {
        return Ok(Some(t));
    }
    if let Some(t) = comment_token_of(html) {
        return Ok(Some(t));
    }
    if let Some(t) = assigned_token_of(html) {
        return Ok(Some(t));
    }
    Ok(None)
}

} // verus!
