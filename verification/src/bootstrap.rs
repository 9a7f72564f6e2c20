//! Finding a Canva design's data in its page: the page assigns it to
//! `window['bootstrap']`, either as `JSON.parse('...')` of a JavaScript
//! string or as an object literal. The JSON text found here is read by the
//! caller.

use vstd::prelude::*;
use crate::canva::{unescape_js, unescape_js_string};
use crate::split::{chars_of, find_chars, find_from, lemma_find_from, matches_at, string_from_range};
use crate::text::{is_whitespace, is_ws, to_owned_string};

verus! {

/// The text that starts the assignment.
pub open spec fn assign_prefix() -> Seq<char> {
    "window['bootstrap']"@
}

/// The end of the run of whitespace starting at `i`.
pub open spec fn ws_run(s: Seq<char>, i: int) -> int
    decreases s.len() - i,
{
    if 0 <= i < s.len() && is_ws(s[i]) {
        ws_run(s, i + 1)
    } else {
        i
    }
}

/// Where the assigned value starts when `window['bootstrap'] = ` (with any
/// whitespace around `=`) starts at `i`.
pub open spec fn assign_end(s: Seq<char>, i: int) -> Option<int> {
    if matches_at(s, assign_prefix(), i) {
        let j = ws_run(s, i + 19);
        if 0 <= j < s.len() && s[j] == '=' {
            Some(ws_run(s, j + 1))
        } else {
            None
        }
    } else {
        None
    }
}

/// Where the single-quoted JavaScript string whose body starts at `k` is
/// closed: its body holds no bare `'`, and each `\` escapes the next
/// character, which is no line feed.
pub open spec fn body_end(s: Seq<char>, k: int) -> Option<int>
    decreases s.len() - k,
{
    if k < 0 || k >= s.len() {
        None
    } else if s[k] == '\'' {
        Some(k)
    } else if s[k] == '\\' {
        if k + 1 < s.len() && s[k + 1] != '\n' {
            body_end(s, k + 2)
        } else {
            None
        }
    } else {
        body_end(s, k + 1)
    }
}

/// The string body when `window['bootstrap'] = JSON.parse('...')` starts at
/// `i` (the pattern
/// `window\['bootstrap'\]\s*=\s*JSON\.parse\('((?:[^'\\]|\\.)*)'\)`).
pub open spec fn quoted_form_at(s: Seq<char>, i: int) -> Option<Seq<char>> {
    match assign_end(s, i) {
        Some(j) => if matches_at(s, "JSON.parse('"@, j) {
            match body_end(s, j + 12) {
                Some(e) => if e + 1 < s.len() && s[e + 1] == ')' {
                    Some(s.subrange(j + 12, e))
                } else {
                    None
                },
                None => None,
            }
        } else {
            None
        },
        None => None,
    }
}

/// The object literal when `window['bootstrap'] = {...};` starts at `i`,
/// up to the first `};` (the pattern
/// `window\['bootstrap'\]\s*=\s*(\{[\s\S]*?\});`).
pub open spec fn object_form_at(s: Seq<char>, i: int) -> Option<Seq<char>> {
    match assign_end(s, i) {
        Some(j) => if 0 <= j < s.len() && s[j] == '{' {
            match find_from(s, "};"@, j + 1) {
                Some(m) => Some(s.subrange(j, m + 1)),
                None => None,
            }
        } else {
            None
        },
        None => None,
    }
}

/// The first `JSON.parse` assignment at or after `i`.
pub open spec fn first_quoted(s: Seq<char>, i: int) -> Option<Seq<char>>
    decreases s.len() - i,
{
    if i < 0 || i >= s.len() {
        None
    } else {
        match quoted_form_at(s, i) {
            Some(b) => Some(b),
            None => first_quoted(s, i + 1),
        }
    }
}

/// The first object-literal assignment at or after `i`.
pub open spec fn first_object(s: Seq<char>, i: int) -> Option<Seq<char>>
    decreases s.len() - i,
{
    if i < 0 || i >= s.len() {
        None
    } else {
        match object_form_at(s, i) {
            Some(b) => Some(b),
            None => first_object(s, i + 1),
        }
    }
}

pub open spec fn no_bootstrap_message() -> Seq<char> {
    "Could not find window['bootstrap'] in page HTML"@
}

/// The JSON text of a page's design data: the unescaped string of the
/// first `JSON.parse` assignment, else the first object literal.
pub open spec fn bootstrap_text(html: Seq<char>) -> Option<Seq<char>> {
    match first_quoted(html, 0) {
        Some(b) => Some(unescape_js(b)),
        None => first_object(html, 0),
    }
}

proof fn lemma_first_skip(s: Seq<char>, i: int, k: int)
    requires
        0 <= i <= k,
        forall|j: int| i <= j < k ==> !matches_at(s, assign_prefix(), j),
    ensures
        first_quoted(s, i) == first_quoted(s, k),
        first_object(s, i) == first_object(s, k),
    decreases k - i,
{
    if i < k {
        lemma_first_skip(s, i + 1, k);
    }
}

proof fn lemma_first_none(s: Seq<char>, i: int)
    requires
        0 <= i,
        forall|j: int| i <= j ==> !matches_at(s, assign_prefix(), j),
    ensures
        first_quoted(s, i) is None,
        first_object(s, i) is None,
    decreases s.len() - i,
{
    if i < s.len() {
        lemma_first_none(s, i + 1);
    }
}

fn ws_end(v: &Vec<char>, i: usize) -> (r: usize)
    requires
        i <= v@.len(),
    ensures
        r == ws_run(v@, i as int),
        r <= v@.len(),
{
    let mut j = i;
    while j < v.len() && is_whitespace(v[j])
        invariant
            i <= j <= v@.len(),
            ws_run(v@, i as int) == ws_run(v@, j as int),
        decreases v@.len() - j,
    {
        j = j + 1;
    }
    j
}

fn matches_here(v: &Vec<char>, p: &Vec<char>, i: usize) -> (r: bool)
    ensures
        r == matches_at(v@, p@, i as int),
{
    proof {
        lemma_find_from(v@, p@, i as int);
    }
    match find_chars(v, p, i) {
        Some(k) => k == i,
        None => false,
    }
}

fn assign_end_of(v: &Vec<char>, prefix: &Vec<char>, i: usize) -> (r: Option<usize>)
    requires
        prefix@ == assign_prefix(),
    ensures
        match r {
            Some(j) => assign_end(v@, i as int) == Some(j as int) && j <= v@.len(),
            None => assign_end(v@, i as int) is None,
        },
{
    proof {
        reveal_strlit("window['bootstrap']");
        assert(assign_prefix().len() == 19);
    }
    if !matches_here(v, prefix, i) {
        return None;
    }
    let n = v.len();
    assert(i + 19 <= n);
    let j = ws_end(v, i + 19);
    if j < v.len() && v[j] == '=' {
        Some(ws_end(v, j + 1))
    } else {
        None
    }
}

fn body_end_of(v: &Vec<char>, from: usize) -> (r: Option<usize>)
    ensures
        match r {
            Some(e) => body_end(v@, from as int) == Some(e as int) && from <= e < v@.len(),
            None => body_end(v@, from as int) is None,
        },
{
    let mut k = from;
    loop
        invariant
            from <= k,
            body_end(v@, from as int) == body_end(v@, k as int),
        decreases v@.len() - k,
    {
        if k >= v.len() {
            return None;
        }
        if v[k] == '\'' {
            return Some(k);
        }
        if v[k] == '\\' {
            if k + 1 < v.len() && v[k + 1] != '\n' {
                k = k + 2;
            } else {
                return None;
            }
        } else {
            k = k + 1;
        }
    }
}

fn quoted_form_of(v: &Vec<char>, prefix: &Vec<char>, opener: &Vec<char>, i: usize) -> (r: Option<(usize, usize)>)
    requires
        prefix@ == assign_prefix(),
        opener@ == "JSON.parse('"@,
    ensures
        match r {
            Some((a, b)) => a <= b <= v@.len() && quoted_form_at(v@, i as int) == Some(v@.subrange(a as int, b as int)),
            None => quoted_form_at(v@, i as int) is None,
        },
{
    proof {
        reveal_strlit("JSON.parse('");
        assert("JSON.parse('"@.len() == 12);
    }
    let j = match assign_end_of(v, prefix, i) {
        Some(j) => j,
        None => return None,
    };
    if !matches_here(v, opener, j) {
        return None;
    }
    let n = v.len();
    assert(j + 12 <= n);
    match body_end_of(v, j + 12) {
        Some(e) => if e + 1 < v.len() && v[e + 1] == ')' {
            Some((j + 12, e))
        } else {
            None
        },
        None => None,
    }
}

fn object_form_of(v: &Vec<char>, prefix: &Vec<char>, closer: &Vec<char>, i: usize) -> (r: Option<(usize, usize)>)
    requires
        prefix@ == assign_prefix(),
        closer@ == "};"@,
    ensures
        match r {
            Some((a, b)) => a <= b <= v@.len() && object_form_at(v@, i as int) == Some(v@.subrange(a as int, b as int)),
            None => object_form_at(v@, i as int) is None,
        },
{
    proof {
        reveal_strlit("};");
        assert("};"@.len() == 2);
    }
    let j = match assign_end_of(v, prefix, i) {
        Some(j) => j,
        None => return None,
    };
    if j < v.len() && v[j] == '{' {
        proof {
            lemma_find_from(v@, closer@, j + 1);
        }
        match find_chars(v, closer, j + 1) {
            Some(m) => Some((j, m + 1)),
            None => None,
        }
    } else {
        None
    }
}

/// Finds the design data of a Canva page: the unescaped string of the
/// first `window['bootstrap'] = JSON.parse('...')`, else the first
/// `window['bootstrap'] = {...};` object.
pub fn bootstrap_json(html: &str) -> (r: Result<String, String>)
    ensures
        match bootstrap_text(html@) {
            Some(t) => r matches Ok(x) && x@ == t,
            None => r matches Err(e) && e@ == no_bootstrap_message(),
        },
{
    let v = chars_of(html);
    let prefix = chars_of("window['bootstrap']");
    let opener = chars_of("JSON.parse('");
    let closer = chars_of("};");
    proof {
        reveal_strlit("window['bootstrap']");
        reveal_strlit("JSON.parse('");
        reveal_strlit("};");
        assert(assign_prefix().len() == 19);
    }
    let mut i: usize = 0;
    let mut quoted: Option<(usize, usize)> = None;
    while i < v.len()
        invariant_except_break
            quoted is None,
        invariant
            i <= v@.len(),
            v@ == html@,
            prefix@ == assign_prefix(),
            prefix@.len() == 19,
            opener@ == "JSON.parse('"@,
            first_quoted(v@, 0) == first_quoted(v@, i as int),
        ensures
            match quoted {
                Some((a, b)) => a <= b <= v@.len() && first_quoted(v@, 0) == Some(v@.subrange(a as int, b as int)),
                None => first_quoted(v@, 0) is None,
            },
        decreases v@.len() - i,
    {
        proof {
            lemma_find_from(v@, prefix@, i as int);
        }
        match find_chars(&v, &prefix, i) {
            None => {
                proof {
                    lemma_first_none(v@, i as int);
                }
                i = v.len();
            },
            Some(k) => {
                proof {
                    lemma_first_skip(v@, i as int, k as int);
                }
                match quoted_form_of(&v, &prefix, &opener, k) {
                    Some(range) => {
                        quoted = Some(range);
                        break;
                    },
                    None => {
                        i = k + 1;
                    },
                }
            },
        }
    }
    match quoted {
        Some((a, b)) => {
            let body = string_from_range(&v, a, b);
            return Ok(unescape_js_string(body.as_str()));
        },
        None => {},
    }
    let mut i: usize = 0;
    while i < v.len()
        invariant
            i <= v@.len(),
            v@ == html@,
            prefix@ == assign_prefix(),
            prefix@.len() == 19,
            closer@ == "};"@,
            first_quoted(v@, 0) is None,
            first_object(v@, 0) == first_object(v@, i as int),
        decreases v@.len() - i,
    {
        proof {
            lemma_find_from(v@, prefix@, i as int);
        }
        match find_chars(&v, &prefix, i) {
            None => {
                proof {
                    lemma_first_none(v@, i as int);
                }
                i = v.len();
            },
            Some(k) => {
                proof {
                    lemma_first_skip(v@, i as int, k as int);
                }
                match object_form_of(&v, &prefix, &closer, k) {
                    Some((a, b)) => {
                        return Ok(string_from_range(&v, a, b));
                    },
                    None => {
                        i = k + 1;
                    },
                }
            },
        }
    }
    Err(to_owned_string("Could not find window['bootstrap'] in page HTML"))
}

} // verus!
