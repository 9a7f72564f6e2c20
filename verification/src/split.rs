//! Splitting text: by separator characters, by a separator string, and into
//! lines, with the semantics of the corresponding `str` methods.

use vstd::prelude::*;
use vstd::std_specs::iter::IteratorSpec;
use vstd::string::*;
use crate::text::{push_char, to_owned_string};

verus! {

/// The characters of `s`, in order.
pub fn chars_of(s: &str) -> (v: Vec<char>)
    ensures
        v@ == s@,
{
    broadcast use vstd::string::group_string_axioms;

    let mut it = s.chars();
    let mut v: Vec<char> = Vec::new();
    loop
        invariant
            v@ + it.remaining() == s@,
            it.obeys_prophetic_iter_laws(),
            it.decrease() is Some,
        decreases it.decrease()->0,
    {
        let ghost before = it.remaining();
        match it.next() {
            Some(c) => {
                v.push(c);
                assert(v@ + it.remaining() =~= s@) by {
                    assert(before == seq![c] + it.remaining());
                }
            },
            None => {
                assert(v@ =~= s@);
                return v;
            },
        }
    }
}

/// A `String` holding `v[from..to]`.
pub fn string_from_range(v: &Vec<char>, from: usize, to: usize) -> (r: String)
    requires
        from <= to <= v.len(),
    ensures
        r@ == v@.subrange(from as int, to as int),
{
    let mut r = String::new();
    let mut i = from;
    while i < to
        invariant
            from <= i <= to <= v.len(),
            r@ == v@.subrange(from as int, i as int),
        decreases to - i,
    {
        push_char(&mut r, v[i]);
        assert(v@.subrange(from as int, i + 1) =~= v@.subrange(from as int, i as int).push(v@[i as int]));
        i = i + 1;
    }
    r
}

// ---------------------------------------------------------------------------
// Splitting by separator characters
// ---------------------------------------------------------------------------

/// `s.split(|c| c == a || c == b)`: the pieces between separators, including
/// empty ones. A string without separators is one piece.
pub open spec fn split2(s: Seq<char>, a: char, b: char) -> Seq<Seq<char>>
    decreases s.len(),
{
    if s.len() == 0 {
        seq![Seq::<char>::empty()]
    } else {
        let rest = split2(s.drop_last(), a, b);
        let c = s.last();
        if c == a || c == b {
            rest.push(Seq::<char>::empty())
        } else {
            rest.update(rest.len() - 1, rest.last().push(c))
        }
    }
}

pub proof fn lemma_split2_nonempty(s: Seq<char>, a: char, b: char)
    ensures
        split2(s, a, b).len() >= 1,
    decreases s.len(),
{
    if s.len() > 0 {
        lemma_split2_nonempty(s.drop_last(), a, b);
    }
}

/// `split2` with a single separator character.
pub open spec fn split1(s: Seq<char>, a: char) -> Seq<Seq<char>> {
    split2(s, a, a)
}

/// The text before the first separator (`s.split(..).next()`).
pub open spec fn first_piece(s: Seq<char>, a: char, b: char) -> Seq<char> {
    split2(s, a, b)[0]
}

/// The text after the last separator (`s.rsplit(..).next()`).
pub open spec fn last_piece(s: Seq<char>, a: char, b: char) -> Seq<char> {
    split2(s, a, b).last()
}

/// `s.split(|c| c == a || c == b)` collected into owned strings.
pub fn split_chars(s: &str, a: char, b: char) -> (r: Vec<String>)
    ensures
        r@.map_values(|x: String| x@) == split2(s@, a, b),
{
    let v = chars_of(s);
    let mut pieces: Vec<String> = Vec::new();
    let mut cur = String::new();
    let mut i: usize = 0;
    while i < v.len()
        invariant
            i <= v.len(),
            v@ == s@,
            pieces@.map_values(|x: String| x@).push(cur@) == split2(v@.take(i as int), a, b),
        decreases v.len() - i,
    {
        let c = v[i];
        assert(v@.take(i + 1).drop_last() =~= v@.take(i as int));
        assert(v@.take(i + 1).last() == c);
        let ghost old_pieces = pieces@.map_values(|x: String| x@);
        let ghost old_cur = cur@;
        if c == a || c == b {
            let done = cur;
            pieces.push(done);
            cur = String::new();
            assert(pieces@.map_values(|x: String| x@) =~= old_pieces.push(old_cur));
            assert(pieces@.map_values(|x: String| x@).push(cur@) =~= old_pieces.push(old_cur).push(
                Seq::<char>::empty(),
            ));
        } else {
            push_char(&mut cur, c);
            assert(pieces@.map_values(|x: String| x@) =~= old_pieces);
            assert(pieces@.map_values(|x: String| x@).push(cur@) =~= old_pieces.push(
                old_cur,
            ).update(old_pieces.len() as int, old_cur.push(c)));
        }
        i = i + 1;
    }
    assert(v@.take(v.len() as int) =~= v@);
    let ghost before = pieces@.map_values(|x: String| x@);
    pieces.push(cur);
    assert(pieces@.map_values(|x: String| x@) =~= before.push(cur@));
    pieces
}

/// A line without the `\r` of a `\r\n` ending.
pub open spec fn strip_cr(l: Seq<char>) -> Seq<char> {
    if l.len() > 0 && l.last() == '\r' {
        l.drop_last()
    } else {
        l
    }
}

/// `s.lines()`: the text split at `\n`, each line ended by one losing a
/// `\r` before it, and no empty line after a final `\n`.
pub open spec fn text_lines(s: Seq<char>) -> Seq<Seq<char>> {
    let pieces = split1(s, '\n');
    let head = pieces.take(pieces.len() - 1).map_values(|l: Seq<char>| strip_cr(l));
    if pieces.last().len() == 0 {
        head
    } else {
        head.push(pieces.last())
    }
}

/// `s.lines()` collected into owned strings.
pub fn lines_of(s: &str) -> (r: Vec<String>)
    ensures
        r@.map_values(|x: String| x@) == text_lines(s@),
{
    let pieces = split_chars(s, '\n', '\n');
    let ghost ps = pieces@.map_values(|x: String| x@);
    proof {
        lemma_split2_nonempty(s@, '\n', '\n');
    }
    let n = pieces.len();
    let mut out: Vec<String> = Vec::new();
    let mut i: usize = 0;
    while i + 1 < n
        invariant
            n == pieces@.len(),
            n >= 1,
            i < n,
            ps == pieces@.map_values(|x: String| x@),
            out@.map_values(|x: String| x@) == ps.take(i as int).map_values(|l: Seq<char>| strip_cr(l)),
        decreases n - i,
    {
        let p = &pieces[i];
        let len = p.unicode_len();
        let line = if len > 0 && p.get_char(len - 1) == '\r' {
            to_owned_string(p.substring_char(0, len - 1))
        } else {
            to_owned_string(p.as_str())
        };
        let ghost before = out@.map_values(|x: String| x@);
        assert(ps[i as int] == p@);
        assert(line@ == strip_cr(p@)) by {
            if len > 0 && p@.last() == '\r' {
                assert(p@.subrange(0, len - 1) =~= p@.drop_last());
            }
        }
        out.push(line);
        assert(out@.map_values(|x: String| x@) =~= before.push(strip_cr(ps[i as int])));
        assert(ps.take(i + 1).map_values(|l: Seq<char>| strip_cr(l)) =~= ps.take(i as int).map_values(
            |l: Seq<char>| strip_cr(l),
        ).push(strip_cr(ps[i as int])));
        i = i + 1;
    }
    let last = &pieces[n - 1];
    assert(ps.last() == last@);
    if last.unicode_len() > 0 {
        let ghost before = out@.map_values(|x: String| x@);
        out.push(to_owned_string(last.as_str()));
        assert(out@.map_values(|x: String| x@) =~= before.push(last@));
    }
    out
}

/// The text before the first occurrence of `a` or `b`, or all of `s`.
pub fn first_piece_of(s: &str, a: char, b: char) -> (r: String)
    ensures
        r@ == first_piece(s@, a, b),
{
    let v = chars_of(s);
    let mut i: usize = 0;
    while i < v.len() && v[i] != a && v[i] != b
        invariant
            i <= v.len(),
            v@ == s@,
            forall|j: int| 0 <= j < i ==> v@[j] != a && v@[j] != b,
        decreases v.len() - i,
    {
        i = i + 1;
    }
    proof {
        lemma_first_piece(v@, a, b, i as int);
    }
    string_from_range(&v, 0, i)
}

pub proof fn lemma_first_piece(s: Seq<char>, a: char, b: char, i: int)
    requires
        0 <= i <= s.len(),
        forall|j: int| 0 <= j < i ==> s[j] != a && s[j] != b,
        i == s.len() || s[i] == a || s[i] == b,
    ensures
        first_piece(s, a, b) == s.subrange(0, i),
    decreases s.len(),
{
    lemma_first_piece_prefix(s, a, b, i);
}

proof fn lemma_first_piece_prefix(s: Seq<char>, a: char, b: char, i: int)
    requires
        0 <= i <= s.len(),
        forall|j: int| 0 <= j < i ==> s[j] != a && s[j] != b,
        i == s.len() || s[i] == a || s[i] == b,
    ensures
        split2(s, a, b)[0] == s.subrange(0, i),
    decreases s.len(),
{
    lemma_split2_nonempty(s, a, b);
    if s.len() == 0 {
        assert(s.subrange(0, 0) =~= Seq::<char>::empty());
    } else if i == s.len() {
        let t = s.drop_last();
        lemma_no_sep_single(t, a, b);
        lemma_split2_nonempty(t, a, b);
        assert(s.subrange(0, i) =~= t.push(s.last()));
    } else {
        let t = s.drop_last();
        lemma_split2_nonempty(t, a, b);
        if i == t.len() {
            lemma_no_sep_single(t, a, b);
            assert(t.subrange(0, i) =~= t);
        } else {
            lemma_first_piece_prefix(t, a, b, i);
            lemma_split2_sep_two(t, a, b, i);
        }
        assert(t.subrange(0, i) =~= s.subrange(0, i));
    }
}

/// A separator in `s` makes at least two pieces.
pub proof fn lemma_split2_sep_two(s: Seq<char>, a: char, b: char, i: int)
    requires
        0 <= i < s.len(),
        s[i] == a || s[i] == b,
    ensures
        split2(s, a, b).len() >= 2,
    decreases s.len(),
{
    let t = s.drop_last();
    lemma_split2_nonempty(t, a, b);
    if i < s.len() - 1 {
        lemma_split2_sep_two(t, a, b, i);
    }
}

/// Without separators, `split2` yields `s` itself as its only piece.
pub proof fn lemma_no_sep_single(s: Seq<char>, a: char, b: char)
    requires
        forall|j: int| 0 <= j < s.len() ==> s[j] != a && s[j] != b,
    ensures
        split2(s, a, b) == seq![s],
    decreases s.len(),
{
    if s.len() > 0 {
        let t = s.drop_last();
        lemma_no_sep_single(t, a, b);
        assert(t.push(s.last()) =~= s);
        assert(split2(s, a, b) =~= seq![s]);
    } else {
        assert(s =~= Seq::<char>::empty());
    }
}

/// The text after the last occurrence of `a` or `b`, or all of `s`.
pub fn last_piece_of(s: &str, a: char, b: char) -> (r: String)
    ensures
        r@ == last_piece(s@, a, b),
{
    let v = chars_of(s);
    let mut i: usize = v.len();
    while i > 0 && v[i - 1] != a && v[i - 1] != b
        invariant
            i <= v.len(),
            v@ == s@,
            forall|j: int| i <= j < v.len() ==> v@[j] != a && v@[j] != b,
        decreases i,
    {
        i = i - 1;
    }
    proof {
        lemma_last_piece(v@, a, b, i as int);
    }
    string_from_range(&v, i, v.len())
}

pub proof fn lemma_last_piece(s: Seq<char>, a: char, b: char, i: int)
    requires
        0 <= i <= s.len(),
        forall|j: int| i <= j < s.len() ==> s[j] != a && s[j] != b,
        i == 0 || s[i - 1] == a || s[i - 1] == b,
    ensures
        last_piece(s, a, b) == s.subrange(i, s.len() as int),
    decreases s.len(),
{
    lemma_split2_nonempty(s, a, b);
    if s.len() == 0 {
        assert(s.subrange(i, 0) =~= Seq::<char>::empty());
    } else if i == s.len() {
        assert(s.subrange(i, s.len() as int) =~= Seq::<char>::empty());
    } else {
        let t = s.drop_last();
        lemma_split2_nonempty(t, a, b);
        lemma_last_piece(t, a, b, i);
        assert(t.subrange(i, t.len() as int).push(s.last()) =~= s.subrange(i, s.len() as int));
    }
}

// ---------------------------------------------------------------------------
// Searching and splitting by a separator string
// ---------------------------------------------------------------------------

/// `p` occurs in `s` starting at index `i`.
pub open spec fn matches_at(s: Seq<char>, p: Seq<char>, i: int) -> bool {
    0 <= i && i + p.len() <= s.len() && s.subrange(i, i + p.len()) == p
}

/// The first index at or after `i` where `p` occurs in `s` (`str::find`).
pub open spec fn find_from(s: Seq<char>, p: Seq<char>, i: int) -> Option<int>
    decreases s.len() + 1 - i,
{
    if i < 0 || i + p.len() > s.len() {
        None
    } else if matches_at(s, p, i) {
        Some(i)
    } else {
        find_from(s, p, i + 1)
    }
}

pub proof fn lemma_find_from(s: Seq<char>, p: Seq<char>, i: int)
    requires
        0 <= i,
    ensures
        find_from(s, p, i) matches Some(k) ==> i <= k && matches_at(s, p, k) && forall|j: int|
            i <= j < k ==> !matches_at(s, p, j),
        find_from(s, p, i) is None ==> forall|j: int| i <= j ==> !matches_at(s, p, j),
    decreases s.len() + 1 - i,
{
    if i + p.len() <= s.len() && !matches_at(s, p, i) {
        lemma_find_from(s, p, i + 1);
    }
}

/// `s` contains `p` somewhere.
pub open spec fn contains_text(s: Seq<char>, p: Seq<char>) -> bool {
    exists|i: int| matches_at(s, p, i)
}

/// `s.contains(p)`.
pub fn contains_str(s: &str, p: &str) -> (r: bool)
    ensures
        r == contains_text(s@, p@),
{
    let v = chars_of(s);
    let q = chars_of(p);
    proof {
        lemma_find_from(v@, q@, 0);
    }
    match find_chars(&v, &q, 0) {
        Some(_) => true,
        None => {
            proof {
                assert forall|i: int| !matches_at(s@, p@, i) by {
                    if i < 0 {
                    }
                }
            }
            false
        },
    }
}

/// `s.split(p)` for a non-empty separator `p`.
pub open spec fn split_str(s: Seq<char>, p: Seq<char>) -> Seq<Seq<char>>
    decreases s.len(),
{
    if p.len() == 0 {
        seq![s]
    } else {
        match find_from(s, p, 0) {
            None => seq![s],
            Some(i) => {
                proof {
                    lemma_find_from(s, p, 0);
                }
                seq![s.take(i)] + split_str(s.skip(i + p.len()), p)
            },
        }
    }
}

/// `s.splitn(n, p)`: at most `n` pieces, the last holding the rest of `s`.
pub open spec fn splitn_str(s: Seq<char>, p: Seq<char>, n: nat) -> Seq<Seq<char>>
    decreases n,
{
    if n == 0 {
        Seq::empty()
    } else if n == 1 || p.len() == 0 {
        seq![s]
    } else {
        match find_from(s, p, 0) {
            None => seq![s],
            Some(i) => seq![s.take(i)] + splitn_str(s.skip(i + p.len()), p, (n - 1) as nat),
        }
    }
}

/// `s.split_once(p)`: the text around the first occurrence of `p`.
pub open spec fn split_once(s: Seq<char>, p: Seq<char>) -> Option<(Seq<char>, Seq<char>)> {
    match find_from(s, p, 0) {
        None => None,
        Some(i) => Some((s.take(i), s.skip(i + p.len()))),
    }
}

/// The first index at or after `from` where `p` occurs in `s`.
pub fn find_chars(s: &Vec<char>, p: &Vec<char>, from: usize) -> (r: Option<usize>)
    ensures
        match r {
            Some(k) => find_from(s@, p@, from as int) == Some(k as int),
            None => find_from(s@, p@, from as int) is None,
        },
{
    let mut i = from;
    while i <= s.len() && p.len() <= s.len() - i
        invariant
            from <= i,
            find_from(s@, p@, from as int) == find_from(s@, p@, i as int),
        decreases s.len() + 1 - i,
    {
        let mut k: usize = 0;
        while k < p.len() && s[i + k] == p[k]
            invariant
                k <= p.len(),
                i + p.len() <= s.len(),
                forall|m: int| 0 <= m < k ==> s@[i + m] == p@[m],
            decreases p.len() - k,
        {
            k = k + 1;
        }
        if k == p.len() {
            assert(s@.subrange(i as int, i + p.len()) =~= p@);
            return Some(i);
        }
        assert(s@.subrange(i as int, i + p.len())[k as int] != p@[k as int]);
        i = i + 1;
    }
    None
}

/// `s.split(p)` collected into owned strings, for a non-empty `p`.
pub fn split_by_str(s: &str, p: &str) -> (r: Vec<String>)
    requires
        p@.len() > 0,
    ensures
        r@.map_values(|x: String| x@) == split_str(s@, p@),
{
    let v = chars_of(s);
    let pv = chars_of(p);
    let mut out: Vec<String> = Vec::new();
    let mut start: usize = 0;
    proof {
        assert(v@.skip(0) =~= v@);
        assert(out@.map_values(|x: String| x@) + split_str(v@, p@) =~= split_str(v@, p@));
    }
    loop
        invariant
            start <= v.len(),
            v@ == s@,
            pv@ == p@,
            p@.len() > 0,
            out@.map_values(|x: String| x@) + split_str(v@.skip(start as int), p@) == split_str(s@, p@),
        decreases v.len() - start,
    {
        let ghost rest = v@.skip(start as int);
        match find_chars(&v, &pv, start) {
            None => {
                proof {
                    lemma_find_shift(v@, p@, start as int);
                }
                let piece = string_from_range(&v, start, v.len());
                assert(piece@ =~= rest);
                let ghost before = out@.map_values(|x: String| x@);
                out.push(piece);
                assert(out@.map_values(|x: String| x@) =~= before.push(rest));
                assert(split_str(rest, p@) =~= seq![rest]);
                assert(before + seq![rest] =~= before.push(rest));
                return out;
            },
            Some(k) => {
                proof {
                    lemma_find_shift(v@, p@, start as int);
                    lemma_find_from(v@, p@, start as int);
                }
                let piece = string_from_range(&v, start, k);
                assert(piece@ =~= rest.take(k - start));
                let ghost before = out@.map_values(|x: String| x@);
                out.push(piece);
                assert(out@.map_values(|x: String| x@) =~= before.push(rest.take(k - start)));
                assert(rest.skip(k - start + p@.len()) =~= v@.skip(k + p@.len()));
                assert(before.push(rest.take(k - start)) + split_str(v@.skip(k + p@.len()), p@)
                    =~= before + split_str(rest, p@));
                start = k + pv.len();
            },
        }
    }
}

/// Searching `s` from `start` finds what searching its suffix from 0 finds,
/// shifted by `start`.
pub proof fn lemma_find_shift(s: Seq<char>, p: Seq<char>, start: int)
    requires
        0 <= start <= s.len(),
    ensures
        match find_from(s, p, start) {
            Some(k) => find_from(s.skip(start), p, 0) == Some(k - start),
            None => find_from(s.skip(start), p, 0) is None,
        },
{
    lemma_find_shift_from(s, p, start, start);
}

proof fn lemma_find_shift_from(s: Seq<char>, p: Seq<char>, start: int, i: int)
    requires
        0 <= start <= i,
        start <= s.len(),
    ensures
        match find_from(s, p, i) {
            Some(k) => find_from(s.skip(start), p, i - start) == Some(k - start),
            None => find_from(s.skip(start), p, i - start) is None,
        },
    decreases s.len() + 1 - i,
{
    let t = s.skip(start);
    if i + p.len() <= s.len() {
        assert(t.subrange(i - start, i - start + p.len()) =~= s.subrange(i, i + p.len()));
        if !matches_at(s, p, i) {
            lemma_find_shift_from(s, p, start, i + 1);
        }
    }
}

/// `s.splitn(n, p)` collected into owned strings, for a non-empty `p`.
pub fn splitn_by_str(s: &str, n: usize, p: &str) -> (r: Vec<String>)
    requires
        p@.len() > 0,
    ensures
        r@.map_values(|x: String| x@) == splitn_str(s@, p@, n as nat),
{
    if n == 0 {
        let out: Vec<String> = Vec::new();
        assert(out@.map_values(|x: String| x@) =~= splitn_str(s@, p@, 0));
        return out;
    }
    let v = chars_of(s);
    let pv = chars_of(p);
    let mut out: Vec<String> = Vec::new();
    let mut start: usize = 0;
    let mut left: usize = n;
    proof {
        assert(v@.skip(0) =~= v@);
        assert(out@.map_values(|x: String| x@) + splitn_str(v@, p@, n as nat) =~= splitn_str(
            v@,
            p@,
            n as nat,
        ));
    }
    loop
        invariant
            start <= v.len(),
            v@ == s@,
            pv@ == p@,
            p@.len() > 0,
            left >= 1,
            out@.map_values(|x: String| x@) + splitn_str(v@.skip(start as int), p@, left as nat)
                == splitn_str(s@, p@, n as nat),
        decreases left,
    {
        let ghost rest = v@.skip(start as int);
        let ghost before = out@.map_values(|x: String| x@);
        let found = if left <= 1 {
            None
        } else {
            find_chars(&v, &pv, start)
        };
        match found {
            None => {
                proof {
                    lemma_find_shift(v@, p@, start as int);
                }
                let piece = string_from_range(&v, start, v.len());
                assert(piece@ =~= rest);
                out.push(piece);
                assert(out@.map_values(|x: String| x@) =~= before.push(rest));
                assert(splitn_str(rest, p@, left as nat) =~= seq![rest]);
                assert(before + seq![rest] =~= before.push(rest));
                return out;
            },
            Some(k) => {
                proof {
                    lemma_find_shift(v@, p@, start as int);
                    lemma_find_from(v@, p@, start as int);
                }
                let piece = string_from_range(&v, start, k);
                assert(piece@ =~= rest.take(k - start));
                out.push(piece);
                assert(out@.map_values(|x: String| x@) =~= before.push(rest.take(k - start)));
                assert(rest.skip(k - start + p@.len()) =~= v@.skip(k + p@.len()));
                assert(before.push(rest.take(k - start)) + splitn_str(
                    v@.skip(k + p@.len()),
                    p@,
                    (left - 1) as nat,
                ) =~= before + splitn_str(rest, p@, left as nat));
                start = k + pv.len();
                left = left - 1;
            },
        }
    }
}

/// `s.split_once(p)`, the two sides copied into owned strings.
pub fn split_once_str(s: &str, p: &str) -> (r: Option<(String, String)>)
    ensures
        match r {
            Some((a, b)) => split_once(s@, p@) == Some((a@, b@)),
            None => split_once(s@, p@) is None,
        },
{
    let v = chars_of(s);
    let pv = chars_of(p);
    match find_chars(&v, &pv, 0) {
        None => None,
        Some(k) => {
            proof {
                lemma_find_from(v@, p@, 0);
                assert(matches_at(v@, p@, k as int));
                assert(pv@.len() == p@.len());
                assert(k + pv@.len() <= v@.len());
            }
            let n = v.len();
            let a = string_from_range(&v, 0, k);
            let b = string_from_range(&v, k + pv.len(), n);
            assert(a@ =~= s@.take(k as int));
            assert(b@ =~= s@.skip(k + p@.len()));
            Some((a, b))
        },
    }
}

} // verus!
