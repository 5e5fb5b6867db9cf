//! Extraction of the `Database:` directive from a statement's comments.
//!
//! A statement may carry a namespace override in a leading comment, in one of
//! two forms, matched case-insensitively:
//!
//! * a line comment `-- Database: <rest of line>`, where `--` is followed by
//!   at least one whitespace character, the keyword, exactly one whitespace
//!   character, and the name (the rest of the line, trimmed);
//! * a block comment `/* Database: <name> */`, where a (possibly empty) run
//!   of `/` is followed by at least one whitespace character, the keyword,
//!   exactly one whitespace character, a non-empty run of non-whitespace
//!   characters (the name), one whitespace character and `*/`.
//!
//! The first line-comment match anywhere in the text wins; block-comment
//! matches are considered only when no line-comment form matches. Whitespace
//! here is the ASCII whitespace of [`crate::text::is_space_char`].

use vstd::prelude::*;
use crate::text::{is_space_char, is_space, spec_trim, trim_chars, chars_of, string_of, subvec};

verus! {

/// End of the whitespace run starting at `j`.
pub open spec fn ws_end(s: Seq<char>, j: int) -> int
    decreases s.len() - j,
{
    if 0 <= j < s.len() && is_space_char(s[j]) {
        ws_end(s, j + 1)
    } else {
        j
    }
}

/// End of the non-whitespace run starting at `j`.
pub open spec fn nonws_end(s: Seq<char>, j: int) -> int
    decreases s.len() - j,
{
    if 0 <= j < s.len() && !is_space_char(s[j]) {
        nonws_end(s, j + 1)
    } else {
        j
    }
}

/// End of the `/` run starting at `j`.
pub open spec fn slash_end(s: Seq<char>, j: int) -> int
    decreases s.len() - j,
{
    if 0 <= j < s.len() && s[j] == '/' {
        slash_end(s, j + 1)
    } else {
        j
    }
}

/// Position of the first `'\n'` at or after `j`, or the length.
pub open spec fn line_end(s: Seq<char>, j: int) -> int
    decreases s.len() - j,
{
    if 0 <= j < s.len() && s[j] != '\n' {
        line_end(s, j + 1)
    } else {
        j
    }
}

/// The keyword `database:` appears at `i`, case-insensitively.
pub open spec fn kw_at(s: Seq<char>, i: int) -> bool {
    &&& 0 <= i
    &&& i + 9 <= s.len()
    &&& (s[i] == 'd' || s[i] == 'D')
    &&& (s[i + 1] == 'a' || s[i + 1] == 'A')
    &&& (s[i + 2] == 't' || s[i + 2] == 'T')
    &&& (s[i + 3] == 'a' || s[i + 3] == 'A')
    &&& (s[i + 4] == 'b' || s[i + 4] == 'B')
    &&& (s[i + 5] == 'a' || s[i + 5] == 'A')
    &&& (s[i + 6] == 's' || s[i + 6] == 'S')
    &&& (s[i + 7] == 'e' || s[i + 7] == 'E')
    &&& s[i + 8] == ':'
}

/// A line-comment directive matches at `i`: `--`, one or more whitespace
/// characters, the keyword, and one more whitespace character before the
/// name.
pub open spec fn line_match_at(s: Seq<char>, i: int) -> bool {
    let w = ws_end(s, i + 2);
    &&& 0 <= i
    &&& i + 2 <= s.len()
    &&& s[i] == '-'
    &&& s[i + 1] == '-'
    &&& w > i + 2
    &&& kw_at(s, w)
    &&& w + 9 < s.len()
    &&& is_space_char(s[w + 9])
}

/// The name captured by a line-comment match at `i`: the rest of the line,
/// trimmed.
pub open spec fn line_capture(s: Seq<char>, i: int) -> Seq<char> {
    let st = ws_end(s, i + 2) + 10;
    spec_trim(s.subrange(st, line_end(s, st)))
}

/// A block-comment directive matches at `p`: a run of `/`, one or more
/// whitespace characters, the keyword, one whitespace character, a non-empty
/// name without whitespace, one whitespace character and `*/`.
pub open spec fn block_match_at(s: Seq<char>, p: int) -> bool {
    let a = slash_end(s, p);
    let b = ws_end(s, a);
    let c = nonws_end(s, b + 10);
    &&& 0 <= p <= s.len()
    &&& b > a
    &&& kw_at(s, b)
    &&& b + 9 < s.len()
    &&& is_space_char(s[b + 9])
    &&& c > b + 10
    &&& c + 2 < s.len()
    &&& s[c + 1] == '*'
    &&& s[c + 2] == '/'
}

/// The name captured by a block-comment match at `p`.
pub open spec fn block_capture(s: Seq<char>, p: int) -> Seq<char> {
    let b = ws_end(s, slash_end(s, p));
    s.subrange(b + 10, nonws_end(s, b + 10))
}

/// Position of the first line-comment match at or after `i`, or the length.
pub open spec fn find_line(s: Seq<char>, i: int) -> int
    decreases s.len() - i,
{
    if i >= s.len() {
        s.len() as int
    } else if line_match_at(s, i) {
        i
    } else {
        find_line(s, i + 1)
    }
}

/// Position of the first block-comment match at or after `i`, or the length.
pub open spec fn find_block(s: Seq<char>, i: int) -> int
    decreases s.len() - i,
{
    if i >= s.len() {
        s.len() as int
    } else if block_match_at(s, i) {
        i
    } else {
        find_block(s, i + 1)
    }
}

/// The namespace override of a statement: the name of its first line-comment
/// directive, else the name of its first block-comment directive, trimmed;
/// nothing when neither form matches.
pub open spec fn spec_database_directive(s: Seq<char>) -> Option<Seq<char>> {
    if find_line(s, 0) < s.len() {
        Some(line_capture(s, find_line(s, 0)))
    } else if find_block(s, 0) < s.len() {
        Some(spec_trim(block_capture(s, find_block(s, 0))))
    } else {
        None
    }
}

/// The view of an optional string.
pub open spec fn opt_str_view(o: Option<String>) -> Option<Seq<char>> {
    match o {
        None => None,
        Some(s) => Some(s@),
    }
}

proof fn lemma_find_line_is(s: Seq<char>, from: int, k: int)
    requires
        0 <= from <= k <= s.len(),
        forall|i: int| from <= i < k ==> !#[trigger] line_match_at(s, i),
        k == s.len() || line_match_at(s, k),
    ensures
        find_line(s, from) == k,
    decreases k - from,
{
    if from < k {
        lemma_find_line_is(s, from + 1, k);
    }
}

proof fn lemma_find_block_is(s: Seq<char>, from: int, k: int)
    requires
        0 <= from <= k <= s.len(),
        forall|i: int| from <= i < k ==> !#[trigger] block_match_at(s, i),
        k == s.len() || block_match_at(s, k),
    ensures
        find_block(s, from) == k,
    decreases k - from,
{
    if from < k {
        lemma_find_block_is(s, from + 1, k);
    }
}

fn ws_end_ex(v: &Vec<char>, j: usize) -> (r: usize)
    requires
        j <= v@.len(),
    ensures
        r == ws_end(v@, j as int),
        j <= r <= v@.len(),
{
    let mut k = j;
    while k < v.len() && is_space(v[k])
        invariant
            j <= k <= v@.len(),
            ws_end(v@, j as int) == ws_end(v@, k as int),
        decreases v@.len() - k,
    {
        k += 1;
    }
    k
}

fn nonws_end_ex(v: &Vec<char>, j: usize) -> (r: usize)
    requires
        j <= v@.len(),
    ensures
        r == nonws_end(v@, j as int),
        j <= r <= v@.len(),
{
    let mut k = j;
    while k < v.len() && !is_space(v[k])
        invariant
            j <= k <= v@.len(),
            nonws_end(v@, j as int) == nonws_end(v@, k as int),
        decreases v@.len() - k,
    {
        k += 1;
    }
    k
}

fn slash_end_ex(v: &Vec<char>, j: usize) -> (r: usize)
    requires
        j <= v@.len(),
    ensures
        r == slash_end(v@, j as int),
        j <= r <= v@.len(),
{
    let mut k = j;
    while k < v.len() && v[k] == '/'
        invariant
            j <= k <= v@.len(),
            slash_end(v@, j as int) == slash_end(v@, k as int),
        decreases v@.len() - k,
    {
        k += 1;
    }
    k
}

fn line_end_ex(v: &Vec<char>, j: usize) -> (r: usize)
    requires
        j <= v@.len(),
    ensures
        r == line_end(v@, j as int),
        j <= r <= v@.len(),
{
    let mut k = j;
    while k < v.len() && v[k] != '\n'
        invariant
            j <= k <= v@.len(),
            line_end(v@, j as int) == line_end(v@, k as int),
        decreases v@.len() - k,
    {
        k += 1;
    }
    k
}

fn kw_at_ex(v: &Vec<char>, i: usize) -> (r: bool)
    requires
        i <= v@.len(),
    ensures
        r == kw_at(v@, i as int),
{
    let n = v.len();
    if n - i < 9 {
        return false;
    }
    (v[i] == 'd' || v[i] == 'D') && (v[i + 1] == 'a' || v[i + 1] == 'A') && (v[i + 2] == 't' || v[i
        + 2] == 'T') && (v[i + 3] == 'a' || v[i + 3] == 'A') && (v[i + 4] == 'b' || v[i + 4] == 'B')
        && (v[i + 5] == 'a' || v[i + 5] == 'A') && (v[i + 6] == 's' || v[i + 6] == 'S') && (v[i + 7]
        == 'e' || v[i + 7] == 'E') && v[i + 8] == ':'
}

fn line_match_ex(v: &Vec<char>, i: usize) -> (r: bool)
    requires
        i < v@.len(),
    ensures
        r == line_match_at(v@, i as int),
{
    let n = v.len();
    if v[i] != '-' {
        return false;
    }
    if n - i < 2 {
        return false;
    }
    if v[i + 1] != '-' {
        return false;
    }
    let w = ws_end_ex(v, i + 2);
    if w == i + 2 {
        return false;
    }
    if !kw_at_ex(v, w) {
        return false;
    }
    if n - w < 10 {
        return false;
    }
    is_space(v[w + 9])
}

fn block_match_ex(v: &Vec<char>, p: usize) -> (r: bool)
    requires
        p <= v@.len(),
    ensures
        r == block_match_at(v@, p as int),
{
    let n = v.len();
    let a = slash_end_ex(v, p);
    let b = ws_end_ex(v, a);
    if b == a {
        return false;
    }
    if !kw_at_ex(v, b) {
        return false;
    }
    if n - b < 10 {
        return false;
    }
    if !is_space(v[b + 9]) {
        return false;
    }
    let c = nonws_end_ex(v, b + 10);
    if c == b + 10 {
        return false;
    }
    if n - c < 3 {
        return false;
    }
    v[c + 1] == '*' && v[c + 2] == '/'
}

/// Scans a statement for a `Database:` directive and returns the namespace
/// it names, if any: the first line-comment directive wins, else the first
/// block-comment directive.
pub fn get_database_from_sql(sql: &str) -> (r: Option<String>)
    ensures
        opt_str_view(r) == spec_database_directive(sql@),
{
    let v = chars_of(sql);
    let n = v.len();
    let mut i: usize = 0;
    while i < n
        invariant
            0 <= i <= n,
            n == v@.len(),
            v@ == sql@,
            forall|k: int| 0 <= k < i ==> !#[trigger] line_match_at(v@, k),
        decreases n - i,
    {
        if line_match_ex(&v, i) {
            proof {
                lemma_find_line_is(v@, 0, i as int);
            }
            let w = ws_end_ex(&v, i + 2);
            let st = w + 10;
            let le = line_end_ex(&v, st);
            let seg = subvec(&v, st, le);
            let t = trim_chars(&seg);
            let name = string_of(&t);
            return Some(name);
        }
        i += 1;
    }
    proof {
        lemma_find_line_is(v@, 0, n as int);
    }
    let mut p: usize = 0;
    while p < n
        invariant
            0 <= p <= n,
            n == v@.len(),
            v@ == sql@,
            find_line(v@, 0) == n,
            forall|k: int| 0 <= k < p ==> !#[trigger] block_match_at(v@, k),
        decreases n - p,
    {
        if block_match_ex(&v, p) {
            proof {
                lemma_find_block_is(v@, 0, p as int);
            }
            let a = slash_end_ex(&v, p);
            let b = ws_end_ex(&v, a);
            let c = nonws_end_ex(&v, b + 10);
            let seg = subvec(&v, b + 10, c);
            let t = trim_chars(&seg);
            let name = string_of(&t);
            return Some(name);
        }
        p += 1;
    }
    proof {
        lemma_find_block_is(v@, 0, n as int);
    }
    None
}

} // verus!
