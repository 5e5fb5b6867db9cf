//! Characters, whitespace and trimming.
//!
//! The rest of the crate works on `Vec<char>` so that every string
//! manipulation is ordinary verified code; this module holds the conversions
//! between `&str`/`String` and `Vec<char>` and the trimming primitives.

use vstd::prelude::*;
use vstd::string::StrSliceExecFns;

verus! {

/// The characters the crate treats as whitespace when trimming and when
/// scanning directive comments: the ASCII whitespace characters.
pub open spec fn is_space_char(c: char) -> bool {
    c == ' ' || c == '\t' || c == '\n' || c == '\r' || c == '\x0b' || c == '\x0c'
}

/// Executable test for [`is_space_char`].
pub fn is_space(c: char) -> (r: bool)
    ensures
        r == is_space_char(c),
{
    c == ' ' || c == '\t' || c == '\n' || c == '\r' || c == '\x0b' || c == '\x0c'
}

/// The sequence with its leading whitespace removed.
pub open spec fn spec_trim_front(s: Seq<char>) -> Seq<char>
    decreases s.len(),
{
    if s.len() > 0 && is_space_char(s[0]) {
        spec_trim_front(s.drop_first())
    } else {
        s
    }
}

/// The sequence with its trailing whitespace removed.
pub open spec fn spec_trim_back(s: Seq<char>) -> Seq<char>
    decreases s.len(),
{
    if s.len() > 0 && is_space_char(s[s.len() - 1]) {
        spec_trim_back(s.drop_last())
    } else {
        s
    }
}

/// The sequence with leading and trailing whitespace removed.
pub open spec fn spec_trim(s: Seq<char>) -> Seq<char> {
    spec_trim_back(spec_trim_front(s))
}

/// Leading whitespace reaches exactly to `k`: everything before `k` is
/// whitespace and `k` is either the end or a non-whitespace character.
spec fn ws_prefix_to(s: Seq<char>, k: int) -> bool {
    &&& 0 <= k <= s.len()
    &&& forall|i: int| 0 <= i < k ==> is_space_char(#[trigger] s[i])
    &&& (k == s.len() || !is_space_char(s[k]))
}

proof fn lemma_trim_front_skip(s: Seq<char>, k: int)
    requires
        ws_prefix_to(s, k),
    ensures
        spec_trim_front(s) == s.skip(k),
    decreases k,
{
    if k == 0 {
        assert(s.skip(0) =~= s);
    } else {
        assert(is_space_char(s[0]));
        lemma_trim_front_skip(s.drop_first(), k - 1);
        assert(s.drop_first().skip(k - 1) =~= s.skip(k));
    }
}

/// Trailing whitespace reaches back exactly to `k`: everything from `k` on is
/// whitespace and `k` is either the start or sits right after a
/// non-whitespace character.
spec fn ws_suffix_from(s: Seq<char>, k: int) -> bool {
    &&& 0 <= k <= s.len()
    &&& forall|i: int| k <= i < s.len() ==> is_space_char(#[trigger] s[i])
    &&& (k == 0 || !is_space_char(s[k - 1]))
}

proof fn lemma_trim_back_take(s: Seq<char>, k: int)
    requires
        ws_suffix_from(s, k),
    ensures
        spec_trim_back(s) == s.take(k),
    decreases s.len() - k,
{
    if k == s.len() {
        assert(s.take(k) =~= s);
    } else {
        assert(is_space_char(s[s.len() - 1]));
        lemma_trim_back_take(s.drop_last(), k);
        assert(s.drop_last().take(k) =~= s.take(k));
    }
}

proof fn lemma_trim_front_first(s: Seq<char>)
    ensures
        spec_trim_front(s).len() > 0 ==> !is_space_char(spec_trim_front(s)[0]),
        spec_trim_front(s).len() <= s.len(),
    decreases s.len(),
{
    if s.len() > 0 && is_space_char(s[0]) {
        lemma_trim_front_first(s.drop_first());
    }
}

proof fn lemma_trim_back_ends(s: Seq<char>)
    ensures
        spec_trim_back(s).len() > 0 ==> !is_space_char(
            spec_trim_back(s)[spec_trim_back(s).len() - 1],
        ),
        spec_trim_back(s).len() > 0 ==> spec_trim_back(s)[0] == s[0],
        spec_trim_back(s).len() <= s.len(),
    decreases s.len(),
{
    if s.len() > 0 && is_space_char(s[s.len() - 1]) {
        lemma_trim_back_ends(s.drop_last());
    }
}

/// Trimming is idempotent: a trimmed text trims to itself.
pub proof fn lemma_trim_idempotent(s: Seq<char>)
    ensures
        spec_trim(spec_trim(s)) == spec_trim(s),
{
    let f = spec_trim_front(s);
    let t = spec_trim_back(f);
    lemma_trim_front_first(s);
    lemma_trim_back_ends(f);
    if t.len() > 0 {
        assert(!is_space_char(t[0]));
        assert(spec_trim_front(t) == t);
        assert(spec_trim_back(t) == t);
    }
}

/// Trims whitespace from both ends of a character vector.
pub fn trim_chars(v: &Vec<char>) -> (r: Vec<char>)
    ensures
        r@ == spec_trim(v@),
{
    let n = v.len();
    let mut lo: usize = 0;
    while lo < n && is_space(v[lo])
        invariant
            0 <= lo <= n,
            n == v@.len(),
            forall|i: int| 0 <= i < lo ==> is_space_char(#[trigger] v@[i]),
        decreases n - lo,
    {
        lo += 1;
    }
    let mut hi: usize = n;
    while hi > lo && is_space(v[hi - 1])
        invariant
            lo <= hi <= n,
            n == v@.len(),
            forall|i: int| hi <= i < n ==> is_space_char(#[trigger] v@[i]),
        decreases hi,
    {
        hi -= 1;
    }
    let mut r: Vec<char> = Vec::new();
    let mut i: usize = lo;
    while i < hi
        invariant
            lo <= i <= hi <= n,
            n == v@.len(),
            r@ == v@.subrange(lo as int, i as int),
        decreases hi - i,
    {
        r.push(v[i]);
        assert(r@ =~= v@.subrange(lo as int, (i + 1) as int));
        i += 1;
    }
    proof {
        lemma_trim_front_skip(v@, lo as int);
        let t = v@.skip(lo as int);
        if hi == lo {
            assert(ws_suffix_from(t, 0)) by {
                assert forall|j: int| 0 <= j < t.len() implies is_space_char(#[trigger] t[j]) by {
                    assert(t[j] == v@[j + lo]);
                }
            }
            lemma_trim_back_take(t, 0);
            assert(r@ =~= t.take(0));
        } else {
            assert(ws_suffix_from(t, hi - lo)) by {
                assert forall|j: int| hi - lo <= j < t.len() implies is_space_char(
                    #[trigger] t[j],
                ) by {
                    assert(t[j] == v@[j + lo]);
                }
                assert(t[hi - lo - 1] == v@[hi - 1]);
            }
            lemma_trim_back_take(t, hi - lo);
            assert(r@ =~= t.take(hi - lo));
        }
    }
    r
}

/// The characters of a string slice, as a vector.
pub fn chars_of(s: &str) -> (r: Vec<char>)
    ensures
        r@ == s@,
{
    let n = s.unicode_len();
    let mut r: Vec<char> = Vec::new();
    let mut i: usize = 0;
    while i < n
        invariant
            0 <= i <= n,
            n == s@.len(),
            r@ == s@.take(i as int),
        decreases n - i,
    {
        let c = s.get_char(i);
        r.push(c);
        assert(r@ =~= s@.take((i + 1) as int));
        i += 1;
    }
    proof {
        assert(s@.take(n as int) =~= s@);
    }
    r
}

/// Relies on `String::push`: appends the given character to the end of the
/// string.
#[verifier::external_body]
fn push_char(s: &mut String, c: char)
    ensures
        final(s)@ == old(s)@.push(c),
{
    s.push(c);
}

/// A `String` holding exactly the given characters.
pub fn string_of(v: &Vec<char>) -> (r: String)
    ensures
        r@ == v@,
{
    let mut r = String::new();
    let mut i: usize = 0;
    while i < v.len()
        invariant
            0 <= i <= v@.len(),
            r@ == v@.take(i as int),
        decreases v@.len() - i,
    {
        push_char(&mut r, v[i]);
        assert(r@ =~= v@.take((i + 1) as int));
        i += 1;
    }
    proof {
        assert(v@.take(v@.len() as int) =~= v@);
    }
    r
}

/// Whether two strings hold the same characters.
pub fn str_eq(a: &str, b: &str) -> (r: bool)
    ensures
        r == (a@ == b@),
{
    let va = chars_of(a);
    let vb = chars_of(b);
    let n = va.len();
    if n != vb.len() {
        proof {
            assert(a@ != b@) by {
                if a@ == b@ {
                    assert(a@.len() == b@.len());
                }
            }
        }
        return false;
    }
    let mut i: usize = 0;
    let mut same = true;
    proof {
        assert(va@.take(0) =~= vb@.take(0));
    }
    while i < n
        invariant
            0 <= i <= n,
            n == va@.len() == vb@.len(),
            same == (va@.take(i as int) == vb@.take(i as int)),
        decreases n - i,
    {
        proof {
            if same && va@[i as int] == vb@[i as int] {
                assert(va@.take(i as int + 1) =~= va@.take(i as int).push(va@[i as int]));
                assert(vb@.take(i as int + 1) =~= vb@.take(i as int).push(vb@[i as int]));
            } else {
                if va@.take(i as int + 1) == vb@.take(i as int + 1) {
                    assert(va@.take(i as int + 1)[i as int] == vb@.take(i as int + 1)[i as int]);
                    assert(va@.take(i as int) =~= va@.take(i as int + 1).take(i as int));
                    assert(vb@.take(i as int) =~= vb@.take(i as int + 1).take(i as int));
                }
            }
        }
        same = same && va[i] == vb[i];
        i += 1;
    }
    proof {
        assert(va@.take(n as int) =~= va@);
        assert(vb@.take(n as int) =~= vb@);
    }
    same
}

/// The characters of `v` between `lo` and `hi`.
pub fn subvec(v: &Vec<char>, lo: usize, hi: usize) -> (r: Vec<char>)
    requires
        lo <= hi <= v@.len(),
    ensures
        r@ == v@.subrange(lo as int, hi as int),
{
    let mut r: Vec<char> = Vec::new();
    let mut i: usize = lo;
    while i < hi
        invariant
            lo <= i <= hi <= v@.len(),
            r@ == v@.subrange(lo as int, i as int),
        decreases hi - i,
    {
        r.push(v[i]);
        assert(r@ =~= v@.subrange(lo as int, (i + 1) as int));
        i += 1;
    }
    r
}

/// Appends every character of `src` to `dst`.
pub fn extend_chars(dst: &mut Vec<char>, src: &Vec<char>)
    ensures
        final(dst)@ == old(dst)@ + src@,
{
    let mut i: usize = 0;
    while i < src.len()
        invariant
            0 <= i <= src@.len(),
            dst@ == old(dst)@ + src@.take(i as int),
        decreases src@.len() - i,
    {
        dst.push(src[i]);
        assert(dst@ =~= old(dst)@ + src@.take((i + 1) as int));
        i += 1;
    }
    proof {
        assert(old(dst)@ + src@.take(src@.len() as int) =~= old(dst)@ + src@);
    }
}

} // verus!
