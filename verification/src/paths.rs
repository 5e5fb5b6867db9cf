//! Path strings: root-relative names, file names and extensions.
//!
//! Paths are handled as plain strings with `/` separators, already made
//! absolute and canonical by the caller. The root-relative form of a path is
//! computed structurally — the root must end at a separator boundary — never
//! by bare prefix-stripping.

use vstd::prelude::*;
use crate::text::{chars_of, string_of, subvec};

verus! {

/// The sequence with its trailing `/` characters removed.
pub open spec fn spec_trim_slashes(s: Seq<char>) -> Seq<char>
    decreases s.len(),
{
    if s.len() > 0 && s[s.len() - 1] == '/' {
        spec_trim_slashes(s.drop_last())
    } else {
        s
    }
}

/// The sequence with its leading `/` characters removed.
pub open spec fn spec_strip_leading_slashes(s: Seq<char>) -> Seq<char>
    decreases s.len(),
{
    if s.len() > 0 && s[0] == '/' {
        spec_strip_leading_slashes(s.drop_first())
    } else {
        s
    }
}

proof fn lemma_trim_slashes_take(s: Seq<char>, k: int)
    requires
        0 <= k <= s.len(),
        forall|i: int| k <= i < s.len() ==> s[i] == '/',
        k == 0 || s[k - 1] != '/',
    ensures
        spec_trim_slashes(s) == s.take(k),
    decreases s.len() - k,
{
    if k == s.len() {
        assert(s.take(k) =~= s);
    } else {
        lemma_trim_slashes_take(s.drop_last(), k);
        assert(s.drop_last().take(k) =~= s.take(k));
    }
}

proof fn lemma_strip_slashes_skip(s: Seq<char>, k: int)
    requires
        0 <= k <= s.len(),
        forall|i: int| 0 <= i < k ==> s[i] == '/',
        k == s.len() || s[k] != '/',
    ensures
        spec_strip_leading_slashes(s) == s.skip(k),
    decreases k,
{
    if k == 0 {
        assert(s.skip(0) =~= s);
    } else {
        lemma_strip_slashes_skip(s.drop_first(), k - 1);
        assert(s.drop_first().skip(k - 1) =~= s.skip(k));
    }
}

/// Removes the trailing `/` characters of a path string.
pub fn trim_trailing_slashes(s: &str) -> (r: String)
    ensures
        r@ == spec_trim_slashes(s@),
{
    let v = chars_of(s);
    let n = v.len();
    let mut k: usize = n;
    while k > 0 && v[k - 1] == '/'
        invariant
            0 <= k <= n,
            n == v@.len(),
            forall|i: int| k <= i < n ==> v@[i] == '/',
        decreases k,
    {
        k -= 1;
    }
    let kept = subvec(&v, 0, k);
    proof {
        lemma_trim_slashes_take(v@, k as int);
        assert(kept@ =~= v@.take(k as int));
    }
    string_of(&kept)
}

/// The root-relative form of `path` under `root`: empty when the two name
/// the same place, the remainder after the separator when `path` lies under
/// `root`, and `path` itself when it does not. Trailing separators of the
/// root are ignored.
pub open spec fn spec_relative_to(root: Seq<char>, path: Seq<char>) -> Seq<char> {
    let r = spec_trim_slashes(root);
    if path == r {
        Seq::empty()
    } else if r.len() < path.len() && path.take(r.len() as int) == r && path[r.len() as int]
        == '/' {
        spec_strip_leading_slashes(path.skip(r.len() as int))
    } else {
        path
    }
}

/// Computes [`spec_relative_to`]: the root-relative name of `path` under
/// `root`.
pub fn relative_to(root: &str, path: &str) -> (res: String)
    ensures
        res@ == spec_relative_to(root@, path@),
{
    let r = trim_trailing_slashes(root);
    let rv = chars_of(r.as_str());
    let pv = chars_of(path);
    let rn = rv.len();
    let pn = pv.len();
    if rn == pn {
        let mut same = true;
        let mut i: usize = 0;
        proof {
            assert(pv@.take(0) =~= rv@.take(0));
        }
        while i < pn
            invariant
                0 <= i <= pn,
                pn == pv@.len() == rv@.len(),
                same == (pv@.take(i as int) == rv@.take(i as int)),
            decreases pn - i,
        {
            proof {
                if same && pv@[i as int] == rv@[i as int] {
                    assert(pv@.take(i as int + 1) =~= pv@.take(i as int).push(pv@[i as int]));
                    assert(rv@.take(i as int + 1) =~= rv@.take(i as int).push(rv@[i as int]));
                } else {
                    assert(pv@.take(i as int + 1).len() == i + 1);
                    if pv@.take(i as int + 1) == rv@.take(i as int + 1) {
                        assert(pv@.take(i as int + 1)[i as int] == rv@.take(i as int + 1)[
                            i as int
                        ]);
                        assert(pv@.take(i as int) =~= pv@.take(i as int + 1).take(i as int));
                        assert(rv@.take(i as int) =~= rv@.take(i as int + 1).take(i as int));
                    }
                }
            }
            same = same && pv[i] == rv[i];
            i += 1;
        }
        proof {
            assert(pv@.take(pn as int) =~= pv@);
            assert(rv@.take(pn as int) =~= rv@);
        }
        if same {
            return String::new();
        }
        return string_of(&pv);
    }
    if rn < pn {
        let mut pref = true;
        let mut i: usize = 0;
        proof {
            assert(pv@.take(0) =~= rv@.take(0));
        }
        while i < rn
            invariant
                0 <= i <= rn,
                rn == rv@.len(),
                rn < pn == pv@.len(),
                pref == (pv@.take(i as int) == rv@.take(i as int)),
            decreases rn - i,
        {
            proof {
                if pref && pv@[i as int] == rv@[i as int] {
                    assert(pv@.take(i as int + 1) =~= pv@.take(i as int).push(pv@[i as int]));
                    assert(rv@.take(i as int + 1) =~= rv@.take(i as int).push(rv@[i as int]));
                } else {
                    if pv@.take(i as int + 1) == rv@.take(i as int + 1) {
                        assert(pv@.take(i as int + 1)[i as int] == rv@.take(i as int + 1)[
                            i as int
                        ]);
                        assert(pv@.take(i as int) =~= pv@.take(i as int + 1).take(i as int));
                        assert(rv@.take(i as int) =~= rv@.take(i as int + 1).take(i as int));
                    }
                }
            }
            pref = pref && pv[i] == rv[i];
            i += 1;
        }
        proof {
            assert(rv@.take(rn as int) =~= rv@);
        }
        if pref && pv[rn] == '/' {
            // Strip the root and every separator that follows it.
            let mut k: usize = rn;
            while k < pn && pv[k] == '/'
                invariant
                    rn <= k <= pn,
                    pn == pv@.len(),
                    forall|i: int| rn <= i < k ==> pv@[i] == '/',
                decreases pn - k,
            {
                k += 1;
            }
            let rest = subvec(&pv, k, pn);
            proof {
                let t = pv@.skip(rn as int);
                assert forall|i: int| 0 <= i < k - rn implies t[i] == '/' by {
                    assert(t[i] == pv@[i + rn]);
                }
                if (k as int) < pn {
                    assert(t[k - rn] == pv@[k as int]);
                }
                lemma_strip_slashes_skip(t, k - rn as int);
                assert(t.skip(k - rn as int) =~= pv@.skip(k as int));
                assert(rest@ =~= pv@.skip(k as int));
            }
            return string_of(&rest);
        }
        return string_of(&pv);
    }
    string_of(&pv)
}

/// Index just past the last `/` of `s`, or 0 if there is none.
pub open spec fn after_last_slash(s: Seq<char>) -> int
    decreases s.len(),
{
    if s.len() == 0 {
        0
    } else if s[s.len() - 1] == '/' {
        s.len() as int
    } else {
        after_last_slash(s.drop_last())
    }
}

proof fn lemma_after_last_slash(s: Seq<char>)
    ensures
        0 <= after_last_slash(s) <= s.len(),
        forall|i: int| after_last_slash(s) <= i < s.len() ==> s[i] != '/',
        after_last_slash(s) > 0 ==> s[after_last_slash(s) - 1] == '/',
    decreases s.len(),
{
    if s.len() > 0 && s[s.len() - 1] != '/' {
        lemma_after_last_slash(s.drop_last());
        assert forall|i: int| after_last_slash(s) <= i < s.len() implies s[i] != '/' by {
            if i < s.len() - 1 {
                assert(s.drop_last()[i] == s[i]);
            }
        }
    }
}

/// The file-name part of a path: everything after the last `/`.
pub open spec fn spec_file_name(s: Seq<char>) -> Seq<char> {
    s.skip(after_last_slash(s))
}

/// Computes [`spec_file_name`].
pub fn file_name(path: &str) -> (r: String)
    ensures
        r@ == spec_file_name(path@),
{
    let v = chars_of(path);
    let n = v.len();
    let mut k: usize = n;
    while k > 0 && v[k - 1] != '/'
        invariant
            0 <= k <= n,
            n == v@.len(),
            forall|i: int| k <= i < n ==> v@[i] != '/',
        decreases k,
    {
        k -= 1;
    }
    proof {
        lemma_after_last_slash_is(v@, k as int);
    }
    let rest = subvec(&v, k, n);
    proof {
        assert(rest@ =~= v@.skip(k as int));
    }
    string_of(&rest)
}

proof fn lemma_after_last_slash_is(s: Seq<char>, k: int)
    requires
        0 <= k <= s.len(),
        forall|i: int| k <= i < s.len() ==> s[i] != '/',
        k == 0 || s[k - 1] == '/',
    ensures
        after_last_slash(s) == k,
    decreases s.len(),
{
    if s.len() > 0 && s[s.len() - 1] != '/' {
        assert(k < s.len());
        lemma_after_last_slash_is(s.drop_last(), k);
    }
}

/// Index of the last `.` of `s`, or -1 if there is none.
pub open spec fn last_dot(s: Seq<char>) -> int
    decreases s.len(),
{
    if s.len() == 0 {
        -1
    } else if s[s.len() - 1] == '.' {
        s.len() - 1
    } else {
        last_dot(s.drop_last())
    }
}

proof fn lemma_last_dot_is(s: Seq<char>, k: int)
    requires
        -1 <= k < s.len(),
        forall|i: int| k < i < s.len() ==> s[i] != '.',
        k == -1 || s[k] == '.',
    ensures
        last_dot(s) == k,
    decreases s.len(),
{
    if s.len() > 0 && s[s.len() - 1] != '.' {
        assert(k < s.len() - 1);
        lemma_last_dot_is(s.drop_last(), k);
    }
}

/// The name has the extension `sql`, by the usual file-name rule: the part
/// after the last `.` is `sql`, and that `.` neither starts the name nor
/// follows a separator.
pub open spec fn spec_has_sql_ext(name: Seq<char>) -> bool {
    let i = last_dot(name);
    &&& i > 0
    &&& name[i - 1] != '/'
    &&& name.len() - i - 1 == 3
    &&& name[i + 1] == 's'
    &&& name[i + 2] == 'q'
    &&& name[i + 3] == 'l'
}

/// Computes [`spec_has_sql_ext`].
pub fn has_sql_ext(name: &str) -> (r: bool)
    ensures
        r == spec_has_sql_ext(name@),
{
    let v = chars_of(name);
    let n = v.len();
    let mut k: usize = n;
    while k > 0 && v[k - 1] != '.'
        invariant
            0 <= k <= n,
            n == v@.len(),
            forall|i: int| k <= i < n ==> v@[i] != '.',
        decreases k,
    {
        k -= 1;
    }
    if k == 0 {
        proof {
            lemma_last_dot_is(v@, -1);
        }
        return false;
    }
    proof {
        lemma_last_dot_is(v@, k as int - 1);
    }
    let i = k - 1;
    i > 0 && v[i - 1] != '/' && n - i == 4 && v[i + 1] == 's' && v[i + 2] == 'q' && v[i + 3] == 'l'
}

/// The entry-point template name for a build target: for a directory target
/// the root-relative `index.sql` (bare `index.sql` when the target is the
/// root itself), for a single-file target the file's own name.
pub open spec fn spec_entry_name(is_dir: bool, rel: Seq<char>, target: Seq<char>) -> Seq<char> {
    if is_dir {
        if rel.len() == 0 {
            "index.sql"@
        } else {
            rel + "/index.sql"@
        }
    } else {
        spec_file_name(spec_trim_slashes(target))
    }
}

/// Computes [`spec_entry_name`].
pub fn entry_name(is_dir: bool, rel: &str, target: &str) -> (r: String)
    ensures
        r@ == spec_entry_name(is_dir, rel@, target@),
{
    if is_dir {
        let rv = chars_of(rel);
        if rv.len() == 0 {
            let mut v: Vec<char> = Vec::new();
            let suffix = chars_of("index.sql");
            crate::text::extend_chars(&mut v, &suffix);
            proof {
                assert(v@ =~= "index.sql"@);
            }
            string_of(&v)
        } else {
            let mut v = rv;
            let suffix = chars_of("/index.sql");
            crate::text::extend_chars(&mut v, &suffix);
            proof {
                assert(v@ =~= rel@ + "/index.sql"@);
            }
            string_of(&v)
        }
    } else {
        let t = trim_trailing_slashes(target);
        file_name(t.as_str())
    }
}

} // verus!
