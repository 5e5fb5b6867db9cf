//! Splitting rendered SQL into statements.
//!
//! The split is purely lexical: the text is cut at every `;`, each piece is
//! trimmed, and empty pieces are dropped. A `;` inside a string literal or a
//! comment also cuts; that is a documented limitation of the format, kept
//! deliberately.

use vstd::prelude::*;
use crate::text::{spec_trim, trim_chars, chars_of, string_of, subvec};

verus! {

/// Index of the first `;` at or after `from`, or the length if there is none.
pub open spec fn first_semi(s: Seq<char>, from: int) -> int
    decreases s.len() - from,
{
    if from >= s.len() {
        s.len() as int
    } else if s[from] == ';' {
        from
    } else {
        first_semi(s, from + 1)
    }
}

pub proof fn lemma_first_semi(s: Seq<char>, from: int)
    requires
        0 <= from <= s.len(),
    ensures
        from <= first_semi(s, from) <= s.len(),
        first_semi(s, from) < s.len() ==> s[first_semi(s, from)] == ';',
        forall|i: int| from <= i < first_semi(s, from) ==> #[trigger] s[i] != ';',
    decreases s.len() - from,
{
    if from < s.len() && s[from] != ';' {
        lemma_first_semi(s, from + 1);
    }
}

/// `k` is the first `;` position at or after `from` (or the length).
proof fn lemma_first_semi_is(s: Seq<char>, from: int, k: int)
    requires
        0 <= from <= k <= s.len(),
        forall|i: int| from <= i < k ==> #[trigger] s[i] != ';',
        k == s.len() || s[k] == ';',
    ensures
        first_semi(s, from) == k,
    decreases k - from,
{
    if from < k {
        lemma_first_semi_is(s, from + 1, k);
    }
}

/// The ordered, trimmed, non-empty statements of a rendered SQL text.
pub open spec fn spec_statements(s: Seq<char>) -> Seq<Seq<char>>
    decreases s.len(),
{
    let i = first_semi(s, 0);
    let piece = spec_trim(s.take(i));
    let rest = if i < s.len() {
        proof {
            lemma_first_semi(s, 0);
        }
        spec_statements(s.skip(i + 1))
    } else {
        Seq::empty()
    };
    if piece.len() == 0 {
        rest
    } else {
        seq![piece] + rest
    }
}

/// Splits `sql` at every `;`, trims each piece and drops the empty ones,
/// keeping the textual order.
pub fn split_statements(sql: &str) -> (r: Vec<String>)
    ensures
        r.deep_view() == spec_statements(sql@),
{
    let v = chars_of(sql);
    let n = v.len();
    let mut out: Vec<String> = Vec::new();
    let mut from: usize = 0;
    proof {
        assert(v@.skip(0) =~= v@);
        assert(out.deep_view() + spec_statements(v@) =~= spec_statements(v@));
    }
    loop
        invariant_except_break
            from <= n,
            n == v@.len(),
            spec_statements(v@) == out.deep_view() + spec_statements(v@.skip(from as int)),
        ensures
            out.deep_view() == spec_statements(v@),
        decreases n - from,
    {
        let mut j: usize = from;
        while j < n && v[j] != ';'
            invariant
                from <= j <= n,
                n == v@.len(),
                forall|i: int| from <= i < j ==> #[trigger] v@[i] != ';',
            decreases n - j,
        {
            j += 1;
        }
        let seg = subvec(&v, from, j);
        let piece = trim_chars(&seg);
        let ghost tail = v@.skip(from as int);
        proof {
            assert forall|i: int| 0 <= i < j - from implies #[trigger] tail[i] != ';' by {
                assert(tail[i] == v@[i + from]);
            }
            if (j as int) < n {
                assert(tail[j - from] == v@[j as int]);
            }
            lemma_first_semi_is(tail, 0, j - from);
            assert(tail.take(j - from) =~= v@.subrange(from as int, j as int));
            if (j as int) < n {
                assert(tail.skip(j - from + 1) =~= v@.skip(j + 1));
            }
        }
        let ghost prev_out = out.deep_view();
        if piece.len() > 0 {
            let st = string_of(&piece);
            out.push(st);
            proof {
                assert(out.deep_view() =~= prev_out.push(piece@));
            }
        }
        proof {
            // One unfolding of the specification at `tail` matches this
            // iteration's piece and remainder.
            let rest = if j < n {
                spec_statements(v@.skip(j + 1))
            } else {
                Seq::<Seq<char>>::empty()
            };
            assert(spec_statements(tail) == (if piece@.len() == 0 {
                rest
            } else {
                seq![piece@] + rest
            }));
            if piece@.len() == 0 {
                assert(out.deep_view() == prev_out);
            } else {
                assert(prev_out.push(piece@) + rest =~= prev_out + (seq![piece@] + rest));
            }
        }
        if j == n {
            proof {
                assert(out.deep_view() =~= spec_statements(v@));
            }
            break;
        }
        from = j + 1;
    }
    out
}

} // verus!
