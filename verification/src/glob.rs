//! Glob matching over strings: `*` stands for any run of characters,
//! every other character stands for itself.

use vstd::prelude::*;
use vstd::string::StrSliceExecFns;

verus! {

/// Whether `text` matches `pattern`, where `*` in the pattern stands for
/// any (possibly empty) run of characters and every other pattern
/// character must occur literally.
pub open spec fn glob_matches(pattern: Seq<char>, text: Seq<char>) -> bool
    decreases pattern.len() + text.len(),
{
    if pattern.len() == 0 {
        text.len() == 0
    } else if pattern[0] == '*' {
        glob_matches(pattern.drop_first(), text) || (text.len() > 0 && glob_matches(
            pattern,
            text.drop_first(),
        ))
    } else {
        text.len() > 0 && pattern[0] == text[0] && glob_matches(
            pattern.drop_first(),
            text.drop_first(),
        )
    }
}

/// Character-for-character equality of two string slices.
pub fn str_eq(a: &str, b: &str) -> (r: bool)
    ensures
        r == (a@ == b@),
{
    let a_len = a.unicode_len();
    let b_len = b.unicode_len();
    if a_len != b_len {
        return false;
    }
    let mut i: usize = 0;
    while i < a_len
        invariant
            i <= a_len,
            a_len == a@.len(),
            b_len == b@.len(),
            a_len == b_len,
            forall|j: int| 0 <= j < i ==> a@[j] == b@[j],
        decreases a_len - i,
    {
        if a.get_char(i) != b.get_char(i) {
            return false;
        }
        i += 1;
    }
    proof {
        assert(a@ =~= b@);
    }
    true
}

/// Glob matching of the suffixes of `pattern` and `text` that start at
/// character positions `i` and `j`.
fn glob_match_from(pattern: &str, text: &str, i: usize, j: usize) -> (r: bool)
    requires
        i <= pattern@.len(),
        j <= text@.len(),
    ensures
        r == glob_matches(
            pattern@.subrange(i as int, pattern@.len() as int),
            text@.subrange(j as int, text@.len() as int),
        ),
    decreases pattern@.len() - i + text@.len() - j,
{
    let p_len = pattern.unicode_len();
    let t_len = text.unicode_len();
    let ghost ps = pattern@.subrange(i as int, pattern@.len() as int);
    let ghost ts = text@.subrange(j as int, text@.len() as int);
    if i == p_len {
        return j == t_len;
    }
    let c = pattern.get_char(i);
    proof {
        assert(ps[0] == pattern@[i as int]);
        assert(ps.drop_first() =~= pattern@.subrange(i + 1, pattern@.len() as int));
        assert(ts.len() > 0 ==> ts[0] == text@[j as int]);
        assert(ts.len() > 0 ==> ts.drop_first() =~= text@.subrange(
            j + 1,
            text@.len() as int,
        ));
    }
    if c == '*' {
        if glob_match_from(pattern, text, i + 1, j) {
            return true;
        }
        if j < t_len {
            return glob_match_from(pattern, text, i, j + 1);
        }
        false
    } else {
        if j == t_len {
            return false;
        }
        let d = text.get_char(j);
        if c != d {
            return false;
        }
        glob_match_from(pattern, text, i + 1, j + 1)
    }
}

/// Whether `text` matches `pattern` under glob semantics.
pub fn glob_match(pattern: &str, text: &str) -> (r: bool)
    ensures
        r == glob_matches(pattern@, text@),
{
    let r = glob_match_from(pattern, text, 0, 0);
    proof {
        assert(pattern@.subrange(0, pattern@.len() as int) =~= pattern@);
        assert(text@.subrange(0, text@.len() as int) =~= text@);
    }
    r
}

/// A pattern without wildcards matches exactly the text equal to it.
pub proof fn lemma_plain_pattern_matches_exactly(pattern: Seq<char>, text: Seq<char>)
    requires
        forall|k: int| 0 <= k < pattern.len() ==> pattern[k] != '*',
    ensures
        glob_matches(pattern, text) <==> pattern == text,
    decreases pattern.len() + text.len(),
{
    if pattern.len() == 0 {
        if text.len() == 0 {
            assert(pattern =~= text);
        }
    } else {
        if text.len() > 0 && pattern[0] == text[0] {
            lemma_plain_pattern_matches_exactly(pattern.drop_first(), text.drop_first());
            if glob_matches(pattern, text) {
                assert(pattern.drop_first() == text.drop_first());
                assert forall|k: int| 0 <= k < pattern.len() implies pattern[k] == text[k] by {
                    if k > 0 {
                        assert(pattern[k] == pattern.drop_first()[k - 1]);
                        assert(text[k] == text.drop_first()[k - 1]);
                    }
                }
                assert(pattern =~= text);
            }
            if pattern == text {
                assert(pattern.drop_first() =~= text.drop_first());
            }
        } else {
            if pattern == text {
                assert(text.len() > 0 && pattern[0] == text[0]);
            }
        }
    }
}

} // verus!
