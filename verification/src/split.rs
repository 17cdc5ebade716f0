//! The `"://"` separator grammar shared by connection identifiers and
//! connection URLs. A text is well formed for splitting when the
//! separator occurs exactly once; it then divides the text into the part
//! before and the part after. Because the separator's own characters
//! cannot overlap themselves, "exactly one occurrence" is the same as
//! the split producing exactly two pieces.
use vstd::prelude::*;

verus! {

/// The separator starts at position `i` of `s`.
pub open spec fn sep_at(s: Seq<char>, i: int) -> bool {
    &&& 0 <= i
    &&& i + 3 <= s.len()
    &&& s[i] == ':'
    &&& s[i + 1] == '/'
    &&& s[i + 2] == '/'
}

/// The separator occurs at `i` and nowhere else.
pub open spec fn unique_sep_at(s: Seq<char>, i: int) -> bool {
    &&& sep_at(s, i)
    &&& forall|j: int| sep_at(s, j) ==> j == i
}

/// The separator occurs exactly once in `s`.
pub open spec fn has_unique_sep(s: Seq<char>) -> bool {
    exists|i: int| unique_sep_at(s, i)
}

/// The position of the single separator occurrence.
pub open spec fn sep_index(s: Seq<char>) -> int {
    choose|i: int| unique_sep_at(s, i)
}

/// The text before the single separator occurrence.
pub open spec fn before_sep(s: Seq<char>) -> Seq<char> {
    s.subrange(0, sep_index(s))
}

/// The text after the single separator occurrence.
pub open spec fn after_sep(s: Seq<char>) -> Seq<char> {
    s.subrange(sep_index(s) + 3, s.len() as int)
}

/// A witness of a unique occurrence pins down the separator position.
pub proof fn lemma_unique_sep_index(s: Seq<char>, i: int)
    requires
        unique_sep_at(s, i),
    ensures
        has_unique_sep(s),
        sep_index(s) == i,
{
    let j = sep_index(s);
    assert(unique_sep_at(s, j));
}

/// No character of `s` is a colon.
pub open spec fn no_colon(s: Seq<char>) -> bool {
    forall|i: int| 0 <= i < s.len() ==> s[i] != ':'
}

/// Joining two colon-free texts with the separator yields a text whose
/// single separator occurrence sits exactly at the join.
pub proof fn lemma_join_unique_sep(pre: Seq<char>, key: Seq<char>)
    requires
        no_colon(pre),
        no_colon(key),
    ensures
        unique_sep_at(pre + seq![':', '/', '/'] + key, pre.len() as int),
        before_sep(pre + seq![':', '/', '/'] + key) == pre,
        after_sep(pre + seq![':', '/', '/'] + key) == key,
{
    let j = pre + seq![':', '/', '/'] + key;
    let n = pre.len() as int;
    assert(sep_at(j, n));
    assert forall|p: int| sep_at(j, p) implies p == n by {
        if p < n {
            assert(j[p] == pre[p]);
        } else if p == n + 1 || p == n + 2 {
            assert(j[p] == '/');
        } else if p > n + 2 {
            assert(j[p] == key[p - n - 3]);
        }
    }
    lemma_unique_sep_index(j, n);
    assert(before_sep(j) =~= pre);
    assert(after_sep(j) =~= key);
}

/// Finds the first separator occurrence at or after `from`.
fn find_sep_from(s: &str, from: usize) -> (r: Option<usize>)
    requires
        from <= s@.len(),
    ensures
        match r {
            Some(i) => from <= i && sep_at(s@, i as int) && forall|j: int|
                from <= j < i ==> !sep_at(s@, j),
            None => forall|j: int| from <= j ==> !sep_at(s@, j),
        },
{
    let n = s.unicode_len();
    let mut i: usize = from;
    loop
        invariant
            from <= i <= n,
            n == s@.len(),
            forall|j: int| from <= j < i ==> !sep_at(s@, j),
        decreases n - i,
    {
        if n - i < 3 {
            proof {
                assert(forall|j: int| j + 3 > s@.len() ==> !sep_at(s@, j));
            }
            return None;
        }
        if s.get_char(i) == ':' && s.get_char(i + 1) == '/' && s.get_char(i + 2) == '/' {
            return Some(i);
        }
        i = i + 1;
    }
}

/// Splits `s` at its single separator occurrence, or reports that the
/// occurrence count is not one.
pub fn split_two<'a>(s: &'a str) -> (r: Option<(&'a str, &'a str)>)
    ensures
        match r {
            Some(parts) => has_unique_sep(s@) && parts.0@ == before_sep(s@) && parts.1@
                == after_sep(s@),
            None => !has_unique_sep(s@),
        },
{
    let n = s.unicode_len();
    let first = match find_sep_from(s, 0) {
        Some(i) => i,
        None => {
            return None;
        },
    };
    assert(first + 3 <= n);
    match find_sep_from(s, first + 1) {
        Some(_) => {
            proof {
                if has_unique_sep(s@) {
                    let i = sep_index(s@);
                    assert(unique_sep_at(s@, i));
                }
            }
            None
        },
        None => {
            proof {
                lemma_unique_sep_index(s@, first as int);
            }
            let pre = s.substring_char(0, first);
            let post = s.substring_char(first + 3, n);
            Some((pre, post))
        },
    }
}

} // verus!
