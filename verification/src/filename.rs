//! Splitting an upload's filename into its display title and raw extension.
//!
//! The name is split at its last dot.  A dot at the very start of the name (a
//! hidden file) does not count as a separator, and a name without a dot has
//! no extension; both cases yield an empty raw extension, which the
//! classifier later replaces with the configured default.

use vstd::prelude::*;

verus! {

/// The position of the last dot in a name, if any.
pub open spec fn last_dot(s: Seq<char>) -> Option<int>
    decreases s.len(),
{
    if s.len() == 0 {
        None
    } else if s.last() == '.' {
        Some(s.len() - 1)
    } else {
        last_dot(s.drop_last())
    }
}

/// A reported dot position lies inside the name.
pub proof fn lemma_last_dot_range(s: Seq<char>)
    ensures
        last_dot(s) is Some ==> 0 <= last_dot(s)->0 < s.len(),
    decreases s.len(),
{
    if s.len() > 0 && s.last() != '.' {
        lemma_last_dot_range(s.drop_last());
    }
}

/// The filename-derived title and the raw extension.  The extension is empty
/// when the name has no dot past its first character.
pub open spec fn split_name(s: Seq<char>) -> (Seq<char>, Seq<char>) {
    match last_dot(s) {
        Some(i) => if i > 0 {
            (s.subrange(0, i), s.subrange(i + 1, s.len() as int))
        } else {
            (s, Seq::empty())
        },
        None => (s, Seq::empty()),
    }
}

/// Relies on `str::rsplit_once` with a `'.'` pattern: splits the string
/// around its last dot, or reports that it has none.
#[verifier::external_body]
fn rsplit_dot(s: &str) -> (r: Option<(&str, &str)>)
    ensures
        match r {
            Some(p) => {
                &&& last_dot(s@) is Some
                &&& p.0@ == s@.subrange(0, last_dot(s@)->0)
                &&& p.1@ == s@.subrange(last_dot(s@)->0 + 1, s@.len() as int)
            },
            None => last_dot(s@) is None,
        },
{
    s.rsplit_once('.')
}

/// Splits a filename into its display title and raw extension.
pub fn split_filename(name: &str) -> (r: (String, String))
    ensures
        (r.0@, r.1@) == split_name(name@),
{
    match rsplit_dot(name) {
        Some((stem, ext)) => {
            proof {
                lemma_last_dot_range(name@);
                assert(stem@.len() == last_dot(name@)->0);
            }
            if stem.is_empty() {
                (name.to_owned(), String::new())
            } else {
                (stem.to_owned(), ext.to_owned())
            }
        },
        None => (name.to_owned(), String::new()),
    }
}

} // verus!
