//! Exclusion rules: shell-style patterns matched against relative paths.
//!
//! A rule that matches a directory removes the whole subtree below it, so a
//! path is excluded as soon as the path itself or any directory above it,
//! up to but not including the root, matches a rule.

use crate::text::{chars_of, slice_of, string_of, string_views};
use vstd::prelude::*;

verus! {

/// Whether a text is a well-formed pattern.
pub uninterp spec fn glob_valid(pattern: Seq<char>) -> bool;

/// Whether a well-formed pattern matches a path.
pub uninterp spec fn glob_matches(pattern: Seq<char>, path: Seq<char>) -> bool;

/// Compiles a pattern and matches a path against it.
///
/// Trusted: stands for `glob::Pattern::new` followed by
/// `glob::Pattern::matches_path`. The claim is that whether the pattern
/// compiles depends on its text alone, named [`glob_valid`], and that for a
/// pattern that compiles the answer depends on the two texts alone, named
/// [`glob_matches`]. Both names are those of a target whose path separator
/// is `/`, as every path of this crate is. Nothing is said of which paths a
/// pattern matches.
#[verifier::external_body]
fn glob_match(pattern: &str, path: &str) -> (r: Option<bool>)
    ensures
        r is Some <==> glob_valid(pattern@),
        r matches Some(m) ==> m == glob_matches(pattern@, path@),
{
    match glob::Pattern::new(pattern) {
        Ok(compiled) => Some(compiled.matches_path(std::path::Path::new(path))),
        Err(_) => None,
    }
}

/// Every rule is a well-formed pattern.
pub open spec fn all_valid(patterns: Seq<Seq<char>>) -> bool {
    forall|i: int| 0 <= i < patterns.len() ==> glob_valid(#[trigger] patterns[i])
}

/// `i` is the first rule that is not a well-formed pattern.
pub open spec fn first_invalid(patterns: Seq<Seq<char>>, i: int) -> bool {
    &&& 0 <= i < patterns.len()
    &&& !glob_valid(patterns[i])
    &&& forall|j: int| 0 <= j < i ==> glob_valid(#[trigger] patterns[j])
}

/// Some rule matches the path.
pub open spec fn matches_any(patterns: Seq<Seq<char>>, path: Seq<char>) -> bool {
    exists|i: int| 0 <= i < patterns.len() && glob_matches(#[trigger] patterns[i], path)
}

/// `k` ends a directory name in `path`, or the path itself.
pub open spec fn is_cut(path: Seq<char>, k: int) -> bool {
    0 < k <= path.len() && (k == path.len() || path[k] == '/')
}

/// The path is excluded: a rule matches it or a directory above it.
pub open spec fn pruned(patterns: Seq<Seq<char>>, path: Seq<char>) -> bool {
    exists|k: int| is_cut(path, k) && matches_any(patterns, #[trigger] path.take(k))
}

/// The root of a tree, whose relative path is empty, is never excluded.
pub proof fn lemma_root_is_kept(patterns: Seq<Seq<char>>)
    ensures
        !pruned(patterns, Seq::<char>::empty()),
{
}

/// An excluded directory takes its whole subtree with it: whatever lies
/// below an excluded path is excluded too.
pub proof fn lemma_subtree_is_pruned(patterns: Seq<Seq<char>>, dir: Seq<char>, below: Seq<char>)
    requires
        pruned(patterns, dir),
    ensures
        pruned(patterns, dir + seq!['/'] + below),
{
    let whole = dir + seq!['/'] + below;
    let k = choose|k: int| is_cut(dir, k) && matches_any(patterns, #[trigger] dir.take(k));
    assert(whole.take(k) == dir.take(k));
    assert(is_cut(whole, k)) by {
        if k == dir.len() {
            assert(whole[k] == '/');
        } else {
            assert(whole[k] == dir[k]);
        }
    }
}

/// Checks the rules. Gives the position of the first one that is no
/// well-formed pattern.
pub fn check_patterns(patterns: &Vec<String>) -> (r: Result<(), usize>)
    ensures
        r is Ok <==> all_valid(string_views(patterns@)),
        r matches Err(i) ==> first_invalid(string_views(patterns@), i as int),
{
    let mut i: usize = 0;
    while i < patterns.len()
        invariant
            i <= patterns.len(),
            forall|j: int| 0 <= j < i ==> glob_valid(#[trigger] string_views(patterns@)[j]),
        decreases patterns.len() - i,
    {
        let answer = glob_match(patterns[i].as_str(), "");
        assert(string_views(patterns@)[i as int] == patterns@[i as int]@);
        if answer.is_none() {
            return Err(i);
        }
        i += 1;
    }
    Ok(())
}

/// Whether some rule matches the path, for rules that are all well formed.
fn any_match(patterns: &Vec<String>, path: &str) -> (r: bool)
    requires
        all_valid(string_views(patterns@)),
    ensures
        r == matches_any(string_views(patterns@), path@),
{
    let mut i: usize = 0;
    while i < patterns.len()
        invariant
            i <= patterns.len(),
            all_valid(string_views(patterns@)),
            forall|j: int| 0 <= j < i ==> !glob_matches(#[trigger] string_views(patterns@)[j], path@),
        decreases patterns.len() - i,
    {
        assert(string_views(patterns@)[i as int] == patterns@[i as int]@);
        match glob_match(patterns[i].as_str(), path) {
            Some(true) => {
                return true;
            },
            _ => {},
        }
        i += 1;
    }
    false
}

/// Whether the path is excluded, for rules that are all well formed.
pub(crate) fn is_pruned(patterns: &Vec<String>, path: &Vec<char>) -> (r: bool)
    requires
        all_valid(string_views(patterns@)),
    ensures
        r == pruned(string_views(patterns@), path@),
{
    let mut done: usize = 0;
    while done < path.len()
        invariant
            done <= path.len(),
            all_valid(string_views(patterns@)),
            forall|j: int|
                0 < j <= done && is_cut(path@, j) ==> !matches_any(
                    string_views(patterns@),
                    #[trigger] path@.take(j),
                ),
        decreases path.len() - done,
    {
        let k = done + 1;
        if k == path.len() || path[k] == '/' {
            let prefix = string_of(&slice_of(path, 0, k));
            assert(prefix@ == path@.take(k as int));
            if any_match(patterns, prefix.as_str()) {
                assert(is_cut(path@, k as int));
                return true;
            }
        }
        done = k;
    }
    false
}

/// Whether a relative path is excluded by the rules: `Ok` with the answer
/// where every rule is a well-formed pattern, and otherwise `Err` with the
/// position of the first rule that is none.
pub fn is_excluded(patterns: &Vec<String>, relative_path: &str) -> (r: Result<bool, usize>)
    ensures
        match r {
            Ok(excluded) => all_valid(string_views(patterns@)) && excluded == pruned(
                string_views(patterns@),
                relative_path@,
            ),
            Err(i) => first_invalid(string_views(patterns@), i as int),
        },
{
    match check_patterns(patterns) {
        Err(i) => Err(i),
        Ok(()) => {
            let path = chars_of(relative_path);
            Ok(is_pruned(patterns, &path))
        },
    }
}

/// Whether a name is hidden from a listing: some rule that is a well-formed
/// pattern matches it. Rules that are none are passed over.
pub open spec fn hidden(patterns: Seq<Seq<char>>, name: Seq<char>) -> bool {
    exists|i: int|
        0 <= i < patterns.len() && glob_valid(#[trigger] patterns[i]) && glob_matches(
            patterns[i],
            name,
        )
}

/// Whether a listing leaves the name out.
pub fn is_hidden(patterns: &Vec<String>, name: &str) -> (r: bool)
    ensures
        r == hidden(string_views(patterns@), name@),
{
    let mut i: usize = 0;
    while i < patterns.len()
        invariant
            i <= patterns.len(),
            forall|j: int|
                0 <= j < i ==> !(glob_valid(#[trigger] string_views(patterns@)[j]) && glob_matches(
                    string_views(patterns@)[j],
                    name@,
                )),
        decreases patterns.len() - i,
    {
        assert(string_views(patterns@)[i as int] == patterns@[i as int]@);
        match glob_match(patterns[i].as_str(), name) {
            Some(true) => {
                return true;
            },
            _ => {},
        }
        i += 1;
    }
    false
}

} // verus!
