//! Ignore-rule filtering for file discovery.
//!
//! Discovery itself walks the file system and so lives outside the
//! library; it hands in the candidate paths it found together with the
//! ignore rules built from the root's ignore file, and the verified filter
//! below keeps exactly the paths those rules do not exclude, in their
//! original order.

use vstd::prelude::*;
use crate::text::str_eq;

verus! {

#[verifier::external_type_specification]
#[verifier::external_body]
pub struct ExGitignore(ignore::gitignore::Gitignore);

/// The set of paths the ignore rules exclude.
pub uninterp spec fn ignored_set(g: ignore::gitignore::Gitignore) -> Set<Seq<char>>;

/// Relies on `ignore::gitignore::Gitignore::matched` (with `is_dir` false)
/// and `Match::is_ignore`: whether the rules exclude this path.
#[verifier::external_body]
fn gitignore_is_ignored(g: &ignore::gitignore::Gitignore, path: &str) -> (r: bool)
    ensures
        r == ignored_set(*g).contains(path@),
{
    g.matched(path, false).is_ignore()
}

/// The character sequences of a list of paths.
pub open spec fn view_paths(s: Seq<String>) -> Seq<Seq<char>> {
    s.map_values(|p: String| p@)
}

/// The paths that survive the ignore rules, in order.
pub open spec fn spec_kept(ps: Seq<Seq<char>>, ig: Set<Seq<char>>) -> Seq<Seq<char>>
    decreases ps.len(),
{
    if ps.len() == 0 {
        Seq::empty()
    } else {
        spec_kept(ps.drop_last(), ig) + (if ig.contains(ps.last()) {
            Seq::empty()
        } else {
            seq![ps.last()]
        })
    }
}

/// Keep exactly the candidate paths the ignore rules do not exclude, in
/// their original order.
pub fn filter_files(gitignore: &ignore::gitignore::Gitignore, paths: &Vec<String>) -> (r: Vec<
    String,
>)
    ensures
        view_paths(r@) == spec_kept(view_paths(paths@), ignored_set(*gitignore)),
{
    let mut out: Vec<String> = Vec::new();
    let n = paths.len();
    for i in 0..n
        invariant
            n == paths@.len(),
            view_paths(out@) == spec_kept(view_paths(paths@).take(i as int), ignored_set(*gitignore)),
    {
        proof {
            assert(view_paths(paths@).take(i + 1).drop_last() =~= view_paths(paths@).take(i as int));
            assert(view_paths(paths@).take(i + 1).last() == view_paths(paths@)[i as int]);
        }
        if !gitignore_is_ignored(gitignore, paths[i].as_str()) {
            let ghost prev = out@;
            out.push(paths[i].clone());
            proof {
                assert(view_paths(out@) =~= view_paths(prev).push(paths@[i as int]@));
            }
        }
    }
    proof {
        assert(view_paths(paths@).take(n as int) =~= view_paths(paths@));
    }
    out
}

} // verus!
