//! The questions put to the version-control backend, as argument lists for
//! its command-line tool.

use crate::text::{strip_prefix, without_prefix};
use vstd::prelude::*;
use vstd::string::*;

verus! {

/// The arguments that ask whether the current directory lies inside a
/// working tree.
pub open spec fn work_tree_args() -> Seq<Seq<char>> {
    seq!["rev-parse"@, "--is-inside-work-tree"@]
}

/// The arguments that ask for the short name of the current branch.
pub open spec fn branch_name_args() -> Seq<Seq<char>> {
    seq!["rev-parse"@, "--abbrev-ref"@, "HEAD"@]
}

/// The arguments that ask for a short identifier of the current commit.
pub open spec fn short_head_args() -> Seq<Seq<char>> {
    seq!["rev-parse"@, "--short"@, "HEAD"@]
}

/// The configuration key under which `branch` names the remote it tracks.
pub open spec fn remote_key(branch: Seq<char>) -> Seq<char> {
    "branch."@ + branch + ".remote"@
}

/// The configuration key under which `branch` names the reference it
/// merges from.
pub open spec fn merge_key(branch: Seq<char>) -> Seq<char> {
    "branch."@ + branch + ".merge"@
}

/// The arguments that ask for the configuration value stored under `key`.
pub open spec fn config_args(key: Seq<char>) -> Seq<Seq<char>> {
    seq!["config"@, key]
}

/// The reference that a branch is compared with, given the remote it tracks
/// and the reference it merges from. The remote `.` stands for the local
/// repository, where the merge reference is taken as it is; under any other
/// remote the branch is looked up among that remote's branches.
pub open spec fn upstream_ref(remote: Seq<char>, merge: Seq<char>) -> Seq<char> {
    if remote == "."@ {
        merge
    } else {
        "refs/remotes/"@ + remote + "/"@ + without_prefix(merge, "refs/heads/"@)
    }
}

/// The arguments that ask for the commits that only one of `upstream` and
/// the current commit reaches, each marked with the side it is on.
pub open spec fn divergence_args(upstream: Seq<char>) -> Seq<Seq<char>> {
    seq!["rev-list"@, "--left-right"@, upstream + "...HEAD"@]
}

/// The name of the backend's command-line tool.
pub fn backend() -> (name: &'static str)
    ensures
        name@ == "git"@,
{
    "git"
}

/// An argument list of two arguments.
pub(crate) fn args2(a: &str, b: &str) -> (args: Vec<String>)
    ensures
        args.deep_view() == seq![a@, b@],
{
    let mut args: Vec<String> = Vec::new();
    args.push(String::from_str(a));
    args.push(String::from_str(b));
    assert(args.deep_view() =~= seq![a@, b@]);
    args
}

/// An argument list of three arguments.
pub(crate) fn args3(a: &str, b: &str, c: &str) -> (args: Vec<String>)
    ensures
        args.deep_view() == seq![a@, b@, c@],
{
    let mut args: Vec<String> = Vec::new();
    args.push(String::from_str(a));
    args.push(String::from_str(b));
    args.push(String::from_str(c));
    assert(args.deep_view() =~= seq![a@, b@, c@]);
    args
}

/// The query that tells whether the current directory lies inside a working
/// tree.
pub fn work_tree_query() -> (args: Vec<String>)
    ensures
        args.deep_view() == work_tree_args(),
{
    args2("rev-parse", "--is-inside-work-tree")
}

/// The query for the short name of the current branch.
pub fn branch_name_query() -> (args: Vec<String>)
    ensures
        args.deep_view() == branch_name_args(),
{
    args3("rev-parse", "--abbrev-ref", "HEAD")
}

/// The query for a short identifier of the current commit.
pub fn short_head_query() -> (args: Vec<String>)
    ensures
        args.deep_view() == short_head_args(),
{
    args3("rev-parse", "--short", "HEAD")
}

/// The query for the remote that `branch` tracks.
pub fn remote_query(branch: &str) -> (args: Vec<String>)
    ensures
        args.deep_view() == config_args(remote_key(branch@)),
{
    let key = String::from_str("branch.").concat(branch).concat(".remote");
    args2("config", key.as_str())
}

/// The query for the reference that `branch` merges from.
pub fn merge_query(branch: &str) -> (args: Vec<String>)
    ensures
        args.deep_view() == config_args(merge_key(branch@)),
{
    let key = String::from_str("branch.").concat(branch).concat(".merge");
    args2("config", key.as_str())
}

/// The reference to compare a branch with; see [`upstream_ref`].
pub fn upstream_reference(remote: &str, merge: &str) -> (upstream: String)
    ensures
        upstream@ == upstream_ref(remote@, merge@),
{
    if String::from_str(remote) == String::from_str(".") {
        String::from_str(merge)
    } else {
        let branch_part = strip_prefix(merge, "refs/heads/");
        String::from_str("refs/remotes/").concat(remote).concat("/").concat(branch_part.as_str())
    }
}

/// The query for the commits that only one of `upstream` and the current
/// commit reaches.
pub fn divergence_query(upstream: &str) -> (args: Vec<String>)
    ensures
        args.deep_view() == divergence_args(upstream@),
{
    let range = String::from_str(upstream).concat("...HEAD");
    args3("rev-list", "--left-right", range.as_str())
}

} // verus!
