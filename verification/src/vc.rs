//! What the library asks of a version control system.
use crate::error::Result;
use crate::path::DirPath;
use vstd::prelude::*;

verus! {

/// A working copy under version control. The library calls it and decides on
/// what comes back; it states nothing of how an implementation behaves.
pub trait VersionControl {
    /// The root directory of the working copy.
    fn root(&self) -> DirPath;

    /// The name of the remote branch that the current branch follows.
    fn remote_branch(&self) -> Result<String>;

    /// The paths, relative to the root, of the files that differ from `commit`.
    fn diff_files(&self, commit: &str) -> Result<Vec<String>>;

    /// Puts the path and what lies below it under version control.
    fn add_path(&self, path: &DirPath) -> Result<()>;

    /// Commits what was added.
    fn commit(&self, message: &str) -> Result<()>;

    /// The address that changes are pushed to.
    fn get_push_url(&self) -> Result<String>;

    /// The messages of the commits in `range`: their first lines, or the whole
    /// of each with `include_body`.
    fn log(&self, range: &str, include_body: bool) -> Result<Vec<String>>;

    /// Fetches `branch` from the remote.
    fn fetch(&self, branch: &str) -> Result<()>;

    /// Pushes the current branch to `branch` of the remote.
    fn push(&self, branch: &str) -> Result<()>;

    /// Merges the remote branch into the current one, or only checks that it
    /// could be merged with `dry_run`.
    fn merge(&self, remote_branch: &str, dry_run: bool) -> Result<()>;
}

/// `r` is what `vc` answered when asked which branch the current one follows.
pub open spec fn gave_remote_branch<V: VersionControl>(vc: &V, r: Result<String>) -> bool {
    call_ensures(V::remote_branch, (vc,), r)
}

/// `r` is what `vc` answered when asked for the messages of the commits in
/// `range`, whole or by their first lines.
pub open spec fn gave_log<V: VersionControl>(
    vc: &V,
    range: &str,
    include_body: bool,
    r: Result<Vec<String>>,
) -> bool {
    call_ensures(V::log, (vc, range, include_body), r)
}

/// `root` is what `vc` gave as the root of the working copy.
pub open spec fn gave_root<V: VersionControl>(vc: &V, root: DirPath) -> bool {
    call_ensures(V::root, (vc,), root)
}

/// `files` is what `vc` answered when asked what differs from `commit`.
pub open spec fn gave_diff<V: VersionControl>(
    vc: &V,
    commit: &str,
    files: Result<Vec<String>>,
) -> bool {
    call_ensures(V::diff_files, (vc, commit), files)
}

/// `r` is what `vc` answered when asked to fetch `branch`.
pub open spec fn gave_fetch<V: VersionControl>(vc: &V, branch: &str, r: Result<()>) -> bool {
    call_ensures(V::fetch, (vc, branch), r)
}

/// `r` is what `vc` answered when asked to merge `branch`, or with `dry_run`
/// to check that it could be merged.
pub open spec fn gave_merge<V: VersionControl>(
    vc: &V,
    branch: &str,
    dry_run: bool,
    r: Result<()>,
) -> bool {
    call_ensures(V::merge, (vc, branch, dry_run), r)
}

/// `r` is what `vc` answered when asked to push to `branch`.
pub open spec fn gave_push<V: VersionControl>(vc: &V, branch: &str, r: Result<()>) -> bool {
    call_ensures(V::push, (vc, branch), r)
}

} // verus!
