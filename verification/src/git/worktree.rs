//! Where worktrees stand, and what they may be called.

use crate::git::parse;
use crate::git::types;
use crate::git::types::{GitError, GitErrorView};
use crate::paths;
use crate::platform::Platform;
use crate::text;
use vstd::prelude::*;

verus! {

/// The name of a new worktree: a text that is the name of one folder.
pub open spec fn worktree_name(value: Seq<char>) -> Result<Seq<char>, GitErrorView> {
    match parse::nonempty(value, "Worktree name"@) {
        Err(e) => Err(e),
        Ok(name) => if name == "."@ || name == ".."@ {
            Err(types::plain_error("Worktree name must be a real folder name"@))
        } else if text::has(name, "/"@) || text::has(name, "\\"@) {
            Err(types::plain_error("Worktree name cannot contain path separators"@))
        } else {
            Ok(name)
        },
    }
}

/// The name of a new worktree, if the text is the name of one folder.
pub fn validate_worktree_name(value: &str) -> (r: Result<String, GitError>)
    ensures
        types::text_result(r) == worktree_name(value@),
{
    let name = match parse::require_nonempty(value, "Worktree name") {
        Ok(name) => name,
        Err(e) => {
            return Err(e);
        },
    };
    if text::same_text(name.as_str(), ".") || text::same_text(name.as_str(), "..") {
        return Err(GitError::new("Worktree name must be a real folder name".to_string()));
    }
    if text::contains(name.as_str(), "/") || text::contains(name.as_str(), "\\") {
        return Err(GitError::new("Worktree name cannot contain path separators".to_string()));
    }
    Ok(name)
}

/// The directory of the main worktree: where the common directory of git is a
/// `.git`, the directory that it stands in.
pub open spec fn main_worktree(
    git_common_dir: Seq<char>,
    current_root: Seq<char>,
    platform: Platform,
) -> Option<Seq<char>> {
    let full = if paths::absolute(git_common_dir, platform) {
        git_common_dir
    } else {
        paths::joined_path(current_root, git_common_dir, platform)
    };
    if paths::file_name(full, platform) == Some(".git"@) {
        paths::parent(full, platform)
    } else {
        None
    }
}

/// The directory of the main worktree.
pub fn resolve_main_worktree_path(
    git_common_dir: &str,
    current_root: &str,
    platform: Platform,
) -> (r: Option<String>)
    ensures
        r.deep_view() == main_worktree(git_common_dir@, current_root@, platform),
{
    let full = if paths::is_absolute(git_common_dir, platform) {
        git_common_dir.to_string()
    } else {
        paths::path_join(current_root, git_common_dir, platform)
    };
    match paths::path_file_name(full.as_str(), platform) {
        Some(name) => if text::same_text(name.as_str(), ".git") {
            paths::path_parent(full.as_str(), platform)
        } else {
            None
        },
        None => None,
    }
}

/// The path of a new worktree: its name in a directory beside the main worktree
/// that bears the name of the repository.
pub open spec fn worktree_target(main: Seq<char>, name: Seq<char>, platform: Platform) -> Result<
    Seq<char>,
    GitErrorView,
> {
    match (paths::file_name(main, platform), paths::parent(main, platform)) {
        (None, _) => Err(types::plain_error("Could not determine repository name"@)),
        (_, None) => Err(types::plain_error("Could not determine repository parent"@)),
        (Some(repo), Some(up)) => Ok(
            paths::joined_path(
                paths::joined_path(up, repo + "-worktrees"@, platform),
                name,
                platform,
            ),
        ),
    }
}

/// The path of a new worktree.
pub fn worktree_path(
    main_worktree_path: &str,
    worktree_name: &str,
    platform: Platform,
) -> (r: Result<String,GitError>)
    ensures
        types::text_result(r) == worktree_target(main_worktree_path@, worktree_name@, platform),
{
    let mut folder = match paths::path_file_name(main_worktree_path, platform) {
        Some(name) => name,
        None => {
            return Err(GitError::new("Could not determine repository name".to_string()));
        },
    };
    let up = match paths::path_parent(main_worktree_path, platform) {
        Some(up) => up,
        None => {
            return Err(GitError::new("Could not determine repository parent".to_string()));
        },
    };
    folder.append("-worktrees");
    let beside = paths::path_join(up.as_str(), folder.as_str(), platform);
    Ok(paths::path_join(beside.as_str(), worktree_name, platform))
}

} // verus!
