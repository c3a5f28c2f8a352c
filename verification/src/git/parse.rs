//! What the output of git means.

use crate::git::types;
use crate::git::types::{GitError, GitErrorView, WorktreeInfo, WorktreeView};
use crate::text;
use vstd::prelude::*;
use vstd::slice::slice_subrange;

verus! {

/// A text without the white space around it, if anything is left.
pub open spec fn content(value: Seq<char>) -> Option<Seq<char>> {
    if text::trimmed(value).len() == 0 {
        None
    } else {
        Some(text::trimmed(value))
    }
}

/// A text without the white space around it, if anything is left.
pub fn trim_to_option(value: String) -> (r: Option<String>)
    ensures
        r.deep_view() == content(value@),
{
    let inner = text::trim(value.as_str());
    if inner.as_str().is_empty() {
        None
    } else {
        Some(inner)
    }
}

/// A text without the white space around it; it is an error if nothing is left.
pub open spec fn nonempty(value: Seq<char>, label: Seq<char>) -> Result<
    Seq<char>,
    GitErrorView,
> {
    if text::trimmed(value).len() == 0 {
        Err(types::plain_error(label + " cannot be empty"@))
    } else {
        Ok(text::trimmed(value))
    }
}

/// A text without the white space around it; it is an error if nothing is left.
pub fn require_nonempty(value: &str, label: &str) -> (r: Result<String, GitError>)
    ensures
        types::text_result(r) == nonempty(value@, label@),
{
    let inner = text::trim(value);
    if inner.as_str().is_empty() {
        let mut message = label.to_string();
        message.append(" cannot be empty");
        Err(GitError::new(message))
    } else {
        Ok(inner)
    }
}

/// How many lines of a text hold more than white space, as far as 32 bits tell.
pub open spec fn line_count(value: Seq<char>) -> u32 {
    let n = text::inked(text::lines(value)).len();
    if n <= u32::MAX {
        n as u32
    } else {
        u32::MAX
    }
}

/// How many lines of a text hold more than white space.
pub fn count_lines(value: &str) -> (r: u32)
    ensures
        r == line_count(value@),
{
    let ls = text::trim_all(&text::lines_of(value));
    let n: usize = ls.len();
    if n <= u32::MAX as usize {
        n as u32
    } else {
        u32::MAX
    }
}

/// The name of a branch, without the directory that branches stand in.
pub open spec fn short_branch(branch_ref: Seq<char>) -> Seq<char> {
    match text::stripped(branch_ref, "refs/heads/"@) {
        Some(name) => name,
        None => branch_ref,
    }
}

/// The name of a branch, without the directory that branches stand in.
pub fn branch_name(branch_ref: &str) -> (r: String)
    ensures
        r@ == short_branch(branch_ref@),
{
    match text::strip_prefix(branch_ref, "refs/heads/") {
        Some(name) => name,
        None => branch_ref.to_string(),
    }
}

/// A path with slashes for backslashes.
pub open spec fn slashed(path: Seq<char>) -> Seq<char> {
    path.map_values(
        |c: char|
            if c == '\\' {
                '/'
            } else {
                c
            },
    )
}

/// A path with slashes for backslashes and none at its end.
pub open spec fn normal_path(path: Seq<char>) -> Seq<char> {
    text::without_tail(slashed(path), '/')
}

/// A path with slashes for backslashes and none at its end.
pub fn normalize_path_string(path: &str) -> (r: String)
    ensures
        r@ == normal_path(path@),
{
    let cs = text::chars_of(path);
    let mut out: Vec<char> = Vec::new();
    for i in 0..cs.len()
        invariant
            cs@ == path@,
            out@ == slashed(path@).take(i as int),
    {
        let c = cs[i];
        out.push(if c == '\\' {
            '/'
        } else {
            c
        });
        assert(out@ =~= slashed(path@).take(i + 1));
    }
    assert(out@ =~= slashed(path@));
    let mut len: usize = out.len();
    assert(out@.take(len as int) =~= out@);
    while len > 0 && out[len - 1] == '/'
        invariant
            len <= out@.len(),
            text::without_tail(out@, '/') == text::without_tail(out@.take(len as int), '/'),
        decreases len,
    {
        assert(out@.take(len as int).drop_last() =~= out@.take(len - 1));
        len = len - 1;
    }
    let front = slice_subrange(out.as_slice(), 0, len);
    assert(front@ =~= out@.take(len as int));
    text::text_of(front)
}

/// The worktrees that lines of `git worktree list --porcelain` name, each with
/// its path as it stands there and the last branch that is given for it.
pub open spec fn worktree_records(ls: Seq<Seq<char>>) -> Seq<(Seq<char>, Option<Seq<char>>)>
    decreases ls.len(),
{
    if ls.len() == 0 {
        seq![]
    } else {
        let before = worktree_records(ls.drop_last());
        match text::stripped(ls.last(), "worktree "@) {
            Some(path) => before.push((path, None)),
            None => match text::stripped(ls.last(), "branch "@) {
                Some(branch) if before.len() > 0 => before.update(
                    before.len() - 1,
                    (before.last().0, Some(short_branch(branch))),
                ),
                _ => before,
            },
        }
    }
}

/// A worktree, known to be the main one by its path.
pub open spec fn worktree_view(
    path: Seq<char>,
    branch: Option<Seq<char>>,
    main: Option<Seq<char>>,
) -> WorktreeView {
    WorktreeView { path: normal_path(path), branch, is_main: main == Some(normal_path(path)) }
}

/// The worktrees that the output of `git worktree list --porcelain` names.
pub open spec fn worktrees(output: Seq<char>, main: Option<Seq<char>>) -> Seq<WorktreeView> {
    worktree_records(text::lines(output)).map_values(
        |r: (Seq<char>, Option<Seq<char>>)| worktree_view(r.0, r.1, main),
    )
}

/// A worktree, known to be the main one by its path.
pub fn build_worktree(
    path: String,
    branch: Option<String>,
    main_worktree_path: Option<&str>,
) -> (r: WorktreeInfo)
    ensures
        r@ == worktree_view(path@, branch.deep_view(), main_worktree_path.deep_view()),
{
    let normal = normalize_path_string(path.as_str());
    let is_main = match main_worktree_path {
        Some(main) => text::same_text(normal.as_str(), main),
        None => false,
    };
    WorktreeInfo { path: normal, branch, is_main }
}

/// The worktrees that the output of `git worktree list --porcelain` names.
pub fn parse_worktrees(output: &str, main_worktree_path: Option<&str>) -> (r: Vec<WorktreeInfo>)
    ensures
        r.deep_view() == worktrees(output@, main_worktree_path.deep_view()),
{
    let ls = text::lines_of(output);
    let ghost all = ls.deep_view();
    let ghost main = main_worktree_path.deep_view();
    let ghost build = |r: (Seq<char>, Option<Seq<char>>)| worktree_view(r.0, r.1, main);
    let mut out: Vec<WorktreeInfo> = Vec::new();
    assert(out.deep_view() =~= worktree_records(all.take(0)).map_values(build));
    for i in 0..ls.len()
        invariant
            all == ls.deep_view(),
            main == main_worktree_path.deep_view(),
            build == (|r: (Seq<char>, Option<Seq<char>>)| worktree_view(r.0, r.1, main)),
            out.deep_view() == worktree_records(all.take(i as int)).map_values(build),
    {
        assert(all.take(i + 1).drop_last() =~= all.take(i as int));
        assert(all.take(i + 1).last() == ls@[i as int]@);
        let ghost before = worktree_records(all.take(i as int));
        let ghost shown = out.deep_view();
        if let Some(path) = text::strip_prefix(ls[i].as_str(), "worktree ") {
            let made = build_worktree(path, None, main_worktree_path);
            out.push(made);
            assert(out.deep_view() =~= shown.push(made@));
            assert(before.push((path@, None)).map_values(build) =~= shown.push(made@));
        } else if let Some(branch) = text::strip_prefix(ls[i].as_str(), "branch ") {
            let n: usize = out.len();
            assert(shown.len() == n && before.map_values(build).len() == n);
            if n > 0 {
                let name = branch_name(branch.as_str());
                let ghost old = out@;
                out[n - 1].branch = Some(name);
                let ghost after = before.update(
                    n - 1,
                    (before.last().0, Some(short_branch(branch@))),
                );
                assert forall|k: int| 0 <= k < n implies #[trigger] out.deep_view()[k]
                    == after.map_values(build)[k] by {
                    assert(shown[k] == old[k]@);
                    assert(shown[k] == build(before[k]));
                }
                assert(out.deep_view() =~= after.map_values(build));
            }
        }
    }
    assert(all.take(all.len() as int) =~= all);
    out
}

} // verus!
