//! What the operations that change a repository do, in terms of the request and
//! of what git wrote.

use crate::git::exchange::{
    ActionView, GitAction, GitStep, ProgressView, ReplyView, StepView,
};
use crate::git::operations;
use crate::git::parse;
use crate::git::state_laws;
use crate::git::types;
use crate::git::types::{CreatedView, CreatedWorktree};
use crate::git::worktree;
use crate::paths;
use crate::platform::Platform;
use crate::text;
use vstd::prelude::*;

verus! {

/// A failure with a message and nothing behind it.
pub open spec fn refused<T>(r: GitStep<T>, message: Seq<char>) -> bool {
    r matches GitStep::Done(Err(e)) && e.message@ == message && e.cause is None
}

/// An operation that runs git once does so in the directory that it is given,
/// once that is known to exist, with the arguments that it is given; it succeeds
/// exactly where git does, and tells what git wrote where it fails.
pub proof fn single_runs_end_as_git_does(
    path: Seq<char>,
    args: Seq<Seq<char>>,
    replies: Seq<ReplyView>,
    r: GitStep<()>,
)
    requires
        r@ == operations::single_run(path, args, replies),
    ensures
        replies.len() == 0 ==> (r matches GitStep::Do(GitAction::PathExists { path: p }) && p@
            == path),
        replies.len() > 0 && replies[0] == ReplyView::Exists(false) ==> refused(
            r,
            "Path does not exist: "@ + path,
        ),
        replies.len() == 1 && replies[0] == ReplyView::Exists(true) ==> (r matches GitStep::Do(
            GitAction::Git { dir, args: a },
        ) && dir@ == path && a.deep_view() == args),
        replies.len() > 1 && replies[0] == ReplyView::Exists(true) ==> {
            &&& replies[1] matches ReplyView::Ran { success, stdout, stderr } ==> if success {
                r matches GitStep::Done(Ok(_))
            } else {
                refused(r, state_laws::complaint(args, stdout, stderr))
            }
            &&& replies[1] matches ReplyView::NotRun(cause) ==> (r matches GitStep::Done(Err(e))
                && e.message@ == "Failed to run git"@ && e.cause.deep_view() == Some(cause))
        },
{
}

/// A branch is made under the name that is given, from the base that is given,
/// both without the white space around them, and neither may be blank.
pub proof fn branches_are_made_as_named(
    path: Seq<char>,
    name: Seq<char>,
    base: Seq<char>,
    replies: Seq<ReplyView>,
    r: GitStep<()>,
)
    requires
        r@ == operations::create_branch_step(path, name, base, replies),
        replies.len() > 0,
        replies[0] == ReplyView::Exists(true),
    ensures
        ({
            let (n, b) = (text::trimmed(name), text::trimmed(base));
            if n.len() == 0 {
                refused(r, "Branch name cannot be empty"@)
            } else if b.len() == 0 {
                refused(r, "Base branch cannot be empty"@)
            } else {
                let args = seq!["switch"@, "-c"@, n, b];
                &&& replies.len() == 1 ==> (r matches GitStep::Do(GitAction::Git { dir, args: a })
                    && dir@ == path && a.deep_view() == args)
                &&& replies.len() > 1 ==> (replies[1] matches ReplyView::Ran {
                    success,
                    stdout,
                    stderr,
                } ==> if success {
                    r matches GitStep::Done(Ok(_))
                } else {
                    refused(r, state_laws::complaint(args, stdout, stderr))
                })
            }
        }),
{
    reveal_strlit("Branch name");
    reveal_strlit("Base branch");
    reveal_strlit(" cannot be empty");
    reveal_strlit("Branch name cannot be empty");
    reveal_strlit("Base branch cannot be empty");
    assert("Branch name"@ + " cannot be empty"@ =~= "Branch name cannot be empty"@);
    assert("Base branch"@ + " cannot be empty"@ =~= "Base branch cannot be empty"@);
}

/// The name of a worktree is valid exactly where it is the name of one folder:
/// without the white space around it, it is not empty, not `.` or `..`, and
/// holds no separator. Each other name is refused for its reason.
pub proof fn worktree_names_are_folder_names(value: Seq<char>)
    ensures
        ({
            let name = text::trimmed(value);
            worktree::worktree_name(value) == if name.len() == 0 {
                Err(types::plain_error("Worktree name cannot be empty"@))
            } else if name == seq!['.'] || name == seq!['.', '.'] {
                Err(types::plain_error("Worktree name must be a real folder name"@))
            } else if name.contains('/') || name.contains('\\') {
                Err(types::plain_error("Worktree name cannot contain path separators"@))
            } else {
                Ok(name)
            }
        }),
{
    let name = text::trimmed(value);
    reveal_strlit("Worktree name");
    reveal_strlit(" cannot be empty");
    reveal_strlit("Worktree name cannot be empty");
    reveal_strlit(".");
    reveal_strlit("..");
    reveal_strlit("/");
    reveal_strlit("\\");
    assert("Worktree name"@ + " cannot be empty"@ =~= "Worktree name cannot be empty"@);
    assert("."@ =~= seq!['.']);
    assert(".."@ =~= seq!['.', '.']);
    assert("/"@ =~= seq!['/']);
    assert("\\"@ =~= seq!['\\']);
    lemma_has_char(name, '/');
    lemma_has_char(name, '\\');
}

proof fn lemma_has_char(s: Seq<char>, c: char)
    ensures
        text::has(s, seq![c]) == s.contains(c),
{
    text::lemma_find(s, seq![c]);
    if text::has(s, seq![c]) {
        let i = text::find(s, seq![c])->0;
        assert(s.subrange(i, i + 1)[0] == s[i]);
    } else if s.contains(c) {
        let i = choose|i: int| 0 <= i < s.len() && s[i] == c;
        assert(s.subrange(i, i + 1) =~= seq![c]);
        assert(text::occurs_at(s, seq![c], i));
    }
}

proof fn lemma_target(up: Seq<char>, repo: Seq<char>, folder: Seq<char>, platform: Platform)
    requires
        !(platform is Windows),
        state_laws::is_clean(up) || up.len() == 0,
        state_laws::is_name(repo),
        state_laws::is_name(folder),
    ensures
        ({
            let beside = up + "/"@ + repo + "-worktrees"@;
            let target = beside + "/"@ + folder;
            &&& worktree::worktree_target(up + "/"@ + repo, folder, platform) == Ok::<
                Seq<char>,
                types::GitErrorView,
            >(target)
            &&& paths::parent(target, platform) == Some(beside)
        }),
{
    reveal_strlit("/");
    reveal_strlit("-worktrees");
    state_laws::lemma_unix_path(up, repo, platform);
    let main = up + "/"@ + repo;
    assert(main =~= up.push('/') + repo);
    let bundle = repo + "-worktrees"@;
    let beside = up + "/"@ + repo + "-worktrees"@;
    assert(repo.contains(repo[0]));
    assert(bundle[0] == repo[0]);
    let above = paths::parent(main, platform)->0;
    if up.len() == 0 {
        assert(above == seq!['/']);
        assert(paths::joined_path(above, bundle, platform) == above + bundle);
        assert(above + bundle =~= beside);
    } else {
        assert(above == up);
        assert(paths::joined_path(above, bundle, platform) == up.push('/') + bundle);
        assert(up.push('/') + bundle =~= beside);
    }
    assert(beside.last() == "-worktrees"@[9]);
    assert(folder.contains(folder[0]));
    let target = beside + "/"@ + folder;
    assert(paths::joined_path(beside, folder, platform) == beside.push('/') + folder);
    assert(beside.push('/') + folder =~= target);
    assert(beside[0] == '/') by {
        assert(beside[0] == (up + "/"@)[0]);
    }
    assert(state_laws::is_clean(beside));
    state_laws::lemma_unix_path(beside, folder, platform);
}

/// The directory that a new worktree stands beside, known from what git wrote: the
/// main worktree, where the common directory is the `.git` of a directory, or a
/// bare `.git`, which stands in the root of the worktree; and the directory of the
/// request where git tells no common directory.
pub open spec fn stands_beside(
    path: Seq<char>,
    replies: Seq<ReplyView>,
    main: Seq<char>,
) -> bool {
    &&& replies.len() >= 3
    &&& replies[0] == ReplyView::Exists(true)
    &&& state_laws::wrote(replies[1]) matches Some(root) && text::trimmed(root).len() > 0
    &&& state_laws::wrote(replies[2]) matches Some(common) && {
        let dir = text::trimmed(common);
        ||| dir == main + "/.git"@
        ||| dir == ".git"@ && text::trimmed(state_laws::wrote(replies[1])->0) == main
        ||| dir.len() == 0 && path == main
    }
}

proof fn lemma_beside(
    path: Seq<char>,
    name: Seq<char>,
    platform: Platform,
    replies: Seq<ReplyView>,
    up: Seq<char>,
    repo: Seq<char>,
)
    requires
        !(platform is Windows),
        state_laws::is_clean(up) || up.len() == 0,
        state_laws::is_name(repo),
        !up.contains('\\') && !repo.contains('\\'),
        stands_beside(path, replies, up + "/"@ + repo),
        state_laws::is_name(text::trimmed(name)) && !text::trimmed(name).contains('\\'),
    ensures
        ({
            let beside = up + "/"@ + repo + "-worktrees"@;
            let target = beside + "/"@ + text::trimmed(name);
            &&& operations::repo_context(path, platform, replies, 1) matches ProgressView::Go(
                context,
            ) && (match context.1 {
                Some(main) => main,
                None => path,
            }) == up + "/"@ + repo
            &&& worktree::worktree_name(name) == Ok::<Seq<char>, types::GitErrorView>(
                text::trimmed(name),
            )
            &&& worktree::worktree_target(up + "/"@ + repo, text::trimmed(name), platform) == Ok::<
                Seq<char>,
                types::GitErrorView,
            >(target)
            &&& paths::parent(target, platform) == Some(beside)
            &&& parse::normal_path(target) == target
        }),
{
    reveal_strlit("/");
    reveal_strlit("/.git");
    reveal_strlit(".git");
    reveal_strlit("-worktrees");
    let main = up + "/"@ + repo;
    let folder = text::trimmed(name);
    let root = text::trimmed(state_laws::wrote(replies[1])->0);
    let dir = text::trimmed(state_laws::wrote(replies[2])->0);
    assert(repo.contains(repo[repo.len() - 1]) && repo.contains(repo[0]));
    assert(main[0] == (up + "/"@)[0]);
    assert(main.len() >= 2);
    if main.last() == '.' && main[main.len() - 2] == '/' {
        if repo.len() == 1 {
            assert(repo =~= seq!['.']);
        } else {
            assert(main[main.len() - 2] == repo[repo.len() - 2]);
            assert(repo.contains(repo[repo.len() - 2]));
        }
    }
    assert(state_laws::is_clean(main));
    assert forall|i: int| 0 <= i < main.len() implies main[i] != '\\' by {
        if i < up.len() {
            assert(main[i] == up[i]);
            assert(up.contains(up[i]));
        } else if i > up.len() {
            assert(main[i] == repo[i - up.len() - 1]);
            assert(repo.contains(repo[i - up.len() - 1]));
        }
    }
    state_laws::lemma_normal(main);
    state_laws::lemma_main_worktree(main, main, repo, platform);
    if dir == main + "/.git"@ {
        state_laws::lemma_main_worktree(main, root, repo, platform);
        assert(operations::main_path(state_laws::wrote(replies[2])->0, root, platform) == Some(
            main,
        ));
    }
    worktree_names_are_folder_names(name);
    lemma_target(up, repo, folder, platform);
    let target = main + "-worktrees"@ + "/"@ + folder;
    assert(folder.contains(folder[folder.len() - 1]));
    assert(target.last() == folder[folder.len() - 1]);
    let beside = main + "-worktrees"@;
    assert forall|i: int| 0 <= i < target.len() implies target[i] != '\\' by {
        if i < main.len() {
            assert(target[i] == main[i]);
        } else if i < beside.len() {
            assert(target[i] == "-worktrees"@[i - main.len()]);
        } else if i > beside.len() {
            assert(target[i] == folder[i - beside.len() - 1]);
            assert(folder.contains(folder[i - beside.len() - 1]));
        } else {
            assert(target[i] == '/');
        }
    }
    state_laws::lemma_normal(target);
}

proof fn lemma_route(
    path: Seq<char>,
    name: Seq<char>,
    branch: Seq<char>,
    create_branch: bool,
    base_branch: Option<Seq<char>>,
    platform: Platform,
    replies: Seq<ReplyView>,
    main: Seq<char>,
    target: Seq<char>,
)
    requires
        replies.len() >= 3,
        replies[0] == ReplyView::Exists(true),
        worktree::worktree_name(name) == Ok::<Seq<char>, types::GitErrorView>(text::trimmed(name)),
        text::trimmed(branch).len() > 0,
        operations::repo_context(path, platform, replies, 1) matches ProgressView::Go(context) && (
        match context.1 {
            Some(main) => main,
            None => path,
        }) == main,
        worktree::worktree_target(main, text::trimmed(name), platform) == Ok::<
            Seq<char>,
            types::GitErrorView,
        >(target),
    ensures
        ({
            let step = operations::create_worktree_step(
                path,
                name,
                branch,
                create_branch,
                base_branch,
                platform,
                replies,
            );
            &&& replies.len() == 3 ==> step == StepView::<CreatedView>::Do(
                ActionView::PathExists { path: target },
            )
            &&& replies.len() > 3 && replies[3] == ReplyView::Exists(true) ==> step == StepView::<
                CreatedView,
            >::Done(Err(types::plain_error("Worktree path already exists: "@ + target)))
            &&& replies.len() > 3 && replies[3] == ReplyView::Exists(false) ==> step
                == operations::add_worktree_step(
                path,
                target,
                text::trimmed(branch),
                create_branch,
                base_branch,
                platform,
                replies,
            )
        }),
{
}

proof fn lemma_made(
    path: Seq<char>,
    chosen: Seq<char>,
    create_branch: bool,
    base_branch: Option<Seq<char>>,
    platform: Platform,
    replies: Seq<ReplyView>,
    r: GitStep<CreatedWorktree>,
    beside: Seq<char>,
    target: Seq<char>,
)
    requires
        r@ == operations::add_worktree_step(
            path,
            target,
            chosen,
            create_branch,
            base_branch,
            platform,
            replies,
        ),
        replies.len() > 3,
        paths::parent(target, platform) == Some(beside),
        parse::normal_path(target) == target,
    ensures
        ({
            let base = match base_branch {
                Some(base) => text::trimmed(base),
                None => seq![],
            };
            let args = if create_branch {
                seq!["worktree"@, "add"@, "-b"@, chosen, target, base]
            } else {
                seq!["worktree"@, "add"@, target, chosen]
            };
            &&& replies.len() == 4 ==> (r matches GitStep::Do(GitAction::CreateDirs { path: p })
                && p@ == beside)
            &&& replies.len() > 4 ==> (replies[4] matches ReplyView::DirsFailed(cause) ==> (
            r matches GitStep::Done(Err(e)) && e.message@
                == "Failed to create worktree directory"@ && e.cause.deep_view() == Some(
                cause,
            )))
            &&& replies.len() > 4 && replies[4] == ReplyView::DirsCreated ==> {
                &&& create_branch && base.len() == 0 ==> refused(
                    r,
                    "Base branch cannot be empty"@,
                )
                &&& !create_branch || base.len() > 0 ==> {
                    &&& replies.len() == 5 ==> (r matches GitStep::Do(
                        GitAction::Git { dir, args: a },
                    ) && dir@ == path && a.deep_view() == args)
                    &&& replies.len() > 5 ==> (replies[5] matches ReplyView::Ran {
                        success,
                        stdout,
                        stderr,
                    } ==> if success {
                        r matches GitStep::Done(Ok(made)) && made.path@ == target
                            && made.branch@ == chosen
                    } else {
                        refused(r, state_laws::complaint(args, stdout, stderr))
                    })
                }
            }
        }),
{
    reveal_strlit("Base branch");
    reveal_strlit(" cannot be empty");
    reveal_strlit("Base branch cannot be empty");
    assert("Base branch"@ + " cannot be empty"@ =~= "Base branch cannot be empty"@);
    assert(text::trimmed(Seq::<char>::empty()) =~= seq![]);
}

/// A new worktree on Unix stands under its own name in a directory beside the main
/// worktree that is named after it, whatever worktree the request came from. That
/// path is looked for, its directory is made, git is told to make the worktree
/// there, and it is what the caller is told: with the branch that is given, which
/// is a new one from the base that is given where that is wanted. A path that
/// exists is refused.
pub proof fn worktrees_are_made_beside_the_main_one(
    path: Seq<char>,
    name: Seq<char>,
    branch: Seq<char>,
    create_branch: bool,
    base_branch: Option<Seq<char>>,
    platform: Platform,
    replies: Seq<ReplyView>,
    r: GitStep<CreatedWorktree>,
    up: Seq<char>,
    repo: Seq<char>,
)
    requires
        !(platform is Windows),
        r@ == operations::create_worktree_step(
            path,
            name,
            branch,
            create_branch,
            base_branch,
            platform,
            replies,
        ),
        state_laws::is_clean(up) || up.len() == 0,
        state_laws::is_name(repo),
        !up.contains('\\') && !repo.contains('\\'),
        stands_beside(path, replies, up + "/"@ + repo),
        state_laws::is_name(text::trimmed(name)) && !text::trimmed(name).contains('\\'),
        text::trimmed(branch).len() > 0,
    ensures
        ({
            let beside = up + "/"@ + repo + "-worktrees"@;
            let target = beside + "/"@ + text::trimmed(name);
            let chosen = text::trimmed(branch);
            let base = match base_branch {
                Some(base) => text::trimmed(base),
                None => seq![],
            };
            let args = if create_branch {
                seq!["worktree"@, "add"@, "-b"@, chosen, target, base]
            } else {
                seq!["worktree"@, "add"@, target, chosen]
            };
            &&& replies.len() == 3 ==> (r matches GitStep::Do(GitAction::PathExists { path: p })
                && p@ == target)
            &&& replies.len() > 3 && replies[3] == ReplyView::Exists(true) ==> refused(
                r,
                "Worktree path already exists: "@ + target,
            )
            &&& replies.len() > 3 && replies[3] == ReplyView::Exists(false) ==> {
                &&& replies.len() == 4 ==> (r matches GitStep::Do(GitAction::CreateDirs { path: p })
                    && p@ == beside)
                &&& replies.len() > 4 ==> (replies[4] matches ReplyView::DirsFailed(cause) ==> (
                r matches GitStep::Done(Err(e)) && e.message@
                    == "Failed to create worktree directory"@ && e.cause.deep_view() == Some(
                    cause,
                )))
                &&& replies.len() > 4 && replies[4] == ReplyView::DirsCreated ==> {
                    &&& create_branch && base.len() == 0 ==> refused(
                        r,
                        "Base branch cannot be empty"@,
                    )
                    &&& !create_branch || base.len() > 0 ==> {
                        &&& replies.len() == 5 ==> (r matches GitStep::Do(
                            GitAction::Git { dir, args: a },
                        ) && dir@ == path && a.deep_view() == args)
                        &&& replies.len() > 5 ==> (replies[5] matches ReplyView::Ran {
                            success,
                            stdout,
                            stderr,
                        } ==> if success {
                            r matches GitStep::Done(Ok(made)) && made.path@ == target
                                && made.branch@ == chosen
                        } else {
                            refused(r, state_laws::complaint(args, stdout, stderr))
                        })
                    }
                }
            }
        }),
{
    let main = up + "/"@ + repo;
    let beside = main + "-worktrees"@;
    let target = beside + "/"@ + text::trimmed(name);
    let chosen = text::trimmed(branch);
    lemma_beside(path, name, platform, replies, up, repo);
    lemma_route(
        path,
        name,
        branch,
        create_branch,
        base_branch,
        platform,
        replies,
        main,
        target,
    );
    if replies.len() > 3 && replies[3] == ReplyView::Exists(false) {
        lemma_made(
            path,
            chosen,
            create_branch,
            base_branch,
            platform,
            replies,
            r,
            beside,
            target,
        );
    }
}

/// Where git tells its common directory as an absolute path, the root of the
/// worktree that a request came from does not matter to where the new one stands.
pub proof fn roots_do_not_move_new_worktrees(
    path: Seq<char>,
    name: Seq<char>,
    branch: Seq<char>,
    create_branch: bool,
    base_branch: Option<Seq<char>>,
    platform: Platform,
    replies: Seq<ReplyView>,
    other: ReplyView,
)
    requires
        replies.len() > 2,
        state_laws::wrote(replies[1]) matches Some(root) && text::trimmed(root).len() > 0,
        state_laws::wrote(other) matches Some(root) && text::trimmed(root).len() > 0,
        state_laws::wrote(replies[2]) matches Some(dir) && paths::absolute(
            text::trimmed(dir),
            platform,
        ),
    ensures
        operations::create_worktree_step(
            path,
            name,
            branch,
            create_branch,
            base_branch,
            platform,
            replies,
        ) == operations::create_worktree_step(
            path,
            name,
            branch,
            create_branch,
            base_branch,
            platform,
            replies.update(1, other),
        ),
{
    let changed = replies.update(1, other);
    assert(changed[0] == replies[0] && changed[2] == replies[2]);
    assert forall|k: int| 2 <= k < replies.len() implies #[trigger] changed[k] == replies[k] by {}
    let one = operations::repo_context(path, platform, replies, 1);
    let two = operations::repo_context(path, platform, changed, 1);
    assert(one is Go && two is Go && one->Go_0.1 == two->Go_0.1);
    if let (Ok(folder), Ok(chosen)) = (
        worktree::worktree_name(name),
        parse::nonempty(branch, "Branch name"@),
    ) {
        let main = match one->Go_0.1 {
            Some(main) => main,
            None => path,
        };
        assert(operations::free_target(main, folder, platform, replies, 3)
            == operations::free_target(main, folder, platform, changed, 3));
        if let Ok(target) = worktree::worktree_target(main, folder, platform) {
            assert(operations::add_worktree_step(
                path,
                target,
                chosen,
                create_branch,
                base_branch,
                platform,
                replies,
            ) == operations::add_worktree_step(
                path,
                target,
                chosen,
                create_branch,
                base_branch,
                platform,
                changed,
            ));
        }
    }
}

/// A worktree is asked for by a name and a branch that are refused before git is
/// asked anything, where they are not valid.
pub proof fn worktree_requests_are_checked_first(
    path: Seq<char>,
    name: Seq<char>,
    branch: Seq<char>,
    create_branch: bool,
    base_branch: Option<Seq<char>>,
    platform: Platform,
    replies: Seq<ReplyView>,
    r: GitStep<CreatedWorktree>,
)
    requires
        r@ == operations::create_worktree_step(
            path,
            name,
            branch,
            create_branch,
            base_branch,
            platform,
            replies,
        ),
        replies.len() > 0,
        replies[0] == ReplyView::Exists(true),
    ensures
        ({
            let folder = text::trimmed(name);
            &&& folder.len() == 0 ==> refused(r, "Worktree name cannot be empty"@)
            &&& folder == seq!['.'] || folder == seq!['.', '.'] ==> refused(
                r,
                "Worktree name must be a real folder name"@,
            )
            &&& folder.contains('/') || folder.contains('\\') ==> refused(
                r,
                "Worktree name cannot contain path separators"@,
            )
            &&& state_laws::is_name(folder) && !folder.contains('\\') ==> {
                &&& text::trimmed(branch).len() == 0 ==> refused(r, "Branch name cannot be empty"@)
                &&& text::trimmed(branch).len() > 0 ==> {
                    &&& replies.len() == 1 ==> (r matches GitStep::Do(GitAction::Git { dir, args })
                        && dir@ == path && args.deep_view() == seq![
                        "rev-parse"@,
                        "--show-toplevel"@,
                    ])
                    &&& replies.len() == 2 && (state_laws::wrote(replies[1]) matches Some(root)
                        && text::trimmed(root).len() > 0) ==> (r matches GitStep::Do(
                        GitAction::Git { dir, args },
                    ) && dir@ == path && args.deep_view() == seq![
                        "rev-parse"@,
                        "--git-common-dir"@,
                    ])
                }
            }
        }),
{
    worktree_names_are_folder_names(name);
    reveal_strlit("Branch name");
    reveal_strlit(" cannot be empty");
    reveal_strlit("Branch name cannot be empty");
    assert("Branch name"@ + " cannot be empty"@ =~= "Branch name cannot be empty"@);
    let folder = text::trimmed(name);
    if folder == seq!['.'] {
        assert(folder.len() == 1 && folder[0] == '.');
    }
    if folder == seq!['.', '.'] {
        assert(folder.len() == 2 && folder[0] == '.' && folder[1] == '.');
    }
}

} // verus!
