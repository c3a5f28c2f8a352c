//! What the state of a repository is, in terms of what git wrote.

use crate::encoding;
use crate::git::exchange::{ActionView, GitAction, GitStep, Progress, ReplyView, StepView};
use crate::git::laws;
use crate::git::operations;
use crate::git::parse;
use crate::git::types::{GitState, GitStateView};
use crate::git::worktree;
use crate::numbers;
use crate::paths;
use crate::paths::Seps;
use crate::platform::Platform;
use crate::text;
use vstd::prelude::*;

verus! {

/// What a run of git wrote, if it ended well.
pub open spec fn wrote(reply: ReplyView) -> Option<Seq<char>> {
    match reply {
        ReplyView::Ran { success, stdout, .. } if success => Some(encoding::utf8_lossy(stdout)),
        _ => None,
    }
}

/// A text without the white space around it, unless nothing is left.
pub open spec fn ink(s: Seq<char>) -> Option<Seq<char>> {
    if text::trimmed(s).len() == 0 {
        None
    } else {
        Some(text::trimmed(s))
    }
}

/// How many commits are told to wait.
pub open spec fn waiting(replies: Seq<ReplyView>) -> u32 {
    match (wrote(replies[7]), wrote(replies[8])) {
        (Some(_), Some(t)) => match numbers::parsed_u32(text::trimmed(t)) {
            Some(n) => n,
            None => 0,
        },
        _ => 0,
    }
}

/// The branches that are told. Where there is no upstream, no commits are counted
/// before.
pub open spec fn branches(replies: Seq<ReplyView>) -> Seq<Seq<char>> {
    let at: int = if wrote(replies[7]) is Some {
        9
    } else {
        8
    };
    match wrote(replies[at]) {
        Some(t) => text::inked(text::lines(t)),
        None => Seq::empty(),
    }
}

/// The state of a directory is that of a repository exactly where git says that
/// it is inside of a worktree. Then each part of it is what git wrote about that
/// part: the branch, unless none is checked out; one dirty file for each line of
/// the status; the commits that wait, none where that cannot be told; the local
/// branches in their order; and the worktrees. It is a linked worktree exactly
/// where a main one is known that is not its root. Outside of a repository
/// everything is empty.
pub proof fn states_are_what_git_wrote(
    path: Seq<char>,
    platform: Platform,
    replies: Seq<ReplyView>,
    r: GitStep<GitState>,
)
    requires
        r@ == operations::git_state_step(path, platform, replies),
        r matches GitStep::Done(Ok(_)),
    ensures
        ({
            let state = r->Done_0->Ok_0;
            &&& replies.len() > 1 && replies[0] == ReplyView::Exists(true)
            &&& state.is_git_repo == (wrote(replies[1]) matches Some(t) && text::trimmed(t)
                == "true"@)
            &&& !state.is_git_repo ==> {
                &&& state.current_branch is None
                &&& state.dirty_file_count == 0
                &&& state.incoming_commit_count == 0
                &&& state.worktrees@.len() == 0
                &&& !state.is_worktree
                &&& state.main_worktree_path is None
                &&& state.local_branches@.len() == 0
            }
            &&& state.is_git_repo ==> {
                let main = state.main_worktree_path.deep_view();
                &&& replies.len() > 8
                &&& forall|k: int| 2 <= k <= 6 ==> wrote(#[trigger] replies[k]) is Some
                &&& ink(wrote(replies[2])->0) is Some
                &&& state.is_worktree == (main is Some && main->0 != parse::normal_path(
                    text::trimmed(wrote(replies[2])->0),
                ))
                &&& state.current_branch.deep_view() == ink(wrote(replies[3])->0)
                &&& state.dirty_file_count == {
                    let n = text::inked(text::lines(wrote(replies[4])->0)).len();
                    if n <= u32::MAX {
                        n
                    } else {
                        u32::MAX as nat
                    }
                }
                &&& state.worktrees.deep_view() == parse::worktrees(wrote(replies[6])->0, main)
                &&& state.incoming_commit_count == waiting(replies)
                &&& state.local_branches.deep_view() == branches(replies)
            }
        }),
{
    let state = r->Done_0->Ok_0;
    let root = wrote(replies[2])->0;
    if !state.is_git_repo {
        assert(state.worktrees.deep_view().len() == state.worktrees@.len());
        assert(state.local_branches.deep_view().len() == state.local_branches@.len());
    }
}

/// An absolute path on Unix that does not end in a slash or in a piece that
/// counts for nothing.
pub open spec fn is_clean(dir: Seq<char>) -> bool {
    &&& dir.len() >= 2
    &&& dir[0] == '/'
    &&& dir.last() != '/'
    &&& dir.last() != '.' || dir[dir.len() - 2] != '/'
}

/// The name of one folder or file on Unix.
pub open spec fn is_name(name: Seq<char>) -> bool {
    &&& name.len() > 0
    &&& name != seq!['.'] && name != seq!['.', '.']
    &&& !name.contains('/')
}

proof fn lemma_clean_stays(dir: Seq<char>, platform: Platform)
    requires
        !(platform is Windows),
        is_clean(dir),
    ensures
        paths::tidy(dir, platform) == dir,
        paths::body_start(dir, platform) == 1,
{
    let front = dir.drop_last();
    paths::lemma_piece_start(front, 1, Seps::Slash);
    let at = paths::piece_start(dir, 1, Seps::Slash);
    assert(at == paths::piece_start(front, 1, Seps::Slash));
    let last = dir.skip(at);
    assert(last.len() > 0);
    if last == seq!['.'] {
        assert(last.len() == 1);
        assert(last[0] == dir.last());
        assert(at == front.len());
        if front.len() > 1 {
            paths::lemma_piece_start(front.drop_last(), 1, Seps::Slash);
            assert(front.last() == dir[dir.len() - 2]);
        }
    }
}

/// The last piece of a path on Unix that has one behind a directory.
pub proof fn lemma_unix_path(dir: Seq<char>, name: Seq<char>, platform: Platform)
    requires
        !(platform is Windows),
        is_clean(dir) || dir.len() == 0,
        is_name(name),
    ensures
        ({
            let p = dir.push('/') + name;
            &&& paths::file_name(p, platform) == Some(name)
            &&& paths::parent(p, platform) == Some(
                if dir.len() == 0 {
                    seq!['/']
                } else {
                    dir
                },
            )
            &&& paths::absolute(p, platform)
        }),
{
    let p = dir.push('/') + name;
    assert forall|i: int| 0 <= i < name.len() implies !paths::is_sep(
        #[trigger] name[i],
        Seps::Slash,
    ) by {
        assert(name.contains(name[i]));
    }
    assert(p[0] == '/');
    laws::lemma_last_piece(dir, '/', name, 1, Seps::Slash);
    let n = dir.len() as int;
    assert(paths::piece_start(p, 1, Seps::Slash) == n + 1);
    assert(paths::last_piece(p, platform) =~= name);
    assert(paths::tidy(p, platform) == p);
    if dir.len() == 0 {
        assert(p.take(1) =~= seq!['/']);
        assert(paths::tidy(seq!['/'], platform) == seq!['/']);
    } else {
        assert(p.take(n) =~= dir);
        lemma_clean_stays(dir, platform);
    }
}

/// A path without backslashes and without a slash at its end is normal.
pub proof fn lemma_normal(path: Seq<char>)
    requires
        !path.contains('\\'),
        path.len() == 0 || path.last() != '/',
    ensures
        parse::normal_path(path) == path,
{
    assert forall|i: int| 0 <= i < path.len() implies parse::slashed(path)[i] == path[i] by {
        assert(path.contains(path[i]));
    }
    assert(parse::slashed(path) =~= path);
}

/// A normal path differs from the path only in that slashes stand for
/// backslashes, and in the slashes and backslashes that it lacks at the end.
pub proof fn normal_paths_keep_the_rest(path: Seq<char>)
    ensures
        ({
            let normal = parse::normal_path(path);
            &&& normal.len() <= path.len()
            &&& forall|i: int|
                0 <= i < normal.len() ==> #[trigger] normal[i] == (if path[i] == '\\' {
                    '/'
                } else {
                    path[i]
                })
            &&& forall|i: int|
                normal.len() <= i < path.len() ==> #[trigger] path[i] == '/' || path[i] == '\\'
        }),
{
    let slashed = parse::slashed(path);
    lemma_tail(slashed, '/');
    laws::lemma_without_tail(slashed, '/');
    let normal = parse::normal_path(path);
    assert forall|i: int| normal.len() <= i < path.len() implies #[trigger] path[i] == '/'
        || path[i] == '\\' by {
        assert(slashed[i] == '/');
    }
}

proof fn lemma_tail(s: Seq<char>, c: char)
    ensures
        forall|i: int| text::without_tail(s, c).len() <= i < s.len() ==> #[trigger] s[i] == c,
    decreases s.len(),
{
    if s.len() > 0 && s.last() == c {
        let front = s.drop_last();
        lemma_tail(front, c);
        assert forall|i: int| text::without_tail(s, c).len() <= i < s.len() implies #[trigger] s[i]
            == c by {
            if i < front.len() {
                assert(front[i] == s[i]);
            }
        }
    }
}

proof fn lemma_dot_git()
    ensures
        ".git"@ =~= seq!['.', 'g', 'i', 't'],
        is_name(".git"@),
{
    reveal_strlit(".git");
    assert(".git"@.len() == 4);
    assert forall|i: int| 0 <= i < 4 implies ".git"@[i] != '/' by {}
}

/// The main worktree on Unix is the directory in which the common directory
/// stands, where that is called `.git`: a common directory that is not absolute
/// stands in the root. A common directory of another name has none.
pub proof fn lemma_main_worktree(
    dir: Seq<char>,
    root: Seq<char>,
    name: Seq<char>,
    platform: Platform,
)
    requires
        !(platform is Windows),
    ensures
        is_clean(dir) ==> worktree::main_worktree(dir + "/.git"@, root, platform) == Some(dir),
        is_clean(root) ==> worktree::main_worktree(".git"@, root, platform) == Some(root),
        is_clean(dir) && is_name(name) && name != ".git"@ ==> worktree::main_worktree(
            dir + "/"@ + name,
            root,
            platform,
        ) is None,
        is_clean(root) && is_name(name) && name != ".git"@ ==> worktree::main_worktree(
            name,
            root,
            platform,
        ) is None,
{
    reveal_strlit("/.git");
    reveal_strlit(".git");
    reveal_strlit("/");
    lemma_dot_git();
    if is_clean(dir) {
        assert(dir + "/.git"@ =~= dir.push('/') + ".git"@);
        lemma_unix_path(dir, ".git"@, platform);
        if is_name(name) {
            assert(dir + "/"@ + name =~= dir.push('/') + name);
            lemma_unix_path(dir, name, platform);
        }
    }
    if is_clean(root) {
        assert(".git"@[0] == '.');
        lemma_unix_path(root, ".git"@, platform);
        assert(paths::joined_path(root, ".git"@, platform) == root.push('/') + ".git"@);
        if is_name(name) {
            assert(name.contains(name[0]));
            lemma_unix_path(root, name, platform);
            assert(paths::joined_path(root, name, platform) == root.push('/') + name);
        }
    }
}

/// In a main checkout on Unix, where git writes `.git` as its common directory,
/// the main worktree is the root, and the checkout is not a linked one. In a
/// worktree whose common directory is the `.git` of some directory, that
/// directory is the main worktree, and the worktree is a linked one exactly where
/// its root is another. Where the common directory has another name, as that of a
/// bare repository, no main worktree is known, and there is nothing to be linked
/// to.
pub proof fn linked_worktrees_have_another_root(
    path: Seq<char>,
    platform: Platform,
    replies: Seq<ReplyView>,
    r: GitStep<GitState>,
    root: Seq<char>,
    common: Seq<char>,
    dir: Seq<char>,
    name: Seq<char>,
)
    requires
        !(platform is Windows),
        r@ == operations::git_state_step(path, platform, replies),
        r matches GitStep::Done(Ok(state)) && state.is_git_repo,
        wrote(replies[2]) matches Some(t) && text::trimmed(t) == root,
        wrote(replies[5]) matches Some(t) && text::trimmed(t) == common,
        is_clean(root) && !root.contains('\\'),
        is_clean(dir) && !dir.contains('\\'),
        is_name(name) && name != ".git"@,
    ensures
        ({
            let state = r->Done_0->Ok_0;
            let main = state.main_worktree_path.deep_view();
            &&& common == ".git"@ ==> main == Some(root) && !state.is_worktree
            &&& common == dir + "/.git"@ ==> main == Some(dir) && state.is_worktree == (root != dir)
            &&& common == dir + "/"@ + name ==> main is None && !state.is_worktree
            &&& common == name ==> main is None && !state.is_worktree
            &&& common.len() == 0 ==> main is None && !state.is_worktree
        }),
{
    states_are_what_git_wrote(path, platform, replies, r);
    lemma_main_worktree(dir, root, name, platform);
    lemma_normal(root);
    lemma_normal(dir);
    reveal_strlit("/.git");
    reveal_strlit(".git");
    reveal_strlit("/");
}

proof fn lemma_attributes(base: Seq<Seq<char>>, attributes: Seq<Seq<char>>)
    requires
        parse::worktree_records(base).len() > 0,
        forall|k: int|
            0 <= k < attributes.len() ==> !text::begins(#[trigger] attributes[k], "worktree "@),
    ensures
        ({
            let before = parse::worktree_records(base);
            let all = parse::worktree_records(base + attributes);
            &&& all.len() == before.len()
            &&& all.drop_last() == before.drop_last()
            &&& all.last().0 == before.last().0
            &&& all.last().1 == match last_branch(attributes) {
                Some(branch) => Some(branch),
                None => before.last().1,
            }
        }),
    decreases attributes.len(),
{
    if attributes.len() == 0 {
        assert(base + attributes =~= base);
    } else {
        let front = attributes.drop_last();
        assert forall|k: int| 0 <= k < front.len() implies !text::begins(
            #[trigger] front[k],
            "worktree "@,
        ) by {
            assert(front[k] == attributes[k]);
        }
        lemma_attributes(base, front);
        assert((base + attributes).drop_last() =~= base + front);
        assert((base + attributes).last() == attributes[attributes.len() - 1]);
        let less = parse::worktree_records(base + front);
        let all = parse::worktree_records(base + attributes);
        assert(all.drop_last() =~= less.drop_last());
    }
}

/// The name of the last branch that lines give.
spec fn last_branch(attributes: Seq<Seq<char>>) -> Option<Seq<char>>
    decreases attributes.len(),
{
    if attributes.len() == 0 {
        None
    } else {
        match text::stripped(attributes.last(), "branch "@) {
            Some(branch) => Some(parse::short_branch(branch)),
            None => last_branch(attributes.drop_last()),
        }
    }
}

proof fn lemma_last_branch(attributes: Seq<Seq<char>>, j: int)
    requires
        -1 <= j < attributes.len(),
        forall|k: int|
            j < k < attributes.len() ==> !text::begins(#[trigger] attributes[k], "branch "@),
        j >= 0 ==> text::begins(attributes[j], "branch "@),
    ensures
        last_branch(attributes) == if j < 0 {
            None
        } else {
            Some(parse::short_branch(attributes[j].skip("branch "@.len() as int)))
        },
    decreases attributes.len(),
{
    if j < attributes.len() - 1 {
        let front = attributes.drop_last();
        assert(!text::begins(attributes[attributes.len() - 1], "branch "@));
        assert forall|k: int| j < k < front.len() implies !text::begins(
            #[trigger] front[k],
            "branch "@,
        ) by {
            assert(front[k] == attributes[k]);
        }
        if j >= 0 {
            assert(front[j] == attributes[j]);
        }
        lemma_last_branch(front, j);
    }
}

/// The path of a listed worktree is that of its line, and the main one is the one
/// whose path is that of the main worktree; its branch is the last one that is
/// given before the next worktree, without the directory of branches, and none
/// where none is given. A list of worktrees that goes on keeps what it lists.
/// `j` is the place of the last line that gives a branch, or -1.
pub proof fn listed_worktrees_bear_their_lines(
    front: Seq<char>,
    output: Seq<char>,
    path: Seq<char>,
    attributes: Seq<Seq<char>>,
    j: int,
    branch: Seq<char>,
    main: Option<Seq<char>>,
)
    requires
        text::lines(output) == text::lines(front) + seq!["worktree "@ + path] + attributes,
        forall|k: int|
            0 <= k < attributes.len() ==> !text::begins(#[trigger] attributes[k], "worktree "@),
        -1 <= j < attributes.len(),
        forall|k: int|
            j < k < attributes.len() ==> !text::begins(#[trigger] attributes[k], "branch "@),
        j >= 0 ==> attributes[j] == "branch refs/heads/"@ + branch || attributes[j] == "branch "@
            + branch && !text::begins(branch, "refs/heads/"@),
    ensures
        ({
            let before = parse::worktrees(front, main);
            let all = parse::worktrees(output, main);
            &&& all.len() == before.len() + 1
            &&& all.drop_last() == before
            &&& all.last().path == parse::normal_path(path)
            &&& all.last().is_main == (main == Some(parse::normal_path(path)))
            &&& all.last().branch == (if j < 0 {
                None
            } else {
                Some(branch)
            })
        }),
{
    reveal_strlit("branch ");
    reveal_strlit("refs/heads/");
    reveal_strlit("branch refs/heads/");
    reveal_strlit("worktree ");
    let head = text::lines(front);
    let line = "worktree "@ + path;
    let base = head + seq![line];
    assert(line.subrange(0, 9) =~= "worktree "@);
    assert(line.skip(9) =~= path);
    assert(base.drop_last() =~= head);
    let records = parse::worktree_records(base);
    assert(records == parse::worktree_records(head).push((path, None)));
    assert(records.drop_last() =~= parse::worktree_records(head));
    lemma_attributes(base, attributes);
    if j >= 0 {
        let given = attributes[j];
        let heads = "refs/heads/"@;
        if given == "branch refs/heads/"@ + branch {
            assert("branch refs/heads/"@ =~= "branch "@ + heads);
            assert(given =~= "branch "@ + (heads + branch));
            assert((heads + branch).subrange(0, 11) =~= heads);
            assert((heads + branch).skip(11) =~= branch);
            assert(given.skip(7) =~= heads + branch);
        } else {
            assert(given.skip(7) =~= branch);
        }
        assert(given.subrange(0, 7) =~= "branch "@);
    }
    lemma_last_branch(attributes, j);
    let more = parse::worktree_records(text::lines(output));
    assert(base + attributes =~= text::lines(output));
    let all = parse::worktrees(output, main);
    assert(all.drop_last() =~= parse::worktrees(front, main)) by {
        assert forall|k: int| 0 <= k < records.len() - 1 implies #[trigger] more[k]
            == parse::worktree_records(head)[k] by {
            assert(more.drop_last()[k] == more[k]);
        }
    }
}

/// Lines before the first one that names a worktree name none.
pub proof fn nothing_is_listed_before_the_first_worktree(
    output: Seq<char>,
    main: Option<Seq<char>>,
)
    requires
        forall|k: int|
            0 <= k < text::lines(output).len() ==> !text::begins(
                #[trigger] text::lines(output)[k],
                "worktree "@,
            ),
    ensures
        parse::worktrees(output, main).len() == 0,
{
    lemma_no_records(text::lines(output));
}

proof fn lemma_no_records(ls: Seq<Seq<char>>)
    requires
        forall|k: int| 0 <= k < ls.len() ==> !text::begins(#[trigger] ls[k], "worktree "@),
    ensures
        parse::worktree_records(ls).len() == 0,
    decreases ls.len(),
{
    if ls.len() > 0 {
        let front = ls.drop_last();
        assert forall|k: int| 0 <= k < front.len() implies !text::begins(
            #[trigger] front[k],
            "worktree "@,
        ) by {
            assert(front[k] == ls[k]);
        }
        lemma_no_records(front);
        assert(!text::begins(ls[ls.len() - 1], "worktree "@));
    }
}

/// The question that git is asked when it has answered `n` questions about a
/// repository, counted from the one whether the path exists.
pub open spec fn question(n: int) -> Seq<Seq<char>> {
    if n == 1 {
        seq!["rev-parse"@, "--is-inside-work-tree"@]
    } else if n == 2 {
        seq!["rev-parse"@, "--show-toplevel"@]
    } else if n == 3 {
        seq!["branch"@, "--show-current"@]
    } else if n == 4 {
        seq!["status"@, "--porcelain"@]
    } else if n == 5 {
        seq!["rev-parse"@, "--git-common-dir"@]
    } else if n == 6 {
        seq!["worktree"@, "list"@, "--porcelain"@]
    } else if n == 7 {
        seq!["rev-parse"@, "--abbrev-ref"@, "--symbolic-full-name"@, "@{upstream}"@]
    } else if n == 8 {
        seq!["rev-list"@, "--count"@, "HEAD..@{upstream}"@]
    } else {
        seq![
            "for-each-ref"@,
            "--sort=-committerdate"@,
            "--format=%(refname:short)"@,
            "refs/heads"@,
        ]
    }
}

/// The state of a repository is asked for in the directory itself, in a fixed
/// order, and by nothing but questions: git is never told to change anything.
/// Where there is no upstream, the question for waiting commits is left out.
pub proof fn states_are_only_asked_for(
    path: Seq<char>,
    platform: Platform,
    replies: Seq<ReplyView>,
)
    requires
        operations::git_state_step(path, platform, replies) is Do,
        forall|k: int| 1 <= k < replies.len() ==> (#[trigger] replies[k]) is Ran,
        replies.len() > 0 ==> replies[0] is Exists,
    ensures
        ({
            let n = replies.len() as int;
            let step = operations::git_state_step(path, platform, replies);
            &&& n == 0 ==> step == StepView::<GitStateView>::Do(ActionView::PathExists { path })
            &&& n > 0 ==> {
                ||| step == StepView::<GitStateView>::Do(
                    ActionView::Git { dir: path, args: question(n) },
                )
                ||| n == 8 && wrote(replies[7]) is None && step == StepView::<GitStateView>::Do(
                    ActionView::Git { dir: path, args: question(9) },
                )
            }
            &&& n <= 9
        }),
{
    if replies.len() > 1 {
        assert(replies[1] is Ran);
    }
    if replies.len() > 2 {
        assert(replies[2] is Ran);
    }
    if replies.len() > 3 {
        assert(replies[3] is Ran);
    }
    if replies.len() > 4 {
        assert(replies[4] is Ran);
    }
    if replies.len() > 5 {
        assert(replies[5] is Ran);
    }
    if replies.len() > 6 {
        assert(replies[6] is Ran);
    }
    if replies.len() > 7 {
        assert(replies[7] is Ran);
    }
    if replies.len() > 8 {
        assert(replies[8] is Ran);
    }
    if replies.len() > 9 {
        assert(replies[9] is Ran);
    }
}

/// The message about a run of git that did not end well: what was run, and what
/// git wrote as errors, or else what it wrote.
pub open spec fn complaint(args: Seq<Seq<char>>, stdout: Seq<u8>, stderr: Seq<u8>) -> Seq<char> {
    let errors = text::trimmed(encoding::utf8_lossy(stderr));
    let output = text::trimmed(encoding::utf8_lossy(stdout));
    "git "@ + text::joined(args, " "@) + " failed: "@ + if errors.len() > 0 {
        errors
    } else {
        output
    }
}

/// Where one of the questions about a repository fails without which nothing can
/// be told, the failure is told, with the question and what git wrote; where git
/// cannot be run, with the reason.
pub proof fn failed_questions_are_told(
    path: Seq<char>,
    platform: Platform,
    replies: Seq<ReplyView>,
    r: GitStep<GitState>,
)
    requires
        r@ == operations::git_state_step(path, platform, replies),
        3 <= replies.len() <= 7,
        replies[0] == ReplyView::Exists(true),
        wrote(replies[1]) matches Some(t) && text::trimmed(t) == "true"@,
        replies.len() > 3 ==> wrote(replies[2]) is Some && ink(wrote(replies[2])->0) is Some,
        forall|k: int| 3 <= k < replies.len() - 1 ==> wrote(#[trigger] replies[k]) is Some,
    ensures
        ({
            let n = replies.len() - 1;
            &&& replies[n] matches ReplyView::Ran { success, stdout, stderr } ==> (!success ==> (
            r matches GitStep::Done(Err(e)) && e.message@ == complaint(question(n), stdout, stderr)
                && e.cause is None))
            &&& replies[n] matches ReplyView::NotRun(cause) ==> (r matches GitStep::Done(Err(e))
                && e.message@ == "Failed to run git"@ && e.cause.deep_view() == Some(cause))
            &&& n == 2 && wrote(replies[2]) is Some && ink(wrote(replies[2])->0) is None ==> (
            r matches GitStep::Done(Err(e)) && e.message@ == "Could not determine repository root"@)
        }),
{
    if replies.len() > 4 {
        assert(wrote(replies[3]) is Some);
    }
    if replies.len() > 5 {
        assert(wrote(replies[4]) is Some);
    }
    if replies.len() > 6 {
        assert(wrote(replies[5]) is Some);
    }
}

/// Commits wait only where git names an upstream, and as many as it then counts. Where it
/// names none, none wait; where git cannot be run, fails to count or writes no number, it is
/// not known how many do. The place behind the replies that were read is told.
pub proof fn waiting_commits_are_counted(
    dir: Seq<char>,
    replies: Seq<ReplyView>,
    at: usize,
    r: Progress<(Option<u32>, usize)>,
)
    requires
        at < usize::MAX - 1,
        r@ == operations::incoming(dir, replies, at as int),
    ensures
        ({
            let n = at as int;
            &&& replies.len() <= n ==> (r matches Progress::Ask(GitAction::Git { dir: d, args })
                && d@ == dir && args.deep_view() == question(7))
            &&& replies.len() > n ==> {
                &&& replies[n] is NotRun ==> (r matches Progress::Go((count, next)) && count is None
                    && next == n + 1)
                &&& replies[n] is Ran && wrote(replies[n]) is None ==> (r matches Progress::Go(
                    (count, next),
                ) && count == Some(0u32) && next == n + 1)
                &&& wrote(replies[n]) is Some && replies.len() == n + 1 ==> (
                r matches Progress::Ask(GitAction::Git { dir: d, args }) && d@ == dir && args.deep_view() == question(8))
                &&& wrote(replies[n]) is Some && replies.len() > n + 1 && (replies[n + 1] is Ran
                    || replies[n + 1] is NotRun) ==> (r matches Progress::Go((count, next)) && next
                    == n + 2 && count == match wrote(replies[n + 1]) {
                    Some(t) => numbers::parsed_u32(text::trimmed(t)),
                    None => None,
                })
            }
        }),
{
}

/// The local branches are the lines that git writes about them, without blank ones and in
/// their order; where git fails, that is told.
pub proof fn local_branches_are_listed(
    dir: Seq<char>,
    replies: Seq<ReplyView>,
    at: int,
    r: Progress<Vec<String>>,
)
    requires
        0 <= at,
        r@ == operations::local_branches(dir, replies, at),
    ensures
        replies.len() <= at ==> (r matches Progress::Ask(GitAction::Git { dir: d, args }) && d@
            == dir && args.deep_view() == question(9)),
        replies.len() > at ==> {
            &&& wrote(replies[at]) matches Some(t) ==> (r matches Progress::Go(names)
                && names.deep_view() == text::inked(text::lines(t)))
            &&& replies[at] matches ReplyView::Ran { success, stdout, stderr } ==> (!success ==> (
            r matches Progress::Fail(e) && e.message@ == complaint(question(9), stdout, stderr)))
            &&& replies[at] matches ReplyView::NotRun(cause) ==> (r matches Progress::Fail(e)
                && e.message@ == "Failed to run git"@ && e.cause.deep_view() == Some(cause))
        },
{
}

} // verus!
