use goose_hostops::git::changes::{
    expand_rename_path, has_ordered_braces, is_readable_numstat, is_readable_status, parse_numstat,
    parse_status, parse_status_codes, parse_status_line, unquote_porcelain,
};
use goose_hostops::git::counter::LineCounter;
use goose_hostops::git::exchange::{GitAction, GitReply, GitStep};
use goose_hostops::git::listing::{count_file_lines, get_changed_files, MAX_LINE_COUNT_SIZE};
use goose_hostops::git::operations::{
    create_branch, create_worktree, fetch, get_git_state, init, pull, stash, switch_branch,
};
use goose_hostops::git::parse::{
    branch_name, count_lines, normalize_path_string, parse_worktrees, require_nonempty,
    trim_to_option,
};
use goose_hostops::git::types::{
    ChangedFile, CreatedWorktree, GitError, GitState, WorktreeInfo,
};
use goose_hostops::git::worktree::{
    resolve_main_worktree_path, validate_worktree_name, worktree_path,
};
use goose_hostops::platform::Platform;

fn ran(stdout: &str) -> GitReply {
    GitReply::Ran { success: true, stdout: stdout.as_bytes().to_vec(), stderr: vec![] }
}

fn broke(stdout: &str, stderr: &str) -> GitReply {
    GitReply::Ran {
        success: false,
        stdout: stdout.as_bytes().to_vec(),
        stderr: stderr.as_bytes().to_vec(),
    }
}

fn git(dir: &str, args: &[&str]) -> GitAction {
    GitAction::Git {
        dir: dir.to_string(),
        args: args.iter().map(|s| s.to_string()).collect(),
    }
}

fn message_of<T>(step: GitStep<T>) -> String {
    match step {
        GitStep::Done(Err(e)) => e.message,
        _ => panic!("no error"),
    }
}

fn value_of<T>(step: GitStep<T>) -> T {
    match step {
        GitStep::Done(Ok(value)) => value,
        _ => panic!("no value"),
    }
}

/// Counts the lines of files whose texts `read` gives.
fn counted(dir: &str, names: &[&str], read: impl Fn(&str) -> Option<String>) -> LineCounter {
    let files = names.iter().map(|name| name.to_string()).collect();
    let mut counter = LineCounter::new(dir, files, Platform::Unix);
    while let Some(action) = counter.wanted() {
        counter.tell(match action {
            GitAction::FileSize { path } => {
                GitReply::FileSize(read(&path).map(|text| text.len() as u64))
            }
            GitAction::ReadText { path } => GitReply::Text(read(&path)),
            _ => panic!("unexpected action"),
        });
    }
    counter
}

#[test]
fn simple_operations_run_git_once() {
    let here = vec![GitReply::Exists(true)];
    assert_eq!(switch_branch("/r", "b", &here), GitStep::Do(git("/r", &["switch", "b"])));
    assert_eq!(stash("/r", &here), GitStep::Do(git("/r", &["stash"])));
    assert_eq!(init("/r", &here), GitStep::Do(git("/r", &["init"])));
    assert_eq!(fetch("/r", &here), GitStep::Do(git("/r", &["fetch", "--prune"])));
    assert_eq!(pull("/r", &here), GitStep::Do(git("/r", &["pull", "--ff-only"])));
    let over = vec![GitReply::Exists(true), ran("whatever")];
    assert_eq!(pull("/r", &over), GitStep::Done(Ok(())));
}

#[test]
fn missing_paths_end_every_operation() {
    let gone = || vec![GitReply::Exists(false)];
    let expected = "Path does not exist: /x";
    assert_eq!(stash("/x", &vec![]), GitStep::Do(GitAction::PathExists { path: "/x".into() }));
    assert_eq!(message_of(stash("/x", &gone())), expected);
    assert_eq!(message_of(create_branch("/x", "", "", &gone())), expected);
    assert_eq!(message_of(get_git_state("/x", Platform::Unix, &gone())), expected);
    assert_eq!(message_of(get_changed_files("/x", Platform::Unix, &gone())), expected);
    assert_eq!(message_of(create_worktree("/x", "", "", true, None, Platform::Unix, &gone())), expected);
}

#[test]
fn failed_runs_tell_what_git_wrote() {
    let here = || GitReply::Exists(true);
    assert_eq!(
        message_of(switch_branch("/r", "b", &vec![here(), broke("out\n", " err \n")])),
        "git switch b failed: err"
    );
    assert_eq!(
        message_of(switch_branch("/r", "b", &vec![here(), broke(" out\n", " \n")])),
        "git switch b failed: out"
    );
    assert_eq!(
        pull("/r", &vec![here(), GitReply::NotRun("no such file".into())]),
        GitStep::Done(Err(GitError {
            message: "Failed to run git".into(),
            cause: Some("no such file".into()),
        }))
    );
}

#[test]
fn replies_that_do_not_fit_leave_the_action_open() {
    assert_eq!(
        stash("/r", &vec![GitReply::Exists(true), GitReply::DirsCreated]),
        GitStep::Do(git("/r", &["stash"]))
    );
}

#[test]
fn branches_need_names() {
    let here = vec![GitReply::Exists(true)];
    assert_eq!(
        create_branch("/r", " new ", " main\n", &here),
        GitStep::Do(git("/r", &["switch", "-c", "new", "main"]))
    );
    assert_eq!(message_of(create_branch("/r", "  ", "main", &here)), "Branch name cannot be empty");
    assert_eq!(message_of(create_branch("/r", "b", "\t", &here)), "Base branch cannot be empty");
}

#[test]
fn no_repository_is_the_default_state() {
    let replies = vec![GitReply::Exists(true), broke("", "fatal")];
    assert_eq!(value_of(get_git_state("/r", Platform::Unix, &replies)), GitState::default());
    assert!(!GitState::default().is_git_repo);
    assert_eq!(GitState::default().dirty_file_count, 0);
    assert_eq!(value_of(get_changed_files("/r", Platform::Unix, &replies)), vec![]);
    let bare = vec![GitReply::Exists(true), ran("false\n")];
    assert_eq!(value_of(get_git_state("/r", Platform::Unix, &bare)), GitState::default());
}

fn state_replies() -> Vec<GitReply> {
    vec![
        GitReply::Exists(true),
        ran("true\n"),
        ran("/home/u/repo-worktrees/x\n"),
        ran("feature\n"),
        ran(" M a\n?? b\n\n"),
        ran("/home/u/repo/.git\n"),
        ran("worktree /home/u/repo\nHEAD 1\nbranch refs/heads/main\n\nworktree /home/u/repo-worktrees/x/\nHEAD 2\nbranch refs/heads/feature\n\nworktree C:\\w\nHEAD 3\ndetached\n"),
        ran("origin/feature\n"),
        ran("3\n"),
        ran("feature\n main \n\n"),
    ]
}

#[test]
fn repository_state_is_gathered() {
    let mut replies: Vec<GitReply> = Vec::new();
    let mut asked: Vec<GitAction> = Vec::new();
    for reply in state_replies() {
        match get_git_state("/r", Platform::Unix, &replies) {
            GitStep::Do(action) => asked.push(action),
            other => panic!("{:?}", other),
        }
        replies.push(reply);
    }
    assert_eq!(
        asked,
        vec![
            GitAction::PathExists { path: "/r".into() },
            git("/r", &["rev-parse", "--is-inside-work-tree"]),
            git("/r", &["rev-parse", "--show-toplevel"]),
            git("/r", &["branch", "--show-current"]),
            git("/r", &["status", "--porcelain"]),
            git("/r", &["rev-parse", "--git-common-dir"]),
            git("/r", &["worktree", "list", "--porcelain"]),
            git("/r", &["rev-parse", "--abbrev-ref", "--symbolic-full-name", "@{upstream}"]),
            git("/r", &["rev-list", "--count", "HEAD..@{upstream}"]),
            git(
                "/r",
                &[
                    "for-each-ref",
                    "--sort=-committerdate",
                    "--format=%(refname:short)",
                    "refs/heads"
                ]
            ),
        ]
    );
    let tree = |path: &str, branch: Option<&str>, is_main: bool| WorktreeInfo {
        path: path.to_string(),
        branch: branch.map(str::to_string),
        is_main,
    };
    assert_eq!(
        value_of(get_git_state("/r", Platform::Unix, &replies)),
        GitState {
            is_git_repo: true,
            current_branch: Some("feature".into()),
            dirty_file_count: 2,
            incoming_commit_count: 3,
            worktrees: vec![
                tree("/home/u/repo", Some("main"), true),
                tree("/home/u/repo-worktrees/x", Some("feature"), false),
                tree("C:/w", None, false),
            ],
            is_worktree: true,
            main_worktree_path: Some("/home/u/repo".into()),
            local_branches: vec!["feature".into(), "main".into()],
        }
    );
}

#[test]
fn repository_state_forgives_the_last_questions() {
    let mut replies = state_replies();
    replies.truncate(7);
    replies.push(broke("", "no upstream"));
    replies.push(broke("", "eek"));
    let state = value_of(get_git_state("/r", Platform::Unix, &replies));
    assert_eq!(state.incoming_commit_count, 0);
    assert!(state.local_branches.is_empty());
    let mut odd = state_replies();
    odd[8] = ran("many\n");
    assert_eq!(value_of(get_git_state("/r", Platform::Unix, &odd)).incoming_commit_count, 0);
    let mut detached = state_replies();
    detached[3] = ran("\n");
    detached[5] = ran("/home/u/bare\n");
    let state = value_of(get_git_state("/r", Platform::Unix, &detached));
    assert_eq!(state.current_branch, None);
    assert_eq!(state.main_worktree_path, None);
    assert!(!state.is_worktree);
    let mut rootless = state_replies();
    rootless[2] = ran(" \n");
    assert_eq!(
        message_of(get_git_state("/r", Platform::Unix, &rootless)),
        "Could not determine repository root"
    );
}

#[test]
fn worktrees_are_created_beside_the_repository() {
    let go = |replies: &Vec<GitReply>| {
        create_worktree("/r", " wt ", " feat ", true, Some(" main "), Platform::Unix, replies)
    };
    let mut replies = vec![GitReply::Exists(true), ran("/home/u/repo\n"), ran(".git\n")];
    let target = "/home/u/repo-worktrees/wt";
    assert_eq!(go(&replies), GitStep::Do(GitAction::PathExists { path: target.into() }));
    replies.push(GitReply::Exists(false));
    assert_eq!(
        go(&replies),
        GitStep::Do(GitAction::CreateDirs { path: "/home/u/repo-worktrees".into() })
    );
    replies.push(GitReply::DirsCreated);
    assert_eq!(
        go(&replies),
        GitStep::Do(git("/r", &["worktree", "add", "-b", "feat", target, "main"]))
    );
    replies.push(ran(""));
    assert_eq!(
        value_of(go(&replies)),
        CreatedWorktree { path: target.into(), branch: "feat".into() }
    );
    replies.truncate(5);
    assert_eq!(
        create_worktree("/r", "wt", "feat", false, None, Platform::Unix, &replies),
        GitStep::Do(git("/r", &["worktree", "add", target, "feat"]))
    );
    assert_eq!(
        message_of(create_worktree("/r", "wt", "feat", true, None, Platform::Unix, &replies)),
        "Base branch cannot be empty"
    );
}

#[test]
fn worktree_failures_are_told() {
    let here = || GitReply::Exists(true);
    let go = |name: &str, branch: &str, replies: Vec<GitReply>| {
        create_worktree("/r", name, branch, false, None, Platform::Unix, &replies)
    };
    assert_eq!(message_of(go(" ", "b", vec![here()])), "Worktree name cannot be empty");
    assert_eq!(message_of(go("..", "b", vec![here()])), "Worktree name must be a real folder name");
    assert_eq!(
        message_of(go("a/b", "b", vec![here()])),
        "Worktree name cannot contain path separators"
    );
    assert_eq!(message_of(go("w", " ", vec![here()])), "Branch name cannot be empty");
    let root = || ran("/home/u/repo\n");
    assert_eq!(
        message_of(go("w", "b", vec![here(), root(), ran(".git"), GitReply::Exists(true)])),
        "Worktree path already exists: /home/u/repo-worktrees/w"
    );
    assert_eq!(
        go(
            "w",
            "b",
            vec![
                here(),
                root(),
                ran(".git"),
                GitReply::Exists(false),
                GitReply::DirsFailed("full".into()),
            ]
        ),
        GitStep::Done(Err(GitError {
            message: "Failed to create worktree directory".into(),
            cause: Some("full".into()),
        }))
    );
    assert_eq!(
        message_of(create_worktree("/", "w", "b", false, None, Platform::Unix, &vec![here(), root(), ran("")])),
        "Could not determine repository name"
    );
}

#[test]
fn worktree_names_are_folder_names() {
    assert_eq!(validate_worktree_name(" name ").unwrap(), "name");
    assert_eq!(validate_worktree_name("...").unwrap(), "...");
    assert!(validate_worktree_name(".").is_err());
    assert!(validate_worktree_name("a\\b").is_err());
}

#[test]
fn main_worktrees_hold_the_git_directory() {
    let go = |dir: &str, root: &str| resolve_main_worktree_path(dir, root, Platform::Unix);
    assert_eq!(go("/a/b/.git", "/x"), Some("/a/b".into()));
    assert_eq!(go(".git", "/x/y"), Some("/x/y".into()));
    assert_eq!(go("../.git", "/x/y"), Some("/x/y/..".into()));
    assert_eq!(go("/a/b.git", "/x"), None);
    assert_eq!(go("/.git", "/x"), Some("/".into()));
}

#[test]
fn windows_worktrees_are_found_and_derived() {
    let w = Platform::Windows;
    assert_eq!(resolve_main_worktree_path("C:/repo/.git", "C:/x", w), Some("C:/repo".into()));
    assert_eq!(resolve_main_worktree_path(".git", "C:/x", w), Some("C:/x".into()));
    assert_eq!(
        worktree_path("C:\\src\\repo", "wt", w).unwrap(),
        "C:\\src\\repo-worktrees\\wt"
    );
    assert_eq!(
        worktree_path("\\\\?\\C:\\\\src\\repo\\", "wt", w).unwrap(),
        "\\\\?\\C:\\src\\repo-worktrees\\wt"
    );
    assert_eq!(worktree_path("C:\\", "wt", w).unwrap_err().message, "Could not determine repository name");
}

#[test]
fn worktree_paths_are_derived() {
    assert_eq!(worktree_path("/a/repo", "w", Platform::Unix).unwrap(), "/a/repo-worktrees/w");
    assert_eq!(worktree_path("repo", "w", Platform::Unix).unwrap(), "repo-worktrees/w");
    assert_eq!(worktree_path("/a/repo/", "w", Platform::Unix).unwrap(), "/a/repo-worktrees/w");
    assert_eq!(worktree_path("..", "w", Platform::Unix).unwrap_err().message, "Could not determine repository name");
}

#[test]
fn changed_files_are_counted_and_sorted() {
    let status = " M b.txt\n?? new file.txt\nR  old.txt -> a.txt\n D gone\nA  \"q uoted\"\nx\n";
    let diff = "1\t2\tb.txt\n0\t4\tgone\n-\t-\t{old => a}.txt\n";
    let mut replies = vec![GitReply::Exists(true), ran("true"), ran(status)];
    assert_eq!(
        get_changed_files("/r", Platform::Unix, &replies),
        GitStep::Do(git("/r", &["diff", "HEAD", "--numstat"]))
    );
    replies.push(ran(diff));
    assert_eq!(
        get_changed_files("/r", Platform::Unix, &replies),
        GitStep::Do(GitAction::CountLines {
            dir: "/r".into(),
            files: vec!["new file.txt".into(), "q uoted".into()],
        })
    );
    let count = |dir: &str, names: &[&str]| counted(dir, names, |_| Some("a\nb\nc\n".into()));
    for other in [
        count("/r", &["new file.txt"]),
        count("/q", &["new file.txt", "q uoted"]),
        count("/r", &["q uoted", "new file.txt"]),
        LineCounter::new("/r", vec!["new file.txt".into(), "q uoted".into()], Platform::Unix),
    ] {
        let mut odd = vec![GitReply::Exists(true), ran("true"), ran(status), ran(diff)];
        odd.push(GitReply::LineCounts(other));
        assert!(matches!(
            get_changed_files("/r", Platform::Unix, &odd),
            GitStep::Do(GitAction::CountLines { .. })
        ));
    }
    replies.push(GitReply::LineCounts(counted("/r", &["new file.txt", "q uoted"], |path| {
        match path {
            "/r/new file.txt" => Some("x\n".repeat(7)),
            "/r/q uoted" => Some("y\n".repeat(9)),
            _ => None,
        }
    })));
    let file = |path: &str, status: &str, additions: u32, deletions: u32| ChangedFile {
        path: path.to_string(),
        status: status.to_string(),
        additions,
        deletions,
    };
    assert_eq!(
        value_of(get_changed_files("/r", Platform::Unix, &replies)),
        vec![
            file("a.txt", "renamed", 0, 0),
            file("b.txt", "modified", 1, 2),
            file("gone", "deleted", 0, 4),
            file("new file.txt", "untracked", 7, 0),
            file("q uoted", "added", 9, 0),
        ]
    );
}

#[test]
fn clean_trees_have_no_changes() {
    let replies = vec![GitReply::Exists(true), ran("true"), ran(" \n")];
    assert_eq!(value_of(get_changed_files("/r", Platform::Unix, &replies)), vec![]);
}

#[test]
fn a_failed_diff_counts_nothing() {
    let replies = vec![
        GitReply::Exists(true),
        ran("true"),
        ran("?? a\n"),
        broke("", "bad revision HEAD"),
        GitReply::LineCounts(counted("/r", &["a"], |_| Some("one".into()))),
    ];
    assert_eq!(value_of(get_changed_files("/r", Platform::Unix, &replies))[0].additions, 1);
}

#[test]
fn unreadable_lines_are_told() {
    let here = || GitReply::Exists(true);
    let odd_diff = vec![here(), ran("true"), ran("?? a\n"), ran("1\t1\t}{\n")];
    assert_eq!(get_changed_files("/r", Platform::Unix, &odd_diff), GitStep::Unreadable);
    let odd_status = vec![here(), ran("true"), ran("MM\u{e9}a\n"), ran("")];
    assert_eq!(get_changed_files("/r", Platform::Unix, &odd_status), GitStep::Unreadable);
    assert!(!is_readable_numstat("1\t1\t}{"));
    assert!(is_readable_numstat("1\t1\t{}\n}{"));
    assert!(!is_readable_status("MM\u{e9}a"));
    assert!(is_readable_status("M  \u{e9}"));
    assert!(!has_ordered_braces("}{"));
}

#[test]
fn each_file_is_counted_by_itself() {
    let names = ["a", "gone", "big", "binary", "b"];
    let files: Vec<String> = names.iter().map(|name| name.to_string()).collect();
    let mut counter = LineCounter::new("/r", files.clone(), Platform::Unix);
    let size = |name: &str| GitAction::FileSize { path: format!("/r/{name}") };
    let text = |name: &str| GitAction::ReadText { path: format!("/r/{name}") };
    let exchange = vec![
        (size("a"), GitReply::FileSize(Some(3))),
        (text("a"), GitReply::Text(Some("1\n2".into()))),
        (size("gone"), GitReply::FileSize(None)),
        (size("big"), GitReply::FileSize(Some(MAX_LINE_COUNT_SIZE + 1))),
        (size("binary"), GitReply::FileSize(Some(1))),
        (text("binary"), GitReply::Text(None)),
        (size("b"), GitReply::FileSize(Some(0))),
        (text("b"), GitReply::Text(Some("1\n2\n3\n".into()))),
    ];
    for (action, reply) in exchange {
        assert_eq!(counter.finished("/r", &files, Platform::Unix), None);
        assert_eq!(counter.wanted(), Some(action));
        counter.tell(GitReply::DirsCreated);
        counter.tell(reply);
    }
    assert_eq!(counter.wanted(), None);
    counter.tell(GitReply::FileSize(Some(1)));
    assert_eq!(
        counter.finished("/r", &files, Platform::Unix),
        Some(&vec![(2, 0), (0, 0), (0, 0), (0, 0), (3, 0)])
    );
    assert_eq!(counter.finished("/r", &files, Platform::Windows), None);
}

#[test]
fn file_lines_are_counted() {
    let full = "/r/f.txt";
    assert_eq!(
        count_file_lines("/r", "f.txt", Platform::Unix, &vec![]),
        GitStep::Do(GitAction::FileSize { path: full.into() })
    );
    let small = || GitReply::FileSize(Some(MAX_LINE_COUNT_SIZE));
    assert_eq!(
        count_file_lines("/r", "f.txt", Platform::Unix, &vec![small()]),
        GitStep::Do(GitAction::ReadText { path: full.into() })
    );
    let text = GitReply::Text(Some("a\nb\n\nc".into()));
    assert_eq!(value_of(count_file_lines("/r", "f.txt", Platform::Unix, &vec![small(), text])), (4, 0));
    assert_eq!(value_of(count_file_lines("/r", "f", Platform::Unix, &vec![small(), GitReply::Text(None)])), (0, 0));
    let large = GitReply::FileSize(Some(MAX_LINE_COUNT_SIZE + 1));
    assert_eq!(value_of(count_file_lines("/r", "f", Platform::Unix, &vec![large])), (0, 0));
    assert_eq!(value_of(count_file_lines("/r", "f", Platform::Unix, &vec![GitReply::FileSize(None)])), (0, 0));
}

#[test]
fn status_codes_have_words() {
    let word = |s: &str| parse_status_codes(s.as_bytes()[0], s.as_bytes()[1]);
    let cases = [
        ("??", "untracked"),
        ("A ", "added"),
        ("AD", "added"),
        ("?M", "added"),
        ("D ", "deleted"),
        (" D", "deleted"),
        ("RD", "deleted"),
        ("R ", "renamed"),
        ("C ", "copied"),
        (" M", "modified"),
        ("UU", "modified"),
        ("M?", "modified"),
    ];
    for (codes, expected) in cases {
        assert_eq!(word(codes), expected, "{codes}");
    }
}

#[test]
fn status_lines_give_paths() {
    let path = |line: &str| parse_status_line(line).map(|row| row.path);
    assert_eq!(path("?? a b"), Some("a b".into()));
    assert_eq!(path("R  a -> b -> c"), Some("c".into()));
    assert_eq!(path("R  \"a -> b\""), Some("b".into()));
    assert_eq!(path("M  \"\""), Some("".into()));
    assert_eq!(path("M  \""), Some("\"".into()));
    assert_eq!(path("M x"), None);
    assert_eq!(parse_status("?? a\n\nM  b\r\n").len(), 2);
}

#[test]
fn quotes_go() {
    assert_eq!(unquote_porcelain("\"a\""), "a");
    assert_eq!(unquote_porcelain("\"\""), "");
    assert_eq!(unquote_porcelain("\""), "\"");
    assert_eq!(unquote_porcelain("a\""), "a\"");
}

#[test]
fn renames_are_expanded() {
    assert_eq!(expand_rename_path("src/{old => new}/f"), "src/new/f");
    assert_eq!(expand_rename_path("a => b"), "b");
    assert_eq!(expand_rename_path("plain"), "plain");
    assert_eq!(expand_rename_path("{ => d}/f"), "d/f");
    assert_eq!(expand_rename_path("x{y"), "x{y");
    assert_eq!(expand_rename_path("x}y => z"), "z");
}

#[test]
fn numstat_is_a_map_of_counts() {
    let map = parse_numstat("1\t2\ta\n3\t4\tb\tc\n-\t-\tbin\n5\t6\ta\nodd\n+7\t4294967296\tn\n");
    assert_eq!(map.len(), 4);
    assert_eq!(map.get("a"), Some(&(5, 6)));
    assert_eq!(map.get("b\tc"), Some(&(3, 4)));
    assert_eq!(map.get("bin"), Some(&(0, 0)));
    assert_eq!(map.get("n"), Some(&(7, 0)));
}

#[test]
fn small_texts_are_read() {
    assert_eq!(trim_to_option(" a ".into()), Some("a".into()));
    assert_eq!(trim_to_option(" \n".into()), None);
    assert_eq!(require_nonempty(" x ", "Thing").unwrap(), "x");
    assert_eq!(require_nonempty("", "Thing").unwrap_err().message, "Thing cannot be empty");
    assert_eq!(count_lines("a\n \n\tb\n"), 2);
    assert_eq!(branch_name("refs/heads/a/b"), "a/b");
    assert_eq!(branch_name("refs/tags/a"), "refs/tags/a");
}

#[test]
fn paths_are_normalized() {
    assert_eq!(normalize_path_string("C:\\a\\b\\"), "C:/a/b");
    assert_eq!(normalize_path_string("/a//"), "/a");
    assert_eq!(normalize_path_string("/"), "");
    let once = normalize_path_string("x\\/y\\");
    assert_eq!(normalize_path_string(&once), once);
}

#[test]
fn worktree_lists_are_parsed() {
    let trees = parse_worktrees("branch refs/heads/lost\nworktree /a\nworktree /b\nbranch x\n", Some("/b"));
    assert_eq!(trees.len(), 2);
    assert_eq!((trees[0].branch.as_deref(), trees[0].is_main), (None, false));
    assert_eq!((trees[1].branch.as_deref(), trees[1].is_main), (Some("x"), true));
    assert!(parse_worktrees("", None).is_empty());
}
