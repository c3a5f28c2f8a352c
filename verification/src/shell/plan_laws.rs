//! Which processes are started and stopped for a command, and what becomes of its
//! texts, in terms of what is given.

use crate::numbers;
use crate::platform::Platform;
use crate::shell::args;
use crate::shell::command;
use crate::shell::command::{CommandPlan, Stream};
use crate::shell::config;
use crate::shell::config::ShellConfig;
use crate::shell::laws;
use crate::shell::process;
use crate::shell::process::{KillStep, Signal};
use crate::shell::texts;
use crate::text;
use crate::text_laws;
use vstd::prelude::*;

verus! {

/// A shell is a program, with arguments before the command, and nothing added to
/// the environment.
pub open spec fn is_shell(r: ShellConfig, program: Seq<char>, args: Seq<Seq<char>>) -> bool {
    r.executable@ == program && r.args.deep_view() == args && r.envs@.len() == 0
}

/// On Unix the shell is the one that the user chose, or else bash, whatever
/// programs of Windows are found. On Windows it is the newer PowerShell where it is
/// found, or else the older one, or else the command interpreter, whatever shell
/// the user chose.
pub proof fn shells_go_by_the_platform(
    platform: Platform,
    shell: Option<Seq<char>>,
    pwsh: Option<Seq<char>>,
    powershell: Option<Seq<char>>,
    r: ShellConfig,
)
    requires
        r@ == config::platform_shell(platform, shell, pwsh, powershell) || (platform is Windows
            && r@ == config::windows_shell(pwsh, powershell)),
    ensures
        !(platform is Windows) ==> {
            &&& shell matches Some(chosen) ==> is_shell(r, chosen, seq!["-c"@])
            &&& shell is None ==> is_shell(r, "bash"@, seq!["-c"@])
        },
        platform is Windows ==> {
            let quiet = seq!["-NoProfile"@, "-NonInteractive"@, "-Command"@];
            &&& pwsh matches Some(newer) ==> is_shell(r, newer, quiet)
            &&& pwsh is None ==> (powershell matches Some(older) ==> is_shell(r, older, quiet))
            &&& pwsh is None && powershell is None ==> is_shell(r, "cmd"@, seq!["/c"@])
        },
{
    assert(r.envs.deep_view().len() == r.envs@.len());
}

/// A variable has a value for a command unless the shell brings one of its own.
pub open spec fn is_set(
    r: CommandPlan,
    given: ShellConfig,
    key: Seq<char>,
    value: Seq<char>,
) -> bool {
    laws::value_of(r.envs.deep_view(), key) == match laws::value_of(given.envs.deep_view(), key) {
        Some(own) => Some(own),
        None => Some(value),
    }
}

proof fn lemma_names_differ()
    ensures
        "GOOSE_TERMINAL"@.len() == 14,
        "AGENT"@.len() == 5,
        "GIT_EDITOR"@.len() == 10,
        "GIT_SEQUENCE_EDITOR"@.len() == 19,
        "VISUAL"@.len() == 6,
        "EDITOR"@.len() == 6,
        "GIT_TERMINAL_PROMPT"@.len() == 19,
        "GIT_PAGER"@.len() == 9,
        "VISUAL"@ != "EDITOR"@,
        "GIT_SEQUENCE_EDITOR"@ != "GIT_TERMINAL_PROMPT"@,
{
    reveal_strlit("GOOSE_TERMINAL");
    reveal_strlit("AGENT");
    reveal_strlit("GIT_EDITOR");
    reveal_strlit("GIT_SEQUENCE_EDITOR");
    reveal_strlit("VISUAL");
    reveal_strlit("EDITOR");
    reveal_strlit("GIT_TERMINAL_PROMPT");
    reveal_strlit("GIT_PAGER");
    assert("VISUAL"@[0] == 'V' && "EDITOR"@[0] == 'E');
    assert("GIT_SEQUENCE_EDITOR"@[4] == 'S' && "GIT_TERMINAL_PROMPT"@[4] == 'T');
}

/// A command is run by the program of the shell, behind the arguments of the shell
/// and in the directory that is given. It reads nothing, what it writes is read,
/// and it does not outlive the one who started it. On Unix it leads a process group
/// of its own; on Windows it is handed over without quoting.
pub proof fn commands_are_started_as_given(
    given: ShellConfig,
    command: Seq<char>,
    working_dir: Option<Seq<char>>,
    platform: Platform,
    r: CommandPlan,
)
    requires
        r@ == command::shell_plan(given@, command, working_dir, platform),
    ensures
        r.program@ == given.executable@,
        r.args.deep_view() == given.args.deep_view(),
        r.command@ == command,
        r.working_dir.deep_view() == working_dir,
        r.stdin == Stream::Null,
        r.stdout == Stream::Piped,
        r.stderr == Stream::Piped,
        r.kill_on_drop,
        r.own_group == !(platform is Windows),
        r.raw_command == (platform is Windows),
{
}

/// The environment of a command marks it as run by an agent and keeps git and
/// editors from waiting for a user, unless the shell brings values of its own. No
/// other variables are set than these and those of the shell.
pub proof fn commands_do_not_wait_for_users(
    given: ShellConfig,
    command: Seq<char>,
    working_dir: Option<Seq<char>>,
    platform: Platform,
    r: CommandPlan,
)
    requires
        r@ == command::shell_plan(given@, command, working_dir, platform),
    ensures
        ({
            let no_git =
                "sh -c 'echo \"Interactive Git commands are not supported in this environment.\" >&2; exit 1'"@;
            let no_editor =
                "sh -c 'echo \"Interactive editor not available in this environment.\" >&2; exit 1'"@;
            &&& is_set(r, given, "GOOSE_TERMINAL"@, "1"@)
            &&& is_set(r, given, "AGENT"@, "goose"@)
            &&& is_set(r, given, "GIT_EDITOR"@, no_git)
            &&& is_set(r, given, "GIT_SEQUENCE_EDITOR"@, no_git)
            &&& is_set(r, given, "VISUAL"@, no_editor)
            &&& is_set(r, given, "EDITOR"@, no_editor)
            &&& is_set(r, given, "GIT_TERMINAL_PROMPT"@, "0"@)
            &&& is_set(r, given, "GIT_PAGER"@, "cat"@)
            &&& r.envs@.len() == 8 + given.envs@.len()
        }),
{
    lemma_names_differ();
    let all = command::agent_envs();
    assert(r.envs.deep_view().len() == r.envs@.len());
    assert(given.envs.deep_view().len() == given.envs@.len());
    reveal_with_fuel(laws::value_of, 9);
    assert(all.drop_last() =~= all.take(7));
    assert(all.take(7).drop_last() =~= all.take(6));
    assert(all.take(6).drop_last() =~= all.take(5));
    assert(all.take(5).drop_last() =~= all.take(4));
    assert(all.take(4).drop_last() =~= all.take(3));
    assert(all.take(3).drop_last() =~= all.take(2));
    assert(all.take(2).drop_last() =~= all.take(1));
    assert(all.take(1).drop_last() =~= all.take(0));
    laws::shell_variables_win(given@, command, working_dir, platform, "GOOSE_TERMINAL"@);
    laws::shell_variables_win(given@, command, working_dir, platform, "AGENT"@);
    laws::shell_variables_win(given@, command, working_dir, platform, "GIT_EDITOR"@);
    laws::shell_variables_win(given@, command, working_dir, platform, "GIT_SEQUENCE_EDITOR"@);
    laws::shell_variables_win(given@, command, working_dir, platform, "VISUAL"@);
    laws::shell_variables_win(given@, command, working_dir, platform, "EDITOR"@);
    laws::shell_variables_win(given@, command, working_dir, platform, "GIT_TERMINAL_PROMPT"@);
    laws::shell_variables_win(given@, command, working_dir, platform, "GIT_PAGER"@);
}

/// On Unix, a process whose number is known is stopped by its group: the group is
/// asked to end, has a second for it, and is killed; then the process is. The
/// number of the group is the opposite of that of the process. On Windows the tree
/// of the process is killed by number, and then the process. A process whose number
/// is not known is just killed.
pub proof fn processes_are_stopped_with_what_they_started(
    pid: Option<u32>,
    platform: Platform,
    r: Vec<KillStep>,
)
    requires
        r.deep_view() == process::kill_steps(pid, platform),
    ensures
        pid is None ==> r@.len() == 1,
        r@.len() > 0,
        r@.last() == KillStep::KillChild,
        !(platform is Windows) ==> (pid matches Some(n) ==> {
            let target: int = if n < 0x8000_0000 {
                -(n as int)
            } else {
                0x1_0000_0000 - n
            };
            &&& r@.len() == 4
            &&& n != 0x8000_0000 ==> {
                &&& r@[0] matches KillStep::Signal { target: t, signal } && t == target && signal
                    == Signal::Terminate
                &&& r@[2] matches KillStep::Signal { target: t, signal } && t == target && signal
                    == Signal::Kill
            }
            &&& r@[1] == (KillStep::Pause { millis: 1000 })
        }),
        platform is Windows ==> (pid matches Some(n) ==> {
            &&& r@.len() == 2
            &&& r@[0] matches KillStep::Run { program, args } && program@ == "taskkill"@
                && args.deep_view() == seq!["/F"@, "/T"@, "/PID"@, numbers::decimal(n as nat)]
        }),
{
    let shown = r.deep_view();
    assert(shown.len() == r@.len());
    assert forall|i: int| 0 <= i < r@.len() implies #[trigger] shown[i] == r@[i]@ by {}
    assert(shown[r@.len() - 1] == r@[r@.len() - 1]@);
    assert(shown[0] == r@[0]@);
    if pid is Some && !(platform is Windows) {
        assert(shown[1] == r@[1]@);
        assert(shown[2] == r@[2]@);
    }
}

/// On Unix a tilde at the beginning of a path stands for the home directory where
/// nothing or a slash follows it, and the rest of the path stays. Another path
/// stays, and so does every path where no home directory is known.
pub proof fn tildes_stand_for_the_home_directory(
    rest: Seq<char>,
    platform: Platform,
    home: Option<Seq<char>>,
    userprofile: Option<Seq<char>>,
    appdata: Option<Seq<char>>,
)
    requires
        !(platform is Windows),
    ensures
        home matches Some(dir) ==> {
            &&& texts::expanded(seq!['~'], platform, home, userprofile, appdata) == dir
            &&& texts::expanded(seq!['~', '/'] + rest, platform, home, userprofile, appdata)
                == dir + seq!['/'] + rest
        },
        home is None ==> texts::expanded(rest, platform, home, userprofile, appdata) == rest,
        rest.len() == 0 || rest[0] != '~' || (rest.len() > 1 && rest[1] != '/')
            ==> texts::expanded(rest, platform, home, userprofile, appdata) == rest,
{
    reveal_strlit("~");
    reveal_strlit("~/");
    assert("~"@ =~= seq!['~']);
    assert("~/"@ =~= seq!['~', '/']);
    let path = seq!['~', '/'] + rest;
    assert(path.subrange(0, 2) =~= "~/"@);
    assert(text::occurs_at(path, "~/"@, 0));
    text_laws::found_texts_stand_in_the_text(path, "~/"@);
    text_laws::found_texts_stand_in_the_text(rest, "~/"@);
    assert(text_laws::stands_at(path, "~/"@, 0));
    if text_laws::stands_at(rest, "~/"@, 0) {
        assert(rest[0] == "~/"@[0] && rest[1] == "~/"@[1]);
    }
    if home is Some {
        assert(seq!['~'].skip(1) =~= seq![]);
        assert(home->0 + seq!['~'].skip(1) =~= home->0);
        assert(path.skip(1) =~= seq!['/'] + rest);
        assert(home->0 + path.skip(1) =~= home->0 + seq!['/'] + rest);
    }
}

proof fn lemma_no_percent(s: Seq<char>, pat: Seq<char>, with: Seq<char>)
    requires
        !s.contains('%'),
        pat.len() > 0,
        pat[0] == '%',
    ensures
        !text::has(s, pat),
        text::replaced(s, pat, with) == s,
{
    text_laws::found_texts_stand_in_the_text(s, pat);
    if text::has(s, pat) {
        let i = choose|i: int| #[trigger] text_laws::stands_at(s, pat, i);
        assert(s[i + 0] == pat[0]);
        assert(s.contains(s[i]));
    }
}

proof fn lemma_one_name(
    front: Seq<char>,
    pat: Seq<char>,
    back: Seq<char>,
    with: Seq<char>,
)
    requires
        !front.contains('%'),
        !back.contains('%'),
        pat.len() > 0,
        pat[0] == '%',
    ensures
        text::replaced(front + pat + back, pat, with) == front + with + back,
{
    let whole = front + pat + back;
    assert forall|i: int| 0 <= i < front.len() implies !#[trigger] text_laws::stands_at(
        whole,
        pat,
        i,
    ) by {
        if text_laws::stands_at(whole, pat, i) {
            assert(whole[i + 0] == pat[0]);
            assert(front[i] == '%');
            assert(front.contains(front[i]));
        }
    }
    text_laws::replacing_changes_nothing_else(front, pat, back, with);
    lemma_no_percent(back, pat, with);
}

/// On Windows the names of two variables between percent signs stand for their
/// values, or for nothing where there is no value. A path without percent signs
/// stays, and a tilde is not special.
pub proof fn variables_stand_for_their_values(
    front: Seq<char>,
    back: Seq<char>,
    home: Option<Seq<char>>,
    userprofile: Option<Seq<char>>,
    appdata: Option<Seq<char>>,
)
    requires
        !front.contains('%') && !back.contains('%'),
        userprofile matches Some(dir) ==> !dir.contains('%'),
        appdata matches Some(dir) ==> !dir.contains('%'),
    ensures
        ({
            let expanded = |path: Seq<char>|
                texts::expanded(path, Platform::Windows, home, userprofile, appdata);
            let profile = match userprofile {
                Some(dir) => dir,
                None => seq![],
            };
            let data = match appdata {
                Some(dir) => dir,
                None => seq![],
            };
            &&& expanded(front) == front
            &&& expanded(front + "%USERPROFILE%"@ + back) == front + profile + back
            &&& expanded(front + "%APPDATA%"@ + back) == front + data + back
        }),
{
    reveal_strlit("%USERPROFILE%");
    reveal_strlit("%APPDATA%");
    let profile = texts::or_empty(userprofile);
    let data = texts::or_empty(appdata);
    lemma_no_percent(front, "%USERPROFILE%"@, profile);
    lemma_no_percent(front, "%APPDATA%"@, data);
    lemma_one_name(front, "%USERPROFILE%"@, back, profile);
    let once = front + profile + back;
    assert forall|i: int| 0 <= i < once.len() implies once[i] != '%' by {
        if i < front.len() {
            assert(front.contains(front[i]));
        } else if i < front.len() + profile.len() {
            assert(profile.contains(profile[i - front.len()]));
        } else {
            let k = i - front.len() - profile.len();
            assert(once[i] == back[k]);
            assert(back.contains(back[k]));
        }
    }
    lemma_no_percent(once, "%APPDATA%"@, data);
    let other = front + "%APPDATA%"@ + back;
    text_laws::found_texts_stand_in_the_text(other, "%USERPROFILE%"@);
    assert(!text::has(other, "%USERPROFILE%"@)) by {
        if text::has(other, "%USERPROFILE%"@) {
            let i = choose|i: int| #[trigger] text_laws::stands_at(other, "%USERPROFILE%"@, i);
            assert(other[i + 0] == "%USERPROFILE%"@[0]);
            assert(other[i + 1] == "%USERPROFILE%"@[1]);
            let n = front.len() as int;
            if i < n {
                assert(front.contains(front[i]));
            } else if i < n + 9 {
                assert(other[i] == "%APPDATA%"@[i - n]);
                assert(i == n || i == n + 8);
                if i == n {
                    assert(other[n + 1] == "%APPDATA%"@[1]);
                } else {
                    assert(other[i + 12] == "%USERPROFILE%"@[12]);
                    assert(other[i + 12] == back[i + 12 - n - 9]);
                    assert(back.contains(back[i + 12 - n - 9]));
                }
            } else {
                assert(other[i] == back[i - n - 9]);
                assert(back.contains(back[i - n - 9]));
            }
        }
    }
    text_laws::replacing_changes_nothing_else(seq![], "%USERPROFILE%"@, other, profile);
    lemma_one_name(front, "%APPDATA%"@, back, data);
}

/// On Unix a path is absolute exactly where it begins with a slash; on Windows
/// where a backslash follows a colon somewhere in it, or it begins with two
/// backslashes.
pub proof fn absolute_paths_begin_at_a_root(path: Seq<char>, platform: Platform)
    ensures
        !(platform is Windows) ==> (texts::absolute_on(path, platform) <==> path.len() > 0
            && path[0] == '/'),
        platform is Windows ==> (texts::absolute_on(path, platform) <==> {
            ||| exists|i: int| 0 <= i < path.len() - 1 && #[trigger] path[i] == ':' && path[i + 1]
                == '\\'
            ||| path.len() > 1 && path[0] == '\\' && path[1] == '\\'
        }),
{
    reveal_strlit("/");
    reveal_strlit(":\\");
    reveal_strlit("\\\\");
    text_laws::found_texts_stand_in_the_text(path, "/"@);
    text_laws::found_texts_stand_in_the_text(path, ":\\"@);
    text_laws::found_texts_stand_in_the_text(path, "\\\\"@);
    if text_laws::stands_at(path, "/"@, 0) {
        assert(path[0] == "/"@[0]);
    }
    if text_laws::stands_at(path, "\\\\"@, 0) {
        assert(path[0] == "\\\\"@[0] && path[1] == "\\\\"@[1]);
    }
    if text::has(path, ":\\"@) {
        let i = choose|i: int| #[trigger] text_laws::stands_at(path, ":\\"@, i);
        assert(path[i + 0] == ":\\"@[0] && path[i + 1] == ":\\"@[1]);
        assert(path[i] == ':');
    }
    if exists|i: int|
        0 <= i < path.len() - 1 && #[trigger] path[i] == ':' && path[i + 1] == '\\' {
        let i = choose|i: int|
            0 <= i < path.len() - 1 && #[trigger] path[i] == ':' && path[i + 1] == '\\';
        assert(text_laws::stands_at(path, ":\\"@, i));
    }
}

proof fn lemma_lines_apart(head: Seq<char>, rest: Seq<char>)
    requires
        !head.contains('\n'),
        head.len() == 0 || head.last() != '\r',
    ensures
        text::replaced(head + seq!['\r', '\n'] + rest, seq!['\r', '\n'], seq!['\n']) == head
            + seq!['\n'] + text::replaced(rest, seq!['\r', '\n'], seq!['\n']),
        text::replaced(head + seq!['\n'] + rest, seq!['\r', '\n'], seq!['\n']) == head + seq!['\n']
            + text::replaced(rest, seq!['\r', '\n'], seq!['\n']),
        text::replaced(head, seq!['\r', '\n'], seq!['\n']) == head,
{
    let both = seq!['\r', '\n'];
    let feed = seq!['\n'];
    let paired = head + both + rest;
    let n = head.len() as int;
    assert forall|i: int| 0 <= i < n implies !#[trigger] text_laws::stands_at(
        paired,
        both,
        i,
    ) by {
        if text_laws::stands_at(paired, both, i) {
            assert(paired[i + 1] == both[1]);
            if i + 1 < n {
                assert(head.contains(head[i + 1]));
            }
        }
    }
    text_laws::replacing_changes_nothing_else(head, both, rest, feed);
    text_laws::found_texts_stand_in_the_text(head, both);
    if text::has(head, both) {
        let i = choose|i: int| #[trigger] text_laws::stands_at(head, both, i);
        assert(head[i + 1] == both[1]);
        assert(head.contains(head[i + 1]));
    }
    text_laws::replacing_changes_nothing_else(head, both, head, feed);
    let bare = head + feed + rest;
    text::lemma_find(bare, both);
    text::lemma_find(rest, both);
    assert forall|i: int| 0 <= i <= n implies !#[trigger] text::occurs_at(bare, both, i) by {
        if text::occurs_at(bare, both, i) {
            assert(bare.subrange(i, i + 2)[0] == both[0]);
            assert(bare.subrange(i, i + 2)[1] == both[1]);
            if i + 1 < n {
                assert(head.contains(head[i + 1]));
            }
        }
    }
    assert forall|i: int| i > n implies #[trigger] text::occurs_at(bare, both, i)
        == text::occurs_at(rest, both, i - n - 1) by {
        if i + 2 <= bare.len() {
            assert(bare.subrange(i, i + 2) =~= rest.subrange(i - n - 1, i - n + 1));
        }
    }
    match text::find(rest, both) {
        None => {
            if text::find(bare, both) is Some {
                let i = text::find(bare, both)->0;
                assert(text::occurs_at(rest, both, i - n - 1));
            }
        },
        Some(k) => {
            assert(text::occurs_at(bare, both, k + n + 1));
            let i = text::find(bare, both)->0;
            if i != k + n + 1 {
                assert(text::occurs_at(rest, both, i - n - 1));
            }
            assert(bare.take(k + n + 1) =~= head + feed + rest.take(k));
            assert(bare.skip(k + n + 3) =~= rest.skip(k + 2));
            assert(text::replaced(bare, both, feed) =~= head + feed + text::replaced(
                rest,
                both,
                feed,
            ));
        },
    }
}

/// A text is given the line ends of a platform line by line: behind a line that
/// ends in a line feed, with or without a carriage return before it, stands a line
/// feed, on Windows behind a carriage return. All else stays.
pub proof fn line_ends_go_by_the_platform(
    head: Seq<char>,
    rest: Seq<char>,
    platform: Platform,
)
    requires
        !head.contains('\n'),
        head.len() == 0 || head.last() != '\r',
    ensures
        ({
            let end = if platform is Windows {
                seq!['\r', '\n']
            } else {
                seq!['\n']
            };
            let more = texts::native_lines(rest, platform);
            &&& texts::native_lines(head, platform) == head
            &&& texts::native_lines(head + seq!['\n'] + rest, platform) == head + end + more
            &&& texts::native_lines(head + seq!['\r', '\n'] + rest, platform) == head + end + more
        }),
{
    reveal_strlit("\n");
    reveal_strlit("\r\n");
    assert("\n"@ =~= seq!['\n']);
    assert("\r\n"@ =~= seq!['\r', '\n']);
    lemma_lines_apart(head, rest);
    let feed = seq!['\n'];
    let both = seq!['\r', '\n'];
    let plain = text::replaced(rest, both, feed);
    let whole = head + feed + plain;
    assert forall|i: int| 0 <= i < head.len() implies !#[trigger] text_laws::stands_at(
        whole,
        feed,
        i,
    ) by {
        if text_laws::stands_at(whole, feed, i) {
            assert(whole[i + 0] == feed[0]);
            assert(head.contains(head[i]));
        }
    }
    text_laws::replacing_changes_nothing_else(head, feed, plain, both);
    text_laws::found_texts_stand_in_the_text(head, feed);
    if text::has(head, feed) {
        let i = choose|i: int| #[trigger] text_laws::stands_at(head, feed, i);
        assert(head[i + 0] == feed[0]);
        assert(head.contains(head[i]));
    }
    text_laws::replacing_changes_nothing_else(seq![], feed, head, both);
}

/// What stands before, in and behind quotes is one word where no white space stands
/// outside of them. Quotes that are not closed hold all that follows, and quotes
/// with nothing in them are no word.
pub proof fn quotes_are_part_of_their_word(
    front: Seq<char>,
    body: Seq<char>,
    back: Seq<char>,
    quote: char,
)
    requires
        quote == '\'' || quote == '"',
        !body.contains(quote),
        forall|i: int| 0 <= i < front.len() ==> laws::is_plain(#[trigger] front[i]),
        forall|i: int| 0 <= i < back.len() ==> laws::is_plain(#[trigger] back[i]),
    ensures
        ({
            let whole = front + body + back;
            &&& whole.len() > 0 ==> args::words(
                front + (seq![quote] + body + seq![quote]) + back,
            ) == seq![whole]
            &&& whole.len() == 0 ==> args::words(
                front + (seq![quote] + body + seq![quote]) + back,
            ).len() == 0
            &&& (front + body).len() > 0 ==> args::words(front + (seq![quote] + body)) == seq![
                front + body,
            ]
        }),
{
    let start = args::unread();
    let quoted = seq![quote] + body + seq![quote];
    laws::lemma_plain(start, front);
    let read = args::read_chars(start, front);
    assert(read.word =~= front);
    laws::lemma_read_on(start, front, quoted);
    laws::quoted_text_stays_together(read, body, quote);
    let inside = args::read_chars(start, front + quoted);
    laws::lemma_read_on(start, front + quoted, back);
    laws::lemma_plain(inside, back);
    assert(start.words.push(front + body + back) =~= seq![front + body + back]);
    laws::lemma_read_on(start, front, seq![quote] + body);
    laws::lemma_read_on(read, seq![quote], body);
    let one = seq![quote];
    assert(one.drop_last() =~= seq![]);
    assert(args::read_chars(read, one) == args::read_char(args::read_chars(read, seq![]), quote));
    laws::lemma_inside_quotes(args::read_char(read, quote), body, quote);
    assert(start.words.push(front + body) =~= seq![front + body]);
}

} // verus!
