//! What a request about a remote host asks for, and what its caller is told, in
//! terms of the request and of the replies alone.

use crate::encoding;
use crate::numbers;
use crate::platform::Platform;
use crate::ssh::connect;
use crate::ssh::exchange::{ChannelMsgView, HashAlg, SshAction, SshReplyView, SshStep};
use crate::ssh::output;
use crate::ssh::server;
use crate::ssh::server::ServerView;
use crate::ssh::types::{
    ErrorCode, SessionAction, SessionReply, SshExecuteParams, SshSessionParams,
};
use crate::text;
use vstd::prelude::*;

verus! {

/// The texts of all messages of one kind, one behind the other: what was written,
/// or what was written as errors.
pub open spec fn said(msgs: Seq<ChannelMsgView>, as_errors: bool) -> Seq<char>
    decreases msgs.len(),
{
    if msgs.len() == 0 {
        seq![]
    } else {
        said(msgs.drop_last(), as_errors) + match msgs.last() {
            ChannelMsgView::Data(data) if !as_errors => encoding::utf8_lossy(data),
            ChannelMsgView::ExtendedData(data) if as_errors => encoding::utf8_lossy(data),
            _ => seq![],
        }
    }
}

/// The last code that messages tell.
pub open spec fn last_code(msgs: Seq<ChannelMsgView>) -> Option<u32>
    decreases msgs.len(),
{
    if msgs.len() == 0 {
        None
    } else {
        match msgs.last() {
            ChannelMsgView::ExitStatus(code) => Some(code),
            _ => last_code(msgs.drop_last()),
        }
    }
}

proof fn lemma_collected(msgs: Seq<ChannelMsgView>)
    ensures
        output::collected(msgs).stdout == said(msgs, false),
        output::collected(msgs).stderr == said(msgs, true),
        output::collected(msgs).exit_code == last_code(msgs),
    decreases msgs.len(),
{
    if msgs.len() > 0 {
        lemma_collected(msgs.drop_last());
        let before = msgs.drop_last();
        assert(said(before, true) + Seq::<char>::empty() =~= said(before, true));
        assert(said(before, false) + Seq::<char>::empty() =~= said(before, false));
    }
}

/// Two texts without the white space around them, one below the other where
/// neither is empty.
pub open spec fn below(a: Seq<char>, b: Seq<char>) -> Seq<char> {
    let (x, y) = (text::trimmed(a), text::trimmed(b));
    if x.len() == 0 {
        y
    } else if y.len() == 0 {
        x
    } else {
        x + "\n"@ + y
    }
}

proof fn lemma_shown(found: output::OutputView)
    ensures
        output::shown(found) == below(found.stdout, found.stderr),
{
    let both = seq![found.stdout, found.stderr];
    let one = seq![found.stdout];
    assert(both.drop_last() =~= one);
    assert(one.drop_last() =~= seq![]);
    assert(text::inked(Seq::<Seq<char>>::empty()) =~= seq![]);
    let x = text::trimmed(found.stdout);
    let y = text::trimmed(found.stderr);
    if x.len() == 0 {
        assert(text::inked(one) =~= seq![]);
        if y.len() == 0 {
            assert(text::inked(both) =~= seq![]);
            assert(y =~= seq![]);
        } else {
            assert(text::inked(both) =~= seq![y]);
        }
    } else {
        assert(text::inked(one) =~= seq![x]);
        if y.len() == 0 {
            assert(text::inked(both) =~= seq![x]);
        } else {
            assert(text::inked(both) =~= seq![x, y]);
            assert(seq![x, y].drop_last() =~= seq![x]);
            assert(text::joined(seq![x], "\n"@) == x);
            assert(text::joined(seq![x, y], "\n"@) == x + "\n"@ + y);
        }
    }
}

/// A failure with a message.
pub open spec fn fails<T>(r: SshStep<T>, code: ErrorCode, message: Seq<char>) -> bool {
    r matches SshStep::Done(Err(e)) && e.code == code && e.message@ == message
}

/// The result of a command is what it wrote, and below that what it wrote as
/// errors; where the last code that it told is not zero it is a failure that
/// tells the code and both.
pub open spec fn tells_outcome(r: SshStep<String>, msgs: Seq<ChannelMsgView>) -> bool {
    let shown = below(said(msgs, false), said(msgs, true));
    match last_code(msgs) {
        Some(code) if code != 0 => fails(
            r,
            ErrorCode::InternalError,
            "Command exited with code "@ + numbers::decimal(code as nat) + if shown.len() == 0 {
                seq![]
            } else {
                "\n"@ + shown
            },
        ),
        _ => r matches SshStep::Done(Ok(found)) && found@ == shown,
    }
}

/// The first thing that a request does is to connect to the host and the port
/// that it names; a terminal for which no port is named has the port 22.
pub proof fn requests_reach_the_host_that_they_name(
    p: SshExecuteParams,
    r: SshStep<String>,
    before: ServerView,
    q: SshSessionParams,
    s: SshStep<SessionReply>,
    after: ServerView,
    home: Option<Seq<char>>,
    platform: Platform,
)
    requires
        p.password is Some || p.key_path is Some,
        r@ == server::execute_step(p@, home, platform, Seq::empty()),
        q.action is Open,
        q.password is Some || q.key_path is Some,
        q.host is Some && q.username is Some,
        (s@, after) == server::session_step(before, q@, home, platform, Seq::empty()),
    ensures
        r matches SshStep::Do(SshAction::Connect { host, port, inactivity_secs }) && host@
            == p.host@ && port == p.port && inactivity_secs == 60,
        s matches SshStep::Do(SshAction::Connect { host, port, inactivity_secs }) && host@
            == q.host->0@ && port == (match q.port {
            Some(port) => port,
            None => 22,
        }) && inactivity_secs == 60,
        after == before,
{
}

/// A request without a password and a key is refused before anything is done, and
/// where the host cannot be reached, that is told.
pub proof fn unreachable_hosts_are_told(
    p: SshExecuteParams,
    r: SshStep<String>,
    before: ServerView,
    q: SshSessionParams,
    s: SshStep<SessionReply>,
    after: ServerView,
    home: Option<Seq<char>>,
    platform: Platform,
    replies: Seq<SshReplyView>,
)
    requires
        r@ == server::execute_step(p@, home, platform, replies),
        q.action is Open,
        q.host is Some && q.username is Some,
        (s@, after) == server::session_step(before, q@, home, platform, replies),
    ensures
        p.password is None && p.key_path is None ==> fails(
            r,
            ErrorCode::InvalidParams,
            "Provide password or key_path"@,
        ),
        replies.len() > 0 ==> (replies[0] matches SshReplyView::Failed(e) ==> {
            &&& p.password is Some || p.key_path is Some ==> fails(
                r,
                ErrorCode::InternalError,
                "SSH connection failed: "@ + e,
            )
            &&& q.password is Some || q.key_path is Some ==> fails(
                s,
                ErrorCode::InternalError,
                "SSH connection failed: "@ + e,
            )
            &&& after == before
        }),
{
}

/// The login of a request: as the user whom it names, with the password where no
/// key is given.
pub proof fn password_logins_name_the_user(
    p: SshExecuteParams,
    r: SshStep<String>,
    before: ServerView,
    q: SshSessionParams,
    s: SshStep<SessionReply>,
    after: ServerView,
    home: Option<Seq<char>>,
    platform: Platform,
    replies: Seq<SshReplyView>,
)
    requires
        p.password is Some && p.key_path is None,
        r@ == server::execute_step(p@, home, platform, replies),
        q.action is Open,
        q.password is Some && q.key_path is None,
        q.host is Some && q.username is Some,
        (s@, after) == server::session_step(before, q@, home, platform, replies),
        replies.len() > 0,
        replies[0] == SshReplyView::Finished,
    ensures
        replies.len() == 1 ==> {
            &&& r matches SshStep::Do(SshAction::AuthPassword { username, password }) && username@
                == p.username@ && password@ == p.password->0@
            &&& s matches SshStep::Do(SshAction::AuthPassword { username, password }) && username@
                == q.username->0@ && password@ == q.password->0@
            &&& after == before
        },
        replies.len() > 1 ==> (replies[1] matches SshReplyView::Failed(e) ==> fails(
            r,
            ErrorCode::InternalError,
            "Password auth failed: "@ + e,
        ) && fails(s, ErrorCode::InternalError, "Password auth failed: "@ + e) && after == before),
        replies.len() > 1 && replies[1] == SshReplyView::Admitted(false) ==> fails(
            r,
            ErrorCode::InternalError,
            "Authentication rejected by server"@,
        ) && fails(s, ErrorCode::InternalError, "Authentication rejected by server"@) && after
            == before,
{
}

/// The login with a key: the key is loaded from the file that the request names,
/// opened with the password where there is one, and offered for the user whom
/// the request names, with the hash that the host prefers.
pub proof fn key_logins_name_the_user(
    p: SshExecuteParams,
    r: SshStep<String>,
    before: ServerView,
    q: SshSessionParams,
    s: SshStep<SessionReply>,
    after: ServerView,
    home: Option<Seq<char>>,
    platform: Platform,
    replies: Seq<SshReplyView>,
)
    requires
        p.key_path is Some,
        r@ == server::execute_step(p@, home, platform, replies),
        q.action is Open,
        q.key_path is Some,
        q.host is Some && q.username is Some,
        (s@, after) == server::session_step(before, q@, home, platform, replies),
        replies.len() > 0,
        replies[0] == SshReplyView::Finished,
    ensures
        !(s matches SshStep::Done(Ok(_))) ==> after == before,
        replies.len() == 1 ==> {
            &&& r matches SshStep::Do(SshAction::LoadKey { path, passphrase }) && path@
                == connect::without_tilde(p.key_path->0@, home, platform) && passphrase.deep_view()
                == p.password.deep_view()
            &&& s matches SshStep::Do(SshAction::LoadKey { path, passphrase }) && path@
                == connect::without_tilde(q.key_path->0@, home, platform) && passphrase.deep_view()
                == q.password.deep_view()
        },
        replies.len() == 2 && replies[1] == SshReplyView::Finished ==> r == SshStep::<String>::Do(
            SshAction::BestRsaHash,
        ) && s == SshStep::<SessionReply>::Do(SshAction::BestRsaHash),
        replies.len() == 3 && replies[1] == SshReplyView::Finished ==> (
        replies[2] matches SshReplyView::RsaHash(found) ==> {
            let wanted = match found {
                Some(hash) => hash,
                None => None::<HashAlg>,
            };
            &&& r matches SshStep::Do(SshAction::AuthPublicKey { username, hash_alg }) && username@
                == p.username@ && hash_alg == wanted
            &&& s matches SshStep::Do(SshAction::AuthPublicKey { username, hash_alg }) && username@
                == q.username->0@ && hash_alg == wanted
        }),
        replies.len() > 1 ==> (replies[1] matches SshReplyView::Failed(e) ==> fails(
            r,
            ErrorCode::InternalError,
            "Failed to load key: "@ + e,
        ) && fails(s, ErrorCode::InternalError, "Failed to load key: "@ + e)),
        replies.len() > 2 && replies[1] == SshReplyView::Finished ==> (
        replies[2] matches SshReplyView::Failed(e) ==> fails(r, ErrorCode::InternalError, e)
            && fails(s, ErrorCode::InternalError, e)),
        replies.len() > 3 && replies[1] == SshReplyView::Finished && replies[2] is RsaHash ==> (
        replies[3] matches SshReplyView::Failed(e) ==> fails(
            r,
            ErrorCode::InternalError,
            "Key auth failed: "@ + e,
        ) && fails(s, ErrorCode::InternalError, "Key auth failed: "@ + e)),
        replies.len() > 3 && replies[1] == SshReplyView::Finished && replies[2] is RsaHash
            && replies[3] == SshReplyView::Admitted(false) ==> fails(
            r,
            ErrorCode::InternalError,
            "Authentication rejected by server"@,
        ) && fails(s, ErrorCode::InternalError, "Authentication rejected by server"@),
{
}

/// The file of a key is the one that is named, but where the name begins with
/// `~/` and the home directory is known: then it is looked for from there.
pub proof fn keys_are_found_from_home(
    rest: Seq<char>,
    path: Seq<char>,
    dir: Seq<char>,
    home: Option<Seq<char>>,
    platform: Platform,
)
    requires
        path.len() < 2 || path[0] != '~' || path[1] != '/',
    ensures
        connect::without_tilde(path, home, platform) == path,
        connect::without_tilde("~/"@ + rest, None, platform) == "~/"@ + rest,
        !(platform is Windows) && dir.len() > 0 && dir.last() != '/' && (rest.len() == 0 || rest[0]
            != '/') ==> connect::without_tilde("~/"@ + rest, Some(dir), platform) == dir + "/"@
            + rest,
        !(platform is Windows) && rest.len() > 0 && rest[0] == '/' ==> connect::without_tilde(
            "~/"@ + rest,
            Some(dir),
            platform,
        ) == rest,
{
    reveal_strlit("~/");
    reveal_strlit("/");
    let front = "~/"@;
    if text::begins(path, front) {
        assert(path.subrange(0, 2)[0] == '~' && path.subrange(0, 2)[1] == '/');
    }
    assert((front + rest).subrange(0, 2) =~= front);
    assert((front + rest).skip(2) =~= rest);
    assert(dir.push('/') + rest =~= dir + "/"@ + rest);
}

/// The replies by which a login has come to its end at place `n`.
pub open spec fn let_in(by_key: bool, replies: Seq<SshReplyView>, n: int) -> bool {
    &&& replies.len() >= n
    &&& replies[0] == SshReplyView::Finished
    &&& replies[n - 1] == SshReplyView::Admitted(true)
    &&& if by_key {
        n == 4 && replies[1] == SshReplyView::Finished && replies[2] is RsaHash
    } else {
        n == 2
    }
}

/// After the login a single command is run as it was given, what it writes is
/// collected, the connection is ended, and the caller is told what came of it.
pub proof fn single_commands_run_as_given(
    p: SshExecuteParams,
    r: SshStep<String>,
    home: Option<Seq<char>>,
    platform: Platform,
    replies: Seq<SshReplyView>,
    n: int,
)
    requires
        p.password is Some || p.key_path is Some,
        r@ == server::execute_step(p@, home, platform, replies),
        let_in(p.key_path is Some, replies, n),
    ensures
        replies.len() == n ==> r == SshStep::<String>::Do(SshAction::OpenChannel),
        replies.len() > n ==> (replies[n] matches SshReplyView::Failed(e) ==> fails(
            r,
            ErrorCode::InternalError,
            "Channel open failed: "@ + e,
        )),
        replies.len() > n && replies[n] == SshReplyView::Finished ==> {
            &&& replies.len() == n + 1 ==> (r matches SshStep::Do(
                SshAction::Exec { want_reply, command },
            ) && want_reply && command@ == p.command@)
            &&& replies.len() > n + 1 ==> (replies[n + 1] matches SshReplyView::Failed(e) ==> fails(
                r,
                ErrorCode::InternalError,
                "Exec failed: "@ + e,
            ))
            &&& replies.len() > n + 1 && replies[n + 1] == SshReplyView::Finished ==> {
                &&& replies.len() == n + 2 ==> r == SshStep::<String>::Do(SshAction::Collect)
                &&& replies.len() > n + 2 ==> (replies[n + 2] matches SshReplyView::Messages(msgs)
                    ==> {
                    &&& replies.len() == n + 3 ==> (r matches SshStep::Do(
                        SshAction::Disconnect { description, language },
                    ) && description@ == ""@ && language@ == "en"@)
                    &&& replies.len() > n + 3 && (replies[n + 3] is Finished || replies[n + 3]
                        is Failed) ==> tells_outcome(r, msgs)
                })
            }
        },
{
    reveal_strlit("\n");
    if replies.len() > n + 2 {
        if let SshReplyView::Messages(msgs) = replies[n + 2] {
            let found = output::collected(msgs);
            lemma_collected(msgs);
            lemma_shown(found);
            let shown = below(said(msgs, false), said(msgs, true));
            if let Some(code) = last_code(msgs) {
                let front = "Command exited with code "@ + numbers::decimal(code as nat);
                assert(front + Seq::<char>::empty() =~= front);
                assert(front + "\n"@ + shown =~= front + ("\n"@ + shown));
            }
        }
    }
}

/// After the login a terminal is asked for and a shell is started; then the
/// caller is told the name of the terminal, which is made of the next number,
/// and the server knows it under that name with nothing written. Until then the
/// server is as it was.
pub proof fn terminals_are_opened_under_the_next_number(
    before: ServerView,
    q: SshSessionParams,
    s: SshStep<SessionReply>,
    after: ServerView,
    home: Option<Seq<char>>,
    platform: Platform,
    replies: Seq<SshReplyView>,
    n: int,
)
    requires
        q.action is Open,
        q.password is Some || q.key_path is Some,
        q.host is Some && q.username is Some,
        (s@, after) == server::session_step(before, q@, home, platform, replies),
        let_in(q.key_path is Some, replies, n),
    ensures
        !(s matches SshStep::Done(Ok(_))) ==> after == before,
        replies.len() == n ==> s == SshStep::<SessionReply>::Do(SshAction::OpenChannel),
        replies.len() > n ==> (replies[n] matches SshReplyView::Failed(e) ==> fails(
            s,
            ErrorCode::InternalError,
            "Channel open failed: "@ + e,
        )),
        replies.len() > n && replies[n] == SshReplyView::Finished ==> {
            &&& replies.len() == n + 1 ==> (s matches SshStep::Do(
                SshAction::RequestPty {
                    want_reply,
                    term,
                    columns,
                    rows,
                    pixel_width,
                    pixel_height,
                },
            ) && !want_reply && term@ == "xterm-256color"@ && columns == 120 && rows == 40
                && pixel_width == 0 && pixel_height == 0)
            &&& replies.len() > n + 1 ==> (replies[n + 1] matches SshReplyView::Failed(e) ==> fails(
                s,
                ErrorCode::InternalError,
                "PTY request failed: "@ + e,
            ))
            &&& replies.len() > n + 1 && replies[n + 1] == SshReplyView::Finished ==> {
                &&& replies.len() == n + 2 ==> s == SshStep::<SessionReply>::Do(
                    SshAction::RequestShell { want_reply: false },
                )
                &&& replies.len() > n + 2 ==> (replies[n + 2] matches SshReplyView::Failed(e)
                    ==> fails(s, ErrorCode::InternalError, "Shell request failed: "@ + e))
                &&& replies.len() > n + 2 && replies[n + 2] == SshReplyView::Finished ==> {
                    let name = "ssh-"@ + numbers::decimal(before.next_id as nat);
                    &&& s matches SshStep::Done(Ok(reply)) && reply.text@ == "Session opened: "@
                        + name && reply.opened.deep_view() == Some(name)
                    &&& after.sessions == before.sessions.insert(name, Seq::empty())
                    &&& after.next_id == (if before.next_id == u64::MAX {
                        0
                    } else {
                        before.next_id + 1
                    })
                    &&& after.instructions == before.instructions
                }
            }
        },
{
}

/// What a terminal must be asked with.
pub proof fn requests_about_terminals_are_complete(
    before: ServerView,
    q: SshSessionParams,
    s: SshStep<SessionReply>,
    after: ServerView,
    home: Option<Seq<char>>,
    platform: Platform,
    replies: Seq<SshReplyView>,
)
    requires
        (s@, after) == server::session_step(before, q@, home, platform, replies),
    ensures
        ({
            let missing = match q.action {
                SessionAction::Open => if q.host is None {
                    Some("host required for open"@)
                } else if q.username is None {
                    Some("username required for open"@)
                } else if q.password is None && q.key_path is None {
                    Some("Provide password or key_path"@)
                } else {
                    None
                },
                SessionAction::Run => if q.session_id is None {
                    Some("session_id required"@)
                } else if q.command is None {
                    Some("command required"@)
                } else {
                    None
                },
                _ => if q.session_id is None {
                    Some("session_id required"@)
                } else {
                    None
                },
            };
            missing matches Some(message) ==> fails(s, ErrorCode::InvalidParams, message) && after
                == before
        }),
{
}

/// A command for a terminal that is open is sent to that terminal as it was
/// given, with a line feed behind it; after a tenth of a second the caller is
/// told what that terminal has written. Nothing else changes.
pub proof fn commands_go_to_their_terminal(
    before: ServerView,
    q: SshSessionParams,
    s: SshStep<SessionReply>,
    after: ServerView,
    home: Option<Seq<char>>,
    platform: Platform,
    replies: Seq<SshReplyView>,
)
    requires
        q.action is Run,
        q.session_id is Some && q.command is Some,
        before.sessions.contains_key(q.session_id->0@),
        (s@, after) == server::session_step(before, q@, home, platform, replies),
    ensures
        replies.len() == 0 ==> (s matches SshStep::Do(SshAction::Send { session_id, data })
            && session_id@ == q.session_id->0@ && data@ == q.command->0@ + "\n"@) && after
            == before,
        replies.len() > 0 ==> (replies[0] matches SshReplyView::Failed(e) ==> fails(
            s,
            ErrorCode::InternalError,
            "Send failed: "@ + e,
        ) && after == before),
        replies.len() == 1 && replies[0] == SshReplyView::Finished ==> s == SshStep::<
            SessionReply,
        >::Do(SshAction::Pause { millis: 100 }) && after == before,
        replies.len() > 1 && replies[0] == SshReplyView::Finished && (replies[1] is Finished
            || replies[1] is Failed) ==> is_read(before, q.session_id->0@, s, after),
{
}

/// A terminal was read: the caller is told what it has written, which is then
/// gone, and all else is as it was.
pub open spec fn is_read(
    before: ServerView,
    id: Seq<char>,
    s: SshStep<SessionReply>,
    after: ServerView,
) -> bool {
    let found = before.sessions[id];
    &&& s matches SshStep::Done(Ok(reply)) && reply.opened is None && reply.text@ == (if found.len()
        == 0 {
        "(no new output)"@
    } else {
        found
    })
    &&& after.sessions == before.sessions.insert(id, Seq::empty())
    &&& after.next_id == before.next_id
    &&& after.instructions == before.instructions
}

/// A terminal that is open is read after a fifth of a second.
pub proof fn open_terminals_are_read(
    before: ServerView,
    q: SshSessionParams,
    s: SshStep<SessionReply>,
    after: ServerView,
    home: Option<Seq<char>>,
    platform: Platform,
    replies: Seq<SshReplyView>,
)
    requires
        q.action is Read,
        q.session_id is Some,
        before.sessions.contains_key(q.session_id->0@),
        (s@, after) == server::session_step(before, q@, home, platform, replies),
    ensures
        replies.len() == 0 ==> s == SshStep::<SessionReply>::Do(SshAction::Pause { millis: 200 })
            && after == before,
        replies.len() > 0 && (replies[0] is Finished || replies[0] is Failed) ==> is_read(
            before,
            q.session_id->0@,
            s,
            after,
        ),
{
}

/// Requests about a terminal that is not open are refused by its name, and change
/// nothing.
pub proof fn unknown_terminals_are_named(
    before: ServerView,
    q: SshSessionParams,
    s: SshStep<SessionReply>,
    after: ServerView,
    home: Option<Seq<char>>,
    platform: Platform,
    replies: Seq<SshReplyView>,
)
    requires
        q.session_id is Some && q.command is Some,
        !before.sessions.contains_key(q.session_id->0@),
        (s@, after) == server::session_step(before, q@, home, platform, replies),
        match q.action {
            SessionAction::Open => false,
            SessionAction::Read => replies.len() > 0 && (replies[0] is Finished || replies[0]
                is Failed),
            _ => replies.len() == 0,
        },
    ensures
        fails(s, ErrorCode::InvalidParams, "No session: "@ + q.session_id->0@),
        after == before,
{
}

/// A terminal that is closed is first forgotten, and no other is; then it is told
/// that nothing more comes, its channel is closed, its connection is ended and
/// its reader stopped, each whatever came of the one before.
pub proof fn terminals_are_closed_by_name(
    before: ServerView,
    q: SshSessionParams,
    s: SshStep<SessionReply>,
    after: ServerView,
    home: Option<Seq<char>>,
    platform: Platform,
    replies: Seq<SshReplyView>,
)
    requires
        q.action is Close,
        q.session_id is Some,
        replies.len() == 0 ==> before.sessions.contains_key(q.session_id->0@),
        forall|i: int|
            0 <= i < replies.len() ==> (#[trigger] replies[i]) is Finished || replies[i] is Failed,
        (s@, after) == server::session_step(before, q@, home, platform, replies),
    ensures
        ({
            let id = q.session_id->0@;
            let n = replies.len();
            &&& n == 0 ==> (s matches SshStep::Do(SshAction::SendEof { session_id }) && session_id@
                == id) && after.sessions == before.sessions.remove(id)
            &&& n == 1 ==> (s matches SshStep::Do(SshAction::CloseChannel { session_id })
                && session_id@ == id)
            &&& n == 2 ==> (s matches SshStep::Do(
                SshAction::DisconnectSession { session_id, description, language },
            ) && session_id@ == id && description@ == ""@ && language@ == "en"@)
            &&& n == 3 ==> (s matches SshStep::Do(SshAction::StopReader { session_id })
                && session_id@ == id)
            &&& n > 3 ==> (s matches SshStep::Done(Ok(reply)) && reply.text@ == "Session closed: "@
                + id && reply.opened is None)
        }),
        replies.len() > 0 ==> after == before,
        after.next_id == before.next_id,
{
    if replies.len() > 0 {
        assert(replies[0] is Finished || replies[0] is Failed);
    }
    if replies.len() > 1 {
        assert(replies[1] is Finished || replies[1] is Failed);
    }
    if replies.len() > 2 {
        assert(replies[2] is Finished || replies[2] is Failed);
    }
    if replies.len() > 3 {
        assert(replies[3] is Finished || replies[3] is Failed);
    }
}

/// What a terminal writes is put behind what it has written and nobody has read:
/// the text of the message, or the code with which the shell ended. What a
/// terminal writes that is not open is lost.
pub proof fn terminals_collect_what_is_written(
    before: ServerView,
    id: Seq<char>,
    msg: ChannelMsgView,
)
    ensures
        ({
            let after = server::received(before, id, msg);
            let text = match msg {
                ChannelMsgView::Data(data) => encoding::utf8_lossy(data),
                ChannelMsgView::ExtendedData(data) => encoding::utf8_lossy(data),
                ChannelMsgView::ExitStatus(code) => "\n[exited with code "@ + numbers::decimal(
                    code as nat,
                ) + "]\n"@,
                ChannelMsgView::Other => seq![],
            };
            &&& after.next_id == before.next_id
            &&& after.instructions == before.instructions
            &&& after.sessions == if before.sessions.contains_key(id) {
                before.sessions.insert(id, before.sessions[id] + text)
            } else {
                before.sessions
            }
        }),
{
}

} // verus!
