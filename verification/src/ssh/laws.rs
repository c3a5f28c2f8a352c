//! What holds of the remote operations as a whole.

use crate::numbers;
use crate::platform::Platform;
use crate::ssh::connect;
use crate::ssh::exchange::{ChannelMsgView, SshActionView, SshReplyView, SshStepView};
use crate::ssh::output;
use crate::ssh::server;
use crate::ssh::server::ServerView;
use crate::ssh::types;
use crate::ssh::types::{ExecuteView, SessionReplyView, SessionView};
use vstd::prelude::*;

verus! {

/// Without a password and without a key nothing is tried: the request is
/// refused at once.
pub proof fn logins_need_a_secret(
    p: ExecuteView,
    server: ServerView,
    q: SessionView,
    home: Option<Seq<char>>,
    platform: Platform,
    replies: Seq<SshReplyView>,
)
    requires
        p.password is None && p.key_path is None,
        q.password is None && q.key_path is None,
        q.host is Some && q.username is Some,
    ensures
        ({
            let e = types::refusal("Provide password or key_path"@);
            &&& server::execute_step(p, home, platform, replies) == SshStepView::<
                Seq<char>,
            >::Done(Err(e))
            &&& server::open_step(server, q, home, platform, replies) == (
                SshStepView::<SessionReplyView>::Done(Err(e)),
                server,
            )
        }),
{
}

/// Where there is a key, no password is sent to log in: it only opens the key.
pub proof fn keys_go_before_passwords(
    host: Seq<char>,
    port: u16,
    username: Seq<char>,
    password: Option<Seq<char>>,
    key_path: Seq<char>,
    home: Option<Seq<char>>,
    platform: Platform,
    replies: Seq<SshReplyView>,
)
    ensures
        ({
            let step = connect::connection(
                host,
                port,
                username,
                password,
                Some(key_path),
                home,
                platform,
                replies,
            );
            &&& !(step matches SshStepView::Do(SshActionView::AuthPassword { .. }))
            &&& step matches SshStepView::Do(SshActionView::LoadKey { path, passphrase }) ==> path
                == connect::without_tilde(key_path, home, platform) && passphrase == password
        }),
{
}

/// A command is run, or a shell is started, only for a user whom the host let
/// in: the reply to the login was that it did.
pub proof fn nothing_runs_before_the_login(
    host: Seq<char>,
    port: u16,
    username: Seq<char>,
    password: Option<Seq<char>>,
    key_path: Option<Seq<char>>,
    home: Option<Seq<char>>,
    platform: Platform,
    replies: Seq<SshReplyView>,
)
    ensures
        connect::connection(
            host,
            port,
            username,
            password,
            key_path,
            home,
            platform,
            replies,
        ) matches SshStepView::Done(Ok(at)) ==> {
            &&& at == 2 || at == 4
            &&& at <= replies.len()
            &&& replies[0] == SshReplyView::Finished
            &&& replies[at - 1] == SshReplyView::Admitted(true)
        },
        connect::connection(
            host,
            port,
            username,
            password,
            key_path,
            home,
            platform,
            replies,
        ) matches SshStepView::Do(action) ==> {
            ||| action is Connect
            ||| action is LoadKey
            ||| action is BestRsaHash
            ||| action is AuthPublicKey
            ||| action is AuthPassword
        },
{
}

/// Requests about a terminal that is not open are refused and change nothing.
/// Reading one pauses first.
pub proof fn unknown_sessions_are_refused(
    server: ServerView,
    p: SessionView,
    home: Option<Seq<char>>,
    platform: Platform,
    replies: Seq<SshReplyView>,
)
    requires
        p.session_id matches Some(id) && !server.sessions.contains_key(id),
        p.command is Some,
        replies.len() == 0 || p.action is Read && replies[0] == SshReplyView::Finished,
    ensures
        ({
            let refused = (
                SshStepView::<SessionReplyView>::Done(Err(server::no_session(p.session_id->0))),
                server,
            );
            let r = server::session_step(server, p, home, platform, replies);
            &&& p.action is Run || p.action is Close ==> r == refused
            &&& p.action is Read ==> r == if replies.len() == 0 {
                (
                    SshStepView::<SessionReplyView>::Do(SshActionView::Pause { millis: 200 }),
                    server,
                )
            } else {
                refused
            }
        }),
{
}

/// A terminal that was closed is not open any more, and all others are as they
/// were.
pub proof fn closed_sessions_are_gone(server: ServerView, p: SessionView)
    requires
        p.action is Close,
        p.session_id matches Some(id) && server.sessions.contains_key(id),
    ensures
        ({
            let (step, after) = server::close_step(server, p, Seq::empty());
            let id = p.session_id->0;
            &&& step == SshStepView::<SessionReplyView>::Do(
                SshActionView::SendEof { session_id: id },
            )
            &&& !after.sessions.contains_key(id)
            &&& forall|other: Seq<char>|
                other != id ==> (#[trigger] after.sessions.contains_key(other)
                    <==> server.sessions.contains_key(other)) && (server.sessions.contains_key(
                    other,
                ) ==> after.sessions[other] == server.sessions[other])
            &&& after.next_id == server.next_id
        }),
{
}

/// Closing a terminal goes on to its end, whatever comes of the single actions.
pub proof fn closing_always_succeeds(session_id: Seq<char>, replies: Seq<SshReplyView>)
    requires
        replies.len() >= 4,
        forall|i: int|
            0 <= i < 4 ==> (#[trigger] replies[i]) is Finished || replies[i] is Failed,
    ensures
        server::closing(session_id, replies) == SshStepView::Done(
            Ok(server::told("Session closed: "@ + session_id)),
        ),
{
    assert(replies[0] is Finished || replies[0] is Failed);
    assert(replies[1] is Finished || replies[1] is Failed);
    assert(replies[2] is Finished || replies[2] is Failed);
    assert(replies[3] is Finished || replies[3] is Failed);
}

/// A server after a terminal has written several things.
pub open spec fn received_all(
    server: ServerView,
    session_id: Seq<char>,
    msgs: Seq<ChannelMsgView>,
) -> ServerView
    decreases msgs.len(),
{
    if msgs.len() == 0 {
        server
    } else {
        server::received(
            received_all(server, session_id, msgs.drop_last()),
            session_id,
            msgs.last(),
        )
    }
}

/// What a terminal shows of several messages.
pub open spec fn terminal_texts(msgs: Seq<ChannelMsgView>) -> Seq<char>
    decreases msgs.len(),
{
    if msgs.len() == 0 {
        seq![]
    } else {
        terminal_texts(msgs.drop_last()) + output::terminal_text(msgs.last())
    }
}

/// Reading a terminal gives back exactly what it has written since it was last
/// read, and takes it away: a second reading finds nothing. All other terminals
/// are as they were.
pub proof fn reading_returns_what_was_written(
    server: ServerView,
    session_id: Seq<char>,
    msgs: Seq<ChannelMsgView>,
)
    requires
        server.sessions.contains_key(session_id),
        server.sessions[session_id].len() == 0,
    ensures
        ({
            let written = received_all(server, session_id, msgs);
            let text = terminal_texts(msgs);
            let (first, after) = server::drain(written, session_id);
            let (second, later) = server::drain(after, session_id);
            &&& first == if text.len() == 0 {
                Ok::<Seq<char>, types::ToolErrorView>("(no new output)"@)
            } else {
                Ok::<Seq<char>, types::ToolErrorView>(text)
            }
            &&& second == Ok::<Seq<char>, types::ToolErrorView>("(no new output)"@)
            &&& after.sessions =~= server.sessions
            &&& later.sessions =~= server.sessions
            &&& after.next_id == server.next_id
        }),
{
    lemma_received_all(server, session_id, msgs);
    let written = received_all(server, session_id, msgs);
    let (_, after) = server::drain(written, session_id);
    assert(server.sessions[session_id] =~= seq![]);
    assert(written.sessions[session_id] =~= terminal_texts(msgs));
    assert(after.sessions =~= server.sessions);
}

proof fn lemma_received_all(server: ServerView, session_id: Seq<char>, msgs: Seq<ChannelMsgView>)
    requires
        server.sessions.contains_key(session_id),
    ensures
        received_all(server, session_id, msgs).sessions =~= server.sessions.insert(
            session_id,
            server.sessions[session_id] + terminal_texts(msgs),
        ),
        received_all(server, session_id, msgs).next_id == server.next_id,
    decreases msgs.len(),
{
    if msgs.len() == 0 {
        assert(server.sessions[session_id] + terminal_texts(msgs) =~= server.sessions[session_id]);
    } else {
        lemma_received_all(server, session_id, msgs.drop_last());
        let before = server.sessions[session_id] + terminal_texts(msgs.drop_last());
        assert(before + output::terminal_text(msgs.last()) =~= server.sessions[session_id]
            + terminal_texts(msgs));
    }
}

/// What a terminal writes changes no other terminal.
pub proof fn sessions_are_apart(
    server: ServerView,
    session_id: Seq<char>,
    msg: ChannelMsgView,
    other: Seq<char>,
)
    requires
        other != session_id,
        server.sessions.contains_key(other),
    ensures
        server::received(server, session_id, msg).sessions.contains_key(other),
        server::received(server, session_id, msg).sessions[other] == server.sessions[other],
        server::drain(server, session_id).1.sessions.contains_key(other),
        server::drain(server, session_id).1.sessions[other] == server.sessions[other],
{
}

/// Each open terminal bears the name of a number that was given out, and the
/// numbers have not begun again.
pub open spec fn numbered(server: ServerView) -> bool {
    &&& server.next_id >= 1
    &&& forall|id: Seq<char>| #[trigger]
        server.sessions.contains_key(id) ==> exists|n: u64|
            1 <= n < server.next_id && id == #[trigger] server::session_name(n)
}

proof fn lemma_names_differ(a: u64, b: u64)
    requires
        server::session_name(a) == server::session_name(b),
    ensures
        a == b,
{
    numbers::decimal_reads_back(a as nat);
    numbers::decimal_reads_back(b as nat);
    let n = "ssh-"@.len() as int;
    assert(server::session_name(a).skip(n) =~= numbers::decimal(a as nat));
    assert(server::session_name(b).skip(n) =~= numbers::decimal(b as nat));
}

/// A new terminal has a name that no open terminal has, and nothing written;
/// all others are as they were. The numbers begin again behind the last one.
pub proof fn new_sessions_have_new_names(server: ServerView)
    requires
        numbered(server),
        server.next_id < u64::MAX,
    ensures
        ({
            let name = server::session_name(server.next_id);
            let after = server::opened(server);
            &&& !server.sessions.contains_key(name)
            &&& after.sessions.contains_key(name)
            &&& after.sessions[name].len() == 0
            &&& forall|id: Seq<char>| #[trigger]
                server.sessions.contains_key(id) ==> after.sessions.contains_key(id)
                    && after.sessions[id] == server.sessions[id]
            &&& numbered(after)
        }),
{
    let name = server::session_name(server.next_id);
    let after = server::opened(server);
    if server.sessions.contains_key(name) {
        let n = choose|n: u64|
            1 <= n < server.next_id && name == #[trigger] server::session_name(n);
        lemma_names_differ(n, server.next_id);
    }
    assert forall|id: Seq<char>| #[trigger] after.sessions.contains_key(id) implies exists|n: u64|
        1 <= n < after.next_id && id == #[trigger] server::session_name(n) by {
        if id == name {
            assert(1 <= server.next_id < after.next_id);
        } else {
            assert(server.sessions.contains_key(id));
            let n = choose|n: u64|
                1 <= n < server.next_id && id == #[trigger] server::session_name(n);
            assert(1 <= n < after.next_id);
        }
    }
}

/// No request but one that opens a terminal, and nothing that a terminal writes,
/// gives out a name.
pub proof fn names_stay_given_out(
    server: ServerView,
    p: SessionView,
    home: Option<Seq<char>>,
    platform: Platform,
    replies: Seq<SshReplyView>,
    session_id: Seq<char>,
    msg: ChannelMsgView,
)
    requires
        numbered(server),
    ensures
        numbered(server::received(server, session_id, msg)),
        server.next_id < u64::MAX || !(p.action is Open) ==> numbered(
            server::session_step(server, p, home, platform, replies).1,
        ),
{
    if server.next_id < u64::MAX {
        new_sessions_have_new_names(server);
    }
    let after = server::session_step(server, p, home, platform, replies).1;
    if !(p.action is Open) {
        assert(after.next_id == server.next_id);
        assert forall|id: Seq<char>| #[trigger] after.sessions.contains_key(id) implies exists|
            n: u64,
        |
            1 <= n < after.next_id && id == #[trigger] server::session_name(n) by {
            assert(server.sessions.contains_key(id));
        }
    }
}

proof fn lemma_collected(msgs: Seq<ChannelMsgView>, i: int)
    requires
        0 <= i < msgs.len(),
        msgs[i] is ExitStatus,
        forall|j: int| i < j < msgs.len() ==> !((#[trigger] msgs[j]) is ExitStatus),
    ensures
        output::collected(msgs).exit_code == Some(msgs[i]->ExitStatus_0),
    decreases msgs.len(),
{
    if i < msgs.len() - 1 {
        let front = msgs.drop_last();
        assert(front[i] == msgs[i]);
        assert forall|j: int| i < j < front.len() implies !((#[trigger] front[j])
            is ExitStatus) by {
            assert(front[j] == msgs[j]);
        }
        lemma_collected(front, i);
    }
}

/// A command has failed exactly where the last code that it reported is not
/// zero; the failure tells that code and what the command wrote.
pub proof fn last_exit_code_decides(msgs: Seq<ChannelMsgView>, i: int)
    requires
        0 <= i < msgs.len(),
        msgs[i] is ExitStatus,
        forall|j: int| i < j < msgs.len() ==> !((#[trigger] msgs[j]) is ExitStatus),
    ensures
        ({
            let code = msgs[i]->ExitStatus_0;
            let found = output::collected(msgs);
            output::outcome(found) == if code == 0 {
                Ok::<Seq<char>, types::ToolErrorView>(output::shown(found))
            } else {
                Err::<Seq<char>, types::ToolErrorView>(
                    types::failure(output::exit_message(code, output::shown(found))),
                )
            }
        }),
{
    lemma_collected(msgs, i);
}

/// A single command that is over stays over, and so does the start of a
/// terminal, whatever replies come behind those that there are.
pub proof fn finished_operations_stay(
    p: ExecuteView,
    q: SessionView,
    home: Option<Seq<char>>,
    platform: Platform,
    replies: Seq<SshReplyView>,
    more: Seq<SshReplyView>,
)
    ensures
        server::execute_step(p, home, platform, replies) is Done ==> server::execute_step(
            p,
            home,
            platform,
            replies + more,
        ) == server::execute_step(p, home, platform, replies),
        server::opening(q, home, platform, replies) is Done ==> server::opening(
            q,
            home,
            platform,
            replies + more,
        ) == server::opening(q, home, platform, replies),
{
    let all = replies + more;
    assert forall|i: int| 0 <= i < replies.len() implies #[trigger] all[i] == replies[i] by {}
}

} // verus!
