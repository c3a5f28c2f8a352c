//! The server: single commands, and the terminals that are open.

use crate::numbers;
use crate::platform::Platform;
use crate::ssh::connect;
use crate::ssh::exchange;
use crate::ssh::exchange::{
    ChannelMsg, ChannelMsgView, SshAction, SshActionView, SshReply, SshReplyView, SshStep,
    SshStepView,
};
use crate::ssh::output;
use crate::ssh::types;
use crate::ssh::types::{
    ExecuteView, ServerInfo, SessionAction, SessionReply, SessionReplyView, SessionView,
    SshExecuteParams, SshSessionParams, ToolError, ToolErrorView,
};
use vstd::hash_map::StringHashMap;
use vstd::prelude::*;

verus! {

/// What callers are told of the tools.
pub const INSTRUCTIONS: &'static str = "SSH extension for remote command execution.

**ssh_execute** — stateless: connect, run one command, return output, disconnect.
**ssh_session** — persistent terminal:
  open  → start interactive shell (returns session_id)
  run   → send a command
  read  → retrieve accumulated output
  close → disconnect

Either password or key_path must be provided.
Both together means key auth with password as passphrase.
";

/// The state of a server: what it tells of its tools, what each open terminal
/// has written since it was last read, and the number of the next terminal.
pub struct ServerView {
    pub instructions: Seq<char>,
    pub sessions: Map<Seq<char>, Seq<char>>,
    pub next_id: u64,
}

/// A server.
pub struct SshServer {
    instructions: String,
    sessions: StringHashMap<String>,
    next_id: u64,
}

impl View for SshServer {
    type V = ServerView;

    closed spec fn view(&self) -> ServerView {
        ServerView {
            instructions: self.instructions@,
            sessions: self.sessions@.map_values(|s: String| s@),
            next_id: self.next_id,
        }
    }
}

/// What is collected of the messages on the channel, by the reply at place `at`.
pub open spec fn collection(
    replies: Seq<SshReplyView>,
    at: int,
) -> SshStepView<output::OutputView> {
    match exchange::reply_at(replies, at) {
        Some(SshReplyView::Messages(msgs)) => SshStepView::Done(Ok(output::collected(msgs))),
        _ => SshStepView::Do(SshActionView::Collect),
    }
}

/// Running a command and disconnecting, from the reply at place `at` on.
pub open spec fn single_command(
    command: Seq<char>,
    replies: Seq<SshReplyView>,
    at: int,
) -> SshStepView<Seq<char>> {
    exchange::chain(
        exchange::required(SshActionView::OpenChannel, "Channel open failed: "@, replies, at),
        |_u: ()|
            exchange::chain(
                exchange::required(
                    SshActionView::Exec { want_reply: true, command },
                    "Exec failed: "@,
                    replies,
                    at + 1,
                ),
                |_u: ()|
                    exchange::chain(
                        collection(replies, at + 2),
                        |found: output::OutputView|
                            exchange::chain(
                                exchange::attempted(
                                    SshActionView::Disconnect {
                                        description: ""@,
                                        language: "en"@,
                                    },
                                    replies,
                                    at + 3,
                                ),
                                |_u: ()| SshStepView::Done(output::outcome(found)),
                            ),
                    ),
            ),
    )
}

/// The steps of a single command.
pub open spec fn execute_step(
    p: ExecuteView,
    home: Option<Seq<char>>,
    platform: Platform,
    replies: Seq<SshReplyView>,
) -> SshStepView<Seq<char>> {
    exchange::chain(
        connect::connection(
            p.host,
            p.port,
            p.username,
            p.password,
            p.key_path,
            home,
            platform,
            replies,
        ),
        |at: usize| single_command(p.command, replies, at as int),
    )
}

/// Starting a shell on a terminal, from the reply at place `at` on.
pub open spec fn shell_start(replies: Seq<SshReplyView>, at: int) -> SshStepView<()> {
    exchange::chain(
        exchange::required(SshActionView::OpenChannel, "Channel open failed: "@, replies, at),
        |_u: ()|
            exchange::chain(
                exchange::required(
                    SshActionView::RequestPty {
                        want_reply: false,
                        term: "xterm-256color"@,
                        columns: 120,
                        rows: 40,
                        pixel_width: 0,
                        pixel_height: 0,
                    },
                    "PTY request failed: "@,
                    replies,
                    at + 1,
                ),
                |_u: ()|
                    exchange::required(
                        SshActionView::RequestShell { want_reply: false },
                        "Shell request failed: "@,
                        replies,
                        at + 2,
                    ),
            ),
    )
}

/// The steps of starting a terminal.
pub open spec fn opening(
    p: SessionView,
    home: Option<Seq<char>>,
    platform: Platform,
    replies: Seq<SshReplyView>,
) -> SshStepView<()> {
    match (p.host, p.username) {
        (None, _) => SshStepView::Done(Err(types::refusal("host required for open"@))),
        (_, None) => SshStepView::Done(Err(types::refusal("username required for open"@))),
        (Some(host), Some(username)) => exchange::chain(
            connect::connection(
                host,
                match p.port {
                    Some(port) => port,
                    None => 22,
                },
                username,
                p.password,
                p.key_path,
                home,
                platform,
                replies,
            ),
            |at: usize| shell_start(replies, at as int),
        ),
    }
}

/// The name of the terminal with a number.
pub open spec fn session_name(id: u64) -> Seq<char> {
    "ssh-"@ + numbers::decimal(id as nat)
}

/// A server with one more terminal, which has written nothing.
pub open spec fn opened(server: ServerView) -> ServerView {
    ServerView {
        sessions: server.sessions.insert(session_name(server.next_id), seq![]),
        next_id: if server.next_id == u64::MAX {
            0
        } else {
            (server.next_id + 1) as u64
        },
        ..server
    }
}

/// Nothing but a text.
pub open spec fn told(text: Seq<char>) -> SessionReplyView {
    SessionReplyView { text, opened: None }
}

/// The refusal of a request about a terminal that is not open.
pub open spec fn no_session(session_id: Seq<char>) -> ToolErrorView {
    types::refusal("No session: "@ + session_id)
}

/// A step of opening a terminal, and the server after it.
pub open spec fn open_step(
    server: ServerView,
    p: SessionView,
    home: Option<Seq<char>>,
    platform: Platform,
    replies: Seq<SshReplyView>,
) -> (SshStepView<SessionReplyView>, ServerView) {
    match opening(p, home, platform, replies) {
        SshStepView::Do(action) => (SshStepView::Do(action), server),
        SshStepView::Done(Err(e)) => (SshStepView::Done(Err(e)), server),
        SshStepView::Done(Ok(_)) => {
            let name = session_name(server.next_id);
            (
                SshStepView::Done(
                    Ok(
                        SessionReplyView {
                            text: "Session opened: "@ + name,
                            opened: Some(name),
                        },
                    ),
                ),
                opened(server),
            )
        },
    }
}

/// A server after what a terminal has written was taken.
pub open spec fn emptied(server: ServerView, session_id: Seq<char>) -> ServerView {
    ServerView { sessions: server.sessions.insert(session_id, seq![]), ..server }
}

/// Taking what a terminal has written, and the server after it.
pub open spec fn drain(server: ServerView, session_id: Seq<char>) -> (
    Result<Seq<char>, ToolErrorView>,
    ServerView,
) {
    if server.sessions.contains_key(session_id) {
        let found = server.sessions[session_id];
        let text = if found.len() == 0 {
            "(no new output)"@
        } else {
            found
        };
        (Ok(text), emptied(server, session_id))
    } else {
        (Err(no_session(session_id)), server)
    }
}

/// Taking what a terminal has written after a pause, by the reply at place
/// `at`, and the server after it.
pub open spec fn pause_and_drain(
    server: ServerView,
    session_id: Seq<char>,
    millis: u64,
    replies: Seq<SshReplyView>,
    at: int,
) -> (SshStepView<SessionReplyView>, ServerView) {
    match exchange::attempted(SshActionView::Pause { millis }, replies, at) {
        SshStepView::Do(action) => (SshStepView::Do(action), server),
        SshStepView::Done(_) => {
            let (r, after) = drain(server, session_id);
            match r {
                Ok(text) => (SshStepView::Done(Ok(told(text))), after),
                Err(e) => (SshStepView::Done(Err(e)), after),
            }
        },
    }
}

/// A step of sending a command to a terminal, and the server after it.
pub open spec fn run_step(server: ServerView, p: SessionView, replies: Seq<SshReplyView>) -> (
    SshStepView<SessionReplyView>,
    ServerView,
) {
    match (p.session_id, p.command) {
        (None, _) => (
            SshStepView::Done(Err(types::refusal("session_id required"@))),
            server,
        ),
        (_, None) => (SshStepView::Done(Err(types::refusal("command required"@))), server),
        (Some(session_id), Some(command)) => match exchange::required(
            SshActionView::Send { session_id, data: command + "\n"@ },
            "Send failed: "@,
            replies,
            0,
        ) {
            SshStepView::Do(action) => if server.sessions.contains_key(session_id) {
                (SshStepView::Do(action), server)
            } else {
                (SshStepView::Done(Err(no_session(session_id))), server)
            },
            SshStepView::Done(Err(e)) => (SshStepView::Done(Err(e)), server),
            SshStepView::Done(Ok(_)) => pause_and_drain(server, session_id, 100, replies, 1),
        },
    }
}

/// A step of reading from a terminal, and the server after it.
pub open spec fn read_step(server: ServerView, p: SessionView, replies: Seq<SshReplyView>) -> (
    SshStepView<SessionReplyView>,
    ServerView,
) {
    match p.session_id {
        None => (SshStepView::Done(Err(types::refusal("session_id required"@))), server),
        Some(session_id) => pause_and_drain(server, session_id, 200, replies, 0),
    }
}

/// The actions that end a terminal. Each may fail.
pub open spec fn closing(session_id: Seq<char>, replies: Seq<SshReplyView>) -> SshStepView<
    SessionReplyView,
> {
    exchange::chain(
        exchange::attempted(SshActionView::SendEof { session_id }, replies, 0),
        |_u: ()|
            exchange::chain(
                exchange::attempted(SshActionView::CloseChannel { session_id }, replies, 1),
                |_u: ()|
                    exchange::chain(
                        exchange::attempted(
                            SshActionView::DisconnectSession {
                                session_id,
                                description: ""@,
                                language: "en"@,
                            },
                            replies,
                            2,
                        ),
                        |_u: ()|
                            exchange::chain(
                                exchange::attempted(
                                    SshActionView::StopReader { session_id },
                                    replies,
                                    3,
                                ),
                                |_u: ()|
                                    SshStepView::Done(
                                        Ok(told("Session closed: "@ + session_id)),
                                    ),
                            ),
                    ),
            ),
    )
}

/// A step of closing a terminal, and the server after it. The server forgets the
/// terminal at the first step.
pub open spec fn close_step(server: ServerView, p: SessionView, replies: Seq<SshReplyView>) -> (
    SshStepView<SessionReplyView>,
    ServerView,
) {
    match p.session_id {
        None => (SshStepView::Done(Err(types::refusal("session_id required"@))), server),
        Some(session_id) => if replies.len() > 0 {
            (closing(session_id, replies), server)
        } else if server.sessions.contains_key(session_id) {
            (
                closing(session_id, replies),
                ServerView { sessions: server.sessions.remove(session_id), ..server },
            )
        } else {
            (SshStepView::Done(Err(no_session(session_id))), server)
        },
    }
}

/// A step of a request about a terminal, and the server after it.
pub open spec fn session_step(
    server: ServerView,
    p: SessionView,
    home: Option<Seq<char>>,
    platform: Platform,
    replies: Seq<SshReplyView>,
) -> (SshStepView<SessionReplyView>, ServerView) {
    match p.action {
        SessionAction::Open => open_step(server, p, home, platform, replies),
        SessionAction::Run => run_step(server, p, replies),
        SessionAction::Read => read_step(server, p, replies),
        SessionAction::Close => close_step(server, p, replies),
    }
}

/// A server after a terminal has written something.
pub open spec fn received(
    server: ServerView,
    session_id: Seq<char>,
    msg: ChannelMsgView,
) -> ServerView {
    if server.sessions.contains_key(session_id) {
        ServerView {
            sessions: server.sessions.insert(
                session_id,
                server.sessions[session_id] + output::terminal_text(msg),
            ),
            ..server
        }
    } else {
        server
    }
}

fn as_text(text: &Option<String>) -> (r: Option<&str>)
    ensures
        r.deep_view() == text.deep_view(),
{
    match text {
        Some(text) => Some(text.as_str()),
        None => None,
    }
}

fn refuse<T>(message: &str) -> (r: SshStep<T>)
    ensures
        r == SshStep::<T>::Done(Err(r->Done_0->Err_0)),
        r->Done_0->Err_0@ == types::refusal(message@),
{
    SshStep::Done(Err(ToolError::invalid_params(message.to_string())))
}

fn refuse_session(session_id: &str) -> (r: ToolError)
    ensures
        r@ == no_session(session_id@),
{
    let mut message = "No session: ".to_string();
    message.append(session_id);
    ToolError::invalid_params(message)
}

/// Runs a command and disconnects, from the reply at place `at` on.
fn run_single_command(command: &str, replies: &Vec<SshReply>, at: usize) -> (r: SshStep<String>)
    requires
        at <= 4,
    ensures
        r@ == single_command(command@, replies.deep_view(), at as int),
{
    match exchange::require_done(SshAction::OpenChannel, "Channel open failed: ", replies, at) {
        SshStep::Do(action) => {
            return SshStep::Do(action);
        },
        SshStep::Done(Err(e)) => {
            return SshStep::Done(Err(e));
        },
        SshStep::Done(Ok(_)) => {},
    }
    let exec = SshAction::Exec { want_reply: true, command: command.to_string() };
    match exchange::require_done(exec, "Exec failed: ", replies, at + 1) {
        SshStep::Do(action) => {
            return SshStep::Do(action);
        },
        SshStep::Done(Err(e)) => {
            return SshStep::Done(Err(e));
        },
        SshStep::Done(Ok(_)) => {},
    }
    let found = match exchange::get_reply(replies, at + 2) {
        Some(SshReply::Messages(msgs)) => output::collect(msgs),
        _ => {
            return SshStep::Do(SshAction::Collect);
        },
    };
    let disconnect = SshAction::Disconnect {
        description: "".to_string(),
        language: "en".to_string(),
    };
    match exchange::attempt(disconnect, replies, at + 3) {
        SshStep::Do(action) => SshStep::Do(action),
        SshStep::Done(_) => SshStep::Done(found.finish()),
    }
}

/// Starts a shell on a terminal, from the reply at place `at` on.
fn start_shell(replies: &Vec<SshReply>, at: usize) -> (r: SshStep<()>)
    requires
        at <= 4,
    ensures
        r@ == shell_start(replies.deep_view(), at as int),
{
    match exchange::require_done(SshAction::OpenChannel, "Channel open failed: ", replies, at) {
        SshStep::Do(action) => {
            return SshStep::Do(action);
        },
        SshStep::Done(Err(e)) => {
            return SshStep::Done(Err(e));
        },
        SshStep::Done(Ok(_)) => {},
    }
    let pty = SshAction::RequestPty {
        want_reply: false,
        term: "xterm-256color".to_string(),
        columns: 120,
        rows: 40,
        pixel_width: 0,
        pixel_height: 0,
    };
    match exchange::require_done(pty, "PTY request failed: ", replies, at + 1) {
        SshStep::Do(action) => {
            return SshStep::Do(action);
        },
        SshStep::Done(Err(e)) => {
            return SshStep::Done(Err(e));
        },
        SshStep::Done(Ok(_)) => {},
    }
    let shell = SshAction::RequestShell { want_reply: false };
    exchange::require_done(shell, "Shell request failed: ", replies, at + 2)
}

/// Starts a terminal.
fn start_session(
    p: &SshSessionParams,
    home: Option<&str>,
    platform: Platform,
    replies: &Vec<SshReply>,
) -> (r: SshStep<()>)
    ensures
        r@ == opening(p@, home.deep_view(), platform, replies.deep_view()),
{
    let host = match &p.host {
        Some(host) => host,
        None => {
            return refuse("host required for open");
        },
    };
    let username = match &p.username {
        Some(username) => username,
        None => {
            return refuse("username required for open");
        },
    };
    let port: u16 = match p.port {
        Some(port) => port,
        None => 22,
    };
    match connect::connect_and_auth(
        host.as_str(),
        port,
        username.as_str(),
        as_text(&p.password),
        as_text(&p.key_path),
        home,
        platform,
        replies,
    ) {
        SshStep::Do(action) => SshStep::Do(action),
        SshStep::Done(Err(e)) => SshStep::Done(Err(e)),
        SshStep::Done(Ok(at)) => start_shell(replies, at),
    }
}

/// Ends a terminal.
fn end_session(session_id: &str, replies: &Vec<SshReply>) -> (r: SshStep<SessionReply>)
    ensures
        r@ == closing(session_id@, replies.deep_view()),
{
    let eof = SshAction::SendEof { session_id: session_id.to_string() };
    if let SshStep::Do(action) = exchange::attempt(eof, replies, 0) {
        return SshStep::Do(action);
    }
    let close = SshAction::CloseChannel { session_id: session_id.to_string() };
    if let SshStep::Do(action) = exchange::attempt(close, replies, 1) {
        return SshStep::Do(action);
    }
    let disconnect = SshAction::DisconnectSession {
        session_id: session_id.to_string(),
        description: "".to_string(),
        language: "en".to_string(),
    };
    if let SshStep::Do(action) = exchange::attempt(disconnect, replies, 2) {
        return SshStep::Do(action);
    }
    let stop = SshAction::StopReader { session_id: session_id.to_string() };
    if let SshStep::Do(action) = exchange::attempt(stop, replies, 3) {
        return SshStep::Do(action);
    }
    let mut text = "Session closed: ".to_string();
    text.append(session_id);
    SshStep::Done(Ok(SessionReply { text, opened: None }))
}

impl SshServer {
    /// A server without terminals.
    pub fn new() -> (r: SshServer)
        ensures
            r@ == (ServerView {
                instructions: INSTRUCTIONS@,
                sessions: Map::empty(),
                next_id: 1,
            }),
    {
        let r = SshServer {
            instructions: INSTRUCTIONS.to_string(),
            sessions: StringHashMap::new(),
            next_id: 1,
        };
        assert(r@.sessions =~= Map::empty());
        r
    }

    /// What callers are told of the tools.
    pub fn instructions(&self) -> (r: &str)
        ensures
            r@ == self@.instructions,
    {
        self.instructions.as_str()
    }

    /// What the server says of itself.
    pub fn get_info(&self, version: &str) -> (r: ServerInfo)
        ensures
            r.name@ == "goose-ssh"@,
            r.version@ == version@,
            r.instructions@ == self@.instructions,
            r.tools,
    {
        ServerInfo {
            name: "goose-ssh".to_string(),
            version: version.to_string(),
            instructions: self.instructions.clone(),
            tools: true,
        }
    }

    /// Runs a single command over a connection of its own.
    pub fn ssh_execute(
        &self,
        p: &SshExecuteParams,
        home: Option<&str>,
        platform: Platform,
        replies: &Vec<SshReply>,
    ) -> (r: SshStep<String>)
        ensures
            r@ == execute_step(p@, home.deep_view(), platform, replies.deep_view()),
    {
        match connect::connect_and_auth(
            p.host.as_str(),
            p.port,
            p.username.as_str(),
            as_text(&p.password),
            as_text(&p.key_path),
            home,
            platform,
            replies,
        ) {
            SshStep::Do(action) => SshStep::Do(action),
            SshStep::Done(Err(e)) => SshStep::Done(Err(e)),
            SshStep::Done(Ok(at)) => run_single_command(p.command.as_str(), replies, at),
        }
    }

    /// Deals with a request about a terminal.
    pub fn ssh_session(
        &mut self,
        p: &SshSessionParams,
        home: Option<&str>,
        platform: Platform,
        replies: &Vec<SshReply>,
    ) -> (r: SshStep<SessionReply>)
        ensures
            (r@, final(self)@) == session_step(
                old(self)@,
                p@,
                home.deep_view(),
                platform,
                replies.deep_view(),
            ),
    {
        match p.action {
            SessionAction::Open => self.session_open(p, home, platform, replies),
            SessionAction::Run => self.session_run(p, replies),
            SessionAction::Read => self.session_read(p, replies),
            SessionAction::Close => self.session_close(p, replies),
        }
    }

    /// Opens a terminal.
    pub fn session_open(
        &mut self,
        p: &SshSessionParams,
        home: Option<&str>,
        platform: Platform,
        replies: &Vec<SshReply>,
    ) -> (r: SshStep<SessionReply>)
        ensures
            (r@, final(self)@) == open_step(
                old(self)@,
                p@,
                home.deep_view(),
                platform,
                replies.deep_view(),
            ),
    {
        match start_session(p, home, platform, replies) {
            SshStep::Do(action) => {
                return SshStep::Do(action);
            },
            SshStep::Done(Err(e)) => {
                return SshStep::Done(Err(e));
            },
            SshStep::Done(Ok(_)) => {},
        }
        let mut name = "ssh-".to_string();
        name.append(numbers::decimal_text(self.next_id).as_str());
        let ghost before = self@.sessions;
        let nothing = String::new();
        assert(nothing@ =~= seq![]);
        self.sessions.insert(name.clone(), nothing);
        assert(self@.sessions =~= before.insert(name@, seq![]));
        self.next_id = self.next_id.wrapping_add(1);
        let mut text = "Session opened: ".to_string();
        text.append(name.as_str());
        SshStep::Done(Ok(SessionReply { text, opened: Some(name) }))
    }

    /// Sends a command to a terminal.
    pub fn session_run(&mut self, p: &SshSessionParams, replies: &Vec<SshReply>) -> (r: SshStep<
        SessionReply,
    >)
        ensures
            (r@, final(self)@) == run_step(old(self)@, p@, replies.deep_view()),
    {
        let session_id = match &p.session_id {
            Some(session_id) => session_id,
            None => {
                return refuse("session_id required");
            },
        };
        let command = match &p.command {
            Some(command) => command,
            None => {
                return refuse("command required");
            },
        };
        let mut data = command.clone();
        data.append("\n");
        let send = SshAction::Send { session_id: session_id.clone(), data };
        match exchange::require_done(send, "Send failed: ", replies, 0) {
            SshStep::Do(action) => if self.sessions.contains_key(session_id.as_str()) {
                SshStep::Do(action)
            } else {
                SshStep::Done(Err(refuse_session(session_id.as_str())))
            },
            SshStep::Done(Err(e)) => SshStep::Done(Err(e)),
            SshStep::Done(Ok(_)) => self.drain_after(session_id.as_str(), 100, replies, 1),
        }
    }

    /// Reads from a terminal.
    pub fn session_read(&mut self, p: &SshSessionParams, replies: &Vec<SshReply>) -> (r: SshStep<
        SessionReply,
    >)
        ensures
            (r@, final(self)@) == read_step(old(self)@, p@, replies.deep_view()),
    {
        match &p.session_id {
            Some(session_id) => self.drain_after(session_id.as_str(), 200, replies, 0),
            None => refuse("session_id required"),
        }
    }

    /// Closes a terminal.
    pub fn session_close(&mut self, p: &SshSessionParams, replies: &Vec<SshReply>) -> (r: SshStep<
        SessionReply,
    >)
        ensures
            (r@, final(self)@) == close_step(old(self)@, p@, replies.deep_view()),
    {
        let session_id = match &p.session_id {
            Some(session_id) => session_id.as_str(),
            None => {
                return refuse("session_id required");
            },
        };
        assert(replies@.len() == replies.deep_view().len());
        if replies.len() == 0 {
            if !self.sessions.contains_key(session_id) {
                return SshStep::Done(Err(refuse_session(session_id)));
            }
            let ghost before = self@.sessions;
            self.sessions.remove(session_id);
            assert(self@.sessions =~= before.remove(session_id@));
        }
        end_session(session_id, replies)
    }

    /// Takes what a terminal has written, after a pause.
    fn drain_after(
        &mut self,
        session_id: &str,
        millis: u64,
        replies: &Vec<SshReply>,
        at: usize,
    ) -> (r: SshStep<SessionReply>)
        ensures
            (r@, final(self)@) == pause_and_drain(
                old(self)@,
                session_id@,
                millis,
                replies.deep_view(),
                at as int,
            ),
    {
        if let SshStep::Do(action) = exchange::attempt(SshAction::Pause { millis }, replies, at) {
            return SshStep::Do(action);
        }
        match self.drain_output(session_id) {
            Ok(text) => SshStep::Done(Ok(SessionReply { text, opened: None })),
            Err(e) => SshStep::Done(Err(e)),
        }
    }

    /// Takes what a terminal has written.
    pub fn drain_output(&mut self, session_id: &str) -> (r: Result<String, ToolError>)
        ensures
            match r {
                Ok(text) => drain(old(self)@, session_id@) == (
                    Ok::<Seq<char>, ToolErrorView>(text@),
                    final(self)@,
                ),
                Err(e) => drain(old(self)@, session_id@) == (
                    Err::<Seq<char>, ToolErrorView>(e@),
                    final(self)@,
                ),
            },
    {
        let found = match self.sessions.get(session_id) {
            Some(found) => found.clone(),
            None => {
                return Err(refuse_session(session_id));
            },
        };
        let ghost before = self@.sessions;
        let nothing = String::new();
        assert(nothing@ =~= seq![]);
        self.sessions.insert(session_id.to_string(), nothing);
        assert(self@.sessions =~= before.insert(session_id@, seq![]));
        if found.as_str().is_empty() {
            Ok("(no new output)".to_string())
        } else {
            Ok(found)
        }
    }

    /// Takes in what a terminal writes.
    pub fn receive(&mut self, session_id: &str, msg: &ChannelMsg)
        ensures
            final(self)@ == received(old(self)@, session_id@, msg@),
    {
        let mut text = match self.sessions.get(session_id) {
            Some(found) => found.clone(),
            None => {
                return;
            },
        };
        let ghost before = self@.sessions;
        text.append(output::show_message(msg).as_str());
        self.sessions.insert(session_id.to_string(), text);
        assert(self@.sessions =~= before.insert(session_id@, text@));
    }
}

impl Default for SshServer {
    /// A server without terminals.
    fn default() -> (r: SshServer)
        ensures
            r@ == (ServerView {
                instructions: INSTRUCTIONS@,
                sessions: Map::empty(),
                next_id: 1,
            }),
    {
        SshServer::new()
    }
}

} // verus!
