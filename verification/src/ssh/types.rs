//! What callers hand in, and what they are told.

use vstd::prelude::*;

verus! {

/// What kind of failure it was.
#[derive(Debug, Clone, Copy, PartialEq, Eq, Structural)]
pub enum ErrorCode {
    /// The caller asked for something that cannot be done.
    InvalidParams,
    /// It could not be done.
    InternalError,
}

/// A failure.
#[derive(Debug, PartialEq, Eq)]
pub struct ToolError {
    pub code: ErrorCode,
    pub message: String,
}

/// A `ToolError` with its texts as sequences.
pub struct ToolErrorView {
    pub code: ErrorCode,
    pub message: Seq<char>,
}

impl View for ToolError {
    type V = ToolErrorView;

    open spec fn view(&self) -> ToolErrorView {
        ToolErrorView { code: self.code, message: self.message@ }
    }
}

/// The failure of a caller who asked for something that cannot be done.
pub open spec fn refusal(message: Seq<char>) -> ToolErrorView {
    ToolErrorView { code: ErrorCode::InvalidParams, message }
}

/// The failure of something that could not be done.
pub open spec fn failure(message: Seq<char>) -> ToolErrorView {
    ToolErrorView { code: ErrorCode::InternalError, message }
}

impl ToolError {
    /// The failure of a caller who asked for something that cannot be done.
    pub fn invalid_params(message: String) -> (r: ToolError)
        ensures
            r@ == refusal(message@),
    {
        ToolError { code: ErrorCode::InvalidParams, message }
    }

    /// The failure of something that could not be done.
    pub fn internal_error(message: String) -> (r: ToolError)
        ensures
            r@ == failure(message@),
    {
        ToolError { code: ErrorCode::InternalError, message }
    }
}

/// The port where the caller names none.
pub fn default_port() -> (r: u16)
    ensures
        r == 22,
{
    22
}

/// A single command on a remote host.
#[derive(Debug, PartialEq, Eq)]
pub struct SshExecuteParams {
    /// Name or address of the host.
    pub host: String,
    /// Who logs in.
    pub username: String,
    /// What runs there.
    pub command: String,
    /// The password, or what opens an encrypted private key.
    pub password: Option<String>,
    /// The file of a private key, where `~/` stands for the home directory.
    pub key_path: Option<String>,
    /// The port of the host.
    pub port: u16,
}

/// An `SshExecuteParams` with its texts as sequences.
pub struct ExecuteView {
    pub host: Seq<char>,
    pub username: Seq<char>,
    pub command: Seq<char>,
    pub password: Option<Seq<char>>,
    pub key_path: Option<Seq<char>>,
    pub port: u16,
}

impl View for SshExecuteParams {
    type V = ExecuteView;

    open spec fn view(&self) -> ExecuteView {
        ExecuteView {
            host: self.host@,
            username: self.username@,
            command: self.command@,
            password: self.password.deep_view(),
            key_path: self.key_path.deep_view(),
            port: self.port,
        }
    }
}

/// What is done with a terminal.
#[derive(Debug, Clone, Copy, PartialEq, Eq, Structural)]
pub enum SessionAction {
    /// Connect and start a shell.
    Open,
    /// Send a command.
    Run,
    /// Take what was written since.
    Read,
    /// Disconnect.
    Close,
}

/// A request about a terminal.
#[derive(Debug, PartialEq, Eq)]
pub struct SshSessionParams {
    /// What is done.
    pub action: SessionAction,
    /// Which terminal; opening one tells its name, all else needs it.
    pub session_id: Option<String>,
    /// Name or address of the host, which opening needs.
    pub host: Option<String>,
    /// Who logs in, which opening needs.
    pub username: Option<String>,
    /// The password, or what opens an encrypted private key.
    pub password: Option<String>,
    /// The file of a private key.
    pub key_path: Option<String>,
    /// The port of the host.
    pub port: Option<u16>,
    /// What to send, which running needs.
    pub command: Option<String>,
}

/// An `SshSessionParams` with its texts as sequences.
pub struct SessionView {
    pub action: SessionAction,
    pub session_id: Option<Seq<char>>,
    pub host: Option<Seq<char>>,
    pub username: Option<Seq<char>>,
    pub password: Option<Seq<char>>,
    pub key_path: Option<Seq<char>>,
    pub port: Option<u16>,
    pub command: Option<Seq<char>>,
}

impl View for SshSessionParams {
    type V = SessionView;

    open spec fn view(&self) -> SessionView {
        SessionView {
            action: self.action,
            session_id: self.session_id.deep_view(),
            host: self.host.deep_view(),
            username: self.username.deep_view(),
            password: self.password.deep_view(),
            key_path: self.key_path.deep_view(),
            port: self.port,
            command: self.command.deep_view(),
        }
    }
}

/// What the caller of a terminal is told, and the terminal that was opened.
#[derive(Debug, PartialEq, Eq)]
pub struct SessionReply {
    pub text: String,
    pub opened: Option<String>,
}

/// A `SessionReply` with its texts as sequences.
pub struct SessionReplyView {
    pub text: Seq<char>,
    pub opened: Option<Seq<char>>,
}

impl View for SessionReply {
    type V = SessionReplyView;

    open spec fn view(&self) -> SessionReplyView {
        SessionReplyView { text: self.text@, opened: self.opened.deep_view() }
    }
}

impl DeepView for SessionReply {
    type V = SessionReplyView;

    open spec fn deep_view(&self) -> SessionReplyView {
        self.view()
    }
}

/// What the server says of itself.
#[derive(Debug, PartialEq, Eq)]
pub struct ServerInfo {
    pub name: String,
    pub version: String,
    pub instructions: String,
    /// Whether it offers tools.
    pub tools: bool,
}

} // verus!
