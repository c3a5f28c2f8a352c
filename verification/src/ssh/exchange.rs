//! How an operation on a remote host talks to the host that it runs on: it asks
//! for one action at a time and is given the replies to all actions so far.

use crate::ssh::types;
use crate::ssh::types::{ToolError, ToolErrorView};
use vstd::prelude::*;

verus! {

/// The hash that signs with an RSA key.
#[derive(Debug, Clone, Copy, PartialEq, Eq, Structural)]
pub enum HashAlg {
    Sha256,
    Sha512,
}

/// Something that is done for an operation. The actions without a name of a
/// terminal are about the connection that the operation itself made.
#[derive(Debug, PartialEq, Eq)]
pub enum SshAction {
    /// Connect to a host, and give up after so many seconds of silence.
    Connect { host: String, port: u16, inactivity_secs: u64 },
    /// Load a private key from a file, with what opens it.
    LoadKey { path: String, passphrase: Option<String> },
    /// Find out which hash the host takes with RSA keys.
    BestRsaHash,
    /// Log in with the key that was loaded.
    AuthPublicKey { username: String, hash_alg: Option<HashAlg> },
    /// Log in with a password.
    AuthPassword { username: String, password: String },
    /// Open a channel.
    OpenChannel,
    /// Run a command on the channel.
    Exec { want_reply: bool, command: String },
    /// Wait for all messages on the channel.
    Collect,
    /// Disconnect on the application's behalf.
    Disconnect { description: String, language: String },
    /// Ask for a terminal on the channel, without modes.
    RequestPty {
        want_reply: bool,
        term: String,
        columns: u32,
        rows: u32,
        pixel_width: u32,
        pixel_height: u32,
    },
    /// Start a shell on the channel.
    RequestShell { want_reply: bool },
    /// Wait so many milliseconds.
    Pause { millis: u64 },
    /// Send bytes to a terminal.
    Send { session_id: String, data: String },
    /// Tell a terminal that nothing more comes.
    SendEof { session_id: String },
    /// Close the channel of a terminal.
    CloseChannel { session_id: String },
    /// Disconnect a terminal on the application's behalf.
    DisconnectSession { session_id: String, description: String, language: String },
    /// Stop reading from a terminal.
    StopReader { session_id: String },
}

/// An `SshAction` with its texts as sequences.
pub enum SshActionView {
    Connect { host: Seq<char>, port: u16, inactivity_secs: u64 },
    LoadKey { path: Seq<char>, passphrase: Option<Seq<char>> },
    BestRsaHash,
    AuthPublicKey { username: Seq<char>, hash_alg: Option<HashAlg> },
    AuthPassword { username: Seq<char>, password: Seq<char> },
    OpenChannel,
    Exec { want_reply: bool, command: Seq<char> },
    Collect,
    Disconnect { description: Seq<char>, language: Seq<char> },
    RequestPty {
        want_reply: bool,
        term: Seq<char>,
        columns: u32,
        rows: u32,
        pixel_width: u32,
        pixel_height: u32,
    },
    RequestShell { want_reply: bool },
    Pause { millis: u64 },
    Send { session_id: Seq<char>, data: Seq<char> },
    SendEof { session_id: Seq<char> },
    CloseChannel { session_id: Seq<char> },
    DisconnectSession { session_id: Seq<char>, description: Seq<char>, language: Seq<char> },
    StopReader { session_id: Seq<char> },
}

impl View for SshAction {
    type V = SshActionView;

    open spec fn view(&self) -> SshActionView {
        match self {
            SshAction::Connect { host, port, inactivity_secs } => SshActionView::Connect {
                host: host@,
                port: *port,
                inactivity_secs: *inactivity_secs,
            },
            SshAction::LoadKey { path, passphrase } => SshActionView::LoadKey {
                path: path@,
                passphrase: passphrase.deep_view(),
            },
            SshAction::BestRsaHash => SshActionView::BestRsaHash,
            SshAction::AuthPublicKey { username, hash_alg } => SshActionView::AuthPublicKey {
                username: username@,
                hash_alg: *hash_alg,
            },
            SshAction::AuthPassword { username, password } => SshActionView::AuthPassword {
                username: username@,
                password: password@,
            },
            SshAction::OpenChannel => SshActionView::OpenChannel,
            SshAction::Exec { want_reply, command } => SshActionView::Exec {
                want_reply: *want_reply,
                command: command@,
            },
            SshAction::Collect => SshActionView::Collect,
            SshAction::Disconnect { description, language } => SshActionView::Disconnect {
                description: description@,
                language: language@,
            },
            SshAction::RequestPty { want_reply, term, columns, rows, pixel_width, pixel_height } =>
            SshActionView::RequestPty {
                want_reply: *want_reply,
                term: term@,
                columns: *columns,
                rows: *rows,
                pixel_width: *pixel_width,
                pixel_height: *pixel_height,
            },
            SshAction::RequestShell { want_reply } => SshActionView::RequestShell {
                want_reply: *want_reply,
            },
            SshAction::Pause { millis } => SshActionView::Pause { millis: *millis },
            SshAction::Send { session_id, data } => SshActionView::Send {
                session_id: session_id@,
                data: data@,
            },
            SshAction::SendEof { session_id } => SshActionView::SendEof {
                session_id: session_id@,
            },
            SshAction::CloseChannel { session_id } => SshActionView::CloseChannel {
                session_id: session_id@,
            },
            SshAction::DisconnectSession { session_id, description, language } =>
            SshActionView::DisconnectSession {
                session_id: session_id@,
                description: description@,
                language: language@,
            },
            SshAction::StopReader { session_id } => SshActionView::StopReader {
                session_id: session_id@,
            },
        }
    }
}

/// A message on a channel.
#[derive(Debug, PartialEq, Eq)]
pub enum ChannelMsg {
    /// What the command wrote.
    Data(Vec<u8>),
    /// What the command wrote as errors.
    ExtendedData(Vec<u8>),
    /// The code with which the command ended.
    ExitStatus(u32),
    /// Anything else.
    Other,
}

/// A `ChannelMsg` with its bytes as sequences.
pub enum ChannelMsgView {
    Data(Seq<u8>),
    ExtendedData(Seq<u8>),
    ExitStatus(u32),
    Other,
}

impl View for ChannelMsg {
    type V = ChannelMsgView;

    open spec fn view(&self) -> ChannelMsgView {
        match self {
            ChannelMsg::Data(data) => ChannelMsgView::Data(data@),
            ChannelMsg::ExtendedData(data) => ChannelMsgView::ExtendedData(data@),
            ChannelMsg::ExitStatus(code) => ChannelMsgView::ExitStatus(*code),
            ChannelMsg::Other => ChannelMsgView::Other,
        }
    }
}

impl DeepView for ChannelMsg {
    type V = ChannelMsgView;

    open spec fn deep_view(&self) -> ChannelMsgView {
        self.view()
    }
}

/// What came of an action.
#[derive(Debug, PartialEq, Eq)]
pub enum SshReply {
    /// The action is done.
    Finished,
    /// The action failed, and why.
    Failed(String),
    /// Whether the host let the user in.
    Admitted(bool),
    /// The hash that the host takes, where it says so.
    RsaHash(Option<Option<HashAlg>>),
    /// The messages on the channel.
    Messages(Vec<ChannelMsg>),
}

/// An `SshReply` with its texts as sequences.
pub enum SshReplyView {
    Finished,
    Failed(Seq<char>),
    Admitted(bool),
    RsaHash(Option<Option<HashAlg>>),
    Messages(Seq<ChannelMsgView>),
}

impl View for SshReply {
    type V = SshReplyView;

    open spec fn view(&self) -> SshReplyView {
        match self {
            SshReply::Finished => SshReplyView::Finished,
            SshReply::Failed(e) => SshReplyView::Failed(e@),
            SshReply::Admitted(b) => SshReplyView::Admitted(*b),
            SshReply::RsaHash(hash) => SshReplyView::RsaHash(*hash),
            SshReply::Messages(msgs) => SshReplyView::Messages(msgs.deep_view()),
        }
    }
}

impl DeepView for SshReply {
    type V = SshReplyView;

    open spec fn deep_view(&self) -> SshReplyView {
        self.view()
    }
}

/// What an operation, or a part of one, does next.
#[derive(Debug, PartialEq, Eq)]
pub enum SshStep<T> {
    /// It wants this action done, and its reply put behind the others.
    Do(SshAction),
    /// It is over.
    Done(Result<T, ToolError>),
}

/// An `SshStep` with its texts as sequences.
pub enum SshStepView<T> {
    Do(SshActionView),
    Done(Result<T, ToolErrorView>),
}

impl<T: DeepView> View for SshStep<T> {
    type V = SshStepView<T::V>;

    open spec fn view(&self) -> SshStepView<T::V> {
        match self {
            SshStep::Do(action) => SshStepView::Do(action@),
            SshStep::Done(Ok(value)) => SshStepView::Done(Ok(value.deep_view())),
            SshStep::Done(Err(e)) => SshStepView::Done(Err(e@)),
        }
    }
}

/// The step of an operation whose part has come so far and which goes on with
/// `next` from the value of that part.
pub open spec fn chain<A, B>(
    part: SshStepView<A>,
    next: spec_fn(A) -> SshStepView<B>,
) -> SshStepView<B> {
    match part {
        SshStepView::Do(action) => SshStepView::Do(action),
        SshStepView::Done(Err(e)) => SshStepView::Done(Err(e)),
        SshStepView::Done(Ok(value)) => next(value),
    }
}

/// The reply at place `at`, if there is one.
pub open spec fn reply_at(replies: Seq<SshReplyView>, at: int) -> Option<SshReplyView> {
    if 0 <= at < replies.len() {
        Some(replies[at])
    } else {
        None
    }
}

/// The reply at place `at`, if there is one.
pub fn get_reply(replies: &Vec<SshReply>, at: usize) -> (r: Option<&SshReply>)
    ensures
        match r {
            Some(reply) => reply_at(replies.deep_view(), at as int) == Some(reply@),
            None => reply_at(replies.deep_view(), at as int) is None,
        },
{
    if at < replies.len() {
        assert(replies.deep_view()[at as int] == replies@[at as int]@);
        Some(&replies[at])
    } else {
        None
    }
}

/// The failure with a message and what lay behind it.
pub open spec fn blamed(front: Seq<char>, cause: Seq<char>) -> ToolErrorView {
    types::failure(front + cause)
}

/// The failure with a message and what lay behind it.
pub fn blame(front: &str, cause: &str) -> (r: ToolError)
    ensures
        r@ == blamed(front@, cause@),
{
    let mut message = front.to_string();
    message.append(cause);
    ToolError::internal_error(message)
}

/// An action that has to end well, by the reply at place `at`.
pub open spec fn required(
    action: SshActionView,
    front: Seq<char>,
    replies: Seq<SshReplyView>,
    at: int,
) -> SshStepView<()> {
    match reply_at(replies, at) {
        Some(SshReplyView::Finished) => SshStepView::Done(Ok(())),
        Some(SshReplyView::Failed(e)) => SshStepView::Done(Err(blamed(front, e))),
        _ => SshStepView::Do(action),
    }
}

/// An action that has to end well, by the reply at place `at`.
pub fn require_done(action: SshAction, front: &str, replies: &Vec<SshReply>, at: usize) -> (r:
    SshStep<()>)
    ensures
        r@ == required(action@, front@, replies.deep_view(), at as int),
{
    match get_reply(replies, at) {
        Some(SshReply::Finished) => SshStep::Done(Ok(())),
        Some(SshReply::Failed(e)) => SshStep::Done(Err(blame(front, e.as_str()))),
        _ => SshStep::Do(action),
    }
}

/// An action that may end in any way, by the reply at place `at`.
pub open spec fn attempted(
    action: SshActionView,
    replies: Seq<SshReplyView>,
    at: int,
) -> SshStepView<()> {
    match reply_at(replies, at) {
        Some(SshReplyView::Finished) => SshStepView::Done(Ok(())),
        Some(SshReplyView::Failed(_)) => SshStepView::Done(Ok(())),
        _ => SshStepView::Do(action),
    }
}

/// An action that may end in any way, by the reply at place `at`.
pub fn attempt(action: SshAction, replies: &Vec<SshReply>, at: usize) -> (r: SshStep<()>)
    ensures
        r@ == attempted(action@, replies.deep_view(), at as int),
{
    match get_reply(replies, at) {
        Some(SshReply::Finished) => SshStep::Done(Ok(())),
        Some(SshReply::Failed(_)) => SshStep::Done(Ok(())),
        _ => SshStep::Do(action),
    }
}

/// Whether the host lets the user in, by the reply at place `at`.
pub open spec fn admission(
    action: SshActionView,
    front: Seq<char>,
    replies: Seq<SshReplyView>,
    at: int,
) -> SshStepView<bool> {
    match reply_at(replies, at) {
        Some(SshReplyView::Admitted(b)) => SshStepView::Done(Ok(b)),
        Some(SshReplyView::Failed(e)) => SshStepView::Done(Err(blamed(front, e))),
        _ => SshStepView::Do(action),
    }
}

/// Whether the host lets the user in, by the reply at place `at`.
pub fn ask_admission(action: SshAction, front: &str, replies: &Vec<SshReply>, at: usize) -> (r:
    SshStep<bool>)
    ensures
        r@ == admission(action@, front@, replies.deep_view(), at as int),
{
    match get_reply(replies, at) {
        Some(SshReply::Admitted(b)) => SshStep::Done(Ok(*b)),
        Some(SshReply::Failed(e)) => SshStep::Done(Err(blame(front, e.as_str()))),
        _ => SshStep::Do(action),
    }
}

} // verus!
