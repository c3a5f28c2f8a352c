//! What a remote command or shell writes.

use crate::encoding;
use crate::numbers;
use crate::ssh::exchange::{ChannelMsg, ChannelMsgView};
use crate::ssh::types;
use crate::ssh::types::{ToolError, ToolErrorView};
use crate::text;
use vstd::prelude::*;

verus! {

/// What a command wrote, what it wrote as errors, and the code with which it
/// ended.
pub struct OutputView {
    pub stdout: Seq<char>,
    pub stderr: Seq<char>,
    pub exit_code: Option<u32>,
}

/// What there is of a command before its first message.
pub open spec fn no_output() -> OutputView {
    OutputView { stdout: seq![], stderr: seq![], exit_code: None }
}

/// What there is of a command after one more message.
pub open spec fn absorbed(output: OutputView, msg: ChannelMsgView) -> OutputView {
    match msg {
        ChannelMsgView::Data(data) => OutputView {
            stdout: output.stdout + encoding::utf8_lossy(data),
            ..output
        },
        ChannelMsgView::ExtendedData(data) => OutputView {
            stderr: output.stderr + encoding::utf8_lossy(data),
            ..output
        },
        ChannelMsgView::ExitStatus(code) => OutputView { exit_code: Some(code), ..output },
        ChannelMsgView::Other => output,
    }
}

/// What there is of a command after its messages.
pub open spec fn collected(msgs: Seq<ChannelMsgView>) -> OutputView
    decreases msgs.len(),
{
    if msgs.len() == 0 {
        no_output()
    } else {
        absorbed(collected(msgs.drop_last()), msgs.last())
    }
}

/// What is shown of a command: what it wrote and what it wrote as errors, each
/// without white space around it, one below the other where there is both.
pub open spec fn shown(output: OutputView) -> Seq<char> {
    text::joined(text::inked(seq![output.stdout, output.stderr]), "\n"@)
}

/// The message that a command ended with a code, and what is shown of it.
pub open spec fn exit_message(code: u32, shown: Seq<char>) -> Seq<char> {
    let said = "Command exited with code "@ + numbers::decimal(code as nat);
    if shown.len() == 0 {
        said
    } else {
        said + "\n"@ + shown
    }
}

/// What came of a command: what is shown of it, unless it ended with a code
/// other than zero.
pub open spec fn outcome(output: OutputView) -> Result<Seq<char>, ToolErrorView> {
    match output.exit_code {
        Some(code) if code != 0 => Err(types::failure(exit_message(code, shown(output)))),
        _ => Ok(shown(output)),
    }
}

/// What a command has written.
#[derive(Debug, PartialEq, Eq)]
pub struct RemoteOutput {
    pub stdout: String,
    pub stderr: String,
    pub exit_code: Option<u32>,
}

impl View for RemoteOutput {
    type V = OutputView;

    open spec fn view(&self) -> OutputView {
        OutputView { stdout: self.stdout@, stderr: self.stderr@, exit_code: self.exit_code }
    }
}

impl RemoteOutput {
    /// A command before its first message.
    pub fn new() -> (r: RemoteOutput)
        ensures
            r@ == no_output(),
    {
        let stdout = String::new();
        let stderr = String::new();
        assert(stdout@ =~= seq![]);
        assert(stderr@ =~= seq![]);
        RemoteOutput { stdout, stderr, exit_code: None }
    }

    /// Takes in one more message.
    pub fn absorb(&mut self, msg: &ChannelMsg)
        ensures
            final(self)@ == absorbed(old(self)@, msg@),
    {
        match msg {
            ChannelMsg::Data(data) => {
                self.stdout.append(encoding::from_utf8_lossy(data.as_slice()).as_str());
            },
            ChannelMsg::ExtendedData(data) => {
                self.stderr.append(encoding::from_utf8_lossy(data.as_slice()).as_str());
            },
            ChannelMsg::ExitStatus(code) => {
                self.exit_code = Some(*code);
            },
            ChannelMsg::Other => {},
        }
    }

    /// What came of the command.
    pub fn finish(self) -> (r: Result<String, ToolError>)
        ensures
            match r {
                Ok(text) => outcome(self@) == Ok::<Seq<char>, ToolErrorView>(text@),
                Err(e) => outcome(self@) == Err::<Seq<char>, ToolErrorView>(e@),
            },
    {
        let ghost output = self@;
        let parts = vec![self.stdout, self.stderr];
        assert(parts.deep_view() =~= seq![output.stdout, output.stderr]);
        let shown = text::join(&text::trim_all(&parts), "\n");
        if let Some(code) = self.exit_code {
            if code != 0 {
                let mut message = "Command exited with code ".to_string();
                message.append(numbers::decimal_text(code as u64).as_str());
                if !shown.as_str().is_empty() {
                    message.append("\n");
                    message.append(shown.as_str());
                }
                return Err(ToolError::internal_error(message));
            }
        }
        Ok(shown)
    }
}

/// What messages say of a command.
pub fn collect(msgs: &Vec<ChannelMsg>) -> (r: RemoteOutput)
    ensures
        r@ == collected(msgs.deep_view()),
{
    let ghost all = msgs.deep_view();
    let mut output = RemoteOutput::new();
    for i in 0..msgs.len()
        invariant
            all == msgs.deep_view(),
            output@ == collected(all.take(i as int)),
    {
        assert(all.take(i + 1).drop_last() =~= all.take(i as int));
        assert(all.take(i + 1).last() == msgs@[i as int]@);
        output.absorb(&msgs[i]);
    }
    assert(all.take(all.len() as int) =~= all);
    output
}

/// What a terminal shows of a message.
pub open spec fn terminal_text(msg: ChannelMsgView) -> Seq<char> {
    match msg {
        ChannelMsgView::Data(data) => encoding::utf8_lossy(data),
        ChannelMsgView::ExtendedData(data) => encoding::utf8_lossy(data),
        ChannelMsgView::ExitStatus(code) => "\n[exited with code "@ + numbers::decimal(code as nat)
            + "]\n"@,
        ChannelMsgView::Other => seq![],
    }
}

/// What a terminal shows of a message.
pub fn show_message(msg: &ChannelMsg) -> (r: String)
    ensures
        r@ == terminal_text(msg@),
{
    match msg {
        ChannelMsg::Data(data) => encoding::from_utf8_lossy(data.as_slice()),
        ChannelMsg::ExtendedData(data) => encoding::from_utf8_lossy(data.as_slice()),
        ChannelMsg::ExitStatus(code) => {
            let mut shown = "\n[exited with code ".to_string();
            shown.append(numbers::decimal_text(*code as u64).as_str());
            shown.append("]\n");
            shown
        },
        ChannelMsg::Other => {
            let nothing = String::new();
            assert(nothing@ =~= seq![]);
            nothing
        },
    }
}

} // verus!
