//! How a command is started.

use crate::platform::Platform;
use crate::shell::config::{ConfigView, ShellConfig};
use vstd::prelude::*;

verus! {

/// Where a stream of a process leads.
#[derive(Debug, Clone, Copy, PartialEq, Eq, Structural)]
pub enum Stream {
    /// To the process that started it.
    Piped,
    /// Nowhere.
    Null,
}

/// A process to start.
#[derive(Debug, PartialEq, Eq)]
pub struct CommandPlan {
    pub program: String,
    /// Where it runs, if not where its parent does.
    pub working_dir: Option<String>,
    pub stdin: Stream,
    pub stdout: Stream,
    pub stderr: Stream,
    /// Whether it is killed when nobody holds it any more.
    pub kill_on_drop: bool,
    /// Variables to set, one after the other.
    pub envs: Vec<(String, String)>,
    /// The arguments before the command.
    pub args: Vec<String>,
    /// The command, the last argument.
    pub command: String,
    /// Whether the command is handed over as it is, without the quoting of
    /// arguments.
    pub raw_command: bool,
    /// Whether it leads a process group of its own.
    pub own_group: bool,
}

/// A `CommandPlan` with its texts as sequences.
pub struct PlanView {
    pub program: Seq<char>,
    pub working_dir: Option<Seq<char>>,
    pub stdin: Stream,
    pub stdout: Stream,
    pub stderr: Stream,
    pub kill_on_drop: bool,
    pub envs: Seq<(Seq<char>, Seq<char>)>,
    pub args: Seq<Seq<char>>,
    pub command: Seq<char>,
    pub raw_command: bool,
    pub own_group: bool,
}

impl View for CommandPlan {
    type V = PlanView;

    open spec fn view(&self) -> PlanView {
        PlanView {
            program: self.program@,
            working_dir: self.working_dir.deep_view(),
            stdin: self.stdin,
            stdout: self.stdout,
            stderr: self.stderr,
            kill_on_drop: self.kill_on_drop,
            envs: self.envs.deep_view(),
            args: self.args.deep_view(),
            command: self.command@,
            raw_command: self.raw_command,
            own_group: self.own_group,
        }
    }
}

/// What stands for an editor where git wants one.
pub const NO_GIT_EDITOR: &'static str =
    "sh -c 'echo \"Interactive Git commands are not supported in this environment.\" >&2; exit 1'";

/// What stands for an editor elsewhere.
pub const NO_EDITOR: &'static str =
    "sh -c 'echo \"Interactive editor not available in this environment.\" >&2; exit 1'";

/// The variables of every command: they mark it as run by an agent, and keep it
/// from waiting for a user.
pub open spec fn agent_envs() -> Seq<(Seq<char>, Seq<char>)> {
    seq![
        ("GOOSE_TERMINAL"@, "1"@),
        ("AGENT"@, "goose"@),
        ("GIT_EDITOR"@, NO_GIT_EDITOR@),
        ("GIT_SEQUENCE_EDITOR"@, NO_GIT_EDITOR@),
        ("VISUAL"@, NO_EDITOR@),
        ("EDITOR"@, NO_EDITOR@),
        ("GIT_TERMINAL_PROMPT"@, "0"@),
        ("GIT_PAGER"@, "cat"@),
    ]
}

/// The process that runs a command in a shell.
pub open spec fn shell_plan(
    config: ConfigView,
    command: Seq<char>,
    working_dir: Option<Seq<char>>,
    platform: Platform,
) -> PlanView {
    PlanView {
        program: config.executable,
        working_dir,
        stdin: Stream::Null,
        stdout: Stream::Piped,
        stderr: Stream::Piped,
        kill_on_drop: true,
        envs: agent_envs() + config.envs,
        args: config.args,
        command,
        raw_command: platform is Windows,
        own_group: !(platform is Windows),
    }
}

fn pair(key: &str, value: &str) -> (r: (String, String))
    ensures
        r.0@ == key@,
        r.1@ == value@,
{
    (key.to_string(), value.to_string())
}

fn fixed_envs() -> (r: Vec<(String, String)>)
    ensures
        r.deep_view() == agent_envs(),
{
    let envs = vec![
        pair("GOOSE_TERMINAL", "1"),
        pair("AGENT", "goose"),
        pair("GIT_EDITOR", NO_GIT_EDITOR),
        pair("GIT_SEQUENCE_EDITOR", NO_GIT_EDITOR),
        pair("VISUAL", NO_EDITOR),
        pair("EDITOR", NO_EDITOR),
        pair("GIT_TERMINAL_PROMPT", "0"),
        pair("GIT_PAGER", "cat"),
    ];
    assert(envs.deep_view() =~= agent_envs());
    envs
}

fn copy_texts(texts: &Vec<String>) -> (r: Vec<String>)
    ensures
        r.deep_view() == texts.deep_view(),
{
    let mut out: Vec<String> = Vec::new();
    for i in 0..texts.len()
        invariant
            out@.len() == i,
            forall|k: int| 0 <= k < i ==> (#[trigger] out@[k])@ == texts@[k]@,
    {
        out.push(texts[i].clone());
    }
    assert(out.deep_view() =~= texts.deep_view());
    out
}

/// The process that runs a command in a shell. On Unix it leads a process group
/// of its own, so that what it starts can be killed with it; on Windows the
/// command is handed over as it is, because the shells there do not undo the
/// quoting of arguments.
pub fn configure_shell_command(
    shell_config: &ShellConfig,
    command: &str,
    working_dir: Option<&str>,
    platform: Platform,
) -> (r: CommandPlan)
    ensures
        r@ == shell_plan(shell_config@, command@, working_dir.deep_view(), platform),
{
    let windows = match platform {
        Platform::Windows => true,
        _ => false,
    };
    let dir = match working_dir {
        Some(dir) => Some(dir.to_string()),
        None => None,
    };
    let mut envs = fixed_envs();
    let ghost given = shell_config.envs.deep_view();
    assert(envs.deep_view() =~= agent_envs() + given.take(0));
    for i in 0..shell_config.envs.len()
        invariant
            given == shell_config.envs.deep_view(),
            envs.deep_view() == agent_envs() + given.take(i as int),
    {
        let ghost before = envs.deep_view();
        let entry = &shell_config.envs[i];
        let added = pair(entry.0.as_str(), entry.1.as_str());
        assert(given[i as int] == (added.0@, added.1@));
        envs.push(added);
        assert(envs.deep_view() =~= before.push(given[i as int]));
        assert(given.take(i + 1) =~= given.take(i as int).push(given[i as int]));
    }
    assert(given.take(given.len() as int) =~= given);
    CommandPlan {
        program: shell_config.executable.clone(),
        working_dir: dir,
        stdin: Stream::Null,
        stdout: Stream::Piped,
        stderr: Stream::Piped,
        kill_on_drop: true,
        envs,
        args: copy_texts(&shell_config.args),
        command: command.to_string(),
        raw_command: windows,
        own_group: !windows,
    }
}

} // verus!
