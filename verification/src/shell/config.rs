//! Which shell runs commands.

use crate::platform::Platform;
use vstd::prelude::*;

verus! {

/// A shell: its program, the arguments before the command, and what is added to
/// the environment. Which shell is the default depends on the platform, the
/// environment and the programs that are found: there is no `Default`, and
/// `platform_default` stands for it.
#[derive(Debug, Clone, PartialEq, Eq)]
pub struct ShellConfig {
    pub executable: String,
    pub args: Vec<String>,
    pub envs: Vec<(String, String)>,
}

/// A `ShellConfig` with its texts as sequences.
pub struct ConfigView {
    pub executable: Seq<char>,
    pub args: Seq<Seq<char>>,
    pub envs: Seq<(Seq<char>, Seq<char>)>,
}

impl View for ShellConfig {
    type V = ConfigView;

    open spec fn view(&self) -> ConfigView {
        ConfigView {
            executable: self.executable@,
            args: self.args.deep_view(),
            envs: self.envs.deep_view(),
        }
    }
}

/// The shell that a Unix user chose, or else bash.
pub open spec fn unix_shell(shell: Option<Seq<char>>) -> ConfigView {
    ConfigView {
        executable: match shell {
            Some(path) => path,
            None => "bash"@,
        },
        args: seq!["-c"@],
        envs: seq![],
    }
}

/// PowerShell at a path.
pub open spec fn powershell_at(path: Seq<char>) -> ConfigView {
    ConfigView {
        executable: path,
        args: seq!["-NoProfile"@, "-NonInteractive"@, "-Command"@],
        envs: seq![],
    }
}

/// The first of these that is there: the newer PowerShell, the older one, the
/// command interpreter of Windows.
pub open spec fn windows_shell(
    pwsh: Option<Seq<char>>,
    powershell: Option<Seq<char>>,
) -> ConfigView {
    match (pwsh, powershell) {
        (Some(path), _) => powershell_at(path),
        (None, Some(path)) => powershell_at(path),
        (None, None) => ConfigView { executable: "cmd"@, args: seq!["/c"@], envs: seq![] },
    }
}

/// The shell of a platform.
pub open spec fn platform_shell(
    platform: Platform,
    shell: Option<Seq<char>>,
    pwsh: Option<Seq<char>>,
    powershell: Option<Seq<char>>,
) -> ConfigView {
    match platform {
        Platform::Windows => windows_shell(pwsh, powershell),
        _ => unix_shell(shell),
    }
}

fn no_envs() -> (r: Vec<(String, String)>)
    ensures
        r.deep_view() == Seq::<(Seq<char>, Seq<char>)>::empty(),
{
    let none: Vec<(String, String)> = Vec::new();
    assert(none.deep_view() =~= seq![]);
    none
}

impl ShellConfig {
    /// The shell of a platform. `shell` is the user's choice, where the
    /// environment names one; `pwsh` and `powershell` are the paths of those
    /// programs, where they are found.
    pub fn platform_default(
        platform: Platform,
        shell: Option<String>,
        pwsh: Option<String>,
        powershell: Option<String>,
    ) -> (r: ShellConfig)
        ensures
            r@ == platform_shell(
                platform,
                shell.deep_view(),
                pwsh.deep_view(),
                powershell.deep_view(),
            ),
    {
        match platform {
            Platform::Windows => ShellConfig::detect_windows_shell(pwsh, powershell),
            _ => {
                let executable = match shell {
                    Some(path) => path,
                    None => "bash".to_string(),
                };
                let args = vec!["-c".to_string()];
                assert(args.deep_view() =~= seq!["-c"@]);
                ShellConfig { executable, args, envs: no_envs() }
            },
        }
    }

    /// The shell of a Windows system on which these programs are found.
    pub fn detect_windows_shell(
        pwsh: Option<String>,
        powershell: Option<String>,
    ) -> (r: ShellConfig)
        ensures
            r@ == windows_shell(pwsh.deep_view(), powershell.deep_view()),
    {
        let found = match pwsh {
            Some(path) => Some(path),
            None => powershell,
        };
        match found {
            Some(path) => {
                let args = vec![
                    "-NoProfile".to_string(),
                    "-NonInteractive".to_string(),
                    "-Command".to_string(),
                ];
                assert(args.deep_view() =~= seq!["-NoProfile"@, "-NonInteractive"@, "-Command"@]);
                ShellConfig { executable: path, args, envs: no_envs() }
            },
            None => {
                let args = vec!["/c".to_string()];
                assert(args.deep_view() =~= seq!["/c"@]);
                ShellConfig { executable: "cmd".to_string(), args, envs: no_envs() }
            },
        }
    }
}

} // verus!
