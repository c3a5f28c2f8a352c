use goose_hostops::platform::Platform;
use goose_hostops::shell::args::split_shell_args;
use goose_hostops::shell::command::{
    configure_shell_command, CommandPlan, Stream, NO_EDITOR, NO_GIT_EDITOR,
};
use goose_hostops::shell::config::ShellConfig;
use goose_hostops::shell::process::{kill_process_group, KillStep, Signal};
use goose_hostops::shell::texts::{expand_path, is_absolute_path, normalize_line_endings};

#[test]
fn split_shell_args_simple() {
    assert_eq!(split_shell_args("ls -la /tmp"), vec!["ls", "-la", "/tmp"]);
}

#[test]
fn split_shell_args_double_quoted() {
    assert_eq!(
        split_shell_args(r#"findstr /n "class MainForm" *.cs"#),
        vec!["findstr", "/n", "class MainForm", "*.cs"]
    );
}

#[test]
fn split_shell_args_single_quoted() {
    assert_eq!(
        split_shell_args("grep 'hello world' file.txt"),
        vec!["grep", "hello world", "file.txt"]
    );
}

#[test]
fn split_shell_args_mixed_quotes() {
    assert_eq!(
        split_shell_args(r#"echo "it's" 'a "test"'"#),
        vec!["echo", "it's", r#"a "test""#]
    );
}

#[test]
fn split_shell_args_empty() {
    assert!(split_shell_args("").is_empty());
    assert!(split_shell_args("   ").is_empty());
}

#[test]
fn split_shell_args_extra_whitespace() {
    assert_eq!(
        split_shell_args("  cmd   arg1   arg2  "),
        vec!["cmd", "arg1", "arg2"]
    );
}

#[test]
fn split_shell_args_keeps_no_empty_words() {
    assert!(split_shell_args("''").is_empty());
    assert_eq!(split_shell_args("a '' b"), vec!["a", "b"]);
    assert_eq!(split_shell_args("a\"\"b c''"), vec!["ab", "c"]);
}

#[test]
fn split_shell_args_takes_unicode_space_and_open_quotes() {
    assert_eq!(split_shell_args("a\u{3000}b\tc\nd"), vec!["a", "b", "c", "d"]);
    assert_eq!(split_shell_args("a 'b c"), vec!["a", "b c"]);
    assert_eq!(split_shell_args("pre\"x y\"post z"), vec!["prex ypost", "z"]);
}

#[test]
fn white_space_joins_words_of_both_sides() {
    let a = "echo 'one two'";
    let b = "\"three four\" five";
    let both = format!("{a} {b}");
    let mut words = split_shell_args(a);
    words.extend(split_shell_args(b));
    assert_eq!(split_shell_args(&both), words);
    assert_eq!(words.len(), 4);
}

#[test]
fn tilde_stands_for_the_home_directory() {
    for platform in [Platform::Unix, Platform::MacOs] {
        let home = Some("/home/u");
        assert_eq!(expand_path("~", platform, home, None, None), "/home/u");
        assert_eq!(expand_path("~/x/~", platform, home, None, None), "/home/u/x/~");
        assert_eq!(expand_path("~other/x", platform, home, None, None), "~other/x");
        assert_eq!(expand_path("~\\x", platform, home, None, None), "~\\x");
        assert_eq!(expand_path("a/~/b", platform, home, None, None), "a/~/b");
        assert_eq!(expand_path("~/x", platform, None, None, None), "~/x");
        assert_eq!(expand_path("", platform, home, None, None), "");
        assert_eq!(
            expand_path("%APPDATA%/x", platform, home, Some("p"), Some("a")),
            "%APPDATA%/x"
        );
    }
}

#[test]
fn windows_variables_are_expanded() {
    let go = |path: &str, profile: Option<&str>, data: Option<&str>| {
        expand_path(path, Platform::Windows, Some("/home/u"), profile, data)
    };
    assert_eq!(go("%USERPROFILE%\\x", Some("C:\\u"), None), "C:\\u\\x");
    assert_eq!(go("%APPDATA%\\%APPDATA%", None, Some("d")), "d\\d");
    assert_eq!(go("%USERPROFILE%\\x", None, None), "\\x");
    assert_eq!(go("~/x", Some("p"), Some("a")), "~/x");
    // The value of the first variable may name the second one.
    assert_eq!(go("%USERPROFILE%", Some("%APPDATA%"), Some("d")), "d");
    assert_eq!(go("%APPDATA%", Some("p"), Some("%USERPROFILE%")), "%USERPROFILE%");
}

#[test]
fn absolute_paths_by_platform() {
    assert!(is_absolute_path("/x", Platform::Unix));
    assert!(is_absolute_path("/", Platform::MacOs));
    assert!(!is_absolute_path("x/y", Platform::Unix));
    assert!(!is_absolute_path("", Platform::Unix));
    assert!(!is_absolute_path("C:\\x", Platform::Unix));
    assert!(is_absolute_path("C:\\x", Platform::Windows));
    assert!(is_absolute_path("\\\\host\\share", Platform::Windows));
    assert!(!is_absolute_path("/x", Platform::Windows));
    assert!(!is_absolute_path("\\x", Platform::Windows));
    assert!(is_absolute_path("x:\\", Platform::Windows));
}

#[test]
fn line_endings_by_platform() {
    let s = "a\r\nb\nc\rd\r\n";
    assert_eq!(normalize_line_endings(s, Platform::Unix), "a\nb\nc\rd\n");
    assert_eq!(normalize_line_endings(s, Platform::MacOs), "a\nb\nc\rd\n");
    assert_eq!(normalize_line_endings(s, Platform::Windows), "a\r\nb\r\nc\rd\r\n");
    assert_eq!(normalize_line_endings("", Platform::Windows), "");
}

#[test]
fn windows_line_endings_are_stable() {
    for s in ["a\nb", "a\r\nb\n\n", "\r\r\n", "\r", "\n\r\n"] {
        let once = normalize_line_endings(s, Platform::Windows);
        assert_eq!(normalize_line_endings(&once, Platform::Windows), once);
        assert_eq!(
            normalize_line_endings(&once, Platform::Unix),
            normalize_line_endings(s, Platform::Unix)
        );
    }
}

#[test]
fn unix_line_endings_keep_a_doubled_return() {
    assert_eq!(normalize_line_endings("\r\r\n", Platform::Unix), "\r\n");
    assert_eq!(normalize_line_endings("\r\n\r\n", Platform::Unix), "\n\n");
}

#[test]
fn unix_shell_is_the_users_or_bash() {
    let mine = ShellConfig::platform_default(
        Platform::Unix,
        Some("/bin/zsh".to_string()),
        Some("pwsh".to_string()),
        None,
    );
    assert_eq!(mine.executable, "/bin/zsh");
    assert_eq!(mine.args, vec!["-c"]);
    assert!(mine.envs.is_empty());
    let none = ShellConfig::platform_default(Platform::MacOs, None, None, None);
    assert_eq!(none.executable, "bash");
}

#[test]
fn windows_shell_prefers_the_newer_powershell() {
    let find = |pwsh: Option<&str>, powershell: Option<&str>| {
        ShellConfig::platform_default(
            Platform::Windows,
            Some("/bin/zsh".to_string()),
            pwsh.map(str::to_string),
            powershell.map(str::to_string),
        )
    };
    let flags = vec!["-NoProfile", "-NonInteractive", "-Command"];
    let new = find(Some("C:\\pwsh.exe"), Some("C:\\ps.exe"));
    assert_eq!(new.executable, "C:\\pwsh.exe");
    assert_eq!(new.args, flags);
    let old = find(None, Some("C:\\ps.exe"));
    assert_eq!(old.executable, "C:\\ps.exe");
    assert_eq!(old.args, flags);
    let cmd = find(None, None);
    assert_eq!(cmd.executable, "cmd");
    assert_eq!(cmd.args, vec!["/c"]);
}

fn sample_plan(platform: Platform) -> CommandPlan {
    let config = ShellConfig {
        executable: "sh".to_string(),
        args: vec!["-l".to_string(), "-c".to_string()],
        envs: vec![
            ("X".to_string(), "1".to_string()),
            ("AGENT".to_string(), "other".to_string()),
        ],
    };
    configure_shell_command(&config, "echo \"hi\"", Some("/work"), platform)
}

#[test]
fn shell_commands_are_planned() {
    let plan = sample_plan(Platform::Unix);
    assert_eq!(plan.program, "sh");
    assert_eq!(plan.working_dir.as_deref(), Some("/work"));
    assert_eq!(plan.stdin, Stream::Null);
    assert_eq!(plan.stdout, Stream::Piped);
    assert_eq!(plan.stderr, Stream::Piped);
    assert!(plan.kill_on_drop);
    assert_eq!(plan.args, vec!["-l", "-c"]);
    assert_eq!(plan.command, "echo \"hi\"");
    assert!(!plan.raw_command);
    assert!(plan.own_group);
    let expected = [
        ("GOOSE_TERMINAL", "1"),
        ("AGENT", "goose"),
        ("GIT_EDITOR", NO_GIT_EDITOR),
        ("GIT_SEQUENCE_EDITOR", NO_GIT_EDITOR),
        ("VISUAL", NO_EDITOR),
        ("EDITOR", NO_EDITOR),
        ("GIT_TERMINAL_PROMPT", "0"),
        ("GIT_PAGER", "cat"),
        ("X", "1"),
        ("AGENT", "other"),
    ];
    let found: Vec<(&str, &str)> =
        plan.envs.iter().map(|(k, v)| (k.as_str(), v.as_str())).collect();
    assert_eq!(found, expected);
    assert_eq!(
        NO_GIT_EDITOR,
        r#"sh -c 'echo "Interactive Git commands are not supported in this environment." >&2; exit 1'"#
    );
    assert_eq!(
        NO_EDITOR,
        r#"sh -c 'echo "Interactive editor not available in this environment." >&2; exit 1'"#
    );
}

#[test]
fn shell_commands_are_raw_on_windows() {
    let plan = sample_plan(Platform::Windows);
    assert!(plan.raw_command);
    assert!(!plan.own_group);
    assert!(sample_plan(Platform::MacOs).own_group);
}

#[test]
fn shell_variables_override_fixed_ones() {
    let plan = sample_plan(Platform::Unix);
    let last = plan.envs.iter().filter(|(k, _)| k == "AGENT").last();
    assert_eq!(last.map(|(_, v)| v.as_str()), Some("other"));
}

#[test]
fn unix_groups_are_terminated_then_killed() {
    assert_eq!(
        kill_process_group(Some(42), Platform::Unix),
        vec![
            KillStep::Signal { target: -42, signal: Signal::Terminate },
            KillStep::Pause { millis: 1000 },
            KillStep::Signal { target: -42, signal: Signal::Kill },
            KillStep::KillChild,
        ]
    );
    assert_eq!(kill_process_group(None, Platform::Unix), vec![KillStep::KillChild]);
}

#[test]
fn group_targets_wrap_like_signed_numbers() {
    for pid in [1_u32, 0x7fff_ffff, 0x8000_0001, u32::MAX] {
        let steps = kill_process_group(Some(pid), Platform::MacOs);
        let target = -(pid as i32);
        assert_eq!(steps[0], KillStep::Signal { target, signal: Signal::Terminate });
    }
}

#[test]
fn windows_trees_are_killed_by_taskkill() {
    assert_eq!(
        kill_process_group(Some(4294967295), Platform::Windows),
        vec![
            KillStep::Run {
                program: "taskkill".to_string(),
                args: ["/F", "/T", "/PID", "4294967295"].iter().map(|s| s.to_string()).collect(),
            },
            KillStep::KillChild,
        ]
    );
    assert_eq!(kill_process_group(None, Platform::Windows), vec![KillStep::KillChild]);
}
