use goose_hostops::platform::Platform;
use goose_hostops::ssh::connect::expand_tilde;
use goose_hostops::ssh::exchange::{ChannelMsg, HashAlg, SshAction, SshReply, SshStep};
use goose_hostops::ssh::server::SshServer;
use goose_hostops::ssh::types::{
    default_port, ErrorCode, SessionAction, SessionReply, SshExecuteParams, SshSessionParams,
    ToolError,
};
use std::path::PathBuf;

fn session_params(action: SessionAction) -> SshSessionParams {
    SshSessionParams {
        action,
        session_id: None,
        host: None,
        username: None,
        password: None,
        key_path: None,
        port: None,
        command: None,
    }
}

fn refused<T>(step: SshStep<T>) -> ToolError {
    match step {
        SshStep::Done(Err(e)) => e,
        _ => panic!("not refused"),
    }
}

fn execute_params(password: Option<&str>, key_path: Option<&str>) -> SshExecuteParams {
    SshExecuteParams {
        host: "example.com".to_string(),
        username: "alice".to_string(),
        command: "whoami".to_string(),
        password: password.map(str::to_string),
        key_path: key_path.map(str::to_string),
        port: 22,
    }
}

fn open_session(server: &mut SshServer) -> String {
    let mut p = session_params(SessionAction::Open);
    p.host = Some("example.com".to_string());
    p.username = Some("alice".to_string());
    p.password = Some("secret".to_string());
    let mut replies: Vec<SshReply> = Vec::new();
    loop {
        match server.ssh_session(&p, None, Platform::Unix, &replies) {
            SshStep::Do(SshAction::AuthPassword { .. }) => replies.push(SshReply::Admitted(true)),
            SshStep::Do(_) => replies.push(SshReply::Finished),
            SshStep::Done(Ok(reply)) => return reply.opened.unwrap(),
            SshStep::Done(Err(e)) => panic!("{:?}", e),
        }
    }
}

#[test]
fn server_creation() {
    let server = SshServer::new();
    assert!(!server.instructions().is_empty());
}

#[test]
fn get_info_metadata() {
    let server = SshServer::new();
    let info = server.get_info("1.2.3");
    assert_eq!(info.name, "goose-ssh");
    assert!(info.instructions.contains("ssh_execute"));
    assert_eq!(info.version, "1.2.3");
    assert!(info.tools);
    let lines: Vec<&str> = info.instructions.lines().collect();
    assert_eq!(lines[0], "SSH extension for remote command execution.");
    assert_eq!(lines[4], "  open  → start interactive shell (returns session_id)");
    assert_eq!(lines.len(), 11);
    assert!(info.instructions.ends_with("with password as passphrase.\n"));
}

#[test]
fn execute_missing_auth() {
    let server = SshServer::new();
    let result = server.ssh_execute(&execute_params(None, None), None, Platform::Unix, &vec![]);
    let err = refused(result);
    assert_eq!(err.code, ErrorCode::InvalidParams);
    assert!(err.message.contains("password or key_path"));
}

#[test]
fn session_open_missing_host() {
    let mut server = SshServer::new();
    let mut p = session_params(SessionAction::Open);
    p.username = Some("alice".into());
    p.password = Some("secret".into());
    let err = refused(server.ssh_session(&p, None, Platform::Unix, &vec![]));
    assert!(err.message.contains("host required"));
    assert_eq!(err.code, ErrorCode::InvalidParams);
}

#[test]
fn session_open_missing_username() {
    let mut server = SshServer::new();
    let mut p = session_params(SessionAction::Open);
    p.host = Some("example.com".into());
    p.password = Some("secret".into());
    let err = refused(server.ssh_session(&p, None, Platform::Unix, &vec![]));
    assert!(err.message.contains("username required"));
}

#[test]
fn session_run_missing_session_id() {
    let mut server = SshServer::new();
    let mut p = session_params(SessionAction::Run);
    p.command = Some("ls".into());
    let err = refused(server.ssh_session(&p, None, Platform::Unix, &vec![]));
    assert!(err.message.contains("session_id required"));
}

#[test]
fn session_run_not_found() {
    let mut server = SshServer::new();
    let mut p = session_params(SessionAction::Run);
    p.session_id = Some("nonexistent".into());
    p.command = Some("ls".into());
    let err = refused(server.ssh_session(&p, None, Platform::Unix, &vec![]));
    assert!(err.message.contains("No session"));
}

#[test]
fn session_read_not_found() {
    let mut server = SshServer::new();
    let mut p = session_params(SessionAction::Read);
    p.session_id = Some("nonexistent".into());
    assert_eq!(
        server.ssh_session(&p, None, Platform::Unix, &vec![]),
        SshStep::Do(SshAction::Pause { millis: 200 })
    );
    let err = refused(server.ssh_session(&p, None, Platform::Unix, &vec![SshReply::Finished]));
    assert!(err.message.contains("No session"));
}

#[test]
fn session_close_not_found() {
    let mut server = SshServer::new();
    let mut p = session_params(SessionAction::Close);
    p.session_id = Some("nonexistent".into());
    let err = refused(server.ssh_session(&p, None, Platform::Unix, &vec![]));
    assert!(err.message.contains("No session"));
    assert_eq!(err.message, "No session: nonexistent");
}

#[test]
fn session_run_missing_command() {
    let mut server = SshServer::new();
    let mut p = session_params(SessionAction::Run);
    p.session_id = Some("ssh-1".into());
    let err = refused(server.ssh_session(&p, None, Platform::Unix, &vec![]));
    assert!(err.message.contains("command required"));
}

#[test]
fn expand_tilde_with_home() {
    let home = "/home/alice";
    let path = expand_tilde("~/.ssh/id_ed25519", Some(home), Platform::Unix);
    assert_eq!(PathBuf::from(path), PathBuf::from(home).join(".ssh/id_ed25519"));
    assert_eq!(expand_tilde("~/.ssh/id_ed25519", None, Platform::Unix), "~/.ssh/id_ed25519");
    assert_eq!(expand_tilde("~//etc/key", Some(home), Platform::Unix), "/etc/key");
    assert_eq!(expand_tilde("~", Some(home), Platform::Unix), "~");
}

#[test]
fn expand_tilde_absolute() {
    let path = expand_tilde("/etc/ssh/key", Some("/home/alice"), Platform::Unix);
    assert_eq!(PathBuf::from(path), PathBuf::from("/etc/ssh/key"));
}

#[test]
fn default_port_is_the_ssh_port() {
    assert_eq!(default_port(), 22);
}

#[test]
fn key_login_asks_in_order() {
    let server = SshServer::new();
    let p = execute_params(Some("open sesame"), Some("~/.ssh/id"));
    let mut replies: Vec<SshReply> = Vec::new();
    let step = |replies: &Vec<SshReply>| match server.ssh_execute(&p, Some("/home/a"), Platform::Unix, replies) {
        SshStep::Do(action) => action,
        SshStep::Done(r) => panic!("{:?}", r),
    };
    assert_eq!(
        step(&replies),
        SshAction::Connect { host: "example.com".into(), port: 22, inactivity_secs: 60 }
    );
    replies.push(SshReply::Finished);
    assert_eq!(
        step(&replies),
        SshAction::LoadKey {
            path: "/home/a/.ssh/id".into(),
            passphrase: Some("open sesame".into()),
        }
    );
    replies.push(SshReply::Finished);
    assert_eq!(step(&replies), SshAction::BestRsaHash);
    replies.push(SshReply::RsaHash(Some(Some(HashAlg::Sha512))));
    assert_eq!(
        step(&replies),
        SshAction::AuthPublicKey { username: "alice".into(), hash_alg: Some(HashAlg::Sha512) }
    );
    replies.push(SshReply::Admitted(true));
    assert_eq!(step(&replies), SshAction::OpenChannel);
    replies.push(SshReply::Finished);
    assert_eq!(step(&replies), SshAction::Exec { want_reply: true, command: "whoami".into() });
    replies.push(SshReply::Finished);
    assert_eq!(step(&replies), SshAction::Collect);
}

#[test]
fn unknown_rsa_hash_is_no_hash() {
    let server = SshServer::new();
    let p = execute_params(None, Some("/k"));
    for hash in [None, Some(None)] {
        let replies = vec![SshReply::Finished, SshReply::Finished, SshReply::RsaHash(hash)];
        assert_eq!(
            server.ssh_execute(&p, None, Platform::Unix, &replies),
            SshStep::Do(SshAction::AuthPublicKey { username: "alice".into(), hash_alg: None })
        );
    }
}

fn run_command(msgs: Vec<ChannelMsg>) -> Result<String, ToolError> {
    let server = SshServer::new();
    let p = execute_params(Some("secret"), None);
    let mut replies = vec![
        SshReply::Finished,
        SshReply::Admitted(true),
        SshReply::Finished,
        SshReply::Finished,
        SshReply::Messages(msgs),
    ];
    assert_eq!(
        server.ssh_execute(&p, None, Platform::Unix, &replies),
        SshStep::Do(SshAction::Disconnect { description: "".into(), language: "en".into() })
    );
    replies.push(SshReply::Failed("gone".into()));
    match server.ssh_execute(&p, None, Platform::Unix, &replies) {
        SshStep::Done(r) => r,
        SshStep::Do(action) => panic!("{:?}", action),
    }
}

#[test]
fn command_output_is_trimmed_and_joined() {
    let out = run_command(vec![
        ChannelMsg::Data(b"  one\n".to_vec()),
        ChannelMsg::ExtendedData(b"warn\n".to_vec()),
        ChannelMsg::Other,
        ChannelMsg::Data(b"two\n".to_vec()),
        ChannelMsg::ExitStatus(0),
    ]);
    assert_eq!(out.unwrap(), "one\ntwo\nwarn");
    assert_eq!(run_command(vec![ChannelMsg::ExtendedData(b" e ".to_vec())]).unwrap(), "e");
    assert_eq!(run_command(vec![]).unwrap(), "");
    let odd = run_command(vec![ChannelMsg::Data(vec![0x61, 0xff, 0x62])]);
    assert_eq!(odd.unwrap(), "a\u{fffd}b");
}

#[test]
fn failing_commands_tell_their_code() {
    let silent = run_command(vec![ChannelMsg::ExitStatus(3)]).unwrap_err();
    assert_eq!(silent.code, ErrorCode::InternalError);
    assert_eq!(silent.message, "Command exited with code 3");
    let loud = run_command(vec![
        ChannelMsg::ExitStatus(0),
        ChannelMsg::Data(b"x\n".to_vec()),
        ChannelMsg::ExitStatus(4294967295),
    ]);
    assert_eq!(loud.unwrap_err().message, "Command exited with code 4294967295\nx");
    let fine = run_command(vec![ChannelMsg::ExitStatus(1), ChannelMsg::ExitStatus(0)]);
    assert_eq!(fine.unwrap(), "");
}

#[test]
fn each_failure_is_told() {
    let server = SshServer::new();
    let key = execute_params(None, Some("/k"));
    let word = execute_params(Some("secret"), None);
    let fail = || SshReply::Failed("boom".to_string());
    let done = || SshReply::Finished;
    let yes = || SshReply::Admitted(true);
    let hash = || SshReply::RsaHash(None);
    let cases = vec![
        (&word, vec![fail()], "SSH connection failed: boom"),
        (&key, vec![done(), fail()], "Failed to load key: boom"),
        (&key, vec![done(), done(), fail()], "boom"),
        (&key, vec![done(), done(), hash(), fail()], "Key auth failed: boom"),
        (
            &key,
            vec![done(), done(), hash(), SshReply::Admitted(false)],
            "Authentication rejected by server",
        ),
        (&word, vec![done(), fail()], "Password auth failed: boom"),
        (&word, vec![done(), SshReply::Admitted(false)], "Authentication rejected by server"),
        (&word, vec![done(), yes(), fail()], "Channel open failed: boom"),
        (&word, vec![done(), yes(), done(), fail()], "Exec failed: boom"),
    ];
    for (p, replies, message) in cases {
        let e = refused(server.ssh_execute(p, None, Platform::Unix, &replies));
        assert_eq!(e.code, ErrorCode::InternalError);
        assert_eq!(e.message, message);
    }
}

#[test]
fn each_failure_of_opening_is_told() {
    let mut server = SshServer::new();
    let mut p = session_params(SessionAction::Open);
    p.host = Some("h".into());
    p.username = Some("u".into());
    p.password = Some("pw".into());
    p.port = Some(2222);
    assert_eq!(
        server.ssh_session(&p, None, Platform::Unix, &vec![]),
        SshStep::Do(SshAction::Connect { host: "h".into(), port: 2222, inactivity_secs: 60 })
    );
    let mut replies = vec![SshReply::Finished, SshReply::Admitted(true)];
    for message in ["Channel open failed: x", "PTY request failed: x", "Shell request failed: x"] {
        replies.push(SshReply::Failed("x".into()));
        assert_eq!(refused(server.ssh_session(&p, None, Platform::Unix, &replies)).message, message);
        replies.pop();
        replies.push(SshReply::Finished);
    }
    let pty = server.ssh_session(&p, None, Platform::Unix, &replies[..3].iter().map(|r| match r {
        SshReply::Admitted(b) => SshReply::Admitted(*b),
        _ => SshReply::Finished,
    }).collect());
    assert_eq!(
        pty,
        SshStep::Do(SshAction::RequestPty {
            want_reply: false,
            term: "xterm-256color".into(),
            columns: 120,
            rows: 40,
            pixel_width: 0,
            pixel_height: 0,
        })
    );
}

#[test]
fn sessions_are_named_in_order() {
    let mut server = SshServer::new();
    assert_eq!(open_session(&mut server), "ssh-1");
    assert_eq!(open_session(&mut server), "ssh-2");
    let mut close = session_params(SessionAction::Close);
    close.session_id = Some("ssh-2".into());
    server.ssh_session(&close, None, Platform::Unix, &vec![]);
    assert_eq!(open_session(&mut server), "ssh-3");
}

#[test]
fn reading_takes_what_was_written() {
    let mut server = SshServer::default();
    let one = open_session(&mut server);
    let two = open_session(&mut server);
    server.receive(&one, &ChannelMsg::Data(b"a\n".to_vec()));
    server.receive(&two, &ChannelMsg::Data(b"other".to_vec()));
    server.receive(&one, &ChannelMsg::ExtendedData(b"b".to_vec()));
    server.receive(&one, &ChannelMsg::Other);
    server.receive(&one, &ChannelMsg::ExitStatus(7));
    server.receive("ssh-9", &ChannelMsg::Data(b"lost".to_vec()));
    let mut read = session_params(SessionAction::Read);
    read.session_id = Some(one.clone());
    let paused = vec![SshReply::Finished];
    let text = |text: &str| {
        SshStep::Done(Ok(SessionReply { text: text.to_string(), opened: None }))
    };
    assert_eq!(
        server.ssh_session(&read, None, Platform::Unix, &paused),
        text("a\nb\n[exited with code 7]\n")
    );
    assert_eq!(server.ssh_session(&read, None, Platform::Unix, &paused), text("(no new output)"));
    read.session_id = Some(two);
    assert_eq!(server.ssh_session(&read, None, Platform::Unix, &paused), text("other"));
    assert!(server.drain_output("ssh-9").is_err());
}

#[test]
fn running_sends_a_line_and_reads() {
    let mut server = SshServer::new();
    let id = open_session(&mut server);
    let mut run = session_params(SessionAction::Run);
    run.session_id = Some(id.clone());
    run.command = Some("ls".into());
    let mut replies: Vec<SshReply> = Vec::new();
    assert_eq!(
        server.ssh_session(&run, None, Platform::Unix, &replies),
        SshStep::Do(SshAction::Send { session_id: id.clone(), data: "ls\n".into() })
    );
    assert_eq!(
        refused(server.ssh_session(&run, None, Platform::Unix, &vec![SshReply::Failed("broken".into())])).message,
        "Send failed: broken"
    );
    replies.push(SshReply::Finished);
    assert_eq!(
        server.ssh_session(&run, None, Platform::Unix, &replies),
        SshStep::Do(SshAction::Pause { millis: 100 })
    );
    server.receive(&id, &ChannelMsg::Data(b"file\n".to_vec()));
    replies.push(SshReply::Finished);
    assert_eq!(
        server.ssh_session(&run, None, Platform::Unix, &replies),
        SshStep::Done(Ok(SessionReply { text: "file\n".into(), opened: None }))
    );
}

#[test]
fn closing_forgets_the_session_and_ends_it() {
    let mut server = SshServer::new();
    let id = open_session(&mut server);
    let mut close = session_params(SessionAction::Close);
    close.session_id = Some(id.clone());
    let mut replies: Vec<SshReply> = Vec::new();
    let expected = vec![
        SshAction::SendEof { session_id: id.clone() },
        SshAction::CloseChannel { session_id: id.clone() },
        SshAction::DisconnectSession {
            session_id: id.clone(),
            description: "".into(),
            language: "en".into(),
        },
        SshAction::StopReader { session_id: id.clone() },
    ];
    for action in expected {
        assert_eq!(server.ssh_session(&close, None, Platform::Unix, &replies), SshStep::Do(action));
        replies.push(SshReply::Failed("ignored".into()));
    }
    assert_eq!(
        server.ssh_session(&close, None, Platform::Unix, &replies),
        SshStep::Done(Ok(SessionReply { text: format!("Session closed: {id}"), opened: None }))
    );
    assert_eq!(
        refused(server.ssh_session(&close, None, Platform::Unix, &vec![])).message,
        format!("No session: {id}")
    );
    close.session_id = None;
    assert_eq!(
        refused(server.ssh_session(&close, None, Platform::Unix, &vec![])).message,
        "session_id required"
    );
}
