//! Connecting to a host and logging in.

use crate::paths;
use crate::platform::Platform;
use crate::ssh::exchange;
use crate::ssh::exchange::{
    HashAlg, SshAction, SshActionView, SshReply, SshReplyView, SshStep, SshStepView,
};
use crate::ssh::types;
use crate::ssh::types::ToolError;
use crate::text;
use vstd::prelude::*;

verus! {

/// After how many seconds of silence a connection is given up.
pub const INACTIVITY_SECS: u64 = 60;

/// A path in which `~/` at the beginning stands for the home directory, where
/// that is known.
pub open spec fn without_tilde(
    path: Seq<char>,
    home: Option<Seq<char>>,
    platform: Platform,
) -> Seq<char> {
    match (text::stripped(path, "~/"@), home) {
        (Some(rest), Some(dir)) => paths::joined_path(dir, rest, platform),
        _ => path,
    }
}

/// A path in which `~/` at the beginning stands for the home directory, where
/// that is known.
pub fn expand_tilde(path: &str, home: Option<&str>, platform: Platform) -> (r: String)
    ensures
        r@ == without_tilde(path@, home.deep_view(), platform),
{
    match (text::strip_prefix(path, "~/"), home) {
        (Some(rest), Some(dir)) => paths::path_join(dir, rest.as_str(), platform),
        _ => path.to_string(),
    }
}

/// The hash that the host takes with RSA keys, by the reply at place `at`.
pub open spec fn rsa_hash(replies: Seq<SshReplyView>, at: int) -> SshStepView<Option<HashAlg>> {
    match exchange::reply_at(replies, at) {
        Some(SshReplyView::RsaHash(Some(hash))) => SshStepView::Done(Ok(hash)),
        Some(SshReplyView::RsaHash(None)) => SshStepView::Done(Ok(None)),
        Some(SshReplyView::Failed(e)) => SshStepView::Done(Err(types::failure(e))),
        _ => SshStepView::Do(SshActionView::BestRsaHash),
    }
}

/// Logging in with a key, from the reply at place `at` on.
pub open spec fn key_login(
    username: Seq<char>,
    password: Option<Seq<char>>,
    path: Seq<char>,
    replies: Seq<SshReplyView>,
    at: int,
) -> SshStepView<bool> {
    exchange::chain(
        exchange::required(
            SshActionView::LoadKey { path, passphrase: password },
            "Failed to load key: "@,
            replies,
            at,
        ),
        |_u: ()|
            match rsa_hash(replies, at + 1) {
                SshStepView::Do(action) => SshStepView::Do(action),
                SshStepView::Done(Err(e)) => SshStepView::Done(Err(e)),
                SshStepView::Done(Ok(hash_alg)) => exchange::admission(
                    SshActionView::AuthPublicKey { username, hash_alg },
                    "Key auth failed: "@,
                    replies,
                    at + 2,
                ),
            },
    )
}

/// A login that the host decided on. What comes next is by the reply at place
/// `next`.
pub open spec fn admitted(ok: bool, next: usize) -> SshStepView<usize> {
    if ok {
        SshStepView::Done(Ok(next))
    } else {
        SshStepView::Done(Err(types::failure("Authentication rejected by server"@)))
    }
}

/// Logging in, from the second reply on: with the key where there is one, whose
/// passphrase is then the password, and else with the password.
pub open spec fn login(
    username: Seq<char>,
    password: Option<Seq<char>>,
    key_path: Option<Seq<char>>,
    home: Option<Seq<char>>,
    platform: Platform,
    replies: Seq<SshReplyView>,
) -> SshStepView<usize> {
    match key_path {
        Some(path) => exchange::chain(
            key_login(username, password, without_tilde(path, home, platform), replies, 1),
            |ok: bool| admitted(ok, 4),
        ),
        None => exchange::chain(
            exchange::admission(
                SshActionView::AuthPassword { username, password: password->0 },
                "Password auth failed: "@,
                replies,
                1,
            ),
            |ok: bool| admitted(ok, 2),
        ),
    }
}

/// Connecting to a host and logging in. The value is the place of the reply
/// that comes next.
pub open spec fn connection(
    host: Seq<char>,
    port: u16,
    username: Seq<char>,
    password: Option<Seq<char>>,
    key_path: Option<Seq<char>>,
    home: Option<Seq<char>>,
    platform: Platform,
    replies: Seq<SshReplyView>,
) -> SshStepView<usize> {
    if password is None && key_path is None {
        SshStepView::Done(Err(types::refusal("Provide password or key_path"@)))
    } else {
        exchange::chain(
            exchange::required(
                SshActionView::Connect { host, port, inactivity_secs: INACTIVITY_SECS },
                "SSH connection failed: "@,
                replies,
                0,
            ),
            |_u: ()| login(username, password, key_path, home, platform, replies),
        )
    }
}

fn find_rsa_hash(replies: &Vec<SshReply>, at: usize) -> (r: SshStep<Option<HashAlg>>)
    ensures
        match r {
            SshStep::Do(action) => rsa_hash(replies.deep_view(), at as int) == SshStepView::<
                Option<HashAlg>,
            >::Do(action@),
            SshStep::Done(Err(e)) => rsa_hash(replies.deep_view(), at as int) == SshStepView::<
                Option<HashAlg>,
            >::Done(Err(e@)),
            SshStep::Done(Ok(hash)) => rsa_hash(replies.deep_view(), at as int)
                == SshStepView::Done(Ok(hash)),
        },
{
    match exchange::get_reply(replies, at) {
        Some(SshReply::RsaHash(Some(hash))) => SshStep::Done(Ok(*hash)),
        Some(SshReply::RsaHash(None)) => SshStep::Done(Ok(None)),
        Some(SshReply::Failed(e)) => SshStep::Done(Err(ToolError::internal_error(e.clone()))),
        _ => SshStep::Do(SshAction::BestRsaHash),
    }
}

fn copied(text: Option<&str>) -> (r: Option<String>)
    ensures
        r.deep_view() == text.deep_view(),
{
    match text {
        Some(text) => Some(text.to_string()),
        None => None,
    }
}

fn log_in_with_key(
    username: &str,
    password: Option<&str>,
    path: String,
    replies: &Vec<SshReply>,
) -> (r: SshStep<bool>)
    ensures
        r@ == key_login(username@, password.deep_view(), path@, replies.deep_view(), 1),
{
    let load = SshAction::LoadKey { path, passphrase: copied(password) };
    match exchange::require_done(load, "Failed to load key: ", replies, 1) {
        SshStep::Do(action) => SshStep::Do(action),
        SshStep::Done(Err(e)) => SshStep::Done(Err(e)),
        SshStep::Done(Ok(_)) => match find_rsa_hash(replies, 2) {
            SshStep::Do(action) => SshStep::Do(action),
            SshStep::Done(Err(e)) => SshStep::Done(Err(e)),
            SshStep::Done(Ok(hash_alg)) => {
                let auth = SshAction::AuthPublicKey { username: username.to_string(), hash_alg };
                exchange::ask_admission(auth, "Key auth failed: ", replies, 3)
            },
        },
    }
}

fn let_in(ok: bool, next: usize) -> (r: SshStep<usize>)
    ensures
        r@ == admitted(ok, next),
{
    if ok {
        SshStep::Done(Ok(next))
    } else {
        SshStep::Done(
            Err(ToolError::internal_error("Authentication rejected by server".to_string())),
        )
    }
}

/// Connects to a host and logs in. The value is the place of the reply that
/// comes next.
pub fn connect_and_auth(
    host: &str,
    port: u16,
    username: &str,
    password: Option<&str>,
    key_path: Option<&str>,
    home: Option<&str>,
    platform: Platform,
    replies: &Vec<SshReply>,
) -> (r: SshStep<usize>)
    ensures
        r@ == connection(
            host@,
            port,
            username@,
            password.deep_view(),
            key_path.deep_view(),
            home.deep_view(),
            platform,
            replies.deep_view(),
        ),
{
    if password.is_none() && key_path.is_none() {
        return SshStep::Done(
            Err(ToolError::invalid_params("Provide password or key_path".to_string())),
        );
    }
    let connect = SshAction::Connect {
        host: host.to_string(),
        port,
        inactivity_secs: INACTIVITY_SECS,
    };
    match exchange::require_done(connect, "SSH connection failed: ", replies, 0) {
        SshStep::Do(action) => {
            return SshStep::Do(action);
        },
        SshStep::Done(Err(e)) => {
            return SshStep::Done(Err(e));
        },
        SshStep::Done(Ok(_)) => {},
    }
    match key_path {
        Some(path) => match log_in_with_key(
            username,
            password,
            expand_tilde(path, home, platform),
            replies,
        ) {
            SshStep::Do(action) => SshStep::Do(action),
            SshStep::Done(Err(e)) => SshStep::Done(Err(e)),
            SshStep::Done(Ok(ok)) => let_in(ok, 4),
        },
        None => {
            let auth = SshAction::AuthPassword {
                username: username.to_string(),
                password: password.unwrap().to_string(),
            };
            match exchange::ask_admission(auth, "Password auth failed: ", replies, 1) {
                SshStep::Do(action) => SshStep::Do(action),
                SshStep::Done(Err(e)) => SshStep::Done(Err(e)),
                SshStep::Done(Ok(ok)) => let_in(ok, 2),
            }
        },
    }
}

} // verus!
