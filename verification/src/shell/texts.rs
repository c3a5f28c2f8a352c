//! Paths and texts by the conventions of a platform.

use crate::platform::Platform;
use crate::text;
use vstd::prelude::*;

verus! {

/// A path in which `~`, alone or before a slash, stands for the home directory,
/// where that is known.
pub open spec fn home_expanded(path: Seq<char>, home: Option<Seq<char>>) -> Seq<char> {
    match home {
        Some(dir) if path == "~"@ || text::begins(path, "~/"@) => dir + path.skip(1),
        _ => path,
    }
}

/// Calls `shellexpand::tilde_with_context` with a home directory. A tilde at the
/// beginning becomes the home directory where nothing or a slash follows it and
/// the home directory is known; all else stays. Builds for Windows also expand a
/// tilde before a backslash, so such paths are left out.
#[verifier::external_body]
pub(crate) fn tilde(path: &str, home: Option<&str>) -> (r: String)
    requires
        !text::begins(path@, "~\\"@),
    ensures
        r@ == home_expanded(path@, home.deep_view()),
{
    shellexpand::tilde_with_context(path, || home).into_owned()
}

/// A text, or an empty one where there is none.
pub open spec fn or_empty(text: Option<Seq<char>>) -> Seq<char> {
    match text {
        Some(text) => text,
        None => seq![],
    }
}

/// A path with what the user's directories are called put in their places: the
/// home directory for a tilde at the beginning, or on Windows the values of two
/// variables for their names between percent signs.
pub open spec fn expanded(
    path: Seq<char>,
    platform: Platform,
    home: Option<Seq<char>>,
    userprofile: Option<Seq<char>>,
    appdata: Option<Seq<char>>,
) -> Seq<char> {
    match platform {
        Platform::Windows => text::replaced(
            text::replaced(path, "%USERPROFILE%"@, or_empty(userprofile)),
            "%APPDATA%"@,
            or_empty(appdata),
        ),
        _ => home_expanded(path, home),
    }
}

fn text_or_empty(text: Option<&str>) -> (r: String)
    ensures
        r@ == or_empty(text.deep_view()),
{
    match text {
        Some(text) => text.to_string(),
        None => {
            let nothing = String::new();
            assert(nothing@ =~= seq![]);
            nothing
        },
    }
}

/// A path with what the user's directories are called put in their places.
pub fn expand_path(
    path: &str,
    platform: Platform,
    home: Option<&str>,
    userprofile: Option<&str>,
    appdata: Option<&str>,
) -> (r: String)
    ensures
        r@ == expanded(
            path@,
            platform,
            home.deep_view(),
            userprofile.deep_view(),
            appdata.deep_view(),
        ),
{
    match platform {
        Platform::Windows => {
            proof {
                reveal_strlit("%USERPROFILE%");
                reveal_strlit("%APPDATA%");
            }
            let profile = text_or_empty(userprofile);
            let data = text_or_empty(appdata);
            let once = text::replace(path, "%USERPROFILE%", profile.as_str());
            text::replace(once.as_str(), "%APPDATA%", data.as_str())
        },
        _ => {
            if text::starts_with(path, "~\\") {
                proof {
                    reveal_strlit("~");
                    reveal_strlit("~/");
                    reveal_strlit("~\\");
                    assert("~\\"@[1] == '\\');
                    assert(path@.subrange(0, 2)[1] == '\\');
                    if text::begins(path@, "~/"@) {
                        assert("~/"@[1] == '/');
                        assert(path@.subrange(0, 2)[1] == '/');
                    }
                }
                return path.to_string();
            }
            tilde(path, home)
        },
    }
}

/// A path that does not depend on a working directory: one that begins with a
/// slash, or on Windows one with a drive letter or two backslashes.
pub open spec fn absolute_on(path: Seq<char>, platform: Platform) -> bool {
    match platform {
        Platform::Windows => text::has(path, ":\\"@) || text::begins(path, "\\\\"@),
        _ => text::begins(path, "/"@),
    }
}

/// Says whether a path does not depend on a working directory.
pub fn is_absolute_path(path: &str, platform: Platform) -> (r: bool)
    ensures
        r == absolute_on(path@, platform),
{
    match platform {
        Platform::Windows => text::contains(path, ":\\") || text::starts_with(path, "\\\\"),
        _ => text::starts_with(path, "/"),
    }
}

/// A text with the line ends of a platform: each carriage return that stands
/// before a line feed goes, and on Windows one comes before every line feed.
pub open spec fn native_lines(s: Seq<char>, platform: Platform) -> Seq<char> {
    let plain = text::replaced(s, "\r\n"@, "\n"@);
    match platform {
        Platform::Windows => text::replaced(plain, "\n"@, "\r\n"@),
        _ => plain,
    }
}

/// A text with the line ends of a platform.
pub fn normalize_line_endings(s: &str, platform: Platform) -> (r: String)
    ensures
        r@ == native_lines(s@, platform),
{
    proof {
        reveal_strlit("\r\n");
        reveal_strlit("\n");
    }
    let plain = text::replace(s, "\r\n", "\n");
    match platform {
        Platform::Windows => text::replace(plain.as_str(), "\n", "\r\n"),
        _ => plain,
    }
}

} // verus!
