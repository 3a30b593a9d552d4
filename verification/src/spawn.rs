//! Finding the daemon's binary.
use crate::paths::{
    file_name, file_name_of, join_name, law_names_are_joined_by_one_separator, parent, parent_of,
    path_join, separates,
};
use crate::platform::Platform;
use crate::text::{chars_of, text_of};
use crate::wire::text3;
use vstd::prelude::*;

verus! {

/// The environment variable that names the daemon's binary.
pub const DAEMON_ENV: &'static str = "DEVBOULE_DAEMON";

/// The file name of the daemon's binary on Windows, the platform that it starts
/// on.
pub fn daemon_file_name() -> (r: &'static str)
    ensures
        r@ == "devboule-daemon.exe"@,
{
    "devboule-daemon.exe"
}

/// A path with its file name replaced; a path that ends in no name gets one
/// more component.
pub open spec fn with_file_name(platform: Platform, path: Seq<char>, name: Seq<char>) -> Seq<char> {
    match (file_name_of(platform, path), parent_of(platform, path)) {
        (Some(_), Some(folder)) => path_join(platform, folder, name),
        _ => path_join(platform, path, name),
    }
}

/// The file name of the daemon's binary beside another program.
pub open spec fn sibling_name(platform: Platform) -> Seq<char> {
    match platform {
        Platform::Windows => "devboule-daemon.exe"@,
        Platform::Unix => "devboule-daemon"@,
    }
}

/// Where the daemon's binary stands beside another program.
pub open spec fn sibling_of(platform: Platform, exe: Seq<char>) -> Seq<char> {
    with_file_name(platform, exe, sibling_name(platform))
}

pub fn daemon_sibling(platform: Platform, exe: &str) -> (r: String)
    ensures
        r@ == sibling_of(platform, exe@),
{
    let path = chars_of(exe);
    let name = match platform {
        Platform::Windows => chars_of(daemon_file_name()),
        Platform::Unix => chars_of("devboule-daemon"),
    };
    if file_name(platform, path.as_slice()).is_some() {
        if let Some(folder) = parent(platform, path.as_slice()) {
            let r = join_name(platform, folder, name.as_slice());
            return text_of(r.as_slice());
        }
    }
    let r = join_name(platform, path.as_slice(), name.as_slice());
    text_of(r.as_slice())
}

/// Why no daemon binary was found.
#[derive(Debug)]
pub enum DaemonError {
    /// The running program's own path could not be told.
    Io(String),
    Protocol(String),
}

/// `DaemonError` over the characters of its text.
pub ghost enum DaemonErrorView {
    Io(Seq<char>),
    Protocol(Seq<char>),
}

/// The outcome of looking for the binary.
pub open spec fn binary_view(r: Result<String, DaemonError>) -> Result<Seq<char>, DaemonErrorView> {
    match r {
        Ok(path) => Ok(path@),
        Err(DaemonError::Io(m)) => Err(DaemonErrorView::Io(m@)),
        Err(DaemonError::Protocol(m)) => Err(DaemonErrorView::Protocol(m@)),
    }
}

/// The daemon's binary: what the environment names, else the file beside the
/// running program, where it is one.
pub open spec fn daemon_binary(
    platform: Platform,
    configured: Option<String>,
    exe: Result<String, String>,
    sibling_is_file: bool,
) -> Result<Seq<char>, DaemonErrorView> {
    match configured {
        Some(path) => Ok(path@),
        None => match exe {
            Err(error) => Err(DaemonErrorView::Io(error@)),
            Ok(exe) => if sibling_is_file {
                Ok(sibling_of(platform, exe@))
            } else {
                Err(
                    DaemonErrorView::Protocol(
                        "daemon binary not found next to "@ + exe@ + " (set DEVBOULE_DAEMON)"@,
                    ),
                )
            },
        },
    }
}

/// The daemon's binary. `configured` is what the environment names, `exe` the
/// running program's path, and `sibling_is_file` whether a file stands at
/// `daemon_sibling` of it.
pub fn resolve_daemon_binary(
    platform: Platform,
    configured: Option<String>,
    exe: Result<String, String>,
    sibling_is_file: bool,
) -> (r: Result<String, DaemonError>)
    ensures
        binary_view(r) == daemon_binary(platform, configured, exe, sibling_is_file),
{
    if let Some(path) = configured {
        return Ok(path);
    }
    match exe {
        Err(error) => Err(DaemonError::Io(error)),
        Ok(exe) => if sibling_is_file {
            Ok(daemon_sibling(platform, exe.as_str()))
        } else {
            Err(
                DaemonError::Protocol(
                    text3(
                        "daemon binary not found next to ",
                        exe.as_str(),
                        " (set DEVBOULE_DAEMON)",
                    ),
                ),
            )
        },
    }
}

/// The daemon stands beside the program that looks for it: in its folder, under
/// the daemon's own name.
pub proof fn law_the_daemon_stands_beside_the_program(
    platform: Platform,
    exe: Seq<char>,
    folder: Seq<char>,
)
    requires
        file_name_of(platform, exe) is Some,
        parent_of(platform, exe) == Some(folder),
    ensures
        ({
            let name = match platform {
                Platform::Windows => "devboule-daemon.exe"@,
                Platform::Unix => "devboule-daemon"@,
            };
            let mark = match platform {
                Platform::Windows => '\\',
                Platform::Unix => '/',
            };
            let sibling = sibling_of(platform, exe);
            &&& sibling == folder + name || sibling == folder + seq![mark] + name
            &&& folder.len() > 2 && !separates(platform, folder.last()) ==> sibling == folder
                + seq![mark] + name
        }),
{
    law_names_are_joined_by_one_separator(platform, folder, sibling_name(platform));
}

/// The configured daemon is taken as it is; else the sibling, where there is one.
pub proof fn law_the_configured_daemon_is_taken(
    platform: Platform,
    configured: String,
    exe: String,
    error: String,
    found: bool,
)
    ensures
        forall|any: Result<String, String>| #[trigger]
            daemon_binary(platform, Some(configured), any, found) == Ok::<Seq<char>, DaemonErrorView>(
                configured@,
            ),
        daemon_binary(platform, None, Err(error), found) == Err::<Seq<char>, DaemonErrorView>(
            DaemonErrorView::Io(error@),
        ),
        daemon_binary(platform, None, Ok(exe), true) == Ok::<Seq<char>, DaemonErrorView>(
            sibling_of(platform, exe@),
        ),
        daemon_binary(platform, None, Ok(exe), false) == Err::<Seq<char>, DaemonErrorView>(
            DaemonErrorView::Protocol(
                "daemon binary not found next to "@ + exe@ + " (set DEVBOULE_DAEMON)"@,
            ),
        ),
{
}

} // verus!
