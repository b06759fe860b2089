//! The dashboard's switches for remote logging.

use crate::kernel::{KernelRequest, KernelRequestView, push_word};
use vstd::prelude::*;
use vstd::string::*;

verus! {

/// The names of the log levels, from silent to most verbose.
pub open spec fn level_names() -> Seq<Seq<char>> {
    seq!["OFF"@, "ERROR"@, "WARN"@, "INFO"@, "DEBUG"@, "TRACE"@]
}

/// An ASCII capital as its small letter, any other character as itself.
pub open spec fn fold_case(c: char) -> char {
    if 'A' <= c <= 'Z' {
        ((c as int) + 32) as char
    } else {
        c
    }
}

/// Whether two texts are equal but for the case of ASCII letters.
pub open spec fn same_ignoring_case(a: Seq<char>, b: Seq<char>) -> bool {
    a.len() == b.len() && forall|i: int| 0 <= i < a.len() ==> fold_case(a[i]) == fold_case(b[i])
}

/// Whether `name` is the log level that `text` spells.
pub open spec fn is_level(text: Seq<char>, name: Seq<char>) -> bool {
    level_names().contains(name) && same_ignoring_case(name, text)
}

/// Whether `text` spells no log level.
pub open spec fn is_no_level(text: Seq<char>) -> bool {
    forall|k: int| 0 <= k < level_names().len() ==> !same_ignoring_case(level_names()[k], text)
}

/// Parses `text` with `log::LevelFilter::from_str`, which accepts the six
/// level names in any case, and returns the level with `to_string`, which
/// writes its name in capitals.
#[verifier::external_body]
fn parse_level(text: &str) -> (r: Option<String>)
    ensures
        match r {
            Some(name) => is_level(text@, name@),
            None => is_no_level(text@),
        },
{
    match text.parse::<log::LevelFilter>() {
        Ok(level) => Some(level.to_string()),
        Err(_) => None,
    }
}

/// What the dashboard holds about remote logging.
#[derive(Debug, Clone)]
pub struct LoggingSettings {
    pub enabled: bool,
    pub level: String,
}

/// What a request to change the log level comes to.
#[derive(Debug)]
pub enum LevelChange {
    /// The level is stored under this name, the settings are saved, and the
    /// service is restarted.
    Stored(String),
    /// The request is answered with status 400 and this text.
    BadRequest(String),
}

/// The command that restarts the service.
pub open spec fn restart_request() -> KernelRequestView {
    KernelRequestView::RunCommand { program: "/etc/init.d/rita"@, args: seq!["restart"@] }
}

/// The command that restarts the service, which follows every saved change.
pub fn restart_command() -> (r: KernelRequest)
    ensures
        r.deep_view() == restart_request(),
{
    let mut args: Vec<String> = Vec::new();
    push_word(&mut args, "restart");
    proof {
        assert(args.deep_view() =~= seq!["restart"@]);
    }
    KernelRequest::RunCommand { program: String::from_str("/etc/init.d/rita"), args }
}

/// Whether remote logging is on.
pub fn get_remote_logging(settings: &LoggingSettings) -> (r: bool)
    ensures
        r == settings.enabled,
{
    settings.enabled
}

/// Switches remote logging on or off; the settings are to be saved and the
/// service restarted.
pub fn remote_logging(settings: &mut LoggingSettings, enabled: bool) -> (restart: KernelRequest)
    ensures
        final(settings).enabled == enabled,
        final(settings).level@ == old(settings).level@,
        restart.deep_view() == restart_request(),
{
    settings.enabled = enabled;
    restart_command()
}

/// The log level in force.
pub fn get_remote_logging_level(settings: &LoggingSettings) -> (r: &String)
    ensures
        r@ == settings.level@,
{
    &settings.level
}

/// Changes the log level to the one that `level` spells, in any case; a
/// text that spells none changes nothing.
pub fn remote_logging_level(settings: &mut LoggingSettings, level: &str) -> (r: LevelChange)
    ensures
        final(settings).enabled == old(settings).enabled,
        match r {
            LevelChange::Stored(name) => is_level(level@, name@) && final(settings).level@ == name@,
            LevelChange::BadRequest(m) => {
                &&& is_no_level(level@)
                &&& final(settings).level@ == old(settings).level@
                &&& m@ == "Could not parse loglevel ParseLevelError(())"@
            },
        },
{
    match parse_level(level) {
        Some(name) => {
            settings.level = name.clone();
            LevelChange::Stored(name)
        },
        None => LevelChange::BadRequest(
            String::from_str("Could not parse loglevel ParseLevelError(())"),
        ),
    }
}

} // verus!
