//! Where the frontend logs to.

use vstd::prelude::*;

use crate::config::model::{LogLevel, LogType, LoggingConfig, Rotation};
use crate::config::validate;

verus! {

/// The name of a level.
pub open spec fn level_text(level: LogLevel) -> Seq<char> {
    match level {
        LogLevel::Trace => "trace"@,
        LogLevel::Debug => "debug"@,
        LogLevel::Info => "info"@,
        LogLevel::Warn => "warn"@,
        LogLevel::Error => "error"@,
    }
}

/// The name of a level.
pub fn level_name(level: LogLevel) -> (r: &'static str)
    ensures
        r@ == level_text(level),
{
    match level {
        LogLevel::Trace => "trace",
        LogLevel::Debug => "debug",
        LogLevel::Info => "info",
        LogLevel::Warn => "warn",
        LogLevel::Error => "error",
    }
}

/// What is to be set up.
#[derive(Debug, PartialEq, Eq)]
pub enum LogPlan<S = String> {
    Syslog,
    File { dir: S, filename: S, rotation: Rotation },
}

impl View for LogPlan<String> {
    type V = LogPlan<Seq<char>>;

    open spec fn view(&self) -> LogPlan<Seq<char>> {
        match self {
            LogPlan::Syslog => LogPlan::Syslog,
            LogPlan::File { dir, filename, rotation } => LogPlan::File {
                dir: dir@,
                filename: filename@,
                rotation: *rotation,
            },
        }
    }
}

/// The path without its final component; the root and the empty path have none.
pub uninterp spec fn path_parent(path: Seq<char>) -> Option<Seq<char>>;

/// The final component of the path, where it is a name.
pub uninterp spec fn path_file_name(path: Seq<char>) -> Option<Seq<char>>;

/// `std::path::Path::parent` gives the path without its final component, as Unix systems split
/// paths, which are what the frontend runs on. How repeated separators and dots are passed over is
/// not spelled out: the result is named.
#[verifier::external_body]
fn parent_of(path: &str) -> (r: Option<String>)
    ensures
        r is Some == path_parent(path@) is Some,
        r is Some ==> path_parent(path@) == Some(r->Some_0@),
{
    let parent = std::path::Path::new(path).parent()?;
    Some(parent.to_str()?.to_owned())
}

/// `std::path::Path::file_name` gives the final component of the path where that is a name, as Unix
/// systems split paths, which are what the frontend runs on. How repeated separators and dots are
/// passed over is not spelled out: the result is named.
#[verifier::external_body]
fn file_name_of(path: &str) -> (r: Option<String>)
    ensures
        r is Some == path_file_name(path@) is Some,
        r is Some ==> path_file_name(path@) == Some(r->Some_0@),
{
    let name = std::path::Path::new(path).file_name()?;
    Some(name.to_str()?.to_owned())
}

/// What is to be set up: the system log, or a file, in the current directory where its path names
/// none, and under a name of its own where its path names none.
pub open spec fn plan_of(
    config: LoggingConfig,
    parent: Option<Seq<char>>,
    file_name: Option<Seq<char>>,
) -> Result<LogPlan<Seq<char>>, Seq<char>> {
    match config.destination {
        LogType::Syslog => Ok(LogPlan::Syslog),
        LogType::File => match config.file {
            None => Err("logging destination is 'file' but no file config provided"@),
            Some(f) => Ok(
                LogPlan::File {
                    dir: match parent {
                        Some(p) => if p.len() > 0 {
                            p
                        } else {
                            "."@
                        },
                        None => "."@,
                    },
                    filename: match file_name {
                        Some(n) => n,
                        None => "infmon.log"@,
                    },
                    rotation: f.rotation,
                },
            ),
        },
    }
}

/// What is to be set up for a log file whose path has these parts.
pub fn plan_logging(config: &LoggingConfig, parent: Option<&str>, file_name: Option<&str>) -> (r:
    Result<LogPlan, String>)
    ensures
        match plan_of(*config, validate::opt_text(parent), validate::opt_text(file_name)) {
            Ok(p) => r is Ok && r->Ok_0@ == p,
            Err(e) => r is Err && r->Err_0@ == e,
        },
{
    match config.destination {
        LogType::Syslog => Ok(LogPlan::Syslog),
        LogType::File => match &config.file {
            None => Err(
                "logging destination is 'file' but no file config provided".to_owned(),
            ),
            Some(f) => {
                let dir = match parent {
                    Some(p) => if !p.is_empty() {
                        p.to_owned()
                    } else {
                        ".".to_owned()
                    },
                    None => ".".to_owned(),
                };
                let filename = match file_name {
                    Some(n) => n.to_owned(),
                    None => "infmon.log".to_owned(),
                };
                Ok(LogPlan::File { dir, filename, rotation: f.rotation })
            },
        },
    }
}

/// What a configuration asks to be set up: a log file lies in the directory that its path names and
/// bears the name that its path ends in.
pub open spec fn plan_for(config: LoggingConfig) -> Result<LogPlan<Seq<char>>, Seq<char>> {
    match config.file {
        Some(f) => plan_of(config, path_parent(f.path@), path_file_name(f.path@)),
        None => plan_of(config, None, None),
    }
}

/// What a configuration asks to be set up.
pub fn init_logging(config: &LoggingConfig) -> (r: Result<LogPlan, String>)
    ensures
        match plan_for(*config) {
            Ok(p) => r is Ok && r->Ok_0@ == p,
            Err(e) => r is Err && r->Err_0@ == e,
        },
{
    match &config.file {
        Some(f) => {
            let parent = parent_of(f.path.as_str());
            let file_name = file_name_of(f.path.as_str());
            plan_logging(config, as_text(&parent), as_text(&file_name))
        },
        None => plan_logging(config, None, None),
    }
}

fn as_text(s: &Option<String>) -> (r: Option<&str>)
    ensures
        validate::opt_text(r) == (match *s {
            Some(x) => Some(x@),
            None => None,
        }),
{
    match s {
        Some(x) => Some(x.as_str()),
        None => None,
    }
}

/// The system log is set up where it is asked for, whatever else is given; a file is set up where
/// one is asked for and given, in the directory that its path names or else the current one, under
/// the name that its path ends in or else `infmon.log`, and replaced as often as it says; a file
/// that is asked for and not given is an error.
pub proof fn logs_go_where_asked(
    config: LoggingConfig,
    parent: Option<Seq<char>>,
    file_name: Option<Seq<char>>,
)
    ensures
        config.destination is Syslog ==> plan_of(config, parent, file_name) == Ok::<
            LogPlan<Seq<char>>,
            Seq<char>,
        >(LogPlan::Syslog),
        config.destination is File && config.file is None ==> plan_of(
            config,
            parent,
            file_name,
        ) is Err,
        config.destination is File && config.file is Some ==> {
            &&& plan_of(config, parent, file_name) matches Ok(LogPlan::File {
                dir,
                filename,
                rotation,
            })
            &&& parent matches Some(p) ==> (p.len() > 0 ==> dir == p)
            &&& (parent is None || parent->Some_0.len() == 0) ==> dir == seq!['.']
            &&& file_name matches Some(n) ==> filename == n
            &&& file_name is None ==> filename == seq![
                'i',
                'n',
                'f',
                'm',
                'o',
                'n',
                '.',
                'l',
                'o',
                'g',
            ]
            &&& rotation == config.file->Some_0.rotation
        },
{
    reveal_strlit(".");
    reveal_strlit("infmon.log");
    assert("."@ =~= seq!['.']);
    assert("infmon.log"@ =~= seq!['i', 'n', 'f', 'm', 'o', 'n', '.', 'l', 'o', 'g']);
}

/// Each level bears its own name.
pub proof fn levels_bear_their_names(a: LogLevel, b: LogLevel)
    ensures
        level_text(a) == level_text(b) ==> a == b,
        level_text(a)[0] == (match a {
            LogLevel::Trace => 't',
            LogLevel::Debug => 'd',
            LogLevel::Info => 'i',
            LogLevel::Warn => 'w',
            LogLevel::Error => 'e',
        }),
{
    reveal_strlit("trace");
    reveal_strlit("debug");
    reveal_strlit("info");
    reveal_strlit("warn");
    reveal_strlit("error");
    assert(level_text(a) == level_text(b) ==> level_text(a)[0] == level_text(b)[0]);
}

} // verus!
