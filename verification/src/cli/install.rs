//! Installing the service: which step follows which, and what is said.

use vstd::prelude::*;

use super::exit_codes::{EXIT_FAILURE, EXIT_PERMISSION_DENIED, EXIT_SUCCESS};
use crate::config::model::{Config, FrontendConfig};
use crate::frontend::exporter;
use crate::text;

verus! {

/// A directory of the service.
#[derive(Clone, Copy, Debug, PartialEq, Eq, Structural)]
pub enum Dir {
    State,
    Runtime,
}

impl Dir {
    /// The path of the directory.
    pub open spec fn path_text(self) -> Seq<char> {
        match self {
            Dir::State => "/var/lib/infmon"@,
            Dir::Runtime => "/run/infmon"@,
        }
    }

    /// The path of the directory.
    pub fn path(self) -> (r: &'static str)
        ensures
            r@ == self.path_text(),
    {
        match self {
            Dir::State => "/var/lib/infmon",
            Dir::Runtime => "/run/infmon",
        }
    }
}

/// What is to be done next.
#[derive(Clone, Copy, Debug, PartialEq, Eq, Structural)]
pub enum InstallStep {
    /// See whether the system user is there.
    CheckUser,
    /// Make the system user.
    CreateUser,
    /// Make the directory of the configuration.
    MakeConfigDir,
    /// See whether there is a configuration.
    ProbeConfig,
    /// Write the default configuration.
    WriteConfig,
    /// Keep others from reading the configuration.
    RestrictConfig,
    /// Make a directory of the service.
    MakeDir(Dir),
    /// Give a directory to the system user.
    OwnDir(Dir),
    /// Read the unit file that came with the program.
    ReadUnit,
    /// See whether a unit is installed.
    ProbeUnit,
    /// Install the unit.
    WriteUnit,
    /// Have systemd read its units again.
    ReloadDaemon,
    /// Exit with the code.
    Exit(i32),
}

/// How a step came out.
#[derive(Debug)]
pub enum StepResult<S = String> {
    /// It was done, or what was looked for is there.
    Done,
    /// What was looked for is not there.
    Missing,
    /// It was tried and refused, for the given reason.
    Refused(S),
    /// It could not be tried, for the given reason.
    Failed(S),
}

/// What is said at the end.
pub open spec fn completed() -> Seq<char> {
    "infmonctl: install: completed successfully"@
}

/// What follows a step, and what is said of its result: the next step without a word or with a
/// word of warning, or an exit. Nothing follows an exit.
pub open spec fn after(step: InstallStep, force: bool, result: StepResult) -> (
    InstallStep,
    Seq<Seq<char>>,
) {
    let stop = InstallStep::Exit(EXIT_FAILURE);
    let end = InstallStep::Exit(EXIT_SUCCESS);
    match step {
        InstallStep::CheckUser => if result is Done {
            (InstallStep::MakeConfigDir, Seq::empty())
        } else {
            (InstallStep::CreateUser, Seq::empty())
        },
        InstallStep::CreateUser => match result {
            StepResult::Refused(e) => (
                stop,
                seq![
                    "infmonctl: install: failed to create user 'infmon': "@ + text::trimmed(e@),
                ],
            ),
            StepResult::Failed(e) => (
                stop,
                seq!["infmonctl: install: failed to run useradd: "@ + e@],
            ),
            _ => (InstallStep::MakeConfigDir, Seq::empty()),
        },
        InstallStep::MakeConfigDir => match result {
            StepResult::Failed(e) => (
                stop,
                seq!["infmonctl: install: failed to create /etc/infmon: "@ + e@],
            ),
            _ => (InstallStep::ProbeConfig, Seq::empty()),
        },
        InstallStep::ProbeConfig => if result is Done && !force {
            (
                InstallStep::MakeDir(Dir::State),
                seq![
                    "infmonctl: install: skipping config (already exists at /etc/infmon/config.yaml; use --force to overwrite)"@,
                ],
            )
        } else {
            (InstallStep::WriteConfig, Seq::empty())
        },
        InstallStep::WriteConfig => match result {
            StepResult::Refused(e) => (
                stop,
                seq!["infmonctl: install: failed to serialize default config: "@ + e@],
            ),
            StepResult::Failed(e) => (
                stop,
                seq!["infmonctl: install: failed to write /etc/infmon/config.yaml: "@ + e@],
            ),
            _ => (InstallStep::RestrictConfig, Seq::empty()),
        },
        InstallStep::RestrictConfig => match result {
            StepResult::Failed(e) => (
                InstallStep::MakeDir(Dir::State),
                seq![
                    "infmonctl: install: warning: failed to set permissions on /etc/infmon/config.yaml: "@
                        + e@,
                ],
            ),
            _ => (InstallStep::MakeDir(Dir::State), Seq::empty()),
        },
        InstallStep::MakeDir(d) => match result {
            StepResult::Failed(e) => (
                stop,
                seq!["infmonctl: install: failed to create "@ + d.path_text() + ": "@ + e@],
            ),
            _ => (InstallStep::OwnDir(d), Seq::empty()),
        },
        InstallStep::OwnDir(d) => (
            match d {
                Dir::State => InstallStep::MakeDir(Dir::Runtime),
                Dir::Runtime => InstallStep::ReadUnit,
            },
            match result {
                StepResult::Refused(_) => seq![
                    "infmonctl: install: warning: failed to chown "@ + d.path_text()
                        + " to infmon:infmon"@,
                ],
                StepResult::Failed(e) => seq![
                    "infmonctl: install: warning: chown "@ + d.path_text() + ": "@ + e@,
                ],
                _ => Seq::empty(),
            },
        ),
        InstallStep::ReadUnit => if result is Done {
            (InstallStep::ProbeUnit, Seq::empty())
        } else {
            (
                end,
                seq![
                    "infmonctl: install: systemd unit file not found; skipping service installation (you can install it manually)"@,
                    completed(),
                ],
            )
        },
        InstallStep::ProbeUnit => if result is Done && !force {
            (
                end,
                seq![
                    "infmonctl: install: service unit already exists at /etc/systemd/system/infmon.service; use --force to overwrite"@,
                    completed(),
                ],
            )
        } else {
            (InstallStep::WriteUnit, Seq::empty())
        },
        InstallStep::WriteUnit => match result {
            StepResult::Failed(e) => (
                stop,
                seq![
                    "infmonctl: install: failed to write /etc/systemd/system/infmon.service: "@
                        + e@,
                ],
            ),
            _ => (InstallStep::ReloadDaemon, Seq::empty()),
        },
        InstallStep::ReloadDaemon => match result {
            StepResult::Refused(_) => (
                end,
                seq![
                    "infmonctl: install: warning: systemctl daemon-reload failed; the new unit file may not be recognized until a manual reload"@,
                    completed(),
                ],
            ),
            StepResult::Failed(e) => (
                end,
                seq!["infmonctl: install: warning: daemon-reload: "@ + e@, completed()],
            ),
            _ => (end, seq![completed()]),
        },
        InstallStep::Exit(code) => (InstallStep::Exit(code), Seq::empty()),
    }
}

/// The first step: none without root privileges.
pub open spec fn first_step(is_root: bool) -> (InstallStep, Seq<Seq<char>>) {
    if is_root {
        (InstallStep::CheckUser, Seq::empty())
    } else {
        (
            InstallStep::Exit(EXIT_PERMISSION_DENIED),
            seq!["infmonctl: install requires root privileges"@],
        )
    }
}

pub(crate) fn no_lines() -> (r: Vec<String>)
    ensures
        exporter::texts(r@) == Seq::<Seq<char>>::empty(),
{
    let r: Vec<String> = Vec::new();
    assert(exporter::texts(r@) =~= Seq::<Seq<char>>::empty());
    r
}

pub(crate) fn one_line(s: String) -> (r: Vec<String>)
    ensures
        exporter::texts(r@) == seq![s@],
{
    let mut r: Vec<String> = Vec::new();
    r.push(s);
    assert(exporter::texts(r@) =~= seq![s@]);
    r
}

fn last_lines(s: String) -> (r: Vec<String>)
    ensures
        exporter::texts(r@) == seq![s@, completed()],
{
    let mut r: Vec<String> = Vec::new();
    r.push(s);
    r.push("infmonctl: install: completed successfully".to_owned());
    assert(exporter::texts(r@) =~= seq![s@, completed()]);
    r
}

/// Starts to install.
pub fn start_install(is_root: bool) -> (r: (InstallStep, Vec<String>))
    ensures
        (r.0, exporter::texts(r.1@)) == first_step(is_root),
{
    if is_root {
        (InstallStep::CheckUser, no_lines())
    } else {
        (
            InstallStep::Exit(EXIT_PERMISSION_DENIED),
            one_line("infmonctl: install requires root privileges".to_owned()),
        )
    }
}

/// Takes the result of a step: gives the next step, and what is to be said first.
pub fn next_install(step: InstallStep, force: bool, result: StepResult) -> (r: (
    InstallStep,
    Vec<String>,
))
    ensures
        (r.0, exporter::texts(r.1@)) == after(step, force, result),
{
    let stop = InstallStep::Exit(EXIT_FAILURE);
    let end = InstallStep::Exit(EXIT_SUCCESS);
    match step {
        InstallStep::CheckUser => match result {
            StepResult::Done => (InstallStep::MakeConfigDir, no_lines()),
            _ => (InstallStep::CreateUser, no_lines()),
        },
        InstallStep::CreateUser => match result {
            StepResult::Refused(e) => (
                stop,
                one_line(
                    text::cat(
                        "infmonctl: install: failed to create user 'infmon': ",
                        text::trim(e.as_str()),
                    ),
                ),
            ),
            StepResult::Failed(e) => (
                stop,
                one_line(text::cat("infmonctl: install: failed to run useradd: ", e.as_str())),
            ),
            _ => (InstallStep::MakeConfigDir, no_lines()),
        },
        InstallStep::MakeConfigDir => match result {
            StepResult::Failed(e) => (
                stop,
                one_line(
                    text::cat("infmonctl: install: failed to create /etc/infmon: ", e.as_str()),
                ),
            ),
            _ => (InstallStep::ProbeConfig, no_lines()),
        },
        InstallStep::ProbeConfig => match result {
            StepResult::Done if !force => (
                InstallStep::MakeDir(Dir::State),
                one_line(
                    "infmonctl: install: skipping config (already exists at /etc/infmon/config.yaml; use --force to overwrite)".to_owned(),
                ),
            ),
            _ => (InstallStep::WriteConfig, no_lines()),
        },
        InstallStep::WriteConfig => match result {
            StepResult::Refused(e) => (
                stop,
                one_line(
                    text::cat(
                        "infmonctl: install: failed to serialize default config: ",
                        e.as_str(),
                    ),
                ),
            ),
            StepResult::Failed(e) => (
                stop,
                one_line(
                    text::cat(
                        "infmonctl: install: failed to write /etc/infmon/config.yaml: ",
                        e.as_str(),
                    ),
                ),
            ),
            _ => (InstallStep::RestrictConfig, no_lines()),
        },
        InstallStep::RestrictConfig => match result {
            StepResult::Failed(e) => (
                InstallStep::MakeDir(Dir::State),
                one_line(
                    text::cat(
                        "infmonctl: install: warning: failed to set permissions on /etc/infmon/config.yaml: ",
                        e.as_str(),
                    ),
                ),
            ),
            _ => (InstallStep::MakeDir(Dir::State), no_lines()),
        },
        InstallStep::MakeDir(d) => match result {
            StepResult::Failed(e) => {
                let mut s = text::cat3("infmonctl: install: failed to create ", d.path(), ": ");
                s.append(e.as_str());
                (stop, one_line(s))
            },
            _ => (InstallStep::OwnDir(d), no_lines()),
        },
        InstallStep::OwnDir(d) => {
            let next = match d {
                Dir::State => InstallStep::MakeDir(Dir::Runtime),
                Dir::Runtime => InstallStep::ReadUnit,
            };
            match result {
                StepResult::Refused(_) => (
                    next,
                    one_line(
                        text::cat3(
                            "infmonctl: install: warning: failed to chown ",
                            d.path(),
                            " to infmon:infmon",
                        ),
                    ),
                ),
                StepResult::Failed(e) => {
                    let mut s = text::cat3(
                        "infmonctl: install: warning: chown ",
                        d.path(),
                        ": ",
                    );
                    s.append(e.as_str());
                    (next, one_line(s))
                },
                _ => (next, no_lines()),
            }
        },
        InstallStep::ReadUnit => match result {
            StepResult::Done => (InstallStep::ProbeUnit, no_lines()),
            _ => (
                end,
                last_lines(
                    "infmonctl: install: systemd unit file not found; skipping service installation (you can install it manually)".to_owned(),
                ),
            ),
        },
        InstallStep::ProbeUnit => match result {
            StepResult::Done if !force => (
                end,
                last_lines(
                    "infmonctl: install: service unit already exists at /etc/systemd/system/infmon.service; use --force to overwrite".to_owned(),
                ),
            ),
            _ => (InstallStep::WriteUnit, no_lines()),
        },
        InstallStep::WriteUnit => match result {
            StepResult::Failed(e) => (
                stop,
                one_line(
                    text::cat(
                        "infmonctl: install: failed to write /etc/systemd/system/infmon.service: ",
                        e.as_str(),
                    ),
                ),
            ),
            _ => (InstallStep::ReloadDaemon, no_lines()),
        },
        InstallStep::ReloadDaemon => match result {
            StepResult::Refused(_) => (
                end,
                last_lines(
                    "infmonctl: install: warning: systemctl daemon-reload failed; the new unit file may not be recognized until a manual reload".to_owned(),
                ),
            ),
            StepResult::Failed(e) => (
                end,
                last_lines(
                    text::cat("infmonctl: install: warning: daemon-reload: ", e.as_str()),
                ),
            ),
            _ => (end, one_line("infmonctl: install: completed successfully".to_owned())),
        },
        InstallStep::Exit(code) => (InstallStep::Exit(code), no_lines()),
    }
}

/// The configuration that is installed: the frontend's defaults and no rules.
pub fn default_config() -> (r: Config)
    ensures
        r.frontend is Some,
        r.frontend->Some_0.is_default(),
        r.flow_rules@.len() == 0,
        r.exporters is None,
        r.logging is None,
{
    Config {
        frontend: Some(FrontendConfig::default()),
        flow_rules: Vec::new(),
        exporters: None,
        logging: None,
    }
}

/// The file that is installed: a heading, and the configuration.
pub fn config_file(yaml: &str) -> (r: String)
    ensures
        r@ == "# InFMon default configuration\n# See https://github.com/r12f/InFMon for documentation\n\n"@
            + yaml@,
{
    text::cat(
        "# InFMon default configuration\n# See https://github.com/r12f/InFMon for documentation\n\n",
        yaml,
    )
}

// ---------------------------------------------------------------- laws

/// How many steps may still come.
pub open spec fn steps_left(step: InstallStep) -> nat {
    match step {
        InstallStep::CheckUser => 14,
        InstallStep::CreateUser => 13,
        InstallStep::MakeConfigDir => 12,
        InstallStep::ProbeConfig => 11,
        InstallStep::WriteConfig => 10,
        InstallStep::RestrictConfig => 9,
        InstallStep::MakeDir(Dir::State) => 8,
        InstallStep::OwnDir(Dir::State) => 7,
        InstallStep::MakeDir(Dir::Runtime) => 6,
        InstallStep::OwnDir(Dir::Runtime) => 5,
        InstallStep::ReadUnit => 4,
        InstallStep::ProbeUnit => 3,
        InstallStep::WriteUnit => 2,
        InstallStep::ReloadDaemon => 1,
        InstallStep::Exit(_) => 0,
    }
}

/// Installing comes to an end, whatever happens: no step comes twice.
pub proof fn install_ends(step: InstallStep, force: bool, result: StepResult)
    requires
        !(step is Exit),
    ensures
        steps_left(after(step, force, result).0) < steps_left(step),
{
}

/// Without force, a configuration or a unit that is there is not written over.
pub proof fn nothing_overwritten_without_force(step: InstallStep, result: StepResult)
    ensures
        after(step, false, result).0 == InstallStep::WriteConfig ==> step
            == InstallStep::ProbeConfig && !(result is Done),
        after(step, false, result).0 == InstallStep::WriteUnit ==> step == InstallStep::ProbeUnit
            && !(result is Done),
{
}

/// Without root privileges nothing is done.
pub proof fn nothing_done_without_root()
    ensures
        first_step(false).0 == InstallStep::Exit(EXIT_PERMISSION_DENIED),
{
}

/// Success is told only at the end, together with its last line.
pub proof fn success_told_at_the_end(step: InstallStep, force: bool, result: StepResult)
    requires
        !(step is Exit),
        after(step, force, result).0 == InstallStep::Exit(EXIT_SUCCESS),
    ensures
        steps_left(step) <= 4,
        after(step, force, result).1.len() > 0,
        after(step, force, result).1.last() == completed(),
{
}

/// Where nothing goes wrong and nothing is there yet, installing makes the user, the directory of
/// the configuration, the configuration, the directories of the service, which it gives to the user,
/// and the unit, has systemd read it, and exits with success.
pub proof fn installing_goes_in_order(force: bool, done: StepResult, missing: StepResult)
    requires
        done is Done,
        missing is Missing,
    ensures
        first_step(true).0 == InstallStep::CheckUser,
        after(InstallStep::CheckUser, force, missing).0 == InstallStep::CreateUser,
        after(InstallStep::CheckUser, force, done).0 == InstallStep::MakeConfigDir,
        after(InstallStep::CreateUser, force, done).0 == InstallStep::MakeConfigDir,
        after(InstallStep::MakeConfigDir, force, done).0 == InstallStep::ProbeConfig,
        after(InstallStep::ProbeConfig, force, missing).0 == InstallStep::WriteConfig,
        after(InstallStep::ProbeConfig, true, done).0 == InstallStep::WriteConfig,
        after(InstallStep::ProbeConfig, false, done).0 == InstallStep::MakeDir(Dir::State),
        after(InstallStep::WriteConfig, force, done).0 == InstallStep::RestrictConfig,
        after(InstallStep::RestrictConfig, force, done).0 == InstallStep::MakeDir(Dir::State),
        after(InstallStep::MakeDir(Dir::State), force, done).0 == InstallStep::OwnDir(Dir::State),
        after(InstallStep::OwnDir(Dir::State), force, done).0 == InstallStep::MakeDir(Dir::Runtime),
        after(InstallStep::MakeDir(Dir::Runtime), force, done).0 == InstallStep::OwnDir(
            Dir::Runtime,
        ),
        after(InstallStep::OwnDir(Dir::Runtime), force, done).0 == InstallStep::ReadUnit,
        after(InstallStep::ReadUnit, force, done).0 == InstallStep::ProbeUnit,
        after(InstallStep::ProbeUnit, force, missing).0 == InstallStep::WriteUnit,
        after(InstallStep::ProbeUnit, true, done).0 == InstallStep::WriteUnit,
        after(InstallStep::ProbeUnit, false, done).0 == InstallStep::Exit(0),
        after(InstallStep::WriteUnit, force, done).0 == InstallStep::ReloadDaemon,
        after(InstallStep::ReloadDaemon, force, done).0 == InstallStep::Exit(0),
{
}

/// A step that the service cannot do without stops the installation with 1 where it fails, and says
/// why; one that it can do without says so and lets the installation go on.
pub proof fn failures_stop_or_warn(step: InstallStep, force: bool, e: String)
    ensures
        ({
            let (next, lines) = after(step, force, StepResult::Failed(e));
            &&& step is CreateUser || step is MakeConfigDir || step is WriteConfig || step
                is MakeDir || step is WriteUnit ==> {
                &&& next == InstallStep::Exit(1)
                &&& lines.len() == 1
                &&& lines[0].len() >= e@.len()
                &&& lines[0].skip(lines[0].len() - e@.len()) == e@
            }
            &&& step is RestrictConfig || step is OwnDir ==> {
                &&& !(next is Exit)
                &&& lines.len() == 1
                &&& lines[0].len() >= e@.len()
                &&& lines[0].skip(lines[0].len() - e@.len()) == e@
            }
            &&& step is ReloadDaemon ==> next == InstallStep::Exit(0) && lines.len() == 2
        }),
{
    let (next, lines) = after(step, force, StepResult::Failed(e));
    if lines.len() == 1 {
        assert(lines[0].skip(lines[0].len() - e@.len()) =~= e@) by {
            if step is CreateUser {
                ends_with_reason("infmonctl: install: failed to run useradd: "@, e@);
            } else if step is MakeConfigDir {
                ends_with_reason("infmonctl: install: failed to create /etc/infmon: "@, e@);
            } else if step is WriteConfig {
                ends_with_reason(
                    "infmonctl: install: failed to write /etc/infmon/config.yaml: "@,
                    e@,
                );
            } else if step is RestrictConfig {
                ends_with_reason(
                    "infmonctl: install: warning: failed to set permissions on /etc/infmon/config.yaml: "@,
                    e@,
                );
            } else if let InstallStep::MakeDir(d) = step {
                ends_with_reason(
                    "infmonctl: install: failed to create "@ + d.path_text() + ": "@,
                    e@,
                );
            } else if let InstallStep::OwnDir(d) = step {
                ends_with_reason(
                    "infmonctl: install: warning: chown "@ + d.path_text() + ": "@,
                    e@,
                );
            } else if step is WriteUnit {
                ends_with_reason(
                    "infmonctl: install: failed to write /etc/systemd/system/infmon.service: "@,
                    e@,
                );
            }
        }
    }
}

proof fn ends_with_reason(head: Seq<char>, e: Seq<char>)
    ensures
        (head + e).skip((head + e).len() - e.len()) == e,
{
    assert((head + e).skip((head + e).len() - e.len()) =~= e);
}

/// A refusal stops the installation with 1 where the user or the configuration is refused, and is
/// passed over with a warning where the owner of a directory or the reload is.
pub proof fn refusals_stop_or_warn(step: InstallStep, force: bool, e: String)
    ensures
        ({
            let (next, lines) = after(step, force, StepResult::Refused(e));
            &&& step is CreateUser ==> {
                &&& next == InstallStep::Exit(1)
                &&& lines == seq![
                    "infmonctl: install: failed to create user 'infmon': "@ + text::trimmed(e@),
                ]
            }
            &&& step is WriteConfig ==> {
                &&& next == InstallStep::Exit(1)
                &&& lines == seq![
                    "infmonctl: install: failed to serialize default config: "@ + e@,
                ]
            }
            &&& step is OwnDir ==> !(next is Exit) && lines.len() == 1
            &&& step is ReloadDaemon ==> next == InstallStep::Exit(0) && lines.len() == 2
        }),
{
}

/// The state of the service lies under `/var/lib`, and what it needs while it runs under `/run`.
pub proof fn directories_are_fixed(d: Dir)
    ensures
        d is State ==> d.path_text() == "/var/lib/infmon"@,
        d is Runtime ==> d.path_text() == "/run/infmon"@,
{
}

} // verus!
