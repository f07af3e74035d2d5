//! Starting and reloading the frontend: what is decided between reading the configuration and
//! running the threads.

use vstd::prelude::*;

use super::exporter::{self, find_factory, ExporterConfig};
use crate::config::model::{self, Config, ExporterEntry, ExtraValue, FlowRule, FrontendConfig};
use crate::config::timeout::{self, Unit};
use crate::config::validate::{self, check_config, try_validate_config, Verdict};
use crate::duration::Duration;
use crate::pairs::{self, Pairs};
use crate::text;
use crate::yaml;

verus! {

/// Why the frontend could not start or reload.
#[derive(Debug, PartialEq, Eq)]
pub enum LifecycleError<S = String> {
    /// The configuration could not be read.
    ConfigError(S),
    /// The backend did not answer.
    BackendUnreachable(S),
    /// There is no exporter of this kind.
    UnknownExporter(S),
    /// An exporter could not be made.
    ExporterInit(S),
    /// The new configuration was not taken; the old one stands.
    ReloadFailed(S),
}

pub type LifecycleErrorView = LifecycleError<Seq<char>>;

impl View for LifecycleError<String> {
    type V = LifecycleErrorView;

    open spec fn view(&self) -> LifecycleErrorView {
        match self {
            LifecycleError::ConfigError(e) => LifecycleError::ConfigError(e@),
            LifecycleError::BackendUnreachable(e) => LifecycleError::BackendUnreachable(e@),
            LifecycleError::UnknownExporter(e) => LifecycleError::UnknownExporter(e@),
            LifecycleError::ExporterInit(e) => LifecycleError::ExporterInit(e@),
            LifecycleError::ReloadFailed(e) => LifecycleError::ReloadFailed(e@),
        }
    }
}

impl LifecycleError<Seq<char>> {
    /// The wording of the error.
    pub open spec fn text(self) -> Seq<char> {
        match self {
            LifecycleError::ConfigError(e) => "config error: "@ + e,
            LifecycleError::BackendUnreachable(e) => "backend unreachable: "@ + e,
            LifecycleError::UnknownExporter(e) => "unknown exporter type: "@ + e,
            LifecycleError::ExporterInit(e) => "exporter init failed: "@ + e,
            LifecycleError::ReloadFailed(e) => "reload failed: "@ + e,
        }
    }
}

impl LifecycleError<String> {
    /// The wording of the error.
    pub fn message(&self) -> (r: String)
        ensures
            r@ == self@.text(),
    {
        match self {
            LifecycleError::ConfigError(e) => text::cat("config error: ", e.as_str()),
            LifecycleError::BackendUnreachable(e) => text::cat("backend unreachable: ", e.as_str()),
            LifecycleError::UnknownExporter(e) => text::cat("unknown exporter type: ", e.as_str()),
            LifecycleError::ExporterInit(e) => text::cat("exporter init failed: ", e.as_str()),
            LifecycleError::ReloadFailed(e) => text::cat("reload failed: ", e.as_str()),
        }
    }
}

// ---------------------------------------------------------------- time spans

/// Whether the seconds of a time span can be counted.
pub open spec fn span_fits(s: Seq<char>) -> bool {
    match timeout::amount(s) {
        Some((v, Unit::Hours)) => v * 3600 <= u64::MAX,
        Some((v, Unit::Minutes)) => v * 60 <= u64::MAX,
        _ => true,
    }
}

/// The length of a time span.
pub open spec fn span_of(s: Seq<char>) -> Option<Duration> {
    match timeout::span_ms(s) {
        Some(ms) => Some(Duration { nanos: (ms * 1_000_000) as u128 }),
        None => None,
    }
}

/// Whether the seconds of a time span can be counted.
pub fn is_span(s: &str) -> (r: bool)
    ensures
        r == span_fits(s@),
{
    match timeout::read_amount(s) {
        Some((v, Unit::Hours)) => v <= u64::MAX / 3600,
        Some((v, Unit::Minutes)) => v <= u64::MAX / 60,
        _ => true,
    }
}

/// The length of a time span like `800ms`, `5s`, `2m` or `1h`; a bare number counts milliseconds.
pub fn parse_duration(s: &str) -> (r: Option<Duration>)
    requires
        span_fits(s@),
    ensures
        r == span_of(s@),
{
    match timeout::read_amount(s) {
        Some((v, Unit::Millis)) => Some(Duration::from_millis(v)),
        Some((v, Unit::Seconds)) => Some(Duration::from_secs(v)),
        Some((v, Unit::Minutes)) => Some(Duration::from_secs(v * 60)),
        Some((v, Unit::Hours)) => Some(Duration::from_secs(v * 3600)),
        None => None,
    }
}

/// A time span that passes the check of a configuration can be counted.
pub proof fn checked_span_fits(s: Seq<char>)
    requires
        timeout::countable(s),
    ensures
        span_fits(s),
{
}

// ---------------------------------------------------------------- exporter settings

/// What an exporter is given for a setting: a string as it is, anything else as YAML without the
/// white space around it.
pub open spec fn setting_text(v: ExtraValue, written: Option<Seq<char>>) -> Seq<char> {
    match v {
        ExtraValue::Text(s) => s@,
        ExtraValue::Yaml(_) => match written {
            Some(w) => text::trimmed(w),
            None => Seq::empty(),
        },
    }
}

/// How the YAML writer puts a setting.
pub open spec fn written_of(v: ExtraValue) -> Option<Seq<char>> {
    match v {
        ExtraValue::Text(_) => None,
        ExtraValue::Yaml(s) => yaml::yaml_text(s@),
    }
}

/// What an exporter is given for a setting that the YAML writer put as `written`.
pub fn setting_string(v: &ExtraValue, written: Option<&str>) -> (r: String)
    ensures
        r@ == setting_text(*v, validate::opt_text(written)),
{
    match v {
        ExtraValue::Text(s) => s.clone(),
        ExtraValue::Yaml(_) => match written {
            Some(w) => text::trim(w).to_owned(),
            None => String::new(),
        },
    }
}

fn render_setting(v: &ExtraValue) -> (r: String)
    ensures
        r@ == setting_text(*v, written_of(*v)),
{
    let written = match v {
        ExtraValue::Text(_) => None,
        ExtraValue::Yaml(s) => yaml::to_text(s.as_str()),
    };
    match &written {
        Some(w) => setting_string(v, Some(w.as_str())),
        None => setting_string(v, None),
    }
}

/// Whether settings are those of an entry, each as text.
pub open spec fn settings_of(
    out: Seq<(Seq<char>, String)>,
    extra: Seq<(Seq<char>, ExtraValue)>,
) -> bool {
    &&& out.len() == extra.len()
    &&& forall|i: int|
        0 <= i < out.len() ==> (#[trigger] out[i]).0 == extra[i].0 && out[i].1@ == setting_text(
            extra[i].1,
            written_of(extra[i].1),
        )
}

/// Whether the settings are those of an entry; a time span that cannot be read counts as 800
/// milliseconds.
pub open spec fn config_of_entry(cfg: ExporterConfig, entry: ExporterEntry) -> bool {
    &&& cfg.kind@ == entry.kind@
    &&& cfg.name@ == entry.name@
    &&& cfg.queue_depth == entry.queue_depth
    &&& cfg.export_timeout == match span_of(entry.export_timeout@) {
        Some(d) => d,
        None => Duration { nanos: 800_000_000 },
    }
    &&& settings_of(cfg.extra@, entry.extra@)
}

/// The settings of an exporter out of its entry in the configuration.
pub fn entry_to_exporter_config(entry: &ExporterEntry) -> (r: ExporterConfig)
    requires
        span_fits(entry.export_timeout@),
        entry.extra.wf(),
    ensures
        config_of_entry(r, *entry),
        r.extra.wf(),
{
    let ghost source = entry.extra@;
    let mut extra: Pairs<String> = Pairs::new();
    let mut i: usize = 0;
    while i < entry.extra.len()
        invariant
            i <= entry.extra@.len(),
            source == entry.extra@,
            entry.extra.wf(),
            extra.wf(),
            settings_of(extra@, source.take(i as int)),
        decreases entry.extra@.len() - i,
    {
        let value = render_setting(entry.extra.value_at(i));
        let ghost before = extra@;
        let ghost key = source[i as int].0;
        let ghost value_text = value@;
        proof {
            pairs::key_position_first(before, key);
            let p = pairs::key_position(before, key) as int;
            if p < before.len() {
                assert(before[p].0 == source.take(i as int)[p].0);
                assert(source[p].0 != source[i as int].0);
            }
        }
        extra.insert(entry.extra.key_at(i).to_owned(), value);
        i = i + 1;
        assert(extra@ =~= before.push((key, value)));
        assert(settings_of(extra@, source.take(i as int))) by {
            let out = extra@;
            let src = source.take(i as int);
            assert forall|k: int| 0 <= k < out.len() implies (#[trigger] out[k]).0 == src[k].0
                && out[k].1@ == setting_text(src[k].1, written_of(src[k].1)) by {
                if k < before.len() {
                    assert(out[k] == before[k]);
                    assert(src[k] == source.take(i - 1)[k]);
                }
            }
        }
    }
    assert(source.take(source.len() as int) =~= source);
    ExporterConfig {
        kind: entry.kind.clone(),
        name: entry.name.clone(),
        queue_depth: entry.queue_depth,
        export_timeout: match parse_duration(entry.export_timeout.as_str()) {
            Some(d) => d,
            None => Duration::from_millis(800),
        },
        extra,
    }
}

// ---------------------------------------------------------------- starting

/// Why there is no configuration to start from.
#[derive(Debug)]
pub enum LoadFailure {
    Read { path: String, reason: String },
    Parse(String),
}

/// The error of a start without a configuration.
pub fn start_failure(f: LoadFailure) -> (r: LifecycleError)
    ensures
        r@ == LifecycleError::<Seq<char>>::ConfigError(
            match f {
                LoadFailure::Read { path, reason } => "cannot read "@ + path@ + ": "@ + reason@,
                LoadFailure::Parse(reason) => "YAML parse error: "@ + reason@,
            },
        ),
{
    match f {
        LoadFailure::Read { path, reason } => {
            let mut s = text::cat3("cannot read ", path.as_str(), ": ");
            s.append(reason.as_str());
            LifecycleError::ConfigError(s)
        },
        LoadFailure::Parse(reason) => LifecycleError::ConfigError(
            text::cat("YAML parse error: ", reason.as_str()),
        ),
    }
}

/// The error of a reload without a configuration.
pub fn reload_failure(f: LoadFailure) -> (r: LifecycleError)
    ensures
        r@ == LifecycleError::<Seq<char>>::ReloadFailed(
            match f {
                LoadFailure::Read { path, reason } => "cannot read config: "@ + reason@,
                LoadFailure::Parse(reason) => "YAML parse error: "@ + reason@,
            },
        ),
{
    match f {
        LoadFailure::Read { path: _, reason } => LifecycleError::ReloadFailed(
            text::cat("cannot read config: ", reason.as_str()),
        ),
        LoadFailure::Parse(reason) => LifecycleError::ReloadFailed(
            text::cat("YAML parse error: ", reason.as_str()),
        ),
    }
}

/// What a start needs of the configuration.
#[derive(Debug)]
pub struct StartPlan {
    pub stats_socket: String,
    pub startup_timeout: Duration,
    pub interval: Duration,
    pub control_socket: String,
    pub exporters: Vec<ExporterConfig>,
    pub flow_rules: Vec<FlowRule>,
}

/// What a start needs of the frontend section.
pub open spec fn frontend_plan(plan: StartPlan, f: FrontendConfig) -> bool {
    &&& plan.stats_socket@ == f.vpp_stats_socket@
    &&& plan.startup_timeout == match span_of(f.startup_timeout@) {
        Some(d) => d,
        None => Duration { nanos: 5_000_000_000 },
    }
    &&& plan.interval.nanos == f.polling_interval_ms * 1_000_000
    &&& plan.control_socket@ == f.control_socket@
}

/// What a start needs where there is no frontend section.
pub open spec fn default_plan(plan: StartPlan) -> bool {
    &&& plan.stats_socket@ == "/run/vpp/stats.sock"@
    &&& plan.startup_timeout.nanos == 5_000_000_000
    &&& plan.interval.nanos == 1_000_000_000
    &&& plan.control_socket@ == "/run/infmon/frontend.sock"@
}

/// The entries of a configuration.
pub open spec fn entries_of(config: Config) -> Seq<ExporterEntry> {
    match config.exporters {
        Some(es) => es@,
        None => Seq::empty(),
    }
}

/// Whether a plan is that of a configuration; without a frontend section the defaults hold.
pub open spec fn plan_of(plan: StartPlan, config: Config) -> bool {
    &&& match config.frontend {
        Some(f) => frontend_plan(plan, f),
        None => default_plan(plan),
    }
    &&& plan.exporters@.len() == entries_of(config).len()
    &&& forall|i: int|
        0 <= i < plan.exporters@.len() ==> config_of_entry(
            #[trigger] plan.exporters@[i],
            entries_of(config)[i],
        )
    &&& model::rule_views(plan.flow_rules@) == model::rule_views(config.flow_rules@)
}

/// Every set of exporter settings has each key once.
pub open spec fn extras_wf(config: Config) -> bool {
    forall|i: int| 0 <= i < entries_of(config).len() ==> (#[trigger] entries_of(config)[i]).extra.wf()
}

fn plan_frontend(
    f: &FrontendConfig,
    exporters: Vec<ExporterConfig>,
    flow_rules: Vec<FlowRule>,
) -> (r: StartPlan)
    requires
        span_fits(f.startup_timeout@),
    ensures
        frontend_plan(r, *f),
        r.exporters == exporters,
        r.flow_rules == flow_rules,
{
    StartPlan {
        stats_socket: f.vpp_stats_socket.clone(),
        startup_timeout: match parse_duration(f.startup_timeout.as_str()) {
            Some(d) => d,
            None => Duration::from_secs(5),
        },
        interval: Duration::from_millis(f.polling_interval_ms),
        control_socket: f.control_socket.clone(),
        exporters,
        flow_rules,
    }
}

proof fn fine_entries(entries: Seq<ExporterEntry>, n: nat)
    requires
        n <= entries.len(),
        validate::entries_verdict(entries, n) is Fine,
    ensures
        forall|i: int|
            0 <= i < n ==> span_fits((#[trigger] entries[i]).export_timeout@),
    decreases n,
{
    if n > 0 {
        fine_entries(entries, (n - 1) as nat);
    }
}

/// Plans a start: gives the error of a configuration that breaks a rule, and nothing where a time
/// span cannot be counted in milliseconds.
pub fn plan_start(config: &Config) -> (r: Option<Result<StartPlan, LifecycleError>>)
    requires
        extras_wf(*config),
    ensures
        match validate::config_verdict(*config) {
            Verdict::Overflows => r is None,
            Verdict::Bad(e) => r is Some && r->Some_0 is Err && r->Some_0->Err_0@
                == LifecycleError::<Seq<char>>::ConfigError("validation error: "@ + e.text()),
            Verdict::Fine => r is Some && r->Some_0 is Ok && plan_of(r->Some_0->Ok_0, *config),
        },
{
    match check_config(config) {
        Verdict::Overflows => {
            return None;
        },
        Verdict::Bad(e) => {
            return Some(
                Err(
                    LifecycleError::ConfigError(
                        text::cat("validation error: ", e.message().as_str()),
                    ),
                ),
            );
        },
        Verdict::Fine => {},
    }
    let ghost entries = entries_of(*config);
    proof {
        fine_entries(entries, entries.len());
    }
    let mut exporters: Vec<ExporterConfig> = Vec::new();
    if let Some(es) = &config.exporters {
        let mut i: usize = 0;
        while i < es.len()
            invariant
                i <= es.len(),
                es@ == entries,
                forall|k: int| 0 <= k < entries.len() ==> (#[trigger] entries[k]).extra.wf(),
                forall|k: int|
                    0 <= k < entries.len() ==> span_fits((#[trigger] entries[k]).export_timeout@),
                exporters.len() == i,
                forall|k: int|
                    0 <= k < i ==> config_of_entry(#[trigger] exporters@[k], entries[k]),
            decreases es.len() - i,
        {
            assert(entries[i as int] == es@[i as int]);
            exporters.push(entry_to_exporter_config(&es[i]));
            i = i + 1;
        }
    }
    let flow_rules = model::copy_rules(&config.flow_rules);
    let plan = match &config.frontend {
        Some(f) => plan_frontend(f, exporters, flow_rules),
        None => {
            let f = FrontendConfig::default();
            StartPlan {
                stats_socket: f.vpp_stats_socket,
                startup_timeout: Duration::from_secs(5),
                interval: Duration::from_millis(f.polling_interval_ms),
                control_socket: f.control_socket,
                exporters,
                flow_rules,
            }
        },
    };
    Some(Ok(plan))
}

/// Checks the configuration of a reload; gives nothing where a time span cannot be counted in
/// milliseconds.
pub fn check_reload(config: &Config) -> (r: Option<Result<(), LifecycleError>>)
    ensures
        match validate::config_verdict(*config) {
            Verdict::Overflows => r is None,
            Verdict::Bad(e) => r is Some && r->Some_0 is Err && r->Some_0->Err_0@
                == LifecycleError::<Seq<char>>::ReloadFailed("validation error: "@ + e.text()),
            Verdict::Fine => r is Some && r->Some_0 is Ok,
        },
{
    match try_validate_config(config) {
        None => None,
        Some(Ok(_)) => Some(Ok(())),
        Some(Err(e)) => Some(
            Err(
                LifecycleError::ReloadFailed(text::cat("validation error: ", e.message().as_str())),
            ),
        ),
    }
}

// ---------------------------------------------------------------- waiting for the backend

/// What is seen while waiting for the backend.
#[derive(Clone, Copy, Debug, PartialEq, Eq, Structural)]
pub enum ProbeEvent {
    /// So much time has gone by.
    Elapsed(Duration),
    /// The backend answered, or not.
    Probed(bool),
}

/// What is to be done while waiting for the backend.
#[derive(Clone, Copy, Debug, PartialEq, Eq, Structural)]
pub enum ProbeAction {
    /// Try the backend: `Probed`.
    Probe,
    /// Sleep and look at the clock: `Elapsed`.
    Sleep(Duration),
    /// The backend is there.
    Ready,
    /// The time is up.
    GiveUp,
}

/// The backend is tried every 200 milliseconds as long as the time is not up.
pub open spec fn after_probe(timeout: Duration, event: ProbeEvent) -> ProbeAction {
    match event {
        ProbeEvent::Elapsed(t) => if t.nanos < timeout.nanos {
            ProbeAction::Probe
        } else {
            ProbeAction::GiveUp
        },
        ProbeEvent::Probed(ok) => if ok {
            ProbeAction::Ready
        } else {
            ProbeAction::Sleep(Duration { nanos: 200_000_000 })
        },
    }
}

/// What is to be done next while waiting for the backend.
pub fn probe_step(timeout: Duration, event: ProbeEvent) -> (r: ProbeAction)
    ensures
        r == after_probe(timeout, event),
{
    match event {
        ProbeEvent::Elapsed(t) => if t.nanos < timeout.nanos {
            ProbeAction::Probe
        } else {
            ProbeAction::GiveUp
        },
        ProbeEvent::Probed(ok) => if ok {
            ProbeAction::Ready
        } else {
            ProbeAction::Sleep(Duration::from_millis(200))
        },
    }
}

/// The start goes on only once the backend has answered.
pub proof fn only_an_answer_is_ready(timeout: Duration, event: ProbeEvent)
    ensures
        after_probe(timeout, event) == ProbeAction::Ready <==> event == ProbeEvent::Probed(true),
{
}

/// The error of a backend that did not answer in time; `waited` tells the time.
pub fn unreachable_backend(socket: &str, waited: &str) -> (r: LifecycleError)
    ensures
        r@ == LifecycleError::<Seq<char>>::BackendUnreachable(
            "stats socket at "@ + socket@ + " not reachable within "@ + waited@,
        ),
{
    let mut s = text::cat3("stats socket at ", socket, " not reachable within ");
    s.append(waited);
    LifecycleError::BackendUnreachable(s)
}

/// A span of whole seconds and nanoseconds as it is written in messages, such as `1.5s`.
pub uninterp spec fn span_text(secs: u64, nanos: u32) -> Seq<char>;

/// The `Debug` format of `std::time::Duration` writes a span that `std::time::Duration::new` makes
/// of seconds and nanoseconds. How it picks the unit and the digits is not spelled out: the result
/// is named. `new` panics only where whole seconds are left over in the nanoseconds.
#[verifier::external_body]
fn show_span(secs: u64, nanos: u32) -> (r: String)
    requires
        nanos < 1_000_000_000,
    ensures
        r@ == span_text(secs, nanos),
{
    format!("{:?}", std::time::Duration::new(secs, nanos))
}

/// The error of a backend that did not answer within `timeout`.
pub fn startup_timed_out(socket: &str, timeout: Duration) -> (r: LifecycleError)
    requires
        timeout.nanos / 1_000_000_000 <= u64::MAX,
    ensures
        r@ == LifecycleError::<Seq<char>>::BackendUnreachable(
            "stats socket at "@ + socket@ + " not reachable within "@ + span_text(
                (timeout.nanos / 1_000_000_000) as u64,
                (timeout.nanos % 1_000_000_000) as u32,
            ),
        ),
{
    let waited = show_span(
        (timeout.nanos / 1_000_000_000) as u64,
        (timeout.nanos % 1_000_000_000) as u32,
    );
    unreachable_backend(socket, waited.as_str())
}

// ---------------------------------------------------------------- making exporters

/// Which of the registered kinds makes an exporter.
pub fn exporter_factory(kinds: &Vec<String>, cfg: &ExporterConfig) -> (r: Result<
    usize,
    LifecycleError,
>)
    ensures
        ({
            let k = exporter::first_of_kind(exporter::texts(kinds@), cfg.kind@);
            if k < kinds.len() {
                r is Ok && r->Ok_0 == k
            } else {
                r is Err && r->Err_0@ == LifecycleError::<Seq<char>>::UnknownExporter(cfg.kind@)
            }
        }),
{
    match find_factory(kinds, cfg.kind.as_str()) {
        Some(i) => Ok(i),
        None => Err(LifecycleError::UnknownExporter(cfg.kind.clone())),
    }
}

/// The error of an exporter that could not be made.
pub fn exporter_not_made(name: &str, reason: &str) -> (r: LifecycleError)
    ensures
        r@ == LifecycleError::<Seq<char>>::ExporterInit(name@ + ": "@ + reason@),
{
    LifecycleError::ExporterInit(text::cat3(name, ": ", reason))
}

/// The error of an exporter whose thread could not be started.
pub fn exporter_not_started(name: &str, reason: &str) -> (r: LifecycleError)
    ensures
        r@ == LifecycleError::<Seq<char>>::ExporterInit("spawn "@ + name@ + ": "@ + reason@),
{
    let mut s = text::cat3("spawn ", name, ": ");
    s.append(reason);
    LifecycleError::ExporterInit(s)
}

// ---------------------------------------------------------------- laws

/// A span of so many units lasts that long.
pub proof fn spans_last_by_unit(n: nat)
    requires
        3_600_000 * n * 1_000_000 <= u128::MAX,
        n <= u64::MAX,
    ensures
        span_of(text::decimal(n)) matches Some(d) && d.nanos == 1_000_000 * n,
        span_of(text::decimal(n) + seq!['m', 's']) matches Some(d) && d.nanos == 1_000_000 * n,
        span_of(text::decimal(n) + seq!['s']) matches Some(d) && d.nanos == 1_000_000_000 * n,
        span_of(text::decimal(n) + seq!['m']) matches Some(d) && d.nanos == 60_000_000_000 * n,
        span_of(text::decimal(n) + seq!['h']) matches Some(d) && d.nanos == 3_600_000_000_000 * n,
{
    timeout::spans_are_read_by_unit(n);
}

/// A start takes each setting of the frontend section where it belongs, and every exporter and rule
/// in order.
pub proof fn plans_follow_the_configuration(plan: StartPlan, config: Config)
    requires
        plan_of(plan, config),
    ensures
        config.frontend matches Some(f) ==> {
            &&& plan.stats_socket@ == f.vpp_stats_socket@
            &&& plan.control_socket@ == f.control_socket@
            &&& plan.interval.nanos == 1_000_000 * f.polling_interval_ms
            &&& timeout::span_ms(f.startup_timeout@) matches Some(ms) ==> (ms <= u64::MAX
                ==> plan.startup_timeout.nanos == 1_000_000 * ms)
            &&& timeout::span_ms(f.startup_timeout@) is None ==> plan.startup_timeout.nanos
                == 5_000_000_000
        },
        config.frontend is None ==> {
            &&& plan.stats_socket@ == "/run/vpp/stats.sock"@
            &&& plan.control_socket@ == "/run/infmon/frontend.sock"@
            &&& plan.interval.nanos == 1_000_000_000
            &&& plan.startup_timeout.nanos == 5_000_000_000
        },
        config.exporters matches Some(es) ==> {
            &&& plan.exporters@.len() == es@.len()
            &&& forall|i: int|
                0 <= i < es@.len() ==> {
                    &&& (#[trigger] plan.exporters@[i]).kind@ == es@[i].kind@
                    &&& plan.exporters@[i].name@ == es@[i].name@
                    &&& plan.exporters@[i].queue_depth == es@[i].queue_depth
                    &&& timeout::span_ms(es@[i].export_timeout@) matches Some(ms) ==> (ms
                        <= u64::MAX ==> plan.exporters@[i].export_timeout.nanos == 1_000_000 * ms)
                    &&& plan.exporters@[i].extra@.len() == es@[i].extra@.len()
                    &&& forall|k: int|
                        0 <= k < es@[i].extra@.len() ==> {
                            &&& (#[trigger] plan.exporters@[i].extra@[k]).0 == es@[i].extra@[k].0
                            &&& es@[i].extra@[k].1 matches ExtraValue::Text(s)
                                ==> plan.exporters@[i].extra@[k].1@ == s@
                        }
                }
        },
        config.exporters is None ==> plan.exporters@.len() == 0,
        plan.flow_rules@.len() == config.flow_rules@.len(),
        forall|i: int|
            0 <= i < plan.flow_rules@.len() ==> (#[trigger] plan.flow_rules@[i])@
                == config.flow_rules@[i]@,
{
    assert(model::rule_views(plan.flow_rules@).len() == plan.flow_rules@.len());
    assert(model::rule_views(config.flow_rules@).len() == config.flow_rules@.len());
    assert forall|i: int| 0 <= i < plan.flow_rules@.len() implies (
    #[trigger] plan.flow_rules@[i])@ == config.flow_rules@[i]@ by {
        assert(model::rule_views(plan.flow_rules@)[i] == model::rule_views(
            config.flow_rules@,
        )[i]);
    }
    if let Some(es) = config.exporters {
        assert forall|i: int| 0 <= i < es@.len() implies {
            &&& (#[trigger] plan.exporters@[i]).kind@ == es@[i].kind@
            &&& plan.exporters@[i].name@ == es@[i].name@
            &&& plan.exporters@[i].queue_depth == es@[i].queue_depth
            &&& timeout::span_ms(es@[i].export_timeout@) matches Some(ms) ==> (ms <= u64::MAX
                ==> plan.exporters@[i].export_timeout.nanos == 1_000_000 * ms)
            &&& plan.exporters@[i].extra@.len() == es@[i].extra@.len()
            &&& forall|k: int|
                0 <= k < es@[i].extra@.len() ==> {
                    &&& (#[trigger] plan.exporters@[i].extra@[k]).0 == es@[i].extra@[k].0
                    &&& es@[i].extra@[k].1 matches ExtraValue::Text(s)
                        ==> plan.exporters@[i].extra@[k].1@ == s@
                }
        } by {
            assert(config_of_entry(plan.exporters@[i], entries_of(config)[i]));
        }
    }
}

/// The backend is tried as long as the time is not up, with a fifth of a second in between, and
/// given up once the time is up.
pub proof fn backend_is_awaited(timeout: Duration, elapsed: Duration)
    ensures
        elapsed.nanos < timeout.nanos ==> after_probe(timeout, ProbeEvent::Elapsed(elapsed))
            == ProbeAction::Probe,
        elapsed.nanos >= timeout.nanos ==> after_probe(timeout, ProbeEvent::Elapsed(elapsed))
            == ProbeAction::GiveUp,
        after_probe(timeout, ProbeEvent::Probed(true)) == ProbeAction::Ready,
        after_probe(timeout, ProbeEvent::Probed(false)) matches ProbeAction::Sleep(d) && d.nanos
            == 200_000_000,
{
}

/// The wording of an error ends with its reason in full, and starts differently for each kind.
pub proof fn errors_tell_their_reason(e: LifecycleErrorView)
    ensures
        e matches LifecycleError::ConfigError(s) ==> e.text()[0] == 'c' && e.text().skip(14) == s,
        e matches LifecycleError::BackendUnreachable(s) ==> e.text()[0] == 'b' && e.text().skip(21)
            == s,
        e matches LifecycleError::UnknownExporter(s) ==> e.text()[0] == 'u' && e.text().skip(23)
            == s,
        e matches LifecycleError::ExporterInit(s) ==> e.text()[0] == 'e' && e.text().skip(22) == s,
        e matches LifecycleError::ReloadFailed(s) ==> e.text()[0] == 'r' && e.text().skip(15) == s,
{
    reveal_strlit("config error: ");
    reveal_strlit("backend unreachable: ");
    reveal_strlit("unknown exporter type: ");
    reveal_strlit("exporter init failed: ");
    reveal_strlit("reload failed: ");
}

/// A setting that is no plain string is handed on as it is written in YAML, without the white space
/// around it, and as nothing where it cannot be written.
pub proof fn settings_are_handed_on(v: ExtraValue, written: Option<Seq<char>>)
    ensures
        v matches ExtraValue::Text(s) ==> setting_text(v, written) == s@,
        v is Yaml && written is Some ==> setting_text(v, written) == text::trimmed(
            written->Some_0,
        ),
        v is Yaml && written is None ==> setting_text(v, written).len() == 0,
{
}

/// An exporter whose time cannot be read has eight tenths of a second for an export.
pub proof fn unreadable_times_count_800ms(cfg: ExporterConfig, entry: ExporterEntry)
    requires
        config_of_entry(cfg, entry),
        timeout::span_ms(entry.export_timeout@) is None,
    ensures
        cfg.export_timeout.nanos == 800_000_000,
{
}

} // verus!
