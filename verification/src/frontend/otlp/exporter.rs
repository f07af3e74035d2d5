//! The exporter: its settings, and what one export does.

use vstd::prelude::*;

use super::attributes::{self, kv_string};
use super::batch;
use super::budget;
use super::model::{
    self, ExportMetricsServiceRequest, InstrumentationScope, KeyValue, KeyValueView, MetricView,
    Resource, ResourceMetricsView, ScopeMetricsView,
};
use super::request;
use crate::duration::Duration;
use crate::frontend::exporter::{ConfigError, Exporter, ExporterConfig, ExporterMetrics};
use crate::ipc::types::{FlowRuleStats, FlowStatsSnapshot};
use crate::pairs::{self, Pairs};
use crate::text;

verus! {

/// The data points that one request may carry unless the settings say otherwise.
pub const DEFAULT_MAX_EXPORT_POINTS_PER_TICK: u64 = 2_000_000;

/// The data points that one batch may carry unless the settings say otherwise.
pub const DEFAULT_MAX_BATCH_POINTS: usize = 8192;

/// What the exporter says about the machine it runs on.
#[derive(Debug)]
pub struct HostInfo {
    pub version: String,
    pub hostname: Option<String>,
    pub arch: String,
    pub machine_id: Option<String>,
    pub instance_id: String,
}

/// Sends metrics by OTLP.
#[derive(Debug)]
pub struct OtlpExporter {
    pub name: String,
    pub endpoint: String,
    pub instance_id_path: Option<String>,
    pub max_export_points_per_tick: u64,
    pub max_batch_points: usize,
    pub export_timeout: Duration,
    pub resource_attrs: Vec<KeyValue>,
    pub version: String,
    pub metrics: ExporterMetrics,
}

// ---------------------------------------------------------------- settings

/// A text setting.
pub open spec fn setting(extra: Seq<(Seq<char>, String)>, key: Seq<char>) -> Option<Seq<char>> {
    match pairs::lookup(extra, key) {
        Some(v) => Some(v@),
        None => None,
    }
}

/// A number setting; one that is missing or no number takes the given value.
pub open spec fn number_setting(
    extra: Seq<(Seq<char>, String)>,
    key: Seq<char>,
    max: nat,
    default: nat,
) -> nat {
    match setting(extra, key) {
        None => default,
        Some(s) => match text::parse_uint(s, 10, max) {
            Ok(v) => v,
            Err(_) => default,
        },
    }
}

/// Where the metrics go; empty where the settings do not say.
pub open spec fn endpoint_of(extra: Seq<(Seq<char>, String)>) -> Seq<char> {
    match setting(extra, "endpoint"@) {
        Some(s) => s,
        None => Seq::empty(),
    }
}

/// The file that holds the instance id: the one that the settings name, or else a fixed one.
pub open spec fn instance_id_file(extra: Seq<(Seq<char>, String)>) -> Seq<char> {
    match setting(extra, "instance_id_path"@) {
        Some(s) => s,
        None => "/var/lib/infmon/instance_id"@,
    }
}

/// The attributes of the machine.
pub open spec fn host_attrs(host: HostInfo) -> Seq<KeyValueView> {
    let base = seq![
        attributes::text_attr("service.name"@, "infmon-frontend"@),
        attributes::text_attr("service.namespace"@, "infmon"@),
        attributes::text_attr("service.version"@, host.version@),
    ];
    let named = match host.hostname {
        Some(h) => base.push(attributes::text_attr("host.name"@, h@)),
        None => base,
    };
    let built = named.push(attributes::text_attr("host.arch"@, host.arch@));
    let identified = match host.machine_id {
        Some(m) => if text::trimmed(m@).len() > 0 {
            built.push(attributes::text_attr("host.id"@, text::trimmed(m@)))
        } else {
            built
        },
        None => built,
    };
    identified.push(attributes::text_attr("service.instance.id"@, host.instance_id@))
}

/// The attribute that a setting adds: one under `resource.` and a name adds the name.
pub open spec fn setting_attr(key: Seq<char>, value: Seq<char>) -> Seq<KeyValueView> {
    let prefix = "resource."@;
    if text::starts(key, prefix) && key.len() > prefix.len() {
        seq![attributes::text_attr(key.skip(prefix.len() as int), value)]
    } else {
        Seq::empty()
    }
}

/// The attributes that the first `n` settings add.
pub open spec fn setting_attrs(extra: Seq<(Seq<char>, String)>, n: nat) -> Seq<KeyValueView>
    decreases n,
{
    if n == 0 {
        Seq::empty()
    } else {
        setting_attrs(extra, (n - 1) as nat) + setting_attr(extra[n - 1].0, extra[n - 1].1@)
    }
}

fn get_text(extra: &Pairs<String>, key: &str) -> (r: Option<String>)
    ensures
        match r {
            Some(s) => setting(extra@, key@) == Some(s@),
            None => setting(extra@, key@) is None,
        },
{
    match extra.get(key) {
        Some(v) => Some(v.clone()),
        None => None,
    }
}

fn get_number(extra: &Pairs<String>, key: &str, max: u64, default: u64) -> (r: u64)
    requires
        default <= max,
    ensures
        r == number_setting(extra@, key@, max as nat, default as nat),
        r <= max,
{
    match extra.get(key) {
        None => default,
        Some(v) => {
            proof {
                text::parsed_within(v@, 10, max as nat);
            }
            match text::parse_chars(&text::chars_of(v.as_str()), 10, max) {
                Ok(n) => n,
                Err(_) => default,
            }
        },
    }
}

fn push_attr(v: &mut Vec<KeyValue>, a: KeyValue)
    ensures
        model::attr_views(final(v)@) == model::attr_views(old(v)@).push(a@),
{
    let ghost before = v@;
    v.push(a);
    assert(model::attr_views(v@) =~= model::attr_views(before).push(a@));
}

fn make_host_attrs(host: &HostInfo) -> (r: Vec<KeyValue>)
    ensures
        model::attr_views(r@) == host_attrs(*host),
{
    let mut r: Vec<KeyValue> = Vec::new();
    push_attr(&mut r, kv_string("service.name", "infmon-frontend"));
    push_attr(&mut r, kv_string("service.namespace", "infmon"));
    push_attr(&mut r, kv_string("service.version", host.version.as_str()));
    assert(model::attr_views(r@) =~= seq![
        attributes::text_attr("service.name"@, "infmon-frontend"@),
        attributes::text_attr("service.namespace"@, "infmon"@),
        attributes::text_attr("service.version"@, host.version@),
    ]);
    if let Some(h) = &host.hostname {
        push_attr(&mut r, kv_string("host.name", h.as_str()));
    }
    push_attr(&mut r, kv_string("host.arch", host.arch.as_str()));
    if let Some(m) = &host.machine_id {
        let id = text::trim(m.as_str());
        if !id.is_empty() {
            push_attr(&mut r, kv_string("host.id", id));
        }
    }
    push_attr(&mut r, kv_string("service.instance.id", host.instance_id.as_str()));
    r
}

fn push_setting_attrs(r: &mut Vec<KeyValue>, extra: &Pairs<String>)
    ensures
        model::attr_views(final(r)@) == model::attr_views(old(r)@) + setting_attrs(
            extra@,
            extra@.len(),
        ),
{
    let ghost start = model::attr_views(r@);
    let mut i: usize = 0;
    assert(start + setting_attrs(extra@, 0) =~= start);
    while i < extra.len()
        invariant
            i <= extra@.len(),
            model::attr_views(r@) == start + setting_attrs(extra@, i as nat),
        decreases extra@.len() - i,
    {
        let key = extra.key_at(i);
        let ghost added = setting_attr(key@, extra@[i as int].1@);
        let ghost before = model::attr_views(r@);
        let n: usize = "resource.".unicode_len();
        let len: usize = key.unicode_len();
        if text::starts_with(key, "resource.") && len > n {
            assert(key@.subrange(n as int, len as int) =~= key@.skip(n as int));
            push_attr(r, kv_string(key.substring_char(n, len), extra.value_at(i).as_str()));
            assert(model::attr_views(r@) =~= before + added);
        } else {
            assert(before + added =~= before);
        }
        assert(start + setting_attrs(extra@, i as nat + 1) =~= start + setting_attrs(
            extra@,
            i as nat,
        ) + added);
        i = i + 1;
    }
}

/// Where the metrics go; the settings have to say.
pub fn endpoint_setting(cfg: &ExporterConfig) -> (r: Result<String, String>)
    ensures
        match r {
            Ok(s) => s@ == endpoint_of(cfg.extra@) && s@.len() > 0,
            Err(e) => {
                &&& endpoint_of(cfg.extra@).len() == 0
                &&& e@ == "OTLP exporter requires a non-empty 'endpoint'"@
            },
        },
{
    if let Some(endpoint) = get_text(&cfg.extra, "endpoint") {
        if !endpoint.as_str().is_empty() {
            return Ok(endpoint);
        }
    }
    Err("OTLP exporter requires a non-empty 'endpoint'".to_owned())
}

/// The file that holds the instance id.
pub fn instance_id_path(cfg: &ExporterConfig) -> (r: String)
    ensures
        r@ == instance_id_file(cfg.extra@),
{
    match get_text(&cfg.extra, "instance_id_path") {
        Some(path) => path,
        None => "/var/lib/infmon/instance_id".to_owned(),
    }
}

impl OtlpExporter {
    /// An exporter with the given settings; they have to say where the metrics go.
    pub fn new(cfg: &ExporterConfig, host: &HostInfo) -> (r: Result<OtlpExporter, String>)
        ensures
            match r {
                Err(e) => {
                    &&& endpoint_of(cfg.extra@).len() == 0
                    &&& e@ == "OTLP exporter requires a non-empty 'endpoint'"@
                },
                Ok(x) => {
                    &&& endpoint_of(cfg.extra@).len() > 0
                    &&& x.name@ == cfg.name@
                    &&& x.endpoint@ == endpoint_of(cfg.extra@)
                    &&& x.instance_id_path is Some == setting(
                        cfg.extra@,
                        "instance_id_path"@,
                    ) is Some
                    &&& x.instance_id_path matches Some(p) ==> setting(
                        cfg.extra@,
                        "instance_id_path"@,
                    ) == Some(p@)
                    &&& x.max_export_points_per_tick == number_setting(
                        cfg.extra@,
                        "max_export_points_per_tick"@,
                        u64::MAX as nat,
                        DEFAULT_MAX_EXPORT_POINTS_PER_TICK as nat,
                    )
                    &&& x.max_batch_points == number_setting(
                        cfg.extra@,
                        "max_batch_points"@,
                        usize::MAX as nat,
                        DEFAULT_MAX_BATCH_POINTS as nat,
                    )
                    &&& x.export_timeout == cfg.export_timeout
                    &&& model::attr_views(x.resource_attrs@) == host_attrs(*host) + setting_attrs(
                        cfg.extra@,
                        cfg.extra@.len(),
                    )
                    &&& x.version@ == host.version@
                    &&& x.metrics == ExporterMetrics::zero()
                },
            },
    {
        let endpoint = match endpoint_setting(cfg) {
            Ok(s) => s,
            Err(e) => {
                return Err(e);
            },
        };
        let max_export_points_per_tick: u64 = get_number(
            &cfg.extra,
            "max_export_points_per_tick",
            u64::MAX,
            DEFAULT_MAX_EXPORT_POINTS_PER_TICK,
        );
        let max_batch_points: usize = get_number(
            &cfg.extra,
            "max_batch_points",
            usize::MAX as u64,
            DEFAULT_MAX_BATCH_POINTS as u64,
        ) as usize;
        let mut resource_attrs = make_host_attrs(host);
        push_setting_attrs(&mut resource_attrs, &cfg.extra);
        Ok(
            OtlpExporter {
                name: cfg.name.clone(),
                endpoint,
                instance_id_path: get_text(&cfg.extra, "instance_id_path"),
                max_export_points_per_tick,
                max_batch_points,
                export_timeout: cfg.export_timeout,
                resource_attrs,
                version: host.version.clone(),
                metrics: ExporterMetrics::default(),
            },
        )
    }

    /// The exporter after a request for `rules` was built.
    pub open spec fn after_build(self, rules: Seq<FlowRuleStats>) -> OtlpExporter {
        OtlpExporter {
            metrics: request::counted_in(self.metrics, rules, self.max_export_points_per_tick),
            ..self
        }
    }

    /// The metrics of a snapshot: those of flows and rules, and those of the exporter itself as
    /// its counters stand once the request is built.
    pub open spec fn metrics_of(self, rules: Seq<FlowRuleStats>, wall: u64) -> Seq<MetricView> {
        request::data_metrics(rules, self.max_export_points_per_tick, wall)
            + request::self_metrics(self.after_build(rules).metrics, wall)
    }

    /// The request of a snapshot.
    pub open spec fn request_of(
        self,
        rules: Seq<FlowRuleStats>,
        wall: u64,
    ) -> Seq<ResourceMetricsView> {
        seq![
            ResourceMetricsView {
                resource: Some(model::attr_views(self.resource_attrs@)),
                scope_metrics: seq![
                    ScopeMetricsView {
                        scope: Some(
                            InstrumentationScope { name: "infmon"@, version: self.version@ },
                        ),
                        metrics: self.metrics_of(rules, wall),
                        schema_url: Seq::empty(),
                    },
                ],
                schema_url: Seq::empty(),
            },
        ]
    }

    /// How many data points of flows and rules a request carries.
    pub open spec fn points_built(self, rules: Seq<FlowRuleStats>) -> nat {
        3 * budget::emitted_in(rules, self.max_export_points_per_tick, rules.len()) + 5
            * rules.len()
    }

    /// Builds the request of a snapshot, and says how many data points of flows and rules it
    /// carries.
    pub fn build_request(&mut self, snap: &FlowStatsSnapshot) -> (r: (
        ExportMetricsServiceRequest,
        u64,
    ))
        requires
            budget::countable(snap.flow_rules@),
        ensures
            *final(self) == old(self).after_build(snap.flow_rules@),
            r.0@ == old(self).request_of(snap.flow_rules@, snap.wall_clock_ns),
            r.1 == old(self).points_built(snap.flow_rules@),
    {
        let ghost rules = snap.flow_rules@;
        let ghost start = *self;
        let mut cut: u64 = self.metrics.attrs_truncated;
        let built = request::build_metrics(
            &snap.flow_rules,
            self.max_export_points_per_tick,
            snap.wall_clock_ns,
            &mut cut,
        );
        self.metrics.attrs_truncated = cut;
        self.metrics.points_dropped = self.metrics.points_dropped.wrapping_add(built.dropped);
        let mut metrics = built.metrics;
        request::push_self_metrics(&mut metrics, &self.metrics, snap.wall_clock_ns);
        let r = batch::wrap_batch(
            metrics,
            Some(Resource { attributes: model::copy_attrs(&self.resource_attrs) }),
            Some(
                InstrumentationScope {
                    name: "infmon".to_owned(),
                    version: self.version.clone(),
                },
            ),
            String::new(),
            String::new(),
        );
        assert(r@ =~= start.request_of(rules, snap.wall_clock_ns));
        (r, built.points)
    }

    /// Cuts a request into batches of at most `max_batch_points` data points; zero turns batching
    /// off.
    pub fn slice_into_batches(&self, request: ExportMetricsServiceRequest) -> (r: Vec<
        ExportMetricsServiceRequest,
    >)
        requires
            model::points_in(model::request_metrics(request@)) <= usize::MAX,
            batch::whole(request@, self.max_batch_points as nat) || batch::single(request@),
        ensures
            batch::request_views(r@) == batch::sliced(request@, self.max_batch_points as nat),
    {
        batch::slice_request(request, self.max_batch_points)
    }
}

impl Exporter for OtlpExporter {
    fn kind(&self) -> (r: &'static str)
        ensures
            r@ == "otlp"@,
    {
        "otlp"
    }

    fn name(&self) -> (r: &str)
        ensures
            r@ == self.name@,
    {
        self.name.as_str()
    }

    fn reload(&self, cfg: &ExporterConfig) -> (r: Result<(), ConfigError>)
        ensures
            r is Err,
            r->Err_0.0@ == "OTLP exporter requires restart to apply config changes"@,
    {
        Err(ConfigError("OTLP exporter requires restart to apply config changes".to_owned()))
    }

    fn metrics(&self) -> (r: Option<&ExporterMetrics>)
        ensures
            r == Some(&self.metrics),
    {
        Some(&self.metrics)
    }
}

// ---------------------------------------------------------------- laws

/// Whether the attributes tell a text under a key.
pub open spec fn tell(s: Seq<KeyValueView>, key: Seq<char>, value: Seq<char>) -> bool {
    exists|i: int| 0 <= i < s.len() && attributes::tells_text(#[trigger] s[i], key, value)
}

/// The machine is described by what is known of it, each thing under its key: the program, its
/// version and its instance always, the name and the id of the host where there is one.
pub proof fn machine_is_described(host: HostInfo)
    ensures
        ({
            let s = host_attrs(host);
            &&& tell(s, "service.name"@, "infmon-frontend"@)
            &&& tell(s, "service.namespace"@, "infmon"@)
            &&& tell(s, "service.version"@, host.version@)
            &&& tell(s, "host.arch"@, host.arch@)
            &&& tell(s, "service.instance.id"@, host.instance_id@)
            &&& host.hostname matches Some(h) ==> tell(s, "host.name"@, h@)
            &&& host.machine_id matches Some(m) ==> (text::trimmed(m@).len() > 0 ==> tell(
                s,
                "host.id"@,
                text::trimmed(m@),
            ))
            &&& s.len() == 5 + (if host.hostname is Some {
                1int
            } else {
                0
            }) + (if host.machine_id is Some && text::trimmed(host.machine_id->Some_0@).len() > 0 {
                1int
            } else {
                0
            })
        }),
{
    let s = host_attrs(host);
    let n = s.len() as int;
    let named: int = if host.hostname is Some {
        1
    } else {
        0
    };
    assert(attributes::tells_text(s[0], "service.name"@, "infmon-frontend"@));
    assert(attributes::tells_text(s[1], "service.namespace"@, "infmon"@));
    assert(attributes::tells_text(s[2], "service.version"@, host.version@));
    if host.hostname is Some {
        assert(attributes::tells_text(s[3], "host.name"@, host.hostname->Some_0@));
    }
    assert(attributes::tells_text(s[3 + named], "host.arch"@, host.arch@));
    if host.machine_id is Some && text::trimmed(host.machine_id->Some_0@).len() > 0 {
        assert(attributes::tells_text(
            s[4 + named],
            "host.id"@,
            text::trimmed(host.machine_id->Some_0@),
        ));
    }
    assert(attributes::tells_text(s[n - 1], "service.instance.id"@, host.instance_id@));
}

/// A setting under `resource.` and a name adds what it says under the name, and no other setting
/// adds anything.
pub proof fn settings_add_attributes(extra: Seq<(Seq<char>, String)>, n: nat)
    requires
        n <= extra.len(),
    ensures
        forall|i: int, name: Seq<char>|
            0 <= i < n && name.len() > 0 && (#[trigger] extra[i]).0 == "resource."@ + name
                ==> #[trigger] tell(setting_attrs(extra, n), name, extra[i].1@),
        forall|j: int|
            0 <= j < setting_attrs(extra, n).len() ==> exists|i: int|
                {
                    &&& 0 <= i < n
                    &&& (#[trigger] extra[i]).0 == "resource."@ + (#[trigger] setting_attrs(
                        extra,
                        n,
                    )[j]).key
                    &&& setting_attrs(extra, n)[j].key.len() > 0
                    &&& attributes::tells_text(
                        setting_attrs(extra, n)[j],
                        setting_attrs(extra, n)[j].key,
                        extra[i].1@,
                    )
                },
    decreases n,
{
    let all = setting_attrs(extra, n);
    if n > 0 {
        let before = setting_attrs(extra, (n - 1) as nat);
        let key = extra[n - 1].0;
        let p = "resource."@;
        settings_add_attributes(extra, (n - 1) as nat);
        assert forall|i: int, name: Seq<char>|
            0 <= i < n && name.len() > 0 && (#[trigger] extra[i]).0 == "resource."@
                + name implies #[trigger] tell(all, name, extra[i].1@) by {
            if i < n - 1 {
                assert(tell(before, name, extra[i].1@));
                let j = choose|j: int|
                    0 <= j < before.len() && attributes::tells_text(
                        #[trigger] before[j],
                        name,
                        extra[i].1@,
                    );
                assert(all[j] == before[j]);
            } else {
                assert((p + name).skip(p.len() as int) =~= name);
                assert((p + name).take(p.len() as int) =~= p);
                assert(text::starts(key, p));
                assert(attributes::tells_text(all[before.len() as int], name, extra[i].1@));
            }
        }
        assert forall|j: int| 0 <= j < all.len() implies exists|i: int|
            {
                &&& 0 <= i < n
                &&& (#[trigger] extra[i]).0 == "resource."@ + (#[trigger] all[j]).key
                &&& all[j].key.len() > 0
                &&& attributes::tells_text(all[j], all[j].key, extra[i].1@)
            } by {
            if j < before.len() {
                assert(all[j] == before[j]);
                let i = choose|i: int|
                    {
                        &&& 0 <= i < n - 1
                        &&& (#[trigger] extra[i]).0 == "resource."@ + (#[trigger] before[j]).key
                        &&& before[j].key.len() > 0
                        &&& attributes::tells_text(before[j], before[j].key, extra[i].1@)
                    };
                assert(extra[i].0 == p + all[j].key);
            } else {
                assert(key =~= p + key.skip(p.len() as int));
                assert(extra[n - 1].0 == p + all[j].key);
            }
        }
    }
}

/// A number setting is the number that its text writes out, and the given one where it is missing.
pub proof fn number_settings_are_read(
    extra: Seq<(Seq<char>, String)>,
    key: Seq<char>,
    max: nat,
    default: nat,
    n: nat,
)
    requires
        n <= max,
    ensures
        (forall|i: int| 0 <= i < extra.len() ==> (#[trigger] extra[i]).0 != key) ==> number_setting(
            extra,
            key,
            max,
            default,
        ) == default,
        (exists|i: int|
            {
                &&& 0 <= i < extra.len()
                &&& (#[trigger] extra[i]).0 == key
                &&& extra[i].1@ == text::decimal(n)
                &&& forall|j: int| 0 <= j < i ==> (#[trigger] extra[j]).0 != key
            }) ==> number_setting(extra, key, max, default) == n,
{
    pairs::key_position_first(extra, key);
    text::decimal_round_trip(n, max);
}

/// A request carries two million data points of flows at most, and a batch of it 8192, unless the
/// settings say otherwise.
pub proof fn limits_without_settings(extra: Seq<(Seq<char>, String)>)
    requires
        forall|i: int|
            0 <= i < extra.len() ==> (#[trigger] extra[i]).0 != "max_export_points_per_tick"@
                && extra[i].0 != "max_batch_points"@,
    ensures
        number_setting(
            extra,
            "max_export_points_per_tick"@,
            u64::MAX as nat,
            DEFAULT_MAX_EXPORT_POINTS_PER_TICK as nat,
        ) == 2_000_000,
        number_setting(
            extra,
            "max_batch_points"@,
            usize::MAX as nat,
            DEFAULT_MAX_BATCH_POINTS as nat,
        ) == 8192,
{
    pairs::key_position_first(extra, "max_export_points_per_tick"@);
    pairs::key_position_first(extra, "max_batch_points"@);
}

/// The place that the metrics go to, and the file of the instance id, are what the settings of these
/// names say; the file is a fixed one where no setting says.
pub proof fn places_are_set(extra: Seq<(Seq<char>, String)>, i: int)
    requires
        0 <= i < extra.len(),
        pairs::distinct_keys(extra),
    ensures
        extra[i].0 == "endpoint"@ ==> endpoint_of(extra) == extra[i].1@,
        extra[i].0 == "instance_id_path"@ ==> instance_id_file(extra) == extra[i].1@,
        (forall|j: int| 0 <= j < extra.len() ==> (#[trigger] extra[j]).0 != "endpoint"@)
            ==> endpoint_of(extra).len() == 0,
        (forall|j: int| 0 <= j < extra.len() ==> (#[trigger] extra[j]).0 != "instance_id_path"@)
            ==> instance_id_file(extra) == "/var/lib/infmon/instance_id"@,
{
    pairs::key_position_first(extra, "endpoint"@);
    pairs::key_position_first(extra, "instance_id_path"@);
}

} // verus!
