//! One export: the batches of a snapshot are sent one by one, each with a few tries.

use vstd::prelude::*;

use super::attributes;
use super::batch;
use super::budget;
use super::exporter::OtlpExporter;
use super::model::{
    self, ExportMetricsServiceRequest, Metric, MetricView, ResourceMetricsView, ScopeMetricsView,
    Shape,
};
use super::request::{self, FlowMeasure, RuleMeasure};
use crate::duration::Duration;
use crate::frontend::exporter::{ExporterError, ExporterMetrics};
use crate::ipc::types::{FlowRuleStats, FlowStatsSnapshot};
use crate::text;

verus! {

// ---------------------------------------------------------------- endpoint

/// The address to connect to: one without a scheme gets `http://`.
pub open spec fn uri_of(endpoint: Seq<char>) -> Seq<char> {
    if text::starts(endpoint, "http://"@) || text::starts(endpoint, "https://"@) {
        endpoint
    } else {
        "http://"@ + endpoint
    }
}

/// The address to connect to: one without a scheme gets `http://`.
pub fn endpoint_uri(endpoint: &str) -> (r: String)
    ensures
        r@ == uri_of(endpoint@),
{
    if text::starts_with(endpoint, "http://") || text::starts_with(endpoint, "https://") {
        endpoint.to_owned()
    } else {
        text::cat("http://", endpoint)
    }
}

// ---------------------------------------------------------------- instance id

/// The text of a random UUID: lower case hexadecimal digits in groups of 8, 4, 4, 4 and 12, with
/// the version and the variant in their places.
pub open spec fn is_random_uuid(s: Seq<char>) -> bool {
    &&& s.len() == 36
    &&& s[14] == '4'
    &&& (s[19] == '8' || s[19] == '9' || s[19] == 'a' || s[19] == 'b')
    &&& forall|i: int|
        0 <= i < 36 ==> if i == 8 || i == 13 || i == 18 || i == 23 {
            #[trigger] s[i] == '-'
        } else {
            '0' <= s[i] <= '9' || 'a' <= s[i] <= 'f'
        }
}

/// `uuid::Uuid::new_v4` makes a UUID from random bits and sets its version and its variant;
/// its text is in lower case with hyphens. Which UUID comes is left to chance. The operating
/// system's source of random bits is taken to work: without it the call panics.
#[verifier::external_body]
fn new_uuid() -> (r: String)
    ensures
        is_random_uuid(r@),
{
    uuid::Uuid::new_v4().to_string()
}

/// The instance id in the text of a file, where there is one.
pub fn stored_instance_id(content: &str) -> (r: Option<String>)
    ensures
        match r {
            Some(id) => id@ == text::trimmed(content@) && id@.len() > 0,
            None => text::trimmed(content@).len() == 0,
        },
{
    let id = text::trim(content);
    if id.is_empty() {
        None
    } else {
        Some(id.to_owned())
    }
}

/// The instance id: the one that was stored, or a new one, which the caller has to store.
///
/// `stored` is what the file holds, if it could be read. The flag says whether the id is new.
pub fn load_or_create_instance_id(stored: Option<&str>) -> (r: (String, bool))
    ensures
        r.1 == !(stored is Some && text::trimmed(stored->Some_0@).len() > 0),
        r.1 ==> is_random_uuid(r.0@),
        !r.1 ==> r.0@ == text::trimmed(stored->Some_0@),
{
    if let Some(content) = stored {
        if let Some(id) = stored_instance_id(content) {
            return (id, false);
        }
    }
    (new_uuid(), true)
}

// ---------------------------------------------------------------- tries

/// How often a batch is tried again.
pub const MAX_RETRIES: u32 = 3;

/// The longest a try may be put off after `attempt` failures: one second doubled with each of
/// them, up to thirty.
pub open spec fn retry_pause(attempt: nat) -> Duration
    decreases attempt,
{
    if attempt == 0 {
        Duration { nanos: 1_000_000_000 }
    } else {
        retry_pause((attempt - 1) as nat).doubled_up_to(Duration { nanos: 30_000_000_000 })
    }
}

/// The longest a try may be put off after `attempt` failures.
pub fn backoff_max(attempt: u32) -> (r: Duration)
    ensures
        r == retry_pause(attempt as nat),
{
    let cap = Duration::from_secs(30);
    let mut r = Duration::from_secs(1);
    let mut i: u32 = 0;
    while i < attempt
        invariant
            i <= attempt,
            cap == (Duration { nanos: 30_000_000_000 }),
            r == retry_pause(i as nat),
        decreases attempt - i,
    {
        r = r.doubled(cap);
        i = i + 1;
    }
    r
}

/// The pauses grow from one second to thirty.
pub proof fn retry_pause_grows(attempt: nat)
    ensures
        1_000_000_000 <= retry_pause(attempt).nanos <= 30_000_000_000,
        retry_pause(attempt).nanos <= retry_pause(attempt + 1).nanos,
    decreases attempt,
{
    if attempt > 0 {
        retry_pause_grows((attempt - 1) as nat);
    }
}

/// The status codes of gRPC.
#[derive(Clone, Copy, Debug, PartialEq, Eq, Structural)]
pub enum Code {
    Success,
    Cancelled,
    Unknown,
    InvalidArgument,
    DeadlineExceeded,
    NotFound,
    AlreadyExists,
    PermissionDenied,
    ResourceExhausted,
    FailedPrecondition,
    Aborted,
    OutOfRange,
    Unimplemented,
    Internal,
    Unavailable,
    DataLoss,
    Unauthenticated,
}

/// Whether a batch that was refused with this code may be taken later.
pub open spec fn retryable(code: Code) -> bool {
    ||| code == Code::Unavailable
    ||| code == Code::DeadlineExceeded
    ||| code == Code::ResourceExhausted
    ||| code == Code::Aborted
}

/// Whether a batch that was refused with this code may be taken later.
pub fn is_retryable(code: Code) -> (r: bool)
    ensures
        r == retryable(code),
{
    match code {
        Code::Unavailable | Code::DeadlineExceeded | Code::ResourceExhausted | Code::Aborted => true,
        _ => false,
    }
}

/// How one try to send a batch came out.
#[derive(Debug)]
pub enum Attempt<S = String> {
    Sent,
    /// There was no connection.
    NoClient(S),
    /// The other side refused.
    Refused { code: Code, reason: S },
    TimedOut,
}

impl View for Attempt<String> {
    type V = Attempt<Seq<char>>;

    open spec fn view(&self) -> Attempt<Seq<char>> {
        match self {
            Attempt::Sent => Attempt::Sent,
            Attempt::NoClient(e) => Attempt::NoClient(e@),
            Attempt::Refused { code, reason } => Attempt::Refused { code: *code, reason: reason@ },
            Attempt::TimedOut => Attempt::TimedOut,
        }
    }
}

/// What comes after a try.
#[derive(Debug)]
pub enum RetryStep<S = String> {
    /// The batch is through.
    Done,
    /// Wait for a part of `pause`, and try again; a connection that may be bad is dropped first.
    Again { drop_client: bool, pause: Duration },
    /// Give the batch up.
    Fail { drop_client: bool, error: ExporterError<S> },
}

impl View for RetryStep<String> {
    type V = RetryStep<Seq<char>>;

    open spec fn view(&self) -> RetryStep<Seq<char>> {
        match self {
            RetryStep::Done => RetryStep::Done,
            RetryStep::Again { drop_client, pause } => RetryStep::Again {
                drop_client: *drop_client,
                pause: *pause,
            },
            RetryStep::Fail { drop_client, error } => RetryStep::Fail {
                drop_client: *drop_client,
                error: error@,
            },
        }
    }
}

/// What comes after try number `attempt`, counted from zero: a refusal that will not pass gives
/// the batch up at once; anything else is tried again until the tries are used up.
pub open spec fn after_attempt(attempt: nat, outcome: Attempt<Seq<char>>) -> RetryStep<
    Seq<char>,
> {
    let again = |drop_client: bool, error: ExporterError<Seq<char>>|
        if attempt < MAX_RETRIES {
            RetryStep::Again { drop_client, pause: retry_pause(attempt + 1) }
        } else {
            RetryStep::Fail { drop_client, error }
        };
    match outcome {
        Attempt::Sent => RetryStep::Done,
        Attempt::NoClient(e) => again(false, ExporterError::Transient(e)),
        Attempt::Refused { code, reason } => if retryable(code) {
            again(true, ExporterError::Transient(reason))
        } else {
            RetryStep::Fail { drop_client: false, error: ExporterError::Permanent(reason) }
        },
        Attempt::TimedOut => again(true, ExporterError::Timeout),
    }
}

fn again_or_fail(attempt: u32, drop_client: bool, error: ExporterError) -> (r: RetryStep)
    requires
        attempt <= MAX_RETRIES,
    ensures
        r@ == (if attempt < MAX_RETRIES {
            RetryStep::Again { drop_client, pause: retry_pause(attempt as nat + 1) }
        } else {
            RetryStep::Fail { drop_client, error: error@ }
        }),
{
    if attempt < MAX_RETRIES {
        RetryStep::Again { drop_client, pause: backoff_max(attempt + 1) }
    } else {
        RetryStep::Fail { drop_client, error }
    }
}

/// What comes after try number `attempt`, counted from zero.
pub fn retry_step(attempt: u32, outcome: Attempt) -> (r: RetryStep)
    requires
        attempt <= MAX_RETRIES,
    ensures
        r@ == after_attempt(attempt as nat, outcome@),
{
    match outcome {
        Attempt::Sent => RetryStep::Done,
        Attempt::NoClient(e) => again_or_fail(attempt, false, ExporterError::Transient(e)),
        Attempt::Refused { code, reason } => if is_retryable(code) {
            again_or_fail(attempt, true, ExporterError::Transient(reason))
        } else {
            RetryStep::Fail { drop_client: false, error: ExporterError::Permanent(reason) }
        },
        Attempt::TimedOut => again_or_fail(attempt, true, ExporterError::Timeout),
    }
}

/// A batch is tried at most four times, whatever comes back.
pub proof fn tries_end(outcome: Attempt<Seq<char>>)
    ensures
        !(after_attempt(MAX_RETRIES as nat, outcome) is Again),
{
}

/// A batch counts as sent exactly when a try sent it, and a refusal that will not pass is never
/// tried again.
pub proof fn only_sent_is_done(attempt: nat, outcome: Attempt<Seq<char>>)
    ensures
        after_attempt(attempt, outcome) is Done <==> outcome is Sent,
        (outcome matches Attempt::Refused { code, reason } && !retryable(code))
            ==> after_attempt(attempt, outcome) == (RetryStep::<Seq<char>>::Fail {
            drop_client: false,
            error: ExporterError::Permanent(outcome->reason),
        }),
{
}

/// Whether a try that came out so may be followed by another.
pub open spec fn may_pass(outcome: Attempt<Seq<char>>) -> bool {
    match outcome {
        Attempt::Sent => false,
        Attempt::NoClient(_) => true,
        Attempt::Refused { code, .. } => retryable(code),
        Attempt::TimedOut => true,
    }
}

/// What sending a batch comes to from try number `attempt` on, where the tries come out as told.
pub open spec fn sent_with_retry(outcomes: Seq<Attempt<Seq<char>>>, attempt: nat) -> Result<
    (),
    ExporterError<Seq<char>>,
>
    decreases outcomes.len() - attempt,
{
    if attempt >= outcomes.len() {
        Err(ExporterError::Timeout)
    } else {
        match after_attempt(attempt, outcomes[attempt as int]) {
            RetryStep::Done => Ok(()),
            RetryStep::Fail { error, .. } => Err(error),
            RetryStep::Again { .. } => sent_with_retry(outcomes, attempt + 1),
        }
    }
}

/// What sending a batch comes to: the first of its tries after which no other may follow decides,
/// by success or by a refusal that will not pass; where all tries might have been followed by
/// another, the last one says why the batch is given up.
pub proof fn first_final_try_decides(outcomes: Seq<Attempt<Seq<char>>>, k: int)
    requires
        outcomes.len() == MAX_RETRIES + 1,
        0 <= k < outcomes.len(),
        forall|i: int| 0 <= i < k ==> may_pass(#[trigger] outcomes[i]),
        may_pass(outcomes[k]) ==> k == MAX_RETRIES,
    ensures
        sent_with_retry(outcomes, 0) == (match outcomes[k] {
            Attempt::Sent => Ok::<(), ExporterError<Seq<char>>>(()),
            Attempt::NoClient(e) => Err(ExporterError::Transient(e)),
            Attempt::Refused { code, reason } => if retryable(code) {
                Err(ExporterError::Transient(reason))
            } else {
                Err(ExporterError::Permanent(reason))
            },
            Attempt::TimedOut => Err(ExporterError::Timeout),
        }),
{
    final_try_from(outcomes, k, 0);
}

proof fn final_try_from(outcomes: Seq<Attempt<Seq<char>>>, k: int, from: nat)
    requires
        outcomes.len() == MAX_RETRIES + 1,
        from <= k < outcomes.len(),
        forall|i: int| 0 <= i < k ==> may_pass(#[trigger] outcomes[i]),
        may_pass(outcomes[k]) ==> k == MAX_RETRIES,
    ensures
        sent_with_retry(outcomes, from) == sent_with_retry(outcomes, k as nat),
    decreases k - from,
{
    if from < k {
        assert(may_pass(outcomes[from as int]));
        final_try_from(outcomes, k, from + 1);
    }
}

// ---------------------------------------------------------------- accounting

/// What an export has done so far.
#[derive(Clone, Copy, Debug, PartialEq, Eq, Structural)]
pub struct ExportRun {
    /// Whether a batch was given up.
    pub failed: bool,
    /// The data points of the batches that went through.
    pub points_emitted: u64,
}

/// How a batch or an export came out.
pub open spec fn outcome_view(r: Result<(), ExporterError>) -> Result<
    (),
    ExporterError<Seq<char>>,
> {
    match r {
        Ok(_) => Ok(()),
        Err(e) => Err(e@),
    }
}

/// The error that ends an export at once: a batch that failed for good.
pub open spec fn ended_by(result: Result<(), ExporterError<Seq<char>>>) -> Option<
    ExporterError<Seq<char>>,
> {
    match result {
        Err(ExporterError::Permanent(e)) => Some(ExporterError::Permanent(e)),
        _ => None,
    }
}

impl ExportRun {
    pub fn new() -> (r: ExportRun)
        ensures
            r == (ExportRun { failed: false, points_emitted: 0 }),
    {
        ExportRun { failed: false, points_emitted: 0 }
    }

    /// The counters once a batch of `points` came out as `result`.
    pub open spec fn counters_after(
        self,
        m: ExporterMetrics,
        result: Result<(), ExporterError<Seq<char>>>,
    ) -> ExporterMetrics {
        match result {
            Ok(_) => ExporterMetrics { batches_sent: m.batches_sent.wrapping_add(1), ..m },
            Err(ExporterError::Permanent(_)) => ExporterMetrics {
                batches_failed_non_retryable: m.batches_failed_non_retryable.wrapping_add(1),
                points_emitted: m.points_emitted.wrapping_add(self.points_emitted),
                ..m
            },
            Err(_) => ExporterMetrics {
                batches_failed_transient: m.batches_failed_transient.wrapping_add(1),
                ..m
            },
        }
    }

    /// What the export has done once a batch of `points` came out as `result`.
    pub open spec fn after(
        self,
        points: u64,
        result: Result<(), ExporterError<Seq<char>>>,
    ) -> ExportRun {
        match result {
            Ok(_) => ExportRun {
                failed: self.failed,
                points_emitted: (self.points_emitted + points) as u64,
            },
            Err(ExporterError::Permanent(_)) => self,
            Err(_) => ExportRun { failed: true, points_emitted: self.points_emitted },
        }
    }

    /// The counters at the end of an export that built `points_built` data points.
    pub open spec fn counters_at_end(self, m: ExporterMetrics, points_built: u64) -> ExporterMetrics {
        ExporterMetrics {
            points_emitted: m.points_emitted.wrapping_add(
                if self.failed {
                    self.points_emitted
                } else {
                    points_built
                },
            ),
            ..m
        }
    }

    /// The result of an export whose batches were all tried.
    pub open spec fn result_at_end(self) -> Result<(), ExporterError<Seq<char>>> {
        if self.failed {
            Err(ExporterError::Transient("some batches failed after retries"@))
        } else {
            Ok(())
        }
    }

    /// Takes the outcome of a batch; a permanent failure ends the export and is handed back, any
    /// other leaves the remaining batches to be tried.
    pub fn batch_done(
        &mut self,
        metrics: &mut ExporterMetrics,
        points: u64,
        result: Result<(), ExporterError>,
    ) -> (r: Option<ExporterError>)
        requires
            old(self).points_emitted + points <= u64::MAX,
        ensures
            *final(metrics) == old(self).counters_after(*old(metrics), outcome_view(result)),
            *final(self) == old(self).after(points, outcome_view(result)),
            match ended_by(outcome_view(result)) {
                Some(e) => r is Some && r->Some_0@ == e,
                None => r is None,
            },
    {
        match result {
            Ok(_) => {
                metrics.batches_sent = metrics.batches_sent.wrapping_add(1);
                self.points_emitted = self.points_emitted + points;
                None
            },
            Err(ExporterError::Permanent(e)) => {
                metrics.batches_failed_non_retryable =
                    metrics.batches_failed_non_retryable.wrapping_add(1);
                metrics.points_emitted = metrics.points_emitted.wrapping_add(self.points_emitted);
                Some(ExporterError::Permanent(e))
            },
            Err(_) => {
                metrics.batches_failed_transient =
                    metrics.batches_failed_transient.wrapping_add(1);
                self.failed = true;
                None
            },
        }
    }

    /// Ends the export: where every batch went through, all data points that were built count as
    /// sent; otherwise those of the batches that went through.
    pub fn finish(self, metrics: &mut ExporterMetrics, points_built: u64) -> (r: Result<
        (),
        ExporterError,
    >)
        ensures
            *final(metrics) == self.counters_at_end(*old(metrics), points_built),
            outcome_view(r) == self.result_at_end(),
    {
        if !self.failed {
            metrics.points_emitted = metrics.points_emitted.wrapping_add(points_built);
            Ok(())
        } else {
            metrics.points_emitted = metrics.points_emitted.wrapping_add(self.points_emitted);
            Err(ExporterError::Transient("some batches failed after retries".to_owned()))
        }
    }
}

// ---------------------------------------------------------------- a whole export

/// How one batch came out: its data points, and the result of sending it.
pub struct BatchOutcome {
    pub points: u64,
    pub result: Result<(), ExporterError<Seq<char>>>,
}

/// Where an export stands: what it has done, its counters, and the error that ended it.
pub struct ExportState {
    pub run: ExportRun,
    pub metrics: ExporterMetrics,
    pub ended: Option<ExporterError<Seq<char>>>,
}

/// Where an export stands after its batches came out as told; nothing is sent after a batch that
/// failed for good.
pub open spec fn after_batches(m: ExporterMetrics, bs: Seq<BatchOutcome>) -> ExportState
    decreases bs.len(),
{
    if bs.len() == 0 {
        ExportState {
            run: ExportRun { failed: false, points_emitted: 0 },
            metrics: m,
            ended: None,
        }
    } else {
        let s = after_batches(m, bs.drop_last());
        let b = bs.last();
        if s.ended is Some {
            s
        } else {
            ExportState {
                run: s.run.after(b.points, b.result),
                metrics: s.run.counters_after(s.metrics, b.result),
                ended: ended_by(b.result),
            }
        }
    }
}

/// The counters after an export, and its result.
pub open spec fn exported(m: ExporterMetrics, bs: Seq<BatchOutcome>, points_built: u64) -> (
    ExporterMetrics,
    Result<(), ExporterError<Seq<char>>>,
) {
    let s = after_batches(m, bs);
    match s.ended {
        Some(e) => (s.metrics, Err(e)),
        None => (s.run.counters_at_end(s.metrics, points_built), s.run.result_at_end()),
    }
}

/// The batches that an export comes to send: all, or those up to the first that fails for good.
pub open spec fn tried(bs: Seq<BatchOutcome>) -> Seq<BatchOutcome>
    decreases bs.len(),
{
    if bs.len() == 0 {
        Seq::empty()
    } else {
        let before = tried(bs.drop_last());
        if ends(before) {
            before
        } else {
            before.push(bs.last())
        }
    }
}

/// Whether the last of the batches failed for good.
pub open spec fn ends(bs: Seq<BatchOutcome>) -> bool {
    bs.len() > 0 && ended_by(bs.last().result) is Some
}

/// How many of the batches went through.
pub open spec fn sent_in(bs: Seq<BatchOutcome>) -> nat
    decreases bs.len(),
{
    if bs.len() == 0 {
        0
    } else {
        sent_in(bs.drop_last()) + if bs.last().result is Ok {
            1nat
        } else {
            0nat
        }
    }
}

/// How many data points the batches that went through hold.
pub open spec fn points_sent_in(bs: Seq<BatchOutcome>) -> nat
    decreases bs.len(),
{
    if bs.len() == 0 {
        0
    } else {
        points_sent_in(bs.drop_last()) + if bs.last().result is Ok {
            bs.last().points as nat
        } else {
            0nat
        }
    }
}

/// How many of the batches were given up, though they might have gone through later.
pub open spec fn given_up_in(bs: Seq<BatchOutcome>) -> nat
    decreases bs.len(),
{
    if bs.len() == 0 {
        0
    } else {
        given_up_in(bs.drop_last()) + if bs.last().result is Err && ended_by(
            bs.last().result,
        ) is None {
            1nat
        } else {
            0nat
        }
    }
}

/// Every batch went through.
pub open spec fn all_sent(bs: Seq<BatchOutcome>) -> bool {
    forall|i: int| 0 <= i < bs.len() ==> (#[trigger] bs[i]).result is Ok
}

/// The batches that are tried are the first ones: none of them but the last failed for good, and
/// where some are left, the last did.
pub proof fn tried_up_to_first_fatal(bs: Seq<BatchOutcome>)
    ensures
        tried(bs).len() <= bs.len(),
        tried(bs) == bs.take(tried(bs).len() as int),
        forall|i: int|
            0 <= i < tried(bs).len() - 1 ==> ended_by((#[trigger] bs[i]).result) is None,
        tried(bs).len() < bs.len() ==> ends(tried(bs)),
    decreases bs.len(),
{
    if bs.len() > 0 {
        let front = bs.drop_last();
        tried_up_to_first_fatal(front);
        let before = tried(front);
        let n = before.len() as int;
        assert forall|i: int| 0 <= i < tried(bs).len() - 1 implies ended_by(
            (#[trigger] bs[i]).result,
        ) is None by {
            assert(front[i] == bs[i]);
            if i == n - 1 {
                assert(before.last() == front[i]);
            }
        }
        if ends(before) {
            assert(front.take(n) =~= bs.take(n));
        } else {
            assert(front.take(n) =~= front);
            assert(before.push(bs.last()) =~= bs.take(n + 1));
        }
    } else {
        assert(bs.take(0) =~= bs);
    }
}

proof fn tried_state(m: ExporterMetrics, bs: Seq<BatchOutcome>)
    ensures
        ({
            let s = after_batches(m, bs);
            let t = tried(bs);
            &&& s.ended == (if ends(t) {
                ended_by(t.last().result)
            } else {
                None
            })
            &&& s.run.failed == (given_up_in(t) > 0)
            &&& points_sent_in(t) <= u64::MAX ==> s.run.points_emitted == points_sent_in(t)
            &&& s.metrics == (ExporterMetrics {
                batches_sent: attributes::counted(m.batches_sent, sent_in(t)),
                batches_failed_transient: attributes::counted(
                    m.batches_failed_transient,
                    given_up_in(t),
                ),
                batches_failed_non_retryable: attributes::counted(
                    m.batches_failed_non_retryable,
                    if ends(t) {
                        1
                    } else {
                        0
                    },
                ),
                points_emitted: if ends(t) {
                    m.points_emitted.wrapping_add(s.run.points_emitted)
                } else {
                    m.points_emitted
                },
                ..m
            })
        }),
    decreases bs.len(),
{
    if bs.len() > 0 {
        tried_state(m, bs.drop_last());
        let before = tried(bs.drop_last());
        if !ends(before) {
            assert(tried(bs).drop_last() =~= before);
        }
    }
}

proof fn all_sent_iff(bs: Seq<BatchOutcome>)
    ensures
        all_sent(bs) <==> !ends(tried(bs)) && given_up_in(tried(bs)) == 0,
    decreases bs.len(),
{
    if bs.len() > 0 {
        let front = bs.drop_last();
        all_sent_iff(front);
        let before = tried(front);
        if !ends(before) {
            assert(tried(bs).drop_last() =~= before);
        }
        assert(bs.last() == bs[bs.len() - 1]);
        if all_sent(bs) {
            assert forall|i: int| 0 <= i < front.len() implies (#[trigger] front[i]).result is Ok by {
                assert(front[i] == bs[i]);
            }
        }
        if all_sent(front) && bs.last().result is Ok {
            assert forall|i: int| 0 <= i < bs.len() implies (#[trigger] bs[i]).result is Ok by {
                if i < front.len() {
                    assert(front[i] == bs[i]);
                }
            }
        }
    }
}

/// What a whole export comes to. It succeeds exactly when every batch went through; the first batch
/// that fails for good ends it and is its result; where others were given up, it says so. Each batch
/// that was tried is counted as what it came out as, and the data points that count as sent are
/// those that were built where all went through, and otherwise those of the batches that did.
pub proof fn whole_export(m: ExporterMetrics, bs: Seq<BatchOutcome>, points_built: u64)
    ensures
        ({
            let (after, result) = exported(m, bs, points_built);
            let t = tried(bs);
            &&& result is Ok <==> all_sent(bs)
            &&& ends(t) ==> result == t.last().result
            &&& !ends(t) && !all_sent(bs) ==> result == Err::<(), ExporterError<Seq<char>>>(
                ExporterError::Transient("some batches failed after retries"@),
            )
            &&& after.batches_sent == attributes::counted(m.batches_sent, sent_in(t))
            &&& after.batches_failed_transient == attributes::counted(
                m.batches_failed_transient,
                given_up_in(t),
            )
            &&& after.batches_failed_non_retryable == attributes::counted(
                m.batches_failed_non_retryable,
                if ends(t) {
                    1
                } else {
                    0
                },
            )
            &&& all_sent(bs) ==> after.points_emitted == m.points_emitted.wrapping_add(
                points_built,
            )
            &&& !all_sent(bs) && points_sent_in(t) <= u64::MAX ==> after.points_emitted
                == m.points_emitted.wrapping_add(points_sent_in(t) as u64)
        }),
{
    tried_state(m, bs);
    all_sent_iff(bs);
}

// ---------------------------------------------------------------- preparing an export

/// A snapshot ready to be sent.
#[derive(Debug)]
pub struct Prepared {
    /// The batches, in the order in which they are sent.
    pub batches: Vec<ExportMetricsServiceRequest>,
    /// How many data points each batch holds.
    pub batch_points: Vec<u64>,
    /// How many data points of flows and rules all of them hold.
    pub points_built: u64,
}

/// A metric without data has no data points.
pub proof fn views_have_true_shapes(ms: Seq<Metric>)
    ensures
        batch::shapes_true(model::metric_views(ms)),
{
    let v = model::metric_views(ms);
    assert forall|i: int|
        0 <= i < v.len() && (#[trigger] v[i]).shape == Shape::NoData implies v[i].points.len()
        == 0 by {
        assert(v[i] == ms[i]@);
        if ms[i].data is Some {
            assert(ms[i].data->Some_0.shape() != Shape::NoData);
        }
    }
}

proof fn points_of_optional(m: MetricView)
    ensures
        model::points_in(request::unless_empty(m)) == m.points.len(),
{
    reveal_with_fuel(model::points_in, 2);
    if m.points.len() > 0 {
        assert(seq![m].drop_last() =~= Seq::<MetricView>::empty());
    }
}

proof fn flow_points_len(
    rules: Seq<FlowRuleStats>,
    limit: u64,
    wall: u64,
    what: FlowMeasure,
    n: nat,
)
    ensures
        request::flow_points(rules, limit, wall, what, n).len() == budget::emitted_in(
            rules,
            limit,
            n,
        ),
    decreases n,
{
    if n > 0 {
        flow_points_len(rules, limit, wall, what, (n - 1) as nat);
    }
}

proof fn self_points(m: ExporterMetrics, wall: u64)
    ensures
        model::points_in(request::self_metrics(m, wall)) == 10,
{
    reveal_with_fuel(model::points_in, 10);
    let s = request::self_metrics(m, wall);
    assert(s.drop_last() =~= s.take(8));
    assert(s.take(8).drop_last() =~= s.take(7));
    assert(s.take(7).drop_last() =~= s.take(6));
    assert(s.take(6).drop_last() =~= s.take(5));
    assert(s.take(5).drop_last() =~= s.take(4));
    assert(s.take(4).drop_last() =~= s.take(3));
    assert(s.take(3).drop_last() =~= s.take(2));
    assert(s.take(2).drop_last() =~= s.take(1));
    assert(s.take(1).drop_last() =~= Seq::<MetricView>::empty());
}

/// A request holds the data points of flows and rules that are counted as built, and ten of the
/// exporter itself.
pub proof fn request_point_count(x: OtlpExporter, rules: Seq<FlowRuleStats>, wall: u64)
    ensures
        model::points_in(x.metrics_of(rules, wall)) == x.points_built(rules) + 10,
{
    let limit = x.max_export_points_per_tick;
    let a = request::unless_empty(request::flow_metric(rules, limit, wall, FlowMeasure::Packets));
    let b = request::unless_empty(request::flow_metric(rules, limit, wall, FlowMeasure::Bytes));
    let c = request::unless_empty(request::flow_metric(rules, limit, wall, FlowMeasure::LastSeen));
    let d = request::unless_empty(request::rule_metric(rules, wall, RuleMeasure::Flows));
    let e = request::unless_empty(request::rule_metric(rules, wall, RuleMeasure::Evictions));
    let f = request::unless_empty(request::rule_metric(rules, wall, RuleMeasure::Drops));
    let g = request::unless_empty(request::rule_metric(rules, wall, RuleMeasure::Packets));
    let h = request::unless_empty(request::rule_metric(rules, wall, RuleMeasure::Bytes));
    points_of_optional(request::flow_metric(rules, limit, wall, FlowMeasure::Packets));
    points_of_optional(request::flow_metric(rules, limit, wall, FlowMeasure::Bytes));
    points_of_optional(request::flow_metric(rules, limit, wall, FlowMeasure::LastSeen));
    points_of_optional(request::rule_metric(rules, wall, RuleMeasure::Flows));
    points_of_optional(request::rule_metric(rules, wall, RuleMeasure::Evictions));
    points_of_optional(request::rule_metric(rules, wall, RuleMeasure::Drops));
    points_of_optional(request::rule_metric(rules, wall, RuleMeasure::Packets));
    points_of_optional(request::rule_metric(rules, wall, RuleMeasure::Bytes));
    flow_points_len(rules, limit, wall, FlowMeasure::Packets, rules.len());
    flow_points_len(rules, limit, wall, FlowMeasure::Bytes, rules.len());
    flow_points_len(rules, limit, wall, FlowMeasure::LastSeen, rules.len());
    batch::points_in_add(a, b);
    batch::points_in_add(a + b, c);
    batch::points_in_add(a + b + c, d);
    batch::points_in_add(a + b + c + d, e);
    batch::points_in_add(a + b + c + d + e, f);
    batch::points_in_add(a + b + c + d + e + f, g);
    batch::points_in_add(a + b + c + d + e + f + g, h);
    let own = request::self_metrics(x.after_build(rules).metrics, wall);
    self_points(x.after_build(rules).metrics, wall);
    batch::points_in_add(request::data_metrics(rules, limit, wall), own);
}

proof fn single_request_metrics(r: Seq<ResourceMetricsView>)
    requires
        batch::single(r),
    ensures
        model::request_metrics(r) == r[0].scope_metrics[0].metrics,
{
    reveal_with_fuel(model::request_metrics, 2);
    reveal_with_fuel(model::scopes_metrics, 2);
    assert(r.drop_last() =~= Seq::<ResourceMetricsView>::empty());
    assert(r[0].scope_metrics.drop_last() =~= Seq::<ScopeMetricsView>::empty());
    assert(model::request_metrics(r) =~= r[0].scope_metrics[0].metrics);
}

/// The sizes of batches.
pub open spec fn sizes(bs: Seq<Seq<ResourceMetricsView>>) -> Seq<u64> {
    bs.map_values(
        |b: Seq<ResourceMetricsView>| model::points_in(model::request_metrics(b)) as u64,
    )
}

proof fn sliced_sizes(req: Seq<ResourceMetricsView>, max: nat)
    requires
        batch::single(req),
        batch::shapes_true(req[0].scope_metrics[0].metrics),
    ensures
        forall|i: int|
            0 <= i < batch::sliced(req, max).len() ==> ({
                let b = #[trigger] batch::sliced(req, max)[i];
                model::points_in(model::request_metrics(b)) <= model::points_in(
                    model::request_metrics(req),
                ) || model::points_in(model::request_metrics(b)) <= max
            }),
{
    single_request_metrics(req);
    if !batch::whole(req, max) {
        let ms = model::request_metrics(req);
        batch::batches_keep_points(ms, max);
        assert forall|i: int| 0 <= i < batch::sliced(req, max).len() implies ({
            let b = #[trigger] batch::sliced(req, max)[i];
            model::points_in(model::request_metrics(b)) <= model::points_in(
                model::request_metrics(req),
            ) || model::points_in(model::request_metrics(b)) <= max
        }) by {
            let b = batch::sliced(req, max)[i];
            let group = batch::batches(ms, max)[i];
            assert(b == batch::wrapped(group, req[0]));
            single_request_metrics(b);
            batch::points_in_is_length(group);
        }
    }
}

impl OtlpExporter {
    /// Builds the request of a snapshot, cuts it into batches and counts their data points.
    pub fn prepare(&mut self, snap: &FlowStatsSnapshot) -> (r: Prepared)
        requires
            budget::countable(snap.flow_rules@),
        ensures
            *final(self) == old(self).after_build(snap.flow_rules@),
            batch::request_views(r.batches@) == batch::sliced(
                old(self).request_of(snap.flow_rules@, snap.wall_clock_ns),
                old(self).max_batch_points as nat,
            ),
            r.batch_points@ == sizes(batch::request_views(r.batches@)),
            r.points_built == old(self).points_built(snap.flow_rules@),
    {
        let ghost rules = snap.flow_rules@;
        let ghost wall = snap.wall_clock_ns;
        let ghost x = *self;
        let (req, points_built) = self.build_request(snap);
        let ghost rv = req@;
        let ghost max = self.max_batch_points as nat;
        proof {
            budget::emitted_within_cap(rules, x.max_export_points_per_tick);
            request_point_count(x, rules, wall);
            single_request_metrics(rv);
            assert(rv[0] == req.resource_metrics@[0]@);
            assert(rv[0].scope_metrics[0] == req.resource_metrics@[0].scope_metrics@[0]@);
            views_have_true_shapes(req.resource_metrics@[0].scope_metrics@[0].metrics@);
            sliced_sizes(rv, max);
        }
        let batches = self.slice_into_batches(req);
        let mut batch_points: Vec<u64> = Vec::new();
        let mut i: usize = 0;
        let ghost views = batch::request_views(batches@);
        while i < batches.len()
            invariant
                i <= batches.len(),
                views == batch::request_views(batches@),
                batch_points.len() == i,
                forall|k: int|
                    0 <= k < views.len() ==> model::points_in(
                        model::request_metrics(#[trigger] views[k]),
                    ) <= usize::MAX,
                forall|k: int| 0 <= k < i ==> #[trigger] batch_points@[k] == sizes(views)[k],
            decreases batches.len() - i,
        {
            assert(views[i as int] == batches@[i as int]@);
            batch_points.push(batch::count_request(&batches[i]) as u64);
            i = i + 1;
        }
        assert(batch_points@ =~= sizes(views));
        Prepared { batches, batch_points, points_built }
    }
}

proof fn request_shapes(x: OtlpExporter, rules: Seq<FlowRuleStats>, wall: u64)
    ensures
        batch::shapes_true(x.metrics_of(rules, wall)),
{
    let ms = x.metrics_of(rules, wall);
    assert forall|i: int| 0 <= i < ms.len() implies (#[trigger] ms[i]).shape != Shape::NoData by {}
}

/// The batches of a snapshot hold every data point of its request, in order, and none of them
/// holds more than the settings allow.
pub proof fn export_sends_every_point(x: OtlpExporter, rules: Seq<FlowRuleStats>, wall: u64)
    requires
        x.max_batch_points > 0,
    ensures
        ({
            let metrics = x.metrics_of(rules, wall);
            let bs = batch::batches(metrics, x.max_batch_points as nat);
            &&& batch::batch_points(bs) == batch::all_points(metrics)
            &&& forall|i: int|
                0 <= i < bs.len() ==> batch::all_points(#[trigger] bs[i]).len()
                    <= x.max_batch_points
        }),
{
    request_shapes(x, rules, wall);
    batch::batches_keep_points(x.metrics_of(rules, wall), x.max_batch_points as nat);
}

// ---------------------------------------------------------------- laws

/// The address to connect to is the endpoint, behind a scheme of the web where it has none.
pub proof fn address_has_a_scheme(endpoint: Seq<char>)
    ensures
        ({
            let u = uri_of(endpoint);
            let http = seq!['h', 't', 't', 'p', ':', '/', '/'];
            let https = seq!['h', 't', 't', 'p', 's', ':', '/', '/'];
            &&& u.len() >= 7
            &&& u.take(7) == http || (u.len() >= 8 && u.take(8) == https)
            &&& u == endpoint || u == http + endpoint
            &&& u == endpoint <==> (endpoint.len() >= 7 && endpoint.take(7) == http) || (
            endpoint.len() >= 8 && endpoint.take(8) == https)
        }),
{
    reveal_strlit("http://");
    reveal_strlit("https://");
    let http = seq!['h', 't', 't', 'p', ':', '/', '/'];
    let https = seq!['h', 't', 't', 'p', 's', ':', '/', '/'];
    assert("http://"@ =~= http);
    assert("https://"@ =~= https);
    let u = uri_of(endpoint);
    assert((http + endpoint).take(7) =~= http);
    assert((http + endpoint).len() == endpoint.len() + 7);
}

/// A try is put off for at most one second, doubled with every failure before it: two, four and
/// eight seconds are the pauses between four tries.
pub proof fn tries_are_put_off_longer(attempt: nat, outcome: Attempt<Seq<char>>)
    requires
        attempt <= 3,
        outcome is NoClient || outcome is TimedOut || (outcome matches Attempt::Refused {
            code,
            ..
        } && (code == Code::Unavailable || code == Code::DeadlineExceeded || code
            == Code::ResourceExhausted || code == Code::Aborted)),
    ensures
        attempt < 3 ==> {
            &&& after_attempt(attempt, outcome) matches RetryStep::Again { drop_client, pause }
            &&& pause.nanos == (if attempt == 0 {
                2_000_000_000int
            } else if attempt == 1 {
                4_000_000_000
            } else {
                8_000_000_000
            })
            &&& drop_client == !(outcome is NoClient)
        },
        attempt == 3 ==> {
            &&& after_attempt(attempt, outcome) matches RetryStep::Fail { drop_client, error }
            &&& drop_client == !(outcome is NoClient)
            &&& outcome matches Attempt::NoClient(e) ==> error == ExporterError::Transient(e)
            &&& outcome matches Attempt::Refused { code, reason } ==> error
                == ExporterError::Transient(reason)
            &&& outcome is TimedOut ==> error is Timeout
        },
{
    reveal_with_fuel(retry_pause, 5);
}

/// A refusal with any other code gives the batch up at the first try, with the reason that came
/// with it, and keeps the connection.
pub proof fn other_refusals_are_final(attempt: nat, code: Code, reason: Seq<char>)
    requires
        code != Code::Unavailable,
        code != Code::DeadlineExceeded,
        code != Code::ResourceExhausted,
        code != Code::Aborted,
    ensures
        ({
            &&& after_attempt(attempt, Attempt::Refused { code, reason }) matches RetryStep::Fail {
                drop_client,
                error,
            }
            &&& !drop_client
            &&& error == ExporterError::Permanent(reason)
        }),
{
}

/// How many of the batches failed for a reason that may pass.
pub open spec fn passing_failures_in(bs: Seq<BatchOutcome>) -> nat
    decreases bs.len(),
{
    if bs.len() == 0 {
        0
    } else {
        passing_failures_in(bs.drop_last()) + match bs.last().result {
            Err(ExporterError::Transient(_)) | Err(ExporterError::Timeout) => 1nat,
            _ => 0nat,
        }
    }
}

/// Whether a batch failed for good.
pub open spec fn is_fatal(b: BatchOutcome) -> bool {
    b.result matches Err(ExporterError::Permanent(_))
}

proof fn passing_failures_are(bs: Seq<BatchOutcome>)
    ensures
        passing_failures_in(bs) == given_up_in(bs),
    decreases bs.len(),
{
    if bs.len() > 0 {
        passing_failures_are(bs.drop_last());
    }
}

/// An export sends its batches up to the first that fails for good, and that failure is its result;
/// where none does, it fails if any batch failed and succeeds if none did. Every batch that it came
/// to counts once: as sent, as failed for good, or as failed for a reason that may pass. Those after
/// it count as nothing.
pub proof fn export_counts_the_batches_it_came_to(
    m: ExporterMetrics,
    bs: Seq<BatchOutcome>,
    points_built: u64,
    n: int,
)
    requires
        0 <= n <= bs.len(),
        forall|i: int| 0 <= i < n - 1 ==> !is_fatal(#[trigger] bs[i]),
        n < bs.len() ==> n > 0 && is_fatal(bs[n - 1]),
        m.batches_sent + bs.len() <= u64::MAX,
        m.batches_failed_transient + bs.len() <= u64::MAX,
        m.batches_failed_non_retryable < u64::MAX,
        m.points_emitted + points_built <= u64::MAX,
        m.points_emitted + points_sent_in(bs.take(n)) <= u64::MAX,
    ensures
        ({
            let (after, result) = exported(m, bs, points_built);
            let t = bs.take(n);
            let fatal = n > 0 && is_fatal(bs[n - 1]);
            &&& fatal ==> result == bs[n - 1].result
            &&& !fatal && passing_failures_in(t) > 0 ==> result is Err && result->Err_0 is Transient
            &&& !fatal && passing_failures_in(t) == 0 ==> result is Ok
            &&& after.batches_sent == m.batches_sent + sent_in(t)
            &&& after.batches_failed_transient == m.batches_failed_transient + passing_failures_in(
                t,
            )
            &&& after.batches_failed_non_retryable == m.batches_failed_non_retryable + if fatal {
                1int
            } else {
                0
            }
            &&& result is Ok ==> after.points_emitted == m.points_emitted + points_built
            &&& result is Err ==> after.points_emitted == m.points_emitted + points_sent_in(t)
            &&& after.ticks_dropped == m.ticks_dropped
            &&& after.batches_dropped == m.batches_dropped
            &&& after.points_dropped == m.points_dropped
            &&& after.attrs_truncated == m.attrs_truncated
            &&& after.export_duration_bits == m.export_duration_bits
            &&& after.queue_depth == m.queue_depth
        }),
{
    let t = tried(bs);
    tried_up_to_first_fatal(bs);
    let k = t.len() as int;
    if k < n {
        assert(t.last() == bs[k - 1]);
        assert(is_fatal(bs[k - 1]));
    }
    if k > n {
        assert(is_fatal(bs[n - 1]));
        assert(ended_by(bs[n - 1].result) is None);
    }
    assert(k == n);
    if n > 0 {
        assert(t.last() == bs[n - 1]);
    }
    passing_failures_are(t);
    counts_within(t);
    tried_state(m, bs);
    all_sent_iff(bs);
    whole_export(m, bs, points_built);
}

proof fn counts_within(bs: Seq<BatchOutcome>)
    ensures
        sent_in(bs) <= bs.len(),
        given_up_in(bs) <= bs.len(),
    decreases bs.len(),
{
    if bs.len() > 0 {
        counts_within(bs.drop_last());
    }
}

} // verus!
