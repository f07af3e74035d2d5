//! Exporters: their settings, their errors, and how the thread of each one goes on after an
//! export.

use vstd::prelude::*;

use crate::duration::Duration;
use crate::pairs::Pairs;
use crate::text;

verus! {

/// What an exporter counts about itself.
#[derive(Clone, Copy, Debug, PartialEq, Eq, Structural)]
pub struct ExporterMetrics {
    /// Ticks dropped because the queue was full.
    pub ticks_dropped: u64,
    /// Batches sent.
    pub batches_sent: u64,
    /// Batches dropped because the queue was full.
    pub batches_dropped: u64,
    /// Batches that failed for good.
    pub batches_failed_non_retryable: u64,
    /// Batches that failed for a reason that may pass.
    pub batches_failed_transient: u64,
    /// Data points sent.
    pub points_emitted: u64,
    /// Data points left out by the export cap.
    pub points_dropped: u64,
    /// Attribute values cut short.
    pub attrs_truncated: u64,
    /// The length of the last export in seconds, as the bits of a double.
    pub export_duration_bits: u64,
    /// Snapshots waiting.
    pub queue_depth: u64,
}

impl ExporterMetrics {
    /// All counters at zero.
    pub open spec fn zero() -> ExporterMetrics {
        ExporterMetrics {
            ticks_dropped: 0,
            batches_sent: 0,
            batches_dropped: 0,
            batches_failed_non_retryable: 0,
            batches_failed_transient: 0,
            points_emitted: 0,
            points_dropped: 0,
            attrs_truncated: 0,
            export_duration_bits: 0,
            queue_depth: 0,
        }
    }

    /// The counters after one more failure.
    pub open spec fn with_failure(self, failure: Failure) -> ExporterMetrics {
        match failure {
            Failure::Nothing => self,
            Failure::Transient => ExporterMetrics {
                batches_failed_transient: self.batches_failed_transient.wrapping_add(1),
                ..self
            },
            Failure::NonRetryable => ExporterMetrics {
                batches_failed_non_retryable: self.batches_failed_non_retryable.wrapping_add(1),
                ..self
            },
        }
    }

    /// Counts a failure.
    pub fn count_failure(&mut self, failure: Failure)
        ensures
            *final(self) == old(self).with_failure(failure),
    {
        match failure {
            Failure::Nothing => {},
            Failure::Transient => {
                self.batches_failed_transient = self.batches_failed_transient.wrapping_add(1);
            },
            Failure::NonRetryable => {
                self.batches_failed_non_retryable =
                    self.batches_failed_non_retryable.wrapping_add(1);
            },
        }
    }
}

impl Default for ExporterMetrics {
    fn default() -> (r: ExporterMetrics)
        ensures
            r == ExporterMetrics::zero(),
    {
        ExporterMetrics {
            ticks_dropped: 0,
            batches_sent: 0,
            batches_dropped: 0,
            batches_failed_non_retryable: 0,
            batches_failed_transient: 0,
            points_emitted: 0,
            points_dropped: 0,
            attrs_truncated: 0,
            export_duration_bits: 0,
            queue_depth: 0,
        }
    }
}

/// Why an export failed.
#[derive(Debug, PartialEq, Eq)]
pub enum ExporterError<S = String> {
    /// The next tick may succeed.
    Transient(S),
    /// The exporter is of no use until its settings change.
    Permanent(S),
    /// The export took too long.
    Timeout,
}

impl View for ExporterError<String> {
    type V = ExporterError<Seq<char>>;

    open spec fn view(&self) -> ExporterError<Seq<char>> {
        match self {
            ExporterError::Transient(e) => ExporterError::Transient(e@),
            ExporterError::Permanent(e) => ExporterError::Permanent(e@),
            ExporterError::Timeout => ExporterError::Timeout,
        }
    }
}

impl ExporterError<Seq<char>> {
    /// The wording of the error.
    pub open spec fn text(self) -> Seq<char> {
        match self {
            ExporterError::Transient(e) => "transient: "@ + e,
            ExporterError::Permanent(e) => "permanent: "@ + e,
            ExporterError::Timeout => "timeout"@,
        }
    }
}

impl ExporterError<String> {
    /// The wording of the error.
    pub fn message(&self) -> (r: String)
        ensures
            r@ == self@.text(),
    {
        match self {
            ExporterError::Transient(e) => text::cat("transient: ", e.as_str()),
            ExporterError::Permanent(e) => text::cat("permanent: ", e.as_str()),
            ExporterError::Timeout => "timeout".to_owned(),
        }
    }
}

/// Why an exporter did not take its new settings.
#[derive(Debug, PartialEq, Eq)]
pub struct ConfigError(pub String);

impl ConfigError {
    /// The wording of the error.
    pub fn message(&self) -> (r: String)
        ensures
            r@ == "config error: "@ + self.0@,
    {
        text::cat("config error: ", self.0.as_str())
    }
}

/// The settings of one exporter.
#[derive(Debug)]
pub struct ExporterConfig {
    /// Which kind of exporter, such as `otlp`.
    pub kind: String,
    /// The name that the operator gave it.
    pub name: String,
    /// How many snapshots may wait.
    pub queue_depth: usize,
    /// How long one export may take.
    pub export_timeout: Duration,
    /// Everything else, for the exporter itself to read.
    pub extra: Pairs<String>,
}

impl Default for ExporterConfig {
    fn default() -> (r: ExporterConfig)
        ensures
            r.kind@.len() == 0,
            r.name@.len() == 0,
            r.queue_depth == 2,
            r.export_timeout.nanos == 800_000_000,
            r.extra@.len() == 0,
    {
        ExporterConfig {
            kind: String::new(),
            name: String::new(),
            queue_depth: 2,
            export_timeout: Duration::from_millis(800),
            extra: Pairs::new(),
        }
    }
}

/// What every exporter tells about itself and takes from a reload.
pub trait Exporter {
    /// Which kind of exporter it is.
    fn kind(&self) -> &'static str;

    /// The name that the operator gave it.
    fn name(&self) -> &str;

    /// Takes new settings, or says why not.
    fn reload(&self, cfg: &ExporterConfig) -> Result<(), ConfigError>;

    /// What it counts about itself, if it does; an exporter that says nothing of it counts nothing.
    fn metrics(&self) -> (r: Option<&ExporterMetrics>)
        default_ensures
            r is None,
    {
        None
    }
}

// ---------------------------------------------------------------- registration

/// The position of the first registration for `kind`, or the number of them where there is none.
pub open spec fn first_of_kind(kinds: Seq<Seq<char>>, kind: Seq<char>) -> nat
    decreases kinds.len(),
{
    if kinds.len() == 0 || kinds[0] == kind {
        0
    } else {
        1 + first_of_kind(kinds.drop_first(), kind)
    }
}

proof fn first_of_kind_is(kinds: Seq<Seq<char>>, kind: Seq<char>, k: int)
    requires
        0 <= k <= kinds.len(),
        k < kinds.len() ==> kinds[k] == kind,
        forall|i: int| 0 <= i < k ==> kinds[i] != kind,
    ensures
        first_of_kind(kinds, kind) == k,
    decreases kinds.len(),
{
    if kinds.len() > 0 && kinds[0] != kind {
        assert forall|i: int| 0 <= i < k - 1 implies kinds.drop_first()[i] != kind by {
            assert(kinds.drop_first()[i] == kinds[i + 1]);
        }
        first_of_kind_is(kinds.drop_first(), kind, k - 1);
    }
}

/// The texts of a list of strings.
pub open spec fn texts(s: Seq<String>) -> Seq<Seq<char>> {
    s.map_values(|x: String| x@)
}

/// Which of the registered kinds serves `kind`: the first one of that name.
pub fn find_factory(kinds: &Vec<String>, kind: &str) -> (r: Option<usize>)
    ensures
        ({
            let k = first_of_kind(texts(kinds@), kind@);
            match r {
                Some(i) => i == k && i < kinds.len(),
                None => k == kinds.len(),
            }
        }),
{
    let mut i: usize = 0;
    while i < kinds.len() && !text::same(kinds[i].as_str(), kind)
        invariant
            i <= kinds.len(),
            forall|j: int| 0 <= j < i ==> (#[trigger] texts(kinds@)[j]) != kind@,
        decreases kinds.len() - i,
    {
        i = i + 1;
    }
    proof {
        first_of_kind_is(texts(kinds@), kind@, i as int);
    }
    if i < kinds.len() {
        Some(i)
    } else {
        None
    }
}

/// The kinds that repeat an earlier one, in order: registrations that nothing can reach.
pub open spec fn repeated_kinds(kinds: Seq<Seq<char>>) -> Seq<Seq<char>>
    decreases kinds.len(),
{
    if kinds.len() == 0 {
        Seq::empty()
    } else {
        let before = repeated_kinds(kinds.drop_last());
        if kinds.drop_last().contains(kinds.last()) {
            before.push(kinds.last())
        } else {
            before
        }
    }
}

/// The kinds that repeat an earlier one, in order.
pub fn validate_registrations(kinds: &Vec<String>) -> (r: Vec<String>)
    ensures
        texts(r@) == repeated_kinds(texts(kinds@)),
{
    let ghost all = texts(kinds@);
    let mut r: Vec<String> = Vec::new();
    let mut i: usize = 0;
    assert(texts(r@) =~= repeated_kinds(all.take(0)));
    while i < kinds.len()
        invariant
            i <= kinds.len(),
            all == texts(kinds@),
            texts(r@) == repeated_kinds(all.take(i as int)),
        decreases kinds.len() - i,
    {
        let mut seen = false;
        let mut j: usize = 0;
        while j < i && !seen
            invariant
                i < kinds.len(),
                j <= i,
                all == texts(kinds@),
                seen ==> all.take(i as int).contains(kinds@[i as int]@),
                !seen ==> forall|k: int| 0 <= k < j ==> (#[trigger] all[k]) != kinds@[i as int]@,
            decreases i - j + (if seen {
                0int
            } else {
                1int
            }),
        {
            if text::same(kinds[j].as_str(), kinds[i].as_str()) {
                seen = true;
                assert(all.take(i as int)[j as int] == kinds@[i as int]@);
            } else {
                j = j + 1;
            }
        }
        assert(all.take(i as int + 1).drop_last() =~= all.take(i as int));
        assert(all.take(i as int + 1).last() == kinds@[i as int]@);
        let ghost before = r@;
        if seen {
            r.push(kinds[i].clone());
            assert(texts(r@) =~= texts(before).push(kinds@[i as int]@));
        } else {
            assert(!all.take(i as int).contains(kinds@[i as int]@));
        }
        i = i + 1;
    }
    assert(all.take(all.len() as int) =~= all);
    r
}

/// Every kind that has a registration is served by the first one of that name.
pub proof fn first_of_kind_serves(kinds: Seq<Seq<char>>, kind: Seq<char>)
    ensures
        first_of_kind(kinds, kind) < kinds.len() <==> kinds.contains(kind),
        first_of_kind(kinds, kind) < kinds.len() ==> kinds[first_of_kind(kinds, kind) as int]
            == kind,
        forall|i: int| 0 <= i < first_of_kind(kinds, kind) && i < kinds.len() ==> kinds[i] != kind,
    decreases kinds.len(),
{
    if kinds.len() > 0 {
        if kinds[0] == kind {
            assert(kinds.contains(kind));
        } else {
            let rest = kinds.drop_first();
            first_of_kind_serves(rest, kind);
            if kinds.contains(kind) {
                let i = choose|i: int| 0 <= i < kinds.len() && kinds[i] == kind;
                assert(rest[i - 1] == kind);
            }
            if rest.contains(kind) {
                let i = choose|i: int| 0 <= i < rest.len() && rest[i] == kind;
                assert(kinds[i + 1] == kind);
            }
            assert forall|i: int|
                0 <= i < first_of_kind(kinds, kind) && i < kinds.len() implies kinds[i]
                != kind by {
                if i > 0 {
                    assert(rest[i - 1] == kinds[i]);
                }
            }
        }
    }
}

// ---------------------------------------------------------------- queue

/// How many snapshots the queue of an exporter holds: a queue of none could pass nothing on
/// without waiting, so it holds one.
pub fn channel_capacity(capacity: usize) -> (r: usize)
    ensures
        r == (if capacity == 0 {
            1
        } else {
            capacity
        }),
{
    if capacity == 0 {
        1
    } else {
        capacity
    }
}

// ---------------------------------------------------------------- dispatch

/// How one export of an exporter thread came out.
#[derive(Clone, Copy, Debug, PartialEq, Eq, Structural)]
pub enum Outcome {
    Sent,
    /// The exporter gave up by itself.
    SelfTimeout,
    /// The thread cut the export off.
    DeadlineExceeded,
    Transient,
    Permanent,
}

/// Which failure counter an outcome adds to.
#[derive(Clone, Copy, Debug, PartialEq, Eq, Structural)]
pub enum Failure {
    Nothing,
    Transient,
    NonRetryable,
}

/// How the exporter thread goes on.
#[derive(Clone, Copy, Debug, PartialEq, Eq, Structural)]
pub enum Next {
    /// Wait for the next snapshot.
    Receive,
    /// Sleep first.
    Sleep(Duration),
    /// Shut the exporter down.
    Stop,
}

/// The pause after a first failure.
pub open spec fn first_backoff() -> Duration {
    Duration { nanos: 100_000_000 }
}

/// The longest pause after a failure.
pub open spec fn longest_backoff() -> Duration {
    Duration { nanos: 30_000_000_000 }
}

/// What an exporter thread remembers between exports.
#[derive(Clone, Copy, Debug, PartialEq, Eq, Structural)]
pub struct Dispatch {
    /// The pause that the next failure brings.
    pub backoff: Duration,
}

impl Dispatch {
    /// The pause lies between the shortest and the longest one.
    pub open spec fn wf(self) -> bool {
        first_backoff().nanos <= self.backoff.nanos <= longest_backoff().nanos
    }

    pub fn new() -> (r: Dispatch)
        ensures
            r.backoff == first_backoff(),
            r.wf(),
    {
        Dispatch { backoff: Duration::from_millis(100) }
    }

    /// The state after an export, the counter that the outcome adds to, and what comes next.
    pub open spec fn after(self, outcome: Outcome) -> (Dispatch, Failure, Next) {
        match outcome {
            Outcome::Sent => (
                Dispatch { backoff: first_backoff() },
                Failure::Nothing,
                Next::Receive,
            ),
            Outcome::SelfTimeout | Outcome::DeadlineExceeded | Outcome::Transient => (
                Dispatch { backoff: self.backoff.doubled_up_to(longest_backoff()) },
                Failure::Transient,
                Next::Sleep(self.backoff),
            ),
            Outcome::Permanent => (self, Failure::NonRetryable, Next::Stop),
        }
    }

    /// Takes the outcome of an export.
    pub fn step(&mut self, outcome: Outcome) -> (r: (Failure, Next))
        ensures
            (*final(self), r.0, r.1) == old(self).after(outcome),
            old(self).wf() ==> final(self).wf(),
    {
        match outcome {
            Outcome::Sent => {
                self.backoff = Duration::from_millis(100);
                (Failure::Nothing, Next::Receive)
            },
            Outcome::SelfTimeout | Outcome::DeadlineExceeded | Outcome::Transient => {
                let pause = self.backoff;
                self.backoff = pause.doubled(Duration::from_secs(30));
                (Failure::Transient, Next::Sleep(pause))
            },
            Outcome::Permanent => (Failure::NonRetryable, Next::Stop),
        }
    }
}

/// The pause that comes after `n` failures in a row.
pub open spec fn backoff_after(n: nat) -> Duration
    decreases n,
{
    if n == 0 {
        first_backoff()
    } else {
        backoff_after((n - 1) as nat).doubled_up_to(longest_backoff())
    }
}

/// The pauses never shrink while failures go on, and never pass the longest one.
pub proof fn backoff_grows(n: nat)
    ensures
        first_backoff().nanos <= backoff_after(n).nanos <= longest_backoff().nanos,
        backoff_after(n).nanos <= backoff_after(n + 1).nanos,
    decreases n,
{
    if n > 0 {
        backoff_grows((n - 1) as nat);
    }
}

/// An exporter is stopped by a permanent failure and by nothing else, and a success puts the
/// pause back to the shortest.
pub proof fn dispatch_stops_only_on_permanent(d: Dispatch, outcome: Outcome)
    ensures
        d.after(outcome).2 == Next::Stop <==> outcome == Outcome::Permanent,
        outcome == Outcome::Sent ==> d.after(outcome).0.backoff == first_backoff(),
{
}

/// After a failure that may pass the thread sleeps for the pause it holds, a tenth of a second to
/// thirty seconds, and holds twice that for the next one; a success brings the tenth of a second
/// back at once.
pub proof fn pauses_double_up_to_half_a_minute(d: Dispatch, outcome: Outcome)
    requires
        d.wf(),
    ensures
        100_000_000 <= d.backoff.nanos <= 30_000_000_000,
        outcome is SelfTimeout || outcome is DeadlineExceeded || outcome is Transient ==> {
            &&& d.after(outcome).2 == Next::Sleep(d.backoff)
            &&& d.after(outcome).0.backoff.nanos == if 2 * d.backoff.nanos <= 30_000_000_000 {
                2 * d.backoff.nanos
            } else {
                30_000_000_000
            }
        },
        outcome is Sent ==> d.after(outcome).2 is Receive && d.after(outcome).0.backoff.nanos
            == 100_000_000,
{
}

/// A failed export is counted once, under the kind of its failure; a sent one is counted as no
/// failure, and nothing else of what an exporter counts changes with either.
pub proof fn failures_are_counted_once(d: Dispatch, outcome: Outcome, m: ExporterMetrics)
    requires
        m.batches_failed_transient < u64::MAX,
        m.batches_failed_non_retryable < u64::MAX,
    ensures
        ({
            let n = m.with_failure(d.after(outcome).1);
            &&& n.batches_failed_transient == m.batches_failed_transient + if outcome is Transient
                || outcome is SelfTimeout || outcome is DeadlineExceeded {
                1int
            } else {
                0
            }
            &&& n.batches_failed_non_retryable == m.batches_failed_non_retryable
                + if outcome is Permanent {
                1int
            } else {
                0
            }
            &&& n.ticks_dropped == m.ticks_dropped
            &&& n.batches_sent == m.batches_sent
            &&& n.batches_dropped == m.batches_dropped
            &&& n.points_emitted == m.points_emitted
            &&& n.points_dropped == m.points_dropped
            &&& n.attrs_truncated == m.attrs_truncated
            &&& n.export_duration_bits == m.export_duration_bits
            &&& n.queue_depth == m.queue_depth
        }),
{
}

/// Nothing is warned of exactly where every registration has a kind of its own, and what is warned
/// of stands in the registrations twice.
pub proof fn warnings_are_of_repeated_kinds(kinds: Seq<Seq<char>>)
    ensures
        repeated_kinds(kinds).len() == 0 <==> kinds.no_duplicates(),
        forall|k: Seq<char>| #[trigger]
            repeated_kinds(kinds).contains(k) <==> exists|i: int, j: int|
                0 <= i < j < kinds.len() && #[trigger] kinds[i] == k && #[trigger] kinds[j] == k,
    decreases kinds.len(),
{
    if kinds.len() > 0 {
        let front = kinds.drop_last();
        let before = repeated_kinds(front);
        let all = repeated_kinds(kinds);
        let n = front.len() as int;
        warnings_are_of_repeated_kinds(front);
        assert forall|k: Seq<char>| #[trigger]
            all.contains(k) <==> exists|i: int, j: int|
                0 <= i < j < kinds.len() && #[trigger] kinds[i] == k && #[trigger] kinds[j]
                    == k by {
            if all.contains(k) {
                let p = choose|p: int| 0 <= p < all.len() && all[p] == k;
                if p < before.len() {
                    assert(before[p] == k);
                    assert(before.contains(k));
                    let (i, j) = choose|i: int, j: int|
                        0 <= i < j < front.len() && #[trigger] front[i] == k
                            && #[trigger] front[j] == k;
                    assert(kinds[i] == k && kinds[j] == k);
                } else {
                    let i = choose|i: int| 0 <= i < front.len() && front[i] == kinds.last();
                    assert(kinds[i] == k && kinds[n] == k);
                }
            }
            if exists|i: int, j: int|
                0 <= i < j < kinds.len() && #[trigger] kinds[i] == k && #[trigger] kinds[j] == k {
                let (i, j) = choose|i: int, j: int|
                    0 <= i < j < kinds.len() && #[trigger] kinds[i] == k && #[trigger] kinds[j]
                        == k;
                assert(front[i] == k);
                if j < n {
                    assert(front[j] == k);
                    assert(before.contains(k));
                    let p = choose|p: int| 0 <= p < before.len() && before[p] == k;
                    assert(all[p] == k);
                } else {
                    assert(front.contains(kinds.last()));
                    assert(all[all.len() - 1] == k);
                }
            }
        }
        if all.len() > 0 {
            assert(all.contains(all[0]));
        }
        if !kinds.no_duplicates() {
            let (i, j) = choose|i: int, j: int|
                0 <= i < kinds.len() && 0 <= j < kinds.len() && i != j && kinds[i] == kinds[j];
            if i < j {
                assert(all.contains(kinds[i]));
            } else {
                assert(all.contains(kinds[j]));
            }
        }
    }
}

/// A failure that may pass and one that does not are worded differently, and both give the reason
/// in full at the end.
pub proof fn errors_tell_their_reason(e: Seq<char>)
    ensures
        ExporterError::Transient(e).text().skip("transient: "@.len() as int) == e,
        ExporterError::Permanent(e).text().skip("permanent: "@.len() as int) == e,
        ExporterError::Transient(e).text() != ExporterError::Permanent(e).text(),
{
    reveal_strlit("transient: ");
    reveal_strlit("permanent: ");
    assert(ExporterError::Transient(e).text()[0] == 't');
    assert(ExporterError::Permanent(e).text()[0] == 'p');
}

} // verus!
