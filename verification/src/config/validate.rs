//! The rules that a configuration has to keep.

use vstd::prelude::*;

use super::crud::FLOW_RULE_SET_MAX;
use super::model::{
    self, Config, ExporterEntry, ExtraValue, Field, FlowRule, FlowRuleView, FrontendConfig,
};
use super::timeout;
use crate::pairs;
use crate::text;
use crate::yaml;

verus! {

pub const MAX_KEY_WIDTH: u32 = 64;

pub const MAX_KEYS_BUDGET: u32 = 16 * 1024 * 1024;

pub const NAME_MAX_LEN: usize = 31;

pub const NAME_MIN_LEN: usize = 2;

/// How many snapshots may wait for an exporter at most.
pub const MAX_QUEUE_DEPTH: usize = 10_000;

/// What is wrong with a configuration.
#[derive(Debug, PartialEq, Eq)]
pub enum ValidationError<S = String> {
    DuplicateName(S),
    EmptyFields { name: S },
    DuplicateField { name: S, field: Field },
    ZeroMaxKeys { name: S },
    MaxKeysExceedsBudget { name: S, max_keys: u32 },
    KeyWidthExceeded { name: S, width: u32 },
    BudgetExceeded { total: u64 },
    TooManyRules { count: usize, max: usize },
    InvalidName { name: S },
    ZeroPollingInterval,
    ZeroShutdownGrace,
    InvalidStartupTimeout { value: S },
    EmptyExporterType { name: S },
    UnknownExporterType { name: S, kind: S, known: S },
    EmptyExporterName { index: usize },
    DuplicateExporterName(S),
    ZeroQueueDepth { name: S },
    QueueDepthTooLarge { name: S, depth: usize, max: usize },
    InvalidExportTimeout { name: S, value: S },
    InvalidOverflowPolicy { name: S, policy: S, valid: S },
    ZeroStartupTimeout,
    ZeroExportTimeout { name: S },
    InvalidExporterName { name: S },
    MissingOtlpEndpoint { name: S },
}

pub type ErrorView = ValidationError<Seq<char>>;

impl View for ValidationError<String> {
    type V = ErrorView;

    open spec fn view(&self) -> ErrorView {
        match self {
            ValidationError::DuplicateName(n) => ValidationError::DuplicateName(n@),
            ValidationError::EmptyFields { name } => ValidationError::EmptyFields { name: name@ },
            ValidationError::DuplicateField { name, field } => ValidationError::DuplicateField {
                name: name@,
                field: *field,
            },
            ValidationError::ZeroMaxKeys { name } => ValidationError::ZeroMaxKeys { name: name@ },
            ValidationError::MaxKeysExceedsBudget { name, max_keys } => {
                ValidationError::MaxKeysExceedsBudget { name: name@, max_keys: *max_keys }
            },
            ValidationError::KeyWidthExceeded { name, width } => {
                ValidationError::KeyWidthExceeded { name: name@, width: *width }
            },
            ValidationError::BudgetExceeded { total } => ValidationError::BudgetExceeded {
                total: *total,
            },
            ValidationError::TooManyRules { count, max } => ValidationError::TooManyRules {
                count: *count,
                max: *max,
            },
            ValidationError::InvalidName { name } => ValidationError::InvalidName { name: name@ },
            ValidationError::ZeroPollingInterval => ValidationError::ZeroPollingInterval,
            ValidationError::ZeroShutdownGrace => ValidationError::ZeroShutdownGrace,
            ValidationError::InvalidStartupTimeout { value } => {
                ValidationError::InvalidStartupTimeout { value: value@ }
            },
            ValidationError::EmptyExporterType { name } => ValidationError::EmptyExporterType {
                name: name@,
            },
            ValidationError::UnknownExporterType { name, kind, known } => {
                ValidationError::UnknownExporterType { name: name@, kind: kind@, known: known@ }
            },
            ValidationError::EmptyExporterName { index } => ValidationError::EmptyExporterName {
                index: *index,
            },
            ValidationError::DuplicateExporterName(n) => ValidationError::DuplicateExporterName(
                n@,
            ),
            ValidationError::ZeroQueueDepth { name } => ValidationError::ZeroQueueDepth {
                name: name@,
            },
            ValidationError::QueueDepthTooLarge { name, depth, max } => {
                ValidationError::QueueDepthTooLarge { name: name@, depth: *depth, max: *max }
            },
            ValidationError::InvalidExportTimeout { name, value } => {
                ValidationError::InvalidExportTimeout { name: name@, value: value@ }
            },
            ValidationError::InvalidOverflowPolicy { name, policy, valid } => {
                ValidationError::InvalidOverflowPolicy {
                    name: name@,
                    policy: policy@,
                    valid: valid@,
                }
            },
            ValidationError::ZeroStartupTimeout => ValidationError::ZeroStartupTimeout,
            ValidationError::ZeroExportTimeout { name } => ValidationError::ZeroExportTimeout {
                name: name@,
            },
            ValidationError::InvalidExporterName { name } => {
                ValidationError::InvalidExporterName { name: name@ }
            },
            ValidationError::MissingOtlpEndpoint { name } => {
                ValidationError::MissingOtlpEndpoint { name: name@ }
            },
        }
    }
}

/// The budget as it stands in messages.
pub open spec fn budget_text() -> Seq<char> {
    text::decimal(MAX_KEYS_BUDGET as nat)
}

impl ValidationError<Seq<char>> {
    /// The wording of the error.
    pub open spec fn text(self) -> Seq<char> {
        match self {
            ValidationError::DuplicateName(n) => "duplicate flow-rule name: "@ + n,
            ValidationError::EmptyFields { name } => "flow-rule '"@ + name
                + "': fields list is empty"@,
            ValidationError::DuplicateField { name, field } => "flow-rule '"@ + name
                + "': duplicate field "@ + field.label(),
            ValidationError::ZeroMaxKeys { name } => "flow-rule '"@ + name
                + "': max_keys must be >= 1"@,
            ValidationError::MaxKeysExceedsBudget { name, max_keys } => "flow-rule '"@ + name
                + "': max_keys "@ + text::decimal(max_keys as nat) + " exceeds per-rule budget "@
                + budget_text(),
            ValidationError::KeyWidthExceeded { name, width } => "flow-rule '"@ + name
                + "': key width "@ + text::decimal(width as nat) + " exceeds maximum "@
                + text::decimal(MAX_KEY_WIDTH as nat),
            ValidationError::BudgetExceeded { total } => "total max_keys "@ + text::decimal(
                total as nat,
            ) + " exceeds budget "@ + budget_text(),
            ValidationError::TooManyRules { count, max } => "too many flow rules: "@
                + text::decimal(count as nat) + " exceeds maximum "@ + text::decimal(max as nat),
            ValidationError::InvalidName { name } => "flow-rule name '"@ + name
                + "' is invalid: must match ^[a-z0-9][a-z0-9_-]{1,30}$"@,
            ValidationError::ZeroPollingInterval => "frontend: polling_interval_ms must be > 0"@,
            ValidationError::ZeroShutdownGrace => "frontend: shutdown_grace_ms must be > 0"@,
            ValidationError::InvalidStartupTimeout { value } =>
                "frontend: invalid startup_timeout format: "@ + text::quoted(value),
            ValidationError::EmptyExporterType { name } => "exporter '"@ + name
                + "': type is empty"@,
            ValidationError::UnknownExporterType { name, kind, known } => "exporter '"@ + name
                + "': unknown type '"@ + kind + "' (known: "@ + known + ")"@,
            ValidationError::EmptyExporterName { index } => "exporter at index "@ + text::decimal(
                index as nat,
            ) + ": name is empty"@,
            ValidationError::DuplicateExporterName(n) => "duplicate exporter name: "@ + n,
            ValidationError::ZeroQueueDepth { name } => "exporter '"@ + name
                + "': queue_depth must be >= 1"@,
            ValidationError::QueueDepthTooLarge { name, depth, max } => "exporter '"@ + name
                + "': queue_depth "@ + text::decimal(depth as nat) + " exceeds maximum "@
                + text::decimal(max as nat),
            ValidationError::InvalidExportTimeout { name, value } => "exporter '"@ + name
                + "': invalid export_timeout format: "@ + text::quoted(value),
            ValidationError::InvalidOverflowPolicy { name, policy, valid } => "exporter '"@ + name
                + "': unknown on_overflow policy '"@ + policy + "' (valid: "@ + valid + ")"@,
            ValidationError::ZeroStartupTimeout => "frontend: startup_timeout must be > 0"@,
            ValidationError::ZeroExportTimeout { name } => "exporter '"@ + name
                + "': export_timeout must be > 0"@,
            ValidationError::InvalidExporterName { name } => "exporter '"@ + name
                + "': name is invalid: must match ^[a-z0-9][a-z0-9_-]{1,30}$"@,
            ValidationError::MissingOtlpEndpoint { name } => "exporter '"@ + name
                + "': OTLP exporter must have a non-empty 'endpoint'"@,
        }
    }
}

impl ValidationError<String> {
    /// The wording of the error.
    pub fn message(&self) -> (r: String)
        ensures
            r@ == self@.text(),
    {
        let mut r = String::new();
        match self {
            ValidationError::DuplicateName(n) => {
                r.append("duplicate flow-rule name: ");
                r.append(n.as_str());
            },
            ValidationError::EmptyFields { name } => {
                r.append("flow-rule '");
                r.append(name.as_str());
                r.append("': fields list is empty");
            },
            ValidationError::DuplicateField { name, field } => {
                r.append("flow-rule '");
                r.append(name.as_str());
                r.append("': duplicate field ");
                r.append(field.label_text());
            },
            ValidationError::ZeroMaxKeys { name } => {
                r.append("flow-rule '");
                r.append(name.as_str());
                r.append("': max_keys must be >= 1");
            },
            ValidationError::MaxKeysExceedsBudget { name, max_keys } => {
                r.append("flow-rule '");
                r.append(name.as_str());
                r.append("': max_keys ");
                text::push_decimal(&mut r, *max_keys as u64);
                r.append(" exceeds per-rule budget ");
                text::push_decimal(&mut r, MAX_KEYS_BUDGET as u64);
            },
            ValidationError::KeyWidthExceeded { name, width } => {
                r.append("flow-rule '");
                r.append(name.as_str());
                r.append("': key width ");
                text::push_decimal(&mut r, *width as u64);
                r.append(" exceeds maximum ");
                text::push_decimal(&mut r, MAX_KEY_WIDTH as u64);
            },
            ValidationError::BudgetExceeded { total } => {
                r.append("total max_keys ");
                text::push_decimal(&mut r, *total);
                r.append(" exceeds budget ");
                text::push_decimal(&mut r, MAX_KEYS_BUDGET as u64);
            },
            ValidationError::TooManyRules { count, max } => {
                r.append("too many flow rules: ");
                text::push_decimal(&mut r, *count as u64);
                r.append(" exceeds maximum ");
                text::push_decimal(&mut r, *max as u64);
            },
            ValidationError::InvalidName { name } => {
                r.append("flow-rule name '");
                r.append(name.as_str());
                r.append("' is invalid: must match ^[a-z0-9][a-z0-9_-]{1,30}$");
            },
            ValidationError::ZeroPollingInterval => {
                r.append("frontend: polling_interval_ms must be > 0");
            },
            ValidationError::ZeroShutdownGrace => {
                r.append("frontend: shutdown_grace_ms must be > 0");
            },
            ValidationError::InvalidStartupTimeout { value } => {
                r.append("frontend: invalid startup_timeout format: ");
                r.append(text::quote(value.as_str()).as_str());
            },
            ValidationError::EmptyExporterType { name } => {
                r.append("exporter '");
                r.append(name.as_str());
                r.append("': type is empty");
            },
            ValidationError::UnknownExporterType { name, kind, known } => {
                r.append("exporter '");
                r.append(name.as_str());
                r.append("': unknown type '");
                r.append(kind.as_str());
                r.append("' (known: ");
                r.append(known.as_str());
                r.append(")");
            },
            ValidationError::EmptyExporterName { index } => {
                r.append("exporter at index ");
                text::push_decimal(&mut r, *index as u64);
                r.append(": name is empty");
            },
            ValidationError::DuplicateExporterName(n) => {
                r.append("duplicate exporter name: ");
                r.append(n.as_str());
            },
            ValidationError::ZeroQueueDepth { name } => {
                r.append("exporter '");
                r.append(name.as_str());
                r.append("': queue_depth must be >= 1");
            },
            ValidationError::QueueDepthTooLarge { name, depth, max } => {
                r.append("exporter '");
                r.append(name.as_str());
                r.append("': queue_depth ");
                text::push_decimal(&mut r, *depth as u64);
                r.append(" exceeds maximum ");
                text::push_decimal(&mut r, *max as u64);
            },
            ValidationError::InvalidExportTimeout { name, value } => {
                r.append("exporter '");
                r.append(name.as_str());
                r.append("': invalid export_timeout format: ");
                r.append(text::quote(value.as_str()).as_str());
            },
            ValidationError::InvalidOverflowPolicy { name, policy, valid } => {
                r.append("exporter '");
                r.append(name.as_str());
                r.append("': unknown on_overflow policy '");
                r.append(policy.as_str());
                r.append("' (valid: ");
                r.append(valid.as_str());
                r.append(")");
            },
            ValidationError::ZeroStartupTimeout => {
                r.append("frontend: startup_timeout must be > 0");
            },
            ValidationError::ZeroExportTimeout { name } => {
                r.append("exporter '");
                r.append(name.as_str());
                r.append("': export_timeout must be > 0");
            },
            ValidationError::InvalidExporterName { name } => {
                r.append("exporter '");
                r.append(name.as_str());
                r.append("': name is invalid: must match ^[a-z0-9][a-z0-9_-]{1,30}$");
            },
            ValidationError::MissingOtlpEndpoint { name } => {
                r.append("exporter '");
                r.append(name.as_str());
                r.append("': OTLP exporter must have a non-empty 'endpoint'");
            },
        }
        assert(r@ =~= self@.text());
        r
    }
}

/// What checking a part of a configuration gives.
#[derive(Debug, PartialEq, Eq)]
pub enum Verdict<S = String> {
    Fine,
    Bad(ValidationError<S>),
    /// A time span is longer than milliseconds can count.
    Overflows,
}

pub type VerdictView = Verdict<Seq<char>>;

impl View for Verdict<String> {
    type V = VerdictView;

    open spec fn view(&self) -> VerdictView {
        match self {
            Verdict::Fine => Verdict::Fine,
            Verdict::Bad(e) => Verdict::Bad(e@),
            Verdict::Overflows => Verdict::Overflows,
        }
    }
}

/// Whether a result says what a verdict says.
pub open spec fn agrees(r: Result<(), ValidationError>, v: VerdictView) -> bool {
    match v {
        Verdict::Fine => r is Ok,
        Verdict::Bad(e) => r is Err && r->Err_0@ == e,
        Verdict::Overflows => false,
    }
}

/// The first check that is not passed decides.
pub open spec fn first(a: VerdictView, b: VerdictView) -> VerdictView {
    if a is Fine {
        b
    } else {
        a
    }
}

// ---------------------------------------------------------------- names

/// A lower case letter or a digit.
pub open spec fn name_start(c: char) -> bool {
    'a' <= c <= 'z' || '0' <= c <= '9'
}

/// A valid name: two to thirty-one lower case letters, digits, underscores and hyphens, the first
/// of them a letter or a digit.
pub open spec fn valid_name(s: Seq<char>) -> bool {
    &&& NAME_MIN_LEN <= s.len() <= NAME_MAX_LEN
    &&& name_start(s[0])
    &&& forall|i: int|
        1 <= i < s.len() ==> name_start(#[trigger] s[i]) || s[i] == '_' || s[i] == '-'
}

/// Whether a name is valid.
pub fn is_valid_name(name: &str) -> (r: bool)
    ensures
        r == valid_name(name@),
{
    let cs = text::chars_of(name);
    if cs.len() < NAME_MIN_LEN || cs.len() > NAME_MAX_LEN {
        return false;
    }
    let c = cs[0];
    if !(('a' <= c && c <= 'z') || ('0' <= c && c <= '9')) {
        return false;
    }
    let mut i: usize = 1;
    while i < cs.len()
        invariant
            1 <= i <= cs.len(),
            cs@ == name@,
            forall|k: int|
                1 <= k < i ==> name_start(#[trigger] name@[k]) || name@[k] == '_' || name@[k]
                    == '-',
        decreases cs.len() - i,
    {
        let c = cs[i];
        if !(('a' <= c && c <= 'z') || ('0' <= c && c <= '9') || c == '_' || c == '-') {
            assert(!(name_start(name@[i as int]) || name@[i as int] == '_' || name@[i as int]
                == '-'));
            return false;
        }
        i = i + 1;
    }
    true
}

// ---------------------------------------------------------------- flow rules

/// The first field that repeats an earlier one.
pub open spec fn first_repeat(fields: Seq<Field>) -> Option<Field>
    decreases fields.len(),
{
    if fields.len() == 0 {
        None
    } else {
        match first_repeat(fields.drop_last()) {
            Some(f) => Some(f),
            None => if fields.drop_last().contains(fields.last()) {
                Some(fields.last())
            } else {
                None
            },
        }
    }
}

/// How many bytes the fields take in a key.
pub open spec fn key_width(fields: Seq<Field>) -> nat
    decreases fields.len(),
{
    if fields.len() == 0 {
        0
    } else {
        key_width(fields.drop_last()) + fields.last().bytes()
    }
}

/// What is wrong with a flow rule by itself.
pub open spec fn rule_error(r: FlowRuleView) -> Option<ErrorView> {
    let name = r.name;
    if !valid_name(name) {
        Some(ValidationError::InvalidName { name })
    } else if r.fields.len() == 0 {
        Some(ValidationError::EmptyFields { name })
    } else if let Some(field) = first_repeat(r.fields) {
        Some(ValidationError::DuplicateField { name, field })
    } else if r.max_keys == 0 {
        Some(ValidationError::ZeroMaxKeys { name })
    } else if r.max_keys > MAX_KEYS_BUDGET {
        Some(ValidationError::MaxKeysExceedsBudget { name, max_keys: r.max_keys })
    } else if key_width(r.fields) > MAX_KEY_WIDTH {
        Some(ValidationError::KeyWidthExceeded { name, width: key_width(r.fields) as u32 })
    } else {
        None
    }
}

/// The bytes of one field where it occurs.
spec fn present(fields: Seq<Field>, f: Field) -> nat {
    if fields.contains(f) {
        f.bytes()
    } else {
        0
    }
}

proof fn width_by_presence(fields: Seq<Field>)
    requires
        first_repeat(fields) is None,
    ensures
        key_width(fields) == present(fields, Field::SrcIp) + present(fields, Field::DstIp)
            + present(fields, Field::IpProto) + present(fields, Field::Dscp) + present(
            fields,
            Field::MirrorSrcIp,
        ) + present(fields, Field::SrcPort) + present(fields, Field::DstPort),
    decreases fields.len(),
{
    if fields.len() > 0 {
        let front = fields.drop_last();
        let last = fields.last();
        width_by_presence(front);
        assert forall|f: Field| #[trigger] fields.contains(f) == (front.contains(f) || f
            == last) by {
            if front.contains(f) {
                let i = choose|i: int| 0 <= i < front.len() && front[i] == f;
                assert(fields[i] == f);
            }
            if fields.contains(f) && f != last {
                let i = choose|i: int| 0 <= i < fields.len() && fields[i] == f;
                assert(front[i] == f);
            }
            if f == last {
                assert(fields[fields.len() - 1] == f);
            }
        }
    }
}

/// Fields that do not repeat always fit in a key: all of them together take 54 bytes.
pub proof fn distinct_fields_fit(fields: Seq<Field>)
    requires
        first_repeat(fields) is None,
    ensures
        key_width(fields) <= 54,
        key_width(fields) <= MAX_KEY_WIDTH,
{
    width_by_presence(fields);
}

/// No field repeats an earlier one exactly where all fields are different.
pub proof fn no_repeat_means_distinct(fields: Seq<Field>)
    ensures
        first_repeat(fields) is None <==> fields.no_duplicates(),
    decreases fields.len(),
{
    if fields.len() > 0 {
        let front = fields.drop_last();
        no_repeat_means_distinct(front);
        if first_repeat(fields) is None {
            assert forall|i: int, j: int|
                0 <= i < fields.len() && 0 <= j < fields.len() && i != j implies fields[i]
                != fields[j] by {
                if i == fields.len() - 1 {
                    assert(front[j] == fields[j]);
                } else if j == fields.len() - 1 {
                    assert(front[i] == fields[i]);
                } else {
                    assert(front[i] == fields[i] && front[j] == fields[j]);
                }
            }
        }
        if fields.no_duplicates() {
            assert forall|i: int, j: int|
                0 <= i < front.len() && 0 <= j < front.len() && i != j implies front[i]
                != front[j] by {
                assert(front[i] == fields[i] && front[j] == fields[j]);
            }
            if front.contains(fields.last()) {
                let i = choose|i: int| 0 <= i < front.len() && front[i] == fields.last();
                assert(fields[i] == fields[fields.len() - 1]);
            }
        }
    }
}

proof fn repeat_in_prefix(fields: Seq<Field>, n: int)
    requires
        0 <= n <= fields.len(),
        first_repeat(fields.take(n)) is Some,
    ensures
        first_repeat(fields) == first_repeat(fields.take(n)),
    decreases fields.len() - n,
{
    if n < fields.len() {
        assert(fields.take(n + 1).drop_last() =~= fields.take(n));
        repeat_in_prefix(fields, n + 1);
    } else {
        assert(fields.take(n) =~= fields);
    }
}

fn find_repeat(fields: &Vec<Field>) -> (r: Option<Field>)
    ensures
        r == first_repeat(fields@),
{
    let mut i: usize = 0;
    assert(fields@.take(0) =~= Seq::<Field>::empty());
    while i < fields.len()
        invariant
            i <= fields.len(),
            first_repeat(fields@.take(i as int)) is None,
        decreases fields.len() - i,
    {
        let f = fields[i];
        let mut j: usize = 0;
        let ghost front = fields@.take(i as int);
        assert(fields@.take(i as int + 1).drop_last() =~= front);
        while j < i
            invariant
                j <= i < fields.len(),
                f == fields@[i as int],
                front == fields@.take(i as int),
                fields@.take(i as int + 1).drop_last() == front,
                first_repeat(front) is None,
                forall|k: int| 0 <= k < j ==> (#[trigger] front[k]) != f,
            decreases i - j,
        {
            if fields[j] == f {
                proof {
                    assert(front[j as int] == f);
                    repeat_in_prefix(fields@, i as int + 1);
                }
                return Some(f);
            }
            j = j + 1;
        }
        assert(!front.contains(f));
        i = i + 1;
    }
    assert(fields@.take(fields@.len() as int) =~= fields@);
    None
}

/// How many bytes the fields take in a key.
fn sum_widths(fields: &Vec<Field>) -> (r: u32)
    requires
        first_repeat(fields@) is None,
    ensures
        r == key_width(fields@),
{
    let mut total: u32 = 0;
    let mut i: usize = 0;
    assert(fields@.take(0) =~= Seq::<Field>::empty());
    while i < fields.len()
        invariant
            i <= fields.len(),
            first_repeat(fields@) is None,
            total == key_width(fields@.take(i as int)),
        decreases fields.len() - i,
    {
        proof {
            assert(fields@.take(i as int + 1).drop_last() =~= fields@.take(i as int));
            if first_repeat(fields@.take(i as int + 1)) is Some {
                repeat_in_prefix(fields@, i as int + 1);
            }
            distinct_fields_fit(fields@.take(i as int + 1));
        }
        total = total + fields[i].width();
        i = i + 1;
    }
    assert(fields@.take(fields@.len() as int) =~= fields@);
    total
}

/// Checks a flow rule by itself.
pub fn validate_rule(rule: &FlowRule) -> (r: Result<(), ValidationError>)
    ensures
        match rule_error(rule@) {
            None => r is Ok,
            Some(e) => r is Err && r->Err_0@ == e,
        },
{
    if !is_valid_name(rule.name.as_str()) {
        return Err(ValidationError::InvalidName { name: rule.name.clone() });
    }
    if rule.fields.len() == 0 {
        return Err(ValidationError::EmptyFields { name: rule.name.clone() });
    }
    if let Some(field) = find_repeat(&rule.fields) {
        return Err(ValidationError::DuplicateField { name: rule.name.clone(), field });
    }
    if rule.max_keys == 0 {
        return Err(ValidationError::ZeroMaxKeys { name: rule.name.clone() });
    }
    if rule.max_keys > MAX_KEYS_BUDGET {
        return Err(
            ValidationError::MaxKeysExceedsBudget {
                name: rule.name.clone(),
                max_keys: rule.max_keys,
            },
        );
    }
    let width: u32 = sum_widths(&rule.fields);
    if width > MAX_KEY_WIDTH {
        return Err(ValidationError::KeyWidthExceeded { name: rule.name.clone(), width });
    }
    Ok(())
}

// ---------------------------------------------------------------- frontend

/// What a time span setting gives: `unreadable` where it cannot be read, `zero` where it is
/// nothing.
pub open spec fn span_verdict(s: Seq<char>, unreadable: ErrorView, zero: ErrorView) -> VerdictView {
    match timeout::span_ms(s) {
        None => Verdict::Bad(unreadable),
        Some(v) => if v > u64::MAX {
            Verdict::Overflows
        } else if v == 0 {
            Verdict::Bad(zero)
        } else {
            Verdict::Fine
        },
    }
}

/// What checking the frontend section gives.
pub open spec fn frontend_verdict(cfg: FrontendConfig) -> VerdictView {
    if cfg.polling_interval_ms == 0 {
        Verdict::Bad(ValidationError::ZeroPollingInterval)
    } else if cfg.shutdown_grace_ms == 0 {
        Verdict::Bad(ValidationError::ZeroShutdownGrace)
    } else {
        span_verdict(
            cfg.startup_timeout@,
            ValidationError::InvalidStartupTimeout { value: cfg.startup_timeout@ },
            ValidationError::ZeroStartupTimeout,
        )
    }
}

/// Checks the frontend section.
pub fn check_frontend(cfg: &FrontendConfig) -> (r: Verdict)
    ensures
        r@ == frontend_verdict(*cfg),
{
    if cfg.polling_interval_ms == 0 {
        return Verdict::Bad(ValidationError::ZeroPollingInterval);
    }
    if cfg.shutdown_grace_ms == 0 {
        return Verdict::Bad(ValidationError::ZeroShutdownGrace);
    }
    match timeout::read_span(cfg.startup_timeout.as_str()) {
        None => Verdict::Bad(
            ValidationError::InvalidStartupTimeout { value: cfg.startup_timeout.clone() },
        ),
        Some(v) => if v > u64::MAX as u128 {
            Verdict::Overflows
        } else if v == 0 {
            Verdict::Bad(ValidationError::ZeroStartupTimeout)
        } else {
            Verdict::Fine
        },
    }
}

fn verdict_result(v: Verdict) -> (r: Result<(), ValidationError>)
    requires
        !(v is Overflows),
    ensures
        agrees(r, v@),
{
    match v {
        Verdict::Bad(e) => Err(e),
        _ => Ok(()),
    }
}

/// Checks the frontend section.
pub fn validate_frontend(cfg: &FrontendConfig) -> (r: Result<(), ValidationError>)
    requires
        !(frontend_verdict(*cfg) is Overflows),
    ensures
        agrees(r, frontend_verdict(*cfg)),
{
    verdict_result(check_frontend(cfg))
}

// ---------------------------------------------------------------- exporters

/// The text of a setting, where it is one.
pub open spec fn extra_str(v: ExtraValue) -> Option<Seq<char>> {
    match v {
        ExtraValue::Text(s) => Some(s@),
        ExtraValue::Yaml(s) => yaml::yaml_str(s@),
    }
}

/// The endpoint that an exporter names.
pub open spec fn entry_endpoint(entry: ExporterEntry) -> Option<Seq<char>> {
    match pairs::lookup(entry.extra@, "endpoint"@) {
        Some(v) => extra_str(v),
        None => None,
    }
}

/// What checking an exporter gives, once its endpoint is known.
pub open spec fn entry_verdict(
    entry: ExporterEntry,
    index: usize,
    endpoint: Option<Seq<char>>,
) -> VerdictView {
    let name = entry.name@;
    if name.len() == 0 {
        Verdict::Bad(ValidationError::EmptyExporterName { index })
    } else if !valid_name(name) {
        Verdict::Bad(ValidationError::InvalidExporterName { name })
    } else if entry.kind@.len() == 0 {
        Verdict::Bad(ValidationError::EmptyExporterType { name })
    } else if entry.kind@ != "otlp"@ {
        Verdict::Bad(
            ValidationError::UnknownExporterType { name, kind: entry.kind@, known: "otlp"@ },
        )
    } else if entry.queue_depth == 0 {
        Verdict::Bad(ValidationError::ZeroQueueDepth { name })
    } else if entry.queue_depth > MAX_QUEUE_DEPTH {
        Verdict::Bad(
            ValidationError::QueueDepthTooLarge {
                name,
                depth: entry.queue_depth,
                max: MAX_QUEUE_DEPTH,
            },
        )
    } else {
        first(
            span_verdict(
                entry.export_timeout@,
                ValidationError::InvalidExportTimeout { name, value: entry.export_timeout@ },
                ValidationError::ZeroExportTimeout { name },
            ),
            if endpoint is None || endpoint->Some_0.len() == 0 {
                Verdict::Bad(ValidationError::MissingOtlpEndpoint { name })
            } else if entry.on_overflow@ != "drop_newest"@ {
                Verdict::Bad(
                    ValidationError::InvalidOverflowPolicy {
                        name,
                        policy: entry.on_overflow@,
                        valid: "drop_newest"@,
                    },
                )
            } else {
                Verdict::Fine
            },
        )
    }
}

/// The view of an optional text.
pub open spec fn opt_text(s: Option<&str>) -> Option<Seq<char>> {
    match s {
        Some(x) => Some(x@),
        None => None,
    }
}

/// Checks an exporter whose endpoint is known; `index` stands in for an empty name.
pub fn check_exporter(entry: &ExporterEntry, index: usize, endpoint: Option<&str>) -> (r: Verdict)
    ensures
        r@ == entry_verdict(*entry, index, opt_text(endpoint)),
{
    if entry.name.as_str().is_empty() {
        return Verdict::Bad(ValidationError::EmptyExporterName { index });
    }
    if !is_valid_name(entry.name.as_str()) {
        return Verdict::Bad(ValidationError::InvalidExporterName { name: entry.name.clone() });
    }
    if entry.kind.as_str().is_empty() {
        return Verdict::Bad(ValidationError::EmptyExporterType { name: entry.name.clone() });
    }
    if !text::same(entry.kind.as_str(), "otlp") {
        return Verdict::Bad(
            ValidationError::UnknownExporterType {
                name: entry.name.clone(),
                kind: entry.kind.clone(),
                known: "otlp".to_owned(),
            },
        );
    }
    if entry.queue_depth == 0 {
        return Verdict::Bad(ValidationError::ZeroQueueDepth { name: entry.name.clone() });
    }
    if entry.queue_depth > MAX_QUEUE_DEPTH {
        return Verdict::Bad(
            ValidationError::QueueDepthTooLarge {
                name: entry.name.clone(),
                depth: entry.queue_depth,
                max: MAX_QUEUE_DEPTH,
            },
        );
    }
    match timeout::read_span(entry.export_timeout.as_str()) {
        None => {
            return Verdict::Bad(
                ValidationError::InvalidExportTimeout {
                    name: entry.name.clone(),
                    value: entry.export_timeout.clone(),
                },
            );
        },
        Some(v) => {
            if v > u64::MAX as u128 {
                return Verdict::Overflows;
            }
            if v == 0 {
                return Verdict::Bad(
                    ValidationError::ZeroExportTimeout { name: entry.name.clone() },
                );
            }
        },
    }
    let named = match endpoint {
        Some(s) => !s.is_empty(),
        None => false,
    };
    if !named {
        return Verdict::Bad(ValidationError::MissingOtlpEndpoint { name: entry.name.clone() });
    }
    if !text::same(entry.on_overflow.as_str(), "drop_newest") {
        return Verdict::Bad(
            ValidationError::InvalidOverflowPolicy {
                name: entry.name.clone(),
                policy: entry.on_overflow.clone(),
                valid: "drop_newest".to_owned(),
            },
        );
    }
    Verdict::Fine
}

/// The text of a setting, where it is one.
pub fn extra_text(v: &ExtraValue) -> (r: Option<String>)
    ensures
        r is Some == extra_str(*v) is Some,
        r is Some ==> extra_str(*v) == Some(r->Some_0@),
{
    match v {
        ExtraValue::Text(s) => Some(s.clone()),
        ExtraValue::Yaml(s) => yaml::as_str(s.as_str()),
    }
}

/// Checks an exporter.
pub fn check_entry(entry: &ExporterEntry, index: usize) -> (r: Verdict)
    ensures
        r@ == entry_verdict(*entry, index, entry_endpoint(*entry)),
{
    let endpoint = match entry.extra.get("endpoint") {
        Some(v) => extra_text(v),
        None => None,
    };
    match &endpoint {
        Some(s) => check_exporter(entry, index, Some(s.as_str())),
        None => check_exporter(entry, index, None),
    }
}

/// Whether checking an exporter comes upon a time span that cannot be counted; its index and its
/// endpoint do not matter for that.
pub open spec fn entry_overflows(entry: ExporterEntry) -> bool {
    entry_verdict(entry, 0, None) is Overflows
}

/// The index of an exporter shows only where the exporter has no name.
pub proof fn index_shows_without_name_only(
    entry: ExporterEntry,
    i: usize,
    j: usize,
    endpoint: Option<Seq<char>>,
)
    ensures
        entry.name@.len() > 0 ==> entry_verdict(entry, i, endpoint) == entry_verdict(
            entry,
            j,
            endpoint,
        ),
        entry.name@.len() == 0 ==> entry_verdict(entry, i, endpoint) == Verdict::<
            Seq<char>,
        >::Bad(ValidationError::EmptyExporterName { index: i }),
{
}

/// Checks an exporter whose time span can be counted; `index` stands in for an empty name.
pub fn validate_exporter(entry: &ExporterEntry, index: usize) -> (r: Result<(), ValidationError>)
    requires
        !entry_overflows(*entry),
    ensures
        agrees(r, entry_verdict(*entry, index, entry_endpoint(*entry))),
{
    verdict_result(check_entry(entry, index))
}

// ---------------------------------------------------------------- the whole configuration

/// Whether one of the first `n` rules has this name.
pub open spec fn name_taken(rules: Seq<FlowRuleView>, n: nat, name: Seq<char>) -> bool {
    exists|i: int| 0 <= i < n && (#[trigger] rules[i]).name == name
}

/// What checking the first `n` rules gives.
pub open spec fn rules_verdict(rules: Seq<FlowRuleView>, n: nat) -> VerdictView
    decreases n,
{
    if n == 0 {
        Verdict::Fine
    } else {
        let rule = rules[n - 1];
        first(
            rules_verdict(rules, (n - 1) as nat),
            if name_taken(rules, (n - 1) as nat, rule.name) {
                Verdict::Bad(ValidationError::DuplicateName(rule.name))
            } else {
                match rule_error(rule) {
                    Some(e) => Verdict::Bad(e),
                    None => Verdict::Fine,
                }
            },
        )
    }
}

/// How many keys the first `n` rules may track together.
pub open spec fn keys_in(rules: Seq<FlowRuleView>, n: nat) -> nat
    decreases n,
{
    if n == 0 {
        0
    } else {
        keys_in(rules, (n - 1) as nat) + rules[n - 1].max_keys as nat
    }
}

/// What checking the number of rules and their keys together gives.
pub open spec fn limits_verdict(rules: Seq<FlowRuleView>) -> VerdictView {
    if rules.len() > FLOW_RULE_SET_MAX {
        Verdict::Bad(
            ValidationError::TooManyRules {
                count: rules.len() as usize,
                max: FLOW_RULE_SET_MAX,
            },
        )
    } else if keys_in(rules, rules.len()) > MAX_KEYS_BUDGET {
        Verdict::Bad(
            ValidationError::BudgetExceeded { total: keys_in(rules, rules.len()) as u64 },
        )
    } else {
        Verdict::Fine
    }
}

/// Whether one of the first `n` exporters has this name.
pub open spec fn exporter_named(
    entries: Seq<ExporterEntry>,
    n: nat,
    name: Seq<char>,
) -> bool {
    exists|i: int| 0 <= i < n && (#[trigger] entries[i]).name@ == name
}

/// What checking the first `n` exporters gives.
pub open spec fn entries_verdict(entries: Seq<ExporterEntry>, n: nat) -> VerdictView
    decreases n,
{
    if n == 0 {
        Verdict::Fine
    } else {
        let entry = entries[n - 1];
        first(
            entries_verdict(entries, (n - 1) as nat),
            first(
                entry_verdict(entry, (n - 1) as usize, entry_endpoint(entry)),
                if exporter_named(entries, (n - 1) as nat, entry.name@) {
                    Verdict::Bad(ValidationError::DuplicateExporterName(entry.name@))
                } else {
                    Verdict::Fine
                },
            ),
        )
    }
}

/// What checking a configuration gives: the frontend first, then the rules one by one, their
/// number, their keys together, and the exporters one by one.
pub open spec fn config_verdict(config: Config) -> VerdictView {
    let rules = model::rule_views(config.flow_rules@);
    first(
        match config.frontend {
            Some(f) => frontend_verdict(f),
            None => Verdict::Fine,
        },
        first(
            rules_verdict(rules, rules.len()),
            first(
                limits_verdict(rules),
                match config.exporters {
                    Some(es) => entries_verdict(es@, es@.len()),
                    None => Verdict::Fine,
                },
            ),
        ),
    )
}

proof fn rules_verdict_bad_prefix(rules: Seq<FlowRuleView>, n: nat, m: nat)
    requires
        n <= m,
        !(rules_verdict(rules, n) is Fine),
    ensures
        rules_verdict(rules, m) == rules_verdict(rules, n),
    decreases m,
{
    if n < m {
        rules_verdict_bad_prefix(rules, n, (m - 1) as nat);
    }
}

proof fn entries_verdict_bad_prefix(entries: Seq<ExporterEntry>, n: nat, m: nat)
    requires
        n <= m,
        !(entries_verdict(entries, n) is Fine),
    ensures
        entries_verdict(entries, m) == entries_verdict(entries, n),
    decreases m,
{
    if n < m {
        entries_verdict_bad_prefix(entries, n, (m - 1) as nat);
    }
}

fn check_rules(rules: &Vec<FlowRule>) -> (r: Verdict)
    ensures
        r@ == rules_verdict(model::rule_views(rules@), rules@.len()),
{
    let ghost views = model::rule_views(rules@);
    let mut i: usize = 0;
    while i < rules.len()
        invariant
            i <= rules.len(),
            views == model::rule_views(rules@),
            rules_verdict(views, i as nat) is Fine,
        decreases rules.len() - i,
    {
        let rule = &rules[i];
        assert(views[i as int] == rule@);
        let mut j: usize = 0;
        while j < i
            invariant
                j <= i < rules.len(),
                *rule == rules@[i as int],
                views == model::rule_views(rules@),
                rules_verdict(views, i as nat) is Fine,
                forall|k: int| 0 <= k < j ==> (#[trigger] views[k]).name != rule.name@,
            decreases i - j,
        {
            assert(views[j as int] == rules@[j as int]@);
            if text::same(rules[j].name.as_str(), rule.name.as_str()) {
                proof {
                    assert(views[i as int] == rule@);
                    assert(name_taken(views, i as nat, rule.name@));
                    rules_verdict_bad_prefix(views, i as nat + 1, views.len());
                }
                return Verdict::Bad(ValidationError::DuplicateName(rule.name.clone()));
            }
            j = j + 1;
        }
        assert(!name_taken(views, i as nat, rule.name@));
        if let Err(e) = validate_rule(rule) {
            proof {
                rules_verdict_bad_prefix(views, i as nat + 1, views.len());
            }
            return Verdict::Bad(e);
        }
        i = i + 1;
    }
    Verdict::Fine
}

/// How many keys the rules may track together.
pub fn sum_keys(rules: &Vec<FlowRule>) -> (r: u64)
    requires
        rules.len() <= FLOW_RULE_SET_MAX,
    ensures
        r == keys_in(model::rule_views(rules@), rules@.len()),
        r <= FLOW_RULE_SET_MAX * u32::MAX,
{
    let ghost views = model::rule_views(rules@);
    let mut total: u64 = 0;
    let mut i: usize = 0;
    while i < rules.len()
        invariant
            i <= rules.len() <= FLOW_RULE_SET_MAX,
            views == model::rule_views(rules@),
            total == keys_in(views, i as nat),
            total <= i * u32::MAX,
        decreases rules.len() - i,
    {
        assert(views[i as int] == rules@[i as int]@);
        total = total + rules[i].max_keys as u64;
        i = i + 1;
    }
    total
}

fn check_limits(rules: &Vec<FlowRule>) -> (r: Verdict)
    ensures
        r@ == limits_verdict(model::rule_views(rules@)),
{
    if rules.len() > FLOW_RULE_SET_MAX {
        return Verdict::Bad(
            ValidationError::TooManyRules { count: rules.len(), max: FLOW_RULE_SET_MAX },
        );
    }
    let total: u64 = sum_keys(rules);
    if total > MAX_KEYS_BUDGET as u64 {
        return Verdict::Bad(ValidationError::BudgetExceeded { total });
    }
    Verdict::Fine
}

fn check_entries(entries: &Vec<ExporterEntry>) -> (r: Verdict)
    ensures
        r@ == entries_verdict(entries@, entries@.len()),
{
    let mut i: usize = 0;
    while i < entries.len()
        invariant
            i <= entries.len(),
            entries_verdict(entries@, i as nat) is Fine,
        decreases entries.len() - i,
    {
        let entry = &entries[i];
        let own = check_entry(entry, i);
        match own {
            Verdict::Fine => {},
            bad => {
                proof {
                    entries_verdict_bad_prefix(entries@, i as nat + 1, entries@.len());
                }
                return bad;
            },
        }
        let mut j: usize = 0;
        while j < i
            invariant
                j <= i < entries.len(),
                *entry == entries@[i as int],
                entries_verdict(entries@, i as nat) is Fine,
                entry_verdict(*entry, i, entry_endpoint(*entry)) is Fine,
                forall|k: int| 0 <= k < j ==> (#[trigger] entries@[k]).name@ != entry.name@,
            decreases i - j,
        {
            if text::same(entries[j].name.as_str(), entry.name.as_str()) {
                proof {
                    assert(exporter_named(entries@, i as nat, entry.name@));
                    entries_verdict_bad_prefix(entries@, i as nat + 1, entries@.len());
                }
                return Verdict::Bad(ValidationError::DuplicateExporterName(entry.name.clone()));
            }
            j = j + 1;
        }
        assert(!exporter_named(entries@, i as nat, entry.name@));
        i = i + 1;
    }
    Verdict::Fine
}

/// Checks a configuration.
pub fn check_config(config: &Config) -> (r: Verdict)
    ensures
        r@ == config_verdict(*config),
{
    if let Some(f) = &config.frontend {
        match check_frontend(f) {
            Verdict::Fine => {},
            bad => {
                return bad;
            },
        }
    }
    match check_rules(&config.flow_rules) {
        Verdict::Fine => {},
        bad => {
            return bad;
        },
    }
    match check_limits(&config.flow_rules) {
        Verdict::Fine => {},
        bad => {
            return bad;
        },
    }
    match &config.exporters {
        Some(es) => check_entries(es),
        None => Verdict::Fine,
    }
}

/// Checks a configuration whose time spans can all be counted.
pub fn validate_config(config: &Config) -> (r: Result<(), ValidationError>)
    requires
        !(config_verdict(*config) is Overflows),
    ensures
        agrees(r, config_verdict(*config)),
{
    verdict_result(check_config(config))
}

/// Checks a configuration; gives nothing where a time span cannot be counted in milliseconds.
pub fn try_validate_config(config: &Config) -> (r: Option<Result<(), ValidationError>>)
    ensures
        match r {
            None => config_verdict(*config) is Overflows,
            Some(x) => agrees(x, config_verdict(*config)),
        },
{
    match check_config(config) {
        Verdict::Overflows => None,
        _ => Some(validate_config(config)),
    }
}

/// What an accepted list of rules keeps: each rule is right by itself, no name stands twice, there
/// are not too many, and their keys stay within the budget.
pub open spec fn rules_sound(rules: Seq<FlowRuleView>, budget: u32) -> bool {
    &&& rules.len() <= FLOW_RULE_SET_MAX
    &&& forall|i: int| 0 <= i < rules.len() ==> rule_error(#[trigger] rules[i]) is None
    &&& forall|i: int, j: int|
        0 <= i < j < rules.len() ==> (#[trigger] rules[i]).name != (#[trigger] rules[j]).name
    &&& keys_in(rules, rules.len()) <= budget
}

proof fn fine_rules(rules: Seq<FlowRuleView>, n: nat)
    requires
        n <= rules.len(),
        rules_verdict(rules, n) is Fine,
    ensures
        forall|i: int| 0 <= i < n ==> rule_error(#[trigger] rules[i]) is None,
        forall|i: int, j: int|
            0 <= i < j < n ==> (#[trigger] rules[i]).name != (#[trigger] rules[j]).name,
    decreases n,
{
    if n > 0 {
        fine_rules(rules, (n - 1) as nat);
        assert(!name_taken(rules, (n - 1) as nat, rules[n - 1].name));
    }
}

/// A configuration that is accepted has sound rules.
pub proof fn accepted_config_is_sound(config: Config)
    requires
        config_verdict(config) is Fine,
    ensures
        rules_sound(model::rule_views(config.flow_rules@), MAX_KEYS_BUDGET),
{
    let rules = model::rule_views(config.flow_rules@);
    fine_rules(rules, rules.len());
}

// ---------------------------------------------------------------- laws

/// A name of two to thirty-one characters, each a lower case letter, a digit, an underscore or a
/// hyphen, and the first neither of the last two.
pub open spec fn is_name(s: Seq<char>) -> bool {
    &&& 2 <= s.len() <= 31
    &&& s[0] != '_'
    &&& s[0] != '-'
    &&& forall|i: int|
        0 <= i < s.len() ==> 'a' <= #[trigger] s[i] <= 'z' || '0' <= s[i] <= '9' || s[i] == '_'
            || s[i] == '-'
}

/// A rule that is right by itself: a good name, some fields, none of them twice, and one to
/// sixteen times 1024 times 1024 keys.
pub open spec fn is_rule(r: FlowRuleView) -> bool {
    &&& is_name(r.name)
    &&& r.fields.len() > 0
    &&& r.fields.no_duplicates()
    &&& 1 <= r.max_keys <= 16_777_216
}

/// The keys of all rules together.
pub open spec fn keys_together(rules: Seq<FlowRuleView>) -> nat
    decreases rules.len(),
{
    if rules.len() == 0 {
        0
    } else {
        keys_together(rules.drop_last()) + rules.last().max_keys as nat
    }
}

/// A span of time that can be read, is not zero, and can be counted in milliseconds.
pub open spec fn is_time(s: Seq<char>) -> bool {
    timeout::span_ms(s) matches Some(v) && 0 < v <= u64::MAX
}

/// An exporter that is right by itself.
pub open spec fn is_exporter(e: ExporterEntry) -> bool {
    &&& is_name(e.name@)
    &&& e.kind@ == "otlp"@
    &&& 1 <= e.queue_depth <= 10_000
    &&& is_time(e.export_timeout@)
    &&& entry_endpoint(e) matches Some(s) && s.len() > 0
    &&& e.on_overflow@ == "drop_newest"@
}

proof fn names_are_judged(s: Seq<char>)
    ensures
        valid_name(s) <==> is_name(s),
{
    if valid_name(s) {
        assert forall|i: int| 0 <= i < s.len() implies 'a' <= #[trigger] s[i] <= 'z' || '0' <= s[i]
            <= '9' || s[i] == '_' || s[i] == '-' by {
            if i > 0 {
                assert(name_start(s[i]) || s[i] == '_' || s[i] == '-');
            }
        }
    }
    if is_name(s) {
        assert('a' <= s[0] <= 'z' || '0' <= s[0] <= '9');
        assert forall|i: int| 1 <= i < s.len() implies name_start(#[trigger] s[i]) || s[i] == '_'
            || s[i] == '-' by {
            assert('a' <= s[i] <= 'z' || '0' <= s[i] <= '9' || s[i] == '_' || s[i] == '-');
        }
    }
}

proof fn repeats_are_real(fields: Seq<Field>)
    ensures
        first_repeat(fields) matches Some(f) ==> exists|i: int, j: int|
            0 <= i < j < fields.len() && #[trigger] fields[i] == f && #[trigger] fields[j] == f,
    decreases fields.len(),
{
    if fields.len() > 0 {
        let front = fields.drop_last();
        repeats_are_real(front);
        if let Some(f) = first_repeat(front) {
            let (i, j) = choose|i: int, j: int|
                0 <= i < j < front.len() && #[trigger] front[i] == f && #[trigger] front[j] == f;
            assert(fields[i] == f && fields[j] == f);
        } else if front.contains(fields.last()) {
            let i = choose|i: int| 0 <= i < front.len() && front[i] == fields.last();
            assert(fields[i] == fields.last() && fields[fields.len() - 1] == fields.last());
        }
    }
}

/// A rule is refused exactly where something is wrong with it, and the error tells what: its name,
/// its lack of fields, a field that it has twice, or a number of keys that is none or too large, in
/// this order.
pub proof fn rules_are_judged(r: FlowRuleView)
    ensures
        rule_error(r) is None <==> is_rule(r),
        rule_error(r) is Some ==> match rule_error(r)->Some_0 {
            ValidationError::InvalidName { name } => name == r.name && !is_name(r.name),
            ValidationError::EmptyFields { name } => {
                &&& name == r.name
                &&& is_name(r.name)
                &&& r.fields.len() == 0
            },
            ValidationError::DuplicateField { name, field } => {
                &&& name == r.name
                &&& is_name(r.name)
                &&& exists|i: int, j: int|
                    0 <= i < j < r.fields.len() && #[trigger] r.fields[i] == field
                        && #[trigger] r.fields[j] == field
            },
            ValidationError::ZeroMaxKeys { name } => {
                &&& name == r.name
                &&& is_name(r.name)
                &&& r.fields.len() > 0
                &&& r.fields.no_duplicates()
                &&& r.max_keys == 0
            },
            ValidationError::MaxKeysExceedsBudget { name, max_keys } => {
                &&& name == r.name
                &&& is_name(r.name)
                &&& r.fields.len() > 0
                &&& r.fields.no_duplicates()
                &&& max_keys == r.max_keys
                &&& r.max_keys > 16_777_216
            },
            _ => false,
        },
{
    names_are_judged(r.name);
    no_repeat_means_distinct(r.fields);
    repeats_are_real(r.fields);
    if first_repeat(r.fields) is None {
        distinct_fields_fit(r.fields);
    }
}

proof fn keys_are_together(rules: Seq<FlowRuleView>, n: nat)
    requires
        n <= rules.len(),
    ensures
        keys_in(rules, n) == keys_together(rules.take(n as int)),
    decreases n,
{
    if n > 0 {
        keys_are_together(rules, (n - 1) as nat);
        assert(rules.take(n as int).drop_last() =~= rules.take(n - 1));
    }
}

/// The keys of all rules together, counted rule by rule.
pub proof fn keys_are_summed(rules: Seq<FlowRuleView>)
    ensures
        keys_in(rules, rules.len()) == keys_together(rules),
{
    keys_are_together(rules, rules.len());
    assert(rules.take(rules.len() as int) =~= rules);
}

/// Rules stay within their limits exactly where there are at most sixteen of them and they track at
/// most sixteen times 1024 times 1024 keys together.
pub proof fn limits_are_judged(rules: Seq<FlowRuleView>)
    ensures
        limits_verdict(rules) is Fine <==> rules.len() <= 16 && keys_together(rules)
            <= 16_777_216,
        rules.len() > 16 ==> limits_verdict(rules) == Verdict::<Seq<char>>::Bad(
            ValidationError::TooManyRules { count: rules.len() as usize, max: 16usize },
        ),
        rules.len() <= 16 && keys_together(rules) > 16_777_216 ==> limits_verdict(rules)
            == Verdict::<Seq<char>>::Bad(
            ValidationError::BudgetExceeded { total: keys_together(rules) as u64 },
        ),
        !(limits_verdict(rules) is Overflows),
{
    keys_are_summed(rules);
}

/// An exporter passes its check exactly where it is right by itself, and otherwise the verdict tells
/// truly what is wrong with it.
pub proof fn exporters_are_judged(e: ExporterEntry, index: usize)
    ensures
        ({
            let v = entry_verdict(e, index, entry_endpoint(e));
            let span = timeout::span_ms(e.export_timeout@);
            &&& v is Fine <==> is_exporter(e)
            &&& v is Overflows ==> span is Some && span->Some_0 > u64::MAX
            &&& v matches Verdict::Bad(error) ==> match error {
                ValidationError::EmptyExporterName { index: i } => i == index && e.name@.len() == 0,
                ValidationError::InvalidExporterName { name } => {
                    &&& name == e.name@
                    &&& e.name@.len() > 0
                    &&& !is_name(e.name@)
                },
                ValidationError::EmptyExporterType { name } => {
                    &&& name == e.name@
                    &&& is_name(e.name@)
                    &&& e.kind@.len() == 0
                },
                ValidationError::UnknownExporterType { name, kind, known } => {
                    &&& name == e.name@
                    &&& is_name(e.name@)
                    &&& kind == e.kind@
                    &&& kind != "otlp"@
                    &&& kind.len() > 0
                    &&& known == "otlp"@
                },
                ValidationError::ZeroQueueDepth { name } => name == e.name@ && e.queue_depth == 0,
                ValidationError::QueueDepthTooLarge { name, depth, max } => {
                    &&& name == e.name@
                    &&& depth == e.queue_depth
                    &&& depth > 10_000
                    &&& max == 10_000
                },
                ValidationError::InvalidExportTimeout { name, value } => {
                    &&& name == e.name@
                    &&& value == e.export_timeout@
                    &&& span is None
                },
                ValidationError::ZeroExportTimeout { name } => name == e.name@ && span == Some(
                    0nat,
                ),
                ValidationError::MissingOtlpEndpoint { name } => {
                    &&& name == e.name@
                    &&& is_time(e.export_timeout@)
                    &&& entry_endpoint(e) is None || entry_endpoint(e)->Some_0.len() == 0
                },
                ValidationError::InvalidOverflowPolicy { name, policy, valid } => {
                    &&& name == e.name@
                    &&& policy == e.on_overflow@
                    &&& policy != "drop_newest"@
                    &&& valid == "drop_newest"@
                },
                _ => false,
            }
        }),
{
    names_are_judged(e.name@);
    reveal_strlit("otlp");
    if e.kind@ == "otlp"@ {
        assert(e.kind@.len() == 4);
    }
}

/// The frontend section passes its check exactly where its two periods are not zero and its time
/// can be read, is not zero and can be counted; otherwise the verdict tells truly what is wrong.
pub proof fn frontends_are_judged(f: FrontendConfig)
    ensures
        ({
            let v = frontend_verdict(f);
            let span = timeout::span_ms(f.startup_timeout@);
            &&& v is Fine <==> f.polling_interval_ms > 0 && f.shutdown_grace_ms > 0 && is_time(
                f.startup_timeout@,
            )
            &&& v is Overflows ==> span is Some && span->Some_0 > u64::MAX
            &&& v matches Verdict::Bad(error) ==> match error {
                ValidationError::ZeroPollingInterval => f.polling_interval_ms == 0,
                ValidationError::ZeroShutdownGrace => f.shutdown_grace_ms == 0
                    && f.polling_interval_ms > 0,
                ValidationError::InvalidStartupTimeout { value } => value == f.startup_timeout@
                    && span is None,
                ValidationError::ZeroStartupTimeout => span == Some(0nat),
                _ => false,
            }
        }),
{
}

proof fn all_rules_are_judged(rules: Seq<FlowRuleView>, n: nat)
    requires
        n <= rules.len(),
    ensures
        rules_verdict(rules, n) is Fine <==> (forall|i: int|
            0 <= i < n ==> is_rule(#[trigger] rules[i])) && (forall|i: int, j: int|
            0 <= i < j < n ==> (#[trigger] rules[i]).name != (#[trigger] rules[j]).name),
    decreases n,
{
    if n > 0 {
        all_rules_are_judged(rules, (n - 1) as nat);
        rules_are_judged(rules[n - 1]);
        let taken = name_taken(rules, (n - 1) as nat, rules[n - 1].name);
        if taken {
            let i = choose|i: int| 0 <= i < n - 1 && (#[trigger] rules[i]).name == rules[n - 1].name;
            assert(rules[i].name == rules[n - 1].name);
        }
        if !taken {
            assert forall|i: int| 0 <= i < n - 1 implies (#[trigger] rules[i]).name
                != rules[n - 1].name by {}
        }
    }
}

proof fn all_exporters_are_judged(entries: Seq<ExporterEntry>, n: nat)
    requires
        n <= entries.len(),
    ensures
        entries_verdict(entries, n) is Fine <==> (forall|i: int|
            0 <= i < n ==> is_exporter(#[trigger] entries[i])) && (forall|i: int, j: int|
            0 <= i < j < n ==> (#[trigger] entries[i]).name@ != (#[trigger] entries[j]).name@),
    decreases n,
{
    if n > 0 {
        all_exporters_are_judged(entries, (n - 1) as nat);
        exporters_are_judged(entries[n - 1], (n - 1) as usize);
        let named = exporter_named(entries, (n - 1) as nat, entries[n - 1].name@);
        if named {
            let i = choose|i: int|
                0 <= i < n - 1 && (#[trigger] entries[i]).name@ == entries[n - 1].name@;
            assert(entries[i].name@ == entries[n - 1].name@);
        }
        if !named {
            assert forall|i: int| 0 <= i < n - 1 implies (#[trigger] entries[i]).name@
                != entries[n - 1].name@ by {}
        }
    }
}

/// A configuration is accepted exactly where everything in it is right: its frontend section, each
/// of its rules and exporters, their names among each other, and the limits on all rules together.
pub proof fn configurations_are_judged(config: Config)
    ensures
        ({
            let rules = model::rule_views(config.flow_rules@);
            config_verdict(config) is Fine <==> {
                &&& config.frontend matches Some(f) ==> f.polling_interval_ms > 0
                    && f.shutdown_grace_ms > 0 && is_time(f.startup_timeout@)
                &&& forall|i: int| 0 <= i < rules.len() ==> is_rule(#[trigger] rules[i])
                &&& forall|i: int, j: int|
                    0 <= i < j < rules.len() ==> (#[trigger] rules[i]).name
                        != (#[trigger] rules[j]).name
                &&& rules.len() <= 16
                &&& keys_together(rules) <= 16_777_216
                &&& config.exporters matches Some(es) ==> (forall|i: int|
                    0 <= i < es@.len() ==> is_exporter(#[trigger] es@[i])) && (forall|
                    i: int,
                    j: int,
                |
                    0 <= i < j < es@.len() ==> (#[trigger] es@[i]).name@
                        != (#[trigger] es@[j]).name@)
            }
        }),
{
    let rules = model::rule_views(config.flow_rules@);
    if let Some(f) = config.frontend {
        frontends_are_judged(f);
    }
    all_rules_are_judged(rules, rules.len());
    limits_are_judged(rules);
    if let Some(es) = config.exporters {
        all_exporters_are_judged(es@, es@.len());
    }
}

/// Whether a text begins with another.
pub open spec fn begins(t: Seq<char>, head: Seq<char>) -> bool {
    t.len() >= head.len() && t.take(head.len() as int) == head
}

/// An error about a rule or an exporter says first which one it is about, by its name.
pub proof fn errors_name_the_culprit(e: ErrorView)
    ensures
        match e {
            ValidationError::EmptyFields { name } => begins(e.text(), "flow-rule '"@ + name),
            ValidationError::DuplicateField { name, .. } => begins(
                e.text(),
                "flow-rule '"@ + name,
            ),
            ValidationError::ZeroMaxKeys { name } => begins(e.text(), "flow-rule '"@ + name),
            ValidationError::MaxKeysExceedsBudget { name, .. } => begins(
                e.text(),
                "flow-rule '"@ + name,
            ),
            ValidationError::KeyWidthExceeded { name, .. } => begins(
                e.text(),
                "flow-rule '"@ + name,
            ),
            ValidationError::InvalidName { name } => begins(e.text(), "flow-rule name '"@ + name),
            ValidationError::DuplicateName(name) => e.text() == "duplicate flow-rule name: "@
                + name,
            ValidationError::DuplicateExporterName(name) => e.text()
                == "duplicate exporter name: "@ + name,
            ValidationError::EmptyExporterType { name } => begins(e.text(), "exporter '"@ + name),
            ValidationError::UnknownExporterType { name, kind, .. } => begins(
                e.text(),
                "exporter '"@ + name + "': unknown type '"@ + kind,
            ),
            ValidationError::ZeroQueueDepth { name } => begins(e.text(), "exporter '"@ + name),
            ValidationError::QueueDepthTooLarge { name, .. } => begins(
                e.text(),
                "exporter '"@ + name,
            ),
            ValidationError::InvalidExportTimeout { name, .. } => begins(
                e.text(),
                "exporter '"@ + name,
            ),
            ValidationError::ZeroExportTimeout { name } => begins(e.text(), "exporter '"@ + name),
            ValidationError::InvalidExporterName { name } => begins(
                e.text(),
                "exporter '"@ + name,
            ),
            ValidationError::MissingOtlpEndpoint { name } => begins(
                e.text(),
                "exporter '"@ + name,
            ),
            ValidationError::InvalidOverflowPolicy { name, policy, .. } => begins(
                e.text(),
                "exporter '"@ + name + "': unknown on_overflow policy '"@ + policy,
            ),
            _ => true,
        },
{
    match e {
        ValidationError::EmptyFields { name } => {
            assert(e.text().take(("flow-rule '"@ + name).len() as int) =~= "flow-rule '"@ + name);
        },
        ValidationError::DuplicateField { name, .. } => {
            assert(e.text().take(("flow-rule '"@ + name).len() as int) =~= "flow-rule '"@ + name);
        },
        ValidationError::ZeroMaxKeys { name } => {
            assert(e.text().take(("flow-rule '"@ + name).len() as int) =~= "flow-rule '"@ + name);
        },
        ValidationError::MaxKeysExceedsBudget { name, .. } => {
            assert(e.text().take(("flow-rule '"@ + name).len() as int) =~= "flow-rule '"@ + name);
        },
        ValidationError::KeyWidthExceeded { name, .. } => {
            assert(e.text().take(("flow-rule '"@ + name).len() as int) =~= "flow-rule '"@ + name);
        },
        ValidationError::InvalidName { name } => {
            let head = "flow-rule name '"@ + name;
            assert(e.text().take(head.len() as int) =~= head);
        },
        ValidationError::UnknownExporterType { name, kind, .. } => {
            let head = "exporter '"@ + name + "': unknown type '"@ + kind;
            assert(e.text().take(head.len() as int) =~= head);
        },
        ValidationError::InvalidOverflowPolicy { name, policy, .. } => {
            let head = "exporter '"@ + name + "': unknown on_overflow policy '"@ + policy;
            assert(e.text().take(head.len() as int) =~= head);
        },
        ValidationError::EmptyExporterType { name }
        | ValidationError::ZeroQueueDepth { name }
        | ValidationError::QueueDepthTooLarge { name, .. }
        | ValidationError::InvalidExportTimeout { name, .. }
        | ValidationError::ZeroExportTimeout { name }
        | ValidationError::InvalidExporterName { name }
        | ValidationError::MissingOtlpEndpoint { name } => {
            let head = "exporter '"@ + name;
            assert(e.text().take(head.len() as int) =~= head);
        },
        _ => {},
    }
}

} // verus!
