//! Flow rules as they are written on the command line:
//! `name=<name> fields=<field,...> max_keys=<n> eviction_policy=<policy>`.

use vstd::prelude::*;

use crate::config::model::{EvictionPolicy, Field, FlowRule, FlowRuleView};
use crate::text;

verus! {

/// What is wrong with a flow rule on the command line.
#[derive(Debug, PartialEq, Eq)]
pub enum SpecError<S = String> {
    UnknownField(S),
    InvalidMaxKeys(S),
    UnknownPolicy(S),
    UnknownKey(S),
    NotKeyValue(S),
    MissingName,
    MissingFields,
}

pub type SpecErrorView = SpecError<Seq<char>>;

impl View for SpecError<String> {
    type V = SpecErrorView;

    open spec fn view(&self) -> SpecErrorView {
        match self {
            SpecError::UnknownField(s) => SpecError::UnknownField(s@),
            SpecError::InvalidMaxKeys(s) => SpecError::InvalidMaxKeys(s@),
            SpecError::UnknownPolicy(s) => SpecError::UnknownPolicy(s@),
            SpecError::UnknownKey(s) => SpecError::UnknownKey(s@),
            SpecError::NotKeyValue(s) => SpecError::NotKeyValue(s@),
            SpecError::MissingName => SpecError::MissingName,
            SpecError::MissingFields => SpecError::MissingFields,
        }
    }
}

impl SpecError<Seq<char>> {
    /// The wording of the error.
    pub open spec fn text(self) -> Seq<char> {
        match self {
            SpecError::UnknownField(s) => "infmonctl: unknown field: "@ + s,
            SpecError::InvalidMaxKeys(s) => "infmonctl: invalid max_keys: "@ + s,
            SpecError::UnknownPolicy(s) => "infmonctl: unknown eviction_policy: "@ + s
                + " (supported: lru_drop)"@,
            SpecError::UnknownKey(s) => "infmonctl: unknown spec key: "@ + s,
            SpecError::NotKeyValue(s) =>
                "infmonctl: invalid spec format, expected key=value: "@ + s,
            SpecError::MissingName => "infmonctl: flow-rule add: name=<name> is required"@,
            SpecError::MissingFields => "infmonctl: flow-rule add: fields=<field,...> is required"@,
        }
    }
}

impl SpecError<String> {
    /// The wording of the error.
    pub fn message(&self) -> (r: String)
        ensures
            r@ == self@.text(),
    {
        match self {
            SpecError::UnknownField(s) => text::cat("infmonctl: unknown field: ", s.as_str()),
            SpecError::InvalidMaxKeys(s) => text::cat("infmonctl: invalid max_keys: ", s.as_str()),
            SpecError::UnknownPolicy(s) => text::cat3(
                "infmonctl: unknown eviction_policy: ",
                s.as_str(),
                " (supported: lru_drop)",
            ),
            SpecError::UnknownKey(s) => text::cat("infmonctl: unknown spec key: ", s.as_str()),
            SpecError::NotKeyValue(s) => text::cat(
                "infmonctl: invalid spec format, expected key=value: ",
                s.as_str(),
            ),
            SpecError::MissingName => "infmonctl: flow-rule add: name=<name> is required".to_owned(),
            SpecError::MissingFields =>
                "infmonctl: flow-rule add: fields=<field,...> is required".to_owned(),
        }
    }
}

/// The field of a name.
pub open spec fn field_named(name: Seq<char>) -> Option<Field> {
    if name == "src_ip"@ {
        Some(Field::SrcIp)
    } else if name == "dst_ip"@ {
        Some(Field::DstIp)
    } else if name == "ip_proto"@ {
        Some(Field::IpProto)
    } else if name == "dscp"@ {
        Some(Field::Dscp)
    } else if name == "mirror_src_ip"@ {
        Some(Field::MirrorSrcIp)
    } else {
        None
    }
}

/// The fields of the first `n` names, white space around them left out.
pub open spec fn fields_named(names: Seq<Seq<char>>, n: nat) -> Result<Seq<Field>, SpecErrorView>
    decreases n,
{
    if n == 0 {
        Ok(Seq::empty())
    } else {
        match fields_named(names, (n - 1) as nat) {
            Err(e) => Err(e),
            Ok(before) => match field_named(text::trimmed(names[n - 1])) {
                Some(f) => Ok(before.push(f)),
                None => Err(SpecError::UnknownField(text::trimmed(names[n - 1]))),
            },
        }
    }
}

/// What was read so far.
#[verifier::ext_equal]
pub struct DraftView {
    pub name: Option<Seq<char>>,
    pub fields: Seq<Field>,
    pub max_keys: u32,
    pub eviction_policy: EvictionPolicy,
}

/// Nothing read: a rule tracks 1024 keys unless told otherwise.
pub open spec fn blank() -> DraftView {
    DraftView {
        name: None,
        fields: Seq::empty(),
        max_keys: 1024,
        eviction_policy: EvictionPolicy::LruDrop,
    }
}

/// What is read once one more `key=value` was taken. A later name, number or policy stands in
/// place of an earlier one; fields add up.
pub open spec fn with_item(d: DraftView, item: Seq<char>) -> Result<DraftView, SpecErrorView> {
    let k = text::find(item, '=') as int;
    if k >= item.len() {
        Err(SpecError::NotKeyValue(item))
    } else {
        let key = item.take(k);
        let value = item.skip(k + 1);
        if key == "name"@ {
            Ok(DraftView { name: Some(value), ..d })
        } else if key == "fields"@ {
            let names = text::split(value, ',');
            match fields_named(names, names.len()) {
                Ok(fs) => Ok(DraftView { fields: d.fields + fs, ..d }),
                Err(e) => Err(e),
            }
        } else if key == "max_keys"@ {
            match text::parse_uint(value, 10, u32::MAX as nat) {
                Ok(n) => Ok(DraftView { max_keys: n as u32, ..d }),
                Err(_) => Err(SpecError::InvalidMaxKeys(value)),
            }
        } else if key == "eviction_policy"@ {
            if value == "lru_drop"@ {
                Ok(DraftView { eviction_policy: EvictionPolicy::LruDrop, ..d })
            } else {
                Err(SpecError::UnknownPolicy(value))
            }
        } else {
            Err(SpecError::UnknownKey(key))
        }
    }
}

/// What is read once the first `n` items were taken.
pub open spec fn drafted(items: Seq<Seq<char>>, n: nat) -> Result<DraftView, SpecErrorView>
    decreases n,
{
    if n == 0 {
        Ok(blank())
    } else {
        match drafted(items, (n - 1) as nat) {
            Err(e) => Err(e),
            Ok(d) => with_item(d, items[n - 1]),
        }
    }
}

/// The flow rule that the items spell.
pub open spec fn rule_of(items: Seq<Seq<char>>) -> Result<FlowRuleView, SpecErrorView> {
    match drafted(items, items.len()) {
        Err(e) => Err(e),
        Ok(d) => match d.name {
            None => Err(SpecError::MissingName),
            Some(name) => if d.fields.len() == 0 {
                Err(SpecError::MissingFields)
            } else {
                Ok(
                    FlowRuleView {
                        name,
                        fields: d.fields,
                        max_keys: d.max_keys,
                        eviction_policy: d.eviction_policy,
                    },
                )
            },
        },
    }
}

struct Draft {
    name: Option<String>,
    fields: Vec<Field>,
    max_keys: u32,
    eviction_policy: EvictionPolicy,
}

impl Draft {
    spec fn model(self) -> DraftView {
        DraftView {
            name: text::opt(self.name),
            fields: self.fields@,
            max_keys: self.max_keys,
            eviction_policy: self.eviction_policy,
        }
    }
}

fn field_of(name: &str) -> (r: Option<Field>)
    ensures
        r == field_named(name@),
{
    if text::same(name, "src_ip") {
        Some(Field::SrcIp)
    } else if text::same(name, "dst_ip") {
        Some(Field::DstIp)
    } else if text::same(name, "ip_proto") {
        Some(Field::IpProto)
    } else if text::same(name, "dscp") {
        Some(Field::Dscp)
    } else if text::same(name, "mirror_src_ip") {
        Some(Field::MirrorSrcIp)
    } else {
        None
    }
}

proof fn fields_error_prefix(names: Seq<Seq<char>>, n: nat, m: nat)
    requires
        n <= m,
        fields_named(names, n) is Err,
    ensures
        fields_named(names, m) == fields_named(names, n),
    decreases m,
{
    if n < m {
        fields_error_prefix(names, n, (m - 1) as nat);
    }
}

/// Adds the fields of a comma separated list.
fn push_fields(fields: &mut Vec<Field>, list: &str) -> (r: Result<(), SpecError>)
    ensures
        ({
            let names = text::split(list@, ',');
            match fields_named(names, names.len()) {
                Ok(fs) => r is Ok && final(fields)@ == old(fields)@ + fs,
                Err(e) => r is Err && r->Err_0@ == e,
            }
        }),
{
    let ghost start = fields@;
    let names = text::split_on(list, ',');
    let ghost views = text::split(list@, ',');
    let mut i: usize = 0;
    assert(start + Seq::<Field>::empty() =~= start);
    while i < names.len()
        invariant
            i <= names.len(),
            views == text::split(list@, ','),
            views == names@.map_values(|x: String| x@),
            fields_named(views, i as nat) is Ok,
            fields@ == start + fields_named(views, i as nat)->Ok_0,
        decreases names.len() - i,
    {
        let name = text::trim(names[i].as_str());
        assert(views[i as int] == names@[i as int]@);
        match field_of(name) {
            Some(f) => {
                let ghost before = fields_named(views, i as nat)->Ok_0;
                fields.push(f);
                assert(start + before.push(f) =~= (start + before).push(f));
            },
            None => {
                proof {
                    fields_error_prefix(views, i as nat + 1, views.len());
                }
                return Err(SpecError::UnknownField(name.to_owned()));
            },
        }
        i = i + 1;
    }
    Ok(())
}

fn take_item(d: Draft, item: &str) -> (r: Result<Draft, SpecError>)
    ensures
        match with_item(d.model(), item@) {
            Ok(v) => r is Ok && r->Ok_0.model() == v,
            Err(e) => r is Err && r->Err_0@ == e,
        },
{
    let cs = text::chars_of(item);
    assert(cs@.skip(0) =~= cs@);
    let k: usize = text::find_char(&cs, 0, '=');
    if k == cs.len() {
        return Err(SpecError::NotKeyValue(item.to_owned()));
    }
    let key = item.substring_char(0, k);
    let value = item.substring_char(k + 1, cs.len());
    assert(key@ =~= item@.take(k as int));
    assert(value@ =~= item@.skip(k + 1));
    let mut next = d;
    if text::same(key, "name") {
        next.name = Some(value.to_owned());
        Ok(next)
    } else if text::same(key, "fields") {
        match push_fields(&mut next.fields, value) {
            Ok(_) => Ok(next),
            Err(e) => Err(e),
        }
    } else if text::same(key, "max_keys") {
        match text::parse_chars(&text::chars_of(value), 10, u32::MAX as u64) {
            Ok(n) => {
                proof {
                    text::parsed_within(value@, 10, u32::MAX as nat);
                }
                next.max_keys = n as u32;
                Ok(next)
            },
            Err(_) => Err(SpecError::InvalidMaxKeys(value.to_owned())),
        }
    } else if text::same(key, "eviction_policy") {
        if text::same(value, "lru_drop") {
            next.eviction_policy = EvictionPolicy::LruDrop;
            Ok(next)
        } else {
            Err(SpecError::UnknownPolicy(value.to_owned()))
        }
    } else {
        Err(SpecError::UnknownKey(key.to_owned()))
    }
}

proof fn draft_error_prefix(items: Seq<Seq<char>>, n: nat, m: nat)
    requires
        n <= m,
        drafted(items, n) is Err,
    ensures
        drafted(items, m) == drafted(items, n),
    decreases m,
{
    if n < m {
        draft_error_prefix(items, n, (m - 1) as nat);
    }
}

/// Reads a flow rule; the first item that is wrong decides the error.
pub fn parse_rule_spec(items: &Vec<String>) -> (r: Result<FlowRule, SpecError>)
    ensures
        match rule_of(items@.map_values(|x: String| x@)) {
            Ok(rule) => r is Ok && r->Ok_0@ == rule,
            Err(e) => r is Err && r->Err_0@ == e,
        },
{
    let ghost views = items@.map_values(|x: String| x@);
    let mut d = Draft {
        name: None,
        fields: Vec::new(),
        max_keys: 1024,
        eviction_policy: EvictionPolicy::LruDrop,
    };
    assert(d.model() =~= blank());
    let mut i: usize = 0;
    while i < items.len()
        invariant
            i <= items.len(),
            views == items@.map_values(|x: String| x@),
            drafted(views, i as nat) == Ok::<DraftView, SpecErrorView>(d.model()),
        decreases items.len() - i,
    {
        assert(views[i as int] == items@[i as int]@);
        match take_item(d, items[i].as_str()) {
            Ok(next) => {
                d = next;
            },
            Err(e) => {
                proof {
                    draft_error_prefix(views, i as nat + 1, views.len());
                }
                return Err(e);
            },
        }
        i = i + 1;
    }
    let name = match d.name {
        Some(n) => n,
        None => {
            return Err(SpecError::MissingName);
        },
    };
    if d.fields.len() == 0 {
        return Err(SpecError::MissingFields);
    }
    Ok(
        FlowRule {
            name,
            fields: d.fields,
            max_keys: d.max_keys,
            eviction_policy: d.eviction_policy,
        },
    )
}

// ---------------------------------------------------------------- laws

/// The word for a field on the command line; ports have none.
pub open spec fn word_of(f: Field) -> Option<Seq<char>> {
    match f {
        Field::SrcIp => Some("src_ip"@),
        Field::DstIp => Some("dst_ip"@),
        Field::IpProto => Some("ip_proto"@),
        Field::Dscp => Some("dscp"@),
        Field::MirrorSrcIp => Some("mirror_src_ip"@),
        Field::SrcPort | Field::DstPort => None,
    }
}

proof fn words_are_plain(f: Field)
    requires
        word_of(f) is Some,
    ensures
        field_named(word_of(f)->Some_0) == Some(f),
        text::trimmed(word_of(f)->Some_0) == word_of(f)->Some_0,
        !word_of(f)->Some_0.contains(','),
{
    reveal_strlit("src_ip");
    reveal_strlit("dst_ip");
    reveal_strlit("ip_proto");
    reveal_strlit("dscp");
    reveal_strlit("mirror_src_ip");
    let w = word_of(f)->Some_0;
    assert("src_ip"@[0] == 's');
    assert("dst_ip"@[1] == 's');
    assert("ip_proto"@[0] == 'i');
    assert("dscp"@.len() == 4);
    assert("mirror_src_ip"@[0] == 'm');
    text::trimming_leaves_the_rest(w);
}

proof fn split_at_equals(key: Seq<char>, value: Seq<char>)
    requires
        !key.contains('='),
    ensures
        ({
            let item = key + seq!['='] + value;
            &&& text::find(item, '=') == key.len()
            &&& item.take(key.len() as int) == key
            &&& item.skip(key.len() as int + 1) == value
        }),
{
    let item = key + seq!['='] + value;
    let k = key.len() as int;
    text::find_first(item, '=');
    assert forall|i: int| 0 <= i < k implies item[i] != '=' by {
        assert(item[i] == key[i]);
    }
    assert(item[k] == '=');
    assert(item.take(k) =~= key);
    assert(item.skip(k + 1) =~= value);
}

/// `name=` sets the name and nothing else.
pub proof fn name_sets_the_name(d: DraftView, value: Seq<char>)
    ensures
        ({
            &&& with_item(d, "name"@ + seq!['='] + value) matches Ok(n)
            &&& n.name == Some(value)
            &&& n.fields == d.fields
            &&& n.max_keys == d.max_keys
            &&& n.eviction_policy == d.eviction_policy
        }),
{
    reveal_strlit("name");
    split_at_equals("name"@, value);
}

/// `max_keys=` and a number sets the number of keys and nothing else.
pub proof fn max_keys_sets_the_keys(d: DraftView, n: u32)
    ensures
        ({
            &&& with_item(d, "max_keys"@ + seq!['='] + text::decimal(n as nat)) matches Ok(x)
            &&& x.max_keys == n
            &&& x.name == d.name
            &&& x.fields == d.fields
            &&& x.eviction_policy == d.eviction_policy
        }),
{
    reveal_strlit("max_keys");
    reveal_strlit("name");
    reveal_strlit("fields");
    assert("max_keys"@.len() == 8);
    split_at_equals("max_keys"@, text::decimal(n as nat));
    text::decimal_round_trip(n as nat, u32::MAX as nat);
}

/// `fields=` and the word of a field adds that field at the end and changes nothing else.
pub proof fn fields_adds_a_field(d: DraftView, f: Field)
    requires
        word_of(f) is Some,
    ensures
        ({
            &&& with_item(d, "fields"@ + seq!['='] + word_of(f)->Some_0) matches Ok(x)
            &&& x.fields == d.fields.push(f)
            &&& x.name == d.name
            &&& x.max_keys == d.max_keys
            &&& x.eviction_policy == d.eviction_policy
        }),
{
    let w = word_of(f)->Some_0;
    reveal_strlit("fields");
    reveal_strlit("name");
    assert("fields"@.len() == 6);
    split_at_equals("fields"@, w);
    words_are_plain(f);
    text::splitting_a_glued_text(w, w, ',');
    let names = text::split(w, ',');
    assert(names =~= seq![w]);
    reveal_with_fuel(fields_named, 2);
    assert(names[0] == w);
    let fs = fields_named(names, 1)->Ok_0;
    assert(fs =~= seq![f]);
    assert(d.fields + fs =~= d.fields.push(f));
}

/// A list of fields adds what its first field and the list of the others add one after the other.
pub proof fn fields_add_one_by_one(d: DraftView, f: Field, rest: Seq<char>)
    requires
        word_of(f) is Some,
    ensures
        ({
            let one = with_item(d, "fields"@ + seq!['='] + word_of(f)->Some_0);
            with_item(d, "fields"@ + seq!['='] + (word_of(f)->Some_0.push(',') + rest))
                == with_item(one->Ok_0, "fields"@ + seq!['='] + rest)
        }),
{
    let w = word_of(f)->Some_0;
    let value = w.push(',') + rest;
    reveal_strlit("fields");
    reveal_strlit("name");
    assert("fields"@.len() == 6);
    fields_adds_a_field(d, f);
    words_are_plain(f);
    split_at_equals("fields"@, value);
    split_at_equals("fields"@, rest);
    text::splitting_a_glued_text(w, rest, ',');
    let names = text::split(value, ',');
    let tail = text::split(rest, ',');
    assert(names == seq![w] + tail);
    fields_of_more(w, f, tail, tail.len());
    if let Ok(fs) = fields_named(tail, tail.len()) {
        assert(d.fields + (seq![f] + fs) =~= d.fields.push(f) + fs);
    }
}

proof fn fields_of_more(w: Seq<char>, f: Field, tail: Seq<Seq<char>>, n: nat)
    requires
        n <= tail.len(),
        field_named(w) == Some(f),
        text::trimmed(w) == w,
    ensures
        fields_named(seq![w] + tail, n + 1) == (match fields_named(tail, n) {
            Ok(fs) => Ok::<Seq<Field>, SpecErrorView>(seq![f] + fs),
            Err(e) => Err(e),
        }),
    decreases n,
{
    let names = seq![w] + tail;
    if n == 0 {
        reveal_with_fuel(fields_named, 2);
        assert(names[0] == w);
        assert(fields_named(names, 1)->Ok_0 =~= seq![f] + Seq::<Field>::empty());
    } else {
        fields_of_more(w, f, tail, (n - 1) as nat);
        assert(names[n as int] == tail[n - 1]);
        if let Ok(fs) = fields_named(tail, (n - 1) as nat) {
            if let Some(g) = field_named(text::trimmed(tail[n - 1])) {
                assert((seq![f] + fs).push(g) =~= seq![f] + fs.push(g));
            }
        }
    }
}

/// The items that spell a rule: its name, each of its fields, and its keys.
pub open spec fn items_of(rule: FlowRuleView) -> Seq<Seq<char>> {
    seq!["name"@ + seq!['='] + rule.name] + Seq::new(
        rule.fields.len(),
        |i: int| "fields"@ + seq!['='] + word_of(rule.fields[i])->Some_0,
    ) + seq!["max_keys"@ + seq!['='] + text::decimal(rule.max_keys as nat)]
}

proof fn drafted_fields(rule: FlowRuleView, n: nat)
    requires
        n <= rule.fields.len(),
        forall|i: int| 0 <= i < rule.fields.len() ==> word_of(#[trigger] rule.fields[i]) is Some,
    ensures
        ({
            &&& drafted(items_of(rule), n + 1) matches Ok(d)
            &&& d.name == Some(rule.name)
            &&& d.fields == rule.fields.take(n as int)
            &&& d.max_keys == 1024
            &&& d.eviction_policy is LruDrop
        }),
    decreases n,
{
    let items = items_of(rule);
    if n == 0 {
        reveal_with_fuel(drafted, 2);
        name_sets_the_name(blank(), rule.name);
        assert(items[0] == "name"@ + seq!['='] + rule.name);
        assert(rule.fields.take(0) =~= Seq::<Field>::empty());
    } else {
        drafted_fields(rule, (n - 1) as nat);
        let d = drafted(items, n)->Ok_0;
        let f = rule.fields[n - 1];
        assert(word_of(f) is Some);
        assert(items[n as int] == "fields"@ + seq!['='] + word_of(f)->Some_0);
        fields_adds_a_field(d, f);
        assert(rule.fields.take(n as int) =~= rule.fields.take(n - 1).push(f));
    }
}

/// A rule that is spelled out on the command line is read back as it is.
pub proof fn spelled_rules_are_read(rule: FlowRuleView)
    requires
        rule.fields.len() > 0,
        forall|i: int| 0 <= i < rule.fields.len() ==> word_of(#[trigger] rule.fields[i]) is Some,
    ensures
        ({
            &&& rule_of(items_of(rule)) matches Ok(r)
            &&& r.name == rule.name
            &&& r.fields == rule.fields
            &&& r.max_keys == rule.max_keys
            &&& r.eviction_policy is LruDrop
        }),
{
    let items = items_of(rule);
    let n = rule.fields.len();
    drafted_fields(rule, n);
    let d = drafted(items, n + 1)->Ok_0;
    assert(items.len() == n + 2);
    assert(items[n as int + 1] == "max_keys"@ + seq!['='] + text::decimal(rule.max_keys as nat));
    max_keys_sets_the_keys(d, rule.max_keys);
    assert(rule.fields.take(n as int) =~= rule.fields);
}

/// A rule whose keys are not spelled out tracks 1024 of them.
pub proof fn unspelled_keys_are_1024(rule: FlowRuleView)
    requires
        rule.fields.len() > 0,
        forall|i: int| 0 <= i < rule.fields.len() ==> word_of(#[trigger] rule.fields[i]) is Some,
    ensures
        ({
            &&& rule_of(items_of(rule).drop_last()) matches Ok(r)
            &&& r.name == rule.name
            &&& r.fields == rule.fields
            &&& r.max_keys == 1024
            &&& r.eviction_policy is LruDrop
        }),
{
    let items = items_of(rule);
    let n = rule.fields.len();
    drafted_fields(rule, n);
    drafted_prefix(items, items.drop_last(), n + 1);
    assert(rule.fields.take(n as int) =~= rule.fields);
}

proof fn drafted_prefix(a: Seq<Seq<char>>, b: Seq<Seq<char>>, n: nat)
    requires
        n <= a.len(),
        n <= b.len(),
        forall|i: int| 0 <= i < n ==> a[i] == b[i],
    ensures
        drafted(a, n) == drafted(b, n),
    decreases n,
{
    if n > 0 {
        drafted_prefix(a, b, (n - 1) as nat);
    }
}

/// An item without an equals sign, or with a key that is not one of the four, is refused and told of.
pub proof fn unknown_items_are_refused(d: DraftView, key: Seq<char>, value: Seq<char>)
    requires
        !key.contains('='),
        key != "name"@,
        key != "fields"@,
        key != "max_keys"@,
        key != "eviction_policy"@,
    ensures
        with_item(d, key) == Err::<DraftView, SpecErrorView>(SpecError::NotKeyValue(key)),
        with_item(d, key + seq!['='] + value) == Err::<DraftView, SpecErrorView>(
            SpecError::UnknownKey(key),
        ),
{
    split_at_equals(key, value);
    text::find_first(key, '=');
    if text::find(key, '=') < key.len() {
        assert(key[text::find(key, '=') as int] == '=');
    }
}

} // verus!
