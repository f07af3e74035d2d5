//! Attributes: how values are cut to length and how a flow is described.

use vstd::prelude::*;

use super::model::{self, AnyValue, KeyValue, KeyValueView};
use crate::ipc::types::{FieldId, FieldValue, FlowRuleStats, FlowStats};
use crate::net;
use crate::text;

verus! {

/// The longest attribute value, in bytes of UTF-8.
pub const ATTRIBUTE_LENGTH_CAP: usize = 256;

// ---------------------------------------------------------------- length in UTF-8

/// How many bytes a character takes in UTF-8.
pub open spec fn char_bytes(c: char) -> nat {
    let v = c as u32;
    if v < 0x80 {
        1
    } else if v < 0x800 {
        2
    } else if v < 0x10000 {
        3
    } else {
        4
    }
}

/// How many bytes a text takes in UTF-8.
pub open spec fn text_bytes(s: Seq<char>) -> nat
    decreases s.len(),
{
    if s.len() == 0 {
        0
    } else {
        text_bytes(s.drop_last()) + char_bytes(s.last())
    }
}

proof fn text_bytes_front(s: Seq<char>)
    requires
        s.len() > 0,
    ensures
        text_bytes(s) == char_bytes(s[0]) + text_bytes(s.drop_first()),
    decreases s.len(),
{
    if s.len() == 1 {
        assert(s.drop_last() =~= Seq::<char>::empty());
        assert(s.drop_first() =~= Seq::<char>::empty());
    } else {
        text_bytes_front(s.drop_last());
        assert(s.drop_last().drop_first() =~= s.drop_first().drop_last());
    }
}

/// The length of a text is that of its UTF-8 encoding.
pub proof fn text_bytes_is_utf8_length(s: Seq<char>)
    ensures
        vstd::utf8::encode_utf8(s).len() == text_bytes(s),
    decreases s.len(),
{
    if s.len() > 0 {
        text_bytes_front(s);
        text_bytes_is_utf8_length(s.drop_first());
        vstd::utf8::char_is_scalar(s[0]);
    }
}

proof fn text_bytes_monotone(s: Seq<char>, n: int)
    requires
        0 <= n <= s.len(),
    ensures
        text_bytes(s.take(n)) <= text_bytes(s),
    decreases s.len(),
{
    if n < s.len() {
        text_bytes_monotone(s.drop_last(), n);
        assert(s.drop_last().take(n) =~= s.take(n));
    } else {
        assert(s.take(n) =~= s);
    }
}

/// How many characters from the start of `s` take no more than `limit` bytes together.
pub open spec fn fitting(s: Seq<char>, limit: nat) -> nat
    decreases s.len(),
{
    if s.len() == 0 || text_bytes(s) <= limit {
        s.len()
    } else {
        fitting(s.drop_last(), limit)
    }
}

/// `fitting` gives the longest prefix that stays within the limit.
pub proof fn fitting_is_longest(s: Seq<char>, limit: nat)
    ensures
        fitting(s, limit) <= s.len(),
        text_bytes(s.take(fitting(s, limit) as int)) <= limit,
        fitting(s, limit) < s.len() ==> text_bytes(s.take(fitting(s, limit) as int + 1)) > limit,
    decreases s.len(),
{
    if s.len() == 0 || text_bytes(s) <= limit {
        assert(s.take(s.len() as int) =~= s);
    } else {
        fitting_is_longest(s.drop_last(), limit);
        let k = fitting(s, limit) as int;
        assert(s.drop_last().take(k) =~= s.take(k));
        if k < s.len() - 1 {
            assert(s.drop_last().take(k + 1) =~= s.take(k + 1));
        } else {
            assert(s.take(k + 1) =~= s);
        }
    }
}

proof fn fitting_is(s: Seq<char>, limit: nat, k: int)
    requires
        0 <= k <= s.len(),
        text_bytes(s.take(k)) <= limit,
        k < s.len() ==> text_bytes(s.take(k + 1)) > limit,
    ensures
        fitting(s, limit) == k,
{
    fitting_is_longest(s, limit);
    let f = fitting(s, limit) as int;
    if f < k {
        text_bytes_monotone(s.take(k), f + 1);
        assert(s.take(k).take(f + 1) =~= s.take(f + 1));
    } else if f > k {
        text_bytes_monotone(s.take(f), k + 1);
        assert(s.take(f).take(k + 1) =~= s.take(k + 1));
    }
}

/// `s` itself where it takes no more than `max` bytes; otherwise as many of its first characters
/// as leave room for an ellipsis, and the ellipsis.
pub open spec fn cut(s: Seq<char>, max: nat) -> Seq<char> {
    if text_bytes(s) <= max {
        s
    } else {
        let room = if max >= 3 {
            (max - 3) as nat
        } else {
            0
        };
        s.take(fitting(s, room) as int).push('\u{2026}')
    }
}

/// A text that was cut fits: whatever room there is for three bytes or more holds the result.
pub proof fn cut_fits(s: Seq<char>, max: nat)
    requires
        max >= 3,
    ensures
        text_bytes(cut(s, max)) <= max,
{
    if text_bytes(s) > max {
        fitting_is_longest(s, (max - 3) as nat);
        assert(cut(s, max).drop_last() =~= s.take(fitting(s, (max - 3) as nat) as int));
    }
}

/// Cutting a text that was cut changes nothing.
pub proof fn cut_idempotent(s: Seq<char>, max: nat)
    requires
        max >= 3,
    ensures
        cut(cut(s, max), max) == cut(s, max),
{
    cut_fits(s, max);
}

fn width_of(c: char) -> (r: usize)
    ensures
        r == char_bytes(c),
{
    let v: u32 = c as u32;
    if v < 0x80 {
        1
    } else if v < 0x800 {
        2
    } else if v < 0x10000 {
        3
    } else {
        4
    }
}

/// Cuts `s` to at most `max_bytes` bytes, and says whether it had to.
pub fn truncate_utf8(s: &str, max_bytes: usize) -> (r: (String, bool))
    ensures
        r.0@ == cut(s@, max_bytes as nat),
        r.1 == (text_bytes(s@) > max_bytes),
{
    proof {
        text_bytes_is_utf8_length(s@);
    }
    let length: usize = s.as_bytes().len();
    if length <= max_bytes {
        return (s.to_owned(), false);
    }
    let room: usize = if max_bytes >= 3 {
        max_bytes - 3
    } else {
        0
    };
    let cs = text::chars_of(s);
    let mut used: usize = 0;
    let mut end: usize = 0;
    assert(cs@.take(0) =~= Seq::<char>::empty());
    while end < cs.len() && width_of(cs[end]) <= room - used
        invariant
            end <= cs.len(),
            cs@ == s@,
            used <= room < length,
            text_bytes(s@) == length,
            used == text_bytes(cs@.take(end as int)),
        decreases cs.len() - end,
    {
        used = used + width_of(cs[end]);
        assert(cs@.take(end as int + 1).drop_last() =~= cs@.take(end as int));
        end = end + 1;
    }
    proof {
        if end < cs.len() {
            assert(cs@.take(end as int + 1).drop_last() =~= cs@.take(end as int));
        }
        fitting_is(s@, room as nat, end as int);
    }
    let mut r = text::string_of(&cs, 0, end);
    assert(cs@.subrange(0, end as int) =~= s@.take(end as int));
    r.push('\u{2026}');
    (r, true)
}

/// Cuts `s` to at most `max_bytes` bytes, and counts it in `counter` where it had to.
pub fn truncate_utf8_counted(s: &str, max_bytes: usize, counter: Option<&mut u64>) -> (r: String)
    ensures
        r@ == cut(s@, max_bytes as nat),
        counter matches Some(c) ==> *final(c) == (if text_bytes(s@) > max_bytes {
            (*c).wrapping_add(1)
        } else {
            *c
        }),
{
    let (r, was_cut) = truncate_utf8(s, max_bytes);
    if was_cut {
        if let Some(c) = counter {
            *c = c.wrapping_add(1);
        }
    }
    r
}

// ---------------------------------------------------------------- single attributes

/// A text attribute, its value cut to the longest length.
pub open spec fn text_attr(key: Seq<char>, value: Seq<char>) -> KeyValueView {
    KeyValue { key, value: AnyValue::StringValue(cut(value, ATTRIBUTE_LENGTH_CAP as nat)) }
}

/// A number attribute.
pub open spec fn int_attr(key: Seq<char>, value: int) -> KeyValueView {
    KeyValue { key, value: AnyValue::IntValue(value as i64) }
}

/// Whether a text attribute with this value is cut.
pub open spec fn is_cut(value: Seq<char>) -> bool {
    text_bytes(value) > ATTRIBUTE_LENGTH_CAP
}

/// A text attribute.
pub fn kv_string(key: &str, value: &str) -> (r: KeyValue)
    ensures
        r@ == text_attr(key@, value@),
{
    KeyValue {
        key: key.to_owned(),
        value: AnyValue::StringValue(truncate_utf8(value, ATTRIBUTE_LENGTH_CAP).0),
    }
}

/// A text attribute; counts in `counter` where there is one and the value was cut.
pub fn kv_string_counted(key: &str, value: &str, counter: Option<&mut u64>) -> (r: KeyValue)
    ensures
        r@ == text_attr(key@, value@),
        counter matches Some(c) ==> *final(c) == (if is_cut(value@) {
            (*c).wrapping_add(1)
        } else {
            *c
        }),
{
    KeyValue {
        key: key.to_owned(),
        value: AnyValue::StringValue(truncate_utf8_counted(value, ATTRIBUTE_LENGTH_CAP, counter)),
    }
}

/// A number attribute.
pub fn kv_int(key: &str, value: i64) -> (r: KeyValue)
    ensures
        r@ == int_attr(key@, value as int),
{
    KeyValue { key: key.to_owned(), value: AnyValue::IntValue(value) }
}

// ---------------------------------------------------------------- order by key

/// Dictionary order of two texts, character by character. UTF-8 keeps the order of characters,
/// so this is the order of the encodings too.
pub open spec fn le(a: Seq<char>, b: Seq<char>) -> bool
    decreases a.len(),
{
    if a.len() == 0 {
        true
    } else if b.len() == 0 {
        false
    } else if a[0] == b[0] {
        le(a.drop_first(), b.drop_first())
    } else {
        a[0] < b[0]
    }
}

proof fn le_reflexive(a: Seq<char>)
    ensures
        le(a, a),
    decreases a.len(),
{
    if a.len() > 0 {
        le_reflexive(a.drop_first());
    }
}

proof fn le_total(a: Seq<char>, b: Seq<char>)
    ensures
        le(a, b) || le(b, a),
    decreases a.len(),
{
    if a.len() > 0 && b.len() > 0 {
        le_total(a.drop_first(), b.drop_first());
    }
}

proof fn le_transitive(a: Seq<char>, b: Seq<char>, c: Seq<char>)
    requires
        le(a, b),
        le(b, c),
    ensures
        le(a, c),
    decreases a.len(),
{
    if a.len() > 0 && b.len() > 0 && c.len() > 0 && a[0] == b[0] && b[0] == c[0] {
        le_transitive(a.drop_first(), b.drop_first(), c.drop_first());
    }
}

/// Whether `a` stands before `b` in the dictionary, or is `b`.
fn text_le(a: &str, b: &str) -> (r: bool)
    ensures
        r == le(a@, b@),
{
    let x = text::chars_of(a);
    let y = text::chars_of(b);
    let mut i: usize = 0;
    assert(x@.skip(0) =~= x@);
    assert(y@.skip(0) =~= y@);
    while i < x.len() && i < y.len() && x[i] == y[i]
        invariant
            i <= x.len(),
            i <= y.len(),
            le(x@, y@) == le(x@.skip(i as int), y@.skip(i as int)),
        decreases x.len() - i,
    {
        assert(x@.skip(i as int).drop_first() =~= x@.skip(i as int + 1));
        assert(y@.skip(i as int).drop_first() =~= y@.skip(i as int + 1));
        i = i + 1;
    }
    if i == x.len() {
        true
    } else if i == y.len() {
        false
    } else {
        x[i] < y[i]
    }
}

/// `s` with `x` put behind the last attribute whose key does not come after that of `x`.
pub open spec fn insert_by_key(s: Seq<KeyValueView>, x: KeyValueView) -> Seq<KeyValueView>
    decreases s.len(),
{
    if s.len() == 0 {
        seq![x]
    } else if le(s.last().key, x.key) {
        s.push(x)
    } else {
        insert_by_key(s.drop_last(), x).push(s.last())
    }
}

/// The attributes in the order of their keys; those with the same key keep their order.
pub open spec fn by_key(s: Seq<KeyValueView>) -> Seq<KeyValueView>
    decreases s.len(),
{
    if s.len() == 0 {
        Seq::empty()
    } else {
        insert_by_key(by_key(s.drop_last()), s.last())
    }
}

/// The attributes with one key, in order.
pub open spec fn with_key(s: Seq<KeyValueView>, key: Seq<char>) -> Seq<KeyValueView>
    decreases s.len(),
{
    if s.len() == 0 {
        Seq::empty()
    } else if s.last().key == key {
        with_key(s.drop_last(), key).push(s.last())
    } else {
        with_key(s.drop_last(), key)
    }
}

/// The keys stand in dictionary order.
pub open spec fn keys_sorted(s: Seq<KeyValueView>) -> bool {
    forall|i: int, j: int| 0 <= i <= j < s.len() ==> le(#[trigger] s[i].key, #[trigger] s[j].key)
}

proof fn insert_keeps_sorted(s: Seq<KeyValueView>, x: KeyValueView)
    requires
        keys_sorted(s),
    ensures
        keys_sorted(insert_by_key(s, x)),
        insert_by_key(s, x).len() == s.len() + 1,
        forall|i: int|
            0 <= i < insert_by_key(s, x).len() ==> (#[trigger] insert_by_key(s, x)[i]) == x
                || s.contains(insert_by_key(s, x)[i]),
    decreases s.len(),
{
    le_reflexive(x.key);
    if s.len() > 0 {
        let n = s.len() as int;
        let last = s.last();
        if le(last.key, x.key) {
            let r = s.push(x);
            assert forall|i: int, j: int| 0 <= i <= j < r.len() implies le(
                #[trigger] r[i].key,
                #[trigger] r[j].key,
            ) by {
                if j == n && i < n {
                    le_transitive(s[i].key, s[n - 1].key, x.key);
                }
            }
            assert forall|i: int| 0 <= i < r.len() implies (#[trigger] r[i]) == x || s.contains(
                r[i],
            ) by {
                if i < n {
                    assert(r[i] == s[i]);
                }
            }
        } else {
            let front = s.drop_last();
            insert_keeps_sorted(front, x);
            let f = insert_by_key(front, x);
            let r = f.push(last);
            le_total(last.key, x.key);
            le_reflexive(last.key);
            assert forall|i: int, j: int| 0 <= i <= j < r.len() implies le(
                #[trigger] r[i].key,
                #[trigger] r[j].key,
            ) by {
                if j == n && i < n {
                    if f[i] != x {
                        let k = choose|k: int| 0 <= k < front.len() && front[k] == f[i];
                        assert(s[k] == f[i]);
                        assert(le(s[k].key, s[n - 1].key));
                    }
                }
            }
            assert forall|i: int| 0 <= i < r.len() implies (#[trigger] r[i]) == x || s.contains(
                r[i],
            ) by {
                if i < n {
                    if f[i] != x {
                        let k = choose|k: int| 0 <= k < front.len() && front[k] == f[i];
                        assert(s[k] == f[i]);
                    }
                } else {
                    assert(s[n - 1] == r[i]);
                }
            }
        }
    }
}

proof fn insert_with_key(s: Seq<KeyValueView>, x: KeyValueView, key: Seq<char>)
    ensures
        with_key(insert_by_key(s, x), key) == (if x.key == key {
            with_key(s, key).push(x)
        } else {
            with_key(s, key)
        }),
    decreases s.len(),
{
    reveal_with_fuel(with_key, 2);
    if s.len() == 0 {
        assert(seq![x].drop_last() =~= Seq::<KeyValueView>::empty());
    } else if le(s.last().key, x.key) {
        assert(s.push(x).drop_last() =~= s);
    } else {
        le_reflexive(x.key);
        insert_with_key(s.drop_last(), x, key);
        let r = insert_by_key(s.drop_last(), x).push(s.last());
        assert(r.drop_last() =~= insert_by_key(s.drop_last(), x));
    }
}

/// Putting attributes in the order of their keys sorts the keys and, for every key, keeps the
/// attributes with that key and their order.
pub proof fn by_key_sorts(s: Seq<KeyValueView>)
    ensures
        keys_sorted(by_key(s)),
        by_key(s).len() == s.len(),
        forall|key: Seq<char>| #[trigger] with_key(by_key(s), key) == with_key(s, key),
    decreases s.len(),
{
    if s.len() > 0 {
        by_key_sorts(s.drop_last());
        insert_keeps_sorted(by_key(s.drop_last()), s.last());
        assert forall|key: Seq<char>| #[trigger] with_key(by_key(s), key) == with_key(s, key) by {
            insert_with_key(by_key(s.drop_last()), s.last(), key);
            assert(with_key(by_key(s.drop_last()), key) == with_key(s.drop_last(), key));
        }
    }
}

proof fn insert_by_key_at(s: Seq<KeyValueView>, x: KeyValueView, p: int)
    requires
        0 <= p <= s.len(),
        p > 0 ==> le(s[p - 1].key, x.key),
        forall|i: int| p <= i < s.len() ==> !le(#[trigger] s[i].key, x.key),
    ensures
        insert_by_key(s, x) == s.insert(p, x),
    decreases s.len(),
{
    if s.len() == 0 {
        assert(s.insert(p, x) =~= seq![x]);
    } else if p == s.len() {
        assert(s.insert(p, x) =~= s.push(x));
    } else {
        let front = s.drop_last();
        assert(!le(s[s.len() - 1].key, x.key));
        assert forall|i: int| p <= i < front.len() implies !le(#[trigger] front[i].key, x.key) by {
            assert(front[i] == s[i]);
        }
        insert_by_key_at(front, x, p);
        assert(s.insert(p, x) =~= front.insert(p, x).push(s.last()));
    }
}

/// Puts `x` in its place among attributes that stand in the order of their keys.
fn insert_attr(v: &mut Vec<KeyValue>, x: KeyValue)
    ensures
        model::attr_views(final(v)@) == insert_by_key(model::attr_views(old(v)@), x@),
{
    let ghost s = model::attr_views(v@);
    let mut p: usize = v.len();
    while p > 0 && !text_le(v[p - 1].key.as_str(), x.key.as_str())
        invariant
            p <= v.len(),
            s == model::attr_views(v@),
            forall|i: int| p <= i < s.len() ==> !le(#[trigger] s[i].key, x@.key),
        decreases p,
    {
        assert(s[p - 1].key == v@[p - 1].key@);
        p = p - 1;
    }
    assert(p > 0 ==> s[p - 1].key == v@[p - 1].key@);
    proof {
        insert_by_key_at(s, x@, p as int);
    }
    let ghost before = v@;
    v.insert(p, x);
    assert(model::attr_views(v@) =~= s.insert(p as int, x@));
}

// ---------------------------------------------------------------- the attributes of a flow

/// The attribute that a field and a value of that field make; a value of another field makes
/// none.
pub open spec fn field_attr(field: FieldId, value: FieldValue) -> Option<KeyValueView> {
    match (field, value) {
        (FieldId::SrcIp, FieldValue::Ip(a)) => Some(text_attr("flow.src_ip"@, a.rendered())),
        (FieldId::DstIp, FieldValue::Ip(a)) => Some(text_attr("flow.dst_ip"@, a.rendered())),
        (FieldId::MirrorSrcIp, FieldValue::Ip(a)) => Some(
            text_attr("flow.mirror_src_ip"@, a.rendered()),
        ),
        (FieldId::IpProto, FieldValue::Proto(p)) => Some(int_attr("flow.ip_proto"@, p as int)),
        (FieldId::Dscp, FieldValue::Dscp(d)) => Some(int_attr("flow.dscp"@, d as int)),
        _ => None,
    }
}

/// Whether the attribute of a field and a value is cut.
pub open spec fn field_cut(field: FieldId, value: FieldValue) -> bool {
    match (field, value) {
        (FieldId::SrcIp | FieldId::DstIp | FieldId::MirrorSrcIp, FieldValue::Ip(a)) => is_cut(
            a.rendered(),
        ),
        _ => false,
    }
}

/// The attributes of the first `n` fields; a field without a value makes none.
pub open spec fn field_attrs(
    fields: Seq<FieldId>,
    key: Seq<FieldValue>,
    n: nat,
) -> Seq<KeyValueView>
    decreases n,
{
    if n == 0 {
        Seq::empty()
    } else {
        let before = field_attrs(fields, key, (n - 1) as nat);
        let i = n - 1;
        if i < key.len() {
            match field_attr(fields[i], key[i]) {
                Some(a) => before.push(a),
                None => before,
            }
        } else {
            before
        }
    }
}

/// How many attributes of the first `n` fields are cut.
pub open spec fn field_cuts(fields: Seq<FieldId>, key: Seq<FieldValue>, n: nat) -> nat
    decreases n,
{
    if n == 0 {
        0
    } else {
        let i = n - 1;
        field_cuts(fields, key, (n - 1) as nat) + if i < key.len() && field_cut(
            fields[i],
            key[i],
        ) {
            1nat
        } else {
            0nat
        }
    }
}

/// The attributes of a flow, in the order of their keys: the rule's name, and one for each field
/// with a value.
pub open spec fn flow_attributes(
    rule: Seq<char>,
    fields: Seq<FieldId>,
    key: Seq<FieldValue>,
) -> Seq<KeyValueView> {
    by_key(seq![text_attr("flow-rule"@, rule)] + field_attrs(fields, key, fields.len()))
}

/// How many attributes of a flow are cut.
pub open spec fn flow_cuts(rule: Seq<char>, fields: Seq<FieldId>, key: Seq<FieldValue>) -> nat {
    field_cuts(fields, key, fields.len()) + if is_cut(rule) {
        1nat
    } else {
        0nat
    }
}

/// A counter after `n` more, going round at its end.
pub open spec fn counted(counter: u64, n: nat) -> u64 {
    ((counter + n) % 0x1_0000_0000_0000_0000) as u64
}

fn counted_flow_attributes(
    fr: &FlowRuleStats,
    flow: &FlowStats,
    fields: &Vec<FieldId>,
    counter: &mut u64,
) -> (r: Vec<KeyValue>)
    ensures
        model::attr_views(r@) == flow_attributes(fr.name@, fields@, flow.key@),
        *final(counter) == counted(*old(counter), flow_cuts(fr.name@, fields@, flow.key@)),
{
    let ghost start = *counter;
    let ghost head = seq![text_attr("flow-rule"@, fr.name@)];
    let first = kv_string_counted("flow-rule", fr.name.as_str(), Some(&mut *counter));
    let ghost head_cuts = if is_cut(fr.name@) {
        1nat
    } else {
        0nat
    };
    let mut r: Vec<KeyValue> = Vec::new();
    r.push(first);
    proof {
        reveal_with_fuel(by_key, 2);
        assert(head.drop_last() =~= Seq::<KeyValueView>::empty());
        assert(head + field_attrs(fields@, flow.key@, 0) =~= head);
        assert(model::attr_views(r@) =~= head);
    }
    let mut i: usize = 0;
    while i < fields.len()
        invariant
            i <= fields.len(),
            head == seq![text_attr("flow-rule"@, fr.name@)],
            model::attr_views(r@) == by_key(head + field_attrs(fields@, flow.key@, i as nat)),
            *counter == counted(start, head_cuts + field_cuts(fields@, flow.key@, i as nat)),
        decreases fields.len() - i,
    {
        let ghost before = head + field_attrs(fields@, flow.key@, i as nat);
        let ghost after = head + field_attrs(fields@, flow.key@, i as nat + 1);
        if i < flow.key.len() {
            let made: Option<KeyValue> = match (fields[i], flow.key[i]) {
                (FieldId::SrcIp, FieldValue::Ip(a)) => Some(
                    kv_string_counted(
                        "flow.src_ip",
                        net::render_ip(&a).as_str(),
                        Some(&mut *counter),
                    ),
                ),
                (FieldId::DstIp, FieldValue::Ip(a)) => Some(
                    kv_string_counted(
                        "flow.dst_ip",
                        net::render_ip(&a).as_str(),
                        Some(&mut *counter),
                    ),
                ),
                (FieldId::MirrorSrcIp, FieldValue::Ip(a)) => Some(
                    kv_string_counted(
                        "flow.mirror_src_ip",
                        net::render_ip(&a).as_str(),
                        Some(&mut *counter),
                    ),
                ),
                (FieldId::IpProto, FieldValue::Proto(p)) => Some(
                    kv_int("flow.ip_proto", p as i64),
                ),
                (FieldId::Dscp, FieldValue::Dscp(d)) => Some(kv_int("flow.dscp", d as i64)),
                _ => None,
            };
            if let Some(a) = made {
                assert(after.drop_last() =~= before);
                assert(after.last() == a@);
                insert_attr(&mut r, a);
            } else {
                assert(after =~= before);
            }
        } else {
            assert(after =~= before);
        }
        i = i + 1;
    }
    r
}

/// The attributes of a flow, in the order of their keys; counts in `counter`, where there is one,
/// those that were cut.
pub fn build_flow_attributes(
    fr: &FlowRuleStats,
    flow: &FlowStats,
    fields: &Vec<FieldId>,
    counter: Option<&mut u64>,
) -> (r: Vec<KeyValue>)
    ensures
        model::attr_views(r@) == flow_attributes(fr.name@, fields@, flow.key@),
        counter matches Some(c) ==> *final(c) == counted(
            *c,
            flow_cuts(fr.name@, fields@, flow.key@),
        ),
{
    match counter {
        Some(c) => counted_flow_attributes(fr, flow, fields, c),
        None => {
            let mut unused: u64 = 0;
            counted_flow_attributes(fr, flow, fields, &mut unused)
        },
    }
}

/// The attributes of a flow stand in the order of their keys, and none is lost by ordering them.
pub proof fn flow_attributes_sorted(rule: Seq<char>, fields: Seq<FieldId>, key: Seq<FieldValue>)
    ensures
        keys_sorted(flow_attributes(rule, fields, key)),
        flow_attributes(rule, fields, key).len() == 1 + field_attrs(
            fields,
            key,
            fields.len(),
        ).len(),
{
    by_key_sorts(seq![text_attr("flow-rule"@, rule)] + field_attrs(fields, key, fields.len()));
}

// ---------------------------------------------------------------- what attributes say

/// A text that is too long keeps its beginning, as much of it as fits before an ellipsis, which
/// takes three bytes; one more character would not fit.
pub proof fn cut_keeps_the_beginning(s: Seq<char>, max: nat)
    requires
        max >= 3,
    ensures
        text_bytes(s) <= max ==> cut(s, max) == s,
        text_bytes(s) > max ==> ({
            let k = cut(s, max).len() - 1;
            &&& 0 <= k < s.len()
            &&& cut(s, max)[k] == '\u{2026}'
            &&& cut(s, max).take(k) == s.take(k)
            &&& text_bytes(s.take(k)) + 3 <= max
            &&& text_bytes(s.take(k + 1)) + 3 > max
        }),
{
    if text_bytes(s) > max {
        let room = (max - 3) as nat;
        fitting_is_longest(s, room);
        let k = fitting(s, room) as int;
        if k == s.len() {
            assert(s.take(k) =~= s);
        }
        assert(cut(s, max).take(k) =~= s.take(k));
    }
}

proof fn insert_contains(s: Seq<KeyValueView>, x: KeyValueView, y: KeyValueView)
    ensures
        insert_by_key(s, x).contains(y) <==> s.contains(y) || y == x,
    decreases s.len(),
{
    let r = insert_by_key(s, x);
    if s.len() == 0 {
        assert(r[0] == x);
    } else if le(s.last().key, x.key) {
        assert(r[s.len() as int] == x);
        if s.contains(y) {
            let i = choose|i: int| 0 <= i < s.len() && s[i] == y;
            assert(r[i] == y);
        }
        if r.contains(y) && y != x {
            let i = choose|i: int| 0 <= i < r.len() && r[i] == y;
            assert(s[i] == y);
        }
    } else {
        let front = s.drop_last();
        insert_contains(front, x, y);
        let f = insert_by_key(front, x);
        if s.contains(y) {
            let i = choose|i: int| 0 <= i < s.len() && s[i] == y;
            if i == s.len() - 1 {
                assert(r[r.len() - 1] == y);
            } else {
                assert(front[i] == y);
            }
        }
        if s.contains(y) || y == x {
            if f.contains(y) {
                let i = choose|i: int| 0 <= i < f.len() && f[i] == y;
                assert(r[i] == y);
            }
        }
        if r.contains(y) {
            let i = choose|i: int| 0 <= i < r.len() && r[i] == y;
            if i == r.len() - 1 {
                assert(s[s.len() - 1] == y);
            } else {
                assert(f[i] == y);
                if front.contains(y) {
                    let j = choose|j: int| 0 <= j < front.len() && front[j] == y;
                    assert(s[j] == y);
                }
            }
        }
    }
}

proof fn by_key_contains(s: Seq<KeyValueView>, y: KeyValueView)
    ensures
        by_key(s).contains(y) <==> s.contains(y),
    decreases s.len(),
{
    if s.len() > 0 {
        let front = s.drop_last();
        by_key_contains(front, y);
        insert_contains(by_key(front), s.last(), y);
        if s.contains(y) {
            let i = choose|i: int| 0 <= i < s.len() && s[i] == y;
            if i < front.len() {
                assert(front[i] == y);
            }
        }
        if front.contains(y) {
            let i = choose|i: int| 0 <= i < front.len() && front[i] == y;
            assert(s[i] == y);
        }
        assert(s[s.len() - 1] == s.last());
    }
}

/// Whether an attribute tells a value under a key, a text being cut where it is too long.
pub open spec fn tells_text(a: KeyValueView, key: Seq<char>, value: Seq<char>) -> bool {
    a.key == key && a.value == AnyValue::StringValue(cut(value, 256))
}

/// Whether an attribute tells a number under a key.
pub open spec fn tells_number(a: KeyValueView, key: Seq<char>, value: int) -> bool {
    a.key == key && a.value == AnyValue::<Seq<char>>::IntValue(value as i64)
}

/// Whether an attribute is the one that a field and its value make.
pub open spec fn tells_field(a: KeyValueView, field: FieldId, value: FieldValue) -> bool {
    match (field, value) {
        (FieldId::SrcIp, FieldValue::Ip(x)) => tells_text(a, "flow.src_ip"@, x.rendered()),
        (FieldId::DstIp, FieldValue::Ip(x)) => tells_text(a, "flow.dst_ip"@, x.rendered()),
        (FieldId::MirrorSrcIp, FieldValue::Ip(x)) => tells_text(
            a,
            "flow.mirror_src_ip"@,
            x.rendered(),
        ),
        (FieldId::IpProto, FieldValue::Proto(p)) => tells_number(a, "flow.ip_proto"@, p as int),
        (FieldId::Dscp, FieldValue::Dscp(d)) => tells_number(a, "flow.dscp"@, d as int),
        _ => false,
    }
}

/// Whether a field and its value make an attribute.
pub open spec fn is_told(field: FieldId, value: FieldValue) -> bool {
    match field {
        FieldId::SrcIp | FieldId::DstIp | FieldId::MirrorSrcIp => value is Ip,
        FieldId::IpProto => value is Proto,
        FieldId::Dscp => value is Dscp,
        FieldId::SrcPort | FieldId::DstPort => false,
    }
}

proof fn field_attrs_are(fields: Seq<FieldId>, key: Seq<FieldValue>, n: nat, a: KeyValueView)
    requires
        n <= fields.len(),
    ensures
        field_attrs(fields, key, n).contains(a) <==> exists|i: int|
            0 <= i < n && i < key.len() && tells_field(a, fields[i], #[trigger] key[i]),
    decreases n,
{
    if n > 0 {
        let before = field_attrs(fields, key, (n - 1) as nat);
        let now = field_attrs(fields, key, n);
        field_attrs_are(fields, key, (n - 1) as nat, a);
        let last = n - 1;
        if now.contains(a) {
            let j = choose|j: int| 0 <= j < now.len() && now[j] == a;
            if j < before.len() {
                assert(before[j] == a);
                let i = choose|i: int|
                    0 <= i < n - 1 && i < key.len() && tells_field(a, fields[i], #[trigger] key[i]);
                assert(tells_field(a, fields[i], key[i]));
            } else {
                assert(tells_field(a, fields[last], key[last]));
            }
        }
        if exists|i: int|
            0 <= i < n && i < key.len() && tells_field(a, fields[i], #[trigger] key[i]) {
            let i = choose|i: int|
                0 <= i < n && i < key.len() && tells_field(a, fields[i], #[trigger] key[i]);
            if i < last {
                assert(before.contains(a));
                let j = choose|j: int| 0 <= j < before.len() && before[j] == a;
                assert(now[j] == a);
            } else {
                assert(now[now.len() - 1] == a);
            }
        }
    }
}

/// A flow is described by the name of its rule and by the values of its addresses, its protocol and
/// its class, each under the key of the field that it is the value of, and by nothing else.
pub proof fn flows_are_described(
    rule: Seq<char>,
    fields: Seq<FieldId>,
    key: Seq<FieldValue>,
    a: KeyValueView,
)
    ensures
        flow_attributes(rule, fields, key).contains(a) <==> tells_text(a, "flow-rule"@, rule)
            || exists|i: int|
            0 <= i < fields.len() && i < key.len() && tells_field(a, fields[i], #[trigger] key[i]),
        forall|i: int|
            0 <= i < fields.len() && i < key.len() && is_told(fields[i], #[trigger] key[i])
                ==> exists|b: KeyValueView|
                flow_attributes(rule, fields, key).contains(b) && tells_field(
                    b,
                    fields[i],
                    key[i],
                ),
{
    let head = text_attr("flow-rule"@, rule);
    let rest = field_attrs(fields, key, fields.len());
    let all = seq![head] + rest;
    assert forall|y: KeyValueView| #[trigger]
        flow_attributes(rule, fields, key).contains(y) <==> tells_text(y, "flow-rule"@, rule)
            || exists|i: int|
            0 <= i < fields.len() && i < key.len() && tells_field(
                y,
                fields[i],
                #[trigger] key[i],
            ) by {
        by_key_contains(all, y);
        field_attrs_are(fields, key, fields.len(), y);
        if all.contains(y) {
            let j = choose|j: int| 0 <= j < all.len() && all[j] == y;
            if j > 0 {
                assert(rest[j - 1] == y);
            }
        }
        if rest.contains(y) {
            let j = choose|j: int| 0 <= j < rest.len() && rest[j] == y;
            assert(all[j + 1] == y);
        }
        if tells_text(y, "flow-rule"@, rule) {
            assert(all[0] == y);
        }
    }
    assert forall|i: int|
        0 <= i < fields.len() && i < key.len() && is_told(
            fields[i],
            #[trigger] key[i],
        ) implies exists|b: KeyValueView|
        flow_attributes(rule, fields, key).contains(b) && tells_field(b, fields[i], key[i]) by {
        let b = field_attr(fields[i], key[i])->Some_0;
        assert(tells_field(b, fields[i], key[i]));
        assert(flow_attributes(rule, fields, key).contains(b));
    }
}

/// The order of keys is that of a dictionary: where two keys part, the smaller character comes first,
/// and a key comes before any that goes on where it ends.
pub proof fn keys_are_ordered_as_in_a_dictionary(a: Seq<char>, b: Seq<char>, k: int)
    requires
        0 <= k <= a.len(),
        k <= b.len(),
        a.take(k) == b.take(k),
    ensures
        k == a.len() ==> le(a, b),
        k < a.len() && k == b.len() ==> !le(a, b),
        k < a.len() && k < b.len() && a[k] < b[k] ==> le(a, b),
        k < a.len() && k < b.len() && a[k] > b[k] ==> !le(a, b),
    decreases k,
{
    if k > 0 {
        assert(a.take(k)[0] == a[0]);
        assert(b.take(k)[0] == b[0]);
        let x = a.drop_first();
        let y = b.drop_first();
        let xs = x.take(k - 1);
        let ys = y.take(k - 1);
        assert forall|i: int| 0 <= i < xs.len() implies #[trigger] xs[i] == ys[i] by {
            assert(xs[i] == a[i + 1] && ys[i] == b[i + 1]);
            assert(a.take(k)[i + 1] == a[i + 1]);
            assert(b.take(k)[i + 1] == b[i + 1]);
        }
        assert(xs =~= ys);
        keys_are_ordered_as_in_a_dictionary(x, y, k - 1);
    }
}

} // verus!
