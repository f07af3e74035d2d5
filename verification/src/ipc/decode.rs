//! Decoding flow keys.

use vstd::prelude::*;

use super::error::IpcError;
use super::types::{FieldId, FieldValue};
use crate::net::{self, IpAddr};
use crate::text;

verus! {

/// The number that bytes spell, most significant first.
pub open spec fn be_value(s: Seq<u8>) -> nat
    decreases s.len(),
{
    if s.len() == 0 {
        0
    } else {
        256 * be_value(s.drop_last()) + s.last() as nat
    }
}

/// The address that sixteen bytes spell; an IPv4 address in IPv6 form counts as IPv4.
pub open spec fn ip_of(s: Seq<u8>) -> IpAddr {
    let v = be_value(s);
    if net::is_mapped(v) {
        IpAddr::V4((v % 0x1_0000_0000) as u32)
    } else {
        IpAddr::V6(v as u128)
    }
}

/// The value that the bytes of a field spell.
pub open spec fn value_of(field: FieldId, s: Seq<u8>) -> FieldValue {
    match field {
        FieldId::SrcIp | FieldId::DstIp | FieldId::MirrorSrcIp => FieldValue::Ip(ip_of(s)),
        FieldId::IpProto => FieldValue::Proto(s[0]),
        FieldId::Dscp => FieldValue::Dscp(s[0]),
        FieldId::SrcPort | FieldId::DstPort => FieldValue::Port(be_value(s) as u16),
    }
}

/// Where field `i` starts in a key.
pub open spec fn offset(fields: Seq<FieldId>, i: nat) -> nat
    decreases i,
{
    if i == 0 {
        0
    } else {
        offset(fields, (i - 1) as nat) + fields[i - 1].bytes()
    }
}

/// The first field from `i` on that a key of `len` bytes has no room for, or the number of fields
/// where it has room for all.
pub open spec fn first_short(fields: Seq<FieldId>, len: nat, i: nat) -> nat
    decreases fields.len() - i,
{
    if i >= fields.len() || offset(fields, i + 1) > len {
        i
    } else {
        first_short(fields, len, i + 1)
    }
}

/// The name of the variant.
pub open spec fn field_label(f: FieldId) -> Seq<char> {
    match f {
        FieldId::SrcIp => "SrcIp"@,
        FieldId::DstIp => "DstIp"@,
        FieldId::IpProto => "IpProto"@,
        FieldId::Dscp => "Dscp"@,
        FieldId::MirrorSrcIp => "MirrorSrcIp"@,
        FieldId::SrcPort => "SrcPort"@,
        FieldId::DstPort => "DstPort"@,
    }
}

/// What is said where a key ends before a field does.
pub open spec fn short_text(field: FieldId, at: nat, have: nat) -> Seq<char> {
    let base = "key too short for "@ + field_label(field) + " at offset "@ + text::decimal(at);
    match field {
        FieldId::IpProto | FieldId::Dscp => base,
        FieldId::SrcPort | FieldId::DstPort => base + ": need 2 bytes, have "@ + text::decimal(
            have,
        ),
        _ => base + ": need 16 bytes, have "@ + text::decimal(have),
    }
}

/// What is said where a key goes on after its last field.
pub open spec fn trailing_text(extra: nat) -> Seq<char> {
    "key has "@ + text::decimal(extra) + " trailing bytes"@
}

/// The values of the fields of a key, or what is wrong with it.
pub open spec fn decoded(fields: Seq<FieldId>, key: Seq<u8>) -> Result<
    Seq<FieldValue>,
    Seq<char>,
> {
    let n = fields.len();
    let k = first_short(fields, key.len(), 0);
    if k < n {
        Err(
            short_text(
                fields[k as int],
                offset(fields, k),
                (key.len() - offset(fields, k)) as nat,
            ),
        )
    } else if offset(fields, n) != key.len() {
        Err(trailing_text((key.len() - offset(fields, n)) as nat))
    } else {
        Ok(
            Seq::new(
                n,
                |i: int|
                    value_of(
                        fields[i],
                        key.subrange(
                            offset(fields, i as nat) as int,
                            offset(fields, i as nat + 1) as int,
                        ),
                    ),
            ),
        )
    }
}

proof fn offset_monotone(fields: Seq<FieldId>, i: nat, j: nat)
    requires
        i <= j <= fields.len(),
    ensures
        offset(fields, i) <= offset(fields, j),
    decreases j,
{
    if i < j {
        offset_monotone(fields, i, (j - 1) as nat);
    }
}

proof fn first_short_all_fit(fields: Seq<FieldId>, len: nat, i: nat)
    requires
        i <= fields.len(),
    ensures
        i <= first_short(fields, len, i) <= fields.len(),
        first_short(fields, len, i) < fields.len() ==> offset(
            fields,
            first_short(fields, len, i) + 1,
        ) > len,
        first_short(fields, len, i) == fields.len() && i < fields.len() ==> offset(
            fields,
            fields.len(),
        ) <= len,
    decreases fields.len() - i,
{
    if i < fields.len() && offset(fields, i + 1) <= len {
        first_short_all_fit(fields, len, i + 1);
    }
}

/// A key is decoded exactly where it is as long as its fields together, and every field then has
/// one value.
pub proof fn decoded_iff_exact_length(fields: Seq<FieldId>, key: Seq<u8>)
    ensures
        decoded(fields, key) is Ok <==> key.len() == offset(fields, fields.len()),
        decoded(fields, key) matches Ok(values) ==> values.len() == fields.len(),
{
    first_short_all_fit(fields, key.len(), 0);
    let k = first_short(fields, key.len(), 0);
    if k < fields.len() {
        offset_monotone(fields, k + 1, fields.len());
    }
}

/// The bytes of a key without fields are all left over.
pub proof fn no_fields_no_values(key: Seq<u8>)
    ensures
        decoded(Seq::empty(), key) == (if key.len() == 0 {
            Ok::<Seq<FieldValue>, Seq<char>>(Seq::empty())
        } else {
            Err(trailing_text(key.len()))
        }),
{
    if key.len() == 0 {
        assert(decoded(Seq::empty(), key)->Ok_0 =~= Seq::<FieldValue>::empty());
    }
}

/// 256 to the power `k`.
spec fn pow256(k: nat) -> nat
    decreases k,
{
    if k == 0 {
        1
    } else {
        256 * pow256((k - 1) as nat)
    }
}

proof fn pow256_bound(k: nat)
    requires
        k <= 15,
    ensures
        pow256(k) <= 0x1_0000_0000_0000_0000_0000_0000_0000_00,
        pow256(16) == 0x1_0000_0000_0000_0000_0000_0000_0000_0000,
{
    reveal_with_fuel(pow256, 17);
}

/// The address that sixteen bytes spell.
pub fn decode_ip(bytes: [u8; 16]) -> (r: IpAddr)
    ensures
        r == ip_of(bytes@),
{
    assert(bytes@.subrange(0, 16) =~= bytes@);
    read_ip(bytes.as_slice(), 0)
}

/// The address that the sixteen bytes from `at` on spell.
fn read_ip(key: &[u8], at: usize) -> (r: IpAddr)
    requires
        at + 16 <= key@.len(),
    ensures
        r == ip_of(key@.subrange(at as int, at + 16)),
{
    let ghost s = key@.subrange(at as int, at + 16);
    let len: usize = key.len();
    let mut v: u128 = 0;
    let mut i: usize = 0;
    assert(s.take(0) =~= Seq::<u8>::empty());
    while i < 16
        invariant
            i <= 16,
            at + 16 <= len == key@.len(),
            s == key@.subrange(at as int, at + 16),
            v == be_value(s.take(i as int)),
            v < pow256(i as nat),
        decreases 16 - i,
    {
        proof {
            pow256_bound(i as nat);
            assert(s.take(i as int + 1).drop_last() =~= s.take(i as int));
            assert(s.take(i as int + 1).last() == key@[at + i]);
        }
        v = v * 256 + key[at + i] as u128;
        i = i + 1;
    }
    assert(s.take(16) =~= s);
    if v / 0x1_0000_0000 == 0xffff {
        IpAddr::V4((v % 0x1_0000_0000) as u32)
    } else {
        IpAddr::V6(v)
    }
}

fn field_name(f: FieldId) -> (r: &'static str)
    ensures
        r@ == field_label(f),
{
    match f {
        FieldId::SrcIp => "SrcIp",
        FieldId::DstIp => "DstIp",
        FieldId::IpProto => "IpProto",
        FieldId::Dscp => "Dscp",
        FieldId::MirrorSrcIp => "MirrorSrcIp",
        FieldId::SrcPort => "SrcPort",
        FieldId::DstPort => "DstPort",
    }
}

fn short_error(field: FieldId, at: usize, have: usize) -> (r: IpcError)
    ensures
        r@ == IpcError::<Seq<char>>::StatsFormat(short_text(field, at as nat, have as nat)),
{
    let mut s = "key too short for ".to_owned();
    s.append(field_name(field));
    s.append(" at offset ");
    text::push_decimal(&mut s, at as u64);
    match field {
        FieldId::IpProto | FieldId::Dscp => {},
        FieldId::SrcPort | FieldId::DstPort => {
            s.append(": need 2 bytes, have ");
            text::push_decimal(&mut s, have as u64);
        },
        _ => {
            s.append(": need 16 bytes, have ");
            text::push_decimal(&mut s, have as u64);
        },
    }
    IpcError::StatsFormat(s)
}

fn field_width(f: FieldId) -> (r: usize)
    ensures
        r == f.bytes(),
{
    match f {
        FieldId::SrcIp | FieldId::DstIp | FieldId::MirrorSrcIp => 16,
        FieldId::IpProto | FieldId::Dscp => 1,
        FieldId::SrcPort | FieldId::DstPort => 2,
    }
}

fn read_value(field: FieldId, key: &[u8], at: usize) -> (r: FieldValue)
    requires
        at + field.bytes() <= key@.len(),
    ensures
        r == value_of(field, key@.subrange(at as int, at + field.bytes())),
{
    match field {
        FieldId::SrcIp | FieldId::DstIp | FieldId::MirrorSrcIp => FieldValue::Ip(read_ip(key, at)),
        FieldId::IpProto => FieldValue::Proto(key[at]),
        FieldId::Dscp => FieldValue::Dscp(key[at]),
        FieldId::SrcPort | FieldId::DstPort => {
            proof {
                reveal_with_fuel(be_value, 3);
                let s = key@.subrange(at as int, at + 2);
                assert(s.drop_last().drop_last() =~= Seq::<u8>::empty());
                assert(s.drop_last().last() == key@[at as int]);
                assert(s.last() == key@[at + 1]);
            }
            FieldValue::Port(key[at] as u16 * 256 + key[at + 1] as u16)
        },
    }
}

/// The values of the fields of a key, in order.
pub fn decode_key(fields: &Vec<FieldId>, key_bytes: &[u8]) -> (r: Result<
    Vec<FieldValue>,
    IpcError,
>)
    ensures
        match decoded(fields@, key_bytes@) {
            Ok(values) => r is Ok && r->Ok_0@ == values,
            Err(e) => r is Err && r->Err_0@ == IpcError::<Seq<char>>::StatsFormat(e),
        },
{
    let len: usize = key_bytes.len();
    let mut at: usize = 0;
    let mut values: Vec<FieldValue> = Vec::new();
    let mut i: usize = 0;
    while i < fields.len()
        invariant
            i <= fields.len(),
            len == key_bytes@.len(),
            at == offset(fields@, i as nat),
            at <= len,
            first_short(fields@, len as nat, 0) == first_short(fields@, len as nat, i as nat),
            values.len() == i,
            forall|k: int|
                0 <= k < i ==> #[trigger] values@[k] == value_of(
                    fields@[k],
                    key_bytes@.subrange(
                        offset(fields@, k as nat) as int,
                        offset(fields@, k as nat + 1) as int,
                    ),
                ),
        decreases fields.len() - i,
    {
        let field = fields[i];
        let width: usize = field_width(field);
        if len - at < width {
            return Err(short_error(field, at, len - at));
        }
        values.push(read_value(field, key_bytes, at));
        at = at + width;
        i = i + 1;
    }
    if at != len {
        let mut s = "key has ".to_owned();
        text::push_decimal(&mut s, (len - at) as u64);
        s.append(" trailing bytes");
        return Err(IpcError::StatsFormat(s));
    }
    assert(values@ =~= decoded(fields@, key_bytes@)->Ok_0);
    Ok(values)
}

// ---------------------------------------------------------------- keys as they are written

/// The last `k` bytes of a number in network order.
pub open spec fn network_bytes(v: nat, k: nat) -> Seq<u8>
    decreases k,
{
    if k == 0 {
        Seq::empty()
    } else {
        network_bytes(v / 256, (k - 1) as nat).push((v % 256) as u8)
    }
}

/// A value as it stands in a key: numbers in network order, an IPv4 address in IPv6 form.
pub open spec fn written_value(v: FieldValue) -> Seq<u8> {
    match v {
        FieldValue::Ip(IpAddr::V4(a)) => network_bytes(0xffff_0000_0000 + a as nat, 16),
        FieldValue::Ip(IpAddr::V6(a)) => network_bytes(a as nat, 16),
        FieldValue::Proto(p) => seq![p],
        FieldValue::Dscp(d) => seq![d],
        FieldValue::Port(p) => seq![(p / 256) as u8, (p % 256) as u8],
    }
}

/// Whether a field can hold a value. An IPv6 address that stands for an IPv4 one is not told from
/// it, so no field holds it as IPv6.
pub open spec fn can_hold(field: FieldId, v: FieldValue) -> bool {
    match v {
        FieldValue::Ip(a) => {
            &&& field == FieldId::SrcIp || field == FieldId::DstIp || field == FieldId::MirrorSrcIp
            &&& a matches IpAddr::V6(x) ==> x / 0x1_0000_0000 != 0xffff
        },
        FieldValue::Proto(_) => field == FieldId::IpProto,
        FieldValue::Dscp(_) => field == FieldId::Dscp,
        FieldValue::Port(_) => field == FieldId::SrcPort || field == FieldId::DstPort,
    }
}

/// The values of a key in a row.
pub open spec fn written_key(values: Seq<FieldValue>) -> Seq<u8>
    decreases values.len(),
{
    if values.len() == 0 {
        Seq::empty()
    } else {
        written_key(values.drop_last()) + written_value(values.last())
    }
}

proof fn network_bytes_value(v: nat, k: nat)
    requires
        v < pow256(k),
    ensures
        network_bytes(v, k).len() == k,
        be_value(network_bytes(v, k)) == v,
    decreases k,
{
    if k > 0 {
        network_bytes_value(v / 256, (k - 1) as nat);
        assert(network_bytes(v, k).drop_last() =~= network_bytes(v / 256, (k - 1) as nat));
    }
}

proof fn written_value_read(field: FieldId, v: FieldValue)
    requires
        can_hold(field, v),
    ensures
        written_value(v).len() == field.bytes(),
        value_of(field, written_value(v)) == v,
{
    let s = written_value(v);
    pow256_bound(0);
    match v {
        FieldValue::Ip(IpAddr::V4(a)) => {
            network_bytes_value(0xffff_0000_0000 + a as nat, 16);
        },
        FieldValue::Ip(IpAddr::V6(a)) => {
            network_bytes_value(a as nat, 16);
        },
        FieldValue::Port(p) => {
            reveal_with_fuel(be_value, 3);
            assert(s.drop_last().drop_last() =~= Seq::<u8>::empty());
        },
        _ => {},
    }
}

proof fn written_key_parts(fields: Seq<FieldId>, values: Seq<FieldValue>, n: nat)
    requires
        fields.len() == values.len(),
        n <= values.len(),
        forall|i: int| 0 <= i < values.len() ==> can_hold(fields[i], #[trigger] values[i]),
    ensures
        written_key(values.take(n as int)).len() == offset(fields, n),
        written_key(values).len() >= offset(fields, n),
        written_key(values).take(offset(fields, n) as int) == written_key(values.take(n as int)),
        n < values.len() ==> written_key(values).len() >= offset(fields, n + 1) && written_key(
            values,
        ).subrange(offset(fields, n) as int, offset(fields, n + 1) as int) == written_value(
            values[n as int],
        ),
    decreases values.len(),
{
    if values.len() == 0 {
        assert(values.take(0) =~= values);
        assert(written_key(values).take(0) =~= written_key(values));
    } else {
        let front = values.drop_last();
        let last = values.len() - 1;
        let short = fields.drop_last();
        assert forall|i: int| 0 <= i < front.len() implies can_hold(short[i], #[trigger] front[i]) by {
            assert(front[i] == values[i]);
            assert(can_hold(fields[i], values[i]));
        }
        same_offsets(short, fields, last as nat);
        written_key_parts(short, front, last as nat);
        assert(front.take(last) =~= front);
        assert(can_hold(fields[last], values[last]));
        written_value_read(fields[last], values[last]);
        let key = written_key(values);
        assert(values.take(last) =~= front);
        if n == values.len() {
            assert(values.take(n as int) =~= values);
            assert(key.take(key.len() as int) =~= key);
        } else {
            same_offsets(short, fields, n);
            written_key_parts(short, front, n);
            assert(values.take(n as int) =~= front.take(n as int));
            let whole = written_key(front);
            assert(key.take(offset(fields, n) as int) =~= whole.take(offset(fields, n) as int));
            if n < last {
                same_offsets(short, fields, n + 1);
                assert(key.subrange(offset(fields, n) as int, offset(fields, n + 1) as int)
                    =~= whole.subrange(offset(fields, n) as int, offset(fields, n + 1) as int));
            } else {
                assert(whole.take(whole.len() as int) =~= whole);
                assert(key.subrange(offset(fields, n) as int, offset(fields, n + 1) as int)
                    =~= written_value(values[n as int]));
            }
        }
    }
}

proof fn same_offsets(a: Seq<FieldId>, b: Seq<FieldId>, n: nat)
    requires
        n <= a.len(),
        n <= b.len(),
        forall|i: int| 0 <= i < n ==> a[i] == b[i],
    ensures
        offset(a, n) == offset(b, n),
    decreases n,
{
    if n > 0 {
        same_offsets(a, b, (n - 1) as nat);
    }
}

proof fn all_fit(fields: Seq<FieldId>, len: nat, i: nat)
    requires
        i <= fields.len(),
        offset(fields, fields.len()) <= len,
    ensures
        first_short(fields, len, i) == fields.len(),
    decreases fields.len() - i,
{
    if i < fields.len() {
        offset_monotone(fields, i + 1, fields.len());
        all_fit(fields, len, i + 1);
    }
}

/// Reading undoes writing: the key that holds the bytes of the values in network order, one after
/// the other, gives back these values.
pub proof fn reading_undoes_writing(fields: Seq<FieldId>, values: Seq<FieldValue>)
    requires
        fields.len() == values.len(),
        forall|i: int| 0 <= i < values.len() ==> can_hold(fields[i], #[trigger] values[i]),
    ensures
        decoded(fields, written_key(values)) == Ok::<Seq<FieldValue>, Seq<char>>(values),
{
    let key = written_key(values);
    written_key_parts(fields, values, values.len());
    assert(values.take(values.len() as int) =~= values);
    all_fit(fields, key.len(), 0);
    let got = decoded(fields, key)->Ok_0;
    assert forall|i: int| 0 <= i < values.len() implies got[i] == values[i] by {
        written_key_parts(fields, values, i as nat);
        assert(can_hold(fields[i], values[i]));
        written_value_read(fields[i], values[i]);
    }
    assert(got =~= values);
}

/// A port stands in two bytes, the high one first.
pub proof fn ports_are_read_high_byte_first(field: FieldId, p: u16)
    requires
        field == FieldId::SrcPort || field == FieldId::DstPort,
    ensures
        decoded(seq![field], seq![(p / 256) as u8, (p % 256) as u8]) == Ok::<
            Seq<FieldValue>,
            Seq<char>,
        >(seq![FieldValue::Port(p)]),
{
    let values = seq![FieldValue::Port(p)];
    reveal_with_fuel(written_key, 2);
    assert(values.drop_last() =~= Seq::<FieldValue>::empty());
    assert(written_key(values) =~= seq![(p / 256) as u8, (p % 256) as u8]);
    reading_undoes_writing(seq![field], values);
}

/// The bytes that the first `n` fields take: sixteen for an address, two for a port, one for a
/// protocol or a class.
pub open spec fn room(fields: Seq<FieldId>, n: nat) -> nat
    decreases n,
{
    if n == 0 {
        0
    } else {
        room(fields, (n - 1) as nat) + match fields[n - 1] {
            FieldId::SrcIp | FieldId::DstIp | FieldId::MirrorSrcIp => 16nat,
            FieldId::SrcPort | FieldId::DstPort => 2nat,
            FieldId::IpProto | FieldId::Dscp => 1nat,
        }
    }
}

proof fn room_is_offset(fields: Seq<FieldId>, n: nat)
    ensures
        room(fields, n) == offset(fields, n),
    decreases n,
{
    if n > 0 {
        room_is_offset(fields, (n - 1) as nat);
    }
}

proof fn first_short_is(fields: Seq<FieldId>, len: nat, i: nat, k: nat)
    requires
        i <= k < fields.len(),
        offset(fields, k) <= len < offset(fields, k + 1),
    ensures
        first_short(fields, len, i) == k,
    decreases k - i,
{
    if i < k {
        offset_monotone(fields, i + 1, k);
        first_short_is(fields, len, i + 1, k);
    }
}

/// A key that ends within a field is refused with the name of that field and the place where it
/// starts; one that goes on after the last field is refused with the number of bytes left over; any
/// other is read.
pub proof fn keys_are_refused_for_cause(fields: Seq<FieldId>, key: Seq<u8>, k: nat)
    ensures
        decoded(fields, key) is Ok <==> key.len() == room(fields, fields.len()),
        key.len() > room(fields, fields.len()) ==> decoded(fields, key) == Err::<
            Seq<FieldValue>,
            Seq<char>,
        >(
            "key has "@ + text::decimal((key.len() - room(fields, fields.len())) as nat)
                + " trailing bytes"@,
        ),
        k < fields.len() && room(fields, k) <= key.len() < room(fields, k + 1) ==> {
            let head = "key too short for "@ + field_label(fields[k as int]) + " at offset "@
                + text::decimal(room(fields, k));
            let have = text::decimal((key.len() - room(fields, k)) as nat);
            &&& decoded(fields, key) matches Err(e)
            &&& room(fields, k + 1) == room(fields, k) + 1 ==> e == head
            &&& room(fields, k + 1) == room(fields, k) + 2 ==> e == head + ": need 2 bytes, have "@
                + have
            &&& room(fields, k + 1) == room(fields, k) + 16 ==> e == head
                + ": need 16 bytes, have "@ + have
        },
{
    let n = fields.len();
    room_is_offset(fields, n);
    room_is_offset(fields, k);
    room_is_offset(fields, k + 1);
    decoded_iff_exact_length(fields, key);
    if key.len() > offset(fields, n) {
        all_fit_longer(fields, key.len(), 0);
    }
    if k < n && offset(fields, k) <= key.len() < offset(fields, k + 1) {
        first_short_is(fields, key.len(), 0, k);
    }
}

proof fn all_fit_longer(fields: Seq<FieldId>, len: nat, i: nat)
    requires
        i <= fields.len(),
        offset(fields, fields.len()) <= len,
    ensures
        first_short(fields, len, i) == fields.len(),
    decreases fields.len() - i,
{
    if i < fields.len() {
        offset_monotone(fields, i + 1, fields.len());
        all_fit_longer(fields, len, i + 1);
    }
}

} // verus!
