//! How flow rules are put to the backend, and how its answers are read.

use vstd::prelude::*;

use super::vapi_stats_client::VapiError;
use crate::config::model::{EvictionPolicy, Field};
use crate::ipc::types::FlowRuleId;
use crate::text;

verus! {

/// The number of a field in the backend.
pub open spec fn field_code(f: Field) -> u8 {
    match f {
        Field::SrcIp => 0,
        Field::DstIp => 1,
        Field::IpProto => 2,
        Field::Dscp => 3,
        Field::MirrorSrcIp => 4,
        Field::SrcPort => 5,
        Field::DstPort => 6,
    }
}

/// The number of a field in the backend.
pub fn field_to_u8(f: Field) -> (r: u8)
    ensures
        r == field_code(f),
{
    match f {
        Field::SrcIp => 0,
        Field::DstIp => 1,
        Field::IpProto => 2,
        Field::Dscp => 3,
        Field::MirrorSrcIp => 4,
        Field::SrcPort => 5,
        Field::DstPort => 6,
    }
}

/// No two fields have the same number.
pub proof fn field_codes_differ(a: Field, b: Field)
    requires
        field_code(a) == field_code(b),
    ensures
        a == b,
{
}

/// The numbers of fields in the backend.
pub fn field_bytes(fields: &Vec<Field>) -> (r: Vec<u8>)
    ensures
        r@ == fields@.map_values(|f: Field| field_code(f)),
{
    let mut r: Vec<u8> = Vec::new();
    let mut i: usize = 0;
    while i < fields.len()
        invariant
            i <= fields.len(),
            r.len() == i,
            forall|k: int| 0 <= k < i ==> #[trigger] r@[k] == field_code(fields@[k]),
        decreases fields.len() - i,
    {
        r.push(field_to_u8(fields[i]));
        i = i + 1;
    }
    assert(r@ =~= fields@.map_values(|f: Field| field_code(f)));
    r
}

/// The number of an eviction policy in the backend.
pub fn eviction_code(policy: EvictionPolicy) -> (r: u8)
    ensures
        r == (match policy {
            EvictionPolicy::LruDrop => 0u8,
        }),
{
    match policy {
        EvictionPolicy::LruDrop => 0,
    }
}

/// The error of a call that returned `rv`.
pub open spec fn call_failed(call: Seq<char>, rv: i32) -> VapiError<Seq<char>> {
    VapiError::FlowRuleFailed(call + " failed (rv="@ + text::signed_decimal(rv as int) + ")"@)
}

fn failure(call: &str, rv: i32) -> (r: VapiError)
    ensures
        r@ == call_failed(call@, rv),
{
    let mut s = call.to_owned();
    s.append(" failed (rv=");
    text::push_signed(&mut s, rv);
    s.append(")");
    VapiError::FlowRuleFailed(s)
}

/// What adding a flow rule gave: the identifier that the backend assigned, or its failure.
pub fn flow_rule_added(rv: i32, id_hi: u64, id_lo: u64) -> (r: Result<FlowRuleId, VapiError>)
    ensures
        if rv != 0 {
            r is Err && r->Err_0@ == call_failed("flow_rule_add"@, rv)
        } else {
            r is Ok && r->Ok_0 == (FlowRuleId { hi: id_hi, lo: id_lo })
        },
{
    if rv != 0 {
        return Err(failure("flow_rule_add", rv));
    }
    Ok(FlowRuleId { hi: id_hi, lo: id_lo })
}

/// What deleting a flow rule gave.
pub fn flow_rule_deleted(rv: i32) -> (r: Result<(), VapiError>)
    ensures
        r is Ok == (rv == 0),
        r is Err ==> r->Err_0@ == call_failed("flow_rule_del"@, rv),
{
    if rv != 0 {
        return Err(failure("flow_rule_del", rv));
    }
    Ok(())
}

/// The fields are numbered as the backend declares them: the addresses of the packet, its protocol
/// and its class, the source of the mirror, and the ports, counted from zero.
pub proof fn fields_are_numbered_in_order(fields: Seq<Field>)
    requires
        fields == seq![
            Field::SrcIp,
            Field::DstIp,
            Field::IpProto,
            Field::Dscp,
            Field::MirrorSrcIp,
            Field::SrcPort,
            Field::DstPort,
        ],
    ensures
        forall|i: int| 0 <= i < fields.len() ==> field_code(#[trigger] fields[i]) == i,
        forall|f: Field| #[trigger] fields.contains(f),
{
    assert forall|f: Field| #[trigger] fields.contains(f) by {
        assert(fields[field_code(f) as int] == f);
    }
}

} // verus!
