//! Statistics as the backend hands them over.

use vstd::prelude::*;

use super::types::FlowRuleId;

verus! {

/// One entry of a flow table.
#[derive(Clone, Copy, Debug, PartialEq, Eq, Structural)]
pub struct RawSlot {
    pub key_hash: u64,
    pub packets: u64,
    pub bytes: u64,
    /// Where the key starts in the arena.
    pub key_offset: u32,
    /// How many bytes the key takes; zero where the slot is empty.
    pub key_len: u16,
    pub flags: u16,
    pub last_update: u64,
}

/// The flow table of one rule.
#[derive(Debug)]
pub struct RawDescriptor {
    pub flow_rule_id: FlowRuleId,
    pub flow_rule_index: u32,
    pub generation: u64,
    pub epoch_ns: u64,
    pub slots: Vec<RawSlot>,
    /// The keys of the slots.
    pub key_arena: Vec<u8>,
    pub insert_failed: u64,
    pub table_full: u64,
}

/// The flow table of one rule as plain mathematical values.
#[verifier::ext_equal]
pub struct RawDescriptorView {
    pub flow_rule_id: FlowRuleId,
    pub flow_rule_index: u32,
    pub generation: u64,
    pub epoch_ns: u64,
    pub slots: Seq<RawSlot>,
    pub key_arena: Seq<u8>,
    pub insert_failed: u64,
    pub table_full: u64,
}

impl View for RawDescriptor {
    type V = RawDescriptorView;

    open spec fn view(&self) -> RawDescriptorView {
        RawDescriptorView {
            flow_rule_id: self.flow_rule_id,
            flow_rule_index: self.flow_rule_index,
            generation: self.generation,
            epoch_ns: self.epoch_ns,
            slots: self.slots@,
            key_arena: self.key_arena@,
            insert_failed: self.insert_failed,
            table_full: self.table_full,
        }
    }
}

/// The views of a list of flow tables.
pub open spec fn descriptor_views(s: Seq<RawDescriptor>) -> Seq<RawDescriptorView> {
    s.map_values(|d: RawDescriptor| d@)
}

/// All flow tables.
#[derive(Debug)]
pub struct RawSnapshot {
    pub descriptors: Vec<RawDescriptor>,
}

} // verus!
