//! Shapes of the CPU/R1CS relation witnesses folded by the direct path.
//! Field elements are carried in their 32-byte canonical storage form.

use vstd::prelude::*;

use crate::relation::RelationMap;
use crate::trace::REGISTER_COUNT;

verus! {

/// CPU/R1CS row of one cycle.
#[derive(Clone, Debug, PartialEq, Eq)]
pub struct DirectCpuCycleWitness {
    pub active: bool,
    pub inputs: Vec<i128>,
    pub instruction_tag: u16,
    pub rs1_enabled: bool,
    pub rs1_address: u8,
    pub rs2_enabled: bool,
    pub rs2_address: u8,
    pub rd_enabled: bool,
    pub rd_address: u8,
    pub table_id: u8,
    pub instruction_flags: Vec<bool>,
    pub next_is_noop: bool,
    pub bytecode_path: Vec<[u8; 32]>,
}

#[derive(Clone, Debug, PartialEq, Eq)]
pub struct DirectCpuBlockWitness {
    pub block_index: usize,
    pub global_cycle_start: usize,
    pub active_cycles: usize,
    pub cycle_capacity: usize,
    pub terminated: bool,
    pub bytecode_root: [u8; 32],
    pub bytecode_depth: usize,
    pub query_root: [u8; 32],
    pub block_claim: [u8; 32],
    pub cycles: Vec<DirectCpuCycleWitness>,
}

#[derive(Clone, Debug, PartialEq, Eq)]
pub struct DirectCpuSubclaim {
    pub block: DirectCpuBlockWitness,
    pub transcript_state_before: [u8; 32],
    pub transcript_round_before: u32,
    pub transcript_state_after: [u8; 32],
    pub transcript_round_after: u32,
}

#[derive(Clone, Debug, PartialEq, Eq)]
pub struct DirectCpuStageStatement {
    pub program_digest: [u8; 32],
    pub lookup_table_commitment: [u8; 32],
    pub bytecode_root: [u8; 32],
    pub block_count: usize,
    pub total_cycles: usize,
    pub initial_registers: [u64; REGISTER_COUNT],
    pub final_registers: [u64; REGISTER_COUNT],
    pub ram_addresses: Vec<u64>,
    pub ram_registry_root: [u8; 32],
    pub initial_ram_root: [u8; 32],
    pub final_ram_root: [u8; 32],
    pub folded_cpu_claim: [u8; 32],
    pub terminated: bool,
    pub relations: RelationMap,
}

} // verus!
