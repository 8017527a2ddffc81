//! Deterministic size accounting of the direct proof artifact: integers are
//! fixed-width little-endian, vectors have an eight-byte length prefix, and
//! field values use compressed canonical serialization.

use ark_serialize::CanonicalSerialize;
use vstd::prelude::*;

use crate::cpu::{DirectCpuStageStatement, DirectCpuSubclaim};
use crate::pcs::{DirectExecutionInputs, DirectPcsStageStatement};
use crate::ram::DirectRamSubclaim;
use crate::relation::{relation_map_wf, RelationMap};

verus! {

/// Byte counts of each part of a direct proof.
#[derive(Clone, Debug, PartialEq, Eq)]
pub struct DirectProofSizeBreakdown {
    pub statement_and_execution_bytes: usize,
    pub lookup_subclaims_bytes: usize,
    pub register_subclaims_bytes: usize,
    pub ram_subclaims_bytes: usize,
    pub cpu_subclaims_bytes: usize,
    pub dory_pcs_bytes: usize,
    pub nova_recursive_debug_bytes: usize,
    pub spartan_compressed_bytes: usize,
    pub recursive_public_state_bytes: usize,
    pub total_bytes: usize,
}

/// The all-zero breakdown.
pub open spec fn zero_breakdown() -> DirectProofSizeBreakdown {
    DirectProofSizeBreakdown {
        statement_and_execution_bytes: 0,
        lookup_subclaims_bytes: 0,
        register_subclaims_bytes: 0,
        ram_subclaims_bytes: 0,
        cpu_subclaims_bytes: 0,
        dory_pcs_bytes: 0,
        nova_recursive_debug_bytes: 0,
        spartan_compressed_bytes: 0,
        recursive_public_state_bytes: 0,
        total_bytes: 0,
    }
}

impl Default for DirectProofSizeBreakdown {
    fn default() -> (b: Self)
        ensures
            b == zero_breakdown(),
    {
        DirectProofSizeBreakdown {
            statement_and_execution_bytes: 0,
            lookup_subclaims_bytes: 0,
            register_subclaims_bytes: 0,
            ram_subclaims_bytes: 0,
            cpu_subclaims_bytes: 0,
            dory_pcs_bytes: 0,
            nova_recursive_debug_bytes: 0,
            spartan_compressed_bytes: 0,
            recursive_public_state_bytes: 0,
            total_bytes: 0,
        }
    }
}

/// Sum of all parts but the total.
pub open spec fn parts_sum(b: DirectProofSizeBreakdown) -> nat {
    (b.statement_and_execution_bytes + b.lookup_subclaims_bytes + b.register_subclaims_bytes
        + b.ram_subclaims_bytes + b.cpu_subclaims_bytes + b.dory_pcs_bytes
        + b.nova_recursive_debug_bytes + b.spartan_compressed_bytes
        + b.recursive_public_state_bytes) as nat
}

/// A breakdown whose total is the sum of its parts.
pub fn size_breakdown(
    statement_and_execution_bytes: usize,
    lookup_subclaims_bytes: usize,
    register_subclaims_bytes: usize,
    ram_subclaims_bytes: usize,
    cpu_subclaims_bytes: usize,
    dory_pcs_bytes: usize,
    nova_recursive_debug_bytes: usize,
    spartan_compressed_bytes: usize,
    recursive_public_state_bytes: usize,
) -> (b: DirectProofSizeBreakdown)
    requires
        statement_and_execution_bytes + lookup_subclaims_bytes + register_subclaims_bytes
            + ram_subclaims_bytes + cpu_subclaims_bytes + dory_pcs_bytes
            + nova_recursive_debug_bytes + spartan_compressed_bytes
            + recursive_public_state_bytes <= usize::MAX,
    ensures
        b.statement_and_execution_bytes == statement_and_execution_bytes,
        b.lookup_subclaims_bytes == lookup_subclaims_bytes,
        b.register_subclaims_bytes == register_subclaims_bytes,
        b.ram_subclaims_bytes == ram_subclaims_bytes,
        b.cpu_subclaims_bytes == cpu_subclaims_bytes,
        b.dory_pcs_bytes == dory_pcs_bytes,
        b.nova_recursive_debug_bytes == nova_recursive_debug_bytes,
        b.spartan_compressed_bytes == spartan_compressed_bytes,
        b.recursive_public_state_bytes == recursive_public_state_bytes,
        b.total_bytes == parts_sum(b),
{
    let total_bytes = statement_and_execution_bytes + lookup_subclaims_bytes
        + register_subclaims_bytes + ram_subclaims_bytes + cpu_subclaims_bytes + dory_pcs_bytes
        + nova_recursive_debug_bytes + spartan_compressed_bytes + recursive_public_state_bytes;
    DirectProofSizeBreakdown {
        statement_and_execution_bytes,
        lookup_subclaims_bytes,
        register_subclaims_bytes,
        ram_subclaims_bytes,
        cpu_subclaims_bytes,
        dory_pcs_bytes,
        nova_recursive_debug_bytes,
        spartan_compressed_bytes,
        recursive_public_state_bytes,
        total_bytes,
    }
}

/// Length prefix of every vector.
pub fn vec_prefix() -> (r: usize)
    ensures
        r == 8,
{
    8
}

pub fn usize_size() -> (r: usize)
    ensures
        r == 8,
{
    8
}

pub fn bool_size() -> (r: usize)
    ensures
        r == 1,
{
    1
}

pub fn u8_size() -> (r: usize)
    ensures
        r == 1,
{
    1
}

pub fn u16_size() -> (r: usize)
    ensures
        r == 2,
{
    2
}

pub fn u32_size() -> (r: usize)
    ensures
        r == 4,
{
    4
}

pub fn u64_size() -> (r: usize)
    ensures
        r == 8,
{
    8
}

pub fn u128_size() -> (r: usize)
    ensures
        r == 16,
{
    16
}

pub fn i128_size() -> (r: usize)
    ensures
        r == 16,
{
    16
}

/// Calls `CanonicalSerialize::serialized_size` with `Compress::Yes` on the
/// default BN254 scalar field element. The contract claims 32 bytes: the
/// field's 254-bit modulus rounded up to whole bytes, with no flag bits.
#[verifier::external_body]
fn field_element_serialized_size() -> (r: usize)
    ensures
        r == 32,
{
    ark_bn254::Fr::default().serialized_size(ark_serialize::Compress::Yes)
}

/// Compressed size of one scalar field element.
pub fn field_size() -> (r: usize)
    ensures
        r == 32,
{
    field_element_serialized_size()
}

/// Size of a vector of field elements.
pub fn field_vec_size(values: &[[u8; 32]]) -> (r: usize)
    requires
        8 + values@.len() * 32 <= usize::MAX,
    ensures
        r == 8 + values@.len() * 32,
{
    vec_prefix() + values.len() * field_size()
}

/// Size of a vector of 32-byte field storage words.
pub fn field_storage_vec_size(values: &[[u8; 32]]) -> (r: usize)
    requires
        8 + values@.len() * 32 <= usize::MAX,
    ensures
        r == 8 + values@.len() * 32,
{
    vec_prefix() + values.len() * 32
}

/// Size of a vector of `u64`.
pub fn u64_vec_size(values: &[u64]) -> (r: usize)
    requires
        8 + values@.len() * 8 <= usize::MAX,
    ensures
        r == 8 + values@.len() * 8,
{
    vec_prefix() + values.len() * u64_size()
}

/// Size of a byte vector.
pub fn byte_vec_size(values: &[u8]) -> (r: usize)
    requires
        8 + values@.len() <= usize::MAX,
    ensures
        r == 8 + values@.len(),
{
    vec_prefix() + values.len()
}

/// Size of a relation map: a length prefix and two bytes per entry.
pub fn relation_map_size(map: &RelationMap) -> (r: usize)
    requires
        relation_map_wf(map.entries@),
        8 + map.entries@.len() * 2 <= usize::MAX,
    ensures
        r == 8 + map.entries@.len() * 2,
{
    vec_prefix() + map.entries.len() * 2
}

/// Accounted size of the CPU part of a PCS statement.
pub open spec fn cpu_statement_bytes(s: DirectCpuStageStatement) -> nat {
    32 + 32 + 32 + 2 * 8 + 2 * s.initial_registers@.len() * 8 + (8 + s.ram_addresses@.len() * 8) + 4
        * 32 + 1 + (8 + s.relations.entries@.len() * 2)
}

/// Accounted size of a PCS statement together with the execution inputs.
pub open spec fn statement_bytes(s: DirectPcsStageStatement, e: DirectExecutionInputs) -> nat {
    let outer = cpu_statement_bytes(s.cpu) + (8 + s.public_inputs@.len()) + (8
        + s.public_outputs@.len()) + 32 + 1 + 8 + 32 + 32 + 4 + (8 + s.relations.entries@.len() * 2);
    let execution = (8 + e.public_inputs@.len()) + (8 + e.public_outputs@.len()) + (8
        + e.trusted_advice@.len()) + (8 + e.untrusted_advice@.len()) + 1;
    outer + execution
}

/// Size of the statement and execution inputs of a PCS-stage proof.
pub fn statement_size(statement: &DirectPcsStageStatement, execution: &DirectExecutionInputs) -> (r:
    usize)
    requires
        relation_map_wf(statement.cpu.relations.entries@),
        relation_map_wf(statement.relations.entries@),
        statement_bytes(*statement, *execution) <= usize::MAX,
    ensures
        r == statement_bytes(*statement, *execution),
{
    let cpu = &statement.cpu;
    let cpu_statement = 32 + 32 + field_size() + 2 * usize_size() + 2 * cpu.initial_registers.len()
        * u64_size() + u64_vec_size(cpu.ram_addresses.as_slice()) + 4 * field_size() + bool_size()
        + relation_map_size(&cpu.relations);
    let outer_statement = cpu_statement + byte_vec_size(statement.public_inputs.as_slice())
        + byte_vec_size(statement.public_outputs.as_slice()) + 32 + bool_size() + usize_size()
        + field_size() + 32 + u32_size() + relation_map_size(&statement.relations);
    let execution_size = byte_vec_size(execution.public_inputs.as_slice()) + byte_vec_size(
        execution.public_outputs.as_slice(),
    ) + byte_vec_size(execution.trusted_advice.as_slice()) + byte_vec_size(
        execution.untrusted_advice.as_slice(),
    ) + bool_size();
    outer_statement + execution_size
}

/// Accounted size of the block witness of a lookup subclaim: four counters,
/// the termination flag, and a length-prefixed vector of cycle rows of a
/// flag, a table id, the lookup index, the two operands, the output and the
/// interleaving flag.
pub open spec fn lookup_block_bytes(cycle_count: nat) -> nat {
    4 * 8 + 1 + 8 + cycle_count * (1 + 1 + 16 + 8 + 16 + 8 + 1)
}

/// Size of the block witness of a lookup subclaim. The sumcheck proof and
/// claims that complete a subclaim are not held by the library.
pub fn lookup_block_size(block: &crate::lookup::DirectLookupBlockWitness) -> (r: usize)
    requires
        lookup_block_bytes(block.cycles@.len()) <= usize::MAX,
    ensures
        r == lookup_block_bytes(block.cycles@.len()),
{
    let row = bool_size() + u8_size() + u128_size() + u64_size() + u128_size() + u64_size()
        + bool_size();
    4 * usize_size() + bool_size() + vec_prefix() + block.cycles.len() * row
}

/// Accounted size of the block witness of a register subclaim: four
/// counters, the termination flag, the start and end registers, and a
/// length-prefixed vector of cycle rows of an activity flag, two reads
/// (flag, register, value) and a write (flag, register, two values).
pub open spec fn register_block_bytes(register_count: nat, cycle_count: nat) -> nat {
    4 * 8 + 1 + 2 * register_count * 8 + 8 + cycle_count * (1 + 2 * (1 + 1 + 8) + 1 + 1 + 2 * 8)
}

/// Size of the block witness of a register subclaim. The sumcheck proof and
/// claims that complete a subclaim are not held by the library.
pub fn register_block_size(block: &crate::register::DirectRegisterBlockWitness) -> (r: usize)
    requires
        register_block_bytes(block.start_registers@.len(), block.cycles@.len()) <= usize::MAX,
    ensures
        r == register_block_bytes(block.start_registers@.len(), block.cycles@.len()),
{
    let row = bool_size() + 2 * (bool_size() + u8_size() + u64_size()) + bool_size() + u8_size() + 2
        * u64_size();
    4 * usize_size() + bool_size() + 2 * block.start_registers.len() * u64_size() + vec_prefix()
        + block.cycles.len() * row
}

/// Accounted size of one RAM cycle witness.
pub open spec fn ram_cycle_bytes(registry_path_len: nat, memory_path_len: nat) -> nat {
    1 + 1 + 4 * 8 + (8 + registry_path_len * 32) + (8 + memory_path_len * 32) + 2 * 32
}

/// Accounted size of the RAM cycle witnesses.
pub open spec fn ram_cycles_bytes(cycles: Seq<crate::ram::DirectRamCycleWitness>) -> nat
    decreases cycles.len(),
{
    if cycles.len() == 0 {
        0
    } else {
        ram_cycles_bytes(cycles.drop_last()) + ram_cycle_bytes(
            cycles.last().registry_path@.len(),
            cycles.last().memory_path@.len(),
        )
    }
}

/// Accounted size of a RAM subclaim.
pub open spec fn ram_subclaim_bytes(subclaim: DirectRamSubclaim) -> nat {
    6 * 8 + 1 + 4 * 32 + 8 + ram_cycles_bytes(subclaim.block.cycles@) + 2 * (32 + 4)
}

proof fn lemma_ram_cycles_bytes_monotone(cycles: Seq<crate::ram::DirectRamCycleWitness>, i: int)
    requires
        0 <= i <= cycles.len(),
    ensures
        ram_cycles_bytes(cycles.take(i)) <= ram_cycles_bytes(cycles),
    decreases cycles.len() - i,
{
    if i < cycles.len() {
        assert(cycles.take(i + 1).drop_last() =~= cycles.take(i));
        lemma_ram_cycles_bytes_monotone(cycles, i + 1);
    } else {
        assert(cycles.take(i) =~= cycles);
    }
}

/// Size of a RAM subclaim in the accounting wire model.
pub fn ram_subclaim_size(subclaim: &DirectRamSubclaim) -> (r: usize)
    requires
        ram_subclaim_bytes(*subclaim) <= usize::MAX,
    ensures
        r == ram_subclaim_bytes(*subclaim),
{
    let cycles = &subclaim.block.cycles;
    let mut cycle_bytes: usize = 0;
    let mut i: usize = 0;
    while i < cycles.len()
        invariant
            0 <= i <= cycles@.len(),
            cycles@ == subclaim.block.cycles@,
            ram_subclaim_bytes(*subclaim) <= usize::MAX,
            cycle_bytes == ram_cycles_bytes(cycles@.take(i as int)),
        decreases cycles@.len() - i,
    {
        proof {
            assert(cycles@.take(i + 1).drop_last() =~= cycles@.take(i as int));
            lemma_ram_cycles_bytes_monotone(cycles@, i + 1);
        }
        let cycle = &cycles[i];
        cycle_bytes = cycle_bytes + (bool_size() + u8_size() + 4 * u64_size() + field_vec_size(
            cycle.registry_path.as_slice(),
        ) + field_vec_size(cycle.memory_path.as_slice()) + 2 * field_size());
        i = i + 1;
    }
    assert(cycles@.take(cycles@.len() as int) =~= cycles@);
    let block_size = 6 * usize_size() + bool_size() + 4 * field_size() + vec_prefix() + cycle_bytes;
    block_size + 2 * (32 + u32_size())
}

/// Accounted size of one CPU cycle witness.
pub open spec fn cpu_cycle_bytes(c: crate::cpu::DirectCpuCycleWitness) -> nat {
    1 + c.inputs@.len() * 16 + 2 + 7 * 1 + c.instruction_flags@.len() * 1 + 1 + (8
        + c.bytecode_path@.len() * 32)
}

/// Accounted size of the CPU cycle witnesses.
pub open spec fn cpu_cycles_bytes(cycles: Seq<crate::cpu::DirectCpuCycleWitness>) -> nat
    decreases cycles.len(),
{
    if cycles.len() == 0 {
        0
    } else {
        cpu_cycles_bytes(cycles.drop_last()) + cpu_cycle_bytes(cycles.last())
    }
}

/// Accounted size of a CPU subclaim.
pub open spec fn cpu_subclaim_bytes(subclaim: DirectCpuSubclaim) -> nat {
    5 * 8 + 1 + 3 * 32 + 8 + cpu_cycles_bytes(subclaim.block.cycles@) + 2 * (32 + 4)
}

proof fn lemma_cpu_cycles_bytes_monotone(cycles: Seq<crate::cpu::DirectCpuCycleWitness>, i: int)
    requires
        0 <= i <= cycles.len(),
    ensures
        cpu_cycles_bytes(cycles.take(i)) <= cpu_cycles_bytes(cycles),
    decreases cycles.len() - i,
{
    if i < cycles.len() {
        assert(cycles.take(i + 1).drop_last() =~= cycles.take(i));
        lemma_cpu_cycles_bytes_monotone(cycles, i + 1);
    } else {
        assert(cycles.take(i) =~= cycles);
    }
}

/// Size of a CPU subclaim in the accounting wire model.
pub fn cpu_subclaim_size(subclaim: &DirectCpuSubclaim) -> (r: usize)
    requires
        cpu_subclaim_bytes(*subclaim) <= usize::MAX,
    ensures
        r == cpu_subclaim_bytes(*subclaim),
{
    let cycles = &subclaim.block.cycles;
    let mut cycle_bytes: usize = 0;
    let mut i: usize = 0;
    while i < cycles.len()
        invariant
            0 <= i <= cycles@.len(),
            cycles@ == subclaim.block.cycles@,
            cpu_subclaim_bytes(*subclaim) <= usize::MAX,
            cycle_bytes == cpu_cycles_bytes(cycles@.take(i as int)),
        decreases cycles@.len() - i,
    {
        proof {
            assert(cycles@.take(i + 1).drop_last() =~= cycles@.take(i as int));
            lemma_cpu_cycles_bytes_monotone(cycles@, i + 1);
        }
        let cycle = &cycles[i];
        cycle_bytes = cycle_bytes + (bool_size() + cycle.inputs.len() * i128_size() + u16_size() + 7
            * u8_size() + cycle.instruction_flags.len() * bool_size() + bool_size()
            + field_vec_size(cycle.bytecode_path.as_slice()));
        i = i + 1;
    }
    assert(cycles@.take(cycles@.len() as int) =~= cycles@);
    let block_size = 5 * usize_size() + bool_size() + 3 * field_size() + vec_prefix() + cycle_bytes;
    block_size + 2 * (32 + u32_size())
}

} // verus!
