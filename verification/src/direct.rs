//! The direct, trace-first proving seam: preprocessing identity, prover
//! configuration, streaming block audit, partial statements and the
//! fail-closed production entry point.

use vstd::prelude::*;
use vstd::string::{StringExecFns, StringSliceAdditionalSpecFns};

use crate::encoding::{le64, lemma_le_bytes_len, push_bytes, push_le_u64, sha3_256, sha3_256_of, sha3_absorbed, Sha3Stream};
use crate::math::{is_pow2, is_power_of_two};
use crate::pcs::RAM_START_ADDRESS;
use crate::relation::{
    result_model, state_of, DirectChunkedError, DirectRelation, DirectRelationState, ErrorModel,
    RelationMap, uniform_entries,
};
use crate::text::{dec, decimal_usize, text};
use crate::trace::{same_state, states_equal, Cycle, MachineBoundaryState, TraceBlock, REGISTER_COUNT};

verus! {

/// Domain/version tag included in every direct statement.
pub const DIRECT_CHUNKED_PROTOCOL_VERSION: &'static str = "jolt-nova/direct-chunked/v1";

/// Number of lookup tables in the fixed lookup registry.
pub const LOOKUP_TABLE_COUNT: u64 = 40;

/// Register width of the traced machine, in bits.
pub const XLEN: u64 = 64;

/// The protocol version tag as bytes.
pub open spec fn version_bytes() -> Seq<u8> {
    DIRECT_CHUNKED_PROTOCOL_VERSION.spec_bytes()
}

/// Verifier-known memory map: the bounds of RAM and of each I/O region.
#[derive(Clone, Copy, Debug, PartialEq, Eq)]
pub struct MemoryLayout {
    /// Lowest address of the RAM that final rows may touch.
    pub lowest_address: u64,
    /// One past the highest such address.
    pub heap_end: u64,
    pub input_start: u64,
    pub max_input_size: u64,
    pub trusted_advice_start: u64,
    pub max_trusted_advice_size: u64,
    pub untrusted_advice_start: u64,
    pub max_untrusted_advice_size: u64,
    pub output_start: u64,
    pub output_end: u64,
    pub max_output_size: u64,
    pub panic: u64,
}

/// Default size of each I/O window (inputs, outputs, each advice region).
pub const DEFAULT_MAX_IO_SIZE: u64 = 4096;

/// Default stack size placed directly above the program image.
pub const DEFAULT_STACK_SIZE: u64 = 4096;

/// Default heap size placed above the stack.
pub const DEFAULT_MEMORY_SIZE: u64 = 0x200_0000;

/// Bytes reserved directly below `RAM_START_ADDRESS` for the I/O windows and
/// the panic and termination words: the four windows plus two words, rounded
/// up to a power-of-two number of 8-byte words.
pub const DEFAULT_IO_REGION_SIZE: u64 = 0x8000;

/// The default memory map: trusted advice, untrusted advice, inputs and
/// outputs laid out upwards from the bottom of the I/O region, then the panic
/// word; RAM proper ends after an empty program image, the stack and the heap.
pub open spec fn default_layout() -> MemoryLayout {
    MemoryLayout {
        lowest_address: 0x7fff_8000,
        heap_end: 0x8200_1000,
        trusted_advice_start: 0x7fff_8000,
        max_trusted_advice_size: 4096,
        untrusted_advice_start: 0x7fff_9000,
        max_untrusted_advice_size: 4096,
        input_start: 0x7fff_a000,
        max_input_size: 4096,
        output_start: 0x7fff_b000,
        output_end: 0x7fff_c000,
        max_output_size: 4096,
        panic: 0x7fff_c000,
    }
}

impl Default for MemoryLayout {
    fn default() -> (m: MemoryLayout)
        ensures
            m == default_layout(),
    {
        let trusted_advice_start = RAM_START_ADDRESS - DEFAULT_IO_REGION_SIZE;
        let untrusted_advice_start = trusted_advice_start + DEFAULT_MAX_IO_SIZE;
        let input_start = untrusted_advice_start + DEFAULT_MAX_IO_SIZE;
        let output_start = input_start + DEFAULT_MAX_IO_SIZE;
        let output_end = output_start + DEFAULT_MAX_IO_SIZE;
        MemoryLayout {
            lowest_address: trusted_advice_start,
            heap_end: RAM_START_ADDRESS + DEFAULT_STACK_SIZE + DEFAULT_MEMORY_SIZE,
            input_start,
            max_input_size: DEFAULT_MAX_IO_SIZE,
            trusted_advice_start,
            max_trusted_advice_size: DEFAULT_MAX_IO_SIZE,
            untrusted_advice_start,
            max_untrusted_advice_size: DEFAULT_MAX_IO_SIZE,
            output_start,
            output_end,
            max_output_size: DEFAULT_MAX_IO_SIZE,
            panic: output_end,
        }
    }
}

/// Immutable identity/configuration data supplied before trace streaming starts.
#[derive(Clone, Debug, PartialEq, Eq)]
pub struct DirectChunkedPreprocessing {
    pub program_digest: [u8; 32],
    pub lookup_table_commitment: [u8; 32],
    pub max_padded_trace_length: usize,
    /// Entry PC of the verifier-known bytecode.
    pub entry_address: u64,
    /// Verifier-known memory map used to bind public I/O and advice regions.
    pub memory_layout: MemoryLayout,
    /// First byte address of the verifier-known ELF memory image.
    pub program_image_start: u64,
    /// Verifier-known ELF image packed as 8-byte little-endian words.
    pub program_image_words: Vec<u64>,
}

/// Bytes hashed into the program digest of `from_program_bytes`.
pub open spec fn program_digest_preimage(program: Seq<u8>) -> Seq<u8> {
    version_bytes() + le64(program.len() as u64) + program
}

/// `le64(0) + le64(1) + ... + le64(n - 1)`.
pub open spec fn table_id_bytes(n: nat) -> Seq<u8>
    decreases n,
{
    if n == 0 {
        Seq::empty()
    } else {
        table_id_bytes((n - 1) as nat) + le64((n - 1) as u64)
    }
}

/// Bytes hashed into the fixed lookup registry commitment.
pub open spec fn registry_preimage() -> Seq<u8> {
    version_bytes() + "fixed-jolt-lookup-registry"@.map_values(|c: char| c as u8) + le64(XLEN)
        + table_id_bytes(LOOKUP_TABLE_COUNT as nat)
}

/// Commitment to the ordered, fixed lookup table registry.
pub fn fixed_lookup_registry_commitment() -> (c: [u8; 32])
    ensures
        c@ == sha3_256_of(registry_preimage()),
{
    let mut data: Vec<u8> = Vec::new();
    push_bytes(&mut data, DIRECT_CHUNKED_PROTOCOL_VERSION.as_bytes());
    let tag = "fixed-jolt-lookup-registry";
    proof {
        reveal_strlit("fixed-jolt-lookup-registry");
        vstd::string::is_ascii_spec_bytes(tag);
    }
    assert(tag.spec_bytes() =~= "fixed-jolt-lookup-registry"@.map_values(|c: char| c as u8));
    push_bytes(&mut data, tag.as_bytes());
    push_le_u64(&mut data, XLEN);
    let ghost prefix = data@;
    let mut table_id: u64 = 0;
    while table_id < LOOKUP_TABLE_COUNT
        invariant
            table_id <= LOOKUP_TABLE_COUNT,
            data@ == prefix + table_id_bytes(table_id as nat),
        decreases LOOKUP_TABLE_COUNT - table_id,
    {
        push_le_u64(&mut data, table_id);
        assert(prefix + table_id_bytes((table_id + 1) as nat) =~= prefix + table_id_bytes(
            table_id as nat,
        ) + le64(table_id));
        table_id = table_id + 1;
    }
    assert(data@ =~= registry_preimage());
    sha3_256(data.as_slice())
}

impl DirectChunkedPreprocessing {
    /// Identity for a raw program image, for architecture tests and
    /// trace-only runners: the digest of the versioned, length-prefixed
    /// program bytes, the fixed lookup registry, the default memory map and an
    /// empty memory image.
    pub fn from_program_bytes(program: &[u8], max_padded_trace_length: usize) -> (p: Self)
        ensures
            p.program_digest@ == sha3_256_of(program_digest_preimage(program@)),
            p.lookup_table_commitment@ == sha3_256_of(registry_preimage()),
            p.max_padded_trace_length == max_padded_trace_length,
            p.entry_address == 0,
            p.memory_layout == default_layout(),
            p.program_image_start == 0,
            p.program_image_words@.len() == 0,
    {
        let mut data: Vec<u8> = Vec::new();
        push_bytes(&mut data, DIRECT_CHUNKED_PROTOCOL_VERSION.as_bytes());
        push_le_u64(&mut data, program.len() as u64);
        push_bytes(&mut data, program);
        let program_digest = sha3_256(data.as_slice());
        DirectChunkedPreprocessing {
            program_digest,
            lookup_table_commitment: fixed_lookup_registry_commitment(),
            max_padded_trace_length,
            entry_address: 0,
            memory_layout: MemoryLayout::default(),
            program_image_start: 0,
            program_image_words: Vec::new(),
        }
    }

    /// The same identity with the verifier-known memory map and program
    /// image replaced.
    pub fn with_initial_memory(
        self,
        memory_layout: MemoryLayout,
        program_image_start: u64,
        program_image_words: Vec<u64>,
    ) -> (p: Self)
        ensures
            p.program_digest == self.program_digest,
            p.lookup_table_commitment == self.lookup_table_commitment,
            p.max_padded_trace_length == self.max_padded_trace_length,
            p.entry_address == self.entry_address,
            p.memory_layout == memory_layout,
            p.program_image_start == program_image_start,
            p.program_image_words@ == program_image_words@,
    {
        let mut p = self;
        p.memory_layout = memory_layout;
        p.program_image_start = program_image_start;
        p.program_image_words = program_image_words;
        p
    }
}

/// Direct prover configuration. No field can inject a pre-verified artifact.
#[derive(Clone, Copy, Debug, PartialEq, Eq)]
pub struct DirectChunkedConfig {
    /// Fixed circuit capacity. Trace blocks may contain fewer active rows.
    pub block_capacity: usize,
    /// Compress the final recursive accumulator after all relations are closed.
    pub compress_final_spartan: bool,
}

/// A configuration is valid when its block capacity is a non-zero power of two.
pub open spec fn config_is_valid(config: DirectChunkedConfig) -> bool {
    is_pow2(config.block_capacity as nat)
}

impl DirectChunkedConfig {
    /// Succeeds exactly when the block capacity is a non-zero power of two.
    pub fn validate(&self) -> (r: Result<(), DirectChunkedError>)
        ensures
            result_model(r) == if config_is_valid(*self) {
                Ok::<(), ErrorModel>(())
            } else {
                Err(
                    ErrorModel::InvalidConfiguration(
                        "block_capacity must be a non-zero power of two"@,
                    ),
                )
            },
    {
        if self.block_capacity == 0 || !is_power_of_two(self.block_capacity) {
            return Err(
                DirectChunkedError::InvalidConfiguration(
                    text("block_capacity must be a non-zero power of two"),
                ),
            );
        }
        Ok(())
    }
}

impl Default for DirectChunkedConfig {
    fn default() -> (c: Self)
        ensures
            c.block_capacity == 4096,
            c.compress_final_spartan,
    {
        DirectChunkedConfig { block_capacity: 4096, compress_final_spartan: true }
    }
}

/// Bounded metadata obtained while consuming a sequence of trace blocks.
#[derive(Clone, Debug, PartialEq, Eq)]
pub struct DirectTraceAudit {
    pub block_count: usize,
    pub total_cycles: usize,
    pub first_state: MachineBoundaryState,
    pub final_state: MachineBoundaryState,
    pub trace_digest: [u8; 32],
}

/// Public statement eventually bound to the recursive proof artifacts.
#[derive(Clone, Debug, PartialEq, Eq)]
pub struct DirectChunkedStatement {
    pub protocol_version: &'static str,
    pub program_digest: [u8; 32],
    pub lookup_table_commitment: [u8; 32],
    pub block_count: usize,
    pub total_cycles: usize,
    pub first_state: MachineBoundaryState,
    pub final_state: MachineBoundaryState,
    pub trace_digest: [u8; 32],
    pub relations: RelationMap,
}

/// Serialization boundary for the direct flow. There is intentionally no
/// field for importing a result from another proving flow.
#[derive(Clone, Debug, PartialEq, Eq)]
pub struct DirectChunkedProof {
    pub statement: DirectChunkedStatement,
    pub folded_instance: Vec<u8>,
    pub final_spartan: Option<Vec<u8>>,
    pub deferred_opening_digest: Option<[u8; 32]>,
}

/// The first relation, in protocol order, that a relation map does not mark
/// proven, with the state it is given.
pub open spec fn first_unclosed(entries: Seq<(DirectRelation, DirectRelationState)>) -> Option<
    (DirectRelation, DirectRelationState),
> {
    if state_of(entries, DirectRelation::Lookup) != DirectRelationState::Proven {
        Some((DirectRelation::Lookup, state_of(entries, DirectRelation::Lookup)))
    } else if state_of(entries, DirectRelation::Register) != DirectRelationState::Proven {
        Some((DirectRelation::Register, state_of(entries, DirectRelation::Register)))
    } else if state_of(entries, DirectRelation::Ram) != DirectRelationState::Proven {
        Some((DirectRelation::Ram, state_of(entries, DirectRelation::Ram)))
    } else if state_of(entries, DirectRelation::Cpu) != DirectRelationState::Proven {
        Some((DirectRelation::Cpu, state_of(entries, DirectRelation::Cpu)))
    } else if state_of(entries, DirectRelation::Pcs) != DirectRelationState::Proven {
        Some((DirectRelation::Pcs, state_of(entries, DirectRelation::Pcs)))
    } else {
        None
    }
}

/// The outcome of checking that a relation map closes every relation.
pub open spec fn spec_ensure_closed(entries: Seq<(DirectRelation, DirectRelationState)>) -> Result<
    (),
    ErrorModel,
> {
    match first_unclosed(entries) {
        Some((relation, state)) => Err(ErrorModel::UnclosedRelation { relation, state }),
        None => Ok(()),
    }
}

/// The outcome of checking that a proof is a fully closed production proof.
pub open spec fn spec_production_shape(proof: DirectChunkedProof) -> Result<(), ErrorModel> {
    match spec_ensure_closed(proof.statement.relations.entries@) {
        Err(e) => Err(e),
        Ok(_) => if proof.folded_instance@.len() == 0 {
            Err(ErrorModel::InvalidProofShape("folded_instance must not be empty"@))
        } else {
            Ok(())
        },
    }
}

fn relation_state_or_unsupported(map: &RelationMap, relation: DirectRelation) -> (s:
    DirectRelationState)
    ensures
        s == state_of(map.entries@, relation),
{
    match map.get(relation) {
        Some(s) => s,
        None => DirectRelationState::Unsupported,
    }
}

impl DirectChunkedProof {
    /// Fails with the first relation that the statement does not mark proven.
    pub fn ensure_closed(statement: &DirectChunkedStatement) -> (r: Result<(), DirectChunkedError>)
        ensures
            result_model(r) == spec_ensure_closed(statement.relations.entries@),
    {
        let all = DirectRelation::all();
        let mut i: usize = 0;
        while i < 5
            invariant
                0 <= i <= 5,
                all@ == crate::relation::all_relations(),
                forall|j: int|
                    0 <= j < i ==> state_of(statement.relations.entries@, #[trigger] all@[j])
                        == DirectRelationState::Proven,
            decreases 5 - i,
        {
            let relation = all[i];
            let state = relation_state_or_unsupported(&statement.relations, relation);
            if state != DirectRelationState::Proven {
                proof {
                    assert(all@[0] == DirectRelation::Lookup);
                    assert(all@[1] == DirectRelation::Register);
                    assert(all@[2] == DirectRelation::Ram);
                    assert(all@[3] == DirectRelation::Cpu);
                }
                return Err(DirectChunkedError::UnclosedRelation { relation, state });
            }
            i = i + 1;
        }
        proof {
            assert(all@[0] == DirectRelation::Lookup);
            assert(all@[1] == DirectRelation::Register);
            assert(all@[2] == DirectRelation::Ram);
            assert(all@[3] == DirectRelation::Cpu);
            assert(all@[4] == DirectRelation::Pcs);
        }
        Ok(())
    }

    /// Returns success only for a fully closed production proof: every
    /// relation proven and a non-empty folded instance.
    pub fn validate_production_shape(&self) -> (r: Result<(), DirectChunkedError>)
        ensures
            result_model(r) == spec_production_shape(*self),
    {
        Self::ensure_closed(&self.statement)?;
        if self.folded_instance.len() == 0 {
            return Err(
                DirectChunkedError::InvalidProofShape(text("folded_instance must not be empty")),
            );
        }
        Ok(())
    }
}

// ---------------------------------------------------------------------------
// Block validation and the streaming digest
// ---------------------------------------------------------------------------

/// Why a block cannot be folded at the given capacity, if it cannot.
#[verifier::opaque]
pub open spec fn block_error_reason(block: TraceBlock, capacity: usize) -> Option<Seq<char>> {
    if block.active_cycles == 0 {
        Some("active_cycles must be non-zero"@)
    } else if block.active_cycles != block.cycles@.len() {
        Some(
            "active_cycles "@ + dec(block.active_cycles as nat)
                + " does not match cycle vector length "@ + dec(block.cycles@.len()),
        )
    } else if block.active_cycles > capacity {
        Some(
            "active_cycles "@ + dec(block.active_cycles as nat)
                + " exceeds fixed circuit capacity "@ + dec(capacity as nat),
        )
    } else if !block.ended_at_tick_boundary {
        Some("block is not cut at an emulator tick boundary"@)
    } else if block.start_state.terminated {
        Some("an active block cannot start from a terminated machine state"@)
    } else if block.global_cycle_start != block.start_state.global_cycle {
        Some("start_state global cycle mismatch"@)
    } else if block.global_cycle_start + block.active_cycles > usize::MAX {
        Some("global cycle overflow"@)
    } else if block.global_cycle_start + block.active_cycles != block.end_state.global_cycle {
        Some("end_state global cycle mismatch"@)
    } else {
        None
    }
}

/// The outcome of validating one block against the circuit capacity.
pub open spec fn spec_validate_block(block: TraceBlock, capacity: usize) -> Result<(), ErrorModel> {
    match block_error_reason(block, capacity) {
        Some(reason) => Err(ErrorModel::InvalidBlock { block_index: block.block_index as nat, reason }),
        None => Ok(()),
    }
}

/// A block is accepted exactly when it is a non-empty run of cycles, with as
/// many cycles as it claims active and no more than the capacity, cut at a
/// tick boundary, starting from a live (not terminated) machine state, and
/// with boundary cycle counters that agree with its position and length; a
/// refusal names the block.
pub proof fn law_valid_block_is_live_and_sized(block: TraceBlock, capacity: usize)
    ensures
        spec_validate_block(block, capacity) is Ok <==> {
            &&& block.active_cycles > 0
            &&& block.active_cycles == block.cycles@.len()
            &&& block.active_cycles <= capacity
            &&& block.ended_at_tick_boundary
            &&& !block.start_state.terminated
            &&& block.global_cycle_start == block.start_state.global_cycle
            &&& block.global_cycle_start + block.active_cycles == block.end_state.global_cycle
        },
        spec_validate_block(block, capacity) matches Err(e) ==> (e matches ErrorModel::InvalidBlock {
            block_index,
            ..
        } && block_index == block.block_index),
{
    reveal(block_error_reason);
}

fn invalid_block(block_index: usize, reason: String) -> (e: DirectChunkedError)
    ensures
        e@ == (ErrorModel::InvalidBlock { block_index: block_index as nat, reason: reason@ }),
{
    DirectChunkedError::InvalidBlock { block_index, reason }
}

/// Checks that a block is non-empty, fits the circuit capacity, is cut at a
/// tick boundary, starts live, and that its boundary cycle counters agree
/// with its length.
pub fn validate_block(block: &TraceBlock, capacity: usize) -> (r: Result<(), DirectChunkedError>)
    ensures
        result_model(r) == spec_validate_block(*block, capacity),
{
    reveal(block_error_reason);
    let index = block.block_index;
    if block.active_cycles == 0 {
        return Err(invalid_block(index, text("active_cycles must be non-zero")));
    }
    if block.active_cycles != block.cycles.len() {
        let reason = text("active_cycles ").concat(decimal_usize(block.active_cycles).as_str());
        let reason = reason.concat(" does not match cycle vector length ");
        let reason = reason.concat(decimal_usize(block.cycles.len()).as_str());
        return Err(invalid_block(index, reason));
    }
    if block.active_cycles > capacity {
        let reason = text("active_cycles ").concat(decimal_usize(block.active_cycles).as_str());
        let reason = reason.concat(" exceeds fixed circuit capacity ");
        let reason = reason.concat(decimal_usize(capacity).as_str());
        return Err(invalid_block(index, reason));
    }
    if !block.ended_at_tick_boundary {
        return Err(invalid_block(index, text("block is not cut at an emulator tick boundary")));
    }
    if block.start_state.terminated {
        return Err(
            invalid_block(
                index,
                text("an active block cannot start from a terminated machine state"),
            ),
        );
    }
    if block.global_cycle_start != block.start_state.global_cycle {
        return Err(invalid_block(index, text("start_state global cycle mismatch")));
    }
    if block.global_cycle_start > usize::MAX - block.active_cycles {
        return Err(invalid_block(index, text("global cycle overflow")));
    }
    let expected_end = block.global_cycle_start + block.active_cycles;
    if expected_end != block.end_state.global_cycle {
        return Err(invalid_block(index, text("end_state global cycle mismatch")));
    }
    Ok(())
}

/// Little-endian bytes of each register, in register order.
pub open spec fn register_bytes(registers: Seq<i64>) -> Seq<u8>
    decreases registers.len(),
{
    if registers.len() == 0 {
        Seq::empty()
    } else {
        register_bytes(registers.drop_last()) + le64(registers.last() as u64)
    }
}

/// Bytes that a boundary state contributes to the streaming digest.
pub open spec fn boundary_state_bytes(state: MachineBoundaryState) -> Seq<u8> {
    le64(state.global_cycle as u64) + le64(state.emulator_trace_len as u64) + le64(state.pc)
        + register_bytes(state.registers@) + seq![if state.terminated { 1u8 } else { 0u8 }]
}

proof fn lemma_register_bytes_layout(registers: Seq<i64>)
    ensures
        register_bytes(registers).len() == 8 * registers.len(),
        forall|i: int|
            0 <= i < registers.len() ==> register_bytes(registers).subrange(8 * i, 8 * i + 8)
                == le64(#[trigger] registers[i] as u64),
    decreases registers.len(),
{
    if registers.len() > 0 {
        let prefix = registers.drop_last();
        lemma_register_bytes_layout(prefix);
        let last = le64(registers.last() as u64);
        lemma_le_bytes_len(registers.last() as u64 as nat, 8);
        let whole = register_bytes(registers);
        assert(whole == register_bytes(prefix) + last);
        assert forall|i: int| 0 <= i < registers.len() implies whole.subrange(8 * i, 8 * i + 8)
            == le64(#[trigger] registers[i] as u64) by {
            if i < prefix.len() {
                assert(prefix[i] == registers[i]);
                assert(whole.subrange(8 * i, 8 * i + 8) =~= register_bytes(prefix).subrange(
                    8 * i,
                    8 * i + 8,
                ));
            } else {
                assert(whole.subrange(8 * i, 8 * i + 8) =~= last);
            }
        }
    }
}

/// The bytes a boundary state contributes to the trace digest lay out every
/// field of the state at a fixed place: the global cycle, the emulator trace
/// length and the PC as 8-byte little-endian words, then each register in
/// order as an 8-byte word, then one byte that is 1 exactly when the state
/// is terminated.
pub proof fn law_boundary_state_bytes_layout(state: MachineBoundaryState)
    ensures
        ({
            let b = boundary_state_bytes(state);
            let n = state.registers@.len();
            &&& b.len() == 24 + 8 * n + 1
            &&& b.subrange(0, 8) == le64(state.global_cycle as u64)
            &&& b.subrange(8, 16) == le64(state.emulator_trace_len as u64)
            &&& b.subrange(16, 24) == le64(state.pc)
            &&& forall|i: int|
                0 <= i < n ==> b.subrange(24 + 8 * i, 32 + 8 * i) == le64(
                    #[trigger] state.registers@[i] as u64,
                )
            &&& b[(24 + 8 * n) as int] == if state.terminated {
                1u8
            } else {
                0u8
            }
        }),
{
    let regs = state.registers@;
    lemma_register_bytes_layout(regs);
    lemma_le_bytes_len(state.global_cycle as u64 as nat, 8);
    lemma_le_bytes_len(state.emulator_trace_len as u64 as nat, 8);
    lemma_le_bytes_len(state.pc as nat, 8);
    let head = le64(state.global_cycle as u64) + le64(state.emulator_trace_len as u64) + le64(
        state.pc,
    );
    let rb = register_bytes(regs);
    let tail = seq![if state.terminated { 1u8 } else { 0u8 }];
    let b = boundary_state_bytes(state);
    assert(b == head + rb + tail);
    assert(b.subrange(0, 8) =~= le64(state.global_cycle as u64));
    assert(b.subrange(8, 16) =~= le64(state.emulator_trace_len as u64));
    assert(b.subrange(16, 24) =~= le64(state.pc));
    assert forall|i: int| 0 <= i < regs.len() implies b.subrange(24 + 8 * i, 32 + 8 * i) == le64(
        #[trigger] regs[i] as u64,
    ) by {
        assert(b.subrange(24 + 8 * i, 32 + 8 * i) =~= rb.subrange(8 * i, 8 * i + 8));
    }
}

/// The textual identities of the cycles, concatenated.
pub open spec fn cycles_text(cycles: Seq<Cycle>) -> Seq<u8>
    decreases cycles.len(),
{
    if cycles.len() == 0 {
        Seq::empty()
    } else {
        cycles_text(cycles.drop_last()) + cycles.last().trace_text@
    }
}

/// Bytes that a block contributes to the streaming digest.
pub open spec fn block_metadata_bytes(block: TraceBlock) -> Seq<u8> {
    le64(block.block_index as u64) + le64(block.global_cycle_start as u64) + le64(
        block.active_cycles as u64,
    ) + boundary_state_bytes(block.start_state) + boundary_state_bytes(block.end_state)
        + cycles_text(block.cycles@)
}

/// The identity bytes of a run of cycles are the cycles' trace texts, in
/// order: none for no cycles, and one more cycle appends its text.
pub proof fn law_cycles_text_concatenates_trace_text(cycles: Seq<Cycle>, cycle: Cycle)
    ensures
        cycles_text(Seq::empty()) == Seq::<u8>::empty(),
        cycles_text(cycles.push(cycle)) == cycles_text(cycles) + cycle.trace_text@,
{
    assert(cycles.push(cycle).drop_last() =~= cycles);
}

/// The bytes a block contributes to the trace digest end with the trace text
/// of every one of its cycles, in order; so two blocks with the same index,
/// counters and boundary states but different cycle identities contribute
/// different bytes.
pub proof fn law_block_digest_bytes_cover_cycle_identities(a: TraceBlock, b: TraceBlock)
    ensures
        ({
            let bytes = block_metadata_bytes(a);
            let text = cycles_text(a.cycles@);
            &&& text.len() <= bytes.len()
            &&& bytes.subrange(bytes.len() - text.len(), bytes.len() as int) == text
        }),
        a.block_index == b.block_index && a.global_cycle_start == b.global_cycle_start
            && a.active_cycles == b.active_cycles && a.start_state == b.start_state && a.end_state
            == b.end_state && cycles_text(a.cycles@) != cycles_text(b.cycles@)
            ==> block_metadata_bytes(a) != block_metadata_bytes(b),
{
    let head = le64(a.block_index as u64) + le64(a.global_cycle_start as u64) + le64(
        a.active_cycles as u64,
    ) + boundary_state_bytes(a.start_state) + boundary_state_bytes(a.end_state);
    let text = cycles_text(a.cycles@);
    assert(block_metadata_bytes(a) == head + text);
    assert((head + text).subrange(head.len() as int, (head + text).len() as int) =~= text);
    if a.block_index == b.block_index && a.global_cycle_start == b.global_cycle_start
        && a.active_cycles == b.active_cycles && a.start_state == b.start_state && a.end_state
        == b.end_state && cycles_text(a.cycles@) != cycles_text(b.cycles@) {
        let other = cycles_text(b.cycles@);
        assert(block_metadata_bytes(b) == head + other);
        if block_metadata_bytes(a) == block_metadata_bytes(b) {
            assert((head + text).skip(head.len() as int) =~= text);
            assert((head + other).skip(head.len() as int) =~= other);
        }
    }
}

/// The bytes a block contributes to the trace digest start with its index,
/// its global cycle start and its active cycle count as 8-byte little-endian
/// words, followed by the bytes of its start state and then of its end
/// state, and end with its cycles' identities.
pub proof fn law_block_digest_bytes_layout(block: TraceBlock)
    ensures
        ({
            let b = block_metadata_bytes(block);
            let start = boundary_state_bytes(block.start_state);
            let end = boundary_state_bytes(block.end_state);
            &&& b.len() == 24 + start.len() + end.len() + cycles_text(block.cycles@).len()
            &&& b.subrange(0, 8) == le64(block.block_index as u64)
            &&& b.subrange(8, 16) == le64(block.global_cycle_start as u64)
            &&& b.subrange(16, 24) == le64(block.active_cycles as u64)
            &&& b.subrange(24, (24 + start.len()) as int) == start
            &&& b.subrange((24 + start.len()) as int, (24 + start.len() + end.len()) as int) == end
        }),
{
    lemma_le_bytes_len(block.block_index as u64 as nat, 8);
    lemma_le_bytes_len(block.global_cycle_start as u64 as nat, 8);
    lemma_le_bytes_len(block.active_cycles as u64 as nat, 8);
    let b = block_metadata_bytes(block);
    let start = boundary_state_bytes(block.start_state);
    let end = boundary_state_bytes(block.end_state);
    assert(b.subrange(0, 8) =~= le64(block.block_index as u64));
    assert(b.subrange(8, 16) =~= le64(block.global_cycle_start as u64));
    assert(b.subrange(16, 24) =~= le64(block.active_cycles as u64));
    assert(b.subrange(24, (24 + start.len()) as int) =~= start);
    assert(b.subrange((24 + start.len()) as int, (24 + start.len() + end.len()) as int) =~= end);
}

/// Appends the digest bytes of a boundary state.
pub fn hash_boundary_state(out: &mut Vec<u8>, state: &MachineBoundaryState)
    ensures
        final(out)@ == old(out)@ + boundary_state_bytes(*state),
{
    let ghost start = out@;
    push_le_u64(out, state.global_cycle as u64);
    push_le_u64(out, state.emulator_trace_len as u64);
    push_le_u64(out, state.pc);
    let ghost before_registers = out@;
    let mut i: usize = 0;
    while i < REGISTER_COUNT
        invariant
            0 <= i <= REGISTER_COUNT,
            state.registers@.len() == REGISTER_COUNT,
            out@ == before_registers + register_bytes(state.registers@.subrange(0, i as int)),
        decreases REGISTER_COUNT - i,
    {
        push_le_u64(out, state.registers[i] as u64);
        proof {
            let pre = state.registers@.subrange(0, i + 1);
            assert(pre.drop_last() =~= state.registers@.subrange(0, i as int));
        }
        i = i + 1;
    }
    assert(state.registers@.subrange(0, REGISTER_COUNT as int) =~= state.registers@);
    out.push(if state.terminated { 1u8 } else { 0u8 });
    assert(out@ =~= start + boundary_state_bytes(*state));
}

/// Appends the digest bytes of a block's metadata and cycle identities.
pub fn hash_block_metadata(out: &mut Vec<u8>, block: &TraceBlock)
    ensures
        final(out)@ == old(out)@ + block_metadata_bytes(*block),
{
    let ghost start = out@;
    push_le_u64(out, block.block_index as u64);
    push_le_u64(out, block.global_cycle_start as u64);
    push_le_u64(out, block.active_cycles as u64);
    hash_boundary_state(out, &block.start_state);
    hash_boundary_state(out, &block.end_state);
    let ghost before_cycles = out@;
    let mut i: usize = 0;
    while i < block.cycles.len()
        invariant
            0 <= i <= block.cycles@.len(),
            out@ == before_cycles + cycles_text(block.cycles@.subrange(0, i as int)),
        decreases block.cycles@.len() - i,
    {
        push_bytes(out, block.cycles[i].trace_text.as_slice());
        proof {
            let pre = block.cycles@.subrange(0, i + 1);
            assert(pre.drop_last() =~= block.cycles@.subrange(0, i as int));
        }
        i = i + 1;
    }
    assert(block.cycles@.subrange(0, block.cycles@.len() as int) =~= block.cycles@);
    assert(out@ =~= start + block_metadata_bytes(*block));
}


// ---------------------------------------------------------------------------
// Streaming audit
// ---------------------------------------------------------------------------

/// Mathematical state of an audit: the counts and boundary states it keeps,
/// and the bytes its digest has absorbed.
pub ghost struct AuditModel {
    pub block_count: nat,
    pub total_cycles: nat,
    pub first_state: Option<MachineBoundaryState>,
    pub previous_end: Option<(usize, MachineBoundaryState)>,
    /// Every byte absorbed by the audit digest so far.
    pub preimage: Seq<u8>,
}

/// Bytes that open the streaming digest of a trace.
pub open spec fn audit_digest_prefix(pre: DirectChunkedPreprocessing) -> Seq<u8> {
    version_bytes() + pre.program_digest@ + pre.lookup_table_commitment@
}

/// Audit state before any block.
pub open spec fn audit_start(pre: DirectChunkedPreprocessing) -> AuditModel {
    AuditModel {
        block_count: 0,
        total_cycles: 0,
        first_state: None,
        previous_end: None,
        preimage: audit_digest_prefix(pre),
    }
}

/// Continuity of a block with the audit state: sequential index, and either
/// the first block at cycle 0 or a start state equal to the previous end.
pub open spec fn audit_link_error(acc: AuditModel, block: TraceBlock) -> Option<ErrorModel> {
    if block.block_index != acc.block_count {
        Some(
            ErrorModel::InvalidBlock {
                block_index: block.block_index as nat,
                reason: "expected sequential block index "@ + dec(acc.block_count),
            },
        )
    } else {
        match acc.previous_end {
            Some((previous_index, previous_state)) => if !same_state(
                previous_state,
                block.start_state,
            ) {
                Some(
                    ErrorModel::DiscontinuousBlocks {
                        previous_block: previous_index as nat,
                        next_block: block.block_index as nat,
                        reason: "end_state does not equal the next start_state"@,
                    },
                )
            } else {
                None
            },
            None => if block.block_index != 0 || block.global_cycle_start != 0 {
                Some(
                    ErrorModel::InvalidBlock {
                        block_index: block.block_index as nat,
                        reason: "the direct trace must begin at block 0, global cycle 0"@,
                    },
                )
            } else {
                None
            },
        }
    }
}

/// One audit step: validate, link, absorb and count a block.
#[verifier::opaque]
pub open spec fn audit_step(
    max_len: usize,
    capacity: usize,
    acc: AuditModel,
    block: TraceBlock,
) -> Result<AuditModel, ErrorModel> {
    match spec_validate_block(block, capacity) {
        Err(e) => Err(e),
        Ok(_) => match audit_link_error(acc, block) {
            Some(e) => Err(e),
            None => {
                let total: nat = acc.total_cycles + block.active_cycles as nat;
                if total > usize::MAX {
                    Err(
                        ErrorModel::InvalidBlock {
                            block_index: block.block_index as nat,
                            reason: "cycle counter overflow"@,
                        },
                    )
                } else if total > max_len {
                    Err(ErrorModel::TraceTooLong { observed: total, maximum: max_len as nat })
                } else {
                    Ok(
                        AuditModel {
                            block_count: acc.block_count + 1,
                            total_cycles: total,
                            first_state: match acc.first_state {
                                Some(s) => Some(s),
                                None => Some(block.start_state),
                            },
                            previous_end: Some((block.block_index, block.end_state)),
                            preimage: acc.preimage + block_metadata_bytes(block),
                        },
                    )
                }
            },
        },
    }
}

/// The audit state after the blocks, or the first error.
pub open spec fn audit_fold(
    pre: DirectChunkedPreprocessing,
    capacity: usize,
    blocks: Seq<TraceBlock>,
) -> Result<AuditModel, ErrorModel>
    decreases blocks.len(),
{
    if blocks.len() == 0 {
        Ok(audit_start(pre))
    } else {
        match audit_fold(pre, capacity, blocks.drop_last()) {
            Err(e) => Err(e),
            Ok(acc) => audit_step(pre.max_padded_trace_length, capacity, acc, blocks.last()),
        }
    }
}

/// The outcome of auditing a block sequence: the final audit state, or the
/// first error, or `EmptyTrace` for no blocks.
pub open spec fn spec_audit(
    pre: DirectChunkedPreprocessing,
    capacity: usize,
    blocks: Seq<TraceBlock>,
) -> Result<AuditModel, ErrorModel> {
    match audit_fold(pre, capacity, blocks) {
        Err(e) => Err(e),
        Ok(acc) => if acc.first_state is None {
            Err(ErrorModel::EmptyTrace)
        } else {
            Ok(acc)
        },
    }
}

/// An audit result agrees with a successful audit state.
pub open spec fn audit_matches(audit: DirectTraceAudit, acc: AuditModel) -> bool {
    &&& audit.block_count as nat == acc.block_count
    &&& audit.total_cycles as nat == acc.total_cycles
    &&& acc.first_state == Some(audit.first_state)
    &&& acc.previous_end matches Some((_, end)) && end == audit.final_state
    &&& audit.trace_digest@ == sha3_256_of(acc.preimage)
}

/// An error that a prefix of the blocks produces is the error of the whole
/// sequence.
pub proof fn lemma_audit_fold_error_persists(
    pre: DirectChunkedPreprocessing,
    capacity: usize,
    blocks: Seq<TraceBlock>,
    n: nat,
)
    requires
        n <= blocks.len(),
        audit_fold(pre, capacity, blocks.take(n as int)) is Err,
    ensures
        audit_fold(pre, capacity, blocks) == audit_fold(pre, capacity, blocks.take(n as int)),
    decreases blocks.len() - n,
{
    if n < blocks.len() {
        assert(blocks.take(n + 1 as int).drop_last() =~= blocks.take(n as int));
        lemma_audit_fold_error_persists(pre, capacity, blocks, n + 1);
    } else {
        assert(blocks.take(n as int) =~= blocks);
    }
}

/// A streaming audit in progress. It keeps only counters, the first and the
/// latest boundary state and an incremental SHA3-256 state, so auditing a
/// trace block by block takes memory independent of the trace length.
#[derive(Debug)]
pub struct DirectTraceAuditor {
    max_padded_trace_length: usize,
    capacity: usize,
    block_count: usize,
    total_cycles: usize,
    /// The first start state, the latest block index and its end state.
    linked: Option<(MachineBoundaryState, usize, MachineBoundaryState)>,
    digest: Sha3Stream,
}

impl DirectTraceAuditor {
    /// The counters are consistent: every audited block holds at least one
    /// cycle.
    pub closed spec fn wf(&self) -> bool {
        self.block_count <= self.total_cycles
    }

    /// The audit state this auditor holds.
    pub closed spec fn model(&self) -> AuditModel {
        AuditModel {
            block_count: self.block_count as nat,
            total_cycles: self.total_cycles as nat,
            first_state: match self.linked {
                Some((first, _, _)) => Some(first),
                None => None,
            },
            previous_end: match self.linked {
                Some((_, index, end)) => Some((index, end)),
                None => None,
            },
            preimage: sha3_absorbed(self.digest),
        }
    }

    /// The trace length maximum the auditor enforces.
    pub closed spec fn max_len(&self) -> usize {
        self.max_padded_trace_length
    }

    /// The block capacity the auditor enforces.
    pub closed spec fn capacity(&self) -> usize {
        self.capacity
    }

    /// Audits the next block: it must be valid, carry the next index, and
    /// start the trace at block 0, cycle 0 or continue the previous block;
    /// the total cycle count must stay within the maximum. An accepted block
    /// is counted and its metadata absorbed into the digest.
    pub fn absorb_block(&mut self, block: &TraceBlock) -> (r: Result<(), DirectChunkedError>)
        requires
            old(self).wf(),
        ensures
            final(self).wf(),
            final(self).max_len() == old(self).max_len(),
            final(self).capacity() == old(self).capacity(),
            match audit_step(old(self).max_len(), old(self).capacity(), old(self).model(), *block) {
                Ok(acc) => r is Ok && final(self).model() == acc,
                Err(e) => r matches Err(err) && err@ == e,
            },
    {
        proof {
            reveal(audit_step);
        }
        validate_block(block, self.capacity)?;
        proof {
            reveal(block_error_reason);
        }
        if block.block_index != self.block_count {
            let reason = text("expected sequential block index ").concat(
                decimal_usize(self.block_count).as_str(),
            );
            return Err(invalid_block(block.block_index, reason));
        }
        let first = match &self.linked {
            Some((first, previous_index, previous_state)) => {
                if !states_equal(previous_state, &block.start_state) {
                    return Err(
                        DirectChunkedError::DiscontinuousBlocks {
                            previous_block: *previous_index,
                            next_block: block.block_index,
                            reason: text("end_state does not equal the next start_state"),
                        },
                    );
                }
                *first
            },
            None => {
                if block.block_index != 0 || block.global_cycle_start != 0 {
                    return Err(
                        invalid_block(
                            block.block_index,
                            text("the direct trace must begin at block 0, global cycle 0"),
                        ),
                    );
                }
                block.start_state
            },
        };
        if self.total_cycles > usize::MAX - block.active_cycles {
            return Err(invalid_block(block.block_index, text("cycle counter overflow")));
        }
        let total = self.total_cycles + block.active_cycles;
        if total > self.max_padded_trace_length {
            return Err(
                DirectChunkedError::TraceTooLong {
                    observed: total,
                    maximum: self.max_padded_trace_length,
                },
            );
        }
        let mut bytes: Vec<u8> = Vec::new();
        hash_block_metadata(&mut bytes, block);
        assert(bytes@ =~= block_metadata_bytes(*block));
        self.digest.update(bytes.as_slice());
        self.total_cycles = total;
        self.linked = Some((first, block.block_index, block.end_state));
        self.block_count = self.block_count + 1;
        Ok(())
    }

    /// Completes the audit: `EmptyTrace` when no block was audited, else the
    /// block count, total cycles, first and final states and trace digest.
    pub fn finish(self) -> (r: Result<DirectTraceAudit, DirectChunkedError>)
        ensures
            self.model().first_state is None ==> (r matches Err(e) && e@ == ErrorModel::EmptyTrace),
            self.model().first_state is Some ==> (r matches Ok(audit) && audit_matches(
                audit,
                self.model(),
            )),
    {
        match self.linked {
            None => Err(DirectChunkedError::EmptyTrace),
            Some((first_state, _, final_state)) => Ok(
                DirectTraceAudit {
                    block_count: self.block_count,
                    total_cycles: self.total_cycles,
                    first_state,
                    final_state,
                    trace_digest: self.digest.finalize(),
                },
            ),
        }
    }
}

/// Entry point for the direct architecture.
#[derive(Clone, Debug)]
pub struct DirectChunkedProver {
    preprocessing: DirectChunkedPreprocessing,
    config: DirectChunkedConfig,
}

impl DirectChunkedProver {
    /// The preprocessing the prover was built with.
    pub closed spec fn spec_preprocessing(&self) -> DirectChunkedPreprocessing {
        self.preprocessing
    }

    /// The configuration the prover was built with.
    pub closed spec fn spec_config(&self) -> DirectChunkedConfig {
        self.config
    }

    /// Builds a prover; fails exactly when the configuration is invalid.
    pub fn new(preprocessing: DirectChunkedPreprocessing, config: DirectChunkedConfig) -> (r: Result<
        Self,
        DirectChunkedError,
    >)
        ensures
            match r {
                Ok(p) => config_is_valid(config) && p.spec_preprocessing() == preprocessing
                    && p.spec_config() == config,
                Err(e) => !config_is_valid(config) && e@ == ErrorModel::InvalidConfiguration(
                    "block_capacity must be a non-zero power of two"@,
                ),
            },
    {
        config.validate()?;
        Ok(DirectChunkedProver { preprocessing, config })
    }

    /// The preprocessing the prover was built with.
    pub fn preprocessing(&self) -> (p: &DirectChunkedPreprocessing)
        ensures
            *p == self.spec_preprocessing(),
    {
        &self.preprocessing
    }

    /// The configuration the prover was built with.
    pub fn config(&self) -> (c: DirectChunkedConfig)
        ensures
            c == self.spec_config(),
    {
        self.config
    }

    /// Starts a streaming audit of a trace under this prover's preprocessing
    /// and capacity; its digest has absorbed the protocol version and the
    /// preprocessing identity.
    pub fn start_audit(&self) -> (a: DirectTraceAuditor)
        ensures
            a.wf(),
            a.model() == audit_start(self.spec_preprocessing()),
            a.max_len() == self.spec_preprocessing().max_padded_trace_length,
            a.capacity() == self.spec_config().block_capacity,
    {
        let mut digest = Sha3Stream::new();
        digest.update(DIRECT_CHUNKED_PROTOCOL_VERSION.as_bytes());
        digest.update(&self.preprocessing.program_digest);
        digest.update(&self.preprocessing.lookup_table_commitment);
        assert(sha3_absorbed(digest) =~= audit_digest_prefix(self.preprocessing));
        DirectTraceAuditor {
            max_padded_trace_length: self.preprocessing.max_padded_trace_length,
            capacity: self.config.block_capacity,
            block_count: 0,
            total_cycles: 0,
            linked: None,
            digest,
        }
    }

    /// Audits a block sequence in order through a streaming audit: every
    /// block must be valid, sequentially indexed from 0, start at global
    /// cycle 0 (the first) or where the previous block ended, and the total
    /// cycle count must stay within the preprocessing maximum.
    pub fn audit_trace_blocks(&self, blocks: &[TraceBlock]) -> (r: Result<
        DirectTraceAudit,
        DirectChunkedError,
    >)
        ensures
            match spec_audit(self.spec_preprocessing(), self.spec_config().block_capacity, blocks@) {
                Ok(acc) => r matches Ok(audit) && audit_matches(audit, acc),
                Err(e) => r matches Err(err) && err@ == e,
            },
    {
        let ghost pre = self.spec_preprocessing();
        let ghost capacity = self.spec_config().block_capacity;
        let mut auditor = self.start_audit();
        assert(blocks@.take(0) =~= Seq::<TraceBlock>::empty());
        let mut i: usize = 0;
        while i < blocks.len()
            invariant
                0 <= i <= blocks@.len(),
                pre == self.spec_preprocessing(),
                capacity == self.spec_config().block_capacity,
                auditor.wf(),
                auditor.max_len() == pre.max_padded_trace_length,
                auditor.capacity() == capacity,
                audit_fold(pre, capacity, blocks@.take(i as int)) == Ok::<AuditModel, ErrorModel>(
                    auditor.model(),
                ),
            decreases blocks@.len() - i,
        {
            proof {
                assert(blocks@.take(i + 1).drop_last() =~= blocks@.take(i as int));
                assert(blocks@.take(i + 1).last() == blocks@[i as int]);
            }
            let ghost before = auditor.model();
            let step = auditor.absorb_block(&blocks[i]);
            proof {
                assert(audit_fold(pre, capacity, blocks@.take(i + 1)) == audit_step(
                    pre.max_padded_trace_length,
                    capacity,
                    before,
                    blocks@[i as int],
                ));
            }
            if let Err(e) = step {
                proof {
                    lemma_audit_fold_error_persists(pre, capacity, blocks@, (i + 1) as nat);
                }
                return Err(e);
            }
            i = i + 1;
        }
        assert(blocks@.take(blocks@.len() as int) =~= blocks@);
        auditor.finish()
    }

    /// Production entry point. It audits the blocks and then fails closed at
    /// the first relation that is not internalized: it never returns a proof.
    pub fn prove(&self, blocks: &[TraceBlock]) -> (r: Result<DirectChunkedProof, DirectChunkedError>)
        ensures
            r is Err,
            match spec_audit(self.spec_preprocessing(), self.spec_config().block_capacity, blocks@) {
                Ok(acc) => r matches Err(err) && err@ == ErrorModel::UnsupportedRelation {
                    relation: DirectRelation::Lookup,
                    audited_blocks: acc.block_count,
                },
                Err(e) => r matches Err(err) && err@ == e,
            },
    {
        let audit = self.audit_trace_blocks(blocks)?;
        Err(
            DirectChunkedError::UnsupportedRelation {
                relation: DirectRelation::Lookup,
                audited_blocks: audit.block_count,
            },
        )
    }

    /// The partial statement for an audited trace: the prover's identity, the
    /// audit, and every relation marked unsupported.
    pub fn architecture_statement(&self, audit: DirectTraceAudit) -> (s: DirectChunkedStatement)
        ensures
            s.protocol_version == DIRECT_CHUNKED_PROTOCOL_VERSION,
            s.program_digest == self.spec_preprocessing().program_digest,
            s.lookup_table_commitment == self.spec_preprocessing().lookup_table_commitment,
            s.block_count == audit.block_count,
            s.total_cycles == audit.total_cycles,
            s.first_state == audit.first_state,
            s.final_state == audit.final_state,
            s.trace_digest == audit.trace_digest,
            s.relations.entries@ == uniform_entries(
                |r: DirectRelation| DirectRelationState::Unsupported,
            ),
    {
        DirectChunkedStatement {
            protocol_version: DIRECT_CHUNKED_PROTOCOL_VERSION,
            program_digest: self.preprocessing.program_digest,
            lookup_table_commitment: self.preprocessing.lookup_table_commitment,
            block_count: audit.block_count,
            total_cycles: audit.total_cycles,
            first_state: audit.first_state,
            final_state: audit.final_state,
            trace_digest: audit.trace_digest,
            relations: RelationMap::all_unsupported(),
        }
    }
}


// ---------------------------------------------------------------------------
// Laws of the seam
// ---------------------------------------------------------------------------

/// Sum of the active cycle counts of the blocks.
pub open spec fn sum_active_cycles(blocks: Seq<TraceBlock>) -> nat
    decreases blocks.len(),
{
    if blocks.len() == 0 {
        0
    } else {
        sum_active_cycles(blocks.drop_last()) + blocks.last().active_cycles as nat
    }
}

/// A block sequence is a well-formed direct trace for the capacity: every
/// block is valid, block `i` has index `i`, the first starts at global cycle
/// 0, and each block starts in the state where the previous one ended.
pub open spec fn is_contiguous_trace(blocks: Seq<TraceBlock>, capacity: usize) -> bool {
    &&& forall|i: int|
        0 <= i < blocks.len() ==> spec_validate_block(#[trigger] blocks[i], capacity) is Ok
    &&& forall|i: int| 0 <= i < blocks.len() ==> (#[trigger] blocks[i]).block_index == i
    &&& blocks.len() > 0 ==> blocks[0].global_cycle_start == 0
    &&& forall|i: int|
        0 < i < blocks.len() ==> same_state(blocks[i - 1].end_state, (#[trigger] blocks[i]).start_state)
}

proof fn lemma_audit_step_ok(max_len: usize, capacity: usize, acc: AuditModel, block: TraceBlock)
    requires
        audit_step(max_len, capacity, acc, block) is Ok,
    ensures
        ({
            let next = audit_step(max_len, capacity, acc, block)->Ok_0;
            &&& spec_validate_block(block, capacity) is Ok
            &&& block.block_index == acc.block_count
            &&& acc.previous_end is None ==> block.block_index == 0 && block.global_cycle_start == 0
            &&& acc.previous_end matches Some((_, prev)) ==> same_state(prev, block.start_state)
            &&& next.block_count == acc.block_count + 1
            &&& next.total_cycles == acc.total_cycles + block.active_cycles
            &&& next.total_cycles <= max_len
            &&& next.first_state == (match acc.first_state {
                Some(s) => Some(s),
                None => Some(block.start_state),
            })
            &&& next.previous_end == Some((block.block_index, block.end_state))
        }),
{
    reveal(audit_step);
}

proof fn lemma_audit_fold_ok(pre: DirectChunkedPreprocessing, capacity: usize, blocks: Seq<TraceBlock>)
    requires
        audit_fold(pre, capacity, blocks) is Ok,
    ensures
        ({
            let acc = audit_fold(pre, capacity, blocks)->Ok_0;
            &&& acc.block_count == blocks.len()
            &&& acc.total_cycles == sum_active_cycles(blocks)
            &&& acc.total_cycles <= pre.max_padded_trace_length
            &&& is_contiguous_trace(blocks, capacity)
            &&& blocks.len() == 0 ==> acc.first_state is None && acc.previous_end is None
            &&& blocks.len() > 0 ==> acc.first_state == Some(blocks[0].start_state)
                && acc.previous_end == Some((blocks.last().block_index, blocks.last().end_state))
        }),
    decreases blocks.len(),
{
    if blocks.len() > 0 {
        let prefix = blocks.drop_last();
        lemma_audit_fold_ok(pre, capacity, prefix);
        let acc = audit_fold(pre, capacity, prefix)->Ok_0;
        lemma_audit_step_ok(pre.max_padded_trace_length, capacity, acc, blocks.last());
        assert forall|i: int| 0 <= i < blocks.len() implies spec_validate_block(
            #[trigger] blocks[i],
            capacity,
        ) is Ok by {
            if i < prefix.len() {
                assert(prefix[i] == blocks[i]);
            }
        }
        assert forall|i: int| 0 <= i < blocks.len() implies (#[trigger] blocks[i]).block_index
            == i by {
            if i < prefix.len() {
                assert(prefix[i] == blocks[i]);
            }
        }
        assert forall|i: int| 0 < i < blocks.len() implies same_state(
            blocks[i - 1].end_state,
            (#[trigger] blocks[i]).start_state,
        ) by {
            if i < prefix.len() {
                assert(prefix[i] == blocks[i]);
                assert(prefix[i - 1] == blocks[i - 1]);
            } else {
                assert(prefix.last() == blocks[i - 1]);
            }
        }
        if prefix.len() > 0 {
            assert(prefix[0] == blocks[0]);
        }
    }
}

/// What a successful audit certifies: the blocks form a contiguous trace
/// from global cycle 0; the audit counts every block and every active cycle,
/// the total stays within the preprocessing maximum, and the audit's first
/// and final states are the first block's start and the last block's end.
pub proof fn law_audit_certifies_contiguous_trace(
    pre: DirectChunkedPreprocessing,
    capacity: usize,
    blocks: Seq<TraceBlock>,
)
    requires
        spec_audit(pre, capacity, blocks) is Ok,
    ensures
        ({
            let acc = spec_audit(pre, capacity, blocks)->Ok_0;
            &&& blocks.len() > 0
            &&& is_contiguous_trace(blocks, capacity)
            &&& acc.block_count == blocks.len()
            &&& acc.total_cycles == sum_active_cycles(blocks)
            &&& acc.total_cycles <= pre.max_padded_trace_length
            &&& acc.first_state == Some(blocks[0].start_state)
            &&& acc.previous_end == Some((blocks.last().block_index, blocks.last().end_state))
        }),
{
    lemma_audit_fold_ok(pre, capacity, blocks);
}

proof fn lemma_audit_accepts_prefix(
    pre: DirectChunkedPreprocessing,
    capacity: usize,
    blocks: Seq<TraceBlock>,
    k: nat,
)
    requires
        k <= blocks.len(),
        is_contiguous_trace(blocks, capacity),
        sum_active_cycles(blocks.take(k as int)) <= pre.max_padded_trace_length,
    ensures
        audit_fold(pre, capacity, blocks.take(k as int)) is Ok,
        ({
            let acc = audit_fold(pre, capacity, blocks.take(k as int))->Ok_0;
            &&& acc.block_count == k
            &&& acc.total_cycles == sum_active_cycles(blocks.take(k as int))
            &&& acc.first_state == if k == 0 {
                None
            } else {
                Some(blocks[0].start_state)
            }
            &&& acc.previous_end == if k == 0 {
                None
            } else {
                Some((blocks[k - 1].block_index, blocks[k - 1].end_state))
            }
        }),
    decreases k,
{
    if k > 0 {
        let prefix = blocks.take(k as int);
        assert(prefix.drop_last() =~= blocks.take(k - 1));
        assert(prefix.last() == blocks[k - 1]);
        lemma_audit_accepts_prefix(pre, capacity, blocks, (k - 1) as nat);
        assert(blocks[k - 1].block_index == k - 1);
        if k > 1 {
            assert(same_state(blocks[k - 2].end_state, blocks[k - 1].start_state));
        }
        reveal(audit_step);
    }
}

/// Every contiguous trace within the length budget is accepted: a
/// non-empty sequence of valid blocks, indexed from 0, starting at global
/// cycle 0, each starting where the previous ended, whose active cycles sum
/// to at most the padded trace length, passes the audit with its block count,
/// cycle total, first start state and last end state.
pub proof fn law_contiguous_trace_is_accepted(
    pre: DirectChunkedPreprocessing,
    capacity: usize,
    blocks: Seq<TraceBlock>,
)
    requires
        blocks.len() > 0,
        is_contiguous_trace(blocks, capacity),
        sum_active_cycles(blocks) <= pre.max_padded_trace_length,
    ensures
        spec_audit(pre, capacity, blocks) is Ok,
        ({
            let acc = spec_audit(pre, capacity, blocks)->Ok_0;
            &&& acc.block_count == blocks.len()
            &&& acc.total_cycles == sum_active_cycles(blocks)
            &&& acc.first_state == Some(blocks[0].start_state)
            &&& acc.previous_end == Some((blocks.last().block_index, blocks.last().end_state))
        }),
{
    assert(blocks.take(blocks.len() as int) =~= blocks);
    lemma_audit_accepts_prefix(pre, capacity, blocks, blocks.len());
}

/// A first block that passes validation but is not block 0 at global cycle
/// 0 is refused as an invalid block, named by its own index.
pub proof fn law_trace_must_start_at_block_zero(
    pre: DirectChunkedPreprocessing,
    capacity: usize,
    blocks: Seq<TraceBlock>,
)
    requires
        blocks.len() > 0,
        spec_validate_block(blocks[0], capacity) is Ok,
        blocks[0].block_index != 0 || blocks[0].global_cycle_start != 0,
    ensures
        spec_audit(pre, capacity, blocks) matches Err(ErrorModel::InvalidBlock { block_index, .. })
            && block_index == blocks[0].block_index,
{
    let first = blocks.take(1);
    assert(first.drop_last() =~= Seq::<TraceBlock>::empty());
    assert(first.last() == blocks[0]);
    assert(audit_fold(pre, capacity, first.drop_last()) == Ok::<AuditModel, ErrorModel>(
        audit_start(pre),
    ));
    assert(audit_fold(pre, capacity, first) == audit_step(
        pre.max_padded_trace_length,
        capacity,
        audit_start(pre),
        blocks[0],
    ));
    reveal(audit_step);
    lemma_audit_fold_error_persists(pre, capacity, blocks, 1);
}

/// A contiguous trace is refused at the first block whose running cycle
/// total exceeds the padded trace length: the error reports that total and
/// the maximum.
pub proof fn law_first_overflowing_block_is_too_long(
    pre: DirectChunkedPreprocessing,
    capacity: usize,
    blocks: Seq<TraceBlock>,
    k: nat,
)
    requires
        k < blocks.len(),
        is_contiguous_trace(blocks, capacity),
        sum_active_cycles(blocks.take(k as int)) <= pre.max_padded_trace_length,
        pre.max_padded_trace_length < sum_active_cycles(blocks.take(k + 1 as int)) <= usize::MAX,
    ensures
        spec_audit(pre, capacity, blocks) == Err::<AuditModel, ErrorModel>(
            ErrorModel::TraceTooLong {
                observed: sum_active_cycles(blocks.take(k + 1 as int)),
                maximum: pre.max_padded_trace_length as nat,
            },
        ),
{
    lemma_audit_accepts_prefix(pre, capacity, blocks, k);
    let prefix = blocks.take(k + 1 as int);
    assert(prefix.drop_last() =~= blocks.take(k as int));
    assert(prefix.last() == blocks[k as int]);
    assert(blocks[k as int].block_index == k);
    if k > 0 {
        assert(same_state(blocks[k - 1].end_state, blocks[k as int].start_state));
    }
    reveal(audit_step);
    lemma_audit_fold_error_persists(pre, capacity, blocks, k + 1);
}

/// An accepted trace runs until it terminates and not beyond: no block starts
/// from a terminated machine state, so only the last block can end in one.
pub proof fn law_accepted_trace_stops_at_termination(
    pre: DirectChunkedPreprocessing,
    capacity: usize,
    blocks: Seq<TraceBlock>,
)
    requires
        spec_audit(pre, capacity, blocks) is Ok,
    ensures
        forall|i: int| 0 <= i < blocks.len() ==> !(#[trigger] blocks[i]).start_state.terminated,
        forall|i: int| 0 <= i < blocks.len() - 1 ==> !(#[trigger] blocks[i]).end_state.terminated,
{
    law_audit_certifies_contiguous_trace(pre, capacity, blocks);
    assert forall|i: int| 0 <= i < blocks.len() implies !(#[trigger] blocks[i]).start_state.terminated by {
        law_valid_block_is_live_and_sized(blocks[i], capacity);
    }
    assert forall|i: int| 0 <= i < blocks.len() - 1 implies !(#[trigger] blocks[i]).end_state.terminated by {
        law_valid_block_is_live_and_sized(blocks[i + 1], capacity);
        assert(same_state(blocks[i].end_state, blocks[i + 1].start_state));
    }
}

/// An empty block sequence is never accepted.
pub proof fn law_empty_trace_rejected(pre: DirectChunkedPreprocessing, capacity: usize)
    ensures
        spec_audit(pre, capacity, Seq::empty()) == Err::<AuditModel, ErrorModel>(
            ErrorModel::EmptyTrace,
        ),
{
}

/// A partial statement, whose relations are all unsupported, is never
/// accepted as a production proof, whatever its folded instance: it fails at
/// the lookup relation.
pub proof fn law_partial_statement_is_not_production(proof_value: DirectChunkedProof)
    requires
        proof_value.statement.relations.entries@ == uniform_entries(
            |r: DirectRelation| DirectRelationState::Unsupported,
        ),
    ensures
        spec_production_shape(proof_value) == Err::<(), ErrorModel>(
            ErrorModel::UnclosedRelation {
                relation: DirectRelation::Lookup,
                state: DirectRelationState::Unsupported,
            },
        ),
{
    let entries = proof_value.statement.relations.entries@;
    assert(entries[0] == (DirectRelation::Lookup, DirectRelationState::Unsupported));
}

/// A proof is production-shaped exactly when every relation is proven and
/// the folded instance is non-empty.
pub proof fn law_production_shape_iff_closed(proof_value: DirectChunkedProof)
    ensures
        spec_production_shape(proof_value) is Ok <==> (forall|r: DirectRelation|
            state_of(proof_value.statement.relations.entries@, r) == DirectRelationState::Proven)
            && proof_value.folded_instance@.len() > 0,
{
    let entries = proof_value.statement.relations.entries@;
    if spec_production_shape(proof_value) is Ok {
        assert forall|r: DirectRelation| state_of(entries, r) == DirectRelationState::Proven by {
            match r {
                DirectRelation::Lookup => {},
                DirectRelation::Register => {},
                DirectRelation::Ram => {},
                DirectRelation::Cpu => {},
                DirectRelation::Pcs => {},
            }
        }
    } else if (forall|r: DirectRelation| state_of(entries, r) == DirectRelationState::Proven) {
        assert(state_of(entries, DirectRelation::Lookup) == DirectRelationState::Proven);
        assert(state_of(entries, DirectRelation::Register) == DirectRelationState::Proven);
        assert(state_of(entries, DirectRelation::Ram) == DirectRelationState::Proven);
        assert(state_of(entries, DirectRelation::Cpu) == DirectRelationState::Proven);
        assert(state_of(entries, DirectRelation::Pcs) == DirectRelationState::Proven);
    }
}

} // verus!
