//! Bounded-residency trace capture for the production path: proving
//! metrics, source-block validation, hard re-chunking of oversized source
//! blocks, and the capture state machine whose spooling I/O the caller
//! performs.

use vstd::prelude::*;
use vstd::string::StringExecFns;

use crate::direct::{
    block_metadata_bytes, hash_block_metadata, spec_validate_block, validate_block,
    version_bytes, DirectChunkedPreprocessing, DirectTraceAudit, MemoryLayout,
    DIRECT_CHUNKED_PROTOCOL_VERSION,
};
use crate::encoding::{sha3_256_of, sha3_absorbed, Sha3Stream};
use crate::math::{max_usize, saturating_add, saturating_mul};
use crate::ram::{ram_address_error, table_get, validate_ram_address, RamTable};
use crate::relation::{DirectChunkedError, ErrorModel};
use crate::text::{dec, decimal_usize, text};
use crate::trace::{same_state, states_equal, Cycle, MachineBoundaryState, RamAccess, TraceBlock, REGISTER_COUNT};

verus! {

/// Structural and memory metrics of a direct proving run.
#[derive(Clone, Debug, PartialEq, Eq)]
pub struct DirectProvingMetrics {
    pub source_block_count: usize,
    pub block_count: usize,
    pub total_active_cycles: usize,
    pub trace_passes: usize,
    pub max_source_trace_cycles: usize,
    pub max_resident_trace_blocks: usize,
    pub max_resident_trace_cycles: usize,
    pub estimated_peak_resident_trace_bytes: usize,
    pub spooled_trace_bytes: usize,
    pub max_serialized_block_bytes: usize,
    pub peak_tracked_ram_addresses: usize,
    pub initial_ram_registry_bytes: usize,
    pub retained_relation_subclaims: usize,
    pub pcs_polynomial_coefficients: usize,
    pub pcs_polynomial_bytes: usize,
    pub nova_recursive_debug_bytes: usize,
    pub spartan_proof_bytes: usize,
    pub capture_trace_micros: u128,
    pub relation_preparation_micros: u128,
    pub pcs_commit_micros: u128,
    pub nova_fold_micros: u128,
    pub spartan_compress_micros: u128,
    pub pcs_open_micros: u128,
    pub self_verify_micros: u128,
    pub start_physical_memory_bytes: Option<usize>,
    pub after_capture_physical_memory_bytes: Option<usize>,
    pub after_relations_physical_memory_bytes: Option<usize>,
    pub after_pcs_physical_memory_bytes: Option<usize>,
    pub peak_observed_physical_memory_bytes: Option<usize>,
}

/// The all-zero metrics with no memory observation.
pub open spec fn zero_metrics() -> DirectProvingMetrics {
    DirectProvingMetrics {
        source_block_count: 0,
        block_count: 0,
        total_active_cycles: 0,
        trace_passes: 0,
        max_source_trace_cycles: 0,
        max_resident_trace_blocks: 0,
        max_resident_trace_cycles: 0,
        estimated_peak_resident_trace_bytes: 0,
        spooled_trace_bytes: 0,
        max_serialized_block_bytes: 0,
        peak_tracked_ram_addresses: 0,
        initial_ram_registry_bytes: 0,
        retained_relation_subclaims: 0,
        pcs_polynomial_coefficients: 0,
        pcs_polynomial_bytes: 0,
        nova_recursive_debug_bytes: 0,
        spartan_proof_bytes: 0,
        capture_trace_micros: 0,
        relation_preparation_micros: 0,
        pcs_commit_micros: 0,
        nova_fold_micros: 0,
        spartan_compress_micros: 0,
        pcs_open_micros: 0,
        self_verify_micros: 0,
        start_physical_memory_bytes: None,
        after_capture_physical_memory_bytes: None,
        after_relations_physical_memory_bytes: None,
        after_pcs_physical_memory_bytes: None,
        peak_observed_physical_memory_bytes: None,
    }
}

impl Default for DirectProvingMetrics {
    fn default() -> (m: Self)
        ensures
            m == zero_metrics(),
    {
        DirectProvingMetrics {
            source_block_count: 0,
            block_count: 0,
            total_active_cycles: 0,
            trace_passes: 0,
            max_source_trace_cycles: 0,
            max_resident_trace_blocks: 0,
            max_resident_trace_cycles: 0,
            estimated_peak_resident_trace_bytes: 0,
            spooled_trace_bytes: 0,
            max_serialized_block_bytes: 0,
            peak_tracked_ram_addresses: 0,
            initial_ram_registry_bytes: 0,
            retained_relation_subclaims: 0,
            pcs_polynomial_coefficients: 0,
            pcs_polynomial_bytes: 0,
            nova_recursive_debug_bytes: 0,
            spartan_proof_bytes: 0,
            capture_trace_micros: 0,
            relation_preparation_micros: 0,
            pcs_commit_micros: 0,
            nova_fold_micros: 0,
            spartan_compress_micros: 0,
            pcs_open_micros: 0,
            self_verify_micros: 0,
            start_physical_memory_bytes: None,
            after_capture_physical_memory_bytes: None,
            after_relations_physical_memory_bytes: None,
            after_pcs_physical_memory_bytes: None,
            peak_observed_physical_memory_bytes: None,
        }
    }
}

/// `min(a * b, usize::MAX)`.
pub open spec fn sat_mul(a: nat, b: nat) -> nat {
    if a * b > usize::MAX {
        usize::MAX as nat
    } else {
        a * b
    }
}

/// `min(a + b, usize::MAX)`.
pub open spec fn sat_add(a: nat, b: nat) -> nat {
    if a + b > usize::MAX {
        usize::MAX as nat
    } else {
        a + b
    }
}

/// The larger of two naturals.
pub open spec fn nat_max(a: nat, b: nat) -> nat {
    if a >= b {
        a
    } else {
        b
    }
}

/// Two trace passes, at most two resident blocks, source blocks of at most
/// twice the capacity and at most three capacities of resident cycles.
pub open spec fn residency_bounded(m: DirectProvingMetrics, block_capacity: usize) -> bool {
    &&& m.trace_passes == 2
    &&& m.max_resident_trace_blocks <= 2
    &&& m.max_source_trace_cycles <= sat_mul(block_capacity as nat, 2)
    &&& m.max_resident_trace_cycles <= sat_mul(block_capacity as nat, 3)
}

/// The peak after one memory observation.
pub open spec fn observed_peak(peak: Option<usize>, current: Option<usize>) -> Option<usize> {
    match current {
        Some(c) => Some(
            match peak {
                Some(p) => if p >= c {
                    p
                } else {
                    c
                },
                None => c,
            },
        ),
        None => peak,
    }
}

/// Estimated bytes of `blocks` resident blocks holding `cycles` cycles.
pub open spec fn resident_bytes(blocks: nat, cycles: nat) -> nat {
    sat_add(
        sat_mul(blocks, vstd::layout::size_of::<TraceBlock>()),
        sat_mul(cycles, vstd::layout::size_of::<Cycle>()),
    )
}

impl DirectProvingMetrics {
    /// Whether the recorded residency stays within the bounded-replay limits
    /// for the capacity.
    pub fn trace_residency_is_bounded(&self, block_capacity: usize) -> (r: bool)
        ensures
            r == residency_bounded(*self, block_capacity),
    {
        self.trace_passes == 2 && self.max_resident_trace_blocks <= 2
            && self.max_source_trace_cycles <= saturating_mul(block_capacity, 2)
            && self.max_resident_trace_cycles <= saturating_mul(block_capacity, 3)
    }

    /// Peak minus start physical memory, when both were observed.
    pub fn peak_physical_memory_delta_bytes(&self) -> (r: Option<isize>)
        requires
            self.peak_observed_physical_memory_bytes is Some
                && self.start_physical_memory_bytes is Some ==> isize::MIN <= (
            self.peak_observed_physical_memory_bytes->Some_0 as isize) - (
            self.start_physical_memory_bytes->Some_0 as isize) <= isize::MAX,
        ensures
            r == match (self.peak_observed_physical_memory_bytes, self.start_physical_memory_bytes) {
                (Some(peak), Some(start)) => Some(((peak as isize) - (start as isize)) as isize),
                _ => None::<isize>,
            },
    {
        let peak = match self.peak_observed_physical_memory_bytes {
            Some(p) => p,
            None => {
                return None;
            },
        };
        let start = match self.start_physical_memory_bytes {
            Some(s) => s,
            None => {
                return None;
            },
        };
        Some(peak as isize - start as isize)
    }

    /// Records a physical memory observation into the peak and returns it.
    pub fn observe_memory(&mut self, current: Option<usize>) -> (r: Option<usize>)
        ensures
            r == current,
            *final(self) == (DirectProvingMetrics {
                peak_observed_physical_memory_bytes: observed_peak(
                    old(self).peak_observed_physical_memory_bytes,
                    current,
                ),
                ..*old(self)
            }),
    {
        if let Some(c) = current {
            let peak = match self.peak_observed_physical_memory_bytes {
                Some(p) => max_usize(p, c),
                None => c,
            };
            self.peak_observed_physical_memory_bytes = Some(peak);
        }
        current
    }

    /// Records that `current` (and the lookahead `next`, if any) are the
    /// resident trace blocks, then a memory observation.
    pub fn observe_resident_blocks(
        &mut self,
        current: &TraceBlock,
        next: Option<&TraceBlock>,
        memory: Option<usize>,
    )
        requires
            next matches Some(n) ==> current.cycles@.len() + n.cycles@.len() <= usize::MAX,
        ensures
            ({
                let blocks: nat = if next is Some { 2 } else { 1 };
                let cycles: nat = current.cycles@.len() + match next {
                    Some(n) => n.cycles@.len(),
                    None => 0,
                };
                *final(self) == DirectProvingMetrics {
                    max_resident_trace_blocks: nat_max(
                        old(self).max_resident_trace_blocks as nat,
                        blocks,
                    ) as usize,
                    max_resident_trace_cycles: nat_max(
                        old(self).max_resident_trace_cycles as nat,
                        cycles,
                    ) as usize,
                    estimated_peak_resident_trace_bytes: nat_max(
                        old(self).estimated_peak_resident_trace_bytes as nat,
                        resident_bytes(blocks, cycles),
                    ) as usize,
                    peak_observed_physical_memory_bytes: observed_peak(
                        old(self).peak_observed_physical_memory_bytes,
                        memory,
                    ),
                    ..*old(self)
                }
            }),
            forall|capacity: usize|
                residency_bounded(*old(self), capacity) && current.cycles@.len() <= capacity && (
                next matches Some(n) ==> n.cycles@.len() <= capacity) ==> #[trigger] residency_bounded(
                    *final(self),
                    capacity,
                ),
    {
        let resident_blocks: usize = if next.is_some() { 2 } else { 1 };
        let resident_cycles: usize = match next {
            Some(n) => current.cycles.len() + n.cycles.len(),
            None => current.cycles.len(),
        };
        self.max_resident_trace_blocks = max_usize(self.max_resident_trace_blocks, resident_blocks);
        self.max_resident_trace_cycles = max_usize(self.max_resident_trace_cycles, resident_cycles);
        let bytes = saturating_add(
            saturating_mul(resident_blocks, core::mem::size_of::<TraceBlock>()),
            saturating_mul(resident_cycles, core::mem::size_of::<Cycle>()),
        );
        self.estimated_peak_resident_trace_bytes = max_usize(
            self.estimated_peak_resident_trace_bytes,
            bytes,
        );
        let _ = self.observe_memory(memory);
    }

    /// Records that a source block of `source_cycles` cycles is resident
    /// together with one re-chunked block of at most `capacity` cycles, then
    /// a memory observation.
    pub fn observe_source_rechunk(
        &mut self,
        source_cycles: usize,
        capacity: usize,
        memory: Option<usize>,
    )
        ensures
            ({
                let cycles = sat_add(
                    source_cycles as nat,
                    if source_cycles <= capacity { source_cycles as nat } else { capacity as nat },
                );
                *final(self) == DirectProvingMetrics {
                    max_source_trace_cycles: nat_max(
                        old(self).max_source_trace_cycles as nat,
                        source_cycles as nat,
                    ) as usize,
                    max_resident_trace_blocks: nat_max(
                        old(self).max_resident_trace_blocks as nat,
                        2,
                    ) as usize,
                    max_resident_trace_cycles: nat_max(
                        old(self).max_resident_trace_cycles as nat,
                        cycles,
                    ) as usize,
                    estimated_peak_resident_trace_bytes: nat_max(
                        old(self).estimated_peak_resident_trace_bytes as nat,
                        resident_bytes(2, cycles),
                    ) as usize,
                    peak_observed_physical_memory_bytes: observed_peak(
                        old(self).peak_observed_physical_memory_bytes,
                        memory,
                    ),
                    ..*old(self)
                }
            }),
    {
        self.max_source_trace_cycles = max_usize(self.max_source_trace_cycles, source_cycles);
        let smaller = if source_cycles <= capacity { source_cycles } else { capacity };
        let resident_cycles = saturating_add(source_cycles, smaller);
        self.max_resident_trace_blocks = max_usize(self.max_resident_trace_blocks, 2);
        self.max_resident_trace_cycles = max_usize(self.max_resident_trace_cycles, resident_cycles);
        let bytes = saturating_add(
            saturating_mul(2, core::mem::size_of::<TraceBlock>()),
            saturating_mul(resident_cycles, core::mem::size_of::<Cycle>()),
        );
        self.estimated_peak_resident_trace_bytes = max_usize(
            self.estimated_peak_resident_trace_bytes,
            bytes,
        );
        let _ = self.observe_memory(memory);
    }
}

/// Why a source block cannot be captured, if it cannot.
pub open spec fn source_block_error_reason(block: TraceBlock) -> Option<Seq<char>> {
    if block.active_cycles == 0 || block.active_cycles != block.cycles@.len() {
        Some("source block must contain one non-empty active cycle prefix"@)
    } else if !block.ended_at_tick_boundary {
        Some("source block is not cut at an emulator tick boundary"@)
    } else if block.start_state.terminated {
        Some("an active source block cannot start terminated"@)
    } else if block.global_cycle_start != block.start_state.global_cycle {
        Some("source start_state global cycle mismatch"@)
    } else if block.global_cycle_start + block.active_cycles > usize::MAX {
        Some("source global cycle overflow"@)
    } else if block.global_cycle_start + block.active_cycles != block.end_state.global_cycle {
        Some("source end_state global cycle mismatch"@)
    } else {
        None
    }
}

/// A source block is accepted exactly when it is a non-empty run of cycles
/// with as many cycles as it claims active, cut at a tick boundary, starting
/// from a live (not terminated) state, with boundary cycle counters that
/// agree with its position and length; unlike a proof block, it may exceed
/// the capacity.
pub proof fn law_source_block_is_live_and_counted(block: TraceBlock)
    ensures
        source_block_error_reason(block) is None <==> {
            &&& block.active_cycles > 0
            &&& block.active_cycles == block.cycles@.len()
            &&& block.ended_at_tick_boundary
            &&& !block.start_state.terminated
            &&& block.global_cycle_start == block.start_state.global_cycle
            &&& block.global_cycle_start + block.active_cycles == block.end_state.global_cycle
        },
{
}

/// Checks a source block: a non-empty active prefix, cut at a tick boundary,
/// live at its start, with boundary cycle counters that agree with its
/// length. Unlike a folded block, it may exceed the circuit capacity.
pub fn validate_source_block(block: &TraceBlock) -> (r: Result<(), DirectChunkedError>)
    ensures
        match source_block_error_reason(*block) {
            None => r is Ok,
            Some(reason) => r matches Err(e) && e@ == ErrorModel::InvalidBlock {
                block_index: block.block_index as nat,
                reason,
            },
        },
{
    let index = block.block_index;
    if block.active_cycles == 0 || block.active_cycles != block.cycles.len() {
        return Err(
            DirectChunkedError::InvalidBlock {
                block_index: index,
                reason: text("source block must contain one non-empty active cycle prefix"),
            },
        );
    }
    if !block.ended_at_tick_boundary {
        return Err(
            DirectChunkedError::InvalidBlock {
                block_index: index,
                reason: text("source block is not cut at an emulator tick boundary"),
            },
        );
    }
    if block.start_state.terminated {
        return Err(
            DirectChunkedError::InvalidBlock {
                block_index: index,
                reason: text("an active source block cannot start terminated"),
            },
        );
    }
    if block.global_cycle_start != block.start_state.global_cycle {
        return Err(
            DirectChunkedError::InvalidBlock {
                block_index: index,
                reason: text("source start_state global cycle mismatch"),
            },
        );
    }
    if block.global_cycle_start > usize::MAX - block.active_cycles {
        return Err(
            DirectChunkedError::InvalidBlock {
                block_index: index,
                reason: text("source global cycle overflow"),
            },
        );
    }
    if block.global_cycle_start + block.active_cycles != block.end_state.global_cycle {
        return Err(
            DirectChunkedError::InvalidBlock {
                block_index: index,
                reason: text("source end_state global cycle mismatch"),
            },
        );
    }
    Ok(())
}

/// The error the capture reports for a failed spool operation.
pub fn spool_error(message: &str) -> (e: DirectChunkedError)
    ensures
        e@ == ErrorModel::InvalidProofShape("D8 bounded trace spool failure: "@ + message@),
{
    DirectChunkedError::InvalidProofShape(text("D8 bounded trace spool failure: ").concat(message))
}


// ---------------------------------------------------------------------------
// Hard re-chunking of a source block into capacity-sized blocks
// ---------------------------------------------------------------------------

/// The registers after applying the rd writes of the cycles in order, or the
/// index of the first cycle whose write does not start from the current
/// register value (or names no register).
pub open spec fn apply_rd_writes(registers: Seq<i64>, cycles: Seq<Cycle>) -> Result<Seq<i64>, nat>
    decreases cycles.len(),
{
    if cycles.len() == 0 {
        Ok(registers)
    } else {
        match apply_rd_writes(registers, cycles.drop_last()) {
            Err(row) => Err(row),
            Ok(regs) => match cycles.last().rd_write {
                None => Ok(regs),
                Some((register, pre_value, post_value)) => if register >= REGISTER_COUNT
                    || regs[register as int] as u64 != pre_value {
                    Err((cycles.len() - 1) as nat)
                } else {
                    Ok(regs.update(register as int, post_value as i64))
                },
            },
        }
    }
}

/// Splits one source block into blocks of at most `capacity` cycles,
/// threading exact register state across the new boundaries.
#[derive(Debug)]
pub struct HardRechunker {
    pub original_block_index: usize,
    pub original_end: MachineBoundaryState,
    pub capacity: usize,
    pub next_block_index: usize,
    pub next_global_cycle: usize,
    pub source_row_offset: usize,
    pub next_start_state: MachineBoundaryState,
    /// The cycles not yet emitted.
    pub cycles: Vec<Cycle>,
}

/// Counters of a re-chunker cannot overflow while it drains its cycles.
pub open spec fn rechunker_wf(r: HardRechunker) -> bool {
    &&& r.capacity > 0
    &&& r.next_global_cycle + r.cycles@.len() <= usize::MAX
    &&& r.source_row_offset + r.cycles@.len() <= usize::MAX
}

/// The number of cycles the next block takes.
pub open spec fn chunk_len(r: HardRechunker) -> nat {
    if r.cycles@.len() <= r.capacity {
        r.cycles@.len()
    } else {
        r.capacity as nat
    }
}

/// The boundary state that ends the next block, for registers `regs`.
pub open spec fn chunk_end_state(r: HardRechunker, regs: Seq<i64>, take: nat) -> MachineBoundaryState {
    if take == r.cycles@.len() {
        r.original_end
    } else {
        MachineBoundaryState {
            global_cycle: (r.next_global_cycle + take) as usize,
            emulator_trace_len: r.next_start_state.emulator_trace_len,
            pc: r.next_start_state.pc,
            registers: r.original_end.registers,
            terminated: false,
        }
    }
}

/// Starts re-chunking `block` at capacity `capacity`, numbering the new
/// blocks from `first_block_index`.
pub fn rechunk_source_block(block: TraceBlock, capacity: usize, first_block_index: usize) -> (r:
    HardRechunker)
    requires
        capacity > 0,
        block.global_cycle_start + block.cycles@.len() <= usize::MAX,
    ensures
        rechunker_wf(r),
        r.original_block_index == block.block_index,
        r.original_end == block.end_state,
        r.capacity == capacity,
        r.next_block_index == first_block_index,
        r.next_global_cycle == block.global_cycle_start,
        r.source_row_offset == 0,
        r.next_start_state == block.start_state,
        r.cycles@ == block.cycles@,
        rechunk_at(r, block, capacity, first_block_index as nat, 0),
{
    assert(block.cycles@.skip(0) =~= block.cycles@);
    HardRechunker {
        original_block_index: block.block_index,
        original_end: block.end_state,
        capacity,
        next_block_index: first_block_index,
        next_global_cycle: block.global_cycle_start,
        source_row_offset: 0,
        next_start_state: block.start_state,
        cycles: block.cycles,
    }
}

impl HardRechunker {
    /// The next block of at most `capacity` cycles: `None` once every cycle
    /// was emitted. The block's end registers are its start registers with
    /// its rd writes applied; a write that does not start from the current
    /// value fails, and so does a last block whose registers differ from the
    /// source block's end state. Intermediate end states keep the start PC
    /// and emulator length and are not terminated; the last block ends in the
    /// source block's end state.
    pub fn next(&mut self) -> (r: Option<Result<TraceBlock, DirectChunkedError>>)
        requires
            rechunker_wf(*old(self)),
            old(self).cycles@.len() > 0 ==> old(self).next_block_index < usize::MAX,
        ensures
            rechunker_wf(*final(self)),
            r matches Some(Ok(b)) ==> next_block_produced(*old(self), *final(self), b),
            old(self).cycles@.len() == 0 ==> r is None && *final(self) == *old(self),
            old(self).cycles@.len() > 0 ==> ({
                let take = chunk_len(*old(self));
                let chunk = old(self).cycles@.take(take as int);
                &&& final(self).cycles@ == old(self).cycles@.skip(take as int)
                &&& match apply_rd_writes(old(self).next_start_state.registers@, chunk) {
                    Err(row) => r matches Some(Err(e)) && e@ == ErrorModel::InvalidBlock {
                        block_index: old(self).original_block_index as nat,
                        reason: "hard rechunk register pre-value mismatch at source row "@ + dec(
                            (old(self).source_row_offset + row) as nat,
                        ),
                    },
                    Ok(regs) => if take == old(self).cycles@.len()
                        && old(self).original_end.registers@ != regs {
                        r matches Some(Err(e)) && e@ == ErrorModel::InvalidBlock {
                            block_index: old(self).original_block_index as nat,
                            reason: "hard rechunk register transitions do not reconstruct the source end state"@,
                        }
                    } else {
                        r matches Some(Ok(b)) && {
                            let end = if take == old(self).cycles@.len() {
                                old(self).original_end
                            } else {
                                MachineBoundaryState {
                                    global_cycle: (old(self).next_global_cycle + take) as usize,
                                    emulator_trace_len: old(self).next_start_state.emulator_trace_len,
                                    pc: old(self).next_start_state.pc,
                                    registers: b.end_state.registers,
                                    terminated: false,
                                }
                            };
                            &&& b.end_state.registers@ == regs
                            &&& b.end_state == end
                            &&& b.block_index == old(self).next_block_index
                            &&& b.global_cycle_start == old(self).next_global_cycle
                            &&& b.active_cycles == take
                            &&& b.target_size == old(self).capacity
                            &&& b.start_state == old(self).next_start_state
                            &&& b.cycles@ == chunk
                            &&& b.ended_at_tick_boundary
                            &&& final(self).next_block_index == old(self).next_block_index + 1
                            &&& final(self).next_global_cycle == old(self).next_global_cycle + take
                            &&& final(self).source_row_offset == old(self).source_row_offset + take
                            &&& final(self).next_start_state == b.end_state
                            &&& final(self).original_block_index == old(self).original_block_index
                            &&& final(self).original_end == old(self).original_end
                            &&& final(self).capacity == old(self).capacity
                        }
                    },
                }
            }),
    {
        if self.cycles.len() == 0 {
            return None;
        }
        let ghost old_self = *self;
        let take = if self.cycles.len() <= self.capacity { self.cycles.len() } else { self.capacity };
        let rest = self.cycles.split_off(take);
        let mut cycles = rest;
        core::mem::swap(&mut cycles, &mut self.cycles);
        let active_cycles = cycles.len();
        let mut registers = self.next_start_state.registers;
        let mut row: usize = 0;
        assert(cycles@.take(0) =~= Seq::<Cycle>::empty());
        while row < cycles.len()
            invariant
                0 <= row <= cycles@.len(),
                cycles@ == old_self.cycles@.take(take as int),
                self.source_row_offset == old_self.source_row_offset,
                self.original_block_index == old_self.original_block_index,
                self.original_end == old_self.original_end,
                self.capacity == old_self.capacity,
                self.next_block_index == old_self.next_block_index,
                self.next_global_cycle == old_self.next_global_cycle,
                self.next_start_state == old_self.next_start_state,
                self.cycles@ == old_self.cycles@.skip(take as int),
                old_self.cycles@.len() > 0,
                old_self == *old(self),
                take == chunk_len(old_self),
                rechunker_wf(old_self),
                take <= old_self.cycles@.len(),
                apply_rd_writes(old_self.next_start_state.registers@, cycles@.take(row as int)) == Ok::<
                    Seq<i64>,
                    nat,
                >(registers@),
            decreases cycles@.len() - row,
        {
            proof {
                assert(cycles@.take(row + 1).drop_last() =~= cycles@.take(row as int));
                assert(cycles@.take(row + 1).last() == cycles@[row as int]);
            }
            if let Some((register, pre_value, post_value)) = cycles[row].rd_write {
                let index = register as usize;
                if index >= REGISTER_COUNT || registers[index] as u64 != pre_value {
                    let reason = text("hard rechunk register pre-value mismatch at source row ").concat(
                        decimal_usize(self.source_row_offset + row).as_str(),
                    );
                    proof {
                        lemma_rd_error_persists(
                            old_self.next_start_state.registers@,
                            cycles@,
                            (row + 1) as nat,
                        );
                        assert(cycles@.take(cycles@.len() as int) =~= cycles@);
                    }
                    return Some(
                        Err(
                            DirectChunkedError::InvalidBlock {
                                block_index: self.original_block_index,
                                reason,
                            },
                        ),
                    );
                }
                registers[index] = post_value as i64;
            }
            row = row + 1;
        }
        assert(cycles@.take(cycles@.len() as int) =~= cycles@);
        let is_last = self.cycles.len() == 0;
        if is_last && !registers_i64_equal(&self.original_end.registers, &registers) {
            return Some(
                Err(
                    DirectChunkedError::InvalidBlock {
                        block_index: self.original_block_index,
                        reason: text(
                            "hard rechunk register transitions do not reconstruct the source end state",
                        ),
                    },
                ),
            );
        }
        let end_state = if is_last {
            self.original_end
        } else {
            MachineBoundaryState {
                global_cycle: self.next_global_cycle + active_cycles,
                emulator_trace_len: self.next_start_state.emulator_trace_len,
                pc: self.next_start_state.pc,
                registers,
                terminated: false,
            }
        };
        let block = TraceBlock {
            block_index: self.next_block_index,
            global_cycle_start: self.next_global_cycle,
            active_cycles,
            target_size: self.capacity,
            start_state: self.next_start_state,
            end_state,
            cycles,
            ended_at_tick_boundary: true,
        };
        self.next_block_index = self.next_block_index + 1;
        self.next_global_cycle = self.next_global_cycle + active_cycles;
        self.source_row_offset = self.source_row_offset + active_cycles;
        self.next_start_state = end_state;
        Some(Ok(block))
    }
}

/// One block emitted by a re-chunker: the next `chunk_len` cycles, numbered
/// and placed where the re-chunker stood, starting from its boundary state,
/// with the re-chunker advanced past them to the block's end state.
pub open spec fn next_block_produced(before: HardRechunker, after: HardRechunker, b: TraceBlock) -> bool {
    let take = chunk_len(before);
    &&& before.cycles@.len() > 0
    &&& after.cycles@ == before.cycles@.skip(take as int)
    &&& b.cycles@ == before.cycles@.take(take as int)
    &&& b.block_index == before.next_block_index
    &&& b.global_cycle_start == before.next_global_cycle
    &&& b.active_cycles == take
    &&& b.target_size == before.capacity
    &&& b.start_state == before.next_start_state
    &&& b.ended_at_tick_boundary
    &&& (take == before.cycles@.len() ==> b.end_state == before.original_end)
    &&& after.next_block_index == before.next_block_index + 1
    &&& after.next_global_cycle == before.next_global_cycle + take
    &&& after.source_row_offset == before.source_row_offset + take
    &&& after.next_start_state == b.end_state
    &&& after.original_block_index == before.original_block_index
    &&& after.original_end == before.original_end
    &&& after.capacity == before.capacity
}

/// Source rows consumed after `j` blocks of capacity `capacity`.
pub open spec fn rechunk_offset(n: nat, capacity: usize, j: nat) -> nat {
    if j * capacity <= n {
        (j * capacity) as nat
    } else {
        n
    }
}

/// The state of a re-chunker of `source` at capacity `capacity`, numbering
/// from `first`, after it emitted `j` blocks.
pub open spec fn rechunk_at(
    r: HardRechunker,
    source: TraceBlock,
    capacity: usize,
    first: nat,
    j: nat,
) -> bool {
    let n = source.cycles@.len();
    let offset = rechunk_offset(n, capacity, j);
    &&& capacity > 0
    &&& r.capacity == capacity
    &&& r.original_block_index == source.block_index
    &&& r.original_end == source.end_state
    &&& r.cycles@ == source.cycles@.skip(offset as int)
    &&& r.source_row_offset == offset
    &&& r.next_block_index == first + j
    &&& r.next_global_cycle == source.global_cycle_start + offset
    &&& (j == 0 ==> r.next_start_state == source.start_state)
    &&& (j > 0 ==> (j - 1) * capacity < n)
}

/// Re-chunking a source block of `n` cycles at capacity `c` yields blocks
/// `0, 1, ...` in order: block `j` is numbered `first + j`, starts at source
/// row `j * c` and global cycle `global_cycle_start + j * c`, holds the source
/// rows `[j * c, min(n, (j + 1) * c))`, has target size `c` and is cut at a
/// tick boundary; it starts in the state the previous block ended in (the
/// first in the source block's start state), and the block that drains the
/// source ends in the source block's end state.
pub proof fn law_rechunk_emits_consecutive_slices(
    before: HardRechunker,
    after: HardRechunker,
    b: TraceBlock,
    source: TraceBlock,
    capacity: usize,
    first: nat,
    j: nat,
)
    requires
        rechunk_at(before, source, capacity, first, j),
        next_block_produced(before, after, b),
    ensures
        rechunk_at(after, source, capacity, first, j + 1),
        j * capacity < source.cycles@.len(),
        b.block_index == first + j,
        b.global_cycle_start == source.global_cycle_start + j * capacity,
        b.cycles@ == source.cycles@.subrange(
            j * capacity,
            rechunk_offset(source.cycles@.len(), capacity, j + 1) as int,
        ),
        b.active_cycles == b.cycles@.len(),
        b.target_size == capacity,
        b.ended_at_tick_boundary,
        b.start_state == before.next_start_state,
        j == 0 ==> b.start_state == source.start_state,
        after.next_start_state == b.end_state,
        after.cycles@.len() == 0 ==> b.end_state == source.end_state,
{
    let n = source.cycles@.len();
    let take = chunk_len(before);
    assert((j + 1) * capacity == j * capacity + capacity) by (nonlinear_arith);
    assert(j * capacity >= 0) by (nonlinear_arith)
        requires
            capacity > 0,
    ;
    if j * capacity >= n {
        assert(rechunk_offset(n, capacity, j) == n);
        assert(before.cycles@.len() == 0);
    }
    assert(rechunk_offset(n, capacity, j) == j * capacity);
    assert(rechunk_offset(n, capacity, j + 1) == j * capacity + take);
    assert(source.cycles@.skip(j * capacity).skip(take as int) =~= source.cycles@.skip(
        j * capacity + take,
    ));
    assert(source.cycles@.skip(j * capacity).take(take as int) =~= source.cycles@.subrange(
        j * capacity,
        j * capacity + take,
    ));
}

/// A re-chunker of a non-empty source block of `n` cycles at capacity `c`
/// has drained its source exactly when it has emitted `ceil(n / c)` blocks.
pub proof fn law_rechunk_block_count(
    r: HardRechunker,
    source: TraceBlock,
    capacity: usize,
    first: nat,
    j: nat,
)
    requires
        rechunk_at(r, source, capacity, first, j),
        source.cycles@.len() > 0,
    ensures
        r.cycles@.len() == 0 <==> j == (source.cycles@.len() + capacity - 1) / capacity as int,
{
    let n = source.cycles@.len() as int;
    let c = capacity as int;
    let m = (n + c - 1) / c;
    assert((m - 1) * c < n && n <= m * c) by (nonlinear_arith)
        requires
            c > 0,
            n > 0,
            m == (n + c - 1) / c,
    ;
    assert(r.cycles@.len() == n - rechunk_offset(n as nat, capacity, j));
    if j == 0 {
        assert(j * c == 0) by (nonlinear_arith)
            requires
                j == 0,
        ;
        assert(m >= 1) by (nonlinear_arith)
            requires
                c > 0,
                n > 0,
                m == (n + c - 1) / c,
        ;
    } else {
        assert((j - 1) * c < n);
        assert(j * c >= n <==> j == m) by (nonlinear_arith)
            requires
                c > 0,
                (j - 1) * c < n,
                (m - 1) * c < n,
                n <= m * c,
                j >= 1,
        ;
    }
}

proof fn lemma_rechunk_states(
    rs: Seq<HardRechunker>,
    cs: Seq<TraceBlock>,
    source: TraceBlock,
    capacity: usize,
    first: nat,
    k: nat,
)
    requires
        rs.len() == cs.len() + 1,
        k <= cs.len(),
        rechunk_at(rs[0], source, capacity, first, 0),
        forall|j: int| 0 <= j < cs.len() ==> next_block_produced(rs[j], rs[j + 1], #[trigger] cs[j]),
    ensures
        rechunk_at(rs[k as int], source, capacity, first, k),
    decreases k,
{
    if k > 0 {
        lemma_rechunk_states(rs, cs, source, capacity, first, (k - 1) as nat);
        assert(next_block_produced(rs[k - 1], rs[k as int], cs[k - 1]));
        law_rechunk_emits_consecutive_slices(rs[k - 1], rs[k as int], cs[k - 1], source, capacity, first, (k - 1) as nat);
    }
}

/// A complete re-chunking of a non-empty source block of `n` cycles at
/// capacity `c`, from its start until the re-chunker is drained, emits
/// exactly `ceil(n / c)` blocks; block `j` is numbered `first + j`, starts at
/// global cycle `global_cycle_start + j * c`, holds the source rows
/// `[j * c, min(n, (j + 1) * c))` as its active cycles, has target size `c`
/// and is cut at a tick boundary; the first starts in the source block's
/// start state, each ends where the next starts, and the last ends in the
/// source block's end state.
pub proof fn law_rechunk_whole_output(
    rs: Seq<HardRechunker>,
    cs: Seq<TraceBlock>,
    source: TraceBlock,
    capacity: usize,
    first: nat,
)
    requires
        source.cycles@.len() > 0,
        rs.len() == cs.len() + 1,
        rechunk_at(rs[0], source, capacity, first, 0),
        forall|j: int| 0 <= j < cs.len() ==> next_block_produced(rs[j], rs[j + 1], #[trigger] cs[j]),
        rs.last().cycles@.len() == 0,
    ensures
        cs.len() == (source.cycles@.len() + capacity - 1) / capacity as int,
        forall|j: int|
            0 <= j < cs.len() ==> {
                &&& (#[trigger] cs[j]).block_index == first + j
                &&& cs[j].global_cycle_start == source.global_cycle_start + j * capacity
                &&& cs[j].cycles@ == source.cycles@.subrange(
                    j * capacity,
                    rechunk_offset(source.cycles@.len(), capacity, (j + 1) as nat) as int,
                )
                &&& cs[j].active_cycles == cs[j].cycles@.len()
                &&& cs[j].target_size == capacity
                &&& cs[j].ended_at_tick_boundary
            },
        cs.len() > 0,
        cs[0].start_state == source.start_state,
        forall|j: int| 0 <= j < cs.len() - 1 ==> (#[trigger] cs[j]).end_state == cs[j + 1].start_state,
        cs.last().end_state == source.end_state,
{
    let m = cs.len();
    lemma_rechunk_states(rs, cs, source, capacity, first, m);
    law_rechunk_block_count(rs[m as int], source, capacity, first, m);
    assert(m > 0) by {
        if m == 0 {
            assert(rs[0].cycles@ =~= source.cycles@.skip(0));
        }
    }
    assert forall|j: int| 0 <= j < cs.len() implies {
        &&& (#[trigger] cs[j]).block_index == first + j
        &&& cs[j].global_cycle_start == source.global_cycle_start + j * capacity
        &&& cs[j].cycles@ == source.cycles@.subrange(
            j * capacity,
            rechunk_offset(source.cycles@.len(), capacity, (j + 1) as nat) as int,
        )
        &&& cs[j].active_cycles == cs[j].cycles@.len()
        &&& cs[j].target_size == capacity
        &&& cs[j].ended_at_tick_boundary
        &&& (j == 0 ==> cs[j].start_state == source.start_state)
        &&& cs[j].start_state == rs[j].next_start_state
        &&& rs[j + 1].next_start_state == cs[j].end_state
    } by {
        lemma_rechunk_states(rs, cs, source, capacity, first, j as nat);
        assert(next_block_produced(rs[j], rs[j + 1], cs[j]));
        law_rechunk_emits_consecutive_slices(rs[j], rs[j + 1], cs[j], source, capacity, first, j as nat);
    }
    assert forall|j: int| 0 <= j < cs.len() - 1 implies (#[trigger] cs[j]).end_state
        == cs[j + 1].start_state by {
        assert(cs[j + 1].start_state == rs[j + 1].next_start_state);
    }
    lemma_rechunk_states(rs, cs, source, capacity, first, (m - 1) as nat);
    assert(next_block_produced(rs[m - 1], rs[m as int], cs[m - 1]));
    law_rechunk_emits_consecutive_slices(rs[m - 1], rs[m as int], cs[m - 1], source, capacity, first, (m - 1) as nat);
}

fn registers_i64_equal(a: &[i64; REGISTER_COUNT], b: &[i64; REGISTER_COUNT]) -> (r: bool)
    ensures
        r == (a@ == b@),
{
    let mut i: usize = 0;
    while i < REGISTER_COUNT
        invariant
            0 <= i <= REGISTER_COUNT,
            a@.len() == REGISTER_COUNT,
            b@.len() == REGISTER_COUNT,
            forall|j: int| 0 <= j < i ==> a@[j] == b@[j],
        decreases REGISTER_COUNT - i,
    {
        if a[i] != b[i] {
            return false;
        }
        i = i + 1;
    }
    assert(a@ =~= b@);
    true
}

proof fn lemma_rd_error_persists(registers: Seq<i64>, cycles: Seq<Cycle>, n: nat)
    requires
        n <= cycles.len(),
        apply_rd_writes(registers, cycles.take(n as int)) is Err,
    ensures
        apply_rd_writes(registers, cycles) == apply_rd_writes(registers, cycles.take(n as int)),
    decreases cycles.len() - n,
{
    if n < cycles.len() {
        assert(cycles.take(n + 1 as int).drop_last() =~= cycles.take(n as int));
        lemma_rd_error_persists(registers, cycles, n + 1);
    } else {
        assert(cycles.take(n as int) =~= cycles);
    }
}


// ---------------------------------------------------------------------------
// Capture state machine: pass one of the bounded two-pass production flow
// ---------------------------------------------------------------------------

/// State of a trace capture between source blocks. The caller streams
/// source blocks in through `begin_source_block`, drains the re-chunker it
/// returns, spools every block that `admit_block` accepts, reports each
/// spooled record's length, and finally calls `finish`.
#[derive(Debug)]
pub struct DirectTraceCapture {
    pub capacity: usize,
    pub max_padded_trace_length: usize,
    pub entry_address: u64,
    pub memory_layout: MemoryLayout,
    /// The incremental trace digest; `sha3_absorbed` names the bytes it has
    /// absorbed so far.
    pub digest: Sha3Stream,
    pub first_state: Option<MachineBoundaryState>,
    pub previous_end: Option<(usize, MachineBoundaryState)>,
    /// First-touch value of every RAM address touched so far.
    pub initial_ram: RamTable,
    pub metrics: DirectProvingMetrics,
}

/// Invariant of a capture between operations.
pub open spec fn capture_wf(c: DirectTraceCapture) -> bool {
    &&& c.metrics.block_count <= c.metrics.total_active_cycles
    &&& c.metrics.total_active_cycles <= c.max_padded_trace_length
    &&& (c.previous_end is Some ==> c.first_state is Some)
    &&& (c.previous_end is Some ==> c.metrics.block_count >= 1)
    &&& residency_bounded(c.metrics, c.capacity)
    &&& c.first_state matches Some(first) ==> {
        &&& first.global_cycle == 0
        &&& first.pc == c.entry_address
        &&& all_registers_zero(first.registers@)
    }
}

/// Every register of a boundary state is zero.
pub open spec fn all_registers_zero(registers: Seq<i64>) -> bool {
    forall|i: int| 0 <= i < registers.len() ==> registers[i] == 0
}

/// Why a source block cannot be admitted next, if it cannot.
pub open spec fn source_admission_error(c: DirectTraceCapture, source: TraceBlock) -> Option<
    ErrorModel,
> {
    if source_block_error_reason(source) is Some {
        Some(
            ErrorModel::InvalidBlock {
                block_index: source.block_index as nat,
                reason: source_block_error_reason(source)->Some_0,
            },
        )
    } else if source.block_index != c.metrics.source_block_count {
        Some(
            ErrorModel::InvalidBlock {
                block_index: source.block_index as nat,
                reason: "expected sequential source block index "@ + dec(
                    c.metrics.source_block_count as nat,
                ),
            },
        )
    } else if c.previous_end is Some && !same_state(c.previous_end->Some_0.1, source.start_state) {
        Some(
            ErrorModel::DiscontinuousBlocks {
                previous_block: c.previous_end->Some_0.0 as nat,
                next_block: source.block_index as nat,
                reason: "end_state does not equal the next start_state"@,
            },
        )
    } else if c.previous_end is None && (source.block_index != 0 || source.global_cycle_start != 0) {
        Some(
            ErrorModel::InvalidBlock {
                block_index: source.block_index as nat,
                reason: "the direct trace must begin at block 0, global cycle 0"@,
            },
        )
    } else if c.previous_end is None && (source.start_state.pc != c.entry_address
        || !all_registers_zero(source.start_state.registers@)) {
        Some(
            ErrorModel::InvalidBlock {
                block_index: 0,
                reason: "D8 production trace does not start from the verifier-known entry PC and zero register state"@,
            },
        )
    } else if source.cycles@.len() > sat_mul(c.capacity as nat, 2) {
        Some(
            ErrorModel::InvalidBlock {
                block_index: source.block_index as nat,
                reason: "soft source block has "@ + dec(source.cycles@.len())
                    + " cycles, exceeding the bounded hard-rechunk limit "@ + dec(
                    sat_mul(c.capacity as nat, 2),
                ),
            },
        )
    } else {
        None
    }
}

/// Why a re-chunked block cannot be spooled, if it cannot: block
/// validation, RAM address validation, the cycle counter and the trace
/// length maximum, in that order.
pub open spec fn spool_block_error(c: DirectTraceCapture, block: TraceBlock) -> Option<ErrorModel> {
    if spec_validate_block(block, c.capacity) is Err {
        Some(spec_validate_block(block, c.capacity)->Err_0)
    } else if crate::ram::first_row_address_error(c.memory_layout, block.cycles@) is Some {
        Some(
            ErrorModel::InvalidBlock {
                block_index: block.block_index as nat,
                reason: crate::ram::first_row_address_error(c.memory_layout, block.cycles@)->Some_0,
            },
        )
    } else if c.metrics.total_active_cycles + block.active_cycles > usize::MAX {
        Some(
            ErrorModel::InvalidBlock {
                block_index: block.block_index as nat,
                reason: "cycle counter overflow"@,
            },
        )
    } else if c.metrics.total_active_cycles + block.active_cycles > c.max_padded_trace_length {
        Some(
            ErrorModel::TraceTooLong {
                observed: (c.metrics.total_active_cycles + block.active_cycles) as nat,
                maximum: c.max_padded_trace_length as nat,
            },
        )
    } else {
        None
    }
}

/// The metrics after admitting `source`: one more source block, its cycle
/// count in the source maximum, and the residency of holding it, with its
/// re-chunked output when it exceeds the capacity, plus one memory
/// observation. Every other metric is unchanged.
pub open spec fn admitted_source_metrics(
    m: DirectProvingMetrics,
    source: TraceBlock,
    capacity: usize,
    memory: Option<usize>,
) -> DirectProvingMetrics {
    let n = source.cycles@.len();
    let (blocks, cycles) = if source.active_cycles > capacity {
        (2nat, sat_add(n, capacity as nat))
    } else {
        (1nat, n)
    };
    DirectProvingMetrics {
        source_block_count: (m.source_block_count + 1) as usize,
        max_source_trace_cycles: nat_max(m.max_source_trace_cycles as nat, n) as usize,
        max_resident_trace_blocks: nat_max(m.max_resident_trace_blocks as nat, blocks) as usize,
        max_resident_trace_cycles: nat_max(m.max_resident_trace_cycles as nat, cycles) as usize,
        estimated_peak_resident_trace_bytes: nat_max(
            m.estimated_peak_resident_trace_bytes as nat,
            resident_bytes(blocks, cycles),
        ) as usize,
        peak_observed_physical_memory_bytes: observed_peak(
            m.peak_observed_physical_memory_bytes,
            memory,
        ),
        ..m
    }
}

/// What a completed capture returns for the capture state `c`.
pub open spec fn finish_matches(
    c: DirectTraceCapture,
    s: DirectTraceCaptureSummary,
    capture_micros: u128,
    memory: Option<usize>,
) -> bool {
    &&& c.first_state == Some(s.audit.first_state)
    &&& c.previous_end matches Some((_, end)) && end == s.audit.final_state
    &&& s.audit.final_state.terminated
    &&& s.audit.block_count == c.metrics.block_count
    &&& s.audit.total_cycles == c.metrics.total_active_cycles
    &&& s.audit.trace_digest@ == sha3_256_of(sha3_absorbed(c.digest))
    &&& s.initial_ram == c.initial_ram
    &&& s.metrics == (DirectProvingMetrics {
        peak_tracked_ram_addresses: c.initial_ram@.len() as usize,
        initial_ram_registry_bytes: sat_mul(c.initial_ram@.len(), 16) as usize,
        capture_trace_micros: capture_micros,
        after_capture_physical_memory_bytes: memory,
        peak_observed_physical_memory_bytes: observed_peak(
            c.metrics.peak_observed_physical_memory_bytes,
            memory,
        ),
        ..c.metrics
    })
}

/// Result of a completed capture.
#[derive(Debug)]
pub struct DirectTraceCaptureSummary {
    pub audit: DirectTraceAudit,
    pub initial_ram: RamTable,
    pub metrics: DirectProvingMetrics,
}

impl DirectTraceCapture {
    /// A capture that has seen no block, with the start memory observation.
    pub fn new(
        preprocessing: &DirectChunkedPreprocessing,
        capacity: usize,
        start_memory: Option<usize>,
    ) -> (c: Self)
        ensures
            capture_wf(c),
            c.capacity == capacity,
            c.max_padded_trace_length == preprocessing.max_padded_trace_length,
            c.entry_address == preprocessing.entry_address,
            c.memory_layout == preprocessing.memory_layout,
            sha3_absorbed(c.digest) == crate::direct::audit_digest_prefix(*preprocessing),
            c.first_state is None,
            c.previous_end is None,
            c.initial_ram@ == Map::<u64, u64>::empty(),
            c.metrics == (DirectProvingMetrics {
                trace_passes: 2,
                start_physical_memory_bytes: start_memory,
                peak_observed_physical_memory_bytes: start_memory,
                ..zero_metrics()
            }),
    {
        let mut metrics = DirectProvingMetrics::default();
        metrics.trace_passes = 2;
        metrics.start_physical_memory_bytes = start_memory;
        metrics.peak_observed_physical_memory_bytes = start_memory;
        let mut digest = Sha3Stream::new();
        digest.update(DIRECT_CHUNKED_PROTOCOL_VERSION.as_bytes());
        digest.update(&preprocessing.program_digest);
        digest.update(&preprocessing.lookup_table_commitment);
        assert(sha3_absorbed(digest) =~= crate::direct::audit_digest_prefix(*preprocessing));
        DirectTraceCapture {
            capacity,
            max_padded_trace_length: preprocessing.max_padded_trace_length,
            entry_address: preprocessing.entry_address,
            memory_layout: preprocessing.memory_layout,
            digest,
            first_state: None,
            previous_end: None,
            initial_ram: RamTable::new(),
            metrics,
        }
    }

    /// Admits the next source block: it must be a valid source block, carry
    /// the next source index, continue the previous block (or start the
    /// trace at block 0, cycle 0, the entry PC and zero registers), and hold
    /// at most twice the capacity. Records its residency and a memory
    /// observation, and returns the re-chunker that splits it.
    pub fn begin_source_block(&mut self, source: TraceBlock, memory: Option<usize>) -> (r: Result<
        HardRechunker,
        DirectChunkedError,
    >)
        requires
            capture_wf(*old(self)),
            old(self).metrics.source_block_count < usize::MAX,
        ensures
            match source_admission_error(*old(self), source) {
                Some(e) => r matches Err(err) && err@ == e,
                None => r matches Ok(chunks) && {
                    &&& capture_wf(*final(self))
                    &&& rechunker_wf(chunks)
                    &&& chunks.original_block_index == source.block_index
                    &&& chunks.original_end == source.end_state
                    &&& chunks.capacity == old(self).capacity
                    &&& chunks.next_block_index == old(self).metrics.block_count
                    &&& chunks.next_global_cycle == source.global_cycle_start
                    &&& chunks.source_row_offset == 0
                    &&& chunks.next_start_state == source.start_state
                    &&& chunks.cycles@ == source.cycles@
                    &&& final(self).first_state == (if old(self).previous_end is Some {
                        old(self).first_state
                    } else {
                        Some(source.start_state)
                    })
                    &&& final(self).previous_end == old(self).previous_end
                    &&& sha3_absorbed(final(self).digest) == sha3_absorbed(old(self).digest)
                    &&& final(self).initial_ram == old(self).initial_ram
                    &&& final(self).capacity == old(self).capacity
                    &&& final(self).max_padded_trace_length == old(self).max_padded_trace_length
                    &&& final(self).entry_address == old(self).entry_address
                    &&& final(self).memory_layout == old(self).memory_layout
                    &&& final(self).metrics == admitted_source_metrics(
                        old(self).metrics,
                        source,
                        old(self).capacity,
                        memory,
                    )
                    &&& residency_bounded(old(self).metrics, old(self).capacity)
                        ==> residency_bounded(final(self).metrics, old(self).capacity)
                },
            },
    {
        validate_source_block(&source)?;
        let expected_source_index = self.metrics.source_block_count;
        if source.block_index != expected_source_index {
            let reason = text("expected sequential source block index ").concat(
                decimal_usize(expected_source_index).as_str(),
            );
            return Err(DirectChunkedError::InvalidBlock { block_index: source.block_index, reason });
        }
        match &self.previous_end {
            Some((previous_index, previous_state)) => {
                if !states_equal(previous_state, &source.start_state) {
                    return Err(
                        DirectChunkedError::DiscontinuousBlocks {
                            previous_block: *previous_index,
                            next_block: source.block_index,
                            reason: text("end_state does not equal the next start_state"),
                        },
                    );
                }
            },
            None => {
                if source.block_index != 0 || source.global_cycle_start != 0 {
                    return Err(
                        DirectChunkedError::InvalidBlock {
                            block_index: source.block_index,
                            reason: text("the direct trace must begin at block 0, global cycle 0"),
                        },
                    );
                }
                if source.start_state.pc != self.entry_address || !registers_all_zero(
                    &source.start_state.registers,
                ) {
                    return Err(
                        DirectChunkedError::InvalidBlock {
                            block_index: 0,
                            reason: text(
                                "D8 production trace does not start from the verifier-known entry PC and zero register state",
                            ),
                        },
                    );
                }
                self.first_state = Some(source.start_state);
            },
        }
        let maximum_source_cycles = saturating_mul(self.capacity, 2);
        if source.cycles.len() > maximum_source_cycles {
            let reason = text("soft source block has ").concat(
                decimal_usize(source.cycles.len()).as_str(),
            );
            let reason = reason.concat(" cycles, exceeding the bounded hard-rechunk limit ").concat(
                decimal_usize(maximum_source_cycles).as_str(),
            );
            return Err(DirectChunkedError::InvalidBlock { block_index: source.block_index, reason });
        }
        if source.active_cycles > self.capacity {
            self.metrics.observe_source_rechunk(source.cycles.len(), self.capacity, memory);
        } else {
            self.metrics.max_source_trace_cycles = max_usize(
                self.metrics.max_source_trace_cycles,
                source.cycles.len(),
            );
            self.metrics.observe_resident_blocks(&source, None, memory);
        }
        self.metrics.source_block_count = self.metrics.source_block_count + 1;
        Ok(rechunk_source_block(source, self.capacity, self.metrics.block_count))
    }

    /// Checks a re-chunked block for spooling: block validation, canonical
    /// RAM addresses, the cycle counter and the trace length maximum. An
    /// accepted block's RAM touches enter the first-touch table, its metadata
    /// enters the digest, and it becomes the previous block.
    pub fn admit_block(&mut self, block: &TraceBlock) -> (r: Result<(), DirectChunkedError>)
        requires
            capture_wf(*old(self)),
            old(self).first_state is Some,
        ensures
            match spool_block_error(*old(self), *block) {
                Some(e) => r matches Err(err) && err@ == e,
                None => r is Ok && {
                    &&& capture_wf(*final(self))
                    &&& final(self).previous_end == Some((block.block_index, block.end_state))
                    &&& final(self).first_state == old(self).first_state
                    &&& sha3_absorbed(final(self).digest) == sha3_absorbed(old(self).digest) + block_metadata_bytes(
                        *block,
                    )
                    &&& final(self).metrics == (DirectProvingMetrics {
                        block_count: (old(self).metrics.block_count + 1) as usize,
                        total_active_cycles: (old(self).metrics.total_active_cycles
                            + block.active_cycles) as usize,
                        ..old(self).metrics
                    })
                    &&& forall|a: u64|
                        #![trigger table_get(final(self).initial_ram@, a)]
                        table_get(final(self).initial_ram@, a) == match table_get(
                            old(self).initial_ram@,
                            a,
                        ) {
                            Some(v) => Some(v),
                            None => crate::ram::first_touch(
                                crate::ram::cycle_touches(block.cycles@),
                                a,
                            ),
                        }
                    &&& final(self).capacity == old(self).capacity
                    &&& final(self).max_padded_trace_length == old(self).max_padded_trace_length
                    &&& final(self).entry_address == old(self).entry_address
                    &&& final(self).memory_layout == old(self).memory_layout
                },
            },
    {
        let ghost old_self = *self;
        validate_block(block, self.capacity)?;
        let ghost ram_before = self.initial_ram@;
        let mut row: usize = 0;
        assert(block.cycles@.take(0) =~= Seq::<Cycle>::empty());
        while row < block.cycles.len()
            invariant
                0 <= row <= block.cycles@.len(),
                self.capacity == old_self.capacity,
                self.max_padded_trace_length == old_self.max_padded_trace_length,
                self.entry_address == old_self.entry_address,
                self.memory_layout == old_self.memory_layout,
                sha3_absorbed(self.digest) == sha3_absorbed(old_self.digest),
                self.first_state == old_self.first_state,
                self.previous_end == old_self.previous_end,
                self.metrics == old_self.metrics,
                old_self == *old(self),
                capture_wf(old_self),
                spec_validate_block(*block, self.capacity) is Ok,
                crate::ram::first_row_address_error(
                    self.memory_layout,
                    block.cycles@.take(row as int),
                ) is None,
                forall|a: u64|
                    #![trigger table_get(self.initial_ram@, a)]
                    table_get(self.initial_ram@, a) == match table_get(ram_before, a) {
                        Some(v) => Some(v),
                        None => crate::ram::first_touch(
                            crate::ram::cycle_touches(block.cycles@.take(row as int)),
                            a,
                        ),
                    },
            decreases block.cycles@.len() - row,
        {
            let ghost prev = crate::ram::cycle_touches(block.cycles@.take(row as int));
            proof {
                assert(block.cycles@.take(row + 1).drop_last() =~= block.cycles@.take(row as int));
                assert(block.cycles@.take(row + 1).last() == block.cycles@[row as int]);
            }
            match block.cycles[row].ram_access {
                RamAccess::Read { address, value } => {
                    let checked = crate::ram::check_ram_address(
                        &self.memory_layout,
                        block.block_index,
                        row,
                        address,
                    );
                    if let Err(e) = checked {
                        proof {
                            lemma_row_error_at(self.memory_layout, block.cycles@, row as nat);
                        }
                        return Err(e);
                    }
                    self.initial_ram.insert_if_absent(address, value);
                    proof {
                        let next = crate::ram::cycle_touches(block.cycles@.take(row + 1));
                        assert(next =~= prev.push((address, value)));
                        assert(next.drop_last() =~= prev);
                    }
                },
                RamAccess::Write { address, pre_value, post_value } => {
                    let checked = crate::ram::check_ram_address(
                        &self.memory_layout,
                        block.block_index,
                        row,
                        address,
                    );
                    if let Err(e) = checked {
                        proof {
                            lemma_row_error_at(self.memory_layout, block.cycles@, row as nat);
                        }
                        return Err(e);
                    }
                    self.initial_ram.insert_if_absent(address, pre_value);
                    proof {
                        let next = crate::ram::cycle_touches(block.cycles@.take(row + 1));
                        assert(next =~= prev.push((address, pre_value)));
                        assert(next.drop_last() =~= prev);
                    }
                },
                RamAccess::NoOp => {
                    proof {
                        let next = crate::ram::cycle_touches(block.cycles@.take(row + 1));
                        assert(next =~= prev);
                    }
                },
            }
            row = row + 1;
        }
        assert(block.cycles@.take(block.cycles@.len() as int) =~= block.cycles@);
        let mut bytes: Vec<u8> = Vec::new();
        hash_block_metadata(&mut bytes, block);
        assert(bytes@ =~= block_metadata_bytes(*block));
        self.digest.update(bytes.as_slice());
        if self.metrics.total_active_cycles > usize::MAX - block.active_cycles {
            return Err(
                DirectChunkedError::InvalidBlock {
                    block_index: block.block_index,
                    reason: text("cycle counter overflow"),
                },
            );
        }
        let total = self.metrics.total_active_cycles + block.active_cycles;
        if total > self.max_padded_trace_length {
            return Err(
                DirectChunkedError::TraceTooLong { observed: total, maximum: self.max_padded_trace_length },
            );
        }
        proof {
            reveal(crate::direct::block_error_reason);
        }
        self.metrics.total_active_cycles = total;
        self.previous_end = Some((block.block_index, block.end_state));
        self.metrics.block_count = self.metrics.block_count + 1;
        Ok(())
    }

    /// Records one spooled record of `encoded_len` bytes behind its 8-byte
    /// length prefix.
    pub fn record_spooled_block(&mut self, encoded_len: usize)
        ensures
            *final(self) == (DirectTraceCapture {
                metrics: DirectProvingMetrics {
                    spooled_trace_bytes: sat_add(
                        sat_add(old(self).metrics.spooled_trace_bytes as nat, 8),
                        encoded_len as nat,
                    ) as usize,
                    max_serialized_block_bytes: nat_max(
                        old(self).metrics.max_serialized_block_bytes as nat,
                        encoded_len as nat,
                    ) as usize,
                    ..old(self).metrics
                },
                ..*old(self)
            }),
    {
        self.metrics.spooled_trace_bytes = saturating_add(
            saturating_add(self.metrics.spooled_trace_bytes, 8),
            encoded_len,
        );
        self.metrics.max_serialized_block_bytes = max_usize(
            self.metrics.max_serialized_block_bytes,
            encoded_len,
        );
    }

    /// Completes the capture: the trace must be non-empty and end
    /// terminated. Records the RAM registry size, the capture time and a
    /// memory observation, and returns the audit with the trace digest.
    pub fn finish(self, capture_micros: u128, memory: Option<usize>) -> (r: Result<
        DirectTraceCaptureSummary,
        DirectChunkedError,
    >)
        requires
            capture_wf(self),
        ensures
            self.previous_end is None ==> (r matches Err(e) && e@ == ErrorModel::EmptyTrace),
            self.previous_end is Some && !self.previous_end->Some_0.1.terminated ==> (r matches Err(e)
                && e@ == (ErrorModel::InvalidBlock {
                block_index: (self.metrics.block_count - 1) as nat,
                reason: "D8 production trace is not terminated"@,
            })),
            self.previous_end is Some && self.previous_end->Some_0.1.terminated ==> (r matches Ok(s)
                && finish_matches(self, s, capture_micros, memory)),
    {
        let first_state = match self.first_state {
            Some(s) => s,
            None => {
                return Err(DirectChunkedError::EmptyTrace);
            },
        };
        let final_state = match self.previous_end {
            Some((_, s)) => s,
            None => {
                return Err(DirectChunkedError::EmptyTrace);
            },
        };
        if !final_state.terminated {
            return Err(
                DirectChunkedError::InvalidBlock {
                    block_index: self.metrics.block_count - 1,
                    reason: text("D8 production trace is not terminated"),
                },
            );
        }
        let mut metrics = self.metrics;
        let touched_addresses = self.initial_ram.len();
        metrics.peak_tracked_ram_addresses = touched_addresses;
        metrics.initial_ram_registry_bytes = saturating_mul(touched_addresses, 16);
        metrics.capture_trace_micros = capture_micros;
        metrics.after_capture_physical_memory_bytes = metrics.observe_memory(memory);
        let audit = DirectTraceAudit {
            block_count: metrics.block_count,
            total_cycles: metrics.total_active_cycles,
            first_state,
            final_state,
            trace_digest: self.digest.finalize(),
        };
        Ok(DirectTraceCaptureSummary { audit, initial_ram: self.initial_ram, metrics })
    }
}

/// A completed capture certifies one whole production trace: it starts at
/// global cycle 0 from the entry PC with every register zero, ends
/// terminated, holds at least one block, reports the block count and active
/// cycles it counted (within the padded trace length), and kept residency
/// within the two-pass bound: two resident blocks, source blocks of at most
/// twice the capacity and at most three capacities of resident cycles.
pub proof fn law_finished_capture_is_production_trace(
    c: DirectTraceCapture,
    s: DirectTraceCaptureSummary,
    capture_micros: u128,
    memory: Option<usize>,
)
    requires
        capture_wf(c),
        finish_matches(c, s, capture_micros, memory),
    ensures
        s.audit.first_state.global_cycle == 0,
        s.audit.first_state.pc == c.entry_address,
        all_registers_zero(s.audit.first_state.registers@),
        s.audit.final_state.terminated,
        s.audit.block_count >= 1,
        s.audit.block_count == s.metrics.block_count,
        s.audit.total_cycles == s.metrics.total_active_cycles,
        s.metrics.total_active_cycles <= c.max_padded_trace_length,
        s.metrics.trace_passes == 2,
        s.metrics.max_resident_trace_blocks <= 2,
        s.metrics.max_source_trace_cycles <= sat_mul(c.capacity as nat, 2),
        residency_bounded(s.metrics, c.capacity),
{
}

fn registers_all_zero(registers: &[i64; REGISTER_COUNT]) -> (r: bool)
    ensures
        r == all_registers_zero(registers@),
{
    let mut i: usize = 0;
    while i < REGISTER_COUNT
        invariant
            0 <= i <= REGISTER_COUNT,
            registers@.len() == REGISTER_COUNT,
            forall|j: int| 0 <= j < i ==> registers@[j] == 0,
        decreases REGISTER_COUNT - i,
    {
        if registers[i] != 0 {
            return false;
        }
        i = i + 1;
    }
    true
}

/// A row whose address check fails, after rows that all pass, is the first
/// address error of the cycles.
proof fn lemma_row_error_at(layout: MemoryLayout, cycles: Seq<Cycle>, row: nat)
    requires
        row < cycles.len(),
        crate::ram::first_row_address_error(layout, cycles.take(row as int)) is None,
        crate::ram::cycle_ram_address(cycles[row as int]) is Some,
        ram_address_error(layout, row as usize, crate::ram::cycle_ram_address(cycles[row as int])->Some_0) is Some,
    ensures
        crate::ram::first_row_address_error(layout, cycles) == ram_address_error(
            layout,
            row as usize,
            crate::ram::cycle_ram_address(cycles[row as int])->Some_0,
        ),
{
    assert(cycles.take(row + 1 as int).drop_last() =~= cycles.take(row as int));
    assert(cycles.take(row + 1 as int).last() == cycles[row as int]);
    crate::ram::lemma_row_error_persists(layout, cycles, row + 1);
}

} // verus!
