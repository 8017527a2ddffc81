//! Block-native lookup witnesses: the lookup query of every final trace row,
//! checked against the table's materialized entry, padded to the fixed
//! circuit shape.

use vstd::prelude::*;
use vstd::string::StringExecFns;

use crate::math::{is_pow2, is_power_of_two};
use crate::relation::{DirectChunkedError, ErrorModel, RelationMap};
use crate::direct::DirectChunkedPreprocessing;
use crate::text::{dec, decimal, decimal_u128, decimal_usize, text};
use crate::trace::{Cycle, TraceBlock};

verus! {

/// Table id recorded for a row without a lookup table: one past the last
/// table of the fixed registry.
pub const NO_LOOKUP_TABLE_ID: u8 = 40;

/// Lookup-facing values derived from one final trace row.
#[derive(Clone, Copy, Debug, PartialEq, Eq, Structural)]
pub struct DirectLookupCycleWitness {
    pub active: bool,
    pub table_id: u8,
    pub lookup_index: u128,
    pub left_operand: u64,
    pub right_operand: u128,
    pub output: u64,
    pub raf_identity_path: bool,
}

/// The canonical inactive (padding) lookup row.
pub open spec fn zero_lookup_cycle() -> DirectLookupCycleWitness {
    DirectLookupCycleWitness {
        active: false,
        table_id: NO_LOOKUP_TABLE_ID,
        lookup_index: 0,
        left_operand: 0,
        right_operand: 0,
        output: 0,
        raf_identity_path: false,
    }
}

impl Default for DirectLookupCycleWitness {
    fn default() -> (w: Self)
        ensures
            w == zero_lookup_cycle(),
    {
        DirectLookupCycleWitness {
            active: false,
            table_id: NO_LOOKUP_TABLE_ID,
            lookup_index: 0,
            left_operand: 0,
            right_operand: 0,
            output: 0,
            raf_identity_path: false,
        }
    }
}

/// The lookup witness of a cycle, or why the cycle has none.
pub open spec fn spec_lookup_cycle(cycle: Cycle) -> Result<DirectLookupCycleWitness, Seq<char>> {
    match cycle.lookup {
        None => Err("lookup cycle is not a final Jolt row"@),
        Some(q) => match q.table_id {
            Some(t) => if q.table_entry != q.output {
                Err(
                    "lookup implementation/table mismatch: table "@ + dec(t as nat) + ", index "@
                        + dec(q.lookup_index as nat) + ", output "@ + dec(q.output as nat)
                        + ", expected "@ + dec(q.table_entry as nat),
                )
            } else {
                Ok(
                    DirectLookupCycleWitness {
                        active: true,
                        table_id: t,
                        lookup_index: q.lookup_index,
                        left_operand: q.left_operand,
                        right_operand: q.right_operand,
                        output: q.output,
                        raf_identity_path: !q.interleaved_operands,
                    },
                )
            },
            None => if q.output != 0 {
                Err("cycle without a lookup table has non-zero lookup output"@)
            } else {
                Ok(
                    DirectLookupCycleWitness {
                        active: true,
                        table_id: NO_LOOKUP_TABLE_ID,
                        lookup_index: q.lookup_index,
                        left_operand: q.left_operand,
                        right_operand: q.right_operand,
                        output: q.output,
                        raf_identity_path: !q.interleaved_operands,
                    },
                )
            },
        },
    }
}

impl DirectLookupCycleWitness {
    /// The lookup witness of a cycle: a final row whose output is the table
    /// entry at its index (or zero when it reads no table).
    pub fn from_cycle(cycle: &Cycle, block_index: usize) -> (r: Result<Self, DirectChunkedError>)
        ensures
            match spec_lookup_cycle(*cycle) {
                Ok(w) => r == Ok::<DirectLookupCycleWitness, DirectChunkedError>(w),
                Err(reason) => r matches Err(e) && e@ == ErrorModel::InvalidBlock {
                    block_index: block_index as nat,
                    reason,
                },
            },
            r matches Ok(w) ==> (cycle.lookup matches Some(q) && {
                &&& w.active
                &&& w.lookup_index == q.lookup_index
                &&& w.left_operand == q.left_operand
                &&& w.right_operand == q.right_operand
                &&& w.output == q.output
                &&& w.raf_identity_path == !q.interleaved_operands
            }),
    {
        let q = match cycle.lookup {
            None => {
                return Err(
                    DirectChunkedError::InvalidBlock {
                        block_index,
                        reason: text("lookup cycle is not a final Jolt row"),
                    },
                );
            },
            Some(q) => q,
        };
        let table_id = match q.table_id {
            Some(t) => {
                if q.table_entry != q.output {
                    let reason = text("lookup implementation/table mismatch: table ").concat(
                        decimal(t as u64).as_str(),
                    );
                    let reason = reason.concat(", index ").concat(
                        decimal_u128(q.lookup_index).as_str(),
                    );
                    let reason = reason.concat(", output ").concat(decimal(q.output).as_str());
                    let reason = reason.concat(", expected ").concat(
                        decimal(q.table_entry).as_str(),
                    );
                    return Err(DirectChunkedError::InvalidBlock { block_index, reason });
                }
                t
            },
            None => {
                if q.output != 0 {
                    return Err(
                        DirectChunkedError::InvalidBlock {
                            block_index,
                            reason: text("cycle without a lookup table has non-zero lookup output"),
                        },
                    );
                }
                NO_LOOKUP_TABLE_ID
            },
        };
        Ok(
            DirectLookupCycleWitness {
                active: true,
                table_id,
                lookup_index: q.lookup_index,
                left_operand: q.left_operand,
                right_operand: q.right_operand,
                output: q.output,
                raf_identity_path: !q.interleaved_operands,
            },
        )
    }
}

/// Fixed-shape lookup witness of a block.
#[derive(Clone, Debug, PartialEq, Eq)]
pub struct DirectLookupBlockWitness {
    pub block_index: usize,
    pub global_cycle_start: usize,
    pub active_cycles: usize,
    pub cycle_capacity: usize,
    pub terminated: bool,
    pub cycles: Vec<DirectLookupCycleWitness>,
}

/// The lookup witnesses of the cycles, or the first failure (the index of
/// the failing cycle and its reason).
pub open spec fn spec_lookup_cycles(cycles: Seq<Cycle>) -> Result<
    Seq<DirectLookupCycleWitness>,
    Seq<char>,
>
    decreases cycles.len(),
{
    if cycles.len() == 0 {
        Ok(Seq::empty())
    } else {
        match spec_lookup_cycles(cycles.drop_last()) {
            Err(e) => Err(e),
            Ok(ws) => match spec_lookup_cycle(cycles.last()) {
                Err(e) => Err(e),
                Ok(w) => Ok(ws.push(w)),
            },
        }
    }
}

/// A block fits the fixed power-of-two lookup circuit shape.
pub open spec fn lookup_block_fits(block: TraceBlock, cycle_capacity: usize) -> bool {
    &&& block.active_cycles == block.cycles@.len()
    &&& block.active_cycles != 0
    &&& block.active_cycles <= cycle_capacity
    &&& is_pow2(cycle_capacity as nat)
}

proof fn lemma_lookup_error_persists(cycles: Seq<Cycle>, n: nat)
    requires
        n <= cycles.len(),
        spec_lookup_cycles(cycles.take(n as int)) is Err,
    ensures
        spec_lookup_cycles(cycles) == spec_lookup_cycles(cycles.take(n as int)),
    decreases cycles.len() - n,
{
    if n < cycles.len() {
        assert(cycles.take(n + 1 as int).drop_last() =~= cycles.take(n as int));
        lemma_lookup_error_persists(cycles, n + 1);
    } else {
        assert(cycles.take(n as int) =~= cycles);
    }
}

impl DirectLookupBlockWitness {
    /// Derives the fixed-shape lookup witness of a block, padded with
    /// canonical inactive rows up to the capacity.
    pub fn from_trace_block(block: &TraceBlock, cycle_capacity: usize) -> (r: Result<
        Self,
        DirectChunkedError,
    >)
        ensures
            !lookup_block_fits(*block, cycle_capacity) ==> (r matches Err(e) && e@
                == ErrorModel::InvalidBlock {
                block_index: block.block_index as nat,
                reason: "lookup block does not fit the fixed power-of-two circuit shape"@,
            }),
            lookup_block_fits(*block, cycle_capacity) ==> match spec_lookup_cycles(block.cycles@) {
                Err(reason) => r matches Err(e) && e@ == ErrorModel::InvalidBlock {
                    block_index: block.block_index as nat,
                    reason,
                },
                Ok(ws) => r matches Ok(w) && {
                    &&& w.block_index == block.block_index
                    &&& w.global_cycle_start == block.global_cycle_start
                    &&& w.active_cycles == block.active_cycles
                    &&& w.cycle_capacity == cycle_capacity
                    &&& w.terminated == block.end_state.terminated
                    &&& w.cycles@ == ws + Seq::new(
                        (cycle_capacity - block.active_cycles) as nat,
                        |i: int| zero_lookup_cycle(),
                    )
                },
            },
    {
        if block.active_cycles != block.cycles.len() || block.active_cycles == 0
            || block.active_cycles > cycle_capacity || !is_power_of_two(cycle_capacity) {
            return Err(
                DirectChunkedError::InvalidBlock {
                    block_index: block.block_index,
                    reason: text("lookup block does not fit the fixed power-of-two circuit shape"),
                },
            );
        }
        let mut cycles: Vec<DirectLookupCycleWitness> = Vec::new();
        let mut i: usize = 0;
        while i < block.cycles.len()
            invariant
                0 <= i <= block.cycles@.len(),
                lookup_block_fits(*block, cycle_capacity),
                spec_lookup_cycles(block.cycles@.take(i as int)) == Ok::<
                    Seq<DirectLookupCycleWitness>,
                    Seq<char>,
                >(cycles@),
            decreases block.cycles@.len() - i,
        {
            proof {
                assert(block.cycles@.take(i + 1).drop_last() =~= block.cycles@.take(i as int));
                assert(block.cycles@.take(i + 1).last() == block.cycles@[i as int]);
            }
            let w = DirectLookupCycleWitness::from_cycle(&block.cycles[i], block.block_index);
            match w {
                Err(e) => {
                    proof {
                        lemma_lookup_error_persists(block.cycles@, (i + 1) as nat);
                    }
                    return Err(e);
                },
                Ok(w) => {
                    cycles.push(w);
                },
            }
            i = i + 1;
        }
        assert(block.cycles@.take(block.cycles@.len() as int) =~= block.cycles@);
        proof {
            lemma_lookup_cycles_len(block.cycles@);
        }
        let ghost active = cycles@;
        while cycles.len() < cycle_capacity
            invariant
                active.len() <= cycles@.len() <= cycle_capacity,
                cycles@ == active + Seq::new(
                    (cycles@.len() - active.len()) as nat,
                    |i: int| zero_lookup_cycle(),
                ),
            decreases cycle_capacity - cycles@.len(),
        {
            cycles.push(DirectLookupCycleWitness::default());
            assert(cycles@ =~= active + Seq::new(
                (cycles@.len() - active.len()) as nat,
                |i: int| zero_lookup_cycle(),
            ));
        }
        proof {
            assert(active.len() == block.cycles@.len()) by {
                lemma_lookup_cycles_len(block.cycles@);
            }
        }
        Ok(
            DirectLookupBlockWitness {
                block_index: block.block_index,
                global_cycle_start: block.global_cycle_start,
                active_cycles: block.active_cycles,
                cycle_capacity,
                terminated: block.end_state.terminated,
                cycles,
            },
        )
    }
}

/// A lookup witness is the cycle's own lookup query: a final row is accepted
/// exactly when its output is the materialized table entry (or zero when it
/// reads no table), and its witness is active and carries the row's lookup
/// index, left and right operands and output unchanged, the row's table (the
/// reserved id when it has none), and the identity path exactly when the
/// operands are not interleaved.
pub proof fn law_lookup_witness_carries_the_query(cycle: Cycle)
    ensures
        spec_lookup_cycle(cycle) is Ok <==> (cycle.lookup matches Some(q) && match q.table_id {
            Some(_) => q.table_entry == q.output,
            None => q.output == 0,
        }),
        spec_lookup_cycle(cycle) matches Ok(w) ==> (cycle.lookup matches Some(q) && {
            &&& w.active
            &&& w.lookup_index == q.lookup_index
            &&& w.left_operand == q.left_operand
            &&& w.right_operand == q.right_operand
            &&& w.output == q.output
            &&& w.table_id == match q.table_id {
                Some(t) => t,
                None => NO_LOOKUP_TABLE_ID,
            }
            &&& w.raf_identity_path == !q.interleaved_operands
        }),
{
}

/// The lookup rows of a block, one per cycle and in order: the cycles are
/// accepted exactly when each of them is, and row `i` is the witness of
/// cycle `i`, carrying that cycle's lookup query.
pub proof fn law_lookup_rows_follow_the_cycles(cycles: Seq<Cycle>)
    ensures
        spec_lookup_cycles(cycles) is Ok <==> forall|i: int|
            0 <= i < cycles.len() ==> #[trigger] spec_lookup_cycle(cycles[i]) is Ok,
        spec_lookup_cycles(cycles) matches Ok(ws) ==> {
            &&& ws.len() == cycles.len()
            &&& forall|i: int|
                0 <= i < cycles.len() ==> spec_lookup_cycle(#[trigger] cycles[i]) == Ok::<
                    DirectLookupCycleWitness,
                    Seq<char>,
                >(ws[i])
        },
    decreases cycles.len(),
{
    if cycles.len() > 0 {
        let prefix = cycles.drop_last();
        law_lookup_rows_follow_the_cycles(prefix);
        assert forall|i: int| 0 <= i < prefix.len() implies prefix[i] == cycles[i] by {}
        if spec_lookup_cycles(cycles) is Ok {
            assert(spec_lookup_cycles(prefix) is Ok);
        }
        if forall|i: int| 0 <= i < cycles.len() ==> #[trigger] spec_lookup_cycle(cycles[i]) is Ok {
            assert(spec_lookup_cycle(cycles[cycles.len() - 1]) is Ok);
            assert forall|i: int| 0 <= i < prefix.len() implies #[trigger] spec_lookup_cycle(
                prefix[i],
            ) is Ok by {
                assert(spec_lookup_cycle(cycles[i]) is Ok);
            }
        }
        if spec_lookup_cycles(cycles) is Err && spec_lookup_cycles(prefix) is Ok {
            assert(spec_lookup_cycle(cycles[cycles.len() - 1]) is Err);
        }
        if spec_lookup_cycles(prefix) is Err {
            let j = choose|j: int| 0 <= j < prefix.len() && spec_lookup_cycle(prefix[j]) is Err;
            assert(spec_lookup_cycle(cycles[j]) is Err);
        }
    }
}

/// Successful lookup derivation yields one witness per cycle.
pub proof fn lemma_lookup_cycles_len(cycles: Seq<Cycle>)
    ensures
        spec_lookup_cycles(cycles) matches Ok(ws) ==> ws.len() == cycles.len(),
    decreases cycles.len(),
{
    if cycles.len() > 0 {
        lemma_lookup_cycles_len(cycles.drop_last());
    }
}

/// Public closure statement for a lookup-only proof.
/// The outcome of checking one lookup block at `position` of a sequence of
/// `count` blocks after `total` earlier active cycles: the new total, or why
/// the block does not continue the sequence.
pub open spec fn lookup_sequence_step(
    max_padded_trace_length: usize,
    capacity: usize,
    count: nat,
    position: nat,
    total: nat,
    block: DirectLookupBlockWitness,
) -> Result<nat, ErrorModel> {
    let is_last = position + 1 == count;
    if block.cycle_capacity != capacity || block.block_index != position {
        Err(
            ErrorModel::InvalidBlock {
                block_index: block.block_index as nat,
                reason: "expected block "@ + dec(position) + " with fixed lookup capacity "@ + dec(
                    capacity as nat,
                ),
            },
        )
    } else if block.global_cycle_start != total {
        Err(
            ErrorModel::DiscontinuousBlocks {
                previous_block: if position == 0 {
                    0
                } else {
                    (position - 1) as nat
                },
                next_block: position,
                reason: "lookup global cycle boundary is discontinuous"@,
            },
        )
    } else if block.terminated != is_last {
        Err(
            ErrorModel::InvalidBlock {
                block_index: block.block_index as nat,
                reason: if is_last {
                    "final lookup block must terminate the trace"@
                } else {
                    "only the final lookup block may terminate the trace"@
                },
            },
        )
    } else if total + block.active_cycles > usize::MAX {
        Err(
            ErrorModel::InvalidBlock {
                block_index: block.block_index as nat,
                reason: "lookup cycle counter overflow"@,
            },
        )
    } else if total + block.active_cycles > max_padded_trace_length {
        Err(
            ErrorModel::TraceTooLong {
                observed: (total + block.active_cycles) as nat,
                maximum: max_padded_trace_length as nat,
            },
        )
    } else {
        Ok((total + block.active_cycles) as nat)
    }
}

/// The active cycles of the first `k` blocks, or the first block that does
/// not continue the sequence.
pub open spec fn lookup_sequence_scan(
    max_padded_trace_length: usize,
    capacity: usize,
    blocks: Seq<DirectLookupBlockWitness>,
    k: nat,
) -> Result<nat, ErrorModel>
    decreases k,
{
    if k == 0 {
        Ok(0)
    } else {
        match lookup_sequence_scan(max_padded_trace_length, capacity, blocks, (k - 1) as nat) {
            Err(e) => Err(e),
            Ok(total) => lookup_sequence_step(
                max_padded_trace_length,
                capacity,
                blocks.len(),
                (k - 1) as nat,
                total,
                blocks[k - 1],
            ),
        }
    }
}

/// The block count and total active cycles of a sequence of lookup blocks,
/// or why it is not a contiguous trace of fixed-capacity blocks ending in
/// the terminating block.
pub open spec fn lookup_sequence(
    max_padded_trace_length: usize,
    capacity: usize,
    blocks: Seq<DirectLookupBlockWitness>,
) -> Result<(nat, nat), ErrorModel> {
    if blocks.len() == 0 {
        Err(ErrorModel::EmptyTrace)
    } else if capacity == 0 || !is_pow2(capacity as nat) {
        Err(
            ErrorModel::InvalidConfiguration(
                "direct lookup capacity must be a non-zero power of two"@,
            ),
        )
    } else {
        match lookup_sequence_scan(max_padded_trace_length, capacity, blocks, blocks.len()) {
            Err(e) => Err(e),
            Ok(total) => Ok((blocks.len(), total)),
        }
    }
}

/// Active cycles of the first `k` blocks.
pub open spec fn lookup_active_sum(blocks: Seq<DirectLookupBlockWitness>, k: nat) -> nat
    decreases k,
{
    if k == 0 {
        0
    } else {
        lookup_active_sum(blocks, (k - 1) as nat) + blocks[k - 1].active_cycles as nat
    }
}

proof fn lemma_lookup_scan_ok(
    max_padded_trace_length: usize,
    capacity: usize,
    blocks: Seq<DirectLookupBlockWitness>,
    k: nat,
)
    requires
        k <= blocks.len(),
        lookup_sequence_scan(max_padded_trace_length, capacity, blocks, k) is Ok,
    ensures
        lookup_sequence_scan(max_padded_trace_length, capacity, blocks, k)->Ok_0
            == lookup_active_sum(blocks, k),
        lookup_active_sum(blocks, k) <= max_padded_trace_length,
        forall|i: int|
            0 <= i < k ==> {
                &&& (#[trigger] blocks[i]).block_index == i
                &&& blocks[i].cycle_capacity == capacity
                &&& blocks[i].global_cycle_start == lookup_active_sum(blocks, i as nat)
                &&& blocks[i].terminated == (i == blocks.len() - 1)
            },
    decreases k,
{
    if k > 0 {
        lemma_lookup_scan_ok(max_padded_trace_length, capacity, blocks, (k - 1) as nat);
    }
}

/// An accepted sequence of lookup blocks is one contiguous trace: block `i`
/// has index `i` and the fixed capacity, starts at the global cycle where
/// the blocks before it end, only the last block terminates, and the
/// reported total is the sum of the active cycles, within the padded trace
/// length.
pub proof fn law_lookup_sequence_contiguous(
    max_padded_trace_length: usize,
    capacity: usize,
    blocks: Seq<DirectLookupBlockWitness>,
)
    requires
        lookup_sequence(max_padded_trace_length, capacity, blocks) is Ok,
    ensures
        lookup_sequence(max_padded_trace_length, capacity, blocks)->Ok_0 == (
            blocks.len(),
            lookup_active_sum(blocks, blocks.len()),
        ),
        lookup_active_sum(blocks, blocks.len()) <= max_padded_trace_length,
        blocks.len() > 0,
        forall|i: int|
            0 <= i < blocks.len() ==> {
                &&& (#[trigger] blocks[i]).block_index == i
                &&& blocks[i].cycle_capacity == capacity
                &&& blocks[i].global_cycle_start == lookup_active_sum(blocks, i as nat)
                &&& blocks[i].terminated == (i == blocks.len() - 1)
            },
{
    lemma_lookup_scan_ok(max_padded_trace_length, capacity, blocks, blocks.len());
}

/// The blocks of a contiguous trace of fixed-capacity lookup blocks: block
/// `i` has index `i` and the capacity, starts where the blocks before it end,
/// and only the last one terminates.
pub open spec fn lookup_blocks_contiguous(
    capacity: usize,
    blocks: Seq<DirectLookupBlockWitness>,
) -> bool {
    forall|i: int|
        0 <= i < blocks.len() ==> {
            &&& (#[trigger] blocks[i]).block_index == i
            &&& blocks[i].cycle_capacity == capacity
            &&& blocks[i].global_cycle_start == lookup_active_sum(blocks, i as nat)
            &&& blocks[i].terminated == (i == blocks.len() - 1)
        }
}

proof fn lemma_lookup_active_sum_monotone(blocks: Seq<DirectLookupBlockWitness>, i: nat, k: nat)
    requires
        i <= k,
    ensures
        lookup_active_sum(blocks, i) <= lookup_active_sum(blocks, k),
    decreases k,
{
    if i < k {
        lemma_lookup_active_sum_monotone(blocks, i, (k - 1) as nat);
    }
}

proof fn lemma_lookup_scan_accepts(
    max_padded_trace_length: usize,
    capacity: usize,
    blocks: Seq<DirectLookupBlockWitness>,
    k: nat,
)
    requires
        k <= blocks.len(),
        lookup_blocks_contiguous(capacity, blocks),
        lookup_active_sum(blocks, k) <= max_padded_trace_length,
    ensures
        lookup_sequence_scan(max_padded_trace_length, capacity, blocks, k) == Ok::<
            nat,
            ErrorModel,
        >(lookup_active_sum(blocks, k)),
    decreases k,
{
    if k > 0 {
        lemma_lookup_active_sum_monotone(blocks, (k - 1) as nat, k);
        lemma_lookup_scan_accepts(max_padded_trace_length, capacity, blocks, (k - 1) as nat);
        assert(blocks[k - 1].block_index == k - 1);
    }
}

/// A sequence of lookup blocks is accepted exactly when it is non-empty, the
/// capacity is a non-zero power of two, the blocks form one contiguous trace
/// of fixed-capacity blocks ending in the terminating block, and its active
/// cycles fit the padded trace length; it is then answered with the block
/// count and that total.
pub proof fn law_lookup_sequence_accepts_contiguous_traces(
    max_padded_trace_length: usize,
    capacity: usize,
    blocks: Seq<DirectLookupBlockWitness>,
)
    ensures
        lookup_sequence(max_padded_trace_length, capacity, blocks) is Ok <==> {
            &&& blocks.len() > 0
            &&& capacity != 0
            &&& is_pow2(capacity as nat)
            &&& lookup_blocks_contiguous(capacity, blocks)
            &&& lookup_active_sum(blocks, blocks.len()) <= max_padded_trace_length
        },
        lookup_sequence(max_padded_trace_length, capacity, blocks) is Ok ==> lookup_sequence(
            max_padded_trace_length,
            capacity,
            blocks,
        )->Ok_0 == (blocks.len(), lookup_active_sum(blocks, blocks.len())),
{
    if lookup_sequence(max_padded_trace_length, capacity, blocks) is Ok {
        law_lookup_sequence_contiguous(max_padded_trace_length, capacity, blocks);
    }
    if blocks.len() > 0 && capacity != 0 && is_pow2(capacity as nat) && lookup_blocks_contiguous(
        capacity,
        blocks,
    ) && lookup_active_sum(blocks, blocks.len()) <= max_padded_trace_length {
        lemma_lookup_scan_accepts(max_padded_trace_length, capacity, blocks, blocks.len());
    }
}

/// Checks the blocks of a sequence of lookup subclaims: each has the fixed
/// capacity and its position as index, starts where the previous ended, only
/// the last terminates, and the total stays within the padded trace length.
/// Returns the block count and the total active cycles.
pub fn validate_lookup_subclaim_sequence(
    preprocessing: &DirectChunkedPreprocessing,
    capacity: usize,
    blocks: &[DirectLookupBlockWitness],
) -> (r: Result<(usize, usize), DirectChunkedError>)
    ensures
        match lookup_sequence(preprocessing.max_padded_trace_length, capacity, blocks@) {
            Ok((count, total)) => r matches Ok((c, t)) && c == count && t == total,
            Err(e) => r matches Err(err) && err@ == e,
        },
{
    let ghost max = preprocessing.max_padded_trace_length;
    if blocks.len() == 0 {
        return Err(DirectChunkedError::EmptyTrace);
    }
    if capacity == 0 || !is_power_of_two(capacity) {
        return Err(
            DirectChunkedError::InvalidConfiguration(
                text("direct lookup capacity must be a non-zero power of two"),
            ),
        );
    }
    let mut total: usize = 0;
    let mut position: usize = 0;
    while position < blocks.len()
        invariant
            0 <= position <= blocks@.len(),
            blocks@.len() > 0,
            capacity != 0,
            is_pow2(capacity as nat),
            max == preprocessing.max_padded_trace_length,
            lookup_sequence_scan(max, capacity, blocks@, position as nat) == Ok::<nat, ErrorModel>(
                total as nat,
            ),
        decreases blocks@.len() - position,
    {
        let block = &blocks[position];
        proof {
            assert(blocks@[position as int] == *block);
        }
        if block.cycle_capacity != capacity || block.block_index != position {
            let reason = text("expected block ").concat(decimal_usize(position).as_str()).concat(
                " with fixed lookup capacity ",
            ).concat(decimal_usize(capacity).as_str());
            proof {
                lemma_lookup_scan_error_persists(max, capacity, blocks@, (position + 1) as nat);
            }
            return Err(DirectChunkedError::InvalidBlock { block_index: block.block_index, reason });
        }
        if block.global_cycle_start != total {
            proof {
                lemma_lookup_scan_error_persists(max, capacity, blocks@, (position + 1) as nat);
            }
            return Err(
                DirectChunkedError::DiscontinuousBlocks {
                    previous_block: if position == 0 {
                        0
                    } else {
                        position - 1
                    },
                    next_block: position,
                    reason: text("lookup global cycle boundary is discontinuous"),
                },
            );
        }
        let is_last = position + 1 == blocks.len();
        if block.terminated != is_last {
            let reason = if is_last {
                text("final lookup block must terminate the trace")
            } else {
                text("only the final lookup block may terminate the trace")
            };
            proof {
                lemma_lookup_scan_error_persists(max, capacity, blocks@, (position + 1) as nat);
            }
            return Err(DirectChunkedError::InvalidBlock { block_index: block.block_index, reason });
        }
        if total > usize::MAX - block.active_cycles {
            proof {
                lemma_lookup_scan_error_persists(max, capacity, blocks@, (position + 1) as nat);
            }
            return Err(
                DirectChunkedError::InvalidBlock {
                    block_index: block.block_index,
                    reason: text("lookup cycle counter overflow"),
                },
            );
        }
        total = total + block.active_cycles;
        if total > preprocessing.max_padded_trace_length {
            proof {
                lemma_lookup_scan_error_persists(max, capacity, blocks@, (position + 1) as nat);
            }
            return Err(
                DirectChunkedError::TraceTooLong {
                    observed: total,
                    maximum: preprocessing.max_padded_trace_length,
                },
            );
        }
        position = position + 1;
    }
    Ok((blocks.len(), total))
}

proof fn lemma_lookup_scan_error_persists(
    max_padded_trace_length: usize,
    capacity: usize,
    blocks: Seq<DirectLookupBlockWitness>,
    k: nat,
)
    requires
        k <= blocks.len(),
        lookup_sequence_scan(max_padded_trace_length, capacity, blocks, k) is Err,
    ensures
        lookup_sequence_scan(max_padded_trace_length, capacity, blocks, blocks.len())
            == lookup_sequence_scan(max_padded_trace_length, capacity, blocks, k),
    decreases blocks.len() - k,
{
    if k < blocks.len() {
        lemma_lookup_scan_error_persists(max_padded_trace_length, capacity, blocks, k + 1);
    }
}

#[derive(Clone, Debug, PartialEq, Eq)]
pub struct DirectLookupStageStatement {
    pub program_digest: [u8; 32],
    pub lookup_table_commitment: [u8; 32],
    pub block_count: usize,
    pub total_cycles: usize,
    pub final_global_cycle: usize,
    pub terminated: bool,
    pub relations: RelationMap,
}

} // verus!
