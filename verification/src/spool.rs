//! Records of the trace spool: boundary states with their registers as a
//! plain vector, blocks built from them, and the checks a replay makes when
//! it turns a record back into a block.

use vstd::prelude::*;
use vstd::string::StringExecFns;

use crate::relation::{DirectChunkedError, ErrorModel};
use crate::streaming::spool_error;
use crate::text::{dec, decimal, decimal_usize, text};
use crate::trace::{same_state, Cycle, MachineBoundaryState, TraceBlock, REGISTER_COUNT};

verus! {

/// A boundary state as a spool record holds it.
#[derive(Clone, Debug, PartialEq, Eq)]
pub struct SpoolBoundaryState {
    pub global_cycle: usize,
    pub emulator_trace_len: usize,
    pub pc: u64,
    pub registers: Vec<i64>,
    pub terminated: bool,
}

/// A trace block as a spool record holds it.
#[derive(Clone, Debug, PartialEq, Eq)]
pub struct SpoolTraceBlock {
    pub block_index: usize,
    pub global_cycle_start: usize,
    pub active_cycles: usize,
    pub target_size: usize,
    pub start_state: SpoolBoundaryState,
    pub end_state: SpoolBoundaryState,
    pub cycles: Vec<Cycle>,
    pub ended_at_tick_boundary: bool,
}

/// Why a spooled boundary state is not a machine state, if it is not: it
/// must hold exactly one value per register.
pub open spec fn spool_state_error(s: SpoolBoundaryState) -> Option<ErrorModel> {
    if s.registers@.len() != REGISTER_COUNT {
        Some(
            ErrorModel::InvalidProofShape(
                "D8 trace spool boundary contains "@ + dec(s.registers@.len())
                    + " registers instead of "@ + dec(REGISTER_COUNT as nat),
            ),
        )
    } else {
        None
    }
}

/// The machine state that a well-formed spooled boundary state stands for.
pub open spec fn state_matches_spool(m: MachineBoundaryState, s: SpoolBoundaryState) -> bool {
    &&& m.global_cycle == s.global_cycle
    &&& m.emulator_trace_len == s.emulator_trace_len
    &&& m.pc == s.pc
    &&& m.registers@ == s.registers@
    &&& m.terminated == s.terminated
}

impl SpoolBoundaryState {
    /// The spool record of a boundary state.
    pub fn from_state(state: &MachineBoundaryState) -> (s: Self)
        ensures
            state_matches_spool(*state, s),
    {
        let mut registers: Vec<i64> = Vec::new();
        let mut i: usize = 0;
        while i < REGISTER_COUNT
            invariant
                0 <= i <= REGISTER_COUNT,
                state.registers@.len() == REGISTER_COUNT,
                registers@ == state.registers@.take(i as int),
            decreases REGISTER_COUNT - i,
        {
            registers.push(state.registers[i]);
            assert(state.registers@.take(i + 1) =~= state.registers@.take(i as int).push(
                state.registers@[i as int],
            ));
            i = i + 1;
        }
        assert(state.registers@.take(REGISTER_COUNT as int) =~= state.registers@);
        SpoolBoundaryState {
            global_cycle: state.global_cycle,
            emulator_trace_len: state.emulator_trace_len,
            pc: state.pc,
            registers,
            terminated: state.terminated,
        }
    }

    /// The machine state of the record; fails unless it holds exactly one
    /// value per register.
    pub fn into_state(self) -> (r: Result<MachineBoundaryState, DirectChunkedError>)
        ensures
            match spool_state_error(self) {
                Some(e) => r matches Err(err) && err@ == e,
                None => r matches Ok(m) && state_matches_spool(m, self),
            },
    {
        if self.registers.len() != REGISTER_COUNT {
            let reason = text("D8 trace spool boundary contains ").concat(
                decimal_usize(self.registers.len()).as_str(),
            ).concat(" registers instead of ").concat(decimal_usize(REGISTER_COUNT).as_str());
            return Err(DirectChunkedError::InvalidProofShape(reason));
        }
        let mut registers = [0i64; REGISTER_COUNT];
        let mut i: usize = 0;
        while i < REGISTER_COUNT
            invariant
                0 <= i <= REGISTER_COUNT,
                self.registers@.len() == REGISTER_COUNT,
                registers@.len() == REGISTER_COUNT,
                forall|j: int| 0 <= j < i ==> registers@[j] == self.registers@[j],
            decreases REGISTER_COUNT - i,
        {
            registers[i] = self.registers[i];
            i = i + 1;
        }
        assert(registers@ =~= self.registers@);
        Ok(
            MachineBoundaryState {
                global_cycle: self.global_cycle,
                emulator_trace_len: self.emulator_trace_len,
                pc: self.pc,
                registers,
                terminated: self.terminated,
            },
        )
    }
}

/// The trace block that a spooled block stands for.
pub open spec fn block_matches_spool(b: TraceBlock, s: SpoolTraceBlock) -> bool {
    &&& b.block_index == s.block_index
    &&& b.global_cycle_start == s.global_cycle_start
    &&& b.active_cycles == s.active_cycles
    &&& b.target_size == s.target_size
    &&& state_matches_spool(b.start_state, s.start_state)
    &&& state_matches_spool(b.end_state, s.end_state)
    &&& b.cycles@ == s.cycles@
    &&& b.ended_at_tick_boundary == s.ended_at_tick_boundary
}

impl SpoolTraceBlock {
    /// The spool record of a block.
    pub fn from_block(block: TraceBlock) -> (s: Self)
        ensures
            block_matches_spool(block, s),
    {
        SpoolTraceBlock {
            block_index: block.block_index,
            global_cycle_start: block.global_cycle_start,
            active_cycles: block.active_cycles,
            target_size: block.target_size,
            start_state: SpoolBoundaryState::from_state(&block.start_state),
            end_state: SpoolBoundaryState::from_state(&block.end_state),
            cycles: block.cycles,
            ended_at_tick_boundary: block.ended_at_tick_boundary,
        }
    }

    /// The block of the record; fails when either boundary state does not
    /// hold exactly one value per register, the start state first.
    pub fn into_block(self) -> (r: Result<TraceBlock, DirectChunkedError>)
        ensures
            match spool_state_error(self.start_state) {
                Some(e) => r matches Err(err) && err@ == e,
                None => match spool_state_error(self.end_state) {
                    Some(e) => r matches Err(err) && err@ == e,
                    None => r matches Ok(b) && block_matches_spool(b, self),
                },
            },
    {
        let start_state = self.start_state.into_state()?;
        let end_state = self.end_state.into_state()?;
        Ok(
            TraceBlock {
                block_index: self.block_index,
                global_cycle_start: self.global_cycle_start,
                active_cycles: self.active_cycles,
                target_size: self.target_size,
                start_state,
                end_state,
                cycles: self.cycles,
                ended_at_tick_boundary: self.ended_at_tick_boundary,
            },
        )
    }
}

/// A spooled block reads back as the block that was spooled: the record of
/// a block passes the register-count checks of both boundary states, and
/// any block that the record stands for has the spooled block's indices,
/// boundary states, cycles and tick flag.
pub proof fn law_spool_block_round_trip(block: TraceBlock, record: SpoolTraceBlock, back: TraceBlock)
    requires
        block_matches_spool(block, record),
        block_matches_spool(back, record),
    ensures
        spool_state_error(record.start_state) is None,
        spool_state_error(record.end_state) is None,
        back.block_index == block.block_index,
        back.global_cycle_start == block.global_cycle_start,
        back.active_cycles == block.active_cycles,
        back.target_size == block.target_size,
        same_state(back.start_state, block.start_state),
        same_state(back.end_state, block.end_state),
        back.cycles@ == block.cycles@,
        back.ended_at_tick_boundary == block.ended_at_tick_boundary,
{
}

/// Why a spool record length read back from the spool is refused, if it
/// is: it must fit in memory and be at most the longest record captured.
pub open spec fn record_length_error(length: u64, max_serialized_block_bytes: usize) -> Option<
    ErrorModel,
> {
    if length > usize::MAX {
        Some(
            ErrorModel::InvalidProofShape(
                "D8 bounded trace spool failure: "@
                    + "out of range integral type conversion attempted"@,
            ),
        )
    } else if length > max_serialized_block_bytes {
        Some(
            ErrorModel::InvalidProofShape(
                "D8 trace spool record length "@ + dec(length as nat) + " exceeds captured maximum "@
                    + dec(max_serialized_block_bytes as nat),
            ),
        )
    } else {
        None
    }
}

/// Checks the length prefix of a spool record against the longest record
/// the capture wrote, and returns it as a byte count.
pub fn spool_record_length(length: u64, max_serialized_block_bytes: usize) -> (r: Result<
    usize,
    DirectChunkedError,
>)
    ensures
        match record_length_error(length, max_serialized_block_bytes) {
            Some(e) => r matches Err(err) && err@ == e,
            None => r == Ok::<usize, DirectChunkedError>(length as usize),
        },
{
    if length > usize::MAX as u64 {
        return Err(spool_error("out of range integral type conversion attempted"));
    }
    let bytes = length as usize;
    if bytes > max_serialized_block_bytes {
        let reason = text("D8 trace spool record length ").concat(decimal(length).as_str()).concat(
            " exceeds captured maximum ",
        ).concat(decimal_usize(max_serialized_block_bytes).as_str());
        return Err(DirectChunkedError::InvalidProofShape(reason));
    }
    Ok(bytes)
}

} // verus!
