//! The trace data that the direct seam consumes: machine boundary states,
//! trace blocks, and per-cycle access records. A cycle record holds, as plain
//! values, exactly what the seam reads from an executed instruction.

use vstd::prelude::*;

verus! {

/// Number of architectural plus virtual registers carried by a boundary state.
pub const REGISTER_COUNT: usize = 128;

/// Machine state at a block boundary.
#[derive(Clone, Copy, Debug, PartialEq, Eq)]
pub struct MachineBoundaryState {
    pub global_cycle: usize,
    pub emulator_trace_len: usize,
    pub pc: u64,
    pub registers: [i64; REGISTER_COUNT],
    pub terminated: bool,
}

/// Field-by-field equality of two boundary states.
pub open spec fn same_state(a: MachineBoundaryState, b: MachineBoundaryState) -> bool {
    &&& a.global_cycle == b.global_cycle
    &&& a.emulator_trace_len == b.emulator_trace_len
    &&& a.pc == b.pc
    &&& a.registers@ == b.registers@
    &&& a.terminated == b.terminated
}

/// Compares two boundary states field by field.
pub fn states_equal(a: &MachineBoundaryState, b: &MachineBoundaryState) -> (r: bool)
    ensures
        r == same_state(*a, *b),
{
    if a.global_cycle != b.global_cycle || a.emulator_trace_len != b.emulator_trace_len || a.pc
        != b.pc || a.terminated != b.terminated {
        return false;
    }
    let mut i: usize = 0;
    while i < REGISTER_COUNT
        invariant
            0 <= i <= REGISTER_COUNT,
            a.registers@.len() == REGISTER_COUNT,
            b.registers@.len() == REGISTER_COUNT,
            forall|j: int| 0 <= j < i ==> a.registers@[j] == b.registers@[j],
        decreases REGISTER_COUNT - i,
    {
        if a.registers[i] != b.registers[i] {
            return false;
        }
        i = i + 1;
    }
    assert(a.registers@ =~= b.registers@);
    true
}

/// The RAM access performed by one cycle.
#[derive(Clone, Copy, Debug, PartialEq, Eq)]
pub enum RamAccess {
    Read { address: u64, value: u64 },
    Write { address: u64, pre_value: u64, post_value: u64 },
    NoOp,
}

/// Lookup query of a cycle that is a final Jolt row: the table it reads
/// (`None` for an instruction without a lookup), the query and its operands,
/// the produced output and the table's materialized entry at the index.
#[derive(Clone, Copy, Debug, PartialEq, Eq)]
pub struct LookupQueryRecord {
    pub table_id: Option<u8>,
    pub lookup_index: u128,
    pub left_operand: u64,
    pub right_operand: u128,
    pub output: u64,
    pub table_entry: u64,
    pub interleaved_operands: bool,
}

/// One executed cycle, reduced to the values the direct seam reads.
#[derive(Clone, Debug, PartialEq, Eq)]
pub struct Cycle {
    /// `(register, value)` read through rs1, if any.
    pub rs1_read: Option<(u8, u64)>,
    /// `(register, value)` read through rs2, if any.
    pub rs2_read: Option<(u8, u64)>,
    /// `(register, pre_value, post_value)` written through rd, if any.
    pub rd_write: Option<(u8, u64, u64)>,
    pub ram_access: RamAccess,
    /// The lookup query of a final Jolt row; `None` when the cycle is not one.
    pub lookup: Option<LookupQueryRecord>,
    /// Textual identity of the cycle, absorbed into the streaming digest.
    pub trace_text: Vec<u8>,
}

impl Cycle {
    /// The no-op cycle: no register or RAM access, an empty lookup.
    pub fn no_op() -> (c: Cycle)
        ensures
            c.rs1_read is None,
            c.rs2_read is None,
            c.rd_write is None,
            c.ram_access == RamAccess::NoOp,
            c.lookup == Some(
                LookupQueryRecord {
                    table_id: None,
                    lookup_index: 0,
                    left_operand: 0,
                    right_operand: 0,
                    output: 0,
                    table_entry: 0,
                    interleaved_operands: false,
                },
            ),
            c.trace_text@ == seq![78u8, 111u8, 79u8, 112u8],
    {
        Cycle {
            rs1_read: None,
            rs2_read: None,
            rd_write: None,
            ram_access: RamAccess::NoOp,
            lookup: Some(
                LookupQueryRecord {
                    table_id: None,
                    lookup_index: 0,
                    left_operand: 0,
                    right_operand: 0,
                    output: 0,
                    table_entry: 0,
                    interleaved_operands: false,
                },
            ),
            trace_text: vec![78u8, 111u8, 79u8, 112u8],
        }
    }
}

/// A contiguous block of executed cycles with its boundary states.
#[derive(Clone, Debug, PartialEq, Eq)]
pub struct TraceBlock {
    pub block_index: usize,
    pub global_cycle_start: usize,
    pub active_cycles: usize,
    pub target_size: usize,
    pub start_state: MachineBoundaryState,
    pub end_state: MachineBoundaryState,
    pub cycles: Vec<Cycle>,
    pub ended_at_tick_boundary: bool,
}

} // verus!
