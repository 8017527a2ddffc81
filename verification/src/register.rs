//! Block-native register relation: register read/write witnesses extracted
//! from trace cycles, checked against and applied to the complete register
//! boundary state.

use vstd::prelude::*;
use vstd::string::StringExecFns;

use crate::direct::DirectChunkedPreprocessing;
use crate::lookup::{lookup_sequence, validate_lookup_subclaim_sequence, DirectLookupBlockWitness};
use crate::math::{is_pow2, is_power_of_two};
use crate::relation::{result_model, DirectChunkedError, ErrorModel, RelationMap};
use crate::text::text;
use crate::trace::{Cycle, MachineBoundaryState, TraceBlock, REGISTER_COUNT};

verus! {

#[derive(Clone, Copy, Debug, PartialEq, Eq, Structural)]
pub struct DirectRegisterReadWitness {
    pub enabled: bool,
    pub register: u8,
    pub value: u64,
}

#[derive(Clone, Copy, Debug, PartialEq, Eq, Structural)]
pub struct DirectRegisterWriteWitness {
    pub enabled: bool,
    pub register: u8,
    pub pre_value: u64,
    pub post_value: u64,
}

/// Register-facing values extracted from one trace cycle.
#[derive(Clone, Copy, Debug, PartialEq, Eq, Structural)]
pub struct DirectRegisterCycleWitness {
    pub active: bool,
    pub rs1: DirectRegisterReadWitness,
    pub rs2: DirectRegisterReadWitness,
    pub rd: DirectRegisterWriteWitness,
}

/// The canonical disabled read.
pub open spec fn zero_read() -> DirectRegisterReadWitness {
    DirectRegisterReadWitness { enabled: false, register: 0, value: 0 }
}

/// The canonical disabled write.
pub open spec fn zero_write() -> DirectRegisterWriteWitness {
    DirectRegisterWriteWitness { enabled: false, register: 0, pre_value: 0, post_value: 0 }
}

/// The canonical inactive (padding) cycle.
pub open spec fn zero_register_cycle() -> DirectRegisterCycleWitness {
    DirectRegisterCycleWitness { active: false, rs1: zero_read(), rs2: zero_read(), rd: zero_write() }
}

impl Default for DirectRegisterReadWitness {
    fn default() -> (w: Self)
        ensures
            w == zero_read(),
    {
        DirectRegisterReadWitness { enabled: false, register: 0, value: 0 }
    }
}

impl Default for DirectRegisterWriteWitness {
    fn default() -> (w: Self)
        ensures
            w == zero_write(),
    {
        DirectRegisterWriteWitness { enabled: false, register: 0, pre_value: 0, post_value: 0 }
    }
}

impl Default for DirectRegisterCycleWitness {
    fn default() -> (w: Self)
        ensures
            w == zero_register_cycle(),
    {
        DirectRegisterCycleWitness {
            active: false,
            rs1: DirectRegisterReadWitness::default(),
            rs2: DirectRegisterReadWitness::default(),
            rd: DirectRegisterWriteWitness::default(),
        }
    }
}

/// The register witness of an executed cycle: its rs1/rs2 reads and rd write,
/// each disabled and zero when the cycle does not perform it.
pub open spec fn cycle_register_witness(cycle: Cycle) -> DirectRegisterCycleWitness {
    DirectRegisterCycleWitness {
        active: true,
        rs1: match cycle.rs1_read {
            Some((register, value)) => DirectRegisterReadWitness { enabled: true, register, value },
            None => zero_read(),
        },
        rs2: match cycle.rs2_read {
            Some((register, value)) => DirectRegisterReadWitness { enabled: true, register, value },
            None => zero_read(),
        },
        rd: match cycle.rd_write {
            Some((register, pre_value, post_value)) => DirectRegisterWriteWitness {
                enabled: true,
                register,
                pre_value,
                post_value,
            },
            None => zero_write(),
        },
    }
}

/// The register witness of an executed cycle is the cycle's own register
/// traffic: it is active, each read is enabled exactly when the cycle
/// performs it and then names the register and value the cycle read, and
/// the write is enabled exactly when the cycle writes and then names the
/// register and its values before and after; an operand the cycle does not
/// use is the canonical zero.
pub proof fn law_register_witness_carries_the_cycle(cycle: Cycle)
    ensures
        ({
            let w = cycle_register_witness(cycle);
            &&& w.active
            &&& match cycle.rs1_read {
                Some((register, value)) => w.rs1.enabled && w.rs1.register == register
                    && w.rs1.value == value,
                None => w.rs1 == zero_read(),
            }
            &&& match cycle.rs2_read {
                Some((register, value)) => w.rs2.enabled && w.rs2.register == register
                    && w.rs2.value == value,
                None => w.rs2 == zero_read(),
            }
            &&& match cycle.rd_write {
                Some((register, pre_value, post_value)) => w.rd.enabled && w.rd.register
                    == register && w.rd.pre_value == pre_value && w.rd.post_value == post_value,
                None => w.rd == zero_write(),
            }
        }),
{
}

impl DirectRegisterCycleWitness {
    /// The register witness of an executed cycle.
    pub fn from_cycle(cycle: &Cycle) -> (w: Self)
        ensures
            w == cycle_register_witness(*cycle),
    {
        let rs1 = match cycle.rs1_read {
            Some((register, value)) => DirectRegisterReadWitness { enabled: true, register, value },
            None => DirectRegisterReadWitness::default(),
        };
        let rs2 = match cycle.rs2_read {
            Some((register, value)) => DirectRegisterReadWitness { enabled: true, register, value },
            None => DirectRegisterReadWitness::default(),
        };
        let rd = match cycle.rd_write {
            Some((register, pre_value, post_value)) => DirectRegisterWriteWitness {
                enabled: true,
                register,
                pre_value,
                post_value,
            },
            None => DirectRegisterWriteWitness::default(),
        };
        DirectRegisterCycleWitness { active: true, rs1, rs2, rd }
    }
}

/// Why a read is inconsistent with the register state, if it is.
pub open spec fn read_error(
    registers: Seq<u64>,
    read: DirectRegisterReadWitness,
    label: Seq<char>,
) -> Option<Seq<char>> {
    if !read.enabled {
        if read != zero_read() {
            Some("disabled "@ + label + " register access is not canonical zero"@)
        } else {
            None
        }
    } else if read.register >= REGISTER_COUNT || registers[read.register as int] != read.value {
        Some(label + " read does not match the authenticated register state"@)
    } else {
        None
    }
}

/// The register state after one cycle, or why the cycle is inconsistent
/// with the state before it.
pub open spec fn apply_register_cycle(
    registers: Seq<u64>,
    cycle: DirectRegisterCycleWitness,
) -> Result<Seq<u64>, Seq<char>> {
    if !cycle.active {
        if cycle != zero_register_cycle() {
            Err("inactive register cycle is not canonical zero"@)
        } else {
            Ok(registers)
        }
    } else if read_error(registers, cycle.rs1, "rs1"@) is Some {
        Err(read_error(registers, cycle.rs1, "rs1"@)->Some_0)
    } else if read_error(registers, cycle.rs2, "rs2"@) is Some {
        Err(read_error(registers, cycle.rs2, "rs2"@)->Some_0)
    } else if !cycle.rd.enabled {
        if cycle.rd != zero_write() {
            Err("disabled rd access is not canonical zero"@)
        } else {
            Ok(registers)
        }
    } else if cycle.rd.register >= REGISTER_COUNT || registers[cycle.rd.register as int]
        != cycle.rd.pre_value {
        Err("rd pre-value does not match the authenticated register state"@)
    } else {
        Ok(registers.update(cycle.rd.register as int, cycle.rd.post_value))
    }
}

/// The register state after the cycles, in order, or the first reason one of
/// them is inconsistent.
pub open spec fn replay_register_cycles(
    registers: Seq<u64>,
    cycles: Seq<DirectRegisterCycleWitness>,
) -> Result<Seq<u64>, Seq<char>>
    decreases cycles.len(),
{
    if cycles.len() == 0 {
        Ok(registers)
    } else {
        match replay_register_cycles(registers, cycles.drop_last()) {
            Err(e) => Err(e),
            Ok(mid) => apply_register_cycle(mid, cycles.last()),
        }
    }
}

/// Checks one register read against the register state: a disabled read
/// must be the canonical zero read, and an enabled one must name an existing
/// register and return the value it holds.
pub fn validate_read(
    block_index: usize,
    registers: &[u64; REGISTER_COUNT],
    read: &DirectRegisterReadWitness,
    label: &str,
) -> (r: Result<(), DirectChunkedError>)
    ensures
        match read_error(registers@, *read, label@) {
            Some(reason) => r matches Err(e) && e@ == ErrorModel::InvalidBlock {
                block_index: block_index as nat,
                reason,
            },
            None => r is Ok,
        },
{
    if !read.enabled {
        if *read != DirectRegisterReadWitness::default() {
            let reason = text("disabled ").concat(label).concat(
                " register access is not canonical zero",
            );
            return Err(DirectChunkedError::InvalidBlock { block_index, reason });
        }
        return Ok(());
    }
    let register = read.register as usize;
    if register >= REGISTER_COUNT || registers[register] != read.value {
        let reason = text(label).concat(" read does not match the authenticated register state");
        return Err(DirectChunkedError::InvalidBlock { block_index, reason });
    }
    Ok(())
}

/// A register read is accepted exactly when it is the canonical disabled
/// read, or an enabled read of an existing register that returns the value
/// the register state holds; a refusal names the operand it concerns.
pub proof fn law_read_accepted_iff_consistent(
    registers: Seq<u64>,
    read: DirectRegisterReadWitness,
    label: Seq<char>,
)
    requires
        registers.len() == REGISTER_COUNT,
    ensures
        read_error(registers, read, label) is None <==> {
            ||| !read.enabled && read == zero_read()
            ||| read.enabled && read.register < REGISTER_COUNT && registers[read.register as int]
                == read.value
        },
        read_error(registers, read, label) matches Some(reason) ==> {
            ||| reason == "disabled "@ + label + " register access is not canonical zero"@
            ||| reason == label + " read does not match the authenticated register state"@
        },
{
}

/// Checks one cycle against the register state and applies its write.
pub fn validate_and_apply_cycle(
    block_index: usize,
    registers: &mut [u64; REGISTER_COUNT],
    cycle: &DirectRegisterCycleWitness,
) -> (r: Result<(), DirectChunkedError>)
    ensures
        match apply_register_cycle(old(registers)@, *cycle) {
            Ok(next) => r is Ok && final(registers)@ == next,
            Err(reason) => final(registers)@ == old(registers)@ && (r matches Err(e) && e@
                == ErrorModel::InvalidBlock { block_index: block_index as nat, reason }),
        },
{
    proof {
        reveal_strlit("rs1");
        reveal_strlit("rs2");
    }
    if !cycle.active {
        if *cycle != DirectRegisterCycleWitness::default() {
            return Err(
                DirectChunkedError::InvalidBlock {
                    block_index,
                    reason: text("inactive register cycle is not canonical zero"),
                },
            );
        }
        return Ok(());
    }
    validate_read(block_index, registers, &cycle.rs1, "rs1")?;
    validate_read(block_index, registers, &cycle.rs2, "rs2")?;
    if !cycle.rd.enabled {
        if cycle.rd != DirectRegisterWriteWitness::default() {
            return Err(
                DirectChunkedError::InvalidBlock {
                    block_index,
                    reason: text("disabled rd access is not canonical zero"),
                },
            );
        }
        return Ok(());
    }
    let register = cycle.rd.register as usize;
    if register >= REGISTER_COUNT || registers[register] != cycle.rd.pre_value {
        return Err(
            DirectChunkedError::InvalidBlock {
                block_index,
                reason: text("rd pre-value does not match the authenticated register state"),
            },
        );
    }
    registers[register] = cycle.rd.post_value;
    Ok(())
}

/// The boundary registers reinterpreted as unsigned words.
pub open spec fn unsigned_registers(registers: Seq<i64>) -> Seq<u64> {
    registers.map_values(|v: i64| v as u64)
}

/// The registers of a boundary state as unsigned words.
pub fn boundary_registers(state: &MachineBoundaryState) -> (r: [u64; REGISTER_COUNT])
    ensures
        r@ == unsigned_registers(state.registers@),
{
    let mut out = [0u64; REGISTER_COUNT];
    let mut i: usize = 0;
    while i < REGISTER_COUNT
        invariant
            0 <= i <= REGISTER_COUNT,
            out@.len() == REGISTER_COUNT,
            state.registers@.len() == REGISTER_COUNT,
            forall|j: int| 0 <= j < i ==> out@[j] == state.registers@[j] as u64,
        decreases REGISTER_COUNT - i,
    {
        out[i] = state.registers[i] as u64;
        i = i + 1;
    }
    assert(out@ =~= unsigned_registers(state.registers@));
    out
}

fn registers_equal(a: &[u64; REGISTER_COUNT], b: &[u64; REGISTER_COUNT]) -> (r: bool)
    ensures
        r == (a@ == b@),
{
    let mut i: usize = 0;
    while i < REGISTER_COUNT
        invariant
            0 <= i <= REGISTER_COUNT,
            a@.len() == REGISTER_COUNT,
            b@.len() == REGISTER_COUNT,
            forall|j: int| 0 <= j < i ==> a@[j] == b@[j],
        decreases REGISTER_COUNT - i,
    {
        if a[i] != b[i] {
            return false;
        }
        i = i + 1;
    }
    assert(a@ =~= b@);
    true
}

/// Fixed-shape register witness for one trace block.
#[derive(Clone, Debug, PartialEq, Eq)]
pub struct DirectRegisterBlockWitness {
    pub block_index: usize,
    pub global_cycle_start: usize,
    pub active_cycles: usize,
    pub cycle_capacity: usize,
    pub terminated: bool,
    pub start_registers: [u64; REGISTER_COUNT],
    pub end_registers: [u64; REGISTER_COUNT],
    pub cycles: Vec<DirectRegisterCycleWitness>,
}

/// A block fits the fixed power-of-two register circuit shape.
pub open spec fn register_block_fits(block: TraceBlock, cycle_capacity: usize) -> bool {
    &&& is_pow2(cycle_capacity as nat)
    &&& block.active_cycles != 0
    &&& block.active_cycles == block.cycles@.len()
    &&& block.active_cycles <= cycle_capacity
}

/// The register witnesses of the block's cycles, in order.
pub open spec fn block_register_witnesses(block: TraceBlock) -> Seq<DirectRegisterCycleWitness> {
    block.cycles@.map_values(|c: Cycle| cycle_register_witness(c))
}

/// The outcome of deriving a block's register witness, as a model: the
/// error, or the replayed end registers.
pub open spec fn spec_register_block(block: TraceBlock, cycle_capacity: usize) -> Result<
    Seq<u64>,
    ErrorModel,
> {
    if !register_block_fits(block, cycle_capacity) {
        Err(
            ErrorModel::InvalidBlock {
                block_index: block.block_index as nat,
                reason: "register block does not fit the fixed power-of-two circuit shape"@,
            },
        )
    } else {
        match replay_register_cycles(
            unsigned_registers(block.start_state.registers@),
            block_register_witnesses(block),
        ) {
            Err(reason) => Err(ErrorModel::InvalidBlock { block_index: block.block_index as nat, reason }),
            Ok(end) => if end != unsigned_registers(block.end_state.registers@) {
                Err(
                    ErrorModel::InvalidBlock {
                        block_index: block.block_index as nat,
                        reason: "register accesses do not reconstruct end_state.registers"@,
                    },
                )
            } else {
                Ok(end)
            },
        }
    }
}

/// An error that the replay of a prefix produces is the error of the whole
/// replay.
proof fn lemma_replay_error_persists(
    registers: Seq<u64>,
    cycles: Seq<DirectRegisterCycleWitness>,
    n: nat,
)
    requires
        n <= cycles.len(),
        replay_register_cycles(registers, cycles.take(n as int)) is Err,
    ensures
        replay_register_cycles(registers, cycles) == replay_register_cycles(
            registers,
            cycles.take(n as int),
        ),
    decreases cycles.len() - n,
{
    if n < cycles.len() {
        assert(cycles.take(n + 1 as int).drop_last() =~= cycles.take(n as int));
        lemma_replay_error_persists(registers, cycles, n + 1);
    } else {
        assert(cycles.take(n as int) =~= cycles);
    }
}

/// Whether a register cycle writes `register`.
pub open spec fn writes_register(cycle: DirectRegisterCycleWitness, register: u8) -> bool {
    cycle.active && cycle.rd.enabled && cycle.rd.register == register
}

/// The value of `register` after the cycles: the value of its last write, or
/// its start value when no cycle writes it.
pub open spec fn register_value_after(
    start: Seq<u64>,
    cycles: Seq<DirectRegisterCycleWitness>,
    register: u8,
) -> u64
    decreases cycles.len(),
{
    if cycles.len() == 0 {
        start[register as int]
    } else if writes_register(cycles.last(), register) {
        cycles.last().rd.post_value
    } else {
        register_value_after(start, cycles.drop_last(), register)
    }
}

proof fn lemma_replay_prefix_ok(
    registers: Seq<u64>,
    cycles: Seq<DirectRegisterCycleWitness>,
    n: nat,
)
    requires
        n <= cycles.len(),
        replay_register_cycles(registers, cycles) is Ok,
    ensures
        replay_register_cycles(registers, cycles.take(n as int)) is Ok,
{
    if replay_register_cycles(registers, cycles.take(n as int)) is Err {
        lemma_replay_error_persists(registers, cycles, n);
    }
}

proof fn lemma_replay_state(
    registers: Seq<u64>,
    cycles: Seq<DirectRegisterCycleWitness>,
    register: u8,
)
    requires
        registers.len() == REGISTER_COUNT,
        register < REGISTER_COUNT,
        replay_register_cycles(registers, cycles) is Ok,
    ensures
        replay_register_cycles(registers, cycles)->Ok_0.len() == REGISTER_COUNT,
        replay_register_cycles(registers, cycles)->Ok_0[register as int] == register_value_after(
            registers,
            cycles,
            register,
        ),
    decreases cycles.len(),
{
    if cycles.len() > 0 {
        lemma_replay_prefix_ok(registers, cycles, (cycles.len() - 1) as nat);
        assert(cycles.take(cycles.len() - 1) =~= cycles.drop_last());
        lemma_replay_state(registers, cycles.drop_last(), register);
    }
}

/// A write is visible to every later read: when the replay of a block's
/// register cycles from `registers` succeeds, every enabled read of cycle `j`
/// returns the value of the last earlier write to its register, or the
/// register's start value when no earlier cycle writes it; and the replayed
/// end state holds the last written value of every register.
pub proof fn law_read_sees_last_write(
    registers: Seq<u64>,
    cycles: Seq<DirectRegisterCycleWitness>,
    j: int,
)
    requires
        registers.len() == REGISTER_COUNT,
        0 <= j < cycles.len(),
        replay_register_cycles(registers, cycles) is Ok,
    ensures
        cycles[j].rs1.enabled ==> cycles[j].rs1.value == register_value_after(
            registers,
            cycles.take(j),
            cycles[j].rs1.register,
        ),
        cycles[j].rs2.enabled ==> cycles[j].rs2.value == register_value_after(
            registers,
            cycles.take(j),
            cycles[j].rs2.register,
        ),
        forall|r: u8|
            r < REGISTER_COUNT ==> (#[trigger] replay_register_cycles(registers, cycles)->Ok_0[r as int])
                == register_value_after(registers, cycles, r),
{
    lemma_replay_prefix_ok(registers, cycles, (j + 1) as nat);
    let pre = cycles.take(j + 1);
    assert(pre.drop_last() =~= cycles.take(j));
    assert(pre.last() == cycles[j]);
    lemma_replay_prefix_ok(registers, cycles, j as nat);
    let mid = replay_register_cycles(registers, cycles.take(j))->Ok_0;
    if cycles[j].rs1.enabled && cycles[j].rs1.register < REGISTER_COUNT {
        lemma_replay_state(registers, cycles.take(j), cycles[j].rs1.register);
    }
    if cycles[j].rs2.enabled && cycles[j].rs2.register < REGISTER_COUNT {
        lemma_replay_state(registers, cycles.take(j), cycles[j].rs2.register);
    }
    assert forall|r: u8| r < REGISTER_COUNT implies (#[trigger] replay_register_cycles(
        registers,
        cycles,
    )->Ok_0[r as int]) == register_value_after(registers, cycles, r) by {
        lemma_replay_state(registers, cycles, r);
    }
}

impl DirectRegisterBlockWitness {
    /// Derives the fixed-shape register witness of a block: every cycle's
    /// reads must match, and its write must start from, the register state
    /// replayed from the block's start registers; the replay must end at the
    /// block's end registers; the witness is padded with canonical inactive
    /// cycles up to the capacity.
    pub fn from_trace_block(block: &TraceBlock, cycle_capacity: usize) -> (r: Result<
        Self,
        DirectChunkedError,
    >)
        ensures
            match spec_register_block(*block, cycle_capacity) {
                Err(e) => r matches Err(err) && err@ == e,
                Ok(end) => r matches Ok(w) && {
                    &&& w.block_index == block.block_index
                    &&& w.global_cycle_start == block.global_cycle_start
                    &&& w.active_cycles == block.active_cycles
                    &&& w.cycle_capacity == cycle_capacity
                    &&& w.terminated == block.end_state.terminated
                    &&& w.start_registers@ == unsigned_registers(block.start_state.registers@)
                    &&& w.end_registers@ == end
                    &&& w.cycles@ == block_register_witnesses(*block) + Seq::new(
                        (cycle_capacity - block.active_cycles) as nat,
                        |i: int| zero_register_cycle(),
                    )
                },
            },
    {
        if cycle_capacity == 0 || !is_power_of_two(cycle_capacity) || block.active_cycles == 0
            || block.active_cycles != block.cycles.len() || block.active_cycles > cycle_capacity {
            return Err(
                DirectChunkedError::InvalidBlock {
                    block_index: block.block_index,
                    reason: text("register block does not fit the fixed power-of-two circuit shape"),
                },
            );
        }
        let start_registers = boundary_registers(&block.start_state);
        let expected_end = boundary_registers(&block.end_state);
        let mut running = start_registers;
        let mut cycles: Vec<DirectRegisterCycleWitness> = Vec::new();
        let ghost witnesses = block_register_witnesses(*block);
        let mut i: usize = 0;
        while i < block.cycles.len()
            invariant
                0 <= i <= block.cycles@.len(),
                witnesses == block_register_witnesses(*block),
                witnesses.len() == block.cycles@.len(),
                register_block_fits(*block, cycle_capacity),
                start_registers@ == unsigned_registers(block.start_state.registers@),
                cycles@ == witnesses.take(i as int),
                replay_register_cycles(start_registers@, witnesses.take(i as int)) == Ok::<
                    Seq<u64>,
                    Seq<char>,
                >(running@),
            decreases block.cycles@.len() - i,
        {
            let witness = DirectRegisterCycleWitness::from_cycle(&block.cycles[i]);
            proof {
                assert(witnesses.take(i + 1).drop_last() =~= witnesses.take(i as int));
                assert(witnesses.take(i + 1).last() == witness);
            }
            let ghost old_running = running@;
            let applied = validate_and_apply_cycle(block.block_index, &mut running, &witness);
            if let Err(e) = applied {
                proof {
                    assert(replay_register_cycles(start_registers@, witnesses.take(i + 1))
                        == apply_register_cycle(running@, witness));
                    lemma_replay_error_persists(start_registers@, witnesses, (i + 1) as nat);
                }
                return Err(e);
            }
            cycles.push(witness);
            assert(replay_register_cycles(start_registers@, witnesses.take(i + 1))
                == apply_register_cycle(old_running, witness));
            assert(cycles@ =~= witnesses.take(i + 1));
            i = i + 1;
        }
        assert(witnesses.take(block.cycles@.len() as int) =~= witnesses);
        if !registers_equal(&running, &expected_end) {
            return Err(
                DirectChunkedError::InvalidBlock {
                    block_index: block.block_index,
                    reason: text("register accesses do not reconstruct end_state.registers"),
                },
            );
        }
        let ghost active = cycles@;
        while cycles.len() < cycle_capacity
            invariant
                active == witnesses,
                active.len() <= cycles@.len() <= cycle_capacity,
                cycles@ == active + Seq::new(
                    (cycles@.len() - active.len()) as nat,
                    |i: int| zero_register_cycle(),
                ),
            decreases cycle_capacity - cycles@.len(),
        {
            cycles.push(DirectRegisterCycleWitness::default());
            assert(cycles@ =~= active + Seq::new(
                (cycles@.len() - active.len()) as nat,
                |i: int| zero_register_cycle(),
            ));
        }
        Ok(
            DirectRegisterBlockWitness {
                block_index: block.block_index,
                global_cycle_start: block.global_cycle_start,
                active_cycles: block.active_cycles,
                cycle_capacity,
                terminated: block.end_state.terminated,
                start_registers,
                end_registers: expected_end,
                cycles,
            },
        )
    }
}

/// Why the lookup and register blocks at `position` disagree, if they do:
/// their metadata must match, and the register state must continue from
/// the previous register block.
pub open spec fn combined_pair_error(
    capacity: usize,
    lookups: Seq<DirectLookupBlockWitness>,
    registers: Seq<DirectRegisterBlockWitness>,
    position: nat,
) -> Option<ErrorModel> {
    let lookup = lookups[position as int];
    let register = registers[position as int];
    if register.block_index != position || register.cycle_capacity != capacity
        || register.block_index != lookup.block_index || register.global_cycle_start
        != lookup.global_cycle_start || register.active_cycles != lookup.active_cycles
        || register.terminated != lookup.terminated {
        Some(
            ErrorModel::InvalidBlock {
                block_index: register.block_index as nat,
                reason: "lookup/register block metadata differs"@,
            },
        )
    } else if position > 0 && registers[position - 1].end_registers@ != register.start_registers@ {
        Some(
            ErrorModel::DiscontinuousBlocks {
                previous_block: (position - 1) as nat,
                next_block: position,
                reason: "register end boundary does not equal next start boundary"@,
            },
        )
    } else {
        None
    }
}

/// The first disagreement among the first `k` block pairs.
pub open spec fn combined_scan(
    capacity: usize,
    lookups: Seq<DirectLookupBlockWitness>,
    registers: Seq<DirectRegisterBlockWitness>,
    k: nat,
) -> Option<ErrorModel>
    decreases k,
{
    if k == 0 {
        None
    } else {
        match combined_scan(capacity, lookups, registers, (k - 1) as nat) {
            Some(e) => Some(e),
            None => combined_pair_error(capacity, lookups, registers, (k - 1) as nat),
        }
    }
}

/// The block count and total active cycles of matching lookup and register
/// block sequences, or why they do not form one trace.
pub open spec fn combined_sequence(
    max_padded_trace_length: usize,
    capacity: usize,
    lookups: Seq<DirectLookupBlockWitness>,
    registers: Seq<DirectRegisterBlockWitness>,
) -> Result<(nat, nat), ErrorModel> {
    match lookup_sequence(max_padded_trace_length, capacity, lookups) {
        Err(e) => Err(e),
        Ok((count, total)) => if registers.len() != count {
            Err(ErrorModel::InvalidProofShape("lookup/register subclaim counts differ"@))
        } else {
            match combined_scan(capacity, lookups, registers, count) {
                Some(e) => Err(e),
                None => Ok((count, total)),
            }
        },
    }
}

proof fn lemma_combined_scan_error_persists(
    capacity: usize,
    lookups: Seq<DirectLookupBlockWitness>,
    registers: Seq<DirectRegisterBlockWitness>,
    k: nat,
    n: nat,
)
    requires
        k <= n,
        combined_scan(capacity, lookups, registers, k) is Some,
    ensures
        combined_scan(capacity, lookups, registers, n) == combined_scan(
            capacity,
            lookups,
            registers,
            k,
        ),
    decreases n - k,
{
    if k < n {
        lemma_combined_scan_error_persists(capacity, lookups, registers, k + 1, n);
    }
}

proof fn lemma_combined_scan_none(
    capacity: usize,
    lookups: Seq<DirectLookupBlockWitness>,
    registers: Seq<DirectRegisterBlockWitness>,
    k: nat,
)
    requires
        combined_scan(capacity, lookups, registers, k) is None,
    ensures
        forall|i: int|
            0 <= i < k ==> #[trigger] combined_pair_error(capacity, lookups, registers, i as nat)
                is None,
    decreases k,
{
    if k > 0 {
        lemma_combined_scan_none(capacity, lookups, registers, (k - 1) as nat);
    }
}

/// Accepted lookup and register sequences describe the same blocks, and the
/// register state is carried from each block to the next: block `i` of both
/// has index `i`, the same cycle window and termination flag, and register
/// block `i` starts from the registers that block `i - 1` ended with.
pub proof fn law_combined_sequence_links(
    max_padded_trace_length: usize,
    capacity: usize,
    lookups: Seq<DirectLookupBlockWitness>,
    registers: Seq<DirectRegisterBlockWitness>,
)
    requires
        combined_sequence(max_padded_trace_length, capacity, lookups, registers) is Ok,
    ensures
        registers.len() == lookups.len(),
        forall|i: int|
            0 <= i < registers.len() ==> {
                &&& (#[trigger] registers[i]).block_index == i
                &&& registers[i].cycle_capacity == capacity
                &&& registers[i].global_cycle_start == lookups[i].global_cycle_start
                &&& registers[i].active_cycles == lookups[i].active_cycles
                &&& registers[i].terminated == lookups[i].terminated
                &&& i > 0 ==> registers[i - 1].end_registers@ == registers[i].start_registers@
            },
{
    lemma_combined_scan_none(capacity, lookups, registers, registers.len());
    assert forall|i: int| 0 <= i < registers.len() implies {
        &&& (#[trigger] registers[i]).block_index == i
        &&& registers[i].cycle_capacity == capacity
        &&& registers[i].global_cycle_start == lookups[i].global_cycle_start
        &&& registers[i].active_cycles == lookups[i].active_cycles
        &&& registers[i].terminated == lookups[i].terminated
        &&& i > 0 ==> registers[i - 1].end_registers@ == registers[i].start_registers@
    } by {
        assert(combined_pair_error(capacity, lookups, registers, i as nat) is None);
    }
}

/// Checks the blocks of the lookup and register subclaims of the combined
/// stage: the lookup blocks form a contiguous trace, there is one register
/// block per lookup block with the same metadata, and each register block
/// starts from the registers the previous one ended with. Returns the block
/// count and the total active cycles.
pub fn validate_combined_sequence(
    preprocessing: &DirectChunkedPreprocessing,
    capacity: usize,
    lookups: &[DirectLookupBlockWitness],
    registers: &[DirectRegisterBlockWitness],
) -> (r: Result<(usize, usize), DirectChunkedError>)
    ensures
        match combined_sequence(
            preprocessing.max_padded_trace_length,
            capacity,
            lookups@,
            registers@,
        ) {
            Ok((count, total)) => r matches Ok((c, t)) && c == count && t == total,
            Err(e) => r matches Err(err) && err@ == e,
        },
{
    let (block_count, total_cycles) = match validate_lookup_subclaim_sequence(
        preprocessing,
        capacity,
        lookups,
    ) {
        Ok(pair) => pair,
        Err(e) => {
            return Err(e);
        },
    };
    if registers.len() != block_count {
        return Err(
            DirectChunkedError::InvalidProofShape(text("lookup/register subclaim counts differ")),
        );
    }
    let ghost count = block_count as nat;
    let mut position: usize = 0;
    while position < block_count
        invariant
            0 <= position <= block_count,
            block_count == lookups@.len(),
            block_count == registers@.len(),
            count == block_count,
            lookup_sequence(preprocessing.max_padded_trace_length, capacity, lookups@) == Ok::<
                (nat, nat),
                ErrorModel,
            >((block_count as nat, total_cycles as nat)),
            combined_scan(capacity, lookups@, registers@, position as nat) is None,
        decreases block_count - position,
    {
        let lookup = &lookups[position];
        let register = &registers[position];
        proof {
            assert(lookups@[position as int] == *lookup);
            assert(registers@[position as int] == *register);
        }
        if register.block_index != position || register.cycle_capacity != capacity
            || register.block_index != lookup.block_index || register.global_cycle_start
            != lookup.global_cycle_start || register.active_cycles != lookup.active_cycles
            || register.terminated != lookup.terminated {
            proof {
                lemma_combined_scan_error_persists(
                    capacity,
                    lookups@,
                    registers@,
                    (position + 1) as nat,
                    count,
                );
            }
            return Err(
                DirectChunkedError::InvalidBlock {
                    block_index: register.block_index,
                    reason: text("lookup/register block metadata differs"),
                },
            );
        }
        if position > 0 && !registers_equal(
            &registers[position - 1].end_registers,
            &register.start_registers,
        ) {
            proof {
                lemma_combined_scan_error_persists(
                    capacity,
                    lookups@,
                    registers@,
                    (position + 1) as nat,
                    count,
                );
            }
            return Err(
                DirectChunkedError::DiscontinuousBlocks {
                    previous_block: position - 1,
                    next_block: position,
                    reason: text("register end boundary does not equal next start boundary"),
                },
            );
        }
        position = position + 1;
    }
    Ok((block_count, total_cycles))
}

/// Public statement of the combined lookup and register stage.
#[derive(Clone, Debug, PartialEq, Eq)]
pub struct DirectRegisterStageStatement {
    pub program_digest: [u8; 32],
    pub lookup_table_commitment: [u8; 32],
    pub block_count: usize,
    pub total_cycles: usize,
    pub initial_registers: [u64; REGISTER_COUNT],
    pub final_registers: [u64; REGISTER_COUNT],
    pub terminated: bool,
    pub relations: RelationMap,
}

} // verus!
