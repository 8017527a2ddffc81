//! Execution inputs of the PCS stage: size limits, the clear advice
//! commitment, the canonical initial RAM words read from the verifier-known
//! memory image, and the binding of public outputs and the panic flag to the
//! RAM writes of the proof.

use vstd::prelude::*;
use vstd::string::{StringExecFns, StringSliceAdditionalSpecFns};

use crate::cpu::DirectCpuStageStatement;
use crate::direct::{DirectChunkedPreprocessing, MemoryLayout};
use crate::encoding::{le64, le_bytes, push_bytes, push_le_u64, sha3_256, sha3_256_of};
use crate::math::{ceil_log2, ilog2, lemma_log2_of_next_pow2, log2, next_power_of_two};
use crate::ram::{DirectRamCycleWitness, DirectRamSubclaim};
use crate::relation::{DirectChunkedError, ErrorModel, RelationMap};
use crate::text::{dec, decimal, decimal_usize, text};

verus! {

/// First address of guest RAM.
pub const RAM_START_ADDRESS: u64 = 0x8000_0000;

/// Width of one cycle's lane in the global PCS polynomial: the R1CS inputs
/// of a cycle, rounded up to a power of two.
pub const PCS_LANE_WIDTH: usize = 64;

/// Number of variables of the global PCS polynomial over `block_count`
/// blocks of `capacity` cycles: the block domain (the block count rounded up
/// to a power of two, at least one), the rows of a block and the lane.
pub open spec fn spec_pcs_num_vars(block_count: nat, capacity: nat) -> nat {
    ceil_log2(block_count) + log2(capacity) + log2(PCS_LANE_WIDTH as nat)
}

/// Number of variables of the global PCS polynomial, which is the length
/// of its opening point.
pub fn pcs_num_vars(block_count: usize, capacity: usize) -> (r: usize)
    requires
        capacity > 0,
        block_count <= usize::MAX / 2 + 1,
    ensures
        r == spec_pcs_num_vars(block_count as nat, capacity as nat),
        r == ceil_log2(block_count as nat) + log2(capacity as nat) + 6,
{
    let domain = next_power_of_two(block_count);
    proof {
        lemma_log2_of_next_pow2(block_count as nat, domain as nat);
        assert(log2(64) == 6) by {
            reveal_with_fuel(log2, 7);
        }
    }
    ilog2(domain) + ilog2(capacity) + ilog2(PCS_LANE_WIDTH)
}

/// Inputs to the transparent PCS stage. Advice is carried in clear so that a
/// standalone verifier can reconstruct initial RAM.
#[derive(Clone, Debug, PartialEq, Eq)]
pub struct DirectExecutionInputs {
    pub public_inputs: Vec<u8>,
    pub public_outputs: Vec<u8>,
    pub trusted_advice: Vec<u8>,
    pub untrusted_advice: Vec<u8>,
    pub panic: bool,
}

/// Public statement of the PCS stage: the CPU statement, the public I/O
/// and advice binding, and the global opening.
#[derive(Clone, Debug, PartialEq, Eq)]
pub struct DirectPcsStageStatement {
    pub cpu: DirectCpuStageStatement,
    pub public_inputs: Vec<u8>,
    pub public_outputs: Vec<u8>,
    pub advice_commitment: [u8; 32],
    pub panic: bool,
    pub pcs_num_vars: usize,
    pub pcs_opening: [u8; 32],
    pub global_transcript_state: [u8; 32],
    pub global_transcript_round: u32,
    pub relations: RelationMap,
}

fn bytes_equal(a: &[u8], b: &[u8]) -> (r: bool)
    ensures
        r == (a@ == b@),
{
    if a.len() != b.len() {
        return false;
    }
    let mut i: usize = 0;
    while i < a.len()
        invariant
            0 <= i <= a@.len(),
            a@.len() == b@.len(),
            forall|j: int| 0 <= j < i ==> a@[j] == b@[j],
        decreases a@.len() - i,
    {
        if a[i] != b[i] {
            return false;
        }
        i = i + 1;
    }
    assert(a@ =~= b@);
    true
}

/// The statement carries the execution's public inputs and outputs, the
/// commitment to its advice, and its panic flag.
pub open spec fn execution_statement_matches(
    statement: DirectPcsStageStatement,
    execution: DirectExecutionInputs,
) -> bool {
    &&& statement.public_inputs@ == execution.public_inputs@
    &&& statement.public_outputs@ == execution.public_outputs@
    &&& statement.advice_commitment@ == sha3_256_of(advice_preimage(execution))
    &&& statement.panic == execution.panic
}

/// Checks that the statement is bound to the execution inputs it is
/// verified with.
pub fn validate_execution_statement(
    statement: &DirectPcsStageStatement,
    execution: &DirectExecutionInputs,
) -> (r: Result<(), DirectChunkedError>)
    ensures
        execution_statement_matches(*statement, *execution) ==> r is Ok,
        !execution_statement_matches(*statement, *execution) ==> (r matches Err(e) && e@
            == ErrorModel::InvalidProofShape("D6 execution statement mismatch"@)),
{
    let commitment = advice_commitment(execution);
    if !bytes_equal(statement.public_inputs.as_slice(), execution.public_inputs.as_slice())
        || !bytes_equal(statement.public_outputs.as_slice(), execution.public_outputs.as_slice())
        || !bytes_equal(&statement.advice_commitment, &commitment)
        || statement.panic != execution.panic {
        return Err(DirectChunkedError::InvalidProofShape(text("D6 execution statement mismatch")));
    }
    Ok(())
}

/// Checks that the statement and the opening point have the dimension of
/// the global PCS polynomial over the statement's blocks, and returns it.
pub fn validate_pcs_dimensions(
    statement: &DirectPcsStageStatement,
    capacity: usize,
    opening_point_len: usize,
) -> (r: Result<usize, DirectChunkedError>)
    requires
        capacity > 0,
        statement.cpu.block_count <= usize::MAX / 2 + 1,
    ensures
        ({
            let n = spec_pcs_num_vars(statement.cpu.block_count as nat, capacity as nat);
            if statement.pcs_num_vars == n && opening_point_len == n {
                r == Ok::<usize, DirectChunkedError>(n as usize)
            } else {
                r matches Err(e) && e@ == ErrorModel::InvalidProofShape("D6 PCS dimension mismatch"@)
            }
        }),
{
    let num_vars = pcs_num_vars(statement.cpu.block_count, capacity);
    if statement.pcs_num_vars != num_vars || opening_point_len != num_vars {
        return Err(DirectChunkedError::InvalidProofShape(text("D6 PCS dimension mismatch")));
    }
    Ok(num_vars)
}

/// Why an execution's inputs exceed the layout, if they do: the first of
/// public input, public output, trusted advice and untrusted advice that is
/// longer than its configured maximum.
pub open spec fn execution_inputs_error(layout: MemoryLayout, e: DirectExecutionInputs) -> Option<
    Seq<char>,
> {
    if e.public_inputs@.len() > layout.max_input_size {
        Some(
            "public input"@ + " has "@ + dec(e.public_inputs@.len())
                + " bytes, exceeding configured maximum "@
                + dec(layout.max_input_size as nat),
        )
    } else if e.public_outputs@.len() > layout.max_output_size {
        Some(
            "public output"@ + " has "@ + dec(e.public_outputs@.len())
                + " bytes, exceeding configured maximum "@ + dec(layout.max_output_size as nat),
        )
    } else if e.trusted_advice@.len() > layout.max_trusted_advice_size {
        Some(
            "trusted advice"@ + " has "@ + dec(e.trusted_advice@.len())
                + " bytes, exceeding configured maximum "@ + dec(
                layout.max_trusted_advice_size as nat,
            ),
        )
    } else if e.untrusted_advice@.len() > layout.max_untrusted_advice_size {
        Some(
            "untrusted advice"@ + " has "@ + dec(e.untrusted_advice@.len())
                + " bytes, exceeding configured maximum "@ + dec(
                layout.max_untrusted_advice_size as nat,
            ),
        )
    } else {
        None
    }
}

/// Execution inputs are accepted exactly when the public inputs, the public
/// outputs, the trusted advice and the untrusted advice each fit their
/// configured maximum in the memory layout; a refusal of inputs that fit
/// names the public output and both sizes when it is the outputs that do not.
pub proof fn law_execution_inputs_fit_the_layout(layout: MemoryLayout, e: DirectExecutionInputs)
    ensures
        execution_inputs_error(layout, e) is None <==> {
            &&& e.public_inputs@.len() <= layout.max_input_size
            &&& e.public_outputs@.len() <= layout.max_output_size
            &&& e.trusted_advice@.len() <= layout.max_trusted_advice_size
            &&& e.untrusted_advice@.len() <= layout.max_untrusted_advice_size
        },
        e.public_inputs@.len() <= layout.max_input_size && e.public_outputs@.len()
            > layout.max_output_size ==> execution_inputs_error(layout, e) == Some(
            "public output has "@ + dec(e.public_outputs@.len())
                + " bytes, exceeding configured maximum "@ + dec(layout.max_output_size as nat),
        ),
{
    if e.public_inputs@.len() <= layout.max_input_size && e.public_outputs@.len()
        > layout.max_output_size {
        reveal_strlit("public output has ");
        reveal_strlit("public output");
        reveal_strlit(" has ");
        assert("public output"@ + " has "@ =~= "public output has "@);
        assert("public output"@ + " has "@ + dec(e.public_outputs@.len())
            + " bytes, exceeding configured maximum "@ + dec(layout.max_output_size as nat)
            =~= "public output has "@ + dec(e.public_outputs@.len())
            + " bytes, exceeding configured maximum "@ + dec(layout.max_output_size as nat));
    }
}

fn check_size(label: &str, observed: usize, maximum: u64) -> (r: Result<(), DirectChunkedError>)
    ensures
        observed <= maximum ==> r is Ok,
        observed > maximum ==> (r matches Err(e) && e@ == ErrorModel::InvalidConfiguration(
            label@ + " has "@ + dec(observed as nat) + " bytes, exceeding configured maximum "@
                + dec(maximum as nat),
        )),
{
    if observed as u64 > maximum {
        let reason = text(label).concat(" has ").concat(decimal_usize(observed).as_str());
        let reason = reason.concat(" bytes, exceeding configured maximum ").concat(
            decimal(maximum).as_str(),
        );
        return Err(DirectChunkedError::InvalidConfiguration(reason));
    }
    Ok(())
}

/// Checks the execution's inputs, outputs and advice against the maximum
/// sizes of the memory layout.
pub fn validate_execution_inputs(
    preprocessing: &DirectChunkedPreprocessing,
    execution: &DirectExecutionInputs,
) -> (r: Result<(), DirectChunkedError>)
    ensures
        match execution_inputs_error(preprocessing.memory_layout, *execution) {
            None => r is Ok,
            Some(reason) => r matches Err(e) && e@ == ErrorModel::InvalidConfiguration(reason),
        },
{
    let layout = &preprocessing.memory_layout;
    check_size("public input", execution.public_inputs.len(), layout.max_input_size)?;
    check_size("public output", execution.public_outputs.len(), layout.max_output_size)?;
    check_size("trusted advice", execution.trusted_advice.len(), layout.max_trusted_advice_size)?;
    check_size(
        "untrusted advice",
        execution.untrusted_advice.len(),
        layout.max_untrusted_advice_size,
    )?;
    Ok(())
}

/// Bytes hashed into the advice commitment.
pub open spec fn advice_preimage(e: DirectExecutionInputs) -> Seq<u8> {
    "direct-clear-advice-v1"@.map_values(|c: char| c as u8) + le64(e.trusted_advice@.len() as u64)
        + e.trusted_advice@ + le64(e.untrusted_advice@.len() as u64) + e.untrusted_advice@
}

/// Commitment to the clear trusted and untrusted advice.
pub fn advice_commitment(execution: &DirectExecutionInputs) -> (c: [u8; 32])
    ensures
        c@ == sha3_256_of(advice_preimage(*execution)),
{
    let mut data: Vec<u8> = Vec::new();
    let tag = "direct-clear-advice-v1";
    proof {
        reveal_strlit("direct-clear-advice-v1");
        vstd::string::is_ascii_spec_bytes(tag);
    }
    assert(tag.spec_bytes() =~= "direct-clear-advice-v1"@.map_values(|c: char| c as u8));
    push_bytes(&mut data, tag.as_bytes());
    push_le_u64(&mut data, execution.trusted_advice.len() as u64);
    push_bytes(&mut data, execution.trusted_advice.as_slice());
    push_le_u64(&mut data, execution.untrusted_advice.len() as u64);
    push_bytes(&mut data, execution.untrusted_advice.as_slice());
    assert(data@ =~= advice_preimage(*execution));
    sha3_256(data.as_slice())
}

/// The byte of `bytes` at `address` when the region starts at `start`.
pub open spec fn region_byte(address: u64, start: u64, bytes: Seq<u8>) -> Option<u8> {
    if address < start || ((address - start) as usize) as int >= bytes.len() {
        None
    } else {
        Some(bytes[((address - start) as usize) as int])
    }
}

/// The initial byte of guest memory at `address`: public input, trusted
/// advice and untrusted advice regions first, zero below RAM, then the
/// program image (zero outside it).
pub open spec fn spec_byte_at(
    pre: DirectChunkedPreprocessing,
    execution: DirectExecutionInputs,
    address: u64,
) -> u8 {
    let layout = pre.memory_layout;
    if region_byte(address, layout.input_start, execution.public_inputs@) is Some {
        region_byte(address, layout.input_start, execution.public_inputs@)->Some_0
    } else if region_byte(address, layout.trusted_advice_start, execution.trusted_advice@) is Some {
        region_byte(address, layout.trusted_advice_start, execution.trusted_advice@)->Some_0
    } else if region_byte(address, layout.untrusted_advice_start, execution.untrusted_advice@) is Some {
        region_byte(address, layout.untrusted_advice_start, execution.untrusted_advice@)->Some_0
    } else if address < RAM_START_ADDRESS {
        0
    } else {
        let image_start = (pre.program_image_start / 8) * 8;
        if address < image_start {
            0
        } else {
            let offset = (address - image_start) as u64;
            let index = ((offset / 8) as usize) as int;
            if index >= pre.program_image_words@.len() {
                0
            } else {
                le64(pre.program_image_words@[index])[(offset % 8) as int]
            }
        }
    }
}

fn region_byte_exec(address: u64, start: u64, bytes: &Vec<u8>) -> (r: Option<u8>)
    ensures
        r == region_byte(address, start, bytes@),
{
    if address < start {
        return None;
    }
    let offset = (address - start) as usize;
    if offset >= bytes.len() {
        return None;
    }
    Some(bytes[offset])
}

/// The `k`-th little-endian byte of `word`.
fn word_byte(word: u64, k: u64) -> (b: u8)
    requires
        k < 8,
    ensures
        b == le64(word)[k as int],
{
    let mut v: u64 = word;
    let mut i: u64 = 0;
    proof {
        crate::encoding::lemma_le_bytes_len(word as nat, 8);
    }
    while i < k
        invariant
            i <= k,
            k < 8,
            le_bytes(word as nat, 8).skip(i as int) == le_bytes(v as nat, (8 - i) as nat),
        decreases k - i,
    {
        proof {
            crate::encoding::lemma_le_bytes_len(word as nat, 8);
            crate::encoding::lemma_le_bytes_len(v as nat, (8 - i) as nat);
            assert(le_bytes(v as nat, (8 - i) as nat).drop_first() =~= le_bytes(
                (v / 256) as nat,
                (8 - i - 1) as nat,
            ));
            assert(le_bytes(word as nat, 8).skip(i + 1) =~= le_bytes(word as nat, 8).skip(
                i as int,
            ).drop_first());
        }
        v = v / 256;
        i = i + 1;
    }
    proof {
        crate::encoding::lemma_le_bytes_len(word as nat, 8);
        assert(le_bytes(word as nat, 8).skip(k as int)[0] == le_bytes(word as nat, 8)[k as int]);
    }
    (v % 256) as u8
}

/// The initial byte of guest memory at `address`.
pub fn byte_at(
    preprocessing: &DirectChunkedPreprocessing,
    execution: &DirectExecutionInputs,
    address: u64,
) -> (b: u8)
    ensures
        b == spec_byte_at(*preprocessing, *execution, address),
{
    let layout = &preprocessing.memory_layout;
    if let Some(value) = region_byte_exec(address, layout.input_start, &execution.public_inputs) {
        return value;
    }
    if let Some(value) = region_byte_exec(
        address,
        layout.trusted_advice_start,
        &execution.trusted_advice,
    ) {
        return value;
    }
    if let Some(value) = region_byte_exec(
        address,
        layout.untrusted_advice_start,
        &execution.untrusted_advice,
    ) {
        return value;
    }
    if address < RAM_START_ADDRESS {
        return 0;
    }
    let image_start = (preprocessing.program_image_start / 8) * 8;
    if address < image_start {
        return 0;
    }
    let offset = address - image_start;
    let index = (offset / 8) as usize;
    if index >= preprocessing.program_image_words.len() {
        return 0;
    }
    word_byte(preprocessing.program_image_words[index], offset % 8)
}

/// Little-endian value of a byte string.
pub open spec fn from_le(bytes: Seq<u8>) -> nat
    decreases bytes.len(),
{
    if bytes.len() == 0 {
        0
    } else {
        (bytes[0] + 256 * from_le(bytes.drop_first())) as nat
    }
}

/// The initial bytes of guest memory at `address .. address + 8`.
pub open spec fn initial_word_bytes(
    pre: DirectChunkedPreprocessing,
    execution: DirectExecutionInputs,
    address: u64,
) -> Seq<u8> {
    Seq::new(8, |k: int| spec_byte_at(pre, execution, (address + k) as u64))
}

/// `256^n`.
pub open spec fn pow256(n: nat) -> nat
    decreases n,
{
    if n == 0 {
        1
    } else {
        256 * pow256((n - 1) as nat)
    }
}

proof fn lemma_from_le_bound(bytes: Seq<u8>)
    ensures
        from_le(bytes) < pow256(bytes.len()),
    decreases bytes.len(),
{
    if bytes.len() > 0 {
        lemma_from_le_bound(bytes.drop_first());
        let p = pow256((bytes.len() - 1) as nat);
        assert(bytes[0] + 256 * from_le(bytes.drop_first()) < 256 * p) by (nonlinear_arith)
            requires
                bytes[0] < 256,
                from_le(bytes.drop_first()) < p,
        ;
    }
}

proof fn lemma_pow256_mono(a: nat, b: nat)
    requires
        a <= b,
    ensures
        pow256(a) <= pow256(b),
    decreases b,
{
    if a < b {
        lemma_pow256_mono(a, (b - 1) as nat);
    }
}

/// The initial 8-byte little-endian word of guest memory at `address`.
pub fn initial_word(
    preprocessing: &DirectChunkedPreprocessing,
    execution: &DirectExecutionInputs,
    address: u64,
) -> (w: u64)
    requires
        address + 7 <= u64::MAX,
    ensures
        w as nat == from_le(initial_word_bytes(*preprocessing, *execution, address)),
{
    let ghost bytes = initial_word_bytes(*preprocessing, *execution, address);
    let mut w: u64 = 0;
    let mut k: u64 = 8;
    proof {
        assert(bytes.skip(8) =~= Seq::<u8>::empty());
    }
    while k > 0
        invariant
            k <= 8,
            address + 7 <= u64::MAX,
            bytes == initial_word_bytes(*preprocessing, *execution, address),
            w as nat == from_le(bytes.skip(k as int)),
        decreases k,
    {
        let b = byte_at(preprocessing, execution, address + (k - 1));
        proof {
            assert(bytes.skip(k - 1).drop_first() =~= bytes.skip(k as int));
            assert(bytes.skip(k - 1)[0] == b);
            lemma_from_le_bound(bytes.skip(k - 1));
            lemma_pow256_mono((9 - k) as nat, 8);
            assert(pow256(8) == 0x1_0000_0000_0000_0000) by {
                reveal_with_fuel(pow256, 9);
            }
        }
        w = b as u64 + 256 * w;
        k = k - 1;
    }
    assert(bytes.skip(0) =~= bytes);
    w
}

/// The initial words at each address, in order.
pub fn canonical_initial_values(
    preprocessing: &DirectChunkedPreprocessing,
    execution: &DirectExecutionInputs,
    addresses: &[u64],
) -> (values: Vec<u64>)
    requires
        forall|i: int| 0 <= i < addresses@.len() ==> addresses@[i] + 7 <= u64::MAX,
    ensures
        values@.len() == addresses@.len(),
        forall|i: int|
            0 <= i < addresses@.len() ==> values@[i] as nat == from_le(
                #[trigger] initial_word_bytes(*preprocessing, *execution, addresses@[i]),
            ),
{
    let mut values: Vec<u64> = Vec::new();
    let mut i: usize = 0;
    while i < addresses.len()
        invariant
            0 <= i <= addresses@.len(),
            values@.len() == i,
            forall|j: int| 0 <= j < addresses@.len() ==> addresses@[j] + 7 <= u64::MAX,
            forall|j: int|
                0 <= j < i ==> values@[j] as nat == from_le(
                    #[trigger] initial_word_bytes(*preprocessing, *execution, addresses@[j]),
                ),
        decreases addresses@.len() - i,
    {
        values.push(initial_word(preprocessing, execution, addresses[i]));
        i = i + 1;
    }
    values
}

/// Output image and panic flag after writing the `k` low bytes of `value`
/// at `address`: bytes inside `[output_start, output_end)` land in the image,
/// and a non-zero byte at the panic address sets the flag.
pub open spec fn write_effect(
    state: (Seq<u8>, bool),
    layout: MemoryLayout,
    address: u64,
    value: u64,
    k: nat,
) -> (Seq<u8>, bool)
    decreases k,
{
    if k == 0 {
        state
    } else {
        let s = write_effect(state, layout, address, value, (k - 1) as nat);
        let a: int = address + (k - 1);
        let b = le64(value)[k - 1];
        (
            if layout.output_start <= a < layout.output_end {
                s.0.update(a - layout.output_start, b)
            } else {
                s.0
            },
            s.1 || (a == layout.panic && b != 0),
        )
    }
}

/// Effect of the RAM writes (kind 2) among the cycles, in order.
pub open spec fn cycles_effect(
    state: (Seq<u8>, bool),
    layout: MemoryLayout,
    cycles: Seq<DirectRamCycleWitness>,
) -> (Seq<u8>, bool)
    decreases cycles.len(),
{
    if cycles.len() == 0 {
        state
    } else {
        let s = cycles_effect(state, layout, cycles.drop_last());
        if cycles.last().kind != 2 {
            s
        } else {
            write_effect(s, layout, cycles.last().address, cycles.last().write_value, 8)
        }
    }
}

/// The active rows of a RAM subclaim.
pub open spec fn active_ram_cycles(subclaim: DirectRamSubclaim) -> Seq<DirectRamCycleWitness> {
    let cycles = subclaim.block.cycles@;
    if subclaim.block.active_cycles <= cycles.len() {
        cycles.take(subclaim.block.active_cycles as int)
    } else {
        cycles
    }
}

/// Effect of the active RAM writes of the subclaims, in order.
pub open spec fn subclaims_effect(
    state: (Seq<u8>, bool),
    layout: MemoryLayout,
    rams: Seq<DirectRamSubclaim>,
) -> (Seq<u8>, bool)
    decreases rams.len(),
{
    if rams.len() == 0 {
        state
    } else {
        cycles_effect(subclaims_effect(state, layout, rams.drop_last()), layout, active_ram_cycles(rams.last()))
    }
}

/// The public output image and panic flag that the RAM writes produce.
pub open spec fn output_image(layout: MemoryLayout, rams: Seq<DirectRamSubclaim>) -> (Seq<u8>, bool) {
    subclaims_effect((Seq::new(layout.max_output_size as nat, |i: int| 0u8), false), layout, rams)
}

/// The claimed public outputs and panic flag are exactly what the RAM writes
/// produce: the output image starts with the public outputs and is zero
/// after them, and the panic flags agree.
pub open spec fn outputs_bound(
    layout: MemoryLayout,
    execution: DirectExecutionInputs,
    rams: Seq<DirectRamSubclaim>,
) -> bool {
    let (out, panic) = output_image(layout, rams);
    &&& out.take(execution.public_outputs@.len() as int) == execution.public_outputs@
    &&& forall|i: int| execution.public_outputs@.len() <= i < out.len() ==> out[i] == 0
    &&& panic == execution.panic
}

/// Every active RAM write leaves room for its eight bytes in the address space.
pub open spec fn ram_writes_fit(rams: Seq<DirectRamSubclaim>) -> bool {
    forall|i: int, j: int|
        0 <= i < rams.len() && 0 <= j < active_ram_cycles(#[trigger] rams[i]).len()
            && (#[trigger] active_ram_cycles(rams[i])[j]).kind == 2 ==> active_ram_cycles(
            rams[i],
        )[j].address + 7 <= u64::MAX
}

/// The output region fits the output image.
pub open spec fn output_layout_fits(layout: MemoryLayout) -> bool {
    &&& layout.max_output_size <= usize::MAX
    &&& layout.output_end <= layout.output_start + layout.max_output_size
}

/// Checks that the public outputs and the panic flag of the execution are
/// exactly those that the active RAM writes of the subclaims produce.
pub fn validate_public_outputs(
    preprocessing: &DirectChunkedPreprocessing,
    execution: &DirectExecutionInputs,
    rams: &[DirectRamSubclaim],
) -> (r: Result<(), DirectChunkedError>)
    requires
        output_layout_fits(preprocessing.memory_layout),
        execution.public_outputs@.len() <= preprocessing.memory_layout.max_output_size,
        ram_writes_fit(rams@),
    ensures
        outputs_bound(preprocessing.memory_layout, *execution, rams@) ==> r is Ok,
        !outputs_bound(preprocessing.memory_layout, *execution, rams@) ==> (r matches Err(e) && e@
            == ErrorModel::InvalidProofShape("D6 public output or panic binding mismatch"@)),
{
    let layout = &preprocessing.memory_layout;
    let ghost lay = *layout;
    let mut output: Vec<u8> = vec![0u8; layout.max_output_size as usize];
    let mut panic = false;
    let ghost init = (output@, false);
    assert(output@ =~= Seq::new(lay.max_output_size as nat, |i: int| 0u8));
    let mut s: usize = 0;
    assert(rams@.take(0) =~= Seq::<DirectRamSubclaim>::empty());
    while s < rams.len()
        invariant
            0 <= s <= rams@.len(),
            lay == preprocessing.memory_layout,
            *layout == lay,
            output_layout_fits(lay),
            ram_writes_fit(rams@),
            init.0 == Seq::new(lay.max_output_size as nat, |i: int| 0u8),
            !init.1,
            output@.len() == lay.max_output_size,
            subclaims_effect(init, lay, rams@.take(s as int)) == (output@, panic),
        decreases rams@.len() - s,
    {
        let subclaim = &rams[s];
        let ghost before = (output@, panic);
        let ghost active = active_ram_cycles(*subclaim);
        let cycles = &subclaim.block.cycles;
        let limit = if subclaim.block.active_cycles <= cycles.len() {
            subclaim.block.active_cycles
        } else {
            cycles.len()
        };
        assert(active == cycles@.take(limit as int));
        let mut c: usize = 0;
        assert(active.take(0) =~= Seq::<DirectRamCycleWitness>::empty());
        while c < limit
            invariant
                0 <= c <= limit,
                limit <= cycles@.len(),
                active == cycles@.take(limit as int),
                active == active_ram_cycles(rams@[s as int]),
                s < rams@.len(),
                lay == preprocessing.memory_layout,
                *layout == lay,
                output_layout_fits(lay),
                ram_writes_fit(rams@),
                output@.len() == lay.max_output_size,
                cycles_effect(before, lay, active.take(c as int)) == (output@, panic),
            decreases limit - c,
        {
            let cycle = &cycles[c];
            let ghost mid = (output@, panic);
            proof {
                assert(active.take(c + 1).drop_last() =~= active.take(c as int));
                assert(active.take(c + 1).last() == *cycle);
                assert(active[c as int] == *cycle);
            }
            if cycle.kind == 2 {
                proof {
                    assert(cycle.address + 7 <= u64::MAX);
                }
                let mut k: u64 = 0;
                while k < 8
                    invariant
                        0 <= k <= 8,
                        cycle.address + 7 <= u64::MAX,
                        lay == preprocessing.memory_layout,
                        *layout == lay,
                        output_layout_fits(lay),
                        output@.len() == lay.max_output_size,
                        write_effect(mid, lay, cycle.address, cycle.write_value, k as nat) == (
                        output@,
                        panic,
                        ),
                    decreases 8 - k,
                {
                    let address = cycle.address + k;
                    let byte = word_byte(cycle.write_value, k);
                    let ghost prev = (output@, panic);
                    if address >= layout.output_start && address < layout.output_end {
                        output.set((address - layout.output_start) as usize, byte);
                    }
                    if address == layout.panic && byte != 0 {
                        panic = true;
                    }
                    proof {
                        reveal_with_fuel(write_effect, 2);
                        assert(write_effect(mid, lay, cycle.address, cycle.write_value, (k + 1) as nat)
                            == (output@, panic));
                    }
                    k = k + 1;
                }
            }
            c = c + 1;
        }
        proof {
            assert(active.take(limit as int) =~= active);
            assert(rams@.take(s + 1).drop_last() =~= rams@.take(s as int));
            assert(rams@.take(s + 1).last() == *subclaim);
        }
        s = s + 1;
    }
    proof {
        assert(rams@.take(rams@.len() as int) =~= rams@);
    }
    let n = execution.public_outputs.len();
    let mut matches = panic == execution.panic;
    let mut i: usize = 0;
    while i < output.len()
        invariant
            0 <= i <= output@.len(),
            n == execution.public_outputs@.len(),
            n <= output@.len(),
            matches == ((panic == execution.panic) && forall|j: int|
                0 <= j < i ==> output@[j] == (if j < n {
                    execution.public_outputs@[j]
                } else {
                    0u8
                })),
        decreases output@.len() - i,
    {
        let expected = if i < n { execution.public_outputs[i] } else { 0u8 };
        if output[i] != expected {
            matches = false;
        }
        i = i + 1;
    }
    proof {
        let out = output@;
        if matches {
            assert(out.take(n as int) =~= execution.public_outputs@);
        } else if outputs_bound(lay, *execution, rams@) {
            assert forall|j: int| 0 <= j < out.len() implies out[j] == (if j < n {
                execution.public_outputs@[j]
            } else {
                0u8
            }) by {
                if j < n {
                    assert(out.take(n as int)[j] == out[j]);
                }
            }
        }
    }
    if !matches {
        return Err(
            DirectChunkedError::InvalidProofShape(text("D6 public output or panic binding mismatch")),
        );
    }
    Ok(())
}

} // verus!
