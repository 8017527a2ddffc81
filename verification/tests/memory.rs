use direct_chunked::{
    apply_ram_block, advice_commitment, byte_at, canonical_initial_values, initial_ram_table, initial_word,
    tree_size, validate_execution_inputs, validate_public_outputs, validate_ram_address,
    validate_trace_ram_addresses, Cycle, DirectChunkedError, DirectChunkedPreprocessing,
    DirectExecutionInputs, DirectRamBlockWitness, DirectRamCycleWitness, DirectRamSubclaim,
    MachineBoundaryState, MemoryLayout, RamAccess, TraceBlock, RAM_START_ADDRESS, REGISTER_COUNT,
};
use sha3::{Digest, Sha3_256};

fn preprocessing() -> DirectChunkedPreprocessing {
    DirectChunkedPreprocessing::from_program_bytes(b"ram-test", 64).with_initial_memory(
        MemoryLayout::default(),
        RAM_START_ADDRESS,
        vec![0x0807_0605_0403_0201, 0x1111_1111_1111_1111],
    )
}

const TRUSTED_ADVICE: u64 = 0x7fff_8000;
const UNTRUSTED_ADVICE: u64 = 0x7fff_9000;
const INPUT: u64 = 0x7fff_a000;
const OUTPUT: u64 = 0x7fff_b000;
const PANIC: u64 = 0x7fff_c000;

fn execution() -> DirectExecutionInputs {
    DirectExecutionInputs {
        public_inputs: vec![1, 2, 3],
        public_outputs: vec![7, 8],
        trusted_advice: vec![9],
        untrusted_advice: vec![10, 11],
        panic: false,
    }
}

fn boundary(cycle: usize, terminated: bool) -> MachineBoundaryState {
    MachineBoundaryState {
        global_cycle: cycle,
        emulator_trace_len: cycle,
        pc: 0,
        registers: [0; REGISTER_COUNT],
        terminated,
    }
}

fn ram_block(index: usize, accesses: Vec<RamAccess>) -> TraceBlock {
    let active = accesses.len();
    TraceBlock {
        block_index: index,
        global_cycle_start: 0,
        active_cycles: active,
        target_size: active,
        start_state: boundary(0, false),
        end_state: boundary(active, true),
        cycles: accesses
            .into_iter()
            .map(|access| {
                let mut cycle = Cycle::no_op();
                cycle.ram_access = access;
                cycle
            })
            .collect(),
        ended_at_tick_boundary: true,
    }
}

fn store(address: u64, value: u64) -> RamAccess {
    RamAccess::Write {
        address,
        pre_value: 0,
        post_value: value,
    }
}

fn load(address: u64, value: u64) -> RamAccess {
    RamAccess::Read { address, value }
}

fn ram_blocks() -> Vec<TraceBlock> {
    let address = RAM_START_ADDRESS + 0x100;
    let second_address = address + 8;
    vec![
        ram_block(0, vec![store(address, 9), store(second_address, 9)]),
        ram_block(1, vec![load(address, 9), load(second_address, 9)]),
    ]
}

#[test]
fn default_layout_places_io_below_ram() {
    let layout = DirectChunkedPreprocessing::from_program_bytes(b"ram-test", 64).memory_layout;
    assert_eq!(layout, MemoryLayout::default());
    assert_eq!(layout.lowest_address, TRUSTED_ADVICE);
    assert_eq!(layout.trusted_advice_start, TRUSTED_ADVICE);
    assert_eq!(layout.untrusted_advice_start, UNTRUSTED_ADVICE);
    assert_eq!(layout.input_start, INPUT);
    assert_eq!(layout.output_start, OUTPUT);
    assert_eq!(layout.output_end, PANIC);
    assert_eq!(layout.panic, PANIC);
    assert_eq!(layout.max_input_size, 4096);
    assert_eq!(layout.max_output_size, 4096);
    assert_eq!(layout.heap_end, RAM_START_ADDRESS + 4096 + 32 * 1024 * 1024);
    assert!(validate_trace_ram_addresses(&preprocessing(), &ram_blocks()).is_ok());
}

#[test]
fn d8_rejects_unaligned_cross_block_word_alias() {
    let pp = preprocessing();
    let address = RAM_START_ADDRESS + 0x100;
    assert_eq!(validate_ram_address(&pp, 1, 0, address), Ok(()));
    let error = validate_ram_address(&pp, 1, 0, address + 4).expect_err("unaligned RAM address must fail");
    assert!(error.to_string().contains("8-byte aligned"));
    let mut bad = ram_blocks();
    bad[1].cycles[0].ram_access = load(address + 4, 0);
    let error = validate_trace_ram_addresses(&pp, &bad).expect_err("unaligned RAM address must fail");
    assert!(error.to_string().contains("8-byte aligned"));
}

#[test]
fn d8_rejects_ram_address_outside_the_verifier_memory_layout() {
    let pp = preprocessing();
    let mut bad = ram_blocks();
    let address = pp.memory_layout.heap_end;
    bad[0].cycles[0].ram_access = store(address, 9);
    let error = validate_trace_ram_addresses(&pp, &bad).expect_err("out-of-range RAM address must fail");
    assert!(error.to_string().contains("outside the canonical Jolt memory"));
}

#[test]
fn ram_address_error_names_row_and_interval() {
    let pp = preprocessing();
    assert_eq!(
        validate_ram_address(&pp, 3, 1, 0x10),
        Err(DirectChunkedError::InvalidBlock {
            block_index: 3,
            reason: "RAM access at row 1 uses address 0x10 outside the canonical Jolt memory interval [0x7fff8000, 0x82001000)".to_string(),
        })
    );
    assert!(validate_ram_address(&pp, 0, 0, 0x7fff_8008).is_ok());
}

#[test]
fn initial_ram_table_keeps_first_touch_values_sorted() {
    let blocks = [
        ram_block(
            0,
            vec![
                RamAccess::Write {
                    address: 0x30,
                    pre_value: 3,
                    post_value: 4,
                },
                RamAccess::Read {
                    address: 0x10,
                    value: 1,
                },
            ],
        ),
        ram_block(
            1,
            vec![
                RamAccess::Read {
                    address: 0x30,
                    value: 4,
                },
                RamAccess::NoOp,
                RamAccess::Write {
                    address: 0x20,
                    pre_value: 2,
                    post_value: 5,
                },
            ],
        ),
    ];
    let (addresses, values) = initial_ram_table(&blocks);
    assert_eq!(addresses, vec![0x10, 0x20, 0x30]);
    assert_eq!(values, vec![1, 2, 3]);
}

#[test]
fn tree_size_is_the_next_power_of_two_of_at_least_one() {
    assert_eq!(tree_size(0), 1);
    assert_eq!(tree_size(1), 1);
    assert_eq!(tree_size(3), 4);
    assert_eq!(tree_size(8), 8);
    assert_eq!(tree_size(9), 16);
}

#[test]
fn execution_inputs_are_bounded_by_the_layout() {
    let pp = preprocessing();
    assert!(validate_execution_inputs(&pp, &execution()).is_ok());
    let mut large = execution();
    large.trusted_advice = vec![0; 4097];
    assert_eq!(
        validate_execution_inputs(&pp, &large),
        Err(DirectChunkedError::InvalidConfiguration(
            "trusted advice has 4097 bytes, exceeding configured maximum 4096".to_string()
        ))
    );
}

#[test]
fn advice_commitment_hashes_both_advice_regions_with_lengths() {
    let mut hasher = Sha3_256::new();
    hasher.update(b"direct-clear-advice-v1");
    hasher.update(1u64.to_le_bytes());
    hasher.update([9u8]);
    hasher.update(2u64.to_le_bytes());
    hasher.update([10u8, 11]);
    let expected: [u8; 32] = hasher.finalize().into();
    assert_eq!(advice_commitment(&execution()), expected);
}

#[test]
fn initial_memory_reads_inputs_advice_and_program_image() {
    let pp = preprocessing();
    let ex = execution();
    assert_eq!(byte_at(&pp, &ex, INPUT + 1), 2);
    assert_eq!(byte_at(&pp, &ex, INPUT + 3), 0);
    assert_eq!(byte_at(&pp, &ex, TRUSTED_ADVICE), 9);
    assert_eq!(byte_at(&pp, &ex, UNTRUSTED_ADVICE + 1), 11);
    assert_eq!(byte_at(&pp, &ex, RAM_START_ADDRESS + 2), 3);
    assert_eq!(byte_at(&pp, &ex, RAM_START_ADDRESS + 8), 0x11);
    assert_eq!(byte_at(&pp, &ex, RAM_START_ADDRESS + 16), 0);
    assert_eq!(
        initial_word(&pp, &ex, RAM_START_ADDRESS),
        0x0807_0605_0403_0201
    );
    assert_eq!(initial_word(&pp, &ex, INPUT), 0x0003_0201);
    assert_eq!(
        canonical_initial_values(&pp, &ex, &[RAM_START_ADDRESS + 8, UNTRUSTED_ADVICE]),
        vec![0x1111_1111_1111_1111, 0x0b0a]
    );
}

fn write_subclaim(address: u64, value: u64) -> DirectRamSubclaim {
    DirectRamSubclaim {
        block: DirectRamBlockWitness {
            block_index: 0,
            global_cycle_start: 0,
            active_cycles: 1,
            cycle_capacity: 2,
            terminated: true,
            address_count: 1,
            tree_depth: 0,
            registry_root: [0; 32],
            start_root: [0; 32],
            end_root: [0; 32],
            query_root: [0; 32],
            cycles: vec![
                DirectRamCycleWitness {
                    active: true,
                    kind: 2,
                    address,
                    read_value: 0,
                    write_value: value,
                    leaf_index: 0,
                    registry_path: vec![],
                    memory_path: vec![],
                    root_before: [0; 32],
                    root_after: [0; 32],
                },
                DirectRamCycleWitness {
                    active: false,
                    kind: 2,
                    address: OUTPUT + 8,
                    read_value: 0,
                    write_value: 0xff,
                    leaf_index: 0,
                    registry_path: vec![],
                    memory_path: vec![],
                    root_before: [0; 32],
                    root_after: [0; 32],
                },
            ],
        },
        transcript_state_before: [0; 32],
        transcript_round_before: 0,
        transcript_state_after: [0; 32],
        transcript_round_after: 0,
    }
}

#[test]
fn public_outputs_must_equal_the_active_ram_writes() {
    let pp = preprocessing();
    let ex = execution();
    assert!(validate_public_outputs(&pp, &ex, &[write_subclaim(OUTPUT, 0x0807)]).is_ok());
    let mismatch = DirectChunkedError::InvalidProofShape(
        "D6 public output or panic binding mismatch".to_string(),
    );
    assert_eq!(
        validate_public_outputs(&pp, &ex, &[write_subclaim(OUTPUT, 0x0907)]),
        Err(mismatch.clone())
    );
    assert_eq!(
        validate_public_outputs(&pp, &ex, &[write_subclaim(OUTPUT, 0x01_0000_0807)]),
        Err(mismatch.clone())
    );
    let mut panicked = execution();
    panicked.panic = true;
    assert_eq!(
        validate_public_outputs(&pp, &panicked, &[write_subclaim(OUTPUT, 0x0807)]),
        Err(mismatch.clone())
    );
    assert!(validate_public_outputs(
        &pp,
        &panicked,
        &[
            write_subclaim(OUTPUT, 0x0807),
            write_subclaim(PANIC, 1)
        ]
    )
    .is_ok());
}

fn access_cycles(accesses: Vec<RamAccess>) -> Vec<Cycle> {
    accesses
        .into_iter()
        .map(|access| {
            let mut cycle = Cycle::no_op();
            cycle.ram_access = access;
            cycle
        })
        .collect()
}

#[test]
fn ram_reads_see_the_last_write_across_blocks() {
    let addresses = [0x100u64, 0x108];
    let mut memory = vec![0u64, 0];
    let first = access_cycles(vec![
        RamAccess::Write {
            address: 0x100,
            pre_value: 0,
            post_value: 9,
        },
        RamAccess::Write {
            address: 0x108,
            pre_value: 0,
            post_value: 9,
        },
    ]);
    apply_ram_block(0, &addresses, &mut memory, &first).unwrap();
    assert_eq!(memory, vec![9, 9]);
    let second = access_cycles(vec![
        RamAccess::Read {
            address: 0x100,
            value: 9,
        },
        RamAccess::NoOp,
        RamAccess::Read {
            address: 0x108,
            value: 9,
        },
    ]);
    let mut replayed = memory.clone();
    apply_ram_block(1, &addresses, &mut replayed, &second).unwrap();
    assert_eq!(replayed, vec![9, 9]);
}

#[test]
fn ram_stale_cross_block_read_is_rejected() {
    let addresses = [0x100u64, 0x108];
    let mut memory = vec![9u64, 9];
    let stale = access_cycles(vec![
        RamAccess::Read {
            address: 0x108,
            value: 9,
        },
        RamAccess::Read {
            address: 0x100,
            value: 7,
        },
    ]);
    assert_eq!(
        apply_ram_block(1, &addresses, &mut memory, &stale),
        Err(DirectChunkedError::InvalidBlock {
            block_index: 1,
            reason: "RAM read at row 1, address 0x100 has value 7, expected 9".to_string(),
        })
    );
}

#[test]
fn ram_write_from_the_wrong_value_is_rejected_after_earlier_writes() {
    let addresses = [0x100u64, 0x108, 0x110];
    let mut memory = vec![1u64, 2, 3];
    let cycles = access_cycles(vec![
        RamAccess::Write {
            address: 0x110,
            pre_value: 3,
            post_value: 30,
        },
        RamAccess::Write {
            address: 0x100,
            pre_value: 5,
            post_value: 50,
        },
    ]);
    assert_eq!(
        apply_ram_block(4, &addresses, &mut memory, &cycles),
        Err(DirectChunkedError::InvalidBlock {
            block_index: 4,
            reason: "RAM write at row 1, address 0x100 has pre-value 5, expected 1".to_string(),
        })
    );
    assert_eq!(memory, vec![1, 2, 30]);
}
