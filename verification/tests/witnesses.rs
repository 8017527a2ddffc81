use direct_chunked::{
    validate_and_apply_cycle, validate_combined_sequence, validate_lookup_subclaim_sequence,
    Cycle, DirectChunkedConfig, DirectChunkedError, DirectChunkedPreprocessing, DirectChunkedProver, DirectLookupBlockWitness,
    DirectLookupCycleWitness, DirectRegisterBlockWitness, DirectRegisterCycleWitness,
    DirectRegisterReadWitness, DirectRegisterWriteWitness, LookupQueryRecord,
    MachineBoundaryState, TraceBlock, NO_LOOKUP_TABLE_ID, REGISTER_COUNT, lookup_block_size,
    register_block_size, validate_read,
};

fn boundary(cycle: usize, registers: [i64; REGISTER_COUNT], terminated: bool) -> MachineBoundaryState {
    MachineBoundaryState {
        global_cycle: cycle,
        emulator_trace_len: cycle,
        pc: 0,
        registers,
        terminated,
    }
}

fn register_block(cycles: Vec<Cycle>, end_registers: [i64; REGISTER_COUNT]) -> TraceBlock {
    let active = cycles.len();
    TraceBlock {
        block_index: 0,
        global_cycle_start: 0,
        active_cycles: active,
        target_size: active,
        start_state: boundary(0, [0; REGISTER_COUNT], false),
        end_state: boundary(active, end_registers, true),
        cycles,
        ended_at_tick_boundary: true,
    }
}

fn write(register: u8, pre: u64, post: u64) -> Cycle {
    let mut cycle = Cycle::no_op();
    cycle.rd_write = Some((register, pre, post));
    cycle
}

fn read(register: u8, value: u64) -> Cycle {
    let mut cycle = Cycle::no_op();
    cycle.rs1_read = Some((register, value));
    cycle
}

#[test]
fn d3_intra_block_write_is_visible_to_later_read() {
    let mut end = [0; REGISTER_COUNT];
    end[5] = 42;
    let block = register_block(vec![write(5, 0, 42), Cycle::no_op(), read(5, 42)], end);
    let witness = DirectRegisterBlockWitness::from_trace_block(&block, 4).unwrap();
    assert_eq!(witness.active_cycles, 3);
    assert_eq!(witness.cycles.len(), 4);
    assert_eq!(witness.end_registers[5], 42);
    assert!(!witness.cycles[3].active);
    assert_eq!(witness.cycles[2].rs1.value, 42);
}

fn two_register_blocks() -> Vec<TraceBlock> {
    let mut middle = [0; REGISTER_COUNT];
    middle[3] = 9;
    let first = TraceBlock {
        block_index: 0,
        global_cycle_start: 0,
        active_cycles: 2,
        target_size: 2,
        start_state: boundary(0, [0; REGISTER_COUNT], false),
        end_state: boundary(2, middle, false),
        cycles: vec![write(3, 0, 9), read(3, 9)],
        ended_at_tick_boundary: true,
    };
    let second = TraceBlock {
        block_index: 1,
        global_cycle_start: 2,
        active_cycles: 2,
        target_size: 2,
        start_state: boundary(2, middle, false),
        end_state: boundary(4, middle, true),
        cycles: vec![read(3, 9), Cycle::no_op()],
        ended_at_tick_boundary: true,
    };
    vec![first, second]
}

fn register_prover() -> DirectChunkedProver {
    DirectChunkedProver::new(
        DirectChunkedPreprocessing::from_program_bytes(b"register-test", 64),
        DirectChunkedConfig {
            block_capacity: 2,
            compress_final_spartan: false,
        },
    )
    .unwrap()
}

#[test]
fn d3_rejects_forged_register_read_or_boundary() {
    let blocks = two_register_blocks();
    assert!(DirectRegisterBlockWitness::from_trace_block(&blocks[0], 2).is_ok());
    assert!(DirectRegisterBlockWitness::from_trace_block(&blocks[1], 2).is_ok());
    assert!(register_prover().audit_trace_blocks(&blocks).is_ok());

    let mut forged_read = two_register_blocks();
    forged_read[0].cycles[1] = read(3, 9 ^ 1);
    assert_eq!(
        DirectRegisterBlockWitness::from_trace_block(&forged_read[0], 2).unwrap_err(),
        DirectChunkedError::InvalidBlock {
            block_index: 0,
            reason: "rs1 read does not match the authenticated register state".to_string(),
        }
    );

    let mut forged_boundary = two_register_blocks();
    forged_boundary[1].start_state.registers[3] ^= 1;
    assert!(register_prover().audit_trace_blocks(&forged_boundary).is_err());

    let mut soft_boundary = two_register_blocks();
    soft_boundary[0].ended_at_tick_boundary = false;
    assert!(register_prover().audit_trace_blocks(&soft_boundary).is_err());
}

#[test]
fn register_replay_must_reconstruct_the_end_state() {
    let block = register_block(vec![write(5, 0, 42)], [0; REGISTER_COUNT]);
    assert_eq!(
        DirectRegisterBlockWitness::from_trace_block(&block, 4).unwrap_err(),
        DirectChunkedError::InvalidBlock {
            block_index: 0,
            reason: "register accesses do not reconstruct end_state.registers".to_string(),
        }
    );
}

#[test]
fn register_block_must_fit_the_circuit_shape() {
    let block = register_block(vec![Cycle::no_op(); 3], [0; REGISTER_COUNT]);
    assert!(DirectRegisterBlockWitness::from_trace_block(&block, 3).is_err());
    assert!(DirectRegisterBlockWitness::from_trace_block(&block, 2).is_err());
    assert!(DirectRegisterBlockWitness::from_trace_block(&block, 4).is_ok());
}

#[test]
fn validate_and_apply_cycle_updates_only_the_written_register() {
    let mut registers = [0u64; REGISTER_COUNT];
    let cycle = DirectRegisterCycleWitness {
        active: true,
        rs1: DirectRegisterReadWitness {
            enabled: true,
            register: 2,
            value: 0,
        },
        rs2: DirectRegisterReadWitness::default(),
        rd: DirectRegisterWriteWitness {
            enabled: true,
            register: 7,
            pre_value: 0,
            post_value: 11,
        },
    };
    validate_and_apply_cycle(0, &mut registers, &cycle).unwrap();
    assert_eq!(registers[7], 11);
    assert_eq!(registers.iter().filter(|v| **v != 0).count(), 1);

    let stale = DirectRegisterCycleWitness {
        rd: DirectRegisterWriteWitness {
            enabled: true,
            register: 7,
            pre_value: 0,
            post_value: 12,
        },
        ..cycle
    };
    assert_eq!(
        validate_and_apply_cycle(4, &mut registers, &stale).unwrap_err(),
        DirectChunkedError::InvalidBlock {
            block_index: 4,
            reason: "rd pre-value does not match the authenticated register state".to_string(),
        }
    );
    assert_eq!(registers[7], 11);

    let noncanonical = DirectRegisterCycleWitness {
        active: false,
        ..DirectRegisterCycleWitness::default()
    };
    assert!(validate_and_apply_cycle(0, &mut registers, &noncanonical).is_ok());
    let dirty_inactive = DirectRegisterCycleWitness {
        active: false,
        rs1: DirectRegisterReadWitness {
            enabled: false,
            register: 1,
            value: 0,
        },
        ..DirectRegisterCycleWitness::default()
    };
    assert_eq!(
        validate_and_apply_cycle(0, &mut registers, &dirty_inactive).unwrap_err(),
        DirectChunkedError::InvalidBlock {
            block_index: 0,
            reason: "inactive register cycle is not canonical zero".to_string(),
        }
    );
}

fn query(table_id: Option<u8>, output: u64, table_entry: u64) -> Cycle {
    let mut cycle = Cycle::no_op();
    cycle.lookup = Some(LookupQueryRecord {
        table_id,
        lookup_index: 17,
        left_operand: 3,
        right_operand: 4,
        output,
        table_entry,
        interleaved_operands: true,
    });
    cycle
}

#[test]
fn lookup_witness_checks_the_table_entry() {
    let witness = DirectLookupCycleWitness::from_cycle(&query(Some(5), 9, 9), 0).unwrap();
    assert!(witness.active);
    assert_eq!(witness.table_id, 5);
    assert_eq!(witness.output, 9);
    assert!(!witness.raf_identity_path);
    assert_eq!(
        DirectLookupCycleWitness::from_cycle(&query(Some(5), 9, 8), 2).unwrap_err(),
        DirectChunkedError::InvalidBlock {
            block_index: 2,
            reason: "lookup implementation/table mismatch: table 5, index 17, output 9, expected 8"
                .to_string(),
        }
    );
    let untabled = DirectLookupCycleWitness::from_cycle(&query(None, 0, 0), 0).unwrap();
    assert_eq!(untabled.table_id, NO_LOOKUP_TABLE_ID);
    assert!(DirectLookupCycleWitness::from_cycle(&query(None, 1, 1), 0).is_err());
    let mut not_final = Cycle::no_op();
    not_final.lookup = None;
    assert!(DirectLookupCycleWitness::from_cycle(&not_final, 0).is_err());
}

#[test]
fn lookup_block_witness_is_padded_to_capacity() {
    let block = register_block(vec![query(Some(1), 2, 2), Cycle::no_op()], [0; REGISTER_COUNT]);
    let witness = DirectLookupBlockWitness::from_trace_block(&block, 4).unwrap();
    assert_eq!(witness.cycles.len(), 4);
    assert_eq!(witness.active_cycles, 2);
    assert!(witness.cycles[1].active);
    assert_eq!(witness.cycles[2], DirectLookupCycleWitness::default());
    assert!(witness.terminated);
}

fn lookup_blocks(sizes: &[usize]) -> Vec<DirectLookupBlockWitness> {
    let mut start = 0;
    sizes
        .iter()
        .enumerate()
        .map(|(index, active)| {
            let block = DirectLookupBlockWitness {
                block_index: index,
                global_cycle_start: start,
                active_cycles: *active,
                cycle_capacity: 4,
                terminated: index + 1 == sizes.len(),
                cycles: vec![DirectLookupCycleWitness::default(); 4],
            };
            start += *active;
            block
        })
        .collect()
}

fn register_blocks(lookups: &[DirectLookupBlockWitness]) -> Vec<DirectRegisterBlockWitness> {
    lookups
        .iter()
        .map(|lookup| DirectRegisterBlockWitness {
            block_index: lookup.block_index,
            global_cycle_start: lookup.global_cycle_start,
            active_cycles: lookup.active_cycles,
            cycle_capacity: lookup.cycle_capacity,
            terminated: lookup.terminated,
            start_registers: [0; REGISTER_COUNT],
            end_registers: [0; REGISTER_COUNT],
            cycles: vec![DirectRegisterCycleWitness::default(); 4],
        })
        .collect()
}

#[test]
fn lookup_sequence_returns_count_and_total() {
    let preprocessing = DirectChunkedPreprocessing::from_program_bytes(b"seq", 16);
    let blocks = lookup_blocks(&[4, 3, 1]);
    assert_eq!(
        validate_lookup_subclaim_sequence(&preprocessing, 4, &blocks),
        Ok((3, 8))
    );
    assert_eq!(
        validate_lookup_subclaim_sequence(&preprocessing, 4, &[]),
        Err(DirectChunkedError::EmptyTrace)
    );
    assert_eq!(
        validate_lookup_subclaim_sequence(&preprocessing, 3, &blocks),
        Err(DirectChunkedError::InvalidConfiguration(
            "direct lookup capacity must be a non-zero power of two".to_string()
        ))
    );
}

#[test]
fn lookup_sequence_rejects_gaps_reordering_and_early_termination() {
    let preprocessing = DirectChunkedPreprocessing::from_program_bytes(b"seq", 16);
    let mut gap = lookup_blocks(&[4, 3, 1]);
    gap[2].global_cycle_start = 8;
    assert_eq!(
        validate_lookup_subclaim_sequence(&preprocessing, 4, &gap),
        Err(DirectChunkedError::DiscontinuousBlocks {
            previous_block: 1,
            next_block: 2,
            reason: "lookup global cycle boundary is discontinuous".to_string(),
        })
    );
    let mut reordered = lookup_blocks(&[4, 3, 1]);
    reordered.swap(0, 1);
    assert_eq!(
        validate_lookup_subclaim_sequence(&preprocessing, 4, &reordered),
        Err(DirectChunkedError::InvalidBlock {
            block_index: 1,
            reason: "expected block 0 with fixed lookup capacity 4".to_string(),
        })
    );
    let mut early = lookup_blocks(&[4, 3, 1]);
    early[1].terminated = true;
    assert_eq!(
        validate_lookup_subclaim_sequence(&preprocessing, 4, &early),
        Err(DirectChunkedError::InvalidBlock {
            block_index: 1,
            reason: "only the final lookup block may terminate the trace".to_string(),
        })
    );
    let mut open = lookup_blocks(&[4, 3, 1]);
    open[2].terminated = false;
    assert_eq!(
        validate_lookup_subclaim_sequence(&preprocessing, 4, &open),
        Err(DirectChunkedError::InvalidBlock {
            block_index: 2,
            reason: "final lookup block must terminate the trace".to_string(),
        })
    );
    let short = DirectChunkedPreprocessing::from_program_bytes(b"seq", 7);
    assert_eq!(
        validate_lookup_subclaim_sequence(&short, 4, &lookup_blocks(&[4, 3, 1])),
        Err(DirectChunkedError::TraceTooLong {
            observed: 8,
            maximum: 7
        })
    );
}

#[test]
fn combined_sequence_links_register_boundaries() {
    let preprocessing = DirectChunkedPreprocessing::from_program_bytes(b"seq", 16);
    let lookups = lookup_blocks(&[4, 2]);
    let mut registers = register_blocks(&lookups);
    assert_eq!(
        validate_combined_sequence(&preprocessing, 4, &lookups, &registers),
        Ok((2, 6))
    );
    registers[0].end_registers[9] = 1;
    assert_eq!(
        validate_combined_sequence(&preprocessing, 4, &lookups, &registers),
        Err(DirectChunkedError::DiscontinuousBlocks {
            previous_block: 0,
            next_block: 1,
            reason: "register end boundary does not equal next start boundary".to_string(),
        })
    );
    registers[1].start_registers[9] = 1;
    assert!(validate_combined_sequence(&preprocessing, 4, &lookups, &registers).is_ok());
    registers[1].active_cycles = 1;
    assert_eq!(
        validate_combined_sequence(&preprocessing, 4, &lookups, &registers),
        Err(DirectChunkedError::InvalidBlock {
            block_index: 1,
            reason: "lookup/register block metadata differs".to_string(),
        })
    );
    assert_eq!(
        validate_combined_sequence(&preprocessing, 4, &lookups, &registers[..1]),
        Err(DirectChunkedError::InvalidProofShape(
            "lookup/register subclaim counts differ".to_string()
        ))
    );
}

#[test]
fn register_read_is_checked_against_the_register_state() {
    let mut registers = [0u64; REGISTER_COUNT];
    registers[5] = 42;
    let good = DirectRegisterReadWitness { enabled: true, register: 5, value: 42 };
    assert_eq!(validate_read(3, &registers, &good, "rs2"), Ok(()));
    assert_eq!(validate_read(3, &registers, &DirectRegisterReadWitness::default(), "rs2"), Ok(()));
    let stale = DirectRegisterReadWitness { enabled: true, register: 5, value: 41 };
    assert_eq!(
        validate_read(3, &registers, &stale, "rs2"),
        Err(DirectChunkedError::InvalidBlock {
            block_index: 3,
            reason: "rs2 read does not match the authenticated register state".to_string(),
        })
    );
    let missing = DirectRegisterReadWitness { enabled: true, register: 200, value: 0 };
    assert!(validate_read(3, &registers, &missing, "rs1").is_err());
    let noisy = DirectRegisterReadWitness { enabled: false, register: 0, value: 1 };
    assert_eq!(
        validate_read(3, &registers, &noisy, "rs1"),
        Err(DirectChunkedError::InvalidBlock {
            block_index: 3,
            reason: "disabled rs1 register access is not canonical zero".to_string(),
        })
    );
}

#[test]
fn block_witness_sizes_follow_the_accounting_model() {
    let block = register_block(vec![write(5, 0, 42), read(5, 42)], {
        let mut end = [0; REGISTER_COUNT];
        end[5] = 42;
        end
    });
    let register = DirectRegisterBlockWitness::from_trace_block(&block, 4).unwrap();
    assert_eq!(register_block_size(&register), 4 * 8 + 1 + 2 * REGISTER_COUNT * 8 + 8 + 4 * 39);
    let lookup = DirectLookupBlockWitness {
        block_index: 0,
        global_cycle_start: 0,
        active_cycles: 1,
        cycle_capacity: 2,
        terminated: true,
        cycles: vec![DirectLookupCycleWitness::default(); 2],
    };
    assert_eq!(lookup_block_size(&lookup), 4 * 8 + 1 + 8 + 2 * 51);
}
