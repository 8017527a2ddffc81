use std::collections::BTreeMap;

use direct_chunked::{
    rechunk_source_block, spool_error, spool_record_length, validate_source_block, SpoolTraceBlock, Cycle, DirectChunkedError,
    DirectChunkedPreprocessing, DirectProvingMetrics, DirectTraceCapture,
    DirectTraceCaptureSummary, MachineBoundaryState, RamAccess, TraceBlock, RAM_START_ADDRESS,
    REGISTER_COUNT,
};

fn boundary(cycle: usize, terminated: bool) -> MachineBoundaryState {
    MachineBoundaryState {
        global_cycle: cycle,
        emulator_trace_len: cycle,
        pc: 0,
        registers: [0; REGISTER_COUNT],
        terminated,
    }
}

fn blocks(count: usize) -> Vec<TraceBlock> {
    (0..count)
        .map(|index| TraceBlock {
            block_index: index,
            global_cycle_start: index,
            active_cycles: 1,
            target_size: 2,
            start_state: boundary(index, false),
            end_state: boundary(index + 1, index + 1 == count),
            cycles: vec![Cycle::no_op()],
            ended_at_tick_boundary: true,
        })
        .collect()
}

fn preprocessing() -> DirectChunkedPreprocessing {
    DirectChunkedPreprocessing::from_program_bytes(b"d8-spool-test", 64)
}

/// Drives a capture the way a spooling runner does, keeping the spooled
/// blocks in memory in place of a spool file.
fn capture(
    preprocessing: &DirectChunkedPreprocessing,
    capacity: usize,
    sources: impl IntoIterator<Item = TraceBlock>,
) -> Result<(DirectTraceCaptureSummary, Vec<TraceBlock>), DirectChunkedError> {
    let mut capture = DirectTraceCapture::new(preprocessing, capacity, None);
    let mut spooled = Vec::new();
    for source in sources {
        let mut chunks = capture.begin_source_block(source, None)?;
        while let Some(block) = chunks.next() {
            let block = block?;
            capture.admit_block(&block)?;
            capture.record_spooled_block(100);
            spooled.push(block);
        }
    }
    Ok((capture.finish(0, None)?, spooled))
}

fn replay_metrics(summary: &DirectTraceCaptureSummary, spooled: &[TraceBlock]) -> DirectProvingMetrics {
    let mut metrics = summary.metrics.clone();
    for (position, current) in spooled.iter().enumerate() {
        metrics.observe_resident_blocks(current, spooled.get(position + 1), None);
    }
    metrics
}

#[test]
fn d8_trace_spool_replay_keeps_only_current_and_lookahead_blocks() {
    let (summary, spooled) = capture(&preprocessing(), 2, blocks(4)).unwrap();
    assert_eq!(summary.audit.block_count, 4);
    assert_eq!(summary.metrics.max_resident_trace_blocks, 1);
    assert_eq!(spooled.len(), 4);
    let metrics = replay_metrics(&summary, &spooled);
    assert_eq!(metrics.max_resident_trace_blocks, 2);
    assert_eq!(metrics.max_resident_trace_cycles, 2);
    assert!(metrics.trace_residency_is_bounded(2));
    assert!(metrics.spooled_trace_bytes > 0);
}

#[test]
fn d8_trace_residency_does_not_grow_with_block_count() {
    let run = |count| {
        let (summary, spooled) = capture(&preprocessing(), 2, blocks(count)).unwrap();
        replay_metrics(&summary, &spooled)
    };
    let four_blocks = run(4);
    let sixty_four_blocks = run(64);
    assert_eq!(four_blocks.max_resident_trace_blocks, 2);
    assert_eq!(sixty_four_blocks.max_resident_trace_blocks, 2);
    assert_eq!(four_blocks.max_resident_trace_cycles, 2);
    assert_eq!(sixty_four_blocks.max_resident_trace_cycles, 2);
    assert_eq!(
        four_blocks.estimated_peak_resident_trace_bytes,
        sixty_four_blocks.estimated_peak_resident_trace_bytes
    );
    assert!(sixty_four_blocks.trace_residency_is_bounded(2));
}

#[test]
fn d8_trace_spool_rejects_dropped_reordered_duplicated_and_forged_blocks() {
    let pp = preprocessing();

    let mut dropped = blocks(3);
    dropped.remove(1);
    assert!(capture(&pp, 2, dropped).is_err());

    let mut reordered = blocks(3);
    reordered.swap(0, 1);
    assert!(capture(&pp, 2, reordered).is_err());

    let mut duplicated = blocks(3);
    duplicated.insert(2, duplicated[1].clone());
    assert!(capture(&pp, 2, duplicated).is_err());

    let mut forged = blocks(3);
    forged[1].start_state.registers[7] = 1;
    assert!(capture(&pp, 2, forged).is_err());
}

#[test]
fn d8_soft_source_block_is_hard_rechunked_without_losing_boundaries() {
    let (summary, spooled) = capture(
        &preprocessing(),
        2,
        blocks(1).into_iter().map(|mut block| {
            block.active_cycles = 3;
            block.cycles = vec![Cycle::no_op(); 3];
            block.end_state.global_cycle = 3;
            block.end_state.emulator_trace_len = 3;
            block
        }),
    )
    .unwrap();
    assert_eq!(summary.metrics.source_block_count, 1);
    assert_eq!(summary.audit.block_count, 2);
    assert_eq!(summary.audit.total_cycles, 3);
    assert_eq!(summary.metrics.max_source_trace_cycles, 3);
    assert!(summary.metrics.trace_residency_is_bounded(2));

    assert_eq!(spooled.len(), 2);
    let first = &spooled[0];
    let second = &spooled[1];
    assert_eq!((first.block_index, first.active_cycles), (0, 2));
    assert_eq!((second.block_index, second.active_cycles), (1, 1));
    assert_eq!(first.end_state, second.start_state);
    assert!(second.end_state.terminated);
}

#[test]
fn d8_rejects_unbounded_soft_source_expansion() {
    let mut oversized = blocks(1).remove(0);
    oversized.active_cycles = 5;
    oversized.cycles = vec![Cycle::no_op(); 5];
    oversized.end_state.global_cycle = 5;
    oversized.end_state.emulator_trace_len = 5;
    let error = match capture(&preprocessing(), 2, [oversized]) {
        Ok(_) => panic!("oversized soft source block was accepted"),
        Err(error) => error,
    };
    assert!(error.to_string().contains("bounded hard-rechunk limit 4"));
}

#[test]
fn capture_of_no_blocks_is_an_empty_trace() {
    assert_eq!(
        capture(&preprocessing(), 2, Vec::new()).unwrap_err(),
        DirectChunkedError::EmptyTrace
    );
}

#[test]
fn capture_requires_a_terminated_trace() {
    let mut unterminated = blocks(2);
    unterminated[1].end_state.terminated = false;
    assert_eq!(
        capture(&preprocessing(), 2, unterminated).unwrap_err(),
        DirectChunkedError::InvalidBlock {
            block_index: 1,
            reason: "D8 production trace is not terminated".to_string(),
        }
    );
}

#[test]
fn capture_requires_entry_pc_and_zero_registers() {
    let mut moved = blocks(1);
    moved[0].start_state.pc = 8;
    moved[0].end_state.pc = 8;
    assert_eq!(
        capture(&preprocessing(), 2, moved).unwrap_err(),
        DirectChunkedError::InvalidBlock {
            block_index: 0,
            reason: "D8 production trace does not start from the verifier-known entry PC and zero register state".to_string(),
        }
    );
}

#[test]
fn capture_counts_spooled_bytes_and_first_touch_ram() {
    let preprocessing = preprocessing();
    let address = RAM_START_ADDRESS + 0x100;
    let mut trace = blocks(2);
    trace[0].cycles[0].ram_access = RamAccess::Write {
        address,
        pre_value: 5,
        post_value: 6,
    };
    trace[1].cycles[0].ram_access = RamAccess::Read {
        address,
        value: 6,
    };
    let (summary, _) = capture(&preprocessing, 2, trace).unwrap();
    assert_eq!(summary.initial_ram.entries, BTreeMap::from([(address, 5)]));
    assert_eq!(summary.initial_ram.sorted_columns(), (vec![address], vec![5]));
    assert_eq!(summary.metrics.peak_tracked_ram_addresses, 1);
    assert_eq!(summary.metrics.initial_ram_registry_bytes, 16);
    assert_eq!(summary.metrics.spooled_trace_bytes, 2 * (8 + 100));
    assert_eq!(summary.metrics.max_serialized_block_bytes, 100);
}

#[test]
fn rechunker_threads_register_writes_across_new_boundaries() {
    let mut source = blocks(1).remove(0);
    let mut write = Cycle::no_op();
    write.rd_write = Some((3, 0, 9));
    source.cycles = vec![write, Cycle::no_op(), Cycle::no_op()];
    source.active_cycles = 3;
    source.end_state.global_cycle = 3;
    source.end_state.registers[3] = 9;
    let mut chunks = rechunk_source_block(source, 2, 0);
    let first = chunks.next().unwrap().unwrap();
    assert_eq!(first.end_state.registers[3], 9);
    assert_eq!(first.end_state.global_cycle, 2);
    assert!(!first.end_state.terminated);
    let second = chunks.next().unwrap().unwrap();
    assert_eq!(second.start_state, first.end_state);
    assert!(second.end_state.terminated);
    assert!(chunks.next().is_none());
}

#[test]
fn rechunker_rejects_a_write_from_the_wrong_value() {
    let mut source = blocks(1).remove(0);
    let mut write = Cycle::no_op();
    write.rd_write = Some((3, 1, 9));
    source.cycles = vec![write];
    let mut chunks = rechunk_source_block(source, 2, 0);
    assert_eq!(
        chunks.next().unwrap().unwrap_err(),
        DirectChunkedError::InvalidBlock {
            block_index: 0,
            reason: "hard rechunk register pre-value mismatch at source row 0".to_string(),
        }
    );
}

#[test]
fn source_block_shape_errors() {
    let mut late = blocks(1).remove(0);
    late.ended_at_tick_boundary = false;
    assert_eq!(
        validate_source_block(&late).unwrap_err(),
        DirectChunkedError::InvalidBlock {
            block_index: 0,
            reason: "source block is not cut at an emulator tick boundary".to_string(),
        }
    );
    assert!(validate_source_block(&blocks(1)[0]).is_ok());
}

#[test]
fn spool_errors_are_invalid_proof_shapes() {
    assert_eq!(
        spool_error("disk full"),
        DirectChunkedError::InvalidProofShape("D8 bounded trace spool failure: disk full".to_string())
    );
}

#[test]
fn memory_observations_track_the_peak_and_its_delta() {
    let mut metrics = DirectProvingMetrics {
        start_physical_memory_bytes: Some(100),
        peak_observed_physical_memory_bytes: Some(100),
        ..DirectProvingMetrics::default()
    };
    assert_eq!(metrics.observe_memory(Some(150)), Some(150));
    assert_eq!(metrics.observe_memory(Some(120)), Some(120));
    assert_eq!(metrics.observe_memory(None), None);
    assert_eq!(metrics.peak_observed_physical_memory_bytes, Some(150));
    assert_eq!(metrics.peak_physical_memory_delta_bytes(), Some(50));
    let unobserved = DirectProvingMetrics::default();
    assert_eq!(unobserved.peak_physical_memory_delta_bytes(), None);
}

#[test]
fn residency_bound_checks_passes_blocks_and_cycles() {
    let bounded = DirectProvingMetrics {
        trace_passes: 2,
        max_resident_trace_blocks: 2,
        max_source_trace_cycles: 4,
        max_resident_trace_cycles: 6,
        ..DirectProvingMetrics::default()
    };
    assert!(bounded.trace_residency_is_bounded(2));
    assert!(!DirectProvingMetrics {
        max_resident_trace_cycles: 7,
        ..bounded.clone()
    }
    .trace_residency_is_bounded(2));
    assert!(!DirectProvingMetrics {
        trace_passes: 3,
        ..bounded.clone()
    }
    .trace_residency_is_bounded(2));
}

#[test]
fn spool_record_reads_back_as_the_spooled_block() {
    let mut block = blocks(2).remove(1);
    block.start_state.registers[3] = -7;
    block.end_state.registers[3] = -7;
    let record = SpoolTraceBlock::from_block(block.clone());
    assert_eq!(record.start_state.registers.len(), REGISTER_COUNT);
    assert_eq!(record.into_block().unwrap(), block);
}

#[test]
fn spool_record_with_wrong_register_count_is_refused() {
    let mut record = SpoolTraceBlock::from_block(blocks(1).remove(0));
    record.end_state.registers.pop();
    assert_eq!(
        record.into_block().unwrap_err(),
        DirectChunkedError::InvalidProofShape(
            "D8 trace spool boundary contains 127 registers instead of 128".to_string()
        )
    );
}

#[test]
fn spool_record_length_is_bounded_by_the_captured_maximum() {
    assert_eq!(spool_record_length(40, 40), Ok(40));
    assert_eq!(
        spool_record_length(41, 40),
        Err(DirectChunkedError::InvalidProofShape(
            "D8 trace spool record length 41 exceeds captured maximum 40".to_string()
        ))
    );
}

#[test]
fn rechunking_emits_consecutive_capacity_slices() {
    let mut source = blocks(1).remove(0);
    source.block_index = 3;
    source.global_cycle_start = 10;
    source.start_state = boundary(10, false);
    source.end_state = boundary(15, true);
    source.active_cycles = 5;
    source.cycles = (0..5u8)
        .map(|row| {
            let mut cycle = Cycle::no_op();
            cycle.trace_text = vec![row];
            cycle
        })
        .collect();
    let mut chunks = rechunk_source_block(source.clone(), 2, 7);
    let mut emitted = Vec::new();
    while let Some(block) = chunks.next() {
        emitted.push(block.unwrap());
    }
    assert_eq!(emitted.len(), (5 + 2 - 1) / 2);
    for (j, block) in emitted.iter().enumerate() {
        assert_eq!(block.block_index, 7 + j);
        assert_eq!(block.global_cycle_start, 10 + 2 * j);
        assert_eq!(block.target_size, 2);
        assert!(block.ended_at_tick_boundary);
        let end = (2 * (j + 1)).min(5);
        assert_eq!(block.cycles, source.cycles[2 * j..end].to_vec());
        assert_eq!(block.active_cycles, block.cycles.len());
    }
    assert_eq!(emitted[0].start_state, source.start_state);
    assert_eq!(emitted[0].end_state, emitted[1].start_state);
    assert_eq!(emitted[1].end_state, emitted[2].start_state);
    assert_eq!(emitted[2].end_state, source.end_state);
    assert!(chunks.next().is_none());
}

#[test]
fn finished_capture_reports_a_whole_production_trace() {
    let (summary, _) = capture(&preprocessing(), 2, blocks(3)).unwrap();
    assert_eq!(summary.audit.first_state.global_cycle, 0);
    assert_eq!(summary.audit.first_state.pc, preprocessing().entry_address);
    assert!(summary.audit.first_state.registers.iter().all(|r| *r == 0));
    assert!(summary.audit.final_state.terminated);
    assert_eq!(summary.audit.block_count, summary.metrics.block_count);
    assert_eq!(summary.audit.total_cycles, summary.metrics.total_active_cycles);
    assert!(summary.metrics.total_active_cycles <= preprocessing().max_padded_trace_length);
    assert_eq!(summary.metrics.trace_passes, 2);
    assert!(summary.metrics.max_resident_trace_blocks <= 2);
    assert!(summary.metrics.max_source_trace_cycles <= 4);
}
