use direct_chunked::{
    fixed_lookup_registry_commitment, validate_block, Cycle, DirectChunkedConfig,
    DirectChunkedError, DirectChunkedPreprocessing, DirectChunkedProof, DirectChunkedProver,
    DirectRelation, DirectRelationState, MachineBoundaryState, RelationMap, TraceBlock,
    DIRECT_CHUNKED_PROTOCOL_VERSION, REGISTER_COUNT,
};
use sha3::{Digest, Sha3_256};

fn boundary(global_cycle: usize, terminated: bool) -> MachineBoundaryState {
    MachineBoundaryState {
        global_cycle,
        emulator_trace_len: global_cycle,
        pc: (global_cycle * 4) as u64,
        registers: [0; REGISTER_COUNT],
        terminated,
    }
}

fn block(index: usize, start: usize, active: usize, terminated: bool) -> TraceBlock {
    TraceBlock {
        block_index: index,
        global_cycle_start: start,
        active_cycles: active,
        target_size: active,
        start_state: boundary(start, false),
        end_state: boundary(start + active, terminated),
        cycles: vec![Cycle::no_op(); active],
        ended_at_tick_boundary: true,
    }
}

fn prover(capacity: usize) -> DirectChunkedProver {
    DirectChunkedProver::new(
        DirectChunkedPreprocessing::from_program_bytes(b"direct-test", 64),
        DirectChunkedConfig {
            block_capacity: capacity,
            compress_final_spartan: false,
        },
    )
    .unwrap()
}

#[test]
fn d1_streams_contiguous_blocks() {
    let audit = prover(4)
        .audit_trace_blocks(&[block(0, 0, 2, false), block(1, 2, 2, true)])
        .unwrap();
    assert_eq!(audit.block_count, 2);
    assert_eq!(audit.total_cycles, 4);
    assert!(audit.final_state.terminated);
}

#[test]
fn d1_production_entry_fails_closed() {
    let error = prover(4).prove(&[block(0, 0, 1, true)]).unwrap_err();
    assert_eq!(
        error,
        DirectChunkedError::UnsupportedRelation {
            relation: DirectRelation::Lookup,
            audited_blocks: 1,
        }
    );
}

#[test]
fn d1_rejects_discontinuous_or_oversized_blocks() {
    let mut second = block(1, 2, 1, true);
    second.start_state.pc ^= 4;
    assert!(matches!(
        prover(4).audit_trace_blocks(&[block(0, 0, 2, false), second]),
        Err(DirectChunkedError::DiscontinuousBlocks { .. })
    ));
    assert!(matches!(
        prover(2).audit_trace_blocks(&[block(0, 0, 3, true)]),
        Err(DirectChunkedError::InvalidBlock { .. })
    ));
}

#[test]
fn d1_partial_statement_cannot_be_accepted_as_production_proof() {
    let prover = prover(4);
    let audit = prover.audit_trace_blocks(&[block(0, 0, 1, true)]).unwrap();
    let proof = DirectChunkedProof {
        statement: prover.architecture_statement(audit),
        folded_instance: vec![1],
        final_spartan: None,
        deferred_opening_digest: None,
    };
    assert!(matches!(
        proof.validate_production_shape(),
        Err(DirectChunkedError::UnclosedRelation {
            relation: DirectRelation::Lookup,
            ..
        })
    ));
}

#[test]
fn config_validation_accepts_only_powers_of_two() {
    for capacity in [1usize, 2, 4, 4096] {
        let config = DirectChunkedConfig {
            block_capacity: capacity,
            compress_final_spartan: true,
        };
        assert!(config.validate().is_ok());
    }
    for capacity in [0usize, 3, 6, 4095] {
        let config = DirectChunkedConfig {
            block_capacity: capacity,
            compress_final_spartan: true,
        };
        assert_eq!(
            config.validate(),
            Err(DirectChunkedError::InvalidConfiguration(
                "block_capacity must be a non-zero power of two".to_string()
            ))
        );
    }
    let default = DirectChunkedConfig::default();
    assert_eq!(default.block_capacity, 4096);
    assert!(default.compress_final_spartan);
}

#[test]
fn prover_new_rejects_invalid_capacity() {
    let result = DirectChunkedProver::new(
        DirectChunkedPreprocessing::from_program_bytes(b"x", 8),
        DirectChunkedConfig {
            block_capacity: 3,
            compress_final_spartan: false,
        },
    );
    assert!(matches!(
        result,
        Err(DirectChunkedError::InvalidConfiguration(_))
    ));
}

#[test]
fn empty_trace_is_rejected() {
    assert_eq!(
        prover(4).audit_trace_blocks(&[]),
        Err(DirectChunkedError::EmptyTrace)
    );
}

#[test]
fn audit_reports_an_unterminated_final_state() {
    let audit = prover(4)
        .audit_trace_blocks(&[block(0, 0, 2, false)])
        .unwrap();
    assert!(!audit.final_state.terminated);
    assert_eq!(audit.first_state, boundary(0, false));
}

#[test]
fn audit_requires_sequential_indices_from_zero() {
    assert_eq!(
        prover(4).audit_trace_blocks(&[block(1, 0, 2, true)]),
        Err(DirectChunkedError::InvalidBlock {
            block_index: 1,
            reason: "expected sequential block index 0".to_string(),
        })
    );
    assert_eq!(
        prover(4).audit_trace_blocks(&[block(0, 1, 2, true)]),
        Err(DirectChunkedError::InvalidBlock {
            block_index: 0,
            reason: "the direct trace must begin at block 0, global cycle 0".to_string(),
        })
    );
}

#[test]
fn trace_longer_than_preprocessing_maximum_is_rejected() {
    let prover = DirectChunkedProver::new(
        DirectChunkedPreprocessing::from_program_bytes(b"short", 3),
        DirectChunkedConfig {
            block_capacity: 2,
            compress_final_spartan: false,
        },
    )
    .unwrap();
    let error = prover
        .audit_trace_blocks(&[block(0, 0, 2, false), block(1, 2, 2, true)])
        .unwrap_err();
    assert_eq!(
        error,
        DirectChunkedError::TraceTooLong {
            observed: 4,
            maximum: 3
        }
    );
}

#[test]
fn program_digest_is_sha3_of_version_length_and_program() {
    let preprocessing = DirectChunkedPreprocessing::from_program_bytes(b"abc", 16);
    let mut hasher = Sha3_256::new();
    hasher.update(DIRECT_CHUNKED_PROTOCOL_VERSION.as_bytes());
    hasher.update(3u64.to_le_bytes());
    hasher.update(b"abc");
    let expected: [u8; 32] = hasher.finalize().into();
    assert_eq!(preprocessing.program_digest, expected);
    assert_eq!(preprocessing.max_padded_trace_length, 16);
    assert_eq!(
        preprocessing.lookup_table_commitment,
        fixed_lookup_registry_commitment()
    );
}

#[test]
fn lookup_registry_commitment_hashes_the_forty_table_ids() {
    let mut hasher = Sha3_256::new();
    hasher.update(DIRECT_CHUNKED_PROTOCOL_VERSION.as_bytes());
    hasher.update(b"fixed-jolt-lookup-registry");
    hasher.update(64u64.to_le_bytes());
    for table_id in 0u64..40 {
        hasher.update(table_id.to_le_bytes());
    }
    let expected: [u8; 32] = hasher.finalize().into();
    assert_eq!(fixed_lookup_registry_commitment(), expected);
}

#[test]
fn audit_digest_differs_between_distinct_traces() {
    let a = prover(4)
        .audit_trace_blocks(&[block(0, 0, 2, false), block(1, 2, 2, true)])
        .unwrap();
    let b = prover(4).audit_trace_blocks(&[block(0, 0, 4, true)]).unwrap();
    assert_eq!(b.block_count, 1);
    assert_eq!(b.total_cycles, 4);
    assert_ne!(a.trace_digest, b.trace_digest);
}

#[test]
fn validate_block_reports_each_shape_error() {
    let mut empty = block(0, 0, 1, true);
    empty.cycles.clear();
    empty.active_cycles = 0;
    assert!(validate_block(&empty, 4).is_err());
    let mut not_at_boundary = block(0, 0, 1, true);
    not_at_boundary.ended_at_tick_boundary = false;
    assert!(validate_block(&not_at_boundary, 4).is_err());
    let mut wrong_end = block(0, 0, 2, true);
    wrong_end.end_state.global_cycle = 5;
    assert!(validate_block(&wrong_end, 4).is_err());
    assert!(validate_block(&block(0, 0, 4, true), 4).is_ok());
    assert!(validate_block(&block(0, 0, 5, true), 4).is_err());
}

#[test]
fn production_shape_requires_every_relation_proven() {
    let prover = prover(4);
    let audit = prover.audit_trace_blocks(&[block(0, 0, 1, true)]).unwrap();
    let mut statement = prover.architecture_statement(audit);
    statement.relations = RelationMap::all_proven();
    let proof = DirectChunkedProof {
        statement,
        folded_instance: vec![1],
        final_spartan: Some(vec![2]),
        deferred_opening_digest: None,
    };
    assert!(proof.validate_production_shape().is_ok());

    let mut empty_fold = proof.clone();
    empty_fold.folded_instance.clear();
    assert!(matches!(
        empty_fold.validate_production_shape(),
        Err(DirectChunkedError::InvalidProofShape(_))
    ));

    let mut deferred = proof.clone();
    deferred.statement.relations = RelationMap::from_states(
        DirectRelationState::Proven,
        DirectRelationState::Proven,
        DirectRelationState::Deferred,
        DirectRelationState::Proven,
        DirectRelationState::Proven,
    );
    assert_eq!(
        deferred.validate_production_shape(),
        Err(DirectChunkedError::UnclosedRelation {
            relation: DirectRelation::Ram,
            state: DirectRelationState::Deferred,
        })
    );
}

#[test]
fn error_messages_match_their_display_form() {
    assert_eq!(
        DirectChunkedError::EmptyTrace.to_string(),
        "direct proving requires at least one trace block"
    );
    assert_eq!(
        DirectChunkedError::TraceTooLong {
            observed: 9,
            maximum: 8
        }
        .to_string(),
        "direct trace has 9 cycles, exceeding configured preprocessing maximum 8"
    );
    assert_eq!(
        DirectChunkedError::UnsupportedRelation {
            relation: DirectRelation::Cpu,
            audited_blocks: 3
        }
        .to_string(),
        "direct relation CPU/R1CS is not internalized after auditing 3 blocks"
    );
    assert_eq!(
        DirectChunkedError::DiscontinuousBlocks {
            previous_block: 1,
            next_block: 2,
            reason: "gap".to_string()
        }
        .to_string(),
        "direct blocks 1 and 2 are discontinuous: gap"
    );
    assert_eq!(
        DirectChunkedError::UnclosedRelation {
            relation: DirectRelation::Pcs,
            state: DirectRelationState::Unsupported
        }
        .to_string(),
        "direct relation PCS is not closed: Unsupported"
    );
}

#[test]
fn initial_memory_replaces_only_the_memory_image() {
    let base = DirectChunkedPreprocessing::from_program_bytes(b"image", 32);
    let mut layout = base.memory_layout;
    layout.heap_end = 0x9000;
    let updated = base.clone().with_initial_memory(layout, 0x8000_0000, vec![1, 2]);
    assert_eq!(updated.program_digest, base.program_digest);
    assert_eq!(updated.max_padded_trace_length, 32);
    assert_eq!(updated.memory_layout.heap_end, 0x9000);
    assert_eq!(updated.program_image_start, 0x8000_0000);
    assert_eq!(updated.program_image_words, vec![1, 2]);
}

#[test]
fn streaming_audit_matches_the_slice_audit() {
    let prover = prover(4);
    let blocks = [block(0, 0, 2, false), block(1, 2, 3, false), block(2, 5, 1, true)];
    let mut auditor = prover.start_audit();
    for block in blocks.iter() {
        auditor.absorb_block(block).unwrap();
    }
    let streamed = auditor.finish().unwrap();
    assert_eq!(streamed, prover.audit_trace_blocks(&blocks).unwrap());
    assert_eq!(streamed.block_count, 3);
    assert_eq!(streamed.total_cycles, 6);
    assert_eq!(streamed.first_state, blocks[0].start_state);
    assert_eq!(streamed.final_state, blocks[2].end_state);
}

#[test]
fn streaming_audit_of_no_blocks_is_an_empty_trace() {
    assert_eq!(prover(4).start_audit().finish(), Err(DirectChunkedError::EmptyTrace));
}

#[test]
fn audit_first_block_must_be_block_zero_at_cycle_zero() {
    let error = prover(4).audit_trace_blocks(&[block(1, 0, 2, true)]).unwrap_err();
    assert!(matches!(error, DirectChunkedError::InvalidBlock { block_index: 1, .. }));
    let error = prover(4).audit_trace_blocks(&[block(0, 3, 2, true)]).unwrap_err();
    assert_eq!(
        error,
        DirectChunkedError::InvalidBlock {
            block_index: 0,
            reason: "the direct trace must begin at block 0, global cycle 0".to_string(),
        }
    );
}

#[test]
fn audit_reports_the_first_total_over_the_trace_length() {
    let prover = DirectChunkedProver::new(
        DirectChunkedPreprocessing::from_program_bytes(b"direct-test", 5),
        DirectChunkedConfig {
            block_capacity: 4,
            compress_final_spartan: false,
        },
    )
    .unwrap();
    let blocks = [
        block(0, 0, 2, false),
        block(1, 2, 2, false),
        block(2, 4, 4, false),
        block(3, 8, 4, true),
    ];
    assert_eq!(
        prover.audit_trace_blocks(&blocks),
        Err(DirectChunkedError::TraceTooLong { observed: 8, maximum: 5 })
    );
}
