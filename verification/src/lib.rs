//! Verified core of the direct, trace-first chunked proving path: the
//! streaming block audit and its digest, fail-closed relation bookkeeping,
//! bounded two-pass trace capture with hard re-chunking, spool records,
//! register and lookup witnesses with their block-sequence checks, RAM
//! address and memory-consistency checks, the authenticated-RAM Merkle
//! tree, public I/O binding, proof size accounting, and the sealed D8
//! benchmark artifact with its canonical JSON digest and Markdown report.

mod encoding;
mod json;
mod math;
mod text;
mod trace;

mod direct;
mod evaluation;
mod lookup;
mod merkle;
mod pcs;
mod ram;
mod register;
mod relation;
mod size;
mod spool;
mod streaming;

mod cpu;

pub use encoding::{
    le64, le_bytes, lemma_le_bytes_len, push_bytes, push_le_u64, sha3_256_of, sha3_absorbed,
    Sha3Stream,
};
pub use json::{
    escape_byte, escape_bytes, hex_digit_byte, json_bool, json_nat, json_opt_u64, json_opt_usize,
    json_string, push_json_string,
};
pub use math::{
    ceil_log2, ilog2, is_next_pow2, is_pow2, is_power_of_two, lemma_log2_bound,
    lemma_log2_of_next_pow2, log2, max_usize,
    next_power_of_two, saturating_add, saturating_mul, two_to,
};
pub use text::{
    dec, decimal, decimal_u128, decimal_usize, digit_char, hex_char, hex_num, hex_of, hex_string,
    hex_u64, text,
};
pub use trace::{
    same_state, states_equal, Cycle, LookupQueryRecord, MachineBoundaryState, RamAccess,
    TraceBlock, REGISTER_COUNT,
};

pub use relation::{
    all_relations, error_message, lookup_state, result_model, state_of, uniform_entries,
    DirectChunkedError, DirectRelation, DirectRelationState, ErrorModel, RelationMap, relation_map_wf,
};

pub use direct::{
    audit_digest_prefix, audit_fold, audit_link_error, audit_matches, audit_start, audit_step,
    block_error_reason, block_metadata_bytes, boundary_state_bytes, config_is_valid, cycles_text,
    first_unclosed, fixed_lookup_registry_commitment, hash_block_metadata, hash_boundary_state,
    is_contiguous_trace, law_accepted_trace_stops_at_termination,
    law_audit_certifies_contiguous_trace, law_block_digest_bytes_cover_cycle_identities,
    law_block_digest_bytes_layout, law_boundary_state_bytes_layout,
    law_contiguous_trace_is_accepted, law_cycles_text_concatenates_trace_text,
    law_valid_block_is_live_and_sized,
    law_empty_trace_rejected, law_first_overflowing_block_is_too_long,
    law_trace_must_start_at_block_zero,
    law_partial_statement_is_not_production, law_production_shape_iff_closed,
    lemma_audit_fold_error_persists, program_digest_preimage, register_bytes, registry_preimage,
    spec_audit, spec_ensure_closed, spec_production_shape, spec_validate_block, sum_active_cycles,
    table_id_bytes, validate_block, version_bytes, default_layout, AuditModel, DirectChunkedConfig,
    DirectChunkedPreprocessing, DirectChunkedProof, DirectChunkedProver, DirectChunkedStatement,
    DirectTraceAudit, DirectTraceAuditor, MemoryLayout, DEFAULT_IO_REGION_SIZE, DEFAULT_MAX_IO_SIZE, DEFAULT_MEMORY_SIZE,
    DEFAULT_STACK_SIZE, DIRECT_CHUNKED_PROTOCOL_VERSION, LOOKUP_TABLE_COUNT, XLEN,
};

pub use streaming::{
    all_registers_zero, apply_rd_writes, capture_wf, chunk_end_state, chunk_len, finish_matches,
    admitted_source_metrics, law_source_block_is_live_and_counted, law_finished_capture_is_production_trace, law_rechunk_block_count,
    law_rechunk_whole_output,
    law_rechunk_emits_consecutive_slices, nat_max, next_block_produced, observed_peak, rechunk_at,
    rechunk_offset, rechunk_source_block, rechunker_wf, residency_bounded, resident_bytes,
    sat_add, sat_mul, source_admission_error, source_block_error_reason, spool_block_error,
    spool_error, validate_source_block, zero_metrics, DirectProvingMetrics, DirectTraceCapture,
    DirectTraceCaptureSummary, HardRechunker,
};

pub use spool::{
    block_matches_spool, law_spool_block_round_trip, record_length_error, spool_record_length,
    spool_state_error, state_matches_spool, SpoolBoundaryState, SpoolTraceBlock,
};

pub use lookup::{
    law_lookup_rows_follow_the_cycles, law_lookup_sequence_accepts_contiguous_traces,
    law_lookup_sequence_contiguous, law_lookup_witness_carries_the_query,
    lemma_lookup_cycles_len, lookup_active_sum, lookup_block_fits, lookup_blocks_contiguous,
    lookup_sequence, lookup_sequence_scan, lookup_sequence_step, spec_lookup_cycle,
    spec_lookup_cycles, validate_lookup_subclaim_sequence, zero_lookup_cycle,
    DirectLookupBlockWitness, DirectLookupCycleWitness, DirectLookupStageStatement,
    NO_LOOKUP_TABLE_ID,
};

pub use register::{
    apply_register_cycle, block_register_witnesses, boundary_registers, combined_pair_error,
    combined_scan, combined_sequence, cycle_register_witness, law_combined_sequence_links,
    law_read_accepted_iff_consistent, law_read_sees_last_write, law_register_witness_carries_the_cycle,
    validate_read, read_error, register_block_fits, register_value_after,
    replay_register_cycles, spec_register_block, unsigned_registers, validate_and_apply_cycle,
    validate_combined_sequence, writes_register, zero_read, zero_register_cycle, zero_write,
    DirectRegisterBlockWitness, DirectRegisterCycleWitness, DirectRegisterReadWitness,
    DirectRegisterStageStatement, DirectRegisterWriteWitness,
};

pub use ram::{
    accesses_tracked, address_index, addresses_increasing, apply_ram_access, apply_ram_block,
    block_touches, check_ram_address, cycle_ram_address, cycle_touch, cycle_touches,
    first_ram_address_error, first_row_address_error, first_touch, initial_ram_table,
    law_ram_read_sees_last_write, lemma_row_error_persists, ram_access_error, ram_address_error,
    law_ram_address_is_an_aligned_word_in_range, ram_lookup, ram_replay, ram_value_after, strictly_sorted, table_get, tracks_address, tree_size,
    zip_columns,
    validate_ram_address, validate_trace_ram_addresses, DirectRamBlockWitness,
    DirectRamCycleWitness, DirectRamStageStatement, DirectRamSubclaim, RamTable,
};

pub use merkle::{
    auth_path, law_path_recomputes_root, law_update_follows_path, lemma_level_len,
    merkle_level, merkle_root, merkle_root_from_path, node_deterministic, node_fn, node_total,
    node_value, parent_level, position, root_from_path, sibling, stored_path, tree_depth,
    tree_leaves, tree_levels, tree_shape, tree_wf, RamMerkleTree,
};

pub use cpu::{DirectCpuBlockWitness, DirectCpuCycleWitness, DirectCpuStageStatement, DirectCpuSubclaim};

pub use pcs::{
    active_ram_cycles, advice_commitment, advice_preimage, byte_at, canonical_initial_values,
    cycles_effect, execution_inputs_error, from_le, initial_word, initial_word_bytes,
    output_image, output_layout_fits, outputs_bound, pcs_num_vars, pow256, ram_writes_fit,
    region_byte, spec_pcs_num_vars, law_execution_inputs_fit_the_layout, execution_statement_matches, validate_execution_statement,
    validate_pcs_dimensions, PCS_LANE_WIDTH,
    spec_byte_at, subclaims_effect, validate_execution_inputs, validate_public_outputs,
    write_effect, DirectExecutionInputs, DirectPcsStageStatement, RAM_START_ADDRESS,
};

pub use size::{
    bool_size, byte_vec_size, cpu_statement_bytes, statement_bytes, statement_size, cpu_cycle_bytes, cpu_cycles_bytes, cpu_subclaim_bytes,
    cpu_subclaim_size, field_size, field_storage_vec_size, field_vec_size, i128_size, parts_sum,
    ram_cycle_bytes, ram_cycles_bytes, ram_subclaim_bytes, ram_subclaim_size, relation_map_size,
    size_breakdown, u128_size, u16_size, u32_size, u64_size, u64_vec_size, u8_size, usize_size,
    vec_prefix, zero_breakdown, lookup_block_bytes, lookup_block_size, register_block_bytes,
    register_block_size, DirectProofSizeBreakdown,
};

pub use evaluation::{
    artifact_digest_of, artifact_error, baseline_complete, baseline_json, capacity_line,
    decomposition_counts, digest_line, digest_preimage, has_infix, law_built_artifact_is_sealed,
    law_markdown_reports_memory_observations, law_markdown_reports_structural_counts,
    law_markdown_rows_show_each_flow, law_observation_text_shows_the_value,
    memory_observations,
    law_digest_ignores_digest_field, law_markdown_report_layout,
    law_unbounded_residency_is_refused, markdown_decomposition, markdown_header, markdown_table,
    markdown_text, md_item, md_row, measurement_json, metrics_counts_json, metrics_timing_json,
    observation_text, raw, rss_text, sample_artifact, size_json, ArtifactView, BaselineView,
    DirectD8BaselineMeasurement, DirectD8BenchmarkArtifact, DirectD8Measurement,
    Stage19BenchmarkSample, Stage19MemoryBytes, Stage19ProofSizes, Stage19RelationMeasurement,
    Stage19TimingsMicros,
    DIRECT_D8_BENCHMARK_SCHEMA_VERSION,
};
