use direct_chunked::{
    bool_size, byte_vec_size, cpu_subclaim_size, field_size, field_storage_vec_size,
    field_vec_size, i128_size, ram_subclaim_size, relation_map_size, size_breakdown, u128_size,
    u16_size, u32_size, u64_size, u64_vec_size, u8_size, usize_size, vec_prefix,
    DirectCpuBlockWitness, DirectCpuCycleWitness, DirectCpuSubclaim, DirectProofSizeBreakdown,
    DirectRamBlockWitness, DirectRamCycleWitness, DirectRamSubclaim, RelationMap,
    statement_size, DirectCpuStageStatement, DirectExecutionInputs, DirectPcsStageStatement,
    REGISTER_COUNT, advice_commitment, pcs_num_vars, validate_execution_statement,
    validate_pcs_dimensions, DirectChunkedError,
};

#[test]
fn scalar_sizes_are_fixed_width() {
    assert_eq!(vec_prefix(), 8);
    assert_eq!(usize_size(), 8);
    assert_eq!(bool_size(), 1);
    assert_eq!(u8_size(), 1);
    assert_eq!(u16_size(), 2);
    assert_eq!(u32_size(), 4);
    assert_eq!(u64_size(), 8);
    assert_eq!(u128_size(), 16);
    assert_eq!(i128_size(), 16);
    assert_eq!(field_size(), 32);
}

#[test]
fn vector_sizes_add_the_length_prefix() {
    assert_eq!(field_vec_size(&[[0u8; 32]; 3]), 8 + 96);
    assert_eq!(field_storage_vec_size(&[[1u8; 32]; 2]), 8 + 64);
    assert_eq!(u64_vec_size(&[1, 2, 3]), 32);
    assert_eq!(byte_vec_size(&[1, 2, 3]), 11);
    assert_eq!(byte_vec_size(&[]), 8);
    assert_eq!(relation_map_size(&RelationMap::all_proven()), 8 + 10);
}

#[test]
fn breakdown_total_is_the_sum_of_parts() {
    let breakdown = size_breakdown(1, 2, 3, 4, 5, 6, 7, 8, 9);
    assert_eq!(breakdown.total_bytes, 45);
    assert_eq!(breakdown.ram_subclaims_bytes, 4);
    assert_eq!(DirectProofSizeBreakdown::default().total_bytes, 0);
}

fn ram_cycle(path: usize) -> DirectRamCycleWitness {
    DirectRamCycleWitness {
        active: true,
        kind: 1,
        address: 0,
        read_value: 0,
        write_value: 0,
        leaf_index: 0,
        registry_path: vec![[0; 32]; path],
        memory_path: vec![[0; 32]; path],
        root_before: [0; 32],
        root_after: [0; 32],
    }
}

#[test]
fn ram_subclaim_size_counts_paths_and_roots() {
    let subclaim = DirectRamSubclaim {
        block: DirectRamBlockWitness {
            block_index: 0,
            global_cycle_start: 0,
            active_cycles: 2,
            cycle_capacity: 2,
            terminated: true,
            address_count: 4,
            tree_depth: 2,
            registry_root: [0; 32],
            start_root: [0; 32],
            end_root: [0; 32],
            query_root: [0; 32],
            cycles: vec![ram_cycle(2), ram_cycle(2)],
        },
        transcript_state_before: [0; 32],
        transcript_round_before: 0,
        transcript_state_after: [0; 32],
        transcript_round_after: 0,
    };
    let cycle = 1 + 1 + 4 * 8 + (8 + 64) + (8 + 64) + 64;
    let block = 6 * 8 + 1 + 4 * 32 + 8 + 2 * cycle;
    assert_eq!(ram_subclaim_size(&subclaim), block + 2 * (32 + 4));
}

#[test]
fn cpu_subclaim_size_counts_inputs_flags_and_paths() {
    let cycle = DirectCpuCycleWitness {
        active: true,
        inputs: vec![0; 3],
        instruction_tag: 0,
        rs1_enabled: false,
        rs1_address: 0,
        rs2_enabled: false,
        rs2_address: 0,
        rd_enabled: false,
        rd_address: 0,
        table_id: 0,
        instruction_flags: vec![false; 5],
        next_is_noop: false,
        bytecode_path: vec![[0; 32]; 1],
    };
    let subclaim = DirectCpuSubclaim {
        block: DirectCpuBlockWitness {
            block_index: 0,
            global_cycle_start: 0,
            active_cycles: 1,
            cycle_capacity: 1,
            terminated: true,
            bytecode_root: [0; 32],
            bytecode_depth: 1,
            query_root: [0; 32],
            block_claim: [0; 32],
            cycles: vec![cycle],
        },
        transcript_state_before: [0; 32],
        transcript_round_before: 0,
        transcript_state_after: [0; 32],
        transcript_round_after: 0,
    };
    let cycle_bytes = 1 + 3 * 16 + 2 + 7 + 5 + 1 + (8 + 32);
    let block = 5 * 8 + 1 + 3 * 32 + 8 + cycle_bytes;
    assert_eq!(cpu_subclaim_size(&subclaim), block + 2 * (32 + 4));
}

fn pcs_statement() -> DirectPcsStageStatement {
    DirectPcsStageStatement {
        cpu: DirectCpuStageStatement {
            program_digest: [0; 32],
            lookup_table_commitment: [0; 32],
            bytecode_root: [0; 32],
            block_count: 1,
            total_cycles: 1,
            initial_registers: [0; REGISTER_COUNT],
            final_registers: [0; REGISTER_COUNT],
            ram_addresses: vec![8, 16],
            ram_registry_root: [0; 32],
            initial_ram_root: [0; 32],
            final_ram_root: [0; 32],
            folded_cpu_claim: [0; 32],
            terminated: true,
            relations: RelationMap::cpu_stage(),
        },
        public_inputs: vec![1, 2, 3],
        public_outputs: vec![4],
        advice_commitment: [0; 32],
        panic: false,
        pcs_num_vars: 8,
        pcs_opening: [0; 32],
        global_transcript_state: [0; 32],
        global_transcript_round: 1,
        relations: RelationMap::all_proven(),
    }
}

fn pcs_execution() -> DirectExecutionInputs {
    DirectExecutionInputs {
        public_inputs: vec![1, 2, 3],
        public_outputs: vec![4],
        trusted_advice: vec![],
        untrusted_advice: vec![5, 6],
        panic: false,
    }
}

#[test]
fn statement_size_counts_statement_and_execution_inputs() {
    let statement = pcs_statement();
    let execution = pcs_execution();
    let cpu = 32 + 32 + 32 + 16 + 2 * 128 * 8 + (8 + 16) + 4 * 32 + 1 + (8 + 10);
    let outer = cpu + (8 + 3) + (8 + 1) + 32 + 1 + 8 + 32 + 32 + 4 + (8 + 10);
    let execution_bytes = (8 + 3) + (8 + 1) + 8 + (8 + 2) + 1;
    assert_eq!(statement_size(&statement, &execution), outer + execution_bytes);
}

#[test]
fn pcs_num_vars_counts_block_domain_rows_and_lane() {
    assert_eq!(pcs_num_vars(2, 2), 8);
    assert_eq!(pcs_num_vars(0, 1), 6);
    assert_eq!(pcs_num_vars(1, 1), 6);
    assert_eq!(pcs_num_vars(3, 4), 2 + 2 + 6);
    assert_eq!(pcs_num_vars(5, 1024), 3 + 10 + 6);
}

#[test]
fn pcs_dimensions_must_match_the_block_domain() {
    let mut statement = pcs_statement();
    statement.cpu.block_count = 2;
    assert_eq!(validate_pcs_dimensions(&statement, 2, 8), Ok(8));
    let mismatch = Err(DirectChunkedError::InvalidProofShape(
        "D6 PCS dimension mismatch".to_string(),
    ));
    assert_eq!(validate_pcs_dimensions(&statement, 2, 7), mismatch);
    assert_eq!(validate_pcs_dimensions(&statement, 4, 8), mismatch);
    statement.pcs_num_vars = 9;
    assert_eq!(validate_pcs_dimensions(&statement, 2, 9), mismatch);
}

#[test]
fn execution_statement_must_carry_the_execution_inputs() {
    let execution = pcs_execution();
    let mut statement = pcs_statement();
    statement.advice_commitment = advice_commitment(&execution);
    assert_eq!(validate_execution_statement(&statement, &execution), Ok(()));
    let mismatch = Err(DirectChunkedError::InvalidProofShape(
        "D6 execution statement mismatch".to_string(),
    ));
    let mut forged = statement.clone();
    forged.public_outputs.push(0);
    assert_eq!(validate_execution_statement(&forged, &execution), mismatch);
    let mut forged = statement.clone();
    forged.panic = true;
    assert_eq!(validate_execution_statement(&forged, &execution), mismatch);
    let mut forged_advice = execution.clone();
    forged_advice.trusted_advice.push(1);
    assert_eq!(validate_execution_statement(&statement, &forged_advice), mismatch);
}
