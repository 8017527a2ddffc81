use direct_chunked::{
    push_json_string, DirectD8BaselineMeasurement, DirectD8BenchmarkArtifact,
    DirectD8Measurement, DirectProofSizeBreakdown, DirectProvingMetrics, Stage19BenchmarkSample,
    Stage19MemoryBytes, Stage19ProofSizes, Stage19RelationMeasurement, Stage19TimingsMicros,
    DIRECT_D8_BENCHMARK_SCHEMA_VERSION,
};
use sha3::{Digest, Sha3_256};

fn stage19_sample() -> Stage19BenchmarkSample {
    Stage19BenchmarkSample {
        run_index: 1,
        workload: "fibonacci-2".to_string(),
        workload_sha3_256: "11".repeat(32),
        block_target_size: 2,
        block_count: 1,
        active_cycles: 1,
        padded_trace_length: 2,
        max_resident_trace_blocks: 1,
        max_resident_trace_cycles: 1,
        receipt_is_production_zk: true,
        native_jolt_verified: true,
        streaming_proof_verified: true,
        complete_zk_verified: true,
        lookup_backend: "jolt-lookup-tables".to_string(),
        receipt_digest: "22".repeat(32),
        jolt_statement_id: "33".repeat(32),
        timings_micros: Stage19TimingsMicros {
            trace: 1,
            native_jolt_prove: 10,
            native_jolt_verify_and_export: 5,
            nova_spartan_stream: 8,
            recursive_blindfold_prove: 7,
            final_end_to_end_verify: 4,
            measured_total: 35,
        },
        memory_bytes: Stage19MemoryBytes {
            native_jolt_start: Some(1),
            native_jolt_peak: Some(3),
            native_jolt_peak_delta: Some(2),
            recursive_start: Some(3),
            recursive_peak: Some(7),
            recursive_peak_delta: Some(4),
            estimated_peak_trace: 128,
            peak_tracked_ram_addresses: 1,
        },
        proof_sizes: Stage19ProofSizes {
            native_jolt_proof: 10,
            folded_spartan_proof: 5,
            blindfold_spartan_proof: 6,
            recursive_proof_payload: 11,
        },
        relation_profiles: vec![Stage19RelationMeasurement {
            relation: "nova-block-fold".to_string(),
            attribution_method: "wall-clock".to_string(),
            calls: 1,
            total_nanos: 1,
            max_nanos: 1,
        }],
    }
}

fn direct_measurement() -> DirectD8Measurement {
    DirectD8Measurement {
        proof_verified: true,
        proof_size: DirectProofSizeBreakdown {
            spartan_compressed_bytes: 5,
            total_bytes: 20,
            ..DirectProofSizeBreakdown::default()
        },
        prove_micros: 9,
        verify_micros: 3,
        peak_rss_delta_bytes: Some(8),
        metrics: DirectProvingMetrics {
            source_block_count: 1,
            block_count: 1,
            total_active_cycles: 1,
            trace_passes: 2,
            max_resident_trace_blocks: 1,
            max_resident_trace_cycles: 1,
            max_source_trace_cycles: 1,
            retained_relation_subclaims: 4,
            spartan_proof_bytes: 5,
            ..DirectProvingMetrics::default()
        },
    }
}

fn artifact() -> DirectD8BenchmarkArtifact {
    DirectD8BenchmarkArtifact::from_stage19_sample(&stage19_sample(), direct_measurement())
        .unwrap()
}

fn lower_hex(bytes: &[u8]) -> String {
    bytes.iter().map(|b| format!("{b:02x}")).collect()
}

#[test]
fn d8_comparison_artifact_validates_and_detects_tampering() {
    let artifact =
        DirectD8BenchmarkArtifact::from_stage19_sample(&stage19_sample(), direct_measurement())
            .unwrap();
    artifact.validate().unwrap();
    assert!(artifact.to_markdown().unwrap().contains("Direct chunked"));

    let mut tampered = artifact;
    tampered.direct.metrics.max_resident_trace_blocks = 3;
    assert!(tampered.validate().is_err());
}

#[test]
fn sample_fields_are_carried_into_the_artifact() {
    let artifact = artifact();
    assert_eq!(artifact.schema_version, DIRECT_D8_BENCHMARK_SCHEMA_VERSION);
    assert_eq!(artifact.workload, "fibonacci-2");
    assert_eq!(artifact.block_capacity, 2);
    assert_eq!(
        artifact.native_jolt,
        DirectD8BaselineMeasurement {
            flow: "native-jolt".to_string(),
            proof_bytes: 10,
            prove_micros: 10,
            verify_micros: 5,
            peak_rss_delta_bytes: Some(2),
        }
    );
    assert_eq!(
        artifact.stage19_dual_flow,
        DirectD8BaselineMeasurement {
            flow: "stage19-dual-data-flow".to_string(),
            proof_bytes: 11,
            prove_micros: 15,
            verify_micros: 4,
            peak_rss_delta_bytes: Some(4),
        }
    );
    assert_eq!(artifact.direct, direct_measurement());
    assert_eq!(artifact.artifact_digest.len(), 64);
    assert_eq!(artifact.compute_digest(), artifact.artifact_digest);
}

#[test]
fn recursive_extension_adds_stream_and_blindfold_saturating() {
    let sample = stage19_sample();
    assert_eq!(sample.timings_micros.recursive_extension(), 15);
    let saturated = Stage19TimingsMicros {
        nova_spartan_stream: u64::MAX,
        recursive_blindfold_prove: 2,
        ..sample.timings_micros
    };
    assert_eq!(saturated.recursive_extension(), u64::MAX);
}

#[test]
fn artifact_digest_is_sha3_of_the_canonical_json_tuple() {
    let artifact = artifact();
    let expected_json = format!(
        "[\"direct-chunked-jolt-nova-d8-v1\",\"fibonacci-2\",\"{sha}\",2,\
         {{\"flow\":\"native-jolt\",\"proof_bytes\":10,\"prove_micros\":10,\"verify_micros\":5,\"peak_rss_delta_bytes\":2}},\
         {{\"flow\":\"stage19-dual-data-flow\",\"proof_bytes\":11,\"prove_micros\":15,\"verify_micros\":4,\"peak_rss_delta_bytes\":4}},\
         {{\"proof_verified\":true,\"proof_size\":{{\"statement_and_execution_bytes\":0,\"lookup_subclaims_bytes\":0,\
         \"register_subclaims_bytes\":0,\"ram_subclaims_bytes\":0,\"cpu_subclaims_bytes\":0,\"dory_pcs_bytes\":0,\
         \"nova_recursive_debug_bytes\":0,\"spartan_compressed_bytes\":5,\"recursive_public_state_bytes\":0,\"total_bytes\":20}},\
         \"prove_micros\":9,\"verify_micros\":3,\"peak_rss_delta_bytes\":8,\
         \"metrics\":{{\"source_block_count\":1,\"block_count\":1,\"total_active_cycles\":1,\"trace_passes\":2,\
         \"max_source_trace_cycles\":1,\"max_resident_trace_blocks\":1,\"max_resident_trace_cycles\":1,\
         \"estimated_peak_resident_trace_bytes\":0,\"spooled_trace_bytes\":0,\"max_serialized_block_bytes\":0,\
         \"peak_tracked_ram_addresses\":0,\"initial_ram_registry_bytes\":0,\"retained_relation_subclaims\":4,\
         \"pcs_polynomial_coefficients\":0,\"pcs_polynomial_bytes\":0,\"nova_recursive_debug_bytes\":0,\
         \"spartan_proof_bytes\":5,\"capture_trace_micros\":0,\"relation_preparation_micros\":0,\
         \"pcs_commit_micros\":0,\"nova_fold_micros\":0,\"spartan_compress_micros\":0,\"pcs_open_micros\":0,\
         \"self_verify_micros\":0,\"start_physical_memory_bytes\":null,\"after_capture_physical_memory_bytes\":null,\
         \"after_relations_physical_memory_bytes\":null,\"after_pcs_physical_memory_bytes\":null,\
         \"peak_observed_physical_memory_bytes\":null}}}}]",
        sha = "11".repeat(32)
    );
    let digest: [u8; 32] = Sha3_256::digest(expected_json.as_bytes()).into();
    assert_eq!(artifact.artifact_digest, lower_hex(&digest));
}

#[test]
fn json_strings_are_escaped_as_serde_json_escapes_them() {
    for text in [
        "plain",
        "quote \" and backslash \\",
        "controls \u{8}\u{c}\n\r\t and \u{1}\u{1f}",
        "unicode é ✓ \u{7f}",
        "",
    ] {
        let mut ours = Vec::new();
        push_json_string(&mut ours, text);
        let theirs = serde_json::to_vec(text).unwrap();
        assert_eq!(ours, theirs, "{text:?}");
    }
}

#[test]
fn markdown_report_renders_every_measurement() {
    let artifact = artifact();
    let report = artifact.to_markdown().unwrap();
    let expected = format!(
        "# Direct Chunked Jolt-Nova D8\n\nWorkload: `fibonacci-2`  \nBlock capacity: `2`  \nArtifact digest: `{}`\n\n\
| Flow | Proof bytes | Prove us | Verify us | Peak RSS delta bytes |\n|---|---:|---:|---:|---:|\n\
| Native Jolt | 10 | 10 | 5 | 2 |\n\
| Stage 19 dual flow | 11 | 15 | 4 | 4 |\n\
| Direct chunked | 20 | 9 | 3 | 8 |\n\n\
## Direct memory decomposition\n\n\
- source trace blocks: 1\n\
- fixed-capacity proof blocks: 1\n\
- trace passes: 2\n\
- max source trace cycles: 1\n\
- max resident trace blocks: 1\n\
- max resident trace cycles: 1\n\
- estimated peak resident trace bytes: 0\n\
- spooled trace bytes: 0\n\
- tracked RAM addresses: 0\n\
- initial RAM registry bytes: 0\n\
- retained relation subclaims: 4\n\
- PCS polynomial bytes: 0\n\
- RSS after capture: n/a\n\
- RSS after relations: n/a\n\
- RSS after PCS: n/a\n\
- peak observed RSS: n/a\n",
        artifact.artifact_digest
    );
    assert_eq!(report, expected);
}

#[test]
fn each_validation_failure_has_its_message() {
    let good = artifact();

    let mut schema = good.clone();
    schema.schema_version = "other".to_string();
    assert_eq!(
        schema.validate(),
        Err("D8 benchmark schema version mismatch".to_string())
    );

    let mut workload = good.clone();
    workload.workload_sha3_256 = "11".to_string();
    assert_eq!(
        workload.validate(),
        Err("D8 benchmark workload identity is incomplete".to_string())
    );

    let mut capacity = good.clone();
    capacity.block_capacity = 3;
    assert_eq!(
        capacity.validate(),
        Err("D8 block capacity must be a power of two of at least two".to_string())
    );

    let mut native = good.clone();
    native.native_jolt.verify_micros = 0;
    assert_eq!(
        native.validate(),
        Err("native-jolt baseline is incomplete".to_string())
    );

    let mut dual = good.clone();
    dual.stage19_dual_flow.proof_bytes = 0;
    assert_eq!(
        dual.validate(),
        Err("stage19-dual-data-flow baseline is incomplete".to_string())
    );

    let mut unverified = good.clone();
    unverified.direct.proof_verified = false;
    assert_eq!(
        unverified.validate(),
        Err("D8 direct measurement is incomplete or unverified".to_string())
    );

    let mut subclaims = good.clone();
    subclaims.direct.metrics.retained_relation_subclaims = 3;
    assert_eq!(
        subclaims.validate(),
        Err("D8 direct structural metrics do not prove bounded execution".to_string())
    );

    let mut digest = good.clone();
    digest.direct.prove_micros = 10;
    assert_eq!(
        digest.validate(),
        Err("D8 benchmark artifact digest mismatch".to_string())
    );
    assert!(digest.to_markdown().is_err());
}

#[test]
fn incomplete_sample_is_refused_at_construction() {
    let mut sample = stage19_sample();
    sample.proof_sizes.native_jolt_proof = 0;
    assert_eq!(
        DirectD8BenchmarkArtifact::from_stage19_sample(&sample, direct_measurement()),
        Err("native-jolt baseline is incomplete".to_string())
    );
}
