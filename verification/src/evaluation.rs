//! The validated D8 comparison artifact: native Jolt, the Stage 19 dual data
//! flow, and the direct single-data-flow prover, measured on one workload and
//! sealed by a SHA3-256 digest over a canonical JSON encoding.

use vstd::prelude::*;
use vstd::string::{StringExecFns, StringSliceAdditionalSpecFns};
use vstd::utf8::encode_utf8;

use crate::encoding::{push_bytes, sha3_256, sha3_256_of};
use crate::json::{
    json_bool, json_nat, json_opt_u64, json_opt_usize, json_string, push_json_bool,
    push_json_opt_u64, push_json_opt_usize, push_json_string, push_json_u128, push_json_u64,
    push_json_usize, push_raw,
};
use crate::math::{is_pow2, is_power_of_two, saturating_mul};
use crate::size::DirectProofSizeBreakdown;
use crate::streaming::{residency_bounded, sat_mul, DirectProvingMetrics};
use crate::text::{dec, decimal, decimal_usize, hex_of, hex_string, text};

verus! {

/// Schema tag of the D8 artifact.
pub const DIRECT_D8_BENCHMARK_SCHEMA_VERSION: &'static str = "direct-chunked-jolt-nova-d8-v1";

/// Wall-clock timings of one Stage 19 run, in microseconds.
#[derive(Clone, Debug, PartialEq, Eq)]
pub struct Stage19TimingsMicros {
    pub trace: u64,
    pub native_jolt_prove: u64,
    pub native_jolt_verify_and_export: u64,
    pub nova_spartan_stream: u64,
    pub recursive_blindfold_prove: u64,
    pub final_end_to_end_verify: u64,
    pub measured_total: u64,
}

impl Stage19TimingsMicros {
    /// Proving time that the recursive flow adds on top of native Jolt: the
    /// Nova/Spartan stream plus the recursive BlindFold proof, saturating.
    pub fn recursive_extension(&self) -> (r: u64)
        ensures
            r == if self.nova_spartan_stream + self.recursive_blindfold_prove > u64::MAX {
                u64::MAX as int
            } else {
                self.nova_spartan_stream + self.recursive_blindfold_prove
            },
    {
        self.nova_spartan_stream.saturating_add(self.recursive_blindfold_prove)
    }
}

/// Memory observations of one Stage 19 run, in bytes.
#[derive(Clone, Debug, PartialEq, Eq)]
pub struct Stage19MemoryBytes {
    pub native_jolt_start: Option<u64>,
    pub native_jolt_peak: Option<u64>,
    pub native_jolt_peak_delta: Option<u64>,
    pub recursive_start: Option<u64>,
    pub recursive_peak: Option<u64>,
    pub recursive_peak_delta: Option<u64>,
    pub estimated_peak_trace: usize,
    pub peak_tracked_ram_addresses: usize,
}

/// Proof sizes of one Stage 19 run, in bytes.
#[derive(Clone, Debug, PartialEq, Eq)]
pub struct Stage19ProofSizes {
    pub native_jolt_proof: usize,
    pub folded_spartan_proof: usize,
    pub blindfold_spartan_proof: usize,
    pub recursive_proof_payload: usize,
}

/// The profile of one relation in a Stage 19 run.
#[derive(Clone, Debug, PartialEq, Eq)]
pub struct Stage19RelationMeasurement {
    pub relation: String,
    pub attribution_method: String,
    pub calls: u64,
    pub total_nanos: u128,
    pub max_nanos: u128,
}

/// The integer and text measurements of one Stage 19 benchmark run that a
/// D8 comparison draws on.
#[derive(Clone, Debug, PartialEq, Eq)]
pub struct Stage19BenchmarkSample {
    pub run_index: usize,
    pub workload: String,
    pub workload_sha3_256: String,
    pub block_target_size: usize,
    pub block_count: usize,
    pub active_cycles: usize,
    pub padded_trace_length: usize,
    pub max_resident_trace_blocks: usize,
    pub max_resident_trace_cycles: usize,
    pub receipt_is_production_zk: bool,
    pub native_jolt_verified: bool,
    pub streaming_proof_verified: bool,
    pub complete_zk_verified: bool,
    pub lookup_backend: String,
    pub receipt_digest: String,
    pub jolt_statement_id: String,
    pub timings_micros: Stage19TimingsMicros,
    pub memory_bytes: Stage19MemoryBytes,
    pub proof_sizes: Stage19ProofSizes,
    pub relation_profiles: Vec<Stage19RelationMeasurement>,
}

/// One baseline flow of the comparison.
#[derive(Clone, Debug, PartialEq, Eq)]
pub struct DirectD8BaselineMeasurement {
    pub flow: String,
    pub proof_bytes: usize,
    pub prove_micros: u64,
    pub verify_micros: u64,
    pub peak_rss_delta_bytes: Option<u64>,
}

/// The direct prover's measurement.
#[derive(Clone, Debug, PartialEq, Eq)]
pub struct DirectD8Measurement {
    pub proof_verified: bool,
    pub proof_size: DirectProofSizeBreakdown,
    pub prove_micros: u64,
    pub verify_micros: u64,
    pub peak_rss_delta_bytes: Option<u64>,
    pub metrics: DirectProvingMetrics,
}

/// The D8 comparison artifact.
#[derive(Clone, Debug, PartialEq, Eq)]
pub struct DirectD8BenchmarkArtifact {
    pub schema_version: String,
    pub workload: String,
    pub workload_sha3_256: String,
    pub block_capacity: usize,
    pub native_jolt: DirectD8BaselineMeasurement,
    pub stage19_dual_flow: DirectD8BaselineMeasurement,
    pub direct: DirectD8Measurement,
    pub artifact_digest: String,
}

/// A baseline with its flow name as characters.
pub ghost struct BaselineView {
    pub flow: Seq<char>,
    pub proof_bytes: usize,
    pub prove_micros: u64,
    pub verify_micros: u64,
    pub peak_rss_delta_bytes: Option<u64>,
}

/// An artifact with its strings as characters.
pub ghost struct ArtifactView {
    pub schema_version: Seq<char>,
    pub workload: Seq<char>,
    pub workload_sha3_256: Seq<char>,
    pub block_capacity: usize,
    pub native_jolt: BaselineView,
    pub stage19_dual_flow: BaselineView,
    pub direct: DirectD8Measurement,
    pub artifact_digest: Seq<char>,
}

impl View for DirectD8BaselineMeasurement {
    type V = BaselineView;

    open spec fn view(&self) -> BaselineView {
        BaselineView {
            flow: self.flow@,
            proof_bytes: self.proof_bytes,
            prove_micros: self.prove_micros,
            verify_micros: self.verify_micros,
            peak_rss_delta_bytes: self.peak_rss_delta_bytes,
        }
    }
}

impl View for DirectD8BenchmarkArtifact {
    type V = ArtifactView;

    open spec fn view(&self) -> ArtifactView {
        ArtifactView {
            schema_version: self.schema_version@,
            workload: self.workload@,
            workload_sha3_256: self.workload_sha3_256@,
            block_capacity: self.block_capacity,
            native_jolt: self.native_jolt@,
            stage19_dual_flow: self.stage19_dual_flow@,
            direct: self.direct,
            artifact_digest: self.artifact_digest@,
        }
    }
}

/// UTF-8 bytes of a literal piece of JSON framing.
pub open spec fn raw(s: Seq<char>) -> Seq<u8> {
    encode_utf8(s)
}

/// Canonical JSON object of a baseline.
pub open spec fn baseline_json(b: BaselineView) -> Seq<u8> {
    raw("{\"flow\":"@) + json_string(b.flow) + raw(",\"proof_bytes\":"@) + json_nat(
        b.proof_bytes as nat,
    ) + raw(",\"prove_micros\":"@) + json_nat(b.prove_micros as nat) + raw(
        ",\"verify_micros\":"@,
    ) + json_nat(b.verify_micros as nat) + raw(",\"peak_rss_delta_bytes\":"@) + json_opt_u64(
        b.peak_rss_delta_bytes,
    ) + raw("}"@)
}

/// Canonical JSON object of a size breakdown.
pub open spec fn size_json(s: DirectProofSizeBreakdown) -> Seq<u8> {
    raw("{\"statement_and_execution_bytes\":"@) + json_nat(s.statement_and_execution_bytes as nat)
        + raw(",\"lookup_subclaims_bytes\":"@) + json_nat(s.lookup_subclaims_bytes as nat) + raw(
        ",\"register_subclaims_bytes\":"@,
    ) + json_nat(s.register_subclaims_bytes as nat) + raw(",\"ram_subclaims_bytes\":"@)
        + json_nat(s.ram_subclaims_bytes as nat) + raw(",\"cpu_subclaims_bytes\":"@) + json_nat(
        s.cpu_subclaims_bytes as nat,
    ) + raw(",\"dory_pcs_bytes\":"@) + json_nat(s.dory_pcs_bytes as nat) + raw(
        ",\"nova_recursive_debug_bytes\":"@,
    ) + json_nat(s.nova_recursive_debug_bytes as nat) + raw(",\"spartan_compressed_bytes\":"@)
        + json_nat(s.spartan_compressed_bytes as nat) + raw(
        ",\"recursive_public_state_bytes\":"@,
    ) + json_nat(s.recursive_public_state_bytes as nat) + raw(",\"total_bytes\":"@) + json_nat(
        s.total_bytes as nat,
    ) + raw("}"@)
}

/// First half of the canonical JSON object of proving metrics: the counts.
pub open spec fn metrics_counts_json(m: DirectProvingMetrics) -> Seq<u8> {
    raw("{\"source_block_count\":"@) + json_nat(m.source_block_count as nat) + raw(
        ",\"block_count\":"@,
    ) + json_nat(m.block_count as nat) + raw(",\"total_active_cycles\":"@) + json_nat(
        m.total_active_cycles as nat,
    ) + raw(",\"trace_passes\":"@) + json_nat(m.trace_passes as nat) + raw(
        ",\"max_source_trace_cycles\":"@,
    ) + json_nat(m.max_source_trace_cycles as nat) + raw(",\"max_resident_trace_blocks\":"@)
        + json_nat(m.max_resident_trace_blocks as nat) + raw(",\"max_resident_trace_cycles\":"@)
        + json_nat(m.max_resident_trace_cycles as nat) + raw(
        ",\"estimated_peak_resident_trace_bytes\":"@,
    ) + json_nat(m.estimated_peak_resident_trace_bytes as nat) + raw(",\"spooled_trace_bytes\":"@)
        + json_nat(m.spooled_trace_bytes as nat) + raw(",\"max_serialized_block_bytes\":"@)
        + json_nat(m.max_serialized_block_bytes as nat) + raw(",\"peak_tracked_ram_addresses\":"@)
        + json_nat(m.peak_tracked_ram_addresses as nat) + raw(",\"initial_ram_registry_bytes\":"@)
        + json_nat(m.initial_ram_registry_bytes as nat) + raw(
        ",\"retained_relation_subclaims\":"@,
    ) + json_nat(m.retained_relation_subclaims as nat) + raw(
        ",\"pcs_polynomial_coefficients\":"@,
    ) + json_nat(m.pcs_polynomial_coefficients as nat) + raw(",\"pcs_polynomial_bytes\":"@)
        + json_nat(m.pcs_polynomial_bytes as nat) + raw(",\"nova_recursive_debug_bytes\":"@)
        + json_nat(m.nova_recursive_debug_bytes as nat) + raw(",\"spartan_proof_bytes\":"@)
        + json_nat(m.spartan_proof_bytes as nat)
}

/// Second half of the canonical JSON object of proving metrics: the timings
/// and memory observations, and the closing brace.
pub open spec fn metrics_timing_json(m: DirectProvingMetrics) -> Seq<u8> {
    raw(",\"capture_trace_micros\":"@) + json_nat(m.capture_trace_micros as nat) + raw(
        ",\"relation_preparation_micros\":"@,
    ) + json_nat(m.relation_preparation_micros as nat) + raw(",\"pcs_commit_micros\":"@)
        + json_nat(m.pcs_commit_micros as nat) + raw(",\"nova_fold_micros\":"@) + json_nat(
        m.nova_fold_micros as nat,
    ) + raw(",\"spartan_compress_micros\":"@) + json_nat(m.spartan_compress_micros as nat) + raw(
        ",\"pcs_open_micros\":"@,
    ) + json_nat(m.pcs_open_micros as nat) + raw(",\"self_verify_micros\":"@) + json_nat(
        m.self_verify_micros as nat,
    ) + raw(",\"start_physical_memory_bytes\":"@) + json_opt_usize(m.start_physical_memory_bytes)
        + raw(",\"after_capture_physical_memory_bytes\":"@) + json_opt_usize(
        m.after_capture_physical_memory_bytes,
    ) + raw(",\"after_relations_physical_memory_bytes\":"@) + json_opt_usize(
        m.after_relations_physical_memory_bytes,
    ) + raw(",\"after_pcs_physical_memory_bytes\":"@) + json_opt_usize(
        m.after_pcs_physical_memory_bytes,
    ) + raw(",\"peak_observed_physical_memory_bytes\":"@) + json_opt_usize(
        m.peak_observed_physical_memory_bytes,
    ) + raw("}"@)
}

/// Canonical JSON object of the direct measurement.
pub open spec fn measurement_json(d: DirectD8Measurement) -> Seq<u8> {
    raw("{\"proof_verified\":"@) + json_bool(d.proof_verified) + raw(",\"proof_size\":"@)
        + size_json(d.proof_size) + raw(",\"prove_micros\":"@) + json_nat(d.prove_micros as nat)
        + raw(",\"verify_micros\":"@) + json_nat(d.verify_micros as nat) + raw(
        ",\"peak_rss_delta_bytes\":"@,
    ) + json_opt_u64(d.peak_rss_delta_bytes) + raw(",\"metrics\":"@) + metrics_counts_json(
        d.metrics,
    ) + metrics_timing_json(d.metrics) + raw("}"@)
}

/// The bytes that the artifact digest covers: a compact JSON array of every
/// field but the digest itself, in declaration order.
pub open spec fn digest_preimage(a: ArtifactView) -> Seq<u8> {
    raw("["@) + json_string(a.schema_version) + raw(","@) + json_string(a.workload) + raw(","@)
        + json_string(a.workload_sha3_256) + raw(","@) + json_nat(a.block_capacity as nat) + raw(
        ","@,
    ) + baseline_json(a.native_jolt) + raw(","@) + baseline_json(a.stage19_dual_flow) + raw(","@)
        + measurement_json(a.direct) + raw("]"@)
}

/// Lower-case hexadecimal SHA3-256 digest of the canonical encoding.
pub open spec fn artifact_digest_of(a: ArtifactView) -> Seq<char> {
    hex_of(sha3_256_of(digest_preimage(a)))
}

/// A baseline is complete when its proof size and both timings are non-zero.
pub open spec fn baseline_complete(b: BaselineView) -> bool {
    b.proof_bytes != 0 && b.prove_micros != 0 && b.verify_micros != 0
}

/// Why an artifact is invalid, if it is: the first failing check among
/// schema, workload identity, block capacity, the two baselines, the direct
/// measurement, the structural metrics and the digest.
pub open spec fn artifact_error(a: ArtifactView) -> Option<Seq<char>> {
    let m = a.direct.metrics;
    if a.schema_version != DIRECT_D8_BENCHMARK_SCHEMA_VERSION@ {
        Some("D8 benchmark schema version mismatch"@)
    } else if a.workload.len() == 0 || encode_utf8(a.workload_sha3_256).len() != 64 {
        Some("D8 benchmark workload identity is incomplete"@)
    } else if a.block_capacity < 2 || !is_pow2(a.block_capacity as nat) {
        Some("D8 block capacity must be a power of two of at least two"@)
    } else if !baseline_complete(a.native_jolt) {
        Some(a.native_jolt.flow + " baseline is incomplete"@)
    } else if !baseline_complete(a.stage19_dual_flow) {
        Some(a.stage19_dual_flow.flow + " baseline is incomplete"@)
    } else if !a.direct.proof_verified || a.direct.proof_size.total_bytes == 0
        || a.direct.prove_micros == 0 || a.direct.verify_micros == 0 {
        Some("D8 direct measurement is incomplete or unverified"@)
    } else if m.source_block_count == 0 || m.block_count == 0 || m.total_active_cycles == 0
        || !residency_bounded(m, a.block_capacity) || m.spartan_proof_bytes == 0
        || m.retained_relation_subclaims != sat_mul(m.block_count as nat, 4) {
        Some("D8 direct structural metrics do not prove bounded execution"@)
    } else if a.artifact_digest != artifact_digest_of(a) {
        Some("D8 benchmark artifact digest mismatch"@)
    } else {
        None
    }
}

/// The artifact that a Stage 19 sample and a direct measurement make, with
/// its digest filled in.
pub open spec fn sample_artifact(
    sample: Stage19BenchmarkSample,
    direct: DirectD8Measurement,
) -> ArtifactView {
    let t = sample.timings_micros;
    let unsealed = ArtifactView {
        schema_version: DIRECT_D8_BENCHMARK_SCHEMA_VERSION@,
        workload: sample.workload@,
        workload_sha3_256: sample.workload_sha3_256@,
        block_capacity: sample.block_target_size,
        native_jolt: BaselineView {
            flow: "native-jolt"@,
            proof_bytes: sample.proof_sizes.native_jolt_proof,
            prove_micros: t.native_jolt_prove,
            verify_micros: t.native_jolt_verify_and_export,
            peak_rss_delta_bytes: sample.memory_bytes.native_jolt_peak_delta,
        },
        stage19_dual_flow: BaselineView {
            flow: "stage19-dual-data-flow"@,
            proof_bytes: sample.proof_sizes.recursive_proof_payload,
            prove_micros: if t.nova_spartan_stream + t.recursive_blindfold_prove > u64::MAX {
                u64::MAX
            } else {
                (t.nova_spartan_stream + t.recursive_blindfold_prove) as u64
            },
            verify_micros: t.final_end_to_end_verify,
            peak_rss_delta_bytes: sample.memory_bytes.recursive_peak_delta,
        },
        direct,
        artifact_digest: Seq::empty(),
    };
    ArtifactView { artifact_digest: artifact_digest_of(unsealed), ..unsealed }
}

fn baseline_json_bytes(b: &DirectD8BaselineMeasurement) -> (r: Vec<u8>)
    ensures
        r@ == baseline_json(b@),
{
    let mut out: Vec<u8> = Vec::new();
    push_raw(&mut out, "{\"flow\":");
    assert(out@ =~= raw("{\"flow\":"@));
    push_json_string(&mut out, b.flow.as_str());
    push_raw(&mut out, ",\"proof_bytes\":");
    push_json_usize(&mut out, b.proof_bytes);
    push_raw(&mut out, ",\"prove_micros\":");
    push_json_u64(&mut out, b.prove_micros);
    push_raw(&mut out, ",\"verify_micros\":");
    push_json_u64(&mut out, b.verify_micros);
    push_raw(&mut out, ",\"peak_rss_delta_bytes\":");
    push_json_opt_u64(&mut out, b.peak_rss_delta_bytes);
    push_raw(&mut out, "}");
    assert(out@ =~= baseline_json(b@));
    out
}

fn size_json_bytes(s: &DirectProofSizeBreakdown) -> (r: Vec<u8>)
    ensures
        r@ == size_json(*s),
{
    let mut out: Vec<u8> = Vec::new();
    push_raw(&mut out, "{\"statement_and_execution_bytes\":");
    assert(out@ =~= raw("{\"statement_and_execution_bytes\":"@));
    push_json_usize(&mut out, s.statement_and_execution_bytes);
    push_raw(&mut out, ",\"lookup_subclaims_bytes\":");
    push_json_usize(&mut out, s.lookup_subclaims_bytes);
    push_raw(&mut out, ",\"register_subclaims_bytes\":");
    push_json_usize(&mut out, s.register_subclaims_bytes);
    push_raw(&mut out, ",\"ram_subclaims_bytes\":");
    push_json_usize(&mut out, s.ram_subclaims_bytes);
    push_raw(&mut out, ",\"cpu_subclaims_bytes\":");
    push_json_usize(&mut out, s.cpu_subclaims_bytes);
    push_raw(&mut out, ",\"dory_pcs_bytes\":");
    push_json_usize(&mut out, s.dory_pcs_bytes);
    push_raw(&mut out, ",\"nova_recursive_debug_bytes\":");
    push_json_usize(&mut out, s.nova_recursive_debug_bytes);
    push_raw(&mut out, ",\"spartan_compressed_bytes\":");
    push_json_usize(&mut out, s.spartan_compressed_bytes);
    push_raw(&mut out, ",\"recursive_public_state_bytes\":");
    push_json_usize(&mut out, s.recursive_public_state_bytes);
    push_raw(&mut out, ",\"total_bytes\":");
    push_json_usize(&mut out, s.total_bytes);
    push_raw(&mut out, "}");
    assert(out@ =~= size_json(*s));
    out
}

fn metrics_counts_json_bytes(m: &DirectProvingMetrics) -> (r: Vec<u8>)
    ensures
        r@ == metrics_counts_json(*m),
{
    let mut out: Vec<u8> = Vec::new();
    push_raw(&mut out, "{\"source_block_count\":");
    assert(out@ =~= raw("{\"source_block_count\":"@));
    push_json_usize(&mut out, m.source_block_count);
    push_raw(&mut out, ",\"block_count\":");
    push_json_usize(&mut out, m.block_count);
    push_raw(&mut out, ",\"total_active_cycles\":");
    push_json_usize(&mut out, m.total_active_cycles);
    push_raw(&mut out, ",\"trace_passes\":");
    push_json_usize(&mut out, m.trace_passes);
    push_raw(&mut out, ",\"max_source_trace_cycles\":");
    push_json_usize(&mut out, m.max_source_trace_cycles);
    push_raw(&mut out, ",\"max_resident_trace_blocks\":");
    push_json_usize(&mut out, m.max_resident_trace_blocks);
    push_raw(&mut out, ",\"max_resident_trace_cycles\":");
    push_json_usize(&mut out, m.max_resident_trace_cycles);
    push_raw(&mut out, ",\"estimated_peak_resident_trace_bytes\":");
    push_json_usize(&mut out, m.estimated_peak_resident_trace_bytes);
    push_raw(&mut out, ",\"spooled_trace_bytes\":");
    push_json_usize(&mut out, m.spooled_trace_bytes);
    push_raw(&mut out, ",\"max_serialized_block_bytes\":");
    push_json_usize(&mut out, m.max_serialized_block_bytes);
    push_raw(&mut out, ",\"peak_tracked_ram_addresses\":");
    push_json_usize(&mut out, m.peak_tracked_ram_addresses);
    push_raw(&mut out, ",\"initial_ram_registry_bytes\":");
    push_json_usize(&mut out, m.initial_ram_registry_bytes);
    push_raw(&mut out, ",\"retained_relation_subclaims\":");
    push_json_usize(&mut out, m.retained_relation_subclaims);
    push_raw(&mut out, ",\"pcs_polynomial_coefficients\":");
    push_json_usize(&mut out, m.pcs_polynomial_coefficients);
    push_raw(&mut out, ",\"pcs_polynomial_bytes\":");
    push_json_usize(&mut out, m.pcs_polynomial_bytes);
    push_raw(&mut out, ",\"nova_recursive_debug_bytes\":");
    push_json_usize(&mut out, m.nova_recursive_debug_bytes);
    push_raw(&mut out, ",\"spartan_proof_bytes\":");
    push_json_usize(&mut out, m.spartan_proof_bytes);
    assert(out@ =~= metrics_counts_json(*m));
    out
}

fn metrics_timing_json_bytes(m: &DirectProvingMetrics) -> (r: Vec<u8>)
    ensures
        r@ == metrics_timing_json(*m),
{
    let mut out: Vec<u8> = Vec::new();
    push_raw(&mut out, ",\"capture_trace_micros\":");
    assert(out@ =~= raw(",\"capture_trace_micros\":"@));
    push_json_u128(&mut out, m.capture_trace_micros);
    push_raw(&mut out, ",\"relation_preparation_micros\":");
    push_json_u128(&mut out, m.relation_preparation_micros);
    push_raw(&mut out, ",\"pcs_commit_micros\":");
    push_json_u128(&mut out, m.pcs_commit_micros);
    push_raw(&mut out, ",\"nova_fold_micros\":");
    push_json_u128(&mut out, m.nova_fold_micros);
    push_raw(&mut out, ",\"spartan_compress_micros\":");
    push_json_u128(&mut out, m.spartan_compress_micros);
    push_raw(&mut out, ",\"pcs_open_micros\":");
    push_json_u128(&mut out, m.pcs_open_micros);
    push_raw(&mut out, ",\"self_verify_micros\":");
    push_json_u128(&mut out, m.self_verify_micros);
    push_raw(&mut out, ",\"start_physical_memory_bytes\":");
    push_json_opt_usize(&mut out, m.start_physical_memory_bytes);
    push_raw(&mut out, ",\"after_capture_physical_memory_bytes\":");
    push_json_opt_usize(&mut out, m.after_capture_physical_memory_bytes);
    push_raw(&mut out, ",\"after_relations_physical_memory_bytes\":");
    push_json_opt_usize(&mut out, m.after_relations_physical_memory_bytes);
    push_raw(&mut out, ",\"after_pcs_physical_memory_bytes\":");
    push_json_opt_usize(&mut out, m.after_pcs_physical_memory_bytes);
    push_raw(&mut out, ",\"peak_observed_physical_memory_bytes\":");
    push_json_opt_usize(&mut out, m.peak_observed_physical_memory_bytes);
    push_raw(&mut out, "}");
    assert(out@ =~= metrics_timing_json(*m));
    out
}

fn measurement_json_bytes(d: &DirectD8Measurement) -> (r: Vec<u8>)
    ensures
        r@ == measurement_json(*d),
{
    let mut out: Vec<u8> = Vec::new();
    push_raw(&mut out, "{\"proof_verified\":");
    assert(out@ =~= raw("{\"proof_verified\":"@));
    push_json_bool(&mut out, d.proof_verified);
    push_raw(&mut out, ",\"proof_size\":");
    push_bytes(&mut out, size_json_bytes(&d.proof_size).as_slice());
    push_raw(&mut out, ",\"prove_micros\":");
    push_json_u64(&mut out, d.prove_micros);
    push_raw(&mut out, ",\"verify_micros\":");
    push_json_u64(&mut out, d.verify_micros);
    push_raw(&mut out, ",\"peak_rss_delta_bytes\":");
    push_json_opt_u64(&mut out, d.peak_rss_delta_bytes);
    push_raw(&mut out, ",\"metrics\":");
    push_bytes(&mut out, metrics_counts_json_bytes(&d.metrics).as_slice());
    push_bytes(&mut out, metrics_timing_json_bytes(&d.metrics).as_slice());
    push_raw(&mut out, "}");
    assert(out@ =~= measurement_json(*d));
    out
}

/// The digest does not cover the digest field: replacing the digest of an
/// artifact leaves the digest it should carry unchanged.
pub proof fn law_digest_ignores_digest_field(a: ArtifactView, digest: Seq<char>)
    ensures
        artifact_digest_of(ArtifactView { artifact_digest: digest, ..a }) == artifact_digest_of(a),
{
}

/// An artifact built from a sample carries its own digest, so sealing never
/// makes the digest check fail.
pub proof fn law_built_artifact_is_sealed(sample: Stage19BenchmarkSample, direct: DirectD8Measurement)
    ensures
        sample_artifact(sample, direct).artifact_digest == artifact_digest_of(
            sample_artifact(sample, direct),
        ),
{
}

/// Residency is part of what an artifact certifies: an artifact whose
/// direct metrics exceed the bounded-replay limits for its capacity is
/// refused, whatever its digest.
pub proof fn law_unbounded_residency_is_refused(a: ArtifactView)
    requires
        !residency_bounded(a.direct.metrics, a.block_capacity),
    ensures
        artifact_error(a) is Some,
{
}

fn digest_preimage_bytes(a: &DirectD8BenchmarkArtifact) -> (r: Vec<u8>)
    ensures
        r@ == digest_preimage(a@),
{
    let mut out: Vec<u8> = Vec::new();
    push_raw(&mut out, "[");
    assert(out@ =~= raw("["@));
    push_json_string(&mut out, a.schema_version.as_str());
    push_raw(&mut out, ",");
    push_json_string(&mut out, a.workload.as_str());
    push_raw(&mut out, ",");
    push_json_string(&mut out, a.workload_sha3_256.as_str());
    push_raw(&mut out, ",");
    push_json_usize(&mut out, a.block_capacity);
    push_raw(&mut out, ",");
    push_bytes(&mut out, baseline_json_bytes(&a.native_jolt).as_slice());
    push_raw(&mut out, ",");
    push_bytes(&mut out, baseline_json_bytes(&a.stage19_dual_flow).as_slice());
    push_raw(&mut out, ",");
    push_bytes(&mut out, measurement_json_bytes(&a.direct).as_slice());
    push_raw(&mut out, "]");
    assert(out@ =~= digest_preimage(a@));
    out
}

/// A peak memory delta, or `n/a` when it was not observed.
pub open spec fn rss_text(o: Option<u64>) -> Seq<char> {
    match o {
        Some(v) => dec(v as nat),
        None => "n/a"@,
    }
}

/// A memory observation, or `n/a` when there was none.
pub open spec fn observation_text(o: Option<usize>) -> Seq<char> {
    match o {
        Some(v) => dec(v as nat),
        None => "n/a"@,
    }
}

/// One row of the comparison table.
pub open spec fn md_row(
    label: Seq<char>,
    proof_bytes: nat,
    prove_micros: nat,
    verify_micros: nat,
    rss: Seq<char>,
) -> Seq<char> {
    "| "@ + label + " | "@ + dec(proof_bytes) + " | "@ + dec(prove_micros) + " | "@ + dec(
        verify_micros,
    ) + " | "@ + rss + " |\n"@
}

/// One bullet of the memory decomposition.
pub open spec fn md_item(label: Seq<char>, value: Seq<char>) -> Seq<char> {
    "- "@ + label + ": "@ + value + "\n"@
}

/// The report line naming the block capacity.
pub open spec fn capacity_line(a: ArtifactView) -> Seq<char> {
    "Block capacity: `"@ + dec(a.block_capacity as nat) + "`"@
}

/// The report line naming the artifact digest.
pub open spec fn digest_line(a: ArtifactView) -> Seq<char> {
    "Artifact digest: `"@ + a.artifact_digest + "`"@
}

/// Title, workload identity and table header of the report.
pub open spec fn markdown_header(a: ArtifactView) -> Seq<char> {
    "# Direct Chunked Jolt-Nova D8\n"@ + "\nWorkload: `"@ + a.workload + "`  \n"@ + capacity_line(a)
        + "  \n"@ + digest_line(a)
        + "\n\n| Flow | Proof bytes | Prove us | Verify us | Peak RSS delta bytes |\n|---|---:|---:|---:|---:|\n"@
}

/// The three rows of the comparison table.
#[verifier::opaque]
pub open spec fn markdown_table(a: ArtifactView) -> Seq<char> {
    md_row(
        "Native Jolt"@,
        a.native_jolt.proof_bytes as nat,
        a.native_jolt.prove_micros as nat,
        a.native_jolt.verify_micros as nat,
        rss_text(a.native_jolt.peak_rss_delta_bytes),
    ) + md_row(
        "Stage 19 dual flow"@,
        a.stage19_dual_flow.proof_bytes as nat,
        a.stage19_dual_flow.prove_micros as nat,
        a.stage19_dual_flow.verify_micros as nat,
        rss_text(a.stage19_dual_flow.peak_rss_delta_bytes),
    ) + md_row(
        "Direct chunked"@,
        a.direct.proof_size.total_bytes as nat,
        a.direct.prove_micros as nat,
        a.direct.verify_micros as nat,
        rss_text(a.direct.peak_rss_delta_bytes),
    )
}

/// The structural counts of the memory decomposition section.
#[verifier::opaque]
pub open spec fn decomposition_counts(m: DirectProvingMetrics) -> Seq<char> {
    "\n## Direct memory decomposition\n\n"@ + md_item(
        "source trace blocks"@,
        dec(m.source_block_count as nat),
    ) + md_item("fixed-capacity proof blocks"@, dec(m.block_count as nat)) + md_item(
        "trace passes"@,
        dec(m.trace_passes as nat),
    ) + md_item("max source trace cycles"@, dec(m.max_source_trace_cycles as nat)) + md_item(
        "max resident trace blocks"@,
        dec(m.max_resident_trace_blocks as nat),
    ) + md_item("max resident trace cycles"@, dec(m.max_resident_trace_cycles as nat)) + md_item(
        "estimated peak resident trace bytes"@,
        dec(m.estimated_peak_resident_trace_bytes as nat),
    ) + md_item("spooled trace bytes"@, dec(m.spooled_trace_bytes as nat)) + md_item(
        "tracked RAM addresses"@,
        dec(m.peak_tracked_ram_addresses as nat),
    ) + md_item("initial RAM registry bytes"@, dec(m.initial_ram_registry_bytes as nat)) + md_item(
        "retained relation subclaims"@,
        dec(m.retained_relation_subclaims as nat),
    ) + md_item("PCS polynomial bytes"@, dec(m.pcs_polynomial_bytes as nat))
}

/// The physical memory observations of the memory decomposition section.
pub open spec fn memory_observations(m: DirectProvingMetrics) -> Seq<char> {
    md_item("RSS after capture"@, observation_text(m.after_capture_physical_memory_bytes)) + md_item(
        "RSS after relations"@,
        observation_text(m.after_relations_physical_memory_bytes),
    ) + md_item("RSS after PCS"@, observation_text(m.after_pcs_physical_memory_bytes)) + md_item(
        "peak observed RSS"@,
        observation_text(m.peak_observed_physical_memory_bytes),
    )
}

/// The memory decomposition section of the report.
#[verifier::opaque]
pub open spec fn markdown_decomposition(m: DirectProvingMetrics) -> Seq<char> {
    decomposition_counts(m) + memory_observations(m)
}

/// The Markdown report of an artifact.
pub open spec fn markdown_text(a: ArtifactView) -> Seq<char> {
    markdown_header(a) + markdown_table(a) + markdown_decomposition(a.direct.metrics)
}

/// `t` occurs in `s` as a contiguous run.
pub open spec fn has_infix(s: Seq<char>, t: Seq<char>) -> bool {
    exists|i: int| 0 <= i && i + t.len() <= s.len() && #[trigger] s.subrange(i, i + t.len()) == t
}

proof fn lemma_infix(s: Seq<char>, p: Seq<char>, t: Seq<char>, q: Seq<char>)
    requires
        s =~= p + t + q,
    ensures
        has_infix(s, t),
{
    assert(s.subrange(p.len() as int, (p.len() + t.len()) as int) =~= t);
}

/// The report of an artifact opens with its title, names the block capacity
/// and the artifact digest, and holds one table row per flow, in the order
/// native Jolt, Stage 19 dual flow, direct chunked; each row gives the proof
/// bytes, the prove and verify times and the peak RSS delta, written in
/// decimal or as `n/a` when it was not measured.
pub proof fn law_markdown_report_layout(a: ArtifactView)
    ensures
        "# Direct Chunked Jolt-Nova D8\n"@.is_prefix_of(markdown_text(a)),
        capacity_line(a) == "Block capacity: `"@ + dec(a.block_capacity as nat) + "`"@,
        has_infix(markdown_text(a), capacity_line(a)),
        digest_line(a) == "Artifact digest: `"@ + a.artifact_digest + "`"@,
        has_infix(markdown_text(a), digest_line(a)),
        has_infix(markdown_text(a), markdown_table(a)),
        markdown_table(a) == md_row(
            "Native Jolt"@,
            a.native_jolt.proof_bytes as nat,
            a.native_jolt.prove_micros as nat,
            a.native_jolt.verify_micros as nat,
            rss_text(a.native_jolt.peak_rss_delta_bytes),
        ) + md_row(
            "Stage 19 dual flow"@,
            a.stage19_dual_flow.proof_bytes as nat,
            a.stage19_dual_flow.prove_micros as nat,
            a.stage19_dual_flow.verify_micros as nat,
            rss_text(a.stage19_dual_flow.peak_rss_delta_bytes),
        ) + md_row(
            "Direct chunked"@,
            a.direct.proof_size.total_bytes as nat,
            a.direct.prove_micros as nat,
            a.direct.verify_micros as nat,
            rss_text(a.direct.peak_rss_delta_bytes),
        ),
        forall|o: Option<u64>| #[trigger]
            rss_text(o) == match o {
                Some(v) => dec(v as nat),
                None => "n/a"@,
            },
{
    let title = "# Direct Chunked Jolt-Nova D8\n"@;
    let head = "\nWorkload: `"@ + a.workload + "`  \n"@;
    let tail = "\n\n| Flow | Proof bytes | Prove us | Verify us | Peak RSS delta bytes |\n|---|---:|---:|---:|---:|\n"@;
    let table = markdown_table(a);
    let decomposition = markdown_decomposition(a.direct.metrics);
    let text = markdown_text(a);
    assert(text =~= title + (head + capacity_line(a) + "  \n"@ + digest_line(a) + tail + table
        + decomposition));
    assert(text.subrange(0, title.len() as int) =~= title);
    lemma_infix(
        text,
        title + head,
        capacity_line(a),
        "  \n"@ + digest_line(a) + tail + table + decomposition,
    );
    lemma_infix(
        text,
        title + head + capacity_line(a) + "  \n"@,
        digest_line(a),
        tail + table + decomposition,
    );
    lemma_infix(text, markdown_header(a), table, decomposition);
    reveal(markdown_table);
}

/// A memory observation is reported as its decimal value when it was made,
/// and as `n/a` only when it was not.
pub proof fn law_observation_text_shows_the_value(o: Option<usize>)
    ensures
        o matches Some(v) ==> observation_text(o) == dec(v as nat),
        o is None ==> observation_text(o) == "n/a"@,
{
}

/// The report lists each physical memory observation of the direct run on a
/// line of its own, as its decimal value when it was made and `n/a` when it
/// was not: after capture, after the relations, after the PCS, and the peak.
pub proof fn law_markdown_reports_memory_observations(a: ArtifactView)
    ensures
        ({
            let m = a.direct.metrics;
            let shown = |o: Option<usize>|
                match o {
                    Some(v) => dec(v as nat),
                    None => "n/a"@,
                };
            &&& has_infix(markdown_text(a), md_item("RSS after capture"@, shown(m.after_capture_physical_memory_bytes)))
            &&& has_infix(markdown_text(a), md_item("RSS after relations"@, shown(m.after_relations_physical_memory_bytes)))
            &&& has_infix(markdown_text(a), md_item("RSS after PCS"@, shown(m.after_pcs_physical_memory_bytes)))
            &&& has_infix(markdown_text(a), md_item("peak observed RSS"@, shown(m.peak_observed_physical_memory_bytes)))
        }),
{
    let m = a.direct.metrics;
    reveal(markdown_decomposition);
    let before = markdown_header(a) + markdown_table(a) + decomposition_counts(m);
    let i1 = md_item("RSS after capture"@, observation_text(m.after_capture_physical_memory_bytes));
    let i2 = md_item("RSS after relations"@, observation_text(m.after_relations_physical_memory_bytes));
    let i3 = md_item("RSS after PCS"@, observation_text(m.after_pcs_physical_memory_bytes));
    let i4 = md_item("peak observed RSS"@, observation_text(m.peak_observed_physical_memory_bytes));
    let text = markdown_text(a);
    assert(text =~= before + i1 + i2 + i3 + i4);
    lemma_infix(text, before, i1, i2 + i3 + i4);
    lemma_infix(text, before + i1, i2, i3 + i4);
    lemma_infix(text, before + i1 + i2, i3, i4);
    lemma_infix(text, before + i1 + i2 + i3, i4, Seq::empty());
}

proof fn lemma_infix_left(a: Seq<char>, b: Seq<char>)
    ensures
        has_infix(a + b, a),
{
    let i: int = 0;
    assert((a + b).subrange(i, i + a.len()) =~= a);
}

proof fn lemma_infix_right(a: Seq<char>, b: Seq<char>)
    ensures
        has_infix(a + b, b),
{
    assert((a + b).subrange(a.len() as int, (a.len() + b.len()) as int) =~= b);
}

proof fn lemma_infix_trans(s: Seq<char>, u: Seq<char>, t: Seq<char>)
    requires
        has_infix(s, u),
        has_infix(u, t),
    ensures
        has_infix(s, t),
{
    let i = choose|i: int| 0 <= i && i + u.len() <= s.len() && #[trigger] s.subrange(i, i + u.len()) == u;
    let j = choose|j: int| 0 <= j && j + t.len() <= u.len() && #[trigger] u.subrange(j, j + t.len()) == t;
    assert(s.subrange(i + j, i + j + t.len()) =~= u.subrange(j, j + t.len()));
}

/// The report lists every structural count of the direct run on a line of
/// its own, as the decimal value of that count: source and proof blocks,
/// passes, the residency maxima, spooled bytes, tracked RAM addresses and
/// their registry bytes, retained subclaims and PCS polynomial bytes.
pub proof fn law_markdown_reports_structural_counts(a: ArtifactView)
    ensures
        has_infix(markdown_text(a), md_item("source trace blocks"@, dec(a.direct.metrics.source_block_count as nat))),
        has_infix(markdown_text(a), md_item("fixed-capacity proof blocks"@, dec(a.direct.metrics.block_count as nat))),
        has_infix(markdown_text(a), md_item("trace passes"@, dec(a.direct.metrics.trace_passes as nat))),
        has_infix(markdown_text(a), md_item("max source trace cycles"@, dec(a.direct.metrics.max_source_trace_cycles as nat))),
        has_infix(markdown_text(a), md_item("max resident trace blocks"@, dec(a.direct.metrics.max_resident_trace_blocks as nat))),
        has_infix(markdown_text(a), md_item("max resident trace cycles"@, dec(a.direct.metrics.max_resident_trace_cycles as nat))),
        has_infix(markdown_text(a), md_item("estimated peak resident trace bytes"@, dec(a.direct.metrics.estimated_peak_resident_trace_bytes as nat))),
        has_infix(markdown_text(a), md_item("spooled trace bytes"@, dec(a.direct.metrics.spooled_trace_bytes as nat))),
        has_infix(markdown_text(a), md_item("tracked RAM addresses"@, dec(a.direct.metrics.peak_tracked_ram_addresses as nat))),
        has_infix(markdown_text(a), md_item("initial RAM registry bytes"@, dec(a.direct.metrics.initial_ram_registry_bytes as nat))),
        has_infix(markdown_text(a), md_item("retained relation subclaims"@, dec(a.direct.metrics.retained_relation_subclaims as nat))),
        has_infix(markdown_text(a), md_item("PCS polynomial bytes"@, dec(a.direct.metrics.pcs_polynomial_bytes as nat))),
{
    let m = a.direct.metrics;
    let text = markdown_text(a);
    reveal(markdown_decomposition);
    reveal(decomposition_counts);
    let c0 = "\n## Direct memory decomposition\n\n"@ + md_item("source trace blocks"@, dec(m.source_block_count as nat));
    let c1 = c0 + md_item("fixed-capacity proof blocks"@, dec(m.block_count as nat));
    let c2 = c1 + md_item("trace passes"@, dec(m.trace_passes as nat));
    let c3 = c2 + md_item("max source trace cycles"@, dec(m.max_source_trace_cycles as nat));
    let c4 = c3 + md_item("max resident trace blocks"@, dec(m.max_resident_trace_blocks as nat));
    let c5 = c4 + md_item("max resident trace cycles"@, dec(m.max_resident_trace_cycles as nat));
    let c6 = c5 + md_item("estimated peak resident trace bytes"@, dec(m.estimated_peak_resident_trace_bytes as nat));
    let c7 = c6 + md_item("spooled trace bytes"@, dec(m.spooled_trace_bytes as nat));
    let c8 = c7 + md_item("tracked RAM addresses"@, dec(m.peak_tracked_ram_addresses as nat));
    let c9 = c8 + md_item("initial RAM registry bytes"@, dec(m.initial_ram_registry_bytes as nat));
    let c10 = c9 + md_item("retained relation subclaims"@, dec(m.retained_relation_subclaims as nat));
    let c11 = c10 + md_item("PCS polynomial bytes"@, dec(m.pcs_polynomial_bytes as nat));
    assert(decomposition_counts(m) == c11);
    lemma_infix(text, markdown_header(a) + markdown_table(a), c11, memory_observations(m));
    lemma_infix_left(c10, md_item("PCS polynomial bytes"@, dec(m.pcs_polynomial_bytes as nat)));
    lemma_infix_trans(text, c11, c10);
    lemma_infix_left(c9, md_item("retained relation subclaims"@, dec(m.retained_relation_subclaims as nat)));
    lemma_infix_trans(text, c10, c9);
    lemma_infix_left(c8, md_item("initial RAM registry bytes"@, dec(m.initial_ram_registry_bytes as nat)));
    lemma_infix_trans(text, c9, c8);
    lemma_infix_left(c7, md_item("tracked RAM addresses"@, dec(m.peak_tracked_ram_addresses as nat)));
    lemma_infix_trans(text, c8, c7);
    lemma_infix_left(c6, md_item("spooled trace bytes"@, dec(m.spooled_trace_bytes as nat)));
    lemma_infix_trans(text, c7, c6);
    lemma_infix_left(c5, md_item("estimated peak resident trace bytes"@, dec(m.estimated_peak_resident_trace_bytes as nat)));
    lemma_infix_trans(text, c6, c5);
    lemma_infix_left(c4, md_item("max resident trace cycles"@, dec(m.max_resident_trace_cycles as nat)));
    lemma_infix_trans(text, c5, c4);
    lemma_infix_left(c3, md_item("max resident trace blocks"@, dec(m.max_resident_trace_blocks as nat)));
    lemma_infix_trans(text, c4, c3);
    lemma_infix_left(c2, md_item("max source trace cycles"@, dec(m.max_source_trace_cycles as nat)));
    lemma_infix_trans(text, c3, c2);
    lemma_infix_left(c1, md_item("trace passes"@, dec(m.trace_passes as nat)));
    lemma_infix_trans(text, c2, c1);
    lemma_infix_left(c0, md_item("fixed-capacity proof blocks"@, dec(m.block_count as nat)));
    lemma_infix_trans(text, c1, c0);
    lemma_infix_right("\n## Direct memory decomposition\n\n"@, md_item("source trace blocks"@, dec(m.source_block_count as nat)));
    lemma_infix_trans(text, c0, md_item("source trace blocks"@, dec(m.source_block_count as nat)));
    lemma_infix_right(c0, md_item("fixed-capacity proof blocks"@, dec(m.block_count as nat)));
    lemma_infix_trans(text, c1, md_item("fixed-capacity proof blocks"@, dec(m.block_count as nat)));
    lemma_infix_right(c1, md_item("trace passes"@, dec(m.trace_passes as nat)));
    lemma_infix_trans(text, c2, md_item("trace passes"@, dec(m.trace_passes as nat)));
    lemma_infix_right(c2, md_item("max source trace cycles"@, dec(m.max_source_trace_cycles as nat)));
    lemma_infix_trans(text, c3, md_item("max source trace cycles"@, dec(m.max_source_trace_cycles as nat)));
    lemma_infix_right(c3, md_item("max resident trace blocks"@, dec(m.max_resident_trace_blocks as nat)));
    lemma_infix_trans(text, c4, md_item("max resident trace blocks"@, dec(m.max_resident_trace_blocks as nat)));
    lemma_infix_right(c4, md_item("max resident trace cycles"@, dec(m.max_resident_trace_cycles as nat)));
    lemma_infix_trans(text, c5, md_item("max resident trace cycles"@, dec(m.max_resident_trace_cycles as nat)));
    lemma_infix_right(c5, md_item("estimated peak resident trace bytes"@, dec(m.estimated_peak_resident_trace_bytes as nat)));
    lemma_infix_trans(text, c6, md_item("estimated peak resident trace bytes"@, dec(m.estimated_peak_resident_trace_bytes as nat)));
    lemma_infix_right(c6, md_item("spooled trace bytes"@, dec(m.spooled_trace_bytes as nat)));
    lemma_infix_trans(text, c7, md_item("spooled trace bytes"@, dec(m.spooled_trace_bytes as nat)));
    lemma_infix_right(c7, md_item("tracked RAM addresses"@, dec(m.peak_tracked_ram_addresses as nat)));
    lemma_infix_trans(text, c8, md_item("tracked RAM addresses"@, dec(m.peak_tracked_ram_addresses as nat)));
    lemma_infix_right(c8, md_item("initial RAM registry bytes"@, dec(m.initial_ram_registry_bytes as nat)));
    lemma_infix_trans(text, c9, md_item("initial RAM registry bytes"@, dec(m.initial_ram_registry_bytes as nat)));
    lemma_infix_right(c9, md_item("retained relation subclaims"@, dec(m.retained_relation_subclaims as nat)));
    lemma_infix_trans(text, c10, md_item("retained relation subclaims"@, dec(m.retained_relation_subclaims as nat)));
    lemma_infix_right(c10, md_item("PCS polynomial bytes"@, dec(m.pcs_polynomial_bytes as nat)));
    lemma_infix_trans(text, c11, md_item("PCS polynomial bytes"@, dec(m.pcs_polynomial_bytes as nat)));
}

/// The report holds one table row per flow, each naming the flow and giving,
/// in this order, its proof bytes, prove time, verify time and peak RSS
/// delta, in decimal or `n/a` when the delta was not measured.
pub proof fn law_markdown_rows_show_each_flow(a: ArtifactView)
    ensures
        ({
            let shown = |o: Option<u64>|
                match o {
                    Some(v) => dec(v as nat),
                    None => "n/a"@,
                };
            let row = |label: Seq<char>, bytes: nat, prove: nat, verify: nat, rss: Option<u64>|
                "| "@ + label + " | "@ + dec(bytes) + " | "@ + dec(prove) + " | "@ + dec(verify)
                    + " | "@ + shown(rss) + " |\n"@;
            &&& has_infix(
                markdown_text(a),
                row(
                    "Native Jolt"@,
                    a.native_jolt.proof_bytes as nat,
                    a.native_jolt.prove_micros as nat,
                    a.native_jolt.verify_micros as nat,
                    a.native_jolt.peak_rss_delta_bytes,
                ),
            )
            &&& has_infix(
                markdown_text(a),
                row(
                    "Stage 19 dual flow"@,
                    a.stage19_dual_flow.proof_bytes as nat,
                    a.stage19_dual_flow.prove_micros as nat,
                    a.stage19_dual_flow.verify_micros as nat,
                    a.stage19_dual_flow.peak_rss_delta_bytes,
                ),
            )
            &&& has_infix(
                markdown_text(a),
                row(
                    "Direct chunked"@,
                    a.direct.proof_size.total_bytes as nat,
                    a.direct.prove_micros as nat,
                    a.direct.verify_micros as nat,
                    a.direct.peak_rss_delta_bytes,
                ),
            )
        }),
{
    let text = markdown_text(a);
    law_markdown_report_layout(a);
    let r1 = md_row(
        "Native Jolt"@,
        a.native_jolt.proof_bytes as nat,
        a.native_jolt.prove_micros as nat,
        a.native_jolt.verify_micros as nat,
        rss_text(a.native_jolt.peak_rss_delta_bytes),
    );
    let r2 = md_row(
        "Stage 19 dual flow"@,
        a.stage19_dual_flow.proof_bytes as nat,
        a.stage19_dual_flow.prove_micros as nat,
        a.stage19_dual_flow.verify_micros as nat,
        rss_text(a.stage19_dual_flow.peak_rss_delta_bytes),
    );
    let r3 = md_row(
        "Direct chunked"@,
        a.direct.proof_size.total_bytes as nat,
        a.direct.prove_micros as nat,
        a.direct.verify_micros as nat,
        rss_text(a.direct.peak_rss_delta_bytes),
    );
    assert(markdown_table(a) == r1 + r2 + r3);
    lemma_infix_left(r1 + r2, r3);
    lemma_infix_left(r1, r2);
    lemma_infix_right(r1, r2);
    lemma_infix_right(r1 + r2, r3);
    lemma_infix_trans(text, markdown_table(a), r1 + r2);
    lemma_infix_trans(text, r1 + r2, r1);
    lemma_infix_trans(text, r1 + r2, r2);
    lemma_infix_trans(text, markdown_table(a), r3);
}

fn rss_string(o: Option<u64>) -> (s: String)
    ensures
        s@ == rss_text(o),
{
    match o {
        Some(v) => decimal(v),
        None => text("n/a"),
    }
}

fn observation_string(o: Option<usize>) -> (s: String)
    ensures
        s@ == observation_text(o),
{
    match o {
        Some(v) => decimal_usize(v),
        None => text("n/a"),
    }
}

fn row_string(
    label: &str,
    proof_bytes: usize,
    prove_micros: u64,
    verify_micros: u64,
    rss: Option<u64>,
) -> (s: String)
    ensures
        s@ == md_row(
            label@,
            proof_bytes as nat,
            prove_micros as nat,
            verify_micros as nat,
            rss_text(rss),
        ),
{
    let mut s = text("| ");
    s.append(label);
    s.append(" | ");
    s.append(decimal_usize(proof_bytes).as_str());
    s.append(" | ");
    s.append(decimal(prove_micros).as_str());
    s.append(" | ");
    s.append(decimal(verify_micros).as_str());
    s.append(" | ");
    s.append(rss_string(rss).as_str());
    s.append(" |\n");
    s
}

fn push_item(out: &mut String, label: &str, value: &str)
    ensures
        final(out)@ == old(out)@ + md_item(label@, value@),
{
    let ghost start = out@;
    let mut item = text("- ");
    item.append(label);
    item.append(": ");
    item.append(value);
    item.append("\n");
    out.append(item.as_str());
    assert(out@ =~= start + md_item(label@, value@));
}

fn decomposition_string(m: &DirectProvingMetrics) -> (s: String)
    ensures
        s@ == markdown_decomposition(*m),
{
    reveal(markdown_decomposition);
    reveal(decomposition_counts);
    let mut s = text("\n## Direct memory decomposition\n\n");
    push_item(&mut s, "source trace blocks", decimal_usize(m.source_block_count).as_str());
    push_item(&mut s, "fixed-capacity proof blocks", decimal_usize(m.block_count).as_str());
    push_item(&mut s, "trace passes", decimal_usize(m.trace_passes).as_str());
    push_item(&mut s, "max source trace cycles", decimal_usize(m.max_source_trace_cycles).as_str());
    push_item(
        &mut s,
        "max resident trace blocks",
        decimal_usize(m.max_resident_trace_blocks).as_str(),
    );
    push_item(
        &mut s,
        "max resident trace cycles",
        decimal_usize(m.max_resident_trace_cycles).as_str(),
    );
    push_item(
        &mut s,
        "estimated peak resident trace bytes",
        decimal_usize(m.estimated_peak_resident_trace_bytes).as_str(),
    );
    push_item(&mut s, "spooled trace bytes", decimal_usize(m.spooled_trace_bytes).as_str());
    push_item(
        &mut s,
        "tracked RAM addresses",
        decimal_usize(m.peak_tracked_ram_addresses).as_str(),
    );
    push_item(
        &mut s,
        "initial RAM registry bytes",
        decimal_usize(m.initial_ram_registry_bytes).as_str(),
    );
    push_item(
        &mut s,
        "retained relation subclaims",
        decimal_usize(m.retained_relation_subclaims).as_str(),
    );
    push_item(&mut s, "PCS polynomial bytes", decimal_usize(m.pcs_polynomial_bytes).as_str());
    let ghost counts = s@;
    assert(counts == decomposition_counts(*m));
    push_item(
        &mut s,
        "RSS after capture",
        observation_string(m.after_capture_physical_memory_bytes).as_str(),
    );
    push_item(
        &mut s,
        "RSS after relations",
        observation_string(m.after_relations_physical_memory_bytes).as_str(),
    );
    push_item(
        &mut s,
        "RSS after PCS",
        observation_string(m.after_pcs_physical_memory_bytes).as_str(),
    );
    push_item(
        &mut s,
        "peak observed RSS",
        observation_string(m.peak_observed_physical_memory_bytes).as_str(),
    );
    assert(s@ =~= counts + memory_observations(*m));
    s
}

impl DirectD8BenchmarkArtifact {
    /// Builds the artifact from a Stage 19 sample and a direct measurement,
    /// seals it with its digest, and validates it. The sample's own
    /// internal consistency (its flags, digests and totals) is not checked
    /// here: the sample is taken as it was recorded.
    pub fn from_stage19_sample(sample: &Stage19BenchmarkSample, direct: DirectD8Measurement) -> (r:
        Result<Self, String>)
        ensures
            r matches Ok(a) ==> a@ == sample_artifact(*sample, direct),
            r is Ok <==> artifact_error(sample_artifact(*sample, direct)) is None,
            r matches Err(e) ==> artifact_error(sample_artifact(*sample, direct)) == Some(e@),
    {
        let mut artifact = DirectD8BenchmarkArtifact {
            schema_version: text(DIRECT_D8_BENCHMARK_SCHEMA_VERSION),
            workload: sample.workload.clone(),
            workload_sha3_256: sample.workload_sha3_256.clone(),
            block_capacity: sample.block_target_size,
            native_jolt: DirectD8BaselineMeasurement {
                flow: text("native-jolt"),
                proof_bytes: sample.proof_sizes.native_jolt_proof,
                prove_micros: sample.timings_micros.native_jolt_prove,
                verify_micros: sample.timings_micros.native_jolt_verify_and_export,
                peak_rss_delta_bytes: sample.memory_bytes.native_jolt_peak_delta,
            },
            stage19_dual_flow: DirectD8BaselineMeasurement {
                flow: text("stage19-dual-data-flow"),
                proof_bytes: sample.proof_sizes.recursive_proof_payload,
                prove_micros: sample.timings_micros.recursive_extension(),
                verify_micros: sample.timings_micros.final_end_to_end_verify,
                peak_rss_delta_bytes: sample.memory_bytes.recursive_peak_delta,
            },
            direct,
            artifact_digest: String::new(),
        };
        artifact.artifact_digest = artifact.compute_digest();
        proof {
            assert(artifact@ == sample_artifact(*sample, direct));
        }
        match artifact.validate() {
            Ok(()) => Ok(artifact),
            Err(e) => Err(e),
        }
    }

    /// Checks the schema, the workload identity, the capacity, that every
    /// measurement is complete, that the direct metrics show bounded
    /// residency, and the digest.
    pub fn validate(&self) -> (r: Result<(), String>)
        ensures
            match artifact_error(self@) {
                None => r is Ok,
                Some(reason) => r matches Err(e) && e@ == reason,
            },
    {
        if !same_text(&self.schema_version, DIRECT_D8_BENCHMARK_SCHEMA_VERSION) {
            return Err(text("D8 benchmark schema version mismatch"));
        }
        if self.workload.as_str().is_empty() || self.workload_sha3_256.as_str().as_bytes().len() != 64 {
            return Err(text("D8 benchmark workload identity is incomplete"));
        }
        if self.block_capacity < 2 || !is_power_of_two(self.block_capacity) {
            return Err(text("D8 block capacity must be a power of two of at least two"));
        }
        let native = &self.native_jolt;
        if native.proof_bytes == 0 || native.prove_micros == 0 || native.verify_micros == 0 {
            return Err(native.flow.clone().concat(" baseline is incomplete"));
        }
        let dual = &self.stage19_dual_flow;
        if dual.proof_bytes == 0 || dual.prove_micros == 0 || dual.verify_micros == 0 {
            return Err(dual.flow.clone().concat(" baseline is incomplete"));
        }
        if !self.direct.proof_verified || self.direct.proof_size.total_bytes == 0
            || self.direct.prove_micros == 0 || self.direct.verify_micros == 0 {
            return Err(text("D8 direct measurement is incomplete or unverified"));
        }
        let metrics = &self.direct.metrics;
        if metrics.source_block_count == 0 || metrics.block_count == 0
            || metrics.total_active_cycles == 0 || !metrics.trace_residency_is_bounded(
            self.block_capacity,
        ) || metrics.spartan_proof_bytes == 0 || metrics.retained_relation_subclaims
            != saturating_mul(metrics.block_count, 4) {
            return Err(text("D8 direct structural metrics do not prove bounded execution"));
        }
        let digest = self.compute_digest();
        if !(self.artifact_digest == digest) {
            return Err(text("D8 benchmark artifact digest mismatch"));
        }
        Ok(())
    }

    fn markdown_header_string(&self) -> (s: String)
        ensures
            s@ == markdown_header(self@),
    {
        let mut header = text("# Direct Chunked Jolt-Nova D8\n");
        header.append("\nWorkload: `");
        header.append(self.workload.as_str());
        header.append("`  \n");
        header.append("Block capacity: `");
        header.append(decimal_usize(self.block_capacity).as_str());
        header.append("`");
        header.append("  \n");
        header.append("Artifact digest: `");
        header.append(self.artifact_digest.as_str());
        header.append("`");
        header.append(
            "\n\n| Flow | Proof bytes | Prove us | Verify us | Peak RSS delta bytes |\n|---|---:|---:|---:|---:|\n",
        );
        header
    }

    fn markdown_table_string(&self) -> (s: String)
        ensures
            s@ == markdown_table(self@),
    {
        reveal(markdown_table);
        let native = &self.native_jolt;
        let dual = &self.stage19_dual_flow;
        let direct = &self.direct;
        let mut table = row_string(
            "Native Jolt",
            native.proof_bytes,
            native.prove_micros,
            native.verify_micros,
            native.peak_rss_delta_bytes,
        );
        table.append(
            row_string(
                "Stage 19 dual flow",
                dual.proof_bytes,
                dual.prove_micros,
                dual.verify_micros,
                dual.peak_rss_delta_bytes,
            ).as_str(),
        );
        table.append(
            row_string(
                "Direct chunked",
                direct.proof_size.total_bytes,
                direct.prove_micros,
                direct.verify_micros,
                direct.peak_rss_delta_bytes,
            ).as_str(),
        );
        table
    }

    /// Validates the artifact and renders it as a Markdown report.
    pub fn to_markdown(&self) -> (r: Result<String, String>)
        ensures
            match artifact_error(self@) {
                None => r matches Ok(s) && s@ == markdown_text(self@),
                Some(reason) => r matches Err(e) && e@ == reason,
            },
    {
        match self.validate() {
            Err(e) => {
                return Err(e);
            },
            Ok(()) => {},
        }
        let header = self.markdown_header_string();
        let table = self.markdown_table_string();
        let report = header.concat(table.as_str()).concat(
            decomposition_string(&self.direct.metrics).as_str(),
        );
        Ok(report)
    }

    /// Lower-case hexadecimal SHA3-256 digest of the canonical encoding of
    /// every field but the digest.
    pub fn compute_digest(&self) -> (r: String)
        ensures
            r@ == artifact_digest_of(self@),
    {
        let bytes = digest_preimage_bytes(self);
        let digest = sha3_256(bytes.as_slice());
        hex_string(digest.as_slice())
    }
}

fn same_text(a: &String, b: &str) -> (r: bool)
    ensures
        r == (a@ == b@),
{
    let owned = text(b);
    *a == owned
}

} // verus!
