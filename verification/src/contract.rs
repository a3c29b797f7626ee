//! The run record and its grade.
//!
//! The producer side is strict: a record has every core field of the
//! fingerprint by its type, so that there is no valid record without a complete
//! fingerprint.
use crate::json::{self, Json, Doc};
use crate::text;
use vstd::prelude::*;

verus! {

pub const SCHEMA_VERSION: &'static str = "0.1.0";

#[derive(Debug, Clone, Copy, PartialEq, Eq, Structural)]
pub enum Grade {
    Reproducible,
    Valid,
    Invalid,
}

#[derive(Debug)]
pub struct Identity {
    pub target_adapter: String,
    pub target_adapter_version: String,
    pub workload_driver: String,
    pub workload_driver_version: String,
    pub sut_git_sha: String,
    pub params: Doc,
    pub params_hash: String,
    pub benchmark_def_sha: String,
    pub source: String,
}

/// An `Identity` as a mathematical value.
pub struct Identified {
    pub target_adapter: Seq<char>,
    pub target_adapter_version: Seq<char>,
    pub workload_driver: Seq<char>,
    pub workload_driver_version: Seq<char>,
    pub sut_git_sha: Seq<char>,
    pub params: Json,
    pub params_hash: Seq<char>,
    pub benchmark_def_sha: Seq<char>,
    pub source: Seq<char>,
}

impl View for Identity {
    type V = Identified;

    open spec fn view(&self) -> Identified {
        Identified {
            target_adapter: self.target_adapter@,
            target_adapter_version: self.target_adapter_version@,
            workload_driver: self.workload_driver@,
            workload_driver_version: self.workload_driver_version@,
            sut_git_sha: self.sut_git_sha@,
            params: self.params@,
            params_hash: self.params_hash@,
            benchmark_def_sha: self.benchmark_def_sha@,
            source: self.source@,
        }
    }
}

/// What the host was when the run was made. The fields from `numa_topology` on
/// are extended: all of them together lift the grade to reproducible.
#[derive(Debug)]
pub struct Fingerprint {
    pub hostname: String,
    pub kernel_version: String,
    pub os_release: String,
    pub cpu_model: String,
    pub cpu_count_logical: u32,
    pub cpu_count_physical: u32,
    pub smt_enabled: bool,
    pub cpu_governor: String,
    pub thp_setting: String,
    pub total_memory_bytes: u64,
    pub kvm_present: bool,
    pub tenancy: String,
    pub tuning_requested: Doc,
    pub tuning_readback: Doc,
    pub numa_topology: Option<Doc>,
    pub pinning_layout: Option<Doc>,
    pub mitigations: Option<Doc>,
    pub microcode_version: Option<String>,
    pub nested_virt: Option<bool>,
}

/// A `Fingerprint` as a mathematical value.
pub struct Host {
    pub hostname: Seq<char>,
    pub kernel_version: Seq<char>,
    pub os_release: Seq<char>,
    pub cpu_model: Seq<char>,
    pub cpu_count_logical: u32,
    pub cpu_count_physical: u32,
    pub smt_enabled: bool,
    pub cpu_governor: Seq<char>,
    pub thp_setting: Seq<char>,
    pub total_memory_bytes: u64,
    pub kvm_present: bool,
    pub tenancy: Seq<char>,
    pub tuning_requested: Json,
    pub tuning_readback: Json,
    pub numa_topology: Option<Json>,
    pub pinning_layout: Option<Json>,
    pub mitigations: Option<Json>,
    pub microcode_version: Option<Seq<char>>,
    pub nested_virt: Option<bool>,
}

impl View for Fingerprint {
    type V = Host;

    open spec fn view(&self) -> Host {
        Host {
            hostname: self.hostname@,
            kernel_version: self.kernel_version@,
            os_release: self.os_release@,
            cpu_model: self.cpu_model@,
            cpu_count_logical: self.cpu_count_logical,
            cpu_count_physical: self.cpu_count_physical,
            smt_enabled: self.smt_enabled,
            cpu_governor: self.cpu_governor@,
            thp_setting: self.thp_setting@,
            total_memory_bytes: self.total_memory_bytes,
            kvm_present: self.kvm_present,
            tenancy: self.tenancy@,
            tuning_requested: self.tuning_requested@,
            tuning_readback: self.tuning_readback@,
            numa_topology: json::opt_json(self.numa_topology),
            pinning_layout: json::opt_json(self.pinning_layout),
            mitigations: json::opt_json(self.mitigations),
            microcode_version: text::opt_text(self.microcode_version),
            nested_virt: self.nested_virt,
        }
    }
}

/// Whether every extended field is present.
pub open spec fn extended(h: Host) -> bool {
    h.numa_topology is Some && h.pinning_layout is Some && h.mitigations is Some
        && h.microcode_version is Some && h.nested_virt is Some
}

/// Whether host preparation took effect.
pub open spec fn tuned(h: Host) -> bool {
    json::alike(h.tuning_requested, h.tuning_readback)
}

impl Fingerprint {
    /// Whether every extended field is present.
    pub fn has_extended(&self) -> (r: bool)
        ensures
            r == extended(self@),
    {
        self.numa_topology.is_some() && self.pinning_layout.is_some() && self.mitigations.is_some()
            && self.microcode_version.is_some() && self.nested_virt.is_some()
    }

    /// Whether the tuning read back equals the tuning requested.
    pub fn tuning_consistent(&self) -> (r: bool)
        ensures
            r == tuned(self@),
    {
        self.tuning_requested.same(&self.tuning_readback)
    }
}

#[derive(Debug)]
pub struct AssayRun {
    pub schema_version: String,
    pub run_id: String,
    pub identity: Identity,
    pub fingerprint: Fingerprint,
    pub spans: Vec<Doc>,
    pub series: Vec<Doc>,
    pub self_metrics: Vec<Doc>,
    pub gate: Doc,
    pub outcome: Option<Doc>,
    /// The workload driver's own report: provenance, no part of the grade.
    pub workload_report: Option<Doc>,
    pub grade: Grade,
}

/// An `AssayRun` as a mathematical value.
pub struct Record {
    pub schema_version: Seq<char>,
    pub run_id: Seq<char>,
    pub identity: Identified,
    pub fingerprint: Host,
    pub spans: Seq<Json>,
    pub series: Seq<Json>,
    pub self_metrics: Seq<Json>,
    pub gate: Json,
    pub outcome: Option<Json>,
    pub workload_report: Option<Json>,
    pub grade: Grade,
}

impl View for AssayRun {
    type V = Record;

    open spec fn view(&self) -> Record {
        Record {
            schema_version: self.schema_version@,
            run_id: self.run_id@,
            identity: self.identity@,
            fingerprint: self.fingerprint@,
            spans: json::jsons(self.spans@),
            series: json::jsons(self.series@),
            self_metrics: json::jsons(self.self_metrics@),
            gate: self.gate@,
            outcome: json::opt_json(self.outcome),
            workload_report: json::opt_json(self.workload_report),
            grade: self.grade,
        }
    }
}

/// What a capture gadget hands over.
#[derive(Debug)]
pub struct Fragment {
    pub series: Vec<Doc>,
    pub self_metrics: Vec<Doc>,
    pub capture_meta: Option<Doc>,
}

/// A `Fragment` as a mathematical value.
pub struct Piece {
    pub series: Seq<Json>,
    pub self_metrics: Seq<Json>,
    pub capture_meta: Option<Json>,
}

impl View for Fragment {
    type V = Piece;

    open spec fn view(&self) -> Piece {
        Piece {
            series: json::jsons(self.series@),
            self_metrics: json::jsons(self.self_metrics@),
            capture_meta: json::opt_json(self.capture_meta),
        }
    }
}

pub open spec fn fragment_views(s: Seq<Fragment>) -> Seq<Piece> {
    s.map_values(|f: Fragment| f@)
}

/// Whether a probe ran: a fragment carries series or capture metadata.
pub open spec fn probes_ran(fs: Seq<Piece>) -> bool {
    exists|i: int|
        0 <= i < fs.len() && ((#[trigger] fs[i]).series.len() > 0 || fs[i].capture_meta is Some)
}

/// The series of the fragments, in order.
pub open spec fn merged_series(fs: Seq<Piece>) -> Seq<Json>
    decreases fs.len(),
{
    if fs.len() == 0 {
        Seq::empty()
    } else {
        merged_series(fs.drop_last()) + fs.last().series
    }
}

/// The cost records of the fragments, in order.
pub open spec fn merged_costs(fs: Seq<Piece>) -> Seq<Json>
    decreases fs.len(),
{
    if fs.len() == 0 {
        Seq::empty()
    } else {
        merged_costs(fs.drop_last()) + fs.last().self_metrics
    }
}

/// The grade of a run. Inconsistent tuning is invalid. An imported run is valid
/// at best. Otherwise a run is reproducible where the extended fields are there
/// and probes, if any ran, recorded their cost.
pub open spec fn graded(source: Seq<char>, h: Host, costs: nat, probes_ran: bool) -> Grade {
    if !tuned(h) {
        Grade::Invalid
    } else if source == "imported"@ {
        Grade::Valid
    } else if extended(h) && (!probes_ran || costs > 0) {
        Grade::Reproducible
    } else {
        Grade::Valid
    }
}

/// The record of a run.
pub open spec fn assembled(
    run_id: Seq<char>,
    identity: Identified,
    fingerprint: Host,
    gate: Json,
    fs: Seq<Piece>,
    spans: Seq<Json>,
) -> Record {
    Record {
        schema_version: "0.1.0"@,
        run_id,
        identity,
        fingerprint,
        spans,
        series: merged_series(fs),
        self_metrics: merged_costs(fs),
        gate,
        outcome: None,
        workload_report: None,
        grade: graded(identity.source, fingerprint, merged_costs(fs).len(), probes_ran(fs)),
    }
}

fn extend(out: &mut Vec<Doc>, more: &Vec<Doc>)
    ensures
        json::jsons(final(out)@) == json::jsons(old(out)@) + json::jsons(more@),
{
    let ghost was = out@;
    let mut copy = json::copy_values(more);
    let ghost add = copy@;
    out.append(&mut copy);
    assert(json::jsons(out@) =~= json::jsons(was) + json::jsons(add));
}

impl AssayRun {
    /// Build a run from identity, fingerprint, gate context and fragments, and
    /// grade it.
    pub fn assemble(
        run_id: String,
        identity: Identity,
        fingerprint: Fingerprint,
        gate: Doc,
        fragments: &[Fragment],
        spans: Vec<Doc>,
    ) -> (r: AssayRun)
        ensures
            r@ == assembled(
                run_id@,
                identity@,
                fingerprint@,
                gate@,
                fragment_views(fragments@),
                json::jsons(spans@),
            ),
    {
        let ghost fs = fragment_views(fragments@);
        let mut series: Vec<Doc> = Vec::new();
        let mut self_metrics: Vec<Doc> = Vec::new();
        let mut ran = false;
        assert(json::jsons(series@) =~= Seq::empty());
        assert(fs.take(0) =~= Seq::empty());
        let mut i: usize = 0;
        while i < fragments.len()
            invariant
                i <= fragments@.len(),
                fs == fragment_views(fragments@),
                json::jsons(series@) == merged_series(fs.take(i as int)),
                json::jsons(self_metrics@) == merged_costs(fs.take(i as int)),
                ran == exists|j: int|
                    0 <= j < i && ((#[trigger] fs[j]).series.len() > 0
                        || fs[j].capture_meta is Some),
            decreases fragments@.len() - i,
        {
            assert(fs.take(i + 1).drop_last() =~= fs.take(i as int));
            let f = &fragments[i];
            assert(fs[i as int] == f@);
            assert(f@.series.len() == f.series@.len());
            extend(&mut series, &f.series);
            extend(&mut self_metrics, &f.self_metrics);
            if f.series.len() > 0 || f.capture_meta.is_some() {
                ran = true;
            }
            i += 1;
        }
        assert(fs.take(fs.len() as int) =~= fs);
        let mut run = AssayRun {
            schema_version: SCHEMA_VERSION.to_owned(),
            run_id,
            identity,
            fingerprint,
            spans,
            series,
            self_metrics,
            gate,
            outcome: None,
            workload_report: None,
            grade: Grade::Invalid,
        };
        run.grade = run.compute_grade(ran);
        run
    }

    /// The grade of the run. Whether probes ran is for the producer to say: a
    /// record cannot tell a run without probes from one whose probes recorded
    /// no cost.
    pub fn compute_grade(&self, probes_ran: bool) -> (r: Grade)
        ensures
            r == graded(
                self@.identity.source,
                self@.fingerprint,
                self@.self_metrics.len(),
                probes_ran,
            ),
    {
        assert(self@.self_metrics.len() == self.self_metrics@.len());
        if !self.fingerprint.tuning_consistent() {
            return Grade::Invalid;
        }
        if text::same(&self.identity.source, "imported") {
            return Grade::Valid;
        }
        if self.fingerprint.has_extended() && (!probes_ran || self.self_metrics.len() > 0) {
            Grade::Reproducible
        } else {
            Grade::Valid
        }
    }
}

/// A run is invalid exactly where its tuning did not take.
pub proof fn law_invalid_means_untuned(source: Seq<char>, h: Host, costs: nat, ran: bool)
    ensures
        graded(source, h, costs, ran) == Grade::Invalid <==> !tuned(h),
{
}

/// An imported run is never reproducible.
pub proof fn law_imported_is_never_reproducible(h: Host, costs: nat, ran: bool)
    ensures
        graded("imported"@, h, costs, ran) != Grade::Reproducible,
{
}

/// A run whose probes recorded no cost is never reproducible.
pub proof fn law_unrecorded_cost_is_never_reproducible(source: Seq<char>, h: Host)
    ensures
        graded(source, h, 0, true) != Grade::Reproducible,
{
}

/// A run without all the extended fields is never reproducible.
pub proof fn law_partial_fingerprint_is_never_reproducible(
    source: Seq<char>,
    h: Host,
    costs: nat,
    ran: bool,
)
    requires
        !extended(h),
    ensures
        graded(source, h, costs, ran) != Grade::Reproducible,
{
}

} // verus!
