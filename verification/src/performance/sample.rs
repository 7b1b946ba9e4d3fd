//! Samples of the host.

use vstd::prelude::*;

use crate::error::RuntimeHostResult;
use crate::ordered_map::{OrderedKey, OrderedMap};
use crate::performance::config::{
    performance_error, performance_fatal, process_label_valid, valid_process_label,
    BASIS_POINTS_MAX,
};
use crate::performance::measure::Timestamped;

verus! {

/// What can be measured, of the host and of the pipeline.
#[derive(Debug, Clone, Copy, PartialEq, Eq, Structural)]
pub enum PerformanceMetric {
    CpuTotal,
    CpuPerCore,
    Ram,
    DiskQueueDepth,
    DiskLatency,
    Gpu,
    ProcessCpu,
    ProcessRam,
    ProcessIo,
    ForegroundProcess,
    FrameGap,
    CaptureLatency,
    RecognitionLatency,
    ActionEffectLatency,
}

pub open spec fn metric_rank(metric: PerformanceMetric) -> int {
    match metric {
        PerformanceMetric::CpuTotal => 0,
        PerformanceMetric::CpuPerCore => 1,
        PerformanceMetric::Ram => 2,
        PerformanceMetric::DiskQueueDepth => 3,
        PerformanceMetric::DiskLatency => 4,
        PerformanceMetric::Gpu => 5,
        PerformanceMetric::ProcessCpu => 6,
        PerformanceMetric::ProcessRam => 7,
        PerformanceMetric::ProcessIo => 8,
        PerformanceMetric::ForegroundProcess => 9,
        PerformanceMetric::FrameGap => 10,
        PerformanceMetric::CaptureLatency => 11,
        PerformanceMetric::RecognitionLatency => 12,
        PerformanceMetric::ActionEffectLatency => 13,
    }
}

fn rank(metric: PerformanceMetric) -> (rank: u8)
    ensures
        rank == metric_rank(metric),
{
    match metric {
        PerformanceMetric::CpuTotal => 0,
        PerformanceMetric::CpuPerCore => 1,
        PerformanceMetric::Ram => 2,
        PerformanceMetric::DiskQueueDepth => 3,
        PerformanceMetric::DiskLatency => 4,
        PerformanceMetric::Gpu => 5,
        PerformanceMetric::ProcessCpu => 6,
        PerformanceMetric::ProcessRam => 7,
        PerformanceMetric::ProcessIo => 8,
        PerformanceMetric::ForegroundProcess => 9,
        PerformanceMetric::FrameGap => 10,
        PerformanceMetric::CaptureLatency => 11,
        PerformanceMetric::RecognitionLatency => 12,
        PerformanceMetric::ActionEffectLatency => 13,
    }
}

impl OrderedKey for PerformanceMetric {
    type Id = PerformanceMetric;

    open spec fn id(&self) -> PerformanceMetric {
        *self
    }

    open spec fn less(left: PerformanceMetric, right: PerformanceMetric) -> bool {
        metric_rank(left) < metric_rank(right)
    }

    proof fn lemma_order(a: PerformanceMetric, b: PerformanceMetric, c: PerformanceMetric) {
    }

    fn before(&self, other: &Self) -> (before: bool) {
        rank(*self) < rank(*other)
    }
}

/// The metrics of the host, in order.
pub open spec fn host_metric_list() -> Seq<PerformanceMetric> {
    seq![
        PerformanceMetric::CpuTotal,
        PerformanceMetric::CpuPerCore,
        PerformanceMetric::Ram,
        PerformanceMetric::DiskQueueDepth,
        PerformanceMetric::DiskLatency,
        PerformanceMetric::Gpu,
        PerformanceMetric::ProcessCpu,
        PerformanceMetric::ProcessRam,
        PerformanceMetric::ProcessIo,
        PerformanceMetric::ForegroundProcess,
    ]
}

/// The metrics of the pipeline, in order.
pub open spec fn pipeline_metric_list() -> Seq<PerformanceMetric> {
    seq![
        PerformanceMetric::FrameGap,
        PerformanceMetric::CaptureLatency,
        PerformanceMetric::RecognitionLatency,
        PerformanceMetric::ActionEffectLatency,
    ]
}

pub open spec fn is_pipeline_metric(metric: PerformanceMetric) -> bool {
    metric_rank(metric) >= 10
}

pub fn host_metrics() -> (metrics: Vec<PerformanceMetric>)
    ensures
        metrics@ == host_metric_list(),
{
    let mut metrics: Vec<PerformanceMetric> = Vec::new();
    metrics.push(PerformanceMetric::CpuTotal);
    metrics.push(PerformanceMetric::CpuPerCore);
    metrics.push(PerformanceMetric::Ram);
    metrics.push(PerformanceMetric::DiskQueueDepth);
    metrics.push(PerformanceMetric::DiskLatency);
    metrics.push(PerformanceMetric::Gpu);
    metrics.push(PerformanceMetric::ProcessCpu);
    metrics.push(PerformanceMetric::ProcessRam);
    metrics.push(PerformanceMetric::ProcessIo);
    metrics.push(PerformanceMetric::ForegroundProcess);
    assert(metrics@ =~= host_metric_list());
    metrics
}

pub fn pipeline_metrics() -> (metrics: Vec<PerformanceMetric>)
    ensures
        metrics@ == pipeline_metric_list(),
{
    let mut metrics: Vec<PerformanceMetric> = Vec::new();
    metrics.push(PerformanceMetric::FrameGap);
    metrics.push(PerformanceMetric::CaptureLatency);
    metrics.push(PerformanceMetric::RecognitionLatency);
    metrics.push(PerformanceMetric::ActionEffectLatency);
    assert(metrics@ =~= pipeline_metric_list());
    metrics
}

pub fn all_metrics() -> (metrics: Vec<PerformanceMetric>)
    ensures
        metrics@ == host_metric_list() + pipeline_metric_list(),
{
    let mut metrics = host_metrics();
    let mut rest = pipeline_metrics();
    metrics.append(&mut rest);
    metrics
}

/// A set of metrics.
pub type MetricSet = OrderedMap<PerformanceMetric, ()>;

#[derive(Debug, Clone, Copy, PartialEq, Eq, Structural)]
pub enum PerformanceProcessOwnership {
    Runtime,
    Owned,
    ThirdParty,
}

#[derive(Debug, Clone)]
pub struct PerformanceProcessSummary {
    pub pid: u32,
    pub process_name: String,
    pub ownership: PerformanceProcessOwnership,
    pub cpu_basis_points: u16,
    pub working_set_bytes: u64,
    pub io_bytes_per_second: u64,
}

impl PerformanceProcessSummary {
    pub fn copy(&self) -> (summary: Self)
        ensures
            summary == *self,
    {
        PerformanceProcessSummary {
            pid: self.pid,
            process_name: self.process_name.clone(),
            ownership: self.ownership,
            cpu_basis_points: self.cpu_basis_points,
            working_set_bytes: self.working_set_bytes,
            io_bytes_per_second: self.io_bytes_per_second,
        }
    }

    pub open spec fn valid(self) -> bool {
        process_label_valid(self.pid, self.process_name@) && self.cpu_basis_points
            <= BASIS_POINTS_MAX
    }

    fn is_valid(&self) -> (valid: bool)
        ensures
            valid == self.valid(),
    {
        valid_process_label(self.pid, self.process_name.as_str()) && self.cpu_basis_points
            <= BASIS_POINTS_MAX
    }
}

/// A copy of several summaries.
pub fn copy_processes(processes: &Vec<PerformanceProcessSummary>) -> (copy: Vec<
    PerformanceProcessSummary,
>)
    ensures
        copy@ == processes@,
{
    let mut copy: Vec<PerformanceProcessSummary> = Vec::with_capacity(processes.len());
    let mut index: usize = 0;
    while index < processes.len()
        invariant
            index <= processes.len(),
            copy@ == processes@.take(index as int),
        decreases processes.len() - index,
    {
        copy.push(processes[index].copy());
        assert(processes@.take(index + 1) =~= processes@.take(index as int).push(
            processes@[index as int],
        ));
        index += 1;
    }
    assert(processes@.take(processes@.len() as int) =~= processes@);
    copy
}

/// A copy of several metrics.
pub fn copy_metrics(metrics: &Vec<PerformanceMetric>) -> (copy: Vec<PerformanceMetric>)
    ensures
        copy@ == metrics@,
{
    let mut copy: Vec<PerformanceMetric> = Vec::with_capacity(metrics.len());
    let mut index: usize = 0;
    while index < metrics.len()
        invariant
            index <= metrics.len(),
            copy@ == metrics@.take(index as int),
        decreases metrics.len() - index,
    {
        copy.push(metrics[index]);
        assert(metrics@.take(index + 1) =~= metrics@.take(index as int).push(
            metrics@[index as int],
        ));
        index += 1;
    }
    assert(metrics@.take(metrics@.len() as int) =~= metrics@);
    copy
}

#[derive(Debug, Clone)]
pub struct PerformanceForegroundSummary {
    pub process: PerformanceProcessSummary,
    pub fullscreen: bool,
}

/// One sample of the host.
#[derive(Debug, Clone)]
pub struct RawSystemSample {
    pub observed_at_unix_ms: u64,
    pub cpu_total_basis_points: u16,
    pub cpu_per_core_basis_points: Vec<u16>,
    pub ram_used_basis_points: u16,
    pub disk_queue_depth_milli: Option<u32>,
    pub disk_latency_micros: Option<u64>,
    pub gpu_basis_points: Option<u16>,
    pub foreground: Option<PerformanceForegroundSummary>,
    pub owned_processes: Vec<PerformanceProcessSummary>,
    pub third_party_high_load: Vec<PerformanceProcessSummary>,
    pub unavailable_metrics: Vec<PerformanceMetric>,
}

impl Timestamped for RawSystemSample {
    open spec fn at(&self) -> u64 {
        self.observed_at_unix_ms
    }

    fn timestamp(&self) -> (at: u64) {
        self.observed_at_unix_ms
    }
}

impl RawSystemSample {
    /// All shares are at most the whole, and all processes can be named.
    pub open spec fn valid(&self, top_process_count: usize) -> bool {
        &&& self.observed_at_unix_ms > 0
        &&& self.cpu_total_basis_points <= BASIS_POINTS_MAX
        &&& self.ram_used_basis_points <= BASIS_POINTS_MAX
        &&& forall|i: int|
            0 <= i < self.cpu_per_core_basis_points@.len()
                ==> #[trigger] self.cpu_per_core_basis_points@[i] <= BASIS_POINTS_MAX
        &&& self.gpu_basis_points matches Some(value) ==> value <= BASIS_POINTS_MAX
        &&& self.owned_processes@.len() <= 32
        &&& self.third_party_high_load@.len() <= top_process_count
        &&& all_processes_valid(self.owned_processes@)
        &&& all_processes_valid(self.third_party_high_load@)
    }

    /// Neither the load nor the disk traffic of processes is missing.
    pub open spec fn process_metrics_known(&self) -> bool {
        !self.unavailable_metrics@.contains(PerformanceMetric::ProcessCpu)
            && !self.unavailable_metrics@.contains(PerformanceMetric::ProcessIo)
    }
}

pub open spec fn all_processes_valid(processes: Seq<PerformanceProcessSummary>) -> bool {
    forall|i: int| 0 <= i < processes.len() ==> (#[trigger] processes[i]).valid()
}

fn processes_valid(processes: &Vec<PerformanceProcessSummary>) -> (valid: bool)
    ensures
        valid == all_processes_valid(processes@),
{
    let mut index: usize = 0;
    while index < processes.len()
        invariant
            index <= processes.len(),
            forall|i: int| 0 <= i < index ==> (#[trigger] processes@[i]).valid(),
        decreases processes.len() - index,
    {
        if !processes[index].is_valid() {
            return false;
        }
        index += 1;
    }
    true
}

fn shares_valid(shares: &Vec<u16>) -> (valid: bool)
    ensures
        valid == forall|i: int|
            0 <= i < shares@.len() ==> #[trigger] shares@[i] <= BASIS_POINTS_MAX,
{
    let mut index: usize = 0;
    while index < shares.len()
        invariant
            index <= shares.len(),
            forall|i: int| 0 <= i < index ==> #[trigger] shares@[i] <= BASIS_POINTS_MAX,
        decreases shares.len() - index,
    {
        if shares[index] > BASIS_POINTS_MAX {
            return false;
        }
        index += 1;
    }
    true
}

pub fn validate_raw_sample(sample: &RawSystemSample, top_process_count: usize) -> (result:
    RuntimeHostResult<()>)
    ensures
        sample.valid(top_process_count) ==> result is Ok,
        !sample.valid(top_process_count) ==> result == Err::<(), _>(
            performance_error("performance_sample_invalid", "ingest_performance_sample"),
        ),
{
    let gpu_valid = match sample.gpu_basis_points {
        Some(value) => value <= BASIS_POINTS_MAX,
        None => true,
    };
    if sample.observed_at_unix_ms == 0 || sample.cpu_total_basis_points > BASIS_POINTS_MAX
        || sample.ram_used_basis_points > BASIS_POINTS_MAX || !shares_valid(
        &sample.cpu_per_core_basis_points,
    ) || !gpu_valid || sample.owned_processes.len() > 32 || sample.third_party_high_load.len()
        > top_process_count || !processes_valid(&sample.owned_processes) || !processes_valid(
        &sample.third_party_high_load,
    ) {
        return Err(performance_fatal("performance_sample_invalid", "ingest_performance_sample"));
    }
    Ok(())
}

/// Whether a metric is in a list.
pub fn lists_metric(metrics: &Vec<PerformanceMetric>, metric: PerformanceMetric) -> (found: bool)
    ensures
        found == metrics@.contains(metric),
{
    let mut index: usize = 0;
    while index < metrics.len()
        invariant
            index <= metrics.len(),
            forall|i: int| 0 <= i < index ==> metrics@[i] != metric,
        decreases metrics.len() - index,
    {
        if metrics[index] == metric {
            assert(metrics@[index as int] == metric);
            return true;
        }
        index += 1;
    }
    false
}

#[derive(Debug, Clone, Copy, PartialEq, Eq, Structural)]
pub enum PerformanceMonitorHealth {
    Healthy,
    Partial,
    Degraded,
    Unavailable,
}

/// The health that a sample shows by itself.
pub open spec fn health_of(sample: RawSystemSample) -> PerformanceMonitorHealth {
    if sample.unavailable_metrics@.len() == 0 {
        PerformanceMonitorHealth::Healthy
    } else {
        PerformanceMonitorHealth::Partial
    }
}

pub fn sample_health(sample: &RawSystemSample) -> (health: PerformanceMonitorHealth)
    ensures
        health == health_of(*sample),
{
    if sample.unavailable_metrics.len() == 0 {
        PerformanceMonitorHealth::Healthy
    } else {
        PerformanceMonitorHealth::Partial
    }
}

/// A sample is taken only with a time, with shares of a whole, and with no
/// more programs than are asked for.
pub proof fn law_samples_are_shares(sample: RawSystemSample, top_process_count: usize, core: int)
    requires
        sample.valid(top_process_count),
    ensures
        sample.observed_at_unix_ms != 0,
        sample.cpu_total_basis_points <= 10_000,
        sample.ram_used_basis_points <= 10_000,
        0 <= core < sample.cpu_per_core_basis_points@.len()
            ==> sample.cpu_per_core_basis_points@[core] <= 10_000,
        sample.gpu_basis_points is Some ==> sample.gpu_basis_points->0 <= 10_000,
        sample.third_party_high_load@.len() <= top_process_count,
        sample.owned_processes@.len() <= 32,
{
}

/// A sample is healthy exactly where it misses no metric.
pub proof fn law_complete_sample_is_healthy(sample: RawSystemSample)
    ensures
        health_of(sample) == PerformanceMonitorHealth::Healthy <==> forall|
            metric: PerformanceMetric,
        |
            !sample.unavailable_metrics@.contains(metric),
        health_of(sample) == PerformanceMonitorHealth::Healthy || health_of(sample)
            == PerformanceMonitorHealth::Partial,
        sample.process_metrics_known() <==> !sample.unavailable_metrics@.contains(
            PerformanceMetric::ProcessCpu,
        ) && !sample.unavailable_metrics@.contains(PerformanceMetric::ProcessIo),
{
    if sample.unavailable_metrics@.len() > 0 {
        assert(sample.unavailable_metrics@.contains(sample.unavailable_metrics@[0]));
    }
}

} // verus!
