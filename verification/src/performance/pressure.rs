//! Pressures on the host: when they start and end, how severe they are, and
//! what a window of samples says of them.

use vstd::prelude::*;

use crate::error::RuntimeHostResult;
use crate::performance::config::{performance_error, performance_fatal, PerformanceThresholds};
use crate::performance::measure::{larger, largest, lemma_largest};
use crate::performance::sample::{PerformanceProcessSummary, RawSystemSample};

verus! {

#[derive(Debug, Clone, Copy, PartialEq, Eq, Structural)]
pub enum PerformancePressureKind {
    Cpu,
    Ram,
    DiskIo,
    Gpu,
    ThirdParty,
}

#[derive(Debug, Clone, Copy, PartialEq, Eq, Structural)]
pub enum PerformancePressureValue {
    Utilization { basis_points: u16 },
    DiskIo { queue_depth_milli: u32, latency_micros: u64 },
    ProcessLoad {
        process_count: u16,
        peak_cpu_basis_points: u16,
        peak_io_bytes_per_second: u64,
    },
}

#[derive(Debug, Clone, Copy, PartialEq, Eq, Structural)]
pub enum PerformancePressureSeverity {
    Elevated,
    High,
    Critical,
}

pub open spec fn severity_rank(severity: PerformancePressureSeverity) -> int {
    match severity {
        PerformancePressureSeverity::Elevated => 0,
        PerformancePressureSeverity::High => 1,
        PerformancePressureSeverity::Critical => 2,
    }
}

pub open spec fn worse_severity(
    left: PerformancePressureSeverity,
    right: PerformancePressureSeverity,
) -> PerformancePressureSeverity {
    if severity_rank(left) >= severity_rank(right) {
        left
    } else {
        right
    }
}

fn worse(left: PerformancePressureSeverity, right: PerformancePressureSeverity) -> (severity:
    PerformancePressureSeverity)
    ensures
        severity == worse_severity(left, right),
{
    match (left, right) {
        (PerformancePressureSeverity::Critical, _) => PerformancePressureSeverity::Critical,
        (_, PerformancePressureSeverity::Critical) => PerformancePressureSeverity::Critical,
        (PerformancePressureSeverity::High, _) => PerformancePressureSeverity::High,
        (_, PerformancePressureSeverity::High) => PerformancePressureSeverity::High,
        _ => PerformancePressureSeverity::Elevated,
    }
}

/// A pressure from its start on.
#[derive(Debug, Clone, Copy, PartialEq, Eq, Structural)]
pub struct PerformancePressureRecord {
    pub kind: PerformancePressureKind,
    pub severity: PerformancePressureSeverity,
    pub started_at_unix_ms: u64,
    pub last_observed_at_unix_ms: u64,
    pub peak: PerformancePressureValue,
}

/// The CPU share of a process.
pub open spec fn process_cpu() -> spec_fn(PerformanceProcessSummary) -> Option<u64> {
    |process: PerformanceProcessSummary| Some(process.cpu_basis_points as u64)
}

/// The disk traffic of a process.
pub open spec fn process_io() -> spec_fn(PerformanceProcessSummary) -> Option<u64> {
    |process: PerformanceProcessSummary| Some(process.io_bytes_per_second)
}

/// What a sample measures of a kind of pressure, if it does.
pub open spec fn measured(
    sample: RawSystemSample,
    kind: PerformancePressureKind,
) -> Option<PerformancePressureValue> {
    match kind {
        PerformancePressureKind::Cpu => Some(
            PerformancePressureValue::Utilization { basis_points: sample.cpu_total_basis_points },
        ),
        PerformancePressureKind::Ram => Some(
            PerformancePressureValue::Utilization { basis_points: sample.ram_used_basis_points },
        ),
        PerformancePressureKind::DiskIo => if sample.disk_queue_depth_milli is Some
            || sample.disk_latency_micros is Some {
            Some(
                PerformancePressureValue::DiskIo {
                    queue_depth_milli: match sample.disk_queue_depth_milli {
                        Some(value) => value,
                        None => 0,
                    },
                    latency_micros: match sample.disk_latency_micros {
                        Some(value) => value,
                        None => 0,
                    },
                },
            )
        } else {
            None
        },
        PerformancePressureKind::Gpu => match sample.gpu_basis_points {
            Some(basis_points) => Some(PerformancePressureValue::Utilization { basis_points }),
            None => None,
        },
        PerformancePressureKind::ThirdParty => if sample.third_party_high_load@.len() > 0 {
            Some(
                PerformancePressureValue::ProcessLoad {
                    process_count: sample.third_party_high_load@.len() as u16,
                    peak_cpu_basis_points: largest(
                        sample.third_party_high_load@,
                        process_cpu(),
                    )->0 as u16,
                    peak_io_bytes_per_second: largest(
                        sample.third_party_high_load@,
                        process_io(),
                    )->0,
                },
            )
        } else {
            None
        },
    }
}

/// The number of processes fits a record.
pub open spec fn process_count_fits(sample: RawSystemSample) -> bool {
    sample.third_party_high_load@.len() <= u16::MAX
}

/// What a sample measures of each kind of pressure.
#[derive(Debug, Clone, Copy, PartialEq, Eq, Structural)]
pub struct PressureMeasurements {
    pub cpu: Option<PerformancePressureValue>,
    pub ram: Option<PerformancePressureValue>,
    pub disk_io: Option<PerformancePressureValue>,
    pub gpu: Option<PerformancePressureValue>,
    pub third_party: Option<PerformancePressureValue>,
}

impl PressureMeasurements {
    pub open spec fn of(self, kind: PerformancePressureKind) -> Option<PerformancePressureValue> {
        match kind {
            PerformancePressureKind::Cpu => self.cpu,
            PerformancePressureKind::Ram => self.ram,
            PerformancePressureKind::DiskIo => self.disk_io,
            PerformancePressureKind::Gpu => self.gpu,
            PerformancePressureKind::ThirdParty => self.third_party,
        }
    }

    pub fn get(&self, kind: PerformancePressureKind) -> (value: Option<PerformancePressureValue>)
        ensures
            value == self.of(kind),
    {
        match kind {
            PerformancePressureKind::Cpu => self.cpu,
            PerformancePressureKind::Ram => self.ram,
            PerformancePressureKind::DiskIo => self.disk_io,
            PerformancePressureKind::Gpu => self.gpu,
            PerformancePressureKind::ThirdParty => self.third_party,
        }
    }
}

/// The largest CPU share and disk traffic among some processes.
fn process_peaks(processes: &Vec<PerformanceProcessSummary>) -> (peaks: (
    Option<u64>,
    Option<u64>,
))
    ensures
        peaks.0 == largest(processes@, process_cpu()),
        peaks.1 == largest(processes@, process_io()),
        processes@.len() > 0 ==> (peaks.0 matches Some(cpu) && cpu <= u16::MAX) && peaks.1 is Some,
{
    let mut cpu: Option<u64> = None;
    let mut io: Option<u64> = None;
    let mut index: usize = 0;
    assert(processes@.take(0) =~= Seq::empty());
    while index < processes.len()
        invariant
            index <= processes.len(),
            cpu == largest(processes@.take(index as int), process_cpu()),
            io == largest(processes@.take(index as int), process_io()),
            index > 0 ==> cpu is Some && io is Some,
            cpu matches Some(value) ==> value <= u16::MAX,
        decreases processes.len() - index,
    {
        proof {
            let taken = processes@.take(index + 1);
            assert(taken.drop_last() =~= processes@.take(index as int));
            assert(taken.last() == processes@[index as int]);
        }
        cpu = larger(cpu, Some(processes[index].cpu_basis_points as u64));
        io = larger(io, Some(processes[index].io_bytes_per_second));
        index += 1;
    }
    assert(processes@.take(processes@.len() as int) =~= processes@);
    (cpu, io)
}

/// Measures the pressures of a sample.
pub fn pressure_measurements(sample: &RawSystemSample) -> (result: RuntimeHostResult<
    PressureMeasurements,
>)
    ensures
        process_count_fits(*sample) ==> (result matches Ok(values) && forall|
            kind: PerformancePressureKind,
        | #[trigger]
            values.of(kind) == measured(*sample, kind)),
        !process_count_fits(*sample) ==> result == Err::<PressureMeasurements, _>(
            performance_error("performance_process_count_overflow", "measure_performance_pressure"),
        ),
{
    let disk_io = if sample.disk_queue_depth_milli.is_some() || sample.disk_latency_micros.is_some() {
        Some(
            PerformancePressureValue::DiskIo {
                queue_depth_milli: sample.disk_queue_depth_milli.unwrap_or(0),
                latency_micros: sample.disk_latency_micros.unwrap_or(0),
            },
        )
    } else {
        None
    };
    let gpu = match sample.gpu_basis_points {
        Some(basis_points) => Some(PerformancePressureValue::Utilization { basis_points }),
        None => None,
    };
    let mut third_party: Option<PerformancePressureValue> = None;
    let count: usize = sample.third_party_high_load.len();
    if count > 0 {
        if count > u16::MAX as usize {
            return Err(
                performance_fatal(
                    "performance_process_count_overflow",
                    "measure_performance_pressure",
                ),
            );
        }
        let (cpu, io) = process_peaks(&sample.third_party_high_load);
        if let (Some(cpu), Some(io)) = (cpu, io) {
            third_party = Some(
                PerformancePressureValue::ProcessLoad {
                    process_count: count as u16,
                    peak_cpu_basis_points: cpu as u16,
                    peak_io_bytes_per_second: io,
                },
            );
        }
    }
    Ok(
        PressureMeasurements {
            cpu: Some(
                PerformancePressureValue::Utilization {
                    basis_points: sample.cpu_total_basis_points,
                },
            ),
            ram: Some(
                PerformancePressureValue::Utilization {
                    basis_points: sample.ram_used_basis_points,
                },
            ),
            disk_io,
            gpu,
            third_party,
        },
    )
}

/// A measurement reaches the given bounds of its kind.
pub open spec fn reaches(
    kind: PerformancePressureKind,
    value: PerformancePressureValue,
    cpu: u16,
    ram: u16,
    gpu: u16,
    queue: u32,
    latency: u64,
) -> bool {
    match (kind, value) {
        (PerformancePressureKind::Cpu, PerformancePressureValue::Utilization { basis_points }) => {
            basis_points >= cpu
        },
        (PerformancePressureKind::Ram, PerformancePressureValue::Utilization { basis_points }) => {
            basis_points >= ram
        },
        (PerformancePressureKind::Gpu, PerformancePressureValue::Utilization { basis_points }) => {
            basis_points >= gpu
        },
        (
            PerformancePressureKind::DiskIo,
            PerformancePressureValue::DiskIo { queue_depth_milli, latency_micros },
        ) => queue_depth_milli >= queue || latency_micros >= latency,
        (
            PerformancePressureKind::ThirdParty,
            PerformancePressureValue::ProcessLoad { .. },
        ) => true,
        _ => false,
    }
}

/// A measurement starts a pressure.
pub open spec fn starts(
    kind: PerformancePressureKind,
    value: PerformancePressureValue,
    thresholds: PerformanceThresholds,
) -> bool {
    reaches(
        kind,
        value,
        thresholds.cpu_start_basis_points,
        thresholds.ram_start_basis_points,
        thresholds.gpu_start_basis_points,
        thresholds.disk_queue_start_milli,
        thresholds.disk_latency_start_micros,
    )
}

/// A measurement keeps a pressure up.
pub open spec fn keeps_up(
    kind: PerformancePressureKind,
    value: PerformancePressureValue,
    thresholds: PerformanceThresholds,
) -> bool {
    reaches(
        kind,
        value,
        thresholds.cpu_end_basis_points,
        thresholds.ram_end_basis_points,
        thresholds.gpu_end_basis_points,
        thresholds.disk_queue_end_milli,
        thresholds.disk_latency_end_micros,
    )
}

fn reaches_bounds(
    kind: PerformancePressureKind,
    value: PerformancePressureValue,
    cpu: u16,
    ram: u16,
    gpu: u16,
    queue: u32,
    latency: u64,
) -> (above: bool)
    ensures
        above == reaches(kind, value, cpu, ram, gpu, queue, latency),
{
    match (kind, value) {
        (PerformancePressureKind::Cpu, PerformancePressureValue::Utilization { basis_points }) => {
            basis_points >= cpu
        },
        (PerformancePressureKind::Ram, PerformancePressureValue::Utilization { basis_points }) => {
            basis_points >= ram
        },
        (PerformancePressureKind::Gpu, PerformancePressureValue::Utilization { basis_points }) => {
            basis_points >= gpu
        },
        (
            PerformancePressureKind::DiskIo,
            PerformancePressureValue::DiskIo { queue_depth_milli, latency_micros },
        ) => queue_depth_milli >= queue || latency_micros >= latency,
        (
            PerformancePressureKind::ThirdParty,
            PerformancePressureValue::ProcessLoad { .. },
        ) => true,
        _ => false,
    }
}

pub fn pressure_above_start(
    kind: PerformancePressureKind,
    value: PerformancePressureValue,
    thresholds: &PerformanceThresholds,
) -> (above: bool)
    ensures
        above == starts(kind, value, *thresholds),
{
    reaches_bounds(
        kind,
        value,
        thresholds.cpu_start_basis_points,
        thresholds.ram_start_basis_points,
        thresholds.gpu_start_basis_points,
        thresholds.disk_queue_start_milli,
        thresholds.disk_latency_start_micros,
    )
}

pub fn pressure_above_end(
    kind: PerformancePressureKind,
    value: PerformancePressureValue,
    thresholds: &PerformanceThresholds,
) -> (above: bool)
    ensures
        above == keeps_up(kind, value, *thresholds),
{
    reaches_bounds(
        kind,
        value,
        thresholds.cpu_end_basis_points,
        thresholds.ram_end_basis_points,
        thresholds.gpu_end_basis_points,
        thresholds.disk_queue_end_milli,
        thresholds.disk_latency_end_micros,
    )
}

/// A number, at most the largest of its width.
pub open spec fn capped(value: int, largest: int) -> int {
    if value <= largest {
        value
    } else {
        largest
    }
}

pub open spec fn is_critical(
    kind: PerformancePressureKind,
    value: PerformancePressureValue,
    thresholds: PerformanceThresholds,
) -> bool {
    match (kind, value) {
        (PerformancePressureKind::Cpu, PerformancePressureValue::Utilization { basis_points }) => {
            basis_points >= 9_700
        },
        (PerformancePressureKind::Ram, PerformancePressureValue::Utilization { basis_points }) => {
            basis_points >= 9_700
        },
        (PerformancePressureKind::Gpu, PerformancePressureValue::Utilization { basis_points }) => {
            basis_points >= 9_700
        },
        (
            PerformancePressureKind::DiskIo,
            PerformancePressureValue::DiskIo { queue_depth_milli, latency_micros },
        ) => queue_depth_milli >= capped(
            thresholds.disk_queue_start_milli * 2,
            u32::MAX as int,
        ) || latency_micros >= capped(thresholds.disk_latency_start_micros * 2, u64::MAX as int),
        (
            PerformancePressureKind::ThirdParty,
            PerformancePressureValue::ProcessLoad { process_count, peak_cpu_basis_points, .. },
        ) => process_count >= 3 || peak_cpu_basis_points >= 8_000,
        _ => false,
    }
}

pub open spec fn is_high(
    value: PerformancePressureValue,
    thresholds: PerformanceThresholds,
) -> bool {
    match value {
        PerformancePressureValue::Utilization { basis_points } => basis_points >= 9_200,
        PerformancePressureValue::DiskIo { queue_depth_milli, latency_micros } => queue_depth_milli
            >= capped(thresholds.disk_queue_start_milli + 2_000, u32::MAX as int) || latency_micros
            >= capped(thresholds.disk_latency_start_micros + 25_000, u64::MAX as int),
        PerformancePressureValue::ProcessLoad { process_count, peak_cpu_basis_points, .. } => {
            process_count >= 2 || peak_cpu_basis_points >= 6_000
        },
    }
}

pub open spec fn severity_of(
    kind: PerformancePressureKind,
    value: PerformancePressureValue,
    thresholds: PerformanceThresholds,
) -> PerformancePressureSeverity {
    if is_critical(kind, value, thresholds) {
        PerformancePressureSeverity::Critical
    } else if is_high(value, thresholds) {
        PerformancePressureSeverity::High
    } else {
        PerformancePressureSeverity::Elevated
    }
}

fn doubled_queue(value: u32) -> (doubled: u32)
    ensures
        doubled == capped(value * 2, u32::MAX as int),
{
    value.saturating_add(value)
}

fn doubled_latency(value: u64) -> (doubled: u64)
    ensures
        doubled == capped(value * 2, u64::MAX as int),
{
    value.saturating_add(value)
}

pub fn pressure_severity(
    kind: PerformancePressureKind,
    value: PerformancePressureValue,
    thresholds: &PerformanceThresholds,
) -> (severity: PerformancePressureSeverity)
    ensures
        severity == severity_of(kind, value, *thresholds),
{
    let critical = match (kind, value) {
        (PerformancePressureKind::Cpu, PerformancePressureValue::Utilization { basis_points }) => {
            basis_points >= 9_700
        },
        (PerformancePressureKind::Ram, PerformancePressureValue::Utilization { basis_points }) => {
            basis_points >= 9_700
        },
        (PerformancePressureKind::Gpu, PerformancePressureValue::Utilization { basis_points }) => {
            basis_points >= 9_700
        },
        (
            PerformancePressureKind::DiskIo,
            PerformancePressureValue::DiskIo { queue_depth_milli, latency_micros },
        ) => queue_depth_milli >= doubled_queue(thresholds.disk_queue_start_milli)
            || latency_micros >= doubled_latency(thresholds.disk_latency_start_micros),
        (
            PerformancePressureKind::ThirdParty,
            PerformancePressureValue::ProcessLoad { process_count, peak_cpu_basis_points, .. },
        ) => process_count >= 3 || peak_cpu_basis_points >= 8_000,
        _ => false,
    };
    if critical {
        return PerformancePressureSeverity::Critical;
    }
    let high = match value {
        PerformancePressureValue::Utilization { basis_points } => basis_points >= 9_200,
        PerformancePressureValue::DiskIo { queue_depth_milli, latency_micros } => queue_depth_milli
            >= thresholds.disk_queue_start_milli.saturating_add(2_000) || latency_micros
            >= thresholds.disk_latency_start_micros.saturating_add(25_000),
        PerformancePressureValue::ProcessLoad { process_count, peak_cpu_basis_points, .. } => {
            process_count >= 2 || peak_cpu_basis_points >= 6_000
        },
    };
    if high {
        PerformancePressureSeverity::High
    } else {
        PerformancePressureSeverity::Elevated
    }
}

pub open spec fn max_u16(left: u16, right: u16) -> u16 {
    if left >= right {
        left
    } else {
        right
    }
}

pub open spec fn max_u32(left: u32, right: u32) -> u32 {
    if left >= right {
        left
    } else {
        right
    }
}

pub open spec fn max_u64(left: u64, right: u64) -> u64 {
    if left >= right {
        left
    } else {
        right
    }
}

/// The worst of two measurements, number by number.
pub open spec fn peak_of(
    current: PerformancePressureValue,
    candidate: PerformancePressureValue,
) -> PerformancePressureValue {
    match (current, candidate) {
        (
            PerformancePressureValue::Utilization { basis_points: a },
            PerformancePressureValue::Utilization { basis_points: b },
        ) => PerformancePressureValue::Utilization { basis_points: max_u16(a, b) },
        (
            PerformancePressureValue::DiskIo { queue_depth_milli: a, latency_micros: c },
            PerformancePressureValue::DiskIo { queue_depth_milli: b, latency_micros: d },
        ) => PerformancePressureValue::DiskIo {
            queue_depth_milli: max_u32(a, b),
            latency_micros: max_u64(c, d),
        },
        (
            PerformancePressureValue::ProcessLoad {
                process_count: a,
                peak_cpu_basis_points: c,
                peak_io_bytes_per_second: e,
            },
            PerformancePressureValue::ProcessLoad {
                process_count: b,
                peak_cpu_basis_points: d,
                peak_io_bytes_per_second: f,
            },
        ) => PerformancePressureValue::ProcessLoad {
            process_count: max_u16(a, b),
            peak_cpu_basis_points: max_u16(c, d),
            peak_io_bytes_per_second: max_u64(e, f),
        },
        _ => candidate,
    }
}

fn larger_u16(left: u16, right: u16) -> (result: u16)
    ensures
        result == max_u16(left, right),
{
    if left >= right {
        left
    } else {
        right
    }
}

fn larger_u32(left: u32, right: u32) -> (result: u32)
    ensures
        result == max_u32(left, right),
{
    if left >= right {
        left
    } else {
        right
    }
}

fn larger_u64(left: u64, right: u64) -> (result: u64)
    ensures
        result == max_u64(left, right),
{
    if left >= right {
        left
    } else {
        right
    }
}

pub fn peak_value(current: PerformancePressureValue, candidate: PerformancePressureValue) -> (peak:
    PerformancePressureValue)
    ensures
        peak == peak_of(current, candidate),
{
    match (current, candidate) {
        (
            PerformancePressureValue::Utilization { basis_points: a },
            PerformancePressureValue::Utilization { basis_points: b },
        ) => PerformancePressureValue::Utilization { basis_points: larger_u16(a, b) },
        (
            PerformancePressureValue::DiskIo { queue_depth_milli: a, latency_micros: c },
            PerformancePressureValue::DiskIo { queue_depth_milli: b, latency_micros: d },
        ) => PerformancePressureValue::DiskIo {
            queue_depth_milli: larger_u32(a, b),
            latency_micros: larger_u64(c, d),
        },
        (
            PerformancePressureValue::ProcessLoad {
                process_count: a,
                peak_cpu_basis_points: c,
                peak_io_bytes_per_second: e,
            },
            PerformancePressureValue::ProcessLoad {
                process_count: b,
                peak_cpu_basis_points: d,
                peak_io_bytes_per_second: f,
            },
        ) => PerformancePressureValue::ProcessLoad {
            process_count: larger_u16(a, b),
            peak_cpu_basis_points: larger_u16(c, d),
            peak_io_bytes_per_second: larger_u64(e, f),
        },
        _ => candidate,
    }
}

/// The record of a pressure that a sample starts.
pub open spec fn started_record(
    kind: PerformancePressureKind,
    value: PerformancePressureValue,
    at: u64,
    thresholds: PerformanceThresholds,
) -> PerformancePressureRecord {
    PerformancePressureRecord {
        kind,
        severity: severity_of(kind, value, thresholds),
        started_at_unix_ms: at,
        last_observed_at_unix_ms: at,
        peak: value,
    }
}

pub fn start_record(
    kind: PerformancePressureKind,
    value: PerformancePressureValue,
    at: u64,
    thresholds: &PerformanceThresholds,
) -> (record: PerformancePressureRecord)
    ensures
        record == started_record(kind, value, at, *thresholds),
{
    PerformancePressureRecord {
        kind,
        severity: pressure_severity(kind, value, thresholds),
        started_at_unix_ms: at,
        last_observed_at_unix_ms: at,
        peak: value,
    }
}

/// A window's record of a pressure after one more sample.
pub open spec fn summarized_with(
    record: Option<PerformancePressureRecord>,
    sample: RawSystemSample,
    kind: PerformancePressureKind,
    thresholds: PerformanceThresholds,
) -> Option<PerformancePressureRecord> {
    match measured(sample, kind) {
        Some(value) => if !starts(kind, value, thresholds) {
            record
        } else {
            match record {
                None => Some(
                    started_record(kind, value, sample.observed_at_unix_ms, thresholds),
                ),
                Some(record) => Some(
                    PerformancePressureRecord {
                        last_observed_at_unix_ms: sample.observed_at_unix_ms,
                        severity: worse_severity(
                            record.severity,
                            severity_of(kind, value, thresholds),
                        ),
                        peak: peak_of(record.peak, value),
                        ..record
                    },
                ),
            }
        },
        None => record,
    }
}

/// A window's record of a pressure: from the first sample that starts it to
/// the last one, with the worst severity and the peak among them. Samples
/// outside of the window do not count.
pub open spec fn summarized_pressure(
    samples: Seq<RawSystemSample>,
    from: u64,
    to: u64,
    kind: PerformancePressureKind,
    thresholds: PerformanceThresholds,
) -> Option<PerformancePressureRecord>
    decreases samples.len(),
{
    if samples.len() == 0 {
        None
    } else {
        let before = summarized_pressure(samples.drop_last(), from, to, kind, thresholds);
        if from <= samples.last().observed_at_unix_ms <= to {
            summarized_with(before, samples.last(), kind, thresholds)
        } else {
            before
        }
    }
}

/// A record for each kind of pressure.
#[derive(Debug, Clone, Copy, PartialEq, Eq, Structural)]
pub struct PressureRecords {
    pub cpu: Option<PerformancePressureRecord>,
    pub ram: Option<PerformancePressureRecord>,
    pub disk_io: Option<PerformancePressureRecord>,
    pub gpu: Option<PerformancePressureRecord>,
    pub third_party: Option<PerformancePressureRecord>,
}

impl PressureRecords {
    pub open spec fn of(self, kind: PerformancePressureKind) -> Option<PerformancePressureRecord> {
        match kind {
            PerformancePressureKind::Cpu => self.cpu,
            PerformancePressureKind::Ram => self.ram,
            PerformancePressureKind::DiskIo => self.disk_io,
            PerformancePressureKind::Gpu => self.gpu,
            PerformancePressureKind::ThirdParty => self.third_party,
        }
    }

    pub fn none() -> (records: Self)
        ensures
            forall|kind: PerformancePressureKind| #[trigger] records.of(kind) is None,
    {
        PressureRecords { cpu: None, ram: None, disk_io: None, gpu: None, third_party: None }
    }

    /// Adds a sample to the records of a window.
    pub fn add(&mut self, sample: &RawSystemSample, thresholds: &PerformanceThresholds)
        requires
            process_count_fits(*sample),
        ensures
            forall|kind: PerformancePressureKind| #[trigger]
                final(self).of(kind) == summarized_with(
                    old(self).of(kind),
                    *sample,
                    kind,
                    *thresholds,
                ),
    {
        if let Ok(values) = pressure_measurements(sample) {
            let at: u64 = sample.observed_at_unix_ms;
            proof {
                assert(values.of(PerformancePressureKind::Cpu) == measured(
                    *sample,
                    PerformancePressureKind::Cpu,
                ));
                assert(values.of(PerformancePressureKind::Ram) == measured(
                    *sample,
                    PerformancePressureKind::Ram,
                ));
                assert(values.of(PerformancePressureKind::DiskIo) == measured(
                    *sample,
                    PerformancePressureKind::DiskIo,
                ));
                assert(values.of(PerformancePressureKind::Gpu) == measured(
                    *sample,
                    PerformancePressureKind::Gpu,
                ));
                assert(values.of(PerformancePressureKind::ThirdParty) == measured(
                    *sample,
                    PerformancePressureKind::ThirdParty,
                ));
            }
            self.cpu = extended(
                self.cpu,
                PerformancePressureKind::Cpu,
                values.cpu,
                at,
                thresholds,
            );
            self.ram = extended(
                self.ram,
                PerformancePressureKind::Ram,
                values.ram,
                at,
                thresholds,
            );
            self.disk_io = extended(
                self.disk_io,
                PerformancePressureKind::DiskIo,
                values.disk_io,
                at,
                thresholds,
            );
            self.gpu = extended(
                self.gpu,
                PerformancePressureKind::Gpu,
                values.gpu,
                at,
                thresholds,
            );
            self.third_party = extended(
                self.third_party,
                PerformancePressureKind::ThirdParty,
                values.third_party,
                at,
                thresholds,
            );
        }
    }

    /// The records that there are, in the order of their kinds.
    pub open spec fn listed(self) -> Seq<PerformancePressureRecord> {
        one_or_none(self.cpu) + one_or_none(self.ram) + one_or_none(self.disk_io) + one_or_none(
            self.gpu,
        ) + one_or_none(self.third_party)
    }

    pub fn list(&self) -> (records: Vec<PerformancePressureRecord>)
        ensures
            records@ == self.listed(),
    {
        let mut records: Vec<PerformancePressureRecord> = Vec::new();
        if let Some(record) = self.cpu {
            records.push(record);
        }
        if let Some(record) = self.ram {
            records.push(record);
        }
        if let Some(record) = self.disk_io {
            records.push(record);
        }
        if let Some(record) = self.gpu {
            records.push(record);
        }
        if let Some(record) = self.third_party {
            records.push(record);
        }
        assert(records@ =~= self.listed());
        records
    }
}

pub open spec fn one_or_none(record: Option<PerformancePressureRecord>) -> Seq<
    PerformancePressureRecord,
> {
    match record {
        Some(record) => seq![record],
        None => Seq::empty(),
    }
}

fn extended(
    record: Option<PerformancePressureRecord>,
    kind: PerformancePressureKind,
    value: Option<PerformancePressureValue>,
    at: u64,
    thresholds: &PerformanceThresholds,
) -> (result: Option<PerformancePressureRecord>)
    ensures
        result == match value {
            Some(value) => if !starts(kind, value, *thresholds) {
                record
            } else {
                match record {
                    None => Some(started_record(kind, value, at, *thresholds)),
                    Some(record) => Some(
                        PerformancePressureRecord {
                            last_observed_at_unix_ms: at,
                            severity: worse_severity(
                                record.severity,
                                severity_of(kind, value, *thresholds),
                            ),
                            peak: peak_of(record.peak, value),
                            ..record
                        },
                    ),
                }
            },
            None => record,
        },
{
    match value {
        None => record,
        Some(value) => {
            if !pressure_above_start(kind, value, thresholds) {
                return record;
            }
            match record {
                None => Some(start_record(kind, value, at, thresholds)),
                Some(current) => {
                    let mut next = current;
                    next.last_observed_at_unix_ms = at;
                    next.severity = worse(
                        current.severity,
                        pressure_severity(kind, value, thresholds),
                    );
                    next.peak = peak_value(current.peak, value);
                    Some(next)
                },
            }
        },
    }
}

/// A share of the reference rate, in basis points, at most the whole.
pub open spec fn io_share(io_bytes_per_second: u64) -> int {
    capped(capped(io_bytes_per_second * 10_000, u64::MAX as int) / 67_108_864, 10_000)
}

/// How hard other programs press on the host: the largest CPU share among
/// them, or the largest share of disk traffic.
pub open spec fn third_party_pressure(sample: RawSystemSample) -> int {
    let cpu = match largest(sample.third_party_high_load@, process_cpu()) {
        Some(value) => value as int,
        None => 0,
    };
    let io = match largest(sample.third_party_high_load@, process_io()) {
        Some(value) => io_share(value),
        None => 0,
    };
    if cpu >= io {
        cpu
    } else {
        io
    }
}

pub fn third_party_pressure_basis_points(sample: &RawSystemSample) -> (pressure: u16)
    ensures
        pressure == third_party_pressure(*sample),
{
    let (cpu, io) = process_peaks(&sample.third_party_high_load);
    proof {
        assert(sample.third_party_high_load@.len() == 0 ==> cpu is None);
    }
    let cpu: u64 = match cpu {
        Some(value) => value,
        None => 0,
    };
    let io: u64 = match io {
        Some(value) => {
            let product: u128 = (value as u128) * 10_000;
            let bounded: u128 = if product <= u64::MAX as u128 {
                product
            } else {
                u64::MAX as u128
            };
            let share: u128 = bounded / 67_108_864;
            if share <= 10_000 {
                share as u64
            } else {
                10_000
            }
        },
        None => 0,
    };
    if cpu >= io {
        cpu as u16
    } else {
        io as u16
    }
}

/// A measurement that starts a pressure also keeps it up.
pub proof fn law_starting_keeps_up(
    kind: PerformancePressureKind,
    value: PerformancePressureValue,
    thresholds: PerformanceThresholds,
)
    requires
        thresholds.valid(),
        starts(kind, value, thresholds),
    ensures
        keeps_up(kind, value, thresholds),
{
}

/// A number that was measured, or none of it.
pub open spec fn or_nothing<N>(value: Option<N>, nothing: N) -> N {
    match value {
        Some(value) => value,
        None => nothing,
    }
}

/// The load that a sample shows of a kind reaches the bounds at which a
/// pressure of that kind starts.
pub open spec fn load_starts(
    sample: RawSystemSample,
    kind: PerformancePressureKind,
    thresholds: PerformanceThresholds,
) -> bool {
    match kind {
        PerformancePressureKind::Cpu => sample.cpu_total_basis_points
            >= thresholds.cpu_start_basis_points,
        PerformancePressureKind::Ram => sample.ram_used_basis_points
            >= thresholds.ram_start_basis_points,
        PerformancePressureKind::DiskIo => (sample.disk_queue_depth_milli
            matches Some(queue) && queue >= thresholds.disk_queue_start_milli) || (
        sample.disk_latency_micros matches Some(latency) && latency
            >= thresholds.disk_latency_start_micros),
        PerformancePressureKind::Gpu => sample.gpu_basis_points matches Some(share) && share
            >= thresholds.gpu_start_basis_points,
        PerformancePressureKind::ThirdParty => sample.third_party_high_load@.len() > 0,
    }
}

/// The load that a sample shows of a kind reaches the bounds above which a
/// pressure of that kind lasts.
pub open spec fn load_lasts(
    sample: RawSystemSample,
    kind: PerformancePressureKind,
    thresholds: PerformanceThresholds,
) -> bool {
    match kind {
        PerformancePressureKind::Cpu => sample.cpu_total_basis_points
            >= thresholds.cpu_end_basis_points,
        PerformancePressureKind::Ram => sample.ram_used_basis_points
            >= thresholds.ram_end_basis_points,
        PerformancePressureKind::DiskIo => (sample.disk_queue_depth_milli is Some
            || sample.disk_latency_micros is Some) && (or_nothing(
            sample.disk_queue_depth_milli,
            0,
        ) >= thresholds.disk_queue_end_milli || or_nothing(sample.disk_latency_micros, 0)
            >= thresholds.disk_latency_end_micros),
        PerformancePressureKind::Gpu => sample.gpu_basis_points matches Some(share) && share
            >= thresholds.gpu_end_basis_points,
        PerformancePressureKind::ThirdParty => sample.third_party_high_load@.len() > 0,
    }
}

/// A sample starts a pressure exactly where the load that it shows of that
/// kind reaches the start threshold, and keeps one up exactly where it reaches
/// the end threshold.
pub proof fn law_load_decides_the_pressure(
    sample: RawSystemSample,
    kind: PerformancePressureKind,
    thresholds: PerformanceThresholds,
)
    requires
        thresholds.valid(),
    ensures
        (measured(sample, kind) matches Some(value) && starts(kind, value, thresholds))
            <==> load_starts(sample, kind, thresholds),
        (measured(sample, kind) matches Some(value) && keeps_up(kind, value, thresholds))
            <==> load_lasts(sample, kind, thresholds),
{
}

/// What is measured of a kind is what the sample shows of it: a share, the two
/// numbers of the disk, or how many programs there are and the most that any
/// of them takes.
pub proof fn law_measurement_shows_the_load(sample: RawSystemSample, process: int)
    requires
        process_count_fits(sample),
        0 <= process < sample.third_party_high_load@.len(),
    ensures
        measured(sample, PerformancePressureKind::Cpu) matches Some(
            PerformancePressureValue::Utilization { basis_points },
        ) && basis_points == sample.cpu_total_basis_points,
        measured(sample, PerformancePressureKind::Ram) matches Some(
            PerformancePressureValue::Utilization { basis_points },
        ) && basis_points == sample.ram_used_basis_points,
        measured(sample, PerformancePressureKind::Gpu) is Some <==> sample.gpu_basis_points is Some,
        sample.gpu_basis_points is Some ==> (measured(sample, PerformancePressureKind::Gpu)
            matches Some(PerformancePressureValue::Utilization { basis_points }) && Some(
            basis_points,
        ) == sample.gpu_basis_points),
        measured(sample, PerformancePressureKind::ThirdParty) matches Some(
            PerformancePressureValue::ProcessLoad {
                process_count,
                peak_cpu_basis_points,
                peak_io_bytes_per_second,
            },
        ) && process_count == sample.third_party_high_load@.len() && peak_cpu_basis_points
            >= sample.third_party_high_load@[process].cpu_basis_points && peak_io_bytes_per_second
            >= sample.third_party_high_load@[process].io_bytes_per_second,
{
    let processes = sample.third_party_high_load@;
    lemma_largest(processes, process_cpu());
    lemma_largest(processes, process_io());
    assert(process_cpu()(processes[process]) == Some(processes[process].cpu_basis_points as u64));
    assert(process_io()(processes[process]) == Some(processes[process].io_bytes_per_second));
    let best = choose|i: int|
        0 <= i < processes.len() && process_cpu()(#[trigger] processes[i]) == Some(
            largest(processes, process_cpu())->0,
        );
    assert(process_cpu()(processes[best]) == Some(processes[best].cpu_basis_points as u64));
}

/// A share is critical from 97 percent on and high from 92 percent on; a load
/// of programs from three of them or one at 80 percent, and from two or one at
/// 60; the disk at twice the start thresholds, and somewhat above them.
pub proof fn law_severity_follows_the_load(
    value: PerformancePressureValue,
    kind: PerformancePressureKind,
    thresholds: PerformanceThresholds,
)
    ensures
        (kind == PerformancePressureKind::Cpu || kind == PerformancePressureKind::Ram || kind
            == PerformancePressureKind::Gpu) ==> (value
            matches PerformancePressureValue::Utilization { basis_points } ==> {
            &&& severity_of(kind, value, thresholds) == PerformancePressureSeverity::Critical
                <==> basis_points >= 9_700
            &&& severity_of(kind, value, thresholds) == PerformancePressureSeverity::Elevated
                <==> basis_points < 9_200
        }),
        kind == PerformancePressureKind::ThirdParty ==> (value
            matches PerformancePressureValue::ProcessLoad {
            process_count,
            peak_cpu_basis_points,
            ..
        } ==> {
            &&& severity_of(kind, value, thresholds) == PerformancePressureSeverity::Critical
                <==> process_count > 2 || peak_cpu_basis_points >= 8_000
            &&& severity_of(kind, value, thresholds) == PerformancePressureSeverity::Elevated
                <==> process_count < 2 && peak_cpu_basis_points < 6_000
        }),
        kind == PerformancePressureKind::DiskIo && thresholds.disk_queue_start_milli
            <= 1_000_000_000 && thresholds.disk_latency_start_micros <= 1_000_000_000_000 ==> (
        value matches PerformancePressureValue::DiskIo { queue_depth_milli, latency_micros } ==> {
            &&& severity_of(kind, value, thresholds) == PerformancePressureSeverity::Critical
                <==> queue_depth_milli >= 2 * thresholds.disk_queue_start_milli || latency_micros
                >= 2 * thresholds.disk_latency_start_micros
            &&& severity_of(kind, value, thresholds) == PerformancePressureSeverity::Elevated ==> {
                &&& queue_depth_milli < thresholds.disk_queue_start_milli + 2_000
                &&& latency_micros < thresholds.disk_latency_start_micros + 25_000
            }
            &&& severity_of(kind, value, thresholds) == PerformancePressureSeverity::High ==> {
                ||| queue_depth_milli >= thresholds.disk_queue_start_milli + 2_000
                ||| latency_micros >= thresholds.disk_latency_start_micros + 25_000
            }
        }),
{
}

/// A measurement is at least as bad as another in every number.
pub open spec fn at_least_as_bad(
    worse: PerformancePressureValue,
    value: PerformancePressureValue,
) -> bool {
    match (worse, value) {
        (
            PerformancePressureValue::Utilization { basis_points: a },
            PerformancePressureValue::Utilization { basis_points: b },
        ) => a >= b,
        (
            PerformancePressureValue::DiskIo { queue_depth_milli: a, latency_micros: c },
            PerformancePressureValue::DiskIo { queue_depth_milli: b, latency_micros: d },
        ) => a >= b && c >= d,
        (
            PerformancePressureValue::ProcessLoad {
                process_count: a,
                peak_cpu_basis_points: c,
                peak_io_bytes_per_second: e,
            },
            PerformancePressureValue::ProcessLoad {
                process_count: b,
                peak_cpu_basis_points: d,
                peak_io_bytes_per_second: f,
            },
        ) => a >= b && c >= d && e >= f,
        _ => false,
    }
}

/// The peak of two measurements of a sort is the least that is as bad as both,
/// and the worse of two severities is one of them and no better than either.
pub proof fn law_peak_is_the_worst(
    first: PerformancePressureValue,
    second: PerformancePressureValue,
    bound: PerformancePressureValue,
    left: PerformancePressureSeverity,
    right: PerformancePressureSeverity,
)
    requires
        at_least_as_bad(bound, first),
        at_least_as_bad(bound, second),
    ensures
        at_least_as_bad(peak_of(first, second), first),
        at_least_as_bad(peak_of(first, second), second),
        at_least_as_bad(bound, peak_of(first, second)),
        worse_severity(left, right) == left || worse_severity(left, right) == right,
        (left == PerformancePressureSeverity::Critical || right
            == PerformancePressureSeverity::Critical) ==> worse_severity(left, right)
            == PerformancePressureSeverity::Critical,
        worse_severity(left, right) == PerformancePressureSeverity::Elevated ==> left == right,
{
}

/// The sample lies in the window and its load starts a pressure of the kind.
pub open spec fn starts_in_window(
    sample: RawSystemSample,
    from: u64,
    to: u64,
    kind: PerformancePressureKind,
    thresholds: PerformanceThresholds,
) -> bool {
    from <= sample.observed_at_unix_ms <= to && load_starts(sample, kind, thresholds)
}

/// A window has a record of a pressure exactly where some sample in it shows a
/// load that starts one. The record spans from the first such sample to the
/// last, and is no less severe than any of them.
pub proof fn law_window_records_its_pressures(
    samples: Seq<RawSystemSample>,
    from: u64,
    to: u64,
    kind: PerformancePressureKind,
    thresholds: PerformanceThresholds,
)
    requires
        thresholds.valid(),
    ensures
        match summarized_pressure(samples, from, to, kind, thresholds) {
            None => forall|i: int|
                0 <= i < samples.len() ==> !starts_in_window(
                    #[trigger] samples[i],
                    from,
                    to,
                    kind,
                    thresholds,
                ),
            Some(record) => {
                &&& record.kind == kind
                &&& exists|i: int| {
                    &&& 0 <= i < samples.len()
                    &&& starts_in_window(#[trigger] samples[i], from, to, kind, thresholds)
                    &&& record.started_at_unix_ms == samples[i].observed_at_unix_ms
                    &&& forall|j: int|
                        0 <= j < i ==> !starts_in_window(
                            #[trigger] samples[j],
                            from,
                            to,
                            kind,
                            thresholds,
                        )
                }
                &&& exists|i: int| {
                    &&& 0 <= i < samples.len()
                    &&& starts_in_window(#[trigger] samples[i], from, to, kind, thresholds)
                    &&& record.last_observed_at_unix_ms == samples[i].observed_at_unix_ms
                    &&& forall|j: int|
                        i < j < samples.len() ==> !starts_in_window(
                            #[trigger] samples[j],
                            from,
                            to,
                            kind,
                            thresholds,
                        )
                }
                &&& forall|i: int|
                    0 <= i < samples.len() && starts_in_window(
                        #[trigger] samples[i],
                        from,
                        to,
                        kind,
                        thresholds,
                    ) ==> severity_rank(record.severity) >= severity_rank(
                        severity_of(kind, measured(samples[i], kind)->0, thresholds),
                    )
            },
        },
    decreases samples.len(),
{
    if samples.len() > 0 {
        let before = samples.drop_last();
        let last = samples.len() - 1;
        law_window_records_its_pressures(before, from, to, kind, thresholds);
        law_load_decides_the_pressure(samples.last(), kind, thresholds);
        assert forall|i: int| 0 <= i < last implies samples[i] == #[trigger] before[i] by {}
        let old_record = summarized_pressure(before, from, to, kind, thresholds);
        let counts = starts_in_window(samples[last], from, to, kind, thresholds);
        if old_record is Some {
            let first = choose|i: int| {
                &&& 0 <= i < before.len()
                &&& starts_in_window(#[trigger] before[i], from, to, kind, thresholds)
                &&& old_record->0.started_at_unix_ms == before[i].observed_at_unix_ms
                &&& forall|j: int|
                    0 <= j < i ==> !starts_in_window(
                        #[trigger] before[j],
                        from,
                        to,
                        kind,
                        thresholds,
                    )
            };
            assert(starts_in_window(samples[first], from, to, kind, thresholds));
            assert forall|j: int| 0 <= j < first implies !starts_in_window(
                #[trigger] samples[j],
                from,
                to,
                kind,
                thresholds,
            ) by {
                assert(samples[j] == before[j]);
            }
            let latest = choose|i: int| {
                &&& 0 <= i < before.len()
                &&& starts_in_window(#[trigger] before[i], from, to, kind, thresholds)
                &&& old_record->0.last_observed_at_unix_ms == before[i].observed_at_unix_ms
                &&& forall|j: int|
                    i < j < before.len() ==> !starts_in_window(
                        #[trigger] before[j],
                        from,
                        to,
                        kind,
                        thresholds,
                    )
            };
            assert(starts_in_window(samples[latest], from, to, kind, thresholds));
            if !counts {
                assert forall|j: int| latest < j < samples.len() implies !starts_in_window(
                    #[trigger] samples[j],
                    from,
                    to,
                    kind,
                    thresholds,
                ) by {
                    if j < last {
                        assert(samples[j] == before[j]);
                    }
                }
            }
        }
        assert forall|i: int| 0 <= i < last && !starts_in_window(
            before[i],
            from,
            to,
            kind,
            thresholds,
        ) implies !starts_in_window(#[trigger] samples[i], from, to, kind, thresholds) by {
            assert(samples[i] == before[i]);
        }
    }
}

/// Disk traffic counts as its share of 64 mebibytes a second: all of it from
/// there on, nothing at a standstill, and never less for more traffic.
pub proof fn law_disk_share_is_proportional(io: u64, more: u64)
    requires
        io <= more,
    ensures
        0 <= io_share(io) <= io_share(more) <= 10_000,
        io_share(0) == 0,
        io >= 67_108_864 ==> io_share(io) == 10_000,
        io < 67_108_864 ==> io_share(io) * 67_108_864 <= io * 10_000 < (io_share(io) + 1)
            * 67_108_864,
{
}

/// How hard other programs press is at least what any of them takes of the
/// processor and of the disk, is what one of them takes, and is nothing where
/// there are none.
pub proof fn law_hardest_program_counts(sample: RawSystemSample, process: int)
    requires
        0 <= process < sample.third_party_high_load@.len(),
    ensures
        third_party_pressure(sample) >= sample.third_party_high_load@[process].cpu_basis_points,
        third_party_pressure(sample) >= io_share(
            sample.third_party_high_load@[process].io_bytes_per_second,
        ),
        exists|i: int|
            0 <= i < sample.third_party_high_load@.len() && (third_party_pressure(sample) == (
            #[trigger] sample.third_party_high_load@[i]).cpu_basis_points
                || third_party_pressure(sample) == io_share(
                sample.third_party_high_load@[i].io_bytes_per_second,
            )),
{
    let processes = sample.third_party_high_load@;
    lemma_largest(processes, process_cpu());
    lemma_largest(processes, process_io());
    assert(process_cpu()(processes[process]) == Some(processes[process].cpu_basis_points as u64));
    assert(process_io()(processes[process]) == Some(processes[process].io_bytes_per_second));
    let most_io = largest(processes, process_io())->0;
    law_disk_share_is_proportional(processes[process].io_bytes_per_second, most_io);
    let by_cpu = choose|i: int|
        0 <= i < processes.len() && process_cpu()(#[trigger] processes[i]) == Some(
            largest(processes, process_cpu())->0,
        );
    let by_io = choose|i: int|
        0 <= i < processes.len() && process_io()(#[trigger] processes[i]) == Some(most_io);
    assert(process_cpu()(processes[by_cpu]) == Some(processes[by_cpu].cpu_basis_points as u64));
    assert(process_io()(processes[by_io]) == Some(processes[by_io].io_bytes_per_second));
}

/// Without other programs there is no pressure from them.
pub proof fn law_idle_programs_do_not_press(sample: RawSystemSample)
    requires
        sample.third_party_high_load@.len() == 0,
    ensures
        third_party_pressure(sample) == 0,
        measured(sample, PerformancePressureKind::ThirdParty) is None,
{
}

} // verus!
