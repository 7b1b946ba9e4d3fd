//! The bounds and thresholds of the monitor.

use vstd::prelude::*;
use vstd::string::StringExecFns;

use crate::error::{fatal_error, RuntimeErrorCode, RuntimeHostError, RuntimeHostResult};
use crate::ordered_map::{lemma_entry, lemma_keys_are_domain, OrderedMap};
use crate::period::{of_millis, Period};
use crate::text::{has_control, holds_control, utf8};

verus! {

pub const BASIS_POINTS_MAX: u16 = 10_000;

pub const MAX_OWNED_PROCESS_COUNT: usize = 32;

/// A fatal error of the monitor.
pub open spec fn performance_error(code: &'static str, operation: &'static str) ->
    RuntimeHostError {
    fatal_error(code, operation, RuntimeErrorCode::RuntimeFatal)
}

pub fn performance_fatal(code: &'static str, operation: &'static str) -> (error: RuntimeHostError)
    ensures
        error == performance_error(code, operation),
{
    RuntimeHostError::fatal(code, operation, RuntimeErrorCode::RuntimeFatal)
}

/// When a pressure starts and ends, and which processes count as heavy.
#[derive(Debug, Clone, Copy, PartialEq, Eq, Structural)]
pub struct PerformanceThresholds {
    pub cpu_start_basis_points: u16,
    pub cpu_end_basis_points: u16,
    pub ram_start_basis_points: u16,
    pub ram_end_basis_points: u16,
    pub gpu_start_basis_points: u16,
    pub gpu_end_basis_points: u16,
    pub disk_queue_start_milli: u32,
    pub disk_queue_end_milli: u32,
    pub disk_latency_start_micros: u64,
    pub disk_latency_end_micros: u64,
    pub process_cpu_start_basis_points: u16,
    pub process_io_start_bytes_per_second: u64,
    pub stutter_frame_gap_ms: u64,
}

pub open spec fn default_thresholds() -> PerformanceThresholds {
    PerformanceThresholds {
        cpu_start_basis_points: 8_500,
        cpu_end_basis_points: 7_000,
        ram_start_basis_points: 9_000,
        ram_end_basis_points: 8_000,
        gpu_start_basis_points: 9_000,
        gpu_end_basis_points: 7_500,
        disk_queue_start_milli: 4_000,
        disk_queue_end_milli: 2_000,
        disk_latency_start_micros: 50_000,
        disk_latency_end_micros: 25_000,
        process_cpu_start_basis_points: 4_000,
        process_io_start_bytes_per_second: 67_108_864,
        stutter_frame_gap_ms: 1_000,
    }
}

impl Default for PerformanceThresholds {
    fn default() -> (thresholds: Self)
        ensures
            thresholds == default_thresholds(),
    {
        PerformanceThresholds {
            cpu_start_basis_points: 8_500,
            cpu_end_basis_points: 7_000,
            ram_start_basis_points: 9_000,
            ram_end_basis_points: 8_000,
            gpu_start_basis_points: 9_000,
            gpu_end_basis_points: 7_500,
            disk_queue_start_milli: 4_000,
            disk_queue_end_milli: 2_000,
            disk_latency_start_micros: 50_000,
            disk_latency_end_micros: 25_000,
            process_cpu_start_basis_points: 4_000,
            process_io_start_bytes_per_second: 67_108_864,
            stutter_frame_gap_ms: 1_000,
        }
    }
}

impl PerformanceThresholds {
    /// Every pressure ends below where it starts.
    pub open spec fn valid(self) -> bool {
        &&& self.cpu_end_basis_points < self.cpu_start_basis_points <= BASIS_POINTS_MAX
        &&& self.ram_end_basis_points < self.ram_start_basis_points <= BASIS_POINTS_MAX
        &&& self.gpu_end_basis_points < self.gpu_start_basis_points <= BASIS_POINTS_MAX
        &&& self.disk_queue_end_milli < self.disk_queue_start_milli
        &&& self.disk_latency_end_micros < self.disk_latency_start_micros
        &&& self.process_cpu_start_basis_points <= BASIS_POINTS_MAX
        &&& self.process_io_start_bytes_per_second > 0
        &&& self.stutter_frame_gap_ms > 0
    }

    pub fn validate(&self) -> (result: RuntimeHostResult<()>)
        ensures
            self.valid() ==> result is Ok,
            !self.valid() ==> result == Err::<(), _>(
                performance_error("performance_threshold_invalid", "validate_performance_config"),
            ),
    {
        if self.cpu_start_basis_points > BASIS_POINTS_MAX || self.cpu_end_basis_points
            >= self.cpu_start_basis_points || self.ram_start_basis_points > BASIS_POINTS_MAX
            || self.ram_end_basis_points >= self.ram_start_basis_points
            || self.gpu_start_basis_points > BASIS_POINTS_MAX || self.gpu_end_basis_points
            >= self.gpu_start_basis_points || self.disk_queue_start_milli == 0
            || self.disk_queue_end_milli >= self.disk_queue_start_milli
            || self.disk_latency_start_micros == 0 || self.disk_latency_end_micros
            >= self.disk_latency_start_micros || self.process_cpu_start_basis_points
            > BASIS_POINTS_MAX || self.process_io_start_bytes_per_second == 0
            || self.stutter_frame_gap_ms == 0 {
            return Err(
                performance_fatal("performance_threshold_invalid", "validate_performance_config"),
            );
        }
        Ok(())
    }
}

/// The monitor's bounds.
#[derive(Debug)]
pub struct PerformanceMonitorConfig {
    pub sample_interval: Period,
    pub context_window: Period,
    pub summary_interval: Period,
    pub max_system_samples: usize,
    pub max_pipeline_samples: usize,
    pub max_event_references: usize,
    pub max_consecutive_failures: u16,
    pub top_process_count: usize,
    /// The processes that belong to the runtime, by process id.
    pub owned_processes: OrderedMap<u32, String>,
    pub thresholds: PerformanceThresholds,
}

/// A process that can be named in a record.
pub open spec fn process_label_valid(pid: u32, label: Seq<char>) -> bool {
    pid > 0 && label.len() > 0 && utf8(label).len() <= 260 && !holds_control(label)
}

pub fn valid_process_label(pid: u32, label: &str) -> (valid: bool)
    ensures
        valid == process_label_valid(pid, label@),
{
    pid > 0 && !label.is_empty() && label.as_bytes().len() <= 260 && !has_control(label)
}

impl Default for PerformanceMonitorConfig {
    fn default() -> (config: Self)
        ensures
            config.wf(),
            config.sample_interval == of_millis(2_000),
            config.context_window == of_millis(30_000),
            config.summary_interval == of_millis(60_000),
            config.max_system_samples == 64,
            config.max_pipeline_samples == 4_096,
            config.max_event_references == 512,
            config.max_consecutive_failures == 3,
            config.top_process_count == 5,
            config.owned_processes@ == Map::<u32, String>::empty(),
            config.thresholds == default_thresholds(),
    {
        PerformanceMonitorConfig {
            sample_interval: Period::from_millis(2_000),
            context_window: Period::from_millis(30_000),
            summary_interval: Period::from_millis(60_000),
            max_system_samples: 64,
            max_pipeline_samples: 4_096,
            max_event_references: 512,
            max_consecutive_failures: 3,
            top_process_count: 5,
            owned_processes: OrderedMap::new(),
            thresholds: PerformanceThresholds::default(),
        }
    }
}

impl PerformanceMonitorConfig {
    /// The window and the time between summaries can be told in milliseconds.
    pub open spec fn wf(&self) -> bool {
        &&& self.owned_processes.wf()
        &&& self.context_window.millis <= u64::MAX
        &&& self.summary_interval.millis <= u64::MAX
    }

    /// The same configuration but for the owned processes.
    pub open spec fn same_bounds(&self, other: &Self) -> bool {
        &&& self.sample_interval == other.sample_interval
        &&& self.context_window == other.context_window
        &&& self.summary_interval == other.summary_interval
        &&& self.max_system_samples == other.max_system_samples
        &&& self.max_pipeline_samples == other.max_pipeline_samples
        &&& self.max_event_references == other.max_event_references
        &&& self.max_consecutive_failures == other.max_consecutive_failures
        &&& self.top_process_count == other.top_process_count
        &&& self.thresholds == other.thresholds
    }

    /// The bounds are usable, thresholds aside.
    pub open spec fn bounds_valid(&self) -> bool {
        &&& !self.sample_interval.shorter(of_millis(1_000))
        &&& !of_millis(5_000).shorter(self.sample_interval)
        &&& !self.context_window.shorter(self.sample_interval)
        &&& !self.summary_interval.shorter(self.sample_interval)
        &&& self.max_system_samples > 0
        &&& self.max_pipeline_samples > 0
        &&& self.max_event_references > 0
        &&& self.max_consecutive_failures > 0
        &&& 0 < self.top_process_count <= 32
        &&& self.owned_processes@.len() <= MAX_OWNED_PROCESS_COUNT
        &&& forall|pid: u32| #[trigger]
            self.owned_processes@.contains_key(pid) ==> process_label_valid(
                pid,
                self.owned_processes@[pid]@,
            )
    }

    pub open spec fn valid(&self) -> bool {
        self.bounds_valid() && self.thresholds.valid()
    }

    pub fn with_owned_process(self, pid: u32, label: String) -> (config: Self)
        requires
            self.wf(),
        ensures
            config.wf(),
            config.same_bounds(&self),
            config.owned_processes@ == self.owned_processes@.insert(pid, label),
    {
        let mut config = self;
        config.owned_processes.insert(pid, label);
        config
    }

    /// The time between two samples.
    pub fn sample_interval(&self) -> (interval: Period)
        ensures
            interval == self.sample_interval,
    {
        self.sample_interval
    }

    /// The configuration with the runtime's own process among the owned ones;
    /// a label given to it before stays.
    pub fn with_runtime_process(self, pid: u32) -> (config: Self)
        requires
            self.wf(),
        ensures
            config.wf(),
            config.same_bounds(&self),
            self.owned_processes@.contains_key(pid) ==> config.owned_processes@
                == self.owned_processes@,
            !self.owned_processes@.contains_key(pid) ==> {
                &&& config.owned_processes@.dom() == self.owned_processes@.dom().insert(pid)
                &&& config.owned_processes@[pid]@ == "actingcommand-runtime"@
                &&& forall|other: u32| #[trigger]
                    self.owned_processes@.contains_key(other) ==> config.owned_processes@[other]
                        == self.owned_processes@[other]
            },
    {
        let mut config = self;
        if !config.owned_processes.contains(&pid) {
            config.owned_processes.insert(pid, String::from_str("actingcommand-runtime"));
        }
        config
    }

    pub fn validate(&self) -> (result: RuntimeHostResult<()>)
        requires
            self.wf(),
        ensures
            self.valid() ==> result is Ok,
            !self.bounds_valid() ==> result == Err::<(), _>(
                performance_error("performance_config_invalid", "validate_performance_config"),
            ),
            self.bounds_valid() && !self.thresholds.valid() ==> result == Err::<(), _>(
                performance_error("performance_threshold_invalid", "validate_performance_config"),
            ),
    {
        proof {
            lemma_keys_are_domain(self.owned_processes);
        }
        let shortest = Period::from_millis(1_000);
        let longest = Period::from_millis(5_000);
        if self.sample_interval.is_shorter(&shortest) || longest.is_shorter(&self.sample_interval)
            || self.context_window.is_shorter(&self.sample_interval)
            || self.summary_interval.is_shorter(&self.sample_interval) || self.max_system_samples == 0 || self.max_pipeline_samples
            == 0 || self.max_event_references == 0 || self.max_consecutive_failures == 0
            || self.top_process_count == 0 || self.top_process_count > 32
            || self.owned_processes.len() > MAX_OWNED_PROCESS_COUNT || !self.labels_valid() {
            return Err(
                performance_fatal("performance_config_invalid", "validate_performance_config"),
            );
        }
        self.thresholds.validate()
    }

    fn labels_valid(&self) -> (valid: bool)
        requires
            self.wf(),
        ensures
            valid == forall|pid: u32| #[trigger]
                self.owned_processes@.contains_key(pid) ==> process_label_valid(
                    pid,
                    self.owned_processes@[pid]@,
                ),
    {
        let ghost keys = self.owned_processes.keys();
        let mut index: usize = 0;
        while index < self.owned_processes.entries.len()
            invariant
                index <= self.owned_processes.entries.len(),
                self.wf(),
                keys == self.owned_processes.keys(),
                forall|i: int|
                    0 <= i < index ==> process_label_valid(
                        #[trigger] keys[i],
                        self.owned_processes@[keys[i]]@,
                    ),
            decreases self.owned_processes.entries.len() - index,
        {
            let entry = &self.owned_processes.entries[index];
            proof {
                lemma_entry(self.owned_processes.entries@, index as int);
                assert(keys[index as int] == entry.0);
            }
            if !valid_process_label(entry.0, entry.1.as_str()) {
                assert(self.owned_processes@.contains_key(keys[index as int]));
                return false;
            }
            index += 1;
        }
        assert forall|pid: u32| #[trigger]
            self.owned_processes@.contains_key(pid) implies process_label_valid(
            pid,
            self.owned_processes@[pid]@,
        ) by {
            assert(keys.contains(pid));
            let i = keys.index_of(pid);
            assert(keys[i] == pid);
        }
        true
    }
}

/// Thresholds are usable only where every pressure ends strictly below where
/// it starts, shares are shares of a whole, and the other bounds are not empty.
pub proof fn law_usable_thresholds_leave_a_gap(thresholds: PerformanceThresholds)
    ensures
        thresholds.valid() <==> {
            &&& thresholds.cpu_start_basis_points > thresholds.cpu_end_basis_points
            &&& thresholds.ram_start_basis_points > thresholds.ram_end_basis_points
            &&& thresholds.gpu_start_basis_points > thresholds.gpu_end_basis_points
            &&& thresholds.disk_queue_start_milli > thresholds.disk_queue_end_milli
            &&& thresholds.disk_latency_start_micros > thresholds.disk_latency_end_micros
            &&& thresholds.cpu_start_basis_points <= 10_000
            &&& thresholds.ram_start_basis_points <= 10_000
            &&& thresholds.gpu_start_basis_points <= 10_000
            &&& thresholds.process_cpu_start_basis_points <= 10_000
            &&& thresholds.process_io_start_bytes_per_second != 0
            &&& thresholds.stutter_frame_gap_ms != 0
        },
        default_thresholds().valid(),
{
}

/// A monitor samples every one to five seconds, its window and the time
/// between summaries are no shorter than that, and no bound is empty.
pub proof fn law_usable_bounds_are_in_order(config: PerformanceMonitorConfig)
    requires
        config.bounds_valid(),
    ensures
        1_000 <= config.sample_interval.millis <= 5_000,
        config.context_window.millis >= config.sample_interval.millis,
        config.summary_interval.millis >= config.sample_interval.millis,
        config.max_system_samples >= 1,
        config.max_pipeline_samples >= 1,
        config.max_event_references >= 1,
        config.max_consecutive_failures >= 1,
        1 <= config.top_process_count <= 32,
{
}

} // verus!
