use harness::build_matrix::{BuildJob, BuildMatrix, BENCHMARKS};
use harness::category::WorkloadType;
use harness::config::{
    CodegenUnits, LtoSetting, OptLevel, OptimizationConfig, PgoSetting, StripSetting, TargetCpu,
};
use harness::generator::ConfigGenerator;
use harness::measurement::{needs_more_runs, Measurement, MeasurementStats};
use harness::pathfinder::{PathfinderSelector, PathfinderStrategy};
use harness::scheduler::{BuildResult, JobStatus};
use harness::text::same_text;
use harness::workloads::count_primes;

fn stats_of(compute: &[u64]) -> MeasurementStats {
    let ms: Vec<Measurement> = compute
        .iter()
        .map(|&c| Measurement::new(0, c, "r".to_string()))
        .collect();
    MeasurementStats::from_measurements(&ms).unwrap()
}

fn config(id: &str) -> OptimizationConfig {
    OptimizationConfig::new(
        id.to_string(),
        OptLevel::O3,
        LtoSetting::Off,
        CodegenUnits::Sixteen,
        PgoSetting::Off,
        TargetCpu::Generic,
        StripSetting::Off,
    )
}

#[test]
fn generation_is_repeatable() {
    let mut a = ConfigGenerator::new();
    let mut b = ConfigGenerator::new();
    let first: Vec<String> = a.generate_matrix().iter().map(|c| c.id.clone()).collect();
    let second: Vec<String> = b.generate_matrix().iter().map(|c| c.id.clone()).collect();
    assert_eq!(first, second);
    assert_eq!(first.len(), 80);
    assert_eq!(first.iter().filter(|id| *id == "baseline").count(), 1);
    assert_eq!(first.iter().filter(|id| *id == "standard-release").count(), 1);
    assert_eq!(first.iter().filter(|id| *id == "min-opt").count(), 1);
    assert_eq!(first.iter().filter(|id| *id == "max-opt").count(), 1);
}

#[test]
fn generating_again_replaces_the_matrix() {
    let mut g = ConfigGenerator::new();
    g.generate_matrix();
    g.generate_matrix();
    assert_eq!(g.count(), 80);
}

#[test]
fn balanced_pilot_on_full_matrix() {
    let mut g = ConfigGenerator::new();
    let all = g.generate_matrix();
    let picked = PathfinderSelector::balanced(15).select(all);
    let ids: Vec<&str> = picked.iter().map(|c| c.id.as_str()).collect();
    assert!(ids.len() <= 15);
    assert_eq!(ids[0], "baseline");
    assert_eq!(ids[1], "standard-release");
    // keyword tier: first match of each keyword, in keyword order
    assert_eq!(&ids[2..7], &["lto-thin", "lto-fat", "codegen-1", "cpu-native", "opt-s"]);
    let one = PathfinderSelector::balanced(0).select(all);
    assert_eq!(one.len(), 1);
    assert_eq!(one[0].id, "baseline");
}

#[test]
fn over_request_returns_every_candidate() {
    let configs = vec![config("baseline"), config("size-x"), config("other")];
    let picked = PathfinderSelector::balanced(100).select(&configs);
    let ids: Vec<&str> = picked.iter().map(|c| c.id.as_str()).collect();
    assert_eq!(ids, vec!["baseline", "size-x"]);
}

#[test]
fn extremes_strategy_fills_in_source_order() {
    let configs = vec![
        config("max-a"),
        config("standard-release"),
        config("extreme-b"),
        config("baseline"),
    ];
    let picked = PathfinderSelector::new(PathfinderStrategy::BaselineAndExtremes, 3).select(&configs);
    let ids: Vec<&str> = picked.iter().map(|c| c.id.as_str()).collect();
    assert_eq!(ids, vec!["standard-release", "baseline", "max-a"]);
}

#[test]
fn stats_scenario() {
    let s = stats_of(&[100, 110, 90]);
    assert_eq!(s.count, 3);
    assert_eq!(s.sum_compute_us, 300);
    assert_eq!(s.sum_compute_us as f64 / s.count as f64, 100.0);
    assert_eq!(s.median_low_compute_us, 100);
    assert_eq!(s.median_high_compute_us, 100);
    assert_eq!(s.min_compute_us, 90);
    assert_eq!(s.max_compute_us, 110);
    assert_eq!(s.sum_sq_compute_us, 30200);
}

#[test]
fn stats_even_count_median() {
    let s = stats_of(&[4, 1, 3, 2]);
    assert_eq!(s.median_low_compute_us, 2);
    assert_eq!(s.median_high_compute_us, 3);
}

#[test]
fn stats_overflow_is_an_error() {
    let ms = vec![
        Measurement::new(0, u64::MAX, "r".to_string()),
        Measurement::new(0, u64::MAX, "r".to_string()),
    ];
    assert!(MeasurementStats::from_measurements(&ms).is_err());
}

#[test]
fn stability_boundary_is_exclusive() {
    // compute times 90 and 110: mean 100, population deviation 10, CV exactly 0.10
    let at = stats_of(&[90, 110]);
    assert!(!at.is_stable(10, 100));
    assert!(at.is_stable(11, 100));
    // 91 and 109: CV 0.09
    let below = stats_of(&[91, 109]);
    assert!(below.is_stable(10, 100));
    // zero mean counts as zero spread
    let zero = stats_of(&[0, 0]);
    assert!(zero.is_stable(1, 100));
    assert!(!zero.is_stable(0, 100));
    assert!(at.stability_computable(10, 100));
}

#[test]
fn early_stopping_decision() {
    assert!(needs_more_runs(0, 3, 10, true));
    assert!(needs_more_runs(2, 3, 10, true));
    assert!(!needs_more_runs(3, 3, 10, true));
    assert!(needs_more_runs(3, 3, 10, false));
    assert!(!needs_more_runs(10, 3, 10, false));
}

#[test]
fn report_last_line_decides_and_trims() {
    let m = Measurement::from_output(
        "COMPUTE_TIME_US: 5\nRESULT:  a b \t\r\nSTARTUP_TIME_US:+7\nCOMPUTE_TIME_US: 9:extra\n",
    )
    .unwrap();
    assert_eq!(m.startup_us, 7);
    assert_eq!(m.compute_us, 9);
    assert_eq!(m.total_us, 16);
    assert_eq!(m.result, "a b");
}

#[test]
fn report_errors() {
    assert!(Measurement::from_output("").is_err());
    assert!(Measurement::from_output("STARTUP_TIME_US: x\nCOMPUTE_TIME_US: 1\nRESULT: 1").is_err());
    assert!(Measurement::from_output("STARTUP_TIME_US: -1\nCOMPUTE_TIME_US: 1\nRESULT: 1").is_err());
    assert!(Measurement::from_output(
        "STARTUP_TIME_US: 18446744073709551616\nCOMPUTE_TIME_US: 1\nRESULT: 1"
    )
    .is_err());
    // each part fits, the total does not
    assert!(Measurement::from_output(
        "STARTUP_TIME_US: 18446744073709551615\nCOMPUTE_TIME_US: 1\nRESULT: 1"
    )
    .is_err());
    // a later unreadable line overrides an earlier good one
    assert!(Measurement::from_output(
        "STARTUP_TIME_US: 1\nCOMPUTE_TIME_US: 1\nRESULT: 1\nSTARTUP_TIME_US: ?"
    )
    .is_err());
}

#[test]
fn matrix_shape_and_unique_ids() {
    let mut g = ConfigGenerator::new();
    let configs = g.generate_matrix();
    let matrix = BuildMatrix::generate(configs);
    assert_eq!(matrix.len(), BENCHMARKS.len() * configs.len());
    let mut ids: Vec<&String> = matrix.jobs().iter().map(|j| &j.job_id).collect();
    ids.sort();
    ids.dedup();
    assert_eq!(ids.len(), 800);
    assert_eq!(matrix.jobs()[0].job_id, "ackermann-baseline");
    assert_eq!(matrix.jobs()[81].job_id, "fibonacci-standard-release");
}

#[test]
fn matrix_listings_are_sorted_and_distinct() {
    let configs = vec![config("b"), config("a"), config("b")];
    let matrix = BuildMatrix::generate(&configs);
    assert_eq!(matrix.config_ids(), vec!["a".to_string(), "b".to_string()]);
    let names = matrix.benchmarks();
    assert_eq!(names[0], "ackermann");
    assert_eq!(names[9], "string-parse");
    assert_eq!(matrix.jobs_for_config("b").len(), 20);
}

#[test]
fn job_status_terminal_states_stay() {
    let mut s = JobStatus::new(BuildJob::new("fibonacci", "baseline"));
    assert!(matches!(s.result, BuildResult::Pending));
    s.mark_running();
    s.mark_success(100);
    assert!(s.is_complete() && s.is_success());
    s.mark_running();
    s.mark_failure("late".to_string());
    s.mark_success(5);
    assert!(matches!(s.result, BuildResult::Success));
    assert_eq!(s.duration_ms, Some(100));
    let mut f = JobStatus::new(BuildJob::new("fibonacci", "baseline"));
    f.mark_failure("boom".to_string());
    f.mark_running();
    f.mark_success(1);
    assert!(f.is_failure());
    assert_eq!(f.duration_ms, None);
}

#[test]
fn job_equality_is_by_pair() {
    assert_eq!(BuildJob::new("a", "b"), BuildJob::new("a", "b"));
    assert_ne!(BuildJob::new("a", "b"), BuildJob::new("a", "c"));
}

#[test]
fn text_equality() {
    assert!(same_text("baseline", "baseline"));
    assert!(!same_text("baseline", "baselines"));
    assert!(!same_text("", "x"));
}

#[test]
fn primes_at_small_limits() {
    assert_eq!(count_primes(4), 2);
    assert_eq!(count_primes(25), 9);
    assert_eq!(count_primes(49), 15);
}

#[test]
fn workload_categories() {
    assert_eq!(WorkloadType::from_benchmark("fibonacci"), WorkloadType::CpuRecursive);
    assert_eq!(WorkloadType::from_benchmark("prime-sieve"), WorkloadType::CpuIterative);
    assert_eq!(WorkloadType::from_benchmark("btreemap-ops"), WorkloadType::DataStructures);
    assert_eq!(WorkloadType::from_benchmark("unknown"), WorkloadType::CpuIterative);
    assert_eq!(WorkloadType::IoBound.name(), "I/O-bound");
    assert_eq!(
        WorkloadType::from_benchmark("matrix-mult").name(),
        "Memory-bound cache-sensitive"
    );
}

#[test]
fn stats_do_not_depend_on_order() {
    let a = stats_of(&[100, 110, 90, 7]);
    let b = stats_of(&[7, 90, 110, 100]);
    assert_eq!(a.count, b.count);
    assert_eq!(a.sum_compute_us, b.sum_compute_us);
    assert_eq!(a.sum_sq_compute_us, b.sum_sq_compute_us);
    assert_eq!(a.min_compute_us, b.min_compute_us);
    assert_eq!(a.max_compute_us, b.max_compute_us);
    assert_eq!(a.median_low_compute_us, 90);
    assert_eq!(b.median_low_compute_us, 90);
    assert_eq!(a.median_high_compute_us, b.median_high_compute_us);
}
