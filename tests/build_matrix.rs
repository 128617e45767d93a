use harness::config::{
    CodegenUnits, LtoSetting, OptLevel, OptimizationConfig, PgoSetting, StripSetting, TargetCpu,
};
use harness::build_matrix::{BuildJob, BuildMatrix, BENCHMARKS};
use harness::generator::ConfigGenerator;

#[test]
fn test_benchmarks_constant_has_ten_items() {
    assert_eq!(BENCHMARKS.len(), 10, "Should have exactly 10 benchmarks");
}

#[test]
fn test_benchmarks_constant_contains_expected_benchmarks() {
    assert!(BENCHMARKS.contains(&"ackermann"));
    assert!(BENCHMARKS.contains(&"fibonacci"));
    assert!(BENCHMARKS.contains(&"prime-sieve"));
    assert!(BENCHMARKS.contains(&"matrix-mult"));
    assert!(BENCHMARKS.contains(&"quicksort"));
    assert!(BENCHMARKS.contains(&"string-parse"));
    assert!(BENCHMARKS.contains(&"hashmap-ops"));
    assert!(BENCHMARKS.contains(&"file-io"));
    assert!(BENCHMARKS.contains(&"json-parse"));
    assert!(BENCHMARKS.contains(&"btreemap-ops"));
}

#[test]
fn test_build_job_new() {
    let job = BuildJob::new("fibonacci", "baseline");

    assert_eq!(job.benchmark, "fibonacci");
    assert_eq!(job.config_id, "baseline");
    assert_eq!(job.job_id, "fibonacci-baseline");
}

#[test]
fn test_build_job_build_command() {
    let job = BuildJob::new("fibonacci", "opt-o3");

    assert_eq!(
        job.build_command(),
        "cargo build -p fibonacci --profile opt-o3"
    );
}

#[test]
fn test_build_job_run_command() {
    let job = BuildJob::new("fibonacci", "opt-o3");

    assert_eq!(job.run_command(), "cargo run -p fibonacci --profile opt-o3");
}

#[test]
fn test_build_job_binary_path() {
    let job = BuildJob::new("fibonacci", "opt-o3");

    assert_eq!(job.binary_path(), "target/opt-o3/fibonacci");
}

#[test]
fn test_build_matrix_new() {
    let matrix = BuildMatrix::new();

    assert_eq!(matrix.len(), 0);
    assert!(matrix.is_empty());
}

#[test]
fn test_build_matrix_add_job() {
    let mut matrix = BuildMatrix::new();
    let job = BuildJob::new("fibonacci", "baseline");

    matrix.add_job(job.clone());

    assert_eq!(matrix.len(), 1);
    assert!(!matrix.is_empty());
    assert_eq!(matrix.jobs()[0], job);
}

#[test]
fn test_build_matrix_generate() {
    // Create a small set of test configurations
    let configs = vec![
        OptimizationConfig::new(
            "baseline".to_string(),
            OptLevel::O0,
            LtoSetting::Off,
            CodegenUnits::Sixteen,
            PgoSetting::Off,
            TargetCpu::Generic,
            StripSetting::Off,
        ),
        OptimizationConfig::new(
            "opt-o3".to_string(),
            OptLevel::O3,
            LtoSetting::Off,
            CodegenUnits::Sixteen,
            PgoSetting::Off,
            TargetCpu::Generic,
            StripSetting::Off,
        ),
    ];

    let matrix = BuildMatrix::generate(&configs);

    // Should have 10 benchmarks × 2 configs = 20 jobs
    assert_eq!(matrix.len(), 20);
    assert!(!matrix.is_empty());
}

#[test]
fn test_build_matrix_jobs_for_benchmark() {
    let configs = vec![
        OptimizationConfig::new(
            "baseline".to_string(),
            OptLevel::O0,
            LtoSetting::Off,
            CodegenUnits::Sixteen,
            PgoSetting::Off,
            TargetCpu::Generic,
            StripSetting::Off,
        ),
        OptimizationConfig::new(
            "opt-o3".to_string(),
            OptLevel::O3,
            LtoSetting::Off,
            CodegenUnits::Sixteen,
            PgoSetting::Off,
            TargetCpu::Generic,
            StripSetting::Off,
        ),
    ];

    let matrix = BuildMatrix::generate(&configs);
    let fib_jobs = matrix.jobs_for_benchmark("fibonacci");

    assert_eq!(fib_jobs.len(), 2);
    assert!(fib_jobs.iter().all(|job| job.benchmark == "fibonacci"));
}

#[test]
fn test_build_matrix_jobs_for_config() {
    let configs = vec![
        OptimizationConfig::new(
            "baseline".to_string(),
            OptLevel::O0,
            LtoSetting::Off,
            CodegenUnits::Sixteen,
            PgoSetting::Off,
            TargetCpu::Generic,
            StripSetting::Off,
        ),
        OptimizationConfig::new(
            "opt-o3".to_string(),
            OptLevel::O3,
            LtoSetting::Off,
            CodegenUnits::Sixteen,
            PgoSetting::Off,
            TargetCpu::Generic,
            StripSetting::Off,
        ),
    ];

    let matrix = BuildMatrix::generate(&configs);
    let baseline_jobs = matrix.jobs_for_config("baseline");

    assert_eq!(baseline_jobs.len(), 10);
    assert!(baseline_jobs.iter().all(|job| job.config_id == "baseline"));
}

#[test]
fn test_build_matrix_benchmarks() {
    let configs = vec![OptimizationConfig::new(
        "baseline".to_string(),
        OptLevel::O0,
        LtoSetting::Off,
        CodegenUnits::Sixteen,
        PgoSetting::Off,
        TargetCpu::Generic,
        StripSetting::Off,
    )];

    let matrix = BuildMatrix::generate(&configs);
    let benchmarks = matrix.benchmarks();

    assert_eq!(benchmarks.len(), 10);
    assert!(benchmarks.contains(&"fibonacci".to_string()));
    assert!(benchmarks.contains(&"ackermann".to_string()));
}

#[test]
fn test_build_matrix_config_ids() {
    let configs = vec![
        OptimizationConfig::new(
            "baseline".to_string(),
            OptLevel::O0,
            LtoSetting::Off,
            CodegenUnits::Sixteen,
            PgoSetting::Off,
            TargetCpu::Generic,
            StripSetting::Off,
        ),
        OptimizationConfig::new(
            "opt-o3".to_string(),
            OptLevel::O3,
            LtoSetting::Off,
            CodegenUnits::Sixteen,
            PgoSetting::Off,
            TargetCpu::Generic,
            StripSetting::Off,
        ),
    ];

    let matrix = BuildMatrix::generate(&configs);
    let config_ids = matrix.config_ids();

    assert_eq!(config_ids.len(), 2);
    assert!(config_ids.contains(&"baseline".to_string()));
    assert!(config_ids.contains(&"opt-o3".to_string()));
}

#[test]
fn test_build_matrix_full_generation() {
    // Test with a realistic number of configs (similar to our 80)

    let mut generator = ConfigGenerator::new();
    let configs = generator.generate_matrix();

    let matrix = BuildMatrix::generate(configs);

    // Should have 10 benchmarks × ~80 configs = ~800 jobs
    assert!(
        (700..=900).contains(&matrix.len()),
        "Expected ~800 jobs, got {}",
        matrix.len()
    );

    // Verify all benchmarks are present
    let benchmarks = matrix.benchmarks();
    assert_eq!(benchmarks.len(), 10);

    // Verify each benchmark has the same number of jobs
    for benchmark in &benchmarks {
        let jobs = matrix.jobs_for_benchmark(benchmark);
        assert!(
            jobs.len() >= 70,
            "Benchmark {} should have at least 70 jobs",
            benchmark
        );
    }
}

#[test]
fn test_build_job_id_uniqueness() {
    let configs = vec![
        OptimizationConfig::new(
            "baseline".to_string(),
            OptLevel::O0,
            LtoSetting::Off,
            CodegenUnits::Sixteen,
            PgoSetting::Off,
            TargetCpu::Generic,
            StripSetting::Off,
        ),
        OptimizationConfig::new(
            "opt-o3".to_string(),
            OptLevel::O3,
            LtoSetting::Off,
            CodegenUnits::Sixteen,
            PgoSetting::Off,
            TargetCpu::Generic,
            StripSetting::Off,
        ),
    ];

    let matrix = BuildMatrix::generate(&configs);

    // Collect all job IDs
    let job_ids: std::collections::HashSet<_> =
        matrix.jobs().iter().map(|job| &job.job_id).collect();

    // All job IDs should be unique
    assert_eq!(job_ids.len(), matrix.len());
}
