use harness::config::{
    CodegenUnits, LtoSetting, OptLevel, OptimizationConfig, PgoSetting, StripSetting, TargetCpu,
};
use harness::build_matrix::{BuildJob, BuildMatrix};
use harness::scheduler::{BuildResult, BuildScheduler, JobStatus};

#[test]
fn test_build_result_variants() {
    let success = BuildResult::Success;
    let failure = BuildResult::Failure("error".to_string());
    let pending = BuildResult::Pending;
    let running = BuildResult::Running;

    assert!(matches!(success, BuildResult::Success));
    assert!(matches!(failure, BuildResult::Failure(_)));
    assert!(matches!(pending, BuildResult::Pending));
    assert!(matches!(running, BuildResult::Running));
}

#[test]
fn test_job_status_new() {
    let job = BuildJob::new("fibonacci", "baseline");
    let status = JobStatus::new(job.clone());

    assert_eq!(status.job, job);
    assert!(matches!(status.result, BuildResult::Pending));
    assert_eq!(status.duration_ms, None);
}

#[test]
fn test_job_status_mark_running() {
    let job = BuildJob::new("fibonacci", "baseline");
    let mut status = JobStatus::new(job);

    status.mark_running();

    assert!(matches!(status.result, BuildResult::Running));
}

#[test]
fn test_job_status_mark_success() {
    let job = BuildJob::new("fibonacci", "baseline");
    let mut status = JobStatus::new(job);

    status.mark_success(1234);

    assert!(status.is_success());
    assert_eq!(status.duration_ms, Some(1234));
}

#[test]
fn test_job_status_mark_failure() {
    let job = BuildJob::new("fibonacci", "baseline");
    let mut status = JobStatus::new(job);

    status.mark_failure("compile error".to_string());

    assert!(status.is_failure());
    if let BuildResult::Failure(msg) = &status.result {
        assert_eq!(msg, "compile error");
    }
}

#[test]
fn test_job_status_is_complete() {
    let job = BuildJob::new("fibonacci", "baseline");

    let mut status = JobStatus::new(job.clone());
    assert!(!status.is_complete());

    status.mark_running();
    assert!(!status.is_complete());

    status.mark_success(100);
    assert!(status.is_complete());

    let mut status2 = JobStatus::new(job);
    status2.mark_failure("error".to_string());
    assert!(status2.is_complete());
}

#[test]
fn test_build_scheduler_new() {
    let scheduler = BuildScheduler::new();

    assert_eq!(scheduler.max_parallelism(), 4); // Default num_cpus()
    assert_eq!(scheduler.total_jobs(), 0);
}

#[test]
fn test_build_scheduler_with_parallelism() {
    let scheduler = BuildScheduler::with_parallelism(8);

    assert_eq!(scheduler.max_parallelism(), 8);
}

#[test]
fn test_build_scheduler_with_zero_parallelism() {
    let scheduler = BuildScheduler::with_parallelism(0);

    assert_eq!(scheduler.max_parallelism(), 1); // Minimum is 1
}

#[test]
fn test_build_scheduler_initialize() {
    let configs = vec![
        OptimizationConfig::new(
            "baseline".to_string(),
            OptLevel::O0,
            LtoSetting::Off,
            CodegenUnits::Sixteen,
            PgoSetting::Off,
            TargetCpu::Generic,
            StripSetting::Off,
        ),
        OptimizationConfig::new(
            "opt-o3".to_string(),
            OptLevel::O3,
            LtoSetting::Off,
            CodegenUnits::Sixteen,
            PgoSetting::Off,
            TargetCpu::Generic,
            StripSetting::Off,
        ),
    ];

    let matrix = BuildMatrix::generate(&configs);
    let mut scheduler = BuildScheduler::new();

    scheduler.initialize(&matrix);

    assert_eq!(scheduler.total_jobs(), 20); // 10 benchmarks × 2 configs
    assert_eq!(scheduler.pending_count(), 20);
    assert_eq!(scheduler.running_count(), 0);
    assert_eq!(scheduler.completed_count(), 0);
}

#[test]
fn test_build_scheduler_counts() {
    let configs = vec![OptimizationConfig::new(
        "baseline".to_string(),
        OptLevel::O0,
        LtoSetting::Off,
        CodegenUnits::Sixteen,
        PgoSetting::Off,
        TargetCpu::Generic,
        StripSetting::Off,
    )];

    let matrix = BuildMatrix::generate(&configs);
    let mut scheduler = BuildScheduler::new();
    scheduler.initialize(&matrix);

    // Initially all pending
    assert_eq!(scheduler.pending_count(), 10);
    assert_eq!(scheduler.running_count(), 0);
    assert_eq!(scheduler.success_count(), 0);
    assert_eq!(scheduler.failure_count(), 0);

    // Mark one as running
    if let Some(status) = scheduler.get_status_mut("fibonacci-baseline") {
        status.mark_running();
    }
    assert_eq!(scheduler.pending_count(), 9);
    assert_eq!(scheduler.running_count(), 1);

    // Mark one as success
    if let Some(status) = scheduler.get_status_mut("fibonacci-baseline") {
        status.mark_success(100);
    }
    assert_eq!(scheduler.success_count(), 1);
    assert_eq!(scheduler.running_count(), 0);
    assert_eq!(scheduler.completed_count(), 1);

    // Mark one as failure
    if let Some(status) = scheduler.get_status_mut("ackermann-baseline") {
        status.mark_failure("error".to_string());
    }
    assert_eq!(scheduler.failure_count(), 1);
    assert_eq!(scheduler.completed_count(), 2);
}

#[test]
fn test_build_scheduler_get_status() {
    let configs = vec![OptimizationConfig::new(
        "baseline".to_string(),
        OptLevel::O0,
        LtoSetting::Off,
        CodegenUnits::Sixteen,
        PgoSetting::Off,
        TargetCpu::Generic,
        StripSetting::Off,
    )];

    let matrix = BuildMatrix::generate(&configs);
    let mut scheduler = BuildScheduler::new();
    scheduler.initialize(&matrix);

    let status = scheduler.get_status("fibonacci-baseline");
    assert!(status.is_some());
    assert_eq!(status.unwrap().job.benchmark, "fibonacci");
    assert_eq!(status.unwrap().job.config_id, "baseline");

    let missing = scheduler.get_status("nonexistent");
    assert!(missing.is_none());
}

#[test]
fn test_build_scheduler_is_complete() {
    let configs = vec![OptimizationConfig::new(
        "baseline".to_string(),
        OptLevel::O0,
        LtoSetting::Off,
        CodegenUnits::Sixteen,
        PgoSetting::Off,
        TargetCpu::Generic,
        StripSetting::Off,
    )];

    let matrix = BuildMatrix::generate(&configs);
    let mut scheduler = BuildScheduler::new();
    scheduler.initialize(&matrix);

    assert!(!scheduler.is_complete());

    // Mark all as complete
    for job_id in matrix.jobs().iter().map(|j| j.job_id.clone()) {
        if let Some(status) = scheduler.get_status_mut(&job_id) {
            status.mark_success(100);
        }
    }

    assert!(scheduler.is_complete());
}

#[test]
fn test_build_scheduler_completion_percentage() {
    let configs = vec![OptimizationConfig::new(
        "baseline".to_string(),
        OptLevel::O0,
        LtoSetting::Off,
        CodegenUnits::Sixteen,
        PgoSetting::Off,
        TargetCpu::Generic,
        StripSetting::Off,
    )];

    let matrix = BuildMatrix::generate(&configs);
    let mut scheduler = BuildScheduler::new();
    scheduler.initialize(&matrix);

    let percentage = |s: &BuildScheduler| s.completed_count() as f64 / s.total_jobs() as f64 * 100.0;
    assert_eq!(percentage(&scheduler), 0.0);

    // Complete 5 out of 10
    let jobs: Vec<_> = matrix.jobs().iter().take(5).cloned().collect();
    for job in jobs {
        if let Some(status) = scheduler.get_status_mut(&job.job_id) {
            status.mark_success(100);
        }
    }

    assert_eq!(percentage(&scheduler), 50.0);
}

#[test]
fn test_build_scheduler_average_duration() {
    let configs = vec![OptimizationConfig::new(
        "baseline".to_string(),
        OptLevel::O0,
        LtoSetting::Off,
        CodegenUnits::Sixteen,
        PgoSetting::Off,
        TargetCpu::Generic,
        StripSetting::Off,
    )];

    let matrix = BuildMatrix::generate(&configs);
    let mut scheduler = BuildScheduler::new();
    scheduler.initialize(&matrix);

    // No completions yet
    assert_eq!(scheduler.timed_count(), 0);

    // Complete a few with different durations
    let jobs: Vec<_> = matrix.jobs().iter().take(3).cloned().collect();
    if let Some(status) = scheduler.get_status_mut(&jobs[0].job_id) {
        status.mark_success(100);
    }
    if let Some(status) = scheduler.get_status_mut(&jobs[1].job_id) {
        status.mark_success(200);
    }
    if let Some(status) = scheduler.get_status_mut(&jobs[2].job_id) {
        status.mark_success(300);
    }

    // Average should be (100 + 200 + 300) / 3 = 200
    assert_eq!(
        scheduler.total_duration_ms() as f64 / scheduler.timed_count() as f64,
        200.0
    );
}

#[test]
fn test_build_scheduler_failed_jobs() {
    let configs = vec![OptimizationConfig::new(
        "baseline".to_string(),
        OptLevel::O0,
        LtoSetting::Off,
        CodegenUnits::Sixteen,
        PgoSetting::Off,
        TargetCpu::Generic,
        StripSetting::Off,
    )];

    let matrix = BuildMatrix::generate(&configs);
    let mut scheduler = BuildScheduler::new();
    scheduler.initialize(&matrix);

    assert_eq!(scheduler.failed_jobs().len(), 0);

    // Fail a few jobs
    if let Some(status) = scheduler.get_status_mut("fibonacci-baseline") {
        status.mark_failure("error1".to_string());
    }
    if let Some(status) = scheduler.get_status_mut("ackermann-baseline") {
        status.mark_failure("error2".to_string());
    }

    let failed = scheduler.failed_jobs();
    assert_eq!(failed.len(), 2);
}

#[test]
fn test_build_scheduler_successful_jobs() {
    let configs = vec![OptimizationConfig::new(
        "baseline".to_string(),
        OptLevel::O0,
        LtoSetting::Off,
        CodegenUnits::Sixteen,
        PgoSetting::Off,
        TargetCpu::Generic,
        StripSetting::Off,
    )];

    let matrix = BuildMatrix::generate(&configs);
    let mut scheduler = BuildScheduler::new();
    scheduler.initialize(&matrix);

    assert_eq!(scheduler.successful_jobs().len(), 0);

    // Succeed a few jobs
    if let Some(status) = scheduler.get_status_mut("fibonacci-baseline") {
        status.mark_success(100);
    }
    if let Some(status) = scheduler.get_status_mut("ackermann-baseline") {
        status.mark_success(200);
    }

    let successful = scheduler.successful_jobs();
    assert_eq!(successful.len(), 2);
}
