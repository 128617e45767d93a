use harness::build_matrix::BuildJob;
use harness::measurement::{JobResult, Measurement, MeasurementStats, ResultsCollection};

#[test]
fn test_measurement_new() {
    let m = Measurement::new(100, 500, "42".to_string());

    assert_eq!(m.startup_us, 100);
    assert_eq!(m.compute_us, 500);
    assert_eq!(m.total_us, 600);
    assert_eq!(m.result, "42");
}

#[test]
fn test_measurement_from_output() {
    let output = "STARTUP_TIME_US: 100\nCOMPUTE_TIME_US: 500\nRESULT: 42\n";

    let m = Measurement::from_output(output).unwrap();

    assert_eq!(m.startup_us, 100);
    assert_eq!(m.compute_us, 500);
    assert_eq!(m.total_us, 600);
    assert_eq!(m.result, "42");
}

#[test]
fn test_measurement_from_output_with_extra_lines() {
    let output = "Some debug output\nSTARTUP_TIME_US: 200\nMore debug\nCOMPUTE_TIME_US: 1000\nRESULT: 123\nMore output\n";

    let m = Measurement::from_output(output).unwrap();

    assert_eq!(m.startup_us, 200);
    assert_eq!(m.compute_us, 1000);
    assert_eq!(m.total_us, 1200);
    assert_eq!(m.result, "123");
}

#[test]
fn test_measurement_from_output_missing_data() {
    let output = "STARTUP_TIME_US: 100\n";

    let result = Measurement::from_output(output);

    assert!(result.is_err());
}

#[test]
fn test_measurement_stats_from_measurements() {
    let measurements = vec![
        Measurement::new(10, 100, "42".to_string()),
        Measurement::new(10, 110, "42".to_string()),
        Measurement::new(10, 90, "42".to_string()),
    ];

    let stats = MeasurementStats::from_measurements(&measurements).unwrap();

    assert_eq!(stats.count, 3);
    assert_eq!(stats.sum_compute_us as f64 / stats.count as f64, 100.0);
    assert_eq!(
        (stats.median_low_compute_us as f64 + stats.median_high_compute_us as f64) / 2.0,
        100.0
    );
    assert_eq!(stats.min_compute_us, 90);
    assert_eq!(stats.max_compute_us, 110);
    assert_eq!(stats.result, "42");
}

#[test]
fn test_measurement_stats_empty() {
    let measurements: Vec<Measurement> = vec![];

    let result = MeasurementStats::from_measurements(&measurements);

    assert!(result.is_err());
}

#[test]
fn test_measurement_stats_coefficient_of_variation() {
    let measurements = vec![
        Measurement::new(0, 100, "42".to_string()),
        Measurement::new(0, 100, "42".to_string()),
        Measurement::new(0, 100, "42".to_string()),
    ];

    let stats = MeasurementStats::from_measurements(&measurements).unwrap();

    let n = stats.count as u128;
    let spread = n * stats.sum_sq_compute_us - stats.sum_compute_us * stats.sum_compute_us;
    let cv = (spread as f64).sqrt() / stats.sum_compute_us as f64;
    assert_eq!(cv, 0.0); // Perfect stability
}

#[test]
fn test_measurement_stats_is_stable() {
    let stable_measurements = vec![
        Measurement::new(0, 100, "42".to_string()),
        Measurement::new(0, 101, "42".to_string()),
        Measurement::new(0, 99, "42".to_string()),
    ];

    let stats = MeasurementStats::from_measurements(&stable_measurements).unwrap();

    assert!(stats.is_stable(1, 10)); // CV should be < 0.1
}

#[test]
fn test_job_result_new() {
    let job = BuildJob::new("fibonacci", "baseline");
    let result = JobResult::new(job.clone());

    assert_eq!(result.job, job);
    assert_eq!(result.measurement_count(), 0);
    assert!(result.stats.is_none());
}

#[test]
fn test_job_result_add_measurement() {
    let job = BuildJob::new("fibonacci", "baseline");
    let mut result = JobResult::new(job);

    result.add_measurement(Measurement::new(10, 100, "42".to_string()));

    assert_eq!(result.measurement_count(), 1);
    assert!(result.stats.is_some());
}

#[test]
fn test_job_result_has_sufficient_measurements() {
    let job = BuildJob::new("fibonacci", "baseline");
    let mut result = JobResult::new(job);

    assert!(!result.has_sufficient_measurements(3));

    result.add_measurement(Measurement::new(10, 100, "42".to_string()));
    result.add_measurement(Measurement::new(10, 100, "42".to_string()));
    result.add_measurement(Measurement::new(10, 100, "42".to_string()));

    assert!(result.has_sufficient_measurements(3));
}

#[test]
fn test_results_collection_new() {
    let collection = ResultsCollection::new();

    assert_eq!(collection.len(), 0);
    assert!(collection.is_empty());
}

#[test]
fn test_results_collection_add_result() {
    let mut collection = ResultsCollection::new();
    let job = BuildJob::new("fibonacci", "baseline");
    let result = JobResult::new(job);

    collection.add_result(result);

    assert_eq!(collection.len(), 1);
    assert!(!collection.is_empty());
}

#[test]
fn test_results_collection_get_result() {
    let mut collection = ResultsCollection::new();
    let job = BuildJob::new("fibonacci", "baseline");
    let result = JobResult::new(job);

    collection.add_result(result);

    let found = collection.get_result("fibonacci-baseline");
    assert!(found.is_some());
    assert_eq!(found.unwrap().job.job_id, "fibonacci-baseline");

    let not_found = collection.get_result("nonexistent");
    assert!(not_found.is_none());
}

#[test]
fn test_results_collection_total_measurements() {
    let mut collection = ResultsCollection::new();

    let job1 = BuildJob::new("fibonacci", "baseline");
    let mut result1 = JobResult::new(job1);
    result1.add_measurement(Measurement::new(10, 100, "42".to_string()));
    result1.add_measurement(Measurement::new(10, 100, "42".to_string()));

    let job2 = BuildJob::new("ackermann", "baseline");
    let mut result2 = JobResult::new(job2);
    result2.add_measurement(Measurement::new(10, 200, "8189".to_string()));
    result2.add_measurement(Measurement::new(10, 200, "8189".to_string()));
    result2.add_measurement(Measurement::new(10, 200, "8189".to_string()));

    collection.add_result(result1);
    collection.add_result(result2);

    assert_eq!(collection.total_measurements(), 5);
}
