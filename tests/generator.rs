use harness::config::{LtoSetting, OptLevel, PgoSetting};
use harness::generator::ConfigGenerator;

#[test]
fn test_generator_creates_configs() {
    let mut gen = ConfigGenerator::new();
    let configs = gen.generate_matrix();
    assert!(!configs.is_empty());
}

#[test]
fn test_generator_target_count() {
    let mut gen = ConfigGenerator::new();
    gen.generate_matrix();
    let count = gen.count();

    // Should generate approximately 100 configs
    // Allow some flexibility: 80-120 configs
    assert!(
        (80..=120).contains(&count),
        "Generated {} configs, expected 80-120",
        count
    );
}

#[test]
fn test_baseline_configs_included() {
    let mut gen = ConfigGenerator::new();
    gen.generate_matrix();

    let has_baseline = gen.configs().iter().any(|c| c.id == "baseline");
    let has_standard = gen.configs().iter().any(|c| c.id == "standard-release");

    assert!(has_baseline, "Should include baseline config");
    assert!(has_standard, "Should include standard-release config");
}

#[test]
fn test_all_config_ids_unique() {
    let mut gen = ConfigGenerator::new();
    gen.generate_matrix();

    let mut ids: Vec<_> = gen.configs().iter().map(|c| &c.id).collect();
    let count_before = ids.len();
    ids.sort();
    ids.dedup();

    assert_eq!(ids.len(), count_before, "All config IDs should be unique");
}

#[test]
fn test_extreme_configs_included() {
    let mut gen = ConfigGenerator::new();
    gen.generate_matrix();

    let has_min = gen.configs().iter().any(|c| c.id == "min-opt");
    let has_max = gen.configs().iter().any(|c| c.id == "max-opt");

    assert!(has_min, "Should include min-opt config");
    assert!(has_max, "Should include max-opt config");
}

#[test]
fn test_pgo_variations_included() {
    let mut gen = ConfigGenerator::new();
    gen.generate_matrix();

    let pgo_count = gen
        .configs()
        .iter()
        .filter(|c| c.pgo == PgoSetting::On)
        .count();

    assert!(pgo_count > 0, "Should include PGO configurations");
}

#[test]
fn test_size_optimizations_included() {
    let mut gen = ConfigGenerator::new();
    gen.generate_matrix();

    let size_configs = gen
        .configs()
        .iter()
        .filter(|c| c.opt_level == OptLevel::Os || c.opt_level == OptLevel::Oz)
        .count();

    assert!(size_configs > 0, "Should include size optimization configs");
}

#[test]
fn test_lto_variations_included() {
    let mut gen = ConfigGenerator::new();
    gen.generate_matrix();

    let thin_lto = gen
        .configs()
        .iter()
        .filter(|c| c.lto == LtoSetting::Thin)
        .count();
    let fat_lto = gen
        .configs()
        .iter()
        .filter(|c| c.lto == LtoSetting::Fat)
        .count();

    assert!(thin_lto > 0, "Should include thin LTO configs");
    assert!(fat_lto > 0, "Should include fat LTO configs");
}
