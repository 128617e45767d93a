use harness::config::{
    CodegenUnits, LtoSetting, OptLevel, OptimizationConfig, PgoSetting, StripSetting, TargetCpu,
};
use harness::generator::ConfigGenerator;
use harness::pathfinder::{PathfinderSelector, PathfinderStrategy};

fn create_test_configs() -> Vec<OptimizationConfig> {
    vec![
        OptimizationConfig::new(
            "baseline".to_string(),
            OptLevel::O0,
            LtoSetting::Off,
            CodegenUnits::Sixteen,
            PgoSetting::Off,
            TargetCpu::Generic,
            StripSetting::Off,
        ),
        OptimizationConfig::new(
            "standard-release".to_string(),
            OptLevel::O3,
            LtoSetting::Off,
            CodegenUnits::Sixteen,
            PgoSetting::Off,
            TargetCpu::Generic,
            StripSetting::Off,
        ),
        OptimizationConfig::new(
            "opt-3".to_string(),
            OptLevel::O3,
            LtoSetting::Off,
            CodegenUnits::Sixteen,
            PgoSetting::Off,
            TargetCpu::Generic,
            StripSetting::Off,
        ),
        OptimizationConfig::new(
            "lto-thin".to_string(),
            OptLevel::O3,
            LtoSetting::Thin,
            CodegenUnits::Sixteen,
            PgoSetting::Off,
            TargetCpu::Generic,
            StripSetting::Off,
        ),
        OptimizationConfig::new(
            "lto-fat".to_string(),
            OptLevel::O3,
            LtoSetting::Fat,
            CodegenUnits::One,
            PgoSetting::Off,
            TargetCpu::Generic,
            StripSetting::Off,
        ),
        OptimizationConfig::new(
            "extreme-speed".to_string(),
            OptLevel::O3,
            LtoSetting::Fat,
            CodegenUnits::One,
            PgoSetting::On,
            TargetCpu::Native,
            StripSetting::Symbols,
        ),
    ]
}

#[test]
fn test_pathfinder_strategy_variants() {
    let base = PathfinderStrategy::BaselineAndExtremes;
    let single = PathfinderStrategy::SingleFactorCoverage;
    let balanced = PathfinderStrategy::Balanced;

    assert!(matches!(base, PathfinderStrategy::BaselineAndExtremes));
    assert!(matches!(single, PathfinderStrategy::SingleFactorCoverage));
    assert!(matches!(balanced, PathfinderStrategy::Balanced));
}

#[test]
fn test_pathfinder_selector_new() {
    let selector = PathfinderSelector::new(PathfinderStrategy::Balanced, 10);

    assert_eq!(selector.strategy(), PathfinderStrategy::Balanced);
    assert_eq!(selector.max_configs(), 10);
}

#[test]
fn test_pathfinder_selector_balanced() {
    let selector = PathfinderSelector::balanced(15);

    assert_eq!(selector.strategy(), PathfinderStrategy::Balanced);
    assert_eq!(selector.max_configs(), 15);
}

#[test]
fn test_pathfinder_selector_default() {
    let selector = PathfinderSelector::default();

    assert_eq!(selector.strategy(), PathfinderStrategy::Balanced);
    assert_eq!(selector.max_configs(), 15);
}

#[test]
fn test_pathfinder_selector_zero_max() {
    let selector = PathfinderSelector::new(PathfinderStrategy::Balanced, 0);

    assert_eq!(selector.max_configs(), 1); // Minimum is 1
}

#[test]
fn test_select_baseline_and_extremes() {
    let configs = create_test_configs();
    let selector = PathfinderSelector::new(PathfinderStrategy::BaselineAndExtremes, 10);

    let selected = selector.select(&configs);

    // Should include baseline, standard-release, and extreme-speed
    assert!(selected.iter().any(|c| c.id == "baseline"));
    assert!(selected.iter().any(|c| c.id == "standard-release"));
    assert!(selected.iter().any(|c| c.id == "extreme-speed"));
}

#[test]
fn test_select_single_factor_coverage() {
    let configs = create_test_configs();
    let selector = PathfinderSelector::new(PathfinderStrategy::SingleFactorCoverage, 10);

    let selected = selector.select(&configs);

    // Should include baseline and standard-release
    assert!(selected.iter().any(|c| c.id == "baseline"));
    assert!(selected.iter().any(|c| c.id == "standard-release"));

    // Should include single-factor variations
    assert!(selected.iter().any(|c| c.id.starts_with("opt-")));
    assert!(selected.iter().any(|c| c.id.starts_with("lto-")));
}

#[test]
fn test_select_balanced() {
    let configs = create_test_configs();
    let selector = PathfinderSelector::balanced(10);

    let selected = selector.select(&configs);

    // Should include baseline and standard-release
    assert!(selected.iter().any(|c| c.id == "baseline"));
    assert!(selected.iter().any(|c| c.id == "standard-release"));

    // Should respect max_configs
    assert!(selected.len() <= 10);
}

#[test]
fn test_select_respects_max_configs() {
    let configs = create_test_configs();
    let selector = PathfinderSelector::balanced(3);

    let selected = selector.select(&configs);

    assert!(selected.len() <= 3);
}

#[test]
fn test_select_with_full_config_set() {

    let mut generator = ConfigGenerator::new();
    let configs = generator.generate_matrix();

    let selector = PathfinderSelector::balanced(15);
    let selected = selector.select(configs);

    // Should select exactly 15 or fewer
    assert!(selected.len() <= 15);
    assert!(!selected.is_empty());

    // Should include baseline and standard-release
    assert!(selected.iter().any(|c| c.id == "baseline"));
    assert!(selected.iter().any(|c| c.id == "standard-release"));
}

#[test]
fn test_select_all_strategies_return_valid_subset() {
    let configs = create_test_configs();

    let strategies = [
        PathfinderStrategy::BaselineAndExtremes,
        PathfinderStrategy::SingleFactorCoverage,
        PathfinderStrategy::Balanced,
    ];

    for strategy in &strategies {
        let selector = PathfinderSelector::new(*strategy, 10);
        let selected = selector.select(&configs);

        assert!(
            !selected.is_empty(),
            "Strategy {:?} returned empty",
            strategy
        );
        assert!(selected.len() <= 10, "Strategy {:?} exceeded max", strategy);
    }
}
