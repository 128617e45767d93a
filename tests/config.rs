use harness::config::{
    CodegenUnits, LtoSetting, OptLevel, OptimizationConfig, PgoSetting, StripSetting, TargetCpu,
};

#[test]
fn test_opt_level_to_profile_string() {
    assert_eq!(OptLevel::O0.to_profile_string(), "0");
    assert_eq!(OptLevel::O1.to_profile_string(), "1");
    assert_eq!(OptLevel::O2.to_profile_string(), "2");
    assert_eq!(OptLevel::O3.to_profile_string(), "3");
    assert_eq!(OptLevel::Os.to_profile_string(), "s");
    assert_eq!(OptLevel::Oz.to_profile_string(), "z");
}

#[test]
fn test_lto_to_profile_string() {
    assert_eq!(LtoSetting::Off.to_profile_string(), "false");
    assert_eq!(LtoSetting::Thin.to_profile_string(), "\"thin\"");
    assert_eq!(LtoSetting::Fat.to_profile_string(), "\"fat\"");
}

#[test]
fn test_codegen_units_value() {
    assert_eq!(CodegenUnits::One.value(), 1);
    assert_eq!(CodegenUnits::Four.value(), 4);
    assert_eq!(CodegenUnits::Sixteen.value(), 16);
    assert_eq!(CodegenUnits::TwoFiftySix.value(), 256);
}

#[test]
fn test_target_cpu_to_rustc_flag() {
    assert_eq!(TargetCpu::Generic.to_rustc_flag(), "generic");
    assert_eq!(TargetCpu::Native.to_rustc_flag(), "native");
    assert_eq!(TargetCpu::Specific.to_rustc_flag(), "haswell");
}

#[test]
fn test_strip_to_profile_string() {
    assert_eq!(StripSetting::Off.to_profile_string(), "false");
    assert_eq!(StripSetting::Symbols.to_profile_string(), "\"symbols\"");
    assert_eq!(StripSetting::Debuginfo.to_profile_string(), "\"debuginfo\"");
}

#[test]
fn test_baseline_config() {
    let config = OptimizationConfig::baseline();
    assert_eq!(config.id, "baseline");
    assert_eq!(config.opt_level, OptLevel::O0);
    assert_eq!(config.lto, LtoSetting::Off);
    assert_eq!(config.pgo, PgoSetting::Off);
}

#[test]
fn test_standard_release_config() {
    let config = OptimizationConfig::standard_release();
    assert_eq!(config.id, "standard-release");
    assert_eq!(config.opt_level, OptLevel::O3);
    assert_eq!(config.lto, LtoSetting::Off);
    assert_eq!(config.codegen_units, CodegenUnits::Sixteen);
}

#[test]
fn test_to_cargo_profile() {
    let config = OptimizationConfig::standard_release();
    let profile = config.to_cargo_profile("test-profile");

    assert!(profile.contains("[profile.test-profile]"));
    assert!(profile.contains("opt-level = 3"));
    assert!(profile.contains("lto = false"));
    assert!(profile.contains("codegen-units = 16"));
}

#[test]
fn test_new_config() {
    let config = OptimizationConfig::new(
        "custom".to_string(),
        OptLevel::O3,
        LtoSetting::Fat,
        CodegenUnits::One,
        PgoSetting::On,
        TargetCpu::Native,
        StripSetting::Symbols,
    );

    assert_eq!(config.id, "custom");
    assert_eq!(config.opt_level, OptLevel::O3);
    assert_eq!(config.lto, LtoSetting::Fat);
    assert_eq!(config.codegen_units, CodegenUnits::One);
    assert_eq!(config.pgo, PgoSetting::On);
    assert_eq!(config.target_cpu, TargetCpu::Native);
    assert_eq!(config.strip, StripSetting::Symbols);
}
