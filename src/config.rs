//! The six categorical optimization factors and the configuration record.

use vstd::prelude::*;
use vstd::string::*;

verus! {

/// Optimization level.
#[derive(Debug, Clone, Copy, PartialEq, Eq, Structural)]
pub enum OptLevel {
    /// No optimization (debug)
    O0,
    /// Basic optimization
    O1,
    /// Moderate optimization
    O2,
    /// Aggressive optimization
    O3,
    /// Size optimization
    Os,
    /// Aggressive size optimization
    Oz,
}

/// Text of an optimization level in a build profile.
pub open spec fn opt_level_text(o: OptLevel) -> Seq<char> {
    match o {
        OptLevel::O0 => "0"@,
        OptLevel::O1 => "1"@,
        OptLevel::O2 => "2"@,
        OptLevel::O3 => "3"@,
        OptLevel::Os => "s"@,
        OptLevel::Oz => "z"@,
    }
}

impl OptLevel {
    /// Build-profile value of this level.
    pub fn to_profile_string(&self) -> (r: &'static str)
        ensures
            r@ == opt_level_text(*self),
    {
        match self {
            OptLevel::O0 => "0",
            OptLevel::O1 => "1",
            OptLevel::O2 => "2",
            OptLevel::O3 => "3",
            OptLevel::Os => "s",
            OptLevel::Oz => "z",
        }
    }
}

/// Link-time optimization mode.
#[derive(Debug, Clone, Copy, PartialEq, Eq, Structural)]
pub enum LtoSetting {
    /// No LTO
    Off,
    /// Thin LTO
    Thin,
    /// Fat LTO
    Fat,
}

/// Text of an LTO mode in a build profile.
pub open spec fn lto_text(l: LtoSetting) -> Seq<char> {
    match l {
        LtoSetting::Off => "false"@,
        LtoSetting::Thin => "\"thin\""@,
        LtoSetting::Fat => "\"fat\""@,
    }
}

impl LtoSetting {
    /// Build-profile value of this mode.
    pub fn to_profile_string(&self) -> (r: &'static str)
        ensures
            r@ == lto_text(*self),
    {
        match self {
            LtoSetting::Off => "false",
            LtoSetting::Thin => "\"thin\"",
            LtoSetting::Fat => "\"fat\"",
        }
    }
}

/// Number of code-generation units.
#[derive(Debug, Clone, Copy, PartialEq, Eq, Structural)]
pub enum CodegenUnits {
    /// One unit: most optimization, no parallel codegen
    One,
    /// Four units
    Four,
    /// Sixteen units (the default)
    Sixteen,
    /// 256 units: fastest compilation
    TwoFiftySix,
}

/// Numeric count of a codegen-unit setting.
pub open spec fn units_value(u: CodegenUnits) -> u32 {
    match u {
        CodegenUnits::One => 1,
        CodegenUnits::Four => 4,
        CodegenUnits::Sixteen => 16,
        CodegenUnits::TwoFiftySix => 256,
    }
}

/// Decimal text of a codegen-unit count.
pub open spec fn units_text(u: CodegenUnits) -> Seq<char> {
    match u {
        CodegenUnits::One => "1"@,
        CodegenUnits::Four => "4"@,
        CodegenUnits::Sixteen => "16"@,
        CodegenUnits::TwoFiftySix => "256"@,
    }
}

impl CodegenUnits {
    /// The unit count.
    pub fn value(&self) -> (r: u32)
        ensures
            r == units_value(*self),
    {
        match self {
            CodegenUnits::One => 1,
            CodegenUnits::Four => 4,
            CodegenUnits::Sixteen => 16,
            CodegenUnits::TwoFiftySix => 256,
        }
    }

    /// The unit count in decimal.
    pub fn value_text(&self) -> (r: &'static str)
        ensures
            r@ == units_text(*self),
    {
        match self {
            CodegenUnits::One => "1",
            CodegenUnits::Four => "4",
            CodegenUnits::Sixteen => "16",
            CodegenUnits::TwoFiftySix => "256",
        }
    }
}

/// Profile-guided optimization flag.
#[derive(Debug, Clone, Copy, PartialEq, Eq, Structural)]
pub enum PgoSetting {
    /// No PGO
    Off,
    /// PGO enabled
    On,
}

/// Target CPU mode.
#[derive(Debug, Clone, Copy, PartialEq, Eq, Structural)]
pub enum TargetCpu {
    /// Portable code
    Generic,
    /// The host CPU
    Native,
    /// One named microarchitecture
    Specific,
}

/// Compiler flag value of a target CPU mode.
pub open spec fn cpu_text(t: TargetCpu) -> Seq<char> {
    match t {
        TargetCpu::Generic => "generic"@,
        TargetCpu::Native => "native"@,
        TargetCpu::Specific => "haswell"@,
    }
}

impl TargetCpu {
    /// Value for the compiler's target-cpu flag.
    pub fn to_rustc_flag(&self) -> (r: &'static str)
        ensures
            r@ == cpu_text(*self),
    {
        match self {
            TargetCpu::Generic => "generic",
            TargetCpu::Native => "native",
            TargetCpu::Specific => "haswell",
        }
    }
}

/// Symbol-stripping mode.
#[derive(Debug, Clone, Copy, PartialEq, Eq, Structural)]
pub enum StripSetting {
    /// No stripping
    Off,
    /// Strip symbols
    Symbols,
    /// Strip debug info
    Debuginfo,
}

/// Text of a stripping mode in a build profile.
pub open spec fn strip_text(s: StripSetting) -> Seq<char> {
    match s {
        StripSetting::Off => "false"@,
        StripSetting::Symbols => "\"symbols\""@,
        StripSetting::Debuginfo => "\"debuginfo\""@,
    }
}

impl StripSetting {
    /// Build-profile value of this mode.
    pub fn to_profile_string(&self) -> (r: &'static str)
        ensures
            r@ == strip_text(*self),
    {
        match self {
            StripSetting::Off => "false",
            StripSetting::Symbols => "\"symbols\"",
            StripSetting::Debuginfo => "\"debuginfo\"",
        }
    }
}

/// A named optimization configuration.
#[derive(Debug, Clone)]
pub struct OptimizationConfig {
    /// Identifier, unique within one generated set
    pub id: String,
    /// Optimization level
    pub opt_level: OptLevel,
    /// LTO mode
    pub lto: LtoSetting,
    /// Codegen units
    pub codegen_units: CodegenUnits,
    /// PGO flag
    pub pgo: PgoSetting,
    /// Target CPU mode
    pub target_cpu: TargetCpu,
    /// Stripping mode
    pub strip: StripSetting,
}

/// Two configurations agree on all six factors.
pub open spec fn same_factors(a: OptimizationConfig, b: OptimizationConfig) -> bool {
    &&& a.opt_level == b.opt_level
    &&& a.lto == b.lto
    &&& a.codegen_units == b.codegen_units
    &&& a.pgo == b.pgo
    &&& a.target_cpu == b.target_cpu
    &&& a.strip == b.strip
}

impl PartialEq for OptimizationConfig {
    fn eq(&self, o: &OptimizationConfig) -> (r: bool) {
        self.id == o.id && self.opt_level == o.opt_level && self.lto == o.lto
            && self.codegen_units == o.codegen_units && self.pgo == o.pgo
            && self.target_cpu == o.target_cpu && self.strip == o.strip
    }
}

impl vstd::std_specs::cmp::PartialEqSpecImpl for OptimizationConfig {
    open spec fn obeys_eq_spec() -> bool {
        true
    }

    open spec fn eq_spec(&self, o: &OptimizationConfig) -> bool {
        self.id@ == o.id@ && same_factors(*self, *o)
    }
}

impl OptimizationConfig {
    /// Builds a configuration from its identifier and six factors.
    pub fn new(
        id: String,
        opt_level: OptLevel,
        lto: LtoSetting,
        codegen_units: CodegenUnits,
        pgo: PgoSetting,
        target_cpu: TargetCpu,
        strip: StripSetting,
    ) -> (r: Self)
        ensures
            r.id == id,
            r.opt_level == opt_level,
            r.lto == lto,
            r.codegen_units == codegen_units,
            r.pgo == pgo,
            r.target_cpu == target_cpu,
            r.strip == strip,
    {
        OptimizationConfig { id, opt_level, lto, codegen_units, pgo, target_cpu, strip }
    }

    /// The all-defaults debug configuration.
    pub fn baseline() -> (r: Self)
        ensures
            r.id@ == "baseline"@,
            r.opt_level == OptLevel::O0,
            r.lto == LtoSetting::Off,
            r.codegen_units == CodegenUnits::Sixteen,
            r.pgo == PgoSetting::Off,
            r.target_cpu == TargetCpu::Generic,
            r.strip == StripSetting::Off,
    {
        OptimizationConfig {
            id: String::from_str("baseline"),
            opt_level: OptLevel::O0,
            lto: LtoSetting::Off,
            codegen_units: CodegenUnits::Sixteen,
            pgo: PgoSetting::Off,
            target_cpu: TargetCpu::Generic,
            strip: StripSetting::Off,
        }
    }

    /// The standard release configuration.
    pub fn standard_release() -> (r: Self)
        ensures
            r.id@ == "standard-release"@,
            r.opt_level == OptLevel::O3,
            r.lto == LtoSetting::Off,
            r.codegen_units == CodegenUnits::Sixteen,
            r.pgo == PgoSetting::Off,
            r.target_cpu == TargetCpu::Generic,
            r.strip == StripSetting::Off,
    {
        OptimizationConfig {
            id: String::from_str("standard-release"),
            opt_level: OptLevel::O3,
            lto: LtoSetting::Off,
            codegen_units: CodegenUnits::Sixteen,
            pgo: PgoSetting::Off,
            target_cpu: TargetCpu::Generic,
            strip: StripSetting::Off,
        }
    }

    /// The build-profile section for this configuration under `profile_name`.
    pub fn to_cargo_profile(&self, profile_name: &str) -> (r: String)
        ensures
            r@ == "[profile."@ + profile_name@ + "]\nopt-level = "@ + opt_level_text(
                self.opt_level,
            ) + "\nlto = "@ + lto_text(self.lto) + "\ncodegen-units = "@ + units_text(
                self.codegen_units,
            ) + "\nstrip = "@ + strip_text(self.strip) + "\n"@,
    {
        let mut r = String::from_str("[profile.");
        r.append(profile_name);
        r.append("]\nopt-level = ");
        r.append(self.opt_level.to_profile_string());
        r.append("\nlto = ");
        r.append(self.lto.to_profile_string());
        r.append("\ncodegen-units = ");
        r.append(self.codegen_units.value_text());
        r.append("\nstrip = ");
        r.append(self.strip.to_profile_string());
        r.append("\n");
        r
    }
}

} // verus!
