//! Fractional-factorial enumeration of optimization configurations.
//!
//! The matrix is built tier by tier, never as the full cross product of the
//! six factors; each tier is described by a spec table that the code appends.

use crate::config::{
    CodegenUnits, LtoSetting, OptLevel, OptimizationConfig, PgoSetting, StripSetting, TargetCpu,
};
use vstd::prelude::*;
use vstd::string::*;

verus! {

/// A configuration as plain values: identifier characters and six factors.
pub struct ConfigView {
    pub id: Seq<char>,
    pub opt_level: OptLevel,
    pub lto: LtoSetting,
    pub codegen_units: CodegenUnits,
    pub pgo: PgoSetting,
    pub target_cpu: TargetCpu,
    pub strip: StripSetting,
}

impl View for OptimizationConfig {
    type V = ConfigView;

    open spec fn view(&self) -> ConfigView {
        ConfigView {
            id: self.id@,
            opt_level: self.opt_level,
            lto: self.lto,
            codegen_units: self.codegen_units,
            pgo: self.pgo,
            target_cpu: self.target_cpu,
            strip: self.strip,
        }
    }
}

/// The plain-value views of a sequence of configurations.
pub open spec fn views_of(s: Seq<OptimizationConfig>) -> Seq<ConfigView> {
    s.map_values(|c: OptimizationConfig| c@)
}

/// Shorthand for one table row.
pub open spec fn row(
    id: Seq<char>,
    opt_level: OptLevel,
    lto: LtoSetting,
    codegen_units: CodegenUnits,
    pgo: PgoSetting,
    target_cpu: TargetCpu,
    strip: StripSetting,
) -> ConfigView {
    ConfigView { id, opt_level, lto, codegen_units, pgo, target_cpu, strip }
}

/// The two reference points: debug defaults and standard release.
pub open spec fn baseline_tier() -> Seq<ConfigView> {
    seq![
        row("baseline"@, OptLevel::O0, LtoSetting::Off, CodegenUnits::Sixteen, PgoSetting::Off, TargetCpu::Generic, StripSetting::Off),
        row("standard-release"@, OptLevel::O3, LtoSetting::Off, CodegenUnits::Sixteen, PgoSetting::Off, TargetCpu::Generic, StripSetting::Off),
    ]
}

/// One factor moved away from the standard release at a time.
pub open spec fn single_factor_tier() -> Seq<ConfigView> {
    seq![
        row("opt-0"@, OptLevel::O0, LtoSetting::Off, CodegenUnits::Sixteen, PgoSetting::Off, TargetCpu::Generic, StripSetting::Off),
        row("opt-1"@, OptLevel::O1, LtoSetting::Off, CodegenUnits::Sixteen, PgoSetting::Off, TargetCpu::Generic, StripSetting::Off),
        row("opt-2"@, OptLevel::O2, LtoSetting::Off, CodegenUnits::Sixteen, PgoSetting::Off, TargetCpu::Generic, StripSetting::Off),
        row("opt-s"@, OptLevel::Os, LtoSetting::Off, CodegenUnits::Sixteen, PgoSetting::Off, TargetCpu::Generic, StripSetting::Off),
        row("opt-z"@, OptLevel::Oz, LtoSetting::Off, CodegenUnits::Sixteen, PgoSetting::Off, TargetCpu::Generic, StripSetting::Off),
        row("lto-thin"@, OptLevel::O3, LtoSetting::Thin, CodegenUnits::Sixteen, PgoSetting::Off, TargetCpu::Generic, StripSetting::Off),
        row("lto-fat"@, OptLevel::O3, LtoSetting::Fat, CodegenUnits::Sixteen, PgoSetting::Off, TargetCpu::Generic, StripSetting::Off),
        row("codegen-1"@, OptLevel::O3, LtoSetting::Off, CodegenUnits::One, PgoSetting::Off, TargetCpu::Generic, StripSetting::Off),
        row("codegen-4"@, OptLevel::O3, LtoSetting::Off, CodegenUnits::Four, PgoSetting::Off, TargetCpu::Generic, StripSetting::Off),
        row("codegen-256"@, OptLevel::O3, LtoSetting::Off, CodegenUnits::TwoFiftySix, PgoSetting::Off, TargetCpu::Generic, StripSetting::Off),
        row("cpu-native"@, OptLevel::O3, LtoSetting::Off, CodegenUnits::Sixteen, PgoSetting::Off, TargetCpu::Native, StripSetting::Off),
        row("cpu-specific"@, OptLevel::O3, LtoSetting::Off, CodegenUnits::Sixteen, PgoSetting::Off, TargetCpu::Specific, StripSetting::Off),
        row("strip-symbols"@, OptLevel::O3, LtoSetting::Off, CodegenUnits::Sixteen, PgoSetting::Off, TargetCpu::Generic, StripSetting::Symbols),
        row("strip-debuginfo"@, OptLevel::O3, LtoSetting::Off, CodegenUnits::Sixteen, PgoSetting::Off, TargetCpu::Generic, StripSetting::Debuginfo),
    ]
}

/// LTO crossed with optimization level, then with codegen units.
pub open spec fn lto_tier() -> Seq<ConfigView> {
    seq![
        row("lto-thin-opt2"@, OptLevel::O2, LtoSetting::Thin, CodegenUnits::Sixteen, PgoSetting::Off, TargetCpu::Generic, StripSetting::Off),
        row("lto-fat-opt2"@, OptLevel::O2, LtoSetting::Fat, CodegenUnits::Sixteen, PgoSetting::Off, TargetCpu::Generic, StripSetting::Off),
        row("lto-thin-opt3"@, OptLevel::O3, LtoSetting::Thin, CodegenUnits::Sixteen, PgoSetting::Off, TargetCpu::Generic, StripSetting::Off),
        row("lto-fat-opt3"@, OptLevel::O3, LtoSetting::Fat, CodegenUnits::Sixteen, PgoSetting::Off, TargetCpu::Generic, StripSetting::Off),
        row("lto-thin-cg1"@, OptLevel::O3, LtoSetting::Thin, CodegenUnits::One, PgoSetting::Off, TargetCpu::Generic, StripSetting::Off),
        row("lto-thin-cg4"@, OptLevel::O3, LtoSetting::Thin, CodegenUnits::Four, PgoSetting::Off, TargetCpu::Generic, StripSetting::Off),
        row("lto-fat-cg1"@, OptLevel::O3, LtoSetting::Fat, CodegenUnits::One, PgoSetting::Off, TargetCpu::Generic, StripSetting::Off),
        row("lto-fat-cg4"@, OptLevel::O3, LtoSetting::Fat, CodegenUnits::Four, PgoSetting::Off, TargetCpu::Generic, StripSetting::Off),
    ]
}

/// Size-oriented levels with LTO or stripping.
pub open spec fn size_tier() -> Seq<ConfigView> {
    seq![
        row("size-s-lto"@, OptLevel::Os, LtoSetting::Fat, CodegenUnits::One, PgoSetting::Off, TargetCpu::Generic, StripSetting::Symbols),
        row("size-s-strip"@, OptLevel::Os, LtoSetting::Thin, CodegenUnits::Sixteen, PgoSetting::Off, TargetCpu::Generic, StripSetting::Debuginfo),
        row("size-z-lto"@, OptLevel::Oz, LtoSetting::Fat, CodegenUnits::One, PgoSetting::Off, TargetCpu::Generic, StripSetting::Symbols),
        row("size-z-strip"@, OptLevel::Oz, LtoSetting::Thin, CodegenUnits::Sixteen, PgoSetting::Off, TargetCpu::Generic, StripSetting::Debuginfo),
        row("size-ultra"@, OptLevel::Oz, LtoSetting::Fat, CodegenUnits::One, PgoSetting::Off, TargetCpu::Generic, StripSetting::Debuginfo),
    ]
}

/// Maximum optimization with LTO and the native CPU.
pub open spec fn performance_tier() -> Seq<ConfigView> {
    seq![
        row("perf-ultra"@, OptLevel::O3, LtoSetting::Fat, CodegenUnits::One, PgoSetting::Off, TargetCpu::Native, StripSetting::Symbols),
        row("perf-native-lto-thin"@, OptLevel::O3, LtoSetting::Thin, CodegenUnits::One, PgoSetting::Off, TargetCpu::Native, StripSetting::Off),
        row("perf-native-lto-fat"@, OptLevel::O3, LtoSetting::Fat, CodegenUnits::One, PgoSetting::Off, TargetCpu::Native, StripSetting::Off),
        row("perf-balanced"@, OptLevel::O3, LtoSetting::Thin, CodegenUnits::Four, PgoSetting::Off, TargetCpu::Generic, StripSetting::Off),
    ]
}

/// Profile-guided optimization with level, LTO and native CPU.
pub open spec fn pgo_tier() -> Seq<ConfigView> {
    seq![
        row("pgo-opt2"@, OptLevel::O2, LtoSetting::Off, CodegenUnits::Sixteen, PgoSetting::On, TargetCpu::Generic, StripSetting::Off),
        row("pgo-opt3"@, OptLevel::O3, LtoSetting::Off, CodegenUnits::Sixteen, PgoSetting::On, TargetCpu::Generic, StripSetting::Off),
        row("pgo-lto-thin"@, OptLevel::O3, LtoSetting::Thin, CodegenUnits::Sixteen, PgoSetting::On, TargetCpu::Generic, StripSetting::Off),
        row("pgo-lto-fat"@, OptLevel::O3, LtoSetting::Fat, CodegenUnits::Sixteen, PgoSetting::On, TargetCpu::Generic, StripSetting::Off),
        row("pgo-native"@, OptLevel::O3, LtoSetting::Fat, CodegenUnits::One, PgoSetting::On, TargetCpu::Native, StripSetting::Symbols),
    ]
}

/// Codegen units with optimization level, then with stripping.
pub open spec fn codegen_tier() -> Seq<ConfigView> {
    seq![
        row("cg1-opt2"@, OptLevel::O2, LtoSetting::Off, CodegenUnits::One, PgoSetting::Off, TargetCpu::Generic, StripSetting::Off),
        row("cg1-opt3"@, OptLevel::O3, LtoSetting::Off, CodegenUnits::One, PgoSetting::Off, TargetCpu::Generic, StripSetting::Off),
        row("cg4-opt2"@, OptLevel::O2, LtoSetting::Off, CodegenUnits::Four, PgoSetting::Off, TargetCpu::Generic, StripSetting::Off),
        row("cg4-opt3"@, OptLevel::O3, LtoSetting::Off, CodegenUnits::Four, PgoSetting::Off, TargetCpu::Generic, StripSetting::Off),
        row("cg16-opt2"@, OptLevel::O2, LtoSetting::Off, CodegenUnits::Sixteen, PgoSetting::Off, TargetCpu::Generic, StripSetting::Off),
        row("cg16-opt3"@, OptLevel::O3, LtoSetting::Off, CodegenUnits::Sixteen, PgoSetting::Off, TargetCpu::Generic, StripSetting::Off),
        row("cg1-strip"@, OptLevel::O3, LtoSetting::Thin, CodegenUnits::One, PgoSetting::Off, TargetCpu::Generic, StripSetting::Symbols),
        row("cg16-strip"@, OptLevel::O3, LtoSetting::Thin, CodegenUnits::Sixteen, PgoSetting::Off, TargetCpu::Generic, StripSetting::Symbols),
    ]
}

/// Target CPU with optimization level, then with codegen units.
pub open spec fn cpu_tier() -> Seq<ConfigView> {
    seq![
        row("cpu-native-opt2"@, OptLevel::O2, LtoSetting::Off, CodegenUnits::Sixteen, PgoSetting::Off, TargetCpu::Native, StripSetting::Off),
        row("cpu-native-opt3"@, OptLevel::O3, LtoSetting::Off, CodegenUnits::Sixteen, PgoSetting::Off, TargetCpu::Native, StripSetting::Off),
        row("cpu-specific-opt2"@, OptLevel::O2, LtoSetting::Off, CodegenUnits::Sixteen, PgoSetting::Off, TargetCpu::Specific, StripSetting::Off),
        row("cpu-specific-opt3"@, OptLevel::O3, LtoSetting::Off, CodegenUnits::Sixteen, PgoSetting::Off, TargetCpu::Specific, StripSetting::Off),
        row("cpu-native-cg1"@, OptLevel::O3, LtoSetting::Off, CodegenUnits::One, PgoSetting::Off, TargetCpu::Native, StripSetting::Off),
        row("cpu-native-cg4"@, OptLevel::O3, LtoSetting::Off, CodegenUnits::Four, PgoSetting::Off, TargetCpu::Native, StripSetting::Off),
    ]
}

/// Stripping with optimization level, then with LTO.
pub open spec fn strip_tier() -> Seq<ConfigView> {
    seq![
        row("strip-symbols-opt2"@, OptLevel::O2, LtoSetting::Off, CodegenUnits::Sixteen, PgoSetting::Off, TargetCpu::Generic, StripSetting::Symbols),
        row("strip-symbols-opt3"@, OptLevel::O3, LtoSetting::Off, CodegenUnits::Sixteen, PgoSetting::Off, TargetCpu::Generic, StripSetting::Symbols),
        row("strip-symbols-opts"@, OptLevel::Os, LtoSetting::Off, CodegenUnits::Sixteen, PgoSetting::Off, TargetCpu::Generic, StripSetting::Symbols),
        row("strip-debuginfo-opt2"@, OptLevel::O2, LtoSetting::Off, CodegenUnits::Sixteen, PgoSetting::Off, TargetCpu::Generic, StripSetting::Debuginfo),
        row("strip-debuginfo-opt3"@, OptLevel::O3, LtoSetting::Off, CodegenUnits::Sixteen, PgoSetting::Off, TargetCpu::Generic, StripSetting::Debuginfo),
        row("strip-debuginfo-opts"@, OptLevel::Os, LtoSetting::Off, CodegenUnits::Sixteen, PgoSetting::Off, TargetCpu::Generic, StripSetting::Debuginfo),
        row("strip-symbols-lto"@, OptLevel::O3, LtoSetting::Fat, CodegenUnits::One, PgoSetting::Off, TargetCpu::Generic, StripSetting::Symbols),
        row("strip-debuginfo-lto"@, OptLevel::O3, LtoSetting::Fat, CodegenUnits::One, PgoSetting::Off, TargetCpu::Generic, StripSetting::Debuginfo),
    ]
}

/// Edge points: minimum, maximum, and fastest compilation.
pub open spec fn extreme_tier() -> Seq<ConfigView> {
    seq![
        row("min-opt"@, OptLevel::O0, LtoSetting::Off, CodegenUnits::TwoFiftySix, PgoSetting::Off, TargetCpu::Generic, StripSetting::Off),
        row("max-opt"@, OptLevel::O3, LtoSetting::Fat, CodegenUnits::One, PgoSetting::On, TargetCpu::Native, StripSetting::Debuginfo),
        row("fast-compile"@, OptLevel::O1, LtoSetting::Off, CodegenUnits::TwoFiftySix, PgoSetting::Off, TargetCpu::Generic, StripSetting::Off),
    ]
}

/// Remaining two-factor interactions and a few high-value combinations.
pub open spec fn interaction_tier() -> Seq<ConfigView> {
    seq![
        row("opt1-strip-symbols"@, OptLevel::O1, LtoSetting::Off, CodegenUnits::Sixteen, PgoSetting::Off, TargetCpu::Generic, StripSetting::Symbols),
        row("opt1-strip-debuginfo"@, OptLevel::O1, LtoSetting::Off, CodegenUnits::Sixteen, PgoSetting::Off, TargetCpu::Generic, StripSetting::Debuginfo),
        row("opt2-strip-symbols"@, OptLevel::O2, LtoSetting::Off, CodegenUnits::Sixteen, PgoSetting::Off, TargetCpu::Generic, StripSetting::Symbols),
        row("opt2-strip-debuginfo"@, OptLevel::O2, LtoSetting::Off, CodegenUnits::Sixteen, PgoSetting::Off, TargetCpu::Generic, StripSetting::Debuginfo),
        row("cg1-native"@, OptLevel::O3, LtoSetting::Off, CodegenUnits::One, PgoSetting::Off, TargetCpu::Native, StripSetting::Off),
        row("cg4-native"@, OptLevel::O3, LtoSetting::Off, CodegenUnits::Four, PgoSetting::Off, TargetCpu::Native, StripSetting::Off),
        row("cg16-native"@, OptLevel::O3, LtoSetting::Off, CodegenUnits::Sixteen, PgoSetting::Off, TargetCpu::Native, StripSetting::Off),
        row("pgo-cg1"@, OptLevel::O3, LtoSetting::Off, CodegenUnits::One, PgoSetting::On, TargetCpu::Generic, StripSetting::Off),
        row("pgo-cg4"@, OptLevel::O3, LtoSetting::Off, CodegenUnits::Four, PgoSetting::On, TargetCpu::Generic, StripSetting::Off),
        row("pgo-strip-symbols"@, OptLevel::O3, LtoSetting::Thin, CodegenUnits::Sixteen, PgoSetting::On, TargetCpu::Generic, StripSetting::Symbols),
        row("pgo-strip-debuginfo"@, OptLevel::O3, LtoSetting::Thin, CodegenUnits::Sixteen, PgoSetting::On, TargetCpu::Generic, StripSetting::Debuginfo),
        row("size-s-native"@, OptLevel::Os, LtoSetting::Thin, CodegenUnits::One, PgoSetting::Off, TargetCpu::Native, StripSetting::Symbols),
        row("size-z-native"@, OptLevel::Oz, LtoSetting::Thin, CodegenUnits::One, PgoSetting::Off, TargetCpu::Native, StripSetting::Symbols),
        row("balanced-perf"@, OptLevel::O3, LtoSetting::Thin, CodegenUnits::Four, PgoSetting::Off, TargetCpu::Native, StripSetting::Symbols),
        row("balanced-size"@, OptLevel::Os, LtoSetting::Fat, CodegenUnits::One, PgoSetting::Off, TargetCpu::Generic, StripSetting::Debuginfo),
        row("pgo-perf-ultra"@, OptLevel::O3, LtoSetting::Fat, CodegenUnits::One, PgoSetting::On, TargetCpu::Native, StripSetting::Symbols),
        row("default-dev"@, OptLevel::O1, LtoSetting::Off, CodegenUnits::Sixteen, PgoSetting::Off, TargetCpu::Generic, StripSetting::Off),
    ]
}

/// The whole generated matrix, tier after tier.
pub open spec fn matrix_model() -> Seq<ConfigView> {
    baseline_tier() + single_factor_tier() + lto_tier() + size_tier() + performance_tier()
        + pgo_tier() + codegen_tier() + cpu_tier() + strip_tier() + extreme_tier()
        + interaction_tier()
}

/// The named identifiers `baseline`, `standard-release`, `min-opt` and
/// `max-opt` each stand exactly once in the generated matrix.
pub proof fn lemma_named_ids_once()
    ensures
        matrix_model()[0].id == "baseline"@,
        forall|k: int|
            0 <= k < matrix_model().len() && k != 0 ==> matrix_model()[k].id != "baseline"@,
        matrix_model()[1].id == "standard-release"@,
        forall|k: int|
            0 <= k < matrix_model().len() && k != 1 ==> matrix_model()[k].id != "standard-release"@,
        matrix_model()[60].id == "min-opt"@,
        forall|k: int|
            0 <= k < matrix_model().len() && k != 60 ==> matrix_model()[k].id != "min-opt"@,
        matrix_model()[61].id == "max-opt"@,
        forall|k: int|
            0 <= k < matrix_model().len() && k != 61 ==> matrix_model()[k].id != "max-opt"@,
{
    lemma_matrix_ids_unique();
}

/// The length of each identifier literal of the table, and the characters
/// that tell it apart from the other identifiers of the same length.
proof fn lemma_id_literals()
    ensures
        "baseline"@.len() == 8 && "baseline"@[0] == 'b',
        "standard-release"@.len() == 16,
        "opt-0"@.len() == 5 && "opt-0"@[4] == '0',
        "opt-1"@.len() == 5 && "opt-1"@[4] == '1',
        "opt-2"@.len() == 5 && "opt-2"@[4] == '2',
        "opt-s"@.len() == 5 && "opt-s"@[4] == 's',
        "opt-z"@.len() == 5 && "opt-z"@[4] == 'z',
        "lto-thin"@.len() == 8 && "lto-thin"@[0] == 'l',
        "lto-fat"@.len() == 7 && "lto-fat"@[0] == 'l',
        "codegen-1"@.len() == 9 && "codegen-1"@[1] == 'o' && "codegen-1"@[8] == '1',
        "codegen-4"@.len() == 9 && "codegen-4"@[1] == 'o' && "codegen-4"@[8] == '4',
        "codegen-256"@.len() == 11 && "codegen-256"@[0] == 'c' && "codegen-256"@[1] == 'o',
        "cpu-native"@.len() == 10 && "cpu-native"@[0] == 'c' && "cpu-native"@[1] == 'p',
        "cpu-specific"@.len() == 12 && "cpu-specific"@[0] == 'c',
        "strip-symbols"@.len() == 13 && "strip-symbols"@[0] == 's' && "strip-symbols"@[1] == 't',
        "strip-debuginfo"@.len() == 15 && "strip-debuginfo"@[0] == 's',
        "lto-thin-opt2"@.len() == 13 && "lto-thin-opt2"@[0] == 'l' && "lto-thin-opt2"@[12] == '2',
        "lto-fat-opt2"@.len() == 12 && "lto-fat-opt2"@[0] == 'l' && "lto-fat-opt2"@[4] == 'f' && "lto-fat-opt2"@[11] == '2',
        "lto-thin-opt3"@.len() == 13 && "lto-thin-opt3"@[0] == 'l' && "lto-thin-opt3"@[12] == '3',
        "lto-fat-opt3"@.len() == 12 && "lto-fat-opt3"@[0] == 'l' && "lto-fat-opt3"@[4] == 'f' && "lto-fat-opt3"@[11] == '3',
        "lto-thin-cg1"@.len() == 12 && "lto-thin-cg1"@[0] == 'l' && "lto-thin-cg1"@[4] == 't' && "lto-thin-cg1"@[11] == '1',
        "lto-thin-cg4"@.len() == 12 && "lto-thin-cg4"@[0] == 'l' && "lto-thin-cg4"@[4] == 't' && "lto-thin-cg4"@[11] == '4',
        "lto-fat-cg1"@.len() == 11 && "lto-fat-cg1"@[0] == 'l' && "lto-fat-cg1"@[10] == '1',
        "lto-fat-cg4"@.len() == 11 && "lto-fat-cg4"@[0] == 'l' && "lto-fat-cg4"@[10] == '4',
        "size-s-lto"@.len() == 10 && "size-s-lto"@[0] == 's' && "size-s-lto"@[5] == 's',
        "size-s-strip"@.len() == 12 && "size-s-strip"@[0] == 's' && "size-s-strip"@[5] == 's',
        "size-z-lto"@.len() == 10 && "size-z-lto"@[0] == 's' && "size-z-lto"@[5] == 'z',
        "size-z-strip"@.len() == 12 && "size-z-strip"@[0] == 's' && "size-z-strip"@[5] == 'z',
        "size-ultra"@.len() == 10 && "size-ultra"@[0] == 's' && "size-ultra"@[5] == 'u',
        "perf-ultra"@.len() == 10 && "perf-ultra"@[0] == 'p' && "perf-ultra"@[1] == 'e',
        "perf-native-lto-thin"@.len() == 20 && "perf-native-lto-thin"@[0] == 'p',
        "perf-native-lto-fat"@.len() == 19 && "perf-native-lto-fat"@[0] == 'p' && "perf-native-lto-fat"@[1] == 'e',
        "perf-balanced"@.len() == 13 && "perf-balanced"@[0] == 'p',
        "pgo-opt2"@.len() == 8 && "pgo-opt2"@[0] == 'p' && "pgo-opt2"@[7] == '2',
        "pgo-opt3"@.len() == 8 && "pgo-opt3"@[0] == 'p' && "pgo-opt3"@[7] == '3',
        "pgo-lto-thin"@.len() == 12 && "pgo-lto-thin"@[0] == 'p',
        "pgo-lto-fat"@.len() == 11 && "pgo-lto-fat"@[0] == 'p',
        "pgo-native"@.len() == 10 && "pgo-native"@[0] == 'p' && "pgo-native"@[1] == 'g',
        "cg1-opt2"@.len() == 8 && "cg1-opt2"@[0] == 'c' && "cg1-opt2"@[2] == '1' && "cg1-opt2"@[7] == '2',
        "cg1-opt3"@.len() == 8 && "cg1-opt3"@[0] == 'c' && "cg1-opt3"@[2] == '1' && "cg1-opt3"@[7] == '3',
        "cg4-opt2"@.len() == 8 && "cg4-opt2"@[0] == 'c' && "cg4-opt2"@[2] == '4' && "cg4-opt2"@[7] == '2',
        "cg4-opt3"@.len() == 8 && "cg4-opt3"@[0] == 'c' && "cg4-opt3"@[2] == '4' && "cg4-opt3"@[7] == '3',
        "cg16-opt2"@.len() == 9 && "cg16-opt2"@[1] == 'g' && "cg16-opt2"@[3] == '6' && "cg16-opt2"@[8] == '2',
        "cg16-opt3"@.len() == 9 && "cg16-opt3"@[1] == 'g' && "cg16-opt3"@[3] == '6' && "cg16-opt3"@[8] == '3',
        "cg1-strip"@.len() == 9 && "cg1-strip"@[1] == 'g' && "cg1-strip"@[3] == '-',
        "cg16-strip"@.len() == 10 && "cg16-strip"@[0] == 'c' && "cg16-strip"@[1] == 'g' && "cg16-strip"@[2] == '1' && "cg16-strip"@[3] == '6',
        "cpu-native-opt2"@.len() == 15 && "cpu-native-opt2"@[0] == 'c' && "cpu-native-opt2"@[14] == '2',
        "cpu-native-opt3"@.len() == 15 && "cpu-native-opt3"@[0] == 'c' && "cpu-native-opt3"@[14] == '3',
        "cpu-specific-opt2"@.len() == 17 && "cpu-specific-opt2"@[0] == 'c' && "cpu-specific-opt2"@[16] == '2',
        "cpu-specific-opt3"@.len() == 17 && "cpu-specific-opt3"@[0] == 'c' && "cpu-specific-opt3"@[16] == '3',
        "cpu-native-cg1"@.len() == 14 && "cpu-native-cg1"@[0] == 'c' && "cpu-native-cg1"@[13] == '1',
        "cpu-native-cg4"@.len() == 14 && "cpu-native-cg4"@[0] == 'c' && "cpu-native-cg4"@[13] == '4',
        "strip-symbols-opt2"@.len() == 18 && "strip-symbols-opt2"@[0] == 's' && "strip-symbols-opt2"@[17] == '2',
        "strip-symbols-opt3"@.len() == 18 && "strip-symbols-opt3"@[0] == 's' && "strip-symbols-opt3"@[17] == '3',
        "strip-symbols-opts"@.len() == 18 && "strip-symbols-opts"@[0] == 's' && "strip-symbols-opts"@[17] == 's',
        "strip-debuginfo-opt2"@.len() == 20 && "strip-debuginfo-opt2"@[0] == 's' && "strip-debuginfo-opt2"@[19] == '2',
        "strip-debuginfo-opt3"@.len() == 20 && "strip-debuginfo-opt3"@[0] == 's' && "strip-debuginfo-opt3"@[19] == '3',
        "strip-debuginfo-opts"@.len() == 20 && "strip-debuginfo-opts"@[0] == 's' && "strip-debuginfo-opts"@[19] == 's',
        "strip-symbols-lto"@.len() == 17 && "strip-symbols-lto"@[0] == 's',
        "strip-debuginfo-lto"@.len() == 19 && "strip-debuginfo-lto"@[0] == 's',
        "min-opt"@.len() == 7 && "min-opt"@[0] == 'm' && "min-opt"@[1] == 'i',
        "max-opt"@.len() == 7 && "max-opt"@[0] == 'm' && "max-opt"@[1] == 'a',
        "fast-compile"@.len() == 12 && "fast-compile"@[0] == 'f',
        "opt1-strip-symbols"@.len() == 18 && "opt1-strip-symbols"@[0] == 'o' && "opt1-strip-symbols"@[3] == '1',
        "opt1-strip-debuginfo"@.len() == 20 && "opt1-strip-debuginfo"@[0] == 'o' && "opt1-strip-debuginfo"@[3] == '1',
        "opt2-strip-symbols"@.len() == 18 && "opt2-strip-symbols"@[0] == 'o' && "opt2-strip-symbols"@[3] == '2',
        "opt2-strip-debuginfo"@.len() == 20 && "opt2-strip-debuginfo"@[0] == 'o' && "opt2-strip-debuginfo"@[3] == '2',
        "cg1-native"@.len() == 10 && "cg1-native"@[0] == 'c' && "cg1-native"@[1] == 'g' && "cg1-native"@[2] == '1' && "cg1-native"@[3] == '-',
        "cg4-native"@.len() == 10 && "cg4-native"@[0] == 'c' && "cg4-native"@[1] == 'g' && "cg4-native"@[2] == '4',
        "cg16-native"@.len() == 11 && "cg16-native"@[0] == 'c' && "cg16-native"@[1] == 'g',
        "pgo-cg1"@.len() == 7 && "pgo-cg1"@[0] == 'p' && "pgo-cg1"@[6] == '1',
        "pgo-cg4"@.len() == 7 && "pgo-cg4"@[0] == 'p' && "pgo-cg4"@[6] == '4',
        "pgo-strip-symbols"@.len() == 17 && "pgo-strip-symbols"@[0] == 'p',
        "pgo-strip-debuginfo"@.len() == 19 && "pgo-strip-debuginfo"@[0] == 'p' && "pgo-strip-debuginfo"@[1] == 'g',
        "size-s-native"@.len() == 13 && "size-s-native"@[0] == 's' && "size-s-native"@[1] == 'i' && "size-s-native"@[5] == 's',
        "size-z-native"@.len() == 13 && "size-z-native"@[0] == 's' && "size-z-native"@[1] == 'i' && "size-z-native"@[5] == 'z',
        "balanced-perf"@.len() == 13 && "balanced-perf"@[0] == 'b' && "balanced-perf"@[9] == 'p',
        "balanced-size"@.len() == 13 && "balanced-size"@[0] == 'b' && "balanced-size"@[9] == 's',
        "pgo-perf-ultra"@.len() == 14 && "pgo-perf-ultra"@[0] == 'p',
        "default-dev"@.len() == 11 && "default-dev"@[0] == 'd',
{
    reveal_strlit("baseline");
    reveal_strlit("standard-release");
    reveal_strlit("opt-0");
    reveal_strlit("opt-1");
    reveal_strlit("opt-2");
    reveal_strlit("opt-s");
    reveal_strlit("opt-z");
    reveal_strlit("lto-thin");
    reveal_strlit("lto-fat");
    reveal_strlit("codegen-1");
    reveal_strlit("codegen-4");
    reveal_strlit("codegen-256");
    reveal_strlit("cpu-native");
    reveal_strlit("cpu-specific");
    reveal_strlit("strip-symbols");
    reveal_strlit("strip-debuginfo");
    reveal_strlit("lto-thin-opt2");
    reveal_strlit("lto-fat-opt2");
    reveal_strlit("lto-thin-opt3");
    reveal_strlit("lto-fat-opt3");
    reveal_strlit("lto-thin-cg1");
    reveal_strlit("lto-thin-cg4");
    reveal_strlit("lto-fat-cg1");
    reveal_strlit("lto-fat-cg4");
    reveal_strlit("size-s-lto");
    reveal_strlit("size-s-strip");
    reveal_strlit("size-z-lto");
    reveal_strlit("size-z-strip");
    reveal_strlit("size-ultra");
    reveal_strlit("perf-ultra");
    reveal_strlit("perf-native-lto-thin");
    reveal_strlit("perf-native-lto-fat");
    reveal_strlit("perf-balanced");
    reveal_strlit("pgo-opt2");
    reveal_strlit("pgo-opt3");
    reveal_strlit("pgo-lto-thin");
    reveal_strlit("pgo-lto-fat");
    reveal_strlit("pgo-native");
    reveal_strlit("cg1-opt2");
    reveal_strlit("cg1-opt3");
    reveal_strlit("cg4-opt2");
    reveal_strlit("cg4-opt3");
    reveal_strlit("cg16-opt2");
    reveal_strlit("cg16-opt3");
    reveal_strlit("cg1-strip");
    reveal_strlit("cg16-strip");
    reveal_strlit("cpu-native-opt2");
    reveal_strlit("cpu-native-opt3");
    reveal_strlit("cpu-specific-opt2");
    reveal_strlit("cpu-specific-opt3");
    reveal_strlit("cpu-native-cg1");
    reveal_strlit("cpu-native-cg4");
    reveal_strlit("strip-symbols-opt2");
    reveal_strlit("strip-symbols-opt3");
    reveal_strlit("strip-symbols-opts");
    reveal_strlit("strip-debuginfo-opt2");
    reveal_strlit("strip-debuginfo-opt3");
    reveal_strlit("strip-debuginfo-opts");
    reveal_strlit("strip-symbols-lto");
    reveal_strlit("strip-debuginfo-lto");
    reveal_strlit("min-opt");
    reveal_strlit("max-opt");
    reveal_strlit("fast-compile");
    reveal_strlit("opt1-strip-symbols");
    reveal_strlit("opt1-strip-debuginfo");
    reveal_strlit("opt2-strip-symbols");
    reveal_strlit("opt2-strip-debuginfo");
    reveal_strlit("cg1-native");
    reveal_strlit("cg4-native");
    reveal_strlit("cg16-native");
    reveal_strlit("pgo-cg1");
    reveal_strlit("pgo-cg4");
    reveal_strlit("pgo-strip-symbols");
    reveal_strlit("pgo-strip-debuginfo");
    reveal_strlit("size-s-native");
    reveal_strlit("size-z-native");
    reveal_strlit("balanced-perf");
    reveal_strlit("balanced-size");
    reveal_strlit("pgo-perf-ultra");
    reveal_strlit("default-dev");
}

/// The identifiers of rows 0 to 9 differ from those of every later row.
proof fn lemma_ids_distinct_from_0()
    ensures
        forall|i: int, j: int|
            0 <= i < 10 && i < j < 80 ==> matrix_model()[i].id != matrix_model()[j].id,
{
    lemma_id_literals();
}

/// The identifiers of rows 10 to 19 differ from those of every later row.
proof fn lemma_ids_distinct_from_10()
    ensures
        forall|i: int, j: int|
            10 <= i < 20 && i < j < 80 ==> matrix_model()[i].id != matrix_model()[j].id,
{
    lemma_id_literals();
}

/// The identifiers of rows 20 to 29 differ from those of every later row.
proof fn lemma_ids_distinct_from_20()
    ensures
        forall|i: int, j: int|
            20 <= i < 30 && i < j < 80 ==> matrix_model()[i].id != matrix_model()[j].id,
{
    lemma_id_literals();
}

/// The identifiers of rows 30 to 39 differ from those of every later row.
proof fn lemma_ids_distinct_from_30()
    ensures
        forall|i: int, j: int|
            30 <= i < 40 && i < j < 80 ==> matrix_model()[i].id != matrix_model()[j].id,
{
    lemma_id_literals();
}

/// The identifiers of rows 40 to 49 differ from those of every later row.
proof fn lemma_ids_distinct_from_40()
    ensures
        forall|i: int, j: int|
            40 <= i < 50 && i < j < 80 ==> matrix_model()[i].id != matrix_model()[j].id,
{
    lemma_id_literals();
}

/// The identifiers of rows 50 to 59 differ from those of every later row.
proof fn lemma_ids_distinct_from_50()
    ensures
        forall|i: int, j: int|
            50 <= i < 60 && i < j < 80 ==> matrix_model()[i].id != matrix_model()[j].id,
{
    lemma_id_literals();
}

/// The identifiers of rows 60 to 69 differ from those of every later row.
proof fn lemma_ids_distinct_from_60()
    ensures
        forall|i: int, j: int|
            60 <= i < 70 && i < j < 80 ==> matrix_model()[i].id != matrix_model()[j].id,
{
    lemma_id_literals();
}

/// The identifiers of rows 70 to 79 differ from those of every later row.
proof fn lemma_ids_distinct_from_70()
    ensures
        forall|i: int, j: int|
            70 <= i < 80 && i < j < 80 ==> matrix_model()[i].id != matrix_model()[j].id,
{
    lemma_id_literals();
}

/// Identifiers are unique within the generated matrix.
pub proof fn lemma_matrix_ids_unique()
    ensures
        forall|i: int, j: int|
            0 <= i < matrix_model().len() && 0 <= j < matrix_model().len() && i != j
                ==> matrix_model()[i].id != matrix_model()[j].id,
{
    lemma_ids_distinct_from_0();
    lemma_ids_distinct_from_10();
    lemma_ids_distinct_from_20();
    lemma_ids_distinct_from_30();
    lemma_ids_distinct_from_40();
    lemma_ids_distinct_from_50();
    lemma_ids_distinct_from_60();
    lemma_ids_distinct_from_70();
    assert(matrix_model().len() == 80);
    assert forall|i: int, j: int|
        0 <= i < matrix_model().len() && 0 <= j < matrix_model().len() && i != j implies
        matrix_model()[i].id != matrix_model()[j].id by {
        if j < i {
            assert(matrix_model()[j].id != matrix_model()[i].id);
        }
    }
}

/// Generation is repeatable: two runs give the same ordered matrix, of 80
/// configurations (inside the 80 to 120 target), naming `baseline` and
/// `standard-release` exactly once each.
pub proof fn lemma_generation_repeatable(first: Seq<ConfigView>, second: Seq<ConfigView>)
    requires
        first == matrix_model(),
        second == matrix_model(),
    ensures
        first == second,
        80 <= first.len() <= 120,
        first[0].id == "baseline"@,
        forall|k: int| 0 <= k < first.len() && k != 0 ==> first[k].id != "baseline"@,
        first[1].id == "standard-release"@,
        forall|k: int| 0 <= k < first.len() && k != 1 ==> first[k].id != "standard-release"@,
{
    lemma_named_ids_once();
}

/// Deterministic generator of the configuration matrix.
pub struct ConfigGenerator {
    configs: Vec<OptimizationConfig>,
}

impl View for ConfigGenerator {
    type V = Seq<ConfigView>;

    closed spec fn view(&self) -> Seq<ConfigView> {
        views_of(self.configs@)
    }
}

impl ConfigGenerator {
    /// A generator holding no configurations yet.
    pub fn new() -> (r: Self)
        ensures
            r@ == Seq::<ConfigView>::empty(),
    {
        ConfigGenerator { configs: Vec::new() }
    }

    /// Appends one configuration.
    fn add(
        &mut self,
        id: &str,
        opt_level: OptLevel,
        lto: LtoSetting,
        codegen_units: CodegenUnits,
        pgo: PgoSetting,
        target_cpu: TargetCpu,
        strip: StripSetting,
    )
        ensures
            final(self)@ == old(self)@.push(
                row(id@, opt_level, lto, codegen_units, pgo, target_cpu, strip),
            ),
    {
        let c = OptimizationConfig::new(
            String::from_str(id),
            opt_level,
            lto,
            codegen_units,
            pgo,
            target_cpu,
            strip,
        );
        self.configs.push(c);
        proof {
            assert(views_of(self.configs@) =~= views_of(old(self).configs@).push(c@));
        }
    }

    /// Appends the tier: the two reference points: debug defaults and standard release.
    fn add_baseline_configs(&mut self)
        ensures
            final(self)@ == old(self)@ + baseline_tier(),
    {
        let ghost start = self@;
        self.add("baseline", OptLevel::O0, LtoSetting::Off, CodegenUnits::Sixteen, PgoSetting::Off, TargetCpu::Generic, StripSetting::Off);
        self.add("standard-release", OptLevel::O3, LtoSetting::Off, CodegenUnits::Sixteen, PgoSetting::Off, TargetCpu::Generic, StripSetting::Off);
        assert(self@ =~= start + baseline_tier());
    }

    /// Appends the tier: one factor moved away from the standard release at a time.
    fn add_single_factor_variations(&mut self)
        ensures
            final(self)@ == old(self)@ + single_factor_tier(),
    {
        let ghost start = self@;
        self.add("opt-0", OptLevel::O0, LtoSetting::Off, CodegenUnits::Sixteen, PgoSetting::Off, TargetCpu::Generic, StripSetting::Off);
        self.add("opt-1", OptLevel::O1, LtoSetting::Off, CodegenUnits::Sixteen, PgoSetting::Off, TargetCpu::Generic, StripSetting::Off);
        self.add("opt-2", OptLevel::O2, LtoSetting::Off, CodegenUnits::Sixteen, PgoSetting::Off, TargetCpu::Generic, StripSetting::Off);
        self.add("opt-s", OptLevel::Os, LtoSetting::Off, CodegenUnits::Sixteen, PgoSetting::Off, TargetCpu::Generic, StripSetting::Off);
        self.add("opt-z", OptLevel::Oz, LtoSetting::Off, CodegenUnits::Sixteen, PgoSetting::Off, TargetCpu::Generic, StripSetting::Off);
        self.add("lto-thin", OptLevel::O3, LtoSetting::Thin, CodegenUnits::Sixteen, PgoSetting::Off, TargetCpu::Generic, StripSetting::Off);
        self.add("lto-fat", OptLevel::O3, LtoSetting::Fat, CodegenUnits::Sixteen, PgoSetting::Off, TargetCpu::Generic, StripSetting::Off);
        self.add("codegen-1", OptLevel::O3, LtoSetting::Off, CodegenUnits::One, PgoSetting::Off, TargetCpu::Generic, StripSetting::Off);
        self.add("codegen-4", OptLevel::O3, LtoSetting::Off, CodegenUnits::Four, PgoSetting::Off, TargetCpu::Generic, StripSetting::Off);
        self.add("codegen-256", OptLevel::O3, LtoSetting::Off, CodegenUnits::TwoFiftySix, PgoSetting::Off, TargetCpu::Generic, StripSetting::Off);
        self.add("cpu-native", OptLevel::O3, LtoSetting::Off, CodegenUnits::Sixteen, PgoSetting::Off, TargetCpu::Native, StripSetting::Off);
        self.add("cpu-specific", OptLevel::O3, LtoSetting::Off, CodegenUnits::Sixteen, PgoSetting::Off, TargetCpu::Specific, StripSetting::Off);
        self.add("strip-symbols", OptLevel::O3, LtoSetting::Off, CodegenUnits::Sixteen, PgoSetting::Off, TargetCpu::Generic, StripSetting::Symbols);
        self.add("strip-debuginfo", OptLevel::O3, LtoSetting::Off, CodegenUnits::Sixteen, PgoSetting::Off, TargetCpu::Generic, StripSetting::Debuginfo);
        assert(self@ =~= start + single_factor_tier());
    }

    /// Appends the tier: lTO crossed with optimization level, then with codegen units.
    fn add_lto_variations(&mut self)
        ensures
            final(self)@ == old(self)@ + lto_tier(),
    {
        let ghost start = self@;
        self.add("lto-thin-opt2", OptLevel::O2, LtoSetting::Thin, CodegenUnits::Sixteen, PgoSetting::Off, TargetCpu::Generic, StripSetting::Off);
        self.add("lto-fat-opt2", OptLevel::O2, LtoSetting::Fat, CodegenUnits::Sixteen, PgoSetting::Off, TargetCpu::Generic, StripSetting::Off);
        self.add("lto-thin-opt3", OptLevel::O3, LtoSetting::Thin, CodegenUnits::Sixteen, PgoSetting::Off, TargetCpu::Generic, StripSetting::Off);
        self.add("lto-fat-opt3", OptLevel::O3, LtoSetting::Fat, CodegenUnits::Sixteen, PgoSetting::Off, TargetCpu::Generic, StripSetting::Off);
        self.add("lto-thin-cg1", OptLevel::O3, LtoSetting::Thin, CodegenUnits::One, PgoSetting::Off, TargetCpu::Generic, StripSetting::Off);
        self.add("lto-thin-cg4", OptLevel::O3, LtoSetting::Thin, CodegenUnits::Four, PgoSetting::Off, TargetCpu::Generic, StripSetting::Off);
        self.add("lto-fat-cg1", OptLevel::O3, LtoSetting::Fat, CodegenUnits::One, PgoSetting::Off, TargetCpu::Generic, StripSetting::Off);
        self.add("lto-fat-cg4", OptLevel::O3, LtoSetting::Fat, CodegenUnits::Four, PgoSetting::Off, TargetCpu::Generic, StripSetting::Off);
        assert(self@ =~= start + lto_tier());
    }

    /// Appends the tier: size-oriented levels with LTO or stripping.
    fn add_size_optimizations(&mut self)
        ensures
            final(self)@ == old(self)@ + size_tier(),
    {
        let ghost start = self@;
        self.add("size-s-lto", OptLevel::Os, LtoSetting::Fat, CodegenUnits::One, PgoSetting::Off, TargetCpu::Generic, StripSetting::Symbols);
        self.add("size-s-strip", OptLevel::Os, LtoSetting::Thin, CodegenUnits::Sixteen, PgoSetting::Off, TargetCpu::Generic, StripSetting::Debuginfo);
        self.add("size-z-lto", OptLevel::Oz, LtoSetting::Fat, CodegenUnits::One, PgoSetting::Off, TargetCpu::Generic, StripSetting::Symbols);
        self.add("size-z-strip", OptLevel::Oz, LtoSetting::Thin, CodegenUnits::Sixteen, PgoSetting::Off, TargetCpu::Generic, StripSetting::Debuginfo);
        self.add("size-ultra", OptLevel::Oz, LtoSetting::Fat, CodegenUnits::One, PgoSetting::Off, TargetCpu::Generic, StripSetting::Debuginfo);
        assert(self@ =~= start + size_tier());
    }

    /// Appends the tier: maximum optimization with LTO and the native CPU.
    fn add_performance_optimizations(&mut self)
        ensures
            final(self)@ == old(self)@ + performance_tier(),
    {
        let ghost start = self@;
        self.add("perf-ultra", OptLevel::O3, LtoSetting::Fat, CodegenUnits::One, PgoSetting::Off, TargetCpu::Native, StripSetting::Symbols);
        self.add("perf-native-lto-thin", OptLevel::O3, LtoSetting::Thin, CodegenUnits::One, PgoSetting::Off, TargetCpu::Native, StripSetting::Off);
        self.add("perf-native-lto-fat", OptLevel::O3, LtoSetting::Fat, CodegenUnits::One, PgoSetting::Off, TargetCpu::Native, StripSetting::Off);
        self.add("perf-balanced", OptLevel::O3, LtoSetting::Thin, CodegenUnits::Four, PgoSetting::Off, TargetCpu::Generic, StripSetting::Off);
        assert(self@ =~= start + performance_tier());
    }

    /// Appends the tier: profile-guided optimization with level, LTO and native CPU.
    fn add_pgo_variations(&mut self)
        ensures
            final(self)@ == old(self)@ + pgo_tier(),
    {
        let ghost start = self@;
        self.add("pgo-opt2", OptLevel::O2, LtoSetting::Off, CodegenUnits::Sixteen, PgoSetting::On, TargetCpu::Generic, StripSetting::Off);
        self.add("pgo-opt3", OptLevel::O3, LtoSetting::Off, CodegenUnits::Sixteen, PgoSetting::On, TargetCpu::Generic, StripSetting::Off);
        self.add("pgo-lto-thin", OptLevel::O3, LtoSetting::Thin, CodegenUnits::Sixteen, PgoSetting::On, TargetCpu::Generic, StripSetting::Off);
        self.add("pgo-lto-fat", OptLevel::O3, LtoSetting::Fat, CodegenUnits::Sixteen, PgoSetting::On, TargetCpu::Generic, StripSetting::Off);
        self.add("pgo-native", OptLevel::O3, LtoSetting::Fat, CodegenUnits::One, PgoSetting::On, TargetCpu::Native, StripSetting::Symbols);
        assert(self@ =~= start + pgo_tier());
    }

    /// Appends the tier: codegen units with optimization level, then with stripping.
    fn add_codegen_variations(&mut self)
        ensures
            final(self)@ == old(self)@ + codegen_tier(),
    {
        let ghost start = self@;
        self.add("cg1-opt2", OptLevel::O2, LtoSetting::Off, CodegenUnits::One, PgoSetting::Off, TargetCpu::Generic, StripSetting::Off);
        self.add("cg1-opt3", OptLevel::O3, LtoSetting::Off, CodegenUnits::One, PgoSetting::Off, TargetCpu::Generic, StripSetting::Off);
        self.add("cg4-opt2", OptLevel::O2, LtoSetting::Off, CodegenUnits::Four, PgoSetting::Off, TargetCpu::Generic, StripSetting::Off);
        self.add("cg4-opt3", OptLevel::O3, LtoSetting::Off, CodegenUnits::Four, PgoSetting::Off, TargetCpu::Generic, StripSetting::Off);
        self.add("cg16-opt2", OptLevel::O2, LtoSetting::Off, CodegenUnits::Sixteen, PgoSetting::Off, TargetCpu::Generic, StripSetting::Off);
        self.add("cg16-opt3", OptLevel::O3, LtoSetting::Off, CodegenUnits::Sixteen, PgoSetting::Off, TargetCpu::Generic, StripSetting::Off);
        self.add("cg1-strip", OptLevel::O3, LtoSetting::Thin, CodegenUnits::One, PgoSetting::Off, TargetCpu::Generic, StripSetting::Symbols);
        self.add("cg16-strip", OptLevel::O3, LtoSetting::Thin, CodegenUnits::Sixteen, PgoSetting::Off, TargetCpu::Generic, StripSetting::Symbols);
        assert(self@ =~= start + codegen_tier());
    }

    /// Appends the tier: target CPU with optimization level, then with codegen units.
    fn add_cpu_variations(&mut self)
        ensures
            final(self)@ == old(self)@ + cpu_tier(),
    {
        let ghost start = self@;
        self.add("cpu-native-opt2", OptLevel::O2, LtoSetting::Off, CodegenUnits::Sixteen, PgoSetting::Off, TargetCpu::Native, StripSetting::Off);
        self.add("cpu-native-opt3", OptLevel::O3, LtoSetting::Off, CodegenUnits::Sixteen, PgoSetting::Off, TargetCpu::Native, StripSetting::Off);
        self.add("cpu-specific-opt2", OptLevel::O2, LtoSetting::Off, CodegenUnits::Sixteen, PgoSetting::Off, TargetCpu::Specific, StripSetting::Off);
        self.add("cpu-specific-opt3", OptLevel::O3, LtoSetting::Off, CodegenUnits::Sixteen, PgoSetting::Off, TargetCpu::Specific, StripSetting::Off);
        self.add("cpu-native-cg1", OptLevel::O3, LtoSetting::Off, CodegenUnits::One, PgoSetting::Off, TargetCpu::Native, StripSetting::Off);
        self.add("cpu-native-cg4", OptLevel::O3, LtoSetting::Off, CodegenUnits::Four, PgoSetting::Off, TargetCpu::Native, StripSetting::Off);
        assert(self@ =~= start + cpu_tier());
    }

    /// Appends the tier: stripping with optimization level, then with LTO.
    fn add_strip_variations(&mut self)
        ensures
            final(self)@ == old(self)@ + strip_tier(),
    {
        let ghost start = self@;
        self.add("strip-symbols-opt2", OptLevel::O2, LtoSetting::Off, CodegenUnits::Sixteen, PgoSetting::Off, TargetCpu::Generic, StripSetting::Symbols);
        self.add("strip-symbols-opt3", OptLevel::O3, LtoSetting::Off, CodegenUnits::Sixteen, PgoSetting::Off, TargetCpu::Generic, StripSetting::Symbols);
        self.add("strip-symbols-opts", OptLevel::Os, LtoSetting::Off, CodegenUnits::Sixteen, PgoSetting::Off, TargetCpu::Generic, StripSetting::Symbols);
        self.add("strip-debuginfo-opt2", OptLevel::O2, LtoSetting::Off, CodegenUnits::Sixteen, PgoSetting::Off, TargetCpu::Generic, StripSetting::Debuginfo);
        self.add("strip-debuginfo-opt3", OptLevel::O3, LtoSetting::Off, CodegenUnits::Sixteen, PgoSetting::Off, TargetCpu::Generic, StripSetting::Debuginfo);
        self.add("strip-debuginfo-opts", OptLevel::Os, LtoSetting::Off, CodegenUnits::Sixteen, PgoSetting::Off, TargetCpu::Generic, StripSetting::Debuginfo);
        self.add("strip-symbols-lto", OptLevel::O3, LtoSetting::Fat, CodegenUnits::One, PgoSetting::Off, TargetCpu::Generic, StripSetting::Symbols);
        self.add("strip-debuginfo-lto", OptLevel::O3, LtoSetting::Fat, CodegenUnits::One, PgoSetting::Off, TargetCpu::Generic, StripSetting::Debuginfo);
        assert(self@ =~= start + strip_tier());
    }

    /// Appends the tier: edge points: minimum, maximum, and fastest compilation.
    fn add_extreme_configs(&mut self)
        ensures
            final(self)@ == old(self)@ + extreme_tier(),
    {
        let ghost start = self@;
        self.add("min-opt", OptLevel::O0, LtoSetting::Off, CodegenUnits::TwoFiftySix, PgoSetting::Off, TargetCpu::Generic, StripSetting::Off);
        self.add("max-opt", OptLevel::O3, LtoSetting::Fat, CodegenUnits::One, PgoSetting::On, TargetCpu::Native, StripSetting::Debuginfo);
        self.add("fast-compile", OptLevel::O1, LtoSetting::Off, CodegenUnits::TwoFiftySix, PgoSetting::Off, TargetCpu::Generic, StripSetting::Off);
        assert(self@ =~= start + extreme_tier());
    }

    /// Appends the tier: remaining two-factor interactions and a few high-value combinations.
    fn add_two_factor_interactions(&mut self)
        ensures
            final(self)@ == old(self)@ + interaction_tier(),
    {
        let ghost start = self@;
        self.add("opt1-strip-symbols", OptLevel::O1, LtoSetting::Off, CodegenUnits::Sixteen, PgoSetting::Off, TargetCpu::Generic, StripSetting::Symbols);
        self.add("opt1-strip-debuginfo", OptLevel::O1, LtoSetting::Off, CodegenUnits::Sixteen, PgoSetting::Off, TargetCpu::Generic, StripSetting::Debuginfo);
        self.add("opt2-strip-symbols", OptLevel::O2, LtoSetting::Off, CodegenUnits::Sixteen, PgoSetting::Off, TargetCpu::Generic, StripSetting::Symbols);
        self.add("opt2-strip-debuginfo", OptLevel::O2, LtoSetting::Off, CodegenUnits::Sixteen, PgoSetting::Off, TargetCpu::Generic, StripSetting::Debuginfo);
        self.add("cg1-native", OptLevel::O3, LtoSetting::Off, CodegenUnits::One, PgoSetting::Off, TargetCpu::Native, StripSetting::Off);
        self.add("cg4-native", OptLevel::O3, LtoSetting::Off, CodegenUnits::Four, PgoSetting::Off, TargetCpu::Native, StripSetting::Off);
        self.add("cg16-native", OptLevel::O3, LtoSetting::Off, CodegenUnits::Sixteen, PgoSetting::Off, TargetCpu::Native, StripSetting::Off);
        self.add("pgo-cg1", OptLevel::O3, LtoSetting::Off, CodegenUnits::One, PgoSetting::On, TargetCpu::Generic, StripSetting::Off);
        self.add("pgo-cg4", OptLevel::O3, LtoSetting::Off, CodegenUnits::Four, PgoSetting::On, TargetCpu::Generic, StripSetting::Off);
        self.add("pgo-strip-symbols", OptLevel::O3, LtoSetting::Thin, CodegenUnits::Sixteen, PgoSetting::On, TargetCpu::Generic, StripSetting::Symbols);
        self.add("pgo-strip-debuginfo", OptLevel::O3, LtoSetting::Thin, CodegenUnits::Sixteen, PgoSetting::On, TargetCpu::Generic, StripSetting::Debuginfo);
        self.add("size-s-native", OptLevel::Os, LtoSetting::Thin, CodegenUnits::One, PgoSetting::Off, TargetCpu::Native, StripSetting::Symbols);
        self.add("size-z-native", OptLevel::Oz, LtoSetting::Thin, CodegenUnits::One, PgoSetting::Off, TargetCpu::Native, StripSetting::Symbols);
        self.add("balanced-perf", OptLevel::O3, LtoSetting::Thin, CodegenUnits::Four, PgoSetting::Off, TargetCpu::Native, StripSetting::Symbols);
        self.add("balanced-size", OptLevel::Os, LtoSetting::Fat, CodegenUnits::One, PgoSetting::Off, TargetCpu::Generic, StripSetting::Debuginfo);
        self.add("pgo-perf-ultra", OptLevel::O3, LtoSetting::Fat, CodegenUnits::One, PgoSetting::On, TargetCpu::Native, StripSetting::Symbols);
        self.add("default-dev", OptLevel::O1, LtoSetting::Off, CodegenUnits::Sixteen, PgoSetting::Off, TargetCpu::Generic, StripSetting::Off);
        assert(self@ =~= start + interaction_tier());
    }

    /// Generates the whole matrix, replacing anything generated before.
    pub fn generate_matrix(&mut self) -> (r: &[OptimizationConfig])
        ensures
            final(self)@ == matrix_model(),
            views_of(r@) == matrix_model(),
            r@.len() == 80,
            forall|i: int, j: int|
                0 <= i < r@.len() && 0 <= j < r@.len() && i != j ==> r@[i].id@ != r@[j].id@,
    {
        self.configs.clear();
        assert(self@ =~= Seq::<ConfigView>::empty());
        self.add_baseline_configs();
        self.add_single_factor_variations();
        self.add_lto_variations();
        self.add_size_optimizations();
        self.add_performance_optimizations();
        self.add_pgo_variations();
        self.add_codegen_variations();
        self.add_cpu_variations();
        self.add_strip_variations();
        self.add_extreme_configs();
        self.add_two_factor_interactions();
        assert(self@ =~= matrix_model());
        proof {
            lemma_matrix_ids_unique();
            assert forall|i: int, j: int|
                0 <= i < self.configs@.len() && 0 <= j < self.configs@.len() && i != j implies
                self.configs@[i].id@ != self.configs@[j].id@ by {
                assert(views_of(self.configs@)[i] == self.configs@[i]@);
                assert(views_of(self.configs@)[j] == self.configs@[j]@);
            }
        }
        self.configs.as_slice()
    }

    /// The configurations generated so far.
    pub fn configs(&self) -> (r: &[OptimizationConfig])
        ensures
            views_of(r@) == self@,
    {
        self.configs.as_slice()
    }

    /// How many configurations have been generated.
    pub fn count(&self) -> (r: usize)
        ensures
            r == self@.len(),
    {
        self.configs.len()
    }
}

impl Default for ConfigGenerator {
    fn default() -> (r: Self)
        ensures
            r@ == Seq::<ConfigView>::empty(),
    {
        Self::new()
    }
}

} // verus!
