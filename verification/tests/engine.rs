use llmfit_core::fit::{AnalyzeError, FitLevel, ModelFit, RunMode};
use llmfit_core::hardware::{GpuBackend, PoolTag, SystemSpecs};
use llmfit_core::models::{LlmModel, ModelDatabase, QuantVariant, UseCase};
use llmfit_core::{fit, hardware};

fn model(
    name: &str,
    params_m: u64,
    variants: Vec<(&str, u64)>,
    moe: bool,
    active_params_m: Option<u64>,
) -> LlmModel {
    LlmModel {
        name: name.to_string(),
        provider: "Test".to_string(),
        parameter_count: format!("{}M", params_m),
        params_m,
        context_length: 8192,
        use_case: UseCase::General,
        release_date: Some("2024-06".to_string()),
        quant_variants: variants
            .into_iter()
            .map(|(l, bpp)| QuantVariant { label: l.to_string(), bpp_milli: bpp })
            .collect(),
        is_mixture_of_experts: moe,
        active_params_m,
    }
}

fn unified_specs(total_ram_mb: u64) -> SystemSpecs {
    SystemSpecs {
        cpu_name: "test-cpu".to_string(),
        cpu_cores: 8,
        total_ram_mb,
        gpu_name: Some("integrated".to_string()),
        gpu_backend: GpuBackend::Metal,
        gpu_vram_mb: None,
        unified_memory: true,
    }
}

fn cpu_only_specs(total_ram_mb: u64) -> SystemSpecs {
    SystemSpecs {
        cpu_name: "test-cpu".to_string(),
        cpu_cores: 4,
        total_ram_mb,
        gpu_name: None,
        gpu_backend: GpuBackend::NoGpu,
        gpu_vram_mb: None,
        unified_memory: false,
    }
}

fn discrete_specs(vram_mb: u64, ram_mb: u64) -> SystemSpecs {
    SystemSpecs {
        cpu_name: "test-cpu".to_string(),
        cpu_cores: 16,
        total_ram_mb: ram_mb,
        gpu_name: Some("discrete".to_string()),
        gpu_backend: GpuBackend::Cuda,
        gpu_vram_mb: Some(vram_mb),
        unified_memory: false,
    }
}

#[test]
fn arithmetic_exact_values() {
    assert_eq!(fit::required_mb(7000, 500), 4025);
    assert_eq!(fit::required_mb(70000, 500), 40250);
    assert_eq!(fit::utilization_pct(4025, 12000), 34);
    assert_eq!(fit::utilization_pct(40250, 6000), 671);
    assert_eq!(fit::utilization_pct(12000, 12000), 100);
    assert_eq!(fit::utilization_pct(0, 5), 0);
    assert_eq!(fit::utilization_pct(1, 0), fit::UTIL_EMPTY_POOL);
    assert_eq!(fit::isqrt(0), 0);
    assert_eq!(fit::isqrt(1), 1);
    assert_eq!(fit::isqrt(7000), 83);
    assert_eq!(fit::isqrt(70000), 264);
}

#[test]
fn required_memory_monotone_in_bytes_per_param() {
    let bpps = [350u64, 500, 675, 1000, 2000];
    for w in bpps.windows(2) {
        assert!(fit::required_mb(7000, w[0]) <= fit::required_mb(7000, w[1]));
    }
}

#[test]
fn fit_level_thresholds() {
    assert_eq!(fit::fit_level_of(0), FitLevel::Perfect);
    assert_eq!(fit::fit_level_of(70), FitLevel::Perfect);
    assert_eq!(fit::fit_level_of(71), FitLevel::Good);
    assert_eq!(fit::fit_level_of(90), FitLevel::Good);
    assert_eq!(fit::fit_level_of(91), FitLevel::Marginal);
    assert_eq!(fit::fit_level_of(100), FitLevel::Marginal);
    assert_eq!(fit::fit_level_of(101), FitLevel::TooTight);
}

#[test]
fn fit_level_is_function_of_utilization() {
    // Two analyses of different models with the same utilization carry
    // the same fit level.
    let m1 = model("a/one", 7000, vec![("Q4_K_M", 500)], false, None);
    let m2 = model("b/two", 7000, vec![("Q4_K_M", 500)], false, None);
    let s = unified_specs(16000);
    let f1 = ModelFit::analyze(&m1, &s).unwrap();
    let f2 = ModelFit::analyze(&m2, &s).unwrap();
    assert_eq!(f1.utilization_pct, f2.utilization_pct);
    assert_eq!(f1.fit_level, f2.fit_level);
}

#[test]
fn unified_memory_pool_resolution() {
    let pools = hardware::resolve_pools(&unified_specs(16000));
    assert_eq!(pools.len(), 1);
    assert_eq!(pools[0].size_mb, 12000);
    assert_eq!(pools[0].tag, PoolTag::Gpu);
}

#[test]
fn discrete_gpu_pool_resolution() {
    let pools = hardware::resolve_pools(&discrete_specs(16000, 48000));
    assert_eq!(pools.len(), 2);
    assert_eq!(pools[0].size_mb, 16000);
    assert_eq!(pools[0].tag, PoolTag::Gpu);
    assert_eq!(pools[1].size_mb, 64000);
    assert_eq!(pools[1].tag, PoolTag::CpuOffload);
}

#[test]
fn cpu_only_pool_resolution() {
    let pools = hardware::resolve_pools(&cpu_only_specs(8000));
    assert_eq!(pools.len(), 1);
    assert_eq!(pools[0].size_mb, 6000);
    assert_eq!(pools[0].tag, PoolTag::CpuOnly);
}

#[test]
fn utilization_boundary_is_exact() {
    // One megabyte over the budget already reads above 100 percent: a
    // model that does not fit is never reported as fitting.
    assert_eq!(fit::utilization_pct(201, 200), 101);
    assert_eq!(fit::fit_level_of(fit::utilization_pct(201, 200)), FitLevel::TooTight);
    assert_eq!(fit::utilization_pct(200, 200), 100);
    assert_eq!(fit::fit_level_of(fit::utilization_pct(200, 200)), FitLevel::Marginal);
}

#[test]
fn slight_overshoot_is_too_tight() {
    // 201 MB needed against a 200 MB budget: under one percent over, yet
    // still an honest TooTight with the fallback note.
    let m = model("edge/slight", 1000, vec![("Q1_4", 175)], false, None);
    let f = ModelFit::analyze(&m, &cpu_only_specs(267)).unwrap();
    assert_eq!(f.memory_required_mb, 201);
    assert_eq!(f.memory_available_mb, 200);
    assert_eq!(f.utilization_pct, 101);
    assert_eq!(f.fit_level, FitLevel::TooTight);
    assert_eq!(f.notes, vec!["no quantization fits; using lowest available".to_string()]);
}

#[test]
fn zero_memory_machine_still_answers() {
    let m = model("a/tiny", 1000, vec![("Q4_K_M", 500)], false, None);
    let f = ModelFit::analyze(&m, &cpu_only_specs(0)).unwrap();
    assert_eq!(f.memory_available_mb, 0);
    assert_eq!(f.utilization_pct, fit::UTIL_EMPTY_POOL);
    assert_eq!(f.fit_level, FitLevel::TooTight);
}

#[test]
fn seven_b_on_unified_sixteen_gb() {
    // 7B model, FP16 at 2.0 bytes and Q4_K_M at 0.5 bytes per parameter,
    // on a 16 GB unified-memory machine with a GPU backend.
    let m = model("meta/seven-b", 7000, vec![("FP16", 2000), ("Q4_K_M", 500)], false, None);
    let f = ModelFit::analyze(&m, &unified_specs(16000)).unwrap();
    assert_eq!(f.best_quant, "Q4_K_M");
    assert_eq!(f.memory_required_mb, 4025);
    assert_eq!(f.memory_available_mb, 12000);
    assert_eq!(f.utilization_pct, 34);
    assert_eq!(f.run_mode, RunMode::Gpu);
    assert_eq!(f.fit_level, FitLevel::Perfect);
    assert!(f.notes.is_empty());
}

#[test]
fn seventy_b_on_eight_gb_cpu_machine() {
    // 70B model on an 8 GB machine without a GPU: far too big, but the
    // engine still answers with an honest verdict instead of an error.
    let m = model("meta/seventy-b", 70000, vec![("Q4_K_M", 500)], false, None);
    let f = ModelFit::analyze(&m, &cpu_only_specs(8000)).unwrap();
    assert_eq!(f.run_mode, RunMode::CpuOnly);
    assert_eq!(f.utilization_pct, 671);
    assert!(f.utilization_pct > 100);
    assert_eq!(f.fit_level, FitLevel::TooTight);
    assert_eq!(f.notes, vec!["no quantization fits; using lowest available".to_string()]);
}

#[test]
fn moe_offload_when_active_experts_fit_gpu() {
    // 45B mixture-of-experts model with 13B active parameters: the full
    // weights only fit GPU plus system memory, the active set fits the
    // 16 GB GPU pool alone.
    let m = model("mix/moe", 45000, vec![("Q8_0", 1000)], true, Some(13000));
    let f = ModelFit::analyze(&m, &discrete_specs(16000, 48000)).unwrap();
    assert_eq!(f.memory_required_mb, 51750);
    assert_eq!(f.memory_available_mb, 64000);
    assert_eq!(f.run_mode, RunMode::MoeOffload);
}

#[test]
fn dense_model_split_is_cpu_offload() {
    let m = model("big/dense", 45000, vec![("Q8_0", 1000)], false, None);
    let f = ModelFit::analyze(&m, &discrete_specs(16000, 48000)).unwrap();
    assert_eq!(f.run_mode, RunMode::CpuOffload);
}

#[test]
fn highest_fidelity_that_fits_is_selected() {
    let m = model(
        "q/ladder",
        7000,
        vec![("FP16", 2000), ("Q8_0", 1000), ("Q4_K_M", 500)],
        false,
        None,
    );
    // 12 GB unified budget: FP16 needs 16100 MB, Q8_0 needs 8050 MB.
    let f = ModelFit::analyze(&m, &unified_specs(16000)).unwrap();
    assert_eq!(f.best_quant, "Q8_0");
}

#[test]
fn equal_footprint_prefers_higher_fidelity() {
    let m = model("q/tie", 7000, vec![("First", 500), ("Second", 500)], false, None);
    let f = ModelFit::analyze(&m, &unified_specs(16000)).unwrap();
    assert_eq!(f.best_quant, "First");
}

#[test]
fn no_variants_is_an_error() {
    let m = model("bad/empty", 7000, vec![], false, None);
    let r = ModelFit::analyze(&m, &unified_specs(16000));
    match r {
        Ok(_) => panic!("analysis accepted a model with no variants"),
        Err(e) => assert_eq!(e, AnalyzeError::NoQuantVariants),
    }
}

#[test]
fn speed_cpu_markedly_slower_than_gpu() {
    let m = model("s/seven", 7000, vec![("Q4_K_M", 500)], false, None);
    let on_gpu = ModelFit::analyze(&m, &discrete_specs(16000, 32000)).unwrap();
    let on_cpu = ModelFit::analyze(&m, &cpu_only_specs(32000)).unwrap();
    assert_eq!(on_gpu.run_mode, RunMode::Gpu);
    assert_eq!(on_cpu.run_mode, RunMode::CpuOnly);
    assert_eq!(on_gpu.estimated_tps_tenths, 120_000 / 83);
    assert_eq!(on_cpu.estimated_tps_tenths, 9_000 / 83);
    assert!(on_gpu.estimated_tps_tenths > 4 * on_cpu.estimated_tps_tenths);
}

#[test]
fn unknown_size_uses_minimum_speed_with_note() {
    let m = model("s/unknown", 0, vec![("Q4_K_M", 500)], false, None);
    let f = ModelFit::analyze(&m, &unified_specs(16000)).unwrap();
    assert_eq!(f.estimated_tps_tenths, fit::MIN_TPS_TENTHS);
    assert_eq!(f.notes, vec!["unknown model size; using minimum speed estimate".to_string()]);
}

#[test]
fn score_components_and_total() {
    let m = model("sc/seven", 7000, vec![("Q4_K_M", 500)], false, None);
    let f = ModelFit::analyze(&m, &unified_specs(16000)).unwrap();
    // utilization 34: below the ideal band, fit decays linearly.
    assert_eq!(f.score_components.fit, 85);
    assert_eq!(f.score_components.quality, 83);
    assert_eq!(f.score_components.context, 100);
    assert_eq!(f.estimated_tps_tenths, 70_000 / 83);
    assert_eq!(f.score_components.speed, 91);
    assert_eq!(f.score, (35 * 85 + 25 * 91 + 25 * 83 + 15 * 100) / 100);
    assert!(f.score <= 100);
}

#[test]
fn context_limit_overrides_reference() {
    let m = model("cx/seven", 7000, vec![("Q4_K_M", 500)], false, None);
    let own = ModelFit::analyze_with_context_limit(&m, &unified_specs(16000), None).unwrap();
    assert_eq!(own.score_components.context, 100);
    let half = ModelFit::analyze_with_context_limit(&m, &unified_specs(16000), Some(16384))
        .unwrap();
    assert_eq!(half.score_components.context, 8192 * 100 / 16384);
    let over = ModelFit::analyze_with_context_limit(&m, &unified_specs(16000), Some(4096))
        .unwrap();
    assert_eq!(over.score_components.context, 100);
}

#[test]
fn analyze_is_deterministic() {
    let m = model("det/seven", 7000, vec![("FP16", 2000), ("Q4_K_M", 500)], true, Some(2000));
    let s = discrete_specs(8000, 32000);
    let f1 = ModelFit::analyze_with_context_limit(&m, &s, Some(4096)).unwrap();
    let f2 = ModelFit::analyze_with_context_limit(&m, &s, Some(4096)).unwrap();
    assert_eq!(f1.memory_required_mb, f2.memory_required_mb);
    assert_eq!(f1.memory_available_mb, f2.memory_available_mb);
    assert_eq!(f1.utilization_pct, f2.utilization_pct);
    assert_eq!(f1.best_quant, f2.best_quant);
    assert_eq!(f1.run_mode, f2.run_mode);
    assert_eq!(f1.estimated_tps_tenths, f2.estimated_tps_tenths);
    assert_eq!(f1.fit_level, f2.fit_level);
    assert_eq!(f1.score, f2.score);
    assert_eq!(f1.score_components, f2.score_components);
    assert_eq!(f1.installed, f2.installed);
    assert_eq!(f1.notes, f2.notes);
    assert_eq!(f1.use_case, f2.use_case);
}

#[test]
fn builtin_catalog_is_nonempty() {
    let db = ModelDatabase::new();
    let models = db.get_all_models();
    assert!(models.len() >= 5);
    for m in models.iter() {
        assert!(!m.quant_variants.is_empty());
    }
}
