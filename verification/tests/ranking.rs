use llmfit_core::fit::{ModelFit, RunMode};
use llmfit_core::hardware::{GpuBackend, SystemSpecs};
use llmfit_core::models::{LlmModel, QuantVariant, UseCase};
use llmfit_core::rank::{rank_models_by_fit, rank_models_by_fit_opts_col, SortColumn};

fn specs(total_ram_mb: u64) -> SystemSpecs {
    SystemSpecs {
        cpu_name: "cpu".to_string(),
        cpu_cores: 8,
        total_ram_mb,
        gpu_name: Some("gpu".to_string()),
        gpu_backend: GpuBackend::Metal,
        gpu_vram_mb: None,
        unified_memory: true,
    }
}

fn model(name: &str, params_m: u64, date: Option<&str>) -> LlmModel {
    LlmModel {
        name: name.to_string(),
        provider: "Test".to_string(),
        parameter_count: format!("{}M", params_m),
        params_m,
        context_length: 8192,
        use_case: UseCase::General,
        release_date: date.map(|d| d.to_string()),
        quant_variants: vec![QuantVariant { label: "Q4_K_M".to_string(), bpp_milli: 500 }],
        is_mixture_of_experts: false,
        active_params_m: None,
    }
}

fn analyze_all(names_sizes: &[(&str, u64)]) -> Vec<ModelFit> {
    let s = specs(16000);
    names_sizes
        .iter()
        .map(|(n, p)| ModelFit::analyze(&model(n, *p, Some("2024-06")), &s).unwrap())
        .collect()
}

#[test]
fn fit_level_dominates_every_sort_column() {
    // 7B fits comfortably (Perfect); 200B does not (TooTight), whatever
    // its other numbers look like.
    let fits = analyze_all(&[("big/model", 200_000), ("small/model", 7000)]);
    for col in [
        SortColumn::Score,
        SortColumn::Speed,
        SortColumn::Params,
        SortColumn::Memory,
        SortColumn::Context,
        SortColumn::Name,
        SortColumn::Date,
    ] {
        let ranked = rank_models_by_fit_opts_col(analyze_all(&[
            ("big/model", 200_000),
            ("small/model", 7000),
        ]), false, col);
        assert_eq!(ranked[0].model.name, "small/model");
        assert_eq!(ranked[1].model.name, "big/model");
    }
    assert_eq!(fits.len(), 2);
}

#[test]
fn ranking_twice_gives_identical_order() {
    let fits = analyze_all(&[
        ("c/gamma", 14000),
        ("a/alpha", 7000),
        ("b/beta", 3000),
        ("d/delta", 7000),
    ]);
    let once = rank_models_by_fit(fits);
    let names_once: Vec<String> = once.iter().map(|f| f.model.name.clone()).collect();
    let twice = rank_models_by_fit(once);
    let names_twice: Vec<String> = twice.iter().map(|f| f.model.name.clone()).collect();
    assert_eq!(names_once, names_twice);
}

#[test]
fn ranking_is_a_permutation() {
    let fits = analyze_all(&[("c/gamma", 14000), ("a/alpha", 7000), ("b/beta", 3000)]);
    let ranked = rank_models_by_fit(fits);
    let mut names: Vec<String> = ranked.iter().map(|f| f.model.name.clone()).collect();
    names.sort();
    assert_eq!(names, vec!["a/alpha".to_string(), "b/beta".to_string(), "c/gamma".to_string()]);
}

#[test]
fn score_column_sorts_descending() {
    let ranked = rank_models_by_fit(analyze_all(&[("a/small", 1000), ("b/mid", 7000)]));
    assert!(ranked[0].score >= ranked[1].score);
}

#[test]
fn name_column_sorts_ascending() {
    let ranked = rank_models_by_fit_opts_col(
        analyze_all(&[("b/beta", 7000), ("a/alpha", 7000), ("c/gamma", 7000)]),
        false,
        SortColumn::Name,
    );
    let names: Vec<String> = ranked.iter().map(|f| f.model.name.clone()).collect();
    assert_eq!(names, vec!["a/alpha".to_string(), "b/beta".to_string(), "c/gamma".to_string()]);
}

#[test]
fn date_column_sorts_newest_first_with_unknown_last() {
    let s = specs(16000);
    let fits: Vec<ModelFit> = vec![
        ModelFit::analyze(&model("a/old", 7000, Some("2023-01")), &s).unwrap(),
        ModelFit::analyze(&model("b/none", 7000, None), &s).unwrap(),
        ModelFit::analyze(&model("c/new", 7000, Some("2025-02")), &s).unwrap(),
    ];
    let ranked = rank_models_by_fit_opts_col(fits, false, SortColumn::Date);
    let names: Vec<String> = ranked.iter().map(|f| f.model.name.clone()).collect();
    assert_eq!(names, vec!["c/new".to_string(), "a/old".to_string(), "b/none".to_string()]);
}

#[test]
fn params_column_sorts_largest_first() {
    let ranked = rank_models_by_fit_opts_col(
        analyze_all(&[("a/small", 3000), ("b/large", 14000), ("c/mid", 7000)]),
        false,
        SortColumn::Params,
    );
    let sizes: Vec<u64> = ranked.iter().map(|f| f.model.params_m).collect();
    assert_eq!(sizes, vec![14000, 7000, 3000]);
}

#[test]
fn installed_first_hoists_only_within_exact_ties() {
    let s = specs(16000);
    // Same size and date: exact key tie; installed wins inside the tie.
    let mut tie_a = ModelFit::analyze(&model("a/one", 7000, Some("2024-06")), &s).unwrap();
    let tie_b = ModelFit::analyze(&model("b/two", 7000, Some("2024-06")), &s).unwrap();
    // A too-tight installed model must not outrank a perfect uninstalled one.
    let mut huge = ModelFit::analyze(&model("z/huge", 200_000, Some("2024-06")), &s).unwrap();
    tie_a.installed = false;
    huge.installed = true;
    let mut tie_b2 = tie_b;
    tie_b2.installed = true;
    let ranked = rank_models_by_fit_opts_col(
        vec![tie_a, tie_b2, huge],
        true,
        SortColumn::Score,
    );
    let names: Vec<String> = ranked.iter().map(|f| f.model.name.clone()).collect();
    assert_eq!(names, vec!["b/two".to_string(), "a/one".to_string(), "z/huge".to_string()]);
}

#[test]
fn stable_for_exact_ties() {
    let s = specs(16000);
    let fits: Vec<ModelFit> = vec![
        ModelFit::analyze(&model("first/same", 7000, Some("2024-06")), &s).unwrap(),
        ModelFit::analyze(&model("second/same", 7000, Some("2024-06")), &s).unwrap(),
    ];
    // Equal fit level and equal score: input order is kept.
    let ranked = rank_models_by_fit(fits);
    assert_eq!(ranked[0].model.name, "first/same");
    assert_eq!(ranked[1].model.name, "second/same");
}

#[test]
fn sort_column_cycle_returns_home() {
    let mut c = SortColumn::Score;
    for _ in 0..7 {
        c = c.next();
    }
    assert_eq!(c, SortColumn::Score);
    assert_eq!(SortColumn::Score.next(), SortColumn::Speed);
}

#[test]
fn run_mode_preserved_by_ranking() {
    let ranked = rank_models_by_fit(analyze_all(&[("a/one", 7000)]));
    assert_eq!(ranked[0].run_mode, RunMode::Gpu);
}
