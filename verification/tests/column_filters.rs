use llmfit_core::filters::{ColumnFilters, FitFilter, FILTER_ROW_COUNT};
use llmfit_core::fit::ModelFit;
use llmfit_core::hardware::{GpuBackend, SystemSpecs};
use llmfit_core::models::{LlmModel, QuantVariant, UseCase};
use llmfit_core::scan::filter_fits;
use llmfit_core::strutil::u64_to_string;

fn specs() -> SystemSpecs {
    SystemSpecs {
        cpu_name: "cpu".to_string(),
        cpu_cores: 8,
        total_ram_mb: 16000,
        gpu_name: Some("gpu".to_string()),
        gpu_backend: GpuBackend::Metal,
        gpu_vram_mb: None,
        unified_memory: true,
    }
}

fn model(name: &str, provider: &str, params_m: u64, use_case: UseCase) -> LlmModel {
    LlmModel {
        name: name.to_string(),
        provider: provider.to_string(),
        parameter_count: format!("{}M", params_m),
        params_m,
        context_length: 32768,
        use_case,
        release_date: Some("2024-06".to_string()),
        quant_variants: vec![QuantVariant { label: "Q4_K_M".to_string(), bpp_milli: 500 }],
        is_mixture_of_experts: false,
        active_params_m: None,
    }
}

#[test]
fn decimal_formatting() {
    assert_eq!(u64_to_string(0), "0");
    assert_eq!(u64_to_string(7), "7");
    assert_eq!(u64_to_string(10), "10");
    assert_eq!(u64_to_string(90210), "90210");
    assert_eq!(u64_to_string(u64::MAX), "18446744073709551615");
}

#[test]
fn numeric_filter_labels_and_thresholds() {
    let mut cf = ColumnFilters::new(vec!["Q4_K_M".to_string()]);
    assert_eq!(cf.active_count(), 0);
    assert_eq!(cf.row_value_label(2), "Any");
    // Params ladder: 0, 1B, 3B, 7B, 13B, 30B, 70B.
    cf.adjust_right(2);
    assert_eq!(cf.row_value_label(2), ">= 1B");
    cf.adjust_right(2);
    cf.adjust_right(2);
    assert_eq!(cf.row_value_label(2), ">= 7B");
    assert!(cf.row_is_active(2));
    assert_eq!(cf.active_count(), 1);
    // Memory is an upper bound: 200, 100, 90, ...
    cf.adjust_right(3);
    assert_eq!(cf.row_value_label(3), "<= 100%");
    cf.adjust_left(3);
    assert_eq!(cf.row_value_label(3), "Any");
    cf.reset_row(2);
    assert!(!cf.row_is_active(2));
    assert_eq!(cf.active_count(), 0);
}

#[test]
fn column_filters_match_a_result() {
    let f = ModelFit::analyze(&model("a/seven", "Acme", 7000, UseCase::Coding), &specs())
        .unwrap();
    let mut cf = ColumnFilters::new(vec![f.best_quant.clone()]);
    assert!(cf.matches_at(&f, 2025, 3));
    // Ask for at least 13B parameters: a 7B model fails.
    cf.adjust_right(2);
    cf.adjust_right(2);
    cf.adjust_right(2);
    cf.adjust_right(2);
    assert_eq!(cf.row_value_label(2), ">= 13B");
    assert!(!cf.matches_at(&f, 2025, 3));
    cf.reset_row(2);
    assert!(cf.matches_at(&f, 2025, 3));
    // The quantization filter keeps only the selected label.
    cf.adjust_right(7);
    assert!(cf.matches_at(&f, 2025, 3));
    // The use-case filter: General does not match a Coding model.
    cf.adjust_right(8);
    assert!(!cf.matches_at(&f, 2025, 3));
    cf.adjust_right(8);
    assert!(cf.matches_at(&f, 2025, 3));
    assert!(FILTER_ROW_COUNT == 9);
}

#[test]
fn filtering_keeps_passing_indices_in_order() {
    let s = specs();
    let fits: Vec<ModelFit> = vec![
        ModelFit::analyze(&model("a/coder", "Acme", 7000, UseCase::Coding), &s).unwrap(),
        ModelFit::analyze(&model("b/chat", "Beta", 7000, UseCase::Chat), &s).unwrap(),
        ModelFit::analyze(&model("c/coder-two", "Acme", 3000, UseCase::Coding), &s).unwrap(),
    ];
    let cf = ColumnFilters::new(vec!["Q4_K_M".to_string()]);
    let providers = vec!["Acme".to_string(), "Beta".to_string()];

    // No filters: everything passes.
    let all = filter_fits(
        &fits,
        &Vec::new(),
        &providers,
        &vec![true, true],
        FitFilter::All,
        &cf,
        2025,
        3,
    );
    assert_eq!(all, vec![0, 1, 2]);

    // Search for "coder": the two coding models pass, in input order.
    let coders = filter_fits(
        &fits,
        &vec!["coder".to_string()],
        &providers,
        &vec![true, true],
        FitFilter::All,
        &cf,
        2025,
        3,
    );
    assert_eq!(coders, vec![0, 2]);

    // Deselect the Acme provider: only the Beta model passes.
    let beta_only = filter_fits(
        &fits,
        &Vec::new(),
        &providers,
        &vec![false, true],
        FitFilter::All,
        &cf,
        2025,
        3,
    );
    assert_eq!(beta_only, vec![1]);

    // All three fit perfectly, so the TooTight filter keeps nothing.
    let none = filter_fits(
        &fits,
        &Vec::new(),
        &providers,
        &vec![true, true],
        FitFilter::TooTight,
        &cf,
        2025,
        3,
    );
    assert!(none.is_empty());
}
