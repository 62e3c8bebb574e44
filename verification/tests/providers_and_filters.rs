use llmfit_core::filters::{
    current_year_month, format_ym, year_month_from_unix_secs, DateFilter, FitFilter, InputMode,
    ModeFilter, QuantFilter, UseCaseFilter,
};
use llmfit_core::fit::{FitLevel, ModelFit, RunMode};
use llmfit_core::hardware::{GpuBackend, SystemSpecs};
use llmfit_core::models::{LlmModel, QuantVariant, UseCase};
use llmfit_core::providers::{
    hf_name_to_ollama_candidates, is_model_installed, normalize_installed_tags, ollama_pull_tag,
    tag_family, OllamaProvider,
};
use llmfit_core::scan::{analyze_catalog, search_matches, searchable_text};
use llmfit_core::strutil::{contains_sub, remove_all, str_eq, to_ascii_lower};

#[test]
fn candidates_use_the_known_mapping() {
    assert_eq!(
        hf_name_to_ollama_candidates("meta-llama/Llama-3.1-8B-Instruct"),
        vec!["llama3.1:8b".to_string()]
    );
    assert_eq!(
        hf_name_to_ollama_candidates("google/gemma-2-9b-it"),
        vec!["gemma2:9b".to_string()]
    );
    assert_eq!(
        hf_name_to_ollama_candidates("mistralai/Mixtral-8x7B-Instruct-v0.1"),
        vec!["mixtral:8x7b".to_string()]
    );
}

#[test]
fn candidates_fall_back_to_stripped_names() {
    assert_eq!(
        hf_name_to_ollama_candidates("someorg/MyModel-7B-Instruct"),
        vec!["mymodel-7b".to_string(), "mymodel-7b-instruct".to_string()]
    );
    // Without a slash the whole name is the repository.
    assert_eq!(
        hf_name_to_ollama_candidates("Plain-Chat"),
        vec!["plain".to_string(), "plain-chat".to_string()]
    );
}

#[test]
fn installed_check_matches_any_candidate() {
    let installed = vec!["gemma2:9b".to_string(), "llama3.1:8b".to_string()];
    assert!(is_model_installed("google/gemma-2-9b-it", &installed));
    assert!(is_model_installed("meta-llama/Llama-3.1-8B-Instruct", &installed));
    assert!(!is_model_installed("Qwen/Qwen2.5-14B-Instruct", &installed));
    assert!(!is_model_installed("google/gemma-2-9b-it", &Vec::new()));
}

#[test]
fn installed_tags_are_normalized() {
    let names = vec!["Llama3.1:8B-Instruct-Q4_K_M".to_string(), "phi4".to_string()];
    assert_eq!(
        normalize_installed_tags(&names),
        vec![
            "llama3.1:8b-instruct-q4_k_m".to_string(),
            "llama3.1".to_string(),
            "phi4".to_string(),
            "phi4".to_string(),
        ]
    );
    assert_eq!(tag_family("gemma2:9b"), "gemma2");
    assert_eq!(tag_family("plain"), "plain");
    let installed = normalize_installed_tags(&vec!["llama3.1:8b".to_string()]);
    assert!(is_model_installed("meta-llama/Llama-3.1-8B-Instruct", &installed));
}

#[test]
fn pull_tag_is_first_candidate() {
    assert_eq!(ollama_pull_tag("meta-llama/Llama-3.3-70B-Instruct"), "llama3.3:70b");
    assert_eq!(ollama_pull_tag("someorg/MyModel-7B-Instruct"), "mymodel-7b");
}

#[test]
fn api_url_trims_trailing_slashes() {
    let p = OllamaProvider::new();
    assert_eq!(p.api_url("tags"), "http://localhost:11434/api/tags");
    let q = OllamaProvider::with_base_url("http://example:1234//".to_string());
    assert_eq!(q.api_url("pull"), "http://example:1234/api/pull");
}

#[test]
fn string_helpers_exact_values() {
    assert_eq!(to_ascii_lower("MiXeD-Case_123"), "mixed-case_123");
    assert_eq!(remove_all("a-it-itb-it", "-it"), "ab");
    assert_eq!(remove_all("nochange", "-it"), "nochange");
    assert!(contains_sub("hello world", "lo wo"));
    assert!(!contains_sub("hello", "world"));
    assert!(contains_sub("anything", ""));
    assert!(str_eq("same", "same"));
    assert!(!str_eq("same", "other"));
}

#[test]
fn fit_filter_labels_and_cycle() {
    assert_eq!(FitFilter::All.label(), "All");
    assert_eq!(FitFilter::TooTight.label(), "Too Tight");
    let mut f = FitFilter::All;
    for _ in 0..6 {
        f = f.next();
    }
    assert_eq!(f, FitFilter::All);
    assert_eq!(FitFilter::All.next(), FitFilter::Runnable);
    assert!(FitFilter::Runnable.matches_level(FitLevel::Marginal));
    assert!(!FitFilter::Runnable.matches_level(FitLevel::TooTight));
    assert!(FitFilter::Perfect.matches_level(FitLevel::Perfect));
    assert!(!FitFilter::Perfect.matches_level(FitLevel::Good));
}

#[test]
fn calendar_from_unix_seconds() {
    assert_eq!(year_month_from_unix_secs(0), (1970, 1));
    assert_eq!(year_month_from_unix_secs(1_735_689_600), (2025, 1));
    assert_eq!(year_month_from_unix_secs(1_709_164_800), (2024, 2));
    let (y, m) = current_year_month();
    assert!((1970..=10010).contains(&y));
    assert!((1..=12).contains(&m));
}

#[test]
fn year_month_formatting() {
    assert_eq!(format_ym(2024, 9), "2024-09");
    assert_eq!(format_ym(987, 12), "0987-12");
}

#[test]
fn date_filter_cutoffs() {
    assert_eq!(DateFilter::Last6Months.cutoff_from(2025, 3), "2024-09");
    assert_eq!(DateFilter::LastYear.cutoff_from(2025, 3), "2024-03");
    assert_eq!(DateFilter::Last2Years.cutoff_from(2025, 3), "2023-03");
    assert_eq!(DateFilter::Any.cutoff_from(2025, 3), "0000-00");
}

#[test]
fn date_filter_matching() {
    let f = DateFilter::Last6Months;
    assert!(f.matches_at(&Some("2024-10".to_string()), 2025, 3));
    assert!(f.matches_at(&Some("2024-09-15".to_string()), 2025, 3));
    assert!(!f.matches_at(&Some("2024-08".to_string()), 2025, 3));
    assert!(!f.matches_at(&None, 2025, 3));
    assert!(!f.matches_at(&Some("2024".to_string()), 2025, 3));
    assert!(DateFilter::Any.matches_at(&None, 2025, 3));
    assert!(DateFilter::Any.matches(&None));
}

#[test]
fn date_filter_cycle() {
    let mut f = DateFilter::Any;
    f.cycle_right();
    assert_eq!(f, DateFilter::Last2Years);
    f.cycle_right();
    assert_eq!(f, DateFilter::LastYear);
    f.cycle_right();
    assert_eq!(f, DateFilter::Last6Months);
    f.cycle_right();
    assert_eq!(f, DateFilter::Last6Months);
    f.cycle_left();
    assert_eq!(f, DateFilter::LastYear);
    f.reset();
    assert_eq!(f, DateFilter::Any);
    assert!(!f.is_active());
}

#[test]
fn mode_filter_cycle_and_match() {
    let mut f = ModeFilter::new();
    assert!(!f.is_active());
    assert_eq!(f.label(), "All");
    assert!(f.matches(RunMode::CpuOnly));
    f.cycle_right();
    assert_eq!(f.label(), "GPU");
    assert!(f.matches(RunMode::Gpu));
    assert!(!f.matches(RunMode::CpuOnly));
    f.cycle_left();
    assert!(!f.is_active());
    f.cycle_left();
    assert_eq!(f.label(), "CPU");
    f.reset();
    assert!(!f.is_active());
}

#[test]
fn use_case_filter_cycle_and_match() {
    let mut f = UseCaseFilter::new();
    assert_eq!(f.label(), "All");
    f.cycle_right();
    assert_eq!(f.label(), "General");
    assert!(f.matches(UseCase::General));
    assert!(!f.matches(UseCase::Coding));
    f.cycle_right();
    assert!(f.matches(UseCase::Coding));
    f.reset();
    assert!(f.matches(UseCase::Embedding));
}

#[test]
fn quant_filter_cycle_and_match() {
    let mut f = QuantFilter::new(vec!["Q4_K_M".to_string(), "Q8_0".to_string()]);
    assert_eq!(f.label(), "All");
    assert!(f.matches("anything"));
    f.cycle_right();
    assert_eq!(f.label(), "Q4_K_M");
    assert!(f.matches("Q4_K_M"));
    assert!(!f.matches("Q8_0"));
    f.cycle_right();
    assert!(f.matches("Q8_0"));
    f.cycle_right();
    assert!(!f.is_active());
    let mut empty = QuantFilter::new(Vec::new());
    empty.cycle_right();
    assert!(!empty.is_active());
}

#[test]
fn input_modes_are_distinct() {
    assert_ne!(InputMode::Normal, InputMode::Search);
    assert_ne!(InputMode::ProviderPopup, InputMode::FilterPopup);
}

fn small_model(name: &str) -> LlmModel {
    LlmModel {
        name: name.to_string(),
        provider: "Acme".to_string(),
        parameter_count: "7B".to_string(),
        params_m: 7000,
        context_length: 8192,
        use_case: UseCase::Coding,
        release_date: Some("2024-06".to_string()),
        quant_variants: vec![QuantVariant { label: "Q4_K_M".to_string(), bpp_milli: 500 }],
        is_mixture_of_experts: false,
        active_params_m: None,
    }
}

fn test_specs() -> SystemSpecs {
    SystemSpecs {
        cpu_name: "cpu".to_string(),
        cpu_cores: 8,
        total_ram_mb: 16000,
        gpu_name: Some("gpu".to_string()),
        gpu_backend: GpuBackend::Metal,
        gpu_vram_mb: None,
        unified_memory: true,
    }
}

#[test]
fn catalog_scan_marks_installed_and_ranks() {
    let models = vec![small_model("acme/coder-7b-instruct"), small_model("acme/other-7b")];
    let installed = vec!["coder-7b".to_string()];
    let fits = analyze_catalog(&models, &test_specs(), None, &installed);
    assert_eq!(fits.len(), 2);
    let by_name: Vec<(String, bool)> =
        fits.iter().map(|f| (f.model.name.clone(), f.installed)).collect();
    assert!(by_name.contains(&("acme/coder-7b-instruct".to_string(), true)));
    assert!(by_name.contains(&("acme/other-7b".to_string(), false)));
    for w in fits.windows(2) {
        assert!(w[0].fit_level.rank() <= w[1].fit_level.rank());
    }
}

#[test]
fn search_text_and_matching() {
    let f = ModelFit::analyze(&small_model("Acme/Coder-7B"), &test_specs()).unwrap();
    assert_eq!(searchable_text(&f), "acme/coder-7b acme 7b coding");
    assert!(search_matches(&f, "CODER"));
    assert!(search_matches(&f, "acme"));
    assert!(search_matches(&f, "coding"));
    assert!(!search_matches(&f, "vision"));
}
