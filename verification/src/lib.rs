//! Fit-scoring engine for running large-language models on local hardware.
//!
//! Given a description of a machine (CPU, memory, GPU) and a catalog of
//! model descriptors, the engine resolves the usable memory pools, picks the
//! best quantization variant that fits, classifies the execution mode,
//! estimates generation speed, composes a ranking score, and orders the
//! results deterministically. All memory sizes are carried in megabytes,
//! parameter counts in millions of parameters, and rates in tenths of
//! tokens per second, so that every computation is exact integer arithmetic.

pub mod hardware;
pub mod fit;
pub mod filters;
pub mod models;
pub mod providers;
pub mod rank;
pub mod scan;
pub mod strutil;

pub use fit::{AnalyzeError, FitLevel, ModelFit, RunMode, ScoreComponents};
pub use providers::{hf_name_to_ollama_candidates, is_model_installed, normalize_installed_tags, ollama_pull_tag, OllamaProvider};
pub use scan::{analyze_catalog, filter_fits, search_matches, searchable_text};
pub use rank::{rank_models_by_fit, rank_models_by_fit_opts_col, SortColumn};
pub use filters::{ColumnFilters, DateFilter, FitFilter, InputMode, ModeFilter, NumericFilter, QuantFilter, UseCaseFilter};
pub use hardware::{GpuBackend, MemoryPool, PoolTag, SystemSpecs};
pub use models::{LlmModel, ModelDatabase, QuantVariant, UseCase};
