//! Model descriptors and the built-in catalog.
//!
//! A model is described by its size, context window, intended use, and the
//! quantization variants it ships in, ordered from highest to lowest
//! fidelity. Parameter counts are carried in millions of parameters and
//! bytes-per-parameter in thousandths of a byte, so FP16 weights are
//! `bpp_milli = 2000` and a 7B model is `params_m = 7000`.

use vstd::prelude::*;

verus! {

/// Upper bound on parameter counts, in millions (one hundred trillion
/// parameters). Keeps memory products inside `u64`.
pub const PARAMS_M_LIMIT: u64 = 100_000_000;

/// Upper bound on bytes-per-parameter, in thousandths (100 bytes per
/// parameter).
pub const BPP_MILLI_LIMIT: u64 = 100_000;

/// What a model is primarily built for.
#[derive(Clone, Copy, Debug, PartialEq, Eq, Structural)]
pub enum UseCase {
    General,
    Coding,
    Reasoning,
    Chat,
    Multimodal,
    Embedding,
}

impl UseCase {
    /// Human-readable label shown in front ends.
    pub fn label(&self) -> (r: &'static str)
        ensures
            r@ == self.spec_label(),
    {
        match self {
            UseCase::General => "General",
            UseCase::Coding => "Coding",
            UseCase::Reasoning => "Reasoning",
            UseCase::Chat => "Chat",
            UseCase::Multimodal => "Multimodal",
            UseCase::Embedding => "Embedding",
        }
    }

    pub open spec fn spec_label(&self) -> Seq<char> {
        match self {
            UseCase::General => "General"@,
            UseCase::Coding => "Coding"@,
            UseCase::Reasoning => "Reasoning"@,
            UseCase::Chat => "Chat"@,
            UseCase::Multimodal => "Multimodal"@,
            UseCase::Embedding => "Embedding"@,
        }
    }
}

/// One reduced-precision encoding a model ships in.
pub struct QuantVariant {
    /// Display label, e.g. "FP16" or "Q4_K_M".
    pub label: String,
    /// Bytes of memory per parameter, in thousandths of a byte.
    pub bpp_milli: u64,
}

/// Mathematical model of a `QuantVariant`.
#[verifier::ext_equal]
pub struct QuantVariantView {
    pub label: Seq<char>,
    pub bpp_milli: u64,
}

impl View for QuantVariant {
    type V = QuantVariantView;

    open spec fn view(&self) -> QuantVariantView {
        QuantVariantView { label: self.label@, bpp_milli: self.bpp_milli }
    }
}

impl QuantVariant {
    pub open spec fn wf(&self) -> bool {
        self.bpp_milli <= BPP_MILLI_LIMIT
    }
}

impl Clone for QuantVariant {
    fn clone(&self) -> (r: Self)
        ensures
            r@ == self@,
    {
        QuantVariant { label: self.label.clone(), bpp_milli: self.bpp_milli }
    }
}

/// Immutable description of one model from the catalog.
pub struct LlmModel {
    pub name: String,
    pub provider: String,
    /// Display string for the parameter count, e.g. "8B".
    pub parameter_count: String,
    /// Total parameters, in millions.
    pub params_m: u64,
    /// Context window, in tokens.
    pub context_length: u32,
    pub use_case: UseCase,
    /// Release date as "YYYY-MM" or "YYYY-MM-DD", when known.
    pub release_date: Option<String>,
    /// Available quantizations, ordered from highest to lowest fidelity.
    pub quant_variants: Vec<QuantVariant>,
    /// True for mixture-of-experts architectures.
    pub is_mixture_of_experts: bool,
    /// Parameters resident per token for MoE models, in millions.
    pub active_params_m: Option<u64>,
}

/// Mathematical model of an `LlmModel`.
#[verifier::ext_equal]
pub struct LlmModelView {
    pub name: Seq<char>,
    pub provider: Seq<char>,
    pub parameter_count: Seq<char>,
    pub params_m: u64,
    pub context_length: u32,
    pub use_case: UseCase,
    pub release_date: Option<Seq<char>>,
    pub quant_variants: Seq<QuantVariantView>,
    pub is_mixture_of_experts: bool,
    pub active_params_m: Option<u64>,
}

impl View for LlmModel {
    type V = LlmModelView;

    open spec fn view(&self) -> LlmModelView {
        LlmModelView {
            name: self.name@,
            provider: self.provider@,
            parameter_count: self.parameter_count@,
            params_m: self.params_m,
            context_length: self.context_length,
            use_case: self.use_case,
            release_date: match self.release_date {
                Some(d) => Some(d@),
                None => None,
            },
            quant_variants: self.quant_variants@.map_values(|q: QuantVariant| q@),
            is_mixture_of_experts: self.is_mixture_of_experts,
            active_params_m: self.active_params_m,
        }
    }
}

impl LlmModelView {
    /// Well-formedness at the model level; mirrors `LlmModel::wf`.
    pub open spec fn wf(&self) -> bool {
        &&& self.params_m <= PARAMS_M_LIMIT
        &&& forall|i: int|
            0 <= i < self.quant_variants.len() ==> (#[trigger] self.quant_variants[i]).bpp_milli
                <= BPP_MILLI_LIMIT
        &&& (self.active_params_m matches Some(a) ==> a <= self.params_m)
    }
}

impl LlmModel {
    /// Well-formedness: sizes inside the engine's arithmetic limits, and an
    /// active-expert count never above the full parameter count.
    pub open spec fn wf(&self) -> bool {
        self@.wf()
    }
}

impl Clone for LlmModel {
    fn clone(&self) -> (r: Self)
        ensures
            r@ == self@,
    {
        let mut variants: Vec<QuantVariant> = Vec::new();
        let mut i: usize = 0;
        while i < self.quant_variants.len()
            invariant
                i <= self.quant_variants@.len(),
                variants@.len() == i,
                forall|k: int| 0 <= k < i ==> (#[trigger] variants@[k])@ == self.quant_variants@[k]@,
            decreases self.quant_variants@.len() - i,
        {
            variants.push(self.quant_variants[i].clone());
            i = i + 1;
        }
        let r = LlmModel {
            name: self.name.clone(),
            provider: self.provider.clone(),
            parameter_count: self.parameter_count.clone(),
            params_m: self.params_m,
            context_length: self.context_length,
            use_case: self.use_case,
            release_date: match &self.release_date {
                Some(d) => Some(d.clone()),
                None => None,
            },
            quant_variants: variants,
            is_mixture_of_experts: self.is_mixture_of_experts,
            active_params_m: self.active_params_m,
        };
        assert(r@.quant_variants =~= self@.quant_variants);
        assert(r@ =~= self@);
        r
    }
}

/// The built-in model catalog. Every entry is well-formed.
pub struct ModelDatabase {
    pub models: Vec<LlmModel>,
}

impl ModelDatabase {
    pub open spec fn wf(&self) -> bool {
        forall|i: int| 0 <= i < self.models@.len() ==> (#[trigger] self.models@[i]).wf()
    }

    /// A small catalog of widely used open-weight models. Every entry is
    /// well-formed and ships at least one quantization variant, so
    /// analysis succeeds on each.
    pub fn new() -> (db: ModelDatabase)
        ensures
            db.wf(),
            db.models@.len() > 0,
            forall|i: int|
                0 <= i < db.models@.len() ==> (#[trigger] db.models@[i]@).quant_variants.len() > 0,
    {
        let mut models: Vec<LlmModel> = Vec::new();
        models.push(catalog_entry(
            "meta-llama/Llama-3.1-8B-Instruct", "Meta", "8B", 8_000, 131072,
            UseCase::General, Some("2024-07"), false, None,
        ));
        models.push(catalog_entry(
            "meta-llama/Llama-3.3-70B-Instruct", "Meta", "70B", 70_000, 131072,
            UseCase::General, Some("2024-12"), false, None,
        ));
        models.push(catalog_entry(
            "mistralai/Mistral-7B-Instruct-v0.3", "Mistral", "7B", 7_000, 32768,
            UseCase::Chat, Some("2024-05"), false, None,
        ));
        models.push(catalog_entry(
            "mistralai/Mixtral-8x7B-Instruct-v0.1", "Mistral", "8x7B", 46_700, 32768,
            UseCase::General, Some("2023-12"), true, Some(12_900),
        ));
        models.push(catalog_entry(
            "Qwen/Qwen2.5-14B-Instruct", "Qwen", "14B", 14_000, 131072,
            UseCase::General, Some("2024-09"), false, None,
        ));
        models.push(catalog_entry(
            "Qwen/Qwen2.5-Coder-7B-Instruct", "Qwen", "7B", 7_000, 131072,
            UseCase::Coding, Some("2024-09"), false, None,
        ));
        models.push(catalog_entry(
            "deepseek-ai/DeepSeek-R1-Distill-Qwen-7B", "DeepSeek", "7B", 7_000, 131072,
            UseCase::Reasoning, Some("2025-01"), false, None,
        ));
        models.push(catalog_entry(
            "microsoft/Phi-4", "Microsoft", "14B", 14_000, 16384,
            UseCase::Reasoning, Some("2024-12"), false, None,
        ));
        models.push(catalog_entry(
            "google/gemma-2-9b-it", "Google", "9B", 9_000, 8192,
            UseCase::Chat, Some("2024-06"), false, None,
        ));
        models.push(catalog_entry(
            "nomic-ai/nomic-embed-text-v1.5", "Nomic", "137M", 137, 8192,
            UseCase::Embedding, Some("2024-02"), false, None,
        ));
        ModelDatabase { models }
    }

    pub fn get_all_models(&self) -> (r: &Vec<LlmModel>)
        ensures
            r@ == self.models@,
    {
        &self.models
    }
}

/// The standard ladder of quantization variants, highest fidelity first.
fn standard_variants() -> (v: Vec<QuantVariant>)
    ensures
        v@.len() == 5,
        forall|i: int| 0 <= i < v@.len() ==> (#[trigger] v@[i]).wf(),
{
    let mut v: Vec<QuantVariant> = Vec::new();
    v.push(QuantVariant { label: "FP16".to_owned(), bpp_milli: 2000 });
    v.push(QuantVariant { label: "Q8_0".to_owned(), bpp_milli: 1000 });
    v.push(QuantVariant { label: "Q5_K_M".to_owned(), bpp_milli: 675 });
    v.push(QuantVariant { label: "Q4_K_M".to_owned(), bpp_milli: 500 });
    v.push(QuantVariant { label: "Q2_K".to_owned(), bpp_milli: 350 });
    v
}

/// Build one catalog entry with the standard quantization ladder.
fn catalog_entry(
    name: &str,
    provider: &str,
    parameter_count: &str,
    params_m: u64,
    context_length: u32,
    use_case: UseCase,
    release_date: Option<&str>,
    is_mixture_of_experts: bool,
    active_params_m: Option<u64>,
) -> (m: LlmModel)
    requires
        params_m <= PARAMS_M_LIMIT,
        active_params_m matches Some(a) ==> a <= params_m,
    ensures
        m.wf(),
        m@.quant_variants.len() == 5,
{
    let date: Option<String> = match release_date {
        Some(d) => Some(d.to_owned()),
        None => None,
    };
    LlmModel {
        name: name.to_owned(),
        provider: provider.to_owned(),
        parameter_count: parameter_count.to_owned(),
        params_m,
        context_length,
        use_case,
        release_date: date,
        quant_variants: standard_variants(),
        is_mixture_of_experts,
        active_params_m,
    }
}

} // verus!
