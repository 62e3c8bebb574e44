//! The fit-scoring engine: memory arithmetic, quantization selection,
//! run-mode classification, speed estimation, and score composition.
//!
//! Every quantity is exact integer arithmetic: memory in megabytes,
//! parameters in millions, bytes-per-parameter in thousandths, speed in
//! tenths of tokens per second, utilization and scores in whole percent.

use vstd::prelude::*;

use crate::hardware::{spec_resolve_pools, resolve_pools, GpuBackend, MemoryPool, PoolTag,
    SystemSpecs, SystemSpecsView};
use crate::models::{LlmModel, LlmModelView, UseCase, BPP_MILLI_LIMIT, PARAMS_M_LIMIT};

verus! {

/// Runtime overhead on top of raw weight bytes (KV cache, buffers), as a
/// percentage: required memory is weights times 1.15.
pub const OVERHEAD_PCT: u64 = 115;

/// Utilization reported for a zero-size memory budget, where the exact
/// ratio is undefined; far above 100 so the verdict is always `TooTight`.
pub const UTIL_EMPTY_POOL: u64 = 1_000_000;

/// Largest value `spec_required_mb` can take for a well-formed model:
/// `PARAMS_M_LIMIT * BPP_MILLI_LIMIT * OVERHEAD_PCT / 100_000`.
pub const REQUIRED_MB_LIMIT: u64 = 11_500_000_000;

/// Memory needed to hold `params_m` million parameters at `bpp_milli`
/// thousandths of a byte per parameter, with runtime overhead, in
/// megabytes. A million parameters at one byte each is one megabyte, so
/// the milli-units and the percentage divide out as one factor of 100 000.
pub open spec fn spec_required_mb(params_m: u64, bpp_milli: u64) -> int {
    params_m * bpp_milli * OVERHEAD_PCT / 100_000
}

/// Memory required, in megabytes. Exact integer form of
/// `params * bytes_per_parameter * overhead`.
pub fn required_mb(params_m: u64, bpp_milli: u64) -> (r: u64)
    requires
        params_m <= PARAMS_M_LIMIT,
        bpp_milli <= BPP_MILLI_LIMIT,
    ensures
        r == spec_required_mb(params_m, bpp_milli),
        r <= REQUIRED_MB_LIMIT,
{
    proof {
        assert(params_m * bpp_milli <= PARAMS_M_LIMIT * BPP_MILLI_LIMIT) by (nonlinear_arith)
            requires
                params_m <= PARAMS_M_LIMIT,
                bpp_milli <= BPP_MILLI_LIMIT,
        ;
    }
    params_m * bpp_milli * OVERHEAD_PCT / 100_000
}

/// Utilization of a memory budget, in whole percent, rounded *up*: the
/// ceiling keeps threshold comparisons exact — `utilization <= k` holds
/// exactly when `required * 100 <= k * available` — so in particular a
/// model needing even one megabyte more than the budget reads over 100.
/// A zero-size budget reports `UTIL_EMPTY_POOL`.
pub open spec fn spec_utilization_pct(required_mb: int, available_mb: u64) -> int {
    if available_mb == 0 {
        UTIL_EMPTY_POOL as int
    } else {
        (required_mb * 100 + available_mb - 1) / (available_mb as int)
    }
}

pub fn utilization_pct(required_mb: u64, available_mb: u64) -> (r: u64)
    requires
        required_mb <= REQUIRED_MB_LIMIT,
        available_mb <= 2 * crate::hardware::RAM_MB_LIMIT,
    ensures
        r == spec_utilization_pct(required_mb as int, available_mb),
{
    if available_mb == 0 {
        UTIL_EMPTY_POOL
    } else {
        (required_mb * 100 + (available_mb - 1)) / available_mb
    }
}

/// The ceiling is exact: utilization compares to any whole-percent bound
/// exactly as the true ratio does, and exceeds 100 exactly when the model
/// does not fit.
pub proof fn lemma_utilization_ceiling(required_mb: int, available_mb: u64, k: int)
    requires
        required_mb >= 0,
        available_mb > 0,
    ensures
        spec_utilization_pct(required_mb, available_mb) <= k <==> required_mb * 100 <= k * (
        available_mb as int),
        spec_utilization_pct(required_mb, available_mb) > 100 <==> required_mb > available_mb,
{
    let a = available_mb as int;
    let u = (required_mb * 100 + a - 1) / a;
    vstd::arithmetic::div_mod::lemma_fundamental_div_mod(required_mb * 100 + a - 1, a);
    assert(u <= k <==> required_mb * 100 <= k * a) by (nonlinear_arith)
        requires
            a > 0,
            required_mb >= 0,
            required_mb * 100 + a - 1 == u * a + (required_mb * 100 + a - 1) % a,
            0 <= (required_mb * 100 + a - 1) % a < a,
    ;
    assert(u <= 100 <==> required_mb * 100 <= 100 * a) by (nonlinear_arith)
        requires
            a > 0,
            required_mb >= 0,
            required_mb * 100 + a - 1 == u * a + (required_mb * 100 + a - 1) % a,
            0 <= (required_mb * 100 + a - 1) % a < a,
    ;
    assert(required_mb * 100 <= 100 * a <==> required_mb <= a) by (nonlinear_arith)
        requires
            a > 0,
    ;
}

/// How comfortably a model sits inside the selected budget.
#[derive(Clone, Copy, Debug, PartialEq, Eq, Structural)]
pub enum FitLevel {
    Perfect,
    Good,
    Marginal,
    TooTight,
}

impl FitLevel {
    /// Position in the ranking order; lower is better.
    pub open spec fn spec_rank(&self) -> u64 {
        match self {
            FitLevel::Perfect => 0,
            FitLevel::Good => 1,
            FitLevel::Marginal => 2,
            FitLevel::TooTight => 3,
        }
    }

    #[verifier::when_used_as_spec(spec_rank)]
    pub fn rank(&self) -> (r: u64)
        ensures
            r == self.spec_rank(),
    {
        match self {
            FitLevel::Perfect => 0,
            FitLevel::Good => 1,
            FitLevel::Marginal => 2,
            FitLevel::TooTight => 3,
        }
    }
}

/// The discrete verdict is a function of utilization alone, through fixed
/// thresholds.
pub open spec fn spec_fit_level(util_pct: int) -> FitLevel {
    if util_pct <= 70 {
        FitLevel::Perfect
    } else if util_pct <= 90 {
        FitLevel::Good
    } else if util_pct <= 100 {
        FitLevel::Marginal
    } else {
        FitLevel::TooTight
    }
}

pub fn fit_level_of(util_pct: u64) -> (r: FitLevel)
    ensures
        r == spec_fit_level(util_pct as int),
{
    if util_pct <= 70 {
        FitLevel::Perfect
    } else if util_pct <= 90 {
        FitLevel::Good
    } else if util_pct <= 100 {
        FitLevel::Marginal
    } else {
        FitLevel::TooTight
    }
}

/// Integer square root, defined by counting up; `spec_isqrt(n)` is the
/// largest `r` with `r * r <= n`.
pub open spec fn spec_isqrt(n: nat) -> nat
    decreases n,
{
    if n == 0 {
        0
    } else {
        let r = spec_isqrt((n - 1) as nat);
        if (r + 1) * (r + 1) <= n {
            r + 1
        } else {
            r
        }
    }
}

/// `spec_isqrt(n)` squares to at most `n`, and is the last value to do so.
pub proof fn lemma_isqrt_sound(n: nat)
    ensures
        spec_isqrt(n) * spec_isqrt(n) <= n,
        n < (spec_isqrt(n) + 1) * (spec_isqrt(n) + 1),
    decreases n,
{
    if n == 0 {
        assert(spec_isqrt(0) == 0);
        assert(n < (spec_isqrt(n) + 1) * (spec_isqrt(n) + 1)) by (nonlinear_arith)
            requires
                n == 0,
                spec_isqrt(n) == 0,
        ;
    } else {
        lemma_isqrt_sound((n - 1) as nat);
        let r = spec_isqrt((n - 1) as nat);
        if (r + 1) * (r + 1) <= n {
            assert(spec_isqrt(n) == r + 1);
            assert(n - 1 < (r + 1) * (r + 1));
            assert(n == (r + 1) * (r + 1));
            assert((r + 1) * (r + 1) < (r + 2) * (r + 2)) by (nonlinear_arith)
                requires
                    r >= 0,
            ;
        } else {
            assert(spec_isqrt(n) == r);
            assert(r * r <= n - 1 <= n);
            assert(n < (r + 1) * (r + 1));
        }
    }
}

/// Any `r` with `r * r <= n < (r + 1) * (r + 1)` is the integer square root.
pub proof fn lemma_isqrt_unique(n: nat, r: nat)
    requires
        r * r <= n,
        n < (r + 1) * (r + 1),
    ensures
        r == spec_isqrt(n),
{
    let s = spec_isqrt(n);
    lemma_isqrt_sound(n);
    if r < s {
        assert((r + 1) * (r + 1) <= s * s) by (nonlinear_arith)
            requires
                r + 1 <= s,
                r >= 0,
        ;
    }
    if s < r {
        assert((s + 1) * (s + 1) <= r * r) by (nonlinear_arith)
            requires
                s + 1 <= r,
                s >= 0,
        ;
    }
}

/// Integer square root by counting up.
pub fn isqrt(n: u64) -> (r: u64)
    requires
        n <= 10_000_000_000_000_000,
    ensures
        r == spec_isqrt(n as nat),
        r * r <= n < (r + 1) * (r + 1),
{
    let mut r: u64 = 0;
    while (r + 1) * (r + 1) <= n
        invariant
            n <= 10_000_000_000_000_000,
            r * r <= n,
            r <= 100_000_000,
            (r + 1) * (r + 1) <= 0xffff_ffff_ffff_ffff,
        decreases n - r * r,
    {
        r = r + 1;
        proof {
            assert(r <= 100_000_000) by (nonlinear_arith)
                requires
                    r * r <= 10_000_000_000_000_000,
                    r >= 0,
            ;
            assert((r + 1) * (r + 1) <= 0xffff_ffff_ffff_ffff) by (nonlinear_arith)
                requires
                    r <= 100_000_000,
            ;
            assert(r * r > (r - 1) * (r - 1)) by (nonlinear_arith)
                requires
                    r >= 1,
            ;
        }
    }
    proof {
        lemma_isqrt_unique(n as nat, r as nat);
    }
    r
}

/// First variant at index `i` or later whose footprint fits `size_mb`.
/// Variants are ordered from highest to lowest fidelity, so the first fit
/// is also the highest-fidelity fit; walking in order likewise settles the
/// tie between variants of equal footprint in favour of higher fidelity.
pub open spec fn spec_variant_fit(m: LlmModelView, size_mb: u64, i: int) -> Option<int>
    decreases m.quant_variants.len() - i,
{
    if i < 0 || i >= m.quant_variants.len() {
        None
    } else if spec_required_mb(m.params_m, m.quant_variants[i].bpp_milli) <= size_mb {
        Some(i)
    } else {
        spec_variant_fit(m, size_mb, i + 1)
    }
}

/// First pool at index `j` or later holding any variant, paired with that
/// pool's first fitting variant.
pub open spec fn spec_pool_fit(m: LlmModelView, pools: Seq<MemoryPool>, j: int) -> Option<
    (int, int),
>
    decreases pools.len() - j,
{
    if j < 0 || j >= pools.len() {
        None
    } else {
        match spec_variant_fit(m, pools[j].size_mb, 0) {
            Some(i) => Some((j, i)),
            None => spec_pool_fit(m, pools, j + 1),
        }
    }
}

/// Index of the largest pool, scanning from `j` with current best `best`;
/// the first of several equally large pools wins.
pub open spec fn spec_largest_pool(pools: Seq<MemoryPool>, j: int, best: int) -> int
    decreases pools.len() - j,
{
    if j < 0 || j >= pools.len() {
        best
    } else if 0 <= best < pools.len() && pools[j].size_mb > pools[best].size_mb {
        spec_largest_pool(pools, j + 1, j)
    } else {
        spec_largest_pool(pools, j + 1, best)
    }
}

/// The selection the engine makes: `(pool index, variant index, fits)`.
/// When some variant fits some pool, it is the first such pool and that
/// pool's first (highest-fidelity) fitting variant. When nothing fits
/// anywhere, the engine falls back to the lowest-fidelity variant against
/// the largest pool, and `fits` is false.
pub open spec fn spec_selection(m: LlmModelView, pools: Seq<MemoryPool>) -> (int, int, bool) {
    match spec_pool_fit(m, pools, 0) {
        Some((j, i)) => (j, i, true),
        None => (spec_largest_pool(pools, 1, 0), m.quant_variants.len() - 1, false),
    }
}

/// Walk the pools in preference order and, inside each, the variants from
/// highest fidelity down; return the first hit, or the fallback
/// `(largest pool, lowest-fidelity variant, false)` when nothing fits.
pub fn select_quant(m: &LlmModel, pools: &Vec<MemoryPool>) -> (sel: (usize, usize, bool))
    requires
        m.wf(),
        m.quant_variants@.len() >= 1,
        pools@.len() >= 1,
    ensures
        (sel.0 as int, sel.1 as int, sel.2) == spec_selection(m@, pools@),
        sel.0 < pools@.len(),
        sel.1 < m.quant_variants@.len(),
{
    let ghost mv = m@;
    let ghost pv = pools@;
    let mut j: usize = 0;
    while j < pools.len()
        invariant
            m.wf(),
            mv == m@,
            pv == pools@,
            m.quant_variants@.len() >= 1,
            j <= pools@.len(),
            spec_pool_fit(mv, pv, 0) == spec_pool_fit(mv, pv, j as int),
        decreases pools@.len() - j,
    {
        let size = pools[j].size_mb;
        let mut i: usize = 0;
        while i < m.quant_variants.len()
            invariant
                m.wf(),
                mv == m@,
                pv == pools@,
                j < pools@.len(),
                size == pv[j as int].size_mb,
                spec_pool_fit(mv, pv, 0) == spec_pool_fit(mv, pv, j as int),
                i <= m.quant_variants@.len(),
                spec_variant_fit(mv, size, 0) == spec_variant_fit(mv, size, i as int),
            decreases m.quant_variants@.len() - i,
        {
            let req = required_mb(m.params_m, m.quant_variants[i].bpp_milli);
            if req <= size {
                proof {
                    assert(spec_variant_fit(mv, size, i as int) == Some(i as int));
                    assert(spec_pool_fit(mv, pv, j as int) == Some((j as int, i as int)));
                }
                return (j, i, true);
            }
            i = i + 1;
        }
        assert(spec_variant_fit(mv, size, 0) is None);
        j = j + 1;
    }
    // Nothing fits anywhere: fall back to the largest pool and the
    // lowest-fidelity variant.
    let mut best: usize = 0;
    let mut k: usize = 1;
    while k < pools.len()
        invariant
            pv == pools@,
            pools@.len() >= 1,
            best < pools@.len(),
            1 <= k <= pools@.len(),
            spec_largest_pool(pv, 1, 0) == spec_largest_pool(pv, k as int, best as int),
        decreases pools@.len() - k,
    {
        if pools[k].size_mb > pools[best].size_mb {
            best = k;
        }
        k = k + 1;
    }
    (best, m.quant_variants.len() - 1, false)
}

/// The execution placement strategy for a model's weights.
#[derive(Clone, Copy, Debug, PartialEq, Eq, Structural)]
pub enum RunMode {
    Gpu,
    MoeOffload,
    CpuOffload,
    CpuOnly,
}

/// Classify the run mode from the selected pool's tag and the model's
/// mixture-of-experts hints. A split (CPU-offload) placement is upgraded
/// to MoE offload when only the active-expert footprint fits the dedicated
/// GPU pool while the full weights live in system memory; a model that
/// fits nowhere is reported CPU-only.
pub open spec fn spec_run_mode(m: LlmModelView, pools: Seq<MemoryPool>, sel: (int, int, bool)) -> RunMode {
    if !sel.2 {
        RunMode::CpuOnly
    } else {
        match pools[sel.0].tag {
            PoolTag::Gpu => RunMode::Gpu,
            PoolTag::CpuOffload => if m.is_mixture_of_experts && m.active_params_m is Some
                && spec_required_mb(m.active_params_m->0, m.quant_variants[sel.1].bpp_milli)
                    <= pools[0].size_mb {
                RunMode::MoeOffload
            } else {
                RunMode::CpuOffload
            },
            PoolTag::CpuOnly => RunMode::CpuOnly,
        }
    }
}

pub fn classify_run_mode(m: &LlmModel, pools: &Vec<MemoryPool>, sel: (usize, usize, bool)) -> (r:
    RunMode)
    requires
        m.wf(),
        pools@.len() >= 1,
        sel.0 < pools@.len(),
        sel.1 < m.quant_variants@.len(),
    ensures
        r == spec_run_mode(m@, pools@, (sel.0 as int, sel.1 as int, sel.2)),
{
    if !sel.2 {
        return RunMode::CpuOnly;
    }
    match pools[sel.0].tag {
        PoolTag::Gpu => RunMode::Gpu,
        PoolTag::CpuOffload => {
            if m.is_mixture_of_experts {
                match m.active_params_m {
                    Some(active) => {
                        let active_req = required_mb(active, m.quant_variants[sel.1].bpp_milli);
                        if active_req <= pools[0].size_mb {
                            RunMode::MoeOffload
                        } else {
                            RunMode::CpuOffload
                        }
                    }
                    None => RunMode::CpuOffload,
                }
            } else {
                RunMode::CpuOffload
            }
        }
        PoolTag::CpuOnly => RunMode::CpuOnly,
    }
}

/// Base generation rate for a fully GPU-resident model on a discrete GPU,
/// in tenths of a token per second, before dividing by the size factor.
pub const BASE_GPU_DISCRETE_TPS_TENTHS: u64 = 120_000;

/// Base rate for GPU execution out of unified memory.
pub const BASE_GPU_UNIFIED_TPS_TENTHS: u64 = 70_000;

/// Base rate when weights stream through CPU memory; markedly lower than
/// either GPU class.
pub const BASE_CPU_TPS_TENTHS: u64 = 9_000;

/// Conservative floor used when the model's size is unknown (zero), in
/// tenths of a token per second.
pub const MIN_TPS_TENTHS: u64 = 10;

/// Base rate by run mode and backend class: discrete GPU backends above
/// unified-memory GPU above CPU-only.
pub open spec fn spec_base_rate(mode: RunMode, backend: GpuBackend, unified: bool) -> u64 {
    match mode {
        RunMode::Gpu | RunMode::MoeOffload => if backend.spec_is_discrete() && !unified {
            BASE_GPU_DISCRETE_TPS_TENTHS
        } else if backend.spec_is_gpu() {
            BASE_GPU_UNIFIED_TPS_TENTHS
        } else {
            BASE_CPU_TPS_TENTHS
        },
        RunMode::CpuOffload | RunMode::CpuOnly => BASE_CPU_TPS_TENTHS,
    }
}

pub fn base_rate(mode: RunMode, backend: GpuBackend, unified: bool) -> (r: u64)
    ensures
        r == spec_base_rate(mode, backend, unified),
        BASE_CPU_TPS_TENTHS <= r <= BASE_GPU_DISCRETE_TPS_TENTHS,
{
    match mode {
        RunMode::Gpu | RunMode::MoeOffload => {
            if backend.is_discrete() && !unified {
                BASE_GPU_DISCRETE_TPS_TENTHS
            } else if backend.is_gpu() {
                BASE_GPU_UNIFIED_TPS_TENTHS
            } else {
                BASE_CPU_TPS_TENTHS
            }
        }
        RunMode::CpuOffload | RunMode::CpuOnly => BASE_CPU_TPS_TENTHS,
    }
}

/// The parameter count that must stream through fast memory per token:
/// only the active experts for an MoE-offloaded model.
pub open spec fn spec_params_for_speed(m: LlmModelView, mode: RunMode) -> u64 {
    if mode == RunMode::MoeOffload && m.active_params_m is Some {
        m.active_params_m->0
    } else {
        m.params_m
    }
}

pub fn params_for_speed(m: &LlmModel, mode: RunMode) -> (r: u64)
    requires
        m.wf(),
    ensures
        r == spec_params_for_speed(m@, mode),
        r <= PARAMS_M_LIMIT,
{
    if mode == RunMode::MoeOffload {
        match m.active_params_m {
            Some(a) => a,
            None => m.params_m,
        }
    } else {
        m.params_m
    }
}

/// Estimated speed: base rate divided by the integer square root of the
/// streamed parameter count (sub-linear slowdown with size), in tenths of
/// a token per second; a conservative floor when the size is unknown.
pub open spec fn spec_tps_tenths(m: LlmModelView, mode: RunMode, backend: GpuBackend, unified: bool) -> int {
    let p = spec_params_for_speed(m, mode);
    let d = spec_isqrt(p as nat);
    if d == 0 {
        MIN_TPS_TENTHS as int
    } else {
        (spec_base_rate(mode, backend, unified) as int) / (d as int)
    }
}

pub fn estimated_tps_tenths(m: &LlmModel, mode: RunMode, specs: &SystemSpecs) -> (r: u64)
    requires
        m.wf(),
    ensures
        r == spec_tps_tenths(m@, mode, specs.gpu_backend, specs.unified_memory),
        r <= BASE_GPU_DISCRETE_TPS_TENTHS,
{
    let p = params_for_speed(m, mode);
    let d = isqrt(p);
    let base = base_rate(mode, specs.gpu_backend, specs.unified_memory);
    if d == 0 {
        MIN_TPS_TENTHS
    } else {
        base / d
    }
}

/// The memory-fit sub-score peaks at 100 in the ideal utilization band of
/// 40 to 70 percent, decays linearly toward zero utilization (wasted
/// capacity) and past the band toward overflow, and is zero beyond 120.
pub open spec fn spec_fit_score(util: int) -> int {
    if util < 40 {
        util * 100 / 40
    } else if util <= 70 {
        100
    } else if util <= 120 {
        (120 - util) * 2
    } else {
        0
    }
}

pub fn fit_score(util: u64) -> (r: u64)
    ensures
        r == spec_fit_score(util as int),
        r <= 100,
{
    if util < 40 {
        util * 100 / 40
    } else if util <= 70 {
        100
    } else if util <= 120 {
        (120 - util) * 2
    } else {
        0
    }
}

/// Saturating, monotonic map of speed to 0..100.
pub open spec fn spec_speed_score(tps_tenths: int) -> int {
    let s = spec_isqrt((tps_tenths * 10) as nat);
    if s > 100 {
        100
    } else {
        s as int
    }
}

pub fn speed_score(tps_tenths: u64) -> (r: u64)
    requires
        tps_tenths <= BASE_GPU_DISCRETE_TPS_TENTHS,
    ensures
        r == spec_speed_score(tps_tenths as int),
        r <= 100,
{
    let s = isqrt(tps_tenths * 10);
    if s > 100 {
        100
    } else {
        s
    }
}

/// Saturating, monotonic map of model size to 0..100, standing in for the
/// tendency of larger models to produce better output.
pub open spec fn spec_quality_score(params_m: u64) -> int {
    let q = spec_isqrt(params_m as nat);
    if q > 100 {
        100
    } else {
        q as int
    }
}

pub fn quality_score(params_m: u64) -> (r: u64)
    requires
        params_m <= PARAMS_M_LIMIT,
    ensures
        r == spec_quality_score(params_m),
        r <= 100,
{
    let q = isqrt(params_m);
    if q > 100 {
        100
    } else {
        q
    }
}

/// Ratio of the model's context window to the requested reference context,
/// saturating at 100. Without an explicit reference the model's own
/// context is the reference, scoring 100.
pub open spec fn spec_context_score(context_length: u32, context_limit: Option<u32>) -> int {
    let reference = match context_limit {
        Some(l) => l,
        None => context_length,
    };
    if reference == 0 {
        100
    } else {
        let sc = context_length * 100 / (reference as int);
        if sc > 100 {
            100
        } else {
            sc
        }
    }
}

pub fn context_score(context_length: u32, context_limit: Option<u32>) -> (r: u64)
    ensures
        r == spec_context_score(context_length, context_limit),
        r <= 100,
{
    let reference: u32 = match context_limit {
        Some(l) => l,
        None => context_length,
    };
    if reference == 0 {
        100
    } else {
        let sc = (context_length as u64) * 100 / (reference as u64);
        if sc > 100 {
            100
        } else {
            sc
        }
    }
}

/// Fixed weights, summing to 100 percent: hardware fit dominates, so raw
/// capability alone cannot overcome a poor fit.
pub open spec fn spec_total_score(fit: int, speed: int, quality: int, context: int) -> int {
    (35 * fit + 25 * speed + 25 * quality + 15 * context) / 100
}

pub fn total_score(fit: u64, speed: u64, quality: u64, context: u64) -> (r: u64)
    requires
        fit <= 100,
        speed <= 100,
        quality <= 100,
        context <= 100,
    ensures
        r == spec_total_score(fit as int, speed as int, quality as int, context as int),
        r <= 100,
{
    (35 * fit + 25 * speed + 25 * quality + 15 * context) / 100
}

/// The four sub-scores, each 0..100.
#[derive(Clone, Copy, Debug, PartialEq, Eq, Structural)]
pub struct ScoreComponents {
    pub fit: u64,
    pub speed: u64,
    pub quality: u64,
    pub context: u64,
}

/// The reportable failure: analysis refuses malformed input instead of
/// coercing it into a fit result.
#[derive(Clone, Copy, Debug, PartialEq, Eq, Structural)]
pub enum AnalyzeError {
    /// The model declares no quantization variants at all.
    NoQuantVariants,
}

/// The computed verdict for one (hardware, model) pair.
pub struct ModelFit {
    /// A copy of the source model descriptor.
    pub model: LlmModel,
    pub memory_required_mb: u64,
    pub memory_available_mb: u64,
    /// Required over available, as a percentage rounded up to the next
    /// whole percent; `UTIL_EMPTY_POOL` when the budget is zero.
    pub utilization_pct: u64,
    /// Label of the selected quantization variant.
    pub best_quant: String,
    pub run_mode: RunMode,
    pub estimated_tps_tenths: u64,
    pub fit_level: FitLevel,
    pub score: u64,
    pub score_components: ScoreComponents,
    /// Set after the fact by an external caller; never computed here.
    pub installed: bool,
    /// Explanations for unusual decisions, appended during analysis.
    pub notes: Vec<String>,
    /// Convenience copy of the model's use case.
    pub use_case: UseCase,
}

/// Mathematical model of a `ModelFit`.
#[verifier::ext_equal]
pub struct ModelFitView {
    pub model: LlmModelView,
    pub memory_required_mb: u64,
    pub memory_available_mb: u64,
    pub utilization_pct: u64,
    pub best_quant: Seq<char>,
    pub run_mode: RunMode,
    pub estimated_tps_tenths: u64,
    pub fit_level: FitLevel,
    pub score: u64,
    pub score_components: ScoreComponents,
    pub installed: bool,
    pub notes: Seq<Seq<char>>,
    pub use_case: UseCase,
}

impl View for ModelFit {
    type V = ModelFitView;

    open spec fn view(&self) -> ModelFitView {
        ModelFitView {
            model: self.model@,
            memory_required_mb: self.memory_required_mb,
            memory_available_mb: self.memory_available_mb,
            utilization_pct: self.utilization_pct,
            best_quant: self.best_quant@,
            run_mode: self.run_mode,
            estimated_tps_tenths: self.estimated_tps_tenths,
            fit_level: self.fit_level,
            score: self.score,
            score_components: self.score_components,
            installed: self.installed,
            notes: self.notes@.map_values(|s: String| s@),
            use_case: self.use_case,
        }
    }
}

/// The notes analysis records: one when no quantization fits anywhere,
/// one when the model's size is unknown and the speed estimate fell back
/// to its floor.
pub open spec fn spec_notes(fits: bool, unknown_size: bool) -> Seq<Seq<char>> {
    let a: Seq<Seq<char>> = if fits {
        Seq::empty()
    } else {
        seq!["no quantization fits; using lowest available"@]
    };
    let b: Seq<Seq<char>> = if unknown_size {
        seq!["unknown model size; using minimum speed estimate"@]
    } else {
        Seq::empty()
    };
    a + b
}

/// Everything `analyze` promises of a successful result: each field is an
/// exact function of the model, the machine, and the context limit.
pub open spec fn analyzed(
    model: LlmModelView,
    specs: SystemSpecsView,
    context_limit: Option<u32>,
    fit: ModelFitView,
) -> bool {
    let pools = spec_resolve_pools(specs);
    let sel = spec_selection(model, pools);
    let bpp = model.quant_variants[sel.1].bpp_milli;
    let req = spec_required_mb(model.params_m, bpp);
    let avail = pools[sel.0].size_mb;
    let util = spec_utilization_pct(req, avail);
    let mode = spec_run_mode(model, pools, sel);
    let tps = spec_tps_tenths(model, mode, specs.gpu_backend, specs.unified_memory);
    &&& fit.model == model
    &&& fit.memory_required_mb == req
    &&& fit.memory_available_mb == avail
    &&& fit.utilization_pct == util
    &&& fit.best_quant == model.quant_variants[sel.1].label
    &&& fit.run_mode == mode
    &&& fit.estimated_tps_tenths == tps
    &&& fit.fit_level == spec_fit_level(util)
    &&& fit.score_components.fit == spec_fit_score(util)
    &&& fit.score_components.speed == spec_speed_score(tps)
    &&& fit.score_components.quality == spec_quality_score(model.params_m)
    &&& fit.score_components.context == spec_context_score(model.context_length, context_limit)
    &&& fit.score == spec_total_score(
        fit.score_components.fit as int,
        fit.score_components.speed as int,
        fit.score_components.quality as int,
        fit.score_components.context as int,
    )
    &&& fit.installed == false
    &&& fit.use_case == model.use_case
    &&& fit.notes == spec_notes(sel.2, spec_params_for_speed(model, mode) == 0)
}

impl ModelFit {
    /// Analyze one model against one machine, with the model's own context
    /// window as the reference context.
    pub fn analyze(model: &LlmModel, specs: &SystemSpecs) -> (r: Result<ModelFit, AnalyzeError>)
        requires
            model.wf(),
            specs.wf(),
        ensures
            r is Ok <==> model.quant_variants@.len() > 0,
            r matches Ok(fit) ==> analyzed(model@, specs@, None, fit@),
            r matches Err(e) ==> e == AnalyzeError::NoQuantVariants,
    {
        Self::analyze_with_context_limit(model, specs, None)
    }

    /// Analyze one model against one machine. Succeeds on every
    /// well-formed model with at least one quantization variant — a model
    /// that fits nowhere still yields an honest `TooTight` verdict — and
    /// fails exactly on a model with no variants.
    pub fn analyze_with_context_limit(
        model: &LlmModel,
        specs: &SystemSpecs,
        context_limit: Option<u32>,
    ) -> (r: Result<ModelFit, AnalyzeError>)
        requires
            model.wf(),
            specs.wf(),
        ensures
            r is Ok <==> model.quant_variants@.len() > 0,
            r matches Ok(fit) ==> analyzed(model@, specs@, context_limit, fit@),
            r matches Err(e) ==> e == AnalyzeError::NoQuantVariants,
    {
        if model.quant_variants.len() == 0 {
            return Err(AnalyzeError::NoQuantVariants);
        }
        let pools = resolve_pools(specs);
        let sel = select_quant(model, &pools);
        let available = pools[sel.0].size_mb;
        proof {
            assert(model@.quant_variants[sel.1 as int].bpp_milli <= BPP_MILLI_LIMIT);
        }
        let required = required_mb(model.params_m, model.quant_variants[sel.1].bpp_milli);
        let util = utilization_pct(required, available);
        let run_mode = classify_run_mode(model, &pools, sel);
        let tps = estimated_tps_tenths(model, run_mode, specs);
        let sc_fit = fit_score(util);
        let sc_speed = speed_score(tps);
        let sc_quality = quality_score(model.params_m);
        let sc_context = context_score(model.context_length, context_limit);
        let score = total_score(sc_fit, sc_speed, sc_quality, sc_context);
        let mut notes: Vec<String> = Vec::new();
        if !sel.2 {
            notes.push("no quantization fits; using lowest available".to_owned());
        }
        if params_for_speed(model, run_mode) == 0 {
            notes.push("unknown model size; using minimum speed estimate".to_owned());
        }
        let fit = ModelFit {
            model: model.clone(),
            memory_required_mb: required,
            memory_available_mb: available,
            utilization_pct: util,
            best_quant: model.quant_variants[sel.1].label.clone(),
            run_mode,
            estimated_tps_tenths: tps,
            fit_level: fit_level_of(util),
            score,
            score_components: ScoreComponents {
                fit: sc_fit,
                speed: sc_speed,
                quality: sc_quality,
                context: sc_context,
            },
            installed: false,
            notes,
            use_case: model.use_case,
        };
        proof {
            assert(fit@.notes =~~= spec_notes(sel.2, spec_params_for_speed(model@, run_mode)
                == 0));
        }
        Ok(fit)
    }
}

/// Memory never comes out negative, and utilization carries the ratio of
/// required to available exactly: rounded up to the next whole percent,
/// it sits on the same side of every whole-percent bound as the true
/// ratio — in particular the verdict is `TooTight` exactly when the
/// model does not fit its budget. A zero budget reports the sentinel.
pub proof fn lemma_utilization_exact(
    model: LlmModelView,
    specs: SystemSpecsView,
    context_limit: Option<u32>,
    fit: ModelFitView,
)
    requires
        analyzed(model, specs, context_limit, fit),
    ensures
        fit.memory_required_mb >= 0,
        fit.memory_available_mb > 0 ==> fit.utilization_pct == (fit.memory_required_mb * 100
            + fit.memory_available_mb - 1) / (fit.memory_available_mb as int),
        fit.memory_available_mb > 0 ==> (fit.fit_level == FitLevel::TooTight
            <==> fit.memory_required_mb > fit.memory_available_mb),
        fit.memory_available_mb == 0 ==> fit.utilization_pct == UTIL_EMPTY_POOL && fit.fit_level
            == FitLevel::TooTight,
{
    if fit.memory_available_mb > 0 {
        lemma_utilization_ceiling(
            fit.memory_required_mb as int,
            fit.memory_available_mb,
            100,
        );
    }
}

/// No variant from index `i` on fits the budget `size_mb` when the walk
/// from `i` found none.
pub proof fn lemma_variant_fit_none(m: LlmModelView, size_mb: u64, i: int, v: int)
    requires
        spec_variant_fit(m, size_mb, i) is None,
        0 <= i <= v < m.quant_variants.len(),
    ensures
        spec_required_mb(m.params_m, m.quant_variants[v].bpp_milli) > size_mb,
    decreases m.quant_variants.len() - i,
{
    if v > i {
        lemma_variant_fit_none(m, size_mb, i + 1, v);
    }
}

/// No variant fits any pool from index `j` on when the walk found none.
pub proof fn lemma_pool_fit_none(m: LlmModelView, pools: Seq<MemoryPool>, j: int, p: int, v: int)
    requires
        spec_pool_fit(m, pools, j) is None,
        0 <= j <= p < pools.len(),
        0 <= v < m.quant_variants.len(),
    ensures
        spec_required_mb(m.params_m, m.quant_variants[v].bpp_milli) > pools[p].size_mb,
    decreases pools.len() - j,
{
    if p == j {
        lemma_variant_fit_none(m, pools[j].size_mb, 0, v);
    } else {
        lemma_pool_fit_none(m, pools, j + 1, p, v);
    }
}

/// The index of the largest pool stays in range.
pub proof fn lemma_largest_pool_range(pools: Seq<MemoryPool>, j: int, best: int)
    requires
        0 <= best < pools.len(),
    ensures
        0 <= spec_largest_pool(pools, j, best) < pools.len(),
    decreases pools.len() - j,
{
    if 0 <= j < pools.len() {
        if pools[j].size_mb > pools[best].size_mb {
            lemma_largest_pool_range(pools, j + 1, j);
        } else {
            lemma_largest_pool_range(pools, j + 1, best);
        }
    }
}

/// When the fallback selection was taken — no variant fits any pool —
/// the verdict is `TooTight`: even the lowest-fidelity variant
/// overshoots the largest budget, so utilization reads over 100.
pub proof fn lemma_fallback_too_tight(
    model: LlmModelView,
    specs: SystemSpecsView,
    context_limit: Option<u32>,
    fit: ModelFitView,
)
    requires
        analyzed(model, specs, context_limit, fit),
        model.quant_variants.len() > 0,
        !spec_selection(model, spec_resolve_pools(specs)).2,
    ensures
        fit.fit_level == FitLevel::TooTight,
{
    let pools = spec_resolve_pools(specs);
    let sel = spec_selection(model, pools);
    assert(pools.len() >= 1);
    assert(spec_pool_fit(model, pools, 0) is None);
    lemma_largest_pool_range(pools, 1, 0);
    assert(0 <= sel.0 < pools.len());
    assert(0 <= sel.1 < model.quant_variants.len());
    lemma_pool_fit_none(model, pools, 0, sel.0, sel.1);
    let req = spec_required_mb(model.params_m, model.quant_variants[sel.1].bpp_milli);
    let avail = pools[sel.0].size_mb;
    assert(req > avail);
    if avail > 0 {
        assert(req >= 0) by (nonlinear_arith)
            requires
                req == model.params_m * model.quant_variants[sel.1].bpp_milli * OVERHEAD_PCT
                    / 100_000,
        ;
        lemma_utilization_ceiling(req, avail, 100);
        assert(spec_utilization_pct(req, avail) > 100);
    } else {
        assert(spec_utilization_pct(req, avail) == UTIL_EMPTY_POOL);
    }
}

/// Quantization monotonicity: more bytes per parameter never needs less
/// memory, for the same model.
pub proof fn lemma_required_monotonic(params_m: u64, bpp_a: u64, bpp_b: u64)
    requires
        bpp_a >= bpp_b,
    ensures
        spec_required_mb(params_m, bpp_a) >= spec_required_mb(params_m, bpp_b),
{
    assert(params_m * bpp_a * OVERHEAD_PCT >= params_m * bpp_b * OVERHEAD_PCT) by (nonlinear_arith)
        requires
            bpp_a >= bpp_b,
            params_m >= 0,
    ;
    vstd::arithmetic::div_mod::lemma_div_is_ordered(
        params_m * bpp_b * OVERHEAD_PCT,
        params_m * bpp_a * OVERHEAD_PCT,
        100_000,
    );
}

/// The discrete verdict is a function of utilization alone: any two
/// analysis results with equal utilization carry equal fit levels, no
/// matter which model or machine produced them.
pub proof fn lemma_fit_level_pure(
    m1: LlmModelView,
    s1: SystemSpecsView,
    l1: Option<u32>,
    f1: ModelFitView,
    m2: LlmModelView,
    s2: SystemSpecsView,
    l2: Option<u32>,
    f2: ModelFitView,
)
    requires
        analyzed(m1, s1, l1, f1),
        analyzed(m2, s2, l2, f2),
        f1.utilization_pct == f2.utilization_pct,
    ensures
        f1.fit_level == f2.fit_level,
{
}

/// Analysis is deterministic: identical inputs pin every field of the
/// result, so re-analysis reproduces the verdict exactly.
pub proof fn lemma_analyze_deterministic(
    model: LlmModelView,
    specs: SystemSpecsView,
    context_limit: Option<u32>,
    f1: ModelFitView,
    f2: ModelFitView,
)
    requires
        analyzed(model, specs, context_limit, f1),
        analyzed(model, specs, context_limit, f2),
    ensures
        f1 == f2,
{
    assert(f1 =~= f2);
}

} // verus!
