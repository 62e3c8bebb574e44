//! Scanning a whole catalog: analyze every model against one machine,
//! mark the installed ones, and rank the results; plus the text a search
//! box matches against.

use vstd::prelude::*;
use vstd::string::StringExecFns;

use crate::filters::{ColumnFilters, FitFilter};
use crate::fit::{analyzed, ModelFit, ModelFitView};
use crate::hardware::{SystemSpecs, SystemSpecsView};
use crate::models::{LlmModel, LlmModelView};
use crate::providers::{is_model_installed, spec_is_installed};
use crate::rank::{rank_models_by_fit, sorted_by, views, SortColumn};
use crate::strutil::{contains_sub, spec_contains_sub, spec_lower, str_eq, string_views, to_ascii_lower};

verus! {

broadcast use vstd::seq_lib::group_to_multiset_ensures;

/// What a catalog scan records for one model: the exact analysis result,
/// with the installed flag set from the installed tag set.
pub open spec fn scanned(
    model: LlmModelView,
    specs: SystemSpecsView,
    context_limit: Option<u32>,
    installed: Seq<Seq<char>>,
    fv: ModelFitView,
) -> bool {
    &&& analyzed(model, specs, context_limit, ModelFitView { installed: false, ..fv })
    &&& fv.installed == spec_is_installed(model.name, installed)
}

/// Any two values scanned from the same model are equal: analysis is
/// deterministic and the installed flag is a function of the tag set.
pub proof fn lemma_scanned_unique(
    model: LlmModelView,
    specs: SystemSpecsView,
    context_limit: Option<u32>,
    installed: Seq<Seq<char>>,
    f1: ModelFitView,
    f2: ModelFitView,
)
    requires
        scanned(model, specs, context_limit, installed, f1),
        scanned(model, specs, context_limit, installed, f2),
    ensures
        f1 == f2,
{
    crate::fit::lemma_analyze_deterministic(
        model,
        specs,
        context_limit,
        ModelFitView { installed: false, ..f1 },
        ModelFitView { installed: false, ..f2 },
    );
    assert(f1 =~= f2);
}

/// The one scan a model yields (unique by `lemma_scanned_unique`).
pub open spec fn spec_scan(
    model: LlmModelView,
    specs: SystemSpecsView,
    context_limit: Option<u32>,
    installed: Seq<Seq<char>>,
) -> ModelFitView {
    choose|fv: ModelFitView| scanned(model, specs, context_limit, installed, fv)
}

/// The scans of a whole catalog, one per model with at least one
/// quantization variant, in catalog order.
pub open spec fn spec_catalog_scans(
    models: Seq<LlmModel>,
    specs: SystemSpecsView,
    context_limit: Option<u32>,
    installed: Seq<Seq<char>>,
) -> Seq<ModelFitView>
    decreases models.len(),
{
    if models.len() == 0 {
        Seq::empty()
    } else {
        let rest = spec_catalog_scans(models.drop_first(), specs, context_limit, installed);
        if models[0]@.quant_variants.len() > 0 {
            seq![spec_scan(models[0]@, specs, context_limit, installed)] + rest
        } else {
            rest
        }
    }
}

proof fn lemma_catalog_scans_push(
    models: Seq<LlmModel>,
    specs: SystemSpecsView,
    context_limit: Option<u32>,
    installed: Seq<Seq<char>>,
    m: LlmModel,
)
    ensures
        spec_catalog_scans(models.push(m), specs, context_limit, installed)
            == spec_catalog_scans(models, specs, context_limit, installed) + (
        if m@.quant_variants.len() > 0 {
            seq![spec_scan(m@, specs, context_limit, installed)]
        } else {
            Seq::<ModelFitView>::empty()
        }),
    decreases models.len(),
{
    let tail: Seq<ModelFitView> = if m@.quant_variants.len() > 0 {
        seq![spec_scan(m@, specs, context_limit, installed)]
    } else {
        Seq::empty()
    };
    if models.len() == 0 {
        assert(models.push(m)[0] == m);
        assert(models.push(m).drop_first() =~= models);
        assert(spec_catalog_scans(models, specs, context_limit, installed) + tail =~= tail);
    } else {
        assert(models.push(m)[0] == models[0]);
        assert(models.push(m).drop_first() =~= models.drop_first().push(m));
        lemma_catalog_scans_push(models.drop_first(), specs, context_limit, installed, m);
        let head = spec_catalog_scans(models.drop_first(), specs, context_limit, installed);
        if models[0]@.quant_variants.len() > 0 {
            let first = seq![spec_scan(models[0]@, specs, context_limit, installed)];
            assert((first + head) + tail =~= first + (head + tail));
        }
    }
}

/// `fv` is the scan of some model of the catalog.
pub open spec fn scanned_one(
    models: Seq<LlmModel>,
    specs: SystemSpecsView,
    context_limit: Option<u32>,
    installed: Seq<Seq<char>>,
    fv: ModelFitView,
) -> bool {
    exists|i: int|
        0 <= i < models.len() && #[trigger] scanned(models[i]@, specs, context_limit, installed, fv)
}

/// Every result in `fvs` is the scan of some model of the catalog.
pub open spec fn all_scanned(
    models: Seq<LlmModel>,
    specs: SystemSpecsView,
    context_limit: Option<u32>,
    installed: Seq<Seq<char>>,
    fvs: Seq<ModelFitView>,
) -> bool {
    forall|k: int|
        0 <= k < fvs.len() ==> #[trigger] scanned_one(models, specs, context_limit, installed, fvs[k])
}

proof fn lemma_all_scanned_push(
    models: Seq<LlmModel>,
    specs: SystemSpecsView,
    context_limit: Option<u32>,
    installed: Seq<Seq<char>>,
    fvs: Seq<ModelFitView>,
    fv: ModelFitView,
    i: int,
)
    requires
        all_scanned(models, specs, context_limit, installed, fvs),
        0 <= i < models.len(),
        scanned(models[i]@, specs, context_limit, installed, fv),
    ensures
        all_scanned(models, specs, context_limit, installed, fvs.push(fv)),
{
    let pushed = fvs.push(fv);
    assert forall|k: int| 0 <= k < pushed.len() implies #[trigger] scanned_one(
        models,
        specs,
        context_limit,
        installed,
        pushed[k],
    ) by {
        if k < fvs.len() {
            assert(pushed[k] == fvs[k]);
            assert(scanned_one(models, specs, context_limit, installed, fvs[k]));
        } else {
            assert(pushed[k] == fv);
            assert(scanned(models[i]@, specs, context_limit, installed, pushed[k]));
        }
    }
}

proof fn lemma_all_scanned_permutation(
    models: Seq<LlmModel>,
    specs: SystemSpecsView,
    context_limit: Option<u32>,
    installed: Seq<Seq<char>>,
    fvs: Seq<ModelFitView>,
    rvs: Seq<ModelFitView>,
)
    requires
        all_scanned(models, specs, context_limit, installed, fvs),
        rvs.to_multiset() == fvs.to_multiset(),
    ensures
        all_scanned(models, specs, context_limit, installed, rvs),
{
    assert forall|k: int| 0 <= k < rvs.len() implies #[trigger] scanned_one(
        models,
        specs,
        context_limit,
        installed,
        rvs[k],
    ) by {
        assert(rvs.contains(rvs[k]));
        assert(rvs.to_multiset().count(rvs[k]) > 0);
        assert(fvs.to_multiset().count(rvs[k]) > 0);
        assert(fvs.contains(rvs[k]));
        let m = choose|m: int| 0 <= m < fvs.len() && fvs[m] == rvs[k];
        assert(scanned_one(models, specs, context_limit, installed, fvs[m]));
        assert(scanned_one(models, specs, context_limit, installed, rvs[k]));
    }
}

/// Analyze every model of a catalog against one machine, mark each as
/// installed when one of its runtime tags is in `installed`, and rank the
/// results. A model with no quantization variants is left out; every
/// other model contributes exactly one result, the scan of that model:
/// the output holds exactly the catalog's scans, reordered.
pub fn analyze_catalog(
    models: &Vec<LlmModel>,
    specs: &SystemSpecs,
    context_limit: Option<u32>,
    installed: &Vec<String>,
) -> (r: Vec<ModelFit>)
    requires
        forall|i: int| 0 <= i < models@.len() ==> (#[trigger] models@[i]).wf(),
        specs.wf(),
    ensures
        sorted_by(views(r@), false, SortColumn::Score),
        all_scanned(models@, specs@, context_limit, string_views(installed@), views(r@)),
        views(r@).to_multiset() == spec_catalog_scans(
            models@,
            specs@,
            context_limit,
            string_views(installed@),
        ).to_multiset(),
        (forall|i: int| 0 <= i < models@.len() ==> (#[trigger] models@[i]@).quant_variants.len()
            > 0) ==> r@.len() == models@.len(),
{
    let ghost iv = string_views(installed@);
    let mut fits: Vec<ModelFit> = Vec::new();
    let mut i: usize = 0;
    while i < models.len()
        invariant
            forall|ii: int| 0 <= ii < models@.len() ==> (#[trigger] models@[ii]).wf(),
            specs.wf(),
            iv == string_views(installed@),
            i <= models@.len(),
            all_scanned(models@, specs@, context_limit, iv, views(fits@)),
            views(fits@) == spec_catalog_scans(models@.take(i as int), specs@, context_limit, iv),
            (forall|ii: int|
                0 <= ii < models@.len() ==> (#[trigger] models@[ii]@).quant_variants.len() > 0)
                ==> fits@.len() == i,
        decreases models@.len() - i,
    {
        let ghost pre = views(fits@);
        match ModelFit::analyze_with_context_limit(&models[i], specs, context_limit) {
            Ok(mut fit) => {
                let ghost base = fit@;
                let inst = is_model_installed(models[i].name.as_str(), installed);
                fit.installed = inst;
                proof {
                    assert(ModelFitView { installed: false, ..fit@ } =~= base);
                    assert(scanned(models@[i as int]@, specs@, context_limit, iv, fit@));
                    assert(scanned_one(models@, specs@, context_limit, iv, fit@));
                    lemma_all_scanned_push(
                        models@,
                        specs@,
                        context_limit,
                        iv,
                        pre,
                        fit@,
                        i as int,
                    );
                }
                let ghost fitv = fit@;
                fits.push(fit);
                proof {
                    assert(views(fits@) =~= pre.push(fitv));
                    // This result is the model's unique scan, so the
                    // collection extends the catalog's scan sequence.
                    assert(scanned(models@[i as int]@, specs@, context_limit, iv, spec_scan(
                        models@[i as int]@, specs@, context_limit, iv)));
                    lemma_scanned_unique(
                        models@[i as int]@,
                        specs@,
                        context_limit,
                        iv,
                        fitv,
                        spec_scan(models@[i as int]@, specs@, context_limit, iv),
                    );
                    lemma_catalog_scans_push(
                        models@.take(i as int),
                        specs@,
                        context_limit,
                        iv,
                        models@[i as int],
                    );
                    assert(models@.take(i + 1) =~= models@.take(i as int).push(
                        models@[i as int]));
                    assert(views(fits@) =~= spec_catalog_scans(models@.take(i + 1), specs@,
                        context_limit, iv));
                }
            }
            Err(_) => {
                proof {
                    assert(models@[i as int]@.quant_variants.len() == 0);
                    lemma_catalog_scans_push(
                        models@.take(i as int),
                        specs@,
                        context_limit,
                        iv,
                        models@[i as int],
                    );
                    assert(models@.take(i + 1) =~= models@.take(i as int).push(
                        models@[i as int]));
                    assert(views(fits@) + Seq::<ModelFitView>::empty() =~= views(fits@));
                    assert(views(fits@) =~= spec_catalog_scans(models@.take(i + 1), specs@,
                        context_limit, iv));
                }
            }
        }
        i = i + 1;
    }
    proof {
        assert(models@.take(models@.len() as int) =~= models@);
    }
    let ranked = rank_models_by_fit(fits);
    proof {
        lemma_all_scanned_permutation(
            models@,
            specs@,
            context_limit,
            iv,
            views(fits@),
            views(ranked@),
        );
        assert(views(ranked@).len() == views(ranked@).to_multiset().len());
        assert(views(fits@).len() == views(fits@).to_multiset().len());
    }
    ranked
}

/// The text a search box matches against for one result: name, provider,
/// displayed size and use case, lowercased and space-separated.
pub open spec fn spec_search_text(m: LlmModelView) -> Seq<char> {
    spec_lower(m.name) + " "@ + spec_lower(m.provider) + " "@ + spec_lower(m.parameter_count)
        + " "@ + spec_lower(m.use_case.spec_label())
}

pub fn searchable_text(fit: &ModelFit) -> (r: String)
    ensures
        r@ == spec_search_text(fit.model@),
{
    let mut out = to_ascii_lower(fit.model.name.as_str());
    out.append(" ");
    out.append(to_ascii_lower(fit.model.provider.as_str()).as_str());
    out.append(" ");
    out.append(to_ascii_lower(fit.model.parameter_count.as_str()).as_str());
    out.append(" ");
    out.append(to_ascii_lower(fit.model.use_case.label()).as_str());
    out
}

/// Whether one lowercased search term occurs in a result's search text.
/// A query of several terms matches when every term does.
pub fn search_matches(fit: &ModelFit, term: &str) -> (r: bool)
    ensures
        r == spec_contains_sub(spec_search_text(fit.model@), spec_lower(term@)),
{
    let text = searchable_text(fit);
    let lowered = to_ascii_lower(term);
    contains_sub(text.as_str(), lowered.as_str())
}


// ── Applying the interactive filters ────────────────────────────────

/// Index `q` appears in the result list.
pub open spec fn in_result(r: Seq<usize>, q: int) -> bool {
    exists|j: int| 0 <= j < r.len() && r[j] == q
}

/// Every search term occurs in the model's search text.
pub open spec fn spec_search_ok(m: LlmModelView, terms: Seq<Seq<char>>) -> bool {
    forall|t: int|
        0 <= t < terms.len() ==> #[trigger] spec_contains_sub(
            spec_search_text(m),
            spec_lower(terms[t]),
        )
}

/// First index of `p` in `providers` at or after `j`, or -1.
pub open spec fn spec_first_eq(providers: Seq<Seq<char>>, p: Seq<char>, j: int) -> int
    decreases providers.len() - j,
{
    if j < 0 || j >= providers.len() {
        -1
    } else if providers[j] == p {
        j
    } else {
        spec_first_eq(providers, p, j + 1)
    }
}

/// A provider passes when it is not in the known list at all, or its
/// entry is selected.
pub open spec fn spec_provider_ok(p: Seq<char>, providers: Seq<Seq<char>>, selected: Seq<bool>) -> bool {
    let i = spec_first_eq(providers, p, 0);
    if i == -1 {
        true
    } else {
        selected[i]
    }
}

/// Whether one result passes the search, the provider selection, the
/// fit-level filter, and every column filter.
pub open spec fn spec_keep(
    fit: ModelFitView,
    terms: Seq<Seq<char>>,
    providers: Seq<Seq<char>>,
    selected: Seq<bool>,
    fit_filter: FitFilter,
    column_filters: ColumnFilters,
    now_year: int,
    now_month: int,
) -> bool {
    &&& spec_search_ok(fit.model, terms)
    &&& spec_provider_ok(fit.model.provider, providers, selected)
    &&& fit_filter.spec_matches_level(fit.fit_level)
    &&& column_filters.spec_matches_at(fit, now_year, now_month)
}

/// `spec_keep` at one index of the analyzed collection.
pub open spec fn keep_at(
    fits: Seq<ModelFit>,
    q: int,
    terms: Seq<Seq<char>>,
    providers: Seq<Seq<char>>,
    selected: Seq<bool>,
    fit_filter: FitFilter,
    column_filters: ColumnFilters,
    now_year: int,
    now_month: int,
) -> bool {
    spec_keep(fits[q]@, terms, providers, selected, fit_filter, column_filters, now_year, now_month)
}

/// Whether every search term matches one result.
pub fn search_ok(fit: &ModelFit, terms: &Vec<String>) -> (r: bool)
    ensures
        r == spec_search_ok(fit.model@, string_views(terms@)),
{
    let ghost tv = string_views(terms@);
    let mut t: usize = 0;
    while t < terms.len()
        invariant
            tv == string_views(terms@),
            t <= terms@.len(),
            forall|x: int|
                0 <= x < t ==> #[trigger] spec_contains_sub(
                    spec_search_text(fit.model@),
                    spec_lower(tv[x]),
                ),
        decreases terms@.len() - t,
    {
        let hit = search_matches(fit, terms[t].as_str());
        proof {
            assert(tv[t as int] == terms@[t as int]@);
        }
        if !hit {
            return false;
        }
        t = t + 1;
    }
    true
}

/// Whether a result's provider passes the provider selection.
pub fn provider_ok(provider: &String, providers: &Vec<String>, selected: &Vec<bool>) -> (r: bool)
    requires
        providers@.len() == selected@.len(),
    ensures
        r == spec_provider_ok(provider@, string_views(providers@), selected@),
{
    let ghost pv = string_views(providers@);
    let mut j: usize = 0;
    while j < providers.len()
        invariant
            pv == string_views(providers@),
            providers@.len() == selected@.len(),
            j <= providers@.len(),
            spec_first_eq(pv, provider@, 0) == spec_first_eq(pv, provider@, j as int),
        decreases providers@.len() - j,
    {
        let same = str_eq(providers[j].as_str(), provider.as_str());
        proof {
            assert(pv[j as int] == providers@[j as int]@);
        }
        if same {
            proof {
                assert(spec_first_eq(pv, provider@, j as int) == j);
            }
            return selected[j];
        }
        j = j + 1;
    }
    proof {
        assert(spec_first_eq(pv, provider@, 0) == -1);
    }
    true
}

/// The indices of the results that pass every filter, in their input
/// order: each listed index passes, the indices are strictly increasing,
/// and every passing index is listed.
pub fn filter_fits(
    fits: &Vec<ModelFit>,
    terms: &Vec<String>,
    providers: &Vec<String>,
    selected_providers: &Vec<bool>,
    fit_filter: FitFilter,
    column_filters: &ColumnFilters,
    now_year: i32,
    now_month: i32,
) -> (r: Vec<usize>)
    requires
        providers@.len() == selected_providers@.len(),
        column_filters.wf(),
        1970 <= now_year <= 10010,
        1 <= now_month <= 12,
    ensures
        forall|j: int|
            #![trigger r@[j]]
            0 <= j < r@.len() ==> r@[j] < fits@.len() && keep_at(
                fits@,
                r@[j] as int,
                string_views(terms@),
                string_views(providers@),
                selected_providers@,
                fit_filter,
                *column_filters,
                now_year as int,
                now_month as int,
            ),
        forall|j1: int, j2: int| 0 <= j1 < j2 < r@.len() ==> r@[j1] < r@[j2],
        forall|q: int|
            0 <= q < fits@.len() ==> (#[trigger] keep_at(
                fits@,
                q,
                string_views(terms@),
                string_views(providers@),
                selected_providers@,
                fit_filter,
                *column_filters,
                now_year as int,
                now_month as int,
            ) ==> in_result(r@, q)),
{
    let ghost tv = string_views(terms@);
    let ghost pv = string_views(providers@);
    let ghost sv = selected_providers@;
    let ghost cf = *column_filters;
    let ghost ny = now_year as int;
    let ghost nm = now_month as int;
    let mut out: Vec<usize> = Vec::new();
    let mut k: usize = 0;
    while k < fits.len()
        invariant
            tv == string_views(terms@),
            pv == string_views(providers@),
            sv == selected_providers@,
            cf == *column_filters,
            ny == now_year as int,
            nm == now_month as int,
            providers@.len() == selected_providers@.len(),
            column_filters.wf(),
            1970 <= now_year <= 10010,
            1 <= now_month <= 12,
            k <= fits@.len(),
            forall|j: int|
                #![trigger out@[j]]
                0 <= j < out@.len() ==> out@[j] < k && keep_at(
                    fits@,
                    out@[j] as int,
                    tv,
                    pv,
                    sv,
                    fit_filter,
                    cf,
                    ny,
                    nm,
                ),
            forall|j1: int, j2: int| 0 <= j1 < j2 < out@.len() ==> out@[j1] < out@[j2],
            forall|q: int|
                0 <= q < k ==> (#[trigger] keep_at(fits@, q, tv, pv, sv, fit_filter, cf, ny, nm)
                    ==> in_result(out@, q)),
        decreases fits@.len() - k,
    {
        let f = &fits[k];
        let passes = search_ok(f, terms) && provider_ok(
            &f.model.provider,
            providers,
            selected_providers,
        ) && fit_filter.matches_level(f.fit_level) && column_filters.matches_at(
            f,
            now_year,
            now_month,
        );
        proof {
            assert(passes == keep_at(fits@, k as int, tv, pv, sv, fit_filter, cf, ny, nm));
        }
        if passes {
            let ghost out0 = out@;
            out.push(k);
            proof {
                assert(out@ =~= out0.push(k));
                assert forall|q: int|
                    0 <= q < k + 1 && #[trigger] keep_at(
                        fits@,
                        q,
                        tv,
                        pv,
                        sv,
                        fit_filter,
                        cf,
                        ny,
                        nm,
                    ) implies in_result(out@, q) by {
                    if q < k {
                        let j = choose|j: int| 0 <= j < out0.len() && out0[j] == q;
                        assert(out@[j] == out0[j]);
                    } else {
                        assert(out@[out0.len() as int] == k);
                    }
                }
            }
        } else {
            proof {
                assert(!keep_at(fits@, k as int, tv, pv, sv, fit_filter, cf, ny, nm));
            }
        }
        k = k + 1;
    }
    out
}

} // verus!
