//! Deterministic ranking of analyzed models.
//!
//! The order is a total preorder: fit level first (a perfect fit always
//! beats a too-tight one, whatever the other keys say), then a chosen sort
//! column, then an optional installed-first preference inside exact ties.
//! Sorting is a stable insertion sort: models that compare equal keep
//! their input order, so sorting a sorted collection returns it unchanged.

use vstd::prelude::*;
use vstd::string::StrSliceExecFns;

use crate::fit::{ModelFit, ModelFitView};

verus! {

broadcast use vstd::seq_lib::group_to_multiset_ensures;

/// The secondary sort key.
#[derive(Clone, Copy, Debug, PartialEq, Eq, Structural)]
pub enum SortColumn {
    Score,
    Speed,
    Params,
    Memory,
    Context,
    Name,
    Date,
}

impl SortColumn {
    pub open spec fn spec_next(&self) -> SortColumn {
        match self {
            SortColumn::Score => SortColumn::Speed,
            SortColumn::Speed => SortColumn::Params,
            SortColumn::Params => SortColumn::Memory,
            SortColumn::Memory => SortColumn::Context,
            SortColumn::Context => SortColumn::Name,
            SortColumn::Name => SortColumn::Date,
            SortColumn::Date => SortColumn::Score,
        }
    }

    /// The next column in the cycling order used by front ends.
    #[verifier::when_used_as_spec(spec_next)]
    pub fn next(&self) -> (r: SortColumn)
        ensures
            r == self.spec_next(),
    {
        match self {
            SortColumn::Score => SortColumn::Speed,
            SortColumn::Speed => SortColumn::Params,
            SortColumn::Params => SortColumn::Memory,
            SortColumn::Memory => SortColumn::Context,
            SortColumn::Context => SortColumn::Name,
            SortColumn::Name => SortColumn::Date,
            SortColumn::Date => SortColumn::Score,
        }
    }
}

/// Strict lexicographic order on character sequences; a proper prefix
/// comes first.
pub open spec fn lex_lt(a: Seq<char>, b: Seq<char>) -> bool
    decreases a.len(),
{
    if b.len() == 0 {
        false
    } else if a.len() == 0 {
        true
    } else if (a[0] as int) < (b[0] as int) {
        true
    } else if (b[0] as int) < (a[0] as int) {
        false
    } else {
        lex_lt(a.skip(1), b.skip(1))
    }
}

/// Two sequences that are lexicographically incomparable are equal.
pub proof fn lemma_lex_lt_connex(a: Seq<char>, b: Seq<char>)
    requires
        !lex_lt(a, b),
        !lex_lt(b, a),
    ensures
        a == b,
    decreases a.len(),
{
    if b.len() == 0 {
        if a.len() != 0 {
            assert(lex_lt(b, a));
        }
        assert(a =~= b);
    } else if a.len() == 0 {
        assert(lex_lt(a, b));
    } else {
        assert(a[0] == b[0]);
        lemma_lex_lt_connex(a.skip(1), b.skip(1));
        assert(a =~= b) by {
            assert(a.skip(1).len() == b.skip(1).len());
            assert forall|i: int| 0 <= i < a.len() implies a[i] == b[i] by {
                if i > 0 {
                    assert(a.skip(1)[i - 1] == a[i]);
                    assert(b.skip(1)[i - 1] == b[i]);
                }
            }
        }
    }
}

pub proof fn lemma_lex_lt_trans(a: Seq<char>, b: Seq<char>, c: Seq<char>)
    requires
        lex_lt(a, b),
        lex_lt(b, c),
    ensures
        lex_lt(a, c),
    decreases a.len(),
{
    if a.len() > 0 && b.len() > 0 && c.len() > 0 {
        if (a[0] as int) == (b[0] as int) && (b[0] as int) == (c[0] as int) {
            lemma_lex_lt_trans(a.skip(1), b.skip(1), c.skip(1));
        }
    }
}

/// The release date as a comparison key; an unknown date sorts as oldest.
pub open spec fn spec_date_key(f: ModelFitView) -> Seq<char> {
    match f.model.release_date {
        Some(d) => d,
        None => Seq::empty(),
    }
}

/// Strict order of the chosen column: descending for score, speed, size
/// and context, ascending for memory utilization (lower is better) and
/// name, newest-first for the release date.
pub open spec fn sec_lt(col: SortColumn, a: ModelFitView, b: ModelFitView) -> bool {
    match col {
        SortColumn::Score => a.score > b.score,
        SortColumn::Speed => a.estimated_tps_tenths > b.estimated_tps_tenths,
        SortColumn::Params => a.model.params_m > b.model.params_m,
        SortColumn::Memory => a.utilization_pct < b.utilization_pct,
        SortColumn::Context => a.model.context_length > b.model.context_length,
        SortColumn::Name => lex_lt(a.model.name, b.model.name),
        SortColumn::Date => lex_lt(spec_date_key(b), spec_date_key(a)),
    }
}

proof fn lemma_sec_lt_trans(col: SortColumn, a: ModelFitView, b: ModelFitView, c: ModelFitView)
    requires
        sec_lt(col, a, b),
        sec_lt(col, b, c),
    ensures
        sec_lt(col, a, c),
{
    match col {
        SortColumn::Name => lemma_lex_lt_trans(a.model.name, b.model.name, c.model.name),
        SortColumn::Date => lemma_lex_lt_trans(spec_date_key(c), spec_date_key(b), spec_date_key(a)),
        _ => (),
    }
}

/// Two values the column cannot tell apart are interchangeable on either
/// side of the column's order.
proof fn lemma_sec_incomparable(col: SortColumn, a: ModelFitView, b: ModelFitView, c: ModelFitView)
    requires
        !sec_lt(col, b, c),
        !sec_lt(col, c, b),
    ensures
        sec_lt(col, a, b) == sec_lt(col, a, c),
        sec_lt(col, b, a) == sec_lt(col, c, a),
{
    match col {
        SortColumn::Name => lemma_lex_lt_connex(b.model.name, c.model.name),
        SortColumn::Date => lemma_lex_lt_connex(spec_date_key(b), spec_date_key(c)),
        _ => (),
    }
}

/// The ranking order: `a` may stand at or before `b`. Fit level always
/// dominates; the sort column breaks fit-level ties; the installed-first
/// preference, when on, hoists installed models within exact key ties
/// only. Exact ties are ordered both ways, and the stable sort then keeps
/// the input order.
pub open spec fn rank_le(
    installed_first: bool,
    col: SortColumn,
    a: ModelFitView,
    b: ModelFitView,
) -> bool {
    if a.fit_level.spec_rank() != b.fit_level.spec_rank() {
        a.fit_level.spec_rank() < b.fit_level.spec_rank()
    } else if sec_lt(col, a, b) {
        true
    } else if sec_lt(col, b, a) {
        false
    } else if installed_first && a.installed != b.installed {
        a.installed
    } else {
        true
    }
}

/// The ranking order is total: any two results are comparable.
pub proof fn lemma_rank_le_total(
    installed_first: bool,
    col: SortColumn,
    a: ModelFitView,
    b: ModelFitView,
)
    ensures
        rank_le(installed_first, col, a, b) || rank_le(installed_first, col, b, a),
{
}

/// The ranking order is transitive.
pub proof fn lemma_rank_le_trans(
    installed_first: bool,
    col: SortColumn,
    a: ModelFitView,
    b: ModelFitView,
    c: ModelFitView,
)
    requires
        rank_le(installed_first, col, a, b),
        rank_le(installed_first, col, b, c),
    ensures
        rank_le(installed_first, col, a, c),
{
    let ra = a.fit_level.spec_rank();
    let rb = b.fit_level.spec_rank();
    let rc = c.fit_level.spec_rank();
    assert(ra <= rb && rb <= rc);
    if ra == rc {
        if sec_lt(col, a, b) {
            if sec_lt(col, b, c) {
                lemma_sec_lt_trans(col, a, b, c);
            } else {
                assert(!sec_lt(col, c, b));
                lemma_sec_incomparable(col, a, b, c);
            }
        } else {
            assert(!sec_lt(col, b, a));
            if sec_lt(col, b, c) {
                lemma_sec_incomparable(col, c, a, b);
            } else {
                assert(!sec_lt(col, c, b));
                lemma_sec_incomparable(col, a, b, c);
                lemma_sec_incomparable(col, c, a, b);
            }
        }
    }
}

/// Ranking never puts a worse fit level before a better one, whatever the
/// sort column or the installed flags: the discrete verdict dominates.
pub proof fn lemma_fit_level_dominates(
    installed_first: bool,
    col: SortColumn,
    a: ModelFitView,
    b: ModelFitView,
)
    requires
        rank_le(installed_first, col, a, b),
    ensures
        a.fit_level.spec_rank() <= b.fit_level.spec_rank(),
{
}

/// The views of a sequence of results.
pub open spec fn views(s: Seq<ModelFit>) -> Seq<ModelFitView> {
    s.map_values(|f: ModelFit| f@)
}

/// Stable insertion: the new element goes after every element that
/// stands at or before it, so it lands after everything it ties with.
pub open spec fn spec_insert(
    installed_first: bool,
    col: SortColumn,
    s: Seq<ModelFitView>,
    x: ModelFitView,
) -> Seq<ModelFitView>
    decreases s.len(),
{
    if s.len() == 0 {
        seq![x]
    } else if rank_le(installed_first, col, s[0], x) {
        seq![s[0]] + spec_insert(installed_first, col, s.skip(1), x)
    } else {
        seq![x] + s
    }
}

/// Where `spec_insert` places the new element: past the leading run of
/// elements that stand at or before it.
pub open spec fn spec_insert_pos(
    installed_first: bool,
    col: SortColumn,
    s: Seq<ModelFitView>,
    x: ModelFitView,
) -> int
    decreases s.len(),
{
    if s.len() == 0 {
        0
    } else if rank_le(installed_first, col, s[0], x) {
        1 + spec_insert_pos(installed_first, col, s.skip(1), x)
    } else {
        0
    }
}

/// The stable order of a whole collection: each element, in input order,
/// inserted into the sorted result of its predecessors. Exact ties keep
/// their input order, because insertion places every element after the
/// elements it ties with.
pub open spec fn spec_ranked(
    installed_first: bool,
    col: SortColumn,
    s: Seq<ModelFitView>,
) -> Seq<ModelFitView>
    decreases s.len(),
{
    if s.len() == 0 {
        Seq::empty()
    } else {
        spec_insert(installed_first, col, spec_ranked(installed_first, col, s.drop_last()), s.last())
    }
}

/// Insertion into a sorted collection splits it at `spec_insert_pos`, and
/// that position lies after exactly the elements that stand at or before
/// the new one — ties included, which is what keeps input order on ties.
pub proof fn lemma_insert_keeps_tie_order(
    installed_first: bool,
    col: SortColumn,
    s: Seq<ModelFitView>,
    x: ModelFitView,
)
    requires
        sorted_by(s, installed_first, col),
    ensures
        ({
            let p = spec_insert_pos(installed_first, col, s, x);
            &&& 0 <= p <= s.len()
            &&& spec_insert(installed_first, col, s, x) == s.take(p) + seq![x] + s.skip(p)
            &&& forall|i: int|
                0 <= i < s.len() ==> (rank_le(installed_first, col, s[i], x) <==> i < p)
        }),
    decreases s.len(),
{
    let p = spec_insert_pos(installed_first, col, s, x);
    if s.len() == 0 {
        assert(spec_insert(installed_first, col, s, x) =~= s.take(0) + seq![x] + s.skip(0));
    } else if rank_le(installed_first, col, s[0], x) {
        let rest = s.skip(1);
        assert(sorted_by(rest, installed_first, col)) by {
            assert forall|i: int, j: int| 0 <= i < j < rest.len() implies rank_le(
                installed_first,
                col,
                rest[i],
                rest[j],
            ) by {
                assert(rest[i] == s[i + 1]);
                assert(rest[j] == s[j + 1]);
            }
        }
        lemma_insert_keeps_tie_order(installed_first, col, rest, x);
        let q = spec_insert_pos(installed_first, col, rest, x);
        assert(p == 1 + q);
        assert(spec_insert(installed_first, col, s, x) =~= s.take(p) + seq![x] + s.skip(p)) by {
            assert(spec_insert(installed_first, col, s, x) == seq![s[0]] + (rest.take(q) + seq![x]
                + rest.skip(q)));
            assert(seq![s[0]] + (rest.take(q) + seq![x] + rest.skip(q)) =~= s.take(p) + seq![x]
                + s.skip(p));
        }
        assert forall|i: int| 0 <= i < s.len() implies (rank_le(installed_first, col, s[i], x)
            <==> i < p) by {
            if i > 0 {
                assert(rest[i - 1] == s[i]);
            }
        }
    } else {
        assert(p == 0);
        assert(spec_insert(installed_first, col, s, x) =~= s.take(0) + seq![x] + s.skip(0));
        assert forall|i: int| 0 <= i < s.len() implies !rank_le(installed_first, col, s[i], x) by {
            if i > 0 && rank_le(installed_first, col, s[i], x) {
                lemma_rank_le_trans(installed_first, col, s[0], s[i], x);
            }
        }
    }
}

/// Every element stands at or before every later one.
pub open spec fn sorted_by(s: Seq<ModelFitView>, installed_first: bool, col: SortColumn) -> bool {
    forall|i: int, j: int|
        0 <= i < j < s.len() ==> rank_le(installed_first, col, s[i], s[j])
}

/// Lexicographic comparison of two strings, character by character.
pub fn str_lex_lt(a: &str, b: &str) -> (r: bool)
    ensures
        r == lex_lt(a@, b@),
{
    let alen = a.unicode_len();
    let blen = b.unicode_len();
    let mut i: usize = 0;
    proof {
        assert(a@.skip(0) =~= a@);
        assert(b@.skip(0) =~= b@);
    }
    loop
        invariant
            i <= alen,
            i <= blen,
            alen == a@.len(),
            blen == b@.len(),
            lex_lt(a@, b@) == lex_lt(a@.skip(i as int), b@.skip(i as int)),
        decreases alen - i,
    {
        if i >= blen {
            assert(b@.skip(i as int).len() == 0);
            return false;
        }
        if i >= alen {
            assert(a@.skip(i as int).len() == 0);
            assert(b@.skip(i as int).len() > 0);
            return true;
        }
        let ca = a.get_char(i);
        let cb = b.get_char(i);
        assert(a@.skip(i as int)[0] == a@[i as int]);
        assert(b@.skip(i as int)[0] == b@[i as int]);
        if (ca as u32) < (cb as u32) {
            return true;
        }
        if (cb as u32) < (ca as u32) {
            return false;
        }
        proof {
            assert(a@.skip(i as int).skip(1) =~= a@.skip(i as int + 1));
            assert(b@.skip(i as int).skip(1) =~= b@.skip(i as int + 1));
        }
        i = i + 1;
    }
}

/// Newest-first comparison of release dates; an unknown date is oldest.
fn date_lt(a: &ModelFit, b: &ModelFit) -> (r: bool)
    ensures
        r == lex_lt(spec_date_key(b@), spec_date_key(a@)),
{
    match (&b.model.release_date, &a.model.release_date) {
        (None, None) => false,
        (Some(_), None) => false,
        (None, Some(d)) => {
            if d.as_str().is_empty() {
                false
            } else {
                true
            }
        }
        (Some(db), Some(da)) => str_lex_lt(db.as_str(), da.as_str()),
    }
}

fn sec_lt_exec(col: SortColumn, a: &ModelFit, b: &ModelFit) -> (r: bool)
    ensures
        r == sec_lt(col, a@, b@),
{
    match col {
        SortColumn::Score => a.score > b.score,
        SortColumn::Speed => a.estimated_tps_tenths > b.estimated_tps_tenths,
        SortColumn::Params => a.model.params_m > b.model.params_m,
        SortColumn::Memory => a.utilization_pct < b.utilization_pct,
        SortColumn::Context => a.model.context_length > b.model.context_length,
        SortColumn::Name => str_lex_lt(a.model.name.as_str(), b.model.name.as_str()),
        SortColumn::Date => date_lt(a, b),
    }
}

/// Decide whether `a` may stand at or before `b` under the ranking order.
pub fn fit_le(installed_first: bool, col: SortColumn, a: &ModelFit, b: &ModelFit) -> (r: bool)
    ensures
        r == rank_le(installed_first, col, a@, b@),
{
    let ra = a.fit_level.rank();
    let rb = b.fit_level.rank();
    if ra != rb {
        return ra < rb;
    }
    if sec_lt_exec(col, a, b) {
        return true;
    }
    if sec_lt_exec(col, b, a) {
        return false;
    }
    if installed_first && a.installed != b.installed {
        a.installed
    } else {
        true
    }
}

/// Insert `x` after every element that stands at or before it, keeping
/// the collection sorted; when every element does, `x` lands at the end.
/// The result is exactly the stable insertion `spec_insert`.
fn insert_sorted(out: &mut Vec<ModelFit>, x: ModelFit, installed_first: bool, col: SortColumn)
    requires
        sorted_by(views(old(out)@), installed_first, col),
    ensures
        final(out)@.len() == old(out)@.len() + 1,
        sorted_by(views(final(out)@), installed_first, col),
        views(final(out)@).to_multiset() == views(old(out)@).to_multiset().insert(x@),
        views(final(out)@) == spec_insert(installed_first, col, views(old(out)@), x@),
        (forall|i: int|
            0 <= i < old(out)@.len() ==> rank_le(installed_first, col, views(old(out)@)[i], x@))
            ==> views(final(out)@) == views(old(out)@).push(x@),
{
    let ghost pre = views(out@);
    let mut p: usize = 0;
    while p < out.len() && fit_le(installed_first, col, &out[p], &x)
        invariant
            pre == views(out@),
            p <= out@.len(),
            forall|k: int| 0 <= k < p ==> rank_le(installed_first, col, views(out@)[k], x@),
        decreases out@.len() - p,
    {
        p = p + 1;
    }
    let ghost pint = p as int;
    out.insert(p, x);
    proof {
        let post = views(out@);
        assert(post =~= pre.insert(pint, x@)) by {
            assert(out@ =~= out@);
            assert forall|i: int| 0 <= i < post.len() implies post[i] == pre.insert(pint, x@)[i] by {
            }
        }
        // The new element stands at or after everything before it, and at
        // or before everything after it.
        if pint < pre.len() {
            lemma_rank_le_total(installed_first, col, pre[pint], x@);
        }
        assert forall|i: int, j: int| 0 <= i < j < post.len() implies rank_le(
            installed_first,
            col,
            post[i],
            post[j],
        ) by {
            if i < pint && j == pint {
                // post[j] == x@, post[i] == pre[i] with i < p
            } else if i == pint && j > pint {
                // post[i] == x@, post[j] == pre[j-1] with j-1 >= p
                assert(!rank_le(installed_first, col, pre[pint], x@));
                lemma_rank_le_total(installed_first, col, pre[pint], x@);
                if j - 1 > pint {
                    lemma_rank_le_trans(installed_first, col, x@, pre[pint], pre[j - 1]);
                }
            } else if i < pint && j > pint {
                // both old elements, indices i and j-1
            } else if i > pint && j > pint {
                // both old elements, indices i-1 and j-1
            }
        }
        // Multiset: removing the inserted element gives back the old view.
        assert(post.remove(pint) =~= pre);
        assert(post[pint] == x@);
        assert(post.remove(pint).to_multiset() =~= post.to_multiset().remove(x@));
        assert(post.to_multiset().count(x@) > 0) by {
            assert(post.contains(x@));
        }
        assert(post.to_multiset() =~= pre.to_multiset().insert(x@));
        // When everything stands at or before x, p ran to the end.
        if forall|i: int| 0 <= i < pre.len() ==> rank_le(installed_first, col, pre[i], x@) {
            if pint < pre.len() {
                assert(!rank_le(installed_first, col, pre[pint], x@));
            }
            assert(post =~= pre.push(x@));
        }
        // The loop stops exactly at the stable insertion position.
        lemma_insert_keeps_tie_order(installed_first, col, pre, x@);
        let ppos = spec_insert_pos(installed_first, col, pre, x@);
        if pint < pre.len() {
            assert(!rank_le(installed_first, col, pre[pint], x@));
            assert(ppos <= pint);
        }
        if pint > 0 {
            assert(rank_le(installed_first, col, pre[pint - 1], x@));
            assert(pint - 1 < ppos);
        }
        assert(pint == ppos);
        assert(pre.insert(pint, x@) =~= pre.take(pint) + seq![x@] + pre.skip(pint));
        assert(post == spec_insert(installed_first, col, pre, x@));
    }
}

/// Reorder a set of analyzed results. Pure reordering: no score is
/// recomputed. The result is sorted by the ranking order, holds exactly
/// the input results, and is precisely the stable insertion order
/// `spec_ranked`, which keeps exact ties in their input order. An already
/// sorted input comes back unchanged, so ranking twice gives the same
/// order as ranking once.
pub fn rank_models_by_fit_opts_col(
    fits: Vec<ModelFit>,
    installed_first: bool,
    col: SortColumn,
) -> (r: Vec<ModelFit>)
    ensures
        sorted_by(views(r@), installed_first, col),
        views(r@).to_multiset() == views(fits@).to_multiset(),
        views(r@) == spec_ranked(installed_first, col, views(fits@)),
        sorted_by(views(fits@), installed_first, col) ==> views(r@) == views(fits@),
{
    let ghost orig = views(fits@);
    let mut input = fits;
    let mut out: Vec<ModelFit> = Vec::new();
    while input.len() > 0
        invariant
            sorted_by(views(out@), installed_first, col),
            views(out@).to_multiset().add(views(input@).to_multiset()) =~= orig.to_multiset(),
            views(input@) =~= orig.skip(out@.len() as int),
            views(out@) == spec_ranked(installed_first, col, orig.take(out@.len() as int)),
            sorted_by(orig, installed_first, col) ==> {
                &&& views(out@) =~= orig.take(out@.len() as int)
                &&& views(input@) =~= orig.skip(out@.len() as int)
            },
            out@.len() + input@.len() == orig.len(),
        decreases input@.len(),
    {
        let ghost pre_in = views(input@);
        let ghost pre_out = views(out@);
        let x = input.remove(0);
        proof {
            assert(views(input@) =~= pre_in.skip(1));
            assert(pre_in[0] == x@);
            assert(x@ == orig[pre_out.len() as int]);
            assert(views(input@) =~= orig.skip(pre_out.len() as int + 1)) by {
                assert(orig.skip(pre_out.len() as int).skip(1) =~= orig.skip(pre_out.len() as int + 1));
            }
            assert(pre_in.remove(0).to_multiset() =~= pre_in.to_multiset().remove(x@));
            assert(views(input@) =~= pre_in.remove(0));
            if sorted_by(orig, installed_first, col) {
                assert(x@ == orig[pre_out.len() as int]);
                assert forall|i: int|
                    0 <= i < pre_out.len() implies rank_le(installed_first, col, pre_out[i], x@) by {
                    assert(pre_out[i] == orig[i]);
                }
            }
        }
        insert_sorted(&mut out, x, installed_first, col);
        proof {
            assert(views(out@).to_multiset().add(views(input@).to_multiset())
                =~= orig.to_multiset()) by {
                assert(pre_in.to_multiset().count(x@) > 0) by {
                    assert(pre_in.contains(x@));
                }
                assert(views(out@).to_multiset() =~= pre_out.to_multiset().insert(x@));
            }
            assert(views(out@) == spec_ranked(installed_first, col, orig.take(out@.len()
                as int))) by {
                let n = pre_out.len() as int;
                assert(orig.take(n + 1).drop_last() =~= orig.take(n));
                assert(orig.take(n + 1).last() == orig[n]);
            }
            if sorted_by(orig, installed_first, col) {
                assert(views(out@) =~= pre_out.push(x@));
                assert(views(out@) =~= orig.take(out@.len() as int));
                assert(views(input@) =~= orig.skip(out@.len() as int)) by {
                    assert(pre_in =~= orig.skip(pre_out.len() as int));
                }
            }
        }
    }
    proof {
        assert(views(input@) =~= Seq::<ModelFitView>::empty());
        assert(views(out@).to_multiset() =~= orig.to_multiset()) by {
            assert(views(out@).to_multiset().add(Seq::<ModelFitView>::empty().to_multiset())
                =~= views(out@).to_multiset());
        }
        assert(orig.take(orig.len() as int) =~= orig);
        if sorted_by(orig, installed_first, col) {
            assert(views(out@) =~= orig.take(orig.len() as int));
        }
    }
    out
}

/// Rank by the default keys: fit level, then score, without the
/// installed-first preference.
pub fn rank_models_by_fit(fits: Vec<ModelFit>) -> (r: Vec<ModelFit>)
    ensures
        sorted_by(views(r@), false, SortColumn::Score),
        views(r@).to_multiset() == views(fits@).to_multiset(),
        views(r@) == spec_ranked(false, SortColumn::Score, views(fits@)),
        sorted_by(views(fits@), false, SortColumn::Score) ==> views(r@) == views(fits@),
{
    rank_models_by_fit_opts_col(fits, false, SortColumn::Score)
}

} // verus!
