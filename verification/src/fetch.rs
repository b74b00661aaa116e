//! What is asked of the Hugging Face API, and what becomes of the answers: the
//! order of the models and the choice of those that fit the machine.

use vstd::prelude::*;
use vstd::string::*;

#[allow(unused_imports)]
use crate::models;
use crate::models::{HfModel, ModelView};
use crate::share;
use crate::text;

verus! {

/// An order of models.
#[derive(Debug, Clone, Copy, PartialEq, Eq, Structural)]
pub enum ModelOrder {
    /// By id, in dictionary order.
    ById,
    /// By downloads, the most first; an unknown number comes last.
    ByDownloads,
}

/// At most this many models are listed.
pub const MAX_LISTED: usize = 20;

/// A number of downloads, with an unknown one below all others.
pub open spec fn download_rank(downloads: Option<u64>) -> int {
    match downloads {
        Some(d) => d as int,
        None => -1,
    }
}

/// `a` has to come before `b`.
pub open spec fn goes_before(order: ModelOrder, a: ModelView, b: ModelView) -> bool {
    match order {
        ModelOrder::ById => text::text_less(a.model_id, b.model_id),
        ModelOrder::ByDownloads => download_rank(a.downloads) > download_rank(b.downloads),
    }
}

/// `s` with `m` behind the last model that `m` does not go before.
pub open spec fn inserted(order: ModelOrder, s: Seq<ModelView>, m: ModelView) -> Seq<ModelView>
    decreases s.len(),
{
    if s.len() == 0 || !goes_before(order, m, s.last()) {
        s.push(m)
    } else {
        inserted(order, s.drop_last(), m).push(s.last())
    }
}

/// The models in order; of two that neither goes before the other, the one
/// that came first stays first.
pub open spec fn ordered(order: ModelOrder, s: Seq<ModelView>) -> Seq<ModelView>
    decreases s.len(),
{
    if s.len() == 0 {
        s
    } else {
        inserted(order, ordered(order, s.drop_last()), s.last())
    }
}

/// The model can run in a budget: its smallest quantization fits. A model
/// without a quantization of known size cannot be said to.
pub open spec fn can_run(m: ModelView, usable: u64) -> bool {
    match models::smallest(models::quant_choices(m.files())) {
        Some(c) => c.1 <= usable,
        None => false,
    }
}

/// The models of `s` that can run in a budget, in their order.
pub open spec fn runnable(s: Seq<ModelView>, usable: u64) -> Seq<ModelView>
    decreases s.len(),
{
    if s.len() == 0 {
        s
    } else if can_run(s.last(), usable) {
        runnable(s.drop_last(), usable).push(s.last())
    } else {
        runnable(s.drop_last(), usable)
    }
}

/// The first models of a list, as many as are listed at most.
pub open spec fn listed(s: Seq<ModelView>) -> Seq<ModelView> {
    if s.len() <= MAX_LISTED {
        s
    } else {
        s.take(MAX_LISTED as int)
    }
}

/// A candidate with its details where they could be had, else as it was.
pub open spec fn detailed(c: (HfModel, Option<HfModel>)) -> ModelView {
    match c.1 {
        Some(m) => m@,
        None => c.0@,
    }
}

/// The candidates with their details.
pub open spec fn all_detailed(cs: Seq<(HfModel, Option<HfModel>)>) -> Seq<ModelView> {
    cs.map_values(|c: (HfModel, Option<HfModel>)| detailed(c))
}

/// An installed model with its details where they could be had, else with its
/// id alone.
pub open spec fn found(c: (String, Option<HfModel>)) -> ModelView {
    match c.1 {
        Some(m) => m@,
        None => ModelView::bare(c.0@),
    }
}

/// The installed models with their details.
pub open spec fn all_found(cs: Seq<(String, Option<HfModel>)>) -> Seq<ModelView> {
    cs.map_values(|c: (String, Option<HfModel>)| found(c))
}

// ---------------------------------------------------------------------------
// Order
// ---------------------------------------------------------------------------

/// Whether `a` has to come before `b`.
pub fn comes_first(order: ModelOrder, a: &HfModel, b: &HfModel) -> (r: bool)
    ensures
        r == goes_before(order, a@, b@),
{
    match order {
        ModelOrder::ById => text::comes_before(a.model_id.as_str(), b.model_id.as_str()),
        ModelOrder::ByDownloads => match (a.downloads, b.downloads) {
            (Some(x), Some(y)) => x > y,
            (Some(_), None) => true,
            (None, _) => false,
        },
    }
}

fn insert_model(order: ModelOrder, sorted: &mut Vec<HfModel>, m: HfModel)
    ensures
        models::model_views(final(sorted)@) == inserted(
            order,
            models::model_views(old(sorted)@),
            m@,
        ),
{
    let ghost all = models::model_views(sorted@);
    let mut k: usize = sorted.len();
    assert(all.take(k as int) =~= all);
    assert(inserted(order, all, m@) =~= inserted(order, all, m@) + all.skip(k as int));
    while k > 0 && comes_first(order, &m, &sorted[k - 1])
        invariant
            k <= sorted@.len(),
            all == models::model_views(sorted@),
            inserted(order, all, m@) == inserted(order, all.take(k as int), m@) + all.skip(
                k as int,
            ),
        decreases k,
    {
        proof {
            let head = all.take(k as int);
            assert(head.last() == sorted@[k - 1]@);
            assert(head.drop_last() =~= all.take(k - 1));
            assert(inserted(order, all.take(k - 1), m@).push(head.last()) + all.skip(k as int)
                =~= inserted(order, all.take(k - 1), m@) + all.skip(k - 1));
        }
        k = k - 1;
    }
    assert(k > 0 ==> all.take(k as int).last() == sorted@[k - 1]@);
    assert(inserted(order, all.take(k as int), m@) == all.take(k as int).push(m@));
    assert(all.take(k as int).push(m@) + all.skip(k as int) =~= all.insert(k as int, m@));
    let ghost before = sorted@;
    let ghost value = m;
    sorted.insert(k, m);
    assert(models::model_views(before.insert(k as int, value)) =~= all.insert(
        k as int,
        value@,
    ));
}

/// The models in order; of two that neither goes before the other, the one
/// that came first stays first.
pub fn sort_models(unsorted: Vec<HfModel>, order: ModelOrder) -> (sorted: Vec<HfModel>)
    ensures
        models::model_views(sorted@) == ordered(order, models::model_views(unsorted@)),
{
    let ghost all = models::model_views(unsorted@);
    let mut sorted: Vec<HfModel> = Vec::new();
    assert(models::model_views(sorted@) =~= ordered(order, all.take(0)));
    for m in it: unsorted
        invariant
            it.seq() == unsorted@,
            all == models::model_views(unsorted@),
            models::model_views(sorted@) == ordered(order, all.take(it.index() as int)),
    {
        proof {
            let i = it.index() as int;
            assert(all.take(i + 1).drop_last() =~= all.take(i));
            assert(all.take(i + 1).last() == m@);
        }
        insert_model(order, &mut sorted, m);
    }
    assert(all.take(all.len() as int) =~= all);
    sorted
}

// ---------------------------------------------------------------------------
// Requests
// ---------------------------------------------------------------------------

/// The address that lists models.
pub fn models_url() -> (url: &'static str)
    ensures
        url@ == "https://huggingface.co/api/models"@,
{
    "https://huggingface.co/api/models"
}

/// The address of the details of one model.
pub fn model_details_url(model_id: &str) -> (url: String)
    ensures
        url@ == "https://huggingface.co/api/models/"@ + model_id@,
{
    "https://huggingface.co/api/models/".to_owned().concat(model_id)
}

/// The views of the parameters of a request.
pub open spec fn param_views(params: Seq<(String, String)>) -> Seq<(Seq<char>, Seq<char>)> {
    params.map_values(|p: (String, String)| (p.0@, p.1@))
}

/// The parameters that every listing is asked with: repositories tagged `gguf`,
/// the most downloaded first, 150 of them.
pub open spec fn listing_params() -> Seq<(Seq<char>, Seq<char>)> {
    seq![
        ("filter"@, "gguf"@),
        ("sort"@, "downloads"@),
        ("direction"@, "-1"@),
        ("limit"@, "150"@),
    ]
}

/// The parameters for a listing, narrowed to a search term where there is one.
pub fn candidate_params(search: Option<&str>) -> (params: Vec<(String, String)>)
    ensures
        param_views(params@) == match search {
            Some(q) => listing_params().push(("search"@, q@)),
            None => listing_params(),
        },
{
    let mut params: Vec<(String, String)> = Vec::new();
    params.push(("filter".to_owned(), "gguf".to_owned()));
    params.push(("sort".to_owned(), "downloads".to_owned()));
    params.push(("direction".to_owned(), "-1".to_owned()));
    params.push(("limit".to_owned(), "150".to_owned()));
    assert(param_views(params@) =~= listing_params());
    if let Some(q) = search {
        params.push(("search".to_owned(), q.to_owned()));
        assert(param_views(params@) =~= listing_params().push(("search"@, q@)));
    }
    params
}

/// The parameters for the details of one model, which alone bring file sizes.
pub fn detail_params() -> (params: Vec<(String, String)>)
    ensures
        param_views(params@) == seq![("blobs"@, "true"@)],
{
    let mut params: Vec<(String, String)> = Vec::new();
    params.push(("blobs".to_owned(), "true".to_owned()));
    assert(param_views(params@) =~= seq![("blobs"@, "true"@)]);
    params
}

// ---------------------------------------------------------------------------
// Answers
// ---------------------------------------------------------------------------

/// Whether a model can run in a budget.
pub fn fits_budget(m: &HfModel, usable: u64) -> (r: bool)
    ensures
        r == can_run(m@, usable),
{
    let options = m.quant_options();
    let ghost all = models::choice_views(options@);
    if options.len() == 0 {
        return false;
    }
    let mut least: u64 = options[0].1;
    assert(models::smallest(all.take(1)) == Some(all[0])) by {
        assert(models::smallest(all.take(1).drop_last()) is None);
    }
    for i in 1..options.len()
        invariant
            all == models::choice_views(options@),
            models::smallest(all.take(i as int)) matches Some(c) && c.1 == least,
    {
        assert(all.take(i + 1).drop_last() =~= all.take(i as int));
        if options[i].1 < least {
            least = options[i].1;
        }
    }
    assert(all.take(options@.len() as int) =~= all);
    least <= usable
}

/// The models to list for a machine with `mem_limit` bytes for a model: ranked
/// by downloads, those whose smallest quantization fits in nine tenths of that
/// memory, twenty at most. A candidate whose details could not be had is judged
/// by what it was listed with.
pub fn filter_to_fitting(candidates: Vec<(HfModel, Option<HfModel>)>, mem_limit: u64) -> (kept: Vec<
    HfModel,
>)
    ensures
        models::model_views(kept@) == listed(
            runnable(
                ordered(ModelOrder::ByDownloads, all_detailed(candidates@)),
                share::nine_tenths(mem_limit as nat) as u64,
            ),
        ),
{
    let ghost all = all_detailed(candidates@);
    let mut with_details: Vec<HfModel> = Vec::new();
    assert(models::model_views(with_details@) =~= all.take(0));
    for c in it: candidates
        invariant
            it.seq() == candidates@,
            all == all_detailed(candidates@),
            models::model_views(with_details@) == all.take(it.index() as int),
    {
        let ghost before = models::model_views(with_details@);
        let ghost i = it.index() as int;
        let m = match c.1 {
            Some(m) => m,
            None => c.0,
        };
        let ghost shown = m@;
        with_details.push(m);
        proof {
            assert(shown == all[i]);
            assert(models::model_views(with_details@) =~= before.push(shown));
            assert(all.take(i + 1) =~= before.push(shown));
        }
    }
    assert(all.take(all.len() as int) =~= all);
    let ranked = sort_models(with_details, ModelOrder::ByDownloads);
    let usable = share::usable_share(mem_limit);
    keep_runnable(ranked, usable)
}

fn keep_runnable(ranked: Vec<HfModel>, usable: u64) -> (kept: Vec<HfModel>)
    ensures
        models::model_views(kept@) == listed(runnable(models::model_views(ranked@), usable)),
{
    let ghost all = models::model_views(ranked@);
    let mut kept: Vec<HfModel> = Vec::new();
    assert(models::model_views(kept@) =~= listed(runnable(all.take(0), usable)));
    for m in it: ranked
        invariant
            it.seq() == ranked@,
            all == models::model_views(ranked@),
            models::model_views(kept@) == listed(runnable(all.take(it.index() as int), usable)),
    {
        let ghost before = models::model_views(kept@);
        let ghost i = it.index() as int;
        let ghost value = m@;
        proof {
            assert(all.take(i + 1).drop_last() =~= all.take(i));
            assert(all.take(i + 1).last() == value);
        }
        if fits_budget(&m, usable) && kept.len() < MAX_LISTED {
            kept.push(m);
            assert(models::model_views(kept@) =~= before.push(value));
        }
        assert(models::model_views(kept@) =~= listed(runnable(all.take(i + 1), usable)));
    }
    assert(all.take(all.len() as int) =~= all);
    kept
}

/// The installed models with their details, by id. One whose details could not
/// be had is kept with its id alone, so that an install never disappears.
pub fn fetch_installed_models(lookups: Vec<(String, Option<HfModel>)>) -> (installed: Vec<HfModel>)
    ensures
        models::model_views(installed@) == ordered(ModelOrder::ById, all_found(lookups@)),
{
    let ghost all = all_found(lookups@);
    let mut with_details: Vec<HfModel> = Vec::new();
    assert(models::model_views(with_details@) =~= all.take(0));
    for c in it: lookups
        invariant
            it.seq() == lookups@,
            all == all_found(lookups@),
            models::model_views(with_details@) == all.take(it.index() as int),
    {
        let ghost before = models::model_views(with_details@);
        let ghost i = it.index() as int;
        let m = match c.1 {
            Some(m) => m,
            None => HfModel {
                model_id: c.0,
                downloads: None,
                likes: None,
                last_modified: None,
                tags: None,
                siblings: None,
            },
        };
        let ghost shown = m@;
        with_details.push(m);
        proof {
            assert(shown == all[i]);
            assert(models::model_views(with_details@) =~= before.push(shown));
            assert(all.take(i + 1) =~= before.push(shown));
        }
    }
    assert(all.take(all.len() as int) =~= all);
    sort_models(with_details, ModelOrder::ById)
}

// ---------------------------------------------------------------------------
// Laws
// ---------------------------------------------------------------------------

/// No model of `s` has to come before one in front of it.
pub open spec fn in_order(order: ModelOrder, s: Seq<ModelView>) -> bool {
    forall|i: int, j: int|
        0 <= i < j < s.len() ==> !goes_before(order, #[trigger] s[j], #[trigger] s[i])
}

/// Neither of two models has to come before the other.
pub open spec fn tied(order: ModelOrder, a: ModelView, b: ModelView) -> bool {
    !goes_before(order, a, b) && !goes_before(order, b, a)
}

/// The models of `s` that are tied with `m`, in their order.
pub open spec fn tied_with(order: ModelOrder, m: ModelView, s: Seq<ModelView>) -> Seq<ModelView>
    decreases s.len(),
{
    if s.len() == 0 {
        s
    } else if tied(order, m, s.last()) {
        tied_with(order, m, s.drop_last()).push(s.last())
    } else {
        tied_with(order, m, s.drop_last())
    }
}

proof fn lemma_goes_before_transitive(order: ModelOrder, a: ModelView, b: ModelView, c: ModelView)
    requires
        goes_before(order, a, b),
    ensures
        goes_before(order, b, c) ==> goes_before(order, a, c),
        !goes_before(order, c, b) ==> goes_before(order, a, c),
{
    match order {
        ModelOrder::ById => {
            if text::text_less(b.model_id, c.model_id) {
                text::lemma_text_less_transitive(a.model_id, b.model_id, c.model_id);
            } else if !text::text_less(c.model_id, b.model_id) {
                if b.model_id != c.model_id {
                    text::lemma_text_less_total(b.model_id, c.model_id);
                }
            }
        },
        ModelOrder::ByDownloads => {},
    }
}

proof fn lemma_goes_before_asymmetric(order: ModelOrder, a: ModelView, b: ModelView)
    requires
        goes_before(order, a, b),
    ensures
        !goes_before(order, b, a),
{
    match order {
        ModelOrder::ById => {
            if text::text_less(b.model_id, a.model_id) {
                text::lemma_text_less_transitive(a.model_id, b.model_id, a.model_id);
                text::lemma_text_less_irreflexive(a.model_id);
            }
        },
        ModelOrder::ByDownloads => {},
    }
}

/// The models of `inserted` are those of `s` and `m`.
proof fn lemma_inserted_members(order: ModelOrder, s: Seq<ModelView>, m: ModelView)
    ensures
        inserted(order, s, m).to_multiset() == s.to_multiset().insert(m),
        inserted(order, s, m).len() == s.len() + 1,
        forall|i: int|
            0 <= i < inserted(order, s, m).len() ==> #[trigger] inserted(order, s, m)[i] == m
                || s.contains(inserted(order, s, m)[i]),
    decreases s.len(),
{
    broadcast use vstd::seq_lib::group_to_multiset_ensures;

    if s.len() == 0 || !goes_before(order, m, s.last()) {
        assert forall|i: int| 0 <= i < s.push(m).len() implies #[trigger] s.push(m)[i] == m
            || s.contains(s.push(m)[i]) by {
            if i < s.len() {
                assert(s[i] == s.push(m)[i]);
            }
        }
    } else {
        let rest = s.drop_last();
        lemma_inserted_members(order, rest, m);
        assert(rest.push(s.last()) =~= s);
        let part = inserted(order, rest, m);
        assert(part.push(s.last()).to_multiset() =~= s.to_multiset().insert(m));
        let out = inserted(order, s, m);
        assert forall|i: int| 0 <= i < out.len() implies #[trigger] out[i] == m || s.contains(
            out[i],
        ) by {
            if i < part.len() {
                assert(out[i] == part[i]);
                if part[i] != m {
                    let k = choose|k: int| 0 <= k < rest.len() && rest[k] == part[i];
                    assert(s[k] == out[i]);
                }
            } else {
                assert(s[s.len() - 1] == out[i]);
            }
        }
    }
}

proof fn lemma_inserted_in_order(order: ModelOrder, s: Seq<ModelView>, m: ModelView)
    requires
        in_order(order, s),
    ensures
        in_order(order, inserted(order, s, m)),
    decreases s.len(),
{
    let out = inserted(order, s, m);
    if s.len() == 0 || !goes_before(order, m, s.last()) {
        assert forall|i: int, j: int| 0 <= i < j < out.len() implies !goes_before(
            order,
            #[trigger] out[j],
            #[trigger] out[i],
        ) by {
            if j == s.len() {
                assert(out[i] == s[i]);
                if goes_before(order, m, s[i]) {
                    if i < s.len() - 1 {
                        assert(!goes_before(order, s[s.len() - 1], s[i]));
                        lemma_goes_before_transitive(order, m, s[i], s.last());
                    }
                }
            } else {
                assert(out[i] == s[i] && out[j] == s[j]);
            }
        }
    } else {
        let rest = s.drop_last();
        assert(in_order(order, rest)) by {
            assert forall|i: int, j: int| 0 <= i < j < rest.len() implies !goes_before(
                order,
                #[trigger] rest[j],
                #[trigger] rest[i],
            ) by {
                assert(rest[i] == s[i] && rest[j] == s[j]);
            }
        }
        lemma_inserted_in_order(order, rest, m);
        lemma_inserted_members(order, rest, m);
        let part = inserted(order, rest, m);
        assert forall|i: int, j: int| 0 <= i < j < out.len() implies !goes_before(
            order,
            #[trigger] out[j],
            #[trigger] out[i],
        ) by {
            assert(out[i] == part[i]);
            if j < part.len() {
                assert(out[j] == part[j]);
            } else {
                assert(out[j] == s.last());
                if part[i] == m {
                    lemma_goes_before_asymmetric(order, m, s.last());
                } else {
                    let k = choose|k: int| 0 <= k < rest.len() && rest[k] == part[i];
                    assert(s[k] == part[i]);
                    assert(!goes_before(order, s[s.len() - 1], s[k]));
                }
            }
        }
    }
}

proof fn lemma_inserted_tied(order: ModelOrder, s: Seq<ModelView>, m: ModelView, x: ModelView)
    ensures
        tied_with(order, x, inserted(order, s, m)) == tied_with(order, x, s.push(m)),
    decreases s.len(),
{
    assert(s.push(m).drop_last() =~= s);
    assert(s.push(m).last() == m);
    if s.len() == 0 || !goes_before(order, m, s.last()) {
    } else {
        let rest = s.drop_last();
        lemma_inserted_tied(order, rest, m, x);
        assert(rest.push(m).drop_last() =~= rest);
        let out = inserted(order, s, m);
        assert(out.drop_last() =~= inserted(order, rest, m));
        assert(out.last() == s.last());
        assert(rest.push(m).last() == m);
        let kept = tied_with(order, x, rest);
        assert(tied_with(order, x, s) == (if tied(order, x, s.last()) {
            kept.push(s.last())
        } else {
            kept
        }));
        assert(tied_with(order, x, rest.push(m)) == (if tied(order, x, m) {
            kept.push(m)
        } else {
            kept
        }));
        if tied(order, x, s.last()) && tied(order, x, m) {
            lemma_goes_before_transitive(order, m, s.last(), x);
            assert(false);
        }
    }
}

/// Sorting puts the models in order, loses and adds none, and keeps the
/// sequence of those that are tied with one another.
pub proof fn law_ordered(order: ModelOrder, s: Seq<ModelView>)
    ensures
        in_order(order, ordered(order, s)),
        ordered(order, s).to_multiset() == s.to_multiset(),
        forall|x: ModelView| #[trigger]
            tied_with(order, x, ordered(order, s)) == tied_with(order, x, s),
    decreases s.len(),
{
    broadcast use vstd::seq_lib::group_to_multiset_ensures;

    if s.len() > 0 {
        let rest = s.drop_last();
        let m = s.last();
        law_ordered(order, rest);
        lemma_inserted_in_order(order, ordered(order, rest), m);
        lemma_inserted_members(order, ordered(order, rest), m);
        assert(rest.push(m) =~= s);
        assert forall|x: ModelView| #[trigger]
            tied_with(order, x, ordered(order, s)) == tied_with(order, x, s) by {
            lemma_inserted_tied(order, ordered(order, rest), m, x);
            let tail = ordered(order, rest).push(m);
            assert(tail.drop_last() =~= ordered(order, rest));
            assert(tail.last() == m);
            assert(tied_with(order, x, ordered(order, rest)) == tied_with(order, x, rest));
        }
    }
}

proof fn lemma_runnable(s: Seq<ModelView>, usable: u64)
    ensures
        runnable(s, usable).len() <= s.len(),
        forall|i: int|
            0 <= i < runnable(s, usable).len() ==> can_run(
                #[trigger] runnable(s, usable)[i],
                usable,
            ) && s.contains(runnable(s, usable)[i]),
        forall|m: ModelView|
            s.contains(m) && can_run(m, usable) ==> #[trigger] runnable(s, usable).contains(m),
    decreases s.len(),
{
    if s.len() > 0 {
        let rest = s.drop_last();
        lemma_runnable(rest, usable);
        let out = runnable(s, usable);
        let before = runnable(rest, usable);
        assert forall|i: int| 0 <= i < out.len() implies can_run(#[trigger] out[i], usable)
            && s.contains(out[i]) by {
            if i < before.len() {
                assert(out[i] == before[i]);
                let k = choose|k: int| 0 <= k < rest.len() && rest[k] == before[i];
                assert(s[k] == out[i]);
            } else {
                assert(s[s.len() - 1] == out[i]);
            }
        }
        assert forall|m: ModelView| s.contains(m) && can_run(m, usable) implies #[trigger] out.contains(
            m,
        ) by {
            let k = choose|k: int| 0 <= k < s.len() && s[k] == m;
            if k < rest.len() {
                assert(rest[k] == m);
                assert(before.contains(m));
                let i = choose|i: int| 0 <= i < before.len() && before[i] == m;
                assert(out[i] == m);
            } else {
                assert(out[out.len() - 1] == m);
            }
        }
    }
}

proof fn lemma_runnable_in_order(order: ModelOrder, s: Seq<ModelView>, usable: u64)
    requires
        in_order(order, s),
    ensures
        in_order(order, runnable(s, usable)),
    decreases s.len(),
{
    if s.len() > 0 {
        let rest = s.drop_last();
        assert forall|i: int, j: int| 0 <= i < j < rest.len() implies !goes_before(
            order,
            #[trigger] rest[j],
            #[trigger] rest[i],
        ) by {
            assert(rest[i] == s[i] && rest[j] == s[j]);
        }
        lemma_runnable_in_order(order, rest, usable);
        lemma_runnable(rest, usable);
        let out = runnable(s, usable);
        let before = runnable(rest, usable);
        assert forall|i: int, j: int| 0 <= i < j < out.len() implies !goes_before(
            order,
            #[trigger] out[j],
            #[trigger] out[i],
        ) by {
            assert(out[i] == before[i]);
            if j < before.len() {
                assert(out[j] == before[j]);
            } else {
                let k = choose|k: int| 0 <= k < rest.len() && rest[k] == before[i];
                assert(s[k] == out[i]);
                assert(!goes_before(order, s[s.len() - 1], s[k]));
            }
        }
    }
}

/// The listed models are ranked by downloads, are twenty at most, and each of
/// them can run in the budget. Where they are fewer than twenty, every model
/// that can run is listed.
pub proof fn law_listed_models(s: Seq<ModelView>, usable: u64)
    ensures
        ({
            let out = listed(runnable(ordered(ModelOrder::ByDownloads, s), usable));
            &&& in_order(ModelOrder::ByDownloads, out)
            &&& out.len() <= MAX_LISTED
            &&& forall|i: int|
                0 <= i < out.len() ==> can_run(#[trigger] out[i], usable) && s.to_multiset().count(
                    out[i],
                ) > 0
            &&& out.len() < MAX_LISTED ==> forall|m: ModelView|
                s.contains(m) && can_run(m, usable) ==> #[trigger] out.contains(m)
        }),
{
    broadcast use vstd::seq_lib::group_to_multiset_ensures;

    let ranked = ordered(ModelOrder::ByDownloads, s);
    law_ordered(ModelOrder::ByDownloads, s);
    lemma_runnable_in_order(ModelOrder::ByDownloads, ranked, usable);
    lemma_runnable(ranked, usable);
    let all = runnable(ranked, usable);
    let out = listed(all);
    assert forall|i: int| 0 <= i < out.len() implies can_run(#[trigger] out[i], usable)
        && s.to_multiset().count(out[i]) > 0 by {
        assert(out[i] == all[i]);
        assert(ranked.contains(all[i]));
    }
    assert forall|i: int, j: int| 0 <= i < j < out.len() implies !goes_before(
        ModelOrder::ByDownloads,
        #[trigger] out[j],
        #[trigger] out[i],
    ) by {
        assert(out[i] == all[i] && out[j] == all[j]);
    }
    if out.len() < MAX_LISTED {
        assert forall|m: ModelView| s.contains(m) && can_run(m, usable) implies #[trigger] out.contains(
            m,
        ) by {
            assert(s.to_multiset().count(m) > 0);
            assert(ranked.to_multiset().count(m) > 0);
            assert(ranked.contains(m));
        }
    }
}

/// A model can run in a budget exactly where one of the quantizations on offer
/// fits, and then the one that would be recommended for it fits.
pub proof fn law_listed_iff_recommendation_fits(m: ModelView, usable: u64)
    ensures
        can_run(m, usable) <==> (models::best_choice(
            models::quant_choices(m.files()),
            usable,
        ) matches Some(c) && c.1 <= usable),
        can_run(m, usable) <==> exists|i: int|
            0 <= i < models::quant_choices(m.files()).len() && (#[trigger] models::quant_choices(
                m.files(),
            )[i]).1 <= usable,
{
    let choices = models::quant_choices(m.files());
    models::law_best_choice(choices, usable);
    models::lemma_smallest(choices);
    if choices.len() > 0 {
        let i = choose|i: int| #[trigger]
            models::first_smallest(choices, i) && Some(choices[i]) == models::smallest(choices);
        if choices[i].1 <= usable {
            models::law_recommendation_fits_if_anything_does(choices, usable, i);
        }
    }
}

/// The two orders, on the models' own fields. By downloads a larger number goes
/// before a smaller, and any number before an unknown one; by id the dictionary
/// decides.
pub proof fn law_which_model_goes_before(a: ModelView, b: ModelView)
    ensures
        goes_before(ModelOrder::ByDownloads, a, b) <==> (a.downloads matches Some(x) && (
        b.downloads matches Some(y) ==> x > y)),
        goes_before(ModelOrder::ById, a, b) <==> text::text_less(a.model_id, b.model_id),
{
}

/// Models that are ranked by downloads go from the most to the least, those with
/// an unknown number last; models that are ranked by id never go down in the
/// dictionary.
pub proof fn law_ranked_models(s: Seq<ModelView>, i: int, j: int)
    requires
        0 <= i < j < s.len(),
    ensures
        ordered(ModelOrder::ByDownloads, s).len() == s.len(),
        ordered(ModelOrder::ById, s).len() == s.len(),
        ({
            let a = ordered(ModelOrder::ByDownloads, s)[i];
            let b = ordered(ModelOrder::ByDownloads, s)[j];
            b.downloads matches Some(y) ==> (a.downloads matches Some(x) && x >= y)
        }),
        !text::text_less(
            ordered(ModelOrder::ById, s)[j].model_id,
            ordered(ModelOrder::ById, s)[i].model_id,
        ),
{
    broadcast use vstd::seq_lib::group_to_multiset_ensures;

    law_ordered(ModelOrder::ByDownloads, s);
    law_ordered(ModelOrder::ById, s);
    let d = ordered(ModelOrder::ByDownloads, s);
    let n = ordered(ModelOrder::ById, s);
    assert(d.len() == s.len()) by {
        assert(d.to_multiset().len() == s.to_multiset().len());
    }
    assert(n.len() == s.len()) by {
        assert(n.to_multiset().len() == s.to_multiset().len());
    }
    assert(!goes_before(ModelOrder::ByDownloads, d[j], d[i]));
    assert(!goes_before(ModelOrder::ById, n[j], n[i]));
}

/// A model can run in a budget exactly where the repository has a file of a known
/// quantization, of known size, that fits.
pub proof fn law_what_can_run(m: ModelView, usable: u64)
    ensures
        can_run(m, usable) <==> exists|k: int|
            0 <= k < models::quant_labels().len() && (models::quant_size(
                m.files(),
                #[trigger] models::quant_labels()[k],
            ) matches Some(size) && size <= usable),
{
    let labels = models::quant_labels();
    let choices = models::quant_choices(m.files());
    law_listed_iff_recommendation_fits(m, usable);
    if can_run(m, usable) {
        let i = choose|i: int| 0 <= i < choices.len() && (#[trigger] choices[i]).1 <= usable;
        let c = choices[i];
        assert(choices.contains(c));
        models::law_choices_are_the_files_named(m.files(), c.0, c.1);
        let k = choose|k: int| 0 <= k < labels.len() && labels[k] == c.0;
        assert(models::quant_size(m.files(), labels[k]) == Some(c.1));
    }
    if exists|k: int|
        0 <= k < labels.len() && (models::quant_size(m.files(), #[trigger] labels[k]) matches Some(
            size,
        ) && size <= usable) {
        let k = choose|k: int|
            0 <= k < labels.len() && (models::quant_size(
                m.files(),
                #[trigger] labels[k],
            ) matches Some(size) && size <= usable);
        let size = models::quant_size(m.files(), labels[k])->0;
        models::law_choices_are_the_files_named(m.files(), labels[k], size);
        assert(labels.contains(labels[k]));
        let i = choose|i: int| 0 <= i < choices.len() && choices[i] == (labels[k], size);
        assert(choices[i].1 <= usable);
    }
}

/// The models that are listed for a machine: at most twenty, from the most
/// downloads to the least; each of them can run in nine tenths of the memory; and
/// a model that can run there and is not listed has no more downloads than any
/// that is, of which there are then twenty.
pub proof fn law_listed_models_are_the_top(s: Seq<ModelView>, mem_limit: u64, m: ModelView, i: int)
    requires
        mem_limit < 0x2_0000_0000_0000,
    ensures
        ({
            let usable = (9 * mem_limit / 10) as u64;
            let out = listed(
                runnable(
                    ordered(ModelOrder::ByDownloads, s),
                    share::nine_tenths(mem_limit as nat) as u64,
                ),
            );
            &&& out.len() <= 20
            &&& 0 <= i < out.len() ==> can_run(out[i], usable) && s.contains(out[i])
            &&& s.contains(m) && can_run(m, usable) && !out.contains(m) ==> out.len() == 20 && (0
                <= i < out.len() ==> (m.downloads matches Some(y) ==> (
            out[i].downloads matches Some(x) && x >= y)))
        }),
{
    broadcast use vstd::seq_lib::group_to_multiset_ensures;

    share::law_nine_tenths_is_exact(mem_limit as nat);
    let usable = share::nine_tenths(mem_limit as nat) as u64;
    let ranked = ordered(ModelOrder::ByDownloads, s);
    law_listed_models(s, usable);
    law_ordered(ModelOrder::ByDownloads, s);
    lemma_runnable_in_order(ModelOrder::ByDownloads, ranked, usable);
    lemma_runnable(ranked, usable);
    let all = runnable(ranked, usable);
    let out = listed(all);
    if 0 <= i < out.len() {
        assert(s.to_multiset().count(out[i]) > 0);
    }
    if s.contains(m) && can_run(m, usable) && !out.contains(m) {
        assert(s.to_multiset().count(m) > 0);
        assert(ranked.to_multiset().count(m) > 0);
        assert(ranked.contains(m));
        assert(all.contains(m));
        let k = choose|k: int| 0 <= k < all.len() && all[k] == m;
        if k < out.len() {
            assert(out[k] == m);
        }
        if 0 <= i < out.len() {
            assert(out[i] == all[i]);
            assert(!goes_before(ModelOrder::ByDownloads, all[k], all[i]));
        }
    }
}

/// A candidate whose details could be had is taken with them, and any other as it
/// was listed; an installed model without details is kept with its id alone.
pub proof fn law_details_where_they_could_be_had(
    candidates: Seq<(HfModel, Option<HfModel>)>,
    lookups: Seq<(String, Option<HfModel>)>,
    i: int,
)
    ensures
        all_detailed(candidates).len() == candidates.len(),
        0 <= i < candidates.len() ==> (match candidates[i].1 {
            Some(m) => all_detailed(candidates)[i] == m@,
            None => all_detailed(candidates)[i] == candidates[i].0@,
        }),
        all_found(lookups).len() == lookups.len(),
        0 <= i < lookups.len() ==> (match lookups[i].1 {
            Some(m) => all_found(lookups)[i] == m@,
            None => all_found(lookups)[i].model_id == lookups[i].0@ && all_found(lookups)[i].files()
                == Seq::<models::SiblingView>::empty() && all_found(lookups)[i].downloads is None
                && all_found(lookups)[i].tags is None,
        }),
{
}

/// A listing is asked for repositories with the tag `gguf`, the most downloaded
/// first, 150 of them.
pub proof fn law_what_a_listing_is_asked_with(params: Seq<(String, String)>, i: int)
    ensures
        listing_params().contains(("filter"@, "gguf"@)),
        listing_params().contains(("sort"@, "downloads"@)),
        listing_params().contains(("direction"@, "-1"@)),
        listing_params().contains(("limit"@, "150"@)),
        listing_params().len() == 4,
        param_views(params).len() == params.len(),
        0 <= i < params.len() ==> param_views(params)[i] == (params[i].0@, params[i].1@),
{
    let p = listing_params();
    assert(p[0] == ("filter"@, "gguf"@) && p[1] == ("sort"@, "downloads"@));
    assert(p[2] == ("direction"@, "-1"@) && p[3] == ("limit"@, "150"@));
}

} // verus!
