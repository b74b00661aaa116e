//! Models as the Hugging Face API lists them, their quantizations, and the
//! choice of the best one for a memory budget.

use vstd::prelude::*;
use vstd::string::*;

#[allow(unused_imports)]
use crate::outside;
use crate::text;

verus! {

/// A file of a model's repository.
#[derive(Debug)]
pub struct HfSibling {
    pub rfilename: String,
    pub size: Option<u64>,
}

/// A model entry of the Hugging Face API.
#[derive(Debug)]
pub struct HfModel {
    pub model_id: String,
    pub downloads: Option<u64>,
    pub likes: Option<u32>,
    pub last_modified: Option<String>,
    pub tags: Option<Vec<String>>,
    pub siblings: Option<Vec<HfSibling>>,
}

// ---------------------------------------------------------------------------
// Models
// ---------------------------------------------------------------------------

/// A repository file as a mathematical value.
#[verifier::ext_equal]
pub struct SiblingView {
    pub rfilename: Seq<char>,
    pub size: Option<u64>,
}

impl View for HfSibling {
    type V = SiblingView;

    open spec fn view(&self) -> SiblingView {
        SiblingView { rfilename: self.rfilename@, size: self.size }
    }
}

/// The views of a sequence of repository files.
pub open spec fn sibling_views(s: Seq<HfSibling>) -> Seq<SiblingView> {
    s.map_values(|x: HfSibling| x@)
}

/// The view of a string that may be missing.
pub open spec fn text_view(s: Option<String>) -> Option<Seq<char>> {
    match s {
        Some(t) => Some(t@),
        None => None,
    }
}

/// A model as a mathematical value.
#[verifier::ext_equal]
pub struct ModelView {
    pub model_id: Seq<char>,
    pub downloads: Option<u64>,
    pub likes: Option<u32>,
    pub last_modified: Option<Seq<char>>,
    pub tags: Option<Seq<Seq<char>>>,
    pub siblings: Option<Seq<SiblingView>>,
}

impl View for HfModel {
    type V = ModelView;

    open spec fn view(&self) -> ModelView {
        ModelView {
            model_id: self.model_id@,
            downloads: self.downloads,
            likes: self.likes,
            last_modified: text_view(self.last_modified),
            tags: match self.tags {
                Some(t) => Some(text::texts(t@)),
                None => None,
            },
            siblings: match self.siblings {
                Some(s) => Some(sibling_views(s@)),
                None => None,
            },
        }
    }
}

/// The views of a sequence of models.
pub open spec fn model_views(s: Seq<HfModel>) -> Seq<ModelView> {
    s.map_values(|m: HfModel| m@)
}

impl ModelView {
    /// A model of which only the id is known.
    pub open spec fn bare(model_id: Seq<char>) -> ModelView {
        ModelView {
            model_id,
            downloads: None,
            likes: None,
            last_modified: None,
            tags: None,
            siblings: None,
        }
    }

    /// The repository's files; none where the list is missing.
    pub open spec fn files(self) -> Seq<SiblingView> {
        match self.siblings {
            Some(s) => s,
            None => Seq::empty(),
        }
    }

    /// The model's tags; none where the list is missing.
    pub open spec fn tag_list(self) -> Seq<Seq<char>> {
        match self.tags {
            Some(t) => t,
            None => Seq::empty(),
        }
    }
}

/// The known quantizations, from the lowest to the highest quality.
pub open spec fn quant_labels() -> Seq<Seq<char>> {
    seq![
        "IQ1_S"@,
        "IQ1_M"@,
        "IQ2_XXS"@,
        "IQ2_XS"@,
        "IQ2_S"@,
        "IQ2_M"@,
        "Q2_K_S"@,
        "Q2_K"@,
        "IQ3_XXS"@,
        "IQ3_XS"@,
        "Q3_K_S"@,
        "IQ3_S"@,
        "IQ3_M"@,
        "Q3_K_M"@,
        "Q3_K_L"@,
        "IQ4_XS"@,
        "Q4_0"@,
        "IQ4_NL"@,
        "Q4_K_S"@,
        "Q4_K_M"@,
        "Q5_0"@,
        "Q5_K_S"@,
        "Q5_K_M"@,
        "Q6_K"@,
        "Q8_0"@,
        "F16"@,
    ]
}

/// The text of length `len` at position `i` of `upper` is a label of its own:
/// neither right before it nor right behind it stands a letter, a digit or an
/// underscore.
pub open spec fn stands_alone(upper: Seq<char>, i: int, len: nat) -> bool {
    &&& i == 0 || (!text::is_ascii_alnum(upper[i - 1]) && upper[i - 1] != '_')
    &&& i + len == upper.len() || (!text::is_ascii_alnum(upper[i + len]) && upper[i + len] != '_')
}

/// One of the occurrences of `quant` in `upper` from `from` on stands alone.
/// Occurrences are taken from left to right and do not overlap.
pub open spec fn label_from(upper: Seq<char>, quant: Seq<char>, from: int) -> bool
    decreases upper.len() - from + 1,
{
    match text::find_from(upper, quant, from) {
        Some(i) => if from <= i && i + quant.len() <= upper.len() {
            stands_alone(upper, i, quant.len()) || label_from(
                upper,
                quant,
                i + (if quant.len() == 0 {
                    1
                } else {
                    quant.len() as int
                }),
            )
        } else {
            false
        },
        None => false,
    }
}

/// A file name in upper case names exactly the quantization `quant`.
pub open spec fn names_quant(upper: Seq<char>, quant: Seq<char>) -> bool {
    label_from(upper, quant, 0)
}

/// The first file that names `quant`.
pub open spec fn first_naming(files: Seq<SiblingView>, quant: Seq<char>) -> Option<SiblingView>
    decreases files.len(),
{
    if files.len() == 0 {
        None
    } else if names_quant(outside::unicode_uppercase(files[0].rfilename), quant) {
        Some(files[0])
    } else {
        first_naming(files.drop_first(), quant)
    }
}

/// The size of the first file that names `quant`.
pub open spec fn quant_size(files: Seq<SiblingView>, quant: Seq<char>) -> Option<u64> {
    match first_naming(files, quant) {
        Some(f) => f.size,
        None => None,
    }
}

/// The first `k` labels that a file of known size names, with the sizes.
pub open spec fn options_upto(files: Seq<SiblingView>, k: int) -> Seq<(Seq<char>, u64)>
    decreases k,
{
    if k <= 0 {
        Seq::empty()
    } else {
        let label = quant_labels()[k - 1];
        match quant_size(files, label) {
            Some(size) => options_upto(files, k - 1).push((label, size)),
            None => options_upto(files, k - 1),
        }
    }
}

/// The quantizations on offer with their sizes, from the lowest to the highest
/// quality.
pub open spec fn quant_choices(files: Seq<SiblingView>) -> Seq<(Seq<char>, u64)> {
    options_upto(files, quant_labels().len() as int)
}

/// The last choice that fits the budget.
pub open spec fn last_fitting(choices: Seq<(Seq<char>, u64)>, budget: u64) -> Option<
    (Seq<char>, u64),
>
    decreases choices.len(),
{
    if choices.len() == 0 {
        None
    } else if choices.last().1 <= budget {
        Some(choices.last())
    } else {
        last_fitting(choices.drop_last(), budget)
    }
}

/// The smallest choice; of equal ones the first.
pub open spec fn smallest(choices: Seq<(Seq<char>, u64)>) -> Option<(Seq<char>, u64)>
    decreases choices.len(),
{
    if choices.len() == 0 {
        None
    } else {
        match smallest(choices.drop_last()) {
            Some(s) => if choices.last().1 < s.1 {
                Some(choices.last())
            } else {
                Some(s)
            },
            None => Some(choices.last()),
        }
    }
}

/// The choice for a budget: the best that fits, else the smallest.
pub open spec fn best_choice(choices: Seq<(Seq<char>, u64)>, budget: u64) -> Option<
    (Seq<char>, u64),
> {
    match last_fitting(choices, budget) {
        Some(c) => Some(c),
        None => smallest(choices),
    }
}

/// The number of layers that a lower-case description of a model hints at.
pub open spec fn layers_hinted(description: Seq<char>) -> u32 {
    if text::contains_text(description, "70b"@) || text::contains_text(description, "65b"@) {
        80
    } else if text::contains_text(description, "34b"@) || text::contains_text(
        description,
        "30b"@,
    ) {
        60
    } else if text::contains_text(description, "13b"@) || text::contains_text(
        description,
        "14b"@,
    ) {
        40
    } else if text::contains_text(description, "8b"@) || text::contains_text(description, "7b"@) {
        32
    } else if text::contains_text(description, "3b"@) || text::contains_text(description, "2b"@) {
        26
    } else if text::contains_text(description, "1b"@) || text::contains_text(
        description,
        "0.5b"@,
    ) {
        16
    } else {
        32
    }
}

impl ModelView {
    /// The choice for a budget.
    pub open spec fn best_quant(self, budget: u64) -> Option<Seq<char>> {
        match best_choice(quant_choices(self.files()), budget) {
            Some(c) => Some(c.0),
            None => None,
        }
    }

    /// The id and the tags in lower case.
    pub open spec fn description(self) -> Seq<char> {
        outside::unicode_lowercase(
            outside::unicode_lowercase(self.model_id) + " "@ + text::joined(
                self.tag_list(),
                " "@,
            ),
        )
    }

    /// Where the first file that names `quant` can be had.
    pub open spec fn url_for(self, quant: Seq<char>) -> Option<Seq<char>> {
        match first_naming(self.files(), quant) {
            Some(f) => Some(
                "https://huggingface.co/"@ + self.model_id + "/resolve/main/"@ + f.rfilename,
            ),
            None => None,
        }
    }
}

// ---------------------------------------------------------------------------
// Values
// ---------------------------------------------------------------------------

impl Default for HfModel {
    fn default() -> (m: HfModel)
        ensures
            m@ == ModelView::bare(Seq::empty()),
    {
        HfModel {
            model_id: String::new(),
            downloads: None,
            likes: None,
            last_modified: None,
            tags: None,
            siblings: None,
        }
    }
}

impl Clone for HfSibling {
    fn clone(&self) -> (r: HfSibling)
        ensures
            r@ == self@,
    {
        HfSibling { rfilename: self.rfilename.clone(), size: self.size }
    }
}

/// A copy of a string that may be missing.
pub fn clone_text(s: &Option<String>) -> (r: Option<String>)
    ensures
        text_view(r) == text_view(*s),
{
    match s {
        Some(t) => Some(t.clone()),
        None => None,
    }
}

fn clone_texts(parts: &Vec<String>) -> (r: Vec<String>)
    ensures
        text::texts(r@) == text::texts(parts@),
{
    let mut r: Vec<String> = Vec::new();
    for i in 0..parts.len()
        invariant
            text::texts(r@) == text::texts(parts@).take(i as int),
    {
        let ghost before = text::texts(r@);
        r.push(parts[i].clone());
        assert(text::texts(r@) =~= before.push(parts@[i as int]@));
        assert(text::texts(parts@).take(i + 1) =~= before.push(parts@[i as int]@));
    }
    assert(text::texts(parts@).take(parts@.len() as int) =~= text::texts(parts@));
    r
}

fn clone_siblings(files: &Vec<HfSibling>) -> (r: Vec<HfSibling>)
    ensures
        sibling_views(r@) == sibling_views(files@),
{
    let mut r: Vec<HfSibling> = Vec::new();
    for i in 0..files.len()
        invariant
            sibling_views(r@) == sibling_views(files@).take(i as int),
    {
        let ghost before = sibling_views(r@);
        r.push(files[i].clone());
        assert(sibling_views(r@) =~= before.push(files@[i as int]@));
        assert(sibling_views(files@).take(i + 1) =~= before.push(files@[i as int]@));
    }
    assert(sibling_views(files@).take(files@.len() as int) =~= sibling_views(files@));
    r
}

impl Clone for HfModel {
    fn clone(&self) -> (r: HfModel)
        ensures
            r@ == self@,
    {
        HfModel {
            model_id: self.model_id.clone(),
            downloads: self.downloads,
            likes: self.likes,
            last_modified: clone_text(&self.last_modified),
            tags: match &self.tags {
                Some(t) => Some(clone_texts(t)),
                None => None,
            },
            siblings: match &self.siblings {
                Some(s) => Some(clone_siblings(s)),
                None => None,
            },
        }
    }
}

// ---------------------------------------------------------------------------
// Quantizations
// ---------------------------------------------------------------------------

/// The views of a sequence of string slices.
pub open spec fn str_texts(s: Seq<&'static str>) -> Seq<Seq<char>> {
    s.map_values(|x: &'static str| x@)
}

/// The known quantizations, from the lowest to the highest quality.
pub fn quant_quality_order() -> (labels: Vec<&'static str>)
    ensures
        str_texts(labels@) == quant_labels(),
{
    let labels = vec![
        "IQ1_S", "IQ1_M", "IQ2_XXS", "IQ2_XS", "IQ2_S", "IQ2_M", "Q2_K_S", "Q2_K", "IQ3_XXS",
        "IQ3_XS", "Q3_K_S", "IQ3_S", "IQ3_M", "Q3_K_M", "Q3_K_L", "IQ4_XS", "Q4_0", "IQ4_NL",
        "Q4_K_S", "Q4_K_M", "Q5_0", "Q5_K_S", "Q5_K_M", "Q6_K", "Q8_0", "F16",
    ];
    assert(str_texts(labels@) =~= quant_labels());
    labels
}

/// Whether a file name in upper case names exactly the quantization `quant`.
pub fn upper_names_quant(upper: &str, quant: &str) -> (r: bool)
    ensures
        r == names_quant(upper@, quant@),
{
    let u = text::to_chars(upper);
    let q = text::to_chars(quant);
    let mut from: usize = 0;
    loop
        invariant
            u@ == upper@,
            q@ == quant@,
            from <= u.len(),
            names_quant(upper@, quant@) == label_from(upper@, quant@, from as int),
        decreases u@.len() - from,
    {
        proof {
            text::lemma_find_from(u@, q@, from as int);
        }
        match text::find_chars(&u, &q, from) {
            None => {
                return false;
            },
            Some(i) => {
                let end: usize = i + q.len();
                let before_ok = i == 0 || (!text::ascii_alnum(u[i - 1]) && u[i - 1] != '_');
                let after_ok = end == u.len() || (!text::ascii_alnum(u[end]) && u[end] != '_');
                if before_ok && after_ok {
                    return true;
                }
                if q.len() > 0 {
                    from = end;
                } else if i == u.len() {
                    assert(text::find_from(u@, q@, i + 1) is None);
                    assert(!label_from(upper@, quant@, i + 1));
                    return false;
                } else {
                    from = i + 1;
                }
            },
        }
    }
}

/// Whether `filename` names exactly `quant`, and not merely a longer label that
/// holds it, as `Q2_K_L` holds `Q2_K`.
pub fn matches_quant(filename: &str, quant: &str) -> (r: bool)
    ensures
        r == names_quant(outside::unicode_uppercase(filename@), quant@),
        text::ascii_only(filename@) ==> r == names_quant(text::ascii_upper(filename@), quant@),
{
    let upper = filename.to_uppercase();
    upper_names_quant(upper.as_str(), quant)
}

/// The views of a sequence of choices.
pub open spec fn choice_views(s: Seq<(&'static str, u64)>) -> Seq<(Seq<char>, u64)> {
    s.map_values(|c: (&'static str, u64)| (c.0@, c.1))
}

impl HfModel {
    /// The first file of the repository that names `quant`.
    pub fn find_quant_sibling(&self, quant: &str) -> (r: Option<&HfSibling>)
        ensures
            match r {
                Some(f) => first_naming(self@.files(), quant@) == Some(f@),
                None => first_naming(self@.files(), quant@) is None,
            },
    {
        match &self.siblings {
            None => None,
            Some(files) => {
                let ghost all = sibling_views(files@);
                assert(all.skip(0) =~= all);
                for i in 0..files.len()
                    invariant
                        all == sibling_views(files@),
                        all == self@.files(),
                        first_naming(all, quant@) == first_naming(all.skip(i as int), quant@),
                {
                    assert(all.skip(i as int)[0] == files@[i as int]@);
                    assert(all.skip(i as int).drop_first() =~= all.skip(i + 1));
                    if matches_quant(files[i].rfilename.as_str(), quant) {
                        return Some(&files[i]);
                    }
                }
                None
            },
        }
    }

    /// The size in bytes of the file that names `quant`, where it is known.
    pub fn quant_size_bytes(&self, quant: &str) -> (size: Option<u64>)
        ensures
            size == quant_size(self@.files(), quant@),
    {
        match self.find_quant_sibling(quant) {
            Some(f) => f.size,
            None => None,
        }
    }

    /// The quantizations on offer with their file sizes, from the lowest to the
    /// highest quality.
    pub fn quant_options(&self) -> (options: Vec<(&'static str, u64)>)
        ensures
            choice_views(options@) == quant_choices(self@.files()),
    {
        let labels = quant_quality_order();
        let mut options: Vec<(&'static str, u64)> = Vec::new();
        assert(choice_views(options@) =~= options_upto(self@.files(), 0));
        for k in 0..labels.len()
            invariant
                str_texts(labels@) == quant_labels(),
                choice_views(options@) == options_upto(self@.files(), k as int),
        {
            let label = labels[k];
            assert(quant_labels()[k as int] == label@) by {
                assert(str_texts(labels@)[k as int] == labels@[k as int]@);
            }
            if let Some(size) = self.quant_size_bytes(label) {
                let ghost before = choice_views(options@);
                options.push((label, size));
                assert(choice_views(options@) =~= before.push((label@, size)));
            }
        }
        assert(str_texts(labels@).len() == quant_labels().len());
        options
    }

    /// The best quantization for a memory budget: the one of the highest
    /// quality whose file fits, else the smallest there is, so that something
    /// is recommended even then.
    pub fn best_quant_for_memory(&self, mem_budget_bytes: u64) -> (best: Option<&'static str>)
        ensures
            match best {
                Some(q) => self@.best_quant(mem_budget_bytes) == Some(q@),
                None => self@.best_quant(mem_budget_bytes) is None,
            },
    {
        let options = self.quant_options();
        pick_option(&options, mem_budget_bytes)
    }

    /// The number of layers that the id and the tags hint at.
    pub fn estimated_layers(&self) -> (layers: u32)
        ensures
            layers == layers_hinted(self@.description()),
            text::ascii_only(self@.model_id) && text::ascii_only(
                text::joined(self@.tag_list(), " "@),
            ) ==> layers == layers_hinted(
                text::ascii_lower(
                    self@.model_id + " "@ + text::joined(self@.tag_list(), " "@),
                ),
            ),
    {
        let id = self.model_id.to_lowercase();
        let tags = match &self.tags {
            Some(t) => text::join(t, " "),
            None => {
                assert(text::joined(Seq::empty(), " "@) =~= Seq::<char>::empty());
                String::new()
            },
        };
        let both = id.concat(" ").concat(tags.as_str());
        let combined = both.to_lowercase();
        proof {
            if text::ascii_only(self@.model_id) && text::ascii_only(tags@) {
                lemma_lower_case_of_ascii(self@.model_id, tags@);
            }
        }
        layers_for_description(combined.as_str())
    }

    /// Where the file that names `quant` can be downloaded.
    pub fn download_url_for(&self, quant: &str) -> (url: Option<String>)
        ensures
            text_view(url) == self@.url_for(quant@),
    {
        match self.find_quant_sibling(quant) {
            Some(file) => Some(
                "https://huggingface.co/".to_owned().concat(self.model_id.as_str()).concat(
                    "/resolve/main/",
                ).concat(file.rfilename.as_str()),
            ),
            None => None,
        }
    }
}

/// The best of `options`, which go from the lowest to the highest quality: the
/// last that fits the budget, else the smallest.
pub fn pick_option(options: &Vec<(&'static str, u64)>, budget: u64) -> (best: Option<&'static str>)
    ensures
        match best {
            Some(q) => best_choice(choice_views(options@), budget) matches Some(c) && c.0 == q@,
            None => best_choice(choice_views(options@), budget) is None,
        },
{
    let ghost all = choice_views(options@);
    let mut k: usize = options.len();
    assert(all.take(k as int) =~= all);
    while k > 0
        invariant
            k <= options@.len(),
            all == choice_views(options@),
            last_fitting(all, budget) == last_fitting(all.take(k as int), budget),
        decreases k,
    {
        assert(all.take(k as int).last() == (options@[k - 1].0@, options@[k - 1].1));
        assert(all.take(k as int).drop_last() =~= all.take(k - 1));
        if options[k - 1].1 <= budget {
            return Some(options[k - 1].0);
        }
        k = k - 1;
    }
    if options.len() == 0 {
        return None;
    }
    let mut at: usize = 0;
    assert(smallest(all.take(1)) == Some(all[0])) by {
        assert(smallest(all.take(1).drop_last()) is None);
    }
    for i in 1..options.len()
        invariant
            at < options@.len(),
            all == choice_views(options@),
            smallest(all.take(i as int)) == Some((options@[at as int].0@, options@[at as int].1)),
    {
        assert(all.take(i + 1).drop_last() =~= all.take(i as int));
        if options[i].1 < options[at].1 {
            at = i;
        }
    }
    assert(all.take(options@.len() as int) =~= all);
    Some(options[at].0)
}

/// The number of layers that a lower-case description of a model hints at.
pub fn layers_for_description(description: &str) -> (layers: u32)
    ensures
        layers == layers_hinted(description@),
{
    if text::contains(description, "70b") || text::contains(description, "65b") {
        80
    } else if text::contains(description, "34b") || text::contains(description, "30b") {
        60
    } else if text::contains(description, "13b") || text::contains(description, "14b") {
        40
    } else if text::contains(description, "8b") || text::contains(description, "7b") {
        32
    } else if text::contains(description, "3b") || text::contains(description, "2b") {
        26
    } else if text::contains(description, "1b") || text::contains(description, "0.5b") {
        16
    } else {
        32
    }
}

// ---------------------------------------------------------------------------
// Laws
// ---------------------------------------------------------------------------

/// `quant` cannot overlap itself: its first character does not come again.
pub open spec fn overlap_free(quant: Seq<char>) -> bool {
    quant.len() > 0 && forall|k: int| 0 < k < quant.len() ==> #[trigger] quant[k] != quant[0]
}

/// An occurrence of `quant` from `from` on stands alone.
pub open spec fn alone_from(upper: Seq<char>, quant: Seq<char>, from: int) -> bool {
    exists|i: int|
        from <= i && #[trigger] text::occurs_at(upper, quant, i) && stands_alone(
            upper,
            i,
            quant.len(),
        )
}

proof fn lemma_label_from(upper: Seq<char>, quant: Seq<char>, from: int)
    requires
        overlap_free(quant),
        0 <= from,
    ensures
        label_from(upper, quant, from) == alone_from(upper, quant, from),
    decreases upper.len() - from + 1,
{
    text::lemma_find_from(upper, quant, from);
    if let Some(i) = text::find_from(upper, quant, from) {
        if stands_alone(upper, i, quant.len()) {
            assert(alone_from(upper, quant, from));
        } else {
            let next = i + quant.len();
            lemma_label_from(upper, quant, next);
            if alone_from(upper, quant, from) {
                let j = choose|j: int|
                    from <= j && #[trigger] text::occurs_at(upper, quant, j) && stands_alone(
                        upper,
                        j,
                        quant.len(),
                    );
                assert(j > i);
                if j < next {
                    assert(upper.subrange(i, i + quant.len())[j - i] == upper[j]);
                    assert(upper.subrange(j, j + quant.len())[0] == upper[j]);
                    assert(quant[j - i] == quant[0]);
                    assert(false);
                }
                assert(alone_from(upper, quant, next));
            }
        }
    }
}

/// The known labels are not empty and cannot overlap themselves.
pub proof fn law_known_labels_are_overlap_free(k: int)
    requires
        0 <= k < quant_labels().len(),
    ensures
        overlap_free(quant_labels()[k]),
{
    reveal_strlit("IQ1_S");
    reveal_strlit("IQ1_M");
    reveal_strlit("IQ2_XXS");
    reveal_strlit("IQ2_XS");
    reveal_strlit("IQ2_S");
    reveal_strlit("IQ2_M");
    reveal_strlit("Q2_K_S");
    reveal_strlit("Q2_K");
    reveal_strlit("IQ3_XXS");
    reveal_strlit("IQ3_XS");
    reveal_strlit("Q3_K_S");
    reveal_strlit("IQ3_S");
    reveal_strlit("IQ3_M");
    reveal_strlit("Q3_K_M");
    reveal_strlit("Q3_K_L");
    reveal_strlit("IQ4_XS");
    reveal_strlit("Q4_0");
    reveal_strlit("IQ4_NL");
    reveal_strlit("Q4_K_S");
    reveal_strlit("Q4_K_M");
    reveal_strlit("Q5_0");
    reveal_strlit("Q5_K_S");
    reveal_strlit("Q5_K_M");
    reveal_strlit("Q6_K");
    reveal_strlit("Q8_0");
    reveal_strlit("F16");
}

/// A file names a known quantization exactly where its label stands somewhere
/// in the upper-case name with no letter, digit or underscore right before or
/// right behind it.
pub proof fn law_names_known_quant(upper: Seq<char>, k: int)
    requires
        0 <= k < quant_labels().len(),
    ensures
        names_quant(upper, quant_labels()[k]) <==> alone_from(upper, quant_labels()[k], 0),
{
    law_known_labels_are_overlap_free(k);
    lemma_label_from(upper, quant_labels()[k], 0);
}

/// The same holds of any label that cannot overlap itself.
pub proof fn law_names_label(upper: Seq<char>, label: Seq<char>)
    requires
        overlap_free(label),
    ensures
        names_quant(upper, label) <==> exists|i: int|
            #[trigger] text::occurs_at(upper, label, i) && (i == 0 || ends_a_label(upper[i - 1]))
                && (i + label.len() == upper.len() || ends_a_label(upper[i + label.len()])),
{
    lemma_label_from(upper, label, 0);
    if alone_from(upper, label, 0) {
        let i = choose|i: int|
            0 <= i && #[trigger] text::occurs_at(upper, label, i) && stands_alone(
                upper,
                i,
                label.len(),
            );
        assert(text::occurs_at(upper, label, i));
    }
    if exists|i: int|
        #[trigger] text::occurs_at(upper, label, i) && (i == 0 || ends_a_label(upper[i - 1])) && (i
            + label.len() == upper.len() || ends_a_label(upper[i + label.len()])) {
        let i = choose|i: int|
            #[trigger] text::occurs_at(upper, label, i) && (i == 0 || ends_a_label(upper[i - 1]))
                && (i + label.len() == upper.len() || ends_a_label(upper[i + label.len()]));
        assert(stands_alone(upper, i, label.len()));
        assert(alone_from(upper, label, 0));
    }
}

/// Every quantization on offer is a known label with the size of the first file
/// that names it, and every known label with such a file is on offer.
pub proof fn law_choices_are_the_files_named(files: Seq<SiblingView>, label: Seq<char>, size: u64)
    ensures
        quant_choices(files).contains((label, size)) <==> quant_labels().contains(label)
            && quant_size(files, label) == Some(size),
{
    lemma_options_upto(files, quant_labels().len() as int, label, size);
    if quant_labels().contains(label) {
        let k = choose|k: int| 0 <= k < quant_labels().len() && quant_labels()[k] == label;
        assert(quant_labels().take(quant_labels().len() as int)[k] == label);
    }
    assert(quant_labels().take(quant_labels().len() as int) =~= quant_labels());
}

proof fn lemma_options_upto(files: Seq<SiblingView>, k: int, label: Seq<char>, size: u64)
    requires
        0 <= k <= quant_labels().len(),
    ensures
        options_upto(files, k).contains((label, size)) <==> quant_labels().take(k).contains(label)
            && quant_size(files, label) == Some(size),
    decreases k,
{
    if k > 0 {
        lemma_options_upto(files, k - 1, label, size);
        let last = quant_labels()[k - 1];
        let before = options_upto(files, k - 1);
        let shorter = quant_labels().take(k - 1);
        let longer = quant_labels().take(k);
        assert(longer =~= shorter.push(last));
        assert(longer.contains(label) <==> shorter.contains(label) || label == last) by {
            if shorter.contains(label) {
                let j = choose|j: int| 0 <= j < shorter.len() && shorter[j] == label;
                assert(longer[j] == label);
            }
            assert(longer[k - 1] == last);
        }
        if let Some(sz) = quant_size(files, last) {
            let after = before.push((last, sz));
            assert(after.contains((label, size)) <==> before.contains((label, size)) || (
            label,
            size,
            ) == (last, sz)) by {
                if before.contains((label, size)) {
                    let j = choose|j: int| 0 <= j < before.len() && before[j] == (label, size);
                    assert(after[j] == (label, size));
                }
                assert(after[before.len() as int] == (last, sz));
            }
        }
    }
}

/// The choice at `i` is the known label of rank `rank`.
pub open spec fn has_rank(choices: Seq<(Seq<char>, u64)>, i: int, rank: int) -> bool {
    0 <= rank < quant_labels().len() && choices[i].0 == quant_labels()[rank]
}

/// The quantizations on offer go from the lowest to the highest quality.
pub proof fn law_choices_are_in_order_of_quality(files: Seq<SiblingView>, i: int, j: int)
    requires
        0 <= i < j < quant_choices(files).len(),
    ensures
        exists|p: int, q: int|
            p < q && #[trigger] has_rank(quant_choices(files), i, p) && #[trigger] has_rank(
                quant_choices(files),
                j,
                q,
            ),
{
    lemma_options_in_order(files, quant_labels().len() as int, i, j);
}

proof fn lemma_options_in_order(files: Seq<SiblingView>, k: int, i: int, j: int)
    requires
        0 <= k <= quant_labels().len(),
        0 <= i < j < options_upto(files, k).len(),
    ensures
        exists|p: int, q: int|
            p < q < k && #[trigger] has_rank(options_upto(files, k), i, p) && #[trigger] has_rank(
                options_upto(files, k),
                j,
                q,
            ),
    decreases k,
{
    let before = options_upto(files, k - 1);
    let now = options_upto(files, k);
    if j < before.len() {
        lemma_options_in_order(files, k - 1, i, j);
        let (p, q) = choose|p: int, q: int|
            p < q < k - 1 && #[trigger] has_rank(before, i, p) && #[trigger] has_rank(before, j, q);
        assert(has_rank(now, i, p) && has_rank(now, j, q));
    } else {
        lemma_option_rank(files, k - 1, i);
        let p = choose|p: int| p < k - 1 && #[trigger] has_rank(before, i, p);
        assert(has_rank(now, i, p) && has_rank(now, j, k - 1));
    }
}

proof fn lemma_option_rank(files: Seq<SiblingView>, k: int, i: int)
    requires
        0 <= k <= quant_labels().len(),
        0 <= i < options_upto(files, k).len(),
    ensures
        exists|p: int| p < k && #[trigger] has_rank(options_upto(files, k), i, p),
    decreases k,
{
    let before = options_upto(files, k - 1);
    let now = options_upto(files, k);
    if i < before.len() {
        lemma_option_rank(files, k - 1, i);
        let p = choose|p: int| p < k - 1 && #[trigger] has_rank(before, i, p);
        assert(has_rank(now, i, p));
    } else {
        assert(has_rank(now, i, k - 1));
    }
}

/// `choices[i]` fits the budget and nothing of higher quality does.
pub open spec fn best_fit(choices: Seq<(Seq<char>, u64)>, budget: u64, i: int) -> bool {
    &&& 0 <= i < choices.len()
    &&& choices[i].1 <= budget
    &&& forall|j: int| i < j < choices.len() ==> (#[trigger] choices[j]).1 > budget
}

/// `choices[i]` is the first of the smallest.
pub open spec fn first_smallest(choices: Seq<(Seq<char>, u64)>, i: int) -> bool {
    &&& 0 <= i < choices.len()
    &&& forall|j: int| 0 <= j < choices.len() ==> choices[i].1 <= (#[trigger] choices[j]).1
    &&& forall|j: int| 0 <= j < i ==> choices[i].1 < (#[trigger] choices[j]).1
}

proof fn lemma_last_fitting(choices: Seq<(Seq<char>, u64)>, budget: u64)
    ensures
        match last_fitting(choices, budget) {
            Some(c) => exists|i: int| #[trigger] best_fit(choices, budget, i) && choices[i] == c,
            None => forall|j: int| 0 <= j < choices.len() ==> (#[trigger] choices[j]).1 > budget,
        },
    decreases choices.len(),
{
    if choices.len() > 0 {
        if choices.last().1 <= budget {
            assert(best_fit(choices, budget, choices.len() - 1));
        } else {
            let rest = choices.drop_last();
            lemma_last_fitting(rest, budget);
            match last_fitting(rest, budget) {
                Some(c) => {
                    let i = choose|i: int| #[trigger] best_fit(rest, budget, i) && rest[i] == c;
                    assert forall|j: int| i < j < choices.len() implies (#[trigger] choices[j]).1
                        > budget by {
                        if j < rest.len() {
                            assert(rest[j] == choices[j]);
                        }
                    }
                    assert(best_fit(choices, budget, i));
                },
                None => {
                    assert forall|j: int| 0 <= j < choices.len() implies (#[trigger] choices[j]).1
                        > budget by {
                        if j < rest.len() {
                            assert(rest[j] == choices[j]);
                        }
                    }
                },
            }
        }
    }
}

/// `smallest` gives the first of the smallest choices.
pub proof fn lemma_smallest(choices: Seq<(Seq<char>, u64)>)
    ensures
        choices.len() == 0 <==> smallest(choices) is None,
        choices.len() > 0 ==> exists|i: int| #[trigger]
            first_smallest(choices, i) && Some(choices[i]) == smallest(choices),
    decreases choices.len(),
{
    if choices.len() > 0 {
        let rest = choices.drop_last();
        lemma_smallest(rest);
        if rest.len() == 0 {
            assert(first_smallest(choices, 0));
        } else {
            let i = choose|i: int| #[trigger]
                first_smallest(rest, i) && Some(rest[i]) == smallest(rest);
            let n = choices.len() - 1;
            if choices[n].1 < rest[i].1 {
                assert forall|j: int| 0 <= j < n implies choices[n].1 < (#[trigger] choices[j]).1 by {
                    assert(rest[j] == choices[j]);
                }
                assert(first_smallest(choices, n));
            } else {
                assert forall|j: int| 0 <= j < choices.len() implies choices[i].1 <= (
                #[trigger] choices[j]).1 by {
                    if j < n {
                        assert(rest[j] == choices[j]);
                    }
                }
                assert forall|j: int| 0 <= j < i implies choices[i].1 < (#[trigger] choices[j]).1 by {
                    assert(rest[j] == choices[j]);
                }
                assert(first_smallest(choices, i));
            }
        }
    }
}

/// What is recommended for a budget fits and is the highest quality that does;
/// where nothing fits it is the smallest on offer; and there is a
/// recommendation whenever anything is on offer.
pub proof fn law_best_choice(choices: Seq<(Seq<char>, u64)>, budget: u64)
    ensures
        best_choice(choices, budget) is None <==> choices.len() == 0,
        best_choice(choices, budget) matches Some(c) ==> exists|i: int|
            0 <= i < choices.len() && #[trigger] choices[i] == c && (best_fit(choices, budget, i)
                || (first_smallest(choices, i) && c.1 > budget)),
{
    lemma_last_fitting(choices, budget);
    lemma_smallest(choices);
    if last_fitting(choices, budget) is None && choices.len() > 0 {
        let i = choose|i: int| #[trigger]
            first_smallest(choices, i) && Some(choices[i]) == smallest(choices);
        assert(choices[i].1 > budget);
    }
}

/// The recommendation fits the budget whenever something on offer does.
pub proof fn law_recommendation_fits_if_anything_does(
    choices: Seq<(Seq<char>, u64)>,
    budget: u64,
    i: int,
)
    requires
        0 <= i < choices.len(),
        choices[i].1 <= budget,
    ensures
        best_choice(choices, budget) matches Some(c) && c.1 <= budget,
{
    lemma_last_fitting(choices, budget);
}

/// A larger budget never leads to a lower quality, once something fits.
pub proof fn law_more_memory_keeps_quality(
    choices: Seq<(Seq<char>, u64)>,
    less: u64,
    more: u64,
    i: int,
)
    requires
        less <= more,
        best_fit(choices, less, i),
    ensures
        best_choice(choices, less) == Some(choices[i]),
        exists|j: int|
            i <= j && #[trigger] best_fit(choices, more, j) && best_choice(choices, more) == Some(
                choices[j],
            ),
{
    lemma_last_fitting(choices, less);
    lemma_last_fitting(choices, more);
    let k = choose|k: int| #[trigger]
        best_fit(choices, less, k) && choices[k] == last_fitting(choices, less)->0;
    assert(k == i) by {
        if k < i {
            assert(choices[i].1 > less);
        }
        if i < k {
            assert(choices[k].1 > less);
        }
    }
    let j = choose|j: int| #[trigger]
        best_fit(choices, more, j) && choices[j] == last_fitting(choices, more)->0;
    if j < i {
        assert(choices[i].1 > more);
    }
}

/// Where sizes grow with quality, the fallback is the lowest quality on offer.
pub proof fn law_fallback_is_lowest_quality(choices: Seq<(Seq<char>, u64)>, budget: u64)
    requires
        choices.len() > 0,
        forall|i: int, j: int|
            0 <= i < j < choices.len() ==> (#[trigger] choices[i]).1 <= (#[trigger] choices[j]).1,
        choices[0].1 > budget,
    ensures
        best_choice(choices, budget) == Some(choices[0]),
{
    lemma_last_fitting(choices, budget);
    lemma_smallest(choices);
    let i = choose|i: int| #[trigger]
        first_smallest(choices, i) && Some(choices[i]) == smallest(choices);
    if i > 0 {
        assert(choices[i].1 < choices[0].1);
    }
}

/// The bits per weight that a label of a quantization names: the number in it.
pub open spec fn bits_named(label: Seq<char>) -> int {
    if label[0] == 'I' {
        label[2] as int - '0' as int
    } else if label[0] == 'F' {
        10 * (label[1] as int - '0' as int) + (label[2] as int - '0' as int)
    } else {
        label[1] as int - '0' as int
    }
}

/// Both labels are known, and `a` is of lower quality than `b`.
pub open spec fn ranks_below(a: Seq<char>, b: Seq<char>) -> bool {
    exists|p: int, q: int|
        0 <= p < q < quant_labels().len() && #[trigger] quant_labels()[p] == a
            && #[trigger] quant_labels()[q] == b
}

proof fn lemma_reveal_labels()
    ensures
        "IQ1_S"@ == seq!['I', 'Q', '1', '_', 'S'],
        "IQ1_M"@ == seq!['I', 'Q', '1', '_', 'M'],
        "IQ2_XXS"@ == seq!['I', 'Q', '2', '_', 'X', 'X', 'S'],
        "IQ2_XS"@ == seq!['I', 'Q', '2', '_', 'X', 'S'],
        "IQ2_S"@ == seq!['I', 'Q', '2', '_', 'S'],
        "IQ2_M"@ == seq!['I', 'Q', '2', '_', 'M'],
        "Q2_K_S"@ == seq!['Q', '2', '_', 'K', '_', 'S'],
        "Q2_K"@ == seq!['Q', '2', '_', 'K'],
        "IQ3_XXS"@ == seq!['I', 'Q', '3', '_', 'X', 'X', 'S'],
        "IQ3_XS"@ == seq!['I', 'Q', '3', '_', 'X', 'S'],
        "Q3_K_S"@ == seq!['Q', '3', '_', 'K', '_', 'S'],
        "IQ3_S"@ == seq!['I', 'Q', '3', '_', 'S'],
        "IQ3_M"@ == seq!['I', 'Q', '3', '_', 'M'],
        "Q3_K_M"@ == seq!['Q', '3', '_', 'K', '_', 'M'],
        "Q3_K_L"@ == seq!['Q', '3', '_', 'K', '_', 'L'],
        "IQ4_XS"@ == seq!['I', 'Q', '4', '_', 'X', 'S'],
        "Q4_0"@ == seq!['Q', '4', '_', '0'],
        "IQ4_NL"@ == seq!['I', 'Q', '4', '_', 'N', 'L'],
        "Q4_K_S"@ == seq!['Q', '4', '_', 'K', '_', 'S'],
        "Q4_K_M"@ == seq!['Q', '4', '_', 'K', '_', 'M'],
        "Q5_0"@ == seq!['Q', '5', '_', '0'],
        "Q5_K_S"@ == seq!['Q', '5', '_', 'K', '_', 'S'],
        "Q5_K_M"@ == seq!['Q', '5', '_', 'K', '_', 'M'],
        "Q6_K"@ == seq!['Q', '6', '_', 'K'],
        "Q8_0"@ == seq!['Q', '8', '_', '0'],
        "F16"@ == seq!['F', '1', '6'],
{
    reveal_strlit("IQ1_S");
    reveal_strlit("IQ1_M");
    reveal_strlit("IQ2_XXS");
    reveal_strlit("IQ2_XS");
    reveal_strlit("IQ2_S");
    reveal_strlit("IQ2_M");
    reveal_strlit("Q2_K_S");
    reveal_strlit("Q2_K");
    reveal_strlit("IQ3_XXS");
    reveal_strlit("IQ3_XS");
    reveal_strlit("Q3_K_S");
    reveal_strlit("IQ3_S");
    reveal_strlit("IQ3_M");
    reveal_strlit("Q3_K_M");
    reveal_strlit("Q3_K_L");
    reveal_strlit("IQ4_XS");
    reveal_strlit("Q4_0");
    reveal_strlit("IQ4_NL");
    reveal_strlit("Q4_K_S");
    reveal_strlit("Q4_K_M");
    reveal_strlit("Q5_0");
    reveal_strlit("Q5_K_S");
    reveal_strlit("Q5_K_M");
    reveal_strlit("Q6_K");
    reveal_strlit("Q8_0");
    reveal_strlit("F16");
}

/// The order of quality is right on the labels themselves: one that names more
/// bits per weight never ranks below one that names fewer.
pub proof fn law_quality_follows_the_bits(a: Seq<char>, b: Seq<char>)
    ensures
        ranks_below(a, b) ==> bits_named(a) <= bits_named(b),
        quant_labels().contains(a) && quant_labels().contains(b) && bits_named(a) < bits_named(b)
            ==> ranks_below(a, b),
        quant_labels().contains(a) ==> 1 <= bits_named(a) <= 16,
{
    lemma_labels_by_bits();
    let labels = quant_labels();
    if ranks_below(a, b) {
        let (p, q) = choose|p: int, q: int|
            0 <= p < q < labels.len() && #[trigger] labels[p] == a && #[trigger] labels[q] == b;
        assert(bits_named(labels[p]) <= bits_named(labels[q]));
    }
    if labels.contains(a) && labels.contains(b) && bits_named(a) < bits_named(b) {
        let p = choose|p: int| 0 <= p < labels.len() && labels[p] == a;
        let q = choose|q: int| 0 <= q < labels.len() && labels[q] == b;
        if q < p {
            assert(bits_named(labels[q]) <= bits_named(labels[p]));
        }
        assert(p < q);
    }
    if labels.contains(a) {
        let p = choose|p: int| 0 <= p < labels.len() && labels[p] == a;
        assert(bits_named(labels[0]) <= bits_named(labels[p]) <= bits_named(labels[25]));
        assert(bits_named(labels[0]) == 1 && bits_named(labels[25]) == 16) by {
            lemma_reveal_labels();
        }
    }
}

/// The bits of the label at each place of the order.
pub open spec fn bits_at(p: int) -> int {
    if p < 2 {
        1
    } else if p < 8 {
        2
    } else if p < 15 {
        3
    } else if p < 20 {
        4
    } else if p < 23 {
        5
    } else if p < 24 {
        6
    } else if p < 25 {
        8
    } else {
        16
    }
}

proof fn lemma_labels_by_bits()
    ensures
        quant_labels().len() == 26,
        forall|p: int, q: int|
            0 <= p <= q < 26 ==> bits_named(#[trigger] quant_labels()[p]) <= bits_named(
                #[trigger] quant_labels()[q],
            ),
{
    lemma_reveal_labels();
    let labels = quant_labels();
    assert forall|p: int| 0 <= p < 26 implies bits_named(#[trigger] labels[p]) == bits_at(p) by {}
    assert forall|p: int, q: int| 0 <= p <= q < 26 implies bits_named(#[trigger] labels[p])
        <= bits_named(#[trigger] labels[q]) by {
        assert(bits_at(p) <= bits_at(q));
    }
}

/// There are 26 known quantizations, each once, and of each two neighbours in this
/// row the first is of lower quality.
pub proof fn law_quality_of_each_label()
    ensures
        quant_labels().len() == 26,
        forall|p: int, q: int|
            0 <= p < q < 26 ==> #[trigger] quant_labels()[p] != #[trigger] quant_labels()[q],
        ranks_below("IQ1_S"@, "IQ1_M"@),
        ranks_below("IQ1_M"@, "IQ2_XXS"@),
        ranks_below("IQ2_XXS"@, "IQ2_XS"@),
        ranks_below("IQ2_XS"@, "IQ2_S"@),
        ranks_below("IQ2_S"@, "IQ2_M"@),
        ranks_below("IQ2_M"@, "Q2_K_S"@),
        ranks_below("Q2_K_S"@, "Q2_K"@),
        ranks_below("Q2_K"@, "IQ3_XXS"@),
        ranks_below("IQ3_XXS"@, "IQ3_XS"@),
        ranks_below("IQ3_XS"@, "Q3_K_S"@),
        ranks_below("Q3_K_S"@, "IQ3_S"@),
        ranks_below("IQ3_S"@, "IQ3_M"@),
        ranks_below("IQ3_M"@, "Q3_K_M"@),
        ranks_below("Q3_K_M"@, "Q3_K_L"@),
        ranks_below("Q3_K_L"@, "IQ4_XS"@),
        ranks_below("IQ4_XS"@, "Q4_0"@),
        ranks_below("Q4_0"@, "IQ4_NL"@),
        ranks_below("IQ4_NL"@, "Q4_K_S"@),
        ranks_below("Q4_K_S"@, "Q4_K_M"@),
        ranks_below("Q4_K_M"@, "Q5_0"@),
        ranks_below("Q5_0"@, "Q5_K_S"@),
        ranks_below("Q5_K_S"@, "Q5_K_M"@),
        ranks_below("Q5_K_M"@, "Q6_K"@),
        ranks_below("Q6_K"@, "Q8_0"@),
        ranks_below("Q8_0"@, "F16"@),
{
    let labels = quant_labels();
    lemma_labels_differ();
    assert forall|p: int| 0 <= p < 25 implies ranks_below(
        #[trigger] labels[p],
        labels[p + 1],
    ) by {}
    assert(labels[0] == "IQ1_S"@ && labels[1] == "IQ1_M"@ && labels[2] == "IQ2_XXS"@);
    assert(labels[3] == "IQ2_XS"@ && labels[4] == "IQ2_S"@ && labels[5] == "IQ2_M"@);
    assert(labels[6] == "Q2_K_S"@ && labels[7] == "Q2_K"@ && labels[8] == "IQ3_XXS"@);
    assert(labels[9] == "IQ3_XS"@ && labels[10] == "Q3_K_S"@ && labels[11] == "IQ3_S"@);
    assert(labels[12] == "IQ3_M"@ && labels[13] == "Q3_K_M"@ && labels[14] == "Q3_K_L"@);
    assert(labels[15] == "IQ4_XS"@ && labels[16] == "Q4_0"@ && labels[17] == "IQ4_NL"@);
    assert(labels[18] == "Q4_K_S"@ && labels[19] == "Q4_K_M"@ && labels[20] == "Q5_0"@);
    assert(labels[21] == "Q5_K_S"@ && labels[22] == "Q5_K_M"@ && labels[23] == "Q6_K"@);
    assert(labels[24] == "Q8_0"@ && labels[25] == "F16"@);
}

/// What tells two labels apart: the length, and the characters at four places.
pub open spec fn label_marks(label: Seq<char>) -> (int, char, char, char, char) {
    (label.len() as int, label[0], label[1], label[2], label[label.len() - 1])
}

proof fn lemma_labels_differ()
    ensures
        quant_labels().len() == 26,
        forall|p: int, q: int|
            0 <= p < q < 26 ==> #[trigger] quant_labels()[p] != #[trigger] quant_labels()[q],
{
    lemma_reveal_labels();
    let labels = quant_labels();
    assert forall|p: int, q: int| 0 <= p < q < 26 implies #[trigger] labels[p]
        != #[trigger] labels[q] by {
        assert(label_marks(labels[p]) != label_marks(labels[q]));
    }
}

proof fn lemma_offered_at(files: Seq<SiblingView>, label: Seq<char>, size: u64) -> (i: int)
    requires
        quant_labels().contains(label),
        quant_size(files, label) == Some(size),
    ensures
        0 <= i < quant_choices(files).len(),
        quant_choices(files)[i] == (label, size),
{
    law_choices_are_the_files_named(files, label, size);
    choose|i: int| 0 <= i < quant_choices(files).len() && quant_choices(files)[i] == (label, size)
}

/// The recommendation for a budget, over the files themselves. Where a file of a
/// known label fits, the recommendation is a known label whose file fits too, and
/// is of no lower quality than that one, so it names no fewer bits.
pub proof fn law_best_fitting_file_is_recommended(
    m: ModelView,
    budget: u64,
    label: Seq<char>,
    size: u64,
)
    requires
        quant_labels().contains(label),
        quant_size(m.files(), label) == Some(size),
        size <= budget,
    ensures
        m.best_quant(budget) matches Some(best) && {
            &&& quant_labels().contains(best)
            &&& quant_size(m.files(), best) matches Some(s) && s <= budget
            &&& best == label || ranks_below(label, best)
            &&& bits_named(label) <= bits_named(best)
        },
{
    let choices = quant_choices(m.files());
    let i = lemma_offered_at(m.files(), label, size);
    lemma_last_fitting(choices, budget);
    let c = last_fitting(choices, budget)->0;
    let j = choose|j: int| #[trigger] best_fit(choices, budget, j) && choices[j] == c;
    if j < i {
        assert(choices[i].1 > budget);
    }
    law_choices_are_the_files_named(m.files(), c.0, c.1);
    assert(choices.contains(c));
    if i < j {
        law_choices_are_in_order_of_quality(m.files(), i, j);
        let (p, q) = choose|p: int, q: int|
            p < q && #[trigger] has_rank(choices, i, p) && #[trigger] has_rank(choices, j, q);
        assert(quant_labels()[p] == label && quant_labels()[q] == c.0);
        assert(ranks_below(label, c.0));
    }
    law_quality_follows_the_bits(label, c.0);
}

/// Where no file of a known label fits, the smallest of them is recommended, and
/// where there is none, nothing is.
pub proof fn law_smallest_file_is_the_fallback(
    m: ModelView,
    budget: u64,
    label: Seq<char>,
    size: u64,
)
    ensures
        m.best_quant(budget) matches Some(best) ==> quant_labels().contains(best) && (quant_size(
            m.files(),
            best,
        ) matches Some(s) && (s > budget && quant_labels().contains(label) && quant_size(
            m.files(),
            label,
        ) == Some(size) ==> s <= size && size > budget)),
        quant_labels().contains(label) && quant_size(m.files(), label) == Some(size)
            ==> m.best_quant(budget) is Some,
{
    let choices = quant_choices(m.files());
    law_best_choice(choices, budget);
    lemma_last_fitting(choices, budget);
    if let Some(c) = best_choice(choices, budget) {
        let i = choose|i: int|
            0 <= i < choices.len() && #[trigger] choices[i] == c && (best_fit(choices, budget, i)
                || (first_smallest(choices, i) && c.1 > budget));
        assert(choices.contains(c));
        law_choices_are_the_files_named(m.files(), c.0, c.1);
        if c.1 > budget && quant_labels().contains(label) && quant_size(m.files(), label) == Some(
            size,
        ) {
            let j = lemma_offered_at(m.files(), label, size);
            assert(choices[i].1 <= choices[j].1);
        }
    }
    if quant_labels().contains(label) && quant_size(m.files(), label) == Some(size) {
        let j = lemma_offered_at(m.files(), label, size);
    }
}

/// `c` is neither a letter nor a digit nor an underscore.
pub open spec fn ends_a_label(c: char) -> bool {
    !('0' <= c <= '9') && !('A' <= c <= 'Z') && !('a' <= c <= 'z') && c != '_'
}

/// A file name in upper case names a known label that is put into it, wherever
/// what is around the label ends it on both sides; and a name that names a label
/// has it in such a place.
pub proof fn law_label_in_a_file_name(before: Seq<char>, behind: Seq<char>, upper: Seq<char>, k: int)
    requires
        0 <= k < quant_labels().len(),
    ensures
        (before.len() == 0 || ends_a_label(before.last())) && (behind.len() == 0 || ends_a_label(
            behind[0],
        )) ==> names_quant(before + quant_labels()[k] + behind, quant_labels()[k]),
        names_quant(upper, quant_labels()[k]) ==> exists|i: int|
            #[trigger] text::occurs_at(upper, quant_labels()[k], i) && (i == 0 || ends_a_label(
                upper[i - 1],
            )) && (i + quant_labels()[k].len() == upper.len() || ends_a_label(
                upper[i + quant_labels()[k].len()],
            )),
{
    let label = quant_labels()[k];
    let whole = before + label + behind;
    let n = before.len() as int;
    law_names_known_quant(whole, k);
    law_names_known_quant(upper, k);
    if (before.len() == 0 || ends_a_label(before.last())) && (behind.len() == 0 || ends_a_label(
        behind[0],
    )) {
        assert(whole.subrange(n, n + label.len()) =~= label);
        assert(text::occurs_at(whole, label, n));
        assert(n > 0 ==> whole[n - 1] == before.last());
        assert(behind.len() > 0 ==> whole[n + label.len()] == behind[0]);
        assert(stands_alone(whole, n, label.len()));
        assert(alone_from(whole, label, 0));
    }
    if names_quant(upper, label) {
        let i = choose|i: int|
            0 <= i && #[trigger] text::occurs_at(upper, label, i) && stands_alone(
                upper,
                i,
                label.len(),
            );
        assert(text::occurs_at(upper, label, i));
    }
}

/// The file of a quantization is the first of the repository that names it, and
/// the size is that file's.
pub proof fn law_first_file_of_a_quantization(files: Seq<SiblingView>, quant: Seq<char>)
    ensures
        match first_naming(files, quant) {
            Some(f) => exists|i: int|
                0 <= i < files.len() && #[trigger] files[i] == f && names_quant(
                    outside::unicode_uppercase(f.rfilename),
                    quant,
                ) && forall|j: int|
                    0 <= j < i ==> !names_quant(
                        outside::unicode_uppercase((#[trigger] files[j]).rfilename),
                        quant,
                    ),
            None => forall|j: int|
                0 <= j < files.len() ==> !names_quant(
                    outside::unicode_uppercase((#[trigger] files[j]).rfilename),
                    quant,
                ),
        },
        quant_size(files, quant) == (match first_naming(files, quant) {
            Some(f) => f.size,
            None => None,
        }),
    decreases files.len(),
{
    if files.len() > 0 && !names_quant(outside::unicode_uppercase(files[0].rfilename), quant) {
        let rest = files.drop_first();
        law_first_file_of_a_quantization(rest, quant);
        match first_naming(rest, quant) {
            Some(f) => {
                let i = choose|i: int|
                    0 <= i < rest.len() && #[trigger] rest[i] == f && names_quant(
                        outside::unicode_uppercase(f.rfilename),
                        quant,
                    ) && forall|j: int|
                        0 <= j < i ==> !names_quant(
                            outside::unicode_uppercase((#[trigger] rest[j]).rfilename),
                            quant,
                        );
                assert(files[i + 1] == f);
                assert forall|j: int| 0 <= j < i + 1 implies !names_quant(
                    outside::unicode_uppercase((#[trigger] files[j]).rfilename),
                    quant,
                ) by {
                    if j > 0 {
                        assert(rest[j - 1] == files[j]);
                    }
                }
            },
            None => {
                assert forall|j: int| 0 <= j < files.len() implies !names_quant(
                    outside::unicode_uppercase((#[trigger] files[j]).rfilename),
                    quant,
                ) by {
                    if j > 0 {
                        assert(rest[j - 1] == files[j]);
                    }
                }
            },
        }
    }
}

/// The hint of the largest size decides: whatever else a description holds, one
/// of 70 or 65 billion weights has 80 layers; without these one of 34 or 30 has
/// 60; without these one of 13 or 14 has 40; and so on down to one billion, where
/// it is 16. Without any hint it is 32.
pub proof fn law_hinted_layers(d: Seq<char>)
    ensures
        ({
            let hints = |hint: Seq<char>| text::contains_text(d, hint);
            let n = layers_hinted(d);
            &&& hints("70b"@) ==> n == 80
            &&& hints("65b"@) ==> n == 80
            &&& n == 80 ==> hints("70b"@) || hints("65b"@)
            &&& n == 60 ==> hints("34b"@) || hints("30b"@)
            &&& hints("34b"@) || hints("30b"@) ==> n == 60 || n == 80
            &&& n == 40 ==> hints("13b"@) || hints("14b"@)
            &&& hints("13b"@) || hints("14b"@) ==> n == 40 || n == 60 || n == 80
            &&& hints("8b"@) || hints("7b"@) ==> n >= 32
            &&& n == 26 ==> (hints("3b"@) || hints("2b"@)) && !hints("8b"@) && !hints("7b"@)
            &&& hints("3b"@) || hints("2b"@) ==> n >= 26
            &&& n == 16 ==> (hints("1b"@) || hints("0.5b"@)) && !hints("3b"@) && !hints("2b"@)
            &&& n == 32 ==> hints("8b"@) || hints("7b"@) || !(hints("3b"@) || hints("2b"@) || hints("1b"@)
                || hints("0.5b"@))
            &&& n == 80 || n == 60 || n == 40 || n == 32 || n == 26 || n == 16
        }),
{
}

proof fn lemma_lower_case_of_ascii(id: Seq<char>, tags: Seq<char>)
    requires
        text::ascii_only(id),
        text::ascii_only(tags),
    ensures
        text::ascii_only(text::ascii_lower(id) + " "@ + tags),
        text::ascii_lower(text::ascii_lower(id) + " "@ + tags) == text::ascii_lower(
            id + " "@ + tags,
        ),
{
    reveal_strlit(" ");
    let s = text::ascii_lower(id) + " "@ + tags;
    assert forall|i: int| 0 <= i < s.len() implies (#[trigger] s[i] as u32) < 128 by {
        if i < id.len() {
            assert((id[i] as u32) < 128);
        } else if i > id.len() {
            assert(s[i] == tags[i - id.len() - 1]);
        }
    }
    assert(text::ascii_lower(s) =~= text::ascii_lower(id + " "@ + tags));
}

/// The description that a model is judged by holds its id and its tags, put in
/// lower case, with a blank between each two.
pub proof fn law_description_of_a_model(m: ModelView)
    ensures
        m.description() == outside::unicode_lowercase(
            outside::unicode_lowercase(m.model_id) + " "@ + text::joined(m.tag_list(), " "@),
        ),
        m.tags is None ==> m.tag_list().len() == 0,
        m.tags matches Some(t) ==> m.tag_list() == t,
{
}

/// The address of a file ends in the file's name, which is behind the last slash
/// where the name has none, and holds the model's id.
pub proof fn law_address_of_a_file(m: ModelView, quant: Seq<char>)
    ensures
        m.url_for(quant) is Some <==> first_naming(m.files(), quant) is Some,
        m.url_for(quant) matches Some(url) ==> {
            let name = first_naming(m.files(), quant)->0.rfilename;
            &&& text::begins_with(url, "https://huggingface.co/"@ + m.model_id + "/"@)
            &&& url == "https://huggingface.co/"@ + m.model_id + "/resolve/main/"@ + name
            &&& !name.contains('/') ==> text::after_last(url, '/') == name
        },
{
    if let Some(url) = m.url_for(quant) {
        let name = first_naming(m.files(), quant)->0.rfilename;
        reveal_strlit("/resolve/main/");
        reveal_strlit("/");
        let start = "https://huggingface.co/"@ + m.model_id + "/"@;
        let front = "https://huggingface.co/"@ + m.model_id + "/resolve/main"@;
        reveal_strlit("/resolve/main");
        assert(url.subrange(0, start.len() as int) =~= start);
        assert("/resolve/main/"@ =~= "/resolve/main"@ + seq!['/']);
        assert(url =~= front + seq!['/'] + name);
        if !name.contains('/') {
            text::law_after_last(front, '/', name);
        }
    }
}

/// What the contracts speak of are the fields themselves, and a list that is
/// missing counts as empty.
pub proof fn law_views_hold_the_fields(
    m: HfModel,
    f: HfSibling,
    files: Seq<HfSibling>,
    list: Seq<HfModel>,
    choices: Seq<(&'static str, u64)>,
    i: int,
)
    ensures
        f@.rfilename == f.rfilename@,
        f@.size == f.size,
        m@.model_id == m.model_id@,
        m@.downloads == m.downloads,
        m@.likes == m.likes,
        m.last_modified matches Some(t) ==> m@.last_modified == Some(t@),
        m.last_modified is None ==> m@.last_modified is None,
        m.tags matches Some(t) ==> m@.tag_list() == text::texts(t@) && m@.tags == Some(
            text::texts(t@),
        ),
        m.tags is None ==> m@.tag_list().len() == 0 && m@.tags is None,
        m.siblings matches Some(s) ==> m@.files() == sibling_views(s@) && m@.siblings == Some(
            sibling_views(s@),
        ),
        m.siblings is None ==> m@.files().len() == 0 && m@.siblings is None,
        sibling_views(files).len() == files.len(),
        0 <= i < files.len() ==> sibling_views(files)[i] == files[i]@,
        model_views(list).len() == list.len(),
        0 <= i < list.len() ==> model_views(list)[i] == list[i]@,
        choice_views(choices).len() == choices.len(),
        0 <= i < choices.len() ==> choice_views(choices)[i].0 == choices[i].0@ && choice_views(
            choices,
        )[i].1 == choices[i].1,
{
}

/// The views of a list of texts are the texts' own, and that of one that may be
/// missing is there where it is. Of a model that only its id is known of, nothing
/// else is.
pub proof fn law_views_hold_the_texts(
    labels: Seq<&'static str>,
    s: Option<String>,
    id: Seq<char>,
    i: int,
)
    ensures
        str_texts(labels).len() == labels.len(),
        0 <= i < labels.len() ==> str_texts(labels)[i] == labels[i]@,
        s is None <==> text_view(s) is None,
        s matches Some(t) ==> text_view(s) == Some(t@),
        ModelView::bare(id).model_id == id,
        ModelView::bare(id).downloads is None && ModelView::bare(id).likes is None,
        ModelView::bare(id).last_modified is None && ModelView::bare(id).tags is None,
        ModelView::bare(id).siblings is None,
{
}

} // verus!
