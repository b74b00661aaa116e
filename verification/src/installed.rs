//! Which models are on the disk already: the layout of the Hugging Face hub
//! cache, and the match of loose files in a directory of the user's own.

use vstd::prelude::*;
use vstd::string::*;

#[allow(unused_imports)]
use crate::models;
use crate::models::HfModel;
#[allow(unused_imports)]
use crate::outside;
use crate::text;

verus! {

/// A file on the disk. `P` is the type of its path.
#[derive(Debug)]
pub struct LocalFile<P> {
    pub path: P,
    /// The name, where it is valid Unicode.
    pub name: Option<String>,
    /// The extension, where there is one and it is valid Unicode.
    pub extension: Option<String>,
    /// The size in bytes; 0 where it is not known.
    pub size: u64,
}

/// A folder of the hub cache, with the files of all its snapshots.
#[derive(Debug)]
pub struct CachedRepo<P> {
    pub folder: String,
    pub files: Vec<LocalFile<P>>,
}

/// A directory some steps below another one.
#[derive(Debug)]
pub struct DirBelow<P> {
    pub base: P,
    pub steps: Vec<&'static str>,
}

// ---------------------------------------------------------------------------
// Names
// ---------------------------------------------------------------------------

/// The folder of the hub cache for a model.
pub open spec fn folder_of(model_id: Seq<char>) -> Seq<char> {
    "models--"@ + text::with_replaced(model_id, '/', "--"@)
}

/// The id of the model that a folder of the hub cache belongs to: an
/// organization and a name, or a name alone.
pub open spec fn id_of_folder(folder: Seq<char>) -> Option<Seq<char>> {
    if text::begins_with(folder, "models--"@) {
        let rest = folder.skip("models--"@.len() as int);
        match text::find_from(rest, "--"@, 0) {
            Some(i) => Some(rest.take(i) + "/"@ + rest.skip(i + 2)),
            None => if rest.len() == 0 {
                None
            } else {
                Some(rest)
            },
        }
    } else {
        None
    }
}

/// The folder of the hub cache for a model.
pub fn repo_folder(model_id: &str) -> (folder: String)
    ensures
        folder@ == folder_of(model_id@),
{
    let name = text::replace_char(model_id, '/', "--");
    "models--".to_owned().concat(name.as_str())
}

/// The id of the model that a folder of the hub cache belongs to.
pub fn parse_cache_folder(folder: &str) -> (id: Option<String>)
    ensures
        models::text_view(id) == id_of_folder(folder@),
{
    if !text::starts_with(folder, "models--") {
        return None;
    }
    proof {
        reveal_strlit("models--");
        reveal_strlit("--");
    }
    let cs = text::to_chars(folder);
    let rest_text = text::from_chars(&cs, 8, cs.len());
    let rest = text::to_chars(rest_text.as_str());
    let dashes = text::to_chars("--");
    assert(rest@ =~= folder@.skip(8));
    proof {
        text::lemma_find_from(rest@, dashes@, 0);
    }
    match text::find_chars(&rest, &dashes, 0) {
        None => if rest.len() == 0 {
            None
        } else {
            Some(rest_text)
        },
        Some(i) => {
            let org = text::from_chars(&rest, 0, i);
            let repo = text::from_chars(&rest, i + 2, rest.len());
            assert(org@ =~= rest@.take(i as int));
            assert(repo@ =~= rest@.skip(i + 2));
            Some(org.concat("/").concat(repo.as_str()))
        },
    }
}

// ---------------------------------------------------------------------------
// Directories
// ---------------------------------------------------------------------------

/// The views of a sequence of string slices.
pub open spec fn step_views(steps: Seq<&'static str>) -> Seq<Seq<char>> {
    steps.map_values(|s: &'static str| s@)
}

/// The hub cache as `huggingface_hub` finds it: the directory that
/// `HUGGINGFACE_HUB_CACHE` names, else `hub` below the one that `HF_HOME`
/// names, else `.cache/huggingface/hub` below the user's home.
pub fn hf_hub_cache_dir<P>(hub_cache: Option<P>, hf_home: Option<P>, home: Option<P>) -> (dir:
    Option<DirBelow<P>>)
    ensures
        match hub_cache {
            Some(d) => dir matches Some(b) && b.base == d && b.steps@.len() == 0,
            None => match hf_home {
                Some(d) => dir matches Some(b) && b.base == d && step_views(b.steps@) == seq![
                    "hub"@,
                ],
                None => match home {
                    Some(d) => dir matches Some(b) && b.base == d && step_views(b.steps@) == seq![
                        ".cache"@,
                        "huggingface"@,
                        "hub"@,
                    ],
                    None => dir is None,
                },
            },
        },
{
    if let Some(base) = hub_cache {
        return Some(DirBelow { base, steps: Vec::new() });
    }
    if let Some(base) = hf_home {
        let steps = vec!["hub"];
        assert(step_views(steps@) =~= seq!["hub"@]);
        return Some(DirBelow { base, steps });
    }
    match home {
        Some(base) => {
            let steps = vec![".cache", "huggingface", "hub"];
            assert(step_views(steps@) =~= seq![".cache"@, "huggingface"@, "hub"@]);
            Some(DirBelow { base, steps })
        },
        None => None,
    }
}

// ---------------------------------------------------------------------------
// The choice of the weights
// ---------------------------------------------------------------------------

impl<P> LocalFile<P> {
    /// The file is a GGUF file by its extension.
    pub open spec fn is_gguf(self) -> bool {
        self.extension matches Some(e) && e@ == "gguf"@
    }

    /// The file's name marks it as a projector, which is no model of its own.
    pub open spec fn is_projector(self) -> bool {
        self.name matches Some(n) && projector_name(outside::unicode_lowercase(n@))
    }

    /// The file can be chosen as a model's weights.
    pub open spec fn eligible(self, projectors_too: bool) -> bool {
        self.is_gguf() && (projectors_too || !self.is_projector())
    }
}

/// A name in lower case marks a projector.
pub open spec fn projector_name(lower: Seq<char>) -> bool {
    text::contains_text(lower, "mmproj"@)
}

/// The largest eligible file among the first `k`; of equal ones the last.
pub open spec fn largest_upto<P>(files: Seq<LocalFile<P>>, projectors_too: bool, k: int) -> Option<
    int,
>
    decreases k,
{
    if k <= 0 {
        None
    } else {
        let before = largest_upto(files, projectors_too, k - 1);
        if files[k - 1].eligible(projectors_too) && match before {
            Some(b) => files[b].size <= files[k - 1].size,
            None => true,
        } {
            Some(k - 1)
        } else {
            before
        }
    }
}

/// The largest eligible file; of equal ones the last.
pub open spec fn largest<P>(files: Seq<LocalFile<P>>, projectors_too: bool) -> Option<int> {
    largest_upto(files, projectors_too, files.len() as int)
}

/// The file that holds the weights: the largest GGUF file that is no projector,
/// or, where there are only projectors, the largest of those.
pub open spec fn weights<P>(files: Seq<LocalFile<P>>) -> Option<LocalFile<P>> {
    match largest(files, false) {
        Some(i) => Some(files[i]),
        None => match largest(files, true) {
            Some(i) => Some(files[i]),
            None => None,
        },
    }
}

/// Whether a name in lower case marks a projector.
pub fn names_projector(lower: &str) -> (r: bool)
    ensures
        r == projector_name(lower@),
{
    text::contains(lower, "mmproj")
}

impl<P> LocalFile<P> {
    fn can_be_weights(&self, projectors_too: bool) -> (r: bool)
        ensures
            r == self.eligible(projectors_too),
    {
        let gguf = match &self.extension {
            Some(e) => text::same_text(e.as_str(), "gguf"),
            None => false,
        };
        if !gguf {
            return false;
        }
        if projectors_too {
            return true;
        }
        match &self.name {
            Some(n) => {
                let lower = n.as_str().to_lowercase();
                !names_projector(lower.as_str())
            },
            None => true,
        }
    }
}

fn find_largest<P>(files: &Vec<LocalFile<P>>, projectors_too: bool) -> (r: Option<usize>)
    ensures
        match r {
            Some(i) => i < files@.len() && largest(files@, projectors_too) == Some(i as int),
            None => largest(files@, projectors_too) is None,
        },
{
    let mut best: Option<usize> = None;
    for k in 0..files.len()
        invariant
            match best {
                Some(i) => i < k && largest_upto(files@, projectors_too, k as int) == Some(
                    i as int,
                ),
                None => largest_upto(files@, projectors_too, k as int) is None,
            },
    {
        if files[k].can_be_weights(projectors_too) {
            let wins = match best {
                Some(i) => files[i].size <= files[k].size,
                None => true,
            };
            if wins {
                best = Some(k);
            }
        }
    }
    best
}

/// The file most likely to hold a model's weights, out of the files of all the
/// snapshots of its repository.
pub fn pick_model_gguf<P>(files: &Vec<LocalFile<P>>) -> (picked: Option<&LocalFile<P>>)
    ensures
        match picked {
            Some(f) => weights(files@) == Some(*f),
            None => weights(files@) is None,
        },
{
    match find_largest(files, false) {
        Some(i) => Some(&files[i]),
        None => match find_largest(files, true) {
            Some(i) => Some(&files[i]),
            None => None,
        },
    }
}

// ---------------------------------------------------------------------------
// The hub cache
// ---------------------------------------------------------------------------

/// The weights of a model in the cache.
pub open spec fn cached<P>(cache: Seq<CachedRepo<P>>, model_id: Seq<char>) -> Option<LocalFile<P>>
    decreases cache.len(),
{
    if cache.len() == 0 {
        None
    } else if cache[0].folder@ == folder_of(model_id) {
        weights(cache[0].files@)
    } else {
        cached(cache.drop_first(), model_id)
    }
}

/// The weights of a model in the cache: a file of the snapshots in the folder
/// that the model's id names.
pub fn hf_repo_cached<'a, P>(cache: &'a Vec<CachedRepo<P>>, model_id: &str) -> (found: Option<
    &'a LocalFile<P>,
>)
    ensures
        match found {
            Some(f) => cached(cache@, model_id@) == Some(*f),
            None => cached(cache@, model_id@) is None,
        },
{
    let folder = repo_folder(model_id);
    assert(cache@.skip(0) =~= cache@);
    for i in 0..cache.len()
        invariant
            folder@ == folder_of(model_id@),
            cached(cache@, model_id@) == cached(cache@.skip(i as int), model_id@),
    {
        assert(cache@.skip(i as int).drop_first() =~= cache@.skip(i + 1));
        if text::same_text(cache[i].folder.as_str(), folder.as_str()) {
            return pick_model_gguf(&cache[i].files);
        }
    }
    None
}

/// The models in the cache, by id, with their weights.
pub open spec fn cached_models<P>(cache: Seq<CachedRepo<P>>) -> Seq<(Seq<char>, P)>
    decreases cache.len(),
{
    if cache.len() == 0 {
        Seq::empty()
    } else {
        let before = cached_models(cache.drop_last());
        match (id_of_folder(cache.last().folder@), weights(cache.last().files@)) {
            (Some(id), Some(f)) => before.push((id, f.path)),
            _ => before,
        }
    }
}

/// `pairs` holds the ids of `found` and copies of its paths, in the same order.
pub open spec fn copies<P: Clone>(found: Seq<(Seq<char>, P)>, pairs: Seq<(String, P)>) -> bool {
    &&& pairs.len() == found.len()
    &&& forall|k: int|
        0 <= k < found.len() ==> (#[trigger] pairs[k]).0@ == found[k].0 && vstd::pervasive::cloned(
            found[k].1,
            pairs[k].1,
        )
}

/// Every model in the cache, whatever is searched for at the moment.
pub fn scan_hub_cache<P: Clone>(cache: &Vec<CachedRepo<P>>) -> (pairs: Vec<(String, P)>)
    ensures
        copies(cached_models(cache@), pairs@),
{
    let mut pairs: Vec<(String, P)> = Vec::new();
    for i in 0..cache.len()
        invariant
            copies(cached_models(cache@.take(i as int)), pairs@),
    {
        assert(cache@.take(i + 1).drop_last() =~= cache@.take(i as int));
        if let Some(id) = parse_cache_folder(cache[i].folder.as_str()) {
            if let Some(f) = pick_model_gguf(&cache[i].files) {
                pairs.push((id, f.path.clone()));
            }
        }
    }
    assert(cache@.take(cache@.len() as int) =~= cache@);
    pairs
}

// ---------------------------------------------------------------------------
// Loose files
// ---------------------------------------------------------------------------

/// The ASCII letters and digits of a text, in lower case.
pub open spec fn normalized(s: Seq<char>) -> Seq<char>
    decreases s.len(),
{
    if s.len() == 0 {
        Seq::empty()
    } else if text::is_ascii_alnum(s.last()) {
        normalized(s.drop_last()).push(text::to_ascii_lower(s.last()))
    } else {
        normalized(s.drop_last())
    }
}

/// The ASCII letters and digits of a text, in lower case.
pub fn normalize(s: &str) -> (r: String)
    ensures
        r@ == normalized(s@),
{
    let cs = text::to_chars(s);
    let mut r = String::new();
    for i in 0..cs.len()
        invariant
            r@ == normalized(cs@.take(i as int)),
    {
        assert(cs@.take(i + 1).drop_last() =~= cs@.take(i as int));
        if text::ascii_alnum(cs[i]) {
            r.push(text::ascii_lower_char(cs[i]));
        }
    }
    assert(cs@.take(cs@.len() as int) =~= cs@);
    r
}

impl<P> LocalFile<P> {
    /// The file is a GGUF file by its extension, in whatever case.
    pub open spec fn is_gguf_in_any_case(self) -> bool {
        self.extension matches Some(e) && text::ascii_lower(e@) == text::ascii_lower("gguf"@)
    }

    /// The file's normalized name holds `name`.
    pub open spec fn named_like(self, name: Seq<char>) -> bool {
        self.name matches Some(n) && text::contains_text(normalized(n@), name)
    }
}

/// The GGUF files among `files`.
pub open spec fn gguf_files<P>(files: Seq<LocalFile<P>>) -> Seq<LocalFile<P>>
    decreases files.len(),
{
    if files.len() == 0 {
        Seq::empty()
    } else if files.last().is_gguf_in_any_case() {
        gguf_files(files.drop_last()).push(files.last())
    } else {
        gguf_files(files.drop_last())
    }
}

/// The GGUF files of a directory.
pub fn list_gguf_files<P>(files: Vec<LocalFile<P>>) -> (kept: Vec<LocalFile<P>>)
    ensures
        kept@ == gguf_files(files@),
{
    let mut kept: Vec<LocalFile<P>> = Vec::new();
    for f in it: files
        invariant
            it.seq() == files@,
            kept@ == gguf_files(files@.take(it.index() as int)),
    {
        assert(files@.take(it.index() + 1).drop_last() =~= files@.take(it.index() as int));
        let gguf = match &f.extension {
            Some(e) => text::same_ignoring_ascii_case(e.as_str(), "gguf"),
            None => false,
        };
        if gguf {
            kept.push(f);
        }
    }
    assert(files@.take(files@.len() as int) =~= files@);
    kept
}

/// The first file whose normalized name holds `name`.
pub open spec fn first_like<P>(files: Seq<LocalFile<P>>, name: Seq<char>) -> Option<LocalFile<P>>
    decreases files.len(),
{
    if files.len() == 0 {
        None
    } else if files[0].named_like(name) {
        Some(files[0])
    } else {
        first_like(files.drop_first(), name)
    }
}

/// The file that looks like a model's: the first whose name holds the part of
/// the id behind the last `/`, both without separators and in lower case. Names
/// of fewer than four characters match nothing.
pub open spec fn local_match<P>(model_id: Seq<char>, files: Seq<LocalFile<P>>) -> Option<
    LocalFile<P>,
> {
    let name = normalized(text::after_last(model_id, '/'));
    if name.len() < 4 {
        None
    } else {
        first_like(files, name)
    }
}

/// The file that looks like it belongs to a model. File names rarely equal the
/// model's id, as `Meta-Llama-3-8B-Instruct.Q4_K_M.gguf` does not.
pub fn matches_local_file<'a, P>(model_id: &str, files: &'a Vec<LocalFile<P>>) -> (found: Option<
    &'a LocalFile<P>,
>)
    ensures
        match found {
            Some(f) => local_match(model_id@, files@) == Some(*f),
            None => local_match(model_id@, files@) is None,
        },
{
    let short_name = text::last_part(model_id, '/');
    let name = normalize(short_name.as_str());
    if text::to_chars(name.as_str()).len() < 4 {
        return None;
    }
    assert(files@.skip(0) =~= files@);
    for i in 0..files.len()
        invariant
            name@ == normalized(text::after_last(model_id@, '/')),
            name@.len() >= 4,
            first_like(files@, name@) == first_like(files@.skip(i as int), name@),
    {
        assert(files@.skip(i as int).drop_first() =~= files@.skip(i + 1));
        let like = match &files[i].name {
            Some(n) => {
                let normalized_file = normalize(n.as_str());
                text::contains(normalized_file.as_str(), name.as_str())
            },
            None => false,
        };
        if like {
            return Some(&files[i]);
        }
    }
    None
}

// ---------------------------------------------------------------------------
// Known models
// ---------------------------------------------------------------------------

/// Where a model is on the disk: in the cache, else among the loose files.
pub open spec fn on_disk<P>(
    model_id: Seq<char>,
    cache: Seq<CachedRepo<P>>,
    local_files: Seq<LocalFile<P>>,
) -> Option<LocalFile<P>> {
    match cached(cache, model_id) {
        Some(f) => Some(f),
        None => local_match(model_id, local_files),
    }
}

/// Those of the models that are on the disk, by id, with their files.
pub open spec fn candidates_on_disk<P>(
    models: Seq<HfModel>,
    cache: Seq<CachedRepo<P>>,
    local_files: Seq<LocalFile<P>>,
) -> Seq<(Seq<char>, P)>
    decreases models.len(),
{
    if models.len() == 0 {
        Seq::empty()
    } else {
        let before = candidates_on_disk(models.drop_last(), cache, local_files);
        let id = models.last().model_id@;
        match on_disk(id, cache, local_files) {
            Some(f) => before.push((id, f.path)),
            None => before,
        }
    }
}

/// Those of the models that are on the disk, by id, with their files. Without a
/// hub cache, or without a directory of loose files, the list is empty.
pub fn scan_installed_candidates<P: Clone>(
    models: &Vec<HfModel>,
    cache: &Vec<CachedRepo<P>>,
    local_files: &Vec<LocalFile<P>>,
) -> (pairs: Vec<(String, P)>)
    ensures
        copies(candidates_on_disk(models@, cache@, local_files@), pairs@),
{
    let mut pairs: Vec<(String, P)> = Vec::new();
    for i in 0..models.len()
        invariant
            copies(candidates_on_disk(models@.take(i as int), cache@, local_files@), pairs@),
    {
        assert(models@.take(i + 1).drop_last() =~= models@.take(i as int));
        let id = models[i].model_id.as_str();
        let found = match hf_repo_cached(cache, id) {
            Some(f) => Some(f),
            None => matches_local_file(id, local_files),
        };
        if let Some(f) = found {
            pairs.push((models[i].model_id.clone(), f.path.clone()));
        }
    }
    assert(models@.take(models@.len() as int) =~= models@);
    pairs
}

// ---------------------------------------------------------------------------
// Laws
// ---------------------------------------------------------------------------

proof fn lemma_largest_upto<P>(files: Seq<LocalFile<P>>, projectors_too: bool, k: int)
    requires
        0 <= k <= files.len(),
    ensures
        match largest_upto(files, projectors_too, k) {
            Some(i) => {
                &&& 0 <= i < k
                &&& files[i].eligible(projectors_too)
                &&& forall|j: int|
                    0 <= j < k && (#[trigger] files[j]).eligible(projectors_too)
                        ==> files[j].size <= files[i].size
                &&& forall|j: int|
                    i < j < k && (#[trigger] files[j]).eligible(projectors_too)
                        ==> files[j].size < files[i].size
            },
            None => forall|j: int|
                0 <= j < k ==> !(#[trigger] files[j]).eligible(projectors_too),
        },
    decreases k,
{
    if k > 0 {
        lemma_largest_upto(files, projectors_too, k - 1);
    }
}

/// The weights are chosen wherever there is a GGUF file. The choice is a GGUF
/// file, and a projector only where all of them are. No file of its kind is
/// larger.
pub proof fn law_weights<P>(files: Seq<LocalFile<P>>)
    ensures
        weights(files) is Some <==> exists|j: int|
            0 <= j < files.len() && (#[trigger] files[j]).is_gguf(),
        weights(files) matches Some(f) ==> {
            &&& f.is_gguf()
            &&& files.contains(f)
            &&& f.is_projector() ==> forall|j: int|
                0 <= j < files.len() && (#[trigger] files[j]).is_gguf() ==> files[j].is_projector()
            &&& forall|j: int|
                0 <= j < files.len() && (#[trigger] files[j]).is_gguf() && (files[j].is_projector()
                    ==> f.is_projector()) ==> files[j].size <= f.size
        },
{
    let n = files.len() as int;
    lemma_largest_upto(files, false, n);
    lemma_largest_upto(files, true, n);
    assert forall|j: int| 0 <= j < n && (#[trigger] files[j]).is_gguf() implies files[j].eligible(
        true,
    ) && (files[j].is_projector() || files[j].eligible(false)) by {}
    match largest(files, false) {
        Some(i) => {
            assert(files[i].eligible(true));
        },
        None => {
            assert forall|j: int| 0 <= j < n && (#[trigger] files[j]).is_gguf() implies files[
                j
            ].is_projector() by {
                assert(!files[j].eligible(false));
            }
        },
    }
}

proof fn lemma_nothing_to_replace(s: Seq<char>, c: char, with: Seq<char>)
    requires
        !s.contains(c),
    ensures
        text::with_replaced(s, c, with) == s,
    decreases s.len(),
{
    if s.len() > 0 {
        assert(s[s.len() - 1] != c);
        assert forall|i: int| 0 <= i < s.drop_last().len() implies s.drop_last()[i] != c by {
            assert(s[i] != c);
        }
        lemma_nothing_to_replace(s.drop_last(), c, with);
        assert(s.drop_last().push(s.last()) =~= s);
    } else {
        assert(text::with_replaced(s, c, with) =~= s);
    }
}

proof fn lemma_replace_one(a: Seq<char>, c: char, b: Seq<char>, with: Seq<char>)
    requires
        !a.contains(c),
        !b.contains(c),
    ensures
        text::with_replaced(a + seq![c] + b, c, with) == a + with + b,
    decreases b.len(),
{
    let s = a + seq![c] + b;
    if b.len() == 0 {
        assert(s.drop_last() =~= a);
        lemma_nothing_to_replace(a, c, with);
        assert(a + with =~= a + with + b);
    } else {
        let shorter = b.drop_last();
        assert(s.drop_last() =~= a + seq![c] + shorter);
        assert(b[b.len() - 1] != c);
        assert forall|i: int| 0 <= i < shorter.len() implies shorter[i] != c by {
            assert(b[i] != c);
        }
        lemma_replace_one(a, c, shorter, with);
        assert((a + with + shorter).push(b.last()) =~= a + with + b);
    }
}

/// A folder of the cache leads to a model's id and back: the id that a folder
/// gives names that folder. So two folders never give the same id.
pub proof fn law_folder_of_its_id(folder: Seq<char>)
    requires
        !folder.contains('/'),
    ensures
        id_of_folder(folder) matches Some(id) ==> folder_of(id) == folder,
{
    reveal_strlit("models--");
    reveal_strlit("--");
    reveal_strlit("/");
    let rest = folder.skip(8);
    if id_of_folder(folder) is Some {
        assert(folder =~= "models--"@ + rest) by {
            assert(folder.subrange(0, 8) =~= "models--"@);
        }
        assert forall|j: int| 0 <= j < rest.len() implies rest[j] != '/' by {
            assert(folder[8 + j] == rest[j]);
        }
        lemma_nothing_to_replace(rest, '/', "--"@);
    }
    if text::find_from(rest, "--"@, 0) is Some && id_of_folder(folder) is Some {
        text::lemma_find_from(rest, "--"@, 0);
        let i = text::find_from(rest, "--"@, 0)->0;
        let org = rest.take(i);
        let repo = rest.skip(i + 2);
        assert(text::occurs_at(rest, "--"@, i));
        assert forall|j: int| 0 <= j < org.len() implies org[j] != '/' by {
            assert(folder[8 + j] == org[j]);
        }
        assert forall|j: int| 0 <= j < repo.len() implies repo[j] != '/' by {
            assert(folder[8 + i + 2 + j] == repo[j]);
        }
        assert("/"@ =~= seq!['/']);
        lemma_replace_one(org, '/', repo, "--"@);
        assert(rest =~= org + "--"@ + repo) by {
            assert(rest.subrange(i, i + 2) =~= "--"@);
        }
    }
}

/// A model's id leads to a folder of the cache and back, for an id of an
/// organization and a name, of which the first holds no two hyphens in a row
/// and does not end in one.
pub proof fn law_id_of_its_folder(org: Seq<char>, repo: Seq<char>)
    requires
        !org.contains('/'),
        !repo.contains('/'),
        !text::contains_text(org, "--"@),
        org.len() > 0 ==> org.last() != '-',
    ensures
        id_of_folder(folder_of(org + "/"@ + repo)) == Some(org + "/"@ + repo),
{
    reveal_strlit("models--");
    reveal_strlit("--");
    reveal_strlit("/");
    assert("/"@ =~= seq!['/']);
    lemma_replace_one(org, '/', repo, "--"@);
    let rest = org + "--"@ + repo;
    let folder = "models--"@ + rest;
    assert(folder.subrange(0, 8) =~= "models--"@);
    assert(folder.skip(8) =~= rest);
    text::lemma_find_from(rest, "--"@, 0);
    let n = org.len() as int;
    assert(rest.subrange(n, n + 2) =~= "--"@);
    assert(text::occurs_at(rest, "--"@, n));
    let i = text::find_from(rest, "--"@, 0)->0;
    assert(text::occurs_at(rest, "--"@, i));
    if i < n {
        assert(rest.subrange(i, i + 2)[0] == '-');
        assert(rest.subrange(i, i + 2)[1] == '-');
        if i + 2 <= n {
            assert(org.subrange(i, i + 2) =~= rest.subrange(i, i + 2));
            assert(text::occurs_at(org, "--"@, i));
        } else {
            assert(org.last() == rest[i]);
        }
        assert(false);
    }
    assert(rest.take(n) =~= org);
    assert(rest.skip(n + 2) =~= repo);
}

/// An id without an organization leads to a folder of the cache and back as
/// well, where it is not empty and holds no two hyphens in a row.
pub proof fn law_id_of_its_folder_without_organization(name: Seq<char>)
    requires
        name.len() > 0,
        !name.contains('/'),
        !text::contains_text(name, "--"@),
    ensures
        id_of_folder(folder_of(name)) == Some(name),
{
    reveal_strlit("models--");
    lemma_nothing_to_replace(name, '/', "--"@);
    let folder = "models--"@ + name;
    assert(folder.subrange(0, 8) =~= "models--"@);
    assert(folder.skip(8) =~= name);
    text::lemma_find_from(name, "--"@, 0);
}

/// A model is found in the cache by the folder that its id names, which is also
/// the folder that a download of the model goes to.
pub proof fn law_cached_by_folder<P>(cache: Seq<CachedRepo<P>>, i: int, model_id: Seq<char>)
    requires
        0 <= i < cache.len(),
        cache[i].folder@ == folder_of(model_id),
        forall|j: int| 0 <= j < i ==> (#[trigger] cache[j]).folder@ != folder_of(model_id),
    ensures
        cached(cache, model_id) == weights(cache[i].files@),
    decreases cache.len(),
{
    if i > 0 {
        assert(cache[0].folder@ != folder_of(model_id));
        assert(cache.drop_first()[i - 1] == cache[i]);
        assert forall|j: int| 0 <= j < i - 1 implies (#[trigger] cache.drop_first()[j]).folder@
            != folder_of(model_id) by {
            assert(cache.drop_first()[j] == cache[j + 1]);
        }
        law_cached_by_folder(cache.drop_first(), i - 1, model_id);
    }
}

/// A scan reports exactly those of the models that are on the disk, in the cache
/// or as a loose file.
pub proof fn law_scan_reports_what_is_on_the_disk<P>(
    models: Seq<HfModel>,
    cache: Seq<CachedRepo<P>>,
    local_files: Seq<LocalFile<P>>,
    id: Seq<char>,
)
    ensures
        (exists|k: int|
            0 <= k < candidates_on_disk(models, cache, local_files).len() && (
            #[trigger] candidates_on_disk(models, cache, local_files)[k]).0 == id) <==> (on_disk(
            id,
            cache,
            local_files,
        ) is Some && exists|i: int|
            0 <= i < models.len() && (#[trigger] models[i]).model_id@ == id),
    decreases models.len(),
{
    if models.len() > 0 {
        let rest = models.drop_last();
        law_scan_reports_what_is_on_the_disk(rest, cache, local_files, id);
        let before = candidates_on_disk(rest, cache, local_files);
        let all = candidates_on_disk(models, cache, local_files);
        if exists|k: int| 0 <= k < all.len() && (#[trigger] all[k]).0 == id {
            let k = choose|k: int| 0 <= k < all.len() && (#[trigger] all[k]).0 == id;
            if k < before.len() {
                assert(before[k].0 == id);
                let i = choose|i: int| 0 <= i < rest.len() && (#[trigger] rest[i]).model_id@ == id;
                assert(models[i].model_id@ == id);
            } else {
                assert(models[models.len() - 1].model_id@ == id);
            }
        }
        if on_disk(id, cache, local_files) is Some && exists|i: int|
            0 <= i < models.len() && (#[trigger] models[i]).model_id@ == id {
            let i = choose|i: int| 0 <= i < models.len() && (#[trigger] models[i]).model_id@ == id;
            if i < rest.len() {
                assert(rest[i].model_id@ == id);
                let k = choose|k: int| 0 <= k < before.len() && (#[trigger] before[k]).0 == id;
                assert(all[k].0 == id);
            } else {
                assert(all[all.len() - 1].0 == id);
            }
        }
    }
}

/// A scan of the whole cache reports every folder of a model in which there are
/// weights, by the id that the folder gives; and every folder that begins as one
/// of a model and goes on gives an id.
pub proof fn law_cache_scan_reports_every_model<P>(cache: Seq<CachedRepo<P>>, i: int)
    requires
        0 <= i < cache.len(),
    ensures
        id_of_folder(cache[i].folder@) is Some <==> text::begins_with(
            cache[i].folder@,
            "models--"@,
        ) && cache[i].folder@.len() > "models--"@.len(),
        id_of_folder(cache[i].folder@) matches Some(id) ==> (weights(cache[i].files@) matches Some(
            f,
        ) ==> cached_models(cache).contains((id, f.path))),
    decreases cache.len(),
{
    let rest = cache[i].folder@.skip("models--"@.len() as int);
    text::lemma_find_from(rest, "--"@, 0);
    reveal_strlit("--");
    let fewer = cache.drop_last();
    let before = cached_models(fewer);
    let all = cached_models(cache);
    if let (Some(id), Some(f)) = (id_of_folder(cache[i].folder@), weights(cache[i].files@)) {
        if i < fewer.len() {
            law_cache_scan_reports_every_model(fewer, i);
            assert(fewer[i] == cache[i]);
            let k = choose|k: int| 0 <= k < before.len() && before[k] == (id, f.path);
            assert(all[k] == (id, f.path));
        } else {
            assert(all[all.len() - 1] == (id, f.path));
        }
    }
}

/// What makes a file a model's weights, on the file's own fields. Weights are
/// found exactly where some file has the extension `gguf`, whatever its size. The
/// file that is picked has it, and no file with that extension whose name does not
/// speak of a projector is larger. Where the picked one's name does, so do those
/// of all the others, and none of them is larger.
pub proof fn law_weights_by_extension_and_size<P>(files: Seq<LocalFile<P>>)
    ensures
        weights(files) is Some <==> exists|j: int|
            0 <= j < files.len() && ((#[trigger] files[j]).extension matches Some(e) && e@
                == "gguf"@),
        weights(files) matches Some(f) ==> {
            &&& files.contains(f)
            &&& f.extension matches Some(e) && e@ == "gguf"@
            &&& forall|j: int|
                0 <= j < files.len() && ((#[trigger] files[j]).extension matches Some(e) && e@
                    == "gguf"@) && !(files[j].name matches Some(n) && text::contains_text(
                    outside::unicode_lowercase(n@),
                    "mmproj"@,
                )) ==> files[j].size <= f.size
            &&& (f.name matches Some(n) && text::contains_text(
                outside::unicode_lowercase(n@),
                "mmproj"@,
            )) ==> forall|j: int|
                0 <= j < files.len() && ((#[trigger] files[j]).extension matches Some(e) && e@
                    == "gguf"@) ==> files[j].size <= f.size && (files[j].name matches Some(n)
                    && text::contains_text(outside::unicode_lowercase(n@), "mmproj"@))
        },
{
    law_weights(files);
    assert forall|j: int|
        0 <= j < files.len() && ((#[trigger] files[j]).extension matches Some(e) && e@
            == "gguf"@) implies files[j].is_gguf() by {}
    if weights(files) is Some {
        let j = choose|j: int| 0 <= j < files.len() && (#[trigger] files[j]).is_gguf();
        assert(files[j].extension matches Some(e) && e@ == "gguf"@);
    }
}

/// Of files of the same size that could be picked, the last is.
pub proof fn law_last_of_equal_weights<P>(files: Seq<LocalFile<P>>, j: int)
    requires
        0 <= j < files.len(),
        files[j].extension matches Some(e) && e@ == "gguf"@,
        !files[j].is_projector(),
        forall|k: int|
            0 <= k < files.len() && (#[trigger] files[k]).is_gguf() && !files[k].is_projector()
                ==> files[k].size <= files[j].size,
        forall|k: int|
            j < k < files.len() && (#[trigger] files[k]).is_gguf() && !files[k].is_projector()
                ==> files[k].size < files[j].size,
    ensures
        weights(files) == Some(files[j]),
{
    lemma_largest_upto(files, false, files.len() as int);
    assert(files[j].eligible(false));
    let i = largest(files, false)->0;
    assert(files[i].eligible(false));
    if i < j {
        assert(files[j].size < files[i].size);
    }
    if j < i {
        assert(files[i].size < files[j].size);
    }
}

/// The marks of a file, on its own fields.
pub proof fn law_marks_of_a_file<P>(f: LocalFile<P>, name: Seq<char>)
    ensures
        f.is_gguf() <==> (f.extension matches Some(e) && e@ == "gguf"@),
        f.is_projector() <==> (f.name matches Some(n) && text::contains_text(
            outside::unicode_lowercase(n@),
            "mmproj"@,
        )),
        f.is_gguf_in_any_case() <==> (f.extension matches Some(e) && text::ascii_lower(e@)
            == "gguf"@),
        f.named_like(name) <==> (f.name matches Some(n) && text::contains_text(
            normalized(n@),
            name,
        )),
{
    reveal_strlit("gguf");
    assert(text::ascii_lower("gguf"@) =~= "gguf"@);
}

/// A model that has no folder in the cache is not found there.
pub proof fn law_not_cached_without_a_folder<P>(cache: Seq<CachedRepo<P>>, model_id: Seq<char>)
    requires
        forall|j: int| 0 <= j < cache.len() ==> (#[trigger] cache[j]).folder@ != folder_of(model_id),
    ensures
        cached(cache, model_id) is None,
    decreases cache.len(),
{
    if cache.len() > 0 {
        let rest = cache.drop_first();
        assert(cache[0].folder@ != folder_of(model_id));
        assert forall|j: int| 0 <= j < rest.len() implies (#[trigger] rest[j]).folder@
            != folder_of(model_id) by {
            assert(rest[j] == cache[j + 1]);
        }
        law_not_cached_without_a_folder(rest, model_id);
    }
}

/// The folder of a model is its id with the slash doubled into hyphens, behind a
/// fixed beginning.
pub proof fn law_folder_of_a_model(org: Seq<char>, repo: Seq<char>)
    requires
        !org.contains('/'),
        !repo.contains('/'),
    ensures
        folder_of(org + seq!['/'] + repo) == "models--"@ + org + "--"@ + repo,
        folder_of(repo) == "models--"@ + repo,
{
    lemma_replace_one(org, '/', repo, "--"@);
    lemma_nothing_to_replace(repo, '/', "--"@);
    assert(folder_of(org + seq!['/'] + repo) =~= "models--"@ + org + "--"@ + repo);
}

/// A scan of the cache works folder by folder: the folders of two lists give what
/// each gives, in order. One folder gives the id that its name stands for and the
/// path of its weights, or nothing where either is missing.
pub proof fn law_cache_scan_folder_by_folder<P>(
    a: Seq<CachedRepo<P>>,
    b: Seq<CachedRepo<P>>,
    one: CachedRepo<P>,
)
    ensures
        cached_models(a + b) == cached_models(a) + cached_models(b),
        match id_of_folder(one.folder@) {
            Some(id) => match weights(one.files@) {
                Some(f) => cached_models(seq![one]) == seq![(id, f.path)],
                None => cached_models(seq![one]).len() == 0,
            },
            None => cached_models(seq![one]).len() == 0,
        },
        cached_models(Seq::<CachedRepo<P>>::empty()).len() == 0,
    decreases b.len(),
{
    if b.len() == 0 {
        assert(a + b =~= a);
        assert(cached_models(a) + cached_models(b) =~= cached_models(a));
    } else {
        assert((a + b).drop_last() =~= a + b.drop_last());
        law_cache_scan_folder_by_folder(a, b.drop_last(), one);
        assert(cached_models(a + b) =~= cached_models(a) + cached_models(b));
    }
    assert(seq![one].drop_last() =~= Seq::empty());
    assert(seq![one].last() == one);
    assert(cached_models(seq![one].drop_last()) =~= Seq::empty());
    if let (Some(id), Some(f)) = (id_of_folder(one.folder@), weights(one.files@)) {
        assert(cached_models(seq![one]) =~= seq![(id, f.path)]);
    }
}

/// A scan for models works model by model: those of two lists give what each
/// gives, in order. One model gives its id and the path of its file, in the cache
/// before the loose files, or nothing where neither has one.
pub proof fn law_scan_model_by_model<P>(
    a: Seq<HfModel>,
    b: Seq<HfModel>,
    one: HfModel,
    cache: Seq<CachedRepo<P>>,
    local_files: Seq<LocalFile<P>>,
)
    ensures
        candidates_on_disk(a + b, cache, local_files) == candidates_on_disk(a, cache, local_files)
            + candidates_on_disk(b, cache, local_files),
        match cached(cache, one.model_id@) {
            Some(f) => candidates_on_disk(seq![one], cache, local_files) == seq![
                (one.model_id@, f.path),
            ],
            None => match local_match(one.model_id@, local_files) {
                Some(f) => candidates_on_disk(seq![one], cache, local_files) == seq![
                    (one.model_id@, f.path),
                ],
                None => candidates_on_disk(seq![one], cache, local_files).len() == 0,
            },
        },
        candidates_on_disk(Seq::empty(), cache, local_files).len() == 0,
    decreases b.len(),
{
    if b.len() == 0 {
        assert(a + b =~= a);
        assert(candidates_on_disk(a, cache, local_files) + candidates_on_disk(
            b,
            cache,
            local_files,
        ) =~= candidates_on_disk(a, cache, local_files));
    } else {
        assert((a + b).drop_last() =~= a + b.drop_last());
        law_scan_model_by_model(a, b.drop_last(), one, cache, local_files);
        assert(candidates_on_disk(a + b, cache, local_files) =~= candidates_on_disk(
            a,
            cache,
            local_files,
        ) + candidates_on_disk(b, cache, local_files));
    }
    let s = seq![one];
    assert(s.drop_last() =~= Seq::empty());
    assert(s.last() == one);
    assert(candidates_on_disk(s.drop_last(), cache, local_files) =~= Seq::empty());
    if let Some(f) = on_disk(one.model_id@, cache, local_files) {
        assert(candidates_on_disk(s, cache, local_files) =~= seq![(one.model_id@, f.path)]);
    }
}

/// Normalizing works on each character alone: a letter or digit of ASCII stays, in
/// lower case, and anything else goes.
pub proof fn law_normalized(a: Seq<char>, b: Seq<char>, c: char)
    ensures
        normalized(a + b) == normalized(a) + normalized(b),
        '0' <= c <= '9' || 'a' <= c <= 'z' ==> normalized(seq![c]) == seq![c],
        'A' <= c <= 'Z' ==> normalized(seq![c]) == seq![text::to_ascii_lower(c)],
        !('0' <= c <= '9' || 'a' <= c <= 'z' || 'A' <= c <= 'Z') ==> normalized(seq![c])
            == Seq::<char>::empty(),
        normalized(Seq::empty()) == Seq::<char>::empty(),
    decreases b.len(),
{
    if b.len() == 0 {
        assert(a + b =~= a);
        assert(normalized(a) + normalized(b) =~= normalized(a));
    } else {
        assert((a + b).drop_last() =~= a + b.drop_last());
        law_normalized(a, b.drop_last(), c);
        assert(normalized(a + b) =~= normalized(a) + normalized(b));
    }
    assert(seq![c].drop_last() =~= Seq::empty());
    assert(seq![c].last() == c);
    assert(normalized(seq![c].drop_last()) =~= Seq::empty());
    if text::is_ascii_alnum(c) {
        assert(normalized(seq![c]) =~= seq![text::to_ascii_lower(c)]);
    }
}

/// Of the files of a directory those with the extension `gguf` are kept, in any
/// case of its letters and in their order.
pub proof fn law_gguf_files_are_kept<P>(
    a: Seq<LocalFile<P>>,
    b: Seq<LocalFile<P>>,
    one: LocalFile<P>,
)
    ensures
        gguf_files(a + b) == gguf_files(a) + gguf_files(b),
        (one.extension matches Some(e) && text::ascii_lower(e@) == "gguf"@) ==> gguf_files(
            seq![one],
        ) == seq![one],
        !(one.extension matches Some(e) && text::ascii_lower(e@) == "gguf"@) ==> gguf_files(
            seq![one],
        ).len() == 0,
        gguf_files(Seq::<LocalFile<P>>::empty()).len() == 0,
    decreases b.len(),
{
    if b.len() == 0 {
        assert(a + b =~= a);
        assert(gguf_files(a) + gguf_files(b) =~= gguf_files(a));
    } else {
        assert((a + b).drop_last() =~= a + b.drop_last());
        law_gguf_files_are_kept(a, b.drop_last(), one);
        assert(gguf_files(a + b) =~= gguf_files(a) + gguf_files(b));
    }
    law_marks_of_a_file(one, Seq::empty());
    assert(seq![one].drop_last() =~= Seq::empty());
    assert(seq![one].last() == one);
    assert(gguf_files(seq![one].drop_last()) =~= Seq::empty());
    if one.is_gguf_in_any_case() {
        assert(gguf_files(seq![one]) =~= seq![one]);
    }
}

/// A loose file is taken for a model's exactly where its normalized name holds the
/// normalized end of the model's id, and that has four characters at least; of
/// several such files the first is taken.
pub proof fn law_loose_file_of_a_model<P>(model_id: Seq<char>, files: Seq<LocalFile<P>>)
    ensures
        ({
            let short = normalized(text::after_last(model_id, '/'));
            match local_match(model_id, files) {
                Some(f) => short.len() >= 4 && exists|i: int|
                    0 <= i < files.len() && #[trigger] files[i] == f && files[i].named_like(short)
                        && forall|j: int| 0 <= j < i ==> !(#[trigger] files[j]).named_like(short),
                None => short.len() < 4 || forall|j: int|
                    0 <= j < files.len() ==> !(#[trigger] files[j]).named_like(short),
            }
        }),
{
    lemma_first_like(files, normalized(text::after_last(model_id, '/')));
}

proof fn lemma_first_like<P>(files: Seq<LocalFile<P>>, name: Seq<char>)
    ensures
        match first_like(files, name) {
            Some(f) => exists|i: int|
                0 <= i < files.len() && #[trigger] files[i] == f && files[i].named_like(name)
                    && forall|j: int| 0 <= j < i ==> !(#[trigger] files[j]).named_like(name),
            None => forall|j: int|
                0 <= j < files.len() ==> !(#[trigger] files[j]).named_like(name),
        },
    decreases files.len(),
{
    if files.len() > 0 && !files[0].named_like(name) {
        let rest = files.drop_first();
        lemma_first_like(rest, name);
        match first_like(rest, name) {
            Some(f) => {
                let i = choose|i: int|
                    0 <= i < rest.len() && #[trigger] rest[i] == f && rest[i].named_like(name)
                        && forall|j: int| 0 <= j < i ==> !(#[trigger] rest[j]).named_like(name);
                assert(files[i + 1] == f);
                assert forall|j: int| 0 <= j < i + 1 implies !(#[trigger] files[j]).named_like(
                    name,
                ) by {
                    if j > 0 {
                        assert(rest[j - 1] == files[j]);
                    }
                }
            },
            None => {
                assert forall|j: int| 0 <= j < files.len() implies !(
                #[trigger] files[j]).named_like(name) by {
                    if j > 0 {
                        assert(rest[j - 1] == files[j]);
                    }
                }
            },
        }
    }
}

/// Where a model is on the disk, the cache goes before the loose files.
pub proof fn law_cache_goes_first<P>(
    model_id: Seq<char>,
    cache: Seq<CachedRepo<P>>,
    local_files: Seq<LocalFile<P>>,
)
    ensures
        cached(cache, model_id) is Some ==> on_disk(model_id, cache, local_files) == cached(
            cache,
            model_id,
        ),
        cached(cache, model_id) is None ==> on_disk(model_id, cache, local_files) == local_match(
            model_id,
            local_files,
        ),
{
}

/// What a scan gives are the ids and copies of the paths, one for one.
pub proof fn law_copies<P: Clone>(found: Seq<(Seq<char>, P)>, pairs: Seq<(String, P)>, k: int)
    requires
        copies(found, pairs),
        0 <= k < pairs.len(),
    ensures
        pairs.len() == found.len(),
        pairs[k].0@ == found[k].0,
        vstd::pervasive::cloned(found[k].1, pairs[k].1),
{
}

/// The views of the steps to a directory are the steps' own.
pub proof fn law_views_hold_the_steps(steps: Seq<&'static str>, i: int)
    ensures
        step_views(steps).len() == steps.len(),
        0 <= i < steps.len() ==> step_views(steps)[i] == steps[i]@,
{
}

} // verus!
