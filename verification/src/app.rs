//! The state of the application, and the small changes that it goes through.

use vstd::hash_map::StringHashMap;
use vstd::prelude::*;
use vstd::string::*;

use crate::config::{Config, ConfigView};
use crate::hardware::{HardwareInfo, HardwareView};
use crate::models;
use crate::models::{HfModel, ModelView};
use crate::params;
use crate::params::{LlamaCppParams, ModelRequirements, ParamsView, RequirementsView};
use crate::share;
use crate::text;

verus! {

/// The tabs.
#[derive(Debug, Clone, Copy, PartialEq, Eq, Structural)]
pub enum AppTab {
    Hardware,
    Parameters,
    Models,
    Settings,
}

/// Something that is loaded in the background.
#[derive(Debug)]
pub enum LoadState<T> {
    Loading,
    Ready(T),
    Error(String),
}

/// Which entry of the list of models is selected.
#[derive(Debug, Clone, Copy, PartialEq, Eq, Structural)]
pub struct ListState {
    pub selected: Option<usize>,
}

/// How far a download has come.
#[derive(Debug)]
pub struct DownloadState {
    pub model_id: String,
    pub downloaded: u64,
    pub total: Option<u64>,
}

/// The state of the application. `P` is the type of a path.
#[verifier::reject_recursive_types(P)]
pub struct App<P> {
    pub current_tab: AppTab,
    pub hw_state: LoadState<HardwareInfo>,
    pub params: Option<LlamaCppParams>,
    pub models_state: LoadState<Vec<HfModel>>,
    pub model_list_state: ListState,
    /// The weights of the models that are on the disk, by model id.
    pub installed: StringHashMap<P>,
    /// The models that are on the disk, whatever is searched for.
    pub installed_models: Vec<HfModel>,
    pub should_quit: bool,
    pub config: Config,
    /// Whether the path of llama.cpp is being edited.
    pub settings_editing: bool,
    pub settings_input: String,
    /// What the last launch or download came to.
    pub launch_status: Option<String>,
    /// The download that is going on; there is one at most.
    pub download: Option<DownloadState>,
    /// What is searched for; without it models are recommended.
    pub search_query: Option<String>,
    /// Whether the search text is being edited.
    pub search_editing: bool,
    pub search_input: String,
}

// ---------------------------------------------------------------------------
// Models
// ---------------------------------------------------------------------------

/// Something that is loaded in the background, as a mathematical value.
#[verifier::ext_equal]
pub enum LoadView<T> {
    Loading,
    Ready(T),
    Error(Seq<char>),
}

/// A download as a mathematical value.
#[verifier::ext_equal]
pub struct DownloadView {
    pub model_id: Seq<char>,
    pub downloaded: u64,
    pub total: Option<u64>,
}

impl View for DownloadState {
    type V = DownloadView;

    open spec fn view(&self) -> DownloadView {
        DownloadView {
            model_id: self.model_id@,
            downloaded: self.downloaded,
            total: self.total,
        }
    }
}

/// The state of the application as a mathematical value.
#[verifier::ext_equal]
pub struct AppView<P> {
    pub current_tab: AppTab,
    pub hw: LoadView<HardwareView>,
    pub params: Option<ParamsView>,
    pub models: LoadView<Seq<ModelView>>,
    pub selected: Option<usize>,
    pub installed: Map<Seq<char>, P>,
    pub installed_models: Seq<ModelView>,
    pub should_quit: bool,
    pub config: ConfigView,
    pub settings_editing: bool,
    pub settings_input: Seq<char>,
    pub launch_status: Option<Seq<char>>,
    pub download: Option<DownloadView>,
    pub search_query: Option<Seq<char>>,
    pub search_editing: bool,
    pub search_input: Seq<char>,
}

/// The view of what was found out about the machine.
pub open spec fn hw_view(s: LoadState<HardwareInfo>) -> LoadView<HardwareView> {
    match s {
        LoadState::Loading => LoadView::Loading,
        LoadState::Ready(hw) => LoadView::Ready(hw@),
        LoadState::Error(e) => LoadView::Error(e@),
    }
}

/// The view of the models that were found.
pub open spec fn models_view(s: LoadState<Vec<HfModel>>) -> LoadView<Seq<ModelView>> {
    match s {
        LoadState::Loading => LoadView::Loading,
        LoadState::Ready(m) => LoadView::Ready(models::model_views(m@)),
        LoadState::Error(e) => LoadView::Error(e@),
    }
}

/// The view of parameters that may be missing.
pub open spec fn params_view(p: Option<LlamaCppParams>) -> Option<ParamsView> {
    match p {
        Some(p) => Some(p@),
        None => None,
    }
}

/// The view of a download that may be missing.
pub open spec fn download_view(d: Option<DownloadState>) -> Option<DownloadView> {
    match d {
        Some(d) => Some(d@),
        None => None,
    }
}

impl<P> View for App<P> {
    type V = AppView<P>;

    open spec fn view(&self) -> AppView<P> {
        AppView {
            current_tab: self.current_tab,
            hw: hw_view(self.hw_state),
            params: params_view(self.params),
            models: models_view(self.models_state),
            selected: self.model_list_state.selected,
            installed: self.installed@,
            installed_models: models::model_views(self.installed_models@),
            should_quit: self.should_quit,
            config: self.config@,
            settings_editing: self.settings_editing,
            settings_input: self.settings_input@,
            launch_status: models::text_view(self.launch_status),
            download: download_view(self.download),
            search_query: models::text_view(self.search_query),
            search_editing: self.search_editing,
            search_input: self.search_input@,
        }
    }
}

/// One of the models has this id.
pub open spec fn has_id(s: Seq<ModelView>, model_id: Seq<char>) -> bool {
    exists|i: int| 0 <= i < s.len() && (#[trigger] s[i]).model_id == model_id
}

/// The models whose ids are not among `hidden`.
pub open spec fn without_ids(s: Seq<ModelView>, hidden: Set<Seq<char>>) -> Seq<ModelView>
    decreases s.len(),
{
    if s.len() == 0 {
        Seq::empty()
    } else if hidden.contains(s.last().model_id) {
        without_ids(s.drop_last(), hidden)
    } else {
        without_ids(s.drop_last(), hidden).push(s.last())
    }
}

/// The first model with this id.
pub open spec fn first_with_id(s: Seq<ModelView>, model_id: Seq<char>) -> Option<ModelView>
    decreases s.len(),
{
    if s.len() == 0 {
        None
    } else if s[0].model_id == model_id {
        Some(s[0])
    } else {
        first_with_id(s.drop_first(), model_id)
    }
}

/// The label of a quantization, or `unknown`.
pub open spec fn label_or_unknown(quant: Option<Seq<char>>) -> Seq<char> {
    match quant {
        Some(q) => q,
        None => "unknown"@,
    }
}

/// What a model needs on a machine with this memory for models.
pub open spec fn requirements_on(memory: u64, m: ModelView) -> RequirementsView {
    let quant = m.best_quant(share::nine_tenths(memory as nat) as u64);
    RequirementsView {
        file_size_bytes: match quant {
            Some(q) => match models::quant_size(m.files(), q) {
                Some(size) => size,
                None => 0,
            },
            None => 0,
        },
        num_layers: models::layers_hinted(m.description()),
        quantization: label_or_unknown(quant),
    }
}

/// A text, or nothing where it is missing.
pub open spec fn or_empty(s: Option<Seq<char>>) -> Seq<char> {
    match s {
        Some(t) => t,
        None => Seq::empty(),
    }
}

/// A text without the white space around it, where something is left.
pub open spec fn trimmed_or_none(s: Seq<char>) -> Option<Seq<char>> {
    if text::trimmed(s).len() == 0 {
        None
    } else {
        Some(text::trimmed(s))
    }
}

impl<P> AppView<P> {
    /// The models that are recommended or were found; none while there are none.
    pub open spec fn found_models(self) -> Seq<ModelView> {
        match self.models {
            LoadView::Ready(m) => m,
            _ => Seq::empty(),
        }
    }

    /// The ids of the installed models.
    pub open spec fn installed_ids(self) -> Set<Seq<char>> {
        Set::new(|id: Seq<char>| has_id(self.installed_models, id))
    }

    /// The ids of what is not new: of the installed models, and of those with a
    /// file on the disk.
    pub open spec fn old_ids(self) -> Set<Seq<char>> {
        Set::new(
            |id: Seq<char>| has_id(self.installed_models, id) || self.installed.contains_key(id),
        )
    }

    /// The installed models, and behind them those that are recommended or were
    /// found and are not among them.
    pub open spec fn known_models(self) -> Seq<ModelView> {
        self.installed_models + without_ids(self.found_models(), self.installed_ids())
    }

    /// The list of models: all that are known, or, where something is searched
    /// for, what was found and is new.
    pub open spec fn displayed(self) -> Seq<ModelView> {
        if self.search_query is None {
            self.known_models()
        } else {
            without_ids(self.found_models(), self.old_ids())
        }
    }

    pub open spec fn selected_model(self) -> Option<ModelView> {
        match self.selected {
            Some(i) => if i < self.displayed().len() {
                Some(self.displayed()[i as int])
            } else {
                None
            },
            None => None,
        }
    }

    /// The best quantization of a model for the machine, once that is known.
    pub open spec fn best_quant_for(self, m: ModelView) -> Option<Seq<char>> {
        match self.hw {
            LoadView::Ready(hw) => m.best_quant(
                share::nine_tenths(hw.model_memory() as nat) as u64,
            ),
            _ => None,
        }
    }

    /// The parameters for the machine and the selected model, once the machine
    /// is known.
    pub open spec fn recomputed(self) -> AppView<P> {
        match self.hw {
            LoadView::Ready(hw) => AppView {
                params: Some(
                    params::params_for(
                        hw,
                        match self.selected_model() {
                            Some(m) => Some(requirements_on(hw.model_memory(), m)),
                            None => None,
                        },
                    ),
                ),
                ..self
            },
            _ => self,
        }
    }

    /// The state with the entry `i` selected.
    pub open spec fn selecting(self, i: int) -> AppView<P> {
        AppView { selected: Some(i as usize), ..self }.recomputed()
    }

    /// The state with the next entry selected, the first one behind the last.
    pub open spec fn next(self) -> AppView<P> {
        let len = self.displayed().len();
        if len == 0 {
            self
        } else {
            match self.selected {
                Some(i) => self.selecting((i + 1) % (len as int)),
                None => self.selecting(0),
            }
        }
    }

    /// The state with the previous entry selected, the last one in front of the
    /// first.
    pub open spec fn prev(self) -> AppView<P> {
        let len = self.displayed().len();
        if len == 0 {
            self
        } else {
            match self.selected {
                Some(i) => self.selecting(
                    if i == 0 {
                        len - 1
                    } else {
                        i - 1
                    },
                ),
                None => self.selecting(len - 1),
            }
        }
    }

    /// The state with a message on what was done.
    pub open spec fn saying(self, status: Seq<char>) -> AppView<P> {
        AppView { launch_status: Some(status), ..self }
    }

    pub open spec fn searching(self) -> AppView<P> {
        AppView { search_input: or_empty(self.search_query), search_editing: true, ..self }
    }

    pub open spec fn search_cancelled(self) -> AppView<P> {
        AppView { search_input: Seq::empty(), search_editing: false, ..self }
    }

    pub open spec fn editing_path(self) -> AppView<P> {
        AppView {
            settings_input: or_empty(self.config.llama_cpp_path),
            settings_editing: true,
            ..self
        }
    }

    pub open spec fn path_cancelled(self) -> AppView<P> {
        AppView { settings_input: Seq::empty(), settings_editing: false, ..self }
    }

    pub open spec fn path_confirmed(self) -> AppView<P> {
        AppView {
            config: ConfigView {
                llama_cpp_path: trimmed_or_none(self.settings_input),
                ..self.config
            },
            ..self.path_cancelled()
        }
    }
}

/// The state in which the application starts.
pub open spec fn initial<P>(config: ConfigView) -> AppView<P> {
    AppView {
        current_tab: AppTab::Hardware,
        hw: LoadView::Loading,
        params: None,
        models: LoadView::Loading,
        selected: Some(0),
        installed: Map::empty(),
        installed_models: Seq::empty(),
        should_quit: false,
        config,
        settings_editing: false,
        settings_input: Seq::empty(),
        launch_status: None,
        download: None,
        search_query: None,
        search_editing: false,
        search_input: Seq::empty(),
    }
}

/// The views of a sequence of references to models.
pub open spec fn ref_views(s: Seq<&HfModel>) -> Seq<ModelView> {
    s.map_values(|m: &HfModel| m@)
}

// ---------------------------------------------------------------------------
// Changes
// ---------------------------------------------------------------------------

impl ListState {
    pub fn select(&mut self, index: Option<usize>)
        ensures
            final(self).selected == index,
    {
        self.selected = index;
    }

    pub fn selected(&self) -> (index: Option<usize>)
        ensures
            index == self.selected,
    {
        self.selected
    }
}

fn push_ref<'a>(list: &mut Vec<&'a HfModel>, m: &'a HfModel)
    ensures
        ref_views(final(list)@) == ref_views(old(list)@).push(m@),
{
    let ghost before = list@;
    list.push(m);
    assert(ref_views(before.push(m)) =~= ref_views(before).push(m@));
}

impl<P> App<P> {
    /// The application at its start, with the settings that were kept.
    pub fn new(config: Config) -> (app: App<P>)
        ensures
            app@ == initial::<P>(config@),
    {
        let app = App {
            current_tab: AppTab::Hardware,
            hw_state: LoadState::Loading,
            params: None,
            models_state: LoadState::Loading,
            model_list_state: ListState { selected: Some(0) },
            installed: StringHashMap::new(),
            installed_models: Vec::new(),
            should_quit: false,
            config,
            settings_editing: false,
            settings_input: String::new(),
            launch_status: None,
            download: None,
            search_query: None,
            search_editing: false,
            search_input: String::new(),
        };
        assert(app@ =~= initial::<P>(config@));
        app
    }

    fn is_among_installed(&self, model_id: &str) -> (r: bool)
        ensures
            r == has_id(self@.installed_models, model_id@),
    {
        let ghost own = self@.installed_models;
        for i in 0..self.installed_models.len()
            invariant
                own == models::model_views(self.installed_models@),
                forall|j: int| 0 <= j < i ==> (#[trigger] own[j]).model_id != model_id@,
        {
            assert(own[i as int] == self.installed_models@[i as int]@);
            if text::same_text(self.installed_models[i].model_id.as_str(), model_id) {
                return true;
            }
        }
        false
    }

    fn push_installed<'a>(&'a self, list: &mut Vec<&'a HfModel>)
        ensures
            ref_views(final(list)@) == ref_views(old(list)@) + self@.installed_models,
    {
        let ghost own = self@.installed_models;
        let ghost first = ref_views(list@);
        assert(first + own.take(0) =~= first);
        for i in 0..self.installed_models.len()
            invariant
                own == models::model_views(self.installed_models@),
                ref_views(list@) == first + own.take(i as int),
        {
            push_ref(list, &self.installed_models[i]);
            assert((first + own.take(i as int)).push(own[i as int]) =~= first + own.take(i + 1));
        }
        assert(own.take(own.len() as int) =~= own);
    }

    fn push_found<'a>(&'a self, list: &mut Vec<&'a HfModel>, new_only: bool)
        ensures
            ref_views(final(list)@) == ref_views(old(list)@) + without_ids(
                self@.found_models(),
                if new_only {
                    self@.old_ids()
                } else {
                    self@.installed_ids()
                },
            ),
    {
        let ghost first = ref_views(list@);
        let ghost hidden = if new_only {
            self@.old_ids()
        } else {
            self@.installed_ids()
        };
        match &self.models_state {
            LoadState::Ready(found) => {
                let ghost all = models::model_views(found@);
                assert(first + without_ids(all.take(0), hidden) =~= first);
                for i in 0..found.len()
                    invariant
                        all == models::model_views(found@),
                        hidden == (if new_only {
                            self@.old_ids()
                        } else {
                            self@.installed_ids()
                        }),
                        ref_views(list@) == first + without_ids(all.take(i as int), hidden),
                {
                    proof {
                        assert(all.take(i + 1).drop_last() =~= all.take(i as int));
                        assert(all.take(i + 1).last() == found@[i as int]@);
                    }
                    let id = found[i].model_id.as_str();
                    let hide = self.is_among_installed(id) || (new_only
                        && self.installed.contains_key(id));
                    assert(hide == hidden.contains(id@));
                    if !hide {
                        push_ref(list, &found[i]);
                    }
                    assert(ref_views(list@) =~= first + without_ids(all.take(i + 1), hidden));
                }
                assert(all.take(all.len() as int) =~= all);
            },
            _ => {
                assert(first + without_ids(self@.found_models(), hidden) =~= first);
            },
        }
    }

    /// The list of models: the installed ones, and behind them those that are
    /// recommended and are not among them, so that no model is there twice.
    /// Where something is searched for it is what was found and is new.
    pub fn display_models(&self) -> (list: Vec<&HfModel>)
        ensures
            ref_views(list@) == self@.displayed(),
    {
        let mut list: Vec<&HfModel> = Vec::new();
        let searching = self.search_query.is_some();
        if !searching {
            self.push_installed(&mut list);
        }
        self.push_found(&mut list, searching);
        assert(ref_views(list@) =~= self@.displayed());
        list
    }

    /// Selects the next model of the list, and the first one behind the last.
    pub fn next_model(&mut self)
        ensures
            final(self)@ == old(self)@.next(),
    {
        let len: usize = self.display_models().len();
        assert(len == self@.displayed().len());
        if len == 0 {
            return;
        }
        let i: usize = match self.model_list_state.selected() {
            Some(i) => {
                proof {
                    vstd::arithmetic::div_mod::lemma_add_mod_noop(i as int, 1, len as int);
                    vstd::arithmetic::div_mod::lemma_mod_bound(i as int, len as int);
                    if len > 1 {
                        vstd::arithmetic::div_mod::lemma_small_mod(1, len as nat);
                    }
                }
                (i % len + 1) % len
            },
            None => 0,
        };
        self.model_list_state.select(Some(i));
        self.recompute_params();
    }

    /// Selects the previous model of the list, and the last one in front of the
    /// first.
    pub fn prev_model(&mut self)
        ensures
            final(self)@ == old(self)@.prev(),
    {
        let len: usize = self.display_models().len();
        assert(len == self@.displayed().len());
        if len == 0 {
            return;
        }
        let i: usize = match self.model_list_state.selected() {
            Some(i) => if i == 0 {
                len - 1
            } else {
                i - 1
            },
            None => len - 1,
        };
        self.model_list_state.select(Some(i));
        self.recompute_params();
    }

    /// The selected model.
    pub fn selected_model(&self) -> (model: Option<&HfModel>)
        ensures
            model_view(model) == self@.selected_model(),
    {
        match self.model_list_state.selected() {
            None => None,
            Some(i) => {
                let list = self.display_models();
                assert(list@.len() == self@.displayed().len());
                if i < list.len() {
                    assert(ref_views(list@)[i as int] == list@[i as int]@);
                    Some(list[i])
                } else {
                    None
                }
            },
        }
    }

    /// The model with this id among the installed ones and those that are
    /// recommended or were found, whatever is selected or searched for.
    pub fn find_model(&self, model_id: &str) -> (model: Option<&HfModel>)
        ensures
            model_view(model) == first_with_id(self@.known_models(), model_id@),
    {
        let mut list: Vec<&HfModel> = Vec::new();
        self.push_installed(&mut list);
        self.push_found(&mut list, false);
        let ghost all = self@.known_models();
        assert(ref_views(list@) =~= all);
        assert(all.skip(0) =~= all);
        for i in 0..list.len()
            invariant
                all == ref_views(list@),
                all == self@.known_models(),
                first_with_id(all, model_id@) == first_with_id(all.skip(i as int), model_id@),
        {
            assert(all.skip(i as int)[0] == list@[i as int]@);
            assert(all.skip(i as int).drop_first() =~= all.skip(i + 1));
            if text::same_text(list[i].model_id.as_str(), model_id) {
                return Some(list[i]);
            }
        }
        None
    }

    /// The best quantization of a model for nine tenths of the machine's memory
    /// for models, once the machine is known.
    pub fn best_quant_for(&self, model: &HfModel) -> (quant: Option<&'static str>)
        ensures
            match quant {
                Some(q) => self@.best_quant_for(model@) == Some(q@),
                None => self@.best_quant_for(model@) is None,
            },
    {
        match &self.hw_state {
            LoadState::Ready(hw) => {
                let budget = share::usable_share(hw.model_memory_bytes());
                model.best_quant_for_memory(budget)
            },
            _ => None,
        }
    }

    /// Computes the parameters anew for the machine and the selected model.
    /// Nothing happens while the machine is not known.
    pub fn recompute_params(&mut self)
        ensures
            final(self)@ == old(self)@.recomputed(),
    {
        let computed = match &self.hw_state {
            LoadState::Ready(hw) => {
                let needs = match self.selected_model() {
                    Some(m) => Some(requirements_for(hw, m)),
                    None => None,
                };
                match &needs {
                    Some(n) => params::compute(hw, Some(n)),
                    None => params::compute(hw, None),
                }
            },
            _ => {
                return ;
            },
        };
        self.params = Some(computed);
        assert(self@ =~= old(self)@.recomputed());
    }

    /// Begins to edit the search text, with what is searched for at present.
    pub fn start_search(&mut self)
        ensures
            final(self)@ == old(self)@.searching(),
    {
        self.search_input = text_or_empty(&self.search_query);
        self.search_editing = true;
        assert(self@ =~= old(self)@.searching());
    }

    /// Leaves the search text as it was.
    pub fn cancel_search_editing(&mut self)
        ensures
            final(self)@ == old(self)@.search_cancelled(),
    {
        self.search_editing = false;
        self.search_input = String::new();
        assert(self@ =~= old(self)@.search_cancelled());
    }

    /// Begins to edit the path of llama.cpp, with what is set at present.
    pub fn start_editing_path(&mut self)
        ensures
            final(self)@ == old(self)@.editing_path(),
    {
        self.settings_input = text_or_empty(&self.config.llama_cpp_path);
        self.settings_editing = true;
        assert(self@ =~= old(self)@.editing_path());
    }

    /// Leaves the path of llama.cpp as it was.
    pub fn cancel_editing_path(&mut self)
        ensures
            final(self)@ == old(self)@.path_cancelled(),
    {
        self.settings_editing = false;
        self.settings_input = String::new();
        assert(self@ =~= old(self)@.path_cancelled());
    }

    /// Takes the edited path of llama.cpp over, or none where nothing but white
    /// space was entered. The settings are then to be saved.
    pub fn confirm_editing_path(&mut self)
        ensures
            final(self)@ == old(self)@.path_confirmed(),
    {
        self.config.llama_cpp_path = text_or_none(text::trim(self.settings_input.as_str()));
        self.cancel_editing_path();
        assert(self@ =~= old(self)@.path_confirmed());
    }

    /// Where the weights of a model are, if it is installed.
    pub fn installed_path(&self, model_id: &str) -> (path: Option<&P>)
        ensures
            match path {
                Some(p) => self@.installed.contains_key(model_id@) && *p
                    == self@.installed[model_id@],
                None => !self@.installed.contains_key(model_id@),
            },
    {
        self.installed.get(model_id)
    }
}

/// The view of a model that may be missing.
pub open spec fn model_view(m: Option<&HfModel>) -> Option<ModelView> {
    match m {
        Some(m) => Some(m@),
        None => None,
    }
}

/// What a model needs on a machine, in its best quantization there.
pub fn requirements_for(hw: &HardwareInfo, model: &HfModel) -> (needs: ModelRequirements)
    ensures
        needs@ == requirements_on(hw@.model_memory(), model@),
{
    let budget = share::usable_share(hw.model_memory_bytes());
    let quant = model.best_quant_for_memory(budget);
    let size: Option<u64> = match quant {
        Some(q) => model.quant_size_bytes(q),
        None => None,
    };
    let file_size_bytes: u64 = match size {
        Some(n) => n,
        None => 0,
    };
    let label = match quant {
        Some(q) => q,
        None => "unknown",
    };
    ModelRequirements {
        file_size_bytes,
        num_layers: model.estimated_layers(),
        quantization: label.to_owned(),
    }
}

/// A copy of a text, or nothing where it is missing.
pub fn text_or_empty(s: &Option<String>) -> (r: String)
    ensures
        r@ == or_empty(models::text_view(*s)),
{
    match s {
        Some(t) => t.clone(),
        None => String::new(),
    }
}

/// A text, unless it is empty.
pub fn text_or_none(s: String) -> (r: Option<String>)
    ensures
        models::text_view(r) == (if s@.len() == 0 {
            None
        } else {
            Some(s@)
        }),
{
    if s.as_str().is_empty() {
        None
    } else {
        Some(s)
    }
}

// ---------------------------------------------------------------------------
// Laws
// ---------------------------------------------------------------------------

/// No two of the models have the same id.
pub open spec fn distinct_ids(s: Seq<ModelView>) -> bool {
    forall|i: int, j: int|
        0 <= i < j < s.len() ==> (#[trigger] s[i]).model_id != (#[trigger] s[j]).model_id
}

proof fn lemma_without_ids(s: Seq<ModelView>, hidden: Set<Seq<char>>)
    ensures
        forall|j: int|
            0 <= j < without_ids(s, hidden).len() ==> {
                let m = #[trigger] without_ids(s, hidden)[j];
                s.contains(m) && !hidden.contains(m.model_id)
            },
        forall|m: ModelView|
            s.contains(m) && !hidden.contains(m.model_id) ==> #[trigger] without_ids(
                s,
                hidden,
            ).contains(m),
        distinct_ids(s) ==> distinct_ids(without_ids(s, hidden)),
    decreases s.len(),
{
    if s.len() > 0 {
        let rest = s.drop_last();
        lemma_without_ids(rest, hidden);
        let before = without_ids(rest, hidden);
        let all = without_ids(s, hidden);
        assert forall|j: int| 0 <= j < all.len() implies {
            let m = #[trigger] all[j];
            s.contains(m) && !hidden.contains(m.model_id)
        } by {
            let m = all[j];
            if j < before.len() {
                assert(m == before[j]);
                let k = choose|k: int| 0 <= k < rest.len() && rest[k] == m;
                assert(s[k] == m);
            } else {
                assert(s[s.len() - 1] == m);
            }
        }
        assert forall|m: ModelView|
            s.contains(m) && !hidden.contains(m.model_id) implies #[trigger] all.contains(m) by {
            let k = choose|k: int| 0 <= k < s.len() && s[k] == m;
            if k < rest.len() {
                assert(rest[k] == m);
                assert(before.contains(m));
                let j = choose|j: int| 0 <= j < before.len() && before[j] == m;
                assert(all[j] == m);
            } else {
                assert(all[all.len() - 1] == m);
            }
        }
        if distinct_ids(s) {
            assert(distinct_ids(rest)) by {
                assert forall|i: int, j: int| 0 <= i < j < rest.len() implies (
                #[trigger] rest[i]).model_id != (#[trigger] rest[j]).model_id by {
                    assert(rest[i] == s[i] && rest[j] == s[j]);
                }
            }
            assert forall|i: int, j: int| 0 <= i < j < all.len() implies (
            #[trigger] all[i]).model_id != (#[trigger] all[j]).model_id by {
                assert(all[i] == before[i]);
                if j < before.len() {
                    assert(all[j] == before[j]);
                } else {
                    let k = choose|k: int| 0 <= k < rest.len() && rest[k] == before[i];
                    assert(s[k] == all[i]);
                    assert(s[s.len() - 1] == all[j]);
                }
            }
        }
    }
}

/// Where something is searched for, no model of the list is installed: a search
/// is for something new.
pub proof fn law_search_shows_what_is_new<P>(v: AppView<P>, j: int)
    requires
        v.search_query is Some,
        0 <= j < v.displayed().len(),
    ensures
        !v.installed.contains_key(v.displayed()[j].model_id),
        !has_id(v.installed_models, v.displayed()[j].model_id),
{
    lemma_without_ids(v.found_models(), v.old_ids());
    assert(!v.old_ids().contains(v.displayed()[j].model_id));
}

/// Without a search every model that is installed or recommended is in the list,
/// be its file on the disk or not: as it is, or, where an installed one has its
/// id, as that one.
pub proof fn law_every_known_model_is_shown<P>(v: AppView<P>, m: ModelView)
    requires
        v.search_query is None,
        v.installed_models.contains(m) || v.found_models().contains(m),
    ensures
        has_id(v.displayed(), m.model_id),
        v.installed_models.contains(m) || !has_id(v.installed_models, m.model_id)
            ==> v.displayed().contains(m),
{
    let own = v.installed_models;
    let others = without_ids(v.found_models(), v.installed_ids());
    let all = v.displayed();
    lemma_without_ids(v.found_models(), v.installed_ids());
    if own.contains(m) {
        let k = choose|k: int| 0 <= k < own.len() && own[k] == m;
        assert(all[k] == m);
    } else if has_id(own, m.model_id) {
        let k = choose|k: int| 0 <= k < own.len() && (#[trigger] own[k]).model_id == m.model_id;
        assert(all[k] == own[k]);
    } else {
        assert(!v.installed_ids().contains(m.model_id));
        assert(others.contains(m));
        let k = choose|k: int| 0 <= k < others.len() && others[k] == m;
        assert(all[own.len() + k] == m);
    }
}

/// No model is shown twice, where neither the installed models nor those that
/// are recommended or were found hold one twice. Without a search the list
/// begins with the installed models.
pub proof fn law_no_model_is_shown_twice<P>(v: AppView<P>)
    requires
        distinct_ids(v.installed_models),
        distinct_ids(v.found_models()),
    ensures
        distinct_ids(v.displayed()),
        v.search_query is None ==> v.displayed().take(v.installed_models.len() as int)
            == v.installed_models,
{
    let own = v.installed_models;
    let others = without_ids(v.found_models(), v.installed_ids());
    lemma_without_ids(v.found_models(), v.installed_ids());
    lemma_without_ids(v.found_models(), v.old_ids());
    if v.search_query is None {
        let all = v.displayed();
        assert forall|i: int, j: int| 0 <= i < j < all.len() implies (#[trigger] all[i]).model_id
            != (#[trigger] all[j]).model_id by {
            if j < own.len() {
                assert(all[i] == own[i] && all[j] == own[j]);
            } else {
                assert(all[j] == others[j - own.len()]);
                assert(!v.installed_ids().contains(all[j].model_id));
                if i < own.len() {
                    assert(all[i] == own[i]);
                } else {
                    assert(all[i] == others[i - own.len()]);
                }
            }
        }
        assert(all.take(own.len() as int) =~= own);
    }
}

/// The steps to the next and to the previous model undo each other and stay
/// within the list.
pub proof fn law_next_and_previous_undo_each_other<P>(v: AppView<P>)
    requires
        v.displayed().len() <= usize::MAX,
        v.selected matches Some(i) && i < v.displayed().len(),
    ensures
        v.next().prev().selected == v.selected,
        v.prev().next().selected == v.selected,
        v.next().selected matches Some(i) && i < v.displayed().len(),
        v.prev().selected matches Some(i) && i < v.displayed().len(),
        v.next().displayed() == v.displayed(),
        v.prev().displayed() == v.displayed(),
{
    let len = v.displayed().len() as int;
    let i = v.selected->0 as int;
    assert((i + 1) % len == (if i + 1 == len {
        0
    } else {
        i + 1
    })) by (nonlinear_arith)
        requires
            0 <= i < len,
    ;
    let back = v.prev();
    assert(back.displayed() == v.displayed());
    let k = back.selected->0 as int;
    assert((k + 1) % len == (if k + 1 == len {
        0
    } else {
        k + 1
    })) by (nonlinear_arith)
        requires
            0 <= k < len,
    ;
    assert(v.next().displayed() == v.displayed());
}

/// After a step through the list the parameters are those for the model that is
/// then selected.
pub proof fn law_parameters_follow_the_selection<P>(v: AppView<P>)
    requires
        v.displayed().len() > 0,
    ensures
        v.next() == v.next().recomputed(),
        v.prev() == v.prev().recomputed(),
{
    let a = AppView { selected: v.next().selected, ..v };
    assert(a.recomputed().displayed() == a.displayed());
    assert(v.next() =~= v.next().recomputed());
    let b = AppView { selected: v.prev().selected, ..v };
    assert(b.recomputed().displayed() == b.displayed());
    assert(v.prev() =~= v.prev().recomputed());
}

/// To begin to edit and to cancel changes nothing that is kept, and leaves no
/// input behind.
pub proof fn law_cancelled_editing_changes_nothing<P>(v: AppView<P>)
    ensures
        v.editing_path().path_cancelled() == (AppView {
            settings_editing: false,
            settings_input: Seq::empty(),
            ..v
        }),
        v.searching().search_cancelled() == (AppView {
            search_editing: false,
            search_input: Seq::empty(),
            ..v
        }),
{
}

/// To begin to edit the path and to confirm it at once keeps the path, where it
/// has no white space around it and is not empty.
pub proof fn law_confirmed_unchanged_path_is_kept<P>(v: AppView<P>)
    requires
        v.config.llama_cpp_path matches Some(p) ==> trimmed_or_none(p) == Some(p),
    ensures
        v.editing_path().path_confirmed().config == v.config,
{
    if v.config.llama_cpp_path is None {
        assert(text::trim_front(Seq::<char>::empty()) =~= Seq::empty());
        assert(text::trimmed(Seq::<char>::empty()) =~= Seq::empty());
    }
    assert(v.editing_path().path_confirmed().config =~= v.config);
}

/// The parameters are computed for the machine and the selected model, as soon as
/// the machine is known, and nothing else changes.
pub proof fn law_parameters_are_for_the_selection<P>(v: AppView<P>)
    ensures
        !(v.hw is Ready) ==> v.recomputed() == v,
        v.hw matches LoadView::Ready(hw) ==> {
            &&& v.recomputed() == (AppView { params: v.recomputed().params, ..v })
            &&& v.selected_model() is None ==> v.recomputed().params == Some(
                params::params_for(hw, None),
            )
            &&& v.selected_model() matches Some(m) ==> v.recomputed().params == Some(
                params::params_for(hw, Some(requirements_on(hw.model_memory(), m))),
            )
        },
{
}

/// The selected model is the one at the selected place of the list, where the list
/// goes that far.
pub proof fn law_selected_model<P>(v: AppView<P>)
    ensures
        v.selected is None ==> v.selected_model() is None,
        v.selected matches Some(i) ==> (if i < v.displayed().len() {
            v.selected_model() == Some(v.displayed()[i as int])
        } else {
            v.selected_model() is None
        }),
{
}

/// What a model needs on a machine: the size of the file of the quantization that
/// is best for nine tenths of the memory, that quantization, and the layers that
/// its description hints at. Without such a file the size counts as nothing.
pub proof fn law_needs_of_a_model(memory: u64, m: ModelView)
    requires
        memory < 0x2_0000_0000_0000,
    ensures
        ({
            let needs = requirements_on(memory, m);
            let best = m.best_quant((9 * memory / 10) as u64);
            &&& needs.num_layers == models::layers_hinted(m.description())
            &&& best is None ==> needs.file_size_bytes == 0 && needs.quantization == "unknown"@
            &&& best matches Some(q) ==> needs.quantization == q && (models::quant_size(
                m.files(),
                q,
            ) matches Some(size) ==> needs.file_size_bytes == size)
            &&& needs.file_size_bytes > 0 ==> (best matches Some(q) && models::quant_size(
                m.files(),
                q,
            ) == Some(needs.file_size_bytes))
        }),
{
    share::law_nine_tenths_is_exact(memory as nat);
}

/// The best quantization for the machine is the best for nine tenths of its memory
/// for models, and there is none while the machine is not known.
pub proof fn law_quantization_for_the_machine<P>(v: AppView<P>, m: ModelView)
    ensures
        !(v.hw is Ready) ==> v.best_quant_for(m) is None,
        v.hw matches LoadView::Ready(hw) ==> (hw.model_memory() < 0x2_0000_0000_0000
            ==> v.best_quant_for(m) == m.best_quant((9 * hw.model_memory() / 10) as u64)),
{
    if let LoadView::Ready(hw) = v.hw {
        if hw.model_memory() < 0x2_0000_0000_0000 {
            share::law_nine_tenths_is_exact(hw.model_memory() as nat);
        }
    }
}

/// A step goes to the neighbour of the selected place, and round the ends of the
/// list; without a selection it goes to the first or the last place. In an empty
/// list there is none.
pub proof fn law_steps_in_numbers<P>(v: AppView<P>)
    requires
        v.displayed().len() <= usize::MAX,
    ensures
        ({
            let n = v.displayed().len();
            &&& n == 0 ==> v.next() == v && v.prev() == v
            &&& n > 0 && v.selected is None ==> v.next().selected == Some(0usize)
                && v.prev().selected == Some((n - 1) as usize)
            &&& v.selected matches Some(i) ==> {
                &&& i + 1 < n ==> v.next().selected == Some((i + 1) as usize)
                &&& i + 1 == n ==> v.next().selected == Some(0usize)
                &&& i == 0 && n > 0 ==> v.prev().selected == Some((n - 1) as usize)
                &&& 0 < i && n > 0 ==> v.prev().selected == Some((i - 1) as usize)
            }
            &&& v.next() == (AppView {
                selected: v.next().selected,
                params: v.next().params,
                ..v
            })
            &&& v.prev() == (AppView {
                selected: v.prev().selected,
                params: v.prev().params,
                ..v
            })
        }),
{
    let n = v.displayed().len() as int;
    if n > 0 {
        if let Some(i) = v.selected {
            if i + 1 < n {
                vstd::arithmetic::div_mod::lemma_small_mod((i + 1) as nat, n as nat);
            } else if i + 1 == n {
                vstd::arithmetic::div_mod::lemma_mod_self_0(n);
            }
        }
    }
    assert(v.next() =~= AppView { selected: v.next().selected, params: v.next().params, ..v });
    assert(v.prev() =~= AppView { selected: v.prev().selected, params: v.prev().params, ..v });
}

/// The model with an id is the first of a list that has it.
pub proof fn law_first_with_id(s: Seq<ModelView>, model_id: Seq<char>)
    ensures
        match first_with_id(s, model_id) {
            Some(m) => exists|i: int|
                0 <= i < s.len() && #[trigger] s[i] == m && m.model_id == model_id && forall|j: int|
                    0 <= j < i ==> (#[trigger] s[j]).model_id != model_id,
            None => forall|j: int| 0 <= j < s.len() ==> (#[trigger] s[j]).model_id != model_id,
        },
    decreases s.len(),
{
    if s.len() > 0 && s[0].model_id != model_id {
        let rest = s.drop_first();
        law_first_with_id(rest, model_id);
        match first_with_id(rest, model_id) {
            Some(m) => {
                let i = choose|i: int|
                    0 <= i < rest.len() && #[trigger] rest[i] == m && m.model_id == model_id
                        && forall|j: int|
                        0 <= j < i ==> (#[trigger] rest[j]).model_id != model_id;
                assert(s[i + 1] == m);
                assert forall|j: int| 0 <= j < i + 1 implies (#[trigger] s[j]).model_id
                    != model_id by {
                    if j > 0 {
                        assert(rest[j - 1] == s[j]);
                    }
                }
            },
            None => {
                assert forall|j: int| 0 <= j < s.len() implies (#[trigger] s[j]).model_id
                    != model_id by {
                    if j > 0 {
                        assert(rest[j - 1] == s[j]);
                    }
                }
            },
        }
    }
}

/// Models are left out of a list one by one, by their ids alone, and the others
/// keep their order.
pub proof fn law_left_out_by_id(
    a: Seq<ModelView>,
    b: Seq<ModelView>,
    one: ModelView,
    hidden: Set<Seq<char>>,
)
    ensures
        without_ids(a + b, hidden) == without_ids(a, hidden) + without_ids(b, hidden),
        hidden.contains(one.model_id) ==> without_ids(seq![one], hidden).len() == 0,
        !hidden.contains(one.model_id) ==> without_ids(seq![one], hidden) == seq![one],
        without_ids(Seq::empty(), hidden).len() == 0,
    decreases b.len(),
{
    if b.len() == 0 {
        assert(a + b =~= a);
        assert(without_ids(a, hidden) + without_ids(b, hidden) =~= without_ids(a, hidden));
    } else {
        assert((a + b).drop_last() =~= a + b.drop_last());
        law_left_out_by_id(a, b.drop_last(), one, hidden);
        assert(without_ids(a + b, hidden) =~= without_ids(a, hidden) + without_ids(b, hidden));
    }
    assert(seq![one].drop_last() =~= Seq::empty());
    assert(seq![one].last() == one);
    assert(without_ids(seq![one].drop_last(), hidden) =~= Seq::empty());
    if !hidden.contains(one.model_id) {
        assert(without_ids(seq![one], hidden) =~= seq![one]);
    }
}

/// The list, in full: without a search the installed models, as they are, and then
/// of those that were found the ones whose id none of them has; with a search of
/// those that were found the ones that are in no way installed.
pub proof fn law_what_the_list_holds<P>(v: AppView<P>, m: ModelView, j: int)
    ensures
        v.search_query is None ==> v.displayed().len() >= v.installed_models.len() && (0 <= j
            < v.installed_models.len() ==> v.displayed()[j] == v.installed_models[j]) && (
        v.installed_models.len() <= j < v.displayed().len() ==> (v.models matches LoadView::Ready(
            found,
        ) && found.contains(v.displayed()[j])) && !has_id(
            v.installed_models,
            v.displayed()[j].model_id,
        )),
        v.search_query is Some && 0 <= j < v.displayed().len() ==> (v.models matches LoadView::Ready(
            found,
        ) && found.contains(v.displayed()[j])),
        v.search_query is Some && (v.models matches LoadView::Ready(found) && found.contains(m))
            && !has_id(v.installed_models, m.model_id) && !v.installed.contains_key(m.model_id)
            ==> v.displayed().contains(m),
        !(v.models is Ready) && v.search_query is Some ==> v.displayed().len() == 0,
        !(v.models is Ready) && v.search_query is None ==> v.displayed() == v.installed_models,
{
    let own = v.installed_models;
    let others = without_ids(v.found_models(), v.installed_ids());
    lemma_without_ids(v.found_models(), v.installed_ids());
    lemma_without_ids(v.found_models(), v.old_ids());
    if v.search_query is None && own.len() <= j < v.displayed().len() {
        assert(v.displayed()[j] == others[j - own.len()]);
        assert(!v.installed_ids().contains(v.displayed()[j].model_id));
    }
    if v.search_query is Some && !has_id(own, m.model_id) && !v.installed.contains_key(m.model_id) {
        assert(!v.old_ids().contains(m.model_id));
    }
    if !(v.models is Ready) {
        assert(own + others =~= own);
    }
}

/// What is known whatever is searched for is the list without a search.
pub proof fn law_what_is_known<P>(v: AppView<P>)
    ensures
        v.known_models() == (AppView { search_query: None, ..v }).displayed(),
{
    let w = AppView { search_query: None, ..v };
    assert(w.installed_ids() =~= v.installed_ids());
}

/// An input counts without the white space around it, and not at all where there
/// is nothing else.
pub proof fn law_input_without_white_space(s: Seq<char>)
    ensures
        trimmed_or_none(s) matches Some(t) ==> t == text::trimmed(s) && t.len() > 0,
        trimmed_or_none(s) is None <==> forall|i: int|
            0 <= i < s.len() ==> text::is_white_space(#[trigger] s[i]),
{
    text::law_trimmed(s);
    let (i, j) = choose|i: int, j: int|
        0 <= i <= j <= s.len() && text::trimmed(s) == #[trigger] s.subrange(i, j) && forall|k: int|
            0 <= k < i || j <= k < s.len() ==> text::is_white_space(#[trigger] s[k]);
    if i < j {
        assert(text::trimmed(s).first() == s[i]);
    }
}

/// Editing begins with what is set at present. Confirming takes the input over
/// without the white space around it, cancelling keeps what was set, and either
/// ends the editing and empties the input.
pub proof fn law_editing<P>(v: AppView<P>)
    ensures
        v.editing_path().settings_editing,
        v.config.llama_cpp_path matches Some(p) ==> v.editing_path().settings_input == p,
        v.config.llama_cpp_path is None ==> v.editing_path().settings_input.len() == 0,
        v.editing_path().config == v.config,
        v.path_confirmed() == (AppView {
            config: v.path_confirmed().config,
            settings_editing: false,
            settings_input: Seq::empty(),
            ..v
        }),
        v.path_confirmed().config.llama_cpp_path == trimmed_or_none(v.settings_input),
        v.path_confirmed().config.last_launched_model_id == v.config.last_launched_model_id,
        v.path_cancelled() == (AppView {
            settings_editing: false,
            settings_input: Seq::empty(),
            ..v
        }),
        v.searching().search_editing,
        v.search_query matches Some(q) ==> v.searching().search_input == q,
        v.search_query is None ==> v.searching().search_input.len() == 0,
        v.searching() == (AppView {
            search_editing: true,
            search_input: v.searching().search_input,
            ..v
        }),
        v.editing_path() == (AppView {
            settings_editing: true,
            settings_input: v.editing_path().settings_input,
            ..v
        }),
        v.search_cancelled() == (AppView {
            search_editing: false,
            search_input: Seq::empty(),
            ..v
        }),
{
}

/// A message is shown as it is, and nothing else changes.
pub proof fn law_message<P>(v: AppView<P>, status: Seq<char>)
    ensures
        v.saying(status) == (AppView { launch_status: Some(status), ..v }),
{
}

/// The application starts on the first tab, with everything still to be found out,
/// nothing being edited, and the settings that were kept.
pub proof fn law_start<P>(config: ConfigView)
    ensures
        ({
            let v = initial::<P>(config);
            &&& v.current_tab == AppTab::Hardware
            &&& v.hw is Loading
            &&& v.models is Loading
            &&& v.params is None
            &&& v.selected == Some(0usize)
            &&& v.installed == Map::<Seq<char>, P>::empty()
            &&& v.installed_models.len() == 0
            &&& !v.should_quit && !v.settings_editing && !v.search_editing
            &&& v.config == config
            &&& v.settings_input.len() == 0 && v.search_input.len() == 0
            &&& v.launch_status is None && v.download is None && v.search_query is None
        }),
{
}

/// What the contracts speak of are the fields themselves.
pub proof fn law_views_hold_the_fields<P>(a: App<P>, d: DownloadState)
    ensures
        a@.current_tab == a.current_tab,
        a.hw_state matches LoadState::Ready(hw) ==> a@.hw == LoadView::Ready(hw@),
        a.hw_state is Loading ==> a@.hw is Loading,
        a.hw_state matches LoadState::Error(e) ==> a@.hw == LoadView::<HardwareView>::Error(e@),
        a.models_state matches LoadState::Ready(m) ==> a@.models == LoadView::Ready(
            models::model_views(m@),
        ),
        a.models_state is Loading ==> a@.models is Loading,
        a.models_state matches LoadState::Error(e) ==> a@.models == LoadView::<
            Seq<ModelView>,
        >::Error(e@),
        a.params matches Some(p) ==> a@.params == Some(p@),
        a.params is None ==> a@.params is None,
        a@.selected == a.model_list_state.selected,
        a@.installed == a.installed@,
        a@.installed_models == models::model_views(a.installed_models@),
        a@.should_quit == a.should_quit,
        a@.config == a.config@,
        a@.settings_editing == a.settings_editing,
        a@.settings_input == a.settings_input@,
        a.launch_status matches Some(s) ==> a@.launch_status == Some(s@),
        a.launch_status is None ==> a@.launch_status is None,
        a.download matches Some(x) ==> a@.download == Some(x@),
        a.download is None ==> a@.download is None,
        d@.model_id == d.model_id@,
        d@.downloaded == d.downloaded,
        d@.total == d.total,
        a.search_query matches Some(q) ==> a@.search_query == Some(q@),
        a.search_query is None ==> a@.search_query is None,
        a@.search_editing == a.search_editing,
        a@.search_input == a.search_input@,
        a.config.llama_cpp_path matches Some(p) ==> a@.config.llama_cpp_path == Some(p@),
        a.config.llama_cpp_path is None ==> a@.config.llama_cpp_path is None,
        a.config.last_launched_model_id matches Some(p) ==> a@.config.last_launched_model_id
            == Some(p@),
        a.config.last_launched_model_id is None ==> a@.config.last_launched_model_id is None,
{
}

/// The views of a list of models are the models' own.
pub proof fn law_views_hold_the_list(list: Seq<&HfModel>, i: int)
    ensures
        ref_views(list).len() == list.len(),
        0 <= i < list.len() ==> ref_views(list)[i] == list[i]@ && model_view(Some(list[i])) == Some(
            list[i]@,
        ),
        model_view(None) is None,
{
}

/// A text that may be missing counts as empty where it is, and a quantization that
/// may be missing as unknown.
pub proof fn law_missing_texts(s: Seq<char>)
    ensures
        or_empty(Some(s)) == s,
        or_empty(None).len() == 0,
        label_or_unknown(Some(s)) == s,
        label_or_unknown(None) == "unknown"@,
{
}

} // verus!
