//! What a key, a finished background task or the outcome of an action changes
//! in the state of the application, and what is to be done next.

use vstd::prelude::*;
use vstd::string::*;

#[allow(unused_imports)]
use crate::app;
use crate::app::{App, AppTab, AppView, DownloadState, DownloadView, LoadState, LoadView};
#[allow(unused_imports)]
use crate::config::ConfigView;
use crate::hardware::HardwareInfo;
#[allow(unused_imports)]
use crate::installed;
#[allow(unused_imports)]
use crate::installed::{CachedRepo, LocalFile};
use crate::launch;
use crate::models;
use crate::models::{HfModel, ModelView};
use crate::params;
use crate::params::{LlamaCppParams, ParamsView};
#[allow(unused_imports)]
use crate::share;
use crate::text;

verus! {

/// The keys that mean something to the application.
#[derive(Debug)]
pub enum Key {
    Enter,
    Esc,
    Backspace,
    Tab,
    Up,
    Down,
    Char(char),
    Other,
}

/// A key event of the terminal.
#[derive(Debug)]
pub struct KeyEvent {
    pub key: Key,
    /// Whether the control key is held.
    pub control: bool,
    /// Whether any other modifier is held.
    pub other_modifier: bool,
    /// Whether the key was let go rather than pressed.
    pub release: bool,
}

/// What a background task reports. `P` is the type of a path.
pub enum AppMsg<P> {
    HardwareReady(HardwareInfo),
    HardwareError(String),
    ModelsReady(Vec<HfModel>),
    ModelsError(String),
    /// Models on the disk, by id, with their weights.
    InstalledScanned(Vec<(String, P)>),
    InstalledModelsReady(Vec<HfModel>),
    DownloadProgress { model_id: String, downloaded: u64, total: Option<u64> },
    DownloadComplete { model: HfModel, path: P },
    DownloadError { model_id: String, error: String },
    DownloadCancelled { model_id: String },
    LaunchExitedEarly { model_id: String, code: Option<i32> },
}

/// A launch that is to be made: of the executable at the path `exe`, on the
/// weights of the model `model_id`, with these parameters.
#[derive(Debug)]
pub struct LaunchRequest {
    pub exe: String,
    pub model_id: String,
    pub params: LlamaCppParams,
}

/// What is to be done outside the state.
#[derive(Debug)]
pub enum Action {
    Nothing,
    /// Write the settings; `settings_not_saved` takes a failure.
    SaveSettings,
    /// Ask for the models that fit, among the results for `query` if there is
    /// one.
    FetchModels { mem_limit: u64, query: Option<String> },
    /// Look which of these models are on the disk.
    ScanCandidates(Vec<HfModel>),
    /// Detect the hardware and look for installed models.
    Refresh,
    /// Ask the download that is going on to stop.
    CancelDownload,
    /// Start llama.cpp; `launch_finished` takes the outcome.
    Launch(LaunchRequest),
    /// Resolve the executable; `executable_checked` takes the outcome.
    CheckExecutable { exe: String, model: HfModel },
    /// Download this file of the model.
    StartDownload { model: HfModel, url: String },
    /// Write the settings; `launch_saved` takes the outcome.
    SaveLaunched { pid: u32 },
}

// ---------------------------------------------------------------------------
// Models
// ---------------------------------------------------------------------------

/// An action as a mathematical value.
#[verifier::ext_equal]
pub enum ActionView {
    Nothing,
    SaveSettings,
    FetchModels { mem_limit: u64, query: Option<Seq<char>> },
    ScanCandidates(Seq<ModelView>),
    Refresh,
    CancelDownload,
    Launch { exe: Seq<char>, model_id: Seq<char>, params: ParamsView },
    CheckExecutable { exe: Seq<char>, model: ModelView },
    StartDownload { model: ModelView, url: Seq<char> },
    SaveLaunched { pid: u32 },
}

impl View for Action {
    type V = ActionView;

    open spec fn view(&self) -> ActionView {
        match self {
            Action::Nothing => ActionView::Nothing,
            Action::SaveSettings => ActionView::SaveSettings,
            Action::FetchModels { mem_limit, query } => ActionView::FetchModels {
                mem_limit: *mem_limit,
                query: models::text_view(*query),
            },
            Action::ScanCandidates(m) => ActionView::ScanCandidates(models::model_views(m@)),
            Action::Refresh => ActionView::Refresh,
            Action::CancelDownload => ActionView::CancelDownload,
            Action::Launch(r) => ActionView::Launch {
                exe: r.exe@,
                model_id: r.model_id@,
                params: r.params@,
            },
            Action::CheckExecutable { exe, model } => ActionView::CheckExecutable {
                exe: exe@,
                model: model@,
            },
            Action::StartDownload { model, url } => ActionView::StartDownload {
                model: model@,
                url: url@,
            },
            Action::SaveLaunched { pid } => ActionView::SaveLaunched { pid: *pid },
        }
    }
}

/// The message where the path of llama.cpp is not set.
pub open spec fn path_missing() -> Seq<char> {
    "Set the llama.cpp path in the Settings tab [4] first."@
}

/// The message where the machine is not known.
pub open spec fn hardware_missing() -> Seq<char> {
    "Hardware not detected yet."@
}

/// The tab behind a tab.
pub open spec fn tab_after(tab: AppTab) -> AppTab {
    match tab {
        AppTab::Hardware => AppTab::Parameters,
        AppTab::Parameters => AppTab::Models,
        AppTab::Models => AppTab::Settings,
        AppTab::Settings => AppTab::Hardware,
    }
}

/// A map with further pairs; of two pairs with one key the later counts.
pub open spec fn extended<P>(m: Map<Seq<char>, P>, pairs: Seq<(String, P)>) -> Map<Seq<char>, P>
    decreases pairs.len(),
{
    if pairs.len() == 0 {
        m
    } else {
        extended(m, pairs.drop_last()).insert(pairs.last().0@, pairs.last().1)
    }
}

impl<P> AppView<P> {
    /// A launch of a model that is installed.
    pub open spec fn launching(self, m: ModelView) -> (AppView<P>, ActionView) {
        match self.config.llama_cpp_path {
            None => (self.saying(path_missing()), ActionView::Nothing),
            Some(exe) => match self.hw {
                LoadView::Ready(hw) => (
                    self,
                    ActionView::Launch {
                        exe,
                        model_id: m.model_id,
                        params: params::params_for(
                            hw,
                            Some(app::requirements_on(hw.model_memory(), m)),
                        ),
                    },
                ),
                _ => (self.saying(hardware_missing()), ActionView::Nothing),
            },
        }
    }

    /// The request to run a model: an installed one is launched. For another
    /// one the executable is checked first, so that a wrong path shows before
    /// the download and not behind it.
    pub open spec fn running(self, m: ModelView) -> (AppView<P>, ActionView) {
        if self.installed.contains_key(m.model_id) {
            self.launching(m)
        } else if self.download is Some {
            (self.saying("A download is already in progress."@), ActionView::Nothing)
        } else {
            match self.config.llama_cpp_path {
                None => (self.saying(path_missing()), ActionView::Nothing),
                Some(exe) => (self, ActionView::CheckExecutable { exe, model: m }),
            }
        }
    }

    /// The start of a download of a model in this quantization.
    pub open spec fn downloading(self, m: ModelView, quant: Seq<char>) -> AppView<P> {
        AppView {
            launch_status: Some("Downloading "@ + m.model_id + " ("@ + quant + ")…"@),
            download: Some(DownloadView { model_id: m.model_id, downloaded: 0, total: None }),
            ..self
        }
    }

    /// The outcome of the check of the executable for a model that is to be
    /// downloaded.
    pub open spec fn checked(self, m: ModelView, problem: Option<Seq<char>>) -> (
        AppView<P>,
        ActionView,
    ) {
        if self.download is Some {
            (self.saying("A download is already in progress."@), ActionView::Nothing)
        } else {
            match problem {
                Some(e) => (self.saying("Launch failed: "@ + e), ActionView::Nothing),
                None => match self.best_quant_for(m) {
                    None => (
                        self.saying("No suitable quantization found for your hardware."@),
                        ActionView::Nothing,
                    ),
                    Some(quant) => match m.url_for(quant) {
                        None => (
                            self.saying("No "@ + quant + " download available for this model."@),
                            ActionView::Nothing,
                        ),
                        Some(url) => (
                            self.downloading(m, quant),
                            ActionView::StartDownload { model: m, url },
                        ),
                    },
                },
            }
        }
    }

    /// The request to run the model that was launched last.
    pub open spec fn relaunching(self) -> (AppView<P>, ActionView) {
        match self.config.last_launched_model_id {
            None => (self.saying("No previously launched model yet."@), ActionView::Nothing),
            Some(id) => match app::first_with_id(self.known_models(), id) {
                None => (
                    self.saying(
                        "Last launched model ("@ + id
                            + ") isn't in the current list — refresh with [r]."@,
                    ),
                    ActionView::Nothing,
                ),
                Some(m) => self.running(m),
            },
        }
    }

    /// The outcome of a launch: the process, or the reason for a failure.
    pub open spec fn launched(
        self,
        model_id: Seq<char>,
        pid: Option<u32>,
        problem: Seq<char>,
    ) -> (AppView<P>, ActionView) {
        match pid {
            Some(pid) => (
                AppView {
                    config: ConfigView { last_launched_model_id: Some(model_id), ..self.config },
                    ..self
                },
                ActionView::SaveLaunched { pid },
            ),
            None => (self.saying("Launch failed: "@ + problem), ActionView::Nothing),
        }
    }

    /// The search text is submitted.
    pub open spec fn search_submitted(self) -> (AppView<P>, ActionView) {
        let query = app::trimmed_or_none(self.search_input);
        let asked = AppView { search_query: query, ..self.search_cancelled() };
        match self.hw {
            LoadView::Ready(hw) => (
                AppView { models: LoadView::Loading, selected: Some(0), ..asked }.recomputed(),
                ActionView::FetchModels { mem_limit: hw.model_memory(), query },
            ),
            _ => (asked.saying(hardware_missing()), ActionView::Nothing),
        }
    }

    /// Everything is detected and asked for anew. What was installed is
    /// forgotten, so that a model that is gone does not stay in the list.
    pub open spec fn refreshed(self) -> AppView<P> {
        AppView {
            hw: LoadView::Loading,
            models: LoadView::Loading,
            installed: Map::empty(),
            installed_models: Seq::empty(),
            params: None,
            ..self
        }
    }

    /// A key while the path of llama.cpp is being edited.
    pub open spec fn path_key(self, key: Key) -> (AppView<P>, ActionView) {
        match key {
            Key::Enter => (self.path_confirmed(), ActionView::SaveSettings),
            Key::Esc => (self.path_cancelled(), ActionView::Nothing),
            Key::Backspace => (
                AppView { settings_input: without_last(self.settings_input), ..self },
                ActionView::Nothing,
            ),
            Key::Char(c) => (
                AppView { settings_input: self.settings_input.push(c), ..self },
                ActionView::Nothing,
            ),
            _ => (self, ActionView::Nothing),
        }
    }

    /// A key while the search text is being edited.
    pub open spec fn search_key(self, key: Key) -> (AppView<P>, ActionView) {
        match key {
            Key::Enter => self.search_submitted(),
            Key::Esc => (self.search_cancelled(), ActionView::Nothing),
            Key::Backspace => (
                AppView { search_input: without_last(self.search_input), ..self },
                ActionView::Nothing,
            ),
            Key::Char(c) => (
                AppView { search_input: self.search_input.push(c), ..self },
                ActionView::Nothing,
            ),
            _ => (self, ActionView::Nothing),
        }
    }

    /// The state with this tab in front.
    pub open spec fn showing(self, tab: AppTab) -> AppView<P> {
        AppView { current_tab: tab, ..self }
    }

    /// A character while nothing is being edited.
    pub open spec fn global_char(self, c: char, control_alone: bool) -> (AppView<P>, ActionView) {
        let models = self.current_tab == AppTab::Models;
        if c == 'q' || (c == 'c' && control_alone) {
            (AppView { should_quit: true, ..self }, ActionView::Nothing)
        } else if c == '1' {
            (self.showing(AppTab::Hardware), ActionView::Nothing)
        } else if c == '2' {
            (self.showing(AppTab::Parameters), ActionView::Nothing)
        } else if c == '3' {
            (self.showing(AppTab::Models), ActionView::Nothing)
        } else if c == '4' {
            (self.showing(AppTab::Settings), ActionView::Nothing)
        } else if c == 'j' && models {
            (self.next(), ActionView::Nothing)
        } else if c == 'k' && models {
            (self.prev(), ActionView::Nothing)
        } else if c == 'l' && models {
            match self.selected_model() {
                Some(m) => self.running(m),
                None => (self.saying("No model selected."@), ActionView::Nothing),
            }
        } else if c == 'L' {
            self.relaunching()
        } else if c == '/' && models {
            (self.searching(), ActionView::Nothing)
        } else if c == 'x' && self.download is Some {
            (self, ActionView::CancelDownload)
        } else if c == 'e' && self.current_tab == AppTab::Settings {
            (self.editing_path(), ActionView::Nothing)
        } else if c == 'r' {
            (self.refreshed(), ActionView::Refresh)
        } else {
            (self, ActionView::Nothing)
        }
    }

    /// A key while nothing is being edited.
    pub open spec fn global_key(self, key: Key, control_alone: bool) -> (AppView<P>, ActionView) {
        match key {
            Key::Char(c) => self.global_char(c, control_alone),
            Key::Tab => (self.showing(tab_after(self.current_tab)), ActionView::Nothing),
            Key::Down => if self.current_tab == AppTab::Models {
                (self.next(), ActionView::Nothing)
            } else {
                (self, ActionView::Nothing)
            },
            Key::Up => if self.current_tab == AppTab::Models {
                (self.prev(), ActionView::Nothing)
            } else {
                (self, ActionView::Nothing)
            },
            Key::Enter => if self.current_tab == AppTab::Settings {
                (self.editing_path(), ActionView::Nothing)
            } else {
                (self, ActionView::Nothing)
            },
            _ => (self, ActionView::Nothing),
        }
    }

    /// A key that was pressed, the message of what was done before being gone.
    pub open spec fn pressed(self, key: Key, control_alone: bool) -> (AppView<P>, ActionView) {
        if self.current_tab == AppTab::Settings && self.settings_editing {
            self.path_key(key)
        } else if self.current_tab == AppTab::Models && self.search_editing {
            self.search_key(key)
        } else {
            self.global_key(key, control_alone)
        }
    }

    /// An event of the keyboard. A key that is let go does nothing; any other
    /// removes the message of what was done before, and may leave one of its
    /// own.
    pub open spec fn after_key(self, event: KeyEvent) -> (AppView<P>, ActionView) {
        if event.release {
            (self, ActionView::Nothing)
        } else {
            AppView { launch_status: None, ..self }.pressed(
                event.key,
                event.control && !event.other_modifier,
            )
        }
    }

    /// A report of a background task.
    pub open spec fn after_msg(self, msg: AppMsg<P>) -> (AppView<P>, ActionView) {
        match msg {
            AppMsg::HardwareReady(hw) => (
                AppView { hw: LoadView::Ready(hw@), ..self }.recomputed(),
                ActionView::FetchModels {
                    mem_limit: hw@.model_memory(),
                    query: self.search_query,
                },
            ),
            AppMsg::HardwareError(e) => (
                AppView { hw: LoadView::Error(e@), ..self },
                ActionView::Nothing,
            ),
            AppMsg::ModelsReady(m) => (
                AppView {
                    models: LoadView::Ready(models::model_views(m@)),
                    selected: Some(0),
                    ..self
                }.recomputed(),
                ActionView::ScanCandidates(models::model_views(m@)),
            ),
            AppMsg::ModelsError(e) => (
                AppView { models: LoadView::Error(e@), ..self }.recomputed(),
                ActionView::Nothing,
            ),
            AppMsg::InstalledScanned(pairs) => (
                AppView { installed: extended(self.installed, pairs@), ..self }.recomputed(),
                ActionView::Nothing,
            ),
            AppMsg::InstalledModelsReady(m) => (
                AppView { installed_models: models::model_views(m@), ..self }.recomputed(),
                ActionView::Nothing,
            ),
            AppMsg::DownloadProgress { model_id, downloaded, total } => (
                match self.download {
                    Some(d) => if d.model_id == model_id@ {
                        AppView {
                            download: Some(DownloadView { downloaded, total, ..d }),
                            ..self
                        }
                    } else {
                        self
                    },
                    None => self,
                },
                ActionView::Nothing,
            ),
            AppMsg::DownloadComplete { model, path } => AppView {
                download: None,
                installed: self.installed.insert(model@.model_id, path),
                ..self
            }.recomputed().launching(model@),
            AppMsg::DownloadError { model_id, error } => (
                AppView { download: None, ..self }.saying(
                    "Download failed for "@ + model_id@ + ": "@ + error@,
                ),
                ActionView::Nothing,
            ),
            AppMsg::DownloadCancelled { model_id } => (
                AppView { download: None, ..self }.saying(
                    "Download of "@ + model_id@ + " cancelled."@,
                ),
                ActionView::Nothing,
            ),
            AppMsg::LaunchExitedEarly { model_id, code } => (
                self.saying(exited_early(model_id@, code)),
                ActionView::Nothing,
            ),
        }
    }
}

/// A text without its last character.
pub open spec fn without_last(s: Seq<char>) -> Seq<char> {
    if s.len() == 0 {
        s
    } else {
        s.drop_last()
    }
}

/// The message for a process that ended at once.
pub open spec fn exited_early(model_id: Seq<char>, code: Option<i32>) -> Seq<char> {
    "llama.cpp for "@ + model_id + " exited immediately (code "@ + match code {
        Some(c) => text::signed_decimal(c as int),
        None => "unknown"@,
    } + ") — check its console window for details."@
}

// ---------------------------------------------------------------------------
// Launching
// ---------------------------------------------------------------------------

impl<P> App<P> {
    fn say(&mut self, status: String)
        ensures
            final(self)@ == old(self)@.saying(status@),
    {
        self.launch_status = Some(status);
        assert(self@ =~= old(self)@.saying(status@));
    }

    /// The launch of a model that is installed, with parameters for that very
    /// model, which need not be the selected one.
    pub fn launch_now(&mut self, model: &HfModel) -> (action: Action)
        ensures
            (final(self)@, action@) == old(self)@.launching(model@),
    {
        let exe = match &self.config.llama_cpp_path {
            Some(p) => p.clone(),
            None => {
                self.say("Set the llama.cpp path in the Settings tab [4] first.".to_owned());
                return Action::Nothing;
            },
        };
        let computed = match &self.hw_state {
            LoadState::Ready(hw) => {
                let needs = app::requirements_for(hw, model);
                Some(params::compute(hw, Some(&needs)))
            },
            _ => None,
        };
        match computed {
            Some(params) => Action::Launch(
                LaunchRequest { exe, model_id: model.model_id.clone(), params },
            ),
            None => {
                self.say("Hardware not detected yet.".to_owned());
                Action::Nothing
            },
        }
    }

    /// Takes the outcome of a launch. A model that was launched is remembered
    /// as the last one.
    pub fn launch_finished(&mut self, model_id: String, outcome: Result<u32, String>) -> (action:
        Action)
        ensures
            (final(self)@, action@) == match outcome {
                Ok(pid) => old(self)@.launched(model_id@, Some(pid), Seq::empty()),
                Err(e) => old(self)@.launched(model_id@, None, e@),
            },
    {
        match outcome {
            Ok(pid) => {
                self.config.last_launched_model_id = Some(model_id);
                assert(self@ =~= old(self)@.launched(model_id@, Some(pid), Seq::empty()).0);
                Action::SaveLaunched { pid }
            },
            Err(e) => {
                self.say("Launch failed: ".to_owned().concat(e.as_str()));
                Action::Nothing
            },
        }
    }

    /// Takes the outcome of writing the settings after a launch.
    pub fn launch_saved(&mut self, pid: u32, problem: Option<String>)
        ensures
            final(self)@ == old(self)@.saying(
                match problem {
                    None => launch::launched_text(pid),
                    Some(e) => launch::launched_text(pid)
                        + " (warning: failed to save last-launched model: "@ + e@ + ")"@,
                },
            ),
    {
        let message = launch::launched_message(pid);
        match problem {
            None => self.say(message),
            Some(e) => self.say(
                message.concat(" (warning: failed to save last-launched model: ").concat(
                    e.as_str(),
                ).concat(")"),
            ),
        }
    }

    /// Takes a failure to write the settings after the path was edited.
    pub fn settings_not_saved(&mut self, problem: &str)
        ensures
            final(self)@ == old(self)@.saying("Failed to save settings: "@ + problem@),
    {
        self.say("Failed to save settings: ".to_owned().concat(problem));
    }
}

/// The request to run a model.
pub fn launch_or_download<P>(app: &mut App<P>, model: HfModel) -> (action: Action)
    ensures
        (final(app)@, action@) == old(app)@.running(model@),
{
    if app.installed.contains_key(model.model_id.as_str()) {
        return app.launch_now(&model);
    }
    if app.download.is_some() {
        app.say("A download is already in progress.".to_owned());
        return Action::Nothing;
    }
    match models::clone_text(&app.config.llama_cpp_path) {
        None => {
            app.say("Set the llama.cpp path in the Settings tab [4] first.".to_owned());
            Action::Nothing
        },
        Some(exe) => Action::CheckExecutable { exe, model },
    }
}

/// Takes the outcome of the check of the executable for a model that is to be
/// downloaded: the reason for a failure, if there was one.
pub fn executable_checked<P>(app: &mut App<P>, model: HfModel, problem: Option<String>) -> (action:
    Action)
    ensures
        (final(app)@, action@) == old(app)@.checked(model@, models::text_view(problem)),
{
    if app.download.is_some() {
        app.say("A download is already in progress.".to_owned());
        return Action::Nothing;
    }
    if let Some(e) = problem {
        app.say("Launch failed: ".to_owned().concat(e.as_str()));
        return Action::Nothing;
    }
    let quant = match app.best_quant_for(&model) {
        Some(q) => q,
        None => {
            app.say("No suitable quantization found for your hardware.".to_owned());
            return Action::Nothing;
        },
    };
    let url = match model.download_url_for(quant) {
        Some(u) => u,
        None => {
            app.say("No ".to_owned().concat(quant).concat(" download available for this model."));
            return Action::Nothing;
        },
    };
    app.launch_status = Some(
        "Downloading ".to_owned().concat(model.model_id.as_str()).concat(" (").concat(quant).concat(
            ")…",
        ),
    );
    app.download = Some(
        DownloadState { model_id: model.model_id.clone(), downloaded: 0, total: None },
    );
    assert(app@ =~= old(app)@.downloading(model@, quant@));
    Action::StartDownload { model, url }
}

/// The request to run the model that was launched last.
pub fn relaunch_last<P>(app: &mut App<P>) -> (action: Action)
    ensures
        (final(app)@, action@) == old(app)@.relaunching(),
{
    let model_id = match models::clone_text(&app.config.last_launched_model_id) {
        Some(id) => id,
        None => {
            app.say("No previously launched model yet.".to_owned());
            return Action::Nothing;
        },
    };
    let found = match app.find_model(model_id.as_str()) {
        Some(m) => Some(m.clone()),
        None => None,
    };
    match found {
        Some(model) => launch_or_download(app, model),
        None => {
            app.say(
                "Last launched model (".to_owned().concat(model_id.as_str()).concat(
                    ") isn't in the current list — refresh with [r].",
                ),
            );
            Action::Nothing
        },
    }
}

// ---------------------------------------------------------------------------
// Keys
// ---------------------------------------------------------------------------

fn handle_path_key<P>(app: &mut App<P>, key: Key) -> (action: Action)
    ensures
        (final(app)@, action@) == old(app)@.path_key(key),
{
    match key {
        Key::Enter => {
            app.confirm_editing_path();
            return Action::SaveSettings;
        },
        Key::Esc => {
            app.cancel_editing_path();
        },
        Key::Backspace => {
            app.settings_input.pop();
        },
        Key::Char(c) => {
            app.settings_input.push(c);
        },
        _ => {},
    }
    assert(app@ =~= old(app)@.path_key(key).0);
    Action::Nothing
}

fn submit_search<P>(app: &mut App<P>) -> (action: Action)
    ensures
        (final(app)@, action@) == old(app)@.search_submitted(),
{
    let query = app::text_or_none(text::trim(app.search_input.as_str()));
    app.cancel_search_editing();
    app.search_query = models::clone_text(&query);
    let mem_limit: Option<u64> = match &app.hw_state {
        LoadState::Ready(hw) => Some(hw.model_memory_bytes()),
        _ => None,
    };
    match mem_limit {
        Some(mem_limit) => {
            app.models_state = LoadState::Loading;
            app.model_list_state.select(Some(0));
            assert(app@ =~= AppView {
                models: LoadView::Loading,
                selected: Some(0),
                search_query: app::trimmed_or_none(old(app)@.search_input),
                ..old(app)@.search_cancelled()
            });
            app.recompute_params();
            Action::FetchModels { mem_limit, query }
        },
        None => {
            app.say("Hardware not detected yet.".to_owned());
            assert(app@ =~= old(app)@.search_submitted().0);
            Action::Nothing
        },
    }
}

fn handle_search_key<P>(app: &mut App<P>, key: Key) -> (action: Action)
    ensures
        (final(app)@, action@) == old(app)@.search_key(key),
{
    match key {
        Key::Enter => {
            return submit_search(app);
        },
        Key::Esc => {
            app.cancel_search_editing();
        },
        Key::Backspace => {
            app.search_input.pop();
        },
        Key::Char(c) => {
            app.search_input.push(c);
        },
        _ => {},
    }
    assert(app@ =~= old(app)@.search_key(key).0);
    Action::Nothing
}

fn refresh<P>(app: &mut App<P>)
    ensures
        final(app)@ == old(app)@.refreshed(),
{
    app.hw_state = LoadState::Loading;
    app.models_state = LoadState::Loading;
    app.installed.clear();
    app.installed_models = Vec::new();
    app.params = None;
    assert(app@ =~= old(app)@.refreshed());
}

fn run_selected<P>(app: &mut App<P>) -> (action: Action)
    ensures
        (final(app)@, action@) == match old(app)@.selected_model() {
            Some(m) => old(app)@.running(m),
            None => (old(app)@.saying("No model selected."@), ActionView::Nothing),
        },
{
    let selected = match app.selected_model() {
        Some(m) => Some(m.clone()),
        None => None,
    };
    match selected {
        Some(model) => launch_or_download(app, model),
        None => {
            app.say("No model selected.".to_owned());
            Action::Nothing
        },
    }
}

fn handle_global_char<P>(app: &mut App<P>, c: char, control_alone: bool) -> (action: Action)
    ensures
        (final(app)@, action@) == old(app)@.global_char(c, control_alone),
{
    let on_models = app.current_tab == AppTab::Models;
    if c == 'q' || (c == 'c' && control_alone) {
        app.should_quit = true;
    } else if c == '1' {
        app.current_tab = AppTab::Hardware;
    } else if c == '2' {
        app.current_tab = AppTab::Parameters;
    } else if c == '3' {
        app.current_tab = AppTab::Models;
    } else if c == '4' {
        app.current_tab = AppTab::Settings;
    } else if c == 'j' && on_models {
        app.next_model();
    } else if c == 'k' && on_models {
        app.prev_model();
    } else if c == 'l' && on_models {
        return run_selected(app);
    } else if c == 'L' {
        return relaunch_last(app);
    } else if c == '/' && on_models {
        app.start_search();
    } else if c == 'x' && app.download.is_some() {
        return Action::CancelDownload;
    } else if c == 'e' && app.current_tab == AppTab::Settings {
        app.start_editing_path();
    } else if c == 'r' {
        refresh(app);
        return Action::Refresh;
    }
    assert(app@ =~= old(app)@.global_char(c, control_alone).0);
    Action::Nothing
}

fn handle_global_key<P>(app: &mut App<P>, key: Key, control_alone: bool) -> (action: Action)
    ensures
        (final(app)@, action@) == old(app)@.global_key(key, control_alone),
{
    match key {
        Key::Char(c) => {
            return handle_global_char(app, c, control_alone);
        },
        Key::Tab => {
            app.current_tab = match app.current_tab {
                AppTab::Hardware => AppTab::Parameters,
                AppTab::Parameters => AppTab::Models,
                AppTab::Models => AppTab::Settings,
                AppTab::Settings => AppTab::Hardware,
            };
        },
        Key::Down => {
            if app.current_tab == AppTab::Models {
                app.next_model();
            }
        },
        Key::Up => {
            if app.current_tab == AppTab::Models {
                app.prev_model();
            }
        },
        Key::Enter => {
            if app.current_tab == AppTab::Settings {
                app.start_editing_path();
            }
        },
        _ => {},
    }
    assert(app@ =~= old(app)@.global_key(key, control_alone).0);
    Action::Nothing
}

/// Takes an event of the keyboard. While something is being edited the keys go
/// there; otherwise they have the meanings that the status bar shows.
pub fn handle_key_event<P>(app: &mut App<P>, event: KeyEvent) -> (action: Action)
    ensures
        (final(app)@, action@) == old(app)@.after_key(event),
{
    if event.release {
        return Action::Nothing;
    }
    app.launch_status = None;
    assert(app@ =~= AppView { launch_status: None, ..old(app)@ });
    let control_alone = event.control && !event.other_modifier;
    if app.current_tab == AppTab::Settings && app.settings_editing {
        handle_path_key(app, event.key)
    } else if app.current_tab == AppTab::Models && app.search_editing {
        handle_search_key(app, event.key)
    } else {
        handle_global_key(app, event.key, control_alone)
    }
}

// ---------------------------------------------------------------------------
// Reports
// ---------------------------------------------------------------------------

fn extend_installed<P>(app: &mut App<P>, pairs: Vec<(String, P)>)
    ensures
        final(app)@ == (AppView {
            installed: extended(old(app)@.installed, pairs@),
            ..old(app)@
        }),
{
    let ghost start = app@;
    assert(extended(start.installed, pairs@.take(0)) =~= start.installed);
    for pair in it: pairs
        invariant
            it.seq() == pairs@,
            app@ == (AppView {
                installed: extended(start.installed, pairs@.take(it.index() as int)),
                ..start
            }),
    {
        proof {
            let i = it.index() as int;
            assert(pairs@.take(i + 1).drop_last() =~= pairs@.take(i));
            assert(pairs@.take(i + 1).last() == pair);
        }
        app.installed.insert(pair.0, pair.1);
        assert(app@ =~= AppView {
            installed: extended(start.installed, pairs@.take(it.index() + 1)),
            ..start
        });
    }
    assert(pairs@.take(pairs@.len() as int) =~= pairs@);
}

fn clone_models(list: &Vec<HfModel>) -> (r: Vec<HfModel>)
    ensures
        models::model_views(r@) == models::model_views(list@),
{
    let mut r: Vec<HfModel> = Vec::new();
    for i in 0..list.len()
        invariant
            models::model_views(r@) == models::model_views(list@).take(i as int),
    {
        let ghost before = models::model_views(r@);
        r.push(list[i].clone());
        assert(models::model_views(r@) =~= before.push(list@[i as int]@));
        assert(models::model_views(list@).take(i + 1) =~= before.push(list@[i as int]@));
    }
    assert(models::model_views(list@).take(list@.len() as int) =~= models::model_views(list@));
    r
}

/// Takes a report of a background task.
pub fn handle_app_msg<P>(app: &mut App<P>, msg: AppMsg<P>) -> (action: Action)
    ensures
        (final(app)@, action@) == old(app)@.after_msg(msg),
{
    match msg {
        AppMsg::HardwareReady(hw) => {
            let mem_limit: u64 = hw.model_memory_bytes();
            let query = models::clone_text(&app.search_query);
            app.hw_state = LoadState::Ready(hw);
            assert(app@ =~= AppView { hw: LoadView::Ready(hw@), ..old(app)@ });
            app.recompute_params();
            Action::FetchModels { mem_limit, query }
        },
        AppMsg::HardwareError(e) => {
            app.hw_state = LoadState::Error(e);
            assert(app@ =~= old(app)@.after_msg(msg).0);
            Action::Nothing
        },
        AppMsg::ModelsReady(m) => {
            let candidates = clone_models(&m);
            app.model_list_state.select(Some(0));
            app.models_state = LoadState::Ready(m);
            assert(app@ =~= AppView {
                models: LoadView::Ready(models::model_views(m@)),
                selected: Some(0),
                ..old(app)@
            });
            app.recompute_params();
            Action::ScanCandidates(candidates)
        },
        AppMsg::ModelsError(e) => {
            app.models_state = LoadState::Error(e);
            assert(app@ =~= AppView { models: LoadView::Error(e@), ..old(app)@ });
            app.recompute_params();
            Action::Nothing
        },
        AppMsg::InstalledScanned(pairs) => {
            extend_installed(app, pairs);
            app.recompute_params();
            Action::Nothing
        },
        AppMsg::InstalledModelsReady(m) => {
            app.installed_models = m;
            assert(app@ =~= AppView {
                installed_models: models::model_views(m@),
                ..old(app)@
            });
            app.recompute_params();
            Action::Nothing
        },
        AppMsg::DownloadProgress { model_id, downloaded, total } => {
            let own = match &app.download {
                Some(d) => text::same_text(d.model_id.as_str(), model_id.as_str()),
                None => false,
            };
            if own {
                app.download = Some(DownloadState { model_id, downloaded, total });
            }
            assert(app@ =~= old(app)@.after_msg(msg).0);
            Action::Nothing
        },
        AppMsg::DownloadComplete { model, path } => {
            app.download = None;
            app.installed.insert(model.model_id.clone(), path);
            assert(app@ =~= AppView {
                download: None,
                installed: old(app)@.installed.insert(model@.model_id, path),
                ..old(app)@
            });
            app.recompute_params();
            app.launch_now(&model)
        },
        AppMsg::DownloadError { model_id, error } => {
            app.download = None;
            assert(app@ =~= AppView { download: None, ..old(app)@ });
            app.say(
                "Download failed for ".to_owned().concat(model_id.as_str()).concat(": ").concat(
                    error.as_str(),
                ),
            );
            Action::Nothing
        },
        AppMsg::DownloadCancelled { model_id } => {
            app.download = None;
            assert(app@ =~= AppView { download: None, ..old(app)@ });
            app.say("Download of ".to_owned().concat(model_id.as_str()).concat(" cancelled."));
            Action::Nothing
        },
        AppMsg::LaunchExitedEarly { model_id, code } => {
            let code_text = match code {
                Some(c) => text::signed_decimal_string(c),
                None => "unknown".to_owned(),
            };
            app.say(
                "llama.cpp for ".to_owned().concat(model_id.as_str()).concat(
                    " exited immediately (code ",
                ).concat(code_text.as_str()).concat(
                    ") — check its console window for details.",
                ),
            );
            Action::Nothing
        },
    }
}

/// The report on a download that did not succeed. It is known to have been
/// cancelled by the request for it, whatever went wrong.
pub fn download_failed<P>(model_id: String, cancelled: bool, error: String) -> (msg: AppMsg<P>)
    ensures
        msg == (if cancelled {
            AppMsg::<P>::DownloadCancelled { model_id }
        } else {
            AppMsg::<P>::DownloadError { model_id, error }
        }),
{
    if cancelled {
        AppMsg::DownloadCancelled { model_id }
    } else {
        AppMsg::DownloadError { model_id, error }
    }
}

/// The report on the detection of the hardware, where the task that makes it
/// broke down.
pub fn detection_broke_down<P>(cause: &str) -> (msg: AppMsg<P>)
    ensures
        msg matches AppMsg::HardwareError(e) && e@ == "hardware detection task panicked: "@ + cause@,
{
    AppMsg::HardwareError("hardware detection task panicked: ".to_owned().concat(cause))
}

// ---------------------------------------------------------------------------
// Laws
// ---------------------------------------------------------------------------

/// The tabs go round: behind the fourth comes the first again, and the three
/// between are others.
pub proof fn law_tabs_go_round(tab: AppTab)
    ensures
        tab_after(tab_after(tab_after(tab_after(tab)))) == tab,
        tab_after(tab) != tab,
        tab_after(tab_after(tab)) != tab,
        tab_after(tab_after(tab_after(tab))) != tab,
{
}

/// A key that is pressed removes the message of what was done before: what it
/// leads to does not depend on that message.
pub proof fn law_pressed_key_removes_the_old_message<P>(
    v: AppView<P>,
    old_status: Option<Seq<char>>,
    event: KeyEvent,
)
    requires
        !event.release,
    ensures
        (AppView { launch_status: old_status, ..v }).after_key(event) == v.after_key(event),
{
    let cleared = AppView { launch_status: None, ..v };
    let other = AppView { launch_status: None, ..AppView { launch_status: old_status, ..v } };
    assert(cleared =~= other);
}

/// What a key leads to keeps the download as it is, starts none, and launches
/// no model that is not installed.
pub open spec fn keeps_download<P>(v: AppView<P>, after: (AppView<P>, ActionView)) -> bool {
    &&& after.0.download == v.download
    &&& !(after.1 is StartDownload)
    &&& after.1 matches ActionView::Launch { exe, model_id, params }
        ==> after.0.installed.contains_key(model_id)
}

proof fn lemma_running_keeps_download<P>(v: AppView<P>, m: ModelView)
    ensures
        keeps_download(v, v.running(m)),
{
}

proof fn lemma_steps_keep_download<P>(v: AppView<P>)
    ensures
        v.next().download == v.download,
        v.prev().download == v.download,
{
}

proof fn lemma_char_keeps_download<P>(v: AppView<P>, c: char, control_alone: bool)
    ensures
        keeps_download(v, v.global_char(c, control_alone)),
{
    lemma_steps_keep_download(v);
    if let Some(m) = v.selected_model() {
        lemma_running_keeps_download(v, m);
    }
    if let Some(id) = v.config.last_launched_model_id {
        if let Some(m) = app::first_with_id(v.known_models(), id) {
            lemma_running_keeps_download(v, m);
        }
    }
    assert(keeps_download(v, v.relaunching()));
}

proof fn lemma_pressed_keeps_download<P>(v: AppView<P>, key: Key, control_alone: bool)
    ensures
        keeps_download(v, v.pressed(key, control_alone)),
{
    lemma_steps_keep_download(v);
    if let Key::Char(c) = key {
        lemma_char_keeps_download(v, c, control_alone);
    }
    assert(keeps_download(v, v.path_key(key)));
    assert(keeps_download(v, v.search_key(key)));
    assert(keeps_download(v, v.global_key(key, control_alone)));
}

/// There is one download at most. No key starts one, nor ends the one that is
/// going on; a report updates it or ends it; and only where there is none does
/// the check of the executable lead to one, which is then of the model that was
/// asked for.
pub proof fn law_one_download_at_a_time<P>(
    v: AppView<P>,
    event: KeyEvent,
    msg: AppMsg<P>,
    m: ModelView,
    problem: Option<Seq<char>>,
)
    ensures
        v.after_key(event).0.download == v.download,
        !(v.after_key(event).1 is StartDownload),
        v.after_msg(msg).0.download matches Some(d) ==> v.download matches Some(was) && was.model_id
            == d.model_id,
        !(v.after_msg(msg).1 is StartDownload),
        v.checked(m, problem).1 is StartDownload ==> v.download is None,
        v.checked(m, problem).1 matches ActionView::StartDownload { model, url } ==> {
            &&& model == m
            &&& v.checked(m, problem).0.download matches Some(d) && d.model_id == m.model_id
        },
        !(v.checked(m, problem).1 is StartDownload) ==> v.checked(m, problem).0.download
            == v.download,
{
    lemma_pressed_keeps_download(
        AppView { launch_status: None, ..v },
        event.key,
        event.control && !event.other_modifier,
    );
}

/// While the path of llama.cpp is being edited, a key changes the path and its
/// input and nothing else, but for the message: none of them quits, leaves the
/// tab or starts anything but the writing of the settings.
pub proof fn law_keys_go_to_the_edited_path<P>(v: AppView<P>, event: KeyEvent)
    requires
        v.current_tab == AppTab::Settings,
        v.settings_editing,
        !event.release,
    ensures
        v.after_key(event).0 == (AppView {
            settings_editing: v.after_key(event).0.settings_editing,
            settings_input: v.after_key(event).0.settings_input,
            config: ConfigView {
                llama_cpp_path: v.after_key(event).0.config.llama_cpp_path,
                ..v.config
            },
            launch_status: None,
            ..v
        }),
        v.after_key(event).1 is Nothing || (v.after_key(event).1 is SaveSettings && event.key
            is Enter),
{
    let w = v.after_key(event).0;
    assert(w.config =~= ConfigView { llama_cpp_path: w.config.llama_cpp_path, ..v.config });
    assert(w =~= AppView {
        settings_editing: w.settings_editing,
        settings_input: w.settings_input,
        config: ConfigView { llama_cpp_path: w.config.llama_cpp_path, ..v.config },
        launch_status: None,
        ..v
    });
}

/// While the search text is being edited, a key changes the search and nothing
/// that is kept: none of them quits or leaves the tab, and only the key that
/// submits it starts anything, which is a listing.
pub proof fn law_keys_go_to_the_search_text<P>(v: AppView<P>, event: KeyEvent)
    requires
        v.current_tab == AppTab::Models,
        v.search_editing,
        !event.release,
    ensures
        v.after_key(event).0 == (AppView {
            search_editing: v.after_key(event).0.search_editing,
            search_input: v.after_key(event).0.search_input,
            search_query: v.after_key(event).0.search_query,
            models: v.after_key(event).0.models,
            selected: v.after_key(event).0.selected,
            params: v.after_key(event).0.params,
            launch_status: v.after_key(event).0.launch_status,
            ..v
        }),
        !(event.key is Enter) ==> v.after_key(event).0.search_query == v.search_query
            && v.after_key(event).1 is Nothing,
        v.after_key(event).1 is Nothing || v.after_key(event).1 is FetchModels,
{
    let w = v.after_key(event).0;
    assert(w =~= AppView {
        search_editing: w.search_editing,
        search_input: w.search_input,
        search_query: w.search_query,
        models: w.models,
        selected: w.selected,
        params: w.params,
        launch_status: w.launch_status,
        ..v
    });
}

/// What the parameters depend on is the same in both states, and so are they.
pub open spec fn same_parameters<P>(v: AppView<P>, w: AppView<P>) -> bool {
    &&& w.params == v.params
    &&& w.hw == v.hw
    &&& w.selected == v.selected
    &&& w.displayed() == v.displayed()
}

proof fn lemma_current_kept<P>(v: AppView<P>, w: AppView<P>)
    requires
        v == v.recomputed(),
        same_parameters(v, w),
    ensures
        w == w.recomputed(),
{
    assert(w.selected_model() == v.selected_model());
    assert(w.recomputed().params == w.params);
    assert(w =~= w.recomputed());
}

proof fn lemma_recomputed_is_current<P>(v: AppView<P>)
    ensures
        v.recomputed() == v.recomputed().recomputed(),
{
    assert(v.recomputed().displayed() == v.displayed());
    assert(v.recomputed() =~= v.recomputed().recomputed());
}

proof fn lemma_without_hardware_current<P>(v: AppView<P>)
    requires
        !(v.hw is Ready),
    ensures
        v == v.recomputed(),
{
}

/// After a report, where the machine is known, the parameters are those for it and
/// the model that is then selected, or for it alone where none is. Those reports
/// that change the machine or the lists bring this about, and the others keep it.
pub proof fn law_parameters_follow_the_reports<P>(v: AppView<P>, msg: AppMsg<P>)
    ensures
        v == v.recomputed() ==> v.after_msg(msg).0 == v.after_msg(msg).0.recomputed(),
        msg is HardwareReady || msg is HardwareError || msg is ModelsReady || msg is ModelsError
            || msg is InstalledScanned || msg is InstalledModelsReady || msg is DownloadComplete
            ==> v.after_msg(msg).0 == v.after_msg(msg).0.recomputed(),
{
    let w = v.after_msg(msg).0;
    match msg {
        AppMsg::HardwareReady(hw) => {
            lemma_recomputed_is_current(AppView { hw: LoadView::Ready(hw@), ..v });
        },
        AppMsg::HardwareError(_) => {
            lemma_without_hardware_current(w);
        },
        AppMsg::ModelsReady(m) => {
            lemma_recomputed_is_current(
                AppView {
                    models: LoadView::Ready(models::model_views(m@)),
                    selected: Some(0),
                    ..v
                },
            );
        },
        AppMsg::ModelsError(e) => {
            lemma_recomputed_is_current(AppView { models: LoadView::Error(e@), ..v });
        },
        AppMsg::InstalledScanned(pairs) => {
            lemma_recomputed_is_current(
                AppView { installed: extended(v.installed, pairs@), ..v },
            );
        },
        AppMsg::InstalledModelsReady(m) => {
            lemma_recomputed_is_current(
                AppView { installed_models: models::model_views(m@), ..v },
            );
        },
        AppMsg::DownloadComplete { model, path } => {
            let held = AppView {
                download: None,
                installed: v.installed.insert(model@.model_id, path),
                ..v
            };
            lemma_recomputed_is_current(held);
            assert(same_parameters(held.recomputed(), w));
            lemma_current_kept(held.recomputed(), w);
        },
        _ => {
            assert(same_parameters(v, w));
            if v == v.recomputed() {
                lemma_current_kept(v, w);
            }
        },
    }
}

proof fn lemma_running_keeps_parameters<P>(v: AppView<P>, m: ModelView)
    ensures
        same_parameters(v, v.running(m).0),
{
}

proof fn lemma_relaunching_keeps_parameters<P>(v: AppView<P>)
    ensures
        same_parameters(v, v.relaunching().0),
{
    if let Some(id) = v.config.last_launched_model_id {
        if let Some(m) = app::first_with_id(v.known_models(), id) {
            lemma_running_keeps_parameters(v, m);
        }
    }
}

proof fn lemma_steps_keep_current<P>(v: AppView<P>)
    requires
        v == v.recomputed(),
    ensures
        v.next() == v.next().recomputed(),
        v.prev() == v.prev().recomputed(),
{
    if v.displayed().len() > 0 {
        app::law_parameters_follow_the_selection(v);
    }
}

proof fn lemma_char_keeps_parameters<P>(v: AppView<P>, c: char, control_alone: bool)
    requires
        c != 'r',
        v.current_tab == AppTab::Models ==> c != 'j' && c != 'k',
    ensures
        same_parameters(v, v.global_char(c, control_alone).0),
{
    if c == 'L' {
        lemma_relaunching_keeps_parameters(v);
    } else if c == 'l' && v.current_tab == AppTab::Models {
        if let Some(m) = v.selected_model() {
            lemma_running_keeps_parameters(v, m);
        }
    }
}

proof fn lemma_char_keeps_current<P>(v: AppView<P>, c: char, control_alone: bool)
    requires
        v == v.recomputed(),
    ensures
        v.global_char(c, control_alone).0 == v.global_char(c, control_alone).0.recomputed(),
{
    if c == 'r' {
        lemma_without_hardware_current(v.refreshed());
    } else if v.current_tab == AppTab::Models && (c == 'j' || c == 'k') {
        lemma_steps_keep_current(v);
    } else {
        lemma_char_keeps_parameters(v, c, control_alone);
        lemma_current_kept(v, v.global_char(c, control_alone).0);
    }
}

proof fn lemma_search_key_keeps_current<P>(v: AppView<P>, key: Key)
    requires
        v == v.recomputed(),
    ensures
        v.search_key(key).0 == v.search_key(key).0.recomputed(),
{
    let w = v.search_key(key).0;
    if key is Enter {
        if v.hw is Ready {
            let query = app::trimmed_or_none(v.search_input);
            let asked = AppView { search_query: query, ..v.search_cancelled() };
            lemma_recomputed_is_current(
                AppView { models: LoadView::Loading, selected: Some(0), ..asked },
            );
        } else {
            lemma_without_hardware_current(w);
        }
    } else {
        assert(same_parameters(v, w));
        lemma_current_kept(v, w);
    }
}

/// After a key, where the machine is known, the parameters are those for it and
/// the model that is then selected, or for it alone where none is, if they were
/// before.
pub proof fn law_parameters_follow_the_keys<P>(v: AppView<P>, event: KeyEvent)
    requires
        v == v.recomputed(),
    ensures
        v.after_key(event).0 == v.after_key(event).0.recomputed(),
{
    if !event.release {
        let cleared = AppView { launch_status: None, ..v };
        let key = event.key;
        let control_alone = event.control && !event.other_modifier;
        assert(same_parameters(v, cleared));
        lemma_current_kept(v, cleared);
        if cleared.current_tab == AppTab::Settings && cleared.settings_editing {
            let w = cleared.path_key(key).0;
            assert(same_parameters(cleared, w));
            lemma_current_kept(cleared, w);
        } else if cleared.current_tab == AppTab::Models && cleared.search_editing {
            lemma_search_key_keeps_current(cleared, key);
        } else {
            lemma_steps_keep_current(cleared);
            if let Key::Char(c) = key {
                lemma_char_keeps_current(cleared, c, control_alone);
            } else {
                let w = cleared.global_key(key, control_alone).0;
                if w == cleared.next() || w == cleared.prev() {
                } else {
                    assert(same_parameters(cleared, w));
                    lemma_current_kept(cleared, w);
                }
            }
        }
    }
}

/// The parameters are those for the machine and the selected model at the start,
/// and the outcome of an action does not change that.
pub proof fn law_parameters_outlast_the_actions<P>(
    v: AppView<P>,
    config: ConfigView,
    m: ModelView,
    problem: Option<Seq<char>>,
    pid: Option<u32>,
    message: Seq<char>,
)
    ensures
        app::initial::<P>(config) == app::initial::<P>(config).recomputed(),
        v == v.recomputed() ==> v.checked(m, problem).0 == v.checked(m, problem).0.recomputed(),
        v == v.recomputed() ==> v.launched(m.model_id, pid, message).0 == v.launched(
            m.model_id,
            pid,
            message,
        ).0.recomputed(),
        v == v.recomputed() ==> v.saying(message) == v.saying(message).recomputed(),
{
    lemma_without_hardware_current(app::initial::<P>(config));
    if v == v.recomputed() {
        lemma_current_kept(v, v.saying(message));
        assert(same_parameters(v, v.checked(m, problem).0));
        lemma_current_kept(v, v.checked(m, problem).0);
        assert(same_parameters(v, v.launched(m.model_id, pid, message).0));
        lemma_current_kept(v, v.launched(m.model_id, pid, message).0);
    }
}

/// The key that deletes undoes a character that was typed, in either input.
pub proof fn law_backspace_undoes_a_character<P>(v: AppView<P>, c: char)
    ensures
        v.path_key(Key::Char(c)).0.path_key(Key::Backspace).0 == v,
        v.search_key(Key::Char(c)).0.search_key(Key::Backspace).0 == v,
{
    assert(v.settings_input.push(c).drop_last() =~= v.settings_input);
    assert(v.search_input.push(c).drop_last() =~= v.search_input);
    assert(v.path_key(Key::Char(c)).0.path_key(Key::Backspace).0 =~= v);
    assert(v.search_key(Key::Char(c)).0.search_key(Key::Backspace).0 =~= v);
}

/// What one scan found is kept when another one reports: every model of either
/// is then installed.
pub proof fn law_scans_are_merged<P>(m: Map<Seq<char>, P>, pairs: Seq<(String, P)>, id: Seq<char>)
    ensures
        extended(m, pairs).contains_key(id) <==> m.contains_key(id) || exists|k: int|
            0 <= k < pairs.len() && (#[trigger] pairs[k]).0@ == id,
    decreases pairs.len(),
{
    if pairs.len() > 0 {
        let rest = pairs.drop_last();
        law_scans_are_merged(m, rest, id);
        if extended(m, rest).contains_key(id) && !m.contains_key(id) {
            let k = choose|k: int| 0 <= k < rest.len() && (#[trigger] rest[k]).0@ == id;
            assert(pairs[k].0@ == id);
        }
        if exists|k: int| 0 <= k < pairs.len() && (#[trigger] pairs[k]).0@ == id {
            let k = choose|k: int| 0 <= k < pairs.len() && (#[trigger] pairs[k]).0@ == id;
            if k < rest.len() {
                assert(rest[k].0@ == id);
            }
        }
        assert(pairs[pairs.len() - 1] == pairs.last());
    }
}

/// A model that a scan of the disk finds is installed once the scan is reported.
pub proof fn law_found_models_become_installed<P: Clone>(
    v: AppView<P>,
    models: Seq<HfModel>,
    cache: Seq<CachedRepo<P>>,
    local_files: Seq<LocalFile<P>>,
    pairs: Vec<(String, P)>,
    i: int,
)
    requires
        installed::copies(installed::candidates_on_disk(models, cache, local_files), pairs@),
        0 <= i < models.len(),
        installed::on_disk(models[i].model_id@, cache, local_files) is Some,
    ensures
        v.after_msg(AppMsg::InstalledScanned(pairs)).0.installed.contains_key(models[i].model_id@),
{
    let id = models[i].model_id@;
    let found = installed::candidates_on_disk(models, cache, local_files);
    installed::law_scan_reports_what_is_on_the_disk(models, cache, local_files, id);
    let k = choose|k: int| 0 <= k < found.len() && (#[trigger] found[k]).0 == id;
    assert(pairs@[k].0@ == id);
    law_scans_are_merged(v.installed, pairs@, id);
}

/// After a refresh only those models are installed that a scan finds again.
pub proof fn law_refresh_forgets_what_is_gone<P>(
    v: AppView<P>,
    pairs: Vec<(String, P)>,
    id: Seq<char>,
)
    ensures
        v.refreshed().after_msg(AppMsg::InstalledScanned(pairs)).0.installed.contains_key(id)
            <==> exists|k: int| 0 <= k < pairs@.len() && (#[trigger] pairs@[k]).0@ == id,
{
    law_scans_are_merged(Map::<Seq<char>, P>::empty(), pairs@, id);
}

/// A model whose download is complete is launched, with parameters for that
/// model, whatever the list shows at that moment; its weights are those that
/// were downloaded.
pub proof fn law_downloaded_model_is_launched<P>(v: AppView<P>, model: HfModel, path: P)
    requires
        v.config.llama_cpp_path is Some,
        v.hw is Ready,
    ensures
        ({
            let after = v.after_msg(AppMsg::DownloadComplete { model, path });
            let hw = v.hw->Ready_0;
            &&& after.0.download is None
            &&& after.0.installed.contains_key(model@.model_id)
            &&& after.0.installed[model@.model_id] == path
            &&& after.1 == (ActionView::Launch {
                exe: v.config.llama_cpp_path->0,
                model_id: model@.model_id,
                params: params::params_for(
                    hw,
                    Some(app::requirements_on(hw.model_memory(), model@)),
                ),
            })
        }),
{
}

/// A launch is only ever asked for of a model that is installed.
pub proof fn law_launched_models_are_installed<P>(v: AppView<P>, event: KeyEvent, msg: AppMsg<P>)
    ensures
        v.after_key(event).1 matches ActionView::Launch { exe, model_id, params }
            ==> v.after_key(event).0.installed.contains_key(model_id),
        v.after_msg(msg).1 matches ActionView::Launch { exe, model_id, params } ==> v.after_msg(
            msg,
        ).0.installed.contains_key(model_id),
{
    lemma_pressed_keeps_download(
        AppView { launch_status: None, ..v },
        event.key,
        event.control && !event.other_modifier,
    );
}

/// The model that was launched is the one that is launched again, from any tab
/// and whatever is searched for: where it is installed and known, the key for it
/// leads to its launch, unless a text is being edited on that tab.
pub proof fn law_last_launched_model_is_launched_again<P>(
    v: AppView<P>,
    model_id: Seq<char>,
    pid: u32,
    tab: AppTab,
)
    requires
        v.installed.contains_key(model_id),
        app::has_id(v.known_models(), model_id),
        v.config.llama_cpp_path is Some,
        v.hw is Ready,
        tab == AppTab::Settings ==> !v.settings_editing,
        tab == AppTab::Models ==> !v.search_editing,
    ensures
        ({
            let remembered = v.launched(model_id, Some(pid), Seq::empty()).0.showing(tab);
            let again = remembered.after_key(
                KeyEvent {
                    key: Key::Char('L'),
                    control: false,
                    other_modifier: false,
                    release: false,
                },
            );
            again.1 matches ActionView::Launch { exe, model_id: id, params } && id == model_id
        }),
{
    let remembered = v.launched(model_id, Some(pid), Seq::empty()).0.showing(tab);
    let cleared = AppView { launch_status: None, ..remembered };
    assert(cleared.known_models() == v.known_models());
    lemma_first_with_id(v.known_models(), model_id);
}

/// Where the model that was launched last is not installed any more, the key for
/// it leads to its download, by way of the check of the executable.
pub proof fn law_last_launched_model_is_downloaded_again<P>(v: AppView<P>, event: KeyEvent)
    requires
        v.config.last_launched_model_id is Some,
        app::has_id(v.known_models(), v.config.last_launched_model_id->0),
        !v.installed.contains_key(v.config.last_launched_model_id->0),
        v.config.llama_cpp_path is Some,
        v.download is None,
        v.current_tab == AppTab::Settings ==> !v.settings_editing,
        v.current_tab == AppTab::Models ==> !v.search_editing,
        event.key == Key::Char('L'),
        !event.release,
    ensures
        v.after_key(event).1 matches ActionView::CheckExecutable { exe, model } && exe
            == v.config.llama_cpp_path->0 && model.model_id == v.config.last_launched_model_id->0,
{
    let cleared = AppView { launch_status: None, ..v };
    assert(cleared.known_models() == v.known_models());
    lemma_first_with_id(v.known_models(), v.config.last_launched_model_id->0);
}

/// What is downloaded is the quantization that is recommended for the machine,
/// which fits nine tenths of its memory for models where any on offer does.
pub proof fn law_recommended_quantization_is_downloaded<P>(
    v: AppView<P>,
    m: ModelView,
    problem: Option<Seq<char>>,
    other: int,
)
    requires
        v.hw is Ready,
    ensures
        v.checked(m, problem).1 matches ActionView::StartDownload { model, url } ==> {
            let budget = share::nine_tenths((v.hw->Ready_0).model_memory() as nat) as u64;
            let choices = models::quant_choices(m.files());
            &&& problem is None
            &&& models::best_choice(choices, budget) matches Some(best) && m.url_for(best.0)
                == Some(url) && (0 <= other < choices.len() && choices[other].1 <= budget ==> best.1
                <= budget)
        },
{
    let budget = share::nine_tenths((v.hw->Ready_0).model_memory() as nat) as u64;
    let choices = models::quant_choices(m.files());
    models::law_best_choice(choices, budget);
    if 0 <= other < choices.len() && choices[other].1 <= budget {
        models::law_recommendation_fits_if_anything_does(choices, budget, other);
    }
}

proof fn lemma_first_with_id(s: Seq<ModelView>, model_id: Seq<char>)
    ensures
        app::first_with_id(s, model_id) matches Some(m) ==> m.model_id == model_id,
        app::first_with_id(s, model_id) is Some <==> app::has_id(s, model_id),
    decreases s.len(),
{
    if s.len() > 0 {
        let rest = s.drop_first();
        lemma_first_with_id(rest, model_id);
        assert forall|i: int| 0 <= i < rest.len() implies #[trigger] rest[i] == s[i + 1] by {}
        if app::has_id(s, model_id) && s[0].model_id != model_id {
            let k = choose|k: int| 0 <= k < s.len() && (#[trigger] s[k]).model_id == model_id;
            assert(rest[k - 1].model_id == model_id);
        }
        if app::has_id(rest, model_id) {
            let k = choose|k: int| 0 <= k < rest.len() && (#[trigger] rest[k]).model_id == model_id;
            assert(s[k + 1].model_id == model_id);
        }
    }
}

/// A key that is pressed while nothing is being edited on the tab in front.
pub open spec fn pressed_freely<P>(v: AppView<P>, event: KeyEvent) -> bool {
    &&& !event.release
    &&& !(v.current_tab == AppTab::Settings && v.settings_editing)
    &&& !(v.current_tab == AppTab::Models && v.search_editing)
}

/// The keys for the tabs: `1` to `4` bring each to the front, and the tabulator
/// the one behind. Nothing else changes but that the old message goes.
pub proof fn law_keys_for_the_tabs<P>(v: AppView<P>, event: KeyEvent)
    requires
        pressed_freely(v, event),
    ensures
        ({
            let shown = |tab: AppTab| AppView { current_tab: tab, launch_status: None, ..v };
            let after = v.after_key(event);
            &&& event.key == Key::Char('1') ==> after == (
                shown(AppTab::Hardware),
                ActionView::Nothing,
            )
            &&& event.key == Key::Char('2') ==> after == (
                shown(AppTab::Parameters),
                ActionView::Nothing,
            )
            &&& event.key == Key::Char('3') ==> after == (
                shown(AppTab::Models),
                ActionView::Nothing,
            )
            &&& event.key == Key::Char('4') ==> after == (
                shown(AppTab::Settings),
                ActionView::Nothing,
            )
            &&& event.key is Tab && v.current_tab == AppTab::Hardware ==> after == (
                shown(AppTab::Parameters),
                ActionView::Nothing,
            )
            &&& event.key is Tab && v.current_tab == AppTab::Parameters ==> after == (
                shown(AppTab::Models),
                ActionView::Nothing,
            )
            &&& event.key is Tab && v.current_tab == AppTab::Models ==> after == (
                shown(AppTab::Settings),
                ActionView::Nothing,
            )
            &&& event.key is Tab && v.current_tab == AppTab::Settings ==> after == (
                shown(AppTab::Hardware),
                ActionView::Nothing,
            )
        }),
{
}

/// The keys that quit are `q`, and `c` with the control key alone.
pub proof fn law_keys_that_quit<P>(v: AppView<P>, event: KeyEvent)
    requires
        pressed_freely(v, event),
    ensures
        event.key == Key::Char('q') ==> v.after_key(event).0 == (AppView {
            should_quit: true,
            launch_status: None,
            ..v
        }) && v.after_key(event).1 is Nothing,
        event.key == Key::Char('c') && event.control && !event.other_modifier ==> v.after_key(
            event,
        ).0 == (AppView { should_quit: true, launch_status: None, ..v }) && v.after_key(event).1
            is Nothing,
        event.key == Key::Char('c') && !(event.control && !event.other_modifier) ==> v.after_key(
            event,
        ).0 == (AppView { launch_status: None, ..v }) && v.after_key(event).1 is Nothing,
{
}

/// The keys that step through the list do so on the tab of the models, and
/// elsewhere nothing.
pub proof fn law_keys_for_the_list<P>(v: AppView<P>, event: KeyEvent)
    requires
        pressed_freely(v, event),
    ensures
        ({
            let quiet = AppView { launch_status: None, ..v };
            let after = v.after_key(event);
            let down = event.key is Down || event.key == Key::Char('j');
            let up = event.key is Up || event.key == Key::Char('k');
            &&& down && v.current_tab == AppTab::Models ==> after == (
                quiet.next(),
                ActionView::Nothing,
            )
            &&& up && v.current_tab == AppTab::Models ==> after == (
                quiet.prev(),
                ActionView::Nothing,
            )
            &&& (down || up) && v.current_tab != AppTab::Models ==> after == (
                quiet,
                ActionView::Nothing,
            )
        }),
{
}

/// The keys that begin to edit: `/` the search text, on the tab of the models, and
/// `e` or the enter key the path of llama.cpp, on the tab of the settings.
pub proof fn law_keys_that_begin_to_edit<P>(v: AppView<P>, event: KeyEvent)
    requires
        pressed_freely(v, event),
    ensures
        ({
            let quiet = AppView { launch_status: None, ..v };
            let after = v.after_key(event);
            let edit = event.key is Enter || event.key == Key::Char('e');
            &&& event.key == Key::Char('/') ==> after == (
                if v.current_tab == AppTab::Models {
                    quiet.searching()
                } else {
                    quiet
                },
                ActionView::Nothing,
            )
            &&& edit ==> after == (
                if v.current_tab == AppTab::Settings {
                    quiet.editing_path()
                } else {
                    quiet
                },
                ActionView::Nothing,
            )
        }),
{
}

/// The key `l` asks to run the selected model, on the tab of the models; `x` asks
/// the download that is going on to stop; and `r` forgets the machine, the models
/// and what is installed, and asks for all of it anew.
pub proof fn law_keys_that_ask_for_something<P>(v: AppView<P>, event: KeyEvent)
    requires
        pressed_freely(v, event),
    ensures
        ({
            let quiet = AppView { launch_status: None, ..v };
            let after = v.after_key(event);
            &&& event.key == Key::Char('l') && v.current_tab == AppTab::Models ==> after == (
            match quiet.selected_model() {
                Some(m) => quiet.running(m),
                None => (
                    AppView { launch_status: Some("No model selected."@), ..v },
                    ActionView::Nothing,
                ),
            })
            &&& event.key == Key::Char('l') && v.current_tab != AppTab::Models ==> after == (
                quiet,
                ActionView::Nothing,
            )
            &&& event.key == Key::Char('L') ==> after == quiet.relaunching()
            &&& event.key == Key::Char('x') ==> after.0 == quiet && (if v.download is Some {
                after.1 is CancelDownload
            } else {
                after.1 is Nothing
            })
            &&& event.key == Key::Char('r') ==> after.1 is Refresh && after.0.hw is Loading
                && after.0.models is Loading && after.0.installed == Map::<Seq<char>, P>::empty()
                && after.0.installed_models.len() == 0 && after.0.params is None && after.0 == (
            AppView {
                hw: after.0.hw,
                models: after.0.models,
                installed: after.0.installed,
                installed_models: after.0.installed_models,
                params: after.0.params,
                launch_status: None,
                ..v
            })
        }),
{
}

/// Any other key, and a key that is let go, does nothing; a pressed one removes
/// the old message all the same.
pub proof fn law_other_keys<P>(v: AppView<P>, event: KeyEvent)
    ensures
        event.release ==> v.after_key(event) == (v, ActionView::Nothing),
        pressed_freely(v, event) && (event.key is Other || event.key is Esc || event.key
            is Backspace || (event.key matches Key::Char(c) && c != 'q' && c != 'c' && c != '1' && c
            != '2' && c != '3' && c != '4' && c != 'j' && c != 'k' && c != 'l' && c != 'L' && c
            != '/' && c != 'x' && c != 'e' && c != 'r')) ==> v.after_key(event) == (
            AppView { launch_status: None, ..v },
            ActionView::Nothing,
        ),
{
}

/// While the path is being edited, the enter key takes it over and has the
/// settings written, the escape key leaves it, and the others change the input by
/// one character at its end, or not at all.
pub proof fn law_keys_on_the_path<P>(v: AppView<P>, event: KeyEvent, c: char)
    requires
        v.current_tab == AppTab::Settings,
        v.settings_editing,
        !event.release,
    ensures
        ({
            let quiet = AppView { launch_status: None, ..v };
            let after = v.after_key(event);
            &&& event.key is Enter ==> after == (quiet.path_confirmed(), ActionView::SaveSettings)
            &&& event.key is Esc ==> after == (quiet.path_cancelled(), ActionView::Nothing)
            &&& event.key == Key::Char(c) ==> after == (
                AppView { settings_input: v.settings_input + seq![c], ..quiet },
                ActionView::Nothing,
            )
            &&& event.key is Backspace && v.settings_input.len() > 0 ==> after == (
                AppView {
                    settings_input: v.settings_input.take(v.settings_input.len() - 1),
                    ..quiet
                },
                ActionView::Nothing,
            )
            &&& event.key is Backspace && v.settings_input.len() == 0 ==> after == (
                quiet,
                ActionView::Nothing,
            )
            &&& event.key is Tab || event.key is Up || event.key is Down || event.key is Other
                ==> after == (quiet, ActionView::Nothing)
        }),
{
    let after = v.after_key(event).0;
    assert(v.settings_input.push(c) =~= v.settings_input + seq![c]);
    if v.settings_input.len() > 0 {
        assert(v.settings_input.drop_last() =~= v.settings_input.take(v.settings_input.len() - 1));
    }
}

/// While the search text is being edited, the enter key submits it, the escape key
/// leaves it, and the others change the input by one character at its end, or not
/// at all.
pub proof fn law_keys_on_the_search_text<P>(v: AppView<P>, event: KeyEvent, c: char)
    requires
        v.current_tab == AppTab::Models,
        v.search_editing,
        !event.release,
    ensures
        ({
            let quiet = AppView { launch_status: None, ..v };
            let after = v.after_key(event);
            &&& event.key is Enter ==> after == quiet.search_submitted()
            &&& event.key is Esc ==> after == (quiet.search_cancelled(), ActionView::Nothing)
            &&& event.key == Key::Char(c) ==> after == (
                AppView { search_input: v.search_input + seq![c], ..quiet },
                ActionView::Nothing,
            )
            &&& event.key is Backspace && v.search_input.len() > 0 ==> after == (
                AppView { search_input: v.search_input.take(v.search_input.len() - 1), ..quiet },
                ActionView::Nothing,
            )
            &&& event.key is Backspace && v.search_input.len() == 0 ==> after == (
                quiet,
                ActionView::Nothing,
            )
            &&& event.key is Tab || event.key is Up || event.key is Down || event.key is Other
                ==> after == (quiet, ActionView::Nothing)
        }),
{
    assert(v.search_input.push(c) =~= v.search_input + seq![c]);
    if v.search_input.len() > 0 {
        assert(v.search_input.drop_last() =~= v.search_input.take(v.search_input.len() - 1));
    }
}

/// A search text that is submitted becomes what is searched for, without the white
/// space around it, or ends the search where it is empty. Where the machine is
/// known, the models that fit it are asked for with that search, and the list
/// waits for them with its first place selected; else a message says so.
pub proof fn law_submitted_search<P>(v: AppView<P>)
    ensures
        ({
            let after = v.search_submitted();
            &&& after.0.search_query == app::trimmed_or_none(v.search_input)
            &&& !after.0.search_editing && after.0.search_input.len() == 0
            &&& v.hw matches LoadView::Ready(hw) ==> after.0.models is Loading && after.0.selected
                == Some(0usize) && after.0.launch_status == v.launch_status && after.1 == (
            ActionView::FetchModels {
                mem_limit: hw.model_memory(),
                query: app::trimmed_or_none(v.search_input),
            })
            &&& !(v.hw is Ready) ==> after.1 is Nothing && after.0.models == v.models
                && after.0.selected == v.selected && after.0.params == v.params
                && after.0.launch_status == Some("Hardware not detected yet."@)
            &&& after.0.installed == v.installed && after.0.installed_models == v.installed_models
            &&& after.0.config == v.config && after.0.hw == v.hw && after.0.download == v.download
            &&& after.0.current_tab == v.current_tab && after.0.should_quit == v.should_quit
        }),
{
}

/// A model that is installed is launched with the executable that is set and with
/// the parameters for the machine and that very model. Without a path, or before
/// the machine is known, a message says what is missing and nothing is started.
pub proof fn law_launch_of_a_model<P>(v: AppView<P>, m: ModelView)
    ensures
        v.config.llama_cpp_path is None ==> v.launching(m) == (
            AppView {
                launch_status: Some("Set the llama.cpp path in the Settings tab [4] first."@),
                ..v
            },
            ActionView::Nothing,
        ),
        v.config.llama_cpp_path is Some && !(v.hw is Ready) ==> v.launching(m) == (
            AppView { launch_status: Some("Hardware not detected yet."@), ..v },
            ActionView::Nothing,
        ),
        v.config.llama_cpp_path matches Some(path) ==> (v.hw matches LoadView::Ready(hw)
            ==> v.launching(m).0 == v && v.launching(m).1 == (ActionView::Launch {
            exe: path,
            model_id: m.model_id,
            params: params::params_for(hw, Some(app::requirements_on(hw.model_memory(), m))),
        })),
{
}

/// The request to run a model: one whose weights are on the disk is launched; one
/// that is not has the executable checked first, unless a download is going on or
/// no path is set.
pub proof fn law_request_to_run<P>(v: AppView<P>, m: ModelView)
    ensures
        v.installed.contains_key(m.model_id) ==> v.running(m) == v.launching(m),
        !v.installed.contains_key(m.model_id) && v.download is Some ==> v.running(m) == (
            AppView { launch_status: Some("A download is already in progress."@), ..v },
            ActionView::Nothing,
        ),
        !v.installed.contains_key(m.model_id) && v.download is None && v.config.llama_cpp_path
            is None ==> v.running(m) == (
            AppView {
                launch_status: Some("Set the llama.cpp path in the Settings tab [4] first."@),
                ..v
            },
            ActionView::Nothing,
        ),
        !v.installed.contains_key(m.model_id) && v.download is None
            ==> (v.config.llama_cpp_path matches Some(exe) ==> v.running(m).0 == v && v.running(
            m,
        ).1 == (ActionView::CheckExecutable { exe, model: m })),
{
}

/// After the check of the executable: with a problem nothing is downloaded and it
/// is shown; else the file of the best quantization for the machine is, from its
/// address, and the download is shown from its start.
pub proof fn law_download_after_the_check<P>(
    v: AppView<P>,
    m: ModelView,
    problem: Option<Seq<char>>,
)
    ensures
        v.download is Some ==> v.checked(m, problem).1 is Nothing && v.checked(m, problem).0 == (
        AppView { launch_status: Some("A download is already in progress."@), ..v }),
        v.download is None ==> (problem matches Some(e) ==> v.checked(m, problem).1 is Nothing
            && v.checked(m, problem).0 == (AppView {
            launch_status: Some("Launch failed: "@ + e),
            ..v
        })),
        v.download is None && problem is None ==> (match v.best_quant_for(m) {
            None => v.checked(m, problem).1 is Nothing && v.checked(m, problem).0 == (AppView {
                launch_status: Some("No suitable quantization found for your hardware."@),
                ..v
            }),
            Some(q) => match m.url_for(q) {
                None => v.checked(m, problem).1 is Nothing && v.checked(m, problem).0 == (AppView {
                    launch_status: Some("No "@ + q + " download available for this model."@),
                    ..v
                }),
                Some(url) => v.checked(m, problem).1 == (ActionView::StartDownload {
                    model: m,
                    url,
                }) && v.checked(m, problem).0 == (AppView {
                    launch_status: Some("Downloading "@ + m.model_id + " ("@ + q + ")…"@),
                    download: Some(
                        DownloadView { model_id: m.model_id, downloaded: 0, total: None },
                    ),
                    ..v
                }),
            },
        }),
{
}

/// The request to run the last model again: it is the first with its id of those
/// that are known. Without one, or where it is not known, a message says so.
pub proof fn law_request_to_run_again<P>(v: AppView<P>)
    ensures
        v.config.last_launched_model_id is None ==> v.relaunching() == (
            AppView { launch_status: Some("No previously launched model yet."@), ..v },
            ActionView::Nothing,
        ),
        v.config.last_launched_model_id matches Some(id) ==> (match app::first_with_id(
            v.known_models(),
            id,
        ) {
            Some(m) => v.relaunching() == v.running(m),
            None => v.relaunching().1 is Nothing && v.relaunching().0 == (AppView {
                launch_status: Some(
                    "Last launched model ("@ + id
                        + ") isn't in the current list — refresh with [r]."@,
                ),
                ..v
            }),
        }),
{
}

/// A launch that succeeds makes the model the last one that was launched and has
/// the settings written; one that fails changes nothing but the message.
pub proof fn law_outcome_of_a_launch<P>(
    v: AppView<P>,
    model_id: Seq<char>,
    pid: u32,
    problem: Seq<char>,
)
    ensures
        v.launched(model_id, Some(pid), problem).1 == (ActionView::SaveLaunched { pid }),
        v.launched(model_id, Some(pid), problem).0 == (AppView {
            config: v.launched(model_id, Some(pid), problem).0.config,
            ..v
        }),
        v.launched(model_id, Some(pid), problem).0.config.last_launched_model_id == Some(model_id),
        v.launched(model_id, Some(pid), problem).0.config.llama_cpp_path
            == v.config.llama_cpp_path,
        v.launched(model_id, None, problem) == (
            AppView { launch_status: Some("Launch failed: "@ + problem), ..v },
            ActionView::Nothing,
        ),
{
}

/// The reports on the machine and on the models, field by field. Once the machine
/// is known the models that fit its memory are asked for, with the search that is
/// on; once they are there they are looked for on the disk.
pub proof fn law_reports_on_the_machine_and_the_models<P>(
    v: AppView<P>,
    hw: HardwareInfo,
    found: Vec<HfModel>,
    e: String,
)
    ensures
        ({
            let ready = v.after_msg(AppMsg::HardwareReady(hw));
            &&& ready.0 == (AppView { hw: LoadView::Ready(hw@), params: ready.0.params, ..v })
            &&& ready.1 == (ActionView::FetchModels {
                mem_limit: hw@.model_memory(),
                query: v.search_query,
            })
        }),
        v.after_msg(AppMsg::HardwareError(e)) == (
            AppView { hw: LoadView::Error(e@), ..v },
            ActionView::Nothing,
        ),
        ({
            let ready = v.after_msg(AppMsg::ModelsReady(found));
            &&& ready.0 == (AppView {
                models: LoadView::Ready(models::model_views(found@)),
                selected: Some(0usize),
                params: ready.0.params,
                ..v
            })
            &&& ready.1 == ActionView::ScanCandidates(models::model_views(found@))
        }),
        ({
            let failed = v.after_msg(AppMsg::ModelsError(e));
            &&& failed.0 == (AppView {
                models: LoadView::Error(e@),
                params: failed.0.params,
                ..v
            })
            &&& failed.1 is Nothing
        }),
        ({
            let known = v.after_msg(AppMsg::InstalledModelsReady(found));
            &&& known.0 == (AppView {
                installed_models: models::model_views(found@),
                params: known.0.params,
                ..v
            })
            &&& known.1 is Nothing
        }),
{
    let a = v.after_msg(AppMsg::HardwareReady(hw)).0;
    assert(a =~= AppView { hw: LoadView::Ready(hw@), params: a.params, ..v });
    let b = v.after_msg(AppMsg::ModelsReady(found)).0;
    assert(b =~= AppView {
        models: LoadView::Ready(models::model_views(found@)),
        selected: Some(0usize),
        params: b.params,
        ..v
    });
    let c = v.after_msg(AppMsg::ModelsError(e)).0;
    assert(c =~= AppView { models: LoadView::Error(e@), params: c.params, ..v });
    let d = v.after_msg(AppMsg::InstalledModelsReady(found)).0;
    assert(d =~= AppView {
        installed_models: models::model_views(found@),
        params: d.params,
        ..v
    });
}

/// The reports on a download, field by field. Progress counts for the download
/// that is going on and no other; its end, however it comes, leaves none.
pub proof fn law_reports_on_a_download<P>(
    v: AppView<P>,
    id: String,
    downloaded: u64,
    total: Option<u64>,
    error: String,
)
    ensures
        ({
            let after = v.after_msg(AppMsg::DownloadProgress { model_id: id, downloaded, total });
            &&& after.1 is Nothing
            &&& after.0 == (AppView { download: after.0.download, ..v })
            &&& v.download is None ==> after.0.download is None
            &&& v.download matches Some(d) ==> after.0.download == Some(
                if d.model_id == id@ {
                    DownloadView { model_id: d.model_id, downloaded, total }
                } else {
                    d
                },
            )
        }),
        v.after_msg(AppMsg::DownloadError { model_id: id, error }) == (
            AppView {
                download: None,
                launch_status: Some("Download failed for "@ + id@ + ": "@ + error@),
                ..v
            },
            ActionView::Nothing,
        ),
        v.after_msg(AppMsg::DownloadCancelled { model_id: id }) == (
            AppView {
                download: None,
                launch_status: Some("Download of "@ + id@ + " cancelled."@),
                ..v
            },
            ActionView::Nothing,
        ),
{
}

/// A download that is complete leaves its model installed at its path, and no
/// download, and the model is launched as any that is installed.
pub proof fn law_report_on_a_complete_download<P>(v: AppView<P>, model: HfModel, path: P)
    ensures
        ({
            let held = AppView {
                download: None,
                installed: v.installed.insert(model@.model_id, path),
                ..v
            };
            let after = v.after_msg(AppMsg::DownloadComplete { model, path });
            &&& after == held.recomputed().launching(model@)
            &&& after.0.installed == v.installed.insert(model@.model_id, path)
            &&& after.0.download is None
        }),
{
}

/// A process that ends at once is reported with its model and its exit code, where
/// it has one.
pub proof fn law_report_on_an_early_exit<P>(v: AppView<P>, id: String, code: i32)
    ensures
        v.after_msg(AppMsg::LaunchExitedEarly { model_id: id, code: Some(code) }) == (
            AppView {
                launch_status: Some(
                    "llama.cpp for "@ + id@ + " exited immediately (code "@ + text::signed_decimal(
                        code as int,
                    ) + ") — check its console window for details."@,
                ),
                ..v
            },
            ActionView::Nothing,
        ),
        v.after_msg(AppMsg::LaunchExitedEarly { model_id: id, code: None }) == (
            AppView {
                launch_status: Some(
                    "llama.cpp for "@ + id@ + " exited immediately (code "@ + "unknown"@
                        + ") — check its console window for details."@,
                ),
                ..v
            },
            ActionView::Nothing,
        ),
{
}

/// What a scan reports is installed at the path that the report's last entry for
/// the model gives; for a model that the report does not name, nothing changes.
pub proof fn law_report_of_a_scan<P>(v: AppView<P>, pairs: Vec<(String, P)>, k: int, id: Seq<char>)
    ensures
        ({
            let after = v.after_msg(AppMsg::InstalledScanned(pairs));
            &&& after.1 is Nothing
            &&& after.0 == (AppView {
                installed: after.0.installed,
                params: after.0.params,
                ..v
            })
            &&& 0 <= k < pairs@.len() && (forall|j: int|
                k < j < pairs@.len() ==> (#[trigger] pairs@[j]).0@ != pairs@[k].0@)
                ==> after.0.installed.contains_key(pairs@[k].0@)
                && after.0.installed[pairs@[k].0@] == pairs@[k].1
            &&& (forall|j: int| 0 <= j < pairs@.len() ==> (#[trigger] pairs@[j]).0@ != id) ==> (
            after.0.installed.contains_key(id) <==> v.installed.contains_key(id))
                && after.0.installed[id] == v.installed[id]
        }),
{
    let after = v.after_msg(AppMsg::InstalledScanned(pairs));
    assert(after.0 =~= AppView { installed: after.0.installed, params: after.0.params, ..v });
    if 0 <= k < pairs@.len() {
        lemma_last_pair_counts(v.installed, pairs@, k);
    }
    lemma_other_ids_stay(v.installed, pairs@, id);
}

proof fn lemma_last_pair_counts<P>(m: Map<Seq<char>, P>, pairs: Seq<(String, P)>, k: int)
    requires
        0 <= k < pairs.len(),
    ensures
        (forall|j: int| k < j < pairs.len() ==> (#[trigger] pairs[j]).0@ != pairs[k].0@)
            ==> extended(m, pairs).contains_key(pairs[k].0@) && extended(m, pairs)[pairs[k].0@]
            == pairs[k].1,
    decreases pairs.len(),
{
    if forall|j: int| k < j < pairs.len() ==> (#[trigger] pairs[j]).0@ != pairs[k].0@ {
        let rest = pairs.drop_last();
        if k < rest.len() {
            assert(rest[k] == pairs[k]);
            assert forall|j: int| k < j < rest.len() implies (#[trigger] rest[j]).0@
                != rest[k].0@ by {
                assert(rest[j] == pairs[j]);
            }
            lemma_last_pair_counts(m, rest, k);
            assert(pairs[pairs.len() - 1].0@ != pairs[k].0@);
        }
    }
}

proof fn lemma_other_ids_stay<P>(m: Map<Seq<char>, P>, pairs: Seq<(String, P)>, id: Seq<char>)
    ensures
        (forall|j: int| 0 <= j < pairs.len() ==> (#[trigger] pairs[j]).0@ != id) ==> (extended(
            m,
            pairs,
        ).contains_key(id) <==> m.contains_key(id)) && extended(m, pairs)[id] == m[id],
    decreases pairs.len(),
{
    if pairs.len() > 0 && forall|j: int|
        0 <= j < pairs.len() ==> (#[trigger] pairs[j]).0@ != id {
        let rest = pairs.drop_last();
        assert forall|j: int| 0 <= j < rest.len() implies (#[trigger] rest[j]).0@ != id by {
            assert(rest[j] == pairs[j]);
        }
        lemma_other_ids_stay(m, rest, id);
        assert(pairs[pairs.len() - 1].0@ != id);
    }
}

/// What the contracts say of an action is what it holds.
pub proof fn law_views_hold_the_actions(a: Action)
    ensures
        a is Nothing <==> a@ is Nothing,
        a is SaveSettings <==> a@ is SaveSettings,
        a is Refresh <==> a@ is Refresh,
        a is CancelDownload <==> a@ is CancelDownload,
        a matches Action::FetchModels { mem_limit, query } ==> a@ == (ActionView::FetchModels {
            mem_limit,
            query: match query {
                Some(q) => Some(q@),
                None => None,
            },
        }),
        a matches Action::ScanCandidates(m) ==> a@ == ActionView::ScanCandidates(
            models::model_views(m@),
        ),
        a matches Action::Launch(r) ==> a@ == (ActionView::Launch {
            exe: r.exe@,
            model_id: r.model_id@,
            params: r.params@,
        }),
        a matches Action::CheckExecutable { exe, model } ==> a@ == (ActionView::CheckExecutable {
            exe: exe@,
            model: model@,
        }),
        a matches Action::StartDownload { model, url } ==> a@ == (ActionView::StartDownload {
            model: model@,
            url: url@,
        }),
        a matches Action::SaveLaunched { pid } ==> a@ == (ActionView::SaveLaunched { pid }),
{
}

} // verus!
