use llama_tune::app::{App, AppTab, DownloadState, LoadState};
use llama_tune::config::Config;
use llama_tune::events::{
    detection_broke_down, download_failed, executable_checked, handle_app_msg, handle_key_event,
    launch_or_download, relaunch_last, Action, AppMsg, Key, KeyEvent,
};
use llama_tune::hardware::{GpuInfo, GpuVendor, HardwareInfo};
use llama_tune::models::{HfModel, HfSibling};

const GB: u64 = 1_073_741_824;

type TestApp = App<String>;

fn press(key: Key) -> KeyEvent {
    KeyEvent { key, control: false, other_modifier: false, release: false }
}

fn type_char(app: &mut TestApp, c: char) -> Action {
    handle_key_event(app, press(Key::Char(c)))
}

fn hw() -> HardwareInfo {
    HardwareInfo {
        cpu_name: "CPU".to_string(),
        cpu_physical_cores: 8,
        cpu_logical_cores: 16,
        total_ram_bytes: 32 * GB,
        available_ram_bytes: 16 * GB,
        gpus: Vec::new(),
    }
}

fn model(id: &str) -> HfModel {
    HfModel {
        model_id: id.to_string(),
        siblings: Some(vec![HfSibling {
            rfilename: "file-Q4_0.gguf".to_string(),
            size: Some(4 * GB),
        }]),
        ..Default::default()
    }
}

fn ready_app() -> TestApp {
    let mut app: TestApp = App::new(Config {
        llama_cpp_path: Some("/llama".to_string()),
        last_launched_model_id: None,
    });
    app.current_tab = AppTab::Models;
    app.hw_state = LoadState::Ready(hw());
    app.models_state = LoadState::Ready(vec![model("org/a"), model("org/b")]);
    app
}

fn status(app: &TestApp) -> &str {
    app.launch_status.as_deref().unwrap_or("")
}

fn layers(app: &TestApp) -> i32 {
    app.params.as_ref().unwrap().n_gpu_layers
}

/// A machine with a graphics card and two listed models, of which the first has
/// a number of layers of its own.
fn app_with_graphics() -> TestApp {
    let mut app = ready_app();
    let mut machine = hw();
    machine.gpus.push(GpuInfo {
        name: "GPU".to_string(),
        vram_bytes: 24 * GB,
        vendor: GpuVendor::Nvidia,
        dedicated: true,
    });
    app.hw_state = LoadState::Ready(machine);
    handle_app_msg(&mut app, AppMsg::ModelsReady(two_models()));
    app
}

fn two_models() -> Vec<HfModel> {
    let mut bare = model("org/bare");
    bare.siblings = None;
    vec![model("org/small-7b"), bare]
}

#[test]
fn keys_switch_the_tabs() {
    let mut app = ready_app();
    for (c, tab) in [
        ('1', AppTab::Hardware),
        ('2', AppTab::Parameters),
        ('3', AppTab::Models),
        ('4', AppTab::Settings),
    ] {
        assert!(matches!(type_char(&mut app, c), Action::Nothing));
        assert_eq!(app.current_tab, tab);
    }
    let mut seen = Vec::new();
    for _ in 0..4 {
        handle_key_event(&mut app, press(Key::Tab));
        seen.push(app.current_tab);
    }
    assert_eq!(
        seen,
        vec![AppTab::Hardware, AppTab::Parameters, AppTab::Models, AppTab::Settings]
    );
}

#[test]
fn quit_keys_quit() {
    let mut app = ready_app();
    type_char(&mut app, 'q');
    assert!(app.should_quit);

    let mut app = ready_app();
    type_char(&mut app, 'c');
    assert!(!app.should_quit);
    let with = |control, other_modifier| KeyEvent {
        key: Key::Char('c'),
        control,
        other_modifier,
        release: false,
    };
    handle_key_event(&mut app, with(true, true));
    assert!(!app.should_quit);
    handle_key_event(&mut app, with(true, false));
    assert!(app.should_quit);
}

#[test]
fn released_keys_do_nothing() {
    let mut app = ready_app();
    app.launch_status = Some("kept".to_string());
    let event = KeyEvent {
        key: Key::Char('q'),
        control: false,
        other_modifier: false,
        release: true,
    };
    assert!(matches!(handle_key_event(&mut app, event), Action::Nothing));
    assert!(!app.should_quit);
    assert_eq!(status(&app), "kept");
}

#[test]
fn pressed_keys_remove_the_old_message() {
    let mut app = ready_app();
    app.launch_status = Some("old".to_string());
    handle_key_event(&mut app, press(Key::Other));
    assert!(app.launch_status.is_none());
}

#[test]
fn list_keys_work_on_the_models_tab_only() {
    let mut app = ready_app();
    handle_key_event(&mut app, press(Key::Down));
    assert_eq!(app.model_list_state.selected(), Some(1));
    type_char(&mut app, 'j');
    assert_eq!(app.model_list_state.selected(), Some(0));
    handle_key_event(&mut app, press(Key::Up));
    assert_eq!(app.model_list_state.selected(), Some(1));
    type_char(&mut app, 'k');
    assert_eq!(app.model_list_state.selected(), Some(0));
    assert!(app.params.is_some());

    app.current_tab = AppTab::Hardware;
    for key in [Key::Down, Key::Up, Key::Char('j'), Key::Char('k'), Key::Char('l'), Key::Char('/')] {
        assert!(matches!(handle_key_event(&mut app, press(key)), Action::Nothing));
        assert_eq!(app.model_list_state.selected(), Some(0));
        assert!(!app.search_editing && app.launch_status.is_none());
    }
}

#[test]
fn search_text_is_edited_and_submitted() {
    let mut app = ready_app();
    app.model_list_state.select(Some(1));
    type_char(&mut app, '/');
    assert!(app.search_editing);
    for c in " qwen!".chars() {
        type_char(&mut app, c);
    }
    handle_key_event(&mut app, press(Key::Backspace));
    assert_eq!(app.search_input, " qwen");
    match handle_key_event(&mut app, press(Key::Enter)) {
        Action::FetchModels { mem_limit, query } => {
            assert_eq!(mem_limit, 16 * GB);
            assert_eq!(query.as_deref(), Some("qwen"));
        }
        other => panic!("{other:?}"),
    }
    assert!(!app.search_editing && app.search_input.is_empty());
    assert_eq!(app.search_query.as_deref(), Some("qwen"));
    assert!(matches!(app.models_state, LoadState::Loading));
    assert_eq!(app.model_list_state.selected(), Some(0));
}

#[test]
fn empty_search_returns_to_the_recommendations() {
    let mut app = ready_app();
    app.search_query = Some("old".to_string());
    type_char(&mut app, '/');
    assert_eq!(app.search_input, "old");
    for _ in 0..5 {
        handle_key_event(&mut app, press(Key::Backspace));
    }
    assert!(matches!(
        handle_key_event(&mut app, press(Key::Enter)),
        Action::FetchModels { query: None, .. }
    ));
    assert!(app.search_query.is_none());
}

#[test]
fn search_without_hardware_says_so() {
    let mut app = ready_app();
    app.hw_state = LoadState::Loading;
    type_char(&mut app, '/');
    type_char(&mut app, 'x');
    assert!(matches!(handle_key_event(&mut app, press(Key::Enter)), Action::Nothing));
    assert_eq!(status(&app), "Hardware not detected yet.");
    assert_eq!(app.search_query.as_deref(), Some("x"));
    assert!(matches!(app.models_state, LoadState::Ready(_)));
}

#[test]
fn cancelled_search_changes_nothing() {
    let mut app = ready_app();
    app.search_query = Some("old".to_string());
    type_char(&mut app, '/');
    type_char(&mut app, 'q');
    assert!(!app.should_quit);
    handle_key_event(&mut app, press(Key::Esc));
    assert!(!app.search_editing && app.search_input.is_empty());
    assert_eq!(app.search_query.as_deref(), Some("old"));
}

#[test]
fn keys_go_to_the_path_while_it_is_edited() {
    let mut app = ready_app();
    app.current_tab = AppTab::Settings;
    type_char(&mut app, 'e');
    assert!(app.settings_editing);
    assert_eq!(app.settings_input, "/llama");
    for c in "q1L".chars() {
        type_char(&mut app, c);
    }
    handle_key_event(&mut app, press(Key::Tab));
    assert!(!app.should_quit);
    assert_eq!(app.current_tab, AppTab::Settings);
    assert_eq!(app.settings_input, "/llamaq1L");
    handle_key_event(&mut app, press(Key::Backspace));
    assert!(matches!(handle_key_event(&mut app, press(Key::Enter)), Action::SaveSettings));
    assert_eq!(app.config.llama_cpp_path.as_deref(), Some("/llamaq1"));
    assert!(!app.settings_editing);

    handle_key_event(&mut app, press(Key::Enter));
    assert!(app.settings_editing);
    type_char(&mut app, 'x');
    handle_key_event(&mut app, press(Key::Esc));
    assert_eq!(app.config.llama_cpp_path.as_deref(), Some("/llamaq1"));
    app.settings_not_saved("disk full");
    assert_eq!(status(&app), "Failed to save settings: disk full");
}

#[test]
fn editing_starts_on_the_settings_tab_only() {
    let mut app = ready_app();
    type_char(&mut app, 'e');
    handle_key_event(&mut app, press(Key::Enter));
    assert!(!app.settings_editing);
    // Backspace in an empty input leaves it empty.
    app.current_tab = AppTab::Settings;
    app.config.llama_cpp_path = None;
    type_char(&mut app, 'e');
    handle_key_event(&mut app, press(Key::Backspace));
    assert!(app.settings_editing && app.settings_input.is_empty());
}

#[test]
fn installed_model_is_launched() {
    let mut app = ready_app();
    app.installed.insert("org/x".to_string(), "/x.gguf".to_string());
    app.installed_models = vec![model("org/x")];
    match type_char(&mut app, 'l') {
        Action::Launch(request) => {
            assert_eq!(request.exe, "/llama");
            assert_eq!(request.model_id, "org/x");
            assert_eq!(request.params.n_gpu_layers, 0);
            assert!(request.params.use_mlock);
            assert_eq!(app.installed_path(&request.model_id).map(String::as_str), Some("/x.gguf"));
        }
        other => panic!("{other:?}"),
    }
    assert!(app.launch_status.is_none());
}

#[test]
fn launch_needs_a_path_and_the_hardware() {
    let mut app = ready_app();
    app.hw_state = LoadState::Error("broken".to_string());
    assert!(matches!(app.launch_now(&model("org/x")), Action::Nothing));
    assert_eq!(status(&app), "Hardware not detected yet.");
    app.config.llama_cpp_path = None;
    assert!(matches!(app.launch_now(&model("org/x")), Action::Nothing));
    assert_eq!(status(&app), "Set the llama.cpp path in the Settings tab [4] first.");
    app.models_state = LoadState::Loading;
    assert!(matches!(type_char(&mut app, 'l'), Action::Nothing));
    assert_eq!(status(&app), "No model selected.");
}

#[test]
fn outcome_of_a_launch_is_remembered_and_shown() {
    let mut app = ready_app();
    assert!(matches!(
        app.launch_finished("org/x".to_string(), Ok(77)),
        Action::SaveLaunched { pid: 77 }
    ));
    assert_eq!(app.config.last_launched_model_id.as_deref(), Some("org/x"));
    app.launch_saved(77, None);
    assert_eq!(status(&app), "Launched llama.cpp (pid 77)");
    app.launch_saved(77, Some("full".to_string()));
    assert_eq!(
        status(&app),
        "Launched llama.cpp (pid 77) (warning: failed to save last-launched model: full)"
    );
    assert!(matches!(
        app.launch_finished("org/y".to_string(), Err("`/llama` does not exist".to_string())),
        Action::Nothing
    ));
    assert_eq!(status(&app), "Launch failed: `/llama` does not exist");
    assert_eq!(app.config.last_launched_model_id.as_deref(), Some("org/x"));
}

#[test]
fn other_model_is_downloaded_after_the_check_of_the_executable() {
    let mut app = ready_app();
    let (exe, chosen) = match type_char(&mut app, 'l') {
        Action::CheckExecutable { exe, model } => (exe, model),
        other => panic!("{other:?}"),
    };
    assert_eq!(exe, "/llama");
    assert_eq!(chosen.model_id, "org/a");
    assert!(app.download.is_none());
    match executable_checked(&mut app, chosen, None) {
        Action::StartDownload { model, url } => {
            assert_eq!(model.model_id, "org/a");
            assert_eq!(url, "https://huggingface.co/org/a/resolve/main/file-Q4_0.gguf");
        }
        other => panic!("{other:?}"),
    }
    assert_eq!(status(&app), "Downloading org/a (Q4_0)…");
    let d = app.download.as_ref().unwrap();
    assert_eq!((d.model_id.as_str(), d.downloaded, d.total), ("org/a", 0, None));
}

#[test]
fn second_download_is_refused() {
    let mut app = ready_app();
    executable_checked(&mut app, model("org/a"), None);
    assert!(matches!(launch_or_download(&mut app, model("org/b")), Action::Nothing));
    assert_eq!(status(&app), "A download is already in progress.");
    app.launch_status = None;
    assert!(matches!(executable_checked(&mut app, model("org/b"), None), Action::Nothing));
    assert_eq!(status(&app), "A download is already in progress.");
    assert_eq!(app.download.as_ref().unwrap().model_id, "org/a");
    // An installed model is launched all the same.
    app.installed.insert("org/b".to_string(), "/b".to_string());
    assert!(matches!(launch_or_download(&mut app, model("org/b")), Action::Launch(_)));
}

#[test]
fn download_is_refused_with_a_reason() {
    let mut app = ready_app();
    app.config.llama_cpp_path = None;
    assert!(matches!(launch_or_download(&mut app, model("org/a")), Action::Nothing));
    assert_eq!(status(&app), "Set the llama.cpp path in the Settings tab [4] first.");

    let problem = Some("`/llama` does not exist".to_string());
    assert!(matches!(executable_checked(&mut app, model("org/a"), problem), Action::Nothing));
    assert_eq!(status(&app), "Launch failed: `/llama` does not exist");

    let mut bare = model("org/a");
    bare.siblings = None;
    assert!(matches!(executable_checked(&mut app, bare, None), Action::Nothing));
    assert_eq!(status(&app), "No suitable quantization found for your hardware.");

    app.hw_state = LoadState::Loading;
    assert!(matches!(executable_checked(&mut app, model("org/a"), None), Action::Nothing));
    assert_eq!(status(&app), "No suitable quantization found for your hardware.");
    assert!(app.download.is_none());
}

#[test]
fn last_model_is_launched_again_from_any_tab() {
    let mut app = ready_app();
    assert!(matches!(relaunch_last(&mut app), Action::Nothing));
    assert_eq!(status(&app), "No previously launched model yet.");

    app.config.last_launched_model_id = Some("org/gone".to_string());
    assert!(matches!(type_char(&mut app, 'L'), Action::Nothing));
    assert_eq!(
        status(&app),
        "Last launched model (org/gone) isn't in the current list — refresh with [r]."
    );

    app.config.last_launched_model_id = Some("org/b".to_string());
    for tab in [AppTab::Hardware, AppTab::Parameters, AppTab::Models, AppTab::Settings] {
        app.current_tab = tab;
        match type_char(&mut app, 'L') {
            Action::CheckExecutable { model, .. } => assert_eq!(model.model_id, "org/b"),
            other => panic!("{other:?}"),
        }
    }
    app.installed.insert("org/b".to_string(), "/b".to_string());
    app.installed_models = vec![model("org/b")];
    assert!(matches!(type_char(&mut app, 'L'), Action::Launch(_)));
    // A search that does not show it is no hindrance.
    app.search_query = Some("other".to_string());
    app.models_state = LoadState::Ready(vec![]);
    assert!(matches!(type_char(&mut app, 'L'), Action::Launch(_)));
}

#[test]
fn cancel_key_needs_a_download() {
    let mut app = ready_app();
    assert!(matches!(type_char(&mut app, 'x'), Action::Nothing));
    app.download = Some(DownloadState { model_id: "org/a".to_string(), downloaded: 1, total: None });
    app.current_tab = AppTab::Hardware;
    assert!(matches!(type_char(&mut app, 'x'), Action::CancelDownload));
    assert!(app.download.is_some());
}

#[test]
fn refresh_forgets_what_was_found() {
    let mut app = ready_app();
    app.installed.insert("org/a".to_string(), "/a".to_string());
    app.installed_models = vec![model("org/a")];
    app.recompute_params();
    app.search_query = Some("kept".to_string());
    assert!(matches!(type_char(&mut app, 'r'), Action::Refresh));
    assert!(matches!(app.hw_state, LoadState::Loading));
    assert!(matches!(app.models_state, LoadState::Loading));
    assert!(app.params.is_none() && app.installed_models.is_empty());
    assert!(app.installed_path("org/a").is_none());
    assert_eq!(app.search_query.as_deref(), Some("kept"));
    let found = vec![("org/b".to_string(), "/b".to_string())];
    handle_app_msg(&mut app, AppMsg::InstalledScanned(found));
    assert!(app.installed_path("org/a").is_none());
    assert_eq!(app.installed_path("org/b").map(String::as_str), Some("/b"));
}

#[test]
fn known_hardware_leads_to_a_listing() {
    let mut app = ready_app();
    app.hw_state = LoadState::Loading;
    app.search_query = Some("qwen".to_string());
    match handle_app_msg(&mut app, AppMsg::HardwareReady(hw())) {
        Action::FetchModels { mem_limit, query } => {
            assert_eq!(mem_limit, 16 * GB);
            assert_eq!(query.as_deref(), Some("qwen"));
        }
        other => panic!("{other:?}"),
    }
    assert!(matches!(app.hw_state, LoadState::Ready(_)));
    assert!(app.params.is_some());

    handle_app_msg(&mut app, AppMsg::HardwareError("no".to_string()));
    assert!(matches!(&app.hw_state, LoadState::Error(e) if e == "no"));
    match detection_broke_down::<String>("oops") {
        AppMsg::HardwareError(e) => assert_eq!(e, "hardware detection task panicked: oops"),
        _ => panic!(),
    }
}

#[test]
fn listed_models_are_looked_for_on_the_disk() {
    let mut app = ready_app();
    app.model_list_state.select(Some(1));
    let listed = vec![model("org/c"), model("org/d")];
    match handle_app_msg(&mut app, AppMsg::ModelsReady(listed)) {
        Action::ScanCandidates(models) => {
            assert_eq!(models.len(), 2);
            assert_eq!(models[1].model_id, "org/d");
        }
        other => panic!("{other:?}"),
    }
    assert_eq!(app.model_list_state.selected(), Some(0));
    assert_eq!(app.selected_model().unwrap().model_id, "org/c");
    handle_app_msg(&mut app, AppMsg::ModelsError("offline".to_string()));
    assert!(matches!(&app.models_state, LoadState::Error(e) if e == "offline"));
}

#[test]
fn scans_are_merged() {
    let mut app = ready_app();
    let pair = |id: &str, path: &str| (id.to_string(), path.to_string());
    handle_app_msg(&mut app, AppMsg::InstalledScanned(vec![pair("a", "/1"), pair("b", "/2")]));
    handle_app_msg(&mut app, AppMsg::InstalledScanned(vec![pair("c", "/3"), pair("b", "/4")]));
    let paths: Vec<Option<&str>> = ["a", "b", "c", "d"]
        .iter()
        .map(|id| app.installed_path(id).map(String::as_str))
        .collect();
    assert_eq!(paths, vec![Some("/1"), Some("/4"), Some("/3"), None]);

    handle_app_msg(&mut app, AppMsg::InstalledModelsReady(vec![model("a")]));
    assert_eq!(app.installed_models.len(), 1);
    assert!(app.params.is_some());
}

#[test]
fn progress_counts_for_its_own_download_only() {
    let mut app = ready_app();
    let report = |id: &str| AppMsg::DownloadProgress {
        model_id: id.to_string(),
        downloaded: 5,
        total: Some(9),
    };
    handle_app_msg(&mut app, report("org/a"));
    assert!(app.download.is_none());
    executable_checked(&mut app, model("org/a"), None);
    handle_app_msg(&mut app, report("org/b"));
    assert_eq!(app.download.as_ref().unwrap().downloaded, 0);
    handle_app_msg(&mut app, report("org/a"));
    let d = app.download.as_ref().unwrap();
    assert_eq!((d.downloaded, d.total), (5, Some(9)));
}

#[test]
fn complete_download_is_launched_whatever_is_listed() {
    let mut app = ready_app();
    executable_checked(&mut app, model("org/a"), None);
    app.models_state = LoadState::Loading;
    let msg = AppMsg::DownloadComplete { model: model("org/a"), path: "/a.gguf".to_string() };
    match handle_app_msg(&mut app, msg) {
        Action::Launch(request) => assert_eq!(request.model_id, "org/a"),
        other => panic!("{other:?}"),
    }
    assert!(app.download.is_none());
    assert_eq!(app.installed_path("org/a").map(String::as_str), Some("/a.gguf"));
}

#[test]
fn failed_and_cancelled_downloads_end() {
    let mut app = ready_app();
    executable_checked(&mut app, model("org/a"), None);
    let msg = download_failed("org/a".to_string(), false, "timeout".to_string());
    assert!(matches!(handle_app_msg(&mut app, msg), Action::Nothing));
    assert!(app.download.is_none());
    assert_eq!(status(&app), "Download failed for org/a: timeout");

    executable_checked(&mut app, model("org/a"), None);
    let msg = download_failed("org/a".to_string(), true, "cancelled".to_string());
    handle_app_msg(&mut app, msg);
    assert!(app.download.is_none());
    assert_eq!(status(&app), "Download of org/a cancelled.");
}

#[test]
fn early_exit_is_shown() {
    let mut app = ready_app();
    let exit = |code| AppMsg::LaunchExitedEarly { model_id: "org/a".to_string(), code };
    handle_app_msg(&mut app, exit(Some(-1)));
    assert_eq!(
        status(&app),
        "llama.cpp for org/a exited immediately (code -1) — check its console window for details."
    );
    handle_app_msg(&mut app, exit(None));
    assert_eq!(
        status(&app),
        "llama.cpp for org/a exited immediately (code unknown) — check its console window for details."
    );
}

#[test]
fn parameters_follow_the_search_and_the_failed_listing() {
    let mut app = app_with_graphics();
    assert_eq!(layers(&app), 32);
    type_char(&mut app, '/');
    type_char(&mut app, 'x');
    assert_eq!(layers(&app), 32);
    handle_key_event(&mut app, press(Key::Enter));
    assert!(app.selected_model().is_none());
    assert_eq!(layers(&app), -1);
    handle_app_msg(&mut app, AppMsg::ModelsReady(two_models()));
    assert_eq!(layers(&app), 32);
    handle_app_msg(&mut app, AppMsg::ModelsError("offline".to_string()));
    assert!(app.selected_model().is_none());
    assert_eq!(layers(&app), -1);
}

#[test]
fn parameters_follow_the_models_that_leave_the_list() {
    let path = || "/small.gguf".to_string();
    let scanned = AppMsg::InstalledScanned(vec![("org/small-7b".to_string(), path())]);
    let complete = AppMsg::DownloadComplete { model: model("org/small-7b"), path: path() };
    for msg in [scanned, complete] {
        let mut app = app_with_graphics();
        app.search_query = Some("x".to_string());
        assert_eq!(layers(&app), 32);
        handle_app_msg(&mut app, msg);
        assert_eq!(app.selected_model().unwrap().model_id, "org/bare");
        assert_eq!(layers(&app), -1);
    }
}

#[test]
fn downloaded_model_stays_selected() {
    let mut app = app_with_graphics();
    executable_checked(&mut app, model("org/small-7b"), None);
    let path = "/small.gguf".to_string();
    handle_app_msg(&mut app, AppMsg::DownloadComplete { model: model("org/small-7b"), path });
    assert_eq!(app.selected_model().unwrap().model_id, "org/small-7b");
    assert_eq!(layers(&app), 32);
}
