use std::path::PathBuf;

use llama_tune::app::{App, AppTab, LoadState};
use llama_tune::config::Config;
use llama_tune::hardware::HardwareInfo;
use llama_tune::models::{HfModel, HfSibling};

fn test_app() -> App<PathBuf> {
    let mut app = App::new(Config::default());
    app.current_tab = AppTab::Models;
    app
}

fn model(id: &str) -> HfModel {
    HfModel {
        model_id: id.to_string(),
        ..Default::default()
    }
}

fn ready_hw() -> HardwareInfo {
    HardwareInfo {
        cpu_name: "Test CPU".to_string(),
        cpu_physical_cores: 8,
        cpu_logical_cores: 16,
        total_ram_bytes: 32 * 1_073_741_824,
        available_ram_bytes: 16 * 1_073_741_824,
        gpus: Vec::new(),
    }
}

#[test]
fn display_models_prepends_installed_when_no_search() {
    let mut app = test_app();
    app.installed_models = vec![model("org/installed-a")];
    app.models_state = LoadState::Ready(vec![model("org/recommended-a")]);

    let ids: Vec<&str> = app
        .display_models()
        .iter()
        .map(|m| m.model_id.as_str())
        .collect();
    assert_eq!(ids, vec!["org/installed-a", "org/recommended-a"]);
}

#[test]
fn display_models_dedups_installed_from_recommended_list() {
    let mut app = test_app();
    app.installed_models = vec![model("org/shared")];
    app.installed
        .insert("org/shared".to_string(), PathBuf::from("/tmp/shared.gguf"));
    app.models_state = LoadState::Ready(vec![model("org/shared"), model("org/other")]);

    let ids: Vec<&str> = app
        .display_models()
        .iter()
        .map(|m| m.model_id.as_str())
        .collect();
    assert_eq!(ids, vec!["org/shared", "org/other"]);
}

#[test]
fn display_models_excludes_installed_during_active_search() {
    let mut app = test_app();
    app.installed_models = vec![model("org/installed-a")];
    app.search_query = Some("query".to_string());
    app.models_state = LoadState::Ready(vec![model("org/search-result")]);

    let ids: Vec<&str> = app
        .display_models()
        .iter()
        .map(|m| m.model_id.as_str())
        .collect();
    assert_eq!(ids, vec!["org/search-result"]);
}

#[test]
fn no_model_is_listed_twice_without_a_known_file() {
    let mut app = test_app();
    app.installed_models = vec![model("org/shared")];
    app.models_state = LoadState::Ready(vec![model("org/shared"), model("org/other")]);
    let ids: Vec<&str> = app.display_models().iter().map(|m| m.model_id.as_str()).collect();
    assert_eq!(ids, vec!["org/shared", "org/other"]);
    app.search_query = Some("query".to_string());
    let ids: Vec<&str> = app.display_models().iter().map(|m| m.model_id.as_str()).collect();
    assert_eq!(ids, vec!["org/other"]);
}

#[test]
fn models_of_a_local_directory_stay_in_the_list() {
    let mut app = test_app();
    app.installed.insert("org/local".to_string(), PathBuf::from("/models/local.gguf"));
    app.models_state = LoadState::Ready(vec![model("org/local"), model("org/other")]);
    let ids: Vec<&str> = app.display_models().iter().map(|m| m.model_id.as_str()).collect();
    assert_eq!(ids, vec!["org/local", "org/other"]);
    assert_eq!(app.selected_model().unwrap().model_id, "org/local");
    app.search_query = Some("query".to_string());
    let ids: Vec<&str> = app.display_models().iter().map(|m| m.model_id.as_str()).collect();
    assert_eq!(ids, vec!["org/other"]);
    assert_eq!(app.find_model("org/local").unwrap().model_id, "org/local");
}

#[test]
fn find_model_looks_among_the_installed_during_a_search() {
    let mut app = test_app();
    app.installed_models = vec![model("org/a")];
    app.models_state = LoadState::Ready(vec![model("org/b")]);
    app.search_query = Some("query".to_string());
    assert_eq!(app.find_model("org/a").unwrap().model_id, "org/a");
    assert_eq!(app.find_model("org/b").unwrap().model_id, "org/b");
    assert!(app.find_model("org/c").is_none());
}

#[test]
fn next_model_wraps_around() {
    let mut app = test_app();
    app.models_state = LoadState::Ready(vec![model("a"), model("b")]);
    app.model_list_state.select(Some(1));

    app.next_model();
    assert_eq!(app.model_list_state.selected(), Some(0));
}

#[test]
fn prev_model_wraps_around() {
    let mut app = test_app();
    app.models_state = LoadState::Ready(vec![model("a"), model("b")]);
    app.model_list_state.select(Some(0));

    app.prev_model();
    assert_eq!(app.model_list_state.selected(), Some(1));
}

#[test]
fn next_model_is_noop_on_empty_list() {
    let mut app = test_app();
    app.model_list_state.select(Some(0));

    app.next_model();
    assert_eq!(app.model_list_state.selected(), Some(0));
}

#[test]
fn selected_model_and_find_model_locate_by_id() {
    let mut app = test_app();
    app.models_state = LoadState::Ready(vec![model("org/a"), model("org/b")]);
    app.model_list_state.select(Some(1));

    assert_eq!(app.selected_model().unwrap().model_id, "org/b");
    assert_eq!(app.find_model("org/a").unwrap().model_id, "org/a");
    assert!(app.find_model("org/missing").is_none());
}

#[test]
fn best_quant_for_none_while_hardware_loading() {
    let app = test_app();
    assert_eq!(app.best_quant_for(&model("org/a")), None);
}

#[test]
fn recompute_params_noop_while_hardware_loading() {
    let mut app = test_app();
    app.recompute_params();
    assert!(app.params.is_none());
}

#[test]
fn recompute_params_sets_params_once_hardware_ready() {
    let mut app = test_app();
    app.hw_state = LoadState::Ready(ready_hw());
    app.models_state = LoadState::Ready(vec![model("org/a")]);
    app.model_list_state.select(Some(0));

    app.recompute_params();
    assert!(app.params.is_some());
}

#[test]
fn start_search_seeds_input_from_active_query() {
    let mut app = test_app();
    app.search_query = Some("existing".to_string());

    app.start_search();
    assert!(app.search_editing);
    assert_eq!(app.search_input, "existing");
}

#[test]
fn cancel_search_editing_clears_input_and_editing_flag() {
    let mut app = test_app();
    app.search_editing = true;
    app.search_input = "typed text".to_string();

    app.cancel_search_editing();
    assert!(!app.search_editing);
    assert!(app.search_input.is_empty());
}

#[test]
fn start_editing_path_seeds_input_from_config() {
    let mut app = test_app();
    app.config.llama_cpp_path = Some("/usr/local/bin/llama-cli".to_string());

    app.start_editing_path();
    assert!(app.settings_editing);
    assert_eq!(app.settings_input, "/usr/local/bin/llama-cli");
}

#[test]
fn cancel_editing_path_clears_input_and_editing_flag() {
    let mut app = test_app();
    app.settings_editing = true;
    app.settings_input = "typed text".to_string();

    app.cancel_editing_path();
    assert!(!app.settings_editing);
    assert!(app.settings_input.is_empty());
}

#[test]
fn the_application_starts_on_the_hardware_tab() {
    let app: App<PathBuf> = App::new(Config {
        llama_cpp_path: Some("/llama".to_string()),
        last_launched_model_id: None,
    });
    assert_eq!(app.current_tab, AppTab::Hardware);
    assert!(matches!(app.hw_state, LoadState::Loading));
    assert!(matches!(app.models_state, LoadState::Loading));
    assert_eq!(app.model_list_state.selected(), Some(0));
    assert_eq!(app.config.llama_cpp_path.as_deref(), Some("/llama"));
    assert!(app.display_models().is_empty());
    assert!(app.params.is_none() && app.download.is_none() && app.launch_status.is_none());
    assert!(!app.should_quit && !app.settings_editing && !app.search_editing);
}

#[test]
fn steps_through_the_list_undo_each_other() {
    let mut app = test_app();
    app.models_state = LoadState::Ready(vec![model("a"), model("b"), model("c")]);
    for start in 0..3 {
        app.model_list_state.select(Some(start));
        app.next_model();
        app.prev_model();
        assert_eq!(app.model_list_state.selected(), Some(start));
        app.prev_model();
        app.next_model();
        assert_eq!(app.model_list_state.selected(), Some(start));
    }
    app.model_list_state.select(None);
    app.next_model();
    assert_eq!(app.model_list_state.selected(), Some(0));
    app.model_list_state.select(None);
    app.prev_model();
    assert_eq!(app.model_list_state.selected(), Some(2));
    app.model_list_state.select(Some(usize::MAX));
    app.next_model();
    assert!(app.model_list_state.selected().unwrap() < 3);
}

#[test]
fn selection_behind_the_list_selects_nothing() {
    let mut app = test_app();
    app.models_state = LoadState::Ready(vec![model("a")]);
    app.model_list_state.select(Some(1));
    assert!(app.selected_model().is_none());
    app.model_list_state.select(None);
    assert!(app.selected_model().is_none());
}

#[test]
fn parameters_follow_the_selected_model() {
    let mut app = test_app();
    let mut hw = ready_hw();
    hw.gpus.push(llama_tune::hardware::GpuInfo {
        name: "GPU".to_string(),
        vram_bytes: 24 * 1_073_741_824,
        vendor: llama_tune::hardware::GpuVendor::Nvidia,
        dedicated: true,
    });
    app.hw_state = LoadState::Ready(hw);
    let mut small = model("org/small-7b");
    small.siblings = Some(vec![HfSibling {
        rfilename: "small-Q8_0.gguf".to_string(),
        size: Some(4 * 1_073_741_824),
    }]);
    app.models_state = LoadState::Ready(vec![small, model("org/unknown")]);
    app.recompute_params();
    assert_eq!(app.params.as_ref().unwrap().n_gpu_layers, 32);
    assert_eq!(app.best_quant_for(app.selected_model().unwrap()), Some("Q8_0"));
    app.next_model();
    assert_eq!(app.params.as_ref().unwrap().n_gpu_layers, -1);
    assert_eq!(
        app.params.as_ref().unwrap().rationale[2],
        "Layer size estimated from unknown quantization: ~0MB/layer"
    );
}

#[test]
fn the_budget_is_nine_tenths_of_the_memory() {
    let mut app = test_app();
    app.hw_state = LoadState::Ready(ready_hw());
    let mut m = model("org/a");
    let limit = (16.0 * 1_073_741_824.0 * 0.9) as u64;
    m.siblings = Some(vec![
        HfSibling { rfilename: "a-Q4_0.gguf".to_string(), size: Some(limit) },
        HfSibling { rfilename: "a-Q8_0.gguf".to_string(), size: Some(limit + 1) },
    ]);
    assert_eq!(app.best_quant_for(&m), Some("Q4_0"));
}

#[test]
fn confirmed_path_is_trimmed_or_removed() {
    let mut app = test_app();
    app.start_editing_path();
    app.settings_input = " \t/opt/llama \n".to_string();
    app.confirm_editing_path();
    assert_eq!(app.config.llama_cpp_path.as_deref(), Some("/opt/llama"));
    assert!(!app.settings_editing && app.settings_input.is_empty());

    app.start_editing_path();
    app.confirm_editing_path();
    assert_eq!(app.config.llama_cpp_path.as_deref(), Some("/opt/llama"));

    app.start_editing_path();
    app.settings_input = "\u{3000} ".to_string();
    app.confirm_editing_path();
    assert!(app.config.llama_cpp_path.is_none());
}

#[test]
fn installed_paths_are_found_by_id() {
    let mut app = test_app();
    app.installed.insert("org/a".to_string(), PathBuf::from("/a.gguf"));
    assert_eq!(app.installed_path("org/a"), Some(&PathBuf::from("/a.gguf")));
    assert_eq!(app.installed_path("org/b"), None);
}
