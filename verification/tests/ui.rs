use llama_tune::app::{App, AppTab, DownloadState, LoadState};
use llama_tune::config::Config;
use llama_tune::hardware::{GpuInfo, GpuVendor, HardwareInfo};
use llama_tune::models::{HfModel, HfSibling};
use llama_tune::ui::{
    draw_hardware, draw_model_detail, draw_model_list, draw_models, draw_parameters, draw_settings,
    draw_statusbar, draw_tabs, gpu_item, gpu_list_title, model_list_item, progress_in_words,
    summary_table, tags_text, Color, GpuPanel, HardwareScreen, Line, ModelsBody, Notice,
    ParametersScreen, Style,
};

const GB: u64 = 1_073_741_824;

type TestApp = App<String>;

fn size(bytes: u64) -> String {
    bytesize::ByteSize(bytes).to_string()
}

fn hw() -> HardwareInfo {
    HardwareInfo {
        cpu_name: "CPU X".to_string(),
        cpu_physical_cores: 8,
        cpu_logical_cores: 16,
        total_ram_bytes: 32 * GB,
        available_ram_bytes: 16 * GB,
        gpus: Vec::new(),
    }
}

fn gpu(name: &str, vendor: GpuVendor, dedicated: bool) -> GpuInfo {
    GpuInfo { name: name.to_string(), vram_bytes: 8 * GB, vendor, dedicated }
}

fn model(id: &str) -> HfModel {
    HfModel {
        model_id: id.to_string(),
        siblings: Some(vec![HfSibling {
            rfilename: "f-Q4_0.gguf".to_string(),
            size: Some(4 * GB),
        }]),
        ..Default::default()
    }
}

fn app() -> TestApp {
    let mut app: TestApp = App::new(Config::default());
    app.current_tab = AppTab::Models;
    app.hw_state = LoadState::Ready(hw());
    app.models_state = LoadState::Ready(vec![model("org/a"), model("org/b")]);
    app
}

fn words(l: &Line) -> String {
    l.spans.iter().map(|s| s.text.as_str()).collect()
}

fn all_words(lines: &[Line]) -> Vec<String> {
    lines.iter().map(words).collect()
}

fn fg(l: &Line, i: usize) -> Option<Color> {
    l.spans[i].style.fg
}

fn notice_facts(n: &Notice) -> (&str, Option<Color>, bool) {
    (n.span.text.as_str(), n.span.style.fg, n.centered)
}

#[test]
fn tabs_have_titles_and_places() {
    for (tab, place) in [
        (AppTab::Hardware, 0),
        (AppTab::Parameters, 1),
        (AppTab::Models, 2),
        (AppTab::Settings, 3),
    ] {
        let (titles, selected) = draw_tabs(tab);
        assert_eq!(
            titles,
            vec!["  Hardware [1]  ", "  Parameters [2]  ", "  Models [3]  ", "  Settings [4]  "]
        );
        assert_eq!(selected, place);
    }
}

#[test]
fn hardware_tab_before_the_detection() {
    match draw_hardware(&LoadState::Loading) {
        HardwareScreen::Message(n) => {
            assert_eq!(notice_facts(&n), ("Scanning hardware…", Some(Color::Yellow), true));
        }
        other => panic!("{other:?}"),
    }
    match draw_hardware(&LoadState::Error("bad".to_string())) {
        HardwareScreen::Message(n) => {
            assert_eq!(notice_facts(&n), ("Error: bad", Some(Color::Red), false));
        }
        other => panic!("{other:?}"),
    }
}

#[test]
fn hardware_tab_without_graphics() {
    match draw_hardware(&LoadState::Ready(hw())) {
        HardwareScreen::Known { rows, gpus } => {
            let facts: Vec<(&str, &str)> =
                rows.iter().map(|r| (r.label.text.as_str(), r.value.text.as_str())).collect();
            let (ram, available) = (size(32 * GB), size(16 * GB));
            assert_eq!(
                facts,
                vec![
                    ("CPU", "CPU X"),
                    ("Cores (phys / logi)", "8 / 16"),
                    ("Total RAM", ram.as_str()),
                    ("Available RAM", available.as_str()),
                ]
            );
            assert_eq!(rows[2].value.style, Style::colored(Color::Green));
            match gpus {
                GpuPanel::Missing(s) => assert_eq!(
                    s.text,
                    "No GPU detected — will recommend CPU-only parameters."
                ),
                other => panic!("{other:?}"),
            }
        }
        other => panic!("{other:?}"),
    }
    let rows = summary_table(&hw(), "R", "A");
    assert_eq!((rows[2].value.text.as_str(), rows[3].value.text.as_str()), ("R", "A"));
}

#[test]
fn hardware_tab_with_graphics() {
    let mut machine = hw();
    machine.gpus = vec![
        gpu("RTX", GpuVendor::Nvidia, true),
        gpu("Iris", GpuVendor::Intel, false),
        gpu("Radeon", GpuVendor::Amd, true),
    ];
    match draw_hardware(&LoadState::Ready(machine)) {
        HardwareScreen::Known { gpus: GpuPanel::Listed { title, items }, .. } => {
            assert_eq!(title.text, format!(" GPUs (total VRAM: {}) ", size(16 * GB)));
            assert_eq!(
                all_words(&items),
                vec![
                    format!("[NVIDIA] RTX  ({})", size(8 * GB)),
                    format!("[Intel] Iris  ({} shared with RAM)", size(8 * GB)),
                    format!("[AMD] Radeon  ({})", size(8 * GB)),
                ]
            );
            assert_eq!(fg(&items[0], 0), Some(Color::Green));
            assert_eq!(fg(&items[1], 0), Some(Color::Blue));
            assert_eq!(fg(&items[2], 0), Some(Color::Red));
        }
        other => panic!("{other:?}"),
    }
    let apple = gpu_item(&gpu("M2", GpuVendor::Apple, false), "much");
    assert_eq!(words(&apple), "[Apple Silicon] M2  (much shared with RAM)");
    assert_eq!(apple.spans[0].style, Style::bold(Color::Magenta));
    let other = gpu_item(&gpu("?", GpuVendor::Other("0x0001".to_string()), true), "m");
    assert_eq!(fg(&other, 0), Some(Color::White));
    let mut shared = hw();
    shared.gpus = vec![gpu("Iris", GpuVendor::Intel, false)];
    assert_eq!(gpu_list_title(&shared, "x").text, " GPUs (memory shared with RAM) ");
}

#[test]
fn parameters_tab_in_each_state() {
    let mut a = app();
    let message = |a: &TestApp| match draw_parameters(a) {
        ParametersScreen::Message(n) => {
            (n.span.text.clone(), n.span.style.fg, n.centered)
        }
        other => panic!("{other:?}"),
    };
    assert_eq!(message(&a), ("Waiting for hardware data…".to_string(), None, true));
    a.hw_state = LoadState::Loading;
    assert_eq!(message(&a), ("Detecting hardware…".to_string(), Some(Color::Yellow), true));
    a.hw_state = LoadState::Error("e".to_string());
    assert_eq!(message(&a), ("Hardware error: e".to_string(), Some(Color::Red), false));

    a.hw_state = LoadState::Ready(hw());
    a.recompute_params();
    match draw_parameters(&a) {
        ParametersScreen::Flags { title, flags, reasons } => {
            assert_eq!(title, " Recommended llama.cpp flags — for org/a ");
            let p = a.params.as_ref().unwrap();
            assert_eq!(flags.text, p.to_cli_string());
            assert_eq!(flags.style, Style::colored(Color::Green));
            let expected: Vec<String> = p.rationale.iter().map(|r| format!("• {r}")).collect();
            assert_eq!(all_words(&reasons), expected);
        }
        other => panic!("{other:?}"),
    }
    a.model_list_state.select(None);
    match draw_parameters(&a) {
        ParametersScreen::Flags { title, .. } => assert_eq!(
            title,
            " Recommended llama.cpp flags (generic — no model selected) "
        ),
        other => panic!("{other:?}"),
    }
}

#[test]
fn list_of_models_marks_the_selected_and_the_installed() {
    let mut a = app();
    a.installed.insert("org/i".to_string(), "/i".to_string());
    let mut bare = model("org/i");
    bare.siblings = None;
    a.installed_models = vec![bare];
    a.model_list_state.select(Some(1));
    let items = draw_model_list(&a);
    assert_eq!(
        all_words(&items),
        vec![
            "org/i ✓ installed".to_string(),
            format!("org/a [{}]", size(4 * GB)),
            format!("org/b [{}]", size(4 * GB)),
        ]
    );
    assert_eq!(items[0].spans[0].style, Style::plain());
    assert_eq!(items[1].spans[0].style, Style::highlight());
    assert_eq!(items[0].spans[1].style, Style::bold(Color::Green));
    assert_eq!(items[0].spans.len(), 3);
    let item = model_list_item("m", false, true, &Some("9 B".to_string()));
    assert_eq!(words(&item), "m ✓ installed [9 B]");
}

#[test]
fn models_of_a_local_directory_are_listed_with_the_mark() {
    let mut a = app();
    a.installed.insert("org/b".to_string(), "/models/b.gguf".to_string());
    let items = draw_model_list(&a);
    assert_eq!(items.len(), 2);
    assert!(!words(&items[0]).contains(" ✓ installed"));
    assert!(words(&items[1]).starts_with("org/b ✓ installed"));
    a.search_query = Some("query".to_string());
    let items = draw_model_list(&a);
    assert_eq!(items.len(), 1);
    assert!(words(&items[0]).starts_with("org/a"));
}

#[test]
fn details_of_a_model_that_can_be_downloaded() {
    let mut a = app();
    let mut m = model("org/m-7b");
    m.downloads = Some(12);
    m.likes = Some(3);
    m.last_modified = Some("2024".to_string());
    m.tags = Some(vec!["gguf".to_string(), "base_model:x".to_string(), "en".to_string()]);
    a.models_state = LoadState::Ready(vec![m]);
    a.launch_status = Some("Launched it".to_string());
    let detail = draw_model_detail(&a, "").unwrap();
    assert_eq!(
        all_words(&detail.lines),
        vec![
            "Model: org/m-7b",
            "Status: Not installed",
            "Downloads: 12",
            "Likes: 3",
            "Last updated: 2024",
            "Est. layers: 32",
            "Best quant for your machine: Q4_0",
            "",
            "Download URL:",
            "https://huggingface.co/org/m-7b/resolve/main/f-Q4_0.gguf",
            "",
            "Tags: gguf, en",
            "",
            "Press [l] to download this model to the HF cache and launch it",
            "",
            "Launched it",
        ]
    );
    assert_eq!(detail.lines[9].spans[0].style, Style::link());
    assert_eq!(fg(&detail.lines[15], 0), Some(Color::Green));
    assert!(detail.gauge.is_none());
}

#[test]
fn details_of_a_model_of_which_little_is_known() {
    let mut a = app();
    let mut m = model("org/m");
    m.siblings = None;
    a.models_state = LoadState::Ready(vec![]);
    a.installed.insert("org/m".to_string(), "/m".to_string());
    a.installed_models = vec![m];
    a.launch_status = Some("Launch failed: x".to_string());
    let detail = draw_model_detail(&a, "").unwrap();
    assert_eq!(
        all_words(&detail.lines),
        vec![
            "Model: org/m",
            "Status: Installed",
            "Downloads: N/A",
            "Likes: N/A",
            "Last updated: N/A",
            "Est. layers: 32",
            "Best quant for your machine: N/A",
            "",
            "Press [l] to launch llama.cpp with this model",
            "",
            "Launch failed: x",
        ]
    );
    assert_eq!(fg(&detail.lines[10], 0), Some(Color::Yellow));
    a.model_list_state.select(Some(5));
    assert!(draw_model_detail(&a, "").is_none());
}

#[test]
fn details_show_the_download_of_their_own_model() {
    let mut a = app();
    a.download = Some(DownloadState {
        model_id: "org/a".to_string(),
        downloaded: GB,
        total: Some(4 * GB),
    });
    let detail = draw_model_detail(&a, "25").unwrap();
    assert_eq!(
        detail.gauge,
        Some(format!("{} / {} (25%)", size(GB), size(4 * GB)))
    );
    assert_eq!(words(detail.lines.last().unwrap()), "Downloading… press [x] to cancel");
    a.model_list_state.select(Some(1));
    assert!(draw_model_detail(&a, "25").unwrap().gauge.is_none());
}

#[test]
fn progress_is_put_in_words() {
    let words_for = |total| progress_in_words(total, "a".to_string(), "b", "7");
    assert_eq!(words_for(Some(1)), "a / b (7%)");
    assert_eq!(words_for(Some(0)), "a downloaded");
    assert_eq!(words_for(None), "a downloaded");
}

#[test]
fn at_most_eight_tags_are_shown() {
    let tags: Vec<String> = (0..12)
        .map(|i| if i % 3 == 0 { format!("base_model:{i}") } else { format!("t{i}") })
        .collect();
    assert_eq!(tags_text(&tags), "t1, t2, t4, t5, t7, t8, t10, t11");
    let many: Vec<String> = (0..20).map(|i| i.to_string()).collect();
    assert_eq!(tags_text(&many), "0, 1, 2, 3, 4, 5, 6, 7");
    assert_eq!(tags_text(&vec![]), "");
}

#[test]
fn models_tab_without_models() {
    let mut a = app();
    let message = |a: &TestApp| match draw_models(a, "").body {
        ModelsBody::Message(n) => (n.span.text.clone(), n.span.style.fg, n.centered),
        other => panic!("{other:?}"),
    };
    a.models_state = LoadState::Loading;
    assert_eq!(message(&a).0, "Fetching models from Hugging Face…");
    a.models_state = LoadState::Ready(vec![]);
    assert_eq!(
        message(&a),
        ("No models found that fit your hardware.".to_string(), Some(Color::Yellow), true)
    );
    a.search_query = Some("q".to_string());
    assert_eq!(message(&a).0, "No models matching \"q\" fit your hardware.");
    a.models_state = LoadState::Loading;
    assert_eq!(message(&a).0, "Searching for \"q\"…");
    a.models_state = LoadState::Error("x".to_string());
    assert_eq!(message(&a), ("Error: x".to_string(), Some(Color::Red), false));
}

#[test]
fn models_tab_with_models() {
    let mut a = app();
    let screen = draw_models(&a, "");
    assert_eq!(screen.title.text, " Model Recommendations ");
    assert!(screen.search_box.is_none());
    match screen.body {
        ModelsBody::Listed { items, detail } => {
            assert_eq!(items.len(), 2);
            assert_eq!(words(&detail.unwrap().lines[0]), "Model: org/a");
        }
        other => panic!("{other:?}"),
    }
    a.search_query = Some("q".to_string());
    a.start_search();
    let screen = draw_models(&a, "");
    assert_eq!(screen.title.text, " Model Search: \"q\" ");
    assert_eq!(screen.search_box.unwrap().text, "/q");
}

#[test]
fn settings_tab_in_each_state() {
    let mut a = app();
    assert_eq!(
        all_words(&draw_settings(&a)),
        vec![
            "llama.cpp path: (not set)",
            "",
            "[e] or [Enter] to edit the path used when launching llama.cpp from the Models tab.",
            "",
            "Last launched model: (none yet)",
            "[L] Relaunch it from any tab (downloading again first if needed).",
        ]
    );
    a.config.llama_cpp_path = Some("/llama".to_string());
    a.config.last_launched_model_id = Some("org/m".to_string());
    let lines = draw_settings(&a);
    assert_eq!(words(&lines[0]), "llama.cpp path: /llama");
    assert_eq!(words(&lines[4]), "Last launched model: org/m");
    a.start_editing_path();
    let lines = draw_settings(&a);
    assert_eq!(words(&lines[0]), "llama.cpp path: /llama_");
    assert_eq!(lines[0].spans[1].style, Style::bold(Color::Cyan));
    assert_eq!(
        words(&lines[2]),
        "Type the path to your llama.cpp executable, or a directory containing it (e.g. llama.exe/llama-cli.exe/main). [Enter] save, [Esc] cancel."
    );
}

#[test]
fn status_bar_shows_download_then_message_then_keys() {
    let mut a = app();
    assert_eq!(
        draw_statusbar(&a, "").text,
        " [1/2/3/4] Tabs  [↑↓] Select model  [l] Launch/download  [/] Search  [L] Relaunch last  [r] Refresh  [q] Quit "
    );
    a.search_editing = true;
    assert_eq!(draw_statusbar(&a, "").text, " [Enter] Search  [Esc] Cancel ");
    a.current_tab = AppTab::Settings;
    assert_eq!(
        draw_statusbar(&a, "").text,
        " [1/2/3/4] Tabs  [e] Edit path  [L] Relaunch last  [q] Quit "
    );
    a.settings_editing = true;
    assert_eq!(draw_statusbar(&a, "").text, " [Enter] Save  [Esc] Cancel ");
    a.current_tab = AppTab::Hardware;
    assert_eq!(
        draw_statusbar(&a, "").text,
        " [1/2/3/4] Tabs  [L] Relaunch last  [r] Refresh  [q] Quit "
    );
    assert_eq!(draw_statusbar(&a, "").style, Style::colored(Color::DarkGray));
    a.launch_status = Some("Launched x".to_string());
    let bar = draw_statusbar(&a, "");
    assert_eq!((bar.text.as_str(), bar.style.fg), (" Launched x ", Some(Color::Green)));
    a.launch_status = Some("No".to_string());
    assert_eq!(draw_statusbar(&a, "").style.fg, Some(Color::Yellow));
    a.download = Some(DownloadState { model_id: "m".to_string(), downloaded: 5, total: None });
    assert_eq!(draw_statusbar(&a, "").text, " Downloading m: 5 B downloaded — [x] Cancel ");
    a.download = Some(DownloadState { model_id: "m".to_string(), downloaded: 5, total: Some(10) });
    for tab in [AppTab::Hardware, AppTab::Parameters, AppTab::Models, AppTab::Settings] {
        a.current_tab = tab;
        let bar = draw_statusbar(&a, "50");
        assert_eq!(bar.text, " Downloading m: 5 B / 10 B (50%) — [x] Cancel ");
        assert_eq!(bar.style.fg, Some(Color::Yellow));
    }
}
