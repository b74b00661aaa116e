use llama_tune::launch::{
    candidate_names, is_unified_binary, launch_args, launched_message, path_file_name,
    resolve_executable, spawn_failure, ChildState, Executable, LaunchArg, LaunchWatch, PathKind,
    WatchStep,
};
use llama_tune::params::LlamaCppParams;

const SUFFIX: &str = ".exe";

fn name_inside(r: Result<Executable, String>) -> String {
    match r {
        Ok(Executable::Inside(name)) => name,
        other => panic!("{other:?}"),
    }
}

fn params(flash_attn: bool) -> LlamaCppParams {
    LlamaCppParams {
        n_gpu_layers: 7,
        ctx_size: 2048,
        threads: 4,
        batch_size: 512,
        ubatch_size: 128,
        use_mmap: true,
        use_mlock: true,
        flash_attn,
        rationale: Vec::new(),
    }
}

fn shown(args: &[LaunchArg]) -> Vec<String> {
    args.iter()
        .map(|a| match a {
            LaunchArg::Text(s) => s.clone(),
            LaunchArg::ModelPath => "<model>".to_string(),
        })
        .collect()
}

#[test]
fn resolve_executable_accepts_direct_file() {
    let exe = format!("/dir/llama-cli{SUFFIX}");
    let resolved = resolve_executable(&exe, &PathKind::File, SUFFIX).unwrap();
    assert!(matches!(resolved, Executable::Itself));
}

#[test]
fn resolve_executable_finds_known_binary_in_directory() {
    let present = candidate_names(SUFFIX)
        .iter()
        .map(|n| *n == format!("llama{SUFFIX}"))
        .collect();
    let resolved = resolve_executable("/dir", &PathKind::Directory(present), SUFFIX);
    assert_eq!(name_inside(resolved), format!("llama{SUFFIX}"));
}

#[test]
fn resolve_executable_prefers_first_candidate_name() {
    let present = candidate_names(SUFFIX)
        .iter()
        .map(|n| *n == format!("llama-cli{SUFFIX}") || *n == format!("main{SUFFIX}"))
        .collect();
    let resolved = resolve_executable("/dir", &PathKind::Directory(present), SUFFIX);
    assert_eq!(name_inside(resolved), format!("llama-cli{SUFFIX}"));
}

#[test]
fn resolve_executable_errs_when_directory_has_no_known_binary() {
    let present = candidate_names(SUFFIX).iter().map(|n| *n == "readme.txt").collect();
    let err = resolve_executable("/dir", &PathKind::Directory(present), SUFFIX).unwrap_err();
    assert!(err
        .to_string()
        .contains("none of the expected llama.cpp binaries"));
}

#[test]
fn resolve_executable_errs_when_path_missing() {
    let err = resolve_executable("/dir/does-not-exist", &PathKind::Missing, SUFFIX).unwrap_err();
    assert!(err.to_string().contains("does not exist"));
}

#[test]
fn is_unified_binary_matches_exact_stem_case_insensitively() {
    assert!(is_unified_binary("/usr/local/bin/llama"));
    assert!(is_unified_binary("C:\\tools\\LLAMA.exe"));
    assert!(!is_unified_binary("/usr/local/bin/llama-cli"));
    assert!(!is_unified_binary("/usr/local/bin/main"));
}

#[test]
fn exact_messages_for_unusable_paths() {
    assert_eq!(
        resolve_executable("/dir", &PathKind::Directory(vec![false, false, false]), "").unwrap_err(),
        "`/dir` is a directory, and none of the expected llama.cpp binaries (llama-cli, llama, main) were found inside it. Point the Settings-tab path at the actual executable."
    );
    assert_eq!(
        resolve_executable("/x", &PathKind::Missing, "").unwrap_err(),
        "`/x` does not exist"
    );
    assert_eq!(spawn_failure("/x", "no permission"), "failed to launch `/x`: no permission");
    assert_eq!(candidate_names(""), vec!["llama-cli", "llama", "main"]);
    assert_eq!(
        name_inside(resolve_executable("/d", &PathKind::Directory(vec![false, false, true]), "")),
        "main"
    );
}

#[test]
fn file_names_are_those_of_std_on_unix_paths() {
    for path in [
        "", "/", "a", "a/", "a//", "a/.", "a/./", "./a", ".", "./", "..", "a/..", "/..", "/.", "a/b",
        "/a/b.c", ".hidden", "x/.hidden", "a/.../", "...", "./.", "a/././", "../b",
    ] {
        let expected = std::path::Path::new(path)
            .file_name()
            .map(|n| n.to_str().unwrap().to_string());
        assert_eq!(path_file_name(path), expected, "{}", path);
    }
    assert_eq!(path_file_name("a\\b\\").as_deref(), Some("b"));
}

#[test]
fn stems_are_those_of_std() {
    for (name, unified) in [
        ("llama", true), ("llama.exe", true), ("LlAmA.bin", true), ("llama.tar.gz", false),
        (".llama", false), ("llama.", true), ("llama..", false), ("main", false), ("xllama", false),
        ("dir/llama/", true), ("llama/..", false), ("", false),
    ] {
        assert_eq!(is_unified_binary(name), unified, "{}", name);
        let std_stem = std::path::Path::new(name).file_stem().and_then(|s| s.to_str());
        assert_eq!(std_stem.is_some_and(|s| s.eq_ignore_ascii_case("llama")), unified, "{}", name);
    }
}

#[test]
fn standalone_binary_gets_the_parameters_behind_the_model() {
    let mut expected = vec!["-m".to_string(), "<model>".to_string()];
    expected.extend(params(true).to_cli_args());
    assert_eq!(shown(&launch_args(false, &params(true))), expected);
}

#[test]
fn unified_binary_gets_a_subcommand_and_a_value_for_flash_attention() {
    let mut expected = vec!["cli".to_string(), "-m".to_string(), "<model>".to_string()];
    expected.extend(params(true).to_cli_args());
    expected.push("on".to_string());
    assert_eq!(shown(&launch_args(true, &params(true))), expected);

    let mut expected = vec!["cli".to_string(), "-m".to_string(), "<model>".to_string()];
    expected.extend(params(false).to_cli_args());
    assert_eq!(shown(&launch_args(true, &params(false))), expected);
}

#[test]
fn launched_message_names_the_process() {
    assert_eq!(launched_message(4711), "Launched llama.cpp (pid 4711)");
    assert_eq!(launched_message(0), "Launched llama.cpp (pid 0)");
}

#[test]
fn a_running_process_is_watched_for_three_seconds() {
    let mut watch = LaunchWatch::new();
    let mut sleeps = 0;
    while matches!(watch.step(ChildState::Running), WatchStep::Sleep) {
        sleeps += 1;
    }
    assert_eq!(sleeps, 15);
    assert_eq!(watch.waited_ms, 3000);
}

#[test]
fn a_process_that_ends_is_reported_if_it_failed() {
    let mut watch = LaunchWatch::new();
    watch.step(ChildState::Running);
    assert!(matches!(
        watch.step(ChildState::Exited { success: false, code: Some(2) }),
        WatchStep::Report(Some(2))
    ));
    assert!(matches!(
        watch.step(ChildState::Exited { success: false, code: None }),
        WatchStep::Report(None)
    ));
    assert!(matches!(
        watch.step(ChildState::Exited { success: true, code: Some(0) }),
        WatchStep::Stop
    ));
    assert!(matches!(watch.step(ChildState::Unknown), WatchStep::Stop));
    assert_eq!(watch.waited_ms, 200);
}
