use llama_tune::installed::{
    hf_hub_cache_dir, hf_repo_cached, list_gguf_files, matches_local_file, names_projector,
    normalize, parse_cache_folder, pick_model_gguf, repo_folder, scan_hub_cache,
    scan_installed_candidates, CachedRepo, LocalFile,
};
use llama_tune::models::HfModel;

fn file(name: &str, size: u64) -> LocalFile<String> {
    LocalFile {
        path: format!("/disk/{name}"),
        name: Some(name.to_string()),
        extension: std::path::Path::new(name)
            .extension()
            .map(|e| e.to_str().unwrap().to_string()),
        size,
    }
}

fn repo(folder: &str, files: Vec<LocalFile<String>>) -> CachedRepo<String> {
    CachedRepo { folder: folder.to_string(), files }
}

fn model(id: &str) -> HfModel {
    HfModel { model_id: id.to_string(), ..Default::default() }
}

#[test]
fn pick_model_gguf_selects_largest_across_snapshots() {
    let files = vec![file("small.gguf", 100), file("large.gguf", 500)];
    let picked = pick_model_gguf(&files).unwrap();
    assert_eq!(picked.name.as_deref().unwrap(), "large.gguf");
}

#[test]
fn pick_model_gguf_excludes_mmproj_when_alternative_exists() {
    // mmproj file is deliberately the larger of the two, so a naive
    // largest-file-wins pick without mmproj filtering would choose wrong.
    let files = vec![file("mmproj-model.gguf", 900), file("model-Q4_K_M.gguf", 400)];
    let picked = pick_model_gguf(&files).unwrap();
    assert_eq!(picked.name.as_deref().unwrap(), "model-Q4_K_M.gguf");
}

#[test]
fn pick_model_gguf_falls_back_to_mmproj_when_only_option() {
    let files = vec![file("mmproj-model.gguf", 900)];
    let picked = pick_model_gguf(&files).unwrap();
    assert_eq!(picked.name.as_deref().unwrap(), "mmproj-model.gguf");
}

#[test]
fn pick_model_gguf_none_when_no_gguf_files() {
    let files = vec![file("readme.md", 10)];
    assert!(pick_model_gguf(&files).is_none());
}

#[test]
fn hf_repo_cached_finds_gguf_in_snapshots() {
    let cache = vec![repo("models--org--repo-name", vec![file("weights.gguf", 200)])];
    let found = hf_repo_cached(&cache, "org/repo-name").unwrap();
    assert_eq!(found.name.as_deref().unwrap(), "weights.gguf");
}

#[test]
fn hf_repo_cached_none_when_repo_not_present() {
    let cache: Vec<CachedRepo<String>> = vec![];
    assert!(hf_repo_cached(&cache, "org/missing-repo").is_none());
}

#[test]
fn list_gguf_files_is_case_insensitive_and_filters_extension() {
    let files = vec![file("a.gguf", 10), file("b.GGUF", 10), file("c.bin", 10)];
    let mut names: Vec<String> = list_gguf_files(files)
        .into_iter()
        .map(|f| f.name.unwrap())
        .collect();
    names.sort();
    assert_eq!(names, vec!["a.gguf".to_string(), "b.GGUF".to_string()]);
}

#[test]
fn matches_local_file_finds_normalized_substring_match() {
    let files = vec![file("Meta-Llama-3-8B-Instruct.Q4_K_M.gguf", 1)];
    let found = matches_local_file("meta-llama/Meta-Llama-3-8B-Instruct", &files);
    assert_eq!(found.map(|f| f.path.as_str()), Some(files[0].path.as_str()));
}

#[test]
fn matches_local_file_none_when_short_name_too_short() {
    let files = vec![file("ab-model.gguf", 1)];
    // Short name "ab" normalizes to <4 chars, so it should short-circuit
    // to None rather than risk a false-positive substring match.
    assert!(matches_local_file("org/ab", &files).is_none());
}

#[test]
fn matches_local_file_none_when_no_file_matches() {
    let files = vec![file("unrelated-file.gguf", 1)];
    assert!(matches_local_file("org/some-other-model", &files).is_none());
}

#[test]
fn normalize_strips_non_alphanumeric_and_lowercases() {
    assert_eq!(normalize("Meta-Llama_3.8B!"), "metallama38b");
}

#[test]
fn normalize_keeps_nothing_beyond_ascii() {
    assert_eq!(normalize("É-a1-ß-Z"), "a1z");
    assert_eq!(normalize(""), "");
}

#[test]
fn of_equal_files_the_last_is_picked() {
    let files = vec![file("a.gguf", 5), file("b.gguf", 5), file("c.gguf", 4)];
    assert_eq!(pick_model_gguf(&files).unwrap().name.as_deref(), Some("b.gguf"));
    // The extension of the weights is compared as it is.
    assert!(pick_model_gguf(&vec![file("a.GGUF", 5)]).is_none());
    // Projectors are known in any case, and a file without a name is none.
    let mut nameless = file("x.gguf", 1);
    nameless.name = None;
    let files = vec![file("MMPROJ.gguf", 9), nameless];
    assert!(pick_model_gguf(&files).unwrap().name.is_none());
    assert!(names_projector("a-mmproj-b"));
    assert!(!names_projector("a-MMPROJ-b"));
}

#[test]
fn folders_and_ids_lead_to_each_other() {
    assert_eq!(repo_folder("org/repo-name"), "models--org--repo-name");
    assert_eq!(repo_folder("a/b/c"), "models--a--b--c");
    assert_eq!(repo_folder(""), "models--");
    assert_eq!(parse_cache_folder("models--org--repo-name").as_deref(), Some("org/repo-name"));
    assert_eq!(parse_cache_folder("models--org--a--b").as_deref(), Some("org/a--b"));
    assert_eq!(parse_cache_folder("models--gpt2").as_deref(), Some("gpt2"));
    assert_eq!(parse_cache_folder("models--"), None);
    assert_eq!(parse_cache_folder("datasets--org--x"), None);
    assert_eq!(parse_cache_folder("models-"), None);
    assert_eq!(parse_cache_folder("models----x").as_deref(), Some("/x"));
    for id in ["org/repo", "a-b/c--d", "x/y.z_1", "gpt2", "a-b-"] {
        assert_eq!(parse_cache_folder(&repo_folder(id)).as_deref(), Some(id));
    }
    // An organization that ends in a hyphen is read differently.
    assert_eq!(parse_cache_folder(&repo_folder("a-/b")).as_deref(), Some("a/-b"));
    for folder in ["models--org--repo", "models--a-b--c--d", "models--a---b", "models--gpt2"] {
        assert_eq!(repo_folder(&parse_cache_folder(folder).unwrap()), folder);
    }
}

#[test]
fn cache_directory_goes_by_precedence() {
    let dir = hf_hub_cache_dir(Some("a"), Some("b"), Some("c")).unwrap();
    assert_eq!((dir.base, dir.steps.len()), ("a", 0));
    let dir = hf_hub_cache_dir(None, Some("b"), Some("c")).unwrap();
    assert_eq!((dir.base, dir.steps), ("b", vec!["hub"]));
    let dir = hf_hub_cache_dir(None, None, Some("c")).unwrap();
    assert_eq!((dir.base, dir.steps), ("c", vec![".cache", "huggingface", "hub"]));
    assert!(hf_hub_cache_dir::<&str>(None, None, None).is_none());
}

#[test]
fn hub_cache_scan_reports_each_model_with_weights() {
    let cache = vec![
        repo("models--org--one", vec![file("one.gguf", 1)]),
        repo("models--org--empty", vec![file("config.json", 1)]),
        repo("version.txt", vec![file("no.gguf", 1)]),
        repo("models--org--two", vec![file("two-a.gguf", 1), file("two-b.gguf", 2)]),
    ];
    assert_eq!(
        scan_hub_cache(&cache),
        vec![
            ("org/one".to_string(), "/disk/one.gguf".to_string()),
            ("org/two".to_string(), "/disk/two-b.gguf".to_string()),
        ]
    );
}

#[test]
fn hub_cache_scan_reports_a_model_without_organization() {
    let cache = vec![repo("models--gpt2", vec![file("w.gguf", 1)])];
    assert_eq!(hf_repo_cached(&cache, "gpt2").unwrap().path, "/disk/w.gguf");
    assert_eq!(
        scan_hub_cache(&cache),
        vec![("gpt2".to_string(), "/disk/w.gguf".to_string())]
    );
}

#[test]
fn candidates_are_looked_for_in_the_cache_first() {
    let cache = vec![repo("models--org--both-places", vec![file("cached.gguf", 1)])];
    let local = vec![file("Both_Places.gguf", 1), file("only-local.Q8.gguf", 1)];
    let models = vec![model("org/Only.Local"), model("org/both-places"), model("org/nowhere")];
    assert_eq!(
        scan_installed_candidates(&models, &cache, &local),
        vec![
            ("org/Only.Local".to_string(), "/disk/only-local.Q8.gguf".to_string()),
            ("org/both-places".to_string(), "/disk/cached.gguf".to_string()),
        ]
    );
    let none: Vec<CachedRepo<String>> = vec![];
    assert_eq!(
        scan_installed_candidates(&models, &none, &local)[1].1,
        "/disk/Both_Places.gguf"
    );
}

#[test]
fn the_first_matching_local_file_is_taken() {
    let files = vec![file("x.gguf", 1), file("some-model-a.gguf", 1), file("some-model-b.gguf", 2)];
    assert_eq!(
        matches_local_file("org/Some_Model", &files).unwrap().path,
        "/disk/some-model-a.gguf"
    );
    // An id without an organization is a name as it is.
    assert!(matches_local_file("somemodel", &files).is_some());
    // Four characters are enough.
    assert!(matches_local_file("org/mode", &files).is_some());
    assert!(matches_local_file("org/m-o-d", &files).is_none());
}
