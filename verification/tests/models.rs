use llama_tune::models::{
    layers_for_description, matches_quant, pick_option, quant_quality_order, upper_names_quant,
    HfModel, HfSibling,
};

fn model_with_siblings(model_id: &str, tags: Option<Vec<&str>>, files: &[(&str, u64)]) -> HfModel {
    HfModel {
        model_id: model_id.to_string(),
        tags: tags.map(|t| t.into_iter().map(String::from).collect()),
        siblings: Some(
            files
                .iter()
                .map(|(name, size)| HfSibling {
                    rfilename: name.to_string(),
                    size: Some(*size),
                })
                .collect(),
        ),
        ..Default::default()
    }
}

#[test]
fn matches_quant_exact_boundaries_only() {
    assert!(matches_quant("model-Q4_K_M.gguf", "Q4_K_M"));
    assert!(matches_quant("model.q4_k_m.gguf", "Q4_K_M"));
    // Q2_K must not match inside Q2_K_L or Q2_K_S.
    assert!(!matches_quant("model-Q2_K_L.gguf", "Q2_K"));
    assert!(!matches_quant("model-Q2_K_S.gguf", "Q2_K"));
    assert!(matches_quant("model-Q2_K.gguf", "Q2_K"));
    // Q4_0 must not match inside Q4_0_4_4/Q4_0_4_8.
    assert!(!matches_quant("model-Q4_0_4_4.gguf", "Q4_0"));
    assert!(matches_quant("model-Q4_0.gguf", "Q4_0"));
}

#[test]
fn quant_size_bytes_looks_up_matching_sibling() {
    let m = model_with_siblings("org/repo", None, &[("repo-Q4_K_M.gguf", 4_000_000_000)]);
    assert_eq!(m.quant_size_bytes("Q4_K_M"), Some(4_000_000_000));
    assert_eq!(m.quant_size_bytes("Q8_0"), None);
}

#[test]
fn best_quant_for_memory_picks_highest_that_fits() {
    let m = model_with_siblings(
        "org/repo",
        None,
        &[
            ("repo-Q4_K_M.gguf", 4_000_000_000),
            ("repo-Q6_K.gguf", 6_000_000_000),
            ("repo-Q8_0.gguf", 8_000_000_000),
        ],
    );
    assert_eq!(m.best_quant_for_memory(7_000_000_000), Some("Q6_K"));
    assert_eq!(m.best_quant_for_memory(9_000_000_000), Some("Q8_0"));
}

#[test]
fn best_quant_for_memory_falls_back_to_smallest_when_none_fit() {
    let m = model_with_siblings(
        "org/repo",
        None,
        &[
            ("repo-Q4_K_M.gguf", 4_000_000_000),
            ("repo-Q8_0.gguf", 8_000_000_000),
        ],
    );
    assert_eq!(m.best_quant_for_memory(1_000_000_000), Some("Q4_K_M"));
}

#[test]
fn best_quant_for_memory_none_when_no_recognized_quants() {
    let m = model_with_siblings("org/repo", None, &[("repo-readme.md", 1_000)]);
    assert_eq!(m.best_quant_for_memory(8_000_000_000), None);
}

#[test]
fn estimated_layers_matches_by_size_in_model_id() {
    let m = model_with_siblings("org/Llama-70B-GGUF", None, &[]);
    assert_eq!(m.estimated_layers(), 80);
    let m = model_with_siblings("org/model-13b", None, &[]);
    assert_eq!(m.estimated_layers(), 40);
    let m = model_with_siblings("org/model-7b", None, &[]);
    assert_eq!(m.estimated_layers(), 32);
    let m = model_with_siblings("org/model-1b", None, &[]);
    assert_eq!(m.estimated_layers(), 16);
}

#[test]
fn estimated_layers_matches_by_tags_when_id_has_no_hint() {
    let m = model_with_siblings("org/some-model", Some(vec!["34b", "gguf"]), &[]);
    assert_eq!(m.estimated_layers(), 60);
}

#[test]
fn estimated_layers_falls_back_when_no_size_hint() {
    let m = model_with_siblings("org/mystery-model", None, &[]);
    assert_eq!(m.estimated_layers(), 32);
}

#[test]
fn download_url_for_builds_resolve_url() {
    let m = model_with_siblings("org/repo", None, &[("repo-Q4_K_M.gguf", 4_000_000_000)]);
    assert_eq!(
        m.download_url_for("Q4_K_M"),
        Some("https://huggingface.co/org/repo/resolve/main/repo-Q4_K_M.gguf".to_string())
    );
}

#[test]
fn download_url_for_none_when_quant_absent() {
    let m = model_with_siblings("org/repo", None, &[("repo-Q4_K_M.gguf", 4_000_000_000)]);
    assert_eq!(m.download_url_for("Q8_0"), None);
}

#[test]
fn quant_options_orders_low_to_high_quality() {
    let m = model_with_siblings(
        "org/repo",
        None,
        &[
            ("repo-Q8_0.gguf", 8_000_000_000),
            ("repo-Q4_K_M.gguf", 4_000_000_000),
        ],
    );
    let options = m.quant_options();
    assert_eq!(
        options,
        vec![("Q4_K_M", 4_000_000_000), ("Q8_0", 8_000_000_000)]
    );
}

#[test]
fn label_boundaries_are_judged_on_both_sides() {
    assert!(upper_names_quant("MODEL-Q4_0.GGUF", "Q4_0"));
    assert!(!upper_names_quant("MODEL-IQ4_0.GGUF", "Q4_0"));
    assert!(!upper_names_quant("MODEL_Q4_0.GGUF", "Q4_0"));
    assert!(!matches_quant("model_Q4_K_M.gguf", "Q4_K_M"));
    assert!(!upper_names_quant("MODEL-Q4_0X.GGUF", "Q4_0"));
    // A later occurrence counts where the first is part of a longer label.
    assert!(upper_names_quant("Q4_0_4_4-Q4_0.GGUF", "Q4_0"));
    assert!(upper_names_quant("Q4_0", "Q4_0"));
    assert!(!upper_names_quant("", "Q4_0"));
    // Lower-case text is not a label of its own here.
    assert!(!upper_names_quant("model-q4_0.gguf", "Q4_0"));
}

#[test]
fn occurrences_do_not_overlap() {
    // The occurrence at 3 stands alone, but the one at 1 covers its start.
    assert!(!upper_names_quant("XA-A-A.", "A-A"));
    assert!(upper_names_quant("X.A-A.", "A-A"));
}

#[test]
fn file_names_are_compared_in_upper_case_beyond_ascii() {
    // The letter before the label is no ASCII letter, so it is a boundary.
    assert!(matches_quant("modèle-éq4_0.gguf", "Q4_0"));
    // A sharp s becomes two letters in upper case, which are no boundary.
    assert!(!matches_quant("ßq4_0.gguf", "Q4_0"));
}

#[test]
fn first_file_that_names_a_quant_counts() {
    let mut m = model_with_siblings(
        "org/repo",
        None,
        &[("a-Q4_0.gguf", 10), ("b-Q4_0.gguf", 20)],
    );
    assert_eq!(m.quant_size_bytes("Q4_0"), Some(10));
    assert_eq!(m.find_quant_sibling("Q4_0").map(|f| f.rfilename.as_str()), Some("a-Q4_0.gguf"));
    // A first file of unknown size hides a later one.
    m.siblings = Some(vec![
        HfSibling { rfilename: "a-Q4_0.gguf".to_string(), size: None },
        HfSibling { rfilename: "b-Q4_0.gguf".to_string(), size: Some(20) },
    ]);
    assert_eq!(m.quant_size_bytes("Q4_0"), None);
    assert!(m.quant_options().is_empty());
    m.siblings = None;
    assert_eq!(m.quant_size_bytes("Q4_0"), None);
    assert_eq!(m.download_url_for("Q4_0"), None);
}

#[test]
fn fallback_is_the_smallest_file_even_of_higher_quality() {
    let m = model_with_siblings("org/repo", None, &[("r-Q4_0.gguf", 30), ("r-Q8_0.gguf", 20)]);
    assert_eq!(m.best_quant_for_memory(10), Some("Q8_0"));
    assert_eq!(m.best_quant_for_memory(20), Some("Q8_0"));
    assert_eq!(m.best_quant_for_memory(30), Some("Q8_0"));
    assert_eq!(pick_option(&vec![("A", 5), ("B", 5)], 4), Some("A"));
    assert_eq!(pick_option(&vec![], 4), None);
}

#[test]
fn more_memory_never_lowers_the_quality() {
    let m = model_with_siblings(
        "org/repo",
        None,
        &[("r-IQ1_S.gguf", 1), ("r-Q4_0.gguf", 3), ("r-Q5_0.gguf", 2), ("r-F16.gguf", 9)],
    );
    let order = quant_quality_order();
    let mut last = 0;
    for budget in 1..12 {
        let best = m.best_quant_for_memory(budget).unwrap();
        let rank = order.iter().position(|q| *q == best).unwrap();
        assert!(rank >= last);
        last = rank;
    }
    assert_eq!(order.len(), 26);
    assert_eq!(order[0], "IQ1_S");
    assert_eq!(order[25], "F16");
}

#[test]
fn layer_hints_in_order() {
    for (hint, layers) in [
        ("65b", 80), ("70b", 80), ("30b", 60), ("34b", 60), ("13b", 40), ("14b", 40), ("7b", 32),
        ("8b", 32), ("3b", 26), ("2b", 26), ("1b", 16), ("0.5b", 16), ("", 32), ("0.6b", 32),
    ] {
        assert_eq!(layers_for_description(hint), layers);
    }
    // The longer hint is looked for first.
    assert_eq!(layers_for_description("a 7b beside a 70b"), 80);
}

#[test]
fn copies_of_models_are_equal() {
    let mut m = model_with_siblings("org/repo", Some(vec!["x"]), &[("f", 1)]);
    m.downloads = Some(3);
    m.likes = Some(4);
    m.last_modified = Some("today".to_string());
    let c = m.clone();
    assert_eq!(c.model_id, "org/repo");
    assert_eq!(c.downloads, Some(3));
    assert_eq!(c.likes, Some(4));
    assert_eq!(c.last_modified.as_deref(), Some("today"));
    assert_eq!(c.tags, Some(vec!["x".to_string()]));
    let files = c.siblings.unwrap();
    assert_eq!(files.len(), 1);
    assert_eq!((files[0].rfilename.as_str(), files[0].size), ("f", Some(1)));
}
