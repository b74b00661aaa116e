use llama_tune::fetch::{
    candidate_params, comes_first, detail_params, fetch_installed_models, filter_to_fitting,
    fits_budget, model_details_url, models_url, sort_models, ModelOrder,
};
use llama_tune::models::{HfModel, HfSibling};

fn model(id: &str, downloads: Option<u64>, files: &[(&str, u64)]) -> HfModel {
    HfModel {
        model_id: id.to_string(),
        downloads,
        siblings: Some(
            files
                .iter()
                .map(|(n, s)| HfSibling { rfilename: n.to_string(), size: Some(*s) })
                .collect(),
        ),
        ..Default::default()
    }
}

fn ids(models: &[HfModel]) -> Vec<&str> {
    models.iter().map(|m| m.model_id.as_str()).collect()
}

#[test]
fn requests_go_to_the_listing_and_to_the_model() {
    assert_eq!(models_url(), "https://huggingface.co/api/models");
    assert_eq!(model_details_url("org/r"), "https://huggingface.co/api/models/org/r");
    let mut expected = vec![
        ("filter".to_string(), "gguf".to_string()),
        ("sort".to_string(), "downloads".to_string()),
        ("direction".to_string(), "-1".to_string()),
        ("limit".to_string(), "150".to_string()),
    ];
    assert_eq!(candidate_params(None), expected);
    expected.push(("search".to_string(), "qwen 3".to_string()));
    assert_eq!(candidate_params(Some("qwen 3")), expected);
    assert_eq!(detail_params(), vec![("blobs".to_string(), "true".to_string())]);
}

#[test]
fn listed_models_fit_and_are_ranked_by_downloads() {
    let candidates = vec![
        (model("few", Some(1), &[]), Some(model("few", Some(1), &[("f-Q4_0.gguf", 90)]))),
        (model("big", Some(9), &[]), Some(model("big", Some(9), &[("b-Q4_0.gguf", 91)]))),
        (model("many", Some(5), &[]), Some(model("many", Some(5), &[("m-Q8_0.gguf", 500), ("m-Q2_K.gguf", 9)]))),
        (model("unranked", None, &[("u-Q4_0.gguf", 1)]), None),
        (model("zero", Some(0), &[("z-Q4_0.gguf", 1)]), None),
        (model("unknown-size", Some(7), &[("readme.md", 1)]), None),
        (model("no-files", Some(8), &[]), None),
    ];
    let kept = filter_to_fitting(candidates, 100);
    assert_eq!(ids(&kept), vec!["many", "few", "zero", "unranked"]);
    assert!(kept[1].siblings.as_ref().unwrap().len() == 1);
}

#[test]
fn at_most_twenty_models_are_listed() {
    let candidates = (0..50u64).map(|i| (model(&format!("m{i}"), Some(i), &[("m-Q4_0.gguf", 0)]), None)).collect();
    let kept = filter_to_fitting(candidates, 0);
    assert_eq!(kept.len(), 20);
    assert_eq!(kept[0].model_id, "m49");
    assert_eq!(kept[19].model_id, "m30");
}

#[test]
fn a_model_fits_by_its_smallest_quantization() {
    let m = model("m", None, &[("m-Q8_0.gguf", 50), ("m-Q2_K.gguf", 10)]);
    assert!(fits_budget(&m, 10));
    assert!(!fits_budget(&m, 9));
    assert!(!fits_budget(&model("m", None, &[]), u64::MAX));
}

#[test]
fn installed_models_are_kept_and_sorted_by_id() {
    let found = fetch_installed_models(vec![
        ("b/x".to_string(), None),
        ("a/y".to_string(), Some(model("a/y", Some(3), &[]))),
        ("B/z".to_string(), None),
    ]);
    assert_eq!(ids(&found), vec!["B/z", "a/y", "b/x"]);
    assert_eq!(found[1].downloads, Some(3));
    assert!(found[2].downloads.is_none() && found[2].siblings.is_none());
}

#[test]
fn ties_keep_their_order() {
    let models = vec![
        model("first", Some(1), &[]),
        model("top", Some(2), &[]),
        model("second", Some(1), &[]),
    ];
    let sorted = sort_models(models, ModelOrder::ByDownloads);
    assert_eq!(ids(&sorted), vec!["top", "first", "second"]);
    assert!(comes_first(ModelOrder::ById, &sorted[1], &sorted[2]));
    assert!(!comes_first(ModelOrder::ByDownloads, &sorted[1], &sorted[2]));
}

#[test]
fn ids_are_ordered_as_std_orders_strings() {
    let words = ["", "a", "A", "ab", "aé", "é", "z", "🦙", "a/b", "a-b", "a_b", "Z"];
    let mut expected: Vec<String> = words.iter().map(|w| w.to_string()).collect();
    expected.sort();
    let models = words.iter().map(|w| model(w, None, &[])).collect();
    let sorted = sort_models(models, ModelOrder::ById);
    assert_eq!(sorted.iter().map(|m| m.model_id.clone()).collect::<Vec<_>>(), expected);
}
