use llama_tune::config::Config;

#[test]
fn default_config_has_no_persisted_state() {
    let config = Config::default();
    assert!(config.llama_cpp_path.is_none());
    assert!(config.last_launched_model_id.is_none());
}

#[test]
fn cloned_config_holds_the_same_settings() {
    let config = Config {
        llama_cpp_path: Some("/opt/llama".to_string()),
        last_launched_model_id: None,
    };
    let copy = config.clone();
    assert_eq!(copy.llama_cpp_path.as_deref(), Some("/opt/llama"));
    assert!(copy.last_launched_model_id.is_none());
}
