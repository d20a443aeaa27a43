use forge_talos::request::{EnvVars, Model, TalosRequest};

#[test]
fn models_have_their_flag_values() {
    assert_eq!(Model::GeminiFlash.as_str(), "gemini-flash-agent");
    assert_eq!(Model::GeminiPro.as_str(), "gemini-pro-agent");
    assert_eq!(Model::GeminiFlashLite.as_str(), "gemini-flash-lite-agent");
    assert_eq!(Model::default(), Model::GeminiFlash);
}

#[test]
fn a_new_request_has_only_a_prompt() {
    let request = TalosRequest::new("p");
    assert_eq!(request.prompt, "p");
    assert_eq!(request.model, Model::GeminiFlash);
    assert_eq!(request.model_name(), "gemini-flash-agent");
    assert_eq!(request.project, None);
    assert!(request.skills.is_empty());
    assert_eq!(request.conversation_id, None);
    assert_eq!(request.environment.len(), 0);
    assert_eq!(request.timeout_override, None);
}

#[test]
fn builders_set_one_field_each() {
    let request = TalosRequest::new("p")
        .with_model(Model::GeminiPro)
        .with_conversation_id("c")
        .with_project("d")
        .with_timeout(0)
        .with_env("k", "v");
    assert_eq!(request.prompt, "p");
    assert_eq!(request.model, Model::GeminiPro);
    assert_eq!(request.conversation_id.as_deref(), Some("c"));
    assert_eq!(request.project.as_deref(), Some("d"));
    assert_eq!(request.timeout_override, Some(0));
    assert_eq!(request.environment.get("k"), Some("v"));
}

#[test]
fn the_last_value_of_a_variable_wins() {
    let mut vars = EnvVars::new();
    vars.insert("a".to_string(), "1".to_string());
    vars.insert("b".to_string(), "2".to_string());
    vars.insert("a".to_string(), "3".to_string());
    assert_eq!(vars.len(), 2);
    assert_eq!(vars.entry(0), ("a", "3"));
    assert_eq!(vars.entry(1), ("b", "2"));
    assert_eq!(vars.get("a"), Some("3"));
    assert_eq!(vars.get("b"), Some("2"));
    assert_eq!(vars.get("c"), None);
    let twin = vars.clone();
    assert_eq!(twin.len(), 2);
    assert_eq!(twin.entry(0), ("a", "3"));
    assert_eq!(twin.entry(1), ("b", "2"));
}
