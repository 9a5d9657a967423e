use barbacane_plugins::ai_cost_tracker::{cost_step, escape_label, labels_provider_model, CostStep};

fn ct_keys(keys: &[&str]) -> Vec<String> {
    keys.iter().map(|k| k.to_string()).collect()
}

#[test]
fn on_response_emits_cost_metric() {
    let keys = ct_keys(&["openai/gpt-4o"]);
    match cost_step(&keys, Some("openai"), Some("gpt-4o"), Some("2000"), Some("500")) {
        CostStep::Charge { price, prompt_tokens, completion_tokens, labels } => {
            assert_eq!(price, 0);
            assert_eq!(prompt_tokens, 2000);
            assert_eq!(completion_tokens, 500);
            assert!(labels.contains("\"provider\":\"openai\""));
            assert!(labels.contains("\"model\":\"gpt-4o\""));
        }
        _ => panic!("expected a charge"),
    }
}

#[test]
fn on_response_noop_without_provider_context() {
    let keys = ct_keys(&["openai/gpt-4o"]);
    assert!(matches!(cost_step(&keys, None, None, None, None), CostStep::Skip));
}

#[test]
fn on_response_noop_without_model_context() {
    let keys = ct_keys(&["openai/gpt-4o"]);
    assert!(matches!(cost_step(&keys, Some("openai"), None, None, None), CostStep::Skip));
}

#[test]
fn on_response_unknown_model_is_noop_with_warning() {
    let keys = ct_keys(&["openai/gpt-4o"]);
    match cost_step(&keys, Some("openai"), Some("gpt-5-turbo"), Some("100"), None) {
        CostStep::UnknownModel(k) => assert!(k.contains("openai/gpt-5-turbo")),
        _ => panic!("expected an unknown model"),
    }
}

#[test]
fn on_response_unknown_model_warning_can_be_suppressed() {
    let keys: Vec<String> = Vec::new();
    assert!(matches!(
        cost_step(&keys, Some("openai"), Some("gpt-5-turbo"), Some("100"), None),
        CostStep::UnknownModel(_)
    ));
}

#[test]
fn on_response_noop_when_tokens_missing() {
    let keys = ct_keys(&["openai/gpt-4o"]);
    assert!(matches!(cost_step(&keys, Some("openai"), Some("gpt-4o"), None, None), CostStep::Skip));
}

#[test]
fn on_response_unparsable_tokens_count_as_zero() {
    let keys = ct_keys(&["openai/gpt-4o"]);
    assert!(matches!(cost_step(&keys, Some("openai"), Some("gpt-4o"), Some("-5"), Some("x")), CostStep::Skip));
    match cost_step(&keys, Some("openai"), Some("gpt-4o"), Some("abc"), Some("7")) {
        CostStep::Charge { prompt_tokens, completion_tokens, .. } => {
            assert_eq!(prompt_tokens, 0);
            assert_eq!(completion_tokens, 7);
        }
        _ => panic!("expected a charge"),
    }
}

#[test]
fn on_response_picks_matching_price_key() {
    let keys = ct_keys(&["anthropic/opus", "ollama/mistral"]);
    match cost_step(&keys, Some("ollama"), Some("mistral"), Some("100"), Some("200")) {
        CostStep::Charge { price, .. } => assert_eq!(price, 1),
        _ => panic!("expected a charge"),
    }
}

#[test]
fn labels_escape_quotes_and_backslashes() {
    assert_eq!(labels_provider_model("a\"b", "c\\d"), r#"{"provider":"a\"b","model":"c\\d"}"#);
    assert_eq!(escape_label("x\\\"y"), "x\\\\\\\"y");
}
