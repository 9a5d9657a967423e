use barbacane_plugins::ai_proxy::config::{AiProxy, Provider, Route, TargetConfig};
use barbacane_plugins::ai_proxy::models::{
    models_list_response, models_method_allowed, translate_models_response, CatalogResult, UpstreamFailure,
};
use barbacane_plugins::json::{parse_json, Json, JsonNumber};

fn json_value(j: &Json) -> serde_json::Value {
    match j {
        Json::Null => serde_json::Value::Null,
        Json::Bool(b) => serde_json::Value::Bool(*b),
        Json::Number(JsonNumber::PosInt(n)) => serde_json::Value::from(*n),
        Json::Number(JsonNumber::NegInt(n)) => serde_json::Value::from(*n),
        Json::Number(JsonNumber::Float(t)) => serde_json::from_str(t).expect("number"),
        Json::Str(s) => serde_json::Value::String(s.clone()),
        Json::Array(a) => serde_json::Value::Array(a.iter().map(json_value).collect()),
        Json::Object(m) => serde_json::Value::Object(m.iter().map(|(k, v)| (k.clone(), json_value(v))).collect()),
    }
}

fn mp_empty() -> AiProxy {
    AiProxy {
        provider: None,
        api_key: None,
        base_url: None,
        auth: None,
        timeout: 120,
        max_tokens: None,
        fallback: vec![],
        routes: vec![],
        targets: vec![],
        default_target: None,
        models_timeout_ms: 5_000,
    }
}

fn mp_route(provider: Provider, base_url: &str) -> Route {
    Route { pattern: "*".to_string(), provider, api_key: None, base_url: Some(base_url.to_string()), auth: None }
}

fn mp_target(provider: Provider, base_url: Option<&str>) -> TargetConfig {
    TargetConfig { provider, api_key: None, base_url: base_url.map(String::from), auth: None }
}

fn mp_json(s: &str) -> Json {
    parse_json(s.as_bytes()).unwrap()
}

fn mp_values(v: &[Json]) -> Vec<serde_json::Value> {
    v.iter().map(json_value).collect()
}

#[test]
fn collect_dedupes_by_provider_and_base_url() {
    let mut p = mp_empty();
    p.routes = vec![mp_route(Provider::OpenAI, "https://api.openai.com"), mp_route(Provider::OpenAI, "https://api.openai.com")];
    let out = p.collect_unique_providers();
    assert_eq!(out.len(), 1);
    assert!(matches!(out[0].provider, Provider::OpenAI));
}

#[test]
fn collect_keeps_separate_when_base_urls_differ() {
    let mut p = mp_empty();
    p.routes = vec![mp_route(Provider::OpenAI, "https://api.openai.com"), mp_route(Provider::OpenAI, "https://my-azure.openai.com")];
    assert_eq!(p.collect_unique_providers().len(), 2);
}

#[test]
fn collect_walks_routes_targets_flat_in_order() {
    let mut p = mp_empty();
    p.routes = vec![mp_route(Provider::Anthropic, "https://api.anthropic.com")];
    p.targets.push(("ollama".to_string(), mp_target(Provider::Ollama, Some("http://ollama.internal:11434"))));
    p.provider = Some(Provider::OpenAI);
    let out = p.collect_unique_providers();
    assert_eq!(out.len(), 3);
    assert!(matches!(out[0].provider, Provider::Anthropic));
    assert!(matches!(out[1].provider, Provider::Ollama));
    assert!(matches!(out[2].provider, Provider::OpenAI));
}

#[test]
fn collect_uses_default_base_url_when_unset() {
    let mut p = mp_empty();
    p.provider = Some(Provider::OpenAI);
    let out = p.collect_unique_providers();
    assert_eq!(out.len(), 1);
    assert_eq!(out[0].base_url, "https://api.openai.com");
}

#[test]
fn collect_returns_empty_when_no_providers() {
    assert!(mp_empty().collect_unique_providers().is_empty());
}

#[test]
fn translate_openai_passes_through_data_array() {
    let body = mp_json(r#"{"object":"list","data":[{"id":"gpt-4o","object":"model"},{"id":"gpt-4o-mini","object":"model"}]}"#);
    let out = mp_values(&translate_models_response(&Provider::OpenAI, &body));
    assert_eq!(out.len(), 2);
    assert_eq!(out[0]["id"], "gpt-4o");
    assert_eq!(out[0]["owned_by"], "openai");
}

#[test]
fn translate_anthropic_stamps_owned_by_from_provider_name() {
    let out = mp_values(&translate_models_response(&Provider::Anthropic, &mp_json(r#"{"data":[{"id":"sonnet-4-6"}]}"#)));
    assert_eq!(out[0]["owned_by"], "anthropic");
}

#[test]
fn translate_anthropic_preserves_existing_owned_by_if_present() {
    let body = mp_json(r#"{"data":[{"id":"m","owned_by":"anthropic-research"}]}"#);
    let out = mp_values(&translate_models_response(&Provider::Anthropic, &body));
    assert_eq!(out[0]["owned_by"], "anthropic-research");
}

#[test]
fn translate_ollama_reshapes_api_tags_to_openai_list() {
    let body = mp_json(r#"{"models":[{"name":"llama3","size":1234567},{"name":"mistral","size":7654321}]}"#);
    let out = mp_values(&translate_models_response(&Provider::Ollama, &body));
    assert_eq!(out.len(), 2);
    assert_eq!(out[0]["id"], "llama3");
    assert_eq!(out[0]["object"], "model");
    assert_eq!(out[0]["owned_by"], "ollama");
    assert!(out[0].get("size").is_none(), "size should be dropped");
}

#[test]
fn translate_handles_missing_data_array_gracefully() {
    let body = mp_json("{}");
    assert!(translate_models_response(&Provider::OpenAI, &body).is_empty());
    assert!(translate_models_response(&Provider::Anthropic, &body).is_empty());
    assert!(translate_models_response(&Provider::Ollama, &body).is_empty());
}

#[test]
fn translate_handles_empty_arrays() {
    assert!(translate_models_response(&Provider::OpenAI, &mp_json(r#"{"object":"list","data":[]}"#)).is_empty());
    assert!(translate_models_response(&Provider::Ollama, &mp_json(r#"{"models":[]}"#)).is_empty());
}

#[test]
fn handle_returns_405_for_non_get_methods() {
    let resp = match mp_empty().models_plan("POST") {
        Err(r) => r,
        Ok(_) => panic!("expected 405"),
    };
    assert_eq!(resp.status, 405);
    let body: serde_json::Value = serde_json::from_slice(resp.body.as_ref().unwrap()).unwrap();
    assert_eq!(body["code"], "method_not_allowed");
    assert_eq!(resp.headers.get("allow"), Some("GET".to_string()));
}

#[test]
fn handle_returns_500_when_no_providers_configured() {
    match mp_empty().models_plan("GET") {
        Err(r) => assert_eq!(r.status, 500),
        Ok(_) => panic!("expected 500"),
    }
}

#[test]
fn models_plan_lists_upstreams_for_get() {
    let mut p = mp_empty();
    p.provider = Some(Provider::Ollama);
    assert!(models_method_allowed("get"));
    match p.models_plan("get") {
        Ok(us) => assert_eq!(us[0].base_url, "http://localhost:11434"),
        Err(_) => panic!("expected upstreams"),
    }
}

#[test]
fn models_list_merges_and_reports_partial() {
    let results = vec![
        (Provider::OpenAI, CatalogResult::Models(vec![mp_json(r#"{"id":"a"}"#)])),
        (Provider::Anthropic, CatalogResult::Failed(UpstreamFailure { status: 502, detail: "down".to_string() })),
        (Provider::Ollama, CatalogResult::Models(vec![mp_json(r#"{"id":"b"}"#)])),
    ];
    let resp = models_list_response(results);
    assert_eq!(resp.status, 200);
    let body: serde_json::Value = serde_json::from_slice(resp.body.as_ref().unwrap()).unwrap();
    assert_eq!(body["object"], "list");
    assert_eq!(body["data"].as_array().unwrap().len(), 2);
    assert_eq!(body["partial"], true);
    assert_eq!(body["warnings"][0]["provider"], "anthropic");
    assert_eq!(body["warnings"][0]["status"], 502);
}

#[test]
fn models_list_without_failures_is_not_partial() {
    let resp = models_list_response(vec![(Provider::OpenAI, CatalogResult::Models(vec![]))]);
    let body: serde_json::Value = serde_json::from_slice(resp.body.as_ref().unwrap()).unwrap();
    assert!(body.get("partial").is_none());
    assert!(body.get("warnings").is_none());
}
