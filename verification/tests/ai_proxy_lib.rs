use barbacane_plugins::ai_proxy::chat_completion::{translate_from_anthropic, translate_to_anthropic};
use barbacane_plugins::ai_proxy::config::{AiProxy, Provider, TargetConfig};
use barbacane_plugins::ai_proxy::dispatch::{
    all_failed_response, error_response, extract_client_model, extract_tokens, initial_error, is_streaming_request,
    labels1, labels2, model_required_response, next_step, no_provider_response, propagate_context, route_for_path,
    dispatch_entry, Attempt, DispatchEntry, NextStep, ProxyRoute,
};
use barbacane_plugins::ai_proxy::transport::{chat_call, ChatCall};
use barbacane_plugins::headers::HeaderMap;
use barbacane_plugins::http::{Request, Response};

fn ap_plugin(provider: Option<Provider>) -> AiProxy {
    AiProxy {
        provider,
        api_key: Some("test-key".to_string()),
        base_url: None,
        auth: None,
        timeout: 120,
        max_tokens: None,
        fallback: vec![],
        routes: vec![],
        targets: vec![],
        default_target: None,
        models_timeout_ms: 5000,
    }
}

fn ap_target(provider: Provider, api_key: Option<&str>, base_url: Option<&str>) -> TargetConfig {
    TargetConfig { provider, api_key: api_key.map(String::from), base_url: base_url.map(String::from), auth: None }
}

fn ap_body(s: &str) -> Option<Vec<u8>> {
    Some(s.as_bytes().to_vec())
}

fn ap_to_anthropic(body: &str, model: &str, stream: bool, max: Option<u32>) -> serde_json::Value {
    serde_json::from_str(&translate_to_anthropic(&ap_body(body), model, stream, max).ok().expect("should translate")).unwrap()
}

fn ap_json(r: &Response) -> serde_json::Value {
    serde_json::from_slice(r.body.as_ref().unwrap()).unwrap()
}

fn ap_lookup(ctx: &[(String, String)], k: &str) -> Option<String> {
    ctx.iter().find(|(a, _)| a == k).map(|(_, b)| b.clone())
}

/// Runs the fallback chain with every attempt failing at the connection.
fn ap_all_connections_fail(plugin: &AiProxy) -> Response {
    let primary = plugin.resolve_target(None).expect("target");
    let chain = plugin.try_list(primary);
    let mut last = initial_error();
    for (i, t) in chain.iter().enumerate() {
        match next_step(i, chain.len(), t, Attempt::Failed("host_http_call failed".to_string())) {
            NextStep::TryNext(e) => last = e,
            NextStep::Accept => panic!("a failed connection is never accepted"),
        }
    }
    all_failed_response(&last)
}

#[test]
fn resolve_flat_config() {
    let target = ap_plugin(Some(Provider::OpenAI)).resolve_target(None).expect("should resolve");
    assert!(matches!(target.provider, Provider::OpenAI));
    assert_eq!(target.api_key.as_deref(), Some("test-key"));
}

#[test]
fn resolve_default_target() {
    let mut plugin = ap_plugin(None);
    plugin.targets = vec![("local".to_string(), ap_target(Provider::Ollama, None, None))];
    plugin.default_target = Some("local".to_string());
    assert!(matches!(plugin.resolve_target(None).expect("should resolve").provider, Provider::Ollama));
}

#[test]
fn resolve_context_target_overrides_default() {
    let mut plugin = ap_plugin(None);
    plugin.targets = vec![
        ("local".to_string(), ap_target(Provider::Ollama, None, None)),
        ("premium".to_string(), ap_target(Provider::Anthropic, Some("sk-ant"), None)),
    ];
    plugin.default_target = Some("local".to_string());
    assert!(matches!(plugin.resolve_target(Some("premium")).expect("should resolve").provider, Provider::Anthropic));
    assert!(matches!(plugin.resolve_target(Some("unknown")).expect("should resolve").provider, Provider::Ollama));
}

#[test]
fn resolve_none_when_no_config() {
    let mut plugin = ap_plugin(None);
    plugin.api_key = None;
    assert!(plugin.resolve_target(None).is_none());
}

#[test]
fn streaming_detection_true() {
    assert!(is_streaming_request(&ap_body(r#"{"stream":true,"messages":[]}"#)));
}

#[test]
fn streaming_detection_false() {
    assert!(!is_streaming_request(&ap_body(r#"{"stream":false,"messages":[]}"#)));
}

#[test]
fn streaming_detection_absent() {
    assert!(!is_streaming_request(&ap_body(r#"{"messages":[]}"#)));
}

#[test]
fn streaming_detection_no_body() {
    assert!(!is_streaming_request(&None));
}

#[test]
fn translate_to_anthropic_basic() {
    let v = ap_to_anthropic(r#"{"model":"opus-4-6","messages":[{"role":"user","content":"Hello"}],"max_tokens":1024}"#, "opus-4-6", false, None);
    assert_eq!(v["model"].as_str(), Some("opus-4-6"));
    assert_eq!(v["max_tokens"].as_u64(), Some(1024));
    assert!(v["system"].is_null());
    let msgs = v["messages"].as_array().expect("messages");
    assert_eq!(msgs.len(), 1);
    assert_eq!(msgs[0]["role"].as_str(), Some("user"));
}

#[test]
fn translate_to_anthropic_extracts_system_message() {
    let v = ap_to_anthropic(
        r#"{"messages":[{"role":"system","content":"You are helpful."},{"role":"user","content":"Hi"}]}"#,
        "opus-4-6",
        false,
        None,
    );
    assert_eq!(v["system"].as_str(), Some("You are helpful."));
    let msgs = v["messages"].as_array().expect("messages");
    assert_eq!(msgs.len(), 1);
    assert_eq!(msgs[0]["role"].as_str(), Some("user"));
}

#[test]
fn translate_to_anthropic_multiple_system_messages_joined() {
    let v = ap_to_anthropic(
        r#"{"messages":[{"role":"system","content":"Part one."},{"role":"system","content":"Part two."},{"role":"user","content":"Hello"}]}"#,
        "m",
        false,
        None,
    );
    assert_eq!(v["system"].as_str(), Some("Part one.\nPart two."));
}

#[test]
fn translate_to_anthropic_uses_default_max_tokens() {
    let v = ap_to_anthropic(r#"{"messages":[{"role":"user","content":"hi"}]}"#, "m", false, Some(2048));
    assert_eq!(v["max_tokens"].as_u64(), Some(2048));
}

#[test]
fn translate_to_anthropic_fallback_max_tokens_4096() {
    let v = ap_to_anthropic(r#"{"messages":[{"role":"user","content":"hi"}]}"#, "m", false, None);
    assert_eq!(v["max_tokens"].as_u64(), Some(4096));
}

#[test]
fn translate_to_anthropic_optional_params() {
    let v = ap_to_anthropic(r#"{"messages":[{"role":"user","content":"hi"}],"temperature":0.7,"top_p":0.9}"#, "m", false, None);
    assert!((v["temperature"].as_f64().unwrap() - 0.7).abs() < 0.001);
    assert!((v["top_p"].as_f64().unwrap() - 0.9).abs() < 0.001);
}

#[test]
fn translate_to_anthropic_stream_flag() {
    let v = ap_to_anthropic(r#"{"messages":[{"role":"user","content":"hi"}]}"#, "m", true, None);
    assert_eq!(v["stream"].as_bool(), Some(true));
}

#[test]
fn translate_to_anthropic_rejects_invalid_body() {
    match translate_to_anthropic(&ap_body("not json"), "m", false, None) {
        Err(e) => assert!(e.starts_with("invalid request body: ")),
        Ok(_) => panic!("expected an error"),
    }
}

#[test]
fn translate_from_anthropic_basic() {
    let body = r#"{"id":"msg_123","type":"message","role":"assistant","model":"opus-4-6",
        "content":[{"type":"text","text":"Hello there!"}],"stop_reason":"end_turn","usage":{"input_tokens":10,"output_tokens":5}}"#;
    let v: serde_json::Value = serde_json::from_str(&translate_from_anthropic(body).ok().expect("should translate")).unwrap();
    assert_eq!(v["id"].as_str(), Some("msg_123"));
    assert_eq!(v["object"].as_str(), Some("chat.completion"));
    let choices = v["choices"].as_array().expect("choices");
    assert_eq!(choices.len(), 1);
    assert_eq!(choices[0]["message"]["content"].as_str(), Some("Hello there!"));
    assert_eq!(choices[0]["message"]["role"].as_str(), Some("assistant"));
    assert_eq!(choices[0]["finish_reason"].as_str(), Some("stop"));
    assert_eq!(v["usage"]["prompt_tokens"].as_u64(), Some(10));
    assert_eq!(v["usage"]["completion_tokens"].as_u64(), Some(5));
    assert_eq!(v["usage"]["total_tokens"].as_u64(), Some(15));
}

#[test]
fn translate_from_anthropic_max_tokens_stop_reason() {
    let body = r#"{"id":"msg_456","model":"opus-4-6","content":[{"type":"text","text":"truncated"}],
        "stop_reason":"max_tokens","usage":{"input_tokens":5,"output_tokens":100}}"#;
    let v: serde_json::Value = serde_json::from_str(&translate_from_anthropic(body).ok().unwrap()).unwrap();
    assert_eq!(v["choices"][0]["finish_reason"].as_str(), Some("length"));
}

#[test]
fn translate_from_anthropic_invalid_json() {
    assert!(translate_from_anthropic("not json").is_err());
}

#[test]
fn extract_tokens_from_openai_response() {
    let body = ap_body(r#"{"usage":{"prompt_tokens":20,"completion_tokens":80,"total_tokens":100}}"#);
    assert_eq!(extract_tokens(&body), Some((20, 80)));
}

#[test]
fn extract_tokens_missing_usage() {
    assert!(extract_tokens(&ap_body(r#"{"choices":[]}"#)).is_none());
}

#[test]
fn extract_tokens_none_body() {
    assert!(extract_tokens(&None).is_none());
}

#[test]
fn inject_max_tokens_when_missing() {
    let mut plugin = ap_plugin(Some(Provider::OpenAI));
    plugin.max_tokens = Some(2048);
    let result = plugin.maybe_inject_max_tokens(&ap_body(r#"{"messages":[]}"#)).expect("body");
    let v: serde_json::Value = serde_json::from_slice(&result).unwrap();
    assert_eq!(v["max_tokens"].as_u64(), Some(2048));
}

#[test]
fn inject_max_tokens_skipped_when_present() {
    let mut plugin = ap_plugin(Some(Provider::OpenAI));
    plugin.max_tokens = Some(2048);
    let result = plugin.maybe_inject_max_tokens(&ap_body(r#"{"messages":[],"max_tokens":512}"#)).expect("body");
    let v: serde_json::Value = serde_json::from_slice(&result).unwrap();
    assert_eq!(v["max_tokens"].as_u64(), Some(512));
}

#[test]
fn dispatch_500_when_no_provider() {
    let mut plugin = ap_plugin(None);
    plugin.api_key = None;
    assert!(plugin.resolve_target(None).is_none());
    assert_eq!(no_provider_response().status, 500);
}

#[test]
fn dispatch_502_on_connection_failure() {
    let resp = ap_all_connections_fail(&ap_plugin(Some(Provider::OpenAI)));
    assert_eq!(resp.status, 502);
    assert_eq!(ap_json(&resp)["detail"], "ai-proxy: host_http_call failed");
}

#[test]
fn dispatch_502_anthropic_on_connection_failure() {
    let mut plugin = ap_plugin(Some(Provider::Anthropic));
    plugin.fallback = vec![ap_target(Provider::OpenAI, None, None)];
    assert_eq!(ap_all_connections_fail(&plugin).status, 502);
}

#[test]
fn fallback_moves_on_after_5xx_until_502() {
    let t = ap_target(Provider::OpenAI, None, None);
    match next_step(0, 2, &t, Attempt::Responded(503)) {
        NextStep::TryNext(e) => assert_eq!(e, "provider openai returned 503"),
        NextStep::Accept => panic!("expected to try the next target"),
    }
    let last = match next_step(1, 2, &t, Attempt::Responded(503)) {
        NextStep::TryNext(e) => e,
        NextStep::Accept => panic!("a 5xx from the last target must not be returned"),
    };
    let resp = all_failed_response(&last);
    assert_eq!(resp.status, 502);
    assert!(matches!(next_step(0, 2, &t, Attempt::Responded(429)), NextStep::Accept));
    assert!(matches!(next_step(1, 2, &t, Attempt::Responded(200)), NextStep::Accept));
}

#[test]
fn anthropic_streaming_logs_warning() {
    let body = ap_body(r#"{"model":"opus-4-6","messages":[{"role":"user","content":"hi"}],"stream":true}"#);
    assert!(is_streaming_request(&body));
    assert!(matches!(chat_call(&Provider::Anthropic, true), ChatCall::Anthropic));
    assert!(matches!(chat_call(&Provider::OpenAI, true), ChatCall::OpenAiStream));
    assert!(matches!(chat_call(&Provider::Ollama, false), ChatCall::OpenAiCall));
}

#[test]
fn dispatch_400_when_body_missing_model() {
    assert!(extract_client_model(&ap_body(r#"{"messages":[{"role":"user","content":"hi"}]}"#)).is_none());
    let resp = model_required_response();
    assert_eq!(resp.status, 400);
    let body = ap_json(&resp);
    assert_eq!(body["code"].as_str(), Some("model_required"));
    assert_eq!(body["type"].as_str(), Some("urn:barbacane:error:model_required"));
}

#[test]
fn dispatch_400_when_model_is_empty_string() {
    assert!(extract_client_model(&ap_body(r#"{"model":"","messages":[]}"#)).is_none());
    assert_eq!(ap_json(&model_required_response())["code"].as_str(), Some("model_required"));
}

#[test]
fn dispatch_400_when_body_is_missing_entirely() {
    assert!(extract_client_model(&None).is_none());
    assert_eq!(model_required_response().status, 400);
}

#[test]
fn extract_client_model_helper() {
    assert_eq!(extract_client_model(&ap_body(r#"{"model":"gpt-4o"}"#)), Some("gpt-4o".to_string()));
    assert_eq!(extract_client_model(&ap_body(r#"{"model":""}"#)), None);
    assert_eq!(extract_client_model(&ap_body(r#"{"model":42}"#)), None);
    assert_eq!(extract_client_model(&ap_body(r#"{"messages":[]}"#)), None);
    assert_eq!(extract_client_model(&ap_body("not-json")), None);
    assert_eq!(extract_client_model(&None), None);
}

#[test]
fn dispatch_unknown_path_returns_404() {
    assert!(matches!(route_for_path("/v1/chat/completions"), ProxyRoute::ChatCompletions));
    match route_for_path("/v1/something-else") {
        ProxyRoute::NotFound(resp) => {
            assert_eq!(resp.status, 404);
            assert_eq!(ap_json(&resp)["type"].as_str(), Some("urn:barbacane:error:not-found"));
        }
        ProxyRoute::ChatCompletions => panic!("expected 404"),
    }
}

#[test]
fn error_response_502_format() {
    let resp = error_response(502, "all providers failed");
    assert_eq!(resp.status, 502);
    assert_eq!(resp.headers.get("content-type"), Some("application/problem+json".to_string()));
    let body = ap_json(&resp);
    assert_eq!(body["type"].as_str(), Some("urn:barbacane:error:upstream-unavailable"));
    assert_eq!(body["status"].as_u64(), Some(502));
}

#[test]
fn error_response_500_format() {
    let resp = error_response(500, "misconfiguration");
    assert_eq!(resp.status, 500);
    assert_eq!(ap_json(&resp)["type"].as_str(), Some("urn:barbacane:error:internal"));
}

#[test]
fn labels1_format() {
    assert_eq!(labels1("provider", "openai"), r#"{"provider":"openai"}"#);
}

#[test]
fn labels2_format() {
    assert_eq!(labels2("provider", "openai", "status", "200"), r#"{"provider":"openai","status":"200"}"#);
}

#[test]
fn propagate_context_sets_provider_and_model() {
    let resp = Response {
        status: 200,
        headers: HeaderMap::new(),
        body: ap_body(r#"{"usage":{"prompt_tokens":10,"completion_tokens":20,"total_tokens":30}}"#),
    };
    let p = propagate_context(&ap_target(Provider::OpenAI, None, None), "gpt-4o", &resp);
    assert_eq!(ap_lookup(&p.context, "ai.provider").as_deref(), Some("openai"));
    assert_eq!(ap_lookup(&p.context, "ai.model").as_deref(), Some("gpt-4o"));
    assert_eq!(ap_lookup(&p.context, "ai.prompt_tokens").as_deref(), Some("10"));
    assert_eq!(ap_lookup(&p.context, "ai.completion_tokens").as_deref(), Some("20"));
}

#[test]
fn propagate_context_skips_tokens_for_streamed_response() {
    let resp = Response { status: 0, headers: HeaderMap::new(), body: None };
    let p = propagate_context(&ap_target(Provider::Ollama, None, None), "mistral", &resp);
    assert_eq!(ap_lookup(&p.context, "ai.provider").as_deref(), Some("ollama"));
    assert_eq!(ap_lookup(&p.context, "ai.model").as_deref(), Some("mistral"));
    assert!(ap_lookup(&p.context, "ai.prompt_tokens").is_none());
    assert!(ap_lookup(&p.context, "ai.completion_tokens").is_none());
    assert!(p.tokens.is_none());
}

#[test]
fn propagate_context_records_token_metrics() {
    let resp = Response {
        status: 200,
        headers: HeaderMap::new(),
        body: ap_body(r#"{"usage":{"prompt_tokens":5,"completion_tokens":15,"total_tokens":20}}"#),
    };
    let p = propagate_context(&ap_target(Provider::Anthropic, None, None), "opus-4-6", &resp);
    assert_eq!(p.tokens, Some((5, 15)));
}

#[test]
fn provider_names() {
    assert_eq!(Provider::OpenAI.name(), "openai");
    assert_eq!(Provider::Anthropic.name(), "anthropic");
    assert_eq!(Provider::Ollama.name(), "ollama");
}

#[test]
fn provider_default_base_urls() {
    assert_eq!(Provider::OpenAI.default_base_url(), "https://api.openai.com");
    assert_eq!(Provider::Anthropic.default_base_url(), "https://api.anthropic.com");
    assert_eq!(Provider::Ollama.default_base_url(), "http://localhost:11434");
}

#[test]
fn provider_openai_compatible() {
    assert!(Provider::OpenAI.is_openai_compatible());
    assert!(Provider::Ollama.is_openai_compatible());
    assert!(!Provider::Anthropic.is_openai_compatible());
}

#[test]
fn target_effective_base_url_custom() {
    let t = ap_target(Provider::OpenAI, None, Some("https://my-azure.openai.com"));
    assert_eq!(t.effective_base_url(), "https://my-azure.openai.com");
}

#[test]
fn target_effective_base_url_default() {
    assert_eq!(ap_target(Provider::Anthropic, None, None).effective_base_url(), "https://api.anthropic.com");
}

fn ap_request(path: &str, body: Option<Vec<u8>>) -> Request {
    Request {
        method: "POST".to_string(),
        path: path.to_string(),
        query: None,
        headers: HeaderMap::new(),
        body,
        client_ip: "127.0.0.1".to_string(),
        path_params: HeaderMap::new(),
    }
}

#[test]
fn dispatch_entry_answers_before_any_target() {
    match dispatch_entry(&ap_request("/v1/chat/completions", ap_body(r#"{"messages":[]}"#))) {
        DispatchEntry::Answer(resp) => {
            assert_eq!(resp.status, 400);
            assert_eq!(ap_json(&resp)["code"].as_str(), Some("model_required"));
        }
        DispatchEntry::Proceed(_) => panic!("a body without a model must be answered"),
    }
    match dispatch_entry(&ap_request("/v1/other", ap_body(r#"{"model":"gpt-4o"}"#))) {
        DispatchEntry::Answer(resp) => assert_eq!(resp.status, 404),
        DispatchEntry::Proceed(_) => panic!("an unknown path must be answered"),
    }
    match dispatch_entry(&ap_request("/v1/chat/completions", ap_body(r#"{"model":"gpt-4o"}"#))) {
        DispatchEntry::Proceed(m) => assert_eq!(m, "gpt-4o"),
        DispatchEntry::Answer(_) => panic!("a body with a model goes on"),
    }
}
