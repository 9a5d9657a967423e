use barbacane_plugins::ai_proxy::tools::{chat_tools_to_anthropic, responses_tools_to_anthropic, tool_choice_to_anthropic};
use barbacane_plugins::json::{parse_json, Json, JsonNumber};

fn json_value(j: &Json) -> serde_json::Value {
    match j {
        Json::Null => serde_json::Value::Null,
        Json::Bool(b) => serde_json::Value::Bool(*b),
        Json::Number(JsonNumber::PosInt(n)) => serde_json::Value::from(*n),
        Json::Number(JsonNumber::NegInt(n)) => serde_json::Value::from(*n),
        Json::Number(JsonNumber::Float(t)) => serde_json::from_str(t).expect("number"),
        Json::Str(s) => serde_json::Value::String(s.clone()),
        Json::Array(a) => serde_json::Value::Array(a.iter().map(json_value).collect()),
        Json::Object(m) => serde_json::Value::Object(m.iter().map(|(k, v)| (k.clone(), json_value(v))).collect()),
    }
}

fn tj(s: &str) -> Json {
    parse_json(s.as_bytes()).expect("json")
}

fn tv(j: &Json) -> serde_json::Value {
    json_value(j)
}

fn tvo(j: Option<Json>) -> Option<serde_json::Value> {
    j.map(|x| tv(&x))
}

fn tparse(s: &str) -> serde_json::Value {
    serde_json::from_str(s).unwrap()
}

#[test]
fn chat_tools_map_function_shape_to_input_schema() {
    let openai = tj(r#"{"tools":[{"type":"function","function":{"name":"get_weather","description":"Get weather",
        "parameters":{"type":"object","properties":{"city":{"type":"string"}}}}}]}"#);
    let tools = tv(&chat_tools_to_anthropic(&openai).expect("tools"));
    let t = &tools.as_array().unwrap()[0];
    assert_eq!(t["name"], "get_weather");
    assert_eq!(t["description"], "Get weather");
    assert_eq!(t["input_schema"]["properties"]["city"]["type"], "string");
    assert!(t.get("function").is_none(), "must be flattened for Anthropic");
}

#[test]
fn chat_tools_default_input_schema_when_parameters_missing() {
    let tools = tv(&chat_tools_to_anthropic(&tj(r#"{"tools":[{"type":"function","function":{"name":"ping"}}]}"#)).unwrap());
    assert_eq!(tools[0]["input_schema"], tparse(r#"{"type":"object"}"#));
}

#[test]
fn chat_tools_none_when_absent() {
    assert!(chat_tools_to_anthropic(&tj("{}")).is_none());
    assert!(chat_tools_to_anthropic(&tj(r#"{"tools":[]}"#)).is_none());
}

#[test]
fn responses_tools_map_flat_function_shape() {
    let r = tj(r#"{"tools":[{"type":"function","name":"get_time","parameters":{"type":"object"}}]}"#);
    let tools = tv(&responses_tools_to_anthropic(&r).ok().unwrap().unwrap());
    assert_eq!(tools[0]["name"], "get_time");
    assert_eq!(tools[0]["input_schema"], tparse(r#"{"type":"object"}"#));
}

#[test]
fn responses_tools_reject_custom_freeform() {
    let r = tj(r#"{"tools":[{"type":"custom","name":"apply_patch"}]}"#);
    match responses_tools_to_anthropic(&r) {
        Err(e) => assert_eq!(e.tool_type, "custom"),
        Ok(_) => panic!("expected a rejection"),
    }
}

#[test]
fn responses_tools_reject_local_shell() {
    match responses_tools_to_anthropic(&tj(r#"{"tools":[{"type":"local_shell"}]}"#)) {
        Err(e) => assert_eq!(e.tool_type, "local_shell"),
        Ok(_) => panic!("expected a rejection"),
    }
}

#[test]
fn responses_tools_none_when_absent_or_empty() {
    assert!(matches!(responses_tools_to_anthropic(&tj("{}")), Ok(None)));
    assert!(matches!(responses_tools_to_anthropic(&tj(r#"{"tools":[]}"#)), Ok(None)));
}

#[test]
fn tool_choice_string_forms() {
    assert_eq!(tvo(tool_choice_to_anthropic(Some(&tj(r#""auto""#)), None)), Some(tparse(r#"{"type":"auto"}"#)));
    assert_eq!(tvo(tool_choice_to_anthropic(Some(&tj(r#""required""#)), None)), Some(tparse(r#"{"type":"any"}"#)));
    assert_eq!(tvo(tool_choice_to_anthropic(Some(&tj(r#""none""#)), None)), Some(tparse(r#"{"type":"none"}"#)));
}

#[test]
fn tool_choice_named_forms_both_protocols() {
    let chat = tj(r#"{"type":"function","function":{"name":"f"}}"#);
    assert_eq!(tvo(tool_choice_to_anthropic(Some(&chat), None)), Some(tparse(r#"{"type":"tool","name":"f"}"#)));
    let flat = tj(r#"{"type":"function","name":"f"}"#);
    assert_eq!(tvo(tool_choice_to_anthropic(Some(&flat), None)), Some(tparse(r#"{"type":"tool","name":"f"}"#)));
}

#[test]
fn tool_choice_parallel_disabled_adds_flag() {
    assert_eq!(
        tvo(tool_choice_to_anthropic(None, Some(false))),
        Some(tparse(r#"{"type":"auto","disable_parallel_tool_use":true}"#))
    );
    assert_eq!(
        tvo(tool_choice_to_anthropic(Some(&tj(r#""required""#)), Some(false))),
        Some(tparse(r#"{"type":"any","disable_parallel_tool_use":true}"#))
    );
}

#[test]
fn tool_choice_none_when_implicit() {
    assert!(tool_choice_to_anthropic(None, None).is_none());
    assert!(tool_choice_to_anthropic(None, Some(true)).is_none());
}
