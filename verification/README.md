# barbacane_plugins

The request and response logic of the Barbacane gateway plugins, written in
Verus: every decision a plugin makes is an executable function whose contract
Verus proves.

## Layout

- `src/` — the verified library.
  - `text`, `headers`, `http`, `json`, `codec`, `pattern`, `sdk`: the shared
    model (strings as character sequences, header maps as maps, JSON values as
    a view type) and the small trusted items that call `serde_json`, `base64`,
    `regex`, `uuid` and the plugin SDK.
  - One module per plugin: `acl`, `bot_detection`, `ip_restriction`, `cors`,
    `correlation_id`, `apikey_auth`, `basic_auth`, `jwt_auth`, `cache`,
    `http_log`, `cel`, `http_upstream`, `lambda`, `kafka`, `fire_and_forget`,
    `ai_cost_tracker`, `ai_prompt_guard`, `ai_response_guard`,
    `ai_token_limit`, and `ai_proxy` (targets, fallback, the Chat Completions,
    Responses and Models protocols, and the Anthropic translation).
  - `cel_scan`: the admission check on CEL sources, which turns away the
    forms the CEL interpreter cannot evaluate without aborting and lists the
    comprehension ranges that `cel` checks against each request.
  - Laws that relate several functions are public proof functions named
    `law_*`, next to the functions they speak of.
- `app/` — the gateway side: configuration parsing (serde copies of the
  library's configuration types, with `From` both ways), the host calls
  (outbound HTTP, context, clock, rate limiter, cache, broker, metrics) and
  the conversions between the SDK's wire types and the library's types.
- `tests/` — tests of the library on concrete values.
