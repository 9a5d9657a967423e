//! Verified request/response logic of the Barbacane gateway plugins.

pub mod text;
pub mod headers;
pub mod http;
pub mod json;
pub mod codec;
pub mod sdk;
pub mod pattern;
pub mod ai_proxy;
pub mod acl;
pub mod bot_detection;
pub mod apikey_auth;
pub mod basic_auth;
pub mod cors;
pub mod correlation_id;
pub mod ip_restriction;
pub mod ai_prompt_guard;
pub mod ai_response_guard;
pub mod http_upstream;
pub mod lambda;
pub mod kafka;
pub mod jwt_auth;
pub mod ai_token_limit;
pub mod cache;
pub mod fire_and_forget;
pub mod ai_cost_tracker;
pub mod http_log;
pub mod cel_scan;
pub mod cel;
