use soma_agent::agent::Agent;
use soma_agent::config::{tool_endpoints, ConfigError};
use soma_agent::http::{bearer, chat_body, chat_reply, chat_url, transport_failure};
use soma_agent::json::Json;
use soma_agent::rpc::{handshake_params, invoke_params, invoke_reply, rpc_outcome, rpc_request, schema_params, SchemaCache};
use soma_agent::sandbox::{sandbox_arg, sandbox_reply, SandboxOutcome};

fn s(text: &str) -> Json {
    Json::Str(text.to_string())
}

fn n(v: i64) -> Json {
    Json::Number(v.to_string())
}

fn obj(entries: Vec<(&str, Json)>) -> Json {
    Json::Object(entries.into_iter().map(|(k, v)| (k.to_string(), v)).collect())
}

fn messages() -> Json {
    Json::Array(vec![obj(vec![("role", s("user")), ("content", s("hi"))])])
}

fn ping_tool() -> Json {
    obj(vec![("name", s("ping")), ("description", s("")), ("parameters", obj(vec![]))])
}

#[test]
fn openai_dialect_maps_fields() {
    let context = obj(vec![
        ("tools", Json::Array(vec![ping_tool()])),
        ("tool_choice", s("auto")),
        ("reasoning", Json::Bool(true)),
    ]);
    let expected = obj(vec![
        ("model", s("gpt-test")),
        ("messages", messages()),
        (
            "tools",
            Json::Array(vec![obj(vec![("type", s("function")), ("function", ping_tool())])]),
        ),
        ("tool_choice", s("auto")),
        ("reasoning", obj(vec![("effort", s("medium"))])),
    ]);
    assert_eq!(chat_body("gpt-test", messages(), &context), expected);
    let answer = obj(vec![("id", s("1")), ("usage", obj(vec![("total_tokens", n(1))]))]);
    let reply = chat_reply(true, Ok(answer), 3);
    assert!(reply.ok);
    assert_eq!(reply.output.get("id"), Some(&s("1")));
    assert_eq!(reply.cost, obj(vec![("total_tokens", n(1))]));
}

#[test]
fn dashscope_dialect_maps_fields() {
    let context = obj(vec![
        ("dialect", s("dashscope")),
        ("tools", Json::Array(vec![ping_tool()])),
        ("tool_choice", s("none")),
        ("reasoning", Json::Bool(true)),
    ]);
    let expected = obj(vec![
        ("model", s("qwen-test")),
        ("messages", messages()),
        ("functions", Json::Array(vec![ping_tool()])),
        ("function_call", s("none")),
        ("enable_chain_of_thought", Json::Bool(true)),
    ]);
    assert_eq!(chat_body("qwen-test", messages(), &context), expected);
    let reply = chat_reply(true, Ok(obj(vec![("id", s("2"))])), 3);
    assert!(reply.ok);
    assert_eq!(reply.output.get("id"), Some(&s("2")));
    assert_eq!(reply.cost, obj(vec![]));
}

#[test]
fn plain_context_sends_model_and_messages_only() {
    let body = chat_body("m", messages(), &obj(vec![("reasoning", Json::Bool(false))]));
    assert_eq!(body, obj(vec![("model", s("m")), ("messages", messages())]));
    let body = chat_body("m", messages(), &obj(vec![("tools", s("not a list"))]));
    assert_eq!(
        body,
        obj(vec![("model", s("m")), ("messages", messages()), ("tools", Json::Array(vec![]))])
    );
}

#[test]
fn chat_url_and_header() {
    assert_eq!(chat_url("http://h:1//"), "http://h:1/v1/chat/completions");
    assert_eq!(chat_url("http://h:1"), "http://h:1/v1/chat/completions");
    assert_eq!(bearer("k"), "Bearer k");
}

#[test]
fn unreadable_or_unreachable_answers() {
    let r = chat_reply(false, Err("bad body".to_string()), 9);
    assert!(!r.ok);
    assert_eq!(r.output, obj(vec![("error", s("bad body"))]));
    assert_eq!(r.latency_ms, 9);
    let r = transport_failure("refused", 4);
    assert!(!r.ok);
    assert_eq!(r.output, obj(vec![("error", s("refused"))]));
    assert_eq!(r.cost, obj(vec![]));
}

#[test]
fn client_invokes() {
    let hello = rpc_request(1, "handshake", handshake_params());
    assert_eq!(
        hello,
        obj(vec![
            ("jsonrpc", s("2.0")),
            ("id", n(1)),
            ("method", s("handshake")),
            ("params", obj(vec![])),
        ])
    );
    let answer = obj(vec![("jsonrpc", s("2.0")), ("id", n(1)), ("result", obj(vec![("ok", Json::Bool(true))]))]);
    assert!(rpc_outcome(&answer).is_ok());
    let call = rpc_request(2, "invoke", invoke_params("ping", obj(vec![])));
    assert_eq!(
        call.get("params"),
        Some(&obj(vec![("tool", s("ping")), ("input", obj(vec![]))]))
    );
    let answer = obj(vec![("jsonrpc", s("2.0")), ("id", n(2)), ("result", obj(vec![("pong", Json::Bool(true))]))]);
    assert_eq!(rpc_outcome(&answer), Ok(obj(vec![("pong", Json::Bool(true))])));
}

#[test]
fn rpc_errors_and_missing_results() {
    let answer = obj(vec![("error", obj(vec![("code", n(-1))])), ("result", n(5))]);
    assert_eq!(rpc_outcome(&answer), Err(obj(vec![("code", n(-1))])));
    assert_eq!(rpc_outcome(&obj(vec![("id", n(3))])), Ok(Json::Null));
    assert_eq!(schema_params("t"), obj(vec![("tool", s("t"))]));
}

#[test]
fn mcp_tool_from_config_invokes() {
    let text = "{\"ping\": \"http://127.0.0.1:9/\"}";
    let entries = tool_endpoints(text).unwrap();
    assert_eq!(entries, vec![("ping".to_string(), "http://127.0.0.1:9/".to_string())]);
    let mut agent = Agent::new(1, 1000, 1);
    for (name, _url) in entries.iter() {
        agent.register_tool(name);
    }
    assert!(agent.has_tool("ping"));
    let answer = obj(vec![("jsonrpc", s("2.0")), ("id", n(3)), ("result", s("pong"))]);
    let reply = invoke_reply(rpc_outcome(&answer).map_err(|e| format!("{:?}", e)), 1);
    assert!(reply.ok);
    assert_eq!(reply.output, s("pong"));
}

#[test]
fn config_entries_come_in_name_order() {
    let entries = tool_endpoints("{\"b\": \"u2\", \"a\": \"u1\"}").unwrap();
    assert_eq!(
        entries,
        vec![("a".to_string(), "u1".to_string()), ("b".to_string(), "u2".to_string())]
    );
    assert!(matches!(tool_endpoints("[1]"), Err(ConfigError::Malformed(_))));
    assert!(matches!(tool_endpoints("{\"a\": 1}"), Err(ConfigError::Malformed(_))));
}

#[test]
fn failed_invocation_reply() {
    let reply = invoke_reply(Err("rpc error: boom".to_string()), 2);
    assert!(!reply.ok);
    assert_eq!(reply.output, obj(vec![("error", s("rpc error: boom"))]));
    assert_eq!(reply.cost, obj(vec![]));
}

#[test]
fn schema_cache_fetches_once() {
    let mut cache = SchemaCache::new();
    assert!(!cache.has("ping"));
    cache.record("ping", obj(vec![("v", n(1))]));
    cache.record("ping", obj(vec![("v", n(2))]));
    assert!(cache.has("ping"));
    assert_eq!(cache.get("ping"), Some(&obj(vec![("v", n(1))])));
    assert_eq!(cache.get("pong"), None);
}

#[test]
fn sandbox_arguments() {
    assert_eq!(sandbox_arg(&n(21)), 21);
    assert_eq!(sandbox_arg(&n(-7)), -7);
    assert_eq!(sandbox_arg(&Json::Number("1.5".to_string())), 0);
    assert_eq!(sandbox_arg(&Json::Number("4294967298".to_string())), 2);
    assert_eq!(sandbox_arg(&s("21")), 0);
}

#[test]
fn sandbox_replies() {
    let r = sandbox_reply(SandboxOutcome::Returned(42), 5, 1000);
    assert!(r.ok);
    assert_eq!(r.output, n(42));
    let r = sandbox_reply(SandboxOutcome::Returned(-3), 5, 1000);
    assert_eq!(r.output, n(-3));
    let r = sandbox_reply(SandboxOutcome::Failed("all fuel consumed".to_string()), 5, 1000);
    assert!(!r.ok);
    assert_eq!(r.output, obj(vec![("error", s("all fuel consumed"))]));
    let r = sandbox_reply(SandboxOutcome::TimedOut, 5, 50);
    assert_eq!(r.output, obj(vec![("error", s("timeout"))]));
    assert_eq!(r.latency_ms, 50);
}
