//! Requests to chat-completion endpoints and the replies made of their
//! answers, in the two dialects that are spoken: `openai` (the default) and
//! `dashscope`.
use vstd::prelude::*;
use vstd::string::*;
use crate::json::{Json, JsonModel, field, entry_models, item_models, lemma_item_models, lemma_item_models_push};
use crate::model::Reply;
use crate::shapes::{add_entry, empty_object, error_output, new_empty_object, new_entries, new_error_output, new_object1, new_object2};

verus! {

/// Where and how to reach a chat-completion endpoint.
pub struct HttpConfig {
    pub base_url: String,
    pub model: String,
    pub api_key: String,
    pub timeout: std::time::Duration,
}

/// The dialect that a context asks for: its `dialect` string, `openai`
/// when it names none.
pub open spec fn dialect_of(context: JsonModel) -> Seq<char> {
    match field(context, "dialect"@) {
        Some(JsonModel::Str(d)) => d,
        _ => "openai"@,
    }
}

/// Whether a context asks for the `dashscope` dialect.
pub open spec fn is_dashscope(context: JsonModel) -> bool {
    dialect_of(context) == "dashscope"@
}

/// A tool descriptor as the `openai` dialect wants it.
pub open spec fn wrapped_tool(t: JsonModel) -> JsonModel {
    JsonModel::Object(seq![("type"@, JsonModel::Str("function"@)), ("function"@, t)])
}

/// The items of a sequence; none for any other value.
pub open spec fn items_of(v: JsonModel) -> Seq<JsonModel> {
    match v {
        JsonModel::Array(s) => s,
        _ => Seq::empty(),
    }
}

/// The entries of the request body for `model`, with `messages` as the
/// conversation, shaped by `context`: its tools, its tool choice, and
/// whether it asks for reasoning (`"reasoning": true`).
pub open spec fn chat_body_entries(
    model: Seq<char>,
    messages: JsonModel,
    context: JsonModel,
) -> Seq<(Seq<char>, JsonModel)> {
    let ds = is_dashscope(context);
    let base = seq![("model"@, JsonModel::Str(model)), ("messages"@, messages)];
    let with_tools = match field(context, "tools"@) {
        Some(t) => base.push(
            if ds {
                ("functions"@, t)
            } else {
                ("tools"@, JsonModel::Array(items_of(t).map_values(|x: JsonModel| wrapped_tool(x))))
            },
        ),
        None => base,
    };
    let with_choice = match field(context, "tool_choice"@) {
        Some(c) => with_tools.push(
            if ds {
                ("function_call"@, c)
            } else {
                ("tool_choice"@, c)
            },
        ),
        None => with_tools,
    };
    if field(context, "reasoning"@) == Some(JsonModel::Bool(true)) {
        with_choice.push(
            if ds {
                ("enable_chain_of_thought"@, JsonModel::Bool(true))
            } else {
                ("reasoning"@, JsonModel::Object(seq![("effort"@, JsonModel::Str("medium"@))]))
            },
        )
    } else {
        with_choice
    }
}

fn dialect_is_dashscope(context: &Json) -> (r: bool)
    ensures
        r == is_dashscope(context@),
{
    let dashscope = String::from_str("dashscope");
    match context.get("dialect") {
        Some(d) => match d.as_str() {
            Some(s) => *s == dashscope,
            None => {
                proof {
                    reveal_strlit("openai");
                    reveal_strlit("dashscope");
                    assert("openai"@[0] != "dashscope"@[0]);
                }
                false
            },
        },
        None => {
            proof {
                reveal_strlit("openai");
                reveal_strlit("dashscope");
                assert("openai"@[0] != "dashscope"@[0]);
            }
            false
        },
    }
}

fn wrap_tools(tools: &Json) -> (r: Json)
    ensures
        r@ == JsonModel::Array(items_of(tools@).map_values(|x: JsonModel| wrapped_tool(x))),
{
    let mut out: Vec<Json> = Vec::new();
    proof {
        assert(item_models(out@) =~= Seq::<JsonModel>::empty());
    }
    match tools.as_array() {
        Some(items) => {
            let ghost ts = item_models(items@);
            proof {
                lemma_item_models(items@);
            }
            let mut i: usize = 0;
            while i < items.len()
                invariant
                    i <= items.len(),
                    ts == item_models(items@),
                    ts.len() == items@.len(),
                    forall|k: int| 0 <= k < ts.len() ==> #[trigger] ts[k] == items@[k]@,
                    item_models(out@) =~= ts.subrange(0, i as int).map_values(
                        |x: JsonModel| wrapped_tool(x),
                    ),
                decreases items.len() - i,
            {
                let w = new_object2("type", Json::text("function"), "function", items[i].duplicate());
                proof {
                    lemma_item_models_push(out@, w);
                    assert(ts.subrange(0, i + 1).map_values(|x: JsonModel| wrapped_tool(x))
                        =~= ts.subrange(0, i as int).map_values(|x: JsonModel| wrapped_tool(x)).push(
                        wrapped_tool(ts[i as int]),
                    ));
                }
                out.push(w);
                i = i + 1;
            }
            proof {
                assert(ts.subrange(0, i as int) =~= ts);
            }
        },
        None => {
            proof {
                assert(items_of(tools@).map_values(|x: JsonModel| wrapped_tool(x)) =~= Seq::<
                    JsonModel,
                >::empty());
            }
        },
    }
    Json::Array(out)
}

/// The request body for `model`, with `messages` as the conversation,
/// shaped by `context` in the dialect it names.
pub fn chat_body(model: &str, messages: Json, context: &Json) -> (r: Json)
    ensures
        r@ == JsonModel::Object(chat_body_entries(model@, messages@, context@)),
{
    let ds = dialect_is_dashscope(context);
    let mut v = new_entries();
    add_entry(&mut v, "model", Json::text(model));
    add_entry(&mut v, "messages", messages);
    match context.get("tools") {
        Some(t) => {
            if ds {
                add_entry(&mut v, "functions", t.duplicate());
            } else {
                add_entry(&mut v, "tools", wrap_tools(t));
            }
        },
        None => {},
    }
    match context.get("tool_choice") {
        Some(c) => {
            if ds {
                add_entry(&mut v, "function_call", c.duplicate());
            } else {
                add_entry(&mut v, "tool_choice", c.duplicate());
            }
        },
        None => {},
    }
    let reasoning = match context.get("reasoning") {
        Some(Json::Bool(b)) => *b,
        _ => false,
    };
    if reasoning {
        if ds {
            add_entry(&mut v, "enable_chain_of_thought", Json::Bool(true));
        } else {
            add_entry(&mut v, "reasoning", new_object1("effort", Json::text("medium")));
        }
    }
    proof {
        assert(entry_models(v@) =~= chat_body_entries(model@, messages@, context@));
    }
    Json::Object(v)
}

/// `s` without the slashes it ends with.
pub open spec fn trim_trailing_slashes(s: Seq<char>) -> Seq<char>
    decreases s.len(),
{
    if s.len() > 0 && s.last() == '/' {
        trim_trailing_slashes(s.drop_last())
    } else {
        s
    }
}

/// The address of the chat-completion route under `base_url`.
pub fn chat_url(base_url: &str) -> (r: String)
    ensures
        r@ == trim_trailing_slashes(base_url@) + "/v1/chat/completions"@,
{
    let mut end = base_url.unicode_len();
    proof {
        assert(base_url@.subrange(0, end as int) =~= base_url@);
    }
    while end > 0 && base_url.get_char(end - 1) == '/'
        invariant
            end <= base_url@.len(),
            trim_trailing_slashes(base_url@) == trim_trailing_slashes(
                base_url@.subrange(0, end as int),
            ),
        decreases end,
    {
        proof {
            assert(base_url@.subrange(0, end as int).drop_last() =~= base_url@.subrange(
                0,
                end - 1,
            ));
        }
        end = end - 1;
    }
    let kept = base_url.substring_char(0, end);
    let s = String::from_str(kept);
    s.concat("/v1/chat/completions")
}

/// The value of the `Authorization` header for `api_key`.
pub fn bearer(api_key: &str) -> (r: String)
    ensures
        r@ == "Bearer "@ + api_key@,
{
    String::from_str("Bearer ").concat(api_key)
}

/// The reply made of an endpoint's answer: its status decides `ok`, its
/// body (or `{"error": message}` when the body could not be read as JSON)
/// is the output, and the body's `usage` is the cost.
pub fn chat_reply(status_ok: bool, body: Result<Json, String>, latency_ms: u64) -> (r: Reply)
    ensures
        r.ok == status_ok,
        r.latency_ms == latency_ms,
        match body {
            Ok(b) => r.output@ == b@,
            Err(m) => r.output@ == error_output(m@),
        },
        r.cost@ == match field(r.output@, "usage"@) {
            Some(u) => u,
            None => empty_object(),
        },
{
    let output = match body {
        Ok(b) => b,
        Err(m) => new_error_output(m.as_str()),
    };
    let cost = match output.get("usage") {
        Some(u) => u.duplicate(),
        None => new_empty_object(),
    };
    Reply { ok: status_ok, output, latency_ms, cost }
}

/// The reply when the endpoint could not be reached.
pub fn transport_failure(message: &str, latency_ms: u64) -> (r: Reply)
    ensures
        !r.ok,
        r.output@ == error_output(message@),
        r.latency_ms == latency_ms,
        r.cost@ == empty_object(),
{
    Reply { ok: false, output: new_error_output(message), latency_ms, cost: new_empty_object() }
}

} // verus!
