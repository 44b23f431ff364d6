//! The shapes of the values that the runtime itself writes: failure
//! outputs, and the contexts it hands to providers.
use vstd::prelude::*;
use vstd::string::*;
use crate::json::{Json, JsonModel, entry_models, item_models, lemma_entry_models_push, lemma_item_models_push};
use crate::model::{Reply, ReplyModel, ReasoningMode, mode_name};
use crate::text::{decimal, decimal_string};

verus! {

/// `{}`.
pub open spec fn empty_object() -> JsonModel {
    JsonModel::Object(Seq::empty())
}

/// `{"error": msg}`.
pub open spec fn error_output(msg: Seq<char>) -> JsonModel {
    JsonModel::Object(seq![("error"@, JsonModel::Str(msg))])
}

/// A failure that the runtime manufactures: no latency and no cost.
pub open spec fn failure(msg: Seq<char>) -> ReplyModel {
    ReplyModel { ok: false, output: error_output(msg), latency_ms: 0, cost: empty_object() }
}

/// `{"error": "unknown tool", "tool": name}`.
pub open spec fn unknown_tool_output(name: Seq<char>) -> JsonModel {
    JsonModel::Object(seq![("error"@, JsonModel::Str("unknown tool"@)), ("tool"@, JsonModel::Str(name))])
}

/// `{"error": "tool invocation failed", "tool": name, "detail": detail}`.
pub open spec fn tool_failed_output(name: Seq<char>, detail: JsonModel) -> JsonModel {
    JsonModel::Object(
        seq![
            ("error"@, JsonModel::Str("tool invocation failed"@)),
            ("tool"@, JsonModel::Str(name)),
            ("detail"@, detail),
        ],
    )
}

/// `{"reasoning": mode}`: the context of the first ask of a run.
pub open spec fn start_context(mode: ReasoningMode) -> JsonModel {
    JsonModel::Object(seq![("reasoning"@, JsonModel::Str(mode_name(mode)))])
}

/// `{"reasoning": mode, "retry": n}`: the context after a failed step.
pub open spec fn retry_context(mode: ReasoningMode, n: nat) -> JsonModel {
    JsonModel::Object(
        seq![
            ("reasoning"@, JsonModel::Str(mode_name(mode))),
            ("retry"@, JsonModel::Number(decimal(n))),
        ],
    )
}

/// `{"reasoning": mode, "tool": name}`: the context after one tool call.
pub open spec fn tool_context(mode: ReasoningMode, name: Seq<char>) -> JsonModel {
    JsonModel::Object(
        seq![("reasoning"@, JsonModel::Str(mode_name(mode))), ("tool"@, JsonModel::Str(name))],
    )
}

/// The names of tools as a sequence of strings.
pub open spec fn name_items(names: Seq<Seq<char>>) -> Seq<JsonModel>
    decreases names.len(),
{
    if names.len() == 0 {
        Seq::empty()
    } else {
        name_items(names.drop_last()).push(JsonModel::Str(names.last()))
    }
}

/// `{"reasoning": mode, "tools": [names...]}`: the context after
/// concurrent tool calls.
pub open spec fn tools_context(mode: ReasoningMode, names: Seq<Seq<char>>) -> JsonModel {
    JsonModel::Object(
        seq![
            ("reasoning"@, JsonModel::Str(mode_name(mode))),
            ("tools"@, JsonModel::Array(name_items(names))),
        ],
    )
}

fn push_entry(v: &mut Vec<(String, Json)>, k: &str, val: Json)
    ensures
        entry_models(final(v)@) == entry_models(old(v)@).push((k@, val@)),
{
    let e = (String::from_str(k), val);
    proof {
        lemma_entry_models_push(v@, e);
    }
    v.push(e);
}

/// `{}`.
pub fn new_empty_object() -> (r: Json)
    ensures
        r@ == empty_object(),
{
    let v: Vec<(String, Json)> = Vec::new();
    proof {
        assert(entry_models(v@) =~= Seq::empty());
    }
    Json::Object(v)
}

fn object_start() -> (v: Vec<(String, Json)>)
    ensures
        entry_models(v@) == Seq::<(Seq<char>, JsonModel)>::empty(),
{
    let v: Vec<(String, Json)> = Vec::new();
    proof {
        assert(entry_models(v@) =~= Seq::empty());
    }
    v
}

/// `{"error": msg}`.
pub fn new_error_output(msg: &str) -> (r: Json)
    ensures
        r@ == error_output(msg@),
{
    let mut v = object_start();
    push_entry(&mut v, "error", Json::text(msg));
    proof {
        assert(entry_models(v@) =~= seq![("error"@, JsonModel::Str(msg@))]);
    }
    Json::Object(v)
}

/// `{key: val}`.
pub fn new_object1(k: &str, val: Json) -> (r: Json)
    ensures
        r@ == JsonModel::Object(seq![(k@, val@)]),
{
    let ghost m = val@;
    let mut v = object_start();
    push_entry(&mut v, k, val);
    proof {
        assert(entry_models(v@) =~= seq![(k@, m)]);
    }
    Json::Object(v)
}

/// `{k1: v1, k2: v2}`.
pub fn new_object2(k1: &str, v1: Json, k2: &str, v2: Json) -> (r: Json)
    ensures
        r@ == JsonModel::Object(seq![(k1@, v1@), (k2@, v2@)]),
{
    let ghost m1 = v1@;
    let ghost m2 = v2@;
    let mut v = object_start();
    push_entry(&mut v, k1, v1);
    push_entry(&mut v, k2, v2);
    proof {
        assert(entry_models(v@) =~= seq![(k1@, m1), (k2@, m2)]);
    }
    Json::Object(v)
}

/// The entries of a mapping under construction, empty.
pub fn new_entries() -> (v: Vec<(String, Json)>)
    ensures
        entry_models(v@) == Seq::<(Seq<char>, JsonModel)>::empty(),
{
    object_start()
}

/// Adds `key: val` to a mapping under construction.
pub fn add_entry(v: &mut Vec<(String, Json)>, k: &str, val: Json)
    ensures
        entry_models(final(v)@) == entry_models(old(v)@).push((k@, val@)),
{
    push_entry(v, k, val)
}

/// A failure reply with `{"error": msg}`, no latency and no cost.
pub fn failure_reply(msg: &str) -> (r: Reply)
    ensures
        r@ == failure(msg@),
{
    Reply { ok: false, output: new_error_output(msg), latency_ms: 0, cost: new_empty_object() }
}

pub fn new_unknown_tool_output(name: &str) -> (r: Json)
    ensures
        r@ == unknown_tool_output(name@),
{
    let mut v = object_start();
    push_entry(&mut v, "error", Json::text("unknown tool"));
    push_entry(&mut v, "tool", Json::text(name));
    proof {
        assert(entry_models(v@) =~= seq![
            ("error"@, JsonModel::Str("unknown tool"@)),
            ("tool"@, JsonModel::Str(name@)),
        ]);
    }
    Json::Object(v)
}

pub fn new_tool_failed_output(name: &str, detail: Json) -> (r: Json)
    ensures
        r@ == tool_failed_output(name@, detail@),
{
    let ghost d = detail@;
    let mut v = object_start();
    push_entry(&mut v, "error", Json::text("tool invocation failed"));
    push_entry(&mut v, "tool", Json::text(name));
    push_entry(&mut v, "detail", detail);
    proof {
        assert(entry_models(v@) =~= seq![
            ("error"@, JsonModel::Str("tool invocation failed"@)),
            ("tool"@, JsonModel::Str(name@)),
            ("detail"@, d),
        ]);
    }
    Json::Object(v)
}

pub fn new_start_context(mode: ReasoningMode) -> (r: Json)
    ensures
        r@ == start_context(mode),
{
    let mut v = object_start();
    push_entry(&mut v, "reasoning", Json::text(mode.as_str()));
    proof {
        assert(entry_models(v@) =~= seq![("reasoning"@, JsonModel::Str(mode_name(mode)))]);
    }
    Json::Object(v)
}

pub fn new_retry_context(mode: ReasoningMode, n: usize) -> (r: Json)
    ensures
        r@ == retry_context(mode, n as nat),
{
    let mut v = object_start();
    push_entry(&mut v, "reasoning", Json::text(mode.as_str()));
    push_entry(&mut v, "retry", Json::Number(decimal_string(n as u64)));
    proof {
        assert(entry_models(v@) =~= seq![
            ("reasoning"@, JsonModel::Str(mode_name(mode))),
            ("retry"@, JsonModel::Number(decimal(n as nat))),
        ]);
    }
    Json::Object(v)
}

pub fn new_tool_context(mode: ReasoningMode, name: &str) -> (r: Json)
    ensures
        r@ == tool_context(mode, name@),
{
    let mut v = object_start();
    push_entry(&mut v, "reasoning", Json::text(mode.as_str()));
    push_entry(&mut v, "tool", Json::text(name));
    proof {
        assert(entry_models(v@) =~= seq![
            ("reasoning"@, JsonModel::Str(mode_name(mode))),
            ("tool"@, JsonModel::Str(name@)),
        ]);
    }
    Json::Object(v)
}

pub fn new_tools_context(mode: ReasoningMode, names: &Vec<String>) -> (r: Json)
    ensures
        r@ == tools_context(mode, names@.map_values(|n: String| n@)),
{
    let ghost ns = names@.map_values(|n: String| n@);
    let mut items: Vec<Json> = Vec::new();
    let mut i: usize = 0;
    while i < names.len()
        invariant
            i <= names.len(),
            ns == names@.map_values(|n: String| n@),
            item_models(items@) == name_items(ns.subrange(0, i as int)),
        decreases names.len() - i,
    {
        let item = Json::text(names[i].as_str());
        proof {
            lemma_item_models_push(items@, item);
            assert(ns.subrange(0, i + 1).drop_last() =~= ns.subrange(0, i as int));
        }
        items.push(item);
        i = i + 1;
    }
    proof {
        assert(ns.subrange(0, i as int) =~= ns);
    }
    let mut v = object_start();
    push_entry(&mut v, "reasoning", Json::text(mode.as_str()));
    push_entry(&mut v, "tools", Json::Array(items));
    proof {
        assert(entry_models(v@) =~= seq![
            ("reasoning"@, JsonModel::Str(mode_name(mode))),
            ("tools"@, JsonModel::Array(name_items(ns))),
        ]);
    }
    Json::Object(v)
}

} // verus!
