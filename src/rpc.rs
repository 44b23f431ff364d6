//! Remote tools: the framing of the JSON request/reply transport that tool
//! servers speak, the cache of the schemas they declare, and the replies
//! made of their answers.
use vstd::prelude::*;
use vstd::string::*;
use crate::json::{Json, JsonModel, field, entry_models, find_entry, lemma_entry_models, lemma_entry_models_push};
use crate::model::Reply;
use crate::shapes::{add_entry, empty_object, error_output, new_empty_object, new_entries, new_error_output, new_object1, new_object2};
use crate::text::{decimal, decimal_string};

verus! {

/// The request `{"jsonrpc": "2.0", "id": id, "method": method, "params": params}`.
pub open spec fn request_model(id: nat, method: Seq<char>, params: JsonModel) -> JsonModel {
    JsonModel::Object(
        seq![
            ("jsonrpc"@, JsonModel::Str("2.0"@)),
            ("id"@, JsonModel::Number(decimal(id))),
            ("method"@, JsonModel::Str(method)),
            ("params"@, params),
        ],
    )
}

pub fn rpc_request(id: u64, method: &str, params: Json) -> (r: Json)
    ensures
        r@ == request_model(id as nat, method@, params@),
{
    let ghost p = params@;
    let mut v = new_entries();
    add_entry(&mut v, "jsonrpc", Json::text("2.0"));
    add_entry(&mut v, "id", Json::Number(decimal_string(id)));
    add_entry(&mut v, "method", Json::text(method));
    add_entry(&mut v, "params", params);
    proof {
        assert(entry_models(v@) =~= seq![
            ("jsonrpc"@, JsonModel::Str("2.0"@)),
            ("id"@, JsonModel::Number(decimal(id as nat))),
            ("method"@, JsonModel::Str(method@)),
            ("params"@, p),
        ]);
    }
    Json::Object(v)
}

/// The parameters of a handshake: `{}`.
pub fn handshake_params() -> (r: Json)
    ensures
        r@ == empty_object(),
{
    new_empty_object()
}

/// The parameters of a schema request: `{"tool": tool}`.
pub fn schema_params(tool: &str) -> (r: Json)
    ensures
        r@ == JsonModel::Object(seq![("tool"@, JsonModel::Str(tool@))]),
{
    new_object1("tool", Json::text(tool))
}

/// The parameters of an invocation: `{"tool": tool, "input": input}`.
pub fn invoke_params(tool: &str, input: Json) -> (r: Json)
    ensures
        r@ == JsonModel::Object(seq![("tool"@, JsonModel::Str(tool@)), ("input"@, input@)]),
{
    new_object2("tool", Json::text(tool), "input", input)
}

/// What a server's answer means: its `error`, when it has one (whatever its
/// value); otherwise its `result`, null when it has none.
pub fn rpc_outcome(answer: &Json) -> (r: Result<Json, Json>)
    ensures
        match field(answer@, "error"@) {
            Some(e) => r matches Err(x) && x@ == e,
            None => r matches Ok(x) && x@ == match field(answer@, "result"@) {
                Some(v) => v,
                None => JsonModel::Null,
            },
        },
{
    match answer.get("error") {
        Some(e) => Err(e.duplicate()),
        None => match answer.get("result") {
            Some(v) => Ok(v.duplicate()),
            None => Ok(Json::Null),
        },
    }
}

/// The reply of a remote tool: its result as the output, or
/// `{"error": message}` when the call failed.
pub fn invoke_reply(outcome: Result<Json, String>, latency_ms: u64) -> (r: Reply)
    ensures
        r.latency_ms == latency_ms,
        r.cost@ == empty_object(),
        match outcome {
            Ok(out) => r.ok && r.output@ == out@,
            Err(m) => !r.ok && r.output@ == error_output(m@),
        },
{
    match outcome {
        Ok(out) => Reply { ok: true, output: out, latency_ms, cost: new_empty_object() },
        Err(m) => Reply {
            ok: false,
            output: new_error_output(m.as_str()),
            latency_ms,
            cost: new_empty_object(),
        },
    }
}

/// The schemas that servers declared, by tool name; fetched once per tool.
pub struct SchemaCache {
    entries: Vec<(String, Json)>,
}

impl SchemaCache {
    /// The schema recorded for `op`.
    pub closed spec fn schema(&self, op: Seq<char>) -> Option<JsonModel> {
        find_entry(entry_models(self.entries@), op)
    }

    pub fn new() -> (r: SchemaCache)
        ensures
            forall|op: Seq<char>| r.schema(op) is None,
    {
        let r = SchemaCache { entries: new_entries() };
        r
    }

    /// Whether a schema is recorded for `op`: when it is, none is fetched.
    pub fn has(&self, op: &str) -> (r: bool)
        ensures
            r == self.schema(op@) is Some,
    {
        self.get(op).is_some()
    }

    /// The schema recorded for `op`.
    pub fn get(&self, op: &str) -> (r: Option<&Json>)
        ensures
            match r {
                Some(x) => self.schema(op@) == Some(x@),
                None => self.schema(op@) is None,
            },
    {
        let ghost ms = entry_models(self.entries@);
        proof {
            lemma_entry_models(self.entries@);
            assert(ms.subrange(0, ms.len() as int) =~= ms);
        }
        let wanted = String::from_str(op);
        let mut i: usize = 0;
        while i < self.entries.len()
            invariant
                i <= self.entries.len(),
                ms == entry_models(self.entries@),
                ms.len() == self.entries@.len(),
                wanted@ == op@,
                forall|j: int|
                    0 <= j < ms.len() ==> #[trigger] ms[j] == (
                        self.entries@[j].0@,
                        self.entries@[j].1@,
                    ),
                find_entry(ms, op@) == find_entry(ms.subrange(i as int, ms.len() as int), op@),
            decreases self.entries.len() - i,
        {
            let ghost rest = ms.subrange(i as int, ms.len() as int);
            if self.entries[i].0 == wanted {
                return Some(&self.entries[i].1);
            }
            proof {
                assert(rest.subrange(1, rest.len() as int) =~= ms.subrange(
                    i + 1,
                    ms.len() as int,
                ));
            }
            i = i + 1;
        }
        None
    }

    /// Records the schema fetched for `op`, unless one is recorded already.
    pub fn record(&mut self, op: &str, schema: Json)
        ensures
            old(self).schema(op@) is Some ==> final(self).schema(op@) == old(self).schema(op@),
            old(self).schema(op@) is None ==> final(self).schema(op@) == Some(schema@),
            forall|other: Seq<char>|
                other != op@ ==> #[trigger] final(self).schema(other) == old(self).schema(other),
    {
        if self.has(op) {
            return;
        }
        let e = (String::from_str(op), schema);
        proof {
            lemma_entry_models_push(self.entries@, e);
            lemma_find_entry_push(entry_models(self.entries@), (e.0@, e.1@));
        }
        self.entries.push(e);
    }
}

proof fn lemma_find_entry_push(s: Seq<(Seq<char>, JsonModel)>, e: (Seq<char>, JsonModel))
    ensures
        forall|k: Seq<char>| #[trigger] find_entry(s.push(e), k) == if find_entry(s, k) is Some {
            find_entry(s, k)
        } else if k == e.0 {
            Some(e.1)
        } else {
            None
        },
    decreases s.len(),
{
    assert forall|k: Seq<char>| #[trigger] find_entry(s.push(e), k) == if find_entry(s, k) is Some {
        find_entry(s, k)
    } else if k == e.0 {
        Some(e.1)
    } else {
        None
    } by {
        if s.len() > 0 {
            let t = s.subrange(1, s.len() as int);
            lemma_find_entry_push(t, e);
            assert(s.push(e).subrange(1, s.len() as int + 1) =~= t.push(e));
            assert(s.push(e)[0] == s[0]);
            assert(find_entry(t.push(e), k) == if find_entry(t, k) is Some {
                find_entry(t, k)
            } else if k == e.0 {
                Some(e.1)
            } else {
                None
            });
        } else {
            assert(s.push(e).subrange(1, 1) =~= Seq::<(Seq<char>, JsonModel)>::empty());
            assert(s.push(e)[0] == e);
            assert(find_entry(Seq::<(Seq<char>, JsonModel)>::empty(), k) is None);
        }
    }
}

} // verus!
