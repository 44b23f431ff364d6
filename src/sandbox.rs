//! Sandboxed tools: the argument they are given and the reply made of how
//! the execution ended.
use vstd::prelude::*;
use crate::json::{Json, JsonModel};
use crate::model::Reply;
use crate::shapes::{empty_object, error_output, new_empty_object, new_error_output};
use crate::text::{signed_decimal, signed_decimal_string};

verus! {

/// How an execution in the sandbox ended.
pub enum SandboxOutcome {
    /// The function returned this value.
    Returned(i32),
    /// The executor stopped it (fuel, memory, a trap), with its message.
    Failed(String),
    /// It did not finish within the wall-clock timeout.
    TimedOut,
}

/// The integer that a JSON number's text stands for, when it is an integer
/// that fits in an `i64`.
pub uninterp spec fn json_number_as_i64(text: Seq<char>) -> Option<i64>;

/// Relies on serde_json's number parsing (`str::parse::<serde_json::Number>`)
/// and `Number::as_i64`: `None` for text that is no JSON number, for a
/// fraction, and for an integer out of the `i64` range.
#[verifier::external_body]
fn number_as_i64(text: &str) -> (r: Option<i64>)
    ensures
        r == json_number_as_i64(text@),
{
    text.parse::<serde_json::Number>().ok().and_then(|n| n.as_i64())
}

/// The argument handed to a sandboxed function: the ask's input as an
/// integer, truncated to 32 bits, or 0 when the input is no integer.
pub open spec fn sandbox_arg_spec(input: JsonModel) -> i32 {
    match input {
        JsonModel::Number(t) => match json_number_as_i64(t) {
            Some(x) => x as i32,
            None => 0,
        },
        _ => 0,
    }
}

pub fn sandbox_arg(input: &Json) -> (r: i32)
    ensures
        r == sandbox_arg_spec(input@),
{
    match input {
        Json::Number(t) => match number_as_i64(t.as_str()) {
            Some(x) => x as i32,
            None => 0,
        },
        _ => 0,
    }
}

/// The reply of a sandboxed tool: the returned integer as the output, the
/// executor's message as `{"error": message}`, or `{"error": "timeout"}`
/// with the timeout as the latency.
pub fn sandbox_reply(outcome: SandboxOutcome, latency_ms: u64, timeout_ms: u64) -> (r: Reply)
    ensures
        r.cost@ == empty_object(),
        match outcome {
            SandboxOutcome::Returned(v) => r.ok && r.output@ == JsonModel::Number(
                signed_decimal(v as int),
            ) && r.latency_ms == latency_ms,
            SandboxOutcome::Failed(m) => !r.ok && r.output@ == error_output(m@) && r.latency_ms
                == latency_ms,
            SandboxOutcome::TimedOut => !r.ok && r.output@ == error_output("timeout"@)
                && r.latency_ms == timeout_ms,
        },
{
    match outcome {
        SandboxOutcome::Returned(v) => Reply {
            ok: true,
            output: Json::Number(signed_decimal_string(v as i64)),
            latency_ms,
            cost: new_empty_object(),
        },
        SandboxOutcome::Failed(m) => Reply {
            ok: false,
            output: new_error_output(m.as_str()),
            latency_ms,
            cost: new_empty_object(),
        },
        SandboxOutcome::TimedOut => Reply {
            ok: false,
            output: new_error_output("timeout"),
            latency_ms: timeout_ms,
            cost: new_empty_object(),
        },
    }
}

} // verus!
