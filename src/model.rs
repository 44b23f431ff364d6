//! Asks, replies, provider kinds and the reasoning policy.
use vstd::prelude::*;
use crate::json::{Json, JsonModel, text_len, tokens_within};

verus! {

/// A unit of work sent to a provider.
#[derive(Debug, PartialEq)]
pub struct Ask {
    pub op: String,
    pub input: Json,
    pub context: Json,
}

/// The outcome of a provider invocation.
#[derive(Debug, PartialEq)]
pub struct Reply {
    pub ok: bool,
    pub output: Json,
    pub latency_ms: u64,
    pub cost: Json,
}

/// The mathematical model of an [`Ask`].
pub struct AskModel {
    pub op: Seq<char>,
    pub input: JsonModel,
    pub context: JsonModel,
}

/// The mathematical model of a [`Reply`].
pub struct ReplyModel {
    pub ok: bool,
    pub output: JsonModel,
    pub latency_ms: u64,
    pub cost: JsonModel,
}

impl View for Ask {
    type V = AskModel;

    open spec fn view(&self) -> AskModel {
        AskModel { op: self.op@, input: self.input@, context: self.context@ }
    }
}

impl View for Reply {
    type V = ReplyModel;

    open spec fn view(&self) -> ReplyModel {
        ReplyModel {
            ok: self.ok,
            output: self.output@,
            latency_ms: self.latency_ms,
            cost: self.cost@,
        }
    }
}

impl Ask {
    /// A copy of this ask.
    pub fn duplicate(&self) -> (r: Ask)
        ensures
            r@ == self@,
    {
        Ask { op: self.op.clone(), input: self.input.duplicate(), context: self.context.duplicate() }
    }
}

/// The deployment form of a provider.
#[derive(Clone, Copy, Debug, PartialEq, Eq, Structural)]
pub enum ProviderKind {
    Embedded,
    SidecarUds,
    RemoteGrpc,
}

/// The interface of every execution module: a primary model, a tool, a
/// sandbox. `ask` always returns a reply; failures are replies with
/// `ok == false` and an `error` string in their output.
pub trait Provider {
    fn kind(&self) -> ProviderKind;

    fn ask(&self, ask: Ask) -> Reply;
}

/// The two ways a primary provider can be asked to work.
#[derive(Clone, Copy, Debug, PartialEq, Eq, Structural)]
pub enum ReasoningMode {
    Direct,
    Reasoned,
}

/// The name under which a mode is written into an ask's context.
pub open spec fn mode_name(m: ReasoningMode) -> Seq<char> {
    match m {
        ReasoningMode::Direct => "direct"@,
        ReasoningMode::Reasoned => "reasoned"@,
    }
}

impl ReasoningMode {
    pub fn as_str(&self) -> (r: &'static str)
        ensures
            r@ == mode_name(*self),
    {
        match self {
            ReasoningMode::Direct => "direct",
            ReasoningMode::Reasoned => "reasoned",
        }
    }
}

/// Scores an input and picks a reasoning mode.
#[derive(Clone, Copy, Debug, PartialEq, Eq, Structural)]
pub struct ReasoningPolicy {
    pub threshold: usize,
    pub tool_weight: usize,
}

impl Default for ReasoningPolicy {
    fn default() -> (r: Self)
        ensures
            r.threshold == 200,
            r.tool_weight == 50,
    {
        ReasoningPolicy { threshold: 200, tool_weight: 50 }
    }
}

/// The length of an input as text: the string itself, or the compact JSON
/// text of any other value.
pub open spec fn input_text_len(input: JsonModel) -> nat {
    match input {
        JsonModel::Str(s) => s.len(),
        _ => text_len(input),
    }
}

/// The mode that `p` picks for `input` with `tool_count` tools on offer.
pub open spec fn decide_spec(p: ReasoningPolicy, input: JsonModel, tool_count: nat) -> ReasoningMode {
    if input_text_len(input) + tool_count * p.tool_weight > p.threshold {
        ReasoningMode::Reasoned
    } else {
        ReasoningMode::Direct
    }
}

impl ReasoningPolicy {
    pub fn decide(&self, input: &Json, tool_count: usize) -> (r: ReasoningMode)
        ensures
            r == decide_spec(*self, input@, tool_count as nat),
    {
        let len = match input.as_str() {
            Some(s) => s.as_str().unicode_len(),
            None => match tokens_within(input, self.threshold) {
                Some(n) => n,
                None => {
                    return ReasoningMode::Reasoned;
                },
            },
        };
        let score = match tool_count.checked_mul(self.tool_weight) {
            Some(w) => match len.checked_add(w) {
                Some(total) => total,
                None => {
                    return ReasoningMode::Reasoned;
                },
            },
            None => {
                return ReasoningMode::Reasoned;
            },
        };
        if score > self.threshold {
            ReasoningMode::Reasoned
        } else {
            ReasoningMode::Direct
        }
    }
}

/// Equal inputs give equal modes: the policy is a function of the input,
/// the tool count and its two parameters alone.
pub proof fn lemma_decide_deterministic(
    p: ReasoningPolicy,
    x: JsonModel,
    y: JsonModel,
    t: nat,
)
    requires
        x == y,
    ensures
        decide_spec(p, x, t) == decide_spec(p, y, t),
{
}

} // verus!
