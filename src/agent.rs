//! The agent's step loop, as a state machine.
//!
//! A run starts with [`Agent::begin`], which yields the first [`Action`].
//! The driver performs it (asks the primary provider or the tools, each
//! through the retry policy) and hands the outcome back to
//! [`Agent::on_primary`] or [`Agent::on_tools`], until an action is
//! [`Action::Done`].
use vstd::prelude::*;
use crate::json::{
    Json, JsonModel, field, item_models, lemma_item_models, lemma_item_models_push, text_len,
    tokens_within,
};
use crate::model::{Ask, AskModel, Reply, ReplyModel, ReasoningMode, ReasoningPolicy, decide_spec};
use crate::shapes::{
    empty_object, error_output, failure, failure_reply, new_empty_object, new_error_output,
    new_retry_context, new_start_context, new_tool_context, new_tool_failed_output,
    new_tools_context, new_unknown_tool_output, retry_context, start_context, tool_context,
    tool_failed_output, tools_context, unknown_tool_output,
};

verus! {

/// Orchestrates a primary provider and its tools within step, token and
/// retry budgets.
pub struct Agent {
    max_steps: usize,
    max_tokens: usize,
    max_retries: usize,
    policy: ReasoningPolicy,
    tools: Vec<String>,
}

/// Where a run stands between two actions.
pub struct Run {
    remaining: usize,
    step: usize,
    mode: ReasoningMode,
    current: Ask,
    pending: Vec<String>,
}

/// The mathematical model of a [`Run`].
pub struct RunModel {
    /// Tokens left of the budget.
    pub remaining: nat,
    /// Replies of the primary provider taken so far.
    pub step: nat,
    pub mode: ReasoningMode,
    /// The ask that the primary provider was last given.
    pub current: AskModel,
    /// The tools whose replies are awaited, in the order they were asked.
    pub pending: Seq<Seq<char>>,
}

impl View for Run {
    type V = RunModel;

    closed spec fn view(&self) -> RunModel {
        RunModel {
            remaining: self.remaining as nat,
            step: self.step as nat,
            mode: self.mode,
            current: self.current@,
            pending: self.pending@.map_values(|n: String| n@),
        }
    }
}

/// What the driver of a run is to do next.
pub enum Action {
    /// Ask the primary provider, through the retry policy.
    Primary(Ask),
    /// Ask each tool named by an ask's `op`, through the retry policy; two
    /// or more run concurrently. Their replies come back in this order.
    Tools(Vec<Ask>),
    /// The run is over, with this reply.
    Done(Reply),
}

/// The mathematical model of an [`Action`].
pub enum ActionModel {
    Primary(AskModel),
    Tools(Seq<AskModel>),
    Done(ReplyModel),
}

impl View for Action {
    type V = ActionModel;

    open spec fn view(&self) -> ActionModel {
        match self {
            Action::Primary(a) => ActionModel::Primary(a@),
            Action::Tools(asks) => ActionModel::Tools(asks@.map_values(|a: Ask| a@)),
            Action::Done(r) => ActionModel::Done(r@),
        }
    }
}

/// The models of a sequence of replies.
pub open spec fn reply_models(rs: Seq<Reply>) -> Seq<ReplyModel> {
    rs.map_values(|r: Reply| r@)
}

/// The tokens an ask is charged: its input and its context.
pub open spec fn ask_cost(a: AskModel) -> nat {
    text_len(a.input) + text_len(a.context)
}

/// The tool calls that a reply's output asks for: the items of its
/// `tool_calls` sequence, none if it has no such sequence.
pub open spec fn tool_call_list(out: JsonModel) -> Seq<JsonModel> {
    match field(out, "tool_calls"@) {
        Some(JsonModel::Array(s)) => s,
        _ => Seq::empty(),
    }
}

/// The tool that a call names: its `op` string, empty if it has none.
pub open spec fn call_name(c: JsonModel) -> Seq<char> {
    match field(c, "op"@) {
        Some(JsonModel::Str(s)) => s,
        _ => Seq::empty(),
    }
}

/// The input of a call: its `input`, null if it has none.
pub open spec fn call_input(c: JsonModel) -> JsonModel {
    match field(c, "input"@) {
        Some(v) => v,
        None => JsonModel::Null,
    }
}

/// The ask that a call becomes: its tool as `op`, its input, and `{}`.
pub open spec fn tool_ask(c: JsonModel) -> AskModel {
    AskModel { op: call_name(c), input: call_input(c), context: empty_object() }
}

/// The tokens of the inputs of `calls`.
pub open spec fn inputs_cost(calls: Seq<JsonModel>) -> nat
    decreases calls.len(),
{
    if calls.len() == 0 {
        0
    } else {
        inputs_cost(calls.drop_last()) + text_len(call_input(calls.last()))
    }
}

/// The budget failure that keeps a reply's latency and cost.
pub open spec fn budget_failure(latency_ms: u64, cost: JsonModel) -> ReplyModel {
    ReplyModel {
        ok: false,
        output: error_output("token budget exceeded"@),
        latency_ms,
        cost,
    }
}

/// The failure that reports a tool's failed reply.
pub open spec fn tool_failure(name: Seq<char>, r: ReplyModel) -> ReplyModel {
    ReplyModel {
        ok: false,
        output: tool_failed_output(name, r.output),
        latency_ms: r.latency_ms,
        cost: r.cost,
    }
}

/// Whether the initial ask's share of the budget forces direct mode: more
/// than 85 percent of it.
pub open spec fn budget_forces_direct(initial: nat, max_tokens: nat) -> bool {
    max_tokens > 0 && initial * 100 / max_tokens > 85
}

/// The outputs of the replies of concurrent tool calls, each charged in
/// order, with the budget then left; or the failure that ends the run:
/// the first failed reply, or the first output over the budget.
pub open spec fn gather(
    names: Seq<Seq<char>>,
    replies: Seq<ReplyModel>,
    remaining: nat,
) -> Result<(Seq<JsonModel>, nat), ReplyModel>
    decreases replies.len(),
{
    if replies.len() == 0 || names.len() == 0 {
        Ok((Seq::empty(), remaining))
    } else if !replies[0].ok {
        Err(tool_failure(names[0], replies[0]))
    } else if text_len(replies[0].output) > remaining {
        Err(failure("token budget exceeded"@))
    } else {
        match gather(
            names.drop_first(),
            replies.drop_first(),
            (remaining - text_len(replies[0].output)) as nat,
        ) {
            Ok((outs, rem)) => Ok((seq![replies[0].output] + outs, rem)),
            Err(e) => Err(e),
        }
    }
}

/// `g`, with `prefix` before the outputs it gathered.
pub open spec fn after_prefix(
    prefix: Seq<JsonModel>,
    g: Result<(Seq<JsonModel>, nat), ReplyModel>,
) -> Result<(Seq<JsonModel>, nat), ReplyModel> {
    match g {
        Ok((outs, rem)) => Ok((prefix + outs, rem)),
        Err(e) => Err(e),
    }
}

/// Charges the next ask and goes on with it: the next step, or the end of
/// the steps.
pub open spec fn proceed(max_steps: nat, run: RunModel, next: AskModel) -> (RunModel, ActionModel) {
    if ask_cost(next) > run.remaining {
        (run, ActionModel::Done(failure("token budget exceeded"@)))
    } else {
        let r = RunModel {
            remaining: (run.remaining - ask_cost(next)) as nat,
            current: next,
            pending: Seq::empty(),
            ..run
        };
        if r.step < max_steps {
            (r, ActionModel::Primary(next))
        } else {
            (r, ActionModel::Done(failure("step limit exceeded"@)))
        }
    }
}

impl RunModel {
    /// Invariant of a run that waits for the primary provider.
    pub closed spec fn awaiting_primary(&self, agent: &Agent) -> bool {
        &&& self.pending.len() == 0
        &&& self.step < agent.max_steps
        &&& self.remaining <= agent.max_tokens
    }

    /// Invariant of a run that waits for tools.
    pub closed spec fn awaiting_tools(&self, agent: &Agent) -> bool {
        &&& self.pending.len() >= 1
        &&& self.step <= agent.max_steps
        &&& self.remaining <= agent.max_tokens
    }
}

impl Agent {
    pub closed spec fn spec_max_steps(&self) -> nat {
        self.max_steps as nat
    }

    pub closed spec fn spec_max_tokens(&self) -> nat {
        self.max_tokens as nat
    }

    pub closed spec fn spec_max_retries(&self) -> nat {
        self.max_retries as nat
    }

    pub closed spec fn spec_policy(&self) -> ReasoningPolicy {
        self.policy
    }

    /// The names of the registered tools.
    pub closed spec fn tool_names(&self) -> Set<Seq<char>> {
        Set::new(|n: Seq<char>| exists|i: int| 0 <= i < self.tools@.len() && self.tools@[i]@ == n)
    }

    /// The first call of `calls` whose tool is not registered.
    pub closed spec fn first_unknown(&self, calls: Seq<JsonModel>) -> Option<Seq<char>>
        decreases calls.len(),
    {
        if calls.len() == 0 {
            None
        } else if !self.tool_names().contains(call_name(calls[0])) {
            Some(call_name(calls[0]))
        } else {
            self.first_unknown(calls.drop_first())
        }
    }

    /// The first action of a run of `ask`, and the run's state.
    pub closed spec fn begin_spec(&self, ask: AskModel) -> (RunModel, ActionModel) {
        let initial = ask_cost(ask);
        let mode = if budget_forces_direct(initial, self.max_tokens as nat) {
            ReasoningMode::Direct
        } else {
            decide_spec(self.policy, ask.input, 0)
        };
        let current = AskModel { op: ask.op, input: ask.input, context: start_context(mode) };
        let run = RunModel {
            remaining: if initial <= self.max_tokens {
                (self.max_tokens - initial) as nat
            } else {
                0
            },
            step: 0,
            mode,
            current,
            pending: Seq::empty(),
        };
        if initial > self.max_tokens {
            (run, ActionModel::Done(failure("token budget exceeded"@)))
        } else if 0 < self.max_steps {
            (run, ActionModel::Primary(current))
        } else {
            (run, ActionModel::Done(failure("step limit exceeded"@)))
        }
    }

    /// The next action after the primary provider's `reply`, and the run's
    /// next state. `cancelled` is the state of the cancellation signal
    /// when the reply came back.
    pub closed spec fn primary_spec(
        &self,
        run: RunModel,
        reply: ReplyModel,
        cancelled: bool,
    ) -> (RunModel, ActionModel) {
        let run1 = RunModel { step: run.step + 1, ..run };
        let c = text_len(reply.output);
        let run2 = RunModel { remaining: (run.remaining - c) as nat, ..run1 };
        let calls = tool_call_list(reply.output);
        if cancelled {
            (run1, ActionModel::Done(reply))
        } else if c > run.remaining {
            (run1, ActionModel::Done(budget_failure(reply.latency_ms, reply.cost)))
        } else if reply.ok {
            (run2, ActionModel::Done(reply))
        } else if calls.len() == 0 {
            proceed(
                self.max_steps as nat,
                run2,
                AskModel {
                    op: run.current.op,
                    input: reply.output,
                    context: retry_context(run.mode, run1.step),
                },
            )
        } else if self.first_unknown(calls) is Some {
            (
                run2,
                ActionModel::Done(
                    ReplyModel {
                        ok: false,
                        output: unknown_tool_output(self.first_unknown(calls)->0),
                        latency_ms: 0,
                        cost: empty_object(),
                    },
                ),
            )
        } else if inputs_cost(calls) > run2.remaining {
            (run2, ActionModel::Done(failure("token budget exceeded"@)))
        } else {
            (
                RunModel {
                    remaining: (run2.remaining - inputs_cost(calls)) as nat,
                    pending: calls.map_values(|x: JsonModel| call_name(x)),
                    ..run2
                },
                ActionModel::Tools(calls.map_values(|x: JsonModel| tool_ask(x))),
            )
        }
    }

    /// The next action after the replies of the pending tools, and the
    /// run's next state.
    pub closed spec fn tools_spec(
        &self,
        run: RunModel,
        replies: Seq<ReplyModel>,
        cancelled: bool,
    ) -> (RunModel, ActionModel) {
        if run.pending.len() == 1 {
            let r = replies[0];
            let name = run.pending[0];
            if cancelled {
                (run, ActionModel::Done(r))
            } else if !r.ok {
                (run, ActionModel::Done(tool_failure(name, r)))
            } else if text_len(r.output) > run.remaining {
                (run, ActionModel::Done(failure("token budget exceeded"@)))
            } else {
                proceed(
                    self.max_steps as nat,
                    RunModel { remaining: (run.remaining - text_len(r.output)) as nat, ..run },
                    AskModel {
                        op: run.current.op,
                        input: r.output,
                        context: tool_context(run.mode, name),
                    },
                )
            }
        } else if cancelled {
            (run, ActionModel::Done(failure("cancelled"@)))
        } else {
            match gather(run.pending, replies, run.remaining) {
                Err(e) => (run, ActionModel::Done(e)),
                Ok((outs, rem)) => proceed(
                    self.max_steps as nat,
                    RunModel { remaining: rem, ..run },
                    AskModel {
                        op: run.current.op,
                        input: JsonModel::Array(outs),
                        context: tools_context(run.mode, run.pending),
                    },
                ),
            }
        }
    }
}

proof fn lemma_inputs_prefix(s: Seq<JsonModel>, i: int)
    requires
        0 <= i <= s.len(),
    ensures
        inputs_cost(s.subrange(0, i)) <= inputs_cost(s),
    decreases s.len(),
{
    if i < s.len() {
        lemma_inputs_prefix(s.drop_last(), i);
        assert(s.drop_last().subrange(0, i) =~= s.subrange(0, i));
    } else {
        assert(s.subrange(0, i) =~= s);
    }
}

fn call_name_of(c: &Json) -> (r: String)
    ensures
        r@ == call_name(c@),
{
    match c.get("op") {
        Some(v) => match v.as_str() {
            Some(s) => s.clone(),
            None => String::new(),
        },
        None => String::new(),
    }
}

fn call_input_of(c: &Json) -> (r: Json)
    ensures
        r@ == call_input(c@),
{
    match c.get("input") {
        Some(v) => v.duplicate(),
        None => Json::Null,
    }
}

impl Agent {
    /// An agent with the default reasoning policy and no tools.
    pub fn new(max_steps: usize, max_tokens: usize, max_retries: usize) -> (r: Agent)
        ensures
            r.spec_max_steps() == max_steps,
            r.spec_max_tokens() == max_tokens,
            r.spec_max_retries() == max_retries,
            r.spec_policy() == (ReasoningPolicy { threshold: 200, tool_weight: 50 }),
            r.tool_names() == Set::<Seq<char>>::empty(),
    {
        Agent::with_policy(max_steps, max_tokens, ReasoningPolicy::default(), max_retries)
    }

    /// An agent with the given reasoning policy and no tools.
    pub fn with_policy(
        max_steps: usize,
        max_tokens: usize,
        policy: ReasoningPolicy,
        max_retries: usize,
    ) -> (r: Agent)
        ensures
            r.spec_max_steps() == max_steps,
            r.spec_max_tokens() == max_tokens,
            r.spec_max_retries() == max_retries,
            r.spec_policy() == policy,
            r.tool_names() == Set::<Seq<char>>::empty(),
    {
        let r = Agent { max_steps, max_tokens, max_retries, policy, tools: Vec::new() };
        assert(r.tool_names() =~= Set::<Seq<char>>::empty());
        r
    }

    pub fn max_steps(&self) -> (r: usize)
        ensures
            r == self.spec_max_steps(),
    {
        self.max_steps
    }

    pub fn max_tokens(&self) -> (r: usize)
        ensures
            r == self.spec_max_tokens(),
    {
        self.max_tokens
    }

    pub fn max_retries(&self) -> (r: usize)
        ensures
            r == self.spec_max_retries(),
    {
        self.max_retries
    }

    pub fn policy(&self) -> (r: ReasoningPolicy)
        ensures
            r == self.spec_policy(),
    {
        self.policy
    }

    /// Whether a tool is registered under `name`.
    pub fn has_tool(&self, name: &str) -> (r: bool)
        ensures
            r == self.tool_names().contains(name@),
    {
        let wanted = String::from_str(name);
        let mut i: usize = 0;
        while i < self.tools.len()
            invariant
                i <= self.tools.len(),
                wanted@ == name@,
                forall|j: int| 0 <= j < i ==> self.tools@[j]@ != name@,
            decreases self.tools.len() - i,
        {
            if self.tools[i] == wanted {
                return true;
            }
            i = i + 1;
        }
        false
    }

    /// Registers a tool under `name`; registering a name again replaces
    /// nothing in the set of names.
    pub fn register_tool(&mut self, name: &str)
        ensures
            final(self).tool_names() == old(self).tool_names().insert(name@),
            final(self).spec_max_steps() == old(self).spec_max_steps(),
            final(self).spec_max_tokens() == old(self).spec_max_tokens(),
            final(self).spec_max_retries() == old(self).spec_max_retries(),
            final(self).spec_policy() == old(self).spec_policy(),
    {
        if !self.has_tool(name) {
            self.tools.push(String::from_str(name));
        }
        proof {
            assert(final(self).tool_names() =~= old(self).tool_names().insert(name@)) by {
                if old(self).tool_names().contains(name@) {
                } else {
                    assert(final(self).tools@[old(self).tools@.len() as int]@ == name@);
                }
                assert forall|n: Seq<char>| #[trigger] old(self).tool_names().contains(n)
                    implies final(self).tool_names().contains(n) by {
                    let i = choose|i: int| 0 <= i < old(self).tools@.len() && old(self).tools@[i]@ == n;
                    assert(final(self).tools@[i]@ == n);
                }
            }
        }
    }

    /// Charges `next` and goes on with it.
    fn proceed(&self, run: &mut Run, next: Ask) -> (a: Action)
        requires
            old(run)@.remaining <= self.max_tokens,
            old(run)@.step <= self.max_steps,
        ensures
            a@ == proceed(self.max_steps as nat, old(run)@, next@).1,
            !(a@ is Done) ==> final(run)@ == proceed(self.max_steps as nat, old(run)@, next@).0,
    {
        let ci = match tokens_within(&next.input, run.remaining) {
            Some(n) => n,
            None => {
                return Action::Done(failure_reply("token budget exceeded"));
            },
        };
        let cc = match tokens_within(&next.context, run.remaining - ci) {
            Some(n) => n,
            None => {
                return Action::Done(failure_reply("token budget exceeded"));
            },
        };
        run.remaining = run.remaining - ci - cc;
        run.current = next.duplicate();
        run.pending = Vec::new();
        proof {
            assert(run.pending@.map_values(|n: String| n@) =~= Seq::<Seq<char>>::empty());
        }
        if run.step < self.max_steps {
            Action::Primary(next)
        } else {
            Action::Done(failure_reply("step limit exceeded"))
        }
    }

    /// Takes the primary provider's reply: ends the run (cancelled, over
    /// budget, success, unknown tool), asks for the tool calls it requests,
    /// or feeds its output back to the primary provider as the next input.
    pub fn on_primary(&self, run: &mut Run, reply: Reply, cancelled: bool) -> (a: Action)
        requires
            old(run)@.awaiting_primary(self),
        ensures
            a@ == self.primary_spec(old(run)@, reply@, cancelled).1,
            !(a@ is Done) ==> final(run)@ == self.primary_spec(old(run)@, reply@, cancelled).0,
    {
        let ghost r0 = run@;
        run.step = run.step + 1;
        if cancelled {
            return Action::Done(reply);
        }
        let c = match tokens_within(&reply.output, run.remaining) {
            Some(n) => n,
            None => {
                return Action::Done(
                    Reply {
                        ok: false,
                        output: new_error_output("token budget exceeded"),
                        latency_ms: reply.latency_ms,
                        cost: reply.cost,
                    },
                );
            },
        };
        run.remaining = run.remaining - c;
        if reply.ok {
            return Action::Done(reply);
        }
        let ghost out = reply.output@;
        let found: Option<&Vec<Json>> = match reply.output.get("tool_calls") {
            Some(v) => v.as_array(),
            None => None,
        };
        let calls: &Vec<Json> = match found {
            Some(items) => {
                proof {
                    lemma_item_models(items@);
                }
                if items.len() == 0 {
                    let next = Ask {
                        op: run.current.op.clone(),
                        input: reply.output,
                        context: new_retry_context(run.mode, run.step),
                    };
                    return self.proceed(run, next);
                }
                items
            },
            None => {
                let next = Ask {
                    op: run.current.op.clone(),
                    input: reply.output,
                    context: new_retry_context(run.mode, run.step),
                };
                return self.proceed(run, next);
            },
        };
        let ghost cs = item_models(calls@);
        let ghost r2 = run@;
        proof {
            lemma_item_models(calls@);
            assert(cs == tool_call_list(out));
            assert(cs.subrange(0, cs.len() as int) =~= cs);
        }
        let mut i: usize = 0;
        while i < calls.len()
            invariant
                i <= calls.len(),
                cs == item_models(calls@),
                cs.len() == calls@.len(),
                forall|k: int| 0 <= k < cs.len() ==> #[trigger] cs[k] == calls@[k]@,
                self.first_unknown(cs) == self.first_unknown(cs.subrange(i as int, cs.len() as int)),
                !cancelled,
                !reply.ok,
                out == reply.output@,
                cs == tool_call_list(out),
                cs.len() > 0,
                text_len(out) <= r0.remaining,
                r2 == (RunModel { step: r0.step + 1, remaining: (r0.remaining - text_len(out)) as nat, ..r0 }),
                r0 == old(run)@,
            decreases calls.len() - i,
        {
            let name = call_name_of(&calls[i]);
            if !self.has_tool(name.as_str()) {
                proof {
                    let rest = cs.subrange(i as int, cs.len() as int);
                    assert(rest[0] == cs[i as int]);
                    assert(name@ == call_name(rest[0]));
                    assert(self.first_unknown(rest) == Some(name@));
                }
                return Action::Done(
                    Reply {
                        ok: false,
                        output: new_unknown_tool_output(name.as_str()),
                        latency_ms: 0,
                        cost: new_empty_object(),
                    },
                );
            }
            proof {
                let rest = cs.subrange(i as int, cs.len() as int);
                assert(rest[0] == cs[i as int]);
                assert(rest.drop_first() =~= cs.subrange(i + 1, cs.len() as int));
            }
            i = i + 1;
        }
        proof {
            assert(cs.subrange(i as int, cs.len() as int) =~= Seq::<JsonModel>::empty());
            assert(cs.subrange(0, 0) =~= Seq::<JsonModel>::empty());
        }
        let mut total: usize = 0;
        let mut asks: Vec<Ask> = Vec::new();
        let mut names: Vec<String> = Vec::new();
        let mut j: usize = 0;
        while j < calls.len()
            invariant
                j <= calls.len(),
                cs == item_models(calls@),
                cs.len() == calls@.len(),
                forall|k: int| 0 <= k < cs.len() ==> #[trigger] cs[k] == calls@[k]@,
                run@ == r2,
                total == inputs_cost(cs.subrange(0, j as int)),
                total <= r2.remaining,
                asks@.len() == j,
                names@.len() == j,
                forall|k: int| 0 <= k < j ==> #[trigger] asks@[k]@ == tool_ask(cs[k]),
                forall|k: int| 0 <= k < j ==> #[trigger] names@[k]@ == call_name(cs[k]),
                self.first_unknown(cs) is None,
                !cancelled,
                !reply.ok,
                out == reply.output@,
                cs == tool_call_list(out),
                cs.len() > 0,
                text_len(out) <= r0.remaining,
                r2 == (RunModel { step: r0.step + 1, remaining: (r0.remaining - text_len(out)) as nat, ..r0 }),
                r0 == old(run)@,
            decreases calls.len() - j,
        {
            let input = call_input_of(&calls[j]);
            proof {
                assert(cs.subrange(0, j + 1).drop_last() =~= cs.subrange(0, j as int));
            }
            let ci = match tokens_within(&input, run.remaining - total) {
                Some(n) => n,
                None => {
                    proof {
                        lemma_inputs_prefix(cs, j + 1);
                    }
                    return Action::Done(failure_reply("token budget exceeded"));
                },
            };
            total = total + ci;
            let name = call_name_of(&calls[j]);
            names.push(name.clone());
            asks.push(Ask { op: name, input, context: new_empty_object() });
            j = j + 1;
        }
        proof {
            assert(cs.subrange(0, j as int) =~= cs);
        }
        run.remaining = run.remaining - total;
        run.pending = names;
        proof {
            assert(run.pending@.map_values(|n: String| n@) =~= cs.map_values(
                |x: JsonModel| call_name(x),
            ));
            assert(asks@.map_values(|a: Ask| a@) =~= cs.map_values(|x: JsonModel| tool_ask(x)));
        }
        Action::Tools(asks)
    }

    /// Takes the replies of the pending tools, in the order they were
    /// asked: ends the run (cancelled, a failed tool, over budget) or feeds
    /// their outputs to the primary provider as the next input.
    pub fn on_tools(&self, run: &mut Run, replies: Vec<Reply>, cancelled: bool) -> (a: Action)
        requires
            old(run)@.awaiting_tools(self),
            replies@.len() == old(run)@.pending.len(),
        ensures
            a@ == self.tools_spec(old(run)@, reply_models(replies@), cancelled).1,
            !(a@ is Done) ==> final(run)@ == self.tools_spec(
                old(run)@,
                reply_models(replies@),
                cancelled,
            ).0,
    {
        let ghost r0 = run@;
        let ghost rs = reply_models(replies@);
        if run.pending.len() == 1 {
            let r = &replies[0];
            proof {
                assert(r@ == rs[0]);
            }
            if cancelled {
                return Action::Done(
                    Reply {
                        ok: r.ok,
                        output: r.output.duplicate(),
                        latency_ms: r.latency_ms,
                        cost: r.cost.duplicate(),
                    },
                );
            }
            if !r.ok {
                return Action::Done(
                    Reply {
                        ok: false,
                        output: new_tool_failed_output(
                            run.pending[0].as_str(),
                            r.output.duplicate(),
                        ),
                        latency_ms: r.latency_ms,
                        cost: r.cost.duplicate(),
                    },
                );
            }
            let c = match tokens_within(&r.output, run.remaining) {
                Some(n) => n,
                None => {
                    return Action::Done(failure_reply("token budget exceeded"));
                },
            };
            run.remaining = run.remaining - c;
            let context = new_tool_context(run.mode, run.pending[0].as_str());
            let next = Ask { op: run.current.op.clone(), input: r.output.duplicate(), context };
            return self.proceed(run, next);
        }
        if cancelled {
            return Action::Done(failure_reply("cancelled"));
        }
        let ghost n = rs.len() as int;
        let mut outs: Vec<Json> = Vec::new();
        let mut remaining = run.remaining;
        let mut i: usize = 0;
        proof {
            assert(item_models(outs@) =~= Seq::<JsonModel>::empty());
            assert(r0.pending.subrange(0, n) =~= r0.pending);
            assert(rs.subrange(0, n) =~= rs);
            assert(after_prefix(Seq::empty(), gather(r0.pending, rs, r0.remaining)) == gather(
                r0.pending,
                rs,
                r0.remaining,
            )) by {
                match gather(r0.pending, rs, r0.remaining) {
                    Ok((o, rem)) => {
                        assert(Seq::<JsonModel>::empty() + o =~= o);
                    },
                    Err(e) => {},
                }
            }
        }
        while i < replies.len()
            invariant
                i <= replies.len(),
                n == replies@.len(),
                n == r0.pending.len(),
                n >= 2,
                !cancelled,
                rs == reply_models(replies@),
                run@ == r0,
                r0 == old(run)@,
                remaining <= r0.remaining,
                gather(r0.pending, rs, r0.remaining) == after_prefix(
                    item_models(outs@),
                    gather(r0.pending.subrange(i as int, n), rs.subrange(i as int, n), remaining as nat),
                ),
            decreases replies.len() - i,
        {
            let ghost ns = r0.pending.subrange(i as int, n);
            let ghost rr = rs.subrange(i as int, n);
            proof {
                assert(rr[0] == replies@[i as int]@);
                assert(ns[0] == run.pending@[i as int]@);
            }
            if !replies[i].ok {
                return Action::Done(
                    Reply {
                        ok: false,
                        output: new_tool_failed_output(
                            run.pending[i].as_str(),
                            replies[i].output.duplicate(),
                        ),
                        latency_ms: replies[i].latency_ms,
                        cost: replies[i].cost.duplicate(),
                    },
                );
            }
            let c = match tokens_within(&replies[i].output, remaining) {
                Some(k) => k,
                None => {
                    return Action::Done(failure_reply("token budget exceeded"));
                },
            };
            let out = replies[i].output.duplicate();
            proof {
                assert(ns.drop_first() =~= r0.pending.subrange(i + 1, n));
                assert(rr.drop_first() =~= rs.subrange(i + 1, n));
                let g = gather(ns.drop_first(), rr.drop_first(), (remaining - c) as nat);
                lemma_item_models_push(outs@, out);
                match g {
                    Ok((o, rem)) => {
                        assert(item_models(outs@) + (seq![out@] + o) =~= item_models(outs@).push(
                            out@,
                        ) + o);
                    },
                    Err(e) => {},
                }
            }
            remaining = remaining - c;
            outs.push(out);
            i = i + 1;
        }
        proof {
            assert(r0.pending.subrange(i as int, n) =~= Seq::<Seq<char>>::empty());
        }
        run.remaining = remaining;
        let context = new_tools_context(run.mode, &run.pending);
        let next = Ask { op: run.current.op.clone(), input: Json::Array(outs), context };
        self.proceed(run, next)
    }

    /// Starts a run of `ask`: charges its input and context, picks the
    /// reasoning mode, and asks the primary provider with the context
    /// `{"reasoning": mode}` in place of the ask's own.
    pub fn begin(&self, ask: Ask) -> (r: (Run, Action))
        ensures
            r.1@ == self.begin_spec(ask@).1,
            !(r.1@ is Done) ==> r.0@ == self.begin_spec(ask@).0,
    {
        let ghost a = ask@;
        let ci = tokens_within(&ask.input, self.max_tokens);
        let cc = match ci {
            Some(n) => tokens_within(&ask.context, self.max_tokens - n),
            None => None,
        };
        let initial: usize = match (ci, cc) {
            (Some(x), Some(y)) => x + y,
            _ => {
                let run = Run {
                    remaining: 0,
                    step: 0,
                    mode: ReasoningMode::Direct,
                    current: ask,
                    pending: Vec::new(),
                };
                return (run, Action::Done(failure_reply("token budget exceeded")));
            },
        };
        let forced = self.max_tokens > 0 && (initial as u128) * 100 / (self.max_tokens as u128)
            > 85;
        proof {
            if self.max_tokens > 0 {
                assert(((initial as u128) * 100) as int == initial as int * 100);
            }
        }
        let mode = if forced {
            ReasoningMode::Direct
        } else {
            self.policy.decide(&ask.input, 0)
        };
        let current = Ask { op: ask.op, input: ask.input, context: new_start_context(mode) };
        let first = current.duplicate();
        let pending: Vec<String> = Vec::new();
        proof {
            assert(pending@.map_values(|n: String| n@) =~= Seq::<Seq<char>>::empty());
        }
        let run = Run { remaining: self.max_tokens - initial, step: 0, mode, current, pending };
        if 0 < self.max_steps {
            (run, Action::Primary(first))
        } else {
            (run, Action::Done(failure_reply("step limit exceeded")))
        }
    }
}

impl Run {
    /// Tokens left of the budget.
    pub fn remaining(&self) -> (r: usize)
        ensures
            r == self@.remaining,
    {
        self.remaining
    }

    /// Replies of the primary provider taken so far.
    pub fn step(&self) -> (r: usize)
        ensures
            r == self@.step,
    {
        self.step
    }

    /// The reasoning mode of the run.
    pub fn mode(&self) -> (r: ReasoningMode)
        ensures
            r == self@.mode,
    {
        self.mode
    }
}

/// A measure of what is left of a run: two units for each step left, one
/// more while tool replies are awaited.
pub closed spec fn progress(agent: &Agent, run: RunModel) -> nat {
    (2 * (agent.max_steps - run.step) + if run.pending.len() > 0 {
        1int
    } else {
        0int
    }) as nat
}

proof fn lemma_gather_remaining(names: Seq<Seq<char>>, replies: Seq<ReplyModel>, remaining: nat)
    ensures
        gather(names, replies, remaining) matches Ok((_, rem)) ==> rem <= remaining,
    decreases replies.len(),
{
    if replies.len() > 0 && names.len() > 0 && replies[0].ok && text_len(replies[0].output)
        <= remaining {
        lemma_gather_remaining(
            names.drop_first(),
            replies.drop_first(),
            (remaining - text_len(replies[0].output)) as nat,
        );
    }
}

/// The token budget only shrinks: a run starts with at most `max_tokens`
/// left, and no transition leaves more than it found, so the tokens
/// debited up to any point of a run never exceed `max_tokens`.
pub proof fn lemma_budget_monotone(
    agent: &Agent,
    ask: AskModel,
    run: RunModel,
    reply: ReplyModel,
    replies: Seq<ReplyModel>,
    cancelled: bool,
)
    ensures
        agent.begin_spec(ask).0.remaining <= agent.spec_max_tokens(),
        run.awaiting_primary(agent) ==> agent.primary_spec(run, reply, cancelled).0.remaining
            <= run.remaining,
        run.awaiting_tools(agent) ==> agent.tools_spec(run, replies, cancelled).0.remaining
            <= run.remaining,
{
    lemma_gather_remaining(run.pending, replies, run.remaining);
}

/// At most `max_steps` requests reach the primary provider: a run asks it
/// only while fewer than `max_steps` of its replies have been taken, and
/// each reply taken counts one step.
pub proof fn lemma_steps_bounded(
    agent: &Agent,
    ask: AskModel,
    run: RunModel,
    reply: ReplyModel,
    replies: Seq<ReplyModel>,
    cancelled: bool,
)
    ensures
        agent.begin_spec(ask).1 is Primary ==> agent.begin_spec(ask).0.awaiting_primary(agent)
            && agent.begin_spec(ask).0.step == 0,
        run.awaiting_primary(agent) ==> ({
            let (next, action) = agent.primary_spec(run, reply, cancelled);
            &&& next.step == run.step + 1
            &&& next.step <= agent.spec_max_steps()
            &&& action is Primary ==> next.awaiting_primary(agent)
            &&& action is Tools ==> next.awaiting_tools(agent)
        }),
        run.awaiting_tools(agent) && replies.len() == run.pending.len() ==> ({
            let (next, action) = agent.tools_spec(run, replies, cancelled);
            &&& next.step == run.step
            &&& action is Primary ==> next.awaiting_primary(agent)
            &&& !(action is Tools)
        }),
{
    lemma_gather_remaining(run.pending, replies, run.remaining);
}

/// Every run ends: each transition that does not end it lowers its
/// progress measure, a natural number.
pub proof fn lemma_run_terminates(
    agent: &Agent,
    run: RunModel,
    reply: ReplyModel,
    replies: Seq<ReplyModel>,
    cancelled: bool,
)
    ensures
        run.awaiting_primary(agent) && !(agent.primary_spec(run, reply, cancelled).1 is Done)
            ==> progress(agent, agent.primary_spec(run, reply, cancelled).0) < progress(agent, run),
        run.awaiting_tools(agent) && replies.len() == run.pending.len() && !(agent.tools_spec(
            run,
            replies,
            cancelled,
        ).1 is Done) ==> progress(agent, agent.tools_spec(run, replies, cancelled).0) < progress(
            agent,
            run,
        ),
{
    lemma_gather_remaining(run.pending, replies, run.remaining);
}

/// Once cancellation is signaled, the reply of the call in flight ends the
/// run: no further provider is asked.
pub proof fn lemma_cancel_ends_run(
    agent: &Agent,
    run: RunModel,
    reply: ReplyModel,
    replies: Seq<ReplyModel>,
)
    ensures
        agent.primary_spec(run, reply, true).1 == ActionModel::Done(reply),
        run.pending.len() == 1 ==> agent.tools_spec(run, replies, true).1 == ActionModel::Done(
            replies[0],
        ),
        run.pending.len() != 1 ==> agent.tools_spec(run, replies, true).1 == ActionModel::Done(
            failure("cancelled"@),
        ),
{
}

/// A provider that echoes its input ends a run in its first step, with the
/// ask's input as the output, whenever the budget left covers that output.
pub proof fn lemma_echo_one_step(
    agent: &Agent,
    ask: AskModel,
    latency_ms: u64,
    cost: JsonModel,
)
    requires
        agent.begin_spec(ask).1 is Primary,
        text_len(ask.input) <= agent.begin_spec(ask).0.remaining,
    ensures
        ({
            let (run, first) = agent.begin_spec(ask);
            let echoed = ReplyModel {
                ok: true,
                output: first->Primary_0.input,
                latency_ms,
                cost,
            };
            let (next, action) = agent.primary_spec(run, echoed, false);
            &&& action == ActionModel::Done(echoed)
            &&& echoed.output == ask.input
            &&& next.step == 1
            &&& next.remaining == run.remaining - text_len(ask.input)
        }),
{
}

} // verus!
