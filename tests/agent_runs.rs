use std::cell::Cell;
use std::rc::Rc;

use soma_agent::agent::{Action, Agent};
use soma_agent::json::Json;
use soma_agent::model::{Ask, Provider, ProviderKind, ReasoningMode, ReasoningPolicy, Reply};
use soma_agent::retry::{cancelled_reply, Retry};

fn s(text: &str) -> Json {
    Json::Str(text.to_string())
}

fn n(v: i64) -> Json {
    Json::Number(v.to_string())
}

fn obj(entries: Vec<(&str, Json)>) -> Json {
    Json::Object(entries.into_iter().map(|(k, v)| (k.to_string(), v)).collect())
}

fn empty() -> Json {
    obj(vec![])
}

fn ask(op: &str, input: Json) -> Ask {
    Ask { op: op.to_string(), input, context: empty() }
}

fn reply(ok: bool, output: Json) -> Reply {
    Reply { ok, output, latency_ms: 0, cost: empty() }
}

/// A simulated clock with a cancellation signal that fires at a given time.
struct Signal {
    now_ms: Cell<u64>,
    cancel_at: Option<u64>,
}

impl Signal {
    fn never() -> Signal {
        Signal { now_ms: Cell::new(0), cancel_at: None }
    }

    fn at(ms: u64) -> Signal {
        Signal { now_ms: Cell::new(0), cancel_at: Some(ms) }
    }

    fn cancelled(&self) -> bool {
        matches!(self.cancel_at, Some(t) if self.now_ms.get() >= t)
    }

    /// Sleeps `d` milliseconds; true when the signal fired meanwhile.
    fn sleep(&self, d: u64) -> bool {
        let end = self.now_ms.get().saturating_add(d);
        match self.cancel_at {
            Some(t) if t <= end => {
                self.now_ms.set(t.max(self.now_ms.get()));
                true
            }
            _ => {
                self.now_ms.set(end);
                false
            }
        }
    }
}

fn through_retry(call: &mut dyn FnMut() -> Reply, max_retries: usize, sig: &Signal) -> Reply {
    let mut r = Retry::new(max_retries);
    loop {
        if !r.may_invoke(sig.cancelled()) {
            return cancelled_reply();
        }
        let out = call();
        match r.after_reply(out.ok) {
            None => return out,
            Some(d) => {
                if sig.sleep(d) {
                    return cancelled_reply();
                }
            }
        }
    }
}

fn drive(
    agent: &Agent,
    primary: &dyn Provider,
    tools: &[(&str, &dyn Provider)],
    first: Ask,
    sig: &Signal,
) -> Reply {
    let (mut run, mut action) = agent.begin(first);
    loop {
        action = match action {
            Action::Done(r) => return r,
            Action::Primary(a) => {
                let r = through_retry(&mut || primary.ask(a.duplicate()), agent.max_retries(), sig);
                agent.on_primary(&mut run, r, sig.cancelled())
            }
            Action::Tools(asks) => {
                let mut replies = Vec::new();
                for a in asks.iter() {
                    let tool = tools.iter().find(|(name, _)| *name == a.op).unwrap().1;
                    replies.push(through_retry(&mut || tool.ask(a.duplicate()), agent.max_retries(), sig));
                }
                agent.on_tools(&mut run, replies, sig.cancelled())
            }
        }
    }
}

struct EchoProvider;

impl Provider for EchoProvider {
    fn kind(&self) -> ProviderKind {
        ProviderKind::Embedded
    }

    fn ask(&self, ask: Ask) -> Reply {
        reply(true, ask.input)
    }
}

struct FailProvider;

impl Provider for FailProvider {
    fn kind(&self) -> ProviderKind {
        ProviderKind::Embedded
    }

    fn ask(&self, _ask: Ask) -> Reply {
        reply(false, obj(vec![("error", s("fail"))]))
    }
}

struct InspectProvider;

impl Provider for InspectProvider {
    fn kind(&self) -> ProviderKind {
        ProviderKind::Embedded
    }

    fn ask(&self, ask: Ask) -> Reply {
        reply(true, ask.context)
    }
}

struct ReasoningEcho;

impl Provider for ReasoningEcho {
    fn kind(&self) -> ProviderKind {
        ProviderKind::Embedded
    }

    fn ask(&self, ask: Ask) -> Reply {
        reply(true, ask.context.get("reasoning").unwrap().duplicate())
    }
}

struct BigProvider;

impl Provider for BigProvider {
    fn kind(&self) -> ProviderKind {
        ProviderKind::Embedded
    }

    fn ask(&self, _ask: Ask) -> Reply {
        reply(true, s(&"x".repeat(200)))
    }
}

struct FlakyProvider {
    attempts: Rc<Cell<usize>>,
    succeed_on: usize,
}

impl Provider for FlakyProvider {
    fn kind(&self) -> ProviderKind {
        ProviderKind::Embedded
    }

    fn ask(&self, _ask: Ask) -> Reply {
        let count = self.attempts.get() + 1;
        self.attempts.set(count);
        if count >= self.succeed_on {
            reply(true, obj(vec![("done", Json::Bool(true))]))
        } else {
            reply(false, obj(vec![("error", s("flaky"))]))
        }
    }
}

fn int_of(v: &Json) -> i64 {
    match v {
        Json::Number(t) => t.parse().unwrap(),
        _ => panic!("not a number"),
    }
}

struct Adder;

impl Provider for Adder {
    fn kind(&self) -> ProviderKind {
        ProviderKind::Embedded
    }

    fn ask(&self, ask: Ask) -> Reply {
        let a = int_of(ask.input.get("a").unwrap());
        let b = int_of(ask.input.get("b").unwrap());
        reply(true, obj(vec![("sum", n(a + b))]))
    }
}

fn adder_call(a: i64, b: i64) -> Json {
    obj(vec![("op", s("adder")), ("input", obj(vec![("a", n(a)), ("b", n(b))]))])
}

struct SingleToolProvider {
    seen: Cell<bool>,
}

impl Provider for SingleToolProvider {
    fn kind(&self) -> ProviderKind {
        ProviderKind::Embedded
    }

    fn ask(&self, ask: Ask) -> Reply {
        if self.seen.get() {
            reply(true, obj(vec![("final", ask.input.get("sum").unwrap().duplicate())]))
        } else {
            self.seen.set(true);
            reply(false, obj(vec![("tool_calls", Json::Array(vec![adder_call(1, 2)]))]))
        }
    }
}

struct ParallelToolProvider {
    seen: Cell<bool>,
}

impl Provider for ParallelToolProvider {
    fn kind(&self) -> ProviderKind {
        ProviderKind::Embedded
    }

    fn ask(&self, ask: Ask) -> Reply {
        if self.seen.get() {
            let arr = ask.input.as_array().unwrap();
            let first = int_of(arr[0].get("sum").unwrap());
            let second = int_of(arr[1].get("sum").unwrap());
            reply(true, obj(vec![("sums", Json::Array(vec![n(first), n(second)]))]))
        } else {
            self.seen.set(true);
            reply(
                false,
                obj(vec![("tool_calls", Json::Array(vec![adder_call(1, 2), adder_call(3, 4)]))]),
            )
        }
    }
}

#[test]
fn echo_roundtrip() {
    let a = ask("echo", obj(vec![("msg", s("hi"))]));
    let r = EchoProvider.ask(a);
    assert!(r.ok);
    assert_eq!(r.output, obj(vec![("msg", s("hi"))]));
}

#[test]
fn agent_runs_until_ok() {
    let a = ask("echo", obj(vec![("msg", s("hi"))]));
    let agent = Agent::new(3, 1000, 3);
    let r = drive(&agent, &EchoProvider, &[], a, &Signal::never());
    assert!(r.ok);
    assert_eq!(r.output, obj(vec![("msg", s("hi"))]));
}

#[test]
fn agent_respects_step_limit() {
    let a = ask("fail", empty());
    let agent = Agent::new(2, 1000, 3);
    let r = drive(&agent, &FailProvider, &[], a, &Signal::never());
    assert!(!r.ok);
    assert_eq!(r.output, obj(vec![("error", s("step limit exceeded"))]));
}

#[test]
fn reasoning_policy_scores_inputs() {
    let policy = ReasoningPolicy::default();
    assert_eq!(policy.decide(&s("short"), 0), ReasoningMode::Direct);
    let long = "x".repeat(300);
    assert_eq!(policy.decide(&s(&long), 0), ReasoningMode::Reasoned);
}

#[test]
fn agent_attaches_reasoning_mode() {
    let a = ask("inspect", s("hello"));
    let agent = Agent::new(1, 1000, 3);
    let r = drive(&agent, &InspectProvider, &[], a, &Signal::never());
    assert_eq!(r.output.get("reasoning"), Some(&s("direct")));
}

#[test]
fn agent_enforces_token_budget() {
    let a = ask("big", s("hi"));
    let agent = Agent::new(1, 50, 3);
    let r = drive(&agent, &BigProvider, &[], a, &Signal::never());
    assert!(!r.ok);
    assert_eq!(r.output, obj(vec![("error", s("token budget exceeded"))]));
}

#[test]
fn budget_forces_direct_mode() {
    let long = "x".repeat(90);
    let a = ask("inspect", s(&long));
    let policy = ReasoningPolicy { threshold: 10, tool_weight: 50 };
    let agent = Agent::with_policy(1, 105, policy, 3);
    let r = drive(&agent, &ReasoningEcho, &[], a, &Signal::never());
    assert_eq!(r.output, s("direct"));
}

#[test]
fn provider_retries_until_success() {
    let attempts = Rc::new(Cell::new(0));
    let provider = FlakyProvider { attempts: attempts.clone(), succeed_on: 3 };
    let agent = Agent::new(5, 1000, 3);
    let r = drive(&agent, &provider, &[], ask("flaky", empty()), &Signal::never());
    assert!(r.ok);
    assert_eq!(attempts.get(), 3);
}

#[test]
fn cancels_on_token() {
    let attempts = Rc::new(Cell::new(0));
    let provider = FlakyProvider { attempts: attempts.clone(), succeed_on: usize::MAX };
    let agent = Agent::new(5, 1000, 5);
    let r = drive(&agent, &provider, &[], ask("never", empty()), &Signal::at(10));
    assert!(!r.ok);
    assert_eq!(r.output, obj(vec![("error", s("cancelled"))]));
    assert_eq!(attempts.get(), 1);
}

#[test]
fn agent_sequential_tool_call() {
    // One attempt per call: a reply that asks for tools is not ok, and the
    // retry policy would otherwise ask the primary provider again at once.
    let mut agent = Agent::new(3, 1000, 1);
    agent.register_tool("adder");
    let primary = SingleToolProvider { seen: Cell::new(false) };
    let r = drive(&agent, &primary, &[("adder", &Adder)], ask("sum", empty()), &Signal::never());
    assert!(r.ok);
    assert_eq!(r.output, obj(vec![("final", n(3))]));
}

#[test]
fn agent_parallel_tool_calls() {
    let mut agent = Agent::new(3, 1000, 1);
    agent.register_tool("adder");
    let primary = ParallelToolProvider { seen: Cell::new(false) };
    let r = drive(&agent, &primary, &[("adder", &Adder)], ask("sum", empty()), &Signal::never());
    assert!(r.ok);
    assert_eq!(r.output, obj(vec![("sums", Json::Array(vec![n(3), n(7)]))]));
}

#[test]
fn unknown_tool_ends_the_run() {
    let agent = Agent::new(3, 1000, 1);
    let primary = SingleToolProvider { seen: Cell::new(false) };
    let r = drive(&agent, &primary, &[], ask("sum", empty()), &Signal::never());
    assert!(!r.ok);
    assert_eq!(r.output, obj(vec![("error", s("unknown tool")), ("tool", s("adder"))]));
}

#[test]
fn failed_tool_is_reported_with_its_output() {
    let mut agent = Agent::new(3, 1000, 1);
    agent.register_tool("adder");
    let primary = SingleToolProvider { seen: Cell::new(false) };
    let r = drive(&agent, &primary, &[("adder", &FailProvider)], ask("sum", empty()), &Signal::never());
    assert!(!r.ok);
    assert_eq!(
        r.output,
        obj(vec![
            ("error", s("tool invocation failed")),
            ("tool", s("adder")),
            ("detail", obj(vec![("error", s("fail"))])),
        ])
    );
}

#[test]
fn failed_step_feeds_back_with_retry_count() {
    let agent = Agent::new(3, 1000, 1);
    let (mut run, first) = agent.begin(ask("op", s("hi")));
    assert!(matches!(first, Action::Primary(_)));
    // The ask's input "hi" and context {} cost 4 + 2 tokens.
    assert_eq!(run.remaining(), 1000 - 6);
    let next = agent.on_primary(&mut run, reply(false, obj(vec![("error", s("fail"))])), false);
    match next {
        Action::Primary(a) => {
            assert_eq!(a.input, obj(vec![("error", s("fail"))]));
            assert_eq!(a.context, obj(vec![("reasoning", s("direct")), ("retry", n(1))]));
        }
        _ => panic!("expected another step"),
    }
    // {"error":"fail"} is charged as output, then as input with the context
    // {"reasoning":"direct","retry":1}.
    assert_eq!(run.remaining(), 1000 - 6 - 16 - 16 - 32);
    assert_eq!(run.step(), 1);
}

#[test]
fn cancelled_primary_reply_is_returned_verbatim() {
    let agent = Agent::new(3, 1000, 3);
    let (mut run, _) = agent.begin(ask("op", s("hi")));
    let r = Reply { ok: true, output: s("late"), latency_ms: 7, cost: empty() };
    match agent.on_primary(&mut run, r, true) {
        Action::Done(d) => {
            assert_eq!(d, Reply { ok: true, output: s("late"), latency_ms: 7, cost: empty() })
        }
        _ => panic!("expected the end of the run"),
    }
}

#[test]
fn zero_steps_end_at_once() {
    let agent = Agent::new(0, 1000, 3);
    match agent.begin(ask("op", s("hi"))).1 {
        Action::Done(d) => assert_eq!(d.output, obj(vec![("error", s("step limit exceeded"))])),
        _ => panic!("expected the end of the run"),
    }
}

#[test]
fn echo_ends_in_one_step_with_the_input() {
    let agent = Agent::new(5, 1000, 3);
    let input = obj(vec![("k", Json::Array(vec![n(1), Json::Null, Json::Bool(false)]))]);
    let (mut run, first) = agent.begin(ask("echo", input.duplicate()));
    let a = match first {
        Action::Primary(a) => a,
        _ => panic!("expected a step"),
    };
    match agent.on_primary(&mut run, EchoProvider.ask(a), false) {
        Action::Done(d) => {
            assert!(d.ok);
            assert_eq!(d.output, input);
        }
        _ => panic!("expected the end of the run"),
    }
    assert_eq!(run.step(), 1);
}

#[test]
fn registering_twice_keeps_one_name() {
    let mut agent = Agent::new(1, 10, 1);
    assert!(!agent.has_tool("adder"));
    agent.register_tool("adder");
    agent.register_tool("adder");
    assert!(agent.has_tool("adder"));
    assert!(!agent.has_tool("add"));
}

fn tools_run(agent: &Agent) -> soma_agent::agent::Run {
    let (mut run, _) = agent.begin(ask("sum", empty()));
    let calls = obj(vec![("tool_calls", Json::Array(vec![adder_call(1, 2), adder_call(3, 4)]))]);
    match agent.on_primary(&mut run, reply(false, calls), false) {
        Action::Tools(asks) => {
            assert_eq!(asks.len(), 2);
            assert_eq!(asks[1].op, "adder");
            assert_eq!(asks[1].input, obj(vec![("a", n(3)), ("b", n(4))]));
            assert_eq!(asks[1].context, empty());
        }
        _ => panic!("expected tool calls"),
    }
    run
}

#[test]
fn first_failed_parallel_reply_wins() {
    let mut agent = Agent::new(3, 1000, 1);
    agent.register_tool("adder");
    let mut run = tools_run(&agent);
    let replies = vec![
        reply(true, obj(vec![("sum", n(3))])),
        reply(false, obj(vec![("error", s("second"))])),
    ];
    match agent.on_tools(&mut run, replies, false) {
        Action::Done(d) => assert_eq!(
            d.output,
            obj(vec![
                ("error", s("tool invocation failed")),
                ("tool", s("adder")),
                ("detail", obj(vec![("error", s("second"))])),
            ])
        ),
        _ => panic!("expected the end of the run"),
    }
}

#[test]
fn parallel_outputs_feed_the_next_step_in_order() {
    let mut agent = Agent::new(3, 1000, 1);
    agent.register_tool("adder");
    let mut run = tools_run(&agent);
    let replies = vec![reply(true, n(3)), reply(true, n(7))];
    match agent.on_tools(&mut run, replies, false) {
        Action::Primary(a) => {
            assert_eq!(a.input, Json::Array(vec![n(3), n(7)]));
            assert_eq!(
                a.context,
                obj(vec![("reasoning", s("direct")), ("tools", Json::Array(vec![s("adder"), s("adder")]))])
            );
        }
        _ => panic!("expected another step"),
    }
}

#[test]
fn cancelled_parallel_calls_end_the_run() {
    let mut agent = Agent::new(3, 1000, 1);
    agent.register_tool("adder");
    let mut run = tools_run(&agent);
    let replies = vec![reply(true, n(3)), reply(true, n(7))];
    match agent.on_tools(&mut run, replies, true) {
        Action::Done(d) => assert_eq!(d, cancelled_reply()),
        _ => panic!("expected the end of the run"),
    }
}

#[test]
fn tool_inputs_over_budget_end_the_run() {
    // The ask costs 4 and the reply with its two calls 90, which leaves 20:
    // enough for the first input (13) but not for both (26).
    let mut agent = Agent::new(3, 114, 1);
    agent.register_tool("adder");
    let (mut run, _) = agent.begin(ask("sum", empty()));
    let calls = obj(vec![("tool_calls", Json::Array(vec![adder_call(1, 2), adder_call(3, 4)]))]);
    match agent.on_primary(&mut run, reply(false, calls), false) {
        Action::Done(d) => assert_eq!(d.output, obj(vec![("error", s("token budget exceeded"))])),
        _ => panic!("expected the end of the run"),
    }
}
