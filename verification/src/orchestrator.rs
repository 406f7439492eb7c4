//! The tool-calling control loop.
//!
//! The orchestrator composes a fixed preamble, a registry of tools with
//! unique names, and a hard step bound. A conversation starts from the
//! folded history with the new prompt as the current turn. Each model
//! reply then drives one transition: plain text ends the loop with that
//! text verbatim; requested tool calls are each looked up, invoked, and
//! fed back into the conversation as tool turns, up to the step bound;
//! a backend failure is classified as a model-layer error rather than
//! aborting the request. The model transport itself lives outside the
//! library: the caller carries the conversation to the backend and hands
//! each reply back in.

use vstd::prelude::*;
use vstd::string::*;
use crate::errors::{DomainError, ErrorKind, LlmKind};
use crate::history::{build_turns, fold_spec, Turn, TurnKind, TurnView};
use crate::messages::{ChatMessage, MessageView};
use crate::tools::{
    cost_output, geo_output, parse_cost_args, parse_geo_args, parse_reverser_args,
    parse_string_arg, CostDatabase, GeoCoding, TextReverser, ToolDefView, ToolDefinition,
};

verus! {

/// Which of the registered tools an entry dispatches to.
#[derive(Debug, Clone, Copy, PartialEq, Eq, Structural)]
pub enum ToolKind {
    Cost,
    Geo,
    Reverser,
}

/// One registry entry: the definition shown to the model and the tool it
/// dispatches to.
pub struct ToolEntry {
    pub def: ToolDefinition,
    pub kind: ToolKind,
}

/// The mathematical value of a registry entry.
#[verifier::ext_equal]
pub ghost struct ToolEntryView {
    pub def: ToolDefView,
    pub kind: ToolKind,
}

impl View for ToolEntry {
    type V = ToolEntryView;

    open spec fn view(&self) -> ToolEntryView {
        ToolEntryView { def: self.def@, kind: self.kind }
    }
}

impl DeepView for ToolEntry {
    type V = ToolEntryView;

    open spec fn deep_view(&self) -> ToolEntryView {
        self.view()
    }
}

/// One tool invocation requested by the model: the tool's name and the
/// argument text.
#[derive(Debug, Clone)]
pub struct ToolCall {
    pub name: String,
    pub args: String,
}

/// The mathematical value of a requested invocation.
#[verifier::ext_equal]
pub ghost struct ToolCallView {
    pub name: Seq<char>,
    pub args: Seq<char>,
}

impl View for ToolCall {
    type V = ToolCallView;

    open spec fn view(&self) -> ToolCallView {
        ToolCallView { name: self.name@, args: self.args@ }
    }
}

impl DeepView for ToolCall {
    type V = ToolCallView;

    open spec fn deep_view(&self) -> ToolCallView {
        self.view()
    }
}

/// What the model backend answered: final text, requested tool calls, or
/// a failure of the backend itself.
pub enum ModelReply {
    Text(String),
    ToolCalls(Vec<ToolCall>),
    Failure(LlmKind, String),
}

/// The conversation in flight: the turns built so far and how many tool
/// rounds have run.
pub struct LoopState {
    pub turns: Vec<Turn>,
    pub steps: u64,
}

/// What one transition of the loop decided: the final text, one more
/// round to carry to the model, or a classified failure.
pub enum StepOutcome {
    Done(String),
    Continue,
    Failed(DomainError),
}

/// No two registered tools share a name.
pub open spec fn unique_names(ts: Seq<ToolEntryView>) -> bool {
    forall|i: int, j: int| 0 <= i < j < ts.len() ==> ts[i].def.name != ts[j].def.name
}

/// The first registered tool with this name, if any.
pub open spec fn lookup_spec(ts: Seq<ToolEntryView>, name: Seq<char>) -> Option<ToolKind>
    decreases ts.len(),
{
    if ts.len() == 0 {
        None
    } else if ts[0].def.name == name {
        Some(ts[0].kind)
    } else {
        lookup_spec(ts.skip(1), name)
    }
}

/// What a tool invocation feeds back for given argument text: the tool's
/// output, or its note about arguments it cannot read.
pub open spec fn tool_result_spec(kind: ToolKind, args: Seq<char>) -> Seq<char> {
    match kind {
        ToolKind::Cost => if parse_string_arg(args, "item_name"@) is Some {
            cost_output()
        } else {
            "invalid tool arguments"@
        },
        ToolKind::Geo => if parse_string_arg(args, "address"@) is Some {
            geo_output()
        } else {
            "invalid tool arguments"@
        },
        ToolKind::Reverser => match parse_string_arg(args, "text"@) {
            Some(text) => text.reverse(),
            None => "invalid tool arguments"@,
        },
    }
}

/// What one requested call feeds back: the selected tool's result, or a
/// note that no tool has the requested name.
pub open spec fn call_result_spec(ts: Seq<ToolEntryView>, call: ToolCallView) -> Seq<char> {
    match lookup_spec(ts, call.name) {
        Some(kind) => tool_result_spec(kind, call.args),
        None => "unknown tool"@,
    }
}

/// The tool turns a round of requested calls feeds back, in request order.
pub open spec fn results_of(ts: Seq<ToolEntryView>, calls: Seq<ToolCallView>) -> Seq<TurnView> {
    Seq::new(
        calls.len(),
        |i: int| TurnView { kind: TurnKind::Tool, content: call_result_spec(ts, calls[i]) },
    )
}

/// The model-facing turns of a history, one per message.
pub open spec fn turns_of_history(h: Seq<MessageView>) -> Seq<TurnView> {
    Seq::new(h.len(), |i: int| fold_spec(h[i]))
}

/// Skipping entries that do not carry the name leaves the lookup result
/// unchanged.
proof fn lemma_lookup_skip(ts: Seq<ToolEntryView>, name: Seq<char>, i: int)
    requires
        0 <= i <= ts.len(),
        forall|j: int| 0 <= j < i ==> ts[j].def.name != name,
    ensures
        lookup_spec(ts, name) == lookup_spec(ts.skip(i), name),
    decreases i,
{
    if i == 0 {
        assert(ts.skip(0) =~= ts);
    } else {
        assert(ts[0].def.name != name);
        lemma_lookup_skip(ts.skip(1), name, i - 1);
        assert(ts.skip(1).skip(i - 1) =~= ts.skip(i));
    }
}

/// The orchestrator: one model conversation policy around a registry of
/// tools, a preamble, and a hard bound on tool rounds.
pub struct Orchestrator {
    preamble: String,
    tools: Vec<ToolEntry>,
    max_steps: u64,
}

impl Orchestrator {
    /// The fixed system preamble sent ahead of every conversation.
    pub closed spec fn spec_preamble(&self) -> Seq<char> {
        self.preamble@
    }

    /// The registered tools, in registration order.
    pub closed spec fn spec_tools(&self) -> Seq<ToolEntryView> {
        self.tools.deep_view()
    }

    /// The hard bound on tool rounds in one conversation.
    pub closed spec fn spec_max_steps(&self) -> u64 {
        self.max_steps
    }

    /// Build an orchestrator; registration of two tools under one name is
    /// rejected.
    pub fn new(preamble: &str, tools: Vec<ToolEntry>, max_steps: u64) -> (r: Result<
        Orchestrator,
        DomainError,
    >)
        ensures
            r is Ok <==> unique_names(tools.deep_view()),
            r is Ok ==> r.unwrap().spec_preamble() == preamble@ && r.unwrap().spec_tools()
                == tools.deep_view() && r.unwrap().spec_max_steps() == max_steps,
            r matches Result::Err(e) ==> e.spec_kind() == ErrorKind::Internal,
    {
        let n = tools.len();
        let mut i: usize = 0;
        while i < n
            invariant
                i <= n,
                n == tools.len(),
                forall|a: int, b: int|
                    0 <= a < b < n && a < i ==> tools.deep_view()[a].def.name
                        != tools.deep_view()[b].def.name,
            decreases n - i,
        {
            let mut j: usize = i + 1;
            while j < n
                invariant
                    i < j <= n,
                    n == tools.len(),
                    forall|b: int|
                        i < b < j ==> tools.deep_view()[i as int].def.name
                            != tools.deep_view()[b].def.name,
                decreases n - j,
            {
                if crate::store::str_eq(tools[i].def.name.as_str(), tools[j].def.name.as_str()) {
                    proof {
                        assert(tools.deep_view()[i as int].def.name == tools[i as int].def.name@);
                        assert(tools.deep_view()[j as int].def.name == tools[j as int].def.name@);
                    }
                    return Err(DomainError::internal("duplicate tool name"));
                }
                j += 1;
            }
            i += 1;
        }
        Ok(Orchestrator { preamble: preamble.to_owned(), tools, max_steps })
    }

    /// The definitions of the registered tools, for capability discovery.
    pub fn definitions(&self) -> (r: Vec<ToolDefinition>)
        ensures
            r.len() == self.spec_tools().len(),
            forall|i: int| 0 <= i < r.len() ==> r[i]@ == self.spec_tools()[i].def,
    {
        let mut out: Vec<ToolDefinition> = Vec::new();
        let n = self.tools.len();
        let mut i: usize = 0;
        while i < n
            invariant
                i <= n,
                n == self.tools.len(),
                out.len() == i,
                forall|j: int| 0 <= j < i ==> out[j]@ == self.spec_tools()[j].def,
            decreases n - i,
        {
            let d = ToolDefinition {
                name: self.tools[i].def.name.clone(),
                description: self.tools[i].def.description.clone(),
                parameters: self.tools[i].def.parameters.clone(),
            };
            out.push(d);
            i += 1;
        }
        out
    }

    /// The preamble as text, for the backend request.
    pub fn preamble(&self) -> (r: &str)
        ensures
            r@ == self.spec_preamble(),
    {
        self.preamble.as_str()
    }

    fn find_tool(&self, name: &str) -> (r: Option<ToolKind>)
        ensures
            r == lookup_spec(self.spec_tools(), name@),
    {
        let n = self.tools.len();
        let mut i: usize = 0;
        while i < n
            invariant
                i <= n,
                n == self.tools.len(),
                forall|j: int| 0 <= j < i ==> self.spec_tools()[j].def.name != name@,
            decreases n - i,
        {
            if crate::store::str_eq(self.tools[i].def.name.as_str(), name) {
                proof {
                    lemma_lookup_skip(self.spec_tools(), name@, i as int);
                    assert(self.spec_tools().skip(i as int)[0] == self.spec_tools()[i as int]);
                }
                return Some(self.tools[i].kind);
            }
            i += 1;
        }
        proof {
            lemma_lookup_skip(self.spec_tools(), name@, n as int);
            assert(self.spec_tools().skip(n as int) =~= Seq::<ToolEntryView>::empty());
        }
        None
    }

    /// Run one requested call: look the tool up by name, parse the
    /// arguments, invoke, and render what is fed back to the model.
    fn run_call(&self, call: &ToolCall) -> (r: String)
        ensures
            r@ == call_result_spec(self.spec_tools(), call@),
    {
        match self.find_tool(call.name.as_str()) {
            None => String::from_str("unknown tool"),
            Some(ToolKind::Cost) => {
                match parse_cost_args(call.args.as_str()) {
                    Some(args) => {
                        match CostDatabase.call(args) {
                            Ok(out) => out,
                            Err(_) => String::from_str("invalid tool arguments"),
                        }
                    },
                    None => String::from_str("invalid tool arguments"),
                }
            },
            Some(ToolKind::Geo) => {
                match parse_geo_args(call.args.as_str()) {
                    Some(args) => {
                        match GeoCoding.call(args) {
                            Ok(out) => out,
                            Err(_) => String::from_str("invalid tool arguments"),
                        }
                    },
                    None => String::from_str("invalid tool arguments"),
                }
            },
            Some(ToolKind::Reverser) => {
                match parse_reverser_args(call.args.as_str()) {
                    Some(args) => {
                        match TextReverser.call(args) {
                            Ok(out) => out,
                            Err(_) => String::from_str("invalid tool arguments"),
                        }
                    },
                    None => String::from_str("invalid tool arguments"),
                }
            },
        }
    }

    /// Open a conversation: the folded history in order, then the new
    /// prompt as the current user turn, never folded into the history.
    pub fn start(&self, prompt: &str, history: &Vec<ChatMessage>) -> (r: LoopState)
        ensures
            r.steps == 0,
            r.turns.deep_view() == turns_of_history(history.deep_view()).push(
                (TurnView { kind: TurnKind::User, content: prompt@ }),
            ),
    {
        let mut turns = build_turns(history);
        turns.push(Turn { kind: TurnKind::User, content: prompt.to_owned() });
        proof {
            assert(turns.deep_view() =~= turns_of_history(history.deep_view()).push(
                TurnView { kind: TurnKind::User, content: prompt@ },
            ));
        }
        LoopState { turns, steps: 0 }
    }

    /// Drive one transition on a model reply. Text ends the loop with the
    /// text verbatim. A backend failure becomes a classified model-layer
    /// error. Requested calls run one tool round: each result joins the
    /// conversation as a tool turn, unless the step bound is hit, which
    /// ends the loop with a classified failure.
    pub fn on_model_reply(&self, state: &mut LoopState, reply: ModelReply) -> (r: StepOutcome)
        ensures
            match reply {
                ModelReply::Text(text) => r == StepOutcome::Done(text) && *final(state) == *old(
                    state,
                ),
                ModelReply::Failure(kind, message) => *final(state) == *old(state) && (match r {
                    StepOutcome::Failed(e) => e.spec_kind() == ErrorKind::Llm(kind)
                        && e.spec_message() == message@,
                    _ => false,
                }),
                ModelReply::ToolCalls(calls) => if old(state).steps >= self.spec_max_steps() {
                    *final(state) == *old(state) && (match r {
                        StepOutcome::Failed(e) => e.spec_kind() == ErrorKind::Llm(
                            LlmKind::InvalidResponse,
                        ),
                        _ => false,
                    })
                } else {
                    r == StepOutcome::Continue && final(state).steps == old(state).steps + 1
                        && final(state).turns.deep_view() == old(state).turns.deep_view()
                        + results_of(self.spec_tools(), calls.deep_view())
                },
            },
    {
        match reply {
            ModelReply::Text(text) => StepOutcome::Done(text),
            ModelReply::Failure(kind, message) => {
                StepOutcome::Failed(DomainError::llm(kind, message.as_str()))
            },
            ModelReply::ToolCalls(calls) => {
                if state.steps >= self.max_steps {
                    StepOutcome::Failed(
                        DomainError::llm(LlmKind::InvalidResponse, "tool call limit exceeded"),
                    )
                } else {
                    let n = calls.len();
                    let mut i: usize = 0;
                    while i < n
                        invariant
                            i <= n,
                            n == calls.len(),
                            state.steps == old(state).steps,
                            state.turns.deep_view() == old(state).turns.deep_view() + results_of(
                                self.spec_tools(),
                                calls.deep_view().take(i as int),
                            ),
                        decreases n - i,
                    {
                        let content = self.run_call(&calls[i]);
                        state.turns.push(Turn { kind: TurnKind::Tool, content });
                        proof {
                            let ts = self.spec_tools();
                            let dv = calls.deep_view();
                            let stepv = (TurnView {
                                kind: TurnKind::Tool,
                                content: call_result_spec(ts, dv[i as int]),
                            });
                            assert(dv[i as int] == calls[i as int]@);
                            assert(results_of(ts, dv.take(i as int + 1)) =~= results_of(
                                ts,
                                dv.take(i as int),
                            ).push(stepv));
                            assert(state.turns.deep_view() =~= (old(state).turns.deep_view()
                                + results_of(ts, dv.take(i as int))).push(stepv));
                            assert((old(state).turns.deep_view() + results_of(
                                ts,
                                dv.take(i as int),
                            )).push(stepv) =~= old(state).turns.deep_view() + results_of(
                                ts,
                                dv.take(i as int + 1),
                            ));
                        }
                        i += 1;
                    }
                    proof {
                        assert(calls.deep_view().take(n as int) =~= calls.deep_view());
                    }
                    state.steps = state.steps + 1;
                    StepOutcome::Continue
                }
            },
        }
    }
}

} // verus!
