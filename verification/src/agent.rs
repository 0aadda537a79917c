//! The reason/act control loop: it owns the transcript of one run, feeds each
//! completion through the parser, dispatches tool actions, re-injects
//! observations, and terminates on a final answer or on a bounded limit.
//!
//! The completion call itself is a suspension point that the embedding
//! program performs: it takes `next_prompt`, calls the endpoint, and hands
//! the outcome back through `on_completion` or `on_upstream_failure`.

use vstd::prelude::*;
use vstd::string::*;
use crate::client::UpstreamError;
use crate::parser::{
    parse, parse_spec, render_continue, render_continue_spec, newline, Step, StepModel,
};
use crate::prompt::{subst_spec, default_template, AgentPrompt};
use crate::textscan::views_of;
use crate::tools::{lookup_spec, Tool, ToolRegistry};

verus! {

/// The bounds of one run: tool-dispatch cycles, corrective re-prompts after
/// unparsable output, and transport retries.
#[derive(Clone, Copy, Debug)]
pub struct Limits {
    pub max_iterations: u64,
    pub max_parse_retries: u64,
    pub max_transport_retries: u64,
}

/// Why a run failed. Every failure carries enough context to debug offline;
/// the caller never receives a partial success silently.
#[derive(Clone, Debug)]
pub enum AgentError {
    /// Transport or API retries exhausted, or a decode failure.
    Upstream { error: UpstreamError },
    /// Corrective re-prompting exhausted; carries the last raw completion.
    UnparsableOutput { raw_text: String },
    /// The model never emitted a final answer within the iteration bound.
    IterationLimitExceeded,
    /// An external cancellation signal was honoured.
    Cancelled,
}

/// Where a run stands: still exchanging turns, terminated with an answer, or
/// terminated with an error.
#[derive(Clone, Debug)]
pub enum LoopStatus {
    Running,
    Done { thought: String, final_answer: String },
    Failed { error: AgentError },
}

/// The transcript segments joined to the base prompt, each on a new line.
pub open spec fn joined(segs: Seq<Seq<char>>) -> Seq<char>
    decreases segs.len(),
{
    if segs.len() == 0 {
        Seq::empty()
    } else {
        joined(segs.drop_last()) + newline() + segs.last()
    }
}

pub open spec fn prompt_with_transcript(base: Seq<char>, segs: Seq<Seq<char>>) -> Seq<char> {
    base + joined(segs)
}

/// The observation appended when the requested action matches no tool, so
/// that the model can recover instead of the run aborting.
pub open spec fn unknown_tool_observation(name: Seq<char>) -> Seq<char> {
    "Error: no tool is registered under the name "@ + name
}

fn unknown_tool_observation_str(name: &str) -> (r: String)
    ensures
        r@ == unknown_tool_observation(name@),
{
    let mut out = String::from_str("Error: no tool is registered under the name ");
    out.append(name);
    out
}

/// The synthetic observation appended after unparsable output, instructing
/// the model to follow the required format.
pub open spec fn correction_observation() -> Seq<char> {
    "Observation: the last reply could not be parsed; reply with a Thought: line, then an Action: line and an Action Input: line, or a Final Answer: line."@
}

fn correction_observation_str() -> (r: String)
    ensures
        r@ == correction_observation(),
{
    String::from_str(
        "Observation: the last reply could not be parsed; reply with a Thought: line, then an Action: line and an Action Input: line, or a Final Answer: line.",
    )
}

/// `seg` is the rendered transcript segment of the given continue step, with
/// some observation.
pub open spec fn segment_for(
    seg: Seq<char>,
    thought: Seq<char>,
    action: Seq<char>,
    input: Seq<char>,
) -> bool {
    exists|obs: Seq<char>| seg == render_continue_spec(thought, action, input, obs)
}

/// One agent run: the rendered base prompt, the accumulated transcript, the
/// bounded counters, and the current status.
pub struct AgentLoop<T: Tool> {
    pub registry: ToolRegistry<T>,
    pub limits: Limits,
    pub base_prompt: String,
    pub transcript: Vec<String>,
    pub iterations: u64,
    pub parse_failures: u64,
    pub transport_failures: u64,
    pub status: LoopStatus,
}

impl<T: Tool> AgentLoop<T> {
    /// The run's invariant: the registry is consistent and every counter
    /// stays within its bound.
    pub open spec fn well_formed(&self) -> bool {
        &&& self.registry.well_formed()
        &&& self.iterations <= self.limits.max_iterations
        &&& self.parse_failures <= self.limits.max_parse_retries
        &&& self.transport_failures <= self.limits.max_transport_retries
    }

    /// Start a run: render the default template with the question embedded,
    /// with an empty transcript and all counters at zero.
    pub fn new(question: String, registry: ToolRegistry<T>, limits: Limits) -> (r: AgentLoop<T>)
        requires
            registry.well_formed(),
        ensures
            r.well_formed(),
            r.registry == registry,
            r.limits == limits,
            r.base_prompt@ == subst_spec(default_template(), question@),
            r.transcript@.len() == 0,
            r.iterations == 0,
            r.parse_failures == 0,
            r.transport_failures == 0,
            r.status is Running,
    {
        let mut prompt = AgentPrompt::new();
        prompt.set_question(question);
        AgentLoop {
            registry,
            limits,
            base_prompt: prompt.rendered,
            transcript: Vec::new(),
            iterations: 0,
            parse_failures: 0,
            transport_failures: 0,
            status: LoopStatus::Running,
        }
    }

    /// The text of the next completion request: the base prompt followed by
    /// every transcript segment so far, each on a new line.
    pub fn next_prompt(&self) -> (r: String)
        ensures
            r@ == prompt_with_transcript(self.base_prompt@, views_of(self.transcript@)),
    {
        let mut out = self.base_prompt.clone();
        proof {
            assert(out@ =~= prompt_with_transcript(
                self.base_prompt@,
                views_of(self.transcript@).subrange(0, 0),
            ));
        }
        let n = self.transcript.len();
        let mut i: usize = 0;
        while i < n
            invariant
                i <= n,
                n == self.transcript@.len(),
                out@ == prompt_with_transcript(
                    self.base_prompt@,
                    views_of(self.transcript@).subrange(0, i as int),
                ),
            decreases n - i,
        {
            out.append("\n");
            out.append(self.transcript[i].as_str());
            proof {
                let vs = views_of(self.transcript@);
                assert(vs.subrange(0, i + 1).drop_last() =~= vs.subrange(0, i as int));
                assert(vs.subrange(0, i + 1).last() == vs[i as int]);
                assert(out@ =~= prompt_with_transcript(self.base_prompt@, vs.subrange(0, i + 1)));
            }
            i += 1;
        }
        proof {
            assert(views_of(self.transcript@).subrange(0, n as int) =~= views_of(
                self.transcript@,
            ));
        }
        out
    }

    /// Consume one completion. A final step terminates the run with its
    /// answer. A continue step within the iteration bound dispatches the tool
    /// and appends the rendered Thought/Action/Action Input/Observation
    /// segment — with the unknown-tool observation when the name matches no
    /// tool — and counts one iteration; beyond the bound the run fails with
    /// `IterationLimitExceeded` and nothing is dispatched. Unparsable output
    /// appends a corrective observation up to the retry bound, then fails
    /// with `UnparsableOutput`.
    pub fn on_completion(&mut self, text: &str)
        requires
            old(self).well_formed(),
            old(self).status is Running,
        ensures
            final(self).well_formed(),
            final(self).registry == old(self).registry,
            final(self).limits == old(self).limits,
            final(self).base_prompt == old(self).base_prompt,
            final(self).transport_failures == old(self).transport_failures,
            parse_spec(text@) is Some ==> final(self).parse_failures == old(self).parse_failures,
            parse_spec(text@) matches Some(StepModel::Final { thought, final_answer }) ==> {
                &&& final(self).iterations == old(self).iterations
                &&& final(self).transcript@ == old(self).transcript@
                &&& final(self).status matches LoopStatus::Done { thought: th, final_answer: fa }
                    && th@ == thought && fa@ == final_answer
            },
            parse_spec(text@) matches Some(StepModel::Continue { thought, action, action_input })
                ==> old(self).iterations < old(self).limits.max_iterations ==> {
                &&& final(self).iterations == old(self).iterations + 1
                &&& final(self).status is Running
                &&& final(self).transcript@.len() == old(self).transcript@.len() + 1
                &&& views_of(final(self).transcript@).drop_last() == views_of(
                    old(self).transcript@,
                )
                &&& lookup_spec(old(self).registry.names_view(), action) is Some ==> segment_for(
                    views_of(final(self).transcript@).last(),
                    thought,
                    action,
                    action_input,
                )
                &&& lookup_spec(old(self).registry.names_view(), action) is None ==> views_of(
                    final(self).transcript@,
                ).last() == render_continue_spec(
                    thought,
                    action,
                    action_input,
                    unknown_tool_observation(action),
                )
            },
            parse_spec(text@) matches Some(StepModel::Continue { .. }) && old(self).iterations
                >= old(self).limits.max_iterations ==> {
                &&& final(self).iterations == old(self).iterations
                &&& final(self).transcript@ == old(self).transcript@
                &&& final(self).status == (LoopStatus::Failed {
                    error: AgentError::IterationLimitExceeded,
                })
            },
            parse_spec(text@) is None ==> final(self).iterations == old(self).iterations,
            parse_spec(text@) is None && old(self).parse_failures < old(
                self,
            ).limits.max_parse_retries ==> {
                &&& final(self).parse_failures == old(self).parse_failures + 1
                &&& final(self).status is Running
                &&& views_of(final(self).transcript@) == views_of(old(self).transcript@).push(
                    correction_observation(),
                )
            },
            parse_spec(text@) is None && old(self).parse_failures >= old(
                self,
            ).limits.max_parse_retries ==> {
                &&& final(self).parse_failures == old(self).parse_failures
                &&& final(self).transcript@ == old(self).transcript@
                &&& final(self).status matches LoopStatus::Failed {
                    error: AgentError::UnparsableOutput { raw_text },
                } && raw_text@ == text@
            },
    {
        match parse(text) {
            Ok(step) => match step {
                Step::Final { thought, final_answer } => {
                    self.status = LoopStatus::Done { thought, final_answer };
                },
                Step::Continue { thought, action, action_input } => {
                    if self.iterations < self.limits.max_iterations {
                        let obs = match self.registry.dispatch(
                            action.as_str(),
                            action_input.as_str(),
                        ) {
                            Ok(o) => o,
                            Err(_) => unknown_tool_observation_str(action.as_str()),
                        };
                        let seg = render_continue(
                            thought.as_str(),
                            action.as_str(),
                            action_input.as_str(),
                            obs.as_str(),
                        );
                        let ghost seg_view = seg@;
                        let ghost obs_view = obs@;
                        let ghost old_views = views_of(self.transcript@);
                        self.transcript.push(seg);
                        self.iterations = self.iterations + 1;
                        proof {
                            let vs = views_of(self.transcript@);
                            assert(vs.drop_last() =~= old_views);
                            assert(vs.last() == seg_view);
                            assert(segment_for(vs.last(), thought@, action@, action_input@)) by {
                                assert(vs.last() == render_continue_spec(
                                    thought@,
                                    action@,
                                    action_input@,
                                    obs_view,
                                ));
                            }
                        }
                    } else {
                        self.status = LoopStatus::Failed {
                            error: AgentError::IterationLimitExceeded,
                        };
                    }
                },
            },
            Err(e) => {
                if self.parse_failures < self.limits.max_parse_retries {
                    self.parse_failures = self.parse_failures + 1;
                    let ghost old_views = views_of(self.transcript@);
                    self.transcript.push(correction_observation_str());
                    proof {
                        assert(views_of(self.transcript@) =~= old_views.push(
                            correction_observation(),
                        ));
                    }
                } else {
                    self.status = LoopStatus::Failed {
                        error: AgentError::UnparsableOutput { raw_text: e.raw_text },
                    };
                }
            },
        }
    }

    /// Consume one failed completion call. A retryable failure within the
    /// retry bound counts one attempt and reports that the caller should try
    /// again; a decode failure, or exhaustion of the bound, terminates the
    /// run with the underlying error.
    pub fn on_upstream_failure(&mut self, error: UpstreamError) -> (retry: bool)
        requires
            old(self).well_formed(),
            old(self).status is Running,
        ensures
            final(self).well_formed(),
            final(self).registry == old(self).registry,
            final(self).limits == old(self).limits,
            final(self).base_prompt == old(self).base_prompt,
            final(self).transcript@ == old(self).transcript@,
            final(self).iterations == old(self).iterations,
            final(self).parse_failures == old(self).parse_failures,
            if error.is_retryable() && old(self).transport_failures < old(
                self,
            ).limits.max_transport_retries {
                &&& retry
                &&& final(self).transport_failures == old(self).transport_failures + 1
                &&& final(self).status is Running
            } else {
                &&& !retry
                &&& final(self).transport_failures == old(self).transport_failures
                &&& final(self).status == (LoopStatus::Failed {
                    error: AgentError::Upstream { error },
                })
            },
    {
        let retryable = match &error {
            UpstreamError::Decode { .. } => false,
            _ => true,
        };
        if retryable && self.transport_failures < self.limits.max_transport_retries {
            self.transport_failures = self.transport_failures + 1;
            true
        } else {
            self.status = LoopStatus::Failed { error: AgentError::Upstream { error } };
            false
        }
    }

    /// Honour an external cancellation signal: the run fails with
    /// `Cancelled` and nothing else changes.
    pub fn cancel(&mut self)
        requires
            old(self).well_formed(),
            old(self).status is Running,
        ensures
            final(self).well_formed(),
            final(self).registry == old(self).registry,
            final(self).limits == old(self).limits,
            final(self).base_prompt == old(self).base_prompt,
            final(self).transcript@ == old(self).transcript@,
            final(self).iterations == old(self).iterations,
            final(self).parse_failures == old(self).parse_failures,
            final(self).transport_failures == old(self).transport_failures,
            final(self).status == (LoopStatus::Failed { error: AgentError::Cancelled }),
    {
        self.status = LoopStatus::Failed { error: AgentError::Cancelled };
    }
}

/// Law: a run never performs more tool dispatches than `max_iterations`: the
/// dispatch counter respects its bound in every reachable state, and
/// `on_completion` dispatches only below the bound, failing with
/// `IterationLimitExceeded` once it is reached.
pub proof fn lemma_iterations_bounded<T: Tool>(agent: AgentLoop<T>)
    requires
        agent.well_formed(),
    ensures
        agent.iterations <= agent.limits.max_iterations,
{
}

} // verus!
