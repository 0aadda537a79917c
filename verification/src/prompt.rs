//! Prompt construction: a fixed ReAct instruction template with a single
//! `{}` placeholder that a question is substituted into.

use vstd::prelude::*;
use vstd::string::*;
use crate::textscan::{find_from, find_from_str, lemma_find_from_exact};

verus! {

/// The placeholder that `set_question` substitutes for.
pub open spec fn placeholder() -> Seq<char> {
    "{}"@
}

/// Everything of the default template before the placeholder.
pub open spec fn default_template_prefix() -> Seq<char> {
    "Answer the following questions as best you can.

                    Use the following format:

                    Question: the input question you must answer
                    Thought: you should always think about what to do
                    Action: the action to take, should be one of [search, calculator]
                    Action Input: the input to the action
                    Observation: the result of the action
                    ... (this Thought/Action/Action Input/Observation can repeat N times)
                    Thought: I now know the final answer
                    Final Answer: the final answer to the original input question

                    Begin!

                    Question: "@
}

/// Everything of the default template after the placeholder.
pub open spec fn default_template_suffix() -> Seq<char> {
    "\n                    Thought:"@
}

/// The default ReAct instruction template.
pub open spec fn default_template() -> Seq<char> {
    default_template_prefix() + placeholder() + default_template_suffix()
}

/// `template` with the first occurrence of the placeholder replaced by `q`,
/// or `template` unchanged when no placeholder occurs.
pub open spec fn subst_spec(template: Seq<char>, q: Seq<char>) -> Seq<char> {
    match find_from(template, placeholder(), 0) {
        Some(k) => template.subrange(0, k) + q + template.subrange(
            k + placeholder().len(),
            template.len() as int,
        ),
        None => template,
    }
}

/// `template` with the first placeholder replaced by `q`.
pub fn render_question(template: &str, q: &str) -> (r: String)
    ensures
        r@ == subst_spec(template@, q@),
{
    let n = template.unicode_len();
    let ph = "{}";
    let plen = ph.unicode_len();
    match find_from_str(template, ph, 0) {
        Some(k) => {
            let mut out = template.substring_char(0, k).to_owned();
            out.append(q);
            out.append(template.substring_char(k + plen, n));
            proof {
                assert(out@ =~= subst_spec(template@, q@));
            }
            out
        },
        None => template.to_owned(),
    }
}

/// The prompt state of one agent run: a template, the question asked, and the
/// rendered text that is sent to the completion endpoint verbatim.
pub struct AgentPrompt {
    pub template: String,
    pub question: String,
    pub rendered: String,
}

impl AgentPrompt {
    /// A prompt seeded with the default ReAct template and an empty question.
    pub fn new() -> (r: AgentPrompt)
        ensures
            r.template@ == default_template(),
            r.question@ == Seq::<char>::empty(),
            r.rendered@ == default_template(),
    {
        let mut template = String::from_str(
            "Answer the following questions as best you can.

                    Use the following format:

                    Question: the input question you must answer
                    Thought: you should always think about what to do
                    Action: the action to take, should be one of [search, calculator]
                    Action Input: the input to the action
                    Observation: the result of the action
                    ... (this Thought/Action/Action Input/Observation can repeat N times)
                    Thought: I now know the final answer
                    Final Answer: the final answer to the original input question

                    Begin!

                    Question: ",
        );
        template.append("{}");
        template.append("\n                    Thought:");
        let rendered = template.clone();
        AgentPrompt { template, question: String::new(), rendered }
    }

    /// Store `q` and re-render: the rendered prompt becomes the template with
    /// its first placeholder replaced by `q`. The question is opaque text; it
    /// is not scanned for placeholders of its own. Re-rendering always starts
    /// from the stored template, so a later call replaces the earlier
    /// question rather than leaving it behind.
    pub fn set_question(&mut self, question: String)
        ensures
            final(self).template == old(self).template,
            final(self).question == question,
            final(self).rendered@ == subst_spec(old(self).template@, question@),
    {
        self.rendered = render_question(self.template.as_str(), question.as_str());
        self.question = question;
    }

    /// Replace the template wholesale, bypassing the default ReAct scaffold.
    /// The replacement is also used verbatim as the rendered prompt until the
    /// next `set_question` re-renders.
    pub fn set_prompt(&mut self, prompt: String)
        ensures
            final(self).template == prompt,
            final(self).rendered@ == prompt@,
            final(self).question == old(self).question,
    {
        self.rendered = prompt.clone();
        self.template = prompt;
    }
}

/// Law: substituting a question into a template that consists of a prefix
/// without any placeholder, one placeholder, and a suffix yields exactly
/// prefix + question + suffix; in particular the rendered prompt ends with
/// the question followed by the template's trailer.
pub proof fn lemma_subst_shape(pre: Seq<char>, suf: Seq<char>, q: Seq<char>)
    requires
        forall|k: int| 0 <= k < pre.len() ==> pre[k] != '{',
    ensures
        subst_spec(pre + placeholder() + suf, q) == pre + q + suf,
{
    let t = pre + placeholder() + suf;
    reveal_strlit("{}");
    assert(placeholder().len() == 2);
    assert(t[pre.len() as int] == '{');
    assert(t[pre.len() as int + 1] == '}');
    assert(t.subrange(pre.len() as int, pre.len() as int + 2) =~= placeholder());
    assert(crate::textscan::occurs_at(t, placeholder(), pre.len() as int));
    assert forall|k: int| 0 <= k < pre.len() implies !crate::textscan::occurs_at(
        t,
        placeholder(),
        k,
    ) by {
        if crate::textscan::occurs_at(t, placeholder(), k) {
            assert(t.subrange(k, k + 2)[0] == t[k]);
            assert(t[k] == pre[k]);
        }
    }
    lemma_find_from_exact(t, placeholder(), 0, pre.len() as int);
    assert(t.subrange(0, pre.len() as int) =~= pre);
    assert(t.subrange(pre.len() as int + 2, t.len() as int) =~= suf);
    assert(subst_spec(t, q) =~= pre + q + suf);
}

/// Law: rendering the default template with any question yields the template
/// prefix, the question, and the trailer (which ends in "Thought:"), with
/// nothing else; so the rendered prompt ends in the question followed by the
/// trailer, whatever the question holds.
pub proof fn lemma_default_render(q: Seq<char>)
    ensures
        subst_spec(default_template(), q) == default_template_prefix() + q
            + default_template_suffix(),
{
    reveal_strlit(
        "Answer the following questions as best you can.

                    Use the following format:

                    Question: the input question you must answer
                    Thought: you should always think about what to do
                    Action: the action to take, should be one of [search, calculator]
                    Action Input: the input to the action
                    Observation: the result of the action
                    ... (this Thought/Action/Action Input/Observation can repeat N times)
                    Thought: I now know the final answer
                    Final Answer: the final answer to the original input question

                    Begin!

                    Question: ",
    );
    assert(forall|k: int|
        0 <= k < default_template_prefix().len() ==> default_template_prefix()[k] != '{');
    lemma_subst_shape(default_template_prefix(), default_template_suffix(), q);
}

/// The state of an `AgentPrompt` as (template, question, rendered), and what
/// `set_question` does to it.
pub open spec fn set_question_model(
    state: (Seq<char>, Seq<char>, Seq<char>),
    q: Seq<char>,
) -> (Seq<char>, Seq<char>, Seq<char>) {
    (state.0, q, subst_spec(state.0, q))
}

/// Law: setting a question twice leaves no residue of the first question:
/// because `set_question` re-renders from the unchanged template, the state
/// after setting q1 and then q2 is exactly the state after setting q2 alone.
pub proof fn lemma_set_question_no_residue(
    state: (Seq<char>, Seq<char>, Seq<char>),
    q1: Seq<char>,
    q2: Seq<char>,
)
    ensures
        set_question_model(set_question_model(state, q1), q2) == set_question_model(state, q2),
{
}

} // verus!
