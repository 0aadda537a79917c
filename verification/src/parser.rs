//! Parsing a completion into a typed step, and rendering a step back into a
//! transcript segment.
//!
//! The first occurrence of each marker in document order is authoritative;
//! repeated markers later in the same completion are ignored.

use vstd::prelude::*;
use vstd::string::*;
use crate::textscan::{
    find_from, find_from_str, occurs_at, trim_spec, trim_str, lemma_find_from_exact,
    lemma_find_from_some, lemma_trim_idempotent, lemma_trim_ws_wrap,
};

verus! {

pub open spec fn final_marker() -> Seq<char> {
    "Final Answer:"@
}

pub open spec fn action_marker() -> Seq<char> {
    "Action:"@
}

pub open spec fn input_marker() -> Seq<char> {
    "Action Input:"@
}

pub open spec fn thought_marker() -> Seq<char> {
    "Thought:"@
}

pub open spec fn observation_marker() -> Seq<char> {
    "Observation:"@
}

pub open spec fn newline() -> Seq<char> {
    "\n"@
}

/// The mathematical value of a parsed step.
pub enum StepModel {
    Continue { thought: Seq<char>, action: Seq<char>, action_input: Seq<char> },
    Final { thought: Seq<char>, final_answer: Seq<char> },
}

/// One parsed step of the model's output: either a tool directive or the
/// terminal answer.
#[derive(Clone, Debug)]
pub enum Step {
    Continue { thought: String, action: String, action_input: String },
    Final { thought: String, final_answer: String },
}

impl View for Step {
    type V = StepModel;

    open spec fn view(&self) -> StepModel {
        match self {
            Step::Continue { thought, action, action_input } => StepModel::Continue {
                thought: thought@,
                action: action@,
                action_input: action_input@,
            },
            Step::Final { thought, final_answer } => StepModel::Final {
                thought: thought@,
                final_answer: final_answer@,
            },
        }
    }
}

/// Neither a final answer nor a well-formed action pair could be located.
/// Recoverable: the loop re-prompts with a corrective observation.
#[derive(Clone, Debug)]
pub struct ParseError {
    pub raw_text: String,
}

/// Where the line that starts at `from` ends: the next newline, or the end of
/// the text.
pub open spec fn line_end(s: Seq<char>, from: int) -> int {
    match find_from(s, newline(), from) {
        Some(k) => k,
        None => s.len() as int,
    }
}

/// Where an action input that starts at `from` ends: the next observation
/// marker, or the end of the text.
pub open spec fn input_end(s: Seq<char>, from: int) -> int {
    match find_from(s, observation_marker(), from) {
        Some(k) => k,
        None => s.len() as int,
    }
}

/// The trimmed thought segment preceding position `limit`: the text between
/// the first thought marker and the next newline (clipped at `limit`), or
/// empty when no thought marker precedes `limit`.
pub open spec fn thought_before(s: Seq<char>, limit: int) -> Seq<char> {
    match find_from(s, thought_marker(), 0) {
        Some(t) => {
            let start = t + thought_marker().len();
            if start <= limit {
                let e0 = line_end(s, start);
                let e = if e0 > limit {
                    limit
                } else {
                    e0
                };
                trim_spec(s.subrange(start, e))
            } else {
                Seq::empty()
            }
        },
        None => Seq::empty(),
    }
}

/// What `parse` returns on `s`: a final step when the final-answer marker
/// occurs, else a continue step when an action marker is followed by an
/// action-input marker, else nothing.
pub open spec fn parse_spec(s: Seq<char>) -> Option<StepModel> {
    match find_from(s, final_marker(), 0) {
        Some(f) => Some(
            StepModel::Final {
                thought: thought_before(s, f),
                final_answer: trim_spec(s.subrange(f + final_marker().len(), s.len() as int)),
            },
        ),
        None => match find_from(s, action_marker(), 0) {
            Some(a) => {
                let name_start = a + action_marker().len();
                match find_from(s, input_marker(), name_start) {
                    Some(b) => {
                        let input_start = b + input_marker().len();
                        Some(
                            StepModel::Continue {
                                thought: thought_before(s, a),
                                action: trim_spec(s.subrange(name_start, line_end(s, name_start))),
                                action_input: trim_spec(
                                    s.subrange(input_start, input_end(s, input_start)),
                                ),
                            },
                        )
                    },
                    None => None,
                }
            },
            None => None,
        },
    }
}

/// The trimmed thought segment preceding position `limit`.
fn thought_before_str(text: &str, limit: usize, n: usize) -> (r: String)
    requires
        limit <= n,
        n == text@.len(),
    ensures
        r@ == thought_before(text@, limit as int),
{
    let tm = "Thought:";
    let tlen = tm.unicode_len();
    match find_from_str(text, tm, 0) {
        Some(t) => {
            if t + tlen <= limit {
                let start = t + tlen;
                let e0 = match find_from_str(text, "\n", start) {
                    Some(k) => k,
                    None => n,
                };
                let e = if e0 > limit {
                    limit
                } else {
                    e0
                };
                proof {
                    if find_from(text@, newline(), start as int) is Some {
                        lemma_find_from_some(
                            text@,
                            newline(),
                            start as int,
                            line_end(text@, start as int),
                        );
                    }
                }
                trim_str(text.substring_char(start, e))
            } else {
                String::new()
            }
        },
        None => String::new(),
    }
}

/// Parse one completion into a step. The result is exactly `parse_spec` of
/// the text: `Ok` if and only if a step can be located, and `Err` carries the
/// raw text back for corrective re-prompting.
pub fn parse(text: &str) -> (r: Result<Step, ParseError>)
    ensures
        match r {
            Ok(step) => parse_spec(text@) == Some(step@),
            Err(e) => parse_spec(text@) is None && e.raw_text@ == text@,
        },
{
    let n = text.unicode_len();
    let fm = "Final Answer:";
    let flen = fm.unicode_len();
    match find_from_str(text, fm, 0) {
        Some(f) => {
            let final_answer = trim_str(text.substring_char(f + flen, n));
            let thought = thought_before_str(text, f, n);
            Ok(Step::Final { thought, final_answer })
        },
        None => {
            let am = "Action:";
            let alen = am.unicode_len();
            let im = "Action Input:";
            let ilen = im.unicode_len();
            match find_from_str(text, am, 0) {
                Some(a) => {
                    let name_start = a + alen;
                    match find_from_str(text, im, name_start) {
                        Some(b) => {
                            let input_start = b + ilen;
                            let name_e = match find_from_str(text, "\n", name_start) {
                                Some(k) => k,
                                None => n,
                            };
                            proof {
                                if find_from(text@, newline(), name_start as int) is Some {
                                    lemma_find_from_some(
                                        text@,
                                        newline(),
                                        name_start as int,
                                        line_end(text@, name_start as int),
                                    );
                                }
                            }
                            let action = trim_str(text.substring_char(name_start, name_e));
                            let input_e = match find_from_str(text, "Observation:", input_start) {
                                Some(k) => k,
                                None => n,
                            };
                            proof {
                                if find_from(text@, observation_marker(), input_start as int)
                                    is Some {
                                    lemma_find_from_some(
                                        text@,
                                        observation_marker(),
                                        input_start as int,
                                        input_end(text@, input_start as int),
                                    );
                                }
                            }
                            let action_input = trim_str(text.substring_char(input_start, input_e));
                            let thought = thought_before_str(text, a, n);
                            Ok(Step::Continue { thought, action, action_input })
                        },
                        None => Err(ParseError { raw_text: text.to_owned() }),
                    }
                },
                None => Err(ParseError { raw_text: text.to_owned() }),
            }
        },
    }
}

/// Law: every field of a parsed step is already whitespace-trimmed, so
/// trimming leading or trailing whitespace of a segment never changes the
/// parsed structured value: re-trimming any field gives the field back.
pub proof fn lemma_parse_fields_trimmed(s: Seq<char>, step: StepModel)
    requires
        parse_spec(s) == Some(step),
    ensures
        match step {
            StepModel::Continue { thought, action, action_input } => {
                &&& trim_spec(thought) == thought
                &&& trim_spec(action) == action
                &&& trim_spec(action_input) == action_input
            },
            StepModel::Final { thought, final_answer } => {
                &&& trim_spec(thought) == thought
                &&& trim_spec(final_answer) == final_answer
            },
        },
{
    lemma_thought_before_trimmed(s, 0);
    assert(trim_spec(Seq::<char>::empty()) =~= Seq::<char>::empty());
    match find_from(s, final_marker(), 0) {
        Some(f) => {
            lemma_thought_before_trimmed(s, f);
            lemma_trim_idempotent(s.subrange(f + final_marker().len(), s.len() as int));
        },
        None => {
            match find_from(s, action_marker(), 0) {
                Some(a) => {
                    lemma_thought_before_trimmed(s, a);
                    let name_start = a + action_marker().len();
                    lemma_trim_idempotent(s.subrange(name_start, line_end(s, name_start)));
                    match find_from(s, input_marker(), name_start) {
                        Some(b) => {
                            let input_start = b + input_marker().len();
                            lemma_trim_idempotent(
                                s.subrange(input_start, input_end(s, input_start)),
                            );
                        },
                        None => {},
                    }
                },
                None => {},
            }
        },
    }
}

/// The thought segment is itself trim-fixed.
proof fn lemma_thought_before_trimmed(s: Seq<char>, limit: int)
    ensures
        trim_spec(thought_before(s, limit)) == thought_before(s, limit),
{
    assert(trim_spec(Seq::<char>::empty()) =~= Seq::<char>::empty());
    match find_from(s, thought_marker(), 0) {
        Some(t) => {
            let start = t + thought_marker().len();
            if start <= limit {
                let e0 = line_end(s, start);
                let e = if e0 > limit {
                    limit
                } else {
                    e0
                };
                lemma_trim_idempotent(s.subrange(start, e));
            }
        },
        None => {},
    }
}

pub open spec fn thought_prefix() -> Seq<char> {
    "Thought: "@
}

pub open spec fn action_prefix() -> Seq<char> {
    "\nAction: "@
}

pub open spec fn input_prefix() -> Seq<char> {
    "\nAction Input: "@
}

pub open spec fn observation_prefix() -> Seq<char> {
    "\nObservation: "@
}

/// The transcript segment for one continue step and its observation.
pub open spec fn render_continue_spec(
    thought: Seq<char>,
    action: Seq<char>,
    input: Seq<char>,
    observation: Seq<char>,
) -> Seq<char> {
    thought_prefix() + thought + action_prefix() + action + input_prefix() + input
        + observation_prefix() + observation
}

/// Render one continue step and its observation as a transcript segment in
/// the Thought/Action/Action Input/Observation format.
pub fn render_continue(thought: &str, action: &str, input: &str, observation: &str) -> (r: String)
    ensures
        r@ == render_continue_spec(thought@, action@, input@, observation@),
{
    let mut out = String::from_str("Thought: ");
    out.append(thought);
    out.append("\nAction: ");
    out.append(action);
    out.append("\nAction Input: ");
    out.append(input);
    out.append("\nObservation: ");
    out.append(observation);
    proof {
        assert(out@ =~= render_continue_spec(thought@, action@, input@, observation@));
    }
    out
}

/// No colon and no newline anywhere in `s`.
pub open spec fn plain_text(s: Seq<char>) -> bool {
    forall|k: int| 0 <= k < s.len() ==> s[k] != ':' && s[k] != '\n'
}

/// In a rendered segment over plain fields, every colon and every newline is
/// one of the template's own.
proof fn lemma_render_char(t: Seq<char>, a: Seq<char>, i: Seq<char>, o: Seq<char>, k: int)
    requires
        plain_text(t),
        plain_text(a),
        plain_text(i),
        plain_text(o),
        0 <= k < render_continue_spec(t, a, i, o).len(),
    ensures
        render_continue_spec(t, a, i, o)[k] == ':' ==> k == 7 || k == 16 + t.len() || k == 31
            + t.len() + a.len() || k == 45 + t.len() + a.len() + i.len(),
        render_continue_spec(t, a, i, o)[k] == '\n' ==> k == 9 + t.len() || k == 18 + t.len()
            + a.len() || k == 33 + t.len() + a.len() + i.len(),
{
    reveal_strlit("Thought: ");
    reveal_strlit("\nAction: ");
    reveal_strlit("\nAction Input: ");
    reveal_strlit("\nObservation: ");
    let tp = "Thought: "@;
    let ap = "\nAction: "@;
    let ip = "\nAction Input: "@;
    let op = "\nObservation: "@;
    let r = render_continue_spec(t, a, i, o);
    let s2 = 9 + t.len() as int;
    let s3 = s2 + 9 + a.len() as int;
    let s4 = s3 + 15 + i.len() as int;
    assert(r.len() == s4 + 14 + o.len());
    if k < 9 {
        assert(r[k] == tp[k]);
    } else if k < s2 {
        assert(r[k] == t[k - 9]);
    } else if k < s2 + 9 {
        assert(r[k] == ap[k - s2]);
    } else if k < s3 {
        assert(r[k] == a[k - s2 - 9]);
    } else if k < s3 + 15 {
        assert(r[k] == ip[k - s3]);
    } else if k < s4 {
        assert(r[k] == i[k - s3 - 15]);
    } else if k < s4 + 14 {
        assert(r[k] == op[k - s4]);
    } else {
        assert(r[k] == o[k - s4 - 14]);
    }
}

/// Law: a rendered Action/Action Input/Observation transcript segment parses
/// back to an equivalent continue step: the action name and the action input
/// come back exactly, and the thought too. The fields must be plain text
/// (no colon, no newline — a colon could form a marker of its own) and, since
/// parsing trims each segment, trim-fixed.
pub proof fn lemma_render_parse_round_trip(t: Seq<char>, a: Seq<char>, i: Seq<char>, o: Seq<char>)
    requires
        plain_text(t),
        plain_text(a),
        plain_text(i),
        plain_text(o),
        trim_spec(t) == t,
        trim_spec(a) == a,
        trim_spec(i) == i,
    ensures
        parse_spec(render_continue_spec(t, a, i, o)) == Some(
            StepModel::Continue { thought: t, action: a, action_input: i },
        ),
{
    reveal_strlit("Thought: ");
    reveal_strlit("\nAction: ");
    reveal_strlit("\nAction Input: ");
    reveal_strlit("\nObservation: ");
    reveal_strlit("Final Answer:");
    reveal_strlit("Action:");
    reveal_strlit("Action Input:");
    reveal_strlit("Thought:");
    reveal_strlit("Observation:");
    reveal_strlit("\n");
    let tp = "Thought: "@;
    let ap = "\nAction: "@;
    let ip = "\nAction Input: "@;
    let op = "\nObservation: "@;
    let r = render_continue_spec(t, a, i, o);
    let s2 = 9 + t.len() as int;
    let s3 = s2 + 9 + a.len() as int;
    let s4 = s3 + 15 + i.len() as int;
    let n = s4 + 14 + o.len() as int;
    assert(r.len() == n);
    assert(final_marker().len() == 13);
    assert(action_marker().len() == 7);
    assert(input_marker().len() == 13);
    assert(thought_marker().len() == 8);
    assert(observation_marker().len() == 12);
    assert(newline().len() == 1);

    // the final-answer marker occurs nowhere
    if find_from(r, final_marker(), 0) is Some {
        let j = find_from(r, final_marker(), 0).unwrap();
        lemma_find_from_some(r, final_marker(), 0, j);
        assert(r.subrange(j, j + 13) == final_marker());
        assert(r[j + 12] == ':') by {
            assert(r.subrange(j, j + 13)[12] == r[j + 12]);
        }
        lemma_render_char(t, a, i, o, j + 12);
        if j + 12 == 7 {
            assert(false);
        } else if j + 12 == s2 + 7 {
            assert(r[j + 5] == ap[0]);
            assert(r.subrange(j, j + 13)[5] == r[j + 5]);
            assert(false);
        } else if j + 12 == s3 + 13 {
            assert(r[j] == ip[1]);
            assert(r.subrange(j, j + 13)[0] == r[j]);
            assert(false);
        } else {
            assert(j + 12 == s4 + 12);
            assert(r[j] == op[0]);
            assert(r.subrange(j, j + 13)[0] == r[j]);
            assert(false);
        }
    }

    // the action marker is first found at s2 + 1
    assert(occurs_at(r, action_marker(), s2 + 1)) by {
        assert forall|q: int| 0 <= q < 7 implies r.subrange(s2 + 1, s2 + 8)[q] == action_marker()[q] by {
            assert(r.subrange(s2 + 1, s2 + 8)[q] == r[s2 + 1 + q]);
            assert(r[s2 + 1 + q] == ap[1 + q]);
        }
        assert(r.subrange(s2 + 1, s2 + 8) =~= action_marker());
    }
    assert forall|q: int| 0 <= q < s2 + 1 implies !occurs_at(r, action_marker(), q) by {
        if occurs_at(r, action_marker(), q) {
            assert(r.subrange(q, q + 7)[6] == r[q + 6]);
            assert(r[q + 6] == ':');
            lemma_render_char(t, a, i, o, q + 6);
            assert(q + 6 == 7);
            assert(r.subrange(q, q + 7)[0] == r[q]);
            assert(r[1] == tp[1]);
        }
    }
    lemma_find_from_exact(r, action_marker(), 0, s2 + 1);
    let name_start = s2 + 8;

    // the line after the action marker ends at s3
    assert(occurs_at(r, newline(), s3)) by {
        assert(r[s3] == ip[0]);
        assert(r.subrange(s3, s3 + 1) =~= newline());
    }
    assert forall|q: int| name_start <= q < s3 implies !occurs_at(r, newline(), q) by {
        if occurs_at(r, newline(), q) {
            assert(r.subrange(q, q + 1)[0] == r[q]);
            assert(r[q] == '\n');
            lemma_render_char(t, a, i, o, q);
        }
    }
    assert(find_from(r, newline(), name_start) == Some(s3)) by {
        lemma_find_from_exact(r, newline(), name_start, s3);
    }
    assert(line_end(r, name_start) == s3);

    // the input marker is first found from name_start at s3 + 1
    assert(occurs_at(r, input_marker(), s3 + 1)) by {
        assert forall|q: int| 0 <= q < 13 implies r.subrange(s3 + 1, s3 + 14)[q] == input_marker()[q] by {
            assert(r.subrange(s3 + 1, s3 + 14)[q] == r[s3 + 1 + q]);
            assert(r[s3 + 1 + q] == ip[1 + q]);
        }
        assert(r.subrange(s3 + 1, s3 + 14) =~= input_marker());
    }
    assert forall|q: int| name_start <= q < s3 + 1 implies !occurs_at(r, input_marker(), q) by {
        if occurs_at(r, input_marker(), q) {
            assert(r.subrange(q, q + 13)[12] == r[q + 12]);
            assert(r[q + 12] == ':');
            lemma_render_char(t, a, i, o, q + 12);
        }
    }
    assert(find_from(r, input_marker(), name_start) == Some(s3 + 1)) by {
        lemma_find_from_exact(r, input_marker(), name_start, s3 + 1);
    }
    let input_start = s3 + 14;

    // the input runs to the observation marker at s4 + 1
    assert(occurs_at(r, observation_marker(), s4 + 1)) by {
        assert forall|q: int| 0 <= q < 12 implies r.subrange(s4 + 1, s4 + 13)[q]
            == observation_marker()[q] by {
            assert(r.subrange(s4 + 1, s4 + 13)[q] == r[s4 + 1 + q]);
            assert(r[s4 + 1 + q] == op[1 + q]);
        }
        assert(r.subrange(s4 + 1, s4 + 13) =~= observation_marker());
    }
    assert forall|q: int| input_start <= q < s4 + 1 implies !occurs_at(
        r,
        observation_marker(),
        q,
    ) by {
        if occurs_at(r, observation_marker(), q) {
            assert(r.subrange(q, q + 12)[11] == r[q + 11]);
            assert(r[q + 11] == ':');
            lemma_render_char(t, a, i, o, q + 11);
        }
    }
    assert(find_from(r, observation_marker(), input_start) == Some(s4 + 1)) by {
        lemma_find_from_exact(r, observation_marker(), input_start, s4 + 1);
    }
    assert(input_end(r, input_start) == s4 + 1);

    // the thought marker is first found at 0, and its line ends at s2
    assert(occurs_at(r, thought_marker(), 0)) by {
        assert forall|q: int| 0 <= q < 8 implies r.subrange(0, 8)[q] == thought_marker()[q] by {
            assert(r.subrange(0, 8)[q] == r[q]);
            assert(r[q] == tp[q]);
        }
        assert(r.subrange(0, 8) =~= thought_marker());
    }
    assert(find_from(r, thought_marker(), 0) == Some(0int)) by {
        lemma_find_from_exact(r, thought_marker(), 0, 0);
    }
    assert(occurs_at(r, newline(), s2)) by {
        assert(r[s2] == ap[0]);
        assert(r.subrange(s2, s2 + 1) =~= newline());
    }
    assert forall|q: int| 8 <= q < s2 implies !occurs_at(r, newline(), q) by {
        if occurs_at(r, newline(), q) {
            assert(r.subrange(q, q + 1)[0] == r[q]);
            assert(r[q] == '\n');
            lemma_render_char(t, a, i, o, q);
        }
    }
    assert(find_from(r, newline(), 8) == Some(s2)) by {
        lemma_find_from_exact(r, newline(), 8, s2);
    }
    assert(line_end(r, 8) == s2);

    // the three trimmed segments give the fields back
    let sp = seq![' '];
    let nl = seq!['\n'];
    assert(thought_before(r, s2 + 1) == t) by {
        assert(r.subrange(8, s2) =~= sp + t + Seq::<char>::empty()) by {
            assert forall|q: int| 0 <= q < s2 - 8 implies #[trigger] r.subrange(8, s2)[q] == (sp
                + t + Seq::<char>::empty())[q] by {
                if q == 0 {
                    assert(r[8] == tp[8]);
                } else {
                    assert(r[8 + q] == t[q - 1]);
                }
            }
        }
        lemma_trim_ws_wrap(sp, t, Seq::<char>::empty());
    }
    assert(trim_spec(r.subrange(name_start, s3)) == a) by {
        assert(r.subrange(name_start, s3) =~= sp + a + Seq::<char>::empty()) by {
            assert forall|q: int| 0 <= q < s3 - name_start implies #[trigger] r.subrange(
                name_start,
                s3,
            )[q] == (sp + a + Seq::<char>::empty())[q] by {
                if q == 0 {
                    assert(r[name_start] == ap[8]);
                } else {
                    assert(r[name_start + q] == a[q - 1]);
                }
            }
        }
        lemma_trim_ws_wrap(sp, a, Seq::<char>::empty());
    }
    assert(trim_spec(r.subrange(input_start, s4 + 1)) == i) by {
        assert(r.subrange(input_start, s4 + 1) =~= sp + i + nl) by {
            assert forall|q: int| 0 <= q < s4 + 1 - input_start implies #[trigger] r.subrange(
                input_start,
                s4 + 1,
            )[q] == (sp + i + nl)[q] by {
                if q == 0 {
                    assert(r[input_start] == ip[14]);
                } else if input_start + q < s4 {
                    assert(r[input_start + q] == i[q - 1]);
                } else {
                    assert(r[input_start + q] == op[0]);
                }
            }
        }
        lemma_trim_ws_wrap(sp, i, nl);
    }
    assert(parse_spec(r) == Some(StepModel::Continue { thought: t, action: a, action_input: i }));
}

} // verus!
