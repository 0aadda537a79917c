//! Tool dispatch: a registry maps an action name to a tool capability, and a
//! tool's own failure is wrapped into an observation rather than aborting the
//! run.

use vstd::prelude::*;
use vstd::string::*;
use crate::textscan::{str_eq, views_of};

verus! {

/// A tool capability, implemented by the users of the library. Invocation is
/// fallible; nothing is assumed of the result.
pub trait Tool {
    fn invoke(&self, input: &str) -> Result<String, String>;
}

/// The requested action name matched no registered tool.
#[derive(Clone, Debug)]
pub struct UnknownToolError {
    pub name: String,
}

/// The least index `>= i` at which `name` stands in `names`, if any.
pub open spec fn lookup_from(names: Seq<Seq<char>>, name: Seq<char>, i: int) -> Option<int>
    decreases names.len() - i,
{
    if i < 0 || i >= names.len() {
        None
    } else if names[i] == name {
        Some(i)
    } else {
        lookup_from(names, name, i + 1)
    }
}

/// The least index at which `name` stands in `names`, if any.
pub open spec fn lookup_spec(names: Seq<Seq<char>>, name: Seq<char>) -> Option<int> {
    lookup_from(names, name, 0)
}

pub proof fn lemma_lookup_from_some(names: Seq<Seq<char>>, name: Seq<char>, i: int, j: int)
    requires
        0 <= i,
        lookup_from(names, name, i) == Some(j),
    ensures
        i <= j < names.len(),
        names[j] == name,
    decreases names.len() - i,
{
    if i < names.len() && names[i] != name {
        lemma_lookup_from_some(names, name, i + 1, j);
    }
}

/// The prefix of an observation that communicates a tool failure to the model.
pub open spec fn error_prefix() -> Seq<char> {
    "Error: "@
}

/// What a tool result looks like once wrapped as an observation.
pub open spec fn wrap_spec(res: Result<Seq<char>, Seq<char>>) -> Seq<char> {
    match res {
        Ok(t) => t,
        Err(m) => error_prefix() + m,
    }
}

pub open spec fn result_view(res: Result<String, String>) -> Result<Seq<char>, Seq<char>> {
    match res {
        Ok(t) => Ok(t@),
        Err(m) => Err(m@),
    }
}

/// Wrap a tool result as an observation: a success verbatim, a failure behind
/// the error prefix, so the model can react to the failed sub-task.
pub fn wrap_tool_result(res: Result<String, String>) -> (r: String)
    ensures
        r@ == wrap_spec(result_view(res)),
{
    match res {
        Ok(t) => t,
        Err(m) => {
            let mut out = String::from_str("Error: ");
            out.append(m.as_str());
            out
        },
    }
}

/// A mapping from action names to tools, looked up by exact string match.
pub struct ToolRegistry<T: Tool> {
    pub names: Vec<String>,
    pub tools: Vec<T>,
}

impl<T: Tool> ToolRegistry<T> {
    /// One tool per name, pairwise.
    pub open spec fn well_formed(&self) -> bool {
        self.names@.len() == self.tools@.len()
    }

    /// The registered action names.
    pub open spec fn names_view(&self) -> Seq<Seq<char>> {
        views_of(self.names@)
    }

    /// An empty registry.
    pub fn new() -> (r: Self)
        ensures
            r.well_formed(),
            r.names_view() =~= Seq::<Seq<char>>::empty(),
    {
        ToolRegistry { names: Vec::new(), tools: Vec::new() }
    }

    /// Register `tool` under `name`. An earlier tool of the same name keeps
    /// priority: lookup takes the first match.
    pub fn register(&mut self, name: String, tool: T)
        requires
            old(self).well_formed(),
        ensures
            final(self).well_formed(),
            final(self).names_view() =~= old(self).names_view().push(name@),
            final(self).tools@ == old(self).tools@.push(tool),
    {
        self.names.push(name);
        self.tools.push(tool);
        proof {
            assert(final(self).names_view() =~= old(self).names_view().push(name@));
        }
    }

    /// Look up the tool registered under `name`.
    fn lookup(&self, name: &str) -> (r: Option<usize>)
        ensures
            match r {
                Some(j) => lookup_spec(self.names_view(), name@) == Some(j as int) && j
                    < self.names@.len(),
                None => lookup_spec(self.names_view(), name@) is None,
            },
    {
        let n = self.names.len();
        let mut i: usize = 0;
        while i < n
            invariant
                i <= n,
                n == self.names@.len(),
                lookup_from(self.names_view(), name@, 0) == lookup_from(
                    self.names_view(),
                    name@,
                    i as int,
                ),
            decreases n - i,
        {
            if str_eq(self.names[i].as_str(), name) {
                assert(self.names_view()[i as int] == name@);
                return Some(i);
            }
            assert(self.names_view()[i as int] != name@);
            assert(lookup_from(self.names_view(), name@, i as int) == lookup_from(
                self.names_view(),
                name@,
                i + 1,
            ));
            i += 1;
        }
        None
    }

    /// Dispatch an action: look the tool up and wrap its result as an
    /// observation. Fails exactly when no tool is registered under `name`;
    /// a registered tool's own failure is an `Ok` observation that carries
    /// the error prefix.
    pub fn dispatch(&self, name: &str, input: &str) -> (r: Result<String, UnknownToolError>)
        requires
            self.well_formed(),
        ensures
            match r {
                Ok(obs) => lookup_spec(self.names_view(), name@) is Some && exists|
                    res: Result<Seq<char>, Seq<char>>,
                | obs@ == wrap_spec(res),
                Err(e) => lookup_spec(self.names_view(), name@) is None && e.name@ == name@,
            },
    {
        match self.lookup(name) {
            Some(j) => {
                proof {
                    lemma_lookup_from_some(self.names_view(), name@, 0, j as int);
                }
                let res = self.tools[j].invoke(input);
                let ghost res_v = result_view(res);
                let obs = wrap_tool_result(res);
                assert(obs@ == wrap_spec(res_v));
                Ok(obs)
            },
            None => Err(UnknownToolError { name: name.to_owned() }),
        }
    }
}

} // verus!
