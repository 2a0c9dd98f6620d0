//! What running an action takes: the process to start for each kind, and
//! the aggregate result of a list of actions.
use vstd::prelude::*;

use crate::definition::{ActionParameters, ActionType};

verus! {

#[derive(Clone, Debug, PartialEq, Eq)]
pub enum ExecutionError {
    /// The action's kind needs a parameter that is absent.
    MissingParameter(ActionType),
    /// The process could not be started.
    SpawnFailed(String),
    /// The platform offers no way to do this kind of action.
    UnsupportedPlatformAction(ActionType),
}

/// A process to start and not wait for.
#[derive(Clone, Debug, PartialEq, Eq)]
pub struct Launch {
    pub program: String,
    pub args: Vec<String>,
}

/// What one action amounts to.
#[derive(Clone, Debug, PartialEq, Eq)]
pub enum ActionStep {
    Launch(Launch),
    /// A kind that starts no process.
    Acknowledge(ActionType),
}

/// The abstract value of an [`ActionStep`].
pub enum PlannedStep {
    Launch { program: Seq<char>, args: Seq<Seq<char>> },
    Acknowledge(ActionType),
}

pub open spec fn step_view(r: Result<ActionStep, ExecutionError>) -> Result<PlannedStep, ExecutionError> {
    match r {
        Ok(ActionStep::Launch(l)) => Ok(
            PlannedStep::Launch { program: l.program@, args: l.args@.map_values(|a: String| a@) },
        ),
        Ok(ActionStep::Acknowledge(k)) => Ok(PlannedStep::Acknowledge(k)),
        Err(e) => Err(e),
    }
}

pub open spec fn home_view(home: Option<String>) -> Option<Seq<char>> {
    match home {
        Some(h) => Some(h@),
        None => None,
    }
}

/// `rest` appended to the directory `base`, as a Unix path: an absolute
/// `rest` stands alone, and one separator stands between the two.
pub open spec fn joined_path(base: Seq<char>, rest: Seq<char>) -> Seq<char> {
    if rest.len() > 0 && rest[0] == '/' {
        rest
    } else if base.len() == 0 || base.last() == '/' {
        base + rest
    } else {
        base + seq!['/'] + rest
    }
}

/// `path` with a leading `~` (alone, or before `/`) standing for `home`.
pub open spec fn expanded_path(path: Seq<char>, home: Option<Seq<char>>) -> Seq<char> {
    match home {
        Some(h) => if path.len() == 1 && path[0] == '~' {
            h
        } else if path.len() >= 2 && path[0] == '~' && path[1] == '/' {
            joined_path(h, path.skip(2))
        } else {
            path
        },
        None => path,
    }
}

/// The step that an action of kind `kind` with `params` amounts to.
pub open spec fn planned_step(kind: ActionType, params: ActionParameters, home: Option<Seq<char>>) -> Result<PlannedStep, ExecutionError> {
    match kind {
        ActionType::OpenFolder | ActionType::OpenFile => match params.path {
            Some(p) => Ok(
                PlannedStep::Launch {
                    program: "xdg-open"@,
                    args: seq![expanded_path(p@, home)],
                },
            ),
            None => Err(ExecutionError::MissingParameter(kind)),
        },
        ActionType::OpenApplication => match params.app_name {
            Some(a) => Ok(PlannedStep::Launch { program: a@, args: Seq::empty() }),
            None => Err(ExecutionError::MissingParameter(kind)),
        },
        ActionType::RunShellScript => match params.script {
            Some(s) => Ok(PlannedStep::Launch { program: "sh"@, args: seq!["-c"@, s@] }),
            None => Err(ExecutionError::MissingParameter(kind)),
        },
        _ => Ok(PlannedStep::Acknowledge(kind)),
    }
}

/// The first error among `outcomes`, if any.
pub open spec fn first_error(outcomes: Seq<Result<(), ExecutionError>>) -> Result<(), ExecutionError>
    decreases outcomes.len(),
{
    if outcomes.len() == 0 {
        Ok(())
    } else {
        match outcomes[0] {
            Err(e) => Err(e),
            Ok(()) => first_error(outcomes.skip(1)),
        }
    }
}

/// Relies on `dirs::home_dir`: the current user's home directory, if one is
/// known. It depends on the environment, so nothing is promised of it.
#[verifier::external_body]
pub(crate) fn home_directory() -> (r: Option<String>) {
    match dirs::home_dir() {
        Some(p) => Some(p.to_string_lossy().into_owned()),
        None => None,
    }
}

/// Joins `rest` onto the directory `base`.
pub fn join_path(base: &str, rest: &str) -> (r: String)
    ensures
        r@ == joined_path(base@, rest@),
{
    let rn = rest.unicode_len();
    if rn > 0 && rest.get_char(0) == '/' {
        return String::from_str(rest);
    }
    let bn = base.unicode_len();
    let mut out = String::from_str(base);
    if bn > 0 && base.get_char(bn - 1) != '/' {
        proof {
            reveal_strlit("/");
            assert("/"@ =~= seq!['/']);
        }
        out.append("/");
    }
    out.append(rest);
    out
}

/// Expands a leading `~` in `path` to `home`.
pub fn expand_home(path: &str, home: &Option<String>) -> (r: String)
    ensures
        r@ == expanded_path(path@, home_view(*home)),
{
    match home {
        None => String::from_str(path),
        Some(h) => {
            let n = path.unicode_len();
            if n == 1 && path.get_char(0) == '~' {
                h.clone()
            } else if n >= 2 && path.get_char(0) == '~' && path.get_char(1) == '/' {
                let rest = path.substring_char(2, n);
                assert(rest@ == path@.skip(2));
                join_path(h.as_str(), rest)
            } else {
                String::from_str(path)
            }
        },
    }
}

fn launch(program: &str, args: Vec<String>) -> (r: Result<ActionStep, ExecutionError>)
    ensures
        step_view(r) == Ok::<PlannedStep, ExecutionError>(
            PlannedStep::Launch { program: program@, args: args@.map_values(|a: String| a@) },
        ),
{
    Ok(ActionStep::Launch(Launch { program: String::from_str(program), args }))
}

/// The step that one action amounts to, with `home` standing for `~`.
pub fn plan_action(kind: ActionType, params: &ActionParameters, home: &Option<String>) -> (r: Result<ActionStep, ExecutionError>)
    ensures
        step_view(r) == planned_step(kind, *params, home_view(*home)),
{
    match kind {
        ActionType::OpenFolder | ActionType::OpenFile => match &params.path {
            Some(p) => {
                let target = expand_home(p.as_str(), home);
                let args = vec![target];
                proof {
                    assert(args@.map_values(|a: String| a@) =~= seq![target@]);
                }
                launch("xdg-open", args)
            },
            None => Err(ExecutionError::MissingParameter(kind)),
        },
        ActionType::OpenApplication => match &params.app_name {
            Some(a) => {
                let args: Vec<String> = Vec::new();
                proof {
                    assert(args@.map_values(|a: String| a@) =~= Seq::<Seq<char>>::empty());
                }
                launch(a.as_str(), args)
            },
            None => Err(ExecutionError::MissingParameter(kind)),
        },
        ActionType::RunShellScript => match &params.script {
            Some(s) => {
                let flag = String::from_str("-c");
                let args = vec![flag, s.clone()];
                proof {
                    assert(args@.map_values(|a: String| a@) =~= seq!["-c"@, s@]);
                }
                launch("sh", args)
            },
            None => Err(ExecutionError::MissingParameter(kind)),
        },
        _ => Ok(ActionStep::Acknowledge(kind)),
    }
}

/// The aggregate result of running a list of actions: the first failure,
/// or success when every action succeeded.
pub fn first_failure(outcomes: Vec<Result<(), ExecutionError>>) -> (r: Result<(), ExecutionError>)
    ensures
        r == first_error(outcomes@),
{
    let ghost all = outcomes@;
    let mut rest = outcomes;
    let ghost mut done: int = 0;
    proof {
        assert(all.skip(0) =~= all);
    }
    while rest.len() > 0
        invariant
            0 <= done <= all.len(),
            all == outcomes@,
            rest@ == all.skip(done),
            first_error(all) == first_error(all.skip(done)),
        decreases rest.len(),
    {
        let o = rest.remove(0);
        proof {
            assert(o == all.skip(done)[0]);
            assert(all.skip(done).skip(1) =~= all.skip(done + 1));
        }
        match o {
            Err(e) => {
                assert(all.skip(done).len() > 0);
                assert(first_error(all.skip(done)) == Err::<(), ExecutionError>(e));
                return Err(e);
            },
            Ok(()) => {},
        }
        proof {
            done = done + 1;
        }
    }
    Ok(())
}

} // verus!
