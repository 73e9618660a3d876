//! One runnable unit of a pipeline: an external program or a builtin.
use vstd::prelude::*;
use crate::builtin::{Builtin, builtin_kind, lemma_path_bypasses_builtins};
use crate::error::ShellError;
use crate::redirection::{Redirection, is_redirection_token};
use crate::token::token_view;

verus! {

/// What running a step produced: whether it succeeded, its exit code (none
/// when a signal ended it), and everything it wrote on its two streams.
#[derive(Debug, Clone, PartialEq, Eq)]
pub struct StepOutput {
    pub success: bool,
    pub code: Option<i32>,
    pub stdout: Vec<u8>,
    pub stderr: Vec<u8>,
}

/// The model of `StepOutput`.
pub struct OutputSpec {
    pub success: bool,
    pub code: Option<i32>,
    pub stdout: Seq<u8>,
    pub stderr: Seq<u8>,
}

impl View for StepOutput {
    type V = OutputSpec;

    open spec fn view(&self) -> OutputSpec {
        OutputSpec { success: self.success, code: self.code, stdout: self.stdout@, stderr: self.stderr@ }
    }
}

/// An external program to spawn, with its arguments.
#[derive(Debug, Clone)]
pub struct ExternalCommand {
    pub program: String,
    pub args: Vec<String>,
}

/// A step: an external program or a builtin.
#[derive(Debug, Clone)]
pub enum Step {
    Command(ExternalCommand),
    Builtin(Builtin),
}

/// The model of a step: its kind, its name and its arguments.
pub enum StepSpec {
    Command { program: Seq<char>, args: Seq<Seq<char>> },
    Builtin { name: Seq<char>, args: Seq<Seq<char>> },
}

impl View for Step {
    type V = StepSpec;

    open spec fn view(&self) -> StepSpec {
        match self {
            Step::Command(c) => StepSpec::Command { program: c.program@, args: token_view(c.args@) },
            Step::Builtin(b) => StepSpec::Builtin { name: b.name@, args: token_view(b.args@) },
        }
    }
}

/// The arguments among `ts`: all of them up to the first redirection operator.
pub open spec fn leading_args(ts: Seq<Seq<char>>) -> Seq<Seq<char>>
    decreases ts.len(),
{
    if ts.len() == 0 {
        seq![]
    } else if is_redirection_token(ts[0]) {
        seq![]
    } else {
        seq![ts[0]].add(leading_args(ts.drop_first()))
    }
}

/// The step that the words `ts` make: a builtin where the first word names
/// one, else an external program; the arguments stop at the first
/// redirection operator.
pub open spec fn step_of(ts: Seq<Seq<char>>) -> Result<StepSpec, ShellError> {
    if ts.len() == 0 {
        Err(ShellError::EmptyStep)
    } else if builtin_kind(ts[0]) is Some {
        Ok(StepSpec::Builtin { name: ts[0], args: leading_args(ts.drop_first()) })
    } else {
        Ok(StepSpec::Command { program: ts[0], args: leading_args(ts.drop_first()) })
    }
}

pub open spec fn step_result_view(r: Result<Step, ShellError>) -> Result<StepSpec, ShellError> {
    match r {
        Ok(s) => Ok(s@),
        Err(e) => Err(e),
    }
}

/// When no word before `k` is a redirection operator and the word at `k`
/// (if any) is one, the arguments are the first `k` words.
pub proof fn lemma_leading_args_prefix(ts: Seq<Seq<char>>, k: int)
    requires
        0 <= k <= ts.len(),
        forall|j: int| 0 <= j < k ==> !is_redirection_token(#[trigger] ts[j]),
        k < ts.len() ==> is_redirection_token(ts[k]),
    ensures
        leading_args(ts) == ts.subrange(0, k),
    decreases ts.len(),
{
    if ts.len() == 0 {
        assert(ts.subrange(0, k) =~= seq![]);
    } else if k == 0 {
        assert(ts.subrange(0, k) =~= seq![]);
    } else {
        let rest = ts.drop_first();
        assert forall|j: int| 0 <= j < k - 1 implies !is_redirection_token(#[trigger] rest[j]) by {
            assert(rest[j] == ts[j + 1]);
        }
        lemma_leading_args_prefix(rest, k - 1);
        assert(ts.subrange(0, k) =~= seq![ts[0]].add(rest.subrange(0, k - 1)));
    }
}

impl Step {
    /// Builds a step from its words. A builtin of the same name wins over
    /// an external program, unless the program is named by a path. Arguments
    /// stop at the first redirection operator. Fails on no words.
    pub fn new(step_words: Vec<String>) -> (r: Result<Step, ShellError>)
        ensures
            step_result_view(r) == step_of(token_view(step_words@)),
            step_words@.len() > 0 && step_words@[0]@.contains('/') ==> r matches Ok(Step::Command(_)),
    {
        let ghost ts = token_view(step_words@);
        let n = step_words.len();
        if n == 0 {
            return Err(ShellError::EmptyStep);
        }
        let mut args: Vec<String> = Vec::new();
        let mut i: usize = 1;
        let mut at_redirection = false;
        while i < n && !at_redirection
            invariant
                n == step_words@.len(),
                ts == token_view(step_words@),
                1 <= i <= n,
                token_view(args@) == ts.subrange(1, i as int),
                forall|j: int| 1 <= j < i ==> !is_redirection_token(#[trigger] ts[j]),
                at_redirection ==> i < n && is_redirection_token(ts[i as int]),
            decreases n - i + (if at_redirection { 0int } else { 1int }),
        {
            if Redirection::is_redirection(step_words[i].as_str()) {
                at_redirection = true;
            } else {
                let w = step_words[i].clone();
                let ghost before = args@;
                args.push(w);
                proof {
                    assert(token_view(args@) =~= token_view(before).push(ts[i as int]));
                    assert(ts.subrange(1, i + 1) =~= ts.subrange(1, i as int).push(ts[i as int]));
                }
                i = i + 1;
            }
        }
        proof {
            let rest = ts.drop_first();
            assert forall|j: int| 0 <= j < i - 1 implies !is_redirection_token(#[trigger] rest[j]) by {
                assert(rest[j] == ts[j + 1]);
            }
            lemma_leading_args_prefix(rest, i - 1);
            assert(rest.subrange(0, i - 1) =~= ts.subrange(1, i as int));
        }
        proof {
            if step_words@[0]@.contains('/') {
                let j = choose|j: int| 0 <= j < step_words@[0]@.len() && step_words@[0]@[j] == '/';
                lemma_path_bypasses_builtins(step_words@[0]@, j);
            }
        }
        let first = step_words[0].clone();
        if Builtin::is_defined(first.as_str()) {
            Ok(Step::Builtin(Builtin { name: first, args }))
        } else {
            Ok(Step::Command(ExternalCommand { program: first, args }))
        }
    }
}

} // verus!
