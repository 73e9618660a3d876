//! Commands that the shell carries out itself instead of spawning a program.
use vstd::prelude::*;
use vstd::string::StringSliceAdditionalSpecFns;
use crate::error::ShellError;
use crate::step::{StepOutput, OutputSpec};
use crate::token::{token_is, token_view};

verus! {

/// The builtins that exist.
#[derive(Debug, Clone, Copy, PartialEq, Eq, Structural)]
pub enum BuiltinKind {
    /// `cd`: change the shell's working directory.
    Cd,
    /// `exit` or `quit`: end the shell.
    Exit,
}

/// The builtin that a command name selects, matched on the whole name.
pub open spec fn builtin_kind(name: Seq<char>) -> Option<BuiltinKind> {
    if name == seq!['c', 'd'] {
        Some(BuiltinKind::Cd)
    } else if name == seq!['e', 'x', 'i', 't'] || name == seq!['q', 'u', 'i', 't'] {
        Some(BuiltinKind::Exit)
    } else {
        None
    }
}

/// A builtin command with its arguments, roughly what a process command is
/// for an external program.
#[derive(Debug, Clone)]
pub struct Builtin {
    pub name: String,
    pub args: Vec<String>,
}

/// What a builtin asks of the shell process that runs it.
#[derive(Debug, Clone, PartialEq, Eq)]
pub enum BuiltinCall {
    /// Make `target` the working directory; with no target, the home directory.
    ChangeDir { target: Option<String> },
    /// End the shell.
    Exit,
}

/// What `cd` writes on its error stream when it cannot enter the directory.
pub const CD_FAILURE: &'static str = "cd: Directory not found\n";

/// The result that `cd` reports once the shell has tried to change directory.
pub open spec fn cd_outcome_spec(changed: bool) -> OutputSpec {
    if changed {
        OutputSpec { success: true, code: Some(0), stdout: seq![], stderr: seq![] }
    } else {
        OutputSpec { success: false, code: Some(1), stdout: seq![], stderr: CD_FAILURE.spec_bytes() }
    }
}

/// The result of `cd`: success with code 0 when the directory was entered,
/// else failure with code 1 and a message on the error stream.
pub fn cd_outcome(changed: bool) -> (r: StepOutput)
    ensures
        r@ == cd_outcome_spec(changed),
{
    if changed {
        StepOutput { success: true, code: Some(0), stdout: Vec::new(), stderr: Vec::new() }
    } else {
        let message = vstd::slice::slice_to_vec(CD_FAILURE.as_bytes());
        StepOutput { success: false, code: Some(1), stdout: Vec::new(), stderr: message }
    }
}

impl Builtin {
    /// Finds the builtin of a given name.
    fn function_map(name: &str) -> (r: Result<BuiltinKind, ShellError>)
        ensures
            match builtin_kind(name@) {
                Some(k) => r == Ok::<BuiltinKind, ShellError>(k),
                None => r == Err::<BuiltinKind, ShellError>(ShellError::UnknownBuiltin),
            },
    {
        proof {
            reveal_strlit("cd");
            reveal_strlit("exit");
            reveal_strlit("quit");
            assert("cd"@ =~= seq!['c', 'd']);
            assert("exit"@ =~= seq!['e', 'x', 'i', 't']);
            assert("quit"@ =~= seq!['q', 'u', 'i', 't']);
        }
        if token_is(name, "cd") {
            Ok(BuiltinKind::Cd)
        } else if token_is(name, "exit") || token_is(name, "quit") {
            Ok(BuiltinKind::Exit)
        } else {
            Err(ShellError::UnknownBuiltin)
        }
    }

    /// A builtin of the given name, with no arguments yet.
    pub fn new(name: &str) -> (r: Builtin)
        ensures
            r.name@ == name@,
            r.args@.len() == 0,
    {
        Builtin { name: name.to_owned(), args: Vec::new() }
    }

    /// The same builtin with one more argument at the end.
    pub fn arg(self, new_arg: &str) -> (r: Builtin)
        ensures
            r.name@ == self.name@,
            token_view(r.args@) == token_view(self.args@).push(new_arg@),
    {
        let mut b = self;
        b.args.push(new_arg.to_owned());
        proof {
            assert(token_view(b.args@) =~= token_view(self.args@).push(new_arg@));
        }
        b
    }

    /// Whether a builtin of this name exists.
    pub fn is_defined(name: &str) -> (r: bool)
        ensures
            r == (builtin_kind(name@) is Some),
    {
        Builtin::function_map(name).is_ok()
    }

    /// What the builtin asks of the shell: `cd` the directory given by its
    /// first argument (none: home), `exit` and `quit` the end of the shell.
    /// Fails on a name that no builtin has. Builtins read no input.
    pub fn run(self, _stdin: &[u8]) -> (r: Result<BuiltinCall, ShellError>)
        ensures
            match builtin_kind(self.name@) {
                None => r == Err::<BuiltinCall, ShellError>(ShellError::UnknownBuiltin),
                Some(BuiltinKind::Exit) => r == Ok::<BuiltinCall, ShellError>(BuiltinCall::Exit),
                Some(BuiltinKind::Cd) => match r {
                    Ok(BuiltinCall::ChangeDir { target }) => if self.args@.len() > 0 {
                        target matches Some(t) && t@ == self.args@[0]@
                    } else {
                        target is None
                    },
                    _ => false,
                },
            },
    {
        match Builtin::function_map(self.name.as_str()) {
            Err(e) => Err(e),
            Ok(BuiltinKind::Exit) => Ok(BuiltinCall::Exit),
            Ok(BuiltinKind::Cd) => {
                if self.args.len() > 0 {
                    Ok(BuiltinCall::ChangeDir { target: Some(self.args[0].clone()) })
                } else {
                    Ok(BuiltinCall::ChangeDir { target: None })
                }
            },
        }
    }
}

/// A command name that holds a path separator names a program by its path,
/// so it never selects a builtin, whatever builtins exist.
pub proof fn lemma_path_bypasses_builtins(name: Seq<char>, i: int)
    requires
        0 <= i < name.len(),
        name[i] == '/',
    ensures
        builtin_kind(name) is None,
{
    if name == seq!['c', 'd'] {
        assert(name[i] == seq!['c', 'd'][i]);
    }
    if name == seq!['e', 'x', 'i', 't'] {
        assert(name[i] == seq!['e', 'x', 'i', 't'][i]);
    }
    if name == seq!['q', 'u', 'i', 't'] {
        assert(name[i] == seq!['q', 'u', 'i', 't'][i]);
    }
}

} // verus!
