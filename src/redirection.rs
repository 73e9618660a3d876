//! Redirection operators and the pipeline-wide file targets they configure.
use vstd::prelude::*;
use crate::token::token_is;

verus! {

/// One of the redirection operators of a command line.
#[derive(Debug, Clone, Copy, PartialEq, Eq, Structural)]
pub enum Redirection {
    /// `<`
    ReadIn,
    /// `>` or `1>`
    WriteOut,
    /// `>>`
    AppendOut,
    /// `2>`
    WriteErr,
    /// `2>>`
    AppendErr,
    /// `&>` or `2>&1`
    WriteOutErr,
    /// `&>>`
    AppendOutErr,
}

/// A token that names no redirection operator.
#[derive(Debug, Clone, Copy, PartialEq, Eq, Structural)]
pub struct RedirectionParseError {}

/// The operator that a token spells, matched on the whole token.
pub open spec fn redirection_of(s: Seq<char>) -> Option<Redirection> {
    if s == seq!['<'] {
        Some(Redirection::ReadIn)
    } else if s == seq!['>'] || s == seq!['1', '>'] {
        Some(Redirection::WriteOut)
    } else if s == seq!['>', '>'] {
        Some(Redirection::AppendOut)
    } else if s == seq!['2', '>'] {
        Some(Redirection::WriteErr)
    } else if s == seq!['2', '>', '>'] {
        Some(Redirection::AppendErr)
    } else if s == seq!['&', '>'] || s == seq!['2', '>', '&', '1'] {
        Some(Redirection::WriteOutErr)
    } else if s == seq!['&', '>', '>'] {
        Some(Redirection::AppendOutErr)
    } else {
        None
    }
}

pub open spec fn is_redirection_token(s: Seq<char>) -> bool {
    redirection_of(s) is Some
}

/// A file that receives output, opened either truncating or appending.
#[derive(Debug, Clone, PartialEq, Eq)]
pub struct FileTarget {
    pub path: String,
    pub append: bool,
}

/// The files that a pipeline's redirections name: where its first step reads
/// from, and where its last step's output and error go. `combined` holds when
/// the last output redirection sends both streams to `output`.
#[derive(Debug, Clone, PartialEq, Eq)]
pub struct IoTargets {
    pub input: Option<String>,
    pub output: Option<FileTarget>,
    pub error: Option<FileTarget>,
    pub combined: bool,
}

/// The model of `IoTargets`: paths as character sequences, each output
/// target with its append flag.
pub struct TargetsSpec {
    pub input: Option<Seq<char>>,
    pub output: Option<(Seq<char>, bool)>,
    pub error: Option<(Seq<char>, bool)>,
    pub combined: bool,
}

impl View for FileTarget {
    type V = (Seq<char>, bool);

    open spec fn view(&self) -> (Seq<char>, bool) {
        (self.path@, self.append)
    }
}

pub open spec fn file_target_view(t: Option<FileTarget>) -> Option<(Seq<char>, bool)> {
    match t {
        Some(f) => Some(f@),
        None => None,
    }
}

pub open spec fn path_view(p: Option<String>) -> Option<Seq<char>> {
    match p {
        Some(s) => Some(s@),
        None => None,
    }
}

impl View for IoTargets {
    type V = TargetsSpec;

    open spec fn view(&self) -> TargetsSpec {
        TargetsSpec {
            input: path_view(self.input),
            output: file_target_view(self.output),
            error: file_target_view(self.error),
            combined: self.combined,
        }
    }
}

/// No redirection: standard streams throughout.
pub open spec fn no_targets() -> TargetsSpec {
    TargetsSpec { input: None, output: None, error: None, combined: false }
}

/// The targets after applying `r` with file `target` to `t`. The last
/// redirection of each class wins; an output redirection decides whether
/// output and error are written together.
pub open spec fn configured(r: Redirection, target: Seq<char>, t: TargetsSpec) -> TargetsSpec {
    match r {
        Redirection::ReadIn => TargetsSpec { input: Some(target), ..t },
        Redirection::WriteOut => TargetsSpec { output: Some((target, false)), combined: false, ..t },
        Redirection::AppendOut => TargetsSpec { output: Some((target, true)), combined: false, ..t },
        Redirection::WriteErr => TargetsSpec { error: Some((target, false)), combined: false, ..t },
        Redirection::AppendErr => TargetsSpec { error: Some((target, true)), combined: false, ..t },
        Redirection::WriteOutErr => TargetsSpec { output: Some((target, false)), combined: true, ..t },
        Redirection::AppendOutErr => TargetsSpec { output: Some((target, true)), combined: true, ..t },
    }
}

impl IoTargets {
    pub fn new() -> (r: IoTargets)
        ensures
            r@ == no_targets(),
    {
        IoTargets { input: None, output: None, error: None, combined: false }
    }
}

impl Redirection {
    /// Reads an operator from a whole token.
    pub fn from_str(s: &str) -> (r: Result<Redirection, RedirectionParseError>)
        ensures
            match redirection_of(s@) {
                Some(d) => r == Ok::<Redirection, RedirectionParseError>(d),
                None => r is Err,
            },
    {
        proof {
            reveal_strlit("<");
            reveal_strlit(">");
            reveal_strlit("1>");
            reveal_strlit(">>");
            reveal_strlit("2>");
            reveal_strlit("2>>");
            reveal_strlit("&>");
            reveal_strlit("2>&1");
            reveal_strlit("&>>");
            assert("<"@ =~= seq!['<']);
            assert(">"@ =~= seq!['>']);
            assert("1>"@ =~= seq!['1', '>']);
            assert(">>"@ =~= seq!['>', '>']);
            assert("2>"@ =~= seq!['2', '>']);
            assert("2>>"@ =~= seq!['2', '>', '>']);
            assert("&>"@ =~= seq!['&', '>']);
            assert("2>&1"@ =~= seq!['2', '>', '&', '1']);
            assert("&>>"@ =~= seq!['&', '>', '>']);
        }
        if token_is(s, "<") {
            Ok(Redirection::ReadIn)
        } else if token_is(s, ">") || token_is(s, "1>") {
            Ok(Redirection::WriteOut)
        } else if token_is(s, ">>") {
            Ok(Redirection::AppendOut)
        } else if token_is(s, "2>") {
            Ok(Redirection::WriteErr)
        } else if token_is(s, "2>>") {
            Ok(Redirection::AppendErr)
        } else if token_is(s, "&>") || token_is(s, "2>&1") {
            Ok(Redirection::WriteOutErr)
        } else if token_is(s, "&>>") {
            Ok(Redirection::AppendOutErr)
        } else {
            Err(RedirectionParseError {})
        }
    }

    /// Whether the whole token is a redirection operator; a token that only
    /// contains `<` or `>` is not.
    pub fn is_redirection(s: &str) -> (r: bool)
        ensures
            r == is_redirection_token(s@),
    {
        Redirection::from_str(s).is_ok()
    }

    /// Records this redirection, with file `target`, in `targets`.
    pub fn configure_redirection(&self, target: String, targets: &mut IoTargets)
        ensures
            final(targets)@ == configured(*self, target@, old(targets)@),
    {
        match self {
            Redirection::ReadIn => {
                targets.input = Some(target);
            },
            Redirection::WriteOut => {
                targets.output = Some(FileTarget { path: target, append: false });
                targets.combined = false;
            },
            Redirection::AppendOut => {
                targets.output = Some(FileTarget { path: target, append: true });
                targets.combined = false;
            },
            Redirection::WriteErr => {
                targets.error = Some(FileTarget { path: target, append: false });
                targets.combined = false;
            },
            Redirection::AppendErr => {
                targets.error = Some(FileTarget { path: target, append: true });
                targets.combined = false;
            },
            Redirection::WriteOutErr => {
                targets.output = Some(FileTarget { path: target, append: false });
                targets.combined = true;
            },
            Redirection::AppendOutErr => {
                targets.output = Some(FileTarget { path: target, append: true });
                targets.combined = true;
            },
        }
    }
}

} // verus!
