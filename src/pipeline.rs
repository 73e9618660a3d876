//! A pipeline: steps joined by pipes, with redirections that apply to the
//! whole chain, and the decisions that drive its run one step at a time.
use vstd::prelude::*;
use crate::error::ShellError;
use crate::redirection::{
    IoTargets, Redirection, TargetsSpec, configured, no_targets, redirection_of,
};
use crate::step::{OutputSpec, Step, StepOutput, StepSpec, step_of, step_result_view};
use crate::token::{token_is, token_view};

verus! {

/// How a step's results feed the next step.
#[derive(Debug, Clone, Copy, PartialEq, Eq, Structural)]
pub enum Pipe {
    /// `|`: the next step reads the standard output only.
    Std,
    /// `|&`: the next step reads the standard output, then the error output.
    Both,
}

/// The pipe operator that a token spells, matched on the whole token.
pub open spec fn pipe_of(s: Seq<char>) -> Option<Pipe> {
    if s == seq!['|'] {
        Some(Pipe::Std)
    } else if s == seq!['|', '&'] {
        Some(Pipe::Both)
    } else {
        None
    }
}

/// The model of a pipeline.
pub struct PipelineSpec {
    pub steps: Seq<StepSpec>,
    pub pipes: Seq<Pipe>,
    pub targets: TargetsSpec,
}

/// Where a left-to-right reading of the tokens stands: the steps and pipes
/// read so far, the words of the step being read, the redirections so far.
pub struct ParseState {
    pub steps: Seq<StepSpec>,
    pub pipes: Seq<Pipe>,
    pub words: Seq<Seq<char>>,
    pub targets: TargetsSpec,
}

/// The pipeline that the tokens `ts` describe, read from state `st`. A
/// redirection takes the next token as its file and belongs to no step; a
/// pipe closes the current step, which must have words. At the end the
/// words read form the last step; no tokens at all make a pipeline with no
/// steps.
pub open spec fn parse_from(ts: Seq<Seq<char>>, st: ParseState) -> Result<PipelineSpec, ShellError>
    decreases ts.len(),
{
    if ts.len() == 0 {
        if st.words.len() == 0 && st.pipes.len() == 0 {
            Ok(PipelineSpec { steps: st.steps, pipes: st.pipes, targets: st.targets })
        } else {
            match step_of(st.words) {
                Ok(s) => Ok(PipelineSpec { steps: st.steps.push(s), pipes: st.pipes, targets: st.targets }),
                Err(e) => Err(e),
            }
        }
    } else {
        match redirection_of(ts[0]) {
            Some(r) => if ts.len() < 2 {
                Err(ShellError::EmptyRedirection)
            } else {
                parse_from(
                    ts.subrange(2, ts.len() as int),
                    ParseState { targets: configured(r, ts[1], st.targets), ..st },
                )
            },
            None => match pipe_of(ts[0]) {
                Some(p) => match step_of(st.words) {
                    Ok(s) => parse_from(
                        ts.drop_first(),
                        ParseState { steps: st.steps.push(s), pipes: st.pipes.push(p), words: seq![], ..st },
                    ),
                    Err(e) => Err(e),
                },
                None => parse_from(ts.drop_first(), ParseState { words: st.words.push(ts[0]), ..st }),
            },
        }
    }
}

pub open spec fn initial_state() -> ParseState {
    ParseState { steps: seq![], pipes: seq![], words: seq![], targets: no_targets() }
}

/// The pipeline that a whole command line describes.
pub open spec fn parse_pipeline(ts: Seq<Seq<char>>) -> Result<PipelineSpec, ShellError> {
    parse_from(ts, initial_state())
}

/// A pipeline of steps joined by pipes, one pipe between each two steps,
/// with the files that its redirections name.
#[derive(Debug)]
pub struct Pipeline {
    steps: Vec<Step>,
    pipes: Vec<Pipe>,
    targets: IoTargets,
}

impl View for Pipeline {
    type V = PipelineSpec;

    closed spec fn view(&self) -> PipelineSpec {
        PipelineSpec {
            steps: self.steps@.map_values(|s: Step| s@),
            pipes: self.pipes@,
            targets: self.targets@,
        }
    }
}

impl PipelineSpec {
    /// One pipe fewer than steps, or nothing at all.
    pub open spec fn wf(self) -> bool {
        ||| self.steps.len() == self.pipes.len() + 1
        ||| (self.steps.len() == 0 && self.pipes.len() == 0)
    }
}

pub open spec fn pipeline_result_view(r: Result<Pipeline, ShellError>) -> Result<PipelineSpec, ShellError> {
    match r {
        Ok(p) => Ok(p@),
        Err(e) => Err(e),
    }
}

/// The model of `Action`.
pub enum ActionSpec {
    Run { step: nat, stdin: Seq<u8> },
    Finish { output: Seq<u8>, error: Option<Seq<u8>>, result: OutputSpec },
}

/// What the shell does next while it runs a pipeline: run the step at
/// `step` on input `stdin`; or write the last step's results, `output` to
/// the output target and `error`, where there is one, to the error target,
/// and report `result`.
#[derive(Debug)]
pub enum Action {
    Run { step: usize, stdin: Vec<u8> },
    Finish { output: Vec<u8>, error: Option<Vec<u8>>, result: StepOutput },
}

impl View for Action {
    type V = ActionSpec;

    open spec fn view(&self) -> ActionSpec {
        match self {
            Action::Run { step, stdin } => ActionSpec::Run { step: *step as nat, stdin: stdin@ },
            Action::Finish { output, error, result } => ActionSpec::Finish {
                output: output@,
                error: match error {
                    Some(e) => Some(e@),
                    None => None,
                },
                result: result@,
            },
        }
    }
}

/// The input that the step after a pipe reads: the previous step's standard
/// output, followed by its error output for `|&`.
pub open spec fn hop_input(pipe: Pipe, out: OutputSpec) -> Seq<u8> {
    match pipe {
        Pipe::Std => out.stdout,
        Pipe::Both => out.stdout + out.stderr,
    }
}

/// The writes of the last step's results: with output and error combined,
/// the error bytes then the output bytes, once, to the output target; else
/// each stream to its own target.
pub open spec fn finish_spec(out: OutputSpec, combined: bool) -> ActionSpec {
    if combined {
        ActionSpec::Finish { output: out.stderr + out.stdout, error: None, result: out }
    } else {
        ActionSpec::Finish { output: out.stdout, error: Some(out.stderr), result: out }
    }
}

/// The first action of a run whose pipeline input is `input`.
pub open spec fn start_spec(p: PipelineSpec, input: Seq<u8>) -> Result<ActionSpec, ShellError> {
    if p.steps.len() == 0 {
        Err(ShellError::NoSteps)
    } else {
        Ok(ActionSpec::Run { step: 0, stdin: input })
    }
}

/// The action after the step at `done` produced `out`.
pub open spec fn advance_spec(p: PipelineSpec, done: nat, out: OutputSpec) -> ActionSpec {
    if done + 1 < p.steps.len() {
        ActionSpec::Run { step: done + 1, stdin: hop_input(p.pipes[done as int], out) }
    } else {
        finish_spec(out, p.targets.combined)
    }
}

impl Pipeline {
    #[verifier::type_invariant]
    spec fn inv(&self) -> bool {
        self@.wf()
    }

    /// Reads a tokenized command line into a pipeline. Fails when a pipe
    /// has no step before or after it, or a redirection has no file after
    /// it. No tokens give a pipeline with no steps, which fails when it is
    /// started. Files are neither opened nor checked here.
    pub fn new(words: Vec<String>) -> (r: Result<Pipeline, ShellError>)
        ensures
            pipeline_result_view(r) == parse_pipeline(token_view(words@)),
            r matches Ok(p) ==> p@.wf(),
    {
        let ghost ts = token_view(words@);
        let n = words.len();
        let mut steps: Vec<Step> = Vec::new();
        let mut pipes: Vec<Pipe> = Vec::new();
        let mut targets = IoTargets::new();
        let mut acc: Vec<String> = Vec::new();
        let mut i: usize = 0;
        proof {
            reveal_strlit("|");
            reveal_strlit("|&");
            assert("|"@ =~= seq!['|']);
            assert("|&"@ =~= seq!['|', '&']);
            assert(ts.subrange(0, n as int) =~= ts);
            assert(token_view(acc@) =~= seq![]);
            assert(steps@.map_values(|s: Step| s@) =~= seq![]);
            assert(pipes@ =~= seq![]);
        }
        while i < n
            invariant
                n == words@.len(),
                ts == token_view(words@),
                i <= n,
                steps@.len() == pipes@.len(),
                "|"@ == seq!['|'],
                "|&"@ == seq!['|', '&'],
                parse_from(
                    ts.subrange(i as int, n as int),
                    ParseState {
                        steps: steps@.map_values(|s: Step| s@),
                        pipes: pipes@,
                        words: token_view(acc@),
                        targets: targets@,
                    },
                ) == parse_pipeline(ts),
            decreases n - i,
        {
            let ghost rest = ts.subrange(i as int, n as int);
            let ghost st = ParseState {
                steps: steps@.map_values(|s: Step| s@),
                pipes: pipes@,
                words: token_view(acc@),
                targets: targets@,
            };
            assert(rest[0] == ts[i as int]);
            let w = words[i].as_str();
            match Redirection::from_str(w) {
                Ok(r) => {
                    if i + 1 >= n {
                        return Err(ShellError::EmptyRedirection);
                    }
                    let target = words[i + 1].clone();
                    r.configure_redirection(target, &mut targets);
                    proof {
                        assert(rest[1] == ts[i + 1]);
                        assert(rest.subrange(2, rest.len() as int) =~= ts.subrange(i + 2, n as int));
                    }
                    i = i + 2;
                },
                Err(_) => {
                    let pipe = if token_is(w, "|") {
                        Some(Pipe::Std)
                    } else if token_is(w, "|&") {
                        Some(Pipe::Both)
                    } else {
                        None
                    };
                    proof {
                        assert(pipe == pipe_of(ts[i as int]));
                        assert(rest.drop_first() =~= ts.subrange(i + 1, n as int));
                    }
                    match pipe {
                        Some(p) => {
                            let ghost before = steps@;
                            match Step::new(acc) {
                                Ok(s) => {
                                    steps.push(s);
                                },
                                Err(e) => {
                                    return Err(e);
                                },
                            }
                            pipes.push(p);
                            acc = Vec::new();
                            proof {
                                assert(steps@.map_values(|s: Step| s@) =~= before.map_values(
                                    |s: Step| s@,
                                ).push(steps@[steps@.len() - 1]@));
                                assert(token_view(acc@) =~= seq![]);
                            }
                        },
                        None => {
                            let ghost before = acc@;
                            acc.push(words[i].clone());
                            proof {
                                assert(token_view(acc@) =~= token_view(before).push(ts[i as int]));
                            }
                        },
                    }
                    i = i + 1;
                },
            }
        }
        let ghost before = steps@;
        if acc.len() > 0 || pipes.len() > 0 {
            match Step::new(acc) {
                Ok(s) => {
                    steps.push(s);
                },
                Err(e) => {
                    return Err(e);
                },
            }
            proof {
                assert(steps@.map_values(|s: Step| s@) =~= before.map_values(|s: Step| s@).push(
                    steps@[steps@.len() - 1]@,
                ));
            }
        }
        proof {
            assert(ts.subrange(n as int, n as int) =~= seq![]);
        }
        Ok(Pipeline { steps, pipes, targets })
    }

    /// The number of steps.
    pub fn step_count(&self) -> (r: usize)
        ensures
            r == self@.steps.len(),
    {
        proof {
            assert(self.steps@.map_values(|s: Step| s@).len() == self.steps@.len());
        }
        self.steps.len()
    }

    /// The step at `i`, counted from the left.
    pub fn step(&self, i: usize) -> (r: &Step)
        requires
            i < self@.steps.len(),
        ensures
            r@ == self@.steps[i as int],
    {
        &self.steps[i]
    }

    /// The pipes, in order: the one at `i` joins step `i` to step `i + 1`.
    pub fn pipes(&self) -> (r: &Vec<Pipe>)
        ensures
            r@ == self@.pipes,
    {
        &self.pipes
    }

    /// The files that the redirections name.
    pub fn targets(&self) -> (r: &IoTargets)
        ensures
            r@ == self@.targets,
    {
        &self.targets
    }

    /// Starts a run whose pipeline input is `input` (empty where nothing is
    /// redirected in): the first step runs on it. A pipeline with no steps
    /// fails.
    pub fn start(&self, input: Vec<u8>) -> (r: Result<Action, ShellError>)
        ensures
            match (r, start_spec(self@, input@)) {
                (Ok(a), Ok(s)) => a@ == s,
                (Err(e), Err(f)) => e == f,
                _ => false,
            },
    {
        if self.step_count() == 0 {
            Err(ShellError::NoSteps)
        } else {
            Ok(Action::Run { step: 0, stdin: input })
        }
    }

    /// The next action once the step at `done` has produced `out`: the next
    /// step runs on what the pipe between them forwards, or, after the last
    /// step, its results are written out. Nothing of a step's output goes
    /// anywhere else: what a `|` does not forward is dropped.
    pub fn advance(&self, done: usize, out: StepOutput) -> (r: Action)
        requires
            done < self@.steps.len(),
        ensures
            r@ == advance_spec(self@, done as nat, out@),
    {
        proof {
            use_type_invariant(self);
        }
        let n = self.step_count();
        if done + 1 < n {
            let mut stdin = out.stdout;
            match self.pipes[done] {
                Pipe::Std => {},
                Pipe::Both => {
                    let mut err = out.stderr;
                    stdin.append(&mut err);
                },
            }
            Action::Run { step: done + 1, stdin }
        } else {
            finish(out, self.targets.combined)
        }
    }
}

/// The writes of the last step's results; see `finish_spec`.
fn finish(out: StepOutput, combined: bool) -> (r: Action)
    ensures
        r@ == finish_spec(out@, combined),
{
    if combined {
        let mut output = vstd::slice::slice_to_vec(out.stderr.as_slice());
        let mut rest = vstd::slice::slice_to_vec(out.stdout.as_slice());
        output.append(&mut rest);
        Action::Finish { output, error: None, result: out }
    } else {
        let output = vstd::slice::slice_to_vec(out.stdout.as_slice());
        let error = vstd::slice::slice_to_vec(out.stderr.as_slice());
        Action::Finish { output, error: Some(error), result: out }
    }
}

} // verus!
