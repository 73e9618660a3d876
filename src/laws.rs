//! Properties of the engine that relate its parts: what a command line
//! reads into, and what a run hands from step to step and writes out.
use vstd::prelude::*;
use crate::builtin::builtin_kind;
use crate::error::ShellError;
use crate::pipeline::{
    ActionSpec, ParseState, Pipe, PipelineSpec, advance_spec, initial_state, parse_from,
    parse_pipeline, pipe_of, start_spec,
};
use crate::redirection::{Redirection, TargetsSpec, configured, is_redirection_token, no_targets, redirection_of};
use crate::step::{OutputSpec, StepSpec, leading_args, lemma_leading_args_prefix, step_of};

verus! {

/// Words that are neither a pipe nor a redirection operator.
pub open spec fn plain_words(ts: Seq<Seq<char>>) -> bool {
    forall|j: int| 0 <= j < ts.len() ==> !is_redirection_token(#[trigger] ts[j]) && pipe_of(ts[j]) is None
}

/// The step that plain words make: every word after the first is an argument.
pub open spec fn plain_step(ts: Seq<Seq<char>>) -> StepSpec {
    if builtin_kind(ts[0]) is Some {
        StepSpec::Builtin { name: ts[0], args: ts.drop_first() }
    } else {
        StepSpec::Command { program: ts[0], args: ts.drop_first() }
    }
}

/// Plain words are added to the step being read.
proof fn lemma_plain_words_join_step(ts: Seq<Seq<char>>, rest: Seq<Seq<char>>, st: ParseState)
    requires
        plain_words(ts),
    ensures
        parse_from(ts + rest, st) == parse_from(rest, ParseState { words: st.words + ts, ..st }),
    decreases ts.len(),
{
    if ts.len() == 0 {
        assert(ts + rest =~= rest);
        assert(st.words + ts =~= st.words);
    } else {
        let all = ts + rest;
        assert(all[0] == ts[0]);
        assert(all.drop_first() =~= ts.drop_first() + rest);
        let next = ParseState { words: st.words.push(ts[0]), ..st };
        lemma_plain_words_join_step(ts.drop_first(), rest, next);
        assert(next.words + ts.drop_first() =~= st.words + ts);
    }
}

/// Plain words make the step with all of them as its words.
proof fn lemma_plain_step(ts: Seq<Seq<char>>)
    requires
        ts.len() > 0,
        plain_words(ts),
    ensures
        step_of(ts) == Ok::<StepSpec, ShellError>(plain_step(ts)),
{
    let rest = ts.drop_first();
    assert forall|j: int| 0 <= j < rest.len() implies !is_redirection_token(#[trigger] rest[j]) by {
        assert(rest[j] == ts[j + 1]);
    }
    lemma_leading_args_prefix(rest, rest.len() as int);
    assert(rest.subrange(0, rest.len() as int) =~= rest);
}

/// A command line of plain words followed by one redirection reads into a
/// single step of all the words, with that redirection's targets.
pub proof fn lemma_single_redirection(ts: Seq<Seq<char>>, op: Seq<char>, file: Seq<char>)
    requires
        ts.len() > 0,
        plain_words(ts),
        redirection_of(op) is Some,
    ensures
        parse_pipeline(ts + seq![op, file]) == Ok::<PipelineSpec, ShellError>(PipelineSpec {
            steps: seq![plain_step(ts)],
            pipes: seq![],
            targets: configured(redirection_of(op)->0, file, no_targets()),
        }),
{
    let rest = seq![op, file];
    lemma_plain_words_join_step(ts, rest, initial_state());
    lemma_plain_step(ts);
    let st = ParseState { words: initial_state().words + ts, ..initial_state() };
    assert(st.words =~= ts);
    assert(rest[0] == op && rest[1] == file);
    assert(rest.subrange(2, 2) =~= seq![]);
    let r = redirection_of(op)->0;
    let after = ParseState { targets: configured(r, file, st.targets), ..st };
    assert(parse_from(rest, st) == parse_from(rest.subrange(2, 2), after));
    assert(seq![plain_step(ts)] =~= st.steps.push(plain_step(ts)));
    assert(parse_from(seq![], after) == Ok::<PipelineSpec, ShellError>(PipelineSpec {
        steps: seq![plain_step(ts)],
        pipes: seq![],
        targets: configured(r, file, no_targets()),
    }));
}

/// A command line with one step, no pipe and no redirection: the step of
/// its words runs on empty input, and exactly what it wrote on its output
/// and error streams is written to the standard output and error.
pub proof fn lemma_single_step(ts: Seq<Seq<char>>, out: OutputSpec)
    requires
        ts.len() > 0,
        plain_words(ts),
    ensures
        parse_pipeline(ts) == Ok::<PipelineSpec, ShellError>(PipelineSpec {
            steps: seq![plain_step(ts)],
            pipes: seq![],
            targets: no_targets(),
        }),
        start_spec(parse_pipeline(ts)->Ok_0, seq![]) == Ok::<ActionSpec, ShellError>(ActionSpec::Run {
            step: 0,
            stdin: seq![],
        }),
        advance_spec(parse_pipeline(ts)->Ok_0, 0, out) == (ActionSpec::Finish {
            output: out.stdout,
            error: Some(out.stderr),
            result: out,
        }),
{
    lemma_plain_words_join_step(ts, seq![], initial_state());
    lemma_plain_step(ts);
    assert(ts + seq![] =~= ts);
    assert(initial_state().words + ts =~= ts);
    assert(seq![plain_step(ts)] =~= seq![].push(plain_step(ts)));
}

/// `cmd > file` and `cmd >> file`: the file becomes the output target,
/// truncated or appended to, and exactly the step's standard output is
/// written to it; the error stream still goes to the standard error.
pub proof fn lemma_output_redirection(ts: Seq<Seq<char>>, op: Seq<char>, file: Seq<char>, out: OutputSpec)
    requires
        ts.len() > 0,
        plain_words(ts),
        redirection_of(op) == Some(Redirection::WriteOut) || redirection_of(op) == Some(
            Redirection::AppendOut,
        ),
    ensures
        parse_pipeline(ts + seq![op, file]) matches Ok(p) && p.targets == (TargetsSpec {
            input: None,
            output: Some((file, redirection_of(op) == Some(Redirection::AppendOut))),
            error: None,
            combined: false,
        }) && advance_spec(p, 0, out) == (ActionSpec::Finish {
            output: out.stdout,
            error: Some(out.stderr),
            result: out,
        }),
{
    lemma_single_redirection(ts, op, file);
}

/// `cmd &> file`, `cmd 2>&1 file` and `cmd &>> file`: the file becomes the
/// single target of both streams, and the step's error bytes followed by
/// its output bytes are written to it once.
pub proof fn lemma_combined_redirection(ts: Seq<Seq<char>>, op: Seq<char>, file: Seq<char>, out: OutputSpec)
    requires
        ts.len() > 0,
        plain_words(ts),
        redirection_of(op) == Some(Redirection::WriteOutErr) || redirection_of(op) == Some(
            Redirection::AppendOutErr,
        ),
    ensures
        parse_pipeline(ts + seq![op, file]) matches Ok(p) && p.targets == (TargetsSpec {
            input: None,
            output: Some((file, redirection_of(op) == Some(Redirection::AppendOutErr))),
            error: None,
            combined: true,
        }) && advance_spec(p, 0, out) == (ActionSpec::Finish {
            output: out.stderr + out.stdout,
            error: None,
            result: out,
        }),
{
    lemma_single_redirection(ts, op, file);
}

/// `cmd < file`: the file is the pipeline's input target, read before the
/// first step runs; nothing else about the pipeline changes.
pub proof fn lemma_input_redirection(ts: Seq<Seq<char>>, op: Seq<char>, file: Seq<char>)
    requires
        ts.len() > 0,
        plain_words(ts),
        redirection_of(op) == Some(Redirection::ReadIn),
    ensures
        parse_pipeline(ts + seq![op, file]) matches Ok(p) && p.targets == (TargetsSpec {
            input: Some(file),
            output: None,
            error: None,
            combined: false,
        }) && p.steps == seq![plain_step(ts)],
{
    lemma_single_redirection(ts, op, file);
}

/// An empty command line reads into a pipeline with no steps, and starting
/// it fails as malformed input, on any input.
pub proof fn lemma_empty_pipeline(input: Seq<u8>)
    ensures
        parse_pipeline(seq![]) == Ok::<PipelineSpec, ShellError>(PipelineSpec {
            steps: seq![],
            pipes: seq![],
            targets: no_targets(),
        }),
        start_spec(parse_pipeline(seq![])->Ok_0, input) == Err::<ActionSpec, ShellError>(
            ShellError::NoSteps,
        ),
{
}

/// At every `|&`, the next step reads the previous step's standard output
/// followed by its error output, in that order.
pub proof fn lemma_both_pipe_order(p: PipelineSpec, done: nat, out: OutputSpec)
    requires
        p.wf(),
        done + 1 < p.steps.len(),
        p.pipes[done as int] == Pipe::Both,
    ensures
        advance_spec(p, done, out) == (ActionSpec::Run { step: done + 1, stdin: out.stdout + out.stderr }),
{
}

/// The standard output of the first `k` programs composed as a Unix pipe
/// on `input`, where `prog(i, x)` is what the program at `i` produces on
/// input `x`.
pub open spec fn composed_stdout(prog: spec_fn(nat, Seq<u8>) -> OutputSpec, input: Seq<u8>, k: nat) -> Seq<u8>
    decreases k,
{
    if k == 0 {
        input
    } else {
        prog((k - 1) as nat, composed_stdout(prog, input, (k - 1) as nat)).stdout
    }
}

/// The input that a run of `p` on `input` hands to the step at `i`, where
/// each step produces what `prog` says.
pub open spec fn stdin_at(p: PipelineSpec, input: Seq<u8>, prog: spec_fn(nat, Seq<u8>) -> OutputSpec, i: nat) -> Seq<u8>
    decreases i,
{
    if i == 0 {
        input
    } else {
        let prev = (i - 1) as nat;
        match advance_spec(p, prev, prog(prev, stdin_at(p, input, prog, prev))) {
            ActionSpec::Run { stdin, .. } => stdin,
            ActionSpec::Finish { .. } => seq![],
        }
    }
}

/// A pipeline joined by `|` alone behaves as the Unix pipe of its
/// programs: each step reads exactly the previous step's standard output,
/// and the last step's standard output is what is written out.
pub proof fn lemma_std_pipes_compose(
    p: PipelineSpec,
    input: Seq<u8>,
    prog: spec_fn(nat, Seq<u8>) -> OutputSpec,
)
    requires
        p.wf(),
        p.steps.len() > 0,
        forall|j: int| 0 <= j < p.pipes.len() ==> p.pipes[j] == Pipe::Std,
        !p.targets.combined,
    ensures
        start_spec(p, input) == Ok::<ActionSpec, ShellError>(ActionSpec::Run { step: 0, stdin: input }),
        forall|i: nat| i < p.steps.len() ==> #[trigger] stdin_at(p, input, prog, i) == composed_stdout(prog, input, i),
        ({
            let last = (p.steps.len() - 1) as nat;
            advance_spec(p, last, prog(last, stdin_at(p, input, prog, last))) matches ActionSpec::Finish {
                output,
                ..
            } && output == composed_stdout(prog, input, p.steps.len())
        }),
{
    assert forall|i: nat| i < p.steps.len() implies #[trigger] stdin_at(p, input, prog, i) == composed_stdout(prog, input, i) by {
        lemma_std_prefix(p, input, prog, i);
    }
    let last = (p.steps.len() - 1) as nat;
    lemma_std_prefix(p, input, prog, last);
}

proof fn lemma_std_prefix(p: PipelineSpec, input: Seq<u8>, prog: spec_fn(nat, Seq<u8>) -> OutputSpec, i: nat)
    requires
        p.wf(),
        i < p.steps.len(),
        forall|j: int| 0 <= j < p.pipes.len() ==> p.pipes[j] == Pipe::Std,
    ensures
        stdin_at(p, input, prog, i) == composed_stdout(prog, input, i),
    decreases i,
{
    if i > 0 {
        lemma_std_prefix(p, input, prog, (i - 1) as nat);
    }
}

} // verus!
