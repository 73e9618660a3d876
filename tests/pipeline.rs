use shrimp::{Action, FileTarget, Pipe, Pipeline, ShellError, Step, StepOutput};

fn words(s: &str) -> Vec<String> {
    s.split_whitespace().map(|w| w.to_owned()).collect()
}

fn output(success: bool, code: Option<i32>, stdout: &[u8], stderr: &[u8]) -> StepOutput {
    StepOutput { success, code, stdout: stdout.to_vec(), stderr: stderr.to_vec() }
}

/// Drives a run of `p` on `input`, where the step at `i` produces
/// `outputs[i]`; gives the inputs handed to the steps and the final action.
fn drive(p: &Pipeline, input: &[u8], outputs: &[StepOutput]) -> (Vec<Vec<u8>>, Action) {
    let mut inputs = vec![];
    let mut action = p.start(input.to_vec()).unwrap();
    loop {
        match action {
            Action::Run { step, stdin } => {
                inputs.push(stdin);
                action = p.advance(step, outputs[step].clone());
            }
            finish => return (inputs, finish),
        }
    }
}

#[test]
fn empty_pipeline() {
    let p = Pipeline::new(vec![]).unwrap();

    let r = p.start(vec![]);
    assert_eq!(r.is_err(), true);
    assert!(matches!(r, Err(ShellError::NoSteps)));
}

#[test]
fn parse_simple_pipeline() {
    let input = "echo \"asd\" |& grep a | wc -c"
        .to_owned()
        .split_whitespace()
        .map(|s| s.to_owned())
        .collect();
    let p_str = Pipeline::new(input).unwrap();

    assert_eq!(p_str.pipes(), &vec![Pipe::Both, Pipe::Std]);
    assert_eq!(p_str.step_count(), 3);
    match p_str.step(0) {
        Step::Command(c) => {
            assert_eq!(c.program, "echo");
            assert_eq!(c.args, vec!["\"asd\"".to_owned()]);
        }
        other => panic!("{:?}", other),
    }
}

#[test]
fn parse_pipeline_new_output() {
    let input = "echo -n abcde | tr -d a | wc -c > tests/output_new"
        .to_owned()
        .split_whitespace()
        .map(|s| s.to_owned())
        .collect();

    let p_str = Pipeline::new(input).unwrap();

    assert_eq!(p_str.pipes(), &vec![Pipe::Std, Pipe::Std]);
    assert_eq!(
        p_str.targets().output,
        Some(FileTarget { path: "tests/output_new".to_owned(), append: false })
    );
    assert_eq!(p_str.targets().input, None);
    assert_eq!(p_str.targets().error, None);
}

#[test]
fn parse_empty_pipeline() {
    let p = Pipeline::new(vec![]);
    assert_eq!(p.is_ok(), true);
}

#[test]
fn simple_pipeline_empty_out_redir() {
    let p = Pipeline::new(
        "wc -c < "
            .to_owned()
            .split_whitespace()
            .map(|s| s.to_owned())
            .collect(),
    );
    assert_eq!(p.is_err(), true);
    assert!(matches!(p, Err(ShellError::EmptyRedirection)));
}

#[test]
fn empty_steps_between_pipes_fail() {
    assert!(matches!(Pipeline::new(words("| wc")), Err(ShellError::EmptyStep)));
    assert!(matches!(Pipeline::new(words("ls |")), Err(ShellError::EmptyStep)));
    assert!(matches!(Pipeline::new(words("ls | | wc")), Err(ShellError::EmptyStep)));
    assert!(matches!(Pipeline::new(words("|&")), Err(ShellError::EmptyStep)));
    assert!(matches!(Pipeline::new(words("> out |")), Err(ShellError::EmptyStep)));
}

#[test]
fn redirections_belong_to_no_step() {
    let p = Pipeline::new(words("< in sort | uniq -c 2>> log > out")).unwrap();
    assert_eq!(p.step_count(), 2);
    match p.step(0) {
        Step::Command(c) => {
            assert_eq!(c.program, "sort");
            assert!(c.args.is_empty());
        }
        other => panic!("{:?}", other),
    }
    match p.step(1) {
        Step::Command(c) => {
            assert_eq!(c.program, "uniq");
            assert_eq!(c.args, words("-c"));
        }
        other => panic!("{:?}", other),
    }
    assert_eq!(p.targets().input, Some("in".to_owned()));
    assert_eq!(p.targets().error, Some(FileTarget { path: "log".to_owned(), append: true }));
    assert_eq!(p.targets().output, Some(FileTarget { path: "out".to_owned(), append: false }));
    assert!(!p.targets().combined);
}

#[test]
fn missing_input_file_is_named_not_opened() {
    let p = Pipeline::new(words("wc -c < tests/inputs > tests/output")).unwrap();
    assert_eq!(p.targets().input, Some("tests/inputs".to_owned()));
    assert_eq!(
        p.targets().output,
        Some(FileTarget { path: "tests/output".to_owned(), append: false })
    );
}

#[test]
fn last_output_redirection_wins() {
    let p = Pipeline::new(words("ls &> a > b")).unwrap();
    assert_eq!(p.targets().output, Some(FileTarget { path: "b".to_owned(), append: false }));
    assert!(!p.targets().combined);
}

#[test]
fn single_step_output_is_written_unchanged() {
    let p = Pipeline::new(words("ls -l")).unwrap();
    assert_eq!(p.step_count(), 1);
    assert!(p.pipes().is_empty());
    let out = output(false, Some(2), b"listing\n", b"warning\n");
    let (inputs, last) = drive(&p, b"", &[out.clone()]);
    assert_eq!(inputs, vec![Vec::<u8>::new()]);
    match last {
        Action::Finish { output, error, result } => {
            assert_eq!(output, b"listing\n".to_vec());
            assert_eq!(error, Some(b"warning\n".to_vec()));
            assert_eq!(result, out);
        }
        other => panic!("{:?}", other),
    }
}

#[test]
fn three_step_std_chain_forwards_stdout() {
    let p = Pipeline::new(words("echo -n abcde | tr -d a | wc -c")).unwrap();
    let outs = [
        output(true, Some(0), b"abcde", b"echo-noise"),
        output(true, Some(0), b"bcde", b""),
        output(true, Some(0), b"4\n", b""),
    ];
    let (inputs, last) = drive(&p, b"", &outs);
    assert_eq!(inputs, vec![b"".to_vec(), b"abcde".to_vec(), b"bcde".to_vec()]);
    match last {
        Action::Finish { output, error, result } => {
            assert_eq!(String::from_utf8(output).unwrap().trim(), "4");
            assert_eq!(error, Some(vec![]));
            assert!(result.success);
        }
        other => panic!("{:?}", other),
    }
}

#[test]
fn err_pipe_sends_stdout_then_stderr() {
    let p = Pipeline::new(words("echo -n abcde |& tr -3 a |& wc -c")).unwrap();
    assert_eq!(p.pipes(), &vec![Pipe::Both, Pipe::Both]);
    let outs = [
        output(true, Some(0), b"abcde", b""),
        output(false, Some(1), b"", b"tr: invalid option -- '3'\n"),
        output(true, Some(0), b"26\n", b""),
    ];
    let (inputs, _) = drive(&p, b"", &outs);
    assert_eq!(inputs[1], b"abcde".to_vec());
    assert_eq!(inputs[2], b"tr: invalid option -- '3'\n".to_vec());

    let q = Pipeline::new(words("a |& b")).unwrap();
    let (inputs, _) = drive(&q, b"", &[output(true, Some(0), b"OUT", b"ERR"), output(true, Some(0), b"", b"")]);
    assert_eq!(inputs[1], b"OUTERR".to_vec());
}

#[test]
fn failed_intermediate_step_does_not_stop_the_chain() {
    let p = Pipeline::new(words("false | cat")).unwrap();
    let outs = [output(false, Some(1), b"", b""), output(true, Some(0), b"", b"")];
    let (inputs, last) = drive(&p, b"", &outs);
    assert_eq!(inputs.len(), 2);
    assert!(matches!(last, Action::Finish { .. }));
}

#[test]
fn rerun_gives_identical_result() {
    let p = Pipeline::new(words("echo -n abcde | tr -d a | wc -c")).unwrap();
    let outs = [
        output(true, Some(0), b"abcde", b""),
        output(true, Some(0), b"bcde", b""),
        output(true, Some(0), b"4\n", b""),
    ];
    let (first_inputs, first) = drive(&p, b"", &outs);
    let (second_inputs, second) = drive(&p, b"", &outs);
    assert_eq!(first_inputs, second_inputs);
    match (first, second) {
        (
            Action::Finish { output: o1, error: e1, result: r1 },
            Action::Finish { output: o2, error: e2, result: r2 },
        ) => {
            assert_eq!((o1.clone(), e1, r1), (o2, e2, r2));
            assert_eq!(String::from_utf8(o1).unwrap().trim(), "4");
        }
        other => panic!("{:?}", other),
    }
}

#[test]
fn write_and_append_redirections_get_stdout() {
    let w = Pipeline::new(words("echo test > tests/output")).unwrap();
    assert_eq!(
        w.targets().output,
        Some(FileTarget { path: "tests/output".to_owned(), append: false })
    );
    let a = Pipeline::new(words("echo -n abcde | tr -d a | wc -c >> tests/output")).unwrap();
    assert_eq!(
        a.targets().output,
        Some(FileTarget { path: "tests/output".to_owned(), append: true })
    );
    let (_, last) = drive(&w, b"", &[output(true, Some(0), b"test\n", b"")]);
    match last {
        Action::Finish { output, .. } => assert_eq!(output, b"test\n".to_vec()),
        other => panic!("{:?}", other),
    }
}

#[test]
fn append_err_redirection_gets_stderr() {
    let p = Pipeline::new(words("echo -n abcde | tr -d a | wc -x 2>> tests/output")).unwrap();
    assert_eq!(
        p.targets().error,
        Some(FileTarget { path: "tests/output".to_owned(), append: true })
    );
    assert_eq!(p.targets().output, None);
    let msg: &[u8] = b"wc: invalid option -- 'x'\nTry 'wc --help' for more information.\n";
    let outs = [
        output(true, Some(0), b"abcde", b""),
        output(true, Some(0), b"bcde", b""),
        output(false, Some(1), b"", msg),
    ];
    let (_, last) = drive(&p, b"", &outs);
    match last {
        Action::Finish { output, error, .. } => {
            assert!(output.is_empty());
            assert_eq!(error, Some(msg.to_vec()));
        }
        other => panic!("{:?}", other),
    }
}

#[test]
fn combined_redirection_writes_stderr_then_stdout() {
    for line in ["ls tests/err erro &> tests/output", "ls tests/err erro 2>&1 tests/output"] {
        let p = Pipeline::new(words(line)).unwrap();
        assert_eq!(
            p.targets().output,
            Some(FileTarget { path: "tests/output".to_owned(), append: false })
        );
        assert!(p.targets().combined);
        let out = output(
            false,
            Some(2),
            b"tests/err\n",
            b"ls: cannot access 'erro': No such file or directory\n",
        );
        let (_, last) = drive(&p, b"", &[out]);
        match last {
            Action::Finish { output, error, result } => {
                assert_eq!(
                    String::from_utf8(output).unwrap().trim(),
                    "ls: cannot access 'erro': No such file or directory\ntests/err"
                );
                assert_eq!(error, None);
                assert_eq!(result.success, false);
                assert_ne!(result.code, Some(0));
            }
            other => panic!("{:?}", other),
        }
    }
    let p = Pipeline::new(words("ls tests/err erro &>> tests/output")).unwrap();
    assert_eq!(
        p.targets().output,
        Some(FileTarget { path: "tests/output".to_owned(), append: true })
    );
    assert!(p.targets().combined);
}

#[test]
fn input_redirection_feeds_first_step() {
    let p = Pipeline::new(words("wc -c < tests/lorem")).unwrap();
    assert_eq!(p.targets().input, Some("tests/lorem".to_owned()));
    let (inputs, _) = drive(&p, b"lorem ipsum", &[output(true, Some(0), b"11\n", b"")]);
    assert_eq!(inputs, vec![b"lorem ipsum".to_vec()]);
}
