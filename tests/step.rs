use shrimp::{ShellError, Step};

fn words(s: &str) -> Vec<String> {
    s.split_whitespace().map(|w| w.to_owned()).collect()
}

#[test]
fn empty_step() {
    let s_str = vec![];
    let s = Step::new(s_str);
    assert_eq!(s.is_err(), true);
    assert!(matches!(s, Err(ShellError::EmptyStep)));
}

#[test]
fn parse_simple_builtin() {
    let cd_str = vec![String::from("cd /home/user")];
    let b = Step::new(cd_str).unwrap();
    if let Step::Builtin(broa) = b {
        assert_eq!(&broa.name, "cd");
        assert_eq!(&broa.args, &vec![String::from("/home/user")]);
    }
}

#[test]
fn builtin_takes_precedence() {
    match Step::new(words("cd /")).unwrap() {
        Step::Builtin(b) => {
            assert_eq!(b.name, "cd");
            assert_eq!(b.args, words("/"));
        }
        Step::Command(c) => panic!("external command {:?}", c),
    }
}

#[test]
fn explicit_path_bypasses_builtin() {
    match Step::new(words("/usr/bin/cd /")).unwrap() {
        Step::Command(c) => {
            assert_eq!(c.program, "/usr/bin/cd");
            assert_eq!(c.args, words("/"));
        }
        Step::Builtin(b) => panic!("builtin {:?}", b),
    }
    assert!(matches!(Step::new(words("./exit")).unwrap(), Step::Command(_)));
}

#[test]
fn external_command_with_arguments() {
    match Step::new(words("echo -n abcde")).unwrap() {
        Step::Command(c) => {
            assert_eq!(c.program, "echo");
            assert_eq!(c.args, words("-n abcde"));
        }
        Step::Builtin(b) => panic!("builtin {:?}", b),
    }
}

#[test]
fn arguments_stop_at_redirection() {
    match Step::new(words("wc -c < lorem -l")).unwrap() {
        Step::Command(c) => {
            assert_eq!(c.program, "wc");
            assert_eq!(c.args, words("-c"));
        }
        Step::Builtin(b) => panic!("builtin {:?}", b),
    }
    match Step::new(words("cd 2>&1 x")).unwrap() {
        Step::Builtin(b) => assert!(b.args.is_empty()),
        Step::Command(c) => panic!("external command {:?}", c),
    }
}
