use shrimp::{cd_outcome, Builtin, BuiltinCall, ShellError};
use std::path::PathBuf;

#[test]
fn cd_root() {
    let b = Builtin::new("cd").arg("/");

    let r = b.run(&[]);
    match r {
        Ok(BuiltinCall::ChangeDir { target: Some(dir) }) => {
            assert_eq!(PathBuf::from(dir), PathBuf::from("/"))
        }
        other => panic!("unexpected {:?}", other),
    }
}

#[test]
fn non_existing_builtin() {
    let b = Builtin::new("oasijgoi").arg("3");

    let e = b.run(&[]);
    assert_eq!(e.is_err(), true);
    assert_eq!(e, Err(ShellError::UnknownBuiltin));
}

#[test]
fn cd_without_argument_goes_home() {
    assert_eq!(Builtin::new("cd").run(&[]), Ok(BuiltinCall::ChangeDir { target: None }));
}

#[test]
fn cd_uses_first_argument_only() {
    let b = Builtin::new("cd").arg("/tmp").arg("/usr");
    assert_eq!(
        b.run(&[]),
        Ok(BuiltinCall::ChangeDir { target: Some("/tmp".to_string()) })
    );
}

#[test]
fn exit_and_quit_end_the_shell() {
    assert_eq!(Builtin::new("exit").run(&[]), Ok(BuiltinCall::Exit));
    assert_eq!(Builtin::new("quit").arg("2").run(b"input"), Ok(BuiltinCall::Exit));
}

#[test]
fn builtin_names_match_whole_words() {
    assert!(Builtin::is_defined("cd"));
    assert!(Builtin::is_defined("exit"));
    assert!(Builtin::is_defined("quit"));
    assert!(!Builtin::is_defined("cdx"));
    assert!(!Builtin::is_defined("c"));
    assert!(!Builtin::is_defined(""));
    assert!(!Builtin::is_defined("/usr/bin/cd"));
    assert!(!Builtin::is_defined("./cd"));
}

#[test]
fn arg_appends_in_order() {
    let b = Builtin::new("cd").arg("a").arg("b");
    assert_eq!(b.name, "cd");
    assert_eq!(b.args, vec!["a".to_string(), "b".to_string()]);
}

#[test]
fn cd_outcome_success_and_failure() {
    let ok = cd_outcome(true);
    assert!(ok.success);
    assert_eq!(ok.code, Some(0));
    assert!(ok.stdout.is_empty() && ok.stderr.is_empty());

    let failed = cd_outcome(false);
    assert!(!failed.success);
    assert_eq!(failed.code, Some(1));
    assert!(failed.stdout.is_empty());
    assert_eq!(failed.stderr, b"cd: Directory not found\n".to_vec());
}
