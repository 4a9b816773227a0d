use bookos_store::ops::{Ops, Progress};
use bookos_store::packages::upgrade_all;
use bookos_store::pm::Pm;
use bookos_store::privileged::{judge, pkexec_query, run_priv, verify_password};
use bookos_store::process::{confirmed, Output};

fn failed(with_password: bool, stdout: &str, stderr: &str) -> String {
    judge(with_password, Some(1), stdout.to_string(), stderr.to_string()).unwrap_err()
}

#[test]
fn a_password_goes_to_the_input() {
    let inner = upgrade_all(Pm::Dnf);
    let run = run_priv(&inner, "secret", None, true);
    assert_eq!(run.command.program, "sudo");
    assert_eq!(run.command.args, vec!["-S", "-p", "", "dnf", "upgrade", "-y", "--refresh"]);
    assert_eq!(run.input, Some("secret\n".to_string()));
    assert_eq!(run.path, "/usr/local/sbin:/usr/local/bin:/usr/sbin:/usr/bin:/sbin:/bin");
    assert_eq!(run_priv(&inner, "other", None, false).command, run.command);
    assert_eq!(run.spawn_failure("no"), "Fallo al lanzar sudo: no");
}

#[test]
fn without_a_password_the_system_asks() {
    let inner = upgrade_all(Pm::Pacman);
    let run = run_priv(&inner, "", None, true);
    assert_eq!(run.command.program, "pkexec");
    assert_eq!(run.command.args, vec!["pacman", "-Syu", "--noconfirm"]);
    assert_eq!(run.input, None);
    assert_eq!(run.path, "/usr/local/sbin:/usr/local/bin:/usr/sbin:/usr/bin:/sbin:/bin");
    assert_eq!(run_priv(&inner, "", None, false).command.program, "sudo");
}

#[test]
fn a_run_is_tracked_until_it_ends() {
    let mut ops = Ops::new();
    let run = run_priv(&upgrade_all(Pm::Dnf), "", Some("op".to_string()), true);
    run.started(&mut ops, 9);
    assert!(ops.cancel_op("op").is_some());
    let out = Output { code: Some(0), stdout: b"done \xff\n".to_vec(), stderr: Vec::new() };
    assert_eq!(run.ended(&mut ops, &out), Ok("done \u{fffd}\n".to_string()));
    assert_eq!(ops.progress("op"), Progress::Ended);
    let unnamed = run_priv(&upgrade_all(Pm::Dnf), "x", None, true);
    unnamed.started(&mut ops, 9);
    let out = Output { code: Some(1), stdout: Vec::new(), stderr: b"Sorry, try again.".to_vec() };
    assert_eq!(unnamed.ended(&mut ops, &out), Err("Contraseña incorrecta".to_string()));
}

#[test]
fn failures_are_told() {
    assert_eq!(failed(true, "", "sudo: 1 incorrect password attempt"), "Contraseña incorrecta");
    assert_eq!(failed(true, "", "Sorry, try again."), "Contraseña incorrecta");
    assert_eq!(failed(true, "", "Terminated"), "__cancelled__");
    assert_eq!(failed(true, "", "signal: 15"), "__cancelled__");
    assert_eq!(failed(true, " out \n", " \n"), "out");
    assert_eq!(failed(true, "out", " err \n"), "err\nout");
    assert_eq!(failed(true, "b\n", "E: a\n"), "E: a\nb");
    assert_eq!(failed(true, " \n", " err \n"), "err");
    assert_eq!(failed(false, "out", " err \n"), "err");
    assert_eq!(failed(true, " ", ""), "Falló sin output");
    assert_eq!(failed(false, "", "Terminated"), "Terminated");
    assert_eq!(failed(false, "", " "), "fallo sin output (exit Some(1))");
    assert_eq!(
        judge(false, None, String::new(), String::new()),
        Err("fallo sin output (exit None)".to_string())
    );
    assert_eq!(
        judge(false, Some(-3), String::new(), String::new()),
        Err("fallo sin output (exit Some(-3))".to_string())
    );
}

#[test]
fn an_empty_password_is_never_checked() {
    assert!(verify_password("").is_none());
    let check = verify_password("pw").unwrap();
    assert_eq!(check.command.program, "sudo");
    assert_eq!(check.command.args, vec!["-S", "-k", "-p", "", "true"]);
    assert_eq!(check.input, "pw\n");
}

#[test]
fn a_failed_run_with_a_password_tells_all() {
    let mut ops = Ops::new();
    let run = run_priv(&upgrade_all(Pm::Apt), "x", None, false);
    let out = Output { code: Some(1), stdout: b"b\n".to_vec(), stderr: b"E: a\n".to_vec() };
    assert_eq!(run.ended(&mut ops, &out), Err("E: a\nb".to_string()));
    let run = run_priv(&upgrade_all(Pm::Apt), "", None, false);
    assert_eq!(run.ended(&mut ops, &out), Err("E: a".to_string()));
}

#[test]
fn the_system_dialog_is_looked_for_without_a_password() {
    assert!(pkexec_query("pw").is_none());
    let query = pkexec_query("").unwrap();
    assert_eq!(query.program, "which");
    assert_eq!(query.args, vec!["pkexec"]);
}

#[test]
fn a_program_confirms_by_its_exit_code() {
    assert!(confirmed(Some(Some(0))));
    assert!(!confirmed(Some(Some(1))));
    assert!(!confirmed(Some(None)));
    assert!(!confirmed(None));
}
