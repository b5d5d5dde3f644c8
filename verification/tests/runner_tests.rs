use eunit_runner::invocation::{command, eval_expression, joined_test_modules};
use eunit_runner::modules::{module_runner_name, test_module_names, Module, Origin, Package};
use eunit_runner::outcome::{run_outcome, Error, OsErrorKind, SpawnOutcome};

fn module(name: &str, origin: Origin) -> Module {
    Module { name: name.to_string(), origin }
}

fn package(name: &str, modules: Vec<Module>) -> Package {
    Package { name: name.to_string(), modules }
}

#[test]
fn runner_name_replaces_every_slash() {
    assert_eq!(module_runner_name("foo/bar_test"), "foo@bar_test");
    assert_eq!(module_runner_name("a/b/c"), "a@b@c");
    assert_eq!(module_runner_name("baz"), "baz");
    assert_eq!(module_runner_name(""), "");
}

#[test]
fn runner_name_leaves_other_characters_alone() {
    assert_eq!(module_runner_name("x@y/z"), "x@y@z");
    assert_eq!(module_runner_name("gleam@should"), "gleam@should");
}

#[test]
fn only_test_modules_are_listed() {
    let pkgs = vec![package(
        "pkg",
        vec![
            module("foo/bar", Origin::Source),
            module("foo/bar_test", Origin::Test),
            module("other", Origin::Source),
        ],
    )];
    let names = test_module_names(&pkgs);
    assert_eq!(names, vec!["foo@bar_test".to_string()]);
}

#[test]
fn order_follows_packages_then_modules_without_dedup() {
    let pkgs = vec![
        package(
            "pkg_a",
            vec![module("m/one_test", Origin::Test), module("m/two_test", Origin::Test)],
        ),
        package("pkg_b", vec![module("m/one_test", Origin::Test)]),
    ];
    let names = test_module_names(&pkgs);
    assert_eq!(
        names,
        vec![
            "m@one_test".to_string(),
            "m@two_test".to_string(),
            "m@one_test".to_string(),
        ]
    );
}

#[test]
fn joined_modules_use_comma_separator() {
    let pkgs = vec![
        package("pkg_a", vec![module("foo/bar_test", Origin::Test)]),
        package("pkg_b", vec![module("baz", Origin::Test)]),
    ];
    assert_eq!(joined_test_modules(&pkgs), "foo@bar_test,baz");
}

#[test]
fn joined_modules_empty_when_no_tests() {
    let pkgs = vec![package("pkg", vec![module("foo/bar", Origin::Source)])];
    assert_eq!(joined_test_modules(&pkgs), "");
}

#[test]
fn eval_expression_interpolates_at_one_site() {
    assert_eq!(
        eval_expression("x,y"),
        "init:stop(case eunit:test([x,y], [verbose]) of ok -> 0; error -> 1 end)"
    );
}

#[test]
fn full_command_for_two_packages() {
    let pkgs = vec![
        package(
            "pkg_a",
            vec![module("foo/bar", Origin::Source), module("foo/bar_test", Origin::Test)],
        ),
        package("pkg_b", vec![module("baz", Origin::Test)]),
    ];
    let entries = vec![Some("pkg_a".to_string()), Some("pkg_b".to_string())];
    let cmd = command(&entries, &pkgs);
    assert_eq!(cmd.program, "erl");
    assert_eq!(
        cmd.args,
        vec![
            "-pa".to_string(),
            "pkg_a/ebin".to_string(),
            "-pa".to_string(),
            "pkg_b/ebin".to_string(),
            "-noshell".to_string(),
            "-eval".to_string(),
            "init:stop(case eunit:test([foo@bar_test,baz], [verbose]) of ok -> 0; error -> 1 end)"
                .to_string(),
        ]
    );
}

#[test]
fn empty_test_set_still_builds_the_command() {
    let pkgs = vec![package("pkg", vec![module("src_only", Origin::Source)])];
    let entries = vec![Some("pkg".to_string())];
    let cmd = command(&entries, &pkgs);
    assert_eq!(cmd.program, "erl");
    let expr = cmd.args.last().unwrap();
    assert!(expr.contains("eunit:test([], [verbose])"));
    assert_eq!(
        expr,
        "init:stop(case eunit:test([], [verbose]) of ok -> 0; error -> 1 end)"
    );
}

#[test]
fn no_packages_at_all_gives_empty_list() {
    let pkgs: Vec<Package> = Vec::new();
    let entries: Vec<Option<String>> = Vec::new();
    let cmd = command(&entries, &pkgs);
    assert_eq!(
        cmd.args,
        vec![
            "-noshell".to_string(),
            "-eval".to_string(),
            "init:stop(case eunit:test([], [verbose]) of ok -> 0; error -> 1 end)".to_string(),
        ]
    );
}

#[test]
fn unreadable_entry_contributes_no_pa_pair() {
    let pkgs = vec![package("pkg", vec![module("t_test", Origin::Test)])];
    let entries = vec![
        Some("first".to_string()),
        None,
        Some("third".to_string()),
    ];
    let cmd = command(&entries, &pkgs);
    assert_eq!(
        cmd.args[..4],
        [
            "-pa".to_string(),
            "first/ebin".to_string(),
            "-pa".to_string(),
            "third/ebin".to_string(),
        ]
    );
    assert_eq!(cmd.args.len(), 7);
}

#[test]
fn clean_exit_is_success() {
    let r = run_outcome(SpawnOutcome::Spawned { exit_success: true });
    assert!(r.is_ok());
}

#[test]
fn nonzero_exit_is_shell_command_error_without_cause() {
    let r = run_outcome(SpawnOutcome::Spawned { exit_success: false });
    assert_eq!(
        r,
        Err(Error::ShellCommand { command: "erl".to_string(), cause: None })
    );
}

#[test]
fn spawn_failure_records_the_os_error_kind() {
    let r = run_outcome(SpawnOutcome::Failed { kind: OsErrorKind::NotFound });
    assert_eq!(
        r,
        Err(Error::ShellCommand {
            command: "erl".to_string(),
            cause: Some(OsErrorKind::NotFound),
        })
    );
}

#[test]
fn spawn_failure_keeps_other_kinds_too() {
    let r = run_outcome(SpawnOutcome::Failed { kind: OsErrorKind::PermissionDenied });
    assert_eq!(
        r,
        Err(Error::ShellCommand {
            command: "erl".to_string(),
            cause: Some(OsErrorKind::PermissionDenied),
        })
    );
}
