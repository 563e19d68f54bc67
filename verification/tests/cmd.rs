//! Commands and pipelines, answered by a small model of the programs they name.

use btrshot::cmd::{
    exit_code_or_signal, pipe, pipe_with_env, run, run_with_env, run_with_output, run_with_output_env, Command,
    CommandError, ExitStatus, Outcome, Output, PipeReply, PipeStage, Pipeline,
};

const NO_SUCH_FILE: &str = "No such file or directory (os error 2)";

fn exited(code: i32, stdout: &[u8], stderr: &str) -> Outcome {
    Outcome::Exited(Output {
        status: ExitStatus { code: Some(code), signal: None },
        stdout: stdout.to_vec(),
        stderr: stderr.as_bytes().to_vec(),
    })
}

fn variable(command: &Command, name: &str) -> String {
    command.env.iter().rev().find(|(k, _)| k == name).map(|(_, v)| v.clone()).unwrap_or_default()
}

/// What the program would do.
fn execute(command: &Command) -> Outcome {
    let args: Vec<&str> = command.args.iter().map(String::as_str).collect();
    match (command.program.as_str(), args.as_slice()) {
        ("true", []) | ("cat", []) => exited(0, b"", ""),
        ("false", []) => exited(1, b"", ""),
        ("echo", words) => exited(0, format!("{}\n", words.join(" ")).as_bytes(), ""),
        ("sh", ["-c", "exit 42"]) => exited(42, b"", ""),
        ("sh", ["-c", "exit 7"]) => exited(7, b"", ""),
        ("sh", ["-c", "echo 'something went wrong' >&2; exit 1"]) => exited(1, b"", "something went wrong\n"),
        ("sh", ["-c", "echo 'bad output' >&2; exit 1"]) => exited(1, b"", "bad output\n"),
        ("sh", ["-c", "printf '\\x80\\x81'"]) => exited(0, &[0x80, 0x81], ""),
        ("sh", ["-c", "kill -9 $$"]) => Outcome::Exited(Output {
            status: ExitStatus { code: None, signal: Some(9) },
            stdout: Vec::new(),
            stderr: Vec::new(),
        }),
        ("sh", ["-c", "echo $MY_VAR"]) => exited(0, format!("{}\n", variable(command, "MY_VAR")).as_bytes(), ""),
        ("sh", ["-c", "test \"$MY_VAR\" = \"expected_value\""]) => {
            exited(if variable(command, "MY_VAR") == "expected_value" { 0 } else { 1 }, b"", "")
        }
        ("sh", ["-c", "test \"$MY_VAR\" = \"piped_value\""]) => {
            exited(if variable(command, "MY_VAR") == "piped_value" { 0 } else { 1 }, b"", "")
        }
        ("__no_such_binary_btrshot__", _) => Outcome::NotSpawned(NO_SUCH_FILE.to_owned()),
        other => panic!("no model of {other:?}"),
    }
}

fn status_of(command: &Command) -> ExitStatus {
    match execute(command) {
        Outcome::Exited(output) => output.status,
        Outcome::NotSpawned(cause) => panic!("not spawned: {cause}"),
    }
}

fn do_run(program: &str, args: &[&str]) -> Result<(), CommandError> {
    let request = run(program, args);
    let outcome = execute(&request.command);
    request.finish(outcome)
}

fn do_run_with_env(program: &str, args: &[&str], env: &[(&str, &str)]) -> Result<(), CommandError> {
    let request = run_with_env(program, args, env);
    let outcome = execute(&request.command);
    request.finish(outcome)
}

fn do_run_with_output(program: &str, args: &[&str]) -> Result<String, CommandError> {
    let request = run_with_output(program, args);
    let outcome = execute(&request.command);
    request.finish(outcome)
}

fn do_run_with_output_env(program: &str, args: &[&str], env: &[(&str, &str)]) -> Result<String, CommandError> {
    let request = run_with_output_env(program, args, env);
    let outcome = execute(&request.command);
    request.finish(outcome)
}

fn conduct(mut p: Pipeline) -> Result<(), CommandError> {
    loop {
        let reply = match p.stage() {
            PipeStage::Spawn(i) => match execute(p.command(i)) {
                Outcome::NotSpawned(cause) => PipeReply::NotSpawned(cause),
                Outcome::Exited(_) => PipeReply::Spawned,
            },
            PipeStage::Kill(_) => PipeReply::Killed,
            PipeStage::Wait(i) => match execute(p.command(i)) {
                Outcome::NotSpawned(cause) => PipeReply::Waited(Err(cause)),
                Outcome::Exited(output) => PipeReply::Waited(Ok(output)),
            },
            PipeStage::Done => return p.finish(),
        };
        p.advance(reply);
    }
}

fn do_pipe(steps: &[(&str, &[&str])]) -> Result<(), CommandError> {
    pipe(steps).and_then(conduct)
}

fn do_pipe_with_env(steps: &[(&str, &[&str])], env: &[(&str, &str)]) -> Result<(), CommandError> {
    pipe_with_env(steps, env).and_then(conduct)
}

// ---------------------------------------------------------------------------
// run
// ---------------------------------------------------------------------------

#[test]
fn test_run_true_returns_ok() {
    let result = do_run("true", &[]);
    assert!(result.is_ok(), "expected Ok for `true`, got: {result:?}");
}

#[test]
fn test_run_echo_returns_ok() {
    let result = do_run("echo", &["hello"]);
    assert!(result.is_ok(), "expected Ok for `echo hello`, got: {result:?}");
}

#[test]
fn test_run_false_returns_err() {
    let result = do_run("false", &[]);
    assert!(result.is_err(), "expected Err for `false`, got Ok");
}

#[test]
fn test_run_nonzero_exit_error_contains_exit_code() {
    let err = do_run("sh", &["-c", "exit 42"]).expect_err("should be Err");
    let msg = err.message();
    assert!(msg.contains("42"), "error message should mention exit code 42; got: {msg}");
}

#[test]
fn test_run_stderr_included_in_error_message() {
    let err = do_run("sh", &["-c", "echo 'something went wrong' >&2; exit 1"]).expect_err("should be Err");
    let msg = err.message();
    assert!(
        msg.contains("something went wrong"),
        "error message should include stderr output; got: {msg}"
    );
}

#[test]
fn test_run_nonexistent_program_returns_err() {
    let result = do_run("__no_such_binary_btrshot__", &[]);
    assert!(result.is_err(), "spawning a missing program should return Err");
}

// ---------------------------------------------------------------------------
// pipe
// ---------------------------------------------------------------------------

#[test]
fn test_pipe_echo_to_cat_returns_ok() {
    let result = do_pipe(&[("echo", &["hello"] as &[&str]), ("cat", &[])]);
    assert!(result.is_ok(), "expected Ok for echo|cat pipeline; got: {result:?}");
}

#[test]
fn test_pipe_three_stages_returns_ok() {
    let result = do_pipe(&[("echo", &["hello"] as &[&str]), ("cat", &[]), ("cat", &[])]);
    assert!(result.is_ok(), "expected Ok for echo|cat|cat pipeline; got: {result:?}");
}

#[test]
fn test_pipe_empty_steps_returns_err() {
    let result = do_pipe(&[]);
    assert!(result.is_err(), "empty pipeline should return Err");
}

#[test]
fn test_pipe_single_step_returns_err() {
    let result = do_pipe(&[("echo", &["hello"] as &[&str])]);
    assert!(result.is_err(), "single-step pipeline should return Err");
}

#[test]
fn test_pipe_first_step_fails_returns_err() {
    let result = do_pipe(&[("false", &[] as &[&str]), ("cat", &[])]);
    assert!(result.is_err(), "pipeline with failing first step should return Err");
}

#[test]
fn test_pipe_last_step_fails_returns_err() {
    let result = do_pipe(&[("echo", &["hello"] as &[&str]), ("false", &[])]);
    assert!(result.is_err(), "pipeline with failing last step should return Err");
}

#[test]
fn test_pipe_middle_step_fails_returns_err() {
    let result = do_pipe(&[("echo", &["hello"] as &[&str]), ("false", &[]), ("cat", &[])]);
    assert!(result.is_err(), "pipeline with failing middle step should return Err");
}

#[test]
fn test_pipe_nonexistent_program_returns_err() {
    let result = do_pipe(&[("echo", &["hello"] as &[&str]), ("__no_such_binary_btrshot__", &[])]);
    assert!(result.is_err(), "pipeline with non-existent program should return Err");
}

// ---------------------------------------------------------------------------
// run_with_output
// ---------------------------------------------------------------------------

#[test]
fn test_run_with_output_success_returns_stdout() {
    let result = do_run_with_output("echo", &["hello world"]);
    assert!(result.is_ok(), "expected Ok for `echo hello world`, got: {result:?}");
    let stdout = result.expect("already checked ok");
    assert!(stdout.contains("hello world"), "stdout should contain 'hello world'; got: {stdout:?}");
}

#[test]
fn test_run_with_output_empty_stdout_returns_empty_string() {
    let result = do_run_with_output("true", &[]);
    assert!(result.is_ok(), "expected Ok for `true`, got: {result:?}");
    assert_eq!(result.expect("already checked ok"), "");
}

#[test]
fn test_run_with_output_nonzero_exit_returns_err() {
    let result = do_run_with_output("false", &[]);
    assert!(result.is_err(), "expected Err for `false`, got Ok");
}

#[test]
fn test_run_with_output_error_contains_exit_code() {
    let err = do_run_with_output("sh", &["-c", "exit 42"]).expect_err("should be Err");
    let msg = err.message();
    assert!(msg.contains("42"), "error message should mention exit code 42; got: {msg}");
}

#[test]
fn test_run_with_output_error_contains_stderr() {
    let err = do_run_with_output("sh", &["-c", "echo 'bad output' >&2; exit 1"]).expect_err("should be Err");
    let msg = err.message();
    assert!(msg.contains("bad output"), "error message should include stderr; got: {msg}");
}

#[test]
fn test_run_with_output_invalid_utf8_returns_err() {
    let err =
        do_run_with_output("sh", &["-c", "printf '\\x80\\x81'"]).expect_err("should be Err on invalid UTF-8");
    let msg = err.message();
    assert!(
        msg.contains("UTF-8") || msg.contains("utf-8") || msg.contains("utf8"),
        "error message should mention UTF-8; got: {msg}"
    );
}

#[test]
fn test_run_with_output_nonexistent_program_returns_err() {
    let result = do_run_with_output("__no_such_binary_btrshot__", &[]);
    assert!(result.is_err(), "spawning a missing program should return Err");
}

// ---------------------------------------------------------------------------
// exit_code_or_signal
// ---------------------------------------------------------------------------

#[test]
fn test_exit_code_or_signal_normal_exit() {
    let status = status_of(&run("sh", &["-c", "exit 7"]).command);
    let s = exit_code_or_signal(&status);
    assert_eq!(s, "status 7", "normal exit should report status code");
}

#[test]
fn test_exit_code_or_signal_signal_termination() {
    let status = status_of(&run("sh", &["-c", "kill -9 $$"]).command);
    let s = exit_code_or_signal(&status);
    assert!(!s.is_empty(), "exit_code_or_signal should return a non-empty string");
    assert_eq!(s, "signal 9");
}

#[test]
fn exit_status_without_code_or_signal() {
    assert_eq!(exit_code_or_signal(&ExitStatus { code: None, signal: None }), "status -1");
    assert_eq!(exit_code_or_signal(&ExitStatus { code: Some(-3), signal: Some(9) }), "status -3");
    assert_eq!(exit_code_or_signal(&ExitStatus { code: Some(i32::MIN), signal: None }), "status -2147483648");
    assert!(!ExitStatus { code: None, signal: Some(9) }.success());
    assert!(ExitStatus { code: Some(0), signal: None }.success());
}

// ---------------------------------------------------------------------------
// run_with_env, run_with_output_env
// ---------------------------------------------------------------------------

#[test]
fn test_run_with_env_true_returns_ok() {
    let result = do_run_with_env("true", &[], &[]);
    assert!(result.is_ok(), "expected Ok for `true` with empty env_vars, got: {result:?}");
}

#[test]
fn test_run_with_env_injects_variable() {
    let result = do_run_with_env(
        "sh",
        &["-c", "test \"$MY_VAR\" = \"expected_value\""],
        &[("MY_VAR", "expected_value")],
    );
    assert!(result.is_ok(), "env variable should be injected into the subprocess; got: {result:?}");
}

#[test]
fn test_run_with_env_false_returns_err() {
    let result = do_run_with_env("false", &[], &[]);
    assert!(result.is_err(), "expected Err for `false`, got Ok");
}

#[test]
fn test_run_with_output_env_injects_variable() {
    let result = do_run_with_output_env("sh", &["-c", "echo $MY_VAR"], &[("MY_VAR", "hello_world")]);
    assert!(result.is_ok(), "expected Ok when env variable is set; got: {result:?}");
    let stdout = result.expect("already checked ok");
    assert!(
        stdout.contains("hello_world"),
        "stdout should contain the injected env value 'hello_world'; got: {stdout:?}"
    );
}

// ---------------------------------------------------------------------------
// pipe_with_env
// ---------------------------------------------------------------------------

#[test]
fn test_pipe_with_env_basic_pipeline_returns_ok() {
    let result = do_pipe_with_env(&[("echo", &["hello"] as &[&str]), ("cat", &[])], &[]);
    assert!(result.is_ok(), "expected Ok for echo|cat pipeline via pipe_with_env; got: {result:?}");
}

#[test]
fn test_pipe_with_env_injects_variable_into_pipeline() {
    let result = do_pipe_with_env(
        &[
            ("sh", &["-c", "test \"$MY_VAR\" = \"piped_value\""] as &[&str]),
            ("cat", &[] as &[&str]),
        ],
        &[("MY_VAR", "piped_value")],
    );
    assert!(result.is_ok(), "env variable should be propagated to pipeline steps; got: {result:?}");
}

#[test]
fn test_pipe_with_env_failing_step_returns_err() {
    let result = do_pipe_with_env(&[("false", &[] as &[&str]), ("cat", &[])], &[]);
    assert!(result.is_err(), "pipeline with failing step should return Err via pipe_with_env");
}

#[test]
fn test_pipe_with_env_empty_steps_returns_err() {
    let result = do_pipe_with_env(&[], &[]);
    assert!(result.is_err(), "empty pipeline should return Err via pipe_with_env");
}

// ---------------------------------------------------------------------------
// Requests and messages
// ---------------------------------------------------------------------------

#[test]
fn requests_hold_the_command() {
    let request = run_with_env("prog", &["a", "b c"], &[("K", "V"), ("K2", "")]);
    assert_eq!(request.command.program, "prog");
    assert_eq!(request.command.args, vec!["a", "b c"]);
    assert_eq!(
        request.command.env,
        vec![("K".to_owned(), "V".to_owned()), ("K2".to_owned(), String::new())]
    );
    assert!(run("prog", &[]).command.env.is_empty());
}

#[test]
fn messages_of_commands() {
    let e = do_run("sh", &["-c", "echo 'something went wrong' >&2; exit 1"]).expect_err("Err");
    assert_eq!(e.message(), "'sh' exited with status 1: something went wrong");
    let e = do_run("__no_such_binary_btrshot__", &[]).expect_err("Err");
    assert_eq!(
        e.message(),
        format!("failed to spawn '__no_such_binary_btrshot__': {NO_SUCH_FILE}")
    );
    let e = run("prog", &[])
        .finish(Outcome::Exited(Output {
            status: ExitStatus { code: None, signal: Some(15) },
            stdout: Vec::new(),
            stderr: vec![b' ', 0xff, b'x', b'\n'],
        }))
        .expect_err("Err");
    assert_eq!(e.message(), "'prog' exited with signal 15: \u{fffd}x");
}

#[test]
fn stdout_is_returned_unchanged() {
    let out = run_with_output("prog", &[])
        .finish(Outcome::Exited(Output {
            status: ExitStatus { code: Some(0), signal: None },
            stdout: "  grün\n".as_bytes().to_vec(),
            stderr: b"ignored".to_vec(),
        }))
        .expect("Ok");
    assert_eq!(out, "  grün\n");
    let e = do_run_with_output("sh", &["-c", "printf '\\x80\\x81'"]).expect_err("Err");
    assert_eq!(e.message(), "stdout of 'sh' is not valid UTF-8: invalid utf-8 sequence of 1 bytes from index 0");
}

#[test]
fn pipeline_reports_the_lowest_failing_step() {
    let steps: &[(&str, &[&str])] = &[("echo", &["x"]), ("false", &[]), ("sh", &["-c", "exit 42"])];
    let e = do_pipe(steps).expect_err("Err");
    assert!(matches!(e, CommandError::StepExit { step: 1, .. }), "{e:?}");
    assert_eq!(e.message(), "pipeline step 1 ('false') exited with status 1: ");
}

#[test]
fn pipeline_waits_from_the_last_step_to_the_first() {
    let steps: &[(&str, &[&str])] = &[("echo", &["x"]), ("cat", &[]), ("cat", &[])];
    let mut p = pipe(steps).expect("Ok");
    let mut stages = Vec::new();
    while p.stage() != PipeStage::Done {
        stages.push(p.stage());
        let reply = match p.stage() {
            PipeStage::Spawn(_) => PipeReply::Spawned,
            PipeStage::Kill(_) => PipeReply::Killed,
            _ => PipeReply::Waited(Ok(Output {
                status: ExitStatus { code: Some(0), signal: None },
                stdout: Vec::new(),
                stderr: Vec::new(),
            })),
        };
        p.advance(reply);
    }
    assert_eq!(
        stages,
        vec![
            PipeStage::Spawn(0),
            PipeStage::Spawn(1),
            PipeStage::Spawn(2),
            PipeStage::Wait(2),
            PipeStage::Wait(1),
            PipeStage::Wait(0),
        ]
    );
    assert!(p.finish().is_ok());
}

#[test]
fn pipeline_that_cannot_be_spawned_is_killed() {
    let steps: &[(&str, &[&str])] = &[("echo", &["x"]), ("__no_such_binary_btrshot__", &[]), ("cat", &[])];
    let mut p = pipe(steps).expect("Ok");
    p.advance(PipeReply::Spawned);
    p.advance(PipeReply::NotSpawned(NO_SUCH_FILE.to_owned()));
    assert_eq!(p.stage(), PipeStage::Kill(1));
    p.advance(PipeReply::Spawned);
    assert_eq!(p.stage(), PipeStage::Kill(1), "a reply that does not belong here changes nothing");
    p.advance(PipeReply::Killed);
    assert_eq!(p.stage(), PipeStage::Done);
    let e = p.finish().expect_err("Err");
    assert_eq!(
        e.message(),
        format!("failed to spawn '__no_such_binary_btrshot__' at pipeline step 1: {NO_SUCH_FILE}")
    );

    let mut p = pipe(steps).expect("Ok");
    p.advance(PipeReply::NotSpawned("why".to_owned()));
    assert_eq!(p.stage(), PipeStage::Done, "nothing was spawned, so there is nothing to kill");
}

#[test]
fn pipeline_without_stdout_or_without_an_end() {
    let steps: &[(&str, &[&str])] = &[("echo", &["x"]), ("cat", &[])];
    let mut p = pipe(steps).expect("Ok");
    p.advance(PipeReply::Spawned);
    p.advance(PipeReply::NoStdout);
    assert_eq!(p.stage(), PipeStage::Done);
    let e = p.finish().expect_err("Err");
    assert_eq!(e.message(), "failed to obtain stdout from step 0");

    let mut p = pipe(steps).expect("Ok");
    p.advance(PipeReply::Spawned);
    p.advance(PipeReply::Spawned);
    p.advance(PipeReply::Waited(Err("gone".to_owned())));
    p.advance(PipeReply::Waited(Ok(Output {
        status: ExitStatus { code: Some(0), signal: None },
        stdout: Vec::new(),
        stderr: Vec::new(),
    })));
    let e = p.finish().expect_err("Err");
    assert_eq!(e.message(), "failed to wait for 'cat' at pipeline step 1: gone");
}

#[test]
fn pipelines_need_two_steps() {
    let e = pipe(&[("echo", &["hello"] as &[&str])]).expect_err("Err");
    assert!(matches!(e, CommandError::TooFewSteps { steps: 1 }), "{e:?}");
    assert_eq!(e.message(), "pipe requires at least two steps, got 1");
}
