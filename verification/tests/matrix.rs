use shellfn::execute_iter_result_result;
use shellfn::execute_parse_result;
use shellfn::execute_vec_nopanic_nopanic;
use shellfn::execute_vec_nopanic_result;
use shellfn::execute_vec_result_nopanic;
use shellfn::execute_vec_result_result;
use shellfn::execute_void_nopanic;
use shellfn::Error;

fn bash(script: &str) -> (String, Vec<String>) {
    ("bash".to_string(), vec!["-c".to_string(), script.to_string()])
}

fn envs(pairs: &[(&str, &str)]) -> Vec<(String, String)> {
    pairs.iter().map(|(k, v)| (k.to_string(), v.to_string())).collect()
}

const FOR_LOOP_SCRIPT: &str = r#"
    for V in $DATA; do
        echo $V;
    done

    exit $EXIT_CODE
"#;

fn data_envs(data: &str, exit_code: u32) -> Vec<(String, String)> {
    envs(&[("DATA", data), ("EXIT_CODE", &exit_code.to_string())])
}

#[test]
fn batch_of_results_keeps_every_item_in_order() {
    let (cmd, args) = bash(FOR_LOOP_SCRIPT);
    let actual = execute_vec_result_result::<u32>(&cmd, &args, &data_envs("42 FOO 100", 0)).unwrap();

    assert_eq!(3, actual.len());
    assert_eq!(42, *actual[0].as_ref().unwrap());
    assert!(actual[1].is_err());
    assert_eq!(100, *actual[2].as_ref().unwrap());
}

#[test]
fn batch_of_results_returns_error_when_script_ends_with_failure() {
    let (cmd, args) = bash(FOR_LOOP_SCRIPT);
    let got = execute_vec_result_result::<u32>(&cmd, &args, &data_envs("42 100", 1));
    assert!(matches!(got, Err(Error::ProcessFailed(_))));
}

#[test]
fn batch_of_results_returns_error_when_script_is_invalid() {
    let args = vec!["invalid script iter".to_string()];
    let got = execute_vec_result_result::<u32>("dummy_invalid_command_123", &args, &envs(&[]));
    assert!(matches!(got, Err(Error::ProcessNotSpawned(_))));
}

#[test]
fn batch_of_values_keeps_only_parsed_values() {
    let (cmd, args) = bash(FOR_LOOP_SCRIPT);
    let actual = execute_vec_result_nopanic::<u32>(&cmd, &args, &data_envs("42 100 BAR", 0)).unwrap();
    assert_eq!(vec![42, 100], actual);
}

#[test]
fn batch_of_values_returns_error_when_script_ends_with_failure() {
    let (cmd, args) = bash(FOR_LOOP_SCRIPT);
    let got = execute_vec_result_nopanic::<u32>(&cmd, &args, &data_envs("42 FOO 100", 1));
    assert!(matches!(got, Err(Error::ProcessFailed(_))));
}

#[test]
fn unchecked_batch_keeps_collected_results_despite_failure() {
    let (cmd, args) = bash(FOR_LOOP_SCRIPT);
    let actual = execute_vec_nopanic_result::<u32>(&cmd, &args, &data_envs("42 FOO 100", 1));

    assert_eq!(3, actual.len());
    assert_eq!(42, *actual[0].as_ref().unwrap());
    assert!(actual[1].is_err());
    assert_eq!(100, *actual[2].as_ref().unwrap());
}

#[test]
fn unchecked_batch_is_empty_when_script_is_invalid() {
    let args = vec!["invalid script iter".to_string()];
    let actual = execute_vec_nopanic_result::<u32>("dummy_invalid_command_123", &args, &envs(&[]));
    assert!(actual.is_empty());
}

#[test]
fn unchecked_batch_of_values_drops_failures_and_status() {
    let (cmd, args) = bash(FOR_LOOP_SCRIPT);
    let actual = execute_vec_nopanic_nopanic::<u32>(&cmd, &args, &data_envs("42 FOO 100 BAR", 1));
    assert_eq!(vec![42, 100], actual);
}

#[test]
fn unchecked_batch_of_values_is_empty_when_script_is_invalid() {
    let args = vec!["invalid script iter".to_string()];
    let actual = execute_vec_nopanic_nopanic::<u32>("dummy_invalid_command_123", &args, &envs(&[]));
    assert!(actual.is_empty());
}

#[test]
fn fire_and_forget_ignores_an_invalid_command() {
    let args = vec!["invalid script".to_string()];
    execute_void_nopanic("dummy_invalid_command_123", &args, &envs(&[]))
}

#[test]
fn fire_and_forget_ignores_a_failing_script() {
    let (cmd, args) = bash("exit 1");
    execute_void_nopanic(&cmd, &args, &envs(&[]))
}

#[test]
fn every_propagate_cell_reports_an_unspawnable_program() {
    let args = vec!["echo 42".to_string()];
    let bad = "dummy_invalid_command_123";
    let none = envs(&[]);

    let scalar: Result<u32, _> = execute_parse_result(bad, &args, &none);
    assert!(matches!(scalar, Err(Error::ProcessNotSpawned(_))));

    let batch = execute_vec_result_result::<u32>(bad, &args, &none);
    assert!(matches!(batch, Err(Error::ProcessNotSpawned(_))));

    let stream = execute_iter_result_result::<u32>(bad, &args, &none);
    assert!(matches!(stream, Err(Error::ProcessNotSpawned(_))));

    let void = shellfn::execute_void_result(bad, &args, &none);
    assert!(matches!(void, Err(Error::ProcessNotSpawned(_))));
}

#[test]
fn scalar_reports_process_failure_before_parsing() {
    // The script prints a perfectly parsable value and then fails.
    let (cmd, args) = bash("echo -n 42; exit 3");
    let got: Result<u32, _> = execute_parse_result(&cmd, &args, &envs(&[]));
    match got {
        Err(Error::ProcessFailed(out)) => {
            assert_eq!(b"42".to_vec(), out.stdout);
            assert_eq!(Some(3), out.report.code);
            assert!(!out.report.success());
        },
        other => panic!("expected a process failure, got {:?}", other),
    }
}

#[test]
fn stream_still_yields_items_when_the_process_failed() {
    // The same run that the scalar profile rejects still yields its value
    // as a stream item: the exit status is observed only as the sequence
    // ending.
    let (cmd, args) = bash("echo 42; exit 3");
    let mut stream = execute_iter_result_result::<u32>(&cmd, &args, &envs(&[])).unwrap();
    let items = stream.collect_remaining();
    assert_eq!(1, items.len());
    assert_eq!(42, *items[0].as_ref().unwrap());
    assert!(matches!(stream.finish(), Err(Error::ProcessFailed(_))));
}

#[test]
fn stream_drain_equals_batch_list() {
    let (cmd, args) = bash(FOR_LOOP_SCRIPT);
    let bindings = data_envs("7 FOO 19 BAR 23", 0);

    let mut stream = execute_iter_result_result::<u32>(&cmd, &args, &bindings).unwrap();
    let streamed = stream.collect_remaining();
    let batched = execute_vec_result_result::<u32>(&cmd, &args, &bindings).unwrap();

    assert_eq!(streamed.len(), batched.len());
    for (a, b) in streamed.iter().zip(batched.iter()) {
        assert_eq!(a.is_ok(), b.is_ok());
        if let (Ok(x), Ok(y)) = (a, b) {
            assert_eq!(x, y);
        }
    }
}

#[test]
fn repeated_runs_of_a_deterministic_command_agree() {
    let (cmd, args) = bash("echo -n $X$Y");
    let bindings = envs(&[("X", "42"), ("Y", "24")]);
    let first: u32 = execute_parse_result(&cmd, &args, &bindings).unwrap();
    let second: u32 = execute_parse_result(&cmd, &args, &bindings).unwrap();
    assert_eq!(first, second);
}

#[test]
fn scalar_reports_output_that_is_not_text() {
    let (cmd, args) = bash(r"printf '\377'");
    let got: Result<String, _> = execute_parse_result(&cmd, &args, &envs(&[]));
    match got {
        Err(Error::NonUtf8Stdout(raw)) => assert_eq!(vec![0xffu8], raw),
        other => panic!("expected non-text output, got {:?}", other),
    }
}

#[test]
fn scalar_parse_failure_names_the_parse() {
    let (cmd, args) = bash("echo -n FOO");
    let got: Result<u32, _> = execute_parse_result(&cmd, &args, &envs(&[]));
    assert!(matches!(got, Err(Error::ParsingError(_))));
}

#[test]
fn stream_finish_accepts_a_successful_run() {
    let (cmd, args) = bash("echo 1");
    let mut stream = execute_iter_result_result::<u32>(&cmd, &args, &envs(&[])).unwrap();
    let _ = stream.collect_remaining();
    assert!(stream.finish().is_ok());
}

#[test]
fn stream_of_values_returns_error_when_script_is_invalid() {
    let args = vec!["invalid script iter".to_string()];
    let got = shellfn::execute_iter_result_nopanic::<u32>("dummy_invalid_command_123", &args, &envs(&[]));
    assert!(matches!(got, Err(Error::ProcessNotSpawned(_))));
}

#[test]
fn batch_of_values_returns_error_when_script_is_invalid() {
    let args = vec!["invalid script iter".to_string()];
    let got = execute_vec_result_nopanic::<u32>("dummy_invalid_command_123", &args, &envs(&[]));
    assert!(matches!(got, Err(Error::ProcessNotSpawned(_))));
}

#[test]
fn unchecked_batch_of_values_keeps_only_parsed_values() {
    let (cmd, args) = bash(FOR_LOOP_SCRIPT);
    let actual = execute_vec_nopanic_nopanic::<u32>(&cmd, &args, &data_envs("42 FOO 100 BAR", 0));
    assert_eq!(vec![42, 100], actual);
}

#[test]
fn finishing_a_stream_without_a_child_succeeds() {
    let args = vec!["echo 42".to_string()];
    let mut stream = shellfn::execute_iter_nopanic_result::<u32>("dummy_invalid_command_123", &args, &envs(&[]));
    assert!(stream.collect_remaining().is_empty());
    assert!(stream.finish().is_ok());
}

#[test]
fn a_failed_finish_carries_the_captured_output() {
    let (cmd, args) = bash("echo 42; exit 5");
    let mut stream = shellfn::execute_iter_result_result::<u32>(&cmd, &args, &envs(&[])).unwrap();
    let _ = stream.collect_remaining();
    match stream.finish() {
        Err(Error::ProcessFailed(out)) => {
            assert_eq!(b"42\n".to_vec(), out.stdout);
            assert_eq!(Some(5), out.report.code);
        },
        other => panic!("expected a process failure, got {:?}", other),
    }
}
