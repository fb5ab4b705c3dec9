use shellfn::execute_iter_nopanic_nopanic;
use shellfn::execute_iter_nopanic_result;
use shellfn::execute_iter_result_nopanic;
use shellfn::execute_iter_result_result;
use shellfn::execute_parse_result;
use shellfn::execute_vec_result_result;
use shellfn::execute_void_result;

fn bash(script: &str) -> (String, Vec<String>) {
    ("bash".to_string(), vec!["-c".to_string(), script.to_string()])
}

fn envs(pairs: &[(&str, &str)]) -> Vec<(String, String)> {
    pairs.iter().map(|(k, v)| (k.to_string(), v.to_string())).collect()
}

const FOR_LOOP_SCRIPT: &str = r#"
    for V in $DATA; do
        echo $V;
    done

    exit $EXIT_CODE
"#;

fn data_envs(data: &str, exit_code: u32) -> Vec<(String, String)> {
    envs(&[("DATA", data), ("EXIT_CODE", &exit_code.to_string())])
}

#[test]
fn runs_simple_bash_script() {
    let (cmd, args) = bash(
        r#"
        echo -n "Hello, bash!"
    "#,
    );
    let out: String = execute_parse_result(&cmd, &args, &envs(&[])).unwrap();
    assert_eq!("Hello, bash!", out);
}

#[test]
fn sets_env_vars() {
    let (cmd, args) = bash(
        r#"
        echo -n "Hello, $WORLD! The answer is $FOO"
    "#,
    );
    let bindings = envs(&[("WORLD", "world"), ("FOO", "42")]);
    let out: String = execute_parse_result(&cmd, &args, &bindings).unwrap();
    assert_eq!("Hello, world! The answer is 42", out);
}

#[test]
fn parses_return_value() {
    let (cmd, args) = bash(
        r#"
        echo -n $X$Y
    "#,
    );
    let bindings = envs(&[("X", "42"), ("Y", "24")]);
    let joined: u32 = execute_parse_result(&cmd, &args, &bindings).unwrap();
    assert_eq!(4224, joined);
}

#[test]
fn does_nothing_when_script_ends_with_success() {
    let (cmd, args) = bash(
        r#"
                    echo -n ""
                "#,
    );
    execute_void_result(&cmd, &args, &envs(&[])).unwrap()
}

#[test]
fn tests_does_nothing_when_script_ends_with_success() {
    let (cmd, args) = bash(
        r#"
                sleep $INTERVAL
            "#,
    );
    execute_void_result(&cmd, &args, &envs(&[("INTERVAL", "0")])).unwrap()
}

#[test]
fn returns_ok_when_script_ends_with_success() {
    let (cmd, args) = bash(
        r#"
                sleep $INTERVAL
            "#,
    );
    assert!(execute_void_result(&cmd, &args, &envs(&[("INTERVAL", "0")])).is_ok())
}

#[test]
fn returns_error_when_script_ends_with_failure() {
    let (cmd, args) = bash(
        r#"
                sleep $INTERVAL
            "#,
    );
    assert!(execute_void_result(&cmd, &args, &envs(&[("INTERVAL", "DEFINITELY_NOT_INT")])).is_err())
}

#[test]
fn returns_error_when_script_is_invalid() {
    let args = vec![
        r#"
                invalid script
            "#
        .to_string(),
    ];
    assert!(execute_void_result("dummy_invalid_command_123", &args, &envs(&[])).is_err())
}

#[test]
fn returns_parsed_value_when_script_ends_with_success() {
    let (cmd, args) = bash(
        r#"
                echo -n $DATA
                exit $EXIT_CODE
            "#,
    );
    let got: u32 = execute_parse_result(&cmd, &args, &data_envs("42", 0)).unwrap();
    assert_eq!(42, got);
}

#[test]
fn tests_returns_parsed_value_when_script_ends_with_success() {
    let (cmd, args) = bash(
        r#"
                echo -n $DATA
                exit $EXIT_CODE
            "#,
    );
    let got: Result<u32, _> = execute_parse_result(&cmd, &args, &data_envs("42", 0));
    assert_eq!(42, got.unwrap());
}

#[test]
fn returns_error_when_parsing_fails() {
    let (cmd, args) = bash(
        r#"
                echo -n $DATA
                exit $EXIT_CODE
            "#,
    );
    let got: Result<u32, _> = execute_parse_result(&cmd, &args, &data_envs("DEFINITELY_NOT_INT", 0));
    assert!(got.is_err())
}

#[test]
fn tests_returns_error_when_script_ends_with_failure() {
    let (cmd, args) = bash(
        r#"
                echo -n $DATA
                exit $EXIT_CODE
            "#,
    );
    let got: Result<u32, _> = execute_parse_result(&cmd, &args, &data_envs("42", 1));
    assert!(got.is_err())
}

#[test]
fn tests_returns_error_when_script_is_invalid() {
    let args = vec![
        r#"
                invalid script
            "#
        .to_string(),
    ];
    let got: Result<u32, _> = execute_parse_result("dummy_invalid_command_123", &args, &envs(&[]));
    assert!(got.is_err())
}

#[test]
fn returns_parsed_values_when_script_ends_with_success() {
    let (cmd, args) = bash(FOR_LOOP_SCRIPT);
    let mut stream = execute_iter_result_result::<u32>(&cmd, &args, &data_envs("42 100", 0)).unwrap();
    let actual: Vec<u32> = stream.collect_remaining().into_iter().map(Result::unwrap).collect();
    assert_eq!(vec![42, 100], actual)
}

#[test]
fn tests_returns_parsed_values_when_script_ends_with_success() {
    let (cmd, args) = bash(FOR_LOOP_SCRIPT);
    let items = execute_vec_result_result::<u32>(&cmd, &args, &data_envs("42 100", 0)).unwrap();
    let actual: Vec<u32> = items.into_iter().map(Result::unwrap).collect();
    assert_eq!(vec![42, 100], actual)
}

#[test]
fn returns_parsed_values_when_script_ends_with_failure() {
    let (cmd, args) = bash(FOR_LOOP_SCRIPT);
    let mut stream = execute_iter_result_result::<u32>(&cmd, &args, &data_envs("42 100", 1)).unwrap();
    let actual: Vec<u32> = stream.collect_remaining().into_iter().map(Result::unwrap).collect();
    assert_eq!(vec![42, 100], actual)
}

#[test]
fn returns_only_successfuly_parsed_values_when_script_ends_with_success() {
    let (cmd, args) = bash(FOR_LOOP_SCRIPT);
    let mut stream = execute_iter_nopanic_nopanic::<u32>(&cmd, &args, &data_envs("42 FOO 100 BAR", 0));
    assert_eq!(vec![42, 100], stream.collect_remaining())
}

#[test]
fn tests_returns_only_successfuly_parsed_values_when_script_ends_with_success() {
    let (cmd, args) = bash(FOR_LOOP_SCRIPT);
    let mut stream = execute_iter_result_nopanic::<u32>(&cmd, &args, &data_envs("42 100 BAR", 0)).unwrap();
    assert_eq!(vec![42, 100], stream.collect_remaining())
}

#[test]
fn returns_only_successfuly_parsed_values_when_script_ends_with_failure() {
    let (cmd, args) = bash(FOR_LOOP_SCRIPT);
    let mut stream = execute_iter_nopanic_nopanic::<u32>(&cmd, &args, &data_envs("42 FOO 100", 1));
    assert_eq!(vec![42, 100], stream.collect_remaining())
}

#[test]
fn tests_returns_only_successfuly_parsed_values_when_script_ends_with_failure() {
    let (cmd, args) = bash(FOR_LOOP_SCRIPT);
    let mut stream = execute_iter_result_nopanic::<u32>(&cmd, &args, &data_envs("42 FOO 100", 1)).unwrap();
    assert_eq!(vec![42, 100], stream.collect_remaining())
}

#[test]
fn returns_no_items_when_script_is_invalid() {
    let args = vec![
        r#"
                invalid script iter
            "#
        .to_string(),
    ];
    let mut stream = execute_iter_nopanic_nopanic::<u32>("dummy_invalid_command_123", &args, &envs(&[]));
    assert!(stream.collect_remaining().is_empty())
}

#[test]
fn tests_returns_no_items_when_script_is_invalid() {
    let args = vec![
        r#"
                invalid script iter
            "#
        .to_string(),
    ];
    let mut stream = execute_iter_nopanic_result::<u32>("dummy_invalid_command_123", &args, &envs(&[]));
    assert!(stream.collect_remaining().is_empty())
}

#[test]
fn returns_parsing_results_when_script_ends_with_success() {
    let (cmd, args) = bash(FOR_LOOP_SCRIPT);
    let mut stream = execute_iter_result_result::<u32>(&cmd, &args, &data_envs("42 FOO 100", 0)).unwrap();
    let actual = stream.collect_remaining();

    assert_eq!(3, actual.len());
    assert_eq!(42, *actual[0].as_ref().unwrap());
    assert!(actual[1].is_err());
    assert_eq!(100, *actual[2].as_ref().unwrap());
}

#[test]
fn tests_returns_parsing_results_when_script_ends_with_success() {
    let (cmd, args) = bash(FOR_LOOP_SCRIPT);
    let mut stream = execute_iter_nopanic_result::<u32>(&cmd, &args, &data_envs("42 FOO 100 BAR", 0));
    let actual = stream.collect_remaining();

    assert_eq!(4, actual.len());
    assert_eq!(42, *actual[0].as_ref().unwrap());
    assert!(actual[1].is_err());
    assert_eq!(100, *actual[2].as_ref().unwrap());
    assert!(actual[3].is_err());
}

#[test]
fn returns_parsing_results_when_script_ends_with_failure() {
    let (cmd, args) = bash(FOR_LOOP_SCRIPT);
    let mut stream = execute_iter_nopanic_result::<u32>(&cmd, &args, &data_envs("42 FOO 100", 1));
    let actual = stream.collect_remaining();

    assert_eq!(3, actual.len());
    assert_eq!(42, *actual[0].as_ref().unwrap());
    assert!(actual[1].is_err());
    assert_eq!(100, *actual[2].as_ref().unwrap());
}

#[test]
fn tests_returns_parsing_results_when_script_ends_with_failure() {
    let (cmd, args) = bash(FOR_LOOP_SCRIPT);
    let mut stream = execute_iter_result_result::<u32>(&cmd, &args, &data_envs("BAR 42 FOO 100", 1)).unwrap();
    let actual = stream.collect_remaining();

    assert_eq!(4, actual.len());
    assert!(actual[0].is_err());
    assert_eq!(42, *actual[1].as_ref().unwrap());
    assert!(actual[2].is_err());
    assert_eq!(100, *actual[3].as_ref().unwrap());
}
