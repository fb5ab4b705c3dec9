use shellfn::collect_items;
use shellfn::collect_values;
use shellfn::parse_line;
use shellfn::parse_u32_text;
use shellfn::replace_all;
use shellfn::split_lines;
use shellfn::substitute_arg;
use shellfn::to_upper_ascii;
use shellfn::Attributes;
use shellfn::BlockBuilder;
use shellfn::Error;
use shellfn::ExecuteFn;
use shellfn::OutputType;

fn strings(words: &[&str]) -> Vec<String> {
    words.iter().map(|w| w.to_string()).collect()
}

#[test]
fn parses_plain_decimals() {
    assert_eq!(Ok(42), parse_u32_text("42").map_err(|_| ()));
    assert_eq!(Ok(0), parse_u32_text("0").map_err(|_| ()));
    assert_eq!(Ok(4294967295), parse_u32_text("4294967295").map_err(|_| ()));
}

#[test]
fn rejects_text_that_is_no_plain_decimal() {
    assert!(parse_u32_text("").is_err());
    assert!(parse_u32_text("DEFINITELY_NOT_INT").is_err());
    assert!(parse_u32_text("+42").is_err());
    assert!(parse_u32_text("4 2").is_err());
    assert!(parse_u32_text("4294967296").is_err());
    assert!(parse_u32_text("99999999999999999999").is_err());
}

#[test]
fn splits_output_into_lines() {
    let lines = split_lines(&b"42\nFOO\n100\n".to_vec());
    assert_eq!(vec![b"42".to_vec(), b"FOO".to_vec(), b"100".to_vec()], lines);
}

#[test]
fn splitting_respects_edge_cases() {
    assert!(split_lines(&Vec::new()).is_empty());
    assert_eq!(vec![b"tail".to_vec()], split_lines(&b"tail".to_vec()));
    assert_eq!(vec![b"a".to_vec(), b"b".to_vec()], split_lines(&b"a\r\nb\n".to_vec()));
    assert_eq!(vec![b"".to_vec(), b"".to_vec()], split_lines(&b"\n\n".to_vec()));
    assert_eq!(vec![b"a\rb".to_vec()], split_lines(&b"a\rb\n".to_vec()));
}

#[test]
fn item_policy_propagate_yields_one_result_per_line() {
    let lines = split_lines(&b"42\nFOO\n100\n".to_vec());
    let items: Vec<Result<u32, Error<_>>> = collect_items(&lines, None);

    assert_eq!(3, items.len());
    assert_eq!(42, *items[0].as_ref().unwrap());
    assert!(matches!(items[1], Err(Error::ParsingError(_))));
    assert_eq!(100, *items[2].as_ref().unwrap());
}

#[test]
fn item_policy_drop_keeps_only_values() {
    let lines = split_lines(&b"42\nFOO\n100\n".to_vec());
    let values: Vec<u32> = collect_values(&lines);
    assert_eq!(vec![42, 100], values);
}

#[test]
fn a_read_failure_is_one_trailing_item() {
    let lines = split_lines(&b"42\n".to_vec());
    let items: Vec<Result<u32, Error<_>>> = collect_items(&lines, Some("broken pipe".to_string()));
    assert_eq!(2, items.len());
    assert_eq!(42, *items[0].as_ref().unwrap());
    assert!(matches!(items[1], Err(Error::StdoutUnreadable(_))));
}

#[test]
fn a_line_that_is_not_text_fails_as_an_item() {
    let item: Result<String, Error<_>> = parse_line(vec![0xff, 0xfe]);
    match item {
        Err(Error::NonUtf8Stdout(raw)) => assert_eq!(vec![0xff, 0xfe], raw),
        other => panic!("expected non-text line, got {:?}", other),
    }
}

#[test]
fn uppercases_argument_names() {
    assert_eq!("WORLD", to_upper_ascii("world"));
    assert_eq!("EXIT_CODE", to_upper_ascii("exit_code"));
    assert_eq!("ALREADY42", to_upper_ascii("ALREADY42"));
}

#[test]
fn replaces_every_occurrence() {
    assert_eq!("b.b.b", replace_all("a.a.a", "a", "b"));
    assert_eq!("keep", replace_all("keep", "x", "y"));
    assert_eq!("", replace_all("", "x", "y"));
}

#[test]
fn substitutes_environment_placeholders() {
    let envs = vec![("WORLD".to_string(), "world".to_string())];
    assert_eq!("world", substitute_arg("$WORLD", &envs));
    assert_eq!("hello world!", substitute_arg("hello $WORLD!", &envs));
}

#[test]
fn substitutes_bindings_in_order() {
    let envs = vec![
        ("X".to_string(), "42".to_string()),
        ("Y".to_string(), "24".to_string()),
    ];
    assert_eq!("echo -n 4224", substitute_arg("echo -n $X$Y", &envs));
}

#[test]
fn default_attributes_run_bash() {
    let attrs = Attributes::default();
    assert_eq!("bash -c", attrs.cmd);
    assert!(!attrs.no_panic);
}

#[test]
fn command_template_words_become_program_and_args() {
    let b = BlockBuilder::new().with_attrs(Attributes::default()).unwrap();
    assert_eq!("bash", b.cmd);
    assert_eq!(strings(&["-c", "PROGRAM"]), b.args);
}

#[test]
fn an_explicit_program_slot_is_kept_where_it_stands() {
    let attrs = Attributes { cmd: "python -c PROGRAM --world python".to_string(), no_panic: false };
    let b = BlockBuilder::new().with_attrs(attrs).unwrap();
    assert_eq!("python", b.cmd);
    assert_eq!(strings(&["-c", "PROGRAM", "--world", "python"]), b.args);
}

#[test]
fn a_template_with_mismatched_quotes_resolves_to_nothing() {
    let attrs = Attributes { cmd: "bash -c \"oops".to_string(), no_panic: false };
    assert!(BlockBuilder::new().with_attrs(attrs).is_none());
}

#[test]
fn an_empty_template_resolves_to_nothing() {
    let attrs = Attributes { cmd: "".to_string(), no_panic: false };
    assert!(BlockBuilder::new().with_attrs(attrs).is_none());
}

#[test]
fn build_realizes_the_invocation() {
    let names = strings(&["x", "y"]);
    let b = BlockBuilder::new()
        .with_program("echo -n $X$Y".to_string())
        .with_attrs(Attributes::default())
        .unwrap()
        .with_args(&names);
    let values = strings(&["42", "24"]);
    let inv = b.build(&values);

    assert_eq!("bash", inv.program);
    assert_eq!(strings(&["-c", "echo -n 4224"]), inv.args);
    assert_eq!(
        vec![("X".to_string(), "42".to_string()), ("Y".to_string(), "24".to_string())],
        inv.envs
    );
}

#[test]
fn build_without_a_program_drops_the_slot() {
    let b = BlockBuilder::new().with_attrs(Attributes::default()).unwrap();
    let inv = b.build(&Vec::new());
    assert_eq!("bash", inv.program);
    assert_eq!(strings(&["-c"]), inv.args);
}

#[test]
fn the_selector_realizes_the_documented_table() {
    let mut b = BlockBuilder::new().with_attrs(Attributes::default()).unwrap();
    assert_eq!(ExecuteFn::ParsePanic, b.select_execute_fn());

    b.with_outer_result(true);
    assert_eq!(ExecuteFn::ParseResult, b.select_execute_fn());

    b.with_unit_return_type();
    assert_eq!(ExecuteFn::VoidResult, b.select_execute_fn());
    b.with_outer_result(false);
    assert_eq!(ExecuteFn::VoidPanic, b.select_execute_fn());
    b.no_panic = true;
    assert_eq!(ExecuteFn::VoidNopanic, b.select_execute_fn());

    b.with_iter_return_type(true);
    assert_eq!(ExecuteFn::IterNopanicResult, b.select_execute_fn());
    b.no_panic = false;
    assert_eq!(ExecuteFn::IterPanicResult, b.select_execute_fn());
    b.with_outer_result(true);
    assert_eq!(ExecuteFn::IterResultResult, b.select_execute_fn());
    b.with_iter_return_type(false);
    assert_eq!(ExecuteFn::IterResultPanic, b.select_execute_fn());
    b.no_panic = true;
    assert_eq!(ExecuteFn::IterResultNopanic, b.select_execute_fn());

    b.with_vec_return_type(true);
    assert_eq!(ExecuteFn::VecResultResult, b.select_execute_fn());
    b.with_vec_return_type(false);
    assert_eq!(ExecuteFn::VecResultNopanic, b.select_execute_fn());
    b.no_panic = false;
    assert_eq!(ExecuteFn::VecResultPanic, b.select_execute_fn());
    b.with_outer_result(false);
    assert_eq!(ExecuteFn::VecPanicPanic, b.select_execute_fn());
    b.no_panic = true;
    assert_eq!(ExecuteFn::VecNopanicNopanic, b.select_execute_fn());
    b.with_vec_return_type(true);
    assert_eq!(ExecuteFn::VecNopanicResult, b.select_execute_fn());
    b.no_panic = false;
    assert_eq!(ExecuteFn::VecPanicResult, b.select_execute_fn());
}

#[test]
fn the_default_shape_is_one_value() {
    assert_eq!(OutputType::Scalar, OutputType::default());
}

#[test]
fn a_built_invocation_runs_as_its_cells_promise() {
    let names = strings(&["world", "foo"]);
    let b = BlockBuilder::new()
        .with_program(
            r#"
        echo -n "Hello, $WORLD! The answer is $FOO"
    "#
            .to_string(),
        )
        .with_attrs(Attributes::default())
        .unwrap()
        .with_args(&names);
    let inv = b.build(&strings(&["world", "42"]));
    let out: String = shellfn::execute_parse_result(&inv.program, &inv.args, &inv.envs).unwrap();
    assert_eq!("Hello, world! The answer is 42", out);
}

#[test]
fn a_replayed_stream_serves_lines_one_pull_at_a_time() {
    let source = shellfn::LineStream::from_bytes(b"42\nFOO\n100\n".to_vec(), None);
    let mut stream: shellfn::ItemStream<u32> = shellfn::ItemStream::from_source(source);

    assert_eq!(42, stream.next_item().unwrap().unwrap());
    assert!(stream.next_item().unwrap().is_err());
    assert_eq!(100, stream.next_item().unwrap().unwrap());
    assert!(stream.next_item().is_none());
}

#[test]
fn a_drained_stream_equals_the_batch_collection() {
    let bytes = b"7\nx\n19\n\n23".to_vec();
    let source = shellfn::LineStream::from_bytes(bytes.clone(), None);
    let mut stream: shellfn::ItemStream<u32> = shellfn::ItemStream::from_source(source);
    let streamed = stream.collect_remaining();

    let lines = split_lines(&bytes);
    let batched: Vec<Result<u32, Error<_>>> = collect_items(&lines, None);

    assert_eq!(streamed.len(), batched.len());
    for (a, b) in streamed.iter().zip(batched.iter()) {
        assert_eq!(a.is_ok(), b.is_ok());
        if let (Ok(x), Ok(y)) = (a, b) {
            assert_eq!(x, y);
        }
    }
}

#[test]
fn a_stream_serves_a_read_failure_as_its_last_item() {
    let source = shellfn::LineStream::from_bytes(b"42\n".to_vec(), Some("broken pipe".to_string()));
    let mut stream: shellfn::ItemStream<u32> = shellfn::ItemStream::from_source(source);

    assert_eq!(42, stream.next_item().unwrap().unwrap());
    assert!(matches!(stream.next_item(), Some(Err(Error::StdoutUnreadable(_)))));
    assert!(stream.next_item().is_none());
}

#[test]
fn a_value_stream_skips_what_does_not_parse() {
    let source = shellfn::LineStream::from_bytes(
        b"42\nFOO\n100\nBAR\n".to_vec(),
        Some("broken pipe".to_string()),
    );
    let mut stream: shellfn::ValueStream<u32> = shellfn::ValueStream::from_source(source);
    assert_eq!(vec![42, 100], stream.collect_remaining());
}

#[test]
fn every_failure_kind_describes_itself() {
    let spawn: Error<()> = Error::ProcessNotSpawned("no such file".to_string());
    assert_eq!("could not spawn subprocess", spawn.describe());
    let parse: Error<()> = Error::ParsingError(());
    assert_eq!("could not parse subprocess output", parse.describe());
    let raw: Error<()> = Error::NonUtf8Stdout(vec![0xff]);
    assert_eq!("subprocess stdout contains non-utf8 characters", raw.describe());
    let read: Error<()> = Error::StdoutUnreadable("broken pipe".to_string());
    assert_eq!("could not read subprocess stdout", read.describe());
    let wait: Error<()> = Error::WaitFailed("interrupted".to_string());
    assert_eq!("subprocess failed", wait.describe());
}
