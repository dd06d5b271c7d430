use ipc_bench::config::{program_name_or_default, BenchmarkConfig, OutputFormat, ProcessRole};

fn strings(items: &[&str]) -> Vec<String> {
    items.iter().map(|s| s.to_string()).collect()
}

#[test]
fn parses_short_and_long_flags() {
    let config = BenchmarkConfig::from_args(
        vec![
            "-c".to_owned(),
            "25".to_owned(),
            "--message-size".to_owned(),
            "512".to_owned(),
            "-w".to_owned(),
            "5".to_owned(),
            "--trials".to_owned(),
            "2".to_owned(),
            "--format".to_owned(),
            "json".to_owned(),
            "--role".to_owned(),
            "child".to_owned(),
        ],
        "ipc-bench",
    )
    .expect("config should parse");

    assert_eq!(config.message_count, 25);
    assert_eq!(config.message_size, 512);
    assert_eq!(config.warmup_count, 5);
    assert_eq!(config.trials, 2);
    assert_eq!(config.output_format, OutputFormat::Json);
    assert_eq!(config.role, ProcessRole::Child);
}

#[test]
fn child_args_preserve_parent_configuration() {
    let config = BenchmarkConfig {
        message_count: 7,
        message_size: 128,
        warmup_count: 2,
        trials: 4,
        output_format: OutputFormat::Json,
        role: ProcessRole::Parent,
    };

    let child = BenchmarkConfig::from_args(config.child_args().into_iter().collect(), "ipc-bench")
        .expect("child args should round-trip");

    assert_eq!(child.message_count, 7);
    assert_eq!(child.message_size, 128);
    assert_eq!(child.warmup_count, 2);
    assert_eq!(child.trials, 4);
    assert_eq!(child.output_format, OutputFormat::Json);
    assert_eq!(child.role, ProcessRole::Child);
}

#[test]
fn rejects_zero_message_count() {
    let error = BenchmarkConfig::from_args(
        vec!["--message-count".to_owned(), "0".to_owned()],
        "ipc-bench",
    )
    .expect_err("zero message count should fail");

    assert!(error.contains("message count"));
}

#[test]
fn no_arguments_give_the_defaults() {
    let config = BenchmarkConfig::from_args(Vec::new(), "ipc-bench").unwrap();
    assert_eq!(config, BenchmarkConfig::default());
    assert_eq!(config.message_count, 1000);
    assert_eq!(config.message_size, 1000);
    assert_eq!(config.warmup_count, 100);
    assert_eq!(config.trials, 3);
    assert_eq!(config.output_format, OutputFormat::Text);
    assert_eq!(config.role, ProcessRole::Parent);
}

#[test]
fn later_flags_override_earlier_ones() {
    let config =
        BenchmarkConfig::from_args(strings(&["-s", "1", "--message-size", "+64", "-t", "9"]), "p")
            .unwrap();
    assert_eq!(config.message_size, 64);
    assert_eq!(config.trials, 9);
}

#[test]
fn rejects_zero_trials() {
    let error = BenchmarkConfig::from_args(strings(&["-t", "0"]), "p").unwrap_err();
    assert_eq!(error, "trials must be greater than zero");
}

#[test]
fn zero_message_count_text() {
    let error = BenchmarkConfig::from_args(strings(&["-c", "0", "-t", "0"]), "p").unwrap_err();
    assert_eq!(error, "message count must be greater than zero");
}

#[test]
fn missing_values_are_named_by_flag() {
    assert_eq!(
        BenchmarkConfig::from_args(strings(&["-w"]), "p").unwrap_err(),
        "missing value for -w"
    );
    assert_eq!(
        BenchmarkConfig::from_args(strings(&["--format"]), "p").unwrap_err(),
        "missing value for --format"
    );
    assert_eq!(
        BenchmarkConfig::from_args(strings(&["--role"]), "p").unwrap_err(),
        "missing value for --role"
    );
}

#[test]
fn invalid_counts_are_named_by_label() {
    assert_eq!(
        BenchmarkConfig::from_args(strings(&["-c", "ten"]), "p").unwrap_err(),
        "invalid message count `ten`"
    );
    assert_eq!(
        BenchmarkConfig::from_args(strings(&["--warmup-count", "-1"]), "p").unwrap_err(),
        "invalid warmup count `-1`"
    );
    assert_eq!(
        BenchmarkConfig::from_args(strings(&["-s", "99999999999999999999999"]), "p").unwrap_err(),
        "invalid message size `99999999999999999999999`"
    );
    assert_eq!(
        BenchmarkConfig::from_args(strings(&["-t", ""]), "p").unwrap_err(),
        "invalid trials ``"
    );
}

#[test]
fn invalid_format_and_role() {
    assert_eq!(
        BenchmarkConfig::from_args(strings(&["--format", "xml"]), "p").unwrap_err(),
        "invalid output format `xml`; expected `text` or `json`"
    );
    assert_eq!(
        BenchmarkConfig::from_args(strings(&["--role", "server"]), "p").unwrap_err(),
        "invalid process role `server`; expected `parent` or `child`"
    );
}

#[test]
fn help_gives_the_usage_text() {
    let usage = BenchmarkConfig::usage("tcp-loopback");
    assert!(usage.starts_with("Usage: tcp-loopback [options]\n\nOptions:\n"));
    assert!(usage.ends_with("--role <ROLE>        Internal process role: parent | child"));
    assert_eq!(usage.lines().count(), 9);
    assert_eq!(
        BenchmarkConfig::from_args(strings(&["--help"]), "tcp-loopback").unwrap_err(),
        usage
    );
    assert_eq!(
        BenchmarkConfig::from_args(strings(&["-h"]), "tcp-loopback").unwrap_err(),
        usage
    );
}

#[test]
fn unknown_argument_is_shown_with_the_usage_text() {
    let error = BenchmarkConfig::from_args(strings(&["--bogus"]), "anon-pipe").unwrap_err();
    assert_eq!(
        error,
        format!(
            "unrecognized argument `--bogus`\n\n{}",
            BenchmarkConfig::usage("anon-pipe")
        )
    );
}

#[test]
fn args_for_role_lists_every_setting() {
    let config = BenchmarkConfig {
        message_count: 1,
        message_size: 0,
        warmup_count: 18446744073709551615,
        trials: 42,
        output_format: OutputFormat::Text,
        role: ProcessRole::Child,
    };
    assert_eq!(
        config.args_for_role(ProcessRole::Parent),
        strings(&[
            "--message-count",
            "1",
            "--message-size",
            "0",
            "--warmup-count",
            "18446744073709551615",
            "--trials",
            "42",
            "--format",
            "text",
            "--role",
            "parent"
        ])
    );
    let back = BenchmarkConfig::from_args(config.args_for_role(ProcessRole::Parent), "p").unwrap();
    assert_eq!(back, BenchmarkConfig { role: ProcessRole::Parent, ..config });
}

#[test]
fn program_name_falls_back_when_unknown() {
    assert_eq!(program_name_or_default(None), "ipc-bench");
    assert_eq!(program_name_or_default(Some(String::new())), "ipc-bench");
    assert_eq!(program_name_or_default(Some("alpc".to_string())), "alpc");
}

#[test]
fn later_format_and_role_override_earlier_ones() {
    let base = strings(&["-c", "5", "--format", "json", "--role", "child"]);
    let first = BenchmarkConfig::from_args(base.clone(), "p").unwrap();
    let mut again = base.clone();
    again.extend(strings(&["--format", "text"]));
    let second = BenchmarkConfig::from_args(again, "p").unwrap();
    assert_eq!(second, BenchmarkConfig { output_format: OutputFormat::Text, ..first });
    let mut again = base;
    again.extend(strings(&["-w", "7"]));
    let third = BenchmarkConfig::from_args(again, "p").unwrap();
    assert_eq!(third, BenchmarkConfig { warmup_count: 7, ..first });
}
