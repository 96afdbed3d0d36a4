use rust_cmd_arg::walk::read_value;
use rust_cmd_arg::{
    AbortReason, AccessError, Argument, CommandLineProcessor, FloatValue, ParameterType,
    ParameterValue, ParseStatus, EXIT_ABORTED, EXIT_MISSING_REQUIRED,
};

fn arguments(tokens: &[&str]) -> Vec<Argument> {
    tokens
        .iter()
        .map(|token| {
            let float = token
                .parse::<f64>()
                .ok()
                .map(|number| FloatValue::new(number.to_bits(), format!("{}", number)));
            Argument::new(token.to_string(), float)
        })
        .collect()
}

fn declare(
    processor: &mut CommandLineProcessor,
    name: &str,
    kind: ParameterType,
    allow_empty: bool,
    alias: &str,
) -> usize {
    processor.add_parameter_detail(
        name,
        kind,
        allow_empty,
        ParameterValue::Unset,
        "",
        vec![alias.to_string()],
    )
}

#[test]
fn path_round_trip() {
    let mut processor = CommandLineProcessor::new();
    let path = processor.add_parameter_detail(
        "path",
        ParameterType::Path,
        false,
        ParameterValue::Unset,
        "file path",
        vec!["-p".to_string()],
    );
    let report = processor.parse_command_line(&arguments(&["-p", "/tmp/x"]));
    assert_eq!(report.status, ParseStatus::Complete);
    assert!(report.reasons.is_empty());
    assert!(!processor.abort_flag());
    let read = processor.parameter(path).unwrap().to_path_value();
    assert_eq!(read, Ok("/tmp/x".to_string()));
    assert_eq!(
        std::path::PathBuf::from(read.unwrap()),
        std::path::PathBuf::from("/tmp/x")
    );
}

#[test]
fn malformed_integer_is_a_conversion_failure() {
    let mut processor = CommandLineProcessor::new();
    let value = processor.add_parameter_detail(
        "value",
        ParameterType::Integer,
        false,
        ParameterValue::Unset,
        "value",
        vec!["-v".to_string()],
    );
    let report = processor.parse_command_line(&arguments(&["-v", "not_a_number"]));
    assert_eq!(report.status, ParseStatus::Aborted);
    assert_eq!(
        report.reasons,
        vec![AbortReason::ConversionFailure { parameter: value, position: 1 }]
    );
    assert_eq!(report.status.exit_code(), Some(EXIT_ABORTED));
    assert!(processor.abort_flag());
    assert_eq!(processor.get_parameter_value("value"), Some(&ParameterValue::Unset));
}

#[test]
fn flag_does_not_take_the_next_token() {
    let mut processor = CommandLineProcessor::new();
    let verbose = processor.add_simple_parameter("verbose", ParameterType::Flag, "");
    let path = processor.add_simple_parameter("path", ParameterType::String, "");
    let report = processor.parse_command_line(&arguments(&["--verbose", "--path", "x"]));
    assert_eq!(report.status, ParseStatus::Complete);
    assert_eq!(processor.parameter(verbose).unwrap().get_value(), &ParameterValue::Flag);
    assert_eq!(processor.parameter(path).unwrap().to_string_value(), Ok("x".to_string()));
}

#[test]
fn well_formed_integers_read_back_exactly() {
    let cases: [(&str, i64); 8] = [
        ("0", 0),
        ("42", 42),
        ("-42", -42),
        ("+42", 42),
        ("007", 7),
        ("-0", 0),
        ("9223372036854775807", i64::MAX),
        ("-9223372036854775808", i64::MIN),
    ];
    for (token, number) in cases {
        let mut processor = CommandLineProcessor::new();
        let slot = declare(&mut processor, "n", ParameterType::Integer, false, "-n");
        let report = processor.parse_command_line(&arguments(&["-n", token]));
        assert_eq!(report.status, ParseStatus::Complete, "{:?}", token);
        assert_eq!(processor.parameter(slot).unwrap().to_int_value(), Ok(number));
        assert_eq!(
            processor.get_parameter_value("n"),
            Some(&ParameterValue::Integer(number))
        );
    }
}

#[test]
fn malformed_integers_abort_with_a_conversion_failure() {
    let malformed = [
        "not_a_number", "1.5", " 1", "1 ", "+", "-", "1_000", "0x10", "٣",
        "9223372036854775808", "-9223372036854775809",
    ];
    for token in malformed {
        let mut processor = CommandLineProcessor::new();
        let slot = declare(&mut processor, "n", ParameterType::Integer, true, "-n");
        let report = processor.parse_command_line(&arguments(&["-n", token]));
        assert_eq!(report.status, ParseStatus::Aborted, "{:?}", token);
        assert_eq!(
            report.reasons,
            vec![AbortReason::ConversionFailure { parameter: slot, position: 1 }]
        );
        assert!(processor.abort_flag());
        assert_eq!(processor.get_parameter_value("n"), Some(&ParameterValue::Unset));
    }
}

#[test]
fn help_token_stops_before_any_value_changes() {
    for token in ["--help", "--h"] {
        let mut processor = CommandLineProcessor::new();
        processor.add_can_empty_parameter(
            "level",
            ParameterType::Integer,
            ParameterValue::Integer(3),
            "",
        );
        processor.add_simple_parameter("name", ParameterType::String, "");
        processor.add_simple_parameter("force", ParameterType::Flag, "");
        let report = processor.parse_command_line(&arguments(&[token]));
        assert_eq!(report.status, ParseStatus::Aborted);
        assert_eq!(report.reasons, vec![AbortReason::HelpRequested]);
        assert!(processor.abort_flag());
        assert_eq!(processor.get_parameter_value("level"), Some(&ParameterValue::Integer(3)));
        assert_eq!(processor.get_parameter_value("name"), Some(&ParameterValue::Unset));
        assert_eq!(processor.get_parameter_value("force"), Some(&ParameterValue::Unset));
    }
}

#[test]
fn help_token_ends_the_walk_where_it_stands() {
    let mut processor = CommandLineProcessor::new();
    processor.add_simple_parameter("a", ParameterType::Integer, "");
    processor.add_simple_parameter("b", ParameterType::Integer, "");
    let report =
        processor.parse_command_line(&arguments(&["--a", "1", "--help", "--b", "2", "--zzz"]));
    assert_eq!(report.status, ParseStatus::Aborted);
    assert_eq!(report.reasons, vec![AbortReason::HelpRequested]);
    assert_eq!(processor.get_parameter_value("a"), Some(&ParameterValue::Integer(1)));
    assert_eq!(processor.get_parameter_value("b"), Some(&ParameterValue::Unset));
}

#[test]
fn version_token_stops_before_any_value_changes() {
    for token in ["--version", "--v"] {
        let mut processor = CommandLineProcessor::new();
        processor.set_version_text("1.0");
        processor.add_simple_parameter("name", ParameterType::String, "");
        let report = processor.parse_command_line(&arguments(&[token, "--name", "x"]));
        assert_eq!(report.status, ParseStatus::Aborted);
        assert_eq!(report.reasons, vec![AbortReason::VersionRequested]);
        assert!(processor.abort_flag());
        assert_eq!(processor.get_parameter_value("name"), Some(&ParameterValue::Unset));
        assert_eq!(processor.version_text(), Some("1.0"));
    }
}

#[test]
fn control_tokens_are_matched_exactly() {
    for token in ["--HELP", "-help", "--he", "/help", "--Version", "--vv", "-h", "-v"] {
        let mut processor = CommandLineProcessor::new();
        let report = processor.parse_command_line(&arguments(&[token]));
        assert_eq!(report.reasons, vec![AbortReason::UnknownToken { position: 0 }], "{}", token);
    }
}

#[test]
fn control_token_is_never_an_alias() {
    let mut processor = CommandLineProcessor::new();
    let help = processor.add_simple_parameter("help", ParameterType::Flag, "");
    let v = processor.add_simple_parameter("v", ParameterType::Flag, "");
    let report = processor.parse_command_line(&arguments(&["/v", "--v", "/help"]));
    assert_eq!(report.reasons, vec![AbortReason::VersionRequested]);
    assert_eq!(processor.parameter(v).unwrap().get_value(), &ParameterValue::Flag);
    assert_eq!(processor.parameter(help).unwrap().get_value(), &ParameterValue::Unset);
}

#[test]
fn colliding_aliases_select_the_first_declared_parameter_only() {
    let mut processor = CommandLineProcessor::new();
    let first = declare(&mut processor, "first", ParameterType::String, true, "-x");
    let second = declare(&mut processor, "second", ParameterType::String, true, "-x");
    let report = processor.parse_command_line(&arguments(&["-x", "one", "-x", "two"]));
    assert_eq!(report.status, ParseStatus::Complete);
    let first = processor.parameter(first).unwrap().get_value().clone();
    let second = processor.parameter(second).unwrap().get_value().clone();
    let received = [&first, &second].iter().filter(|value| !value.is_none()).count();
    assert_eq!(received, 1);
    assert_eq!(first, ParameterValue::String("two".to_string()));
    assert_eq!(second, ParameterValue::Unset);
}

#[test]
fn colliding_aliases_of_different_types_follow_the_first() {
    let mut processor = CommandLineProcessor::new();
    let flag = declare(&mut processor, "flag", ParameterType::Flag, true, "-x");
    let text = declare(&mut processor, "text", ParameterType::String, true, "-x");
    let report = processor.parse_command_line(&arguments(&["-x", "--text", "t"]));
    assert_eq!(report.status, ParseStatus::Complete);
    assert_eq!(processor.parameter(flag).unwrap().get_value(), &ParameterValue::Flag);
    assert_eq!(processor.parameter(text).unwrap().to_string_value(), Ok("t".to_string()));
}

#[test]
fn unknown_token_ends_the_walk() {
    let mut processor = CommandLineProcessor::new();
    processor.add_simple_parameter("a", ParameterType::Integer, "");
    processor.add_simple_parameter("b", ParameterType::Integer, "");
    let report = processor.parse_command_line(&arguments(&["--a", "1", "stray", "--b", "2"]));
    assert_eq!(report.status, ParseStatus::Aborted);
    assert_eq!(report.reasons, vec![AbortReason::UnknownToken { position: 2 }]);
    assert_eq!(report.status.exit_code(), Some(EXIT_ABORTED));
    assert_eq!(processor.get_parameter_value("a"), Some(&ParameterValue::Integer(1)));
    assert_eq!(processor.get_parameter_value("b"), Some(&ParameterValue::Unset));
}

#[test]
fn name_alone_is_no_alias() {
    let mut processor = CommandLineProcessor::new();
    processor.add_simple_parameter("a", ParameterType::Flag, "");
    let report = processor.parse_command_line(&arguments(&["a"]));
    assert_eq!(report.reasons, vec![AbortReason::UnknownToken { position: 0 }]);
}

#[test]
fn slash_and_dash_aliases_select_the_parameter() {
    for alias in ["/count", "--count", "-c"] {
        let mut processor = CommandLineProcessor::new();
        let slot = declare(&mut processor, "count", ParameterType::Integer, false, "-c");
        let report = processor.parse_command_line(&arguments(&[alias, "12"]));
        assert_eq!(report.status, ParseStatus::Complete);
        assert_eq!(processor.parameter(slot).unwrap().to_int_value(), Ok(12));
    }
}

#[test]
fn conversion_failure_does_not_end_the_walk() {
    let mut processor = CommandLineProcessor::new();
    let a = processor.add_simple_parameter("a", ParameterType::Integer, "");
    let b = processor.add_simple_parameter("b", ParameterType::Bool, "");
    let c = processor.add_simple_parameter("c", ParameterType::Integer, "");
    let report =
        processor.parse_command_line(&arguments(&["--a", "x", "--b", "maybe", "--c", "3"]));
    assert_eq!(report.status, ParseStatus::Aborted);
    assert_eq!(
        report.reasons,
        vec![
            AbortReason::ConversionFailure { parameter: a, position: 1 },
            AbortReason::ConversionFailure { parameter: b, position: 3 },
        ]
    );
    assert_eq!(processor.parameter(c).unwrap().to_int_value(), Ok(3));
    assert_eq!(processor.parameter(a).unwrap().to_int_value(), Err(AccessError::ValueNotSet));
}

#[test]
fn required_parameter_without_a_value_token_is_a_missing_value() {
    for kind in [
        ParameterType::Integer,
        ParameterType::Float,
        ParameterType::Path,
        ParameterType::String,
        ParameterType::Bool,
    ] {
        let mut processor = CommandLineProcessor::new();
        let slot = declare(&mut processor, "p", kind, false, "-p");
        let report = processor.parse_command_line(&arguments(&["-p"]));
        assert_eq!(report.status, ParseStatus::Aborted);
        assert_eq!(report.reasons, vec![AbortReason::MissingValue { parameter: slot }]);
        assert_eq!(processor.get_parameter_value("p"), Some(&ParameterValue::Unset));
    }
}

#[test]
fn optional_parameter_without_a_value_token_keeps_its_value() {
    for kind in [
        ParameterType::Integer,
        ParameterType::Float,
        ParameterType::Path,
        ParameterType::String,
        ParameterType::Bool,
    ] {
        let mut processor = CommandLineProcessor::new();
        processor.add_parameter_detail(
            "p",
            kind,
            true,
            ParameterValue::Integer(9),
            "",
            vec!["-p".to_string()],
        );
        let report = processor.parse_command_line(&arguments(&["-p"]));
        assert_eq!(report.status, ParseStatus::Complete);
        assert!(report.reasons.is_empty());
        assert!(!processor.abort_flag());
        assert_eq!(processor.get_parameter_value("p"), Some(&ParameterValue::Integer(9)));
    }
}

#[test]
fn empty_value_token_is_a_missing_value_for_a_required_parameter() {
    for kind in [
        ParameterType::Integer,
        ParameterType::Float,
        ParameterType::Path,
        ParameterType::String,
        ParameterType::Bool,
    ] {
        let mut processor = CommandLineProcessor::new();
        let slot = declare(&mut processor, "p", kind, false, "-p");
        let flag = processor.add_simple_parameter("f", ParameterType::Flag, "");
        let report = processor.parse_command_line(&arguments(&["-p", "", "--f"]));
        assert_eq!(report.status, ParseStatus::Aborted);
        assert_eq!(report.reasons, vec![AbortReason::MissingValue { parameter: slot }]);
        assert_eq!(processor.get_parameter_value("p"), Some(&ParameterValue::Unset));
        assert_eq!(processor.parameter(flag).unwrap().get_value(), &ParameterValue::Flag);
    }
}

#[test]
fn empty_value_token_leaves_an_optional_parameter_untouched() {
    for kind in [
        ParameterType::Integer,
        ParameterType::Float,
        ParameterType::Path,
        ParameterType::String,
        ParameterType::Bool,
    ] {
        let mut processor = CommandLineProcessor::new();
        processor.add_parameter_detail(
            "p",
            kind,
            true,
            ParameterValue::String("kept".to_string()),
            "",
            vec!["-p".to_string()],
        );
        let flag = processor.add_can_empty_parameter(
            "f",
            ParameterType::Flag,
            ParameterValue::Unset,
            "",
        );
        let report = processor.parse_command_line(&arguments(&["-p", "", "--f"]));
        assert_eq!(report.status, ParseStatus::Complete);
        assert_eq!(
            processor.get_parameter_value("p"),
            Some(&ParameterValue::String("kept".to_string()))
        );
        assert_eq!(processor.parameter(flag).unwrap().get_value(), &ParameterValue::Flag);
    }
}

#[test]
fn value_token_is_never_read_as_an_alias() {
    let mut processor = CommandLineProcessor::new();
    let name = processor.add_simple_parameter("name", ParameterType::String, "");
    let force = processor.add_can_empty_parameter(
        "force",
        ParameterType::Flag,
        ParameterValue::Unset,
        "",
    );
    let report = processor.parse_command_line(&arguments(&["--name", "--force"]));
    assert_eq!(report.status, ParseStatus::Complete);
    assert_eq!(
        processor.parameter(name).unwrap().to_string_value(),
        Ok("--force".to_string())
    );
    assert_eq!(processor.parameter(force).unwrap().get_value(), &ParameterValue::Unset);
}

#[test]
fn help_token_in_value_position_is_a_value() {
    let mut processor = CommandLineProcessor::new();
    let name = processor.add_simple_parameter("name", ParameterType::String, "");
    let report = processor.parse_command_line(&arguments(&["--name", "--help"]));
    assert_eq!(report.status, ParseStatus::Complete);
    assert_eq!(processor.parameter(name).unwrap().to_string_value(), Ok("--help".to_string()));
}

#[test]
fn later_occurrence_overwrites_the_earlier_value() {
    let mut processor = CommandLineProcessor::new();
    let n = declare(&mut processor, "n", ParameterType::Integer, false, "-n");
    let report = processor.parse_command_line(&arguments(&["-n", "1", "--n", "2", "/n", "3"]));
    assert_eq!(report.status, ParseStatus::Complete);
    assert_eq!(processor.parameter(n).unwrap().to_int_value(), Ok(3));
}

#[test]
fn parsed_value_replaces_the_default() {
    let mut processor = CommandLineProcessor::new();
    let n = processor.add_can_empty_parameter(
        "n",
        ParameterType::Integer,
        ParameterValue::Integer(5),
        "",
    );
    let report = processor.parse_command_line(&arguments(&["--n", "6"]));
    assert_eq!(report.status, ParseStatus::Complete);
    let parameter = processor.parameter(n).unwrap();
    assert_eq!(parameter.get_value(), &ParameterValue::Integer(6));
    assert_eq!(parameter.default_value(), &ParameterValue::Integer(5));
}

#[test]
fn booleans_are_read_in_lower_case() {
    let mut processor = CommandLineProcessor::new();
    let on = processor.add_simple_parameter("on", ParameterType::Bool, "");
    let off = processor.add_simple_parameter("off", ParameterType::Bool, "");
    let report = processor.parse_command_line(&arguments(&["--on", "true", "--off", "false"]));
    assert_eq!(report.status, ParseStatus::Complete);
    assert_eq!(processor.parameter(on).unwrap().to_bool_value(), Ok(true));
    assert_eq!(processor.parameter(off).unwrap().to_bool_value(), Ok(false));
    for token in ["True", "1", "yes", "FALSE"] {
        let mut processor = CommandLineProcessor::new();
        let slot = processor.add_simple_parameter("on", ParameterType::Bool, "");
        let report = processor.parse_command_line(&arguments(&["--on", token]));
        assert_eq!(
            report.reasons,
            vec![AbortReason::ConversionFailure { parameter: slot, position: 1 }]
        );
    }
}

#[test]
fn floats_are_stored_as_the_caller_read_them() {
    let mut processor = CommandLineProcessor::new();
    let ratio = processor.add_simple_parameter("ratio", ParameterType::Float, "");
    let report = processor.parse_command_line(&arguments(&["--ratio", "1.5e2"]));
    assert_eq!(report.status, ParseStatus::Complete);
    let read = processor.parameter(ratio).unwrap().to_float_value().unwrap();
    assert_eq!(f64::from_bits(read.bits()), 150.0);
    assert_eq!(read.text(), "150");
    assert_eq!(processor.parameter(ratio).unwrap().get_value().to_help_string(), "150");
}

#[test]
fn token_that_is_no_float_is_a_conversion_failure() {
    for token in ["abc", "1.5.2", "--", "1,5"] {
        let mut processor = CommandLineProcessor::new();
        let ratio = processor.add_simple_parameter("ratio", ParameterType::Float, "");
        let report = processor.parse_command_line(&arguments(&["--ratio", token]));
        assert_eq!(report.status, ParseStatus::Aborted);
        assert_eq!(
            report.reasons,
            vec![AbortReason::ConversionFailure { parameter: ratio, position: 1 }]
        );
        assert_eq!(processor.get_parameter_value("ratio"), Some(&ParameterValue::Unset));
    }
}

#[test]
fn float_reading_is_not_used_for_other_types() {
    let mut processor = CommandLineProcessor::new();
    let text = processor.add_simple_parameter("text", ParameterType::String, "");
    let path = processor.add_simple_parameter("path", ParameterType::Path, "");
    let report = processor.parse_command_line(&arguments(&["--text", "1.5", "--path", "2.5"]));
    assert_eq!(report.status, ParseStatus::Complete);
    assert_eq!(
        processor.parameter(text).unwrap().get_value(),
        &ParameterValue::String("1.5".to_string())
    );
    assert_eq!(
        processor.parameter(path).unwrap().get_value(),
        &ParameterValue::Path("2.5".to_string())
    );
}

#[test]
fn texts_and_paths_are_stored_verbatim() {
    let mut processor = CommandLineProcessor::new();
    let text = processor.add_simple_parameter("text", ParameterType::String, "");
    let path = processor.add_simple_parameter("path", ParameterType::Path, "");
    let report = processor.parse_command_line(&arguments(&[
        "--text",
        "  spaced, ünïcode\t",
        "--path",
        "../a b/./c//",
    ]));
    assert_eq!(report.status, ParseStatus::Complete);
    assert_eq!(
        processor.parameter(text).unwrap().to_string_value(),
        Ok("  spaced, ünïcode\t".to_string())
    );
    assert_eq!(
        processor.parameter(path).unwrap().to_path_value(),
        Ok("../a b/./c//".to_string())
    );
}

#[test]
fn unset_required_parameters_are_reported_after_a_clean_walk() {
    let mut processor = CommandLineProcessor::new();
    let a = processor.add_simple_parameter("a", ParameterType::Integer, "");
    processor.add_can_empty_parameter("b", ParameterType::Integer, ParameterValue::Unset, "");
    let c = processor.add_simple_parameter("c", ParameterType::String, "");
    let d = processor.add_simple_parameter("d", ParameterType::Flag, "");
    let report = processor.parse_command_line(&arguments(&["--d"]));
    assert_eq!(report.status, ParseStatus::MissingRequired);
    assert_eq!(
        report.reasons,
        vec![
            AbortReason::MissingRequiredParameter { parameter: a },
            AbortReason::MissingRequiredParameter { parameter: c },
        ]
    );
    assert_eq!(report.status.exit_code(), Some(EXIT_MISSING_REQUIRED));
    assert!(processor.abort_flag());
    assert_eq!(processor.parameter(d).unwrap().get_value(), &ParameterValue::Flag);
}

#[test]
fn required_parameter_with_a_default_is_not_missing() {
    let mut processor = CommandLineProcessor::new();
    processor.add_parameter_detail(
        "a",
        ParameterType::Integer,
        false,
        ParameterValue::Integer(1),
        "",
        Vec::new(),
    );
    let report = processor.parse_command_line(&arguments(&[]));
    assert_eq!(report.status, ParseStatus::Complete);
    assert_eq!(report.status.exit_code(), None);
    assert!(!processor.abort_flag());
}

#[test]
fn unset_required_parameters_are_not_reported_after_an_abort() {
    let mut processor = CommandLineProcessor::new();
    processor.add_simple_parameter("a", ParameterType::Integer, "");
    let report = processor.parse_command_line(&arguments(&["stray"]));
    assert_eq!(report.status, ParseStatus::Aborted);
    assert_eq!(report.reasons, vec![AbortReason::UnknownToken { position: 0 }]);
}

#[test]
fn empty_command_line_with_nothing_declared_is_complete() {
    let mut processor = CommandLineProcessor::new();
    let report = processor.parse_command_line(&arguments(&[]));
    assert_eq!(report.status, ParseStatus::Complete);
    assert!(report.reasons.is_empty());
    assert!(!processor.abort_flag());
    assert_eq!(processor.parameter_count(), 0);
}

#[test]
fn parsing_again_goes_on_from_the_values_that_stand() {
    let mut processor = CommandLineProcessor::new();
    let a = processor.add_simple_parameter("a", ParameterType::Integer, "");
    let b = processor.add_simple_parameter("b", ParameterType::Integer, "");
    let first = processor.parse_command_line(&arguments(&["--a", "1", "--b", "2"]));
    assert_eq!(first.status, ParseStatus::Complete);
    let second = processor.parse_command_line(&arguments(&["--b", "3"]));
    assert_eq!(second.status, ParseStatus::Complete);
    assert_eq!(processor.parameter(a).unwrap().to_int_value(), Ok(1));
    assert_eq!(processor.parameter(b).unwrap().to_int_value(), Ok(3));
}

#[test]
fn raised_abort_flag_stays_raised() {
    let mut processor = CommandLineProcessor::new();
    let a = processor.add_can_empty_parameter("a", ParameterType::Integer, ParameterValue::Unset, "");
    processor.add_simple_parameter("b", ParameterType::Integer, "");
    let first = processor.parse_command_line(&arguments(&["--help"]));
    assert_eq!(first.status, ParseStatus::Aborted);
    let second = processor.parse_command_line(&arguments(&["--a", "1"]));
    assert_eq!(second.status, ParseStatus::Aborted);
    assert!(second.reasons.is_empty());
    assert!(processor.abort_flag());
    assert_eq!(processor.parameter(a).unwrap().to_int_value(), Ok(1));
}

#[test]
fn values_stored_by_parsing_have_the_type_of_their_parameter() {
    let mut processor = CommandLineProcessor::new();
    processor.add_simple_parameter("f", ParameterType::Flag, "");
    processor.add_simple_parameter("i", ParameterType::Integer, "");
    processor.add_simple_parameter("x", ParameterType::Float, "");
    processor.add_simple_parameter("p", ParameterType::Path, "");
    processor.add_simple_parameter("s", ParameterType::String, "");
    processor.add_simple_parameter("b", ParameterType::Bool, "");
    let report = processor.parse_command_line(&arguments(&[
        "--f", "--i", "1", "--x", "1", "--p", "1", "--s", "1", "--b", "true",
    ]));
    assert_eq!(report.status, ParseStatus::Complete);
    assert_eq!(processor.get_parameter_value("f"), Some(&ParameterValue::Flag));
    assert_eq!(processor.get_parameter_value("i"), Some(&ParameterValue::Integer(1)));
    assert_eq!(
        processor.get_parameter_value("x"),
        Some(&ParameterValue::Float(FloatValue::new(1f64.to_bits(), "1".to_string())))
    );
    assert_eq!(processor.get_parameter_value("p"), Some(&ParameterValue::Path("1".to_string())));
    assert_eq!(processor.get_parameter_value("s"), Some(&ParameterValue::String("1".to_string())));
    assert_eq!(processor.get_parameter_value("b"), Some(&ParameterValue::Bool(true)));
}

#[test]
fn exit_statuses_differ_and_are_not_zero() {
    assert_ne!(EXIT_ABORTED, 0);
    assert_ne!(EXIT_MISSING_REQUIRED, 0);
    assert_ne!(EXIT_ABORTED, EXIT_MISSING_REQUIRED);
    assert_eq!(ParseStatus::Complete.exit_code(), None);
    assert_eq!(ParseStatus::Aborted.exit_code(), Some(-1));
    assert_eq!(ParseStatus::MissingRequired.exit_code(), Some(-2));
}

#[test]
fn argument_hands_back_what_it_was_made_of() {
    let plain = Argument::new("abc".to_string(), None);
    assert_eq!(plain.text(), "abc");
    assert_eq!(plain.float(), None);
    let number = Argument::new("2".to_string(), Some(FloatValue::new(2f64.to_bits(), "2".to_string())));
    assert_eq!(number.text(), "2");
    assert_eq!(number.float().map(|float| f64::from_bits(float.bits())), Some(2.0));
}

#[test]
fn token_is_read_by_the_type_of_its_parameter() {
    let seven = &arguments(&["7"])[0];
    assert_eq!(read_value(ParameterType::Flag, seven), Some(ParameterValue::Flag));
    assert_eq!(read_value(ParameterType::Integer, seven), Some(ParameterValue::Integer(7)));
    assert_eq!(
        read_value(ParameterType::Float, seven),
        Some(ParameterValue::Float(FloatValue::new(7f64.to_bits(), "7".to_string())))
    );
    assert_eq!(
        read_value(ParameterType::Path, seven),
        Some(ParameterValue::Path("7".to_string()))
    );
    assert_eq!(
        read_value(ParameterType::String, seven),
        Some(ParameterValue::String("7".to_string()))
    );
    assert_eq!(read_value(ParameterType::Bool, seven), None);
    let truth = &arguments(&["true"])[0];
    assert_eq!(read_value(ParameterType::Bool, truth), Some(ParameterValue::Bool(true)));
    assert_eq!(read_value(ParameterType::Integer, truth), None);
    assert_eq!(read_value(ParameterType::Float, truth), None);
    let unread = Argument::new("7".to_string(), None);
    assert_eq!(read_value(ParameterType::Float, &unread), None);
    assert_eq!(read_value(ParameterType::Integer, &unread), Some(ParameterValue::Integer(7)));
}
