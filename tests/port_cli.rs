use port_cli::answer;
use port_cli::args::{parse_args, ArgumentError, Configuration, Invocation, DEFAULT_PORT};
use port_cli::decimal::{format_decimal, port_from, to_chars};
use port_cli::run::{run_steps, startup_steps, stdout_text, Level, Step};

fn parse(words: &[&str]) -> Result<Invocation, ArgumentError> {
    let args: Vec<String> = words.iter().map(|w| w.to_string()).collect();
    parse_args(&args)
}

fn run_with(port: u16) -> Result<Invocation, ArgumentError> {
    Ok(Invocation::Run(Configuration { port }))
}

fn port_text(text: &str) -> Option<u16> {
    port_from(&to_chars(text), 0)
}

#[test]
fn test_answer() {
    assert_eq!(answer(), 42);
}

#[test]
fn no_flags_gives_default_port() {
    assert_eq!(DEFAULT_PORT, 8080);
    assert_eq!(parse(&[]), run_with(8080));
}

#[test]
fn long_port_option() {
    assert_eq!(parse(&["--port", "9999"]), run_with(9999));
}

#[test]
fn short_port_option_matches_long() {
    assert_eq!(parse(&["-p", "9999"]), run_with(9999));
    assert_eq!(parse(&["-p", "9999"]), parse(&["--port", "9999"]));
    assert_eq!(parse(&["-p", "abc"]), parse(&["--port", "abc"]));
    assert_eq!(parse(&["--port", "1", "-p", "2"]), parse(&["--port", "1", "--port", "2"]));
}

#[test]
fn attached_port_values() {
    assert_eq!(parse(&["--port=9999"]), run_with(9999));
    assert_eq!(parse(&["-p9999"]), run_with(9999));
    assert_eq!(parse(&["-p=9999"]), run_with(9999));
    assert_eq!(parse(&["--port="]), Err(ArgumentError::InvalidValue));
}

#[test]
fn port_out_of_range_is_rejected() {
    assert_eq!(parse(&["--port", "70000"]), Err(ArgumentError::InvalidValue));
    assert_eq!(parse(&["--port", "65536"]), Err(ArgumentError::InvalidValue));
    assert_eq!(parse(&["--port", "65535"]), run_with(65535));
    assert_eq!(parse(&["--port", "0"]), run_with(0));
}

#[test]
fn non_numeric_port_is_rejected() {
    assert_eq!(parse(&["--port", "abc"]), Err(ArgumentError::InvalidValue));
    assert_eq!(parse(&["--port", "12a"]), Err(ArgumentError::InvalidValue));
    assert_eq!(parse(&["--port", ""]), Err(ArgumentError::InvalidValue));
}

#[test]
fn missing_port_value_is_rejected() {
    assert_eq!(parse(&["--port"]), Err(ArgumentError::MissingValue));
    assert_eq!(parse(&["-p", "--help"]), Err(ArgumentError::MissingValue));
}

#[test]
fn unknown_arguments_are_rejected() {
    assert_eq!(parse(&["--verbose"]), Err(ArgumentError::UnexpectedArgument));
    assert_eq!(parse(&["-x"]), Err(ArgumentError::UnexpectedArgument));
    assert_eq!(parse(&["extra"]), Err(ArgumentError::UnexpectedArgument));
    assert_eq!(parse(&["--", "extra"]), Err(ArgumentError::UnexpectedArgument));
    assert_eq!(parse(&["--"]), run_with(8080));
}

#[test]
fn repeated_port_is_rejected() {
    assert_eq!(parse(&["-p", "1", "-p", "2"]), Err(ArgumentError::RepeatedOption));
    assert_eq!(parse(&["--port=1", "-p2"]), Err(ArgumentError::RepeatedOption));
}

#[test]
fn help_is_recognised() {
    assert_eq!(parse(&["--help"]), Ok(Invocation::Help));
    assert_eq!(parse(&["-h"]), Ok(Invocation::Help));
    assert_eq!(parse(&["--port", "80", "-h"]), Ok(Invocation::Help));
    assert_eq!(parse(&["--port", "abc", "-h"]), Err(ArgumentError::InvalidValue));
}

#[test]
fn port_text_forms() {
    assert_eq!(port_text("08080"), Some(8080));
    assert_eq!(port_text("+80"), Some(80));
    assert_eq!(port_text("-0"), Some(0));
    assert_eq!(port_text("-1"), None);
    assert_eq!(port_text("+"), None);
    assert_eq!(port_text("99999999999999999999"), None);
    assert_eq!(port_from(&to_chars("x=443"), 2), Some(443));
}

#[test]
fn decimal_text() {
    assert_eq!(format_decimal(0), "0");
    assert_eq!(format_decimal(7), "7");
    assert_eq!(format_decimal(8080), "8080");
    assert_eq!(format_decimal(4294967295), "4294967295");
}

#[test]
fn characters_of_text() {
    assert_eq!(to_chars("pé"), vec!['p', 'é']);
    assert_eq!(to_chars(""), Vec::<char>::new());
}

#[test]
fn default_run_prints_port_then_answer() {
    let steps = run_steps(Configuration { port: 8080 });
    assert_eq!(stdout_text(&steps), "port is 808042");
}

#[test]
fn run_prints_chosen_port() {
    let steps = run_steps(Configuration { port: 9999 });
    assert_eq!(stdout_text(&steps), "port is 999942");
}

#[test]
fn run_steps_in_order() {
    let steps = run_steps(Configuration { port: 80 });
    assert_eq!(steps.len(), 5);
    assert!(matches!(&steps[0], Step::Log(Level::Info, m) if m == "args have been parsed"));
    assert!(matches!(&steps[1], Step::Log(Level::Warn, m) if m == "cli port is 80"));
    assert!(matches!(&steps[2], Step::Print(t) if t == "port is 80"));
    assert!(matches!(&steps[3], Step::Log(Level::Error, m) if m == "something unexpected"));
    assert!(matches!(&steps[4], Step::Print(t) if t == "42"));
}

#[test]
fn startup_logs_and_prints_nothing() {
    let steps = startup_steps();
    assert_eq!(steps.len(), 2);
    assert!(matches!(&steps[0], Step::Log(Level::Trace, m) if m == "cli is running"));
    assert!(matches!(&steps[1], Step::Log(Level::Debug, m) if m == "about to parse args"));
    assert_eq!(stdout_text(&steps), "");
}

#[test]
fn port_reads_back_from_decimal() {
    for p in [0u16, 9, 10, 80, 8080, 65535] {
        let text = format_decimal(p as u32);
        assert_eq!(port_text(&text), Some(p));
    }
}
