use kikitori::cli::{parse, Command, Options};

fn parse_gui(args: &[&str]) -> Result<Command, String> {
    parse(args.iter().map(|s| (*s).to_owned()).collect(), false)
}

fn parse_cli(args: &[&str]) -> Result<Command, String> {
    parse(args.iter().map(|s| (*s).to_owned()).collect(), true)
}

#[test]
fn no_args_is_plain_run() {
    assert_eq!(parse_gui(&[]), Ok(Command::Run(Options::default())));
}

#[test]
fn version_does_not_run() {
    // a query must never start a recording
    assert_eq!(parse_gui(&["--version"]), Ok(Command::Version));
}

#[test]
fn help_does_not_run() {
    assert_eq!(parse_gui(&["--help"]), Ok(Command::Help));
}

#[test]
fn unknown_flag_is_rejected() {
    // ignoring it silently would hide a flag that has no effect
    assert!(parse_gui(&["--nope"]).is_err());
}

#[test]
fn positional_argument_is_rejected() {
    assert!(parse_gui(&["rec.wav"]).is_err());
}

#[test]
fn socket_takes_the_next_value() {
    assert_eq!(
        parse_gui(&["--socket", "/run/x.sock"]),
        Ok(Command::Run(Options {
            socket: Some("/run/x.sock".into()),
            wtype: false,
        }))
    );
}

#[test]
fn socket_without_value_is_rejected() {
    // recording with the default endpoint instead would connect elsewhere
    assert!(parse_gui(&["--socket"]).is_err());
}

#[test]
fn wtype_is_accepted_where_supported() {
    assert_eq!(
        parse_cli(&["--wtype"]),
        Ok(Command::Run(Options {
            socket: None,
            wtype: true,
        }))
    );
}

#[test]
fn wtype_is_rejected_where_unsupported() {
    assert!(parse_gui(&["--wtype"]).is_err());
}

#[test]
fn query_flag_wins_over_other_arguments() {
    // `--socket X --version` neither connects nor records
    assert_eq!(
        parse_gui(&["--socket", "/run/x.sock", "--version"]),
        Ok(Command::Version)
    );
}

#[test]
fn error_messages_name_the_argument() {
    assert_eq!(
        parse_gui(&["--nope"]),
        Err("unknown argument: --nope".to_owned())
    );
    assert_eq!(
        parse_gui(&["--socket"]),
        Err("--socket needs a value".to_owned())
    );
    assert_eq!(
        parse_gui(&["--wtype"]),
        Err("unknown argument: --wtype".to_owned())
    );
}

#[test]
fn help_wins_after_valid_options() {
    assert_eq!(
        parse_cli(&["--wtype", "--socket", "h:1", "--help", "--nope"]),
        Ok(Command::Help)
    );
}

#[test]
fn first_problem_decides() {
    assert!(parse_gui(&["--nope", "--version"]).is_err());
}

#[test]
fn last_socket_value_is_kept() {
    assert_eq!(
        parse_cli(&["--socket", "a", "--socket", "b", "--wtype"]),
        Ok(Command::Run(Options {
            socket: Some("b".into()),
            wtype: true,
        }))
    );
}
