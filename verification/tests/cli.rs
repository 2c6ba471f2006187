use monosend::cli::{
    parse_cli, parse_receive_args, parse_share_args, CliArg, CliCommand, CliError, HELP,
    RECEIVE_HELP, SHARE_HELP,
};
use monosend::localsend::protocol::LOCALSEND_DEFAULT_PORT;

fn args(list: &[&str]) -> Vec<CliArg<u8>> {
    list.iter().map(|text| CliArg::Text(text.to_string())).collect()
}

fn parse(list: &[&str]) -> Result<CliCommand<u8>, CliError> {
    parse_cli(args(list))
}

#[test]
fn accepts_both_autoaccept_spellings() {
    for spelling in ["--autoaccept", "--autoaceept"] {
        let command = parse(&["receive", spelling]).unwrap();
        assert!(matches!(
            command,
            CliCommand::Receive {
                port: LOCALSEND_DEFAULT_PORT,
                autoaccept: true
            }
        ));
    }
}

#[test]
fn parses_share_files_and_clipboard() {
    let command = parse(&["share", "--clipboard", "one.txt", "two.txt"]).unwrap();

    match command {
        CliCommand::Share { paths, clipboard } => {
            assert!(clipboard);
            assert_eq!(paths, args(&["one.txt", "two.txt"]));
        }
        _ => panic!("expected share command"),
    }
}

#[test]
fn no_arguments_print_help() {
    assert_eq!(parse(&[]), Ok(CliCommand::Help(HELP)));
    for word in ["help", "-h", "--help"] {
        assert_eq!(parse(&[word]), Ok(CliCommand::Help(HELP)));
    }
}

#[test]
fn version_is_asked_for() {
    assert_eq!(parse(&["-V"]), Ok(CliCommand::Version));
    assert_eq!(parse(&["--version", "ignored"]), Ok(CliCommand::Version));
}

#[test]
fn unknown_commands_are_refused() {
    let error = parse(&["listen"]).unwrap_err();
    assert_eq!(error, CliError::UnknownCommand("listen".to_string()));
    assert_eq!(error.message(), format!("unknown command `listen`\n\n{HELP}"));
    assert_eq!(parse_cli(vec![CliArg::Raw(7u8)]), Err(CliError::CommandIsNotText));
    assert_eq!(CliError::CommandIsNotText.message(), "command must be valid UTF-8");
}

#[test]
fn ports_are_given_in_one_or_two_arguments() {
    let expected = CliCommand::Receive { port: 53318, autoaccept: false };
    assert_eq!(parse(&["receive", "--port", "53318"]), Ok(expected.clone()));
    assert_eq!(parse(&["receive", "--port=53318"]), Ok(expected.clone()));
    assert_eq!(parse(&["receive", "--port=1", "--port", "+53318"]), Ok(expected));
    assert_eq!(
        parse(&["receive", "--port", "65535", "--autoaccept"]),
        Ok(CliCommand::Receive { port: 65535, autoaccept: true })
    );
}

#[test]
fn bad_ports_are_refused() {
    for value in ["0", "65536", "", "-1", "ninety", "1 "] {
        let invalid = CliError::PortIsInvalid(value.to_string());
        assert_eq!(parse(&["receive", "--port", value]), Err(invalid.clone()));
        let joined = format!("--port={value}");
        assert_eq!(parse(&["receive", &joined]), Err(invalid));
    }
    assert_eq!(parse(&["receive", "--port"]), Err(CliError::PortIsMissing));
    assert_eq!(CliError::PortIsMissing.message(), "--port requires a port number");
    assert_eq!(
        CliError::PortIsInvalid("0".to_string()).message(),
        "port must be a number from 1 to 65535"
    );
    let mut list = args(&["--port"]);
    list.push(CliArg::Raw(1));
    assert_eq!(parse_receive_args(&list), Err(CliError::PortIsNotText));
    assert_eq!(CliError::PortIsNotText.message(), "port must be valid UTF-8");
}

#[test]
fn unknown_receive_options_are_refused() {
    let error = parse(&["receive", "--loud"]).unwrap_err();
    assert_eq!(error, CliError::UnknownReceiveOption("--loud".to_string()));
    assert_eq!(error.message(), format!("unknown receive option `--loud`\n\n{RECEIVE_HELP}"));
    assert_eq!(
        parse_receive_args(&vec![CliArg::Raw(1u8)]),
        Err(CliError::ReceiveOptionIsNotText)
    );
    assert_eq!(
        CliError::ReceiveOptionIsNotText.message(),
        "receive options must be valid UTF-8"
    );
    assert_eq!(parse(&["receive", "-h"]), Ok(CliCommand::Help(RECEIVE_HELP)));
    assert_eq!(parse(&["receive", "--help"]), Ok(CliCommand::Help(RECEIVE_HELP)));
}

#[test]
fn share_options_end_at_two_dashes() {
    assert_eq!(
        parse(&["share", "a", "--", "-h", "--clipboard", "--"]),
        Ok(CliCommand::Share {
            paths: args(&["a", "-h", "--clipboard", "--"]),
            clipboard: false
        })
    );
    assert_eq!(parse(&["share", "a", "--help"]), Ok(CliCommand::Help(SHARE_HELP)));
    assert_eq!(
        parse_share_args(vec![CliArg::Raw(1u8)]),
        Ok(CliCommand::Share { paths: vec![CliArg::Raw(1)], clipboard: false })
    );
}

#[test]
fn empty_shares_are_refused() {
    let error = parse(&["share"]).unwrap_err();
    assert_eq!(error, CliError::NothingToShare);
    assert_eq!(
        error.message(),
        format!("share needs at least one file or --clipboard\n\n{SHARE_HELP}")
    );
    assert_eq!(parse(&["share", "--"]), Err(CliError::NothingToShare));
    let error = parse(&["share", "-x"]).unwrap_err();
    assert_eq!(error, CliError::UnknownShareOption("-x".to_string()));
    assert_eq!(error.message(), format!("unknown share option `-x`\n\n{SHARE_HELP}"));
}

#[test]
fn clipboard_alone_is_a_share() {
    assert_eq!(
        parse(&["share", "--clipboard"]),
        Ok(CliCommand::Share { paths: args(&[]), clipboard: true })
    );
}

#[test]
fn help_names_the_commands() {
    assert!(HELP.starts_with("monosend - send and receive files with LocalSend\n\nUsage:\n"));
    assert!(RECEIVE_HELP.starts_with("Usage: monosend receive [OPTIONS]\n\n"));
    assert!(SHARE_HELP.ends_with("  monosend share --clipboard\n"));
}
