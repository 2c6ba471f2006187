//! The command line: which commands there are, and what they are given.
use vstd::prelude::*;
use vstd::string::*;

use crate::localsend::protocol::LOCALSEND_DEFAULT_PORT;
use crate::text::{
    after_prefix, chars_of, decimal, has_prefix, join3, law_decimal_reads_back, number,
    parse_number, same,
};

verus! {

/// The help on the program.
pub const HELP: &'static str = r#"monosend - send and receive files with LocalSend

Usage:
  monosend receive [--port PORT] [--autoaccept]
  monosend share [--clipboard] <FILE>...

Commands:
  receive    Listen for incoming LocalSend transfers
  share      Open a device picker and send files

Receive options:
  --port PORT       HTTPS port to listen on (default: 53317)
  --autoaccept      Accept transfers without asking
  --autoaceept      Alias for --autoaccept (kept for compatibility)

Share options:
  --clipboard       Add the current text clipboard as clipboard.txt

Run `monosend receive --help` or `monosend share --help` for command-specific help.
"#;

/// The help on receiving.
pub const RECEIVE_HELP: &'static str = r#"Usage: monosend receive [OPTIONS]

Listen for LocalSend transfer requests and save accepted files in the current
directory. By default, each request is shown through notify-send with Accept
and Decline actions. Successfully received .txt files are also copied to the
desktop clipboard.

Options:
  --port PORT       HTTPS port to listen on (default: 53317)
  --autoaccept      Accept transfers automatically
  --autoaceept      Alias for --autoaccept
  -h, --help        Print help
"#;

/// The help on sharing.
pub const SHARE_HELP: &'static str = r#"Usage: monosend share [OPTIONS] <FILE>...

Open a focused terminal device picker, discover nearby LocalSend devices, and
send the supplied files after a receiver is selected.

Options:
  --clipboard       Add the current text clipboard as clipboard.txt
  -h, --help        Print help

Examples:
  monosend share file.txt file2.txt
  monosend share --clipboard
"#;

/// An argument of the command line: a text, or something else that the system
/// handed over.
#[derive(Debug, Clone, PartialEq, Eq)]
pub enum CliArg<T> {
    Text(String),
    Raw(T),
}

/// What a [`CliArg`] says.
#[verifier::ext_equal]
pub enum ArgModel<T> {
    Text(Seq<char>),
    Raw(T),
}

impl<T> DeepView for CliArg<T> {
    type V = ArgModel<T>;

    open spec fn deep_view(&self) -> ArgModel<T> {
        match *self {
            CliArg::Text(text) => ArgModel::Text(text@),
            CliArg::Raw(raw) => ArgModel::Raw(raw),
        }
    }
}

/// What the program is asked to do.
#[derive(Debug, Clone, PartialEq, Eq)]
pub enum CliCommand<T> {
    Receive { port: u16, autoaccept: bool },
    Share { paths: Vec<CliArg<T>>, clipboard: bool },
    Help(&'static str),
    Version,
}

/// What a [`CliCommand`] says.
#[verifier::ext_equal]
pub enum CommandModel<T> {
    Receive { port: u16, autoaccept: bool },
    Share { paths: Seq<ArgModel<T>>, clipboard: bool },
    Help(Seq<char>),
    Version,
}

impl<T> DeepView for CliCommand<T> {
    type V = CommandModel<T>;

    open spec fn deep_view(&self) -> CommandModel<T> {
        match *self {
            CliCommand::Receive { port, autoaccept } => CommandModel::Receive { port, autoaccept },
            CliCommand::Share { paths, clipboard } => CommandModel::Share {
                paths: paths.deep_view(),
                clipboard,
            },
            CliCommand::Help(help) => CommandModel::Help(help@),
            CliCommand::Version => CommandModel::Version,
        }
    }
}

/// Why a command line is not understood.
#[derive(Debug, Clone, PartialEq, Eq)]
pub enum CliError {
    UnknownCommand(String),
    CommandIsNotText,
    PortIsMissing,
    PortIsNotText,
    /// The port was given as this text.
    PortIsInvalid(String),
    UnknownReceiveOption(String),
    ReceiveOptionIsNotText,
    UnknownShareOption(String),
    NothingToShare,
}

/// What a [`CliError`] says.
#[verifier::ext_equal]
pub enum CliErrorModel {
    UnknownCommand(Seq<char>),
    CommandIsNotText,
    PortIsMissing,
    PortIsNotText,
    PortIsInvalid(Seq<char>),
    UnknownReceiveOption(Seq<char>),
    ReceiveOptionIsNotText,
    UnknownShareOption(Seq<char>),
    NothingToShare,
}

impl DeepView for CliError {
    type V = CliErrorModel;

    open spec fn deep_view(&self) -> CliErrorModel {
        match *self {
            CliError::UnknownCommand(name) => CliErrorModel::UnknownCommand(name@),
            CliError::CommandIsNotText => CliErrorModel::CommandIsNotText,
            CliError::PortIsMissing => CliErrorModel::PortIsMissing,
            CliError::PortIsNotText => CliErrorModel::PortIsNotText,
            CliError::PortIsInvalid(value) => CliErrorModel::PortIsInvalid(value@),
            CliError::UnknownReceiveOption(name) => CliErrorModel::UnknownReceiveOption(name@),
            CliError::ReceiveOptionIsNotText => CliErrorModel::ReceiveOptionIsNotText,
            CliError::UnknownShareOption(name) => CliErrorModel::UnknownShareOption(name@),
            CliError::NothingToShare => CliErrorModel::NothingToShare,
        }
    }
}

impl CliErrorModel {
    /// The error in words.
    pub open spec fn text(self) -> Seq<char> {
        match self {
            CliErrorModel::UnknownCommand(name) => "unknown command `"@ + name + "`\n\n"@ + HELP@,
            CliErrorModel::CommandIsNotText => "command must be valid UTF-8"@,
            CliErrorModel::PortIsMissing => "--port requires a port number"@,
            CliErrorModel::PortIsNotText => "port must be valid UTF-8"@,
            CliErrorModel::PortIsInvalid(_) => "port must be a number from 1 to 65535"@,
            CliErrorModel::UnknownReceiveOption(name) => "unknown receive option `"@ + name
                + "`\n\n"@ + RECEIVE_HELP@,
            CliErrorModel::ReceiveOptionIsNotText => "receive options must be valid UTF-8"@,
            CliErrorModel::UnknownShareOption(name) => "unknown share option `"@ + name
                + "`\n\n"@ + SHARE_HELP@,
            CliErrorModel::NothingToShare => "share needs at least one file or --clipboard\n\n"@
                + SHARE_HELP@,
        }
    }
}

impl CliError {
    /// The error in words.
    pub fn message(&self) -> (r: String)
        ensures
            r@ == self.deep_view().text(),
    {
        match self {
            CliError::UnknownCommand(name) => {
                let mut out: String = join3("unknown command `", name.as_str(), "`\n\n");
                out.append(HELP);
                out
            },
            CliError::CommandIsNotText => "command must be valid UTF-8".to_owned(),
            CliError::PortIsMissing => "--port requires a port number".to_owned(),
            CliError::PortIsNotText => "port must be valid UTF-8".to_owned(),
            CliError::PortIsInvalid(_) => "port must be a number from 1 to 65535".to_owned(),
            CliError::UnknownReceiveOption(name) => {
                let mut out: String = join3("unknown receive option `", name.as_str(), "`\n\n");
                out.append(RECEIVE_HELP);
                out
            },
            CliError::ReceiveOptionIsNotText => "receive options must be valid UTF-8".to_owned(),
            CliError::UnknownShareOption(name) => {
                let mut out: String = join3("unknown share option `", name.as_str(), "`\n\n");
                out.append(SHARE_HELP);
                out
            },
            CliError::NothingToShare => {
                let mut out: String = "share needs at least one file or --clipboard\n\n".to_owned();
                out.append(SHARE_HELP);
                out
            },
        }
    }
}

// ---------------------------------------------------------------------------
// Receiving
// ---------------------------------------------------------------------------

/// The port that `text` gives: a number from 1 to 65535.
pub open spec fn port_of(text: Seq<char>) -> Option<u16> {
    match number(text, u16::MAX as nat) {
        Some(n) => if n == 0 {
            None
        } else {
            Some(n as u16)
        },
        None => None,
    }
}

fn parse_port(text: &str) -> (r: Option<u16>)
    ensures
        r == port_of(text@),
{
    let chars: Vec<char> = chars_of(text);
    match parse_number(&chars, u16::MAX as u64) {
        Some(n) => if n == 0 {
            None
        } else {
            Some(n as u16)
        },
        None => None,
    }
}

/// What the arguments `args` of `receive` ask for, where those before them gave
/// `port` and `autoaccept`.
pub open spec fn receive_command<T>(
    args: Seq<ArgModel<T>>,
    port: u16,
    autoaccept: bool,
) -> Result<CommandModel<T>, CliErrorModel>
    decreases args.len(),
{
    if args.len() == 0 {
        Ok(CommandModel::Receive { port, autoaccept })
    } else {
        match args[0] {
            ArgModel::Raw(_) => Err(CliErrorModel::ReceiveOptionIsNotText),
            ArgModel::Text(text) => if text == "--port"@ {
                if args.len() < 2 {
                    Err(CliErrorModel::PortIsMissing)
                } else {
                    match args[1] {
                        ArgModel::Raw(_) => Err(CliErrorModel::PortIsNotText),
                        ArgModel::Text(value) => match port_of(value) {
                            Some(port) => receive_command(args.skip(2), port, autoaccept),
                            None => Err(CliErrorModel::PortIsInvalid(value)),
                        },
                    }
                }
            } else if has_prefix(text, "--port="@) {
                let value = text.skip("--port="@.len() as int);
                match port_of(value) {
                    Some(port) => receive_command(args.skip(1), port, autoaccept),
                    None => Err(CliErrorModel::PortIsInvalid(value)),
                }
            } else if text == "--autoaccept"@ || text == "--autoaceept"@ {
                receive_command(args.skip(1), port, true)
            } else if text == "-h"@ || text == "--help"@ {
                Ok(CommandModel::Help(RECEIVE_HELP@))
            } else {
                Err(CliErrorModel::UnknownReceiveOption(text))
            },
        }
    }
}

/// Whether `r` is the outcome `expected`.
pub open spec fn is_outcome<T>(
    r: Result<CliCommand<T>, CliError>,
    expected: Result<CommandModel<T>, CliErrorModel>,
) -> bool {
    match expected {
        Ok(command) => r is Ok && r->Ok_0.deep_view() == command,
        Err(error) => r is Err && r->Err_0.deep_view() == error,
    }
}

/// What the arguments of `receive` ask for.
pub fn parse_receive_args<T>(args: &Vec<CliArg<T>>) -> (r: Result<CliCommand<T>, CliError>)
    ensures
        is_outcome(r, receive_command(args.deep_view(), LOCALSEND_DEFAULT_PORT, false)),
{
    let ghost all = args.deep_view();
    let ghost expected = receive_command(all, LOCALSEND_DEFAULT_PORT, false);
    let mut port: u16 = LOCALSEND_DEFAULT_PORT;
    let mut autoaccept: bool = false;
    let mut i: usize = 0;
    assert(all.skip(0) =~= all);
    while i < args.len()
        invariant
            i <= args@.len(),
            all == args.deep_view(),
            expected == receive_command(all, LOCALSEND_DEFAULT_PORT, false),
            expected == receive_command(all.skip(i as int), port, autoaccept),
        decreases args@.len() - i,
    {
        let ghost rest = all.skip(i as int);
        proof {
            assert(rest[0] == args@[i as int].deep_view());
            assert(rest.skip(1) =~= all.skip(i + 1));
            if i + 1 < args@.len() {
                assert(rest[1] == args@[i + 1].deep_view());
                assert(rest.skip(2) =~= all.skip(i + 2));
            }
        }
        match &args[i] {
            CliArg::Raw(_) => {
                return Err(CliError::ReceiveOptionIsNotText);
            },
            CliArg::Text(text) => {
                let text: &str = text.as_str();
                if same(text, "--port") {
                    i = i + 1;
                    if i == args.len() {
                        return Err(CliError::PortIsMissing);
                    }
                    match &args[i] {
                        CliArg::Raw(_) => {
                            return Err(CliError::PortIsNotText);
                        },
                        CliArg::Text(value) => match parse_port(value.as_str()) {
                            Some(given) => {
                                port = given;
                            },
                            None => {
                                return Err(CliError::PortIsInvalid(value.clone()));
                            },
                        },
                    }
                } else {
                    match after_prefix(text, "--port=") {
                        Some(value) => match parse_port(value.as_str()) {
                            Some(given) => {
                                port = given;
                            },
                            None => {
                                return Err(CliError::PortIsInvalid(value));
                            },
                        },
                        None => {
                            if same(text, "--autoaccept") || same(text, "--autoaceept") {
                                autoaccept = true;
                            } else if same(text, "-h") || same(text, "--help") {
                                return Ok(CliCommand::Help(RECEIVE_HELP));
                            } else {
                                return Err(CliError::UnknownReceiveOption(text.to_owned()));
                            }
                        },
                    }
                }
            },
        }
        i = i + 1;
    }
    Ok(CliCommand::Receive { port, autoaccept })
}

// ---------------------------------------------------------------------------
// Sharing
// ---------------------------------------------------------------------------

/// What the arguments `args` of `share` ask for, where those before them gave
/// `paths` and `clipboard`, and `positional_only` says whether all that follow
/// are paths.
pub open spec fn share_command<T>(
    args: Seq<ArgModel<T>>,
    paths: Seq<ArgModel<T>>,
    clipboard: bool,
    positional_only: bool,
) -> Result<CommandModel<T>, CliErrorModel>
    decreases args.len(),
{
    if args.len() == 0 {
        if paths.len() == 0 && !clipboard {
            Err(CliErrorModel::NothingToShare)
        } else {
            Ok(CommandModel::Share { paths, clipboard })
        }
    } else {
        let rest = args.skip(1);
        let as_path = share_command(rest, paths.push(args[0]), clipboard, positional_only);
        match args[0] {
            ArgModel::Text(text) => if positional_only {
                as_path
            } else if text == "--"@ {
                share_command(rest, paths, clipboard, true)
            } else if text == "--clipboard"@ {
                share_command(rest, paths, true, positional_only)
            } else if text == "-h"@ || text == "--help"@ {
                Ok(CommandModel::Help(SHARE_HELP@))
            } else if has_prefix(text, "-"@) {
                Err(CliErrorModel::UnknownShareOption(text))
            } else {
                as_path
            },
            ArgModel::Raw(_) => as_path,
        }
    }
}

/// What the arguments of `share` ask for.
pub fn parse_share_args<T>(args: Vec<CliArg<T>>) -> (r: Result<CliCommand<T>, CliError>)
    ensures
        is_outcome(r, share_command(args.deep_view(), Seq::empty(), false, false)),
{
    let ghost all = args.deep_view();
    let ghost expected = share_command(all, Seq::<ArgModel<T>>::empty(), false, false);
    let mut paths: Vec<CliArg<T>> = Vec::new();
    let mut clipboard: bool = false;
    let mut positional_only: bool = false;
    let mut i: usize = 0;
    let count: usize = args.len();
    assert(paths.deep_view() =~= Seq::<ArgModel<T>>::empty());
    assert(all.skip(0) =~= all);
    for arg in it: args
        invariant
            it.seq() == args@,
            i == it.index(),
            i <= count,
            count == args@.len(),
            all == args.deep_view(),
            expected == share_command(all, Seq::<ArgModel<T>>::empty(), false, false),
            expected == share_command(
                all.skip(i as int),
                paths.deep_view(),
                clipboard,
                positional_only,
            ),
    {
        let ghost before = paths.deep_view();
        let ghost rest = all.skip(i as int);
        proof {
            assert(arg == args@[i as int]);
            assert(rest[0] == arg.deep_view());
            assert(rest.skip(1) =~= all.skip(i + 1));
        }
        let mut is_path: bool = true;
        if !positional_only {
            match &arg {
                CliArg::Text(text) => {
                    let text: &str = text.as_str();
                    if same(text, "--") {
                        positional_only = true;
                        is_path = false;
                    } else if same(text, "--clipboard") {
                        clipboard = true;
                        is_path = false;
                    } else if same(text, "-h") || same(text, "--help") {
                        return Ok(CliCommand::Help(SHARE_HELP));
                    } else {
                        match after_prefix(text, "-") {
                            Some(_) => {
                                return Err(CliError::UnknownShareOption(text.to_owned()));
                            },
                            None => {},
                        }
                    }
                },
                CliArg::Raw(_) => {},
            }
        }
        if is_path {
            let ghost model = arg.deep_view();
            paths.push(arg);
            assert(paths.deep_view() =~= before.push(model));
        }
        i = i + 1;
    }
    if paths.len() == 0 && !clipboard {
        Err(CliError::NothingToShare)
    } else {
        Ok(CliCommand::Share { paths, clipboard })
    }
}

// ---------------------------------------------------------------------------
// Commands
// ---------------------------------------------------------------------------

/// What the command line `args` asks for.
pub open spec fn command<T>(args: Seq<ArgModel<T>>) -> Result<CommandModel<T>, CliErrorModel> {
    if args.len() == 0 {
        Ok(CommandModel::Help(HELP@))
    } else {
        match args[0] {
            ArgModel::Raw(_) => Err(CliErrorModel::CommandIsNotText),
            ArgModel::Text(name) => if name == "receive"@ {
                receive_command(args.skip(1), LOCALSEND_DEFAULT_PORT, false)
            } else if name == "share"@ {
                share_command(args.skip(1), Seq::empty(), false, false)
            } else if name == "help"@ || name == "-h"@ || name == "--help"@ {
                Ok(CommandModel::Help(HELP@))
            } else if name == "-V"@ || name == "--version"@ {
                Ok(CommandModel::Version)
            } else {
                Err(CliErrorModel::UnknownCommand(name))
            },
        }
    }
}

/// What the command line `args` asks for.
pub fn parse_cli<T>(args: Vec<CliArg<T>>) -> (r: Result<CliCommand<T>, CliError>)
    ensures
        is_outcome(r, command(args.deep_view())),
{
    if args.len() == 0 {
        return Ok(CliCommand::Help(HELP));
    }
    let ghost all = args.deep_view();
    assert(all[0] == args@[0].deep_view());
    let mut args: Vec<CliArg<T>> = args;
    let name: String = match args.remove(0) {
        CliArg::Raw(_) => {
            return Err(CliError::CommandIsNotText);
        },
        CliArg::Text(name) => name,
    };
    assert(args.deep_view() =~= all.skip(1));
    let text: &str = name.as_str();
    if same(text, "receive") {
        parse_receive_args(&args)
    } else if same(text, "share") {
        parse_share_args(args)
    } else if same(text, "help") || same(text, "-h") || same(text, "--help") {
        Ok(CliCommand::Help(HELP))
    } else if same(text, "-V") || same(text, "--version") {
        Ok(CliCommand::Version)
    } else {
        Err(CliError::UnknownCommand(name))
    }
}

// ---------------------------------------------------------------------------
// Laws
// ---------------------------------------------------------------------------

/// Both spellings of automatic acceptance ask for the same, whatever comes
/// before and after.
pub proof fn law_both_spellings_ask_for_the_same<T>(
    rest: Seq<ArgModel<T>>,
    port: u16,
    autoaccept: bool,
)
    ensures
        receive_command(seq![ArgModel::Text("--autoaccept"@)] + rest, port, autoaccept)
            == receive_command(rest, port, true),
        receive_command(seq![ArgModel::Text("--autoaceept"@)] + rest, port, autoaccept)
            == receive_command(rest, port, true),
{
    reveal_strlit("--autoaccept");
    reveal_strlit("--autoaceept");
    reveal_strlit("--port");
    reveal_strlit("--port=");
    let one = seq![ArgModel::<T>::Text("--autoaccept"@)] + rest;
    let other = seq![ArgModel::<T>::Text("--autoaceept"@)] + rest;
    assert(one.skip(1) =~= rest);
    assert(other.skip(1) =~= rest);
    assert("--autoaccept"@.take(7)[2] != "--port="@[2]);
    assert("--autoaceept"@.take(7)[2] != "--port="@[2]);
}

/// A port is given in one argument or in two, to the same effect.
pub proof fn law_port_is_given_in_one_or_two<T>(
    value: Seq<char>,
    rest: Seq<ArgModel<T>>,
    port: u16,
    autoaccept: bool,
)
    ensures
        receive_command(
            seq![ArgModel::Text("--port"@), ArgModel::Text(value)] + rest,
            port,
            autoaccept,
        ) == receive_command(
            seq![ArgModel::Text("--port="@ + value)] + rest,
            port,
            autoaccept,
        ),
{
    reveal_strlit("--port");
    reveal_strlit("--port=");
    let two = seq![ArgModel::<T>::Text("--port"@), ArgModel::Text(value)] + rest;
    let one = seq![ArgModel::<T>::Text("--port="@ + value)] + rest;
    assert(two.skip(2) =~= rest);
    assert(one.skip(1) =~= rest);
    let text = "--port="@ + value;
    assert(text.take(7) =~= "--port="@);
    assert(text.skip(7) =~= value);
    assert(text.len() >= 7);
}

/// Every port from 1 to 65535 can be given, by its decimal notation.
pub proof fn law_every_port_can_be_given(port: u16)
    requires
        port > 0,
    ensures
        port_of(decimal(port as nat)) == Some(port),
{
    law_decimal_reads_back(port as nat, u16::MAX as nat);
}

/// The port that is listened on is never 0.
pub proof fn law_port_is_never_zero<T>(args: Seq<ArgModel<T>>, port: u16, autoaccept: bool)
    requires
        port > 0,
    ensures
        receive_command(args, port, autoaccept) matches Ok(
            CommandModel::Receive { port: given, autoaccept: accepts },
        ) ==> given > 0,
    decreases args.len(),
{
    if args.len() > 0 {
        match args[0] {
            ArgModel::Text(text) => {
                if text == "--port"@ {
                    if args.len() >= 2 {
                        match args[1] {
                            ArgModel::Text(value) => {
                                if port_of(value) is Some {
                                    law_port_is_never_zero(
                                        args.skip(2),
                                        port_of(value)->0,
                                        autoaccept,
                                    );
                                }
                            },
                            _ => {},
                        }
                    }
                } else if has_prefix(text, "--port="@) {
                    let given = port_of(text.skip("--port="@.len() as int));
                    if given is Some {
                        law_port_is_never_zero(args.skip(1), given->0, autoaccept);
                    }
                } else {
                    law_port_is_never_zero(args.skip(1), port, true);
                }
            },
            _ => {},
        }
    }
}

/// After two dashes everything is a path, also what would be an option
/// otherwise.
pub proof fn law_after_dashes_all_are_paths<T>(
    args: Seq<ArgModel<T>>,
    paths: Seq<ArgModel<T>>,
    clipboard: bool,
)
    requires
        paths.len() + args.len() > 0 || clipboard,
    ensures
        share_command(seq![ArgModel::Text("--"@)] + args, paths, clipboard, false) == Ok::<
            CommandModel<T>,
            CliErrorModel,
        >(CommandModel::Share { paths: paths + args, clipboard }),
{
    assert((seq![ArgModel::<T>::Text("--"@)] + args).skip(1) =~= args);
    lemma_all_are_paths(args, paths, clipboard);
}

proof fn lemma_all_are_paths<T>(
    args: Seq<ArgModel<T>>,
    paths: Seq<ArgModel<T>>,
    clipboard: bool,
)
    requires
        paths.len() + args.len() > 0 || clipboard,
    ensures
        share_command(args, paths, clipboard, true) == Ok::<CommandModel<T>, CliErrorModel>(
            CommandModel::Share { paths: paths + args, clipboard },
        ),
    decreases args.len(),
{
    if args.len() > 0 {
        lemma_all_are_paths(args.skip(1), paths.push(args[0]), clipboard);
        assert(paths.push(args[0]) + args.skip(1) =~= paths + args);
    } else {
        assert(paths + args =~= paths);
    }
}

/// A share is of at least one file or of the clipboard.
pub proof fn law_shares_are_not_empty<T>(
    args: Seq<ArgModel<T>>,
    paths: Seq<ArgModel<T>>,
    clipboard: bool,
    positional_only: bool,
)
    ensures
        share_command(args, paths, clipboard, positional_only) matches Ok(
            CommandModel::Share { paths: given, clipboard: included },
        ) ==> given.len() > 0 || included,
    decreases args.len(),
{
    if args.len() > 0 {
        let rest = args.skip(1);
        law_shares_are_not_empty(rest, paths.push(args[0]), clipboard, positional_only);
        law_shares_are_not_empty(rest, paths, clipboard, true);
        law_shares_are_not_empty(rest, paths, true, positional_only);
    }
}

proof fn lemma_receive_goes_on<T>(
    args: Seq<ArgModel<T>>,
    more: Seq<ArgModel<T>>,
    port: u16,
    autoaccept: bool,
)
    ensures
        match receive_command(args, port, autoaccept) {
            Ok(CommandModel::Receive { port: p, autoaccept: a }) => receive_command(
                args + more,
                port,
                autoaccept,
            ) == receive_command(more, p, a),
            Err(CliErrorModel::PortIsMissing) => true,
            other => receive_command(args + more, port, autoaccept) == other,
        },
    decreases args.len(),
{
    let all = args + more;
    if args.len() == 0 {
        assert(all =~= more);
    } else {
        assert(all[0] == args[0]);
        assert(all.skip(1) =~= args.skip(1) + more);
        if args.len() >= 2 {
            assert(all[1] == args[1]);
            assert(all.skip(2) =~= args.skip(2) + more);
        }
        match args[0] {
            ArgModel::Text(text) => {
                if text == "--port"@ {
                    if args.len() >= 2 {
                        match args[1] {
                            ArgModel::Text(value) => {
                                if port_of(value) is Some {
                                    lemma_receive_goes_on(
                                        args.skip(2),
                                        more,
                                        port_of(value)->0,
                                        autoaccept,
                                    );
                                }
                            },
                            _ => {},
                        }
                    }
                } else if has_prefix(text, "--port="@) {
                    let given = port_of(text.skip("--port="@.len() as int));
                    if given is Some {
                        lemma_receive_goes_on(args.skip(1), more, given->0, autoaccept);
                    }
                } else {
                    lemma_receive_goes_on(args.skip(1), more, port, true);
                }
            },
            _ => {},
        }
    }
}

proof fn lemma_receive_options_differ(value: Seq<char>)
    ensures
        "--port"@ != "--autoaccept"@,
        "--port"@ != "--autoaceept"@,
        "--port"@ != "-h"@,
        "--port"@ != "--help"@,
        "--port="@ + value != "--port"@,
        "--autoaccept"@ != "-h"@,
        "--autoaccept"@ != "--help"@,
        "--autoaceept"@ != "-h"@,
        "--autoaceept"@ != "--help"@,
        has_prefix("--port="@ + value, "--port="@),
        ("--port="@ + value).skip("--port="@.len() as int) == value,
        !has_prefix("--autoaccept"@, "--port="@),
        !has_prefix("--autoaceept"@, "--port="@),
        !has_prefix("-h"@, "--port="@),
        !has_prefix("--help"@, "--port="@),
        !has_prefix("--port"@, "--port="@),
{
    reveal_strlit("--autoaccept");
    reveal_strlit("--autoaceept");
    reveal_strlit("--port");
    reveal_strlit("--port=");
    reveal_strlit("-h");
    reveal_strlit("--help");
    assert("--port"@.len() == 6);
    assert("--port="@.len() == 7);
    assert("--autoaccept"@.len() == 12);
    assert("--autoaceept"@.len() == 12);
    assert("-h"@.len() == 2);
    assert("--help"@.len() == 6);
    assert("--port"@[2] != "--help"@[2]);
    assert(("--port="@ + value).len() >= 7);
    assert(("--port="@ + value).take(7) =~= "--port="@);
    assert(("--port="@ + value).skip(7) =~= value);
    assert("--autoaccept"@.take(7)[2] != "--port="@[2]);
    assert("--autoaceept"@.take(7)[2] != "--port="@[2]);
}

/// `receive` alone asks for the well-known port and for every transfer to be
/// asked about. Each option after that changes what it is about and nothing
/// else: automatic acceptance under both of its spellings, and the port in one
/// argument or in two.
pub proof fn law_options_of_receive_add_up<T>(
    rest: Seq<ArgModel<T>>,
    port: u16,
    autoaccept: bool,
    value: Seq<char>,
)
    ensures
        command(seq![ArgModel::<T>::Text("receive"@)]) == Ok::<CommandModel<T>, CliErrorModel>(
            (CommandModel::Receive { port: 53317, autoaccept: false }),
        ),
        command(seq![ArgModel::<T>::Text("receive"@)] + rest) == Ok::<
            CommandModel<T>,
            CliErrorModel,
        >((CommandModel::Receive { port, autoaccept })) ==> {
            let so_far = seq![ArgModel::<T>::Text("receive"@)] + rest;
            &&& command(so_far + seq![ArgModel::Text("--autoaccept"@)]) == Ok::<
                CommandModel<T>,
                CliErrorModel,
            >((CommandModel::Receive { port, autoaccept: true }))
            &&& command(so_far + seq![ArgModel::Text("--autoaceept"@)]) == Ok::<
                CommandModel<T>,
                CliErrorModel,
            >((CommandModel::Receive { port, autoaccept: true }))
            &&& match port_of(value) {
                Some(given) => {
                    &&& command(so_far + seq![ArgModel::Text("--port="@ + value)]) == Ok::<
                        CommandModel<T>,
                        CliErrorModel,
                    >((CommandModel::Receive { port: given, autoaccept }))
                    &&& command(so_far + seq![ArgModel::Text("--port"@), ArgModel::Text(value)])
                        == Ok::<CommandModel<T>, CliErrorModel>(
                        (CommandModel::Receive { port: given, autoaccept }),
                    )
                },
                None => {
                    &&& command(so_far + seq![ArgModel::Text("--port="@ + value)]) == Err::<
                        CommandModel<T>,
                        CliErrorModel,
                    >(CliErrorModel::PortIsInvalid(value))
                    &&& command(so_far + seq![ArgModel::Text("--port"@), ArgModel::Text(value)])
                        == Err::<CommandModel<T>, CliErrorModel>(
                        CliErrorModel::PortIsInvalid(value),
                    )
                },
            }
        },
{
    reveal_with_fuel(receive_command, 2);
    let receive = seq![ArgModel::<T>::Text("receive"@)];
    let so_far = receive + rest;
    assert(receive.skip(1) =~= Seq::empty());
    assert(so_far.skip(1) =~= rest);
    lemma_receive_options_differ(value);
    let a = seq![ArgModel::<T>::Text("--autoaccept"@)];
    let b = seq![ArgModel::<T>::Text("--autoaceept"@)];
    let c = seq![ArgModel::<T>::Text("--port="@ + value)];
    let d = seq![ArgModel::<T>::Text("--port"@), ArgModel::Text(value)];
    assert((so_far + a).skip(1) =~= rest + a);
    assert((so_far + b).skip(1) =~= rest + b);
    assert((so_far + c).skip(1) =~= rest + c);
    assert((so_far + d).skip(1) =~= rest + d);
    lemma_receive_goes_on(rest, a, 53317, false);
    lemma_receive_goes_on(rest, b, 53317, false);
    lemma_receive_goes_on(rest, c, 53317, false);
    lemma_receive_goes_on(rest, d, 53317, false);
    assert(a.skip(1) =~= Seq::empty());
    assert(b.skip(1) =~= Seq::empty());
    assert(c.skip(1) =~= Seq::empty());
    assert(d.skip(2) =~= Seq::empty());
}

/// After options of `receive` that are understood, help is given where it is
/// asked for, and what is no option, or a port that is missing, is refused by
/// name.
pub proof fn law_other_options_of_receive_are_refused<T>(
    rest: Seq<ArgModel<T>>,
    text: Seq<char>,
    raw: T,
)
    requires
        command(seq![ArgModel::<T>::Text("receive"@)] + rest) matches Ok(
            CommandModel::Receive { port, autoaccept },
        ),
        text != "--port"@,
        text != "--autoaccept"@,
        text != "--autoaceept"@,
        text != "-h"@,
        text != "--help"@,
        !has_prefix(text, "--port="@),
    ensures
        ({
            let so_far = seq![ArgModel::<T>::Text("receive"@)] + rest;
            &&& command(so_far + seq![ArgModel::Text("-h"@)]) == Ok::<
                CommandModel<T>,
                CliErrorModel,
            >(CommandModel::Help(RECEIVE_HELP@))
            &&& command(so_far + seq![ArgModel::Text("--help"@)]) == Ok::<
                CommandModel<T>,
                CliErrorModel,
            >(CommandModel::Help(RECEIVE_HELP@))
            &&& command(so_far + seq![ArgModel::Text(text)]) == Err::<
                CommandModel<T>,
                CliErrorModel,
            >(CliErrorModel::UnknownReceiveOption(text))
            &&& command(so_far + seq![ArgModel::Raw(raw)]) == Err::<CommandModel<T>, CliErrorModel>(
                CliErrorModel::ReceiveOptionIsNotText,
            )
            &&& command(so_far + seq![ArgModel::Text("--port"@)]) == Err::<
                CommandModel<T>,
                CliErrorModel,
            >(CliErrorModel::PortIsMissing)
            &&& command(so_far + seq![ArgModel::Text("--port"@), ArgModel::Raw(raw)]) == Err::<
                CommandModel<T>,
                CliErrorModel,
            >(CliErrorModel::PortIsNotText)
        }),
{
    let so_far = seq![ArgModel::<T>::Text("receive"@)] + rest;
    assert(so_far.skip(1) =~= rest);
    lemma_receive_options_differ(text);
    let a = seq![ArgModel::<T>::Text("-h"@)];
    let b = seq![ArgModel::<T>::Text("--help"@)];
    let c = seq![ArgModel::<T>::Text(text)];
    let d = seq![ArgModel::<T>::Raw(raw)];
    let e = seq![ArgModel::<T>::Text("--port"@)];
    let f = seq![ArgModel::<T>::Text("--port"@), ArgModel::Raw(raw)];
    assert((so_far + a).skip(1) =~= rest + a);
    assert((so_far + b).skip(1) =~= rest + b);
    assert((so_far + c).skip(1) =~= rest + c);
    assert((so_far + d).skip(1) =~= rest + d);
    assert((so_far + e).skip(1) =~= rest + e);
    assert((so_far + f).skip(1) =~= rest + f);
    lemma_receive_goes_on(rest, a, 53317, false);
    lemma_receive_goes_on(rest, b, 53317, false);
    lemma_receive_goes_on(rest, c, 53317, false);
    lemma_receive_goes_on(rest, d, 53317, false);
    lemma_receive_goes_on(rest, e, 53317, false);
    lemma_receive_goes_on(rest, f, 53317, false);
}

/// Once help is asked for, or an argument of `receive` is refused, what follows
/// makes no difference; only a port that is missing may still follow.
pub proof fn law_first_refusal_of_receive_stands<T>(
    rest: Seq<ArgModel<T>>,
    more: Seq<ArgModel<T>>,
)
    requires
        command(seq![ArgModel::<T>::Text("receive"@)] + rest) is Err || command(
            seq![ArgModel::<T>::Text("receive"@)] + rest,
        )->Ok_0 is Help,
        command(seq![ArgModel::<T>::Text("receive"@)] + rest) != Err::<
            CommandModel<T>,
            CliErrorModel,
        >(CliErrorModel::PortIsMissing),
    ensures
        command(seq![ArgModel::<T>::Text("receive"@)] + rest + more) == command(
            seq![ArgModel::<T>::Text("receive"@)] + rest,
        ),
{
    let so_far = seq![ArgModel::<T>::Text("receive"@)] + rest;
    assert(so_far.skip(1) =~= rest);
    assert((so_far + more).skip(1) =~= rest + more);
    lemma_receive_goes_on(rest, more, 53317, false);
}

/// An option of `receive` that is understood.
pub enum ReceiveOption {
    /// Automatic acceptance.
    Accept,
    /// Automatic acceptance, in its other spelling.
    Aceept,
    /// A port, in an argument of its own.
    PortApart(Seq<char>),
    /// A port, in the same argument.
    PortJoined(Seq<char>),
}

/// How the options `options` are written on the command line.
pub open spec fn written<T>(options: Seq<ReceiveOption>) -> Seq<ArgModel<T>>
    decreases options.len(),
{
    if options.len() == 0 {
        Seq::empty()
    } else {
        written(options.drop_last()) + match options.last() {
            ReceiveOption::Accept => seq![ArgModel::Text("--autoaccept"@)],
            ReceiveOption::Aceept => seq![ArgModel::Text("--autoaceept"@)],
            ReceiveOption::PortApart(value) => seq![
                ArgModel::Text("--port"@),
                ArgModel::Text(value),
            ],
            ReceiveOption::PortJoined(value) => seq![ArgModel::Text("--port="@ + value)],
        }
    }
}

/// The port that an option of `receive` gives, where it gives one.
pub open spec fn given_port(option: ReceiveOption) -> Option<u16> {
    match option {
        ReceiveOption::PortApart(value) => port_of(value),
        ReceiveOption::PortJoined(value) => port_of(value),
        _ => None,
    }
}

/// `receive` with options that are understood asks for automatic acceptance if
/// and only if one of them does, and for the port that is given last, or the
/// well-known one where none is.
pub proof fn law_receive_asks_for_what_its_options_say<T>(options: Seq<ReceiveOption>)
    requires
        forall|i: int|
            0 <= i < options.len() ==> (#[trigger] options[i]) is Accept || options[i] is Aceept
                || given_port(options[i]) is Some,
    ensures
        command(seq![ArgModel::<T>::Text("receive"@)] + written::<T>(options)) matches Ok(
            CommandModel::Receive { port, autoaccept },
        ) && {
            &&& autoaccept <==> exists|i: int|
                0 <= i < options.len() && ((#[trigger] options[i]) is Accept
                    || options[i] is Aceept)
            &&& (forall|i: int|
                0 <= i < options.len() ==> given_port(#[trigger] options[i]) is None) ==> port
                == 53317
            &&& forall|i: int|
                (0 <= i < options.len() && given_port(#[trigger] options[i]) is Some && forall|
                    j: int,
                |
                    i < j < options.len() ==> given_port(#[trigger] options[j]) is None) ==> Some(
                    port,
                ) == given_port(options[i])
        },
    decreases options.len(),
{
    let receive = seq![ArgModel::<T>::Text("receive"@)];
    if options.len() == 0 {
        assert(receive + written::<T>(options) =~= receive);
        law_options_of_receive_add_up::<T>(Seq::empty(), 53317, false, Seq::empty());
    } else {
        let rest = options.drop_last();
        let last = options.last();
        assert forall|i: int| 0 <= i < rest.len() implies (#[trigger] rest[i]) is Accept
            || rest[i] is Aceept || given_port(rest[i]) is Some by {
            assert(rest[i] == options[i]);
        }
        law_receive_asks_for_what_its_options_say::<T>(rest);
        let before = command(receive + written::<T>(rest))->Ok_0;
        let port = before->Receive_port;
        let autoaccept = before->Receive_autoaccept;
        assert(options[options.len() - 1] == last);
        let value = match last {
            ReceiveOption::PortApart(value) => value,
            ReceiveOption::PortJoined(value) => value,
            _ => Seq::empty(),
        };
        law_options_of_receive_add_up(written::<T>(rest), port, autoaccept, value);
        let one = match last {
            ReceiveOption::Accept => seq![ArgModel::<T>::Text("--autoaccept"@)],
            ReceiveOption::Aceept => seq![ArgModel::<T>::Text("--autoaceept"@)],
            ReceiveOption::PortApart(value) => seq![
                ArgModel::<T>::Text("--port"@),
                ArgModel::Text(value),
            ],
            ReceiveOption::PortJoined(value) => seq![ArgModel::<T>::Text("--port="@ + value)],
        };
        assert(receive + written::<T>(options) =~= receive + written::<T>(rest) + one);
        let after = command(receive + written::<T>(options))->Ok_0;
        if autoaccept {
            let i = choose|i: int|
                0 <= i < rest.len() && ((#[trigger] rest[i]) is Accept || rest[i] is Aceept);
            assert(options[i] == rest[i]);
        }
        if exists|i: int|
            0 <= i < options.len() && ((#[trigger] options[i]) is Accept || options[i] is Aceept) {
            let i = choose|i: int|
                0 <= i < options.len() && ((#[trigger] options[i]) is Accept
                    || options[i] is Aceept);
            if i < rest.len() {
                assert(rest[i] == options[i]);
            }
        }
        if forall|i: int| 0 <= i < options.len() ==> given_port(#[trigger] options[i]) is None {
            assert forall|i: int| 0 <= i < rest.len() implies given_port(
                #[trigger] rest[i],
            ) is None by {
                assert(rest[i] == options[i]);
            }
        }
        assert forall|i: int|
            (0 <= i < options.len() && given_port(#[trigger] options[i]) is Some && forall|j: int|
                i < j < options.len() ==> given_port(#[trigger] options[j]) is None) implies Some(
            after->Receive_port,
        ) == given_port(options[i]) by {
            if i < rest.len() {
                assert(given_port(options[options.len() - 1]) is None);
                assert(rest[i] == options[i]);
                assert forall|j: int| i < j < rest.len() implies given_port(
                    #[trigger] rest[j],
                ) is None by {
                    assert(rest[j] == options[j]);
                }
            }
        }
    }
}

/// A port is a number that is not 0 and fits.
pub proof fn law_ports_are_numbers(text: Seq<char>)
    ensures
        match number(text, 65535) {
            Some(n) => {
                &&& n > 0 ==> port_of(text) is Some && port_of(text)->0 as nat == n
                &&& n == 0 ==> port_of(text) is None
            },
            None => port_of(text) is None,
        },
{
}

/// The first argument decides: without one, and for help, help is given; the
/// version where it is asked for; any other name is refused. Only `receive` and
/// `share` look at what follows.
pub proof fn law_first_argument_decides<T>(name: Seq<char>, raw: T, rest: Seq<ArgModel<T>>)
    requires
        name != "receive"@,
        name != "share"@,
    ensures
        command(Seq::<ArgModel<T>>::empty()) == Ok::<CommandModel<T>, CliErrorModel>(
            CommandModel::Help(HELP@),
        ),
        command(seq![ArgModel::<T>::Raw(raw)] + rest) == Err::<CommandModel<T>, CliErrorModel>(
            CliErrorModel::CommandIsNotText,
        ),
        command(seq![ArgModel::<T>::Text(name)] + rest) == (if name == "help"@ || name == "-h"@
            || name == "--help"@ {
            Ok::<CommandModel<T>, CliErrorModel>(CommandModel::Help(HELP@))
        } else if name == "-V"@ || name == "--version"@ {
            Ok(CommandModel::Version)
        } else {
            Err(CliErrorModel::UnknownCommand(name))
        }),
{
    assert((seq![ArgModel::<T>::Text(name)] + rest)[0] == ArgModel::<T>::Text(name));
    assert((seq![ArgModel::<T>::Raw(raw)] + rest)[0] == ArgModel::<T>::Raw(raw));
}

/// Whether `args` are paths and demands for the clipboard.
pub open spec fn are_plain<T>(args: Seq<ArgModel<T>>) -> bool {
    forall|i: int|
        0 <= i < args.len() ==> match #[trigger] args[i] {
            ArgModel::Text(text) => text == "--clipboard"@ || text.len() == 0 || text[0] != '-',
            ArgModel::Raw(_) => true,
        }
}

/// Those of `args` that are not a demand for the clipboard.
pub open spec fn paths_of<T>(args: Seq<ArgModel<T>>) -> Seq<ArgModel<T>> {
    args.filter(|arg: ArgModel<T>| arg != ArgModel::<T>::Text("--clipboard"@))
}

proof fn lemma_paths_of<T>(args: Seq<ArgModel<T>>)
    requires
        args.len() > 0,
    ensures
        paths_of(Seq::<ArgModel<T>>::empty()) == Seq::<ArgModel<T>>::empty(),
        args[0] != ArgModel::<T>::Text("--clipboard"@) ==> paths_of(args) == seq![args[0]]
            + paths_of(args.skip(1)),
        args[0] == ArgModel::<T>::Text("--clipboard"@) ==> paths_of(args) == paths_of(args.skip(1)),
    decreases args.len(),
{
    reveal(Seq::filter);
    let rest = args.skip(1);
    if args.len() > 1 {
        lemma_paths_of(args.drop_last());
        assert(args.drop_last().skip(1) =~= rest.drop_last());
        assert(args.drop_last()[0] == args[0]);
        assert(rest.last() == args.last());
        if args[0] != ArgModel::<T>::Text("--clipboard"@) {
            assert(paths_of(args) =~= seq![args[0]] + paths_of(rest));
        }
    } else {
        assert(args.drop_last() =~= Seq::empty());
        assert(rest =~= Seq::empty());
        assert(paths_of(rest) =~= Seq::empty());
        if args[0] != ArgModel::<T>::Text("--clipboard"@) {
            assert(paths_of(args) =~= seq![args[0]] + paths_of(rest));
        }
    }
}

proof fn lemma_share_goes_on<T>(
    args: Seq<ArgModel<T>>,
    more: Seq<ArgModel<T>>,
    paths: Seq<ArgModel<T>>,
    clipboard: bool,
)
    requires
        are_plain(args),
    ensures
        share_command(args + more, paths, clipboard, false) == share_command(
            more,
            paths + paths_of(args),
            clipboard || args.contains(ArgModel::<T>::Text("--clipboard"@)),
            false,
        ),
    decreases args.len(),
{
    let all = args + more;
    let asked = ArgModel::<T>::Text("--clipboard"@);
    if args.len() == 0 {
        reveal(Seq::filter);
        assert(all =~= more);
        assert(paths + paths_of(args) =~= paths);
    } else {
        reveal_strlit("--");
        reveal_strlit("-");
        reveal_strlit("-h");
        reveal_strlit("--help");
        reveal_strlit("--clipboard");
        let rest = args.skip(1);
        assert(all[0] == args[0]);
        assert(all.skip(1) =~= rest + more);
        assert(are_plain(rest)) by {
            assert forall|i: int| 0 <= i < rest.len() implies match #[trigger] rest[i] {
                ArgModel::Text(text) => text == "--clipboard"@ || text.len() == 0 || text[0] != '-',
                ArgModel::Raw(_) => true,
            } by {
                assert(rest[i] == args[i + 1]);
            }
        }
        lemma_paths_of(args);
        assert(args.contains(asked) <==> args[0] == asked || rest.contains(asked)) by {
            if args.contains(asked) {
                let i = choose|i: int| 0 <= i < args.len() && args[i] == asked;
                if i > 0 {
                    assert(rest[i - 1] == asked);
                }
            }
            if rest.contains(asked) {
                let i = choose|i: int| 0 <= i < rest.len() && rest[i] == asked;
                assert(args[i + 1] == asked);
            }
        }
        if args[0] == asked {
            assert("--clipboard"@.len() != "--"@.len());
            lemma_share_goes_on(rest, more, paths, true);
        } else {
            lemma_share_goes_on(rest, more, paths.push(args[0]), clipboard);
            assert(paths.push(args[0]) + paths_of(rest) =~= paths + paths_of(args));
            match args[0] {
                ArgModel::Text(text) => {
                    if has_prefix(text, "-"@) {
                        assert(text.take(1)[0] == "-"@[0]);
                        assert(text[0] == '-');
                    }
                    assert("--"@[0] == '-' && "-h"@[0] == '-' && "--help"@[0] == '-');
                },
                _ => {},
            }
        }
    }
}

/// `share` shares the paths in their order, and the clipboard if and only if that
/// is asked for; after two dashes everything is a path. Where there is neither a
/// path nor a demand for the clipboard there is nothing to share.
pub proof fn law_share_takes_the_paths_in_order<T>(
    args: Seq<ArgModel<T>>,
    more: Seq<ArgModel<T>>,
)
    requires
        are_plain(args),
    ensures
        ({
            let share = seq![ArgModel::<T>::Text("share"@)];
            let clipboard = args.contains(ArgModel::<T>::Text("--clipboard"@));
            &&& command(share + args) == (if args.len() == 0 {
                Err::<CommandModel<T>, CliErrorModel>(CliErrorModel::NothingToShare)
            } else {
                Ok((CommandModel::Share { paths: paths_of(args), clipboard }))
            })
            &&& command(share + args + seq![ArgModel::Text("--"@)] + more) == (if args.len() == 0
                && more.len() == 0 {
                Err::<CommandModel<T>, CliErrorModel>(CliErrorModel::NothingToShare)
            } else {
                Ok((CommandModel::Share { paths: paths_of(args) + more, clipboard }))
            })
        }),
{
    let share = seq![ArgModel::<T>::Text("share"@)];
    let dashes = seq![ArgModel::<T>::Text("--"@)];
    let asked = ArgModel::<T>::Text("--clipboard"@);
    let empty = Seq::<ArgModel<T>>::empty();
    reveal_strlit("receive");
    reveal_strlit("share");
    assert("receive"@.len() != "share"@.len());
    assert((share + args).skip(1) =~= args + empty);
    assert((share + args + dashes + more).skip(1) =~= args + (dashes + more));
    lemma_share_goes_on(args, empty, empty, false);
    lemma_share_goes_on(args, dashes + more, empty, false);
    assert(empty + paths_of(args) =~= paths_of(args));
    lemma_something_is_shared(args);
    if args.len() + more.len() > 0 {
        law_after_dashes_all_are_paths(more, paths_of(args), args.contains(asked));
    } else {
        reveal_with_fuel(share_command, 2);
        assert((dashes + more).skip(1) =~= empty);
    }
}

proof fn lemma_something_is_shared<T>(args: Seq<ArgModel<T>>)
    ensures
        paths_of(args).len() == 0 && !args.contains(ArgModel::<T>::Text("--clipboard"@)) <==>
            args.len() == 0,
{
    let asked = ArgModel::<T>::Text("--clipboard"@);
    if args.len() == 0 {
        reveal(Seq::filter);
    } else {
        lemma_paths_of(args);
        assert(args.contains(args[0]));
    }
}

/// After paths and demands for the clipboard, help is given by `share` where it
/// is asked for, and any other argument that begins with a dash is refused by
/// name, whatever follows.
pub proof fn law_other_options_of_share_are_refused<T>(
    args: Seq<ArgModel<T>>,
    text: Seq<char>,
    more: Seq<ArgModel<T>>,
)
    requires
        are_plain(args),
        text.len() > 0,
        text[0] == '-',
        text != "--"@,
        text != "--clipboard"@,
        text != "-h"@,
        text != "--help"@,
    ensures
        ({
            let share = seq![ArgModel::<T>::Text("share"@)];
            &&& command(share + args + seq![ArgModel::Text("-h"@)] + more) == Ok::<
                CommandModel<T>,
                CliErrorModel,
            >(CommandModel::Help(SHARE_HELP@))
            &&& command(share + args + seq![ArgModel::Text("--help"@)] + more) == Ok::<
                CommandModel<T>,
                CliErrorModel,
            >(CommandModel::Help(SHARE_HELP@))
            &&& command(share + args + seq![ArgModel::Text(text)] + more) == Err::<
                CommandModel<T>,
                CliErrorModel,
            >(CliErrorModel::UnknownShareOption(text))
        }),
{
    let share = seq![ArgModel::<T>::Text("share"@)];
    reveal_strlit("receive");
    reveal_strlit("share");
    reveal_strlit("--");
    reveal_strlit("-");
    reveal_strlit("-h");
    reveal_strlit("--help");
    reveal_strlit("--clipboard");
    assert("receive"@.len() != "share"@.len());
    assert("--"@[1] != "-h"@[1]);
    assert("--"@.len() == 2 && "-h"@.len() == 2 && "--help"@.len() == 6 && "--clipboard"@.len()
        == 11);
    let a = seq![ArgModel::<T>::Text("-h"@)];
    let b = seq![ArgModel::<T>::Text("--help"@)];
    let c = seq![ArgModel::<T>::Text(text)];
    let empty = Seq::<ArgModel<T>>::empty();
    assert((share + args + a + more).skip(1) =~= args + (a + more));
    assert((share + args + b + more).skip(1) =~= args + (b + more));
    assert((share + args + c + more).skip(1) =~= args + (c + more));
    lemma_share_goes_on(args, a + more, empty, false);
    lemma_share_goes_on(args, b + more, empty, false);
    lemma_share_goes_on(args, c + more, empty, false);
    assert(text.take(1) =~= "-"@);
}

/// An error says what was wrong, with the help that goes with it.
pub proof fn law_errors_say_what_was_wrong(name: Seq<char>)
    ensures
        CliErrorModel::UnknownCommand(name).text() == "unknown command `"@ + name + "`\n\n"@
            + HELP@,
        CliErrorModel::CommandIsNotText.text() == "command must be valid UTF-8"@,
        CliErrorModel::PortIsMissing.text() == "--port requires a port number"@,
        CliErrorModel::PortIsNotText.text() == "port must be valid UTF-8"@,
        CliErrorModel::PortIsInvalid(name).text() == "port must be a number from 1 to 65535"@,
        CliErrorModel::UnknownReceiveOption(name).text() == "unknown receive option `"@ + name
            + "`\n\n"@ + RECEIVE_HELP@,
        CliErrorModel::ReceiveOptionIsNotText.text() == "receive options must be valid UTF-8"@,
        CliErrorModel::UnknownShareOption(name).text() == "unknown share option `"@ + name
            + "`\n\n"@ + SHARE_HELP@,
        CliErrorModel::NothingToShare.text()
            == "share needs at least one file or --clipboard\n\n"@ + SHARE_HELP@,
{
}

/// `receive` alone, as it is typed, listens on the well-known port and asks about
/// every transfer; with options that are understood it accepts automatically if
/// and only if one of them says so, on the port that is given last, or the
/// well-known one where none is.
pub proof fn law_receive_is_parsed_as_typed<T>(
    args: Vec<CliArg<T>>,
    options: Seq<ReceiveOption>,
    r: Result<CliCommand<T>, CliError>,
)
    requires
        call_ensures(parse_cli::<T>, (args,), r),
        args.deep_view() == seq![ArgModel::<T>::Text("receive"@)] + written::<T>(options),
        forall|i: int|
            0 <= i < options.len() ==> (#[trigger] options[i]) is Accept || options[i] is Aceept
                || given_port(options[i]) is Some,
    ensures
        options.len() == 0 ==> r == Ok::<CliCommand<T>, CliError>(
            (CliCommand::Receive { port: 53317, autoaccept: false }),
        ),
        r matches Ok(CliCommand::Receive { port, autoaccept }) && {
            &&& autoaccept <==> exists|i: int|
                0 <= i < options.len() && ((#[trigger] options[i]) is Accept
                    || options[i] is Aceept)
            &&& (forall|i: int|
                0 <= i < options.len() ==> given_port(#[trigger] options[i]) is None) ==> port
                == 53317
            &&& forall|i: int|
                (0 <= i < options.len() && given_port(#[trigger] options[i]) is Some && forall|
                    j: int,
                |
                    i < j < options.len() ==> given_port(#[trigger] options[j]) is None) ==> Some(
                    port,
                ) == given_port(options[i])
        },
{
    law_receive_asks_for_what_its_options_say::<T>(options);
}

/// `share` as it is typed shares the paths in their order, and the clipboard if
/// and only if that is asked for.
pub proof fn law_share_is_parsed_as_typed<T>(
    args: Vec<CliArg<T>>,
    plain: Seq<ArgModel<T>>,
    r: Result<CliCommand<T>, CliError>,
)
    requires
        call_ensures(parse_cli::<T>, (args,), r),
        are_plain(plain),
        args.deep_view() == seq![ArgModel::<T>::Text("share"@)] + plain,
    ensures
        plain.len() == 0 ==> r == Err::<CliCommand<T>, CliError>(CliError::NothingToShare),
        plain.len() > 0 ==> (r matches Ok(CliCommand::Share { paths, clipboard })
            && paths.deep_view() == paths_of(plain) && clipboard == plain.contains(
            ArgModel::<T>::Text("--clipboard"@),
        )),
{
    law_share_takes_the_paths_in_order(plain, Seq::empty());
}

/// Arguments after `receive` and `share` are parsed as those of these commands.
pub proof fn law_commands_take_the_rest<T>(
    all: Vec<CliArg<T>>,
    rest: Vec<CliArg<T>>,
    r: Result<CliCommand<T>, CliError>,
    received: Result<CliCommand<T>, CliError>,
    shared: Result<CliCommand<T>, CliError>,
)
    requires
        call_ensures(parse_cli::<T>, (all,), r),
        call_ensures(parse_receive_args::<T>, (&rest,), received),
        call_ensures(parse_share_args::<T>, (rest,), shared),
    ensures
        all.deep_view() == seq![ArgModel::<T>::Text("receive"@)] + rest.deep_view() ==> is_outcome(
            received,
            command(all.deep_view()),
        ) && is_outcome(r, command(all.deep_view())),
        all.deep_view() == seq![ArgModel::<T>::Text("share"@)] + rest.deep_view() ==> is_outcome(
            shared,
            command(all.deep_view()),
        ) && is_outcome(r, command(all.deep_view())),
        all@.len() == 0 ==> (r matches Ok(CliCommand::Help(help)) && help@ == HELP@),
{
    reveal_strlit("receive");
    reveal_strlit("share");
    assert("receive"@.len() != "share"@.len());
    let receive = seq![ArgModel::<T>::Text("receive"@)] + rest.deep_view();
    let share = seq![ArgModel::<T>::Text("share"@)] + rest.deep_view();
    assert(receive.skip(1) =~= rest.deep_view());
    assert(share.skip(1) =~= rest.deep_view());
}

/// An outcome of parsing is what it is expected to be: the same command with the
/// same values, or the same error.
pub proof fn law_outcomes_are_as_expected<T>(
    r: Result<CliCommand<T>, CliError>,
    port: u16,
    autoaccept: bool,
    error: CliErrorModel,
)
    ensures
        is_outcome(r, Ok((CommandModel::Receive { port, autoaccept }))) <==> r == Ok::<
            CliCommand<T>,
            CliError,
        >((CliCommand::Receive { port, autoaccept })),
        is_outcome(r, Ok(CommandModel::Version)) <==> r == Ok::<CliCommand<T>, CliError>(
            CliCommand::Version,
        ),
        is_outcome(r, Err(error)) <==> r is Err && r->Err_0.deep_view() == error,
        r matches Ok(CliCommand::Help(help)) ==> is_outcome(r, Ok(CommandModel::Help(help@))),
        r matches Ok(CliCommand::Share { paths, clipboard }) ==> is_outcome(
            r,
            Ok((CommandModel::Share { paths: paths.deep_view(), clipboard })),
        ),
{
}

/// The message of an error says what was wrong, and with what.
pub proof fn law_messages_say_what_was_wrong(error: &CliError, message: String)
    requires
        call_ensures(CliError::message, (error,), message),
    ensures
        match error {
            CliError::UnknownCommand(name) => message@ == "unknown command `"@ + name@ + "`\n\n"@
                + HELP@,
            CliError::CommandIsNotText => message@ == "command must be valid UTF-8"@,
            CliError::PortIsMissing => message@ == "--port requires a port number"@,
            CliError::PortIsNotText => message@ == "port must be valid UTF-8"@,
            CliError::PortIsInvalid(_) => message@ == "port must be a number from 1 to 65535"@,
            CliError::UnknownReceiveOption(name) => message@ == "unknown receive option `"@
                + name@ + "`\n\n"@ + RECEIVE_HELP@,
            CliError::ReceiveOptionIsNotText => message@ == "receive options must be valid UTF-8"@,
            CliError::UnknownShareOption(name) => message@ == "unknown share option `"@ + name@
                + "`\n\n"@ + SHARE_HELP@,
            CliError::NothingToShare => message@
                == "share needs at least one file or --clipboard\n\n"@ + SHARE_HELP@,
        },
{
}

}
