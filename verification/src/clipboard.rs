//! The text clipboard, which is read and written through the command-line tools
//! of the desktop.
use vstd::prelude::*;
use vstd::string::*;

use crate::localsend::ids::is_random_uuid;
use crate::outside::fresh_id;
use crate::text::{join, join2, join3, joined};

verus! {

/// How many seconds to wait for a command that writes the clipboard.
pub const WRITE_WAIT_SECONDS: u64 = 5;

/// A command that is run for the clipboard.
#[derive(Debug)]
pub struct ClipboardCommand {
    pub program: &'static str,
    pub args: Vec<String>,
}

/// What a [`ClipboardCommand`] says.
#[verifier::ext_equal]
pub struct CommandModel {
    pub program: Seq<char>,
    pub args: Seq<Seq<char>>,
}

impl DeepView for ClipboardCommand {
    type V = CommandModel;

    open spec fn deep_view(&self) -> CommandModel {
        CommandModel { program: self.program@, args: self.args.deep_view() }
    }
}

/// How many commands there are to read the clipboard, and as many to write it.
pub const COMMANDS: usize = 3;

/// The command that reads the clipboard in the turn `i`.
pub open spec fn reading_command(i: nat) -> CommandModel {
    if i == 0 {
        CommandModel { program: "wl-paste"@, args: seq!["--no-newline"@] }
    } else if i == 1 {
        CommandModel { program: "xclip"@, args: seq!["-selection"@, "clipboard"@, "-out"@] }
    } else {
        CommandModel { program: "xsel"@, args: seq!["--clipboard"@, "--output"@] }
    }
}

/// The command that writes the clipboard in the turn `i`.
pub open spec fn writing_command(i: nat) -> CommandModel {
    if i == 0 {
        CommandModel { program: "wl-copy"@, args: Seq::empty() }
    } else if i == 1 {
        CommandModel { program: "xclip"@, args: seq!["-selection"@, "clipboard"@, "-in"@] }
    } else {
        CommandModel { program: "xsel"@, args: seq!["--clipboard"@, "--input"@] }
    }
}

fn one_arg(a: &str) -> (r: Vec<String>)
    ensures
        r.deep_view() == seq![a@],
{
    let mut out: Vec<String> = Vec::new();
    out.push(a.to_owned());
    assert(out.deep_view() =~= seq![a@]);
    out
}

fn two_args(a: &str, b: &str) -> (r: Vec<String>)
    ensures
        r.deep_view() == seq![a@, b@],
{
    let mut out: Vec<String> = Vec::new();
    out.push(a.to_owned());
    out.push(b.to_owned());
    assert(out.deep_view() =~= seq![a@, b@]);
    out
}

fn three_args(a: &str, b: &str, c: &str) -> (r: Vec<String>)
    ensures
        r.deep_view() == seq![a@, b@, c@],
{
    let mut out: Vec<String> = Vec::new();
    out.push(a.to_owned());
    out.push(b.to_owned());
    out.push(c.to_owned());
    assert(out.deep_view() =~= seq![a@, b@, c@]);
    out
}

// ---------------------------------------------------------------------------
// Reading
// ---------------------------------------------------------------------------

/// How a command that reads the clipboard went.
#[derive(Debug)]
pub enum ReadOutcome {
    /// It succeeded, with this output.
    Contents(Vec<u8>),
    /// It failed, or could not be run though it is there.
    Failed,
    /// There is no such command.
    Missing,
}

/// Reads the clipboard, one command after the other.
#[derive(Debug)]
pub struct ClipboardReader {
    turn: usize,
    found: bool,
}

/// What a [`ClipboardReader`] stands at: the turn of which command it is, and
/// whether one of those before it was there.
pub struct ReaderModel {
    pub turn: nat,
    pub found: bool,
}

impl DeepView for ClipboardReader {
    type V = ReaderModel;

    closed spec fn deep_view(&self) -> ReaderModel {
        ReaderModel { turn: self.turn as nat, found: self.found }
    }
}

/// What is to be done next to read the clipboard.
#[derive(Debug)]
pub enum ReadStep {
    /// Run the command whose turn it is.
    Run(ClipboardReader),
    /// These are the contents.
    Contents(Vec<u8>),
    /// The clipboard cannot be read, for this reason.
    Failed(String),
}

/// What a [`ReadStep`] says.
#[verifier::ext_equal]
pub enum ReadModel {
    Run(ReaderModel),
    Contents(Seq<u8>),
    Failed(Seq<char>),
}

impl DeepView for ReadStep {
    type V = ReadModel;

    open spec fn deep_view(&self) -> ReadModel {
        match *self {
            ReadStep::Run(reader) => ReadModel::Run(reader.deep_view()),
            ReadStep::Contents(contents) => ReadModel::Contents(contents@),
            ReadStep::Failed(error) => ReadModel::Failed(error@),
        }
    }
}

/// Why the clipboard could not be read, where `found` says whether any of the
/// commands was there.
pub open spec fn unread(found: bool) -> Seq<char> {
    if found {
        "could not read the current text clipboard"@
    } else {
        "clipboard support needs wl-paste, xclip, or xsel to be installed"@
    }
}

/// What is to be done next when the command whose turn it is went as `outcome`
/// says.
pub open spec fn read_step(reader: ReaderModel, outcome: ReadOutcome) -> ReadModel {
    match outcome {
        ReadOutcome::Contents(contents) => ReadModel::Contents(contents@),
        _ => {
            let found = reader.found || outcome is Failed;
            if reader.turn + 1 < COMMANDS {
                ReadModel::Run(ReaderModel { turn: reader.turn + 1, found })
            } else {
                ReadModel::Failed(unread(found))
            }
        },
    }
}

impl ClipboardReader {
    #[verifier::type_invariant]
    spec fn has_a_turn(&self) -> bool {
        self.turn < COMMANDS
    }

    /// Starts with the first command.
    pub fn new() -> (r: Self)
        ensures
            r.deep_view() == (ReaderModel { turn: 0, found: false }),
    {
        ClipboardReader { turn: 0, found: false }
    }

    /// The command whose turn it is.
    pub fn command(&self) -> (r: ClipboardCommand)
        ensures
            r.deep_view() == reading_command(self.deep_view().turn),
    {
        if self.turn == 0 {
            ClipboardCommand { program: "wl-paste", args: one_arg("--no-newline") }
        } else if self.turn == 1 {
            ClipboardCommand {
                program: "xclip",
                args: three_args("-selection", "clipboard", "-out"),
            }
        } else {
            ClipboardCommand { program: "xsel", args: two_args("--clipboard", "--output") }
        }
    }

    /// Takes note of how the command whose turn it is went.
    pub fn read_clipboard(self, outcome: ReadOutcome) -> (r: ReadStep)
        ensures
            self.deep_view().turn < COMMANDS,
            r.deep_view() == read_step(self.deep_view(), outcome),
    {
        proof {
            use_type_invariant(&self);
        }
        let failed: bool = match outcome {
            ReadOutcome::Contents(contents) => {
                return ReadStep::Contents(contents);
            },
            ReadOutcome::Failed => true,
            ReadOutcome::Missing => false,
        };
        let found: bool = self.found || failed;
        if self.turn + 1 < COMMANDS {
            ReadStep::Run(ClipboardReader { turn: self.turn + 1, found })
        } else if found {
            ReadStep::Failed("could not read the current text clipboard".to_owned())
        } else {
            ReadStep::Failed(
                "clipboard support needs wl-paste, xclip, or xsel to be installed".to_owned(),
            )
        }
    }
}

// ---------------------------------------------------------------------------
// Writing
// ---------------------------------------------------------------------------

/// How a command that writes the clipboard went.
#[derive(Debug)]
pub enum WriteOutcome {
    /// It succeeded.
    Written,
    /// There is no such command.
    Missing,
    /// It could not be run, written to or waited for, for this reason.
    Broken(String),
    /// It has no input to write to.
    NoInput,
    /// It ended with this status.
    Exited(String),
    /// It did not end in time.
    TimedOut,
}

/// What went wrong by `outcome`, if anything did with a command that is there.
pub open spec fn complaint(outcome: WriteOutcome) -> Option<Seq<char>> {
    match outcome {
        WriteOutcome::Written => None,
        WriteOutcome::Missing => None,
        WriteOutcome::Broken(error) => Some(error@),
        WriteOutcome::NoInput => Some("failed to open stdin"@),
        WriteOutcome::Exited(status) => Some("exited with "@ + status@),
        WriteOutcome::TimedOut => Some("timed out"@),
    }
}

/// Writes the clipboard, one command after the other.
#[derive(Debug)]
pub struct ClipboardWriter {
    turn: usize,
    errors: Vec<String>,
}

/// What a [`ClipboardWriter`] stands at: the turn of which command it is, and
/// what went wrong with those before it.
#[verifier::ext_equal]
pub struct WriterModel {
    pub turn: nat,
    pub errors: Seq<Seq<char>>,
}

impl DeepView for ClipboardWriter {
    type V = WriterModel;

    closed spec fn deep_view(&self) -> WriterModel {
        WriterModel { turn: self.turn as nat, errors: self.errors.deep_view() }
    }
}

/// What is to be done next to write the clipboard.
#[derive(Debug)]
pub enum WriteStep {
    /// Run the command whose turn it is.
    Run(ClipboardWriter),
    /// The clipboard is written, by this program.
    Written(&'static str),
    /// The clipboard cannot be written, for this reason.
    Failed(String),
}

/// What a [`WriteStep`] says.
#[verifier::ext_equal]
pub enum WriteModel {
    Run(WriterModel),
    Written(Seq<char>),
    Failed(Seq<char>),
}

impl DeepView for WriteStep {
    type V = WriteModel;

    open spec fn deep_view(&self) -> WriteModel {
        match *self {
            WriteStep::Run(writer) => WriteModel::Run(writer.deep_view()),
            WriteStep::Written(program) => WriteModel::Written(program@),
            WriteStep::Failed(error) => WriteModel::Failed(error@),
        }
    }
}

/// What went wrong with the commands so far when the one in the turn `turn`
/// went as `outcome` says.
pub open spec fn complaints(writer: WriterModel, outcome: WriteOutcome) -> Seq<Seq<char>> {
    match complaint(outcome) {
        Some(error) => writer.errors.push(
            writing_command(writer.turn).program + ": "@ + error,
        ),
        None => writer.errors,
    }
}

/// Why the clipboard could not be written, where `errors` went wrong with the
/// commands that are there.
pub open spec fn unwritten(errors: Seq<Seq<char>>) -> Seq<char> {
    if errors.len() == 0 {
        "install wl-clipboard, xclip, or xsel"@
    } else {
        joined(errors, "; "@)
    }
}

/// What is to be done next when the command whose turn it is went as `outcome`
/// says.
pub open spec fn write_step(writer: WriterModel, outcome: WriteOutcome) -> WriteModel {
    if outcome is Written {
        WriteModel::Written(writing_command(writer.turn).program)
    } else if writer.turn + 1 < COMMANDS {
        WriteModel::Run(
            WriterModel { turn: writer.turn + 1, errors: complaints(writer, outcome) },
        )
    } else {
        WriteModel::Failed(unwritten(complaints(writer, outcome)))
    }
}

impl ClipboardWriter {
    #[verifier::type_invariant]
    spec fn has_a_turn(&self) -> bool {
        self.turn < COMMANDS
    }

    /// Starts with the first command.
    pub fn new() -> (r: Self)
        ensures
            r.deep_view() == (WriterModel { turn: 0, errors: Seq::empty() }),
    {
        let errors: Vec<String> = Vec::new();
        assert(errors.deep_view() =~= Seq::<Seq<char>>::empty());
        ClipboardWriter { turn: 0, errors }
    }

    fn program(&self) -> (r: &'static str)
        ensures
            r@ == writing_command(self.deep_view().turn).program,
    {
        if self.turn == 0 {
            "wl-copy"
        } else if self.turn == 1 {
            "xclip"
        } else {
            "xsel"
        }
    }

    /// The command whose turn it is.
    pub fn command(&self) -> (r: ClipboardCommand)
        ensures
            r.deep_view() == writing_command(self.deep_view().turn),
    {
        let program: &'static str = self.program();
        if self.turn == 0 {
            let args: Vec<String> = Vec::new();
            assert(args.deep_view() =~= Seq::<Seq<char>>::empty());
            ClipboardCommand { program, args }
        } else if self.turn == 1 {
            ClipboardCommand { program, args: three_args("-selection", "clipboard", "-in") }
        } else {
            ClipboardCommand { program, args: two_args("--clipboard", "--input") }
        }
    }

    /// Takes note of how the command whose turn it is went.
    pub fn write_clipboard(self, outcome: WriteOutcome) -> (r: WriteStep)
        ensures
            self.deep_view().turn < COMMANDS,
            r.deep_view() == write_step(self.deep_view(), outcome),
    {
        proof {
            use_type_invariant(&self);
        }
        let program: &'static str = self.program();
        let turn: usize = self.turn;
        let error: Option<String> = match outcome {
            WriteOutcome::Written => {
                return WriteStep::Written(program);
            },
            WriteOutcome::Missing => None,
            WriteOutcome::Broken(error) => Some(error),
            WriteOutcome::NoInput => Some("failed to open stdin".to_owned()),
            WriteOutcome::Exited(status) => Some(join2("exited with ", status.as_str())),
            WriteOutcome::TimedOut => Some("timed out".to_owned()),
        };
        let ghost before = self.errors.deep_view();
        let mut errors: Vec<String> = self.errors;
        match error {
            Some(error) => {
                let line: String = join3(program, ": ", error.as_str());
                errors.push(line);
                assert(errors.deep_view() =~= before.push(line@));
            },
            None => {},
        }
        if turn + 1 < COMMANDS {
            WriteStep::Run(ClipboardWriter { turn: turn + 1, errors })
        } else if errors.len() == 0 {
            WriteStep::Failed("install wl-clipboard, xclip, or xsel".to_owned())
        } else {
            WriteStep::Failed(join(&errors, "; "))
        }
    }
}

// ---------------------------------------------------------------------------
// The file that is shared
// ---------------------------------------------------------------------------

/// A file with the contents of the clipboard, below the directory for temporary
/// files: the directory that is made for it, and its path.
#[derive(Debug)]
pub struct ClipboardFile {
    pub directory: String,
    pub path: String,
}

/// What a [`ClipboardFile`] says.
#[verifier::ext_equal]
pub struct ClipboardFileModel {
    pub directory: Seq<char>,
    pub path: Seq<char>,
}

impl DeepView for ClipboardFile {
    type V = ClipboardFileModel;

    open spec fn deep_view(&self) -> ClipboardFileModel {
        ClipboardFileModel { directory: self.directory@, path: self.path@ }
    }
}

/// The file for the contents of the clipboard with the identifier `id`.
pub open spec fn clipboard_file(id: Seq<char>) -> ClipboardFileModel {
    let directory = "monosend-clipboard-"@ + id;
    ClipboardFileModel { directory, path: directory + "/"@ + "clipboard.txt"@ }
}

impl ClipboardFile {
    /// The file with the identifier `id`.
    pub fn with_id(id: &str) -> (r: Self)
        ensures
            r.deep_view() == clipboard_file(id@),
    {
        let directory: String = join2("monosend-clipboard-", id);
        let path: String = join3(directory.as_str(), "/", "clipboard.txt");
        ClipboardFile { directory, path }
    }

    /// The file for `contents`, with a random identifier. There is none for an
    /// empty clipboard.
    pub fn create(contents: &Vec<u8>) -> (r: Result<Self, String>)
        ensures
            contents@.len() == 0 ==> r is Err && r->Err_0@ == "the clipboard is empty"@,
            contents@.len() > 0 ==> r is Ok && exists|id: String|
                #[trigger] call_ensures(fresh_id, (), id) && is_random_uuid(id@)
                    && r->Ok_0.deep_view() == clipboard_file(id@),
    {
        if contents.len() == 0 {
            return Err("the clipboard is empty".to_owned());
        }
        let id: String = fresh_id();
        Ok(ClipboardFile::with_id(id.as_str()))
    }
}

// ---------------------------------------------------------------------------
// Laws
// ---------------------------------------------------------------------------

/// What comes of reading the clipboard when the commands would go as `first`,
/// `second` and `third` say.
pub open spec fn reading(
    first: ReadOutcome,
    second: ReadOutcome,
    third: ReadOutcome,
) -> ReadModel {
    match read_step(ReaderModel { turn: 0, found: false }, first) {
        ReadModel::Run(reader) => match read_step(reader, second) {
            ReadModel::Run(reader) => read_step(reader, third),
            done => done,
        },
        done => done,
    }
}

/// The contents of the clipboard are those that the first successful command
/// gives. Where none succeeds the clipboard is not read, and the reason depends
/// on whether there is any command at all.
pub proof fn law_first_success_is_read(first: ReadOutcome, second: ReadOutcome, third: ReadOutcome)
    ensures
        reading(first, second, third) == (if first is Contents {
            ReadModel::Contents(first->Contents_0@)
        } else if second is Contents {
            ReadModel::Contents(second->Contents_0@)
        } else if third is Contents {
            ReadModel::Contents(third->Contents_0@)
        } else {
            ReadModel::Failed(unread(first is Failed || second is Failed || third is Failed))
        }),
{
}

/// What comes of writing the clipboard when the commands would go as `first`,
/// `second` and `third` say.
pub open spec fn writing(
    first: WriteOutcome,
    second: WriteOutcome,
    third: WriteOutcome,
) -> WriteModel {
    match write_step(WriterModel { turn: 0, errors: Seq::empty() }, first) {
        WriteModel::Run(writer) => match write_step(writer, second) {
            WriteModel::Run(writer) => write_step(writer, third),
            done => done,
        },
        done => done,
    }
}

/// The clipboard is written if and only if one of the commands succeeds, and
/// then by the first that does. Where all are missing, it is said what to
/// install.
pub proof fn law_first_success_is_written(
    first: WriteOutcome,
    second: WriteOutcome,
    third: WriteOutcome,
)
    ensures
        first is Written ==> writing(first, second, third) == WriteModel::Written("wl-copy"@),
        first !is Written && second is Written ==> writing(first, second, third)
            == WriteModel::Written("xclip"@),
        first !is Written && second !is Written && third is Written ==> writing(
            first,
            second,
            third,
        ) == WriteModel::Written("xsel"@),
        writing(first, second, third) is Written <==> first is Written || second is Written
            || third is Written,
        first is Missing && second is Missing && third is Missing ==> writing(first, second, third)
            == WriteModel::Failed("install wl-clipboard, xclip, or xsel"@),
{
}

/// The clipboard is read by `wl-paste`, `xclip` and `xsel` in turn, and written by
/// `wl-copy`, `xclip` and `xsel`, each with the arguments for the clipboard
/// rather than another selection.
pub proof fn law_clipboard_has_its_commands()
    ensures
        COMMANDS == 3,
        reading_command(0).program == "wl-paste"@,
        reading_command(0).args == seq!["--no-newline"@],
        reading_command(1).program == "xclip"@,
        reading_command(1).args == seq!["-selection"@, "clipboard"@, "-out"@],
        reading_command(2).program == "xsel"@,
        reading_command(2).args == seq!["--clipboard"@, "--output"@],
        writing_command(0).program == "wl-copy"@,
        writing_command(0).args == Seq::<Seq<char>>::empty(),
        writing_command(1).program == "xclip"@,
        writing_command(1).args == seq!["-selection"@, "clipboard"@, "-in"@],
        writing_command(2).program == "xsel"@,
        writing_command(2).args == seq!["--clipboard"@, "--input"@],
        WRITE_WAIT_SECONDS == 5,
{
}

/// Contents end the reading as they are. Anything else passes the turn on, and
/// after the last turn is the reason why nothing was read; whether a command was
/// there is remembered.
pub proof fn law_reading_passes_the_turn_on(reader: ReaderModel, outcome: ReadOutcome)
    requires
        reader.turn < 3,
    ensures
        outcome matches ReadOutcome::Contents(contents) ==> read_step(reader, outcome)
            == ReadModel::Contents(contents@),
        outcome is Failed && reader.turn < 2 ==> read_step(reader, outcome) == ReadModel::Run(
            (ReaderModel { turn: reader.turn + 1, found: true }),
        ),
        outcome is Missing && reader.turn < 2 ==> read_step(reader, outcome) == ReadModel::Run(
            (ReaderModel { turn: reader.turn + 1, found: reader.found }),
        ),
        outcome is Failed && reader.turn == 2 ==> read_step(reader, outcome) == ReadModel::Failed(
            "could not read the current text clipboard"@,
        ),
        outcome is Missing && reader.turn == 2 && reader.found ==> read_step(reader, outcome)
            == ReadModel::Failed("could not read the current text clipboard"@),
        outcome is Missing && reader.turn == 2 && !reader.found ==> read_step(reader, outcome)
            == ReadModel::Failed(
            "clipboard support needs wl-paste, xclip, or xsel to be installed"@,
        ),
{
}

/// A command that is there and does not write the clipboard leaves a complaint
/// under its name, and a missing one leaves none; the turn passes on. After the
/// last turn the complaints are the reason why nothing was written, or else what
/// to install.
pub proof fn law_writing_passes_the_turn_on(writer: WriterModel, outcome: WriteOutcome)
    requires
        writer.turn < 3,
        outcome !is Written,
    ensures
        ({
            let program = if writer.turn == 0 {
                "wl-copy"@
            } else if writer.turn == 1 {
                "xclip"@
            } else {
                "xsel"@
            };
            let errors = match outcome {
                WriteOutcome::Broken(error) => writer.errors.push(program + ": "@ + error@),
                WriteOutcome::NoInput => writer.errors.push(
                    program + ": "@ + "failed to open stdin"@,
                ),
                WriteOutcome::Exited(status) => writer.errors.push(
                    program + ": "@ + ("exited with "@ + status@),
                ),
                WriteOutcome::TimedOut => writer.errors.push(program + ": "@ + "timed out"@),
                _ => writer.errors,
            };
            &&& writer.turn < 2 ==> write_step(writer, outcome) == WriteModel::Run(
                (WriterModel { turn: writer.turn + 1, errors }),
            )
            &&& writer.turn == 2 && errors.len() == 0 ==> write_step(writer, outcome)
                == WriteModel::Failed("install wl-clipboard, xclip, or xsel"@)
            &&& writer.turn == 2 && errors.len() > 0 ==> write_step(writer, outcome)
                == WriteModel::Failed(joined(errors, "; "@))
        }),
{
}

/// The file with the contents of the clipboard is `clipboard.txt`, in a directory
/// of its own.
pub proof fn law_clipboard_file_has_its_own_directory(id: Seq<char>, other: Seq<char>)
    ensures
        clipboard_file(id).directory == "monosend-clipboard-"@ + id,
        clipboard_file(id).path == clipboard_file(id).directory + "/"@ + "clipboard.txt"@,
        id != other ==> clipboard_file(id).directory != clipboard_file(other).directory,
{
    if clipboard_file(id).directory == clipboard_file(other).directory {
        let n = "monosend-clipboard-"@.len() as int;
        assert(("monosend-clipboard-"@ + id).skip(n) =~= id);
        assert(("monosend-clipboard-"@ + other).skip(n) =~= other);
    }
}

/// A reader runs one command after the other until one gives the contents, which
/// are handed on as they are; there is no fourth.
pub proof fn law_reader_hands_the_contents_on(
    reader: ClipboardReader,
    outcome: ReadOutcome,
    step: ReadStep,
)
    requires
        call_ensures(ClipboardReader::read_clipboard, (reader, outcome), step),
    ensures
        outcome matches ReadOutcome::Contents(contents) ==> (step matches ReadStep::Contents(given)
            && given@ == contents@),
        outcome !is Contents ==> step !is Contents,
        outcome !is Contents && reader.deep_view().turn < 2 ==> (step matches ReadStep::Run(next)
            && next.deep_view().turn == reader.deep_view().turn + 1),
        outcome !is Contents && reader.deep_view().turn >= 2 ==> step is Failed,
{
    law_reading_passes_the_turn_on(reader.deep_view(), outcome);
}

/// A writer runs one command after the other until one succeeds, and names that
/// one; there is no fourth.
pub proof fn law_writer_names_the_program(
    writer: ClipboardWriter,
    outcome: WriteOutcome,
    step: WriteStep,
    command: ClipboardCommand,
)
    requires
        call_ensures(ClipboardWriter::write_clipboard, (writer, outcome), step),
        call_ensures(ClipboardWriter::command, (&writer,), command),
    ensures
        outcome is Written <==> step is Written,
        step matches WriteStep::Written(program) ==> program@ == command.program@,
        outcome !is Written && writer.deep_view().turn < 2 ==> (step matches WriteStep::Run(next)
            && next.deep_view().turn == writer.deep_view().turn + 1),
        outcome !is Written && writer.deep_view().turn >= 2 ==> step is Failed,
{
    if outcome !is Written {
        law_writing_passes_the_turn_on(writer.deep_view(), outcome);
    }
}

/// Nothing is shared of an empty clipboard; for any other contents there is a file
/// with the name `clipboard.txt`.
pub proof fn law_clipboard_is_shared_unless_empty(
    contents: &Vec<u8>,
    r: Result<ClipboardFile, String>,
)
    requires
        call_ensures(ClipboardFile::create, (contents,), r),
    ensures
        r is Ok <==> contents@.len() > 0,
        r is Err ==> r->Err_0@ == "the clipboard is empty"@,
        r is Ok ==> r->Ok_0.path@ == r->Ok_0.directory@ + "/"@ + "clipboard.txt"@,
{
}

/// A reader and a writer start with the first command, and run the command whose
/// turn it is.
pub proof fn law_clipboard_starts_with_the_first_command(
    reader: ClipboardReader,
    writer: ClipboardWriter,
    reading: ClipboardCommand,
    writing: ClipboardCommand,
    id: &str,
    file: ClipboardFile,
)
    requires
        call_ensures(ClipboardReader::new, (), reader),
        call_ensures(ClipboardWriter::new, (), writer),
        call_ensures(ClipboardReader::command, (&reader,), reading),
        call_ensures(ClipboardWriter::command, (&writer,), writing),
        call_ensures(ClipboardFile::with_id, (id,), file),
    ensures
        reader.deep_view().turn == 0,
        !reader.deep_view().found,
        writer.deep_view().turn == 0,
        writer.deep_view().errors.len() == 0,
        reading.program@ == "wl-paste"@,
        writing.program@ == "wl-copy"@,
        file.directory@ == "monosend-clipboard-"@ + id@,
        file.path@ == "monosend-clipboard-"@ + id@ + "/"@ + "clipboard.txt"@,
{
}

}
