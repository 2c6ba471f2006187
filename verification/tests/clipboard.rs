use monosend::clipboard::{
    ClipboardFile, ClipboardReader, ClipboardWriter, ReadOutcome, ReadStep, WriteOutcome,
    WriteStep,
};

fn read(outcomes: Vec<ReadOutcome>) -> Result<Vec<u8>, String> {
    let mut reader = ClipboardReader::new();
    for outcome in outcomes {
        match reader.read_clipboard(outcome) {
            ReadStep::Run(next) => reader = next,
            ReadStep::Contents(contents) => return Ok(contents),
            ReadStep::Failed(error) => return Err(error),
        }
    }
    panic!("the reader asks for more commands than there are")
}

fn write(outcomes: Vec<WriteOutcome>) -> Result<&'static str, String> {
    let mut writer = ClipboardWriter::new();
    for outcome in outcomes {
        match writer.write_clipboard(outcome) {
            WriteStep::Run(next) => writer = next,
            WriteStep::Written(program) => return Ok(program),
            WriteStep::Failed(error) => return Err(error),
        }
    }
    panic!("the writer asks for more commands than there are")
}

#[test]
fn first_successful_command_is_read() {
    assert_eq!(read(vec![ReadOutcome::Contents(vec![1])]), Ok(vec![1]));
    assert_eq!(
        read(vec![
            ReadOutcome::Missing,
            ReadOutcome::Failed,
            ReadOutcome::Contents(vec![2, 3])
        ]),
        Ok(vec![2, 3])
    );
    assert_eq!(
        read(vec![ReadOutcome::Missing, ReadOutcome::Failed, ReadOutcome::Missing]),
        Err("could not read the current text clipboard".to_string())
    );
    assert_eq!(
        read(vec![ReadOutcome::Missing, ReadOutcome::Missing, ReadOutcome::Missing]),
        Err("clipboard support needs wl-paste, xclip, or xsel to be installed".to_string())
    );
}

#[test]
fn commands_are_tried_in_turn() {
    let reader = ClipboardReader::new();
    assert_eq!(reader.command().program, "wl-paste");
    assert_eq!(reader.command().args, ["--no-newline"]);
    match reader.read_clipboard(ReadOutcome::Missing) {
        ReadStep::Run(reader) => {
            assert_eq!(reader.command().program, "xclip");
            assert_eq!(reader.command().args, ["-selection", "clipboard", "-out"]);
            match reader.read_clipboard(ReadOutcome::Missing) {
                ReadStep::Run(reader) => {
                    assert_eq!(reader.command().program, "xsel");
                    assert_eq!(reader.command().args, ["--clipboard", "--output"]);
                }
                _ => panic!("there is a third command"),
            }
        }
        _ => panic!("there is a second command"),
    }
    let writer = ClipboardWriter::new();
    assert_eq!(writer.command().program, "wl-copy");
    assert!(writer.command().args.is_empty());
    match writer.write_clipboard(WriteOutcome::Missing) {
        WriteStep::Run(writer) => {
            assert_eq!(writer.command().program, "xclip");
            assert_eq!(writer.command().args, ["-selection", "clipboard", "-in"]);
            match writer.write_clipboard(WriteOutcome::Missing) {
                WriteStep::Run(writer) => {
                    assert_eq!(writer.command().program, "xsel");
                    assert_eq!(writer.command().args, ["--clipboard", "--input"]);
                }
                _ => panic!("there is a third command"),
            }
        }
        _ => panic!("there is a second command"),
    }
}

#[test]
fn first_successful_command_writes() {
    assert_eq!(write(vec![WriteOutcome::Written]), Ok("wl-copy"));
    assert_eq!(write(vec![WriteOutcome::TimedOut, WriteOutcome::Written]), Ok("xclip"));
    assert_eq!(
        write(vec![WriteOutcome::Missing, WriteOutcome::Missing, WriteOutcome::Written]),
        Ok("xsel")
    );
    assert_eq!(
        write(vec![WriteOutcome::Missing, WriteOutcome::Missing, WriteOutcome::Missing]),
        Err("install wl-clipboard, xclip, or xsel".to_string())
    );
    assert_eq!(
        write(vec![
            WriteOutcome::Broken("denied".to_string()),
            WriteOutcome::NoInput,
            WriteOutcome::Exited("exit status: 1".to_string())
        ]),
        Err("wl-copy: denied; xclip: failed to open stdin; xsel: exited with exit status: 1"
            .to_string())
    );
    assert_eq!(
        write(vec![WriteOutcome::Missing, WriteOutcome::TimedOut, WriteOutcome::Missing]),
        Err("xclip: timed out".to_string())
    );
}

#[test]
fn clipboard_is_shared_as_a_text_file() {
    let file = ClipboardFile::with_id("42");
    assert_eq!(file.directory, "monosend-clipboard-42");
    assert_eq!(file.path, "monosend-clipboard-42/clipboard.txt");
    let one = ClipboardFile::create(&vec![104, 105]).unwrap();
    let other = ClipboardFile::create(&vec![104, 105]).unwrap();
    assert_ne!(one.directory, other.directory);
    assert_eq!(one.directory.len(), "monosend-clipboard-".len() + 36);
    assert_eq!(one.path, format!("{}/clipboard.txt", one.directory));
    assert_eq!(
        ClipboardFile::create(&Vec::new()).unwrap_err(),
        "the clipboard is empty"
    );
}
