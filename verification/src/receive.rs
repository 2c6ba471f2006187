//! The receiver that is controlled through desktop notifications: what it does
//! with events, how requests are put to the user and how they are answered.
use vstd::prelude::*;
use vstd::string::*;

use crate::events::{AppEvent, EventModel, IncomingTransferRequest, RequestModel};
use crate::localsend::protocol::{FileDto, FileModel};
use crate::outside::host_name;
use crate::path::{
    extension, extension_of, file_name, file_name_of, law_dotted_names_have_an_extension,
    law_extension_follows_the_last_dot, law_last_part_is_the_name,
};
use crate::sizes::{sum, sum_up};
use crate::text::{
    decimal, decimal_text, join, join2, join3, joined, lowered, same, same_lowered, trim, trimmed,
};

verus! {

/// The name of the device with the given host name.
pub open spec fn alias_of(hostname: Option<Seq<char>>) -> Seq<char> {
    "monosend ("@ + match hostname {
        Some(name) => name,
        None => "device"@,
    } + ")"@
}

/// The name of the device with the given host name; `hostname` is `None` where
/// it is not known.
pub fn alias_for(hostname: Option<String>) -> (r: String)
    ensures
        r@ == alias_of(hostname.deep_view()),
{
    match hostname {
        Some(name) => join3("monosend (", name.as_str(), ")"),
        None => join3("monosend (", "device", ")"),
    }
}

/// The name under which this device goes, after the host name that `host_name`
/// came to.
pub fn device_alias() -> (r: String)
    ensures
        exists|name: Option<String>|
            #[trigger] call_ensures(host_name, (), name) && r@ == alias_of(name.deep_view()),
{
    alias_for(host_name())
}

// ---------------------------------------------------------------------------
// What is told
// ---------------------------------------------------------------------------

/// What is told when the receiver starts.
pub fn listening_line(port: u16, download_dir: &str) -> (r: String)
    ensures
        r@ == "Listening for LocalSend transfers on port "@ + decimal(port as nat)
            + "; saving to "@ + download_dir@,
{
    let mut out: String = join3(
        "Listening for LocalSend transfers on port ",
        decimal_text(port as u64).as_str(),
        "; saving to ",
    );
    out.append(download_dir);
    out
}

/// What is told of how requests are answered.
pub fn acceptance_line(autoaccept: bool) -> (r: &'static str)
    ensures
        r@ == if autoaccept {
            "Automatic acceptance is enabled. Press Ctrl+C to stop."@
        } else {
            "Incoming requests will appear as desktop notifications. Press Ctrl+C to stop."@
        },
{
    if autoaccept {
        "Automatic acceptance is enabled. Press Ctrl+C to stop."
    } else {
        "Incoming requests will appear as desktop notifications. Press Ctrl+C to stop."
    }
}

/// Whether the file at `path` is a text file: one with the extension `txt`, in
/// whatever case.
pub open spec fn is_text_path(path: Seq<char>) -> bool {
    match file_name_of(path) {
        Some(name) => match extension_of(name) {
            Some(extension) => lowered(extension) == "txt"@,
            None => false,
        },
        None => false,
    }
}

/// Whether the file at `path` is a text file.
pub fn is_text_file(path: &str) -> (r: bool)
    ensures
        r == is_text_path(path@),
{
    match extension(path) {
        Some(extension) => same_lowered(extension.as_str(), "txt"),
        None => false,
    }
}

/// What the receiver does with an event.
#[derive(Debug)]
pub enum ReceiveAction {
    /// Answer this request.
    Answer(IncomingTransferRequest),
    /// Print a line, and show a notification.
    Inform { line: String, title: &'static str, body: String },
    /// Print a line as an error, and show a notification.
    Warn { line: String, title: &'static str, body: String },
    /// Print that so many bytes were received in the session.
    Received { session_id: String, total_bytes: u64 },
    /// Copy the text file at this path to the clipboard.
    Copy(String),
    /// Do nothing.
    Ignore,
}

/// What a [`ReceiveAction`] says.
#[verifier::ext_equal]
pub enum ActionModel {
    Answer(RequestModel),
    Inform { line: Seq<char>, title: Seq<char>, body: Seq<char> },
    Warn { line: Seq<char>, title: Seq<char>, body: Seq<char> },
    Received { session_id: Seq<char>, total_bytes: u64 },
    Copy(Seq<char>),
    Ignore,
}

impl DeepView for ReceiveAction {
    type V = ActionModel;

    open spec fn deep_view(&self) -> ActionModel {
        match *self {
            ReceiveAction::Answer(request) => ActionModel::Answer(request.deep_view()),
            ReceiveAction::Inform { line, title, body } => ActionModel::Inform {
                line: line@,
                title: title@,
                body: body@,
            },
            ReceiveAction::Warn { line, title, body } => ActionModel::Warn {
                line: line@,
                title: title@,
                body: body@,
            },
            ReceiveAction::Received { session_id, total_bytes } => ActionModel::Received {
                session_id: session_id@,
                total_bytes,
            },
            ReceiveAction::Copy(path) => ActionModel::Copy(path@),
            ReceiveAction::Ignore => ActionModel::Ignore,
        }
    }
}

/// What the receiver does with `event`.
pub open spec fn action_for(event: EventModel) -> ActionModel {
    match event {
        EventModel::IncomingTransfer(request) => ActionModel::Answer(request),
        EventModel::TransferCompleted { session_id, message } => ActionModel::Inform {
            line: "["@ + session_id + "] "@ + message,
            title: "LocalSend transfer complete"@,
            body: message,
        },
        EventModel::TransferFailed { session_id, error } => ActionModel::Warn {
            line: "Transfer "@ + session_id + " failed: "@ + error,
            title: "LocalSend transfer failed"@,
            body: error,
        },
        EventModel::TransferProgress {
            session_id,
            file_id,
            bytes_transferred,
            total_bytes,
            is_upload,
        } => if !is_upload && total_bytes > 0 && bytes_transferred == total_bytes {
            ActionModel::Received { session_id, total_bytes }
        } else {
            ActionModel::Ignore
        },
        EventModel::FileReceived { path } => if is_text_path(path) {
            ActionModel::Copy(path)
        } else {
            ActionModel::Ignore
        },
        EventModel::PeerDiscovered(_) => ActionModel::Ignore,
        EventModel::StatusMessage(_) => ActionModel::Ignore,
    }
}

/// What the receiver does with `event`.
pub fn handle_event(event: AppEvent) -> (r: ReceiveAction)
    ensures
        r.deep_view() == action_for(event.deep_view()),
{
    match event {
        AppEvent::IncomingTransfer(request) => ReceiveAction::Answer(request),
        AppEvent::TransferCompleted { session_id, message } => {
            let mut line: String = join3("[", session_id.as_str(), "] ");
            line.append(message.as_str());
            ReceiveAction::Inform { line, title: "LocalSend transfer complete", body: message }
        },
        AppEvent::TransferFailed { session_id, error } => {
            let mut line: String = join3("Transfer ", session_id.as_str(), " failed: ");
            line.append(error.as_str());
            ReceiveAction::Warn { line, title: "LocalSend transfer failed", body: error }
        },
        AppEvent::TransferProgress {
            session_id,
            file_id: _,
            bytes_transferred,
            total_bytes,
            is_upload,
        } => {
            if !is_upload && total_bytes > 0 && bytes_transferred == total_bytes {
                ReceiveAction::Received { session_id, total_bytes }
            } else {
                ReceiveAction::Ignore
            }
        },
        AppEvent::FileReceived { path } => {
            if is_text_file(path.as_str()) {
                ReceiveAction::Copy(path)
            } else {
                ReceiveAction::Ignore
            }
        },
        AppEvent::PeerDiscovered(_) => ReceiveAction::Ignore,
        AppEvent::StatusMessage(_) => ReceiveAction::Ignore,
    }
}

/// What is told when everything was received in the session; `size` is the
/// number of bytes in words.
pub fn received_line(session_id: &str, size: &str) -> (r: String)
    ensures
        r@ == "["@ + session_id@ + "] Received "@ + size@,
{
    let mut out: String = join3("[", session_id, "] Received ");
    out.append(size);
    out
}

/// What came of copying a received text file to the clipboard.
#[derive(Debug)]
pub enum CopyOutcome {
    /// The file could not be read, for this reason.
    Unread(String),
    /// It was copied by this program.
    Copied(&'static str),
    /// It could not be copied, for this reason.
    NotCopied(String),
}

/// The name of the file at `path`, which is empty where it has none.
pub open spec fn shown_name(path: Seq<char>) -> Seq<char> {
    match file_name_of(path) {
        Some(name) => name,
        None => Seq::empty(),
    }
}

/// What is told when copying the text file at `path` went as `outcome` says.
pub open spec fn copy_line(path: Seq<char>, outcome: CopyOutcome) -> Seq<char> {
    match outcome {
        CopyOutcome::Unread(error) => "Could not read "@ + path + " for the clipboard: "@ + error@,
        CopyOutcome::Copied(program) => "Copied "@ + shown_name(path)
            + " to the clipboard using "@ + program@ + "."@,
        CopyOutcome::NotCopied(error) => "Could not copy "@ + path + " to the clipboard: "@
            + error@,
    }
}

/// What is told when copying the text file at `path` went as `outcome` says:
/// whether it was copied, and in words.
pub fn copy_received_text_to_clipboard(path: &str, outcome: &CopyOutcome) -> (r: (bool, String))
    ensures
        r.0 == (*outcome is Copied),
        r.1@ == copy_line(path@, *outcome),
{
    match outcome {
        CopyOutcome::Unread(error) => {
            let mut out: String = join3("Could not read ", path, " for the clipboard: ");
            out.append(error.as_str());
            (false, out)
        },
        CopyOutcome::Copied(program) => {
            let name: String = match file_name(path) {
                Some(name) => name,
                None => String::new(),
            };
            let mut out: String = join3("Copied ", name.as_str(), " to the clipboard using ");
            out.append(program);
            out.append(".");
            (true, out)
        },
        CopyOutcome::NotCopied(error) => {
            let mut out: String = join3("Could not copy ", path, " to the clipboard: ");
            out.append(error.as_str());
            (false, out)
        },
    }
}

// ---------------------------------------------------------------------------
// Requests
// ---------------------------------------------------------------------------

/// The number of bytes of `files`.
pub open spec fn size_of(files: Seq<FileModel>) -> nat {
    sum(files.map_values(|file: FileModel| file.size))
}

/// The number of bytes that `request` offers, or `None` where it is too large
/// to count.
pub fn requested_size(request: &IncomingTransferRequest) -> (r: Option<u64>)
    ensures
        r is Some <==> size_of(request.deep_view().files) <= u64::MAX,
        r matches Some(n) ==> n as nat == size_of(request.deep_view().files),
{
    let files: &Vec<FileDto> = &request.files;
    let mut sizes: Vec<u64> = Vec::new();
    let mut i: usize = 0;
    while i < files.len()
        invariant
            i <= files@.len(),
            sizes@.len() == i,
            forall|j: int| 0 <= j < i ==> (#[trigger] sizes@[j]) == files@[j].size,
        decreases files@.len() - i,
    {
        sizes.push(files[i].size);
        i = i + 1;
    }
    assert(sizes@ =~= files.deep_view().map_values(|file: FileModel| file.size));
    sum_up(&sizes)
}

/// How many files of a request are named.
pub const NAMED_FILES: usize = 4;

/// The names of the first few of `files`.
pub open spec fn first_names(files: Seq<FileModel>) -> Seq<Seq<char>> {
    let shown = if files.len() > NAMED_FILES {
        files.take(NAMED_FILES as int)
    } else {
        files
    };
    shown.map_values(|file: FileModel| file.file_name)
}

/// The names of the first few of `files`, and how many more there are.
pub open spec fn names_of(files: Seq<FileModel>) -> Seq<char> {
    let names = joined(first_names(files), ", "@);
    if files.len() > NAMED_FILES {
        names + ", and "@ + decimal((files.len() - NAMED_FILES) as nat) + " more"@
    } else {
        names
    }
}

/// How `request` is put to the user, where `size` is its size in words and
/// `prompt` says what will come of it.
pub open spec fn body_of(
    request: RequestModel,
    size: Seq<char>,
    download_dir: Seq<char>,
    prompt: Seq<char>,
) -> Seq<char> {
    request.peer.alias + " wants to send "@ + decimal(request.files.len()) + " file(s) ("@ + size
        + ")\n"@ + names_of(request.files) + "\nSave to: "@ + download_dir + "\n"@ + prompt + "."@
}

fn names(files: &Vec<FileDto>) -> (r: String)
    ensures
        r@ == names_of(files.deep_view()),
{
    let mut shown: Vec<String> = Vec::new();
    let mut i: usize = 0;
    while i < files.len() && i < NAMED_FILES
        invariant
            i <= files@.len(),
            i <= NAMED_FILES,
            shown@.len() == i,
            forall|j: int|
                0 <= j < i ==> (#[trigger] shown@[j])@ == files@[j].deep_view().file_name,
        decreases files@.len() - i,
    {
        shown.push(files[i].file_name.clone());
        i = i + 1;
    }
    assert(shown.deep_view() =~= first_names(files.deep_view()));
    let mut out: String = join(&shown, ", ");
    if files.len() > NAMED_FILES {
        out.append(", and ");
        out.append(decimal_text((files.len() - NAMED_FILES) as u64).as_str());
        out.append(" more");
    }
    out
}

/// How `request` is put to the user.
pub fn request_body(
    request: &IncomingTransferRequest,
    size: &str,
    download_dir: &str,
    prompt: &str,
) -> (r: String)
    ensures
        r@ == body_of(request.deep_view(), size@, download_dir@, prompt@),
{
    let mut out: String = join3(
        request.peer.alias.as_str(),
        " wants to send ",
        decimal_text(request.files.len() as u64).as_str(),
    );
    out.append(" file(s) (");
    out.append(size);
    out.append(")\n");
    out.append(names(&request.files).as_str());
    out.append("\nSave to: ");
    out.append(download_dir);
    out.append("\n");
    out.append(prompt);
    out.append(".");
    out
}

/// How a request is answered.
#[derive(Debug)]
pub enum Answering {
    /// Accept it, and show this notification.
    Accept { title: &'static str, body: String },
    /// Ask by a notification with this text.
    Ask { body: String },
}

/// What an [`Answering`] says.
#[verifier::ext_equal]
pub enum AnsweringModel {
    Accept { title: Seq<char>, body: Seq<char> },
    Ask { body: Seq<char> },
}

impl DeepView for Answering {
    type V = AnsweringModel;

    open spec fn deep_view(&self) -> AnsweringModel {
        match *self {
            Answering::Accept { title, body } => AnsweringModel::Accept {
                title: title@,
                body: body@,
            },
            Answering::Ask { body } => AnsweringModel::Ask { body: body@ },
        }
    }
}

/// How `request` is answered: it is accepted where that is automatic, and put
/// to the user otherwise.
pub open spec fn answering(
    request: RequestModel,
    autoaccept: bool,
    size: Seq<char>,
    download_dir: Seq<char>,
) -> AnsweringModel {
    if autoaccept {
        AnsweringModel::Accept {
            title: "Incoming LocalSend transfer"@,
            body: body_of(request, size, download_dir, "Accepting automatically"@),
        }
    } else {
        AnsweringModel::Ask {
            body: body_of(request, size, download_dir, "Choose whether to receive it"@),
        }
    }
}

/// How `request` is answered.
pub fn answer_request(
    request: &IncomingTransferRequest,
    autoaccept: bool,
    size: &str,
    download_dir: &str,
) -> (r: Answering)
    ensures
        r.deep_view() == answering(request.deep_view(), autoaccept, size@, download_dir@),
{
    if autoaccept {
        Answering::Accept {
            title: "Incoming LocalSend transfer",
            body: request_body(request, size, download_dir, "Accepting automatically"),
        }
    } else {
        Answering::Ask {
            body: request_body(request, size, download_dir, "Choose whether to receive it"),
        }
    }
}

/// How `notify-send` went that put a request to the user.
#[derive(Debug)]
pub enum NotificationOutcome {
    /// It could not be run.
    NotRun,
    /// It ended, with success or without, and with this output.
    Ended { success: bool, stdout: String, stderr: String },
}

/// What the user decided, or why no decision could be collected.
pub open spec fn collected(outcome: NotificationOutcome) -> Result<bool, Seq<char>> {
    match outcome {
        NotificationOutcome::NotRun => Err(
            "failed to run notify-send; make sure libnotify is installed"@,
        ),
        NotificationOutcome::Ended { success, stdout, stderr } => if success {
            Ok(trimmed(stdout@) == "accept"@)
        } else if trimmed(stderr@).len() == 0 {
            Err("notify-send exited without a selection"@)
        } else {
            Err(trimmed(stderr@))
        },
    }
}

/// What the user decided, or why no decision could be collected.
pub fn ask_through_notification(outcome: &NotificationOutcome) -> (r: Result<bool, String>)
    ensures
        match collected(*outcome) {
            Ok(accepted) => r == Ok::<bool, String>(accepted),
            Err(reason) => r is Err && r->Err_0@ == reason,
        },
{
    match outcome {
        NotificationOutcome::NotRun => Err(
            "failed to run notify-send; make sure libnotify is installed".to_owned(),
        ),
        NotificationOutcome::Ended { success, stdout, stderr } => {
            if *success {
                Ok(same(trim(stdout.as_str()).as_str(), "accept"))
            } else {
                let reason: String = trim(stderr.as_str());
                if reason.as_str().is_empty() {
                    Err("notify-send exited without a selection".to_owned())
                } else {
                    Err(reason)
                }
            }
        },
    }
}

/// The answer to a request that was put to the user, and what is told as errors
/// on the way.
#[derive(Debug)]
pub struct Decision {
    pub accepted: bool,
    pub complaints: Vec<String>,
}

/// What is told as errors where no decision could be collected.
pub open spec fn undecided(reason: Seq<char>) -> Seq<Seq<char>> {
    seq![
        "Could not show actionable notification: "@ + reason,
        "Declining the transfer because no decision could be collected."@,
    ]
}

/// The answer to a request that was put to the user: where no decision could be
/// collected it is declined.
pub fn decide(outcome: &NotificationOutcome) -> (r: Decision)
    ensures
        match collected(*outcome) {
            Ok(accepted) => r.accepted == accepted && r.complaints@.len() == 0,
            Err(reason) => !r.accepted && r.complaints.deep_view() == undecided(reason),
        },
{
    let mut complaints: Vec<String> = Vec::new();
    match ask_through_notification(outcome) {
        Ok(accepted) => Decision { accepted, complaints },
        Err(reason) => {
            complaints.push(join2("Could not show actionable notification: ", reason.as_str()));
            complaints.push(
                "Declining the transfer because no decision could be collected.".to_owned(),
            );
            assert(complaints.deep_view() =~= undecided(reason@));
            Decision { accepted: false, complaints }
        },
    }
}

/// What is told of the answer to a request from the device `alias`.
pub fn answer_line(alias: &str, accepted: bool) -> (r: String)
    ensures
        r@ == (if accepted {
            "Accepted"@
        } else {
            "Declined"@
        }) + " transfer from "@ + alias@ + "."@,
{
    let action: &str = if accepted {
        "Accepted"
    } else {
        "Declined"
    };
    let mut out: String = join3(action, " transfer from ", alias);
    out.append(".");
    out
}

/// The arguments with which `notify-send` shows `body` under `title`.
pub open spec fn information_args(title: Seq<char>, body: Seq<char>) -> Seq<Seq<char>> {
    seq!["--app-name=monosend"@, "--icon=document-save"@, title, body]
}

/// The arguments with which `notify-send` shows `body` under `title`.
pub fn show_information(title: &str, body: &str) -> (r: Vec<String>)
    ensures
        r.deep_view() == information_args(title@, body@),
{
    let mut args: Vec<String> = Vec::new();
    args.push("--app-name=monosend".to_owned());
    args.push("--icon=document-save".to_owned());
    args.push(title.to_owned());
    args.push(body.to_owned());
    assert(args.deep_view() =~= information_args(title@, body@));
    args
}

/// The arguments with which `notify-send` puts a request to the user and waits
/// for the answer.
pub open spec fn question_args(body: Seq<char>) -> Seq<Seq<char>> {
    seq![
        "--app-name=monosend"@,
        "--icon=document-save"@,
        "--expire-time=0"@,
        "--wait"@,
        "--action=accept=Accept"@,
        "--action=decline=Decline"@,
        "Incoming LocalSend file"@,
        body,
    ]
}

/// The arguments with which `notify-send` puts a request to the user and waits
/// for the answer.
pub fn ask_for_decision(body: &str) -> (r: Vec<String>)
    ensures
        r.deep_view() == question_args(body@),
{
    let mut args: Vec<String> = Vec::new();
    args.push("--app-name=monosend".to_owned());
    args.push("--icon=document-save".to_owned());
    args.push("--expire-time=0".to_owned());
    args.push("--wait".to_owned());
    args.push("--action=accept=Accept".to_owned());
    args.push("--action=decline=Decline".to_owned());
    args.push("Incoming LocalSend file".to_owned());
    args.push(body.to_owned());
    assert(args.deep_view() =~= question_args(body@));
    args
}

// ---------------------------------------------------------------------------
// Laws
// ---------------------------------------------------------------------------

/// A request that is put to the user is accepted only where the user chose to
/// accept it.
pub proof fn law_only_accept_accepts(outcome: NotificationOutcome)
    ensures
        collected(outcome) == Ok::<bool, Seq<char>>(true) <==> (outcome matches
            NotificationOutcome::Ended { success, stdout, stderr } && success && trimmed(stdout@)
            == "accept"@),
{
}

/// Only received text files are copied to the clipboard, and each of them is.
pub proof fn law_received_text_is_copied(event: EventModel)
    ensures
        action_for(event) is Copy <==> (event matches EventModel::FileReceived { path }
            && is_text_path(path)),
{
}

/// Whether a file is a text file does not depend on the case of its extension.
pub proof fn law_case_of_txt_is_irrelevant(a: Seq<char>, b: Seq<char>)
    requires
        file_name_of(a) is Some,
        file_name_of(b) is Some,
        extension_of(file_name_of(a)->0) is Some,
        extension_of(file_name_of(b)->0) is Some,
        lowered(extension_of(file_name_of(a)->0)->0) == lowered(
            extension_of(file_name_of(b)->0)->0,
        ),
    ensures
        is_text_path(a) == is_text_path(b),
{
}

/// Each kind of event has its action, with what the event says: a request is
/// answered, a completed transfer is told of with its message, a failed one with
/// its error, and everything that was received with its size. What was sent,
/// what is not yet complete, files that are no text, devices and messages leave
/// the receiver quiet.
pub proof fn law_receiver_acts_on_what_the_event_says(event: AppEvent)
    ensures
        ({
            let action = action_for(event.deep_view());
            match event {
                AppEvent::IncomingTransfer(request) => action == ActionModel::Answer(
                    (RequestModel {
                        peer: request.peer.deep_view(),
                        files: request.files.deep_view(),
                    }),
                ),
                AppEvent::TransferCompleted { session_id, message } => action
                    == (ActionModel::Inform {
                    line: "["@ + session_id@ + "] "@ + message@,
                    title: "LocalSend transfer complete"@,
                    body: message@,
                }),
                AppEvent::TransferFailed { session_id, error } => action == (ActionModel::Warn {
                    line: "Transfer "@ + session_id@ + " failed: "@ + error@,
                    title: "LocalSend transfer failed"@,
                    body: error@,
                }),
                AppEvent::TransferProgress {
                    session_id,
                    file_id,
                    bytes_transferred,
                    total_bytes,
                    is_upload,
                } => {
                    &&& action is Received <==> !is_upload && total_bytes > 0 && bytes_transferred
                        == total_bytes
                    &&& action is Received ==> action == (ActionModel::Received {
                        session_id: session_id@,
                        total_bytes,
                    })
                    &&& !(action is Received) ==> action is Ignore
                },
                AppEvent::FileReceived { path } => {
                    &&& is_text_path(path@) ==> action == ActionModel::Copy(path@)
                    &&& !is_text_path(path@) ==> action is Ignore
                },
                AppEvent::PeerDiscovered(_) => action is Ignore,
                AppEvent::StatusMessage(_) => action is Ignore,
            }
        }),
{
}

/// A file is a text file exactly where what comes after the last dot of its name
/// is `txt`, in whatever case and in whatever directory.
pub proof fn law_text_files_end_in_txt(directory: Seq<char>, stem: Seq<char>, extension: Seq<char>)
    requires
        stem.len() > 0,
        !extension.contains('.'),
        !stem.contains('/'),
        !extension.contains('/'),
        stem + "."@ + extension != ".."@,
    ensures
        is_text_path(directory + "/"@ + (stem + "."@ + extension)) <==> lowered(extension)
            == "txt"@,
        is_text_path(stem + "."@ + extension) <==> lowered(extension) == "txt"@,
        !is_text_path(extension),
{
    reveal_strlit("");
    law_dotted_names_have_an_extension(directory, stem, extension);
    law_extension_follows_the_last_dot(stem, extension);
    if extension.len() == 0 {
        assert(extension =~= ""@);
        lemma_no_text_without_a_name();
    } else {
        reveal_strlit(".");
        reveal_strlit("..");
        if extension == "."@ || extension == ".."@ {
            assert(extension[0] == '.');
        }
        law_last_part_is_the_name(directory, extension);
    }
}

proof fn lemma_no_text_without_a_name()
    ensures
        !is_text_path(""@),
{
    reveal_strlit("txt");
    reveal_strlit(".");
    reveal_strlit("..");
    assert("txt"@.len() == 3 && "."@.len() == 1 && ".."@.len() == 2);
    law_last_part_is_the_name(Seq::empty(), "txt"@);
}

/// This device goes by its host name, or is called a device where that is not
/// known.
pub proof fn law_device_goes_by_its_host_name(name: Seq<char>)
    ensures
        alias_of(Some(name)) == "monosend ("@ + name + ")"@,
        alias_of(None) == "monosend ("@ + "device"@ + ")"@,
{
}

/// What is told of a copy to the clipboard says how it went.
pub proof fn law_copies_are_told_of(path: Seq<char>, outcome: CopyOutcome)
    ensures
        match outcome {
            CopyOutcome::Unread(error) => copy_line(path, outcome) == "Could not read "@ + path
                + " for the clipboard: "@ + error@,
            CopyOutcome::NotCopied(error) => copy_line(path, outcome) == "Could not copy "@ + path
                + " to the clipboard: "@ + error@,
            CopyOutcome::Copied(program) => match file_name_of(path) {
                Some(name) => copy_line(path, outcome) == "Copied "@ + name
                    + " to the clipboard using "@ + program@ + "."@,
                None => copy_line(path, outcome) == "Copied "@ + Seq::empty()
                    + " to the clipboard using "@ + program@ + "."@,
            },
        },
{
}

/// The size of a request is counted file by file.
pub proof fn law_requested_files_are_counted_one_by_one(files: Seq<FileModel>, file: FileModel)
    ensures
        size_of(Seq::empty()) == 0,
        size_of(files.push(file)) == size_of(files) + file.size,
{
    let size = |file: FileModel| file.size;
    assert(files.push(file).map_values(size).drop_last() =~= files.map_values(size));
}

/// Up to four files of a request are named, in their order; beyond that the first
/// four are, and how many more there are.
pub proof fn law_up_to_four_files_are_named(files: Seq<FileModel>, i: int)
    ensures
        first_names(files).len() == (if files.len() <= 4 {
            files.len()
        } else {
            4
        }),
        0 <= i < files.len() && i < 4 ==> first_names(files)[i] == files[i].file_name,
        files.len() <= 4 ==> names_of(files) == joined(first_names(files), ", "@),
        files.len() > 4 ==> names_of(files) == joined(first_names(files), ", "@) + ", and "@
            + decimal((files.len() - 4) as nat) + " more"@,
{
}

/// A request is put to the user with its sender, the number, the size and the
/// names of its files, where they go, and what will come of it. It is accepted
/// without asking exactly where that is automatic.
pub proof fn law_requests_are_put_in_full(
    request: RequestModel,
    autoaccept: bool,
    size: Seq<char>,
    download_dir: Seq<char>,
)
    ensures
        ({
            let asked = request.peer.alias + " wants to send "@ + decimal(request.files.len())
                + " file(s) ("@ + size + ")\n"@ + names_of(request.files) + "\nSave to: "@
                + download_dir + "\n"@;
            &&& answering(request, autoaccept, size, download_dir) is Accept <==> autoaccept
            &&& answering(request, true, size, download_dir) == (AnsweringModel::Accept {
                title: "Incoming LocalSend transfer"@,
                body: asked + "Accepting automatically"@ + "."@,
            })
            &&& answering(request, false, size, download_dir) == (AnsweringModel::Ask {
                body: asked + "Choose whether to receive it"@ + "."@,
            })
        }),
{
}

/// Whatever is not a choice to accept declines; where no choice could be
/// collected at all it is said why.
pub proof fn law_requests_are_declined_without_a_choice(outcome: NotificationOutcome)
    ensures
        match outcome {
            NotificationOutcome::NotRun => collected(outcome) == Err::<bool, Seq<char>>(
                "failed to run notify-send; make sure libnotify is installed"@,
            ),
            NotificationOutcome::Ended { success, stdout, stderr } => {
                &&& success ==> collected(outcome) is Ok
                &&& success && trimmed(stdout@) != "accept"@ ==> collected(outcome) == Ok::<
                    bool,
                    Seq<char>,
                >(false)
                &&& !success && trimmed(stderr@).len() > 0 ==> collected(outcome) == Err::<
                    bool,
                    Seq<char>,
                >(trimmed(stderr@))
                &&& !success && trimmed(stderr@).len() == 0 ==> collected(outcome) == Err::<
                    bool,
                    Seq<char>,
                >("notify-send exited without a selection"@)
            },
        },
{
}

/// Without a decision two lines are told, the first of them with the reason.
pub proof fn law_missing_decisions_are_told_of(reason: Seq<char>)
    ensures
        undecided(reason).len() == 2,
        undecided(reason)[0] == "Could not show actionable notification: "@ + reason,
        undecided(reason)[1]
            == "Declining the transfer because no decision could be collected."@,
{
}

/// A notification ends in its title and its body; a question waits for the answer
/// without end, and offers to accept and to decline.
pub proof fn law_notifications_show_what_they_are_given(title: Seq<char>, body: Seq<char>)
    ensures
        information_args(title, body) == seq![
            "--app-name=monosend"@,
            "--icon=document-save"@,
        ].push(title).push(body),
        question_args(body) == seq![
            "--app-name=monosend"@,
            "--icon=document-save"@,
            "--expire-time=0"@,
            "--wait"@,
            "--action=accept=Accept"@,
            "--action=decline=Decline"@,
            "Incoming LocalSend file"@,
        ].push(body),
{
    assert(information_args(title, body) =~= seq![
        "--app-name=monosend"@,
        "--icon=document-save"@,
    ].push(title).push(body));
    assert(question_args(body) =~= seq![
        "--app-name=monosend"@,
        "--icon=document-save"@,
        "--expire-time=0"@,
        "--wait"@,
        "--action=accept=Accept"@,
        "--action=decline=Decline"@,
        "Incoming LocalSend file"@,
    ].push(body));
}

/// The receiver does with an event what the event calls for, and says of it what
/// the event says.
pub proof fn law_events_are_handled_as_they_say(event: AppEvent, action: ReceiveAction)
    requires
        call_ensures(handle_event, (event,), action),
    ensures
        match event {
            AppEvent::IncomingTransfer(request) => action matches ReceiveAction::Answer(asked)
                && asked.deep_view() == request.deep_view(),
            AppEvent::TransferCompleted { session_id, message } => action
                matches ReceiveAction::Inform { line, title, body } && line@ == "["@ + session_id@
                + "] "@ + message@ && title@ == "LocalSend transfer complete"@ && body@ == message@,
            AppEvent::TransferFailed { session_id, error } => action matches ReceiveAction::Warn {
                line,
                title,
                body,
            } && line@ == "Transfer "@ + session_id@ + " failed: "@ + error@ && title@
                == "LocalSend transfer failed"@ && body@ == error@,
            AppEvent::TransferProgress {
                session_id,
                file_id,
                bytes_transferred,
                total_bytes,
                is_upload,
            } => if !is_upload && total_bytes > 0 && bytes_transferred == total_bytes {
                action matches ReceiveAction::Received { session_id: id, total_bytes: n } && id@
                    == session_id@ && n == total_bytes
            } else {
                action is Ignore
            },
            AppEvent::FileReceived { path } => if is_text_path(path@) {
                action matches ReceiveAction::Copy(copied) && copied@ == path@
            } else {
                action is Ignore
            },
            AppEvent::PeerDiscovered(_) => action is Ignore,
            AppEvent::StatusMessage(_) => action is Ignore,
        },
{
    law_receiver_acts_on_what_the_event_says(event);
}

/// A request is answered as the receiver was told to: accepted at once where that
/// is automatic, and asked about otherwise; and where it was asked about, it is
/// accepted only where the user chose so.
pub proof fn law_requests_are_answered_as_told(
    request: &IncomingTransferRequest,
    autoaccept: bool,
    size: &str,
    download_dir: &str,
    answer: Answering,
    outcome: &NotificationOutcome,
    decision: Decision,
)
    requires
        call_ensures(answer_request, (request, autoaccept, size, download_dir), answer),
        call_ensures(decide, (outcome,), decision),
    ensures
        answer is Accept <==> autoaccept,
        answer is Ask <==> !autoaccept,
        answer matches Answering::Accept { title, body } ==> title@
            == "Incoming LocalSend transfer"@ && body@ == body_of(
            request.deep_view(),
            size@,
            download_dir@,
            "Accepting automatically"@,
        ),
        answer matches Answering::Ask { body } ==> body@ == body_of(
            request.deep_view(),
            size@,
            download_dir@,
            "Choose whether to receive it"@,
        ),
        decision.accepted <==> (outcome matches NotificationOutcome::Ended {
            success,
            stdout,
            stderr,
        } && *success && trimmed(stdout@) == "accept"@),
        decision.complaints@.len() == 0 <==> (outcome matches NotificationOutcome::Ended {
            success,
            stdout,
            stderr,
        } && *success),
{
    law_only_accept_accepts(*outcome);
    law_requests_are_declined_without_a_choice(*outcome);
    law_requests_are_put_in_full(request.deep_view(), autoaccept, size@, download_dir@);
    assert(decision.complaints.deep_view().len() == decision.complaints@.len());
}

/// What is told of a request and of its answer, of the receiver and of what it
/// received says what it is about.
pub proof fn law_receiver_says_what_it_is_about(
    port: u16,
    download_dir: &str,
    accepted: bool,
    session_id: &str,
    listening: String,
    acceptance: &'static str,
    received: String,
    answered: String,
)
    requires
        call_ensures(listening_line, (port, download_dir), listening),
        call_ensures(acceptance_line, (accepted,), acceptance),
        call_ensures(received_line, (session_id, download_dir), received),
        call_ensures(answer_line, (session_id, accepted), answered),
    ensures
        listening@ == "Listening for LocalSend transfers on port "@ + decimal(port as nat)
            + "; saving to "@ + download_dir@,
        accepted ==> acceptance@ == "Automatic acceptance is enabled. Press Ctrl+C to stop."@,
        !accepted ==> acceptance@
            == "Incoming requests will appear as desktop notifications. Press Ctrl+C to stop."@,
        received@ == "["@ + session_id@ + "] Received "@ + download_dir@,
        accepted ==> answered@ == "Accepted"@ + " transfer from "@ + session_id@ + "."@,
        !accepted ==> answered@ == "Declined"@ + " transfer from "@ + session_id@ + "."@,
{
}

/// The size that is put to the user is the sum of the sizes that are offered,
/// wherever it can be counted.
pub proof fn law_requested_size_is_the_sum(request: &IncomingTransferRequest, r: Option<u64>)
    requires
        call_ensures(requested_size, (request,), r),
    ensures
        size_of(request.files.deep_view()) <= u64::MAX ==> r is Some && r->0 as nat == size_of(
            request.files.deep_view(),
        ),
        size_of(request.files.deep_view()) > u64::MAX ==> r is None,
{
}

/// A received file is taken for text by its name alone, and what came of copying
/// it is told with success only where it was copied.
pub proof fn law_text_files_are_copied_and_told_of(
    path: &str,
    text: bool,
    outcome: &CopyOutcome,
    told: (bool, String),
)
    requires
        call_ensures(is_text_file, (path,), text),
        call_ensures(copy_received_text_to_clipboard, (path, outcome), told),
    ensures
        text <==> is_text_path(path@),
        told.0 <==> *outcome is Copied,
        told.1@ == copy_line(path@, *outcome),
{
}

/// What is put to the user and what is shown is what it was given, in full.
pub proof fn law_notifications_are_made_as_given(
    request: &IncomingTransferRequest,
    size: &str,
    download_dir: &str,
    prompt: &str,
    body: String,
    shown: Vec<String>,
    asked: Vec<String>,
    hostname: Option<String>,
    alias: String,
)
    requires
        call_ensures(request_body, (request, size, download_dir, prompt), body),
        call_ensures(show_information, (size, download_dir), shown),
        call_ensures(ask_for_decision, (prompt,), asked),
        call_ensures(alias_for, (hostname,), alias),
    ensures
        body@ == request.peer.alias@ + " wants to send "@ + decimal(request.files@.len())
            + " file(s) ("@ + size@ + ")\n"@ + names_of(request.files.deep_view())
            + "\nSave to: "@ + download_dir@ + "\n"@ + prompt@ + "."@,
        shown@.len() == 4,
        shown@[2]@ == size@,
        shown@[3]@ == download_dir@,
        asked@.len() == 8,
        asked@[3]@ == "--wait"@,
        asked@[4]@ == "--action=accept=Accept"@,
        asked@[5]@ == "--action=decline=Decline"@,
        asked@[7]@ == prompt@,
        hostname matches Some(name) ==> alias@ == "monosend ("@ + name@ + ")"@,
        hostname is None ==> alias@ == "monosend ("@ + "device"@ + ")"@,
{
    law_notifications_show_what_they_are_given(size@, download_dir@);
    law_notifications_show_what_they_are_given(size@, prompt@);
    assert(shown.deep_view().len() == shown@.len());
    assert(shown.deep_view()[2] == shown@[2]@);
    assert(shown.deep_view()[3] == shown@[3]@);
    assert(asked.deep_view().len() == asked@.len());
    assert(asked.deep_view()[3] == asked@[3]@);
    assert(asked.deep_view()[4] == asked@[4]@);
    assert(asked.deep_view()[5] == asked@[5]@);
    assert(asked.deep_view()[7] == asked@[7]@);
}

}
