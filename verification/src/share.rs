//! The terminal workflow for outgoing LocalSend shares: which files are shared,
//! which devices are offered, which one is chosen, and what is reported of the
//! transfer.
use vstd::prelude::*;
use vstd::string::*;

use crate::events::{AppEvent, EventModel};
use crate::localsend::client::{LocalFile, LocalFileModel};
use crate::localsend::discovery::Ipv4;
use crate::localsend::protocol::{Peer, PeerModel};
use crate::sizes::{sum, sum_up};
use crate::text::{
    chars_of, decimal, decimal_text, is_digit, is_white_space, join2, join3,
    law_decimal_reads_back, law_trimming_takes_off_white_space, number, parse_number, same, trim,
    trimmed,
};

verus! {

/// How many seconds to wait for another device once one is found.
pub const ADDITIONAL_DEVICE_WAIT_SECONDS: u64 = 1;

/// What is said where no device was found.
pub const NO_DEVICES: &'static str =
    "no nearby LocalSend devices found; make sure the receiving device is visible and try again";

// ---------------------------------------------------------------------------
// Files
// ---------------------------------------------------------------------------

/// What was found at a path that is to be shared.
#[derive(Debug)]
pub enum PathProbe<T> {
    /// The path could not be read.
    Unreadable,
    /// There is something other than a file.
    NotAFile,
    /// There is a file whose full path could not be determined.
    Unresolved,
    /// There is a file, with this full path.
    File(T),
}

/// Why a path cannot be shared at which `probe` was found.
pub open spec fn refusal<T>(path: Seq<char>, probe: PathProbe<T>) -> Option<Seq<char>> {
    match probe {
        PathProbe::Unreadable => Some("could not read "@ + path),
        PathProbe::NotAFile => Some(path + " is not a file"@),
        PathProbe::Unresolved => Some("could not resolve "@ + path),
        PathProbe::File(_) => None,
    }
}

/// The full paths of what was found at the paths to share. The first path that
/// cannot be shared is refused, by its place and with the reason.
pub fn validate_files<T>(probes: Vec<(String, PathProbe<T>)>) -> (r: Result<
    Vec<T>,
    (usize, String),
>)
    ensures
        match r {
            Ok(files) => files@.len() == probes@.len() && forall|i: int|
                0 <= i < probes@.len() ==> (#[trigger] probes@[i]).1 == PathProbe::File(files@[i]),
            Err((place, reason)) => {
                &&& place < probes@.len()
                &&& refusal(probes@[place as int].0@, probes@[place as int].1) == Some(reason@)
                &&& forall|i: int| 0 <= i < place ==> (#[trigger] probes@[i]).1 is File
            },
        },
{
    let mut files: Vec<T> = Vec::new();
    let ghost all = probes@;
    let count: usize = probes.len();
    let mut place: usize = 0;
    for entry in it: probes
        invariant
            it.seq() == all,
            all == probes@,
            place == it.index(),
            files@.len() == place,
            forall|i: int| 0 <= i < place ==> (#[trigger] all[i]).1 == PathProbe::File(files@[i]),
            all.len() == count,
    {
        assert(entry == all[place as int]);
        match entry.1 {
            PathProbe::Unreadable => {
                return Err((place, join2("could not read ", entry.0.as_str())));
            },
            PathProbe::NotAFile => {
                return Err((place, join2(entry.0.as_str(), " is not a file")));
            },
            PathProbe::Unresolved => {
                return Err((place, join2("could not resolve ", entry.0.as_str())));
            },
            PathProbe::File(file) => {
                files.push(file);
            },
        }
        place = place + 1;
    }
    Ok(files)
}

/// The number of bytes of the files among `files` that could be read.
pub open spec fn size_of(files: Seq<LocalFileModel>) -> nat {
    sum(
        files.map_values(
            |file: LocalFileModel|
                match file.size {
                    Some(size) => size,
                    None => 0,
                },
        ),
    )
}

/// The number of bytes of the files that could be read, or `None` where it is
/// too large to count.
pub fn shared_size(files: &Vec<LocalFile>) -> (r: Option<u64>)
    ensures
        r is Some <==> size_of(files.deep_view()) <= u64::MAX,
        r matches Some(n) ==> n as nat == size_of(files.deep_view()),
{
    let mut sizes: Vec<u64> = Vec::new();
    let mut i: usize = 0;
    while i < files.len()
        invariant
            i <= files@.len(),
            sizes@.len() == i,
            forall|j: int|
                0 <= j < i ==> (#[trigger] sizes@[j]) == (match files@[j].size {
                    Some(size) => size,
                    None => 0,
                }),
        decreases files@.len() - i,
    {
        let size: u64 = match files[i].size {
            Some(size) => size,
            None => 0,
        };
        sizes.push(size);
        i = i + 1;
    }
    assert(sizes@ =~= files.deep_view().map_values(
        |file: LocalFileModel|
            match file.size {
                Some(size) => size,
                None => 0,
            },
    ));
    sum_up(&sizes)
}

/// What is said of the files that are shared: how many there are, and their
/// size in words.
pub fn sharing_line(count: usize, size: &str) -> (r: String)
    ensures
        r@ == "Sharing "@ + decimal(count as nat) + " file(s) ("@ + size@ + ")"@,
{
    let mut out: String = join3("Sharing ", decimal_text(count as u64).as_str(), " file(s) (");
    out.append(size);
    out.append(")");
    out
}

// ---------------------------------------------------------------------------
// Devices
// ---------------------------------------------------------------------------

/// Whether `peer` is a receiver that runs on this device: it goes by the same
/// alias, and its address is one of this device.
pub open spec fn runs_here(peer: PeerModel, alias: Seq<char>, local_ips: Seq<Ipv4>) -> bool {
    peer.alias == alias && exists|i: int|
        0 <= i < local_ips.len() && peer.ip == (#[trigger] local_ips[i]).dotted()
}

/// Whether `peer` is a receiver that runs on this device, which goes by `alias`
/// and has the addresses `local_ips`.
pub fn is_own_receiver(peer: &Peer, alias: &str, local_ips: &Vec<Ipv4>) -> (r: bool)
    ensures
        r == runs_here(peer.deep_view(), alias@, local_ips@),
{
    if !same(peer.alias.as_str(), alias) {
        return false;
    }
    let mut i: usize = 0;
    while i < local_ips.len()
        invariant
            i <= local_ips@.len(),
            peer.alias@ == alias@,
            forall|j: int| 0 <= j < i ==> peer.ip@ != (#[trigger] local_ips@[j]).dotted(),
        decreases local_ips@.len() - i,
    {
        if same(peer.ip.as_str(), local_ips[i].text().as_str()) {
            assert(peer.deep_view().ip == local_ips@[i as int].dotted());
            return true;
        }
        i = i + 1;
    }
    false
}

/// The place of the first of `peers` with the given fingerprint; the end where
/// there is none.
pub open spec fn place_of(peers: Seq<PeerModel>, fingerprint: Seq<char>) -> int
    decreases peers.len(),
{
    if peers.len() == 0 {
        0
    } else {
        let place = place_of(peers.drop_last(), fingerprint);
        if place < peers.len() - 1 || peers.last().fingerprint == fingerprint {
            place
        } else {
            peers.len() as int
        }
    }
}

/// The known devices when `peer` is discovered. This device itself is left out;
/// a device that is known already takes its old place.
pub open spec fn with_peer(
    peers: Seq<PeerModel>,
    peer: PeerModel,
    alias: Seq<char>,
    fingerprint: Seq<char>,
    local_ips: Seq<Ipv4>,
) -> Seq<PeerModel> {
    if peer.fingerprint == fingerprint || runs_here(peer, alias, local_ips) {
        peers
    } else {
        let place = place_of(peers, peer.fingerprint);
        if place < peers.len() {
            peers.update(place, peer)
        } else {
            peers.push(peer)
        }
    }
}

proof fn lemma_place_of(peers: Seq<PeerModel>, fingerprint: Seq<char>)
    ensures
        0 <= place_of(peers, fingerprint) <= peers.len(),
        place_of(peers, fingerprint) < peers.len() ==> peers[place_of(
            peers,
            fingerprint,
        )].fingerprint == fingerprint,
        forall|i: int|
            0 <= i < place_of(peers, fingerprint) ==> (#[trigger] peers[i]).fingerprint
                != fingerprint,
    decreases peers.len(),
{
    if peers.len() > 0 {
        let rest = peers.drop_last();
        lemma_place_of(rest, fingerprint);
        assert forall|i: int| 0 <= i < place_of(peers, fingerprint) implies (
        #[trigger] peers[i]).fingerprint != fingerprint by {
            if i < rest.len() {
                assert(rest[i] == peers[i]);
            }
        }
    }
}

/// Takes note of a discovered device, which is not this one: the one that goes
/// by `alias`, has the fingerprint `fingerprint` and the addresses `local_ips`.
pub fn add_peer(
    peers: &mut Vec<Peer>,
    peer: Peer,
    alias: &str,
    fingerprint: &str,
    local_ips: &Vec<Ipv4>,
)
    ensures
        final(peers).deep_view() == with_peer(
            old(peers).deep_view(),
            peer.deep_view(),
            alias@,
            fingerprint@,
            local_ips@,
        ),
{
    if same(peer.fingerprint.as_str(), fingerprint) || is_own_receiver(&peer, alias, local_ips) {
        return;
    }
    let ghost known = peers.deep_view();
    let ghost model = peer.deep_view();
    proof {
        lemma_place_of(known, peer.fingerprint@);
    }
    let mut i: usize = 0;
    while i < peers.len()
        invariant
            i <= peers@.len(),
            peers.deep_view() == known,
            model == peer.deep_view(),
            forall|j: int| 0 <= j < i ==> (#[trigger] known[j]).fingerprint != model.fingerprint,
        ensures
            i <= peers@.len(),
            peers.deep_view() == known,
            forall|j: int| 0 <= j < i ==> (#[trigger] known[j]).fingerprint != model.fingerprint,
            i < peers@.len() ==> known[i as int].fingerprint == model.fingerprint,
        decreases peers@.len() - i,
    {
        assert(known[i as int] == peers@[i as int].deep_view());
        if same(peers[i].fingerprint.as_str(), peer.fingerprint.as_str()) {
            break;
        }
        i = i + 1;
    }
    assert(i == place_of(known, model.fingerprint)) by {
        let place = place_of(known, model.fingerprint);
        if place < i {
            assert(known[place].fingerprint == model.fingerprint);
        } else if i < place {
            assert(known[i as int].fingerprint != model.fingerprint);
        }
    }
    if i < peers.len() {
        peers.set(i, peer);
        assert(peers.deep_view() =~= known.update(i as int, model));
    } else {
        peers.push(peer);
        assert(peers.deep_view() =~= known.push(model));
    }
}

/// What happens while devices are searched for.
#[derive(Debug)]
pub enum SearchEvent {
    /// An event came in.
    Event(AppEvent),
    /// Nothing came in for as long as another device is waited for.
    Quiet,
    /// No more events will come in.
    Stopped,
}

/// What is to be done next in the search for devices.
#[derive(Debug)]
pub enum DiscoveryStep {
    /// Wait for the next event: for any time, or for as long as another device
    /// is waited for.
    Wait { at_most_a_while: bool },
    /// Decline the transfer that was requested, and wait likewise.
    Decline { at_most_a_while: bool },
    /// The search is over.
    Done,
    /// The search has failed.
    Failed(String),
}

/// What a [`DiscoveryStep`] says.
#[verifier::ext_equal]
pub enum DiscoveryModel {
    Wait { at_most_a_while: bool },
    Decline { at_most_a_while: bool },
    Done,
    Failed(Seq<char>),
}

impl DeepView for DiscoveryStep {
    type V = DiscoveryModel;

    open spec fn deep_view(&self) -> DiscoveryModel {
        match *self {
            DiscoveryStep::Wait { at_most_a_while } => DiscoveryModel::Wait { at_most_a_while },
            DiscoveryStep::Decline { at_most_a_while } => DiscoveryModel::Decline {
                at_most_a_while,
            },
            DiscoveryStep::Done => DiscoveryModel::Done,
            DiscoveryStep::Failed(error) => DiscoveryModel::Failed(error@),
        }
    }
}

/// What is known and what is to be done next when `event` happens in the search
/// for devices. The search goes on until a device is known and no other one
/// turns up for a while.
pub open spec fn discovery_step(
    peers: Seq<PeerModel>,
    event: SearchEvent,
    alias: Seq<char>,
    fingerprint: Seq<char>,
    local_ips: Seq<Ipv4>,
) -> (Seq<PeerModel>, DiscoveryModel) {
    match event {
        SearchEvent::Event(event) => match event.deep_view() {
            EventModel::PeerDiscovered(peer) => {
                let known = with_peer(peers, peer, alias, fingerprint, local_ips);
                (known, DiscoveryModel::Wait { at_most_a_while: known.len() > 0 })
            },
            EventModel::IncomingTransfer(_) => (
                peers,
                DiscoveryModel::Decline { at_most_a_while: peers.len() > 0 },
            ),
            EventModel::StatusMessage(message) => (peers, DiscoveryModel::Failed(message)),
            _ => (peers, DiscoveryModel::Wait { at_most_a_while: peers.len() > 0 }),
        },
        SearchEvent::Quiet => (peers, DiscoveryModel::Done),
        SearchEvent::Stopped => (
            peers,
            DiscoveryModel::Failed("device discovery stopped unexpectedly"@),
        ),
    }
}

/// Takes note of what happens in the search for devices.
pub fn discover_peers(
    peers: &mut Vec<Peer>,
    event: SearchEvent,
    alias: &str,
    fingerprint: &str,
    local_ips: &Vec<Ipv4>,
) -> (r: DiscoveryStep)
    ensures
        (final(peers).deep_view(), r.deep_view()) == discovery_step(
            old(peers).deep_view(),
            event,
            alias@,
            fingerprint@,
            local_ips@,
        ),
{
    match event {
        SearchEvent::Event(event) => match event {
            AppEvent::PeerDiscovered(peer) => {
                add_peer(peers, peer, alias, fingerprint, local_ips);
                DiscoveryStep::Wait { at_most_a_while: peers.len() > 0 }
            },
            AppEvent::IncomingTransfer(_) => DiscoveryStep::Decline {
                at_most_a_while: peers.len() > 0,
            },
            AppEvent::StatusMessage(message) => DiscoveryStep::Failed(message),
            _ => DiscoveryStep::Wait { at_most_a_while: peers.len() > 0 },
        },
        SearchEvent::Quiet => DiscoveryStep::Done,
        SearchEvent::Stopped => DiscoveryStep::Failed(
            "device discovery stopped unexpectedly".to_owned(),
        ),
    }
}

// ---------------------------------------------------------------------------
// The choice of a device
// ---------------------------------------------------------------------------

/// The line of the menu for the device at place `i`.
pub open spec fn menu_line(peer: PeerModel, i: nat) -> Seq<char> {
    let model = match peer.device_model {
        Some(model) => model,
        None => "Unknown device"@,
    };
    "  "@ + decimal(i + 1) + ". "@ + peer.alias + " - "@ + model + " ("@ + peer.ip + ")"@
}

/// The menu from which a device is chosen, a line for each of `peers`.
pub fn peer_menu(peers: &Vec<Peer>) -> (r: Vec<String>)
    ensures
        r.deep_view() == peers.deep_view().map(|i: int, peer: PeerModel| menu_line(peer, i as nat)),
{
    let mut lines: Vec<String> = Vec::new();
    let mut i: usize = 0;
    while i < peers.len()
        invariant
            i <= peers@.len(),
            lines@.len() == i,
            forall|j: int|
                0 <= j < i ==> (#[trigger] lines@[j])@ == menu_line(
                    peers@[j].deep_view(),
                    j as nat,
                ),
        decreases peers@.len() - i,
    {
        let peer: &Peer = &peers[i];
        let mut line: String = join3("  ", decimal_text(i as u64 + 1).as_str(), ". ");
        line.append(peer.alias.as_str());
        line.append(" - ");
        match &peer.device_model {
            Some(model) => {
                line.append(model.as_str());
            },
            None => {
                line.append("Unknown device");
            },
        }
        line.append(" (");
        line.append(peer.ip.as_str());
        line.append(")");
        lines.push(line);
        i = i + 1;
    }
    assert(lines.deep_view() =~= peers.deep_view().map(
        |i: int, peer: PeerModel| menu_line(peer, i as nat),
    ));
    lines
}

/// The prompt for one of `count` devices.
pub fn selection_prompt(count: usize) -> (r: String)
    ensures
        r@ == "Enter a number (1-"@ + decimal(count as nat) + "): "@,
{
    join3("Enter a number (1-", decimal_text(count as u64).as_str(), "): ")
}

/// The place of the device that `input` selects out of `count`: `input` is its
/// number, counted from one, with any white space around it.
pub open spec fn selection(input: Seq<char>, count: nat) -> Option<nat> {
    match number(trimmed(input), usize::MAX as nat) {
        Some(n) => if 1 <= n <= count {
            Some((n - 1) as nat)
        } else {
            None
        },
        None => None,
    }
}

/// The place of the device that `input` selects out of `peer_count`.
pub fn parse_selection(input: &str, peer_count: usize) -> (r: Option<usize>)
    ensures
        match r {
            Some(place) => selection(input@, peer_count as nat) == Some(place as nat),
            None => selection(input@, peer_count as nat) is None,
        },
{
    let text: String = trim(input);
    let chars: Vec<char> = chars_of(text.as_str());
    match parse_number(&chars, usize::MAX as u64) {
        Some(n) => if 1 <= n && n <= peer_count as u64 {
            Some((n - 1) as usize)
        } else {
            None
        },
        None => None,
    }
}

/// What comes of a line of input at the prompt.
#[derive(Debug)]
pub enum Choice {
    /// This device was chosen.
    Peer(Peer),
    /// Nothing was chosen: say this, and ask again.
    Again(String),
    /// There is no more input, for this reason nothing can be chosen.
    Nothing(String),
}

/// What a [`Choice`] says.
#[verifier::ext_equal]
pub enum ChoiceModel {
    Peer(PeerModel),
    Again(Seq<char>),
    Nothing(Seq<char>),
}

impl DeepView for Choice {
    type V = ChoiceModel;

    open spec fn deep_view(&self) -> ChoiceModel {
        match *self {
            Choice::Peer(peer) => ChoiceModel::Peer(peer.deep_view()),
            Choice::Again(text) => ChoiceModel::Again(text@),
            Choice::Nothing(text) => ChoiceModel::Nothing(text@),
        }
    }
}

/// What comes of `input` at the prompt for one of `peers`; `None` is the end of
/// the input.
pub open spec fn choice(peers: Seq<PeerModel>, input: Option<Seq<char>>) -> ChoiceModel {
    match input {
        None => ChoiceModel::Nothing("no device was selected"@),
        Some(line) => match selection(line, peers.len()) {
            Some(place) => ChoiceModel::Peer(peers[place as int]),
            None => ChoiceModel::Again(
                "Please enter a number from 1 to "@ + decimal(peers.len()) + "."@,
            ),
        },
    }
}

/// What comes of `input` at the prompt for one of `peers`; `None` is the end of
/// the input.
pub fn prompt_for_peer(peers: &Vec<Peer>, input: Option<&str>) -> (r: Choice)
    ensures
        r.deep_view() == choice(
            peers.deep_view(),
            match input {
                Some(line) => Some(line@),
                None => None,
            },
        ),
{
    match input {
        None => Choice::Nothing("no device was selected".to_owned()),
        Some(line) => match parse_selection(line, peers.len()) {
            Some(place) => {
                assert(peers.deep_view()[place as int] == peers@[place as int].deep_view());
                Choice::Peer(peers[place].clone())
            },
            None => Choice::Again(
                join3(
                    "Please enter a number from 1 to ",
                    decimal_text(peers.len() as u64).as_str(),
                    ".",
                ),
            ),
        },
    }
}

// ---------------------------------------------------------------------------
// The transfer
// ---------------------------------------------------------------------------

/// How many out of a hundred `bytes` are of `total`, at most a hundred. The
/// count saturates where it does not fit.
pub open spec fn percent_of(bytes: u64, total: u64) -> nat {
    let hundredfold = if bytes * 100 > u64::MAX {
        u64::MAX as nat
    } else {
        (bytes * 100) as nat
    };
    let percent = hundredfold / (total as nat);
    if percent > 100 {
        100
    } else {
        percent
    }
}

/// Watches a transfer, and reports its progress now and then.
#[derive(Debug)]
pub struct Monitor {
    last_reported: u64,
}

impl DeepView for Monitor {
    type V = nat;

    /// The percentage that was reported last.
    closed spec fn deep_view(&self) -> nat {
        self.last_reported as nat
    }
}

/// What happens while a transfer is watched.
#[derive(Debug)]
pub enum MonitorEvent {
    /// An event came in.
    Event(AppEvent),
    /// No more events will come in.
    Stopped,
}

/// What is to be done next for a transfer that is watched.
#[derive(Debug)]
pub enum MonitorStep {
    /// Go on watching.
    Watch,
    /// Report this progress, and go on.
    Report { file_id: String, bytes: u64, total: u64, percent: u64 },
    /// Decline the transfer that was requested, and go on.
    Decline,
    /// Pass on this message, and go on.
    Tell(String),
    /// The transfer has completed, with this message.
    Completed(String),
    /// The transfer has failed, for this reason.
    Failed(String),
}

/// What a [`MonitorStep`] says.
#[verifier::ext_equal]
pub enum MonitorModel {
    Watch,
    Report { file_id: Seq<char>, bytes: u64, total: u64, percent: nat },
    Decline,
    Tell(Seq<char>),
    Completed(Seq<char>),
    Failed(Seq<char>),
}

impl DeepView for MonitorStep {
    type V = MonitorModel;

    open spec fn deep_view(&self) -> MonitorModel {
        match *self {
            MonitorStep::Watch => MonitorModel::Watch,
            MonitorStep::Report { file_id, bytes, total, percent } => MonitorModel::Report {
                file_id: file_id@,
                bytes,
                total,
                percent: percent as nat,
            },
            MonitorStep::Decline => MonitorModel::Decline,
            MonitorStep::Tell(message) => MonitorModel::Tell(message@),
            MonitorStep::Completed(message) => MonitorModel::Completed(message@),
            MonitorStep::Failed(error) => MonitorModel::Failed(error@),
        }
    }
}

/// Whether progress of `percent` is worth a report after `last`.
pub open spec fn is_reported(last: nat, percent: nat) -> bool {
    percent == 100 || percent >= last + 10
}

/// What was reported last and what is to be done next when `event` happens to a
/// transfer of which `last` percent were reported.
pub open spec fn monitor_step(last: nat, event: MonitorEvent) -> (nat, MonitorModel) {
    match event {
        MonitorEvent::Event(event) => match event.deep_view() {
            EventModel::TransferProgress {
                session_id,
                file_id,
                bytes_transferred,
                total_bytes,
                is_upload,
            } => {
                let percent = percent_of(bytes_transferred, total_bytes);
                if is_upload && total_bytes > 0 && is_reported(last, percent) {
                    (
                        percent,
                        MonitorModel::Report {
                            file_id,
                            bytes: bytes_transferred,
                            total: total_bytes,
                            percent,
                        },
                    )
                } else {
                    (last, MonitorModel::Watch)
                }
            },
            EventModel::TransferCompleted { session_id, message } => (
                last,
                MonitorModel::Completed(message),
            ),
            EventModel::TransferFailed { session_id, error } => (last, MonitorModel::Failed(error)),
            EventModel::IncomingTransfer(_) => (last, MonitorModel::Decline),
            EventModel::StatusMessage(message) => (last, MonitorModel::Tell(message)),
            EventModel::PeerDiscovered(_) => (last, MonitorModel::Watch),
            EventModel::FileReceived { path } => (last, MonitorModel::Watch),
        },
        MonitorEvent::Stopped => (
            last,
            MonitorModel::Failed("the transfer stopped before it completed"@),
        ),
    }
}

fn percent(bytes: u64, total: u64) -> (r: u64)
    requires
        total > 0,
    ensures
        r as nat == percent_of(bytes, total),
        r <= 100,
{
    let hundredfold: u64 = if bytes > u64::MAX / 100 {
        u64::MAX
    } else {
        bytes * 100
    };
    let percent: u64 = hundredfold / total;
    if percent > 100 {
        100
    } else {
        percent
    }
}

impl Monitor {
    #[verifier::type_invariant]
    spec fn is_percentage(&self) -> bool {
        self.last_reported <= 100
    }

    /// Watches a transfer of which nothing has been reported.
    pub fn new() -> (r: Self)
        ensures
            r.deep_view() == 0,
    {
        Monitor { last_reported: 0 }
    }

    /// Takes note of what happens to the transfer.
    pub fn monitor_transfer(&mut self, event: MonitorEvent) -> (r: MonitorStep)
        ensures
            (final(self).deep_view(), r.deep_view()) == monitor_step(old(self).deep_view(), event),
            old(self).deep_view() <= 100,
            final(self).deep_view() <= 100,
    {
        proof {
            use_type_invariant(&*self);
        }
        match event {
            MonitorEvent::Event(event) => match event {
                AppEvent::TransferProgress {
                    session_id: _,
                    file_id,
                    bytes_transferred,
                    total_bytes,
                    is_upload,
                } => {
                    if is_upload && total_bytes > 0 {
                        let percent: u64 = percent(bytes_transferred, total_bytes);
                        if percent == 100 || percent >= self.last_reported + 10 {
                            self.last_reported = percent;
                            MonitorStep::Report {
                                file_id,
                                bytes: bytes_transferred,
                                total: total_bytes,
                                percent,
                            }
                        } else {
                            MonitorStep::Watch
                        }
                    } else {
                        MonitorStep::Watch
                    }
                },
                AppEvent::TransferCompleted { session_id: _, message } => MonitorStep::Completed(
                    message,
                ),
                AppEvent::TransferFailed { session_id: _, error } => MonitorStep::Failed(error),
                AppEvent::IncomingTransfer(_) => MonitorStep::Decline,
                AppEvent::StatusMessage(message) => MonitorStep::Tell(message),
                AppEvent::PeerDiscovered(_) => MonitorStep::Watch,
                AppEvent::FileReceived { path: _ } => MonitorStep::Watch,
            },
            MonitorEvent::Stopped => MonitorStep::Failed(
                "the transfer stopped before it completed".to_owned(),
            ),
        }
    }
}

/// A report of progress, where `bytes` and `total` are sizes in words.
pub fn progress_line(file_id: &str, bytes: &str, total: &str, percent: u64) -> (r: String)
    ensures
        r@ == "Sending "@ + file_id@ + ": "@ + bytes@ + " / "@ + total@ + " ("@ + decimal(
            percent as nat,
        ) + "%)"@,
{
    let mut out: String = join3("Sending ", file_id, ": ");
    out.append(bytes);
    out.append(" / ");
    out.append(total);
    out.append(" (");
    out.append(decimal_text(percent).as_str());
    out.append("%)");
    out
}

// ---------------------------------------------------------------------------
// Laws
// ---------------------------------------------------------------------------

/// Whether `peers` are other devices than this one, each known once.
pub open spec fn are_others(
    peers: Seq<PeerModel>,
    alias: Seq<char>,
    fingerprint: Seq<char>,
    local_ips: Seq<Ipv4>,
) -> bool {
    &&& forall|i: int|
        0 <= i < peers.len() ==> (#[trigger] peers[i]).fingerprint != fingerprint && !runs_here(
            peers[i],
            alias,
            local_ips,
        )
    &&& forall|i: int, j: int|
        0 <= i < j < peers.len() ==> (#[trigger] peers[i]).fingerprint != (
        #[trigger] peers[j]).fingerprint
}

/// Whatever happens in the search for devices, only other devices than this one
/// are known, each of them once.
pub proof fn law_known_devices_are_others(
    peers: Seq<PeerModel>,
    event: SearchEvent,
    alias: Seq<char>,
    fingerprint: Seq<char>,
    local_ips: Seq<Ipv4>,
)
    requires
        are_others(peers, alias, fingerprint, local_ips),
    ensures
        are_others(
            discovery_step(peers, event, alias, fingerprint, local_ips).0,
            alias,
            fingerprint,
            local_ips,
        ),
{
    match event {
        SearchEvent::Event(event) => match event.deep_view() {
            EventModel::PeerDiscovered(peer) => {
                lemma_place_of(peers, peer.fingerprint);
            },
            _ => {},
        },
        _ => {},
    }
}

/// A discovered device is known afterwards as it was discovered last, and every
/// device that was known before keeps its place and, but for the discovered
/// one, stays as it was.
pub proof fn law_discovered_devices_are_known(
    peers: Seq<PeerModel>,
    peer: PeerModel,
    alias: Seq<char>,
    fingerprint: Seq<char>,
    local_ips: Seq<Ipv4>,
)
    requires
        peer.fingerprint != fingerprint,
        !runs_here(peer, alias, local_ips),
    ensures
        ({
            let known = with_peer(peers, peer, alias, fingerprint, local_ips);
            &&& known.contains(peer)
            &&& peers.len() <= known.len() <= peers.len() + 1
            &&& forall|i: int|
                0 <= i < peers.len() ==> (#[trigger] known[i]).fingerprint == peers[i].fingerprint
            &&& forall|i: int|
                0 <= i < peers.len() && peers[i].fingerprint != peer.fingerprint ==> (
                #[trigger] known[i]) == peers[i]
        }),
{
    lemma_place_of(peers, peer.fingerprint);
    let known = with_peer(peers, peer, alias, fingerprint, local_ips);
    assert(known[place_of(peers, peer.fingerprint)] == peer);
}

/// The search is over only after a quiet while, and only once a device is known
/// does it wait for no more than a while.
pub proof fn law_search_waits_for_a_device(
    peers: Seq<PeerModel>,
    event: SearchEvent,
    alias: Seq<char>,
    fingerprint: Seq<char>,
    local_ips: Seq<Ipv4>,
)
    ensures
        ({
            let (known, step) = discovery_step(peers, event, alias, fingerprint, local_ips);
            &&& step matches DiscoveryModel::Wait { at_most_a_while } ==> (at_most_a_while
                <==> known.len() > 0)
            &&& step matches DiscoveryModel::Decline { at_most_a_while } ==> (at_most_a_while
                <==> known.len() > 0)
            &&& step is Done <==> event is Quiet
        }),
{
}

/// Whether `s` is nothing but white space.
pub open spec fn is_blank(s: Seq<char>) -> bool {
    forall|i: int| 0 <= i < s.len() ==> is_white_space(#[trigger] s[i])
}

/// Every device of the menu can be chosen by its number there, with whatever
/// white space before and after it, such as the end of the line.
pub proof fn law_every_device_can_be_chosen(
    peers: Seq<PeerModel>,
    i: int,
    before: Seq<char>,
    after: Seq<char>,
)
    requires
        0 <= i < peers.len() <= usize::MAX,
        is_blank(before),
        is_blank(after),
    ensures
        choice(peers, Some(before + decimal((i + 1) as nat) + after)) == ChoiceModel::Peer(
            peers[i],
        ),
{
    let n = (i + 1) as nat;
    let text = decimal(n);
    law_decimal_reads_back(n, usize::MAX as nat);
    assert(text.len() > 0);
    assert(is_digit(text[0]) && is_digit(text[text.len() - 1]));
    law_trimming_takes_off_white_space(before, text, after);
}

/// Only a device that is on offer can be chosen, whatever is entered.
pub proof fn law_choices_are_on_offer(input: Seq<char>, count: nat)
    ensures
        selection(input, count) matches Some(place) ==> place < count,
{
}

/// Of more bytes a percentage is never smaller.
pub proof fn law_percentage_does_not_fall(fewer: u64, more: u64, total: u64)
    requires
        fewer <= more,
        total > 0,
    ensures
        percent_of(fewer, total) <= percent_of(more, total) <= 100,
{
    let a = if fewer * 100 > u64::MAX {
        u64::MAX as int
    } else {
        fewer * 100
    };
    let b = if more * 100 > u64::MAX {
        u64::MAX as int
    } else {
        more * 100
    };
    vstd::arithmetic::div_mod::lemma_div_is_ordered(a, b, total as int);
}

/// All of the bytes are a hundred percent, as long as a hundredfold of them can
/// be counted.
pub proof fn law_everything_is_a_hundred_percent(total: u64)
    requires
        0 < total,
        total * 100 <= u64::MAX,
    ensures
        percent_of(total, total) == 100,
{
    assert((total * 100) / (total as int) == 100) by (nonlinear_arith)
        requires
            total > 0,
    ;
}

/// Between two reports short of a hundred percent lie at least ten percent; and
/// what was reported last is never more than a hundred.
pub proof fn law_reports_are_apart(last: nat, event: MonitorEvent)
    requires
        last <= 100,
    ensures
        monitor_step(last, event).0 <= 100,
        monitor_step(last, event).1 matches MonitorModel::Report {
            file_id,
            bytes,
            total,
            percent,
        } ==> (percent == 100 || percent >= last + 10) && monitor_step(last, event).0 == percent,
        !(monitor_step(last, event).1 is Report) ==> monitor_step(last, event).0 == last,
{
}

/// The watch on a transfer ends with success exactly when the transfer is
/// completed, with the message of that event, and with failure exactly when it
/// has failed or no more events come in. A transfer request is declined and a
/// message is passed on; a device that is discovered or a file that is received
/// leaves the watch as it was, with nothing told.
pub proof fn law_watch_ends_with_the_transfer(last: nat, event: MonitorEvent)
    ensures
        ({
            let (reported, step) = monitor_step(last, event);
            &&& step is Completed <==> event is Event && event->Event_0 is TransferCompleted
            &&& step is Failed <==> event is Stopped || (event is Event
                && event->Event_0 is TransferFailed)
            &&& step is Decline <==> event is Event && event->Event_0 is IncomingTransfer
            &&& step is Tell <==> event is Event && event->Event_0 is StatusMessage
            &&& event matches MonitorEvent::Event(
                AppEvent::TransferCompleted { session_id, message },
            ) ==> step == MonitorModel::Completed(message@) && reported == last
            &&& event matches MonitorEvent::Event(AppEvent::TransferFailed { session_id, error })
                ==> step == MonitorModel::Failed(error@) && reported == last
            &&& event is Stopped ==> step == MonitorModel::Failed(
                "the transfer stopped before it completed"@,
            ) && reported == last
            &&& step is Decline ==> reported == last
            &&& event matches MonitorEvent::Event(AppEvent::StatusMessage(message)) ==> step
                == MonitorModel::Tell(message@) && reported == last
            &&& event matches MonitorEvent::Event(AppEvent::PeerDiscovered(_)) ==> step
                == MonitorModel::Watch && reported == last
            &&& event matches MonitorEvent::Event(AppEvent::FileReceived { path }) ==> step
                == MonitorModel::Watch && reported == last
        }),
{
}

/// Progress is reported exactly where something is sent and either all of it is
/// or ten percent more than was reported last; the report says what the event
/// said. Progress of what is received is never reported.
pub proof fn law_progress_is_reported_now_and_then(last: nat, event: MonitorEvent)
    ensures
        ({
            let (reported, step) = monitor_step(last, event);
            &&& step is Report ==> event is Event && event->Event_0 is TransferProgress
            &&& event matches MonitorEvent::Event(
                AppEvent::TransferProgress {
                    session_id,
                    file_id,
                    bytes_transferred,
                    total_bytes,
                    is_upload,
                },
            ) ==> {
                let percent = percent_of(bytes_transferred, total_bytes);
                let due = is_upload && total_bytes > 0 && (percent == 100 || percent >= last + 10);
                &&& due ==> reported == percent && step == (MonitorModel::Report {
                    file_id: file_id@,
                    bytes: bytes_transferred,
                    total: total_bytes,
                    percent,
                })
                &&& !due ==> reported == last && step == MonitorModel::Watch
            }
        }),
{
}

/// A percentage is what is sent of a hundred, rounded down: as long as a
/// hundredfold of the bytes can be counted, it is a hundred from the total on,
/// and before that the bytes lie between it and the next one.
pub proof fn law_percentage_is_of_a_hundred(bytes: u64, total: u64)
    requires
        total > 0,
    ensures
        bytes * 100 <= u64::MAX && bytes >= total ==> percent_of(bytes, total) == 100,
        bytes * 100 <= u64::MAX && bytes < total ==> percent_of(bytes, total) < 100 && percent_of(
            bytes,
            total,
        ) * total <= bytes * 100 < (percent_of(bytes, total) + 1) * total,
        bytes * 100 > u64::MAX && u64::MAX >= total * 100 ==> percent_of(bytes, total) == 100,
        bytes * 100 > u64::MAX && u64::MAX < total * 100 ==> percent_of(bytes, total) * total
            <= u64::MAX < (percent_of(bytes, total) + 1) * total,
{
    let h: int = if bytes * 100 > u64::MAX {
        u64::MAX as int
    } else {
        bytes * 100
    };
    let t: int = total as int;
    let q: int = h / t;
    assert(q * t <= h < (q + 1) * t) by (nonlinear_arith)
        requires
            q == h / t,
            t > 0,
    ;
    if h >= 100 * t {
        assert(q >= 100) by (nonlinear_arith)
            requires
                h < (q + 1) * t,
                h >= 100 * t,
                t > 0,
        ;
    } else {
        assert(q < 100) by (nonlinear_arith)
            requires
                q * t <= h,
                h < 100 * t,
                t > 0,
        ;
    }
}

/// What happens in the search for devices decides what is done next: a transfer
/// request is declined; a message, and the end of events, is a failure; a device
/// that is discovered is taken note of; anything else is waited out. Only a
/// device that is discovered changes what is known.
pub proof fn law_search_goes_by_the_event(
    peers: Seq<PeerModel>,
    event: SearchEvent,
    alias: Seq<char>,
    fingerprint: Seq<char>,
    local_ips: Seq<Ipv4>,
)
    ensures
        ({
            let (known, step) = discovery_step(peers, event, alias, fingerprint, local_ips);
            &&& step is Decline <==> event is Event && event->Event_0 is IncomingTransfer
            &&& step is Failed <==> event is Stopped || (event is Event
                && event->Event_0 is StatusMessage)
            &&& event matches SearchEvent::Event(AppEvent::StatusMessage(message)) ==> step
                == DiscoveryModel::Failed(message@)
            &&& event is Stopped ==> step == DiscoveryModel::Failed(
                "device discovery stopped unexpectedly"@,
            )
            &&& step is Done <==> event is Quiet
            &&& event matches SearchEvent::Event(AppEvent::PeerDiscovered(peer)) ==> known
                == with_peer(peers, peer.deep_view(), alias, fingerprint, local_ips)
            &&& !(event is Event && event->Event_0 is PeerDiscovered) ==> known == peers
        }),
{
}

/// A device with the fingerprint of this one, or with its alias at one of its
/// addresses, changes nothing; any other one is put at the end where none with
/// its fingerprint is known, and otherwise in the place of that one.
pub proof fn law_devices_are_known_by_fingerprint(
    peers: Seq<PeerModel>,
    peer: PeerModel,
    alias: Seq<char>,
    fingerprint: Seq<char>,
    local_ips: Seq<Ipv4>,
    place: int,
)
    requires
        are_others(peers, alias, fingerprint, local_ips),
    ensures
        ({
            let known = with_peer(peers, peer, alias, fingerprint, local_ips);
            let own = peer.fingerprint == fingerprint || (peer.alias == alias && exists|i: int|
                0 <= i < local_ips.len() && peer.ip == (#[trigger] local_ips[i]).dotted());
            &&& own ==> known == peers
            &&& !own && 0 <= place < peers.len() && peers[place].fingerprint == peer.fingerprint
                ==> known == peers.update(place, peer)
            &&& !own && (forall|i: int|
                0 <= i < peers.len() ==> (#[trigger] peers[i]).fingerprint != peer.fingerprint)
                ==> known == peers.push(peer)
        }),
{
    lemma_place_of(peers, peer.fingerprint);
    let found = place_of(peers, peer.fingerprint);
    if 0 <= place < peers.len() && peers[place].fingerprint == peer.fingerprint {
        assert(found <= place) by {
            if place < found {
                assert(peers[place].fingerprint != peer.fingerprint);
            }
        }
        assert(found == place) by {
            if found < place {
                assert(peers[found].fingerprint != peers[place].fingerprint);
            }
        }
    }
}

/// The size of what is shared is counted file by file: each adds its bytes, and
/// nothing where it could not be read.
pub proof fn law_shared_files_are_counted_one_by_one(
    files: Seq<LocalFileModel>,
    file: LocalFileModel,
)
    ensures
        size_of(Seq::empty()) == 0,
        file.size matches Some(size) ==> size_of(files.push(file)) == size_of(files) + size,
        file.size is None ==> size_of(files.push(file)) == size_of(files),
{
    let sizes = |file: LocalFileModel|
        match file.size {
            Some(size) => size,
            None => 0,
        };
    assert(files.push(file).map_values(sizes).drop_last() =~= files.map_values(sizes));
}

/// A line that is not the number of a device on offer is asked for again, with
/// the numbers that there are; the end of the input ends the choice.
pub proof fn law_other_lines_are_asked_for_again(peers: Seq<PeerModel>, line: Seq<char>)
    ensures
        choice(peers, None) == ChoiceModel::Nothing("no device was selected"@),
        match number(trimmed(line), usize::MAX as nat) {
            Some(n) => {
                &&& 1 <= n <= peers.len() ==> choice(peers, Some(line)) == ChoiceModel::Peer(
                    peers[n - 1],
                )
                &&& n == 0 || n > peers.len() ==> choice(peers, Some(line)) == ChoiceModel::Again(
                    "Please enter a number from 1 to "@ + decimal(peers.len()) + "."@,
                )
            },
            None => choice(peers, Some(line)) == ChoiceModel::Again(
                "Please enter a number from 1 to "@ + decimal(peers.len()) + "."@,
            ),
        },
{
}

/// A line of the menu gives the number of the device, counted from one, its
/// alias, its model as far as it is known, and its address.
pub proof fn law_menu_tells_devices_apart(peer: PeerModel, i: nat)
    ensures
        peer.device_model matches Some(model) ==> menu_line(peer, i) == "  "@ + decimal(i + 1)
            + ". "@ + peer.alias + " - "@ + model + " ("@ + peer.ip + ")"@,
        peer.device_model is None ==> menu_line(peer, i) == "  "@ + decimal(i + 1) + ". "@
            + peer.alias + " - "@ + "Unknown device"@ + " ("@ + peer.ip + ")"@,
{
}

/// Only a file can be shared; of anything else it is said what it is.
pub proof fn law_only_files_are_shared<T>(path: Seq<char>, probe: PathProbe<T>)
    ensures
        refusal(path, probe) is None <==> probe is File,
        probe is Unreadable ==> refusal(path, probe) == Some("could not read "@ + path),
        probe is NotAFile ==> refusal(path, probe) == Some(path + " is not a file"@),
        probe is Unresolved ==> refusal(path, probe) == Some("could not resolve "@ + path),
{
}

/// Another device is waited for a second, and it is said where none is found.
pub proof fn law_search_is_patient()
    ensures
        ADDITIONAL_DEVICE_WAIT_SECONDS == 1,
        NO_DEVICES@
            == "no nearby LocalSend devices found; make sure the receiving device is visible and try again"@,
{
}

/// A monitor says that the transfer is over with success exactly when it is told
/// that the transfer completed, with the same message, and with failure exactly
/// when it is told that the transfer failed, with the same error, or that no more
/// events come in. It declines a request and passes a message on. A device or a
/// received file has it watch on as if nothing had happened; only what it reports
/// itself changes what it reports next.
pub proof fn law_monitor_tells_how_the_transfer_ended(
    monitor: &mut Monitor,
    event: MonitorEvent,
    step: MonitorStep,
)
    requires
        call_ensures(Monitor::monitor_transfer, (monitor, event), step),
    ensures
        match event {
            MonitorEvent::Event(AppEvent::TransferCompleted { session_id, message }) => step
                matches MonitorStep::Completed(text) && text@ == message@,
            MonitorEvent::Event(AppEvent::TransferFailed { session_id, error }) => step
                matches MonitorStep::Failed(text) && text@ == error@,
            MonitorEvent::Stopped => step matches MonitorStep::Failed(text) && text@
                == "the transfer stopped before it completed"@,
            MonitorEvent::Event(AppEvent::IncomingTransfer(_)) => step is Decline,
            MonitorEvent::Event(AppEvent::StatusMessage(message)) => step
                matches MonitorStep::Tell(text) && text@ == message@,
            MonitorEvent::Event(AppEvent::PeerDiscovered(_)) => step is Watch,
            MonitorEvent::Event(AppEvent::FileReceived { path }) => step is Watch,
            MonitorEvent::Event(
                AppEvent::TransferProgress {
                    session_id,
                    file_id,
                    bytes_transferred,
                    total_bytes,
                    is_upload,
                },
            ) => match step {
                MonitorStep::Watch => true,
                MonitorStep::Report { file_id: label, bytes, total, percent } => {
                    &&& is_upload
                    &&& label@ == file_id@
                    &&& bytes == bytes_transferred
                    &&& total == total_bytes
                    &&& total > 0
                    &&& percent <= 100
                    &&& final(monitor).deep_view() == percent
                },
                _ => false,
            },
        },
        step !is Report ==> final(monitor).deep_view() == old(monitor).deep_view(),
{
    law_watch_ends_with_the_transfer(old(monitor).deep_view(), event);
    law_progress_is_reported_now_and_then(old(monitor).deep_view(), event);
}

/// All of a transfer is reported, whatever was reported before, as long as a
/// hundredfold of its bytes can be counted; and the first report of an upload is
/// due at ten percent.
pub proof fn law_all_of_a_transfer_is_reported(
    monitor: &mut Monitor,
    event: MonitorEvent,
    step: MonitorStep,
)
    requires
        call_ensures(Monitor::monitor_transfer, (monitor, event), step),
        event is Event,
        event->Event_0 is TransferProgress,
        event->Event_0->is_upload,
        event->Event_0->bytes_transferred * 100 <= u64::MAX,
        event->Event_0->total_bytes > 0,
    ensures
        event->Event_0->bytes_transferred >= event->Event_0->total_bytes ==> (step
            matches MonitorStep::Report { file_id, bytes, total, percent } && percent == 100),
        event->Event_0->bytes_transferred < event->Event_0->total_bytes ==> (step is Report <==>
            event->Event_0->bytes_transferred * 100 >= (old(monitor).deep_view() + 10)
            * event->Event_0->total_bytes),
{
    let bytes = event->Event_0->bytes_transferred;
    let total = event->Event_0->total_bytes;
    let last = old(monitor).deep_view();
    law_percentage_is_of_a_hundred(bytes, total);
    law_progress_is_reported_now_and_then(last, event);
    if bytes < total {
        let p = percent_of(bytes, total) as int;
        let t = total as int;
        let h = bytes * 100;
        let due = last + 10;
        if p >= due {
            assert(h >= due * t) by (nonlinear_arith)
                requires
                    p * t <= h,
                    p >= due,
                    t > 0,
            ;
        } else {
            assert(h < due * t) by (nonlinear_arith)
                requires
                    h < (p + 1) * t,
                    p + 1 <= due,
                    t > 0,
            ;
        }
    }
}

/// The search for devices does what the event calls for, and knows of devices
/// only what it was told of them.
pub proof fn law_discovery_does_what_the_event_calls_for(
    peers: &mut Vec<Peer>,
    event: SearchEvent,
    alias: &str,
    fingerprint: &str,
    local_ips: &Vec<Ipv4>,
    step: DiscoveryStep,
)
    requires
        call_ensures(discover_peers, (peers, event, alias, fingerprint, local_ips), step),
    ensures
        match event {
            SearchEvent::Quiet => step is Done,
            SearchEvent::Stopped => step matches DiscoveryStep::Failed(text) && text@
                == "device discovery stopped unexpectedly"@,
            SearchEvent::Event(AppEvent::StatusMessage(message)) => step
                matches DiscoveryStep::Failed(text) && text@ == message@,
            SearchEvent::Event(AppEvent::IncomingTransfer(_)) => step
                matches DiscoveryStep::Decline { at_most_a_while } && at_most_a_while
                == (old(peers)@.len() > 0),
            SearchEvent::Event(_) => step matches DiscoveryStep::Wait { at_most_a_while }
                && at_most_a_while == (final(peers)@.len() > 0),
        },
        !(event is Event && event->Event_0 is PeerDiscovered) ==> final(peers).deep_view()
            == old(peers).deep_view(),
        event matches SearchEvent::Event(AppEvent::PeerDiscovered(peer)) ==> peer.fingerprint@
            != fingerprint@ && !(peer.alias@ == alias@ && exists|i: int|
            0 <= i < local_ips@.len() && peer.ip@ == (#[trigger] local_ips@[i]).dotted())
            ==> final(peers).deep_view().contains(peer.deep_view()),
{
    let before = old(peers).deep_view();
    law_search_goes_by_the_event(before, event, alias@, fingerprint@, local_ips@);
    law_search_waits_for_a_device(before, event, alias@, fingerprint@, local_ips@);
    match event {
        SearchEvent::Event(AppEvent::PeerDiscovered(peer)) => {
            if peer.fingerprint@ != fingerprint@ && !runs_here(
                peer.deep_view(),
                alias@,
                local_ips@,
            ) {
                law_discovered_devices_are_known(
                    before,
                    peer.deep_view(),
                    alias@,
                    fingerprint@,
                    local_ips@,
                );
            }
        },
        _ => {},
    }
}

/// A device that is taken note of is known afterwards unless it is this one; this
/// one is not taken note of.
pub proof fn law_peers_are_added_unless_they_are_this_device(
    peers: &mut Vec<Peer>,
    peer: Peer,
    alias: &str,
    fingerprint: &str,
    local_ips: &Vec<Ipv4>,
    unit: (),
)
    requires
        call_ensures(add_peer, (peers, peer, alias, fingerprint, local_ips), unit),
    ensures
        ({
            let own = peer.fingerprint@ == fingerprint@ || (peer.alias@ == alias@ && exists|i: int|
                0 <= i < local_ips@.len() && peer.ip@ == (#[trigger] local_ips@[i]).dotted());
            &&& own ==> final(peers).deep_view() == old(peers).deep_view()
            &&& !own ==> {
                &&& final(peers).deep_view().contains(peer.deep_view())
                &&& forall|i: int|
                    0 <= i < old(peers)@.len() && old(peers).deep_view()[i].fingerprint
                        != peer.fingerprint@ ==> (#[trigger] final(peers).deep_view()[i])
                        == old(peers).deep_view()[i]
            }
        }),
{
    if peer.fingerprint@ != fingerprint@ && !runs_here(peer.deep_view(), alias@, local_ips@) {
        law_discovered_devices_are_known(
            old(peers).deep_view(),
            peer.deep_view(),
            alias@,
            fingerprint@,
            local_ips@,
        );
    }
}

/// A receiver runs on this device exactly where it goes by the same alias at one
/// of the addresses of this device.
pub proof fn law_own_receivers_are_recognised(
    peer: &Peer,
    alias: &str,
    local_ips: &Vec<Ipv4>,
    own: bool,
)
    requires
        call_ensures(is_own_receiver, (peer, alias, local_ips), own),
    ensures
        own <==> peer.alias@ == alias@ && exists|i: int|
            0 <= i < local_ips@.len() && peer.ip@ == (#[trigger] local_ips@[i]).dotted(),
{
}

/// A line with the number of a device, counted from one, chooses that device;
/// any other line is asked for again.
pub proof fn law_the_number_chooses_the_device(
    peers: &Vec<Peer>,
    line: &str,
    choice: Choice,
    place: Option<usize>,
)
    requires
        call_ensures(prompt_for_peer, (peers, Some(line)), choice),
        peers@.len() <= usize::MAX,
        call_ensures(parse_selection, (line, peers@.len() as usize), place),
    ensures
        match number(trimmed(line@), usize::MAX as nat) {
            Some(n) => {
                &&& 1 <= n <= peers@.len() ==> choice is Peer && choice->Peer_0.deep_view()
                    == peers@[n - 1].deep_view() && place == Some((n - 1) as usize)
                &&& n == 0 || n > peers@.len() ==> choice is Again && place is None
            },
            None => choice is Again && place is None,
        },
{
    law_other_lines_are_asked_for_again(peers.deep_view(), line@);
}

/// The files that are shared are those that were found, in their order; what is
/// not a file stops the share, at the first such place.
pub proof fn law_files_are_validated_in_order<T>(
    probes: Vec<(String, PathProbe<T>)>,
    r: Result<Vec<T>, (usize, String)>,
    i: int,
)
    requires
        call_ensures(validate_files::<T>, (probes,), r),
        0 <= i < probes@.len(),
    ensures
        r is Ok ==> r->Ok_0@.len() == probes@.len() && probes@[i].1 == PathProbe::File(
            r->Ok_0@[i],
        ),
        r is Err ==> r->Err_0.0 < probes@.len() && probes@[r->Err_0.0 as int].1 !is File,
        r is Err && i < r->Err_0.0 ==> probes@[i].1 is File,
        probes@[i].1 !is File ==> r is Err && r->Err_0.0 <= i,
{
    if r is Err {
        assert(refusal(
            probes@[r->Err_0.0 as int].0@,
            probes@[r->Err_0.0 as int].1,
        ) is Some);
    }
}

/// The menu has a line for every device, in their order, which begins with its
/// number.
pub proof fn law_menu_has_a_line_for_every_device(peers: &Vec<Peer>, lines: Vec<String>, i: int)
    requires
        call_ensures(peer_menu, (peers,), lines),
    ensures
        lines@.len() == peers@.len(),
        0 <= i < peers@.len() ==> lines@[i]@ == "  "@ + decimal((i + 1) as nat) + ". "@
            + peers@[i].alias@ + " - "@ + (match peers@[i].device_model {
            Some(model) => model@,
            None => "Unknown device"@,
        }) + " ("@ + peers@[i].ip@ + ")"@,
{
    assert(lines.deep_view().len() == lines@.len());
    assert(peers.deep_view().len() == peers@.len());
    if 0 <= i < peers@.len() {
        assert(lines.deep_view()[i] == lines@[i]@);
        assert(peers.deep_view()[i] == peers@[i].deep_view());
        law_menu_tells_devices_apart(peers@[i].deep_view(), i as nat);
    }
}

/// What is said of a share and of its progress gives the numbers that it is
/// about.
pub proof fn law_lines_give_the_numbers(
    count: usize,
    size: &str,
    file_id: &str,
    bytes: &str,
    percent: u64,
    sharing: String,
    progress: String,
    prompt: String,
)
    requires
        call_ensures(sharing_line, (count, size), sharing),
        call_ensures(progress_line, (file_id, bytes, size, percent), progress),
        call_ensures(selection_prompt, (count,), prompt),
    ensures
        sharing@ == "Sharing "@ + decimal(count as nat) + " file(s) ("@ + size@ + ")"@,
        progress@ == "Sending "@ + file_id@ + ": "@ + bytes@ + " / "@ + size@ + " ("@ + decimal(
            percent as nat,
        ) + "%)"@,
        prompt@ == "Enter a number (1-"@ + decimal(count as nat) + "): "@,
{
}

/// The size of a share is the sum of the sizes of its files, and is given
/// wherever it can be counted.
pub proof fn law_shared_size_is_the_sum(files: &Vec<LocalFile>, r: Option<u64>)
    requires
        call_ensures(shared_size, (files,), r),
    ensures
        size_of(files.deep_view()) <= u64::MAX ==> r is Some && r->0 as nat == size_of(
            files.deep_view(),
        ),
        size_of(files.deep_view()) > u64::MAX ==> r is None,
{
}

/// A watch starts with nothing reported.
pub proof fn law_watch_starts_with_nothing_reported(monitor: Monitor)
    requires
        call_ensures(Monitor::new, (), monitor),
    ensures
        monitor.deep_view() == 0,
{
}

}
