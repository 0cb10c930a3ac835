//! The transfer engine: the life of one download as a state machine.
//!
//! The engine performs no input or output. Its owner issues the HTTP
//! request, reads the response stream, writes the staging file and listens
//! on the control channel; it reports each thing that happened as an
//! [`Event`] and carries out the [`Action`] that [`Transfer::step`] answers
//! with.

use crate::text::{append_decimal, chars_of, decimal, parse_u64, parse_u64_text};
use vstd::prelude::*;

verus! {

/// A control signal sent to a running transfer.
#[derive(Clone, Copy, Debug, PartialEq, Eq, Structural)]
pub enum DownloadControl {
    Pause,
    Resume,
    Cancel,
}

/// A progress report: how many bytes of the file are on disk, of how many.
#[derive(Clone, Copy, Debug, PartialEq, Eq, Structural)]
pub struct DownloadProgress {
    pub id: u64,
    pub received: u64,
    pub total: u64,
}

/// Where a transfer stands.
///
/// `Flushing` and `Saving` are the two steps of leaving `Active` or
/// `Paused`: the staging file is flushed, and after a complete download
/// renamed to its final name.
#[derive(Clone, Copy, Debug, PartialEq, Eq, Structural)]
pub enum Phase {
    Starting,
    Active,
    Paused,
    Flushing,
    Saving,
    Completed,
    Failed,
    Cancelled,
}

impl Phase {
    /// The transfer has ended and accepts nothing more.
    pub open spec fn is_terminal(self) -> bool {
        self is Completed || self is Failed || self is Cancelled
    }

    /// Tests whether the transfer has ended.
    pub fn terminal(self) -> (r: bool)
        ensures
            r == self.is_terminal(),
    {
        match self {
            Phase::Completed | Phase::Failed | Phase::Cancelled => true,
            _ => false,
        }
    }

    /// A control signal can be delivered in this phase.
    pub open spec fn is_controllable(self) -> bool {
        self is Active || self is Paused
    }

    /// Tests whether a control signal can be delivered in this phase.
    pub fn controllable(self) -> (r: bool)
        ensures
            r == self.is_controllable(),
    {
        match self {
            Phase::Active | Phase::Paused => true,
            _ => false,
        }
    }
}

/// Why a transfer did not complete.
#[derive(Clone, Debug, PartialEq, Eq)]
pub enum TransferError {
    /// A cancel signal arrived, or the control channel was closed.
    Cancelled,
    /// The staging file could not be renamed to its final name.
    SaveFailed,
    /// The peer answered with a status outside 200..=299; the text is the
    /// status as the HTTP client prints it.
    BadStatus(String),
    /// A network or file operation failed; the text is its error message.
    Io(String),
}

/// The text of [`TransferError::Cancelled`].
pub open spec fn cancelled_text() -> Seq<char> {
    "Download cancelled"@
}

/// The text of [`TransferError::SaveFailed`].
pub open spec fn save_failed_text() -> Seq<char> {
    "Failed to save file"@
}

/// What precedes the status in the text of [`TransferError::BadStatus`].
pub open spec fn bad_status_prefix() -> Seq<char> {
    "Download failed with status: "@
}

impl TransferError {
    /// The message shown to the user.
    pub open spec fn message_text(self) -> Seq<char> {
        match self {
            TransferError::Cancelled => cancelled_text(),
            TransferError::SaveFailed => save_failed_text(),
            TransferError::BadStatus(status) => bad_status_prefix() + status@,
            TransferError::Io(message) => message@,
        }
    }

    /// Renders the message shown to the user.
    pub fn message(&self) -> (r: String)
        ensures
            r@ == self.message_text(),
    {
        match self {
            TransferError::Cancelled => String::from_str("Download cancelled"),
            TransferError::SaveFailed => String::from_str("Failed to save file"),
            TransferError::BadStatus(status) => {
                String::from_str("Download failed with status: ").concat(status.as_str())
            },
            TransferError::Io(message) => message.clone(),
        }
    }
}

/// A response header as the engine sees it.
#[derive(Clone, Debug, PartialEq, Eq)]
pub enum HeaderText {
    /// The response has no such header.
    Absent,
    /// The header is there, but its value is not printable text.
    Unreadable,
    /// The header's value.
    Text(String),
}

/// Something that happened to a transfer.
#[derive(Clone, Debug, PartialEq, Eq)]
pub enum Event {
    /// The peer answered the request.
    Response { status: u16, status_text: String, content_range: HeaderText, content_length: Option<u64> },
    /// Sending the request, opening the staging file or writing to it
    /// failed. While starting this ends the transfer at once; later the
    /// staging file is flushed first.
    IoFailed(String),
    /// A control signal arrived.
    Signal(DownloadControl),
    /// The control channel was closed: no signal will ever arrive.
    ChannelClosed,
    /// The response stream yielded a chunk of the file.
    Chunk(Vec<u8>),
    /// The response stream yielded an error.
    StreamFailed(String),
    /// The response stream ended normally.
    StreamEnded,
    /// The staging file was flushed.
    Flushed,
    /// The staging file could not be flushed.
    FlushFailed(String),
    /// The staging file was renamed to the final name (`true`), or the
    /// rename failed (`false`).
    Renamed(bool),
}

/// What the owner of a transfer does next.
#[derive(Clone, Debug, PartialEq, Eq)]
pub enum Action {
    /// Announce the download as started, with `total` as its size, and
    /// open the staging file for appending.
    Begin { total: u64 },
    /// Announce the download as paused.
    EmitPaused,
    /// Announce the download as resumed.
    EmitResumed,
    /// Append `data` to the staging file, then publish `progress`.
    Write { data: Vec<u8>, progress: DownloadProgress },
    /// Flush the staging file and leave it in place.
    Flush,
    /// Rename the staging file to the final name.
    Rename,
    /// Record the download with `size`, the number of bytes in the file,
    /// and announce it as completed.
    Complete { size: u64 },
    /// Announce the download as failed.
    Fail { error: TransferError },
}

impl Action {
    /// The action is the last of a transfer: its terminal notification.
    pub open spec fn is_final(self) -> bool {
        self is Complete || self is Fail
    }

    /// The name of the notification that the action publishes, if it
    /// publishes one.
    pub open spec fn event_text(self) -> Option<Seq<char>> {
        match self {
            Action::Begin { .. } => Some("download-started"@),
            Action::EmitPaused => Some("download-paused"@),
            Action::EmitResumed => Some("download-resumed"@),
            Action::Write { .. } => Some("download-progress"@),
            Action::Flush => None,
            Action::Rename => None,
            Action::Complete { .. } => Some("download-completed"@),
            Action::Fail { .. } => Some("download-failed"@),
        }
    }

    /// Names the notification that the action publishes; `None` for an
    /// action that the user interface hears nothing of.
    pub fn event_name(&self) -> (r: Option<&'static str>)
        ensures
            r is Some <==> self.event_text() is Some,
            r matches Some(name) ==> name@ == self.event_text()->0,
    {
        match self {
            Action::Begin { .. } => Some("download-started"),
            Action::EmitPaused => Some("download-paused"),
            Action::EmitResumed => Some("download-resumed"),
            Action::Write { .. } => Some("download-progress"),
            Action::Flush => None,
            Action::Rename => None,
            Action::Complete { .. } => Some("download-completed"),
            Action::Fail { .. } => Some("download-failed"),
        }
    }
}

/// An HTTP status that counts as success.
pub open spec fn is_success(status: u16) -> bool {
    200 <= status <= 299
}

/// Tests whether an HTTP status counts as success.
pub fn status_is_success(status: u16) -> (r: bool)
    ensures
        r == is_success(status),
{
    200 <= status && status <= 299
}

/// The position of the first `/` of `s` at or after `from`, or the length
/// of `s` if there is none.
pub open spec fn next_slash(s: Seq<char>, from: int) -> int
    decreases s.len() - from,
{
    if from < 0 || from >= s.len() {
        s.len() as int
    } else if s[from] == '/' {
        from
    } else {
        next_slash(s, from + 1)
    }
}

/// The total size that a `Content-Range` value declares: the number
/// written between its first `/` and the next one, or the end.
pub open spec fn declared_total(value: Seq<char>) -> Option<u64> {
    let slash = next_slash(value, 0);
    if slash >= value.len() {
        None
    } else {
        parse_u64_text(value.subrange(slash + 1, next_slash(value, slash + 1)))
    }
}

fn find_slash(chars: &Vec<char>, from: usize) -> (at: usize)
    requires
        from <= chars.len(),
    ensures
        from <= at <= chars.len(),
        at == next_slash(chars@, from as int),
{
    let mut at: usize = from;
    while at < chars.len() && chars[at] != '/'
        invariant
            from <= at <= chars.len(),
            next_slash(chars@, from as int) == next_slash(chars@, at as int),
        decreases chars.len() - at,
    {
        at += 1;
    }
    at
}

/// Reads the total size out of a `Content-Range` value.
pub fn parse_declared_total(value: &str) -> (r: Option<u64>)
    ensures
        r == declared_total(value@),
{
    let chars = chars_of(value);
    let slash = find_slash(&chars, 0);
    if slash >= chars.len() {
        return None;
    }
    let end = find_slash(&chars, slash + 1);
    parse_u64(&chars, slash + 1, end)
}

/// The size of the whole file as a response declares it.
///
/// A readable `Content-Range` with a total decides. One without is made
/// up for by the bytes already on disk plus `Content-Length`. With no
/// `Content-Range` at all, `Content-Length` alone decides, and without it
/// the size is unknown, written 0.
pub open spec fn expected_total(
    content_range: HeaderText,
    content_length: Option<u64>,
    existing: u64,
) -> int {
    let length: int = match content_length {
        Some(n) => n as int,
        None => 0,
    };
    match content_range {
        HeaderText::Absent => length,
        HeaderText::Unreadable => existing + length,
        HeaderText::Text(value) => match declared_total(value@) {
            Some(total) => total as int,
            None => existing + length,
        },
    }
}

/// Computes the size of the whole file as a response declares it; `None`
/// where that size does not fit in 64 bits.
pub fn total_size(content_range: &HeaderText, content_length: Option<u64>, existing: u64) -> (r:
    Option<u64>)
    ensures
        r == if expected_total(*content_range, content_length, existing) <= u64::MAX {
            Some(expected_total(*content_range, content_length, existing) as u64)
        } else {
            None
        },
{
    let length: u64 = match content_length {
        Some(n) => n,
        None => 0,
    };
    match content_range {
        HeaderText::Absent => Some(length),
        HeaderText::Unreadable => existing.checked_add(length),
        HeaderText::Text(value) => match parse_declared_total(value.as_str()) {
            Some(total) => Some(total),
            None => existing.checked_add(length),
        },
    }
}

/// The `Range` header value that asks for the bytes from `offset` on.
pub open spec fn range_text(offset: u64) -> Seq<char> {
    "bytes="@ + decimal(offset as nat) + "-"@
}

/// One download, from the request to its terminal notification.
#[derive(Clone, Debug, PartialEq, Eq)]
pub struct Transfer {
    /// The task identifier.
    pub id: u64,
    pub phase: Phase,
    /// The size of the staging file when the transfer started.
    pub existing: u64,
    /// How many bytes of the file are in the staging file.
    pub received: u64,
    /// The size of the whole file, 0 while unknown.
    pub total: u64,
    /// While `Flushing`: the error to report once the staging file is
    /// flushed, or `None` if the download is complete.
    pub pending: Option<TransferError>,
}

impl Transfer {
    /// A transfer that has not sent its request yet. `existing` is the
    /// size of the staging file left by an earlier attempt, 0 if there is
    /// none.
    pub fn new(id: u64, existing: u64) -> (t: Transfer)
        ensures
            t == (Transfer {
                id,
                phase: Phase::Starting,
                existing,
                received: existing,
                total: 0,
                pending: None,
            }),
    {
        Transfer { id, phase: Phase::Starting, existing, received: existing, total: 0, pending: None }
    }

    /// The byte offset that the request asks the peer to start from; `None`
    /// where the whole file is asked for.
    pub open spec fn resume_offset(self) -> Option<u64> {
        if self.existing > 0 {
            Some(self.existing)
        } else {
            None
        }
    }

    /// The value of the request's `Range` header; `None` where the request
    /// carries no such header.
    pub fn range_header(&self) -> (r: Option<String>)
        ensures
            r is Some <==> self.resume_offset() is Some,
            r matches Some(value) ==> value@ == range_text(self.existing),
    {
        if self.existing > 0 {
            let mut value = String::from_str("bytes=");
            append_decimal(&mut value, self.existing as u128);
            value.append("-");
            Some(value)
        } else {
            None
        }
    }

    /// The transfer reads the response stream in this phase. While paused
    /// it does not: only a control signal can move it on.
    pub open spec fn reads_stream(self) -> bool {
        self.phase is Active
    }

    /// Tests whether the owner is to poll the response stream.
    pub fn wants_stream(&self) -> (r: bool)
        ensures
            r == self.reads_stream(),
    {
        match self.phase {
            Phase::Active => true,
            _ => false,
        }
    }

    /// The events that can happen to a transfer in its current phase.
    ///
    /// Two of them are left out for the width of the machine's numbers: a
    /// response whose expected total does not fit in 64 bits, and a chunk
    /// that would carry the byte count beyond 64 bits.
    pub open spec fn accepts(self, event: Event) -> bool {
        match self.phase {
            Phase::Starting => match event {
                Event::Response { status, content_range, content_length, .. } => is_success(status)
                    ==> expected_total(content_range, content_length, self.existing) <= u64::MAX,
                Event::IoFailed(_) => true,
                _ => false,
            },
            Phase::Active => match event {
                Event::IoFailed(_) => true,
                Event::Signal(_) => true,
                Event::ChannelClosed => true,
                Event::Chunk(data) => self.received + data@.len() <= u64::MAX,
                Event::StreamFailed(_) => true,
                Event::StreamEnded => true,
                _ => false,
            },
            Phase::Paused => match event {
                Event::Signal(_) => true,
                Event::ChannelClosed => true,
                _ => false,
            },
            Phase::Flushing => match event {
                Event::Flushed => true,
                Event::FlushFailed(_) => true,
                _ => false,
            },
            Phase::Saving => match event {
                Event::Renamed(_) => true,
                _ => false,
            },
            _ => false,
        }
    }

    /// The transfer after an event that it accepts.
    pub open spec fn next_state(self, event: Event) -> Transfer {
        match event {
            Event::Response { status, status_text, content_range, content_length } => {
                if is_success(status) {
                    Transfer {
                        phase: Phase::Active,
                        total: expected_total(content_range, content_length, self.existing) as u64,
                        ..self
                    }
                } else {
                    Transfer { phase: Phase::Failed, ..self }
                }
            },
            Event::IoFailed(message) => if self.phase is Active {
                Transfer {
                    phase: Phase::Flushing,
                    pending: Some(TransferError::Io(message)),
                    ..self
                }
            } else {
                Transfer { phase: Phase::Failed, ..self }
            },
            Event::Signal(DownloadControl::Pause) => Transfer { phase: Phase::Paused, ..self },
            Event::Signal(DownloadControl::Resume) => Transfer { phase: Phase::Active, ..self },
            Event::Signal(DownloadControl::Cancel) => Transfer {
                phase: Phase::Flushing,
                pending: Some(TransferError::Cancelled),
                ..self
            },
            Event::ChannelClosed => Transfer {
                phase: Phase::Flushing,
                pending: Some(TransferError::Cancelled),
                ..self
            },
            Event::Chunk(data) => Transfer {
                received: (self.received + data@.len()) as u64,
                ..self
            },
            Event::StreamFailed(message) => Transfer {
                phase: Phase::Flushing,
                pending: Some(TransferError::Io(message)),
                ..self
            },
            Event::StreamEnded => Transfer { phase: Phase::Flushing, pending: None, ..self },
            Event::Flushed => match self.pending {
                None => Transfer { phase: Phase::Saving, ..self },
                Some(TransferError::Cancelled) => Transfer {
                    phase: Phase::Cancelled,
                    pending: None,
                    ..self
                },
                Some(_) => Transfer { phase: Phase::Failed, pending: None, ..self },
            },
            Event::FlushFailed(_) => Transfer { phase: Phase::Failed, pending: None, ..self },
            Event::Renamed(saved) => Transfer {
                phase: if saved {
                    Phase::Completed
                } else {
                    Phase::Failed
                },
                ..self
            },
        }
    }

    /// What the owner is to do after an event that the transfer accepts.
    pub open spec fn action_for(self, event: Event) -> Action {
        match event {
            Event::Response { status, status_text, content_range, content_length } => {
                if is_success(status) {
                    Action::Begin {
                        total: expected_total(content_range, content_length, self.existing) as u64,
                    }
                } else {
                    Action::Fail { error: TransferError::BadStatus(status_text) }
                }
            },
            Event::IoFailed(message) => if self.phase is Active {
                Action::Flush
            } else {
                Action::Fail { error: TransferError::Io(message) }
            },
            Event::Signal(DownloadControl::Pause) => Action::EmitPaused,
            Event::Signal(DownloadControl::Resume) => Action::EmitResumed,
            Event::Signal(DownloadControl::Cancel) => Action::Flush,
            Event::ChannelClosed => Action::Flush,
            Event::Chunk(data) => Action::Write {
                data,
                progress: DownloadProgress {
                    id: self.id,
                    received: (self.received + data@.len()) as u64,
                    total: self.total,
                },
            },
            Event::StreamFailed(_) => Action::Flush,
            Event::StreamEnded => Action::Flush,
            Event::Flushed => match self.pending {
                None => Action::Rename,
                Some(error) => Action::Fail { error },
            },
            Event::FlushFailed(message) => Action::Fail { error: TransferError::Io(message) },
            Event::Renamed(saved) => if saved {
                Action::Complete { size: self.received }
            } else {
                Action::Fail { error: TransferError::SaveFailed }
            },
        }
    }

    /// Takes one event. An event that the transfer accepts moves it on and
    /// is answered with the action to carry out; any other is answered
    /// with `None` and changes nothing.
    pub fn step(&mut self, event: Event) -> (r: Option<Action>)
        ensures
            old(self).accepts(event) ==> r == Some(old(self).action_for(event)) && *final(self)
                == old(self).next_state(event),
            !old(self).accepts(event) ==> r is None && *final(self) == *old(self),
    {
        match self.phase {
            Phase::Starting => match event {
                Event::Response { status, status_text, content_range, content_length } => {
                    if status_is_success(status) {
                        match total_size(&content_range, content_length, self.existing) {
                            Some(total) => {
                                self.phase = Phase::Active;
                                self.total = total;
                                Some(Action::Begin { total })
                            },
                            None => None,
                        }
                    } else {
                        self.phase = Phase::Failed;
                        Some(Action::Fail { error: TransferError::BadStatus(status_text) })
                    }
                },
                Event::IoFailed(message) => {
                    self.phase = Phase::Failed;
                    Some(Action::Fail { error: TransferError::Io(message) })
                },
                _ => None,
            },
            Phase::Active => match event {
                Event::IoFailed(message) => {
                    self.phase = Phase::Flushing;
                    self.pending = Some(TransferError::Io(message));
                    Some(Action::Flush)
                },
                Event::Signal(control) => Some(self.on_signal(control)),
                Event::ChannelClosed => Some(self.on_signal(DownloadControl::Cancel)),
                Event::Chunk(data) => {
                    let len = data.len();
                    if len as u64 > u64::MAX - self.received {
                        None
                    } else {
                        self.received = self.received + len as u64;
                        let progress = DownloadProgress {
                            id: self.id,
                            received: self.received,
                            total: self.total,
                        };
                        Some(Action::Write { data, progress })
                    }
                },
                Event::StreamFailed(message) => {
                    self.phase = Phase::Flushing;
                    self.pending = Some(TransferError::Io(message));
                    Some(Action::Flush)
                },
                Event::StreamEnded => {
                    self.phase = Phase::Flushing;
                    self.pending = None;
                    Some(Action::Flush)
                },
                _ => None,
            },
            Phase::Paused => match event {
                Event::Signal(control) => Some(self.on_signal(control)),
                Event::ChannelClosed => Some(self.on_signal(DownloadControl::Cancel)),
                _ => None,
            },
            Phase::Flushing => match event {
                Event::Flushed => match self.pending.take() {
                    None => {
                        self.phase = Phase::Saving;
                        Some(Action::Rename)
                    },
                    Some(error) => {
                        self.phase = match error {
                            TransferError::Cancelled => Phase::Cancelled,
                            _ => Phase::Failed,
                        };
                        Some(Action::Fail { error })
                    },
                },
                Event::FlushFailed(message) => {
                    self.phase = Phase::Failed;
                    self.pending = None;
                    Some(Action::Fail { error: TransferError::Io(message) })
                },
                _ => None,
            },
            Phase::Saving => match event {
                Event::Renamed(saved) => {
                    if saved {
                        self.phase = Phase::Completed;
                        Some(Action::Complete { size: self.received })
                    } else {
                        self.phase = Phase::Failed;
                        Some(Action::Fail { error: TransferError::SaveFailed })
                    }
                },
                _ => None,
            },
            _ => None,
        }
    }

    fn on_signal(&mut self, control: DownloadControl) -> (action: Action)
        ensures
            action == old(self).action_for(Event::Signal(control)),
            *final(self) == old(self).next_state(Event::Signal(control)),
    {
        match control {
            DownloadControl::Pause => {
                self.phase = Phase::Paused;
                Action::EmitPaused
            },
            DownloadControl::Resume => {
                self.phase = Phase::Active;
                Action::EmitResumed
            },
            DownloadControl::Cancel => {
                self.phase = Phase::Flushing;
                self.pending = Some(TransferError::Cancelled);
                Action::Flush
            },
        }
    }
}

} // verus!
