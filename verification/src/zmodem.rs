//! ZMODEM transfers: receiving what a client uploads and sending what it
//! downloads.
//!
//! The protocol itself is the `zmodem2` crate's. What stands here decides what
//! becomes of each of its requests; whoever owns the connection and the files
//! carries out what a step asks for and reports back.

use vstd::prelude::*;
use vstd::string::*;
use vstd::utf8::*;

use crate::files::{child_path, is_safe_name, part_name, FileArea};
use crate::terminal::{bytes_read, utf8_text, Reading, Step, Terminal};

verus! {

/// The largest file that may be uploaded, in bytes.
pub const MAX_UPLOAD_BYTES: u32 = 268435456;

/// A download is given up once the client has been silent for this long.
pub const ZMODEM_IDLE_TIMEOUT_MILLIS: u64 = 120000;

/// How long a download waits for the client before it asks again.
pub const ZMODEM_RETRY_INTERVAL_MILLIS: u64 = 10000;

/// How long to wait for the acknowledgement behind an upload.
pub const FINAL_ACK_TIMEOUT_MILLIS: u64 = 2000;

/// How many bytes of a client are read at a time.
pub const READ_BUFFER_BYTES: usize = 8192;

/// The receiving state machine of the `zmodem2` crate.
#[verifier::external_type_specification]
#[verifier::external_body]
pub struct ExReceiver(zmodem2::Receiver);

/// The sending state machine of the `zmodem2` crate.
#[verifier::external_type_specification]
#[verifier::external_body]
pub struct ExSender(zmodem2::Sender);

/// The error of the `zmodem2` crate.
#[verifier::external_type_specification]
#[verifier::external_body]
pub struct ExProtocolError(zmodem2::Error);

/// What a state machine of the `zmodem2` crate asks for next.
#[derive(Debug)]
pub enum Polled {
    WriteWire(Vec<u8>),
    ReadFile { offset: u32, max_len: usize },
    WriteFile(Vec<u8>),
    FileStarted { name: Vec<u8>, size: Option<u32> },
    FileCompleted,
    SessionCompleted,
    Aborted,
    /// An event of a later version of the crate.
    OtherEvent,
    Idle,
    /// A request of a later version of the crate.
    Unsupported,
}

/// `Polled` as a mathematical value.
#[verifier::ext_equal]
pub enum PolledView {
    WriteWire(Seq<u8>),
    ReadFile { offset: u32, max_len: usize },
    WriteFile(Seq<u8>),
    FileStarted { name: Seq<u8>, size: Option<u32> },
    FileCompleted,
    SessionCompleted,
    Aborted,
    OtherEvent,
    Idle,
    Unsupported,
}

impl View for Polled {
    type V = PolledView;

    open spec fn view(&self) -> PolledView {
        match self {
            Polled::WriteWire(bytes) => PolledView::WriteWire(bytes@),
            Polled::ReadFile { offset, max_len } => PolledView::ReadFile {
                offset: *offset,
                max_len: *max_len,
            },
            Polled::WriteFile(bytes) => PolledView::WriteFile(bytes@),
            Polled::FileStarted { name, size } => PolledView::FileStarted {
                name: name@,
                size: *size,
            },
            Polled::FileCompleted => PolledView::FileCompleted,
            Polled::SessionCompleted => PolledView::SessionCompleted,
            Polled::Aborted => PolledView::Aborted,
            Polled::OtherEvent => PolledView::OtherEvent,
            Polled::Idle => PolledView::Idle,
            Polled::Unsupported => PolledView::Unsupported,
        }
    }
}

/// A receiver after `Receiver::poll`, and what it asked for.
pub uninterp spec fn receiver_polled(receiver: zmodem2::Receiver) -> (
    zmodem2::Receiver,
    PolledView,
);

/// A receiver after `Receiver::wire_written`.
pub uninterp spec fn receiver_wire_written(receiver: zmodem2::Receiver, n: usize) -> zmodem2::Receiver;

/// A receiver after `Receiver::file_written`, and the result.
pub uninterp spec fn receiver_file_written(receiver: zmodem2::Receiver, n: usize) -> (
    zmodem2::Receiver,
    Result<(), zmodem2::Error>,
);

/// A receiver after `Receiver::skip_file`, and the result.
pub uninterp spec fn receiver_skipped(receiver: zmodem2::Receiver) -> (
    zmodem2::Receiver,
    Result<(), zmodem2::Error>,
);

/// A receiver after `Receiver::accept_file_at`, and the result.
pub uninterp spec fn receiver_accepted(receiver: zmodem2::Receiver, offset: u32) -> (
    zmodem2::Receiver,
    Result<(), zmodem2::Error>,
);

/// A receiver after `Receiver::submit_wire`, and the result.
pub uninterp spec fn receiver_submitted(receiver: zmodem2::Receiver, input: Seq<u8>) -> (
    zmodem2::Receiver,
    Result<usize, zmodem2::Error>,
);

/// A receiver as `Receiver::new` makes it.
pub uninterp spec fn receiver_is_new(receiver: zmodem2::Receiver) -> bool;

/// `Receiver::new`: a receiver that is ready to answer a sender. It always
/// succeeds: its handshake fits the buffer of outgoing bytes.
pub assume_specification[ zmodem2::Receiver::new ]() -> (r: Result<
    zmodem2::Receiver,
    zmodem2::Error,
>)
    ensures
        r is Ok,
        receiver_is_new(r->Ok_0),
;

/// A receiver after `Receiver::set_manual_file_accept`.
pub uninterp spec fn receiver_deciding(receiver: zmodem2::Receiver, manual: bool) -> zmodem2::Receiver;

/// `Receiver::set_manual_file_accept`: whether each file waits for a decision.
/// The receiver behind the call depends on the receiver and the flag alone.
pub assume_specification[ zmodem2::Receiver::set_manual_file_accept ](
    receiver: &mut zmodem2::Receiver,
    manual: bool,
)
    ensures
        *final(receiver) == receiver_deciding(*old(receiver), manual),
;

/// `Receiver::poll`: what to do next. The receiver behind the call and the
/// request depend on the receiver alone. A receiver never asks for data to send.
#[verifier::external_body]
fn poll_receiver(receiver: &mut zmodem2::Receiver) -> (r: Polled)
    ensures
        (*final(receiver), r@) == receiver_polled(*old(receiver)),
        !(r is ReadFile),
{
    match receiver.poll() {
        zmodem2::Action::WriteWire(bytes) => Polled::WriteWire(bytes.to_vec()),
        zmodem2::Action::ReadFile { offset, max_len } => Polled::ReadFile { offset: offset.get(), max_len },
        zmodem2::Action::WriteFile(bytes) => Polled::WriteFile(bytes.to_vec()),
        zmodem2::Action::Event(zmodem2::Event::FileStarted(info)) => Polled::FileStarted { name: info.name.to_vec(), size: info.size.map(zmodem2::Position::get) },
        zmodem2::Action::Event(zmodem2::Event::FileCompleted) => Polled::FileCompleted,
        zmodem2::Action::Event(zmodem2::Event::SessionCompleted) => Polled::SessionCompleted,
        zmodem2::Action::Event(zmodem2::Event::Aborted) => Polled::Aborted,
        zmodem2::Action::Event(_) => Polled::OtherEvent,
        zmodem2::Action::Idle => Polled::Idle,
        _ => Polled::Unsupported,
    }
}

/// `Receiver::wire_written`: that many bytes have been sent. The receiver behind
/// the call depends on the receiver and the number alone.
pub assume_specification[ zmodem2::Receiver::wire_written ](
    receiver: &mut zmodem2::Receiver,
    n: usize,
)
    ensures
        *final(receiver) == receiver_wire_written(*old(receiver), n),
;

/// `Receiver::file_written`: that many bytes have been stored. The receiver
/// behind the call and the result depend on the receiver and the number alone.
pub assume_specification[ zmodem2::Receiver::file_written ](
    receiver: &mut zmodem2::Receiver,
    n: usize,
) -> (r: Result<(), zmodem2::Error>)
    ensures
        (*final(receiver), r) == receiver_file_written(*old(receiver), n),
;

/// `Receiver::skip_file`: decline the offered file. The receiver behind the call
/// and the result depend on the receiver alone.
pub assume_specification[ zmodem2::Receiver::skip_file ](
    receiver: &mut zmodem2::Receiver,
) -> (r: Result<(), zmodem2::Error>)
    ensures
        (*final(receiver), r) == receiver_skipped(*old(receiver)),
;

/// `Receiver::accept_file_at`: take the offered file from an offset. The
/// receiver behind the call and the result depend on the receiver and the offset
/// alone.
pub assume_specification[ zmodem2::Receiver::accept_file_at ](
    receiver: &mut zmodem2::Receiver,
    offset: u32,
) -> (r: Result<(), zmodem2::Error>)
    ensures
        (*final(receiver), r) == receiver_accepted(*old(receiver), offset),
;

/// `Receiver::submit_wire`: hand over received bytes. The receiver behind the
/// call and the result depend on the receiver and the bytes alone; no more bytes
/// are consumed than there are.
pub assume_specification[ zmodem2::Receiver::submit_wire ](
    receiver: &mut zmodem2::Receiver,
    input: &[u8],
) -> (r: Result<usize, zmodem2::Error>)
    ensures
        (*final(receiver), r) == receiver_submitted(*old(receiver), input@),
        r matches Ok(n) ==> n <= input@.len(),
;

/// Why a transfer fails.
#[derive(Debug)]
pub enum TransferError {
    /// The protocol failed.
    Protocol(zmodem2::Error),
    /// Data came without a file.
    DataWithoutFile,
    /// An unknown file was completed.
    UnknownFile,
    /// No file is offered.
    NoOffer,
    /// The client gave up.
    Aborted,
    /// The client has gone.
    Disconnected,
    /// The receiver asked for data to send.
    SourceRequested,
    /// The sender asked for data to be stored.
    OutputRequested,
    /// The protocol asked for something unknown.
    Unsupported,
    /// The file to send is shorter than it was.
    FileEnded,
    /// The file is too large: ZMODEM cannot send it, or more of it has been
    /// received than an upload may hold.
    TooLarge,
    /// The client has been silent for too long.
    TimedOut,
}

/// Where an upload is written and where it is kept in the end.
#[derive(Debug)]
pub struct UploadPaths {
    pub final_path: String,
    pub part_path: String,
}

/// `UploadPaths` as a mathematical value.
#[verifier::ext_equal]
pub struct PathsView {
    pub final_path: Seq<char>,
    pub part_path: Seq<char>,
}

impl View for UploadPaths {
    type V = PathsView;

    open spec fn view(&self) -> PathsView {
        PathsView { final_path: self.final_path@, part_path: self.part_path@ }
    }
}

/// The paths, if there are any.
pub open spec fn optional_paths(paths: Option<UploadPaths>) -> Option<PathsView> {
    match paths {
        Some(paths) => Some(paths@),
        None => None,
    }
}

/// The paths of a file with a safe name in a directory.
pub open spec fn paths_of(root: Seq<char>, name: Seq<char>) -> PathsView {
    PathsView {
        final_path: child_path(root, name),
        part_path: child_path(root, part_name(name)),
    }
}

/// The paths of an offered file, unless it has to be declined: its name has to be
/// valid UTF-8 and a safe file name, and its size known and within the limit.
pub open spec fn offer_paths(root: Seq<char>, name: Seq<u8>, size: Option<u32>) -> Option<
    PathsView,
> {
    if valid_utf8(name) && is_safe_name(decode_utf8(name)) && size is Some && size->0
        <= MAX_UPLOAD_BYTES {
        Some(paths_of(root, decode_utf8(name)))
    } else {
        None
    }
}

/// The paths of an offered file, unless it has to be declined.
pub fn examine_offer(files: &FileArea, name: Vec<u8>, size: Option<u32>) -> (r: Option<
    UploadPaths,
>)
    ensures
        optional_paths(r) == offer_paths(files.root@, name@, size),
{
    let text: String = match utf8_text(name) {
        Some(text) => text,
        None => {
            return None;
        },
    };
    let (final_path, part_path): (String, String) = match files.upload_paths(text.as_str()) {
        Ok((final_path, part_path)) => (final_path, part_path),
        Err(_) => {
            return None;
        },
    };
    match size {
        Some(size) => {
            if size > MAX_UPLOAD_BYTES {
                return None;
            }
            Some(UploadPaths { final_path, part_path })
        },
        None => None,
    }
}

/// What has to happen next in an upload.
#[derive(Debug)]
pub enum UploadStep {
    /// Send what the terminal holds, and go on.
    Continue,
    /// Wait for the client to send something, and go on.
    Wait,
    /// Store these bytes in the part file, and report with `stored`.
    Store(Vec<u8>),
    /// Look whether a file exists at either path, and report with `checked`.
    Check(UploadPaths),
    /// Create the part file at this path, which must not exist, and report with
    /// `created`.
    Create(String),
    /// Complete the part file, give it its final path, and go on.
    Keep(UploadPaths),
    /// The upload is over.
    Done,
    /// The upload has failed.
    Failed(TransferError),
}

/// `UploadStep` as a mathematical value.
#[verifier::ext_equal]
pub enum UploadStepView {
    Continue,
    Wait,
    Store(Seq<u8>),
    Check(PathsView),
    Create(Seq<char>),
    Keep(PathsView),
    Done,
    Failed(TransferError),
}

impl View for UploadStep {
    type V = UploadStepView;

    open spec fn view(&self) -> UploadStepView {
        match self {
            UploadStep::Continue => UploadStepView::Continue,
            UploadStep::Wait => UploadStepView::Wait,
            UploadStep::Store(bytes) => UploadStepView::Store(bytes@),
            UploadStep::Check(paths) => UploadStepView::Check(paths@),
            UploadStep::Create(path) => UploadStepView::Create(path@),
            UploadStep::Keep(paths) => UploadStepView::Keep(paths@),
            UploadStep::Done => UploadStepView::Done,
            UploadStep::Failed(error) => UploadStepView::Failed(*error),
        }
    }
}

/// An upload in progress.
#[verifier::ext_equal]
pub struct UploadView {
    /// The directory for uploads.
    pub root: Seq<char>,
    pub receiver: zmodem2::Receiver,
    /// Bytes of the client that the receiver has not consumed.
    pub wire: Seq<u8>,
    /// The file that is offered and not accepted yet.
    pub offered: Option<PathsView>,
    /// The file that is being received.
    pub current: Option<PathsView>,
    /// How many bytes of that file have been received.
    pub received: u32,
    /// The session has been completed.
    pub completed: bool,
}

/// What one turn of an upload comes to.
#[verifier::ext_equal]
pub struct UploadTurn {
    pub upload: UploadView,
    /// What is left to read of the client.
    pub reading: Reading,
    /// What has been written to the client.
    pub sent: Seq<u8>,
    pub step: UploadStepView,
}

/// A result of the protocol as the step that follows it.
pub open spec fn upload_goes_on(r: Result<(), zmodem2::Error>) -> UploadStepView {
    match r {
        Ok(()) => UploadStepView::Continue,
        Err(error) => UploadStepView::Failed(TransferError::Protocol(error)),
    }
}

/// A turn in which more bytes of the client are read.
pub open spec fn upload_read(u: UploadView, t: Reading) -> UploadTurn {
    let (left, got) = bytes_read(t, READ_BUFFER_BYTES as int);
    match got {
        Step::Pending => UploadTurn {
            upload: u,
            reading: left,
            sent: Seq::empty(),
            step: UploadStepView::Wait,
        },
        Step::Ready(bytes) => if bytes.len() == 0 {
            UploadTurn {
                upload: u,
                reading: left,
                sent: Seq::empty(),
                step: UploadStepView::Failed(TransferError::Disconnected),
            }
        } else {
            UploadTurn {
                upload: UploadView { wire: u.wire + bytes, ..u },
                reading: left,
                sent: Seq::empty(),
                step: UploadStepView::Continue,
            }
        },
    }
}

/// A turn in which the receiver has nothing to do: it is handed the bytes at
/// hand, and where it takes none of them more are read.
pub open spec fn upload_idle(u: UploadView, t: Reading) -> UploadTurn {
    if u.wire.len() == 0 {
        upload_read(u, t)
    } else {
        let (receiver, result) = receiver_submitted(u.receiver, u.wire);
        let v = UploadView { receiver, ..u };
        match result {
            Err(error) => UploadTurn {
                upload: v,
                reading: t,
                sent: Seq::empty(),
                step: UploadStepView::Failed(TransferError::Protocol(error)),
            },
            Ok(n) => if n == 0 {
                upload_read(v, t)
            } else {
                UploadTurn {
                    upload: UploadView { wire: u.wire.skip(n as int), ..v },
                    reading: t,
                    sent: Seq::empty(),
                    step: UploadStepView::Continue,
                }
            },
        }
    }
}

/// The turn that answers a request of the receiver.
pub open spec fn upload_acted(u: UploadView, action: PolledView, t: Reading) -> UploadTurn {
    let same = UploadTurn {
        upload: u,
        reading: t,
        sent: Seq::empty(),
        step: UploadStepView::Continue,
    };
    match action {
        PolledView::WriteWire(bytes) => UploadTurn {
            upload: UploadView {
                receiver: receiver_wire_written(u.receiver, bytes.len() as usize),
                ..u
            },
            sent: bytes,
            ..same
        },
        PolledView::WriteFile(bytes) => if u.current is None {
            UploadTurn {
                step: UploadStepView::Failed(TransferError::DataWithoutFile),
                ..same
            }
        } else if u.received + bytes.len() > MAX_UPLOAD_BYTES {
            UploadTurn { step: UploadStepView::Failed(TransferError::TooLarge), ..same }
        } else {
            UploadTurn {
                upload: UploadView { received: (u.received + bytes.len()) as u32, ..u },
                step: UploadStepView::Store(bytes),
                ..same
            }
        },
        PolledView::FileStarted { name, size } => match offer_paths(u.root, name, size) {
            Some(paths) => UploadTurn {
                upload: UploadView { offered: Some(paths), ..u },
                step: UploadStepView::Check(paths),
                ..same
            },
            None => UploadTurn {
                upload: UploadView { receiver: receiver_skipped(u.receiver).0, ..u },
                step: upload_goes_on(receiver_skipped(u.receiver).1),
                ..same
            },
        },
        PolledView::FileCompleted => match u.current {
            Some(paths) => UploadTurn {
                upload: UploadView { current: None, ..u },
                step: UploadStepView::Keep(paths),
                ..same
            },
            None => UploadTurn {
                step: UploadStepView::Failed(TransferError::UnknownFile),
                ..same
            },
        },
        PolledView::SessionCompleted => UploadTurn {
            upload: UploadView { completed: true, ..u },
            ..same
        },
        PolledView::Aborted => UploadTurn {
            step: UploadStepView::Failed(TransferError::Aborted),
            ..same
        },
        PolledView::OtherEvent => same,
        PolledView::Idle => if u.completed {
            UploadTurn { step: UploadStepView::Done, ..same }
        } else {
            upload_idle(u, t)
        },
        PolledView::ReadFile { .. } => UploadTurn {
            step: UploadStepView::Failed(TransferError::SourceRequested),
            ..same
        },
        PolledView::Unsupported => UploadTurn {
            step: UploadStepView::Failed(TransferError::Unsupported),
            ..same
        },
    }
}

/// One turn of an upload.
pub open spec fn upload_turn(u: UploadView, t: Reading) -> UploadTurn {
    let (receiver, action) = receiver_polled(u.receiver);
    upload_acted(UploadView { receiver, ..u }, action, t)
}

/// What it comes to that a file exists at either path of the offered file, or
/// none does.
pub open spec fn upload_checked(u: UploadView, exists: bool) -> (UploadView, UploadStepView) {
    match u.offered {
        None => (u, UploadStepView::Failed(TransferError::NoOffer)),
        Some(paths) => if exists {
            (
                UploadView { offered: None, receiver: receiver_skipped(u.receiver).0, ..u },
                upload_goes_on(receiver_skipped(u.receiver).1),
            )
        } else {
            (u, UploadStepView::Create(paths.part_path))
        },
    }
}

/// What it comes to that the part file of the offered file has been created.
pub open spec fn upload_created(u: UploadView) -> (UploadView, UploadStepView) {
    match u.offered {
        None => (u, UploadStepView::Failed(TransferError::NoOffer)),
        Some(paths) => {
            let (receiver, result) = receiver_accepted(u.receiver, 0);
            let v = UploadView { offered: None, receiver, ..u };
            (
                if result is Ok {
                    UploadView { current: Some(paths), received: 0, ..v }
                } else {
                    v
                },
                upload_goes_on(result),
            )
        },
    }
}

/// What it comes to that so many bytes have been stored.
pub open spec fn upload_stored(u: UploadView, n: usize) -> (UploadView, UploadStepView) {
    let (receiver, result) = receiver_file_written(u.receiver, n);
    (UploadView { receiver, ..u }, upload_goes_on(result))
}

/// A file that a client sends.
pub struct Upload {
    files: FileArea,
    receiver: zmodem2::Receiver,
    wire: Vec<u8>,
    offered: Option<UploadPaths>,
    current: Option<UploadPaths>,
    received: u32,
    completed: bool,
}

impl View for Upload {
    type V = UploadView;

    closed spec fn view(&self) -> UploadView {
        UploadView {
            root: self.files.root@,
            receiver: self.receiver,
            wire: self.wire@,
            offered: optional_paths(self.offered),
            current: optional_paths(self.current),
            received: self.received,
            completed: self.completed,
        }
    }
}

/// A copy of some paths.
fn copy_paths(paths: &UploadPaths) -> (r: UploadPaths)
    ensures
        r@ == paths@,
{
    UploadPaths { final_path: paths.final_path.clone(), part_path: paths.part_path.clone() }
}

impl Upload {
    /// An upload into a directory, of which the first bytes have been read. The
    /// receiver is a new one, and leaves the decision on each file to the board.
    pub fn new(files: &FileArea, initial: Vec<u8>) -> (r: Result<Upload, TransferError>)
        ensures
            r is Ok,
            r matches Ok(upload) ==> {
                &&& upload@.root == files.root@
                &&& upload@.wire == initial@
                &&& upload@.offered is None
                &&& upload@.current is None
                &&& upload@.received == 0
                &&& !upload@.completed
                &&& exists|fresh: zmodem2::Receiver|
                    receiver_is_new(fresh) && upload@.receiver == #[trigger] receiver_deciding(
                        fresh,
                        true,
                    )
            },
    {
        match zmodem2::Receiver::new() {
            Ok(receiver) => {
                let mut receiver: zmodem2::Receiver = receiver;
                receiver.set_manual_file_accept(true);
                Ok(
                    Upload {
                        files: files.clone(),
                        receiver,
                        wire: initial,
                        offered: None,
                        current: None,
                        received: 0,
                        completed: false,
                    },
                )
            },
            Err(error) => Err(TransferError::Protocol(error)),
        }
    }

    /// Take one turn: let the receiver say what it needs, and answer it.
    pub fn poll(&mut self, terminal: &mut Terminal) -> (r: UploadStep)
        ensures
            ({
                let turn = upload_turn(old(self)@, old(terminal).reading());
                &&& final(self)@ == turn.upload
                &&& final(terminal).reading() == turn.reading
                &&& final(terminal).output() == old(terminal).output() + turn.sent
                &&& final(terminal).closed() == old(terminal).closed()
                &&& r@ == turn.step
            }),
    {
        let ghost before = self@;
        let action: Polled = poll_receiver(&mut self.receiver);
        assert(self@ =~= (UploadView { receiver: receiver_polled(before.receiver).0, ..before }));
        self.on_action(action, terminal)
    }

    /// Answer a request of the receiver.
    pub fn on_action(&mut self, action: Polled, terminal: &mut Terminal) -> (r: UploadStep)
        ensures
            ({
                let turn = upload_acted(old(self)@, action@, old(terminal).reading());
                &&& final(self)@ == turn.upload
                &&& final(terminal).reading() == turn.reading
                &&& final(terminal).output() == old(terminal).output() + turn.sent
                &&& final(terminal).closed() == old(terminal).closed()
                &&& r@ == turn.step
            }),
    {
        match action {
            Polled::WriteWire(bytes) => {
                terminal.write_bytes(bytes.as_slice());
                self.receiver.wire_written(bytes.len());
                assert(self@ =~= upload_acted(old(self)@, action@, old(terminal).reading()).upload);
                UploadStep::Continue
            },
            Polled::WriteFile(bytes) => {
                if self.current.is_none() {
                    return UploadStep::Failed(TransferError::DataWithoutFile);
                }
                if self.received > MAX_UPLOAD_BYTES || bytes.len() > (MAX_UPLOAD_BYTES
                    - self.received) as usize {
                    return UploadStep::Failed(TransferError::TooLarge);
                }
                self.received = self.received + bytes.len() as u32;
                UploadStep::Store(bytes)
            },
            Polled::FileStarted { name, size } => {
                match examine_offer(&self.files, name, size) {
                    Some(paths) => {
                        self.offered = Some(copy_paths(&paths));
                        assert(self@ =~= upload_acted(
                            old(self)@,
                            action@,
                            old(terminal).reading(),
                        ).upload);
                        UploadStep::Check(paths)
                    },
                    None => self.decline(),
                }
            },
            Polled::FileCompleted => {
                let mut current: Option<UploadPaths> = None;
                std::mem::swap(&mut current, &mut self.current);
                assert(self@ =~= (UploadView { current: None, ..old(self)@ }));
                match current {
                    Some(paths) => UploadStep::Keep(paths),
                    None => {
                        assert(self@ =~= old(self)@);
                        UploadStep::Failed(TransferError::UnknownFile)
                    },
                }
            },
            Polled::SessionCompleted => {
                self.completed = true;
                UploadStep::Continue
            },
            Polled::Aborted => UploadStep::Failed(TransferError::Aborted),
            Polled::OtherEvent => UploadStep::Continue,
            Polled::Idle => {
                if self.completed {
                    return UploadStep::Done;
                }
                self.on_idle(terminal)
            },
            Polled::ReadFile { offset: _, max_len: _ } => UploadStep::Failed(
                TransferError::SourceRequested,
            ),
            Polled::Unsupported => UploadStep::Failed(TransferError::Unsupported),
        }
    }

    /// Decline the offered file.
    fn decline(&mut self) -> (r: UploadStep)
        ensures
            final(self)@ == (UploadView {
                receiver: receiver_skipped(old(self)@.receiver).0,
                ..old(self)@
            }),
            r@ == upload_goes_on(receiver_skipped(old(self)@.receiver).1),
    {
        match self.receiver.skip_file() {
            Ok(()) => UploadStep::Continue,
            Err(error) => UploadStep::Failed(TransferError::Protocol(error)),
        }
    }

    /// Hand the receiver the bytes at hand, and read more where it takes none.
    fn on_idle(&mut self, terminal: &mut Terminal) -> (r: UploadStep)
        ensures
            ({
                let turn = upload_idle(old(self)@, old(terminal).reading());
                &&& final(self)@ == turn.upload
                &&& final(terminal).reading() == turn.reading
                &&& final(terminal).output() == old(terminal).output() + turn.sent
                &&& final(terminal).closed() == old(terminal).closed()
                &&& r@ == turn.step
            }),
    {
        if self.wire.len() != 0 {
            match self.receiver.submit_wire(self.wire.as_slice()) {
                Ok(consumed) => {
                    if consumed != 0 {
                        let rest: Vec<u8> = self.wire.split_off(consumed);
                        self.wire = rest;
                        assert(self@.wire =~= old(self)@.wire.skip(consumed as int));
                        return UploadStep::Continue;
                    }
                },
                Err(error) => {
                    return UploadStep::Failed(TransferError::Protocol(error));
                },
            }
        }
        let ghost u = self@;
        match terminal.read_bytes(READ_BUFFER_BYTES) {
            Step::Pending => UploadStep::Wait,
            Step::Ready(bytes) => {
                if bytes.len() == 0 {
                    return UploadStep::Failed(TransferError::Disconnected);
                }
                self.wire.extend_from_slice(bytes.as_slice());
                assert(self@.wire =~= u.wire + bytes@);
                UploadStep::Continue
            },
        }
    }

    /// It is known whether a file exists at either path of the offered file: it
    /// is declined where one does.
    pub fn checked(&mut self, exists: bool) -> (r: UploadStep)
        ensures
            (final(self)@, r@) == upload_checked(old(self)@, exists),
    {
        if exists && self.offered.is_some() {
            self.offered = None;
            return self.decline();
        }
        match &self.offered {
            Some(paths) => UploadStep::Create(paths.part_path.clone()),
            None => UploadStep::Failed(TransferError::NoOffer),
        }
    }

    /// The part file of the offered file has been created: the file is accepted
    /// from its start.
    pub fn created(&mut self) -> (r: UploadStep)
        ensures
            (final(self)@, r@) == upload_created(old(self)@),
    {
        let mut offered: Option<UploadPaths> = None;
        std::mem::swap(&mut offered, &mut self.offered);
        match offered {
            Some(paths) => {
                match self.receiver.accept_file_at(0) {
                    Ok(()) => {
                        self.current = Some(paths);
                        self.received = 0;
                        UploadStep::Continue
                    },
                    Err(error) => UploadStep::Failed(TransferError::Protocol(error)),
                }
            },
            None => {
                assert(self@ =~= old(self)@);
                UploadStep::Failed(TransferError::NoOffer)
            },
        }
    }

    /// That many bytes have been stored in the part file.
    pub fn stored(&mut self, n: usize) -> (r: UploadStep)
        ensures
            final(self)@ == (UploadView {
                receiver: receiver_file_written(old(self)@.receiver, n).0,
                ..old(self)@
            }),
            r@ == upload_goes_on(receiver_file_written(old(self)@.receiver, n).1),
            (final(self)@, r@) == upload_stored(old(self)@, n),
    {
        match self.receiver.file_written(n) {
            Ok(()) => UploadStep::Continue,
            Err(error) => UploadStep::Failed(TransferError::Protocol(error)),
        }
    }
}

/// A sender after `Sender::start_file`, and the result.
pub uninterp spec fn sender_started(sender: zmodem2::Sender, name: Seq<u8>, size: u32) -> (
    zmodem2::Sender,
    Result<(), zmodem2::Error>,
);

/// A sender after `Sender::poll`, and what it asked for.
pub uninterp spec fn sender_polled(sender: zmodem2::Sender) -> (zmodem2::Sender, PolledView);

/// A sender after `Sender::wire_written`.
pub uninterp spec fn sender_wire_written(sender: zmodem2::Sender, n: usize) -> zmodem2::Sender;

/// A sender after `Sender::submit_file`, and the result.
pub uninterp spec fn sender_supplied(sender: zmodem2::Sender, data: Seq<u8>) -> (
    zmodem2::Sender,
    Result<(), zmodem2::Error>,
);

/// A sender after `Sender::finish`, and the result.
pub uninterp spec fn sender_finished(sender: zmodem2::Sender) -> (
    zmodem2::Sender,
    Result<(), zmodem2::Error>,
);

/// A sender after `Sender::submit_wire`, and the result.
pub uninterp spec fn sender_submitted(sender: zmodem2::Sender, input: Seq<u8>) -> (
    zmodem2::Sender,
    Result<usize, zmodem2::Error>,
);

/// A sender after `Sender::timeout`, and the result.
pub uninterp spec fn sender_timed_out(sender: zmodem2::Sender) -> (
    zmodem2::Sender,
    Result<(), zmodem2::Error>,
);

/// The longest name of a file that a sender takes, in bytes.
pub const MAX_SENT_NAME_BYTES: usize = 256;

/// A sender as `Sender::new` makes it.
pub uninterp spec fn sender_is_new(sender: zmodem2::Sender) -> bool;

/// `Sender::new`: a sender that is ready to call a receiver. It always succeeds:
/// its handshake fits the buffer of outgoing bytes.
pub assume_specification[ zmodem2::Sender::new ]() -> (r: Result<zmodem2::Sender, zmodem2::Error>)
    ensures
        r is Ok,
        sender_is_new(r->Ok_0),
;

/// `Sender::start_file` with a name and a size: the sender behind the call and
/// the result depend on the sender, the name and the size alone. A new sender
/// takes every file but one whose name is too long for it to hold.
#[verifier::external_body]
fn start_file(sender: &mut zmodem2::Sender, name: &[u8], size: u32) -> (r: Result<
    (),
    zmodem2::Error,
>)
    ensures
        (*final(sender), r) == sender_started(*old(sender), name@, size),
        sender_is_new(*old(sender)) ==> (r is Ok <==> name@.len() <= MAX_SENT_NAME_BYTES),
{
    sender.start_file(zmodem2::FileInfo::new(name, Some(zmodem2::Position::new(size))))
}

/// `Sender::poll`: what to do next. The sender behind the call and the request
/// depend on the sender alone. A sender never asks for data to be stored.
#[verifier::external_body]
fn poll_sender(sender: &mut zmodem2::Sender) -> (r: Polled)
    ensures
        (*final(sender), r@) == sender_polled(*old(sender)),
        !(r is WriteFile),
{
    match sender.poll() {
        zmodem2::Action::WriteWire(bytes) => Polled::WriteWire(bytes.to_vec()),
        zmodem2::Action::ReadFile { offset, max_len } => Polled::ReadFile { offset: offset.get(), max_len },
        zmodem2::Action::WriteFile(bytes) => Polled::WriteFile(bytes.to_vec()),
        zmodem2::Action::Event(zmodem2::Event::FileStarted(info)) => Polled::FileStarted { name: info.name.to_vec(), size: info.size.map(zmodem2::Position::get) },
        zmodem2::Action::Event(zmodem2::Event::FileCompleted) => Polled::FileCompleted,
        zmodem2::Action::Event(zmodem2::Event::SessionCompleted) => Polled::SessionCompleted,
        zmodem2::Action::Event(zmodem2::Event::Aborted) => Polled::Aborted,
        zmodem2::Action::Event(_) => Polled::OtherEvent,
        zmodem2::Action::Idle => Polled::Idle,
        _ => Polled::Unsupported,
    }
}

/// `Sender::wire_written`: that many bytes have been sent. The sender behind the
/// call depends on the sender and the number alone.
pub assume_specification[ zmodem2::Sender::wire_written ](sender: &mut zmodem2::Sender, n: usize)
    ensures
        *final(sender) == sender_wire_written(*old(sender), n),
;

/// `Sender::submit_file`: hand over data of the file. The sender behind the call
/// and the result depend on the sender and the data alone.
pub assume_specification[ zmodem2::Sender::submit_file ](
    sender: &mut zmodem2::Sender,
    data: &[u8],
) -> (r: Result<(), zmodem2::Error>)
    ensures
        (*final(sender), r) == sender_supplied(*old(sender), data@),
;

/// `Sender::finish`: no further file follows. The sender behind the call and the
/// result depend on the sender alone.
pub assume_specification[ zmodem2::Sender::finish ](sender: &mut zmodem2::Sender) -> (r: Result<
    (),
    zmodem2::Error,
>)
    ensures
        (*final(sender), r) == sender_finished(*old(sender)),
;

/// `Sender::submit_wire`: hand over received bytes. The sender behind the call
/// and the result depend on the sender and the bytes alone; no more bytes are
/// consumed than there are.
pub assume_specification[ zmodem2::Sender::submit_wire ](
    sender: &mut zmodem2::Sender,
    input: &[u8],
) -> (r: Result<usize, zmodem2::Error>)
    ensures
        (*final(sender), r) == sender_submitted(*old(sender), input@),
        r matches Ok(n) ==> n <= input@.len(),
;

/// `Sender::timeout`: the receiver has not answered in time. The sender behind
/// the call and the result depend on the sender alone.
pub assume_specification[ zmodem2::Sender::timeout ](sender: &mut zmodem2::Sender) -> (r: Result<
    (),
    zmodem2::Error,
>)
    ensures
        (*final(sender), r) == sender_timed_out(*old(sender)),
;

/// What has to happen next in a download.
#[derive(Debug)]
pub enum DownloadStep {
    /// Send what the terminal holds, and go on.
    Continue,
    /// The client has sent something: it is not silent. Go on.
    Heard,
    /// Wait for the client to send something, and go on; where it has not within
    /// the retry interval, report with `silent`.
    Wait,
    /// Read at most `max_len` bytes of the file at `offset`, and report with
    /// `supply`.
    ReadFile { offset: u32, max_len: usize },
    /// The download is over.
    Done,
    /// The download has failed.
    Failed(TransferError),
}

/// A download in progress.
#[verifier::ext_equal]
pub struct DownloadView {
    pub sender: zmodem2::Sender,
    /// Bytes of the client that the sender has not consumed.
    pub wire: Seq<u8>,
    /// The session has been completed.
    pub completed: bool,
}

/// What one turn of a download comes to.
#[verifier::ext_equal]
pub struct DownloadTurn {
    pub download: DownloadView,
    /// What is left to read of the client.
    pub reading: Reading,
    /// What has been written to the client.
    pub sent: Seq<u8>,
    pub step: DownloadStep,
}

/// A result of the protocol as the step that follows it.
pub open spec fn download_goes_on(r: Result<(), zmodem2::Error>) -> DownloadStep {
    match r {
        Ok(()) => DownloadStep::Continue,
        Err(error) => DownloadStep::Failed(TransferError::Protocol(error)),
    }
}

/// A turn in which more bytes of the client are read.
pub open spec fn download_read(d: DownloadView, t: Reading) -> DownloadTurn {
    let (left, got) = bytes_read(t, READ_BUFFER_BYTES as int);
    match got {
        Step::Pending => DownloadTurn {
            download: d,
            reading: left,
            sent: Seq::empty(),
            step: DownloadStep::Wait,
        },
        Step::Ready(bytes) => if bytes.len() == 0 {
            DownloadTurn {
                download: d,
                reading: left,
                sent: Seq::empty(),
                step: DownloadStep::Failed(TransferError::Disconnected),
            }
        } else {
            DownloadTurn {
                download: DownloadView { wire: d.wire + bytes, ..d },
                reading: left,
                sent: Seq::empty(),
                step: DownloadStep::Heard,
            }
        },
    }
}

/// A turn in which the sender has nothing to do: it is handed the bytes at hand,
/// and where it takes none of them more are read.
pub open spec fn download_idle(d: DownloadView, t: Reading) -> DownloadTurn {
    if d.wire.len() == 0 {
        download_read(d, t)
    } else {
        let (sender, result) = sender_submitted(d.sender, d.wire);
        let e = DownloadView { sender, ..d };
        match result {
            Err(error) => DownloadTurn {
                download: e,
                reading: t,
                sent: Seq::empty(),
                step: DownloadStep::Failed(TransferError::Protocol(error)),
            },
            Ok(n) => if n == 0 {
                download_read(e, t)
            } else {
                DownloadTurn {
                    download: DownloadView { wire: d.wire.skip(n as int), ..e },
                    reading: t,
                    sent: Seq::empty(),
                    step: DownloadStep::Continue,
                }
            },
        }
    }
}

/// The turn that answers a request of the sender.
pub open spec fn download_acted(d: DownloadView, action: PolledView, t: Reading) -> DownloadTurn {
    let same = DownloadTurn {
        download: d,
        reading: t,
        sent: Seq::empty(),
        step: DownloadStep::Continue,
    };
    match action {
        PolledView::WriteWire(bytes) => DownloadTurn {
            download: DownloadView {
                sender: sender_wire_written(d.sender, bytes.len() as usize),
                ..d
            },
            sent: bytes,
            ..same
        },
        PolledView::ReadFile { offset, max_len } => DownloadTurn {
            step: DownloadStep::ReadFile { offset, max_len },
            ..same
        },
        PolledView::FileCompleted => DownloadTurn {
            download: DownloadView { sender: sender_finished(d.sender).0, ..d },
            step: download_goes_on(sender_finished(d.sender).1),
            ..same
        },
        PolledView::SessionCompleted => DownloadTurn {
            download: DownloadView { completed: true, ..d },
            ..same
        },
        PolledView::Aborted => DownloadTurn {
            step: DownloadStep::Failed(TransferError::Aborted),
            ..same
        },
        PolledView::FileStarted { .. } => same,
        PolledView::OtherEvent => same,
        PolledView::Idle => if d.completed {
            DownloadTurn { step: DownloadStep::Done, ..same }
        } else {
            download_idle(d, t)
        },
        PolledView::WriteFile(_) => DownloadTurn {
            step: DownloadStep::Failed(TransferError::OutputRequested),
            ..same
        },
        PolledView::Unsupported => DownloadTurn {
            step: DownloadStep::Failed(TransferError::Unsupported),
            ..same
        },
    }
}

/// One turn of a download.
pub open spec fn download_turn(d: DownloadView, t: Reading) -> DownloadTurn {
    let (sender, action) = sender_polled(d.sender);
    download_acted(DownloadView { sender, ..d }, action, t)
}

/// What it comes to that data of the file has been read: none means that the
/// file has ended too soon.
pub open spec fn download_supplied(d: DownloadView, data: Seq<u8>) -> (DownloadView, DownloadStep) {
    if data.len() == 0 {
        (d, DownloadStep::Failed(TransferError::FileEnded))
    } else {
        let (sender, result) = sender_supplied(d.sender, data);
        (DownloadView { sender, ..d }, download_goes_on(result))
    }
}

/// What it comes to that the client has been silent for so long.
pub open spec fn download_silent(d: DownloadView, millis: u64) -> (DownloadView, DownloadStep) {
    if millis >= ZMODEM_IDLE_TIMEOUT_MILLIS {
        (d, DownloadStep::Failed(TransferError::TimedOut))
    } else {
        let (sender, result) = sender_timed_out(d.sender);
        (DownloadView { sender, ..d }, download_goes_on(result))
    }
}

/// A file that is sent to a client.
pub struct Download {
    sender: zmodem2::Sender,
    wire: Vec<u8>,
    completed: bool,
}

impl View for Download {
    type V = DownloadView;

    closed spec fn view(&self) -> DownloadView {
        DownloadView { sender: self.sender, wire: self.wire@, completed: self.completed }
    }
}

impl Download {
    /// Offer a file with a name and a size through a new sender. ZMODEM takes no
    /// file of 4 GiB or more, and the sender no name that is too long for it.
    pub fn new(name: &str, size: u64) -> (r: Result<Download, TransferError>)
        ensures
            r is Ok <==> size <= u32::MAX && encode_utf8(name@).len() <= MAX_SENT_NAME_BYTES,
            size > u32::MAX ==> r is Err && r->Err_0 == TransferError::TooLarge,
            size <= u32::MAX ==> exists|fresh: zmodem2::Sender|
                {
                    let started = #[trigger] sender_started(
                        fresh,
                        encode_utf8(name@),
                        size as u32,
                    );
                    &&& sender_is_new(fresh)
                    &&& match r {
                        Ok(download) => {
                            &&& started.1 is Ok
                            &&& download@.sender == started.0
                            &&& download@.wire == Seq::<u8>::empty()
                            &&& !download@.completed
                        },
                        Err(error) => {
                            &&& started.1 is Err
                            &&& error == TransferError::Protocol(started.1->Err_0)
                        },
                    }
                },
    {
        if size > u32::MAX as u64 {
            return Err(TransferError::TooLarge);
        }
        match zmodem2::Sender::new() {
            Ok(fresh) => {
                let mut sender: zmodem2::Sender = fresh;
                match start_file(&mut sender, name.as_bytes(), size as u32) {
                    Ok(()) => {
                        let download: Download = Download {
                            sender,
                            wire: Vec::new(),
                            completed: false,
                        };
                        assert(download@.wire =~= Seq::<u8>::empty());
                        assert(sender_started(fresh, encode_utf8(name@), size as u32).1 is Ok);
                        Ok(download)
                    },
                    Err(error) => Err(TransferError::Protocol(error)),
                }
            },
            Err(error) => Err(TransferError::Protocol(error)),
        }
    }

    /// Take one turn: let the sender say what it needs, and answer it.
    pub fn poll(&mut self, terminal: &mut Terminal) -> (r: DownloadStep)
        ensures
            ({
                let turn = download_turn(old(self)@, old(terminal).reading());
                &&& final(self)@ == turn.download
                &&& final(terminal).reading() == turn.reading
                &&& final(terminal).output() == old(terminal).output() + turn.sent
                &&& final(terminal).closed() == old(terminal).closed()
                &&& r == turn.step
            }),
    {
        let ghost before = self@;
        let action: Polled = poll_sender(&mut self.sender);
        assert(self@ =~= (DownloadView { sender: sender_polled(before.sender).0, ..before }));
        self.on_action(action, terminal)
    }

    /// Answer a request of the sender.
    pub fn on_action(&mut self, action: Polled, terminal: &mut Terminal) -> (r: DownloadStep)
        ensures
            ({
                let turn = download_acted(old(self)@, action@, old(terminal).reading());
                &&& final(self)@ == turn.download
                &&& final(terminal).reading() == turn.reading
                &&& final(terminal).output() == old(terminal).output() + turn.sent
                &&& final(terminal).closed() == old(terminal).closed()
                &&& r == turn.step
            }),
    {
        match action {
            Polled::WriteWire(bytes) => {
                terminal.write_bytes(bytes.as_slice());
                self.sender.wire_written(bytes.len());
                DownloadStep::Continue
            },
            Polled::ReadFile { offset, max_len } => DownloadStep::ReadFile { offset, max_len },
            Polled::FileCompleted => {
                match self.sender.finish() {
                    Ok(()) => DownloadStep::Continue,
                    Err(error) => DownloadStep::Failed(TransferError::Protocol(error)),
                }
            },
            Polled::SessionCompleted => {
                self.completed = true;
                DownloadStep::Continue
            },
            Polled::Aborted => DownloadStep::Failed(TransferError::Aborted),
            Polled::FileStarted { name: _, size: _ } => DownloadStep::Continue,
            Polled::OtherEvent => DownloadStep::Continue,
            Polled::Idle => {
                if self.completed {
                    return DownloadStep::Done;
                }
                self.on_idle(terminal)
            },
            Polled::WriteFile(_) => DownloadStep::Failed(TransferError::OutputRequested),
            Polled::Unsupported => DownloadStep::Failed(TransferError::Unsupported),
        }
    }

    /// Hand the sender the bytes at hand, and read more where it takes none.
    fn on_idle(&mut self, terminal: &mut Terminal) -> (r: DownloadStep)
        ensures
            ({
                let turn = download_idle(old(self)@, old(terminal).reading());
                &&& final(self)@ == turn.download
                &&& final(terminal).reading() == turn.reading
                &&& final(terminal).output() == old(terminal).output() + turn.sent
                &&& final(terminal).closed() == old(terminal).closed()
                &&& r == turn.step
            }),
    {
        if self.wire.len() != 0 {
            match self.sender.submit_wire(self.wire.as_slice()) {
                Ok(consumed) => {
                    if consumed != 0 {
                        let rest: Vec<u8> = self.wire.split_off(consumed);
                        self.wire = rest;
                        assert(self@.wire =~= old(self)@.wire.skip(consumed as int));
                        return DownloadStep::Continue;
                    }
                },
                Err(error) => {
                    return DownloadStep::Failed(TransferError::Protocol(error));
                },
            }
        }
        let ghost d = self@;
        match terminal.read_bytes(READ_BUFFER_BYTES) {
            Step::Pending => DownloadStep::Wait,
            Step::Ready(bytes) => {
                if bytes.len() == 0 {
                    return DownloadStep::Failed(TransferError::Disconnected);
                }
                self.wire.extend_from_slice(bytes.as_slice());
                assert(self@.wire =~= d.wire + bytes@);
                DownloadStep::Heard
            },
        }
    }

    /// Data that was read of the file.
    pub fn supply(&mut self, data: &[u8]) -> (r: DownloadStep)
        ensures
            data@.len() == 0 ==> final(self)@ == old(self)@ && r == DownloadStep::Failed(
                TransferError::FileEnded,
            ),
            data@.len() > 0 ==> {
                let (sender, result) = sender_supplied(old(self)@.sender, data@);
                &&& final(self)@ == (DownloadView { sender, ..old(self)@ })
                &&& r == download_goes_on(result)
            },
            (final(self)@, r) == download_supplied(old(self)@, data@),
    {
        if data.len() == 0 {
            return DownloadStep::Failed(TransferError::FileEnded);
        }
        match self.sender.submit_file(data) {
            Ok(()) => DownloadStep::Continue,
            Err(error) => DownloadStep::Failed(TransferError::Protocol(error)),
        }
    }

    /// The client has sent nothing within the retry interval, and nothing for
    /// that many milliseconds in all.
    pub fn silent(&mut self, millis: u64) -> (r: DownloadStep)
        ensures
            millis >= ZMODEM_IDLE_TIMEOUT_MILLIS ==> final(self)@ == old(self)@ && r
                == DownloadStep::Failed(TransferError::TimedOut),
            millis < ZMODEM_IDLE_TIMEOUT_MILLIS ==> {
                let (sender, result) = sender_timed_out(old(self)@.sender);
                &&& final(self)@ == (DownloadView { sender, ..old(self)@ })
                &&& r == download_goes_on(result)
            },
            (final(self)@, r) == download_silent(old(self)@, millis),
    {
        if millis >= ZMODEM_IDLE_TIMEOUT_MILLIS {
            return DownloadStep::Failed(TransferError::TimedOut);
        }
        match self.sender.timeout() {
            Ok(()) => DownloadStep::Continue,
            Err(error) => DownloadStep::Failed(TransferError::Protocol(error)),
        }
    }
}

/// Paths of a file with a safe name in a directory, if there are any.
pub open spec fn is_contained(root: Seq<char>, paths: Option<PathsView>) -> bool {
    paths matches Some(paths) ==> exists|name: Seq<char>|
        is_safe_name(name) && paths == #[trigger] paths_of(root, name)
}

/// An upload that looks at, creates and keeps files with safe names in its
/// directory only.
pub open spec fn is_confined(u: UploadView) -> bool {
    is_contained(u.root, u.offered) && is_contained(u.root, u.current)
}

/// Whatever a client sends and whatever is on the disk, an upload only ever looks
/// at, creates and keeps files with safe names in its directory.
pub proof fn law_uploads_stay_in_their_directory(
    u: UploadView,
    action: PolledView,
    t: Reading,
    exists: bool,
)
    requires
        is_confined(u),
    ensures
        ({
            let turn = upload_acted(u, action, t);
            &&& turn.upload.root == u.root
            &&& is_confined(turn.upload)
            &&& turn.step matches UploadStepView::Check(paths) ==> is_contained(
                u.root,
                Some(paths),
            )
            &&& turn.step matches UploadStepView::Keep(paths) ==> is_contained(
                u.root,
                Some(paths),
            )
            &&& is_confined(upload_checked(u, exists).0)
            &&& upload_checked(u, exists).1 matches UploadStepView::Create(path) ==> exists|
                name: Seq<char>,
            |
                is_safe_name(name) && path == (#[trigger] paths_of(u.root, name)).part_path
            &&& is_confined(upload_created(u).0)
        }),
{
    if let PolledView::FileStarted { name, size } = action {
        if let Some(paths) = offer_paths(u.root, name, size) {
            assert(paths == paths_of(u.root, decode_utf8(name)));
        }
    }
}

/// No upload replaces a file: where one exists at either path, none is created.
pub proof fn law_uploads_do_not_overwrite(u: UploadView)
    ensures
        !(upload_checked(u, true).1 is Create),
        upload_checked(u, true).0.offered is None,
        upload_checked(u, true).0.current == u.current,
{
}

/// A file is offered to the board's disk only where its name is valid UTF-8 and
/// safe and its size is known and within the limit. Any other is declined, and
/// the receiver alone learns of it.
pub proof fn law_unfit_offers_are_declined(
    u: UploadView,
    name: Seq<u8>,
    size: Option<u32>,
    t: Reading,
)
    ensures
        ({
            let turn = upload_acted(u, PolledView::FileStarted { name, size }, t);
            let fit = valid_utf8(name) && is_safe_name(decode_utf8(name)) && size is Some
                && size->0 <= MAX_UPLOAD_BYTES;
            &&& turn.step is Check <==> fit
            &&& !fit ==> turn == (UploadTurn {
                upload: UploadView { receiver: receiver_skipped(u.receiver).0, ..u },
                reading: t,
                sent: Seq::empty(),
                step: upload_goes_on(receiver_skipped(u.receiver).1),
            })
        }),
{
}

/// A call on an upload.
pub enum UploadCall {
    /// `poll`, with so much left to read of the client.
    Poll(Reading),
    /// `on_action`, with so much left to read of the client.
    OnAction(PolledView, Reading),
    /// `checked`.
    Checked(bool),
    /// `created`.
    Created,
    /// `stored`.
    Stored(usize),
}

/// What a call on an upload comes to.
pub open spec fn upload_called(u: UploadView, call: UploadCall) -> (UploadView, UploadStepView) {
    match call {
        UploadCall::Poll(t) => (upload_turn(u, t).upload, upload_turn(u, t).step),
        UploadCall::OnAction(action, t) => (
            upload_acted(u, action, t).upload,
            upload_acted(u, action, t).step,
        ),
        UploadCall::Checked(exists) => upload_checked(u, exists),
        UploadCall::Created => upload_created(u),
        UploadCall::Stored(n) => upload_stored(u, n),
    }
}

/// An upload behind some calls.
pub open spec fn after_calls(u: UploadView, calls: Seq<UploadCall>) -> UploadView
    decreases calls.len(),
{
    if calls.len() == 0 {
        u
    } else {
        upload_called(after_calls(u, calls.drop_last()), calls.last()).0
    }
}

/// A call starts the reception of the offered file.
pub open spec fn starts_file(u: UploadView, call: UploadCall) -> bool {
    call is Created && u.offered is Some && receiver_accepted(u.receiver, 0).1 is Ok
}

/// How many bytes some calls have had stored of the file that was started last.
pub open spec fn bytes_stored(u: UploadView, calls: Seq<UploadCall>) -> nat
    decreases calls.len(),
{
    if calls.len() == 0 {
        0
    } else {
        let before = after_calls(u, calls.drop_last());
        if starts_file(before, calls.last()) {
            0
        } else if let UploadStepView::Store(bytes) = upload_called(before, calls.last()).1 {
            bytes_stored(u, calls.drop_last()) + bytes.len()
        } else {
            bytes_stored(u, calls.drop_last())
        }
    }
}

/// Whatever size a client declares and whatever it sends, no more than the limit
/// is ever stored of one file.
pub proof fn law_uploads_stay_within_the_limit(u: UploadView, calls: Seq<UploadCall>)
    requires
        u.received == 0,
    ensures
        bytes_stored(u, calls) == after_calls(u, calls).received,
        bytes_stored(u, calls) <= MAX_UPLOAD_BYTES,
    decreases calls.len(),
{
    if calls.len() > 0 {
        law_uploads_stay_within_the_limit(u, calls.drop_last());
    }
}

/// A transfer writes to the client what the protocol asks for and nothing else,
/// and only while the protocol asks for it.
pub proof fn law_transfers_write_only_protocol_bytes(
    u: UploadView,
    d: DownloadView,
    action: PolledView,
    t: Reading,
)
    ensures
        upload_acted(u, action, t).sent == (match action {
            PolledView::WriteWire(bytes) => bytes,
            _ => Seq::empty(),
        }),
        download_acted(d, action, t).sent == (match action {
            PolledView::WriteWire(bytes) => bytes,
            _ => Seq::empty(),
        }),
{
}

/// A transfer ends well only when the protocol has completed the session and has
/// nothing left to do.
pub proof fn law_transfers_end_when_completed(
    u: UploadView,
    d: DownloadView,
    action: PolledView,
    t: Reading,
)
    ensures
        upload_acted(u, action, t).step is Done <==> action is Idle && u.completed,
        download_acted(d, action, t).step is Done <==> action is Idle && d.completed,
{
}

/// What the owner of a file reads of it at an offset: at most so many bytes.
pub open spec fn file_part(file: Seq<u8>, offset: int, max_len: int) -> Seq<u8> {
    file.subrange(
        offset,
        if offset + max_len < file.len() {
            offset + max_len
        } else {
            file.len() as int
        },
    )
}

/// A download asks for the part of the file that the sender has asked for, at the
/// sender's own offset and of its own length; what is read there is handed to the
/// sender, all of it and nothing else. So what the sender is given is the file.
pub proof fn law_download_sends_the_file(
    d: DownloadView,
    t: Reading,
    offset: u32,
    max_len: usize,
    file: Seq<u8>,
)
    requires
        sender_polled(d.sender).1 == (PolledView::ReadFile { offset, max_len }),
        offset < file.len(),
        max_len > 0,
    ensures
        ({
            let turn = download_turn(d, t);
            &&& turn.step is ReadFile
            &&& turn.step->offset == offset
            &&& turn.step->max_len == max_len
            &&& turn.sent.len() == 0
            &&& turn.reading == t
            &&& turn.download.sender == sender_polled(d.sender).0
            &&& turn.download.wire == d.wire
            &&& turn.download.completed == d.completed
            &&& download_supplied(
                turn.download,
                file_part(file, turn.step->offset as int, turn.step->max_len as int),
            ).0.sender == sender_supplied(
                sender_polled(d.sender).0,
                file.subrange(
                    offset as int,
                    if offset + max_len < file.len() {
                        offset + max_len
                    } else {
                        file.len() as int
                    },
                ),
            ).0
        }),
{
}

/// Whatever the sender asks for directly is asked of the owner of the file as it
/// is, and changes nothing.
pub proof fn law_read_requests_are_passed_on(
    d: DownloadView,
    t: Reading,
    offset: u32,
    max_len: usize,
)
    ensures
        download_acted(d, PolledView::ReadFile { offset, max_len }, t) == (DownloadTurn {
            download: d,
            reading: t,
            sent: Seq::empty(),
            step: DownloadStep::ReadFile { offset, max_len },
        }),
{
}

/// Data that was read is handed to the sender as it is, and keeps everything else
/// of the download; the sender's own answer decides how it goes on. A file that
/// has no data where some was asked for fails the download.
pub proof fn law_file_data_is_handed_over(d: DownloadView, data: Seq<u8>)
    ensures
        ({
            let (e, step) = download_supplied(d, data);
            &&& e.wire == d.wire && e.completed == d.completed
            &&& data.len() > 0 ==> e.sender == sender_supplied(d.sender, data).0
            &&& data.len() > 0 ==> (step is Continue <==> sender_supplied(d.sender, data).1 is Ok)
            &&& data.len() > 0 ==> (step is Failed <==> sender_supplied(d.sender, data).1 is Err)
            &&& data.len() == 0 ==> e == d && step == DownloadStep::Failed(TransferError::FileEnded)
        }),
{
}

/// A silent client is asked again until two minutes have passed, and then given
/// up.
pub proof fn law_silence_is_borne_for_two_minutes(d: DownloadView, millis: u64)
    ensures
        ({
            let (e, step) = download_silent(d, millis);
            &&& e.wire == d.wire && e.completed == d.completed
            &&& millis < 120 * 1000 ==> e.sender == sender_timed_out(d.sender).0
            &&& millis < 120 * 1000 ==> (step is Continue <==> sender_timed_out(d.sender).1 is Ok)
            &&& millis >= 120 * 1000 ==> e == d && step == DownloadStep::Failed(
                TransferError::TimedOut,
            )
        }),
{
}

/// Every request of the protocol is met in full. What is to go to the client is
/// written, and its sender or receiver told so. When the file of a download is
/// complete the sender is told to finish, and the end of a session is remembered;
/// nothing else of the transfer changes.
pub proof fn law_requests_are_met(
    u: UploadView,
    d: DownloadView,
    t: Reading,
    bytes: Seq<u8>,
)
    requires
        bytes.len() <= usize::MAX,
    ensures
        upload_acted(u, PolledView::WriteWire(bytes), t) == (UploadTurn {
            upload: UploadView {
                receiver: receiver_wire_written(u.receiver, bytes.len() as usize),
                ..u
            },
            reading: t,
            sent: bytes,
            step: UploadStepView::Continue,
        }),
        download_acted(d, PolledView::WriteWire(bytes), t) == (DownloadTurn {
            download: DownloadView {
                sender: sender_wire_written(d.sender, bytes.len() as usize),
                ..d
            },
            reading: t,
            sent: bytes,
            step: DownloadStep::Continue,
        }),
        upload_acted(u, PolledView::SessionCompleted, t) == (UploadTurn {
            upload: UploadView { completed: true, ..u },
            reading: t,
            sent: Seq::empty(),
            step: UploadStepView::Continue,
        }),
        download_acted(d, PolledView::SessionCompleted, t) == (DownloadTurn {
            download: DownloadView { completed: true, ..d },
            reading: t,
            sent: Seq::empty(),
            step: DownloadStep::Continue,
        }),
        upload_acted(u, PolledView::OtherEvent, t).upload == u,
        upload_acted(u, PolledView::OtherEvent, t).step is Continue,
        download_acted(d, PolledView::OtherEvent, t).download == d,
        download_acted(d, PolledView::OtherEvent, t).step is Continue,
        download_acted(d, PolledView::FileCompleted, t).download == (DownloadView {
            sender: sender_finished(d.sender).0,
            ..d
        }),
        download_acted(d, PolledView::FileCompleted, t).step is Continue <==> sender_finished(
            d.sender,
        ).1 is Ok,
        download_acted(d, PolledView::FileCompleted, t).step is Failed <==> sender_finished(
            d.sender,
        ).1 is Err,
        upload_acted(u, PolledView::Aborted, t).step is Failed,
        download_acted(d, PolledView::Aborted, t).step is Failed,
        upload_acted(u, PolledView::Unsupported, t).step is Failed,
        download_acted(d, PolledView::Unsupported, t).step is Failed,
        upload_turn(u, t) == upload_acted(
            UploadView { receiver: receiver_polled(u.receiver).0, ..u },
            receiver_polled(u.receiver).1,
            t,
        ),
        download_turn(d, t) == download_acted(
            DownloadView { sender: sender_polled(d.sender).0, ..d },
            sender_polled(d.sender).1,
            t,
        ),
{
}

/// Every file that a client offers is taken, whatever came before it, where its
/// name is safe, its declared size within the limit and nothing stands at either
/// of its paths: the part file is created, and where the receiver agrees the file
/// is received from its first byte and kept under its own name.
pub proof fn law_free_offers_are_taken(
    u: UploadView,
    name: Seq<u8>,
    size: u32,
    t: Reading,
    later: Reading,
)
    requires
        valid_utf8(name),
        is_safe_name(decode_utf8(name)),
        size <= 256 * 1024 * 1024,
    ensures
        ({
            let offer = upload_acted(u, PolledView::FileStarted { name, size: Some(size) }, t);
            let free = upload_checked(offer.upload, false);
            let made = upload_created(free.0);
            let accepted = receiver_accepted(u.receiver, 0);
            let text = decode_utf8(name);
            let paths = PathsView {
                final_path: child_path(u.root, text),
                part_path: child_path(u.root, "."@ + text + ".part"@),
            };
            &&& offer.step == UploadStepView::Check(paths)
            &&& offer.reading == t && offer.sent.len() == 0
            &&& free.1 == UploadStepView::Create(paths.part_path)
            &&& free.0 == offer.upload
            &&& free.0 == (UploadView { offered: Some(paths), ..u })
            &&& accepted.1 is Ok ==> made.1 is Continue && made.0 == (UploadView {
                receiver: accepted.0,
                offered: None,
                current: Some(paths),
                received: 0,
                ..u
            })
            &&& accepted.1 is Err ==> made.1 is Failed && made.0.current == u.current
            &&& accepted.1 is Ok ==> upload_acted(made.0, PolledView::FileCompleted, later).step
                == UploadStepView::Keep(paths)
            &&& upload_acted(made.0, PolledView::FileCompleted, later).upload == (UploadView {
                current: None,
                ..made.0
            })
        }),
{
    crate::files::law_paths(u.root, decode_utf8(name), Seq::empty());
}

/// A check that finds nothing in the way has the part file of the offer created
/// and changes nothing, whatever has been received before. One that finds a file
/// declines the offer.
pub proof fn law_offers_are_checked(u: UploadView)
    ensures
        u.offered matches Some(paths) ==> upload_checked(u, false) == (
            u,
            UploadStepView::Create(paths.part_path),
        ),
        u.offered is Some ==> upload_checked(u, true).0 == (UploadView {
            offered: None,
            receiver: receiver_skipped(u.receiver).0,
            ..u
        }),
        u.offered is Some ==> (upload_checked(u, true).1 is Continue <==> receiver_skipped(
            u.receiver,
        ).1 is Ok),
        u.offered is None ==> upload_checked(u, false).1 is Failed && upload_checked(u, true).1
            is Failed,
{
}

/// Data of the file that is being received is stored as it came, all of it, as
/// long as the file stays within 256 MiB; the bytes count. Beyond that, and
/// without a file, the upload fails and nothing is stored.
pub proof fn law_received_data_is_stored(u: UploadView, bytes: Seq<u8>, t: Reading)
    ensures
        ({
            let turn = upload_acted(u, PolledView::WriteFile(bytes), t);
            let fits = u.received + bytes.len() <= 256 * 1024 * 1024;
            &&& turn.reading == t && turn.sent.len() == 0
            &&& turn.step is Store <==> u.current is Some && fits
            &&& turn.step matches UploadStepView::Store(stored) ==> stored == bytes
            &&& turn.step is Store ==> turn.upload.received == u.received + bytes.len()
            &&& turn.upload == (UploadView { received: turn.upload.received, ..u })
            &&& !(turn.step is Store) ==> turn.step is Failed && turn.upload == u
        }),
{
}

/// What a client sends reaches the protocol byte by byte and in order: a turn
/// reads what has arrived behind what is still at hand, and drops from the front
/// what the protocol has taken, and no more.
pub proof fn law_client_bytes_reach_the_protocol(
    u: UploadView,
    d: DownloadView,
    input: Seq<u8>,
    ended: bool,
)
    ensures
        ({
            let t = Reading { input, ended, skip_optional_lf: false };
            let turn = upload_acted(u, PolledView::Idle, t);
            let taken = receiver_submitted(u.receiver, u.wire);
            let took = u.wire.len() > 0 && taken.1 is Ok && 0 < taken.1->Ok_0 <= u.wire.len();
            let failed = u.wire.len() > 0 && taken.1 is Err;
            &&& !u.completed && took ==> {
                &&& turn.upload.wire == u.wire.skip(taken.1->Ok_0 as int)
                &&& turn.reading == t
                &&& turn.step is Continue
            }
            &&& !u.completed && u.wire.len() > 0 ==> turn.upload.receiver == taken.0
            &&& u.wire.len() == 0 ==> turn.upload.receiver == u.receiver
            &&& !u.completed && failed ==> turn.step is Failed && turn.upload.wire == u.wire
            &&& !u.completed && (u.wire.len() == 0 || (taken.1 is Ok && taken.1->Ok_0 == 0)) ==> {
                &&& turn.upload.wire + turn.reading.input == u.wire + input
                &&& input.len() > 0 ==> turn.upload.wire.len() > u.wire.len()
                &&& input.len() > 0 ==> turn.step is Continue
                &&& input.len() == 0 && !ended ==> turn.step is Wait
                &&& input.len() == 0 && ended ==> turn.step is Failed
            }
            &&& turn.upload.offered == u.offered && turn.upload.current == u.current
            &&& turn.upload.received == u.received && turn.upload.root == u.root
        }),
        ({
            let t = Reading { input, ended, skip_optional_lf: false };
            let turn = download_acted(d, PolledView::Idle, t);
            let taken = sender_submitted(d.sender, d.wire);
            let took = d.wire.len() > 0 && taken.1 is Ok && 0 < taken.1->Ok_0 <= d.wire.len();
            let failed = d.wire.len() > 0 && taken.1 is Err;
            &&& !d.completed && took ==> {
                &&& turn.download.wire == d.wire.skip(taken.1->Ok_0 as int)
                &&& turn.reading == t
                &&& turn.step is Continue
            }
            &&& !d.completed && d.wire.len() > 0 ==> turn.download.sender == taken.0
            &&& d.wire.len() == 0 ==> turn.download.sender == d.sender
            &&& !d.completed && failed ==> turn.step is Failed && turn.download.wire == d.wire
            &&& !d.completed && (d.wire.len() == 0 || (taken.1 is Ok && taken.1->Ok_0 == 0)) ==> {
                &&& turn.download.wire + turn.reading.input == d.wire + input
                &&& input.len() > 0 ==> turn.download.wire.len() > d.wire.len()
                &&& input.len() > 0 ==> turn.step is Heard
                &&& input.len() == 0 && !ended ==> turn.step is Wait
                &&& input.len() == 0 && ended ==> turn.step is Failed
            }
        }),
{
    crate::terminal::law_raw_bytes_arrive(input, ended, READ_BUFFER_BYTES as int);
    let t = Reading { input, ended, skip_optional_lf: false };
    let n = if input.len() < READ_BUFFER_BYTES {
        input.len() as int
    } else {
        READ_BUFFER_BYTES as int
    };
    assert(u.wire + input.take(n) + input.skip(n) =~= u.wire + input);
    assert(d.wire + input.take(n) + input.skip(n) =~= d.wire + input);
    if input.len() == 0 {
        assert(input.skip(n) =~= input);
    }
}

/// What a transfer is told and asks for is handed over as it is held: every byte,
/// every path and every number. The time limits are ten seconds for an answer and
/// two for an acknowledgement.
pub proof fn law_transfers_are_what_is_held(
    bytes: Vec<u8>,
    offset: u32,
    max_len: usize,
    size: Option<u32>,
    paths: UploadPaths,
    path: String,
)
    ensures
        Polled::WriteWire(bytes)@ == PolledView::WriteWire(bytes@),
        Polled::WriteFile(bytes)@ == PolledView::WriteFile(bytes@),
        (Polled::ReadFile { offset, max_len })@ == (PolledView::ReadFile { offset, max_len }),
        (Polled::FileStarted { name: bytes, size })@ == (PolledView::FileStarted {
            name: bytes@,
            size,
        }),
        UploadStep::Store(bytes)@ == UploadStepView::Store(bytes@),
        UploadStep::Create(path)@ == UploadStepView::Create(path@),
        UploadStep::Check(paths)@ == UploadStepView::Check(paths@),
        UploadStep::Keep(paths)@ == UploadStepView::Keep(paths@),
        paths@.final_path == paths.final_path@,
        paths@.part_path == paths.part_path@,
        optional_paths(Some(paths)) == Some(paths@),
        optional_paths(None::<UploadPaths>) is None,
        ZMODEM_RETRY_INTERVAL_MILLIS == 10 * 1000,
        FINAL_ACK_TIMEOUT_MILLIS == 2 * 1000,
{
}

/// What the protocol cannot mean fails the transfer and changes nothing of it: a
/// receiver that wants data to send, a sender that wants data stored, the end of
/// a file that nobody has started, and a part file that nobody has asked for.
pub proof fn law_nonsense_fails_the_transfer(
    u: UploadView,
    d: DownloadView,
    t: Reading,
    offset: u32,
    max_len: usize,
    bytes: Seq<u8>,
    size: Option<u32>,
)
    ensures
        ({
            let read = upload_acted(u, PolledView::ReadFile { offset, max_len }, t);
            let write = download_acted(d, PolledView::WriteFile(bytes), t);
            let kept = upload_acted(u, PolledView::FileCompleted, t);
            &&& read.step is Failed && read.upload == u
            &&& write.step is Failed && write.download == d
            &&& u.current is None ==> kept.step is Failed && kept.upload == u
            &&& u.current matches Some(paths) ==> kept.step == UploadStepView::Keep(paths)
                && kept.upload == (UploadView { current: None, ..u })
            &&& u.offered is None ==> upload_created(u).1 is Failed && upload_created(u).0 == u
            &&& download_acted(d, PolledView::FileStarted { name: bytes, size }, t).download == d
            &&& download_acted(d, PolledView::FileStarted { name: bytes, size }, t).step
                is Continue
        }),
{
}

/// The receiver is told how many bytes have been stored, and nothing else of the
/// upload changes.
pub proof fn law_receivers_learn_what_was_stored(u: UploadView, n: usize)
    ensures
        ({
            let (v, step) = upload_stored(u, n);
            &&& v == (UploadView { receiver: receiver_file_written(u.receiver, n).0, ..u })
            &&& step is Continue <==> receiver_file_written(u.receiver, n).1 is Ok
            &&& step is Failed <==> receiver_file_written(u.receiver, n).1 is Err
        }),
{
}

} // verus!
