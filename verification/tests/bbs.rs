//! Whole dialogues: callers, their sessions and the board behind them, with the
//! transfers run against a ZMODEM client.

use std::collections::{BTreeMap, VecDeque};

use abbs::files::{DirectoryEntry, FileArea, FileProbe};
use abbs::mercury::{LinkAction, LinkError, LinkEvent, LinkState, MercuryLink};
use abbs::report::{HeardStation, HeardTime};
use abbs::service::{session_options, Entrance, Login, LoginStep, RadioConfig};
use abbs::session::{
    read_event, run_session, AgwEndpoint, Route, Session, SessionEvent, SessionRequest,
};
use abbs::store::{LoginTransport, MailStore};
use abbs::terminal::{Step, Terminal};
use abbs::zmodem::{Download, DownloadStep, Upload, UploadStep};
use abbs::Callsign;
use zmodem2::{Action, Event, FileInfo, Position, Receiver, Sender};

fn call(text: &str) -> Callsign {
    Callsign::parse(text).unwrap()
}

fn agw() -> RadioConfig {
    RadioConfig::Agw {
        addr: "127.0.0.1:9".into(),
        port: 1,
        connect_via: false,
    }
}

fn mercury() -> RadioConfig {
    RadioConfig::Mercury {
        host: "127.0.0.1".into(),
        control_port: 1,
        data_port: 2,
    }
}

/// What the board keeps, and what it has done over the radio.
struct Board {
    store: MailStore,
    radio: RadioConfig,
    files: FileArea,
    uploads: FileArea,
    disk: BTreeMap<String, Vec<u8>>,
    heard: Result<Vec<HeardStation>, String>,
    endpoint: Option<AgwEndpoint>,
    radio_log: Vec<String>,
    remote_input: VecDeque<Vec<u8>>,
    prompt: String,
    body_prompt: String,
    ticks: u32,
}

impl Board {
    fn new(radio: RadioConfig) -> Self {
        Board {
            store: MailStore::open(Vec::new(), Vec::new()).unwrap(),
            radio,
            files: FileArea::open("/files".into()),
            uploads: FileArea::open("/uploads".into()),
            disk: BTreeMap::new(),
            heard: Ok(Vec::new()),
            endpoint: None,
            radio_log: Vec::new(),
            remote_input: VecDeque::new(),
            prompt: "> ".into(),
            body_prompt: "> ".into(),
            ticks: 0,
        }
    }

    fn now(&mut self) -> String {
        self.ticks += 1;
        format!("2026-09-14T00:00:{:02}.000Z", self.ticks)
    }

    fn put(&mut self, path: &str, contents: &[u8]) {
        self.disk.insert(path.into(), contents.to_vec());
    }

    fn probe(&self, path: &str) -> FileProbe {
        if self.disk.contains_key(path) {
            FileProbe::Regular(path.into())
        } else {
            FileProbe::Missing
        }
    }
}

enum Work {
    Talk,
    Send {
        download: Download,
        contents: Vec<u8>,
    },
    Receive {
        upload: Upload,
        part: Vec<u8>,
    },
    Over,
    Broken,
}

/// One caller: the client's side and the board's side of the connection.
struct Client {
    session: Session,
    terminal: Terminal,
    work: Work,
    request: Option<SessionRequest>,
    received: Vec<u8>,
    ending: &'static [u8],
    prompt: Vec<u8>,
    body_prompt: Vec<u8>,
}

impl Client {
    fn enter(
        board: &mut Board,
        identity: Callsign,
        transport: LoginTransport,
        entrance: Entrance,
        terminal: Terminal,
        ending: &'static [u8],
    ) -> Self {
        let now = board.now();
        board
            .store
            .record_login(identity.clone(), transport, now)
            .unwrap();
        let options = session_options(&board.radio, entrance, &board.prompt, &board.body_prompt);
        let mut client = Client {
            session: Session::new(identity, call("M0BBS"), options),
            terminal,
            work: Work::Talk,
            request: None,
            received: Vec::new(),
            ending,
            prompt: board.prompt.clone().into_bytes(),
            body_prompt: board.body_prompt.clone().into_bytes(),
        };
        client.happen(board, SessionEvent::Started);
        client.pump(board);
        client
    }

    fn tcp(board: &mut Board, name: &str, ending: &'static [u8], allow_connect: bool) -> Self {
        let mut terminal = Terminal::new();
        let mut login = Login::new(call("M0BBS"), &mut terminal);
        assert!(terminal.take_output().ends_with(b"Callsign: "));
        terminal.feed(name.as_bytes());
        terminal.feed(ending);
        let LoginStep::Accepted(identity) = login.handle_tcp_session(&mut terminal) else {
            panic!("{name} was not accepted");
        };
        let mut client = Client::enter(
            board,
            identity,
            LoginTransport::Tcp,
            Entrance::Tcp { allow_connect },
            terminal,
            ending,
        );
        let prompt = client.prompt.clone();
        let welcome = client.read_until(&prompt);
        assert!(welcome.contains(&format!("Welcome, {}.", name.to_ascii_uppercase())));
        client
    }

    fn radio(board: &mut Board, name: &str, transport: LoginTransport) -> Self {
        Client::enter(
            board,
            call(name),
            transport,
            Entrance::Radio,
            Terminal::new(),
            b"\r",
        )
    }

    fn happen(&mut self, board: &mut Board, event: SessionEvent) {
        let request = run_session(&mut self.session, &mut self.terminal, event);
        self.request = Some(request);
        self.serve(board);
    }

    /// Carry out what the session asks for, until it waits.
    fn serve(&mut self, board: &mut Board) {
        while let Some(request) = self.request.take() {
            let event = match request {
                SessionRequest::Input | SessionRequest::Line => return,
                SessionRequest::Bridge => match board.remote_input.pop_front() {
                    Some(bytes) if bytes.is_empty() => SessionEvent::RemoteEnd,
                    Some(bytes) => SessionEvent::RemoteData(bytes),
                    None => return,
                },
                SessionRequest::ListVisible(viewer) => {
                    SessionEvent::Summaries(board.store.list_visible(viewer).unwrap())
                }
                SessionRequest::ListSent(sender) => {
                    SessionEvent::Summaries(board.store.list_sent(sender).unwrap())
                }
                SessionRequest::RecentLogins(limit) => {
                    SessionEvent::Logins(board.store.recent_logins(limit).unwrap())
                }
                SessionRequest::QueryHeard => match &mut board.heard {
                    Ok(heard) => SessionEvent::Heard(std::mem::take(heard)),
                    Err(reason) => SessionEvent::HeardFailed(reason.clone()),
                },
                SessionRequest::ListFiles => {
                    let entries = board
                        .disk
                        .iter()
                        .filter_map(|(path, contents)| {
                            let name = path.strip_prefix("/files/")?;
                            Some(DirectoryEntry {
                                name: Some(name.into()),
                                is_file: true,
                                size: contents.len() as u64,
                            })
                        })
                        .collect();
                    SessionEvent::Files(board.files.list(entries))
                }
                SessionRequest::ResolveDownload(name) => {
                    let probe = match board.files.download_path(&name) {
                        Ok(path) => board.probe(&path),
                        Err(_) => FileProbe::Missing,
                    };
                    match board.files.resolve_download(&name, probe) {
                        Ok(path) => SessionEvent::Resolved(path),
                        Err(_) => SessionEvent::ResolveFailed,
                    }
                }
                SessionRequest::SendFile { path, name } => {
                    let contents = board.disk[&path].clone();
                    self.work = Work::Send {
                        download: Download::new(&name, contents.len() as u64).unwrap(),
                        contents,
                    };
                    return;
                }
                SessionRequest::ReceiveUpload(initial) => {
                    self.work = Work::Receive {
                        upload: Upload::new(&board.uploads, initial).unwrap(),
                        part: Vec::new(),
                    };
                    return;
                }
                SessionRequest::AwaitAcknowledgement => {
                    match self.terminal.consume_zmodem_final_ack() {
                        Ok(Step::Pending) => {
                            self.request = Some(SessionRequest::AwaitAcknowledgement);
                            return;
                        }
                        _ => SessionEvent::Acknowledged,
                    }
                }
                SessionRequest::ReadMessage { viewer, id } => {
                    SessionEvent::Found(board.store.read_visible(viewer, id).unwrap())
                }
                SessionRequest::DeleteMessage { caller, id } => {
                    SessionEvent::Deleted(board.store.delete_authorized(caller, id))
                }
                SessionRequest::SaveMessage {
                    sender,
                    recipient,
                    subject,
                    body,
                } => {
                    let now = board.now();
                    SessionEvent::Saved(
                        board
                            .store
                            .save(sender, recipient, subject, body, now)
                            .unwrap(),
                    )
                }
                SessionRequest::FindEndpoint => SessionEvent::Endpoint(board.endpoint.is_some()),
                SessionRequest::Connect {
                    source,
                    destination,
                } => {
                    let endpoint = board.endpoint.as_mut().unwrap();
                    if endpoint.connect(&source) {
                        board.radio_log.push(format!("register {}", source.as_str()));
                    }
                    let route = match endpoint.route() {
                        Route::Direct => "",
                        Route::ViaBoard => " via M0BBS",
                    };
                    board.radio_log.push(format!(
                        "connect {} {}{route}",
                        source.to_agw_call().unwrap(),
                        destination.to_agw_call().unwrap()
                    ));
                    if destination.as_str() == "M0NOBODY" {
                        SessionEvent::ConnectFailed("no answer".into())
                    } else {
                        SessionEvent::Connected
                    }
                }
                SessionRequest::SendRemote(bytes) => {
                    board
                        .radio_log
                        .push(format!("data {:?}", String::from_utf8(bytes).unwrap()));
                    SessionEvent::RemoteSent
                }
                SessionRequest::DisconnectRemote | SessionRequest::DropRemote => {
                    board.radio_log.push("disconnect".into());
                    SessionEvent::RemoteClosed
                }
                SessionRequest::Close => {
                    self.work = Work::Over;
                    return;
                }
                SessionRequest::Abort => {
                    self.work = Work::Broken;
                    return;
                }
            };
            let request = run_session(&mut self.session, &mut self.terminal, event);
            self.request = Some(request);
        }
    }

    /// Let the board work until it needs more of the client.
    fn pump(&mut self, board: &mut Board) {
        loop {
            let written = self.terminal.take_output();
            self.received.extend_from_slice(&written);
            match std::mem::replace(&mut self.work, Work::Talk) {
                Work::Talk => {
                    if self.request.is_some() {
                        self.serve(board);
                        if self.request.is_some() {
                            return;
                        }
                        continue;
                    }
                    match read_event(&self.session, &mut self.terminal) {
                        Some(event) => self.happen(board, event),
                        None => return,
                    }
                }
                Work::Send {
                    mut download,
                    contents,
                } => {
                    let mut step = download.poll(&mut self.terminal);
                    if let DownloadStep::ReadFile { offset, max_len } = step {
                        let rest = &contents[offset as usize..];
                        step = download.supply(&rest[..rest.len().min(max_len)]);
                    }
                    match step {
                        DownloadStep::Continue | DownloadStep::Heard => {
                            self.work = Work::Send { download, contents };
                        }
                        DownloadStep::Wait => {
                            self.work = Work::Send { download, contents };
                            return;
                        }
                        DownloadStep::Done => {
                            self.happen(board, SessionEvent::Transferred(true));
                        }
                        _ => self.happen(board, SessionEvent::Transferred(false)),
                    }
                }
                Work::Receive {
                    mut upload,
                    mut part,
                } => {
                    let mut step = upload.poll(&mut self.terminal);
                    loop {
                        step = match step {
                            UploadStep::Check(paths) => {
                                let exists = board.disk.contains_key(&paths.final_path)
                                    || board.disk.contains_key(&paths.part_path);
                                upload.checked(exists)
                            }
                            UploadStep::Create(path) => {
                                board.disk.insert(path, Vec::new());
                                part.clear();
                                upload.created()
                            }
                            UploadStep::Store(bytes) => {
                                part.extend_from_slice(&bytes);
                                upload.stored(bytes.len())
                            }
                            UploadStep::Keep(paths) => {
                                assert!(board.disk.remove(&paths.part_path).is_some());
                                board.disk.insert(paths.final_path, part.clone());
                                UploadStep::Continue
                            }
                            other => {
                                step = other;
                                break;
                            }
                        };
                    }
                    match step {
                        UploadStep::Continue => self.work = Work::Receive { upload, part },
                        UploadStep::Wait => {
                            self.work = Work::Receive { upload, part };
                            return;
                        }
                        UploadStep::Done => self.happen(board, SessionEvent::Transferred(true)),
                        _ => self.happen(board, SessionEvent::Transferred(false)),
                    }
                }
                over => {
                    self.work = over;
                    let written = self.terminal.take_output();
                    self.received.extend_from_slice(&written);
                    return;
                }
            }
        }
    }

    fn send(&mut self, board: &mut Board, bytes: &[u8]) {
        self.terminal.feed(bytes);
        self.pump(board);
    }

    fn send_line(&mut self, board: &mut Board, line: &str) {
        let ending = self.ending;
        self.send(board, line.as_bytes());
        self.send(board, ending);
    }

    fn read_until(&mut self, marker: &[u8]) -> String {
        let end = find(&self.received, marker).unwrap_or_else(|| {
            panic!("{:?}", String::from_utf8_lossy(&self.received));
        });
        let output = self
            .received
            .drain(..end + marker.len())
            .collect::<Vec<_>>();
        String::from_utf8(output).unwrap()
    }

    fn command(&mut self, board: &mut Board, command: &str) -> String {
        self.send_line(board, command);
        let prompt = self.prompt.clone();
        self.read_until(&prompt)
    }

    fn send_message(
        &mut self,
        board: &mut Board,
        recipient: &str,
        subject: &str,
        body: &[&str],
    ) -> String {
        self.send_line(board, &format!("SEND {recipient}"));
        self.read_until(b"Subject: ");
        self.send_line(board, subject);
        let body_prompt = self.body_prompt.clone();
        self.read_until(&body_prompt);
        for line in body {
            self.send_line(board, line);
            self.read_until(&body_prompt);
        }
        self.send_line(board, ".");
        let prompt = self.prompt.clone();
        self.read_until(&prompt)
    }

    fn is_over(&self) -> bool {
        matches!(self.work, Work::Over) && self.terminal.is_closed()
    }

    /// Receive a file with a ZMODEM receiver.
    fn receive_zmodem_download(&mut self, board: &mut Board, expected: &[u8]) {
        let mut receiver = Receiver::new().unwrap();
        let mut file = Vec::new();
        let mut completed = false;
        loop {
            match receiver.poll() {
                Action::WriteWire(bytes) => {
                    let bytes = bytes.to_vec();
                    self.send(board, &bytes);
                    receiver.wire_written(bytes.len());
                }
                Action::WriteFile(bytes) => {
                    let bytes = bytes.to_vec();
                    file.extend_from_slice(&bytes);
                    receiver.file_written(bytes.len()).unwrap();
                }
                Action::Event(Event::FileStarted(info)) => {
                    assert_eq!(info.name, b"bulletin.txt");
                }
                Action::Event(Event::SessionCompleted) => completed = true,
                Action::Event(Event::Aborted) => panic!("BBS aborted ZMODEM download"),
                Action::Event(_) => {}
                Action::Idle if completed => break,
                Action::Idle => {
                    assert!(!self.received.is_empty(), "the board sent nothing");
                    let consumed = receiver.submit_wire(&self.received).unwrap();
                    assert_ne!(consumed, 0);
                    self.received.drain(..consumed);
                }
                other => panic!("unexpected {other:?}"),
            }
        }
        let end = find(&self.received, b"OO").unwrap();
        self.received.drain(..end + 2);
        assert_eq!(file, expected);
    }

    /// Send a file with a ZMODEM sender.
    fn send_zmodem_upload(&mut self, board: &mut Board, name: &[u8], contents: &[u8]) {
        let mut sender = Sender::new().unwrap();
        sender
            .start_file(FileInfo::new(
                name,
                Some(Position::new(contents.len() as u32)),
            ))
            .unwrap();
        let mut completed = false;
        loop {
            match sender.poll() {
                Action::WriteWire(bytes) => {
                    let bytes = bytes.to_vec();
                    self.send(board, &bytes);
                    sender.wire_written(bytes.len());
                }
                Action::ReadFile { offset, max_len } => {
                    let remaining = &contents[offset.get() as usize..];
                    let end = remaining.len().min(max_len);
                    sender.submit_file(&remaining[..end]).unwrap();
                }
                Action::Event(Event::FileCompleted) => sender.finish().unwrap(),
                Action::Event(Event::SessionCompleted) => completed = true,
                Action::Event(Event::Aborted) => panic!("BBS aborted ZMODEM upload"),
                Action::Idle if completed => break,
                Action::Idle => {
                    assert!(!self.received.is_empty(), "the board sent nothing");
                    let consumed = sender.submit_wire(&self.received).unwrap();
                    assert_ne!(consumed, 0);
                    self.received.drain(..consumed);
                }
                other => panic!("unexpected {other:?}"),
            }
        }
    }
}

fn find(haystack: &[u8], needle: &[u8]) -> Option<usize> {
    haystack
        .windows(needle.len())
        .position(|window| window == needle)
}

#[test]
fn tcp_clients_can_exchange_private_and_public_messages_with_cr_and_crlf() {
    let mut board = Board::new(agw());
    let board = &mut board;
    board.put("/files/bulletin.txt", b"CQ CQ");

    let mut alice = Client::tcp(board, "m0alice", b"\r", false);
    let mut bob = Client::tcp(board, "m0bob", b"\r\n", false);
    let mut eve = Client::tcp(board, "m0eve", b"\r\n", false);

    let logins = eve.command(board, "LOGINS");
    assert!(logins.contains("M0ALICE via TCP"));
    assert!(logins.contains("M0BOB via TCP"));
    assert!(logins.contains("M0EVE via TCP"));
    assert!(!logins.contains("127.0.0.1"));
    assert_eq!(
        logins,
        "Recent logins:\r\n\
         M0EVE via TCP at 2026-09-14T00:00:03.000Z\r\n\
         M0BOB via TCP at 2026-09-14T00:00:02.000Z\r\n\
         M0ALICE via TCP at 2026-09-14T00:00:01.000Z\r\n> "
    );

    let info = eve.command(board, "INFO");
    assert!(info.contains(&format!("ABBS {}", "0.1.0")));
    assert!(info.contains("BBS callsign: M0BBS"));

    let files = eve.command(board, "FILES");
    assert!(files.contains("bulletin.txt (5 bytes)"));
    assert!(eve
        .command(board, "CONNECT M0DEST 1")
        .contains("CONNECT is disabled for TCP clients."));
    assert!(eve
        .command(board, "DOWNLOAD ../bulletin.txt")
        .contains("Invalid file name."));

    let saved = alice.send_message(
        board,
        "M0BOB-7",
        "Private subject",
        &["first private line", "second private line"],
    );
    assert!(saved.contains("Message #1 saved."));

    let bob_list = bob.command(board, "LIST");
    assert!(bob_list.contains("Private subject"));
    assert_eq!(
        bob_list,
        "#1 [MAIL] FROM M0ALICE 2026-09-14T00:00:04.000Z - Private subject\r\n> "
    );
    let bob_message = bob.command(board, "READ 1");
    assert!(bob_message.contains("first private line\r\nsecond private line"));
    assert_eq!(
        bob_message,
        "Message #1\r\nFrom: M0ALICE\r\nTo: M0BOB-7\r\nDate: 2026-09-14T00:00:04.000Z\r\n\
         Subject: Private subject\r\n\r\nfirst private line\r\nsecond private line\r\n> "
    );

    let eve_list = eve.command(board, "LIST");
    assert!(!eve_list.contains("Private subject"));
    assert!(eve.command(board, "READ 1").contains("Message not found."));

    let saved = alice.send_message(board, "ALL", "Public subject", &["heard by everyone"]);
    assert!(saved.contains("Message #2 saved."));

    let bob_list = bob.command(board, "LIST");
    assert!(bob_list.contains("Public subject"));
    let eve_public = eve.command(board, "READ 2");
    assert!(eve_public.contains("To: ALL"));
    assert!(eve_public.contains("heard by everyone"));

    let mut alice_ssid = Client::tcp(board, "m0alice-3", b"\r\n", false);
    let alice_sent = alice_ssid.command(board, "SENT");
    assert!(alice_sent.contains("Private subject"));
    assert!(alice_sent.contains("Public subject"));
    assert!(alice_sent.contains("TO M0BOB-7"));
    assert!(alice_sent.contains("TO ALL"));
    assert!(alice_sent
        .starts_with("#2 [PUBLIC] TO ALL 2026-09-14T00:00:05.000Z - Public subject\r\n#1 [MAIL]"));
    assert!(bob.command(board, "SENT").contains("No sent messages."));

    assert!(eve
        .command(board, "DELETE 1")
        .contains("Message not found or cannot be deleted."));
    assert!(bob.command(board, "READ 1").contains("Private subject"));

    assert!(bob.command(board, "DELETE 1").contains("Message deleted."));
    assert!(bob.command(board, "READ 1").contains("Message not found."));
    let alice_sent = alice_ssid.command(board, "SENT");
    assert!(!alice_sent.contains("Private subject"));
    assert!(alice_sent.contains("Public subject"));

    assert!(bob
        .command(board, "DELETE 2")
        .contains("Message not found or cannot be deleted."));
    assert!(alice_ssid
        .command(board, "DELETE 2")
        .contains("Message deleted."));
    assert!(eve.command(board, "READ 2").contains("Message not found."));
    assert!(alice_ssid
        .command(board, "SENT")
        .contains("No sent messages."));

    alice.send_line(board, "BYE");
    assert!(alice.read_until(b"Goodbye.\r\n").contains("Goodbye."));
    assert!(alice.is_over());
    bob.send_line(board, "EXIT");
    assert!(bob.read_until(b"Goodbye.\r\n").contains("Goodbye."));
    assert!(bob.is_over());
}

#[test]
fn successful_download_stays_silent_until_the_next_command() {
    let mut board = Board::new(agw());
    let board = &mut board;
    board.put("/files/bulletin.txt", b"CQ CQ");
    let mut client = Client::tcp(board, "m0alice", b"\r\n", false);

    client.send_line(board, "DOWNLOAD bulletin.txt");
    assert!(client
        .read_until(b"Starting ZMODEM download.\r\n")
        .contains("Starting ZMODEM download."));
    client.receive_zmodem_download(board, b"CQ CQ");

    client.pump(board);
    assert!(
        client.received.is_empty(),
        "BBS sent terminal data before the next command: {:?}",
        client.received
    );

    assert!(client.command(board, "LIST").contains("No messages."));
}

#[test]
fn tcp_client_zmodem_uploads_a_file_and_returns_to_commands() {
    let mut board = Board::new(agw());
    let board = &mut board;
    let mut client = Client::tcp(board, "m0alice", b"\r\n", false);

    client.send_zmodem_upload(board, b"uplink.txt", b"CQ from ZMODEM");
    assert_eq!(board.disk["/uploads/uplink.txt"], b"CQ from ZMODEM");
    assert!(!board.disk.contains_key("/files/uplink.txt"));
    let files = client.command(board, "FILES");
    assert!(
        files.contains("No files available."),
        "unexpected FILES response: {files:?}"
    );
}

#[test]
fn tcp_client_uses_a_configured_prompt() {
    let mut board = Board::new(agw());
    let board = &mut board;
    board.prompt = "abbs> ".into();
    board.body_prompt = "body> ".into();
    let mut client = Client::tcp(board, "m0alice", b"\r\n", false);
    assert!(client
        .send_message(board, "ALL", "Prompt test", &["message body"])
        .contains("Message #1 saved."));
    assert!(client.command(board, "LIST").contains("Prompt test"));
}

#[test]
fn tcp_connect_is_opt_in_and_uses_the_requested_ssid() {
    let mut board = Board::new(agw());
    let board = &mut board;
    let mut client = Client::tcp(board, "m0alice", b"\r\n", true);
    assert_eq!(
        client.command(board, "CONNECT M0DEST 9"),
        "Cannot connect: AGW is currently unavailable\r\n> "
    );
    board.endpoint = Some(AgwEndpoint::new(false));
    client.send_line(board, "CONNECT M0DEST 9");
    assert!(client
        .read_until(b"Connected. Enter ~. on a line by itself to return here.")
        .contains("Connecting M0ALICE-9 to M0DEST..."));
    client.send_line(board, "~.");
    assert!(client
        .read_until(b"> ")
        .contains("Disconnected from remote BBS."));
    assert_eq!(
        board.radio_log,
        [
            "register M0ALICE-9",
            "connect M0ALICE-9 M0DEST",
            "disconnect"
        ]
    );
}

#[test]
fn ax25_clients_have_concurrent_independent_sessions() {
    let mut board = Board::new(agw());
    let board = &mut board;
    let mut alice = Client::radio(board, "M0ALICE", LoginTransport::Ax25);
    let mut bob = Client::radio(board, "M0BOB", LoginTransport::Ax25);
    for (client, caller) in [(&mut alice, "M0ALICE"), (&mut bob, "M0BOB")] {
        let welcome = client.read_until(b"> ");
        assert!(welcome.contains(&format!("Welcome, {caller}.")));
    }

    // Both compose concurrently, with different input endings and message state.
    alice.send(board, b"SEND M0BOB\r");
    bob.send(board, b"SEND ALL\r\n");
    alice.read_until(b"Subject: ");
    bob.read_until(b"Subject: ");
    bob.send(board, b"Bob's subject\r\n");
    bob.read_until(b"> ");
    alice.send(board, b"Alice's subject\r");
    alice.read_until(b"> ");
    alice.send(board, b"Alice's body\r");
    alice.read_until(b"> ");
    alice.send(board, b".\r");
    assert!(alice.read_until(b"> ").contains("Message #1 saved."));
    // Bob is still composing, but Alice can list her own sent mail.
    alice.send(board, b"SENT\r");
    let sent = alice.read_until(b"> ");
    assert!(sent.contains("Alice's subject"));
    assert!(!sent.contains("Bob's subject"));
    bob.send(board, b"Bob's body\r\n");
    bob.read_until(b"> ");
    bob.send(board, b".\r\n");
    assert!(bob.read_until(b"> ").contains("Message #2 saved."));
    bob.send(board, b"SENT\r\n");
    let sent = bob.read_until(b"> ");
    assert!(sent.contains("Bob's subject"));
    assert!(!sent.contains("Alice's subject"));

    alice.send(board, b"QUIT\r");
    alice.read_until(b"Goodbye.\r\n");
    assert!(alice.is_over());
    bob.send(board, b"READ 1\r\n");
    let message = bob.read_until(b"> ");
    assert!(message.contains("Alice's body"));
    assert!(!message.contains("Bob's body"));
}

fn heard(call: &str, first: [u16; 8], last: [u16; 8]) -> HeardStation {
    let time = |fields: [u16; 8]| HeardTime {
        year: fields[0],
        month: fields[1],
        day: fields[3],
        hour: fields[4],
        minute: fields[5],
        second: fields[6],
        millisecond: fields[7],
    };
    HeardStation {
        call: call.into(),
        first: time(first),
        last: time(last),
    }
}

#[test]
fn accepts_an_ax25_connection_and_runs_the_shared_command_session() {
    let mut board = Board::new(agw());
    let board = &mut board;
    let mut client = Client::radio(board, "M0REMOTE", LoginTransport::Ax25);
    let welcome = client.read_until(b"Welcome, M0REMOTE.");
    assert!(welcome.contains("Welcome to M0BBS amateur radio BBS."));
    client.read_until(b"> ");

    client.send(board, b"HELP\r");
    let help = client.read_until(b"  QUIT, BYE, EXIT");
    assert!(help.contains("Commands:"));
    assert!(help.contains("SEND <callsign|ALL>"));
    assert!(help.contains("HEARD"));
    assert!(help.contains("INFO"));
    assert!(help.contains("QUIT, BYE, EXIT"));
    client.read_until(b"> ");

    board.heard = Ok(vec![
        heard(
            "M0HEARD",
            [2000, 2, 1, 21, 11, 14, 30, 0],
            [2000, 2, 1, 21, 12, 18, 22, 500],
        ),
        heard(
            "M0OTHER-3",
            [2001, 3, 2, 12, 13, 15, 17, 0],
            [2001, 3, 2, 12, 14, 16, 18, 0],
        ),
    ]);
    client.send(board, b"HEARD\r");
    let listing = client.read_until(b"M0OTHER-3");
    assert!(listing.contains("Heard callsigns:"));
    let expected = format!(
        "{:10} first heard: 2000-02-21 11:14:30.000; \
         last heard: 2000-02-21 12:18:22.500",
        "M0HEARD"
    );
    assert!(listing.contains(&expected));
    client.read_until(b"> ");

    assert_eq!(
        client.command(board, "HEARD"),
        "No AX.25 stations heard.\r\n> "
    );
    board.heard = Err("timed out".into());
    assert_eq!(
        client.command(board, "HEARD"),
        "Cannot list heard callsigns: timed out\r\n> "
    );
}

fn ax25_connect(connect_via: bool) {
    let mut board = Board::new(agw());
    let board = &mut board;
    board.endpoint = Some(AgwEndpoint::new(connect_via));
    let mut client = Client::radio(board, "M0REM-4", LoginTransport::Ax25);
    client.read_until(b"Welcome, M0REM-4.");
    client.read_until(b"> ");
    client.send(board, b"CONNECT M0DEST 9\r");
    client.read_until(b"Connected. Enter ~. on a line by itself to return here.\r\n");
    client.send(board, b"HELLO\r");
    board.remote_input.push_back(b"REMOTE\r".to_vec());
    client.request = Some(SessionRequest::Bridge);
    client.pump(board);
    assert_eq!(client.read_until(b"REMOTE\r"), "REMOTE\r");
    client.send(board, b"~.\r");
    client.read_until(b"Disconnected from remote BBS.");
    client.read_until(b"> ");
    let route = if connect_via { " via M0BBS" } else { "" };
    assert_eq!(
        board.radio_log,
        [
            "register M0REM-9".to_string(),
            format!("connect M0REM-9 M0DEST{route}"),
            "data \"HELLO\\r\"".to_string(),
            "disconnect".to_string(),
        ]
    );

    // The source is registered once for each connection to the endpoint.
    board.radio_log.clear();
    board.remote_input.push_back(Vec::new());
    client.send(board, b"CONNECT M0DEST 9\r");
    assert!(client
        .read_until(b"> ")
        .ends_with("Remote BBS disconnected.\r\n> "));
    assert_eq!(
        board.radio_log,
        [format!("connect M0REM-9 M0DEST{route}")]
    );
}

#[test]
fn connects_an_ax25_client_to_a_remote_bbs() {
    ax25_connect(false);
}

#[test]
fn adds_a_seen_bbs_via_hop_when_enabled() {
    ax25_connect(true);
}

#[test]
fn connecting_can_fail() {
    let mut board = Board::new(agw());
    let board = &mut board;
    board.endpoint = Some(AgwEndpoint::new(false));
    board.prompt = "$ ".into();
    let mut client = Client::radio(board, "M0REM-4", LoginTransport::Ax25);
    client.read_until(b"$ ");
    for usage in ["CONNECT", "CONNECT M0DEST", "CONNECT M0DEST 1 2"] {
        assert_eq!(
            client.command(board, usage),
            "Usage: CONNECT <destination> <ssid>\r\n$ "
        );
    }
    assert!(client
        .command(board, "CONNECT ??? 1")
        .starts_with("Invalid destination callsign: invalid callsign: "));
    for ssid in ["16", "x", "-1", "256"] {
        assert_eq!(
            client.command(board, &format!("CONNECT M0DEST {ssid}")),
            "SSID must be a number from 0 to 15.\r\n$ "
        );
    }
    assert_eq!(
        client.command(board, "CONNECT M0NOBODY 15"),
        "Connecting M0REM-15 to M0NOBODY...\r\nConnection failed: no answer\r\n$ "
    );

    // A caller who goes while connected ends both connections.
    client.send(board, b"CONNECT M0DEST +3\r");
    client.read_until(b"return here.\r\n");
    client.terminal.feed_end();
    client.pump(board);
    assert!(client.is_over());
    assert_eq!(
        board.radio_log,
        [
            "register M0REM-15",
            "connect M0REM-15 M0NOBODY",
            "register M0REM-3",
            "connect M0REM-3 M0DEST",
            "disconnect"
        ]
    );

    // There is no room for an SSID behind eight characters.
    let mut client = Client::radio(board, "M0REMOTE", LoginTransport::Ax25);
    client.send(board, b"CONNECT M0DEST 1\r");
    assert!(matches!(client.work, Work::Broken));
}

#[test]
fn registrations_that_fail_are_tried_again() {
    let mut endpoint = AgwEndpoint::new(false);
    assert!(endpoint.connect(&call("M0A-1")));
    assert!(endpoint.connect(&call("M0A-2")));
    assert!(!endpoint.connect(&call("M0A-1")));
    endpoint.registration_failed(&call("M0A-1"));
    assert!(endpoint.connect(&call("M0A-1")));
    assert!(!endpoint.connect(&call("M0A-2")));
    endpoint.registration_failed(&call("M0B"));
    assert!(!endpoint.connect(&call("M0A-1")));
}

#[test]
fn a_remote_board_can_fail() {
    let mut board = Board::new(agw());
    let board = &mut board;
    board.endpoint = Some(AgwEndpoint::new(false));
    let mut client = Client::radio(board, "M0REM", LoginTransport::Ax25);
    client.send(board, b"CONNECT M0DEST 0\r");
    client.read_until(b"return here.\r\n");
    client.happen(board, SessionEvent::RemoteFailed("link lost".into()));
    client.pump(board);
    assert_eq!(
        client.read_until(b"> "),
        "Remote BBS error: link lost\r\n> "
    );
}

#[test]
fn mercury_sessions_share_mail_with_tcp_and_reuse_the_modem_sockets() {
    let mut board = Board::new(mercury());
    let board = &mut board;
    board.body_prompt = "body> ".into();
    let mut link = MercuryLink::new();
    let connect = |link: &mut MercuryLink, board: &mut Board, name: &str| {
        let LinkAction::Serve(remote) = link.on_event(LinkEvent::Connected(name.into())) else {
            panic!("{name} was not served");
        };
        let mut client = Client::radio(board, remote.as_str(), LoginTransport::Mercury);
        let greeting = client.read_until(b"> ");
        assert!(greeting.contains(&format!("Welcome, {name}.")), "{greeting:?}");
        assert!(!greeting.contains("Callsign:"));
        client
    };
    let quit = |link: &mut MercuryLink, board: &mut Board, client: &mut Client, command: &str| {
        client.send_line(board, command);
        client.read_until(b"Goodbye.\r\n");
        assert!(client.is_over());
        assert!(matches!(
            link.on_event(LinkEvent::SessionEnded(true)),
            LinkAction::Disconnect
        ));
        assert!(matches!(link.on_event(LinkEvent::Other), LinkAction::Wait));
        assert!(matches!(
            link.on_event(LinkEvent::Disconnected),
            LinkAction::Wait
        ));
        assert_eq!(link.state(), LinkState::Idle);
    };
    let mut modem = connect(&mut link, board, "M0ALICE-1");
    let mut tcp = Client::tcp(board, "M0BOB", b"\r\n", false);

    modem.send_line(board, "HELP");
    let help = modem.read_until(b"QUIT, BYE, EXIT      Disconnect\r\n");
    modem.read_until(b"> ");
    assert!(!help.contains("HEARD"));
    assert!(!help.contains("CONNECT <"));
    for client in [&mut modem, &mut tcp] {
        assert!(client
            .command(board, "HEARD")
            .contains("HEARD is unsupported with Mercury."));
        assert!(client
            .command(board, "CONNECT M0DEST 3")
            .contains("CONNECT is unsupported with Mercury."));
    }
    // It is refused as well where the callsign has no room for the SSID.
    assert_eq!(
        modem.command(board, "CONNECT M0DEST 12"),
        "CONNECT is unsupported with Mercury.\r\n> "
    );
    let saved = modem.send_message(board, "M0BOB-2", "Mercury mail", &["hello over HF"]);
    assert!(saved.contains("Message #1 saved."));
    assert!(tcp.command(board, "READ 1").contains("hello over HF"));
    let logins = tcp.command(board, "LOGINS");
    assert!(logins.contains("M0ALICE-1 via MERCURY"));
    assert!(logins.contains("M0BOB via TCP"));
    assert!(!logins.contains("127.0.0.1"));

    // Disconnect while composition is waiting for a subject; buffered partial
    // input must not become the next caller's first command.
    modem.send_line(board, "SEND ALL");
    modem.read_until(b"Subject: ");
    assert!(matches!(
        link.on_event(LinkEvent::Data(18)),
        LinkAction::Deliver
    ));
    modem.send(board, b"unfinished subject");
    assert!(matches!(
        link.on_event(LinkEvent::Disconnected),
        LinkAction::StopServing
    ));
    assert!(matches!(link.on_event(LinkEvent::Data(18)), LinkAction::Wait));
    let mut modem = connect(&mut link, board, "M0EVE");
    modem.ending = b"\r\n";
    assert!(modem.command(board, "LIST").contains("No messages."));
    assert!(modem
        .command(board, "READ 1")
        .contains("Message not found."));
    assert!(modem
        .command(board, "INFO")
        .contains("BBS callsign: M0BBS"));
    quit(&mut link, board, &mut modem, "BYE");
    let mut modem = connect(&mut link, board, "M0ALICE-9");
    assert!(modem.command(board, "SENT").contains("Mercury mail"));
    assert!(modem
        .command(board, "DELETE 1")
        .contains("Message deleted."));
    quit(&mut link, board, &mut modem, "EXIT");
    let mut modem = connect(&mut link, board, "M0THIRD");
    quit(&mut link, board, &mut modem, "QUIT");
}

#[test]
fn mercury_zmodem_transfers_return_to_commands() {
    let mut board = Board::new(mercury());
    let board = &mut board;
    let contents: Vec<u8> = (0..=255).cycle().take(32_768).collect();
    board.put("/files/bulletin.txt", &contents);
    let mut modem = Client::radio(board, "M0ALICE", LoginTransport::Mercury);
    modem.read_until(b"> ");
    modem.ending = b"\r\n";
    modem.send_line(board, "DOWNLOAD bulletin.txt");
    modem.read_until(b"Starting ZMODEM download.\r\n");
    modem.receive_zmodem_download(board, &contents);
    assert!(modem.command(board, "LIST").contains("No messages."));

    modem.send_zmodem_upload(board, b"uplink.bin", &contents);
    assert!(modem
        .command(board, "INFO")
        .contains("BBS callsign: M0BBS"));
    assert_eq!(board.disk["/uploads/uplink.bin"], contents);
    let listing = modem.command(board, "FILES");
    assert!(listing.contains("bulletin.txt"));
    assert!(!listing.contains("uplink.bin"));
    assert!(modem
        .command(board, "DOWNLOAD ../uplink.bin")
        .contains("Invalid file name."));
    modem.send_line(board, "QUIT");
    modem.read_until(b"Goodbye.\r\n");
    assert!(modem.is_over());
}

#[test]
fn mercury_reconnects_after_control_and_data_failure_while_tcp_stays_available() {
    let mut board = Board::new(mercury());
    let board = &mut board;
    let mut link = MercuryLink::new();
    assert!(matches!(
        link.on_event(LinkEvent::Connected("M0FIRST".into())),
        LinkAction::Serve(_)
    ));
    assert!(matches!(
        link.on_event(LinkEvent::ControlClosed),
        LinkAction::Reset(LinkError::ControlClosed)
    ));
    assert_eq!(link.state(), LinkState::Down);
    let mut tcp = Client::tcp(board, "M0TCP", b"\r", false);
    assert!(tcp.command(board, "INFO").contains("BBS callsign: M0BBS"));
    let mut link = MercuryLink::new();
    assert!(matches!(
        link.on_event(LinkEvent::Connected("M0SECOND".into())),
        LinkAction::Serve(_)
    ));
    assert!(matches!(
        link.on_event(LinkEvent::Data(0)),
        LinkAction::Reset(LinkError::DataClosed)
    ));
    let mut link = MercuryLink::new();
    let LinkAction::Serve(remote) = link.on_event(LinkEvent::Connected("M0THIRD".into())) else {
        panic!("M0THIRD was not served");
    };
    let mut modem = Client::radio(board, remote.as_str(), LoginTransport::Mercury);
    modem.read_until(b"> ");
    assert!(modem.command(board, "LIST").contains("No messages."));
}

#[test]
fn mercury_disconnect_without_completion_has_a_deadline() {
    let mut link = MercuryLink::new();
    assert!(matches!(
        link.on_event(LinkEvent::Connected("M0ALICE".into())),
        LinkAction::Serve(_)
    ));
    assert!(matches!(
        link.on_event(LinkEvent::SessionEnded(true)),
        LinkAction::Disconnect
    ));
    assert!(matches!(link.on_event(LinkEvent::Other), LinkAction::Wait));
    assert!(matches!(link.on_event(LinkEvent::Data(5)), LinkAction::Wait));
    assert!(matches!(
        link.on_event(LinkEvent::TimedOut),
        LinkAction::Reset(LinkError::DisconnectTimedOut)
    ));
    assert_eq!(abbs::mercury::DISCONNECT_TIMEOUT_MILLIS, 60_000);
}

#[test]
fn mercury_lost_control_events_reset_the_modem_connection() {
    for serving in [false, true] {
        let mut link = MercuryLink::new();
        if serving {
            let _ = link.on_event(LinkEvent::Connected("M0NEW".into()));
        }
        assert!(matches!(
            link.on_event(LinkEvent::EventsLost),
            LinkAction::Reset(LinkError::EventsLost)
        ));
    }
}

#[test]
fn mercury_rejects_invalid_bbs_callsigns_and_can_stop_during_disconnect() {
    let mut board = Board::new(mercury());
    let board = &mut board;
    let mut link = MercuryLink::new();
    // Valid for the modem's 15-character field, but not an ABBS identity.
    assert!(matches!(
        link.on_event(LinkEvent::Connected("TOO-LONG-CALL".into())),
        LinkAction::Disconnect
    ));
    assert!(matches!(
        link.on_event(LinkEvent::Disconnected),
        LinkAction::Wait
    ));
    let LinkAction::Serve(remote) = link.on_event(LinkEvent::Connected("M0ALICE".into())) else {
        panic!("M0ALICE was not served");
    };
    let mut modem = Client::radio(board, remote.as_str(), LoginTransport::Mercury);
    modem.read_until(b"> ");
    let logins = modem.command(board, "LOGINS");
    assert!(!logins.contains("TOO-LONG-CALL"));
    modem.send_line(board, "QUIT");
    modem.read_until(b"Goodbye.\r\n");
    assert!(matches!(
        link.on_event(LinkEvent::SessionEnded(true)),
        LinkAction::Disconnect
    ));
    assert_eq!(link.state(), LinkState::Disconnecting);
}

#[test]
fn every_callsign_is_one_for_the_modem() {
    for text in ["m0bbs", "M0ALICE-1", "-", "123456789"] {
        let callsign = call(text);
        assert_eq!(
            abbs::mercury::to_modem_call(&callsign).unwrap().as_str(),
            callsign.as_str()
        );
    }
}

#[test]
fn mercury_failures_have_names() {
    let served = || {
        let mut link = MercuryLink::new();
        let _ = link.on_event(LinkEvent::Connected("M0A".into()));
        link
    };
    let mut link = MercuryLink::new();
    let LinkAction::Reset(error) = link.on_event(LinkEvent::Data(0)) else {
        panic!("the data connection was closed");
    };
    assert_eq!(error.message(), "Mercury data connection closed while idle");
    let mut link = served();
    let LinkAction::Reset(error) = link.on_event(LinkEvent::Connected("M0B".into())) else {
        panic!("the connections overlap");
    };
    assert_eq!(error.message(), "unexpected overlapping Mercury connection");
    let mut link = served();
    assert!(matches!(
        link.on_event(LinkEvent::SessionEnded(false)),
        LinkAction::Reset(LinkError::SessionFailed)
    ));
    let mut link = served();
    assert!(matches!(
        link.on_event(LinkEvent::DataFailed),
        LinkAction::Reset(LinkError::DataFailed)
    ));
    let mut link = served();
    let _ = link.on_event(LinkEvent::SessionEnded(true));
    let LinkAction::Reset(error) = link.on_event(LinkEvent::Connected("M0B".into())) else {
        panic!("the radio was still being disconnected");
    };
    assert_eq!(
        error.message(),
        "Mercury connected before disconnect completed"
    );
    let mut link = served();
    let _ = link.on_event(LinkEvent::SessionEnded(true));
    let LinkAction::Reset(error) = link.on_event(LinkEvent::Data(0)) else {
        panic!("the data connection was closed");
    };
    assert_eq!(
        error.message(),
        "Mercury data connection closed during disconnect"
    );
    assert!(matches!(
        link.on_event(LinkEvent::Disconnected),
        LinkAction::Wait
    ));
    assert_eq!(link.state(), LinkState::Down);
}

#[test]
fn uploads_never_overwrite_and_unsafe_names_are_declined() {
    let mut board = Board::new(agw());
    let board = &mut board;
    board.put("/uploads/taken.txt", b"old");
    board.put("/uploads/.pending.txt.part", b"half");
    let before = board.disk.clone();
    let mut client = Client::tcp(board, "m0alice", b"\r\n", false);
    for name in [
        &b"taken.txt"[..],
        b"pending.txt",
        b"../escape.txt",
        b"two words",
        b"..",
        b"\xff\xfe",
    ] {
        client.send_zmodem_upload(board, name, b"new");
        assert_eq!(board.disk, before);
    }
    assert!(client.command(board, "LIST").contains("No messages."));
}

#[test]
fn messages_have_limits() {
    let mut board = Board::new(agw());
    let board = &mut board;
    let mut client = Client::tcp(board, "m0alice", b"\r", false);
    for usage in ["SEND", "SEND a b"] {
        assert_eq!(
            client.command(board, usage),
            "Usage: SEND <callsign|ALL>\r\n> "
        );
    }
    assert!(client
        .command(board, "send ?")
        .starts_with("Invalid recipient: invalid callsign: "));

    client.send_line(board, "SEND all");
    client.read_until(b"Subject: ");
    assert_eq!(
        client.command(board, " \t "),
        "Subject cannot be empty.\r\n> "
    );
    client.send_line(board, "SEND ALL");
    client.read_until(b"Subject: ");
    assert_eq!(
        client.command(board, &"\u{fc}".repeat(81)),
        "Subject cannot exceed 80 characters.\r\n> "
    );

    // 80 characters of subject and 4000 of body are taken.
    let subject = "\u{fc}".repeat(80);
    let first = "\u{e9}".repeat(3000);
    let second = "b".repeat(999);
    let saved = client.send_message(board, "ALL", &format!("  {subject} "), &[&first, &second]);
    assert_eq!(saved, "Message #1 saved.\r\n> ");
    let row = &board.store.messages()[0];
    assert_eq!(row.subject, subject);
    assert_eq!(row.body, format!("{first}\n{second}"));

    // One more is not.
    client.send_line(board, "SEND ALL");
    client.read_until(b"Subject: ");
    client.send_line(board, "s");
    client.read_until(b"> ");
    client.send_line(board, &first);
    client.read_until(b"> ");
    assert_eq!(
        client.command(board, &"b".repeat(1000)),
        "Message cannot exceed 4000 characters.\r\n> "
    );

    assert_eq!(
        client.send_message(board, "ALL", "s", &["", "  "]),
        "Message body cannot be empty.\r\n> "
    );
    assert_eq!(
        client.send_message(board, "ALL", "s", &[]),
        "Message body cannot be empty.\r\n> "
    );
    // Blank lines are kept.
    assert_eq!(
        client.send_message(board, "ALL", "s", &["", "x", "", "..", ""]),
        "Message #2 saved.\r\n> "
    );
    assert!(client
        .command(board, "READ 2")
        .ends_with("Subject: s\r\n\r\n\r\nx\r\n\r\n..\r\n\r\n> "));
    assert_eq!(board.store.messages().len(), 2);
}

#[test]
fn commands_are_forgiving_about_case_and_strict_about_arguments() {
    let mut board = Board::new(agw());
    let board = &mut board;
    let mut client = Client::tcp(board, "m0alice", b"\n", false);
    let unknown = "Unknown command. Type HELP for commands.\r\n> ";
    assert_eq!(client.command(board, ""), "> ");
    assert_eq!(client.command(board, " \t"), "> ");
    assert_eq!(client.command(board, "  list  "), "No messages.\r\n> ");
    assert_eq!(client.command(board, "LIST all"), unknown);
    assert_eq!(client.command(board, "QUIT now"), unknown);
    assert_eq!(client.command(board, "FOO"), unknown);
    assert_eq!(client.command(board, "READ"), "Usage: READ <id>\r\n> ");
    assert_eq!(client.command(board, "READ 1 2"), "Usage: READ <id>\r\n> ");
    assert_eq!(client.command(board, "DELETE"), "Usage: DELETE <id>\r\n> ");
    assert_eq!(
        client.command(board, "DOWNLOAD"),
        "Usage: DOWNLOAD <file>\r\n> "
    );
    assert_eq!(
        client.command(board, "DOWNLOAD nothing"),
        "File not found.\r\n> "
    );
    for id in ["0", "-1", "x", "9223372036854775808", "+"] {
        assert_eq!(
            client.command(board, &format!("READ {id}")),
            "Message ID must be a positive number.\r\n> "
        );
    }
    assert_eq!(
        client.command(board, "READ +9223372036854775807"),
        "Message not found.\r\n> "
    );
}

#[test]
fn callers_who_go_end_their_sessions() {
    let mut board = Board::new(agw());
    let board = &mut board;
    let mut client = Client::tcp(board, "m0alice", b"\r", false);
    client.terminal.feed_end();
    client.pump(board);
    assert!(client.is_over());
    assert!(client.received.is_empty());

    let mut client = Client::tcp(board, "m0alice", b"\r", false);
    client.send_line(board, "SEND ALL");
    client.read_until(b"Subject: ");
    client.terminal.feed_end();
    client.pump(board);
    assert!(client.is_over());
    assert_eq!(client.received, b"> ");

    let mut client = Client::tcp(board, "m0alice", b"\r", false);
    client.send(board, b"\xff\r");
    assert!(matches!(client.work, Work::Broken));
    client.happen(board, SessionEvent::Line("LIST".into()));
    client.pump(board);
    assert!(client.received.is_empty());
}

#[test]
fn broken_transfers_return_to_the_prompt() {
    let mut board = Board::new(agw());
    let board = &mut board;
    board.put("/files/bulletin.txt", b"CQ CQ");
    let mut client = Client::tcp(board, "m0alice", b"\r", false);
    client.send_line(board, "DOWNLOAD bulletin.txt");
    client.read_until(b"Starting ZMODEM download.\r\n");
    client.received.clear();
    client.terminal.feed_end();
    client.pump(board);
    assert_eq!(client.received, b"Download failed.\r\n> ");
    assert!(client.is_over());

    let mut client = Client::tcp(board, "m0alice", b"\r", false);
    client.send(board, b"**\x18B00");
    client.received.clear();
    client.terminal.feed_end();
    client.pump(board);
    assert!(client.received.ends_with(b"> "));
}
