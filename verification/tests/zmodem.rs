use abbs::files::FileArea;
use abbs::terminal::Terminal;
use abbs::zmodem::{
    examine_offer, Download, DownloadStep, Polled, TransferError, Upload, UploadStep,
    MAX_UPLOAD_BYTES,
};

fn uploads() -> FileArea {
    FileArea::open("/uploads".into())
}

fn upload() -> (Upload, Terminal) {
    (Upload::new(&uploads(), Vec::new()).unwrap(), Terminal::new())
}

#[test]
fn offers_are_examined() {
    let area = uploads();
    let paths = examine_offer(&area, b"uplink.txt".to_vec(), Some(MAX_UPLOAD_BYTES)).unwrap();
    assert_eq!(paths.final_path, "/uploads/uplink.txt");
    assert_eq!(paths.part_path, "/uploads/.uplink.txt.part");
    assert!(examine_offer(&area, b"big".to_vec(), Some(MAX_UPLOAD_BYTES + 1)).is_none());
    assert!(examine_offer(&area, b"unknown".to_vec(), None).is_none());
    assert!(examine_offer(&area, b"../x".to_vec(), Some(1)).is_none());
    assert!(examine_offer(&area, b"\xff".to_vec(), Some(1)).is_none());
    assert_eq!(MAX_UPLOAD_BYTES, 256 * 1024 * 1024);
}

#[test]
fn uploads_invite_the_client_first() {
    let mut upload = Upload::new(&uploads(), b"**".to_vec()).unwrap();
    let mut terminal = Terminal::new();
    assert!(matches!(upload.poll(&mut terminal), UploadStep::Continue));
    assert_eq!(
        terminal.take_output(),
        b"**\x18B010004002142d2\r\n\x11".to_vec()
    );
    // Then the bytes at hand are taken, and more are waited for.
    assert!(matches!(upload.poll(&mut terminal), UploadStep::Continue));
    assert!(matches!(upload.poll(&mut terminal), UploadStep::Wait));
    assert!(terminal.take_output().is_empty());
}

#[test]
fn uploads_answer_each_request() {
    let (mut upload, mut terminal) = upload();
    assert!(matches!(
        upload.on_action(Polled::WriteWire(b"wire".to_vec()), &mut terminal),
        UploadStep::Continue
    ));
    assert_eq!(terminal.take_output(), b"wire");
    assert!(matches!(
        upload.on_action(Polled::WriteFile(b"x".to_vec()), &mut terminal),
        UploadStep::Failed(TransferError::DataWithoutFile)
    ));
    assert!(matches!(
        upload.on_action(Polled::FileCompleted, &mut terminal),
        UploadStep::Failed(TransferError::UnknownFile)
    ));
    assert!(matches!(
        upload.on_action(Polled::Aborted, &mut terminal),
        UploadStep::Failed(TransferError::Aborted)
    ));
    assert!(matches!(
        upload.on_action(Polled::OtherEvent, &mut terminal),
        UploadStep::Continue
    ));
    assert!(matches!(
        upload.on_action(
            Polled::ReadFile {
                offset: 0,
                max_len: 1
            },
            &mut terminal
        ),
        UploadStep::Failed(TransferError::SourceRequested)
    ));
    assert!(matches!(
        upload.on_action(Polled::Unsupported, &mut terminal),
        UploadStep::Failed(TransferError::Unsupported)
    ));
    assert!(matches!(
        upload.on_action(Polled::Idle, &mut terminal),
        UploadStep::Wait
    ));
    assert!(matches!(
        upload.checked(false),
        UploadStep::Failed(TransferError::NoOffer)
    ));
    assert!(matches!(
        upload.created(),
        UploadStep::Failed(TransferError::NoOffer)
    ));
    let offer = || Polled::FileStarted {
        name: b"a".to_vec(),
        size: Some(3),
    };
    match upload.on_action(offer(), &mut terminal) {
        UploadStep::Check(paths) => assert_eq!(paths.final_path, "/uploads/a"),
        step => panic!("unexpected {step:?}"),
    }
    match upload.checked(false) {
        UploadStep::Create(path) => assert_eq!(path, "/uploads/.a.part"),
        step => panic!("unexpected {step:?}"),
    }
    // The receiver has not been offered a file: it cannot accept one.
    assert!(matches!(
        upload.created(),
        UploadStep::Failed(TransferError::Protocol(zmodem2::Error::InvalidState))
    ));
    assert!(matches!(
        upload.on_action(
            Polled::FileStarted {
                name: b"..".to_vec(),
                size: Some(3)
            },
            &mut terminal
        ),
        UploadStep::Failed(TransferError::Protocol(zmodem2::Error::InvalidState))
    ));
    let _ = upload.on_action(offer(), &mut terminal);
    assert!(matches!(
        upload.checked(true),
        UploadStep::Failed(TransferError::Protocol(zmodem2::Error::InvalidState))
    ));
    assert!(matches!(upload.stored(1), UploadStep::Continue));
    assert!(matches!(
        upload.on_action(Polled::SessionCompleted, &mut terminal),
        UploadStep::Continue
    ));
    assert!(matches!(
        upload.on_action(Polled::Idle, &mut terminal),
        UploadStep::Done
    ));
}

/// Offer a file of the declared size, until its part file has to be created.
fn offer_file(upload: &mut Upload, terminal: &mut Terminal, size: u32) {
    let mut sender = zmodem2::Sender::new().unwrap();
    let info = zmodem2::FileInfo::new(b"a", Some(zmodem2::Position::new(size)));
    sender.start_file(info).unwrap();
    loop {
        match upload.poll(terminal) {
            UploadStep::Continue => {}
            UploadStep::Wait => {
                let mut heard = terminal.take_output();
                while let zmodem2::Action::WriteWire(bytes) = sender.poll() {
                    let bytes = bytes.to_vec();
                    terminal.feed(&bytes);
                    sender.wire_written(bytes.len());
                }
                while !heard.is_empty() {
                    let consumed = sender.submit_wire(&heard).unwrap();
                    heard.drain(..consumed);
                    while let zmodem2::Action::WriteWire(bytes) = sender.poll() {
                        let bytes = bytes.to_vec();
                        terminal.feed(&bytes);
                        sender.wire_written(bytes.len());
                    }
                }
            }
            UploadStep::Check(_) => break,
            step => panic!("unexpected {step:?}"),
        }
    }
    assert!(matches!(upload.checked(false), UploadStep::Create(_)));
}

#[test]
fn uploads_are_limited_by_what_arrives() {
    // The client declares ten bytes, and sends as much as it likes.
    let (mut upload, mut terminal) = upload();
    offer_file(&mut upload, &mut terminal, 10);
    assert!(matches!(upload.created(), UploadStep::Continue));
    let chunk = MAX_UPLOAD_BYTES as usize / 8;
    for _ in 0..8 {
        match upload.on_action(Polled::WriteFile(vec![0; chunk]), &mut terminal) {
            UploadStep::Store(bytes) => assert_eq!(bytes.len(), chunk),
            step => panic!("unexpected {step:?}"),
        }
    }
    assert!(matches!(
        upload.on_action(Polled::WriteFile(vec![0]), &mut terminal),
        UploadStep::Failed(TransferError::TooLarge)
    ));
    // What does not go beyond the limit is still stored.
    assert!(matches!(
        upload.on_action(Polled::WriteFile(Vec::new()), &mut terminal),
        UploadStep::Store(_)
    ));
    assert!(matches!(
        upload.on_action(Polled::FileCompleted, &mut terminal),
        UploadStep::Keep(_)
    ));
    assert!(matches!(
        upload.on_action(Polled::WriteFile(Vec::new()), &mut terminal),
        UploadStep::Failed(TransferError::DataWithoutFile)
    ));
}

#[test]
fn uploads_end_with_the_client() {
    let (mut upload, mut terminal) = upload();
    // The receiver starts with its handshake.
    assert!(matches!(upload.poll(&mut terminal), UploadStep::Continue));
    assert!(terminal.take_output().starts_with(b"**\x18B01"));
    assert!(matches!(upload.poll(&mut terminal), UploadStep::Wait));
    terminal.feed(b"noise");
    assert!(matches!(upload.poll(&mut terminal), UploadStep::Continue));
    assert!(matches!(upload.poll(&mut terminal), UploadStep::Continue));
    assert!(matches!(upload.poll(&mut terminal), UploadStep::Wait));
    terminal.feed_end();
    assert!(matches!(
        upload.poll(&mut terminal),
        UploadStep::Failed(TransferError::Disconnected)
    ));
}

#[test]
fn downloads_answer_each_request() {
    let mut download = Download::new("bulletin.txt", 5).unwrap();
    let mut terminal = Terminal::new();
    assert!(matches!(
        download.on_action(Polled::WriteWire(b"wire".to_vec()), &mut terminal),
        DownloadStep::Continue
    ));
    assert_eq!(terminal.take_output(), b"wire");
    assert!(matches!(
        download.on_action(
            Polled::ReadFile {
                offset: 7,
                max_len: 9
            },
            &mut terminal
        ),
        DownloadStep::ReadFile {
            offset: 7,
            max_len: 9
        }
    ));
    assert!(matches!(
        download.supply(b""),
        DownloadStep::Failed(TransferError::FileEnded)
    ));
    assert!(matches!(
        download.supply(b"data that nobody asked for"),
        DownloadStep::Failed(TransferError::Protocol(zmodem2::Error::InvalidState))
    ));
    assert!(matches!(
        download.on_action(Polled::FileCompleted, &mut terminal),
        DownloadStep::Continue
    ));
    assert!(matches!(
        download.on_action(Polled::Aborted, &mut terminal),
        DownloadStep::Failed(TransferError::Aborted)
    ));
    assert!(matches!(
        download.on_action(Polled::OtherEvent, &mut terminal),
        DownloadStep::Continue
    ));
    assert!(matches!(
        download.on_action(Polled::WriteFile(Vec::new()), &mut terminal),
        DownloadStep::Failed(TransferError::OutputRequested)
    ));
    assert!(matches!(
        download.on_action(Polled::Unsupported, &mut terminal),
        DownloadStep::Failed(TransferError::Unsupported)
    ));
    assert!(matches!(
        download.on_action(Polled::Idle, &mut terminal),
        DownloadStep::Wait
    ));
    terminal.feed(b"x");
    assert!(matches!(
        download.on_action(Polled::Idle, &mut terminal),
        DownloadStep::Heard
    ));
    assert!(matches!(
        download.on_action(Polled::SessionCompleted, &mut terminal),
        DownloadStep::Continue
    ));
    assert!(matches!(
        download.on_action(Polled::Idle, &mut terminal),
        DownloadStep::Done
    ));
}

#[test]
fn downloads_give_up_on_silence_and_on_large_files() {
    assert!(matches!(
        Download::new("huge", 1 << 32),
        Err(TransferError::TooLarge)
    ));
    let mut download = Download::new("large", (1 << 32) - 1).unwrap();
    let mut terminal = Terminal::new();
    // The sender starts with its handshake, and repeats it when nobody answers.
    assert!(matches!(
        download.poll(&mut terminal),
        DownloadStep::Continue
    ));
    let handshake = terminal.take_output();
    assert!(handshake.starts_with(b"**\x18B00"));
    assert!(matches!(download.poll(&mut terminal), DownloadStep::Wait));
    assert!(matches!(download.silent(119_999), DownloadStep::Continue));
    assert!(matches!(
        download.poll(&mut terminal),
        DownloadStep::Continue
    ));
    assert_eq!(terminal.take_output(), handshake);
    assert!(matches!(
        download.silent(120_000),
        DownloadStep::Failed(TransferError::TimedOut)
    ));
    terminal.feed_end();
    assert!(matches!(
        download.poll(&mut terminal),
        DownloadStep::Failed(TransferError::Disconnected)
    ));
}

#[test]
fn file_names_that_are_too_long_cannot_be_sent() {
    assert!(matches!(
        Download::new(&"n".repeat(100_000), 1),
        Err(TransferError::Protocol(_))
    ));
    assert!(matches!(
        Download::new(&"n".repeat(257), 1),
        Err(TransferError::Protocol(zmodem2::Error::OutOfMemory))
    ));
    assert!(Download::new(&"n".repeat(256), 1).is_ok());
    // The limit is on bytes: 128 of these characters fill it.
    assert!(Download::new(&"\u{e9}".repeat(128), 1).is_ok());
    assert!(Download::new(&"\u{e9}".repeat(129), 1).is_err());
    assert!(Download::new("", 0).is_ok());
}
