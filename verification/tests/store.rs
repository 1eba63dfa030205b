use abbs::store::{
    backfill, initialize, login_record_from_row, unknown_transport, LoginRow, LoginTransport,
    MailStore, MessageRow, MessageSummary, StoreError,
};
use abbs::Callsign;

fn call(text: &str) -> Callsign {
    Callsign::parse(text).unwrap()
}

fn empty() -> MailStore {
    MailStore::open(Vec::new(), Vec::new()).unwrap()
}

fn login_row(id: i64, callsign: &str, transport: &str, at: &str) -> LoginRow {
    LoginRow {
        id,
        callsign: callsign.into(),
        transport: transport.into(),
        logged_in_at: at.into(),
    }
}

fn legacy_row(id: i64, sender: &str, recipient: Option<&str>) -> MessageRow {
    MessageRow {
        id,
        sender: sender.into(),
        sender_base: None,
        recipient: recipient.map(Into::into),
        recipient_base: None,
        is_public: recipient.is_none(),
        subject: "Legacy".into(),
        body: "body".into(),
        created_at: "2026-09-14T00:00:00Z".into(),
    }
}

fn copy_messages(store: &MailStore) -> Vec<MessageRow> {
    store
        .messages()
        .iter()
        .map(|row| MessageRow {
            id: row.id,
            sender: row.sender.clone(),
            sender_base: row.sender_base.clone(),
            recipient: row.recipient.clone(),
            recipient_base: row.recipient_base.clone(),
            is_public: row.is_public,
            subject: row.subject.clone(),
            body: row.body.clone(),
            created_at: row.created_at.clone(),
        })
        .collect()
}

fn copy_logins(store: &MailStore) -> Vec<LoginRow> {
    store
        .logins()
        .iter()
        .map(|row| login_row(row.id, &row.callsign, &row.transport, &row.logged_in_at))
        .collect()
}

#[test]
fn mercury_login_migration_preserves_existing_history_and_is_repeatable() {
    let columns: Vec<String> = [
        "id",
        "sender_callsign",
        "sender_base_callsign",
        "recipient_callsign",
        "recipient_base_callsign",
        "is_public",
        "subject",
        "body",
        "created_at",
    ]
    .iter()
    .map(|name| name.to_string())
    .collect();
    let legacy = "CREATE TABLE logins (
                 id INTEGER PRIMARY KEY,
                 callsign TEXT NOT NULL,
                 transport TEXT NOT NULL CHECK (transport IN ('TCP', 'AX.25')),
                 logged_in_at TEXT NOT NULL DEFAULT (strftime('%Y-%m-%dT%H:%M:%fZ', 'now'))
             )";
    let migration = initialize(&columns, legacy);
    assert!(migration.admit_mercury);
    assert!(!migration.add_sender_base);
    assert!(!migration.add_recipient_base);
    let current = "CREATE TABLE logins (
                 transport TEXT NOT NULL CHECK (transport IN ('TCP', 'AX.25', 'MERCURY'))
             )";
    assert!(!initialize(&columns, current).admit_mercury);

    let mut store = MailStore::open(
        Vec::new(),
        vec![
            login_row(7, "M0ALICE", "TCP", "2020-01-02T03:04:05.000Z"),
            login_row(42, "M0BOB", "AX.25", "2021-01-02T03:04:05.000Z"),
        ],
    )
    .unwrap();
    store
        .record_login(
            call("M0HF"),
            LoginTransport::Mercury,
            "2022-01-02T03:04:05.000Z".into(),
        )
        .unwrap();
    let reopened = MailStore::open(copy_messages(&store), copy_logins(&store)).unwrap();
    let logins = reopened.recent_logins(10).unwrap();
    assert_eq!(logins.len(), 3);
    assert_eq!(logins[0].transport, LoginTransport::Mercury);
    assert_eq!(logins[1].callsign.as_str(), "M0BOB");
    assert_eq!(logins[1].transport, LoginTransport::Ax25);
    assert_eq!(logins[1].logged_in_at, "2021-01-02T03:04:05.000Z");
    assert_eq!(logins[2].transport, LoginTransport::Tcp);
    assert_eq!(logins[2].logged_in_at, "2020-01-02T03:04:05.000Z");
    let ids: Vec<i64> = reopened.logins().iter().map(|row| row.id).collect();
    assert_eq!(ids, [7, 42, 43]);
}

#[test]
fn public_and_private_messages_have_correct_visibility() {
    let mut store = empty();
    let alice = call("M0ALICE-1");
    let bob = call("M0BOB-2");

    let private_id = store
        .save(
            alice.clone(),
            Some(bob.clone()),
            "Private".into(),
            "secret".into(),
            "2026-09-14T00:00:00.000Z".into(),
        )
        .unwrap();
    let public_id = store
        .save(
            alice,
            None,
            "Public".into(),
            "hello everyone".into(),
            "2026-09-14T00:00:01.000Z".into(),
        )
        .unwrap();
    assert_eq!((private_id, public_id), (1, 2));

    let bob_base = call("M0BOB");
    let bob_messages = store.list_visible(bob_base.clone()).unwrap();
    assert_eq!(bob_messages.len(), 2);
    assert_eq!(bob_messages[0].id, public_id);
    assert_eq!(bob_messages[1].recipient, Some(call("M0BOB-2")));
    assert_eq!(
        store
            .read_visible(bob_base.clone(), private_id)
            .unwrap()
            .unwrap()
            .body,
        "secret"
    );

    let eve = call("M0EVE");
    assert_eq!(store.list_visible(eve.clone()).unwrap().len(), 1);
    assert!(store
        .read_visible(eve.clone(), private_id)
        .unwrap()
        .is_none());

    let alice_base = call("M0ALICE");
    let sent = store.list_sent(alice_base.clone()).unwrap();
    assert_eq!(
        sent.iter().map(|message| message.id).collect::<Vec<_>>(),
        vec![public_id, private_id]
    );

    assert!(!store.delete_authorized(eve, private_id));
    assert!(store.delete_authorized(bob_base.clone(), private_id));
    assert!(store
        .read_visible(bob_base, private_id)
        .unwrap()
        .is_none());
    assert!(store.delete_authorized(alice_base.clone(), public_id));
    assert_eq!(
        store.list_sent(alice_base).unwrap(),
        [] as [MessageSummary; 0]
    );

    store
        .record_login(call("M0ALICE"), LoginTransport::Tcp, "one".into())
        .unwrap();
    store
        .record_login(call("M0BOB"), LoginTransport::Ax25, "two".into())
        .unwrap();
    let logins = store.recent_logins(10).unwrap();
    assert_eq!(logins.len(), 2);
    assert_eq!(logins[0].callsign.as_str(), "M0BOB");
    assert_eq!(logins[0].transport, LoginTransport::Ax25);
    assert_eq!(logins[1].transport, LoginTransport::Tcp);
}

#[test]
fn legacy_messages_are_backfilled_with_base_callsigns() {
    let columns: Vec<String> = ["id", "sender_callsign", "recipient_callsign"]
        .iter()
        .map(|name| name.to_string())
        .collect();
    let migration = initialize(&columns, "'MERCURY'");
    assert!(migration.add_sender_base);
    assert!(migration.add_recipient_base);
    assert!(!migration.admit_mercury);

    let mut store = MailStore::open(
        vec![legacy_row(1, "M0ALICE-1", Some("M0BOB-7"))],
        Vec::new(),
    )
    .unwrap();
    let bob = call("M0BOB");
    let alice = call("M0ALICE-3");

    assert_eq!(store.list_visible(bob.clone()).unwrap().len(), 1);
    assert_eq!(store.list_sent(alice).unwrap().len(), 1);
    assert!(store.delete_authorized(bob, 1));
}

#[test]
fn backfilling_is_repeatable_and_keeps_what_is_there() {
    let once = backfill(legacy_row(3, "M0ALICE-1", Some("M0BOB")));
    assert_eq!(once.sender_base.as_deref(), Some("M0ALICE"));
    assert_eq!(once.recipient_base.as_deref(), Some("M0BOB"));
    let twice = backfill(once);
    assert_eq!(twice.sender_base.as_deref(), Some("M0ALICE"));
    assert_eq!(twice.sender, "M0ALICE-1");

    let public = backfill(legacy_row(4, "M0ALICE", None));
    assert_eq!(public.recipient_base, None);
    let mut kept = legacy_row(5, "M0ALICE-1", Some("M0BOB-1"));
    kept.sender_base = Some("KEPT".into());
    assert_eq!(backfill(kept).sender_base.as_deref(), Some("KEPT"));
}

#[test]
fn identifiers_follow_the_largest_and_run_out() {
    let mut store = MailStore::open(
        vec![
            legacy_row(5, "M0A", None),
            legacy_row(i64::MAX - 1, "M0A", None),
        ],
        vec![login_row(i64::MAX, "M0A", "TCP", "now")],
    )
    .unwrap();
    assert_eq!(
        store
            .save(call("M0B"), None, "s".into(), "b".into(), "t".into())
            .unwrap(),
        i64::MAX
    );
    let error = store
        .save(call("M0B"), None, "s".into(), "b".into(), "t".into())
        .unwrap_err();
    assert!(matches!(error, StoreError::IdsExhausted));
    assert_eq!(error.message(), "no identifier is left");
    assert_eq!(store.messages().len(), 3);
    assert!(matches!(
        store.record_login(call("M0B"), LoginTransport::Tcp, "t".into()),
        Err(StoreError::IdsExhausted)
    ));

    // The identifier of a deleted newest message is given again, as a database
    // without a sequence does.
    let mut store = empty();
    for expected in [1, 2] {
        assert_eq!(
            store
                .save(call("M0B"), None, "s".into(), "b".into(), "t".into())
                .unwrap(),
            expected
        );
    }
    assert!(store.delete_authorized(call("M0B-3"), 2));
    assert_eq!(
        store
            .save(call("M0B"), None, "s".into(), "b".into(), "t".into())
            .unwrap(),
        2
    );
}

#[test]
fn rows_have_to_be_ordered() {
    assert!(matches!(
        MailStore::open(
            vec![legacy_row(2, "M0A", None), legacy_row(2, "M0A", None)],
            Vec::new()
        ),
        Err(StoreError::Unordered)
    ));
    let error = MailStore::open(
        Vec::new(),
        vec![
            login_row(2, "M0A", "TCP", "now"),
            login_row(1, "M0A", "TCP", "now"),
        ],
    )
    .unwrap_err();
    assert!(matches!(error, StoreError::Unordered));
    assert_eq!(
        error.message(),
        "rows are not ordered by distinct identifiers"
    );
}

#[test]
fn broken_rows_are_reported() {
    let store = MailStore::open(
        vec![
            legacy_row(1, "NOT A CALL", None),
            legacy_row(2, "M0ALICE", None),
        ],
        vec![
            login_row(1, "M0ALICE", "SMOKE", "now"),
            login_row(2, "M0ALICE", "TCP", "now"),
        ],
    )
    .unwrap();
    assert!(matches!(
        store.list_visible(call("M0EVE")),
        Err(StoreError::InvalidCallsign(_))
    ));
    assert_eq!(store.list_sent(call("M0ALICE")).unwrap().len(), 1);
    assert!(matches!(
        store.read_visible(call("M0EVE"), 1),
        Err(StoreError::InvalidCallsign(_))
    ));
    assert_eq!(store.recent_logins(1).unwrap().len(), 1);
    assert_eq!(store.recent_logins(0).unwrap().len(), 0);
    let error = store.recent_logins(2).unwrap_err();
    assert!(matches!(&error, StoreError::InvalidTransport(name) if name == "SMOKE"));
    assert_eq!(error.message(), "invalid login transport \"SMOKE\"");
    assert_eq!(
        StoreError::InvalidTransport("a\"b\n".into()).message(),
        "invalid login transport \"a\\\"b\\n\""
    );
    assert_eq!(
        unknown_transport("'x'"),
        "invalid login transport 'x'"
    );
}

#[test]
fn login_rows_read_back() {
    for transport in [
        LoginTransport::Tcp,
        LoginTransport::Ax25,
        LoginTransport::Mercury,
    ] {
        let row = login_row(4, "m0alice-3", transport.as_str(), "then");
        let record = login_record_from_row(&row).unwrap();
        assert_eq!(record.callsign, call("M0ALICE-3"));
        assert_eq!(record.transport, transport);
        assert_eq!(record.logged_in_at, "then");
    }
    for name in ["tcp", "", "AX25", "MERCURY "] {
        assert!(matches!(
            login_record_from_row(&login_row(4, "M0ALICE", name, "then")),
            Err(StoreError::InvalidTransport(found)) if found == name
        ));
    }
    assert!(matches!(
        login_record_from_row(&login_row(4, "NOT A CALL", "TCP", "then")),
        Err(StoreError::InvalidCallsign(_))
    ));
}

#[test]
fn reading_and_deleting_by_identifier() {
    let mut store = MailStore::open(
        vec![
            legacy_row(3, "M0ALICE-1", Some("M0BOB-7")),
            legacy_row(8, "M0ALICE-1", None),
            legacy_row(9, "M0EVE", Some("M0BOB")),
        ],
        Vec::new(),
    )
    .unwrap();
    let message = store.read_visible(call("M0BOB-2"), 3).unwrap().unwrap();
    assert_eq!(message.id, 3);
    assert_eq!(message.sender.as_str(), "M0ALICE-1");
    assert_eq!(message.recipient, Some(call("M0BOB-7")));
    assert_eq!(message.subject, "Legacy");
    assert_eq!(message.created_at, "2026-09-14T00:00:00Z");
    assert!(store.read_visible(call("M0BOB"), 4).unwrap().is_none());
    // The sender of private mail lists it as sent, and cannot read it.
    assert!(store.read_visible(call("M0ALICE"), 3).unwrap().is_none());
    // A public post is deleted by its sender alone.
    assert!(!store.delete_authorized(call("M0BOB"), 8));
    assert!(store.delete_authorized(call("M0ALICE-9"), 8));
    assert!(!store.delete_authorized(call("M0ALICE-9"), 8));
    let ids: Vec<i64> = store.messages().iter().map(|row| row.id).collect();
    assert_eq!(ids, [3, 9]);
}

#[test]
fn transports_have_names() {
    for (transport, name) in [
        (LoginTransport::Tcp, "TCP"),
        (LoginTransport::Ax25, "AX.25"),
        (LoginTransport::Mercury, "MERCURY"),
    ] {
        assert_eq!(transport.as_str(), name);
        assert_eq!(LoginTransport::from_name(name), Some(transport));
    }
    assert_eq!(LoginTransport::from_name("tcp"), None);
}
