//! Mail and the record of logins.
//!
//! The store holds the rows of two tables, as a database keeps them. Whoever
//! owns the database reads the rows, lets the store decide and writes back what
//! has changed, in one transaction.

use vstd::prelude::*;
use vstd::string::*;

use crate::callsign::{
    base_of, is_callsign, law_callsign_reads_back, parsed, Callsign, CallsignError, CallsignFault,
};
use crate::text::{chars_of, contains, find_char, occurs, same_text, texts};

verus! {

/// A row of the message table.
#[derive(Debug)]
pub struct MessageRow {
    pub id: i64,
    pub sender: String,
    /// Missing where the row was written before mailboxes ignored SSIDs.
    pub sender_base: Option<String>,
    pub recipient: Option<String>,
    pub recipient_base: Option<String>,
    pub is_public: bool,
    pub subject: String,
    pub body: String,
    pub created_at: String,
}

/// A row of the login table.
#[derive(Debug)]
pub struct LoginRow {
    pub id: i64,
    pub callsign: String,
    pub transport: String,
    pub logged_in_at: String,
}

/// `MessageRow` as a mathematical value.
#[verifier::ext_equal]
pub struct MessageRowView {
    pub id: i64,
    pub sender: Seq<char>,
    pub sender_base: Option<Seq<char>>,
    pub recipient: Option<Seq<char>>,
    pub recipient_base: Option<Seq<char>>,
    pub is_public: bool,
    pub subject: Seq<char>,
    pub body: Seq<char>,
    pub created_at: Seq<char>,
}

/// `LoginRow` as a mathematical value.
#[verifier::ext_equal]
pub struct LoginRowView {
    pub id: i64,
    pub callsign: Seq<char>,
    pub transport: Seq<char>,
    pub logged_in_at: Seq<char>,
}

/// The characters of a string, if there is one.
pub open spec fn optional_text(text: Option<String>) -> Option<Seq<char>> {
    match text {
        Some(text) => Some(text@),
        None => None,
    }
}

/// The characters of a callsign, if there is one.
pub open spec fn optional_callsign(callsign: Option<Callsign>) -> Option<Seq<char>> {
    match callsign {
        Some(callsign) => Some(callsign@),
        None => None,
    }
}

impl View for MessageRow {
    type V = MessageRowView;

    open spec fn view(&self) -> MessageRowView {
        MessageRowView {
            id: self.id,
            sender: self.sender@,
            sender_base: optional_text(self.sender_base),
            recipient: optional_text(self.recipient),
            recipient_base: optional_text(self.recipient_base),
            is_public: self.is_public,
            subject: self.subject@,
            body: self.body@,
            created_at: self.created_at@,
        }
    }
}

impl View for LoginRow {
    type V = LoginRowView;

    open spec fn view(&self) -> LoginRowView {
        LoginRowView {
            id: self.id,
            callsign: self.callsign@,
            transport: self.transport@,
            logged_in_at: self.logged_in_at@,
        }
    }
}

/// Message rows as mathematical values.
pub open spec fn message_rows(rows: Seq<MessageRow>) -> Seq<MessageRowView> {
    Seq::new(rows.len(), |i: int| rows[i]@)
}

/// Login rows as mathematical values.
pub open spec fn login_rows(rows: Seq<LoginRow>) -> Seq<LoginRowView> {
    Seq::new(rows.len(), |i: int| rows[i]@)
}

/// How a caller has reached the board.
#[derive(Clone, Copy, Debug, Eq, PartialEq, Structural)]
pub enum LoginTransport {
    Tcp,
    Ax25,
    Mercury,
}

/// The name under which a transport is recorded and shown.
pub open spec fn transport_name(transport: LoginTransport) -> Seq<char> {
    match transport {
        LoginTransport::Tcp => "TCP"@,
        LoginTransport::Ax25 => "AX.25"@,
        LoginTransport::Mercury => "MERCURY"@,
    }
}

/// The transport with a name.
pub open spec fn transport_named(name: Seq<char>) -> Option<LoginTransport> {
    if name == "TCP"@ {
        Some(LoginTransport::Tcp)
    } else if name == "AX.25"@ {
        Some(LoginTransport::Ax25)
    } else if name == "MERCURY"@ {
        Some(LoginTransport::Mercury)
    } else {
        None
    }
}

impl LoginTransport {
    /// The name under which the transport is recorded and shown.
    pub fn as_str(self) -> (r: &'static str)
        ensures
            r@ == transport_name(self),
    {
        match self {
            LoginTransport::Tcp => "TCP",
            LoginTransport::Ax25 => "AX.25",
            LoginTransport::Mercury => "MERCURY",
        }
    }

    /// The transport with a name.
    pub fn from_name(name: &str) -> (r: Option<LoginTransport>)
        ensures
            r == transport_named(name@),
    {
        if same_text(name, "TCP") {
            Some(LoginTransport::Tcp)
        } else if same_text(name, "AX.25") {
            Some(LoginTransport::Ax25)
        } else if same_text(name, "MERCURY") {
            Some(LoginTransport::Mercury)
        } else {
            None
        }
    }
}

/// A message as it is listed.
#[derive(Debug, PartialEq)]
pub struct MessageSummary {
    pub id: i64,
    pub sender: Callsign,
    pub recipient: Option<Callsign>,
    pub subject: String,
    pub created_at: String,
}

/// A message as it is read.
#[derive(Debug, PartialEq)]
pub struct Message {
    pub id: i64,
    pub sender: Callsign,
    pub recipient: Option<Callsign>,
    pub subject: String,
    pub body: String,
    pub created_at: String,
}

/// A recorded login.
#[derive(Debug, PartialEq)]
pub struct LoginRecord {
    pub callsign: Callsign,
    pub transport: LoginTransport,
    pub logged_in_at: String,
}

/// `MessageSummary` as a mathematical value.
#[verifier::ext_equal]
pub struct SummaryView {
    pub id: i64,
    pub sender: Seq<char>,
    pub recipient: Option<Seq<char>>,
    pub subject: Seq<char>,
    pub created_at: Seq<char>,
}

/// `Message` as a mathematical value.
#[verifier::ext_equal]
pub struct MessageView {
    pub id: i64,
    pub sender: Seq<char>,
    pub recipient: Option<Seq<char>>,
    pub subject: Seq<char>,
    pub body: Seq<char>,
    pub created_at: Seq<char>,
}

/// `LoginRecord` as a mathematical value.
#[verifier::ext_equal]
pub struct LoginView {
    pub callsign: Seq<char>,
    pub transport: LoginTransport,
    pub logged_in_at: Seq<char>,
}

impl View for MessageSummary {
    type V = SummaryView;

    open spec fn view(&self) -> SummaryView {
        SummaryView {
            id: self.id,
            sender: self.sender@,
            recipient: optional_callsign(self.recipient),
            subject: self.subject@,
            created_at: self.created_at@,
        }
    }
}

impl View for Message {
    type V = MessageView;

    open spec fn view(&self) -> MessageView {
        MessageView {
            id: self.id,
            sender: self.sender@,
            recipient: optional_callsign(self.recipient),
            subject: self.subject@,
            body: self.body@,
            created_at: self.created_at@,
        }
    }
}

impl View for LoginRecord {
    type V = LoginView;

    open spec fn view(&self) -> LoginView {
        LoginView {
            callsign: self.callsign@,
            transport: self.transport,
            logged_in_at: self.logged_in_at@,
        }
    }
}

/// Summaries as mathematical values.
pub open spec fn summary_views(list: Seq<MessageSummary>) -> Seq<SummaryView> {
    Seq::new(list.len(), |i: int| list[i]@)
}

/// Login records as mathematical values.
pub open spec fn login_views(list: Seq<LoginRecord>) -> Seq<LoginView> {
    Seq::new(list.len(), |i: int| list[i]@)
}

/// Why the store cannot answer.
#[derive(Debug)]
pub enum StoreError {
    /// The rows are not in the order of distinct identifiers.
    Unordered,
    /// A row holds something else than a callsign where one belongs.
    InvalidCallsign(CallsignError),
    /// A login row names an unknown transport.
    InvalidTransport(String),
    /// No identifier is left for another row.
    IdsExhausted,
}

/// `StoreError` as a mathematical value.
pub enum StoreFault {
    Unordered,
    InvalidCallsign(CallsignFault),
    InvalidTransport(Seq<char>),
    IdsExhausted,
}

impl View for StoreError {
    type V = StoreFault;

    open spec fn view(&self) -> StoreFault {
        match self {
            StoreError::Unordered => StoreFault::Unordered,
            StoreError::InvalidCallsign(error) => StoreFault::InvalidCallsign(error@),
            StoreError::InvalidTransport(name) => StoreFault::InvalidTransport(name@),
            StoreError::IdsExhausted => StoreFault::IdsExhausted,
        }
    }
}

/// What the tables hold.
#[verifier::ext_equal]
pub struct StoreView {
    pub messages: Seq<MessageRowView>,
    pub logins: Seq<LoginRowView>,
}

/// Message rows in the order of distinct identifiers.
pub open spec fn messages_ascend(rows: Seq<MessageRowView>) -> bool {
    forall|i: int, j: int|
        0 <= i < j < rows.len() ==> (#[trigger] rows[i]).id < (#[trigger] rows[j]).id
}

/// Login rows in the order of distinct identifiers.
pub open spec fn logins_ascend(rows: Seq<LoginRowView>) -> bool {
    forall|i: int, j: int|
        0 <= i < j < rows.len() ==> (#[trigger] rows[i]).id < (#[trigger] rows[j]).id
}

/// A row with the base callsigns filled in where they are missing.
pub open spec fn backfilled(row: MessageRowView) -> MessageRowView {
    MessageRowView {
        sender_base: match row.sender_base {
            Some(base) => Some(base),
            None => Some(base_of(row.sender)),
        },
        recipient_base: match row.recipient_base {
            Some(base) => Some(base),
            None => match row.recipient {
                Some(recipient) => Some(base_of(recipient)),
                None => None,
            },
        },
        ..row
    }
}

/// Rows with the base callsigns filled in where they are missing.
pub open spec fn all_backfilled(rows: Seq<MessageRowView>) -> Seq<MessageRowView> {
    Seq::new(rows.len(), |i: int| backfilled(rows[i]))
}

/// What a caller with the base callsign `base` may see: public posts, and mail
/// to the base or any of its SSIDs.
pub open spec fn is_visible(row: MessageRowView, base: Seq<char>) -> bool {
    row.is_public || row.recipient_base == Some(base)
}

/// What was sent under the base callsign `base` or any of its SSIDs.
pub open spec fn is_sent(row: MessageRowView, base: Seq<char>) -> bool {
    row.sender_base == Some(base)
}

/// What a caller with the base callsign `base` may delete.
pub open spec fn may_delete(row: MessageRowView, base: Seq<char>) -> bool {
    row.sender_base == Some(base) || row.recipient_base == Some(base)
}

/// The callsigns of a row.
pub open spec fn correspondents(row: MessageRowView) -> Result<
    (Seq<char>, Option<Seq<char>>),
    StoreFault,
> {
    match parsed(row.sender) {
        Err(fault) => Err(StoreFault::InvalidCallsign(fault)),
        Ok(sender) => match row.recipient {
            None => Ok((sender, None)),
            Some(text) => match parsed(text) {
                Err(fault) => Err(StoreFault::InvalidCallsign(fault)),
                Ok(recipient) => Ok((sender, Some(recipient))),
            },
        },
    }
}

/// A row as it is listed.
pub open spec fn summary(row: MessageRowView) -> Result<SummaryView, StoreFault> {
    match correspondents(row) {
        Err(fault) => Err(fault),
        Ok((sender, recipient)) => Ok(
            SummaryView {
                id: row.id,
                sender,
                recipient,
                subject: row.subject,
                created_at: row.created_at,
            },
        ),
    }
}

/// A row as it is read.
pub open spec fn full_message(row: MessageRowView) -> Result<MessageView, StoreFault> {
    match correspondents(row) {
        Err(fault) => Err(fault),
        Ok((sender, recipient)) => Ok(
            MessageView {
                id: row.id,
                sender,
                recipient,
                subject: row.subject,
                body: row.body,
                created_at: row.created_at,
            },
        ),
    }
}

/// Which messages a listing holds.
pub enum Scope {
    /// Those that a caller with this base callsign may see.
    Visible(Seq<char>),
    /// Those that were sent under this base callsign.
    Sent(Seq<char>),
}

/// A row belongs in a listing.
pub open spec fn in_scope(row: MessageRowView, scope: Scope) -> bool {
    match scope {
        Scope::Visible(base) => is_visible(row, base),
        Scope::Sent(base) => is_sent(row, base),
    }
}

/// The listing of some rows, newest first. It fails at the first row in that
/// order that holds something else than callsigns.
pub open spec fn listed(rows: Seq<MessageRowView>, scope: Scope) -> Result<
    Seq<SummaryView>,
    StoreFault,
>
    decreases rows.len(),
{
    if rows.len() == 0 {
        Ok(Seq::empty())
    } else if !in_scope(rows.last(), scope) {
        listed(rows.drop_last(), scope)
    } else {
        match summary(rows.last()) {
            Err(fault) => Err(fault),
            Ok(newest) => match listed(rows.drop_last(), scope) {
                Err(fault) => Err(fault),
                Ok(older) => Ok(seq![newest] + older),
            },
        }
    }
}

/// Index of the row with an identifier, or the number of rows.
pub open spec fn row_index(rows: Seq<MessageRowView>, id: i64) -> int
    decreases rows.len(),
{
    if rows.len() == 0 || rows[0].id == id {
        0
    } else {
        1 + row_index(rows.drop_first(), id)
    }
}

/// The message with an identifier, if the caller may see it.
pub open spec fn readable(rows: Seq<MessageRowView>, base: Seq<char>, id: i64) -> Result<
    Option<MessageView>,
    StoreFault,
> {
    let k = row_index(rows, id);
    if k < rows.len() && is_visible(rows[k], base) {
        match full_message(rows[k]) {
            Err(fault) => Err(fault),
            Ok(message) => Ok(Some(message)),
        }
    } else {
        Ok(None)
    }
}

/// There is a message with an identifier, and the caller may delete it.
pub open spec fn deletable(rows: Seq<MessageRowView>, base: Seq<char>, id: i64) -> bool {
    let k = row_index(rows, id);
    k < rows.len() && may_delete(rows[k], base)
}

/// The rows without the message with an identifier, if the caller may delete it.
pub open spec fn without(rows: Seq<MessageRowView>, base: Seq<char>, id: i64) -> Seq<
    MessageRowView,
> {
    if deletable(rows, base, id) {
        rows.remove(row_index(rows, id))
    } else {
        rows
    }
}

/// The identifier of the next message, if there is one.
pub open spec fn next_message_id(rows: Seq<MessageRowView>) -> Option<i64> {
    if rows.len() == 0 {
        Some(1)
    } else if rows.last().id == i64::MAX {
        None
    } else {
        Some((rows.last().id + 1) as i64)
    }
}

/// The identifier of the next login, if there is one.
pub open spec fn next_login_id(rows: Seq<LoginRowView>) -> Option<i64> {
    if rows.len() == 0 {
        Some(1)
    } else if rows.last().id == i64::MAX {
        None
    } else {
        Some((rows.last().id + 1) as i64)
    }
}

/// The row that keeps a new message.
pub open spec fn new_message(
    id: i64,
    sender: Seq<char>,
    recipient: Option<Seq<char>>,
    subject: Seq<char>,
    body: Seq<char>,
    created_at: Seq<char>,
) -> MessageRowView {
    MessageRowView {
        id,
        sender,
        sender_base: Some(base_of(sender)),
        recipient,
        recipient_base: match recipient {
            Some(recipient) => Some(base_of(recipient)),
            None => None,
        },
        is_public: recipient is None,
        subject,
        body,
        created_at,
    }
}

/// A login row as it is shown.
pub open spec fn login(row: LoginRowView) -> Result<LoginView, StoreFault> {
    match transport_named(row.transport) {
        None => Err(StoreFault::InvalidTransport(row.transport)),
        Some(transport) => match parsed(row.callsign) {
            Err(fault) => Err(StoreFault::InvalidCallsign(fault)),
            Ok(callsign) => Ok(
                LoginView { callsign, transport, logged_in_at: row.logged_in_at },
            ),
        },
    }
}

/// The most recent logins, newest first, at most `limit` of them. It fails at
/// the first of them in that order that cannot be shown.
pub open spec fn newest_logins(rows: Seq<LoginRowView>, limit: nat) -> Result<
    Seq<LoginView>,
    StoreFault,
>
    decreases rows.len(),
{
    if rows.len() == 0 || limit == 0 {
        Ok(Seq::empty())
    } else {
        match login(rows.last()) {
            Err(fault) => Err(fault),
            Ok(newest) => match newest_logins(rows.drop_last(), (limit - 1) as nat) {
                Err(fault) => Err(fault),
                Ok(older) => Ok(seq![newest] + older),
            },
        }
    }
}

/// A text as `{:?}` formats it.
pub uninterp spec fn quoted_text(text: Seq<char>) -> Seq<char>;

/// `format!` of a string with `{:?}`: what it writes depends on the text alone.
/// It stands in double quotes, with some of its characters escaped; which of them
/// is left unsaid.
#[verifier::external_body]
fn quoted(text: &str) -> (r: String)
    ensures
        r@ == quoted_text(text@),
{
    format!("{text:?}")
}

/// The words in which an unknown transport is reported, by its quoted name.
pub fn unknown_transport(quoted_name: &str) -> (r: String)
    ensures
        r@ == "invalid login transport "@ + quoted_name@,
{
    let mut out: String = "invalid login transport ".to_owned();
    out.append(quoted_name);
    out
}

impl StoreError {
    /// The words in which the failure is reported.
    pub fn message(&self) -> (r: String)
        ensures
            r@ == store_message(self@),
    {
        match self {
            StoreError::Unordered => "rows are not ordered by distinct identifiers".to_owned(),
            StoreError::InvalidCallsign(error) => error.message(),
            StoreError::InvalidTransport(name) => {
                let quoted_name: String = quoted(name.as_str());
                unknown_transport(quoted_name.as_str())
            },
            StoreError::IdsExhausted => "no identifier is left".to_owned(),
        }
    }
}

/// The words in which a failure of the store is reported.
pub open spec fn store_message(fault: StoreFault) -> Seq<char> {
    match fault {
        StoreFault::Unordered => "rows are not ordered by distinct identifiers"@,
        StoreFault::InvalidCallsign(fault) => crate::callsign::callsign_message(fault),
        StoreFault::InvalidTransport(name) => "invalid login transport "@ + quoted_text(name),
        StoreFault::IdsExhausted => "no identifier is left"@,
    }
}

/// The base callsign of a text, which is all of it where it has no hyphen.
fn base_text(text: &str) -> (r: String)
    ensures
        r@ == base_of(text@),
{
    let chars: Vec<char> = chars_of(text);
    let end: usize = find_char(chars.as_slice(), '-');
    assert(text@.subrange(0, end as int) =~= base_of(text@));
    text.substring_char(0, end).to_owned()
}

/// Whether an optional text is there and is `text`.
fn is_text(value: &Option<String>, text: &str) -> (r: bool)
    ensures
        r == (optional_text(*value) == Some(text@)),
{
    match value {
        Some(value) => same_text(value.as_str(), text),
        None => false,
    }
}

/// A row with the base callsigns filled in where they are missing.
pub fn backfill(row: MessageRow) -> (r: MessageRow)
    ensures
        r@ == backfilled(row@),
{
    let sender_base: String = match row.sender_base {
        Some(base) => base,
        None => base_text(row.sender.as_str()),
    };
    let recipient_base: Option<String> = match row.recipient_base {
        Some(base) => Some(base),
        None => match &row.recipient {
            Some(recipient) => Some(base_text(recipient.as_str())),
            None => None,
        },
    };
    MessageRow {
        id: row.id,
        sender: row.sender,
        sender_base: Some(sender_base),
        recipient: row.recipient,
        recipient_base,
        is_public: row.is_public,
        subject: row.subject,
        body: row.body,
        created_at: row.created_at,
    }
}

/// What has to be changed in a database so that it holds the tables of this
/// version.
#[derive(Clone, Copy, Debug, Eq, PartialEq, Structural)]
pub struct Migration {
    /// The message table lacks the column of base callsigns of senders.
    pub add_sender_base: bool,
    /// The message table lacks the column of base callsigns of recipients.
    pub add_recipient_base: bool,
    /// The login table does not admit logins over Mercury.
    pub admit_mercury: bool,
}

/// The changes that a database needs, by the columns of its message table and
/// the definition of its login table.
pub open spec fn migration_needed(columns: Seq<Seq<char>>, logins: Seq<char>) -> Migration {
    Migration {
        add_sender_base: !columns.contains("sender_base_callsign"@),
        add_recipient_base: !columns.contains("recipient_base_callsign"@),
        admit_mercury: !occurs(logins, "'MERCURY'"@),
    }
}

/// Whether a column has a name.
fn has_column(columns: &Vec<String>, name: &str) -> (r: bool)
    ensures
        r == texts(columns@).contains(name@),
{
    let mut i: usize = 0;
    while i < columns.len()
        invariant
            i <= columns@.len(),
            forall|x: int| 0 <= x < i ==> texts(columns@)[x] != name@,
        decreases columns@.len() - i,
    {
        if same_text(columns[i].as_str(), name) {
            assert(texts(columns@)[i as int] == name@);
            return true;
        }
        i = i + 1;
    }
    false
}

/// The changes that a database needs, by the columns of its message table and
/// the definition of its login table.
pub fn initialize(columns: &Vec<String>, logins: &str) -> (r: Migration)
    ensures
        r == migration_needed(texts(columns@), logins@),
{
    Migration {
        add_sender_base: !has_column(columns, "sender_base_callsign"),
        add_recipient_base: !has_column(columns, "recipient_base_callsign"),
        admit_mercury: !contains(logins, "'MERCURY'"),
    }
}

/// A callsign that is kept in a row.
fn kept_callsign(text: &str) -> (r: Result<Callsign, StoreError>)
    ensures
        match r {
            Ok(callsign) => parsed(text@) == Ok::<Seq<char>, CallsignFault>(callsign@),
            Err(error) => parsed(text@) is Err && error@ == StoreFault::InvalidCallsign(
                parsed(text@)->Err_0,
            ),
        },
{
    match Callsign::parse(text) {
        Ok(callsign) => Ok(callsign),
        Err(error) => Err(StoreError::InvalidCallsign(error)),
    }
}

/// The callsigns of a row.
fn row_callsigns(row: &MessageRow) -> (r: Result<(Callsign, Option<Callsign>), StoreError>)
    ensures
        match r {
            Ok((sender, recipient)) => correspondents(row@) == Ok::<
                (Seq<char>, Option<Seq<char>>),
                StoreFault,
            >((sender@, optional_callsign(recipient))),
            Err(error) => correspondents(row@) == Err::<
                (Seq<char>, Option<Seq<char>>),
                StoreFault,
            >(error@),
        },
{
    let sender: Callsign = match kept_callsign(row.sender.as_str()) {
        Ok(sender) => sender,
        Err(error) => {
            return Err(error);
        },
    };
    let recipient: Option<Callsign> = match &row.recipient {
        Some(text) => match kept_callsign(text.as_str()) {
            Ok(recipient) => Some(recipient),
            Err(error) => {
                return Err(error);
            },
        },
        None => None,
    };
    Ok((sender, recipient))
}

/// A login row as it is shown.
pub fn login_record_from_row(row: &LoginRow) -> (r: Result<LoginRecord, StoreError>)
    ensures
        match r {
            Ok(record) => login(row@) == Ok::<LoginView, StoreFault>(record@),
            Err(error) => login(row@) == Err::<LoginView, StoreFault>(error@),
        },
{
    let transport: LoginTransport = match LoginTransport::from_name(row.transport.as_str()) {
        Some(transport) => transport,
        None => {
            return Err(StoreError::InvalidTransport(row.transport.clone()));
        },
    };
    match kept_callsign(row.callsign.as_str()) {
        Ok(callsign) => Ok(
            LoginRecord { callsign, transport, logged_in_at: row.logged_in_at.clone() },
        ),
        Err(error) => Err(error),
    }
}

/// A listing result as a mathematical value.
pub open spec fn listing_outcome(r: Result<Vec<MessageSummary>, StoreError>) -> Result<
    Seq<SummaryView>,
    StoreFault,
> {
    match r {
        Ok(list) => Ok(summary_views(list@)),
        Err(error) => Err(error@),
    }
}

/// A reading result as a mathematical value.
pub open spec fn reading_outcome(r: Result<Option<Message>, StoreError>) -> Result<
    Option<MessageView>,
    StoreFault,
> {
    match r {
        Ok(Some(message)) => Ok(Some(message@)),
        Ok(None) => Ok(None),
        Err(error) => Err(error@),
    }
}

/// A result of logins as a mathematical value.
pub open spec fn logins_outcome(r: Result<Vec<LoginRecord>, StoreError>) -> Result<
    Seq<LoginView>,
    StoreFault,
> {
    match r {
        Ok(list) => Ok(login_views(list@)),
        Err(error) => Err(error@),
    }
}

/// A summary in front of an older listing.
pub open spec fn in_front(
    newer: Seq<SummaryView>,
    older: Result<Seq<SummaryView>, StoreFault>,
) -> Result<Seq<SummaryView>, StoreFault> {
    match older {
        Ok(older) => Ok(newer + older),
        Err(fault) => Err(fault),
    }
}

/// A kind of listing of messages.
#[derive(Clone, Copy)]
enum Listing {
    Visible,
    Sent,
}

/// The scope of a listing for a base callsign.
spec fn scope_of(listing: Listing, base: Seq<char>) -> Scope {
    match listing {
        Listing::Visible => Scope::Visible(base),
        Listing::Sent => Scope::Sent(base),
    }
}

/// Whether a row belongs in a listing for a base callsign.
fn belongs(row: &MessageRow, listing: Listing, base: &str) -> (r: bool)
    ensures
        r == in_scope(row@, scope_of(listing, base@)),
{
    match listing {
        Listing::Visible => row.is_public || is_text(&row.recipient_base, base),
        Listing::Sent => is_text(&row.sender_base, base),
    }
}

/// What it comes to that a message is saved: the store behind it, and the
/// identifier of the message.
pub open spec fn saved(
    s: StoreView,
    sender: Seq<char>,
    recipient: Option<Seq<char>>,
    subject: Seq<char>,
    body: Seq<char>,
    created_at: Seq<char>,
) -> (StoreView, Result<i64, StoreFault>) {
    match next_message_id(s.messages) {
        Some(id) => (
            StoreView {
                messages: s.messages.push(
                    new_message(id, sender, recipient, subject, body, created_at),
                ),
                ..s
            },
            Ok(id),
        ),
        None => (s, Err(StoreFault::IdsExhausted)),
    }
}

/// What it comes to that a login is recorded.
pub open spec fn login_recorded(
    s: StoreView,
    callsign: Seq<char>,
    transport: LoginTransport,
    logged_in_at: Seq<char>,
) -> (StoreView, Result<(), StoreFault>) {
    match next_login_id(s.logins) {
        Some(id) => (
            StoreView {
                logins: s.logins.push(
                    LoginRowView {
                        id,
                        callsign,
                        transport: transport_name(transport),
                        logged_in_at,
                    },
                ),
                ..s
            },
            Ok(()),
        ),
        None => (s, Err(StoreFault::IdsExhausted)),
    }
}

/// A result of the store with its error as a mathematical value.
pub open spec fn store_outcome<T>(r: Result<T, StoreError>) -> Result<T, StoreFault> {
    match r {
        Ok(value) => Ok(value),
        Err(error) => Err(error@),
    }
}

/// The mail and the logins.
#[derive(Debug)]
pub struct MailStore {
    messages: Vec<MessageRow>,
    logins: Vec<LoginRow>,
}

impl View for MailStore {
    type V = StoreView;

    closed spec fn view(&self) -> StoreView {
        StoreView { messages: message_rows(self.messages@), logins: login_rows(self.logins@) }
    }
}

impl MailStore {
    #[verifier::type_invariant]
    spec fn well_formed(&self) -> bool {
        messages_ascend(message_rows(self.messages@)) && logins_ascend(login_rows(self.logins@))
    }

    /// The store with the rows of the two tables, in the order of their
    /// identifiers. Base callsigns that are missing are filled in.
    pub fn open(messages: Vec<MessageRow>, logins: Vec<LoginRow>) -> (r: Result<
        MailStore,
        StoreError,
    >)
        ensures
            match r {
                Ok(store) => {
                    &&& messages_ascend(message_rows(messages@))
                    &&& logins_ascend(login_rows(logins@))
                    &&& store@.messages == all_backfilled(message_rows(messages@))
                    &&& store@.logins == login_rows(logins@)
                },
                Err(error) => {
                    &&& error@ == StoreFault::Unordered
                    &&& !messages_ascend(message_rows(messages@)) || !logins_ascend(
                        login_rows(logins@),
                    )
                },
            },
    {
        let ghost before = message_rows(messages@);
        let mut i: usize = 1;
        while i < messages.len()
            invariant
                before == message_rows(messages@),
                1 <= i,
                forall|a: int, b: int|
                    0 <= a < b < i && b < before.len() ==> (#[trigger] before[a]).id < (
                    #[trigger] before[b]).id,
            decreases messages@.len() - i,
        {
            assert(before[i as int].id == messages@[i as int].id);
            assert(before[i - 1].id == messages@[i - 1].id);
            if messages[i - 1].id >= messages[i].id {
                return Err(StoreError::Unordered);
            }
            i = i + 1;
        }
        let ghost kept = login_rows(logins@);
        let mut j: usize = 1;
        while j < logins.len()
            invariant
                kept == login_rows(logins@),
                1 <= j,
                forall|a: int, b: int|
                    0 <= a < b < j && b < kept.len() ==> (#[trigger] kept[a]).id < (
                    #[trigger] kept[b]).id,
            decreases logins@.len() - j,
        {
            assert(kept[j as int].id == logins@[j as int].id);
            assert(kept[j - 1].id == logins@[j - 1].id);
            if logins[j - 1].id >= logins[j].id {
                return Err(StoreError::Unordered);
            }
            j = j + 1;
        }
        let rows: Vec<MessageRow> = backfill_all(messages);
        proof {
            let after = message_rows(rows@);
            assert forall|a: int, b: int| 0 <= a < b < after.len() implies (#[trigger] after[a]).id
                < (#[trigger] after[b]).id by {
                assert(before[a].id < before[b].id);
            }
        }
        Ok(MailStore { messages: rows, logins })
    }

    /// The rows of the message table.
    pub fn messages(&self) -> (r: &Vec<MessageRow>)
        ensures
            message_rows(r@) == self@.messages,
            messages_ascend(self@.messages),
    {
        proof {
            use_type_invariant(self);
        }
        &self.messages
    }

    /// The rows of the login table.
    pub fn logins(&self) -> (r: &Vec<LoginRow>)
        ensures
            login_rows(r@) == self@.logins,
            logins_ascend(self@.logins),
    {
        proof {
            use_type_invariant(self);
        }
        &self.logins
    }

    /// Keep a message, and give it an identifier.
    pub fn save(
        &mut self,
        sender: Callsign,
        recipient: Option<Callsign>,
        subject: String,
        body: String,
        created_at: String,
    ) -> (r: Result<i64, StoreError>)
        ensures
            match (r, next_message_id(old(self)@.messages)) {
                (Ok(id), Some(next)) => {
                    &&& id == next
                    &&& final(self)@.messages == old(self)@.messages.push(
                        new_message(
                            id,
                            sender@,
                            optional_callsign(recipient),
                            subject@,
                            body@,
                            created_at@,
                        ),
                    )
                },
                (Err(error), None) => {
                    &&& error@ == StoreFault::IdsExhausted
                    &&& final(self)@.messages == old(self)@.messages
                },
                _ => false,
            },
            final(self)@.logins == old(self)@.logins,
            (final(self)@, store_outcome(r)) == saved(
                old(self)@,
                sender@,
                optional_callsign(recipient),
                subject@,
                body@,
                created_at@,
            ),
    {
        proof {
            use_type_invariant(&*self);
        }
        let count: usize = self.messages.len();
        let ghost before = message_rows(self.messages@);
        let id: i64 = if count == 0 {
            1
        } else {
            let last: i64 = self.messages[count - 1].id;
            assert(before.last().id == last);
            if last == i64::MAX {
                return Err(StoreError::IdsExhausted);
            }
            last + 1
        };
        let is_public: bool = recipient.is_none();
        let (to, to_base): (Option<String>, Option<String>) = match &recipient {
            Some(callsign) => (Some(callsign.as_str().to_owned()), Some(callsign.base().to_owned())),
            None => (None, None),
        };
        let row: MessageRow = MessageRow {
            id,
            sender: sender.as_str().to_owned(),
            sender_base: Some(sender.base().to_owned()),
            recipient: to,
            recipient_base: to_base,
            is_public,
            subject,
            body,
            created_at,
        };
        let ghost new = row@;
        assert(new =~= new_message(
            id,
            sender@,
            optional_callsign(recipient),
            subject@,
            body@,
            created_at@,
        ));
        let mut rows: Vec<MessageRow> = Vec::new();
        std::mem::swap(&mut rows, &mut self.messages);
        rows.push(row);
        proof {
            let after = message_rows(rows@);
            assert(after =~= before.push(new));
            assert forall|a: int, b: int| 0 <= a < b < after.len() implies (#[trigger] after[a]).id
                < (#[trigger] after[b]).id by {
                if b < before.len() {
                    assert(before[a].id < before[b].id);
                } else if a < before.len() - 1 {
                    assert(before[a].id < before[before.len() - 1].id);
                }
            }
        }
        self.messages = rows;
        Ok(id)
    }

    /// Record that a caller has logged in.
    pub fn record_login(
        &mut self,
        callsign: Callsign,
        transport: LoginTransport,
        logged_in_at: String,
    ) -> (r: Result<(), StoreError>)
        ensures
            match (r, next_login_id(old(self)@.logins)) {
                (Ok(()), Some(next)) => final(self)@.logins == old(self)@.logins.push(
                    LoginRowView {
                        id: next,
                        callsign: callsign@,
                        transport: transport_name(transport),
                        logged_in_at: logged_in_at@,
                    },
                ),
                (Err(error), None) => {
                    &&& error@ == StoreFault::IdsExhausted
                    &&& final(self)@.logins == old(self)@.logins
                },
                _ => false,
            },
            final(self)@.messages == old(self)@.messages,
            (final(self)@, store_outcome(r)) == login_recorded(
                old(self)@,
                callsign@,
                transport,
                logged_in_at@,
            ),
    {
        proof {
            use_type_invariant(&*self);
        }
        let count: usize = self.logins.len();
        let ghost before = login_rows(self.logins@);
        let id: i64 = if count == 0 {
            1
        } else {
            let last: i64 = self.logins[count - 1].id;
            assert(before.last().id == last);
            if last == i64::MAX {
                return Err(StoreError::IdsExhausted);
            }
            last + 1
        };
        let row: LoginRow = LoginRow {
            id,
            callsign: callsign.as_str().to_owned(),
            transport: transport.as_str().to_owned(),
            logged_in_at,
        };
        let ghost new = row@;
        let mut rows: Vec<LoginRow> = Vec::new();
        std::mem::swap(&mut rows, &mut self.logins);
        rows.push(row);
        proof {
            let after = login_rows(rows@);
            assert(after =~= before.push(new));
            assert forall|a: int, b: int| 0 <= a < b < after.len() implies (#[trigger] after[a]).id
                < (#[trigger] after[b]).id by {
                if b < before.len() {
                    assert(before[a].id < before[b].id);
                } else if a < before.len() - 1 {
                    assert(before[a].id < before[before.len() - 1].id);
                }
            }
        }
        self.logins = rows;
        Ok(())
    }

    /// The most recent logins, newest first.
    pub fn recent_logins(&self, limit: usize) -> (r: Result<Vec<LoginRecord>, StoreError>)
        ensures
            logins_outcome(r) == newest_logins(self@.logins, limit as nat),
    {
        let ghost all = login_rows(self.logins@);
        let mut out: Vec<LoginRecord> = Vec::new();
        let mut i: usize = self.logins.len();
        assert(all.take(i as int) =~= all);
        proof {
            let older = newest_logins(all, limit as nat);
            if let Ok(older) = older {
                assert(login_views(out@) + older =~= older);
            }
        }
        while i > 0 && out.len() < limit
            invariant
                all == login_rows(self.logins@),
                i <= all.len(),
                out@.len() <= limit,
                newest_logins(all, limit as nat) == (match newest_logins(
                    all.take(i as int),
                    (limit - out@.len()) as nat,
                ) {
                    Ok(older) => Ok(login_views(out@) + older),
                    Err(fault) => Err(fault),
                }),
            decreases i,
        {
            let ghost front = all.take(i as int);
            proof {
                assert(front.last() == self.logins@[i - 1]@);
                assert(front.drop_last() =~= all.take(i - 1));
            }
            match login_record_from_row(&self.logins[i - 1]) {
                Ok(record) => {
                    let ghost new = record@;
                    let ghost before = login_views(out@);
                    out.push(record);
                    proof {
                        assert(login_views(out@) =~= before.push(new));
                        let older = newest_logins(all.take(i - 1), (limit - out@.len()) as nat);
                        if let Ok(older) = older {
                            assert(before + (seq![new] + older) =~= before.push(new) + older);
                        }
                    }
                },
                Err(error) => {
                    return Err(error);
                },
            }
            i = i - 1;
        }
        assert(login_views(out@) + Seq::<LoginView>::empty() =~= login_views(out@));
        Ok(out)
    }

    /// The messages of a listing for a base callsign, newest first.
    fn list(&self, listing: Listing, base: &str) -> (r: Result<Vec<MessageSummary>, StoreError>)
        ensures
            listing_outcome(r) == listed(self@.messages, scope_of(listing, base@)),
    {
        let ghost scope = scope_of(listing, base@);
        let ghost all = message_rows(self.messages@);
        let mut out: Vec<MessageSummary> = Vec::new();
        let mut i: usize = self.messages.len();
        assert(all.take(i as int) =~= all);
        proof {
            if let Ok(older) = listed(all, scope) {
                assert(summary_views(out@) + older =~= older);
            }
        }
        while i > 0
            invariant
                all == message_rows(self.messages@),
                scope == scope_of(listing, base@),
                i <= all.len(),
                listed(all, scope) == in_front(
                    summary_views(out@),
                    listed(all.take(i as int), scope),
                ),
            decreases i,
        {
            let row: &MessageRow = &self.messages[i - 1];
            proof {
                assert(all.take(i as int).last() == row@);
                assert(all.take(i as int).drop_last() =~= all.take(i - 1));
            }
            if belongs(row, listing, base) {
                match push_summary(&mut out, row, Ghost(listed(all.take(i - 1), scope))) {
                    Ok(()) => {},
                    Err(error) => {
                        return Err(error);
                    },
                }
            }
            i = i - 1;
        }
        assert(summary_views(out@) + Seq::<SummaryView>::empty() =~= summary_views(out@));
        Ok(out)
    }

    /// The messages that a caller may see, newest first.
    pub fn list_visible(&self, viewer: Callsign) -> (r: Result<Vec<MessageSummary>, StoreError>)
        ensures
            listing_outcome(r) == listed(
                self@.messages,
                Scope::Visible(base_of(viewer@)),
            ),
    {
        self.list(Listing::Visible, viewer.base())
    }

    /// The messages that a caller has sent, newest first.
    pub fn list_sent(&self, sender: Callsign) -> (r: Result<Vec<MessageSummary>, StoreError>)
        ensures
            listing_outcome(r) == listed(self@.messages, Scope::Sent(base_of(sender@))),
    {
        self.list(Listing::Sent, sender.base())
    }

    /// Index of the row with an identifier, or the number of rows.
    fn find(&self, id: i64) -> (r: usize)
        ensures
            r == row_index(self@.messages, id),
            r <= self@.messages.len(),
            self@.messages.len() == self.messages@.len(),
    {
        let ghost all = message_rows(self.messages@);
        let mut i: usize = 0;
        assert(all.skip(0) =~= all);
        while i < self.messages.len() && self.messages[i].id != id
            invariant
                all == message_rows(self.messages@),
                i <= all.len(),
                row_index(all, id) == i + row_index(all.skip(i as int), id),
            decreases all.len() - i,
        {
            assert(all.skip(i as int)[0].id == self.messages@[i as int].id);
            assert(all.skip(i as int).drop_first() =~= all.skip(i + 1));
            i = i + 1;
        }
        proof {
            if i < all.len() {
                assert(all.skip(i as int)[0].id == self.messages@[i as int].id);
            }
        }
        i
    }

    /// A message, if there is one with the identifier that the caller may see.
    pub fn read_visible(&self, viewer: Callsign, id: i64) -> (r: Result<
        Option<Message>,
        StoreError,
    >)
        ensures
            reading_outcome(r) == readable(self@.messages, base_of(viewer@), id),
    {
        let k: usize = self.find(id);
        if k == self.messages.len() {
            return Ok(None);
        }
        let row: &MessageRow = &self.messages[k];
        assert(self@.messages[k as int] == row@);
        if !row.is_public && !is_text(&row.recipient_base, viewer.base()) {
            return Ok(None);
        }
        match row_callsigns(row) {
            Ok((sender, recipient)) => Ok(
                Some(
                    Message {
                        id: row.id,
                        sender,
                        recipient,
                        subject: row.subject.clone(),
                        body: row.body.clone(),
                        created_at: row.created_at.clone(),
                    },
                ),
            ),
            Err(error) => Err(error),
        }
    }

    /// Delete a message, if there is one with the identifier that the caller may
    /// delete.
    pub fn delete_authorized(&mut self, caller: Callsign, id: i64) -> (r: bool)
        ensures
            r == deletable(old(self)@.messages, base_of(caller@), id),
            final(self)@.messages == without(old(self)@.messages, base_of(caller@), id),
            final(self)@.logins == old(self)@.logins,
    {
        proof {
            use_type_invariant(&*self);
        }
        let k: usize = self.find(id);
        if k == self.messages.len() {
            return false;
        }
        let ghost before = message_rows(self.messages@);
        let base: &str = caller.base();
        assert(before[k as int] == self.messages@[k as int]@);
        if !is_text(&self.messages[k].sender_base, base) && !is_text(
            &self.messages[k].recipient_base,
            base,
        ) {
            return false;
        }
        let mut rows: Vec<MessageRow> = Vec::new();
        std::mem::swap(&mut rows, &mut self.messages);
        let _ = rows.remove(k);
        proof {
            let after = message_rows(rows@);
            assert(after =~= before.remove(k as int));
            assert forall|a: int, b: int| 0 <= a < b < after.len() implies (#[trigger] after[a]).id
                < (#[trigger] after[b]).id by {
                let x = if a < k {
                    a
                } else {
                    a + 1
                };
                let y = if b < k {
                    b
                } else {
                    b + 1
                };
                assert(before[x].id < before[y].id);
            }
        }
        self.messages = rows;
        true
    }
}

/// Rows with the base callsigns filled in where they are missing.
fn backfill_all(rows: Vec<MessageRow>) -> (r: Vec<MessageRow>)
    ensures
        message_rows(r@) == all_backfilled(message_rows(rows@)),
{
    let mut left: Vec<MessageRow> = rows;
    let mut reversed: Vec<MessageRow> = Vec::new();
    let ghost all = rows@;
    while left.len() > 0
        invariant
            left@.len() + reversed@.len() == all.len(),
            left@ == all.take(left@.len() as int),
            forall|i: int|
                0 <= i < reversed@.len() ==> (#[trigger] reversed@[i])@ == backfilled(
                    all[all.len() - 1 - i]@,
                ),
        decreases left@.len(),
    {
        if let Some(row) = left.pop() {
            reversed.push(backfill(row));
        }
    }
    let mut out: Vec<MessageRow> = Vec::new();
    let ghost turned = reversed@;
    while reversed.len() > 0
        invariant
            turned.len() == all.len(),
            reversed@.len() + out@.len() == turned.len(),
            reversed@ == turned.take(reversed@.len() as int),
            forall|i: int|
                0 <= i < turned.len() ==> (#[trigger] turned[i])@ == backfilled(
                    all[all.len() - 1 - i]@,
                ),
            forall|i: int| 0 <= i < out@.len() ==> (#[trigger] out@[i])@ == backfilled(all[i]@),
        decreases reversed@.len(),
    {
        if let Some(row) = reversed.pop() {
            assert(row == turned[reversed@.len() as int]);
            out.push(row);
        }
    }
    assert(message_rows(out@) =~= all_backfilled(message_rows(rows@)));
    out
}

/// Put the summary of a row behind newer ones, in front of the older listing.
fn push_summary(
    out: &mut Vec<MessageSummary>,
    row: &MessageRow,
    Ghost(older): Ghost<Result<Seq<SummaryView>, StoreFault>>,
) -> (r: Result<(), StoreError>)
    ensures
        match r {
            Ok(()) => summary(row@) matches Ok(new) && {
                &&& summary_views(final(out)@) == summary_views(old(out)@).push(new)
                &&& in_front(summary_views(final(out)@), older) == in_front(
                    summary_views(old(out)@),
                    in_front(seq![new], older),
                )
            },
            Err(error) => summary(row@) == Err::<SummaryView, StoreFault>(error@),
        },
{
    match row_callsigns(row) {
        Ok((sender, recipient)) => {
            let ghost before = summary_views(out@);
            let new: MessageSummary = MessageSummary {
                id: row.id,
                sender,
                recipient,
                subject: row.subject.clone(),
                created_at: row.created_at.clone(),
            };
            let ghost view = new@;
            out.push(new);
            proof {
                assert(summary_views(out@) =~= before.push(view));
                if let Ok(older) = older {
                    assert(before + (seq![view] + older) =~= before.push(view) + older);
                }
            }
            Ok(())
        },
        Err(error) => Err(error),
    }
}

proof fn lemma_row_index(rows: Seq<MessageRowView>, id: i64, k: int)
    requires
        messages_ascend(rows),
        0 <= k < rows.len(),
        rows[k].id == id,
    ensures
        row_index(rows, id) == k,
    decreases rows.len(),
{
    if k > 0 {
        assert(rows[0].id < rows[k].id);
        let rest = rows.drop_first();
        assert forall|i: int, j: int| 0 <= i < j < rest.len() implies (#[trigger] rest[i]).id < (
        #[trigger] rest[j]).id by {
            assert(rows[i + 1].id < rows[j + 1].id);
        }
        lemma_row_index(rest, id, k - 1);
    }
}

proof fn lemma_row_index_bounds(rows: Seq<MessageRowView>, id: i64)
    ensures
        0 <= row_index(rows, id) <= rows.len(),
        forall|i: int| 0 <= i < row_index(rows, id) ==> (#[trigger] rows[i]).id != id,
        row_index(rows, id) < rows.len() ==> rows[row_index(rows, id)].id == id,
    decreases rows.len(),
{
    if rows.len() != 0 && rows[0].id != id {
        let rest = rows.drop_first();
        lemma_row_index_bounds(rest, id);
        assert forall|i: int| 0 <= i < row_index(rows, id) implies (#[trigger] rows[i]).id != id by {
            if i > 0 {
                assert(rest[i - 1] == rows[i]);
            }
        }
    }
}

/// An identifier is given to one message only: the next one is above all that
/// are in use.
pub proof fn law_identifiers_are_fresh(rows: Seq<MessageRowView>)
    requires
        messages_ascend(rows),
    ensures
        next_message_id(rows) matches Some(id) ==> forall|i: int|
            0 <= i < rows.len() ==> (#[trigger] rows[i]).id < id,
{
    if rows.len() > 0 {
        assert forall|i: int| 0 <= i < rows.len() implies (#[trigger] rows[i]).id
            <= rows.last().id by {
            if i < rows.len() - 1 {
                assert(rows[i].id < rows[rows.len() - 1].id);
            }
        }
    }
}

/// What was saved reads back as it was written: to everybody where it is public,
/// and otherwise to the recipient's base callsign with any SSID.
pub proof fn law_saved_message_reads_back(
    rows: Seq<MessageRowView>,
    sender: Seq<char>,
    recipient: Option<Seq<char>>,
    subject: Seq<char>,
    body: Seq<char>,
    created_at: Seq<char>,
    viewer: Seq<char>,
)
    requires
        messages_ascend(rows),
        next_message_id(rows) is Some,
        is_callsign(sender),
        recipient matches Some(to) ==> is_callsign(to),
        recipient matches Some(to) ==> base_of(to) == base_of(viewer),
    ensures
        ({
            let id = next_message_id(rows)->0;
            let after = rows.push(
                new_message(id, sender, recipient, subject, body, created_at),
            );
            readable(after, base_of(viewer), id) == Ok::<Option<MessageView>, StoreFault>(
                Some(MessageView { id, sender, recipient, subject, body, created_at }),
            )
        }),
{
    let id = next_message_id(rows)->0;
    let row = new_message(id, sender, recipient, subject, body, created_at);
    let after = rows.push(row);
    law_identifiers_are_fresh(rows);
    assert forall|i: int, j: int| 0 <= i < j < after.len() implies (#[trigger] after[i]).id < (
    #[trigger] after[j]).id by {
        if j < rows.len() {
            assert(rows[i].id < rows[j].id);
        } else {
            assert(after[i] == rows[i]);
        }
    }
    lemma_row_index(after, id, rows.len() as int);
    law_callsign_reads_back(sender);
    if let Some(to) = recipient {
        law_callsign_reads_back(to);
    }
}

/// A row that is not in the listing's scope is not in the listing.
proof fn lemma_listed_in_scope(rows: Seq<MessageRowView>, scope: Scope, k: int)
    requires
        listed(rows, scope) is Ok,
        0 <= k < listed(rows, scope)->Ok_0.len(),
    ensures
        exists|i: int|
            0 <= i < rows.len() && in_scope(#[trigger] rows[i], scope) && summary(rows[i]) == Ok::<
                SummaryView,
                StoreFault,
            >(listed(rows, scope)->Ok_0[k]),
    decreases rows.len(),
{
    let front = rows.drop_last();
    if in_scope(rows.last(), scope) {
        if k == 0 {
            assert(in_scope(rows[rows.len() - 1], scope));
        } else {
            lemma_listed_in_scope(front, scope, k - 1);
            let i = choose|i: int|
                0 <= i < front.len() && in_scope(#[trigger] front[i], scope) && summary(front[i])
                    == Ok::<SummaryView, StoreFault>(listed(front, scope)->Ok_0[k - 1]);
            assert(in_scope(rows[i], scope));
        }
    } else {
        lemma_listed_in_scope(front, scope, k);
        let i = choose|i: int|
            0 <= i < front.len() && in_scope(#[trigger] front[i], scope) && summary(front[i])
                == Ok::<SummaryView, StoreFault>(listed(front, scope)->Ok_0[k]);
        assert(in_scope(rows[i], scope));
    }
}

/// Private mail is for its recipient: nobody else can read it or finds it in a
/// listing of what they may see.
pub proof fn law_private_mail_stays_private(
    rows: Seq<MessageRowView>,
    index: int,
    viewer: Seq<char>,
    k: int,
)
    requires
        messages_ascend(rows),
        0 <= index < rows.len(),
        !rows[index].is_public,
        rows[index].recipient_base != Some(base_of(viewer)),
    ensures
        readable(rows, base_of(viewer), rows[index].id) == Ok::<Option<MessageView>, StoreFault>(
            None,
        ),
        listed(rows, Scope::Visible(base_of(viewer))) matches Ok(list) ==> (0 <= k < list.len()
            ==> list[k].id != rows[index].id),
{
    lemma_row_index(rows, rows[index].id, index);
    let scope = Scope::Visible(base_of(viewer));
    if listed(rows, scope) is Ok && 0 <= k < listed(rows, scope)->Ok_0.len() {
        let list = listed(rows, scope)->Ok_0;
        lemma_listed_in_scope(rows, scope, k);
        let i = choose|i: int|
            0 <= i < rows.len() && in_scope(#[trigger] rows[i], scope) && summary(rows[i]) == Ok::<
                SummaryView,
                StoreFault,
            >(list[k]);
        assert(i != index);
        if i < index {
            assert(rows[i].id < rows[index].id);
        } else {
            assert(rows[index].id < rows[i].id);
        }
    }
}

/// A row in the listing's scope is in the listing, if the listing succeeds.
proof fn lemma_in_scope_listed(rows: Seq<MessageRowView>, scope: Scope, i: int)
    requires
        listed(rows, scope) is Ok,
        0 <= i < rows.len(),
        in_scope(rows[i], scope),
    ensures
        summary(rows[i]) matches Ok(s) && listed(rows, scope)->Ok_0.contains(s),
    decreases rows.len(),
{
    let list = listed(rows, scope)->Ok_0;
    let front = rows.drop_last();
    if i == rows.len() - 1 {
        assert(list[0] == summary(rows[i])->Ok_0);
    } else {
        assert(front[i] == rows[i]);
        lemma_in_scope_listed(front, scope, i);
        let older = listed(front, scope)->Ok_0;
        let s = summary(rows[i])->Ok_0;
        let k = choose|k: int| 0 <= k < older.len() && older[k] == s;
        if in_scope(rows.last(), scope) {
            assert(list[k + 1] == s);
        } else {
            assert(list[k] == s);
        }
    }
}

/// A caller can read exactly what a listing shows: the listing of visible
/// messages holds an identifier if and only if reading it gives a message.
pub proof fn law_listing_agrees_with_reading(
    rows: Seq<MessageRowView>,
    viewer: Seq<char>,
    id: i64,
)
    requires
        messages_ascend(rows),
        listed(rows, Scope::Visible(base_of(viewer))) is Ok,
    ensures
        (exists|k: int|
            0 <= k < listed(rows, Scope::Visible(base_of(viewer)))->Ok_0.len() && (
            #[trigger] listed(rows, Scope::Visible(base_of(viewer)))->Ok_0[k]).id == id) <==> (
        readable(rows, base_of(viewer), id) matches Ok(Some(_))),
{
    let scope = Scope::Visible(base_of(viewer));
    let list = listed(rows, scope)->Ok_0;
    lemma_row_index_bounds(rows, id);
    let n = row_index(rows, id);
    if exists|k: int| 0 <= k < list.len() && (#[trigger] list[k]).id == id {
        let k = choose|k: int| 0 <= k < list.len() && (#[trigger] list[k]).id == id;
        lemma_listed_in_scope(rows, scope, k);
        let i = choose|i: int|
            0 <= i < rows.len() && in_scope(#[trigger] rows[i], scope) && summary(rows[i]) == Ok::<
                SummaryView,
                StoreFault,
            >(list[k]);
        lemma_row_index(rows, id, i);
    }
    if readable(rows, base_of(viewer), id) matches Ok(Some(_)) {
        lemma_in_scope_listed(rows, scope, n);
        let s = summary(rows[n])->Ok_0;
        let k = choose|k: int| 0 <= k < list.len() && list[k] == s;
        assert(list[k].id == id);
    }
}

/// The newest messages come first.
pub proof fn law_listing_is_newest_first(
    rows: Seq<MessageRowView>,
    scope: Scope,
    i: int,
    j: int,
)
    requires
        messages_ascend(rows),
        listed(rows, scope) is Ok,
        0 <= i < j < listed(rows, scope)->Ok_0.len(),
    ensures
        listed(rows, scope)->Ok_0[i].id > listed(rows, scope)->Ok_0[j].id,
    decreases rows.len(),
{
    let front = rows.drop_last();
    assert forall|a: int, b: int| 0 <= a < b < front.len() implies (#[trigger] front[a]).id < (
    #[trigger] front[b]).id by {
        assert(rows[a].id < rows[b].id);
    }
    if in_scope(rows.last(), scope) {
        if i == 0 {
            lemma_listed_in_scope(front, scope, j - 1);
            let older = listed(front, scope)->Ok_0;
            let x = choose|x: int|
                0 <= x < front.len() && in_scope(#[trigger] front[x], scope) && summary(front[x])
                    == Ok::<SummaryView, StoreFault>(older[j - 1]);
            assert(rows[x].id < rows[rows.len() - 1].id);
        } else {
            law_listing_is_newest_first(front, scope, i - 1, j - 1);
        }
    } else {
        law_listing_is_newest_first(front, scope, i, j);
    }
}

/// Mailbox access ignores the SSID: callers with one base callsign see, have sent
/// and may delete the same messages.
pub proof fn law_ssid_is_ignored(rows: Seq<MessageRowView>, a: Seq<char>, b: Seq<char>, id: i64)
    requires
        base_of(a) == base_of(b),
    ensures
        listed(rows, Scope::Visible(base_of(a))) == listed(rows, Scope::Visible(base_of(b))),
        listed(rows, Scope::Sent(base_of(a))) == listed(rows, Scope::Sent(base_of(b))),
        readable(rows, base_of(a), id) == readable(rows, base_of(b), id),
        without(rows, base_of(a), id) == without(rows, base_of(b), id),
{
}

/// A message that was deleted is gone for everybody, and every other message is
/// as it was; a request by anybody who may not delete it changes nothing.
pub proof fn law_delete_removes_only_its_message(
    rows: Seq<MessageRowView>,
    caller: Seq<char>,
    id: i64,
    viewer: Seq<char>,
    other: i64,
)
    requires
        messages_ascend(rows),
        other != id,
    ensures
        ({
            let after = without(rows, base_of(caller), id);
            &&& messages_ascend(after)
            &&& deletable(rows, base_of(caller), id) ==> readable(after, base_of(viewer), id)
                == Ok::<Option<MessageView>, StoreFault>(None)
            &&& !deletable(rows, base_of(caller), id) ==> after == rows
            &&& readable(after, base_of(viewer), other) == readable(rows, base_of(viewer), other)
            &&& deletable(after, base_of(viewer), other) == deletable(rows, base_of(viewer), other)
        }),
{
    let after = without(rows, base_of(caller), id);
    if deletable(rows, base_of(caller), id) {
        lemma_row_index_bounds(rows, id);
        let k = row_index(rows, id);
        assert forall|a: int, b: int| 0 <= a < b < after.len() implies (#[trigger] after[a]).id < (
        #[trigger] after[b]).id by {
            let x = if a < k {
                a
            } else {
                a + 1
            };
            let y = if b < k {
                b
            } else {
                b + 1
            };
            assert(rows[x].id < rows[y].id);
        }
        lemma_row_index_bounds(after, id);
        let n = row_index(after, id);
        if n < after.len() {
            if n < k {
                assert(after[n] == rows[n]);
                assert(rows[n].id < rows[k].id);
            } else {
                assert(after[n] == rows[n + 1]);
                assert(rows[k].id < rows[n + 1].id);
            }
        }
        lemma_row_index_bounds(rows, other);
        lemma_row_index_bounds(after, other);
        let m = row_index(rows, other);
        let x = if m < k {
            m
        } else {
            m - 1
        };
        if m < rows.len() {
            assert(m != k);
            assert(after[x] == rows[m]);
            lemma_row_index(after, other, x);
        } else {
            let y = row_index(after, other);
            if y < after.len() {
                if y < k {
                    assert(rows[y].id == other);
                } else {
                    assert(rows[y + 1].id == other);
                }
            }
        }
    }
}

/// A public post can be deleted by its sender alone; private mail by its sender
/// and its recipient.
pub proof fn law_who_may_delete(
    id: i64,
    sender: Seq<char>,
    recipient: Option<Seq<char>>,
    subject: Seq<char>,
    body: Seq<char>,
    created_at: Seq<char>,
    caller: Seq<char>,
)
    ensures
        may_delete(
            new_message(id, sender, recipient, subject, body, created_at),
            base_of(caller),
        ) <==> base_of(caller) == base_of(sender) || (recipient matches Some(to) && base_of(caller)
            == base_of(to)),
{
}

/// Filling in base callsigns is repeatable: a second time changes nothing. It
/// gives old rows what new rows have, and touches nothing else.
pub proof fn law_migration_is_repeatable(rows: Seq<MessageRowView>, i: int)
    requires
        0 <= i < rows.len(),
    ensures
        all_backfilled(all_backfilled(rows)) == all_backfilled(rows),
        all_backfilled(rows)[i].sender_base is Some,
        rows[i].sender_base is None && rows[i].recipient_base is None && rows[i].is_public == (
        rows[i].recipient is None) ==> all_backfilled(rows)[i] == new_message(
            rows[i].id,
            rows[i].sender,
            rows[i].recipient,
            rows[i].subject,
            rows[i].body,
            rows[i].created_at,
        ),
        full_message(all_backfilled(rows)[i]) == full_message(rows[i]),
{
    let once = all_backfilled(rows);
    assert forall|k: int| 0 <= k < rows.len() implies backfilled(#[trigger] once[k]) == once[k] by {}
    assert(all_backfilled(once) =~= once);
}

/// A recorded login is the first of the recent ones, with those before it behind
/// it in their order.
pub proof fn law_recorded_login_is_most_recent(
    rows: Seq<LoginRowView>,
    callsign: Seq<char>,
    transport: LoginTransport,
    at: Seq<char>,
    limit: nat,
)
    requires
        next_login_id(rows) is Some,
        is_callsign(callsign),
        limit > 0,
    ensures
        ({
            let after = rows.push(
                LoginRowView {
                    id: next_login_id(rows)->0,
                    callsign,
                    transport: transport_name(transport),
                    logged_in_at: at,
                },
            );
            newest_logins(after, limit) == (match newest_logins(rows, (limit - 1) as nat) {
                Ok(older) => Ok(
                    seq![LoginView { callsign, transport, logged_in_at: at }] + older,
                ),
                Err(fault) => Err(fault),
            })
        }),
{
    law_callsign_reads_back(callsign);
    law_transport_reads_back(transport);
    let row = LoginRowView {
        id: next_login_id(rows)->0,
        callsign,
        transport: transport_name(transport),
        logged_in_at: at,
    };
    assert(rows.push(row).drop_last() =~= rows);
}

/// No more logins are listed than were asked for, nor than there are.
pub proof fn law_recent_logins_are_limited(rows: Seq<LoginRowView>, limit: nat)
    ensures
        newest_logins(rows, limit) matches Ok(list) ==> list.len() == (if rows.len() < limit {
            rows.len()
        } else {
            limit
        }),
    decreases rows.len(),
{
    if rows.len() != 0 && limit != 0 {
        law_recent_logins_are_limited(rows.drop_last(), (limit - 1) as nat);
    }
}

/// A login row reads back as what was recorded: with the name of a transport and
/// the text of a callsign it is shown as that callsign, that transport and that
/// time. Any other row is not shown.
pub proof fn law_login_row_reads_back(row: LoginRowView, transport: LoginTransport)
    ensures
        row.transport == transport_name(transport) && parsed(row.callsign) is Ok ==> login(row)
            == Ok::<LoginView, StoreFault>(
            LoginView {
                callsign: parsed(row.callsign)->Ok_0,
                transport,
                logged_in_at: row.logged_in_at,
            },
        ),
        (forall|t: LoginTransport| row.transport != #[trigger] transport_name(t)) || parsed(
            row.callsign,
        ) is Err ==> login(row) is Err,
{
    law_transport_reads_back(transport);
    if let Some(t) = transport_named(row.transport) {
        assert(row.transport == transport_name(t));
    }
}

/// The recorded name of a transport stands for that transport.
pub proof fn law_transport_reads_back(transport: LoginTransport)
    ensures
        transport_named(transport_name(transport)) == Some(transport),
{
    reveal_strlit("TCP");
    reveal_strlit("AX.25");
    reveal_strlit("MERCURY");
    assert("TCP"@.len() == 3);
    assert("AX.25"@.len() == 5);
    assert("MERCURY"@.len() == 7);
}

/// A message that was saved heads the listings that it belongs in, with every
/// field as it was saved and the full callsigns: that of the recipient's base
/// callsign, or of everybody where it is public, and that of what the sender's
/// base callsign has sent. All other listings stay as they were.
pub proof fn law_saved_message_is_listed(
    rows: Seq<MessageRowView>,
    sender: Seq<char>,
    recipient: Option<Seq<char>>,
    subject: Seq<char>,
    body: Seq<char>,
    created_at: Seq<char>,
    caller: Seq<char>,
)
    requires
        next_message_id(rows) is Some,
        is_callsign(sender),
        recipient matches Some(to) ==> is_callsign(to),
    ensures
        ({
            let id = next_message_id(rows)->0;
            let after = rows.push(
                new_message(id, sender, recipient, subject, body, created_at),
            );
            let mine = recipient is None || base_of(recipient->0) == base_of(caller);
            let entry = SummaryView { id, sender, recipient, subject, created_at };
            let seen = listed(rows, Scope::Visible(base_of(caller)));
            let sent = listed(rows, Scope::Sent(base_of(caller)));
            &&& listed(after, Scope::Visible(base_of(caller))) == (if mine {
                match seen {
                    Ok(older) => Ok(seq![entry] + older),
                    Err(fault) => Err(fault),
                }
            } else {
                seen
            })
            &&& listed(after, Scope::Sent(base_of(caller))) == (if base_of(sender) == base_of(
                caller,
            ) {
                match sent {
                    Ok(older) => Ok(seq![entry] + older),
                    Err(fault) => Err(fault),
                }
            } else {
                sent
            })
        }),
{
    let id = next_message_id(rows)->0;
    let row = new_message(id, sender, recipient, subject, body, created_at);
    assert(rows.push(row).drop_last() =~= rows);
    law_callsign_reads_back(sender);
    if let Some(to) = recipient {
        law_callsign_reads_back(to);
    }
}

/// Saving a message leaves every other message as it was, and nobody but those
/// it is for can read it.
pub proof fn law_saving_changes_no_other_message(
    rows: Seq<MessageRowView>,
    sender: Seq<char>,
    recipient: Option<Seq<char>>,
    subject: Seq<char>,
    body: Seq<char>,
    created_at: Seq<char>,
    viewer: Seq<char>,
    other: i64,
)
    requires
        messages_ascend(rows),
        next_message_id(rows) is Some,
        other != next_message_id(rows)->0,
    ensures
        ({
            let id = next_message_id(rows)->0;
            let after = rows.push(
                new_message(id, sender, recipient, subject, body, created_at),
            );
            &&& messages_ascend(after)
            &&& readable(after, base_of(viewer), other) == readable(rows, base_of(viewer), other)
            &&& deletable(after, base_of(viewer), other) == deletable(rows, base_of(viewer), other)
            &&& recipient is Some && base_of(recipient->0) != base_of(viewer) ==> readable(
                after,
                base_of(viewer),
                id,
            ) == Ok::<Option<MessageView>, StoreFault>(None)
            &&& deletable(after, base_of(viewer), id) <==> base_of(viewer) == base_of(sender) || (
            recipient is Some && base_of(viewer) == base_of(recipient->0))
        }),
{
    let id = next_message_id(rows)->0;
    let row = new_message(id, sender, recipient, subject, body, created_at);
    let after = rows.push(row);
    law_identifiers_are_fresh(rows);
    assert forall|i: int, j: int| 0 <= i < j < after.len() implies (#[trigger] after[i]).id < (
    #[trigger] after[j]).id by {
        assert(rows[i].id < id);
        if j < rows.len() {
            assert(rows[i].id < rows[j].id);
        }
    }
    assert(after[rows.len() as int] == row);
    lemma_row_index(after, id, rows.len() as int);
    lemma_row_index_bounds(rows, other);
    lemma_row_index_bounds(after, other);
    let k = row_index(rows, other);
    if k < rows.len() {
        assert(after[k] == rows[k]);
        lemma_row_index(after, other, k);
    } else {
        let m = row_index(after, other);
        if m < after.len() {
            assert(after[m].id == other);
            assert(m < rows.len());
            assert(rows[m].id == other);
        }
    }
}

/// Reading gives a row as it is kept: its identifier, subject, body and time, and
/// its callsigns as they were written, in upper case.
pub proof fn law_rows_are_read_as_they_are_kept(row: MessageRowView)
    ensures
        full_message(row) matches Ok(m) ==> {
            &&& m.id == row.id && m.subject == row.subject
            &&& m.body == row.body && m.created_at == row.created_at
            &&& parsed(row.sender) == Ok::<Seq<char>, CallsignFault>(m.sender)
            &&& is_callsign(row.sender) ==> m.sender == row.sender
            &&& m.recipient is Some <==> row.recipient is Some
            &&& row.recipient is Some ==> parsed(row.recipient->0) == Ok::<
                Seq<char>,
                CallsignFault,
            >(m.recipient->0)
            &&& row.recipient matches Some(to) ==> (is_callsign(to) ==> m.recipient == Some(to))
        },
        summary(row) matches Ok(m) ==> {
            &&& m.id == row.id && m.subject == row.subject && m.created_at == row.created_at
            &&& parsed(row.sender) == Ok::<Seq<char>, CallsignFault>(m.sender)
            &&& is_callsign(row.sender) ==> m.sender == row.sender
            &&& m.recipient is Some <==> row.recipient is Some
            &&& row.recipient is Some ==> parsed(row.recipient->0) == Ok::<
                Seq<char>,
                CallsignFault,
            >(m.recipient->0)
            &&& row.recipient matches Some(to) ==> (is_callsign(to) ==> m.recipient == Some(to))
        },
        full_message(row) is Ok <==> parsed(row.sender) is Ok && (row.recipient is Some
            ==> parsed(row.recipient->0) is Ok),
        summary(row) is Ok <==> full_message(row) is Ok,
{
    if is_callsign(row.sender) {
        law_callsign_reads_back(row.sender);
    }
    if let Some(to) = row.recipient {
        if is_callsign(to) {
            law_callsign_reads_back(to);
        }
    }
}

/// What a caller may see, has sent and may delete is decided by the base
/// callsigns that are kept with a message, and by nothing else of it.
pub proof fn law_mailboxes_go_by_base_callsigns(row: MessageRowView, caller: Seq<char>, id: i64)
    ensures
        ({
            let to_me = row.recipient_base == Some(base_of(caller));
            let by_me = row.sender_base == Some(base_of(caller));
            let only = seq![row];
            &&& readable(only, base_of(caller), id) == (if id == row.id && (row.is_public
                || to_me) {
                match full_message(row) {
                    Ok(message) => Ok(Some(message)),
                    Err(fault) => Err(fault),
                }
            } else {
                Ok(None)
            })
            &&& deletable(only, base_of(caller), id) <==> id == row.id && (by_me || to_me)
            &&& without(only, base_of(caller), id) == (if id == row.id && (by_me || to_me) {
                Seq::<MessageRowView>::empty()
            } else {
                only
            })
            &&& listed(only, Scope::Visible(base_of(caller))) == (if row.is_public || to_me {
                match summary(row) {
                    Ok(entry) => Ok(seq![entry]),
                    Err(fault) => Err(fault),
                }
            } else {
                Ok(Seq::empty())
            })
            &&& listed(only, Scope::Sent(base_of(caller))) == (if by_me {
                match summary(row) {
                    Ok(entry) => Ok(seq![entry]),
                    Err(fault) => Err(fault),
                }
            } else {
                Ok(Seq::empty())
            })
        }),
{
    let only = seq![row];
    assert(only.drop_last() =~= Seq::<MessageRowView>::empty());
    assert(only.drop_first() =~= Seq::<MessageRowView>::empty());
    assert(only.last() == row);
    assert(row_index(only.drop_first(), id) == 0);
    assert(only.remove(0) =~= Seq::<MessageRowView>::empty());
    let seen = Scope::Visible(base_of(caller));
    let sent = Scope::Sent(base_of(caller));
    assert(listed(only.drop_last(), seen) == Ok::<Seq<SummaryView>, StoreFault>(Seq::empty()));
    assert(listed(only.drop_last(), sent) == Ok::<Seq<SummaryView>, StoreFault>(Seq::empty()));
    if let Ok(entry) = summary(row) {
        assert(seq![entry] + Seq::<SummaryView>::empty() =~= seq![entry]);
    }
}

/// A listing of more rows is the listing of the older ones with that of the
/// newest in front, where the newest belongs there.
pub proof fn law_listings_grow_at_the_front(
    rows: Seq<MessageRowView>,
    row: MessageRowView,
    scope: Scope,
)
    ensures
        listed(seq![row], scope) == Ok::<Seq<SummaryView>, StoreFault>(Seq::empty()) ==> listed(
            rows.push(row),
            scope,
        ) == listed(rows, scope),
        listed(seq![row], scope) is Err ==> listed(rows.push(row), scope) == listed(
            seq![row],
            scope,
        ),
        listed(seq![row], scope) matches Ok(newest) ==> (listed(rows, scope) matches Ok(older)
            ==> listed(rows.push(row), scope) == Ok::<Seq<SummaryView>, StoreFault>(
            newest + older,
        )),
        listed(seq![row], scope) is Ok && listed(rows, scope) is Err ==> listed(
            rows.push(row),
            scope,
        ) == listed(rows, scope),
{
    let only = seq![row];
    assert(rows.push(row).drop_last() =~= rows);
    assert(only.drop_last() =~= Seq::<MessageRowView>::empty());
    assert(only.last() == row);
    assert(listed(only.drop_last(), scope) == Ok::<Seq<SummaryView>, StoreFault>(Seq::empty()));
    if let Ok(entry) = summary(row) {
        assert(seq![entry] + Seq::<SummaryView>::empty() =~= seq![entry]);
        assert(seq![entry].len() == 1);
        if let Ok(older) = listed(rows, scope) {
            assert(Seq::<SummaryView>::empty() + older =~= older);
        }
    } else if let Ok(older) = listed(rows, scope) {
        assert(Seq::<SummaryView>::empty() + older =~= older);
    }
}

/// The first row of a table has the identifier one, and each further row the next
/// above the last, as long as there is one.
pub proof fn law_identifiers_count_up(
    messages: Seq<MessageRowView>,
    logins: Seq<LoginRowView>,
)
    ensures
        messages.len() == 0 ==> next_message_id(messages) == Some(1i64),
        messages.len() > 0 ==> (next_message_id(messages) is Some <==> messages.last().id
            < 0x7fff_ffff_ffff_ffff),
        messages.len() > 0 && next_message_id(messages) is Some ==> next_message_id(messages)->0
            == messages.last().id + 1,
        logins.len() == 0 ==> next_login_id(logins) == Some(1i64),
        logins.len() > 0 ==> (next_login_id(logins) is Some <==> logins.last().id
            < 0x7fff_ffff_ffff_ffff),
        logins.len() > 0 && next_login_id(logins) is Some ==> next_login_id(logins)->0
            == logins.last().id + 1,
{
}

/// An old row is given the base callsigns of its own callsigns where it has none;
/// those that it has stay, and so does everything else of it.
pub proof fn law_old_rows_are_completed(rows: Seq<MessageRowView>, i: int)
    requires
        0 <= i < rows.len(),
    ensures
        ({
            let old = rows[i];
            let new = all_backfilled(rows)[i];
            &&& all_backfilled(rows).len() == rows.len()
            &&& new.sender_base == Some(
                if old.sender_base is Some {
                    old.sender_base->0
                } else {
                    base_of(old.sender)
                },
            )
            &&& old.recipient_base is Some ==> new.recipient_base == old.recipient_base
            &&& old.recipient_base is None && old.recipient is Some ==> new.recipient_base == Some(
                base_of(old.recipient->0),
            )
            &&& old.recipient_base is None && old.recipient is None ==> new.recipient_base is None
            &&& new.id == old.id && new.sender == old.sender && new.recipient == old.recipient
            &&& new.is_public == old.is_public && new.subject == old.subject
            &&& new.body == old.body && new.created_at == old.created_at
        }),
{
}

/// The recent logins are the last that were recorded, from the last on.
pub proof fn law_recent_logins_are_the_last(rows: Seq<LoginRowView>, limit: nat, i: int)
    requires
        newest_logins(rows, limit) is Ok,
        0 <= i < newest_logins(rows, limit)->Ok_0.len(),
    ensures
        i < rows.len(),
        login(rows[rows.len() - 1 - i]) == Ok::<LoginView, StoreFault>(
            newest_logins(rows, limit)->Ok_0[i],
        ),
    decreases rows.len(),
{
    if i > 0 {
        let front = rows.drop_last();
        let fewer = (limit - 1) as nat;
        assert(newest_logins(rows, limit)->Ok_0[i] == newest_logins(front, fewer)->Ok_0[i - 1]);
        law_recent_logins_are_the_last(front, fewer, i - 1);
        assert(front[front.len() - 1 - (i - 1)] == rows[rows.len() - 1 - i]);
    }
}

/// What is handed over as a mathematical value is what a message, a login or a
/// row holds, field by field.
pub proof fn law_values_are_what_is_held(
    s: MessageSummary,
    m: Message,
    l: LoginRecord,
    r: MessageRow,
    k: LoginRow,
)
    ensures
        s@.id == s.id && s@.sender == s.sender@ && s@.subject == s.subject@,
        s@.created_at == s.created_at@,
        s.recipient matches Some(to) ==> s@.recipient == Some(to@),
        s.recipient is None ==> s@.recipient is None,
        m@.id == m.id && m@.sender == m.sender@ && m@.subject == m.subject@,
        m@.body == m.body@ && m@.created_at == m.created_at@,
        m.recipient matches Some(to) ==> m@.recipient == Some(to@),
        m.recipient is None ==> m@.recipient is None,
        l@.callsign == l.callsign@ && l@.transport == l.transport,
        l@.logged_in_at == l.logged_in_at@,
        r@.id == r.id && r@.sender == r.sender@ && r@.is_public == r.is_public,
        r@.subject == r.subject@ && r@.body == r.body@ && r@.created_at == r.created_at@,
        r.sender_base matches Some(base) ==> r@.sender_base == Some(base@),
        r.sender_base is None ==> r@.sender_base is None,
        r.recipient matches Some(to) ==> r@.recipient == Some(to@),
        r.recipient is None ==> r@.recipient is None,
        r.recipient_base matches Some(base) ==> r@.recipient_base == Some(base@),
        r.recipient_base is None ==> r@.recipient_base is None,
        k@.id == k.id && k@.callsign == k.callsign@ && k@.transport == k.transport@,
        k@.logged_in_at == k.logged_in_at@,
{
}

/// Lists are handed over with every item in its place.
pub proof fn law_lists_are_what_is_held(
    summaries: Seq<MessageSummary>,
    logins: Seq<LoginRecord>,
    messages: Seq<MessageRow>,
    rows: Seq<LoginRow>,
    i: int,
)
    ensures
        summary_views(summaries).len() == summaries.len(),
        0 <= i < summaries.len() ==> summary_views(summaries)[i] == summaries[i]@,
        login_views(logins).len() == logins.len(),
        0 <= i < logins.len() ==> login_views(logins)[i] == logins[i]@,
        message_rows(messages).len() == messages.len(),
        0 <= i < messages.len() ==> message_rows(messages)[i] == messages[i]@,
        login_rows(rows).len() == rows.len(),
        0 <= i < rows.len() ==> login_rows(rows)[i] == rows[i]@,
{
}

/// A database is given the columns that its message table lacks, and a login
/// table that admits Mercury where its own does not name it; nothing else.
pub proof fn law_databases_are_given_what_they_lack(columns: Seq<Seq<char>>, logins: Seq<char>)
    ensures
        ({
            let needed = migration_needed(columns, logins);
            &&& needed.add_sender_base <==> forall|i: int|
                0 <= i < columns.len() ==> #[trigger] columns[i] != "sender_base_callsign"@
            &&& needed.add_recipient_base <==> forall|i: int|
                0 <= i < columns.len() ==> #[trigger] columns[i] != "recipient_base_callsign"@
            &&& needed.admit_mercury <==> !exists|front: Seq<char>, back: Seq<char>|
                logins == #[trigger] (front + "'MERCURY'"@ + back)
        }),
{
    let needed = migration_needed(columns, logins);
    if needed.add_sender_base {
        assert forall|i: int| 0 <= i < columns.len() implies #[trigger] columns[i]
            != "sender_base_callsign"@ by {
            assert(columns.contains(columns[i]));
        }
    }
    if needed.add_recipient_base {
        assert forall|i: int| 0 <= i < columns.len() implies #[trigger] columns[i]
            != "recipient_base_callsign"@ by {
            assert(columns.contains(columns[i]));
        }
    }
    crate::text::law_occurrence(logins, Seq::empty(), "'MERCURY'"@, Seq::empty());
    if needed.admit_mercury {
        assert forall|front: Seq<char>, back: Seq<char>| logins != #[trigger] (front
            + "'MERCURY'"@ + back) by {
            crate::text::law_occurrence(logins, front, "'MERCURY'"@, back);
        }
    }
}

/// What the store answers is handed over as it is held: every item of a list, a
/// message that was found, and the reason where it cannot answer.
pub proof fn law_answers_are_what_is_held(
    summaries: Vec<MessageSummary>,
    message: Message,
    logins: Vec<LoginRecord>,
    error: StoreError,
    name: String,
    fault: CallsignError,
)
    ensures
        listing_outcome(Ok(summaries)) == Ok::<Seq<SummaryView>, StoreFault>(
            Seq::new(summaries@.len(), |i: int| summaries@[i]@),
        ),
        listing_outcome(Err(error)) == Err::<Seq<SummaryView>, StoreFault>(error@),
        reading_outcome(Ok(Some(message))) == Ok::<Option<MessageView>, StoreFault>(
            Some(message@),
        ),
        reading_outcome(Ok(None)) == Ok::<Option<MessageView>, StoreFault>(None),
        reading_outcome(Err(error)) == Err::<Option<MessageView>, StoreFault>(error@),
        logins_outcome(Ok(logins)) == Ok::<Seq<LoginView>, StoreFault>(
            Seq::new(logins@.len(), |i: int| logins@[i]@),
        ),
        logins_outcome(Err(error)) == Err::<Seq<LoginView>, StoreFault>(error@),
        StoreError::InvalidTransport(name)@ == StoreFault::InvalidTransport(name@),
        StoreError::InvalidCallsign(fault)@ == StoreFault::InvalidCallsign(fault@),
        StoreError::Unordered@ == StoreFault::Unordered,
        StoreError::IdsExhausted@ == StoreFault::IdsExhausted,
        optional_text(Some(name)) == Some(name@),
        optional_text(None::<String>) is None,
{
}

/// Saving puts one row behind all others, with every field as it was given, the
/// base callsigns beside the callsigns, and public where there is no recipient.
/// Recording a login puts one row behind all others likewise. Each leaves the
/// other table and all earlier rows alone, and fails only without an identifier.
pub proof fn law_what_is_given_is_kept(
    s: StoreView,
    callsign: Seq<char>,
    recipient: Option<Seq<char>>,
    subject: Seq<char>,
    body: Seq<char>,
    at: Seq<char>,
    transport: LoginTransport,
)
    ensures
        ({
            let (after, result) = saved(s, callsign, recipient, subject, body, at);
            let row = after.messages.last();
            &&& result is Ok <==> next_message_id(s.messages) is Some
            &&& after.logins == s.logins
            &&& result is Err ==> after == s
            &&& result matches Ok(id) ==> {
                &&& after.messages.len() == s.messages.len() + 1
                &&& after.messages.drop_last() == s.messages
                &&& row.id == id && Some(id) == next_message_id(s.messages)
                &&& row.sender == callsign && row.sender_base == Some(base_of(callsign))
                &&& row.recipient == recipient && row.is_public == (recipient is None)
                &&& recipient is Some ==> row.recipient_base == Some(base_of(recipient->0))
                &&& recipient is None ==> row.recipient_base is None
                &&& row.subject == subject && row.body == body && row.created_at == at
            }
        }),
        ({
            let (after, result) = login_recorded(s, callsign, transport, at);
            let row = after.logins.last();
            &&& result is Ok <==> next_login_id(s.logins) is Some
            &&& after.messages == s.messages
            &&& result is Err ==> after == s
            &&& result is Ok ==> {
                &&& after.logins.len() == s.logins.len() + 1
                &&& after.logins.drop_last() == s.logins
                &&& Some(row.id) == next_login_id(s.logins)
                &&& row.callsign == callsign && row.logged_in_at == at
                &&& row.transport == (match transport {
                    LoginTransport::Tcp => "TCP"@,
                    LoginTransport::Ax25 => "AX.25"@,
                    LoginTransport::Mercury => "MERCURY"@,
                })
            }
        }),
{
    let (after, _) = saved(s, callsign, recipient, subject, body, at);
    if next_message_id(s.messages) is Some {
        assert(after.messages.drop_last() =~= s.messages);
    }
    let (later, _) = login_recorded(s, callsign, transport, at);
    if next_login_id(s.logins) is Some {
        assert(later.logins.drop_last() =~= s.logins);
    }
}

/// A deletion takes out the one row with that identifier, where its sender or its
/// recipient asks for it, and leaves all others in their order. Without such a
/// row, or by anybody else, nothing is taken out.
pub proof fn law_a_deletion_takes_out_one_row(
    rows: Seq<MessageRowView>,
    k: int,
    caller: Seq<char>,
    id: i64,
)
    requires
        messages_ascend(rows),
    ensures
        0 <= k < rows.len() && rows[k].id == id ==> {
            let mine = rows[k].sender_base == Some(base_of(caller)) || rows[k].recipient_base
                == Some(base_of(caller));
            &&& deletable(rows, base_of(caller), id) == mine
            &&& without(rows, base_of(caller), id) == (if mine {
                rows.take(k) + rows.skip(k + 1)
            } else {
                rows
            })
        },
        (forall|i: int| 0 <= i < rows.len() ==> (#[trigger] rows[i]).id != id) ==> {
            &&& !deletable(rows, base_of(caller), id)
            &&& without(rows, base_of(caller), id) == rows
        },
{
    if 0 <= k < rows.len() && rows[k].id == id {
        lemma_row_index(rows, id, k);
        assert(rows.remove(k) =~= rows.take(k) + rows.skip(k + 1));
    }
    lemma_row_index_bounds(rows, id);
}

} // verus!
