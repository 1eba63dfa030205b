//! What the board writes to its callers.

use vstd::prelude::*;
use vstd::string::*;

use crate::files::{file_views, AvailableFile, FileView};
use crate::store::{
    login_views, summary_views, transport_name, LoginRecord, LoginView, Message, MessageSummary,
    MessageView, SummaryView,
};
use crate::text::{
    decimal, integer, joined, left_aligned, padded, pieces, push_decimal, push_integer,
    push_left_aligned, push_padded, split, texts,
};

verus! {

/// The version of the board.
pub fn version() -> (r: &'static str)
    ensures
        r@ == "0.1.0"@,
{
    "0.1.0"
}

/// A line of output.
pub open spec fn line(text: Seq<char>) -> Seq<char> {
    text + "\r\n"@
}

/// Lines of output.
pub open spec fn lines(list: Seq<Seq<char>>) -> Seq<char>
    decreases list.len(),
{
    if list.len() == 0 {
        Seq::empty()
    } else {
        lines(list.drop_last()) + line(list.last())
    }
}

/// Append a line.
pub fn push_line(out: &mut String, text: &str)
    ensures
        final(out)@ == old(out)@ + line(text@),
{
    let ghost before = out@;
    out.append(text);
    out.append("\r\n");
    assert(out@ =~= before + line(text@));
}

proof fn lemma_lines_push(list: Seq<Seq<char>>, last: Seq<char>)
    ensures
        lines(list.push(last)) == lines(list) + line(last),
{
    assert(list.push(last).drop_last() =~= list);
}

/// Each item of a list as a line of text.
pub open spec fn entry_lines<T>(items: Seq<T>, text: spec_fn(T) -> Seq<char>) -> Seq<Seq<char>> {
    Seq::new(items.len(), |i: int| text(items[i]))
}

/// Append a line for each item of a list: what `entry` makes of it, which is
/// `text` of the item.
fn push_entries<T, F: Fn(&T) -> String>(
    out: &mut String,
    items: &Vec<T>,
    entry: F,
    Ghost(text): Ghost<spec_fn(T) -> Seq<char>>,
)
    requires
        forall|item: &T| #[trigger] call_requires(entry, (item,)),
        forall|item: &T, r: String| #[trigger]
            call_ensures(entry, (item,), r) ==> r@ == text(*item),
    ensures
        final(out)@ == old(out)@ + lines(entry_lines(items@, text)),
{
    let ghost head = out@;
    let ghost all = entry_lines(items@, text);
    let mut i: usize = 0;
    assert(out@ =~= head + lines(all.take(0)));
    while i < items.len()
        invariant
            i <= items@.len(),
            all == entry_lines(items@, text),
            out@ == head + lines(all.take(i as int)),
            forall|item: &T| #[trigger] call_requires(entry, (item,)),
            forall|item: &T, r: String| #[trigger]
                call_ensures(entry, (item,), r) ==> r@ == text(*item),
        decreases items@.len() - i,
    {
        let shown: String = entry(&items[i]);
        push_line(out, shown.as_str());
        proof {
            lemma_lines_push(all.take(i as int), all[i as int]);
            assert(all.take(i as int).push(all[i as int]) =~= all.take(i + 1));
            assert(out@ =~= head + lines(all.take(i + 1)));
        }
        i = i + 1;
    }
    assert(all.take(i as int) =~= all);
}

/// The commands, for a board with an AGW radio or without one.
pub open spec fn help_lines(agw: bool) -> Seq<Seq<char>> {
    seq![
        "Commands:"@,
        "  LIST                 List public and your private messages"@,
        "  SENT                 List messages you sent"@,
        "  LOGINS               List the 10 most recent logins"@,
    ] + (if agw {
        seq!["  HEARD                List callsigns recently heard by the AGW endpoint"@]
    } else {
        Seq::empty()
    }) + seq![
        "  FILES                List files available for download"@,
        "  DOWNLOAD <file>      Download a file using ZMODEM"@,
    ] + (if agw {
        seq!["  CONNECT <call> <ssid> Connect to a remote BBS over AX.25"@]
    } else {
        Seq::empty()
    }) + seq![
        "  READ <id>            Read a visible message"@,
        "  DELETE <id>          Delete mail you sent or received"@,
        "  SEND <callsign|ALL>  Send private mail or post publicly"@,
        "  INFO                 Show BBS information"@,
        "  HELP                 Show this help"@,
        "  QUIT, BYE, EXIT      Disconnect"@,
    ]
}

/// A copy of a text.
fn owned(text: &&str) -> (r: String)
    ensures
        r@ == text@,
{
    (*text).to_owned()
}

/// The list of commands.
pub fn write_help(agw: bool) -> (r: String)
    ensures
        r@ == lines(help_lines(agw)),
{
    let mut list: Vec<&str> = Vec::new();
    list.push("Commands:");
    list.push("  LIST                 List public and your private messages");
    list.push("  SENT                 List messages you sent");
    list.push("  LOGINS               List the 10 most recent logins");
    if agw {
        list.push("  HEARD                List callsigns recently heard by the AGW endpoint");
    }
    list.push("  FILES                List files available for download");
    list.push("  DOWNLOAD <file>      Download a file using ZMODEM");
    if agw {
        list.push("  CONNECT <call> <ssid> Connect to a remote BBS over AX.25");
    }
    list.push("  READ <id>            Read a visible message");
    list.push("  DELETE <id>          Delete mail you sent or received");
    list.push("  SEND <callsign|ALL>  Send private mail or post publicly");
    list.push("  INFO                 Show BBS information");
    list.push("  HELP                 Show this help");
    list.push("  QUIT, BYE, EXIT      Disconnect");
    let mut out: String = String::new();
    push_entries(&mut out, &list, owned, Ghost(|item: &str| item@));
    assert(entry_lines(list@, |item: &str| item@) =~= help_lines(agw));
    out
}

/// The version and the callsign of the board.
pub open spec fn info_text(bbs: Seq<char>) -> Seq<char> {
    line("ABBS "@ + "0.1.0"@) + line("BBS callsign: "@ + bbs)
}

/// The version and the callsign of the board.
pub fn write_info(bbs: &str) -> (r: String)
    ensures
        r@ == info_text(bbs@),
{
    let mut out: String = "ABBS ".to_owned();
    out.append(version());
    out.append("\r\n");
    out.append("BBS callsign: ");
    out.append(bbs);
    out.append("\r\n");
    assert(out@ =~= info_text(bbs@));
    out
}

/// The kind of a message.
pub open spec fn kind(recipient: Option<Seq<char>>) -> Seq<char> {
    if recipient is Some {
        "MAIL"@
    } else {
        "PUBLIC"@
    }
}

/// Who a message is for.
pub open spec fn addressee(recipient: Option<Seq<char>>) -> Seq<char> {
    match recipient {
        Some(callsign) => callsign,
        None => "ALL"@,
    }
}

/// A message in a listing of what a caller may see.
pub open spec fn visible_line(m: SummaryView) -> Seq<char> {
    "#"@ + integer(m.id as int) + " ["@ + kind(m.recipient) + "] FROM "@ + m.sender + " "@
        + m.created_at + " - "@ + m.subject
}

/// A message in a listing of what a caller has sent.
pub open spec fn sent_line(m: SummaryView) -> Seq<char> {
    "#"@ + integer(m.id as int) + " ["@ + kind(m.recipient) + "] TO "@ + addressee(m.recipient)
        + " "@ + m.created_at + " - "@ + m.subject
}

/// The lines of a listing of what a caller may see.
pub open spec fn visible_lines(list: Seq<SummaryView>) -> Seq<Seq<char>> {
    Seq::new(list.len(), |i: int| visible_line(list[i]))
}

/// The lines of a listing of what a caller has sent.
pub open spec fn sent_lines(list: Seq<SummaryView>) -> Seq<Seq<char>> {
    Seq::new(list.len(), |i: int| sent_line(list[i]))
}

/// A listing of what a caller may see.
pub open spec fn visible_text(list: Seq<SummaryView>) -> Seq<char> {
    if list.len() == 0 {
        line("No messages."@)
    } else {
        lines(visible_lines(list))
    }
}

/// A listing of what a caller has sent.
pub open spec fn sent_text(list: Seq<SummaryView>) -> Seq<char> {
    if list.len() == 0 {
        line("No sent messages."@)
    } else {
        lines(sent_lines(list))
    }
}

/// One line as output.
pub fn one_line(text: &str) -> (r: String)
    ensures
        r@ == line(text@),
{
    let mut out: String = text.to_owned();
    out.append("\r\n");
    out
}

/// A line of one text behind another.
pub fn labelled_line(label: &str, text: &str) -> (r: String)
    ensures
        r@ == line(label@ + text@),
{
    let mut out: String = label.to_owned();
    out.append(text);
    out.append("\r\n");
    out
}

/// The start of a listing line.
fn listing_head(message: &MessageSummary) -> (r: String)
    ensures
        r@ == "#"@ + integer(message.id as int) + " ["@ + kind(message@.recipient),
{
    let mut out: String = "#".to_owned();
    push_integer(&mut out, message.id);
    out.append(" [");
    match &message.recipient {
        Some(_) => {
            out.append("MAIL");
        },
        None => {
            out.append("PUBLIC");
        },
    }
    out
}

/// Append who a message is for.
fn push_addressee(out: &mut String, recipient: &Option<crate::callsign::Callsign>)
    ensures
        final(out)@ == old(out)@ + addressee(crate::store::optional_callsign(*recipient)),
{
    match recipient {
        Some(callsign) => {
            out.append(callsign.as_str());
        },
        None => {
            out.append("ALL");
        },
    }
}

/// A message in a listing of what a caller may see.
fn visible_entry(message: &MessageSummary) -> (r: String)
    ensures
        r@ == visible_line(message@),
{
    let mut out: String = listing_head(message);
    out.append("] FROM ");
    out.append(message.sender.as_str());
    out.append(" ");
    out.append(message.created_at.as_str());
    out.append(" - ");
    out.append(message.subject.as_str());
    out
}

/// A message in a listing of what a caller has sent.
fn sent_entry(message: &MessageSummary) -> (r: String)
    ensures
        r@ == sent_line(message@),
{
    let mut out: String = listing_head(message);
    out.append("] TO ");
    push_addressee(&mut out, &message.recipient);
    out.append(" ");
    out.append(message.created_at.as_str());
    out.append(" - ");
    out.append(message.subject.as_str());
    out
}

/// A listing of what a caller may see.
pub fn list_messages(messages: &Vec<MessageSummary>) -> (r: String)
    ensures
        r@ == visible_text(summary_views(messages@)),
{
    if messages.len() == 0 {
        return one_line("No messages.");
    }
    let mut out: String = String::new();
    push_entries(&mut out, messages, visible_entry, Ghost(|item: MessageSummary| visible_line(item@)));
    assert(entry_lines(messages@, |item: MessageSummary| visible_line(item@)) =~= visible_lines(summary_views(messages@)));
    out
}

/// A listing of what a caller has sent.
pub fn list_sent_messages(messages: &Vec<MessageSummary>) -> (r: String)
    ensures
        r@ == sent_text(summary_views(messages@)),
{
    if messages.len() == 0 {
        return one_line("No sent messages.");
    }
    let mut out: String = String::new();
    push_entries(&mut out, messages, sent_entry, Ghost(|item: MessageSummary| sent_line(item@)));
    assert(entry_lines(messages@, |item: MessageSummary| sent_line(item@)) =~= sent_lines(summary_views(messages@)));
    out
}

/// A login as it is listed.
pub open spec fn login_line(login: LoginView) -> Seq<char> {
    login.callsign + " via "@ + transport_name(login.transport) + " at "@ + login.logged_in_at
}

/// The lines of a listing of logins.
pub open spec fn login_lines(list: Seq<LoginView>) -> Seq<Seq<char>> {
    Seq::new(list.len(), |i: int| login_line(list[i]))
}

/// A listing of logins.
pub open spec fn logins_text(list: Seq<LoginView>) -> Seq<char> {
    if list.len() == 0 {
        line("No logins recorded."@)
    } else {
        line("Recent logins:"@) + lines(login_lines(list))
    }
}

/// A login as it is listed.
fn login_entry(login: &LoginRecord) -> (r: String)
    ensures
        r@ == login_line(login@),
{
    let mut out: String = login.callsign.as_str().to_owned();
    out.append(" via ");
    out.append(login.transport.as_str());
    out.append(" at ");
    out.append(login.logged_in_at.as_str());
    out
}

/// A listing of logins.
pub fn list_recent_logins(logins: &Vec<LoginRecord>) -> (r: String)
    ensures
        r@ == logins_text(login_views(logins@)),
{
    if logins.len() == 0 {
        return one_line("No logins recorded.");
    }
    let mut out: String = one_line("Recent logins:");
    push_entries(&mut out, logins, login_entry, Ghost(|item: LoginRecord| login_line(item@)));
    assert(entry_lines(logins@, |item: LoginRecord| login_line(item@)) =~= login_lines(login_views(logins@)));
    out
}

/// When a station was heard, as the AGW endpoint tells it.
#[derive(Clone, Copy, Debug, Eq, PartialEq, Structural)]
pub struct HeardTime {
    pub year: u16,
    pub month: u16,
    pub day: u16,
    pub hour: u16,
    pub minute: u16,
    pub second: u16,
    pub millisecond: u16,
}

/// A station that the AGW endpoint has heard.
#[derive(Debug)]
pub struct HeardStation {
    pub call: String,
    pub first: HeardTime,
    pub last: HeardTime,
}

/// `HeardStation` as a mathematical value.
#[verifier::ext_equal]
pub struct HeardView {
    pub call: Seq<char>,
    pub first: HeardTime,
    pub last: HeardTime,
}

impl View for HeardStation {
    type V = HeardView;

    open spec fn view(&self) -> HeardView {
        HeardView { call: self.call@, first: self.first, last: self.last }
    }
}

/// Stations as mathematical values.
pub open spec fn heard_views(list: Seq<HeardStation>) -> Seq<HeardView> {
    Seq::new(list.len(), |i: int| list[i]@)
}

/// A time as it is listed: `2000-02-21 11:14:30.000`.
pub open spec fn time_text(t: HeardTime) -> Seq<char> {
    padded(t.year as nat, 4) + "-"@ + padded(t.month as nat, 2) + "-"@ + padded(t.day as nat, 2)
        + " "@ + padded(t.hour as nat, 2) + ":"@ + padded(t.minute as nat, 2) + ":"@ + padded(
        t.second as nat,
        2,
    ) + "."@ + padded(t.millisecond as nat, 3)
}

/// A station as it is listed.
pub open spec fn heard_line(s: HeardView) -> Seq<char> {
    left_aligned(s.call, 10) + " first heard: "@ + time_text(s.first) + "; last heard: "@
        + time_text(s.last)
}

/// The lines of a listing of stations.
pub open spec fn heard_lines(list: Seq<HeardView>) -> Seq<Seq<char>> {
    Seq::new(list.len(), |i: int| heard_line(list[i]))
}

/// A listing of stations.
pub open spec fn heard_text(list: Seq<HeardView>) -> Seq<char> {
    if list.len() == 0 {
        line("No AX.25 stations heard."@)
    } else {
        line("Heard callsigns:"@) + lines(heard_lines(list))
    }
}

/// Append a time.
fn push_time(out: &mut String, t: &HeardTime)
    ensures
        final(out)@ == old(out)@ + time_text(*t),
{
    let ghost before = out@;
    push_padded(out, t.year as u64, 4);
    out.append("-");
    push_padded(out, t.month as u64, 2);
    out.append("-");
    push_padded(out, t.day as u64, 2);
    out.append(" ");
    push_padded(out, t.hour as u64, 2);
    out.append(":");
    push_padded(out, t.minute as u64, 2);
    out.append(":");
    push_padded(out, t.second as u64, 2);
    out.append(".");
    push_padded(out, t.millisecond as u64, 3);
    assert(out@ =~= before + time_text(*t));
}

/// A station as it is listed.
fn heard_entry(station: &HeardStation) -> (r: String)
    ensures
        r@ == heard_line(station@),
{
    let mut out: String = String::new();
    push_left_aligned(&mut out, station.call.as_str(), 10);
    assert(out@ =~= left_aligned(station.call@, 10));
    out.append(" first heard: ");
    push_time(&mut out, &station.first);
    out.append("; last heard: ");
    push_time(&mut out, &station.last);
    out
}

/// A listing of stations.
pub fn list_heard(stations: &Vec<HeardStation>) -> (r: String)
    ensures
        r@ == heard_text(heard_views(stations@)),
{
    if stations.len() == 0 {
        return one_line("No AX.25 stations heard.");
    }
    let mut out: String = one_line("Heard callsigns:");
    push_entries(&mut out, stations, heard_entry, Ghost(|item: HeardStation| heard_line(item@)));
    assert(entry_lines(stations@, |item: HeardStation| heard_line(item@)) =~= heard_lines(heard_views(stations@)));
    out
}

/// A file as it is listed.
pub open spec fn file_line(file: FileView) -> Seq<char> {
    file.name + " ("@ + decimal(file.size as nat) + " bytes)"@
}

/// The lines of a listing of files.
pub open spec fn file_lines(list: Seq<FileView>) -> Seq<Seq<char>> {
    Seq::new(list.len(), |i: int| file_line(list[i]))
}

/// A listing of files.
pub open spec fn files_text(list: Seq<FileView>) -> Seq<char> {
    if list.len() == 0 {
        line("No files available."@)
    } else {
        line("Available files:"@) + lines(file_lines(list))
    }
}

/// A file as it is listed.
fn file_entry(file: &AvailableFile) -> (r: String)
    ensures
        r@ == file_line(file@),
{
    let mut out: String = file.name.clone();
    out.append(" (");
    push_decimal(&mut out, file.size);
    out.append(" bytes)");
    out
}

/// A listing of files.
pub fn list_files(files: &Vec<AvailableFile>) -> (r: String)
    ensures
        r@ == files_text(file_views(files@)),
{
    if files.len() == 0 {
        return one_line("No files available.");
    }
    let mut out: String = one_line("Available files:");
    push_entries(&mut out, files, file_entry, Ghost(|item: AvailableFile| file_line(item@)));
    assert(entry_lines(files@, |item: AvailableFile| file_line(item@)) =~= file_lines(file_views(files@)));
    out
}

/// A copy of a text.
fn copied(text: &String) -> (r: String)
    ensures
        r@ == text@,
{
    text.clone()
}

/// What stands in front of the body of a message.
pub open spec fn message_head(m: MessageView) -> Seq<char> {
    line("Message #"@ + integer(m.id as int)) + line("From: "@ + m.sender) + line(
        "To: "@ + addressee(m.recipient),
    ) + line("Date: "@ + m.created_at) + line("Subject: "@ + m.subject) + line(""@)
}

/// A message as it is read.
pub open spec fn message_text(m: MessageView) -> Seq<char> {
    message_head(m) + lines(pieces(m.body, '\n'))
}

/// A message as it is read.
pub fn write_message(message: &Message) -> (r: String)
    ensures
        r@ == message_text(message@),
{
    let mut out: String = "Message #".to_owned();
    push_integer(&mut out, message.id);
    out.append("\r\n");
    out.append("From: ");
    out.append(message.sender.as_str());
    out.append("\r\n");
    out.append("To: ");
    push_addressee(&mut out, &message.recipient);
    out.append("\r\n");
    out.append("Date: ");
    out.append(message.created_at.as_str());
    out.append("\r\n");
    out.append("Subject: ");
    out.append(message.subject.as_str());
    out.append("\r\n");
    out.append("");
    out.append("\r\n");
    let ghost head = message_head(message@);
    assert(out@ =~= head);
    let body: Vec<String> = split(message.body.as_str(), '\n');
    push_entries(&mut out, &body, copied, Ghost(|item: String| item@));
    assert(entry_lines(body@, |item: String| item@) =~= pieces(message.body@, '\n'));
    out
}

/// The lines of a body that was composed line by line are read as they were
/// typed.
pub proof fn law_body_lines_read_back(m: MessageView, typed: Seq<Seq<char>>)
    requires
        typed.len() > 0,
        forall|i: int| 0 <= i < typed.len() ==> !(#[trigger] typed[i]).contains('\n'),
        m.body == joined(typed, '\n'),
    ensures
        message_text(m) == message_head(m) + lines(typed),
{
    crate::text::law_split_undoes_join(typed, '\n');
}

/// A line of a listing shows the message as it is kept: its number, whether it is
/// mail or public, the full callsign of the sender or of the recipient, SSID and
/// all, the time and the subject.
pub proof fn law_listing_lines_show_every_field(m: SummaryView)
    ensures
        visible_line(m) == "#"@ + integer(m.id as int) + (if m.recipient is Some {
            " [MAIL] FROM "@
        } else {
            " [PUBLIC] FROM "@
        }) + m.sender + " "@ + m.created_at + " - "@ + m.subject,
        m.recipient matches Some(to) ==> sent_line(m) == "#"@ + integer(m.id as int)
            + " [MAIL] TO "@ + to + " "@ + m.created_at + " - "@ + m.subject,
        m.recipient is None ==> sent_line(m) == "#"@ + integer(m.id as int)
            + " [PUBLIC] TO ALL "@ + m.created_at + " - "@ + m.subject,
{
    reveal_strlit(" [");
    reveal_strlit("MAIL");
    reveal_strlit("PUBLIC");
    reveal_strlit("] FROM ");
    reveal_strlit("] TO ");
    reveal_strlit("ALL");
    reveal_strlit(" ");
    reveal_strlit(" [MAIL] FROM ");
    reveal_strlit(" [PUBLIC] FROM ");
    reveal_strlit(" [MAIL] TO ");
    reveal_strlit(" [PUBLIC] TO ALL ");
    assert(" ["@ + "MAIL"@ + "] FROM "@ =~= " [MAIL] FROM "@);
    assert(" ["@ + "PUBLIC"@ + "] FROM "@ =~= " [PUBLIC] FROM "@);
    assert(" ["@ + "MAIL"@ + "] TO "@ =~= " [MAIL] TO "@);
    assert(" ["@ + "PUBLIC"@ + "] TO "@ + "ALL"@ + " "@ =~= " [PUBLIC] TO ALL "@);
    let n = "#"@ + integer(m.id as int);
    assert(visible_line(m) =~= n + (" ["@ + kind(m.recipient) + "] FROM "@) + m.sender + " "@
        + m.created_at + " - "@ + m.subject);
    if m.recipient is Some {
        assert(sent_line(m) =~= n + (" ["@ + "MAIL"@ + "] TO "@) + m.recipient->0 + " "@
            + m.created_at + " - "@ + m.subject);
    } else {
        assert(sent_line(m) =~= n + (" ["@ + "PUBLIC"@ + "] TO "@ + "ALL"@ + " "@) + m.created_at
            + " - "@ + m.subject);
    }
}

proof fn lemma_middle_decides(front: Seq<char>, a: Seq<char>, b: Seq<char>, back: Seq<char>)
    requires
        front + a + back == front + b + back,
    ensures
        a == b,
{
    let s = front + a + back;
    let t = front + b + back;
    assert(s.len() == front.len() + a.len() + back.len());
    assert(t.len() == front.len() + b.len() + back.len());
    assert forall|i: int| 0 <= i < a.len() implies a[i] == b[i] by {
        assert((front + a)[front.len() + i] == a[i]);
        assert((front + b)[front.len() + i] == b[i]);
        assert(s[front.len() + i] == a[i]);
        assert(t[front.len() + i] == b[i]);
    }
    assert(a =~= b);
}

proof fn lemma_visible_parts(m: SummaryView)
    ensures
        ({
            let n = "#"@ + integer(m.id as int);
            let from = " ["@ + kind(m.recipient) + "] FROM "@;
            let tail = " "@ + m.created_at + " - "@ + m.subject;
            &&& visible_line(m) == "#"@ + integer(m.id as int) + (from + m.sender + tail)
            &&& visible_line(m) == (n + from) + m.sender + tail
            &&& visible_line(m) == (n + from + m.sender + " "@) + m.created_at + (" - "@
                + m.subject)
            &&& visible_line(m) == (n + from + m.sender + " "@ + m.created_at + " - "@)
                + m.subject + Seq::<char>::empty()
        }),
{
    let n = "#"@ + integer(m.id as int);
    let from = " ["@ + kind(m.recipient) + "] FROM "@;
    let tail = " "@ + m.created_at + " - "@ + m.subject;
    assert(visible_line(m) =~= (n + from) + m.sender + tail);
    assert((n + from) + m.sender + tail =~= "#"@ + integer(m.id as int) + (from + m.sender
        + tail));
    assert((n + from) + m.sender + tail =~= (n + from + m.sender + " "@) + m.created_at + (" - "@
        + m.subject));
    assert((n + from) + m.sender + tail =~= (n + from + m.sender + " "@ + m.created_at + " - "@)
        + m.subject + Seq::<char>::empty());
}

proof fn lemma_sent_parts(m: SummaryView)
    ensures
        ({
            let n = "#"@ + integer(m.id as int);
            let to = " ["@ + kind(m.recipient) + "] TO "@;
            let who = addressee(m.recipient);
            let tail = " "@ + m.created_at + " - "@ + m.subject;
            &&& sent_line(m) == "#"@ + integer(m.id as int) + (to + who + tail)
            &&& sent_line(m) == (n + to) + who + tail
            &&& sent_line(m) == (n + to + who + " "@) + m.created_at + (" - "@ + m.subject)
            &&& sent_line(m) == (n + to + who + " "@ + m.created_at + " - "@) + m.subject + Seq::<
                char,
            >::empty()
        }),
{
    let n = "#"@ + integer(m.id as int);
    let to = " ["@ + kind(m.recipient) + "] TO "@;
    let who = addressee(m.recipient);
    let tail = " "@ + m.created_at + " - "@ + m.subject;
    assert(sent_line(m) =~= (n + to) + who + tail);
    assert((n + to) + who + tail =~= "#"@ + integer(m.id as int) + (to + who + tail));
    assert((n + to) + who + tail =~= (n + to + who + " "@) + m.created_at + (" - "@ + m.subject));
    assert((n + to) + who + tail =~= (n + to + who + " "@ + m.created_at + " - "@) + m.subject
        + Seq::<char>::empty());
}

/// Messages that differ in their number have different lines in every listing.
pub proof fn law_listing_lines_tell_numbers_apart(a: SummaryView, b: SummaryView)
    requires
        0 < a.id,
        0 < b.id,
        a.id != b.id,
        b == (SummaryView { id: b.id, ..a }),
    ensures
        visible_line(a) != visible_line(b),
        sent_line(a) != sent_line(b),
{
    crate::text::law_decimal_reads_back(a.id as nat);
    crate::text::law_decimal_reads_back(b.id as nat);
    lemma_visible_parts(a);
    lemma_visible_parts(b);
    lemma_sent_parts(a);
    lemma_sent_parts(b);
    let n = integer(a.id as int);
    let o = integer(b.id as int);
    let tail = " "@ + a.created_at + " - "@ + a.subject;
    let from = " ["@ + kind(a.recipient) + "] FROM "@ + a.sender + tail;
    let to = " ["@ + kind(a.recipient) + "] TO "@ + addressee(a.recipient) + tail;
    if visible_line(a) == visible_line(b) {
        lemma_middle_decides("#"@, n, o, from);
    }
    if sent_line(a) == sent_line(b) {
        lemma_middle_decides("#"@, n, o, to);
    }
}

/// Messages that differ in their sender, be it in the SSID alone, have different
/// lines in a listing of what a caller may see; such that differ in their
/// recipient have different lines in one of what was sent.
pub proof fn law_listing_lines_tell_callsigns_apart(a: SummaryView, b: SummaryView)
    ensures
        a.sender != b.sender && b == (SummaryView { sender: b.sender, ..a }) ==> visible_line(a)
            != visible_line(b),
        a.recipient is Some && b.recipient is Some && a.recipient != b.recipient && b == (
        SummaryView { recipient: b.recipient, ..a }) ==> sent_line(a) != sent_line(b),
{
    lemma_visible_parts(a);
    lemma_visible_parts(b);
    lemma_sent_parts(a);
    lemma_sent_parts(b);
    let n = "#"@ + integer(a.id as int);
    let tail = " "@ + a.created_at + " - "@ + a.subject;
    if b == (SummaryView { sender: b.sender, ..a }) && visible_line(a) == visible_line(b) {
        lemma_middle_decides(
            n + (" ["@ + kind(a.recipient) + "] FROM "@),
            a.sender,
            b.sender,
            tail,
        );
    }
    if a.recipient is Some && b.recipient is Some && b == (SummaryView {
        recipient: b.recipient,
        ..a
    }) && sent_line(a) == sent_line(b) {
        lemma_middle_decides(
            n + (" ["@ + kind(a.recipient) + "] TO "@),
            a.recipient->0,
            b.recipient->0,
            tail,
        );
    }
}

/// Messages that differ in their time or in their subject have different lines in
/// every listing.
pub proof fn law_listing_lines_tell_contents_apart(a: SummaryView, b: SummaryView)
    ensures
        a.created_at != b.created_at && b == (SummaryView { created_at: b.created_at, ..a })
            ==> visible_line(a) != visible_line(b) && sent_line(a) != sent_line(b),
        a.subject != b.subject && b == (SummaryView { subject: b.subject, ..a }) ==> visible_line(
            a,
        ) != visible_line(b) && sent_line(a) != sent_line(b),
{
    lemma_visible_parts(a);
    lemma_visible_parts(b);
    lemma_sent_parts(a);
    lemma_sent_parts(b);
    let none = Seq::<char>::empty();
    let n = "#"@ + integer(a.id as int);
    let from = n + (" ["@ + kind(a.recipient) + "] FROM "@) + a.sender + " "@;
    let to = n + (" ["@ + kind(a.recipient) + "] TO "@) + addressee(a.recipient) + " "@;
    if b == (SummaryView { created_at: b.created_at, ..a }) {
        let back = " - "@ + a.subject;
        if visible_line(a) == visible_line(b) {
            lemma_middle_decides(from, a.created_at, b.created_at, back);
        }
        if sent_line(a) == sent_line(b) {
            lemma_middle_decides(to, a.created_at, b.created_at, back);
        }
    }
    if b == (SummaryView { subject: b.subject, ..a }) {
        if visible_line(a) == visible_line(b) {
            lemma_middle_decides(from + a.created_at + " - "@, a.subject, b.subject, none);
        }
        if sent_line(a) == sent_line(b) {
            lemma_middle_decides(to + a.created_at + " - "@, a.subject, b.subject, none);
        }
    }
}

/// A login is shown with its full callsign, the name of its transport and its
/// time; a file with its name and its size; the board with its callsign.
pub proof fn law_other_lines_show_every_field(
    login: LoginView,
    file: FileView,
    bbs: Seq<char>,
)
    ensures
        login_line(login) == login.callsign + (match login.transport {
            crate::store::LoginTransport::Tcp => " via TCP at "@,
            crate::store::LoginTransport::Ax25 => " via AX.25 at "@,
            crate::store::LoginTransport::Mercury => " via MERCURY at "@,
        }) + login.logged_in_at,
        file_line(file) == file.name + " ("@ + decimal(file.size as nat) + " bytes)"@,
        info_text(bbs) == "ABBS 0.1.0\r\nBBS callsign: "@ + bbs + "\r\n"@,
{
    reveal_strlit(" via ");
    reveal_strlit(" at ");
    reveal_strlit("TCP");
    reveal_strlit("AX.25");
    reveal_strlit("MERCURY");
    reveal_strlit(" via TCP at ");
    reveal_strlit(" via AX.25 at ");
    reveal_strlit(" via MERCURY at ");
    assert(" via "@ + "TCP"@ + " at "@ =~= " via TCP at "@);
    assert(" via "@ + "AX.25"@ + " at "@ =~= " via AX.25 at "@);
    assert(" via "@ + "MERCURY"@ + " at "@ =~= " via MERCURY at "@);
    assert(login_line(login) =~= login.callsign + (" via "@ + transport_name(login.transport)
        + " at "@) + login.logged_in_at);
    reveal_strlit("ABBS ");
    reveal_strlit("0.1.0");
    reveal_strlit("\r\n");
    reveal_strlit("BBS callsign: ");
    reveal_strlit("ABBS 0.1.0\r\nBBS callsign: ");
    assert("ABBS "@ + "0.1.0"@ + "\r\n"@ + "BBS callsign: "@
        =~= "ABBS 0.1.0\r\nBBS callsign: "@);
    assert(info_text(bbs) =~= ("ABBS "@ + "0.1.0"@ + "\r\n"@ + "BBS callsign: "@) + bbs
        + "\r\n"@);
}

/// A station is shown with its call, in ten columns or more, and the two times at
/// which it was first and last heard, each with all of its seven numbers.
pub proof fn law_station_lines_show_every_field(s: HeardView)
    ensures
        ({
            let time = |t: HeardTime|
                padded(t.year as nat, 4) + "-"@ + padded(t.month as nat, 2) + "-"@ + padded(
                    t.day as nat,
                    2,
                ) + " "@ + padded(t.hour as nat, 2) + ":"@ + padded(t.minute as nat, 2) + ":"@
                    + padded(t.second as nat, 2) + "."@ + padded(t.millisecond as nat, 3);
            heard_line(s) == left_aligned(s.call, 10) + " first heard: "@ + time(s.first)
                + "; last heard: "@ + time(s.last)
        }),
{
}

/// A message is read with its number, its full callsigns, its time, its subject
/// and, behind an empty line, the lines of its body.
pub proof fn law_reading_shows_every_field(m: MessageView)
    ensures
        message_text(m) == "Message #"@ + integer(m.id as int) + "\r\nFrom: "@ + m.sender
            + "\r\nTo: "@ + (if m.recipient is Some {
            m.recipient->0
        } else {
            "ALL"@
        }) + "\r\nDate: "@ + m.created_at + "\r\nSubject: "@ + m.subject + "\r\n\r\n"@ + lines(
            pieces(m.body, '\n'),
        ),
{
    reveal_strlit("\r\n");
    reveal_strlit("");
    reveal_strlit("From: ");
    reveal_strlit("To: ");
    reveal_strlit("Date: ");
    reveal_strlit("Subject: ");
    reveal_strlit("\r\nFrom: ");
    reveal_strlit("\r\nTo: ");
    reveal_strlit("\r\nDate: ");
    reveal_strlit("\r\nSubject: ");
    reveal_strlit("\r\n\r\n");
    assert("\r\n"@ + "From: "@ =~= "\r\nFrom: "@);
    assert("\r\n"@ + "To: "@ =~= "\r\nTo: "@);
    assert("\r\n"@ + "Date: "@ =~= "\r\nDate: "@);
    assert("\r\n"@ + "Subject: "@ =~= "\r\nSubject: "@);
    assert("\r\n"@ + ""@ + "\r\n"@ =~= "\r\n\r\n"@);
    let to = addressee(m.recipient);
    assert(message_head(m) =~= "Message #"@ + integer(m.id as int) + ("\r\n"@ + "From: "@)
        + m.sender + ("\r\n"@ + "To: "@) + to + ("\r\n"@ + "Date: "@) + m.created_at + ("\r\n"@
        + "Subject: "@) + m.subject + ("\r\n"@ + ""@ + "\r\n"@));
}

/// Each line of output ends in CR and LF, and the lines stand in their order.
pub proof fn law_output_lines(list: Seq<Seq<char>>, text: Seq<char>)
    ensures
        line(text) == text + seq!['\r', '\n'],
        lines(Seq::empty()) == Seq::<char>::empty(),
        lines(list.push(text)) == lines(list) + text + seq!['\r', '\n'],
{
    reveal_strlit("\r\n");
    assert("\r\n"@ =~= seq!['\r', '\n']);
    lemma_lines_push(list, text);
    assert(lines(list.push(text)) =~= lines(list) + text + seq!['\r', '\n']);
}

proof fn lemma_listing_grows(head: Seq<char>, all: Seq<Seq<char>>, more: Seq<char>)
    ensures
        head + lines(all.push(more)) == head + lines(all) + more + "\r\n"@,
        lines(seq![more]) == more + "\r\n"@,
{
    lemma_lines_push(all, more);
    assert(head + lines(all.push(more)) =~= head + lines(all) + more + "\r\n"@);
    let none = Seq::<Seq<char>>::empty();
    lemma_lines_push(none, more);
    assert(none.push(more) =~= seq![more]);
    assert(lines(none) + line(more) =~= more + "\r\n"@);
}

/// The listing of what a caller may see has one line for each message, in order.
pub proof fn law_visible_listing(list: Seq<SummaryView>, item: SummaryView)
    ensures
        visible_text(Seq::empty()) == "No messages."@ + "\r\n"@,
        visible_text(seq![item]) == visible_line(item) + "\r\n"@,
        list.len() > 0 ==> visible_text(list.push(item)) == visible_text(list) + visible_line(item)
            + "\r\n"@,
{
    assert(visible_lines(seq![item]) =~= seq![visible_line(item)]);
    assert(visible_lines(list.push(item)) =~= visible_lines(list).push(visible_line(item)));
    lemma_listing_grows(Seq::<char>::empty(), visible_lines(list), visible_line(item));
    let none = Seq::<char>::empty();
    assert(none + lines(visible_lines(list.push(item))) =~= lines(visible_lines(list.push(item))));
    assert(none + lines(visible_lines(list)) =~= lines(visible_lines(list)));
}

/// The listing of what a caller has sent has one line for each message, in order.
pub proof fn law_sent_listing(list: Seq<SummaryView>, item: SummaryView)
    ensures
        sent_text(Seq::empty()) == "No sent messages."@ + "\r\n"@,
        sent_text(seq![item]) == sent_line(item) + "\r\n"@,
        list.len() > 0 ==> sent_text(list.push(item)) == sent_text(list) + sent_line(item)
            + "\r\n"@,
{
    assert(sent_lines(seq![item]) =~= seq![sent_line(item)]);
    assert(sent_lines(list.push(item)) =~= sent_lines(list).push(sent_line(item)));
    lemma_listing_grows(Seq::<char>::empty(), sent_lines(list), sent_line(item));
    let none = Seq::<char>::empty();
    assert(none + lines(sent_lines(list.push(item))) =~= lines(sent_lines(list.push(item))));
    assert(none + lines(sent_lines(list)) =~= lines(sent_lines(list)));
}

/// The listing of logins has one line for each login, in order.
pub proof fn law_login_listing(list: Seq<LoginView>, item: LoginView)
    ensures
        logins_text(Seq::empty()) == "No logins recorded."@ + "\r\n"@,
        logins_text(seq![item]) == "Recent logins:"@ + "\r\n"@ + (login_line(item) + "\r\n"@),
        list.len() > 0 ==> logins_text(list.push(item)) == logins_text(list) + login_line(item)
            + "\r\n"@,
{
    assert(login_lines(seq![item]) =~= seq![login_line(item)]);
    assert(login_lines(list.push(item)) =~= login_lines(list).push(login_line(item)));
    lemma_listing_grows("Recent logins:"@ + "\r\n"@, login_lines(list), login_line(item));
}

/// The listing of stations has one line for each station, in order.
pub proof fn law_station_listing(list: Seq<HeardView>, item: HeardView)
    ensures
        heard_text(Seq::empty()) == "No AX.25 stations heard."@ + "\r\n"@,
        heard_text(seq![item]) == "Heard callsigns:"@ + "\r\n"@ + (heard_line(item) + "\r\n"@),
        list.len() > 0 ==> heard_text(list.push(item)) == heard_text(list) + heard_line(item)
            + "\r\n"@,
{
    assert(heard_lines(seq![item]) =~= seq![heard_line(item)]);
    assert(heard_lines(list.push(item)) =~= heard_lines(list).push(heard_line(item)));
    lemma_listing_grows("Heard callsigns:"@ + "\r\n"@, heard_lines(list), heard_line(item));
}

/// The listing of files has one line for each file, in order.
pub proof fn law_file_listing(list: Seq<FileView>, item: FileView)
    ensures
        files_text(Seq::empty()) == "No files available."@ + "\r\n"@,
        files_text(seq![item]) == "Available files:"@ + "\r\n"@ + (file_line(item) + "\r\n"@),
        list.len() > 0 ==> files_text(list.push(item)) == files_text(list) + file_line(item)
            + "\r\n"@,
{
    assert(file_lines(seq![item]) =~= seq![file_line(item)]);
    assert(file_lines(list.push(item)) =~= file_lines(list).push(file_line(item)));
    lemma_listing_grows("Available files:"@ + "\r\n"@, file_lines(list), file_line(item));
}

/// What is handed over as a mathematical value is what a station holds, and every
/// station of a list in its place.
pub proof fn law_stations_are_what_is_held(stations: Seq<HeardStation>, i: int)
    requires
        0 <= i < stations.len(),
    ensures
        heard_views(stations).len() == stations.len(),
        heard_views(stations)[i].call == stations[i].call@,
        heard_views(stations)[i].first == stations[i].first,
        heard_views(stations)[i].last == stations[i].last,
{
}

/// Without an AGW radio the help is the same, but for the two commands that need
/// one.
pub proof fn law_help_lists_what_the_radio_can()
    ensures
        help_lines(true).len() == 14,
        help_lines(false) == help_lines(true).remove(7).remove(4),
        help_lines(true)[4]
            == "  HEARD                List callsigns recently heard by the AGW endpoint"@,
        help_lines(true)[7] == "  CONNECT <call> <ssid> Connect to a remote BBS over AX.25"@,
{
    assert(help_lines(false) =~= help_lines(true).remove(7).remove(4));
}

} // verus!
