//! Callsigns: the identities of the board and its callers.

use std::str::FromStr;

use vstd::prelude::*;
use vstd::string::*;
use vstd::utf8::*;

use crate::text::{
    chars_of, decimal, find_char, first_of, is_space, lemma_first_of, lemma_first_of_unique,
    lemma_position, lemma_position_bounds, position, push_decimal, to_upper, trim, trim_end,
    trim_start, trimmed, upper, upper_text,
};

verus! {

/// The AGW callsign of the `agw` crate.
#[verifier::external_type_specification]
#[verifier::external_body]
pub struct ExCall(agw::Call);

/// What `agw::Call::from_bytes` makes of some bytes: the call, or the text of
/// its error.
pub uninterp spec fn agw_call_result(bytes: Seq<u8>) -> Result<agw::Call, Seq<char>>;

/// An ASCII letter, an ASCII digit or a hyphen.
pub open spec fn agw_byte(b: u8) -> bool {
    0x30 <= b <= 0x39 || 0x41 <= b <= 0x5a || 0x61 <= b <= 0x7a || b == 0x2d
}

/// The bytes that AGW takes for a callsign: at most ten, and in front of the
/// first NUL, or of the end, at most nine letters, digits and hyphens.
pub open spec fn agw_accepts(bytes: Seq<u8>) -> bool {
    bytes.len() <= 10 && exists|end: int|
        {
            &&& 0 <= end <= bytes.len()
            &&& end <= 9
            &&& end < bytes.len() ==> bytes[end] == 0
            &&& forall|i: int| 0 <= i < end ==> agw_byte(#[trigger] bytes[i])
            &&& #[trigger] is_end(bytes, end)
        }
}

/// No NUL stands in front of `end`.
pub open spec fn is_end(bytes: Seq<u8>, end: int) -> bool {
    forall|i: int| 0 <= i < end ==> #[trigger] bytes[i] != 0
}

/// `agw::Call::from_bytes`: the call that some bytes stand for.
///
/// It is claimed that the call, or the text of the error, depends on the bytes
/// alone, and that it succeeds on the bytes of `agw_accepts` and on no others.
#[verifier::external_body]
fn agw_call(bytes: &[u8]) -> (r: Result<agw::Call, String>)
    ensures
        r is Ok <==> agw_accepts(bytes@),
        match r {
            Ok(call) => agw_call_result(bytes@) == Ok::<agw::Call, Seq<char>>(call),
            Err(message) => agw_call_result(bytes@) == Err::<agw::Call, Seq<char>>(message@),
        },
{
    agw::Call::from_bytes(bytes).map_err(|error| error.to_string())
}

/// A character of a normalized callsign.
pub open spec fn is_callsign_char(c: char) -> bool {
    'A' <= c <= 'Z' || '0' <= c <= '9' || c == '-'
}

/// Only upper-case ASCII letters, ASCII digits and hyphens.
pub open spec fn is_plain(s: Seq<char>) -> bool {
    forall|i: int| 0 <= i < s.len() ==> is_callsign_char(#[trigger] s[i])
}

/// A normalized callsign: one to nine upper-case letters, digits and hyphens.
pub open spec fn is_callsign(s: Seq<char>) -> bool {
    1 <= s.len() <= 9 && is_plain(s)
}

/// A typed callsign without surrounding white space, in upper case.
pub open spec fn normalized(input: Seq<char>) -> Seq<char> {
    upper_text(trimmed(input))
}

/// The part of a callsign in front of its first hyphen.
pub open spec fn base_of(s: Seq<char>) -> Seq<char> {
    s.take(first_of(s, '-'))
}

/// A base callsign with an SSID.
pub open spec fn with_suffix(base: Seq<char>, ssid: nat) -> Seq<char> {
    base + seq!['-'] + decimal(ssid)
}

/// What becomes of a callsign that is given another SSID.
pub open spec fn ssid_attached(callsign: Seq<char>, ssid: nat) -> Result<Seq<char>, CallsignFault> {
    if ssid > 15 {
        Err(CallsignFault::SsidOutOfRange)
    } else {
        parsed(with_suffix(base_of(callsign), ssid))
    }
}

/// Why a text is no callsign.
#[derive(Debug)]
pub enum CallsignError {
    /// Nothing but white space.
    Empty,
    /// AGW refused it, for this reason.
    Refused(String),
    /// It holds something else than letters, digits and hyphens.
    InvalidCharacter,
    /// The SSID is above 15.
    SsidOutOfRange,
}

/// `CallsignError` as a mathematical value.
pub enum CallsignFault {
    Empty,
    Refused(Seq<char>),
    InvalidCharacter,
    SsidOutOfRange,
}

impl View for CallsignError {
    type V = CallsignFault;

    open spec fn view(&self) -> CallsignFault {
        match self {
            CallsignError::Empty => CallsignFault::Empty,
            CallsignError::Refused(reason) => CallsignFault::Refused(reason@),
            CallsignError::InvalidCharacter => CallsignFault::InvalidCharacter,
            CallsignError::SsidOutOfRange => CallsignFault::SsidOutOfRange,
        }
    }
}

/// The words in which a refusal is reported.
pub open spec fn callsign_message(fault: CallsignFault) -> Seq<char> {
    match fault {
        CallsignFault::Empty => "callsign cannot be empty"@,
        CallsignFault::Refused(reason) => "invalid callsign: "@ + reason,
        CallsignFault::InvalidCharacter =>
            "invalid callsign: only letters, digits and hyphens are allowed"@,
        CallsignFault::SsidOutOfRange => "SSID must be between 0 and 15"@,
    }
}

impl CallsignError {
    /// The words in which the refusal is reported.
    pub fn message(&self) -> (r: String)
        ensures
            r@ == callsign_message(self@),
    {
        match self {
            CallsignError::Empty => "callsign cannot be empty".to_owned(),
            CallsignError::Refused(reason) => {
                let mut out: String = "invalid callsign: ".to_owned();
                out.append(reason.as_str());
                out
            },
            CallsignError::InvalidCharacter => {
                "invalid callsign: only letters, digits and hyphens are allowed".to_owned()
            },
            CallsignError::SsidOutOfRange => "SSID must be between 0 and 15".to_owned(),
        }
    }
}

/// What becomes of a typed callsign.
pub open spec fn parsed(input: Seq<char>) -> Result<Seq<char>, CallsignFault> {
    let text = normalized(input);
    if text.len() == 0 {
        Err(CallsignFault::Empty)
    } else if !agw_accepts(encode_utf8(text)) {
        Err(CallsignFault::Refused(agw_call_result(encode_utf8(text))->Err_0))
    } else if !is_plain(text) {
        Err(CallsignFault::InvalidCharacter)
    } else {
        Ok(text)
    }
}

/// A parse result with the callsign and the error as mathematical values.
pub open spec fn outcome(r: Result<Callsign, CallsignError>) -> Result<Seq<char>, CallsignFault> {
    match r {
        Ok(callsign) => Ok(callsign@),
        Err(error) => Err(error@),
    }
}

/// Whether there are only upper-case ASCII letters, ASCII digits and hyphens.
fn only_callsign_chars(chars: &[char]) -> (r: bool)
    ensures
        r == is_plain(chars@),
{
    let mut i: usize = 0;
    while i < chars.len()
        invariant
            i <= chars@.len(),
            forall|x: int| 0 <= x < i ==> is_callsign_char(#[trigger] chars@[x]),
        decreases chars@.len() - i,
    {
        let c: char = chars[i];
        if !(('A' <= c && c <= 'Z') || ('0' <= c && c <= '9') || c == '-') {
            assert(!is_callsign_char(chars@[i as int]));
            return false;
        }
        i = i + 1;
    }
    true
}

/// A normalized amateur-radio callsign used as a BBS identity.
#[derive(Debug, Eq, Hash, PartialEq)]
pub struct Callsign {
    text: String,
}

impl View for Callsign {
    type V = Seq<char>;

    closed spec fn view(&self) -> Seq<char> {
        self.text@
    }
}

impl Clone for Callsign {
    fn clone(&self) -> (r: Self)
        ensures
            r@ == self@,
    {
        proof {
            use_type_invariant(self);
        }
        Callsign { text: self.text.clone() }
    }
}

impl FromStr for Callsign {
    type Err = CallsignError;

    fn from_str(input: &str) -> (r: Result<Self, CallsignError>)
        ensures
            outcome(r) == parsed(input@),
            r is Ok <==> is_callsign(normalized(input@)),
            r matches Ok(callsign) ==> callsign@ == normalized(input@),
    {
        Callsign::parse(input)
    }
}

impl Callsign {
    #[verifier::type_invariant]
    spec fn well_formed(&self) -> bool {
        is_callsign(self.text@)
    }

    /// Parse, validate, and normalize a callsign to uppercase.
    pub fn parse(input: &str) -> (r: Result<Self, CallsignError>)
        ensures
            outcome(r) == parsed(input@),
            r is Ok <==> is_callsign(normalized(input@)),
            r matches Ok(callsign) ==> callsign@ == normalized(input@),
    {
        let trimmed_input: String = trim(input);
        let text: String = to_upper(trimmed_input.as_str());
        let chars: Vec<char> = chars_of(text.as_str());
        if chars.len() == 0 {
            return Err(CallsignError::Empty);
        }
        let call: Result<agw::Call, String> = agw_call(text.as_str().as_bytes());
        proof {
            if is_plain(text@) {
                lemma_plain_accepted(text@);
            }
        }
        match call {
            Err(reason) => Err(CallsignError::Refused(reason)),
            Ok(_) => {
                if !only_callsign_chars(chars.as_slice()) {
                    return Err(CallsignError::InvalidCharacter);
                }
                Ok(Callsign { text })
            },
        }
    }

    /// The normalized callsign.
    #[must_use]
    pub fn as_str(&self) -> (r: &str)
        ensures
            r@ == self@,
            is_callsign(self@),
    {
        proof {
            use_type_invariant(self);
        }
        self.text.as_str()
    }

    /// Return the callsign without an SSID suffix.
    #[must_use]
    pub fn base(&self) -> (r: &str)
        ensures
            r@ == base_of(self@),
    {
        let chars: Vec<char> = chars_of(self.text.as_str());
        let end: usize = find_char(chars.as_slice(), '-');
        assert(self.text@.subrange(0, end as int) =~= base_of(self@));
        self.text.as_str().substring_char(0, end)
    }

    /// Return this callsign's base with the supplied AX.25 SSID.
    pub fn with_ssid(&self, ssid: u8) -> (r: Result<Self, CallsignError>)
        ensures
            outcome(r) == (if ssid > 15 {
                Err(CallsignFault::SsidOutOfRange)
            } else {
                parsed(with_suffix(base_of(self@), ssid as nat))
            }),
            outcome(r) == ssid_attached(self@, ssid as nat),
    {
        if ssid > 15 {
            return Err(CallsignError::SsidOutOfRange);
        }
        let mut text: String = self.base().to_owned();
        text.push('-');
        push_decimal(&mut text, ssid as u64);
        assert(text@ =~= with_suffix(base_of(self@), ssid as nat));
        Callsign::parse(text.as_str())
    }

    /// Convert this callsign to the representation required by AGW.
    pub fn to_agw_call(&self) -> (r: Result<agw::Call, CallsignError>)
        ensures
            r is Ok,
            r->Ok_0 == agw_call_result(encode_utf8(self@))->Ok_0,
            agw_call_result(encode_utf8(self@)) is Ok,
    {
        proof {
            use_type_invariant(self);
            lemma_plain_accepted(self.text@);
        }
        match agw_call(self.text.as_str().as_bytes()) {
            Ok(call) => Ok(call),
            Err(reason) => Err(CallsignError::Refused(reason)),
        }
    }
}

/// AGW takes a plain text exactly up to nine characters.
proof fn lemma_plain_accepted(s: Seq<char>)
    requires
        is_plain(s),
    ensures
        agw_accepts(encode_utf8(s)) <==> s.len() <= 9,
{
    assert(is_ascii_chars(s)) by {
        assert forall|i: int| 0 <= i < s.len() implies '\0' <= #[trigger] s[i] <= '\u{7f}' by {
            assert(is_callsign_char(s[i]));
        }
    }
    is_ascii_chars_encode_utf8(s);
    let bytes = encode_utf8(s);
    assert forall|i: int| 0 <= i < bytes.len() implies agw_byte(#[trigger] bytes[i]) by {
        assert(is_callsign_char(s[i]));
        assert(bytes[i] == s[i] as u8);
    }
    if s.len() <= 9 {
        assert(is_end(bytes, bytes.len() as int));
    } else if agw_accepts(bytes) {
        let end = choose|end: int|
            {
                &&& 0 <= end <= bytes.len()
                &&& end <= 9
                &&& end < bytes.len() ==> bytes[end] == 0
                &&& forall|i: int| 0 <= i < end ==> agw_byte(#[trigger] bytes[i])
                &&& #[trigger] is_end(bytes, end)
            };
        assert(agw_byte(bytes[end]));
    }
}

proof fn lemma_trim_keeps(s: Seq<char>)
    requires
        s.len() > 0,
        !is_space(s[0]),
        !is_space(s.last()),
    ensures
        trimmed(s) == s,
{
    let p = |c: char| !is_space(c);
    assert(p(s[0]));
    lemma_position(s, p, 0);
    assert(trim_start(s) =~= s);
}

/// A normalized callsign reads back as itself.
pub proof fn law_callsign_reads_back(s: Seq<char>)
    requires
        is_callsign(s),
    ensures
        normalized(s) == s,
        parsed(s) == Ok::<Seq<char>, CallsignFault>(s),
{
    assert(is_callsign_char(s[0]));
    assert(is_callsign_char(s.last()));
    lemma_trim_keeps(s);
    assert forall|i: int| 0 <= i < s.len() implies upper(#[trigger] s[i]) == s[i] by {
        assert(is_callsign_char(s[i]));
    }
    assert(upper_text(s) =~= s);
    lemma_plain_accepted(s);
}

proof fn lemma_upper_keeps_space(c: char)
    ensures
        is_space(upper(c)) == is_space(c),
        upper(upper(c)) == upper(c),
{
}

proof fn lemma_trim_end_upper(s: Seq<char>)
    ensures
        trim_end(upper_text(s)) == upper_text(trim_end(s)),
    decreases s.len(),
{
    if s.len() > 0 {
        lemma_upper_keeps_space(s.last());
        if is_space(s.last()) {
            lemma_trim_end_upper(s.drop_last());
            assert(upper_text(s).drop_last() =~= upper_text(s.drop_last()));
        }
    }
}

/// Case and surrounding white space make no difference to a typed callsign.
pub proof fn law_case_is_ignored(input: Seq<char>)
    ensures
        normalized(upper_text(input)) == normalized(input),
        parsed(upper_text(input)) == parsed(input),
{
    let p = |c: char| !is_space(c);
    let k = position(input, p);
    lemma_position_bounds(input, p);
    let up = upper_text(input);
    assert forall|i: int| 0 <= i < k implies !p(#[trigger] up[i]) by {
        assert(!p(input[i]));
        lemma_upper_keeps_space(input[i]);
    }
    if k < input.len() {
        lemma_upper_keeps_space(input[k]);
        assert(p(up[k]));
    }
    lemma_position(up, p, k);
    assert(trim_start(up) =~= upper_text(trim_start(input)));
    lemma_trim_end_upper(trim_start(input));
    let t = trimmed(input);
    assert forall|i: int| 0 <= i < t.len() implies upper(upper(#[trigger] t[i])) == upper(t[i]) by {
        lemma_upper_keeps_space(t[i]);
    }
    assert(upper_text(upper_text(t)) =~= upper_text(t));
}

/// The base of a callsign holds no hyphen and is its own base.
pub proof fn law_base_has_no_hyphen(s: Seq<char>)
    ensures
        !base_of(s).contains('-'),
        base_of(base_of(s)) == base_of(s),
{
    lemma_first_of(s, '-');
    let b = base_of(s);
    assert forall|i: int| 0 <= i < b.len() implies #[trigger] b[i] != '-' by {
        assert(b[i] == s[i]);
    }
    lemma_first_of_unique(b, '-', b.len() as int);
    assert(base_of(b) =~= b);
}

/// Changing the SSID of a callsign keeps its base, and succeeds exactly where
/// the result has no more than nine characters.
pub proof fn law_ssid_keeps_base(s: Seq<char>, ssid: nat)
    requires
        is_callsign(s),
        ssid <= 15,
    ensures
        base_of(with_suffix(base_of(s), ssid)) == base_of(s),
        parsed(with_suffix(base_of(s), ssid)) is Ok <==> base_of(s).len() + (if ssid < 10 {
            2int
        } else {
            3
        }) <= 9,
        parsed(with_suffix(base_of(s), ssid)) matches Ok(text) ==> text == with_suffix(
            base_of(s),
            ssid,
        ),
{
    law_base_has_no_hyphen(s);
    lemma_first_of(s, '-');
    let b = base_of(s);
    let t = with_suffix(b, ssid);
    assert forall|i: int| 0 <= i < b.len() implies #[trigger] t[i] != '-' by {
        assert(t[i] == b[i]);
        assert(b.contains(b[i]));
    }
    lemma_first_of_unique(t, '-', b.len() as int);
    assert(base_of(t) =~= b);
    reveal_with_fuel(decimal, 3);
    assert(is_plain(t)) by {
        assert forall|i: int| 0 <= i < t.len() implies is_callsign_char(#[trigger] t[i]) by {
            if i < b.len() {
                assert(t[i] == s[i]);
            }
        }
    }
    assert(is_callsign_char(t[0]));
    assert(is_callsign_char(t.last()));
    lemma_trim_keeps(t);
    assert forall|i: int| 0 <= i < t.len() implies upper(#[trigger] t[i]) == t[i] by {
        assert(is_callsign_char(t[i]));
    }
    assert(upper_text(t) =~= t);
    lemma_plain_accepted(t);
}

/// What a typed text is parsed to is a normalized callsign, and a text is parsed
/// if and only if its normalized form is one.
pub proof fn law_parsed_is_callsign(input: Seq<char>)
    ensures
        parsed(input) is Ok <==> is_callsign(normalized(input)),
        parsed(input) matches Ok(text) ==> text == normalized(input),
{
    let text = normalized(input);
    if is_plain(text) {
        lemma_plain_accepted(text);
    }
}

/// The base of a callsign is what stands in front of its first hyphen, and all
/// of it where there is none. An SSID is attached with one hyphen, in decimal.
pub proof fn law_base_ends_at_the_hyphen(a: Seq<char>, b: Seq<char>, ssid: nat)
    requires
        !a.contains('-'),
    ensures
        base_of(a) == a,
        base_of(a + seq!['-'] + b) == a,
        with_suffix(a, ssid) == a + seq!['-'] + decimal(ssid),
        base_of(with_suffix(a, ssid)) == a,
{
    assert forall|i: int| 0 <= i < a.len() implies #[trigger] a[i] != '-' by {
        assert(a.contains(a[i]));
    }
    lemma_first_of_unique(a, '-', a.len() as int);
    assert(a.take(a.len() as int) =~= a);
    let s = a + seq!['-'] + b;
    lemma_first_of_unique(s, '-', a.len() as int);
    assert(s.take(a.len() as int) =~= a);
    let t = with_suffix(a, ssid);
    lemma_first_of_unique(t, '-', a.len() as int);
    assert(t.take(a.len() as int) =~= a);
}

/// A text is a callsign where it has, without white space at its ends, one to
/// nine ASCII letters, digits and hyphens; the callsign is that text with its
/// letters in upper case and nothing else changed. A blank text is refused as
/// empty, and white space at either end makes no difference.
pub proof fn law_what_a_callsign_is(input: Seq<char>, c: char)
    ensures
        ({
            let text = trimmed(input);
            &&& parsed(input) is Ok <==> 1 <= text.len() <= 9 && forall|i: int|
                0 <= i < text.len() ==> {
                    let n = #[trigger] text[i] as int;
                    48 <= n <= 57 || 65 <= n <= 90 || 97 <= n <= 122 || n == 45
                }
            &&& parsed(input) matches Ok(callsign) ==> callsign == upper_text(text)
            &&& parsed(input) == Err::<Seq<char>, CallsignFault>(CallsignFault::Empty)
                <==> text.len() == 0
        }),
        is_space(c) ==> parsed(seq![c] + input) == parsed(input),
        is_space(c) ==> parsed(input.push(c)) == parsed(input),
{
    law_parsed_is_callsign(input);
    crate::text::law_trimming(input, c);
    let text = trimmed(input);
    let up = upper_text(text);
    if parsed(input) is Ok {
        assert forall|i: int| 0 <= i < text.len() implies ({
            let n = #[trigger] text[i] as int;
            48 <= n <= 57 || 65 <= n <= 90 || 97 <= n <= 122 || n == 45
        }) by {
            assert(is_callsign_char(up[i]));
        }
    }
    if 1 <= text.len() <= 9 && forall|i: int|
        0 <= i < text.len() ==> {
            let n = #[trigger] text[i] as int;
            48 <= n <= 57 || 65 <= n <= 90 || 97 <= n <= 122 || n == 45
        } {
        assert forall|i: int| 0 <= i < up.len() implies is_callsign_char(#[trigger] up[i]) by {
            let n = text[i] as int;
            assert(48 <= n <= 57 || 65 <= n <= 90 || 97 <= n <= 122 || n == 45);
        }
    }
}

/// A refusal is reported with its reason, and a parsed callsign is handed over as
/// it is held.
pub proof fn law_refusals_give_the_reason(callsign: Callsign, reason: String)
    ensures
        callsign_message(CallsignFault::Refused(reason@)) == "invalid callsign: "@ + reason@,
        outcome(Ok(callsign)) == Ok::<Seq<char>, CallsignFault>(callsign@),
        outcome(Err(CallsignError::Refused(reason))) == Err::<Seq<char>, CallsignFault>(
            CallsignFault::Refused(reason@),
        ),
        outcome(Err(CallsignError::Empty)) == Err::<Seq<char>, CallsignFault>(
            CallsignFault::Empty,
        ),
        outcome(Err(CallsignError::InvalidCharacter)) == Err::<Seq<char>, CallsignFault>(
            CallsignFault::InvalidCharacter,
        ),
        outcome(Err(CallsignError::SsidOutOfRange)) == Err::<Seq<char>, CallsignFault>(
            CallsignFault::SsidOutOfRange,
        ),
{
}

/// A callsign with another SSID is its base, a hyphen and the SSID in decimal, up
/// to 15, where that has at most nine characters.
pub proof fn law_ssids_are_attached(callsign: Seq<char>, ssid: nat)
    requires
        is_callsign(callsign),
    ensures
        ssid > 15 ==> ssid_attached(callsign, ssid) == Err::<Seq<char>, CallsignFault>(
            CallsignFault::SsidOutOfRange,
        ),
        ssid <= 15 ==> (ssid_attached(callsign, ssid) is Ok <==> base_of(callsign).len() + 1
            + decimal(ssid).len() <= 9),
        ssid_attached(callsign, ssid) matches Ok(text) ==> text == base_of(callsign) + "-"@
            + decimal(ssid),
{
    if ssid <= 15 {
        law_ssid_keeps_base(callsign, ssid);
        if ssid < 10 {
            crate::text::law_decimal(0, ssid);
        } else {
            crate::text::law_decimal(1, (ssid - 10) as nat);
            crate::text::law_decimal(1, 1);
        }
    }
    reveal_strlit("-");
    assert("-"@ =~= seq!['-']);
}

} // verus!
