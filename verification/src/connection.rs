//! The edge of the transport: what a frame means, and what may be written to a
//! log or into an error.

use crate::error::{DXLinkError, ErrorView};
use crate::json::{JsonTree, JsonValue};
use crate::text::{chars_of, control_char, decimal_text, same_ignoring_case, words_of};
use crate::{json, text};
use vstd::prelude::*;

verus! {

/// How many seconds establishing the WebSocket may take before it is
/// abandoned.
///
/// Without a bound, a server that accepts the TCP connection and then never
/// completes the upgrade holds the caller open indefinitely.
pub const DEFAULT_CONNECT_TIMEOUT_SECS: u64 = 10;

/// Written in place of a credential.
pub const REDACTED_PLACEHOLDER: &'static str = "<redacted>";

/// The most characters kept of a text that the server chose.
pub const MAX_CLOSE_REASON_LEN: usize = 120;

/// The longest word kept of a text that the server chose. Real reasons are
/// made of short words; anything longer has the shape of a credential.
pub const MAX_CLOSE_REASON_WORD_LEN: usize = 32;

// ---------------------------------------------------------------------------
// Text that the server chose
// ---------------------------------------------------------------------------
/// A text without its control characters.
pub open spec fn printable(s: Seq<char>) -> Seq<char> {
    s.filter(|c: char| !text::is_control_char(c))
}

/// A word, or the placeholder where the word is too long to be one.
pub open spec fn masked_word(word: Seq<char>) -> Seq<char> {
    if word.len() > MAX_CLOSE_REASON_WORD_LEN {
        REDACTED_PLACEHOLDER@
    } else {
        word
    }
}

/// The words of a text, the overlong ones masked, with one space between them.
pub open spec fn masked_text(s: Seq<char>) -> Seq<char> {
    text::joined(text::words(printable(s)).map_values(|w: Seq<char>| masked_word(w)), " "@)
}

/// A text that the server chose, made safe to log.
pub open spec fn sanitized(s: Seq<char>) -> Seq<char> {
    let text = masked_text(s);
    if text.len() > MAX_CLOSE_REASON_LEN {
        text.take(MAX_CLOSE_REASON_LEN as int)
    } else {
        text
    }
}

/// Makes a text that the server chose safe to log and to put into an error.
///
/// The path on which a server closes is also the one on which authentication
/// fails, so a server that echoed the token back would turn error reporting
/// into a leak. Control characters are dropped, runs too long to be a word are
/// masked, and the result is cut off.
pub fn sanitize_server_text(reason: &str) -> (r: String)
    ensures
        r@ == sanitized(reason@),
{
    let all = chars_of(reason);
    let mut kept: Vec<char> = Vec::new();
    let mut i: usize = 0;
    while i < all.len()
        invariant
            i <= all.len(),
            kept@ == printable(all@.take(i as int)),
        decreases all.len() - i,
    {
        proof {
            reveal(Seq::filter);
            assert(all@.take(i + 1).drop_last() =~= all@.take(i as int));
        }
        if !control_char(all[i]) {
            kept.push(all[i]);
        }
        i += 1;
    }
    assert(all@.take(all@.len() as int) =~= all@);

    let found = words_of(&kept);
    let ghost masked = text::words(printable(reason@)).map_values(|w: Seq<char>| masked_word(w));
    let mut text = String::new();
    let mut n: usize = 0;
    while n < found.len()
        invariant
            n <= found.len(),
            text::runs(found@) == text::words(printable(reason@)),
            masked == text::words(printable(reason@)).map_values(|w: Seq<char>| masked_word(w)),
            text@ == text::joined(masked.take(n as int), " "@),
        decreases found.len() - n,
    {
        let ghost before = text@;
        assert(masked.take(n + 1).drop_last() =~= masked.take(n as int));
        assert(masked.take(n + 1).last() == masked[n as int]);
        assert(text::runs(found@)[n as int] == found@[n as int]@);
        if n > 0 {
            text.append(" ");
        }
        let ghost separated = text@;
        if found[n].len() > MAX_CLOSE_REASON_WORD_LEN {
            text.append(REDACTED_PLACEHOLDER);
        } else {
            push_all(&mut text, &found[n]);
        }
        assert(text@ == separated + masked[n as int]);
        proof {
            if n == 0 {
                assert(text@ =~= masked[0]);
            }
        }
        n += 1;
    }
    assert(masked.take(masked.len() as int) =~= masked);

    let long = chars_of(text.as_str());
    if long.len() <= MAX_CLOSE_REASON_LEN {
        return text;
    }
    let mut out = String::new();
    let mut k: usize = 0;
    while k < MAX_CLOSE_REASON_LEN
        invariant
            k <= MAX_CLOSE_REASON_LEN,
            long@.len() > MAX_CLOSE_REASON_LEN,
            out@ == long@.take(k as int),
        decreases MAX_CLOSE_REASON_LEN - k,
    {
        out.push(long[k]);
        assert(long@.take(k + 1) =~= long@.take(k as int).push(long@[k as int]));
        k += 1;
    }
    out
}

fn push_all(out: &mut String, chars: &Vec<char>)
    ensures
        final(out)@ == old(out)@ + chars@,
{
    let mut i: usize = 0;
    assert(out@ + chars@.take(0) =~= out@);
    while i < chars.len()
        invariant
            i <= chars.len(),
            out@ == old(out)@ + chars@.take(i as int),
        decreases chars.len() - i,
    {
        out.push(chars[i]);
        assert(chars@.take(i + 1) =~= chars@.take(i as int).push(chars@[i as int]));
        assert(old(out)@ + chars@.take(i + 1) =~= (old(out)@ + chars@.take(i as int)).push(
            chars@[i as int],
        ));
        i += 1;
    }
    assert(chars@.take(chars@.len() as int) =~= chars@);
}

/// Whether no stretch of a text without white space is longer than a word may
/// be.
pub open spec fn has_short_runs(s: Seq<char>) -> bool {
    forall|i: int, j: int|
        0 <= i <= j <= s.len() && #[trigger] text::is_stretch(s, i, j) ==> j - i <= MAX_CLOSE_REASON_WORD_LEN
}

/// Whatever text the server chose, what is kept of it is at most
/// [`MAX_CLOSE_REASON_LEN`] characters long, holds no control character, and
/// holds no stretch without white space that is longer than
/// [`MAX_CLOSE_REASON_WORD_LEN`]: nothing with the shape of a credential comes
/// through.
pub proof fn sanitized_text_is_safe(s: Seq<char>)
    ensures
        sanitized(s).len() <= MAX_CLOSE_REASON_LEN,
        forall|i: int| 0 <= i < sanitized(s).len() ==> !text::is_control_char(#[trigger] sanitized(s)[i]),
        has_short_runs(sanitized(s)),
{
    let found = text::words(printable(s));
    let masked = found.map_values(|w: Seq<char>| masked_word(w));
    text::words_are_words(printable(s));
    printable_has_no_control(s);
    reveal_strlit("<redacted>");
    assert forall|i: int| 0 <= i < masked.len() implies is_plain_word(#[trigger] masked[i]) by {
        assert(masked[i] == masked_word(found[i]));
        if found[i].len() <= MAX_CLOSE_REASON_WORD_LEN {
            assert forall|j: int| 0 <= j < found[i].len() implies !text::is_white_space(found[i][j])
                && !text::is_control_char(found[i][j]) by {
                assert(printable(s).contains(found[i][j]));
            }
        }
    }
    joined_plain_words(masked);
    let text = masked_text(s);
    if text.len() > MAX_CLOSE_REASON_LEN {
        let cut = text.take(MAX_CLOSE_REASON_LEN as int);
        assert forall|i: int, j: int|
            0 <= i <= j <= cut.len() && #[trigger] text::is_stretch(cut, i, j) implies j - i
            <= MAX_CLOSE_REASON_WORD_LEN by {
            assert(text::is_stretch(text, i, j)) by {
                assert forall|k: int| i <= k < j implies !text::is_white_space(#[trigger] text[k]) by {
                    assert(text[k] == cut[k]);
                }
            }
        }
    }
}

/// What is kept of a text that the server chose has no space in front, none
/// behind another one, and no other white space; to make it safe once more only
/// takes away the space that it may end in where it was cut off.
pub proof fn sanitized_text_is_tidy(s: Seq<char>)
    ensures
        text::is_single_spaced(sanitized(s)),
        sanitized(sanitized(s)) == text::trimmed_end(sanitized(s)),
{
    let found = text::words(printable(s));
    let masked = found.map_values(|w: Seq<char>| masked_word(w));
    let text = masked_text(s);
    let kept = sanitized(s);
    text::words_are_words(printable(s));
    reveal_strlit("<redacted>");
    assert forall|i: int| 0 <= i < masked.len() implies (#[trigger] masked[i]).len() > 0 by {
        assert(masked[i] == masked_word(found[i]));
    }
    assert forall|i: int, j: int|
        0 <= i < masked.len() && 0 <= j < masked[i].len() implies !text::is_white_space(
        #[trigger] masked[i][j],
    ) by {
        assert(masked[i] == masked_word(found[i]));
        if found[i].len() <= MAX_CLOSE_REASON_WORD_LEN {
            assert(masked[i][j] == found[i][j]);
        }
    }
    text::joined_words_are_single_spaced(masked);
    assert forall|i: int| 0 <= i < kept.len() && text::is_white_space(#[trigger] kept[i]) implies kept[i]
        == ' ' && i > 0 && !text::is_white_space(kept[i - 1]) by {
        assert(kept[i] == text[i]);
        assert(kept[i - 1] == text[i - 1]);
    }
    sanitized_text_is_safe(s);
    printable_of_printable(kept);
    text::words_are_stretches(kept, MAX_CLOSE_REASON_WORD_LEN as int);
    let again = text::words(kept);
    assert(again.map_values(|w: Seq<char>| masked_word(w)) =~= again);
    text::single_spaced_text_is_its_words(kept);
    trimming_shortens(kept);
}

proof fn printable_of_printable(s: Seq<char>)
    requires
        forall|i: int| 0 <= i < s.len() ==> !text::is_control_char(#[trigger] s[i]),
    ensures
        printable(s) == s,
    decreases s.len(),
{
    reveal(Seq::filter);
    if s.len() > 0 {
        printable_of_printable(s.drop_last());
        assert(!text::is_control_char(s[s.len() - 1]));
        assert(s.drop_last().push(s.last()) =~= s);
    } else {
        assert(printable(s) =~= s);
    }
}

proof fn trimming_shortens(s: Seq<char>)
    ensures
        text::trimmed_end(s).len() <= s.len(),
    decreases s.len(),
{
    if s.len() > 0 {
        trimming_shortens(s.drop_last());
    }
}

/// Whether a word is short and plain.
spec fn is_plain_word(word: Seq<char>) -> bool {
    &&& word.len() <= MAX_CLOSE_REASON_WORD_LEN
    &&& forall|j: int|
        0 <= j < word.len() ==> !text::is_white_space(#[trigger] word[j]) && !text::is_control_char(word[j])
}

proof fn printable_has_no_control(s: Seq<char>)
    ensures
        forall|c: char| #[trigger] printable(s).contains(c) ==> !text::is_control_char(c),
    decreases s.len(),
{
    reveal(Seq::filter);
    if s.len() > 0 {
        printable_has_no_control(s.drop_last());
        let init = printable(s.drop_last());
        assert forall|c: char| #[trigger] printable(s).contains(c) implies !text::is_control_char(c) by {
            let k = choose|k: int| 0 <= k < printable(s).len() && printable(s)[k] == c;
            if k < init.len() {
                assert(init[k] == c);
                assert(init.contains(c));
            }
        }
    }
}

proof fn joined_plain_words(parts: Seq<Seq<char>>)
    requires
        forall|i: int| 0 <= i < parts.len() ==> is_plain_word(#[trigger] parts[i]),
    ensures
        forall|i: int|
            0 <= i < text::joined(parts, " "@).len() ==> !text::is_control_char(
                #[trigger] text::joined(parts, " "@)[i],
            ),
        has_short_runs(text::joined(parts, " "@)),
    decreases parts.len(),
{
    reveal_strlit(" ");
    let whole = text::joined(parts, " "@);
    if parts.len() == 1 {
        assert(is_plain_word(parts[0]));
    } else if parts.len() > 1 {
        let init = parts.drop_last();
        joined_plain_words(init);
        let left = text::joined(init, " "@);
        let last = parts.last();
        assert(is_plain_word(parts[parts.len() - 1]));
        assert(whole[left.len() as int] == ' ');
        assert forall|i: int, j: int| 0 <= i <= j <= whole.len() && #[trigger] text::is_stretch(whole, i, j) implies j - i
            <= MAX_CLOSE_REASON_WORD_LEN by {
            if i <= left.len() < j {
                assert(!text::is_white_space(whole[left.len() as int]));
            } else if j <= left.len() {
                assert(text::is_stretch(left, i, j)) by {
                    assert forall|k: int| i <= k < j implies !text::is_white_space(#[trigger] left[k]) by {
                        assert(whole[k] == left[k]);
                    }
                }
            }
        }
        assert forall|i: int| 0 <= i < whole.len() implies !text::is_control_char(#[trigger] whole[i]) by {
            if i < left.len() {
                assert(whole[i] == left[i]);
            } else if i > left.len() {
                assert(whole[i] == last[i - left.len() - 1]);
            }
        }
    }
}

// ---------------------------------------------------------------------------
// Credentials in outbound messages
// ---------------------------------------------------------------------------
/// Whether a field of this name carries a credential.
pub open spec fn names_credential(name: Seq<char>) -> bool {
    text::ascii_lowered(name) == text::ascii_lowered("token"@)
}

/// A value with every credential masked, at any nesting level.
pub open spec fn redacted(value: JsonTree) -> JsonTree
    decreases value,
{
    match value {
        JsonTree::Array(items) => JsonTree::Array(
            Seq::new(
                items.len(),
                |i: int|
                    if 0 <= i < items.len() {
                        redacted(items[i])
                    } else {
                        JsonTree::Null
                    },
            ),
        ),
        JsonTree::Object(fields) => JsonTree::Object(
            Seq::new(
                fields.len(),
                |i: int|
                    if 0 <= i < fields.len() {
                        (
                            fields[i].0,
                            if names_credential(fields[i].0) {
                                JsonTree::Text(REDACTED_PLACEHOLDER@)
                            } else {
                                redacted(fields[i].1)
                            },
                        )
                    } else {
                        (Seq::empty(), JsonTree::Null)
                    },
            ),
        ),
        _ => value,
    }
}

/// Masks the credentials in a value, at any nesting level.
pub fn redact_value(value: &mut JsonValue)
    ensures
        final(value)@ == redacted(old(value)@),
    decreases *old(value),
{
    match value {
        JsonValue::Array(items) => {
            let ghost before = items@;
            let mut i: usize = 0;
            while i < items.len()
                invariant
                    i <= items.len(),
                    items@.len() == before.len(),
                    *old(value) is Array,
                    before == (*old(value))->Array_0@,
                    forall|j: int|
                        0 <= j < i ==> json::tree(#[trigger] items@[j]) == redacted(json::tree(before[j])),
                    forall|j: int| i <= j < before.len() ==> items@[j] == before[j],
                decreases items.len() - i,
            {
                redact_value(&mut items[i]);
                i += 1;
            }
            assert(json::trees(items@) =~= redacted(JsonTree::Array(json::trees(before)))->Array_0);
        },
        JsonValue::Object(fields) => {
            let ghost before = fields@;
            let mut i: usize = 0;
            while i < fields.len()
                invariant
                    i <= fields.len(),
                    fields@.len() == before.len(),
                    *old(value) is Object,
                    before == (*old(value))->Object_0@,
                    forall|j: int| 0 <= j < before.len() ==> (#[trigger] fields@[j]).0 == before[j].0,
                    forall|j: int|
                        0 <= j < i ==> json::tree((#[trigger] fields@[j]).1) == if names_credential(
                            before[j].0@,
                        ) {
                            JsonTree::Text(REDACTED_PLACEHOLDER@)
                        } else {
                            redacted(json::tree(before[j].1))
                        },
                    forall|j: int| i <= j < before.len() ==> fields@[j] == before[j],
                decreases fields.len() - i,
            {
                if same_ignoring_case(fields[i].0.as_str(), "token") {
                    fields[i].1 = JsonValue::Text(REDACTED_PLACEHOLDER.to_owned());
                } else {
                    redact_value(&mut fields[i].1);
                }
                i += 1;
            }
            assert(json::field_trees(fields@) =~= redacted(
                JsonTree::Object(json::field_trees(before)),
            )->Object_0);
        },
        _ => {},
    }
}

/// How an outbound message reads in a log.
pub open spec fn redacted_text(message: Seq<char>) -> Seq<char> {
    match json::parsed(message) {
        Ok(value) => json::rendered(redacted(value)),
        Err(_) => REDACTED_PLACEHOLDER@,
    }
}

/// A copy of an outbound message that is safe to log.
///
/// Every field named `token`, at any nesting level and in any case, is masked.
/// A message that cannot be read back as JSON is withheld as a whole.
pub fn redact_sensitive(json: &str) -> (r: String)
    ensures
        r@ == redacted_text(json@),
{
    match JsonValue::parse(json) {
        Ok(value) => {
            let mut value = value;
            redact_value(&mut value);
            value.render()
        },
        Err(_) => REDACTED_PLACEHOLDER.to_owned(),
    }
}

/// Whether no credential is left in a value: every field that names one holds
/// the placeholder, at any nesting level.
pub open spec fn holds_no_credential(value: JsonTree) -> bool
    decreases value,
{
    match value {
        JsonTree::Array(items) => forall|i: int|
            0 <= i < items.len() ==> holds_no_credential(#[trigger] items[i]),
        JsonTree::Object(fields) => forall|i: int|
            0 <= i < fields.len() ==> if names_credential((#[trigger] fields[i]).0) {
                fields[i].1 == JsonTree::Text(REDACTED_PLACEHOLDER@)
            } else {
                holds_no_credential(fields[i].1)
            },
        _ => true,
    }
}

/// No credential survives the masking, however deep it stands.
pub proof fn redacted_value_holds_no_credential(value: JsonTree)
    ensures
        holds_no_credential(redacted(value)),
    decreases value,
{
    match value {
        JsonTree::Array(items) => {
            let masked = redacted(value)->Array_0;
            assert forall|i: int| 0 <= i < masked.len() implies holds_no_credential(
                #[trigger] masked[i],
            ) by {
                redacted_value_holds_no_credential(items[i]);
            }
        },
        JsonTree::Object(fields) => {
            let masked = redacted(value)->Object_0;
            assert forall|i: int| 0 <= i < masked.len() implies if names_credential(
                (#[trigger] masked[i]).0,
            ) {
                masked[i].1 == JsonTree::Text(REDACTED_PLACEHOLDER@)
            } else {
                holds_no_credential(masked[i].1)
            } by {
                redacted_value_holds_no_credential(fields[i].1);
            }
        },
        _ => {},
    }
}

/// A value that holds no credential is logged as it is.
pub proof fn redacting_keeps_everything_else(value: JsonTree)
    requires
        holds_no_credential(value),
    ensures
        redacted(value) == value,
    decreases value,
{
    match value {
        JsonTree::Array(items) => {
            let masked = redacted(value)->Array_0;
            assert forall|i: int| 0 <= i < items.len() implies masked[i] == items[i] by {
                redacting_keeps_everything_else(items[i]);
            }
            assert(masked =~= items);
        },
        JsonTree::Object(fields) => {
            let masked = redacted(value)->Object_0;
            assert forall|i: int| 0 <= i < fields.len() implies masked[i] == fields[i] by {
                if !names_credential(fields[i].0) {
                    redacting_keeps_everything_else(fields[i].1);
                }
            }
            assert(masked =~= fields);
        },
        _ => {},
    }
}

/// To mask the credentials twice is to mask them once.
pub proof fn redacting_twice_is_redacting_once(value: JsonTree)
    ensures
        redacted(redacted(value)) == redacted(value),
{
    redacted_value_holds_no_credential(value);
    redacting_keeps_everything_else(redacted(value));
}

// ---------------------------------------------------------------------------
// Frames
// ---------------------------------------------------------------------------
/// Why a server closed the connection.
#[derive(Debug)]
pub struct CloseReason {
    /// The close code of the WebSocket protocol.
    pub code: u16,
    /// Free text that the server chose.
    pub reason: String,
}

/// What a read of the socket gave.
pub enum Frame {
    /// A text frame.
    Text(String),
    /// A ping; the transport answers it by itself.
    Ping,
    /// A pong.
    Pong,
    /// A raw frame, which a read does not give as a rule.
    Raw,
    /// A close frame.
    Close(Option<CloseReason>),
    /// A binary frame of so many bytes.
    Binary(usize),
    /// The transport failed.
    Failed(tokio_tungstenite::tungstenite::Error),
    /// There is nothing more to read.
    End,
}

/// What a read means.
pub enum Received {
    /// A payload.
    Payload(String),
    /// Ordinary traffic of the transport: read on.
    Skip,
    /// The server closed. The close handshake is to be completed, and the
    /// error is what the caller gets.
    Closed(DXLinkError),
    /// The read failed with this error.
    Failed(DXLinkError),
}

/// How a close reads in an error.
pub open spec fn close_detail(close: Option<CloseReason>) -> Seq<char> {
    match close {
        Some(close) => "code "@ + text::decimal(close.code as int) + ", reason: "@ + sanitized(
            close.reason@,
        ),
        None => "no close frame"@,
    }
}

/// Decides what a read means.
///
/// Only text frames carry payloads. Control frames are ordinary traffic and
/// are skipped. A close is reported as a lost connection, with what the server
/// said about it. A binary frame has no place in the protocol.
pub fn on_frame(frame: Frame) -> (r: Received)
    ensures
        match frame {
            Frame::Text(text) => r == Received::Payload(text),
            Frame::Ping | Frame::Pong | Frame::Raw => r is Skip,
            Frame::Close(close) => r matches Received::Closed(e) && e@
                == ErrorView::Connection(
                "server closed the connection ("@ + close_detail(close) + ")"@,
            ),
            Frame::Binary(bytes) => r matches Received::Failed(e) && e@
                == ErrorView::UnexpectedMessage(
                "Expected text message, got a binary frame of "@ + text::decimal(bytes as int)
                    + " bytes"@,
            ),
            Frame::Failed(error) => r == Received::Failed(DXLinkError::WebSocket(error)),
            Frame::End => r matches Received::Failed(e) && e@
                == ErrorView::Connection("Connection closed unexpectedly"@),
        },
{
    match frame {
        Frame::Text(text) => Received::Payload(text),
        Frame::Ping | Frame::Pong | Frame::Raw => Received::Skip,
        Frame::Close(close) => {
            let detail = match close {
                Some(close) => {
                    let mut detail = "code ".to_owned();
                    detail.append(decimal_text(close.code as u64).as_str());
                    detail.append(", reason: ");
                    detail.append(sanitize_server_text(close.reason.as_str()).as_str());
                    detail
                },
                None => "no close frame".to_owned(),
            };
            let mut text = "server closed the connection (".to_owned();
            text.append(detail.as_str());
            text.append(")");
            Received::Closed(DXLinkError::Connection(text))
        },
        Frame::Binary(bytes) => {
            let mut text = "Expected text message, got a binary frame of ".to_owned();
            text.append(decimal_text(bytes as u64).as_str());
            text.append(" bytes");
            Received::Failed(DXLinkError::UnexpectedMessage(text))
        },
        Frame::Failed(error) => Received::Failed(DXLinkError::WebSocket(error)),
        Frame::End => Received::Failed(
            DXLinkError::Connection("Connection closed unexpectedly".to_owned()),
        ),
    }
}

/// The error of a WebSocket that could not be established.
pub fn connect_failed(detail: &str) -> (r: DXLinkError)
    ensures
        r@ == ErrorView::Connection("Failed to connect: "@ + detail@),
{
    let mut text = "Failed to connect: ".to_owned();
    text.append(detail);
    DXLinkError::Connection(text)
}

/// The error of a WebSocket that was not established in time.
pub fn connect_timed_out(url: &str) -> (r: DXLinkError)
    ensures
        r@ == ErrorView::Timeout(
            "timed out after "@ + text::decimal(DEFAULT_CONNECT_TIMEOUT_SECS as int)
                + "s establishing the WebSocket connection to "@ + url@,
        ),
{
    let mut text = "timed out after ".to_owned();
    text.append(decimal_text(DEFAULT_CONNECT_TIMEOUT_SECS).as_str());
    text.append("s establishing the WebSocket connection to ");
    text.append(url);
    DXLinkError::Timeout(text)
}

} // verus!
