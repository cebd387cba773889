//! The decisions of a client session (which message a line of user input
//! becomes, when the session ends) and of a server session (what each
//! request is answered, when the connection is closed). The loops that
//! read, send and wait stand outside the library.

use crate::interface::{MessageView, RustopolyMessage};
use vstd::prelude::*;
use vstd::string::StringExecFns;

verus! {

/// Whether `char::is_whitespace` holds of `c` (the Unicode property
/// White_Space).
pub uninterp spec fn char_is_whitespace(c: char) -> bool;

/// `s` with leading and trailing whitespace removed.
pub open spec fn trim_chars(s: Seq<char>) -> Seq<char>
    decreases s.len(),
{
    if s.len() > 0 && char_is_whitespace(s[0]) {
        trim_chars(s.drop_first())
    } else if s.len() > 0 && char_is_whitespace(s.last()) {
        trim_chars(s.drop_last())
    } else {
        s
    }
}

/// Trimming keeps a contiguous part of the text and drops only
/// whitespace: the result is `s[i..j]`, every character before `i` and
/// from `j` on is whitespace, and a non-empty result neither starts nor
/// ends with whitespace.
pub proof fn lemma_trim_chars(s: Seq<char>) -> (bounds: (int, int))
    ensures
        0 <= bounds.0 <= bounds.1 <= s.len(),
        trim_chars(s) == s.subrange(bounds.0, bounds.1),
        forall|k: int| 0 <= k < bounds.0 ==> char_is_whitespace(#[trigger] s[k]),
        forall|k: int| bounds.1 <= k < s.len() ==> char_is_whitespace(#[trigger] s[k]),
        bounds.0 < bounds.1 ==> !char_is_whitespace(s[bounds.0]) && !char_is_whitespace(
            s[bounds.1 - 1],
        ),
    decreases s.len(),
{
    if s.len() > 0 && char_is_whitespace(s[0]) {
        let t = s.drop_first();
        let (i, j) = lemma_trim_chars(t);
        assert(s.subrange(i + 1, j + 1) =~= t.subrange(i, j));
        assert forall|k: int| 0 <= k < i + 1 implies char_is_whitespace(#[trigger] s[k]) by {
            if k > 0 {
                assert(s[k] == t[k - 1]);
            }
        }
        assert forall|k: int| j + 1 <= k < s.len() implies char_is_whitespace(#[trigger] s[k]) by {
            assert(s[k] == t[k - 1]);
        }
        (i + 1, j + 1)
    } else if s.len() > 0 && char_is_whitespace(s.last()) {
        let t = s.drop_last();
        let (i, j) = lemma_trim_chars(t);
        assert(s.subrange(i, j) =~= t.subrange(i, j));
        assert forall|k: int| j <= k < s.len() implies char_is_whitespace(#[trigger] s[k]) by {
            if k < s.len() - 1 {
                assert(s[k] == t[k]);
            }
        }
        assert(forall|k: int| 0 <= k < t.len() ==> s[k] == t[k]);
        (i, j)
    } else {
        assert(s.subrange(0, s.len() as int) =~= s);
        (0, s.len() as int)
    }
}

/// Calls `str::trim`: the result is `s` without its leading and trailing
/// whitespace, where whitespace is what `char::is_whitespace` accepts.
#[verifier::external_body]
fn trim(s: &str) -> (r: &str)
    ensures
        r@ == trim_chars(s@),
        r@.len() > 0 ==> !char_is_whitespace(r@[0]) && !char_is_whitespace(r@.last()),
{
    s.trim()
}

/// Calls `str::starts_with` with a string pattern: whether `prefix` is a
/// prefix of `s`.
#[verifier::external_body]
fn starts_with(s: &str, prefix: &str) -> (r: bool)
    ensures
        r == prefix@.is_prefix_of(s@),
{
    s.starts_with(prefix)
}

/// The message that a trimmed line of user input stands for: a quit
/// request when it starts with "quit", else the line as text.
pub open spec fn input_message(line: Seq<char>) -> MessageView {
    if "quit"@.is_prefix_of(line) {
        MessageView::Quit
    } else {
        MessageView::Text(line)
    }
}

/// Builds the request that the client sends for one line of user input.
pub fn message_from_input(line: &str) -> (m: RustopolyMessage)
    ensures
        m@ == input_message(trim_chars(line@)),
{
    let input = trim(line);
    if starts_with(input, "quit") {
        RustopolyMessage::Quit
    } else {
        RustopolyMessage::Text(input.to_owned())
    }
}

/// The text with which the server echoes a text request.
pub open spec fn echo_text(request: Seq<char>) -> Seq<char> {
    "Echo server: '"@ + request + "'"@
}

/// What the server answers a request, and whether it then closes the
/// connection.
pub open spec fn reply_to(request: MessageView) -> (MessageView, bool) {
    match request {
        MessageView::Quit => (MessageView::Quit, true),
        MessageView::Text(s) => (MessageView::Text(echo_text(s)), false),
    }
}

/// The server's answer to one request.
pub struct ServerReply {
    /// The message sent back to the client.
    pub response: RustopolyMessage,
    /// Whether the connection is shut down after the response is sent.
    pub close_connection: bool,
}

/// Decides the server's answer to one request of a client.
pub fn handle_request(request: &RustopolyMessage) -> (r: ServerReply)
    ensures
        (r.response@, r.close_connection) == reply_to(request@),
{
    match request {
        RustopolyMessage::Quit => ServerReply { response: RustopolyMessage::Quit, close_connection: true },
        RustopolyMessage::Text(request_string) => {
            let mut text = String::new();
            text.append("Echo server: '");
            text.append(request_string.as_str());
            text.append("'");
            ServerReply { response: RustopolyMessage::Text(text), close_connection: false }
        },
    }
}

/// The server echoes a text request as the text "Echo server: '", then the
/// whole request, then "'", and keeps the connection open; it answers a
/// quit request with a quit confirmation and closes the connection.
pub proof fn lemma_echo_reply(request: Seq<char>)
    ensures
        reply_to(MessageView::Text(request)) == (
            MessageView::Text("Echo server: '"@ + request + "'"@),
            false,
        ),
        reply_to(MessageView::Text(request)).0 matches MessageView::Text(r) && {
            &&& r.len() == request.len() + 15
            &&& r.subrange(14, 14 + request.len() as int) == request
            &&& r[0] == 'E'
            &&& r[13] == '\''
            &&& r.last() == '\''
        },
        reply_to(MessageView::Quit) == (MessageView::Quit, true),
{
    reveal_strlit("Echo server: '");
    reveal_strlit("'");
    let r = "Echo server: '"@ + request + "'"@;
    assert(r.subrange(14, 14 + request.len() as int) =~= request);
}

/// A trimmed line of input becomes a quit request exactly when it starts
/// with "quit", and otherwise the text request carrying the whole line.
pub proof fn lemma_input_message(line: Seq<char>)
    ensures
        input_message(line) is Quit <==> (line.len() >= 4 && line.take(4) == seq!['q', 'u', 'i', 't']),
        !(input_message(line) is Quit) ==> input_message(line) == MessageView::Text(line),
{
    reveal_strlit("quit");
    if line.len() >= 4 && line.take(4) == seq!['q', 'u', 'i', 't'] {
        assert(line.subrange(0, 4) =~= "quit"@);
    }
    if "quit"@.is_prefix_of(line) {
        assert(line.take(4) =~= seq!['q', 'u', 'i', 't']);
    }
}

/// The session ends on both sides exactly when the client asked to quit:
/// the server closes the connection after answering a request exactly
/// when the request is a quit request, and its answer is then the quit
/// confirmation on which the client stops, and only then.
pub proof fn lemma_session_ends_on_quit(request: MessageView)
    ensures
        reply_to(request).1 <==> request is Quit,
        reply_to(request).0 is Quit <==> request is Quit,
{
}

/// A line of input whose trimmed text starts with "quit" ends the session.
pub proof fn lemma_quit_line_ends_session(line: Seq<char>)
    requires
        "quit"@.is_prefix_of(trim_chars(line)),
    ensures
        input_message(trim_chars(line)) is Quit,
        reply_to(input_message(trim_chars(line))).1,
        reply_to(input_message(trim_chars(line))).0 is Quit,
{
}

} // verus!
