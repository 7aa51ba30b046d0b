//! What the client does with what the transport hands over: it announces
//! itself once it is online, and echoes the messages that come in, also
//! those that the server copies from another session of the account.

use crate::jid::{BareJid, FullJid, Jid, JidView};
use vstd::prelude::*;
use vstd::string::*;
use xmpp_parsers::Element;

verus! {

/// Who the message that a stanza is says it is from; none where the
/// stanza is no message, or does not say.
pub uninterp spec fn sender_of(stanza: Element) -> Option<JidView>;

/// The text in a language of the message that a stanza is; none where the
/// stanza is no message, or has no text in that language.
pub uninterp spec fn body_of(stanza: Element, lang: Seq<char>) -> Option<Seq<char>>;

/// Whether a stanza is a message that reports an error.
pub uninterp spec fn is_error(stanza: Element) -> bool;

/// What the message that a stanza is carries besides its text; nothing
/// where the stanza is no message.
pub uninterp spec fn payloads_of(stanza: Element) -> Seq<Element>;

/// The message that a payload forwards as received by another session,
/// if it does.
pub uninterp spec fn carbon_of(payload: Element) -> Option<Element>;

/// A text as `Debug` writes it: between quotes, with escapes.
pub uninterp spec fn debug_of(text: Seq<char>) -> Seq<char>;

/// The presence that says that the client is there to chat, with a
/// status in a language.
pub uninterp spec fn presence_of(lang: Seq<char>, status: Seq<char>) -> Element;

/// `xmpp_parsers::message::Message::try_from`, and the field `from` of
/// the message: who the message says it is from.
#[verifier::external_body]
pub(crate) fn sender(stanza: &Element) -> (from: Option<Jid>)
    ensures
        match from {
            Some(from) => sender_of(*stanza) == Some(from@),
            None => sender_of(*stanza) is None,
        },
{
    match xmpp_parsers::message::Message::try_from(stanza.clone()).ok()?.from? {
        xmpp_parsers::Jid::Bare(jid) => Some(
            Jid::Bare(BareJid { node: jid.node, domain: jid.domain }),
        ),
        xmpp_parsers::Jid::Full(jid) => Some(
            Jid::Full(FullJid { node: jid.node, domain: jid.domain, resource: jid.resource }),
        ),
    }
}

/// `xmpp_parsers::message::Message::try_from`, and `BTreeMap::get` on
/// the field `bodies` of the message: its text in a language.
#[verifier::external_body]
pub(crate) fn body(stanza: &Element, lang: &str) -> (text: Option<String>)
    ensures
        crate::text::text_of(text) == body_of(*stanza, lang@),
{
    let message = xmpp_parsers::message::Message::try_from(stanza.clone()).ok()?;
    message.bodies.get(lang).map(|body| body.0.clone())
}

/// `xmpp_parsers::message::Message::try_from`, and whether the field
/// `type_` of the message is `MessageType::Error`.
#[verifier::external_body]
pub(crate) fn reports_error(stanza: &Element) -> (error: bool)
    ensures
        error == is_error(*stanza),
{
    match xmpp_parsers::message::Message::try_from(stanza.clone()) {
        Ok(message) => message.type_ == xmpp_parsers::message::MessageType::Error,
        Err(_) => false,
    }
}

/// `xmpp_parsers::message::Message::try_from`, and the field `payloads`
/// of the message.
#[verifier::external_body]
pub(crate) fn payloads(stanza: &Element) -> (payloads: Vec<Element>)
    ensures
        payloads@ == payloads_of(*stanza),
{
    match xmpp_parsers::message::Message::try_from(stanza.clone()) {
        Ok(message) => message.payloads,
        Err(_) => Vec::new(),
    }
}

/// `xmpp_parsers::carbons::Received::try_from`, and the field `stanza`
/// of what it forwards, turned into an element again: the message that
/// another session received; none where the payload is no such copy, or
/// holds no message.
#[verifier::external_body]
pub(crate) fn carbon(payload: &Element) -> (forwarded: Option<Element>)
    ensures
        forwarded == carbon_of(*payload),
{
    let received = xmpp_parsers::carbons::Received::try_from(payload.clone()).ok()?;
    received.forwarded.stanza.map(|message| message.into())
}

/// `Debug` for `str`: the text between quotes, with escapes.
#[verifier::external_body]
fn debug(text: &str) -> (written: String)
    ensures
        written@ == debug_of(text@),
{
    format!("{:?}", text)
}

/// A `xmpp_parsers::presence::Presence` without a type, with the show
/// value `chat` and one status in one language, turned into an element.
#[verifier::external_body]
fn presence(lang: &str, status: &str) -> (stanza: Element)
    ensures
        stanza == presence_of(lang@, status@),
{
    let mut presence = xmpp_parsers::presence::Presence::new(xmpp_parsers::presence::Type::None);
    presence.show = Some(xmpp_parsers::presence::Show::Chat);
    presence.statuses.insert(String::from(lang), String::from(status));
    presence.into()
}

/// The line that echoes a text from a sender.
pub open spec fn echo_line(from: JidView, text: Seq<char>) -> Seq<char> {
    from.text() + ": "@ + "Body("@ + debug_of(text) + ")"@
}

/// Whether a forwarded message can be echoed: it says who it is from and
/// has a text of its own.
pub open spec fn tells(forwarded: Element) -> bool {
    sender_of(forwarded) is Some && body_of(forwarded, ""@) is Some
}

/// The first message that `payloads` forward from `k` on, as received by
/// another session, and that can be echoed.
pub open spec fn carbon_message(payloads: Seq<Element>, k: int) -> Option<Element>
    decreases payloads.len() - k,
{
    if k < 0 || k >= payloads.len() {
        None
    } else {
        match carbon_of(payloads[k]) {
            Some(forwarded) => if tells(forwarded) {
                Some(forwarded)
            } else {
                carbon_message(payloads, k + 1)
            },
            None => carbon_message(payloads, k + 1),
        }
    }
}

/// The line that echoes a stanza, if it is echoed: a message that says
/// who it is from and reports no error is echoed with its own text; one
/// without a text, with the text of the first message that it forwards,
/// under the name of whoever that message is from. At most one line is
/// given for a stanza.
pub open spec fn echo(message: Element) -> Option<Seq<char>> {
    match sender_of(message) {
        None => None,
        Some(from) => if is_error(message) {
            None
        } else {
            match body_of(message, ""@) {
                Some(text) => Some(echo_line(from, text)),
                None => match carbon_message(payloads_of(message), 0) {
                    Some(forwarded) => Some(
                        echo_line(
                            sender_of(forwarded).unwrap(),
                            body_of(forwarded, ""@).unwrap(),
                        ),
                    ),
                    None => None,
                },
            }
        },
    }
}

fn write_line(from: &Jid, text: &str) -> (line: String)
    ensures
        line@ == echo_line(from@, text@),
{
    let mut line = from.to_string();
    line.append(": ");
    line.append("Body(");
    line.append(debug(text).as_str());
    line.append(")");
    line
}

/// The line that echoes a message, if it is echoed.
pub fn handle_message(message: &Element) -> (line: Option<String>)
    ensures
        crate::text::text_of(line) == echo(*message),
{
    let from = match sender(message) {
        Some(from) => from,
        None => {
            return None;
        },
    };
    if reports_error(message) {
        return None;
    }
    match body(message, "") {
        Some(text) => Some(write_line(&from, text.as_str())),
        None => {
            let all = payloads(message);
            let mut i: usize = 0;
            while i < all.len()
                invariant
                    i <= all@.len(),
                    all@ == payloads_of(*message),
                    sender_of(*message) == Some(from@),
                    !is_error(*message),
                    body_of(*message, ""@) is None,
                    carbon_message(all@, 0) == carbon_message(all@, i as int),
                decreases all.len() - i,
            {
                match carbon(&all[i]) {
                    Some(forwarded) => match (sender(&forwarded), body(&forwarded, "")) {
                        (Some(inner), Some(text)) => {
                            proof {
                                assert(carbon_of(all@[i as int]) == Some(forwarded));
                                assert(tells(forwarded));
                                assert(carbon_message(all@, i as int) == Some(forwarded));
                            }
                            return Some(write_line(&inner, text.as_str()));
                        },
                        _ => {},
                    },
                    None => {},
                }
                i = i + 1;
            }
            None
        },
    }
}

/// The line that echoes a stanza, if it is a message that is echoed.
pub fn handle_stanza(stanza: Element) -> (line: Option<String>)
    ensures
        crate::text::text_of(line) == echo(stanza),
{
    handle_message(&stanza)
}

/// What the transport hands over.
pub enum Packet {
    /// The session is up.
    Online,
    /// A stanza came in.
    Stanza(Element),
    /// Anything else.
    Other,
}

/// What the client does next.
pub enum Action {
    /// Tell the plugins that the session is up.
    Connect,
    /// Send a stanza.
    Send(Element),
    /// Write a line.
    Print(String),
}

/// Whether `actions` is what a packet asks for: once online, the plugins
/// are told and the client announces that it is there to chat; a message
/// that is echoed gives its line; nothing else gives anything.
pub open spec fn asked_by(packet: Packet, actions: Seq<Action>) -> bool {
    match packet {
        Packet::Online => actions == seq![
            Action::Connect,
            Action::Send(presence_of("en"@, "Echoing messages."@)),
        ],
        Packet::Stanza(stanza) => match echo(stanza) {
            Some(line) => {
                &&& actions.len() == 1
                &&& actions[0] matches Action::Print(text)
                &&& text@ == line
            },
            None => actions.len() == 0,
        },
        Packet::Other => actions.len() == 0,
    }
}

/// One turn of the main loop: what to do about a packet.
pub fn main_loop(packet: Packet) -> (actions: Vec<Action>)
    ensures
        asked_by(packet, actions@),
{
    let mut actions: Vec<Action> = Vec::new();
    match packet {
        Packet::Online => {
            actions.push(Action::Connect);
            actions.push(Action::Send(presence("en", "Echoing messages.")));
            proof {
                assert(actions@ =~= seq![
                    Action::Connect,
                    Action::Send(presence_of("en"@, "Echoing messages."@)),
                ]);
            }
        },
        Packet::Stanza(stanza) => {
            match handle_stanza(stanza) {
                Some(line) => actions.push(Action::Print(line)),
                None => {},
            }
        },
        Packet::Other => {},
    }
    actions
}

/// Two to the power of `n`.
pub open spec fn doubled(n: nat) -> nat
    decreases n,
{
    if n == 0 {
        1
    } else {
        2 * doubled((n - 1) as nat)
    }
}

/// The seconds to wait before the attempt to connect again that follows
/// `failed` failed ones: one second at first, twice as long after every
/// failure, and never more than thirty.
pub open spec fn delay(failed: nat) -> nat {
    if doubled(failed) < 30 {
        doubled(failed)
    } else {
        30
    }
}

proof fn doubled_grows(n: nat)
    ensures
        n >= 5 ==> doubled(n) >= 32,
        n == 0 ==> doubled(n) == 1,
        n == 1 ==> doubled(n) == 2,
        n == 2 ==> doubled(n) == 4,
        n == 3 ==> doubled(n) == 8,
        n == 4 ==> doubled(n) == 16,
    decreases n,
{
    reveal_with_fuel(doubled, 6);
    if n > 5 {
        doubled_grows((n - 1) as nat);
    }
}

/// The seconds to wait before the attempt to connect again that follows
/// `failed` failed ones.
pub fn reconnect_delay(failed: u32) -> (seconds: u64)
    ensures
        seconds == delay(failed as nat),
{
    proof {
        doubled_grows(failed as nat);
    }
    if failed == 0 {
        1
    } else if failed == 1 {
        2
    } else if failed == 2 {
        4
    } else if failed == 3 {
        8
    } else if failed == 4 {
        16
    } else {
        30
    }
}

} // verus!
