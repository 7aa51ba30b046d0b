//! The dispatcher: it owns the session core and the plugins, and hands
//! every event to each of them in turn.
//!
//! An event goes to the plugin for the copies of messages first, then to
//! the bookmarks, then the core itself reacts to it, and the interface
//! gets it last. What they schedule meanwhile waits behind what waited
//! before, and is handed round when its turn comes.
//!
//! A request is taken note of when it is sent. Its answer settles it; so
//! does a wait of thirty seconds, and so does the loss of the connection.
//! A room that the user asks to enter is waited for until it answers.

use crate::bookmarks::{fetches, read, sends, BookmarksPlugin};
use crate::carbons::{enables, CarbonsPlugin};
use crate::client::{
    body, body_of, carbon, carbon_of, is_error, payloads, payloads_of, reports_error, sender,
    sender_of,
};
use crate::command::{Command, CommandView};
use crate::disco::Disco;
use crate::event::Event;
use crate::fresh::now;
use crate::iq::{in_time, sorted_out, stamps_without, PendingIqs, Waiting};
use crate::jid::{jid_of, parse_jid, BareJid, BareJidView, FullJid, FullJidView, Jid, JidView};
use crate::message::{ChatMessage, GroupchatMessage, Message, XmppMessage};
use crate::session::Aparte;
use crate::text::{text_of, texts, without};
use crate::ui::{fitted, UIPlugin, UiModel};
use vstd::prelude::*;
use vstd::string::*;
use xmpp_parsers::Element;

verus! {

/// Who the message that a stanza is says it is for; none where the stanza
/// is no message, or does not say.
pub uninterp spec fn recipient_of(stanza: Element) -> Option<JidView>;

/// Whether a stanza is a message that was said in a room.
pub uninterp spec fn in_room(stanza: Element) -> bool;

/// The identifier of the message that a stanza is, if it has one.
pub uninterp spec fn id_of(stanza: Element) -> Option<Seq<char>>;

/// The identifier of the request that a stanza answers, if it is the
/// result of a request or the report of its failure.
pub uninterp spec fn answer_of(stanza: Element) -> Option<Seq<char>>;

/// The identifier of the request that a stanza is, if it asks to get or
/// to set something.
pub uninterp spec fn request_of(stanza: Element) -> Option<Seq<char>>;

/// The stanza that carries a text to a contact, or to a room.
pub uninterp spec fn message_to(id: Seq<char>, to: BareJidView, room: bool, body: Seq<char>) -> Element;

/// `xmpp_parsers::message::Message::try_from`, and the field `to` of the
/// message: who the message says it is for.
#[verifier::external_body]
fn recipient(stanza: &Element) -> (to: Option<Jid>)
    ensures
        match to {
            Some(to) => recipient_of(*stanza) == Some(to@),
            None => recipient_of(*stanza) is None,
        },
{
    match xmpp_parsers::message::Message::try_from(stanza.clone()).ok()?.to? {
        xmpp_parsers::Jid::Bare(jid) => Some(Jid::Bare(BareJid { node: jid.node, domain: jid.domain })),
        xmpp_parsers::Jid::Full(jid) => Some(
            Jid::Full(FullJid { node: jid.node, domain: jid.domain, resource: jid.resource }),
        ),
    }
}

/// `xmpp_parsers::message::Message::try_from`, and whether the field
/// `type_` of the message is `MessageType::Groupchat`.
#[verifier::external_body]
fn said_in_room(stanza: &Element) -> (room: bool)
    ensures
        room == in_room(*stanza),
{
    match xmpp_parsers::message::Message::try_from(stanza.clone()) {
        Ok(message) => message.type_ == xmpp_parsers::message::MessageType::Groupchat,
        Err(_) => false,
    }
}

/// `xmpp_parsers::message::Message::try_from`, and the field `id` of the
/// message.
#[verifier::external_body]
fn message_id(stanza: &Element) -> (id: Option<String>)
    ensures
        text_of(id) == id_of(*stanza),
{
    xmpp_parsers::message::Message::try_from(stanza.clone()).ok()?.id
}

/// `xmpp_parsers::iq::Iq::try_from`, and the field `id` of a stanza whose
/// payload is `IqType::Result` or `IqType::Error`.
#[verifier::external_body]
fn answered(stanza: &Element) -> (id: Option<String>)
    ensures
        text_of(id) == answer_of(*stanza),
{
    let iq = xmpp_parsers::iq::Iq::try_from(stanza.clone()).ok()?;
    match iq.payload {
        xmpp_parsers::iq::IqType::Result(_) => Some(iq.id),
        xmpp_parsers::iq::IqType::Error(_) => Some(iq.id),
        _ => None,
    }
}

/// `xmpp_parsers::iq::Iq::try_from`, and the field `id` of a stanza whose
/// payload is `IqType::Get` or `IqType::Set`.
#[verifier::external_body]
fn requested(stanza: &Element) -> (id: Option<String>)
    ensures
        text_of(id) == request_of(*stanza),
{
    let iq = xmpp_parsers::iq::Iq::try_from(stanza.clone()).ok()?;
    match iq.payload {
        xmpp_parsers::iq::IqType::Get(_) => Some(iq.id),
        xmpp_parsers::iq::IqType::Set(_) => Some(iq.id),
        _ => None,
    }
}

/// A `xmpp_parsers::message::Message` for a recipient, with an
/// identifier, of type `chat` or `groupchat`, and with one text in no
/// language; turned into an element.
#[verifier::external_body]
fn message_stanza(id: String, to: &BareJid, room: bool, body: &str) -> (stanza: Element)
    ensures
        stanza == message_to(id@, to@, room, body@),
{
    let to = xmpp_parsers::BareJid { node: to.node.clone(), domain: to.domain.clone() };
    let mut message = xmpp_parsers::message::Message::new(Some(xmpp_parsers::Jid::Bare(to)));
    message.id = Some(id);
    message.type_ = match room {
        true => xmpp_parsers::message::MessageType::Groupchat,
        false => xmpp_parsers::message::MessageType::Chat,
    };
    message.bodies.insert(String::new(), xmpp_parsers::message::Body(String::from(body)));
    message.into()
}

/// The presence that asks a room to let the user in under a nick.
pub uninterp spec fn join_of(room: FullJidView) -> Element;

/// Who the presence that a stanza is says it is from; none where the
/// stanza is no presence, or does not say.
pub uninterp spec fn presence_from(stanza: Element) -> Option<JidView>;

/// Whether a stanza is a presence that reports an error.
pub uninterp spec fn refused(stanza: Element) -> bool;

/// A `xmpp_parsers::presence::Presence` without a type, for an occupant
/// of a room, with an empty `xmpp_parsers::muc::MucUser` as its only
/// payload; turned into an element.
#[verifier::external_body]
fn join_presence(room: &FullJid) -> (stanza: Element)
    ensures
        stanza == join_of(room@),
{
    let to = xmpp_parsers::FullJid {
        node: room.node.clone(),
        domain: room.domain.clone(),
        resource: room.resource.clone(),
    };
    let mut presence = xmpp_parsers::presence::Presence::new(xmpp_parsers::presence::Type::None);
    presence.to = Some(xmpp_parsers::Jid::Full(to));
    presence.payloads.push(xmpp_parsers::muc::MucUser { status: vec![], items: vec![] }.into());
    presence.into()
}

/// `xmpp_parsers::presence::Presence::try_from`, and the field `from` of
/// the presence: who the presence says it is from.
#[verifier::external_body]
fn presence_sender(stanza: &Element) -> (from: Option<Jid>)
    ensures
        match from {
            Some(from) => presence_from(*stanza) == Some(from@),
            None => presence_from(*stanza) is None,
        },
{
    match xmpp_parsers::presence::Presence::try_from(stanza.clone()).ok()?.from? {
        xmpp_parsers::Jid::Bare(jid) => Some(Jid::Bare(BareJid { node: jid.node, domain: jid.domain })),
        xmpp_parsers::Jid::Full(jid) => Some(
            Jid::Full(FullJid { node: jid.node, domain: jid.domain, resource: jid.resource }),
        ),
    }
}

/// `xmpp_parsers::presence::Presence::try_from`, and whether the field
/// `type_` of the presence is `Type::Error`.
#[verifier::external_body]
fn presence_refused(stanza: &Element) -> (error: bool)
    ensures
        error == refused(*stanza),
{
    match xmpp_parsers::presence::Presence::try_from(stanza.clone()) {
        Ok(presence) => presence.type_ == xmpp_parsers::presence::Type::Error,
        Err(_) => false,
    }
}

/// The core and the plugins of a session.
pub struct Dispatcher {
    pub aparte: Aparte,
    pub disco: Disco,
    pub carbons: CarbonsPlugin,
    pub bookmarks: BookmarksPlugin,
    pub ui: UIPlugin,
    pub iqs: PendingIqs,
    /// The rooms that the user has asked to enter and that have not
    /// answered yet, each with the nick.
    pub joins: Vec<FullJid>,
    /// The moment of the turn, in seconds since the epoch.
    pub clock: i64,
    /// The user has asked to leave.
    pub quit: bool,
}

/// What the addresses hold.
pub open spec fn rooms(joins: Seq<FullJid>) -> Seq<FullJidView> {
    joins.map_values(|room: FullJid| room@)
}

/// The index of the first of `joins` that is `room`, or their number
/// where none is.
pub open spec fn join_index(joins: Seq<FullJidView>, room: FullJidView) -> int
    decreases joins.len(),
{
    if joins.len() == 0 {
        0
    } else if joins[0] == room {
        0
    } else {
        1 + join_index(joins.drop_first(), room)
    }
}

/// The room that a stanza answers for: it is the presence of an occupant
/// of a room that the user has asked to enter under that nick.
pub open spec fn answers_join(joins: Seq<FullJidView>, stanza: Element) -> Option<FullJidView> {
    match presence_from(stanza) {
        Some(JidView::Full(room)) => if join_index(joins, room) < joins.len() {
            Some(room)
        } else {
            None
        },
        _ => None,
    }
}

/// Whether `event` tells that the user has entered a room under a nick,
/// at their own request.
pub open spec fn entered(room: FullJidView, account: BareJid, event: Event) -> bool {
    &&& event matches Event::Joined { account: owner, channel, user_request }
    &&& owner == account
    &&& channel@ == JidView::Full(room)
    &&& user_request
}

/// The room that a command asks to enter, under which nick: `/join`, if
/// it is known, with an account logged in, and with the address of an
/// occupant as its first argument.
pub open spec fn joins_room(
    command: CommandView,
    account: Option<BareJid>,
    commands: Seq<Seq<char>>,
) -> Option<FullJidView> {
    if commands.contains(command.name) && command.name == "join"@ && account is Some
        && command.args.len() > 0 {
        match jid_of(command.args[0]) {
            Some(JidView::Full(room)) => Some(room),
            _ => None,
        }
    } else {
        None
    }
}

/// Whether `after` is `before` with more behind it.
pub open spec fn grown<T>(before: Seq<T>, after: Seq<T>) -> bool {
    before.len() <= after.len() && after.subrange(0, before.len() as int) == before
}

/// What stands in `after` behind `before`.
pub open spec fn more<T>(before: Seq<T>, after: Seq<T>) -> Seq<T> {
    after.skip(before.len() as int)
}

/// Whether `event` is a stanza said by someone, as the account gets it:
/// a chat message, or a message in a room, with the sender and the text
/// of the stanza. It is for whom the stanza says, or else for the account.
pub open spec fn said(stanza: Element, account: BareJid, event: Event) -> bool {
    let from = sender_of(stanza).unwrap();
    let to = match recipient_of(stanza) {
        Some(to) => to.bare(),
        None => account@,
    };
    let id = match id_of(stanza) {
        Some(id) => id,
        None => Seq::empty(),
    };
    &&& event matches Event::Message(Some(owner), Message::Incoming(message))
    &&& owner == account
    &&& match message {
        XmppMessage::Chat(chat) => {
            &&& !in_room(stanza)
            &&& chat.id@ == id
            &&& chat.from@ == from.bare()
            &&& chat.to@ == to
            &&& chat.body@ == body_of(stanza, ""@).unwrap()
        },
        XmppMessage::Groupchat(chat) => {
            &&& in_room(stanza)
            &&& chat.id@ == id
            &&& chat.from@ == from.bare()
            &&& chat.from_full@ == from
            &&& chat.to@ == to
            &&& chat.body@ == body_of(stanza, ""@).unwrap()
        },
    }
}

/// Whether a stanza says something: it is a message that says who it is
/// from, has a text, and reports no error.
pub open spec fn says(stanza: Element) -> bool {
    sender_of(stanza) is Some && body_of(stanza, ""@) is Some && !is_error(stanza)
}

/// The first of `payloads` from `k` on that forwards a message which says
/// something, as received by another session of the account.
pub open spec fn forwarded(payloads: Seq<Element>, k: int) -> Option<Element>
    decreases payloads.len() - k,
{
    if k < 0 || k >= payloads.len() {
        None
    } else {
        match carbon_of(payloads[k]) {
            Some(inner) => if says(inner) {
                Some(inner)
            } else {
                forwarded(payloads, k + 1)
            },
            None => forwarded(payloads, k + 1),
        }
    }
}

/// The message that a stanza brings: the stanza itself where it says
/// something, or else the first message that it forwards and that does.
pub open spec fn brought(stanza: Element) -> Option<Element> {
    if says(stanza) {
        Some(stanza)
    } else {
        forwarded(payloads_of(stanza), 0)
    }
}

/// Whether `events` is what a command schedules, with `account` logged
/// in and `commands` known.
///
/// A command that is not known is an error. `/win` asks for the window
/// that it names, `/msg` for a chat with the contact that it names, both
/// are errors without the name, and `/msg` also without an account or
/// with a name that is no address. `/join` is an error without a room,
/// without an account, and with an address that is none or names no
/// nick. `/bookmark` gives the reason if its arguments are not in order.
/// Nothing else schedules anything.
pub open spec fn command_schedules(
    command: CommandView,
    account: Option<BareJid>,
    commands: Seq<Seq<char>>,
    events: Seq<Event>,
) -> bool {
    if !commands.contains(command.name) {
        &&& events.len() == 1
        &&& events[0] matches Event::CommandError(reason)
        &&& reason@ == "Unknown command "@ + command.name
    } else if command.name == "win"@ {
        &&& events.len() == 1
        &&& if command.args.len() > 0 {
            events[0] matches Event::Win(name) && name@ == command.args[0]
        } else {
            events[0] matches Event::CommandError(reason) && reason@ == "Missing window"@
        }
    } else if command.name == "msg"@ {
        &&& events.len() == 1
        &&& if account is Some && command.args.len() > 0 {
            match jid_of(command.args[0]) {
                Some(jid) => {
                    &&& events[0] matches Event::Chat { account: owner, contact }
                    &&& owner == account.unwrap()
                    &&& contact@ == jid.bare()
                },
                None => events[0] matches Event::CommandError(reason) && reason@ == "Invalid jid"@,
            }
        } else {
            events[0] matches Event::CommandError(reason) && reason@ == "Missing contact"@
        }
    } else if command.name == "join"@ {
        if command.args.len() == 0 {
            &&& events.len() == 1
            &&& events[0] matches Event::CommandError(reason)
            &&& reason@ == "Missing room"@
        } else if account is None {
            &&& events.len() == 1
            &&& events[0] matches Event::CommandError(reason)
            &&& reason@ == "Not connected"@
        } else {
            match jid_of(command.args[0]) {
                Some(JidView::Full(_)) => events.len() == 0,
                Some(JidView::Bare(_)) => {
                    &&& events.len() == 1
                    &&& events[0] matches Event::CommandError(reason)
                    &&& reason@ == "Missing nick"@
                },
                None => {
                    &&& events.len() == 1
                    &&& events[0] matches Event::CommandError(reason)
                    &&& reason@ == "Invalid jid"@
                },
            }
        }
    } else if command.name == "bookmark"@ {
        match read(command.args) {
            Err(e) => {
                &&& events.len() == 1
                &&& events[0] matches Event::CommandError(reason)
                &&& reason@ == e.text()
            },
            Ok(_) => events.len() == 0,
        }
    } else {
        events.len() == 0
    }
}

/// Whether a command makes the session end: `/quit`, if it is known.
pub open spec fn quits(command: CommandView, commands: Seq<Seq<char>>) -> bool {
    commands.contains(command.name) && command.name == "quit"@
}

/// Whether `after` is what waits to be sent once a command was carried
/// out, where `before` waited before: `/bookmark` sends what it asks
/// for, and `/join` the presence that asks the room to let the user in.
/// Nothing else sends anything.
pub open spec fn command_sends(
    command: CommandView,
    account: Option<BareJid>,
    commands: Seq<Seq<char>>,
    before: Seq<Element>,
    after: Seq<Element>,
) -> bool {
    if commands.contains(command.name) && command.name == "bookmark"@ {
        sends(read(command.args), before, after)
    } else {
        match joins_room(command, account, commands) {
            Some(room) => after == before.push(join_of(room)),
            None => after == before,
        }
    }
}

/// The requests once those among the first `k` of `sent` are taken note
/// of, in their order, as going out at the moment `clock`.
pub open spec fn noted(waiting: Waiting, sent: Seq<Element>, clock: int, k: int) -> Waiting
    decreases k,
{
    if k <= 0 {
        waiting
    } else {
        let before = noted(waiting, sent, clock, k - 1);
        match request_of(sent[k - 1]) {
            Some(id) => before.register(id, clock),
            None => before,
        }
    }
}

impl Dispatcher {
    /// The interface and the requests are in order, and the windows of
    /// the interface are listed as they are held, the console first.
    pub open spec fn wf(&self) -> bool {
        &&& self.ui.wf()
        &&& self.ui@.named()
        &&& self.iqs.wf()
    }

    /// Everything but the core and the requests is the same.
    pub open spec fn same_rest(&self, other: &Dispatcher) -> bool {
        &&& self.disco == other.disco
        &&& self.carbons == other.carbons
        &&& self.bookmarks == other.bookmarks
        &&& self.ui == other.ui
        &&& self.joins == other.joins
        &&& self.clock == other.clock
        &&& self.quit == other.quit
    }

    /// Everything but the core is the same.
    pub open spec fn same_plugins(&self, other: &Dispatcher) -> bool {
        &&& self.same_rest(other)
        &&& self.iqs == other.iqs
    }

    /// Whether the requests of `post` are those of this session with
    /// the requests taken note of that were sent on the way to `post`, as
    /// going out at the moment of the turn.
    pub open spec fn notes(&self, post: &Dispatcher) -> bool {
        let sent = more(self.aparte.outbound(), post.aparte.outbound());
        post.iqs.model() == noted(self.iqs.model(), sent, self.clock as int, sent.len() as int)
    }

    /// Nothing differs.
    pub open spec fn same(&self, other: &Dispatcher) -> bool {
        &&& self.same_plugins(other)
        &&& self.aparte.same_but_pending(&other.aparte)
        &&& self.aparte.pending() == other.aparte.pending()
    }

    /// What the core does with a command. The requests that it sends are
    /// taken note of.
    pub open spec fn ran(&self, command: Command, post: &Dispatcher) -> bool {
        &&& post.disco == self.disco
        &&& post.carbons == self.carbons
        &&& post.bookmarks == self.bookmarks
        &&& post.ui == self.ui
        &&& post.clock == self.clock
        &&& self.notes(post)
        &&& post.quit == (self.quit || quits(command@, self.aparte.commands()))
        &&& rooms(post.joins@) == match joins_room(
            command@,
            self.aparte.account(),
            self.aparte.commands(),
        ) {
            Some(room) => rooms(self.joins@).push(room),
            None => rooms(self.joins@),
        }
        &&& post.aparte.account() == self.aparte.account()
        &&& post.aparte.commands() == self.aparte.commands()
        &&& grown(self.aparte.pending(), post.aparte.pending())
        &&& command_schedules(
            command@,
            self.aparte.account(),
            self.aparte.commands(),
            more(self.aparte.pending(), post.aparte.pending()),
        )
        &&& command_sends(
            command@,
            self.aparte.account(),
            self.aparte.commands(),
            self.aparte.outbound(),
            post.aparte.outbound(),
        )
    }

    /// What the core itself does at an event.
    ///
    /// It takes note of the account when the session is up, and forgets it
    /// when the session is lost; then nothing waits to be sent any more,
    /// every request that waits is given up, and each gives the error
    /// `disconnected`, and no room is waited for any longer. A command is
    /// carried out. An error becomes a note of the client. A message of
    /// the user is sent, and scheduled as a message of the account, so
    /// that the window shows it. Everything else passes.
    pub open spec fn reacted(&self, event: Event, post: &Dispatcher) -> bool {
        match event {
            Event::Connected(account, _) => {
                &&& post.same_plugins(self)
                &&& post.aparte.account() == Some(account)
                &&& post.aparte.pending() == self.aparte.pending()
                &&& post.aparte.outbound() == self.aparte.outbound()
                &&& post.aparte.commands() == self.aparte.commands()
            },
            Event::Disconnected => {
                let given_up = more(self.aparte.pending(), post.aparte.pending());
                &&& post.disco == self.disco
                &&& post.carbons == self.carbons
                &&& post.bookmarks == self.bookmarks
                &&& post.ui == self.ui
                &&& post.quit == self.quit
                &&& post.clock == self.clock
                &&& post.joins@.len() == 0
                &&& post.iqs.pending() == Seq::<Seq<char>>::empty()
                &&& post.iqs.since() == Seq::<int>::empty()
                &&& post.iqs.used() == self.iqs.used()
                &&& post.aparte.account() is None
                &&& post.aparte.outbound() == Seq::<Element>::empty()
                &&& post.aparte.commands() == self.aparte.commands()
                &&& grown(self.aparte.pending(), post.aparte.pending())
                &&& given_up.len() == self.iqs.pending().len()
                &&& forall|i: int|
                    0 <= i < given_up.len() ==> (#[trigger] given_up[i] matches Event::CommandError(
                        reason,
                    ) && reason@ == "disconnected"@)
            },
            Event::Command(command) => self.ran(command, post),
            Event::CommandError(reason) => {
                let noted = more(self.aparte.pending(), post.aparte.pending());
                &&& post.same_plugins(self)
                &&& post.aparte.same_but_pending(&self.aparte)
                &&& grown(self.aparte.pending(), post.aparte.pending())
                &&& noted.len() == 1
                &&& noted[0] matches Event::Message(None, Message::Log(note))
                &&& note.body == reason
            },
            Event::SendMessage(account, message) => {
                &&& post.same_rest(self)
                &&& self.notes(post)
                &&& post.aparte.account() == self.aparte.account()
                &&& post.aparte.commands() == self.aparte.commands()
                &&& match message {
                    Message::Outgoing(XmppMessage::Chat(chat)) => {
                        &&& post.aparte.outbound() == self.aparte.outbound().push(
                            message_to(chat.id@, chat.to@, false, chat.body@),
                        )
                        &&& post.aparte.pending() == self.aparte.pending().push(
                            Event::Message(Some(account), message),
                        )
                    },
                    Message::Outgoing(XmppMessage::Groupchat(chat)) => {
                        &&& post.aparte.outbound() == self.aparte.outbound().push(
                            message_to(chat.id@, chat.to@, true, chat.body@),
                        )
                        &&& post.aparte.pending() == self.aparte.pending().push(
                            Event::Message(Some(account), message),
                        )
                    },
                    _ => {
                        &&& post.aparte.outbound() == self.aparte.outbound()
                        &&& post.aparte.pending() == self.aparte.pending()
                    },
                }
            },
            _ => {
                &&& post.same_plugins(self)
                &&& post.aparte.account() == self.aparte.account()
                &&& post.aparte.pending() == self.aparte.pending()
                &&& post.aparte.outbound() == self.aparte.outbound()
                &&& post.aparte.commands() == self.aparte.commands()
            },
        }
    }

    /// What the bookmarks do at an event. The request that they send is
    /// taken note of.
    pub open spec fn asked(&self, event: Event, post: &Dispatcher) -> bool {
        &&& post.same_rest(self)
        &&& self.notes(post)
        &&& post.aparte.account() == self.aparte.account()
        &&& post.aparte.pending() == self.aparte.pending()
        &&& post.aparte.commands() == self.aparte.commands()
        &&& fetches(event, self.aparte.outbound(), post.aparte.outbound())
    }

    /// What the interface does at an event.
    pub open spec fn shown(&self, event: Event, post: &Dispatcher) -> bool {
        &&& post.disco == self.disco
        &&& post.carbons == self.carbons
        &&& post.bookmarks == self.bookmarks
        &&& post.iqs == self.iqs
        &&& post.joins == self.joins
        &&& post.clock == self.clock
        &&& post.quit == self.quit
        &&& post.ui@ == self.ui@.on_event(event)
        &&& post.aparte.same_but_pending(&self.aparte)
        &&& grown(self.aparte.pending(), post.aparte.pending())
        &&& self.ui@.schedules(
            self.aparte.account(),
            event,
            more(self.aparte.pending(), post.aparte.pending()),
        )
    }

    /// What the plugin for the copies does at an event. The request that
    /// it sends is taken note of.
    pub open spec fn copied(&self, event: Event, post: &Dispatcher) -> bool {
        &&& post.same_rest(self)
        &&& self.notes(post)
        &&& post.aparte.account() == self.aparte.account()
        &&& post.aparte.pending() == self.aparte.pending()
        &&& post.aparte.commands() == self.aparte.commands()
        &&& enables(event, self.aparte.outbound(), post.aparte.outbound())
    }

    /// What happens to an event: the plugin for the copies gets it, then
    /// the bookmarks, then the core reacts to it, then the interface gets
    /// it.
    pub open spec fn handled(&self, event: Event, post: &Dispatcher) -> bool {
        exists|zero: Dispatcher, one: Dispatcher, two: Dispatcher| #[trigger]
            self.chain(event, &zero, &one, &two, post)
    }

    /// The four steps of handing an event round, with what is between
    /// them.
    pub open spec fn chain(
        &self,
        event: Event,
        zero: &Dispatcher,
        one: &Dispatcher,
        two: &Dispatcher,
        post: &Dispatcher,
    ) -> bool {
        &&& self.copied(event, zero)
        &&& zero.asked(event, one)
        &&& one.reacted(event, two)
        &&& two.shown(event, post)
    }

    /// A session for a terminal of this size: the plugins are started,
    /// their commands and features are known, and the console is in
    /// front.
    pub fn new(width: u16, height: u16) -> (session: Dispatcher)
        ensures
            session.wf(),
            !session.quit,
            session.ui@ == UiModel::made(width, height).init(),
            session.aparte.account() is None,
            session.aparte.pending() == Seq::<Event>::empty(),
            session.aparte.outbound() == Seq::<Element>::empty(),
            session.aparte.commands() == seq!["quit"@, "win"@, "msg"@, "join"@, "bookmark"@],
            session.disco.features() == seq!["urn:xmpp:carbons:2"@, "urn:xmpp:bookmarks:1"@],
            session.iqs.pending() == Seq::<Seq<char>>::empty(),
            session.iqs.used() == Seq::<Seq<char>>::empty(),
            session.joins@.len() == 0,
            session.clock == 0,
    {
        let mut aparte = Aparte::new();
        let mut disco = Disco::new();
        let mut carbons = CarbonsPlugin::new();
        let mut bookmarks = BookmarksPlugin::new();
        let mut ui = UIPlugin::new(width, height);
        proof {
            reveal_strlit("urn:xmpp:carbons:2");
            reveal_strlit("urn:xmpp:bookmarks:1");
            assert("urn:xmpp:carbons:2"@.len() == 18 && "urn:xmpp:bookmarks:1"@.len() == 20);
            assert(!disco.features().contains("urn:xmpp:carbons:2"@)) by {
                if disco.features().contains("urn:xmpp:carbons:2"@) {
                    let i = choose|i: int|
                        0 <= i < disco.features().len() && disco.features()[i]
                            == "urn:xmpp:carbons:2"@;
                }
            }
        }
        let _ = carbons.init(&mut aparte, &mut disco);
        proof {
            reveal_strlit("quit");
            reveal_strlit("win");
            reveal_strlit("msg");
            reveal_strlit("join");
            reveal_strlit("bookmark");
            assert("quit"@.len() == 4 && "win"@.len() == 3 && "msg"@.len() == 3 && "bookmark"@.len()
                == 8);
            assert("win"@[0] == 'w' && "msg"@[0] == 'm' && "quit"@[0] == 'q' && "join"@[0] == 'j');
        }
        aparte.add_command("quit");
        proof {
            assert(!seq!["quit"@].contains("win"@)) by {
                if seq!["quit"@].contains("win"@) {
                    let i = choose|i: int| 0 <= i < 1 && seq!["quit"@][i] == "win"@;
                }
            }
            assert(aparte.commands() =~= seq!["quit"@]);
        }
        aparte.add_command("win");
        proof {
            let known = seq!["quit"@, "win"@];
            assert(aparte.commands() =~= known);
            assert(!known.contains("msg"@)) by {
                if known.contains("msg"@) {
                    let i = choose|i: int| 0 <= i < 2 && known[i] == "msg"@;
                }
            }
        }
        aparte.add_command("msg");
        proof {
            let known = seq!["quit"@, "win"@, "msg"@];
            assert(aparte.commands() =~= known);
            assert(!known.contains("join"@)) by {
                if known.contains("join"@) {
                    let i = choose|i: int| 0 <= i < 3 && known[i] == "join"@;
                }
            }
        }
        aparte.add_command("join");
        proof {
            let known = seq!["quit"@, "win"@, "msg"@, "join"@];
            assert(aparte.commands() =~= known);
            assert(!known.contains("bookmark"@)) by {
                if known.contains("bookmark"@) {
                    let i = choose|i: int| 0 <= i < 4 && known[i] == "bookmark"@;
                }
            }
            assert(disco.features() =~= seq!["urn:xmpp:carbons:2"@]);
            assert(!disco.features().contains("urn:xmpp:bookmarks:1"@)) by {
                if disco.features().contains("urn:xmpp:bookmarks:1"@) {
                    let i = choose|i: int|
                        0 <= i < disco.features().len() && disco.features()[i]
                            == "urn:xmpp:bookmarks:1"@;
                }
            }
        }
        let _ = bookmarks.init(&mut aparte, &mut disco);
        let _ = ui.init(&mut aparte);
        proof {
            assert(aparte.commands() =~= seq!["quit"@, "win"@, "msg"@, "join"@, "bookmark"@]);
            assert(disco.features() =~= seq!["urn:xmpp:carbons:2"@, "urn:xmpp:bookmarks:1"@]);
        }
        Dispatcher {
            aparte,
            disco,
            carbons,
            bookmarks,
            ui,
            iqs: PendingIqs::new(),
            joins: Vec::new(),
            clock: 0,
            quit: false,
        }
    }

    /// Takes note of the requests among the stanzas that wait to be sent
    /// from place `from` on, as going out at the moment of the turn.
    fn note_requests(&mut self, from: usize)
        requires
            old(self).wf(),
            from <= old(self).aparte.outbound().len(),
        ensures
            final(self).wf(),
            final(self).same_rest(old(self)),
            final(self).aparte == old(self).aparte,
            final(self).iqs.model() == noted(
                old(self).iqs.model(),
                old(self).aparte.outbound().skip(from as int),
                old(self).clock as int,
                old(self).aparte.outbound().len() - from,
            ),
    {
        let ghost sent = self.aparte.outbound().skip(from as int);
        let mut i: usize = from;
        while i < self.aparte.queued()
            invariant
                from <= i <= self.aparte.outbound().len(),
                self.wf(),
                self.same_rest(old(self)),
                self.aparte == old(self).aparte,
                sent == self.aparte.outbound().skip(from as int),
                self.iqs.model() == noted(
                    old(self).iqs.model(),
                    sent,
                    self.clock as int,
                    i - from,
                ),
            decreases self.aparte.outbound().len() - i,
        {
            proof {
                assert(sent[i - from] == self.aparte.outbound()[i as int]);
            }
            match requested(self.aparte.peek(i)) {
                Some(id) => {
                    let _ = self.iqs.register(id.as_str(), self.clock);
                },
                None => {},
            }
            i = i + 1;
        }
    }

    /// Carries out a command.
    pub fn run(&mut self, command: &Command)
        requires
            old(self).wf(),
        ensures
            final(self).wf(),
            old(self).ran(*command, final(self)),
    {
        let ghost before = self.aparte.pending();
        let from = self.aparte.queued();
        if !self.aparte.has_command(command.name.as_str()) {
            let mut reason = String::from_str("Unknown command ");
            reason.append(command.name.as_str());
            self.aparte.schedule(Event::CommandError(reason));
        } else if is(&command.name, "quit") {
            self.quit = true;
        } else if is(&command.name, "win") {
            if command.args.len() > 0 {
                self.aparte.schedule(Event::Win(command.args[0].clone()));
            } else {
                self.aparte.schedule(Event::CommandError(String::from_str("Missing window")));
            }
        } else if is(&command.name, "msg") {
            match self.aparte.current_account() {
                Some(account) => {
                    if command.args.len() > 0 {
                        match parse_jid(command.args[0].as_str()) {
                            Some(jid) => self.aparte.schedule(
                                Event::Chat { account, contact: jid.to_bare() },
                            ),
                            None => self.aparte.schedule(
                                Event::CommandError(String::from_str("Invalid jid")),
                            ),
                        }
                    } else {
                        self.aparte.schedule(
                            Event::CommandError(String::from_str("Missing contact")),
                        );
                    }
                },
                None => self.aparte.schedule(
                    Event::CommandError(String::from_str("Missing contact")),
                ),
            }
        } else if is(&command.name, "join") {
            if command.args.len() == 0 {
                self.aparte.schedule(Event::CommandError(String::from_str("Missing room")));
            } else {
                match self.aparte.current_account() {
                    None => self.aparte.schedule(
                        Event::CommandError(String::from_str("Not connected")),
                    ),
                    Some(_) => match parse_jid(command.args[0].as_str()) {
                        Some(Jid::Full(room)) => {
                            self.aparte.send(join_presence(&room));
                            let ghost waiting = self.joins@;
                            self.joins.push(room);
                            proof {
                                assert(rooms(self.joins@) =~= rooms(waiting).push(room@));
                            }
                        },
                        Some(Jid::Bare(_)) => self.aparte.schedule(
                            Event::CommandError(String::from_str("Missing nick")),
                        ),
                        None => self.aparte.schedule(
                            Event::CommandError(String::from_str("Invalid jid")),
                        ),
                    },
                }
            }
        } else if is(&command.name, "bookmark") {
            match self.bookmarks.execute(&mut self.aparte, command) {
                Err(reason) => self.aparte.schedule(Event::CommandError(reason)),
                Ok(()) => {},
            }
        }
        self.note_requests(from);
        proof {
            reveal_strlit("quit");
            reveal_strlit("win");
            reveal_strlit("msg");
            reveal_strlit("join");
            reveal_strlit("bookmark");
            assert("quit"@.len() == 4 && "win"@.len() == 3 && "msg"@.len() == 3 && "bookmark"@.len()
                == 8);
            assert("win"@[0] == 'w' && "msg"@[0] == 'm' && "quit"@[0] == 'q' && "join"@[0] == 'j');
            let after = self.aparte.pending();
            assert(after.subrange(0, before.len() as int) =~= before);
            if after.len() == before.len() + 1 {
                assert(more(before, after) =~= seq![after.last()]);
                assert(more(before, after)[0] == after.last());
            } else {
                assert(more(before, after) =~= Seq::<Event>::empty());
            }
            if command.args@.len() > 0 {
                assert(command@.args[0] == command.args@[0]@);
            }
        }
    }

    /// The core's own part in handing an event round.
    pub fn react(&mut self, event: &Event)
        requires
            old(self).wf(),
        ensures
            final(self).wf(),
            old(self).reacted(*event, final(self)),
    {
        let ghost before = self.aparte.pending();
        match event {
            Event::Connected(account, _) => {
                self.aparte.set_account(Some(account.clone()));
            },
            Event::Disconnected => {
                self.aparte.set_account(None);
                self.aparte.drain();
                self.joins = Vec::new();
                let given_up = self.iqs.cancel_all();
                let mut i: usize = 0;
                while i < given_up.len()
                    invariant
                        i <= given_up@.len(),
                        self.wf(),
                        self.joins@.len() == 0,
                        self.disco == old(self).disco,
                        self.carbons == old(self).carbons,
                        self.bookmarks == old(self).bookmarks,
                        self.ui == old(self).ui,
                        self.quit == old(self).quit,
                        self.clock == old(self).clock,
                        self.iqs.pending() == Seq::<Seq<char>>::empty(),
                        self.iqs.since() == Seq::<int>::empty(),
                        self.iqs.used() == old(self).iqs.used(),
                        self.aparte.account() is None,
                        self.aparte.outbound() == Seq::<Element>::empty(),
                        self.aparte.commands() == old(self).aparte.commands(),
                        before == old(self).aparte.pending(),
                        self.aparte.pending().len() == before.len() + i,
                        self.aparte.pending().subrange(0, before.len() as int) == before,
                        forall|k: int|
                            before.len() <= k < self.aparte.pending().len() ==> (
                            #[trigger] self.aparte.pending()[k] matches Event::CommandError(reason)
                                && reason@ == "disconnected"@),
                    decreases given_up.len() - i,
                {
                    let ghost waiting = self.aparte.pending();
                    self.aparte.schedule(Event::CommandError(String::from_str("disconnected")));
                    i = i + 1;
                    proof {
                        assert(self.aparte.pending().subrange(0, before.len() as int)
                            =~= waiting.subrange(0, before.len() as int));
                        assert forall|k: int|
                            before.len() <= k < self.aparte.pending().len() implies (
                        #[trigger] self.aparte.pending()[k] matches Event::CommandError(reason)
                            && reason@ == "disconnected"@) by {
                            if k < waiting.len() {
                                assert(self.aparte.pending()[k] == waiting[k]);
                            }
                        }
                    }
                }
                proof {
                    let after = self.aparte.pending();
                    assert(given_up@.len() == old(self).iqs.pending().len()) by {
                        assert(texts(given_up@).len() == given_up@.len());
                    }
                    assert forall|k: int| 0 <= k < more(before, after).len() implies (
                    #[trigger] more(before, after)[k] matches Event::CommandError(reason) && reason@
                        == "disconnected"@) by {
                        assert(more(before, after)[k] == after[k + before.len()]);
                    }
                }
            },
            Event::Command(command) => {
                self.run(command);
            },
            Event::CommandError(reason) => {
                self.aparte.log(reason.clone());
                proof {
                    let after = self.aparte.pending();
                    assert(after.subrange(0, before.len() as int) =~= after.drop_last());
                    assert(more(before, after) =~= seq![after.last()]);
                    assert(more(before, after)[0] == after.last());
                }
            },
            Event::SendMessage(account, message) => {
                let from = self.aparte.queued();
                match message {
                    Message::Outgoing(XmppMessage::Chat(chat)) => {
                        let stanza = message_stanza(
                            chat.id.clone(),
                            &chat.to,
                            false,
                            chat.body.as_str(),
                        );
                        self.aparte.send(stanza);
                        self.aparte.schedule(Event::Message(Some(account.clone()), message.clone()));
                    },
                    Message::Outgoing(XmppMessage::Groupchat(chat)) => {
                        let stanza = message_stanza(
                            chat.id.clone(),
                            &chat.to,
                            true,
                            chat.body.as_str(),
                        );
                        self.aparte.send(stanza);
                        self.aparte.schedule(Event::Message(Some(account.clone()), message.clone()));
                    },
                    _ => {},
                }
                self.note_requests(from);
            },
            _ => {},
        }
    }

    /// Hands an event round: to the plugins, to the core, and to the
    /// interface.
    pub fn handle(&mut self, event: &Event)
        requires
            old(self).wf(),
            event.wf(),
        ensures
            final(self).wf(),
            old(self).handled(*event, final(self)),
    {
        let from = self.aparte.queued();
        self.carbons.on_event(&mut self.aparte, event);
        self.note_requests(from);
        let ghost zero = *self;
        let from = self.aparte.queued();
        self.bookmarks.on_event(&mut self.aparte, event);
        self.note_requests(from);
        let ghost one = *self;
        self.react(event);
        let ghost two = *self;
        self.ui.on_event(&mut self.aparte, event);
        proof {
            assert(old(self).chain(*event, &zero, &one, &two, self));
        }
    }

    /// Whether `post` is this session after an event was dropped: a
    /// note of the client says so, and nothing else has changed.
    pub open spec fn dropped(&self, post: &Dispatcher) -> bool {
        &&& post.same_plugins(self)
        &&& post.aparte.same_but_pending(&self.aparte)
        &&& post.aparte.pending().len() == self.aparte.pending().len() + 1
        &&& post.aparte.pending().drop_last() == self.aparte.pending()
        &&& post.aparte.pending().last() matches Event::Message(None, Message::Log(note))
        &&& note.body@ == "Dropped an event that is not in order"@
    }

    /// Takes the event that waits longest and hands it round. An event
    /// that is not in order is dropped, and a note of the client says so.
    /// The result tells whether an event waited.
    pub fn step(&mut self) -> (waited: bool)
        requires
            old(self).wf(),
        ensures
            final(self).wf(),
            waited == (old(self).aparte.pending().len() > 0),
            !waited ==> final(self).same(old(self)),
            waited ==> exists|taken: Dispatcher| #[trigger]
                old(self).took(&taken) && if old(self).aparte.pending()[0].wf() {
                    taken.handled(old(self).aparte.pending()[0], final(self))
                } else {
                    taken.dropped(final(self))
                },
    {
        match self.aparte.next_event() {
            None => false,
            Some(event) => {
                let ghost taken = *self;
                if in_order(&event) {
                    self.handle(&event);
                } else {
                    self.aparte.log(String::from_str("Dropped an event that is not in order"));
                }
                proof {
                    assert(old(self).took(&taken));
                }
                true
            },
        }
    }

    /// The session once the event that waits longest has been taken from
    /// the queue.
    pub open spec fn took(&self, post: &Dispatcher) -> bool {
        &&& post.same_plugins(self)
        &&& post.aparte.same_but_pending(&self.aparte)
        &&& self.aparte.pending().len() > 0
        &&& post.aparte.pending() == self.aparte.pending().drop_first()
    }

    /// Takes note of the size that the terminal has now. Where it is
    /// another one than before, the change is scheduled, so that the
    /// views are laid out anew; the result tells whether it is.
    pub fn resize(&mut self, width: u16, height: u16) -> (changed: bool)
        requires
            old(self).wf(),
        ensures
            final(self).wf(),
            changed == (old(self).ui@.size != (fitted(width), fitted(height))),
            final(self).disco == old(self).disco,
            final(self).carbons == old(self).carbons,
            final(self).bookmarks == old(self).bookmarks,
            final(self).iqs == old(self).iqs,
            final(self).joins == old(self).joins,
            final(self).clock == old(self).clock,
            final(self).quit == old(self).quit,
            final(self).aparte.same_but_pending(&old(self).aparte),
            final(self).ui@ == (UiModel { size: (fitted(width), fitted(height)), ..old(self).ui@ }),
            final(self).aparte.pending() == if changed {
                old(self).aparte.pending().push(Event::WindowChange)
            } else {
                old(self).aparte.pending()
            },
    {
        let before = self.ui.size;
        self.ui.set_size(width, height);
        if before.0 != self.ui.size.0 || before.1 != self.ui.size.1 {
            self.aparte.schedule(Event::WindowChange);
            true
        } else {
            false
        }
    }

    /// Whether `post` is this session after a stanza came in. The request
    /// that it answers waits no longer. The stanza itself is scheduled for
    /// the plugins; behind it, what it says, or else what it forwards from
    /// another session, as a message of the account that is logged in;
    /// and where it is the answer of a room that the user has asked to
    /// enter, the room is waited for no longer, and unless the room
    /// refuses, it is scheduled that the user has entered it.
    pub open spec fn arrived(&self, stanza: Element, post: &Dispatcher) -> bool {
        let events = more(self.aparte.pending(), post.aparte.pending());
        let account = self.aparte.account();
        let room = answers_join(rooms(self.joins@), stanza);
        let talks = brought(stanza) is Some && account is Some;
        let enters = room is Some && !refused(stanza) && account is Some;
        let first: int = if talks {
            1
        } else {
            0
        };
        let second: int = if enters {
            1
        } else {
            0
        };
        &&& post.disco == self.disco
        &&& post.carbons == self.carbons
        &&& post.bookmarks == self.bookmarks
        &&& post.ui == self.ui
        &&& post.clock == self.clock
        &&& post.quit == self.quit
        &&& post.aparte.same_but_pending(&self.aparte)
        &&& post.iqs.used() == self.iqs.used()
        &&& post.iqs.pending() == match answer_of(stanza) {
            Some(id) => without(self.iqs.pending(), id),
            None => self.iqs.pending(),
        }
        &&& post.iqs.since() == match answer_of(stanza) {
            Some(id) => stamps_without(self.iqs.pending(), self.iqs.since(), id),
            None => self.iqs.since(),
        }
        &&& rooms(post.joins@) == match room {
            Some(room) => rooms(self.joins@).remove(join_index(rooms(self.joins@), room)),
            None => rooms(self.joins@),
        }
        &&& grown(self.aparte.pending(), post.aparte.pending())
        &&& events.len() == 1 + first + second
        &&& events[0] == Event::Stanza(stanza)
        &&& talks ==> said(brought(stanza).unwrap(), account.unwrap(), events[1])
        &&& enters ==> entered(room.unwrap(), account.unwrap(), events[1 + first])
    }

    /// Takes a stanza that came in.
    pub fn incoming(&mut self, stanza: Element)
        requires
            old(self).wf(),
        ensures
            final(self).wf(),
            old(self).arrived(stanza, final(self)),
    {
        let ghost before = self.aparte.pending();
        match answered(&stanza) {
            Some(id) => {
                let _ = self.iqs.resolve(id.as_str());
            },
            None => {},
        }
        let mut message: Option<Event> = None;
        let mut joined: Option<Event> = None;
        match self.aparte.current_account() {
            Some(account) => {
                message = heard(&stanza, &account);
                if message.is_none() {
                    let all = payloads(&stanza);
                    let mut i: usize = 0;
                    while i < all.len() && message.is_none()
                        invariant
                            i <= all@.len(),
                            all@ == payloads_of(stanza),
                            !says(stanza),
                            match message {
                                Some(event) => forwarded(all@, 0) matches Some(inner) && said(
                                    inner,
                                    account,
                                    event,
                                ),
                                None => forwarded(all@, 0) == forwarded(all@, i as int),
                            },
                        decreases all.len() - i,
                    {
                        match carbon(&all[i]) {
                            Some(inner) => {
                                message = heard(&inner, &account);
                            },
                            None => {},
                        }
                        i = i + 1;
                    }
                }
            },
            None => {},
        }
        match presence_sender(&stanza) {
            Some(Jid::Full(room)) => {
                let index = find_join(&self.joins, &room);
                if index < self.joins.len() {
                    let ghost waiting = self.joins@;
                    let _ = self.joins.remove(index);
                    proof {
                        assert(rooms(self.joins@) =~= rooms(waiting).remove(index as int));
                    }
                    if !presence_refused(&stanza) {
                        match self.aparte.current_account() {
                            Some(account) => {
                                joined = Some(
                                    Event::Joined {
                                        account,
                                        channel: Jid::Full(room),
                                        user_request: true,
                                    },
                                );
                            },
                            None => {},
                        }
                    }
                }
            },
            _ => {},
        }
        self.aparte.schedule(Event::Stanza(stanza));
        let ghost between = self.aparte.pending();
        match message {
            Some(event) => self.aparte.schedule(event),
            None => {},
        }
        let ghost behind = self.aparte.pending();
        match joined {
            Some(event) => self.aparte.schedule(event),
            None => {},
        }
        proof {
            let after = self.aparte.pending();
            let events = more(before, after);
            assert(after.subrange(0, before.len() as int) =~= before);
            assert(events.len() == after.len() - before.len());
            assert(events[0] == between.last());
            if behind.len() > between.len() {
                assert(events[1] == behind.last());
            }
            if after.len() > behind.len() {
                assert(events[behind.len() - before.len()] == after.last());
            }
        }
    }

    /// Takes the stanza that is to be sent next, if one waits.
    pub fn next_stanza(&mut self) -> (stanza: Option<Element>)
        ensures
            final(self).same_plugins(old(self)),
            final(self).aparte.account() == old(self).aparte.account(),
            final(self).aparte.pending() == old(self).aparte.pending(),
            final(self).aparte.commands() == old(self).aparte.commands(),
            match stanza {
                None => old(self).aparte.outbound().len() == 0 && final(self).aparte.outbound()
                    == old(self).aparte.outbound(),
                Some(stanza) => {
                    &&& old(self).aparte.outbound().len() > 0
                    &&& stanza == old(self).aparte.outbound()[0]
                    &&& final(self).aparte.outbound() == old(self).aparte.outbound().drop_first()
                },
            },
    {
        self.aparte.next_stanza()
    }

    /// Whether `post` is this session at the moment `now` of a new turn:
    /// the requests that have waited too long are given up, each gives the
    /// error `timeout`, and the others wait on.
    pub open spec fn ticked(&self, now: i64, post: &Dispatcher) -> bool {
        let given_up = more(self.aparte.pending(), post.aparte.pending());
        &&& post.disco == self.disco
        &&& post.carbons == self.carbons
        &&& post.bookmarks == self.bookmarks
        &&& post.ui == self.ui
        &&& post.joins == self.joins
        &&& post.quit == self.quit
        &&& post.clock == now
        &&& post.aparte.same_but_pending(&self.aparte)
        &&& post.iqs.used() == self.iqs.used()
        &&& post.iqs.pending() == sorted_out(
            self.iqs.pending(),
            self.iqs.since(),
            now as int,
            false,
        )
        &&& post.iqs.since() == self.iqs.since().filter(in_time(now as int))
        &&& grown(self.aparte.pending(), post.aparte.pending())
        &&& given_up.len() == sorted_out(
            self.iqs.pending(),
            self.iqs.since(),
            now as int,
            true,
        ).len()
        &&& forall|i: int|
            0 <= i < given_up.len() ==> (#[trigger] given_up[i] matches Event::CommandError(reason)
                && reason@ == "timeout"@)
    }

    /// Starts a turn at the moment `now`, in seconds since the epoch.
    pub fn tick(&mut self, now: i64)
        requires
            old(self).wf(),
        ensures
            final(self).wf(),
            old(self).ticked(now, final(self)),
    {
        let ghost before = self.aparte.pending();
        self.clock = now;
        let given_up = self.iqs.expire(now);
        let mut i: usize = 0;
        while i < given_up.len()
            invariant
                i <= given_up@.len(),
                self.wf(),
                self.disco == old(self).disco,
                self.carbons == old(self).carbons,
                self.bookmarks == old(self).bookmarks,
                self.ui == old(self).ui,
                self.joins == old(self).joins,
                self.quit == old(self).quit,
                self.clock == now,
                self.iqs.used() == old(self).iqs.used(),
                self.iqs.pending() == sorted_out(
                    old(self).iqs.pending(),
                    old(self).iqs.since(),
                    now as int,
                    false,
                ),
                self.iqs.since() == old(self).iqs.since().filter(in_time(now as int)),
                self.aparte.same_but_pending(&old(self).aparte),
                before == old(self).aparte.pending(),
                self.aparte.pending().len() == before.len() + i,
                self.aparte.pending().subrange(0, before.len() as int) == before,
                forall|k: int|
                    before.len() <= k < self.aparte.pending().len() ==> (
                    #[trigger] self.aparte.pending()[k] matches Event::CommandError(reason)
                        && reason@ == "timeout"@),
            decreases given_up.len() - i,
        {
            let ghost waiting = self.aparte.pending();
            self.aparte.schedule(Event::CommandError(String::from_str("timeout")));
            i = i + 1;
            proof {
                assert(self.aparte.pending().subrange(0, before.len() as int) =~= waiting.subrange(
                    0,
                    before.len() as int,
                ));
                assert forall|k: int| before.len() <= k < self.aparte.pending().len() implies (
                #[trigger] self.aparte.pending()[k] matches Event::CommandError(reason) && reason@
                    == "timeout"@) by {
                    if k < waiting.len() {
                        assert(self.aparte.pending()[k] == waiting[k]);
                    }
                }
            }
        }
        proof {
            let after = self.aparte.pending();
            assert(texts(given_up@).len() == given_up@.len());
            assert forall|k: int| 0 <= k < more(before, after).len() implies (#[trigger] more(
                before,
                after,
            )[k] matches Event::CommandError(reason) && reason@ == "timeout"@) by {
                assert(more(before, after)[k] == after[k + before.len()]);
            }
        }
    }

    /// Starts a turn at the moment at which it is called.
    pub fn turn(&mut self)
        requires
            old(self).wf(),
        ensures
            final(self).wf(),
            exists|now: i64| #[trigger] old(self).ticked(now, final(self)),
    {
        let moment = now();
        self.tick(moment);
    }
}

/// What a stanza says, as a message of the account, written at the moment
/// of the call; nothing where it says nothing.
fn heard(stanza: &Element, account: &BareJid) -> (event: Option<Event>)
    ensures
        match event {
            Some(event) => says(*stanza) && said(*stanza, *account, event),
            None => !says(*stanza),
        },
{
    match (sender(stanza), body(stanza, "")) {
        (Some(from), Some(text)) => {
            if reports_error(stanza) {
                None
            } else {
                let to = match recipient(stanza) {
                    Some(to) => to.to_bare(),
                    None => account.clone(),
                };
                let id = match message_id(stanza) {
                    Some(id) => id,
                    None => String::new(),
                };
                let said = if said_in_room(stanza) {
                    XmppMessage::Groupchat(
                        GroupchatMessage {
                            id,
                            timestamp: now(),
                            from: from.to_bare(),
                            from_full: from,
                            to,
                            body: text,
                        },
                    )
                } else {
                    XmppMessage::Chat(
                        ChatMessage { id, timestamp: now(), from: from.to_bare(), to, body: text },
                    )
                };
                Some(Event::Message(Some(account.clone()), Message::Incoming(said)))
            }
        },
        _ => None,
    }
}

/// The index of the first of `joins` that is `room`, or their number
/// where none is.
fn find_join(joins: &Vec<FullJid>, room: &FullJid) -> (index: usize)
    ensures
        index == join_index(rooms(joins@), room@),
        index <= joins@.len(),
{
    let ghost all = rooms(joins@);
    let mut i: usize = 0;
    proof {
        assert(all.skip(0) =~= all);
    }
    while i < joins.len()
        invariant
            i <= joins@.len(),
            all == rooms(joins@),
            join_index(all, room@) == i + join_index(all.skip(i as int), room@),
        decreases joins.len() - i,
    {
        proof {
            assert(all[i as int] == joins@[i as int]@);
            assert(all.skip(i as int)[0] == all[i as int]);
            assert(all.skip(i as int).drop_first() =~= all.skip(i + 1));
        }
        if joins[i].same(room) {
            return i;
        }
        i = i + 1;
    }
    proof {
        assert(all.skip(i as int).len() == 0);
    }
    i
}

fn is(text: &String, word: &str) -> (same: bool)
    ensures
        same == (text@ == word@),
{
    *text == word.to_owned()
}

/// Whether an event is in order.
pub fn in_order(event: &Event) -> (ok: bool)
    ensures
        ok == event.wf(),
{
    match event {
        Event::Completed(line, cursor) => cursor.index <= line.as_str().unicode_len(),
        Event::Message(account, message) => match message {
            Message::Log(_) => true,
            _ => account.is_some(),
        },
        _ => true,
    }
}

} // verus!
