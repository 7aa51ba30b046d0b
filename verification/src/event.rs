//! What flows over the bus between the session, the plugins and the
//! interface.

use crate::command::Command;
use crate::contact::{Bookmark, Contact};
use crate::conversation::Occupant;
use crate::input::Cursor;
use crate::jid::{BareJid, Jid};
use crate::message::Message;
use vstd::prelude::*;
use xmpp_parsers::Element;

verus! {

#[verifier::external_type_specification]
#[verifier::external_body]
pub struct ExElement(Element);

/// A key of the terminal.
#[derive(Clone, Copy, Debug, PartialEq, Eq, Structural)]
pub enum Key {
    Backspace,
    Left,
    Right,
    Up,
    Down,
    Home,
    End,
    PageUp,
    PageDown,
    BackTab,
    Delete,
    Insert,
    F(u8),
    Char(char),
    Alt(char),
    Ctrl(char),
    Null,
    Esc,
}

/// An event on the bus.
#[derive(Debug)]
#[allow(inconsistent_fields)]
pub enum Event {
    /// The session is up for the account, under the full address.
    Connected(BareJid, Jid),
    Disconnected,
    /// A stanza came in.
    Stanza(Element),
    /// A message for the account, or a note of the client itself.
    Message(Option<BareJid>, Message),
    /// The user wants to talk to a contact.
    Chat { account: BareJid, contact: BareJid },
    /// A room was joined, at the user's request or not.
    Joined { account: BareJid, channel: Jid, user_request: bool },
    /// Someone sits in a room.
    Occupant { account: BareJid, conversation: BareJid, occupant: Occupant },
    Contact(BareJid, Contact),
    ContactUpdate(BareJid, Contact),
    Bookmark(Bookmark),
    DeletedBookmark(BareJid),
    Key(Key),
    /// The terminal has another size.
    WindowChange,
    /// The user asks for a window by its name.
    Win(String),
    /// The window in front is another one.
    ChangeWindow(String),
    /// A completion: the new line and the new cursor.
    Completed(String, Cursor),
    /// The user asks for a completion of the line at the cursor.
    AutoComplete {
        account: Option<BareJid>,
        conversation: Option<BareJid>,
        raw_buf: String,
        cursor: Cursor,
    },
    ResetCompletion,
    /// The next line is a password, and the last argument of the command.
    ReadPassword(Command),
    Command(Command),
    CommandError(String),
    SendMessage(BareJid, Message),
    LoadHistory(BareJid),
}

impl Event {
    /// A completion carries a cursor that lies in its line, and a message
    /// that went over the wire belongs to an account.
    pub open spec fn wf(&self) -> bool {
        match self {
            Event::Completed(line, cursor) => cursor.index <= line@.len(),
            Event::Message(account, message) => message is Log || account is Some,
            _ => true,
        }
    }
}

} // verus!
