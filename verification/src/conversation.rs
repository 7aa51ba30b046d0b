//! Conversations, and who sits in a room.

use crate::color::{id_to_rgb, rgb_of};
use crate::jid::{BareJid, BareJidView};
use crate::term::{fg_rgb, fg_rgb_text, fg_white, fg_yellow};
use vstd::prelude::*;
use vstd::string::*;

verus! {

/// What an occupant may do in a room.
#[derive(Clone, Copy, Debug, PartialEq, Eq, Structural)]
pub enum Role {
    Moderator,
    Participant,
    Visitor,
    NoRole,
}

/// How an occupant is bound to a room.
#[derive(Clone, Copy, Debug, PartialEq, Eq, Structural)]
pub enum Affiliation {
    Owner,
    Admin,
    Member,
    Outcast,
    NoAffiliation,
}

/// Someone who sits in a room, known there by a nick.
#[derive(Debug, PartialEq, Eq)]
pub struct Occupant {
    pub nick: String,
    pub jid: Option<BareJid>,
    pub affiliation: Affiliation,
    pub role: Role,
}

impl Clone for Occupant {
    fn clone(&self) -> (copy: Self)
        ensures
            copy == *self,
    {
        Occupant {
            nick: self.nick.clone(),
            jid: match &self.jid {
                Some(jid) => Some(jid.clone()),
                None => None,
            },
            affiliation: self.affiliation,
            role: self.role,
        }
    }
}

/// The heading under which the occupants of a role are listed.
pub open spec fn role_title(role: Role) -> Seq<char> {
    match role {
        Role::Moderator => "Moderators"@,
        Role::Participant => "Participants"@,
        Role::Visitor => "Visitors"@,
        Role::NoRole => "Others"@,
    }
}

/// A role's line in a list: its heading in yellow. Yellow is selected
/// once more behind it, so that what follows stays yellow until another
/// colour is chosen.
pub open spec fn role_line(role: Role) -> Seq<char> {
    "\x1b[38;5;3m"@ + role_title(role) + "\x1b[38;5;3m"@
}

/// An occupant's line in a list: the nick in the colour that stands for
/// it, then white again.
pub open spec fn occupant_line(nick: Seq<char>) -> Seq<char> {
    fg_rgb_text(rgb_of(nick).0, rgb_of(nick).1, rgb_of(nick).2) + nick + "\x1b[38;5;7m"@
}

impl crate::listview::Keyed for Role {
    type Shown = Role;

    type Key = Role;

    open spec fn shown(&self) -> Role {
        *self
    }

    open spec fn key_of(shown: Role) -> Role {
        shown
    }

    open spec fn label_of(shown: Role) -> Seq<char> {
        role_title(shown)
    }

    fn same(&self, other: &Self) -> (same: bool) {
        match (self, other) {
            (Role::Moderator, Role::Moderator) => true,
            (Role::Participant, Role::Participant) => true,
            (Role::Visitor, Role::Visitor) => true,
            (Role::NoRole, Role::NoRole) => true,
            _ => false,
        }
    }

    fn label_text(&self) -> (label: String) {
        match self {
            Role::Moderator => String::from_str("Moderators"),
            Role::Participant => String::from_str("Participants"),
            Role::Visitor => String::from_str("Visitors"),
            Role::NoRole => String::from_str("Others"),
        }
    }

    open spec fn line_of(shown: Role) -> Seq<char> {
        role_line(shown)
    }

    fn line_text(&self) -> (line: String) {
        self.to_string()
    }
}

/// What an occupant holds.
pub struct OccupantView {
    pub nick: Seq<char>,
    pub jid: Option<BareJidView>,
    pub affiliation: Affiliation,
    pub role: Role,
}

impl View for Occupant {
    type V = OccupantView;

    open spec fn view(&self) -> OccupantView {
        OccupantView {
            nick: self.nick@,
            jid: match self.jid {
                Some(jid) => Some(jid@),
                None => None,
            },
            affiliation: self.affiliation,
            role: self.role,
        }
    }
}

/// An occupant is known by the nick, and ordered by it.
impl crate::listview::Keyed for Occupant {
    type Shown = OccupantView;

    type Key = Seq<char>;

    open spec fn shown(&self) -> OccupantView {
        self@
    }

    open spec fn key_of(shown: OccupantView) -> Seq<char> {
        shown.nick
    }

    open spec fn label_of(shown: OccupantView) -> Seq<char> {
        shown.nick
    }

    fn same(&self, other: &Self) -> (same: bool) {
        self.nick == other.nick
    }

    fn label_text(&self) -> (label: String) {
        self.nick.clone()
    }

    open spec fn line_of(shown: OccupantView) -> Seq<char> {
        occupant_line(shown.nick)
    }

    fn line_text(&self) -> (line: String) {
        self.to_string()
    }
}

impl Role {
    /// The role as a list shows it.
    pub fn to_string(&self) -> (s: String)
        ensures
            s@ == role_line(*self),
    {
        let mut s = fg_yellow();
        match self {
            Role::Moderator => s.append("Moderators"),
            Role::Participant => s.append("Participants"),
            Role::Visitor => s.append("Visitors"),
            Role::NoRole => s.append("Others"),
        }
        s.append(fg_yellow().as_str());
        s
    }
}

impl Occupant {
    /// The occupant as a list shows it.
    pub fn to_string(&self) -> (s: String)
        ensures
            s@ == occupant_line(self.nick@),
    {
        let colour = id_to_rgb(self.nick.as_str());
        let mut s = fg_rgb(colour.0, colour.1, colour.2);
        s.append(self.nick.as_str());
        s.append(fg_white().as_str());
        s
    }
}

/// The two kinds of conversation.
#[derive(Clone, Copy, Debug, PartialEq, Eq, Structural)]
pub enum ConversationKind {
    Chat,
    Group,
}

/// A conversation: the account that holds it, the contact or room it is
/// with, and its kind. Its name is the address as it is written.
#[derive(Debug, PartialEq, Eq)]
pub struct Conversation {
    pub account: BareJid,
    pub jid: BareJid,
    pub kind: ConversationKind,
}

/// What a conversation holds.
pub struct ConversationView {
    pub account: BareJidView,
    pub jid: BareJidView,
    pub kind: ConversationKind,
}

impl View for Conversation {
    type V = ConversationView;

    open spec fn view(&self) -> ConversationView {
        ConversationView { account: self.account@, jid: self.jid@, kind: self.kind }
    }
}

impl Clone for Conversation {
    fn clone(&self) -> (copy: Self)
        ensures
            copy == *self,
    {
        Conversation { account: self.account.clone(), jid: self.jid.clone(), kind: self.kind }
    }
}

} // verus!
