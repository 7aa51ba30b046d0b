//! The entries of the roster: contacts, their groups, and bookmarked rooms.

use crate::jid::{copy_text, BareJid, BareJidView};
use crate::term::{fg_green, fg_white, fg_yellow};
use crate::text::text_of;
use vstd::prelude::*;
use vstd::string::*;

verus! {

/// A roster group, by its name.
#[derive(Debug, PartialEq, Eq)]
pub struct Group(pub String);

/// Whether and how a contact is there.
#[derive(Clone, Copy, Debug, PartialEq, Eq, Structural)]
pub enum Presence {
    Available,
    Chat,
    Away,
    Dnd,
    Xa,
    Unavailable,
}

/// A roster entry.
#[derive(Debug, PartialEq, Eq)]
pub struct Contact {
    pub jid: BareJid,
    pub name: Option<String>,
    pub groups: Vec<Group>,
    pub presence: Presence,
}

/// A bookmarked room.
#[derive(Debug, PartialEq, Eq)]
pub struct Bookmark {
    pub jid: BareJid,
    pub name: Option<String>,
    pub nick: Option<String>,
    pub password: Option<String>,
    pub autojoin: bool,
}

/// What a contact holds.
pub struct ContactView {
    pub jid: BareJidView,
    pub name: Option<Seq<char>>,
    pub groups: Seq<Seq<char>>,
    pub presence: Presence,
}

/// What a bookmark holds.
pub struct BookmarkView {
    pub jid: BareJidView,
    pub name: Option<Seq<char>>,
    pub nick: Option<Seq<char>>,
    pub password: Option<Seq<char>>,
    pub autojoin: bool,
}

/// The names of a list of groups.
pub open spec fn group_names(groups: Seq<Group>) -> Seq<Seq<char>> {
    groups.map_values(|group: Group| group.0@)
}

impl View for Contact {
    type V = ContactView;

    open spec fn view(&self) -> ContactView {
        ContactView {
            jid: self.jid@,
            name: text_of(self.name),
            groups: group_names(self.groups@),
            presence: self.presence,
        }
    }
}

impl View for Bookmark {
    type V = BookmarkView;

    open spec fn view(&self) -> BookmarkView {
        BookmarkView {
            jid: self.jid@,
            name: text_of(self.name),
            nick: text_of(self.nick),
            password: text_of(self.password),
            autojoin: self.autojoin,
        }
    }
}

impl Clone for Group {
    fn clone(&self) -> (copy: Self)
        ensures
            copy == *self,
    {
        Group(self.0.clone())
    }
}

/// A copy of a list of groups.
pub fn copy_groups(groups: &Vec<Group>) -> (copy: Vec<Group>)
    ensures
        copy@ == groups@,
{
    let mut copy: Vec<Group> = Vec::new();
    let mut i: usize = 0;
    while i < groups.len()
        invariant
            i <= groups.len(),
            copy@ == groups@.subrange(0, i as int),
        decreases groups.len() - i,
    {
        copy.push(groups[i].clone());
        i = i + 1;
        proof {
            assert(copy@ =~= groups@.subrange(0, i as int));
        }
    }
    proof {
        assert(copy@ =~= groups@);
    }
    copy
}

impl Clone for Contact {
    fn clone(&self) -> (copy: Self)
        ensures
            copy.jid == self.jid,
            copy.name == self.name,
            copy.groups@ == self.groups@,
            copy.presence == self.presence,
            copy@ == self@,
    {
        Contact {
            jid: self.jid.clone(),
            name: copy_text(&self.name),
            groups: copy_groups(&self.groups),
            presence: self.presence,
        }
    }
}

impl Clone for Bookmark {
    fn clone(&self) -> (copy: Self)
        ensures
            copy == *self,
    {
        Bookmark {
            jid: self.jid.clone(),
            name: copy_text(&self.name),
            nick: copy_text(&self.nick),
            password: copy_text(&self.password),
            autojoin: self.autojoin,
        }
    }
}

/// A group's line in a list: its name in yellow, then white again.
pub open spec fn group_line(name: Seq<char>) -> Seq<char> {
    "\x1b[38;5;3m"@ + name + "\x1b[38;5;7m"@
}

/// A contact's line in a list: green for one who is there, white for the
/// others; the name with the address in brackets, or the address alone.
pub open spec fn contact_line(
    presence: Presence,
    name: Option<Seq<char>>,
    address: Seq<char>,
) -> Seq<char> {
    (match presence {
        Presence::Available | Presence::Chat => "\x1b[38;5;2m"@,
        _ => "\x1b[38;5;7m"@,
    }) + (match name {
        Some(name) => name + " ("@ + address + ")"@,
        None => address,
    }) + "\x1b[38;5;7m"@
}

/// A bookmark's line in a list: its name, or else its address, then white.
pub open spec fn bookmark_line(name: Option<Seq<char>>, address: Seq<char>) -> Seq<char> {
    (match name {
        Some(name) => name,
        None => address,
    }) + "\x1b[38;5;7m"@
}

impl crate::listview::Keyed for Group {
    type Shown = Seq<char>;

    type Key = Seq<char>;

    open spec fn shown(&self) -> Seq<char> {
        self.0@
    }

    open spec fn key_of(shown: Seq<char>) -> Seq<char> {
        shown
    }

    open spec fn label_of(shown: Seq<char>) -> Seq<char> {
        shown
    }

    fn same(&self, other: &Self) -> (same: bool) {
        self.0 == other.0
    }

    fn label_text(&self) -> (label: String) {
        self.0.clone()
    }

    open spec fn line_of(shown: Seq<char>) -> Seq<char> {
        group_line(shown)
    }

    fn line_text(&self) -> (line: String) {
        self.to_string()
    }
}

impl Group {
    /// The group as a list shows it.
    pub fn to_string(&self) -> (s: String)
        ensures
            s@ == group_line(self.0@),
    {
        let mut s = fg_yellow();
        s.append(self.0.as_str());
        s.append(fg_white().as_str());
        s
    }
}

impl Contact {
    /// The contact as a list shows it.
    pub fn to_string(&self) -> (s: String)
        ensures
            s@ == contact_line(self.presence, text_of(self.name), self.jid@.text()),
    {
        let mut s = match self.presence {
            Presence::Available | Presence::Chat => fg_green(),
            Presence::Away | Presence::Dnd | Presence::Xa | Presence::Unavailable => fg_white(),
        };
        let ghost colour = s@;
        match &self.name {
            Some(name) => {
                s.append(name.as_str());
                s.append(" (");
                s.append(self.jid.to_string().as_str());
                s.append(")");
            },
            None => {
                s.append(self.jid.to_string().as_str());
            },
        }
        s.append(fg_white().as_str());
        proof {
            assert(s@ =~= contact_line(self.presence, text_of(self.name), self.jid@.text()));
        }
        s
    }
}

impl Bookmark {
    /// The bookmark as a list shows it.
    pub fn to_string(&self) -> (s: String)
        ensures
            s@ == bookmark_line(text_of(self.name), self.jid@.text()),
    {
        let mut s = match &self.name {
            Some(name) => name.clone(),
            None => self.jid.to_string(),
        };
        s.append(fg_white().as_str());
        s
    }
}

} // verus!
