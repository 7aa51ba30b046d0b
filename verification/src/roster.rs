//! What the roster of the console lists: contacts, bookmarks and windows.

use crate::contact::{bookmark_line, contact_line, Bookmark, BookmarkView, Contact, ContactView};
use crate::jid::BareJidView;
use crate::listview::Keyed;
use vstd::prelude::*;
use vstd::string::*;

verus! {

/// An entry of the roster.
#[derive(Debug)]
pub enum RosterItem {
    Contact(Contact),
    Bookmark(Bookmark),
    Window(String),
}

/// What an entry of the roster holds.
pub enum RosterItemView {
    Contact(ContactView),
    Bookmark(BookmarkView),
    Window(Seq<char>),
}

/// What tells one roster entry from another: the address of a contact or
/// of a bookmark, the name of a window.
pub enum RosterKey {
    Contact(BareJidView),
    Bookmark(BareJidView),
    Window(Seq<char>),
}

impl View for RosterItem {
    type V = RosterItemView;

    open spec fn view(&self) -> RosterItemView {
        match self {
            RosterItem::Contact(contact) => RosterItemView::Contact(contact@),
            RosterItem::Bookmark(bookmark) => RosterItemView::Bookmark(bookmark@),
            RosterItem::Window(window) => RosterItemView::Window(window@),
        }
    }
}

impl RosterItemView {
    /// What tells this entry from another.
    pub open spec fn key(self) -> RosterKey {
        match self {
            RosterItemView::Contact(contact) => RosterKey::Contact(contact.jid),
            RosterItemView::Bookmark(bookmark) => RosterKey::Bookmark(bookmark.jid),
            RosterItemView::Window(window) => RosterKey::Window(window),
        }
    }

    /// The text by which the entry is ordered: the name of a contact or of
    /// a bookmark, or the address where it has no name; the name of a
    /// window.
    pub open spec fn label(self) -> Seq<char> {
        match self {
            RosterItemView::Contact(contact) => match contact.name {
                Some(name) => name,
                None => contact.jid.text(),
            },
            RosterItemView::Bookmark(bookmark) => match bookmark.name {
                Some(name) => name,
                None => bookmark.jid.text(),
            },
            RosterItemView::Window(window) => window,
        }
    }

    /// The entry as the roster shows it.
    pub open spec fn line(self) -> Seq<char> {
        match self {
            RosterItemView::Contact(contact) => contact_line(
                contact.presence,
                contact.name,
                contact.jid.text(),
            ),
            RosterItemView::Bookmark(bookmark) => bookmark_line(bookmark.name, bookmark.jid.text()),
            RosterItemView::Window(window) => window,
        }
    }
}

impl Clone for RosterItem {
    fn clone(&self) -> (copy: Self)
        ensures
            copy@ == self@,
    {
        match self {
            RosterItem::Contact(contact) => RosterItem::Contact(contact.clone()),
            RosterItem::Bookmark(bookmark) => RosterItem::Bookmark(bookmark.clone()),
            RosterItem::Window(window) => RosterItem::Window(window.clone()),
        }
    }
}

impl Keyed for RosterItem {
    type Shown = RosterItemView;

    type Key = RosterKey;

    open spec fn shown(&self) -> RosterItemView {
        self@
    }

    open spec fn key_of(shown: RosterItemView) -> RosterKey {
        shown.key()
    }

    open spec fn label_of(shown: RosterItemView) -> Seq<char> {
        shown.label()
    }

    fn same(&self, other: &Self) -> (same: bool) {
        self.eq(other)
    }

    fn label_text(&self) -> (label: String) {
        match self {
            RosterItem::Contact(contact) => match &contact.name {
                Some(name) => name.clone(),
                None => contact.jid.to_string(),
            },
            RosterItem::Bookmark(bookmark) => match &bookmark.name {
                Some(name) => name.clone(),
                None => bookmark.jid.to_string(),
            },
            RosterItem::Window(window) => window.clone(),
        }
    }

    open spec fn line_of(shown: RosterItemView) -> Seq<char> {
        shown.line()
    }

    fn line_text(&self) -> (line: String) {
        self.to_string()
    }
}

impl RosterItem {
    /// Whether the two entries stand for the same thing: two contacts or
    /// two bookmarks with one address, two windows with one name.
    pub fn eq(&self, other: &RosterItem) -> (same: bool)
        ensures
            same == (self@.key() == other@.key()),
    {
        match (self, other) {
            (RosterItem::Contact(a), RosterItem::Contact(b)) => a.jid.same(&b.jid),
            (RosterItem::Bookmark(a), RosterItem::Bookmark(b)) => a.jid.same(&b.jid),
            (RosterItem::Window(a), RosterItem::Window(b)) => *a == *b,
            _ => false,
        }
    }

    /// The entry as the roster shows it.
    pub fn to_string(&self) -> (s: String)
        ensures
            s@ == self@.line(),
    {
        match self {
            RosterItem::Contact(contact) => contact.to_string(),
            RosterItem::Bookmark(bookmark) => bookmark.to_string(),
            RosterItem::Window(window) => window.clone(),
        }
    }
}

} // verus!
