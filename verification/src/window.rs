//! The three kinds of window: the console, with the notes of the client
//! and the roster; a chat with a contact; a room, with its occupants.

use crate::buffered::{rendered, BufferedModel, BufferedWin};
use crate::contact::{Bookmark, Contact, ContactView, Group};
use crate::conversation::{Occupant, Role};
use crate::event::{Event, Key};
use crate::jid::{BareJid, BareJidView};
use crate::layout::{arrange, place_of, Orientation, Rect, Wish};
use crate::listview::{Keyed, ListModel, ListView};
use crate::message::{Message, XmppMessage};
use crate::paint::{in_sight, lines_in, on_screen, paint, paint_frame, split, widest, width_of};
use crate::roster::{RosterItem, RosterItemView, RosterKey};
use crate::text::texts;
use crate::view::Dimension;
use vstd::prelude::*;
use vstd::string::*;

verus! {

/// A window.
#[allow(inconsistent_fields)]
pub enum Window {
    Console { log: BufferedWin, roster: ListView<Group, RosterItem> },
    Chat { jid: BareJid, log: BufferedWin },
    Group { jid: BareJid, log: BufferedWin, roster: ListView<Role, Occupant> },
}

/// What a window holds.
#[allow(inconsistent_fields)]
pub enum WindowModel {
    Console { log: BufferedModel, roster: ListModel<Group, RosterItem> },
    Chat { jid: BareJidView, log: BufferedModel },
    Group { jid: BareJidView, log: BufferedModel, roster: ListModel<Role, Occupant> },
}

/// The roster with a contact put under the first `k` of its groups.
pub open spec fn enrolled(
    roster: ListModel<Group, RosterItem>,
    contact: ContactView,
    k: int,
) -> ListModel<Group, RosterItem>
    decreases k,
{
    if k <= 0 {
        roster
    } else {
        enrolled(roster, contact, k - 1).insert(
            RosterItemView::Contact(contact),
            Some(contact.groups[k - 1]),
        )
    }
}

/// The roster with a contact put under each of its groups, or under
/// `Contacts` where it has none.
pub open spec fn with_contact(roster: ListModel<Group, RosterItem>, contact: ContactView) -> ListModel<
    Group,
    RosterItem,
> {
    if contact.groups.len() > 0 {
        enrolled(roster, contact, contact.groups.len() as int)
    } else {
        roster.insert(RosterItemView::Contact(contact), Some("Contacts"@))
    }
}

/// The roster without the bookmark of a room, if `Bookmarks` holds it.
pub open spec fn without_bookmark(roster: ListModel<Group, RosterItem>, room: BareJidView) -> ListModel<
    Group,
    RosterItem,
> {
    if roster.holds(RosterKey::Bookmark(room), Some("Bookmarks"@)) {
        roster.remove(RosterKey::Bookmark(room), Some("Bookmarks"@))
    } else {
        roster
    }
}

/// A backlog after a key: a page back, a page on, or as it was.
pub open spec fn scrolled(log: BufferedModel, event: Event, rows: int) -> BufferedModel {
    match event {
        Event::Key(Key::PageUp) => log.page_up(rows),
        Event::Key(Key::PageDown) => log.page_down(rows),
        _ => log,
    }
}

impl WindowModel {
    /// The console, empty: its roster takes entries without a group and
    /// orders the entries of a group.
    pub open spec fn console() -> WindowModel {
        WindowModel::Console {
            log: BufferedModel { history: Seq::empty(), view: 0 },
            roster: ListModel {
                none_group: true,
                unique: false,
                sorted: true,
                groups: Seq::empty(),
                rows: Seq::empty(),
                loose: Seq::empty(),
            },
        }
    }

    /// The window of a chat with a contact, empty.
    pub open spec fn chat(jid: BareJidView) -> WindowModel {
        WindowModel::Chat { jid, log: BufferedModel { history: Seq::empty(), view: 0 } }
    }

    /// The window of a room, empty: its list of occupants takes entries
    /// without a group, holds an occupant under one role only, and orders
    /// the occupants of a role.
    pub open spec fn group(jid: BareJidView) -> WindowModel {
        WindowModel::Group {
            jid,
            log: BufferedModel { history: Seq::empty(), view: 0 },
            roster: ListModel {
                none_group: true,
                unique: true,
                sorted: true,
                groups: Seq::empty(),
                rows: Seq::empty(),
                loose: Seq::empty(),
            },
        }
    }

    /// The window after an event, in a view of `rows` rows.
    ///
    /// Every window scrolls by pages. The console takes the notes of the
    /// client; its roster gets its three groups when the session is up,
    /// and follows the contacts and the bookmarks. A chat takes what its
    /// contact says and what is said to its contact. A room takes what is
    /// said in it and to it, and lists who sits in it, by role.
    pub open spec fn after(self, event: Event, rows: int) -> WindowModel {
        match self {
            WindowModel::Console { log, roster } => WindowModel::Console {
                log: match event {
                    Event::Message(_, Message::Log(note)) => log.recv(Message::Log(note)),
                    _ => scrolled(log, event, rows),
                },
                roster: match event {
                    Event::Connected(_, _) => roster.add_group("Windows"@).add_group(
                        "Contacts"@,
                    ).add_group("Bookmarks"@),
                    Event::Contact(_, contact) => with_contact(roster, contact@),
                    Event::ContactUpdate(_, contact) => with_contact(roster, contact@),
                    Event::Bookmark(bookmark) => roster.insert(
                        RosterItemView::Bookmark(bookmark@),
                        Some("Bookmarks"@),
                    ),
                    Event::DeletedBookmark(room) => without_bookmark(roster, room@),
                    _ => roster,
                },
            },
            WindowModel::Chat { jid, log } => WindowModel::Chat {
                jid,
                log: match event {
                    Event::Message(_, Message::Incoming(XmppMessage::Chat(message))) => if message.from@
                        == jid {
                        log.recv(Message::Incoming(XmppMessage::Chat(message)))
                    } else {
                        log
                    },
                    Event::Message(_, Message::Outgoing(XmppMessage::Chat(message))) => if message.to@
                        == jid {
                        log.recv(Message::Outgoing(XmppMessage::Chat(message)))
                    } else {
                        log
                    },
                    _ => scrolled(log, event, rows),
                },
            },
            WindowModel::Group { jid, log, roster } => WindowModel::Group {
                jid,
                log: match event {
                    Event::Message(
                        _,
                        Message::Incoming(XmppMessage::Groupchat(message)),
                    ) => if message.from@ == jid {
                        log.recv(Message::Incoming(XmppMessage::Groupchat(message)))
                    } else {
                        log
                    },
                    Event::Message(
                        _,
                        Message::Outgoing(XmppMessage::Groupchat(message)),
                    ) => if message.to@ == jid {
                        log.recv(Message::Outgoing(XmppMessage::Groupchat(message)))
                    } else {
                        log
                    },
                    _ => scrolled(log, event, rows),
                },
                roster: match event {
                    Event::Occupant { conversation, occupant, .. } => if conversation@ == jid {
                        roster.insert(occupant@, Some(occupant.role))
                    } else {
                        roster
                    },
                    _ => roster,
                },
            },
        }
    }

    /// Whether the window rings the bell at an event: a chat when its
    /// contact says something, a room when something is said in it.
    pub open spec fn rings(self, event: Event) -> bool {
        match (self, event) {
            (
                WindowModel::Chat { jid, .. },
                Event::Message(_, Message::Incoming(XmppMessage::Chat(message))),
            ) => message.from@ == jid,
            (
                WindowModel::Group { jid, .. },
                Event::Message(_, Message::Incoming(XmppMessage::Groupchat(message))),
            ) => message.from@ == jid,
            _ => false,
        }
    }

    /// The window once a window of this name has been opened: the roster
    /// of the console lists it under `Windows`.
    pub open spec fn with_window(self, name: Seq<char>) -> WindowModel {
        match self {
            WindowModel::Console { log, roster } => WindowModel::Console {
                log,
                roster: roster.insert(RosterItemView::Window(name), Some("Windows"@)),
            },
            _ => self,
        }
    }
}

/// What the two halves of a window with a list ask for: the list is as
/// wide as its longest label, and the backlog takes what the list leaves.
pub open spec fn halves(list_width: u16) -> Seq<Wish> {
    seq![
        Wish {
            width: Dimension::MatchParent,
            height: Dimension::MatchParent,
            content_w: 0,
            content_h: 0,
        },
        Wish {
            width: Dimension::WrapContent,
            height: Dimension::MatchParent,
            content_w: list_width,
            content_h: 0,
        },
    ]
}

/// The rectangle `(x, y, w, h)`.
pub open spec fn rect_at(place: (int, int, int, int)) -> Rect {
    Rect { x: place.0 as u16, y: place.1 as u16, w: place.2 as u16, h: place.3 as u16 }
}

/// What drawing a backlog and a list side by side into a rectangle sends
/// to the terminal: the backlog stands on the bottom of the left half, the
/// list hangs from the top of the right half.
pub open spec fn split_frame(
    rect: Rect,
    lines: Seq<Seq<char>>,
    list: Seq<Seq<char>>,
    labels: Seq<Seq<char>>,
) -> Seq<char> {
    let wishes = halves(width_of(labels, labels.len() as int) as u16);
    paint_frame(rect_at(place_of(Orientation::Horizontal, wishes, rect, 0)), lines, true)
        + paint_frame(rect_at(place_of(Orientation::Horizontal, wishes, rect, 1)), list, false)
}

impl WindowModel {
    /// The backlog of the window.
    pub open spec fn log(self) -> BufferedModel {
        match self {
            WindowModel::Console { log, .. } => log,
            WindowModel::Chat { log, .. } => log,
            WindowModel::Group { log, .. } => log,
        }
    }

    /// What drawing the window into a rectangle sends to the terminal,
    /// with `shown` for the entries of the backlog: of their lines, those
    /// that the view is not scrolled back over.
    pub open spec fn frame(self, rect: Rect, shown: Seq<Seq<char>>) -> Seq<char> {
        let lines = in_sight(lines_in(shown, shown.len() as int), self.log().view);
        match self {
            WindowModel::Console { roster, .. } => split_frame(
                rect,
                lines,
                roster.listed(true),
                roster.listed(false),
            ),
            WindowModel::Chat { .. } => paint_frame(rect, lines, true),
            WindowModel::Group { roster, .. } => split_frame(
                rect,
                lines,
                roster.listed(true),
                roster.listed(false),
            ),
        }
    }

    /// Whether `out` is what drawing the window into a rectangle sends to
    /// the terminal, at whatever times of day.
    pub open spec fn draws(self, rect: Rect, out: Seq<char>) -> bool {
        exists|shown: Seq<Seq<char>>|
            rendered(self.log().history, shown) && out == #[trigger] self.frame(rect, shown)
    }
}

/// Draws a backlog and a list side by side.
fn draw_split<G: Keyed, I: Keyed>(rect: Rect, lines: &Vec<String>, roster: &ListView<G, I>) -> (out:
    String)
    requires
        on_screen(rect),
        roster.wf(),
    ensures
        out@ == split_frame(rect, texts(lines@), roster@.listed(true), roster@.listed(false)),
{
    let labels = roster.listed(false);
    let list = roster.listed(true);
    let mut wishes: Vec<Wish> = Vec::new();
    wishes.push(
        Wish {
            width: Dimension::MatchParent,
            height: Dimension::MatchParent,
            content_w: 0,
            content_h: 0,
        },
    );
    wishes.push(
        Wish {
            width: Dimension::WrapContent,
            height: Dimension::MatchParent,
            content_w: widest(&labels),
            content_h: 0,
        },
    );
    proof {
        assert(wishes@ =~= halves(
            width_of(roster@.listed(false), roster@.listed(false).len() as int) as u16,
        ));
    }
    let rects = arrange(Orientation::Horizontal, &wishes, rect);
    let left = rects[0];
    let right = rects[1];
    proof {
        assert(left == rect_at(place_of(Orientation::Horizontal, wishes@, rect, 0)));
        assert(right == rect_at(place_of(Orientation::Horizontal, wishes@, rect, 1)));
    }
    let mut out = paint(left, lines, true);
    out.append(paint(right, &list, false).as_str());
    out
}

impl View for Window {
    type V = WindowModel;

    open spec fn view(&self) -> WindowModel {
        match self {
            Window::Console { log, roster } => WindowModel::Console { log: log@, roster: roster@ },
            Window::Chat { jid, log } => WindowModel::Chat { jid: jid@, log: log@ },
            Window::Group { jid, log, roster } => WindowModel::Group {
                jid: jid@,
                log: log@,
                roster: roster@,
            },
        }
    }
}

fn named(name: &str) -> (group: Group)
    ensures
        group.0@ == name@,
{
    Group(name.to_owned())
}

fn scroll(log: &mut BufferedWin, event: &Event, rows: u16)
    ensures
        final(log)@ == scrolled(old(log)@, *event, rows as int),
{
    match event {
        Event::Key(Key::PageUp) => log.page_up(rows),
        Event::Key(Key::PageDown) => log.page_down(rows),
        _ => {},
    }
}

fn enroll(roster: &mut ListView<Group, RosterItem>, contact: &Contact)
    requires
        old(roster).wf(),
    ensures
        final(roster).wf(),
        final(roster)@ == with_contact(old(roster)@, contact@),
{
    if contact.groups.len() > 0 {
        let mut i: usize = 0;
        while i < contact.groups.len()
            invariant
                i <= contact.groups.len(),
                roster.wf(),
                roster@ == enrolled(old(roster)@, contact@, i as int),
            decreases contact.groups.len() - i,
        {
            let group = contact.groups[i].clone();
            proof {
                assert(contact@.groups[i as int] == group.0@);
            }
            roster.insert(RosterItem::Contact(contact.clone()), Some(group));
            i = i + 1;
        }
    } else {
        roster.insert(RosterItem::Contact(contact.clone()), Some(named("Contacts")));
    }
}

impl Window {
    /// The lists of the window are in order.
    pub open spec fn wf(&self) -> bool {
        match self {
            Window::Console { roster, .. } => roster.wf(),
            Window::Chat { .. } => true,
            Window::Group { roster, .. } => roster.wf(),
        }
    }

    /// The console, empty: its roster takes entries without a group and
    /// orders the entries of a group.
    pub fn console() -> (window: Window)
        ensures
            window.wf(),
            window@ == WindowModel::console(),
    {
        Window::Console {
            log: BufferedWin::new(),
            roster: ListView::new().with_none_group().with_sort_item(),
        }
    }

    /// The window of a chat with a contact, empty.
    pub fn chat(jid: BareJid) -> (window: Window)
        ensures
            window.wf(),
            window@ == WindowModel::chat(jid@),
    {
        Window::Chat { jid, log: BufferedWin::new() }
    }

    /// The window of a room, empty: its list of occupants takes entries
    /// without a group, holds an occupant under one role only, and orders
    /// the occupants of a role.
    pub fn group(jid: BareJid) -> (window: Window)
        ensures
            window.wf(),
            window@ == WindowModel::group(jid@),
    {
        Window::Group {
            jid,
            log: BufferedWin::new(),
            roster: ListView::new().with_none_group().with_unique_item().with_sort_item(),
        }
    }

    /// Takes an event, in a view of `rows` rows, and tells whether the
    /// bell is to ring.
    pub fn event(&mut self, event: &Event, rows: u16) -> (bell: bool)
        requires
            old(self).wf(),
        ensures
            final(self).wf(),
            final(self)@ == old(self)@.after(*event, rows as int),
            bell == old(self)@.rings(*event),
    {
        match self {
            Window::Console { log, roster } => {
                match event {
                    Event::Message(_, Message::Log(note)) => {
                        log.recv_message(&Message::Log(note.clone()));
                    },
                    _ => scroll(log, event, rows),
                }
                match event {
                    Event::Connected(_, _) => {
                        roster.add_group(named("Windows"));
                        roster.add_group(named("Contacts"));
                        roster.add_group(named("Bookmarks"));
                    },
                    Event::Contact(_, contact) => enroll(roster, contact),
                    Event::ContactUpdate(_, contact) => enroll(roster, contact),
                    Event::Bookmark(bookmark) => {
                        roster.insert(
                            RosterItem::Bookmark(bookmark.clone()),
                            Some(named("Bookmarks")),
                        );
                    },
                    Event::DeletedBookmark(room) => {
                        let gone = RosterItem::Bookmark(
                            Bookmark {
                                jid: room.clone(),
                                name: None,
                                nick: None,
                                password: None,
                                autojoin: false,
                            },
                        );
                        let _ = roster.remove(&gone, Some(named("Bookmarks")));
                    },
                    _ => {},
                }
                false
            },
            Window::Chat { jid, log } => {
                match event {
                    Event::Message(_, Message::Incoming(XmppMessage::Chat(message))) => {
                        if message.from.same(jid) {
                            log.recv_message(&Message::Incoming(XmppMessage::Chat(message.clone())));
                            true
                        } else {
                            false
                        }
                    },
                    Event::Message(_, Message::Outgoing(XmppMessage::Chat(message))) => {
                        if message.to.same(jid) {
                            log.recv_message(&Message::Outgoing(XmppMessage::Chat(message.clone())));
                        }
                        false
                    },
                    _ => {
                        scroll(log, event, rows);
                        false
                    },
                }
            },
            Window::Group { jid, log, roster } => {
                match event {
                    Event::Occupant { conversation, occupant, .. } => {
                        if jid.same(conversation) {
                            roster.insert(occupant.clone(), Some(occupant.role));
                        }
                    },
                    _ => {},
                }
                match event {
                    Event::Message(_, Message::Incoming(XmppMessage::Groupchat(message))) => {
                        if message.from.same(jid) {
                            log.recv_message(
                                &Message::Incoming(XmppMessage::Groupchat(message.clone())),
                            );
                            true
                        } else {
                            false
                        }
                    },
                    Event::Message(_, Message::Outgoing(XmppMessage::Groupchat(message))) => {
                        if message.to.same(jid) {
                            log.recv_message(
                                &Message::Outgoing(XmppMessage::Groupchat(message.clone())),
                            );
                        }
                        false
                    },
                    _ => {
                        scroll(log, event, rows);
                        false
                    },
                }
            },
        }
    }

    /// Draws the window into a rectangle, with `shown` for the entries of
    /// the backlog; the result is what goes to the terminal.
    pub fn draw_with(&self, rect: Rect, shown: &Vec<String>) -> (out: String)
        requires
            self.wf(),
            on_screen(rect),
        ensures
            out@ == self@.frame(rect, texts(shown@)),
    {
        let mut lines = split(shown);
        let back = match self {
            Window::Console { log, .. } => log.view,
            Window::Chat { log, .. } => log.view,
            Window::Group { log, .. } => log.view,
        };
        let ghost all = texts(lines@);
        let keep: usize = if back <= lines.len() {
            lines.len() - back
        } else {
            0
        };
        lines.truncate(keep);
        proof {
            assert(texts(lines@) =~= in_sight(all, back as int));
        }
        match self {
            Window::Console { roster, .. } => draw_split(rect, &lines, roster),
            Window::Chat { .. } => paint(rect, &lines, true),
            Window::Group { roster, .. } => draw_split(rect, &lines, roster),
        }
    }

    /// Draws the window into a rectangle, each entry of the backlog with
    /// its time of day on the clock of this machine; the result is what
    /// goes to the terminal.
    pub fn draw(&self, rect: Rect) -> (out: String)
        requires
            self.wf(),
            on_screen(rect),
        ensures
            self@.draws(rect, out@),
    {
        let shown = match self {
            Window::Console { log, .. } => log.render(),
            Window::Chat { log, .. } => log.render(),
            Window::Group { log, .. } => log.render(),
        };
        let out = self.draw_with(rect, &shown);
        proof {
            assert(out@ == self@.frame(rect, texts(shown@)));
        }
        out
    }

    /// Takes note that a window of this name has been opened.
    pub fn add_window(&mut self, name: &str)
        requires
            old(self).wf(),
        ensures
            final(self).wf(),
            final(self)@ == old(self)@.with_window(name@),
    {
        match self {
            Window::Console { roster, .. } => {
                roster.insert(RosterItem::Window(name.to_owned()), Some(named("Windows")));
            },
            _ => {},
        }
    }
}

} // verus!
