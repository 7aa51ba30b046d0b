//! The terminal interface: a title bar, the windows, the window bar and
//! the input line, one above the other; which window is in front, and
//! which windows wait with messages nobody has looked at.

use crate::command::{parsed, Command, CommandView, ParseError};
use crate::conversation::{Conversation, ConversationKind, ConversationView};
use crate::event::{Event, Key};
use crate::frame::{child_index, child_index_finds, FrameLayout, FrameModel};
use crate::input::{Input, InputModel};
use crate::fresh::{is_id, new_id, now};
use crate::jid::{BareJid, BareJidView, Jid};
use crate::message::{Message, XmppMessage};
use crate::layout::{
    apart, arrange, children_fit, disjoint, inside, lies_in, place_of, Orientation, Rect, Wish,
};
use crate::session::Aparte;
use crate::stream::EventStream;
use crate::term::clear_all;
use crate::text::{holds, push_keeps, text_of, texts, without, without_holds, without_keeps};
use crate::titlebar::{TitleBar, TitleModel};
use crate::unread::{held, set_insert_if_absent, set_names, set_new, set_pop_front, set_remove};
use crate::view::{Dimension, Placed};
use crate::winbar::{BarModel, WinBar};
use crate::window::{Window, WindowModel};
use linked_hash_set::LinkedHashSet;
use vstd::prelude::*;
use vstd::string::*;

verus! {

/// The plugin that shows the session on the terminal.
pub struct UIPlugin {
    /// The size of the terminal: its columns and rows.
    pub size: (u16, u16),
    pub windows: Vec<String>,
    pub current_window: Option<String>,
    pub unread_windows: LinkedHashSet<String>,
    pub conversations: Vec<Conversation>,
    pub title_bar: crate::view::View<TitleBar>,
    pub frame: crate::view::View<FrameLayout>,
    pub win_bar: crate::view::View<WinBar>,
    pub input: crate::view::View<Input>,
    /// The command that waits for a password as its last argument.
    pub password_command: Option<Command>,
    /// What has to go to the terminal still.
    pub out: String,
}

/// What the interface holds.
pub struct UiModel {
    pub size: (u16, u16),
    /// The names of the windows, in the order in which they were opened.
    pub windows: Seq<Seq<char>>,
    /// The name of the window in front.
    pub current_window: Option<Seq<char>>,
    /// The names of the windows that wait, the one that waits longest
    /// first.
    pub unread: Seq<Seq<char>>,
    pub conversations: Seq<ConversationView>,
    pub password_command: Option<CommandView>,
    pub title_bar: Placed<TitleModel>,
    pub frame: Placed<FrameModel>,
    pub win_bar: Placed<BarModel>,
    pub input: Placed<InputModel>,
    pub out: Seq<char>,
}

/// What a view asks for; its content needs nothing.
pub open spec fn wish_of<M>(view: Placed<M>) -> Wish {
    Wish { width: view.width, height: view.height, content_w: 0, content_h: 0 }
}

/// The index of the first of `all` with the name `name`, or their number
/// where none has it. The name of a conversation is the address it is
/// with, as it is written.
pub open spec fn conversation_index(all: Seq<ConversationView>, name: Seq<char>) -> int
    decreases all.len(),
{
    if all.len() == 0 {
        0
    } else if all[0].jid.text() == name {
        0
    } else {
        1 + conversation_index(all.drop_first(), name)
    }
}

/// The index of the first of `names` that is `name`, or their number
/// where none is.
pub open spec fn name_index(names: Seq<Seq<char>>, name: Seq<char>) -> int
    decreases names.len(),
{
    if names.len() == 0 {
        0
    } else if names[0] == name {
        0
    } else {
        1 + name_index(names.drop_first(), name)
    }
}

/// The largest number of columns or rows that the interface works with:
/// places on the screen are counted from one, in sixteen bits.
pub open spec fn fitted(n: u16) -> u16 {
    if n == u16::MAX {
        (u16::MAX - 1) as u16
    } else {
        n
    }
}

impl UiModel {
    /// The interface as it is made for a terminal of this size: no window
    /// yet, and no view measured.
    pub open spec fn made(width: u16, height: u16) -> UiModel {
        UiModel {
            size: (fitted(width), fitted(height)),
            windows: Seq::empty(),
            current_window: None,
            unread: Seq::empty(),
            conversations: Seq::empty(),
            password_command: None,
            title_bar: Placed::made(
                Dimension::MatchParent,
                Dimension::Absolute(1),
                TitleModel { window_name: None },
            ),
            frame: Placed::made(
                Dimension::MatchParent,
                Dimension::MatchParent,
                FrameModel { children: Seq::empty(), current: None },
            ),
            win_bar: Placed::made(
                Dimension::MatchParent,
                Dimension::Absolute(1),
                BarModel {
                    connection: None,
                    windows: Seq::empty(),
                    current_window: None,
                    highlighted: Seq::empty(),
                },
            ),
            input: Placed::made(
                Dimension::MatchParent,
                Dimension::Absolute(1),
                InputModel {
                    buf: Seq::empty(),
                    cursor: 0,
                    history: Seq::empty(),
                    history_index: 0,
                    password: false,
                },
            ),
            out: Seq::empty(),
        }
    }

    /// The views can be drawn, the editor is in order, a masked line has a
    /// command to go to, no window waits twice, and the terminal is not
    /// too large.
    pub open spec fn wf(self) -> bool {
        &&& self.unread.no_duplicates()
        &&& self.title_bar.placed()
        &&& self.frame.on_screen()
        &&& self.win_bar.placed()
        &&& self.input.placed()
        &&& self.input.content.wf()
        &&& self.input.content.password ==> self.password_command is Some
        &&& self.size.0 < u16::MAX
        &&& self.size.1 < u16::MAX
    }

    /// The interface can be started: it is as it was made, with no window
    /// and no conversation yet, and in order but for the views, which have
    /// no place yet.
    pub open spec fn ready(self) -> bool {
        &&& self.windows.len() == 0
        &&& self.conversations.len() == 0
        &&& self.unread.len() == 0
        &&& self.current_window is None
        &&& self.frame.content.children.len() == 0
        &&& self.input.content.wf()
        &&& !self.input.content.password
        &&& self.size.0 < u16::MAX
        &&& self.size.1 < u16::MAX
    }

    /// The windows are listed as they are held: no name occurs twice,
    /// the frame holds a window for every name, in the same order, every
    /// conversation has its window, no two conversations have one name,
    /// and the window in front and the windows that wait are among the
    /// windows.
    pub open spec fn listed(self) -> bool {
        &&& self.windows.no_duplicates()
        &&& self.frame.content.children.len() == self.windows.len()
        &&& forall|i: int|
            0 <= i < self.windows.len() ==> (#[trigger] self.frame.content.children[i]).0
                == self.windows[i]
        &&& forall|i: int|
            0 <= i < self.conversations.len() ==> self.windows.contains(
                (#[trigger] self.conversations[i]).jid.text(),
            )
        &&& forall|i: int, j: int|
            0 <= i < j < self.conversations.len() ==> (#[trigger] self.conversations[i]).jid.text()
                != (#[trigger] self.conversations[j]).jid.text()
        &&& forall|i: int|
            0 <= i < self.unread.len() ==> self.windows.contains(#[trigger] self.unread[i])
        &&& self.current_window matches Some(current) ==> self.windows.contains(current)
    }

    /// The windows are listed as they are held, and the console is the
    /// first of them.
    pub open spec fn named(self) -> bool {
        &&& self.listed()
        &&& self.windows.len() > 0
        &&& self.windows[0] == "console"@
    }

    /// The screen: every cell of the terminal, counted from one.
    pub open spec fn bounds(self) -> Rect {
        Rect { x: 1, y: 1, w: self.size.0, h: self.size.1 }
    }

    /// What the four views ask for, from the top down.
    pub open spec fn wishes(self) -> Seq<Wish> {
        seq![
            wish_of(self.title_bar),
            wish_of(self.frame),
            wish_of(self.win_bar),
            wish_of(self.input),
        ]
    }

    /// The rectangle of view `i`, from the top down.
    pub open spec fn place(self, i: int) -> (int, int, int, int) {
        place_of(Orientation::Vertical, self.wishes(), self.bounds(), i)
    }

    /// The interface with its views measured and laid out on the screen,
    /// one above the other.
    pub open spec fn laid_out(self) -> UiModel {
        UiModel {
            title_bar: self.title_bar.at(
                self.place(0).0 as u16,
                self.place(0).1 as u16,
                self.place(0).2 as u16,
                self.place(0).3 as u16,
            ),
            frame: self.frame.at(
                self.place(1).0 as u16,
                self.place(1).1 as u16,
                self.place(1).2 as u16,
                self.place(1).3 as u16,
            ),
            win_bar: self.win_bar.at(
                self.place(2).0 as u16,
                self.place(2).1 as u16,
                self.place(2).2 as u16,
                self.place(2).3 as u16,
            ),
            input: self.input.at(
                self.place(3).0 as u16,
                self.place(3).1 as u16,
                self.place(3).2 as u16,
                self.place(3).3 as u16,
            ),
            ..self
        }
    }

    /// The interface with its two bars drawn.
    pub open spec fn redrawn(self) -> UiModel {
        UiModel {
            title_bar: self.title_bar.drawn(self.title_bar.content),
            win_bar: self.win_bar.drawn(self.win_bar.content),
            out: self.out + self.title_bar.frame() + self.win_bar.frame(),
            ..self
        }
    }

    /// The interface laid out anew and drawn, as after the terminal has
    /// changed its size.
    pub open spec fn resized(self) -> UiModel {
        self.laid_out().redrawn()
    }

    /// The interface with one more window: the frame has it, its windows
    /// have taken note of it, and the window bar knows it.
    pub open spec fn opened(self, name: Seq<char>, window: WindowModel) -> UiModel {
        UiModel {
            windows: self.windows.push(name),
            frame: self.frame.changed(self.frame.content.insert(name, window).with_window(name)),
            win_bar: self.win_bar.extended(name),
            out: self.out + self.win_bar.extended(name).frame(),
            ..self
        }
    }

    /// The interface with the window `name` in front: the bars follow, and
    /// the window waits no longer.
    pub open spec fn fronted(self, name: Seq<char>) -> UiModel {
        UiModel {
            current_window: Some(name),
            unread: without(self.unread, name),
            title_bar: self.title_bar.named(name),
            frame: self.frame.changed(self.frame.content.current(name)),
            win_bar: self.win_bar.switched(name),
            out: self.out + self.title_bar.named(name).frame() + self.win_bar.switched(
                name,
            ).frame(),
            ..self
        }
    }

    /// The interface as it starts: the screen is cleared, the views are
    /// laid out and drawn, and the console is opened and in front.
    pub open spec fn init(self) -> UiModel {
        (UiModel { out: self.out + "\x1b[2J"@, ..self }).resized().opened(
            "console"@,
            WindowModel::console(),
        ).fronted("console"@)
    }

    /// Whether there is a conversation of this name.
    pub open spec fn has_conversation(self, name: Seq<char>) -> bool {
        conversation_index(self.conversations, name) < self.conversations.len()
    }

    /// The conversation of this name.
    pub open spec fn conversation(self, name: Seq<char>) -> ConversationView
        recommends
            self.has_conversation(name),
    {
        self.conversations[conversation_index(self.conversations, name)]
    }

    /// The interface with one more conversation, and a window for it: the
    /// backlog of a chat, or the backlog and the occupants of a room. Where
    /// a window of its name is there already, nothing changes: no two
    /// windows have one name.
    pub open spec fn with_conversation(self, conversation: ConversationView) -> UiModel {
        if self.windows.contains(conversation.jid.text()) {
            self
        } else {
            let opened = self.opened(
                conversation.jid.text(),
                match conversation.kind {
                    ConversationKind::Chat => WindowModel::chat(conversation.jid),
                    ConversationKind::Group => WindowModel::group(conversation.jid),
                },
            );
            UiModel { conversations: self.conversations.push(conversation), ..opened }
        }
    }

    /// The interface with a conversation with `jid`, which is added if it
    /// is not there yet.
    pub open spec fn ensured(
        self,
        account: BareJidView,
        jid: BareJidView,
        kind: ConversationKind,
    ) -> UiModel {
        if self.has_conversation(jid.text()) {
            self
        } else {
            self.with_conversation(ConversationView { account, jid, kind })
        }
    }

    /// The interface after someone else said something in the window
    /// `name`: the window comes to wait behind those that wait already,
    /// unless it is in front or not there at all. A window that waits
    /// already keeps its place.
    pub open spec fn noted(self, name: Seq<char>) -> UiModel {
        if self.windows.contains(name) && self.current_window != Some(name)
            && !self.unread.contains(name) {
            UiModel { unread: self.unread.push(name), ..self }
        } else {
            self
        }
    }

    /// The interface after its views took an event.
    pub open spec fn took(self, event: Event) -> UiModel {
        UiModel {
            title_bar: self.title_bar.after(event),
            frame: self.frame.changed(
                (match event {
                    Event::ChangeWindow(name) => self.frame.content.current(name@),
                    _ => self.frame.content,
                }).after(event, self.frame.rows()),
            ),
            win_bar: self.win_bar.after(event),
            input: self.input.changed(self.input.content.after(event)),
            out: self.out + self.title_bar.says(event) + self.frame.content.says(event)
                + self.win_bar.says(event),
            ..self
        }
    }

    /// Whether `window` is what drawing the frame sends to the terminal,
    /// at whatever times of day: the window in front, where the frame has
    /// to be drawn again.
    pub open spec fn draws_window(self, window: Seq<char>) -> bool {
        if self.frame.dirty {
            self.frame.content.draws(self.frame.rect(), window)
        } else {
            window == Seq::<char>::empty()
        }
    }

    /// What drawing the input line sends to the terminal, where it has to
    /// be drawn again.
    pub open spec fn input_part(self) -> Seq<char> {
        if self.input.dirty {
            self.input.frame()
        } else {
            Seq::empty()
        }
    }

    /// Whether `out` is what drawing the interface sends to the terminal,
    /// at whatever times of day: the frame, then what waited to go to the
    /// terminal, then the input line.
    pub open spec fn draws(self, out: Seq<char>) -> bool {
        exists|window: Seq<char>| #[trigger]
            self.draws_window(window) && out == window + self.out + self.input_part()
    }

    /// The interface with everything drawn, and nothing left that waits
    /// to go to the terminal.
    pub open spec fn drawn(self) -> UiModel {
        UiModel {
            frame: self.frame.drawn(self.frame.content),
            input: self.input.drawn(self.input.content),
            out: Seq::empty(),
            ..self
        }
    }

    /// The interface with the window after the one in front brought to the
    /// front, or the first window where none is in front.
    pub open spec fn next_window(self) -> UiModel {
        match self.current_window {
            Some(current) => {
                let index = name_index(self.windows, current);
                if index + 1 < self.windows.len() {
                    self.fronted(self.windows[index + 1])
                } else {
                    self
                }
            },
            None => if self.windows.len() > 0 {
                self.fronted(self.windows[0])
            } else {
                self
            },
        }
    }

    /// The interface with the window before the one in front brought to
    /// the front, or the first window where none is in front.
    pub open spec fn prev_window(self) -> UiModel {
        match self.current_window {
            Some(current) => {
                let index = name_index(self.windows, current);
                if 0 < index < self.windows.len() {
                    self.fronted(self.windows[index - 1])
                } else {
                    self
                }
            },
            None => if self.windows.len() > 0 {
                self.fronted(self.windows[0])
            } else {
                self
            },
        }
    }
}

impl UiModel {
    /// The interface after a message arrived, before its views take it: a
    /// conversation is there for it, and where someone else spoke, its
    /// window waits.
    pub open spec fn after_message(self, account: Option<BareJid>, message: Message) -> UiModel {
        match message {
            Message::Incoming(XmppMessage::Chat(m)) => self.ensured(
                account.unwrap()@,
                m.from@,
                ConversationKind::Chat,
            ).noted(m.from@.text()),
            Message::Outgoing(XmppMessage::Chat(m)) => self.ensured(
                account.unwrap()@,
                m.to@,
                ConversationKind::Chat,
            ),
            Message::Incoming(XmppMessage::Groupchat(m)) => self.ensured(
                account.unwrap()@,
                m.from@,
                ConversationKind::Group,
            ).noted(m.from@.text()),
            Message::Outgoing(XmppMessage::Groupchat(m)) => self.ensured(
                account.unwrap()@,
                m.to@,
                ConversationKind::Group,
            ),
            Message::Log(_) => self,
        }
    }

    /// The interface after the line was handed over: the editor starts an
    /// empty line, and a command that waited for a password waits no
    /// longer.
    pub open spec fn entered(self) -> UiModel {
        UiModel {
            input: self.input.changed(self.input.content.validate()),
            password_command: if self.input.content.password {
                None
            } else {
                self.password_command
            },
            ..self
        }
    }

    /// The interface with the window in front that has waited longest, if
    /// one waits.
    pub open spec fn woken(self) -> UiModel {
        if self.unread.len() > 0 {
            (UiModel { unread: self.unread.drop_first(), ..self }).fronted(self.unread[0])
        } else {
            self
        }
    }

    /// The interface after an event.
    ///
    /// A message gets its conversation and its window, and makes the
    /// window wait while it is not in front. A chat that the user asks
    /// for, a room that was joined at the user's request and a window
    /// that the user names come to the front. Tab and Enter do not reach
    /// the editor: Enter hands the line over. Alt-a brings the window to
    /// the front that has waited longest. Everything else goes to the
    /// views.
    pub open spec fn on_event(self, event: Event) -> UiModel {
        match event {
            Event::ReadPassword(command) => (UiModel {
                password_command: Some(command@),
                ..self
            }).took(event),
            Event::Message(account, message) => self.after_message(account, message).took(event),
            Event::Chat { account, contact } => self.ensured(
                account@,
                contact@,
                ConversationKind::Chat,
            ).fronted(contact@.text()),
            Event::Joined { account, channel, user_request } => {
                let joined = self.ensured(account@, channel@.bare(), ConversationKind::Group);
                if user_request {
                    joined.fronted(channel@.bare().text())
                } else {
                    joined
                }
            },
            Event::Win(window) => if self.windows.contains(window@) {
                self.fronted(window@)
            } else {
                self
            },
            Event::WindowChange => self.resized(),
            Event::Key(Key::Char(c)) => if c == '\t' {
                self
            } else if c == '\n' {
                self.entered()
            } else {
                self.took(event)
            },
            Event::Key(Key::Alt(c)) => if c == 'a' {
                self.woken()
            } else {
                self.took(event)
            },
            _ => self.took(event),
        }
    }

    /// The account and the address of the conversation in front, if the
    /// window in front is one of a conversation.
    pub open spec fn talking(self) -> Option<ConversationView> {
        match self.current_window {
            Some(current) => if self.has_conversation(current) {
                Some(self.conversation(current))
            } else {
                None
            },
            None => None,
        }
    }

    /// Whether `more` is what the interface schedules at an event, with
    /// `account` logged in.
    ///
    /// A window that the user names and that is not there gives a note.
    /// Tab asks for a completion of the line, or goes round again while
    /// the line is masked. Enter gives the command that waited for the
    /// password, with the line as its last argument; or the command that
    /// the line stands for, or the reason why it stands for none; or the
    /// line as a message to the conversation in front, if there is one
    /// and an account is logged in. Every other key ends a completion.
    pub open spec fn schedules(self, account: Option<BareJid>, event: Event, more: Seq<Event>) -> bool {
        match event {
            Event::Win(window) => if self.windows.contains(window@) {
                more.len() == 0
            } else {
                &&& more.len() == 1
                &&& more[0] matches Event::Message(None, Message::Log(note))
                &&& note.body@ == "Unknown window "@ + window@
            },
            Event::Key(Key::Char(c)) => if c == '\t' {
                &&& more.len() == 1
                &&& if self.input.content.password {
                    more[0] == Event::Key(Key::Char('\t'))
                } else {
                    &&& more[0] matches Event::AutoComplete { account, conversation, raw_buf, cursor }
                    &&& raw_buf@ == self.input.content.buf
                    &&& cursor.index == self.input.content.cursor
                    &&& match self.talking() {
                        Some(talk) => {
                            &&& account matches Some(a)
                            &&& a@ == talk.account
                            &&& conversation matches Some(c)
                            &&& c@ == talk.jid
                        },
                        None => account is None && conversation is None,
                    }
                }
            } else if c == '\n' {
                self.enters(account, more)
            } else {
                more == seq![Event::ResetCompletion]
            },
            Event::Key(Key::Alt(c)) => if c == 'a' {
                more.len() == 0
            } else {
                more == seq![Event::ResetCompletion]
            },
            Event::Key(_) => more == seq![Event::ResetCompletion],
            _ => more.len() == 0,
        }
    }

    /// Whether `more` is what the interface schedules when the line is
    /// handed over.
    pub open spec fn enters(self, account: Option<BareJid>, more: Seq<Event>) -> bool {
        let line = self.input.content.buf;
        if self.input.content.password {
            &&& more.len() == 1
            &&& more[0] matches Event::Command(command)
            &&& command@ == (CommandView {
                name: self.password_command.unwrap().name,
                args: self.password_command.unwrap().args.push(line),
            })
        } else if line.len() > 0 && line[0] == '/' {
            &&& more.len() == 1
            &&& match parsed(line) {
                Ok(read) => more[0] matches Event::Command(command) && command@ == read,
                Err(e) => more[0] matches Event::CommandError(reason) && reason@ == e.text(),
            }
        } else if line.len() > 0 && self.talking() is Some && account is Some {
            &&& more.len() == 1
            &&& more[0] matches Event::SendMessage(from, message)
            &&& from == account.unwrap()
            &&& sent(message, self.talking().unwrap(), account.unwrap()@, line)
        } else {
            more.len() == 0
        }
    }
}

/// Whether `message` is the line `body` as `from` sends it to a
/// conversation: a chat message or a message to a room, with an
/// identifier of its own.
pub open spec fn sent(
    message: Message,
    to: ConversationView,
    from: BareJidView,
    body: Seq<char>,
) -> bool {
    match to.kind {
        ConversationKind::Chat => {
            &&& message matches Message::Outgoing(XmppMessage::Chat(chat))
            &&& is_id(chat.id@)
            &&& chat.from@ == from
            &&& chat.to@ == to.jid
            &&& chat.body@ == body
        },
        ConversationKind::Group => {
            &&& message matches Message::Outgoing(XmppMessage::Groupchat(chat))
            &&& is_id(chat.id@)
            &&& chat.from@ == from
            &&& chat.from_full@ == crate::jid::JidView::Bare(from)
            &&& chat.to@ == to.jid
            &&& chat.body@ == body
        },
    }
}

/// A list of different names without its first is a list of different
/// names that does not hold the first.
pub proof fn rest_keeps(names: Seq<Seq<char>>)
    requires
        names.no_duplicates(),
    ensures
        names.len() > 0 ==> names.drop_first().no_duplicates() && !names.drop_first().contains(
            names[0],
        ),
{
    if names.len() > 0 {
        let rest = names.drop_first();
        assert forall|i: int, j: int| 0 <= i < rest.len() && 0 <= j < rest.len() && i
            != j implies rest[i] != rest[j] by {
            assert(rest[i] == names[i + 1] && rest[j] == names[j + 1]);
        }
        if rest.contains(names[0]) {
            let i = choose|i: int| 0 <= i < rest.len() && rest[i] == names[0];
            assert(names[i + 1] == names[0]);
        }
    }
}

/// How the windows come to wait and cease to wait.
///
/// When someone else says something in a window that is there and not in
/// front, the window comes to wait behind all others if it did not wait,
/// and the order of those that wait stays as it is if it did; a message
/// for the window in front changes nothing. No window waits twice.
/// Bringing a window to the front ends its waiting and nobody else's.
/// Alt-a brings the window to the front that has waited longest, and
/// leaves the others waiting in their order.
pub proof fn waiting_windows(ui: UiModel, window: Seq<char>, other: Seq<char>)
    requires
        ui.wf(),
    ensures
        ui.windows.contains(window) && ui.current_window != Some(window) && !ui.unread.contains(
            window,
        ) ==> ui.noted(window).unread == ui.unread.push(window),
        ui.unread.contains(window) ==> ui.noted(window).unread == ui.unread,
        ui.current_window == Some(window) ==> ui.noted(window).unread == ui.unread,
        ui.noted(window).current_window == ui.current_window,
        ui.noted(window).unread.no_duplicates(),
        !ui.fronted(window).unread.contains(window),
        other != window ==> (ui.fronted(window).unread.contains(other) <==> ui.unread.contains(
            other,
        )),
        ui.unread.len() > 0 ==> ui.woken().current_window == Some(ui.unread[0])
            && ui.woken().unread == ui.unread.drop_first(),
{
    without_keeps(ui.unread, window);
    without_holds(ui.unread, window, other);
    without_holds(ui.unread, window, window);
    if !ui.unread.contains(window) {
        push_keeps(ui.unread, window);
    }
    if ui.unread.len() > 0 {
        rest_keeps(ui.unread);
        without_keeps(ui.unread.drop_first(), ui.unread[0]);
    }
}

/// Where the views of the interface are laid out: each of the four lies
/// on the screen, and no two of them share a cell.
pub proof fn views_fit(ui: UiModel, i: int, j: int)
    requires
        0 <= i < j < 4,
    ensures
        lies_in(ui.place(i), ui.bounds()),
        lies_in(ui.place(j), ui.bounds()),
        apart(ui.place(i), ui.place(j)),
{
    children_fit(Orientation::Vertical, ui.wishes(), ui.bounds(), i, j);
}

/// Whether the four views of the interface lie on its screen, no two of
/// them share a cell, and from the top down they take no more rows than
/// the screen has.
pub open spec fn on_its_screen(ui: UiModel) -> bool {
    let title = ui.title_bar.rect();
    let frame = ui.frame.rect();
    let bar = ui.win_bar.rect();
    let input = ui.input.rect();
    &&& inside(title, ui.bounds())
    &&& inside(frame, ui.bounds())
    &&& inside(bar, ui.bounds())
    &&& inside(input, ui.bounds())
    &&& disjoint(title, frame)
    &&& disjoint(title, bar)
    &&& disjoint(title, input)
    &&& disjoint(frame, bar)
    &&& disjoint(frame, input)
    &&& disjoint(bar, input)
    &&& title.h + frame.h + bar.h + input.h <= ui.size.1
}

/// Once the views are measured and laid out, they lie on the screen and
/// share no cell, whatever the size of the terminal; and so they do when
/// the interface has started.
pub proof fn laid_out_on_screen(ui: UiModel)
    requires
        ui.size.0 < u16::MAX,
        ui.size.1 < u16::MAX,
    ensures
        on_its_screen(ui.laid_out()),
        on_its_screen(ui.resized()),
        ui.ready() ==> on_its_screen(ui.init()),
{
    views_fit(ui, 0, 1);
    views_fit(ui, 0, 2);
    views_fit(ui, 0, 3);
    views_fit(ui, 1, 2);
    views_fit(ui, 1, 3);
    views_fit(ui, 2, 3);
    let asks = crate::layout::asks_along(Orientation::Vertical, ui.wishes());
    let room = ui.size.1 as int;
    crate::layout::taken_fits(asks, room, 4);
    reveal_with_fuel(crate::layout::taken, 5);
    let cleared = UiModel { out: ui.out + "\x1b[2J"@, ..ui };
    assert(cleared.wishes() == ui.wishes());
    assert(cleared.bounds() == ui.bounds());
}

/// Whatever size the terminal has, the interface that is made for it
/// can be started, and its views lie on the screen and share no cell once
/// it has started.
pub proof fn any_terminal(width: u16, height: u16)
    ensures
        UiModel::made(width, height).ready(),
        on_its_screen(UiModel::made(width, height).init()),
        UiModel::made(width, height).init().named(),
{
    let ui = UiModel::made(width, height);
    laid_out_on_screen(ui);
    init_names(ui);
}

/// A message from someone else makes its window wait, unless the window
/// is in front or waits already: then the windows that wait stay as they
/// are, in their order. The window in front stays in front.
pub proof fn message_makes_wait(
    ui: UiModel,
    account: Option<BareJid>,
    message: Message,
    window: Seq<char>,
)
    requires
        ui.listed(),
        Event::Message(account, message).wf(),
        match message {
            Message::Incoming(XmppMessage::Chat(chat)) => window == chat.from@.text(),
            Message::Incoming(XmppMessage::Groupchat(chat)) => window == chat.from@.text(),
            _ => false,
        },
    ensures
        ui.on_event(Event::Message(account, message)).unread == if ui.current_window != Some(
            window,
        ) && !ui.unread.contains(window) {
            ui.unread.push(window)
        } else {
            ui.unread
        },
        ui.on_event(Event::Message(account, message)).current_window == ui.current_window,
        ui.on_event(Event::Message(account, message)).windows.contains(window),
{
    match message {
        Message::Incoming(XmppMessage::Chat(chat)) => {
            ensured_lists(ui, account.unwrap()@, chat.from@, ConversationKind::Chat);
        },
        Message::Incoming(XmppMessage::Groupchat(chat)) => {
            ensured_lists(ui, account.unwrap()@, chat.from@, ConversationKind::Group);
        },
        _ => {},
    }
}

/// A list with one more name holds what it held.
proof fn push_holds(names: Seq<Seq<char>>, name: Seq<char>, other: Seq<char>)
    requires
        names.contains(other) || other == name,
    ensures
        names.push(name).contains(other),
{
    if names.contains(other) {
        let i = choose|i: int| 0 <= i < names.len() && names[i] == other;
        assert(names.push(name)[i] == other);
    } else {
        assert(names.push(name)[names.len() as int] == other);
    }
}

/// Where a name is found among the conversations, a conversation of that
/// name stands.
proof fn conversation_index_finds(all: Seq<ConversationView>, name: Seq<char>)
    ensures
        0 <= conversation_index(all, name) <= all.len(),
        conversation_index(all, name) < all.len() ==> all[conversation_index(
            all,
            name,
        )].jid.text() == name,
    decreases all.len(),
{
    if all.len() > 0 && all[0].jid.text() != name {
        conversation_index_finds(all.drop_first(), name);
    }
}

proof fn opened_lists(ui: UiModel, name: Seq<char>, window: WindowModel)
    requires
        ui.listed(),
        !ui.windows.contains(name),
    ensures
        ui.opened(name, window).listed(),
{
    let post = ui.opened(name, window);
    let children = ui.frame.content.children;
    child_index_finds(children, name);
    push_keeps(ui.windows, name);
    if child_index(children, name) < children.len() {
        assert(ui.windows[child_index(children, name)] == name);
    }
    assert forall|i: int| 0 <= i < post.conversations.len() implies post.windows.contains(
        (#[trigger] post.conversations[i]).jid.text(),
    ) by {
        push_holds(ui.windows, name, ui.conversations[i].jid.text());
    }
    assert forall|i: int| 0 <= i < post.unread.len() implies post.windows.contains(
        #[trigger] post.unread[i],
    ) by {
        push_holds(ui.windows, name, ui.unread[i]);
    }
    if ui.current_window is Some {
        push_holds(ui.windows, name, ui.current_window.unwrap());
    }
}

proof fn fronted_lists(ui: UiModel, name: Seq<char>)
    requires
        ui.listed(),
        ui.windows.contains(name),
    ensures
        ui.fronted(name).listed(),
{
    let post = ui.fronted(name);
    assert forall|i: int| 0 <= i < post.unread.len() implies post.windows.contains(
        #[trigger] post.unread[i],
    ) by {
        assert(post.unread.contains(post.unread[i]));
        without_holds(ui.unread, name, post.unread[i]);
        let j = choose|j: int| 0 <= j < ui.unread.len() && ui.unread[j] == post.unread[i];
        assert(ui.windows.contains(ui.unread[j]));
    }
}

proof fn ensured_lists(
    ui: UiModel,
    account: BareJidView,
    jid: BareJidView,
    kind: ConversationKind,
)
    requires
        ui.listed(),
    ensures
        ui.ensured(account, jid, kind).listed(),
        ui.ensured(account, jid, kind).windows.contains(jid.text()),
        ui.windows.len() > 0 ==> ui.ensured(account, jid, kind).windows.len() > 0 && ui.ensured(
            account,
            jid,
            kind,
        ).windows[0] == ui.windows[0],
{
    let name = jid.text();
    let conversation = ConversationView { account, jid, kind };
    conversation_index_finds(ui.conversations, name);
    if ui.has_conversation(name) {
        let i = conversation_index(ui.conversations, name);
        assert(ui.windows.contains(ui.conversations[i].jid.text()));
    } else if !ui.windows.contains(name) {
        let window = match kind {
            ConversationKind::Chat => WindowModel::chat(jid),
            ConversationKind::Group => WindowModel::group(jid),
        };
        opened_lists(ui, name, window);
        let opened = ui.opened(name, window);
        let post = ui.with_conversation(conversation);
        push_holds(ui.windows, name, name);
        assert forall|i: int| 0 <= i < post.conversations.len() implies post.windows.contains(
            (#[trigger] post.conversations[i]).jid.text(),
        ) by {
            if i < ui.conversations.len() {
                assert(opened.windows.contains(opened.conversations[i].jid.text()));
            }
        }
    }
}

proof fn took_lists(ui: UiModel, event: Event)
    requires
        ui.listed(),
    ensures
        ui.took(event).listed(),
{
}

proof fn woken_lists(ui: UiModel)
    requires
        ui.listed(),
    ensures
        ui.woken().listed(),
{
    if ui.unread.len() > 0 {
        let rest = UiModel { unread: ui.unread.drop_first(), ..ui };
        assert(ui.windows.contains(ui.unread[0]));
        assert forall|i: int| 0 <= i < rest.unread.len() implies rest.windows.contains(
            #[trigger] rest.unread[i],
        ) by {
            assert(ui.windows.contains(ui.unread[i + 1]));
        }
        fronted_lists(rest, ui.unread[0]);
    }
}

proof fn noted_lists(ui: UiModel, name: Seq<char>)
    requires
        ui.listed(),
    ensures
        ui.noted(name).listed(),
{
    let post = ui.noted(name);
    assert forall|i: int| 0 <= i < post.unread.len() implies post.windows.contains(
        #[trigger] post.unread[i],
    ) by {
        if i < ui.unread.len() {
            assert(ui.windows.contains(ui.unread[i]));
        }
    }
}

/// The interface starts with the console as its first and only window,
/// in front.
pub proof fn init_names(ui: UiModel)
    requires
        ui.ready(),
    ensures
        ui.init().named(),
        ui.init().windows == seq!["console"@],
        ui.init().current_window == Some("console"@),
{
    let cleared = UiModel { out: ui.out + "\x1b[2J"@, ..ui };
    let drawn = cleared.resized();
    assert(!drawn.windows.contains("console"@));
    opened_lists(drawn, "console"@, WindowModel::console());
    let opened = drawn.opened("console"@, WindowModel::console());
    assert(opened.windows =~= seq!["console"@]);
    assert(opened.windows[0] == "console"@);
    fronted_lists(opened, "console"@);
}

/// Whatever event the interface takes, its windows stay listed as they
/// are held: the console stays the first of them, no name comes to occur
/// twice, every conversation has its window, and the window in front and
/// the windows that wait are among them.
pub proof fn on_event_names(ui: UiModel, event: Event)
    requires
        ui.named(),
    ensures
        ui.on_event(event).named(),
{
    match event {
        Event::ReadPassword(command) => {
            took_lists(UiModel { password_command: Some(command@), ..ui }, event);
        },
        Event::Message(account, message) => {
            let before = ui.after_message(account, message);
            match message {
                Message::Incoming(XmppMessage::Chat(m)) => {
                    ensured_lists(ui, account.unwrap()@, m.from@, ConversationKind::Chat);
                    noted_lists(
                        ui.ensured(account.unwrap()@, m.from@, ConversationKind::Chat),
                        m.from@.text(),
                    );
                },
                Message::Outgoing(XmppMessage::Chat(m)) => {
                    ensured_lists(ui, account.unwrap()@, m.to@, ConversationKind::Chat);
                },
                Message::Incoming(XmppMessage::Groupchat(m)) => {
                    ensured_lists(ui, account.unwrap()@, m.from@, ConversationKind::Group);
                    noted_lists(
                        ui.ensured(account.unwrap()@, m.from@, ConversationKind::Group),
                        m.from@.text(),
                    );
                },
                Message::Outgoing(XmppMessage::Groupchat(m)) => {
                    ensured_lists(ui, account.unwrap()@, m.to@, ConversationKind::Group);
                },
                Message::Log(_) => {},
            }
            took_lists(before, event);
        },
        Event::Chat { account, contact } => {
            ensured_lists(ui, account@, contact@, ConversationKind::Chat);
            fronted_lists(ui.ensured(account@, contact@, ConversationKind::Chat), contact@.text());
        },
        Event::Joined { account, channel, user_request } => {
            ensured_lists(ui, account@, channel@.bare(), ConversationKind::Group);
            if user_request {
                fronted_lists(
                    ui.ensured(account@, channel@.bare(), ConversationKind::Group),
                    channel@.bare().text(),
                );
            }
        },
        Event::Win(window) => {
            if ui.windows.contains(window@) {
                fronted_lists(ui, window@);
            }
        },
        Event::WindowChange => {},
        Event::Key(Key::Char(c)) => {
            if c != '\t' && c != '\n' {
                took_lists(ui, event);
            }
        },
        Event::Key(Key::Alt(c)) => {
            if c == 'a' {
                woken_lists(ui);
            } else {
                took_lists(ui, event);
            }
        },
        _ => {
            took_lists(ui, event);
        },
    }
}

/// The views of all of `conversations`.
pub open spec fn conversation_views(conversations: Seq<Conversation>) -> Seq<ConversationView> {
    conversations.map_values(|c: Conversation| c@)
}

impl View for UIPlugin {
    type V = UiModel;

    open spec fn view(&self) -> UiModel {
        UiModel {
            size: self.size,
            windows: texts(self.windows@),
            current_window: text_of(self.current_window),
            unread: held(self.unread_windows),
            conversations: conversation_views(self.conversations@),
            password_command: match self.password_command {
                Some(command) => Some(command@),
                None => None,
            },
            title_bar: self.title_bar@,
            frame: self.frame@,
            win_bar: self.win_bar@,
            input: self.input@,
            out: self.out@,
        }
    }
}

fn fit(n: u16) -> (m: u16)
    ensures
        m == fitted(n),
{
    if n == u16::MAX {
        u16::MAX - 1
    } else {
        n
    }
}

fn wish<C>(view: &crate::view::View<C>) -> (wish: Wish)
    ensures
        wish.width == view.width,
        wish.height == view.height,
        wish.content_w == 0,
        wish.content_h == 0,
{
    Wish { width: view.width, height: view.height, content_w: 0, content_h: 0 }
}

impl UIPlugin {
    /// The windows are in order, and so is everything else that the
    /// interface holds.
    pub open spec fn wf(&self) -> bool {
        self.frame.content.wf() && self@.wf()
    }

    /// The interface can be started.
    pub open spec fn ready(&self) -> bool {
        self.frame.content.wf() && self@.ready()
    }

    /// The interface for a terminal of this size. A terminal of 65535
    /// columns or rows counts as one of 65534.
    pub fn new(width: u16, height: u16) -> (ui: UIPlugin)
        ensures
            ui.ready(),
            ui@ == UiModel::made(width, height),
    {
        let ui = UIPlugin {
            size: (fit(width), fit(height)),
            windows: Vec::new(),
            current_window: None,
            unread_windows: set_new(),
            conversations: Vec::new(),
            title_bar: crate::view::View::<TitleBar>::new(),
            frame: crate::view::View::<FrameLayout>::new(),
            win_bar: crate::view::View::<WinBar>::new(),
            input: crate::view::View::<Input>::new(),
            password_command: None,
            out: String::new(),
        };
        proof {
            assert(ui@.windows =~= Seq::empty());
            assert(ui@.conversations =~= Seq::empty());
            assert(ui@.frame.content.children =~= Seq::empty());
        }
        ui
    }

    /// Takes note of the size that the terminal has now. The views are
    /// laid out anew when the event of the change arrives.
    pub fn set_size(&mut self, width: u16, height: u16)
        requires
            old(self).wf(),
        ensures
            final(self).wf(),
            final(self)@ == (UiModel { size: (fitted(width), fitted(height)), ..old(self)@ }),
    {
        self.size = (fit(width), fit(height));
    }

    /// Hands over what has to go to the terminal.
    pub fn take_output(&mut self) -> (out: String)
        requires
            old(self).wf(),
        ensures
            final(self).wf(),
            out@ == old(self)@.out,
            final(self)@ == (UiModel { out: Seq::empty(), ..old(self)@ }),
    {
        let mut out = String::new();
        std::mem::swap(&mut out, &mut self.out);
        out
    }

    /// Draws what has to be drawn again, and hands it over together with
    /// what waits to go to the terminal: the window in front, each entry
    /// of its backlog with its time of day on the clock of this machine;
    /// then what waited; then the input line, which leaves the cursor in
    /// its place. Nothing has to be drawn again afterwards.
    pub fn draw(&mut self) -> (out: String)
        requires
            old(self).wf(),
        ensures
            final(self).wf(),
            final(self)@ == old(self)@.drawn(),
            old(self)@.draws(out@),
    {
        let mut out = if self.frame.dirty {
            let rect = Rect {
                x: self.frame.x,
                y: self.frame.y,
                w: match self.frame.w {
                    Some(w) => w,
                    None => 0,
                },
                h: match self.frame.h {
                    Some(h) => h,
                    None => 0,
                },
            };
            self.frame.content.draw(rect)
        } else {
            String::new()
        };
        self.frame.dirty = false;
        let ghost window = out@;
        out.append(self.out.as_str());
        self.out = String::new();
        if self.input.dirty {
            out.append(self.input.redraw().as_str());
        }
        proof {
            assert(old(self)@.draws_window(window));
            assert(out@ =~= window + old(self)@.out + old(self)@.input_part());
        }
        out
    }

    /// The stream of the keys that the interface acts on.
    pub fn event_stream(&self) -> (stream: EventStream) {
        EventStream::new()
    }

    /// The names of the windows, in the order in which they were opened.
    pub fn get_windows(&self) -> (names: Vec<String>)
        ensures
            texts(names@) == self@.windows,
    {
        crate::command::copy_texts(&self.windows)
    }

    /// The names of the windows that wait, the one that waits longest
    /// first.
    pub fn get_unread(&self) -> (names: Vec<String>)
        ensures
            texts(names@) == self@.unread,
    {
        set_names(&self.unread_windows)
    }

    /// The name under which the plugin is listed.
    pub fn to_string(&self) -> (s: String)
        ensures
            s@ == "Aparté UI"@,
    {
        String::from_str("Aparté UI")
    }

    /// Measures the views and lays them out on the screen.
    fn lay_out(&mut self)
        requires
            old(self).frame.content.wf(),
            old(self).size.0 < u16::MAX,
            old(self).size.1 < u16::MAX,
        ensures
            final(self).frame.content.wf(),
            final(self)@ == old(self)@.laid_out(),
            final(self).title_bar.placed(),
            final(self)@.frame.on_screen(),
            final(self).win_bar.placed(),
            final(self).input.placed(),
    {
        let mut wishes: Vec<Wish> = Vec::new();
        wishes.push(wish(&self.title_bar));
        wishes.push(wish(&self.frame));
        wishes.push(wish(&self.win_bar));
        wishes.push(wish(&self.input));
        proof {
            assert(wishes@ =~= self@.wishes());
        }
        let bounds = Rect { x: 1, y: 1, w: self.size.0, h: self.size.1 };
        let rects = arrange(Orientation::Vertical, &wishes, bounds);
        let r0 = rects[0];
        let r1 = rects[1];
        let r2 = rects[2];
        let r3 = rects[3];
        self.title_bar.place(r0.x, r0.y, r0.w, r0.h);
        self.frame.place(r1.x, r1.y, r1.w, r1.h);
        self.win_bar.place(r2.x, r2.y, r2.w, r2.h);
        self.input.place(r3.x, r3.y, r3.w, r3.h);
    }

    /// Draws the two bars.
    fn redraw(&mut self)
        requires
            old(self).frame.content.wf(),
            old(self).title_bar.placed(),
            old(self).win_bar.placed(),
        ensures
            final(self).frame.content.wf(),
            final(self)@ == old(self)@.redrawn(),
            final(self).frame == old(self).frame,
            final(self).input == old(self).input,
    {
        let title = self.title_bar.redraw();
        let bar = self.win_bar.redraw();
        self.out.append(title.as_str());
        self.out.append(bar.as_str());
        proof {
            assert(self.out@ =~= old(self).out@ + old(self)@.title_bar.frame() + old(
                self,
            )@.win_bar.frame());
        }
    }

    /// Opens a window under a name.
    fn open(&mut self, name: &str, window: Window)
        requires
            old(self).wf(),
            window.wf(),
        ensures
            final(self).wf(),
            final(self)@ == old(self)@.opened(name@, window@),
    {
        self.windows.push(name.to_owned());
        self.frame.content.insert(name.to_owned(), window);
        self.frame.content.add_window(name);
        self.frame.dirty = true;
        let bar = self.win_bar.add_window(name);
        self.out.append(bar.as_str());
        proof {
            assert(texts(self.windows@) =~= texts(old(self).windows@).push(name@));
        }
    }

    /// Starts the interface: clears the screen, lays the views out and
    /// draws them, and opens the console and brings it to the front.
    pub fn init(&mut self, aparte: &mut Aparte) -> (started: Result<(), ()>)
        requires
            old(self).ready(),
        ensures
            started is Ok,
            final(self).wf(),
            final(self)@ == old(self)@.init(),
            final(self)@.named(),
            *final(aparte) == *old(aparte),
    {
        proof {
            init_names(self@);
        }
        self.out.append(clear_all().as_str());
        self.lay_out();
        self.redraw();
        self.open("console", Window::console());
        self.change_window("console");
        Ok(())
    }

    /// Brings a window to the front.
    pub fn change_window(&mut self, window: &str)
        requires
            old(self).wf(),
        ensures
            final(self).wf(),
            final(self)@ == old(self)@.fronted(window@),
    {
        let title = self.title_bar.set_name(window);
        self.frame.content.current(window.to_owned());
        self.frame.dirty = true;
        let bar = self.win_bar.set_current_window(window);
        self.out.append(title.as_str());
        self.out.append(bar.as_str());
        self.current_window = Some(window.to_owned());
        let _ = set_remove(&mut self.unread_windows, window);
        proof {
            assert(self.out@ =~= old(self)@.fronted(window@).out);
            without_keeps(old(self)@.unread, window@);
        }
    }

    /// Brings the window after the one in front to the front, or the
    /// first window where none is in front.
    pub fn next_window(&mut self)
        requires
            old(self).wf(),
        ensures
            final(self).wf(),
            final(self)@ == old(self)@.next_window(),
    {
        let target: Option<String> = match &self.current_window {
            Some(current) => {
                let index = index_of(&self.windows, current.as_str());
                if index < self.windows.len() && index + 1 < self.windows.len() {
                    Some(self.windows[index + 1].clone())
                } else {
                    None
                }
            },
            None => if self.windows.len() > 0 {
                Some(self.windows[0].clone())
            } else {
                None
            },
        };
        match target {
            Some(name) => self.change_window(name.as_str()),
            None => {},
        }
    }

    /// Brings the window before the one in front to the front, or the
    /// first window where none is in front.
    pub fn prev_window(&mut self)
        requires
            old(self).wf(),
        ensures
            final(self).wf(),
            final(self)@ == old(self)@.prev_window(),
    {
        let target: Option<String> = match &self.current_window {
            Some(current) => {
                let index = index_of(&self.windows, current.as_str());
                if 0 < index && index < self.windows.len() {
                    Some(self.windows[index - 1].clone())
                } else {
                    None
                }
            },
            None => if self.windows.len() > 0 {
                Some(self.windows[0].clone())
            } else {
                None
            },
        };
        match target {
            Some(name) => self.change_window(name.as_str()),
            None => {},
        }
    }

    /// The index of the first conversation of this name, or the number of
    /// conversations where none has it.
    pub fn find_conversation(&self, name: &str) -> (index: usize)
        ensures
            index == conversation_index(self@.conversations, name@),
            index <= self.conversations@.len(),
            index < self.conversations@.len() <==> self@.has_conversation(name@),
    {
        let wanted = name.to_owned();
        let ghost all = self@.conversations;
        let mut i: usize = 0;
        proof {
            assert(all.skip(0) =~= all);
        }
        while i < self.conversations.len()
            invariant
                i <= self.conversations@.len(),
                all == self@.conversations,
                wanted@ == name@,
                conversation_index(all, name@) == i + conversation_index(all.skip(i as int), name@),
            decreases self.conversations.len() - i,
        {
            proof {
                assert(all.skip(i as int)[0] == all[i as int]);
                assert(all.skip(i as int).drop_first() =~= all.skip(i + 1));
            }
            if self.conversations[i].jid.to_string() == wanted {
                return i;
            }
            i = i + 1;
        }
        proof {
            assert(all.skip(i as int).len() == 0);
        }
        i
    }

    /// Adds a conversation, and opens a window for it.
    pub fn add_conversation(&mut self, aparte: &mut Aparte, conversation: Conversation)
        requires
            old(self).wf(),
        ensures
            final(self).wf(),
            final(self)@ == old(self)@.with_conversation(conversation@),
            *final(aparte) == *old(aparte),
    {
        let name = conversation.jid.to_string();
        if holds(&self.windows, name.as_str()) {
            return ;
        }
        let window = match conversation.kind {
            ConversationKind::Chat => Window::chat(conversation.jid.clone()),
            ConversationKind::Group => Window::group(conversation.jid.clone()),
        };
        self.open(name.as_str(), window);
        self.conversations.push(conversation);
        proof {
            assert(conversation_views(self.conversations@) =~= conversation_views(
                old(self).conversations@,
            ).push(conversation@));
        }
    }

    /// Adds a conversation with `jid`, unless there is one already.
    fn ensure(&mut self, aparte: &mut Aparte, account: &BareJid, jid: &BareJid, kind: ConversationKind)
        requires
            old(self).wf(),
        ensures
            final(self).wf(),
            final(self)@ == old(self)@.ensured(account@, jid@, kind),
            *final(aparte) == *old(aparte),
    {
        let name = jid.to_string();
        if self.find_conversation(name.as_str()) == self.conversations.len() {
            self.add_conversation(
                aparte,
                Conversation { account: account.clone(), jid: jid.clone(), kind },
            );
        }
    }

    /// Hands an event to the views.
    fn forward(&mut self, event: &Event)
        requires
            old(self).wf(),
            event.wf(),
        ensures
            final(self).frame.content.wf(),
            final(self)@.title_bar.placed(),
            final(self)@.win_bar.placed(),
            final(self)@.input.content.wf(),
            final(self)@.frame.on_screen(),
            final(self)@.input.placed(),
            final(self)@.size == old(self)@.size,
            final(self)@ == old(self)@.took(*event),
    {
        let rows: u16 = match self.frame.h {
            Some(h) => h,
            None => 0,
        };
        let title = self.title_bar.event(event);
        match event {
            Event::ChangeWindow(name) => self.frame.content.current(name.clone()),
            _ => {},
        }
        let bells = self.frame.content.event(event, rows);
        self.frame.dirty = true;
        let bar = self.win_bar.event(event);
        self.input.content.event(event);
        self.input.dirty = true;
        self.out.append(title.as_str());
        self.out.append(bells.as_str());
        self.out.append(bar.as_str());
        proof {
            assert(self.out@ =~= old(self)@.took(*event).out);
        }
    }

    /// Takes note of a message before the views take it.
    fn message(&mut self, aparte: &mut Aparte, account: &Option<BareJid>, message: &Message)
        requires
            old(self).wf(),
            *message is Log || *account is Some,
        ensures
            final(self).wf(),
            final(self)@ == old(self)@.after_message(*account, *message),
            *final(aparte) == *old(aparte),
    {
        match message {
            Message::Incoming(XmppMessage::Chat(m)) => {
                match account {
                    Some(account) => self.ensure(aparte, account, &m.from, ConversationKind::Chat),
                    None => {},
                }
                self.note(m.from.to_string());
            },
            Message::Outgoing(XmppMessage::Chat(m)) => {
                match account {
                    Some(account) => self.ensure(aparte, account, &m.to, ConversationKind::Chat),
                    None => {},
                }
            },
            Message::Incoming(XmppMessage::Groupchat(m)) => {
                match account {
                    Some(account) => self.ensure(aparte, account, &m.from, ConversationKind::Group),
                    None => {},
                }
                self.note(m.from.to_string());
            },
            Message::Outgoing(XmppMessage::Groupchat(m)) => {
                match account {
                    Some(account) => self.ensure(aparte, account, &m.to, ConversationKind::Group),
                    None => {},
                }
            },
            Message::Log(_) => {},
        }
    }

    /// Makes the window `name` wait, unless it is in front or not there.
    fn note(&mut self, name: String)
        requires
            old(self).wf(),
        ensures
            final(self).wf(),
            final(self)@ == old(self)@.noted(name@),
    {
        let front = match &self.current_window {
            Some(current) => *current == name,
            None => false,
        };
        if holds(&self.windows, name.as_str()) && !front {
            proof {
                if !self@.unread.contains(name@) {
                    push_keeps(self@.unread, name@);
                }
            }
            let _ = set_insert_if_absent(&mut self.unread_windows, name);
        }
    }

    /// Brings the window to the front that has waited longest.
    fn wake(&mut self)
        requires
            old(self).wf(),
        ensures
            final(self).wf(),
            final(self)@ == old(self)@.woken(),
    {
        proof {
            rest_keeps(self@.unread);
        }
        match set_pop_front(&mut self.unread_windows) {
            Some(window) => self.change_window(window.as_str()),
            None => {},
        }
    }

    /// The conversation of the window in front, if that is the window of
    /// a conversation.
    fn talking(&self) -> (talk: Option<Conversation>)
        ensures
            match talk {
                Some(talk) => self@.talking() == Some(talk@),
                None => self@.talking() is None,
            },
    {
        match &self.current_window {
            Some(current) => {
                let index = self.find_conversation(current.as_str());
                if index < self.conversations.len() {
                    Some(self.conversations[index].clone())
                } else {
                    None
                }
            },
            None => None,
        }
    }

    /// Asks for a completion of the line.
    fn complete(&mut self, aparte: &mut Aparte)
        requires
            old(self).wf(),
        ensures
            *final(self) == *old(self),
            final(aparte).same_but_pending(old(aparte)),
            final(aparte).pending().len() == old(aparte).pending().len() + 1,
            final(aparte).pending().drop_last() == old(aparte).pending(),
            old(self)@.schedules(
                old(aparte).account(),
                Event::Key(Key::Char('\t')),
                seq![final(aparte).pending().last()],
            ),
    {
        if self.input.content.password {
            aparte.schedule(Event::Key(Key::Char('\t')));
        } else {
            let (account, conversation) = match self.talking() {
                Some(talk) => (Some(talk.account), Some(talk.jid)),
                None => (None, None),
            };
            aparte.schedule(
                Event::AutoComplete {
                    account,
                    conversation,
                    raw_buf: self.input.content.text(),
                    cursor: self.input.content.cursor,
                },
            );
        }
        proof {
            assert(aparte.pending().drop_last() =~= old(aparte).pending());
        }
    }

    /// Hands the line over.
    fn enter(&mut self, aparte: &mut Aparte)
        requires
            old(self).wf(),
        ensures
            final(self).wf(),
            final(self)@ == old(self)@.entered(),
            final(aparte).same_but_pending(old(aparte)),
            old(aparte).pending().len() <= final(aparte).pending().len(),
            final(aparte).pending().subrange(0, old(aparte).pending().len() as int) == old(
                aparte,
            ).pending(),
            old(self)@.enters(
                old(aparte).account(),
                final(aparte).pending().skip(old(aparte).pending().len() as int),
            ),
    {
        let talk = self.talking();
        let (line, password) = self.input.content.validate();
        self.input.dirty = true;
        let ghost before = aparte.pending();
        if password {
            let mut waiting: Option<Command> = None;
            std::mem::swap(&mut waiting, &mut self.password_command);
            match waiting {
                Some(mut command) => {
                    let ghost args = texts(command.args@);
                    command.args.push(line);
                    proof {
                        assert(texts(command.args@) =~= args.push(line@));
                    }
                    aparte.schedule(Event::Command(command));
                },
                None => {},
            }
        } else {
            match Command::try_from(line.as_str()) {
                Ok(command) => {
                    aparte.schedule(Event::Command(command));
                },
                Err(ParseError::NotACommand) => {
                    if line.as_str().unicode_len() > 0 {
                        match (talk, aparte.current_account()) {
                            (Some(talk), Some(account)) => {
                                let from = Jid::Bare(account.clone());
                                let to = Jid::Bare(talk.jid.clone());
                                let message = match talk.kind {
                                    ConversationKind::Chat => Message::outgoing_chat(
                                        new_id(),
                                        now(),
                                        &from,
                                        &to,
                                        line.as_str(),
                                    ),
                                    ConversationKind::Group => Message::outgoing_groupchat(
                                        new_id(),
                                        now(),
                                        &from,
                                        &to,
                                        line.as_str(),
                                    ),
                                };
                                aparte.schedule(Event::SendMessage(account, message));
                            },
                            _ => {},
                        }
                    }
                },
                Err(e) => {
                    aparte.schedule(Event::CommandError(e.to_string()));
                },
            }
        }
        proof {
            let after = aparte.pending();
            assert(after.subrange(0, before.len() as int) =~= before);
            if after.len() > before.len() {
                assert(after.skip(before.len() as int) =~= seq![after.last()]);
            } else {
                assert(after.skip(before.len() as int) =~= Seq::<Event>::empty());
            }
        }
    }

    /// Ends a completion and hands a key to the views.
    fn pass_key(&mut self, aparte: &mut Aparte, event: &Event)
        requires
            old(self).wf(),
            event.wf(),
        ensures
            final(self).frame.content.wf(),
            final(self)@.title_bar.placed(),
            final(self)@.win_bar.placed(),
            final(self)@.input.content.wf(),
            final(self)@.frame.on_screen(),
            final(self)@.input.placed(),
            final(self)@.size == old(self)@.size,
            final(self)@ == old(self)@.took(*event),
            final(aparte).same_but_pending(old(aparte)),
            final(aparte).pending() == old(aparte).pending().push(Event::ResetCompletion),
    {
        aparte.schedule(Event::ResetCompletion);
        self.forward(event);
    }

    /// Takes an event from the bus.
    #[verifier::rlimit(60)]
    pub fn on_event(&mut self, aparte: &mut Aparte, event: &Event)
        requires
            old(self).wf(),
            event.wf(),
        ensures
            final(self).wf(),
            final(self)@ == old(self)@.on_event(*event),
            old(self)@.named() ==> final(self)@.named(),
            final(aparte).same_but_pending(old(aparte)),
            old(aparte).pending().len() <= final(aparte).pending().len(),
            final(aparte).pending().subrange(0, old(aparte).pending().len() as int) == old(
                aparte,
            ).pending(),
            old(self)@.schedules(
                old(aparte).account(),
                *event,
                final(aparte).pending().skip(old(aparte).pending().len() as int),
            ),
    {
        let ghost before = aparte.pending();
        proof {
            if self@.named() {
                on_event_names(self@, *event);
            }
        }
        match event {
            Event::ReadPassword(command) => {
                self.password_command = Some(command.clone());
                self.forward(event);
            },
            Event::Message(account, message) => {
                self.message(aparte, account, message);
                self.forward(event);
            },
            Event::Chat { account, contact } => {
                self.ensure(aparte, account, contact, ConversationKind::Chat);
                self.change_window(contact.to_string().as_str());
            },
            Event::Joined { account, channel, user_request } => {
                let room = channel.to_bare();
                self.ensure(aparte, account, &room, ConversationKind::Group);
                if *user_request {
                    self.change_window(room.to_string().as_str());
                }
            },
            Event::Win(window) => {
                if holds(&self.windows, window.as_str()) {
                    self.change_window(window.as_str());
                } else {
                    let mut text = String::from_str("Unknown window ");
                    text.append(window.as_str());
                    aparte.log(text);
                }
            },
            Event::WindowChange => {
                self.lay_out();
                self.redraw();
            },
            Event::Key(Key::Char(c)) => {
                if *c == '\t' {
                    self.complete(aparte);
                } else if *c == '\n' {
                    self.enter(aparte);
                } else {
                    self.pass_key(aparte, event);
                }
            },
            Event::Key(Key::Alt(c)) => {
                if *c == 'a' {
                    self.wake();
                } else {
                    self.pass_key(aparte, event);
                }
            },
            Event::Key(_) => {
                self.pass_key(aparte, event);
            },
            _ => {
                self.forward(event);
            },
        }
        proof {
            let after = aparte.pending();
            assert(after.subrange(0, before.len() as int) =~= before);
            if after.len() == before.len() + 1 {
                assert(after.skip(before.len() as int) =~= seq![after.last()]);
            } else {
                assert(after.skip(before.len() as int) =~= Seq::<Event>::empty());
            }
        }
    }
}

/// The index of the first of `names` that is `name`, or their number
/// where none is.
fn index_of(names: &Vec<String>, name: &str) -> (index: usize)
    ensures
        index == name_index(texts(names@), name@),
        index <= names@.len(),
{
    let wanted = name.to_owned();
    let ghost all = texts(names@);
    let mut i: usize = 0;
    proof {
        assert(all.skip(0) =~= all);
    }
    while i < names.len()
        invariant
            i <= names@.len(),
            all == texts(names@),
            wanted@ == name@,
            name_index(all, name@) == i + name_index(all.skip(i as int), name@),
        decreases names.len() - i,
    {
        proof {
            assert(all.skip(i as int)[0] == all[i as int]);
            assert(all.skip(i as int).drop_first() =~= all.skip(i + 1));
        }
        if names[i] == wanted {
            return i;
        }
        i = i + 1;
    }
    proof {
        assert(all.skip(i as int).len() == 0);
    }
    i
}

} // verus!
