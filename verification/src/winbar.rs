//! The strip above the input line: the account, the window in front, and
//! the windows that wait with unread messages.

use crate::term::{
    bg_blue, bg_reset, bold, cursor_restore, cursor_save, fg_reset, fg_white, goto, goto_text,
    no_bold,
};
use crate::text::{blanks, byte_len, bytes_in, holds, push_blanks, text_of, texts, without};
use crate::event::Event;
use crate::paint::{clip, clipped};
use crate::message::{Message, XmppMessage};
use crate::view::{Dimension, Placed};
use vstd::prelude::*;
use vstd::string::*;

verus! {

/// What the window bar shows.
pub struct WinBar {
    pub connection: Option<String>,
    pub windows: Vec<String>,
    pub current_window: Option<String>,
    pub highlighted: Vec<String>,
}

/// What the window bar holds: the account, the windows it knows, the
/// window in front, and the windows that wait, in the order in which they
/// came to wait.
pub struct BarModel {
    pub connection: Option<Seq<char>>,
    pub windows: Seq<Seq<char>>,
    pub current_window: Option<Seq<char>>,
    pub highlighted: Seq<Seq<char>>,
}

impl View for WinBar {
    type V = BarModel;

    open spec fn view(&self) -> BarModel {
        BarModel {
            connection: text_of(self.connection),
            windows: texts(self.windows@),
            current_window: text_of(self.current_window),
            highlighted: texts(self.highlighted@),
        }
    }
}

/// The cells that the account and the window in front take on the bar.
pub open spec fn head_cells(connection: Option<Seq<char>>, current: Option<Seq<char>>) -> int {
    (match connection {
        Some(c) => (1 + byte_len(c)) as int,
        None => 0int,
    }) + (match current {
        Some(c) => (3 + byte_len(c)) as int,
        None => 3int,
    })
}

/// The cells taken once the first `k` of `names` are listed behind a head
/// of `base` cells: the brackets round the list, and a comma and a blank
/// between two names.
pub open spec fn cells_used(base: int, names: Seq<Seq<char>>, k: int) -> int
    decreases k,
{
    if k <= 0 {
        base
    } else if k == 1 {
        base + 3 + byte_len(names[0])
    } else {
        cells_used(base, names, k - 1) + 2 + byte_len(names[k - 1])
    }
}

/// Whether `names[i]` still fits behind the `i` names before it, with room
/// left for a comma, an ellipsis and the closing bracket.
pub open spec fn fits(base: int, names: Seq<Seq<char>>, width: int, i: int) -> bool {
    byte_len(names[i]) + cells_used(base, names, i) + 4 <= width
}

/// The index of the first name from `from` on that does not fit, or the
/// number of names where all fit.
pub open spec fn first_unfit(base: int, names: Seq<Seq<char>>, width: int, from: int) -> int
    decreases names.len() - from,
{
    if 0 <= from < names.len() && fits(base, names, width, from) {
        first_unfit(base, names, width, from + 1)
    } else {
        from
    }
}

/// A window name in bold.
pub open spec fn in_bold(name: Seq<char>) -> Seq<char> {
    "\x1b[1m"@ + name + "\x1b[21m"@
}

/// The opening bracket and the first `k` of `names`, in bold, with commas.
pub open spec fn listing(names: Seq<Seq<char>>, k: int) -> Seq<char>
    decreases k,
{
    if k <= 0 {
        Seq::<char>::empty()
    } else if k == 1 {
        " ["@ + in_bold(names[0])
    } else {
        listing(names, k - 1) + ", "@ + in_bold(names[k - 1])
    }
}

/// The list of waiting windows as the bar shows it: as many names as fit,
/// in their order, an ellipsis where some had to be left out, and nothing
/// at all where not even the first one fits.
pub open spec fn waiting_text(base: int, names: Seq<Seq<char>>, width: int) -> Seq<char> {
    let k = first_unfit(base, names, width, 0);
    if k == 0 {
        Seq::<char>::empty()
    } else if k < names.len() {
        listing(names, k) + ", …"@ + "]"@
    } else {
        listing(names, k) + "]"@
    }
}

/// What a window bar `w` cells wide writes over its strip: the account
/// and the window in front, and the windows that wait, as far as they fit.
pub open spec fn bar_text(
    w: u16,
    connection: Option<Seq<char>>,
    current: Option<Seq<char>>,
    waiting: Seq<Seq<char>>,
) -> Seq<char> {
    head_text(connection, current) + waiting_text(
        head_cells(connection, current),
        waiting,
        w as int,
    )
}

/// What a window bar at `(x, y)`, `w` cells wide, sends to the terminal:
/// the strip is painted blue, then its text is written over it, cut to
/// the cells of the strip; the cursor and the colours are put back.
pub open spec fn bar_frame(
    x: u16,
    y: u16,
    w: u16,
    connection: Option<Seq<char>>,
    current: Option<Seq<char>>,
    waiting: Seq<Seq<char>>,
) -> Seq<char> {
    "\x1b[s"@ + goto_text(x, y) + "\x1b[48;5;4m"@ + "\x1b[38;5;7m"@ + blanks(w as nat) + goto_text(
        x,
        y,
    ) + clipped(
        bar_text(w, connection, current, waiting),
        w as int,
        bar_text(w, connection, current, waiting).len() as int,
    ) + "\x1b[49m"@ + "\x1b[39m"@ + "\x1b[u"@
}

impl Placed<BarModel> {
    /// What drawing the bar sends to the terminal.
    pub open spec fn frame(self) -> Seq<char> {
        bar_frame(
            self.x,
            self.y,
            self.w.unwrap(),
            self.content.connection,
            self.content.current_window,
            self.content.highlighted,
        )
    }

    /// The bar knowing one more window, drawn.
    pub open spec fn extended(self, window: Seq<char>) -> Placed<BarModel> {
        self.drawn(BarModel { windows: self.content.windows.push(window), ..self.content })
    }

    /// The bar with `window` in front and waiting no longer, drawn.
    pub open spec fn switched(self, window: Seq<char>) -> Placed<BarModel> {
        self.drawn(
            BarModel {
                current_window: Some(window),
                highlighted: without(self.content.highlighted, window),
                ..self.content
            },
        )
    }

    /// The bar with `window` marked as waiting, drawn, unless the window
    /// is marked already: then nothing changes.
    pub open spec fn highlighted(self, window: Seq<char>) -> Placed<BarModel> {
        if self.content.highlighted.contains(window) {
            self
        } else {
            self.drawn(
                BarModel { highlighted: self.content.highlighted.push(window), ..self.content },
            )
        }
    }

    /// Whether a message from `from` makes a window wait: the bar knows a
    /// window of that name, and it is not the one in front.
    pub open spec fn makes_wait(self, from: Seq<char>) -> bool {
        self.content.windows.contains(from) && self.content.current_window != Some(from)
    }

    /// The bar after a message from `from`: where it makes a window wait,
    /// the window is marked and the bar drawn.
    pub open spec fn told(self, from: Seq<char>) -> Placed<BarModel> {
        if self.makes_wait(from) {
            self.highlighted(from).drawn(self.highlighted(from).content)
        } else {
            self
        }
    }

    /// What the bar sends to the terminal at a message from `from`: where
    /// the message makes a window wait, the bar drawn again, twice where
    /// the mark is new.
    pub open spec fn says_told(self, from: Seq<char>) -> Seq<char> {
        if self.makes_wait(from) {
            if self.content.highlighted.contains(from) {
                self.told(from).frame()
            } else {
                self.told(from).frame() + self.told(from).frame()
            }
        } else {
            Seq::empty()
        }
    }

    /// The bar showing the account, drawn.
    pub open spec fn connected(self, account: Seq<char>) -> Placed<BarModel> {
        self.drawn(BarModel { connection: Some(account), ..self.content })
    }

    /// The bar after an event: it follows the window in front, shows the
    /// account once the session is up, and marks the windows in which
    /// someone else says something while they are not in front.
    pub open spec fn after(self, event: Event) -> Placed<BarModel> {
        match event {
            Event::ChangeWindow(name) => self.switched(name@),
            Event::Connected(account, _) => self.connected(account@.text()),
            Event::Message(_, Message::Incoming(XmppMessage::Chat(message))) => self.told(
                message.from@.text(),
            ),
            Event::Message(_, Message::Incoming(XmppMessage::Groupchat(message))) => self.told(
                message.from@.text(),
            ),
            _ => self,
        }
    }

    /// What the bar sends to the terminal at an event.
    pub open spec fn says(self, event: Event) -> Seq<char> {
        match event {
            Event::ChangeWindow(name) => self.switched(name@).frame(),
            Event::Connected(account, _) => self.connected(account@.text()).frame(),
            Event::Message(_, Message::Incoming(XmppMessage::Chat(message))) => self.says_told(
                message.from@.text(),
            ),
            Event::Message(_, Message::Incoming(XmppMessage::Groupchat(message))) => self.says_told(
                message.from@.text(),
            ),
            _ => Seq::empty(),
        }
    }
}

impl crate::view::View<WinBar> {
    /// A window bar that shows nothing yet: one row high, as wide as its
    /// parent, not yet measured.
    pub fn new() -> (view: Self)
        ensures
            view@ == Placed::made(
                Dimension::MatchParent,
                Dimension::Absolute(1),
                BarModel {
                    connection: None,
                    windows: Seq::empty(),
                    current_window: None,
                    highlighted: Seq::empty(),
                },
            ),
    {
        let view = crate::view::View {
            width: Dimension::MatchParent,
            height: Dimension::Absolute(1),
            x: 0,
            y: 0,
            w: None,
            h: None,
            dirty: true,
            visible: true,
            content: WinBar {
                connection: None,
                windows: Vec::new(),
                current_window: None,
                highlighted: Vec::new(),
            },
        };
        proof {
            assert(view@.content.windows =~= Seq::empty());
            assert(view@.content.highlighted =~= Seq::empty());
        }
        view
    }

    /// Takes a message from `from`; the result is what goes to the
    /// terminal.
    fn tell(&mut self, from: String) -> (out: String)
        requires
            old(self).placed(),
        ensures
            final(self)@ == old(self)@.told(from@),
            out@ == old(self)@.says_told(from@),
    {
        let front = match &self.content.current_window {
            Some(current) => *current == from,
            None => false,
        };
        if holds(&self.content.windows, from.as_str()) && !front {
            match self.highlight_window(from.as_str()) {
                Some(mut out) => {
                    out.append(self.redraw().as_str());
                    out
                },
                None => self.redraw(),
            }
        } else {
            String::new()
        }
    }

    /// Takes an event; the result is what goes to the terminal.
    pub fn event(&mut self, event: &Event) -> (out: String)
        requires
            old(self).placed(),
        ensures
            final(self)@ == old(self)@.after(*event),
            out@ == old(self)@.says(*event),
    {
        match event {
            Event::ChangeWindow(name) => self.set_current_window(name.as_str()),
            Event::Connected(account, _) => {
                self.content.connection = Some(account.to_string());
                self.dirty = true;
                self.redraw()
            },
            Event::Message(_, Message::Incoming(XmppMessage::Chat(message))) => self.tell(
                message.from.to_string(),
            ),
            Event::Message(_, Message::Incoming(XmppMessage::Groupchat(message))) => self.tell(
                message.from.to_string(),
            ),
            _ => String::new(),
        }
    }

    /// Adds a window to those the bar knows and draws the bar again; the
    /// result is what goes to the terminal.
    pub fn add_window(&mut self, window: &str) -> (out: String)
        requires
            old(self).placed(),
        ensures
            final(self)@ == old(self)@.extended(window@),
            out@ == final(self)@.frame(),
    {
        self.content.windows.push(window.to_owned());
        self.dirty = true;
        proof {
            assert(texts(self.content.windows@) =~= texts(old(self).content.windows@).push(
                window@,
            ));
        }
        self.redraw()
    }

    /// Puts a window in front: it is the current one from now on and waits
    /// no longer. The bar is drawn again; the result is what goes to the
    /// terminal.
    pub fn set_current_window(&mut self, window: &str) -> (out: String)
        requires
            old(self).placed(),
        ensures
            final(self)@ == old(self)@.switched(window@),
            out@ == final(self)@.frame(),
    {
        let name = window.to_owned();
        let mut kept: Vec<String> = Vec::new();
        let mut i: usize = 0;
        proof {
            assert(texts(self.content.highlighted@).subrange(0, 0) =~= Seq::<Seq<char>>::empty());
            assert(texts(kept@) =~= Seq::<Seq<char>>::empty());
        }
        while i < self.content.highlighted.len()
            invariant
                i <= self.content.highlighted.len(),
                name@ == window@,
                *self == *old(self),
                texts(kept@) == without(
                    texts(self.content.highlighted@).subrange(0, i as int),
                    window@,
                ),
            decreases self.content.highlighted.len() - i,
        {
            proof {
                let all = texts(self.content.highlighted@);
                assert(all.subrange(0, i + 1) =~= all.subrange(0, i as int).push(all[i as int]));
                assert(all.subrange(0, i + 1).drop_last() =~= all.subrange(0, i as int));
                reveal(Seq::filter);
            }
            if self.content.highlighted[i] != name {
                let ghost before = kept@;
                kept.push(self.content.highlighted[i].clone());
                proof {
                    assert(texts(kept@) =~= texts(before).push(
                        texts(self.content.highlighted@)[i as int],
                    ));
                }
            }
            i = i + 1;
        }
        proof {
            let all = texts(self.content.highlighted@);
            assert(all.subrange(0, i as int) =~= all);
        }
        self.content.highlighted = kept;
        self.content.current_window = Some(name);
        self.dirty = true;
        self.redraw()
    }

    /// Marks a window as waiting, unless it is marked already, and draws
    /// the bar again if that changed anything. The result is what goes to
    /// the terminal, if anything does.
    pub fn highlight_window(&mut self, window: &str) -> (out: Option<String>)
        requires
            old(self).placed(),
        ensures
            final(self)@ == old(self)@.highlighted(window@),
            final(self).placed(),
            out is Some <==> !old(self)@.content.highlighted.contains(window@),
            out matches Some(text) ==> text@ == final(self)@.frame(),
    {
        if !holds(&self.content.highlighted, window) {
            self.content.highlighted.push(window.to_owned());
            self.dirty = true;
            proof {
                assert(texts(self.content.highlighted@) =~= texts(
                    old(self).content.highlighted@,
                ).push(window@));
            }
            Some(self.redraw())
        } else {
            None
        }
    }

    /// Draws the bar; the result is what goes to the terminal. Nothing has
    /// to be drawn again afterwards.
    pub fn redraw(&mut self) -> (out: String)
        requires
            old(self).placed(),
        ensures
            final(self)@ == old(self)@.drawn(old(self)@.content),
            final(self).content == old(self).content,
            final(self).placed(),
            out@ == old(self)@.frame(),
    {
        let width: u16 = self.w.unwrap();
        let mut out = cursor_save();
        let at = goto(self.x, self.y);
        out.append(at.as_str());
        out.append(bg_blue().as_str());
        out.append(fg_white().as_str());
        push_blanks(&mut out, width as usize);
        out.append(at.as_str());
        let mut text = String::new();
        let written = push_head(&mut text, &self.content.connection, &self.content.current_window);
        push_waiting(&mut text, &self.content.highlighted, written, width);
        proof {
            assert(text@ =~= bar_text(
                width,
                self@.content.connection,
                self@.content.current_window,
                self@.content.highlighted,
            ));
        }
        out.append(clip(text.as_str(), width).as_str());
        out.append(bg_reset().as_str());
        out.append(fg_reset().as_str());
        out.append(cursor_restore().as_str());
        self.dirty = false;
        proof {
            assert(out@ =~= old(self)@.frame());
        }
        out
    }
}

/// What the bar shows of the account and of the window in front.
pub open spec fn head_text(connection: Option<Seq<char>>, current: Option<Seq<char>>) -> Seq<char> {
    (match connection {
        Some(c) => " "@ + c,
        None => Seq::<char>::empty(),
    }) + (match current {
        Some(c) => " ["@ + in_bold(c) + "]"@,
        None => " []"@,
    })
}

/// Appends the account and the window in front, and counts their cells.
fn push_head(out: &mut String, connection: &Option<String>, current: &Option<String>) -> (written:
    u128)
    ensures
        final(out)@ == old(out)@ + head_text(text_of(*connection), text_of(*current)),
        written == head_cells(text_of(*connection), text_of(*current)),
        written <= 2 * usize::MAX + 4,
{
    let mut written: u128 = 0;
    match connection {
        Some(connection) => {
            out.append(" ");
            out.append(connection.as_str());
            written = written + 1 + bytes_in(connection.as_str()) as u128;
        },
        None => {},
    }
    match current {
        Some(current) => {
            out.append(" [");
            out.append(bold().as_str());
            out.append(current.as_str());
            out.append(no_bold().as_str());
            out.append("]");
            written = written + 3 + bytes_in(current.as_str()) as u128;
        },
        None => {
            out.append(" []");
            written = written + 3;
        },
    }
    proof {
        assert(out@ =~= old(out)@ + head_text(text_of(*connection), text_of(*current)));
    }
    written
}

/// Appends the list of waiting windows, as far as it fits.
fn push_waiting(out: &mut String, waiting: &Vec<String>, base: u128, width: u16)
    requires
        base <= 2 * usize::MAX + 4,
    ensures
        final(out)@ == old(out)@ + waiting_text(base as int, texts(waiting@), width as int),
{
    let ghost names = texts(waiting@);
    let ghost head = out@;
    let mut written: u128 = base;
    let mut i: usize = 0;
    let mut cut: bool = false;
    proof {
        assert(out@ =~= head + listing(names, 0));
    }
    while i < waiting.len() && !cut
        invariant
            i <= waiting.len(),
            names == texts(waiting@),
            written == cells_used(base as int, names, i as int),
            i == 0 ==> written <= 2 * usize::MAX + 4,
            i > 0 ==> written <= width,
            first_unfit(base as int, names, width as int, 0) == first_unfit(
                base as int,
                names,
                width as int,
                i as int,
            ),
            cut ==> i < names.len() && !fits(base as int, names, width as int, i as int),
            out@ == head + listing(names, i as int) + (if cut && i > 0 {
                ", …"@
            } else {
                Seq::<char>::empty()
            }),
        decreases waiting.len() - i + (if cut { 0int } else { 1int }),
    {
        let window = &waiting[i];
        let size = bytes_in(window.as_str());
        proof {
            assert(names[i as int] == window@);
        }
        if size as u128 + written + 4 > width as u128 {
            if i > 0 {
                out.append(", …");
            }
            cut = true;
            proof {
                assert(out@ =~= head + listing(names, i as int) + (if i > 0 {
                    ", …"@
                } else {
                    Seq::<char>::empty()
                }));
            }
        } else {
            if i == 0 {
                out.append(" [");
                written = written + 3;
            } else {
                out.append(", ");
                written = written + 2;
            }
            out.append(bold().as_str());
            out.append(window.as_str());
            out.append(no_bold().as_str());
            written = written + size as u128;
            i = i + 1;
            proof {
                assert(out@ =~= head + listing(names, i as int) + Seq::<char>::empty());
            }
        }
    }
    if i > 0 {
        out.append("]");
    }
    proof {
        assert(first_unfit(base as int, names, width as int, 0) == i);
        assert(out@ =~= head + waiting_text(base as int, names, width as int));
    }
}

} // verus!
