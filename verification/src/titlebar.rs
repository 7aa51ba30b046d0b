//! The strip at the top of the screen that names the window in front.

use crate::event::Event;
use crate::paint::{clip, clipped};
use crate::term::{bg_blue, bg_reset, cursor_restore, cursor_save, fg_reset, fg_white, goto, goto_text};
use crate::text::{blanks, push_blanks, text_of};
use crate::view::{Dimension, Placed};
use vstd::prelude::*;
use vstd::string::*;

verus! {

/// What the title bar shows.
pub struct TitleBar {
    pub window_name: Option<String>,
}

/// What the title bar holds.
pub struct TitleModel {
    pub window_name: Option<Seq<char>>,
}

impl View for TitleBar {
    type V = TitleModel;

    open spec fn view(&self) -> TitleModel {
        TitleModel { window_name: text_of(self.window_name) }
    }
}

/// What a title bar writes over its strip: the name, one cell in.
pub open spec fn title_text(name: Option<Seq<char>>) -> Seq<char> {
    match name {
        Some(name) => " "@ + name,
        None => Seq::<char>::empty(),
    }
}

/// What a title bar at `(x, y)`, `w` cells wide, sends to the terminal to
/// show `name`: the strip is painted blue, then the name is written over
/// it, one cell in, and cut to the cells of the strip; the cursor and the
/// colours are put back.
pub open spec fn title_frame(x: u16, y: u16, w: u16, name: Option<Seq<char>>) -> Seq<char> {
    "\x1b[s"@ + goto_text(x, y) + "\x1b[48;5;4m"@ + "\x1b[38;5;7m"@ + blanks(w as nat) + goto_text(
        x,
        y,
    ) + clipped(title_text(name), w as int, title_text(name).len() as int) + "\x1b[49m"@
        + "\x1b[39m"@ + "\x1b[u"@
}

impl Placed<TitleModel> {
    /// What drawing the bar sends to the terminal.
    pub open spec fn frame(self) -> Seq<char> {
        title_frame(self.x, self.y, self.w.unwrap(), self.content.window_name)
    }

    /// The bar naming `name`, drawn.
    pub open spec fn named(self, name: Seq<char>) -> Placed<TitleModel> {
        self.drawn(TitleModel { window_name: Some(name) })
    }

    /// The bar after an event: it names the window that comes to the
    /// front, and lets everything else pass.
    pub open spec fn after(self, event: Event) -> Placed<TitleModel> {
        match event {
            Event::ChangeWindow(name) => self.named(name@),
            _ => self,
        }
    }

    /// What the bar sends to the terminal at an event: itself, drawn
    /// again, where it changes.
    pub open spec fn says(self, event: Event) -> Seq<char> {
        match event {
            Event::ChangeWindow(name) => self.named(name@).frame(),
            _ => Seq::empty(),
        }
    }
}

impl crate::view::View<TitleBar> {
    /// A title bar that names no window: one row high, as wide as its
    /// parent, not yet measured.
    pub fn new() -> (view: Self)
        ensures
            view@ == Placed::made(
                Dimension::MatchParent,
                Dimension::Absolute(1),
                TitleModel { window_name: None },
            ),
    {
        crate::view::View {
            width: Dimension::MatchParent,
            height: Dimension::Absolute(1),
            x: 0,
            y: 0,
            w: None,
            h: None,
            dirty: true,
            visible: true,
            content: TitleBar { window_name: None },
        }
    }

    /// Takes an event; the result is what goes to the terminal.
    pub fn event(&mut self, event: &Event) -> (out: String)
        requires
            old(self).placed(),
        ensures
            final(self)@ == old(self)@.after(*event),
            out@ == old(self)@.says(*event),
    {
        match event {
            Event::ChangeWindow(name) => self.set_name(name.as_str()),
            _ => String::new(),
        }
    }

    /// Names the window in front and draws the bar again; the result is
    /// what goes to the terminal.
    pub fn set_name(&mut self, name: &str) -> (out: String)
        requires
            old(self).placed(),
        ensures
            final(self)@ == old(self)@.named(name@),
            out@ == final(self)@.frame(),
    {
        self.content.window_name = Some(name.to_owned());
        self.dirty = true;
        self.redraw()
    }

    /// Draws the bar; the result is what goes to the terminal. Nothing has
    /// to be drawn again afterwards.
    pub fn redraw(&mut self) -> (out: String)
        requires
            old(self).placed(),
        ensures
            final(self)@ == old(self)@.drawn(old(self)@.content),
            final(self).content == old(self).content,
            out@ == old(self)@.frame(),
    {
        let mut out = cursor_save();
        let at = goto(self.x, self.y);
        out.append(at.as_str());
        out.append(bg_blue().as_str());
        out.append(fg_white().as_str());
        push_blanks(&mut out, self.w.unwrap() as usize);
        out.append(at.as_str());
        let mut text = String::new();
        match &self.content.window_name {
            Some(name) => {
                text.append(" ");
                text.append(name.as_str());
            },
            None => {},
        }
        proof {
            assert(text@ =~= title_text(self@.content.window_name));
        }
        out.append(clip(text.as_str(), self.w.unwrap()).as_str());
        out.append(bg_reset().as_str());
        out.append(fg_reset().as_str());
        out.append(cursor_restore().as_str());
        self.dirty = false;
        proof {
            assert(out@ =~= old(self)@.frame());
        }
        out
    }
}

} // verus!
