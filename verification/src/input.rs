//! The line editor: the text being typed, the cursor in it, and the lines
//! typed before.

use crate::command::is_blank;
use crate::event::{Event, Key};
use crate::paint::{clip, clipped, line_frame};
use crate::term::{goto, goto_text};
use crate::text::{byte_len, bytes_in, chars_of, push_blanks, string_of, texts};
use crate::view::{Dimension, Placed};
use vstd::prelude::*;
use vstd::string::*;
use vstd::utf8::{encode_scalar, encode_utf8, is_char_boundary};

verus! {

/// A place in a line: the number of characters before it.
#[derive(Clone, Copy, Debug, PartialEq, Eq, Structural)]
pub struct Cursor {
    pub index: usize,
}

/// The state of the line editor.
pub struct Input {
    pub buf: Vec<char>,
    pub cursor: Cursor,
    pub history: Vec<String>,
    pub history_index: usize,
    pub password: bool,
}

/// Where going back from `i` over blanks (`blanks`) or over other
/// characters (`!blanks`) ends.
pub open spec fn back_over(s: Seq<char>, i: int, blanks: bool) -> int
    decreases i,
{
    if 0 < i <= s.len() && is_blank(s[i - 1]) == blanks {
        back_over(s, i - 1, blanks)
    } else {
        i
    }
}

/// Where the word before `i` starts: behind the blanks before `i`, if
/// there are any, and then behind the characters before them.
pub open spec fn word_start(s: Seq<char>, i: int) -> int {
    back_over(s, back_over(s, i, true), false)
}

/// `s` without the characters from `from` up to `to`.
pub open spec fn cut(s: Seq<char>, from: int, to: int) -> Seq<char> {
    s.subrange(0, from) + s.subrange(to, s.len() as int)
}

/// The bytes before a place in a line end at a character boundary of the
/// line.
pub proof fn prefix_ends_on_boundary(buf: Seq<char>, index: int)
    requires
        0 <= index <= buf.len(),
    ensures
        byte_len(buf.subrange(0, index)) <= byte_len(buf),
        is_char_boundary(encode_utf8(buf), byte_len(buf.subrange(0, index)) as int),
    decreases buf.len(),
{
    broadcast use vstd::utf8::encode_utf8_valid_utf8;

    let bytes = encode_utf8(buf);
    let prefix = buf.subrange(0, index);
    if index == 0 {
        assert(prefix =~= Seq::<char>::empty());
        assert(encode_utf8(prefix) =~= Seq::<u8>::empty());
    } else {
        let rest = buf.drop_first();
        vstd::utf8::encode_utf8_first_scalar(buf);
        assert(vstd::utf8::pop_first_scalar(bytes) =~= encode_utf8(rest));
        assert(prefix.drop_first() =~= rest.subrange(0, index - 1));
        assert(prefix[0] == buf[0]);
        prefix_ends_on_boundary(rest, index - 1);
        let first = encode_scalar(buf[0] as u32);
        assert(encode_utf8(prefix) =~= first + encode_utf8(prefix.drop_first()));
        assert(bytes =~= first + encode_utf8(rest));
        assert(first.len() >= 1);
    }
}

/// What the line editor holds: the line, the number of characters before
/// the cursor, the lines typed before, the place in them, and whether the
/// line is masked.
pub struct InputModel {
    pub buf: Seq<char>,
    pub cursor: int,
    pub history: Seq<Seq<char>>,
    pub history_index: int,
    pub password: bool,
}

impl InputModel {
    /// The cursor is in the line, and the place in the history exists.
    pub open spec fn wf(self) -> bool {
        &&& 0 <= self.cursor <= self.buf.len()
        &&& 0 <= self.history_index <= self.history.len()
    }

    /// A character typed at the cursor.
    pub open spec fn key(self, c: char) -> InputModel {
        InputModel { buf: self.buf.insert(self.cursor, c), cursor: self.cursor + 1, ..self }
    }

    /// The character before the cursor taken away, if there is one.
    pub open spec fn backspace(self) -> InputModel {
        if self.cursor > 0 {
            InputModel { buf: self.buf.remove(self.cursor - 1), cursor: self.cursor - 1, ..self }
        } else {
            self
        }
    }

    /// The character at the cursor taken away, if there is one.
    pub open spec fn delete(self) -> InputModel {
        if self.cursor < self.buf.len() {
            InputModel { buf: self.buf.remove(self.cursor), ..self }
        } else {
            self
        }
    }

    /// The cursor at the start of the line.
    pub open spec fn home(self) -> InputModel {
        InputModel { cursor: 0, ..self }
    }

    /// The cursor at the end of the line.
    pub open spec fn end(self) -> InputModel {
        InputModel { cursor: self.buf.len() as int, ..self }
    }

    /// The cursor one character back, unless it is at the start.
    pub open spec fn left(self) -> InputModel {
        if self.cursor > 0 {
            InputModel { cursor: self.cursor - 1, ..self }
        } else {
            self
        }
    }

    /// The cursor one character on, unless it is at the end.
    pub open spec fn right(self) -> InputModel {
        if self.cursor < self.buf.len() {
            InputModel { cursor: self.cursor + 1, ..self }
        } else {
            self
        }
    }

    /// The word before the cursor taken away, with the blanks between it
    /// and the cursor.
    pub open spec fn backward_delete_word(self) -> InputModel {
        let start = word_start(self.buf, self.cursor);
        InputModel { buf: cut(self.buf, start, self.cursor), cursor: start, ..self }
    }

    /// Everything before the cursor taken away.
    pub open spec fn delete_from_cursor_to_start(self) -> InputModel {
        InputModel { buf: self.buf.subrange(self.cursor, self.buf.len() as int), cursor: 0, ..self }
    }

    /// Everything from the cursor on taken away.
    pub open spec fn delete_from_cursor_to_end(self) -> InputModel {
        InputModel { buf: self.buf.subrange(0, self.cursor), ..self }
    }

    /// What is typed from now on is masked.
    pub open spec fn password(self) -> InputModel {
        InputModel { password: true, ..self }
    }

    /// The line handed over: an empty line, not masked. A line that was
    /// neither empty nor masked is kept in the history, and the place in
    /// the history is behind its last line.
    pub open spec fn validate(self) -> InputModel {
        let history = if self.buf.len() > 0 && !self.password {
            self.history.push(self.buf)
        } else {
            self.history
        };
        InputModel {
            buf: Seq::empty(),
            cursor: 0,
            history,
            history_index: history.len() as int,
            password: false,
        }
    }

    /// One line back in the history, if there is an earlier line, with the
    /// cursor at its end.
    pub open spec fn previous(self) -> InputModel {
        if self.history_index > 0 {
            let line = self.history[self.history_index - 1];
            InputModel {
                buf: line,
                cursor: line.len() as int,
                history_index: self.history_index - 1,
                ..self
            }
        } else {
            self
        }
    }

    /// One line on in the history, unless the place is behind its last
    /// line already; behind the last line the line is empty. The cursor
    /// is at the end.
    pub open spec fn next(self) -> InputModel {
        if self.history_index < self.history.len() {
            let line = if self.history_index + 1 < self.history.len() {
                self.history[self.history_index + 1]
            } else {
                Seq::empty()
            };
            InputModel {
                buf: line,
                cursor: line.len() as int,
                history_index: self.history_index + 1,
                ..self
            }
        } else {
            self
        }
    }

    /// A line and a cursor taken as they are given.
    pub open spec fn accept(self, text: Seq<char>, cursor: int) -> InputModel {
        InputModel { buf: text, cursor, ..self }
    }
}

impl View for Input {
    type V = InputModel;

    open spec fn view(&self) -> InputModel {
        InputModel {
            buf: self.buf@,
            cursor: self.cursor.index as int,
            history: texts(self.history@),
            history_index: self.history_index as int,
            password: self.password,
        }
    }
}

impl Input {
    /// The cursor is in the line, and the place in the history exists.
    pub open spec fn wf(&self) -> bool {
        self@.wf()
    }

    /// An empty line, with nothing typed before.
    pub fn new() -> (input: Input)
        ensures
            input.wf(),
            input@ == (InputModel {
                buf: Seq::empty(),
                cursor: 0,
                history: Seq::empty(),
                history_index: 0,
                password: false,
            }),
    {
        let input = Input {
            buf: Vec::new(),
            cursor: Cursor { index: 0 },
            history: Vec::new(),
            history_index: 0,
            password: false,
        };
        proof {
            assert(input@.history =~= Seq::empty());
        }
        input
    }

    /// The line as text.
    pub fn text(&self) -> (s: String)
        ensures
            s@ == self@.buf,
    {
        string_of(&self.buf)
    }

    /// The number of bytes before the cursor, once the line is written as
    /// text. It is a character boundary of that text.
    pub fn cursor_byte(&self) -> (byte: usize)
        requires
            self.wf(),
        ensures
            byte == byte_len(self@.buf.subrange(0, self@.cursor)),
            is_char_boundary(encode_utf8(self@.buf), byte as int),
    {
        let mut prefix: Vec<char> = Vec::new();
        let mut i: usize = 0;
        while i < self.cursor.index
            invariant
                i <= self.cursor.index <= self.buf@.len(),
                prefix@ == self.buf@.subrange(0, i as int),
            decreases self.cursor.index - i,
        {
            prefix.push(self.buf[i]);
            i = i + 1;
            proof {
                assert(prefix@ =~= self.buf@.subrange(0, i as int));
            }
        }
        proof {
            prefix_ends_on_boundary(self.buf@, self.cursor.index as int);
        }
        bytes_in(string_of(&prefix).as_str())
    }

    /// Types a character at the cursor.
    pub fn key(&mut self, c: char)
        requires
            old(self).wf(),
        ensures
            final(self).wf(),
            final(self)@ == old(self)@.key(c),
    {
        self.buf.insert(self.cursor.index, c);
        let longer = self.buf.len();
        assert(self.cursor.index < longer);
        self.cursor.index = self.cursor.index + 1;
    }

    /// Takes away the character before the cursor, if there is one.
    pub fn backspace(&mut self)
        requires
            old(self).wf(),
        ensures
            final(self).wf(),
            final(self)@ == old(self)@.backspace(),
    {
        if self.cursor.index > 0 {
            self.buf.remove(self.cursor.index - 1);
            self.cursor.index = self.cursor.index - 1;
        }
    }

    /// Takes away the character at the cursor, if there is one.
    pub fn delete(&mut self)
        requires
            old(self).wf(),
        ensures
            final(self).wf(),
            final(self)@ == old(self)@.delete(),
    {
        if self.cursor.index < self.buf.len() {
            self.buf.remove(self.cursor.index);
        }
    }

    /// Moves the cursor to the start of the line.
    pub fn home(&mut self)
        requires
            old(self).wf(),
        ensures
            final(self).wf(),
            final(self)@ == old(self)@.home(),
    {
        self.cursor.index = 0;
    }

    /// Moves the cursor to the end of the line.
    pub fn end(&mut self)
        requires
            old(self).wf(),
        ensures
            final(self).wf(),
            final(self)@ == old(self)@.end(),
    {
        self.cursor.index = self.buf.len();
    }

    /// Moves the cursor one character back, unless it is at the start.
    pub fn left(&mut self)
        requires
            old(self).wf(),
        ensures
            final(self).wf(),
            final(self)@ == old(self)@.left(),
    {
        if self.cursor.index > 0 {
            self.cursor.index = self.cursor.index - 1;
        }
    }

    /// Moves the cursor one character on, unless it is at the end.
    pub fn right(&mut self)
        requires
            old(self).wf(),
        ensures
            final(self).wf(),
            final(self)@ == old(self)@.right(),
    {
        if self.cursor.index < self.buf.len() {
            self.cursor.index = self.cursor.index + 1;
        }
    }

    /// Takes away the characters from `from` up to the cursor and leaves
    /// the cursor at `from`.
    fn cut_before_cursor(&mut self, from: usize)
        requires
            old(self).wf(),
            from <= old(self).cursor.index,
        ensures
            final(self).wf(),
            final(self)@ == (InputModel {
                buf: cut(old(self)@.buf, from as int, old(self)@.cursor),
                cursor: from as int,
                ..old(self)@
            }),
    {
        let mut kept: Vec<char> = Vec::new();
        let mut i: usize = 0;
        while i < from
            invariant
                i <= from <= self.buf@.len(),
                kept@ == self.buf@.subrange(0, i as int),
            decreases from - i,
        {
            kept.push(self.buf[i]);
            i = i + 1;
            proof {
                assert(kept@ =~= self.buf@.subrange(0, i as int));
            }
        }
        let mut j: usize = self.cursor.index;
        proof {
            assert(kept@ =~= self.buf@.subrange(0, from as int) + self.buf@.subrange(
                j as int,
                j as int,
            ));
        }
        while j < self.buf.len()
            invariant
                self.cursor.index <= j <= self.buf@.len(),
                from <= self.cursor.index,
                kept@ == self.buf@.subrange(0, from as int) + self.buf@.subrange(
                    self.cursor.index as int,
                    j as int,
                ),
            decreases self.buf.len() - j,
        {
            kept.push(self.buf[j]);
            j = j + 1;
            proof {
                assert(kept@ =~= self.buf@.subrange(0, from as int) + self.buf@.subrange(
                    self.cursor.index as int,
                    j as int,
                ));
            }
        }
        self.buf = kept;
        self.cursor.index = from;
    }

    /// Takes away the word before the cursor, with the blanks between it
    /// and the cursor.
    pub fn backward_delete_word(&mut self)
        requires
            old(self).wf(),
        ensures
            final(self).wf(),
            final(self)@ == old(self)@.backward_delete_word(),
    {
        let mut i: usize = self.cursor.index;
        while i > 0 && blank_at(&self.buf, i - 1)
            invariant
                i <= self.cursor.index <= self.buf@.len(),
                back_over(self.buf@, self.cursor.index as int, true) == back_over(
                    self.buf@,
                    i as int,
                    true,
                ),
            decreases i,
        {
            i = i - 1;
        }
        let ghost mid = i;
        while i > 0 && !blank_at(&self.buf, i - 1)
            invariant
                i <= mid <= self.cursor.index <= self.buf@.len(),
                back_over(self.buf@, mid as int, false) == back_over(self.buf@, i as int, false),
            decreases i,
        {
            i = i - 1;
        }
        self.cut_before_cursor(i);
    }

    /// Takes away everything before the cursor.
    pub fn delete_from_cursor_to_start(&mut self)
        requires
            old(self).wf(),
        ensures
            final(self).wf(),
            final(self)@ == old(self)@.delete_from_cursor_to_start(),
    {
        self.cut_before_cursor(0);
        proof {
            assert(self.buf@ =~= old(self).buf@.subrange(
                old(self).cursor.index as int,
                old(self).buf@.len() as int,
            ));
        }
    }

    /// Takes away everything from the cursor on.
    pub fn delete_from_cursor_to_end(&mut self)
        requires
            old(self).wf(),
        ensures
            final(self).wf(),
            final(self)@ == old(self)@.delete_from_cursor_to_end(),
    {
        self.buf.truncate(self.cursor.index);
    }

    /// Masks what is typed from now on, until the line is validated.
    pub fn password(&mut self)
        requires
            old(self).wf(),
        ensures
            final(self).wf(),
            final(self)@ == old(self)@.password(),
    {
        self.password = true;
    }

    /// Hands the line over, with whether it was typed masked, and starts
    /// an empty one.
    pub fn validate(&mut self) -> (line: (String, bool))
        requires
            old(self).wf(),
        ensures
            final(self).wf(),
            line.0@ == old(self)@.buf,
            line.1 == old(self)@.password,
            final(self)@ == old(self)@.validate(),
    {
        let text = string_of(&self.buf);
        let password = self.password;
        if self.buf.len() > 0 && !password {
            self.history.push(text.clone());
            proof {
                assert(texts(self.history@) =~= texts(old(self).history@).push(old(self).buf@));
            }
        }
        self.buf = Vec::new();
        self.cursor.index = 0;
        self.password = false;
        self.history_index = self.history.len();
        (text, password)
    }

    /// Goes one line back in the history, if there is an earlier line, and
    /// puts the cursor at its end.
    pub fn previous(&mut self)
        requires
            old(self).wf(),
        ensures
            final(self).wf(),
            final(self)@ == old(self)@.previous(),
    {
        if self.history_index > 0 {
            self.history_index = self.history_index - 1;
            self.buf = chars_of(self.history[self.history_index].as_str());
            self.cursor.index = self.buf.len();
        }
    }

    /// Goes one line on in the history, unless the place is behind its
    /// last line already.
    pub fn next(&mut self)
        requires
            old(self).wf(),
        ensures
            final(self).wf(),
            final(self)@ == old(self)@.next(),
    {
        if self.history_index < self.history.len() {
            self.history_index = self.history_index + 1;
            if self.history_index < self.history.len() {
                self.buf = chars_of(self.history[self.history_index].as_str());
            } else {
                self.buf = Vec::new();
            }
            self.cursor.index = self.buf.len();
        }
    }

    /// Takes a line and a cursor as they are given.
    pub fn accept(&mut self, text: &str, cursor: Cursor)
        requires
            old(self).wf(),
            cursor.index <= text@.len(),
        ensures
            final(self).wf(),
            final(self)@ == old(self)@.accept(text@, cursor.index as int),
    {
        self.buf = chars_of(text);
        self.cursor = cursor;
    }
}

impl InputModel {
    /// The editor after an event: a key of the line editor, a completion,
    /// or the announcement of a password. Every other event leaves it as
    /// it is.
    pub open spec fn after(self, event: Event) -> InputModel {
        match event {
            Event::Key(Key::Char(c)) => self.key(c),
            Event::Key(Key::Backspace) => self.backspace(),
            Event::Key(Key::Delete) => self.delete(),
            Event::Key(Key::Home) => self.home(),
            Event::Key(Key::End) => self.end(),
            Event::Key(Key::Up) => self.previous(),
            Event::Key(Key::Down) => self.next(),
            Event::Key(Key::Left) => self.left(),
            Event::Key(Key::Right) => self.right(),
            Event::Key(Key::Ctrl(c)) => if c == 'a' {
                self.home()
            } else if c == 'b' {
                self.left()
            } else if c == 'e' {
                self.end()
            } else if c == 'f' {
                self.right()
            } else if c == 'h' {
                self.backspace()
            } else if c == 'w' {
                self.backward_delete_word()
            } else if c == 'u' {
                self.delete_from_cursor_to_start()
            } else if c == 'k' {
                self.delete_from_cursor_to_end()
            } else {
                self
            },
            Event::Completed(line, cursor) => self.accept(line@, cursor.index as int),
            Event::ReadPassword(_) => self.password(),
            _ => self,
        }
    }
}

impl Input {
    /// Takes an event.
    pub fn event(&mut self, event: &Event)
        requires
            old(self).wf(),
            event.wf(),
        ensures
            final(self).wf(),
            final(self)@ == old(self)@.after(*event),
    {
        match event {
            Event::Key(Key::Char(c)) => self.key(*c),
            Event::Key(Key::Backspace) => self.backspace(),
            Event::Key(Key::Delete) => self.delete(),
            Event::Key(Key::Home) => self.home(),
            Event::Key(Key::End) => self.end(),
            Event::Key(Key::Up) => self.previous(),
            Event::Key(Key::Down) => self.next(),
            Event::Key(Key::Left) => self.left(),
            Event::Key(Key::Right) => self.right(),
            Event::Key(Key::Ctrl(c)) => {
                let c = *c;
                if c == 'a' {
                    self.home()
                } else if c == 'b' {
                    self.left()
                } else if c == 'e' {
                    self.end()
                } else if c == 'f' {
                    self.right()
                } else if c == 'h' {
                    self.backspace()
                } else if c == 'w' {
                    self.backward_delete_word()
                } else if c == 'u' {
                    self.delete_from_cursor_to_start()
                } else if c == 'k' {
                    self.delete_from_cursor_to_end()
                }
            },
            Event::Completed(line, cursor) => self.accept(line.as_str(), *cursor),
            Event::ReadPassword(_) => self.password(),
            _ => {},
        }
    }
}

fn blank_at(buf: &Vec<char>, i: usize) -> (b: bool)
    requires
        i < buf@.len(),
    ensures
        b == is_blank(buf@[i as int]),
{
    let c = buf[i];
    c == ' ' || c == '\t' || c == '\n' || c == '\r'
}

/// The cell of an input line of `w` cells in which the cursor stands: as
/// many cells in as characters stand before it, but not beyond the last
/// cell; the first cell of a masked line.
pub open spec fn cursor_cell(w: u16, input: InputModel) -> int {
    if input.password || w == 0 {
        0
    } else if input.cursor < w {
        input.cursor
    } else {
        w - 1
    }
}

/// The column of the cursor of an input line of `w` cells that starts at
/// column `x`, never beyond what sixteen bits count.
pub open spec fn column(x: u16, w: u16, input: InputModel) -> u16 {
    if x + cursor_cell(w, input) <= u16::MAX {
        (x + cursor_cell(w, input)) as u16
    } else {
        u16::MAX
    }
}

/// What an input line at `(x, y)`, `w` cells wide, sends to the terminal:
/// the row is wiped, the line is written unless it is masked, cut to the
/// cells of the row, and the cursor is put in its place.
pub open spec fn input_frame(x: u16, y: u16, w: u16, input: InputModel) -> Seq<char> {
    line_frame(
        x,
        y,
        w,
        if input.password {
            Seq::empty()
        } else {
            input.buf
        },
    ) + goto_text(column(x, w, input), y)
}

impl Placed<InputModel> {
    /// What drawing the input line sends to the terminal.
    pub open spec fn frame(self) -> Seq<char> {
        input_frame(self.x, self.y, self.rect().w, self.content)
    }
}

impl crate::view::View<Input> {
    /// Draws the input line; the result is what goes to the terminal.
    /// Nothing has to be drawn again afterwards.
    pub fn redraw(&mut self) -> (out: String)
        requires
            old(self).placed(),
            old(self).content.wf(),
        ensures
            final(self)@ == old(self)@.drawn(old(self)@.content),
            final(self).content == old(self).content,
            out@ == old(self)@.frame(),
    {
        let width: u16 = match self.w {
            Some(w) => w,
            None => 0,
        };
        let at = goto(self.x, self.y);
        let mut out = at.clone();
        push_blanks(&mut out, width as usize);
        out.append(at.as_str());
        if !self.content.password {
            out.append(clip(self.content.text().as_str(), width).as_str());
        }
        let cell: u16 = if self.content.password || width == 0 {
            0
        } else if self.content.cursor.index < width as usize {
            self.content.cursor.index as u16
        } else {
            width - 1
        };
        let column: u16 = if cell <= u16::MAX - self.x {
            self.x + cell
        } else {
            u16::MAX
        };
        out.append(goto(column, self.y).as_str());
        self.dirty = false;
        proof {
            assert(clipped(Seq::<char>::empty(), width as int, 0) =~= Seq::<char>::empty());
            assert(out@ =~= old(self)@.frame());
        }
        out
    }

    /// An empty input line: one row high, as wide as its parent, not yet
    /// measured.
    pub fn new() -> (view: Self)
        ensures
            view.width == Dimension::MatchParent,
            view.height == Dimension::Absolute(1),
            view.x == 0 && view.y == 0,
            view.w is None && view.h is None,
            view.dirty && view.visible,
            view.content.wf(),
            view.content@ == (InputModel {
                buf: Seq::empty(),
                cursor: 0,
                history: Seq::empty(),
                history_index: 0,
                password: false,
            }),
    {
        crate::view::View {
            width: Dimension::MatchParent,
            height: Dimension::Absolute(1),
            x: 0,
            y: 0,
            w: None,
            h: None,
            dirty: true,
            visible: true,
            content: Input::new(),
        }
    }
}

} // verus!
