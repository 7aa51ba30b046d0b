//! A window on a backlog: what was received, oldest first, and how many
//! lines the view is scrolled back from the last line.

use crate::message::Message;
use crate::text::texts;
use vstd::prelude::*;
use vstd::string::*;

verus! {

/// The backlog of a window and the place of its view.
pub struct BufferedWin {
    pub history: Vec<Message>,
    /// How many lines the view is scrolled back from the last line.
    pub view: usize,
}

/// What a window on a backlog holds.
pub struct BufferedModel {
    pub history: Seq<Message>,
    pub view: int,
}

/// The lines that the first `k` entries of a backlog take.
pub open spec fn lines_upto(history: Seq<Message>, k: int) -> int
    decreases k,
{
    if k <= 0 {
        0
    } else {
        lines_upto(history, k - 1) + history[k - 1].height()
    }
}

/// How far a view of `rows` rows can be scrolled back over `total` lines:
/// until the first line is at its top, and not further than a machine
/// word counts.
pub open spec fn furthest(total: int, rows: int) -> int {
    if total <= rows {
        0
    } else if total - rows <= usize::MAX {
        total - rows
    } else {
        usize::MAX as int
    }
}

/// How far a page goes in a view of `rows` rows: one row less than the
/// view has, so that one row stays in sight.
pub open spec fn page(rows: int) -> int {
    if rows > 0 {
        rows - 1
    } else {
        0
    }
}

impl BufferedModel {
    /// The lines that the backlog takes.
    pub open spec fn total(self) -> int {
        lines_upto(self.history, self.history.len() as int)
    }

    /// The window with `message` at the end of its backlog. The view stays
    /// where it is.
    pub open spec fn recv(self, message: Message) -> BufferedModel {
        BufferedModel { history: self.history.push(message), ..self }
    }

    /// The window scrolled one page back in a view of `rows` rows, but not
    /// beyond the first line.
    pub open spec fn page_up(self, rows: int) -> BufferedModel {
        let limit = furthest(self.total(), rows);
        BufferedModel {
            view: if self.view + page(rows) <= limit {
                self.view + page(rows)
            } else {
                limit
            },
            ..self
        }
    }

    /// The window scrolled one page on in a view of `rows` rows, but not
    /// beyond the last line.
    pub open spec fn page_down(self, rows: int) -> BufferedModel {
        let limit = furthest(self.total(), rows);
        let down = if self.view > page(rows) {
            self.view - page(rows)
        } else {
            0
        };
        BufferedModel {
            view: if down <= limit {
                down
            } else {
                limit
            },
            ..self
        }
    }
}

/// Whether `shown` shows `entries`, one text for each, at whatever times
/// of day.
pub open spec fn rendered(entries: Seq<Message>, shown: Seq<Seq<char>>) -> bool {
    &&& shown.len() == entries.len()
    &&& forall|i: int| 0 <= i < entries.len() ==> (#[trigger] entries[i]).shown_as(shown[i])
}

impl View for BufferedWin {
    type V = BufferedModel;

    open spec fn view(&self) -> BufferedModel {
        BufferedModel { history: self.history@, view: self.view as int }
    }
}

impl BufferedWin {
    /// An empty backlog.
    pub fn new() -> (win: BufferedWin)
        ensures
            win@ == (BufferedModel { history: Seq::empty(), view: 0 }),
    {
        BufferedWin { history: Vec::new(), view: 0 }
    }

    /// Appends a message to the backlog.
    pub fn recv_message(&mut self, message: &Message)
        ensures
            final(self)@ == old(self)@.recv(*message),
    {
        self.history.push(message.clone());
    }

    /// The entries as the window shows them, each with its time of day on
    /// the clock of this machine.
    pub fn render(&self) -> (shown: Vec<String>)
        ensures
            rendered(self@.history, texts(shown@)),
    {
        let mut shown: Vec<String> = Vec::new();
        let mut i: usize = 0;
        while i < self.history.len()
            invariant
                i <= self.history@.len(),
                shown@.len() == i,
                forall|j: int|
                    0 <= j < i ==> (#[trigger] self.history@[j]).shown_as(texts(shown@)[j]),
            decreases self.history.len() - i,
        {
            let ghost before = shown@;
            shown.push(self.history[i].render());
            proof {
                assert forall|j: int| 0 <= j < i + 1 implies (#[trigger] self.history@[j]).shown_as(
                    texts(shown@)[j],
                ) by {
                    if j < i {
                        assert(texts(shown@)[j] == texts(before)[j]);
                    }
                }
            }
            i = i + 1;
        }
        shown
    }

    /// What rings the bell of the terminal.
    pub fn bell(&self) -> (out: String)
        ensures
            out@ == "\x07"@,
    {
        String::from_str("\x07")
    }

    /// The lines that the backlog takes.
    pub fn lines(&self) -> (n: u128)
        ensures
            n == self@.total(),
    {
        let mut n: u128 = 0;
        let mut i: usize = 0;
        while i < self.history.len()
            invariant
                i <= self.history@.len(),
                n == lines_upto(self.history@, i as int),
                n <= i * usize::MAX,
            decreases self.history.len() - i,
        {
            let rows = self.history[i].rows();
            proof {
                assert(i * usize::MAX + usize::MAX == (i + 1) * usize::MAX) by (nonlinear_arith);
                assert((i + 1) * usize::MAX <= 0xffff_ffff_ffff_ffff * 0xffff_ffff_ffff_ffff)
                    by (nonlinear_arith)
                    requires
                        0 <= i + 1 <= 0xffff_ffff_ffff_ffff,
                        0 <= usize::MAX <= 0xffff_ffff_ffff_ffff,
                ;
            }
            n = n + rows as u128;
            i = i + 1;
        }
        n
    }

    /// How far the view can be scrolled back in a view of `rows` rows.
    fn limit(&self, rows: u16) -> (limit: usize)
        ensures
            limit == furthest(self@.total(), rows as int),
    {
        let total = self.lines();
        if total <= rows as u128 {
            0
        } else if total - rows as u128 <= usize::MAX as u128 {
            (total - rows as u128) as usize
        } else {
            usize::MAX
        }
    }

    /// Scrolls one page back in a view of `rows` rows. Afterwards the
    /// view is not further back than the first line.
    pub fn page_up(&mut self, rows: u16)
        ensures
            final(self)@ == old(self)@.page_up(rows as int),
            0 <= final(self)@.view <= furthest(final(self)@.total(), rows as int),
    {
        let limit = self.limit(rows);
        let step: usize = if rows > 0 {
            (rows - 1) as usize
        } else {
            0
        };
        if self.view >= limit || step >= limit - self.view {
            self.view = limit;
        } else {
            self.view = self.view + step;
        }
    }

    /// Scrolls one page on in a view of `rows` rows. Afterwards the view
    /// is not further back than the first line.
    pub fn page_down(&mut self, rows: u16)
        ensures
            final(self)@ == old(self)@.page_down(rows as int),
            0 <= final(self)@.view <= furthest(final(self)@.total(), rows as int),
    {
        let limit = self.limit(rows);
        let step: usize = if rows > 0 {
            (rows - 1) as usize
        } else {
            0
        };
        let down: usize = if self.view > step {
            self.view - step
        } else {
            0
        };
        self.view = if down <= limit {
            down
        } else {
            limit
        };
    }
}

} // verus!
