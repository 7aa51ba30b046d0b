//! Drawing lines into a rectangle of the screen, one line to a row.
//!
//! Every row of the rectangle is wiped and then written, from the top
//! down, and no line is written beyond the cells of its row: what does
//! not fit is cut off, while the escapes that choose colours stay. A
//! backlog stands on the bottom of its rectangle, so that its last line
//! is in the last row; a list hangs from the top. The cursor is put back
//! where it was.

use crate::layout::Rect;
use crate::message::{lines, lines_of};
use crate::term::{cursor_restore, cursor_save, goto, goto_text};
use crate::text::{blanks, chars_of, push_blanks, string_of, texts};
use vstd::prelude::*;
use vstd::string::*;

verus! {

/// The lines of the first `k` of `shown`, one text after the other.
pub open spec fn lines_in(shown: Seq<Seq<char>>, k: int) -> Seq<Seq<char>>
    decreases k,
{
    if k <= 0 {
        Seq::empty()
    } else {
        lines_in(shown, k - 1) + lines_of(shown[k - 1])
    }
}

/// Where the reading of a line stands after a character: in plain text
/// (0), behind an escape character (1), or inside a control sequence (2),
/// which a character from `@` to `~` ends.
pub open spec fn state_after(state: int, c: char) -> int {
    if state == 1 {
        if c == '[' {
            2
        } else {
            0
        }
    } else if state == 2 {
        if '@' <= c && c <= '~' {
            0
        } else {
            2
        }
    } else if c == '\x1b' {
        1
    } else {
        0
    }
}

/// Whether a character takes a cell of the screen: it stands in plain
/// text and starts no escape.
pub open spec fn takes_cell(state: int, c: char) -> bool {
    state != 1 && state != 2 && c != '\x1b'
}

/// Where the reading of `line` stands after its first `k` characters.
pub open spec fn state_at(line: Seq<char>, k: int) -> int
    decreases k,
{
    if k <= 0 {
        0
    } else {
        state_after(state_at(line, k - 1), line[k - 1])
    }
}

/// The cells that the first `k` characters of `line` take.
pub open spec fn cells(line: Seq<char>, k: int) -> int
    decreases k,
{
    if k <= 0 {
        0
    } else {
        cells(line, k - 1) + if takes_cell(state_at(line, k - 1), line[k - 1]) {
            1int
        } else {
            0int
        }
    }
}

/// The first `k` characters of `line`, cut to `w` cells: what would take
/// a cell beyond them is left out, and every escape stays, so that
/// colours end where they ended.
pub open spec fn clipped(line: Seq<char>, w: int, k: int) -> Seq<char>
    decreases k,
{
    if k <= 0 {
        Seq::empty()
    } else if takes_cell(state_at(line, k - 1), line[k - 1]) && cells(line, k - 1) >= w {
        clipped(line, w, k - 1)
    } else {
        clipped(line, w, k - 1).push(line[k - 1])
    }
}

/// A line that is cut to `w` cells takes no more than `w` cells, and all
/// the cells of the line if those are no more.
pub proof fn clipped_fits(line: Seq<char>, w: int, k: int)
    requires
        0 <= w,
        0 <= k <= line.len(),
    ensures
        state_at(clipped(line, w, k), clipped(line, w, k).len() as int) == state_at(line, k),
        cells(clipped(line, w, k), clipped(line, w, k).len() as int) == if cells(line, k) <= w {
            cells(line, k)
        } else {
            w
        },
        0 <= cells(line, k),
    decreases k,
{
    if k > 0 {
        clipped_fits(line, w, k - 1);
        let head = clipped(line, w, k - 1);
        let c = line[k - 1];
        let state = state_at(line, k - 1);
        if takes_cell(state, c) && cells(line, k - 1) >= w {
        } else {
            let whole = head.push(c);
            same_reading(whole, head, head.len() as int);
            assert(whole[whole.len() - 1] == c);
        }
    }
}

/// What is written into a row of `w` cells stays in the row: the blanks
/// that wipe it take its `w` cells, and a line that is cut to it takes no
/// more.
pub proof fn row_fits(line: Seq<char>, w: nat)
    ensures
        cells(blanks(w), w as int) == w,
        cells(
            clipped(line, w as int, line.len() as int),
            clipped(line, w as int, line.len() as int).len() as int,
        ) <= w,
{
    clipped_fits(line, w as int, line.len() as int);
    blanks_fill(w, w as int);
}

/// Blanks take a cell each.
proof fn blanks_fill(n: nat, k: int)
    requires
        0 <= k <= n,
    ensures
        state_at(blanks(n), k) == 0,
        cells(blanks(n), k) == k,
    decreases k,
{
    if k > 0 {
        blanks_fill(n, k - 1);
        assert(blanks(n)[k - 1] == ' ');
    }
}

/// Two lines that start with the same characters are read alike over
/// them.
proof fn same_reading(a: Seq<char>, b: Seq<char>, k: int)
    requires
        0 <= k <= a.len(),
        k <= b.len(),
        forall|i: int| 0 <= i < k ==> a[i] == b[i],
    ensures
        state_at(a, k) == state_at(b, k),
        cells(a, k) == cells(b, k),
    decreases k,
{
    if k > 0 {
        same_reading(a, b, k - 1);
    }
}

/// `line` cut to `w` cells.
pub fn clip(line: &str, w: u16) -> (cut: String)
    ensures
        cut@ == clipped(line@, w as int, line@.len() as int),
{
    let chars = chars_of(line);
    let mut out: Vec<char> = Vec::new();
    let mut state: u8 = 0;
    let mut used: u16 = 0;
    let mut i: usize = 0;
    while i < chars.len()
        invariant
            i <= chars@.len(),
            chars@ == line@,
            state == state_at(line@, i as int),
            state <= 2,
            used <= w,
            used == if cells(line@, i as int) <= w {
                cells(line@, i as int)
            } else {
                w as int
            },
            0 <= cells(line@, i as int),
            out@ == clipped(line@, w as int, i as int),
        decreases chars.len() - i,
    {
        let c = chars[i];
        let plain = state == 0 && c != '\x1b';
        if plain && used >= w {
        } else {
            out.push(c);
            if plain {
                used = used + 1;
            }
        }
        state = if state == 1 {
            if c == '[' {
                2
            } else {
                0
            }
        } else if state == 2 {
            if '@' <= c && c <= '~' {
                0
            } else {
                2
            }
        } else if c == '\x1b' {
            1
        } else {
            0
        };
        i = i + 1;
    }
    string_of(&out)
}

/// The lines in sight once a view is scrolled `back` lines from the last
/// line: all but the last `back`.
pub open spec fn in_sight(lines: Seq<Seq<char>>, back: int) -> Seq<Seq<char>> {
    if 0 <= back <= lines.len() {
        lines.subrange(0, lines.len() - back)
    } else {
        Seq::empty()
    }
}

/// What row `r` shows of `lines`: the line of that number where the lines
/// hang from the top; where they stand on the bottom of `h` rows, the
/// line that is as far from the last line as the row is from the last
/// row. A row without a line shows nothing.
pub open spec fn line_at(lines: Seq<Seq<char>>, bottom: bool, h: int, r: int) -> Seq<char> {
    let i = if bottom {
        lines.len() - h + r
    } else {
        r
    };
    if 0 <= i < lines.len() {
        lines[i]
    } else {
        Seq::empty()
    }
}

/// What wipes the `w` cells of a row from column `x` on and writes a text
/// over them.
pub open spec fn row_frame(x: u16, y: u16, w: u16, text: Seq<char>) -> Seq<char> {
    goto_text(x, y) + blanks(w as nat) + goto_text(x, y) + text
}

/// What wipes the `w` cells of a row from column `x` on and writes a
/// line over them, cut to these cells.
pub open spec fn line_frame(x: u16, y: u16, w: u16, line: Seq<char>) -> Seq<char> {
    row_frame(x, y, w, clipped(line, w as int, line.len() as int))
}

/// What draws the first `k` rows of a rectangle.
pub open spec fn rows_frame(rect: Rect, lines: Seq<Seq<char>>, bottom: bool, k: int) -> Seq<char>
    decreases k,
{
    if k <= 0 {
        Seq::empty()
    } else {
        rows_frame(rect, lines, bottom, k - 1) + line_frame(
            rect.x,
            (rect.y + k - 1) as u16,
            rect.w,
            line_at(lines, bottom, rect.h as int, k - 1),
        )
    }
}

/// What draws `lines` into a rectangle: the cursor is saved, the rows are
/// drawn from the top down, and the cursor is put back.
pub open spec fn paint_frame(rect: Rect, lines: Seq<Seq<char>>, bottom: bool) -> Seq<char> {
    "\x1b[s"@ + rows_frame(rect, lines, bottom, rect.h as int) + "\x1b[u"@
}

/// Whether a rectangle can be drawn into: it lies on the screen, whose
/// cells are counted from one in sixteen bits.
pub open spec fn on_screen(rect: Rect) -> bool {
    &&& rect.x >= 1
    &&& rect.y >= 1
    &&& rect.x + rect.w <= u16::MAX
    &&& rect.y + rect.h <= u16::MAX
}

/// The number of characters of the longest of the first `k` of `labels`,
/// as far as sixteen bits count.
pub open spec fn width_of(labels: Seq<Seq<char>>, k: int) -> int
    decreases k,
{
    if k <= 0 {
        0
    } else {
        let rest = width_of(labels, k - 1);
        let own = if labels[k - 1].len() <= u16::MAX {
            labels[k - 1].len() as int
        } else {
            u16::MAX as int
        };
        if own > rest {
            own
        } else {
            rest
        }
    }
}

/// The number of characters of the longest of `labels`, as far as
/// sixteen bits count.
pub fn widest(labels: &Vec<String>) -> (width: u16)
    ensures
        width == width_of(texts(labels@), labels@.len() as int),
{
    let mut width: u16 = 0;
    let mut i: usize = 0;
    while i < labels.len()
        invariant
            i <= labels@.len(),
            width == width_of(texts(labels@), i as int),
        decreases labels.len() - i,
    {
        let len = labels[i].as_str().unicode_len();
        proof {
            assert(texts(labels@)[i as int] == labels@[i as int]@);
        }
        let own: u16 = if len <= u16::MAX as usize {
            len as u16
        } else {
            u16::MAX
        };
        if own > width {
            width = own;
        }
        i = i + 1;
    }
    width
}

/// The lines of all of `shown`, one text after the other.
pub fn split(shown: &Vec<String>) -> (all: Vec<String>)
    ensures
        texts(all@) == lines_in(texts(shown@), shown@.len() as int),
{
    let mut all: Vec<String> = Vec::new();
    let mut i: usize = 0;
    proof {
        assert(texts(all@) =~= lines_in(texts(shown@), 0));
    }
    while i < shown.len()
        invariant
            i <= shown@.len(),
            texts(all@) == lines_in(texts(shown@), i as int),
        decreases shown.len() - i,
    {
        let mut more = lines(shown[i].as_str());
        let ghost before = all@;
        let ghost added = more@;
        all.append(&mut more);
        proof {
            assert(texts(shown@)[i as int] == shown@[i as int]@);
            assert(texts(all@) =~= texts(before) + texts(added));
        }
        i = i + 1;
    }
    all
}

/// Draws `lines` into a rectangle; the result is what goes to the
/// terminal.
pub fn paint(rect: Rect, lines: &Vec<String>, bottom: bool) -> (out: String)
    requires
        on_screen(rect),
    ensures
        out@ == paint_frame(rect, texts(lines@), bottom),
{
    let mut out = cursor_save();
    let ghost head = out@;
    let mut r: u16 = 0;
    proof {
        assert(out@ =~= head + rows_frame(rect, texts(lines@), bottom, 0));
    }
    while r < rect.h
        invariant
            r <= rect.h,
            on_screen(rect),
            head == "\x1b[s"@,
            out@ == head + rows_frame(rect, texts(lines@), bottom, r as int),
        decreases rect.h - r,
    {
        let at = goto(rect.x, rect.y + r);
        let ghost before = out@;
        out.append(at.as_str());
        push_blanks(&mut out, rect.w as usize);
        out.append(at.as_str());
        let ghost mut text = Seq::<char>::empty();
        let skipped: usize = if bottom && lines.len() < rect.h as usize {
            rect.h as usize - lines.len()
        } else {
            0
        };
        let first: usize = if bottom && lines.len() > rect.h as usize {
            lines.len() - rect.h as usize
        } else {
            0
        };
        if r as usize >= skipped && r as usize - skipped < lines.len() - first {
            let i = first + (r as usize - skipped);
            out.append(clip(lines[i].as_str(), rect.w).as_str());
            proof {
                text = lines@[i as int]@;
                assert(texts(lines@)[i as int] == text);
            }
        }
        proof {
            assert(text == line_at(texts(lines@), bottom, rect.h as int, r as int));
            assert(clipped(Seq::<char>::empty(), rect.w as int, 0) =~= Seq::<char>::empty());
            assert(out@ =~= before + line_frame(rect.x, (rect.y + r) as u16, rect.w, text));
        }
        r = r + 1;
    }
    out.append(cursor_restore().as_str());
    out
}

} // verus!
