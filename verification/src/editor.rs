//! The editing model: a buffer of lines, a cursor on the screen, and the
//! horizontal and vertical scrolling that maps the screen onto the buffer.

use vstd::prelude::*;
use crate::input::Command;
use crate::text::{
    escape_debug_text, escaped_debug, grapheme_clusters, grapheme_count, grapheme_getindex,
    grapheme_length, grapheme_start, graphemes_of, insert_char, lemma_grapheme_prefix,
    remove_char, split_string, pick_cluster, concat_first, decimal, push_decimal,
    segmentation_sound, lemma_clusters_prefix,
};

verus! {

/// Rows that the header takes above the editing area.
pub const HEADER_HEIGHT: u16 = 3;

#[derive(Clone, Copy, PartialEq, Eq, Structural, Debug)]
pub enum Direction {
    Up,
    Down,
    Left,
    Right,
}

/// What part of the screen an operation leaves out of date.
#[derive(Clone, Copy, PartialEq, Eq, Structural, Debug)]
pub enum Redraw {
    /// Nothing changed.
    Nothing,
    /// One screen row of the editing area.
    Row(usize),
    /// Two rows: the one the cursor left, then the one it is on.
    Rows(usize, usize),
    /// The given row and every row below it.
    Below(usize),
    /// The whole editing area.
    Screen,
    /// The first rows of the editing area, this many.
    Top(usize),
}

pub struct Editor {
    /// (column, row) of the cursor in the editing area.
    pub cursor: (usize, usize),
    /// Width of the editing area.
    pub width: usize,
    /// Height of the editing area (the screen without header and status line).
    pub height: usize,
    /// The buffer, one string per line.
    pub content: Vec<String>,
    /// Horizontal offset of the active line, in grapheme clusters.
    pub local_hor_offset: usize,
    /// Horizontal offset of the whole area (kept at zero).
    pub _hor_offset: usize,
    /// Index of the buffer line shown in the first row.
    pub ver_offset: usize,
}

/// The lines of a buffer as char sequences.
pub open spec fn lines_of(content: Seq<String>) -> Seq<Seq<char>> {
    content.map_values(|s: String| s@)
}

/// Where a cursor move lands, before the column is held to the line's end:
/// (column, row, horizontal offset, vertical offset).
/// `lines` is the number of buffer lines, `active_len` the grapheme count of
/// the active line.
pub open spec fn move_target(
    dir: Direction,
    x: int,
    y: int,
    h: int,
    v: int,
    width: int,
    height: int,
    lines: int,
    active_len: int,
) -> (int, int, int, int) {
    match dir {
        Direction::Up => if y > 0 {
            (x, y - 1, 0, v)
        } else if v > 0 {
            (x, y, 0, v - 1)
        } else {
            (x, y, 0, v)
        },
        Direction::Down => if y + 1 < height && y + v + 1 < lines {
            (x, y + 1, 0, v)
        } else if v + y + 1 < lines {
            (x, y, 0, v + 1)
        } else {
            (x, y, 0, v)
        },
        Direction::Left => if x > 0 {
            (x - 1, y, h, v)
        } else if h > 0 {
            (x, y, h - 1, v)
        } else {
            (x, y, h, v)
        },
        Direction::Right => if x + 1 < width && x < active_len {
            (x + 1, y, h, v)
        } else if x + h < active_len {
            (x, y, h + 1, v)
        } else {
            (x, y, h, v)
        },
    }
}

/// A line as the editing area shows it when it is drawn whole: cut after
/// `h + width` clusters when it has more than `width` clusters.
pub open spec fn clipped(s: Seq<char>, h: int, width: int) -> Seq<char> {
    if grapheme_count(s) > width {
        s.take(grapheme_start(s, h + width))
    } else {
        s
    }
}

impl Editor {
    /// The buffer lines as char sequences.
    pub open spec fn lines(&self) -> Seq<Seq<char>> {
        lines_of(self.content@)
    }

    /// Column of the cursor in the editing area.
    pub open spec fn col(&self) -> int {
        self.cursor.0 as int
    }

    /// Row of the cursor in the editing area.
    pub open spec fn row(&self) -> int {
        self.cursor.1 as int
    }

    pub open spec fn area_width(&self) -> int {
        self.width as int
    }

    pub open spec fn area_height(&self) -> int {
        self.height as int
    }

    pub open spec fn h_offset(&self) -> int {
        self.local_hor_offset as int
    }

    pub open spec fn v_offset(&self) -> int {
        self.ver_offset as int
    }

    pub open spec fn spare_offset(&self) -> int {
        self._hor_offset as int
    }

    /// Index of the buffer line that holds the cursor.
    pub open spec fn active(&self) -> int {
        self.row() + self.v_offset()
    }

    /// The line that holds the cursor.
    pub open spec fn active_line(&self) -> Seq<char> {
        self.lines()[self.active()]
    }

    /// The cursor is on a line of the buffer, and its column plus the
    /// horizontal offset (which the status line reads after every command)
    /// is a machine number.
    pub open spec fn wf(&self) -> bool {
        &&& 0 <= self.active() < self.lines().len()
        &&& self.col() + self.h_offset() <= usize::MAX
    }

    /// Width, height and the spare offset are the same in both.
    pub open spec fn same_frame(&self, other: &Editor) -> bool {
        &&& self.area_width() == other.area_width()
        &&& self.area_height() == other.area_height()
        &&& self.spare_offset() == other.spare_offset()
    }

    pub fn new(width: usize, height: usize, content: Vec<String>) -> (r: Self)
        requires
            height >= HEADER_HEIGHT + 1,
        ensures
            r.col() == 0,
            r.row() == 0,
            r.area_width() == width,
            r.area_height() == height - HEADER_HEIGHT - 1,
            r.lines() == lines_of(content@),
            r.h_offset() == 0,
            r.v_offset() == 0,
            r.spare_offset() == 0,
            r.wf() <==> content@.len() > 0,
    {
        Editor {
            cursor: (0, 0),
            width,
            height: height - HEADER_HEIGHT as usize - 1,
            content,
            local_hor_offset: 0,
            _hor_offset: 0,
            ver_offset: 0,
        }
    }

    proof fn lemma_len_fits(&self)
        ensures
            self.lines().len() <= usize::MAX,
            self.lines().len() == self.content@.len(),
    {
        assert(self.content@.len() == self.content.len());
    }

    /// (width, height) of the editing area.
    pub fn area_size(&self) -> (r: (usize, usize))
        ensures
            r.0 == self.area_width(),
            r.1 == self.area_height(),
    {
        (self.width, self.height)
    }

    fn active_line_index(&self) -> (r: usize)
        requires
            self.active() <= usize::MAX,
        ensures
            r == self.active(),
    {
        self.cursor.1 + self.ver_offset
    }
}

impl Editor {
    /// Column, row and both offsets are the same in both.
    pub open spec fn same_view(&self, other: &Editor) -> bool {
        &&& self.col() == other.col()
        &&& self.row() == other.row()
        &&& self.h_offset() == other.h_offset()
        &&& self.v_offset() == other.v_offset()
    }

    /// Index of the grapheme cluster under the cursor in the active line.
    pub open spec fn cursor_cluster(&self) -> int {
        self.col() + self.h_offset()
    }

    /// `write_char` does not run out of machine numbers.
    pub open spec fn can_write(&self) -> bool {
        self.cursor_cluster() < usize::MAX
    }

    /// `next` and `r` are what `write_char(c)` leaves and returns: `c` is put
    /// in the active line where the cluster under the cursor starts, and the
    /// cursor moves one column right.
    pub open spec fn wrote(&self, next: &Editor, c: char, r: Redraw) -> bool {
        let line = self.active_line();
        let p = grapheme_start(line, self.cursor_cluster());
        &&& 0 <= p <= line.len()
        &&& next.lines() == self.lines().update(self.active(), line.insert(p, c))
        &&& next.col() == self.col() + 1
        &&& next.row() == self.row()
        &&& next.h_offset() == self.h_offset()
        &&& next.v_offset() == self.v_offset()
        &&& r == Redraw::Row(self.row() as usize)
    }

    /// `delete_char` finds a char to remove: when the cursor is not in the
    /// first column, the cluster before it exists.
    pub open spec fn can_delete(&self) -> bool {
        self.col() > 0 ==> self.cursor_cluster() - 1 < grapheme_count(self.active_line())
    }

    /// `next` and `r` are what `delete_char` leaves and returns.
    pub open spec fn deleted(&self, next: &Editor, r: Redraw) -> bool {
        let a = self.active();
        if self.col() == 0 && a == 0 {
            // at the start of the buffer
            &&& *next == *self
            &&& r == Redraw::Nothing
        } else if self.col() == 0 {
            // the active line is joined to the end of the one above
            let prev = self.lines()[a - 1];
            &&& next.lines() == self.lines().update(a - 1, prev + self.lines()[a]).remove(a)
            &&& next.col() == grapheme_count(prev)
            &&& next.h_offset() == 0
            &&& next.active() == a - 1
            &&& if self.row() == 0 {
                &&& next.row() == 0
                &&& next.v_offset() == self.v_offset() - 1
                &&& r == Redraw::Screen
            } else {
                &&& next.row() == self.row() - 1
                &&& next.v_offset() == self.v_offset()
                &&& r == Redraw::Below((self.row() - 1) as usize)
            }
        } else {
            // the char where the cluster before the cursor starts goes
            let line = self.active_line();
            let p = grapheme_start(line, self.cursor_cluster() - 1);
            &&& 0 <= p < line.len()
            &&& next.lines() == self.lines().update(a, line.remove(p))
            &&& next.col() == self.col() - 1
            &&& next.row() == self.row()
            &&& next.h_offset() == self.h_offset()
            &&& next.v_offset() == self.v_offset()
            &&& r == Redraw::Row(self.row() as usize)
        }
    }

    /// `insert_newline` has a row to move the cursor to.
    pub open spec fn can_break(&self) -> bool {
        self.area_height() > 0
    }

    /// `next` and `r` are what `insert_newline` leaves and returns: the
    /// active line is cut where the cluster under the cursor starts, its rest
    /// becomes the next line, and the cursor goes to the start of that line,
    /// one row down or, on the last row, with the buffer scrolled one line.
    pub open spec fn broke_line(&self, next: &Editor, r: Redraw) -> bool {
        let line = self.active_line();
        let a = self.active();
        let p = grapheme_start(line, self.cursor_cluster());
        &&& 0 <= p <= line.len()
        &&& next.lines() == self.lines().update(a, line.take(p)).insert(a + 1, line.skip(p))
        &&& next.col() == 0
        &&& next.h_offset() == 0
        &&& if self.row() + 1 >= self.area_height() {
            &&& next.row() == self.area_height() - 1
            &&& next.v_offset() == self.v_offset() + 1
        } else {
            &&& next.row() == self.row() + 1
            &&& next.v_offset() == self.v_offset()
        }
        &&& r == Redraw::Screen
    }

    /// `hor_scroll(dir)` can shift right: the offset is not yet at the end of
    /// the active line, and column plus offset stays a machine number.
    pub open spec fn can_scroll(&self, dir: Direction) -> bool {
        dir == Direction::Right ==> {
            &&& self.h_offset() < grapheme_count(self.active_line())
            &&& self.cursor_cluster() < usize::MAX
        }
    }

    /// `next` and `r` are what `hor_scroll(dir)` leaves and returns.
    pub open spec fn scrolled(&self, next: &Editor, dir: Direction, r: Redraw) -> bool {
        &&& next.lines() == self.lines()
        &&& next.row() == self.row()
        &&& next.v_offset() == self.v_offset()
        &&& r == Redraw::Row(self.row() as usize)
        &&& match dir {
            Direction::Left => {
                &&& next.col() == self.col()
                &&& next.h_offset() == if self.h_offset() > 0 {
                    self.h_offset() - 1
                } else {
                    0
                }
            },
            Direction::Right => {
                let len = grapheme_count(self.active_line());
                let h = self.h_offset() + 1;
                &&& next.h_offset() == h
                &&& next.col() == if h + self.col() >= len {
                    len - h
                } else {
                    self.col()
                }
            },
            _ => {
                &&& next.col() == self.col()
                &&& next.h_offset() == self.h_offset()
            },
        }
    }

    /// Where `move_cursor(dir)` takes column, row and offsets before the
    /// column is held to the end of the line.
    pub open spec fn target(&self, dir: Direction) -> (int, int, int, int) {
        move_target(
            dir,
            self.col(),
            self.row(),
            self.h_offset(),
            self.v_offset(),
            self.area_width(),
            self.area_height(),
            self.lines().len() as int,
            grapheme_count(self.active_line()),
        )
    }

    /// `move_cursor(dir)` can hold the column to the end of the line it lands
    /// on (the offset is not past that end), and its sums stay machine numbers.
    pub open spec fn can_move(&self, dir: Direction) -> bool {
        let t = self.target(dir);
        &&& t.0 + t.2 <= usize::MAX
        &&& t.2 <= grapheme_count(self.lines()[t.1 + t.3])
        &&& dir == Direction::Right ==> self.col() < usize::MAX
    }

    /// `next` and `r` are what `move_cursor(dir)` leaves and returns.
    pub open spec fn moved(&self, next: &Editor, dir: Direction, r: Redraw) -> bool {
        let t = self.target(dir);
        let len = grapheme_count(self.lines()[t.1 + t.3]);
        &&& next.lines() == self.lines()
        &&& next.row() == t.1
        &&& next.h_offset() == t.2
        &&& next.v_offset() == t.3
        &&& next.col() == if t.0 + t.2 > len {
            len - t.2
        } else {
            t.0
        }
        &&& r == if t.3 != self.v_offset() {
            Redraw::Screen
        } else if dir == Direction::Up || dir == Direction::Down {
            Redraw::Rows(self.row() as usize, t.1 as usize)
        } else {
            Redraw::Row(t.1 as usize)
        }
    }
}

impl Editor {
    /// Puts `char` where the cursor is: before the grapheme cluster at column
    /// plus horizontal offset of the active line (at its end when the line is
    /// shorter), and moves the cursor one column right.
    pub fn write_char(&mut self, char: char) -> (r: Redraw)
        requires
            old(self).wf(),
            old(self).can_write(),
        ensures
            final(self).wf(),
            final(self).same_frame(old(self)),
            old(self).wrote(final(self), char, r),
    {
        proof {
            self.lemma_len_fits();
        }
        let a = self.cursor.1 + self.ver_offset;
        let mut line = self.content[a].clone();
        let byte_index = grapheme_getindex(line.as_str(), self.cursor.0 + self.local_hor_offset);
        proof {
            lemma_grapheme_prefix(line@, self.cursor.0 + self.local_hor_offset);
        }
        insert_char(&mut line, byte_index, char);
        self.content.set(a, line);
        self.cursor.0 += 1;
        proof {
            assert(lines_of(self.content@) =~= lines_of(old(self).content@).update(a as int, line@));
        }
        Redraw::Row(self.cursor.1)
    }

    /// Backspace. At the start of the buffer nothing happens. At the start of
    /// a line, that line is joined to the end of the one above it, and the
    /// cursor goes to where the joint is (scrolling up one line when the
    /// cursor was on the first row). Elsewhere the char where the grapheme
    /// cluster before the cursor starts is removed.
    pub fn delete_char(&mut self) -> (r: Redraw)
        requires
            old(self).wf(),
            old(self).can_delete(),
        ensures
            final(self).wf(),
            final(self).same_frame(old(self)),
            old(self).deleted(final(self), r),
    {
        proof {
            self.lemma_len_fits();
        }
        if self.cursor.0 == 0 && self.cursor.1 + self.ver_offset == 0 {
            return Redraw::Nothing;
        }
        let mut scrolled = false;
        if self.cursor.0 == 0 && self.cursor.1 == 0 {
            self.ver_offset -= 1;
            self.cursor.1 += 1;
            scrolled = true;
        }
        if self.cursor.0 == 0 {
            let a = self.cursor.1 + self.ver_offset;
            let prev_line_len = grapheme_length(self.content[a - 1].as_str());
            let current_line = self.content.remove(a);
            let mut prev = self.content[a - 1].clone();
            prev.append(current_line.as_str());
            self.content.set(a - 1, prev);
            self.cursor.0 = prev_line_len;
            self.local_hor_offset = 0;
            self.cursor.1 -= 1;
            proof {
                let old_lines = lines_of(old(self).content@);
                assert(lines_of(self.content@) =~= old_lines.update(
                    a - 1,
                    old_lines[a - 1] + old_lines[a as int],
                ).remove(a as int));
            }
            if scrolled {
                Redraw::Screen
            } else {
                Redraw::Below(self.cursor.1)
            }
        } else {
            let a = self.cursor.1 + self.ver_offset;
            let mut line = self.content[a].clone();
            let k = self.cursor.0 + self.local_hor_offset - 1;
            let byte_index = grapheme_getindex(line.as_str(), k);
            proof {
                lemma_grapheme_prefix(line@, k as int);
            }
            remove_char(&mut line, byte_index);
            self.content.set(a, line);
            self.cursor.0 -= 1;
            proof {
                assert(lines_of(self.content@) =~= lines_of(old(self).content@).update(
                    a as int,
                    line@,
                ));
            }
            Redraw::Row(self.cursor.1)
        }
    }
}

impl Editor {
    /// Enter: the active line is cut where the cursor is (before the
    /// grapheme cluster at column plus horizontal offset), its rest becomes a
    /// new line below it, and the cursor goes to the start of that new line,
    /// scrolling one line when it would leave the editing area.
    pub fn insert_newline(&mut self) -> (r: Redraw)
        requires
            old(self).wf(),
            old(self).can_break(),
        ensures
            final(self).wf(),
            final(self).same_frame(old(self)),
            old(self).broke_line(final(self), r),
    {
        proof {
            self.lemma_len_fits();
        }
        let a = self.cursor.1 + self.ver_offset;
        let mut line = self.content[a].clone();
        let k = self.cursor.0 + self.local_hor_offset;
        let byte_index = grapheme_getindex(line.as_str(), k);
        proof {
            lemma_grapheme_prefix(line@, k as int);
        }
        let new_line = split_string(&mut line, byte_index);
        self.content.set(a, line);
        self.content.insert(a + 1, new_line);
        self.local_hor_offset = 0;
        self.cursor.1 += 1;
        self.cursor.0 = 0;
        if self.cursor.1 >= self.height {
            self.cursor.1 = self.height - 1;
            self.ver_offset += 1;
        }
        proof {
            let old_lines = lines_of(old(self).content@);
            let p = grapheme_start(old_lines[a as int], k as int);
            assert(lines_of(self.content@) =~= old_lines.update(
                a as int,
                old_lines[a as int].take(p),
            ).insert(a + 1, old_lines[a as int].skip(p)));
        }
        Redraw::Screen
    }

    /// Shifts the view of the active line one grapheme cluster left or right
    /// (up and down leave it as it is). Shifting right keeps the cursor from
    /// going past the end of the line.
    pub fn hor_scroll(&mut self, direction: Direction) -> (r: Redraw)
        requires
            old(self).wf(),
            old(self).can_scroll(direction),
        ensures
            final(self).wf(),
            final(self).same_frame(old(self)),
            old(self).scrolled(final(self), direction, r),
            direction == Direction::Right ==> final(self).col() + final(self).h_offset()
                <= grapheme_count(final(self).active_line()),
    {
        proof {
            self.lemma_len_fits();
        }
        match direction {
            Direction::Left => {
                if self.local_hor_offset > 0 {
                    self.local_hor_offset -= 1;
                }
            },
            Direction::Right => {
                let a = self.cursor.1 + self.ver_offset;
                let len = grapheme_length(self.content[a].as_str());
                self.local_hor_offset += 1;
                if self.local_hor_offset + self.cursor.0 >= len {
                    self.cursor.0 = len - self.local_hor_offset;
                }
            },
            _ => {},
        }
        Redraw::Row(self.cursor.1)
    }

    /// Moves the cursor one step. Up and down reset the horizontal offset
    /// and scroll the buffer at the top and bottom of the editing area; left
    /// and right move within the line, shifting its view at the edges. The
    /// column is then held to the end of the line the cursor is on.
    pub fn move_cursor(&mut self, direction: Direction) -> (r: Redraw)
        requires
            old(self).wf(),
            old(self).can_move(direction),
        ensures
            final(self).wf(),
            final(self).same_frame(old(self)),
            old(self).moved(final(self), direction, r),
            final(self).col() + final(self).h_offset() <= grapheme_count(final(self).active_line()),
    {
        proof {
            self.lemma_len_fits();
        }
        let old_row = self.cursor.1;
        let vertical = direction == Direction::Up || direction == Direction::Down;
        if vertical {
            self.local_hor_offset = 0;
        }
        let orig_ver_offset = self.ver_offset;
        match direction {
            Direction::Up => {
                if self.cursor.1 > 0 {
                    self.cursor.1 -= 1;
                } else if self.ver_offset > 0 {
                    self.ver_offset -= 1;
                }
            },
            Direction::Down => {
                if self.cursor.1 + 1 < self.height && self.cursor.1 + self.ver_offset + 1
                    < self.content.len() {
                    self.cursor.1 += 1;
                } else if self.ver_offset + self.cursor.1 + 1 < self.content.len() {
                    self.ver_offset += 1;
                }
            },
            Direction::Left => {
                if self.cursor.0 > 0 {
                    self.cursor.0 -= 1;
                } else if self.local_hor_offset > 0 {
                    self.local_hor_offset -= 1;
                }
            },
            Direction::Right => {
                let len = grapheme_length(self.content[self.cursor.1 + self.ver_offset].as_str());
                if self.cursor.0 + 1 < self.width && self.cursor.0 < len {
                    self.cursor.0 += 1;
                } else if self.cursor.0 + self.local_hor_offset < len {
                    self.local_hor_offset += 1;
                }
            },
        }
        let len = grapheme_length(self.content[self.cursor.1 + self.ver_offset].as_str());
        if self.cursor.0 + self.local_hor_offset > len {
            self.cursor.0 = len - self.local_hor_offset;
        }
        if orig_ver_offset != self.ver_offset {
            Redraw::Screen
        } else if vertical {
            Redraw::Rows(old_row, self.cursor.1)
        } else {
            Redraw::Row(self.cursor.1)
        }
    }
}

/// The cluster under the cursor as `read_state` reports it, before escaping:
/// cluster `k` of `s`, or a NUL char when there is none.
pub open spec fn cluster_or_nul(s: Seq<char>, k: int) -> Seq<char> {
    if 0 <= k < grapheme_count(s) {
        graphemes_of(s)[k]
    } else {
        seq!['\0']
    }
}

/// The part of a line that one row of the editing area shows: from cluster
/// `h` on, at most `width` clusters.
pub open spec fn shown_part(s: Seq<char>, h: int, width: int) -> Seq<char> {
    let rest = s.skip(grapheme_start(s, h));
    let n = if width < grapheme_count(rest) {
        width
    } else {
        grapheme_count(rest)
    };
    graphemes_of(rest).take(n).flatten()
}

/// A line cut after `h + width` clusters when it has more than `width` clusters.
fn clip_line(line: &String, h: usize, width: usize) -> (r: String)
    requires
        grapheme_count(line@) > width ==> h + width <= usize::MAX,
    ensures
        r@ == clipped(line@, h as int, width as int),
{
    let mut head = line.clone();
    if grapheme_length(line.as_str()) > width {
        let idx = grapheme_getindex(line.as_str(), h + width);
        split_string(&mut head, idx);
    }
    head
}

impl Editor {
    /// (active line, column, row, horizontal offset, vertical offset, and the
    /// escaped text of the grapheme cluster under the cursor, `\0` past the
    /// end of the line).
    pub fn read_state(&self) -> (r: (usize, usize, usize, usize, usize, String))
        requires
            self.wf(),
        ensures
            r.0 == self.active(),
            r.1 == self.col(),
            r.2 == self.row(),
            r.3 == self.h_offset(),
            r.4 == self.v_offset(),
            r.5@ == escaped_debug(
                cluster_or_nul(self.active_line(), self.col() + self.h_offset()),
            ),
    {
        proof {
            self.lemma_len_fits();
        }
        let active_line = self.active_line_index();
        let hor_offset = self.local_hor_offset;
        let ver_offset = self.ver_offset;
        let clusters = grapheme_clusters(self.content[active_line].as_str());
        let k = self.cursor.0 + hor_offset;
        proof {
            if k < clusters.len() {
                assert(clusters@.map_values(|g: String| g@)[k as int] == clusters@[k as int]@);
            }
        }
        let cur_char_repr = escape_debug_text(pick_cluster(&clusters, k));
        (active_line, self.cursor.0, self.cursor.1, hor_offset, ver_offset, cur_char_repr)
    }

    /// Replaces the buffer; the cursor and offsets stay as they are.
    pub fn set_content(&mut self, content: Vec<String>) -> (r: Redraw)
        ensures
            final(self).lines() == lines_of(content@),
            final(self).same_frame(old(self)),
            final(self).col() == old(self).col(),
            final(self).row() == old(self).row(),
            final(self).h_offset() == old(self).h_offset(),
            final(self).v_offset() == old(self).v_offset(),
            r == Redraw::Top(
                if content@.len() < old(self).area_height() {
                    content@.len() as usize
                } else {
                    old(self).area_height() as usize
                },
            ),
    {
        self.content = content;
        let n = if self.content.len() < self.height {
            self.content.len()
        } else {
            self.height
        };
        Redraw::Top(n)
    }

    /// The text that row `index` of the editing area shows: the buffer line
    /// there, from the horizontal offset on, at most the area's width in
    /// grapheme clusters.
    pub fn display_line(&self, index: usize) -> (r: String)
        requires
            index + self.v_offset() < self.lines().len(),
        ensures
            r@ == shown_part(
                self.lines()[index + self.v_offset()],
                self.h_offset(),
                self.area_width(),
            ),
            ({
                let line = self.lines()[index + self.v_offset()];
                let rest = line.skip(grapheme_start(line, self.h_offset()));
                &&& segmentation_sound(line)
                &&& segmentation_sound(rest)
                &&& r@.len() <= rest.len()
                &&& r@ == rest.take(r@.len() as int)
            }),
    {
        proof {
            self.lemma_len_fits();
        }
        let line = &self.content[index + self.ver_offset];
        let offset_bytes = grapheme_getindex(line.as_str(), self.local_hor_offset);
        proof {
            lemma_grapheme_prefix(line@, self.local_hor_offset as int);
        }
        let mut head = line.clone();
        let rest = split_string(&mut head, offset_bytes);
        let clusters = grapheme_clusters(rest.as_str());
        proof {
            let g = graphemes_of(rest@);
            assert forall|i: int| 0 <= i < g.len() implies #[trigger] g[i].len() > 0 by {
                assert(g[i] == clusters@[i]@);
            }
            let n = if self.width < clusters@.len() {
                self.width as int
            } else {
                clusters@.len() as int
            };
            lemma_clusters_prefix(rest@, n);
        }
        concat_first(&clusters, self.width)
    }

    /// How many rows `lines_from(row)` fills: the rows left below `row`, or
    /// the buffer lines left, whichever is fewer.
    pub open spec fn rows_from(&self, row: int) -> int {
        let left = self.lines().len() - (row + self.v_offset());
        if self.area_height() - row < left {
            self.area_height() - row
        } else {
            left
        }
    }

    /// `lines_from(row)` has rows and lines to start from, and cutting each
    /// line it shows stays within machine numbers (offset plus width is only
    /// computed for lines wider than the area).
    pub open spec fn can_show_from(&self, row: int) -> bool {
        &&& 0 <= row <= self.area_height()
        &&& row + self.v_offset() <= self.lines().len()
        &&& self.h_offset() + self.area_width() > usize::MAX ==> forall|i: int|
            0 <= i < self.rows_from(row) ==> #[trigger] grapheme_count(
                self.lines()[row + self.v_offset() + i],
            ) <= self.area_width()
    }

    /// The lines that the rows of the editing area show from `row` down, each
    /// cut after horizontal offset plus width clusters when it is wider than
    /// the area (as they are drawn after a scroll or a join of lines).
    pub fn lines_from(&self, row: usize) -> (r: Vec<String>)
        requires
            self.can_show_from(row as int),
        ensures
            r@.len() == self.rows_from(row as int),
            forall|i: int|
                0 <= i < r@.len() ==> (#[trigger] r@[i])@ == clipped(
                    self.lines()[row + self.v_offset() + i],
                    self.h_offset(),
                    self.area_width(),
                ),
    {
        proof {
            self.lemma_len_fits();
        }
        let start = row + self.ver_offset;
        let below = self.content.len() - start;
        let n = if self.height - row < below {
            self.height - row
        } else {
            below
        };
        let mut out: Vec<String> = Vec::new();
        let mut i: usize = 0;
        while i < n
            invariant
                self.can_show_from(row as int),
                n == self.rows_from(row as int),
                n <= below,
                self.content@.len() <= usize::MAX,
                below == self.content@.len() - start,
                start == row + self.v_offset(),
                i <= n,
                out@.len() == i,
                forall|j: int|
                    0 <= j < i ==> (#[trigger] out@[j])@ == clipped(
                        self.lines()[start + j],
                        self.h_offset(),
                        self.area_width(),
                    ),
            decreases n - i,
        {
            proof {
                assert(self.lines()[start + i] == self.content@[start + i]@);
                if self.h_offset() + self.area_width() > usize::MAX {
                    assert(grapheme_count(self.lines()[row + self.v_offset() + i])
                        <= self.area_width());
                }
            }
            let shown = clip_line(&self.content[start + i], self.local_hor_offset, self.width);
            out.push(shown);
            i += 1;
        }
        out
    }

    /// `lines_from(row)`, or `None` when it cannot be computed for this row
    /// (the row is below the area or past the buffer, or a line to cut would
    /// need offset plus width beyond machine numbers).
    pub fn try_lines_from(&self, row: usize) -> (r: Option<Vec<String>>)
        ensures
            r is None <==> !self.can_show_from(row as int),
            r matches Some(v) ==> {
                &&& v@.len() == self.rows_from(row as int)
                &&& forall|i: int|
                    0 <= i < v@.len() ==> (#[trigger] v@[i])@ == clipped(
                        self.lines()[row + self.v_offset() + i],
                        self.h_offset(),
                        self.area_width(),
                    )
            },
    {
        proof {
            self.lemma_len_fits();
        }
        if row > self.height || self.ver_offset > self.content.len() || row > self.content.len()
            - self.ver_offset {
            return None;
        }
        if self.local_hor_offset > usize::MAX - self.width {
            let start = row + self.ver_offset;
            let below = self.content.len() - start;
            let n = if self.height - row < below {
                self.height - row
            } else {
                below
            };
            let mut i: usize = 0;
            while i < n
                invariant
                    self.h_offset() + self.area_width() > usize::MAX,
                    0 <= row <= self.area_height(),
                    row + self.v_offset() <= self.lines().len(),
                    n == self.rows_from(row as int),
                    self.content@.len() <= usize::MAX,
                    start == row + self.v_offset(),
                    n <= below,
                    below == self.content@.len() - start,
                    i <= n,
                    forall|j: int|
                        0 <= j < i ==> #[trigger] grapheme_count(
                            self.lines()[row + self.v_offset() + j],
                        ) <= self.area_width(),
                decreases n - i,
            {
                proof {
                    assert(self.lines()[start + i] == self.content@[start + i]@);
                }
                if grapheme_length(self.content[start + i].as_str()) > self.width {
                    proof {
                        assert(grapheme_count(self.lines()[row + self.v_offset() + i])
                            > self.area_width());
                    }
                    return None;
                }
                i += 1;
            }
        }
        Some(self.lines_from(row))
    }
}

impl Editor {
    /// The command can be carried out (the operation it calls has what it
    /// needs); commands that do not edit always can.
    pub open spec fn accepts(&self, cmd: Command) -> bool {
        match cmd {
            Command::Write(_) => self.can_write(),
            Command::Delete => self.can_delete(),
            Command::Newline => self.can_break(),
            Command::Scroll(d) => self.can_scroll(d),
            Command::Move(d) => self.can_move(d),
            _ => true,
        }
    }

    /// `next` and `r` are what the operation for `cmd` leaves and returns;
    /// commands that do not edit change nothing.
    pub open spec fn applied(&self, next: &Editor, cmd: Command, r: Redraw) -> bool {
        match cmd {
            Command::Write(c) => self.wrote(next, c, r),
            Command::Delete => self.deleted(next, r),
            Command::Newline => self.broke_line(next, r),
            Command::Scroll(d) => self.scrolled(next, d, r),
            Command::Move(d) => self.moved(next, d, r),
            _ => *next == *self && r == Redraw::Nothing,
        }
    }

    fn can_move_now(&self, direction: Direction) -> (b: bool)
        requires
            self.wf(),
        ensures
            b == self.can_move(direction),
    {
        proof {
            self.lemma_len_fits();
        }
        let x = self.cursor.0;
        let h = self.local_hor_offset;
        match direction {
            Direction::Up | Direction::Down => true,
            Direction::Left => {
                let len = grapheme_length(self.content[self.cursor.1 + self.ver_offset].as_str());
                if x > 0 {
                    h <= len
                } else if h > 0 {
                    h - 1 <= len
                } else {
                    true
                }
            },
            Direction::Right => {
                let len = grapheme_length(self.content[self.cursor.1 + self.ver_offset].as_str());
                if x == usize::MAX {
                    false
                } else if x + 1 < self.width && x < len {
                    x + h < usize::MAX && h <= len
                } else if x + h < len {
                    true
                } else {
                    h <= len
                }
            },
        }
    }

    /// Carries out a command: `None`, with nothing changed, when the
    /// operation for it cannot be carried out in this state.
    pub fn apply(&mut self, cmd: Command) -> (r: Option<Redraw>)
        requires
            old(self).wf(),
        ensures
            final(self).wf(),
            final(self).same_frame(old(self)),
            r is None <==> !old(self).accepts(cmd),
            r is None ==> *final(self) == *old(self),
            r matches Some(d) ==> old(self).applied(final(self), cmd, d),
    {
        proof {
            self.lemma_len_fits();
        }
        match cmd {
            Command::Write(c) => {
                if self.cursor.0 + self.local_hor_offset < usize::MAX {
                    Some(self.write_char(c))
                } else {
                    None
                }
            },
            Command::Delete => {
                if self.cursor.0 > 0 {
                    let len = grapheme_length(
                        self.content[self.cursor.1 + self.ver_offset].as_str(),
                    );
                    if self.cursor.0 + self.local_hor_offset - 1 < len {
                        Some(self.delete_char())
                    } else {
                        None
                    }
                } else {
                    Some(self.delete_char())
                }
            },
            Command::Newline => {
                if self.height > 0 {
                    Some(self.insert_newline())
                } else {
                    None
                }
            },
            Command::Scroll(d) => {
                if d == Direction::Right {
                    let len = grapheme_length(
                        self.content[self.cursor.1 + self.ver_offset].as_str(),
                    );
                    if self.local_hor_offset < len && self.cursor.0 + self.local_hor_offset
                        < usize::MAX {
                        Some(self.hor_scroll(d))
                    } else {
                        None
                    }
                } else {
                    Some(self.hor_scroll(d))
                }
            },
            Command::Move(d) => {
                if self.can_move_now(d) {
                    Some(self.move_cursor(d))
                } else {
                    None
                }
            },
            _ => Some(Redraw::Nothing),
        }
    }
}

impl Editor {
    /// The position for the status line, counted from 1 for the user:
    /// `Ln <line>, Col <column plus horizontal offset>`.
    pub fn status_text(&self) -> (r: String)
        requires
            self.wf(),
            self.cursor_cluster() < usize::MAX,
        ensures
            r@ == seq!['L', 'n', ' '] + decimal((self.active() + 1) as nat) + seq![
                ',',
                ' ',
                'C',
                'o',
                'l',
                ' ',
            ] + decimal((self.cursor_cluster() + 1) as nat),
    {
        proof {
            self.lemma_len_fits();
        }
        let ln = "Ln ";
        let col = ", Col ";
        proof {
            reveal_strlit("Ln ");
            reveal_strlit(", Col ");
        }
        let mut text = String::new();
        text.append(ln);
        push_decimal(&mut text, self.cursor.1 + self.ver_offset + 1);
        text.append(col);
        push_decimal(&mut text, self.cursor.0 + self.local_hor_offset + 1);
        proof {
            assert(ln@ =~= seq!['L', 'n', ' ']);
            assert(col@ =~= seq![',', ' ', 'C', 'o', 'l', ' ']);
        }
        text
    }
}

/// Enter followed by Backspace leaves the buffer as it was and the cursor on
/// the line it was on, when the cursor starts inside the editing area. When,
/// moreover, Enter does not scroll, there is no horizontal offset, and the
/// text before the cursor has as many clusters as the cursor's column, the
/// cursor and offsets come back too.
pub proof fn lemma_newline_then_delete(e0: Editor, e1: Editor, e2: Editor, r1: Redraw, r2: Redraw)
    requires
        e0.wf(),
        e0.can_break(),
        e0.row() < e0.area_height(),
        e0.broke_line(&e1, r1),
        e1.deleted(&e2, r2),
    ensures
        e2.lines() == e0.lines(),
        e2.active() == e0.active(),
        e0.row() + 1 < e0.area_height() && e0.h_offset() == 0 && grapheme_count(
            e0.active_line().take(grapheme_start(e0.active_line(), e0.cursor_cluster())),
        ) == e0.col() ==> e2.same_view(&e0),
{
    let a = e0.active();
    let line = e0.active_line();
    let p = grapheme_start(line, e0.cursor_cluster());
    let l1 = e1.lines();
    assert(e1.active() == a + 1);
    assert(l1[a] == line.take(p));
    assert(l1[a + 1] == line.skip(p));
    assert(line.take(p) + line.skip(p) =~= line);
    assert(e2.lines() =~= e0.lines());
}

/// Ctrl+Right followed by Ctrl+Left leaves the cursor and offsets as they
/// were, when the cursor is more than one cluster away from the line's end.
pub proof fn lemma_scroll_right_then_left(e0: Editor, e1: Editor, e2: Editor, r1: Redraw, r2: Redraw)
    requires
        e0.wf(),
        e0.cursor_cluster() + 1 < grapheme_count(e0.active_line()),
        e0.scrolled(&e1, Direction::Right, r1),
        e1.scrolled(&e2, Direction::Left, r2),
    ensures
        e2.lines() == e0.lines(),
        e2.same_view(&e0),
{
}

/// Typing a char and then Backspace leaves buffer, cursor and offsets as they
/// were, when the clusters before the cursor are the same after the char is
/// typed (the char does not join the cluster before it).
pub proof fn lemma_write_then_delete(
    e0: Editor,
    e1: Editor,
    e2: Editor,
    c: char,
    r1: Redraw,
    r2: Redraw,
)
    requires
        e0.wf(),
        e0.can_write(),
        e0.wrote(&e1, c, r1),
        e1.deleted(&e2, r2),
        grapheme_start(e1.active_line(), e0.cursor_cluster()) == grapheme_start(
            e0.active_line(),
            e0.cursor_cluster(),
        ),
    ensures
        e2.lines() == e0.lines(),
        e2.same_view(&e0),
{
    let a = e0.active();
    let line = e0.active_line();
    let p = grapheme_start(line, e0.cursor_cluster());
    assert(e1.active() == a);
    assert(e1.active_line() == line.insert(p, c));
    assert(e1.cursor_cluster() - 1 == e0.cursor_cluster());
    assert(line.insert(p, c).remove(p) =~= line);
    assert(e2.lines() =~= e0.lines());
}

/// Every command keeps the cursor inside the editing area.
pub proof fn lemma_cursor_stays_in_area(e0: Editor, e1: Editor, cmd: Command, r: Redraw)
    requires
        e0.wf(),
        e0.row() < e0.area_height(),
        e0.accepts(cmd),
        e0.applied(&e1, cmd, r),
        e1.same_frame(&e0),
    ensures
        e1.row() < e1.area_height(),
{
}

/// The row that `display_line` shows starts where the horizontal offset's
/// cluster starts: it is a piece of the line beginning at that position.
pub proof fn lemma_row_starts_at_offset(s: Seq<char>, h: int, width: int)
    requires
        segmentation_sound(s),
        segmentation_sound(s.skip(grapheme_start(s, h))),
        0 <= width,
    ensures
        ({
            let start = grapheme_start(s, h);
            let t = shown_part(s, h, width);
            &&& 0 <= start <= s.len()
            &&& start + t.len() <= s.len()
            &&& t == s.subrange(start, start + t.len())
        }),
{
    lemma_grapheme_prefix(s, h);
    let start = grapheme_start(s, h);
    let rest = s.skip(start);
    let n = if width < grapheme_count(rest) {
        width
    } else {
        grapheme_count(rest)
    };
    lemma_clusters_prefix(rest, n);
    let t = shown_part(s, h, width);
    assert(t == rest.take(t.len() as int));
    assert(rest.take(t.len() as int) =~= s.subrange(start, start + t.len()));
}

/// Enter cuts the active line exactly where the cluster with index column
/// plus horizontal offset starts: the two new lines are the text before and
/// the text from that point, and every other line keeps its place.
pub proof fn lemma_enter_cuts_at_cursor(e0: Editor, e1: Editor, r: Redraw)
    requires
        e0.wf(),
        e0.broke_line(&e1, r),
    ensures
        ({
            let a = e0.active();
            let line = e0.lines()[a];
            let p = grapheme_start(line, e0.col() + e0.h_offset());
            &&& e1.lines().len() == e0.lines().len() + 1
            &&& e1.lines()[a] == line.take(p)
            &&& e1.lines()[a + 1] == line.skip(p)
            &&& e1.lines()[a] + e1.lines()[a + 1] == line
            &&& forall|i: int| 0 <= i < a ==> e1.lines()[i] == e0.lines()[i]
            &&& forall|i: int| a < i < e0.lines().len() ==> e1.lines()[i + 1] == e0.lines()[i]
        }),
{
    let a = e0.active();
    let line = e0.lines()[a];
    let p = grapheme_start(line, e0.col() + e0.h_offset());
    assert(line.take(p) + line.skip(p) =~= line);
}

/// Typing a char puts it exactly where Enter would cut the line: the typed
/// line is the text before Enter's cut, the char, and the text after it.
pub proof fn lemma_typing_goes_where_enter_cuts(
    e0: Editor,
    e1: Editor,
    e2: Editor,
    c: char,
    r1: Redraw,
    r2: Redraw,
)
    requires
        e0.wf(),
        e0.wrote(&e1, c, r1),
        e0.broke_line(&e2, r2),
    ensures
        e1.lines()[e0.active()] == e2.lines()[e0.active()] + seq![c] + e2.lines()[e0.active() + 1],
{
    let a = e0.active();
    let line = e0.lines()[a];
    let p = grapheme_start(line, e0.col() + e0.h_offset());
    assert(line.insert(p, c) =~= line.take(p) + seq![c] + line.skip(p));
}

/// A Right move inside the line advances the cursor's place in the line
/// (column plus horizontal offset) by exactly one cluster, and keeps the
/// cursor on its line; a Left move after the line's start goes back by one.
pub proof fn lemma_horizontal_move_is_one_cluster(
    e0: Editor,
    e1: Editor,
    dir: Direction,
    r: Redraw,
)
    requires
        e0.wf(),
        e0.moved(&e1, dir, r),
        dir == Direction::Right ==> e0.col() + e0.h_offset() < grapheme_count(e0.active_line()),
        dir == Direction::Left ==> 0 < e0.col() + e0.h_offset() <= grapheme_count(
            e0.active_line(),
        ),
        dir == Direction::Left || dir == Direction::Right,
    ensures
        dir == Direction::Right ==> e1.col() + e1.h_offset() == e0.col() + e0.h_offset() + 1,
        dir == Direction::Left ==> e1.col() + e1.h_offset() == e0.col() + e0.h_offset() - 1,
        e1.row() == e0.row(),
        e1.v_offset() == e0.v_offset(),
        e1.lines() == e0.lines(),
{
}

/// Ctrl+Left never moves the cursor's column on the screen: it shifts the
/// view one cluster left when it is shifted at all, so the cursor's place in
/// the line goes back one cluster, and otherwise nothing changes.
pub proof fn lemma_scroll_left_keeps_column(e0: Editor, e1: Editor, r: Redraw)
    requires
        e0.wf(),
        e0.scrolled(&e1, Direction::Left, r),
    ensures
        e1.col() == e0.col(),
        e1.row() == e0.row(),
        e1.v_offset() == e0.v_offset(),
        e1.lines() == e0.lines(),
        e0.h_offset() > 0 ==> e1.col() + e1.h_offset() == e0.col() + e0.h_offset() - 1,
        e0.h_offset() == 0 ==> e1.h_offset() == 0,
{
}

} // verus!
