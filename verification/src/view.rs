//! The view: one line cache, one cursor and one viewport record, turned
//! into the escape sequences a character-cell terminal understands.
//!
//! Rendering and click mapping share one width rule: a tab expands to
//! the next multiple of the tab stop, every other character is one cell
//! wide. The frame a render produces is written to the terminal by the
//! embedding that owns the output sink.

use crate::cache::{cache_after, LineCache};
use crate::errors::InvariantViolation;
use crate::protocol::{line_models, op_models, LineModel, Style, Update};
use crate::window::Window;
use std::collections::HashMap;
use vstd::prelude::*;
use vstd::string::*;
use vstd::view::View as _;

verus! {

broadcast use vstd::std_specs::hash::group_hash_axioms;

/// Number of character cells between two tab stops.
pub const TAB_LENGTH: u16 = 4;

/// The accumulated display width after one more character: a tab jumps
/// to the next multiple of the tab stop, anything else adds one cell.
pub open spec fn width_after(w: nat, c: char) -> nat {
    if c == '\t' {
        (w + TAB_LENGTH as nat - w % (TAB_LENGTH as nat)) as nat
    } else {
        w + 1
    }
}

/// The display width of a whole text, accumulated left to right.
pub open spec fn width_of(text: Seq<char>) -> nat
    decreases text.len(),
{
    if text.len() == 0 {
        0
    } else {
        width_after(width_of(text.drop_last()), text.last())
    }
}

proof fn lemma_width_step(text: Seq<char>, i: int)
    requires
        0 <= i < text.len(),
    ensures
        width_of(text.take(i + 1)) == width_after(width_of(text.take(i)), text[i]),
{
    assert(text.take(i + 1).drop_last() =~= text.take(i));
    assert(text.take(i + 1).last() == text[i]);
}

proof fn lemma_width_mono(text: Seq<char>, i: int, j: int)
    requires
        0 <= i <= j <= text.len(),
    ensures
        width_of(text.take(i)) <= width_of(text.take(j)),
    decreases j - i,
{
    if i < j {
        lemma_width_step(text, j - 1);
        lemma_width_mono(text, i, j - 1);
    }
}

/// One step of the width rule on a 16-bit accumulator.
pub fn add_char_width(acc: u16, c: char) -> (r: u16)
    requires
        acc + TAB_LENGTH <= u16::MAX,
    ensures
        r as nat == width_after(acc as nat, c),
{
    if c == '\t' {
        acc + TAB_LENGTH - acc % TAB_LENGTH
    } else {
        acc + 1
    }
}

/// The display width of the first `count` characters of `text` (the
/// whole text if it is shorter), or `None` when that prefix is too wide
/// for a one-based 16-bit terminal column to address.
#[verifier::loop_isolation(false)]
fn prefix_width(text: &str, count: usize) -> (r: Option<u16>)
    ensures
        ({
            let m = if count <= text@.len() {
                count as int
            } else {
                text@.len() as int
            };
            match r {
                Some(w) => w as nat == width_of(text@.take(m)) && w + 1 <= u16::MAX,
                None => width_of(text@.take(m)) + 1 > u16::MAX,
            }
        }),
{
    let n = text.unicode_len();
    let m = if count <= n {
        count
    } else {
        n
    };
    let mut w: u16 = 0;
    let mut i: usize = 0;
    while i < m
        invariant
            i <= m,
            w as nat == width_of(text@.take(i as int)),
            w + 1 <= u16::MAX,
        decreases m - i,
    {
        let c = text.get_char(i);
        proof {
            lemma_width_step(text@, i as int);
        }
        let step: u16 = if c == '\t' {
            TAB_LENGTH - w % TAB_LENGTH
        } else {
            1
        };
        if w > u16::MAX - 1 - step {
            proof {
                lemma_width_mono(text@, i + 1, m as int);
            }
            return None;
        }
        w = w + step;
        i += 1;
    }
    Some(w)
}

/// Where along `text` the accumulated display width first reaches `y`:
/// the character index one past the match, or one past the end when the
/// whole text is narrower than `y`.
pub open spec fn click_index(text: Seq<char>, w: nat, i: nat, y: nat) -> nat
    decreases text.len() - i,
{
    if i >= text.len() {
        text.len() + 1
    } else {
        let w2 = width_after(w, text[i as int]);
        if w2 >= y {
            i + 1
        } else {
            click_index(text, w2, i + 1, y)
        }
    }
}

#[verifier::loop_isolation(false)]
fn click_column(text: &str, y: u64) -> (r: u64)
    requires
        y >= 1,
    ensures
        r as nat == click_index(text@, 0, 0, y as nat),
{
    let n = text.unicode_len();
    let mut w: u64 = 0;
    let mut i: usize = 0;
    while i < n
        invariant
            i <= n,
            w < y,
            i <= w,
            click_index(text@, 0, 0, y as nat) == click_index(text@, w as nat, i as nat, y as nat),
        decreases n - i,
    {
        let c = text.get_char(i);
        let step: u64 = if c == '\t' {
            (TAB_LENGTH as u64) - w % (TAB_LENGTH as u64)
        } else {
            1
        };
        if y - w <= step {
            return i as u64 + 1;
        }
        w = w + step;
        i += 1;
    }
    n as u64 + 1
}

/// The control sequence that puts the terminal cursor on the given
/// one-based (column, row) character cell.
pub uninterp spec fn goto_seq(col: u16, row: u16) -> Seq<char>;

/// The control sequence that clears the terminal row under the cursor:
/// ESC `[2K`.
pub open spec fn clear_line_seq() -> Seq<char> {
    seq!['\u{1b}', '[', '2', 'K']
}

/// Relies on `termion::cursor::Goto`: its displayed form is the CSI
/// cursor-position sequence for the one-based cell (col, row), a string
/// that depends on the two coordinates alone. `Goto` rejects (0, 0).
#[verifier::external_body]
fn goto_str(col: u16, row: u16) -> (r: String)
    requires
        col >= 1 || row >= 1,
    ensures
        r@ == goto_seq(col, row),
{
    format!("{}", termion::cursor::Goto(col, row))
}

/// Relies on `termion::clear::CurrentLine`: its displayed form is the
/// fixed four-character clear-line sequence ESC `[2K`.
#[verifier::external_body]
fn clear_line_str() -> (r: String)
    ensures
        r@ == clear_line_seq(),
{
    format!("{}", termion::clear::CurrentLine)
}

/// What one visible line contributes to a frame: go to the start of its
/// row, clear the row, write the text.
pub open spec fn line_chunk(l: LineModel, row: int) -> Seq<char> {
    goto_seq(1, (row + 1) as u16) + clear_line_seq() + l.text
}

/// The first `i` visible lines' contributions, in row order, for a
/// viewport beginning at buffer row `start`.
pub open spec fn rendered_prefix(lines: Seq<LineModel>, start: u64, i: int) -> Seq<char>
    decreases i,
{
    if i <= 0 {
        Seq::empty()
    } else {
        rendered_prefix(lines, start, i - 1) + line_chunk(lines[start + i - 1], i - 1)
    }
}

/// How many buffer lines are visible: those from `start` on, at most
/// `size` of them.
pub open spec fn visible_count(len: nat, start: u64, size: u16) -> nat {
    if start as nat >= len {
        0
    } else if len - start as nat >= size as nat {
        size as nat
    } else {
        (len - start as nat) as nat
    }
}

/// The whole line part of a frame.
pub open spec fn rendered_lines(lines: Seq<LineModel>, start: u64, size: u16) -> Seq<char> {
    rendered_prefix(lines, start, visible_count(lines.len(), start, size) as int)
}

/// The document-absolute caret position: a row index and a character
/// (not byte, not cell) column index.
#[derive(Clone, Copy, Debug, PartialEq, Eq, Structural)]
pub struct Cursor {
    pub line: u64,
    pub column: u64,
}

impl Default for Cursor {
    /// The origin: line zero, column zero.
    fn default() -> (c: Cursor)
        ensures
            c.line == 0,
            c.column == 0,
    {
        Cursor { line: 0, column: 0 }
    }
}

/// How many characters of a line stand left of the caret: its column,
/// clamped to the line's length.
pub open spec fn cursor_prefix_count(text: Seq<char>, column: u64) -> int {
    if column as nat <= text.len() {
        column as int
    } else {
        text.len() as int
    }
}

/// The cursor part of a frame. An empty cache parks the cursor at the
/// top-left corner. A cursor inside the invalid-before region, on a line
/// the cache does not hold, or above the viewport start is a soft error:
/// the frame simply omits the cursor, as it does when the target cell is
/// beyond what 16-bit one-based terminal coordinates can address.
pub open spec fn cursor_part(
    lines: Seq<LineModel>,
    invalid_before: u64,
    start: u64,
    cursor: Cursor,
) -> Seq<char> {
    if lines.len() == 0 {
        goto_seq(1, 1)
    } else if cursor.line < invalid_before {
        Seq::empty()
    } else if cursor.line - invalid_before >= lines.len() {
        Seq::empty()
    } else if cursor.line - invalid_before < start {
        Seq::empty()
    } else {
        let idx = cursor.line - invalid_before;
        let line_pos = idx - start;
        let w = width_of(lines[idx].text.take(cursor_prefix_count(lines[idx].text, cursor.column)));
        if w + 1 > u16::MAX || line_pos + 1 > u16::MAX {
            Seq::empty()
        } else {
            goto_seq((w + 1) as u16, (line_pos + 1) as u16)
        }
    }
}

/// Where a click on screen cell (row `x`, width `y`) lands in the
/// document: the buffer row plus everything that precedes the buffer,
/// and the character whose accumulated width first reaches `y`. A row
/// the cache does not hold degrades to the raw input coordinates.
pub open spec fn click_spec(
    lines: Seq<LineModel>,
    invalid_before: u64,
    start: u64,
    x: u64,
    y: u64,
) -> (u64, u64) {
    if x as nat >= lines.len() {
        (x, y)
    } else {
        let lineno = (x + invalid_before + start) as u64;
        if y == 0 {
            (lineno, 0)
        } else {
            (lineno, click_index(lines[x as int].text, 0, 0, y as nat) as u64)
        }
    }
}

/// What the viewport collaborator is asked after a terminal resize: the
/// new height, the cursor's line relative to the cached block, and how
/// many lines the cache holds.
#[derive(Clone, Copy, Debug, PartialEq, Eq, Structural)]
pub struct ResizeRequest {
    pub height: u16,
    pub cursor_line: u64,
    pub nb_lines: u64,
}

/// The top-level presentation state: the cached lines, the caret, the
/// viewport record, and the styles the backend has registered.
pub struct View {
    pub cache: LineCache,
    pub cursor: Cursor,
    pub window: Window,
    pub styles: HashMap<u64, Style>,
}

impl View {
    /// A view over nothing: empty cache, caret at the origin, no
    /// viewport answer yet, no styles.
    pub fn new() -> (v: View)
        ensures
            v.cache.invalid_before == 0,
            v.cache.lines@.len() == 0,
            v.cache.invalid_after == 0,
            v.cursor.line == 0,
            v.cursor.column == 0,
            v.window.start == 0,
            v.window.size == 0,
            v.styles@ == Map::<u64, Style>::empty(),
    {
        View {
            cache: LineCache::new(),
            cursor: Default::default(),
            window: Window::new(),
            styles: HashMap::new(),
        }
    }

    /// Registers a style under its identifier, overwriting any earlier
    /// definition with the same one.
    pub fn set_style(&mut self, style: Style)
        ensures
            final(self).styles@ == old(self).styles@.insert(style.id, style),
            final(self).cache == old(self).cache,
            final(self).cursor == old(self).cursor,
            final(self).window == old(self).window,
    {
        self.styles.insert(style.id, style);
    }

    /// Applies one update message to the cache; see
    /// [`LineCache::update`].
    pub fn update_cache(&mut self, update: &Update)
        ensures
            ({
                let res = cache_after(
                    line_models(old(self).cache.lines@),
                    op_models(update.operations@),
                );
                &&& line_models(final(self).cache.lines@) == res.new
                &&& final(self).cache.invalid_before == res.invalid_before
                &&& final(self).cache.invalid_after == res.invalid_after
            }),
            final(self).cursor == old(self).cursor,
            final(self).window == old(self).window,
            final(self).styles == old(self).styles,
    {
        self.cache.update(update);
    }

    /// Moves the caret to an absolute document position. The embedding
    /// then tells the viewport collaborator of the move and records its
    /// answer through [`View::set_window`].
    pub fn set_cursor(&mut self, line: u64, column: u64)
        ensures
            final(self).cursor.line == line,
            final(self).cursor.column == column,
            final(self).cache == old(self).cache,
            final(self).window == old(self).window,
            final(self).styles == old(self).styles,
    {
        self.cursor = Cursor { line, column };
    }

    /// Records the viewport collaborator's answer: the first visible
    /// buffer row and the number of visible rows.
    pub fn set_window(&mut self, start: u64, size: u16)
        ensures
            final(self).window.start == start,
            final(self).window.size == size,
            final(self).cache == old(self).cache,
            final(self).cursor == old(self).cursor,
            final(self).styles == old(self).styles,
    {
        self.window = Window { start, size };
    }

    /// Takes a new terminal height. When the caret sits inside the
    /// invalid-before region the backend and client have desynchronized:
    /// the view is left untouched and the distinguished
    /// [`InvariantViolation`] comes back, on which the embedding is
    /// expected to terminate. Otherwise the height becomes the visible
    /// row count and the returned request carries what the viewport
    /// collaborator is asked next.
    pub fn resize(&mut self, height: u16) -> (r: Result<ResizeRequest, InvariantViolation>)
        ensures
            (old(self).cursor.line < old(self).cache.invalid_before) <==> (r is Err),
            r is Err ==> *final(self) == *old(self),
            r is Ok ==> {
                &&& final(self).window.start == old(self).window.start
                &&& final(self).window.size == height
                &&& final(self).cache == old(self).cache
                &&& final(self).cursor == old(self).cursor
                &&& final(self).styles == old(self).styles
                &&& r->Ok_0 == (ResizeRequest {
                    height,
                    cursor_line: (old(self).cursor.line - old(self).cache.invalid_before) as u64,
                    nb_lines: old(self).cache.lines@.len() as u64,
                })
            },
    {
        if self.cursor.line < self.cache.invalid_before {
            return Err(InvariantViolation);
        }
        let cursor_line = self.cursor.line - self.cache.invalid_before;
        let nb_lines = self.cache.lines.len() as u64;
        self.window = Window { start: self.window.start, size: height };
        Ok(ResizeRequest { height, cursor_line, nb_lines })
    }

    /// Maps a click on screen cell (row `x`, width `y`) to a document
    /// position, as [`click_spec`] lays down; a row beyond the cached
    /// buffer comes back as the raw input coordinates.
    pub fn click(&self, x: u64, y: u64) -> (r: (u64, u64))
        requires
            x < self.cache.lines@.len() ==> x + self.cache.invalid_before + self.window.start
                <= u64::MAX,
        ensures
            r == click_spec(
                line_models(self.cache.lines@),
                self.cache.invalid_before,
                self.window.start,
                x,
                y,
            ),
            x >= self.cache.lines@.len() ==> r == (x, y),
    {
        let len = self.cache.lines.len();
        if x >= len as u64 {
            return (x, y);
        }
        let lineno = x + self.cache.invalid_before + self.window.start;
        if y == 0 {
            return (lineno, 0);
        }
        let line = &self.cache.lines[x as usize];
        let col = click_column(line.text.as_str(), y);
        (lineno, col)
    }

    /// One whole frame: every visible line cleared and rewritten in row
    /// order, then the cursor placed. The embedding writes it to the
    /// terminal.
    pub fn render(&self) -> (frame: String)
        ensures
            frame@ == rendered_lines(
                line_models(self.cache.lines@),
                self.window.start,
                self.window.size,
            ) + cursor_part(
                line_models(self.cache.lines@),
                self.cache.invalid_before,
                self.window.start,
                self.cursor,
            ),
    {
        let mut frame = self.render_lines();
        let c = self.render_cursor();
        frame.append(c.as_str());
        frame
    }

    /// The line part of a frame: for each visible line, in top-to-bottom
    /// order, go to its row, clear it, write the text.
    #[verifier::loop_isolation(false)]
    fn render_lines(&self) -> (s: String)
        ensures
            s@ == rendered_lines(
                line_models(self.cache.lines@),
                self.window.start,
                self.window.size,
            ),
    {
        let mut s = String::new();
        let len = self.cache.lines.len();
        if self.window.start >= len as u64 {
            return s;
        }
        let start = self.window.start as usize;
        let rem = len - start;
        let k: usize = if rem >= self.window.size as usize {
            self.window.size as usize
        } else {
            rem
        };
        let ghost models = line_models(self.cache.lines@);
        proof {
            assert(k as nat == visible_count(models.len(), self.window.start, self.window.size));
        }
        let mut i: usize = 0;
        while i < k
            invariant
                i <= k,
                s@ == rendered_prefix(models, self.window.start, i as int),
            decreases k - i,
        {
            let row: u16 = (i as u16) + 1;
            let g = goto_str(1, row);
            s.append(g.as_str());
            let cl = clear_line_str();
            s.append(cl.as_str());
            s.append(self.cache.lines[start + i].text.as_str());
            i += 1;
        }
        s
    }

    /// The cursor part of a frame, exactly as [`cursor_part`] lays it
    /// down: the top-left corner over an empty cache, nothing on a soft
    /// error, otherwise a goto to the caret's cell.
    pub fn render_cursor(&self) -> (s: String)
        ensures
            s@ == cursor_part(
                line_models(self.cache.lines@),
                self.cache.invalid_before,
                self.window.start,
                self.cursor,
            ),
    {
        if self.cache.is_empty() {
            return goto_str(1, 1);
        }
        if self.cursor.line < self.cache.invalid_before {
            return String::new();
        }
        let line_idx = self.cursor.line - self.cache.invalid_before;
        if line_idx >= self.cache.lines.len() as u64 {
            return String::new();
        }
        if line_idx < self.window.start {
            return String::new();
        }
        let line_pos = line_idx - self.window.start;
        let line = &self.cache.lines[line_idx as usize];
        let n = line.text.as_str().unicode_len();
        let count: usize = if self.cursor.column <= n as u64 {
            self.cursor.column as usize
        } else {
            n
        };
        match prefix_width(line.text.as_str(), count) {
            None => String::new(),
            Some(w) => {
                if line_pos > (u16::MAX - 1) as u64 {
                    String::new()
                } else {
                    goto_str(w + 1, (line_pos as u16) + 1)
                }
            },
        }
    }
}

} // verus!
