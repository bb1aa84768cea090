//! The terminal screen state: the primary and alternate grids, the
//! scrollback history, the cursor, the attribute state and the scroll
//! region, together with the action handlers that mutate them.

use vstd::prelude::*;

use crate::plugins::terminal::cell::{ansi_color, default_attrs, default_cell, spec_ansi_color, Attrs, Cell, Color};
use crate::plugins::terminal::width::{is_wide, is_wide_char};

verus! {

use vstd::math::{max, min};

/// The largest row or column count the engine accepts: what fits the
/// pseudo-terminal's sixteen-bit size fields.
pub const MAX_DIM: usize = 65535;

/// The most rows the scrollback history keeps; the oldest rows drop first.
pub const HISTORY_MAX: usize = 5000;

/// A grid with exactly `rows` rows of exactly `cols` cells each.
pub open spec fn grid_wf(g: Seq<Seq<Cell>>, rows: int, cols: int) -> bool {
    &&& g.len() == rows
    &&& forall|i: int| 0 <= i < rows ==> (#[trigger] g[i]).len() == cols
}

/// A row of `cols` blank cells.
pub open spec fn blank_row(cols: int) -> Seq<Cell> {
    Seq::new(cols as nat, |j: int| default_cell())
}

/// A grid of `rows` blank rows.
pub open spec fn blank_grid(rows: int, cols: int) -> Seq<Seq<Cell>> {
    Seq::new(rows as nat, |i: int| blank_row(cols))
}

/// The mathematical value of a grid held as a vector of rows.
pub open spec fn grid_view(g: Seq<Vec<Cell>>) -> Seq<Seq<Cell>> {
    g.map_values(|r: Vec<Cell>| r@)
}

/// The mathematical value of a [`TerminalState`].
#[verifier::ext_equal]
pub ghost struct TermView {
    pub rows: int,
    pub cols: int,
    pub cursor_row: int,
    pub cursor_col: int,
    pub pending_wrap: bool,
    pub saved_row: int,
    pub saved_col: int,
    pub primary: Seq<Seq<Cell>>,
    pub alt: Seq<Seq<Cell>>,
    pub history: Seq<Seq<Cell>>,
    pub is_alt: bool,
    pub attrs: Attrs,
    pub cursor_visible: bool,
    pub application_cursor: bool,
    pub scroll_top: int,
    pub scroll_bottom: int,
}

impl TermView {
    /// The grid the engine currently writes to.
    pub open spec fn active(self) -> Seq<Seq<Cell>> {
        if self.is_alt {
            self.alt
        } else {
            self.primary
        }
    }

    /// The same state with the active grid replaced; the inactive grid keeps
    /// its contents.
    pub open spec fn with_active(self, g: Seq<Seq<Cell>>) -> TermView {
        if self.is_alt {
            TermView { alt: g, ..self }
        } else {
            TermView { primary: g, ..self }
        }
    }

    /// The column the next print lands in: the cursor's column, or one past
    /// the last column when a wrap is pending after printing in the last
    /// column. Only printing can leave a wrap pending; the column itself
    /// always stays on the grid.
    pub open spec fn effective_col(self) -> int {
        if self.pending_wrap {
            self.cols
        } else {
            self.cursor_col
        }
    }

    /// The bounds every reachable terminal state satisfies: both grids have
    /// exactly `rows` rows of `cols` cells, the history is capped, the
    /// cursor stands on the grid, and the scroll region's bounds are grid
    /// rows.
    pub open spec fn wf(self) -> bool {
        &&& 1 <= self.rows <= MAX_DIM
        &&& 1 <= self.cols <= MAX_DIM
        &&& grid_wf(self.primary, self.rows, self.cols)
        &&& grid_wf(self.alt, self.rows, self.cols)
        &&& self.history.len() <= HISTORY_MAX
        &&& 0 <= self.cursor_row < self.rows
        &&& 0 <= self.cursor_col < self.cols
        &&& 0 <= self.saved_row <= MAX_DIM
        &&& 0 <= self.saved_col <= MAX_DIM
        &&& 0 <= self.scroll_top < self.rows
        &&& 0 <= self.scroll_bottom < self.rows
    }
}

/// The state a fresh terminal of the given size starts in.
pub open spec fn initial_term(rows: int, cols: int) -> TermView {
    TermView {
        rows: rows,
        cols: cols,
        cursor_row: 0,
        cursor_col: 0,
        pending_wrap: false,
        saved_row: 0,
        saved_col: 0,
        primary: blank_grid(rows, cols),
        alt: blank_grid(rows, cols),
        history: Seq::empty(),
        is_alt: false,
        attrs: default_attrs(),
        cursor_visible: true,
        application_cursor: false,
        scroll_top: 0,
        scroll_bottom: rows - 1,
    }
}

/// The terminal screen state. All mutation goes through the action handlers;
/// the user-interface layer only reads snapshots through the accessors.
pub struct TerminalState {
    rows: usize,
    cols: usize,
    cursor_row: usize,
    cursor_col: usize,
    pending_wrap: bool,
    saved_row: usize,
    saved_col: usize,
    primary_grid: Vec<Vec<Cell>>,
    alt_grid: Vec<Vec<Cell>>,
    history: Vec<Vec<Cell>>,
    is_alt_screen: bool,
    attrs: Attrs,
    cursor_visible: bool,
    application_cursor: bool,
    scroll_top: usize,
    scroll_bottom: usize,
}

impl View for TerminalState {
    type V = TermView;

    closed spec fn view(&self) -> TermView {
        TermView {
            rows: self.rows as int,
            cols: self.cols as int,
            cursor_row: self.cursor_row as int,
            cursor_col: self.cursor_col as int,
            pending_wrap: self.pending_wrap,
            saved_row: self.saved_row as int,
            saved_col: self.saved_col as int,
            primary: grid_view(self.primary_grid@),
            alt: grid_view(self.alt_grid@),
            history: grid_view(self.history@),
            is_alt: self.is_alt_screen,
            attrs: self.attrs,
            cursor_visible: self.cursor_visible,
            application_cursor: self.application_cursor,
            scroll_top: self.scroll_top as int,
            scroll_bottom: self.scroll_bottom as int,
        }
    }
}

/// A fresh row of blank cells.
fn blank_row_vec(cols: usize) -> (r: Vec<Cell>)
    ensures
        r@ == blank_row(cols as int),
{
    let mut r: Vec<Cell> = Vec::new();
    let mut j: usize = 0;
    while j < cols
        invariant
            j <= cols,
            r@ == blank_row(cols as int).subrange(0, j as int),
        decreases cols - j,
    {
        r.push(Cell::default());
        proof {
            assert(r@ =~= blank_row(cols as int).subrange(0, j + 1));
        }
        j += 1;
    }
    proof {
        assert(r@ =~= blank_row(cols as int));
    }
    r
}

/// A fresh grid of blank rows.
fn blank_grid_vec(rows: usize, cols: usize) -> (r: Vec<Vec<Cell>>)
    ensures
        grid_view(r@) == blank_grid(rows as int, cols as int),
{
    let mut r: Vec<Vec<Cell>> = Vec::new();
    let mut i: usize = 0;
    while i < rows
        invariant
            i <= rows,
            r@.len() == i,
            forall|k: int| 0 <= k < i ==> (#[trigger] r@[k])@ == blank_row(cols as int),
        decreases rows - i,
    {
        r.push(blank_row_vec(cols));
        i += 1;
    }
    proof {
        assert(grid_view(r@) =~~= blank_grid(rows as int, cols as int));
    }
    r
}

impl TerminalState {
    pub fn new(rows: usize, cols: usize) -> (r: TerminalState)
        requires
            1 <= rows <= MAX_DIM,
            1 <= cols <= MAX_DIM,
        ensures
            r@ == initial_term(rows as int, cols as int),
            r@.wf(),
    {
        let r = TerminalState {
            rows,
            cols,
            cursor_row: 0,
            cursor_col: 0,
            pending_wrap: false,
            saved_row: 0,
            saved_col: 0,
            primary_grid: blank_grid_vec(rows, cols),
            alt_grid: blank_grid_vec(rows, cols),
            history: Vec::new(),
            is_alt_screen: false,
            attrs: Attrs::new(),
            cursor_visible: true,
            application_cursor: false,
            scroll_top: 0,
            scroll_bottom: rows - 1,
        };
        proof {
            assert(r@ =~~= initial_term(rows as int, cols as int));
        }
        r
    }

    pub fn rows(&self) -> (r: usize)
        ensures
            r as int == self@.rows,
    {
        self.rows
    }

    pub fn cols(&self) -> (r: usize)
        ensures
            r as int == self@.cols,
    {
        self.cols
    }

    pub fn cursor(&self) -> (r: (usize, usize))
        ensures
            r.0 as int == self@.cursor_row,
            r.1 as int == self@.cursor_col,
    {
        (self.cursor_row, self.cursor_col)
    }

    pub fn is_cursor_visible(&self) -> (r: bool)
        ensures
            r == self@.cursor_visible,
    {
        self.cursor_visible
    }

    /// Whether arrow keys should send application-mode sequences; consulted
    /// by the input-translation layer, never by the engine itself.
    pub fn is_application_cursor(&self) -> (r: bool)
        ensures
            r == self@.application_cursor,
    {
        self.application_cursor
    }

    pub fn is_alt_screen(&self) -> (r: bool)
        ensures
            r == self@.is_alt,
    {
        self.is_alt_screen
    }

    pub fn history_len(&self) -> (r: usize)
        ensures
            r as int == self@.history.len(),
    {
        self.history.len()
    }

    /// The total content length a scroll bar ranges over: history rows plus
    /// the active grid's rows.
    pub fn total_rows(&self) -> (r: usize)
        requires
            self@.wf(),
        ensures
            r as int == self@.history.len() + self@.rows,
    {
        self.history.len() + self.rows
    }

    /// One cell of the active grid.
    pub fn cell_at(&self, r: usize, c: usize) -> (cell: Cell)
        requires
            self@.wf(),
            r < self@.rows,
            c < self@.cols,
        ensures
            cell == self@.active()[r as int][c as int],
    {
        self.read_cell(r, c)
    }

    /// One visible row by its position in the overall content: history rows
    /// come first, then the active grid. The row is copied out, so no
    /// reference into the engine outlives the call.
    pub fn snapshot_row(&self, idx: usize) -> (row: Vec<Cell>)
        requires
            self@.wf(),
            idx < self@.history.len() + self@.rows,
        ensures
            row@ == if idx < self@.history.len() {
                self@.history[idx as int]
            } else {
                self@.active()[idx - self@.history.len()]
            },
    {
        let src: &Vec<Cell> = if idx < self.history.len() {
            &self.history[idx]
        } else if self.is_alt_screen {
            &self.alt_grid[idx - self.history.len()]
        } else {
            &self.primary_grid[idx - self.history.len()]
        };
        let mut row: Vec<Cell> = Vec::new();
        let n = src.len();
        let mut j: usize = 0;
        while j < n
            invariant
                j <= n,
                n == src@.len(),
                row@ == src@.subrange(0, j as int),
            decreases n - j,
        {
            let cell = src[j];
            row.push(cell);
            j += 1;
        }
        proof {
            assert(row@ =~= src@);
        }
        row
    }

    /// Replace one cell of the active grid.
    fn put_cell(&mut self, r: usize, c: usize, cell: Cell)
        requires
            (r as int) < old(self)@.active().len(),
            (c as int) < old(self)@.active()[r as int].len(),
        ensures
            final(self)@ == old(self)@.with_active(
                old(self)@.active().update(
                    r as int,
                    old(self)@.active()[r as int].update(c as int, cell),
                ),
            ),
    {
        if self.is_alt_screen {
            let row = &mut self.alt_grid[r];
            row.set(c, cell);
        } else {
            let row = &mut self.primary_grid[r];
            row.set(c, cell);
        }
        proof {
            assert(final(self)@ =~~= old(self)@.with_active(
                old(self)@.active().update(
                    r as int,
                    old(self)@.active()[r as int].update(c as int, cell),
                ),
            ));
        }
    }

    /// Read one cell of the active grid.
    fn read_cell(&self, r: usize, c: usize) -> (cell: Cell)
        requires
            (r as int) < self@.active().len(),
            (c as int) < self@.active()[r as int].len(),
        ensures
            cell == self@.active()[r as int][c as int],
    {
        if self.is_alt_screen {
            self.alt_grid[r][c]
        } else {
            self.primary_grid[r][c]
        }
    }

    /// Replace one whole row of the active grid.
    fn set_row(&mut self, r: usize, row: Vec<Cell>)
        requires
            (r as int) < old(self)@.active().len(),
        ensures
            final(self)@ == old(self)@.with_active(old(self)@.active().update(r as int, row@)),
    {
        if self.is_alt_screen {
            self.alt_grid.set(r, row);
        } else {
            self.primary_grid.set(r, row);
        }
        proof {
            assert(final(self)@ =~~= old(self)@.with_active(
                old(self)@.active().update(r as int, row@),
            ));
        }
    }

    /// Take one row out of the active grid; the rows below shift up.
    fn remove_row(&mut self, r: usize) -> (row: Vec<Cell>)
        requires
            (r as int) < old(self)@.active().len(),
        ensures
            row@ == old(self)@.active()[r as int],
            final(self)@ == old(self)@.with_active(old(self)@.active().remove(r as int)),
    {
        let row = if self.is_alt_screen {
            self.alt_grid.remove(r)
        } else {
            self.primary_grid.remove(r)
        };
        proof {
            assert(final(self)@ =~~= old(self)@.with_active(
                old(self)@.active().remove(r as int),
            ));
        }
        row
    }

    /// Put one row into the active grid at `r`; the rows from `r` shift down.
    fn insert_row(&mut self, r: usize, row: Vec<Cell>)
        requires
            (r as int) <= old(self)@.active().len(),
        ensures
            final(self)@ == old(self)@.with_active(
                old(self)@.active().insert(r as int, row@),
            ),
    {
        if self.is_alt_screen {
            self.alt_grid.insert(r, row);
        } else {
            self.primary_grid.insert(r, row);
        }
        proof {
            assert(final(self)@ =~~= old(self)@.with_active(
                old(self)@.active().insert(r as int, row@),
            ));
        }
    }

    /// Append one row at the bottom of the active grid.
    fn push_row(&mut self, row: Vec<Cell>)
        ensures
            final(self)@ == old(self)@.with_active(old(self)@.active().push(row@)),
    {
        if self.is_alt_screen {
            self.alt_grid.push(row);
        } else {
            self.primary_grid.push(row);
        }
        proof {
            assert(final(self)@ =~~= old(self)@.with_active(old(self)@.active().push(row@)));
        }
    }
}

/// Scrolling the region up by one row. When the region spans the whole grid,
/// the evicted top row goes to the scrollback history on the primary screen
/// (capped, oldest first out) and is discarded on the alternate screen; a
/// partial region shifts locally and never touches the history. A degenerate
/// region is left alone.
pub open spec fn spec_scroll_up(t: TermView) -> TermView {
    if t.scroll_top >= t.scroll_bottom || t.scroll_bottom >= t.rows {
        t
    } else if t.scroll_top == 0 && t.scroll_bottom == t.rows - 1 {
        let evicted = t.active()[0];
        let t1 = t.with_active(t.active().remove(0).push(blank_row(t.cols)));
        if !t.is_alt {
            let h = t.history.push(evicted);
            TermView {
                history: if h.len() > HISTORY_MAX { h.remove(0) } else { h },
                ..t1
            }
        } else {
            t1
        }
    } else {
        t.with_active(
            t.active().remove(t.scroll_top).insert(t.scroll_bottom, blank_row(t.cols)),
        )
    }
}

/// A single-byte control code: carriage return, line feed (scrolling at the
/// region's bottom), backspace, or a tab to the next multiple-of-eight
/// column; anything else has no effect.
pub open spec fn spec_execute(t: TermView, b: u8) -> TermView {
    if b == 0x0D {
        TermView { cursor_col: 0, pending_wrap: false, ..t }
    } else if b == 0x0A || b == 0x0B || b == 0x0C {
        if t.cursor_row + 1 > t.scroll_bottom {
            spec_scroll_up(TermView { cursor_row: t.scroll_bottom, ..t })
        } else {
            TermView { cursor_row: t.cursor_row + 1, ..t }
        }
    } else if b == 0x08 {
        if t.pending_wrap {
            TermView { pending_wrap: false, ..t }
        } else if t.cursor_col > 0 {
            TermView { cursor_col: t.cursor_col - 1, ..t }
        } else {
            t
        }
    } else if b == 0x09 {
        TermView {
            cursor_col: min((t.effective_col() / 8 + 1) * 8, t.cols - 1),
            pending_wrap: false,
            ..t
        }
    } else {
        t
    }
}

/// Where the cursor stands before one character of the given width is
/// written: wrap to the next line when the character would overflow the
/// current one, and scroll when that leaves the cursor past the scroll
/// region's bottom.
pub open spec fn spec_print_position(t: TermView, width: int) -> TermView {
    let t1 = if t.effective_col() + width > t.cols {
        TermView {
            cursor_col: 0,
            pending_wrap: false,
            cursor_row: t.cursor_row + 1,
            ..t
        }
    } else {
        t
    };
    if t1.cursor_row > t1.scroll_bottom {
        spec_scroll_up(TermView { cursor_row: t1.scroll_bottom, ..t1 })
    } else {
        t1
    }
}

/// Stamping one character at the cursor: the cell carries the current
/// attribute state, a wide character also fills the following column with a
/// continuation cell, and the cursor advances by the character's width.
pub open spec fn spec_print_write(t: TermView, ch: char) -> TermView {
    let width: int = if is_wide_char(ch) { 2 } else { 1 };
    if t.cursor_row < t.rows {
        let cell = t.attrs.spec_cell_for(ch);
        let r = t.cursor_row;
        let c = t.cursor_col;
        let g1 = t.active().update(r, t.active()[r].update(c, cell));
        let g2 = if is_wide_char(ch) && c + 1 < t.cols {
            g1.update(
                r,
                g1[r].update(c + 1, Cell { c: ' ', is_wide_continuation: true, ..cell }),
            )
        } else {
            g1
        };
        if c + width < t.cols {
            TermView { cursor_col: c + width, pending_wrap: false, ..t.with_active(g2) }
        } else {
            // The character ends in the last column: the cursor stays on it
            // and the wrap is deferred until the next print.
            TermView { cursor_col: t.cols - 1, pending_wrap: true, ..t.with_active(g2) }
        }
    } else {
        t
    }
}

/// Printing one character: wrap to the next line when it would overflow the
/// current one (scrolling past the region's bottom), stamp the cell with the
/// current attributes (and a continuation cell after a wide character), and
/// advance the cursor by the character's width.
pub open spec fn spec_print(t: TermView, ch: char) -> TermView {
    spec_print_write(spec_print_position(t, if is_wide_char(ch) { 2 } else { 1 }), ch)
}


/// The numeric parameter at `i`, zero when absent: how a handler reads an
/// omitted parameter.
pub open spec fn spec_param_at(ps: Seq<u16>, i: int) -> int {
    if 0 <= i < ps.len() {
        ps[i] as int
    } else {
        0
    }
}

/// The low byte of a parameter: how a parameter is narrowed where a color
/// index or channel is expected.
pub open spec fn spec_low_byte(v: u16) -> u8 {
    (v % 256) as u8
}

/// The rest of a parameter list after `k` parameters were consumed.
pub open spec fn sgr_skip(ps: Seq<u16>, k: int) -> Seq<u16> {
    if k <= ps.len() {
        ps.skip(k)
    } else {
        Seq::empty()
    }
}

/// Select-graphic-rendition: fold the parameter list over the attribute
/// state. Code 0 resets everything; 1, 3, 4 and 7 set bold, italic,
/// underline and inverse and 22, 23, 24 and 27 clear them; 30 to 37, 39 and
/// 90 to 97 pick the foreground and 40 to 47, 49 and 100 to 107 the
/// background; 38 and 48 take an extended color, indexed after a 5 or an RGB
/// triple after a 2. Unrecognized codes are ignored.
pub open spec fn spec_sgr(a: Attrs, ps: Seq<u16>) -> Attrs
    decreases ps.len(),
{
    if ps.len() == 0 {
        a
    } else {
        let p0 = ps[0] as int;
        let rest = sgr_skip(ps, 1);
        if p0 == 0 {
            spec_sgr(default_attrs(), rest)
        } else if p0 == 1 {
            spec_sgr(Attrs { bold: true, ..a }, rest)
        } else if p0 == 3 {
            spec_sgr(Attrs { italic: true, ..a }, rest)
        } else if p0 == 4 {
            spec_sgr(Attrs { underline: true, ..a }, rest)
        } else if p0 == 7 {
            spec_sgr(Attrs { inverse: true, ..a }, rest)
        } else if p0 == 22 {
            spec_sgr(Attrs { bold: false, ..a }, rest)
        } else if p0 == 23 {
            spec_sgr(Attrs { italic: false, ..a }, rest)
        } else if p0 == 24 {
            spec_sgr(Attrs { underline: false, ..a }, rest)
        } else if p0 == 27 {
            spec_sgr(Attrs { inverse: false, ..a }, rest)
        } else if 30 <= p0 <= 37 {
            spec_sgr(Attrs { fg: spec_ansi_color((p0 - 30) as u8), ..a }, rest)
        } else if p0 == 38 || p0 == 48 {
            let picked = if ps.len() >= 2 && ps[1] == 5 {
                (
                    if ps.len() >= 3 {
                        Some(spec_ansi_color(spec_low_byte(ps[2])))
                    } else {
                        Option::<Color>::None
                    },
                    3int,
                )
            } else if ps.len() >= 2 && ps[1] == 2 {
                (
                    Some(
                        Color::Rgb {
                            r: if ps.len() >= 3 { spec_low_byte(ps[2]) } else { 0 },
                            g: if ps.len() >= 4 { spec_low_byte(ps[3]) } else { 0 },
                            b: if ps.len() >= 5 { spec_low_byte(ps[4]) } else { 0 },
                        },
                    ),
                    5int,
                )
            } else {
                (Option::<Color>::None, 2int)
            };
            let a2 = match picked.0 {
                Some(color) => if p0 == 38 {
                    Attrs { fg: color, ..a }
                } else {
                    Attrs { bg: color, ..a }
                },
                None => a,
            };
            spec_sgr(a2, sgr_skip(ps, picked.1))
        } else if p0 == 39 {
            spec_sgr(Attrs { fg: Color::Default, ..a }, rest)
        } else if 40 <= p0 <= 47 {
            spec_sgr(Attrs { bg: spec_ansi_color((p0 - 40) as u8), ..a }, rest)
        } else if p0 == 49 {
            spec_sgr(Attrs { bg: Color::Default, ..a }, rest)
        } else if 90 <= p0 <= 97 {
            spec_sgr(Attrs { fg: spec_ansi_color((p0 - 90 + 8) as u8), ..a }, rest)
        } else if 100 <= p0 <= 107 {
            spec_sgr(Attrs { bg: spec_ansi_color((p0 - 100 + 8) as u8), ..a }, rest)
        } else {
            spec_sgr(a, rest)
        }
    }
}

/// Setting one private mode: 1 turns application cursor keys on, 25 shows
/// the cursor, and 1049 enters the alternate screen, saving the cursor and
/// starting from a freshly cleared alternate grid. Others are ignored.
pub open spec fn spec_set_mode(t: TermView, p: u16) -> TermView {
    if p == 1 {
        TermView { application_cursor: true, ..t }
    } else if p == 25 {
        TermView { cursor_visible: true, ..t }
    } else if p == 1049 {
        TermView {
            saved_row: t.cursor_row,
            saved_col: t.effective_col(),
            is_alt: true,
            alt: blank_grid(t.rows, t.cols),
            cursor_row: 0,
            cursor_col: 0,
            pending_wrap: false,
            ..t
        }
    } else {
        t
    }
}

/// Clearing one private mode: 1 turns application cursor keys off, 25 hides
/// the cursor, and 1049 leaves the alternate screen, restoring the saved
/// cursor clamped into bounds; the primary grid is untouched. Others are
/// ignored.
pub open spec fn spec_reset_mode(t: TermView, p: u16) -> TermView {
    if p == 1 {
        TermView { application_cursor: false, ..t }
    } else if p == 25 {
        TermView { cursor_visible: false, ..t }
    } else if p == 1049 {
        TermView {
            is_alt: false,
            cursor_row: min(t.saved_row, t.rows - 1),
            cursor_col: min(t.saved_col, t.cols - 1),
            pending_wrap: false,
            ..t
        }
    } else {
        t
    }
}

/// Setting every private mode a parameter list names, in order.
pub open spec fn spec_set_modes(t: TermView, ps: Seq<u16>) -> TermView
    decreases ps.len(),
{
    if ps.len() == 0 {
        t
    } else {
        spec_set_modes(spec_set_mode(t, ps[0]), ps.skip(1))
    }
}

/// Clearing every private mode a parameter list names, in order.
pub open spec fn spec_reset_modes(t: TermView, ps: Seq<u16>) -> TermView
    decreases ps.len(),
{
    if ps.len() == 0 {
        t
    } else {
        spec_reset_modes(spec_reset_mode(t, ps[0]), ps.skip(1))
    }
}

/// Setting the scroll region: one-based top and bottom bounds, the bottom
/// defaulting to the last row when omitted, both clamped into the grid.
pub open spec fn spec_set_scroll_region(t: TermView, p0: int, p1: int) -> TermView {
    let top = max(p0 - 1, 0);
    let bot = max((if p1 == 0 { t.rows } else { p1 }) - 1, 0);
    TermView {
        scroll_top: min(top, t.rows - 1),
        scroll_bottom: min(bot, t.rows - 1),
        ..t
    }
}

/// A plain escape sequence: ESC 7 and ESC 8 save and restore the cursor
/// position (and nothing else); ESC M scrolls the region down by one row
/// when the cursor stands at its top and otherwise just moves the cursor up.
/// Others are ignored.
pub open spec fn spec_esc(t: TermView, byte: u8) -> TermView {
    if byte == 0x37 {
        TermView { saved_row: t.cursor_row, saved_col: t.effective_col(), ..t }
    } else if byte == 0x38 {
        TermView {
            cursor_row: min(t.saved_row, t.rows - 1),
            cursor_col: min(t.saved_col, t.cols - 1),
            pending_wrap: false,
            ..t
        }
    } else if byte == 0x4D {
        if t.cursor_row == t.scroll_top {
            t.with_active(
                t.active().remove(t.scroll_bottom).insert(t.scroll_top, blank_row(t.cols)),
            )
        } else {
            TermView { cursor_row: max(t.cursor_row - 1, 0), ..t }
        }
    } else {
        t
    }
}


/// One row with the columns in `[from, to)` blanked; nothing else moves.
pub open spec fn row_erased(row: Seq<Cell>, from: int, to: int) -> Seq<Cell> {
    Seq::new(row.len(), |j: int| if from <= j < to { default_cell() } else { row[j] })
}

/// A grid with the rows in `[from, to)` blanked.
pub open spec fn rows_blanked(g: Seq<Seq<Cell>>, from: int, to: int, cols: int) -> Seq<
    Seq<Cell>,
> {
    Seq::new(g.len(), |i: int| if from <= i < to { blank_row(cols) } else { g[i] })
}

/// A grid with `k` blank rows pushed in at `r` inside the region ending at
/// `bot`; the rows from `r` shift down and those past the region's bottom
/// fall away.
pub open spec fn rows_inserted(g: Seq<Seq<Cell>>, r: int, bot: int, cols: int, k: int) -> Seq<
    Seq<Cell>,
> {
    Seq::new(
        g.len(),
        |i: int|
            if i < r || i > bot {
                g[i]
            } else if i < r + k {
                blank_row(cols)
            } else {
                g[i - k]
            },
    )
}

/// A grid with `k` rows deleted at `r` inside the region ending at `bot`;
/// the rows below shift up and blank rows fill the region's bottom.
pub open spec fn rows_deleted(g: Seq<Seq<Cell>>, r: int, bot: int, cols: int, k: int) -> Seq<
    Seq<Cell>,
> {
    Seq::new(
        g.len(),
        |i: int|
            if i < r || i > bot {
                g[i]
            } else if i + k <= bot {
                g[i + k]
            } else {
                blank_row(cols)
            },
    )
}

/// Erase-in-display: 0 erases from the cursor to the end of the screen, 1
/// from the start of the screen through the cursor, 2 and 3 the whole
/// screen. The cursor does not move; other modes are ignored.
pub open spec fn spec_erase_display(t: TermView, mode: int) -> TermView {
    let r = t.cursor_row;
    let c = t.effective_col();
    if mode == 0 {
        t.with_active(
            rows_blanked(
                t.active().update(r, row_erased(t.active()[r], c, t.cols)),
                r + 1,
                t.rows,
                t.cols,
            ),
        )
    } else if mode == 1 {
        t.with_active(
            rows_blanked(
                t.active().update(r, row_erased(t.active()[r], 0, min(c, t.cols - 1) + 1)),
                0,
                r,
                t.cols,
            ),
        )
    } else if mode == 2 || mode == 3 {
        t.with_active(rows_blanked(t.active(), 0, t.rows, t.cols))
    } else {
        t
    }
}

/// Erase-in-line: 0 erases from the cursor to the end of the row, 1 from
/// the row's start through the cursor, 2 the whole row. The cursor does not
/// move; other modes are ignored.
pub open spec fn spec_erase_line(t: TermView, mode: int) -> TermView {
    let r = t.cursor_row;
    let c = t.effective_col();
    if mode == 0 {
        t.with_active(t.active().update(r, row_erased(t.active()[r], c, t.cols)))
    } else if mode == 1 {
        t.with_active(
            t.active().update(r, row_erased(t.active()[r], 0, min(c, t.cols - 1) + 1)),
        )
    } else if mode == 2 {
        t.with_active(t.active().update(r, row_erased(t.active()[r], 0, t.cols)))
    } else {
        t
    }
}

/// Erase `n` characters in place from the cursor, clipped to the row's end;
/// nothing shifts and the cursor does not move.
pub open spec fn spec_erase_chars(t: TermView, n: int) -> TermView {
    let r = t.cursor_row;
    let c = t.effective_col();
    t.with_active(t.active().update(r, row_erased(t.active()[r], c, min(c + n, t.cols))))
}

/// Insert `n` blank cells at the cursor; the rest of the row shifts right
/// and cells pushed past the row's end fall away.
pub open spec fn spec_insert_blanks(t: TermView, n: int) -> TermView {
    let r = t.cursor_row;
    let c = t.effective_col();
    let row = t.active()[r];
    let row2 = Seq::new(
        row.len(),
        |j: int|
            if j < c {
                row[j]
            } else if j < c + n {
                default_cell()
            } else {
                row[j - n]
            },
    );
    t.with_active(t.active().update(r, row2))
}

/// Delete `n` cells at the cursor; the rest of the row shifts left and
/// blank cells pad the row's end. Nothing happens with the cursor resting
/// past the last column.
pub open spec fn spec_delete_chars(t: TermView, n: int) -> TermView {
    let r = t.cursor_row;
    let c = t.effective_col();
    if c < t.cols {
        let row = t.active()[r];
        let row2 = Seq::new(
            row.len(),
            |j: int|
                if j < c {
                    row[j]
                } else if j + n < row.len() {
                    row[j + n]
                } else {
                    default_cell()
                },
        );
        t.with_active(t.active().update(r, row2))
    } else {
        t
    }
}

/// Insert `n` blank lines at the cursor's row, honoring the scroll region:
/// rows shift down within the region only, and nothing happens with the
/// cursor outside it.
pub open spec fn spec_insert_lines(t: TermView, n: int) -> TermView {
    if t.scroll_top <= t.cursor_row <= t.scroll_bottom {
        t.with_active(
            rows_inserted(t.active(), t.cursor_row, t.scroll_bottom, t.cols, n),
        )
    } else {
        t
    }
}

/// Delete `n` lines at the cursor's row, honoring the scroll region: rows
/// shift up within the region only, and nothing happens with the cursor
/// outside it.
pub open spec fn spec_delete_lines(t: TermView, n: int) -> TermView {
    if t.scroll_top <= t.cursor_row <= t.scroll_bottom {
        t.with_active(
            rows_deleted(t.active(), t.cursor_row, t.scroll_bottom, t.cols, n),
        )
    } else {
        t
    }
}

/// One row cut or padded to `nc` columns: kept cells stay, new ones are
/// blank.
pub open spec fn resized_row(row: Seq<Cell>, nc: int) -> Seq<Cell> {
    Seq::new(nc as nat, |j: int| if j < row.len() { row[j] } else { default_cell() })
}

/// A grid cut or padded to `nr` rows of `nc` columns: kept cells stay, new
/// rows and columns are blank, never stale data.
pub open spec fn resized_grid(g: Seq<Seq<Cell>>, nr: int, nc: int) -> Seq<Seq<Cell>> {
    Seq::new(
        nr as nat,
        |i: int| if i < g.len() { resized_row(g[i], nc) } else { blank_row(nc) },
    )
}

/// Resizing the terminal: a degenerate or unchanged size is ignored; both
/// grids are cut or padded row by row and column by column, the scroll
/// region resets to the full new height, the cursor is clamped into the new
/// bounds, and the scrollback history is left exactly as it was.
pub open spec fn spec_resize(t: TermView, nr: int, nc: int) -> TermView {
    if nr == 0 || nc == 0 || nr > MAX_DIM || nc > MAX_DIM || (nr == t.rows && nc == t.cols) {
        t
    } else {
        TermView {
            rows: nr,
            cols: nc,
            primary: resized_grid(t.primary, nr, nc),
            alt: resized_grid(t.alt, nr, nc),
            scroll_top: 0,
            scroll_bottom: nr - 1,
            cursor_row: min(t.cursor_row, nr - 1),
            cursor_col: min(t.effective_col(), nc - 1),
            pending_wrap: false,
            ..t
        }
    }
}

/// A completed control sequence, dispatched on its final byte: character
/// attributes (`m`), absolute and relative cursor movement (`H f A B C D G
/// d`), erasing (`J K X`), inserting and deleting characters and lines
/// (`@ P L M`), the scroll region (`r`) and the private modes (`? h l`).
/// Anything else is ignored without effect.
pub open spec fn spec_csi(t: TermView, ps: Seq<u16>, inter: Seq<u8>, fin: u8) -> TermView {
    let p0 = spec_param_at(ps, 0);
    let p1 = spec_param_at(ps, 1);
    if fin == 0x6D {
        TermView { attrs: spec_sgr(t.attrs, ps), ..t }
    } else if fin == 0x48 || fin == 0x66 {
        TermView {
            cursor_row: min(max(p0 - 1, 0), t.rows - 1),
            cursor_col: min(max(p1 - 1, 0), t.cols - 1),
            pending_wrap: false,
            ..t
        }
    } else if fin == 0x41 {
        TermView { cursor_row: max(t.cursor_row - max(p0, 1), 0), ..t }
    } else if fin == 0x42 {
        TermView { cursor_row: min(t.cursor_row + max(p0, 1), t.rows - 1), ..t }
    } else if fin == 0x43 {
        TermView {
            cursor_col: min(t.effective_col() + max(p0, 1), t.cols - 1),
            pending_wrap: false,
            ..t
        }
    } else if fin == 0x44 {
        TermView {
            cursor_col: max(t.effective_col() - max(p0, 1), 0),
            pending_wrap: false,
            ..t
        }
    } else if fin == 0x47 {
        TermView { cursor_col: min(max(p0 - 1, 0), t.cols - 1), pending_wrap: false, ..t }
    } else if fin == 0x64 {
        TermView { cursor_row: min(max(p0 - 1, 0), t.rows - 1), ..t }
    } else if fin == 0x4A {
        spec_erase_display(t, p0)
    } else if fin == 0x4B {
        spec_erase_line(t, p0)
    } else if fin == 0x58 {
        spec_erase_chars(t, max(p0, 1))
    } else if fin == 0x40 {
        spec_insert_blanks(t, max(p0, 1))
    } else if fin == 0x50 {
        spec_delete_chars(t, max(p0, 1))
    } else if fin == 0x4C {
        spec_insert_lines(t, max(p0, 1))
    } else if fin == 0x4D {
        spec_delete_lines(t, max(p0, 1))
    } else if fin == 0x72 {
        spec_set_scroll_region(t, p0, p1)
    } else if fin == 0x68 && inter == seq![0x3Fu8] {
        spec_set_modes(t, ps)
    } else if fin == 0x6C && inter == seq![0x3Fu8] {
        spec_reset_modes(t, ps)
    } else {
        t
    }
}

impl TerminalState {
    /// Shift the scroll region up by one row; on the primary screen with a
    /// full-grid region the evicted top row moves into the scrollback.
    pub fn scroll_up(&mut self)
        requires
            old(self)@.wf(),
        ensures
            final(self)@ == spec_scroll_up(old(self)@),
            final(self)@.wf(),
    {
        let top = self.scroll_top;
        let bottom = self.scroll_bottom;
        if top >= bottom || bottom >= self.rows {
            return ;
        }
        let cols = self.cols;
        if top == 0 && bottom == self.rows - 1 {
            let evicted = self.remove_row(0);
            let blank = blank_row_vec(cols);
            self.push_row(blank);
            if !self.is_alt_screen {
                self.history.push(evicted);
                if self.history.len() > HISTORY_MAX {
                    self.history.remove(0);
                }
            }
        } else {
            let _evicted = self.remove_row(top);
            let blank = blank_row_vec(cols);
            self.insert_row(bottom, blank);
        }
        proof {
            assert(final(self)@ =~~= spec_scroll_up(old(self)@));
        }
    }

    /// Apply a single-byte control code.
    pub fn execute(&mut self, byte: u8)
        requires
            old(self)@.wf(),
        ensures
            final(self)@ == spec_execute(old(self)@, byte),
            final(self)@.wf(),
    {
        if byte == 0x0D {
            self.cursor_col = 0;
            self.pending_wrap = false;
        } else if byte == 0x0A || byte == 0x0B || byte == 0x0C {
            if self.cursor_row + 1 > self.scroll_bottom {
                self.cursor_row = self.scroll_bottom;
                self.scroll_up();
            } else {
                self.cursor_row = self.cursor_row + 1;
            }
        } else if byte == 0x08 {
            if self.pending_wrap {
                self.pending_wrap = false;
            } else if self.cursor_col > 0 {
                self.cursor_col = self.cursor_col - 1;
            }
        } else if byte == 0x09 {
            let next = (self.effective_col() / 8 + 1) * 8;
            self.cursor_col = if next < self.cols - 1 {
                next
            } else {
                self.cols - 1
            };
            self.pending_wrap = false;
        }
    }

    /// The column the next print lands in: one past the last column while a
    /// wrap is pending.
    fn effective_col(&self) -> (r: usize)
        requires
            self@.wf(),
        ensures
            r as int == self@.effective_col(),
            r <= self@.cols,
    {
        if self.pending_wrap {
            self.cols
        } else {
            self.cursor_col
        }
    }

    /// Wrap and scroll so the cursor can take a character of this width.
    fn wrap_and_scroll(&mut self, width: usize)
        requires
            old(self)@.wf(),
            width == 1 || width == 2,
        ensures
            final(self)@ == spec_print_position(old(self)@, width as int),
            final(self)@.wf(),
    {
        if self.effective_col() + width > self.cols {
            self.cursor_col = 0;
            self.pending_wrap = false;
            self.cursor_row = self.cursor_row + 1;
        }
        proof {
            assert(self@ =~~= (if old(self)@.effective_col() + width > old(self)@.cols {
                TermView {
                    cursor_col: 0,
                    pending_wrap: false,
                    cursor_row: old(self)@.cursor_row + 1,
                    ..old(self)@
                }
            } else {
                old(self)@
            }));
        }
        let ghost t1 = self@;
        if self.cursor_row > self.scroll_bottom {
            self.cursor_row = self.scroll_bottom;
            self.scroll_up();
        }
        proof {
            assert(final(self)@ =~~= (if t1.cursor_row > t1.scroll_bottom {
                spec_scroll_up(TermView { cursor_row: t1.scroll_bottom, ..t1 })
            } else {
                t1
            }));
        }
    }

    /// Stamp the character at the cursor and advance the cursor.
    fn write_char_cells(&mut self, ch: char, wide: bool)
        requires
            old(self)@.wf(),
            wide == is_wide_char(ch),
        ensures
            final(self)@ == spec_print_write(old(self)@, ch),
            final(self)@.wf(),
    {
        let width: usize = if wide { 2 } else { 1 };
        let r = self.cursor_row;
        let c = self.cursor_col;
        if r < self.rows {
            let cell = self.attrs.cell_for(ch);
            self.put_cell(r, c, cell);
            if wide && c + 1 < self.cols {
                self.put_cell(r, c + 1, Cell { c: ' ', is_wide_continuation: true, ..cell });
            }
            if c + width < self.cols {
                self.cursor_col = c + width;
                self.pending_wrap = false;
            } else {
                self.cursor_col = self.cols - 1;
                self.pending_wrap = true;
            }
        }
        proof {
            assert(final(self)@ =~~= spec_print_write(old(self)@, ch));
        }
    }

    /// Print one character at the cursor.
    pub fn print(&mut self, ch: char)
        requires
            old(self)@.wf(),
        ensures
            final(self)@ == spec_print(old(self)@, ch),
            final(self)@.wf(),
    {
        let wide = is_wide(ch);
        let width: usize = if wide { 2 } else { 1 };
        self.wrap_and_scroll(width);
        self.write_char_cells(ch, wide);
    }


    /// The numeric parameter at `i`, zero when absent.
    fn param(params: &Vec<u16>, i: usize) -> (r: usize)
        ensures
            r as int == spec_param_at(params@, i as int),
            r <= 0xFFFF,
    {
        if i < params.len() {
            params[i] as usize
        } else {
            0
        }
    }

    /// Fold a select-graphic-rendition parameter list over an attribute
    /// state.
    fn sgr_fold(a0: Attrs, params: &Vec<u16>) -> (r: Attrs)
        ensures
            r == spec_sgr(a0, params@),
    {
        let mut a = a0;
        let n = params.len();
        let mut i: usize = 0;
        proof {
            assert(sgr_skip(params@, 0) =~= params@);
        }
        while i < n
            invariant
                i <= n,
                n == params@.len(),
                spec_sgr(a0, params@) == spec_sgr(a, sgr_skip(params@, i as int)),
            decreases n - i,
        {
            let ghost suffix = sgr_skip(params@, i as int);
            proof {
                assert(suffix =~= params@.skip(i as int));
                assert(suffix[0] == params@[i as int]);
                assert(sgr_skip(suffix, 1) =~= sgr_skip(params@, i + 1));
            }
            let p0 = params[i];
            if p0 == 38 || p0 == 48 {
                proof {
                    if n - i > 1 {
                        assert(suffix[1] == params@[i as int + 1]);
                    }
                    if n - i > 2 {
                        assert(suffix[2] == params@[i as int + 2]);
                    }
                    if n - i > 3 {
                        assert(suffix[3] == params@[i as int + 3]);
                    }
                    if n - i > 4 {
                        assert(suffix[4] == params@[i as int + 4]);
                    }
                }
                let mut step: usize = 2;
                if n - i > 1 && params[i + 1] == 5 {
                    if n - i > 2 {
                        let color = ansi_color((params[i + 2] % 256) as u8);
                        if p0 == 38 {
                            a = Attrs { fg: color, ..a };
                        } else {
                            a = Attrs { bg: color, ..a };
                        }
                    }
                    step = 3;
                } else if n - i > 1 && params[i + 1] == 2 {
                    let cr = if n - i > 2 {
                        (params[i + 2] % 256) as u8
                    } else {
                        0
                    };
                    let cg = if n - i > 3 {
                        (params[i + 3] % 256) as u8
                    } else {
                        0
                    };
                    let cb = if n - i > 4 {
                        (params[i + 4] % 256) as u8
                    } else {
                        0
                    };
                    let color = Color::Rgb { r: cr, g: cg, b: cb };
                    if p0 == 38 {
                        a = Attrs { fg: color, ..a };
                    } else {
                        a = Attrs { bg: color, ..a };
                    }
                    step = 5;
                }
                i = if step < n - i {
                    i + step
                } else {
                    n
                };
                proof {
                    assert(sgr_skip(suffix, step as int) =~= sgr_skip(params@, i as int));
                }
            } else {
                if p0 == 0 {
                    a = Attrs::new();
                } else if p0 == 1 {
                    a = Attrs { bold: true, ..a };
                } else if p0 == 3 {
                    a = Attrs { italic: true, ..a };
                } else if p0 == 4 {
                    a = Attrs { underline: true, ..a };
                } else if p0 == 7 {
                    a = Attrs { inverse: true, ..a };
                } else if p0 == 22 {
                    a = Attrs { bold: false, ..a };
                } else if p0 == 23 {
                    a = Attrs { italic: false, ..a };
                } else if p0 == 24 {
                    a = Attrs { underline: false, ..a };
                } else if p0 == 27 {
                    a = Attrs { inverse: false, ..a };
                } else if 30 <= p0 && p0 <= 37 {
                    a = Attrs { fg: ansi_color((p0 - 30) as u8), ..a };
                } else if p0 == 39 {
                    a = Attrs { fg: Color::Default, ..a };
                } else if 40 <= p0 && p0 <= 47 {
                    a = Attrs { bg: ansi_color((p0 - 40) as u8), ..a };
                } else if p0 == 49 {
                    a = Attrs { bg: Color::Default, ..a };
                } else if 90 <= p0 && p0 <= 97 {
                    a = Attrs { fg: ansi_color((p0 - 90 + 8) as u8), ..a };
                } else if 100 <= p0 && p0 <= 107 {
                    a = Attrs { bg: ansi_color((p0 - 100 + 8) as u8), ..a };
                }
                i = i + 1;
            }
        }
        proof {
            assert(sgr_skip(params@, n as int) =~= Seq::<u16>::empty());
        }
        a
    }

    /// Set every private mode the parameter list names.
    fn set_modes(&mut self, params: &Vec<u16>)
        requires
            old(self)@.wf(),
        ensures
            final(self)@ == spec_set_modes(old(self)@, params@),
            final(self)@.wf(),
    {
        let n = params.len();
        let mut i: usize = 0;
        proof {
            assert(params@.skip(0) =~= params@);
        }
        while i < n
            invariant
                i <= n,
                n == params@.len(),
                self@.wf(),
                spec_set_modes(old(self)@, params@) == spec_set_modes(
                    self@,
                    params@.skip(i as int),
                ),
            decreases n - i,
        {
            let ghost tcur = self@;
            proof {
                assert(params@.skip(i as int)[0] == params@[i as int]);
                assert(params@.skip(i as int).skip(1) =~= params@.skip(i + 1));
            }
            let p = params[i];
            if p == 1 {
                self.application_cursor = true;
            } else if p == 25 {
                self.cursor_visible = true;
            } else if p == 1049 {
                self.saved_row = self.cursor_row;
                self.saved_col = self.effective_col();
                self.is_alt_screen = true;
                let rows = self.rows;
                let cols = self.cols;
                self.alt_grid = blank_grid_vec(rows, cols);
                self.cursor_row = 0;
                self.cursor_col = 0;
                self.pending_wrap = false;
            }
            proof {
                assert(self@ =~~= spec_set_mode(tcur, p));
            }
            i = i + 1;
        }
        proof {
            assert(params@.skip(n as int) =~= Seq::<u16>::empty());
        }
    }

    /// Clear every private mode the parameter list names.
    fn reset_modes(&mut self, params: &Vec<u16>)
        requires
            old(self)@.wf(),
        ensures
            final(self)@ == spec_reset_modes(old(self)@, params@),
            final(self)@.wf(),
    {
        let n = params.len();
        let mut i: usize = 0;
        proof {
            assert(params@.skip(0) =~= params@);
        }
        while i < n
            invariant
                i <= n,
                n == params@.len(),
                self@.wf(),
                spec_reset_modes(old(self)@, params@) == spec_reset_modes(
                    self@,
                    params@.skip(i as int),
                ),
            decreases n - i,
        {
            let ghost tcur = self@;
            proof {
                assert(params@.skip(i as int)[0] == params@[i as int]);
                assert(params@.skip(i as int).skip(1) =~= params@.skip(i + 1));
            }
            let p = params[i];
            if p == 1 {
                self.application_cursor = false;
            } else if p == 25 {
                self.cursor_visible = false;
            } else if p == 1049 {
                self.is_alt_screen = false;
                self.cursor_row = if self.saved_row < self.rows - 1 {
                    self.saved_row
                } else {
                    self.rows - 1
                };
                self.cursor_col = if self.saved_col < self.cols - 1 {
                    self.saved_col
                } else {
                    self.cols - 1
                };
                self.pending_wrap = false;
            }
            proof {
                assert(self@ =~~= spec_reset_mode(tcur, p));
            }
            i = i + 1;
        }
        proof {
            assert(params@.skip(n as int) =~= Seq::<u16>::empty());
        }
    }

    /// Set the scroll region from one-based bounds.
    fn set_scroll_region(&mut self, p0: usize, p1: usize)
        requires
            old(self)@.wf(),
            p0 <= 0xFFFF,
            p1 <= 0xFFFF,
        ensures
            final(self)@ == spec_set_scroll_region(old(self)@, p0 as int, p1 as int),
            final(self)@.wf(),
    {
        let top = if p0 >= 1 {
            p0 - 1
        } else {
            0
        };
        let bot0 = if p1 == 0 {
            self.rows
        } else {
            p1
        };
        let bot = if bot0 >= 1 {
            bot0 - 1
        } else {
            0
        };
        self.scroll_top = if top < self.rows - 1 {
            top
        } else {
            self.rows - 1
        };
        self.scroll_bottom = if bot < self.rows - 1 {
            bot
        } else {
            self.rows - 1
        };
    }

    /// Apply a plain escape sequence.
    pub fn esc_dispatch(&mut self, byte: u8)
        requires
            old(self)@.wf(),
        ensures
            final(self)@ == spec_esc(old(self)@, byte),
            final(self)@.wf(),
    {
        if byte == 0x37 {
            self.saved_row = self.cursor_row;
            self.saved_col = self.effective_col();
        } else if byte == 0x38 {
            self.cursor_row = if self.saved_row < self.rows - 1 {
                self.saved_row
            } else {
                self.rows - 1
            };
            self.cursor_col = if self.saved_col < self.cols - 1 {
                self.saved_col
            } else {
                self.cols - 1
            };
            self.pending_wrap = false;
        } else if byte == 0x4D {
            if self.cursor_row == self.scroll_top {
                let bottom = self.scroll_bottom;
                let top = self.scroll_top;
                let cols = self.cols;
                let _evicted = self.remove_row(bottom);
                let blank = blank_row_vec(cols);
                self.insert_row(top, blank);
            } else {
                if self.cursor_row > 0 {
                    self.cursor_row = self.cursor_row - 1;
                }
            }
            proof {
                assert(final(self)@ =~~= spec_esc(old(self)@, byte));
            }
        }
    }


    /// Blank the cells `[from, to)` of one row of the active grid.
    fn erase_in_row(&mut self, r: usize, from: usize, to: usize)
        requires
            old(self)@.wf(),
            r < old(self)@.rows,
            to <= old(self)@.cols,
        ensures
            final(self)@ == old(self)@.with_active(
                old(self)@.active().update(
                    r as int,
                    row_erased(old(self)@.active()[r as int], from as int, to as int),
                ),
            ),
            final(self)@.wf(),
    {
        let cols = self.cols;
        let ghost target = row_erased(self@.active()[r as int], from as int, to as int);
        let mut row: Vec<Cell> = Vec::new();
        let mut j: usize = 0;
        while j < cols
            invariant
                j <= cols,
                self == old(self),
                self@.wf(),
                r < self@.rows,
                cols == self@.cols,
                target == row_erased(self@.active()[r as int], from as int, to as int),
                target.len() == cols,
                row@ == target.subrange(0, j as int),
            decreases cols - j,
        {
            let cell = if from <= j && j < to {
                Cell::default()
            } else {
                self.read_cell(r, j)
            };
            row.push(cell);
            proof {
                assert(row@ =~= target.subrange(0, j + 1));
            }
            j += 1;
        }
        proof {
            assert(row@ =~= target);
        }
        self.set_row(r, row);
    }

    /// Blank the rows `[from, to)` of the active grid.
    fn blank_rows(&mut self, from: usize, to: usize)
        requires
            old(self)@.wf(),
            to <= old(self)@.rows,
        ensures
            final(self)@ == old(self)@.with_active(
                rows_blanked(old(self)@.active(), from as int, to as int, old(self)@.cols),
            ),
            final(self)@.wf(),
    {
        let cols = self.cols;
        let mut i: usize = from;
        if from >= to {
            proof {
                assert(final(self)@ =~~= old(self)@.with_active(
                    rows_blanked(old(self)@.active(), from as int, to as int, old(self)@.cols),
                ));
            }
            return ;
        }
        while i < to
            invariant
                from <= i <= to,
                to <= old(self)@.rows,
                cols == old(self)@.cols,
                self@.wf(),
                self@ == old(self)@.with_active(
                    rows_blanked(old(self)@.active(), from as int, i as int, old(self)@.cols),
                ),
            decreases to - i,
        {
            let blank = blank_row_vec(cols);
            self.set_row(i, blank);
            proof {
                assert(self@ =~~= old(self)@.with_active(
                    rows_blanked(old(self)@.active(), from as int, i + 1, old(self)@.cols),
                ));
            }
            i += 1;
        }
    }

    /// Insert `n` blank cells at `(r, c)`; the row's tail shifts right.
    fn insert_blanks_in_row(&mut self, r: usize, c: usize, n: usize)
        requires
            old(self)@.wf(),
            r < old(self)@.rows,
            c <= old(self)@.cols,
        ensures
            final(self)@ == old(self)@.with_active(
                old(self)@.active().update(
                    r as int,
                    Seq::new(
                        old(self)@.active()[r as int].len() as nat,
                        |j: int|
                            if j < c {
                                old(self)@.active()[r as int][j]
                            } else if j < c + n {
                                default_cell()
                            } else {
                                old(self)@.active()[r as int][j - n]
                            },
                    ),
                ),
            ),
            final(self)@.wf(),
    {
        let cols = self.cols;
        let ghost target = Seq::new(
            self@.active()[r as int].len() as nat,
            |j: int|
                if j < c {
                    self@.active()[r as int][j]
                } else if j < c + n {
                    default_cell()
                } else {
                    self@.active()[r as int][j - n]
                },
        );
        let mut row: Vec<Cell> = Vec::new();
        let mut j: usize = 0;
        while j < cols
            invariant
                j <= cols,
                self == old(self),
                self@.wf(),
                r < self@.rows,
                c <= self@.cols,
                cols == self@.cols,
                target.len() == cols,
                forall|x: int|
                    0 <= x < cols ==> #[trigger] target[x] == (if x < c {
                        self@.active()[r as int][x]
                    } else if x < c + n {
                        default_cell()
                    } else {
                        self@.active()[r as int][x - n]
                    }),
                row@ == target.subrange(0, j as int),
            decreases cols - j,
        {
            let cell = if j < c {
                self.read_cell(r, j)
            } else if n < cols && j < c + n {
                Cell::default()
            } else if j >= n {
                self.read_cell(r, j - n)
            } else {
                Cell::default()
            };
            proof {
                assert(cell == target[j as int]);
            }
            row.push(cell);
            proof {
                assert(row@ =~= target.subrange(0, j + 1));
            }
            j += 1;
        }
        proof {
            assert(row@ =~= target);
        }
        self.set_row(r, row);
    }

    /// Delete `n` cells at `(r, c)`; the row's tail shifts left and blank
    /// cells pad its end.
    fn delete_cells_in_row(&mut self, r: usize, c: usize, n: usize)
        requires
            old(self)@.wf(),
            r < old(self)@.rows,
            c < old(self)@.cols,
        ensures
            final(self)@ == old(self)@.with_active(
                old(self)@.active().update(
                    r as int,
                    Seq::new(
                        old(self)@.active()[r as int].len() as nat,
                        |j: int|
                            if j < c {
                                old(self)@.active()[r as int][j]
                            } else if j + n < old(self)@.active()[r as int].len() {
                                old(self)@.active()[r as int][j + n]
                            } else {
                                default_cell()
                            },
                    ),
                ),
            ),
            final(self)@.wf(),
    {
        let cols = self.cols;
        let ghost target = Seq::new(
            self@.active()[r as int].len() as nat,
            |j: int|
                if j < c {
                    self@.active()[r as int][j]
                } else if j + n < self@.active()[r as int].len() {
                    self@.active()[r as int][j + n]
                } else {
                    default_cell()
                },
        );
        let mut row: Vec<Cell> = Vec::new();
        let mut j: usize = 0;
        while j < cols
            invariant
                j <= cols,
                self == old(self),
                self@.wf(),
                r < self@.rows,
                cols == self@.cols,
                target.len() == cols,
                forall|x: int|
                    0 <= x < cols ==> #[trigger] target[x] == (if x < c {
                        self@.active()[r as int][x]
                    } else if x + n < cols {
                        self@.active()[r as int][x + n]
                    } else {
                        default_cell()
                    }),
                row@ == target.subrange(0, j as int),
            decreases cols - j,
        {
            let cell = if j < c {
                self.read_cell(r, j)
            } else if n < cols && j < cols - n {
                self.read_cell(r, j + n)
            } else {
                Cell::default()
            };
            proof {
                assert(cell == target[j as int]);
            }
            row.push(cell);
            proof {
                assert(row@ =~= target.subrange(0, j + 1));
            }
            j += 1;
        }
        proof {
            assert(row@ =~= target);
        }
        self.set_row(r, row);
    }

    /// Insert `n` blank lines at the cursor's row within the scroll region.
    fn insert_lines(&mut self, n: usize)
        requires
            old(self)@.wf(),
            n >= 1,
        ensures
            final(self)@ == spec_insert_lines(old(self)@, n as int),
            final(self)@.wf(),
    {
        let r = self.cursor_row;
        let top = self.scroll_top;
        let bottom = self.scroll_bottom;
        let cols = self.cols;
        if r >= top && r <= bottom {
            let mut k: usize = 0;
            proof {
                assert(self@.active() =~~= rows_inserted(
                    old(self)@.active(),
                    r as int,
                    bottom as int,
                    cols as int,
                    0,
                ));
                assert(self@ =~~= old(self)@.with_active(
                    rows_inserted(old(self)@.active(), r as int, bottom as int, cols as int, 0),
                ));
            }
            while k < n
                invariant
                    k <= n,
                    r == self@.cursor_row,
                    top == self@.scroll_top,
                    bottom == self@.scroll_bottom,
                    cols == self@.cols,
                    top <= r <= bottom,
                    self@.wf(),
                    self@ == old(self)@.with_active(
                        rows_inserted(
                            old(self)@.active(),
                            r as int,
                            bottom as int,
                            cols as int,
                            k as int,
                        ),
                    ),
                decreases n - k,
            {
                let _evicted = self.remove_row(bottom);
                let blank = blank_row_vec(cols);
                self.insert_row(r, blank);
                proof {
                    assert(self@ =~~= old(self)@.with_active(
                        rows_inserted(
                            old(self)@.active(),
                            r as int,
                            bottom as int,
                            cols as int,
                            k + 1,
                        ),
                    ));
                }
                k += 1;
            }
        }
    }

    /// Delete `n` lines at the cursor's row within the scroll region.
    fn delete_lines(&mut self, n: usize)
        requires
            old(self)@.wf(),
            n >= 1,
        ensures
            final(self)@ == spec_delete_lines(old(self)@, n as int),
            final(self)@.wf(),
    {
        let r = self.cursor_row;
        let top = self.scroll_top;
        let bottom = self.scroll_bottom;
        let cols = self.cols;
        if r >= top && r <= bottom {
            let mut k: usize = 0;
            proof {
                assert(self@ =~~= old(self)@.with_active(
                    rows_deleted(old(self)@.active(), r as int, bottom as int, cols as int, 0),
                ));
            }
            while k < n
                invariant
                    k <= n,
                    r == self@.cursor_row,
                    top == self@.scroll_top,
                    bottom == self@.scroll_bottom,
                    cols == self@.cols,
                    top <= r <= bottom,
                    self@.wf(),
                    self@ == old(self)@.with_active(
                        rows_deleted(
                            old(self)@.active(),
                            r as int,
                            bottom as int,
                            cols as int,
                            k as int,
                        ),
                    ),
                decreases n - k,
            {
                let _evicted = self.remove_row(r);
                let blank = blank_row_vec(cols);
                self.insert_row(bottom, blank);
                proof {
                    assert(self@ =~~= old(self)@.with_active(
                        rows_deleted(
                            old(self)@.active(),
                            r as int,
                            bottom as int,
                            cols as int,
                            k + 1,
                        ),
                    ));
                }
                k += 1;
            }
        }
    }

    /// Cut or pad one row to `nc` columns.
    fn resize_row(row: &mut Vec<Cell>, nc: usize)
        ensures
            final(row)@ == resized_row(old(row)@, nc as int),
    {
        row.truncate(nc);
        let mut j = row.len();
        while j < nc
            invariant
                j == row@.len(),
                j <= nc,
                min(nc as int, old(row)@.len() as int) <= j as int,
                row@ == resized_row(old(row)@, nc as int).subrange(0, j as int),
            decreases nc - j,
        {
            row.push(Cell::default());
            proof {
                assert(row@ =~= resized_row(old(row)@, nc as int).subrange(0, j + 1));
            }
            j += 1;
        }
        proof {
            assert(row@ =~= resized_row(old(row)@, nc as int));
        }
    }

    /// Cut or pad a grid to `nr` rows of `nc` columns.
    fn resize_grid(g: &mut Vec<Vec<Cell>>, nr: usize, nc: usize)
        ensures
            grid_view(final(g)@) == resized_grid(grid_view(old(g)@), nr as int, nc as int),
    {
        let ghost g0 = grid_view(old(g)@);
        g.truncate(nr);
        let mut i = g.len();
        while i < nr
            invariant
                i == g@.len(),
                i <= nr,
                min(nr as int, g0.len() as int) <= i as int,
                forall|x: int|
                    0 <= x < min(nr as int, g0.len() as int) ==> #[trigger] grid_view(g@)[x]
                        == g0[x],
                forall|x: int|
                    min(nr as int, g0.len() as int) <= x < i ==> #[trigger] grid_view(g@)[x]
                        == blank_row(nc as int),
            decreases nr - i,
        {
            let ghost prev = g@;
            let blank = blank_row_vec(nc);
            g.push(blank);
            proof {
                assert forall|x: int|
                    0 <= x < min(nr as int, g0.len() as int) implies #[trigger] grid_view(g@)[x]
                    == g0[x] by {
                    assert(grid_view(prev)[x] == g0[x]);
                    assert(g@[x] == prev[x]);
                }
                assert forall|x: int|
                    min(nr as int, g0.len() as int) <= x < i + 1 implies #[trigger] grid_view(
                    g@,
                )[x] == blank_row(nc as int) by {
                    if x < i as int {
                        assert(grid_view(prev)[x] == blank_row(nc as int));
                        assert(g@[x] == prev[x]);
                    } else {
                        assert(g@[x]@ == blank_row(nc as int));
                    }
                }
            }
            i += 1;
        }
        let m = g.len();
        let mut k: usize = 0;
        while k < m
            invariant
                k <= m,
                m == nr,
                m == g@.len(),
                forall|x: int|
                    k <= x < m ==> #[trigger] grid_view(g@)[x] == (if x < min(
                        nr as int,
                        g0.len() as int,
                    ) {
                        g0[x]
                    } else {
                        blank_row(nc as int)
                    }),
                forall|x: int|
                    0 <= x < k ==> #[trigger] grid_view(g@)[x] == resized_grid(
                        g0,
                        nr as int,
                        nc as int,
                    )[x],
            decreases m - k,
        {
            let ghost prev = g@;
            let row = &mut g[k];
            Self::resize_row(row, nc);
            proof {
                assert(grid_view(prev)[k as int] == (if (k as int) < min(
                    nr as int,
                    g0.len() as int,
                ) {
                    g0[k as int]
                } else {
                    blank_row(nc as int)
                }));
                assert(grid_view(g@)[k as int] == resized_row(
                    grid_view(prev)[k as int],
                    nc as int,
                ));
                if k as int >= min(nr as int, g0.len() as int) {
                    assert(resized_row(blank_row(nc as int), nc as int) =~= blank_row(
                        nc as int,
                    ));
                }
                assert forall|x: int|
                    k + 1 <= x < m implies #[trigger] grid_view(g@)[x] == (if x < min(
                    nr as int,
                    g0.len() as int,
                ) {
                    g0[x]
                } else {
                    blank_row(nc as int)
                }) by {
                    assert(grid_view(prev)[x] == (if x < min(nr as int, g0.len() as int) {
                        g0[x]
                    } else {
                        blank_row(nc as int)
                    }));
                    assert(g@[x] == prev[x]);
                }
                assert forall|x: int|
                    0 <= x < k + 1 implies #[trigger] grid_view(g@)[x] == resized_grid(
                    g0,
                    nr as int,
                    nc as int,
                )[x] by {
                    if x < k as int {
                        assert(grid_view(prev)[x] == resized_grid(g0, nr as int, nc as int)[x]);
                        assert(g@[x] == prev[x]);
                    }
                }
            }
            k += 1;
        }
        proof {
            assert(grid_view(g@) =~~= resized_grid(g0, nr as int, nc as int));
        }
    }

    /// Resize the terminal. A zero or oversized dimension, or the current
    /// size, is ignored; otherwise both grids are cut or padded, the scroll
    /// region resets to the full new height, the cursor is clamped, and the
    /// scrollback history stays as it was.
    pub fn resize(&mut self, new_rows: usize, new_cols: usize)
        requires
            old(self)@.wf(),
        ensures
            final(self)@ == spec_resize(old(self)@, new_rows as int, new_cols as int),
            final(self)@.wf(),
    {
        if new_rows == 0 || new_cols == 0 || new_rows > MAX_DIM || new_cols > MAX_DIM {
            return ;
        }
        if new_rows == self.rows && new_cols == self.cols {
            return ;
        }
        let col = self.effective_col();
        Self::resize_grid(&mut self.primary_grid, new_rows, new_cols);
        Self::resize_grid(&mut self.alt_grid, new_rows, new_cols);
        self.rows = new_rows;
        self.cols = new_cols;
        self.scroll_top = 0;
        self.scroll_bottom = new_rows - 1;
        self.cursor_row = if self.cursor_row < new_rows - 1 {
            self.cursor_row
        } else {
            new_rows - 1
        };
        self.cursor_col = if col < new_cols - 1 {
            col
        } else {
            new_cols - 1
        };
        self.pending_wrap = false;
        proof {
            assert(final(self)@ =~~= spec_resize(
                old(self)@,
                new_rows as int,
                new_cols as int,
            ));
        }
    }


    /// Erase part of the screen without moving the cursor.
    fn erase_display(&mut self, mode: usize)
        requires
            old(self)@.wf(),
        ensures
            final(self)@ == spec_erase_display(old(self)@, mode as int),
            final(self)@.wf(),
    {
        let r = self.cursor_row;
        let c = self.effective_col();
        let rows = self.rows;
        let cols = self.cols;
        if mode == 0 {
            self.erase_in_row(r, c, cols);
            self.blank_rows(r + 1, rows);
            proof {
                assert(final(self)@ =~~= spec_erase_display(old(self)@, mode as int));
            }
        } else if mode == 1 {
            let m = if c < cols - 1 {
                c
            } else {
                cols - 1
            };
            self.erase_in_row(r, 0, m + 1);
            self.blank_rows(0, r);
            proof {
                assert(final(self)@ =~~= spec_erase_display(old(self)@, mode as int));
            }
        } else if mode == 2 || mode == 3 {
            self.blank_rows(0, rows);
        }
    }

    /// Erase part of the cursor's row without moving the cursor.
    fn erase_line(&mut self, mode: usize)
        requires
            old(self)@.wf(),
        ensures
            final(self)@ == spec_erase_line(old(self)@, mode as int),
            final(self)@.wf(),
    {
        let r = self.cursor_row;
        let c = self.effective_col();
        let cols = self.cols;
        if mode == 0 {
            self.erase_in_row(r, c, cols);
        } else if mode == 1 {
            let m = if c < cols - 1 {
                c
            } else {
                cols - 1
            };
            self.erase_in_row(r, 0, m + 1);
        } else if mode == 2 {
            self.erase_in_row(r, 0, cols);
        }
    }

    /// Apply a completed control sequence.
    pub fn csi_dispatch(&mut self, params: &Vec<u16>, intermediates: &Vec<u8>, final_byte: u8)
        requires
            old(self)@.wf(),
        ensures
            final(self)@ == spec_csi(old(self)@, params@, intermediates@, final_byte),
            final(self)@.wf(),
    {
        let p0 = Self::param(params, 0);
        let p1 = Self::param(params, 1);
        let n1 = if p0 >= 1 {
            p0
        } else {
            1
        };
        let private = intermediates.len() == 1 && intermediates[0] == 0x3F;
        proof {
            if private {
                assert(intermediates@ =~= seq![0x3Fu8]);
            } else if intermediates@ == seq![0x3Fu8] {
                assert(intermediates@.len() == 1);
                assert(intermediates@[0] == 0x3F);
                assert(false);
            }
        }
        if final_byte == 0x6D {
            let a = Self::sgr_fold(self.attrs, params);
            self.attrs = a;
        } else if final_byte == 0x48 || final_byte == 0x66 {
            let r = if p0 >= 1 {
                p0 - 1
            } else {
                0
            };
            let c = if p1 >= 1 {
                p1 - 1
            } else {
                0
            };
            self.cursor_row = if r < self.rows - 1 {
                r
            } else {
                self.rows - 1
            };
            self.cursor_col = if c < self.cols - 1 {
                c
            } else {
                self.cols - 1
            };
            self.pending_wrap = false;
        } else if final_byte == 0x41 {
            self.cursor_row = if self.cursor_row >= n1 {
                self.cursor_row - n1
            } else {
                0
            };
        } else if final_byte == 0x42 {
            let sum = self.cursor_row + n1;
            self.cursor_row = if sum < self.rows - 1 {
                sum
            } else {
                self.rows - 1
            };
        } else if final_byte == 0x43 {
            let sum = self.effective_col() + n1;
            self.cursor_col = if sum < self.cols - 1 {
                sum
            } else {
                self.cols - 1
            };
            self.pending_wrap = false;
        } else if final_byte == 0x44 {
            let col = self.effective_col();
            self.cursor_col = if col >= n1 {
                col - n1
            } else {
                0
            };
            self.pending_wrap = false;
        } else if final_byte == 0x47 {
            let c = if p0 >= 1 {
                p0 - 1
            } else {
                0
            };
            self.cursor_col = if c < self.cols - 1 {
                c
            } else {
                self.cols - 1
            };
            self.pending_wrap = false;
        } else if final_byte == 0x64 {
            let r = if p0 >= 1 {
                p0 - 1
            } else {
                0
            };
            self.cursor_row = if r < self.rows - 1 {
                r
            } else {
                self.rows - 1
            };
        } else if final_byte == 0x4A {
            self.erase_display(p0);
        } else if final_byte == 0x4B {
            self.erase_line(p0);
        } else if final_byte == 0x58 {
            let r = self.cursor_row;
            let c = self.effective_col();
            let cols = self.cols;
            let to = if c + n1 < cols {
                c + n1
            } else {
                cols
            };
            self.erase_in_row(r, c, to);
            proof {
                assert(final(self)@ =~~= spec_erase_chars(old(self)@, n1 as int));
            }
        } else if final_byte == 0x40 {
            let r = self.cursor_row;
            let c = self.effective_col();
            self.insert_blanks_in_row(r, c, n1);
            proof {
                assert(final(self)@ =~~= spec_insert_blanks(old(self)@, n1 as int));
            }
        } else if final_byte == 0x50 {
            let r = self.cursor_row;
            let c = self.effective_col();
            if c < self.cols {
                self.delete_cells_in_row(r, c, n1);
                proof {
                    assert(final(self)@ =~~= spec_delete_chars(old(self)@, n1 as int));
                }
            }
        } else if final_byte == 0x4C {
            self.insert_lines(n1);
        } else if final_byte == 0x4D {
            self.delete_lines(n1);
        } else if final_byte == 0x72 {
            self.set_scroll_region(p0, p1);
        } else if final_byte == 0x68 && private {
            self.set_modes(params);
        } else if final_byte == 0x6C && private {
            self.reset_modes(params);
        }
    }

}

} // verus!
