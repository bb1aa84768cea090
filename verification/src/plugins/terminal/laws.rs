//! Laws of the engine, proved over the specification-level transition
//! functions: the grid-bounds invariant holds after any byte sequence, the
//! scrollback grows by exactly the evicted row and stays capped, and the
//! alternate screen hands the primary grid back untouched.

use vstd::prelude::*;

use crate::plugins::terminal::cell::{default_cell, Cell};
use crate::plugins::terminal::parser::{lemma_advance_wf, spec_advance, ActionV, ParserV};
use crate::plugins::terminal::session::{spec_apply, spec_apply_all, spec_process};
use crate::plugins::terminal::state::{
    blank_row, grid_wf, row_erased, rows_blanked, rows_deleted, rows_inserted, spec_csi,
    spec_erase_display, spec_erase_line, spec_esc, spec_execute, spec_param_at, spec_print,
    spec_print_position, spec_print_write, spec_reset_mode, spec_reset_modes, spec_resize,
    spec_scroll_up, spec_set_mode, spec_set_modes, TermView, HISTORY_MAX, MAX_DIM,
};
use crate::plugins::terminal::width::is_wide_char;

verus! {

use vstd::math::{max, min};

/// Replacing one well-sized row keeps a grid well-formed.
proof fn lemma_grid_wf_update(g: Seq<Seq<Cell>>, rows: int, cols: int, r: int, row: Seq<Cell>)
    requires
        grid_wf(g, rows, cols),
        0 <= r < rows,
        row.len() == cols,
    ensures
        grid_wf(g.update(r, row), rows, cols),
{
    assert forall|i: int| 0 <= i < rows implies (#[trigger] g.update(r, row)[i]).len()
        == cols by {
        if i != r {
            assert(g.update(r, row)[i] == g[i]);
        }
    }
}

/// Scrolling keeps the state well-formed.
proof fn lemma_scroll_up_wf(t: TermView)
    requires
        t.wf(),
    ensures
        spec_scroll_up(t).wf(),
{
    if t.scroll_top >= t.scroll_bottom || t.scroll_bottom >= t.rows {
    } else if t.scroll_top == 0 && t.scroll_bottom == t.rows - 1 {
        let g2 = t.active().remove(0).push(blank_row(t.cols));
        assert forall|i: int| 0 <= i < t.rows implies (#[trigger] g2[i]).len() == t.cols by {
            if i < t.rows - 1 {
                assert(g2[i] == t.active()[i + 1]);
            } else {
                assert(g2[i] == blank_row(t.cols));
            }
        }
        assert(grid_wf(g2, t.rows, t.cols));
    } else {
        let top = t.scroll_top;
        let bot = t.scroll_bottom;
        let g1 = t.active().remove(top);
        let g2 = g1.insert(bot, blank_row(t.cols));
        t.active().remove_ensures(top);
        g1.insert_ensures(bot, blank_row(t.cols));
        assert forall|i: int| 0 <= i < t.rows implies (#[trigger] g2[i]).len() == t.cols by {
            if i < top {
                assert(g2[i] == t.active()[i]);
            } else if i < bot {
                assert(g2[i] == g1[i]);
                assert(g1[i] == t.active()[i + 1]);
            } else if i == bot {
                assert(g2[i] == blank_row(t.cols));
            } else {
                assert(g2[i] == g1[i - 1]);
                assert(g1[i - 1] == t.active()[i]);
            }
        }
        assert(grid_wf(g2, t.rows, t.cols));
    }
}

/// Control codes keep the state well-formed.
proof fn lemma_execute_wf(t: TermView, b: u8)
    requires
        t.wf(),
    ensures
        spec_execute(t, b).wf(),
{
    if b == 0x0A || b == 0x0B || b == 0x0C {
        if t.cursor_row + 1 > t.scroll_bottom {
            lemma_scroll_up_wf(TermView { cursor_row: t.scroll_bottom, ..t });
        }
    }
}

/// Printing keeps the state well-formed.
proof fn lemma_print_wf(t: TermView, ch: char)
    requires
        t.wf(),
    ensures
        spec_print(t, ch).wf(),
        spec_print_position(t, 1).wf(),
        spec_print_position(t, 2).wf(),
{
    assert forall|width: int| width == 1 || width == 2 implies (#[trigger] spec_print_position(
        t,
        width,
    )).wf() by {
        let t1 = if t.cursor_col + width > t.cols {
            TermView { cursor_col: 0, cursor_row: t.cursor_row + 1, ..t }
        } else {
            t
        };
        if t1.cursor_row > t1.scroll_bottom {
            lemma_scroll_up_wf(TermView { cursor_row: t1.scroll_bottom, ..t1 });
        }
    }
    let width: int = if is_wide_char(ch) {
        2
    } else {
        1
    };
    let t2 = spec_print_position(t, width);
    if t2.cursor_row < t2.rows {
        let cell = t2.attrs.spec_cell_for(ch);
        let r = t2.cursor_row;
        let c = t2.cursor_col;
        let g1 = t2.active().update(r, t2.active()[r].update(c, cell));
        lemma_grid_wf_update(t2.active(), t2.rows, t2.cols, r, t2.active()[r].update(c, cell));
        if is_wide_char(ch) && c + 1 < t2.cols {
            lemma_grid_wf_update(g1, t2.rows, t2.cols, r, g1[r].update(c + 1, Cell {
                c: ' ',
                is_wide_continuation: true,
                ..cell
            }));
        }
        assert(spec_print_write(t2, ch).wf());
    }
}

/// Every erase, shift and mode change of a control sequence keeps the state
/// well-formed.
proof fn lemma_csi_wf(t: TermView, ps: Seq<u16>, inter: Seq<u8>, fin: u8)
    requires
        t.wf(),
    ensures
        spec_csi(t, ps, inter, fin).wf(),
{
    let r = t.cursor_row;
    let c = t.cursor_col;
    if fin == 0x4A {
        lemma_erase_display_wf(t, spec_param_at(ps, 0));
    } else if fin == 0x4B {
        lemma_erase_line_wf(t, spec_param_at(ps, 0));
    } else if fin == 0x58 {
        lemma_grid_wf_update(
            t.active(),
            t.rows,
            t.cols,
            r,
            row_erased(
                t.active()[r],
                c,
                min(c + max(spec_param_at(ps, 0), 1), t.cols),
            ),
        );
    } else if fin == 0x40 {
        let n = max(spec_param_at(ps, 0), 1);
        let row = t.active()[r];
        let row2 = Seq::new(
            row.len(),
            |j: int|
                if j < c {
                    row[j]
                } else if j < c + n {
                    default_cell()
                } else {
                    row[j - n]
                },
        );
        lemma_grid_wf_update(t.active(), t.rows, t.cols, r, row2);
    } else if fin == 0x50 {
        if c < t.cols {
            let n = max(spec_param_at(ps, 0), 1);
            let row = t.active()[r];
            let row2 = Seq::new(
                row.len(),
                |j: int|
                    if j < c {
                        row[j]
                    } else if j + n < row.len() {
                        row[j + n]
                    } else {
                        default_cell()
                    },
            );
            lemma_grid_wf_update(t.active(), t.rows, t.cols, r, row2);
        }
    } else if fin == 0x4C {
        let n = max(spec_param_at(ps, 0), 1);
        if t.scroll_top <= r <= t.scroll_bottom {
            let g2 = rows_inserted(t.active(), r, t.scroll_bottom, t.cols, n);
            assert forall|i: int| 0 <= i < t.rows implies (#[trigger] g2[i]).len() == t.cols by {}
            assert(grid_wf(g2, t.rows, t.cols));
        }
    } else if fin == 0x4D {
        let n = max(spec_param_at(ps, 0), 1);
        if t.scroll_top <= r <= t.scroll_bottom {
            let g2 = rows_deleted(t.active(), r, t.scroll_bottom, t.cols, n);
            assert forall|i: int| 0 <= i < t.rows implies (#[trigger] g2[i]).len() == t.cols by {}
            assert(grid_wf(g2, t.rows, t.cols));
        }
    } else if fin == 0x68 && inter == seq![0x3Fu8] {
        lemma_set_modes_wf(t, ps);
    } else if fin == 0x6C && inter == seq![0x3Fu8] {
        lemma_reset_modes_wf(t, ps);
    }
}

/// Erase-in-display keeps the state well-formed.
proof fn lemma_erase_display_wf(t: TermView, mode: int)
    requires
        t.wf(),
    ensures
        spec_erase_display(t, mode).wf(),
{
    let r = t.cursor_row;
    let c = t.cursor_col;
    if mode == 0 {
        let g1 = t.active().update(r, row_erased(t.active()[r], c, t.cols));
        lemma_grid_wf_update(t.active(), t.rows, t.cols, r, row_erased(t.active()[r], c, t.cols));
        let g2 = rows_blanked(g1, r + 1, t.rows, t.cols);
        assert forall|i: int| 0 <= i < t.rows implies (#[trigger] g2[i]).len() == t.cols by {}
        assert(grid_wf(g2, t.rows, t.cols));
    } else if mode == 1 {
        let erased = row_erased(t.active()[r], 0, min(c, t.cols - 1) + 1);
        lemma_grid_wf_update(t.active(), t.rows, t.cols, r, erased);
        let g2 = rows_blanked(t.active().update(r, erased), 0, r, t.cols);
        assert forall|i: int| 0 <= i < t.rows implies (#[trigger] g2[i]).len() == t.cols by {}
        assert(grid_wf(g2, t.rows, t.cols));
    } else if mode == 2 || mode == 3 {
        let g2 = rows_blanked(t.active(), 0, t.rows, t.cols);
        assert forall|i: int| 0 <= i < t.rows implies (#[trigger] g2[i]).len() == t.cols by {}
        assert(grid_wf(g2, t.rows, t.cols));
    }
}

/// Erase-in-line keeps the state well-formed.
proof fn lemma_erase_line_wf(t: TermView, mode: int)
    requires
        t.wf(),
    ensures
        spec_erase_line(t, mode).wf(),
{
    let r = t.cursor_row;
    let c = t.cursor_col;
    if mode == 0 {
        lemma_grid_wf_update(t.active(), t.rows, t.cols, r, row_erased(t.active()[r], c, t.cols));
    } else if mode == 1 {
        lemma_grid_wf_update(
            t.active(),
            t.rows,
            t.cols,
            r,
            row_erased(t.active()[r], 0, min(c, t.cols - 1) + 1),
        );
    } else if mode == 2 {
        lemma_grid_wf_update(t.active(), t.rows, t.cols, r, row_erased(t.active()[r], 0, t.cols));
    }
}

/// Setting private modes keeps the state well-formed.
proof fn lemma_set_modes_wf(t: TermView, ps: Seq<u16>)
    requires
        t.wf(),
    ensures
        spec_set_modes(t, ps).wf(),
    decreases ps.len(),
{
    if ps.len() > 0 {
        assert(spec_set_mode(t, ps[0]).wf());
        lemma_set_modes_wf(spec_set_mode(t, ps[0]), ps.skip(1));
    }
}

/// Clearing private modes keeps the state well-formed.
proof fn lemma_reset_modes_wf(t: TermView, ps: Seq<u16>)
    requires
        t.wf(),
    ensures
        spec_reset_modes(t, ps).wf(),
    decreases ps.len(),
{
    if ps.len() > 0 {
        assert(spec_reset_mode(t, ps[0]).wf());
        lemma_reset_modes_wf(spec_reset_mode(t, ps[0]), ps.skip(1));
    }
}

/// Plain escape sequences keep the state well-formed.
proof fn lemma_esc_wf(t: TermView, byte: u8)
    requires
        t.wf(),
    ensures
        spec_esc(t, byte).wf(),
{
    if byte == 0x4D && t.cursor_row == t.scroll_top {
        let top = t.scroll_top;
        let bot = t.scroll_bottom;
        let g1 = t.active().remove(bot);
        let g2 = g1.insert(top, blank_row(t.cols));
        t.active().remove_ensures(bot);
        g1.insert_ensures(top, blank_row(t.cols));
        assert forall|i: int| 0 <= i < t.rows implies (#[trigger] g2[i]).len() == t.cols by {
            if i < top {
                assert(g2[i] == g1[i]);
                if i < bot {
                    assert(g1[i] == t.active()[i]);
                } else {
                    assert(g1[i] == t.active()[i + 1]);
                }
            } else if i == top {
                assert(g2[i] == blank_row(t.cols));
            } else {
                assert(g2[i] == g1[i - 1]);
                if i - 1 < bot {
                    assert(g1[i - 1] == t.active()[i - 1]);
                } else {
                    assert(g1[i - 1] == t.active()[i]);
                }
            }
        }
        assert(grid_wf(g2, t.rows, t.cols));
    }
}

/// One action keeps the state well-formed.
pub proof fn lemma_apply_wf(t: TermView, a: ActionV)
    requires
        t.wf(),
    ensures
        spec_apply(t, a).wf(),
{
    match a {
        ActionV::Print(c) => lemma_print_wf(t, c),
        ActionV::Execute(b) => lemma_execute_wf(t, b),
        ActionV::Csi { params, intermediates, final_byte } => lemma_csi_wf(
            t,
            params,
            intermediates,
            final_byte,
        ),
        ActionV::Esc { intermediates, byte } => lemma_esc_wf(t, byte),
    }
}

/// The grid-bounds invariant: starting from any well-formed state, any
/// sequence of actions leaves a well-formed state, so the cursor stays on
/// the grid, both grids keep exactly their rows and columns, and the
/// scrollback never exceeds its cap.
pub proof fn lemma_apply_all_wf(t: TermView, acts: Seq<ActionV>)
    requires
        t.wf(),
    ensures
        spec_apply_all(t, acts).wf(),
    decreases acts.len(),
{
    if acts.len() > 0 {
        lemma_apply_wf(t, acts[0]);
        lemma_apply_all_wf(spec_apply(t, acts[0]), acts.skip(1));
    }
}

/// The grid-bounds invariant over raw input: feeding any byte sequence
/// whatever through the interpreter leaves the terminal state well-formed
/// and the parser within its bounds.
pub proof fn lemma_process_wf(t: TermView, p: ParserV, bytes: Seq<u8>)
    requires
        t.wf(),
        p.wf(),
    ensures
        spec_process(t, p, bytes).0.wf(),
        spec_process(t, p, bytes).1.wf(),
    decreases bytes.len(),
{
    if bytes.len() > 0 {
        let step = spec_advance(p, bytes[0]);
        lemma_advance_wf(p, bytes[0]);
        let t2 = match step.1 {
            Some(a) => spec_apply(t, a),
            None => t,
        };
        match step.1 {
            Some(a) => lemma_apply_wf(t, a),
            None => {},
        }
        lemma_process_wf(t2, step.0, bytes.skip(1));
    }
}

/// The scrollback law: a line feed at the bottom of a full-grid scroll
/// region on the primary screen moves the grid's top row into the
/// scrollback exactly once, the oldest history row dropping first when the
/// cap is reached, and the scrollback never exceeds its cap.
pub proof fn lemma_line_feed_scrollback(t: TermView)
    requires
        t.wf(),
        !t.is_alt,
        t.scroll_top == 0,
        t.scroll_bottom == t.rows - 1,
        t.cursor_row == t.rows - 1,
        t.rows >= 2,
    ensures
        spec_execute(t, 0x0A).history.len() <= HISTORY_MAX,
        spec_execute(t, 0x0A).history.last() == t.primary[0],
        t.history.len() < HISTORY_MAX ==> spec_execute(t, 0x0A).history == t.history.push(
            t.primary[0],
        ),
        t.history.len() == HISTORY_MAX ==> spec_execute(t, 0x0A).history == t.history.push(
            t.primary[0],
        ).remove(0),
{
    let h = t.history.push(t.primary[0]);
    if h.len() > HISTORY_MAX {
        h.remove_ensures(0);
    }
}

/// An action that leaves the alternate screen: a private reset sequence
/// naming mode 1049.
pub open spec fn leaves_alt(a: ActionV) -> bool {
    match a {
        ActionV::Csi { params, intermediates, final_byte } => final_byte == 0x6C && intermediates
            == seq![0x3Fu8] && params.contains(1049),
        _ => false,
    }
}

/// While the alternate screen is active, clearing modes other than 1049
/// neither touches the primary grid nor leaves the alternate screen.
proof fn lemma_reset_modes_keeps_alt(t: TermView, ps: Seq<u16>)
    requires
        t.is_alt,
        !ps.contains(1049),
    ensures
        spec_reset_modes(t, ps).is_alt,
        spec_reset_modes(t, ps).primary == t.primary,
    decreases ps.len(),
{
    if ps.len() > 0 {
        assert(ps[0] != 1049);
        assert(ps.skip(1).contains(1049) ==> ps.contains(1049));
        lemma_reset_modes_keeps_alt(spec_reset_mode(t, ps[0]), ps.skip(1));
    }
}

/// While the alternate screen is active, setting private modes never
/// touches the primary grid and never leaves the alternate screen.
proof fn lemma_set_modes_keeps_alt(t: TermView, ps: Seq<u16>)
    requires
        t.is_alt,
    ensures
        spec_set_modes(t, ps).is_alt,
        spec_set_modes(t, ps).primary == t.primary,
    decreases ps.len(),
{
    if ps.len() > 0 {
        lemma_set_modes_keeps_alt(spec_set_mode(t, ps[0]), ps.skip(1));
    }
}

/// While the alternate screen is active, any action that does not leave it
/// keeps it active and leaves the primary grid untouched.
pub proof fn lemma_alt_preserves_primary(t: TermView, a: ActionV)
    requires
        t.wf(),
        t.is_alt,
        !leaves_alt(a),
    ensures
        spec_apply(t, a).is_alt,
        spec_apply(t, a).primary == t.primary,
{
    match a {
        ActionV::Print(c) => {},
        ActionV::Execute(b) => {},
        ActionV::Csi { params, intermediates, final_byte } => {
            if final_byte == 0x68 && intermediates == seq![0x3Fu8] {
                lemma_set_modes_keeps_alt(t, params);
            } else if final_byte == 0x6C && intermediates == seq![0x3Fu8] {
                lemma_reset_modes_keeps_alt(t, params);
            }
        },
        ActionV::Esc { intermediates, byte } => {},
    }
}

/// While the alternate screen is active, any sequence of actions that never
/// leaves it keeps it active and leaves the primary grid untouched.
pub proof fn lemma_alt_mutations_preserve_primary(t: TermView, acts: Seq<ActionV>)
    requires
        t.wf(),
        t.is_alt,
        forall|k: int| 0 <= k < acts.len() ==> !leaves_alt(#[trigger] acts[k]),
    ensures
        spec_apply_all(t, acts).is_alt,
        spec_apply_all(t, acts).primary == t.primary,
        spec_apply_all(t, acts).wf(),
    decreases acts.len(),
{
    if acts.len() > 0 {
        lemma_apply_wf(t, acts[0]);
        lemma_alt_preserves_primary(t, acts[0]);
        assert forall|k: int| 0 <= k < acts.skip(1).len() implies !leaves_alt(
            #[trigger] acts.skip(1)[k],
        ) by {
            assert(acts.skip(1)[k] == acts[k + 1]);
        }
        lemma_alt_mutations_preserve_primary(spec_apply(t, acts[0]), acts.skip(1));
    }
}

/// The alternate-screen round trip: entering the alternate screen, mutating
/// it with any actions that do not leave it, and leaving again restores the
/// primary grid exactly as it was before entering.
pub proof fn lemma_alt_round_trip(t: TermView, acts: Seq<ActionV>)
    requires
        t.wf(),
        forall|k: int| 0 <= k < acts.len() ==> !leaves_alt(#[trigger] acts[k]),
    ensures
        ({
            let enter = ActionV::Csi {
                params: seq![1049u16],
                intermediates: seq![0x3Fu8],
                final_byte: 0x68,
            };
            let leave = ActionV::Csi {
                params: seq![1049u16],
                intermediates: seq![0x3Fu8],
                final_byte: 0x6C,
            };
            let after = spec_apply(spec_apply_all(spec_apply(t, enter), acts), leave);
            after.primary == t.primary && !after.is_alt
        }),
{
    let enter = ActionV::Csi {
        params: seq![1049u16],
        intermediates: seq![0x3Fu8],
        final_byte: 0x68,
    };
    let leave = ActionV::Csi {
        params: seq![1049u16],
        intermediates: seq![0x3Fu8],
        final_byte: 0x6C,
    };
    let entered = spec_apply(t, enter);
    assert(seq![1049u16].skip(1) =~= Seq::<u16>::empty());
    assert(spec_set_modes(spec_set_mode(t, 1049), Seq::<u16>::empty()) == spec_set_mode(
        t,
        1049,
    ));
    assert(spec_set_modes(t, seq![1049u16]) == spec_set_modes(
        spec_set_mode(t, 1049),
        seq![1049u16].skip(1),
    ));
    assert(entered == spec_set_mode(t, 1049));
    lemma_apply_wf(t, enter);
    lemma_alt_mutations_preserve_primary(entered, acts);
    let mutated = spec_apply_all(entered, acts);
    assert(spec_apply(mutated, leave) == spec_reset_modes(mutated, seq![1049u16]));
    assert(spec_reset_modes(mutated, seq![1049u16]) == spec_reset_modes(
        spec_reset_mode(mutated, 1049),
        seq![1049u16].skip(1),
    ));
    assert(spec_reset_modes(spec_reset_mode(mutated, 1049), Seq::<u16>::empty())
        == spec_reset_mode(mutated, 1049));
}

/// Erase-in-line with parameter 2 blanks every cell of the cursor's row and
/// moves the cursor nowhere.
pub proof fn lemma_erase_line_whole_row(t: TermView)
    requires
        t.wf(),
    ensures
        spec_erase_line(t, 2).active()[t.cursor_row] == blank_row(t.cols),
        spec_erase_line(t, 2).cursor_row == t.cursor_row,
        spec_erase_line(t, 2).cursor_col == t.cursor_col,
{
    assert(row_erased(t.active()[t.cursor_row], 0, t.cols) =~= blank_row(t.cols));
    assert(spec_erase_line(t, 2).active()[t.cursor_row] == row_erased(
        t.active()[t.cursor_row],
        0,
        t.cols,
    ));
}


/// Resizing is truncation and padding, never reflow: the resized state is
/// well-formed, every cell that survives the resize keeps exactly its
/// contents, every newly exposed cell is blank rather than stale data, and
/// the scrollback history is left exactly as it was.
pub proof fn lemma_resize_preserves_cells(t: TermView, nr: int, nc: int)
    requires
        t.wf(),
        1 <= nr <= MAX_DIM,
        1 <= nc <= MAX_DIM,
    ensures
        spec_resize(t, nr, nc).wf(),
        spec_resize(t, nr, nc).history == t.history,
        spec_resize(t, nr, nc).rows == (if nr == t.rows && nc == t.cols {
            t.rows
        } else {
            nr
        }),
        forall|r: int, c: int|
            0 <= r < min(t.rows, nr) && 0 <= c < min(t.cols, nc) ==> (
            #[trigger] spec_resize(t, nr, nc).primary[r][c]) == t.primary[r][c] && spec_resize(
                t,
                nr,
                nc,
            ).alt[r][c] == t.alt[r][c],
        forall|r: int, c: int|
            0 <= r < nr && 0 <= c < nc && (r >= t.rows || c >= t.cols) && !(nr == t.rows && nc
                == t.cols) ==> (#[trigger] spec_resize(t, nr, nc).primary[r][c])
                == default_cell() && spec_resize(t, nr, nc).alt[r][c] == default_cell(),
{
    if nr == t.rows && nc == t.cols {
    } else {
        let t2 = spec_resize(t, nr, nc);
        assert forall|i: int| 0 <= i < nr implies (#[trigger] t2.primary[i]).len() == nc by {}
        assert forall|i: int| 0 <= i < nr implies (#[trigger] t2.alt[i]).len() == nc by {}
        assert(grid_wf(t2.primary, nr, nc));
        assert(grid_wf(t2.alt, nr, nc));
        assert forall|r: int, c: int|
            0 <= r < min(t.rows, nr) && 0 <= c < min(t.cols, nc) implies (
        #[trigger] t2.primary[r][c]) == t.primary[r][c] && t2.alt[r][c] == t.alt[r][c] by {
            assert(t.primary[r].len() == t.cols);
            assert(t.alt[r].len() == t.cols);
        }
        assert forall|r: int, c: int|
            0 <= r < nr && 0 <= c < nc && (r >= t.rows || c >= t.cols) implies (
        #[trigger] t2.primary[r][c]) == default_cell() && t2.alt[r][c] == default_cell() by {
            if r < t.rows {
                assert(t.primary[r].len() == t.cols);
                assert(t.alt[r].len() == t.cols);
            }
        }
    }
}

} // verus!
