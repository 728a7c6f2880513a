//! The predictions as they are drawn over the screen.

use crate::prediction::engine::EngineView;
use crate::prediction::engine::PredictionEngine;
use crate::prediction::overlay;
use crate::prediction::overlay::ConditionalOverlayCell;
use crate::prediction::overlay::OverlayCellView;
use crate::prediction::overlay::OverlayRow;
use crate::prediction::overlay::OverlayRowView;
use crate::terminal::escape;
use crate::terminal::escape::push_cursor_to;
use crate::terminal::laws;
use vstd::prelude::*;

verus! {

/// Whether a cell is drawn on a screen with `cols` columns.
pub open spec fn is_drawn(cell: OverlayCellView, cols: u16) -> bool {
    cell.active && cell.col < cols
}

/// Whether the server has not confirmed a cell yet.
pub open spec fn is_pending(cell: OverlayCellView, late_acked: u64) -> bool {
    late_acked < cell.expiration_frame
}

/// A predicted cell: its position, then its character, underlined while it is pending.
pub open spec fn drawn_cell(cell: OverlayCellView, row_num: usize, late_acked: u64) -> Seq<char> {
    let pending = is_pending(cell, late_acked);
    escape::cursor_to(row_num as nat + 1, cell.col as nat + 1) + "\x1b[0m"@ + (if pending {
        "\x1b[4m"@
    } else {
        seq![]
    }) + seq![
        if cell.unknown {
            ' '
        } else {
            cell.replacement
        },
    ] + (if pending {
        "\x1b[0m"@
    } else {
        seq![]
    })
}

/// The first `n` cells of a row.
pub open spec fn drawn_cells(
    row: OverlayRowView,
    cols: u16,
    late_acked: u64,
    n: int,
) -> Seq<char>
    decreases n,
{
    if n <= 0 {
        seq![]
    } else {
        drawn_cells(row, cols, late_acked, n - 1) + (if is_drawn(row.cells[n - 1], cols) {
            drawn_cell(row.cells[n - 1], row.row_num, late_acked)
        } else {
            seq![]
        })
    }
}

/// The first `n` rows in their order, of which those outside the screen are left out.
pub open spec fn drawn_rows(e: EngineView, cols: u16, rows: u16, n: int) -> Seq<char>
    decreases n,
{
    if n <= 0 {
        seq![]
    } else {
        let row = e.rows[overlay::order(e.rows)[n - 1]].1;
        drawn_rows(e, cols, rows, n - 1) + (if row.row_num < rows {
            drawn_cells(row, cols, e.local_frame_late_acked, row.cells.len() as int)
        } else {
            seq![]
        })
    }
}

/// The predictions as they are drawn; the cursor is where it was afterwards. Nothing is drawn where
/// predictions are not displayed.
pub open spec fn drawn(e: EngineView, cols: u16, rows: u16) -> Option<Seq<char>> {
    if e.displays() {
        Some("\x1b[s"@ + drawn_rows(e, cols, rows, e.rows.len() as int) + "\x1b[u"@)
    } else {
        None
    }
}

/// Appends a predicted cell.
fn push_cell(out: &mut String, cell: &ConditionalOverlayCell, row_num: usize, late_acked: u64)
    requires
        row_num < u16::MAX,
        cell.col < u16::MAX,
    ensures
        final(out)@ == old(out)@ + drawn_cell(cell@, row_num, late_acked),
{
    let pending = late_acked < cell.expiration_frame;
    push_cursor_to(out, row_num as u64 + 1, cell.col as u64 + 1);
    out.push_str("\x1b[0m");
    if pending {
        out.push_str("\x1b[4m");
    }
    out.push(
        if cell.unknown {
            ' '
        } else {
            cell.replacement
        },
    );
    if pending {
        out.push_str("\x1b[0m");
    }
    assert(out@ =~= old(out)@ + drawn_cell(cell@, row_num, late_acked));
}

/// Appends the cells of a row.
fn push_cells(out: &mut String, row: &OverlayRow, cols: u16, late_acked: u64)
    requires
        row.row_num < u16::MAX,
    ensures
        final(out)@ == old(out)@ + drawn_cells(
            row@,
            cols,
            late_acked,
            row@.cells.len() as int,
        ),
{
    let ghost before = out@;
    let mut i: usize = 0;
    assert(out@ =~= before + drawn_cells(row@, cols, late_acked, 0));
    while i < row.cells.len()
        invariant
            i <= row.cells@.len(),
            row.row_num < u16::MAX,
            out@ == before + drawn_cells(row@, cols, late_acked, i as int),
        decreases row.cells@.len() - i,
    {
        let cell = &row.cells[i];
        assert(row@.cells[i as int] == cell@);
        if cell.active && cell.col < cols as usize {
            push_cell(out, cell, row.row_num, late_acked);
        }
        i = i + 1;
        assert(out@ =~= before + drawn_cells(row@, cols, late_acked, i as int));
    }
}

/// The text that draws the predictions on a screen, underlined while they are pending.
///
/// Shows users which characters have been predicted locally but not yet confirmed by the server.
pub fn render_prediction_overlay(prediction: &PredictionEngine, cols: u16, rows: u16) -> (res:
    Option<String>)
    ensures
        match res {
            Some(text) => drawn(prediction@, cols, rows) == Some(text@),
            None => drawn(prediction@, cols, rows) is None,
        },
{
    if !prediction.should_display() {
        return None;
    }
    let overlay_rows = prediction.overlay().rows();
    let late_acked: u64 = prediction.local_frame_late_acked();
    let mut buf = String::new();
    buf.push_str("\x1b[s");
    let ghost start = buf@;
    let mut i: usize = 0;
    assert(buf@ =~= start + drawn_rows(prediction@, cols, rows, 0));
    while i < overlay_rows.len()
        invariant
            i <= overlay_rows@.len(),
            overlay_rows@.len() == prediction@.rows.len(),
            forall|k: int|
                0 <= k < overlay_rows@.len() ==> (#[trigger] overlay_rows@[k])@
                    == prediction@.rows[overlay::order(prediction@.rows)[k]].1,
            late_acked == prediction@.local_frame_late_acked,
            buf@ == start + drawn_rows(prediction@, cols, rows, i as int),
        decreases overlay_rows@.len() - i,
    {
        let row = overlay_rows[i];
        assert(row@ == prediction@.rows[overlay::order(prediction@.rows)[i as int]].1);
        if row.row_num < rows as usize {
            push_cells(&mut buf, row, cols, late_acked);
        }
        i = i + 1;
        assert(buf@ =~= start + drawn_rows(prediction@, cols, rows, i as int));
    }
    buf.push_str("\x1b[u");
    Some(buf)
}

/// Without predictions nothing is drawn between saving and restoring the cursor.
pub proof fn nothing_predicted_draws_nothing(e: EngineView, cols: u16, rows: u16)
    requires
        e.displays(),
        e.rows.len() == 0,
    ensures
        drawn(e, cols, rows) == Some("\x1b[s"@ + "\x1b[u"@),
{
    assert("\x1b[s"@ + Seq::<char>::empty() + "\x1b[u"@ =~= "\x1b[s"@ + "\x1b[u"@);
}

/// What is pending is underlined, and the underline ends with it.
pub proof fn pending_is_underlined(cell: OverlayCellView, row_num: usize, late_acked: u64)
    requires
        is_pending(cell, late_acked),
        !cell.unknown,
    ensures
        drawn_cell(cell, row_num, late_acked) == escape::cursor_to(
            row_num as nat + 1,
            cell.col as nat + 1,
        ) + "\x1b[0m"@ + "\x1b[4m"@ + seq![cell.replacement] + "\x1b[0m"@,
{
}

/// What is confirmed is drawn without an underline.
pub proof fn confirmed_is_plain(cell: OverlayCellView, row_num: usize, late_acked: u64)
    requires
        !is_pending(cell, late_acked),
        !cell.unknown,
    ensures
        drawn_cell(cell, row_num, late_acked) == escape::cursor_to(
            row_num as nat + 1,
            cell.col as nat + 1,
        ) + "\x1b[0m"@ + seq![cell.replacement],
{
    assert(drawn_cell(cell, row_num, late_acked) =~= escape::cursor_to(
        row_num as nat + 1,
        cell.col as nat + 1,
    ) + "\x1b[0m"@ + seq![cell.replacement]);
}

/// The characters that a row of predictions shows on a screen with `cols` columns.
pub open spec fn predicted_chars(row: OverlayRowView, cols: u16, n: int) -> Seq<char>
    decreases n,
{
    if n <= 0 {
        seq![]
    } else {
        let cell = row.cells[n - 1];
        let before = predicted_chars(row, cols, n - 1);
        if !cell.active || cell.col >= cols {
            before
        } else if cell.unknown {
            before.push(' ')
        } else {
            before.push(cell.replacement)
        }
    }
}

/// The characters that the first `n` rows of predictions show on a screen.
pub open spec fn all_predicted_chars(e: EngineView, cols: u16, rows: u16, n: int) -> Seq<char>
    decreases n,
{
    if n <= 0 {
        seq![]
    } else {
        let row = e.rows[n - 1].1;
        all_predicted_chars(e, cols, rows, n - 1) + if e.rows[n - 1].0 < rows {
            predicted_chars(row, cols, row.cells.len() as int)
        } else {
            seq![]
        }
    }
}

/// Whether no prediction of a row is an escape character.
spec fn row_tame(row: OverlayRowView) -> bool {
    forall|i: int| 0 <= i < row.cells.len() ==> (#[trigger] row.cells[i]).replacement as int != 0x1b
}

proof fn cell_text(cell: OverlayCellView, row_num: usize, late_acked: u64)
    requires
        cell.replacement as int != 0x1b,
    ensures
        laws::text_in(laws::Place::Text, drawn_cell(cell, row_num, late_acked)) == (
            seq![
                if cell.unknown {
                    ' '
                } else {
                    cell.replacement
                },
            ],
            laws::Place::Text,
        ),
{
    reveal_strlit("\x1b[0m");
    reveal_strlit("\x1b[4m");
    reveal_strlit("\x1b[");
    let at = laws::Place::Text;
    let none = Seq::<char>::empty();
    let pending = is_pending(cell, late_acked);
    let here = escape::cursor_to(row_num as nat + 1, cell.col as nat + 1);
    let on = if pending {
        "\x1b[4m"@
    } else {
        none
    };
    let off = if pending {
        "\x1b[0m"@
    } else {
        none
    };
    let c = seq![
        if cell.unknown {
            ' '
        } else {
            cell.replacement
        },
    ];
    laws::moves_have_no_text(row_num as nat + 1, cell.col as nat + 1);
    laws::control_has_no_text(seq!['0'], 'm');
    laws::control_has_no_text(seq!['4'], 'm');
    assert("\x1b["@ + seq!['0'] + seq!['m'] =~= "\x1b[0m"@);
    assert("\x1b["@ + seq!['4'] + seq!['m'] =~= "\x1b[4m"@);
    laws::plain_has_text(c);
    let a = here + "\x1b[0m"@;
    let b = a + on;
    let d = b + c;
    laws::text_in_concat(at, here, "\x1b[0m"@);
    laws::text_in_concat(at, a, on);
    laws::text_in_concat(at, b, c);
    laws::text_in_concat(at, d, off);
    assert(none + none =~= none);
    assert(none + c =~= c);
    assert(c + none =~= c);
}

proof fn row_text(row: OverlayRowView, cols: u16, late_acked: u64, n: int)
    requires
        0 <= n <= row.cells.len(),
        row_tame(row),
    ensures
        laws::text_in(laws::Place::Text, drawn_cells(row, cols, late_acked, n)) == (
            predicted_chars(row, cols, n),
            laws::Place::Text,
        ),
    decreases n,
{
    if n > 0 {
        let cell = row.cells[n - 1];
        row_text(row, cols, late_acked, n - 1);
        let before = drawn_cells(row, cols, late_acked, n - 1);
        let chars = predicted_chars(row, cols, n - 1);
        if is_drawn(cell, cols) {
            cell_text(cell, row.row_num, late_acked);
            laws::text_in_concat(
                laws::Place::Text,
                before,
                drawn_cell(cell, row.row_num, late_acked),
            );
            assert(predicted_chars(row, cols, n) =~= chars + seq![
                if cell.unknown {
                    ' '
                } else {
                    cell.replacement
                },
            ]);
        } else {
            assert(drawn_cells(row, cols, late_acked, n) =~= before);
        }
    }
}

proof fn rows_text(e: EngineView, cols: u16, rows: u16, n: int)
    requires
        0 <= n <= e.rows.len(),
        overlay::order(e.rows) == Seq::new(e.rows.len(), |i: int| i),
        forall|i: int| 0 <= i < e.rows.len() ==> (#[trigger] e.rows[i]).1.row_num == e.rows[i].0,
        forall|i: int| 0 <= i < e.rows.len() ==> row_tame((#[trigger] e.rows[i]).1),
    ensures
        laws::text_in(laws::Place::Text, drawn_rows(e, cols, rows, n)) == (
            all_predicted_chars(e, cols, rows, n),
            laws::Place::Text,
        ),
    decreases n,
{
    if n > 0 {
        rows_text(e, cols, rows, n - 1);
        let row = e.rows[n - 1].1;
        assert(overlay::order(e.rows)[n - 1] == n - 1);
        let len = row.cells.len() as int;
        let before = drawn_rows(e, cols, rows, n - 1);
        let this = if row.row_num < rows {
            drawn_cells(row, cols, e.local_frame_late_acked, len)
        } else {
            seq![]
        };
        assert(row_tame(e.rows[n - 1].1));
        row_text(row, cols, e.local_frame_late_acked, len);
        laws::text_in_concat(laws::Place::Text, before, this);
    }
}

/// The text that draws predictions holds the characters of all that are active and on the screen, row
/// by row and from left to right, an unknown one as a blank, and no other text.
pub proof fn predictions_are_written(e: EngineView, cols: u16, rows: u16)
    requires
        e.displays(),
        overlay::ascending(e.rows),
        forall|i: int| 0 <= i < e.rows.len() ==> (#[trigger] e.rows[i]).1.row_num == e.rows[i].0,
        forall|i: int, x: int|
            0 <= i < e.rows.len() && 0 <= x < e.rows[i].1.cells.len() ==> (
            #[trigger] e.rows[i].1.cells[x]).replacement as int != 0x1b,
    ensures
        drawn(e, cols, rows) is Some,
        laws::text_in(laws::Place::Text, drawn(e, cols, rows).unwrap()) == (
            all_predicted_chars(e, cols, rows, e.rows.len() as int),
            laws::Place::Text,
        ),
{
    reveal_strlit("\x1b[s");
    reveal_strlit("\x1b[u");
    reveal_strlit("\x1b[");
    let at = laws::Place::Text;
    let none = Seq::<char>::empty();
    let n = e.rows.len() as int;
    overlay::stored_in_order(e.rows);
    assert forall|i: int| 0 <= i < e.rows.len() implies row_tame((#[trigger] e.rows[i]).1) by {
        let row = e.rows[i].1;
        assert forall|x: int| 0 <= x < row.cells.len() implies (
        #[trigger] row.cells[x]).replacement as int != 0x1b by {
            assert(e.rows[i].1.cells[x].replacement as int != 0x1b);
        }
    }
    rows_text(e, cols, rows, n);
    laws::control_has_no_text(seq![], 's');
    laws::control_has_no_text(seq![], 'u');
    assert("\x1b["@ + seq![] + seq!['s'] =~= "\x1b[s"@);
    assert("\x1b["@ + seq![] + seq!['u'] =~= "\x1b[u"@);
    let body = drawn_rows(e, cols, rows, n);
    let chars = all_predicted_chars(e, cols, rows, n);
    laws::text_in_concat(at, "\x1b[s"@, body);
    laws::text_in_concat(at, "\x1b[s"@ + body, "\x1b[u"@);
    assert(none + chars =~= chars);
    assert(chars + none =~= chars);
}

} // verus!
