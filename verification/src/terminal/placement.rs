//! Where the sequences that update a screen put each text, and in which style, whatever the cells
//! hold and however wide they are.

use crate::terminal::display;
use crate::terminal::escape;
use crate::terminal::laws;
use crate::terminal::runs;
use crate::terminal::snapshot;
use crate::terminal::snapshot::CellStyle;
use crate::terminal::snapshot::ScreenView;
use vstd::prelude::*;

verus! {

/// One thing that an update does.
pub enum Step {
    /// Moves the cursor.
    Move { y: int, x: int },
    /// Makes the pen plain.
    Reset,
    /// Switches a style on.
    Turn { style: CellStyle },
    /// Writes the text of a cell.
    Write { y: int, x: int },
    /// Sends the cursor home.
    Home,
    /// Goes to the start of the next line.
    NextLine,
}

/// The characters of a step.
pub open spec fn step_text(step: Step, new: ScreenView) -> Seq<char> {
    match step {
        Step::Move { y, x } => escape::cursor_to((y + 1) as nat, (x + 1) as nat),
        Step::Reset => escape::reset_style(),
        Step::Turn { style } => escape::style_sequence(style),
        Step::Write { y, x } => laws::legible(new.rows[y][x]),
        Step::Home => "\x1b[H"@,
        Step::NextLine => "\r\n"@,
    }
}

/// The characters of steps.
pub open spec fn steps_text(steps: Seq<Step>, new: ScreenView) -> Seq<char>
    decreases steps.len(),
{
    if steps.len() == 0 {
        seq![]
    } else {
        steps_text(steps.drop_last(), new) + step_text(steps.last(), new)
    }
}

/// Where the cursor is after steps, if that is known, and the pen. A text takes one column, that of a
/// wide cell two.
pub open spec fn state_after(
    steps: Seq<Step>,
    new: ScreenView,
    pen: CellStyle,
) -> (Option<(int, int)>, CellStyle)
    decreases steps.len(),
{
    if steps.len() == 0 {
        (None, pen)
    } else {
        let (at, ink) = state_after(steps.drop_last(), new, pen);
        match steps.last() {
            Step::Move { y, x } => (Some((y, x)), ink),
            Step::Reset => (at, snapshot::plain_style()),
            Step::Turn { style } => (at, style),
            Step::Write { y, x } => (
                Some(
                    (
                        y,
                        x + if new.rows[y][x].wide {
                            2int
                        } else {
                            1
                        },
                    ),
                ),
                ink,
            ),
            Step::Home => (Some((0, 0)), ink),
            Step::NextLine => (
                match at {
                    Some((y, x)) => Some((y + 1, 0)),
                    None => None,
                },
                ink,
            ),
        }
    }
}

/// Whether every text is written where its cell is and in its style, and every style is switched on
/// from a plain pen.
pub open spec fn well_placed(steps: Seq<Step>, new: ScreenView, pen: CellStyle) -> bool
    decreases steps.len(),
{
    steps.len() > 0 ==> {
        let (at, ink) = state_after(steps.drop_last(), new, pen);
        &&& well_placed(steps.drop_last(), new, pen)
        &&& match steps.last() {
            Step::Write { y, x } => at == Some((y, x)) && ink == new.rows[y][x].style,
            Step::Turn { style } => ink == snapshot::plain_style(),
            _ => true,
        }
    }
}

/// The cells that steps write, in order.
pub open spec fn cells_written(steps: Seq<Step>) -> Seq<(int, int)>
    decreases steps.len(),
{
    if steps.len() == 0 {
        seq![]
    } else {
        match steps.last() {
            Step::Write { y, x } => cells_written(steps.drop_last()).push((y, x)),
            _ => cells_written(steps.drop_last()),
        }
    }
}

/// The positions among the first `n` of row `y` that are `chosen`.
pub open spec fn places_in_row(chosen: spec_fn(int) -> bool, y: int, n: int) -> Seq<(int, int)>
    decreases n,
{
    if n <= 0 {
        seq![]
    } else if chosen(n - 1) {
        places_in_row(chosen, y, n - 1).push((y, n - 1))
    } else {
        places_in_row(chosen, y, n - 1)
    }
}

/// The positions of the first `n` rows that are rewritten.
pub open spec fn places(shown: ScreenView, new: ScreenView, n: int) -> Seq<(int, int)>
    decreases n,
{
    if n <= 0 {
        seq![]
    } else {
        places(shown, new, n - 1) + places_in_row(
            |x: int| laws::rewritten(shown.rows[n - 1], new.rows[n - 1], x),
            n - 1,
            new.cols as int,
        )
    }
}

/// The positions of the first `n` rows that are rewritten run by run.
pub open spec fn run_places(shown: ScreenView, new: ScreenView, n: int) -> Seq<(int, int)>
    decreases n,
{
    if n <= 0 {
        seq![]
    } else {
        run_places(shown, new, n - 1) + places_in_row(
            |x: int| laws::run_rewritten(shown.rows[n - 1], new.rows[n - 1], x),
            n - 1,
            new.cols as int,
        )
    }
}

/// What is known of steps: their characters, the cells they write, and where they lead.
spec fn known(
    steps: Seq<Step>,
    new: ScreenView,
    pen: CellStyle,
    text: Seq<char>,
    cells: Seq<(int, int)>,
    ink: CellStyle,
) -> bool {
    &&& steps_text(steps, new) == text
    &&& cells_written(steps) == cells
    &&& well_placed(steps, new, pen)
    &&& state_after(steps, new, pen).1 == ink
}

proof fn move_step(
    steps: Seq<Step>,
    new: ScreenView,
    pen: CellStyle,
    text: Seq<char>,
    cells: Seq<(int, int)>,
    ink: CellStyle,
    y: int,
    x: int,
)
    requires
        known(steps, new, pen, text, cells, ink),
    ensures
        ({
            let next = steps.push(Step::Move { y, x });
            &&& known(
                next,
                new,
                pen,
                text + escape::cursor_to((y + 1) as nat, (x + 1) as nat),
                cells,
                ink,
            )
            &&& state_after(next, new, pen).0 == Some((y, x))
        }),
{
    assert(steps.push(Step::Move { y, x }).drop_last() =~= steps);
}

proof fn reset_step(
    steps: Seq<Step>,
    new: ScreenView,
    pen: CellStyle,
    text: Seq<char>,
    cells: Seq<(int, int)>,
    ink: CellStyle,
)
    requires
        known(steps, new, pen, text, cells, ink),
    ensures
        ({
            let next = steps.push(Step::Reset);
            &&& known(
                next,
                new,
                pen,
                text + escape::reset_style(),
                cells,
                snapshot::plain_style(),
            )
            &&& state_after(next, new, pen).0 == state_after(steps, new, pen).0
        }),
{
    assert(steps.push(Step::Reset).drop_last() =~= steps);
}

proof fn turn_step(
    steps: Seq<Step>,
    new: ScreenView,
    pen: CellStyle,
    text: Seq<char>,
    cells: Seq<(int, int)>,
    style: CellStyle,
)
    requires
        known(steps, new, pen, text, cells, snapshot::plain_style()),
    ensures
        ({
            let next = steps.push(Step::Turn { style });
            &&& known(next, new, pen, text + escape::style_sequence(style), cells, style)
            &&& state_after(next, new, pen).0 == state_after(steps, new, pen).0
        }),
{
    assert(steps.push(Step::Turn { style }).drop_last() =~= steps);
}

proof fn write_step(
    steps: Seq<Step>,
    new: ScreenView,
    pen: CellStyle,
    text: Seq<char>,
    cells: Seq<(int, int)>,
    ink: CellStyle,
    y: int,
    x: int,
)
    requires
        known(steps, new, pen, text, cells, ink),
        state_after(steps, new, pen).0 == Some((y, x)),
        ink == new.rows[y][x].style,
    ensures
        ({
            let next = steps.push(Step::Write { y, x });
            &&& known(
                next,
                new,
                pen,
                text + display::cell_text(new.rows[y][x]),
                cells.push((y, x)),
                ink,
            )
            &&& state_after(next, new, pen).0 == Some(
                (
                    y,
                    x + if new.rows[y][x].wide {
                        2int
                    } else {
                        1
                    },
                ),
            )
        }),
{
    reveal_strlit(" ");
    assert(" "@ =~= seq![' ']);
    assert(steps.push(Step::Write { y, x }).drop_last() =~= steps);
    assert(display::cell_text(new.rows[y][x]) == laws::legible(new.rows[y][x]));
}

/// The steps of one position are well placed, and lead to the next one.
proof fn position_steps(
    steps: Seq<Step>,
    shown: ScreenView,
    new: ScreenView,
    pen: CellStyle,
    text: Seq<char>,
    cells: Seq<(int, int)>,
    y: int,
    x: int,
) -> (next: Seq<Step>)
    requires
        known(steps, new, pen, text, cells, display::pen_before(new.rows[y], x)),
        0 <= x,
        x > 0 && display::visited(new.rows[y], x - 1) && display::changed(
            shown.rows[y],
            new.rows[y],
            x - 1,
        ) ==> state_after(steps, new, pen).0 == Some(
            (
                y,
                x - 1 + if new.rows[y][x - 1].wide {
                    2int
                } else {
                    1
                },
            ),
        ),
    ensures
        known(
            next,
            new,
            pen,
            text + display::position_update(shown.rows[y], new.rows[y], y, x),
            if laws::rewritten(shown.rows[y], new.rows[y], x) {
                cells.push((y, x))
            } else {
                cells
            },
            display::pen_before(new.rows[y], x + 1),
        ),
        laws::rewritten(shown.rows[y], new.rows[y], x) ==> state_after(next, new, pen).0 == Some(
            (
                y,
                x + if new.rows[y][x].wide {
                    2int
                } else {
                    1
                },
            ),
        ),
{
    let old_row = shown.rows[y];
    let new_row = new.rows[y];
    laws::covered_is_not_visited(new_row, x);
    let style = new_row[x].style;
    let ink = display::pen_before(new_row, x);
    let here = escape::cursor_to((y + 1) as nat, (x + 1) as nat);
    let update = display::position_update(old_row, new_row, y, x);
    if !display::visited(new_row, x) {
        assert(text + update =~= text);
        steps
    } else {
        let turned = ink != style;
        let is_changed = display::changed(old_row, new_row, x);
        let after_written = x > 0 && display::visited(new_row, x - 1) && display::changed(
            old_row,
            new_row,
            x - 1,
        );
        if turned {
            let a = steps.push(Step::Move { y, x });
            let b = a.push(Step::Reset);
            let c = b.push(Step::Turn { style });
            move_step(steps, new, pen, text, cells, ink, y, x);
            reset_step(a, new, pen, text + here, cells, ink);
            turn_step(b, new, pen, text + here + escape::reset_style(), cells, style);
            let so_far = text + here + escape::reset_style() + escape::style_sequence(style);
            if is_changed {
                write_step(c, new, pen, so_far, cells, style, y, x);
                assert(so_far + display::cell_text(new_row[x]) =~= text + update);
                c.push(Step::Write { y, x })
            } else {
                assert(so_far =~= text + update);
                c
            }
        } else if is_changed {
            if after_written {
                write_step(steps, new, pen, text, cells, ink, y, x);
                assert(text + display::cell_text(new_row[x]) =~= text + update);
                steps.push(Step::Write { y, x })
            } else {
                let a = steps.push(Step::Move { y, x });
                move_step(steps, new, pen, text, cells, ink, y, x);
                write_step(a, new, pen, text + here, cells, ink, y, x);
                assert(text + here + display::cell_text(new_row[x]) =~= text + update);
                a.push(Step::Write { y, x })
            }
        } else {
            assert(text + update =~= text);
            steps
        }
    }
}

proof fn row_steps(
    steps: Seq<Step>,
    shown: ScreenView,
    new: ScreenView,
    pen: CellStyle,
    text: Seq<char>,
    cells: Seq<(int, int)>,
    y: int,
    n: int,
) -> (next: Seq<Step>)
    requires
        known(steps, new, pen, text, cells, snapshot::plain_style()),
        0 <= n,
    ensures
        known(
            next,
            new,
            pen,
            text + display::position_updates(shown.rows[y], new.rows[y], y, n),
            cells + places_in_row(
                |x: int| laws::rewritten(shown.rows[y], new.rows[y], x),
                y,
                n,
            ),
            display::pen_before(new.rows[y], n),
        ),
        n > 0 && laws::rewritten(shown.rows[y], new.rows[y], n - 1) ==> state_after(
            next,
            new,
            pen,
        ).0 == Some(
            (
                y,
                n - 1 + if new.rows[y][n - 1].wide {
                    2int
                } else {
                    1
                },
            ),
        ),
    decreases n,
{
    let chosen = |x: int| laws::rewritten(shown.rows[y], new.rows[y], x);
    if n == 0 {
        assert(text + Seq::<char>::empty() =~= text);
        assert(cells + Seq::<(int, int)>::empty() =~= cells);
        steps
    } else {
        let before = row_steps(steps, shown, new, pen, text, cells, y, n - 1);
        if n > 1 {
            laws::covered_is_not_visited(new.rows[y], n - 2);
        }
        let so_far = text + display::position_updates(shown.rows[y], new.rows[y], y, n - 1);
        let listed = cells + places_in_row(chosen, y, n - 1);
        let next = position_steps(before, shown, new, pen, so_far, listed, y, n - 1);
        assert(so_far + display::position_update(shown.rows[y], new.rows[y], y, n - 1) =~= text
            + display::position_updates(shown.rows[y], new.rows[y], y, n));
        assert(cells + places_in_row(chosen, y, n) =~= if chosen(n - 1) {
            listed.push((y, n - 1))
        } else {
            listed
        });
        next
    }
}

proof fn no_places(shown: ScreenView, new: ScreenView, y: int, n: int)
    requires
        forall|x: int| 0 <= x < n ==> !#[trigger] laws::rewritten(shown.rows[y], new.rows[y], x),
    ensures
        places_in_row(|x: int| laws::rewritten(shown.rows[y], new.rows[y], x), y, n) == Seq::<
            (int, int),
        >::empty(),
    decreases n,
{
    if n > 0 {
        no_places(shown, new, y, n - 1);
        assert(!laws::rewritten(shown.rows[y], new.rows[y], n - 1));
    }
}

proof fn rows_steps(shown: ScreenView, new: ScreenView, pen: CellStyle, n: int) -> (steps: Seq<
    Step,
>)
    requires
        0 <= n,
    ensures
        steps_text(steps, new) == display::row_updates(shown, new, n),
        cells_written(steps) == places(shown, new, n),
        well_placed(steps, new, pen),
    decreases n,
{
    if n == 0 {
        Seq::empty()
    } else {
        let before = rows_steps(shown, new, pen, n - 1);
        let y = n - 1;
        let cols = new.cols as int;
        let text = display::row_updates(shown, new, y);
        let cells = places(shown, new, y);
        let ink = state_after(before, new, pen).1;
        let old_row = shown.rows[y];
        let new_row = new.rows[y];
        if display::row_changed(old_row, new_row, cols) {
            let reset = before.push(Step::Reset);
            reset_step(before, new, pen, text, cells, ink);
            let next = row_steps(
                reset,
                shown,
                new,
                pen,
                text + escape::reset_style(),
                cells,
                y,
                cols,
            );
            assert(text + escape::reset_style() + display::position_updates(
                old_row,
                new_row,
                y,
                cols,
            ) =~= display::row_updates(shown, new, n));
            next
        } else {
            assert forall|x: int| 0 <= x < cols implies !#[trigger] laws::rewritten(
                shown.rows[y],
                new.rows[y],
                x,
            ) by {
                assert(!display::changed(old_row, new_row, x));
            }
            no_places(shown, new, y, cols);
            assert(cells + Seq::<(int, int)>::empty() =~= cells);
            assert(text + Seq::<char>::empty() =~= text);
            before
        }
    }
}

/// An update between screens of the same size writes the text of every cell that differs at the
/// place of the cell and in its style, whatever the text is and whatever the pen was before, and
/// writes no other cell; then it places the cursor.
pub proof fn update_places_texts(shown: ScreenView, new: ScreenView, pen: CellStyle)
    requires
        shown.cols == new.cols,
        shown.rows_count == new.rows_count,
    ensures
        exists|steps: Seq<Step>|
            #![trigger well_placed(steps, new, pen)]
            {
                &&& well_placed(steps, new, pen)
                &&& cells_written(steps) == places(shown, new, new.rows_count as int)
                &&& display::screen_update(shown, new) == steps_text(steps, new)
                    + display::cursor_update(shown, new)
            },
{
    let steps = rows_steps(shown, new, pen, new.rows_count as int);
    assert(well_placed(steps, new, pen));
}

proof fn style_steps(
    steps: Seq<Step>,
    new: ScreenView,
    pen: CellStyle,
    text: Seq<char>,
    cells: Seq<(int, int)>,
    from: CellStyle,
    to: CellStyle,
) -> (next: Seq<Step>)
    requires
        known(steps, new, pen, text, cells, from),
    ensures
        known(next, new, pen, text + display::style_change(from, to), cells, to),
        state_after(next, new, pen).0 == state_after(steps, new, pen).0,
{
    let change = display::style_change(from, to);
    if to == from {
        assert(text + change =~= text);
        steps
    } else if from == snapshot::plain_style() {
        turn_step(steps, new, pen, text, cells, to);
        steps.push(Step::Turn { style: to })
    } else {
        let a = steps.push(Step::Reset);
        reset_step(steps, new, pen, text, cells, from);
        turn_step(a, new, pen, text + escape::reset_style(), cells, to);
        assert(text + escape::reset_style() + escape::style_sequence(to) =~= text + change);
        a.push(Step::Turn { style: to })
    }
}

#[verifier::spinoff_prover]
#[verifier::rlimit(30)]
proof fn run_row_steps(
    steps: Seq<Step>,
    shown: ScreenView,
    new: ScreenView,
    pen: CellStyle,
    text: Seq<char>,
    cells: Seq<(int, int)>,
    y: int,
    n: int,
    last: CellStyle,
) -> (next: Seq<Step>)
    requires
        known(steps, new, pen, text, cells, last),
        0 <= n,
    ensures
        ({
            let done = runs::row_runs(shown.rows[y], new.rows[y], y, n, last);
            &&& known(
                next,
                new,
                pen,
                text + done.0,
                cells + places_in_row(
                    |x: int| laws::run_rewritten(shown.rows[y], new.rows[y], x),
                    y,
                    n,
                ),
                done.1,
            )
            &&& runs::visited(shown.rows[y], new.rows[y], n) && !runs::starts_run(
                shown.rows[y],
                new.rows[y],
                n,
            ) ==> state_after(next, new, pen).0 == Some((y, n))
            &&& !runs::visited(shown.rows[y], new.rows[y], n) ==> state_after(next, new, pen).0
                == Some((y, n + 1))
        }),
    decreases n,
{
    let old_row = shown.rows[y];
    let new_row = new.rows[y];
    let chosen = |x: int| laws::run_rewritten(shown.rows[y], new.rows[y], x);
    if n == 0 {
        assert(text + Seq::<char>::empty() =~= text);
        assert(cells + Seq::<(int, int)>::empty() =~= cells);
        steps
    } else {
        let x = n - 1;
        let before = run_row_steps(steps, shown, new, pen, text, cells, y, x, last);
        let done = runs::row_runs(old_row, new_row, y, x, last);
        let so_far = text + done.0;
        let listed = cells + places_in_row(chosen, y, x);
        laws::run_covered_is_not_visited(old_row, new_row, x);
        let style = new_row[x].style;
        let was = old_row[x].style;
        let plain = snapshot::plain_style();
        let here = escape::cursor_to((y + 1) as nat, (x + 1) as nat);
        if runs::written(old_row, new_row, x) {
            let starts = runs::starts_run(old_row, new_row, x);
            let a = if starts {
                before.push(Step::Move { y, x })
            } else {
                before
            };
            let moved = so_far + if starts {
                here
            } else {
                Seq::empty()
            };
            move_step(before, new, pen, so_far, listed, done.1, y, x);
            assert(so_far + Seq::<char>::empty() =~= so_far);
            let turns = runs::run_style(was, style, done.1);
            let b = if style == plain && was != plain {
                reset_step(a, new, pen, moved, listed, done.1);
                a.push(Step::Reset)
            } else {
                style_steps(a, new, pen, moved, listed, done.1, style)
            };
            assert(known(b, new, pen, moved + turns, listed, style));
            write_step(b, new, pen, moved + turns, listed, style, y, x);
            let next = b.push(Step::Write { y, x });
            assert(moved + turns + display::cell_text(new_row[x]) =~= text + runs::row_runs(
                old_row,
                new_row,
                y,
                n,
                last,
            ).0);
            assert(cells + places_in_row(chosen, y, n) =~= listed.push((y, x)));
            next
        } else {
            assert(cells + places_in_row(chosen, y, n) =~= listed);
            before
        }
    }
}

proof fn run_rows_steps(shown: ScreenView, new: ScreenView, n: int) -> (steps: Seq<Step>)
    requires
        0 <= n,
    ensures
        known(
            steps,
            new,
            snapshot::plain_style(),
            runs::screen_runs(shown, new, n).0,
            run_places(shown, new, n),
            runs::screen_runs(shown, new, n).1,
        ),
    decreases n,
{
    if n == 0 {
        Seq::empty()
    } else {
        let before = run_rows_steps(shown, new, n - 1);
        let done = runs::screen_runs(shown, new, n - 1);
        run_row_steps(
            before,
            shown,
            new,
            snapshot::plain_style(),
            done.0,
            run_places(shown, new, n - 1),
            n - 1,
            new.cols as int,
            done.1,
        )
    }
}

/// An update run by run between screens of the same size, written with a plain pen, writes the text
/// of every cell that differs at the place of the cell and in its style, whatever the text is, and
/// writes no other cell; it leaves the pen plain and then places the cursor.
pub proof fn run_update_places_texts(shown: ScreenView, new: ScreenView)
    requires
        shown.cols == new.cols,
        shown.rows_count == new.rows_count,
    ensures
        exists|steps: Seq<Step>|
            #![trigger well_placed(steps, new, snapshot::plain_style())]
            {
                &&& well_placed(steps, new, snapshot::plain_style())
                &&& cells_written(steps) == run_places(shown, new, new.rows_count as int)
                &&& state_after(steps, new, snapshot::plain_style()).1 == snapshot::plain_style()
                &&& runs::run_update(shown, new) == steps_text(steps, new)
                    + display::cursor_update(shown, new)
            },
{
    let n = new.rows_count as int;
    let plain = snapshot::plain_style();
    let steps = run_rows_steps(shown, new, n);
    let done = runs::screen_runs(shown, new, n);
    let all = style_steps(
        steps,
        new,
        plain,
        done.0,
        run_places(shown, new, n),
        done.1,
        plain,
    );
    assert(well_placed(all, new, plain));
}

/// The cursor is placed where the new screen has it, counted from one, and shown or hidden where that
/// changes.
pub proof fn cursor_is_placed(shown: ScreenView, new: ScreenView)
    ensures
        ({
            let here = escape::cursor_to(new.cursor_y as nat + 1, new.cursor_x as nat + 1);
            let update = display::cursor_update(shown, new);
            &&& shown.cursor_visible == new.cursor_visible ==> update == here
            &&& !shown.cursor_visible && new.cursor_visible ==> update == here + "\x1b[?25h"@
            &&& shown.cursor_visible && !new.cursor_visible ==> update == here + "\x1b[?25l"@
        }),
{
    let here = escape::cursor_to(new.cursor_y as nat + 1, new.cursor_x as nat + 1);
    assert(here + Seq::<char>::empty() =~= here);
}

/// All positions of the first `n` rows.
pub open spec fn all_places(screen: ScreenView, n: int) -> Seq<(int, int)>
    decreases n,
{
    if n <= 0 {
        seq![]
    } else {
        all_places(screen, n - 1) + places_in_row(
            |x: int| true,
            n - 1,
            screen.rows[n - 1].len() as int,
        )
    }
}

proof fn drawn_row_steps(
    steps: Seq<Step>,
    screen: ScreenView,
    pen: CellStyle,
    text: Seq<char>,
    cells: Seq<(int, int)>,
    y: int,
    n: int,
) -> (next: Seq<Step>)
    requires
        known(steps, screen, pen, text, cells, snapshot::plain_style()),
        state_after(steps, screen, pen).0 == Some((y, 0int)),
        0 <= n <= screen.rows[y].len(),
        forall|x: int| 0 <= x < screen.rows[y].len() ==> !(#[trigger] screen.rows[y][x]).wide,
    ensures
        known(
            next,
            screen,
            pen,
            text + display::drawn_cells(screen.rows[y], n),
            cells + places_in_row(|x: int| true, y, n),
            display::style_before(screen.rows[y], n),
        ),
        state_after(next, screen, pen).0 == Some((y, n)),
    decreases n,
{
    let row = screen.rows[y];
    let all = |x: int| true;
    if n == 0 {
        assert(text + Seq::<char>::empty() =~= text);
        assert(cells + Seq::<(int, int)>::empty() =~= cells);
        steps
    } else {
        let x = n - 1;
        let before = drawn_row_steps(steps, screen, pen, text, cells, y, x);
        let so_far = text + display::drawn_cells(row, x);
        let listed = cells + places_in_row(all, y, x);
        let from = display::style_before(row, x);
        let style = row[x].style;
        let turned = style_steps(before, screen, pen, so_far, listed, from, style);
        let change = display::style_change(from, style);
        assert(!screen.rows[y][x].wide);
        write_step(turned, screen, pen, so_far + change, listed, style, y, x);
        assert(so_far + change + display::cell_text(row[x]) =~= text + display::drawn_cells(
            row,
            n,
        ));
        assert(cells + places_in_row(all, y, n) =~= listed.push((y, x)));
        turned.push(Step::Write { y, x })
    }
}

proof fn drawn_rows_steps(
    steps: Seq<Step>,
    screen: ScreenView,
    pen: CellStyle,
    text: Seq<char>,
    n: int,
) -> (next: Seq<Step>)
    requires
        known(steps, screen, pen, text, Seq::empty(), snapshot::plain_style()),
        state_after(steps, screen, pen).0 == Some((0int, 0int)),
        0 < n <= screen.rows.len(),
        forall|y: int, x: int|
            0 <= y < screen.rows.len() && 0 <= x < screen.rows[y].len() ==> !(
            #[trigger] screen.rows[y][x]).wide,
    ensures
        known(
            next,
            screen,
            pen,
            text + display::drawn_rows(screen.rows, n),
            all_places(screen, n),
            snapshot::plain_style(),
        ),
        state_after(next, screen, pen).0 == Some((n - 1, screen.rows[n - 1].len() as int)),
    decreases n,
{
    let y = n - 1;
    let row = screen.rows[y];
    let len = row.len() as int;
    let plain = snapshot::plain_style();
    let before = if n == 1 {
        steps
    } else {
        let above = drawn_rows_steps(steps, screen, pen, text, y);
        let next = above.push(Step::NextLine);
        assert(next.drop_last() =~= above);
        next
    };
    let so_far = if n == 1 {
        text
    } else {
        text + display::drawn_rows(screen.rows, y) + "\r\n"@
    };
    let listed = all_places(screen, y);
    assert(known(before, screen, pen, so_far, listed, plain));
    let drawn = drawn_row_steps(before, screen, pen, so_far, listed, y, len);
    let ended = style_steps(
        drawn,
        screen,
        pen,
        so_far + display::drawn_cells(row, len),
        all_places(screen, n),
        display::style_before(row, len),
        plain,
    );
    assert(so_far + display::drawn_cells(row, len) + display::style_change(
        display::style_before(row, len),
        plain,
    ) =~= text + display::drawn_rows(screen.rows, n));
    ended
}

/// Drawing a screen without wide cells from scratch, with a plain pen, hides the cursor, clears the
/// display and writes every text at the place of its cell and in its style, line by line; it leaves
/// the pen plain, places the cursor, and shows it if it is to be seen.
pub proof fn redraw_places_texts(screen: ScreenView)
    requires
        screen.rows.len() > 0,
        forall|y: int, x: int|
            0 <= y < screen.rows.len() && 0 <= x < screen.rows[y].len() ==> !(
            #[trigger] screen.rows[y][x]).wide,
    ensures
        exists|steps: Seq<Step>|
            #![trigger well_placed(steps, screen, snapshot::plain_style())]
            {
                &&& well_placed(steps, screen, snapshot::plain_style())
                &&& cells_written(steps) == all_places(screen, screen.rows.len() as int)
                &&& state_after(steps, screen, snapshot::plain_style()).1
                    == snapshot::plain_style()
                &&& display::redraw(screen) == "\x1b[?25l"@ + "\x1b[2J"@ + steps_text(steps, screen)
                    + escape::cursor_to(screen.cursor_y as nat + 1, screen.cursor_x as nat + 1)
                    + if screen.cursor_visible {
                    "\x1b[?25h"@
                } else {
                    seq![]
                }
            },
{
    let plain = snapshot::plain_style();
    let n = screen.rows.len() as int;
    let none = Seq::<Step>::empty();
    let home = none.push(Step::Home);
    assert(home.drop_last() =~= none);
    assert(steps_text(none, screen) =~= Seq::<char>::empty());
    assert(Seq::<char>::empty() + "\x1b[H"@ =~= "\x1b[H"@);
    assert(home.last() == Step::Home);
    assert(steps_text(home, screen) == "\x1b[H"@);
    assert(cells_written(none) =~= Seq::<(int, int)>::empty());
    assert(cells_written(home) =~= Seq::<(int, int)>::empty());
    assert(well_placed(none, screen, plain));
    assert(well_placed(home, screen, plain));
    assert(state_after(none, screen, plain) == (None::<(int, int)>, plain));
    let steps = drawn_rows_steps(home, screen, plain, "\x1b[H"@, n);
    assert(well_placed(steps, screen, plain));
    let start = escape::hide_cursor() + "\x1b[2J"@;
    assert(start + "\x1b[H"@ + display::drawn_rows(screen.rows, n) =~= start + ("\x1b[H"@
        + display::drawn_rows(screen.rows, n)));
}

} // verus!
