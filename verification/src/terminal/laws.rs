//! What the sequences that draw a screen consist of, whatever the cells hold: the texts of the cells,
//! with control sequences between them.

use crate::terminal::display;
use crate::terminal::escape;
use crate::terminal::runs;
use crate::terminal::snapshot;
use crate::terminal::snapshot::CellStyle;
use crate::terminal::snapshot::CellView;
use crate::terminal::snapshot::ScreenView;
use crate::text;
use vstd::prelude::*;

verus! {

/// Where a reader of terminal output is.
pub enum Place {
    /// In text.
    Text,
    /// After the character that begins a control sequence.
    Begun,
    /// In a control sequence.
    Control,
}

/// The place after one more character. A control sequence begins with an escape character and a
/// bracket, and ends with a letter.
pub open spec fn place_after(place: Place, c: char) -> Place {
    match place {
        Place::Text => if c as int == 0x1b {
            Place::Begun
        } else {
            Place::Text
        },
        Place::Begun => Place::Control,
        Place::Control => if 64 <= c as int <= 126 {
            Place::Text
        } else {
            Place::Control
        },
    }
}

/// The text in terminal output, and the place after it.
pub open spec fn text_in(place: Place, s: Seq<char>) -> (Seq<char>, Place)
    decreases s.len(),
{
    if s.len() == 0 {
        (seq![], place)
    } else {
        let (done, at) = text_in(place, s.drop_last());
        (
            if at == Place::Text && s.last() as int != 0x1b {
                done.push(s.last())
            } else {
                done
            },
            place_after(at, s.last()),
        )
    }
}

/// The text in two outputs, one after the other, is that of the first and that of the second.
pub proof fn text_in_concat(place: Place, a: Seq<char>, b: Seq<char>)
    ensures
        ({
            let first = text_in(place, a);
            let second = text_in(first.1, b);
            text_in(place, a + b) == (first.0 + second.0, second.1)
        }),
    decreases b.len(),
{
    let first = text_in(place, a);
    if b.len() == 0 {
        assert(a + b =~= a);
        assert(first.0 + text_in(first.1, b).0 =~= first.0);
    } else {
        text_in_concat(place, a, b.drop_last());
        assert((a + b).drop_last() =~= a + b.drop_last());
        let second = text_in(first.1, b);
        assert(text_in(place, a + b).0 =~= first.0 + second.0);
    }
}

/// Whether output has the given text in it and ends in text, if it begins there.
spec fn has_text(s: Seq<char>, text: Seq<char>) -> bool {
    text_in(Place::Text, s) == (text, Place::Text)
}

proof fn has_text_concat(a: Seq<char>, b: Seq<char>, s: Seq<char>, t: Seq<char>)
    requires
        has_text(a, s),
        has_text(b, t),
    ensures
        has_text(a + b, s + t),
{
    text_in_concat(Place::Text, a, b);
}

proof fn nothing_has_text()
    ensures
        has_text(Seq::empty(), Seq::empty()),
{
}

/// Whether a text is free of escape characters.
pub open spec fn no_escape(s: Seq<char>) -> bool {
    forall|i: int| 0 <= i < s.len() ==> #[trigger] s[i] as int != 0x1b
}

/// A text without an escape character is text throughout.
pub proof fn plain_has_text(s: Seq<char>)
    requires
        no_escape(s),
    ensures
        text_in(Place::Text, s) == (s, Place::Text),
    decreases s.len(),
{
    if s.len() > 0 {
        assert forall|i: int| 0 <= i < s.len() - 1 implies #[trigger] s.drop_last()[i] as int
            != 0x1b by {
            assert(s.drop_last()[i] == s[i]);
        }
        plain_has_text(s.drop_last());
        assert(s.last() == s[s.len() - 1]);
        assert(s.drop_last().push(s.last()) =~= s);
    } else {
        assert(s =~= Seq::empty());
    }
}

/// Whether all characters of a text go on within a control sequence.
spec fn goes_on(s: Seq<char>) -> bool {
    forall|i: int| 0 <= i < s.len() ==> (#[trigger] s[i] as int) < 64
}

proof fn goes_on_within(s: Seq<char>)
    requires
        goes_on(s),
    ensures
        text_in(Place::Control, s) == (Seq::<char>::empty(), Place::Control),
    decreases s.len(),
{
    if s.len() > 0 {
        goes_on_within(s.drop_last());
        assert(s.last() == s[s.len() - 1]);
    }
}

/// A control sequence has no text in it.
pub proof fn control_has_no_text(body: Seq<char>, last: char)
    requires
        forall|i: int| 0 <= i < body.len() ==> (#[trigger] body[i] as int) < 64,
        64 <= last as int <= 126,
    ensures
        text_in(Place::Text, "\x1b["@ + body + seq![last]) == (Seq::<char>::empty(), Place::Text),
{
    reveal_strlit("\x1b[");
    let head = "\x1b["@;
    assert(head.len() == 2 && head[0] as int == 0x1b);
    assert(head.drop_last() =~= seq![head[0]]);
    assert(head.drop_last().drop_last() =~= Seq::<char>::empty());
    assert(text_in(Place::Text, head.drop_last().drop_last()) == (Seq::<char>::empty(), Place::Text));
    assert(text_in(Place::Text, head.drop_last()) == (Seq::<char>::empty(), Place::Begun));
    assert(text_in(Place::Text, head) == (Seq::<char>::empty(), Place::Control));
    goes_on_within(body);
    text_in_concat(Place::Text, head, body);
    assert(Seq::<char>::empty() + Seq::<char>::empty() =~= Seq::<char>::empty());
    let end = seq![last];
    assert(end.drop_last() =~= Seq::<char>::empty());
    assert(text_in(Place::Control, end.drop_last()) == (Seq::<char>::empty(), Place::Control));
    assert(text_in(Place::Control, end) == (Seq::<char>::empty(), Place::Text));
    text_in_concat(Place::Text, head + body, end);
}

proof fn decimal_goes_on(n: nat)
    ensures
        goes_on(text::decimal(n)),
    decreases n,
{
    if n >= 10 {
        decimal_goes_on(n / 10);
        let s = text::decimal(n);
        let t = text::decimal(n / 10);
        assert forall|i: int| 0 <= i < s.len() implies (#[trigger] s[i] as int) < 64 by {
            if i < t.len() {
                assert(s[i] == t[i]);
            }
        }
    }
}

proof fn params_go_on(params: Seq<nat>)
    ensures
        goes_on(escape::join_params(params)),
    decreases params.len(),
{
    reveal_strlit(";");
    if params.len() > 0 {
        decimal_goes_on(params[0]);
        params_go_on(params.drop_first());
    }
}

/// A move of the cursor has no text in it.
pub proof fn moves_have_no_text(row: nat, col: nat)
    ensures
        text_in(Place::Text, escape::cursor_to(row, col)) == (Seq::<char>::empty(), Place::Text),
{
    reveal_strlit("\x1b[");
    reveal_strlit(";");
    reveal_strlit("H");
    decimal_goes_on(row);
    decimal_goes_on(col);
    let body = text::decimal(row) + ";"@ + text::decimal(col);
    assert(escape::cursor_to(row, col) =~= "\x1b["@ + body + seq!['H']);
    control_has_no_text(body, 'H');
}

proof fn styles_have_no_text(style: CellStyle)
    ensures
        has_text(escape::style_sequence(style), Seq::empty()),
        has_text(escape::reset_style(), Seq::empty()),
{
    let params = escape::style_params(style);
    if params.len() > 0 {
        reveal_strlit("m");
        params_go_on(params);
        assert(escape::style_sequence(style) =~= "\x1b["@ + escape::join_params(params) + seq!['m']);
        control_has_no_text(escape::join_params(params), 'm');
    }
    reveal_strlit("\x1b[0m");
    reveal_strlit("\x1b[");
    assert(escape::reset_style() =~= "\x1b["@ + seq!['0'] + seq!['m']);
    control_has_no_text(seq!['0'], 'm');
}

proof fn sight_has_no_text()
    ensures
        has_text(escape::show_cursor(), Seq::empty()),
        has_text(escape::hide_cursor(), Seq::empty()),
        has_text("\x1b[2J"@, Seq::empty()),
        has_text("\x1b[H"@, Seq::empty()),
{
    reveal_strlit("\x1b[");
    reveal_strlit("\x1b[?25h");
    reveal_strlit("\x1b[?25l");
    reveal_strlit("\x1b[2J");
    reveal_strlit("\x1b[H");
    assert(escape::show_cursor() =~= "\x1b["@ + seq!['?', '2', '5'] + seq!['h']);
    assert(escape::hide_cursor() =~= "\x1b["@ + seq!['?', '2', '5'] + seq!['l']);
    assert("\x1b[2J"@ =~= "\x1b["@ + seq!['2'] + seq!['J']);
    assert("\x1b[H"@ =~= "\x1b["@ + Seq::<char>::empty() + seq!['H']);
    control_has_no_text(seq!['?', '2', '5'], 'h');
    control_has_no_text(seq!['?', '2', '5'], 'l');
    control_has_no_text(seq!['2'], 'J');
    control_has_no_text(Seq::empty(), 'H');
}

proof fn changes_have_no_text(from: CellStyle, to: CellStyle)
    ensures
        has_text(display::style_change(from, to), Seq::empty()),
{
    styles_have_no_text(to);
    has_text_concat(
        escape::reset_style(),
        escape::style_sequence(to),
        Seq::empty(),
        Seq::empty(),
    );
    assert(Seq::<char>::empty() + Seq::<char>::empty() =~= Seq::<char>::empty());
}

/// What the user is to read in a cell: its text, or a space where it has none.
pub open spec fn legible(cell: CellView) -> Seq<char> {
    if cell.text.len() == 0 {
        seq![' ']
    } else {
        cell.text
    }
}

/// The first `n` cells of a row, read one after the other, as far as they are among `which`.
pub open spec fn legible_row(row: Seq<CellView>, which: spec_fn(int) -> bool, n: int) -> Seq<char>
    decreases n,
{
    if n <= 0 {
        seq![]
    } else {
        legible_row(row, which, n - 1) + if which(n - 1) {
            legible(row[n - 1])
        } else {
            seq![]
        }
    }
}

/// Whether the texts of a row are free of escape characters.
pub open spec fn tame_row(row: Seq<CellView>) -> bool {
    forall|x: int| 0 <= x < row.len() ==> no_escape((#[trigger] row[x]).text)
}

/// Whether the texts of a screen are free of escape characters.
pub open spec fn tame(screen: ScreenView) -> bool {
    forall|y: int| 0 <= y < screen.rows.len() ==> tame_row(#[trigger] screen.rows[y])
}

proof fn cells_have_text(cell: CellView)
    requires
        no_escape(cell.text),
    ensures
        has_text(display::cell_text(cell), legible(cell)),
{
    reveal_strlit(" ");
    assert(" "@ =~= seq![' ']);
    plain_has_text(legible(cell));
    assert(display::cell_text(cell) =~= legible(cell));
}

proof fn drawn_cells_have_text(row: Seq<CellView>, n: int)
    requires
        0 <= n <= row.len(),
        tame_row(row),
    ensures
        has_text(display::drawn_cells(row, n), legible_row(row, |x: int| true, n)),
    decreases n,
{
    let all = |x: int| true;
    if n > 0 {
        let cell = row[n - 1];
        drawn_cells_have_text(row, n - 1);
        let done = display::drawn_cells(row, n - 1);
        let change = display::style_change(display::style_before(row, n - 1), cell.style);
        changes_have_no_text(display::style_before(row, n - 1), cell.style);
        cells_have_text(cell);
        let read = legible_row(row, all, n - 1);
        has_text_concat(done, change, read, Seq::empty());
        assert(read + Seq::<char>::empty() =~= read);
        has_text_concat(done + change, display::cell_text(cell), read, legible(cell));
    }
}

/// All cells of the first `n` rows, read line by line.
pub open spec fn legible_screen(rows: Seq<Seq<CellView>>, n: int) -> Seq<char>
    decreases n,
{
    if n <= 0 {
        seq![]
    } else {
        (if n == 1 {
            seq![]
        } else {
            legible_screen(rows, n - 1) + seq!['\r', '\n']
        }) + legible_row(rows[n - 1], |x: int| true, rows[n - 1].len() as int)
    }
}

proof fn drawn_rows_have_text(rows: Seq<Seq<CellView>>, n: int)
    requires
        0 <= n <= rows.len(),
        forall|y: int| 0 <= y < rows.len() ==> tame_row(#[trigger] rows[y]),
    ensures
        has_text(display::drawn_rows(rows, n), legible_screen(rows, n)),
    decreases n,
{
    if n > 0 {
        let row = rows[n - 1];
        let len = row.len() as int;
        let read = legible_row(row, |x: int| true, len);
        let plain = snapshot::plain_style();
        drawn_cells_have_text(row, len);
        changes_have_no_text(display::style_before(row, len), plain);
        has_text_concat(
            display::drawn_cells(row, len),
            display::style_change(display::style_before(row, len), plain),
            read,
            Seq::empty(),
        );
        assert(read + Seq::<char>::empty() =~= read);
        if n == 1 {
            assert(legible_screen(rows, n) =~= read);
        } else {
            drawn_rows_have_text(rows, n - 1);
            reveal_strlit("\r\n");
            assert("\r\n"@ =~= seq!['\r', '\n']);
            plain_has_text("\r\n"@);
            let before = legible_screen(rows, n - 1);
            has_text_concat(display::drawn_rows(rows, n - 1), "\r\n"@, before, seq!['\r', '\n']);
            has_text_concat(
                display::drawn_rows(rows, n - 1) + "\r\n"@,
                display::drawn_row(row),
                before + seq!['\r', '\n'],
                read,
            );
        }
    }
}

/// The text in a redraw is that of all cells of the screen, line by line, a blank as a space.
pub proof fn redraw_writes_all_text(screen: ScreenView)
    requires
        tame(screen),
    ensures
        text_in(Place::Text, display::redraw(screen)) == (
            legible_screen(screen.rows, screen.rows.len() as int),
            Place::Text,
        ),
{
    let none = Seq::<char>::empty();
    let read = legible_screen(screen.rows, screen.rows.len() as int);
    let hide = escape::hide_cursor();
    let drawn = display::drawn_rows(screen.rows, screen.rows.len() as int);
    let place = display::place_cursor(screen);
    let sight = if screen.cursor_visible {
        escape::show_cursor()
    } else {
        none
    };
    sight_has_no_text();
    drawn_rows_have_text(screen.rows, screen.rows.len() as int);
    moves_have_no_text((screen.cursor_y + 1) as nat, (screen.cursor_x + 1) as nat);
    assert(none + none =~= none);
    assert(none + read =~= read);
    assert(read + none =~= read);
    has_text_concat(hide, "\x1b[2J"@, none, none);
    has_text_concat(hide + "\x1b[2J"@, "\x1b[H"@, none, none);
    has_text_concat(hide + "\x1b[2J"@ + "\x1b[H"@, drawn, none, read);
    has_text_concat(hide + "\x1b[2J"@ + "\x1b[H"@ + drawn, place, read, none);
    has_text_concat(hide + "\x1b[2J"@ + "\x1b[H"@ + drawn + place, sight, read, none);
}

/// Whether position `x` of a row is covered by the wide cell before it.
pub open spec fn covered(row: Seq<CellView>, x: int) -> bool
    decreases x,
{
    x > 0 && row[x - 1].wide && !covered(row, x - 1)
}

/// A position is looked at unless a wide cell covers it.
pub proof fn covered_is_not_visited(row: Seq<CellView>, x: int)
    ensures
        display::visited(row, x) == !covered(row, x),
    decreases x,
{
    if x > 0 {
        covered_is_not_visited(row, x - 1);
    }
}

/// Whether position `x` is rewritten: its cell differs, and no wide cell covers it.
pub open spec fn rewritten(old_row: Seq<CellView>, new_row: Seq<CellView>, x: int) -> bool {
    &&& !(x < old_row.len() && old_row[x] == new_row[x])
    &&& !covered(new_row, x)
}

/// The first `n` rewritten cells of a row, read one after the other.
pub open spec fn news_of_row(old_row: Seq<CellView>, new_row: Seq<CellView>, n: int) -> Seq<char> {
    legible_row(new_row, |x: int| rewritten(old_row, new_row, x), n)
}

/// The rewritten cells of the first `n` rows, read one after the other.
pub open spec fn news_of_rows(shown: ScreenView, new: ScreenView, n: int) -> Seq<char>
    decreases n,
{
    if n <= 0 {
        seq![]
    } else {
        news_of_rows(shown, new, n - 1) + news_of_row(
            shown.rows[n - 1],
            new.rows[n - 1],
            new.cols as int,
        )
    }
}

proof fn positions_have_text(old_row: Seq<CellView>, new_row: Seq<CellView>, y: int, n: int)
    requires
        0 <= n <= new_row.len(),
        tame_row(new_row),
    ensures
        has_text(
            display::position_updates(old_row, new_row, y, n),
            news_of_row(old_row, new_row, n),
        ),
    decreases n,
{
    let none = Seq::<char>::empty();
    if n > 0 {
        let x = n - 1;
        positions_have_text(old_row, new_row, y, x);
        covered_is_not_visited(new_row, x);
        let style = new_row[x].style;
        let here = escape::cursor_to((y + 1) as nat, (x + 1) as nat);
        let reset = escape::reset_style();
        let on = escape::style_sequence(style);
        let text = display::cell_text(new_row[x]);
        moves_have_no_text((y + 1) as nat, (x + 1) as nat);
        styles_have_no_text(style);
        cells_have_text(new_row[x]);
        assert(none + none =~= none);
        has_text_concat(here, reset, none, none);
        has_text_concat(here + reset, on, none, none);
        let turned = display::pen_before(new_row, x) != style;
        let after_written = x > 0 && display::visited(new_row, x - 1) && display::changed(
            old_row,
            new_row,
            x - 1,
        );
        let first = if turned {
            here + reset + on
        } else {
            none
        };
        let jump = if turned || after_written {
            none
        } else {
            here
        };
        let is_changed = display::changed(old_row, new_row, x);
        let second = if is_changed {
            jump + text
        } else {
            none
        };
        let read = legible(new_row[x]);
        has_text_concat(jump, text, none, read);
        assert(none + read =~= read);
        let got = if is_changed {
            read
        } else {
            none
        };
        has_text_concat(first, second, none, got);
        assert(none + got =~= got);
        let here_update = display::position_update(old_row, new_row, y, x);
        let news = if display::visited(new_row, x) {
            got
        } else {
            none
        };
        assert(display::visited(new_row, x) ==> here_update =~= first + second);
        assert(has_text(here_update, news));
        has_text_concat(
            display::position_updates(old_row, new_row, y, x),
            here_update,
            news_of_row(old_row, new_row, x),
            news,
        );
        assert(news_of_row(old_row, new_row, n) =~= news_of_row(old_row, new_row, x) + news);
    }
}

proof fn nothing_rewritten(old_row: Seq<CellView>, new_row: Seq<CellView>, n: int)
    requires
        forall|x: int| 0 <= x < n ==> !#[trigger] rewritten(old_row, new_row, x),
    ensures
        news_of_row(old_row, new_row, n) == Seq::<char>::empty(),
    decreases n,
{
    if n > 0 {
        nothing_rewritten(old_row, new_row, n - 1);
        assert(!rewritten(old_row, new_row, n - 1));
        assert(news_of_row(old_row, new_row, n) =~= Seq::<char>::empty());
    }
}

proof fn rows_have_text(shown: ScreenView, new: ScreenView, n: int)
    requires
        0 <= n <= new.rows_count,
        new.covers(),
        tame(new),
    ensures
        has_text(display::row_updates(shown, new, n), news_of_rows(shown, new, n)),
    decreases n,
{
    let none = Seq::<char>::empty();
    if n > 0 {
        rows_have_text(shown, new, n - 1);
        let old_row = shown.rows[n - 1];
        let new_row = new.rows[n - 1];
        let cols = new.cols as int;
        let news = news_of_row(old_row, new_row, cols);
        assert(cols <= new_row.len());
        assert(tame_row(new.rows[n - 1]));
        positions_have_text(old_row, new_row, n - 1, cols);
        styles_have_no_text(new_row[0].style);
        has_text_concat(
            escape::reset_style(),
            display::position_updates(old_row, new_row, n - 1, cols),
            none,
            news,
        );
        assert(none + news =~= news);
        if !display::row_changed(old_row, new_row, cols) {
            assert forall|x: int| 0 <= x < cols implies !#[trigger] rewritten(
                old_row,
                new_row,
                x,
            ) by {
                assert(!display::changed(old_row, new_row, x));
            }
            nothing_rewritten(old_row, new_row, cols);
        }
        has_text_concat(
            display::row_updates(shown, new, n - 1),
            display::row_update(old_row, new_row, n - 1, cols),
            news_of_rows(shown, new, n - 1),
            news,
        );
    }
}

proof fn cursor_updates_have_no_text(shown: ScreenView, new: ScreenView)
    ensures
        has_text(display::cursor_update(shown, new), Seq::empty()),
{
    let none = Seq::<char>::empty();
    moves_have_no_text((new.cursor_y + 1) as nat, (new.cursor_x + 1) as nat);
    sight_has_no_text();
    assert(none + none =~= none);
    let sight = if shown.cursor_visible == new.cursor_visible {
        none
    } else if new.cursor_visible {
        escape::show_cursor()
    } else {
        escape::hide_cursor()
    };
    has_text_concat(display::place_cursor(new), sight, none, none);
}

/// The text in an update between screens of the same size is that of the cells that differ, in order:
/// all of it, and nothing else. Positions that a wide cell covers are left out.
pub proof fn update_writes_changed_text(shown: ScreenView, new: ScreenView)
    requires
        shown.cols == new.cols,
        shown.rows_count == new.rows_count,
        new.covers(),
        tame(new),
    ensures
        text_in(Place::Text, display::screen_update(shown, new)) == (
            news_of_rows(shown, new, new.rows_count as int),
            Place::Text,
        ),
{
    let news = news_of_rows(shown, new, new.rows_count as int);
    rows_have_text(shown, new, new.rows_count as int);
    cursor_updates_have_no_text(shown, new);
    has_text_concat(
        display::row_updates(shown, new, new.rows_count as int),
        display::cursor_update(shown, new),
        news,
        Seq::empty(),
    );
    assert(news + Seq::<char>::empty() =~= news);
}

/// Where the dimensions differ, both updates draw the new screen from scratch.
pub proof fn other_size_is_redrawn(shown: ScreenView, new: ScreenView)
    requires
        shown.cols != new.cols || shown.rows_count != new.rows_count,
    ensures
        display::screen_update(shown, new) == display::redraw(new),
        runs::run_update(shown, new) == display::redraw(new),
{
}

/// Whether position `x` of a row is covered by a wide cell that was just rewritten before it.
pub open spec fn run_covered(old_row: Seq<CellView>, new_row: Seq<CellView>, x: int) -> bool
    decreases x,
{
    x > 0 && new_row[x - 1].wide && !(x - 1 < old_row.len() && old_row[x - 1] == new_row[x - 1])
        && !run_covered(old_row, new_row, x - 1)
}

/// A position is looked at unless a wide cell that was just written covers it.
pub proof fn run_covered_is_not_visited(old_row: Seq<CellView>, new_row: Seq<CellView>, x: int)
    ensures
        runs::visited(old_row, new_row, x) == !run_covered(old_row, new_row, x),
    decreases x,
{
    if x > 0 {
        run_covered_is_not_visited(old_row, new_row, x - 1);
    }
}

/// Whether position `x` is rewritten run by run.
pub open spec fn run_rewritten(old_row: Seq<CellView>, new_row: Seq<CellView>, x: int) -> bool {
    &&& !(x < old_row.len() && old_row[x] == new_row[x])
    &&& !run_covered(old_row, new_row, x)
}

/// The first `n` cells of a row that are rewritten run by run, read one after the other.
pub open spec fn run_news_of_row(
    old_row: Seq<CellView>,
    new_row: Seq<CellView>,
    n: int,
) -> Seq<char> {
    legible_row(new_row, |x: int| run_rewritten(old_row, new_row, x), n)
}

/// The cells of the first `n` rows that are rewritten run by run, read one after the other.
pub open spec fn run_news_of_rows(shown: ScreenView, new: ScreenView, n: int) -> Seq<char>
    decreases n,
{
    if n <= 0 {
        seq![]
    } else {
        run_news_of_rows(shown, new, n - 1) + run_news_of_row(
            shown.rows[n - 1],
            new.rows[n - 1],
            new.cols as int,
        )
    }
}

proof fn row_runs_have_text(
    old_row: Seq<CellView>,
    new_row: Seq<CellView>,
    y: int,
    n: int,
    last: CellStyle,
)
    requires
        0 <= n <= new_row.len(),
        tame_row(new_row),
    ensures
        has_text(
            runs::row_runs(old_row, new_row, y, n, last).0,
            run_news_of_row(old_row, new_row, n),
        ),
    decreases n,
{
    let none = Seq::<char>::empty();
    if n > 0 {
        let x = n - 1;
        row_runs_have_text(old_row, new_row, y, x, last);
        run_covered_is_not_visited(old_row, new_row, x);
        let done = runs::row_runs(old_row, new_row, y, x, last);
        let before = run_news_of_row(old_row, new_row, x);
        let style = new_row[x].style;
        let here = escape::cursor_to((y + 1) as nat, (x + 1) as nat);
        let jump = if runs::starts_run(old_row, new_row, x) {
            here
        } else {
            none
        };
        let change = runs::run_style(old_row[x].style, style, done.1);
        let text = display::cell_text(new_row[x]);
        let read = legible(new_row[x]);
        moves_have_no_text((y + 1) as nat, (x + 1) as nat);
        styles_have_no_text(style);
        changes_have_no_text(done.1, style);
        cells_have_text(new_row[x]);
        assert(none + none =~= none);
        assert(none + read =~= read);
        has_text_concat(jump, change, none, none);
        has_text_concat(jump + change, text, none, read);
        let cell = runs::run_cell(old_row, new_row, y, x, done.1);
        assert(cell =~= jump + change + text);
        has_text_concat(done.0, cell, before, read);
        assert(run_news_of_row(old_row, new_row, n) =~= if run_rewritten(old_row, new_row, x) {
            before + read
        } else {
            before
        });
    }
}

proof fn screen_runs_have_text(shown: ScreenView, new: ScreenView, n: int)
    requires
        0 <= n <= new.rows_count,
        new.covers(),
        tame(new),
    ensures
        has_text(runs::screen_runs(shown, new, n).0, run_news_of_rows(shown, new, n)),
    decreases n,
{
    if n > 0 {
        screen_runs_have_text(shown, new, n - 1);
        let old_row = shown.rows[n - 1];
        let new_row = new.rows[n - 1];
        let cols = new.cols as int;
        assert(cols <= new_row.len());
        assert(tame_row(new.rows[n - 1]));
        let done = runs::screen_runs(shown, new, n - 1);
        row_runs_have_text(old_row, new_row, n - 1, cols, done.1);
        has_text_concat(
            done.0,
            runs::row_runs(old_row, new_row, n - 1, cols, done.1).0,
            run_news_of_rows(shown, new, n - 1),
            run_news_of_row(old_row, new_row, cols),
        );
    }
}

/// The text in a run update between screens of the same size is that of the cells that differ, in
/// order: all of it, and nothing else. A position that a wide cell just written covers is left out.
pub proof fn run_update_writes_changed_text(shown: ScreenView, new: ScreenView)
    requires
        shown.cols == new.cols,
        shown.rows_count == new.rows_count,
        new.covers(),
        tame(new),
    ensures
        text_in(Place::Text, runs::run_update(shown, new)) == (
            run_news_of_rows(shown, new, new.rows_count as int),
            Place::Text,
        ),
{
    let none = Seq::<char>::empty();
    let plain = snapshot::plain_style();
    let news = run_news_of_rows(shown, new, new.rows_count as int);
    let done = runs::screen_runs(shown, new, new.rows_count as int);
    screen_runs_have_text(shown, new, new.rows_count as int);
    changes_have_no_text(done.1, plain);
    cursor_updates_have_no_text(shown, new);
    assert(news + none =~= news);
    has_text_concat(done.0, display::style_change(done.1, plain), news, none);
    has_text_concat(
        done.0 + display::style_change(done.1, plain),
        display::cursor_update(shown, new),
        news,
        none,
    );
}

} // verus!
