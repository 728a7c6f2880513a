//! What writing a screen update to a screen does to it.

use crate::client::predicted;
use crate::prediction::overlay::OverlayCellView;
use crate::statesync::monitor;
use crate::statesync::monitor::Monitor;
use crate::statesync::vt;
use crate::statesync::vt::Canvas;
use crate::statesync::vt::Token;
use crate::terminal::display;
use crate::terminal::escape;
use crate::terminal::runs;
use crate::terminal::snapshot;
use crate::terminal::snapshot::CellStyle;
use crate::terminal::snapshot::CellView;
use crate::terminal::snapshot::ScreenView;
use crate::terminal::snapshot::StyleColor;
use crate::text;
use vstd::prelude::*;

verus! {

/// Feeding bytes never changes the shape of the grid, and keeps the cursor on it.
pub proof fn feed_keeps_grid(canvas: Canvas, data: Seq<u8>)
    requires
        canvas.rows_count >= 0,
        canvas.cols >= 0,
        canvas.x >= 0,
        canvas.y >= 0,
    ensures
        ({
            let after = canvas.feed(data);
            &&& after.cols == canvas.cols
            &&& after.rows_count == canvas.rows_count
            &&& after.rows.len() == canvas.rows.len()
            &&& forall|y: int|
                0 <= y < canvas.rows.len() ==> (#[trigger] after.rows[y]).len()
                    == canvas.rows[y].len()
            &&& 0 <= after.x
            &&& 0 <= after.y
            &&& canvas.x < canvas.cols ==> after.x < canvas.cols
            &&& canvas.y < canvas.rows_count ==> after.y < canvas.rows_count
        }),
    decreases data.len(),
{
    reveal(Canvas::feed);
    if data.len() > 0 {
        vt::scan_progress(data);
        let (token, len) = vt::scan(data);
        let next = canvas.act(token);
        feed_keeps_grid(next, data.skip(len));
    }
}

/// Writing to a screen keeps its dimensions, its shape, its colors and the cursor's visibility; a
/// cursor on the grid stays on the grid.
pub proof fn writing_keeps_shape(screen: ScreenView, data: Seq<u8>)
    ensures
        ({
            let after = vt::written_to(screen, data);
            &&& after == (ScreenView {
                rows: after.rows,
                cursor_x: after.cursor_x,
                cursor_y: after.cursor_y,
                ..screen
            })
            &&& screen.wf() ==> after.wf()
            &&& screen.cursor_x < screen.cols ==> after.cursor_x < screen.cols
            &&& screen.cursor_y < screen.rows_count ==> after.cursor_y < screen.rows_count
        }),
{
    feed_keeps_grid(vt::canvas_of(screen), data);
}

/// ASCII text as bytes.
pub open spec fn ascii(chars: Seq<char>) -> Seq<u8> {
    Seq::new(chars.len(), |i: int| chars[i] as u8)
}

proof fn ascii_concat(a: Seq<char>, b: Seq<char>)
    ensures
        ascii(a + b) == ascii(a) + ascii(b),
        vstd::utf8::is_ascii_chars(a + b) <==> vstd::utf8::is_ascii_chars(a)
            && vstd::utf8::is_ascii_chars(b),
{
    assert(ascii(a + b) =~= ascii(a) + ascii(b));
    vstd::utf8::is_ascii_chars_concat(a + b, a, b);
}

/// A control sequence at the front of the stream acts with the parameters of its body.
proof fn feed_control(monitor: Monitor, body: Seq<u8>, last: u8, rest: Seq<u8>)
    requires
        forall|i: int| 0 <= i < body.len() ==> vt::is_param_byte(#[trigger] body[i]),
        !vt::is_param_byte(last),
        last != 63,
    ensures
        monitor.feed(seq![0x1bu8, 91u8] + body + seq![last] + rest) == monitor.control(
            vt::params_of(body),
            last,
        ).feed(rest),
{
    reveal(Monitor::feed);
    let data = seq![0x1bu8, 91u8] + body + seq![last] + rest;
    let j = 2 + body.len() as int;
    assert(data.skip(2) =~= body + seq![last] + rest);
    vt::params_len_is(data.skip(2), body.len() as int);
    assert(data[j] == last);
    assert(data[2] == if body.len() > 0 {
        body[0]
    } else {
        last
    });
    assert(data.len() >= 6 ==> data.take(6)[2] == data[2]);
    assert(data.subrange(2, j) =~= body);
    assert(data.skip(j + 1) =~= rest);
}

/// A byte of text at the front of the stream is put at the cursor.
proof fn feed_text(monitor: Monitor, byte: u8, rest: Seq<u8>)
    requires
        byte != 0x1b,
        byte != 13,
        byte != 10,
        byte != 8,
    ensures
        monitor.feed(seq![byte] + rest) == monitor.act(Token::Text { byte }).feed(rest),
{
    reveal(Monitor::feed);
    let data = seq![byte] + rest;
    assert(data.len() >= 6 ==> data.take(6)[0] == byte);
    assert(data.skip(1) =~= rest);
}

/// The decimal notation of a number, as a parameter.
proof fn decimal_param(n: nat)
    ensures
        ascii(text::decimal(n)).len() > 0,
        forall|i: int|
            0 <= i < ascii(text::decimal(n)).len() ==> vt::is_digit(
                #[trigger] ascii(text::decimal(n))[i],
            ),
        vt::number(ascii(text::decimal(n))) == n,
        vstd::utf8::is_ascii_chars(text::decimal(n)),
    decreases n,
{
    if n < 10 {
        assert(ascii(text::decimal(n)).drop_last() =~= Seq::<u8>::empty());
        assert(vt::number(ascii(text::decimal(n)).drop_last()) == 0);
    } else {
        decimal_param(n / 10);
        assert(ascii(text::decimal(n)).drop_last() =~= ascii(text::decimal(n / 10)));
        assert forall|i: int| 0 <= i < ascii(text::decimal(n)).len() implies vt::is_digit(
            #[trigger] ascii(text::decimal(n))[i],
        ) by {
            if i < ascii(text::decimal(n)).len() - 1 {
                assert(ascii(text::decimal(n))[i] == ascii(text::decimal(n / 10))[i]);
            }
        }
    }
}

/// Reading joined parameters gives them back.
proof fn joined_params(params: Seq<nat>)
    requires
        forall|i: int| 0 <= i < params.len() ==> #[trigger] params[i] <= 65535,
    ensures
        vt::params_of(ascii(escape::join_params(params))) == params,
        forall|i: int|
            0 <= i < ascii(escape::join_params(params)).len() ==> vt::is_param_byte(
                #[trigger] ascii(escape::join_params(params))[i],
            ),
        vstd::utf8::is_ascii_chars(escape::join_params(params)),
        params.len() > 0 ==> escape::join_params(params).len() > 0,
    decreases params.len(),
{
    let body = ascii(escape::join_params(params));
    if params.len() == 0 {
        assert(vt::params_of(body) =~= params);
    } else {
        decimal_param(params[0]);
        let head = ascii(text::decimal(params[0]));
        assert(forall|i: int| 0 <= i < head.len() ==> vt::is_digit(#[trigger] head[i]));
        if params.len() == 1 {
            assert(body =~= head);
            vt::digits_len_is(body, body.len() as int);
            assert(vt::params_of(body) =~= params);
        } else {
            reveal_strlit(";");
            let tail = params.drop_first();
            joined_params(tail);
            let rest = ascii(escape::join_params(tail));
            assert(body =~= head + seq![59u8] + rest);
            vt::digits_len_is(body, head.len() as int);
            assert(body.take(head.len() as int) =~= head);
            assert(body.skip(head.len() as int + 1) =~= rest);
            assert(vt::params_of(body) =~= seq![params[0]] + tail);
            assert(seq![params[0]] + tail =~= params);
            assert forall|i: int| 0 <= i < body.len() implies vt::is_param_byte(
                #[trigger] body[i],
            ) by {
                if i < head.len() {
                    assert(body[i] == head[i]);
                } else if i > head.len() {
                    assert(body[i] == rest[i - head.len() - 1]);
                }
            }
            ascii_concat(text::decimal(params[0]) + ";"@, escape::join_params(tail));
            ascii_concat(text::decimal(params[0]), ";"@);
        }
    }
}

/// Positioning the cursor moves it there.
proof fn feed_cursor_to(monitor: Monitor, row: nat, col: nat, rest: Seq<u8>)
    requires
        1 <= row <= monitor.rows_count,
        1 <= col <= monitor.cols,
        monitor.rows_count <= 65535,
        monitor.cols <= 65535,
    ensures
        monitor.feed(ascii(escape::cursor_to(row, col)) + rest) == (Monitor {
            x: col - 1,
            y: row - 1,
            late: false,
            ..monitor
        }).feed(rest),
        vstd::utf8::is_ascii_chars(escape::cursor_to(row, col)),
{
    reveal_strlit("\x1b[");
    reveal_strlit(";");
    reveal_strlit("H");
    let params = seq![row, col];
    let body = ascii(escape::join_params(params));
    joined_params(params);
    assert(params.drop_first() =~= seq![col]);
    assert(escape::join_params(params.drop_first()) == text::decimal(col));
    assert(escape::join_params(params) =~= text::decimal(row) + ";"@ + text::decimal(col));
    assert(escape::cursor_to(row, col) =~= "\x1b["@ + escape::join_params(params) + "H"@);
    assert(ascii(escape::cursor_to(row, col)) + rest =~= seq![0x1bu8, 91u8] + body + seq![72u8]
        + rest);
    feed_control(monitor, body, 72, rest);
    ascii_concat("\x1b["@, escape::join_params(params));
    ascii_concat("\x1b["@ + escape::join_params(params), "H"@);
}

/// A reset makes the pen plain.
proof fn feed_reset(monitor: Monitor, rest: Seq<u8>)
    ensures
        monitor.feed(ascii(escape::reset_style()) + rest) == (Monitor {
            pen: snapshot::plain_style(),
            ..monitor
        }).feed(rest),
        vstd::utf8::is_ascii_chars(escape::reset_style()),
{
    reveal_strlit("\x1b[0m");
    reveal(monitor::render);
    let body = seq![48u8];
    assert(ascii(escape::reset_style()) + rest =~= seq![0x1bu8, 91u8] + body + seq![109u8] + rest);
    vt::digits_len_is(body, 1);
    assert(body.drop_last() =~= Seq::<u8>::empty());
    assert(vt::number(body.drop_last()) == 0);
    assert(vt::params_of(body) =~= seq![0nat]);
    feed_control(monitor, body, 109, rest);
    let faithful = monitor.faithful;
    let plain = snapshot::plain_style();
    assert(seq![0nat].drop_first() =~= Seq::<nat>::empty());
    assert(monitor::attribute(faithful, monitor.pen, 0) == plain);
    assert(monitor::render(faithful, plain, seq![0nat].drop_first()) == plain);
}

/// A flag parameter acts alone, if it is there.
proof fn render_flag(faithful: bool, pen: CellStyle, on: bool, p: nat, rest: Seq<nat>)
    requires
        p != 38,
        p != 48,
    ensures
        monitor::render(faithful, pen, escape::flag_param(on, p) + rest) == monitor::render(
            faithful,
            if on {
                monitor::attribute(faithful, pen, p)
            } else {
                pen
            },
            rest,
        ),
{
    reveal(escape::flag_param);
    reveal(monitor::render);
    if on {
        assert((seq![p] + rest).drop_first() =~= rest);
    } else {
        assert(escape::flag_param(on, p) + rest =~= rest);
    }
}

/// A color selection sets its color.
proof fn render_color(
    faithful: bool,
    pen: CellStyle,
    code: nat,
    color: StyleColor,
    rest: Seq<nat>,
)
    requires
        code == 38 || code == 48,
    ensures
        monitor::render(faithful, pen, escape::color_params(code, color) + rest)
            == monitor::render(
            faithful,
            if color == StyleColor::Default {
                pen
            } else if code == 38 {
                CellStyle { fg: color, ..pen }
            } else {
                CellStyle { bg: color, ..pen }
            },
            rest,
        ),
{
    reveal(escape::color_params);
    reveal(monitor::render);
    let params = escape::color_params(code, color) + rest;
    match color {
        StyleColor::Default => {
            assert(params =~= rest);
        },
        StyleColor::Palette(index) => {
            assert(params[0] == code && params[1] == 5 && params[2] == index);
            assert(params.skip(3) =~= rest);
        },
        StyleColor::Rgb(c) => {
            assert(params[0] == code && params[1] == 2 && params[2] == c.r && params[3] == c.g
                && params[4] == c.b);
            assert(params.skip(5) =~= rest);
        },
    }
}

proof fn concat_assoc(a: Seq<nat>, b: Seq<nat>, c: Seq<nat>)
    ensures
        a + b + c == a + (b + c),
{
    assert(a + b + c =~= a + (b + c));
}

/// Eleven sequences one after the other, grouped from the left or from the right.
proof fn concat_from_right(
    a0: Seq<nat>,
    a1: Seq<nat>,
    a2: Seq<nat>,
    a3: Seq<nat>,
    a4: Seq<nat>,
    a5: Seq<nat>,
    a6: Seq<nat>,
    a7: Seq<nat>,
    a8: Seq<nat>,
    a9: Seq<nat>,
    a10: Seq<nat>,
)
    ensures
        a0 + a1 + a2 + a3 + a4 + a5 + a6 + a7 + a8 + a9 + a10 == a0 + (a1 + (a2 + (a3 + (a4 + (a5
            + (a6 + (a7 + (a8 + (a9 + a10))))))))),
{
    concat_assoc(a0 + a1 + a2 + a3 + a4 + a5 + a6 + a7 + a8, a9, a10);
    concat_assoc(a0 + a1 + a2 + a3 + a4 + a5 + a6 + a7, a8, a9 + a10);
    concat_assoc(a0 + a1 + a2 + a3 + a4 + a5 + a6, a7, a8 + (a9 + a10));
    concat_assoc(a0 + a1 + a2 + a3 + a4 + a5, a6, a7 + (a8 + (a9 + a10)));
    concat_assoc(a0 + a1 + a2 + a3 + a4, a5, a6 + (a7 + (a8 + (a9 + a10))));
    concat_assoc(a0 + a1 + a2 + a3, a4, a5 + (a6 + (a7 + (a8 + (a9 + a10)))));
    concat_assoc(a0 + a1 + a2, a3, a4 + (a5 + (a6 + (a7 + (a8 + (a9 + a10))))));
    concat_assoc(a0 + a1, a2, a3 + (a4 + (a5 + (a6 + (a7 + (a8 + (a9 + a10)))))));
    concat_assoc(a0, a1, a2 + (a3 + (a4 + (a5 + (a6 + (a7 + (a8 + (a9 + a10))))))));
}

/// A style that has the attributes of another as far as they are switched on.
spec fn partly(style: CellStyle, n: int) -> CellStyle {
    let plain = snapshot::plain_style();
    CellStyle {
        bold: n >= 1 && style.bold,
        faint: n >= 2 && style.faint,
        italic: n >= 3 && style.italic,
        underline: n >= 4 && style.underline,
        blink: n >= 5 && style.blink,
        inverse: n >= 6 && style.inverse,
        invisible: n >= 7 && style.invisible,
        strikethrough: n >= 8 && style.strikethrough,
        overline: n >= 9 && style.overline,
        fg: if n >= 10 {
            style.fg
        } else {
            plain.fg
        },
        bg: plain.bg,
    }
}

/// Switching a style on brings a plain pen to that style, as far as the terminal shows it.
proof fn render_style(faithful: bool, style: CellStyle)
    ensures
        monitor::render(faithful, snapshot::plain_style(), escape::style_params(style))
            == monitor::ink(faithful, style),
{
    let s9 = escape::color_params(48, style.bg);
    let s8 = escape::color_params(38, style.fg) + s9;
    let s7 = escape::flag_param(style.overline, 53) + s8;
    let s6 = escape::flag_param(style.strikethrough, 9) + s7;
    let s5 = escape::flag_param(style.invisible, 8) + s6;
    let s4 = escape::flag_param(style.inverse, 7) + s5;
    let s3 = escape::flag_param(style.blink, 5) + s4;
    let s2 = escape::flag_param(style.underline, 4) + s3;
    let s1 = escape::flag_param(style.italic, 3) + s2;
    let s0 = escape::flag_param(style.faint, 2) + s1;
    let s = escape::flag_param(style.bold, 1) + s0;
    concat_from_right(
        escape::flag_param(style.bold, 1),
        escape::flag_param(style.faint, 2),
        escape::flag_param(style.italic, 3),
        escape::flag_param(style.underline, 4),
        escape::flag_param(style.blink, 5),
        escape::flag_param(style.inverse, 7),
        escape::flag_param(style.invisible, 8),
        escape::flag_param(style.strikethrough, 9),
        escape::flag_param(style.overline, 53),
        escape::color_params(38, style.fg),
        escape::color_params(48, style.bg),
    );
    assert(escape::style_params(style) == s);
    assert(monitor::ink(faithful, partly(style, 0)) == snapshot::plain_style());
    render_flag(faithful, monitor::ink(faithful, partly(style, 0)), style.bold, 1, s0);
    render_flag(faithful, monitor::ink(faithful, partly(style, 1)), style.faint, 2, s1);
    render_flag(faithful, monitor::ink(faithful, partly(style, 2)), style.italic, 3, s2);
    render_flag(faithful, monitor::ink(faithful, partly(style, 3)), style.underline, 4, s3);
    render_flag(faithful, monitor::ink(faithful, partly(style, 4)), style.blink, 5, s4);
    render_flag(faithful, monitor::ink(faithful, partly(style, 5)), style.inverse, 7, s5);
    render_flag(faithful, monitor::ink(faithful, partly(style, 6)), style.invisible, 8, s6);
    render_flag(faithful, monitor::ink(faithful, partly(style, 7)), style.strikethrough, 9, s7);
    render_flag(faithful, monitor::ink(faithful, partly(style, 8)), style.overline, 53, s8);
    render_color(faithful, monitor::ink(faithful, partly(style, 9)), 38, style.fg, s9);
    assert(s9 + Seq::<nat>::empty() =~= s9);
    render_color(faithful, monitor::ink(faithful, partly(style, 10)), 48, style.bg, Seq::empty());
    assert forall|p: CellStyle| #[trigger] monitor::render(faithful, p, Seq::empty()) == p by {
        reveal(monitor::render);
    }
}

/// Whether all parameters fit in a byte.
#[verifier::opaque]
spec fn small(params: Seq<nat>) -> bool {
    forall|i: int| 0 <= i < params.len() ==> #[trigger] params[i] <= 255
}

proof fn small_concat(a: Seq<nat>, b: Seq<nat>)
    requires
        small(a),
        small(b),
    ensures
        small(a + b),
{
    reveal(small);
}

/// Eleven sequences of small parameters one after the other.
proof fn small_concat_all(
    a0: Seq<nat>,
    a1: Seq<nat>,
    a2: Seq<nat>,
    a3: Seq<nat>,
    a4: Seq<nat>,
    a5: Seq<nat>,
    a6: Seq<nat>,
    a7: Seq<nat>,
    a8: Seq<nat>,
    a9: Seq<nat>,
    a10: Seq<nat>,
)
    requires
        small(a0),
        small(a1),
        small(a2),
        small(a3),
        small(a4),
        small(a5),
        small(a6),
        small(a7),
        small(a8),
        small(a9),
        small(a10),
    ensures
        small(a0 + a1 + a2 + a3 + a4 + a5 + a6 + a7 + a8 + a9 + a10),
{
    small_concat(a0, a1);
    small_concat(a0 + a1, a2);
    small_concat(a0 + a1 + a2, a3);
    small_concat(a0 + a1 + a2 + a3, a4);
    small_concat(a0 + a1 + a2 + a3 + a4, a5);
    small_concat(a0 + a1 + a2 + a3 + a4 + a5, a6);
    small_concat(a0 + a1 + a2 + a3 + a4 + a5 + a6, a7);
    small_concat(a0 + a1 + a2 + a3 + a4 + a5 + a6 + a7, a8);
    small_concat(a0 + a1 + a2 + a3 + a4 + a5 + a6 + a7 + a8, a9);
    small_concat(a0 + a1 + a2 + a3 + a4 + a5 + a6 + a7 + a8 + a9, a10);
}

proof fn small_flag(on: bool, p: nat)
    requires
        p <= 255,
    ensures
        small(escape::flag_param(on, p)),
{
    reveal(escape::flag_param);
    reveal(small);
}

proof fn small_color(code: nat, color: StyleColor)
    requires
        code <= 255,
    ensures
        small(escape::color_params(code, color)),
{
    reveal(escape::color_params);
    reveal(small);
}

/// All parameters of a style are small.
proof fn style_param_range(style: CellStyle)
    ensures
        small(escape::style_params(style)),
{
    small_flag(style.bold, 1);
    small_flag(style.faint, 2);
    small_flag(style.italic, 3);
    small_flag(style.underline, 4);
    small_flag(style.blink, 5);
    small_flag(style.inverse, 7);
    small_flag(style.invisible, 8);
    small_flag(style.strikethrough, 9);
    small_flag(style.overline, 53);
    small_color(38, style.fg);
    small_color(48, style.bg);
    small_concat_all(
        escape::flag_param(style.bold, 1),
        escape::flag_param(style.faint, 2),
        escape::flag_param(style.italic, 3),
        escape::flag_param(style.underline, 4),
        escape::flag_param(style.blink, 5),
        escape::flag_param(style.inverse, 7),
        escape::flag_param(style.invisible, 8),
        escape::flag_param(style.strikethrough, 9),
        escape::flag_param(style.overline, 53),
        escape::color_params(38, style.fg),
        escape::color_params(48, style.bg),
    );
}

/// Switching a style on brings a plain pen to that style.
proof fn feed_style(monitor: Monitor, style: CellStyle, rest: Seq<u8>)
    requires
        monitor.pen == snapshot::plain_style(),
    ensures
        monitor.feed(ascii(escape::style_sequence(style)) + rest) == (Monitor {
            pen: monitor::ink(monitor.faithful, style),
            ..monitor
        }).feed(rest),
        vstd::utf8::is_ascii_chars(escape::style_sequence(style)),
{
    let params = escape::style_params(style);
    style_param_range(style);
    render_style(monitor.faithful, style);
    if params.len() == 0 {
        assert(ascii(escape::style_sequence(style)) + rest =~= rest);
        assert(monitor::render(monitor.faithful, monitor.pen, params) == monitor.pen) by {
            reveal(monitor::render);
        }
    } else {
        reveal_strlit("\x1b[");
        reveal_strlit("m");
        assert forall|i: int| 0 <= i < params.len() implies #[trigger] params[i] <= 65535 by {
            reveal(small);
        }
        joined_params(params);
        let body = ascii(escape::join_params(params));
        assert(ascii(escape::style_sequence(style)) + rest =~= seq![0x1bu8, 91u8] + body
            + seq![109u8] + rest);
        feed_control(monitor, body, 109, rest);
        ascii_concat("\x1b["@, escape::join_params(params));
        ascii_concat("\x1b["@ + escape::join_params(params), "m"@);
    }
}

/// Feeding a change of style brings the pen from one to the other.
proof fn feed_style_change(monitor: Monitor, from: CellStyle, to: CellStyle, rest: Seq<u8>)
    requires
        monitor.pen == monitor::ink(monitor.faithful, from),
    ensures
        monitor.feed(ascii(display::style_change(from, to)) + rest) == (Monitor {
            pen: monitor::ink(monitor.faithful, to),
            ..monitor
        }).feed(rest),
        vstd::utf8::is_ascii_chars(display::style_change(from, to)),
{
    let plain = Monitor { pen: snapshot::plain_style(), ..monitor };
    let reset = escape::reset_style();
    let on = escape::style_sequence(to);
    if to == from {
        assert(ascii(display::style_change(from, to)) + rest =~= rest);
    } else if from == snapshot::plain_style() {
        feed_style(monitor, to, rest);
    } else {
        ascii_concat(reset, on);
        assert(ascii(reset + on) + rest =~= ascii(reset) + (ascii(on) + rest));
        feed_reset(monitor, ascii(on) + rest);
        feed_style(plain, to, rest);
    }
}

/// A character that is written as it is: ASCII, and none of the four that act on the screen.
pub open spec fn printable(c: char) -> bool {
    (c as int) < 128 && c as int != 0x1b && c as int != 13 && c as int != 10 && c as int != 8
}

/// A cell whose text is written as one byte: blank, or a single printable character.
pub open spec fn showable(cell: CellView) -> bool {
    cell.text.len() == 0 || cell.text.len() == 1 && printable(cell.text[0])
}

/// What a cell looks like on a terminal: a blank as a space, of single width, and in the part of its
/// style that the terminal shows.
pub open spec fn shown_on(faithful: bool, cell: CellView) -> CellView {
    CellView {
        text: if cell.text.len() == 0 {
            seq![' ']
        } else {
            cell.text
        },
        wide: false,
        style: monitor::ink(faithful, cell.style),
    }
}

/// What a cell looks like once it was written to the library's own terminal.
pub open spec fn shown_as(cell: CellView) -> CellView {
    shown_on(false, cell)
}

/// A terminal's row, where the cells among its first `n` that change from the old row to the new one
/// are as they are shown.
pub open spec fn patched_row(
    faithful: bool,
    was: Seq<CellView>,
    old_row: Seq<CellView>,
    new_row: Seq<CellView>,
    n: int,
) -> Seq<CellView> {
    Seq::new(
        was.len(),
        |x: int|
            if x < n && display::changed(old_row, new_row, x) {
                shown_on(faithful, new_row[x])
            } else {
                was[x]
            },
    )
}

/// A terminal's rows with every cell that changes as it is shown.
pub open spec fn patched(
    faithful: bool,
    was: Seq<Seq<CellView>>,
    shown: ScreenView,
    new: ScreenView,
) -> Seq<Seq<CellView>> {
    Seq::new(
        was.len(),
        |y: int| patched_row(faithful, was[y], shown.rows[y], new.rows[y], new.cols as int),
    )
}

proof fn printable_byte(c: char)
    requires
        printable(c),
    ensures
        c as u8 as char == c,
        c as u8 as int == c as int,
        vstd::utf8::is_ascii_chars(seq![c]),
{
}

/// Writing the text of a showable cell puts it at the cursor.
proof fn feed_cell(monitor: Monitor, cell: CellView, rest: Seq<u8>)
    requires
        showable(cell),
        0 <= monitor.y < monitor.rows.len(),
        0 <= monitor.x < monitor.cols,
        monitor.x < monitor.rows[monitor.y].len(),
        monitor.pen == monitor::ink(monitor.faithful, cell.style),
        !monitor.late,
    ensures
        monitor.feed(ascii(display::cell_text(cell)) + rest) == (Monitor {
            rows: monitor.rows.update(
                monitor.y,
                monitor.rows[monitor.y].update(monitor.x, shown_on(monitor.faithful, cell)),
            ),
            ..monitor
        }).stepped().feed(rest),
        vstd::utf8::is_ascii_chars(display::cell_text(cell)),
{
    reveal_strlit(" ");
    assert(" "@.len() == 1 && " "@[0] == ' ');
    let c = display::cell_text(cell)[0];
    printable_byte(c);
    let byte = c as u8;
    assert(ascii(display::cell_text(cell)) =~= seq![byte]);
    feed_text(monitor, byte, rest);
    assert(display::cell_text(cell) =~= seq![c]);
    assert(seq![byte as char] =~= shown_on(monitor.faithful, cell).text);
}

/// Whether position `x` of a row can be followed: if it changed, it is showable and not covered by a
/// wide cell.
pub open spec fn followable(old_row: Seq<CellView>, new_row: Seq<CellView>, x: int) -> bool {
    display::changed(old_row, new_row, x) ==> showable(new_row[x]) && display::visited(new_row, x)
}

/// Whether two terminals have the same dimensions, the same abilities and the same sight of the cursor.
spec fn same_make(a: Monitor, b: Monitor) -> bool {
    &&& a.cols == b.cols
    &&& a.rows_count == b.rows_count
    &&& a.faithful == b.faithful
    &&& a.visible == b.visible
}

/// Whether the terminal stands before position `x` of row `y`, ready for the update of that position.
/// `was` is what the row showed before.
spec fn ready_at(
    monitor: Monitor,
    was: Seq<CellView>,
    old_row: Seq<CellView>,
    new_row: Seq<CellView>,
    y: int,
    x: int,
) -> bool {
    &&& monitor.cols <= 65535
    &&& monitor.rows_count <= 65535
    &&& 0 <= y < monitor.rows_count
    &&& y < monitor.rows.len()
    &&& 0 <= x <= monitor.cols
    &&& monitor.cols <= was.len()
    &&& monitor.cols <= old_row.len()
    &&& monitor.cols <= new_row.len()
    &&& monitor.rows[y] == patched_row(monitor.faithful, was, old_row, new_row, x)
    &&& monitor.pen == monitor::ink(monitor.faithful, display::pen_before(new_row, x))
    &&& 0 < x < monitor.cols && display::visited(new_row, x - 1) && display::changed(
        old_row,
        new_row,
        x - 1,
    ) ==> monitor.x == x && monitor.y == y && !monitor.late
}

/// Feeding the part of a position update that sets the pen.
proof fn feed_turn(monitor: Monitor, style: CellStyle, y: int, x: int, rest: Seq<u8>)
    requires
        monitor.cols <= 65535,
        monitor.rows_count <= 65535,
        0 <= y < monitor.rows_count,
        0 <= x < monitor.cols,
    ensures
        ({
            let turn = escape::cursor_to((y + 1) as nat, (x + 1) as nat) + escape::reset_style()
                + escape::style_sequence(style);
            &&& monitor.feed(ascii(turn) + rest) == (Monitor {
                x,
                y,
                late: false,
                pen: monitor::ink(monitor.faithful, style),
                ..monitor
            }).feed(rest)
            &&& vstd::utf8::is_ascii_chars(turn)
        }),
{
    let here = escape::cursor_to((y + 1) as nat, (x + 1) as nat);
    let reset = escape::reset_style();
    let on = escape::style_sequence(style);
    let c1 = Monitor { x, y, late: false, ..monitor };
    let c2 = Monitor { pen: snapshot::plain_style(), ..c1 };
    feed_cursor_to(monitor, (y + 1) as nat, (x + 1) as nat, ascii(reset) + (ascii(on) + rest));
    feed_reset(c1, ascii(on) + rest);
    feed_style(c2, style, rest);
    ascii_concat(here, reset);
    ascii_concat(here + reset, on);
    assert(ascii(here + reset + on) + rest =~= ascii(here) + (ascii(reset) + (ascii(on) + rest)));
}

/// Feeding the update of a position patches the cell there.
#[verifier::spinoff_prover]
proof fn feed_position(
    monitor: Monitor,
    was: Seq<CellView>,
    old_row: Seq<CellView>,
    new_row: Seq<CellView>,
    y: int,
    x: int,
    rest: Seq<u8>,
) -> (after: Monitor)
    requires
        ready_at(monitor, was, old_row, new_row, y, x),
        x < monitor.cols,
        followable(old_row, new_row, x),
    ensures
        monitor.feed(ascii(display::position_update(old_row, new_row, y, x)) + rest) == after.feed(
            rest,
        ),
        ready_at(after, was, old_row, new_row, y, x + 1),
        after.rows == monitor.rows.update(
            y,
            patched_row(monitor.faithful, was, old_row, new_row, x + 1),
        ),
        same_make(after, monitor),
        vstd::utf8::is_ascii_chars(display::position_update(old_row, new_row, y, x)),
{
    let update = display::position_update(old_row, new_row, y, x);
    let style = new_row[x].style;
    let here = escape::cursor_to((y + 1) as nat, (x + 1) as nat);
    let is_changed = display::changed(old_row, new_row, x);
    let turned = display::pen_before(new_row, x) != style;
    let before = patched_row(monitor.faithful, was, old_row, new_row, x);
    let next = patched_row(monitor.faithful, was, old_row, new_row, x + 1);
    if !display::visited(new_row, x) {
        assert(ascii(update) + rest =~= rest);
        assert(next =~= before);
        assert(monitor.rows =~= monitor.rows.update(y, next));
        monitor
    } else {
        let turn = here + escape::reset_style() + escape::style_sequence(style);
        let text = display::cell_text(new_row[x]);
        let first = if turned {
            turn
        } else {
            Seq::empty()
        };
        let jump = if turned || (x > 0 && display::visited(new_row, x - 1) && display::changed(
            old_row,
            new_row,
            x - 1,
        )) {
            Seq::empty()
        } else {
            here
        };
        let second = if is_changed {
            jump + text
        } else {
            Seq::empty()
        };
        assert(update =~= first + second);
        ascii_concat(first, second);
        assert(ascii(update) + rest =~= ascii(first) + (ascii(second) + rest));
        let pen = monitor::ink(monitor.faithful, style);
        let c1 = if turned {
            Monitor { x, y, late: false, pen, ..monitor }
        } else {
            monitor
        };
        if turned {
            feed_turn(monitor, style, y, x, ascii(second) + rest);
        } else {
            assert(ascii(first) + (ascii(second) + rest) =~= ascii(second) + rest);
        }
        assert(c1.pen == pen);
        if is_changed {
            ascii_concat(jump, text);
            assert(ascii(second) + rest =~= ascii(jump) + (ascii(text) + rest));
            let c2 = Monitor { x, y, late: false, ..c1 };
            assert(here.len() > 0) by {
                reveal_strlit("H");
            }
            if jump.len() == 0 {
                assert(ascii(jump) + (ascii(text) + rest) =~= ascii(text) + rest);
                assert(c2 == c1);
            } else {
                feed_cursor_to(c1, (y + 1) as nat, (x + 1) as nat, ascii(text) + rest);
            }
            feed_cell(c2, new_row[x], rest);
            let cell = shown_on(monitor.faithful, new_row[x]);
            assert(before.update(x, cell) =~= next);
            (Monitor { rows: c2.rows.update(y, c2.rows[y].update(x, cell)), ..c2 }).stepped()
        } else {
            assert(ascii(second) + rest =~= rest);
            assert(next =~= before);
            assert(monitor.rows =~= monitor.rows.update(y, next));
            c1
        }
    }
}

/// Feeding the updates of the first `n` positions patches the cells there.
proof fn feed_positions(
    monitor: Monitor,
    was: Seq<CellView>,
    old_row: Seq<CellView>,
    new_row: Seq<CellView>,
    y: int,
    n: int,
    rest: Seq<u8>,
) -> (after: Monitor)
    requires
        ready_at(monitor, was, old_row, new_row, y, 0),
        0 <= n <= monitor.cols,
        forall|x: int| 0 <= x < n ==> #[trigger] followable(old_row, new_row, x),
    ensures
        monitor.feed(ascii(display::position_updates(old_row, new_row, y, n)) + rest) == after.feed(
            rest,
        ),
        ready_at(after, was, old_row, new_row, y, n),
        after.rows == monitor.rows.update(
            y,
            patched_row(monitor.faithful, was, old_row, new_row, n),
        ),
        same_make(after, monitor),
        vstd::utf8::is_ascii_chars(display::position_updates(old_row, new_row, y, n)),
    decreases n,
{
    let next = patched_row(monitor.faithful, was, old_row, new_row, n);
    if n <= 0 {
        assert(ascii(display::position_updates(old_row, new_row, y, n)) + rest =~= rest);
        assert(monitor.rows =~= monitor.rows.update(y, next));
        monitor
    } else {
        let done = display::position_updates(old_row, new_row, y, n - 1);
        let here = display::position_update(old_row, new_row, y, n - 1);
        assert(followable(old_row, new_row, n - 1));
        let mid = feed_positions(monitor, was, old_row, new_row, y, n - 1, ascii(here) + rest);
        let after = feed_position(mid, was, old_row, new_row, y, n - 1, rest);
        ascii_concat(done, here);
        assert(ascii(done + here) + rest =~= ascii(done) + (ascii(here) + rest));
        assert(after.rows =~= monitor.rows.update(y, next));
        after
    }
}

/// Whether the update from one screen to another can be followed: the screens have the same size
/// and a well-formed grid, and each position can be followed.
pub open spec fn update_followable(shown: ScreenView, new: ScreenView) -> bool {
    &&& display::same_size(shown, new)
    &&& shown.wf()
    &&& new.wf()
    &&& forall|y: int, x: int|
        0 <= y < new.rows_count && 0 <= x < new.cols ==> #[trigger] followable(
            shown.rows[y],
            new.rows[y],
            x,
        )
}

/// Whether a terminal has the grid of a screen.
pub open spec fn fits(monitor: Monitor, screen: ScreenView) -> bool {
    &&& monitor.cols == screen.cols
    &&& monitor.rows_count == screen.rows_count
    &&& monitor.rows.len() == screen.rows_count
    &&& forall|y: int|
        0 <= y < screen.rows_count ==> (#[trigger] monitor.rows[y]).len() == screen.cols
}

/// A terminal's rows, the first `n` of them patched.
spec fn patched_upto(
    faithful: bool,
    was: Seq<Seq<CellView>>,
    shown: ScreenView,
    new: ScreenView,
    n: int,
) -> Seq<Seq<CellView>> {
    Seq::new(
        was.len(),
        |y: int|
            if y < n {
                patched_row(faithful, was[y], shown.rows[y], new.rows[y], new.cols as int)
            } else {
                was[y]
            },
    )
}

/// Patching one row more.
proof fn patched_step(
    faithful: bool,
    was: Seq<Seq<CellView>>,
    shown: ScreenView,
    new: ScreenView,
    y: int,
)
    requires
        0 <= y < was.len(),
    ensures
        patched_upto(faithful, was, shown, new, y + 1) == patched_upto(
            faithful,
            was,
            shown,
            new,
            y,
        ).update(
            y,
            patched_row(faithful, was[y], shown.rows[y], new.rows[y], new.cols as int),
        ),
        patched_upto(faithful, was, shown, new, y)[y] == was[y],
{
    assert(patched_upto(faithful, was, shown, new, y + 1) =~= patched_upto(
        faithful,
        was,
        shown,
        new,
        y,
    ).update(y, patched_row(faithful, was[y], shown.rows[y], new.rows[y], new.cols as int)));
}

/// Feeding the update of a row patches it.
proof fn feed_row(
    monitor: Monitor,
    old_row: Seq<CellView>,
    new_row: Seq<CellView>,
    y: int,
    rest: Seq<u8>,
) -> (after: Monitor)
    requires
        0 <= monitor.cols <= 65535,
        monitor.rows_count <= 65535,
        0 <= y < monitor.rows_count,
        y < monitor.rows.len(),
        monitor.rows[y].len() == monitor.cols,
        old_row.len() == monitor.cols,
        new_row.len() == monitor.cols,
        forall|x: int| 0 <= x < monitor.cols ==> #[trigger] followable(old_row, new_row, x),
    ensures
        monitor.feed(ascii(display::row_update(old_row, new_row, y, monitor.cols)) + rest)
            == after.feed(rest),
        after.rows == monitor.rows.update(
            y,
            patched_row(monitor.faithful, monitor.rows[y], old_row, new_row, monitor.cols),
        ),
        same_make(after, monitor),
        vstd::utf8::is_ascii_chars(display::row_update(old_row, new_row, y, monitor.cols)),
{
    let cols = monitor.cols;
    let was = monitor.rows[y];
    let row = display::row_update(old_row, new_row, y, cols);
    if display::row_changed(old_row, new_row, cols) {
        let reset = escape::reset_style();
        let cells = display::position_updates(old_row, new_row, y, cols);
        ascii_concat(reset, cells);
        assert(ascii(row) + rest =~= ascii(reset) + (ascii(cells) + rest));
        feed_reset(monitor, ascii(cells) + rest);
        let c1 = Monitor { pen: snapshot::plain_style(), ..monitor };
        assert(patched_row(monitor.faithful, was, old_row, new_row, 0) =~= was);
        feed_positions(c1, was, old_row, new_row, y, cols, rest)
    } else {
        assert(ascii(row) + rest =~= rest);
        assert forall|x: int| 0 <= x < cols implies !#[trigger] display::changed(
            old_row,
            new_row,
            x,
        ) by {}
        assert(patched_row(monitor.faithful, was, old_row, new_row, cols) =~= was);
        assert(monitor.rows =~= monitor.rows.update(y, was));
        monitor
    }
}

/// Feeding the updates of the first `n` rows patches those rows.
proof fn feed_rows(
    monitor: Monitor,
    shown: ScreenView,
    new: ScreenView,
    n: int,
    rest: Seq<u8>,
) -> (after: Monitor)
    requires
        update_followable(shown, new),
        fits(monitor, new),
        0 <= n <= new.rows_count,
    ensures
        monitor.feed(ascii(display::row_updates(shown, new, n)) + rest) == after.feed(rest),
        after.rows == patched_upto(monitor.faithful, monitor.rows, shown, new, n),
        same_make(after, monitor),
        vstd::utf8::is_ascii_chars(display::row_updates(shown, new, n)),
    decreases n,
{
    if n <= 0 {
        assert(ascii(display::row_updates(shown, new, n)) + rest =~= rest);
        assert(monitor.rows =~= patched_upto(monitor.faithful, monitor.rows, shown, new, n));
        monitor
    } else {
        let y = n - 1;
        let cols = new.cols as int;
        let old_row = shown.rows[y];
        let new_row = new.rows[y];
        let done = display::row_updates(shown, new, y);
        let row = display::row_update(old_row, new_row, y, cols);
        let mid = feed_rows(monitor, shown, new, y, ascii(row) + rest);
        ascii_concat(done, row);
        assert(ascii(done + row) + rest =~= ascii(done) + (ascii(row) + rest));
        assert(new_row.len() == cols && old_row.len() == cols);
        assert(monitor.rows[y].len() == cols);
        assert forall|x: int| 0 <= x < cols implies #[trigger] followable(old_row, new_row, x) by {
            assert(followable(shown.rows[y], new.rows[y], x));
        }
        patched_step(monitor.faithful, monitor.rows, shown, new, y);
        feed_row(mid, old_row, new_row, y, rest)
    }
}

/// Showing or hiding the cursor changes whether it is seen, where the terminal obeys.
proof fn feed_sight(monitor: Monitor, on: bool, rest: Seq<u8>)
    ensures
        ({
            let sight = if on {
                escape::show_cursor()
            } else {
                escape::hide_cursor()
            };
            &&& monitor.feed(ascii(sight) + rest) == (Monitor {
                visible: if monitor.faithful {
                    on
                } else {
                    monitor.visible
                },
                ..monitor
            }).feed(rest)
            &&& vstd::utf8::is_ascii_chars(sight)
            &&& sight.len() > 0
        }),
{
    let sight = if on {
        escape::show_cursor()
    } else {
        escape::hide_cursor()
    };
    reveal_strlit("\x1b[?25h");
    reveal_strlit("\x1b[?25l");
    let data = ascii(sight) + rest;
    assert(data[0] == 0x1b && data[1] == 91 && data[2] == 63 && data[3] == 50 && data[4] == 53);
    assert(data.take(6) =~= monitor::sight_bytes(on));
    assert(monitor::sight_bytes(true)[5] != monitor::sight_bytes(false)[5]);
    vt::params_len_is(data.skip(2), 0);
    vt::digits_len_is(data.skip(3), 2);
    assert(data.skip(6) =~= rest);
    assert(vt::scan(data) == (Token::Skipped, 6int));
    reveal(Monitor::feed);
}

/// Feeding the cursor update places the cursor, and shows or hides it.
proof fn feed_cursor_update(monitor: Monitor, shown: ScreenView, new: ScreenView)
    requires
        monitor.cols == new.cols,
        monitor.rows_count == new.rows_count,
        new.cursor_x < new.cols,
        new.cursor_y < new.rows_count,
    ensures
        monitor.feed(ascii(display::cursor_update(shown, new))) == (Monitor {
            x: new.cursor_x as int,
            y: new.cursor_y as int,
            late: false,
            visible: if monitor.faithful && shown.cursor_visible != new.cursor_visible {
                new.cursor_visible
            } else {
                monitor.visible
            },
            ..monitor
        }),
        vstd::utf8::is_ascii_chars(display::cursor_update(shown, new)),
{
    let place = display::place_cursor(new);
    let sight = if shown.cursor_visible == new.cursor_visible {
        Seq::empty()
    } else if new.cursor_visible {
        escape::show_cursor()
    } else {
        escape::hide_cursor()
    };
    assert(display::cursor_update(shown, new) =~= place + sight);
    ascii_concat(place, sight);
    feed_cursor_to(monitor, (new.cursor_y + 1) as nat, (new.cursor_x + 1) as nat, ascii(sight));
    let placed = Monitor {
        x: new.cursor_x as int,
        y: new.cursor_y as int,
        late: false,
        ..monitor
    };
    if shown.cursor_visible != new.cursor_visible {
        feed_sight(placed, new.cursor_visible, Seq::empty());
        assert(ascii(sight) + Seq::<u8>::empty() =~= ascii(sight));
    }
    let done = Monitor {
        visible: if monitor.faithful && shown.cursor_visible != new.cursor_visible {
            new.cursor_visible
        } else {
            monitor.visible
        },
        ..placed
    };
    reveal(Monitor::feed);
    assert(done.feed(Seq::empty()) == done);
    assert(placed.feed(ascii(sight)) == done);
}

/// Feeding a screen update patches every cell that changes and places the cursor.
proof fn feed_update(monitor: Monitor, shown: ScreenView, new: ScreenView) -> (after: Monitor)
    requires
        update_followable(shown, new),
        fits(monitor, new),
        new.cursor_x < new.cols,
        new.cursor_y < new.rows_count,
    ensures
        monitor.feed(vstd::utf8::encode_utf8(display::screen_update(shown, new))) == after,
        after == (Monitor {
            rows: patched(monitor.faithful, monitor.rows, shown, new),
            x: new.cursor_x as int,
            y: new.cursor_y as int,
            late: false,
            pen: after.pen,
            visible: if monitor.faithful && shown.cursor_visible != new.cursor_visible {
                new.cursor_visible
            } else {
                monitor.visible
            },
            ..monitor
        }),
{
    let rows = display::row_updates(shown, new, new.rows_count as int);
    let tail = display::cursor_update(shown, new);
    let update = display::screen_update(shown, new);
    let mid = feed_rows(monitor, shown, new, new.rows_count as int, ascii(tail));
    feed_cursor_update(mid, shown, new);
    ascii_concat(rows, tail);
    vstd::utf8::is_ascii_chars_encode_utf8(update);
    assert(vstd::utf8::encode_utf8(update) =~= ascii(rows) + ascii(tail));
    assert(patched_upto(monitor.faithful, monitor.rows, shown, new, new.rows_count as int)
        =~= patched(monitor.faithful, monitor.rows, shown, new));
    mid.feed(ascii(tail))
}

/// A screen on the library's own terminal.
proof fn own_screen(screen: ScreenView, data: Seq<u8>)
    requires
        screen.wf(),
    ensures
        ({
            let start = monitor::own(vt::canvas_of(screen), screen.cursor_visible);
            let after = start.feed(data);
            &&& fits(start, screen)
            &&& start.pen == snapshot::plain_style()
            &&& vt::written_to(screen, data) == (ScreenView {
                rows: after.rows,
                cursor_x: after.x as u16,
                cursor_y: after.y as u16,
                ..screen
            })
        }),
{
    monitor::own_feeds(vt::canvas_of(screen), screen.cursor_visible, data);
}

/// Writing a screen update to the screen it starts from makes each changed cell look as the new
/// screen has it, leaves the other cells alone and places the cursor.
pub proof fn update_replays(shown: ScreenView, new: ScreenView)
    requires
        update_followable(shown, new),
        new.cursor_x < new.cols,
        new.cursor_y < new.rows_count,
    ensures
        vt::written_to(shown, vstd::utf8::encode_utf8(display::screen_update(shown, new))) == (
        ScreenView {
            rows: patched(false, shown.rows, shown, new),
            cursor_x: new.cursor_x,
            cursor_y: new.cursor_y,
            ..shown
        }),
{
    own_screen(shown, vstd::utf8::encode_utf8(display::screen_update(shown, new)));
    feed_update(monitor::own(vt::canvas_of(shown), shown.cursor_visible), shown, new);
}

/// Where every changed cell of the new screen looks as it is shown, writing the update to the screen
/// it starts from gives the cells and the cursor of the new screen.
pub proof fn update_reproduces(shown: ScreenView, new: ScreenView)
    requires
        update_followable(shown, new),
        new.cursor_x < new.cols,
        new.cursor_y < new.rows_count,
        forall|y: int, x: int|
            0 <= y < new.rows_count && 0 <= x < new.cols && #[trigger] display::changed(
                shown.rows[y],
                new.rows[y],
                x,
            ) ==> shown_as(new.rows[y][x]) == new.rows[y][x],
    ensures
        vt::written_to(shown, vstd::utf8::encode_utf8(display::screen_update(shown, new))) == (
        ScreenView {
            rows: new.rows,
            cursor_x: new.cursor_x,
            cursor_y: new.cursor_y,
            ..shown
        }),
{
    update_replays(shown, new);
    patched_is_new(shown, new);
}

proof fn patched_is_new(shown: ScreenView, new: ScreenView)
    requires
        display::same_size(shown, new),
        shown.wf(),
        new.wf(),
        forall|y: int, x: int|
            0 <= y < new.rows_count && 0 <= x < new.cols && #[trigger] display::changed(
                shown.rows[y],
                new.rows[y],
                x,
            ) ==> shown_as(new.rows[y][x]) == new.rows[y][x],
    ensures
        patched(false, shown.rows, shown, new) == new.rows,
{
    let after = patched(false, shown.rows, shown, new);
    assert forall|y: int| 0 <= y < new.rows.len() implies #[trigger] after[y] == new.rows[y] by {
        let row = patched_row(
            false,
            shown.rows[y],
            shown.rows[y],
            new.rows[y],
            new.cols as int,
        );
        assert(shown.rows[y].len() == new.cols && new.rows[y].len() == new.cols);
        assert forall|x: int| 0 <= x < row.len() implies row[x] == new.rows[y][x] by {
            if display::changed(shown.rows[y], new.rows[y], x) {
                assert(shown_as(new.rows[y][x]) == new.rows[y][x]);
            }
        }
        assert(row =~= new.rows[y]);
    }
    assert(after =~= new.rows);
}

/// Between two screens with the same cells and the same cursor visibility, only the cursor is
/// placed.
pub proof fn update_of_same_cells(shown: ScreenView, new: ScreenView)
    requires
        display::same_size(shown, new),
        shown.rows == new.rows,
        shown.covers(),
        shown.cursor_visible == new.cursor_visible,
    ensures
        display::screen_update(shown, new) == display::place_cursor(new),
        runs::run_update(shown, new) == display::place_cursor(new),
{
    same_cells(shown, new, new.rows_count as int);
    assert(display::screen_update(shown, new) =~= display::place_cursor(new));
    assert(runs::run_update(shown, new) =~= display::place_cursor(new));
}

proof fn same_cells(shown: ScreenView, new: ScreenView, n: int)
    requires
        shown.rows == new.rows,
        shown.covers(),
        display::same_size(shown, new),
        0 <= n <= new.rows_count,
    ensures
        display::row_updates(shown, new, n) == Seq::<char>::empty(),
        runs::screen_runs(shown, new, n) == (Seq::<char>::empty(), snapshot::plain_style()),
    decreases n,
{
    if n > 0 {
        same_cells(shown, new, n - 1);
        let row = new.rows[n - 1];
        assert(shown.rows[n - 1].len() >= shown.cols);
        assert(forall|x: int| 0 <= x < new.cols ==> !#[trigger] display::changed(row, row, x));
        same_row_runs(row, n - 1, new.cols as int, snapshot::plain_style());
        assert(display::row_updates(shown, new, n) =~= Seq::<char>::empty());
        assert(runs::screen_runs(shown, new, n).0 =~= Seq::<char>::empty());
    }
}

proof fn same_row_runs(row: Seq<CellView>, y: int, n: int, last: CellStyle)
    requires
        0 <= n <= row.len(),
    ensures
        runs::row_runs(row, row, y, n, last) == (Seq::<char>::empty(), last),
    decreases n,
{
    if n > 0 {
        same_row_runs(row, y, n - 1, last);
    }
}

/// Whether position `x` of a row can be followed run by run: a changed cell is showable, is not
/// covered by a wide cell, and does not come right after a position that is.
pub open spec fn run_followable(old_row: Seq<CellView>, new_row: Seq<CellView>, x: int) -> bool {
    display::changed(old_row, new_row, x) ==> {
        &&& showable(new_row[x])
        &&& runs::visited(old_row, new_row, x)
        &&& x > 0 ==> runs::visited(old_row, new_row, x - 1)
    }
}

/// Whether the run update from one screen to another can be followed: the screens have the same
/// size and a well-formed grid, and each position can be followed.
pub open spec fn runs_followable(shown: ScreenView, new: ScreenView) -> bool {
    &&& display::same_size(shown, new)
    &&& shown.wf()
    &&& new.wf()
    &&& forall|y: int, x: int|
        0 <= y < new.rows_count && 0 <= x < new.cols ==> #[trigger] run_followable(
            shown.rows[y],
            new.rows[y],
            x,
        )
}

/// Whether the terminal stands before position `x` of row `y`, ready for the run cell there. `was` is
/// what the row showed before.
spec fn run_ready_at(
    monitor: Monitor,
    was: Seq<CellView>,
    old_row: Seq<CellView>,
    new_row: Seq<CellView>,
    y: int,
    x: int,
    last: CellStyle,
) -> bool {
    &&& monitor.cols <= 65535
    &&& monitor.rows_count <= 65535
    &&& 0 <= y < monitor.rows_count
    &&& y < monitor.rows.len()
    &&& 0 <= x <= monitor.cols
    &&& monitor.cols <= was.len()
    &&& monitor.cols <= old_row.len()
    &&& monitor.cols <= new_row.len()
    &&& monitor.rows[y] == patched_row(monitor.faithful, was, old_row, new_row, x)
    &&& monitor.pen == monitor::ink(monitor.faithful, last)
    &&& 0 < x < monitor.cols && runs::written(old_row, new_row, x - 1) ==> monitor.x == x
        && monitor.y == y && !monitor.late
}

/// Feeding the style change of a run cell brings the pen to its style.
proof fn feed_run_style(
    monitor: Monitor,
    was: CellStyle,
    style: CellStyle,
    last: CellStyle,
    rest: Seq<u8>,
)
    requires
        monitor.pen == monitor::ink(monitor.faithful, last),
    ensures
        monitor.feed(ascii(runs::run_style(was, style, last)) + rest) == (Monitor {
            pen: monitor::ink(monitor.faithful, style),
            ..monitor
        }).feed(rest),
        vstd::utf8::is_ascii_chars(runs::run_style(was, style, last)),
{
    if style == snapshot::plain_style() && was != snapshot::plain_style() {
        feed_reset(monitor, rest);
    } else {
        feed_style_change(monitor, last, style, rest);
    }
}

/// Feeding a run cell patches the cell there.
#[verifier::spinoff_prover]
proof fn feed_run_cell(
    monitor: Monitor,
    was: Seq<CellView>,
    old_row: Seq<CellView>,
    new_row: Seq<CellView>,
    y: int,
    x: int,
    last: CellStyle,
    rest: Seq<u8>,
) -> (after: Monitor)
    requires
        run_ready_at(monitor, was, old_row, new_row, y, x, last),
        x < monitor.cols,
        display::changed(old_row, new_row, x),
        run_followable(old_row, new_row, x),
    ensures
        monitor.feed(ascii(runs::run_cell(old_row, new_row, y, x, last)) + rest) == after.feed(
            rest,
        ),
        run_ready_at(after, was, old_row, new_row, y, x + 1, new_row[x].style),
        after.rows == monitor.rows.update(
            y,
            patched_row(monitor.faithful, was, old_row, new_row, x + 1),
        ),
        same_make(after, monitor),
        vstd::utf8::is_ascii_chars(runs::run_cell(old_row, new_row, y, x, last)),
{
    let here = escape::cursor_to((y + 1) as nat, (x + 1) as nat);
    let jump = if runs::starts_run(old_row, new_row, x) {
        here
    } else {
        Seq::empty()
    };
    let style = new_row[x].style;
    let change = runs::run_style(old_row[x].style, style, last);
    let text = display::cell_text(new_row[x]);
    assert(runs::run_cell(old_row, new_row, y, x, last) =~= jump + change + text);
    ascii_concat(jump, change);
    ascii_concat(jump + change, text);
    assert(ascii(jump + change + text) + rest =~= ascii(jump) + (ascii(change) + (ascii(text)
        + rest)));
    let c1 = Monitor { x, y, late: false, ..monitor };
    if runs::starts_run(old_row, new_row, x) {
        feed_cursor_to(
            monitor,
            (y + 1) as nat,
            (x + 1) as nat,
            ascii(change) + (ascii(text) + rest),
        );
    } else {
        assert(ascii(jump) + (ascii(change) + (ascii(text) + rest)) =~= ascii(change) + (ascii(text)
            + rest));
        assert(c1 == monitor);
    }
    feed_run_style(c1, old_row[x].style, style, last, ascii(text) + rest);
    let c2 = Monitor { pen: monitor::ink(monitor.faithful, style), ..c1 };
    feed_cell(c2, new_row[x], rest);
    let cell = shown_on(monitor.faithful, new_row[x]);
    assert(patched_row(monitor.faithful, was, old_row, new_row, x).update(x, cell) =~= patched_row(
        monitor.faithful,
        was,
        old_row,
        new_row,
        x + 1,
    ));
    (Monitor { rows: c2.rows.update(y, c2.rows[y].update(x, cell)), ..c2 }).stepped()
}

/// Feeding the runs among the first `n` positions patches the cells there.
#[verifier::spinoff_prover]
#[verifier::rlimit(50)]
proof fn feed_row_runs(
    monitor: Monitor,
    was: Seq<CellView>,
    old_row: Seq<CellView>,
    new_row: Seq<CellView>,
    y: int,
    n: int,
    last: CellStyle,
    rest: Seq<u8>,
) -> (after: Monitor)
    requires
        run_ready_at(monitor, was, old_row, new_row, y, 0, last),
        0 <= n <= monitor.cols,
        forall|x: int| 0 <= x < n ==> #[trigger] run_followable(old_row, new_row, x),
    ensures
        monitor.feed(ascii(runs::row_runs(old_row, new_row, y, n, last).0) + rest) == after.feed(
            rest,
        ),
        run_ready_at(
            after,
            was,
            old_row,
            new_row,
            y,
            n,
            runs::row_runs(old_row, new_row, y, n, last).1,
        ),
        after.rows == monitor.rows.update(
            y,
            patched_row(monitor.faithful, was, old_row, new_row, n),
        ),
        same_make(after, monitor),
        vstd::utf8::is_ascii_chars(runs::row_runs(old_row, new_row, y, n, last).0),
    decreases n,
{
    let next = patched_row(monitor.faithful, was, old_row, new_row, n);
    if n <= 0 {
        assert(ascii(runs::row_runs(old_row, new_row, y, n, last).0) + rest =~= rest);
        assert(monitor.rows =~= monitor.rows.update(y, next));
        monitor
    } else {
        let x = n - 1;
        let done = runs::row_runs(old_row, new_row, y, x, last);
        assert(run_followable(old_row, new_row, x));
        if display::changed(old_row, new_row, x) {
            let cell = runs::run_cell(old_row, new_row, y, x, done.1);
            let mid = feed_row_runs(
                monitor,
                was,
                old_row,
                new_row,
                y,
                x,
                last,
                ascii(cell) + rest,
            );
            let after = feed_run_cell(mid, was, old_row, new_row, y, x, done.1, rest);
            ascii_concat(done.0, cell);
            assert(ascii(done.0 + cell) + rest =~= ascii(done.0) + (ascii(cell) + rest));
            assert(after.rows =~= monitor.rows.update(y, next));
            after
        } else {
            let mid = feed_row_runs(monitor, was, old_row, new_row, y, x, last, rest);
            assert(next =~= patched_row(monitor.faithful, was, old_row, new_row, x));
            mid
        }
    }
}

/// Feeding the runs of the first `n` rows patches those rows.
#[verifier::spinoff_prover]
proof fn feed_screen_runs(
    monitor: Monitor,
    shown: ScreenView,
    new: ScreenView,
    n: int,
    rest: Seq<u8>,
) -> (after: Monitor)
    requires
        runs_followable(shown, new),
        fits(monitor, new),
        monitor.pen == snapshot::plain_style(),
        0 <= n <= new.rows_count,
    ensures
        monitor.feed(ascii(runs::screen_runs(shown, new, n).0) + rest) == after.feed(rest),
        after.rows == patched_upto(monitor.faithful, monitor.rows, shown, new, n),
        same_make(after, monitor),
        after.pen == monitor::ink(monitor.faithful, runs::screen_runs(shown, new, n).1),
        vstd::utf8::is_ascii_chars(runs::screen_runs(shown, new, n).0),
    decreases n,
{
    if n <= 0 {
        assert(ascii(runs::screen_runs(shown, new, n).0) + rest =~= rest);
        assert(monitor.rows =~= patched_upto(monitor.faithful, monitor.rows, shown, new, n));
        monitor
    } else {
        let y = n - 1;
        let cols = new.cols as int;
        let was = monitor.rows[y];
        let old_row = shown.rows[y];
        let new_row = new.rows[y];
        let done = runs::screen_runs(shown, new, y);
        let row = runs::row_runs(old_row, new_row, y, cols, done.1);
        let mid = feed_screen_runs(monitor, shown, new, y, ascii(row.0) + rest);
        ascii_concat(done.0, row.0);
        assert(ascii(done.0 + row.0) + rest =~= ascii(done.0) + (ascii(row.0) + rest));
        assert(new_row.len() == cols && old_row.len() == cols && was.len() == cols);
        assert(patched_row(monitor.faithful, was, old_row, new_row, 0) =~= was);
        assert forall|x: int| 0 <= x < cols implies #[trigger] run_followable(
            old_row,
            new_row,
            x,
        ) by {
            assert(run_followable(shown.rows[y], new.rows[y], x));
        }
        patched_step(monitor.faithful, monitor.rows, shown, new, y);
        feed_row_runs(mid, was, old_row, new_row, y, cols, done.1, rest)
    }
}

/// Feeding a run update patches every cell that changes, places the cursor and leaves the pen plain.
proof fn feed_run_update(monitor: Monitor, shown: ScreenView, new: ScreenView)
    requires
        runs_followable(shown, new),
        fits(monitor, new),
        monitor.pen == snapshot::plain_style(),
        new.cursor_x < new.cols,
        new.cursor_y < new.rows_count,
    ensures
        monitor.feed(vstd::utf8::encode_utf8(runs::run_update(shown, new))) == (Monitor {
            rows: patched(monitor.faithful, monitor.rows, shown, new),
            x: new.cursor_x as int,
            y: new.cursor_y as int,
            late: false,
            visible: if monitor.faithful && shown.cursor_visible != new.cursor_visible {
                new.cursor_visible
            } else {
                monitor.visible
            },
            ..monitor
        }),
{
    let done = runs::screen_runs(shown, new, new.rows_count as int);
    let plain = display::style_change(done.1, snapshot::plain_style());
    let tail = display::cursor_update(shown, new);
    let update = runs::run_update(shown, new);
    let mid = feed_screen_runs(
        monitor,
        shown,
        new,
        new.rows_count as int,
        ascii(plain) + ascii(tail),
    );
    feed_style_change(mid, done.1, snapshot::plain_style(), ascii(tail));
    let c1 = Monitor { pen: snapshot::plain_style(), ..mid };
    feed_cursor_update(c1, shown, new);
    ascii_concat(done.0, plain);
    ascii_concat(done.0 + plain, tail);
    vstd::utf8::is_ascii_chars_encode_utf8(update);
    assert(vstd::utf8::encode_utf8(update) =~= ascii(done.0) + (ascii(plain) + ascii(tail)));
    assert(patched_upto(monitor.faithful, monitor.rows, shown, new, new.rows_count as int)
        =~= patched(monitor.faithful, monitor.rows, shown, new));
}

/// Writing a run update to the screen it starts from makes each changed cell look as the new screen
/// has it, leaves the other cells alone and places the cursor.
pub proof fn runs_replay(shown: ScreenView, new: ScreenView)
    requires
        runs_followable(shown, new),
        new.cursor_x < new.cols,
        new.cursor_y < new.rows_count,
    ensures
        vt::written_to(shown, vstd::utf8::encode_utf8(runs::run_update(shown, new))) == (
        ScreenView {
            rows: patched(false, shown.rows, shown, new),
            cursor_x: new.cursor_x,
            cursor_y: new.cursor_y,
            ..shown
        }),
{
    own_screen(shown, vstd::utf8::encode_utf8(runs::run_update(shown, new)));
    feed_run_update(monitor::own(vt::canvas_of(shown), shown.cursor_visible), shown, new);
}

/// Where every changed cell of the new screen looks as it is shown, writing the run update to the
/// screen it starts from gives the cells and the cursor of the new screen.
pub proof fn runs_reproduce(shown: ScreenView, new: ScreenView)
    requires
        runs_followable(shown, new),
        new.cursor_x < new.cols,
        new.cursor_y < new.rows_count,
        forall|y: int, x: int|
            0 <= y < new.rows_count && 0 <= x < new.cols && #[trigger] display::changed(
                shown.rows[y],
                new.rows[y],
                x,
            ) ==> shown_as(new.rows[y][x]) == new.rows[y][x],
    ensures
        vt::written_to(shown, vstd::utf8::encode_utf8(runs::run_update(shown, new))) == (
        ScreenView {
            rows: new.rows,
            cursor_x: new.cursor_x,
            cursor_y: new.cursor_y,
            ..shown
        }),
{
    runs_replay(shown, new);
    patched_is_new(shown, new);
}

/// A row as it is shown.
pub open spec fn shown_row(faithful: bool, row: Seq<CellView>) -> Seq<CellView> {
    Seq::new(row.len(), |x: int| shown_on(faithful, row[x]))
}

/// All rows as they are shown.
pub open spec fn shown_rows(faithful: bool, rows: Seq<Seq<CellView>>) -> Seq<Seq<CellView>> {
    Seq::new(rows.len(), |y: int| shown_row(faithful, rows[y]))
}

/// Whether every cell of a screen can be shown in a column of its own.
pub open spec fn all_showable(screen: ScreenView) -> bool {
    forall|y: int, x: int|
        0 <= y < screen.rows_count && 0 <= x < screen.cols ==> showable(
            #[trigger] screen.rows[y][x],
        ) && !screen.rows[y][x].wide
}

/// Whether a faithful terminal shows a screen: every cell with its text and its whole style, a blank
/// as a space; the cursor in its place, and seen where the screen has it seen.
pub open spec fn displays(monitor: Monitor, screen: ScreenView) -> bool {
    &&& monitor.faithful
    &&& fits(monitor, screen)
    &&& monitor.rows == shown_rows(true, screen.rows)
    &&& monitor.x == screen.cursor_x
    &&& monitor.y == screen.cursor_y
    &&& !monitor.late
    &&& monitor.visible == screen.cursor_visible
}

/// Where all cells can be shown, the cells that change are all there is to patch.
proof fn patched_is_shown(shown: ScreenView, new: ScreenView)
    requires
        display::same_size(shown, new),
        shown.wf(),
        new.wf(),
        all_showable(shown),
        all_showable(new),
    ensures
        update_followable(shown, new),
        runs_followable(shown, new),
        patched(true, shown_rows(true, shown.rows), shown, new) == shown_rows(true, new.rows),
{
    assert forall|y: int, x: int| 0 <= y < new.rows_count && 0 <= x < new.cols implies followable(
        shown.rows[y],
        new.rows[y],
        x,
    ) && run_followable(shown.rows[y], new.rows[y], x) by {
        let old_row = shown.rows[y];
        let new_row = new.rows[y];
        assert(old_row.len() == new.cols && new_row.len() == new.cols);
        assert(showable(new.rows[y][x]));
        assert forall|i: int| 0 <= i < new.cols implies !(#[trigger] new_row[i]).wide
            && !old_row[i].wide by {
            assert(showable(new.rows[y][i]));
            assert(showable(shown.rows[y][i]));
        }
        all_visited(old_row, new_row, x);
        if x > 0 {
            all_visited(old_row, new_row, x - 1);
        }
    }
    assert forall|y: int, x: int| 0 <= y < new.rows_count && 0 <= x < new.cols implies
        #[trigger] followable(shown.rows[y], new.rows[y], x) by {}
    assert forall|y: int, x: int| 0 <= y < new.rows_count && 0 <= x < new.cols implies
        #[trigger] run_followable(shown.rows[y], new.rows[y], x) by {}
    let after = patched(true, shown_rows(true, shown.rows), shown, new);
    assert forall|y: int| 0 <= y < new.rows.len() implies #[trigger] after[y] == shown_row(
        true,
        new.rows[y],
    ) by {
        assert(shown.rows[y].len() == new.cols && new.rows[y].len() == new.cols);
        assert(after[y] =~= shown_row(true, new.rows[y]));
    }
    assert(after =~= shown_rows(true, new.rows));
}

/// Without wide cells every position is looked at.
proof fn all_visited(old_row: Seq<CellView>, new_row: Seq<CellView>, x: int)
    requires
        0 <= x < new_row.len(),
        new_row.len() == old_row.len(),
        forall|i: int| 0 <= i < new_row.len() ==> !(#[trigger] new_row[i]).wide,
    ensures
        display::visited(new_row, x),
        runs::visited(old_row, new_row, x),
    decreases x,
{
    if x > 0 {
        all_visited(old_row, new_row, x - 1);
    }
}

/// A terminal that shows a screen, once fed the update to another one of the same size, shows that
/// one.
pub proof fn update_shows(monitor: Monitor, shown: ScreenView, new: ScreenView)
    requires
        displays(monitor, shown),
        display::same_size(shown, new),
        shown.wf(),
        new.wf(),
        all_showable(shown),
        all_showable(new),
        new.cursor_x < new.cols,
        new.cursor_y < new.rows_count,
    ensures
        displays(
            monitor.feed(vstd::utf8::encode_utf8(display::screen_update(shown, new))),
            new,
        ),
{
    patched_is_shown(shown, new);
    feed_update(monitor, shown, new);
    assert(forall|y: int|
        0 <= y < new.rows_count ==> (#[trigger] shown_rows(true, new.rows)[y]).len()
            == new.rows[y].len());
}

/// A terminal that shows a screen and writes in the default style, once fed the run update to another
/// screen of the same size, shows that one and again writes in the default style.
pub proof fn runs_show(monitor: Monitor, shown: ScreenView, new: ScreenView)
    requires
        displays(monitor, shown),
        monitor.pen == snapshot::plain_style(),
        display::same_size(shown, new),
        shown.wf(),
        new.wf(),
        all_showable(shown),
        all_showable(new),
        new.cursor_x < new.cols,
        new.cursor_y < new.rows_count,
    ensures
        ({
            let after = monitor.feed(vstd::utf8::encode_utf8(runs::run_update(shown, new)));
            displays(after, new) && after.pen == snapshot::plain_style()
        }),
{
    patched_is_shown(shown, new);
    feed_run_update(monitor, shown, new);
    assert(forall|y: int|
        0 <= y < new.rows_count ==> (#[trigger] shown_rows(true, new.rows)[y]).len()
            == new.rows[y].len());
}

/// For a row that is the same on both screens nothing is sent.
pub proof fn equal_rows_send_nothing(
    shown: ScreenView,
    new: ScreenView,
    y: int,
    last: CellStyle,
)
    requires
        display::same_size(shown, new),
        shown.covers(),
        0 <= y < new.rows_count,
        shown.rows[y] == new.rows[y],
    ensures
        display::row_update(shown.rows[y], new.rows[y], y, new.cols as int) == Seq::<char>::empty(),
        runs::row_runs(shown.rows[y], new.rows[y], y, new.cols as int, last) == (
            Seq::<char>::empty(),
            last,
        ),
{
    let row = new.rows[y];
    assert(shown.rows[y].len() >= shown.cols);
    assert(forall|x: int| 0 <= x < new.cols ==> !#[trigger] display::changed(row, row, x));
    same_row_runs(row, y, new.cols as int, last);
}

/// Clearing the display blanks every row.
proof fn feed_clear(monitor: Monitor, rest: Seq<u8>)
    requires
        monitor.faithful,
    ensures
        monitor.feed(ascii("\x1b[2J"@) + rest) == (Monitor {
            rows: Seq::new(monitor.rows.len(), |y: int| vt::blank_from(monitor.rows[y], 0)),
            ..monitor
        }).feed(rest),
        vstd::utf8::is_ascii_chars("\x1b[2J"@),
{
    reveal_strlit("\x1b[2J");
    let body = seq![50u8];
    assert(ascii("\x1b[2J"@) + rest =~= seq![0x1bu8, 91u8] + body + seq![74u8] + rest);
    vt::digits_len_is(body, 1);
    assert(body.drop_last() =~= Seq::<u8>::empty());
    assert(vt::number(body.drop_last()) == 0);
    assert(vt::params_of(body) =~= seq![2nat]);
    feed_control(monitor, body, 74, rest);
}

/// Going home takes the cursor to the top left corner.
proof fn feed_home(monitor: Monitor, rest: Seq<u8>)
    requires
        monitor.rows_count >= 0,
        monitor.cols >= 0,
    ensures
        monitor.feed(ascii("\x1b[H"@) + rest) == (Monitor {
            x: 0,
            y: 0,
            late: false,
            ..monitor
        }).feed(rest),
        vstd::utf8::is_ascii_chars("\x1b[H"@),
{
    reveal_strlit("\x1b[H");
    let body = Seq::<u8>::empty();
    assert(ascii("\x1b[H"@) + rest =~= seq![0x1bu8, 91u8] + body + seq![72u8] + rest);
    feed_control(monitor, body, 72, rest);
}

/// A line break above the last line takes the cursor to the start of the next one.
proof fn feed_break(monitor: Monitor, rest: Seq<u8>)
    requires
        monitor.y + 1 < monitor.rows_count,
    ensures
        monitor.feed(ascii("\r\n"@) + rest) == (Monitor {
            x: 0,
            y: monitor.y + 1,
            late: false,
            ..monitor
        }).feed(rest),
        vstd::utf8::is_ascii_chars("\r\n"@),
{
    reveal_strlit("\r\n");
    reveal(Monitor::feed);
    let data = ascii("\r\n"@) + rest;
    let tail = seq![10u8] + rest;
    assert(data =~= seq![13u8] + tail);
    assert(data.skip(1) =~= tail);
    assert(tail.skip(1) =~= rest);
    assert(data.len() >= 6 ==> data.take(6)[0] == 13);
    assert(tail.len() >= 6 ==> tail.take(6)[0] == 10);
    let start = Monitor { x: 0, late: false, ..monitor };
    assert(monitor.feed(data) == start.feed(tail));
    assert(start.feed(tail) == start.line_down().feed(rest));
}

/// A row whose first `n` cells are as the new row's are shown.
spec fn redrawn_row(was: Seq<CellView>, row: Seq<CellView>, n: int) -> Seq<CellView> {
    Seq::new(
        was.len(),
        |x: int|
            if x < n {
                shown_on(true, row[x])
            } else {
                was[x]
            },
    )
}

/// Feeding the first `n` cells of a row, drawn one after the other, shows them.
proof fn feed_drawn_cells(monitor: Monitor, row: Seq<CellView>, n: int, rest: Seq<u8>) -> (after:
    Monitor)
    requires
        monitor.faithful,
        0 <= n <= row.len(),
        row.len() == monitor.cols,
        0 <= monitor.y < monitor.rows.len(),
        monitor.rows[monitor.y].len() == monitor.cols,
        monitor.x == 0,
        !monitor.late,
        monitor.pen == snapshot::plain_style(),
        forall|x: int| 0 <= x < n ==> showable(#[trigger] row[x]),
    ensures
        monitor.feed(ascii(display::drawn_cells(row, n)) + rest) == after.feed(rest),
        after.rows == monitor.rows.update(monitor.y, redrawn_row(monitor.rows[monitor.y], row, n)),
        same_make(after, monitor),
        after.pen == display::style_before(row, n),
        after.y == monitor.y,
        n < monitor.cols ==> after.x == n && !after.late,
        vstd::utf8::is_ascii_chars(display::drawn_cells(row, n)),
    decreases n,
{
    let was = monitor.rows[monitor.y];
    if n <= 0 {
        assert(ascii(display::drawn_cells(row, n)) + rest =~= rest);
        assert(redrawn_row(was, row, n) =~= was);
        assert(monitor.rows =~= monitor.rows.update(monitor.y, was));
        monitor
    } else {
        let x = n - 1;
        let done = display::drawn_cells(row, x);
        let change = display::style_change(display::style_before(row, x), row[x].style);
        let text = display::cell_text(row[x]);
        let mid = feed_drawn_cells(monitor, row, x, ascii(change) + (ascii(text) + rest));
        assert(display::drawn_cells(row, n) =~= done + change + text);
        ascii_concat(done, change);
        ascii_concat(done + change, text);
        assert(ascii(done + change + text) + rest =~= ascii(done) + (ascii(change) + (ascii(text)
            + rest)));
        feed_style_change(
            mid,
            display::style_before(row, x),
            row[x].style,
            ascii(text) + rest,
        );
        let c1 = Monitor { pen: row[x].style, ..mid };
        feed_cell(c1, row[x], rest);
        let cell = shown_on(true, row[x]);
        assert(redrawn_row(was, row, x).update(x, cell) =~= redrawn_row(was, row, n));
        let c2 = Monitor {
            rows: c1.rows.update(c1.y, c1.rows[c1.y].update(c1.x, cell)),
            ..c1
        };
        assert(c2.rows =~= monitor.rows.update(monitor.y, redrawn_row(was, row, n)));
        c2.stepped()
    }
}

/// Feeding a whole row shows it, and leaves the pen plain.
proof fn feed_drawn_row(monitor: Monitor, row: Seq<CellView>, rest: Seq<u8>) -> (after: Monitor)
    requires
        monitor.faithful,
        row.len() == monitor.cols,
        0 <= monitor.y < monitor.rows.len(),
        monitor.rows[monitor.y].len() == monitor.cols,
        monitor.x == 0,
        !monitor.late,
        monitor.pen == snapshot::plain_style(),
        forall|x: int| 0 <= x < row.len() ==> showable(#[trigger] row[x]),
    ensures
        monitor.feed(ascii(display::drawn_row(row)) + rest) == after.feed(rest),
        after.rows == monitor.rows.update(monitor.y, shown_row(true, row)),
        same_make(after, monitor),
        after.pen == snapshot::plain_style(),
        after.y == monitor.y,
        vstd::utf8::is_ascii_chars(display::drawn_row(row)),
{
    let n = row.len() as int;
    let cells = display::drawn_cells(row, n);
    let plain = display::style_change(display::style_before(row, n), snapshot::plain_style());
    let mid = feed_drawn_cells(monitor, row, n, ascii(plain) + rest);
    ascii_concat(cells, plain);
    assert(ascii(cells + plain) + rest =~= ascii(cells) + (ascii(plain) + rest));
    feed_style_change(mid, display::style_before(row, n), snapshot::plain_style(), rest);
    assert(redrawn_row(monitor.rows[monitor.y], row, n) =~= shown_row(true, row));
    Monitor { pen: snapshot::plain_style(), ..mid }
}

/// Rows of which the first `n` are as the new rows are shown.
spec fn redrawn(was: Seq<Seq<CellView>>, rows: Seq<Seq<CellView>>, n: int) -> Seq<Seq<CellView>> {
    Seq::new(
        was.len(),
        |y: int|
            if y < n {
                shown_row(true, rows[y])
            } else {
                was[y]
            },
    )
}

/// Feeding the first `n` rows from the top left corner shows them.
proof fn feed_drawn_rows(monitor: Monitor, screen: ScreenView, n: int, rest: Seq<u8>) -> (after:
    Monitor)
    requires
        monitor.faithful,
        0 < n <= screen.rows_count,
        screen.wf(),
        all_showable(screen),
        fits(monitor, screen),
        monitor.x == 0,
        monitor.y == 0,
        !monitor.late,
        monitor.pen == snapshot::plain_style(),
    ensures
        monitor.feed(ascii(display::drawn_rows(screen.rows, n)) + rest) == after.feed(rest),
        after.rows == redrawn(monitor.rows, screen.rows, n),
        same_make(after, monitor),
        after.pen == snapshot::plain_style(),
        after.y == n - 1,
        vstd::utf8::is_ascii_chars(display::drawn_rows(screen.rows, n)),
    decreases n,
{
    let y = n - 1;
    let row = screen.rows[y];
    let drawn = display::drawn_row(row);
    let before = redrawn(monitor.rows, screen.rows, y);
    assert(row.len() == screen.cols);
    assert(monitor.rows[y].len() == screen.cols);
    assert forall|x: int| 0 <= x < row.len() implies showable(#[trigger] row[x]) by {
        assert(showable(screen.rows[y][x]));
    }
    assert(before[y] == monitor.rows[y]);
    assert(before.update(y, shown_row(true, row)) =~= redrawn(monitor.rows, screen.rows, n));
    if n == 1 {
        assert(before =~= monitor.rows);
        feed_drawn_row(monitor, row, rest)
    } else {
        let done = display::drawn_rows(screen.rows, y);
        let line = "\r\n"@;
        let mid = feed_drawn_rows(monitor, screen, y, ascii(line) + (ascii(drawn) + rest));
        ascii_concat(done, line);
        ascii_concat(done + line, drawn);
        assert(ascii(done + line + drawn) + rest =~= ascii(done) + (ascii(line) + (ascii(drawn)
            + rest)));
        feed_break(mid, ascii(drawn) + rest);
        feed_drawn_row(Monitor { x: 0, y, late: false, ..mid }, row, rest)
    }
}

/// A terminal that writes in the default style, once fed a redraw of a screen of its size, shows that
/// screen, whatever it showed before, and again writes in the default style.
pub proof fn redraw_shows(monitor: Monitor, new: ScreenView)
    requires
        monitor.faithful,
        fits(monitor, new),
        monitor.pen == snapshot::plain_style(),
        new.wf(),
        all_showable(new),
        new.cursor_x < new.cols,
        new.cursor_y < new.rows_count,
    ensures
        ({
            let after = monitor.feed(vstd::utf8::encode_utf8(display::redraw(new)));
            displays(after, new) && after.pen == snapshot::plain_style()
        }),
{
    let hide = escape::hide_cursor();
    let clear = "\x1b[2J"@;
    let home = "\x1b[H"@;
    let drawn = display::drawn_rows(new.rows, new.rows.len() as int);
    let place = display::place_cursor(new);
    let sight = if new.cursor_visible {
        escape::show_cursor()
    } else {
        Seq::empty()
    };
    let update = display::redraw(new);
    assert(update =~= hide + clear + home + drawn + place + sight);
    let after_rows = ascii(place) + ascii(sight);
    let after_home = ascii(drawn) + after_rows;
    let after_clear = ascii(home) + after_home;
    feed_sight(monitor, false, ascii(clear) + after_clear);
    let hidden = Monitor { visible: false, ..monitor };
    feed_clear(hidden, after_clear);
    let blank = Monitor {
        rows: Seq::new(monitor.rows.len(), |y: int| vt::blank_from(monitor.rows[y], 0)),
        ..hidden
    };
    feed_home(blank, after_home);
    let top = Monitor { x: 0, y: 0, late: false, ..blank };
    assert forall|y: int| 0 <= y < new.rows_count implies (#[trigger] top.rows[y]).len()
        == new.cols by {
        assert(monitor.rows[y].len() == new.cols);
    }
    let mid = feed_drawn_rows(top, new, new.rows_count as int, after_rows);
    feed_cursor_to(mid, (new.cursor_y + 1) as nat, (new.cursor_x + 1) as nat, ascii(sight));
    let placed = Monitor {
        x: new.cursor_x as int,
        y: new.cursor_y as int,
        late: false,
        ..mid
    };
    if new.cursor_visible {
        feed_sight(placed, true, Seq::empty());
        assert(ascii(sight) + Seq::<u8>::empty() =~= ascii(sight));
    }
    let done = Monitor { visible: new.cursor_visible, ..placed };
    assert(placed.feed(ascii(sight)) == done) by {
        reveal(Monitor::feed);
    }
    ascii_concat(hide, clear);
    ascii_concat(hide + clear, home);
    ascii_concat(hide + clear + home, drawn);
    ascii_concat(hide + clear + home + drawn, place);
    ascii_concat(hide + clear + home + drawn + place, sight);
    vstd::utf8::is_ascii_chars_encode_utf8(update);
    assert(vstd::utf8::encode_utf8(update) =~= ascii(update));
    assert(ascii(update) =~= ascii(hide) + (ascii(clear) + after_clear));
    assert(done.rows =~= shown_rows(true, new.rows));
    assert(forall|y: int|
        0 <= y < new.rows_count ==> (#[trigger] shown_rows(true, new.rows)[y]).len()
            == new.rows[y].len());
}

/// A prediction is drawn on the terminal of a user at its own row and column: its character, or a
/// blank where it is not known, underlined while the server has not answered it and plain
/// afterwards. No other cell changes, and the pen is left plain.
pub proof fn prediction_is_drawn(
    monitor: Monitor,
    cell: OverlayCellView,
    row_num: usize,
    late_acked: u64,
    rest: Seq<u8>,
)
    requires
        monitor.faithful,
        row_num < monitor.rows.len() <= 65535,
        monitor.rows.len() == monitor.rows_count,
        cell.col < monitor.cols <= 65535,
        cell.col < monitor.rows[row_num as int].len(),
        printable(cell.replacement),
    ensures
        ({
            let drawn = CellView {
                text: seq![
                    if cell.unknown {
                        ' '
                    } else {
                        cell.replacement
                    },
                ],
                wide: false,
                style: CellStyle {
                    underline: late_acked < cell.expiration_frame,
                    ..snapshot::plain_style()
                },
            };
            monitor.feed(ascii(predicted::drawn_cell(cell, row_num, late_acked)) + rest) == (Monitor {
                rows: monitor.rows.update(
                    row_num as int,
                    monitor.rows[row_num as int].update(cell.col as int, drawn),
                ),
                y: row_num as int,
                x: if cell.col + 1 < monitor.cols {
                    cell.col + 1
                } else {
                    cell.col as int
                },
                late: cell.col + 1 >= monitor.cols,
                pen: snapshot::plain_style(),
                ..monitor
            }).feed(rest)
        }),
{
    reveal_strlit("\x1b[0m");
    reveal_strlit("\x1b[4m");
    reveal_strlit("\x1b[");
    reveal_strlit("m");
    let pending = late_acked < cell.expiration_frame;
    let here = escape::cursor_to(row_num as nat + 1, cell.col as nat + 1);
    let style = CellStyle { underline: pending, ..snapshot::plain_style() };
    let on = if pending {
        "\x1b[4m"@
    } else {
        seq![]
    };
    let c = if cell.unknown {
        ' '
    } else {
        cell.replacement
    };
    let off = if pending {
        "\x1b[0m"@
    } else {
        seq![]
    };
    let tail = ascii(off) + rest;
    let body = ascii(seq![c]) + tail;
    let styled = ascii(on) + body;
    let plain = ascii(escape::reset_style()) + styled;
    assert(ascii(predicted::drawn_cell(cell, row_num, late_acked)) + rest =~= ascii(here) + plain);
    feed_cursor_to(monitor, row_num as nat + 1, cell.col as nat + 1, plain);
    let m1 = Monitor { y: row_num as int, x: cell.col as int, late: false, ..monitor };
    feed_reset(m1, styled);
    let m2 = Monitor { pen: snapshot::plain_style(), ..m1 };
    assert(escape::style_sequence(style) =~= on) by {
        reveal(escape::flag_param);
        reveal(escape::color_params);
        let params = escape::style_params(style);
        if pending {
            assert(params =~= seq![4nat]);
            assert(text::decimal(4) =~= seq!['4']);
            assert(escape::join_params(params) =~= seq!['4']);
        } else {
            assert(params =~= seq![]);
        }
    }
    feed_style(m2, style, body);
    let m3 = Monitor { pen: style, ..m2 };
    assert(ascii(seq![c]) =~= seq![c as u8]);
    printable_byte(c);
    feed_text(m3, c as u8, tail);
    let drawn = CellView { text: seq![c], wide: false, style };
    let m4 = m3.put(drawn).stepped();
    assert(m3.act(Token::Text { byte: c as u8 }) == m4);
    if pending {
        feed_reset(m4, rest);
    } else {
        assert(tail =~= rest);
    }
}

} // verus!
