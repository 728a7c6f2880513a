//! What each sequence of bytes does on the library's own terminal.

use crate::statesync::monitor;
use crate::statesync::vt;
use crate::statesync::vt::Canvas;
use crate::statesync::vt::Pen;
use crate::statesync::vt::Token;
use crate::terminal::snapshot::CellStyle;
use crate::terminal::snapshot::CellView;
use crate::terminal::snapshot::RgbColor;
use crate::terminal::snapshot::ScreenView;
use crate::terminal::snapshot::StyleColor;
use vstd::prelude::*;

verus! {

/// A number in decimal digits.
pub open spec fn digits(n: nat) -> Seq<u8>
    decreases n,
{
    if n < 10 {
        seq![(48 + n) as u8]
    } else {
        digits(n / 10).push((48 + n % 10) as u8)
    }
}

/// Numbers with semicolons between them.
pub open spec fn numbers(params: Seq<nat>) -> Seq<u8>
    decreases params.len(),
{
    if params.len() == 0 {
        seq![]
    } else if params.len() == 1 {
        digits(params[0])
    } else {
        digits(params[0]) + seq![59u8] + numbers(params.drop_first())
    }
}

/// A control sequence: escape, bracket, numbers, and the byte that says what it does.
pub open spec fn csi(params: Seq<nat>, last: u8) -> Seq<u8> {
    seq![0x1bu8, 91u8] + numbers(params) + seq![last]
}

/// Whether all numbers have at most sixteen bits.
pub open spec fn small(params: Seq<nat>) -> bool {
    forall|i: int| 0 <= i < params.len() ==> #[trigger] params[i] <= 65535
}

proof fn digits_read(n: nat)
    ensures
        digits(n).len() > 0,
        forall|i: int| 0 <= i < digits(n).len() ==> 48 <= #[trigger] digits(n)[i] <= 57,
        vt::number(digits(n)) == n,
    decreases n,
{
    let s = digits(n);
    if n < 10 {
        assert(s.drop_last() =~= Seq::<u8>::empty());
        assert(vt::number(s.drop_last()) == 0);
    } else {
        digits_read(n / 10);
        assert(s.drop_last() =~= digits(n / 10));
    }
}

proof fn numbers_read(params: Seq<nat>)
    requires
        small(params),
    ensures
        forall|i: int|
            0 <= i < numbers(params).len() ==> vt::is_param_byte(#[trigger] numbers(params)[i]),
        vt::params_of(numbers(params)) == params,
    decreases params.len(),
{
    let s = numbers(params);
    if params.len() == 0 {
        assert(vt::params_of(s) =~= params);
    } else {
        let first = digits(params[0]);
        digits_read(params[0]);
        assert(params[0] <= 65535);
        if params.len() == 1 {
            vt::digits_len_is(s, s.len() as int);
            assert(vt::params_of(s) =~= params);
        } else {
            let rest = params.drop_first();
            assert(small(rest)) by {
                assert forall|i: int| 0 <= i < rest.len() implies #[trigger] rest[i] <= 65535 by {
                    assert(rest[i] == params[i + 1]);
                }
            }
            numbers_read(rest);
            let k = first.len() as int;
            assert forall|i: int| 0 <= i < k implies vt::is_digit(#[trigger] s[i]) by {
                assert(s[i] == first[i]);
            }
            assert(s[k] == 59);
            vt::digits_len_is(s, k);
            assert(s.take(k) =~= first);
            assert(s.skip(k + 1) =~= numbers(rest));
            assert(seq![params[0]] + rest =~= params);
            assert forall|i: int| 0 <= i < s.len() implies vt::is_param_byte(#[trigger] s[i]) by {
                if i > k {
                    assert(s[i] == numbers(rest)[i - k - 1]);
                }
            }
        }
    }
}

/// Whether a byte can end a control sequence.
pub open spec fn ends_sequence(b: u8) -> bool {
    !(48 <= b <= 57) && b != 59 && b != 63
}

proof fn csi_acts(canvas: Canvas, params: Seq<nat>, last: u8, rest: Seq<u8>)
    requires
        small(params),
        ends_sequence(last),
    ensures
        canvas.feed(csi(params, last) + rest) == canvas.control(params, last).feed(rest),
{
    reveal(Canvas::feed);
    let data = csi(params, last) + rest;
    let body = numbers(params);
    let n = body.len() as int;
    numbers_read(params);
    assert forall|i: int| 0 <= i < n implies vt::is_param_byte(#[trigger] data.skip(2)[i]) by {
        assert(data.skip(2)[i] == body[i]);
    }
    assert(data.skip(2)[n] == last);
    vt::params_len_is(data.skip(2), n);
    assert(data[2 + n] == last);
    assert(data.subrange(2, 2 + n) =~= body);
    assert(vt::scan(data) == (Token::Control { params, last }, 3 + n));
    assert(data.skip(3 + n) =~= rest);
}

/// Nothing written changes nothing.
pub proof fn nothing_written(canvas: Canvas)
    ensures
        canvas.feed(seq![]) == canvas,
{
    reveal(Canvas::feed);
}

/// Writing starts at the screen's cursor, in the default colors and without any attribute, and
/// leaves everything but the cells and the cursor alone.
pub proof fn writing_starts_plain(screen: ScreenView, data: Seq<u8>)
    ensures
        ({
            let after = vt::written_to(screen, data);
            let canvas = Canvas {
                rows: screen.rows,
                cols: screen.cols as int,
                rows_count: screen.rows_count as int,
                x: screen.cursor_x as int,
                y: screen.cursor_y as int,
                pen: Pen {
                    fg: StyleColor::Default,
                    bg: StyleColor::Default,
                    bold: false,
                    italic: false,
                    underline: false,
                },
            }.feed(data);
            &&& after.rows == canvas.rows
            &&& after.cursor_x == canvas.x as u16
            &&& after.cursor_y == canvas.y as u16
            &&& after.cols == screen.cols
            &&& after.rows_count == screen.rows_count
            &&& after.cursor_visible == screen.cursor_visible
            &&& after.fg == screen.fg
            &&& after.bg == screen.bg
            &&& after.palette == screen.palette
        }),
{
}

/// One graphic rendition number: 0 resets the pen; 1, 3 and 4 switch bold, italic and underline on;
/// 22, 23 and 24 switch them off again; each leaves the rest of the pen alone, and every other
/// number leaves all of it alone.
pub proof fn rendition_sets_attribute(canvas: Canvas, p: nat, rest: Seq<u8>)
    requires
        p <= 65535,
    ensures
        canvas.feed(csi(seq![p], 109u8) + rest) == (Canvas {
            pen: Pen {
                fg: if p == 0 {
                    StyleColor::Default
                } else {
                    canvas.pen.fg
                },
                bg: if p == 0 {
                    StyleColor::Default
                } else {
                    canvas.pen.bg
                },
                bold: p == 1 || p != 0 && p != 22 && canvas.pen.bold,
                italic: p == 3 || p != 0 && p != 23 && canvas.pen.italic,
                underline: p == 4 || p != 0 && p != 24 && canvas.pen.underline,
            },
            ..canvas
        }).feed(rest),
{
    reveal_with_fuel(vt::render, 2);
    let params = seq![p];
    csi_acts(canvas, params, 109, rest);
    assert(params.drop_first() =~= seq![]);
}

/// Graphic rendition without a number resets the pen.
pub proof fn rendition_resets(canvas: Canvas, rest: Seq<u8>)
    ensures
        canvas.feed(csi(seq![], 109u8) + rest) == (Canvas {
            pen: Pen {
                fg: StyleColor::Default,
                bg: StyleColor::Default,
                bold: false,
                italic: false,
                underline: false,
            },
            ..canvas
        }).feed(rest),
{
    csi_acts(canvas, seq![], 109, rest);
}

/// Switching an attribute on and off again leaves it off, whatever the pen was, and the text that
/// follows is without it.
pub proof fn off_follows_on(canvas: Canvas, byte: u8)
    requires
        0 <= canvas.y < canvas.rows.len(),
        0 <= canvas.x < canvas.cols,
        canvas.x < canvas.rows[canvas.y].len(),
        32 <= byte <= 126,
    ensures
        ({
            let cell = |on: nat, off: nat|
                canvas.feed(
                    csi(seq![on], 109u8) + (csi(seq![off], 109u8) + seq![byte]),
                ).rows[canvas.y][canvas.x];
            &&& !cell(1, 22).style.bold
            &&& !cell(3, 23).style.italic
            &&& !cell(4, 24).style.underline
            &&& cell(1, 22).text == seq![byte as char]
        }),
{
    rendition_sets_attribute(canvas, 1, csi(seq![22], 109u8) + seq![byte]);
    rendition_sets_attribute(canvas, 3, csi(seq![23], 109u8) + seq![byte]);
    rendition_sets_attribute(canvas, 4, csi(seq![24], 109u8) + seq![byte]);
    let bold = Canvas { pen: Pen { bold: true, ..canvas.pen }, ..canvas };
    let italic = Canvas { pen: Pen { italic: true, ..canvas.pen }, ..canvas };
    let underline = Canvas { pen: Pen { underline: true, ..canvas.pen }, ..canvas };
    rendition_sets_attribute(bold, 22, seq![byte]);
    rendition_sets_attribute(italic, 23, seq![byte]);
    rendition_sets_attribute(underline, 24, seq![byte]);
    let no_bold = Canvas { pen: Pen { bold: false, ..canvas.pen }, ..canvas };
    let no_italic = Canvas { pen: Pen { italic: false, ..canvas.pen }, ..canvas };
    let no_underline = Canvas { pen: Pen { underline: false, ..canvas.pen }, ..canvas };
    assert(seq![byte] =~= seq![byte] + seq![]);
    text_is_put(no_bold, byte, seq![]);
    text_is_put(no_italic, byte, seq![]);
    text_is_put(no_underline, byte, seq![]);
    nothing_written(no_bold.feed(seq![byte]));
    reveal(Canvas::feed);
}

/// The color with number `n`; a number above 255 counts as zero.
pub open spec fn channel(n: nat) -> u8 {
    if n <= 255 {
        n as u8
    } else {
        0
    }
}

/// `38;5` and `48;5` choose the color of the text or of the ground from the palette; the rest of the
/// pen is left alone.
pub proof fn palette_color_is_set(canvas: Canvas, ground: bool, n: nat, rest: Seq<u8>)
    requires
        n <= 65535,
    ensures
        canvas.feed(
            csi(
                seq![
                    if ground {
                        48nat
                    } else {
                        38nat
                    },
                    5nat,
                    n,
                ],
                109u8,
            ) + rest,
        ) == (Canvas {
            pen: if ground {
                Pen { bg: StyleColor::Palette(channel(n)), ..canvas.pen }
            } else {
                Pen { fg: StyleColor::Palette(channel(n)), ..canvas.pen }
            },
            ..canvas
        }).feed(rest),
{
    reveal_with_fuel(vt::render, 2);
    let params = seq![
        if ground {
            48nat
        } else {
            38nat
        },
        5nat,
        n,
    ];
    csi_acts(canvas, params, 109, rest);
    assert(params.skip(3) =~= seq![]);
}

/// `38;2` and `48;2` set the color of the text or of the ground by its three channels; the rest of
/// the pen is left alone.
pub proof fn true_color_is_set(
    canvas: Canvas,
    ground: bool,
    r: nat,
    g: nat,
    b: nat,
    rest: Seq<u8>,
)
    requires
        r <= 65535,
        g <= 65535,
        b <= 65535,
    ensures
        ({
            let color = StyleColor::Rgb(RgbColor { r: channel(r), g: channel(g), b: channel(b) });
            canvas.feed(
                csi(
                    seq![
                        if ground {
                            48nat
                        } else {
                            38nat
                        },
                        2nat,
                        r,
                        g,
                        b,
                    ],
                    109u8,
                ) + rest,
            ) == (Canvas {
                pen: if ground {
                    Pen { bg: color, ..canvas.pen }
                } else {
                    Pen { fg: color, ..canvas.pen }
                },
                ..canvas
            }).feed(rest)
        }),
{
    reveal_with_fuel(vt::render, 2);
    let params = seq![
        if ground {
            48nat
        } else {
            38nat
        },
        2nat,
        r,
        g,
        b,
    ];
    csi_acts(canvas, params, 109, rest);
    assert(params.skip(5) =~= seq![]);
}

/// Whether numbers are one complete choice: an attribute, or a color with all that belongs to it.
pub open spec fn one_choice(params: Seq<nat>) -> bool {
    ||| params.len() == 1 && params[0] != 38 && params[0] != 48
    ||| params.len() == 3 && (params[0] == 38 || params[0] == 48) && params[1] == 5
    ||| params.len() == 5 && (params[0] == 38 || params[0] == 48) && params[1] == 2
}

/// Numbers in one graphic rendition act one choice after the other, as if each had come in a
/// sequence of its own.
pub proof fn renditions_add_up(canvas: Canvas, first: Seq<nat>, more: Seq<nat>, rest: Seq<u8>)
    requires
        one_choice(first),
        more.len() > 0,
        small(first),
        small(more),
    ensures
        canvas.feed(csi(first + more, 109u8) + rest) == canvas.feed(
            csi(first, 109u8) + (csi(more, 109u8) + rest),
        ),
{
    reveal_with_fuel(vt::render, 2);
    let all = first + more;
    assert(small(all)) by {
        assert forall|i: int| 0 <= i < all.len() implies #[trigger] all[i] <= 65535 by {
            if i < first.len() {
                assert(all[i] == first[i]);
            } else {
                assert(all[i] == more[i - first.len()]);
            }
        }
    }
    csi_acts(canvas, all, 109, rest);
    csi_acts(canvas, first, 109, csi(more, 109u8) + rest);
    let middle = canvas.control(first, 109);
    csi_acts(middle, more, 109, rest);
    let n = first.len() as int;
    assert(all.skip(n) =~= more);
    assert(first.skip(n) =~= seq![]);
    if n == 1 {
        assert(all.drop_first() =~= more);
        assert(first.drop_first() =~= seq![]);
    }
    assert(all[0] == first[0]);
    if n == 3 {
        assert(all[1] == first[1] && all[2] == first[2]);
        assert(vt::color_len(all) == 3);
        assert(vt::color_value(all) == vt::color_value(first));
    }
    if n == 5 {
        assert(all[1] == first[1] && all[2] == first[2] && all[3] == first[3] && all[4]
            == first[4]);
        assert(vt::color_len(all) == 5);
        assert(vt::color_value(all) == vt::color_value(first));
    }
    assert(vt::render(canvas.pen, all) == vt::render(vt::render(canvas.pen, first), more));
}

/// On colors, bold, italic and underline the library's own terminal agrees with the one of a user,
/// whatever numbers a graphic rendition holds.
pub proof fn own_pen_agrees(style: CellStyle, params: Seq<nat>)
    ensures
        ({
            let own = vt::render(
                Pen {
                    fg: style.fg,
                    bg: style.bg,
                    bold: style.bold,
                    italic: style.italic,
                    underline: style.underline,
                },
                params,
            );
            let faithful = monitor::render(true, style, params);
            &&& own.fg == faithful.fg
            &&& own.bg == faithful.bg
            &&& own.bold == faithful.bold
            &&& own.italic == faithful.italic
            &&& own.underline == faithful.underline
        }),
{
    own_pen_follows(style, params);
}

proof fn own_attribute_follows(style: CellStyle, p: nat)
    ensures
        vt::set_attribute(vt::pen_of(style), p) == vt::pen_of(monitor::attribute(true, style, p)),
{
}

proof fn own_pen_follows(style: CellStyle, params: Seq<nat>)
    ensures
        vt::render(vt::pen_of(style), params) == vt::pen_of(monitor::render(true, style, params)),
    decreases params.len(),
{
    reveal_with_fuel(vt::render, 1);
    reveal_with_fuel(monitor::render, 1);
    if params.len() > 0 {
        let n = vt::color_len(params);
        let color = vt::color_value(params);
        if params[0] == 38 && n > 0 {
            let next = CellStyle { fg: color, ..style };
            assert(vt::pen_of(next) == (Pen { fg: color, ..vt::pen_of(style) }));
            own_pen_follows(next, params.skip(n));
        } else if params[0] == 48 && n > 0 {
            let next = CellStyle { bg: color, ..style };
            assert(vt::pen_of(next) == (Pen { bg: color, ..vt::pen_of(style) }));
            own_pen_follows(next, params.skip(n));
        } else {
            own_attribute_follows(style, params[0]);
            own_pen_follows(monitor::attribute(true, style, params[0]), params.drop_first());
        }
    }
}

/// A coordinate counted from one, as an index that stays on a screen of the given size; zero counts
/// as one.
pub open spec fn index_of(n: nat, size: int) -> int {
    if n > size {
        size - 1
    } else if n > 0 {
        n - 1
    } else {
        0
    }
}

/// The cursor is sent to a row and a column, both counted from one and kept on the screen; without
/// numbers it goes home. The cells and the pen are left alone.
pub proof fn cursor_is_sent(canvas: Canvas, row: nat, col: nat, rest: Seq<u8>)
    requires
        canvas.rows_count > 0,
        canvas.cols > 0,
        row <= 65535,
        col <= 65535,
    ensures
        ({
            let sent = Canvas {
                y: index_of(row, canvas.rows_count),
                x: index_of(col, canvas.cols),
                ..canvas
            };
            &&& canvas.feed(csi(seq![row, col], 72u8) + rest) == sent.feed(rest)
            &&& canvas.feed(csi(seq![row, col], 102u8) + rest) == sent.feed(rest)
        }),
        canvas.feed(csi(seq![], 72u8) + rest) == (Canvas { x: 0, y: 0, ..canvas }).feed(rest),
        canvas.feed(csi(seq![row], 72u8) + rest) == (Canvas {
            x: 0,
            y: index_of(row, canvas.rows_count),
            ..canvas
        }).feed(rest),
{
    csi_acts(canvas, seq![row, col], 72, rest);
    csi_acts(canvas, seq![row, col], 102, rest);
    csi_acts(canvas, seq![], 72, rest);
    csi_acts(canvas, seq![row], 72, rest);
}

/// Whether a cell holds nothing: no text, default colors, no attribute.
pub open spec fn is_blank(cell: CellView) -> bool {
    &&& cell.text.len() == 0
    &&& !cell.wide
    &&& cell.style.fg == StyleColor::Default
    &&& cell.style.bg == StyleColor::Default
    &&& !cell.style.bold
    &&& !cell.style.italic
    &&& !cell.style.faint
    &&& !cell.style.blink
    &&& !cell.style.inverse
    &&& !cell.style.invisible
    &&& !cell.style.strikethrough
    &&& !cell.style.overline
    &&& !cell.style.underline
}

/// Erasing the display blanks every cell and sends the cursor home; other forms of erasing it do
/// nothing.
pub proof fn display_is_erased(canvas: Canvas)
    ensures
        ({
            let after = canvas.feed(csi(seq![2nat], 74u8));
            &&& after.rows.len() == canvas.rows.len()
            &&& forall|y: int|
                0 <= y < canvas.rows.len() ==> (#[trigger] after.rows[y]).len()
                    == canvas.rows[y].len()
            &&& forall|y: int, x: int|
                0 <= y < canvas.rows.len() && 0 <= x < canvas.rows[y].len() ==> is_blank(
                    #[trigger] after.rows[y][x],
                )
            &&& after.x == 0
            &&& after.y == 0
            &&& after.pen == canvas.pen
        }),
        canvas.feed(csi(seq![], 74u8)) == canvas,
        forall|p: nat|
            p != 2 && p <= 65535 ==> #[trigger] canvas.feed(csi(seq![p], 74u8)) == canvas,
{
    let none = Seq::<u8>::empty();
    assert forall|params: Seq<nat>| small(params) implies canvas.feed(
        #[trigger] csi(params, 74u8),
    ) == canvas.control(params, 74) by {
        assert(csi(params, 74u8) + none =~= csi(params, 74u8));
        csi_acts(canvas, params, 74, none);
        nothing_written(canvas.control(params, 74));
    }
    assert(small(seq![2nat]));
    assert(small(seq![]));
    assert forall|p: nat| p != 2 && p <= 65535 implies #[trigger] canvas.feed(csi(seq![p], 74u8))
        == canvas by {
        assert(small(seq![p]));
    }
}

/// Erasing a line blanks it from the cursor to its end, or as a whole for the number two; every
/// other cell, the cursor and the pen are left alone.
pub proof fn line_is_erased(canvas: Canvas, params: Seq<nat>)
    requires
        small(params),
        0 <= canvas.y < canvas.rows.len(),
    ensures
        ({
            let after = canvas.feed(csi(params, 75u8));
            let from = if params.len() > 0 && params[0] == 2 {
                0
            } else {
                canvas.x
            };
            &&& after.rows.len() == canvas.rows.len()
            &&& after.rows[canvas.y].len() == canvas.rows[canvas.y].len()
            &&& forall|y: int|
                0 <= y < canvas.rows.len() && y != canvas.y ==> #[trigger] after.rows[y]
                    == canvas.rows[y]
            &&& forall|x: int|
                0 <= x < canvas.rows[canvas.y].len() ==> if x < from {
                    #[trigger] after.rows[canvas.y][x] == canvas.rows[canvas.y][x]
                } else {
                    is_blank(after.rows[canvas.y][x])
                }
            &&& after.x == canvas.x
            &&& after.y == canvas.y
            &&& after.pen == canvas.pen
        }),
{
    let none = Seq::<u8>::empty();
    assert(csi(params, 75u8) + none =~= csi(params, 75u8));
    csi_acts(canvas, params, 75, none);
    nothing_written(canvas.control(params, 75));
}

/// A sequence that asks for anything else does nothing.
pub proof fn other_sequences_are_skipped(
    canvas: Canvas,
    params: Seq<nat>,
    last: u8,
    rest: Seq<u8>,
)
    requires
        small(params),
        ends_sequence(last),
        last != 72 && last != 102 && last != 109 && last != 74 && last != 75,
    ensures
        canvas.feed(csi(params, last) + rest) == canvas.feed(rest),
{
    csi_acts(canvas, params, last, rest);
}

/// A private mode, set or reset, does nothing.
pub proof fn private_modes_are_skipped(canvas: Canvas, mode: nat, last: u8, rest: Seq<u8>)
    requires
        !(48 <= last <= 57),
    ensures
        canvas.feed(seq![0x1bu8, 91u8, 63u8] + digits(mode) + seq![last] + rest) == canvas.feed(
            rest,
        ),
{
    reveal(Canvas::feed);
    digits_read(mode);
    let number = digits(mode);
    let n = number.len() as int;
    let data = seq![0x1bu8, 91u8, 63u8] + number + seq![last] + rest;
    vt::params_len_is(data.skip(2), 0);
    assert forall|i: int| 0 <= i < n implies vt::is_digit(#[trigger] data.skip(3)[i]) by {
        assert(data.skip(3)[i] == number[i]);
    }
    assert(data.skip(3)[n] == last);
    vt::digits_len_is(data.skip(3), n);
    assert(vt::scan(data) == (Token::Skipped, 4 + n));
    assert(data.skip(4 + n) =~= rest);
}

/// A sequence that the stream cuts off does nothing.
pub proof fn cut_sequence_is_skipped(canvas: Canvas, params: Seq<nat>)
    requires
        small(params),
    ensures
        canvas.feed(seq![0x1bu8, 91u8] + numbers(params)) == canvas,
{
    reveal(Canvas::feed);
    numbers_read(params);
    let data = seq![0x1bu8, 91u8] + numbers(params);
    assert(data.skip(2) =~= numbers(params));
    vt::params_len_is(data.skip(2), numbers(params).len() as int);
    assert(vt::scan(data) == (Token::Skipped, data.len() as int));
    assert(data.skip(data.len() as int) =~= seq![]);
    nothing_written(canvas);
}

/// The line below, or the last one.
pub open spec fn line_below(y: int, rows_count: int) -> int {
    if y + 1 < rows_count {
        y + 1
    } else if rows_count > 0 {
        rows_count - 1
    } else {
        0
    }
}

/// A carriage return sends the cursor to the first column, a line feed to the line below, a
/// backspace one column to the left; none changes a cell or the pen.
pub proof fn controls_move_cursor(canvas: Canvas, rest: Seq<u8>)
    requires
        canvas.x >= 0,
    ensures
        canvas.feed(seq![13u8] + rest) == (Canvas { x: 0, ..canvas }).feed(rest),
        canvas.feed(seq![10u8] + rest) == (Canvas {
            y: line_below(canvas.y, canvas.rows_count),
            ..canvas
        }).feed(rest),
        canvas.feed(seq![8u8] + rest) == (Canvas {
            x: if canvas.x == 0 {
                0
            } else {
                canvas.x - 1
            },
            ..canvas
        }).feed(rest),
{
    reveal(Canvas::feed);
    assert((seq![13u8] + rest).skip(1) =~= rest);
    assert((seq![10u8] + rest).skip(1) =~= rest);
    assert((seq![8u8] + rest).skip(1) =~= rest);
}

/// A byte of text is put at the cursor in the style of the pen, with no other attribute, and changes
/// no other cell; the cursor goes one column to the right, at the end of a line to the next one.
pub proof fn text_is_put(canvas: Canvas, byte: u8, rest: Seq<u8>)
    requires
        0 <= canvas.y < canvas.rows.len(),
        0 <= canvas.x < canvas.cols,
        canvas.x < canvas.rows[canvas.y].len(),
        byte != 0x1b && byte != 13 && byte != 10 && byte != 8,
    ensures
        canvas.feed(seq![byte] + rest) == (Canvas {
            rows: canvas.rows.update(
                canvas.y,
                canvas.rows[canvas.y].update(
                    canvas.x,
                    CellView {
                        text: seq![byte as char],
                        wide: false,
                        style: CellStyle {
                            fg: canvas.pen.fg,
                            bg: canvas.pen.bg,
                            bold: canvas.pen.bold,
                            italic: canvas.pen.italic,
                            underline: canvas.pen.underline,
                            faint: false,
                            blink: false,
                            inverse: false,
                            invisible: false,
                            strikethrough: false,
                            overline: false,
                        },
                    },
                ),
            ),
            x: if canvas.x + 1 < canvas.cols {
                canvas.x + 1
            } else {
                0
            },
            y: if canvas.x + 1 < canvas.cols {
                canvas.y
            } else {
                line_below(canvas.y, canvas.rows_count)
            },
            ..canvas
        }).feed(rest),
{
    reveal(Canvas::feed);
    assert((seq![byte] + rest).skip(1) =~= rest);
}

/// A color of three channels takes what is left of the numbers; channels that are missing are zero.
/// A palette color without its number is no choice at all, and neither is any other kind of color.
pub proof fn cut_colors(canvas: Canvas, ground: bool, r: nat, g: nat, kind: nat, rest: Seq<u8>)
    requires
        r <= 65535,
        g <= 65535,
        kind <= 65535,
        kind != 2 && kind != 1 && kind != 0 && kind != 3 && kind != 4,
        kind != 22 && kind != 23 && kind != 24 && kind != 38 && kind != 48,
    ensures
        ({
            let code = if ground {
                48nat
            } else {
                38nat
            };
            let pen = |color: StyleColor|
                if ground {
                    Pen { bg: color, ..canvas.pen }
                } else {
                    Pen { fg: color, ..canvas.pen }
                };
            let rgb = |r: u8, g: u8| StyleColor::Rgb(RgbColor { r, g, b: 0 });
            &&& canvas.feed(csi(seq![code, 2nat], 109u8) + rest) == (Canvas {
                pen: pen(rgb(0, 0)),
                ..canvas
            }).feed(rest)
            &&& canvas.feed(csi(seq![code, 2nat, r], 109u8) + rest) == (Canvas {
                pen: pen(rgb(channel(r), 0)),
                ..canvas
            }).feed(rest)
            &&& canvas.feed(csi(seq![code, 2nat, r, g], 109u8) + rest) == (Canvas {
                pen: pen(rgb(channel(r), channel(g))),
                ..canvas
            }).feed(rest)
            &&& canvas.feed(csi(seq![code, kind], 109u8) + rest) == canvas.feed(rest)
        }),
{
    reveal_with_fuel(vt::render, 3);
    let code = if ground {
        48nat
    } else {
        38nat
    };
    let a = seq![code, 2nat];
    let b = seq![code, 2nat, r];
    let c = seq![code, 2nat, r, g];
    let d = seq![code, kind];
    csi_acts(canvas, a, 109, rest);
    csi_acts(canvas, b, 109, rest);
    csi_acts(canvas, c, 109, rest);
    csi_acts(canvas, d, 109, rest);
    assert(a.skip(2) =~= seq![]);
    assert(b.skip(3) =~= seq![]);
    assert(c.skip(4) =~= seq![]);
    assert(d.drop_first() =~= seq![kind]);
    assert(d.drop_first().drop_first() =~= seq![]);
}

/// A number of more than sixteen bits counts as zero.
pub proof fn large_numbers_are_zero(canvas: Canvas, n: nat, last: u8, rest: Seq<u8>)
    requires
        n > 65535,
        ends_sequence(last),
    ensures
        canvas.feed(csi(seq![n], last) + rest) == canvas.feed(csi(seq![0nat], last) + rest),
{
    reveal(Canvas::feed);
    digits_read(n);
    let body = digits(n);
    let k = body.len() as int;
    let data = csi(seq![n], last) + rest;
    assert forall|i: int| 0 <= i < k implies vt::is_param_byte(#[trigger] data.skip(2)[i]) by {
        assert(data.skip(2)[i] == body[i]);
    }
    assert(data.skip(2)[k] == last);
    vt::params_len_is(data.skip(2), k);
    assert(data.subrange(2, 2 + k) =~= body);
    vt::digits_len_is(body, k);
    assert(vt::params_of(body) =~= seq![0nat]);
    assert(vt::scan(data) == (Token::Control { params: seq![0nat], last }, 3 + k));
    assert(data.skip(3 + k) =~= rest);
    csi_acts(canvas, seq![0nat], last, rest);
}

/// Text beyond the grid is lost, and the cursor goes on as it would anyway.
pub proof fn text_off_grid_is_lost(canvas: Canvas, byte: u8, rest: Seq<u8>)
    requires
        canvas.y >= canvas.rows.len() || canvas.x >= canvas.cols || canvas.x
            >= canvas.rows[canvas.y].len(),
        byte != 0x1b && byte != 13 && byte != 10 && byte != 8,
    ensures
        canvas.feed(seq![byte] + rest) == (Canvas {
            x: if canvas.x + 1 < canvas.cols {
                canvas.x + 1
            } else {
                0
            },
            y: if canvas.x + 1 < canvas.cols {
                canvas.y
            } else {
                line_below(canvas.y, canvas.rows_count)
            },
            ..canvas
        }).feed(rest),
{
    reveal(Canvas::feed);
    assert((seq![byte] + rest).skip(1) =~= rest);
}

/// An escape character that no bracket follows is text like any other.
pub proof fn lone_escape_is_text(canvas: Canvas, rest: Seq<u8>)
    requires
        rest.len() == 0 || rest[0] != 91,
        0 <= canvas.y < canvas.rows.len(),
        0 <= canvas.x < canvas.cols,
        canvas.x < canvas.rows[canvas.y].len(),
    ensures
        canvas.feed(seq![0x1bu8] + rest) == (Canvas {
            rows: canvas.rows.update(
                canvas.y,
                canvas.rows[canvas.y].update(
                    canvas.x,
                    CellView {
                        text: seq![0x1bu8 as char],
                        wide: false,
                        style: CellStyle {
                            fg: canvas.pen.fg,
                            bg: canvas.pen.bg,
                            bold: canvas.pen.bold,
                            italic: canvas.pen.italic,
                            underline: canvas.pen.underline,
                            faint: false,
                            blink: false,
                            inverse: false,
                            invisible: false,
                            strikethrough: false,
                            overline: false,
                        },
                    },
                ),
            ),
            x: if canvas.x + 1 < canvas.cols {
                canvas.x + 1
            } else {
                0
            },
            y: if canvas.x + 1 < canvas.cols {
                canvas.y
            } else {
                line_below(canvas.y, canvas.rows_count)
            },
            ..canvas
        }).feed(rest),
{
    reveal(Canvas::feed);
    assert((seq![0x1bu8] + rest).skip(1) =~= rest);
}

} // verus!
