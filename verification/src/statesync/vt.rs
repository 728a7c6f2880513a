//! A small terminal: the byte stream is cut into tokens, and each token acts on a screen.
//!
//! It understands what a screen update consists of: cursor positioning, graphic rendition, erasing
//! the display, a line or the rest of one, and text. Every other control sequence is skipped.

use crate::terminal::snapshot;
use crate::terminal::snapshot::CellData;
use crate::terminal::snapshot::CellStyle;
use crate::terminal::snapshot::CellView;
use crate::terminal::snapshot::RgbColor;
use crate::terminal::snapshot::ScreenSnapshot;
use crate::terminal::snapshot::ScreenView;
use crate::terminal::snapshot::StyleColor;
use vstd::prelude::*;

verus! {

/// The part of a style that graphic rendition can set here.
#[derive(Clone, Copy, Debug, PartialEq, Eq, Structural)]
pub struct Pen {
    pub fg: StyleColor,
    pub bg: StyleColor,
    pub bold: bool,
    pub italic: bool,
    pub underline: bool,
}

/// The pen that a style leaves when it is switched on from a reset.
pub open spec fn pen_of(style: CellStyle) -> Pen {
    Pen {
        fg: style.fg,
        bg: style.bg,
        bold: style.bold,
        italic: style.italic,
        underline: style.underline,
    }
}

/// The style in which a pen writes.
pub open spec fn pen_style(pen: Pen) -> CellStyle {
    CellStyle {
        fg: pen.fg,
        bg: pen.bg,
        bold: pen.bold,
        italic: pen.italic,
        underline: pen.underline,
        ..snapshot::plain_style()
    }
}

/// The pen after a reset.
pub open spec fn plain_pen() -> Pen {
    pen_of(snapshot::plain_style())
}

/// One unit of the byte stream.
pub enum Token {
    /// A control sequence: its parameters and its final byte.
    Control { params: Seq<nat>, last: u8 },
    /// A sequence without effect: a private mode, or one cut off by the end of the stream.
    Skipped,
    /// Carriage return.
    Return,
    /// Line feed.
    Newline,
    /// Backspace.
    Back,
    /// Any other byte is text.
    Text { byte: u8 },
}

pub open spec fn is_digit(b: u8) -> bool {
    48 <= b <= 57
}

/// A digit or a semicolon.
pub open spec fn is_param_byte(b: u8) -> bool {
    is_digit(b) || b == 59
}

/// The number of leading bytes that are digits.
pub open spec fn digits_len(data: Seq<u8>) -> int
    decreases data.len(),
{
    if data.len() == 0 || !is_digit(data[0]) {
        0
    } else {
        1 + digits_len(data.drop_first())
    }
}

/// The number of leading bytes that are digits or semicolons.
pub open spec fn params_len(data: Seq<u8>) -> int
    decreases data.len(),
{
    if data.len() == 0 || !is_param_byte(data[0]) {
        0
    } else {
        1 + params_len(data.drop_first())
    }
}

/// The number that a run of digits denotes.
pub open spec fn number(digits: Seq<u8>) -> nat
    decreases digits.len(),
{
    if digits.len() == 0 {
        0
    } else {
        number(digits.drop_last()) * 10 + (digits.last() - 48) as nat
    }
}

/// The value of a parameter; one too large for 16 bits counts as zero.
pub open spec fn param_value(digits: Seq<u8>) -> nat {
    if number(digits) <= 65535 {
        number(digits)
    } else {
        0
    }
}

/// The parameters of a control sequence: numbers separated by semicolons, where a missing number
/// is zero and nothing follows a closing semicolon.
pub open spec fn params_of(body: Seq<u8>) -> Seq<nat>
    decreases body.len(),
{
    let k = digits_len(body);
    if body.len() == 0 {
        seq![]
    } else if k >= body.len() || k < 0 {
        seq![param_value(body)]
    } else {
        seq![param_value(body.take(k))] + params_of(body.skip(k + 1))
    }
}

/// The first token of a byte stream that is not empty, and its length.
pub open spec fn scan(data: Seq<u8>) -> (Token, int) {
    if data[0] == 0x1b && data.len() > 1 && data[1] == 91 {
        let j = 2 + params_len(data.skip(2));
        if j >= data.len() {
            (Token::Skipped, data.len() as int)
        } else if data[j] == 63 {
            let k = j + 1 + digits_len(data.skip(j + 1));
            (
                Token::Skipped,
                if k < data.len() {
                    k + 1
                } else {
                    k
                },
            )
        } else {
            (Token::Control { params: params_of(data.subrange(2, j)), last: data[j] }, j + 1)
        }
    } else if data[0] == 13 {
        (Token::Return, 1)
    } else if data[0] == 10 {
        (Token::Newline, 1)
    } else if data[0] == 8 {
        (Token::Back, 1)
    } else {
        (Token::Text { byte: data[0] }, 1)
    }
}

/// A color channel or palette index; one too large for 8 bits counts as zero.
pub open spec fn channel(params: Seq<nat>, k: int) -> u8 {
    if k < params.len() && params[k] <= 255 {
        params[k] as u8
    } else {
        0
    }
}

/// The number of parameters that a color selection takes, itself counted; zero if there is none at
/// the front of `params`.
pub open spec fn color_len(params: Seq<nat>) -> int {
    if params.len() >= 3 && params[1] == 5 {
        3
    } else if params.len() >= 2 && params[1] == 2 {
        if params.len() < 5 {
            params.len() as int
        } else {
            5
        }
    } else {
        0
    }
}

/// The color that a color selection at the front of `params` names.
pub open spec fn color_value(params: Seq<nat>) -> StyleColor {
    if params[1] == 5 {
        StyleColor::Palette(channel(params, 2))
    } else {
        StyleColor::Rgb(
            RgbColor { r: channel(params, 2), g: channel(params, 3), b: channel(params, 4) },
        )
    }
}

/// One graphic rendition parameter other than a color.
pub open spec fn set_attribute(pen: Pen, p: nat) -> Pen {
    if p == 0 {
        plain_pen()
    } else if p == 1 {
        Pen { bold: true, ..pen }
    } else if p == 3 {
        Pen { italic: true, ..pen }
    } else if p == 4 {
        Pen { underline: true, ..pen }
    } else if p == 22 {
        Pen { bold: false, ..pen }
    } else if p == 23 {
        Pen { italic: false, ..pen }
    } else if p == 24 {
        Pen { underline: false, ..pen }
    } else {
        pen
    }
}

/// Graphic rendition: the parameters act on the pen one after the other.
#[verifier::opaque]
pub open spec fn render(pen: Pen, params: Seq<nat>) -> Pen
    decreases params.len(),
{
    if params.len() == 0 {
        pen
    } else if params[0] == 38 && color_len(params) > 0 {
        render(Pen { fg: color_value(params), ..pen }, params.skip(color_len(params)))
    } else if params[0] == 48 && color_len(params) > 0 {
        render(Pen { bg: color_value(params), ..pen }, params.skip(color_len(params)))
    } else {
        render(set_attribute(pen, params[0]), params.drop_first())
    }
}

/// A screen being written to: its cells, where the next text goes, and in which style.
#[verifier::ext_equal]
pub struct Canvas {
    pub rows: Seq<Seq<CellView>>,
    pub cols: int,
    pub rows_count: int,
    pub x: int,
    pub y: int,
    pub pen: Pen,
}

/// `v`, or the last index where `v` is outside a range of length `n`.
pub open spec fn within(v: int, n: int) -> int {
    if v < n {
        v
    } else if n > 0 {
        n - 1
    } else {
        0
    }
}

/// A one-based coordinate parameter, as an index; it defaults to the first position.
pub open spec fn coordinate(params: Seq<nat>, k: int) -> int {
    if k < params.len() && params[k] > 0 {
        params[k] - 1
    } else {
        0
    }
}

/// The cell that a byte of text becomes.
pub open spec fn text_cell(byte: u8, pen: Pen) -> CellView {
    CellView { text: seq![byte as char], wide: false, style: pen_style(pen) }
}

/// Every cell of a row from position `from` on is blanked.
pub open spec fn blank_from(row: Seq<CellView>, from: int) -> Seq<CellView> {
    Seq::new(
        row.len(),
        |x: int|
            if x < from {
                row[x]
            } else {
                snapshot::blank_cell()
            },
    )
}

impl Canvas {
    /// One line down; the last line stays.
    pub open spec fn line_down(self) -> Canvas {
        Canvas { y: within(self.y + 1, self.rows_count), ..self }
    }

    /// Puts a byte of text at the cursor, if the cursor is on the grid.
    pub open spec fn put(self, byte: u8) -> Canvas {
        if self.y < self.rows.len() && self.x < self.cols && self.x < self.rows[self.y].len() {
            Canvas {
                rows: self.rows.update(
                    self.y,
                    self.rows[self.y].update(self.x, text_cell(byte, self.pen)),
                ),
                ..self
            }
        } else {
            self
        }
    }

    /// The cursor steps to the right; at the end of a line it goes on with the next.
    pub open spec fn advance(self) -> Canvas {
        if self.x + 1 >= self.cols {
            Canvas { x: 0, ..self.line_down() }
        } else {
            Canvas { x: self.x + 1, ..self }
        }
    }

    /// Where erasing a line starts: at the front for the whole line, else at the cursor.
    pub open spec fn erased_from(self, params: Seq<nat>) -> int {
        if params.len() > 0 && params[0] == 2 {
            0
        } else {
            self.x
        }
    }

    /// A control sequence.
    pub open spec fn control(self, params: Seq<nat>, last: u8) -> Canvas {
        if last == 72 || last == 102 {
            Canvas {
                y: within(coordinate(params, 0), self.rows_count),
                x: within(coordinate(params, 1), self.cols),
                ..self
            }
        } else if last == 109 {
            Canvas {
                pen: if params.len() == 0 {
                    plain_pen()
                } else {
                    render(self.pen, params)
                },
                ..self
            }
        } else if last == 74 {
            if params.len() > 0 && params[0] == 2 {
                Canvas {
                    rows: Seq::new(self.rows.len(), |y: int| blank_from(self.rows[y], 0)),
                    x: 0,
                    y: 0,
                    ..self
                }
            } else {
                self
            }
        } else if last == 75 && self.y < self.rows.len() {
            Canvas {
                rows: self.rows.update(
                    self.y,
                    blank_from(self.rows[self.y], self.erased_from(params)),
                ),
                ..self
            }
        } else {
            self
        }
    }

    /// The effect of one token.
    pub open spec fn act(self, token: Token) -> Canvas {
        match token {
            Token::Control { params, last } => self.control(params, last),
            Token::Skipped => self,
            Token::Return => Canvas { x: 0, ..self },
            Token::Newline => self.line_down(),
            Token::Back => Canvas {
                x: if self.x > 0 {
                    self.x - 1
                } else {
                    0
                },
                ..self
            },
            Token::Text { byte } => self.put(byte).advance(),
        }
    }

    /// The effect of a byte stream.
    #[verifier::opaque]
    pub open spec fn feed(self, data: Seq<u8>) -> Canvas
        decreases data.len(),
    {
        if data.len() == 0 {
            self
        } else {
            let (token, len) = scan(data);
            if 0 < len <= data.len() {
                self.act(token).feed(data.skip(len))
            } else {
                self
            }
        }
    }
}

/// A screen opened for writing: the pen starts plain.
pub open spec fn canvas_of(screen: ScreenView) -> Canvas {
    Canvas {
        rows: screen.rows,
        cols: screen.cols as int,
        rows_count: screen.rows_count as int,
        x: screen.cursor_x as int,
        y: screen.cursor_y as int,
        pen: plain_pen(),
    }
}

/// The screen after a byte stream was written to it.
pub open spec fn written_to(screen: ScreenView, data: Seq<u8>) -> ScreenView {
    let canvas = canvas_of(screen).feed(data);
    ScreenView {
        rows: canvas.rows,
        cursor_x: canvas.x as u16,
        cursor_y: canvas.y as u16,
        ..screen
    }
}

/// The lengths of digit and parameter runs.
pub proof fn run_lengths(data: Seq<u8>)
    ensures
        0 <= digits_len(data) <= data.len(),
        0 <= params_len(data) <= data.len(),
        forall|i: int| 0 <= i < digits_len(data) ==> is_digit(#[trigger] data[i]),
        forall|i: int| 0 <= i < params_len(data) ==> is_param_byte(#[trigger] data[i]),
        digits_len(data) < data.len() ==> !is_digit(data[digits_len(data)]),
        params_len(data) < data.len() ==> !is_param_byte(data[params_len(data)]),
    decreases data.len(),
{
    if data.len() > 0 {
        let rest = data.drop_first();
        run_lengths(rest);
        assert(forall|i: int| 0 <= i < rest.len() ==> data[i + 1] == #[trigger] rest[i]);
        assert forall|i: int| 0 <= i < digits_len(data) implies is_digit(#[trigger] data[i]) by {
            if i > 0 {
                assert(data[i] == rest[i - 1]);
            }
        }
        assert forall|i: int| 0 <= i < params_len(data) implies is_param_byte(
            #[trigger] data[i],
        ) by {
            if i > 0 {
                assert(data[i] == rest[i - 1]);
            }
        }
    }
}

/// A run of digits that ends at `k` has length `k`.
pub proof fn digits_len_is(data: Seq<u8>, k: int)
    requires
        0 <= k <= data.len(),
        forall|i: int| 0 <= i < k ==> is_digit(#[trigger] data[i]),
        k < data.len() ==> !is_digit(data[k]),
    ensures
        digits_len(data) == k,
{
    run_lengths(data);
}

/// A run of parameter bytes that ends at `k` has length `k`.
pub proof fn params_len_is(data: Seq<u8>, k: int)
    requires
        0 <= k <= data.len(),
        forall|i: int| 0 <= i < k ==> is_param_byte(#[trigger] data[i]),
        k < data.len() ==> !is_param_byte(data[k]),
    ensures
        params_len(data) == k,
{
    run_lengths(data);
}

/// Scanning takes at least one byte and no more than there are.
pub proof fn scan_progress(data: Seq<u8>)
    requires
        data.len() > 0,
    ensures
        0 < scan(data).1 <= data.len(),
{
    if data[0] == 0x1b && data.len() > 1 && data[1] == 91 {
        run_lengths(data.skip(2));
        let j = 2 + params_len(data.skip(2));
        if j < data.len() {
            run_lengths(data.skip(j + 1));
        }
    }
}

/// Where text goes next on a screen, and in which style.
struct Cursor {
    x: usize,
    y: usize,
    pen: Pen,
}

/// A screen with a cursor on it.
spec fn canvas_at(screen: ScreenView, cursor: Cursor) -> Canvas {
    Canvas {
        rows: screen.rows,
        cols: screen.cols as int,
        rows_count: screen.rows_count as int,
        x: cursor.x as int,
        y: cursor.y as int,
        pen: cursor.pen,
    }
}

/// Two screens that differ in their cells only.
spec fn same_frame(a: ScreenView, b: ScreenView) -> bool {
    a == (ScreenView { rows: a.rows, ..b })
}

/// The values of a list of parameters.
spec fn values(params: Seq<u16>) -> Seq<nat> {
    Seq::new(params.len(), |i: int| params[i] as nat)
}

fn is_digit_byte(b: u8) -> (res: bool)
    ensures
        res == is_digit(b),
{
    48 <= b && b <= 57
}

/// The end of the run of digits that starts at `start`.
fn skip_digits(data: &[u8], start: usize) -> (end: usize)
    requires
        start <= data@.len(),
    ensures
        start <= end <= data@.len(),
        end == start + digits_len(data@.skip(start as int)),
{
    let mut i: usize = start;
    while i < data.len() && is_digit_byte(data[i])
        invariant
            start <= i <= data@.len(),
            forall|k: int| start <= k < i ==> is_digit(#[trigger] data@[k]),
        decreases data@.len() - i,
    {
        i = i + 1;
    }
    proof {
        digits_len_is(data@.skip(start as int), i - start);
    }
    i
}

/// Reads the parameters that start at `start`; gives their values and where they end.
fn read_params(data: &[u8], start: usize) -> (res: (Vec<u16>, usize))
    requires
        start <= data@.len(),
    ensures
        start <= res.1 <= data@.len(),
        res.1 == start + params_len(data@.skip(start as int)),
        values(res.0@) == params_of(data@.subrange(start as int, res.1 as int)),
{
    let ghost e = start + params_len(data@.skip(start as int));
    let ghost body = data@.subrange(start as int, e);
    proof {
        run_lengths(data@.skip(start as int));
        assert forall|k: int| start <= k < e implies is_param_byte(#[trigger] data@[k]) by {
            assert(data@[k] == data@.skip(start as int)[k - start]);
        }
        if e < data@.len() {
            assert(data@[e] == data@.skip(start as int)[e - start]);
        }
    }
    let mut params: Vec<u16> = Vec::new();
    let mut value: u32 = 0;
    let mut p: usize = start;
    let mut i: usize = start;
    assert(data@.subrange(start as int, start as int) =~= Seq::<u8>::empty());
    assert(values(params@) + params_of(data@.subrange(p as int, e)) =~= params_of(body));
    while i < data.len() && (is_digit_byte(data[i]) || data[i] == 59)
        invariant
            start <= p <= i <= e <= data@.len(),
            body == data@.subrange(start as int, e),
            forall|k: int| start <= k < e ==> is_param_byte(#[trigger] data@[k]),
            e < data@.len() ==> !is_param_byte(data@[e]),
            forall|k: int| p <= k < i ==> is_digit(#[trigger] data@[k]),
            value <= 65536,
            value == number(data@.subrange(p as int, i as int)) || value == 65536 && number(
                data@.subrange(p as int, i as int),
            ) > 65535,
            values(params@) + params_of(data@.subrange(p as int, e)) == params_of(body),
        decreases data@.len() - i,
    {
        if data[i] == 59 {
            let ghost piece = data@.subrange(p as int, i as int);
            let ghost tail = data@.subrange(p as int, e);
            let ghost before = params@;
            proof {
                digits_len_is(tail, i - p);
                assert(tail.take(i - p) =~= piece);
                assert(tail.skip(i - p + 1) =~= data@.subrange(i + 1, e));
            }
            params.push(
                if value <= 65535 {
                    value as u16
                } else {
                    0
                },
            );
            value = 0;
            p = i + 1;
            proof {
                assert(values(params@) =~= values(before) + seq![param_value(piece)]);
                assert(data@.subrange(i + 1, i + 1) =~= Seq::<u8>::empty());
                assert(values(params@) + params_of(data@.subrange(p as int, e)) =~= values(before)
                    + params_of(tail));
            }
        } else {
            proof {
                assert(data@.subrange(p as int, i + 1).drop_last() =~= data@.subrange(
                    p as int,
                    i as int,
                ));
            }
            if value <= 65535 {
                value = value * 10 + (data[i] - 48) as u32;
                if value > 65535 {
                    value = 65536;
                }
            }
        }
        i = i + 1;
    }
    assert(i == e);
    if p < i {
        let ghost tail = data@.subrange(p as int, e);
        let ghost before = params@;
        proof {
            digits_len_is(tail, e - p);
        }
        params.push(
            if value <= 65535 {
                value as u16
            } else {
                0
            },
        );
        assert(values(params@) =~= values(before) + params_of(tail));
    } else {
        assert(values(params@) =~= params_of(body));
    }
    (params, i)
}

fn channel_of(params: &Vec<u16>, k: usize) -> (res: u8)
    ensures
        res == channel(values(params@), k as int),
{
    if k < params.len() && params[k] <= 255 {
        params[k] as u8
    } else {
        0
    }
}

/// Graphic rendition: the parameters act on the pen one after the other.
fn render_params(pen: Pen, params: &Vec<u16>) -> (res: Pen)
    ensures
        res == render(pen, values(params@)),
{
    reveal(render);
    let ghost all = values(params@);
    let mut cur = pen;
    let mut k: usize = 0;
    assert(all.skip(0) =~= all);
    while k < params.len()
        invariant
            k <= params@.len(),
            all == values(params@),
            render(pen, all) == render(cur, all.skip(k as int)),
        decreases params@.len() - k,
    {
        reveal(render);
        let p: u16 = params[k];
        let left: usize = params.len() - k;
        let ghost rest = all.skip(k as int);
        let color_args: usize = if left >= 3 && params[k + 1] == 5 {
            3
        } else if left >= 2 && params[k + 1] == 2 {
            if left < 5 {
                left
            } else {
                5
            }
        } else {
            0
        };
        assert(left >= 2 ==> rest[1] == params@[k + 1] as nat);
        assert(color_args == color_len(rest));
        if (p == 38 || p == 48) && color_args > 0 {
            let color = if params[k + 1] == 5 {
                StyleColor::Palette(channel_of(params, k + 2))
            } else if color_args == left && left < 5 {
                StyleColor::Rgb(
                    RgbColor {
                        r: if left > 2 {
                            channel_of(params, k + 2)
                        } else {
                            0
                        },
                        g: if left > 3 {
                            channel_of(params, k + 3)
                        } else {
                            0
                        },
                        b: 0,
                    },
                )
            } else {
                StyleColor::Rgb(
                    RgbColor {
                        r: channel_of(params, k + 2),
                        g: channel_of(params, k + 3),
                        b: channel_of(params, k + 4),
                    },
                )
            };
            assert(color == color_value(rest));
            if p == 38 {
                cur.fg = color;
            } else {
                cur.bg = color;
            }
            assert(rest.skip(color_args as int) =~= all.skip(k + color_args));
            k = k + color_args;
        } else {
            if p == 0 {
                cur =
                Pen {
                    fg: StyleColor::Default,
                    bg: StyleColor::Default,
                    bold: false,
                    italic: false,
                    underline: false,
                };
            } else if p == 1 {
                cur.bold = true;
            } else if p == 3 {
                cur.italic = true;
            } else if p == 4 {
                cur.underline = true;
            } else if p == 22 {
                cur.bold = false;
            } else if p == 23 {
                cur.italic = false;
            } else if p == 24 {
                cur.underline = false;
            }
            assert(rest.drop_first() =~= all.skip(k + 1));
            k = k + 1;
        }
    }
    cur
}

fn clamp_index(v: usize, n: u16) -> (res: usize)
    ensures
        res == within(v as int, n as int),
{
    if v < n as usize {
        v
    } else if n > 0 {
        n as usize - 1
    } else {
        0
    }
}

fn coordinate_of(params: &Vec<u16>, k: usize) -> (res: usize)
    ensures
        res == coordinate(values(params@), k as int),
{
    if k < params.len() && params[k] > 0 {
        params[k] as usize - 1
    } else {
        0
    }
}

/// Blanks the cells of row `y` from position `from` on.
fn erase_from(snap: &mut ScreenSnapshot, y: usize, from: usize)
    requires
        y < old(snap)@.rows.len(),
    ensures
        final(snap)@.rows == old(snap)@.rows.update(
            y as int,
            blank_from(old(snap)@.rows[y as int], from as int),
        ),
        same_frame(final(snap)@, old(snap)@),
{
    let ghost all = snap@.rows;
    let ghost row = all[y as int];
    let mut x: usize = from;
    let n: usize = snap.rows[y].len();
    while x < n
        invariant
            y < snap.rows@.len(),
            n == snap.rows@[y as int]@.len(),
            n == row.len(),
            from <= x,
            row == all[y as int],
            same_frame(snap@, old(snap)@),
            snap@.rows.len() == all.len(),
            forall|k: int| 0 <= k < all.len() && k != y ==> #[trigger] snap@.rows[k] == all[k],
            forall|k: int|
                0 <= k < n ==> (#[trigger] snap.rows@[y as int]@[k])@ == if from <= k < x {
                    snapshot::blank_cell()
                } else {
                    row[k]
                },
        decreases n - x,
    {
        let ghost before = *snap;
        snap.rows[y][x] = CellData::empty();
        assert forall|k: int| 0 <= k < all.len() && k != y implies #[trigger] snap@.rows[k]
            == all[k] by {
            assert(before@.rows[k] == all[k]);
            assert(snap.rows@[k] == before.rows@[k]);
        }
        x = x + 1;
    }
    assert(snapshot::row_view(snap.rows@[y as int]@) =~= blank_from(row, from as int));
    assert(snap@.rows =~= all.update(y as int, blank_from(row, from as int)));
}

/// Blanks every cell of the screen.
fn erase_all(snap: &mut ScreenSnapshot)
    ensures
        final(snap)@.rows == Seq::new(
            old(snap)@.rows.len(),
            |y: int| blank_from(old(snap)@.rows[y], 0),
        ),
        same_frame(final(snap)@, old(snap)@),
{
    let ghost all = snap@.rows;
    let mut y: usize = 0;
    let n: usize = snap.rows.len();
    while y < n
        invariant
            y <= n,
            n == snap@.rows.len(),
            n == all.len(),
            same_frame(snap@, old(snap)@),
            forall|k: int|
                0 <= k < n ==> #[trigger] snap@.rows[k] == if k < y {
                    blank_from(all[k], 0)
                } else {
                    all[k]
                },
        decreases n - y,
    {
        erase_from(snap, y, 0);
        y = y + 1;
    }
    assert(snap@.rows =~= Seq::new(all.len(), |y: int| blank_from(all[y], 0)));
}

/// Puts a byte of text at the cursor, if the cursor is on the grid.
fn put_byte(snap: &mut ScreenSnapshot, cursor: &Cursor, byte: u8)
    ensures
        canvas_at(final(snap)@, *cursor) == canvas_at(old(snap)@, *cursor).put(byte),
        same_frame(final(snap)@, old(snap)@),
{
    if cursor.y < snap.rows.len() && cursor.x < snap.cols as usize && cursor.x
        < snap.rows[cursor.y].len() {
        let mut text = String::new();
        text.push(byte as char);
        let style = CellStyle {
            fg: cursor.pen.fg,
            bg: cursor.pen.bg,
            bold: cursor.pen.bold,
            italic: cursor.pen.italic,
            faint: false,
            blink: false,
            inverse: false,
            invisible: false,
            strikethrough: false,
            overline: false,
            underline: cursor.pen.underline,
        };
        let cell = CellData { text, wide: false, style };
        assert(cell@.text =~= seq![byte as char]);
        let ghost c = cell@;
        snap.rows[cursor.y][cursor.x] = cell;
        assert(snap@.rows[cursor.y as int] =~= old(snap)@.rows[cursor.y as int].update(
            cursor.x as int,
            c,
        ));
        assert(snap@.rows =~= old(snap)@.rows.update(
            cursor.y as int,
            old(snap)@.rows[cursor.y as int].update(cursor.x as int, c),
        ));
    }
}

/// Carries out a control sequence.
fn act_control(snap: &mut ScreenSnapshot, cursor: &mut Cursor, params: &Vec<u16>, last: u8)
    ensures
        canvas_at(final(snap)@, *final(cursor)) == canvas_at(old(snap)@, *old(cursor)).control(
            values(params@),
            last,
        ),
        same_frame(final(snap)@, old(snap)@),
{
    if last == 72 || last == 102 {
        cursor.y = clamp_index(coordinate_of(params, 0), snap.rows_count);
        cursor.x = clamp_index(coordinate_of(params, 1), snap.cols);
    } else if last == 109 {
        if params.len() == 0 {
            cursor.pen =
            Pen {
                fg: StyleColor::Default,
                bg: StyleColor::Default,
                bold: false,
                italic: false,
                underline: false,
            };
        } else {
            cursor.pen = render_params(cursor.pen, params);
        }
    } else if last == 74 {
        if params.len() > 0 && params[0] == 2 {
            erase_all(snap);
            cursor.x = 0;
            cursor.y = 0;
        }
    } else if last == 75 && cursor.y < snap.rows.len() {
        let from: usize = if params.len() > 0 && params[0] == 2 {
            0
        } else {
            cursor.x
        };
        erase_from(snap, cursor.y, from);
    }
}

/// Applies a byte stream to a screen.
pub fn apply_vt_to_snapshot(snap: &mut ScreenSnapshot, data: &[u8])
    ensures
        final(snap)@ == written_to(old(snap)@, data@),
{
    let mut cursor = Cursor {
        x: snap.cursor_x as usize,
        y: snap.cursor_y as usize,
        pen: Pen {
            fg: StyleColor::Default,
            bg: StyleColor::Default,
            bold: false,
            italic: false,
            underline: false,
        },
    };
    let mut i: usize = 0;
    assert(data@.skip(0) =~= data@);
    reveal(Canvas::feed);
    while i < data.len()
        invariant
            i <= data@.len(),
            cursor.x <= u16::MAX,
            cursor.y <= u16::MAX,
            same_frame(snap@, old(snap)@),
            canvas_of(old(snap)@).feed(data@) == canvas_at(snap@, cursor).feed(
                data@.skip(i as int),
            ),
        decreases data@.len() - i,
    {
        let ghost rest = data@.skip(i as int);
        let ghost at = canvas_at(snap@, cursor);
        let ghost from = i as int;
        proof {
            scan_progress(rest);
            reveal(Canvas::feed);
        }
        if data[i] == 0x1b && i + 1 < data.len() && data[i + 1] == 91 {
            let (params, j) = read_params(data, i + 2);
            proof {
                assert(rest.skip(2) =~= data@.skip(i + 2));
                assert(rest.subrange(2, j - i) =~= data@.subrange(i + 2, j as int));
            }
            if j < data.len() && data[j] == 63 {
                let mut k: usize = skip_digits(data, j + 1);
                assert(rest.skip(j - i + 1) =~= data@.skip(j + 1));
                if k < data.len() {
                    k = k + 1;
                }
                i = k;
            } else if j < data.len() {
                act_control(snap, &mut cursor, &params, data[j]);
                i = j + 1;
            } else {
                i = j;
            }
        } else if data[i] == 13 {
            cursor.x = 0;
            i = i + 1;
        } else if data[i] == 10 {
            cursor.y = clamp_index(cursor.y + 1, snap.rows_count);
            i = i + 1;
        } else if data[i] == 8 {
            if cursor.x > 0 {
                cursor.x = cursor.x - 1;
            }
            i = i + 1;
        } else {
            put_byte(snap, &cursor, data[i]);
            if cursor.x + 1 >= snap.cols as usize {
                cursor.x = 0;
                cursor.y = clamp_index(cursor.y + 1, snap.rows_count);
            } else {
                cursor.x = cursor.x + 1;
            }
            i = i + 1;
        }
        assert(i == from + scan(rest).1);
        assert(canvas_at(snap@, cursor) == at.act(scan(rest).0));
        assert(rest.skip(scan(rest).1) =~= data@.skip(i as int));
    }
    snap.cursor_x = cursor.x as u16;
    snap.cursor_y = cursor.y as u16;
    assert(snap@ =~= written_to(old(snap)@, data@));
}

} // verus!
