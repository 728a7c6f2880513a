//! A model of the terminals that a screen update is written to.
//!
//! A faithful one does what the terminal of a user does. The other one does what the library's own
//! small terminal does, which leaves some of that out.

use crate::statesync::vt;
use crate::statesync::vt::Canvas;
use crate::statesync::vt::Pen;
use crate::statesync::vt::Token;
use crate::terminal::snapshot;
use crate::terminal::snapshot::CellStyle;
use crate::terminal::snapshot::CellView;
use vstd::prelude::*;

verus! {

/// A terminal: its cells, where the next text goes and in which style, and whether the cursor is seen.
#[verifier::ext_equal]
pub struct Monitor {
    pub rows: Seq<Seq<CellView>>,
    pub cols: int,
    pub rows_count: int,
    pub x: int,
    pub y: int,
    pub pen: CellStyle,
    pub visible: bool,
    /// Whether the last column was just written: the next text goes to the next line.
    pub late: bool,
    /// Whether the terminal shows every attribute, shows and hides the cursor, goes to the next line
    /// only when something is written there, and scrolls at its end.
    pub faithful: bool,
}

/// The part of a style that a terminal shows.
pub open spec fn ink(faithful: bool, style: CellStyle) -> CellStyle {
    if faithful {
        style
    } else {
        vt::pen_style(vt::pen_of(style))
    }
}

/// One graphic rendition parameter other than a color.
pub open spec fn attribute(faithful: bool, pen: CellStyle, p: nat) -> CellStyle {
    if !faithful {
        vt::pen_style(vt::set_attribute(vt::pen_of(pen), p))
    } else if p == 0 {
        snapshot::plain_style()
    } else if p == 1 {
        CellStyle { bold: true, ..pen }
    } else if p == 2 {
        CellStyle { faint: true, ..pen }
    } else if p == 3 {
        CellStyle { italic: true, ..pen }
    } else if p == 4 {
        CellStyle { underline: true, ..pen }
    } else if p == 5 {
        CellStyle { blink: true, ..pen }
    } else if p == 7 {
        CellStyle { inverse: true, ..pen }
    } else if p == 8 {
        CellStyle { invisible: true, ..pen }
    } else if p == 9 {
        CellStyle { strikethrough: true, ..pen }
    } else if p == 22 {
        CellStyle { bold: false, faint: false, ..pen }
    } else if p == 23 {
        CellStyle { italic: false, ..pen }
    } else if p == 24 {
        CellStyle { underline: false, ..pen }
    } else if p == 25 {
        CellStyle { blink: false, ..pen }
    } else if p == 27 {
        CellStyle { inverse: false, ..pen }
    } else if p == 28 {
        CellStyle { invisible: false, ..pen }
    } else if p == 29 {
        CellStyle { strikethrough: false, ..pen }
    } else if p == 53 {
        CellStyle { overline: true, ..pen }
    } else if p == 55 {
        CellStyle { overline: false, ..pen }
    } else {
        pen
    }
}

/// Graphic rendition: the parameters act on the pen one after the other.
#[verifier::opaque]
pub open spec fn render(faithful: bool, pen: CellStyle, params: Seq<nat>) -> CellStyle
    decreases params.len(),
{
    if params.len() == 0 {
        pen
    } else if params[0] == 38 && vt::color_len(params) > 0 {
        render(
            faithful,
            CellStyle { fg: vt::color_value(params), ..pen },
            params.skip(vt::color_len(params)),
        )
    } else if params[0] == 48 && vt::color_len(params) > 0 {
        render(
            faithful,
            CellStyle { bg: vt::color_value(params), ..pen },
            params.skip(vt::color_len(params)),
        )
    } else {
        render(faithful, attribute(faithful, pen, params[0]), params.drop_first())
    }
}

/// The bytes that show or hide the cursor.
pub open spec fn sight_bytes(on: bool) -> Seq<u8> {
    seq![
        0x1bu8,
        91u8,
        63u8,
        50u8,
        53u8,
        if on {
            104u8
        } else {
            108u8
        },
    ]
}

impl Monitor {
    /// One line down: the last line stays, or the screen scrolls.
    pub open spec fn line_down(self) -> Monitor {
        if self.faithful && self.y + 1 >= self.rows_count && self.rows.len() > 0 {
            Monitor {
                rows: self.rows.drop_first().push(
                    Seq::new(self.cols as nat, |x: int| snapshot::blank_cell()),
                ),
                late: false,
                ..self
            }
        } else {
            Monitor { y: vt::within(self.y + 1, self.rows_count), late: false, ..self }
        }
    }

    /// The start of the next line, if that is where the next text goes.
    pub open spec fn settled(self) -> Monitor {
        if self.late {
            Monitor { x: 0, ..self.line_down() }
        } else {
            self
        }
    }

    /// Puts a cell at the cursor, if the cursor is on the grid.
    pub open spec fn put(self, cell: CellView) -> Monitor {
        if self.y < self.rows.len() && self.x < self.cols && self.x < self.rows[self.y].len() {
            Monitor {
                rows: self.rows.update(self.y, self.rows[self.y].update(self.x, cell)),
                ..self
            }
        } else {
            self
        }
    }

    /// The cursor steps to the right. At the end of a line it goes on with the next: at once, or when
    /// there is something to write.
    pub open spec fn stepped(self) -> Monitor {
        if self.x + 1 < self.cols {
            Monitor { x: self.x + 1, ..self }
        } else if self.faithful {
            Monitor { late: true, ..self }
        } else {
            Monitor { x: 0, ..self.line_down() }
        }
    }

    /// A control sequence.
    pub open spec fn control(self, params: Seq<nat>, last: u8) -> Monitor {
        if last == 72 || last == 102 {
            Monitor {
                y: vt::within(vt::coordinate(params, 0), self.rows_count),
                x: vt::within(vt::coordinate(params, 1), self.cols),
                late: false,
                ..self
            }
        } else if last == 109 {
            Monitor {
                pen: if params.len() == 0 {
                    snapshot::plain_style()
                } else {
                    render(self.faithful, self.pen, params)
                },
                ..self
            }
        } else if last == 74 && params.len() > 0 && params[0] == 2 {
            let blank = Seq::new(self.rows.len(), |y: int| vt::blank_from(self.rows[y], 0));
            if self.faithful {
                Monitor { rows: blank, ..self }
            } else {
                Monitor { rows: blank, x: 0, y: 0, ..self }
            }
        } else if last == 75 && self.y < self.rows.len() {
            let from = if params.len() > 0 && params[0] == 2 {
                0
            } else {
                self.x
            };
            Monitor {
                rows: self.rows.update(self.y, vt::blank_from(self.rows[self.y], from)),
                ..self
            }
        } else {
            self
        }
    }

    /// The effect of one token.
    pub open spec fn act(self, token: Token) -> Monitor {
        match token {
            Token::Control { params, last } => self.control(params, last),
            Token::Skipped => self,
            Token::Return => Monitor { x: 0, late: false, ..self },
            Token::Newline => self.line_down(),
            Token::Back => Monitor {
                x: if self.x > 0 {
                    self.x - 1
                } else {
                    0
                },
                late: false,
                ..self
            },
            Token::Text { byte } => {
                let at = self.settled();
                at.put(
                    CellView { text: seq![byte as char], wide: false, style: at.pen },
                ).stepped()
            },
        }
    }

    /// The cursor shown or hidden, where the bytes start with what does so.
    pub open spec fn sighted(self, data: Seq<u8>) -> Monitor {
        if !self.faithful || data.len() < 6 {
            self
        } else if data.take(6) == sight_bytes(true) {
            Monitor { visible: true, ..self }
        } else if data.take(6) == sight_bytes(false) {
            Monitor { visible: false, ..self }
        } else {
            self
        }
    }

    /// The effect of a byte stream.
    #[verifier::opaque]
    pub open spec fn feed(self, data: Seq<u8>) -> Monitor
        decreases data.len(),
    {
        if data.len() == 0 {
            self
        } else {
            let (token, len) = vt::scan(data);
            if 0 < len <= data.len() {
                self.sighted(data).act(token).feed(data.skip(len))
            } else {
                self
            }
        }
    }
}

/// The library's own terminal.
pub open spec fn own(canvas: Canvas, visible: bool) -> Monitor {
    Monitor {
        rows: canvas.rows,
        cols: canvas.cols,
        rows_count: canvas.rows_count,
        x: canvas.x,
        y: canvas.y,
        pen: vt::pen_style(canvas.pen),
        visible,
        late: false,
        faithful: false,
    }
}

proof fn own_render(pen: Pen, params: Seq<nat>)
    ensures
        render(false, vt::pen_style(pen), params) == vt::pen_style(vt::render(pen, params)),
    decreases params.len(),
{
    reveal(render);
    reveal(vt::render);
    if params.len() > 0 {
        let style = vt::pen_style(pen);
        assert(vt::pen_of(style) == pen);
        if params[0] == 38 && vt::color_len(params) > 0 {
            let fg = vt::color_value(params);
            assert(vt::pen_style(Pen { fg, ..pen }) == (CellStyle { fg, ..style }));
            own_render(Pen { fg, ..pen }, params.skip(vt::color_len(params)));
        } else if params[0] == 48 && vt::color_len(params) > 0 {
            let bg = vt::color_value(params);
            assert(vt::pen_style(Pen { bg, ..pen }) == (CellStyle { bg, ..style }));
            own_render(Pen { bg, ..pen }, params.skip(vt::color_len(params)));
        } else {
            own_render(vt::set_attribute(pen, params[0]), params.drop_first());
        }
    }
}

/// The library's own terminal does what this model of it does.
pub proof fn own_feeds(canvas: Canvas, visible: bool, data: Seq<u8>)
    ensures
        own(canvas, visible).feed(data) == own(canvas.feed(data), visible),
    decreases data.len(),
{
    reveal(Monitor::feed);
    reveal(Canvas::feed);
    if data.len() > 0 {
        vt::scan_progress(data);
        let (token, len) = vt::scan(data);
        if let Token::Control { params, last } = token {
            own_render(canvas.pen, params);
        }
        assert(own(canvas, visible).act(token) =~= own(canvas.act(token), visible));
        own_feeds(canvas.act(token), visible, data.skip(len));
    }
}

} // verus!
