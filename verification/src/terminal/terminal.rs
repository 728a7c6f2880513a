//! The terminal that an emulator keeps: its dimensions, its frames, and the picture of what the
//! emulator was read to show.

use crate::terminal::snapshot;
use crate::terminal::snapshot::make_blank_row;
use crate::terminal::snapshot::CellData;
use crate::terminal::snapshot::CellStyle;
use crate::terminal::snapshot::CellView;
use crate::terminal::snapshot::RgbColor;
use crate::terminal::snapshot::ScreenSnapshot;
use crate::terminal::snapshot::ScreenView;
use vstd::prelude::*;

verus! {

/// A cell as an emulator was read to hold it: its characters, and its style if it could be read.
#[derive(Debug)]
pub struct CellReading {
    pub graphemes: Vec<char>,
    pub style: Option<CellStyle>,
}

/// The colors of an emulator: the two defaults and as much of the palette as it told.
#[derive(Debug)]
pub struct ColorReading {
    pub fg: RgbColor,
    pub bg: RgbColor,
    pub palette: Vec<RgbColor>,
}

/// What an emulator was read to show. What could not be read is missing.
#[derive(Debug)]
pub struct Reading {
    pub cursor: Option<(u16, u16)>,
    pub cursor_visible: Option<bool>,
    pub colors: Option<ColorReading>,
    pub rows: Vec<Vec<CellReading>>,
}

/// The cell for a reading.
pub open spec fn pictured_cell(cell: CellReading) -> CellView {
    CellView {
        text: cell.graphemes@,
        wide: false,
        style: match cell.style {
            Some(style) => style,
            None => snapshot::plain_style(),
        },
    }
}

/// The row for a reading, filled up with blank cells.
pub open spec fn pictured_row(row: Seq<CellReading>, cols: nat) -> Seq<CellView> {
    Seq::new(
        if row.len() < cols {
            cols
        } else {
            row.len()
        },
        |x: int|
            if x < row.len() {
                pictured_cell(row[x])
            } else {
                snapshot::blank_cell()
            },
    )
}

/// A coordinate, or the last one in a range.
pub open spec fn at_most_last(v: u16, n: u16) -> u16 {
    if v < n {
        v
    } else if n == 0 {
        0
    } else {
        (n - 1) as u16
    }
}

/// Black.
pub open spec fn black() -> RgbColor {
    RgbColor { r: 0, g: 0, b: 0 }
}

/// The palette of which the first colors are told; the others are black.
pub open spec fn filled_palette(palette: Seq<RgbColor>) -> Seq<RgbColor> {
    Seq::new(
        256,
        |i: int|
            if i < palette.len() {
                palette[i]
            } else {
                black()
            },
    )
}

/// The screen of the given dimensions that a reading gives: rows that are too many are left out, those
/// that are missing are blank, and the cursor is within the screen.
pub open spec fn pictured(cols: u16, rows: u16, reading: Reading) -> ScreenView {
    ScreenView {
        rows: Seq::new(
            rows as nat,
            |y: int|
                if y < reading.rows@.len() {
                    pictured_row(reading.rows@[y]@, cols as nat)
                } else {
                    snapshot::blank_row(cols as nat)
                },
        ),
        cols,
        rows_count: rows,
        cursor_x: match reading.cursor {
            Some((x, y)) => at_most_last(x, cols),
            None => 0,
        },
        cursor_y: match reading.cursor {
            Some((x, y)) => at_most_last(y, rows),
            None => 0,
        },
        cursor_visible: match reading.cursor_visible {
            Some(visible) => visible,
            None => true,
        },
        fg: match reading.colors {
            Some(colors) => colors.fg,
            None => RgbColor { r: 255, g: 255, b: 255 },
        },
        bg: match reading.colors {
            Some(colors) => colors.bg,
            None => black(),
        },
        palette: filled_palette(
            match reading.colors {
                Some(colors) => colors.palette@,
                None => seq![],
            },
        ),
    }
}

/// The cell for a reading.
fn picture_cell(cell: &CellReading) -> (res: CellData)
    ensures
        res@ == pictured_cell(*cell),
{
    let mut text = String::new();
    let mut i: usize = 0;
    assert(text@ =~= cell.graphemes@.take(0));
    while i < cell.graphemes.len()
        invariant
            i <= cell.graphemes@.len(),
            text@ == cell.graphemes@.take(i as int),
        decreases cell.graphemes@.len() - i,
    {
        text.push(cell.graphemes[i]);
        i = i + 1;
        assert(text@ =~= cell.graphemes@.take(i as int));
    }
    assert(text@ =~= cell.graphemes@);
    let style = match cell.style {
        Some(style) => style,
        None => CellStyle::default_style(),
    };
    CellData { text, wide: false, style }
}

/// The row for a reading, filled up with blank cells.
fn picture_row(row: &Vec<CellReading>, cols: usize) -> (res: Vec<CellData>)
    ensures
        snapshot::row_view(res@) == pictured_row(row@, cols as nat),
{
    let mut cells: Vec<CellData> = Vec::new();
    while cells.len() < row.len()
        invariant
            cells@.len() <= row@.len(),
            forall|x: int|
                0 <= x < cells@.len() ==> (#[trigger] cells@[x])@ == pictured_cell(row@[x]),
        decreases row@.len() - cells@.len(),
    {
        let n: usize = cells.len();
        cells.push(picture_cell(&row[n]));
    }
    while cells.len() < cols
        invariant
            row@.len() <= cells@.len(),
            cells@.len() <= cols || cells@.len() == row@.len(),
            forall|x: int|
                0 <= x < cells@.len() ==> (#[trigger] cells@[x])@ == if x < row@.len() {
                    pictured_cell(row@[x])
                } else {
                    snapshot::blank_cell()
                },
        decreases cols - cells@.len(),
    {
        cells.push(CellData::empty());
    }
    assert(snapshot::row_view(cells@) =~= pictured_row(row@, cols as nat));
    cells
}

/// A coordinate, or the last one in a range.
fn clamp_coordinate(v: u16, n: u16) -> (res: u16)
    ensures
        res == at_most_last(v, n),
{
    if v < n {
        v
    } else {
        n.saturating_sub(1)
    }
}

/// The palette of which the first colors are told; the others are black.
fn fill_palette(palette: &Vec<RgbColor>) -> (res: [RgbColor; 256])
    ensures
        res@ == filled_palette(palette@),
{
    let mut res = [RgbColor { r: 0, g: 0, b: 0 };256];
    let mut i: usize = 0;
    while i < palette.len() && i < 256
        invariant
            i <= palette@.len(),
            i <= 256,
            forall|k: int| 0 <= k < i ==> res@[k] == palette@[k],
            forall|k: int| i <= k < 256 ==> res@[k] == black(),
        decreases 256 - i,
    {
        res[i] = palette[i];
        i = i + 1;
    }
    assert(res@ =~= filled_palette(palette@));
    res
}

/// The terminal that an emulator keeps.
#[derive(Debug)]
pub struct MoshTerminal {
    cols: u16,
    rows: u16,
    frame: u64,
}

/// What a terminal holds.
pub struct TerminalView {
    pub cols: u16,
    pub rows: u16,
    pub frame: u64,
}

impl View for MoshTerminal {
    type V = TerminalView;

    closed spec fn view(&self) -> TerminalView {
        TerminalView { cols: self.cols, rows: self.rows, frame: self.frame }
    }
}

impl MoshTerminal {
    /// A terminal with the given dimensions.
    pub fn new(cols: u16, rows: u16) -> (res: Self)
        ensures
            res@ == (TerminalView { cols, rows, frame: 0 }),
    {
        MoshTerminal { cols, rows, frame: 0 }
    }

    /// Changes the dimensions.
    pub fn resize(&mut self, cols: u16, rows: u16)
        ensures
            final(self)@ == (TerminalView { cols, rows, ..old(self)@ }),
    {
        self.cols = cols;
        self.rows = rows;
    }

    /// The dimensions: columns, rows.
    pub fn dimensions(&self) -> (res: (u16, u16))
        ensures
            res == (self@.cols, self@.rows),
    {
        (self.cols, self.rows)
    }

    /// Counts a frame. Gives its number.
    pub fn next_frame(&mut self) -> (res: u64)
        requires
            old(self)@.frame < u64::MAX,
        ensures
            res == old(self)@.frame,
            final(self)@ == (TerminalView { frame: (old(self)@.frame + 1) as u64, ..old(self)@ }),
    {
        let f: u64 = self.frame;
        self.frame = f + 1;
        f
    }

    /// The screen that a reading of the emulator gives.
    pub fn snapshot(&self, reading: &Reading) -> (res: ScreenSnapshot)
        ensures
            res@ == pictured(self@.cols, self@.rows, *reading),
            res@.covers(),
    {
        let cols: usize = self.cols as usize;
        let mut rows: Vec<Vec<CellData>> = Vec::new();
        while rows.len() < self.rows as usize
            invariant
                cols == self.cols,
                rows@.len() <= self.rows,
                forall|y: int|
                    0 <= y < rows@.len() ==> snapshot::row_view((#[trigger] rows@[y])@)
                        == pictured(self.cols, self.rows, *reading).rows[y],
            decreases self.rows - rows@.len(),
        {
            let n: usize = rows.len();
            if n < reading.rows.len() {
                rows.push(picture_row(&reading.rows[n], cols));
            } else {
                rows.push(make_blank_row(cols));
            }
        }
        let (cursor_x, cursor_y) = match reading.cursor {
            Some((x, y)) => (clamp_coordinate(x, self.cols), clamp_coordinate(y, self.rows)),
            None => (0, 0),
        };
        let cursor_visible = match reading.cursor_visible {
            Some(visible) => visible,
            None => true,
        };
        let (fg, bg, palette) = match &reading.colors {
            Some(colors) => (colors.fg, colors.bg, fill_palette(&colors.palette)),
            None => {
                let none: Vec<RgbColor> = Vec::new();
                assert(none@ =~= Seq::<RgbColor>::empty());
                (
                    RgbColor { r: 255, g: 255, b: 255 },
                    RgbColor { r: 0, g: 0, b: 0 },
                    fill_palette(&none),
                )
            },
        };
        let res = ScreenSnapshot {
            rows,
            cols: self.cols,
            rows_count: self.rows,
            cursor_x,
            cursor_y,
            cursor_visible,
            fg,
            bg,
            palette,
        };
        assert(res@ =~= pictured(self@.cols, self@.rows, *reading));
        proof {
            picture_covers(self@.cols, self@.rows, *reading);
        }
        res
    }
}

/// Whatever was read, the screen has a cell at every position, and the cursor is at one of them.
pub proof fn picture_covers(cols: u16, rows: u16, reading: Reading)
    ensures
        pictured(cols, rows, reading).covers(),
        cols > 0 ==> pictured(cols, rows, reading).cursor_x < cols,
        rows > 0 ==> pictured(cols, rows, reading).cursor_y < rows,
{
}

/// A picture shows what was read: each cell its text in its style, or in the default one where none
/// was read, and blank cells where nothing was.
pub proof fn picture_shows_reading(cols: u16, rows: u16, reading: Reading, y: int, x: int)
    requires
        0 <= y < rows,
        0 <= x < cols,
    ensures
        ({
            let cell = pictured(cols, rows, reading).rows[y][x];
            let read = y < reading.rows@.len() && x < reading.rows@[y]@.len();
            &&& !cell.wide
            &&& read ==> cell.text == reading.rows@[y]@[x].graphemes@
            &&& read && reading.rows@[y]@[x].style is Some ==> cell.style
                == reading.rows@[y]@[x].style.unwrap()
            &&& !read ==> cell.text.len() == 0
            &&& !read || reading.rows@[y]@[x].style is None ==> cell.style
                == snapshot::plain_style()
        }),
{
}

/// The cursor of a picture is where it was read, or at the last column or row if it is beyond them;
/// where it was not read it is in the corner, and in sight.
pub proof fn picture_keeps_cursor(cols: u16, rows: u16, reading: Reading)
    requires
        cols > 0,
        rows > 0,
    ensures
        ({
            let p = pictured(cols, rows, reading);
            &&& p.cols == cols
            &&& p.rows_count == rows
            &&& p.rows.len() == rows
            &&& p.cursor_x < cols
            &&& p.cursor_y < rows
            &&& reading.cursor is None ==> p.cursor_x == 0 && p.cursor_y == 0
            &&& reading.cursor is Some && reading.cursor.unwrap().0 < cols ==> p.cursor_x
                == reading.cursor.unwrap().0
            &&& reading.cursor is Some && reading.cursor.unwrap().1 < rows ==> p.cursor_y
                == reading.cursor.unwrap().1
            &&& reading.cursor is Some && reading.cursor.unwrap().0 >= cols ==> p.cursor_x == cols
                - 1
            &&& reading.cursor is Some && reading.cursor.unwrap().1 >= rows ==> p.cursor_y == rows
                - 1
            &&& reading.cursor_visible is None ==> p.cursor_visible
            &&& reading.cursor_visible is Some ==> p.cursor_visible
                == reading.cursor_visible.unwrap()
        }),
{
}

/// The colors of a picture are those that were read; those that were not are white on black, and
/// black in the palette.
pub proof fn picture_keeps_colors(cols: u16, rows: u16, reading: Reading, i: int)
    requires
        0 <= i < 256,
    ensures
        ({
            let p = pictured(cols, rows, reading);
            &&& p.palette.len() == 256
            &&& reading.colors is None ==> p.fg == (RgbColor { r: 255, g: 255, b: 255 }) && p.bg
                == (RgbColor { r: 0, g: 0, b: 0 }) && p.palette[i] == (RgbColor { r: 0, g: 0, b: 0 })
            &&& reading.colors is Some ==> p.fg == reading.colors.unwrap().fg && p.bg
                == reading.colors.unwrap().bg
            &&& reading.colors is Some && i < reading.colors.unwrap().palette@.len()
                ==> p.palette[i] == reading.colors.unwrap().palette@[i]
            &&& reading.colors is Some && i >= reading.colors.unwrap().palette@.len()
                ==> p.palette[i] == (RgbColor { r: 0, g: 0, b: 0 })
        }),
{
}

} // verus!
