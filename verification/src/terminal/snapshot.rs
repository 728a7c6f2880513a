//! A snapshot of a terminal screen: cells with text and style, a cursor, and colors.

use vstd::prelude::*;

verus! {

/// A 24-bit color.
#[derive(Clone, Copy, Debug, PartialEq, Eq, Hash, Structural)]
pub struct RgbColor {
    pub r: u8,
    pub g: u8,
    pub b: u8,
}

/// A color value: the default, RGB, or a 256-color palette index.
#[derive(Clone, Copy, Debug, PartialEq, Eq, Hash, Structural)]
pub enum StyleColor {
    Default,
    Rgb(RgbColor),
    Palette(u8),
}

impl StyleColor {
    /// Whether this is the terminal's default color.
    pub fn is_default(self) -> (res: bool)
        ensures
            res == (self == StyleColor::Default),
    {
        matches!(self, StyleColor::Default)
    }
}

/// Style attributes for a terminal cell.
#[derive(Clone, Copy, Debug, PartialEq, Eq, Hash, Structural)]
pub struct CellStyle {
    pub fg: StyleColor,
    pub bg: StyleColor,
    pub bold: bool,
    pub italic: bool,
    pub faint: bool,
    pub blink: bool,
    pub inverse: bool,
    pub invisible: bool,
    pub strikethrough: bool,
    pub overline: bool,
    pub underline: bool,
}

/// The style with default colors and no attribute set.
pub open spec fn plain_style() -> CellStyle {
    CellStyle {
        fg: StyleColor::Default,
        bg: StyleColor::Default,
        bold: false,
        italic: false,
        faint: false,
        blink: false,
        inverse: false,
        invisible: false,
        strikethrough: false,
        overline: false,
        underline: false,
    }
}

impl CellStyle {
    /// The style with default colors and no attribute set.
    pub fn default_style() -> (res: Self)
        ensures
            res == plain_style(),
    {
        CellStyle {
            fg: StyleColor::Default,
            bg: StyleColor::Default,
            bold: false,
            italic: false,
            faint: false,
            blink: false,
            inverse: false,
            invisible: false,
            strikethrough: false,
            overline: false,
            underline: false,
        }
    }

    /// Whether this is the default style.
    pub fn is_default(&self) -> (res: bool)
        ensures
            res == (*self == plain_style()),
    {
        *self == Self::default_style()
    }
}

/// A single terminal cell with content and style. A cell without text is blank.
#[derive(Debug, PartialEq, Eq)]
pub struct CellData {
    pub text: String,
    pub wide: bool,
    pub style: CellStyle,
}

/// What a cell holds, with its text as a sequence of characters.
pub struct CellView {
    pub text: Seq<char>,
    pub wide: bool,
    pub style: CellStyle,
}

impl View for CellData {
    type V = CellView;

    open spec fn view(&self) -> CellView {
        CellView { text: self.text@, wide: self.wide, style: self.style }
    }
}

/// A cell without text, in the default style.
pub open spec fn blank_cell() -> CellView {
    CellView { text: Seq::empty(), wide: false, style: plain_style() }
}

impl Clone for CellData {
    fn clone(&self) -> (res: Self)
        ensures
            res@ == self@,
    {
        CellData { text: self.text.clone(), wide: self.wide, style: self.style }
    }
}

impl CellData {
    /// A cell without text, in the default style.
    pub fn empty() -> (res: Self)
        ensures
            res@ == blank_cell(),
    {
        let res = CellData {
            text: String::new(),
            wide: false,
            style: CellStyle::default_style(),
        };
        assert(res@.text =~= Seq::<char>::empty());
        res
    }

    /// Whether the cell has no text.
    pub fn is_empty(&self) -> (res: bool)
        ensures
            res == (self@.text.len() == 0),
    {
        self.text.as_str().is_empty()
    }

    /// Whether two cells hold the same text in the same style.
    pub fn same(&self, other: &CellData) -> (res: bool)
        ensures
            res == (self@ == other@),
    {
        self.text == other.text && self.wide == other.wide && self.style == other.style
    }
}

/// A complete snapshot of the terminal screen at a point in time.
#[derive(Debug)]
pub struct ScreenSnapshot {
    pub rows: Vec<Vec<CellData>>,
    pub cols: u16,
    pub rows_count: u16,
    pub cursor_x: u16,
    pub cursor_y: u16,
    pub cursor_visible: bool,
    pub fg: RgbColor,
    pub bg: RgbColor,
    pub palette: [RgbColor; 256],
}

/// What a screen shows, row by row from the top.
#[verifier::ext_equal]
pub struct ScreenView {
    pub rows: Seq<Seq<CellView>>,
    pub cols: u16,
    pub rows_count: u16,
    pub cursor_x: u16,
    pub cursor_y: u16,
    pub cursor_visible: bool,
    pub fg: RgbColor,
    pub bg: RgbColor,
    pub palette: Seq<RgbColor>,
}

/// The cells of a row.
pub open spec fn row_view(row: Seq<CellData>) -> Seq<CellView> {
    Seq::new(row.len(), |x: int| row[x]@)
}

/// The cells of all rows.
pub open spec fn rows_view(rows: Seq<Vec<CellData>>) -> Seq<Seq<CellView>> {
    Seq::new(rows.len(), |y: int| row_view(rows[y]@))
}

impl View for ScreenSnapshot {
    type V = ScreenView;

    open spec fn view(&self) -> ScreenView {
        ScreenView {
            rows: rows_view(self.rows@),
            cols: self.cols,
            rows_count: self.rows_count,
            cursor_x: self.cursor_x,
            cursor_y: self.cursor_y,
            cursor_visible: self.cursor_visible,
            fg: self.fg,
            bg: self.bg,
            palette: self.palette@,
        }
    }
}

impl ScreenView {
    /// The grid has the announced number of rows, each with the announced number of cells.
    pub open spec fn wf(self) -> bool {
        &&& self.rows.len() == self.rows_count
        &&& forall|y: int| 0 <= y < self.rows.len() ==> (#[trigger] self.rows[y]).len() == self.cols
    }
}

/// The sixteen standard colors: eight normal ones, then the same eight in their bright form.
pub open spec fn standard_color(i: int) -> (u8, u8, u8) {
    if i == 0 {
        (0, 0, 0)
    } else if i == 1 {
        (205, 49, 49)
    } else if i == 2 {
        (13, 188, 121)
    } else if i == 3 {
        (229, 229, 16)
    } else if i == 4 {
        (36, 114, 200)
    } else if i == 5 {
        (188, 63, 188)
    } else if i == 6 {
        (17, 168, 205)
    } else if i == 7 {
        (229, 229, 229)
    } else if i == 8 {
        (102, 102, 102)
    } else if i == 9 {
        (241, 76, 76)
    } else if i == 10 {
        (35, 209, 139)
    } else if i == 11 {
        (245, 245, 67)
    } else if i == 12 {
        (59, 142, 234)
    } else if i == 13 {
        (214, 112, 214)
    } else if i == 14 {
        (41, 184, 219)
    } else {
        (255, 255, 255)
    }
}

/// The default color at a palette index: the standard colors, then a cube with six levels per
/// channel, then a ramp of 24 grays.
pub open spec fn palette_color(i: int) -> RgbColor {
    if i < 16 {
        let c = standard_color(i);
        RgbColor { r: c.0, g: c.1, b: c.2 }
    } else if i < 232 {
        let k = i - 16;
        RgbColor { r: (k / 36 * 51) as u8, g: (k / 6 % 6 * 51) as u8, b: (k % 6 * 51) as u8 }
    } else {
        let v = (8 + (i - 232) * 10) as u8;
        RgbColor { r: v, g: v, b: v }
    }
}

/// The default palette.
pub open spec fn default_palette_view() -> Seq<RgbColor> {
    Seq::new(256, |i: int| palette_color(i))
}

/// A blank row of `cols` cells.
pub open spec fn blank_row(cols: nat) -> Seq<CellView> {
    Seq::new(cols, |x: int| blank_cell())
}

/// A blank screen: the cursor visible in the top left corner, white on black.
pub open spec fn blank_screen(cols: u16, rows: u16) -> ScreenView {
    ScreenView {
        rows: Seq::new(rows as nat, |y: int| blank_row(cols as nat)),
        cols,
        rows_count: rows,
        cursor_x: 0,
        cursor_y: 0,
        cursor_visible: true,
        fg: RgbColor { r: 255, g: 255, b: 255 },
        bg: RgbColor { r: 0, g: 0, b: 0 },
        palette: default_palette_view(),
    }
}

/// The default 256-color palette.
pub fn default_palette() -> (palette: [RgbColor; 256])
    ensures
        palette@ == default_palette_view(),
{
    let standard: [(u8, u8, u8); 16] = [
        (0, 0, 0),
        (205, 49, 49),
        (13, 188, 121),
        (229, 229, 16),
        (36, 114, 200),
        (188, 63, 188),
        (17, 168, 205),
        (229, 229, 229),
        (102, 102, 102),
        (241, 76, 76),
        (35, 209, 139),
        (245, 245, 67),
        (59, 142, 234),
        (214, 112, 214),
        (41, 184, 219),
        (255, 255, 255),
    ];
    assert(forall|i: int| 0 <= i < 16 ==> #[trigger] standard[i] == standard_color(i));
    let mut palette = [RgbColor { r: 0, g: 0, b: 0 };256];
    let mut n: usize = 0;
    while n < 256
        invariant
            n <= 256,
            forall|i: int| 0 <= i < 16 ==> #[trigger] standard[i] == standard_color(i),
            forall|i: int| 0 <= i < n ==> #[trigger] palette@[i] == palette_color(i),
        decreases 256 - n,
    {
        if n < 16 {
            let c = standard[n];
            palette[n] = RgbColor { r: c.0, g: c.1, b: c.2 };
        } else if n < 232 {
            let i: usize = n - 16;
            palette[n] =
            RgbColor { r: (i / 36 * 51) as u8, g: (i / 6 % 6 * 51) as u8, b: (i % 6 * 51) as u8 };
        } else {
            let v: u8 = (8 + (n - 232) * 10) as u8;
            palette[n] = RgbColor { r: v, g: v, b: v };
        }
        n = n + 1;
    }
    assert(palette@ =~= default_palette_view());
    palette
}

/// A row of `n` blank cells.
pub(crate) fn make_blank_row(n: usize) -> (row: Vec<CellData>)
    ensures
        row_view(row@) == blank_row(n as nat),
        row@.len() == n,
{
    let mut row: Vec<CellData> = Vec::new();
    while row.len() < n
        invariant
            row@.len() <= n,
            forall|x: int| 0 <= x < row@.len() ==> (#[trigger] row@[x])@ == blank_cell(),
        decreases n - row@.len(),
    {
        row.push(CellData::empty());
    }
    assert(row_view(row@) =~= blank_row(n as nat));
    row
}

/// Copies a row cell by cell.
fn clone_row(row: &Vec<CellData>) -> (res: Vec<CellData>)
    ensures
        row_view(res@) == row_view(row@),
{
    let mut res: Vec<CellData> = Vec::new();
    while res.len() < row.len()
        invariant
            res@.len() <= row@.len(),
            forall|x: int| 0 <= x < res@.len() ==> (#[trigger] res@[x])@ == row@[x]@,
        decreases row@.len() - res@.len(),
    {
        let n: usize = res.len();
        res.push(row[n].clone());
    }
    assert(row_view(res@) =~= row_view(row@));
    res
}

impl Clone for ScreenSnapshot {
    fn clone(&self) -> (res: Self)
        ensures
            res@ == self@,
    {
        let mut rows: Vec<Vec<CellData>> = Vec::new();
        while rows.len() < self.rows.len()
            invariant
                rows@.len() <= self.rows@.len(),
                forall|y: int|
                    0 <= y < rows@.len() ==> row_view((#[trigger] rows@[y])@) == row_view(
                        self.rows@[y]@,
                    ),
            decreases self.rows@.len() - rows@.len(),
        {
            let n: usize = rows.len();
            rows.push(clone_row(&self.rows[n]));
        }
        assert(rows_view(rows@) =~= rows_view(self.rows@));
        ScreenSnapshot {
            rows,
            cols: self.cols,
            rows_count: self.rows_count,
            cursor_x: self.cursor_x,
            cursor_y: self.cursor_y,
            cursor_visible: self.cursor_visible,
            fg: self.fg,
            bg: self.bg,
            palette: self.palette,
        }
    }
}

impl ScreenSnapshot {
    /// Creates a blank snapshot with the given dimensions.
    pub fn new(cols: u16, rows: u16) -> (res: Self)
        ensures
            res@ == blank_screen(cols, rows),
            res@.wf(),
    {
        let mut grid: Vec<Vec<CellData>> = Vec::new();
        while grid.len() < rows as usize
            invariant
                grid@.len() <= rows,
                forall|y: int|
                    0 <= y < grid@.len() ==> row_view((#[trigger] grid@[y])@) == blank_row(
                        cols as nat,
                    ),
            decreases rows - grid@.len(),
        {
            grid.push(make_blank_row(cols as usize));
        }
        let res = ScreenSnapshot {
            rows: grid,
            cols,
            rows_count: rows,
            cursor_x: 0,
            cursor_y: 0,
            cursor_visible: true,
            fg: RgbColor { r: 255, g: 255, b: 255 },
            bg: RgbColor { r: 0, g: 0, b: 0 },
            palette: default_palette(),
        };
        assert(res@ =~= blank_screen(cols, rows));
        res
    }

    /// The cell at column `x` of row `y`, or `None` outside the grid.
    pub fn cell(&self, x: u16, y: u16) -> (res: Option<&CellData>)
        ensures
            match res {
                Some(c) => y < self.rows@.len() && x < self.rows@[y as int]@.len() && *c
                    == self.rows@[y as int]@[x as int],
                None => y >= self.rows@.len() || x >= self.rows@[y as int]@.len(),
            },
    {
        if (y as usize) < self.rows.len() && (x as usize) < self.rows[y as usize].len() {
            Some(&self.rows[y as usize][x as usize])
        } else {
            None
        }
    }

    /// The cell at column `x` of row `y` for writing, or `None` outside the grid.
    pub fn cell_mut(&mut self, x: u16, y: u16) -> (res: Option<&mut CellData>)
        ensures
            match res {
                Some(c) => {
                    &&& y < old(self).rows@.len()
                    &&& x < old(self).rows@[y as int]@.len()
                    &&& *c == old(self).rows@[y as int]@[x as int]
                    &&& final(self).rows@.len() == old(self).rows@.len()
                    &&& final(self).rows@[y as int]@ == old(self).rows@[y as int]@.update(
                        x as int,
                        *final(c),
                    )
                    &&& forall|k: int|
                        0 <= k < old(self).rows@.len() && k != y ==> #[trigger] final(self).rows@[k]
                            == old(self).rows@[k]
                    &&& final(self).cols == old(self).cols
                    &&& final(self).rows_count == old(self).rows_count
                    &&& final(self).cursor_x == old(self).cursor_x
                    &&& final(self).cursor_y == old(self).cursor_y
                    &&& final(self).cursor_visible == old(self).cursor_visible
                    &&& final(self).fg == old(self).fg
                    &&& final(self).bg == old(self).bg
                    &&& final(self).palette == old(self).palette
                },
                None => {
                    &&& y >= old(self).rows@.len() || x >= old(self).rows@[y as int]@.len()
                    &&& *final(self) == *old(self)
                },
            },
    {
        if (y as usize) < self.rows.len() && (x as usize) < self.rows[y as usize].len() {
            Some(&mut self.rows[y as usize][x as usize])
        } else {
            None
        }
    }
}

/// After the standard colors, the palette is a cube of six levels for each channel, from none to all
/// of it in equal steps, and then a ramp of grays, ten apart, from the darkest but black.
pub proof fn palette_is_regular(r: int, g: int, b: int, k: int)
    requires
        0 <= r < 6,
        0 <= g < 6,
        0 <= b < 6,
        0 <= k < 24,
    ensures
        default_palette_view().len() == 256,
        default_palette_view()[16 + 36 * r + 6 * g + b].r == 51 * r,
        default_palette_view()[16 + 36 * r + 6 * g + b].g == 51 * g,
        default_palette_view()[16 + 36 * r + 6 * g + b].b == 51 * b,
        default_palette_view()[232 + k].r == 8 + 10 * k,
        default_palette_view()[232 + k].g == 8 + 10 * k,
        default_palette_view()[232 + k].b == 8 + 10 * k,
{
}

/// A blank screen has nothing in any cell and its cursor in the corner, in sight.
pub proof fn blank_screens_are_blank(cols: u16, rows: u16)
    ensures
        ({
            let s = blank_screen(cols, rows);
            &&& s.cols == cols && s.rows_count == rows && s.rows.len() == rows
            &&& forall|y: int| 0 <= y < rows ==> (#[trigger] s.rows[y]).len() == cols
            &&& forall|y: int, x: int|
                0 <= y < rows && 0 <= x < cols ==> (#[trigger] s.rows[y][x]).text.len() == 0
                    && !s.rows[y][x].wide && s.rows[y][x].style == plain_style()
            &&& s.cursor_x == 0 && s.cursor_y == 0 && s.cursor_visible
            &&& s.fg.r == 255 && s.fg.g == 255 && s.fg.b == 255
            &&& s.bg.r == 0 && s.bg.g == 0 && s.bg.b == 0
        }),
        plain_style().fg == StyleColor::Default,
        plain_style().bg == StyleColor::Default,
        !plain_style().bold && !plain_style().italic && !plain_style().faint,
        !plain_style().blink && !plain_style().inverse && !plain_style().invisible,
        !plain_style().strikethrough && !plain_style().overline && !plain_style().underline,
{
}

/// The sixteen standard colors are eight muted ones, and the same eight brighter.
pub proof fn standard_colors()
    ensures
        ({
            let p = default_palette_view();
            &&& p[0] == (RgbColor { r: 0, g: 0, b: 0 })
            &&& p[1] == (RgbColor { r: 205, g: 49, b: 49 })
            &&& p[2] == (RgbColor { r: 13, g: 188, b: 121 })
            &&& p[3] == (RgbColor { r: 229, g: 229, b: 16 })
            &&& p[4] == (RgbColor { r: 36, g: 114, b: 200 })
            &&& p[5] == (RgbColor { r: 188, g: 63, b: 188 })
            &&& p[6] == (RgbColor { r: 17, g: 168, b: 205 })
            &&& p[7] == (RgbColor { r: 229, g: 229, b: 229 })
            &&& p[8] == (RgbColor { r: 102, g: 102, b: 102 })
            &&& p[9] == (RgbColor { r: 241, g: 76, b: 76 })
            &&& p[10] == (RgbColor { r: 35, g: 209, b: 139 })
            &&& p[11] == (RgbColor { r: 245, g: 245, b: 67 })
            &&& p[12] == (RgbColor { r: 59, g: 142, b: 234 })
            &&& p[13] == (RgbColor { r: 214, g: 112, b: 214 })
            &&& p[14] == (RgbColor { r: 41, g: 184, b: 219 })
            &&& p[15] == (RgbColor { r: 255, g: 255, b: 255 })
        }),
{
}

} // verus!
