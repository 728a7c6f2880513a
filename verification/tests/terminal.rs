use morsh::terminal::display;
use morsh::terminal::escape::style_on;
use morsh::terminal::runs;
use morsh::terminal::snapshot::default_palette;
use morsh::terminal::snapshot::CellData;
use morsh::terminal::snapshot::CellStyle;
use morsh::terminal::snapshot::RgbColor;
use morsh::terminal::snapshot::ScreenSnapshot;
use morsh::terminal::snapshot::StyleColor;
use morsh::terminal::terminal::CellReading;
use morsh::terminal::terminal::ColorReading;
use morsh::terminal::terminal::MoshTerminal;
use morsh::terminal::terminal::Reading;

#[test]
fn full_redraw_basic() {
    let mut snap = ScreenSnapshot::new(10, 2);
    snap.rows[0][0].text = "H".into();
    snap.rows[0][1].text = "i".into();

    let vt = display::DisplayDiff::full_redraw(&snap);
    assert!(vt.contains("\x1b[2J"));
    assert!(vt.contains("\x1b[H"));
    assert!(vt.contains("Hi"));
}

#[test]
fn diff_detects_changes() {
    let mut old = ScreenSnapshot::new(10, 1);
    let mut new = ScreenSnapshot::new(10, 1);
    new.rows[0][0].text = "A".into();

    let vt = display::DisplayDiff::diff(&old, &new);
    assert!(vt.contains("A"));

    old.rows[0][0].text = "A".into();
    let vt = display::DisplayDiff::diff(&old, &new);
    assert!(vt.is_empty() || vt.ends_with("\x1b[1;1H"));
}

#[test]
fn diff_different_size_does_full_redraw() {
    let old = ScreenSnapshot::new(10, 1);
    let new = ScreenSnapshot::new(20, 2);
    let vt = display::DisplayDiff::diff(&old, &new);
    assert!(vt.contains("\x1b[2J"));
}

#[test]
fn style_generation() {
    let style = CellStyle { fg: StyleColor::Palette(1), bold: true, ..CellStyle::default_style() };
    let s = style_on(&style);
    assert!(s.contains("1"));
    assert!(s.contains("38"));
    assert!(s.contains("5"));
}

#[test]
fn diff_resets_style() {
    let mut old = ScreenSnapshot::new(5, 1);
    let mut new = ScreenSnapshot::new(5, 1);
    old.rows[0][0].style.bold = true;
    new.rows[0][0].style.bold = false;
    new.rows[0][0].text = "X".into();

    let vt = display::DisplayDiff::diff(&old, &new);
    assert!(vt.contains("\x1b[0m"));
}

#[test]
fn diff_pen_state_divergence_at_unchanged_position() {
    let mut old = ScreenSnapshot::new(10, 1);
    let mut new = ScreenSnapshot::new(10, 1);

    old.rows[0][0].style.fg = StyleColor::Palette(3);
    old.rows[0][0].text = "$".into();
    new.rows[0][0].style.fg = StyleColor::Palette(3);
    new.rows[0][0].text = "$".into();

    old.rows[0][1].text = " ".into();
    new.rows[0][1].text = " ".into();

    new.rows[0][2].text = "X".into();

    let vt = display::DisplayDiff::diff(&old, &new);

    assert!(vt.contains("\x1b[0m"));
    assert!(vt.contains("X"));
}

#[test]
fn diff_two_changed_runs_with_pen_divergence_between() {
    let mut old = ScreenSnapshot::new(10, 1);
    let mut new = ScreenSnapshot::new(10, 1);

    old.rows[0][0].style.fg = StyleColor::Palette(3);
    old.rows[0][0].text = "H".into();
    old.rows[0][1].style.fg = StyleColor::Palette(3);
    old.rows[0][1].text = "i".into();
    new.rows[0][0].style.fg = StyleColor::Palette(3);
    new.rows[0][0].text = "H".into();
    new.rows[0][1].style.fg = StyleColor::Palette(3);
    new.rows[0][1].text = "i".into();

    old.rows[0][3].style.fg = StyleColor::Palette(3);
    old.rows[0][3].text = "X".into();
    old.rows[0][4].style.fg = StyleColor::Palette(3);
    old.rows[0][4].text = "Y".into();
    new.rows[0][3].style.fg = StyleColor::Default;
    new.rows[0][3].text = "Z".into();
    new.rows[0][4].style.fg = StyleColor::Default;
    new.rows[0][4].text = "W".into();

    let vt = display::DisplayDiff::diff(&old, &new);

    assert!(vt.contains("ZW"));
    assert!(vt.contains("\x1b[0m"));
}

#[test]
fn diff_multiple_rows_each_resets_sgr() {
    let mut old = ScreenSnapshot::new(5, 2);
    let mut new = ScreenSnapshot::new(5, 2);

    old.rows[0][0].style.fg = StyleColor::Palette(1);
    old.rows[0][0].text = "A".into();
    new.rows[0][0].style.fg = StyleColor::Palette(1);
    new.rows[0][0].text = "A".into();

    old.rows[1][0].text = "B".into();
    new.rows[1][0].text = "C".into();

    let vt = display::DisplayDiff::diff(&old, &new);

    assert!(vt.contains("\x1b[0m"));
    assert!(vt.contains("C"));
}

#[test]
fn diff_no_unnecessary_resets_for_identical_rows() {
    let old = ScreenSnapshot::new(5, 2);
    let new = ScreenSnapshot::new(5, 2);

    let vt = display::DisplayDiff::diff(&old, &new);
    assert!(!vt.contains("\x1b[0m"));
}

#[test]
fn display_full_redraw_basic() {
    let mut snap = ScreenSnapshot::new(10, 2);
    snap.rows[0][0].text = "H".into();
    snap.rows[0][1].text = "i".into();

    let vt = runs::DisplayDiff::full_redraw(&snap);
    assert!(vt.contains("\x1b[2J"));
    assert!(vt.contains("\x1b[H"));
    assert!(vt.contains("Hi"));
}

#[test]
fn display_diff_detects_changes() {
    let mut old = ScreenSnapshot::new(10, 1);
    let mut new = ScreenSnapshot::new(10, 1);
    new.rows[0][0].text = "A".into();

    let vt = runs::DisplayDiff::diff(&old, &new);
    assert!(vt.contains("A"));

    old.rows[0][0].text = "A".into();
    let vt = runs::DisplayDiff::diff(&old, &new);
    assert!(vt.is_empty() || vt.ends_with("\x1b[1;1H"));
}

#[test]
fn display_diff_different_size_does_full_redraw() {
    let old = ScreenSnapshot::new(10, 1);
    let new = ScreenSnapshot::new(20, 2);
    let vt = runs::DisplayDiff::diff(&old, &new);
    assert!(vt.contains("\x1b[2J"));
}

#[test]
fn display_style_generation() {
    let style = CellStyle { fg: StyleColor::Palette(1), bold: true, ..CellStyle::default_style() };
    let s = style_on(&style);
    assert!(s.contains("1"));
    assert!(s.contains("38"));
    assert!(s.contains("5"));
    assert_eq!(s, "\x1b[1;38;5;1m");
}

#[test]
fn display_diff_resets_style() {
    let mut old = ScreenSnapshot::new(5, 1);
    let mut new = ScreenSnapshot::new(5, 1);
    old.rows[0][0].style.bold = true;
    new.rows[0][0].style.bold = false;
    new.rows[0][0].text = "X".into();

    let vt = runs::DisplayDiff::diff(&old, &new);
    assert!(vt.contains("\x1b[0m"));
}

#[test]
fn diffs_are_exact() {
    let old = ScreenSnapshot::new(4, 2);
    let mut new = ScreenSnapshot::new(4, 2);
    new.rows[1][2].text = "A".into();
    new.rows[1][2].style.italic = true;
    assert_eq!(
        display::DisplayDiff::diff(&old, &new),
        "\x1b[0m\x1b[2;3H\x1b[0m\x1b[3mA\x1b[2;4H\x1b[0m\x1b[1;1H"
    );
    assert_eq!(
        runs::DisplayDiff::diff(&old, &new),
        "\x1b[2;3H\x1b[3mA\x1b[0m\x1b[1;1H"
    );
}

#[test]
fn styles_are_reset_between_cells() {
    let old = ScreenSnapshot::new(3, 1);
    let mut new = ScreenSnapshot::new(3, 1);
    new.rows[0][0].text = "X".into();
    new.rows[0][0].style.bold = true;
    new.rows[0][1].text = "Y".into();
    assert_eq!(runs::DisplayDiff::diff(&old, &new), "\x1b[1;1H\x1b[1mX\x1b[0mY\x1b[1;1H");
    new.rows[0][1].style.italic = true;
    new.rows[0][2].text = "Z".into();
    new.rows[0][2].style.italic = true;
    assert_eq!(
        runs::DisplayDiff::diff(&old, &new),
        "\x1b[1;1H\x1b[1mX\x1b[0m\x1b[3mYZ\x1b[0m\x1b[1;1H"
    );
    assert_eq!(
        display::DisplayDiff::full_redraw(&new),
        "\x1b[?25l\x1b[2J\x1b[H\x1b[1mX\x1b[0m\x1b[3mYZ\x1b[0m\x1b[1;1H\x1b[?25h"
    );
}

#[test]
fn all_attributes_are_written() {
    let old = ScreenSnapshot::new(2, 1);
    let mut new = ScreenSnapshot::new(2, 1);
    new.rows[0][0].text = "X".into();
    new.rows[0][0].style = CellStyle {
        faint: true,
        blink: true,
        inverse: true,
        invisible: true,
        strikethrough: true,
        overline: true,
        ..CellStyle::default_style()
    };
    new.cursor_visible = false;
    assert_eq!(
        runs::DisplayDiff::diff(&old, &new),
        "\x1b[1;1H\x1b[2;5;7;8;9;53mX\x1b[0m\x1b[1;1H\x1b[?25l"
    );
}

#[test]
fn redrawn_rows_are_lines() {
    let mut snap = ScreenSnapshot::new(2, 2);
    snap.rows[1][0].text = "a".into();
    snap.cursor_y = 1;
    snap.cursor_visible = false;
    assert_eq!(
        display::DisplayDiff::full_redraw(&snap),
        "\x1b[?25l\x1b[2J\x1b[H  \r\na \x1b[2;1H"
    );
}

#[test]
fn covered_cells_leave_the_pen_alone() {
    let mut old = ScreenSnapshot::new(4, 1);
    old.rows[0][0].text = "\u{4e2d}".into();
    old.rows[0][0].wide = true;
    old.rows[0][0].style.bold = true;
    let mut new = old.clone();
    new.rows[0][2].text = "p".into();
    assert_eq!(
        display::DisplayDiff::diff(&old, &new),
        "\x1b[0m\x1b[1;1H\x1b[0m\x1b[1m\x1b[1;3H\x1b[0mp\x1b[1;1H"
    );
}

#[test]
fn style_sequences_are_exact() {
    let style = CellStyle {
        fg: StyleColor::Rgb(RgbColor { r: 1, g: 22, b: 255 }),
        bg: StyleColor::Palette(200),
        underline: true,
        ..CellStyle::default_style()
    };
    assert_eq!(style_on(&style), "\x1b[4;38;2;1;22;255;48;5;200m");
}

#[test]
fn snapshot_cells() {
    let mut snap = ScreenSnapshot::new(3, 2);
    assert!(snap.cell(2, 1).unwrap().is_empty());
    assert!(snap.cell(3, 1).is_none());
    assert!(snap.cell(0, 2).is_none());
    snap.cell_mut(1, 1).unwrap().text = "z".to_string();
    assert_eq!(snap.rows[1][1].text, "z");
    let copy = snap.clone();
    assert!(copy.rows[1][1].same(&snap.rows[1][1]));
    assert!(!copy.rows[1][1].same(&CellData::empty()));
    assert!(CellStyle::default_style().is_default());
    assert!(StyleColor::Default.is_default());
    assert!(!StyleColor::Palette(0).is_default());
}

#[test]
fn palette_is_exact() {
    let p = default_palette();
    assert_eq!(p[1], RgbColor { r: 205, g: 49, b: 49 });
    assert_eq!(p[16], RgbColor { r: 0, g: 0, b: 0 });
    assert_eq!(p[231], RgbColor { r: 255, g: 255, b: 255 });
    assert_eq!(p[232], RgbColor { r: 8, g: 8, b: 8 });
    assert_eq!(p[255], RgbColor { r: 238, g: 238, b: 238 });
}

fn read_cell(text: &str) -> CellReading {
    CellReading { graphemes: text.chars().collect(), style: None }
}

#[test]
fn readings_become_pictures() {
    let mut terminal = MoshTerminal::new(3, 2);
    assert_eq!(terminal.dimensions(), (3, 2));
    assert_eq!(terminal.next_frame(), 0);
    assert_eq!(terminal.next_frame(), 1);
    let bold = CellStyle { bold: true, ..CellStyle::default_style() };
    let reading = Reading {
        cursor: Some((9, 1)),
        cursor_visible: Some(false),
        colors: Some(ColorReading {
            fg: RgbColor { r: 1, g: 2, b: 3 },
            bg: RgbColor { r: 4, g: 5, b: 6 },
            palette: vec![RgbColor { r: 7, g: 7, b: 7 }],
        }),
        rows: vec![
            vec![read_cell("ab"), CellReading { graphemes: vec!['c'], style: Some(bold) }],
            vec![],
            vec![read_cell("lost")],
        ],
    };
    let snap = terminal.snapshot(&reading);
    assert_eq!(snap.rows.len(), 2);
    assert_eq!(snap.rows[0][0].text, "ab");
    assert!(snap.rows[0][1].style.bold);
    assert!(snap.rows[0][2].is_empty());
    assert_eq!(snap.rows[1].len(), 3);
    assert_eq!((snap.cursor_x, snap.cursor_y), (2, 1));
    assert!(!snap.cursor_visible);
    assert_eq!(snap.fg, RgbColor { r: 1, g: 2, b: 3 });
    assert_eq!(snap.palette[0], RgbColor { r: 7, g: 7, b: 7 });
    assert_eq!(snap.palette[1], RgbColor { r: 0, g: 0, b: 0 });
    terminal.resize(1, 4);
    let nothing = Reading { cursor: None, cursor_visible: None, colors: None, rows: vec![] };
    let snap = terminal.snapshot(&nothing);
    assert_eq!((snap.rows.len(), snap.cols, snap.rows_count), (4, 1, 4));
    assert!(snap.cursor_visible);
    assert_eq!(snap.fg, RgbColor { r: 255, g: 255, b: 255 });
}
