use morsh::proto::client::UserMessage;
use morsh::statesync::complete::Complete;
use morsh::statesync::emulated;
use morsh::statesync::user_stream::UserEvent;
use morsh::statesync::user_stream::UserStream;
use morsh::statesync::vt::apply_vt_to_snapshot;
use morsh::terminal::display::DisplayDiff;
use morsh::terminal::runs;
use morsh::terminal::snapshot::CellStyle;
use morsh::terminal::snapshot::RgbColor;
use morsh::terminal::snapshot::ScreenSnapshot;
use morsh::terminal::snapshot::StyleColor;
use morsh::terminal::terminal::CellReading;
use morsh::terminal::terminal::Reading;

#[test]
fn create_complete() {
    let c = Complete::new(80, 24);
    assert!(c.is_ok());
    assert_eq!(c.unwrap().dimensions(), (80, 24));
}

#[test]
fn apply_text_to_snapshot() {
    let mut c = Complete::new(80, 1).unwrap();
    c.apply_string(b"Hello");
    let snap = c.snapshot();
    assert_eq!(snap.rows[0][0].text, "H");
    assert_eq!(snap.rows[0][1].text, "e");
    assert_eq!(snap.rows[0][4].text, "o");
}

#[test]
fn apply_cursor_positioning() {
    let mut c = Complete::new(10, 3).unwrap();
    c.apply_string(b"\x1b[2;3HX");
    let snap = c.snapshot();
    assert_eq!(snap.rows[1][2].text, "X");
}

#[test]
fn apply_color_escape() {
    let mut c = Complete::new(10, 1).unwrap();
    c.apply_string(b"\x1b[1;31mX\x1b[0m");
    let snap = c.snapshot();
    assert!(snap.rows[0][0].style.bold);
}

#[test]
fn diff_from_empty_to_text() {
    let empty = Complete::new(80, 1).unwrap();
    let mut with_text = Complete::new(80, 1).unwrap();
    with_text.apply_string(b"Hi");

    let diff = empty.diff_from(&with_text);
    assert!(!diff.is_empty());
}

#[test]
fn diff_same_states() {
    let mut a = Complete::new(80, 1).unwrap();
    a.apply_string(b"Hello");
    let mut b = Complete::new(80, 1).unwrap();
    b.apply_string(b"Hello");

    let diff = a.diff_from(&b);
    assert!(diff.len() < 10);
}

#[test]
fn dec_private_mode_not_visible() {
    let mut c = Complete::new(80, 1).unwrap();
    c.apply_string(b"\x1b[?2004l");
    let snap = c.snapshot();
    assert!(snap.rows[0][0].text.is_empty());
}

#[test]
fn dec_private_mode_with_text() {
    let mut c = Complete::new(80, 1).unwrap();
    c.apply_string(b"\x1b[?2004h$ ");
    let snap = c.snapshot();
    assert_eq!(snap.rows[0][0].text, "$");
    assert_eq!(snap.rows[0][1].text, " ");
}

#[test]
fn cursor_visibility_sequence() {
    let mut c = Complete::new(10, 1).unwrap();
    c.apply_string(b"\x1b[?25l");
    assert!(c.snapshot().rows[0][0].text.is_empty());
}

#[test]
fn complete_state_is_shared() {
    let mut shown = Complete::new(12, 3).unwrap();
    shown.apply_string(b"first line");
    let mut current = shown.clone();
    current.apply_string(b"\r\nsecond");
    let diff = current.diff_from(&shown);
    shown.apply_string(&diff);
    for y in 0..3 {
        for x in 0..12 {
            let a = shown.snapshot().cell(x, y).unwrap();
            let b = current.snapshot().cell(x, y).unwrap();
            assert!(a.same(b), "cell {x} {y}");
        }
    }
    assert_eq!(shown.snapshot().cursor_x, current.snapshot().cursor_x);
    assert_eq!(shown.snapshot().cursor_y, current.snapshot().cursor_y);
    assert_eq!(current.echo_ack(), 0);
    current.set_echo_ack(9);
    assert_eq!(current.echo_ack(), 9);
    current.snapshot_mut().cursor_x = 3;
    assert_eq!(current.snapshot().cursor_x, 3);
}

#[test]
fn written_styles_are_exact() {
    let mut snap = ScreenSnapshot::new(10, 2);
    apply_vt_to_snapshot(&mut snap, b"\x1b[3;38;5;200;48;2;1;2;3mA\x1b[0mB\r\nC");
    assert_eq!(
        snap.rows[0][0].style,
        CellStyle {
            fg: StyleColor::Palette(200),
            bg: StyleColor::Rgb(RgbColor { r: 1, g: 2, b: 3 }),
            italic: true,
            ..CellStyle::default_style()
        }
    );
    assert!(snap.rows[0][1].style.is_default());
    assert_eq!(snap.rows[1][0].text, "C");
    assert_eq!((snap.cursor_x, snap.cursor_y), (1, 1));
    apply_vt_to_snapshot(&mut snap, b"\x1b[2J");
    assert!(snap.rows[0][0].is_empty() && snap.rows[1][0].is_empty());
}

#[test]
fn updates_reproduce_the_screen() {
    let mut shown = ScreenSnapshot::new(6, 2);
    apply_vt_to_snapshot(&mut shown, b"abc");
    let mut new = ScreenSnapshot::new(6, 2);
    apply_vt_to_snapshot(&mut new, b"a\x1b[1mX\x1b[0mc\r\nz");
    let update = DisplayDiff::diff(&shown, &new);
    apply_vt_to_snapshot(&mut shown, update.as_bytes());
    for y in 0..2 {
        for x in 0..6 {
            assert!(shown.cell(x, y).unwrap().same(new.cell(x, y).unwrap()), "cell {x} {y}");
        }
    }
    assert_eq!((shown.cursor_x, shown.cursor_y), (new.cursor_x, new.cursor_y));
}

#[test]
fn run_updates_reproduce_styles() {
    let mut shown = ScreenSnapshot::new(2, 1);
    let mut new = ScreenSnapshot::new(2, 1);
    apply_vt_to_snapshot(&mut new, b"\x1b[1mX\x1b[0mY");
    assert!(new.rows[0][0].style.bold && !new.rows[0][1].style.bold);
    let update = runs::DisplayDiff::diff(&shown, &new);
    apply_vt_to_snapshot(&mut shown, update.as_bytes());
    assert!(shown.rows[0][0].same(&new.rows[0][0]));
    assert!(shown.rows[0][1].same(&new.rows[0][1]));
}

#[test]
fn redraws_reproduce_the_screen() {
    let mut new = ScreenSnapshot::new(3, 1);
    apply_vt_to_snapshot(&mut new, b"\x1b[1mg\x1b[0;3mh\x1b[0mi\x1b[1;2H");
    let mut shown = ScreenSnapshot::new(3, 1);
    apply_vt_to_snapshot(&mut shown, b"\x1b[4mzzz");
    apply_vt_to_snapshot(&mut shown, DisplayDiff::full_redraw(&new).as_bytes());
    for x in 0..3 {
        assert!(shown.cell(x, 0).unwrap().same(new.cell(x, 0).unwrap()), "cell {x}");
    }
    assert_eq!((shown.cursor_x, shown.cursor_y), (1, 0));
}

#[test]
fn lines_are_erased() {
    let mut snap = ScreenSnapshot::new(4, 2);
    apply_vt_to_snapshot(&mut snap, b"abcdefgh\x1b[1;3H\x1b[K");
    let texts = |snap: &ScreenSnapshot, y: usize| -> Vec<String> {
        snap.rows[y].iter().map(|c| c.text.clone()).collect()
    };
    assert_eq!(texts(&snap, 0), ["a", "b", "", ""]);
    assert_eq!((snap.cursor_x, snap.cursor_y), (2, 0));
    apply_vt_to_snapshot(&mut snap, b"\x1b[2;3H\x1b[2K");
    assert_eq!(texts(&snap, 1), ["", "", "", ""]);
    assert_eq!(texts(&snap, 0), ["a", "b", "", ""]);
    assert_eq!((snap.cursor_x, snap.cursor_y), (2, 1));
}

fn reading_of(lines: &[&str]) -> Option<Reading> {
    Some(Reading {
        cursor: Some((0, 0)),
        cursor_visible: Some(true),
        colors: None,
        rows: lines
            .iter()
            .map(|line| {
                line.chars()
                    .map(|c| CellReading { graphemes: vec![c], style: None })
                    .collect()
            })
            .collect(),
    })
}

#[test]
fn complete_create_complete() {
    let c = emulated::Complete::new(80, 24);
    assert_eq!(c.dimensions(), (80, 24));
    assert_eq!(c.terminal().dimensions(), (80, 24));
}

#[test]
fn complete_diff_from_empty_to_text() {
    let empty = emulated::Complete::new(80, 1);
    let old_snap = empty.snapshot(&reading_of(&[""]));
    let with_text = emulated::Complete::new(80, 1);
    let diff = with_text.diff_from(&old_snap, &reading_of(&["Hi"]));
    assert!(!diff.is_empty());
    assert!(String::from_utf8(diff).unwrap().contains("Hi"));
}

#[test]
fn complete_diff_same_states() {
    let a = emulated::Complete::new(80, 1);
    let snap_a = a.snapshot(&reading_of(&["Hello"]));
    let b = emulated::Complete::new(80, 1);
    let diff = b.diff_from(&snap_a, &reading_of(&["Hello"]));
    assert!(diff.len() < 10);
}

#[test]
fn unreadable_emulators_look_blank() {
    let mut c = emulated::Complete::new(2, 2);
    c.terminal_mut().resize(3, 1);
    let snap = c.snapshot(&None);
    assert_eq!((snap.cols, snap.rows_count), (3, 1));
    assert!(snap.rows[0].iter().all(|cell| cell.is_empty()));
    c.set_echo_ack(4);
    assert_eq!(c.echo_ack(), 4);
}

#[test]
fn push_and_length() {
    let mut s = UserStream::new();
    assert!(s.is_empty());
    s.push_key(b'a');
    s.push_key(b'b');
    assert_eq!(s.len(), 2);
}

#[test]
fn diff_from_empty() {
    let empty = UserStream::new();
    let mut s = UserStream::new();
    s.push_key(b'x');

    let diff = s.diff_from(&empty);
    assert!(!diff.is_empty());

    let mut applied = UserStream::new();
    applied.apply_string(&diff);
    assert_eq!(applied.len(), 1);
    assert_eq!(applied.get(0), Some(&UserEvent::UserByte(b'x')));
}

#[test]
fn diff_from_partial() {
    let mut a = UserStream::new();
    a.push_key(b'a');
    a.push_key(b'b');

    let mut b = UserStream::new();
    b.push_key(b'a');
    b.push_key(b'b');
    b.push_key(b'c');

    let diff = b.diff_from(&a);
    let mut result = a.clone();
    result.apply_string(&diff);
    assert_eq!(result.len(), 3);
    assert_eq!(result.get(2), Some(&UserEvent::UserByte(b'c')));
}

#[test]
fn subtract_prefix() {
    let mut s = UserStream::new();
    s.push_key(b'a');
    s.push_key(b'b');
    s.push_key(b'c');

    let mut prefix = UserStream::new();
    prefix.push_key(b'a');
    prefix.push_key(b'b');
    s.subtract(&prefix);
    assert_eq!(s.len(), 1);
    assert_eq!(s.get(0), Some(&UserEvent::UserByte(b'c')));
}

#[test]
fn keystrokes_grouped_in_diff() {
    let empty = UserStream::new();
    let mut s = UserStream::new();
    s.push_key(b'h');
    s.push_key(b'i');

    let diff = s.diff_from(&empty);
    let msg = UserMessage::decode(diff.as_slice()).unwrap();
    assert_eq!(msg.instruction.len(), 1);
    let keys = msg.instruction[0].keystroke.as_ref().unwrap().keys.as_ref().unwrap();
    assert_eq!(keys, &vec![b'h', b'i']);
}

#[test]
fn resize_event() {
    let empty = UserStream::new();
    let mut s = UserStream::new();
    s.push_resize(120, 40);

    let diff = s.diff_from(&empty);
    let mut result = UserStream::new();
    result.apply_string(&diff);
    assert_eq!(result.get(0), Some(&UserEvent::Resize { width: 120, height: 40 }));
}

#[test]
fn mixed_events_survive_a_diff() {
    let mut s = UserStream::default();
    s.push_resize(80, 24);
    s.push_key(1);
    s.push_key(2);
    s.push_resize(-5, 0);
    s.push_resize(7, 8);
    s.push_key(3);
    let mut known = UserStream::new();
    known.push_resize(80, 24);
    known.push_key(1);
    let diff = s.diff_from(&known);
    let msg = UserMessage::decode(&diff).unwrap();
    assert_eq!(msg.instruction.len(), 4);
    known.apply_string(&diff);
    assert_eq!(known.len(), s.len());
    for i in 0..s.len() {
        assert_eq!(known.get(i), s.get(i));
    }
    assert!(s.diff_from(&known).is_empty());
    assert_eq!(s.get(6), None);
    let other = UserStream::new();
    let mut fork = UserStream::new();
    fork.push_key(9);
    assert_eq!(s.diff_from(&fork), s.diff_from(&other));
}

#[test]
fn missing_dimensions_have_defaults() {
    let msg = UserMessage {
        instruction: vec![morsh::proto::client::Instruction {
            keystroke: None,
            resize: Some(morsh::proto::client::ResizeMessage { width: None, height: None }),
        }],
    };
    let mut s = UserStream::new();
    s.apply_message(&msg);
    assert_eq!(s.get(0), Some(&UserEvent::Resize { width: 80, height: 24 }));
}
