use morsh::prediction::engine::DisplayPreference;
use morsh::prediction::engine::PredictionEngine;
use morsh::prediction::notification::NotificationEngine;
use morsh::prediction::overlay::ConditionalCursorMove;
use morsh::prediction::overlay::ConditionalOverlayCell;
use morsh::prediction::overlay::Overlay;
use morsh::prediction::overlay::Validity;
use morsh::time::Instant;

fn ago(secs: u64) -> Instant {
    Instant { nanos: Instant::now().nanos - secs * 1_000_000_000 }
}

#[test]
fn overlay_cell_basic() {
    let mut cell = ConditionalOverlayCell::new(5, 1);
    assert!(!cell.active);
    assert!(cell.is_tentative(0));

    cell.active = true;
    cell.replacement = 'A';
    cell.expire(10, Instant::now());

    assert_eq!(cell.get_validity('A', 24, 80, 0, 10), Validity::Correct);
    assert_eq!(cell.get_validity('B', 24, 80, 0, 10), Validity::IncorrectOrExpired);
}

#[test]
fn overlay_cell_pending_before_ack() {
    let mut cell = ConditionalOverlayCell::new(0, 1);
    cell.active = true;
    cell.replacement = 'X';
    cell.expire(5, Instant::now());

    assert_eq!(cell.get_validity('X', 24, 80, 0, 3), Validity::Pending);
}

#[test]
fn overlay_cell_inactive() {
    let cell = ConditionalOverlayCell::new(0, 1);
    assert_eq!(cell.get_validity('A', 24, 80, 0, 100), Validity::Inactive);
}

#[test]
fn cursor_move_validity() {
    let mut cursor = ConditionalCursorMove::new(5, 10, 1);
    cursor.active = true;
    cursor.expiration_frame = 5;

    assert_eq!(cursor.get_validity(5, 10, 24, 80, 3), Validity::Pending);

    assert_eq!(cursor.get_validity(5, 10, 24, 80, 10), Validity::Correct);

    assert_eq!(cursor.get_validity(5, 11, 24, 80, 10), Validity::IncorrectOrExpired);
}

#[test]
fn overlay_row_management() {
    let mut overlay = Overlay::new();
    let row = overlay.get_or_make_row(5, 80, 1);
    assert_eq!(row.cells.len(), 80);
    assert_eq!(row.cells[0].col, 0);
    assert_eq!(row.cells[79].col, 79);

    let row2 = overlay.get_or_make_row(5, 80, 1);
    assert_eq!(row2.row_num, 5);
}

#[test]
fn overlay_prune() {
    let mut overlay = Overlay::new();
    overlay.get_or_make_row(0, 80, 1);
    overlay.get_or_make_row(23, 80, 1);
    overlay.get_or_make_row(25, 80, 1);

    overlay.prune(24);
    assert!(overlay.get_row(25).is_none());
    assert!(overlay.get_row(0).is_some());
    assert!(overlay.get_row(23).is_some());
}

#[test]
fn overlay_cell_credit() {
    let mut cell = ConditionalOverlayCell::new(3, 1);
    cell.active = true;
    cell.replacement = 'q';
    cell.reset_with_orig();
    assert!(!cell.active);
    assert_eq!(cell.original_contents, vec!['q']);
    cell.active = true;
    cell.expire(1, Instant::now());
    assert_eq!(cell.get_validity('q', 24, 80, 0, 1), Validity::CorrectNoCredit);
    cell.unknown = true;
    assert_eq!(cell.get_validity('z', 24, 80, 0, 1), Validity::CorrectNoCredit);
    assert_eq!(cell.get_validity('z', 24, 3, 0, 1), Validity::IncorrectOrExpired);
    assert_eq!(cell.get_validity('z', 0, 80, 0, 1), Validity::IncorrectOrExpired);
    cell.reset();
    assert!(!cell.active && cell.original_contents.is_empty());
    let mut blank = ConditionalOverlayCell::new(0, 1);
    blank.active = true;
    blank.expire(1, Instant::now());
    assert_eq!(blank.get_validity(' ', 24, 80, 0, 1), Validity::CorrectNoCredit);
}

#[test]
fn overlay_keeps_rows_apart() {
    let mut overlay = Overlay::new();
    assert!(overlay.is_empty());
    overlay.get_or_make_row(7, 4, 1).cells[2].active = true;
    overlay.get_or_make_row(2, 4, 1);
    assert!(!overlay.is_empty());
    assert_eq!(overlay.row_count(), 2);
    let numbers: Vec<usize> = overlay.rows().iter().map(|r| r.row_num).collect();
    assert_eq!(numbers, vec![2, 7]);
    assert!(overlay.get_row(7).unwrap().has_active());
    assert!(!overlay.get_row(2).unwrap().has_active());
    overlay.get_row_mut(2).unwrap().cells[0].active = true;
    assert!(overlay.get_row(2).unwrap().has_active());
    overlay.get_row_mut(2).unwrap().row_num = 9;
    let numbers: Vec<usize> = overlay.rows().iter().map(|r| r.row_num).collect();
    assert_eq!(numbers, vec![7, 9]);
    assert_eq!(overlay.rows_mut(0).unwrap().row_num, 7);
    assert_eq!(overlay.rows_mut(1).unwrap().row_num, 9);
    assert!(overlay.rows_mut(2).is_none());
    overlay.kill_epoch(0);
    assert!(!overlay.is_empty());
    overlay.kill_epoch(1);
    assert!(overlay.is_empty());
    overlay.get_row_mut(2).unwrap().cells[0].active = true;
    overlay.reset_all();
    assert!(overlay.is_empty());
}

#[test]
fn notification_basic() {
    let mut engine = NotificationEngine::new();
    assert!(!engine.has_message());

    engine.set_notification("Connected".to_string(), false);
    assert!(engine.has_message());
    assert!(!engine.need_countup());
}

#[test]
fn notification_server_late() {
    let mut engine = NotificationEngine::new();

    engine.server_heard(ago(3));
    assert!(!engine.server_late());
    assert!(!engine.has_message());

    engine.server_heard(ago(8));
    assert!(engine.server_late());
    assert!(!engine.has_message());

    engine.server_heard(ago(12));
    assert!(engine.has_message());
}

#[test]
fn notification_reply_late() {
    let mut engine = NotificationEngine::new();
    engine.server_acked(ago(15));

    assert!(engine.reply_late());
    assert!(engine.need_countup());
}

#[test]
fn notification_text_generation() {
    let mut engine = NotificationEngine::new();
    engine.server_heard(ago(30));

    let text = engine.get_text();
    assert!(text.contains("contact"));
    assert!(text.contains("30"));
}

#[test]
fn notification_render() {
    let mut engine = NotificationEngine::new();
    assert!(engine.render().is_none());

    engine.set_notification("Test".to_string(), true);
    let vt = engine.render().unwrap();
    assert!(vt.contains("\x1b[7m"));
    assert!(vt.contains("Test"));
}

#[test]
fn notification_permanent() {
    let mut engine = NotificationEngine::new();
    engine.set_notification("Perm".to_string(), true);

    assert!(engine.message_expiration().is_none());
    assert!(engine.has_message());
}

#[test]
fn notification_expires() {
    let now = Instant { nanos: 50_000_000_000 };
    let mut engine = NotificationEngine::new_at(now);
    engine.set_notification_at("Hi".to_string(), false, now);
    assert_eq!(engine.message_expiration(), Some(now.plus_millis(1000)));
    assert_eq!(engine.get_text_at(now), "mosh: Hi");
    engine.clear_network_error_at(now);
    assert_eq!(engine.message_expiration(), Some(now.plus_millis(1000)));
    assert!(engine.has_message_at(now.plus_millis(999)));
    assert_eq!(engine.get_text_at(now.plus_millis(999)), "mosh: Hi");
    assert!(!engine.has_message_at(now.plus_millis(1000)));
    assert_eq!(engine.get_text_at(now.plus_millis(1000)), "");
    assert!(engine.render_at(now.plus_millis(1000)).is_none());
    engine.set_network_error_at("down".to_string(), now);
    assert_eq!(engine.message_expiration(), Some(now.plus_millis(3100)));
    assert_eq!(engine.get_text_at(now.plus_millis(3099)), "mosh: down");
    assert!(!engine.has_message_at(now.plus_millis(3100)));
    engine.clear_network_error_at(now.plus_millis(10));
    assert_eq!(engine.message_expiration(), Some(now.plus_millis(1010)));
    assert!(engine.render_at(now.plus_millis(1009)).unwrap().contains("mosh: down"));
    assert!(engine.render_at(now.plus_millis(1010)).is_none());
    assert!(!engine.has_message_at(now.plus_millis(1010)));
    assert_eq!(engine.get_text_at(now.plus_millis(1010)), "");
    assert_eq!(engine.get_text_at(now.plus_millis(7000)), "mosh: Last contact 7 ago.");
    engine.set_notification_at("Stay".to_string(), true, now);
    engine.clear_network_error_at(now);
    assert_eq!(engine.message_expiration(), None);
    assert_eq!(engine.get_text_at(now.plus_millis(5000)), "mosh: Stay");
}

#[test]
fn expiring_activates_a_cell() {
    let time = Instant { nanos: 7 };
    let mut cell = ConditionalOverlayCell::new(5, 1);
    assert!(!cell.active);
    cell.expire(10, time);
    assert!(cell.active);
    assert_eq!((cell.col, cell.expiration_frame, cell.prediction_time), (5, 10, time));
    assert_eq!((cell.tentative_until_epoch, cell.unknown), (1, false));
}

#[test]
fn notification_texts_are_exact() {
    let start = Instant { nanos: 50_000_000_000 };
    let mut engine = NotificationEngine::new_at(start);
    assert_eq!(engine.get_text_at(start.plus_millis(6500)), "");
    assert!(!engine.need_countup_at(start.plus_millis(6500)));
    assert_eq!(engine.get_text_at(start.plus_millis(6501)), "mosh: Last contact 6 ago.");
    assert!(!engine.has_message_at(start.plus_millis(10999)));
    assert!(engine.has_message_at(start.plus_millis(11000)));
    engine.set_escape_key_string("Ctrl-^ .".to_string());
    engine.server_heard(start.plus_millis(10000));
    assert_eq!(
        engine.get_text_at(start.plus_millis(12000)),
        "mosh: Last reply 12 ago. [To quit: Ctrl-^ .]"
    );
    engine.set_notification_at("Hi".to_string(), true, start);
    assert_eq!(
        engine.get_text_at(start.plus_millis(12000)),
        "mosh: Hi (12s without reply.) [To quit: Ctrl-^ .]"
    );
    engine.server_acked(start.plus_millis(12000));
    assert_eq!(engine.get_text_at(start.plus_millis(12000)), "mosh: Hi [To quit: Ctrl-^ .]");
    engine.set_notification_at("x".repeat(100), true, start);
    let bar = engine.render_at(start.plus_millis(12000)).unwrap();
    let blank = " ".repeat(80);
    let shown = "x".repeat(73);
    let want = format!("\x1b[s\x1b[1;1H\x1b[7m{blank}\x1b[1;1Hmosh: {shown}\x1b[0m\x1b[u");
    assert_eq!(bar, want);
}

#[test]
fn prediction_engine_creation() {
    let engine = PredictionEngine::new();
    assert_eq!(engine.prediction_epoch(), 1);
    assert_eq!(engine.confirmed_epoch(), 0);
    assert!(!engine.is_active());
    assert!(!engine.should_display());
}

#[test]
fn prediction_engine_never_display() {
    let mut engine = PredictionEngine::new();
    engine.set_display_preference(DisplayPreference::Never);

    engine.new_user_byte('A', 0, 0, ' ', 80, 24);
    assert!(!engine.is_active());
}

#[test]
fn prediction_engine_predicts_char() {
    let mut engine = PredictionEngine::new();
    engine.set_display_preference(DisplayPreference::Always);

    engine.new_user_byte('A', 5, 10, ' ', 80, 24);
    assert!(engine.is_active());

    let cursor = engine.cursor_pos();
    assert_eq!(cursor, Some((5, 11)));
}

#[test]
fn prediction_engine_backspace() {
    let mut engine = PredictionEngine::new();
    engine.set_display_preference(DisplayPreference::Always);

    engine.new_user_byte('A', 5, 10, ' ', 80, 24);

    engine.new_user_byte('\x7f', 5, 11, 'A', 80, 24);

    let cursor = engine.cursor_pos();
    assert_eq!(cursor, Some((5, 10)));
}

#[test]
fn prediction_engine_reset() {
    let mut engine = PredictionEngine::new();
    engine.set_display_preference(DisplayPreference::Always);

    engine.new_user_byte('A', 0, 0, ' ', 80, 24);
    assert!(engine.is_active());

    engine.reset();
    assert!(!engine.is_active());
}

#[test]
fn prediction_engine_epoch_management() {
    let mut engine = PredictionEngine::new();
    engine.set_display_preference(DisplayPreference::Always);

    let initial_epoch = engine.prediction_epoch();
    engine.new_user_byte('A', 0, 0, ' ', 80, 24);

    assert!(engine.prediction_epoch() >= initial_epoch);
}

#[test]
fn prediction_engine_wait_time() {
    let mut engine = PredictionEngine::new();
    engine.set_display_preference(DisplayPreference::Always);

    assert_eq!(engine.wait_time_ms(), u64::MAX);

    engine.new_user_byte('A', 0, 0, ' ', 80, 24);
    assert_eq!(engine.wait_time_ms(), 50);
}

#[test]
fn prediction_engine_send_interval_triggers() {
    let mut engine = PredictionEngine::new();
    engine.set_display_preference(DisplayPreference::Adaptive);

    engine.set_send_interval(10);
    engine.cull(0, 0, 24, 80);
    assert!(!engine.srtt_trigger());

    engine.set_send_interval(50);
    engine.cull(0, 0, 24, 80);
    assert!(engine.srtt_trigger());
}

#[test]
fn predictions_are_confirmed_or_withdrawn() {
    let now = Instant { nanos: 9_000_000_000 };
    let mut engine = PredictionEngine::new_at(now);
    engine.set_display_preference(DisplayPreference::Always);
    engine.set_predict_overwrite(true);
    engine.new_user_byte_at('A', 0, 0, 10, 2, now);
    let row = engine.overlay().get_row(0).unwrap();
    assert_eq!(row.cells[0].replacement, 'A');
    assert!(row.cells[0].active);

    engine.validate_predictions_at(|_, _| ' ', 0, 0, now.plus_millis(5));
    assert!(engine.overlay().get_row(0).unwrap().cells[0].active);

    engine.set_local_frame_late_acked(1);
    engine.validate_predictions_at(
        |r, c| if r == 0 && c == 0 { 'A' } else { ' ' },
        0,
        1,
        now.plus_millis(10),
    );
    assert!(!engine.is_active());
    assert_eq!(engine.confirmed_epoch(), 2);

    engine.new_user_byte_at('B', 0, 1, 10, 2, now.plus_millis(20));
    assert!(engine.is_active());
    engine.set_local_frame_late_acked(2);
    let epoch = engine.prediction_epoch();
    engine.validate_predictions_at(|_, _| 'x', 0, 2, now.plus_millis(30));
    assert!(!engine.is_active());
    assert!(engine.prediction_epoch() > epoch);
}

#[test]
fn typing_at_the_edge_is_not_predicted() {
    let now = Instant { nanos: 9_000_000_000 };
    let mut engine = PredictionEngine::new_at(now);
    engine.set_display_preference(DisplayPreference::Always);
    assert!(engine.takes('a', 9, 10));
    assert!(!engine.takes('a', 10, 10));
    assert!(engine.takes('\r', 10, 10));
    engine.set_display_preference(DisplayPreference::Never);
    assert!(engine.takes('a', 10, 10));
}

#[test]
fn epochs_can_be_killed() {
    let now = Instant { nanos: 9_000_000_000 };
    let mut engine = PredictionEngine::new_at(now);
    engine.set_display_preference(DisplayPreference::Always);
    engine.new_user_byte_at('A', 1, 0, 10, 2, now);
    assert_eq!(engine.prediction_epoch(), 2);
    engine.kill_epoch(3, 1, 4);
    assert_eq!(engine.cursor_pos(), Some((1, 4)));
    assert_eq!(engine.prediction_epoch(), 3);
    assert!(!engine.overlay().get_row(1).unwrap().has_active());
    assert!(engine.flagging());

    let mut other = PredictionEngine::new_at(now);
    other.set_display_preference(DisplayPreference::Always);
    other.new_user_byte_at('A', 1, 0, 10, 2, now);
    let epoch = other.overlay().get_row(1).unwrap().cells[0].tentative_until_epoch;
    other.kill_epoch(epoch, 1, 4);
    assert!(!other.overlay().get_row(1).unwrap().has_active());
}
