use yappy::commands::{tray_menu, TrayEntry};
use yappy::commands::{
    duration_message, get_duration, get_duration_seconds, has_duration, load_duration, parse_u64, tray_action,
    TrayAction,
};
use yappy::state::AppState;
use yappy::store::{PersistentStore, Value};
use yappy::InternalMessage;

#[test]
fn parse_u64_agrees_with_str_parse() {
    let cases = [
        "0", "7", "+7", "300", "0042", "", "+", "-1", "-0", "1 ", " 1", "12a", "18446744073709551615",
        "18446744073709551616", "99999999999999999999999", "+18446744073709551615", "１",
    ];
    for c in cases {
        assert_eq!(parse_u64(c), c.parse::<u64>().ok(), "case {:?}", c);
    }
}

#[test]
fn duration_message_reads_payload() {
    assert_eq!(duration_message("1500"), Some(InternalMessage::DurationChanged(1500)));
    assert_eq!(duration_message("abc"), None);
}

#[test]
fn tray_items_map_to_actions() {
    assert_eq!(tray_action("start"), TrayAction::Send(InternalMessage::PomoStarted));
    assert_eq!(tray_action("pause"), TrayAction::Send(InternalMessage::PomoPaused));
    assert_eq!(tray_action("reset"), TrayAction::Send(InternalMessage::PomoReseted));
    assert_eq!(tray_action("quit"), TrayAction::Quit);
    assert_eq!(tray_action("other"), TrayAction::Ignore);
}

#[test]
fn duration_commands_read_settings() {
    let settings = PersistentStore::new("s.json".to_string(), &vec![("duration".to_string(), Value::Int(1500))]);
    let state = AppState::new(settings, PersistentStore::empty("t.json".to_string()));
    assert!(has_duration(&state));
    assert_eq!(load_duration(&state), 1500);
    assert_eq!(get_duration_seconds(&state), 1500);
    assert_eq!(get_duration(&state), "25:00");
    let state = AppState::new(PersistentStore::empty("s".to_string()), PersistentStore::empty("t".to_string()));
    assert!(!has_duration(&state));
}

#[test]
fn parse_reads_back_decimal_rendering() {
    for n in [0u64, 1, 9, 10, 300, 1500, 86400, u64::MAX] {
        assert_eq!(parse_u64(&yappy::text::u64_to_decimal(n)), Some(n));
    }
}

#[test]
fn tray_menu_lists_items_between_separators() {
    let item = |id: &str, title: &str, enabled: bool| TrayEntry::Item {
        id: id.to_string(),
        title: title.to_string(),
        enabled,
    };
    assert_eq!(
        tray_menu(),
        vec![
            item("start", "Start", true),
            TrayEntry::Separator,
            item("pause", "Pause", false),
            TrayEntry::Separator,
            item("reset", "Reset", false),
            TrayEntry::Separator,
            item("quit", "Quit", true),
        ]
    );
}
