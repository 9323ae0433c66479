use yappy::handling::{begin_countdown, can_begin_countdown, countdown_step, handle_message, Effect};
use yappy::state::AppState;
use yappy::store::{PersistentStore, Value};
use yappy::todoist::Task;
use yappy::InternalMessage;

fn state_with(entries: Vec<(&str, Value)>) -> AppState {
    let contents: Vec<(String, Value)> = entries.into_iter().map(|(k, v)| (k.to_string(), v)).collect();
    let settings = PersistentStore::new("settings.json".to_string(), &contents);
    AppState::new(settings, PersistentStore::empty("tasks.json".to_string()))
}

fn tray(id: &str, enabled: bool) -> Effect {
    Effect::SetTrayItem { id: id.to_string(), enabled }
}

fn emit(event: &str, payload: &str) -> Effect {
    Effect::Emit { event: event.to_string(), payload: payload.to_string() }
}

fn status(s: &str) -> Effect {
    Effect::Status(s.to_string())
}

fn notify(s: &str) -> Effect {
    Effect::Notify(s.to_string())
}

#[test]
fn new_state_reads_keys_from_settings() {
    let state = state_with(vec![
        ("api_key", Value::Text("tk".to_string())),
        ("firebase_address", Value::Text("https://x.firebaseio.com".to_string())),
        ("firebase_auth_key", Value::Int(12)),
    ]);
    assert!(!state.pause_switch && !state.kill_switch);
    assert_eq!(state.remaining, None);
    assert_eq!(state.todoist.api_key, Some("tk".to_string()));
    assert_eq!(state.firebase.address, Some("https://x.firebaseio.com".to_string()));
    assert_eq!(state.firebase.auth_key, Some("12".to_string()));
    let empty = state_with(vec![]);
    assert_eq!(empty.todoist.api_key, None);
    assert_eq!(empty.firebase.address, None);
}

#[test]
fn start_needs_a_duration() {
    let state = state_with(vec![]);
    assert!(!can_begin_countdown(&state));
    let state = state_with(vec![("duration", Value::Text("5".to_string()))]);
    assert!(!can_begin_countdown(&state));
    let state = state_with(vec![("duration", Value::Int(5))]);
    assert!(can_begin_countdown(&state));
}

#[test]
fn begin_countdown_uses_duration_and_task() {
    let mut state = state_with(vec![
        ("duration", Value::Int(3)),
        ("selected_task", Value::Text("Write".to_string())),
    ]);
    state.pause_switch = true;
    state.kill_switch = true;
    let (cd, effects) = begin_countdown(&mut state);
    assert_eq!(cd.next(), 3);
    assert_eq!(cd.windows(), &vec!["Write".to_string()]);
    assert!(!state.pause_switch && !state.kill_switch);
    assert_eq!(
        effects,
        vec![
            tray("start", false),
            tray("pause", true),
            tray("reset", true),
            emit("pomo_started", ""),
            notify("Pomodoro started!"),
        ]
    );
}

#[test]
fn begin_countdown_without_task_says_not_selected() {
    let mut state = state_with(vec![("duration", Value::Int(3))]);
    let (cd, _) = begin_countdown(&mut state);
    assert_eq!(cd.windows(), &vec!["Not selected".to_string()]);
}

#[test]
fn uninterrupted_countdown_runs_to_the_end() {
    let mut state = state_with(vec![
        ("duration", Value::Int(2)),
        ("selected_task", Value::Text("Task".to_string())),
    ]);
    let (mut cd, _) = begin_countdown(&mut state);
    let (e, go) = countdown_step(&mut state, &mut cd);
    assert!(go);
    assert_eq!(e, vec![emit("pomo_step", "00:02"), status("00:02 (Task)")]);
    assert_eq!(state.remaining, Some(2));
    let (e, go) = countdown_step(&mut state, &mut cd);
    assert!(go);
    assert_eq!(e, vec![emit("pomo_step", "00:01"), status("00:01 (Task)")]);
    assert_eq!(state.remaining, Some(1));
    assert_eq!(cd.next(), 0);
    let (e, go) = countdown_step(&mut state, &mut cd);
    assert!(!go);
    assert_eq!(
        e,
        vec![
            emit("pomo_step", "00:00"),
            emit("pomo_finished", ""),
            status("Waiting"),
            notify("Pomodoro finished!"),
        ]
    );
    assert_eq!(state.remaining, None);
}

#[test]
fn status_cycles_through_task_windows() {
    let mut state = state_with(vec![
        ("duration", Value::Int(3)),
        ("selected_task", Value::Text("abcdefghijklmnopqrstuvwxyz".to_string())),
    ]);
    let (mut cd, _) = begin_countdown(&mut state);
    assert_eq!(cd.windows().len(), 3);
    let (e, _) = countdown_step(&mut state, &mut cd);
    // second 3: window 3 % 3 = 0, the last piece
    assert_eq!(e[1], status("00:03 (cdefghijklmnopqrstuvwxyz)"));
    let (e, _) = countdown_step(&mut state, &mut cd);
    assert_eq!(e[1], status("00:02 (abcdefghijklmnopqrstuvwx)"));
    let (e, _) = countdown_step(&mut state, &mut cd);
    assert_eq!(e[1], status("00:01 (bcdefghijklmnopqrstuvwxy)"));
}

#[test]
fn pause_keeps_remaining_and_resume_restarts_there() {
    let mut state = state_with(vec![("duration", Value::Int(10))]);
    let (mut cd, _) = begin_countdown(&mut state);
    countdown_step(&mut state, &mut cd);
    countdown_step(&mut state, &mut cd);
    assert_eq!(state.remaining, Some(9));
    let effects = handle_message(&mut state, InternalMessage::PomoPaused);
    assert_eq!(effects, vec![tray("start", true), tray("pause", false), tray("reset", true)]);
    let (e, go) = countdown_step(&mut state, &mut cd);
    assert!(!go);
    assert_eq!(e, vec![emit("pomo_step", "00:08"), status("00:08 (paused)"), emit("pomo_paused", "")]);
    assert_eq!(state.remaining, Some(9));
    let (cd2, _) = begin_countdown(&mut state);
    assert_eq!(cd2.next(), 9);
    assert!(!state.pause_switch);
}

#[test]
fn reset_while_paused_clears_remaining() {
    let mut state = state_with(vec![("duration", Value::Int(10))]);
    state.remaining = Some(4);
    state.pause_switch = true;
    let effects = handle_message(&mut state, InternalMessage::PomoReseted);
    assert_eq!(
        effects,
        vec![
            emit("pomo_reseted", ""),
            status("Waiting"),
            tray("start", true),
            tray("pause", false),
            tray("reset", false),
        ]
    );
    assert_eq!(state.remaining, None);
    assert!(!state.pause_switch);
    let (cd, _) = begin_countdown(&mut state);
    assert_eq!(cd.next(), 10);
}

#[test]
fn reset_while_running_abandons_at_next_second() {
    let mut state = state_with(vec![("duration", Value::Int(10))]);
    let (mut cd, _) = begin_countdown(&mut state);
    countdown_step(&mut state, &mut cd);
    let effects = handle_message(&mut state, InternalMessage::PomoReseted);
    assert_eq!(effects, vec![tray("start", true), tray("pause", false), tray("reset", false)]);
    assert!(state.kill_switch);
    let (e, go) = countdown_step(&mut state, &mut cd);
    assert!(!go);
    assert_eq!(e, vec![emit("pomo_reseted", ""), status("Waiting"), notify("Pomodoro abandoned!")]);
    assert_eq!(state.remaining, None);
}

#[test]
fn zero_duration_finishes_at_once() {
    let mut state = state_with(vec![("duration", Value::Int(0))]);
    let (mut cd, _) = begin_countdown(&mut state);
    let (e, go) = countdown_step(&mut state, &mut cd);
    assert!(!go);
    assert_eq!(e[0], emit("pomo_step", "00:00"));
}

#[test]
fn simple_messages() {
    let mut state = state_with(vec![]);
    assert_eq!(handle_message(&mut state, InternalMessage::PomoStarted), vec![Effect::StartCountdown]);
    assert_eq!(handle_message(&mut state, InternalMessage::PomoFinished), vec![]);
    assert_eq!(handle_message(&mut state, InternalMessage::TasksRequested), vec![Effect::ReloadTasks]);
}

#[test]
fn setting_messages_store_and_persist() {
    let mut state = state_with(vec![]);
    assert_eq!(handle_message(&mut state, InternalMessage::DurationChanged(1500)), vec![Effect::PersistSettings]);
    assert!(matches!(state.settings.get("duration"), Some(Value::Int(1500))));
    handle_message(&mut state, InternalMessage::TodoistApiKey("abc".to_string()));
    assert_eq!(state.todoist.api_key, Some("abc".to_string()));
    assert_eq!(state.settings.get("api_key").unwrap().to_string(), "abc");
    handle_message(&mut state, InternalMessage::FirebaseAddress("https://a".to_string()));
    assert_eq!(state.settings.get("firebase_address").unwrap().to_string(), "https://a");
    handle_message(&mut state, InternalMessage::FirebaseAuthKey("fk".to_string()));
    assert_eq!(state.settings.get("firebase_auth_key").unwrap().to_string(), "fk");
    handle_message(&mut state, InternalMessage::TaskUnselected);
    assert_eq!(state.settings.get("selected_task").unwrap().to_string(), "");
    assert_eq!(
        state.settings.cache_json(),
        r#"{"duration":{"Int":1500},"api_key":{"Text":"abc"},"firebase_address":{"Text":"https://a"},"firebase_auth_key":{"Text":"fk"},"selected_task":{"Text":""}}"#
    );
}

#[test]
fn task_selected_picks_first_matching_task() {
    let mut state = state_with(vec![]);
    state.todoist.store_tasks(vec![
        Task { id: "1".to_string(), project_id: "p".to_string(), content: "one".to_string() },
        Task { id: "2".to_string(), project_id: "p".to_string(), content: "two".to_string() },
        Task { id: "2".to_string(), project_id: "p".to_string(), content: "second two".to_string() },
    ]);
    let e = handle_message(&mut state, InternalMessage::TaskSelected("2".to_string()));
    assert_eq!(e, vec![Effect::PersistSettings]);
    assert_eq!(state.settings.get("selected_task").unwrap().to_string(), "two");
    let e = handle_message(&mut state, InternalMessage::TaskSelected("9".to_string()));
    assert_eq!(e, vec![]);
    assert_eq!(state.settings.get("selected_task").unwrap().to_string(), "two");
}
