use yappy::firebase::{current_time_formatted, format_time, FirebaseClient, FirebaseError, LocalTime, PomodoroStatus};
use yappy::store::{PersistentStore, Value};
use yappy::todoist::{Task, Todoist};
use yappy::utils::generate_random_id;

fn task(id: &str, content: &str) -> Task {
    Task { id: id.to_string(), project_id: "p".to_string(), content: content.to_string() }
}

#[test]
fn todoist_without_stored_tasks_has_none() {
    let t = Todoist::new(None, PersistentStore::empty("tasks.json".to_string()));
    assert_eq!(t.get_tasks().unwrap(), vec![]);
    let mut store = PersistentStore::empty("tasks.json".to_string());
    store.set("tasks", Value::Int(3));
    let t = Todoist::new(None, store);
    assert_eq!(t.get_tasks().unwrap(), vec![]);
}

#[test]
fn todoist_keeps_fetched_tasks() {
    let mut t = Todoist::new(Some("k".to_string()), PersistentStore::empty("tasks.json".to_string()));
    t.store_tasks(vec![task("1", "a"), task("2", "b")]);
    assert_eq!(t.get_tasks().unwrap(), vec![task("1", "a"), task("2", "b")]);
    assert_eq!(t.store.cache_json(), r#"{"tasks":{"Tasks":[{"id":"1","project_id":"p","content":"a"},{"id":"2","project_id":"p","content":"b"}]}}"#);
}

#[test]
fn todoist_api_key_from_settings() {
    let mut t = Todoist::new(Some("old".to_string()), PersistentStore::empty("tasks.json".to_string()));
    let mut settings = PersistentStore::empty("settings.json".to_string());
    t.update_api_key(&settings);
    assert_eq!(t.api_key, None);
    settings.set("api_key", Value::Text("new".to_string()));
    t.update_api_key(&settings);
    assert_eq!(t.api_key, Some("new".to_string()));
    t.set_api_key(Some("other".to_string()));
    assert_eq!(t.api_key, Some("other".to_string()));
}

#[test]
fn todoist_authorization_header() {
    let t = Todoist::new(Some("abc123".to_string()), PersistentStore::empty("t".to_string()));
    assert_eq!(t.authorization(), Some("Bearer abc123".to_string()));
    let t = Todoist::new(None, PersistentStore::empty("t".to_string()));
    assert_eq!(t.authorization(), None);
}

fn noon() -> LocalTime {
    LocalTime { hour: 9, minute: 5, second: 7, day: 3, month: 11, year: 2024 }
}

#[test]
fn time_is_formatted_like_the_stamp() {
    assert_eq!(format_time(&noon()), "09-05-07-03-11-2024");
    let t = LocalTime { hour: 23, minute: 59, second: 59, day: 31, month: 12, year: -44 };
    assert_eq!(format_time(&t), "23-59-59-31-12--44");
}

#[test]
fn current_time_has_six_fields() {
    let s = current_time_formatted();
    let parts: Vec<&str> = s.split('-').collect();
    assert!(parts.len() >= 6);
    for p in &parts[0..4] {
        assert_eq!(p.len(), 2);
        assert!(p.chars().all(|c| c.is_ascii_digit()));
    }
}

#[test]
fn firebase_client_keeps_its_configuration() {
    let c = FirebaseClient::new(Some("https://a".to_string()), None);
    assert_eq!(c.address, Some("https://a".to_string()));
    assert_eq!(c.auth_key, None);
}

#[test]
fn firebase_upload_needs_address_and_key() {
    let c = FirebaseClient::new(None, Some("k".to_string()));
    assert_eq!(c.upload_at("id", "t", PomodoroStatus::Started, &noon()).err(), Some(FirebaseError::NoAddress));
    assert_eq!(c.send_pomodoro_info("id", "t", PomodoroStatus::Started).err(), Some(FirebaseError::NoAddress));
    let c = FirebaseClient::new(Some("https://x.firebaseio.com".to_string()), None);
    assert_eq!(c.upload_at("id", "t", PomodoroStatus::Started, &noon()).err(), Some(FirebaseError::NoAuthKey));
    assert_eq!(FirebaseError::NoAuthKey.message(), "No Firebase auth key");
}

#[test]
fn firebase_upload_rejects_non_https_address() {
    let c = FirebaseClient::new(Some("http://x.firebaseio.com".to_string()), Some("k".to_string()));
    assert_eq!(c.upload_at("id", "t", PomodoroStatus::Finished, &noon()).err(), Some(FirebaseError::InvalidAddress));
    let c = FirebaseClient::new(Some("not a url".to_string()), Some("k".to_string()));
    assert_eq!(c.upload_at("id", "t", PomodoroStatus::Finished, &noon()).err(), Some(FirebaseError::InvalidAddress));
}

#[test]
fn firebase_upload_is_stamped_and_located_by_time() {
    let c = FirebaseClient::new(Some("https://x.firebaseio.com".to_string()), Some("key".to_string()));
    let up = c.upload_at("ABC", "Write", PomodoroStatus::Cancelled, &noon()).ok().unwrap();
    assert_eq!(up.info.id, "ABC");
    assert_eq!(up.info.task, "Write");
    assert_eq!(up.info.time, "09-05-07-03-11-2024");
    assert_eq!(up.info.status, PomodoroStatus::Cancelled);
    assert_eq!(up.cursor.get_uri(), "https://x.firebaseio.com/09-05-07-03-11-2024.json?auth=key");
    assert_eq!(up.location, "https://x.firebaseio.com/09-05-07-03-11-2024.json?auth=key");
    let now = c.send_pomodoro_info("ABC", "Write", PomodoroStatus::Started).ok().unwrap();
    assert_eq!(now.info.status, PomodoroStatus::Started);
    assert!(now.cursor.get_uri().starts_with("https://x.firebaseio.com/"));
    assert_eq!(now.location, format!("https://x.firebaseio.com/{}.json?auth=key", now.info.time));
}

#[test]
fn random_ids_are_eight_upper_alphanumerics() {
    for _ in 0..50 {
        let id = generate_random_id();
        assert_eq!(id.chars().count(), 8);
        assert!(id.chars().all(|c| c.is_ascii_uppercase() || c.is_ascii_digit()));
    }
}

#[test]
fn id_from_samples_upper_cases_each_sample() {
    assert_eq!(yappy::utils::id_from_samples(&b"aB3zZ90q".to_vec()), "AB3ZZ90Q");
    assert_eq!(yappy::utils::id_from_samples(&vec![]), "");
}

#[test]
fn success_statuses_are_2xx() {
    assert!(yappy::todoist::is_success_status(200));
    assert!(yappy::todoist::is_success_status(204));
    assert!(!yappy::todoist::is_success_status(199));
    assert!(!yappy::todoist::is_success_status(300));
    assert!(!yappy::todoist::is_success_status(401));
}

#[test]
fn fetched_tasks_are_stored_only_after_success() {
    let mut t = Todoist::new(Some("k".to_string()), PersistentStore::empty("tasks.json".to_string()));
    t.store_tasks(vec![task("old", "kept")]);
    assert!(!t.tasks_fetched(401, None));
    assert_eq!(t.get_tasks().unwrap(), vec![task("old", "kept")]);
    assert!(!t.tasks_fetched(500, Some(vec![task("x", "y")])));
    assert_eq!(t.get_tasks().unwrap(), vec![task("old", "kept")]);
    assert!(!t.tasks_fetched(200, None));
    assert_eq!(t.get_tasks().unwrap(), vec![task("old", "kept")]);
    assert!(t.tasks_fetched(200, Some(vec![task("1", "new")])));
    assert_eq!(t.get_tasks().unwrap(), vec![task("1", "new")]);
}
