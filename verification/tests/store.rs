use yappy::store::{
    settings_store_path, store_dir_path, tasks_store_path, PersistentStore, Value, DEFAULT_DURATION,
};
use yappy::todoist::Task;

fn task(id: &str, project: &str, content: &str) -> Task {
    Task { id: id.to_string(), project_id: project.to_string(), content: content.to_string() }
}

fn int_of(v: Option<&Value>) -> Option<u64> {
    match v {
        Some(Value::Int(i)) => Some(*i),
        _ => None,
    }
}

fn text_of(v: Option<&Value>) -> Option<String> {
    match v {
        Some(Value::Text(t)) => Some(t.clone()),
        _ => None,
    }
}

#[test]
fn empty_store_has_nothing() {
    let store = PersistentStore::empty("/tmp/settings.json".to_string());
    assert!(!store.check("duration"));
    assert!(store.get("duration").is_none());
    assert_eq!(store.cache_json(), "{}");
    assert_eq!(store.file_path(), "/tmp/settings.json");
}

#[test]
fn get_returns_what_set_wrote() {
    let mut store = PersistentStore::empty("s.json".to_string());
    store.set("duration", Value::Int(1500));
    assert!(store.check("duration"));
    assert_eq!(int_of(store.get("duration")), Some(1500));
    store.set("api_key", Value::Text("secret".to_string()));
    assert_eq!(text_of(store.get("api_key")), Some("secret".to_string()));
    assert_eq!(int_of(store.get("duration")), Some(1500));
}

#[test]
fn set_replaces_in_place() {
    let mut store = PersistentStore::empty("s.json".to_string());
    store.set("a", Value::Int(1));
    store.set("b", Value::Int(2));
    store.set("a", Value::Int(3));
    assert_eq!(int_of(store.get("a")), Some(3));
    assert_eq!(store.cache_json(), r#"{"a":{"Int":3},"b":{"Int":2}}"#);
}

#[test]
fn new_keeps_the_later_of_duplicate_names() {
    let contents = vec![
        ("duration".to_string(), Value::Int(60)),
        ("selected_task".to_string(), Value::Text("Write".to_string())),
        ("duration".to_string(), Value::Int(90)),
    ];
    let store = PersistentStore::new("s.json".to_string(), &contents);
    assert_eq!(int_of(store.get("duration")), Some(90));
    assert_eq!(text_of(store.get("selected_task")), Some("Write".to_string()));
    assert_eq!(store.file_path(), "s.json");
}

#[test]
fn to_int_reads_integers() {
    assert_eq!(Value::Int(42).to_int(), 42);
}

#[test]
fn to_string_of_numbers_and_text() {
    assert_eq!(Value::Int(42).to_string(), "42");
    assert_eq!(Value::Int(0).to_string(), "0");
    assert_eq!(Value::Text("plain \"text\"".to_string()).to_string(), "plain \"text\"");
}

#[test]
fn to_string_of_tasks_is_json() {
    let v = Value::Tasks(vec![task("1", "p", "Read \"book\""), task("2", "q", "Line\nbreak")]);
    let text = v.to_string();
    assert_eq!(
        text,
        r#"[{"id":"1","project_id":"p","content":"Read \"book\""},{"id":"2","project_id":"q","content":"Line\nbreak"}]"#
    );
    let parsed: serde_json::Value = serde_json::from_str(&text).unwrap();
    assert_eq!(parsed[1]["content"], serde_json::Value::String("Line\nbreak".to_string()));
    assert_eq!(Value::Tasks(vec![]).to_string(), "[]");
}

#[test]
fn to_string_of_projects_is_json() {
    let v = Value::Projects(vec![
        ("work".to_string(), Value::Int(3)),
        ("home".to_string(), Value::Projects(vec![("x".to_string(), Value::Text("y".to_string()))])),
    ]);
    let text = v.to_string();
    assert_eq!(text, r#"{"work":{"Int":3},"home":{"Projects":{"x":{"Text":"y"}}}}"#);
    let parsed: serde_json::Value = serde_json::from_str(&text).unwrap();
    assert_eq!(parsed["home"]["Projects"]["x"]["Text"], serde_json::Value::String("y".to_string()));
}

#[test]
fn duplicate_copies_values() {
    let v = Value::Projects(vec![("k".to_string(), Value::Tasks(vec![task("1", "p", "c")]))]);
    let d = v.duplicate();
    assert_eq!(d.to_string(), v.to_string());
}

#[test]
fn cache_json_is_valid_json() {
    let mut store = PersistentStore::empty("s.json".to_string());
    store.set("duration", Value::Int(300));
    store.set("api_key", Value::Text("k\"\\\u{1}".to_string()));
    store.set("tasks", Value::Tasks(vec![task("7", "8", "nine")]));
    let json = store.cache_json();
    let parsed: serde_json::Value = serde_json::from_str(&json).unwrap();
    assert_eq!(parsed["duration"]["Int"], serde_json::Value::from(300u64));
}

#[test]
fn ensure_duration_sets_default_once() {
    let mut store = PersistentStore::empty("s.json".to_string());
    assert!(store.ensure_duration());
    assert_eq!(int_of(store.get("duration")), Some(DEFAULT_DURATION));
    store.set("duration", Value::Int(25));
    assert!(!store.ensure_duration());
    assert_eq!(int_of(store.get("duration")), Some(25));
}

#[test]
fn store_paths_join_components() {
    assert_eq!(store_dir_path("/home/u/.local/share"), "/home/u/.local/share/yappy");
    assert_eq!(settings_store_path("/home/u/.local/share"), "/home/u/.local/share/yappy/settings.json");
    assert_eq!(tasks_store_path("/data/"), "/data/yappy/tasks.json");
    assert_eq!(tasks_store_path(""), "yappy/tasks.json");
    let p = std::path::PathBuf::from("/data/").join("yappy").join("tasks.json");
    assert_eq!(tasks_store_path("/data/"), p.to_str().unwrap());
}

#[test]
fn new_settings_and_tasks_use_their_files() {
    let s = PersistentStore::new_settings("/d", &vec![]);
    assert_eq!(s.file_path(), "/d/yappy/settings.json");
    let t = PersistentStore::new_tasks("/d", &vec![("tasks".to_string(), Value::Tasks(vec![]))]);
    assert_eq!(t.file_path(), "/d/yappy/tasks.json");
    assert!(t.check("tasks"));
}

#[test]
fn cache_json_escapes_like_serde_json() {
    let mut store = PersistentStore::empty("s.json".to_string());
    let mut all = String::new();
    for c in 0u32..0x80 {
        all.push(char::from_u32(c).unwrap());
    }
    all.push_str("é€😀");
    store.set("k", Value::Text(all.clone()));
    let expected = format!("{{\"k\":{{\"Text\":{}}}}}", serde_json::to_string(&all).unwrap());
    assert_eq!(store.cache_json(), expected);
}

#[test]
fn distinct_texts_stay_distinct_in_json() {
    let texts = ["\\b", "\u{8}", "\\u0001", "\u{1}", "\"", "\\\"", "a", "A", ""];
    let mut seen = std::collections::HashSet::new();
    for t in texts {
        let mut out = String::new();
        yappy::json::push_json_string(&mut out, t);
        assert_eq!(out, serde_json::to_string(t).unwrap());
        assert!(seen.insert(out));
    }
}

/// Rebuilds a stored value from the JSON that serde_json reads back.
fn value_from_json(v: &serde_json::Value) -> Value {
    let obj = v.as_object().unwrap();
    assert_eq!(obj.len(), 1);
    let (tag, inner) = obj.iter().next().unwrap();
    match tag.as_str() {
        "Int" => Value::Int(inner.as_u64().unwrap()),
        "Text" => Value::Text(inner.as_str().unwrap().to_string()),
        "Tasks" => Value::Tasks(
            inner
                .as_array()
                .unwrap()
                .iter()
                .map(|t| task(t["id"].as_str().unwrap(), t["project_id"].as_str().unwrap(), t["content"].as_str().unwrap()))
                .collect(),
        ),
        "Projects" => Value::Projects(
            inner.as_object().unwrap().iter().map(|(k, v)| (k.clone(), value_from_json(v))).collect(),
        ),
        _ => panic!("unknown tag {}", tag),
    }
}

#[test]
fn written_store_reads_back_the_same() {
    let mut store = PersistentStore::empty("s.json".to_string());
    store.set("duration", Value::Int(1500));
    store.set("api_key", Value::Text("k\"\\\n\u{1}é".to_string()));
    store.set("tasks", Value::Tasks(vec![task("1", "p", "one \"quoted\"")]));
    store.set("projects", Value::Projects(vec![("a".to_string(), Value::Int(1))]));
    let parsed: serde_json::Value = serde_json::from_str(&store.cache_json()).unwrap();
    let contents: Vec<(String, Value)> =
        parsed.as_object().unwrap().iter().map(|(k, v)| (k.clone(), value_from_json(v))).collect();
    let read = PersistentStore::new("s.json".to_string(), &contents);
    for key in ["duration", "api_key", "tasks", "projects"] {
        assert_eq!(read.get(key).unwrap().to_string(), store.get(key).unwrap().to_string());
    }
    assert!(!read.check("other"));
}

#[test]
fn well_formed_values_have_unique_names() {
    assert!(Value::Int(1).is_well_formed());
    assert!(Value::Projects(vec![("a".to_string(), Value::Int(1)), ("b".to_string(), Value::Int(2))]).is_well_formed());
    assert!(!Value::Projects(vec![("a".to_string(), Value::Int(1)), ("a".to_string(), Value::Int(2))]).is_well_formed());
    let nested_bad = Value::Projects(vec![(
        "outer".to_string(),
        Value::Projects(vec![("x".to_string(), Value::Int(1)), ("x".to_string(), Value::Int(1))]),
    )]);
    assert!(!nested_bad.is_well_formed());
    assert!(yappy::store::entries_well_formed(&vec![]));
    assert!(!yappy::store::entries_well_formed(&vec![
        ("k".to_string(), Value::Int(1)),
        ("k".to_string(), Value::Text("t".to_string())),
    ]));
}
