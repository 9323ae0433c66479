//! The state of the timer and of its integrations.
use vstd::prelude::*;
use crate::store::{PersistentStore, ValueView, value_text};
use crate::todoist::{Todoist, opt_text};
use crate::firebase::FirebaseClient;

verus! {

/// The text of the setting `key`, if it is set.
pub open spec fn setting_text(settings: Map<Seq<char>, ValueView>, key: Seq<char>) -> Option<Seq<char>> {
    if settings.contains_key(key) {
        Some(value_text(settings[key]))
    } else {
        None
    }
}

/// The state of the timer and of its integrations.
pub struct AppState {
    /// Set when the running countdown is to pause at its next second.
    pub pause_switch: bool,
    /// Set when the running countdown is to be abandoned at its next second.
    pub kill_switch: bool,
    /// The seconds left of a paused or running pomodoro.
    pub remaining: Option<u64>,
    pub settings: PersistentStore,
    pub todoist: Todoist,
    pub firebase: FirebaseClient,
}

/// What the state holds, with text as character sequences.
pub struct AppView {
    pub pause_switch: bool,
    pub kill_switch: bool,
    pub remaining: Option<u64>,
    pub settings: Map<Seq<char>, ValueView>,
    pub api_key: Option<Seq<char>>,
    pub task_store: Map<Seq<char>, ValueView>,
    pub firebase_address: Option<Seq<char>>,
    pub firebase_auth_key: Option<Seq<char>>,
}

impl View for AppState {
    type V = AppView;

    open spec fn view(&self) -> AppView {
        AppView {
            pause_switch: self.pause_switch,
            kill_switch: self.kill_switch,
            remaining: self.remaining,
            settings: self.settings@,
            api_key: opt_text(self.todoist.api_key),
            task_store: self.todoist.store@,
            firebase_address: opt_text(self.firebase.address),
            firebase_auth_key: opt_text(self.firebase.auth_key),
        }
    }
}

/// The text of a setting, read from the store.
fn setting_string(settings: &PersistentStore, key: &str) -> (r: Option<String>)
    ensures
        opt_text(r) == setting_text(settings@, key@),
{
    match settings.get(key) {
        Some(v) => Some(v.to_string()),
        None => None,
    }
}

impl AppState {
    /// The state at start-up: no pomodoro, the Todoist key and the Firebase
    /// configuration taken from the settings, and the given task store.
    pub fn new(settings: PersistentStore, task_store: PersistentStore) -> (r: AppState)
        ensures
            r@ == (AppView {
                pause_switch: false,
                kill_switch: false,
                remaining: None,
                settings: settings@,
                api_key: setting_text(settings@, "api_key"@),
                task_store: task_store@,
                firebase_address: setting_text(settings@, "firebase_address"@),
                firebase_auth_key: setting_text(settings@, "firebase_auth_key"@),
            }),
            r.settings.path() == settings.path(),
            r.todoist.store.path() == task_store.path(),
    {
        let api_key = setting_string(&settings, "api_key");
        let todoist = Todoist::new(api_key, task_store);
        let address = setting_string(&settings, "firebase_address");
        let auth_key = setting_string(&settings, "firebase_auth_key");
        let firebase = FirebaseClient::new(address, auth_key);
        AppState { pause_switch: false, kill_switch: false, remaining: None, settings, todoist, firebase }
    }
}

} // verus!
