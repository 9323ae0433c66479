//! Todoist tasks and the client state that keeps them.
use vstd::prelude::*;
use crate::store::{PersistentStore, Value, ValueView, value_view, value_text};

verus! {

/// A task as the Todoist REST API describes it.
#[derive(Debug, Clone, PartialEq, Eq)]
pub struct Task {
    pub id: String,
    pub project_id: String,
    pub content: String,
}

/// A task with its project resolved to a name.
#[derive(Debug, Clone)]
pub struct FullTask {
    pub id: String,
    pub project: String,
    pub content: String,
}

/// The text of a task's fields.
pub struct TaskView {
    pub id: Seq<char>,
    pub project_id: Seq<char>,
    pub content: Seq<char>,
}

impl View for Task {
    type V = TaskView;

    open spec fn view(&self) -> TaskView {
        TaskView { id: self.id@, project_id: self.project_id@, content: self.content@ }
    }
}

pub open spec fn tasks_view(tasks: Seq<Task>) -> Seq<TaskView> {
    tasks.map_values(|t: Task| t@)
}

impl Task {
    /// A copy of the task with the same text in every field.
    pub fn duplicate(&self) -> (r: Task)
        ensures
            r@ == self@,
    {
        Task { id: self.id.clone(), project_id: self.project_id.clone(), content: self.content.clone() }
    }
}

/// A copy of a list of tasks, field for field.
pub fn duplicate_tasks(tasks: &Vec<Task>) -> (r: Vec<Task>)
    ensures
        tasks_view(r@) == tasks_view(tasks@),
{
    let mut r: Vec<Task> = Vec::new();
    for i in 0..tasks.len()
        invariant
            r@.len() == i,
            forall|j: int| 0 <= j < i ==> #[trigger] r@[j]@ == tasks@[j]@,
    {
        r.push(tasks[i].duplicate());
    }
    assert(tasks_view(r@) =~= tasks_view(tasks@));
    r
}

} // verus!

verus! {

/// An error of the `anyhow` crate.
#[verifier::external_type_specification]
#[verifier::external_body]
pub struct ExAnyhowError(anyhow::Error);

/// The text of an optional string.
pub open spec fn opt_text(s: Option<String>) -> Option<Seq<char>> {
    match s {
        Some(t) => Some(t@),
        None => None,
    }
}

/// The tasks that a task store holds under `"tasks"`, or none when it holds
/// no task list there.
pub open spec fn stored_tasks(store: Map<Seq<char>, ValueView>) -> Seq<TaskView> {
    if store.contains_key("tasks"@) {
        match store["tasks"@] {
            ValueView::Tasks(ts) => ts,
            _ => Seq::empty(),
        }
    } else {
        Seq::empty()
    }
}

/// The `Authorization` header of a Todoist request made with `key`.
pub open spec fn bearer(key: Seq<char>) -> Seq<char> {
    "Bearer "@ + key
}

/// Whether a response status is a success (2xx); only then are the fetched
/// tasks read and stored.
pub fn is_success_status(status: u16) -> (r: bool)
    ensures
        r == (200 <= status && status < 300),
{
    200 <= status && status < 300
}

/// The Todoist client state: the API key, if one is set, and the store in
/// which fetched tasks are kept.
pub struct Todoist {
    pub api_key: Option<String>,
    pub store: PersistentStore,
}

impl Todoist {
    /// A client with the given key and task store.
    pub fn new(api_key: Option<String>, store: PersistentStore) -> (r: Todoist)
        ensures
            opt_text(r.api_key) == opt_text(api_key),
            r.store@ == store@,
            r.store.entries() == store.entries(),
            r.store.path() == store.path(),
    {
        Todoist { api_key, store }
    }

    /// Takes the API key from the settings: the text of the value stored
    /// under `"api_key"`, or no key when there is none.
    pub fn update_api_key(&mut self, settings: &PersistentStore)
        ensures
            opt_text(final(self).api_key) == (if settings@.contains_key("api_key"@) {
                Some(value_text(settings@["api_key"@]))
            } else {
                None::<Seq<char>>
            }),
            final(self).store == old(self).store,
    {
        let key = match settings.get("api_key") {
            Some(v) => Some(v.to_string()),
            None => None,
        };
        self.set_api_key(key);
    }

    /// Replaces the API key.
    pub fn set_api_key(&mut self, api_key: Option<String>)
        ensures
            opt_text(final(self).api_key) == opt_text(api_key),
            final(self).store == old(self).store,
    {
        self.api_key = api_key;
    }

    /// The stored tasks; none when the store holds no task list.
    pub fn get_tasks(&self) -> (r: Result<Vec<Task>, anyhow::Error>)
        ensures
            r matches Ok(ts) && tasks_view(ts@) == stored_tasks(self.store@),
    {
        match self.store.get("tasks") {
            Some(Value::Tasks(tasks)) => Ok(duplicate_tasks(tasks)),
            _ => Ok(Vec::new()),
        }
    }

    /// The `Authorization` header for requests, when an API key is set.
    pub fn authorization(&self) -> (r: Option<String>)
        ensures
            match self.api_key {
                Some(k) => r matches Some(h) && h@ == bearer(k@),
                None => r is None,
            },
    {
        match &self.api_key {
            Some(k) => {
                let mut h = "Bearer ".to_owned();
                h.append(k.as_str());
                Some(h)
            },
            None => None,
        }
    }

    /// The outcome of a fetch of today's tasks: the response status, and the
    /// tasks when the body was read and decoded. They are stored only after a
    /// successful (2xx) response whose body decoded; otherwise the store is
    /// left as it was. The result says whether they were stored.
    pub fn tasks_fetched(&mut self, status: u16, tasks: Option<Vec<Task>>) -> (stored: bool)
        ensures
            stored == (200 <= status && status < 300 && tasks is Some),
            stored ==> final(self).store@ == old(self).store@.insert(
                "tasks"@,
                ValueView::Tasks(tasks_view(tasks->0@)),
            ),
            !stored ==> final(self).store@ == old(self).store@,
            final(self).store.path() == old(self).store.path(),
            opt_text(final(self).api_key) == opt_text(old(self).api_key),
    {
        if !is_success_status(status) {
            return false;
        }
        match tasks {
            Some(tasks) => {
                self.store_tasks(tasks);
                true
            },
            None => false,
        }
    }

    /// Keeps fetched tasks in the task store under `"tasks"`.
    pub fn store_tasks(&mut self, tasks: Vec<Task>)
        ensures
            final(self).store@ == old(self).store@.insert("tasks"@, ValueView::Tasks(tasks_view(tasks@))),
            final(self).store.path() == old(self).store.path(),
            opt_text(final(self).api_key) == opt_text(old(self).api_key),
            stored_tasks(final(self).store@) == tasks_view(tasks@),
    {
        self.store.set("tasks", Value::Tasks(tasks));
    }
}

} // verus!
