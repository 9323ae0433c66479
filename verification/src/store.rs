//! The key-value settings store and the values it holds.
use vstd::prelude::*;
use crate::todoist::{Task, TaskView, tasks_view, duplicate_tasks};
use crate::text::{decimal, u64_to_decimal, chars_of};
use crate::json::{json_tasks, json_object, push_json_tasks, push_json_members};

verus! {

/// A stored value.
#[derive(Debug)]
pub enum Value {
    Int(u64),
    Text(String),
    Tasks(Vec<Task>),
    Projects(Vec<(String, Value)>),
}

/// What a stored value holds, with text as character sequences.
pub enum ValueView {
    Int(u64),
    Text(Seq<char>),
    Tasks(Seq<TaskView>),
    Projects(Seq<(Seq<char>, ValueView)>),
}

/// The view of a value.
pub open spec fn value_view(v: Value) -> ValueView
    decreases v,
{
    match v {
        Value::Int(i) => ValueView::Int(i),
        Value::Text(t) => ValueView::Text(t@),
        Value::Tasks(ts) => ValueView::Tasks(tasks_view(ts@)),
        Value::Projects(es) => ValueView::Projects(entries_view(es@)),
    }
}

/// The view of a list of named values.
pub open spec fn entries_view(es: Seq<(String, Value)>) -> Seq<(Seq<char>, ValueView)>
    decreases es,
{
    if es.len() == 0 {
        Seq::empty()
    } else {
        entries_view(es.drop_last()).push((es.last().0@, value_view(es.last().1)))
    }
}

} // verus!

verus! {

/// The entries view has one pair per entry, in order.
pub proof fn lemma_entries_view_index(es: Seq<(String, Value)>)
    ensures
        entries_view(es).len() == es.len(),
        forall|i: int|
            0 <= i < es.len() ==> #[trigger] entries_view(es)[i] == (es[i].0@, value_view(es[i].1)),
    decreases es.len(),
{
    if es.len() > 0 {
        lemma_entries_view_index(es.drop_last());
    }
}

impl Value {
    /// A copy of the value with the same content.
    pub fn duplicate(&self) -> (r: Value)
        ensures
            value_view(r) == value_view(*self),
        decreases self,
    {
        match self {
            Value::Int(i) => Value::Int(*i),
            Value::Text(t) => Value::Text(t.clone()),
            Value::Tasks(ts) => Value::Tasks(duplicate_tasks(ts)),
            Value::Projects(es) => Value::Projects(duplicate_entries(es)),
        }
    }
}

/// A copy of a list of named values.
pub fn duplicate_entries(es: &Vec<(String, Value)>) -> (r: Vec<(String, Value)>)
    ensures
        entries_view(r@) == entries_view(es@),
    decreases es,
{
    let mut r: Vec<(String, Value)> = Vec::new();
    for i in 0..es.len()
        invariant
            entries_view(r@) == entries_view(es@.take(i as int)),
    {
        assert(decreases_to!(es => es@[i as int].1));
        let v = es[i].1.duplicate();
        let k = es[i].0.clone();
        proof {
            let ghost old_r = r@;
            assert(old_r.push((k, v)).drop_last() == old_r);
            assert(es@.take(i + 1).drop_last() == es@.take(i as int));
        }
        r.push((k, v));
    }
    assert(es@.take(es@.len() as int) == es@);
    r
}

} // verus!

verus! {

/// The map that a list of named values describes; a later entry for a key
/// replaces an earlier one.
pub open spec fn entries_map(es: Seq<(Seq<char>, ValueView)>) -> Map<Seq<char>, ValueView>
    decreases es.len(),
{
    if es.len() == 0 {
        Map::empty()
    } else {
        entries_map(es.drop_last()).insert(es.last().0, es.last().1)
    }
}

/// Where among the entries `k` stands, if it does.
pub open spec fn key_position(es: Seq<(Seq<char>, ValueView)>, k: Seq<char>) -> Option<int> {
    if exists|i: int| 0 <= i < es.len() && es[i].0 == k {
        Some(choose|i: int| 0 <= i < es.len() && es[i].0 == k)
    } else {
        None
    }
}

/// No key occurs twice.
pub open spec fn keys_unique(es: Seq<(Seq<char>, ValueView)>) -> bool {
    forall|i: int, j: int| 0 <= i < es.len() && 0 <= j < es.len() && i != j ==> es[i].0 != es[j].0
}

/// A value as a map can hold it: the names among named values are unique,
/// at every depth.
pub open spec fn value_wf(v: ValueView) -> bool
    decreases v,
{
    match v {
        ValueView::Projects(es) => keys_unique(es) && entries_wf(es),
        _ => true,
    }
}

/// Every value among the named values is well formed.
pub open spec fn entries_wf(es: Seq<(Seq<char>, ValueView)>) -> bool
    decreases es,
{
    if es.len() == 0 {
        true
    } else {
        entries_wf(es.drop_last()) && value_wf(es.last().1)
    }
}

/// Named values are well formed exactly when each value is.
pub proof fn lemma_entries_wf(es: Seq<(Seq<char>, ValueView)>)
    ensures
        entries_wf(es) <==> forall|i: int| 0 <= i < es.len() ==> value_wf(#[trigger] es[i].1),
    decreases es.len(),
{
    if es.len() > 0 {
        let p = es.drop_last();
        lemma_entries_wf(p);
        if entries_wf(es) {
            assert forall|i: int| 0 <= i < es.len() implies value_wf(#[trigger] es[i].1) by {
                if i < p.len() {
                    assert(es[i] == p[i]);
                }
            }
        }
        if forall|i: int| 0 <= i < es.len() ==> value_wf(#[trigger] es[i].1) {
            assert forall|i: int| 0 <= i < p.len() implies value_wf(#[trigger] p[i].1) by {
                assert(es[i] == p[i]);
            }
            assert(value_wf(es[es.len() - 1].1));
        }
    }
}

/// A key is in the map exactly when some entry has it, and with unique keys
/// the map holds each entry's value.
pub proof fn lemma_entries_map(es: Seq<(Seq<char>, ValueView)>)
    requires
        keys_unique(es),
    ensures
        forall|k: Seq<char>|
            #[trigger] entries_map(es).contains_key(k) <==> exists|i: int| 0 <= i < es.len() && es[i].0 == k,
        forall|i: int| 0 <= i < es.len() ==> #[trigger] entries_map(es)[es[i].0] == es[i].1,
    decreases es.len(),
{
    if es.len() > 0 {
        let p = es.drop_last();
        lemma_entries_map(p);
        let last = es.len() - 1;
        assert(es[last] == es.last());
        assert(entries_map(es) == entries_map(p).insert(es.last().0, es.last().1));
        assert forall|k: Seq<char>|
            #[trigger] entries_map(es).contains_key(k) <==> exists|i: int| 0 <= i < es.len() && es[i].0 == k by {
            if entries_map(es).contains_key(k) && k != es.last().0 {
                assert(entries_map(p).contains_key(k));
                let i = choose|i: int| 0 <= i < p.len() && p[i].0 == k;
                assert(es[i].0 == k);
            }
            if exists|i: int| 0 <= i < es.len() && es[i].0 == k {
                let i = choose|i: int| 0 <= i < es.len() && es[i].0 == k;
                if i < p.len() {
                    assert(p[i].0 == k);
                }
            }
        }
        assert forall|i: int| 0 <= i < es.len() implies #[trigger] entries_map(es)[es[i].0] == es[i].1 by {
            if i < p.len() {
                assert(p[i] == es[i]);
                assert(es[i].0 != es.last().0);
            }
        }
    }
}

/// Replacing the value of an existing key updates that key of the map.
pub proof fn lemma_entries_map_update(es: Seq<(Seq<char>, ValueView)>, i: int, v: ValueView)
    requires
        keys_unique(es),
        0 <= i < es.len(),
    ensures
        entries_map(es.update(i, (es[i].0, v))) == entries_map(es).insert(es[i].0, v),
        keys_unique(es.update(i, (es[i].0, v))),
    decreases es.len(),
{
    let k = es[i].0;
    let u = es.update(i, (k, v));
    if i == es.len() - 1 {
        assert(u.drop_last() == es.drop_last());
        assert(entries_map(u) =~= entries_map(es).insert(k, v));
    } else {
        let p = es.drop_last();
        assert(u.drop_last() == p.update(i, (k, v)));
        lemma_entries_map_update(p, i, v);
        assert(es.last().0 != k);
        assert(entries_map(u) =~= entries_map(es).insert(k, v));
    }
}

/// Adding an entry with a new key adds that key to the map.
pub proof fn lemma_entries_map_push(es: Seq<(Seq<char>, ValueView)>, k: Seq<char>, v: ValueView)
    requires
        keys_unique(es),
        forall|i: int| 0 <= i < es.len() ==> es[i].0 != k,
    ensures
        entries_map(es.push((k, v))) == entries_map(es).insert(k, v),
        keys_unique(es.push((k, v))),
{
    assert(es.push((k, v)).drop_last() == es);
}

/// A set of named values that is kept in memory and written to a file
/// (the file itself is written by the caller, from `cache_json`).
pub struct PersistentStore {
    cache: Vec<(String, Value)>,
    file_path: String,
}

impl PersistentStore {
    #[verifier::type_invariant]
    closed spec fn inv(self) -> bool {
        &&& keys_unique(entries_view(self.cache@))
        &&& forall|i: int|
            0 <= i < entries_view(self.cache@).len() ==> value_wf(#[trigger] entries_view(self.cache@)[i].1)
    }

    /// The entries in the order in which they are kept and written.
    pub closed spec fn entries(&self) -> Seq<(Seq<char>, ValueView)> {
        entries_view(self.cache@)
    }

    /// The file that the store is written to.
    pub closed spec fn path(&self) -> Seq<char> {
        self.file_path@
    }

    /// The index of the entry for `key`, if there is one.
    fn find(&self, key: &String) -> (r: Option<usize>)
        ensures
            match r {
                Some(i) => i < self.entries().len() && self.entries()[i as int].0 == key@,
                None => forall|i: int| 0 <= i < self.entries().len() ==> self.entries()[i].0 != key@,
            },
    {
        proof {
            lemma_entries_view_index(self.cache@);
        }
        let mut i: usize = 0;
        while i < self.cache.len()
            invariant
                i <= self.cache@.len(),
                entries_view(self.cache@).len() == self.cache@.len(),
                forall|j: int|
                    0 <= j < entries_view(self.cache@).len() ==> #[trigger] entries_view(self.cache@)[j]
                        == (self.cache@[j].0@, value_view(self.cache@[j].1)),
                forall|j: int| 0 <= j < i ==> entries_view(self.cache@)[j].0 != key@,
            decreases self.cache@.len() - i,
        {
            if self.cache[i].0 == *key {
                return Some(i);
            }
            i = i + 1;
        }
        None
    }

    /// An empty store written to `file_path`.
    pub fn empty(file_path: String) -> (r: PersistentStore)
        ensures
            r.entries() == Seq::<(Seq<char>, ValueView)>::empty(),
            r.path() == file_path@,
    {
        let r = PersistentStore { cache: Vec::new(), file_path };
        assert(r.cache@ == Seq::<(String, Value)>::empty());
        r
    }

    /// A store written to `file_path`, holding the given named values; where a
    /// name occurs twice the later value is kept.
    pub fn new(file_path: String, contents: &Vec<(String, Value)>) -> (r: PersistentStore)
        requires
            entries_wf(entries_view(contents@)),
        ensures
            r@ == entries_map(entries_view(contents@)),
            r.path() == file_path@,
    {
        let mut store = PersistentStore::empty(file_path);
        proof {
            lemma_entries_view_index(contents@);
            lemma_entries_wf(entries_view(contents@));
        }
        for i in 0..contents.len()
            invariant
                entries_view(contents@).len() == contents@.len(),
                forall|j: int|
                    0 <= j < contents@.len() ==> #[trigger] entries_view(contents@)[j] == (
                        contents@[j].0@,
                        value_view(contents@[j].1),
                    ),
                forall|j: int| 0 <= j < contents@.len() ==> value_wf(#[trigger] entries_view(contents@)[j].1),
                store@ == entries_map(entries_view(contents@.take(i as int))),
                store.path() == file_path@,
        {
            let k = contents[i].0.clone();
            let v = contents[i].1.duplicate();
            assert(value_wf(entries_view(contents@)[i as int].1));
            store.insert(k, v);
            proof {
                let t = contents@.take(i + 1);
                assert(t.drop_last() == contents@.take(i as int));
                let ev = entries_view(t);
                assert(ev == entries_view(t.drop_last()).push((t.last().0@, value_view(t.last().1))));
                assert(ev.drop_last() == entries_view(t.drop_last()));
                assert(t.last() == contents@[i as int]);
            }
        }
        assert(contents@.take(contents@.len() as int) == contents@);
        store
    }

    /// Whether the store has a value for `key`.
    pub fn check(&self, key: &str) -> (r: bool)
        ensures
            r == self@.contains_key(key@),
    {
        proof {
            use_type_invariant(self);
            lemma_entries_map(self.entries());
        }
        let k = key.to_owned();
        match self.find(&k) {
            Some(i) => true,
            None => false,
        }
    }

    /// The value stored for `key`, if there is one.
    pub fn get(&self, key: &str) -> (r: Option<&Value>)
        ensures
            match r {
                Some(v) => self@.contains_key(key@) && value_view(*v) == self@[key@] && value_wf(value_view(*v)),
                None => !self@.contains_key(key@),
            },
    {
        proof {
            use_type_invariant(self);
            lemma_entries_map(self.entries());
            lemma_entries_view_index(self.cache@);
        }
        let k = key.to_owned();
        match self.find(&k) {
            Some(i) => Some(&self.cache[i].1),
            None => None,
        }
    }

    /// Stores `value` under `key`, replacing any value it had; a new key is
    /// added after the existing ones.
    pub fn insert(&mut self, key: String, value: Value)
        requires
            value_wf(value_view(value)),
        ensures
            final(self)@ == old(self)@.insert(key@, value_view(value)),
            final(self).path() == old(self).path(),
            match key_position(old(self).entries(), key@) {
                Some(i) => final(self).entries() == old(self).entries().update(i, (key@, value_view(value))),
                None => final(self).entries() == old(self).entries().push((key@, value_view(value))),
            },
    {
        proof {
            use_type_invariant(&*self);
            lemma_entries_view_index(self.cache@);
        }
        let ghost old_cache = self.cache@;
        let ghost kv = key@;
        let ghost vv = value_view(value);
        let found = self.find(&key);
        let mut cache: Vec<(String, Value)> = Vec::new();
        std::mem::swap(&mut cache, &mut self.cache);
        match found {
            Some(i) => {
                proof {
                    let es = entries_view(old_cache);
                    let j = choose|j: int| 0 <= j < es.len() && es[j].0 == kv;
                    assert(es[i as int].0 == kv);
                    assert(j == i);
                }
                cache.set(i, (key, value));
                proof {
                    lemma_entries_view_index(cache@);
                    lemma_entries_view_index(old_cache);
                    assert(entries_view(cache@) =~= entries_view(old_cache).update(i as int, (kv, vv)));
                    lemma_entries_map_update(entries_view(old_cache), i as int, vv);
                }
            }
            None => {
                cache.push((key, value));
                proof {
                    assert(cache@.drop_last() == old_cache);
                    lemma_entries_view_index(cache@);
                    lemma_entries_view_index(old_cache);
                    lemma_entries_map_push(entries_view(old_cache), kv, vv);
                }
            }
        }
        self.cache = cache;
    }

    /// Stores `value` under `key`, replacing any value it had.
    pub fn set(&mut self, key: &str, value: Value)
        requires
            value_wf(value_view(value)),
        ensures
            final(self)@ == old(self)@.insert(key@, value_view(value)),
            final(self).path() == old(self).path(),
    {
        self.insert(key.to_owned(), value);
    }
}

impl View for PersistentStore {
    type V = Map<Seq<char>, ValueView>;

    open spec fn view(&self) -> Map<Seq<char>, ValueView> {
        entries_map(self.entries())
    }
}

} // verus!

verus! {

/// The text of a value: a number in decimal, text as it is, tasks and named
/// values as JSON.
pub open spec fn value_text(v: ValueView) -> Seq<char> {
    match v {
        ValueView::Int(i) => decimal(i as nat),
        ValueView::Text(t) => t,
        ValueView::Tasks(ts) => json_tasks(ts),
        ValueView::Projects(es) => json_object(es),
    }
}

impl Value {
    /// The value as text.
    pub fn to_string(&self) -> (r: String)
        requires
            value_wf(value_view(*self)),
        ensures
            r@ == value_text(value_view(*self)),
    {
        match self {
            Value::Int(i) => u64_to_decimal(*i),
            Value::Text(t) => t.clone(),
            Value::Tasks(ts) => {
                let mut out = String::new();
                push_json_tasks(&mut out, ts);
                out
            },
            Value::Projects(es) => {
                let mut out = String::new();
                out.push('{');
                proof {
                    lemma_entries_wf(entries_view(es@));
                    lemma_entries_view_index(es@);
                }
                push_json_members(&mut out, es);
                out.push('}');
                assert(out@ =~= json_object(entries_view(es@)));
                out
            },
        }
    }

    /// The number held by an integer value.
    pub fn to_int(&self) -> (r: u64)
        requires
            self is Int,
        ensures
            value_view(*self) == ValueView::Int(r),
    {
        match self {
            Value::Int(i) => *i,
            _ => 0,
        }
    }
}

impl PersistentStore {
    /// The entries as a JSON object, in the order in which they are kept;
    /// each key appears once.
    pub fn cache_json(&self) -> (r: String)
        ensures
            r@ == json_object(self.entries()),
            keys_unique(self.entries()),
            forall|i: int| 0 <= i < self.entries().len() ==> value_wf(#[trigger] self.entries()[i].1),
    {
        proof {
            use_type_invariant(self);
            lemma_entries_view_index(self.cache@);
        }
        let mut out = String::new();
        out.push('{');
        push_json_members(&mut out, &self.cache);
        out.push('}');
        assert(out@ =~= json_object(self.entries()));
        out
    }

    /// The file that the store is written to.
    pub fn file_path(&self) -> (r: &String)
        ensures
            r@ == self.path(),
    {
        &self.file_path
    }
}

} // verus!

verus! {

/// `base` followed by the path component `name`, with a `/` between them
/// unless `base` is empty or already ends with one.
pub open spec fn join_path(base: Seq<char>, name: Seq<char>) -> Seq<char> {
    if base.len() == 0 {
        name
    } else if base.last() == '/' {
        base + name
    } else {
        base + seq!['/'] + name
    }
}

/// The directory, under the user's data directory, that holds the stores.
pub open spec fn store_dir(data_home: Seq<char>) -> Seq<char> {
    join_path(data_home, "yappy"@)
}

/// Joins a path component onto a path.
pub fn push_path(base: &mut String, name: &str)
    ensures
        final(base)@ == join_path(old(base)@, name@),
{
    let cs = chars_of(base.as_str());
    if cs.len() > 0 && cs[cs.len() - 1] != '/' {
        base.push('/');
    }
    base.append(name);
}

/// The directory, under the user's data directory `data_home`, that holds
/// the stores.
pub fn store_dir_path(data_home: &str) -> (r: String)
    ensures
        r@ == store_dir(data_home@),
{
    let mut p = data_home.to_owned();
    push_path(&mut p, "yappy");
    p
}

/// The file of the settings store under the user's data directory.
pub fn settings_store_path(data_home: &str) -> (r: String)
    ensures
        r@ == join_path(store_dir(data_home@), "settings.json"@),
{
    let mut p = store_dir_path(data_home);
    push_path(&mut p, "settings.json");
    p
}

/// The file of the task store under the user's data directory.
pub fn tasks_store_path(data_home: &str) -> (r: String)
    ensures
        r@ == join_path(store_dir(data_home@), "tasks.json"@),
{
    let mut p = store_dir_path(data_home);
    push_path(&mut p, "tasks.json");
    p
}

impl PersistentStore {
    /// The settings store under the user's data directory, holding the named
    /// values read from its file.
    pub fn new_settings(data_home: &str, contents: &Vec<(String, Value)>) -> (r: PersistentStore)
        requires
            entries_wf(entries_view(contents@)),
        ensures
            r@ == entries_map(entries_view(contents@)),
            r.path() == join_path(store_dir(data_home@), "settings.json"@),
    {
        PersistentStore::new(settings_store_path(data_home), contents)
    }

    /// The task store under the user's data directory, holding the named
    /// values read from its file.
    pub fn new_tasks(data_home: &str, contents: &Vec<(String, Value)>) -> (r: PersistentStore)
        requires
            entries_wf(entries_view(contents@)),
        ensures
            r@ == entries_map(entries_view(contents@)),
            r.path() == join_path(store_dir(data_home@), "tasks.json"@),
    {
        PersistentStore::new(tasks_store_path(data_home), contents)
    }
}

} // verus!

verus! {

/// The duration of a pomodoro, in seconds, when none is configured.
pub const DEFAULT_DURATION: u64 = 300;

impl PersistentStore {
    /// Gives the store the default duration when it has none; the result
    /// says whether the store changed.
    pub fn ensure_duration(&mut self) -> (changed: bool)
        ensures
            changed == !old(self)@.contains_key("duration"@),
            changed ==> final(self)@ == old(self)@.insert("duration"@, ValueView::Int(DEFAULT_DURATION)),
            !changed ==> final(self)@ == old(self)@,
            final(self).path() == old(self).path(),
    {
        if !self.check("duration") {
            self.set("duration", Value::Int(DEFAULT_DURATION));
            true
        } else {
            false
        }
    }
}

/// A read gives back what the last write to its key wrote, and a write to
/// one key leaves every other key as it was.
pub proof fn law_get_after_set(before: PersistentStore, after: PersistentStore, key: Seq<char>, value: ValueView, other: Seq<char>)
    requires
        after@ == before@.insert(key, value),
        other != key,
    ensures
        after@.contains_key(key),
        after@[key] == value,
        after@.contains_key(other) == before@.contains_key(other),
        before@.contains_key(other) ==> after@[other] == before@[other],
{
}

/// Writing the value a key already has changes nothing.
pub proof fn law_set_same_value(before: PersistentStore, after: PersistentStore, key: Seq<char>)
    requires
        before@.contains_key(key),
        after@ == before@.insert(key, before@[key]),
    ensures
        after@ == before@,
{
    assert(after@ =~= before@);
}

} // verus!

verus! {

impl Value {
    /// Whether the value is well formed: no name occurs twice among named
    /// values, at any depth.
    pub fn is_well_formed(&self) -> (r: bool)
        ensures
            r == value_wf(value_view(*self)),
        decreases self,
    {
        match self {
            Value::Projects(es) => entries_well_formed(es),
            _ => true,
        }
    }
}

/// Whether named values have unique names and well-formed values.
pub fn entries_well_formed(es: &Vec<(String, Value)>) -> (r: bool)
    ensures
        r == (keys_unique(entries_view(es@)) && entries_wf(entries_view(es@))),
    decreases es,
{
    proof {
        lemma_entries_view_index(es@);
        lemma_entries_wf(entries_view(es@));
    }
    let ghost ev = entries_view(es@);
    for i in 0..es.len()
        invariant
            ev == entries_view(es@),
            ev.len() == es@.len(),
            forall|j: int| 0 <= j < es@.len() ==> #[trigger] ev[j] == (es@[j].0@, value_view(es@[j].1)),
            entries_wf(ev) <==> forall|j: int| 0 <= j < ev.len() ==> value_wf(#[trigger] ev[j].1),
            keys_unique(ev.take(i as int)),
            forall|j: int| 0 <= j < i ==> value_wf(#[trigger] ev[j].1),
    {
        assert(decreases_to!(es => es@[i as int].1));
        if !es[i].1.is_well_formed() {
            assert(!value_wf(ev[i as int].1));
            assert(!entries_wf(ev));
            return false;
        }
        for j in 0..i
            invariant
                i < es@.len(),
                ev == entries_view(es@),
                ev.len() == es@.len(),
                forall|k: int| 0 <= k < es@.len() ==> #[trigger] ev[k] == (es@[k].0@, value_view(es@[k].1)),
                forall|k: int| 0 <= k < j ==> ev[k].0 != ev[i as int].0,
        {
            if es[j].0 == es[i].0 {
                assert(ev[j as int].0 == ev[i as int].0);
                assert(!keys_unique(ev));
                return false;
            }
        }
        proof {
            let t = ev.take(i + 1);
            assert forall|a: int, b: int| 0 <= a < t.len() && 0 <= b < t.len() && a != b implies t[a].0 != t[b].0 by {
                if a < i && b < i {
                    assert(ev.take(i as int)[a] == t[a]);
                    assert(ev.take(i as int)[b] == t[b]);
                }
            }
        }
    }
    assert(ev.take(es@.len() as int) == ev);
    true
}

} // verus!
