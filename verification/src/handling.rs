//! The decisions of the timer: what a message does to the state, and what
//! each second of a running countdown does.
use vstd::prelude::*;
use crate::text::chars_of;
use crate::{InternalMessage, MessageView, clock_text, seconds_to_string};
use crate::state::{AppState, AppView, setting_text};
use crate::store::{Value, ValueView};
use crate::todoist::{Task, TaskView, tasks_view, stored_tasks};

verus! {

/// The texts of a list of strings.
pub open spec fn texts(v: Seq<String>) -> Seq<Seq<char>> {
    v.map_values(|s: String| s@)
}

/// The pieces of `s` of `size` consecutive characters, the last piece
/// first; `s` itself when it is no longer than `size`.
pub open spec fn windows_rev(s: Seq<char>, size: nat) -> Seq<Seq<char>> {
    if s.len() <= size {
        seq![s]
    } else {
        Seq::new(
            (s.len() - size + 1) as nat,
            |k: int| s.subrange(s.len() - size - k, s.len() - k),
        )
    }
}

/// The string made of `cs[from..to]`.
fn string_from(cs: &Vec<char>, from: usize, to: usize) -> (r: String)
    requires
        from <= to <= cs@.len(),
    ensures
        r@ == cs@.subrange(from as int, to as int),
{
    let mut r = String::new();
    for i in from..to
        invariant
            to <= cs@.len(),
            r@ == cs@.subrange(from as int, i as int),
    {
        r.push(cs[i]);
        assert(r@ =~= cs@.subrange(from as int, i + 1));
    }
    r
}

/// All pieces of `s` of `window_size` consecutive characters, the last one
/// first, or `s` itself when it is no longer than `window_size`.
pub fn sliding_window(s: &str, window_size: usize) -> (r: Vec<String>)
    requires
        s@.len() <= window_size || window_size > 0,
    ensures
        texts(r@) == windows_rev(s@, window_size as nat),
        r@.len() >= 1,
{
    let cs = chars_of(s);
    if cs.len() <= window_size {
        let mut r: Vec<String> = Vec::new();
        r.push(s.to_owned());
        assert(texts(r@) =~= windows_rev(s@, window_size as nat));
        return r;
    }
    let n = cs.len();
    let count = n - window_size + 1;
    let mut r: Vec<String> = Vec::new();
    for k in 0..count
        invariant
            cs@ == s@,
            n == cs@.len(),
            n > window_size,
            count == n - window_size + 1,
            r@.len() == k,
            forall|j: int| 0 <= j < k ==> #[trigger] r@[j]@ == s@.subrange(n - window_size - j, n - j),
    {
        let w = string_from(&cs, n - window_size - k, n - k);
        r.push(w);
    }
    assert(texts(r@) =~= windows_rev(s@, window_size as nat));
    r
}

/// Each piece is `size` characters of `s`, taken at consecutive positions
/// from the end: the piece at index `k` ends `k` characters before the end.
pub proof fn law_windows_are_pieces(s: Seq<char>, size: nat)
    requires
        s.len() > size,
    ensures
        windows_rev(s, size).len() == s.len() - size + 1,
        forall|k: int|
            0 <= k < windows_rev(s, size).len() ==> (#[trigger] windows_rev(s, size)[k]).len() == size
                && windows_rev(s, size)[k] == s.subrange(s.len() - size - k, s.len() - k),
{
}

} // verus!

verus! {

/// Something the timer asks its surroundings to do.
#[derive(Debug, Clone, PartialEq, Eq)]
pub enum Effect {
    /// Enable or disable an item of the tray menu.
    SetTrayItem { id: String, enabled: bool },
    /// Send an event to the main window.
    Emit { event: String, payload: String },
    /// Show a text in the status bar.
    Status(String),
    /// Show a desktop notification.
    Notify(String),
    /// Write the settings store to its file.
    PersistSettings,
    /// Start a countdown.
    StartCountdown,
    /// Fetch today's tasks from Todoist, store them and send them to the main
    /// window.
    ReloadTasks,
}

/// What an effect asks for, with text as character sequences.
pub enum EffectView {
    SetTrayItem { id: Seq<char>, enabled: bool },
    Emit { event: Seq<char>, payload: Seq<char> },
    Status(Seq<char>),
    Notify(Seq<char>),
    PersistSettings,
    StartCountdown,
    ReloadTasks,
}

impl View for Effect {
    type V = EffectView;

    open spec fn view(&self) -> EffectView {
        match self {
            Effect::SetTrayItem { id, enabled } => EffectView::SetTrayItem { id: id@, enabled: *enabled },
            Effect::Emit { event, payload } => EffectView::Emit { event: event@, payload: payload@ },
            Effect::Status(s) => EffectView::Status(s@),
            Effect::Notify(s) => EffectView::Notify(s@),
            Effect::PersistSettings => EffectView::PersistSettings,
            Effect::StartCountdown => EffectView::StartCountdown,
            Effect::ReloadTasks => EffectView::ReloadTasks,
        }
    }
}

pub open spec fn effects_view(v: Seq<Effect>) -> Seq<EffectView> {
    v.map_values(|e: Effect| e@)
}

pub open spec fn tray(id: Seq<char>, enabled: bool) -> EffectView {
    EffectView::SetTrayItem { id, enabled }
}

pub open spec fn emit(event: Seq<char>, payload: Seq<char>) -> EffectView {
    EffectView::Emit { event, payload }
}

fn tray_effect(id: &str, enabled: bool) -> (r: Effect)
    ensures
        r@ == tray(id@, enabled),
{
    Effect::SetTrayItem { id: id.to_owned(), enabled }
}

fn emit_effect(event: &str, payload: String) -> (r: Effect)
    ensures
        r@ == emit(event@, payload@),
{
    Effect::Emit { event: event.to_owned(), payload }
}

fn emit_empty(event: &str) -> (r: Effect)
    ensures
        r@ == emit(event@, ""@),
{
    Effect::Emit { event: event.to_owned(), payload: "".to_owned() }
}

fn status_effect(text: &str) -> (r: Effect)
    ensures
        r@ == EffectView::Status(text@),
{
    Effect::Status(text.to_owned())
}

fn notify_effect(text: &str) -> (r: Effect)
    ensures
        r@ == EffectView::Notify(text@),
{
    Effect::Notify(text.to_owned())
}

} // verus!

verus! {

/// The first task with the given id, if any.
pub open spec fn is_first_with_id(ts: Seq<TaskView>, id: Seq<char>, i: int) -> bool {
    &&& 0 <= i < ts.len()
    &&& ts[i].id == id
    &&& forall|j: int| 0 <= j < i ==> ts[j].id != id
}

pub open spec fn first_task_with_id(ts: Seq<TaskView>, id: Seq<char>) -> Option<int> {
    if exists|i: int| is_first_with_id(ts, id, i) {
        Some(choose|i: int| is_first_with_id(ts, id, i))
    } else {
        None
    }
}

/// The settings after `key` is given a text value.
pub open spec fn with_text(s: AppView, key: Seq<char>, text: Seq<char>) -> AppView {
    AppView { settings: s.settings.insert(key, ValueView::Text(text)), ..s }
}

/// The state after a message.
pub open spec fn message_next(s: AppView, m: MessageView) -> AppView {
    match m {
        MessageView::PomoStarted => s,
        MessageView::PomoFinished => s,
        MessageView::TasksRequested => s,
        MessageView::PomoPaused => AppView { pause_switch: true, ..s },
        MessageView::PomoReseted => if s.pause_switch {
            AppView { remaining: None, pause_switch: false, ..s }
        } else {
            AppView { kill_switch: true, ..s }
        },
        MessageView::DurationChanged(d) => AppView {
            settings: s.settings.insert("duration"@, ValueView::Int(d)),
            ..s
        },
        MessageView::TodoistApiKey(k) => AppView { api_key: Some(k), ..with_text(s, "api_key"@, k) },
        MessageView::TaskUnselected => with_text(s, "selected_task"@, ""@),
        MessageView::TaskSelected(id) => {
            let ts = stored_tasks(s.task_store);
            match first_task_with_id(ts, id) {
                Some(i) => with_text(s, "selected_task"@, ts[i].content),
                None => s,
            }
        },
        MessageView::FirebaseAddress(a) => with_text(s, "firebase_address"@, a),
        MessageView::FirebaseAuthKey(k) => with_text(s, "firebase_auth_key"@, k),
    }
}

/// What a message asks of the surroundings.
pub open spec fn message_effects(s: AppView, m: MessageView) -> Seq<EffectView> {
    match m {
        MessageView::PomoStarted => seq![EffectView::StartCountdown],
        MessageView::PomoFinished => seq![],
        MessageView::TasksRequested => seq![EffectView::ReloadTasks],
        MessageView::PomoPaused => seq![tray("start"@, true), tray("pause"@, false), tray("reset"@, true)],
        MessageView::PomoReseted => (if s.pause_switch {
            seq![emit("pomo_reseted"@, ""@), EffectView::Status("Waiting"@)]
        } else {
            seq![]
        }) + seq![tray("start"@, true), tray("pause"@, false), tray("reset"@, false)],
        MessageView::TaskSelected(id) => match first_task_with_id(stored_tasks(s.task_store), id) {
            Some(_) => seq![EffectView::PersistSettings],
            None => seq![],
        },
        _ => seq![EffectView::PersistSettings],
    }
}

/// The index of the first task with the given id.
fn find_task(tasks: &Vec<Task>, id: &String) -> (r: Option<usize>)
    ensures
        match r {
            Some(i) => first_task_with_id(tasks_view(tasks@), id@) == Some(i as int),
            None => first_task_with_id(tasks_view(tasks@), id@) is None,
        },
{
    let ghost ts = tasks_view(tasks@);
    for i in 0..tasks.len()
        invariant
            ts == tasks_view(tasks@),
            forall|j: int| 0 <= j < i ==> ts[j].id != id@,
    {
        if tasks[i].id == *id {
            proof {
                assert(is_first_with_id(ts, id@, i as int));
                let c = choose|k: int| is_first_with_id(ts, id@, k);
                assert(is_first_with_id(ts, id@, c));
                if c < i {
                    assert(ts[c].id != id@);
                } else if c > i {
                    assert(ts[i as int].id != id@);
                }
            }
            return Some(i);
        }
    }
    proof {
        if exists|k: int| is_first_with_id(ts, id@, k) {
            let k = choose|k: int| is_first_with_id(ts, id@, k);
            assert(ts[k].id == id@);
        }
    }
    None
}

/// Applies a message to the state; the result lists, in order, what the
/// surroundings are to do.
pub fn handle_message(state: &mut AppState, msg: InternalMessage) -> (r: Vec<Effect>)
    ensures
        final(state)@ == message_next(old(state)@, msg@),
        effects_view(r@) == message_effects(old(state)@, msg@),
        final(state).settings.path() == old(state).settings.path(),
        final(state).todoist.store.path() == old(state).todoist.store.path(),
{
    let ghost s0 = state@;
    let mut effects: Vec<Effect> = Vec::new();
    match msg {
        InternalMessage::PomoStarted => {
            effects.push(Effect::StartCountdown);
        },
        InternalMessage::PomoPaused => {
            state.pause_switch = true;
            effects.push(tray_effect("start", true));
            effects.push(tray_effect("pause", false));
            effects.push(tray_effect("reset", true));
        },
        InternalMessage::PomoReseted => {
            if state.pause_switch {
                effects.push(emit_empty("pomo_reseted"));
                state.remaining = None;
                effects.push(status_effect("Waiting"));
                state.pause_switch = false;
            } else {
                state.kill_switch = true;
            }
            effects.push(tray_effect("start", true));
            effects.push(tray_effect("pause", false));
            effects.push(tray_effect("reset", false));
        },
        InternalMessage::PomoFinished => {},
        InternalMessage::DurationChanged(d) => {
            state.settings.set("duration", Value::Int(d));
            effects.push(Effect::PersistSettings);
        },
        InternalMessage::TasksRequested => {
            effects.push(Effect::ReloadTasks);
        },
        InternalMessage::TodoistApiKey(api_key) => {
            state.settings.set("api_key", Value::Text(api_key.clone()));
            state.todoist.set_api_key(Some(api_key));
            effects.push(Effect::PersistSettings);
        },
        InternalMessage::TaskUnselected => {
            state.settings.set("selected_task", Value::Text("".to_owned()));
            effects.push(Effect::PersistSettings);
        },
        InternalMessage::TaskSelected(id) => {
            let tasks = match state.todoist.get_tasks() {
                Ok(tasks) => tasks,
                Err(_) => Vec::new(),
            };
            match find_task(&tasks, &id) {
                Some(i) => {
                    let content = tasks[i].content.clone();
                    state.settings.set("selected_task", Value::Text(content));
                    effects.push(Effect::PersistSettings);
                },
                None => {},
            }
        },
        InternalMessage::FirebaseAddress(address) => {
            state.settings.set("firebase_address", Value::Text(address));
            effects.push(Effect::PersistSettings);
        },
        InternalMessage::FirebaseAuthKey(key) => {
            state.settings.set("firebase_auth_key", Value::Text(key));
            effects.push(Effect::PersistSettings);
        },
    }
    assert(effects_view(effects@) =~= message_effects(s0, msg@));
    effects
}

} // verus!

verus! {

/// A running countdown: the second it shows next, counting down, and the
/// pieces of the selected task's text that the status bar cycles through.
pub struct Countdown {
    next: u64,
    windows: Vec<String>,
}

/// What a countdown holds, with text as character sequences.
pub struct CountdownView {
    pub next: u64,
    pub windows: Seq<Seq<char>>,
}

impl Countdown {
    #[verifier::type_invariant]
    closed spec fn inv(self) -> bool {
        self.windows@.len() > 0
    }

    /// The second shown next.
    pub fn next(&self) -> (r: u64)
        ensures
            r == self@.next,
    {
        self.next
    }

    /// The pieces of task text that the status bar cycles through.
    pub fn windows(&self) -> (r: &Vec<String>)
        ensures
            texts(r@) == self@.windows,
    {
        &self.windows
    }
}

impl View for Countdown {
    type V = CountdownView;

    closed spec fn view(&self) -> CountdownView {
        CountdownView { next: self.next, windows: texts(self.windows@) }
    }
}

/// The length of the pieces of the task text shown in the status bar.
pub const WINDOW_SIZE: usize = 24;

/// How long the countdown runs: what remains of a paused pomodoro, or else
/// the duration setting; nothing when neither is there.
pub open spec fn countdown_duration(s: AppView) -> Option<u64> {
    match s.remaining {
        Some(d) => Some(d),
        None => if s.settings.contains_key("duration"@) {
            match s.settings["duration"@] {
                ValueView::Int(d) => Some(d),
                _ => None,
            }
        } else {
            None
        },
    }
}

/// The text of the selected task, or `Not selected`.
pub open spec fn selected_task_text(s: AppView) -> Seq<char> {
    match setting_text(s.settings, "selected_task"@) {
        Some(t) => t,
        None => "Not selected"@,
    }
}

/// What starting a countdown asks of the surroundings.
pub open spec fn start_effects() -> Seq<EffectView> {
    seq![
        tray("start"@, false),
        tray("pause"@, true),
        tray("reset"@, true),
        emit("pomo_started"@, ""@),
        EffectView::Notify("Pomodoro started!"@),
    ]
}

/// The state when a countdown starts: neither paused nor abandoned.
pub open spec fn start_next(s: AppView) -> AppView {
    AppView { pause_switch: false, kill_switch: false, ..s }
}

/// The countdown that starts in state `s`.
pub open spec fn start_countdown(s: AppView) -> CountdownView {
    CountdownView {
        next: countdown_duration(s)->0,
        windows: windows_rev(selected_task_text(s), WINDOW_SIZE as nat),
    }
}

/// The piece of task text shown with second `i`.
pub open spec fn window_at(windows: Seq<Seq<char>>, i: u64) -> Seq<char> {
    windows[((i as usize) as int) % (windows.len() as int)]
}

/// One second of a countdown: the next state and countdown, what it asks of
/// the surroundings, and whether the countdown goes on (after a second).
pub open spec fn countdown_step_spec(s: AppView, c: CountdownView) -> (AppView, CountdownView, Seq<EffectView>, bool) {
    if c.next == 0 {
        (
            AppView { remaining: None, ..s },
            c,
            seq![
                emit("pomo_step"@, clock_text(0)),
                emit("pomo_finished"@, ""@),
                EffectView::Status("Waiting"@),
                EffectView::Notify("Pomodoro finished!"@),
            ],
            false,
        )
    } else if s.pause_switch {
        (
            s,
            c,
            seq![
                emit("pomo_step"@, clock_text(c.next as nat)),
                EffectView::Status(clock_text(c.next as nat) + " (paused)"@),
                emit("pomo_paused"@, ""@),
            ],
            false,
        )
    } else if s.kill_switch {
        (
            AppView { remaining: None, ..s },
            c,
            seq![
                emit("pomo_reseted"@, ""@),
                EffectView::Status("Waiting"@),
                EffectView::Notify("Pomodoro abandoned!"@),
            ],
            false,
        )
    } else {
        (
            AppView { remaining: Some(c.next), ..s },
            CountdownView { next: (c.next - 1) as u64, ..c },
            seq![
                emit("pomo_step"@, clock_text(c.next as nat)),
                EffectView::Status(clock_text(c.next as nat) + " ("@ + window_at(c.windows, c.next) + ")"@),
            ],
            true,
        )
    }
}

/// What starting a countdown asks of the surroundings, whether or not a
/// duration is configured.
pub fn countdown_start_effects() -> (r: Vec<Effect>)
    ensures
        effects_view(r@) == start_effects(),
{
    let mut effects: Vec<Effect> = Vec::new();
    effects.push(tray_effect("start", false));
    effects.push(tray_effect("pause", true));
    effects.push(tray_effect("reset", true));
    effects.push(emit_empty("pomo_started"));
    effects.push(notify_effect("Pomodoro started!"));
    assert(effects_view(effects@) =~= start_effects());
    effects
}

/// Whether a countdown can start: a pomodoro is paused, or the duration
/// setting holds a number.
pub fn can_begin_countdown(state: &AppState) -> (r: bool)
    ensures
        r == (countdown_duration(state@) is Some),
{
    match state.remaining {
        Some(_) => true,
        None => match state.settings.get("duration") {
            Some(Value::Int(_)) => true,
            _ => false,
        },
    }
}

/// Starts a countdown: clears the pause and abandon switches and sets the
/// countdown to the remaining or configured duration.
pub fn begin_countdown(state: &mut AppState) -> (r: (Countdown, Vec<Effect>))
    requires
        countdown_duration(old(state)@) is Some,
    ensures
        final(state)@ == start_next(old(state)@),
        r.0@ == start_countdown(old(state)@),
        effects_view(r.1@) == start_effects(),
        final(state).settings.path() == old(state).settings.path(),
        final(state).todoist.store.path() == old(state).todoist.store.path(),
{
    let effects = countdown_start_effects();
    state.pause_switch = false;
    state.kill_switch = false;
    let duration: u64 = match state.remaining {
        Some(d) => d,
        None => match state.settings.get("duration") {
            Some(v) => v.to_int(),
            None => 0,
        },
    };
    let selected_task = match state.settings.get("selected_task") {
        Some(v) => v.to_string(),
        None => "Not selected".to_owned(),
    };
    let windows = sliding_window(selected_task.as_str(), WINDOW_SIZE);
    let countdown = Countdown { next: duration, windows };
    (countdown, effects)
}

/// One second of a running countdown. When the result says that the
/// countdown goes on, the caller waits a second before the next step.
pub fn countdown_step(state: &mut AppState, countdown: &mut Countdown) -> (r: (Vec<Effect>, bool))
    ensures
        ({
            let (s, c, e, go) = countdown_step_spec(old(state)@, old(countdown)@);
            &&& final(state)@ == s
            &&& final(countdown)@ == c
            &&& effects_view(r.0@) == e
            &&& r.1 == go
        }),
        final(state).settings.path() == old(state).settings.path(),
        final(state).todoist.store.path() == old(state).todoist.store.path(),
{
    proof {
        use_type_invariant(&*countdown);
    }
    let ghost s0 = state@;
    let ghost c0 = countdown@;
    let mut effects: Vec<Effect> = Vec::new();
    let i = countdown.next;
    if i == 0 {
        effects.push(emit_effect("pomo_step", seconds_to_string(0)));
        effects.push(emit_empty("pomo_finished"));
        effects.push(status_effect("Waiting"));
        effects.push(notify_effect("Pomodoro finished!"));
        state.remaining = None;
        assert(effects_view(effects@) =~= countdown_step_spec(s0, c0).2);
        return (effects, false);
    }
    let seconds_str = seconds_to_string(i);
    if state.pause_switch {
        effects.push(emit_effect("pomo_step", seconds_str.clone()));
        let mut text = seconds_str;
        text.append(" (paused)");
        effects.push(Effect::Status(text));
        effects.push(emit_empty("pomo_paused"));
        assert(effects_view(effects@) =~= countdown_step_spec(s0, c0).2);
        return (effects, false);
    }
    if state.kill_switch {
        effects.push(emit_empty("pomo_reseted"));
        state.remaining = None;
        effects.push(status_effect("Waiting"));
        effects.push(notify_effect("Pomodoro abandoned!"));
        assert(effects_view(effects@) =~= countdown_step_spec(s0, c0).2);
        return (effects, false);
    }
    effects.push(emit_effect("pomo_step", seconds_str.clone()));
    let n = countdown.windows.len();
    let truncated = &countdown.windows[(i as usize) % n];
    let mut text = seconds_str;
    text.append(" (");
    text.append(truncated.as_str());
    text.append(")");
    effects.push(Effect::Status(text));
    state.remaining = Some(i);
    countdown.next = i - 1;
    assert(effects_view(effects@) =~= countdown_step_spec(s0, c0).2);
    (effects, true)
}

} // verus!

verus! {

/// A paused pomodoro stops at its next second without touching the state:
/// the time that remained is kept.
pub proof fn law_pause_stops_countdown(s: AppView, c: CountdownView)
    requires
        s.pause_switch,
        c.next > 0,
    ensures
        countdown_step_spec(s, c).0 == s,
        countdown_step_spec(s, c).1 == c,
        !countdown_step_spec(s, c).3,
        countdown_step_spec(s, c).2.contains(emit("pomo_paused"@, ""@)),
{
    assert(countdown_step_spec(s, c).2[2] == emit("pomo_paused"@, ""@));
}

/// After a second has been shown, pausing and starting again makes the new
/// countdown start from that same second.
pub proof fn law_resume_after_pause(s: AppView, c: CountdownView)
    requires
        !s.pause_switch,
        !s.kill_switch,
        c.next > 0,
    ensures
        ({
            let (s1, c1, e1, go1) = countdown_step_spec(s, c);
            let s2 = message_next(s1, MessageView::PomoPaused);
            let (s3, c3, e3, go3) = countdown_step_spec(s2, c1);
            &&& go1
            &&& (c1.next > 0 ==> !go3 && s3 == s2)
            &&& countdown_duration(s2) == Some(c.next)
            &&& start_countdown(s2).next == c.next
        }),
{
}

/// Resetting a paused pomodoro forgets the time that remained and clears
/// the pause, so the next countdown runs the configured duration.
pub proof fn law_reset_while_paused(s: AppView)
    requires
        s.pause_switch,
    ensures
        ({
            let s1 = message_next(s, MessageView::PomoReseted);
            &&& s1.remaining is None
            &&& !s1.pause_switch
            &&& s1.settings == s.settings
            &&& message_effects(s, MessageView::PomoReseted).contains(emit("pomo_reseted"@, ""@))
        }),
{
    assert(message_effects(s, MessageView::PomoReseted)[0] == emit("pomo_reseted"@, ""@));
}

/// Resetting a running pomodoro abandons it at its next second, and the time
/// that remained is forgotten.
pub proof fn law_reset_while_running(s: AppView, c: CountdownView)
    requires
        !s.pause_switch,
        c.next > 0,
    ensures
        ({
            let s1 = message_next(s, MessageView::PomoReseted);
            let (s2, c2, e2, go2) = countdown_step_spec(s1, c);
            &&& s1.kill_switch
            &&& !go2
            &&& s2.remaining is None
            &&& e2.contains(EffectView::Notify("Pomodoro abandoned!"@))
        }),
{
    let s1 = message_next(s, MessageView::PomoReseted);
    assert(countdown_step_spec(s1, c).2[2] == EffectView::Notify("Pomodoro abandoned!"@));
}

/// A countdown that goes on has shown its second, keeps it as the time that
/// remains, and counts down by one; so every countdown comes to an end.
pub proof fn law_countdown_counts_down(s: AppView, c: CountdownView)
    ensures
        ({
            let (s1, c1, e1, go) = countdown_step_spec(s, c);
            go ==> c.next > 0 && c1.next == c.next - 1 && s1.remaining == Some(c.next)
                && c1.windows == c.windows
        }),
{
}

/// Starting a countdown clears both switches and keeps everything else.
pub proof fn law_start_clears_switches(s: AppView)
    ensures
        !start_next(s).pause_switch,
        !start_next(s).kill_switch,
        start_next(s).remaining == s.remaining,
        start_next(s).settings == s.settings,
{
}

/// `k` seconds of a countdown, left alone by messages.
pub open spec fn run_steps(s: AppView, c: CountdownView, k: nat) -> (AppView, CountdownView)
    decreases k,
{
    if k == 0 {
        (s, c)
    } else {
        let (s1, c1, e, go) = countdown_step_spec(s, c);
        run_steps(s1, c1, (k - 1) as nat)
    }
}

/// Left alone, a countdown of `n` seconds shows its `n` seconds and then
/// finishes: the pomodoro is over and no time remains.
pub proof fn law_uninterrupted_countdown_finishes(s: AppView, c: CountdownView)
    requires
        !s.pause_switch,
        !s.kill_switch,
    ensures
        ({
            let (s1, c1) = run_steps(s, c, c.next as nat);
            let (s2, c2, e2, go2) = countdown_step_spec(s1, c1);
            &&& c1.next == 0
            &&& (c.next > 0 ==> s1.remaining == Some(1u64))
            &&& !go2
            &&& s2.remaining is None
            &&& e2.contains(emit("pomo_finished"@, ""@))
        }),
    decreases c.next,
{
    if c.next > 0 {
        let (s1, c1, e, go) = countdown_step_spec(s, c);
        law_uninterrupted_countdown_finishes(s1, c1);
        if c.next == 1 {
            assert(run_steps(s1, c1, 0) == (s1, c1));
        }
    }
    let (s1, c1) = run_steps(s, c, c.next as nat);
    assert(countdown_step_spec(s1, c1).2[1] == emit("pomo_finished"@, ""@));
}

/// Messages about the timer leave the settings alone.
pub proof fn law_timer_messages_keep_settings(s: AppView, m: MessageView)
    requires
        m is PomoStarted || m is PomoPaused || m is PomoReseted || m is PomoFinished || m is TasksRequested,
    ensures
        message_next(s, m).settings == s.settings,
        !message_effects(s, m).contains(EffectView::PersistSettings),
{
    let e = message_effects(s, m);
    if e.contains(EffectView::PersistSettings) {
        let i = choose|i: int| 0 <= i < e.len() && e[i] == EffectView::PersistSettings;
        if m is PomoReseted && s.pause_switch {
            assert(e[i] == EffectView::PersistSettings);
        }
    }
}

/// Whenever a message changes the settings, it asks for them to be written
/// to their file.
pub proof fn law_changed_settings_are_persisted(s: AppView, m: MessageView)
    requires
        message_next(s, m).settings != s.settings,
    ensures
        message_effects(s, m).contains(EffectView::PersistSettings),
{
    assert(message_effects(s, m)[0] == EffectView::PersistSettings);
}

} // verus!

verus! {

/// While a countdown runs, the status bar shows the second's clock text and,
/// in brackets, the piece of the selected task's text at index second mod
/// number of pieces; pieces are counted from the end of the text, so the
/// text scrolls by one character each second and wraps around. A text that
/// fits is shown whole.
pub proof fn law_status_scrolls_task_text(s: AppView, c: CountdownView, text: Seq<char>)
    requires
        !s.pause_switch,
        !s.kill_switch,
        c.next > 0,
        c.next <= usize::MAX,
        c.windows == windows_rev(text, WINDOW_SIZE as nat),
    ensures
        ({
            let n = text.len() as int;
            let shown = if n <= 24 {
                text
            } else {
                let k = (c.next as int) % (n - 23);
                text.subrange(n - 24 - k, n - k)
            };
            &&& countdown_step_spec(s, c).2.len() == 2
            &&& countdown_step_spec(s, c).2[1] == EffectView::Status(
                clock_text(c.next as nat) + " ("@ + shown + ")"@,
            )
        }),
{
    assert((c.next as usize) as int == c.next as int);
    let n = text.len() as int;
    if n > 24 {
        assert(c.windows.len() == n - 23);
        let k = (c.next as int) % (n - 23);
        assert(0 <= k < n - 23);
        assert(c.windows[k] == text.subrange(n - 24 - k, n - k));
    } else {
        assert(c.windows.len() == 1);
        assert((c.next as int) % 1 == 0);
    }
}

/// Starting never touches the timer's state; so a paused pomodoro, started
/// again, resumes from the seconds that remained rather than from the
/// configured duration.
pub proof fn law_start_resumes_paused(s: AppView, r: u64)
    requires
        s.remaining == Some(r),
    ensures
        message_next(s, MessageView::PomoStarted) == s,
        message_effects(s, MessageView::PomoStarted) == seq![EffectView::StartCountdown],
        countdown_duration(message_next(s, MessageView::PomoStarted)) == Some(r),
        start_countdown(message_next(s, MessageView::PomoStarted)).next == r,
{
}

/// A second shown, then a pause that stops the countdown at its next second,
/// then a start: the new countdown starts from the second last shown.
pub proof fn law_pause_then_start_resumes(s: AppView, c: CountdownView)
    requires
        !s.pause_switch,
        !s.kill_switch,
        c.next > 1,
    ensures
        ({
            let (s1, c1, e1, go1) = countdown_step_spec(s, c);
            let s2 = message_next(s1, MessageView::PomoPaused);
            let (s3, c3, e3, go3) = countdown_step_spec(s2, c1);
            let s4 = message_next(s3, MessageView::PomoStarted);
            &&& s4.remaining == Some(c.next)
            &&& start_countdown(s4).next == c.next
        }),
{
}

} // verus!
