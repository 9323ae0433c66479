//! What the main window's commands and the tray menu decide.
use vstd::prelude::*;
use crate::{InternalMessage, MessageView, clock_text, seconds_to_string};
use crate::text::{is_digit, chars_of, decimal, digit_char, lemma_decimal_digits, lemma_decimal_len_one};
use crate::state::{AppState, AppView};
use crate::store::{Value, ValueView};

verus! {

/// The value of a string of decimal digits.
pub open spec fn digits_value(s: Seq<char>) -> nat
    decreases s.len(),
{
    if s.len() == 0 {
        0
    } else {
        digits_value(s.drop_last()) * 10 + (s.last() as nat - 48) as nat
    }
}

pub open spec fn all_digits(s: Seq<char>) -> bool {
    forall|i: int| 0 <= i < s.len() ==> is_digit(#[trigger] s[i])
}

/// The digits of an unsigned number in text: what follows an optional `+`.
pub open spec fn unsigned_digits(s: Seq<char>) -> Seq<char> {
    if s.len() > 0 && s[0] == '+' {
        s.drop_first()
    } else {
        s
    }
}

/// The number that `str::parse::<u64>` reads from `s`: an optional `+` and
/// at least one decimal digit, of a value that fits in 64 bits.
pub open spec fn parsed_u64(s: Seq<char>) -> Option<u64> {
    let d = unsigned_digits(s);
    if d.len() > 0 && all_digits(d) && digits_value(d) <= u64::MAX {
        Some(digits_value(d) as u64)
    } else {
        None
    }
}

/// A longer string of digits is worth at least as much as its prefix.
proof fn lemma_digits_value_prefix(s: Seq<char>, j: int)
    requires
        0 <= j <= s.len(),
        all_digits(s),
    ensures
        digits_value(s.take(j)) <= digits_value(s),
    decreases s.len(),
{
    if j < s.len() {
        assert(s.drop_last().take(j) == s.take(j));
        lemma_digits_value_prefix(s.drop_last(), j);
    } else {
        assert(s.take(j) == s);
    }
}

/// Reads an unsigned number as `str::parse::<u64>` does.
pub fn parse_u64(s: &str) -> (r: Option<u64>)
    ensures
        r == parsed_u64(s@),
{
    let cs = chars_of(s);
    let start: usize = if cs.len() > 0 && cs[0] == '+' { 1 } else { 0 };
    let ghost d = unsigned_digits(s@);
    assert(d == cs@.skip(start as int));
    if start >= cs.len() {
        return None;
    }
    for i in start..cs.len()
        invariant
            cs@ == s@,
            start <= cs@.len(),
            d == unsigned_digits(s@),
            d == cs@.skip(start as int),
            forall|j: int| 0 <= j < i - start ==> is_digit(#[trigger] d[j]),
    {
        assert(d[i - start] == cs@[i as int]);
        if !('0' <= cs[i] && cs[i] <= '9') {
            assert(!is_digit(d[i - start]));
            assert(!all_digits(d));
            return None;
        }
    }
    assert(all_digits(d));
    let mut acc: u64 = 0;
    for i in start..cs.len()
        invariant
            cs@ == s@,
            start <= cs@.len(),
            d == unsigned_digits(s@),
            d.len() > 0,
            d == cs@.skip(start as int),
            all_digits(d),
            acc as nat == digits_value(d.take(i - start)),
    {
        assert(d[i - start] == cs@[i as int]);
        assert(is_digit(d[i - start]));
        let digit: u64 = ((cs[i] as u32) - 48) as u64;
        proof {
            let t = d.take(i - start + 1);
            assert(t.drop_last() == d.take(i - start));
            assert(t.last() == cs@[i as int]);
            assert(digits_value(t) == acc * 10 + digit);
        }
        match acc.checked_mul(10) {
            Some(m) => match m.checked_add(digit) {
                Some(a) => {
                    acc = a;
                },
                None => {
                    proof {
                        lemma_digits_value_prefix(d, i - start + 1);
                    }
                    return None;
                },
            },
            None => {
                proof {
                    lemma_digits_value_prefix(d, i - start + 1);
                }
                return None;
            },
        }
    }
    assert(d.take(d.len() as int) == d);
    Some(acc)
}

/// What a click on a tray menu item does.
#[derive(Debug, Clone, PartialEq, Eq)]
pub enum TrayAction {
    /// Send a message to the timer.
    Send(InternalMessage),
    /// Clear the status bar and quit.
    Quit,
    /// Nothing.
    Ignore,
}

/// The message, if any, that a tray menu item sends.
pub open spec fn tray_message(id: Seq<char>) -> Option<MessageView> {
    if id == "start"@ {
        Some(MessageView::PomoStarted)
    } else if id == "pause"@ {
        Some(MessageView::PomoPaused)
    } else if id == "reset"@ {
        Some(MessageView::PomoReseted)
    } else {
        None
    }
}

/// What a click on the tray menu item `id` does.
pub fn tray_action(id: &str) -> (r: TrayAction)
    ensures
        match tray_message(id@) {
            Some(m) => r matches TrayAction::Send(msg) && msg@ == m,
            None => if id@ == "quit"@ {
                r is Quit
            } else {
                r is Ignore
            },
        },
{
    let id = id.to_owned();
    if id == "start".to_owned() {
        TrayAction::Send(InternalMessage::PomoStarted)
    } else if id == "pause".to_owned() {
        TrayAction::Send(InternalMessage::PomoPaused)
    } else if id == "reset".to_owned() {
        TrayAction::Send(InternalMessage::PomoReseted)
    } else if id == "quit".to_owned() {
        TrayAction::Quit
    } else {
        TrayAction::Ignore
    }
}

/// The configured duration, if the setting holds a number.
pub open spec fn duration_setting(s: AppView) -> Option<u64> {
    if s.settings.contains_key("duration"@) {
        match s.settings["duration"@] {
            ValueView::Int(d) => Some(d),
            _ => None,
        }
    } else {
        None
    }
}

/// The configured duration in seconds.
pub fn load_duration(state: &AppState) -> (r: u64)
    requires
        duration_setting(state@) is Some,
    ensures
        Some(r) == duration_setting(state@),
{
    match state.settings.get("duration") {
        Some(v) => v.to_int(),
        None => 0,
    }
}

/// The configured duration as `mm:ss`.
pub fn get_duration(state: &AppState) -> (r: String)
    requires
        duration_setting(state@) is Some,
    ensures
        r@ == clock_text(duration_setting(state@)->0 as nat),
{
    seconds_to_string(load_duration(state))
}

/// The configured duration in seconds.
pub fn get_duration_seconds(state: &AppState) -> (r: u64)
    requires
        duration_setting(state@) is Some,
    ensures
        Some(r) == duration_setting(state@),
{
    load_duration(state)
}

/// Whether a duration is configured, as the commands need it.
pub fn has_duration(state: &AppState) -> (r: bool)
    ensures
        r == (duration_setting(state@) is Some),
{
    match state.settings.get("duration") {
        Some(Value::Int(_)) => true,
        _ => false,
    }
}

/// The message sent when the main window reports a new duration; nothing
/// when the payload is not a number.
pub fn duration_message(payload: &str) -> (r: Option<InternalMessage>)
    ensures
        match parsed_u64(payload@) {
            Some(d) => r matches Some(m) && m@ == MessageView::DurationChanged(d),
            None => r is None,
        },
{
    match parse_u64(payload) {
        Some(d) => Some(InternalMessage::DurationChanged(d)),
        None => None,
    }
}

} // verus!

verus! {

/// The digits of a decimal rendering are worth the number rendered.
proof fn lemma_digits_value_decimal(n: nat)
    ensures
        digits_value(decimal(n)) == n,
    decreases n,
{
    if n >= 10 {
        lemma_digits_value_decimal(n / 10);
        assert(decimal(n).drop_last() == decimal(n / 10));
        assert(decimal(n).last() == digit_char(n % 10));
        assert(digit_char(n % 10) as int == 48 + n % 10);
        assert(n == (n / 10) * 10 + n % 10);
        assert(digits_value(decimal(n)) == digits_value(decimal(n / 10)) * 10 + (decimal(n).last() as nat - 48) as nat);
    } else {
        assert(decimal(n).drop_last() == Seq::<char>::empty());
        assert(decimal(n).last() == digit_char(n));
        assert(digit_char(n) as int == 48 + n);
        assert(digits_value(decimal(n)) == digits_value(Seq::<char>::empty()) * 10 + (decimal(n).last() as nat - 48) as nat);
    }
}

/// Reading back the decimal rendering of a number gives the number: a
/// duration written as text is read as the same duration.
pub proof fn law_parse_reads_decimal(n: u64)
    ensures
        parsed_u64(decimal(n as nat)) == Some(n),
{
    lemma_digits_value_decimal(n as nat);
    lemma_decimal_digits(n as nat);
    lemma_decimal_len_one(n as nat);
    assert(is_digit(decimal(n as nat)[0]));
    assert(unsigned_digits(decimal(n as nat)) == decimal(n as nat));
}

} // verus!

verus! {

/// An entry of the tray menu.
#[derive(Debug, Clone, PartialEq, Eq)]
pub enum TrayEntry {
    /// A menu item: its id, its title, and whether it starts enabled.
    Item { id: String, title: String, enabled: bool },
    /// A separating line.
    Separator,
}

/// What a tray menu entry holds, with text as character sequences.
pub enum TrayEntryView {
    Item { id: Seq<char>, title: Seq<char>, enabled: bool },
    Separator,
}

impl View for TrayEntry {
    type V = TrayEntryView;

    open spec fn view(&self) -> TrayEntryView {
        match self {
            TrayEntry::Item { id, title, enabled } => TrayEntryView::Item { id: id@, title: title@, enabled: *enabled },
            TrayEntry::Separator => TrayEntryView::Separator,
        }
    }
}

pub open spec fn menu_item(id: Seq<char>, title: Seq<char>, enabled: bool) -> TrayEntryView {
    TrayEntryView::Item { id, title, enabled }
}

/// The tray menu: Start, Pause, Reset and Quit, separated by lines; Pause
/// and Reset start disabled.
pub open spec fn tray_menu_layout() -> Seq<TrayEntryView> {
    seq![
        menu_item("start"@, "Start"@, true),
        TrayEntryView::Separator,
        menu_item("pause"@, "Pause"@, false),
        TrayEntryView::Separator,
        menu_item("reset"@, "Reset"@, false),
        TrayEntryView::Separator,
        menu_item("quit"@, "Quit"@, true),
    ]
}

fn item(id: &str, title: &str, enabled: bool) -> (r: TrayEntry)
    ensures
        r@ == menu_item(id@, title@, enabled),
{
    TrayEntry::Item { id: id.to_owned(), title: title.to_owned(), enabled }
}

/// The entries of the tray menu, in order.
pub fn tray_menu() -> (r: Vec<TrayEntry>)
    ensures
        r@.map_values(|e: TrayEntry| e@) == tray_menu_layout(),
{
    let mut r: Vec<TrayEntry> = Vec::new();
    r.push(item("start", "Start", true));
    r.push(TrayEntry::Separator);
    r.push(item("pause", "Pause", false));
    r.push(TrayEntry::Separator);
    r.push(item("reset", "Reset", false));
    r.push(TrayEntry::Separator);
    r.push(item("quit", "Quit", true));
    assert(r@.map_values(|e: TrayEntry| e@) =~= tray_menu_layout());
    r
}

} // verus!
