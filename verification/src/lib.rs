//! A pomodoro timer: its countdown and message handling, its settings store,
//! and the pieces of the Todoist and Firebase integrations that decide what
//! is sent and stored.
pub mod text;
pub mod store;
pub mod json;
pub mod todoist;
pub mod handling;
pub mod firebase;
pub mod utils;
pub mod sources;
pub mod state;
pub mod commands;

use vstd::prelude::*;
use crate::text::{decimal, pad2, push_decimal_pad2, is_digit, digit_char};
use crate::text::{lemma_decimal_len_one, lemma_decimal_digits, lemma_pad2_decimal_injective};

verus! {

/// The messages that drive the timer and its settings.
#[derive(Debug, Clone, PartialEq, Eq)]
pub enum InternalMessage {
    PomoStarted,
    PomoFinished,
    PomoPaused,
    PomoReseted,
    DurationChanged(u64),
    TasksRequested,
    TodoistApiKey(String),
    TaskUnselected,
    TaskSelected(String),
    FirebaseAddress(String),
    FirebaseAuthKey(String),
}

/// What a message carries, with text as character sequences.
pub enum MessageView {
    PomoStarted,
    PomoFinished,
    PomoPaused,
    PomoReseted,
    DurationChanged(u64),
    TasksRequested,
    TodoistApiKey(Seq<char>),
    TaskUnselected,
    TaskSelected(Seq<char>),
    FirebaseAddress(Seq<char>),
    FirebaseAuthKey(Seq<char>),
}

impl View for InternalMessage {
    type V = MessageView;

    open spec fn view(&self) -> MessageView {
        match self {
            InternalMessage::PomoStarted => MessageView::PomoStarted,
            InternalMessage::PomoFinished => MessageView::PomoFinished,
            InternalMessage::PomoPaused => MessageView::PomoPaused,
            InternalMessage::PomoReseted => MessageView::PomoReseted,
            InternalMessage::DurationChanged(d) => MessageView::DurationChanged(*d),
            InternalMessage::TasksRequested => MessageView::TasksRequested,
            InternalMessage::TodoistApiKey(k) => MessageView::TodoistApiKey(k@),
            InternalMessage::TaskUnselected => MessageView::TaskUnselected,
            InternalMessage::TaskSelected(id) => MessageView::TaskSelected(id@),
            InternalMessage::FirebaseAddress(a) => MessageView::FirebaseAddress(a@),
            InternalMessage::FirebaseAuthKey(k) => MessageView::FirebaseAuthKey(k@),
        }
    }
}

/// `mm:ss` text of a number of seconds: the minutes and the seconds within
/// the minute, each zero padded to two digits (minutes may use more).
pub open spec fn clock_text(seconds: nat) -> Seq<char> {
    pad2(decimal(seconds / 60)) + seq![':'] + pad2(decimal(seconds % 60))
}

/// Renders a number of seconds as `mm:ss`.
pub fn seconds_to_string(seconds: u64) -> (r: String)
    ensures
        r@ == clock_text(seconds as nat),
{
    let minutes = seconds / 60;
    let secs = seconds % 60;
    let mut s = String::new();
    push_decimal_pad2(&mut s, minutes);
    s.push(':');
    push_decimal_pad2(&mut s, secs);
    s
}

/// The seconds field of the clock text always has exactly two digits.
proof fn lemma_pad2_below_sixty(s: nat)
    requires
        s < 60,
    ensures
        pad2(decimal(s)).len() == 2,
{
    lemma_decimal_len_one(s);
    if s >= 10 {
        lemma_decimal_len_one(s / 10);
        assert(decimal(s).len() == decimal(s / 10).len() + 1);
    }
}

/// The clock text has at least five characters, a colon third from the end,
/// and digits everywhere else.
pub proof fn law_clock_text_shape(seconds: nat)
    ensures
        clock_text(seconds).len() >= 5,
        clock_text(seconds)[clock_text(seconds).len() - 3] == ':',
        forall|i: int|
            0 <= i < clock_text(seconds).len() && i != clock_text(seconds).len() - 3
                ==> is_digit(#[trigger] clock_text(seconds)[i]),
{
    let m = seconds / 60;
    let s = seconds % 60;
    lemma_pad2_below_sixty(s);
    lemma_decimal_len_one(m);
    lemma_decimal_digits(m);
    lemma_decimal_digits(s);
    let a = pad2(decimal(m));
    let c = pad2(decimal(s));
    let t = clock_text(seconds);
    assert(a.len() >= 2);
    assert forall|i: int| 0 <= i < t.len() && i != t.len() - 3 implies is_digit(#[trigger] t[i]) by {
        if i < a.len() {
            assert(t[i] == a[i]);
            if decimal(m).len() < 2 {
                if i > 0 {
                    assert(a[i] == decimal(m)[i - 1]);
                }
            }
        } else {
            assert(t[i] == c[i - a.len() - 1]);
            if decimal(s).len() < 2 {
                if i - a.len() - 1 > 0 {
                    assert(c[i - a.len() - 1] == decimal(s)[i - a.len() - 2]);
                }
            }
        }
    }
}

/// Distinct numbers of seconds are rendered as distinct clock texts.
pub proof fn law_clock_text_injective(a: nat, b: nat)
    requires
        clock_text(a) == clock_text(b),
    ensures
        a == b,
{
    lemma_pad2_below_sixty(a % 60);
    lemma_pad2_below_sixty(b % 60);
    let ta = clock_text(a);
    let tb = clock_text(b);
    let n = ta.len() as int;
    assert(pad2(decimal(a / 60)) == ta.take(n - 3));
    assert(pad2(decimal(b / 60)) == tb.take(n - 3));
    assert(pad2(decimal(a % 60)) == ta.skip(n - 2));
    assert(pad2(decimal(b % 60)) == tb.skip(n - 2));
    lemma_pad2_decimal_injective(a / 60, b / 60);
    lemma_pad2_decimal_injective(a % 60, b % 60);
}

} // verus!

verus! {

/// `x` comes before `y` in dictionary order of character codes.
pub open spec fn text_less(x: Seq<char>, y: Seq<char>) -> bool {
    exists|i: int|
        0 <= i < x.len() && i < y.len() && (x[i] as u32) < (y[i] as u32) && forall|j: int|
            0 <= j < i ==> x[j] == y[j]
}

/// A number below one hundred is written with exactly two digits.
proof fn lemma_two_digits(m: nat)
    requires
        m < 100,
    ensures
        pad2(decimal(m)) == seq![digit_char(m / 10), digit_char(m % 10)],
{
    if m < 10 {
        assert(digit_char(0) as int == 48);
        assert(digit_char(0) == '0');
        assert(pad2(decimal(m)) =~= seq![digit_char(m / 10), digit_char(m % 10)]);
    } else {
        assert(decimal(m / 10) == seq![digit_char(m / 10)]);
        assert(decimal(m) =~= seq![digit_char(m / 10), digit_char(m % 10)]);
    }
}

/// Below one hundred minutes the clock text has five characters, and its
/// dictionary order is the order of the numbers.
pub proof fn law_clock_text_order(a: nat, b: nat)
    requires
        a < b,
        b < 6000,
    ensures
        clock_text(a).len() == 5,
        clock_text(b).len() == 5,
        text_less(clock_text(a), clock_text(b)),
{
    let (ma, sa, mb, sb) = (a / 60, a % 60, b / 60, b % 60);
    lemma_two_digits(ma);
    lemma_two_digits(sa);
    lemma_two_digits(mb);
    lemma_two_digits(sb);
    let x = clock_text(a);
    let y = clock_text(b);
    assert(x =~= seq![digit_char(ma / 10), digit_char(ma % 10), ':', digit_char(sa / 10), digit_char(sa % 10)]);
    assert(y =~= seq![digit_char(mb / 10), digit_char(mb % 10), ':', digit_char(sb / 10), digit_char(sb % 10)]);
    assert(forall|d: nat| d < 10 ==> #[trigger] digit_char(d) as u32 == 48 + d);
    assert(a == ma * 60 + sa);
    assert(b == mb * 60 + sb);
    assert(ma <= mb);
    assert(ma == (ma / 10) * 10 + ma % 10);
    assert(mb == (mb / 10) * 10 + mb % 10);
    assert(sa == (sa / 10) * 10 + sa % 10);
    assert(sb == (sb / 10) * 10 + sb % 10);
    if ma / 10 < mb / 10 {
        assert(x[0] as u32 == 48 + ma / 10);
        assert(y[0] as u32 == 48 + mb / 10);
        assert(text_less(x, y));
    } else if ma < mb {
        assert(x[0] == y[0]);
        assert(x[1] as u32 == 48 + ma % 10);
        assert(y[1] as u32 == 48 + mb % 10);
        assert(text_less(x, y));
    } else if sa / 10 < sb / 10 {
        assert(x[0] == y[0] && x[1] == y[1] && x[2] == y[2]);
        assert(x[3] as u32 == 48 + sa / 10);
        assert(y[3] as u32 == 48 + sb / 10);
        assert(text_less(x, y));
    } else {
        assert(sa < sb);
        assert(x[0] == y[0] && x[1] == y[1] && x[2] == y[2] && x[3] == y[3]);
        assert(x[4] as u32 == 48 + sa % 10);
        assert(y[4] as u32 == 48 + sb % 10);
        assert(text_less(x, y));
    }
}

} // verus!
