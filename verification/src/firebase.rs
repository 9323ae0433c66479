//! What is reported to Firebase when a pomodoro changes state: the client
//! configuration, the record, and the time stamp that names it.
use vstd::prelude::*;
use crate::text::{decimal, pad2, push_decimal, push_decimal_pad2};
use crate::todoist::opt_text;
use crate::sources::{ClockReading, local_now};

verus! {

/// A Firebase database handle of the `firebase_rs` crate.
#[verifier::external_type_specification]
#[verifier::external_body]
pub struct ExFirebase(firebase_rs::Firebase);

/// The error of the `firebase_rs` crate for an unusable database address.
#[verifier::external_type_specification]
#[verifier::external_body]
pub struct ExUrlParseError(firebase_rs::UrlParseError);

/// Whether `firebase_rs` accepts `uri` as a database address: it parses as
/// a URL and its scheme is `https`.
pub uninterp spec fn firebase_uri_accepted(uri: Seq<char>) -> bool;

/// The URL of the child `path` of the database at `uri`, authenticated with
/// `auth_key`, as `firebase_rs` builds it: what `get_uri` gives of the handle
/// that `Firebase::auth(uri, auth_key)` followed by `.at(path)` makes, one
/// chain of three calls of that crate.
pub uninterp spec fn firebase_location(uri: Seq<char>, auth_key: Seq<char>, path: Seq<char>) -> Seq<char>;

/// The URL that a `firebase_rs` handle reads and writes, as its `get_uri`
/// gives it.
pub uninterp spec fn firebase_handle_uri(f: firebase_rs::Firebase) -> Seq<char>;

/// `Firebase::auth(uri, auth_key)` of `firebase_rs`, then `.at(path)` on the
/// handle and `.get_uri()` on the result: the handle for the child `path` of
/// the database at `uri`, authenticated with `auth_key`, together with its
/// URL. It fails exactly when the address is not accepted, which depends on
/// the address alone; the URL depends on the three texts alone, and it is the
/// returned handle's own URL.
#[verifier::external_body]
fn firebase_child(uri: &str, auth_key: &str, path: &str) -> (r: Result<(firebase_rs::Firebase, String), firebase_rs::UrlParseError>)
    ensures
        r is Ok <==> firebase_uri_accepted(uri@),
        r matches Ok((f, u)) ==> u@ == firebase_location(uri@, auth_key@, path@) && firebase_handle_uri(f)
            == u@,
{
    match firebase_rs::Firebase::auth(uri, auth_key) {
        Ok(base) => {
            let child = base.at(path);
            let url = child.get_uri();
            Ok((child, url))
        },
        Err(e) => Err(e),
    }
}

/// A moment of local time, field by field.
#[derive(Debug, Clone, Copy)]
pub struct LocalTime {
    pub hour: u32,
    pub minute: u32,
    pub second: u32,
    pub day: u32,
    pub month: u32,
    pub year: i32,
}

impl LocalTime {
    /// The ranges that `chrono` documents for each field.
    pub open spec fn valid(self) -> bool {
        &&& self.hour < 24
        &&& self.minute < 60
        &&& self.second < 60
        &&& 1 <= self.day <= 31
        &&& 1 <= self.month <= 12
    }
}

/// The decimal text of a signed number.
pub open spec fn signed_decimal(n: int) -> Seq<char> {
    if n < 0 {
        seq!['-'] + decimal((-n) as nat)
    } else {
        decimal(n as nat)
    }
}

/// `hh-mm-ss-dd-month-year`: hour, minute, second and day padded to two
/// digits, month and year as they are.
pub open spec fn time_text(t: LocalTime) -> Seq<char> {
    pad2(decimal(t.hour as nat)) + seq!['-'] + pad2(decimal(t.minute as nat)) + seq!['-'] + pad2(
        decimal(t.second as nat),
    ) + seq!['-'] + pad2(decimal(t.day as nat)) + seq!['-'] + decimal(t.month as nat) + seq!['-']
        + signed_decimal(t.year as int)
}

/// Renders a local time as `hh-mm-ss-dd-month-year`.
pub fn format_time(t: &LocalTime) -> (r: String)
    ensures
        r@ == time_text(*t),
{
    let mut s = String::new();
    push_decimal_pad2(&mut s, t.hour as u64);
    s.push('-');
    push_decimal_pad2(&mut s, t.minute as u64);
    s.push('-');
    push_decimal_pad2(&mut s, t.second as u64);
    s.push('-');
    push_decimal_pad2(&mut s, t.day as u64);
    s.push('-');
    push_decimal(&mut s, t.month as u64);
    s.push('-');
    let ghost before = s@;
    if t.year < 0 {
        s.push('-');
        let y: i64 = t.year as i64;
        push_decimal(&mut s, (-y) as u64);
    } else {
        push_decimal(&mut s, t.year as u64);
    }
    assert(s@ =~= time_text(*t));
    s
}

/// The current local time as `hh-mm-ss-dd-month-year`.
pub fn current_time_formatted() -> (r: String)
    ensures
        exists|t: LocalTime| t.valid() && r@ == time_text(t),
{
    let reading = local_now();
    format_time(&reading.time())
}

/// Where Firebase reports go.
#[derive(Debug, Clone)]
pub struct FirebaseClient {
    pub address: Option<String>,
    pub auth_key: Option<String>,
}

/// How a pomodoro ended, or that it began.
#[derive(Debug, Clone, Copy, PartialEq, Eq)]
pub enum PomodoroStatus {
    Started,
    Finished,
    Cancelled,
}

/// The record kept in Firebase for a change of a pomodoro.
#[derive(Debug, Clone)]
pub struct PomodoroInfo {
    pub id: String,
    pub time: String,
    pub task: String,
    pub status: PomodoroStatus,
}

/// A record, the handle of the database location it is to be written to,
/// the URL of that location, and the clock reading the record was stamped
/// with when it was stamped from the clock.
pub struct PomodoroUpload {
    pub cursor: firebase_rs::Firebase,
    pub location: String,
    pub info: PomodoroInfo,
    pub stamp: Option<ClockReading>,
}

/// Why a report cannot be sent.
#[derive(Debug, Clone, Copy, PartialEq, Eq)]
pub enum FirebaseError {
    NoAddress,
    NoAuthKey,
    InvalidAddress,
}

impl FirebaseError {
    /// The message that describes the error.
    pub fn message(&self) -> (r: String)
        ensures
            r@ == firebase_error_text(*self),
    {
        match self {
            FirebaseError::NoAddress => "No Firebase address".to_owned(),
            FirebaseError::NoAuthKey => "No Firebase auth key".to_owned(),
            FirebaseError::InvalidAddress => "The Firebase address is not a valid https URL".to_owned(),
        }
    }
}

pub open spec fn firebase_error_text(e: FirebaseError) -> Seq<char> {
    match e {
        FirebaseError::NoAddress => "No Firebase address"@,
        FirebaseError::NoAuthKey => "No Firebase auth key"@,
        FirebaseError::InvalidAddress => "The Firebase address is not a valid https URL"@,
    }
}

/// The error, if any, with which a report from `client` fails.
pub open spec fn upload_error(client: FirebaseClient) -> Option<FirebaseError> {
    match client.address {
        None => Some(FirebaseError::NoAddress),
        Some(a) => match client.auth_key {
            None => Some(FirebaseError::NoAuthKey),
            Some(_) => if firebase_uri_accepted(a@) {
                None
            } else {
                Some(FirebaseError::InvalidAddress)
            },
        },
    }
}

impl FirebaseClient {
    /// A client for the given address and key.
    pub fn new(address: Option<String>, auth_key: Option<String>) -> (r: FirebaseClient)
        ensures
            opt_text(r.address) == opt_text(address),
            opt_text(r.auth_key) == opt_text(auth_key),
    {
        FirebaseClient { address, auth_key }
    }

    /// The report of a pomodoro change made at local time `now`: the record,
    /// stamped with `now`, at the location named by the stamp.
    pub fn upload_at(&self, id: &str, task: &str, status: PomodoroStatus, now: &LocalTime) -> (r: Result<PomodoroUpload, FirebaseError>)
        ensures
            match upload_error(*self) {
                Some(e) => r == Err::<PomodoroUpload, FirebaseError>(e),
                None => r matches Ok(u) && u.info.id@ == id@ && u.info.task@ == task@
                    && u.info.status == status && u.info.time@ == time_text(*now)
                    && firebase_handle_uri(u.cursor) == u.location@ && u.location@ == firebase_location(
                        self.address->0@,
                        self.auth_key->0@,
                        time_text(*now),
                    ) && u.stamp is None,
            },
    {
        let address = match &self.address {
            Some(a) => a,
            None => {
                return Err(FirebaseError::NoAddress);
            },
        };
        let auth_key = match &self.auth_key {
            Some(k) => k,
            None => {
                return Err(FirebaseError::NoAuthKey);
            },
        };
        let time = format_time(now);
        let (cursor, location) = match firebase_child(address.as_str(), auth_key.as_str(), time.as_str()) {
            Ok(child) => child,
            Err(_) => {
                return Err(FirebaseError::InvalidAddress);
            },
        };
        let info = PomodoroInfo { id: id.to_owned(), time, task: task.to_owned(), status };
        Ok(PomodoroUpload { cursor, location, info, stamp: None })
    }

    /// The report of a pomodoro change made now: stamped with, and located by,
    /// the local time read from the clock during the call, which the result
    /// carries as its stamp.
    pub fn send_pomodoro_info(&self, id: &str, task: &str, status: PomodoroStatus) -> (r: Result<PomodoroUpload, FirebaseError>)
        ensures
            match upload_error(*self) {
                Some(e) => r == Err::<PomodoroUpload, FirebaseError>(e),
                None => r matches Ok(u) && u.info.id@ == id@ && u.info.task@ == task@
                    && u.info.status == status && u.stamp is Some && ({
                    let c = u.stamp->0;
                    &&& c@.valid()
                    &&& u.info.time@ == time_text(c@)
                    &&& firebase_handle_uri(u.cursor) == u.location@
                    &&& u.location@ == firebase_location(self.address->0@, self.auth_key->0@, time_text(c@))
                }),
            },
    {
        let reading = local_now();
        let now = reading.time();
        match self.upload_at(id, task, status, &now) {
            Ok(upload) => {
                let mut upload = upload;
                upload.stamp = Some(reading);
                Ok(upload)
            },
            Err(e) => Err(e),
        }
    }
}

} // verus!
