//! Instants on the UTC time line, as the record store stamps them on reports.

use vstd::prelude::*;

verus! {

/// Whether `DateTime::from_timestamp(secs, nanos)` of chrono yields an instant: the seconds are
/// within the calendar range that chrono covers and the nanoseconds are ones it accepts.
pub uninterp spec fn is_utc_instant(secs: i64, nanos: u32) -> bool;

/// The calendar date in UTC of the instant `(secs, nanos)`, written as `YYYY-MM-DD`: what
/// chrono's `DateTime::format` gives for the pattern `%Y-%m-%d`.
pub uninterp spec fn utc_date_text(secs: i64, nanos: u32) -> Seq<char>;

/// What `DateTime::parse_from_rfc3339` of chrono reads from `text`: `None` where it reports an
/// error, else the seconds since the Unix epoch and the nanoseconds within that second.
pub uninterp spec fn rfc3339_instant(text: Seq<char>) -> Option<(i64, u32)>;

/// An instant that chrono can represent: whole seconds since the Unix epoch and the
/// nanoseconds within that second.
#[derive(Clone, Copy, Debug, PartialEq, Eq, Structural)]
pub struct Timestamp {
    secs: i64,
    nanos: u32,
}

impl View for Timestamp {
    type V = (i64, u32);

    closed spec fn view(&self) -> (i64, u32) {
        (self.secs, self.nanos)
    }
}

/// Calls `DateTime::from_timestamp`; whether it returned an instant is named
/// [`is_utc_instant`].
#[verifier::external_body]
fn instant_exists(secs: i64, nanos: u32) -> (exists: bool)
    ensures
        exists == is_utc_instant(secs, nanos),
{
    chrono::DateTime::from_timestamp(secs, nanos).is_some()
}

/// Calls `Utc::now` and takes the instant apart with `DateTime::timestamp` and
/// `DateTime::timestamp_subsec_nanos`. Nothing is claimed of the reading but that
/// `DateTime::from_timestamp` would accept it, which chrono documents as a round trip.
#[verifier::external_body]
fn read_clock() -> (parts: (i64, u32))
    ensures
        is_utc_instant(parts.0, parts.1),
{
    let now = chrono::Utc::now();
    (now.timestamp(), now.timestamp_subsec_nanos())
}

/// Calls `DateTime::parse_from_rfc3339` and takes the instant apart with
/// `DateTime::timestamp` and `DateTime::timestamp_subsec_nanos`; the result is named
/// [`rfc3339_instant`].
#[verifier::external_body]
fn parse_rfc3339_parts(text: &str) -> (parts: Option<(i64, u32)>)
    ensures
        parts == rfc3339_instant(text@),
{
    match chrono::DateTime::parse_from_rfc3339(text) {
        Ok(instant) => Some((instant.timestamp(), instant.timestamp_subsec_nanos())),
        Err(_) => None,
    }
}

/// Calls `DateTime::from_timestamp` and, where that gives an instant,
/// `DateTime::format` with the pattern `%Y-%m-%d`; the text is named [`utc_date_text`].
#[verifier::external_body]
fn format_utc_date(secs: i64, nanos: u32) -> (text: Option<String>)
    ensures
        text is Some <==> is_utc_instant(secs, nanos),
        text matches Some(t) ==> t@ == utc_date_text(secs, nanos),
{
    match chrono::DateTime::from_timestamp(secs, nanos) {
        Some(instant) => Some(instant.format("%Y-%m-%d").to_string()),
        None => None,
    }
}

impl Timestamp {
    #[verifier::type_invariant]
    spec fn representable(self) -> bool {
        is_utc_instant(self.secs, self.nanos)
    }

    /// Whether the value is an instant that chrono can represent, as every timestamp
    /// is that a program holds.
    pub open spec fn is_instant(self) -> bool {
        is_utc_instant(self@.0, self@.1)
    }

    /// The integer by which instants are ordered: a later instant has a larger key.
    /// One second is `2^32` units of it, so that the nanoseconds never carry.
    pub open spec fn order_key(self) -> int {
        self@.0 * 0x1_0000_0000 + self@.1
    }

    /// The key of the instant that lies `seconds` whole seconds before this one.
    pub open spec fn key_seconds_before(self, seconds: int) -> int {
        self.order_key() - seconds * 0x1_0000_0000
    }

    /// The instant of `secs` seconds and `nanos` nanoseconds after the Unix epoch,
    /// if there is one.
    pub fn new(secs: i64, nanos: u32) -> (made: Option<Timestamp>)
        ensures
            made is Some <==> is_utc_instant(secs, nanos),
            made matches Some(t) ==> t@ == (secs, nanos),
    {
        if instant_exists(secs, nanos) {
            Some(Timestamp { secs, nanos })
        } else {
            None
        }
    }

    /// The current instant by the system clock.
    pub fn now() -> (now: Timestamp)
        ensures
            now.is_instant(),
    {
        let parts = read_clock();
        Timestamp { secs: parts.0, nanos: parts.1 }
    }

    /// Reads an RFC 3339 date and time such as `1996-12-19T16:39:57-08:00`.
    pub fn parse_rfc3339(text: &str) -> (parsed: Option<Timestamp>)
        ensures
            parsed == Self::parsed_instant(rfc3339_instant(text@)),
    {
        Self::from_parts(parse_rfc3339_parts(text))
    }

    /// The instant that parsed parts stand for: none where nothing was parsed or
    /// where the parts are no instant.
    pub open spec fn parsed_instant(parts: Option<(i64, u32)>) -> Option<Timestamp> {
        match parts {
            Some(p) => if is_utc_instant(p.0, p.1) {
                Some(Self::of(p.0, p.1))
            } else {
                None
            },
            None => None,
        }
    }

    /// The timestamp whose view is `(secs, nanos)`.
    pub closed spec fn of(secs: i64, nanos: u32) -> Timestamp {
        Timestamp { secs, nanos }
    }

    /// Makes a timestamp of parsed parts.
    pub fn from_parts(parts: Option<(i64, u32)>) -> (made: Option<Timestamp>)
        ensures
            made == Self::parsed_instant(parts),
    {
        match parts {
            Some(p) => Self::new(p.0, p.1),
            None => None,
        }
    }

    /// Whole seconds since the Unix epoch.
    pub fn secs(&self) -> (secs: i64)
        ensures
            secs == self@.0,
    {
        self.secs
    }

    /// Nanoseconds within the second.
    pub fn nanos(&self) -> (nanos: u32)
        ensures
            nanos == self@.1,
    {
        self.nanos
    }

    /// The ordering key as a machine integer.
    pub fn key(&self) -> (key: i128)
        ensures
            key == self.order_key(),
    {
        (self.secs as i128) * 0x1_0000_0000 + (self.nanos as i128)
    }

    /// The calendar date of this instant in UTC, as `YYYY-MM-DD`.
    pub fn date_text(&self) -> (text: String)
        ensures
            text@ == utc_date_text(self@.0, self@.1),
    {
        proof {
            use_type_invariant(self);
        }
        match format_utc_date(self.secs, self.nanos) {
            Some(text) => text,
            None => vstd::pervasive::unreached(),
        }
    }

    /// A timestamp is what its view says: equal views, equal timestamps.
    pub proof fn lemma_view_is_injective(a: Timestamp, b: Timestamp)
        requires
            a@ == b@,
        ensures
            a == b,
    {
    }

    /// The ordering key tells instants apart and orders them by seconds first.
    pub proof fn lemma_order_key(a: Timestamp, b: Timestamp)
        ensures
            a.order_key() == b.order_key() <==> a == b,
            a.order_key() < b.order_key() <==> (a@.0 < b@.0 || (a@.0 == b@.0 && a@.1 < b@.1)),
    {
    }

    /// `of` builds the timestamp with the given view.
    pub proof fn lemma_of_view(secs: i64, nanos: u32)
        ensures
            Self::of(secs, nanos)@ == (secs, nanos),
    {
    }
}

} // verus!
