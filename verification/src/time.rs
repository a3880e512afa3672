//! Points in time.
use vstd::prelude::*;

verus! {

/// The points in time that can be told: whole seconds since 1970, and the
/// nanoseconds that follow, which go past a second only in a leap second.
pub open spec fn valid_time(secs: int, nanos: int) -> bool {
    &&& -8334601228800 <= secs <= 8210266876799
    &&& 0 <= nanos < 2000000000
    &&& nanos >= 1000000000 ==> secs % 60 == 59
}

/// The point lies in one of the years 0 to 9999.
pub open spec fn four_digit_year(secs: int) -> bool {
    -62167219200 <= secs <= 253402300799
}

/// A point in time, in UTC.
#[derive(Clone, Copy, Debug, PartialEq, Eq, Structural)]
pub struct Timestamp {
    secs: i64,
    nanos: u32,
}

impl View for Timestamp {
    type V = (int, int);

    closed spec fn view(&self) -> (int, int) {
        (self.secs as int, self.nanos as int)
    }
}

/// What `chrono::DateTime::<Utc>::to_rfc3339` writes for a point in time.
pub uninterp spec fn rfc3339_text(secs: i64, nanos: u32) -> Seq<char>;

/// What `chrono::DateTime::parse_from_rfc3339` reads from a text: a point in
/// time, or the message of the error.
pub uninterp spec fn rfc3339_parsed(text: Seq<char>) -> Result<(i64, u32), Seq<char>>;

/// What `chrono::DateTime::<Utc>::format` writes for a point in time under the
/// format `%d-%b-%Y`.
pub uninterp spec fn imap_date_text(secs: i64, nanos: u32) -> Seq<char>;

/// `chrono::DateTime::<Utc>::to_rfc3339` of the point in time, which depends on
/// it alone. `chrono::DateTime::from_timestamp` has such a value for every
/// valid time.
#[verifier::external_body]
fn write_rfc3339(secs: i64, nanos: u32) -> (r: String)
    requires
        valid_time(secs as int, nanos as int),
    ensures
        r@ == rfc3339_text(secs, nanos),
{
    chrono::DateTime::from_timestamp(secs, nanos).unwrap().to_rfc3339()
}

/// `chrono::DateTime::parse_from_rfc3339`, taken to UTC: the point in time that
/// the text writes, or the message of the error; which, depends on the text
/// alone. What `to_rfc3339` writes for a year of four digits is read as what
/// was written.
#[verifier::external_body]
fn read_rfc3339(text: &str) -> (r: Result<(i64, u32), String>)
    ensures
        r is Ok <==> rfc3339_parsed(text@) is Ok,
        r is Ok ==> r->Ok_0 == rfc3339_parsed(text@)->Ok_0,
        r is Ok ==> valid_time(r->Ok_0.0 as int, r->Ok_0.1 as int),
        r is Err ==> r->Err_0@ == rfc3339_parsed(text@)->Err_0,
        forall|t: (i64, u32)|
            (valid_time(t.0 as int, t.1 as int) && four_digit_year(t.0 as int) && text@
                == #[trigger] rfc3339_text(t.0, t.1)) ==> (r is Ok && r->Ok_0 == t),
{
    match chrono::DateTime::parse_from_rfc3339(text) {
        Ok(t) => Ok((t.timestamp(), t.timestamp_subsec_nanos())),
        Err(e) => Err(e.to_string()),
    }
}

/// `chrono::DateTime::<Utc>::format` of the point in time under `%d-%b-%Y`: the
/// day, the English name of the month in three letters and the year, joined by
/// hyphens.
#[verifier::external_body]
fn write_imap_date(secs: i64, nanos: u32) -> (r: String)
    requires
        valid_time(secs as int, nanos as int),
    ensures
        r@ == imap_date_text(secs, nanos),
{
    chrono::DateTime::from_timestamp(secs, nanos).unwrap().format("%d-%b-%Y").to_string()
}

/// Two points in time with the same seconds and nanoseconds are the same.
pub proof fn same_time(a: Timestamp, b: Timestamp)
    requires
        a@ == b@,
    ensures
        a == b,
{
}

/// `a` comes after `b`.
pub open spec fn later(a: (int, int), b: (int, int)) -> bool {
    a.0 > b.0 || (a.0 == b.0 && a.1 > b.1)
}

impl Timestamp {
    #[verifier::type_invariant]
    spec fn told(self) -> bool {
        valid_time(self.secs as int, self.nanos as int)
    }

    /// The point in time with these seconds and nanoseconds, where it is valid.
    pub fn new(secs: i64, nanos: u32) -> (r: Option<Timestamp>)
        ensures
            r is Some <==> valid_time(secs as int, nanos as int),
            r is Some ==> r->0@ == (secs as int, nanos as int),
    {
        let leap: bool = nanos < 1000000000 || leap_second(secs);
        if -8334601228800 <= secs && secs <= 8210266876799 && nanos < 2000000000 && leap {
            Some(Timestamp { secs, nanos })
        } else {
            None
        }
    }

    /// The seconds since 1970.
    pub fn secs(&self) -> (r: i64)
        ensures
            r == self@.0,
    {
        self.secs
    }

    /// The nanoseconds after the second.
    pub fn nanos(&self) -> (r: u32)
        ensures
            r == self@.1,
    {
        self.nanos
    }

    /// Whether this point comes after the other.
    pub fn is_after(&self, other: &Timestamp) -> (r: bool)
        ensures
            r == later(self@, other@),
    {
        self.secs > other.secs || (self.secs == other.secs && self.nanos > other.nanos)
    }

    /// The point in time as RFC 3339 writes it.
    pub fn rfc3339(&self) -> (r: String)
        ensures
            r@ == rfc3339_text(self@.0 as i64, self@.1 as u32),
    {
        proof {
            use_type_invariant(self);
        }
        write_rfc3339(self.secs, self.nanos)
    }

    /// The day in the form that IMAP wants.
    pub fn imap_date(&self) -> (r: String)
        ensures
            r@ == imap_date_text(self@.0 as i64, self@.1 as u32),
    {
        proof {
            use_type_invariant(self);
        }
        write_imap_date(self.secs, self.nanos)
    }

    /// The point in time that `text` writes under RFC 3339, or the message of
    /// the error.
    pub fn parse_rfc3339(text: &str) -> (r: Result<Timestamp, String>)
        ensures
            r is Ok <==> rfc3339_parsed(text@) is Ok,
            r is Ok ==> r->Ok_0@ == (
                rfc3339_parsed(text@)->Ok_0.0 as int,
                rfc3339_parsed(text@)->Ok_0.1 as int,
            ),
            r is Err ==> r->Err_0@ == rfc3339_parsed(text@)->Err_0,
            forall|t: Timestamp|
                valid_time(t@.0, t@.1) && four_digit_year(t@.0) && text@ == rfc3339_text(
                    (#[trigger] t@).0 as i64,
                    t@.1 as u32,
                ) ==> r is Ok && r->Ok_0 == t,
    {
        match read_rfc3339(text) {
            Ok((secs, nanos)) => Ok(Timestamp { secs, nanos }),
            Err(e) => Err(e),
        }
    }
}

/// Whether the second is the last of a minute.
fn leap_second(secs: i64) -> (r: bool)
    ensures
        r == (secs % 60 == 59),
{
    // Division truncates toward zero: a negative remainder is one short of it.
    if secs >= 0 {
        secs % 60 == 59
    } else {
        let back: i64 = -(secs + 1);
        back % 60 == 0
    }
}

} // verus!
