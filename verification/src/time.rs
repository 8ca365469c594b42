use vstd::prelude::*;

verus! {

/// Whether chrono represents the instant `secs` seconds and `nanos`
/// nanoseconds after the Unix epoch as a `DateTime<Utc>`: the day lies
/// between -262143-01-01 and 262142-12-31, and the nanoseconds stay below
/// one second, or below two in the last second of a minute (a leap second).
pub open spec fn valid_instant(secs: int, nanos: int) -> bool {
    &&& -8334601228800 <= secs <= 8210266876799
    &&& 0 <= nanos
    &&& (nanos < 1_000_000_000 || (nanos < 2_000_000_000 && secs % 60 == 59))
}

/// The instant's calendar date in UTC, written as chrono's `%Y-%m-%d`.
pub uninterp spec fn calendar_date(secs: int, nanos: int) -> Seq<char>;

/// The instant in UTC, written as chrono's `%Y-%m-%d %H:%M:%S`.
pub uninterp spec fn calendar_date_time(secs: int, nanos: int) -> Seq<char>;

/// The instant in UTC, written as chrono's `to_rfc3339` writes it.
pub uninterp spec fn rfc3339_text(secs: int, nanos: int) -> Seq<char>;

/// What chrono's `DateTime::parse_from_rfc3339` reads from the text, taken
/// to UTC as seconds and subsecond nanoseconds since the Unix epoch; `None`
/// where chrono refuses the text.
pub uninterp spec fn rfc3339_instant(text: Seq<char>) -> Option<(i64, u32)>;

/// `DateTime::<Utc>::from_timestamp`: whether it accepts the pair (its
/// source: the day number from `secs.div_euclid(86_400)` must make a
/// `NaiveDate`, and `NaiveTime::from_num_seconds_from_midnight_opt` refuses
/// nanoseconds of two seconds or more, and of one second or more outside
/// the 59th second of a minute).
#[verifier::external_body]
fn instant_in_range(secs: i64, nanos: u32) -> (r: bool)
    ensures
        r == valid_instant(secs as int, nanos as int),
{
    chrono::DateTime::<chrono::Utc>::from_timestamp(secs, nanos).is_some()
}

/// `Utc::now`, as seconds and subsecond nanoseconds since the Unix epoch.
/// The clock's reading is left free; it is an instant that chrono itself
/// produced, so `from_timestamp` accepts it back.
#[verifier::external_body]
fn clock_now() -> (r: (i64, u32))
    ensures
        valid_instant(r.0 as int, r.1 as int),
{
    let t = chrono::Utc::now();
    (t.timestamp(), t.timestamp_subsec_nanos())
}

/// chrono's `format("%Y-%m-%d")` of the instant, as a `String`.
#[verifier::external_body]
fn format_date(secs: i64, nanos: u32) -> (r: String)
    requires
        valid_instant(secs as int, nanos as int),
    ensures
        r@ == calendar_date(secs as int, nanos as int),
{
    chrono::DateTime::<chrono::Utc>::from_timestamp(secs, nanos).unwrap().format("%Y-%m-%d").to_string()
}

/// chrono's `format("%Y-%m-%d %H:%M:%S")` of the instant, as a `String`.
#[verifier::external_body]
fn format_date_time(secs: i64, nanos: u32) -> (r: String)
    requires
        valid_instant(secs as int, nanos as int),
    ensures
        r@ == calendar_date_time(secs as int, nanos as int),
{
    chrono::DateTime::<chrono::Utc>::from_timestamp(secs, nanos)
        .unwrap()
        .format("%Y-%m-%d %H:%M:%S")
        .to_string()
}

/// The instants whose year lies in 0..=9999, which RFC 3339 text writes
/// with four digits: 0000-01-01T00:00:00Z up to 9999-12-31T23:59:59Z.
pub open spec fn four_digit_year(secs: int) -> bool {
    -62167219200 <= secs <= 253402300799
}

/// chrono's `to_rfc3339` of the instant. For a year of four digits,
/// `parse_from_rfc3339` reads the text back as the same instant: the writer
/// puts the year in four digits, a leap second as second 60, the fraction
/// in 3, 6 or 9 digits and the offset as `+00:00`, all of which the parser
/// takes back; other years get a sign and a fifth digit, which it refuses.
#[verifier::external_body]
fn format_rfc3339(secs: i64, nanos: u32) -> (r: String)
    requires
        valid_instant(secs as int, nanos as int),
    ensures
        r@ == rfc3339_text(secs as int, nanos as int),
        four_digit_year(secs as int) ==> rfc3339_instant(r@) == Some((secs, nanos)),
{
    chrono::DateTime::<chrono::Utc>::from_timestamp(secs, nanos).unwrap().to_rfc3339()
}

/// chrono's `DateTime::parse_from_rfc3339`, the result taken to UTC and
/// given as seconds and subsecond nanoseconds; `None` on a parse error.
#[verifier::external_body]
fn parse_rfc3339_parts(text: &str) -> (r: Option<(i64, u32)>)
    ensures
        r == rfc3339_instant(text@),
{
    match chrono::DateTime::parse_from_rfc3339(text) {
        Ok(dt) => {
            let utc = dt.with_timezone(&chrono::Utc);
            Some((utc.timestamp(), utc.timestamp_subsec_nanos()))
        },
        Err(_) => None,
    }
}

/// An instant in UTC: seconds and subsecond nanoseconds since the Unix
/// epoch, always one that chrono's `DateTime<Utc>` can hold.
#[derive(Clone, Copy, Debug)]
pub struct Timestamp {
    secs: i64,
    nanos: u32,
}

impl Timestamp {
    #[verifier::type_invariant]
    spec fn in_range(self) -> bool {
        valid_instant(self.secs as int, self.nanos as int)
    }

    pub closed spec fn secs_spec(self) -> int {
        self.secs as int
    }

    pub closed spec fn nanos_spec(self) -> int {
        self.nanos as int
    }

    /// The instant is one that chrono can hold (true of every value of the
    /// type).
    pub open spec fn valid(self) -> bool {
        valid_instant(self.secs_spec(), self.nanos_spec())
    }

    /// The instant's `%Y-%m-%d` text.
    pub open spec fn date_text(self) -> Seq<char> {
        calendar_date(self.secs_spec(), self.nanos_spec())
    }

    /// The instant's `%Y-%m-%d %H:%M:%S` text.
    pub open spec fn date_time_text(self) -> Seq<char> {
        calendar_date_time(self.secs_spec(), self.nanos_spec())
    }

    /// The instant given as seconds and nanoseconds since the Unix epoch;
    /// `None` where chrono cannot represent it.
    pub fn from_unix(secs: i64, nanos: u32) -> (r: Option<Timestamp>)
        ensures
            r is Some <==> valid_instant(secs as int, nanos as int),
            r matches Some(t) ==> t.secs_spec() == secs && t.nanos_spec() == nanos,
            r == timestamp_of(secs, nanos),
    {
        if instant_in_range(secs, nanos) {
            Some(Timestamp { secs, nanos })
        } else {
            None
        }
    }

    /// The current instant, as chrono's clock reads it: which instant that
    /// is depends on the clock; it is always one that chrono can represent.
    pub fn now() -> (r: Timestamp)
        ensures
            r.valid(),
    {
        let (secs, nanos) = clock_now();
        Timestamp { secs, nanos }
    }

    pub fn secs(&self) -> (r: i64)
        ensures
            r == self.secs_spec(),
            self.valid(),
    {
        proof {
            use_type_invariant(self);
        }
        self.secs
    }

    pub fn nanos(&self) -> (r: u32)
        ensures
            r == self.nanos_spec(),
            self.valid(),
    {
        proof {
            use_type_invariant(self);
        }
        self.nanos
    }

    /// The instant as RFC 3339 text, the form in which it is stored.
    pub fn to_rfc3339(&self) -> (r: String)
        ensures
            r@ == rfc3339_text(self.secs_spec(), self.nanos_spec()),
            four_digit_year(self.secs_spec()) ==> instant_of_text(r@) == Some(*self),
    {
        proof {
            use_type_invariant(self);
        }
        format_rfc3339(self.secs, self.nanos)
    }

    /// The instant that an RFC 3339 text names, in any offset; `None` where
    /// chrono does not read the text or cannot represent the instant.
    pub fn parse_rfc3339(text: &str) -> (r: Option<Timestamp>)
        ensures
            r == instant_of_text(text@),
    {
        match parse_rfc3339_parts(text) {
            Some((secs, nanos)) => Timestamp::from_unix(secs, nanos),
            None => None,
        }
    }

    /// `%Y-%m-%d`, the calendar date in UTC.
    pub fn format_date(&self) -> (r: String)
        ensures
            r@ == self.date_text(),
    {
        proof {
            use_type_invariant(self);
        }
        format_date(self.secs, self.nanos)
    }

    /// `%Y-%m-%d %H:%M:%S`, the date and time of day in UTC.
    pub fn format_date_time(&self) -> (r: String)
        ensures
            r@ == self.date_time_text(),
    {
        proof {
            use_type_invariant(self);
        }
        format_date_time(self.secs, self.nanos)
    }
}

/// What `Timestamp::from_unix` gives for the pair: the instant, where
/// chrono can represent it.
pub closed spec fn timestamp_of(secs: i64, nanos: u32) -> Option<Timestamp> {
    if valid_instant(secs as int, nanos as int) {
        Some(Timestamp { secs, nanos })
    } else {
        None
    }
}

/// What `Timestamp::parse_rfc3339` gives for the text: the instant chrono
/// reads from it, where chrono reads it and can represent it.
pub open spec fn instant_of_text(text: Seq<char>) -> Option<Timestamp> {
    match rfc3339_instant(text) {
        Some((secs, nanos)) => timestamp_of(secs, nanos),
        None => None,
    }
}

/// Building an instant from the seconds and nanoseconds read off a valid
/// instant gives that same instant back; and an instant built from a pair
/// reads back as that pair.
pub proof fn lemma_unix_round_trip(t: Timestamp, secs: i64, nanos: u32)
    requires
        t.valid(),
    ensures
        timestamp_of(t.secs_spec() as i64, t.nanos_spec() as u32) == Some(t),
        timestamp_of(secs, nanos) matches Some(u) ==> u.secs_spec() == secs && u.nanos_spec() == nanos,
{
}

} // verus!
