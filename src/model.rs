use vstd::prelude::*;

verus! {

/// A calendar date, as year, month and day.
#[derive(Clone, Copy, Debug, PartialEq, Eq, Structural)]
pub struct Date {
    pub year: i32,
    pub month: u32,
    pub day: u32,
}

/// How often funds are paid out to a merchant.
#[derive(Clone, Copy, Debug, PartialEq, Eq, Structural)]
pub enum DisbursementFrequency {
    Daily,
    Weekly,
}

/// Why an input field was rejected.
#[derive(Clone, Copy, Debug, PartialEq, Eq, Structural)]
pub enum ValidationError {
    /// The row holds fewer fields than a merchant needs.
    MissingField,
    /// The cadence token is neither `DAILY` nor `WEEKLY`.
    UnknownFrequency,
    /// The identifier is not a well-formed UUID.
    InvalidId,
    /// The date is not a `YYYY-MM-DD` calendar date.
    InvalidDate,
    /// The fee is not a decimal number.
    InvalidFee,
}

/// What chrono's `%Y-%m-%d` parser makes of a text.
pub uninterp spec fn calendar_date_of(s: Seq<char>) -> Option<Date>;

/// What uuid's parser makes of a text, as the UUID's 128-bit value.
pub uninterp spec fn uuid_of(s: Seq<char>) -> Option<u128>;

/// Unicode upper-casing of a text.
pub uninterp spec fn uppercase_of(s: Seq<char>) -> Seq<char>;

/// Relies on chrono::NaiveDate::parse_from_str with the format "%Y-%m-%d": the
/// outcome depends on the text alone.
#[verifier::external_body]
pub(crate) fn parse_calendar_date(s: &str) -> (r: Option<Date>)
    ensures
        r == calendar_date_of(s@),
{
    chrono::NaiveDate::parse_from_str(s, "%Y-%m-%d").ok().map(
        |d| Date {
            year: chrono::Datelike::year(&d),
            month: chrono::Datelike::month(&d),
            day: chrono::Datelike::day(&d),
        },
    )
}

/// Relies on uuid::Uuid::parse_str: the outcome depends on the text alone.
#[verifier::external_body]
pub(crate) fn parse_uuid(s: &str) -> (r: Option<u128>)
    ensures
        r == uuid_of(s@),
{
    uuid::Uuid::parse_str(s).ok().map(|u| u.as_u128())
}

/// Relies on uuid::Uuid::new_v4 for a random identifier; nothing is known of it.
#[verifier::external_body]
pub(crate) fn fresh_uuid() -> (r: u128) {
    uuid::Uuid::new_v4().as_u128()
}

/// Relies on str::to_uppercase: the result depends on the characters alone.
#[verifier::external_body]
pub(crate) fn to_uppercase(s: &str) -> (r: String)
    ensures
        r@ == uppercase_of(s@),
{
    s.to_uppercase()
}

/// Character-wise equality of two texts.
pub fn same_text(a: &str, b: &str) -> (r: bool)
    ensures
        r == (a@ == b@),
{
    let n = a.unicode_len();
    if n != b.unicode_len() {
        return false;
    }
    let mut i: usize = 0;
    while i < n
        invariant
            n == a@.len(),
            n == b@.len(),
            i <= n,
            forall|j: int| 0 <= j < i ==> a@[j] == b@[j],
        decreases n - i,
    {
        if a.get_char(i) != b.get_char(i) {
            return false;
        }
        i += 1;
    }
    assert(a@ =~= b@);
    true
}

pub open spec fn daily_token() -> Seq<char> {
    seq!['D', 'A', 'I', 'L', 'Y']
}

pub open spec fn weekly_token() -> Seq<char> {
    seq!['W', 'E', 'E', 'K', 'L', 'Y']
}

/// The cadence that an upper-case token names, if any.
pub open spec fn frequency_of_token(t: Seq<char>) -> Option<DisbursementFrequency> {
    if t == daily_token() {
        Some(DisbursementFrequency::Daily)
    } else if t == weekly_token() {
        Some(DisbursementFrequency::Weekly)
    } else {
        None
    }
}

impl DisbursementFrequency {
    /// The upper-case token of the cadence.
    pub open spec fn token(self) -> Seq<char> {
        match self {
            DisbursementFrequency::Daily => daily_token(),
            DisbursementFrequency::Weekly => weekly_token(),
        }
    }

    /// The cadence named exactly by `t` (`DAILY` or `WEEKLY`).
    pub fn from_token(t: &str) -> (r: Option<DisbursementFrequency>)
        ensures
            r == frequency_of_token(t@),
    {
        proof {
            reveal_strlit("DAILY");
            reveal_strlit("WEEKLY");
        }
        if same_text(t, "DAILY") {
            assert("DAILY"@ =~= daily_token());
            Some(DisbursementFrequency::Daily)
        } else if same_text(t, "WEEKLY") {
            assert("WEEKLY"@ =~= weekly_token());
            assert(t@ != daily_token());
            Some(DisbursementFrequency::Weekly)
        } else {
            assert("DAILY"@ =~= daily_token());
            assert("WEEKLY"@ =~= weekly_token());
            None
        }
    }

    /// The cadence named by `t` in any letter case.
    pub fn from_token_any_case(t: &str) -> (r: Option<DisbursementFrequency>)
        ensures
            r == frequency_of_token(uppercase_of(t@)),
    {
        let upper = to_uppercase(t);
        DisbursementFrequency::from_token(upper.as_str())
    }

    /// The upper-case token, as sent on the wire and stored.
    pub fn to_token(&self) -> (r: String)
        ensures
            r@ == self.token(),
    {
        proof {
            reveal_strlit("DAILY");
            reveal_strlit("WEEKLY");
        }
        match self {
            DisbursementFrequency::Daily => {
                let s = String::from_str("DAILY");
                assert(s@ =~= daily_token());
                s
            },
            DisbursementFrequency::Weekly => {
                let s = String::from_str("WEEKLY");
                assert(s@ =~= weekly_token());
                s
            },
        }
    }
}

/// Decoding a cadence's token gives the cadence back.
pub proof fn lemma_token_round_trip(f: DisbursementFrequency)
    ensures
        frequency_of_token(f.token()) == Some(f),
{
    assert(daily_token() != weekly_token()) by {
        assert(daily_token().len() != weekly_token().len());
    }
}

} // verus!
