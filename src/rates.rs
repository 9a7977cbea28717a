//! The rate client's decisions: the identity short-circuit, the request URL, and
//! what an answer of the rate service means.
use vstd::prelude::*;

use crate::decimal::{is_decimal_text, fits_decimal, units_of, parse_decimal, places_of, Decimal};
use crate::query::{upper, ConversionError};
use crate::text::{chars_of, nat_text, push_nat, string_of};

verus! {

/// A rate and the date it is valid for.
#[derive(Debug)]
pub struct RateQuote {
    pub rate: Decimal,
    pub date: String,
}

/// The rate service's answer: the base code, the date, and each code with the
/// decimal text of its rate.
#[derive(Debug)]
pub struct RateTable {
    pub base: String,
    pub date: String,
    pub rates: Vec<(String, String)>,
}

/// What the rate client does for a pair of codes.
#[derive(Debug)]
pub enum RateStep {
    /// The quote is known without asking the service.
    Known(RateQuote),
    /// Ask the service at this URL.
    Fetch { url: String },
}

/// What came back from the rate service.
#[derive(Debug)]
pub enum FetchOutcome {
    /// No answer: the connection or the transfer failed.
    Unreachable { detail: String },
    /// An answer with this status and a body that was, or was not, a rate table.
    Answered { status: u16, table: Result<RateTable, String> },
}

pub open spec fn rate_url(from: Seq<char>, to: Seq<char>) -> Seq<char> {
    "https://api.frankfurter.dev/v1/latest?base="@ + from + "&symbols="@ + to
}

pub open spec fn today() -> Seq<char> {
    "Today"@
}

fn upper_string(s: &str) -> (r: Vec<char>)
    ensures
        r@ == upper(s@),
{
    let c = chars_of(s);
    crate::query::upper_chars(&c)
}

fn same_chars(a: &Vec<char>, b: &Vec<char>) -> (r: bool)
    ensures
        r == (a@ == b@),
{
    if a.len() != b.len() {
        return false;
    }
    let mut i: usize = 0;
    while i < a.len()
        invariant
            a@.len() == b@.len(),
            i <= a@.len(),
            forall|k: int| 0 <= k < i ==> a@[k] == b@[k],
        decreases a@.len() - i,
    {
        if a[i] != b[i] {
            return false;
        }
        i = i + 1;
    }
    assert(a@ =~= b@);
    true
}

/// The first step of a rate lookup. Codes that are equal ignoring case give the
/// rate one dated `Today` with no request; others give the service's URL for the
/// upper-cased codes.
pub fn plan_rate_lookup(from: &str, to: &str) -> (r: RateStep)
    ensures
        upper(from@) == upper(to@) <==> r is Known,
        r matches RateStep::Known(q) ==> q.rate.units == 1 && q.rate.scale == 0 && q.date@ == today(),
        r matches RateStep::Fetch { url } ==> url@ == rate_url(upper(from@), upper(to@)),
{
    let f = upper_string(from);
    let t = upper_string(to);
    if same_chars(&f, &t) {
        return RateStep::Known(RateQuote { rate: Decimal::one(), date: "Today".to_string() });
    }
    let mut url = "https://api.frankfurter.dev/v1/latest?base=".to_string();
    url.append(string_of(&f).as_str());
    url.append("&symbols=");
    url.append(string_of(&t).as_str());
    RateStep::Fetch { url }
}

/// The rate text of the first entry whose code is `code`.
pub open spec fn find_rate(rates: Seq<(String, String)>, code: Seq<char>) -> Option<Seq<char>>
    decreases rates.len(),
{
    if rates.len() == 0 {
        None
    } else if rates[0].0@ == code {
        Some(rates[0].1@)
    } else {
        find_rate(rates.drop_first(), code)
    }
}

fn lookup_rate(rates: &Vec<(String, String)>, code: &Vec<char>) -> (r: Option<Vec<char>>)
    ensures
        r matches Some(v) ==> find_rate(rates@, code@) == Some(v@),
        r is None ==> find_rate(rates@, code@) is None,
{
    let mut i: usize = 0;
    assert(rates@.skip(0) =~= rates@);
    while i < rates.len()
        invariant
            i <= rates@.len(),
            find_rate(rates@, code@) == find_rate(rates@.skip(i as int), code@),
        decreases rates@.len() - i,
    {
        let key = chars_of(rates[i].0.as_str());
        assert(rates@.skip(i as int)[0] == rates@[i as int]);
        assert(rates@.skip(i as int).drop_first() =~= rates@.skip(i + 1));
        if same_chars(&key, code) {
            return Some(chars_of(rates[i].1.as_str()));
        }
        i = i + 1;
    }
    None
}

pub open spec fn http_error_text(status: u16) -> Seq<char> {
    "HTTP Error: "@ + nat_text(status as nat)
}

pub open spec fn invalid_rate_text(text: Seq<char>) -> Seq<char> {
    "Invalid exchange rate: "@ + text
}

pub open spec fn zero_rate_text() -> Seq<char> {
    "Exchange rate is zero"@
}

/// What an outcome of the rate service means for the target code `to`.
pub open spec fn quote_outcome(to: Seq<char>, outcome: FetchOutcome, r: Result<RateQuote, ConversionError>) -> bool {
    match outcome {
        FetchOutcome::Unreachable { detail } =>
            r matches Err(ConversionError::Network { detail: d }) && d@ == detail@,
        FetchOutcome::Answered { status, table } => if !(200 <= status < 300) {
            r matches Err(ConversionError::Network { detail: d }) && d@ == http_error_text(status)
        } else {
            match table {
                Err(e) => r matches Err(ConversionError::Network { detail: d }) && d@ == e@,
                Ok(t) => match find_rate(t.rates@, upper(to)) {
                    None => r matches Err(ConversionError::UnsupportedCurrency { code }) && code@ == upper(to),
                    Some(text) => if !is_decimal_text(text) || !fits_decimal(text) {
                        r matches Err(ConversionError::Generic { detail }) && detail@ == invalid_rate_text(text)
                    } else if units_of(text) == 0 {
                        r matches Err(ConversionError::Generic { detail }) && detail@ == zero_rate_text()
                    } else {
                        r matches Ok(q) && q.rate.wf() && q.rate.units == units_of(text)
                            && q.rate.scale == places_of(text) && q.date@ == t.date@
                    },
                },
            }
        },
    }
}

/// Reads the rate service's outcome: a failed request or status is a network
/// error, a missing code is unsupported, a zero or unreadable rate is a generic
/// error, and otherwise the quote carries the rate and the table's date.
pub fn quote_from_fetch(to: &str, outcome: FetchOutcome) -> (r: Result<RateQuote, ConversionError>)
    ensures
        quote_outcome(to@, outcome, r),
{
    match outcome {
        FetchOutcome::Unreachable { detail } => Err(ConversionError::Network { detail }),
        FetchOutcome::Answered { status, table } => {
            if !(200 <= status && status < 300) {
                let mut detail = "HTTP Error: ".to_string();
                push_nat(&mut detail, status as u128);
                return Err(ConversionError::Network { detail });
            }
            match table {
                Err(e) => Err(ConversionError::Network { detail: e }),
                Ok(t) => {
                    let code = upper_string(to);
                    match lookup_rate(&t.rates, &code) {
                        None => Err(ConversionError::UnsupportedCurrency { code: string_of(&code) }),
                        Some(text) => match parse_decimal(&text) {
                            Err(_) => {
                                let mut detail = "Invalid exchange rate: ".to_string();
                                detail.append(string_of(&text).as_str());
                                Err(ConversionError::Generic { detail })
                            },
                            Ok(rate) => {
                                if rate.is_zero() {
                                    Err(ConversionError::Generic { detail: "Exchange rate is zero".to_string() })
                                } else {
                                    Ok(RateQuote { rate, date: t.date })
                                }
                            },
                        },
                    }
                },
            }
        },
    }
}

} // verus!
