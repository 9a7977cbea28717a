//! The result document: one per run, for a success or for each kind of failure.
use vstd::prelude::*;

use crate::convert::{amount_text, inverse_text, push_amount, push_inverse, push_rate, push_result, rate_text, result_text};
use crate::decimal::Decimal;
use crate::query::{upper, upper_chars, ConversionError};
use crate::rates::{zero_rate_text, RateQuote};
use crate::text::{chars_of, string_of};

verus! {

/// An action the launcher offers on a result: here, copying text.
#[derive(Debug)]
pub struct ApplicationAction {
    pub name: Option<String>,
    /// The text copied when the action fires.
    pub command: Option<String>,
    pub icon: Option<String>,
    pub method: String,
    pub exit: bool,
}

/// The document printed for the launcher.
#[derive(Debug)]
pub struct SherlockPipeResponse {
    pub title: String,
    pub content: String,
    pub next_content: String,
    pub actions: Vec<ApplicationAction>,
}

pub open spec fn copy_name_text(a: Decimal, to: Seq<char>, rate: Decimal) -> Seq<char> {
    result_text(a, rate) + " "@ + upper(to)
}

pub open spec fn copy_exec_text(a: Decimal, from: Seq<char>, to: Seq<char>, rate: Decimal) -> Seq<char> {
    amount_text(a) + " "@ + upper(from) + " = "@ + result_text(a, rate) + " "@ + upper(to)
        + "\nExchange Rate: 1 "@ + upper(from) + " = "@ + rate_text(rate) + " "@ + upper(to)
}

pub open spec fn title_text(a: Decimal, from: Seq<char>, to: Seq<char>, rate: Decimal) -> Seq<char> {
    amount_text(a) + " "@ + upper(from) + " \u{2192} "@ + result_text(a, rate) + " "@ + upper(to)
}

pub open spec fn content_text(
    a: Decimal,
    from: Seq<char>,
    to: Seq<char>,
    rate: Decimal,
    date: Seq<char>,
) -> Seq<char> {
    "<span font_desc=\"monospace\">\n\u{2500}\u{2500}\u{2500} <b><i>Currency Conversion</i></b> \u{2500}\u{2500}\u{2500}\n\n<b>"@
        + amount_text(a) + " "@ + upper(from) + "</b> = <b>"@ + result_text(a, rate) + " "@ + upper(to)
        + "</b>\n\nExchange Rate: 1 "@ + upper(from) + " = "@ + rate_text(rate) + " "@ + upper(to)
        + "\nInverse Rate: 1 "@ + upper(to) + " = "@ + inverse_text(rate) + " "@ + upper(from)
        + "\n\nDate: "@ + date + "\n\u{2500}\u{2500}\u{2500}\u{2500}\u{2500}\u{2500}\u{2500}\u{2500}\u{2500}\u{2500}\u{2500}\u{2500}\n</span>"@
}

pub open spec fn usage_examples_text() -> Seq<char> {
    "<span font_desc=\"monospace\">\n\u{2500}\u{2500}\u{2500} <b><i>Usage Examples</i></b> \u{2500}\u{2500}\u{2500}\n\n\u{2022} cc 100 usd chf\n\u{2022} cc 50 eur in gbp\n\u{2022} cc 1000 jpy usd\n\u{2022} cc 25.5 cad aud\n\nSupported: 30+ major currencies including:\nUSD, EUR, GBP, JPY, CHF, CAD, AUD, etc.\n\nNote: Cryptocurrencies not supported by this API\n\u{2500}\u{2500}\u{2500}\u{2500}\u{2500}\u{2500}\u{2500}\u{2500}\u{2500}\u{2500}\u{2500}\u{2500}\n</span>"@
}

pub open spec fn unsupported_text(from: Seq<char>, to: Seq<char>) -> Seq<char> {
    "<span font_desc=\"monospace\">\n\u{2500}\u{2500}\u{2500} <b><i>Currency Not Supported</i></b> \u{2500}\u{2500}\u{2500}\n\n'"@
        + upper(from) + "' or '"@ + upper(to)
        + "' is not supported by Frankfurter API.\n\nSupported currencies include:\n\u{2022} Major: USD, EUR, GBP, JPY, CHF, CAD, AUD\n\u{2022} European: SEK, NOK, DKK, PLN, CZK, HUF\n\u{2022} Asian: CNY, HKD, SGD, KRW, INR, THB\n\u{2022} Others: BRL, MXN, ZAR, TRY, RUB\n\nNote: Cryptocurrencies are not supported\n\u{2500}\u{2500}\u{2500}\u{2500}\u{2500}\u{2500}\u{2500}\u{2500}\u{2500}\u{2500}\u{2500}\u{2500}\n</span>"@
}

pub open spec fn network_text(detail: Seq<char>) -> Seq<char> {
    "<span font_desc=\"monospace\">\n\u{2500}\u{2500}\u{2500} <b><i>Network Error</i></b> \u{2500}\u{2500}\u{2500}\n\nFailed to connect to Frankfurter API.\nPlease check your internet connection and try again.\n\nError: "@
        + detail + "\n\u{2500}\u{2500}\u{2500}\u{2500}\u{2500}\u{2500}\u{2500}\u{2500}\u{2500}\u{2500}\u{2500}\u{2500}\n</span>"@
}

pub open spec fn generic_text(detail: Seq<char>) -> Seq<char> {
    "<span font_desc=\"monospace\">\n\u{2500}\u{2500}\u{2500} <b><i>Conversion Error</i></b> \u{2500}\u{2500}\u{2500}\n\nAn error occurred during conversion:\n"@
        + detail + "\n\nPlease verify currency codes and try again.\n\u{2500}\u{2500}\u{2500}\u{2500}\u{2500}\u{2500}\u{2500}\u{2500}\u{2500}\u{2500}\u{2500}\u{2500}\n</span>"@
}

pub open spec fn invalid_title() -> Seq<char> {
    "Invalid Input Format"@
}

pub open spec fn failed_title() -> Seq<char> {
    "Conversion Failed"@
}

/// The copy action of a conversion of `a` from `from` to `to` at `rate`.
pub open spec fn is_copy_action(x: ApplicationAction, a: Decimal, from: Seq<char>, to: Seq<char>, rate: Decimal) -> bool {
    &&& x.name matches Some(n) && n@ == copy_name_text(a, to, rate)
    &&& x.command matches Some(e) && e@ == copy_exec_text(a, from, to, rate)
    &&& x.icon matches Some(i) && i@ == "preferences-system"@
    &&& x.method@ == "copy"@
    &&& x.exit
}

/// A failure document: a title, a content, an empty next content, no actions.
pub open spec fn is_failure_doc(d: SherlockPipeResponse, title: Seq<char>, content: Seq<char>) -> bool {
    &&& d.title@ == title
    &&& d.content@ == content
    &&& d.next_content@ == Seq::<char>::empty()
    &&& d.actions@.len() == 0
}

/// The document of a successful conversion.
pub open spec fn is_success_doc(
    d: SherlockPipeResponse,
    a: Decimal,
    from: Seq<char>,
    to: Seq<char>,
    rate: Decimal,
    date: Seq<char>,
) -> bool {
    &&& d.title@ == title_text(a, from, to, rate)
    &&& d.content@ == content_text(a, from, to, rate, date)
    &&& d.next_content@ == d.content@
    &&& d.actions@.len() == 1
    &&& is_copy_action(d.actions@[0], a, from, to, rate)
}

/// The document of a failure, by its kind; `from` and `to` are the requested codes.
pub open spec fn is_error_doc(d: SherlockPipeResponse, from: Seq<char>, to: Seq<char>, e: ConversionError) -> bool {
    match e {
        ConversionError::Parse { .. } => is_failure_doc(d, invalid_title(), usage_examples_text()),
        ConversionError::UnsupportedCurrency { .. } => is_failure_doc(d, failed_title(), unsupported_text(from, to)),
        ConversionError::Network { detail } => is_failure_doc(d, failed_title(), network_text(detail@)),
        ConversionError::Generic { detail } => is_failure_doc(d, failed_title(), generic_text(detail@)),
    }
}

fn upper_text(s: &str) -> (r: String)
    ensures
        r@ == upper(s@),
{
    string_of(&upper_chars(&chars_of(s)))
}

impl ApplicationAction {
    /// The action that copies a summary of the conversion of `amount` from `from`
    /// to `to` at `rate`.
    pub fn from_conversion(amount: Decimal, from: &str, to: &str, rate: Decimal) -> (r: Self)
        requires
            amount.wf(),
            rate.wf(),
        ensures
            is_copy_action(r, amount, from@, to@, rate),
    {
        let f = upper_text(from);
        let t = upper_text(to);
        let mut name = String::new();
        push_result(&mut name, amount, rate);
        name.append(" ");
        name.append(t.as_str());
        let mut text = String::new();
        push_amount(&mut text, amount);
        text.append(" ");
        text.append(f.as_str());
        text.append(" = ");
        push_result(&mut text, amount, rate);
        text.append(" ");
        text.append(t.as_str());
        text.append("\nExchange Rate: 1 ");
        text.append(f.as_str());
        text.append(" = ");
        push_rate(&mut text, rate);
        text.append(" ");
        text.append(t.as_str());
        assert(name@ =~= copy_name_text(amount, to@, rate));
        assert(text@ =~= copy_exec_text(amount, from@, to@, rate));
        ApplicationAction {
            name: Some(name),
            command: Some(text),
            icon: Some("preferences-system".to_string()),
            method: "copy".to_string(),
            exit: true,
        }
    }
}

/// The rich-text card of a conversion: the amounts, the rate, the freshly computed
/// inverse rate and the date. A zero rate has no inverse and is an error.
pub fn format_conversion_content(
    amount: Decimal,
    from: &str,
    to: &str,
    rate: Decimal,
    date: &str,
) -> (r: Result<String, ConversionError>)
    requires
        amount.wf(),
        rate.wf(),
    ensures
        r is Ok <==> rate.units > 0,
        r matches Ok(c) ==> c@ == content_text(amount, from@, to@, rate, date@),
        r matches Err(e) ==> e matches ConversionError::Generic { detail } && detail@ == zero_rate_text(),
{
    if rate.is_zero() {
        return Err(ConversionError::Generic { detail: "Exchange rate is zero".to_string() });
    }
    let f = upper_text(from);
    let t = upper_text(to);
    let mut c = "<span font_desc=\"monospace\">\n\u{2500}\u{2500}\u{2500} <b><i>Currency Conversion</i></b> \u{2500}\u{2500}\u{2500}\n\n<b>".to_string();
    push_amount(&mut c, amount);
    c.append(" ");
    c.append(f.as_str());
    c.append("</b> = <b>");
    push_result(&mut c, amount, rate);
    c.append(" ");
    c.append(t.as_str());
    c.append("</b>\n\nExchange Rate: 1 ");
    c.append(f.as_str());
    c.append(" = ");
    push_rate(&mut c, rate);
    c.append(" ");
    c.append(t.as_str());
    c.append("\nInverse Rate: 1 ");
    c.append(t.as_str());
    c.append(" = ");
    push_inverse(&mut c, rate);
    c.append(" ");
    c.append(f.as_str());
    c.append("\n\nDate: ");
    c.append(date);
    c.append("\n\u{2500}\u{2500}\u{2500}\u{2500}\u{2500}\u{2500}\u{2500}\u{2500}\u{2500}\u{2500}\u{2500}\u{2500}\n</span>");
    assert(c@ =~= content_text(amount, from@, to@, rate, date@));
    Ok(c)
}

fn failure_doc(title: &str, content: String) -> (d: SherlockPipeResponse)
    ensures
        is_failure_doc(d, title@, content@),
{
    SherlockPipeResponse { title: title.to_string(), content, next_content: String::new(), actions: Vec::new() }
}

/// The document for a failure; `from` and `to` are the requested codes, named by
/// the unsupported-currency card.
pub fn error_response(from: &str, to: &str, e: &ConversionError) -> (d: SherlockPipeResponse)
    ensures
        is_error_doc(d, from@, to@, *e),
{
    match e {
        ConversionError::Parse { .. } => failure_doc(
            "Invalid Input Format",
            "<span font_desc=\"monospace\">\n\u{2500}\u{2500}\u{2500} <b><i>Usage Examples</i></b> \u{2500}\u{2500}\u{2500}\n\n\u{2022} cc 100 usd chf\n\u{2022} cc 50 eur in gbp\n\u{2022} cc 1000 jpy usd\n\u{2022} cc 25.5 cad aud\n\nSupported: 30+ major currencies including:\nUSD, EUR, GBP, JPY, CHF, CAD, AUD, etc.\n\nNote: Cryptocurrencies not supported by this API\n\u{2500}\u{2500}\u{2500}\u{2500}\u{2500}\u{2500}\u{2500}\u{2500}\u{2500}\u{2500}\u{2500}\u{2500}\n</span>".to_string(),
        ),
        ConversionError::UnsupportedCurrency { .. } => {
            let mut c = "<span font_desc=\"monospace\">\n\u{2500}\u{2500}\u{2500} <b><i>Currency Not Supported</i></b> \u{2500}\u{2500}\u{2500}\n\n'".to_string();
            c.append(upper_text(from).as_str());
            c.append("' or '");
            c.append(upper_text(to).as_str());
            c.append("' is not supported by Frankfurter API.\n\nSupported currencies include:\n\u{2022} Major: USD, EUR, GBP, JPY, CHF, CAD, AUD\n\u{2022} European: SEK, NOK, DKK, PLN, CZK, HUF\n\u{2022} Asian: CNY, HKD, SGD, KRW, INR, THB\n\u{2022} Others: BRL, MXN, ZAR, TRY, RUB\n\nNote: Cryptocurrencies are not supported\n\u{2500}\u{2500}\u{2500}\u{2500}\u{2500}\u{2500}\u{2500}\u{2500}\u{2500}\u{2500}\u{2500}\u{2500}\n</span>");
            assert(c@ =~= unsupported_text(from@, to@));
            failure_doc("Conversion Failed", c)
        },
        ConversionError::Network { detail } => {
            let mut c = "<span font_desc=\"monospace\">\n\u{2500}\u{2500}\u{2500} <b><i>Network Error</i></b> \u{2500}\u{2500}\u{2500}\n\nFailed to connect to Frankfurter API.\nPlease check your internet connection and try again.\n\nError: ".to_string();
            c.append(detail.as_str());
            c.append("\n\u{2500}\u{2500}\u{2500}\u{2500}\u{2500}\u{2500}\u{2500}\u{2500}\u{2500}\u{2500}\u{2500}\u{2500}\n</span>");
            assert(c@ =~= network_text(detail@));
            failure_doc("Conversion Failed", c)
        },
        ConversionError::Generic { detail } => {
            let mut c = "<span font_desc=\"monospace\">\n\u{2500}\u{2500}\u{2500} <b><i>Conversion Error</i></b> \u{2500}\u{2500}\u{2500}\n\nAn error occurred during conversion:\n".to_string();
            c.append(detail.as_str());
            c.append("\n\nPlease verify currency codes and try again.\n\u{2500}\u{2500}\u{2500}\u{2500}\u{2500}\u{2500}\u{2500}\u{2500}\u{2500}\u{2500}\u{2500}\u{2500}\n</span>");
            assert(c@ =~= generic_text(detail@));
            failure_doc("Conversion Failed", c)
        },
    }
}

/// The document for a conversion of `amount` at the quoted rate: the card, its
/// title, and the copy action; a zero rate gives the generic failure document.
pub fn success_response(amount: Decimal, from: &str, to: &str, quote: &RateQuote) -> (d: SherlockPipeResponse)
    requires
        amount.wf(),
        quote.rate.wf(),
    ensures
        quote.rate.units > 0 ==> is_success_doc(d, amount, from@, to@, quote.rate, quote.date@),
        quote.rate.units == 0 ==> is_failure_doc(d, failed_title(), generic_text(zero_rate_text())),
{
    match format_conversion_content(amount, from, to, quote.rate, quote.date.as_str()) {
        Err(e) => error_response(from, to, &e),
        Ok(content) => {
            let f = upper_text(from);
            let t = upper_text(to);
            let mut title = String::new();
            push_amount(&mut title, amount);
            title.append(" ");
            title.append(f.as_str());
            title.append(" \u{2192} ");
            push_result(&mut title, amount, quote.rate);
            title.append(" ");
            title.append(t.as_str());
            assert(title@ =~= title_text(amount, from@, to@, quote.rate));
            let action = ApplicationAction::from_conversion(amount, from, to, quote.rate);
            let next_content = content.clone();
            let mut actions: Vec<ApplicationAction> = Vec::new();
            actions.push(action);
            SherlockPipeResponse { title, content, next_content, actions }
        },
    }
}

} // verus!
