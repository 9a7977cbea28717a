use sherlock_currency::convert::{convert, Converted};
use sherlock_currency::decimal::{parse_decimal, Decimal, DecimalError};
use sherlock_currency::pipeline::{finish, query_from_args, start, Step};
use sherlock_currency::query::{parse_currency_input, ConversionError, ConversionRequest};
use sherlock_currency::rates::{plan_rate_lookup, quote_from_fetch, FetchOutcome, RateStep, RateTable};
use sherlock_currency::response::{
    error_response, format_conversion_content, success_response, ApplicationAction,
};
use sherlock_currency::rates::RateQuote;

fn dec(units: u64, scale: u32) -> Decimal {
    Decimal { units, scale }
}

fn table(date: &str, rates: &[(&str, &str)]) -> RateTable {
    RateTable {
        base: "USD".to_string(),
        date: date.to_string(),
        rates: rates.iter().map(|(c, r)| (c.to_string(), r.to_string())).collect(),
    }
}

fn fetch_request(input: &str) -> (ConversionRequest, String) {
    match start(input) {
        Step::Fetch { request, url } => (request, url),
        other => panic!("expected a fetch, got {:?}", other),
    }
}

fn done(input: &str) -> sherlock_currency::response::SherlockPipeResponse {
    match start(input) {
        Step::Done(d) => d,
        Step::Rejected { document, .. } => document,
        Step::Fetch { url, .. } => panic!("expected a document, got a fetch of {}", url),
    }
}

fn parse_message(input: &str) -> String {
    match parse_currency_input(input) {
        Err(ConversionError::Parse { message }) => message,
        other => panic!("expected a parse error, got {:?}", other),
    }
}

const USAGE: &str = "Invalid format. Use: cc [amount] [from_currency] [to_currency] or cc [amount] [from_currency] in [to_currency]";

#[test]
fn parses_plain_query() {
    let q = parse_currency_input("100 usd chf").unwrap();
    assert_eq!(q.amount, dec(100, 0));
    assert_eq!(q.from, "USD");
    assert_eq!(q.to, "CHF");
}

#[test]
fn parses_query_with_in_and_decimal() {
    let q = parse_currency_input("  25.5 cad in aud \n").unwrap();
    assert_eq!(q.amount, dec(255, 1));
    assert_eq!(q.from, "CAD");
    assert_eq!(q.to, "AUD");
}

#[test]
fn parses_four_letter_codes_in_mixed_case() {
    let q = parse_currency_input("7 UsDt eUr").unwrap();
    assert_eq!(q.from, "USDT");
    assert_eq!(q.to, "EUR");
}

#[test]
fn rejects_inputs_off_the_grammar() {
    for input in [
        "",
        "not a valid query",
        "100 usd",
        "100 usd chf extra",
        "100 usd chf!",
        "abc usd chf",
        "100 us chf",
        "100 usdxx chf",
        "100 usd  chf",
        ".5 usd chf",
        "5. usd chf",
        "1.5.2 usd chf",
        "-5 usd chf",
        "100 usd IN chf",
        "100 usd to chf",
        "100 u1d chf",
    ] {
        assert_eq!(parse_message(input), USAGE, "input {:?}", input);
    }
}

#[test]
fn amount_with_too_many_significant_digits_is_invalid_amount() {
    assert_eq!(parse_message("12345678901234567890 usd chf"), "Invalid amount");
    assert_eq!(parse_message("1.1234567890123456789 usd chf"), "Invalid amount");
}

#[test]
fn trailing_fraction_zeros_do_not_count() {
    let q = parse_currency_input("1.0000000000000000000 usd eur").unwrap();
    assert_eq!(q.amount, dec(1, 0));
    let q = parse_currency_input("2.50 usd eur").unwrap();
    assert_eq!(q.amount, dec(25, 1));
    let q = parse_currency_input("100.000 usd eur").unwrap();
    assert_eq!(q.amount, dec(100, 0));
    let q = parse_currency_input("0.1000000000000000000000 usd eur").unwrap();
    assert_eq!(q.amount, dec(1, 1));
}

#[test]
fn parse_failure_carries_its_message() {
    match start("not a valid query") {
        Step::Rejected { error, .. } => assert_eq!(error.detail(), USAGE),
        other => panic!("{:?}", other),
    }
    let e = ConversionError::UnsupportedCurrency { code: "XYZ".to_string() };
    assert_eq!(e.detail(), "Currency 'XYZ' not supported or not found");
}

#[test]
fn largest_amount_is_read() {
    let q = parse_currency_input("999999999999999999 usd chf").unwrap();
    assert_eq!(q.amount, dec(999_999_999_999_999_999, 0));
}

#[test]
fn decimal_text_is_read_exactly() {
    let t: Vec<char> = "0012.340".chars().collect();
    assert_eq!(parse_decimal(&t), Ok(dec(1234, 2)));
    let bad: Vec<char> = "1..2".chars().collect();
    assert_eq!(parse_decimal(&bad), Err(DecimalError::NotDecimal));
}

#[test]
fn converts_exactly() {
    assert_eq!(convert(dec(100, 0), dec(91, 2)), Converted { units: 9100, scale: 2 });
    assert_eq!(convert(dec(255, 1), dec(3, 0)), Converted { units: 765, scale: 1 });
}

#[test]
fn same_currency_needs_no_request() {
    match plan_rate_lookup("usd", "USD") {
        RateStep::Known(q) => {
            assert_eq!(q.rate, dec(1, 0));
            assert_eq!(q.date, "Today");
        }
        RateStep::Fetch { url } => panic!("unexpected fetch of {}", url),
    }
    let d = done("100 usd usd");
    assert_eq!(d.title, "100.00 USD \u{2192} 100.00 USD");
    assert!(d.content.contains("Date: Today"));
    assert!(d.content.contains("Inverse Rate: 1 USD = 1.000000 USD"));
    assert_eq!(d.actions.len(), 1);
}

#[test]
fn request_url_names_both_codes() {
    let (request, url) = fetch_request("50 eur in gbp");
    assert_eq!(url, "https://api.frankfurter.dev/v1/latest?base=EUR&symbols=GBP");
    assert_eq!(request.amount, dec(50, 0));
}

#[test]
fn conversion_scenario_usd_chf() {
    let (request, _) = fetch_request("100 usd chf");
    let d = finish(
        &request,
        FetchOutcome::Answered { status: 200, table: Ok(table("2024-01-15", &[("CHF", "0.91")])) },
    );
    assert_eq!(d.title, "100.00 USD \u{2192} 91.00 CHF");
    assert_eq!(d.actions.len(), 1);
    assert_eq!(d.next_content, d.content);
    let expected = "<span font_desc=\"monospace\">\n\u{2500}\u{2500}\u{2500} <b><i>Currency Conversion</i></b> \u{2500}\u{2500}\u{2500}\n\n<b>100.00 USD</b> = <b>91.00 CHF</b>\n\nExchange Rate: 1 USD = 0.910000 CHF\nInverse Rate: 1 CHF = 1.098901 USD\n\nDate: 2024-01-15\n\u{2500}\u{2500}\u{2500}\u{2500}\u{2500}\u{2500}\u{2500}\u{2500}\u{2500}\u{2500}\u{2500}\u{2500}\n</span>";
    assert_eq!(d.content, expected);
    let a = &d.actions[0];
    assert_eq!(a.name.as_deref(), Some("91.00 CHF"));
    assert_eq!(a.command.as_deref(), Some("100.00 USD = 91.00 CHF\nExchange Rate: 1 USD = 0.910000 CHF"));
    assert_eq!(a.icon.as_deref(), Some("preferences-system"));
    assert_eq!(a.method, "copy");
    assert!(a.exit);
}

#[test]
fn server_error_gives_network_document() {
    let (request, _) = fetch_request("50 eur in gbp");
    let d = finish(&request, FetchOutcome::Answered { status: 500, table: Err("unused".to_string()) });
    assert_eq!(d.title, "Conversion Failed");
    assert!(d.content.contains("<b><i>Network Error</i></b>"));
    assert!(d.content.contains("Error: HTTP Error: 500\n"));
    assert_eq!(d.next_content, "");
    assert!(d.actions.is_empty());
}

#[test]
fn missing_code_gives_unsupported_document() {
    let (request, _) = fetch_request("1000 jpy xyz");
    let d = finish(
        &request,
        FetchOutcome::Answered { status: 200, table: Ok(table("2024-01-15", &[("USD", "0.0067")])) },
    );
    assert_eq!(d.title, "Conversion Failed");
    assert!(d.content.contains("<b><i>Currency Not Supported</i></b>"));
    assert!(d.content.contains("'JPY' or 'XYZ' is not supported by Frankfurter API."));
    assert!(d.actions.is_empty());
}

#[test]
fn no_arguments_is_a_usage_error() {
    assert_eq!(query_from_args(&vec![]), None);
    assert_eq!(query_from_args(&vec!["sherlock-currency".to_string()]), None);
}

#[test]
fn arguments_are_joined_by_spaces() {
    let args: Vec<String> = ["prog", "100", "usd", "in", "chf"].iter().map(|s| s.to_string()).collect();
    assert_eq!(query_from_args(&args), Some("100 usd in chf".to_string()));
    let one: Vec<String> = ["prog", "100 usd chf"].iter().map(|s| s.to_string()).collect();
    assert_eq!(query_from_args(&one), Some("100 usd chf".to_string()));
}

#[test]
fn invalid_query_gives_usage_document() {
    let d = done("not a valid query");
    assert_eq!(d.title, "Invalid Input Format");
    assert!(d.content.contains("<b><i>Usage Examples</i></b>"));
    assert!(d.content.contains("\u{2022} cc 50 eur in gbp\n"));
    assert_eq!(d.next_content, "");
    assert!(d.actions.is_empty());
}

#[test]
fn unreachable_and_malformed_are_network_errors() {
    match quote_from_fetch("chf", FetchOutcome::Unreachable { detail: "connection refused".to_string() }) {
        Err(ConversionError::Network { detail }) => assert_eq!(detail, "connection refused"),
        other => panic!("{:?}", other),
    }
    match quote_from_fetch("chf", FetchOutcome::Answered { status: 200, table: Err("expected value".to_string()) }) {
        Err(ConversionError::Network { detail }) => assert_eq!(detail, "expected value"),
        other => panic!("{:?}", other),
    }
    match quote_from_fetch("chf", FetchOutcome::Answered { status: 404, table: Err("x".to_string()) }) {
        Err(ConversionError::Network { detail }) => assert_eq!(detail, "HTTP Error: 404"),
        other => panic!("{:?}", other),
    }
}

#[test]
fn zero_and_unreadable_rates_are_generic_errors() {
    match quote_from_fetch("chf", FetchOutcome::Answered { status: 200, table: Ok(table("d", &[("CHF", "0.000")])) }) {
        Err(ConversionError::Generic { detail }) => assert_eq!(detail, "Exchange rate is zero"),
        other => panic!("{:?}", other),
    }
    match quote_from_fetch("chf", FetchOutcome::Answered { status: 200, table: Ok(table("d", &[("CHF", "-1")])) }) {
        Err(ConversionError::Generic { detail }) => assert_eq!(detail, "Invalid exchange rate: -1"),
        other => panic!("{:?}", other),
    }
    let zero = RateQuote { rate: dec(0, 0), date: "d".to_string() };
    let d = success_response(dec(1, 0), "USD", "CHF", &zero);
    assert_eq!(d.title, "Conversion Failed");
    assert!(d.content.contains("Exchange rate is zero"));
    assert!(format_conversion_content(dec(1, 0), "USD", "CHF", dec(0, 0), "d").is_err());
}

#[test]
fn lookup_uses_upper_case_code_and_table_date() {
    let q = quote_from_fetch("gbp", FetchOutcome::Answered {
        status: 200,
        table: Ok(table("2024-02-01", &[("EUR", "2"), ("GBP", "0.8567")])),
    })
    .unwrap();
    assert_eq!(q.rate, dec(8567, 4));
    assert_eq!(q.date, "2024-02-01");
}

#[test]
fn amounts_round_half_up_to_two_decimals() {
    let a = ApplicationAction::from_conversion(dec(2675, 3), "usd", "chf", dec(1, 0));
    assert_eq!(a.name.as_deref(), Some("2.68 CHF"));
    let b = ApplicationAction::from_conversion(dec(4, 3), "usd", "chf", dec(1, 0));
    assert_eq!(b.name.as_deref(), Some("0.00 CHF"));
    let c = ApplicationAction::from_conversion(dec(5, 3), "usd", "chf", dec(1, 0));
    assert_eq!(c.name.as_deref(), Some("0.01 CHF"));
}

#[test]
fn inverse_rate_round_trip_is_close() {
    let c = format_conversion_content(dec(100, 0), "USD", "CHF", dec(91, 2), "d").unwrap();
    assert!(c.contains("Inverse Rate: 1 CHF = 1.098901 USD"));
    let back = 100.0_f64 * 0.91 * 1.098901;
    assert!((back - 100.0).abs() < 100.0 * 0.91 * 0.000001);
    let c3 = format_conversion_content(dec(1, 0), "USD", "JPY", dec(3, 0), "d").unwrap();
    assert!(c3.contains("Inverse Rate: 1 JPY = 0.333333 USD"));
    let c2 = format_conversion_content(dec(1, 0), "USD", "XAU", dec(15, 1), "d").unwrap();
    assert!(c2.contains("Inverse Rate: 1 XAU = 0.666667 USD"));
}

#[test]
fn generic_error_document_carries_detail() {
    let d = error_response("usd", "chf", &ConversionError::Generic { detail: "boom".to_string() });
    assert_eq!(d.title, "Conversion Failed");
    assert!(d.content.contains("An error occurred during conversion:\nboom\n"));
    assert!(d.actions.is_empty());
}
