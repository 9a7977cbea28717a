//! One run: arguments to query, query to a document or a rate request, and the
//! rate service's outcome to a document.
use vstd::prelude::*;

use crate::decimal::{fits_decimal, units_of, places_of, Decimal};
use crate::query::{
    matches_query, parse_currency_input, parsed_as, query_fields, upper, ConversionError,
    ConversionRequest,
};
use crate::rates::{plan_rate_lookup, quote_from_fetch, quote_outcome, rate_url, today, FetchOutcome, RateQuote, RateStep};
use crate::response::{
    error_response, invalid_title, is_error_doc, is_failure_doc, is_success_doc, success_response,
    usage_examples_text, SherlockPipeResponse,
};

verus! {

/// The arguments after the program name joined by single spaces.
pub open spec fn joined(args: Seq<String>) -> Seq<char>
    decreases args.len(),
{
    if args.len() == 0 {
        seq![]
    } else if args.len() == 1 {
        args[0]@
    } else {
        joined(args.drop_last()) + " "@ + args.last()@
    }
}

/// The query of a command line `args` (program name first); `None` when no
/// argument follows the program name.
pub fn query_from_args(args: &Vec<String>) -> (r: Option<String>)
    ensures
        r is None <==> args@.len() < 2,
        r matches Some(q) ==> q@ == joined(args@.skip(1)),
{
    if args.len() < 2 {
        return None;
    }
    let mut q = args[1].clone();
    let mut i: usize = 2;
    assert(args@.skip(1).take(1) =~= seq![args@[1]]);
    while i < args.len()
        invariant
            2 <= i <= args@.len(),
            q@ == joined(args@.skip(1).take(i - 1)),
        decreases args@.len() - i,
    {
        q.append(" ");
        q.append(args[i].as_str());
        assert(args@.skip(1).take(i as int).drop_last() =~= args@.skip(1).take(i - 1));
        i = i + 1;
    }
    assert(args@.skip(1).take(args@.len() - 1) =~= args@.skip(1));
    Some(q)
}

/// What a run does after reading its query.
#[derive(Debug)]
pub enum Step {
    /// The run is over with this document.
    Done(SherlockPipeResponse),
    /// The query could not be read: the run is over with this document, and the
    /// parse error says why.
    Rejected { document: SherlockPipeResponse, error: ConversionError },
    /// The request needs the rate at this URL.
    Fetch { request: ConversionRequest, url: String },
}

pub open spec fn amount_of(a: Seq<char>) -> Decimal {
    Decimal { units: units_of(a) as u64, scale: places_of(a) as u32 }
}

pub open spec fn one() -> Decimal {
    Decimal { units: 1, scale: 0 }
}

pub proof fn lemma_upper_idempotent(s: Seq<char>)
    ensures
        upper(upper(s)) == upper(s),
{
    assert(upper(upper(s)) =~= upper(s));
}

/// Whether `input` is a query whose amount fits a `Decimal`.
pub open spec fn readable(input: Seq<char>) -> bool {
    matches_query(input) && (query_fields(input) matches Some((a, f, t)) && fits_decimal(a))
}

/// What `start` does on `input`.
pub open spec fn start_result(input: Seq<char>, r: Step) -> bool {
    match query_fields(input) {
        Some((a, f, t)) if readable(input) => if upper(f) == upper(t) {
            r matches Step::Done(d) && is_success_doc(d, amount_of(a), upper(f), upper(t), one(), today())
        } else {
            &&& r matches Step::Fetch { request, url }
            &&& request.amount == amount_of(a)
            &&& request.amount.wf()
            &&& request.from@ == upper(f)
            &&& request.to@ == upper(t)
            &&& url@ == rate_url(upper(f), upper(t))
        },
        _ => {
            &&& r matches Step::Rejected { document, error }
            &&& is_failure_doc(document, invalid_title(), usage_examples_text())
            &&& parsed_as(input, Err(error))
        },
    }
}

/// Reads the query. A parse failure ends the run with the usage document; codes
/// equal ignoring case end it with a conversion at rate one dated `Today`; any
/// other request goes to the rate service at the URL for its upper-cased codes.
pub fn start(input: &str) -> (r: Step)
    ensures
        start_result(input@, r),
{
    let parsed = parse_currency_input(input);
    match parsed {
        Err(e) => Step::Rejected { document: error_response("", "", &e), error: e },
        Ok(request) => {
            proof {
                let fields = query_fields(input@)->0;
                lemma_upper_idempotent(fields.1);
                lemma_upper_idempotent(fields.2);
            }
            match plan_rate_lookup(request.from.as_str(), request.to.as_str()) {
                RateStep::Known(q) => {
                    assert(q.rate == one());
                    Step::Done(success_response(request.amount, request.from.as_str(), request.to.as_str(), &q))
                },
                RateStep::Fetch { url } => Step::Fetch { request, url },
            }
        },
    }
}

/// The document for a result of the rate service's outcome.
pub open spec fn outcome_doc(request: ConversionRequest, r: Result<RateQuote, ConversionError>, d: SherlockPipeResponse) -> bool {
    match r {
        Ok(q) => is_success_doc(d, request.amount, request.from@, request.to@, q.rate, q.date@),
        Err(e) => is_error_doc(d, request.from@, request.to@, e),
    }
}

/// Ends a run that asked the rate service: the conversion document where the
/// outcome gives a usable rate, else the document of the failure.
pub fn finish(request: &ConversionRequest, outcome: FetchOutcome) -> (d: SherlockPipeResponse)
    requires
        request.amount.wf(),
    ensures
        exists|r: Result<RateQuote, ConversionError>|
            quote_outcome(request.to@, outcome, r) && #[trigger] outcome_doc(*request, r, d),
{
    let ghost o = outcome;
    let quoted = quote_from_fetch(request.to.as_str(), outcome);
    let d = render_quote(request, &quoted);
    assert(quote_outcome(request.to@, o, quoted) && outcome_doc(*request, quoted, d));
    d
}

/// The document for the result of a rate lookup: the conversion where there is a
/// rate, else the document of the failure.
pub fn render_quote(request: &ConversionRequest, quoted: &Result<RateQuote, ConversionError>) -> (d: SherlockPipeResponse)
    requires
        request.amount.wf(),
        quoted matches Ok(q) ==> q.rate.wf() && q.rate.units > 0,
    ensures
        outcome_doc(*request, *quoted, d),
{
    match quoted {
        Ok(q) => success_response(request.amount, request.from.as_str(), request.to.as_str(), q),
        Err(e) => error_response(request.from.as_str(), request.to.as_str(), e),
    }
}

} // verus!
