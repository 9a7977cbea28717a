//! The query grammar: `<amount> <code> [in] <code>`.
use vstd::prelude::*;

use crate::decimal::{
    fits_decimal, is_decimal_text, is_digit, units_of, parse_decimal, places_of, Decimal, DecimalError,
};
use crate::text::{chars_of, string_of};

verus! {

/// A validated conversion request: an amount and two upper-case codes.
#[derive(Debug)]
pub struct ConversionRequest {
    pub amount: Decimal,
    pub from: String,
    pub to: String,
}

/// Why a run did not produce a conversion.
#[derive(Debug)]
pub enum ConversionError {
    /// The query does not follow the grammar, or its amount cannot be read.
    Parse { message: String },
    /// The rate service could not be reached, answered with a failure status, or
    /// sent a body that is not a rate table.
    Network { detail: String },
    /// The rate table has no entry for the requested code.
    UnsupportedCurrency { code: String },
    /// Anything else, such as a zero or unreadable rate.
    Generic { detail: String },
}

/// The text that says why a run failed.
pub open spec fn error_detail(e: ConversionError) -> Seq<char> {
    match e {
        ConversionError::Parse { message } => message@,
        ConversionError::Network { detail } => detail@,
        ConversionError::UnsupportedCurrency { code } => "Currency '"@ + code@ + "' not supported or not found"@,
        ConversionError::Generic { detail } => detail@,
    }
}

impl ConversionError {
    /// Why the run failed, in words.
    pub fn detail(&self) -> (r: String)
        ensures
            r@ == error_detail(*self),
    {
        match self {
            ConversionError::Parse { message } => message.clone(),
            ConversionError::Network { detail } => detail.clone(),
            ConversionError::UnsupportedCurrency { code } => {
                let mut r = "Currency '".to_string();
                r.append(code.as_str());
                r.append("' not supported or not found");
                r
            },
            ConversionError::Generic { detail } => detail.clone(),
        }
    }
}

/// Unicode white space, as trimming treats it.
pub open spec fn is_space(c: char) -> bool {
    ('\t' <= c && c <= '\r') || c == ' ' || c == '\u{85}' || c == '\u{A0}' || c == '\u{1680}'
        || ('\u{2000}' <= c && c <= '\u{200A}') || c == '\u{2028}' || c == '\u{2029}'
        || c == '\u{202F}' || c == '\u{205F}' || c == '\u{3000}'
}

fn is_space_char(c: char) -> (r: bool)
    ensures
        r == is_space(c),
{
    ('\t' <= c && c <= '\r') || c == ' ' || c == '\u{85}' || c == '\u{A0}' || c == '\u{1680}'
        || ('\u{2000}' <= c && c <= '\u{200A}') || c == '\u{2028}' || c == '\u{2029}'
        || c == '\u{202F}' || c == '\u{205F}' || c == '\u{3000}'
}

pub open spec fn trim_start(s: Seq<char>) -> Seq<char>
    decreases s.len(),
{
    if s.len() > 0 && is_space(s[0]) {
        trim_start(s.drop_first())
    } else {
        s
    }
}

pub open spec fn trim_end(s: Seq<char>) -> Seq<char>
    decreases s.len(),
{
    if s.len() > 0 && is_space(s.last()) {
        trim_end(s.drop_last())
    } else {
        s
    }
}

/// `s` without leading and trailing white space.
pub open spec fn trimmed(s: Seq<char>) -> Seq<char> {
    trim_end(trim_start(s))
}

/// The pieces of `s` between single spaces (`"a  b"` has an empty piece).
pub open spec fn split_spaces(s: Seq<char>) -> Seq<Seq<char>>
    decreases s.len(),
{
    if s.len() == 0 {
        seq![seq![]]
    } else {
        let p = split_spaces(s.drop_last());
        if s.last() == ' ' {
            p.push(seq![])
        } else {
            p.update(p.len() - 1, p.last().push(s.last()))
        }
    }
}

pub open spec fn is_letter(c: char) -> bool {
    ('a' <= c && c <= 'z') || ('A' <= c && c <= 'Z')
}

/// A currency code as typed: three or four ASCII letters.
pub open spec fn is_code(s: Seq<char>) -> bool {
    3 <= s.len() <= 4 && forall|i: int| 0 <= i < s.len() ==> is_letter(#[trigger] s[i])
}

pub open spec fn upper_char(c: char) -> char {
    if 'a' <= c && c <= 'z' {
        ((c as u32 - 32) as u8) as char
    } else {
        c
    }
}

/// `s` with ASCII lower-case letters made upper-case.
pub open spec fn upper(s: Seq<char>) -> Seq<char> {
    s.map_values(|c: char| upper_char(c))
}

/// The amount text and the two codes of a query, where it has the right shape of
/// words: three words, or four with `in` third.
pub open spec fn query_fields(input: Seq<char>) -> Option<(Seq<char>, Seq<char>, Seq<char>)> {
    let w = split_spaces(trimmed(input));
    if w.len() == 3 {
        Some((w[0], w[1], w[2]))
    } else if w.len() == 4 && w[2] == seq!['i', 'n'] {
        Some((w[0], w[1], w[3]))
    } else {
        None
    }
}

/// Whether `input` follows the query grammar.
pub open spec fn matches_query(input: Seq<char>) -> bool {
    match query_fields(input) {
        Some((a, f, t)) => is_decimal_text(a) && is_code(f) && is_code(t),
        None => false,
    }
}

pub open spec fn usage_message() -> Seq<char> {
    "Invalid format. Use: cc [amount] [from_currency] [to_currency] or cc [amount] [from_currency] in [to_currency]"@
}

pub open spec fn invalid_amount_message() -> Seq<char> {
    "Invalid amount"@
}

/// What `parse_currency_input` returns on `input`, as a relation.
pub open spec fn parsed_as(input: Seq<char>, r: Result<ConversionRequest, ConversionError>) -> bool {
    match r {
        Ok(q) => {
            &&& matches_query(input)
            &&& query_fields(input) matches Some((a, f, t))
            &&& fits_decimal(a)
            &&& q.amount.wf()
            &&& q.amount.units == units_of(a)
            &&& q.amount.scale == places_of(a)
            &&& q.from@ == upper(f)
            &&& q.to@ == upper(t)
        },
        Err(ConversionError::Parse { message }) => if matches_query(input) {
            &&& query_fields(input) matches Some((a, f, t))
            &&& !fits_decimal(a)
            &&& message@ == invalid_amount_message()
        } else {
            message@ == usage_message()
        },
        Err(_) => false,
    }
}

fn trim_chars(s: &Vec<char>) -> (r: Vec<char>)
    ensures
        r@ == trimmed(s@),
{
    let n = s.len();
    let mut i: usize = 0;
    assert(s@.subrange(0, n as int) =~= s@);
    while i < n && is_space_char(s[i])
        invariant
            n == s@.len(),
            i <= n,
            trim_start(s@) == trim_start(s@.subrange(i as int, n as int)),
        decreases n - i,
    {
        assert(s@.subrange(i as int, n as int).drop_first() =~= s@.subrange(i + 1, n as int));
        i = i + 1;
    }
    let mut j: usize = n;
    while j > i && is_space_char(s[j - 1])
        invariant
            n == s@.len(),
            i <= j <= n,
            trim_start(s@) == s@.subrange(i as int, n as int),
            trimmed(s@) == trim_end(s@.subrange(i as int, j as int)),
        decreases j,
    {
        assert(s@.subrange(i as int, j as int).drop_last() =~= s@.subrange(i as int, j - 1));
        j = j - 1;
    }
    let mut r: Vec<char> = Vec::new();
    let mut k: usize = i;
    while k < j
        invariant
            n == s@.len(),
            i <= k <= j <= n,
            r@ == s@.subrange(i as int, k as int),
        decreases j - k,
    {
        r.push(s[k]);
        k = k + 1;
        assert(r@ =~= s@.subrange(i as int, k as int));
    }
    r
}

pub proof fn lemma_split_nonempty(s: Seq<char>)
    ensures
        split_spaces(s).len() >= 1,
    decreases s.len(),
{
    if s.len() > 0 {
        lemma_split_nonempty(s.drop_last());
    }
}

/// Splits `s` at each space.
fn split_chars(s: &Vec<char>) -> (r: Vec<Vec<char>>)
    ensures
        r@.map_values(|w: Vec<char>| w@) == split_spaces(s@),
{
    let mut done: Vec<Vec<char>> = Vec::new();
    let mut cur: Vec<char> = Vec::new();
    let mut i: usize = 0;
    assert(s@.take(0) =~= seq![]);
    assert(done@.map_values(|w: Vec<char>| w@).push(cur@) =~= split_spaces(s@.take(0)));
    while i < s.len()
        invariant
            i <= s@.len(),
            done@.map_values(|w: Vec<char>| w@).push(cur@) == split_spaces(s@.take(i as int)),
        decreases s@.len() - i,
    {
        let c = s[i];
        let ghost before = done@.map_values(|w: Vec<char>| w@);
        assert(s@.take(i + 1).drop_last() =~= s@.take(i as int));
        if c == ' ' {
            let w = cur;
            done.push(w);
            cur = Vec::new();
            assert(done@.map_values(|w: Vec<char>| w@) =~= before.push(w@));
        } else {
            cur.push(c);
        }
        i = i + 1;
        assert(done@.map_values(|w: Vec<char>| w@).push(cur@) =~= split_spaces(s@.take(i as int)));
    }
    assert(s@.take(s@.len() as int) =~= s@);
    let ghost before = done@.map_values(|w: Vec<char>| w@);
    let w = cur;
    done.push(w);
    assert(done@.map_values(|w: Vec<char>| w@) =~= before.push(w@));
    done
}

fn is_code_chars(s: &Vec<char>) -> (r: bool)
    ensures
        r == is_code(s@),
{
    if s.len() < 3 || s.len() > 4 {
        return false;
    }
    let mut i: usize = 0;
    while i < s.len()
        invariant
            i <= s@.len(),
            forall|k: int| 0 <= k < i ==> is_letter(#[trigger] s@[k]),
        decreases s@.len() - i,
    {
        let c = s[i];
        if !(('a' <= c && c <= 'z') || ('A' <= c && c <= 'Z')) {
            return false;
        }
        i = i + 1;
    }
    true
}

pub(crate) fn upper_chars(s: &Vec<char>) -> (r: Vec<char>)
    ensures
        r@ == upper(s@),
{
    let mut r: Vec<char> = Vec::new();
    let mut i: usize = 0;
    while i < s.len()
        invariant
            i <= s@.len(),
            r@ == upper(s@.take(i as int)),
        decreases s@.len() - i,
    {
        let c = s[i];
        let u = if 'a' <= c && c <= 'z' { ((c as u32 - 32) as u8) as char } else { c };
        r.push(u);
        i = i + 1;
        assert(r@ =~= upper(s@.take(i as int)));
    }
    assert(s@.take(s@.len() as int) =~= s@);
    r
}

fn parse_error(invalid_amount: bool) -> (r: ConversionError)
    ensures
        r matches ConversionError::Parse { message } && message@ == if invalid_amount {
            invalid_amount_message()
        } else {
            usage_message()
        },
{
    proof {
        reveal_strlit("Invalid amount");
        reveal_strlit("Invalid format. Use: cc [amount] [from_currency] [to_currency] or cc [amount] [from_currency] in [to_currency]");
    }
    let message = if invalid_amount {
        "Invalid amount".to_string()
    } else {
        "Invalid format. Use: cc [amount] [from_currency] [to_currency] or cc [amount] [from_currency] in [to_currency]".to_string()
    };
    ConversionError::Parse { message }
}

/// Reads a query such as `100 usd chf` or `25.5 cad in aud`: the amount, and the
/// two codes upper-cased.
pub fn parse_currency_input(input: &str) -> (r: Result<ConversionRequest, ConversionError>)
    ensures
        parsed_as(input@, r),
{
    let chars = chars_of(input);
    let t = trim_chars(&chars);
    let words = split_chars(&t);
    let ghost w = words@.map_values(|w: Vec<char>| w@);
    assert(w == split_spaces(trimmed(input@)));
    let n = words.len();
    let to_index: usize;
    if n == 3 {
        to_index = 2;
    } else if n == 4 && words[2].len() == 2 && words[2][0] == 'i' && words[2][1] == 'n' {
        assert(w[2] =~= seq!['i', 'n']);
        to_index = 3;
    } else {
        proof {
            if n == 4 && w[2] == seq!['i', 'n'] {
                assert(words[2]@ == w[2]);
            }
        }
        return Err(parse_error(false));
    }
    assert(query_fields(input@) == Some((w[0], w[1], w[to_index as int])));
    if !is_code_chars(&words[1]) || !is_code_chars(&words[to_index]) {
        return Err(parse_error(false));
    }
    match parse_decimal(&words[0]) {
        Ok(amount) => {
            let from = string_of(&upper_chars(&words[1]));
            let to = string_of(&upper_chars(&words[to_index]));
            Ok(ConversionRequest { amount, from, to })
        },
        Err(DecimalError::NotDecimal) => Err(parse_error(false)),
        Err(DecimalError::OutOfRange) => Err(parse_error(true)),
    }
}

proof fn lemma_split_no_space(y: Seq<char>)
    requires
        forall|i: int| 0 <= i < y.len() ==> #[trigger] y[i] != ' ',
    ensures
        split_spaces(y) == seq![y],
    decreases y.len(),
{
    if y.len() == 0 {
        assert(y =~= Seq::<char>::empty());
        assert(split_spaces(y) =~= seq![y]);
    } else {
        let p = y.drop_last();
        assert(forall|i: int| 0 <= i < p.len() ==> #[trigger] p[i] == y[i]);
        lemma_split_no_space(p);
        assert(y.last() == y[y.len() - 1]);
        assert(y.last() != ' ');
        assert(p.push(y.last()) =~= y);
        assert(split_spaces(p).last() == p);
        assert(split_spaces(y) =~= seq![y]);
    }
}

proof fn lemma_split_concat(x: Seq<char>, y: Seq<char>)
    ensures
        split_spaces(x + seq![' '] + y) == split_spaces(x) + split_spaces(y),
    decreases y.len(),
{
    let z = x + seq![' '] + y;
    if y.len() == 0 {
        assert(z.drop_last() =~= x);
        assert(split_spaces(z) =~= split_spaces(x) + split_spaces(y));
    } else {
        assert(z.drop_last() =~= x + seq![' '] + y.drop_last());
        lemma_split_concat(x, y.drop_last());
        lemma_split_nonempty(y.drop_last());
        lemma_split_nonempty(x);
        assert(z.last() == y.last());
        assert(split_spaces(z) =~= split_spaces(x) + split_spaces(y));
    }
}

proof fn lemma_trimmed_plain(s: Seq<char>)
    requires
        s.len() > 0,
        !is_space(s[0]),
        !is_space(s.last()),
    ensures
        trimmed(s) == s,
{
}

proof fn lemma_plain_word(s: Seq<char>)
    requires
        is_decimal_text(s) || is_code(s),
    ensures
        forall|i: int| 0 <= i < s.len() ==> #[trigger] s[i] != ' ',
        s.len() > 0,
        !is_space(s[0]),
        !is_space(s.last()),
{
    if is_code(s) {
        assert(is_letter(s[0]));
        assert(is_letter(s[s.len() - 1]));
    }
    assert forall|i: int| 0 <= i < s.len() implies #[trigger] s[i] != ' ' by {
        if is_code(s) {
            assert(is_letter(s[i]));
        } else {
            assert(is_digit(s[i]) || s[i] == '.');
        }
    }
}

/// A query written as an amount, a code, optionally the word `in`, and a code,
/// separated by single spaces, is read as that amount and the two codes
/// upper-cased; it fails only where the amount has too many digits.
pub proof fn lemma_query_grammar(
    a: Seq<char>,
    f: Seq<char>,
    t: Seq<char>,
    with_in: bool,
    r: Result<ConversionRequest, ConversionError>,
)
    requires
        is_decimal_text(a),
        is_code(f),
        is_code(t),
        parsed_as(
            if with_in {
                a + seq![' '] + f + seq![' '] + seq!['i', 'n'] + seq![' '] + t
            } else {
                a + seq![' '] + f + seq![' '] + t
            },
            r,
        ),
    ensures
        r is Ok <==> fits_decimal(a),
        r matches Ok(q) ==> q.amount.units == units_of(a) && q.amount.scale == places_of(a)
            && q.from@ == upper(f) && q.to@ == upper(t),
{
    let word_in = seq!['i', 'n'];
    let input = if with_in {
        a + seq![' '] + f + seq![' '] + word_in + seq![' '] + t
    } else {
        a + seq![' '] + f + seq![' '] + t
    };
    lemma_plain_word(a);
    lemma_plain_word(f);
    lemma_plain_word(t);
    lemma_split_no_space(a);
    lemma_split_no_space(f);
    lemma_split_no_space(t);
    lemma_split_concat(a, f);
    lemma_split_concat(a + seq![' '] + f, t);
    assert(input[0] == a[0]);
    assert(input.last() == t.last());
    lemma_trimmed_plain(input);
    if with_in {
        assert(forall|i: int| 0 <= i < word_in.len() ==> #[trigger] word_in[i] != ' ');
        lemma_split_no_space(word_in);
        lemma_split_concat(a + seq![' '] + f, word_in);
        lemma_split_concat(a + seq![' '] + f + seq![' '] + word_in, t);
        assert(split_spaces(input) =~= seq![a, f, word_in, t]);
    } else {
        assert(split_spaces(input) =~= seq![a, f, t]);
    }
    assert(query_fields(input) == Some((a, f, t)));
}

} // verus!
