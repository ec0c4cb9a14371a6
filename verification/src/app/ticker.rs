//! Daily prices of bitcoin in US dollars, as the exchange's OHLC endpoint reports them.
use crate::amount::{decimal_parse, decimal_text, Amount};
use crate::app::money::Currency;
use crate::datetime::{is_valid_timestamp, valid_timestamp};
use vstd::prelude::*;

verus! {

/// A value of a price row: a number or a text.
#[derive(Clone, Debug)]
pub enum IntOrString {
    I64(i64),
    Str(String),
}

impl IntOrString {
    /// The number of a number value.
    pub fn take_i64(&self) -> (r: i64)
        requires
            self is I64,
        ensures
            r == self->I64_0,
    {
        match self {
            IntOrString::I64(i) => *i,
            IntOrString::Str(_) => unreached(),
        }
    }

    /// The text of a text value.
    pub fn take_string(self) -> (r: String)
        requires
            self is Str,
        ensures
            r@ == (self->Str_0)@,
    {
        match self {
            IntOrString::I64(_) => unreached(),
            IntOrString::Str(s) => s,
        }
    }

    /// A copy of the value.
    pub fn duplicate(&self) -> (r: IntOrString)
        ensures
            match (*self, r) {
                (IntOrString::I64(a), IntOrString::I64(b)) => a == b,
                (IntOrString::Str(a), IntOrString::Str(b)) => a@ == b@,
                _ => false,
            },
    {
        match self {
            IntOrString::I64(i) => IntOrString::I64(*i),
            IntOrString::Str(s) => IntOrString::Str(s.clone()),
        }
    }
}

impl Default for IntOrString {
    /// The number zero.
    fn default() -> (r: IntOrString)
        ensures
            r == IntOrString::I64(0),
    {
        IntOrString::I64(0)
    }
}

/// The price rows of a response and the time of its last row.
#[derive(Clone, Debug)]
pub struct BitCoinOhlcVec {
    pub bitcoin_usd: Vec<Vec<IntOrString>>,
    pub last: u64,
}

/// A response of the OHLC endpoint: the errors it reports and its rows.
#[derive(Clone, Debug)]
pub struct BitCoinResponse {
    pub error: Vec<String>,
    pub result: BitCoinOhlcVec,
}

/// The prices of one day: open, high, low, close, volume-weighted average and volume.
#[derive(Clone, Debug)]
pub struct Ohlc {
    pub name: String,
    pub currency: Currency,
    /// UNIX timestamp, in seconds.
    pub date_time: i64,
    pub open: Amount,
    pub high: Amount,
    pub low: Amount,
    pub close: Amount,
    pub vwap: Amount,
    pub volume: Amount,
    pub count: i64,
}

/// Why a response gives no prices.
#[derive(Debug)]
pub enum TickerError {
    /// The endpoint reported these errors.
    Api(Vec<String>),
    /// A price text is not a decimal.
    InvalidNumber(rust_decimal::Error),
}

/// What a response gives, without the parts fixed for every response (the name
/// "bitcoin" and the currency).
pub enum OhlcOutcome {
    /// The date, the six prices in order, and the count of trades.
    Prices(i64, Seq<(int, int)>, i64),
    /// The errors the endpoint reported.
    ApiErrors(Seq<Seq<char>>),
    /// A price text is not a decimal.
    InvalidNumber,
}

/// The price at index `k` of a row: `None` where the row has no text there, otherwise
/// what `Decimal`'s `FromStr` makes of the text.
pub open spec fn price_at(row: Seq<IntOrString>, k: int) -> Option<Option<(int, int)>> {
    if 0 <= k < row.len() {
        match row[k] {
            IntOrString::Str(s) => Some(decimal_parse(s@)),
            IntOrString::I64(_) => None,
        }
    } else {
        None
    }
}

/// The prices at indexes 1 to `k` of a row, read in order: `None` where one is missing,
/// `Some(None)` where the first of them that is not a decimal stops the reading.
pub open spec fn prices_up_to(row: Seq<IntOrString>, k: nat) -> Option<Option<Seq<(int, int)>>>
    decreases k,
{
    if k == 0 {
        Some(Some(Seq::<(int, int)>::empty()))
    } else {
        match prices_up_to(row, (k - 1) as nat) {
            None => None,
            Some(None) => Some(None),
            Some(Some(ps)) => match price_at(row, k as int) {
                None => None,
                Some(None) => Some(None),
                Some(Some(p)) => Some(Some(ps.push(p))),
            },
        }
    }
}

/// What a response gives: its errors when it reports some; otherwise, from its first row,
/// the date (a number `chrono` can hold), the six prices (texts) and the count (a
/// number), or `InvalidNumber` at the first price that is not a decimal. `None` where the
/// response lacks what is read from it.
pub open spec fn ohlc_outcome(errors: Seq<Seq<char>>, rows: Seq<Seq<IntOrString>>) -> Option<OhlcOutcome> {
    if errors.len() > 0 {
        Some(OhlcOutcome::ApiErrors(errors))
    } else if rows.len() == 0 || rows[0].len() == 0 {
        None
    } else {
        match rows[0][0] {
            IntOrString::Str(_) => None,
            IntOrString::I64(ts) => if !valid_timestamp(ts as int) {
                None
            } else {
                match prices_up_to(rows[0], 6) {
                    None => None,
                    Some(None) => Some(OhlcOutcome::InvalidNumber),
                    Some(Some(ps)) => if rows[0].len() < 8 {
                        None
                    } else {
                        match rows[0][7] {
                            IntOrString::I64(c) => Some(OhlcOutcome::Prices(ts, ps, c)),
                            IntOrString::Str(_) => None,
                        }
                    },
                }
            },
        }
    }
}

/// Once reading the prices stops, reading further ones stops the same way.
proof fn lemma_prices_stop(row: Seq<IntOrString>, k: nat, j: nat)
    requires
        k <= j,
        !(prices_up_to(row, k) is Some && prices_up_to(row, k).unwrap() is Some),
    ensures
        prices_up_to(row, j) == prices_up_to(row, k),
    decreases j - k,
{
    if k < j {
        lemma_prices_stop(row, k, (j - 1) as nat);
    }
}

/// The texts of a sequence of texts.
pub open spec fn texts_view(s: Seq<String>) -> Seq<Seq<char>> {
    s.map_values(|t: String| t@)
}

/// The rows of a response.
pub open spec fn rows_view(s: Seq<Vec<IntOrString>>) -> Seq<Seq<IntOrString>> {
    s.map_values(|r: Vec<IntOrString>| r@)
}

/// What a result of reading a response stands for.
pub open spec fn outcome_of(r: Result<Ohlc, TickerError>) -> OhlcOutcome {
    match r {
        Ok(o) => OhlcOutcome::Prices(
            o.date_time,
            seq![o.open@, o.high@, o.low@, o.close@, o.vwap@, o.volume@],
            o.count,
        ),
        Err(TickerError::Api(e)) => OhlcOutcome::ApiErrors(texts_view(e@)),
        Err(TickerError::InvalidNumber(_)) => OhlcOutcome::InvalidNumber,
    }
}

/// The result is for bitcoin in US dollars when it holds prices.
pub open spec fn names_bitcoin(r: Result<Ohlc, TickerError>) -> bool {
    r matches Ok(o) ==> o.name@ == "bitcoin"@ && o.currency == Currency::Usd
}

/// The price at index `k` of the row, or `None` where the row has no text there.
fn read_price(row: &Vec<IntOrString>, k: usize) -> (r: Option<Result<Amount, rust_decimal::Error>>)
    ensures
        match price_at(row@, k as int) {
            None => r is None,
            Some(p) => r matches Some(x) && match x {
                Ok(a) => p == Some(a@),
                Err(_) => p is None,
            },
        },
{
    if k >= row.len() {
        return None;
    }
    let value = row[k].duplicate();
    match value {
        IntOrString::I64(_) => None,
        IntOrString::Str(_) => Some(Amount::parse(value.take_string().as_str())),
    }
}

/// Reads the prices of a response, or `None` where it lacks what is read from it.
pub fn checked_ohlc_from_response(body: &BitCoinResponse) -> (r: Option<Result<Ohlc, TickerError>>)
    ensures
        match ohlc_outcome(texts_view(body.error@), rows_view(body.result.bitcoin_usd@)) {
            None => r is None,
            Some(o) => r matches Some(x) && outcome_of(x) == o && names_bitcoin(x),
        },
{
    if body.error.len() > 0 {
        let mut errors: Vec<String> = Vec::new();
        for i in 0..body.error.len()
            invariant
                texts_view(errors@) == texts_view(body.error@).take(i as int),
        {
            let ghost e = texts_view(errors@);
            errors.push(body.error[i].clone());
            assert(texts_view(errors@) =~= e.push(body.error@[i as int]@));
            assert(texts_view(body.error@).take(i + 1) =~= e.push(body.error@[i as int]@));
        }
        assert(texts_view(body.error@).take(body.error.len() as int) =~= texts_view(body.error@));
        return Some(Err(TickerError::Api(errors)));
    }
    if body.result.bitcoin_usd.len() == 0 || body.result.bitcoin_usd[0].len() == 0 {
        return None;
    }
    let row = &body.result.bitcoin_usd[0];
    assert(rows_view(body.result.bitcoin_usd@)[0] == row@);
    assert(body.error.len() == 0 ==> texts_view(body.error@).len() == 0);
    let ts = match &row[0] {
        IntOrString::Str(_) => return None,
        IntOrString::I64(_) => row[0].take_i64(),
    };
    if !is_valid_timestamp(ts) {
        return None;
    }
    let mut prices: Vec<Amount> = Vec::new();
    let mut k: usize = 1;
    while k <= 6
        invariant
            1 <= k <= 7,
            row@ == rows_view(body.result.bitcoin_usd@)[0],
            prices_up_to(row@, (k - 1) as nat) == Some(Some(prices@.map_values(|a: Amount| a@))),
            prices.len() == k - 1,
            body.error.len() == 0,
            rows_view(body.result.bitcoin_usd@).len() > 0,
            row@.len() > 0,
            row@[0] == IntOrString::I64(ts),
            valid_timestamp(ts as int),
        decreases 7 - k,
    {
        match read_price(row, k) {
            None => {
                proof {
                    lemma_prices_stop(row@, k as nat, 6);
                }
                return None;
            },
            Some(Err(e)) => {
                proof {
                    lemma_prices_stop(row@, k as nat, 6);
                }
                return Some(Err(TickerError::InvalidNumber(e)));
            },
            Some(Ok(p)) => {
                let ghost before = prices@.map_values(|a: Amount| a@);
                prices.push(p);
                assert(prices@.map_values(|a: Amount| a@) =~= before.push(p@));
            },
        }
        k = k + 1;
    }
    if row.len() < 8 {
        return None;
    }
    let count = match &row[7] {
        IntOrString::Str(_) => return None,
        IntOrString::I64(_) => row[7].take_i64(),
    };
    let ghost ps = prices@.map_values(|a: Amount| a@);
    let ohlc = Ohlc {
        name: String::from_str("bitcoin"),
        currency: Currency::Usd,
        date_time: ts,
        open: prices[0],
        high: prices[1],
        low: prices[2],
        close: prices[3],
        vwap: prices[4],
        volume: prices[5],
        count,
    };
    assert(seq![ohlc.open@, ohlc.high@, ohlc.low@, ohlc.close@, ohlc.vwap@, ohlc.volume@] =~= ps);
    Some(Ok(ohlc))
}

/// Reads the prices of a response: its errors when it reports some; otherwise, from its
/// first row, the date, the six prices and the count, or the error of the first price
/// that is not a decimal.
pub fn ohlc_from_response(body: &BitCoinResponse) -> (r: Result<Ohlc, TickerError>)
    requires
        ohlc_outcome(texts_view(body.error@), rows_view(body.result.bitcoin_usd@)) is Some,
    ensures
        Some(outcome_of(r)) == ohlc_outcome(
            texts_view(body.error@),
            rows_view(body.result.bitcoin_usd@),
        ),
        names_bitcoin(r),
{
    checked_ohlc_from_response(body).unwrap()
}

/// What `reqwest::Url::parse_with_params` gives for a base URL and query pairs, as text.
pub uninterp spec fn url_with_params(
    base: Seq<char>,
    params: Seq<(Seq<char>, Seq<char>)>,
) -> Option<Seq<char>>;

/// The texts of query pairs.
pub open spec fn pairs_view(s: Seq<(String, String)>) -> Seq<(Seq<char>, Seq<char>)> {
    s.map_values(|p: (String, String)| (p.0@, p.1@))
}

/// The view of an optional text.
pub open spec fn opt_text(r: Option<String>) -> Option<Seq<char>> {
    match r {
        Some(t) => Some(t@),
        None => None,
    }
}

/// `reqwest` (the `url` crate): `Url::parse_with_params`, read back as text. Claims only
/// that the result is the named `url_with_params` of the base and the pairs; a parse
/// error gives `None`.
#[verifier::external_body]
fn parse_url_with_params(base: &str, params: &Vec<(String, String)>) -> (r: Option<String>)
    ensures
        opt_text(r) == url_with_params(base@, pairs_view(params@)),
{
    reqwest::Url::parse_with_params(base, params).ok().map(|u| u.to_string())
}

/// std: `i64`'s `to_string`. Claims the decimal digits with a `-` in front of a negative
/// number, which is the text of a decimal of scale 0.
#[verifier::external_body]
fn i64_text(n: i64) -> (r: String)
    ensures
        r@ == decimal_text((n as int, 0)),
{
    n.to_string()
}

/// The query of the daily OHLC request for bitcoin in US dollars since `since`.
pub open spec fn ohlc_params(since: i64) -> Seq<(Seq<char>, Seq<char>)> {
    seq![
        ("pair"@, "XBTUSD"@),
        ("interval"@, "1440"@),
        ("since"@, decimal_text((since as int, 0))),
    ]
}

/// The URL that asks the exchange for bitcoin's daily (1440-minute) prices in US dollars
/// since the instant `since`, or `None` where it does not parse.
pub fn ohlc_request_url(since: i64) -> (r: Option<String>)
    ensures
        opt_text(r) == url_with_params("https://api.kraken.com/0/public/OHLC"@, ohlc_params(since)),
{
    let mut params: Vec<(String, String)> = Vec::new();
    params.push(("pair".to_owned(), "XBTUSD".to_owned()));
    params.push(("interval".to_owned(), "1440".to_owned()));
    params.push(("since".to_owned(), i64_text(since)));
    assert(pairs_view(params@) =~= ohlc_params(since));
    parse_url_with_params("https://api.kraken.com/0/public/OHLC", &params)
}

} // verus!
