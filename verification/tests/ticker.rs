use ledger::amount::Amount;
use ledger::app::money::Currency;
use ledger::app::ticker::{
    checked_ohlc_from_response, ohlc_from_response, ohlc_request_url, BitCoinOhlcVec, BitCoinResponse, IntOrString,
    TickerError,
};

fn row(values: Vec<IntOrString>) -> BitCoinResponse {
    BitCoinResponse { error: vec![], result: BitCoinOhlcVec { bitcoin_usd: vec![values], last: 1719792000 } }
}

fn s(t: &str) -> IntOrString {
    IntOrString::Str(t.to_string())
}

fn good_row() -> Vec<IntOrString> {
    vec![
        IntOrString::I64(1719878400),
        s("286.27"),
        s("286.88"),
        s("284.97"),
        s("284.97"),
        s("285.78"),
        s("4.74983692"),
        IntOrString::I64(10),
    ]
}

#[test]
fn take_values() {
    assert_eq!(IntOrString::I64(7).take_i64(), 7);
    assert_eq!(s("x").take_string(), "x");
    assert!(matches!(IntOrString::default(), IntOrString::I64(0)));
}

#[test]
fn prices_of_a_row() {
    let o = ohlc_from_response(&row(good_row())).ok().unwrap();
    assert_eq!(o.name, "bitcoin");
    assert_eq!(o.currency, Currency::Usd);
    assert_eq!(o.date_time, 1719878400);
    assert_eq!(o.open, Amount { mantissa: 28627, scale: 2 });
    assert_eq!(o.high, Amount { mantissa: 28688, scale: 2 });
    assert_eq!(o.low, Amount { mantissa: 28497, scale: 2 });
    assert_eq!(o.close, Amount { mantissa: 28497, scale: 2 });
    assert_eq!(o.vwap, Amount { mantissa: 28578, scale: 2 });
    assert_eq!(o.volume, Amount { mantissa: 474983692, scale: 8 });
    assert_eq!(o.count, 10);
}

#[test]
fn reported_errors_are_returned() {
    let mut r = row(vec![]);
    r.error = vec!["EQuery:Unknown asset pair".to_string()];
    match ohlc_from_response(&r) {
        Err(TickerError::Api(e)) => assert_eq!(e, vec!["EQuery:Unknown asset pair".to_string()]),
        _ => panic!("expected the reported errors"),
    }
}

#[test]
fn bad_price_is_invalid_number() {
    let mut values = good_row();
    values[3] = s("abc");
    assert!(matches!(ohlc_from_response(&row(values)), Err(TickerError::InvalidNumber(_))));
}

#[test]
fn malformed_rows_give_nothing() {
    assert!(checked_ohlc_from_response(&row(vec![])).is_none());
    let mut short = good_row();
    short.pop();
    assert!(checked_ohlc_from_response(&row(short)).is_none());
    let mut text_date = good_row();
    text_date[0] = s("1719878400");
    assert!(checked_ohlc_from_response(&row(text_date)).is_none());
    let mut far = good_row();
    far[0] = IntOrString::I64(i64::MAX);
    assert!(checked_ohlc_from_response(&row(far)).is_none());
    let mut number_price = good_row();
    number_price[2] = IntOrString::I64(5);
    assert!(checked_ohlc_from_response(&row(number_price)).is_none());
}

#[test]
fn bad_price_before_short_row_is_invalid_number() {
    let values = vec![IntOrString::I64(1719878400), s("bad")];
    assert!(matches!(checked_ohlc_from_response(&row(values)), Some(Err(TickerError::InvalidNumber(_)))));
}

#[test]
fn dates_at_the_ends_of_the_calendar() {
    for (ts, held) in [
        (8210266876799i64, true),
        (8210266876800i64, false),
        (-8334601228800i64, true),
        (-8334601228801i64, false),
    ] {
        let mut values = good_row();
        values[0] = IntOrString::I64(ts);
        let r = checked_ohlc_from_response(&row(values));
        assert_eq!(r.is_some(), held, "timestamp {}", ts);
        if held {
            assert_eq!(r.unwrap().ok().unwrap().date_time, ts);
        }
    }
}

#[test]
fn request_url_carries_the_query() {
    assert_eq!(
        ohlc_request_url(1719878400).unwrap(),
        "https://api.kraken.com/0/public/OHLC?pair=XBTUSD&interval=1440&since=1719878400"
    );
    assert_eq!(
        ohlc_request_url(-5).unwrap(),
        "https://api.kraken.com/0/public/OHLC?pair=XBTUSD&interval=1440&since=-5"
    );
}
