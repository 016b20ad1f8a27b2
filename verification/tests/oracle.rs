use habibi_coin::double::Double;
use habibi_coin::oracle::{
    check_status, endpoint, fallback_price, field_path, price_from_field, quote_or_fallback,
    settle_fetch, Asset, FetchFailure, FetchOutcome, PriceFetchError, PriceQuote, PriceSource,
    FALLBACK_ETHER_BITS, FALLBACK_SILVER_BITS,
};

fn double(x: f64) -> Double {
    Double::from_bits(x.to_bits())
}

fn failure(asset: Asset, cause: FetchFailure) -> Result<Double, PriceFetchError> {
    Err(PriceFetchError { asset, cause })
}

#[test]
fn endpoints_are_the_two_fixed_addresses() {
    assert_eq!(
        endpoint(Asset::Ether),
        "https://api.coingecko.com/api/v3/simple/price?ids=ethereum&vs_currencies=usd"
    );
    assert_eq!(
        endpoint(Asset::Silver),
        "https://metals-api.com/api/latest?access_key=YOUR_ACCESS_KEY&symbols=XAG"
    );
}

#[test]
fn field_paths_lead_to_the_price() {
    assert_eq!(field_path(Asset::Ether), ("ethereum", "usd"));
    assert_eq!(field_path(Asset::Silver), ("rates", "XAG"));
    let answer: serde_json::Value =
        serde_json::from_str("{\"ethereum\":{\"usd\":3456.5}}").unwrap();
    let (outer, inner) = field_path(Asset::Ether);
    assert_eq!(answer[outer][inner].as_f64(), Some(3456.5));
}

#[test]
fn fallback_prices_are_two_thousand_and_one_thousand_dollars() {
    assert_eq!(fallback_price(Asset::Ether), double(2000.0));
    assert_eq!(fallback_price(Asset::Silver), double(1000.0));
    assert_eq!(FALLBACK_ETHER_BITS, 2000.0f64.to_bits());
    assert_eq!(FALLBACK_SILVER_BITS, 1000.0f64.to_bits());
}

#[test]
fn a_success_status_is_accepted() {
    for code in [200u16, 201, 204, 250, 299] {
        assert_eq!(check_status(Asset::Ether, code), Ok(()));
        assert_eq!(check_status(Asset::Silver, code), Ok(()));
    }
}

#[test]
fn any_other_status_is_a_failed_fetch() {
    for code in [0u16, 100, 199, 300, 301, 404, 429, 500, 503, 65535] {
        assert_eq!(
            check_status(Asset::Silver, code),
            Err(PriceFetchError { asset: Asset::Silver, cause: FetchFailure::Status { code } })
        );
    }
}

#[test]
fn a_number_in_the_field_is_the_price() {
    assert_eq!(price_from_field(Asset::Silver, Some(double(31.25))), Ok(double(31.25)));
    assert_eq!(price_from_field(Asset::Silver, Some(double(-3.0))), Ok(double(-3.0)));
}

#[test]
fn a_missing_field_is_a_failed_fetch() {
    assert_eq!(price_from_field(Asset::Ether, None), failure(Asset::Ether, FetchFailure::Field));
    assert_eq!(price_from_field(Asset::Silver, None), failure(Asset::Silver, FetchFailure::Field));
}

#[test]
fn a_fetch_gives_the_price_when_every_step_succeeded() {
    let outcome = FetchOutcome::Answer { status: 200, body: Some(Some(double(1850.155))) };
    assert_eq!(settle_fetch(Asset::Ether, outcome), Ok(double(1850.155)));
    let created = FetchOutcome::Answer { status: 201, body: Some(Some(double(0.0))) };
    assert_eq!(settle_fetch(Asset::Silver, created), Ok(double(0.0)));
}

#[test]
fn a_fetch_fails_with_the_first_step_that_failed() {
    assert_eq!(
        settle_fetch(Asset::Ether, FetchOutcome::NoAnswer),
        failure(Asset::Ether, FetchFailure::Transport)
    );
    for body in [None, Some(None), Some(Some(double(1.0)))] {
        assert_eq!(
            settle_fetch(Asset::Silver, FetchOutcome::Answer { status: 401, body }),
            failure(Asset::Silver, FetchFailure::Status { code: 401 })
        );
    }
    assert_eq!(
        settle_fetch(Asset::Ether, FetchOutcome::Answer { status: 200, body: None }),
        failure(Asset::Ether, FetchFailure::Body)
    );
    assert_eq!(
        settle_fetch(Asset::Ether, FetchOutcome::Answer { status: 200, body: Some(None) }),
        failure(Asset::Ether, FetchFailure::Field)
    );
}

#[test]
fn a_live_price_is_quoted_as_it_came() {
    let price = double(3456.78);
    assert_eq!(
        quote_or_fallback(Asset::Ether, Ok(price)),
        PriceQuote { asset: Asset::Ether, price, source: PriceSource::Oracle }
    );
}

#[test]
fn a_failed_fetch_is_quoted_at_the_static_price() {
    assert_eq!(
        quote_or_fallback(Asset::Ether, settle_fetch(Asset::Ether, FetchOutcome::NoAnswer)),
        PriceQuote { asset: Asset::Ether, price: double(2000.0), source: PriceSource::Fallback }
    );
    assert_eq!(
        quote_or_fallback(Asset::Silver, failure(Asset::Silver, FetchFailure::Status { code: 500 })),
        PriceQuote { asset: Asset::Silver, price: double(1000.0), source: PriceSource::Fallback }
    );
}
