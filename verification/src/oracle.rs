//! The price oracle's fixed side: which assets are priced, where a live price
//! is asked for, where in the answer it stands, when a fetch has failed, and
//! which static price takes the place of one that could not be fetched.
//!
//! The request itself is the caller's to make. What came back is handed in
//! here as plain values.

use vstd::prelude::*;
use vstd::arithmetic::power2::{lemma2_to64_rest, pow2};
use crate::double::Double;

verus! {

/// An asset whose price the service follows.
#[derive(Clone, Copy, Debug, PartialEq, Eq, Structural)]
pub enum Asset {
    /// The crypto asset that a coin stands for.
    Ether,
    /// The metal that coins are converted into.
    Silver,
}

/// Where a price came from.
#[derive(Clone, Copy, Debug, PartialEq, Eq, Structural)]
pub enum PriceSource {
    /// The remote price service answered.
    Oracle,
    /// The remote price service failed and the static price stands in.
    Fallback,
}

/// Why a live price could not be had.
#[derive(Clone, Copy, Debug, PartialEq, Eq, Structural)]
pub enum FetchFailure {
    /// The request did not get through, or no answer came back.
    Transport,
    /// The service answered with a status other than success.
    Status { code: u16 },
    /// The answer's body was not the document that was expected.
    Body,
    /// The document holds no number at the place where the price stands.
    Field,
}

/// A failed fetch: the asset that was asked for, and the cause.
#[derive(Clone, Copy, Debug, PartialEq, Eq, Structural)]
pub struct PriceFetchError {
    pub asset: Asset,
    pub cause: FetchFailure,
}

/// The current price of an asset, and where it came from.
#[derive(Clone, Copy, Debug, PartialEq, Eq, Structural)]
pub struct PriceQuote {
    pub asset: Asset,
    pub price: Double,
    pub source: PriceSource,
}

/// The bits of the static price of ether, 2000 dollars.
pub const FALLBACK_ETHER_BITS: u64 = 0x409F_4000_0000_0000;

/// The bits of the static price of silver, 1000 dollars.
pub const FALLBACK_SILVER_BITS: u64 = 0x408F_4000_0000_0000;

/// What came of one request for a live price.
#[derive(Clone, Copy, Debug, PartialEq, Eq, Structural)]
pub enum FetchOutcome {
    /// The request did not get through, or no answer came back.
    NoAnswer,
    /// An answer came back with this status. `body` is `None` where the
    /// body is not the document that was expected, `Some(None)` where the
    /// document holds no number at the price's place, and the number where
    /// it does.
    Answer { status: u16, body: Option<Option<Double>> },
}

/// The address at which an asset's live price is asked for.
pub open spec fn endpoint_of(asset: Asset) -> Seq<char> {
    match asset {
        Asset::Ether => "https://api.coingecko.com/api/v3/simple/price?ids=ethereum&vs_currencies=usd"@,
        Asset::Silver => "https://metals-api.com/api/latest?access_key=YOUR_ACCESS_KEY&symbols=XAG"@,
    }
}

/// The two keys that lead to an asset's price in the answer: the member of
/// the document, then the member of that member.
pub open spec fn field_path_of(asset: Asset) -> (Seq<char>, Seq<char>) {
    match asset {
        Asset::Ether => ("ethereum"@, "usd"@),
        Asset::Silver => ("rates"@, "XAG"@),
    }
}

/// The static price that stands in for an asset's live price.
pub open spec fn fallback_of(asset: Asset) -> Double {
    match asset {
        Asset::Ether => Double { bits: FALLBACK_ETHER_BITS },
        Asset::Silver => Double { bits: FALLBACK_SILVER_BITS },
    }
}

/// Whether a status code reports success.
pub open spec fn is_success(code: u16) -> bool {
    200 <= code <= 299
}

/// What a fetch comes to. It gives a price exactly when an answer came
/// back, its status reports success, its body is the expected document and
/// the document holds a number at the price's place. Otherwise it fails with
/// the first of these that did not hold.
pub open spec fn fetched_of(asset: Asset, outcome: FetchOutcome) -> Result<Double, PriceFetchError> {
    match outcome {
        FetchOutcome::NoAnswer => Err(PriceFetchError { asset, cause: FetchFailure::Transport }),
        FetchOutcome::Answer { status, body } => if !is_success(status) {
            Err(PriceFetchError { asset, cause: FetchFailure::Status { code: status } })
        } else {
            match body {
                None => Err(PriceFetchError { asset, cause: FetchFailure::Body }),
                Some(None) => Err(PriceFetchError { asset, cause: FetchFailure::Field }),
                Some(Some(price)) => Ok(price),
            }
        },
    }
}

/// The quote that a fetch leads to: the live price where there is one, the
/// static price where the fetch failed.
pub open spec fn quote_of(asset: Asset, fetched: Result<Double, PriceFetchError>) -> PriceQuote {
    match fetched {
        Ok(price) => PriceQuote { asset, price, source: PriceSource::Oracle },
        Err(_) => PriceQuote { asset, price: fallback_of(asset), source: PriceSource::Fallback },
    }
}

/// The address at which an asset's live price is asked for.
pub fn endpoint(asset: Asset) -> (url: &'static str)
    ensures
        url@ == endpoint_of(asset),
{
    match asset {
        Asset::Ether => "https://api.coingecko.com/api/v3/simple/price?ids=ethereum&vs_currencies=usd",
        Asset::Silver => "https://metals-api.com/api/latest?access_key=YOUR_ACCESS_KEY&symbols=XAG",
    }
}

/// The two keys that lead to an asset's price in the answer.
pub fn field_path(asset: Asset) -> (path: (&'static str, &'static str))
    ensures
        (path.0@, path.1@) == field_path_of(asset),
{
    match asset {
        Asset::Ether => ("ethereum", "usd"),
        Asset::Silver => ("rates", "XAG"),
    }
}

/// The static price that stands in for an asset's live price.
pub fn fallback_price(asset: Asset) -> (price: Double)
    ensures
        price == fallback_of(asset),
{
    match asset {
        Asset::Ether => Double { bits: FALLBACK_ETHER_BITS },
        Asset::Silver => Double { bits: FALLBACK_SILVER_BITS },
    }
}

/// Accepts an answer by its status: a success goes on, anything else is a
/// failed fetch that carries the code.
pub fn check_status(asset: Asset, code: u16) -> (checked: Result<(), PriceFetchError>)
    ensures
        checked is Ok <==> is_success(code),
        checked matches Err(error) ==> error == (PriceFetchError {
            asset,
            cause: FetchFailure::Status { code },
        }),
{
    if 200 <= code && code <= 299 {
        Ok(())
    } else {
        Err(PriceFetchError { asset, cause: FetchFailure::Status { code } })
    }
}

/// Accepts what was found at the price's place in the answer: a number is
/// the price, anything else is a failed fetch.
pub fn price_from_field(asset: Asset, field: Option<Double>) -> (price: Result<
    Double,
    PriceFetchError,
>)
    ensures
        field matches Some(found) ==> price == Ok::<Double, PriceFetchError>(found),
        field is None ==> price == Err::<Double, PriceFetchError>(
            PriceFetchError { asset, cause: FetchFailure::Field },
        ),
{
    match field {
        Some(found) => Ok(found),
        None => Err(PriceFetchError { asset, cause: FetchFailure::Field }),
    }
}

/// Settles one request for a live price: the price, or the failure with its
/// cause.
pub fn settle_fetch(asset: Asset, outcome: FetchOutcome) -> (price: Result<Double, PriceFetchError>)
    ensures
        price == fetched_of(asset, outcome),
{
    match outcome {
        FetchOutcome::NoAnswer => Err(PriceFetchError { asset, cause: FetchFailure::Transport }),
        FetchOutcome::Answer { status, body } => match check_status(asset, status) {
            Err(error) => Err(error),
            Ok(_) => match body {
                None => Err(PriceFetchError { asset, cause: FetchFailure::Body }),
                Some(field) => price_from_field(asset, field),
            },
        },
    }
}

/// The static prices are 2000 dollars for ether and 1000 dollars for
/// silver, exactly.
pub proof fn lemma_fallback_prices()
    ensures
        fallback_of(Asset::Ether).is_finite(),
        !fallback_of(Asset::Ether).is_negative(),
        fallback_of(Asset::Ether).numerator() == 2000 * fallback_of(Asset::Ether).denominator(),
        fallback_of(Asset::Silver).is_finite(),
        !fallback_of(Asset::Silver).is_negative(),
        fallback_of(Asset::Silver).numerator() == 1000 * fallback_of(Asset::Silver).denominator(),
{
    lemma2_to64_rest();
    let ether = fallback_of(Asset::Ether);
    assert(ether.exponent_field() == 1033);
    assert(ether.fraction_field() == 0xF_4000_0000_0000);
    assert(ether.exponent() == -42);
    assert(ether.denominator() == pow2(42));
    assert(ether.numerator() == 0x1F_4000_0000_0000);
    let silver = fallback_of(Asset::Silver);
    assert(silver.exponent_field() == 1032);
    assert(silver.fraction_field() == 0xF_4000_0000_0000);
    assert(silver.exponent() == -43);
    assert(silver.denominator() == pow2(43));
    assert(silver.numerator() == 0x1F_4000_0000_0000);
}

/// Settles the price to work with after a fetch: the live price where the
/// fetch succeeded, the static price where it failed. A failure is never
/// passed on.
pub fn quote_or_fallback(asset: Asset, fetched: Result<Double, PriceFetchError>) -> (quote:
    PriceQuote)
    ensures
        quote == quote_of(asset, fetched),
{
    match fetched {
        Ok(price) => PriceQuote { asset, price, source: PriceSource::Oracle },
        Err(_) => PriceQuote { asset, price: fallback_price(asset), source: PriceSource::Fallback },
    }
}

} // verus!
