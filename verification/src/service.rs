//! What the service answers on each of its routes, from the counter and the
//! prices that were fetched to the body that is sent.
//!
//! Nothing here waits for anything. The increment and the convert route
//! are answered in two steps: the first settles the count and the two
//! prices, the second writes the reply from what the caller measured for
//! them. The caller holds the counter for as long as the route needs it,
//! fetches the prices beforehand, and sends what it gets.

use vstd::prelude::*;
use vstd::string::*;
use crate::conversion::{convert as convert_coins, report_of, Measures};
use crate::counter::Counter;
use crate::double::Double;
use crate::oracle::{quote_of, quote_or_fallback, Asset, PriceFetchError};
use crate::template::{replace_all, substitute};

verus! {

/// The bits of the asset price that the increment route reckons with, 2000
/// dollars. The route never asks for a live price.
pub const EXAMPLE_ETHER_BITS: u64 = 0x409F_4000_0000_0000;

/// The bits of the metal price that the increment route reckons with, 1000
/// dollars.
pub const EXAMPLE_SILVER_BITS: u64 = 0x408F_4000_0000_0000;

/// The placeholder in the page's template that the price of ether replaces.
pub const PRICE_PLACEHOLDER: &'static str = "{{eth_price}}";

/// The key of the count in a reply's JSON form.
pub const COUNTER_KEY: &'static str = "counter";

/// The key of the message in a reply's JSON form.
pub const MESSAGE_KEY: &'static str = "message";

/// The text that `serde_json` writes, in its compact form, for the JSON
/// object whose member `first_key` is `number` and whose member `second_key`
/// is the string `text`.
pub uninterp spec fn json_object_text(
    first_key: Seq<char>,
    number: u32,
    second_key: Seq<char>,
    text: Seq<char>,
) -> Seq<char>;

/// Writes a JSON object of two members, a number and a string, with
/// `serde_json`: the members are put into a `serde_json::Map` by its
/// `insert`, as `serde_json::Value`s made by `Value::from`, and the object is
/// written by `Value`'s `to_string`.
///
/// This is not verified. All that is claimed of the text is that it depends
/// on the four arguments alone.
#[verifier::external_body]
fn write_json_object(first_key: &str, number: u32, second_key: &str, text: &str) -> (json: String)
    ensures
        json@ == json_object_text(first_key@, number, second_key@, text@),
{
    let mut members = serde_json::Map::new();
    members.insert(first_key.to_string(), serde_json::Value::from(number));
    members.insert(second_key.to_string(), serde_json::Value::from(text));
    serde_json::Value::Object(members).to_string()
}

/// What the increment and the convert route answer: the count, and the
/// sentence that reports what it is worth.
#[derive(Debug)]
pub struct Reply {
    pub counter: u32,
    pub message: String,
}

impl Reply {
    /// The reply as a JSON object with the members `counter` and `message`.
    pub open spec fn json(self) -> Seq<char> {
        json_object_text(COUNTER_KEY@, self.counter, MESSAGE_KEY@, self.message@)
    }

    /// Writes the reply as a JSON object with the members `counter` and
    /// `message`.
    pub fn to_json(&self) -> (json: String)
        ensures
            json@ == self.json(),
    {
        write_json_object(COUNTER_KEY, self.counter, MESSAGE_KEY, self.message.as_str())
    }
}

/// A count and the two prices at which it is to be converted.
#[derive(Clone, Copy, Debug, PartialEq, Eq, Structural)]
pub struct ConversionJob {
    pub counter: u32,
    pub asset_price: Double,
    pub metal_price: Double,
}

/// The first step of the increment route: adds one coin to the counter and
/// hands out the new count with the route's two fixed prices.
pub fn increment_counter(counter: &mut Counter) -> (job: ConversionJob)
    requires
        old(counter)@ < u32::MAX,
    ensures
        final(counter)@ == old(counter)@ + 1,
        job == (ConversionJob {
            counter: final(counter)@ as u32,
            asset_price: Double { bits: EXAMPLE_ETHER_BITS },
            metal_price: Double { bits: EXAMPLE_SILVER_BITS },
        }),
{
    let value: u32 = counter.increment();
    ConversionJob {
        counter: value,
        asset_price: Double { bits: EXAMPLE_ETHER_BITS },
        metal_price: Double { bits: EXAMPLE_SILVER_BITS },
    }
}

/// The first step of the convert route: hands out the count, as it was read
/// from the counter, with the live prices, each replaced by its static price
/// where its fetch failed. The counter itself is not touched.
pub fn convert(
    count: u32,
    ether: Result<Double, PriceFetchError>,
    silver: Result<Double, PriceFetchError>,
) -> (job: ConversionJob)
    ensures
        job == (ConversionJob {
            counter: count,
            asset_price: quote_of(Asset::Ether, ether).price,
            metal_price: quote_of(Asset::Silver, silver).price,
        }),
{
    let ether_quote = quote_or_fallback(Asset::Ether, ether);
    let silver_quote = quote_or_fallback(Asset::Silver, silver);
    ConversionJob {
        counter: count,
        asset_price: ether_quote.price,
        metal_price: silver_quote.price,
    }
}

/// The second step of both routes: the reply for a count, given what was
/// measured for it.
pub fn reply(counter: u32, measures: Measures) -> (reply: Reply)
    ensures
        reply.counter == counter,
        reply.message@ == report_of(counter, measures),
{
    let result = convert_coins(counter, measures);
    Reply { counter, message: result.message }
}

/// Renders the page: the template with the price of ether, live or static,
/// in the placeholder's place and nothing else changed. The price is shown
/// with two digits behind the point.
pub fn serve_html(template: &str, ether: Result<Double, PriceFetchError>) -> (page: String)
    ensures
        page@ == replace_all(
            template@,
            PRICE_PLACEHOLDER@,
            quote_of(Asset::Ether, ether).price.text_two_decimals(),
        ),
{
    let quote = quote_or_fallback(Asset::Ether, ether);
    let mut price_text = String::new();
    quote.price.push_two_decimals(&mut price_text);
    assert(price_text@ =~= quote.price.text_two_decimals());
    substitute(template, PRICE_PLACEHOLDER, price_text.as_str())
}

} // verus!
