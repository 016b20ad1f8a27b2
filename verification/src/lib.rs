//! HabibiCoins: a count of coins kept by a running service, and what that
//! count is worth as a weight of silver and as loads for camels.
//!
//! - `counter`: the count itself and what sequences of operations do to it.
//! - `double`: double-precision numbers read exactly, bit by bit.
//! - `oracle`: the assets that are priced, where their live prices are asked
//!   for, how a fetch is settled, and the static prices that stand in when
//!   it failed.
//! - `conversion`: from a count and its measures to carriers and a message.
//! - `service`: what each route of the service answers.
//! - `template`: a page with a placeholder filled in.
//! - `config`: the port to listen on.
//! - `quotient`, `decimal`, `natural`, `text`: the arithmetic and the writing
//!   of numbers that the rest is stated in.
//!
//! Nothing here multiplies or divides a double, touches the network or
//! waits: a caller does the three divisions and products of a conversion,
//! fetches, locks and sends. What is done here is done on whole numbers and
//! exact.

pub mod config;
pub mod conversion;
pub mod counter;
pub mod decimal;
pub mod double;
pub mod natural;
pub mod oracle;
pub mod quotient;
pub mod service;
pub mod template;
pub mod text;
