//! Client-side core of a market-data gateway protocol: field codec, request
//! builders, response decoders, request correlation and result streams for
//! historical market data.

pub mod client;
pub mod contracts;
pub mod correlator;
pub mod domain;
pub mod errors;
pub mod fields;
pub mod historical_market_data;
pub mod messages;
pub mod server_versions;
pub mod streams;
