//! Daily stock-price averaging.
//!
//! The library decodes a provider's daily time-series JSON payload into a
//! [`series::TimeSeries`] and computes the exact arithmetic mean of the
//! closing prices. Network I/O lives outside the library; callers hand in
//! the raw response body (or the fact that the transport failed) and get
//! back a decoded series or an error.

pub mod arith;
pub mod average;
pub mod bytes;
pub mod decode;
pub mod json;
pub mod series;
pub mod url;
