//! A client-side encoder for the InfluxDB line protocol.
//!
//! A [`models::Point`] gathers a measurement name, ordered tag pairs, ordered
//! field pairs and an optional timestamp; serializing it produces one line of
//! the text-based write format, with the protocol's character escaping applied
//! to each segment. The escaping rules live in [`escape`], the decimal
//! rendering of integer values in [`decimal`], and the serializer contract
//! that any record type may implement in [`traits`].

pub mod decimal;
pub mod escape;
pub mod models;
pub mod traits;
