//! The serializer contract.
//!
//! Any record type — built by hand or by an adapter layer — may serve as a
//! serialization source: it must expose the line it serializes to and the
//! timestamp it falls back on when no override is supplied. `Point` implements
//! this trait; external record types implement it through hand-written
//! adapters.

use crate::models::timestamp_text;
use crate::models::Timestamp;
use vstd::prelude::*;

verus! {

/// A value that serializes to one line of the line protocol.
pub trait PointSerialize {
    /// The line that `serialize` produces, as a sequence of characters.
    spec fn line_spec(&self) -> Seq<char>;

    /// The timestamp that `serialize_with_timestamp` falls back on when it is
    /// given no override.
    spec fn fallback_timestamp(&self) -> Timestamp;

    /// Produces the line without a timestamp section.
    fn serialize(&self) -> (r: String)
        ensures
            r@ == self.line_spec(),
    ;

    /// Produces the line followed by a single space and the stringified
    /// timestamp: the override when one is supplied, the fallback otherwise.
    fn serialize_with_timestamp(&self, timestamp: Option<Timestamp>) -> (r: String)
        ensures
            r@ == self.line_spec() + seq![' '] + timestamp_text(
                (match timestamp {
                    Some(t) => t,
                    None => self.fallback_timestamp(),
                }),
            ),
    ;
}

} // verus!
