//! A uniform response envelope for jTable-style tabular-data APIs.
//!
//! A [`JTableResponse`] wraps the outcome of a CRUD operation — an
//! [`Action`] on success, an error message on failure — and renders it
//! as a JSON object with a fixed shape: a `"Result"` field holding
//! `"OK"` or `"ERROR"`, followed by at most one payload field
//! (`"Record"`, `"Records"` or `"Message"`).

use vstd::prelude::*;

pub mod escape;
pub mod laws;
pub mod render;

verus! {

/// The operation that produced a successful result, together with its
/// payload. The payload type `T` is caller-defined; rendering to JSON
/// is provided where `T` is already JSON text (`T = String`).
pub enum Action<T> {
    /// A read-many operation returning a sequence of records.
    List(Vec<T>),
    /// A create operation returning the resulting record. A create
    /// that yields no record is represented by a payload that is
    /// itself absence-capable (an optional record, or the JSON text
    /// `null`), not by a separate variant.
    Create(T),
    /// An update operation; carries no payload.
    Update,
    /// A delete operation; carries no payload.
    Delete,
}

/// The top-level response envelope: a successful [`Action`] or an
/// error message borrowed from the caller.
pub enum JTableResponse<'e, T> {
    /// The operation succeeded; the action says what it produced.
    Success(Action<T>),
    /// The operation failed; the message is caller-supplied text.
    Failure(&'e str),
}

} // verus!
