use vstd::prelude::*;

verus! {

/// The error taxonomy of the giveaway core.
///
/// `StorageError` covers serialization or transport failure against the
/// field-to-value store; `NotFound` a referenced giveaway id that is
/// absent; `InvalidInput` malformed ids, missing photo or caption, or an
/// unparsable winner count; `TransportError` a failed outbound send.
#[derive(Clone, Copy, PartialEq, Eq, Structural, Debug)]
pub enum AppErrors {
    StorageError,
    NotFound,
    InvalidInput,
    TransportError,
}

pub type AppResult<T> = Result<T, AppErrors>;

} // verus!
