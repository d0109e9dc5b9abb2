use vstd::prelude::*;

verus! {

/// Parse-time protocol errors recorded by the receive path.
#[derive(Clone, Copy, Debug, PartialEq, Eq, Structural)]
pub enum ParseError {
    InvalidLength,
    PayloadTooLarge,
    ChecksumMismatch,
    InvalidChecksumWidth,
}

/// Errors of the send path and of listener registration.
#[derive(Clone, Copy, Debug, PartialEq, Eq)]
pub enum Error<E> {
    /// Underlying transport write failure.
    Transport(E),
    /// Invalid field-width configuration.
    InvalidFieldWidth,
    /// Runtime value cannot fit configured field width.
    LengthOverflow,
    /// TX core is busy (re-entrant send during active TX transaction).
    TxBusy,
    /// Multipart TX is not active.
    MultipartNotStarted,
    /// Multipart TX closed with mismatched payload length.
    MultipartLengthMismatch,
    /// Listener table has no free slot.
    NoListenerSlot,
}

/// The call succeeded, or failed because the transport failed.
pub open spec fn ok_or_transport<T, E>(r: Result<T, Error<E>>) -> bool {
    match r {
        Ok(_) => true,
        Err(e) => e is Transport,
    }
}

} // verus!
