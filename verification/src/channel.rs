use vstd::prelude::*;
use crate::checksum::Checksum;
use crate::error::Error;
use crate::frame::{Frame, ReceivedFrame};
use crate::strategy::{IdAllocator, SequentialIdAllocator};
use crate::transport::Transport;
use crate::tx_core::TxCore;

verus! {

/// The transmit side handed to listener callbacks, so that they can send
/// responses and new frames while a frame is being dispatched.
pub struct FrameChannel<T, K, const ID: usize, const LEN: usize, const TY: usize, A = SequentialIdAllocator> where
    T: Transport,
    K: Checksum,
    A: IdAllocator,
 {
    pub(crate) tx: TxCore<T, K, A, ID, LEN, TY>,
}

impl<T, K, const ID: usize, const LEN: usize, const TY: usize, A> FrameChannel<T, K, ID, LEN, TY, A> where
    T: Transport,
    K: Checksum,
    A: IdAllocator,
 {
    /// The transmit path behind this channel.
    pub open(crate) spec fn tx_view(&self) -> TxCore<T, K, A, ID, LEN, TY> {
        self.tx
    }

    pub(crate) fn new(tx: TxCore<T, K, A, ID, LEN, TY>) -> (r: Self)
        ensures
            r.tx_view() == tx,
    {
        FrameChannel { tx }
    }

    /// Send an arbitrary frame from within listener callback context.
    pub fn send(&mut self, frame: Frame, data: &[u8]) -> (r: Result<(), Error<T::Error>>)
        ensures
            TxCore::<T, K, A, ID, LEN, TY>::send_outcome(old(self).tx_view(), final(self).tx_view(), frame, data@, r),
    {
        self.tx.send(frame, data)
    }

    /// Reply to a received request frame: a response with the request's ID.
    pub fn respond(&mut self, request: ReceivedFrame<'_>, typ: u32, data: &[u8]) -> (r: Result<
        (),
        Error<T::Error>,
    >)
        ensures
            TxCore::<T, K, A, ID, LEN, TY>::send_outcome(
                old(self).tx_view(),
                final(self).tx_view(),
                Frame { id: request.id, typ, is_response: true },
                data@,
                r,
            ),
    {
        self.send(Frame { id: request.id, typ, is_response: true }, data)
    }

    pub fn begin_multipart(&mut self, frame: Frame, len: u32) -> (r: Result<u32, Error<T::Error>>)
        requires
            old(self).tx_view().widths_ok(),
        ensures
            TxCore::<T, K, A, ID, LEN, TY>::begin_multipart_outcome(
                old(self).tx_view(),
                final(self).tx_view(),
                frame,
                len,
                r,
            ),
    {
        self.tx.begin_multipart(frame, len)
    }

    pub fn multipart_payload(&mut self, data: &[u8]) -> (r: Result<(), Error<T::Error>>)
        ensures
            TxCore::<T, K, A, ID, LEN, TY>::multipart_payload_outcome(
                old(self).tx_view(),
                final(self).tx_view(),
                data@,
                r,
            ),
    {
        self.tx.multipart_payload(data)
    }

    pub fn multipart_close(&mut self) -> (r: Result<(), Error<T::Error>>)
        requires
            old(self).tx_view().widths_ok(),
        ensures
            TxCore::<T, K, A, ID, LEN, TY>::multipart_close_outcome(old(self).tx_view(), final(self).tx_view(), r),
    {
        self.tx.multipart_close()
    }
}

} // verus!
