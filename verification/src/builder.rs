use vstd::prelude::*;
use crate::checksum::Checksum;
use crate::error::Error;
use crate::listener::FrameCallback;
use crate::peer::Peer;
use crate::strategy::{DispatchPolicy, IdAllocator, IdThenTypeDispatch, SequentialIdAllocator};
use crate::tinyframe::TinyFrame;
use crate::transport::Transport;

verus! {

/// Step-by-step configuration of a `TinyFrame`.
pub struct TinyFrameBuilder<C, T, K> {
    ctx: C,
    transport: T,
    checksum: K,
    peer: Peer,
    sof: u8,
    parser_timeout_ticks: u16,
}

impl<C, T, K> TinyFrameBuilder<C, T, K> where T: Transport, K: Checksum {
    pub closed spec fn ctx_value(&self) -> C {
        self.ctx
    }

    pub closed spec fn transport_value(&self) -> T {
        self.transport
    }

    pub closed spec fn checksum_value(&self) -> K {
        self.checksum
    }

    pub closed spec fn peer_value(&self) -> Peer {
        self.peer
    }

    pub closed spec fn sof_value(&self) -> u8 {
        self.sof
    }

    pub closed spec fn ticks_value(&self) -> u16 {
        self.parser_timeout_ticks
    }

    /// Create a builder with defaults: `peer` `Peer::Master`, `sof` `0x01`,
    /// `parser_timeout_ticks` `10`.
    pub fn new(ctx: C, transport: T, checksum: K) -> (r: Self)
        ensures
            r.ctx_value() == ctx,
            r.transport_value() == transport,
            r.checksum_value() == checksum,
            r.peer_value() == Peer::Master,
            r.sof_value() == 0x01,
            r.ticks_value() == 10,
    {
        Self { ctx, transport, checksum, peer: Peer::Master, sof: 0x01, parser_timeout_ticks: 10 }
    }

    /// Set local peer role.
    pub fn peer(self, peer: Peer) -> (r: Self)
        ensures
            r.peer_value() == peer,
            r.ctx_value() == self.ctx_value(),
            r.transport_value() == self.transport_value(),
            r.checksum_value() == self.checksum_value(),
            r.sof_value() == self.sof_value(),
            r.ticks_value() == self.ticks_value(),
    {
        let mut b = self;
        b.peer = peer;
        b
    }

    /// Set SOF (start-of-frame) byte used by encoder and decoder.
    pub fn sof(self, sof: u8) -> (r: Self)
        ensures
            r.sof_value() == sof,
            r.ctx_value() == self.ctx_value(),
            r.transport_value() == self.transport_value(),
            r.checksum_value() == self.checksum_value(),
            r.peer_value() == self.peer_value(),
            r.ticks_value() == self.ticks_value(),
    {
        let mut b = self;
        b.sof = sof;
        b
    }

    /// Set parser timeout tick count.
    pub fn parser_timeout_ticks(self, ticks: u16) -> (r: Self)
        ensures
            r.ticks_value() == ticks,
            r.ctx_value() == self.ctx_value(),
            r.transport_value() == self.transport_value(),
            r.checksum_value() == self.checksum_value(),
            r.peer_value() == self.peer_value(),
            r.sof_value() == self.sof_value(),
    {
        let mut b = self;
        b.parser_timeout_ticks = ticks;
        b
    }

    /// Build a `TinyFrame` with the default strategies
    /// (`SequentialIdAllocator`, `IdThenTypeDispatch`).
    pub fn build<
        F,
        const RX: usize,
        const IDS: usize,
        const TYPES: usize,
        const ID: usize,
        const LEN: usize,
        const TY: usize,
    >(self) -> (r: Result<
        TinyFrame<C, T, K, F, RX, IDS, TYPES, ID, LEN, TY, SequentialIdAllocator, IdThenTypeDispatch>,
        Error<T::Error>,
    >) where F: FrameCallback<C, T, K, SequentialIdAllocator, ID, LEN, TY>
        ensures
            TinyFrame::<
                C,
                T,
                K,
                F,
                RX,
                IDS,
                TYPES,
                ID,
                LEN,
                TY,
                SequentialIdAllocator,
                IdThenTypeDispatch,
            >::new_outcome(
                self.ctx_value(),
                self.transport_value(),
                self.checksum_value(),
                self.peer_value(),
                self.sof_value(),
                self.ticks_value(),
                r,
            ),
    {
        TinyFrame::new(
            self.ctx,
            self.transport,
            self.checksum,
            self.peer,
            self.sof,
            self.parser_timeout_ticks,
        )
    }

    /// Build a `TinyFrame` with custom strategy types.
    pub fn build_with_strategies<
        A,
        D,
        F,
        const RX: usize,
        const IDS: usize,
        const TYPES: usize,
        const ID: usize,
        const LEN: usize,
        const TY: usize,
    >(self) -> (r: Result<TinyFrame<C, T, K, F, RX, IDS, TYPES, ID, LEN, TY, A, D>, Error<T::Error>>) where
        A: IdAllocator + Default,
        D: DispatchPolicy<C, T, K, A, F, ID, LEN, TY> + Default,
        F: FrameCallback<C, T, K, A, ID, LEN, TY>,
        ensures
            TinyFrame::<C, T, K, F, RX, IDS, TYPES, ID, LEN, TY, A, D>::new_outcome(
                self.ctx_value(),
                self.transport_value(),
                self.checksum_value(),
                self.peer_value(),
                self.sof_value(),
                self.ticks_value(),
                r,
            ),
    {
        TinyFrame::new(
            self.ctx,
            self.transport,
            self.checksum,
            self.peer,
            self.sof,
            self.parser_timeout_ticks,
        )
    }
}

} // verus!
