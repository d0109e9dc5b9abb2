use vstd::prelude::*;
use crate::channel::FrameChannel;
use crate::checksum::{Checksum, value_eq_laws};
use crate::error::{Error, ParseError};
use crate::frame::{Frame, FrameView, ReceivedFrame};
use crate::listener::{FrameCallback, IdListener, ListenerId, TypeListener};
use crate::observer_store::{
    ObserverStore,
    add_outcome,
    remove_id_outcome,
    remove_slot_outcome,
    remove_type_outcome,
    renew_outcome,
    expires,
    tick_table,
    timeout_notifications,
};
use crate::peer::Peer;
use crate::rx_dispatch_core::RxDispatchCore;
use crate::rx_parser_core::{RxConfig, RxParserCore, RxState};
use crate::strategy::{DispatchPolicy, IdAllocator, IdThenTypeDispatch, SequentialIdAllocator};
use crate::transport::Transport;
use crate::tx_core::TxCore;
use crate::call_log::TransportCall;
use crate::utils::{is_valid_width, valid_width};

verus! {

/// The protocol engine: a receive parser feeding listener dispatch, and a
/// transmit path, over one transport.
///
/// - `RX`: max accepted payload length in bytes.
/// - `IDS`: ID listener slot count.
/// - `TYPES`: type listener slot count.
/// - `ID`/`LEN`/`TY`: encoded field widths in bytes (1..=4).
/// - `F`: the listener callback type.
pub struct TinyFrame<
    C,
    T,
    K,
    F,
    const RX: usize,
    const IDS: usize,
    const TYPES: usize,
    const ID: usize,
    const LEN: usize,
    const TY: usize,
    A = SequentialIdAllocator,
    D = IdThenTypeDispatch,
> where T: Transport, K: Checksum, A: IdAllocator, D: DispatchPolicy<C, T, K, A, F, ID, LEN, TY> {
    ctx: C,
    channel: FrameChannel<T, K, ID, LEN, TY, A>,
    rx: RxParserCore<K, RX>,
    observers: ObserverStore<F, IDS, TYPES>,
    dispatch_policy: D,
}

impl<
    C,
    T,
    K,
    F,
    const RX: usize,
    const IDS: usize,
    const TYPES: usize,
    const ID: usize,
    const LEN: usize,
    const TY: usize,
    A,
    D,
> TinyFrame<C, T, K, F, RX, IDS, TYPES, ID, LEN, TY, A, D> where
    T: Transport,
    K: Checksum,
    A: IdAllocator + Default,
    D: DispatchPolicy<C, T, K, A, F, ID, LEN, TY> + Default,
    F: FrameCallback<C, T, K, A, ID, LEN, TY>,
 {
    /// The user context.
    pub closed spec fn ctx_state(&self) -> C {
        self.ctx
    }

    /// The transmit path.
    pub closed spec fn tx_state(&self) -> TxCore<T, K, A, ID, LEN, TY> {
        self.channel.tx_view()
    }

    /// The transmit side as handed to listener callbacks.
    pub closed spec fn channel_state(&self) -> FrameChannel<T, K, ID, LEN, TY, A> {
        self.channel
    }

    /// The receive path: parser, receive buffer, last parse error.
    pub closed spec fn rx_state(&self) -> RxState<K::Value> {
        self.rx@
    }

    /// The parser timeout in ticks.
    pub closed spec fn parser_ticks(&self) -> u16 {
        self.rx.parser_timeout_ticks
    }

    /// The configuration the receive path runs with: the transmit path's
    /// checksum and SOF byte, the field widths, `RX` and the parser timeout.
    pub open spec fn rx_config(&self) -> RxConfig<K> {
        RxConfig {
            checksum: self.tx_state().checksum,
            rx: RX as nat,
            ticks: self.parser_ticks(),
            sof: self.tx_state().sof,
            id_w: ID,
            len_w: LEN,
            ty_w: TY,
        }
    }

    pub closed spec fn id_slots(&self) -> Seq<Option<IdListener<F>>> {
        self.observers.id_listeners@
    }

    pub closed spec fn type_slots(&self) -> Seq<Option<TypeListener<F>>> {
        self.observers.type_listeners@
    }

    pub closed spec fn generic_slot(&self) -> Option<F> {
        self.observers.generic_listener
    }

    pub closed spec fn policy(&self) -> D {
        self.dispatch_policy
    }

    /// The engine's invariant: supported widths, a receive path in a state
    /// that occurs between bytes, and listener tables of `IDS` and `TYPES`
    /// slots.
    pub closed spec fn wf(&self) -> bool {
        &&& self.channel.tx_view().widths_ok()
        &&& self.rx_config().wf(self.rx@)
        &&& self.observers.wf()
    }

    /// Everything but the listener tables is as in `other`.
    pub open spec fn same_listeners(&self, other: &Self) -> bool {
        &&& self.id_slots() == other.id_slots()
        &&& self.type_slots() == other.type_slots()
        &&& self.generic_slot() == other.generic_slot()
    }

    /// Nothing but the transmit path differs from `other`.
    pub open spec fn same_but_tx(&self, other: &Self) -> bool {
        &&& self.ctx_state() == other.ctx_state()
        &&& self.rx_state() == other.rx_state()
        &&& self.parser_ticks() == other.parser_ticks()
        &&& self.same_listeners(other)
        &&& self.policy() == other.policy()
    }

    /// Nothing but the listener tables differs from `other`.
    pub open spec fn same_but_listeners(&self, other: &Self) -> bool {
        &&& self.ctx_state() == other.ctx_state()
        &&& self.tx_state() == other.tx_state()
        &&& self.rx_state() == other.rx_state()
        &&& self.parser_ticks() == other.parser_ticks()
        &&& self.policy() == other.policy()
    }

    /// What one received byte does: the parser steps; a completed frame
    /// (its ID, type, and the first `len` bytes of the receive buffer as
    /// payload) is dispatched to the listeners by the dispatch policy, whose
    /// callbacks may change the context and send through the channel, and
    /// the parser is reset.
    pub open spec fn accept_byte_outcome(old: Self, new: Self, byte: u8) -> bool {
        let (s1, out) = old.rx_config().step(old.rx_state(), byte);
        &&& new.parser_ticks() == old.parser_ticks()
        &&& new.policy() == old.policy()
        &&& new.generic_slot() == old.generic_slot()
        &&& match out {
            None => {
                &&& new.rx_state() == s1
                &&& new.ctx_state() == old.ctx_state()
                &&& new.tx_state() == old.tx_state()
                &&& new.id_slots() == old.id_slots()
                &&& new.type_slots() == old.type_slots()
            },
            Some(meta) => {
                &&& new.rx_state() == (RxState { parser: s1.parser.reset(), ..s1 })
                &&& old.policy().dispatch_outcome(
                    old.id_slots(),
                    new.id_slots(),
                    old.type_slots(),
                    new.type_slots(),
                    meta.id,
                    meta.typ,
                )
                &&& old.policy().dispatch_effect(
                    old.id_slots(),
                    new.id_slots(),
                    old.type_slots(),
                    new.type_slots(),
                    old.generic_slot(),
                    FrameView { id: meta.id, typ: meta.typ, data: s1.buf.take(meta.len as int), timed_out: false },
                    old.ctx_state(),
                    old.channel_state(),
                    new.ctx_state(),
                    new.channel_state(),
                )
                &&& new.tx_state() == new.channel_state().tx_view()
                &&& old.policy().unheard(
                    old.id_slots(),
                    old.type_slots(),
                    old.generic_slot(),
                    meta.id,
                    meta.typ,
                ) ==> {
                    &&& new.ctx_state() == old.ctx_state()
                    &&& new.tx_state() == old.tx_state()
                    &&& new.id_slots() == old.id_slots()
                    &&& new.type_slots() == old.type_slots()
                }
            },
        }
    }

    /// Create an engine with default façade parameters: `Peer::Master`,
    /// SOF `0x01`, parser timeout 10 ticks.
    pub fn new_simple(ctx: C, transport: T, checksum: K) -> (r: Result<Self, Error<T::Error>>)
        ensures
            Self::new_outcome(ctx, transport, checksum, Peer::Master, 0x01, 10, r),
    {
        Self::new(ctx, transport, checksum, Peer::Master, 0x01, 10)
    }

    /// What `new` returns: the field widths and the checksum width are
    /// checked; a new engine is idle, with empty listener tables.
    pub open spec fn new_outcome(
        ctx: C,
        transport: T,
        checksum: K,
        peer: Peer,
        sof: u8,
        parser_timeout_ticks: u16,
        r: Result<Self, Error<T::Error>>,
    ) -> bool {
        if !(valid_width(ID as int) && valid_width(LEN as int) && valid_width(TY as int) && K::WIDTH <= 4) {
            r == Err::<Self, Error<T::Error>>(Error::InvalidFieldWidth)
        } else {
            &&& r is Ok
            &&& {
                let tf = r->Ok_0;
                &&& tf.wf()
                &&& tf.ctx_state() == ctx
                &&& tf.tx_state().transport == transport
                &&& tf.tx_state().checksum == checksum
                &&& tf.tx_state().sof == sof
                &&& tf.tx_state().peer_master == (peer == Peer::Master)
                &&& !tf.tx_state().tx_busy
                &&& tf.tx_state().multipart is None
                &&& tf.tx_state().next_id == 0
                &&& tf.tx_state().calls@ == Seq::<TransportCall<T::Error>>::empty()
                &&& tf.parser_ticks() == parser_timeout_ticks
                &&& tf.rx_state().parser.is_idle()
                &&& tf.rx_state().error is None
                &&& forall|i: int| 0 <= i < IDS ==> tf.id_slots()[i] is None
                &&& forall|i: int| 0 <= i < TYPES ==> tf.type_slots()[i] is None
                &&& tf.generic_slot() is None
            }
        }
    }

    /// Create an engine instance.
    pub fn new(
        ctx: C,
        transport: T,
        checksum: K,
        peer: Peer,
        sof: u8,
        parser_timeout_ticks: u16,
    ) -> (r: Result<Self, Error<T::Error>>)
        ensures
            Self::new_outcome(ctx, transport, checksum, peer, sof, parser_timeout_ticks, r),
    {
        if !is_valid_width(ID) || !is_valid_width(LEN) || !is_valid_width(TY) {
            return Err(Error::InvalidFieldWidth);
        }
        if K::WIDTH > 4 {
            return Err(Error::InvalidFieldWidth);
        }
        let peer_master = match peer {
            Peer::Master => true,
            Peer::Slave => false,
        };
        let tx = TxCore {
            transport,
            checksum,
            sof,
            peer_master,
            tx_busy: false,
            multipart: None,
            next_id: 0,
            id_allocator: A::default(),
            calls: Ghost(Seq::empty()),
        };
        Ok(
            Self {
                ctx,
                channel: FrameChannel::new(tx),
                rx: RxParserCore::new(parser_timeout_ticks),
                observers: ObserverStore::new(),
                dispatch_policy: D::default(),
            },
        )
    }

    /// Immutable access to user context.
    pub fn context(&self) -> (r: &C)
        ensures
            *r == self.ctx_state(),
    {
        &self.ctx
    }

    /// Mutable access to user context.
    pub fn context_mut(&mut self) -> (r: &mut C)
        ensures
            *r == old(self).ctx_state(),
            final(self).ctx_state() == *final(r),
            final(self).tx_state() == old(self).tx_state(),
            final(self).rx_state() == old(self).rx_state(),
            final(self).parser_ticks() == old(self).parser_ticks(),
            final(self).same_listeners(old(self)),
            final(self).policy() == old(self).policy(),
            old(self).wf() ==> final(self).wf(),
    {
        &mut self.ctx
    }

    /// Mutable access to transport backend.
    pub fn transport_mut(&mut self) -> (r: &mut T)
        ensures
            *r == old(self).tx_state().transport,
            final(self).tx_state() == (TxCore { transport: *final(r), ..old(self).tx_state() }),
            final(self).ctx_state() == old(self).ctx_state(),
            final(self).rx_state() == old(self).rx_state(),
            final(self).parser_ticks() == old(self).parser_ticks(),
            final(self).same_listeners(old(self)),
            final(self).policy() == old(self).policy(),
            old(self).wf() ==> final(self).wf(),
    {
        &mut self.channel.tx.transport
    }

    /// Last parse error observed while accepting bytes.
    pub fn last_parse_error(&self) -> (r: Option<ParseError>)
        ensures
            r == self.rx_state().error,
    {
        self.rx.last_parse_error
    }

    /// Send an outbound frame.
    pub fn send(&mut self, frame: Frame, data: &[u8]) -> (r: Result<(), Error<T::Error>>)
        ensures
            TxCore::<T, K, A, ID, LEN, TY>::send_outcome(
                old(self).tx_state(),
                final(self).tx_state(),
                frame,
                data@,
                r,
            ),
            final(self).same_but_tx(old(self)),
            old(self).wf() ==> final(self).wf(),
    {
        self.channel.send(frame, data)
    }

    /// Send a response frame reusing the request ID.
    pub fn respond(&mut self, request: ReceivedFrame<'_>, typ: u32, data: &[u8]) -> (r: Result<
        (),
        Error<T::Error>,
    >)
        ensures
            TxCore::<T, K, A, ID, LEN, TY>::send_outcome(
                old(self).tx_state(),
                final(self).tx_state(),
                Frame { id: request.id, typ, is_response: true },
                data@,
                r,
            ),
            final(self).same_but_tx(old(self)),
            old(self).wf() ==> final(self).wf(),
    {
        self.send(Frame { id: request.id, typ, is_response: true }, data)
    }

    /// Start a multipart frame of `len` payload bytes.
    pub fn send_multipart(&mut self, frame: Frame, len: u32) -> (r: Result<u32, Error<T::Error>>)
        requires
            old(self).wf(),
        ensures
            TxCore::<T, K, A, ID, LEN, TY>::begin_multipart_outcome(
                old(self).tx_state(),
                final(self).tx_state(),
                frame,
                len,
                r,
            ),
            final(self).same_but_tx(old(self)),
            final(self).wf(),
    {
        self.channel.begin_multipart(frame, len)
    }

    /// Stream one payload part of the open multipart frame.
    pub fn multipart_payload(&mut self, data: &[u8]) -> (r: Result<(), Error<T::Error>>)
        ensures
            TxCore::<T, K, A, ID, LEN, TY>::multipart_payload_outcome(
                old(self).tx_state(),
                final(self).tx_state(),
                data@,
                r,
            ),
            final(self).same_but_tx(old(self)),
            old(self).wf() ==> final(self).wf(),
    {
        self.channel.multipart_payload(data)
    }

    /// Close the open multipart frame.
    pub fn multipart_close(&mut self) -> (r: Result<(), Error<T::Error>>)
        requires
            old(self).wf(),
        ensures
            TxCore::<T, K, A, ID, LEN, TY>::multipart_close_outcome(
                old(self).tx_state(),
                final(self).tx_state(),
                r,
            ),
            final(self).same_but_tx(old(self)),
            final(self).wf(),
    {
        self.channel.multipart_close()
    }

    /// Register an ID listener (timeout 0: no timeout).
    pub fn add_id_listener(&mut self, id: u32, timeout_ticks: u16, on_frame: F) -> (r: Result<
        ListenerId,
        Error<T::Error>,
    >)
        requires
            old(self).wf(),
        ensures
            final(self).wf(),
            add_outcome(
                old(self).id_slots(),
                final(self).id_slots(),
                IdListener { id, timeout_left: timeout_ticks, timeout_max: timeout_ticks, on_frame },
                r,
            ),
            final(self).type_slots() == old(self).type_slots(),
            final(self).generic_slot() == old(self).generic_slot(),
            final(self).same_but_listeners(old(self)),
    {
        self.observers.add_id_listener(id, timeout_ticks, on_frame)
    }

    /// Register a type-based listener.
    pub fn add_type_listener(&mut self, typ: u32, on_frame: F) -> (r: Result<
        ListenerId,
        Error<T::Error>,
    >)
        requires
            old(self).wf(),
        ensures
            final(self).wf(),
            add_outcome(
                old(self).type_slots(),
                final(self).type_slots(),
                TypeListener { typ, on_frame },
                r,
            ),
            final(self).id_slots() == old(self).id_slots(),
            final(self).generic_slot() == old(self).generic_slot(),
            final(self).same_but_listeners(old(self)),
    {
        self.observers.add_type_listener(typ, on_frame)
    }

    /// Register a catch-all listener, called when no ID or type listener
    /// handled a frame.
    pub fn set_generic_listener(&mut self, cb: F)
        ensures
            final(self).generic_slot() == Some(cb),
            final(self).id_slots() == old(self).id_slots(),
            final(self).type_slots() == old(self).type_slots(),
            final(self).same_but_listeners(old(self)),
            old(self).wf() ==> final(self).wf(),
    {
        self.observers.generic_listener = Some(cb);
    }

    /// Remove the catch-all listener.
    pub fn clear_generic_listener(&mut self)
        ensures
            final(self).generic_slot() is None,
            final(self).id_slots() == old(self).id_slots(),
            final(self).type_slots() == old(self).type_slots(),
            final(self).same_but_listeners(old(self)),
            old(self).wf() ==> final(self).wf(),
    {
        self.observers.generic_listener = None;
    }

    /// Remove an ID listener by slot index.
    pub fn remove_id_listener(&mut self, listener_id: ListenerId) -> (r: bool)
        requires
            old(self).wf(),
        ensures
            final(self).wf(),
            remove_slot_outcome(old(self).id_slots(), final(self).id_slots(), listener_id, r),
            final(self).type_slots() == old(self).type_slots(),
            final(self).generic_slot() == old(self).generic_slot(),
            final(self).same_but_listeners(old(self)),
    {
        self.observers.remove_id_listener(listener_id)
    }

    /// Remove an ID listener by frame ID.
    pub fn remove_id_listener_by_frame_id(&mut self, frame_id: u32) -> (r: bool)
        requires
            old(self).wf(),
        ensures
            final(self).wf(),
            remove_id_outcome(old(self).id_slots(), final(self).id_slots(), frame_id, r),
            final(self).type_slots() == old(self).type_slots(),
            final(self).generic_slot() == old(self).generic_slot(),
            final(self).same_but_listeners(old(self)),
    {
        self.observers.remove_id_listener_by_frame_id(frame_id)
    }

    /// Remove a type listener by slot index.
    pub fn remove_type_listener(&mut self, listener_id: ListenerId) -> (r: bool)
        requires
            old(self).wf(),
        ensures
            final(self).wf(),
            remove_slot_outcome(old(self).type_slots(), final(self).type_slots(), listener_id, r),
            final(self).id_slots() == old(self).id_slots(),
            final(self).generic_slot() == old(self).generic_slot(),
            final(self).same_but_listeners(old(self)),
    {
        self.observers.remove_type_listener(listener_id)
    }

    /// Remove a type listener by message type.
    pub fn remove_type_listener_by_type(&mut self, typ: u32) -> (r: bool)
        requires
            old(self).wf(),
        ensures
            final(self).wf(),
            remove_type_outcome(old(self).type_slots(), final(self).type_slots(), typ, r),
            final(self).id_slots() == old(self).id_slots(),
            final(self).generic_slot() == old(self).generic_slot(),
            final(self).same_but_listeners(old(self)),
    {
        self.observers.remove_type_listener_by_type(typ)
    }

    /// Renew timeout for an ID listener matched by frame ID.
    pub fn renew_id_listener(&mut self, frame_id: u32) -> (r: bool)
        requires
            old(self).wf(),
        ensures
            final(self).wf(),
            renew_outcome(old(self).id_slots(), final(self).id_slots(), frame_id, r),
            final(self).type_slots() == old(self).type_slots(),
            final(self).generic_slot() == old(self).generic_slot(),
            final(self).same_but_listeners(old(self)),
    {
        self.observers.renew_id_listener(frame_id)
    }

    /// Tick parser and listener timeout state machine.
    pub fn tick(&mut self)
        requires
            old(self).wf(),
        ensures
            final(self).wf(),
            final(self).rx_state() == old(self).rx_state().tick(),
            final(self).parser_ticks() == old(self).parser_ticks(),
            final(self).id_slots() == tick_table(old(self).id_slots()),
            final(self).type_slots() == old(self).type_slots(),
            final(self).generic_slot() == old(self).generic_slot(),
            final(self).policy() == old(self).policy(),
            (forall|i: int| 0 <= i < IDS ==> !expires(#[trigger] old(self).id_slots()[i])) ==> {
                &&& final(self).ctx_state() == old(self).ctx_state()
                &&& final(self).tx_state() == old(self).tx_state()
            },
            timeout_notifications(
                old(self).id_slots(),
                old(self).ctx_state(),
                old(self).channel_state(),
                final(self).ctx_state(),
                final(self).channel_state(),
            ),
            final(self).tx_state() == final(self).channel_state().tx_view(),
    {
        self.rx.tick();
        self.observers.tick_timeouts(&mut self.ctx, &mut self.channel);
    }

    /// Reset incremental parser state.
    pub fn reset_parser(&mut self)
        requires
            old(self).wf(),
        ensures
            final(self).wf(),
            final(self).rx_state() == (RxState {
                parser: old(self).rx_state().parser.reset(),
                ..old(self).rx_state()
            }),
            final(self).ctx_state() == old(self).ctx_state(),
            final(self).tx_state() == old(self).tx_state(),
            final(self).parser_ticks() == old(self).parser_ticks(),
            final(self).same_listeners(old(self)),
            final(self).policy() == old(self).policy(),
    {
        self.rx.reset_parser();
    }

    /// `trace` is the engine before each of `bytes` and after the last, one
    /// `accept_byte` after another.
    pub open spec fn accept_trace(trace: Seq<Self>, bytes: Seq<u8>) -> bool {
        &&& trace.len() == bytes.len() + 1
        &&& forall|i: int|
            0 <= i < bytes.len() ==> Self::accept_byte_outcome(#[trigger] trace[i], trace[i + 1], bytes[i])
    }

    /// Law: feeding bytes in two chunks is feeding them at once: the traces
    /// of `xs` and then `ys` make a trace of `xs + ys`.
    pub proof fn lemma_accept_chunks(t1: Seq<Self>, xs: Seq<u8>, t2: Seq<Self>, ys: Seq<u8>)
        requires
            Self::accept_trace(t1, xs),
            Self::accept_trace(t2, ys),
            t1.last() == t2[0],
        ensures
            Self::accept_trace(t1 + t2.drop_first(), xs + ys),
            (t1 + t2.drop_first())[0] == t1[0],
            (t1 + t2.drop_first()).last() == t2.last(),
    {
        let t = t1 + t2.drop_first();
        assert forall|i: int| 0 <= i < (xs + ys).len() implies Self::accept_byte_outcome(
            #[trigger] t[i],
            t[i + 1],
            (xs + ys)[i],
        ) by {
            if i < xs.len() {
                assert(Self::accept_byte_outcome(t1[i], t1[i + 1], xs[i]));
                if i + 1 == xs.len() {
                    assert(t[i + 1] == t2[0]);
                }
            } else {
                let j = i - xs.len();
                assert(Self::accept_byte_outcome(t2[j], t2[j + 1], ys[j]));
                if j == 0 {
                    assert(t[i] == t1.last());
                }
            }
        }
    }

    /// Feed a byte slice into the streaming parser: byte by byte, as
    /// `accept_byte` does (where `==` on checksum values compares values).
    pub fn accept(&mut self, bytes: &[u8])
        requires
            old(self).wf(),
        ensures
            final(self).wf(),
            value_eq_laws::<K>() ==> exists|trace: Seq<Self>|
                {
                    &&& #[trigger] Self::accept_trace(trace, bytes@)
                    &&& trace[0] == *old(self)
                    &&& trace.last() == *final(self)
                },
    {
        let ghost trace: Seq<Self> = seq![*self];
        let mut i: usize = 0;
        while i < bytes.len()
            invariant
                self.wf(),
                i <= bytes@.len(),
                trace.len() == i + 1,
                trace[0] == *old(self),
                trace.last() == *self,
                value_eq_laws::<K>() ==> forall|j: int|
                    0 <= j < i ==> Self::accept_byte_outcome(
                        #[trigger] trace[j],
                        trace[j + 1],
                        bytes@[j],
                    ),
            decreases bytes@.len() - i,
        {
            self.accept_byte(bytes[i]);
            proof {
                trace = trace.push(*self);
            }
            i += 1;
        }
        proof {
            if value_eq_laws::<K>() {
                assert(Self::accept_trace(trace, bytes@));
            }
        }
    }

    /// Feed one byte into the streaming parser. The last byte of a checksum
    /// field is judged by `==` on checksum values; the outcome is stated
    /// where that `==` compares values, as it does for every checksum of this
    /// crate.
    pub fn accept_byte(&mut self, byte: u8)
        requires
            old(self).wf(),
        ensures
            final(self).wf(),
            value_eq_laws::<K>() || !old(self).rx_state().parser.stage.compares_checksum()
                ==> Self::accept_byte_outcome(*old(self), *final(self), byte),
    {
        let completed = self.rx.accept_byte(
            byte,
            self.channel.tx.sof,
            &self.channel.tx.checksum,
            (ID, LEN, TY),
        );
        if let Some(meta) = completed {
            let whole = self.rx.rx_buf.as_slice();
            let data = whole.split_at(meta.len).0;
            let frame = ReceivedFrame { id: meta.id, typ: meta.typ, data, timed_out: false };
            assert(frame@ == FrameView {
                id: meta.id,
                typ: meta.typ,
                data: self.rx@.buf.take(meta.len as int),
                timed_out: false,
            });
            RxDispatchCore::dispatch(
                &mut self.ctx,
                &mut self.channel,
                &self.dispatch_policy,
                &mut self.observers.id_listeners,
                &mut self.observers.type_listeners,
                self.observers.generic_listener,
                frame,
            );
            self.rx.reset_parser();
        }
    }
}

} // verus!
