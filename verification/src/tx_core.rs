use vstd::prelude::*;
use crate::checksum::{Checksum, fold_sum};
use crate::error::{Error, ok_or_transport};
use crate::frame::Frame;
use crate::strategy::IdAllocator;
use crate::transport::Transport;
use crate::tx_pipeline::{
    TxPipeline,
    add_bytes,
    call_abort,
    call_begin,
    call_end,
    call_write,
    checksum_plan,
    data_trailer,
    frame_bytes,
    frame_head,
    frame_plan,
    header_fields,
    header_plan,
};
use crate::call_log::{
    PlannedCall,
    TransportCall,
    appended,
    error_of,
    extends,
    lemma_extends,
    lemma_failed_then_aborted,
    lemma_run_continues,
    lemma_run_done,
    lemma_run_start,
    lemma_run_step,
    lemma_succeeded,
    plan_outcome,
    ran_ok,
    ran_to_failure,
};
use crate::utils::{lemma_pow256_le4, fits, fits_in_bytes, is_valid_width, valid_width};

verus! {

broadcast use vstd::array::group_array_axioms;

/// State of a multipart transmission: the header is on the wire, payload
/// parts are being streamed.
#[derive(Clone, Copy)]
pub struct MultipartTx<S: Copy> {
    pub expected_len: u32,
    pub sent: u32,
    pub data_checksum: S,
}

/// The transmit path.
pub struct TxCore<T, K, A, const ID: usize, const LEN: usize, const TY: usize> where
    T: Transport,
    K: Checksum,
    A: IdAllocator,
 {
    pub transport: T,
    pub checksum: K,
    pub sof: u8,
    pub peer_master: bool,
    pub tx_busy: bool,
    pub multipart: Option<MultipartTx<K::Value>>,
    pub next_id: u32,
    pub id_allocator: A,
    /// The calls made to the transport so far, with what they returned.
    pub calls: Ghost<Seq<TransportCall<T::Error>>>,
}

/// The payload checksum field that closes a multipart frame: present for a
/// checksum with a field and a non-empty payload.
pub open spec fn multipart_trailer<K: Checksum>(k: K, part: MultipartTx<K::Value>) -> Seq<u8> {
    if K::WIDTH > 0 && part.expected_len > 0 {
        k.spec_encode(k.spec_finish(part.data_checksum))
    } else {
        Seq::empty()
    }
}

/// The calls that open a multipart frame: `begin_frame`, then the header
/// and header checksum as a frame's first calls (which open it once more).
pub open spec fn multipart_open_plan<K: Checksum>(
    k: K,
    sof: u8,
    id: u32,
    len: u32,
    typ: u32,
    id_w: usize,
    len_w: usize,
    ty_w: usize,
) -> Seq<PlannedCall> {
    seq![PlannedCall::Begin] + header_plan(sof, id, len, typ, id_w, len_w, ty_w) + checksum_plan(
        k,
        fold_sum(k, k.spec_start(), header_fields(id, len, typ, id_w, len_w, ty_w)),
    )
}

/// The calls that close a multipart frame whose streamed length is right:
/// the payload checksum (for a checksum with a field and a non-empty
/// payload), then `end_frame`.
pub open spec fn multipart_close_plan<K: Checksum>(k: K, part: MultipartTx<K::Value>) -> Seq<PlannedCall> {
    (if K::WIDTH > 0 && part.expected_len > 0 {
        seq![PlannedCall::Write(multipart_trailer(k, part))]
    } else {
        Seq::empty()
    }) + seq![PlannedCall::End]
}

/// Saturating addition of a part length to the count of multipart bytes sent.
pub open spec fn sat_add(a: u32, b: u32) -> u32 {
    if a + b > u32::MAX {
        u32::MAX
    } else {
        (a + b) as u32
    }
}

impl<T, K, A, const ID: usize, const LEN: usize, const TY: usize> TxCore<T, K, A, ID, LEN, TY> where
    T: Transport,
    K: Checksum,
    A: IdAllocator,
 {
    /// The field widths and the checksum width are ones the protocol supports.
    pub open spec fn widths_ok(&self) -> bool {
        &&& valid_width(ID as int)
        &&& valid_width(LEN as int)
        &&& valid_width(TY as int)
        &&& K::WIDTH <= 4
    }

    /// A request with ID 0 gets an allocated ID; responses and requests with
    /// an explicit ID keep theirs.
    pub open spec fn allocates(frame: Frame) -> bool {
        !frame.is_response && frame.id == 0
    }

    /// The allocator, the ID counter and the frame ID after choosing the ID
    /// of `frame`.
    pub open spec fn id_choice(&self, frame: Frame) -> (A, u32, u32) {
        if Self::allocates(frame) {
            self.id_allocator.spec_alloc(self.next_id, self.peer_master, ID as nat)
        } else {
            (self.id_allocator, self.next_id, frame.id)
        }
    }

    /// The transmit path after choosing the ID of `frame`.
    pub open spec fn with_id_chosen(&self, frame: Frame) -> Self {
        TxCore {
            id_allocator: self.id_choice(frame).0,
            next_id: self.id_choice(frame).1,
            ..*self
        }
    }

    /// What stays of the transmit path after a frame was handed to the
    /// transport: everything but the transport and its call log.
    pub open spec fn same_but_transport(&self, other: &Self) -> bool {
        &&& self.checksum == other.checksum
        &&& self.sof == other.sof
        &&& self.peer_master == other.peer_master
        &&& self.tx_busy == other.tx_busy
        &&& self.multipart == other.multipart
        &&& self.next_id == other.next_id
        &&& self.id_allocator == other.id_allocator
    }

    /// The header values of a frame fit their fields.
    pub open spec fn header_fits(len: nat, id: u32, typ: u32) -> bool {
        &&& fits(len, LEN as nat)
        &&& fits(id as nat, ID as nat)
        &&& fits(typ as nat, TY as nat)
    }

    /// What `send` does: reject bad field widths, a busy transmit path and
    /// header values that do not fit their fields, changing nothing; otherwise
    /// choose the frame ID and hand the whole frame to the transport.
    pub open spec fn send_outcome(
        old: Self,
        new: Self,
        frame: Frame,
        data: Seq<u8>,
        r: Result<(), Error<T::Error>>,
    ) -> bool {
        &&& !old.widths_ok() ==> r == Err::<(), Error<T::Error>>(Error::InvalidFieldWidth) && new
            == old
        &&& old.widths_ok() && (old.tx_busy || old.multipart is Some) ==> r == Err::<
            (),
            Error<T::Error>,
        >(Error::TxBusy) && new == old
        &&& old.widths_ok() && !old.tx_busy && old.multipart is None && !Self::header_fits(
            data.len(),
            frame.id,
            frame.typ,
        ) ==> r == Err::<(), Error<T::Error>>(Error::LengthOverflow) && new == old
        &&& old.widths_ok() && !old.tx_busy && old.multipart is None && Self::header_fits(
            data.len(),
            frame.id,
            frame.typ,
        ) ==> {
            &&& new.same_but_transport(&old.with_id_chosen(frame))
            &&& ok_or_transport(r)
            &&& plan_outcome(
                old.calls@,
                new.calls@,
                frame_plan(old.checksum, old.sof, old.id_choice(frame).2, frame.typ, data, ID, LEN, TY),
                error_of(r),
            )
            &&& T::never_fails() ==> r is Ok
            &&& r is Ok ==> new.transport.sent() == old.transport.sent() + frame_bytes(
                old.checksum,
                old.sof,
                old.id_choice(frame).2,
                frame.typ,
                data,
                ID,
                LEN,
                TY,
            )
        }
    }

    pub fn send(&mut self, frame: Frame, data: &[u8]) -> (r: Result<(), Error<T::Error>>)
        ensures
            Self::send_outcome(*old(self), *final(self), frame, data@, r),
    {
        if !is_valid_width(ID) || !is_valid_width(LEN) || !is_valid_width(TY) {
            return Err(Error::InvalidFieldWidth);
        }
        if K::WIDTH > 4 {
            return Err(Error::InvalidFieldWidth);
        }
        if self.tx_busy || self.multipart.is_some() {
            return Err(Error::TxBusy);
        }
        if data.len() > u32::MAX as usize {
            proof {
                lemma_pow256_le4(LEN as nat);
            }
            return Err(Error::LengthOverflow);
        }
        let len_u32 = data.len() as u32;
        if !fits_in_bytes(len_u32, LEN) || !fits_in_bytes(frame.id, ID) || !fits_in_bytes(
            frame.typ,
            TY,
        ) {
            return Err(Error::LengthOverflow);
        }
        let mut frame = frame;
        if !frame.is_response {
            frame.id = if frame.id == 0 {
                self.alloc_id()
            } else {
                frame.id
            };
        }
        self.tx_busy = true;
        let ghost c0 = self.calls@;
        let result = self.transmit(frame.id, len_u32, frame.typ, data);
        self.tx_busy = false;
        let ghost plan = frame_plan(self.checksum, self.sof, frame.id, frame.typ, data@, ID, LEN, TY);
        if result.is_err() {
            let ghost seg = appended(c0, self.calls@);
            proof {
                lemma_extends(c0, self.calls@);
            }
            call_abort(&mut self.transport, &mut self.calls);
            proof {
                assert(self.calls@ =~= c0 + seg.push(TransportCall::Abort));
                lemma_failed_then_aborted(c0, seg, plan);
            }
        } else {
            proof {
                lemma_extends(c0, self.calls@);
                lemma_succeeded(c0, appended(c0, self.calls@), plan);
            }
        }
        result
    }

    /// Write one whole frame: header, header checksum, payload, payload
    /// checksum, then close it; the calls stop at the first one that fails.
    fn transmit(&mut self, id: u32, len_u32: u32, typ: u32, data: &[u8]) -> (r: Result<
        (),
        Error<T::Error>,
    >)
        requires
            old(self).widths_ok(),
            len_u32 == data@.len(),
        ensures
            final(self).same_but_transport(old(self)),
            ok_or_transport(r),
            extends(old(self).calls@, final(self).calls@),
            r is Ok ==> ran_ok(
                appended(old(self).calls@, final(self).calls@),
                frame_plan(old(self).checksum, old(self).sof, id, typ, data@, ID, LEN, TY),
            ),
            r is Err ==> {
                &&& ran_to_failure(
                    appended(old(self).calls@, final(self).calls@),
                    frame_plan(old(self).checksum, old(self).sof, id, typ, data@, ID, LEN, TY),
                )
                &&& r == Err::<(), Error<T::Error>>(
                    Error::Transport(appended(old(self).calls@, final(self).calls@).last().result()->Err_0),
                )
            },
            T::never_fails() ==> r is Ok,
            r is Ok ==> final(self).transport.sent() == old(self).transport.sent() + frame_bytes(
                old(self).checksum,
                old(self).sof,
                id,
                typ,
                data@,
                ID,
                LEN,
                TY,
            ),
    {
        let ghost k = self.checksum;
        let ghost s0 = self.transport.sent();
        let ghost base = self.calls@;
        let ghost fields = header_fields(id, len_u32, typ, ID, LEN, TY);
        let ghost hp = header_plan(self.sof, id, len_u32, typ, ID, LEN, TY);
        let ghost cp = checksum_plan(k, fold_sum(k, k.spec_start(), fields));
        let ghost wp = seq![PlannedCall::Write(data@)];
        let ghost tp = if data@.len() > 0 {
            checksum_plan(k, fold_sum(k, k.spec_start(), data@))
        } else {
            Seq::<PlannedCall>::empty()
        };
        let ghost ep = seq![PlannedCall::End];
        let ghost plan = frame_plan(k, self.sof, id, typ, data@, ID, LEN, TY);
        assert(plan =~= hp + cp + wp + tp + ep);
        let ghost mut seg: Seq<TransportCall<T::Error>> = Seq::empty();
        proof {
            lemma_run_start(base, plan);
        }
        let ghost c1 = self.calls@;
        let hr = TxPipeline::write_header::<T, K, ID, LEN, TY>(
            &mut self.transport,
            &mut self.calls,
            &self.checksum,
            self.sof,
            id,
            len_u32,
            typ,
        );
        proof {
            let part = appended(c1, self.calls@);
            lemma_extends(c1, self.calls@);
            assert(plan.subrange(0, hp.len() as int) =~= hp);
            lemma_run_continues(base, seg, plan, part, hp);
            assert(seg + part =~= part);
            seg = part;
        }
        let head_csum = match hr {
            Ok(h) => h,
            Err(e) => return Err(e),
        };
        let ghost c2 = self.calls@;
        let cr = TxPipeline::write_checksum(&mut self.transport, &mut self.calls, &self.checksum, head_csum);
        proof {
            let part = appended(c2, self.calls@);
            lemma_extends(c2, self.calls@);
            assert(plan.subrange(seg.len() as int, (seg.len() + cp.len()) as int) =~= cp);
            lemma_run_continues(base, seg, plan, part, cp);
            seg = seg + part;
        }
        match cr {
            Ok(()) => {},
            Err(e) => return Err(e),
        }
        let ghost s1 = self.transport.sent();
        assert(s1 == s0 + frame_head(k, self.sof, id, len_u32, typ, ID, LEN, TY));
        let wr = call_write(&mut self.transport, &mut self.calls, data);
        proof {
            assert(plan[seg.len() as int] == PlannedCall::Write(data@));
            lemma_run_step(base, seg, plan, TransportCall::Write(data@, wr));
            seg = seg.push(TransportCall::Write(data@, wr));
        }
        match wr {
            Ok(()) => {},
            Err(e) => return Err(Error::Transport(e)),
        }
        if K::WIDTH > 0 && !data.is_empty() {
            let data_csum = add_bytes(&self.checksum, self.checksum.start(), data);
            let sum = self.checksum.finish(data_csum);
            let mut cksum_buf = [0u8; 4];
            let used = self.checksum.encode(sum, &mut cksum_buf);
            let whole: &[u8] = &cksum_buf;
            let part = whole.split_at(used).0;
            let tr = call_write(&mut self.transport, &mut self.calls, part);
            proof {
                assert(plan[seg.len() as int] == PlannedCall::Write(part@));
                lemma_run_step(base, seg, plan, TransportCall::Write(part@, tr));
                seg = seg.push(TransportCall::Write(part@, tr));
            }
            match tr {
                Ok(()) => {},
                Err(e) => return Err(Error::Transport(e)),
            }
        } else {
            assert(data_trailer(k, data@) =~= Seq::<u8>::empty());
            assert(tp =~= Seq::<PlannedCall>::empty());
        }
        let er = call_end(&mut self.transport, &mut self.calls);
        proof {
            assert(seg.len() == plan.len() - 1);
            assert(plan[seg.len() as int] == PlannedCall::End);
            lemma_run_step(base, seg, plan, TransportCall::End(er));
            seg = seg.push(TransportCall::End(er));
        }
        match er {
            Ok(()) => {},
            Err(e) => return Err(Error::Transport(e)),
        }
        proof {
            lemma_run_done(seg, plan);
        }
        Ok(())
    }

    /// What `begin_multipart` does: reject a busy transmit path and header
    /// values that do not fit, changing nothing; otherwise choose the frame ID,
    /// put the header (with `len` as payload length) on the wire and arm the
    /// multipart state.
    pub open spec fn begin_multipart_outcome(
        old: Self,
        new: Self,
        frame: Frame,
        len: u32,
        r: Result<u32, Error<T::Error>>,
    ) -> bool {
        &&& old.tx_busy || old.multipart is Some ==> r == Err::<u32, Error<T::Error>>(Error::TxBusy)
            && new == old
        &&& !old.tx_busy && old.multipart is None && !Self::header_fits(len as nat, frame.id, frame.typ)
            ==> r == Err::<u32, Error<T::Error>>(Error::LengthOverflow) && new == old
        &&& !old.tx_busy && old.multipart is None && Self::header_fits(len as nat, frame.id, frame.typ)
            ==> {
            let chosen = old.with_id_chosen(frame);
            let id = old.id_choice(frame).2;
            &&& ok_or_transport(r)
            &&& plan_outcome(
                old.calls@,
                new.calls@,
                multipart_open_plan(old.checksum, old.sof, id, len, frame.typ, ID, LEN, TY),
                error_of(r),
            )
            &&& T::never_fails() ==> r is Ok
            &&& new.checksum == chosen.checksum
            &&& new.sof == chosen.sof
            &&& new.peer_master == chosen.peer_master
            &&& new.tx_busy == chosen.tx_busy
            &&& new.next_id == chosen.next_id
            &&& new.id_allocator == chosen.id_allocator
            &&& r is Err ==> new.multipart is None
            &&& r is Ok ==> {
                &&& r->Ok_0 == id
                &&& new.multipart == Some(
                    MultipartTx {
                        expected_len: len,
                        sent: 0,
                        data_checksum: old.checksum.spec_start(),
                    },
                )
                &&& new.transport.sent() == old.transport.sent() + frame_head(
                    old.checksum,
                    old.sof,
                    id,
                    len,
                    frame.typ,
                    ID,
                    LEN,
                    TY,
                )
            }
        }
    }

    /// What `multipart_payload` does: without an open multipart frame, fail
    /// and change nothing; otherwise stream the part, and on success count it
    /// and fold it into the payload checksum. A transport failure cancels the
    /// multipart frame.
    pub open spec fn multipart_payload_outcome(
        old: Self,
        new: Self,
        data: Seq<u8>,
        r: Result<(), Error<T::Error>>,
    ) -> bool {
        &&& new.checksum == old.checksum
        &&& new.sof == old.sof
        &&& new.peer_master == old.peer_master
        &&& new.tx_busy == old.tx_busy
        &&& new.next_id == old.next_id
        &&& new.id_allocator == old.id_allocator
        &&& old.multipart is None ==> r == Err::<(), Error<T::Error>>(Error::MultipartNotStarted)
            && new == old
        &&& old.multipart is Some ==> {
            let part = old.multipart->Some_0;
            &&& ok_or_transport(r)
            &&& plan_outcome(old.calls@, new.calls@, seq![PlannedCall::Write(data)], error_of(r))
            &&& T::never_fails() ==> r is Ok
            &&& r is Err ==> new.multipart is None
            &&& r is Ok ==> {
                &&& new.transport.sent() == old.transport.sent() + data
                &&& new.multipart == Some(
                    MultipartTx {
                        expected_len: part.expected_len,
                        sent: sat_add(part.sent, data.len() as u32),
                        data_checksum: fold_sum(old.checksum, part.data_checksum, data),
                    },
                )
            }
        }
    }

    /// What `multipart_close` does: without an open multipart frame, fail and
    /// change nothing; otherwise end the multipart state, fail if the streamed
    /// length differs from the announced one, else write the payload checksum
    /// (for a non-empty payload) and end the frame.
    pub open spec fn multipart_close_outcome(old: Self, new: Self, r: Result<(), Error<T::Error>>) -> bool {
        &&& new.multipart is None
        &&& new.checksum == old.checksum
        &&& new.sof == old.sof
        &&& new.peer_master == old.peer_master
        &&& new.tx_busy == old.tx_busy
        &&& new.next_id == old.next_id
        &&& new.id_allocator == old.id_allocator
        &&& old.multipart is None ==> r == Err::<(), Error<T::Error>>(Error::MultipartNotStarted)
            && new == old
        &&& old.multipart is Some ==> {
            let part = old.multipart->Some_0;
            &&& part.sent != part.expected_len ==> r == Err::<(), Error<T::Error>>(
                Error::MultipartLengthMismatch,
            )
            &&& part.sent == part.expected_len ==> ok_or_transport(r)
            &&& part.sent != part.expected_len ==> new.calls@ == old.calls@.push(TransportCall::Abort)
            &&& part.sent == part.expected_len ==> plan_outcome(
                old.calls@,
                new.calls@,
                multipart_close_plan(old.checksum, part),
                error_of(r),
            )
            &&& part.sent == part.expected_len && T::never_fails() ==> r is Ok
            &&& r is Ok ==> new.transport.sent() == old.transport.sent() + multipart_trailer(
                old.checksum,
                part,
            )
        }
    }

    /// Start a multipart frame of `len` payload bytes: write the header and
    /// the header checksum now; the payload follows in parts.
    pub fn begin_multipart(&mut self, frame: Frame, len: u32) -> (r: Result<u32, Error<T::Error>>)
        requires
            old(self).widths_ok(),
        ensures
            Self::begin_multipart_outcome(*old(self), *final(self), frame, len, r),
    {
        if self.tx_busy || self.multipart.is_some() {
            return Err(Error::TxBusy);
        }
        if !fits_in_bytes(len, LEN) || !fits_in_bytes(frame.id, ID) || !fits_in_bytes(
            frame.typ,
            TY,
        ) {
            return Err(Error::LengthOverflow);
        }
        let mut frame = frame;
        if !frame.is_response {
            frame.id = if frame.id == 0 {
                self.alloc_id()
            } else {
                frame.id
            };
        }
        self.tx_busy = true;
        let ghost c0 = self.calls@;
        let result = self.open_multipart(frame.id, len, frame.typ);
        self.tx_busy = false;
        let ghost plan = multipart_open_plan(self.checksum, self.sof, frame.id, len, frame.typ, ID, LEN, TY);
        if result.is_err() {
            let ghost seg = appended(c0, self.calls@);
            proof {
                lemma_extends(c0, self.calls@);
            }
            call_abort(&mut self.transport, &mut self.calls);
            proof {
                assert(self.calls@ =~= c0 + seg.push(TransportCall::Abort));
                lemma_failed_then_aborted(c0, seg, plan);
            }
        } else {
            proof {
                lemma_extends(c0, self.calls@);
                lemma_succeeded(c0, appended(c0, self.calls@), plan);
            }
        }
        result
    }

    /// Open the frame, write header and header checksum, and arm the
    /// multipart state; the calls stop at the first one that fails.
    fn open_multipart(&mut self, id: u32, len: u32, typ: u32) -> (r: Result<u32, Error<T::Error>>)
        requires
            old(self).widths_ok(),
            old(self).multipart is None,
        ensures
            ok_or_transport(r),
            final(self).checksum == old(self).checksum,
            final(self).sof == old(self).sof,
            final(self).peer_master == old(self).peer_master,
            final(self).tx_busy == old(self).tx_busy,
            final(self).next_id == old(self).next_id,
            final(self).id_allocator == old(self).id_allocator,
            extends(old(self).calls@, final(self).calls@),
            r is Ok ==> ran_ok(
                appended(old(self).calls@, final(self).calls@),
                multipart_open_plan(old(self).checksum, old(self).sof, id, len, typ, ID, LEN, TY),
            ),
            r is Err ==> {
                &&& ran_to_failure(
                    appended(old(self).calls@, final(self).calls@),
                    multipart_open_plan(old(self).checksum, old(self).sof, id, len, typ, ID, LEN, TY),
                )
                &&& r == Err::<u32, Error<T::Error>>(
                    Error::Transport(appended(old(self).calls@, final(self).calls@).last().result()->Err_0),
                )
            },
            T::never_fails() ==> r is Ok,
            r is Err ==> final(self).multipart is None,
            r is Ok ==> {
                &&& r->Ok_0 == id
                &&& final(self).multipart == Some(
                    MultipartTx {
                        expected_len: len,
                        sent: 0,
                        data_checksum: old(self).checksum.spec_start(),
                    },
                )
                &&& final(self).transport.sent() == old(self).transport.sent() + frame_head(
                    old(self).checksum,
                    old(self).sof,
                    id,
                    len,
                    typ,
                    ID,
                    LEN,
                    TY,
                )
            },
    {
        let ghost k = self.checksum;
        let ghost base = self.calls@;
        let ghost fields = header_fields(id, len, typ, ID, LEN, TY);
        let ghost hp = header_plan(self.sof, id, len, typ, ID, LEN, TY);
        let ghost cp = checksum_plan(k, fold_sum(k, k.spec_start(), fields));
        let ghost plan = multipart_open_plan(k, self.sof, id, len, typ, ID, LEN, TY);
        let ghost mut seg: Seq<TransportCall<T::Error>> = Seq::empty();
        proof {
            lemma_run_start(base, plan);
        }
        let br = call_begin(&mut self.transport, &mut self.calls);
        proof {
            lemma_run_step(base, seg, plan, TransportCall::Begin(br));
            seg = seg.push(TransportCall::Begin(br));
        }
        match br {
            Ok(()) => {},
            Err(e) => return Err(Error::Transport(e)),
        }
        let ghost c1 = self.calls@;
        let hr = TxPipeline::write_header::<T, K, ID, LEN, TY>(
            &mut self.transport,
            &mut self.calls,
            &self.checksum,
            self.sof,
            id,
            len,
            typ,
        );
        proof {
            let part = appended(c1, self.calls@);
            lemma_extends(c1, self.calls@);
            assert(plan.subrange(1, (1 + hp.len()) as int) =~= hp);
            lemma_run_continues(base, seg, plan, part, hp);
            seg = seg + part;
        }
        let head_csum = match hr {
            Ok(h) => h,
            Err(e) => return Err(e),
        };
        let ghost c2 = self.calls@;
        let cr = TxPipeline::write_checksum(&mut self.transport, &mut self.calls, &self.checksum, head_csum);
        proof {
            let part = appended(c2, self.calls@);
            lemma_extends(c2, self.calls@);
            assert(plan.subrange(seg.len() as int, (seg.len() + cp.len()) as int) =~= cp);
            lemma_run_continues(base, seg, plan, part, cp);
            seg = seg + part;
        }
        match cr {
            Ok(()) => {},
            Err(e) => return Err(e),
        }
        proof {
            lemma_run_done(seg, plan);
        }
        self.multipart = Some(
            MultipartTx { expected_len: len, sent: 0, data_checksum: self.checksum.start() },
        );
        Ok(id)
    }

    /// Stream one payload part of the open multipart frame.
    pub fn multipart_payload(&mut self, data: &[u8]) -> (r: Result<(), Error<T::Error>>)
        ensures
            Self::multipart_payload_outcome(*old(self), *final(self), data@, r),
    {
        let mut part = match self.multipart {
            Some(p) => p,
            None => return Err(Error::MultipartNotStarted),
        };
        let ghost base = self.calls@;
        let ghost plan = seq![PlannedCall::Write(data@)];
        proof {
            lemma_run_start(base, plan);
        }
        let wr = call_write(&mut self.transport, &mut self.calls, data);
        proof {
            lemma_run_step(base, Seq::empty(), plan, TransportCall::Write(data@, wr));
        }
        if let Err(err) = wr {
            self.multipart = None;
            let ghost seg = seq![TransportCall::Write(data@, wr)];
            call_abort(&mut self.transport, &mut self.calls);
            proof {
                assert(Seq::<TransportCall<T::Error>>::empty().push(TransportCall::Write(data@, wr)) =~= seg);
                assert(self.calls@ =~= base + seg.push(TransportCall::Abort));
                lemma_failed_then_aborted(base, seg, plan);
            }
            return Err(Error::Transport(err));
        }
        proof {
            let seg = seq![TransportCall::Write(data@, wr)];
            assert(Seq::<TransportCall<T::Error>>::empty().push(TransportCall::Write(data@, wr)) =~= seg);
            lemma_run_done(seg, plan);
            assert(self.calls@ =~= base + seg);
            lemma_succeeded(base, seg, plan);
        }
        part.data_checksum = add_bytes(&self.checksum, part.data_checksum, data);
        part.sent = part.sent.saturating_add(data.len() as u32);
        self.multipart = Some(part);
        Ok(())
    }

    /// Close the open multipart frame: check that exactly the announced
    /// number of payload bytes was streamed, write the payload checksum and
    /// end the frame.
    pub fn multipart_close(&mut self) -> (r: Result<(), Error<T::Error>>)
        requires
            old(self).widths_ok(),
        ensures
            Self::multipart_close_outcome(*old(self), *final(self), r),
    {
        let part = match self.multipart {
            Some(p) => p,
            None => return Err(Error::MultipartNotStarted),
        };
        self.multipart = None;
        if part.sent != part.expected_len {
            call_abort(&mut self.transport, &mut self.calls);
            return Err(Error::MultipartLengthMismatch);
        }
        let ghost base = self.calls@;
        let ghost plan = multipart_close_plan(self.checksum, part);
        let ghost mut seg: Seq<TransportCall<T::Error>> = Seq::empty();
        proof {
            lemma_run_start(base, plan);
        }
        if K::WIDTH > 0 && part.expected_len > 0 {
            let mut cksum_buf = [0u8; 4];
            let used = self.checksum.encode(self.checksum.finish(part.data_checksum), &mut cksum_buf);
            let whole: &[u8] = &cksum_buf;
            let tail = whole.split_at(used).0;
            let wr = call_write(&mut self.transport, &mut self.calls, tail);
            proof {
                assert(plan[0] == PlannedCall::Write(tail@));
                lemma_run_step(base, seg, plan, TransportCall::Write(tail@, wr));
                seg = seg.push(TransportCall::Write(tail@, wr));
            }
            if let Err(err) = wr {
                call_abort(&mut self.transport, &mut self.calls);
                proof {
                    assert(self.calls@ =~= base + seg.push(TransportCall::Abort));
                    lemma_failed_then_aborted(base, seg, plan);
                }
                return Err(Error::Transport(err));
            }
        } else {
            assert(old(self).transport.sent() + Seq::<u8>::empty() =~= old(self).transport.sent());
        }
        let er = call_end(&mut self.transport, &mut self.calls);
        proof {
            assert(plan[seg.len() as int] == PlannedCall::End);
            lemma_run_step(base, seg, plan, TransportCall::End(er));
            seg = seg.push(TransportCall::End(er));
        }
        if let Err(err) = er {
            call_abort(&mut self.transport, &mut self.calls);
            proof {
                assert(self.calls@ =~= base + seg.push(TransportCall::Abort));
                lemma_failed_then_aborted(base, seg, plan);
            }
            return Err(Error::Transport(err));
        }
        proof {
            lemma_run_done(seg, plan);
            lemma_succeeded(base, seg, plan);
        }
        Ok(())
    }

    fn alloc_id(&mut self) -> (r: u32)
        requires
            valid_width(ID as int),
        ensures
            (final(self).id_allocator, final(self).next_id, r) == old(self).id_allocator.spec_alloc(
                old(self).next_id,
                old(self).peer_master,
                ID as nat,
            ),
            final(self).transport == old(self).transport,
            final(self).checksum == old(self).checksum,
            final(self).sof == old(self).sof,
            final(self).peer_master == old(self).peer_master,
            final(self).tx_busy == old(self).tx_busy,
            final(self).multipart == old(self).multipart,
            final(self).calls == old(self).calls,
    {
        self.id_allocator.alloc_id::<ID>(&mut self.next_id, self.peer_master)
    }
}

} // verus!
