use vstd::prelude::*;
use crate::checksum::{Checksum, checksum_of, fold_sum, lemma_fold_take_step};
use crate::error::Error;
use crate::transport::Transport;
use crate::call_log::{
    PlannedCall,
    TransportCall,
    appended,
    extends,
    lemma_run_done,
    lemma_run_start,
    lemma_run_step,
    ran_ok,
    ran_to_failure,
};
use crate::utils::{be_bytes, encode_be};

verus! {

broadcast use vstd::array::group_array_axioms;

/// The ID, LEN and TYPE fields of a frame header, each big-endian in its
/// configured width.
pub open spec fn header_fields(
    id: u32,
    len: u32,
    typ: u32,
    id_w: usize,
    len_w: usize,
    ty_w: usize,
) -> Seq<u8> {
    be_bytes(id as nat, id_w as nat) + be_bytes(len as nat, len_w as nat) + be_bytes(
        typ as nat,
        ty_w as nat,
    )
}

/// The checksum field that follows `covered`: the encoded finished checksum,
/// or nothing for a checksum of width 0.
pub open spec fn checksum_field<K: Checksum>(k: K, covered: Seq<u8>) -> Seq<u8> {
    if K::WIDTH > 0 {
        k.spec_encode(checksum_of(k, covered))
    } else {
        Seq::empty()
    }
}

/// SOF, header fields and header checksum. SOF is not covered by the checksum.
pub open spec fn frame_head<K: Checksum>(
    k: K,
    sof: u8,
    id: u32,
    len: u32,
    typ: u32,
    id_w: usize,
    len_w: usize,
    ty_w: usize,
) -> Seq<u8> {
    let fields = header_fields(id, len, typ, id_w, len_w, ty_w);
    seq![sof] + fields + checksum_field(k, fields)
}

/// The checksum field after a payload: present only for a non-empty payload.
pub open spec fn data_trailer<K: Checksum>(k: K, data: Seq<u8>) -> Seq<u8> {
    if data.len() > 0 {
        checksum_field(k, data)
    } else {
        Seq::empty()
    }
}

/// The complete wire encoding of a frame:
/// `SOF ID LEN TYPE [HEAD_CKSUM] DATA [DATA_CKSUM]`.
pub open spec fn frame_bytes<K: Checksum>(
    k: K,
    sof: u8,
    id: u32,
    typ: u32,
    data: Seq<u8>,
    id_w: usize,
    len_w: usize,
    ty_w: usize,
) -> Seq<u8> {
    frame_head(k, sof, id, data.len() as u32, typ, id_w, len_w, ty_w) + data + data_trailer(k, data)
}

/// The calls that open a frame and write SOF and the three header fields.
pub open spec fn header_plan(
    sof: u8,
    id: u32,
    len: u32,
    typ: u32,
    id_w: usize,
    len_w: usize,
    ty_w: usize,
) -> Seq<PlannedCall> {
    seq![
        PlannedCall::Begin,
        PlannedCall::Write(seq![sof]),
        PlannedCall::Write(be_bytes(id as nat, id_w as nat)),
        PlannedCall::Write(be_bytes(len as nat, len_w as nat)),
        PlannedCall::Write(be_bytes(typ as nat, ty_w as nat)),
    ]
}

/// The write of the checksum field for the running value `state`: none for
/// a checksum of width 0.
pub open spec fn checksum_plan<K: Checksum>(k: K, state: K::Value) -> Seq<PlannedCall> {
    if K::WIDTH > 0 {
        seq![PlannedCall::Write(k.spec_encode(k.spec_finish(state)))]
    } else {
        Seq::empty()
    }
}

/// The calls that write a whole frame: the header, the header checksum, the
/// payload (one write, also when it is empty), the payload checksum for a
/// non-empty payload, and the end of the frame.
pub open spec fn frame_plan<K: Checksum>(
    k: K,
    sof: u8,
    id: u32,
    typ: u32,
    data: Seq<u8>,
    id_w: usize,
    len_w: usize,
    ty_w: usize,
) -> Seq<PlannedCall> {
    let fields = header_fields(id, data.len() as u32, typ, id_w, len_w, ty_w);
    header_plan(sof, id, data.len() as u32, typ, id_w, len_w, ty_w) + checksum_plan(
        k,
        fold_sum(k, k.spec_start(), fields),
    ) + seq![PlannedCall::Write(data)] + (if data.len() > 0 {
        checksum_plan(k, fold_sum(k, k.spec_start(), data))
    } else {
        Seq::empty()
    }) + seq![PlannedCall::End]
}

/// Open a frame on `transport`, and log the call.
pub fn call_begin<T: Transport>(transport: &mut T, calls: &mut Ghost<Seq<TransportCall<T::Error>>>) -> (r:
    Result<(), T::Error>)
    ensures
        final(calls)@ == old(calls)@.push(TransportCall::Begin(r)),
        r is Ok ==> final(transport).sent() == old(transport).sent(),
        T::never_fails() ==> r is Ok,
{
    let r = transport.begin_frame();
    proof {
        calls@ = calls@.push(TransportCall::Begin(r));
    }
    r
}

/// Write `bytes` to `transport`, and log the call.
pub fn call_write<T: Transport>(transport: &mut T, calls: &mut Ghost<Seq<TransportCall<T::Error>>>, bytes: &[u8]) -> (r:
    Result<(), T::Error>)
    ensures
        final(calls)@ == old(calls)@.push(TransportCall::Write(bytes@, r)),
        r is Ok ==> final(transport).sent() == old(transport).sent() + bytes@,
        T::never_fails() ==> r is Ok,
{
    let r = transport.write(bytes);
    proof {
        calls@ = calls@.push(TransportCall::Write(bytes@, r));
    }
    r
}

/// End the frame on `transport`, and log the call.
pub fn call_end<T: Transport>(transport: &mut T, calls: &mut Ghost<Seq<TransportCall<T::Error>>>) -> (r:
    Result<(), T::Error>)
    ensures
        final(calls)@ == old(calls)@.push(TransportCall::End(r)),
        r is Ok ==> final(transport).sent() == old(transport).sent(),
        T::never_fails() ==> r is Ok,
{
    let r = transport.end_frame();
    proof {
        calls@ = calls@.push(TransportCall::End(r));
    }
    r
}

/// Abort the frame on `transport`, and log the call.
pub fn call_abort<T: Transport>(transport: &mut T, calls: &mut Ghost<Seq<TransportCall<T::Error>>>)
    ensures
        final(calls)@ == old(calls)@.push(TransportCall::Abort),
{
    transport.abort_frame();
    proof {
        calls@ = calls@.push(TransportCall::Abort);
    }
}

/// Fold `bytes` into the running checksum `acc`.
pub fn add_bytes<K: Checksum>(checksum: &K, acc: K::Value, bytes: &[u8]) -> (r: K::Value)
    ensures
        r == fold_sum(*checksum, acc, bytes@),
{
    let mut sum = acc;
    let mut i: usize = 0;
    while i < bytes.len()
        invariant
            i <= bytes@.len(),
            sum == fold_sum(*checksum, acc, bytes@.take(i as int)),
        decreases bytes@.len() - i,
    {
        proof {
            lemma_fold_take_step(*checksum, acc, bytes@, i as int);
        }
        sum = checksum.add(sum, bytes[i]);
        i += 1;
    }
    assert(bytes@.take(bytes@.len() as int) =~= bytes@);
    sum
}

/// Stateless helpers that write the parts of a frame to a transport.
pub struct TxPipeline;

impl TxPipeline {
    /// Open a frame and write SOF and the three header fields; return the
    /// running header checksum over the fields (SOF excluded). The calls
    /// stop at the first one that fails, whose error is returned.
    pub fn write_header<T, K, const ID: usize, const LEN: usize, const TY: usize>(
        transport: &mut T,
        calls: &mut Ghost<Seq<TransportCall<T::Error>>>,
        checksum: &K,
        sof: u8,
        frame_id: u32,
        len: u32,
        typ: u32,
    ) -> (r: Result<K::Value, Error<T::Error>>) where T: Transport, K: Checksum
        requires
            ID <= 4,
            LEN <= 4,
            TY <= 4,
        ensures
            extends(old(calls)@, final(calls)@),
            match r {
                Ok(head) => {
                    &&& ran_ok(appended(old(calls)@, final(calls)@), header_plan(sof, frame_id, len, typ, ID, LEN, TY))
                    &&& final(transport).sent() == old(transport).sent() + seq![sof] + header_fields(
                        frame_id,
                        len,
                        typ,
                        ID,
                        LEN,
                        TY,
                    )
                    &&& head == fold_sum(
                        *checksum,
                        checksum.spec_start(),
                        header_fields(frame_id, len, typ, ID, LEN, TY),
                    )
                },
                Err(e) => {
                    &&& ran_to_failure(appended(old(calls)@, final(calls)@), header_plan(sof, frame_id, len, typ, ID, LEN, TY))
                    &&& e == Error::Transport(appended(old(calls)@, final(calls)@).last().result()->Err_0)
                },
            },
            T::never_fails() ==> r is Ok,
    {
        let ghost k = *checksum;
        let ghost base = calls@;
        let ghost plan = header_plan(sof, frame_id, len, typ, ID, LEN, TY);
        let ghost f_id = be_bytes(frame_id as nat, ID as nat);
        let ghost f_len = be_bytes(len as nat, LEN as nat);
        let ghost f_ty = be_bytes(typ as nat, TY as nat);
        let ghost mut seg: Seq<TransportCall<T::Error>> = Seq::empty();
        proof {
            lemma_run_start(base, plan);
        }
        let mut head_csum = checksum.start();
        let rb = call_begin(transport, calls);
        proof {
            lemma_run_step(base, seg, plan, TransportCall::Begin(rb));
            seg = seg.push(TransportCall::Begin(rb));
        }
        match rb {
            Ok(()) => {},
            Err(e) => return Err(Error::Transport(e)),
        }
        let sof_buf = [sof];
        assert(sof_buf@ =~= seq![sof]);
        let rw = call_write(transport, calls, &sof_buf);
        proof {
            lemma_run_step(base, seg, plan, TransportCall::Write(sof_buf@, rw));
            seg = seg.push(TransportCall::Write(sof_buf@, rw));
        }
        match rw {
            Ok(()) => {},
            Err(e) => return Err(Error::Transport(e)),
        }

        let mut field_buf = [0u8; 4];
        encode_be(frame_id, ID, &mut field_buf);
        let whole: &[u8] = &field_buf;
        let part = whole.split_at(ID).0;
        assert(part@ =~= f_id);
        let rw = call_write(transport, calls, part);
        proof {
            lemma_run_step(base, seg, plan, TransportCall::Write(part@, rw));
            seg = seg.push(TransportCall::Write(part@, rw));
        }
        match rw {
            Ok(()) => {},
            Err(e) => return Err(Error::Transport(e)),
        }
        head_csum = add_bytes(checksum, head_csum, part);

        encode_be(len, LEN, &mut field_buf);
        let whole: &[u8] = &field_buf;
        let part = whole.split_at(LEN).0;
        assert(part@ =~= f_len);
        let rw = call_write(transport, calls, part);
        proof {
            lemma_run_step(base, seg, plan, TransportCall::Write(part@, rw));
            seg = seg.push(TransportCall::Write(part@, rw));
        }
        match rw {
            Ok(()) => {},
            Err(e) => return Err(Error::Transport(e)),
        }
        head_csum = add_bytes(checksum, head_csum, part);

        encode_be(typ, TY, &mut field_buf);
        let whole: &[u8] = &field_buf;
        let part = whole.split_at(TY).0;
        assert(part@ =~= f_ty);
        let rw = call_write(transport, calls, part);
        proof {
            lemma_run_step(base, seg, plan, TransportCall::Write(part@, rw));
            seg = seg.push(TransportCall::Write(part@, rw));
        }
        match rw {
            Ok(()) => {},
            Err(e) => return Err(Error::Transport(e)),
        }
        head_csum = add_bytes(checksum, head_csum, part);
        proof {
            lemma_run_done(seg, plan);
            crate::checksum::lemma_fold_append(k, k.spec_start(), f_id, f_len);
            crate::checksum::lemma_fold_append(k, k.spec_start(), f_id + f_len, f_ty);
            assert(header_fields(frame_id, len, typ, ID, LEN, TY) =~= f_id + f_len + f_ty);
        }
        Ok(head_csum)
    }

    /// Write the checksum field for the running value `state` (nothing for a
    /// checksum of width 0).
    pub fn write_checksum<T, K>(
        transport: &mut T,
        calls: &mut Ghost<Seq<TransportCall<T::Error>>>,
        checksum: &K,
        state: K::Value,
    ) -> (r: Result<(), Error<T::Error>>) where T: Transport, K: Checksum
        requires
            K::WIDTH <= 4,
        ensures
            extends(old(calls)@, final(calls)@),
            match r {
                Ok(()) => {
                    &&& ran_ok(appended(old(calls)@, final(calls)@), checksum_plan(*checksum, state))
                    &&& final(transport).sent() == old(transport).sent() + (if K::WIDTH > 0 {
                        checksum.spec_encode(checksum.spec_finish(state))
                    } else {
                        Seq::empty()
                    })
                },
                Err(e) => {
                    &&& ran_to_failure(appended(old(calls)@, final(calls)@), checksum_plan(*checksum, state))
                    &&& e == Error::Transport(appended(old(calls)@, final(calls)@).last().result()->Err_0)
                },
            },
            T::never_fails() ==> r is Ok,
    {
        let ghost base = calls@;
        let ghost plan = checksum_plan(*checksum, state);
        proof {
            lemma_run_start(base, plan);
        }
        if K::WIDTH > 0 {
            let mut cksum_buf = [0u8; 4];
            let used = checksum.encode(checksum.finish(state), &mut cksum_buf);
            let whole: &[u8] = &cksum_buf;
            let part = whole.split_at(used).0;
            let rw = call_write(transport, calls, part);
            proof {
                lemma_run_step(base, Seq::empty(), plan, TransportCall::Write(part@, rw));
                assert(Seq::<TransportCall<T::Error>>::empty().push(TransportCall::Write(part@, rw)).len() == 1);
                if rw is Ok {
                    lemma_run_done(Seq::<TransportCall<T::Error>>::empty().push(TransportCall::Write(part@, rw)), plan);
                }
            }
            match rw {
                Ok(()) => {},
                Err(e) => return Err(Error::Transport(e)),
            }
        } else {
            assert(old(transport).sent() + Seq::<u8>::empty() =~= old(transport).sent());
            assert(appended(old(calls)@, calls@) =~= Seq::<TransportCall<T::Error>>::empty());
            assert(calls@.subrange(0, old(calls)@.len() as int) =~= old(calls)@);
        }
        Ok(())
    }
}

} // verus!
