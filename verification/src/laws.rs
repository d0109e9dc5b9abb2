use vstd::prelude::*;
use crate::checksum::{Checksum, codec_laws, fold_sum, lemma_fold_append};
use crate::error::Error;
use crate::frame::Frame;
use crate::parser::ParseStage;
use crate::roundtrip::{lemma_frame_roundtrip, quiet};
use crate::rx_parser_core::{ParsedFrameMeta, RxConfig, RxState};
use crate::strategy::{IdAllocator, alloc_laws};
use crate::transport::Transport;
use crate::tx_core::{MultipartTx, TxCore, multipart_trailer};
use crate::tx_pipeline::{data_trailer, frame_bytes};
use crate::listener::IdListener;
use crate::observer_store::{add_outcome, remove_slot_outcome, tick_slot, tick_table};
use crate::parser::ParserState;
use crate::tx_pipeline::header_fields;
use crate::utils::{fits, lemma_be_bytes_len, valid_width};

verus! {

/// The ID a frame goes out with fits the ID field.
proof fn lemma_chosen_id_fits<T, K, A, const ID: usize, const LEN: usize, const TY: usize>(
    old: TxCore<T, K, A, ID, LEN, TY>,
    frame: Frame,
) where T: Transport, K: Checksum, A: IdAllocator
    requires
        old.widths_ok(),
        alloc_laws(old.id_allocator),
        fits(frame.id as nat, ID as nat),
    ensures
        fits(old.id_choice(frame).2 as nat, ID as nat),
{
    if TxCore::<T, K, A, ID, LEN, TY>::allocates(frame) {
        assert(valid_width(ID as int));
        let _ = old.id_allocator.spec_alloc(old.next_id, old.peer_master, ID as nat);
    }
}

/// Law: a frame that `send` handed to the transport is received back by a
/// receiver configured alike (same SOF, checksum and field widths), from its
/// SOF stage: the bytes that `send` added to the transport complete, at their
/// last byte, a frame with the ID the frame went out with, its type and its
/// payload, which is at the start of the receive buffer. A payload longer
/// than the receive buffer is the exception.
pub proof fn lemma_send_then_receive<T, K, A, const ID: usize, const LEN: usize, const TY: usize>(
    old: TxCore<T, K, A, ID, LEN, TY>,
    new: TxCore<T, K, A, ID, LEN, TY>,
    frame: Frame,
    data: Seq<u8>,
    r: Result<(), Error<T::Error>>,
    cfg: RxConfig<K>,
    s: RxState<K::Value>,
) where T: Transport, K: Checksum, A: IdAllocator
    requires
        codec_laws(old.checksum),
        alloc_laws(old.id_allocator),
        TxCore::<T, K, A, ID, LEN, TY>::send_outcome(old, new, frame, data, r),
        r is Ok,
        cfg.checksum == old.checksum,
        cfg.sof == old.sof,
        cfg.id_w == ID,
        cfg.len_w == LEN,
        cfg.ty_w == TY,
        cfg.wf(s),
        s.parser.stage == ParseStage::Sof,
        data.len() <= cfg.rx,
    ensures
        ({
            let wire = new.transport.sent().subrange(
                old.transport.sent().len() as int,
                new.transport.sent().len() as int,
            );
            let (s2, outs) = cfg.run(s, wire);
            &&& new.transport.sent() == old.transport.sent() + wire
            &&& wire.len() > 0
            &&& outs == quiet((wire.len() - 1) as nat).push(
                Some(ParsedFrameMeta { id: old.id_choice(frame).2, typ: frame.typ, len: data.len() as usize }),
            )
            &&& s2.buf.subrange(0, data.len() as int) == data
        }),
{
    lemma_chosen_id_fits(old, frame);
    let id = old.id_choice(frame).2;
    let bytes = frame_bytes(old.checksum, old.sof, id, frame.typ, data, ID, LEN, TY);
    lemma_frame_roundtrip(cfg, s, id, frame.typ, data);
    let o = old.transport.sent();
    assert(new.transport.sent().subrange(o.len() as int, new.transport.sent().len() as int) =~= bytes);
}

/// The stream of payload parts of a multipart frame, one successful
/// `multipart_payload` after another.
pub open spec fn payload_chain<T, K, A, const ID: usize, const LEN: usize, const TY: usize>(
    trace: Seq<TxCore<T, K, A, ID, LEN, TY>>,
    parts: Seq<Seq<u8>>,
) -> bool where T: Transport, K: Checksum, A: IdAllocator {
    &&& trace.len() == parts.len() + 1
    &&& forall|i: int|
        0 <= i < parts.len() ==> TxCore::<T, K, A, ID, LEN, TY>::multipart_payload_outcome(
            #[trigger] trace[i],
            trace[i + 1],
            parts[i],
            Ok(()),
        )
}

/// Streaming parts puts their concatenation on the wire and folds it into
/// the payload checksum; the count of streamed bytes is their total length
/// as long as it fits.
#[verifier::spinoff_prover]
#[verifier::rlimit(40)]
pub proof fn lemma_payload_chain<T, K, A, const ID: usize, const LEN: usize, const TY: usize>(
    trace: Seq<TxCore<T, K, A, ID, LEN, TY>>,
    parts: Seq<Seq<u8>>,
) where T: Transport, K: Checksum, A: IdAllocator
    requires
        payload_chain(trace, parts),
        trace[0].multipart is Some,
        forall|i: int| 0 <= i < parts.len() ==> #[trigger] parts[i].len() <= u32::MAX,
        trace[0].multipart->Some_0.sent + parts.flatten().len() <= u32::MAX,
    ensures
        ({
            let m0 = trace[0].multipart->Some_0;
            let last = trace.last();
            &&& last.transport.sent() == trace[0].transport.sent() + parts.flatten()
            &&& last.checksum == trace[0].checksum
            &&& last.sof == trace[0].sof
            &&& last.multipart == Some(
                MultipartTx {
                    expected_len: m0.expected_len,
                    sent: (m0.sent + parts.flatten().len()) as u32,
                    data_checksum: fold_sum(trace[0].checksum, m0.data_checksum, parts.flatten()),
                },
            )
        }),
    decreases parts.len(),
{
    let m0 = trace[0].multipart->Some_0;
    if parts.len() == 0 {
        assert(parts.flatten() =~= Seq::<u8>::empty());
        assert(trace[0].transport.sent() + Seq::<u8>::empty() =~= trace[0].transport.sent());
    } else {
        let n = parts.len() - 1;
        let prefix = trace.take(n + 1);
        assert(payload_chain(prefix, parts.drop_last())) by {
            assert forall|i: int| 0 <= i < parts.drop_last().len() implies
                TxCore::<T, K, A, ID, LEN, TY>::multipart_payload_outcome(
                    #[trigger] prefix[i],
                    prefix[i + 1],
                    parts.drop_last()[i],
                    Ok(()),
                ) by {
                assert(TxCore::<T, K, A, ID, LEN, TY>::multipart_payload_outcome(
                    trace[i],
                    trace[i + 1],
                    parts[i],
                    Ok(()),
                ));
            }
        }
        assert(parts.flatten() =~= parts.drop_last().flatten() + parts.last()) by {
            parts.lemma_flatten_and_flatten_alt_are_equivalent();
            parts.drop_last().lemma_flatten_and_flatten_alt_are_equivalent();
        }
        assert(forall|i: int|
            0 <= i < parts.drop_last().len() ==> #[trigger] parts.drop_last()[i].len() <= u32::MAX);
        lemma_payload_chain(prefix, parts.drop_last());
        assert(prefix.last() == trace[n]);
        assert(TxCore::<T, K, A, ID, LEN, TY>::multipart_payload_outcome(
            trace[n],
            trace[n + 1],
            parts[n],
            Ok(()),
        ));
        lemma_fold_append(trace[0].checksum, m0.data_checksum, parts.drop_last().flatten(), parts.last());
        assert((parts.last().len() as u32) as nat == parts.last().len());
    }
}

/// Law: a multipart transmission puts on the wire exactly the bytes that
/// one `send` of the concatenated payload would: `begin_multipart` with the
/// payload length, successful `multipart_payload` calls whose parts make up
/// the payload, and a successful `multipart_close`.
#[verifier::spinoff_prover]
#[verifier::rlimit(40)]
pub proof fn lemma_multipart_is_send<T, K, A, const ID: usize, const LEN: usize, const TY: usize>(
    start: TxCore<T, K, A, ID, LEN, TY>,
    frame: Frame,
    len: u32,
    begun: Result<u32, Error<T::Error>>,
    trace: Seq<TxCore<T, K, A, ID, LEN, TY>>,
    parts: Seq<Seq<u8>>,
    closed: TxCore<T, K, A, ID, LEN, TY>,
    close_result: Result<(), Error<T::Error>>,
) where T: Transport, K: Checksum, A: IdAllocator
    requires
        start.widths_ok(),
        !start.tx_busy,
        start.multipart is None,
        TxCore::<T, K, A, ID, LEN, TY>::header_fits(len as nat, frame.id, frame.typ),
        TxCore::<T, K, A, ID, LEN, TY>::begin_multipart_outcome(start, trace[0], frame, len, begun),
        begun is Ok,
        payload_chain(trace, parts),
        forall|i: int| 0 <= i < parts.len() ==> #[trigger] parts[i].len() <= u32::MAX,
        parts.flatten().len() == len,
        TxCore::<T, K, A, ID, LEN, TY>::multipart_close_outcome(trace.last(), closed, close_result),
        close_result is Ok,
    ensures
        closed.transport.sent() == start.transport.sent() + frame_bytes(
            start.checksum,
            start.sof,
            begun->Ok_0,
            frame.typ,
            parts.flatten(),
            ID,
            LEN,
            TY,
        ),
        begun->Ok_0 == start.id_choice(frame).2,
{
    lemma_payload_chain(trace, parts);
    let data = parts.flatten();
    let k = start.checksum;
    let id = begun->Ok_0;
    let part = trace.last().multipart->Some_0;
    assert(part.sent == part.expected_len);
    assert(multipart_trailer(k, part) == data_trailer(k, data));
    assert(closed.transport.sent() =~= start.transport.sent() + frame_bytes(
        k,
        start.sof,
        id,
        frame.typ,
        data,
        ID,
        LEN,
        TY,
    ));
}

/// Law: freeing the slot that registering a listener returned frees it
/// again: the removal reports a listener, and the table is as before the
/// registration.
pub proof fn lemma_add_then_remove<X, E>(
    table: Seq<Option<X>>,
    added: Seq<Option<X>>,
    entry: X,
    r: Result<usize, Error<E>>,
    removed: Seq<Option<X>>,
    found: bool,
)
    requires
        add_outcome(table, added, entry, r),
        r is Ok,
        remove_slot_outcome(added, removed, r->Ok_0, found),
    ensures
        found,
        removed == table,
{
    let slot = r->Ok_0 as int;
    assert(removed =~= table);
}

/// The listener tables after `n` timer ticks.
pub open spec fn ticks_table<F>(table: Seq<Option<IdListener<F>>>, n: nat) -> Seq<
    Option<IdListener<F>>,
>
    decreases n,
{
    if n == 0 {
        table
    } else {
        tick_table(ticks_table(table, (n - 1) as nat))
    }
}

/// Law: an ID listener registered with a timeout of `t > 0` ticks is still
/// there, with `t - n` ticks left, after `n < t` ticks, and gone after `t`
/// ticks. A listener with timeout 0 never times out. (The tick at which it
/// goes is the one at which `expires` holds of its slot, and the tick then
/// calls it, as `timeout_notifications` states.)
pub proof fn lemma_listener_timeout<F>(table: Seq<Option<IdListener<F>>>, i: int, n: nat)
    requires
        0 <= i < table.len(),
        table[i] is Some,
    ensures
        ticks_table(table, n).len() == table.len(),
        ({
            let l = table[i]->Some_0;
            &&& l.timeout_left == 0 ==> ticks_table(table, n)[i] == table[i]
            &&& 0 < n < l.timeout_left ==> ticks_table(table, n)[i] == Some(
                IdListener { timeout_left: (l.timeout_left - n) as u16, ..l },
            )
            &&& 0 < l.timeout_left <= n ==> ticks_table(table, n)[i] is None
        }),
    decreases n,
{
    if n > 0 {
        lemma_listener_timeout(table, i, (n - 1) as nat);
        let prev = ticks_table(table, (n - 1) as nat);
        assert(tick_table(prev)[i] == tick_slot(prev[i]));
        let l = table[i]->Some_0;
        if n - 1 == 0 {
            assert(prev == table);
        }
    }
}

/// The receive state after `n` timer ticks.
pub open spec fn ticks_rx<V>(s: RxState<V>, n: nat) -> RxState<V>
    decreases n,
{
    if n == 0 {
        s
    } else {
        ticks_rx(s, (n - 1) as nat).tick()
    }
}

/// Law: a partly received frame is dropped when no byte arrives for as many
/// ticks as its timeout: with `t > 0` ticks left, the parser is unchanged
/// but for the count after `n < t` ticks, and back to waiting for SOF, all
/// cleared, after `t` ticks. Receive buffer and recorded error stay.
pub proof fn lemma_parser_timeout<V>(s: RxState<V>, n: nat)
    requires
        s.parser.timeout > 0,
    ensures
        ticks_rx(s, n).buf == s.buf,
        ticks_rx(s, n).error == s.error,
        n < s.parser.timeout ==> ticks_rx(s, n).parser == (ParserState {
            timeout: (s.parser.timeout - n) as u16,
            ..s.parser
        }),
        s.parser.timeout <= n ==> ticks_rx(s, n).parser == s.parser.reset(),
    decreases n,
{
    if n > 0 {
        lemma_parser_timeout(s, (n - 1) as nat);
        let prev = ticks_rx(s, (n - 1) as nat);
        if n - 1 == 0 {
            assert(prev == s);
        }
        if s.parser.timeout < n {
            assert(prev.parser.timeout == 0);
            assert(prev.tick() == prev);
        }
    }
}

/// Law: bytes other than SOF, arriving while the parser waits for SOF, are
/// ignored: they complete no frame and change nothing.
pub proof fn lemma_noise_ignored<K: Checksum>(cfg: RxConfig<K>, s: RxState<K::Value>, noise: Seq<u8>)
    requires
        s.parser.stage == ParseStage::Sof,
        forall|i: int| 0 <= i < noise.len() ==> noise[i] != cfg.sof,
    ensures
        cfg.run(s, noise).0 == s,
        cfg.run(s, noise).1 == quiet(noise.len()),
    decreases noise.len(),
{
    if noise.len() == 0 {
        assert(quiet(0) =~= Seq::<Option<ParsedFrameMeta>>::empty());
    } else {
        lemma_noise_ignored(cfg, s, noise.drop_last());
        assert(quiet((noise.len() - 1) as nat).push(None) =~= quiet(noise.len()));
    }
}

/// Law: SOF is a framing sentinel outside checksum coverage: frames that
/// differ only in their SOF byte agree on every other byte, checksums
/// included.
pub proof fn lemma_sof_not_covered<K: Checksum>(
    k: K,
    sof1: u8,
    sof2: u8,
    id: u32,
    typ: u32,
    data: Seq<u8>,
    id_w: usize,
    len_w: usize,
    ty_w: usize,
)
    ensures
        frame_bytes(k, sof1, id, typ, data, id_w, len_w, ty_w)[0] == sof1,
        frame_bytes(k, sof1, id, typ, data, id_w, len_w, ty_w).drop_first() == frame_bytes(
            k,
            sof2,
            id,
            typ,
            data,
            id_w,
            len_w,
            ty_w,
        ).drop_first(),
{
    let f1 = frame_bytes(k, sof1, id, typ, data, id_w, len_w, ty_w);
    let f2 = frame_bytes(k, sof2, id, typ, data, id_w, len_w, ty_w);
    assert(f1.drop_first() =~= f2.drop_first());
}

/// Law: the length of a frame on the wire: SOF, the three fields, a header
/// checksum field, the payload, and a payload checksum field when there is a
/// payload. With a checksum of width 0 no checksum byte is sent at all.
pub proof fn lemma_frame_length<K: Checksum>(
    k: K,
    sof: u8,
    id: u32,
    typ: u32,
    data: Seq<u8>,
    id_w: usize,
    len_w: usize,
    ty_w: usize,
)
    requires
        codec_laws(k),
    ensures
        frame_bytes(k, sof, id, typ, data, id_w, len_w, ty_w).len() == 1 + id_w + len_w + ty_w + K::WIDTH
            + data.len() + if data.len() > 0 {
            K::WIDTH as int
        } else {
            0
        },
{
    lemma_be_bytes_len(id as nat, id_w as nat);
    lemma_be_bytes_len(data.len() as u32 as nat, len_w as nat);
    lemma_be_bytes_len(typ as nat, ty_w as nat);
    let fields = header_fields(id, data.len() as u32, typ, id_w, len_w, ty_w);
    assert(k.spec_encode(crate::checksum::checksum_of(k, fields)).len() == K::WIDTH);
    assert(k.spec_encode(crate::checksum::checksum_of(k, data)).len() == K::WIDTH);
}

/// Law: in every state the receive path is in between bytes (those that
/// `wf` describes: `TinyFrame::new` starts in one, and `accept_byte`,
/// `tick` and `reset_parser` keep it), the receive buffer has its capacity,
/// and each counter of the parser lies inside what it counts: a field index
/// inside its field of at most 4 bytes and 0 outside the header fields, a
/// checksum index inside a checksum field of at most 4 bytes, a payload index
/// below the payload length while receiving the payload and equal to it while
/// receiving its checksum, and a payload length within the receive buffer
/// once the header is complete.
pub proof fn lemma_parser_bounds<K: Checksum>(cfg: RxConfig<K>, s: RxState<K::Value>)
    requires
        cfg.wf(s),
    ensures
        s.buf.len() == cfg.rx,
        s.parser.checksum_buf.len() == 4,
        s.parser.stage == ParseStage::Id || s.parser.stage == ParseStage::Len || s.parser.stage
            == ParseStage::Type ==> s.parser.field_idx < 4,
        s.parser.stage.compares_checksum() ==> s.parser.checksum_idx < K::WIDTH <= 4 && s.parser.len
            <= cfg.rx,
        s.parser.stage == ParseStage::Data ==> s.parser.data_idx < s.parser.len <= cfg.rx,
        s.parser.stage == ParseStage::DataChecksum ==> s.parser.data_idx == s.parser.len <= cfg.rx,
        !(s.parser.stage == ParseStage::Id || s.parser.stage == ParseStage::Len || s.parser.stage
            == ParseStage::Type) ==> s.parser.field_idx == 0,
{
}

/// Law: every byte after which the parser is inside a frame leaves its
/// timeout at the configured tick count: a frame's SOF arms it, and each
/// later byte of the frame re-arms it.
pub proof fn lemma_byte_rearms_timeout<K: Checksum>(cfg: RxConfig<K>, s: RxState<K::Value>, byte: u8)
    ensures
        cfg.step(s, byte).0.parser.stage != ParseStage::Sof ==> cfg.step(s, byte).0.parser.timeout
            == cfg.ticks,
{
}

/// Law: a frame whose bytes come less than the configured timeout apart is
/// not dropped: after a byte that leaves the parser inside a frame, `n`
/// ticks with `n` below the timeout leave the parser as the byte left it but
/// for the count of ticks left, and keep the receive buffer and the recorded
/// error.
pub proof fn lemma_frame_survives_ticks<K: Checksum>(
    cfg: RxConfig<K>,
    s: RxState<K::Value>,
    byte: u8,
    n: nat,
)
    requires
        cfg.step(s, byte).0.parser.stage != ParseStage::Sof,
        n < cfg.ticks,
    ensures
        ({
            let s1 = cfg.step(s, byte).0;
            &&& ticks_rx(s1, n).parser == (ParserState { timeout: (cfg.ticks - n) as u16, ..s1.parser })
            &&& ticks_rx(s1, n).buf == s1.buf
            &&& ticks_rx(s1, n).error == s1.error
        }),
{
    lemma_byte_rearms_timeout(cfg, s, byte);
    lemma_parser_timeout(cfg.step(s, byte).0, n);
}

} // verus!
