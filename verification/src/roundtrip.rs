use vstd::prelude::*;
use crate::checksum::{Checksum, checksum_of, codec_laws, fold_sum, lemma_fold_append, lemma_fold_take_step};
use crate::error::ParseError;
use crate::parser::{ParseStage, ParserState};
use crate::rx_parser_core::{ParsedFrameMeta, RxConfig, RxState};
use crate::tx_pipeline::{checksum_field, data_trailer, frame_bytes, header_fields};
use crate::utils::{
    FieldKind,
    be_bytes,
    be_value,
    fits,
    lemma_be_bytes_len,
    lemma_be_roundtrip,
    lemma_be_value_bound,
    lemma_or_byte,
    lemma_pow256_add,
    lemma_pow256_le4,
    lemma_pow256_pos,
    lemma_pow256_small,
    lemma_pow256_succ,
    pow256,
};

verus! {

/// No frame completed for `n` bytes.
pub open spec fn quiet(n: nat) -> Seq<Option<ParsedFrameMeta>> {
    Seq::new(n, |i: int| None::<ParsedFrameMeta>)
}

/// The parser stage that reads a header field.
pub open spec fn stage_of(kind: FieldKind) -> ParseStage {
    match kind {
        FieldKind::Id => ParseStage::Id,
        FieldKind::Len => ParseStage::Len,
        FieldKind::Type => ParseStage::Type,
    }
}

/// The value collected so far for a header field.
pub open spec fn field_of<V>(p: ParserState<V>, kind: FieldKind) -> u32 {
    match kind {
        FieldKind::Id => p.id,
        FieldKind::Len => p.len,
        FieldKind::Type => p.typ,
    }
}

/// The parser state with a header field set to `v`.
pub open spec fn with_field<V>(p: ParserState<V>, kind: FieldKind, v: u32) -> ParserState<V> {
    match kind {
        FieldKind::Id => ParserState { id: v, ..p },
        FieldKind::Len => ParserState { len: v, ..p },
        FieldKind::Type => ParserState { typ: v, ..p },
    }
}

/// Running `a + b` is running `a`, then `b`.
pub proof fn lemma_run_append<K: Checksum>(
    cfg: RxConfig<K>,
    s: RxState<K::Value>,
    a: Seq<u8>,
    b: Seq<u8>,
)
    ensures
        cfg.run(s, a + b).0 == cfg.run(cfg.run(s, a).0, b).0,
        cfg.run(s, a + b).1 == cfg.run(s, a).1 + cfg.run(cfg.run(s, a).0, b).1,
    decreases b.len(),
{
    if b.len() == 0 {
        assert(a + b =~= a);
        assert(cfg.run(s, a).1 + cfg.run(cfg.run(s, a).0, b).1 =~= cfg.run(s, a).1);
    } else {
        lemma_run_append(cfg, s, a, b.drop_last());
        assert((a + b).drop_last() =~= a + b.drop_last());
        assert((a + b).last() == b.last());
        let mid = cfg.run(s, a);
        let r1 = cfg.run(mid.0, b.drop_last());
        let last = cfg.step(r1.0, b.last());
        assert((mid.1 + r1.1).push(last.1) =~= mid.1 + r1.1.push(last.1));
    }
}

/// Running one byte is one step.
pub proof fn lemma_run_one<K: Checksum>(cfg: RxConfig<K>, s: RxState<K::Value>, b: u8)
    ensures
        cfg.run(s, seq![b]).0 == cfg.step(s, b).0,
        cfg.run(s, seq![b]).1 == seq![cfg.step(s, b).1],
{
    assert(seq![b].drop_last() =~= Seq::<u8>::empty());
    assert(cfg.run(s, Seq::<u8>::empty()).1.push(cfg.step(s, b).1) =~= seq![cfg.step(s, b).1]);
}

/// The state after the first `j` bytes of a header field, while the field is
/// not complete.
pub open spec fn field_partial<K: Checksum>(
    cfg: RxConfig<K>,
    s: RxState<K::Value>,
    kind: FieldKind,
    bytes: Seq<u8>,
    j: nat,
) -> RxState<K::Value> {
    RxState {
        parser: ParserState {
            field_idx: j as usize,
            head_checksum: fold_sum(cfg.checksum, s.parser.head_checksum, bytes.take(j as int)),
            ..with_field(
                s.parser,
                kind,
                (be_value(bytes.take(j as int)) * pow256((bytes.len() - j) as nat)) as u32,
            )
        },
        ..s
    }
}

/// Receiving the first `j` bytes of a header field, as its stage starts.
pub proof fn lemma_field_prefix<K: Checksum>(
    cfg: RxConfig<K>,
    s: RxState<K::Value>,
    kind: FieldKind,
    bytes: Seq<u8>,
    j: nat,
)
    requires
        cfg.valid(),
        bytes.len() == cfg.width_of(kind),
        j < bytes.len(),
        s.parser.stage == stage_of(kind),
        s.parser.field_idx == 0,
        field_of(s.parser, kind) == 0,
        s.parser.timeout == cfg.ticks,
    ensures
        cfg.run(s, bytes.take(j as int)).0 == field_partial(cfg, s, kind, bytes, j),
        cfg.run(s, bytes.take(j as int)).1 == quiet(j),
    decreases j,
{
    let w = bytes.len();
    if j == 0 {
        assert(bytes.take(0) =~= Seq::<u8>::empty());
        lemma_pow256_pos(w);
        assert(be_value(bytes.take(0)) == 0);
        assert(fold_sum(cfg.checksum, s.parser.head_checksum, bytes.take(0)) == s.parser.head_checksum);
        assert(with_field(s.parser, kind, 0) == s.parser);
        let z = be_value(bytes.take(0));
        let pw = pow256((bytes.len() - 0) as nat);
        assert(z * pw == 0) by (nonlinear_arith)
            requires
                z == 0,
        ;
        assert(field_partial(cfg, s, kind, bytes, 0) =~= s);
        assert(quiet(0) =~= Seq::<Option<ParsedFrameMeta>>::empty());
    } else {
        let jm = (j - 1) as nat;
        lemma_field_prefix(cfg, s, kind, bytes, jm);
        assert(bytes.take(j as int).drop_last() =~= bytes.take(jm as int));
        assert(bytes.take(j as int).last() == bytes[jm as int]);
        let prev = field_partial(cfg, s, kind, bytes, jm);
        let b = bytes[jm as int];
        let k = (w - j) as nat;
        let v_prev = be_value(bytes.take(jm as int));
        let v_new = be_value(bytes.take(j as int));
        lemma_be_value_bound(bytes.take(jm as int));
        lemma_pow256_add(jm, (k + 1) as nat);
        lemma_pow256_add(j, k);
        lemma_pow256_le4(w);
        lemma_pow256_pos(k);
        lemma_pow256_succ(k);
        let x_nat = v_prev * pow256((k + 1) as nat);
        assert(jm + (k + 1) as nat == w);
        assert(x_nat < pow256(w)) by {
            vstd::arithmetic::mul::lemma_mul_strict_inequality(
                v_prev as int,
                pow256(jm) as int,
                pow256((k + 1) as nat) as int,
            );
        }
        let x = x_nat as u32;
        assert(x as nat == x_nat);
        assert(x_nat % pow256((k + 1) as nat) == 0) by {
            vstd::arithmetic::div_mod::lemma_mod_multiples_basic(
                v_prev as int,
                pow256((k + 1) as nat) as int,
            );
        }
        lemma_or_byte(x, b, k);
        assert(v_new == v_prev * 256 + b);
        assert(x_nat + b * pow256(k) == v_new * pow256(k)) by (nonlinear_arith)
            requires
                x_nat == v_prev * pow256((k + 1) as nat),
                pow256((k + 1) as nat) == 256 * pow256(k),
                v_new == v_prev * 256 + b,
        ;
        assert(field_of(prev.parser, kind) == x);
        lemma_fold_take_step(cfg.checksum, s.parser.head_checksum, bytes, jm as int);
        assert(((cfg.width_of(kind) - 1 - prev.parser.field_idx) * 8) as u32 == (k * 8) as u32);
        let stepped = cfg.step(prev, b);
        assert(stepped.0 =~= field_partial(cfg, s, kind, bytes, j));
        assert(quiet(jm).push(None) =~= quiet(j));
    }
}

/// Receiving a whole header field: the field holds its value, the header
/// checksum has taken its bytes, and the parser moves on as `field_done` says.
pub proof fn lemma_field<K: Checksum>(
    cfg: RxConfig<K>,
    s: RxState<K::Value>,
    kind: FieldKind,
    v: u32,
)
    requires
        cfg.valid(),
        fits(v as nat, cfg.width_of(kind) as nat),
        s.parser.stage == stage_of(kind),
        s.parser.field_idx == 0,
        field_of(s.parser, kind) == 0,
        s.parser.timeout == cfg.ticks,
    ensures
        ({
            let bytes = be_bytes(v as nat, cfg.width_of(kind) as nat);
            &&& cfg.run(s, bytes).0 == cfg.field_done(
                s,
                kind,
                ParserState {
                    field_idx: 0,
                    head_checksum: fold_sum(cfg.checksum, s.parser.head_checksum, bytes),
                    ..with_field(s.parser, kind, v)
                },
            )
            &&& cfg.run(s, bytes).1 == quiet((bytes.len() - 1) as nat).push(
                cfg.done_out(
                    kind,
                    ParserState {
                        field_idx: 0,
                        head_checksum: fold_sum(cfg.checksum, s.parser.head_checksum, bytes),
                        ..with_field(s.parser, kind, v)
                    },
                ),
            )
        }),
{
    let w = cfg.width_of(kind) as nat;
    let bytes = be_bytes(v as nat, w);
    lemma_be_bytes_len(v as nat, w);
    let jm = (w - 1) as nat;
    lemma_field_prefix(cfg, s, kind, bytes, jm);
    assert(bytes.drop_last() =~= bytes.take(jm as int));
    assert(bytes.take(w as int) =~= bytes);
    let prev = field_partial(cfg, s, kind, bytes, jm);
    let b = bytes[jm as int];
    let v_prev = be_value(bytes.take(jm as int));
    lemma_be_value_bound(bytes.take(jm as int));
    lemma_pow256_add(jm, 1);
    lemma_pow256_le4(w);
    lemma_pow256_small();
    let x_nat = v_prev * 256;
    assert(pow256(1) == 256);
    assert(x_nat < pow256(w));
    let x = x_nat as u32;
    assert(x_nat % 256 == 0) by {
        vstd::arithmetic::div_mod::lemma_mod_multiples_basic(v_prev as int, 256);
    }
    lemma_or_byte(x, b, 0);
    lemma_be_roundtrip(v as nat, w);
    vstd::arithmetic::div_mod::lemma_small_mod(v as nat, pow256(w));
    assert(be_value(bytes) == v_prev * 256 + b);
    assert(be_value(bytes) == v);
    lemma_fold_take_step(cfg.checksum, s.parser.head_checksum, bytes, jm as int);
    assert(((cfg.width_of(kind) - 1 - prev.parser.field_idx) * 8) as u32 == 0u32);
    assert(cfg.run(s, bytes).0 =~= cfg.field_done(
        s,
        kind,
        ParserState {
            field_idx: 0,
            head_checksum: fold_sum(cfg.checksum, s.parser.head_checksum, bytes),
            ..with_field(s.parser, kind, v)
        },
    ));
    assert(ParserState { field_idx: 0, ..cfg.field_fold(prev.parser, b, kind) } =~= ParserState {
        field_idx: 0,
        head_checksum: fold_sum(cfg.checksum, s.parser.head_checksum, bytes),
        ..with_field(s.parser, kind, v)
    });
    lemma_run_one(cfg, prev, b);
    lemma_run_append(cfg, s, bytes.take(jm as int), seq![b]);
    assert(bytes.take(jm as int) + seq![b] =~= bytes);
}

/// `buf` with its first `j` entries replaced by those of `src`.
pub open spec fn splice(buf: Seq<u8>, src: Seq<u8>, j: nat) -> Seq<u8> {
    Seq::new(buf.len(), |i: int| if i < j { src[i] } else { buf[i] })
}

/// The state after the first `j` bytes of a checksum field.
pub open spec fn checksum_partial<V>(s: RxState<V>, enc: Seq<u8>, j: nat) -> RxState<V> {
    RxState {
        parser: ParserState {
            checksum_buf: splice(s.parser.checksum_buf, enc, j),
            checksum_idx: j as usize,
            ..s.parser
        },
        ..s
    }
}

/// Receiving the first `j` bytes of a checksum field, as its stage starts.
pub proof fn lemma_checksum_prefix<K: Checksum>(
    cfg: RxConfig<K>,
    s: RxState<K::Value>,
    enc: Seq<u8>,
    j: nat,
)
    requires
        cfg.valid(),
        0 < K::WIDTH,
        enc.len() == K::WIDTH,
        j < K::WIDTH,
        s.parser.stage == ParseStage::HeadChecksum || s.parser.stage == ParseStage::DataChecksum,
        s.parser.checksum_idx == 0,
        s.parser.checksum_buf.len() == 4,
        s.parser.timeout == cfg.ticks,
    ensures
        cfg.run(s, enc.take(j as int)).0 == checksum_partial(s, enc, j),
        cfg.run(s, enc.take(j as int)).1 == quiet(j),
    decreases j,
{
    if j == 0 {
        assert(enc.take(0) =~= Seq::<u8>::empty());
        assert(splice(s.parser.checksum_buf, enc, 0) =~= s.parser.checksum_buf);
        assert(checksum_partial(s, enc, 0) =~= s);
        assert(quiet(0) =~= Seq::<Option<ParsedFrameMeta>>::empty());
    } else {
        let jm = (j - 1) as nat;
        lemma_checksum_prefix(cfg, s, enc, jm);
        assert(enc.take(j as int).drop_last() =~= enc.take(jm as int));
        let prev = checksum_partial(s, enc, jm);
        assert(prev.parser.checksum_buf.update(jm as int, enc[jm as int]) =~= splice(
            s.parser.checksum_buf,
            enc,
            j,
        ));
        assert(cfg.step(prev, enc[jm as int]).0 =~= checksum_partial(s, enc, j));
        assert(quiet(jm).push(None) =~= quiet(j));
    }
}

/// Receiving a whole checksum field that holds the encoding of the finished
/// running checksum: it matches, and the frame completes, or, after a header
/// with a payload, the payload starts.
pub proof fn lemma_checksum_field<K: Checksum>(cfg: RxConfig<K>, s: RxState<K::Value>)
    requires
        codec_laws(cfg.checksum),
        cfg.valid(),
        0 < K::WIDTH,
        s.parser.stage == ParseStage::HeadChecksum || s.parser.stage == ParseStage::DataChecksum,
        s.parser.checksum_idx == 0,
        s.parser.checksum_buf.len() == 4,
        s.parser.timeout == cfg.ticks,
    ensures
        ({
            let k = cfg.checksum;
            let running = if s.parser.stage == ParseStage::HeadChecksum {
                s.parser.head_checksum
            } else {
                s.parser.data_checksum
            };
            let enc = k.spec_encode(k.spec_finish(running));
            let p1 = ParserState {
                checksum_buf: splice(s.parser.checksum_buf, enc, K::WIDTH as nat),
                checksum_idx: K::WIDTH,
                ..s.parser
            };
            &&& enc.len() == K::WIDTH
            &&& if s.parser.stage == ParseStage::DataChecksum || s.parser.len == 0 {
                &&& cfg.run(s, enc).0 == (RxState { parser: p1, ..s })
                &&& cfg.run(s, enc).1 == quiet((K::WIDTH - 1) as nat).push(Some(cfg.meta(p1)))
            } else {
                &&& cfg.run(s, enc).0 == (RxState {
                    parser: ParserState {
                        stage: ParseStage::Data,
                        data_idx: 0,
                        data_checksum: k.spec_start(),
                        ..p1
                    },
                    ..s
                })
                &&& cfg.run(s, enc).1 == quiet(K::WIDTH as nat)
            }
        }),
{
    let k = cfg.checksum;
    let running = if s.parser.stage == ParseStage::HeadChecksum {
        s.parser.head_checksum
    } else {
        s.parser.data_checksum
    };
    let c = k.spec_finish(running);
    let enc = k.spec_encode(c);
    assert(k.spec_encode(c).len() == K::WIDTH);
    let w = K::WIDTH as nat;
    let jm = (w - 1) as nat;
    lemma_checksum_prefix(cfg, s, enc, jm);
    assert(enc.drop_last() =~= enc.take(jm as int));
    let prev = checksum_partial(s, enc, jm);
    let buf = splice(s.parser.checksum_buf, enc, w);
    assert(prev.parser.checksum_buf.update(jm as int, enc[jm as int]) =~= buf);
    assert(buf.subrange(0, K::WIDTH as int) =~= enc);
    assert(quiet(jm).push(None) =~= quiet(w));
}

/// The state after the first `j` payload bytes.
pub open spec fn data_partial<K: Checksum>(
    cfg: RxConfig<K>,
    s: RxState<K::Value>,
    data: Seq<u8>,
    j: nat,
) -> RxState<K::Value> {
    RxState {
        parser: ParserState {
            data_idx: j as usize,
            data_checksum: fold_sum(cfg.checksum, s.parser.data_checksum, data.take(j as int)),
            ..s.parser
        },
        buf: splice(s.buf, data, j),
        ..s
    }
}

/// Receiving the first `j` payload bytes, as the payload starts.
pub proof fn lemma_data_prefix<K: Checksum>(
    cfg: RxConfig<K>,
    s: RxState<K::Value>,
    data: Seq<u8>,
    j: nat,
)
    requires
        cfg.valid(),
        s.parser.stage == ParseStage::Data,
        s.parser.data_idx == 0,
        s.parser.len == data.len(),
        data.len() <= cfg.rx,
        s.buf.len() == cfg.rx,
        j < data.len(),
        s.parser.timeout == cfg.ticks,
    ensures
        cfg.run(s, data.take(j as int)).0 == data_partial(cfg, s, data, j),
        cfg.run(s, data.take(j as int)).1 == quiet(j),
    decreases j,
{
    if j == 0 {
        assert(data.take(0) =~= Seq::<u8>::empty());
        assert(splice(s.buf, data, 0) =~= s.buf);
        assert(data_partial(cfg, s, data, 0) =~= s);
        assert(quiet(0) =~= Seq::<Option<ParsedFrameMeta>>::empty());
    } else {
        let jm = (j - 1) as nat;
        lemma_data_prefix(cfg, s, data, jm);
        assert(data.take(j as int).drop_last() =~= data.take(jm as int));
        let prev = data_partial(cfg, s, data, jm);
        assert(prev.buf.update(jm as int, data[jm as int]) =~= splice(s.buf, data, j));
        lemma_fold_take_step(cfg.checksum, s.parser.data_checksum, data, jm as int);
        assert(cfg.step(prev, data[jm as int]).0 =~= data_partial(cfg, s, data, j));
        assert(quiet(jm).push(None) =~= quiet(j));
    }
}

/// Receiving the whole payload: it is in the receive buffer, the payload
/// checksum has taken it, and the frame completes (no checksum field) or the
/// payload checksum follows.
pub proof fn lemma_data<K: Checksum>(cfg: RxConfig<K>, s: RxState<K::Value>, data: Seq<u8>)
    requires
        cfg.valid(),
        s.parser.stage == ParseStage::Data,
        s.parser.data_idx == 0,
        s.parser.len == data.len(),
        0 < data.len() <= cfg.rx,
        s.buf.len() == cfg.rx,
        s.parser.timeout == cfg.ticks,
    ensures
        ({
            let p1 = ParserState {
                data_idx: data.len() as usize,
                data_checksum: fold_sum(cfg.checksum, s.parser.data_checksum, data),
                ..s.parser
            };
            let buf = splice(s.buf, data, data.len());
            if K::WIDTH == 0 {
                &&& cfg.run(s, data).0 == (RxState { parser: p1, buf, ..s })
                &&& cfg.run(s, data).1 == quiet((data.len() - 1) as nat).push(Some(cfg.meta(p1)))
            } else {
                &&& cfg.run(s, data).0 == (RxState {
                    parser: ParserState { stage: ParseStage::DataChecksum, checksum_idx: 0, ..p1 },
                    buf,
                    ..s
                })
                &&& cfg.run(s, data).1 == quiet(data.len())
            }
        }),
{
    let n = data.len();
    let jm = (n - 1) as nat;
    lemma_data_prefix(cfg, s, data, jm);
    assert(data.drop_last() =~= data.take(jm as int));
    assert(data.take(n as int) =~= data);
    let prev = data_partial(cfg, s, data, jm);
    assert(prev.buf.update(jm as int, data[jm as int]) =~= splice(s.buf, data, n));
    lemma_fold_take_step(cfg.checksum, s.parser.data_checksum, data, jm as int);
    assert(quiet(jm).push(None) =~= quiet(n));
}

/// The parser state right after SOF: inside the ID field, everything
/// cleared, both running checksums started.
pub open spec fn started<K: Checksum>(cfg: RxConfig<K>) -> ParserState<K::Value> {
    ParserState {
        stage: ParseStage::Id,
        len: 0,
        id: 0,
        typ: 0,
        field_idx: 0,
        data_idx: 0,
        head_checksum: cfg.checksum.spec_start(),
        data_checksum: cfg.checksum.spec_start(),
        checksum_buf: seq![0u8, 0u8, 0u8, 0u8],
        checksum_idx: 0,
        timeout: cfg.ticks,
    }
}

/// Receiving SOF and the three header fields, from the SOF stage.
pub proof fn lemma_head_fields<K: Checksum>(
    cfg: RxConfig<K>,
    s: RxState<K::Value>,
    id: u32,
    len: u32,
    typ: u32,
)
    requires
        cfg.valid(),
        s.parser.stage == ParseStage::Sof,
        fits(id as nat, cfg.id_w as nat),
        fits(len as nat, cfg.len_w as nat),
        fits(typ as nat, cfg.ty_w as nat),
    ensures
        ({
            let fields = header_fields(id, len, typ, cfg.id_w, cfg.len_w, cfg.ty_w);
            let bytes = seq![cfg.sof] + fields;
            let p = ParserState {
                id,
                len,
                typ,
                head_checksum: fold_sum(cfg.checksum, cfg.checksum.spec_start(), fields),
                stage: ParseStage::Type,
                ..started(cfg)
            };
            &&& cfg.run(s, bytes).0 == cfg.field_done(
                RxState { parser: started(cfg), ..s },
                FieldKind::Type,
                p,
            )
            &&& cfg.run(s, bytes).1 == quiet((bytes.len() - 1) as nat).push(cfg.done_out(FieldKind::Type, p))
        }),
{
    let k = cfg.checksum;
    let h0 = k.spec_start();
    let fid = be_bytes(id as nat, cfg.id_w as nat);
    let flen = be_bytes(len as nat, cfg.len_w as nat);
    let fty = be_bytes(typ as nat, cfg.ty_w as nat);
    lemma_be_bytes_len(id as nat, cfg.id_w as nat);
    lemma_be_bytes_len(len as nat, cfg.len_w as nat);
    lemma_be_bytes_len(typ as nat, cfg.ty_w as nat);
    let fields = header_fields(id, len, typ, cfg.id_w, cfg.len_w, cfg.ty_w);
    assert(fields =~= fid + flen + fty);

    // SOF
    lemma_run_one(cfg, s, cfg.sof);
    let s1 = RxState { parser: started(cfg), ..s };
    assert(cfg.step(s, cfg.sof).0 =~= s1);

    // ID field
    lemma_field(cfg, s1, FieldKind::Id, id);
    let h1 = fold_sum(k, h0, fid);
    let s2 = RxState { parser: ParserState { id, head_checksum: h1, stage: ParseStage::Len, ..started(cfg) }, ..s };
    assert(cfg.run(s1, fid).0 =~= s2);

    // LEN field
    lemma_field(cfg, s2, FieldKind::Len, len);
    let h2 = fold_sum(k, h1, flen);
    let s3 = RxState {
        parser: ParserState { id, len, head_checksum: h2, stage: ParseStage::Type, ..started(cfg) },
        ..s
    };
    assert(cfg.run(s2, flen).0 =~= s3);

    // TYPE field
    lemma_field(cfg, s3, FieldKind::Type, typ);
    let h3 = fold_sum(k, h2, fty);
    lemma_fold_append(k, h0, fid, flen);
    lemma_fold_append(k, h0, fid + flen, fty);
    let p = ParserState { id, len, typ, head_checksum: h3, stage: ParseStage::Type, ..started(cfg) };
    assert(ParserState { field_idx: 0, head_checksum: h3, ..with_field(s3.parser, FieldKind::Type, typ) } =~= p);

    // compose
    let b0 = seq![cfg.sof];
    lemma_run_append(cfg, s, b0, fid);
    lemma_run_append(cfg, s, b0 + fid, flen);
    lemma_run_append(cfg, s, b0 + fid + flen, fty);
    assert(b0 + fields =~= b0 + fid + flen + fty);
    assert(quiet((fid.len() - 1) as nat).push(None) =~= quiet(fid.len()));
    assert(quiet((flen.len() - 1) as nat).push(None) =~= quiet(flen.len()));
    let out = cfg.done_out(FieldKind::Type, p);
    assert(seq![None::<ParsedFrameMeta>] + quiet(fid.len()) + quiet(flen.len()) + quiet(
        (fty.len() - 1) as nat,
    ).push(out) =~= quiet(((b0 + fields).len() - 1) as nat).push(out));
}

/// After the header fields: the bytes of the header checksum, payload and
/// payload checksum of a frame that has any of them complete it at their
/// last byte, with the payload at the start of the receive buffer.
proof fn lemma_frame_body<K: Checksum>(
    cfg: RxConfig<K>,
    s: RxState<K::Value>,
    id: u32,
    typ: u32,
    data: Seq<u8>,
)
    requires
        codec_laws(cfg.checksum),
        cfg.wf(s),
        data.len() <= cfg.rx,
        data.len() > 0 || K::WIDTH > 0,
        data.len() < 4294967296,
    ensures
        ({
            let k = cfg.checksum;
            let len = data.len() as u32;
            let fields = header_fields(id, len, typ, cfg.id_w, cfg.len_w, cfg.ty_w);
            let p = ParserState {
                id,
                len,
                typ,
                head_checksum: fold_sum(k, k.spec_start(), fields),
                stage: ParseStage::Type,
                ..started(cfg)
            };
            let s4 = cfg.field_done(RxState { parser: started(cfg), ..s }, FieldKind::Type, p);
            let body = checksum_field(k, fields) + data + data_trailer(k, data);
            let (s2, outs) = cfg.run(s4, body);
            &&& body.len() > 0
            &&& outs == quiet((body.len() - 1) as nat).push(
                Some(ParsedFrameMeta { id, typ, len: data.len() as usize }),
            )
            &&& s2.buf.subrange(0, data.len() as int) == data
            &&& s2.buf.len() == s.buf.len()
            &&& s2.error == s.error
        }),
{
    if K::WIDTH > 0 {
        if data.len() == 0 {
            lemma_body_head_only(cfg, s, id, typ, data);
        } else {
            lemma_body_checked(cfg, s, id, typ, data);
        }
    } else {
        lemma_body_unchecked(cfg, s, id, typ, data);
    }
}

proof fn lemma_body_head_only<K: Checksum>(
    cfg: RxConfig<K>,
    s: RxState<K::Value>,
    id: u32,
    typ: u32,
    data: Seq<u8>,
)
    requires
        codec_laws(cfg.checksum),
        cfg.wf(s),
        K::WIDTH > 0,
        data.len() == 0,
    ensures
        ({
            let k = cfg.checksum;
            let len = data.len() as u32;
            let fields = header_fields(id, len, typ, cfg.id_w, cfg.len_w, cfg.ty_w);
            let p = ParserState {
                id,
                len,
                typ,
                head_checksum: fold_sum(k, k.spec_start(), fields),
                stage: ParseStage::Type,
                ..started(cfg)
            };
            let s4 = cfg.field_done(RxState { parser: started(cfg), ..s }, FieldKind::Type, p);
            let body = checksum_field(k, fields) + data + data_trailer(k, data);
            let (s2, outs) = cfg.run(s4, body);
            &&& body.len() > 0
            &&& outs == quiet((body.len() - 1) as nat).push(
                Some(ParsedFrameMeta { id, typ, len: data.len() as usize }),
            )
            &&& s2.buf.subrange(0, data.len() as int) == data
            &&& s2.buf.len() == s.buf.len()
            &&& s2.error == s.error
        }),
{
    let k = cfg.checksum;
    let len = data.len() as u32;
    let fields = header_fields(id, len, typ, cfg.id_w, cfg.len_w, cfg.ty_w);
    let hsum = fold_sum(k, k.spec_start(), fields);
    let p = ParserState { id, len, typ, head_checksum: hsum, stage: ParseStage::Type, ..started(cfg) };
    let s4 = cfg.field_done(RxState { parser: started(cfg), ..s }, FieldKind::Type, p);
    let hck = checksum_field(k, fields);
    assert(k.spec_encode(k.spec_finish(hsum)).len() == K::WIDTH);
    lemma_checksum_field(cfg, s4);
    let w = K::WIDTH as nat;
    let p1 = ParserState {
        checksum_buf: splice(s4.parser.checksum_buf, hck, w),
        checksum_idx: K::WIDTH,
        ..s4.parser
    };
    assert(data_trailer(k, data) =~= Seq::<u8>::empty());
    assert(hck + data + data_trailer(k, data) =~= hck);
    assert(cfg.meta(p1) == ParsedFrameMeta { id, typ, len: data.len() as usize });
    assert(s.buf.subrange(0, 0) =~= data);
}

proof fn lemma_body_checked<K: Checksum>(
    cfg: RxConfig<K>,
    s: RxState<K::Value>,
    id: u32,
    typ: u32,
    data: Seq<u8>,
)
    requires
        codec_laws(cfg.checksum),
        cfg.wf(s),
        K::WIDTH > 0,
        0 < data.len() <= cfg.rx,
        data.len() < 4294967296,
    ensures
        ({
            let k = cfg.checksum;
            let len = data.len() as u32;
            let fields = header_fields(id, len, typ, cfg.id_w, cfg.len_w, cfg.ty_w);
            let p = ParserState {
                id,
                len,
                typ,
                head_checksum: fold_sum(k, k.spec_start(), fields),
                stage: ParseStage::Type,
                ..started(cfg)
            };
            let s4 = cfg.field_done(RxState { parser: started(cfg), ..s }, FieldKind::Type, p);
            let body = checksum_field(k, fields) + data + data_trailer(k, data);
            let (s2, outs) = cfg.run(s4, body);
            &&& body.len() > 0
            &&& outs == quiet((body.len() - 1) as nat).push(
                Some(ParsedFrameMeta { id, typ, len: data.len() as usize }),
            )
            &&& s2.buf.subrange(0, data.len() as int) == data
            &&& s2.buf.len() == s.buf.len()
            &&& s2.error == s.error
        }),
{
    let k = cfg.checksum;
    let len = data.len() as u32;
    let fields = header_fields(id, len, typ, cfg.id_w, cfg.len_w, cfg.ty_w);
    let hsum = fold_sum(k, k.spec_start(), fields);
    let p = ParserState { id, len, typ, head_checksum: hsum, stage: ParseStage::Type, ..started(cfg) };
    let s4 = cfg.field_done(RxState { parser: started(cfg), ..s }, FieldKind::Type, p);
    let hck = checksum_field(k, fields);
    let trailer = data_trailer(k, data);
    let meta = ParsedFrameMeta { id, typ, len: data.len() as usize };
    let w = K::WIDTH as nat;
    assert(k.spec_encode(k.spec_finish(hsum)).len() == K::WIDTH);
    lemma_checksum_field(cfg, s4);
    let p1 = ParserState {
        checksum_buf: splice(s4.parser.checksum_buf, hck, w),
        checksum_idx: K::WIDTH,
        ..s4.parser
    };
    let s5 = RxState {
        parser: ParserState { stage: ParseStage::Data, data_idx: 0, data_checksum: k.spec_start(), ..p1 },
        ..s4
    };
    assert(cfg.run(s4, hck).0 == s5);
    lemma_data(cfg, s5, data);
    let dsum = fold_sum(k, k.spec_start(), data);
    let p2 = ParserState { data_idx: data.len() as usize, data_checksum: dsum, ..s5.parser };
    let buf2 = splice(s5.buf, data, data.len());
    let s6 = RxState {
        parser: ParserState { stage: ParseStage::DataChecksum, checksum_idx: 0, ..p2 },
        buf: buf2,
        ..s5
    };
    assert(cfg.run(s5, data).0 == s6);
    assert(k.spec_encode(k.spec_finish(dsum)).len() == K::WIDTH);
    lemma_checksum_field(cfg, s6);
    assert(trailer == k.spec_encode(k.spec_finish(dsum)));
    let p3 = ParserState {
        checksum_buf: splice(s6.parser.checksum_buf, trailer, w),
        checksum_idx: K::WIDTH,
        ..s6.parser
    };
    assert(cfg.meta(p3) == meta);
    lemma_run_append(cfg, s4, hck, data);
    lemma_run_append(cfg, s4, hck + data, trailer);
    assert(quiet(w) + quiet(data.len()) + quiet((w - 1) as nat).push(Some(meta)) =~= quiet(
        ((hck + data + trailer).len() - 1) as nat,
    ).push(Some(meta)));
    assert(buf2.subrange(0, data.len() as int) =~= data);
}

proof fn lemma_body_unchecked<K: Checksum>(
    cfg: RxConfig<K>,
    s: RxState<K::Value>,
    id: u32,
    typ: u32,
    data: Seq<u8>,
)
    requires
        codec_laws(cfg.checksum),
        cfg.wf(s),
        K::WIDTH == 0,
        0 < data.len() <= cfg.rx,
        data.len() < 4294967296,
    ensures
        ({
            let k = cfg.checksum;
            let len = data.len() as u32;
            let fields = header_fields(id, len, typ, cfg.id_w, cfg.len_w, cfg.ty_w);
            let p = ParserState {
                id,
                len,
                typ,
                head_checksum: fold_sum(k, k.spec_start(), fields),
                stage: ParseStage::Type,
                ..started(cfg)
            };
            let s4 = cfg.field_done(RxState { parser: started(cfg), ..s }, FieldKind::Type, p);
            let body = checksum_field(k, fields) + data + data_trailer(k, data);
            let (s2, outs) = cfg.run(s4, body);
            &&& body.len() > 0
            &&& outs == quiet((body.len() - 1) as nat).push(
                Some(ParsedFrameMeta { id, typ, len: data.len() as usize }),
            )
            &&& s2.buf.subrange(0, data.len() as int) == data
            &&& s2.buf.len() == s.buf.len()
            &&& s2.error == s.error
        }),
{
    let k = cfg.checksum;
    let len = data.len() as u32;
    let fields = header_fields(id, len, typ, cfg.id_w, cfg.len_w, cfg.ty_w);
    let hsum = fold_sum(k, k.spec_start(), fields);
    let p = ParserState { id, len, typ, head_checksum: hsum, stage: ParseStage::Type, ..started(cfg) };
    let s4 = cfg.field_done(RxState { parser: started(cfg), ..s }, FieldKind::Type, p);
    assert(checksum_field(k, fields) =~= Seq::<u8>::empty());
    assert(data_trailer(k, data) =~= Seq::<u8>::empty());
    assert(checksum_field(k, fields) + data + data_trailer(k, data) =~= data);
    lemma_data(cfg, s4, data);
    let dsum = fold_sum(k, k.spec_start(), data);
    let p2 = ParserState { data_idx: data.len() as usize, data_checksum: dsum, ..s4.parser };
    assert(cfg.meta(p2) == ParsedFrameMeta { id, typ, len: data.len() as usize });
    assert(splice(s4.buf, data, data.len()).subrange(0, data.len() as int) =~= data);
}

/// Law: what the transmit path puts on the wire for a frame is received
/// back. Fed the bytes of a frame, from the SOF stage, the receiver reports
/// no frame until the last byte, which completes a frame with the sent ID,
/// type and payload length, and the payload is at the start of the receive
/// buffer. This holds for every ID, type and payload that fit their fields
/// and the receive buffer; a frame with an empty payload and a checksum of
/// width 0 completes at the last byte of its TYPE field.
pub proof fn lemma_frame_roundtrip<K: Checksum>(
    cfg: RxConfig<K>,
    s: RxState<K::Value>,
    id: u32,
    typ: u32,
    data: Seq<u8>,
)
    requires
        codec_laws(cfg.checksum),
        cfg.wf(s),
        s.parser.stage == ParseStage::Sof,
        fits(id as nat, cfg.id_w as nat),
        fits(typ as nat, cfg.ty_w as nat),
        fits(data.len(), cfg.len_w as nat),
        data.len() <= cfg.rx,
    ensures
        ({
            let bytes = frame_bytes(cfg.checksum, cfg.sof, id, typ, data, cfg.id_w, cfg.len_w, cfg.ty_w);
            let (s2, outs) = cfg.run(s, bytes);
            &&& bytes.len() > 0
            &&& outs == quiet((bytes.len() - 1) as nat).push(
                Some(ParsedFrameMeta { id, typ, len: data.len() as usize }),
            )
            &&& s2.buf.subrange(0, data.len() as int) == data
            &&& s2.buf.len() == s.buf.len()
            &&& s2.error == s.error
        }),
{
    let k = cfg.checksum;
    lemma_pow256_le4(cfg.len_w as nat);
    let len = data.len() as u32;
    assert(len as nat == data.len());
    let fields = header_fields(id, len, typ, cfg.id_w, cfg.len_w, cfg.ty_w);
    let head = seq![cfg.sof] + fields;
    lemma_head_fields(cfg, s, id, len, typ);
    if data.len() == 0 && K::WIDTH == 0 {
        let bytes = frame_bytes(k, cfg.sof, id, typ, data, cfg.id_w, cfg.len_w, cfg.ty_w);
        assert(checksum_field(k, fields) =~= Seq::<u8>::empty());
        assert(data_trailer(k, data) =~= Seq::<u8>::empty());
        assert(bytes =~= head);
        assert(s.buf.subrange(0, 0) =~= data);
    } else {
        lemma_frame_body(cfg, s, id, typ, data);
        let body = checksum_field(k, fields) + data + data_trailer(k, data);
        let bytes = frame_bytes(k, cfg.sof, id, typ, data, cfg.id_w, cfg.len_w, cfg.ty_w);
        assert(bytes =~= head + body);
        lemma_run_append(cfg, s, head, body);
        let meta = ParsedFrameMeta { id, typ, len: data.len() as usize };
        assert(quiet(head.len()) + quiet((body.len() - 1) as nat).push(Some(meta)) =~= quiet(
            (bytes.len() - 1) as nat,
        ).push(Some(meta)));
    }
}

/// Law: a frame whose header checksum field does not hold the checksum of
/// its ID, LEN and TYPE bytes is rejected, whatever its payload length: fed
/// SOF, the header fields and such a checksum field from the SOF stage, the
/// receiver completes no frame, records `ChecksumMismatch`, and waits for
/// the next SOF with a cleared parser; the receive buffer stays as it was.
pub proof fn lemma_corrupt_header_rejected<K: Checksum>(
    cfg: RxConfig<K>,
    s: RxState<K::Value>,
    id: u32,
    len: u32,
    typ: u32,
    field: Seq<u8>,
)
    requires
        cfg.wf(s),
        s.parser.stage == ParseStage::Sof,
        0 < K::WIDTH,
        fits(id as nat, cfg.id_w as nat),
        fits(len as nat, cfg.len_w as nat),
        fits(typ as nat, cfg.ty_w as nat),
        len <= cfg.rx,
        field.len() == K::WIDTH,
        cfg.checksum.spec_decode(field) != checksum_of(
            cfg.checksum,
            header_fields(id, len, typ, cfg.id_w, cfg.len_w, cfg.ty_w),
        ),
    ensures
        ({
            let bytes = seq![cfg.sof] + header_fields(id, len, typ, cfg.id_w, cfg.len_w, cfg.ty_w)
                + field;
            let (s2, outs) = cfg.run(s, bytes);
            &&& outs == quiet(bytes.len())
            &&& s2.error == Some(ParseError::ChecksumMismatch)
            &&& s2.parser.stage == ParseStage::Sof
            &&& s2.parser == s2.parser.reset()
            &&& s2.buf == s.buf
        }),
{
    let k = cfg.checksum;
    let fields = header_fields(id, len, typ, cfg.id_w, cfg.len_w, cfg.ty_w);
    let head = seq![cfg.sof] + fields;
    lemma_head_fields(cfg, s, id, len, typ);
    let p = ParserState {
        id,
        len,
        typ,
        head_checksum: fold_sum(k, k.spec_start(), fields),
        stage: ParseStage::Type,
        ..started(cfg)
    };
    let s4 = cfg.field_done(RxState { parser: started(cfg), ..s }, FieldKind::Type, p);
    assert(s4.parser == ParserState { stage: ParseStage::HeadChecksum, checksum_idx: 0, ..p });
    assert(quiet((head.len() - 1) as nat).push(None) =~= quiet(head.len()));
    let w = K::WIDTH as nat;
    let jm = (w - 1) as nat;
    lemma_checksum_prefix(cfg, s4, field, jm);
    let prev = checksum_partial(s4, field, jm);
    let b = field[jm as int];
    let buf = splice(s4.parser.checksum_buf, field, w);
    assert(prev.parser.checksum_buf.update(jm as int, b) =~= buf);
    assert(buf.subrange(0, K::WIDTH as int) =~= field);
    lemma_run_one(cfg, prev, b);
    assert(field.take(jm as int) + seq![b] =~= field);
    lemma_run_append(cfg, s4, field.take(jm as int), seq![b]);
    lemma_run_append(cfg, s, head, field);
    assert(quiet(head.len()) + (quiet(jm) + seq![None::<ParsedFrameMeta>]) =~= quiet(
        (head + field).len(),
    ));
}

/// Law: a frame whose payload checksum field does not hold the checksum of
/// its payload is rejected: fed a frame with a right header and header
/// checksum, a non-empty payload and such a payload checksum field, from the
/// SOF stage, the receiver completes no frame, records `ChecksumMismatch`,
/// and waits for the next SOF with a cleared parser.
pub proof fn lemma_corrupt_payload_rejected<K: Checksum>(
    cfg: RxConfig<K>,
    s: RxState<K::Value>,
    id: u32,
    typ: u32,
    data: Seq<u8>,
    field: Seq<u8>,
)
    requires
        codec_laws(cfg.checksum),
        cfg.wf(s),
        s.parser.stage == ParseStage::Sof,
        0 < K::WIDTH,
        fits(id as nat, cfg.id_w as nat),
        fits(typ as nat, cfg.ty_w as nat),
        fits(data.len(), cfg.len_w as nat),
        0 < data.len() <= cfg.rx,
        field.len() == K::WIDTH,
        cfg.checksum.spec_decode(field) != checksum_of(cfg.checksum, data),
    ensures
        ({
            let k = cfg.checksum;
            let fields = header_fields(id, data.len() as u32, typ, cfg.id_w, cfg.len_w, cfg.ty_w);
            let bytes = seq![cfg.sof] + fields + checksum_field(k, fields) + data + field;
            let (s2, outs) = cfg.run(s, bytes);
            &&& outs == quiet(bytes.len())
            &&& s2.error == Some(ParseError::ChecksumMismatch)
            &&& s2.parser.stage == ParseStage::Sof
            &&& s2.parser == s2.parser.reset()
        }),
{
    let k = cfg.checksum;
    lemma_pow256_le4(cfg.len_w as nat);
    let len = data.len() as u32;
    assert(len as nat == data.len());
    let fields = header_fields(id, len, typ, cfg.id_w, cfg.len_w, cfg.ty_w);
    let head = seq![cfg.sof] + fields;
    lemma_head_fields(cfg, s, id, len, typ);
    let hsum = fold_sum(k, k.spec_start(), fields);
    let p = ParserState { id, len, typ, head_checksum: hsum, stage: ParseStage::Type, ..started(cfg) };
    let s4 = cfg.field_done(RxState { parser: started(cfg), ..s }, FieldKind::Type, p);
    assert(quiet((head.len() - 1) as nat).push(None) =~= quiet(head.len()));
    let hck = checksum_field(k, fields);
    let w = K::WIDTH as nat;
    assert(k.spec_encode(k.spec_finish(hsum)).len() == K::WIDTH);
    lemma_checksum_field(cfg, s4);
    let p1 = ParserState {
        checksum_buf: splice(s4.parser.checksum_buf, hck, w),
        checksum_idx: K::WIDTH,
        ..s4.parser
    };
    let s5 = RxState {
        parser: ParserState { stage: ParseStage::Data, data_idx: 0, data_checksum: k.spec_start(), ..p1 },
        ..s4
    };
    assert(cfg.run(s4, hck).0 == s5);
    lemma_data(cfg, s5, data);
    let dsum = fold_sum(k, k.spec_start(), data);
    let p2 = ParserState { data_idx: data.len() as usize, data_checksum: dsum, ..s5.parser };
    let buf2 = splice(s5.buf, data, data.len());
    let s6 = RxState {
        parser: ParserState { stage: ParseStage::DataChecksum, checksum_idx: 0, ..p2 },
        buf: buf2,
        ..s5
    };
    assert(cfg.run(s5, data).0 == s6);
    let jm = (w - 1) as nat;
    lemma_checksum_prefix(cfg, s6, field, jm);
    let prev = checksum_partial(s6, field, jm);
    let b = field[jm as int];
    let cbuf = splice(s6.parser.checksum_buf, field, w);
    assert(prev.parser.checksum_buf.update(jm as int, b) =~= cbuf);
    assert(cbuf.subrange(0, K::WIDTH as int) =~= field);
    lemma_run_one(cfg, prev, b);
    assert(field.take(jm as int) + seq![b] =~= field);
    lemma_run_append(cfg, s6, field.take(jm as int), seq![b]);
    lemma_run_append(cfg, s4, hck, data);
    lemma_run_append(cfg, s4, hck + data, field);
    lemma_run_append(cfg, s, head, hck + data + field);
    assert(seq![cfg.sof] + fields + hck + data + field =~= head + (hck + data + field));
    assert(quiet(head.len()) + (quiet(w) + quiet(data.len()) + (quiet(jm) + seq![None::<ParsedFrameMeta>]))
        =~= quiet((head + (hck + data + field)).len()));
}

} // verus!