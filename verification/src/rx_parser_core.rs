use vstd::prelude::*;
use crate::checksum::{Checksum, value_eq_laws};
use crate::error::ParseError;
use crate::parser::{ParseStage, Parser, ParserState};
use crate::utils::{valid_width, FieldKind};

verus! {

broadcast use vstd::array::group_array_axioms;

/// Header of a completely received frame; its payload is the first `len`
/// bytes of the receive buffer.
#[derive(Clone, Copy, Debug)]
pub struct ParsedFrameMeta {
    pub id: u32,
    pub typ: u32,
    pub len: usize,
}

/// The mathematical state of the receive path: parser, receive buffer and
/// last recorded parse error.
#[verifier::ext_equal]
pub ghost struct RxState<V> {
    pub parser: ParserState<V>,
    pub buf: Seq<u8>,
    pub error: Option<ParseError>,
}

impl<V> RxState<V> {
    /// One timer tick: count the parser timeout down, and drop a partial frame
    /// when it runs out.
    pub open spec fn tick(self) -> Self {
        if self.parser.timeout > 0 {
            let p = ParserState { timeout: (self.parser.timeout - 1) as u16, ..self.parser };
            if p.timeout == 0 {
                RxState { parser: p.reset(), ..self }
            } else {
                RxState { parser: p, ..self }
            }
        } else {
            self
        }
    }
}

/// The configuration the receive path runs with.
pub ghost struct RxConfig<K> {
    pub checksum: K,
    /// Capacity of the receive buffer (maximum accepted payload length).
    pub rx: nat,
    /// Parser timeout in ticks, re-armed on every byte inside a frame.
    pub ticks: u16,
    pub sof: u8,
    /// Widths of the ID, LEN and TYPE fields.
    pub id_w: usize,
    pub len_w: usize,
    pub ty_w: usize,
}

impl<K: Checksum> RxConfig<K> {
    pub open spec fn width_of(self, kind: FieldKind) -> usize {
        match kind {
            FieldKind::Id => self.id_w,
            FieldKind::Len => self.len_w,
            FieldKind::Type => self.ty_w,
        }
    }

    /// The configurations the parser is defined for.
    pub open spec fn valid(self) -> bool {
        &&& valid_width(self.id_w as int)
        &&& valid_width(self.len_w as int)
        &&& valid_width(self.ty_w as int)
        &&& K::WIDTH <= 4
    }

    /// Parser states that occur between bytes: every counter is inside the
    /// field it counts.
    pub open spec fn parser_wf(self, p: ParserState<K::Value>) -> bool {
        &&& p.checksum_buf.len() == 4
        &&& match p.stage {
            ParseStage::Sof => p.field_idx == 0,
            ParseStage::Id => p.field_idx < self.id_w,
            ParseStage::Len => p.field_idx < self.len_w,
            ParseStage::Type => p.field_idx < self.ty_w,
            ParseStage::HeadChecksum => p.field_idx == 0 && 0 < K::WIDTH && p.checksum_idx < K::WIDTH
                && p.len <= self.rx,
            ParseStage::Data => p.field_idx == 0 && p.data_idx < p.len && p.len <= self.rx,
            ParseStage::DataChecksum => p.field_idx == 0 && 0 < K::WIDTH && p.checksum_idx < K::WIDTH
                && 0 < p.len <= self.rx && p.data_idx == p.len,
        }
    }

    pub open spec fn wf(self, s: RxState<K::Value>) -> bool {
        &&& self.valid()
        &&& s.buf.len() == self.rx
        &&& self.parser_wf(s.parser)
    }

    /// The header of the frame that the parser holds.
    pub open spec fn meta(self, p: ParserState<K::Value>) -> ParsedFrameMeta {
        ParsedFrameMeta { id: p.id, typ: p.typ, len: p.len as usize }
    }

    /// One byte of a header field: fold it into the running header checksum
    /// and into the field, most significant byte first; at the end of the
    /// field move to the next part of the frame.
    pub open spec fn field_step(self, s: RxState<K::Value>, byte: u8, kind: FieldKind) -> RxState<
        K::Value,
    > {
        let p1 = self.field_fold(s.parser, byte, kind);
        if p1.field_idx < self.width_of(kind) {
            RxState { parser: p1, ..s }
        } else {
            self.field_done(s, kind, ParserState { field_idx: 0, ..p1 })
        }
    }

    /// The parser after folding one byte into a header field: into the
    /// running header checksum and into the field, most significant byte
    /// first.
    pub open spec fn field_fold(self, p: ParserState<K::Value>, byte: u8, kind: FieldKind) -> ParserState<
        K::Value,
    > {
        let bits = (byte as u32) << (((self.width_of(kind) - 1 - p.field_idx) * 8) as u32);
        ParserState {
            head_checksum: self.checksum.spec_add(p.head_checksum, byte),
            len: if kind == FieldKind::Len { p.len | bits } else { p.len },
            id: if kind == FieldKind::Id { p.id | bits } else { p.id },
            typ: if kind == FieldKind::Type { p.typ | bits } else { p.typ },
            field_idx: (p.field_idx + 1) as usize,
            ..p
        }
    }

    /// The frame that a header byte completes, if any: at the end of TYPE, a
    /// frame with neither payload nor checksum field is complete.
    pub open spec fn field_out(self, s: RxState<K::Value>, byte: u8, kind: FieldKind) -> Option<
        ParsedFrameMeta,
    > {
        let p1 = self.field_fold(s.parser, byte, kind);
        if p1.field_idx >= self.width_of(kind) {
            self.done_out(kind, ParserState { field_idx: 0, ..p1 })
        } else {
            None
        }
    }

    /// The frame that the end of a header field completes (`p` is the parser
    /// after it): after TYPE, one with an empty payload and no checksum field.
    pub open spec fn done_out(self, kind: FieldKind, p: ParserState<K::Value>) -> Option<ParsedFrameMeta> {
        if kind == FieldKind::Type && p.len == 0 && K::WIDTH == 0 {
            Some(self.meta(p))
        } else {
            None
        }
    }

    /// The end of a header field (`p` holds the completed field): move on to
    /// the next field; after TYPE, reject a payload longer than the receive
    /// buffer, else expect the header checksum, or with no checksum field the
    /// payload. A frame with neither payload nor checksum field is complete
    /// there (`done_out`); the parser keeps its header until it is reset.
    pub open spec fn field_done(self, s: RxState<K::Value>, kind: FieldKind, p: ParserState<K::Value>) -> RxState<
        K::Value,
    > {
        match kind {
            FieldKind::Id => RxState { parser: ParserState { stage: ParseStage::Len, ..p }, ..s },
            FieldKind::Len => RxState { parser: ParserState { stage: ParseStage::Type, ..p }, ..s },
            FieldKind::Type => {
                if p.len > self.rx {
                    RxState { parser: p.reset(), error: Some(ParseError::PayloadTooLarge), ..s }
                } else if p.len == 0 {
                    if K::WIDTH == 0 {
                        RxState { parser: p, ..s }
                    } else {
                        RxState {
                            parser: ParserState { stage: ParseStage::HeadChecksum, checksum_idx: 0, ..p },
                            ..s
                        }
                    }
                } else if K::WIDTH == 0 {
                    RxState {
                        parser: ParserState {
                            stage: ParseStage::Data,
                            data_idx: 0,
                            data_checksum: self.checksum.spec_start(),
                            ..p
                        },
                        ..s
                    }
                } else {
                    RxState {
                        parser: ParserState { stage: ParseStage::HeadChecksum, checksum_idx: 0, ..p },
                        ..s
                    }
                }
            },
        }
    }

    /// A byte while waiting for SOF: only the SOF byte starts a frame.
    pub open spec fn sof_step(self, s: RxState<K::Value>, byte: u8) -> RxState<K::Value> {
        if byte == self.sof {
            RxState {
                parser: ParserState {
                    stage: ParseStage::Id,
                    len: 0,
                    id: 0,
                    typ: 0,
                    field_idx: 0,
                    data_idx: 0,
                    head_checksum: self.checksum.spec_start(),
                    data_checksum: self.checksum.spec_start(),
                    checksum_buf: seq![0u8, 0u8, 0u8, 0u8],
                    checksum_idx: 0,
                    timeout: self.ticks,
                },
                ..s
            }
        } else {
            s
        }
    }

    /// A payload byte: store it, fold it into the payload checksum, and after
    /// the last one either complete the frame (no checksum field) or expect
    /// the payload checksum.
    pub open spec fn data_step(self, s: RxState<K::Value>, byte: u8) -> (RxState<K::Value>, Option<
        ParsedFrameMeta,
    >) {
        let p = s.parser;
        let buf = if p.data_idx < self.rx {
            s.buf.update(p.data_idx as int, byte)
        } else {
            s.buf
        };
        let p1 = ParserState {
            data_checksum: self.checksum.spec_add(p.data_checksum, byte),
            data_idx: (p.data_idx + 1) as usize,
            ..p
        };
        if p1.data_idx >= p1.len {
            if K::WIDTH == 0 {
                (RxState { parser: p1, buf, ..s }, Some(self.meta(p1)))
            } else {
                (
                    RxState {
                        parser: ParserState { stage: ParseStage::DataChecksum, checksum_idx: 0, ..p1 },
                        buf,
                        ..s
                    },
                    None,
                )
            }
        } else {
            (RxState { parser: p1, buf, ..s }, None)
        }
    }

    /// A byte of the header or payload checksum: collect it, and after the
    /// last one compare the received checksum with the computed one. A
    /// mismatch drops the frame and records the error; a match completes the
    /// frame, or, after a header with a payload, starts the payload.
    pub open spec fn checksum_step(self, s: RxState<K::Value>, byte: u8) -> (RxState<K::Value>, Option<
        ParsedFrameMeta,
    >) {
        let k = self.checksum;
        let p = s.parser;
        let p1 = ParserState {
            checksum_buf: if p.checksum_idx < 4 {
                p.checksum_buf.update(p.checksum_idx as int, byte)
            } else {
                p.checksum_buf
            },
            checksum_idx: (p.checksum_idx + 1) as usize,
            ..p
        };
        if p1.checksum_idx < K::WIDTH {
            (RxState { parser: p1, ..s }, None)
        } else {
            let running = if p.stage == ParseStage::HeadChecksum {
                p1.head_checksum
            } else {
                p1.data_checksum
            };
            let calc = k.spec_finish(running);
            let recv = k.spec_decode(p1.checksum_buf.subrange(0, K::WIDTH as int));
            if calc != recv {
                (RxState { parser: p1.reset(), error: Some(ParseError::ChecksumMismatch), ..s }, None)
            } else if p.stage == ParseStage::DataChecksum || p1.len == 0 {
                (RxState { parser: p1, ..s }, Some(self.meta(p1)))
            } else {
                (
                    RxState {
                        parser: ParserState {
                            stage: ParseStage::Data,
                            data_idx: 0,
                            data_checksum: k.spec_start(),
                            ..p1
                        },
                        ..s
                    },
                    None,
                )
            }
        }
    }

    /// Inside a frame, every byte re-arms the parser timeout.
    pub open spec fn rearm(self, s: RxState<K::Value>) -> RxState<K::Value> {
        if s.parser.stage != ParseStage::Sof {
            RxState { parser: ParserState { timeout: self.ticks, ..s.parser }, ..s }
        } else {
            s
        }
    }

    /// The effect of one received byte: the next receive state, and the
    /// header of the frame that this byte completes, if any.
    pub open spec fn step(self, s0: RxState<K::Value>, byte: u8) -> (RxState<K::Value>, Option<
        ParsedFrameMeta,
    >) {
        let s = self.rearm(s0);
        match s.parser.stage {
            ParseStage::Sof => (self.sof_step(s, byte), None),
            ParseStage::Id => (self.field_step(s, byte, FieldKind::Id), None),
            ParseStage::Len => (self.field_step(s, byte, FieldKind::Len), None),
            ParseStage::Type => (
                self.field_step(s, byte, FieldKind::Type),
                self.field_out(s, byte, FieldKind::Type),
            ),
            ParseStage::Data => self.data_step(s, byte),
            ParseStage::HeadChecksum | ParseStage::DataChecksum => self.checksum_step(s, byte),
        }
    }

    /// Bytes received one after another: the final receive state and, per
    /// byte, the frame header it completed, if any.
    pub open spec fn run(self, s: RxState<K::Value>, bytes: Seq<u8>) -> (RxState<K::Value>, Seq<
        Option<ParsedFrameMeta>,
    >)
        decreases bytes.len(),
    {
        if bytes.len() == 0 {
            (s, Seq::empty())
        } else {
            let (s1, outs) = self.run(s, bytes.drop_last());
            let (s2, out) = self.step(s1, bytes.last());
            (s2, outs.push(out))
        }
    }

}

/// The receive path: streaming parser plus receive buffer.
pub struct RxParserCore<K: Checksum, const RX: usize> {
    pub parser_timeout_ticks: u16,
    pub parser: Parser<K>,
    pub rx_buf: Vec<u8>,
    pub last_parse_error: Option<ParseError>,
}

impl<K: Checksum, const RX: usize> View for RxParserCore<K, RX> {
    type V = RxState<K::Value>;

    open spec fn view(&self) -> RxState<K::Value> {
        RxState { parser: self.parser@, buf: self.rx_buf@, error: self.last_parse_error }
    }
}

impl<K: Checksum, const RX: usize> RxParserCore<K, RX> {
    /// The configuration this receive path runs with, given the checksum,
    /// SOF byte and field widths that the caller supplies.
    pub open spec fn config(&self, checksum: K, sof: u8, widths: (usize, usize, usize)) -> RxConfig<K> {
        RxConfig {
            checksum,
            rx: RX as nat,
            ticks: self.parser_timeout_ticks,
            sof,
            id_w: widths.0,
            len_w: widths.1,
            ty_w: widths.2,
        }
    }

    pub fn new(parser_timeout_ticks: u16) -> (r: Self)
        ensures
            r.parser_timeout_ticks == parser_timeout_ticks,
            r.parser@.is_idle(),
            r.rx_buf@ == Seq::new(RX as nat, |i: int| 0u8),
            r.last_parse_error is None,
    {
        let mut rx_buf: Vec<u8> = Vec::new();
        let mut i: usize = 0;
        while i < RX
            invariant
                i <= RX,
                rx_buf@ == Seq::new(i as nat, |j: int| 0u8),
            decreases RX - i,
        {
            rx_buf.push(0u8);
            i += 1;
        }
        Self { parser_timeout_ticks, parser: Parser::default(), rx_buf, last_parse_error: None }
    }

    pub fn reset_parser(&mut self)
        ensures
            final(self)@ == (RxState { parser: old(self)@.parser.reset(), ..old(self)@ }),
            final(self).parser_timeout_ticks == old(self).parser_timeout_ticks,
    {
        self.parser = Parser::default();
    }

    pub fn tick(&mut self)
        ensures
            final(self)@ == old(self)@.tick(),
            final(self).parser_timeout_ticks == old(self).parser_timeout_ticks,
    {
        if self.parser.timeout > 0 {
            self.parser.timeout -= 1;
            if self.parser.timeout == 0 {
                self.reset_parser();
            }
        }
    }

    pub fn accept_byte(
        &mut self,
        byte: u8,
        sof: u8,
        checksum: &K,
        field_widths: (usize, usize, usize),
    ) -> (r: Option<ParsedFrameMeta>)
        requires
            old(self).config(*checksum, sof, field_widths).wf(old(self)@),
        ensures
            old(self).parser.stage.compares_checksum() ==> value_eq_laws::<K>() ==> (final(self)@,
                r) == old(self).config(*checksum, sof, field_widths).step(old(self)@, byte),
            !old(self).parser.stage.compares_checksum() ==> (final(self)@, r) == old(self).config(
                *checksum,
                sof,
                field_widths,
            ).step(old(self)@, byte),
            final(self).parser_timeout_ticks == old(self).parser_timeout_ticks,
            r is None ==> old(self).config(*checksum, sof, field_widths).wf(final(self)@),
            r is Some ==> r->Some_0.len <= RX && final(self).rx_buf@.len() == RX,
    {
        let ghost cfg = self.config(*checksum, sof, field_widths);
        let (id_w, len_w, ty_w) = field_widths;
        if self.parser.stage != ParseStage::Sof {
            self.parser.timeout = self.parser_timeout_ticks;
        }
        assert(self@ == cfg.rearm(old(self)@));
        match self.parser.stage {
            ParseStage::Sof => {
                if byte == sof {
                    let start = checksum.start();
                    self.parser = Parser {
                        stage: ParseStage::Id,
                        len: 0,
                        id: 0,
                        typ: 0,
                        field_idx: 0,
                        data_idx: 0,
                        head_checksum: start,
                        data_checksum: start,
                        checksum_buf: [0u8, 0u8, 0u8, 0u8],
                        checksum_idx: 0,
                        timeout: self.parser_timeout_ticks,
                    };
                    assert(self.parser.checksum_buf@ =~= seq![0u8, 0u8, 0u8, 0u8]);
                }
                None
            },
            ParseStage::Id => {
                let _ = self.parse_field_byte(byte, id_w, FieldKind::Id, checksum, Ghost(cfg));
                None
            },
            ParseStage::Len => {
                let _ = self.parse_field_byte(byte, len_w, FieldKind::Len, checksum, Ghost(cfg));
                None
            },
            ParseStage::Type => {
                if self.parse_field_byte(byte, ty_w, FieldKind::Type, checksum, Ghost(cfg)) {
                    Some(self.decoded_meta())
                } else {
                    None
                }
            },
            ParseStage::Data => self.accept_data_byte(byte, checksum, Ghost(cfg)),
            ParseStage::HeadChecksum | ParseStage::DataChecksum => self.accept_checksum_byte(
                byte,
                checksum,
                Ghost(cfg),
            ),
        }
    }

    fn accept_data_byte(&mut self, byte: u8, checksum: &K, Ghost(cfg): Ghost<RxConfig<K>>) -> (r:
        Option<ParsedFrameMeta>)
        requires
            cfg == old(self).config(*checksum, cfg.sof, (cfg.id_w, cfg.len_w, cfg.ty_w)),
            cfg.wf(old(self)@),
            old(self).parser.stage == ParseStage::Data,
        ensures
            final(self)@ == cfg.data_step(old(self)@, byte).0,
            r == cfg.data_step(old(self)@, byte).1,
            final(self).parser_timeout_ticks == old(self).parser_timeout_ticks,
            r is None ==> cfg.wf(final(self)@),
            r is Some ==> r->Some_0.len <= RX && final(self).rx_buf@.len() == RX,
    {
        if self.parser.data_idx < RX {
            self.rx_buf.set(self.parser.data_idx, byte);
        }
        self.parser.data_checksum = checksum.add(self.parser.data_checksum, byte);
        self.parser.data_idx += 1;
        if self.parser.data_idx >= self.parser.len as usize {
            if K::WIDTH == 0 {
                return Some(self.decoded_meta());
            }
            self.parser.checksum_idx = 0;
            self.parser.stage = ParseStage::DataChecksum;
        }
        None
    }

    fn accept_checksum_byte(&mut self, byte: u8, checksum: &K, Ghost(cfg): Ghost<RxConfig<K>>) -> (r:
        Option<ParsedFrameMeta>)
        requires
            cfg == old(self).config(*checksum, cfg.sof, (cfg.id_w, cfg.len_w, cfg.ty_w)),
            cfg.wf(old(self)@),
            old(self).parser.stage == ParseStage::HeadChecksum || old(self).parser.stage
                == ParseStage::DataChecksum,
        ensures
            value_eq_laws::<K>() ==> (final(self)@, r) == cfg.checksum_step(old(self)@, byte),
            final(self).parser_timeout_ticks == old(self).parser_timeout_ticks,
            r is None ==> cfg.wf(final(self)@),
            r is Some ==> r->Some_0.len <= RX && final(self).rx_buf@.len() == RX,
    {
        let is_head = self.parser.stage == ParseStage::HeadChecksum;
        if self.parser.checksum_idx < 4 {
            self.parser.checksum_buf[self.parser.checksum_idx] = byte;
        }
        self.parser.checksum_idx += 1;
        if self.parser.checksum_idx >= K::WIDTH {
            let running = if is_head {
                self.parser.head_checksum
            } else {
                self.parser.data_checksum
            };
            let calc = checksum.finish(running);
            let whole = vstd::array::array_as_slice(&self.parser.checksum_buf);
            let received = whole.split_at(K::WIDTH).0;
            let recv = checksum.decode(received);
            proof {
                assert(received@.subrange(0, K::WIDTH as int) =~= self.parser.checksum_buf@.subrange(
                    0,
                    K::WIDTH as int,
                ));
            }
            if calc != recv {
                self.last_parse_error = Some(ParseError::ChecksumMismatch);
                self.reset_parser();
            } else if !is_head || self.parser.len == 0 {
                return Some(self.decoded_meta());
            } else {
                self.parser.stage = ParseStage::Data;
                self.parser.data_idx = 0;
                self.parser.data_checksum = checksum.start();
            }
        }
        None
    }

    fn parse_field_byte(
        &mut self,
        byte: u8,
        width: usize,
        target: FieldKind,
        checksum: &K,
        Ghost(cfg): Ghost<RxConfig<K>>,
    ) -> (completed: bool)
        requires
            cfg == old(self).config(*checksum, cfg.sof, (cfg.id_w, cfg.len_w, cfg.ty_w)),
            cfg.wf(old(self)@),
            width == cfg.width_of(target),
            old(self).parser.stage == match target {
                FieldKind::Id => ParseStage::Id,
                FieldKind::Len => ParseStage::Len,
                FieldKind::Type => ParseStage::Type,
            },
        ensures
            final(self)@ == cfg.field_step(old(self)@, byte, target),
            final(self).parser_timeout_ticks == old(self).parser_timeout_ticks,
            cfg.wf(final(self)@),
            completed == cfg.field_out(old(self)@, byte, target) is Some,
    {
        self.parser.head_checksum = checksum.add(self.parser.head_checksum, byte);
        let shift = ((width - 1 - self.parser.field_idx) * 8) as u32;
        match target {
            FieldKind::Len => self.parser.len |= (byte as u32) << shift,
            FieldKind::Id => self.parser.id |= (byte as u32) << shift,
            FieldKind::Type => self.parser.typ |= (byte as u32) << shift,
        }
        self.parser.field_idx += 1;
        if self.parser.field_idx >= width {
            self.parser.field_idx = 0;
            self.parser.stage = match target {
                FieldKind::Id => ParseStage::Len,
                FieldKind::Len => ParseStage::Type,
                FieldKind::Type => {
                    if self.parser.len as usize > RX {
                        self.last_parse_error = Some(ParseError::PayloadTooLarge);
                        self.reset_parser();
                        return false;
                    }
                    if self.parser.len == 0 {
                        if K::WIDTH == 0 {
                            return true;
                        }
                        self.parser.checksum_idx = 0;
                        ParseStage::HeadChecksum
                    } else if K::WIDTH == 0 {
                        self.parser.data_idx = 0;
                        self.parser.data_checksum = checksum.start();
                        ParseStage::Data
                    } else {
                        self.parser.checksum_idx = 0;
                        ParseStage::HeadChecksum
                    }
                },
            };
        }
        false
    }

    fn decoded_meta(&self) -> (r: ParsedFrameMeta)
        ensures
            r == (ParsedFrameMeta { id: self.parser.id, typ: self.parser.typ, len: self.parser.len as usize }),
    {
        ParsedFrameMeta { id: self.parser.id, typ: self.parser.typ, len: self.parser.len as usize }
    }
}

} // verus!
