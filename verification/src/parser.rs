use vstd::prelude::*;
use crate::checksum::Checksum;

verus! {

/// The part of a frame that the streaming parser expects next.
#[derive(Clone, Copy, Debug, PartialEq, Eq, Structural)]
pub enum ParseStage {
    /// Waiting for the start-of-frame byte.
    Sof,
    /// Inside the ID field.
    Id,
    /// Inside the LEN field.
    Len,
    /// Inside the TYPE field.
    Type,
    /// Receiving the header checksum.
    HeadChecksum,
    /// Receiving payload bytes.
    Data,
    /// Receiving the payload checksum.
    DataChecksum,
}

impl ParseStage {
    /// The stage collects checksum bytes, whose last one is compared with
    /// the computed checksum.
    pub open spec fn compares_checksum(self) -> bool {
        self == ParseStage::HeadChecksum || self == ParseStage::DataChecksum
    }
}

/// The mathematical state of the streaming parser.
#[verifier::ext_equal]
pub ghost struct ParserState<V> {
    pub stage: ParseStage,
    pub len: u32,
    pub id: u32,
    pub typ: u32,
    pub field_idx: usize,
    pub data_idx: usize,
    pub head_checksum: V,
    pub data_checksum: V,
    pub checksum_buf: Seq<u8>,
    pub checksum_idx: usize,
    pub timeout: u16,
}

impl<V> ParserState<V> {
    /// Back to waiting for SOF, with all counters and fields cleared.
    pub open spec fn reset(self) -> Self {
        ParserState {
            stage: ParseStage::Sof,
            len: 0,
            id: 0,
            typ: 0,
            field_idx: 0,
            data_idx: 0,
            head_checksum: idle_checksum(),
            data_checksum: idle_checksum(),
            checksum_buf: seq![0u8, 0u8, 0u8, 0u8],
            checksum_idx: 0,
            timeout: 0,
        }
    }

    /// Waiting for SOF with all counters and fields cleared.
    pub open spec fn is_idle(self) -> bool {
        self == self.reset()
    }
}

/// The running checksum values mean nothing while the parser waits for SOF
/// (a frame's SOF sets them afresh): the model holds this fixed placeholder
/// there instead.
pub open spec fn idle_checksum<V>() -> V {
    arbitrary()
}

/// Internal streaming parser state.
///
/// Parsing is incremental and byte-driven.
pub struct Parser<K: Checksum> {
    pub stage: ParseStage,
    pub len: u32,
    pub id: u32,
    pub typ: u32,
    pub field_idx: usize,
    pub data_idx: usize,
    pub head_checksum: K::Value,
    pub data_checksum: K::Value,
    pub checksum_buf: [u8; 4],
    pub checksum_idx: usize,
    pub timeout: u16,
}

impl<K: Checksum> View for Parser<K> {
    type V = ParserState<K::Value>;

    open spec fn view(&self) -> ParserState<K::Value> {
        ParserState {
            stage: self.stage,
            len: self.len,
            id: self.id,
            typ: self.typ,
            field_idx: self.field_idx,
            data_idx: self.data_idx,
            head_checksum: if self.stage == ParseStage::Sof {
                idle_checksum()
            } else {
                self.head_checksum
            },
            data_checksum: if self.stage == ParseStage::Sof {
                idle_checksum()
            } else {
                self.data_checksum
            },
            checksum_buf: self.checksum_buf@,
            checksum_idx: self.checksum_idx,
            timeout: self.timeout,
        }
    }
}

impl<K: Checksum> Default for Parser<K> {
    fn default() -> (r: Self)
        ensures
            r@.is_idle(),
    {
        let r = Self {
            stage: ParseStage::Sof,
            len: 0,
            id: 0,
            typ: 0,
            field_idx: 0,
            data_idx: 0,
            head_checksum: K::Value::default(),
            data_checksum: K::Value::default(),
            checksum_buf: [0u8, 0u8, 0u8, 0u8],
            checksum_idx: 0,
            timeout: 0,
        };
        assert(r.checksum_buf@ =~= seq![0u8, 0u8, 0u8, 0u8]);
        r
    }
}

} // verus!
