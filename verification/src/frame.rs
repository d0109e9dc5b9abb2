use vstd::prelude::*;

verus! {

/// Header of an outbound frame.
#[derive(Clone, Copy, Debug)]
pub struct Frame {
    /// Frame ID (request ID, or response-correlated ID).
    pub id: u32,
    /// Application-defined message type.
    pub typ: u32,
    /// When true, `id` is used as-is and not auto-allocated.
    pub is_response: bool,
}

/// Borrowed decoded frame view.
///
/// `data` is borrowed from the internal receive buffer and is valid only
/// during listener callback execution.
#[derive(Clone, Copy)]
pub struct ReceivedFrame<'a> {
    pub id: u32,
    pub typ: u32,
    pub data: &'a [u8],
    pub timed_out: bool,
}

/// A received frame as a value: ID, type, payload and timeout flag.
pub ghost struct FrameView {
    pub id: u32,
    pub typ: u32,
    pub data: Seq<u8>,
    pub timed_out: bool,
}

impl<'a> View for ReceivedFrame<'a> {
    type V = FrameView;

    open spec fn view(&self) -> FrameView {
        FrameView { id: self.id, typ: self.typ, data: self.data@, timed_out: self.timed_out }
    }
}

} // verus!
