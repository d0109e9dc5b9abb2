use vstd::prelude::*;
use crate::channel::FrameChannel;
use crate::checksum::Checksum;
use crate::frame::{FrameView, ReceivedFrame};
use crate::strategy::IdAllocator;
use crate::transport::Transport;

verus! {

/// Index of a listener slot.
pub type ListenerId = usize;

/// What a listener asks for after handling a frame.
#[derive(Clone, Copy, Debug, PartialEq, Eq, Structural)]
pub enum ListenerAction {
    /// Current listener does not consume the frame, continue dispatching.
    Next,
    /// Keep current listener active.
    Stay,
    /// Keep listener active and renew timeout (ID listener only).
    Renew,
    /// Remove current listener after callback returns.
    Close,
}

/// A listener callback: application code run for a received frame (or, for
/// an ID listener, for its timeout), with the user context and a channel to
/// send replies on.
pub trait FrameCallback<C, T, K, A, const ID: usize, const LEN: usize, const TY: usize>: Copy where
    T: Transport,
    K: Checksum,
    A: IdAllocator,
 {
    /// What one call may do: called for `frame` with context `ctx` and
    /// channel `channel`, it may leave `new_ctx` and `new_channel` behind and
    /// answer `action`. A callback that leaves this out promises nothing.
    open spec fn spec_call(
        &self,
        ctx: C,
        channel: FrameChannel<T, K, ID, LEN, TY, A>,
        frame: FrameView,
        new_ctx: C,
        new_channel: FrameChannel<T, K, ID, LEN, TY, A>,
        action: ListenerAction,
    ) -> bool {
        true
    }

    fn call(
        &self,
        ctx: &mut C,
        channel: &mut FrameChannel<T, K, ID, LEN, TY, A>,
        frame: ReceivedFrame<'_>,
    ) -> (r: ListenerAction)
        ensures
            self.spec_call(*old(ctx), *old(channel), frame@, *final(ctx), *final(channel), r),
    ;
}

/// A listener for frames with a given ID, with an optional timeout.
#[derive(Clone, Copy)]
pub struct IdListener<F> {
    pub id: u32,
    pub timeout_left: u16,
    pub timeout_max: u16,
    pub on_frame: F,
}

/// A listener for frames of a given type.
#[derive(Clone, Copy)]
pub struct TypeListener<F> {
    pub typ: u32,
    pub on_frame: F,
}

impl<F> IdListener<F> {
    /// The same listener with its timeout back at the maximum.
    pub open spec fn renewed(self) -> Self {
        IdListener { timeout_left: self.timeout_max, ..self }
    }
}

} // verus!
