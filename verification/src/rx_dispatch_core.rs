use vstd::prelude::*;
use crate::channel::FrameChannel;
use crate::checksum::Checksum;
use crate::frame::ReceivedFrame;
use crate::listener::{FrameCallback, IdListener, TypeListener};
use crate::strategy::{DispatchPolicy, IdAllocator};
use crate::transport::Transport;

verus! {

/// Hands received frames to the listeners through the dispatch policy.
pub struct RxDispatchCore;

impl RxDispatchCore {
    pub fn dispatch<C, T, K, A, D, F, const ID: usize, const LEN: usize, const TY: usize>(
        ctx: &mut C,
        channel: &mut FrameChannel<T, K, ID, LEN, TY, A>,
        policy: &D,
        id_listeners: &mut Vec<Option<IdListener<F>>>,
        type_listeners: &mut Vec<Option<TypeListener<F>>>,
        generic_listener: Option<F>,
        frame: ReceivedFrame<'_>,
    ) where
        T: Transport,
        K: Checksum,
        A: IdAllocator,
        D: DispatchPolicy<C, T, K, A, F, ID, LEN, TY>,
        F: FrameCallback<C, T, K, A, ID, LEN, TY>,
        ensures
            final(id_listeners)@.len() == old(id_listeners)@.len(),
            final(type_listeners)@.len() == old(type_listeners)@.len(),
            policy.dispatch_outcome(
                old(id_listeners)@,
                final(id_listeners)@,
                old(type_listeners)@,
                final(type_listeners)@,
                frame.id,
                frame.typ,
            ),
            policy.unheard(old(id_listeners)@, old(type_listeners)@, generic_listener, frame.id, frame.typ)
                ==> {
                &&& *final(ctx) == *old(ctx)
                &&& *final(channel) == *old(channel)
                &&& final(id_listeners)@ == old(id_listeners)@
                &&& final(type_listeners)@ == old(type_listeners)@
            },
            policy.dispatch_effect(
                old(id_listeners)@,
                final(id_listeners)@,
                old(type_listeners)@,
                final(type_listeners)@,
                generic_listener,
                frame@,
                *old(ctx),
                *old(channel),
                *final(ctx),
                *final(channel),
            ),
    {
        policy.dispatch(ctx, channel, id_listeners, type_listeners, generic_listener, frame);
    }
}

} // verus!
