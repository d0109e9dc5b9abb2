use vstd::prelude::*;
use crate::channel::FrameChannel;
use crate::checksum::Checksum;
use crate::frame::{FrameView, ReceivedFrame};
use crate::listener::{FrameCallback, IdListener, ListenerAction, TypeListener};
use crate::observer_store::{id_match, type_match};
use crate::transport::Transport;
use crate::utils::{fits, lemma_pow256_small, pow256, valid_width};

verus! {

/// The peer bit of a `w`-byte ID field: its highest bit.
pub open spec fn peer_bit(w: nat) -> nat {
    pow256(w) / 2
}

/// Strategy that assigns IDs to outgoing requests.
pub trait IdAllocator: Sized {
    /// Allocating with counter `next_id` in a `id_width`-byte ID field gives
    /// the allocator after the call, the counter after the call and the ID.
    /// It is given by each allocator; one that leaves it out has no model.
    open spec fn spec_alloc(self, next_id: u32, peer_master: bool, id_width: nat) -> (Self, u32, u32) {
        arbitrary()
    }

    fn alloc_id<const ID: usize>(&mut self, next_id: &mut u32, peer_master: bool) -> (r: u32)
        requires
            valid_width(ID as int),
        ensures
            (*final(self), *final(next_id), r) == old(self).spec_alloc(
                *old(next_id),
                peer_master,
                ID as nat,
            ),
    ;
}

/// The allocator hands out IDs that fit the ID field, with the peer bit set
/// exactly when the local peer is the master.
pub open spec fn alloc_laws<A: IdAllocator>(a: A) -> bool {
    forall|next_id: u32, peer_master: bool, w: nat|
        #![trigger a.spec_alloc(next_id, peer_master, w)]
        valid_width(w as int) ==> {
            &&& fits(a.spec_alloc(next_id, peer_master, w).2 as nat, w)
            &&& (a.spec_alloc(next_id, peer_master, w).2 >= peer_bit(w)) == peer_master
        }
}

/// Allocates IDs sequentially: the counter runs through the values below the
/// peer bit and wraps around; the peer bit is added for the master.
#[derive(Clone, Copy, Default)]
pub struct SequentialIdAllocator;

pub proof fn lemma_peer_bit_values(w: nat)
    requires
        valid_width(w as int),
    ensures
        w == 1 ==> peer_bit(w) == 128,
        w == 2 ==> peer_bit(w) == 32768,
        w == 3 ==> peer_bit(w) == 8388608,
        w == 4 ==> peer_bit(w) == 2147483648,
        peer_bit(w) * 2 == pow256(w),
{
    lemma_pow256_small();
}

impl IdAllocator for SequentialIdAllocator {
    open spec fn spec_alloc(self, next_id: u32, peer_master: bool, id_width: nat) -> (Self, u32, u32) {
        let half = peer_bit(id_width);
        let raw = next_id as nat % half;
        (
            self,
            ((next_id as nat + 1) % half) as u32,
            (raw + if peer_master {
                half
            } else {
                0
            }) as u32,
        )
    }

    fn alloc_id<const ID: usize>(&mut self, next_id: &mut u32, peer_master: bool) -> (r: u32) {
        let s: u32 = (ID * 8 - 1) as u32;
        proof {
            lemma_peer_bit_values(ID as nat);
            assert(s == ID * 8 - 1);
            lemma_shift_mask(0, s);
            assert((1u32 << s) == peer_bit(ID as nat));
        }
        let value_mask = (1u32 << s) - 1;
        let peer_mask = 1u32 << s;
        let raw = *next_id & value_mask;
        let bumped = next_id.wrapping_add(1);
        *next_id = bumped & value_mask;
        proof {
            let x = *old(next_id);
            lemma_shift_mask(x, s);
            lemma_shift_mask(bumped, s);
            lemma_shift_mask(raw, s);
            let half = peer_bit(ID as nat);
            if x == 0xFFFF_FFFFu32 {
                assert(bumped == 0);
                if ID == 1 {
                    assert(4294967296nat % 128 == 0);
                } else if ID == 2 {
                    assert(4294967296nat % 32768 == 0);
                } else if ID == 3 {
                    assert(4294967296nat % 8388608 == 0);
                } else {
                    assert(4294967296nat % 2147483648 == 0);
                }
                assert((x as nat + 1) % half == bumped as nat % half);
            } else {
                assert(bumped == x + 1);
            }
            assert(*next_id == ((x as nat + 1) % half) as u32);
            assert(raw == x as nat % half);
        }
        let id = if peer_master {
            raw | peer_mask
        } else {
            raw
        };
        id
    }
}

/// Law: the sequential allocator obeys the allocation laws.
pub proof fn lemma_sequential_alloc_laws(a: SequentialIdAllocator)
    ensures
        alloc_laws(a),
{
    assert forall|next_id: u32, peer_master: bool, w: nat| valid_width(w as int) implies {
        &&& fits(#[trigger] a.spec_alloc(next_id, peer_master, w).2 as nat, w)
        &&& (a.spec_alloc(next_id, peer_master, w).2 >= peer_bit(w)) == peer_master
    } by {
        lemma_peer_bit_values(w);
    }
}

/// Masking with the bits below bit `s` is the remainder modulo `2^s`, and
/// setting bit `s` of a smaller value adds `2^s`.
proof fn lemma_shift_mask(x: u32, s: u32)
    requires
        s == 7 || s == 15 || s == 23 || s == 31,
    ensures
        s == 7 ==> (1u32 << s) == 128,
        s == 15 ==> (1u32 << s) == 32768,
        s == 23 ==> (1u32 << s) == 8388608,
        s == 31 ==> (1u32 << s) == 2147483648,
        (x & (((1u32 << s) - 1u32) as u32)) == x % (1u32 << s),
        x < (1u32 << s) ==> (x | (1u32 << s)) == x + (1u32 << s),
{
    if s == 7 {
        assert((1u32 << 7u32) == 128) by (bit_vector);
        assert((x & 127u32) == x % 128) by (bit_vector);
        assert(x < 128 ==> (x | 128u32) == x + 128) by (bit_vector);
    } else if s == 15 {
        assert((1u32 << 15u32) == 32768) by (bit_vector);
        assert((x & 32767u32) == x % 32768) by (bit_vector);
        assert(x < 32768 ==> (x | 32768u32) == x + 32768) by (bit_vector);
    } else if s == 23 {
        assert((1u32 << 23u32) == 8388608) by (bit_vector);
        assert((x & 8388607u32) == x % 8388608) by (bit_vector);
        assert(x < 8388608 ==> (x | 8388608u32) == x + 8388608) by (bit_vector);
    } else {
        assert((1u32 << 31u32) == 2147483648) by (bit_vector);
        assert((x & 2147483647u32) == x % 2147483648) by (bit_vector);
        assert(x < 2147483648 ==> (x | 2147483648u32) == x + 2147483648) by (bit_vector);
    }
}

/// Strategy that hands a received frame to the registered listeners.
///
/// Listener callbacks are application code; what a call may do is given by
/// the callback's `spec_call`. `dispatch_effect` says what dispatching a
/// frame does, `dispatch_outcome` what it does to the listener tables alone.
pub trait DispatchPolicy<C, T, K, A, F, const ID: usize, const LEN: usize, const TY: usize>: Sized {
    /// A policy that leaves this out promises nothing of the tables.
    open spec fn dispatch_outcome(
        &self,
        ids: Seq<Option<IdListener<F>>>,
        new_ids: Seq<Option<IdListener<F>>>,
        types: Seq<Option<TypeListener<F>>>,
        new_types: Seq<Option<TypeListener<F>>>,
        frame_id: u32,
        frame_typ: u32,
    ) -> bool {
        true
    }

    /// The frame reaches no listener at all under this policy. A policy that
    /// leaves this out names no such frame.
    open spec fn unheard(
        &self,
        ids: Seq<Option<IdListener<F>>>,
        types: Seq<Option<TypeListener<F>>>,
        generic: Option<F>,
        frame_id: u32,
        frame_typ: u32,
    ) -> bool {
        false
    }

    /// What dispatching `frame` does to the tables, the context and the
    /// channel. A policy that leaves this out promises nothing of them.
    open spec fn dispatch_effect(
        &self,
        ids: Seq<Option<IdListener<F>>>,
        new_ids: Seq<Option<IdListener<F>>>,
        types: Seq<Option<TypeListener<F>>>,
        new_types: Seq<Option<TypeListener<F>>>,
        generic: Option<F>,
        frame: FrameView,
        ctx: C,
        channel: FrameChannel<T, K, ID, LEN, TY, A>,
        new_ctx: C,
        new_channel: FrameChannel<T, K, ID, LEN, TY, A>,
    ) -> bool where
        T: Transport,
        K: Checksum,
        A: IdAllocator,
        F: FrameCallback<C, T, K, A, ID, LEN, TY>,
     {
        true
    }

    fn dispatch(
        &self,
        ctx: &mut C,
        channel: &mut FrameChannel<T, K, ID, LEN, TY, A>,
        id_listeners: &mut Vec<Option<IdListener<F>>>,
        type_listeners: &mut Vec<Option<TypeListener<F>>>,
        generic_listener: Option<F>,
        frame: ReceivedFrame<'_>,
    ) where T: Transport, K: Checksum, A: IdAllocator, F: FrameCallback<C, T, K, A, ID, LEN, TY>
        ensures
            final(id_listeners)@.len() == old(id_listeners)@.len(),
            final(type_listeners)@.len() == old(type_listeners)@.len(),
            self.dispatch_outcome(
                old(id_listeners)@,
                final(id_listeners)@,
                old(type_listeners)@,
                final(type_listeners)@,
                frame.id,
                frame.typ,
            ),
            self.unheard(old(id_listeners)@, old(type_listeners)@, generic_listener, frame.id, frame.typ)
                ==> {
                &&& *final(ctx) == *old(ctx)
                &&& *final(channel) == *old(channel)
                &&& final(id_listeners)@ == old(id_listeners)@
                &&& final(type_listeners)@ == old(type_listeners)@
            },
            self.dispatch_effect(
                old(id_listeners)@,
                final(id_listeners)@,
                old(type_listeners)@,
                final(type_listeners)@,
                generic_listener,
                frame@,
                *old(ctx),
                *old(channel),
                *final(ctx),
                *final(channel),
            ),
    ;
}

/// Default dispatch: every ID listener for the frame's ID, in slot order,
/// then every type listener for the frame's type, in slot order; the
/// catch-all listener only when no listener consumed the frame (answered
/// anything but `Next`). An ID listener that answers `Close` is removed and
/// one that answers `Renew` gets its timeout renewed; a type listener that
/// answers `Close` is removed.
#[derive(Clone, Copy, Default)]
pub struct IdThenTypeDispatch;

/// An ID listener slot after dispatching a frame with ID `frame_id`: a
/// matching listener is kept, renewed or removed; any other slot is as it
/// was.
pub open spec fn id_slot_outcome<F>(
    slot: Option<IdListener<F>>,
    new_slot: Option<IdListener<F>>,
    frame_id: u32,
) -> bool {
    if id_match(slot, frame_id) {
        new_slot is None || new_slot == slot || new_slot == Some(slot->Some_0.renewed())
    } else {
        new_slot == slot
    }
}

/// A type listener slot after dispatching a frame of type `frame_typ`: a
/// matching listener is kept or removed; any other slot is as it was.
pub open spec fn type_slot_outcome<F>(
    slot: Option<TypeListener<F>>,
    new_slot: Option<TypeListener<F>>,
    frame_typ: u32,
) -> bool {
    if type_match(slot, frame_typ) {
        new_slot is None || new_slot == slot
    } else {
        new_slot == slot
    }
}

/// The slot an ID listener leaves after answering `action`: removed on
/// `Close`, with its timeout renewed on `Renew`, kept otherwise.
pub open spec fn id_after_action<F>(slot: Option<IdListener<F>>, action: ListenerAction) -> Option<
    IdListener<F>,
> {
    match action {
        ListenerAction::Close => None,
        ListenerAction::Renew => Some(slot->Some_0.renewed()),
        _ => slot,
    }
}

/// The slot a type listener leaves after answering `action`: removed on
/// `Close`, kept otherwise.
pub open spec fn type_after_action<F>(slot: Option<TypeListener<F>>, action: ListenerAction) -> Option<
    TypeListener<F>,
> {
    match action {
        ListenerAction::Close => None,
        _ => slot,
    }
}

/// One ID listener slot in its turn: a listener for the frame's ID is
/// called, taking context and channel from `before` to `after`, and its slot
/// then follows its answer `action`; any other slot leaves all as it was.
pub open spec fn id_call_step<C, T, K, A, F, const ID: usize, const LEN: usize, const TY: usize>(
    slot: Option<IdListener<F>>,
    new_slot: Option<IdListener<F>>,
    frame: FrameView,
    before: (C, FrameChannel<T, K, ID, LEN, TY, A>),
    after: (C, FrameChannel<T, K, ID, LEN, TY, A>),
    action: ListenerAction,
) -> bool where
    T: Transport,
    K: Checksum,
    A: IdAllocator,
    F: FrameCallback<C, T, K, A, ID, LEN, TY>,
 {
    if id_match(slot, frame.id) {
        &&& slot->Some_0.on_frame.spec_call(before.0, before.1, frame, after.0, after.1, action)
        &&& new_slot == id_after_action(slot, action)
    } else {
        &&& after == before
        &&& new_slot == slot
    }
}

/// One type listener slot in its turn, as `id_call_step` for the frame's
/// type.
pub open spec fn type_call_step<C, T, K, A, F, const ID: usize, const LEN: usize, const TY: usize>(
    slot: Option<TypeListener<F>>,
    new_slot: Option<TypeListener<F>>,
    frame: FrameView,
    before: (C, FrameChannel<T, K, ID, LEN, TY, A>),
    after: (C, FrameChannel<T, K, ID, LEN, TY, A>),
    action: ListenerAction,
) -> bool where
    T: Transport,
    K: Checksum,
    A: IdAllocator,
    F: FrameCallback<C, T, K, A, ID, LEN, TY>,
 {
    if type_match(slot, frame.typ) {
        &&& slot->Some_0.on_frame.spec_call(before.0, before.1, frame, after.0, after.1, action)
        &&& new_slot == type_after_action(slot, action)
    } else {
        &&& after == before
        &&& new_slot == slot
    }
}

/// The ID listener slots taken in order: `states[i]` is the context and
/// channel before slot `i` (and `states[len]` after the last), `actions[i]`
/// the answer of the listener called at slot `i`, if any.
pub open spec fn id_phase<C, T, K, A, F, const ID: usize, const LEN: usize, const TY: usize>(
    ids: Seq<Option<IdListener<F>>>,
    new_ids: Seq<Option<IdListener<F>>>,
    frame: FrameView,
    states: Seq<(C, FrameChannel<T, K, ID, LEN, TY, A>)>,
    actions: Seq<ListenerAction>,
) -> bool where
    T: Transport,
    K: Checksum,
    A: IdAllocator,
    F: FrameCallback<C, T, K, A, ID, LEN, TY>,
 {
    &&& new_ids.len() == ids.len()
    &&& states.len() == ids.len() + 1
    &&& actions.len() == ids.len()
    &&& forall|i: int|
        #![trigger actions[i]]
        0 <= i < ids.len() ==> id_call_step(ids[i], new_ids[i], frame, states[i], states[i + 1], actions[i])
}

/// The type listener slots taken in order, as `id_phase`.
pub open spec fn type_phase<C, T, K, A, F, const ID: usize, const LEN: usize, const TY: usize>(
    types: Seq<Option<TypeListener<F>>>,
    new_types: Seq<Option<TypeListener<F>>>,
    frame: FrameView,
    states: Seq<(C, FrameChannel<T, K, ID, LEN, TY, A>)>,
    actions: Seq<ListenerAction>,
) -> bool where
    T: Transport,
    K: Checksum,
    A: IdAllocator,
    F: FrameCallback<C, T, K, A, ID, LEN, TY>,
 {
    &&& new_types.len() == types.len()
    &&& states.len() == types.len() + 1
    &&& actions.len() == types.len()
    &&& forall|i: int|
        #![trigger actions[i]]
        0 <= i < types.len() ==> type_call_step(types[i], new_types[i], frame, states[i], states[i + 1], actions[i])
}

/// Some listener for the frame's ID or type consumed it: it answered
/// anything but `Next`.
pub open spec fn consumed<F>(
    ids: Seq<Option<IdListener<F>>>,
    id_actions: Seq<ListenerAction>,
    types: Seq<Option<TypeListener<F>>>,
    ty_actions: Seq<ListenerAction>,
    frame: FrameView,
) -> bool {
    ||| exists|i: int|
        #![trigger id_actions[i]]
        0 <= i < ids.len() && id_match(ids[i], frame.id) && id_actions[i] != ListenerAction::Next
    ||| exists|i: int|
        #![trigger ty_actions[i]]
        0 <= i < types.len() && type_match(types[i], frame.typ) && ty_actions[i] != ListenerAction::Next
}

/// The catch-all listener's turn: it is called, answering `action`, when no
/// listener consumed the frame; otherwise all stays as it was.
pub open spec fn generic_call_step<C, T, K, A, F, const ID: usize, const LEN: usize, const TY: usize>(
    was_consumed: bool,
    generic: Option<F>,
    frame: FrameView,
    before: (C, FrameChannel<T, K, ID, LEN, TY, A>),
    after: (C, FrameChannel<T, K, ID, LEN, TY, A>),
    action: ListenerAction,
) -> bool where
    T: Transport,
    K: Checksum,
    A: IdAllocator,
    F: FrameCallback<C, T, K, A, ID, LEN, TY>,
 {
    if !was_consumed && generic is Some {
        generic->Some_0.spec_call(before.0, before.1, frame, after.0, after.1, action)
    } else {
        after == before
    }
}

/// What the default dispatch does with `frame`: every ID listener for its
/// ID is called, in slot order, then every type listener for its type, in
/// slot order, each with the context and channel that the previous call left
/// behind, and each slot follows its listener's answer; the catch-all
/// listener is called last, and only when no listener consumed the frame.
pub open spec fn id_then_type_outcome<C, T, K, A, F, const ID: usize, const LEN: usize, const TY: usize>(
    ids: Seq<Option<IdListener<F>>>,
    new_ids: Seq<Option<IdListener<F>>>,
    types: Seq<Option<TypeListener<F>>>,
    new_types: Seq<Option<TypeListener<F>>>,
    generic: Option<F>,
    frame: FrameView,
    ctx: C,
    channel: FrameChannel<T, K, ID, LEN, TY, A>,
    new_ctx: C,
    new_channel: FrameChannel<T, K, ID, LEN, TY, A>,
) -> bool where
    T: Transport,
    K: Checksum,
    A: IdAllocator,
    F: FrameCallback<C, T, K, A, ID, LEN, TY>,
 {
    exists|
        id_states: Seq<(C, FrameChannel<T, K, ID, LEN, TY, A>)>,
        id_actions: Seq<ListenerAction>,
        ty_states: Seq<(C, FrameChannel<T, K, ID, LEN, TY, A>)>,
        ty_actions: Seq<ListenerAction>,
        generic_action: ListenerAction,
    |
        #![trigger id_phase(ids, new_ids, frame, id_states, id_actions), type_phase(types, new_types, frame, ty_states, ty_actions), generic_call_step(consumed(ids, id_actions, types, ty_actions, frame), generic, frame, ty_states.last(), (new_ctx, new_channel), generic_action)]
        {
            &&& id_phase(ids, new_ids, frame, id_states, id_actions)
            &&& id_states[0] == (ctx, channel)
            &&& type_phase(types, new_types, frame, ty_states, ty_actions)
            &&& ty_states[0] == id_states.last()
            &&& generic_call_step(
                consumed(ids, id_actions, types, ty_actions, frame),
                generic,
                frame,
                ty_states.last(),
                (new_ctx, new_channel),
                generic_action,
            )
        }
}

impl<C, T, K, A, F, const ID: usize, const LEN: usize, const TY: usize> DispatchPolicy<
    C,
    T,
    K,
    A,
    F,
    ID,
    LEN,
    TY,
> for IdThenTypeDispatch {
    open spec fn dispatch_outcome(
        &self,
        ids: Seq<Option<IdListener<F>>>,
        new_ids: Seq<Option<IdListener<F>>>,
        types: Seq<Option<TypeListener<F>>>,
        new_types: Seq<Option<TypeListener<F>>>,
        frame_id: u32,
        frame_typ: u32,
    ) -> bool {
        &&& new_ids.len() == ids.len()
        &&& new_types.len() == types.len()
        &&& forall|i: int|
            0 <= i < ids.len() ==> id_slot_outcome(ids[i], #[trigger] new_ids[i], frame_id)
        &&& forall|i: int|
            0 <= i < types.len() ==> type_slot_outcome(types[i], #[trigger] new_types[i], frame_typ)
    }

    /// No ID listener for the frame's ID, no type listener for its type, and
    /// no catch-all listener.
    open spec fn unheard(
        &self,
        ids: Seq<Option<IdListener<F>>>,
        types: Seq<Option<TypeListener<F>>>,
        generic: Option<F>,
        frame_id: u32,
        frame_typ: u32,
    ) -> bool {
        &&& forall|i: int| 0 <= i < ids.len() ==> !id_match(#[trigger] ids[i], frame_id)
        &&& forall|i: int| 0 <= i < types.len() ==> !type_match(#[trigger] types[i], frame_typ)
        &&& generic is None
    }

    open spec fn dispatch_effect(
        &self,
        ids: Seq<Option<IdListener<F>>>,
        new_ids: Seq<Option<IdListener<F>>>,
        types: Seq<Option<TypeListener<F>>>,
        new_types: Seq<Option<TypeListener<F>>>,
        generic: Option<F>,
        frame: FrameView,
        ctx: C,
        channel: FrameChannel<T, K, ID, LEN, TY, A>,
        new_ctx: C,
        new_channel: FrameChannel<T, K, ID, LEN, TY, A>,
    ) -> bool where
        T: Transport,
        K: Checksum,
        A: IdAllocator,
        F: FrameCallback<C, T, K, A, ID, LEN, TY>,
     {
        id_then_type_outcome(ids, new_ids, types, new_types, generic, frame, ctx, channel, new_ctx, new_channel)
    }

    fn dispatch(
        &self,
        ctx: &mut C,
        channel: &mut FrameChannel<T, K, ID, LEN, TY, A>,
        id_listeners: &mut Vec<Option<IdListener<F>>>,
        type_listeners: &mut Vec<Option<TypeListener<F>>>,
        generic_listener: Option<F>,
        frame: ReceivedFrame<'_>,
    ) where T: Transport, K: Checksum, A: IdAllocator, F: FrameCallback<C, T, K, A, ID, LEN, TY> {
        let ghost quiet_ids = forall|j: int|
            0 <= j < old(id_listeners)@.len() ==> !id_match(#[trigger] old(id_listeners)@[j], frame.id);
        let ghost quiet_types = forall|j: int|
            0 <= j < old(type_listeners)@.len() ==> !type_match(
                #[trigger] old(type_listeners)@[j],
                frame.typ,
            );
        let ghost mut id_states: Seq<(C, FrameChannel<T, K, ID, LEN, TY, A>)> = seq![(*ctx, *channel)];
        let ghost mut id_actions: Seq<ListenerAction> = Seq::empty();
        let ghost mut called = false;
        let mut handled = false;
        let mut i: usize = 0;
        while i < id_listeners.len()
            invariant
                i <= id_listeners@.len(),
                id_listeners@.len() == old(id_listeners)@.len(),
                forall|j: int|
                    0 <= j < i ==> id_slot_outcome(old(id_listeners)@[j], #[trigger] id_listeners@[j], frame.id),
                forall|j: int| i <= j < id_listeners@.len() ==> id_listeners@[j] == old(id_listeners)@[j],
                quiet_ids == forall|j: int|
                    0 <= j < old(id_listeners)@.len() ==> !id_match(#[trigger] old(id_listeners)@[j], frame.id),
                !called ==> *ctx == *old(ctx) && *channel == *old(channel),
                !called ==> forall|j: int| 0 <= j < i ==> !id_match(#[trigger] old(id_listeners)@[j], frame.id),
                quiet_ids ==> !called && id_listeners@ == old(id_listeners)@,
                id_states.len() == i + 1,
                id_actions.len() == i,
                handled == exists|j: int|
                    #![trigger id_actions[j]]
                    0 <= j < i && id_match(old(id_listeners)@[j], frame.id) && id_actions[j]
                        != ListenerAction::Next,
                id_states[0] == (*old(ctx), *old(channel)),
                id_states.last() == (*ctx, *channel),
                forall|j: int|
                    #![trigger id_actions[j]]
                    0 <= j < i ==> id_call_step(
                        old(id_listeners)@[j],
                        id_listeners@[j],
                        frame@,
                        id_states[j],
                        id_states[j + 1],
                        id_actions[j],
                    ),
            decreases id_listeners@.len() - i,
        {
            let ghost before = (*ctx, *channel);
            let ghost mut action = ListenerAction::Stay;
            match id_listeners[i] {
                Some(listener) => {
                    if listener.id == frame.id {
                        proof {
                            called = true;
                        }
                        let answer = listener.on_frame.call(ctx, channel, frame);
                        proof {
                            action = answer;
                        }
                        match answer {
                            ListenerAction::Close => {
                                handled = true;
                                id_listeners.set(i, None);
                            },
                            ListenerAction::Renew => {
                                handled = true;
                                id_listeners.set(
                                    i,
                                    Some(IdListener { timeout_left: listener.timeout_max, ..listener }),
                                );
                            },
                            ListenerAction::Stay => {
                                handled = true;
                            },
                            ListenerAction::Next => {},
                        }
                    }
                },
                None => {},
            }
            proof {
                let prev = id_actions;
                id_states = id_states.push((*ctx, *channel));
                id_actions = id_actions.push(action);
                assert(id_actions[i as int] == action);
                if exists|j: int|
                    #![trigger prev[j]]
                    0 <= j < i && id_match(old(id_listeners)@[j], frame.id) && prev[j] != ListenerAction::Next {
                    let j = choose|j: int|
                        #![trigger prev[j]]
                        0 <= j < i && id_match(old(id_listeners)@[j], frame.id) && prev[j] != ListenerAction::Next;
                    assert(id_actions[j] == prev[j]);
                }
                assert(id_call_step(
                    old(id_listeners)@[i as int],
                    id_listeners@[i as int],
                    frame@,
                    before,
                    (*ctx, *channel),
                    action,
                ));
            }
            i += 1;
        }
        let ghost mut ty_states: Seq<(C, FrameChannel<T, K, ID, LEN, TY, A>)> = seq![(*ctx, *channel)];
        let ghost mut ty_actions: Seq<ListenerAction> = Seq::empty();
        let ghost ids_handled = handled;
        assert(id_phase(old(id_listeners)@, id_listeners@, frame@, id_states, id_actions));
        let mut i: usize = 0;
        while i < type_listeners.len()
            invariant
                i <= type_listeners@.len(),
                type_listeners@.len() == old(type_listeners)@.len(),
                forall|j: int|
                    0 <= j < i ==> type_slot_outcome(old(type_listeners)@[j], #[trigger] type_listeners@[j], frame.typ),
                forall|j: int| i <= j < type_listeners@.len() ==> type_listeners@[j] == old(type_listeners)@[j],
                id_listeners@.len() == old(id_listeners)@.len(),
                quiet_types == forall|j: int|
                    0 <= j < old(type_listeners)@.len() ==> !type_match(
                        #[trigger] old(type_listeners)@[j],
                        frame.typ,
                    ),
                quiet_ids ==> !called || exists|j: int| 0 <= j < i && type_match(#[trigger] old(type_listeners)@[j], frame.typ),
                quiet_ids ==> id_listeners@ == old(id_listeners)@,
                !called ==> *ctx == *old(ctx) && *channel == *old(channel),
                quiet_types ==> type_listeners@ == old(type_listeners)@,
                ty_states.len() == i + 1,
                ty_actions.len() == i,
                handled == (ids_handled || exists|j: int|
                    #![trigger ty_actions[j]]
                    0 <= j < i && type_match(old(type_listeners)@[j], frame.typ) && ty_actions[j]
                        != ListenerAction::Next),
                ids_handled == exists|j: int|
                    #![trigger id_actions[j]]
                    0 <= j < id_actions.len() && id_match(old(id_listeners)@[j], frame.id) && id_actions[j]
                        != ListenerAction::Next,
                id_actions.len() == old(id_listeners)@.len(),
                ty_states.last() == (*ctx, *channel),
                ty_states[0] == id_states.last(),
                id_states[0] == (*old(ctx), *old(channel)),
                id_phase(old(id_listeners)@, id_listeners@, frame@, id_states, id_actions),
                forall|j: int|
                    #![trigger ty_actions[j]]
                    0 <= j < i ==> type_call_step(
                        old(type_listeners)@[j],
                        type_listeners@[j],
                        frame@,
                        ty_states[j],
                        ty_states[j + 1],
                        ty_actions[j],
                    ),
            decreases type_listeners@.len() - i,
        {
            let ghost before = (*ctx, *channel);
            let ghost mut action = ListenerAction::Stay;
            match type_listeners[i] {
                Some(listener) => {
                    if listener.typ == frame.typ {
                        proof {
                            called = true;
                        }
                        let answer = listener.on_frame.call(ctx, channel, frame);
                        proof {
                            action = answer;
                        }
                        match answer {
                            ListenerAction::Close => {
                                handled = true;
                                type_listeners.set(i, None);
                            },
                            ListenerAction::Next => {},
                            ListenerAction::Stay | ListenerAction::Renew => {
                                handled = true;
                            },
                        }
                    }
                },
                None => {},
            }
            proof {
                let prev = ty_actions;
                ty_states = ty_states.push((*ctx, *channel));
                ty_actions = ty_actions.push(action);
                assert(ty_actions[i as int] == action);
                if exists|j: int|
                    #![trigger prev[j]]
                    0 <= j < i && type_match(old(type_listeners)@[j], frame.typ) && prev[j] != ListenerAction::Next {
                    let j = choose|j: int|
                        #![trigger prev[j]]
                        0 <= j < i && type_match(old(type_listeners)@[j], frame.typ) && prev[j] != ListenerAction::Next;
                    assert(ty_actions[j] == prev[j]);
                }
                assert(type_call_step(
                    old(type_listeners)@[i as int],
                    type_listeners@[i as int],
                    frame@,
                    before,
                    (*ctx, *channel),
                    action,
                ));
            }
            i += 1;
        }
        let ghost mut generic_action = ListenerAction::Stay;
        if !handled {
            if let Some(cb) = generic_listener {
                let answer = cb.call(ctx, channel, frame);
                proof {
                    generic_action = answer;
                }
            }
        }
        proof {
            let was = consumed(old(id_listeners)@, id_actions, old(type_listeners)@, ty_actions, frame@);
            assert(handled == was);
            assert(type_phase(old(type_listeners)@, type_listeners@, frame@, ty_states, ty_actions));
            assert(generic_call_step(
                consumed(old(id_listeners)@, id_actions, old(type_listeners)@, ty_actions, frame@),
                generic_listener,
                frame@,
                ty_states.last(),
                (*ctx, *channel),
                generic_action,
            ));
            assert({
                &&& id_phase(old(id_listeners)@, id_listeners@, frame@, id_states, id_actions)
                &&& id_states[0] == (*old(ctx), *old(channel))
                &&& type_phase(old(type_listeners)@, type_listeners@, frame@, ty_states, ty_actions)
                &&& ty_states[0] == id_states.last()
                &&& generic_call_step(
                    consumed(old(id_listeners)@, id_actions, old(type_listeners)@, ty_actions, frame@),
                    generic_listener,
                    frame@,
                    ty_states.last(),
                    (*ctx, *channel),
                    generic_action,
                )
            });
            assert(id_then_type_outcome(
                old(id_listeners)@,
                id_listeners@,
                old(type_listeners)@,
                type_listeners@,
                generic_listener,
                frame@,
                *old(ctx),
                *old(channel),
                *ctx,
                *channel,
            ));
        }
    }
}

} // verus!
