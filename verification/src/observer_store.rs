use vstd::prelude::*;
use crate::channel::FrameChannel;
use crate::checksum::Checksum;
use crate::error::Error;
use crate::frame::{FrameView, ReceivedFrame};
use crate::listener::{FrameCallback, IdListener, ListenerAction, ListenerId, TypeListener};
use crate::strategy::IdAllocator;
use crate::transport::Transport;

verus! {

/// Slot `i` is the first free slot of `table`.
pub open spec fn first_free<X>(table: Seq<Option<X>>, i: int) -> bool {
    &&& 0 <= i < table.len()
    &&& table[i] is None
    &&& forall|j: int| 0 <= j < i ==> table[j] is Some
}

/// Every slot of `table` is taken.
pub open spec fn all_taken<X>(table: Seq<Option<X>>) -> bool {
    forall|j: int| 0 <= j < table.len() ==> table[j] is Some
}

/// The slot holds an ID listener for frame ID `id`.
pub open spec fn id_match<F>(slot: Option<IdListener<F>>, id: u32) -> bool {
    slot is Some && slot->Some_0.id == id
}

/// The slot holds a type listener for message type `typ`.
pub open spec fn type_match<F>(slot: Option<TypeListener<F>>, typ: u32) -> bool {
    slot is Some && slot->Some_0.typ == typ
}

/// Slot `i` is the first one of `table` whose ID listener listens for `id`.
pub open spec fn first_id_match<F>(table: Seq<Option<IdListener<F>>>, id: u32, i: int) -> bool {
    &&& 0 <= i < table.len()
    &&& id_match(table[i], id)
    &&& forall|j: int| 0 <= j < i ==> !id_match(#[trigger] table[j], id)
}

/// Slot `i` is the first one of `table` whose type listener listens for `typ`.
pub open spec fn first_type_match<F>(table: Seq<Option<TypeListener<F>>>, typ: u32, i: int) -> bool {
    &&& 0 <= i < table.len()
    &&& type_match(table[i], typ)
    &&& forall|j: int| 0 <= j < i ==> !type_match(#[trigger] table[j], typ)
}

/// An ID listener slot after one timer tick: a running timeout counts down,
/// and a listener whose timeout runs out leaves its slot. A timeout of 0
/// never runs out.
pub open spec fn tick_slot<F>(slot: Option<IdListener<F>>) -> Option<IdListener<F>> {
    match slot {
        Some(l) => if l.timeout_left == 1 {
            None
        } else if l.timeout_left > 1 {
            Some(IdListener { timeout_left: (l.timeout_left - 1) as u16, ..l })
        } else {
            Some(l)
        },
        None => None,
    }
}

/// Registering `entry`: it takes the first free slot, whose index is
/// returned; with no free slot the table is unchanged and the call fails.
pub open spec fn add_outcome<X, E>(
    table: Seq<Option<X>>,
    new_table: Seq<Option<X>>,
    entry: X,
    r: Result<ListenerId, Error<E>>,
) -> bool {
    match r {
        Ok(slot) => {
            &&& first_free(table, slot as int)
            &&& new_table == table.update(slot as int, Some(entry))
        },
        Err(e) => {
            &&& e == Error::<E>::NoListenerSlot
            &&& all_taken(table)
            &&& new_table == table
        },
    }
}

/// Freeing slot `slot`: the result tells whether it held a listener; an
/// index past the table changes nothing.
pub open spec fn remove_slot_outcome<X>(
    table: Seq<Option<X>>,
    new_table: Seq<Option<X>>,
    slot: ListenerId,
    r: bool,
) -> bool {
    &&& r == (slot < table.len() && table[slot as int] is Some)
    &&& new_table == if slot < table.len() {
        table.update(slot as int, None)
    } else {
        table
    }
}

/// Removing the first ID listener for `frame_id`, if any.
pub open spec fn remove_id_outcome<F>(
    table: Seq<Option<IdListener<F>>>,
    new_table: Seq<Option<IdListener<F>>>,
    frame_id: u32,
    r: bool,
) -> bool {
    &&& r == exists|i: int| first_id_match(table, frame_id, i)
    &&& forall|i: int| first_id_match(table, frame_id, i) ==> new_table == table.update(i, None)
    &&& !r ==> new_table == table
}

/// Removing the first type listener for `typ`, if any.
pub open spec fn remove_type_outcome<F>(
    table: Seq<Option<TypeListener<F>>>,
    new_table: Seq<Option<TypeListener<F>>>,
    typ: u32,
    r: bool,
) -> bool {
    &&& r == exists|i: int| first_type_match(table, typ, i)
    &&& forall|i: int| first_type_match(table, typ, i) ==> new_table == table.update(i, None)
    &&& !r ==> new_table == table
}

/// Renewing the timeout of the first ID listener for `frame_id`, if any.
pub open spec fn renew_outcome<F>(
    table: Seq<Option<IdListener<F>>>,
    new_table: Seq<Option<IdListener<F>>>,
    frame_id: u32,
    r: bool,
) -> bool {
    &&& r == exists|i: int| first_id_match(table, frame_id, i)
    &&& forall|i: int|
        first_id_match(table, frame_id, i) ==> new_table == table.update(
            i,
            Some(table[i]->Some_0.renewed()),
        )
    &&& !r ==> new_table == table
}

/// The slot holds an ID listener whose timeout runs out at the next tick.
pub open spec fn expires<F>(slot: Option<IdListener<F>>) -> bool {
    slot is Some && slot->Some_0.timeout_left == 1
}

/// All ID listener slots after one timer tick.
pub open spec fn tick_table<F>(table: Seq<Option<IdListener<F>>>) -> Seq<Option<IdListener<F>>> {
    table.map_values(|slot: Option<IdListener<F>>| tick_slot(slot))
}

/// The frame an ID listener for `id` is called with when its timeout runs
/// out: type 0, no payload, marked as timed out.
pub open spec fn timeout_frame(id: u32) -> FrameView {
    FrameView { id, typ: 0, data: Seq::empty(), timed_out: true }
}

/// One ID listener slot at a tick: a listener whose timeout runs out is
/// called once with its timeout frame, taking context and channel from
/// `before` to `after` and answering `action` (which is not used); any other
/// slot leaves them as they were.
pub open spec fn timeout_call_step<C, T, K, A, F, const ID: usize, const LEN: usize, const TY: usize>(
    slot: Option<IdListener<F>>,
    before: (C, FrameChannel<T, K, ID, LEN, TY, A>),
    after: (C, FrameChannel<T, K, ID, LEN, TY, A>),
    action: ListenerAction,
) -> bool where
    T: Transport,
    K: Checksum,
    A: IdAllocator,
    F: FrameCallback<C, T, K, A, ID, LEN, TY>,
 {
    if expires(slot) {
        slot->Some_0.on_frame.spec_call(
            before.0,
            before.1,
            timeout_frame(slot->Some_0.id),
            after.0,
            after.1,
            action,
        )
    } else {
        after == before
    }
}

/// The timeout calls of one tick, slot by slot: `states[i]` is the context
/// and channel before slot `i` (and `states[len]` after the last).
pub open spec fn timeout_phase<C, T, K, A, F, const ID: usize, const LEN: usize, const TY: usize>(
    table: Seq<Option<IdListener<F>>>,
    states: Seq<(C, FrameChannel<T, K, ID, LEN, TY, A>)>,
    actions: Seq<ListenerAction>,
) -> bool where
    T: Transport,
    K: Checksum,
    A: IdAllocator,
    F: FrameCallback<C, T, K, A, ID, LEN, TY>,
 {
    &&& states.len() == table.len() + 1
    &&& actions.len() == table.len()
    &&& forall|i: int|
        #![trigger actions[i]]
        0 <= i < table.len() ==> timeout_call_step(table[i], states[i], states[i + 1], actions[i])
}

/// What the listener timeouts of one tick do to the context and channel:
/// every ID listener whose timeout runs out is called once, in slot order,
/// with its timeout frame and the context and channel that the previous
/// call left behind.
pub open spec fn timeout_notifications<C, T, K, A, F, const ID: usize, const LEN: usize, const TY: usize>(
    table: Seq<Option<IdListener<F>>>,
    ctx: C,
    channel: FrameChannel<T, K, ID, LEN, TY, A>,
    new_ctx: C,
    new_channel: FrameChannel<T, K, ID, LEN, TY, A>,
) -> bool where
    T: Transport,
    K: Checksum,
    A: IdAllocator,
    F: FrameCallback<C, T, K, A, ID, LEN, TY>,
 {
    exists|states: Seq<(C, FrameChannel<T, K, ID, LEN, TY, A>)>, actions: Seq<ListenerAction>|
        #![trigger timeout_phase(table, states, actions)]
        {
            &&& timeout_phase(table, states, actions)
            &&& states[0] == (ctx, channel)
            &&& states.last() == (new_ctx, new_channel)
        }
}

/// Fixed-capacity listener tables: `IDS` ID listener slots, `TYPES` type
/// listener slots and one catch-all listener.
pub struct ObserverStore<F, const IDS: usize, const TYPES: usize> {
    pub id_listeners: Vec<Option<IdListener<F>>>,
    pub type_listeners: Vec<Option<TypeListener<F>>>,
    pub generic_listener: Option<F>,
}

impl<F: Copy, const IDS: usize, const TYPES: usize> ObserverStore<F, IDS, TYPES> {
    /// The tables have their fixed number of slots.
    pub open spec fn wf(&self) -> bool {
        &&& self.id_listeners@.len() == IDS
        &&& self.type_listeners@.len() == TYPES
    }

    pub fn new() -> (r: Self)
        ensures
            r.wf(),
            forall|i: int| 0 <= i < IDS ==> r.id_listeners@[i] is None,
            forall|i: int| 0 <= i < TYPES ==> r.type_listeners@[i] is None,
            r.generic_listener is None,
    {
        let mut id_listeners: Vec<Option<IdListener<F>>> = Vec::new();
        let mut i: usize = 0;
        while i < IDS
            invariant
                i <= IDS,
                id_listeners@.len() == i,
                forall|j: int| 0 <= j < i ==> id_listeners@[j] is None,
            decreases IDS - i,
        {
            id_listeners.push(None);
            i += 1;
        }
        let mut type_listeners: Vec<Option<TypeListener<F>>> = Vec::new();
        let mut i: usize = 0;
        while i < TYPES
            invariant
                i <= TYPES,
                type_listeners@.len() == i,
                forall|j: int| 0 <= j < i ==> type_listeners@[j] is None,
            decreases TYPES - i,
        {
            type_listeners.push(None);
            i += 1;
        }
        Self { id_listeners, type_listeners, generic_listener: None }
    }

    /// Register an ID listener in the first free slot.
    pub fn add_id_listener<E>(&mut self, id: u32, timeout_ticks: u16, on_frame: F) -> (r: Result<
        ListenerId,
        Error<E>,
    >)
        requires
            old(self).wf(),
        ensures
            final(self).wf(),
            final(self).type_listeners@ == old(self).type_listeners@,
            final(self).generic_listener == old(self).generic_listener,
            add_outcome(
                old(self).id_listeners@,
                final(self).id_listeners@,
                IdListener { id, timeout_left: timeout_ticks, timeout_max: timeout_ticks, on_frame },
                r,
            ),
    {
        let mut slot: usize = 0;
        while slot < self.id_listeners.len()
            invariant
                self.wf(),
                slot <= IDS,
                self.id_listeners@ == old(self).id_listeners@,
                self.type_listeners@ == old(self).type_listeners@,
                self.generic_listener == old(self).generic_listener,
                forall|j: int| 0 <= j < slot ==> self.id_listeners@[j] is Some,
            decreases IDS - slot,
        {
            if self.id_listeners[slot].is_none() {
                self.id_listeners.set(
                    slot,
                    Some(
                        IdListener {
                            id,
                            timeout_left: timeout_ticks,
                            timeout_max: timeout_ticks,
                            on_frame,
                        },
                    ),
                );
                return Ok(slot);
            }
            slot += 1;
        }
        Err(Error::NoListenerSlot)
    }

    /// Register a type listener in the first free slot.
    pub fn add_type_listener<E>(&mut self, typ: u32, on_frame: F) -> (r: Result<ListenerId, Error<E>>)
        requires
            old(self).wf(),
        ensures
            final(self).wf(),
            final(self).id_listeners@ == old(self).id_listeners@,
            final(self).generic_listener == old(self).generic_listener,
            add_outcome(
                old(self).type_listeners@,
                final(self).type_listeners@,
                TypeListener { typ, on_frame },
                r,
            ),
    {
        let mut slot: usize = 0;
        while slot < self.type_listeners.len()
            invariant
                self.wf(),
                slot <= TYPES,
                self.id_listeners@ == old(self).id_listeners@,
                self.type_listeners@ == old(self).type_listeners@,
                self.generic_listener == old(self).generic_listener,
                forall|j: int| 0 <= j < slot ==> self.type_listeners@[j] is Some,
            decreases TYPES - slot,
        {
            if self.type_listeners[slot].is_none() {
                self.type_listeners.set(slot, Some(TypeListener { typ, on_frame }));
                return Ok(slot);
            }
            slot += 1;
        }
        Err(Error::NoListenerSlot)
    }

    /// Free ID listener slot `listener_id`; true when it held a listener.
    pub fn remove_id_listener(&mut self, listener_id: ListenerId) -> (r: bool)
        requires
            old(self).wf(),
        ensures
            final(self).wf(),
            remove_slot_outcome(old(self).id_listeners@, final(self).id_listeners@, listener_id, r),
            final(self).type_listeners@ == old(self).type_listeners@,
            final(self).generic_listener == old(self).generic_listener,
    {
        if listener_id < IDS {
            let was = self.id_listeners[listener_id].is_some();
            self.id_listeners.set(listener_id, None);
            was
        } else {
            false
        }
    }

    /// Free type listener slot `listener_id`; true when it held a listener.
    pub fn remove_type_listener(&mut self, listener_id: ListenerId) -> (r: bool)
        requires
            old(self).wf(),
        ensures
            final(self).wf(),
            remove_slot_outcome(old(self).type_listeners@, final(self).type_listeners@, listener_id, r),
            final(self).id_listeners@ == old(self).id_listeners@,
            final(self).generic_listener == old(self).generic_listener,
    {
        if listener_id < TYPES {
            let was = self.type_listeners[listener_id].is_some();
            self.type_listeners.set(listener_id, None);
            was
        } else {
            false
        }
    }

    /// Remove the first ID listener for frame ID `frame_id`; true when there
    /// was one.
    pub fn remove_id_listener_by_frame_id(&mut self, frame_id: u32) -> (r: bool)
        requires
            old(self).wf(),
        ensures
            final(self).wf(),
            remove_id_outcome(old(self).id_listeners@, final(self).id_listeners@, frame_id, r),
            final(self).type_listeners@ == old(self).type_listeners@,
            final(self).generic_listener == old(self).generic_listener,
    {
        let mut i: usize = 0;
        while i < self.id_listeners.len()
            invariant
                self.wf(),
                i <= IDS,
                self.id_listeners@ == old(self).id_listeners@,
                self.type_listeners@ == old(self).type_listeners@,
                self.generic_listener == old(self).generic_listener,
                forall|j: int| 0 <= j < i ==> !id_match(#[trigger] self.id_listeners@[j], frame_id),
            decreases IDS - i,
        {
            let hit = match self.id_listeners[i] {
                Some(l) => l.id == frame_id,
                None => false,
            };
            if hit {
                self.id_listeners.set(i, None);
                proof {
                    assert(first_id_match(old(self).id_listeners@, frame_id, i as int));
                    assert forall|k: int| first_id_match(old(self).id_listeners@, frame_id, k) implies k
                        == i by {
                        if k < i {
                        } else if k > i {
                            assert(!id_match(old(self).id_listeners@[i as int], frame_id));
                        }
                    }
                }
                return true;
            }
            i += 1;
        }
        false
    }

    /// Remove the first type listener for message type `typ`; true when
    /// there was one.
    pub fn remove_type_listener_by_type(&mut self, typ: u32) -> (r: bool)
        requires
            old(self).wf(),
        ensures
            final(self).wf(),
            remove_type_outcome(old(self).type_listeners@, final(self).type_listeners@, typ, r),
            final(self).id_listeners@ == old(self).id_listeners@,
            final(self).generic_listener == old(self).generic_listener,
    {
        let mut i: usize = 0;
        while i < self.type_listeners.len()
            invariant
                self.wf(),
                i <= TYPES,
                self.id_listeners@ == old(self).id_listeners@,
                self.type_listeners@ == old(self).type_listeners@,
                self.generic_listener == old(self).generic_listener,
                forall|j: int| 0 <= j < i ==> !type_match(#[trigger] self.type_listeners@[j], typ),
            decreases TYPES - i,
        {
            let hit = match self.type_listeners[i] {
                Some(l) => l.typ == typ,
                None => false,
            };
            if hit {
                self.type_listeners.set(i, None);
                proof {
                    assert(first_type_match(old(self).type_listeners@, typ, i as int));
                    assert forall|k: int| first_type_match(old(self).type_listeners@, typ, k) implies k
                        == i by {
                        if k < i {
                        } else if k > i {
                            assert(!type_match(old(self).type_listeners@[i as int], typ));
                        }
                    }
                }
                return true;
            }
            i += 1;
        }
        false
    }

    /// Renew the timeout of the first ID listener for frame ID `frame_id`;
    /// true when there was one.
    pub fn renew_id_listener(&mut self, frame_id: u32) -> (r: bool)
        requires
            old(self).wf(),
        ensures
            final(self).wf(),
            renew_outcome(old(self).id_listeners@, final(self).id_listeners@, frame_id, r),
            final(self).type_listeners@ == old(self).type_listeners@,
            final(self).generic_listener == old(self).generic_listener,
    {
        let mut i: usize = 0;
        while i < self.id_listeners.len()
            invariant
                self.wf(),
                i <= IDS,
                self.id_listeners@ == old(self).id_listeners@,
                self.type_listeners@ == old(self).type_listeners@,
                self.generic_listener == old(self).generic_listener,
                forall|j: int| 0 <= j < i ==> !id_match(#[trigger] self.id_listeners@[j], frame_id),
            decreases IDS - i,
        {
            match self.id_listeners[i] {
                Some(l) => {
                    if l.id == frame_id {
                        let renewed = IdListener { timeout_left: l.timeout_max, ..l };
                        self.id_listeners.set(i, Some(renewed));
                        proof {
                            assert(first_id_match(old(self).id_listeners@, frame_id, i as int));
                            assert forall|k: int|
                                first_id_match(old(self).id_listeners@, frame_id, k) implies k
                                == i by {
                                if k < i {
                                } else if k > i {
                                    assert(!id_match(old(self).id_listeners@[i as int], frame_id));
                                }
                            }
                        }
                        return true;
                    }
                },
                None => {},
            }
            i += 1;
        }
        false
    }

    /// One timer tick for the ID listeners: running timeouts count down, and
    /// each listener whose timeout runs out is removed and called once, in
    /// slot order, with a timed-out frame for its ID (type 0, no data).
    pub fn tick_timeouts<C, T, K, A, const ID: usize, const LEN: usize, const TY: usize>(
        &mut self,
        ctx: &mut C,
        channel: &mut FrameChannel<T, K, ID, LEN, TY, A>,
    ) where T: Transport, K: Checksum, A: IdAllocator, F: FrameCallback<C, T, K, A, ID, LEN, TY>
        requires
            old(self).wf(),
        ensures
            final(self).wf(),
            final(self).id_listeners@ == tick_table(old(self).id_listeners@),
            final(self).type_listeners@ == old(self).type_listeners@,
            final(self).generic_listener == old(self).generic_listener,
            (forall|i: int| 0 <= i < IDS ==> !expires(#[trigger] old(self).id_listeners@[i])) ==> {
                &&& *final(ctx) == *old(ctx)
                &&& *final(channel) == *old(channel)
            },
            timeout_notifications(old(self).id_listeners@, *old(ctx), *old(channel), *final(ctx), *final(channel)),
    {
        let empty: [u8; 0] = [];
        let ghost mut states: Seq<(C, FrameChannel<T, K, ID, LEN, TY, A>)> = seq![(*ctx, *channel)];
        let ghost mut actions: Seq<ListenerAction> = Seq::empty();
        let mut i: usize = 0;
        while i < IDS
            invariant
                self.wf(),
                i <= IDS,
                self.type_listeners@ == old(self).type_listeners@,
                self.generic_listener == old(self).generic_listener,
                forall|j: int| 0 <= j < i ==> self.id_listeners@[j] == tick_slot(old(self).id_listeners@[j]),
                forall|j: int| i <= j < IDS ==> self.id_listeners@[j] == old(self).id_listeners@[j],
                (forall|j: int| 0 <= j < i ==> !expires(#[trigger] old(self).id_listeners@[j])) ==> {
                    &&& *ctx == *old(ctx)
                    &&& *channel == *old(channel)
                },
                old(self).id_listeners@.len() == IDS,
                states.len() == i + 1,
                actions.len() == i,
                states[0] == (*old(ctx), *old(channel)),
                states.last() == (*ctx, *channel),
                forall|j: int|
                    #![trigger actions[j]]
                    0 <= j < i ==> timeout_call_step(
                        old(self).id_listeners@[j],
                        states[j],
                        states[j + 1],
                        actions[j],
                    ),
            decreases IDS - i,
        {
            let ghost before = (*ctx, *channel);
            let ghost mut action = ListenerAction::Stay;
            let slot = self.id_listeners[i];
            self.id_listeners.set(i, None);
            match slot {
                Some(entry) => {
                    let mut entry = entry;
                    let mut expired = false;
                    if entry.timeout_left > 0 {
                        entry.timeout_left -= 1;
                        if entry.timeout_left == 0 {
                            expired = true;
                            let frame = ReceivedFrame {
                                id: entry.id,
                                typ: 0,
                                data: &empty,
                                timed_out: true,
                            };
                            assert(frame@ == timeout_frame(entry.id)) by {
                                assert(frame@.data =~= Seq::<u8>::empty());
                            }
                            let answer = entry.on_frame.call(ctx, channel, frame);
                            proof {
                                action = answer;
                            }
                        }
                    }
                    if !expired {
                        self.id_listeners.set(i, Some(entry));
                    }
                },
                None => {},
            }
            proof {
                states = states.push((*ctx, *channel));
                actions = actions.push(action);
                assert(timeout_call_step(old(self).id_listeners@[i as int], before, (*ctx, *channel), action));
            }
            i += 1;
        }
        assert(timeout_phase(old(self).id_listeners@, states, actions));
        assert(self.id_listeners@ =~= old(self).id_listeners@.map_values(
            |slot: Option<IdListener<F>>| tick_slot(slot),
        ));
    }
}

} // verus!
