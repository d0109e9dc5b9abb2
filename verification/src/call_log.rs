use vstd::prelude::*;
use crate::error::Error;

verus! {

/// A call that the transmit path made to its transport, with what it
/// returned.
pub ghost enum TransportCall<E> {
    Begin(Result<(), E>),
    Write(Seq<u8>, Result<(), E>),
    End(Result<(), E>),
    Abort,
}

/// A transport call that the transmit path means to make.
pub ghost enum PlannedCall {
    Begin,
    Write(Seq<u8>),
    End,
}

impl<E> TransportCall<E> {
    /// What the call returned (`abort_frame` returns nothing).
    pub open spec fn result(self) -> Result<(), E> {
        match self {
            TransportCall::Begin(r) => r,
            TransportCall::Write(_, r) => r,
            TransportCall::End(r) => r,
            TransportCall::Abort => Ok(()),
        }
    }

    /// The call is the planned call `p`.
    pub open spec fn does(self, p: PlannedCall) -> bool {
        match (self, p) {
            (TransportCall::Begin(_), PlannedCall::Begin) => true,
            (TransportCall::Write(b, _), PlannedCall::Write(c)) => b == c,
            (TransportCall::End(_), PlannedCall::End) => true,
            _ => false,
        }
    }
}

/// `seg` carried out every call of `plan`, in order, and each succeeded.
pub open spec fn ran_ok<E>(seg: Seq<TransportCall<E>>, plan: Seq<PlannedCall>) -> bool {
    &&& seg.len() == plan.len()
    &&& forall|i: int| 0 <= i < seg.len() ==> #[trigger] seg[i].does(plan[i]) && seg[i].result() is Ok
}

/// `seg` carried out the calls of `plan` in order up to the first one that
/// failed, and stopped there.
pub open spec fn ran_to_failure<E>(seg: Seq<TransportCall<E>>, plan: Seq<PlannedCall>) -> bool {
    &&& 0 < seg.len() <= plan.len()
    &&& forall|i: int| 0 <= i < seg.len() ==> #[trigger] seg[i].does(plan[i])
    &&& forall|i: int| 0 <= i < seg.len() - 1 ==> (#[trigger] seg[i]).result() is Ok
    &&& seg.last().result() is Err
}

/// `seg` is the log of carrying out `plan`: every call succeeded, or the
/// calls stopped at the first failing one, which `abort_frame` follows.
pub open spec fn run_log<E>(seg: Seq<TransportCall<E>>, plan: Seq<PlannedCall>) -> bool {
    ||| ran_ok(seg, plan)
    ||| {
        &&& seg.len() > 0
        &&& seg.last() == TransportCall::<E>::Abort
        &&& ran_to_failure(seg.drop_last(), plan)
    }
}

/// The error of the failing call of a run that failed and was aborted.
pub open spec fn run_error<E>(seg: Seq<TransportCall<E>>) -> E {
    seg.drop_last().last().result()->Err_0
}

/// The calls that `new` holds past `old`, of which it is an extension.
pub open spec fn appended<X>(old: Seq<X>, new: Seq<X>) -> Seq<X> {
    new.subrange(old.len() as int, new.len() as int)
}

/// `new` is `old` with calls added at the end.
pub open spec fn extends<X>(old: Seq<X>, new: Seq<X>) -> bool {
    &&& old.len() <= new.len()
    &&& new.subrange(0, old.len() as int) == old
}

/// The error a call returned, if it failed.
pub open spec fn error_of<X, E>(r: Result<X, Error<E>>) -> Option<Error<E>> {
    match r {
        Ok(_) => None,
        Err(e) => Some(e),
    }
}

/// The transmit path carried out `plan` on its transport, adding to its log
/// `old` the calls that `new` holds past it; `err` is what the run gives:
/// no error exactly when every call succeeded, else the failing call's error,
/// after which the frame was aborted.
#[verifier::opaque]
pub open spec fn plan_outcome<E>(
    old: Seq<TransportCall<E>>,
    new: Seq<TransportCall<E>>,
    plan: Seq<PlannedCall>,
    err: Option<Error<E>>,
) -> bool {
    let seg = appended(old, new);
    &&& extends(old, new)
    &&& run_log(seg, plan)
    &&& (err is None) == ran_ok(seg, plan)
    &&& err is Some ==> err == Some(Error::Transport(run_error(seg)))
}

/// A log that extends another is it with the new calls at the end.
pub proof fn lemma_extends<X>(old: Seq<X>, new: Seq<X>)
    requires
        extends(old, new),
    ensures
        new == old + appended(old, new),
{
    assert(new =~= old + appended(old, new));
}

/// A run that failed, followed by `abort_frame`, has the outcome of the
/// failing call's error.
pub proof fn lemma_failed_then_aborted<E>(old: Seq<TransportCall<E>>, seg: Seq<TransportCall<E>>, plan: Seq<PlannedCall>)
    requires
        ran_to_failure(seg, plan),
    ensures
        plan_outcome(
            old,
            old + seg.push(TransportCall::Abort),
            plan,
            Some(Error::Transport(seg.last().result()->Err_0)),
        ),
{
    reveal(plan_outcome);
    let new = old + seg.push(TransportCall::Abort);
    assert(appended(old, new) =~= seg.push(TransportCall::Abort));
    assert(new.subrange(0, old.len() as int) =~= old);
    assert(seg.push(TransportCall::<E>::Abort).drop_last() =~= seg);
    let s = seg.push(TransportCall::<E>::Abort);
    assert(s[s.len() - 1] == TransportCall::<E>::Abort);
    assert(!ran_ok(s, plan)) by {
        if ran_ok(s, plan) {
            assert(s[s.len() - 1].does(plan[s.len() - 1]));
        }
    }
}

/// A run in which every call succeeded has the outcome of no error.
pub proof fn lemma_succeeded<E>(old: Seq<TransportCall<E>>, seg: Seq<TransportCall<E>>, plan: Seq<PlannedCall>)
    requires
        ran_ok(seg, plan),
    ensures
        plan_outcome(old, old + seg, plan, None),
{
    reveal(plan_outcome);
    let new = old + seg;
    assert(appended(old, new) =~= seg);
    assert(new.subrange(0, old.len() as int) =~= old);
}

/// An empty plan runs with no call.
pub proof fn lemma_ran_empty<E>()
    ensures
        ran_ok(Seq::<TransportCall<E>>::empty(), Seq::<PlannedCall>::empty()),
{
}

/// A successful call extends a successful run by one planned call.
pub proof fn lemma_ran_ok_push<E>(seg: Seq<TransportCall<E>>, plan: Seq<PlannedCall>, c: TransportCall<E>, p: PlannedCall)
    requires
        ran_ok(seg, plan),
        c.does(p),
        c.result() is Ok,
    ensures
        ran_ok(seg.push(c), plan.push(p)),
{
    assert forall|i: int| 0 <= i < seg.push(c).len() implies #[trigger] seg.push(c)[i].does(plan.push(p)[i])
        && seg.push(c)[i].result() is Ok by {
        if i < seg.len() {
            assert(seg[i].does(plan[i]));
        }
    }
}

/// A failing call after a successful run ends a run of any plan that goes on
/// with it.
pub proof fn lemma_ran_fail_push<E>(
    seg: Seq<TransportCall<E>>,
    plan: Seq<PlannedCall>,
    c: TransportCall<E>,
    p: PlannedCall,
    rest: Seq<PlannedCall>,
)
    requires
        ran_ok(seg, plan),
        c.does(p),
        c.result() is Err,
    ensures
        ran_to_failure(seg.push(c), plan.push(p) + rest),
{
    let full = plan.push(p) + rest;
    assert forall|i: int| 0 <= i < seg.push(c).len() implies #[trigger] seg.push(c)[i].does(full[i]) by {
        if i < seg.len() {
            assert(seg[i].does(plan[i]));
        }
    }
    assert forall|i: int| 0 <= i < seg.push(c).len() - 1 implies (#[trigger] seg.push(c)[i]).result() is Ok by {
        assert(seg[i].does(plan[i]));
    }
}

/// Two successful runs, one after the other, are a successful run of both
/// plans.
pub proof fn lemma_ran_ok_cat<E>(s1: Seq<TransportCall<E>>, p1: Seq<PlannedCall>, s2: Seq<TransportCall<E>>, p2: Seq<PlannedCall>)
    requires
        ran_ok(s1, p1),
        ran_ok(s2, p2),
    ensures
        ran_ok(s1 + s2, p1 + p2),
{
    assert forall|i: int| 0 <= i < (s1 + s2).len() implies #[trigger] (s1 + s2)[i].does((p1 + p2)[i])
        && (s1 + s2)[i].result() is Ok by {
        if i < s1.len() {
            assert(s1[i].does(p1[i]));
        } else {
            assert(s2[i - s1.len()].does(p2[i - s1.len()]));
        }
    }
}

/// A successful run followed by a failed one is a failed run of both plans
/// and anything after them.
pub proof fn lemma_ran_fail_cat<E>(
    s1: Seq<TransportCall<E>>,
    p1: Seq<PlannedCall>,
    s2: Seq<TransportCall<E>>,
    p2: Seq<PlannedCall>,
    rest: Seq<PlannedCall>,
)
    requires
        ran_ok(s1, p1),
        ran_to_failure(s2, p2),
    ensures
        ran_to_failure(s1 + s2, p1 + p2 + rest),
{
    let full = p1 + p2 + rest;
    let s = s1 + s2;
    assert forall|i: int| 0 <= i < s.len() implies #[trigger] s[i].does(full[i]) by {
        if i < s1.len() {
            assert(s1[i].does(p1[i]));
        } else {
            assert(s2[i - s1.len()].does(p2[i - s1.len()]));
        }
    }
    assert forall|i: int| 0 <= i < s.len() - 1 implies (#[trigger] s[i]).result() is Ok by {
        if i < s1.len() {
            assert(s1[i].does(p1[i]));
        } else {
            assert(s2[i - s1.len()].does(p2[i - s1.len()]));
        }
    }
    assert(s.last() == s2.last());
}

/// A failed run stays one when the plan goes on.
pub proof fn lemma_ran_fail_extend<E>(s: Seq<TransportCall<E>>, p: Seq<PlannedCall>, rest: Seq<PlannedCall>)
    requires
        ran_to_failure(s, p),
    ensures
        ran_to_failure(s, p + rest),
{
    assert forall|i: int| 0 <= i < s.len() implies #[trigger] s[i].does((p + rest)[i]) by {
        assert(s[i].does(p[i]));
    }
}

/// The calls of a run so far, `seg`, carried out the start of `plan`
/// successfully, and `part` carried out the next `sub` calls of it, all
/// successfully or up to a failure. Then `seg + part` carried out the start
/// of `plan` successfully, or `plan` up to a failure; and appending `part` to
/// a log `base + seg` appends `seg + part` to `base`.
pub proof fn lemma_run_continues<E>(
    base: Seq<TransportCall<E>>,
    seg: Seq<TransportCall<E>>,
    plan: Seq<PlannedCall>,
    part: Seq<TransportCall<E>>,
    sub: Seq<PlannedCall>,
)
    requires
        ran_ok(seg, plan.take(seg.len() as int)),
        seg.len() + sub.len() <= plan.len(),
        plan.subrange(seg.len() as int, (seg.len() + sub.len()) as int) == sub,
        ran_ok(part, sub) || ran_to_failure(part, sub),
    ensures
        ran_ok(part, sub) ==> ran_ok(seg + part, plan.take((seg + part).len() as int)),
        ran_to_failure(part, sub) ==> ran_to_failure(seg + part, plan),
        (base + seg) + part == base + (seg + part),
        appended(base, base + (seg + part)) == seg + part,
        extends(base, base + (seg + part)),
{
    assert((base + seg) + part =~= base + (seg + part));
    assert(appended(base, base + (seg + part)) =~= seg + part);
    assert((base + (seg + part)).subrange(0, base.len() as int) =~= base);
    if ran_ok(part, sub) {
        assert(plan.take(seg.len() as int) + sub =~= plan.take((seg + part).len() as int));
        lemma_ran_ok_cat(seg, plan.take(seg.len() as int), part, sub);
        if ran_to_failure(part, sub) {
            assert(part[part.len() - 1].does(sub[part.len() - 1]));
        }
    } else {
        let rest = plan.subrange((seg.len() + sub.len()) as int, plan.len() as int);
        assert(plan.take(seg.len() as int) + sub + rest =~= plan);
        lemma_ran_fail_cat(seg, plan.take(seg.len() as int), part, sub, rest);
    }
}

/// One more call of a run: as `lemma_run_continues` for a single call.
pub proof fn lemma_run_step<E>(
    base: Seq<TransportCall<E>>,
    seg: Seq<TransportCall<E>>,
    plan: Seq<PlannedCall>,
    c: TransportCall<E>,
)
    requires
        ran_ok(seg, plan.take(seg.len() as int)),
        seg.len() < plan.len(),
        c.does(plan[seg.len() as int]),
        c != TransportCall::<E>::Abort,
    ensures
        c.result() is Ok ==> ran_ok(seg.push(c), plan.take((seg.len() + 1) as int)),
        c.result() is Err ==> ran_to_failure(seg.push(c), plan),
        (base + seg).push(c) == base + seg.push(c),
        appended(base, base + seg.push(c)) == seg.push(c),
        extends(base, base + seg.push(c)),
{
    let part = seq![c];
    let sub = seq![plan[seg.len() as int]];
    assert(plan.subrange(seg.len() as int, (seg.len() + 1) as int) =~= sub);
    assert(part[0].does(sub[0]));
    if c.result() is Ok {
        assert(ran_ok(part, sub));
    } else {
        assert(ran_to_failure(part, sub));
    }
    lemma_run_continues(base, seg, plan, part, sub);
    assert(seg + part =~= seg.push(c));
    assert((base + seg).push(c) =~= base + seg.push(c));
}

/// A run that carried out its whole plan successfully.
pub proof fn lemma_run_done<E>(seg: Seq<TransportCall<E>>, plan: Seq<PlannedCall>)
    requires
        ran_ok(seg, plan.take(seg.len() as int)),
        seg.len() == plan.len(),
    ensures
        ran_ok(seg, plan),
{
    assert(plan.take(seg.len() as int) =~= plan);
}

/// The start of a run: no call yet.
pub proof fn lemma_run_start<E>(base: Seq<TransportCall<E>>, plan: Seq<PlannedCall>)
    ensures
        ran_ok(Seq::<TransportCall<E>>::empty(), plan.take(0)),
        base + Seq::<TransportCall<E>>::empty() == base,
{
    assert(plan.take(0) =~= Seq::<PlannedCall>::empty());
    assert(base + Seq::<TransportCall<E>>::empty() =~= base);
}

} // verus!
