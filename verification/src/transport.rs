use vstd::prelude::*;

verus! {

/// Byte output backend used by the protocol engine.
///
/// Typical embedded implementations wrap UART/SPI/USB CDC drivers.
///
/// `sent` is the stream of bytes that the transport has accepted for
/// transmission, in order. A successful `write` appends its bytes to it, and
/// the frame hooks `begin_frame` and `end_frame` add none. After a failed
/// call, and after `abort_frame`, nothing is promised of it.
pub trait Transport: Sized {
    type Error;

    /// Given by each transport; one that leaves it out has no model.
    open spec fn sent(&self) -> Seq<u8> {
        arbitrary()
    }

    /// The transport's calls never fail. A transport that leaves this out
    /// makes no such promise.
    open spec fn never_fails() -> bool {
        false
    }

    fn begin_frame(&mut self) -> (r: Result<(), Self::Error>)
        ensures
            r is Ok ==> final(self).sent() == old(self).sent(),
            Self::never_fails() ==> r is Ok,
        default_ensures
            r is Ok,
            *final(self) == *old(self),
    {
        Ok(())
    }

    fn write(&mut self, bytes: &[u8]) -> (r: Result<(), Self::Error>)
        ensures
            r is Ok ==> final(self).sent() == old(self).sent() + bytes@,
            Self::never_fails() ==> r is Ok,
    ;

    fn end_frame(&mut self) -> (r: Result<(), Self::Error>)
        ensures
            r is Ok ==> final(self).sent() == old(self).sent(),
            Self::never_fails() ==> r is Ok,
        default_ensures
            r is Ok,
            *final(self) == *old(self),
    {
        Ok(())
    }

    fn abort_frame(&mut self) {
    }
}

/// The smaller of two lengths.
pub open spec fn min_len(a: int, b: int) -> int {
    if a <= b {
        a
    } else {
        b
    }
}

/// Fixed-capacity in-memory transport used by tests and host-side simulation.
///
/// It keeps the first `N` bytes written since creation or the last `clear`,
/// and silently drops the rest.
pub struct BufferTransport<const N: usize> {
    tx: Vec<u8>,
    log: Ghost<Seq<u8>>,
}

impl<const N: usize> BufferTransport<N> {
    #[verifier::type_invariant]
    spec fn inv(self) -> bool {
        self.tx@ == self.log@.take(min_len(N as int, self.log@.len() as int))
    }

    /// Create empty transport buffer.
    pub fn new() -> (r: Self)
        ensures
            r.sent() == Seq::<u8>::empty(),
    {
        assert(Seq::<u8>::empty().take(0) =~= Seq::<u8>::empty());
        Self { tx: Vec::new(), log: Ghost(Seq::empty()) }
    }

    /// Return accumulated TX bytes: the first `N` bytes sent since creation
    /// or the last `clear`.
    pub fn bytes(&self) -> (r: &[u8])
        ensures
            r@ == self.sent().take(min_len(N as int, self.sent().len() as int)),
    {
        proof {
            use_type_invariant(self);
        }
        self.tx.as_slice()
    }

    /// Clear accumulated TX bytes.
    pub fn clear(&mut self)
        ensures
            final(self).sent() == Seq::<u8>::empty(),
    {
        *self = Self::new();
    }
}

impl<const N: usize> Default for BufferTransport<N> {
    fn default() -> (r: Self)
        ensures
            r.sent() == Seq::<u8>::empty(),
    {
        Self::new()
    }
}

impl<const N: usize> Transport for BufferTransport<N> {
    type Error = ();

    closed spec fn sent(&self) -> Seq<u8> {
        self.log@
    }

    /// Writing to the buffer never fails: bytes past its capacity are
    /// dropped.
    open spec fn never_fails() -> bool {
        true
    }

    fn write(&mut self, bytes: &[u8]) -> (r: Result<(), ()>)
        ensures
            r is Ok,
    {
        proof {
            use_type_invariant(&*self);
        }
        let room = N - self.tx.len();
        let take = if room < bytes.len() {
            room
        } else {
            bytes.len()
        };
        let ghost new_log = self.log@ + bytes@;
        let ghost base = self.tx@;
        let mut current = Self::new();
        std::mem::swap(self, &mut current);
        let BufferTransport { tx: mut tx, log: _ } = current;
        let mut i: usize = 0;
        while i < take
            invariant
                i <= take,
                take <= bytes@.len(),
                base.len() + take <= N,
                tx@ == base + bytes@.take(i as int),
            decreases take - i,
        {
            tx.push(bytes[i]);
            i += 1;
            assert(bytes@.take(i as int) =~= bytes@.take(i - 1) .push(bytes@[i - 1]));
        }
        proof {
            let n = min_len(N as int, new_log.len() as int);
            assert(tx@ =~= new_log.take(n));
        }
        *self = Self { tx, log: Ghost(new_log) };
        Ok(())
    }
}

} // verus!
