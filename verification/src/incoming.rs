//! The fixed-capacity buffer of received ciphertext.
use vstd::prelude::*;
use crate::error::DriverError;

verus! {

/// Received bytes that the engine has not consumed yet.
///
/// The buffer is allocated once with a fixed capacity. Its content, the view,
/// is the part of the transport's byte stream that has been received and not
/// yet discarded: nothing is ever lost from it or repeated in it.
pub struct IncomingBuffer {
    data: Vec<u8>,
    used: usize,
    stream: Ghost<Seq<u8>>,
    consumed: Ghost<nat>,
}

impl View for IncomingBuffer {
    type V = Seq<u8>;

    closed spec fn view(&self) -> Seq<u8> {
        self.data@.subrange(0, self.used as int)
    }
}

impl IncomingBuffer {
    /// The invariant: the content fits the capacity and is exactly what was
    /// received and not discarded.
    pub closed spec fn wf(&self) -> bool {
        &&& self.used <= self.data.len()
        &&& self.used + self.consumed@ == self.stream@.len()
    }

    /// The content is the received stream without the discarded prefix, byte
    /// for byte. This holds of a new buffer and is kept by every append and
    /// discard; only an engine that rewrites the content in place ends it.
    pub open spec fn is_unconsumed_stream(&self) -> bool {
        self@ == self.received().skip(self.discarded() as int)
    }

    /// The number of bytes that the buffer can hold.
    pub closed spec fn spec_capacity(&self) -> usize {
        self.data.len()
    }

    /// The number of bytes that the buffer holds.
    pub closed spec fn spec_used(&self) -> usize {
        self.used
    }

    /// Every byte that was ever appended, in the order of arrival.
    pub closed spec fn received(&self) -> Seq<u8> {
        self.stream@
    }

    /// How many bytes were discarded so far.
    pub closed spec fn discarded(&self) -> nat {
        self.consumed@
    }

    /// The content is as long as `used` says, and never exceeds the capacity.
    pub proof fn lemma_used_within_capacity(&self)
        requires
            self.wf(),
        ensures
            self@.len() == self.spec_used(),
            0 <= self.spec_used() <= self.spec_capacity(),
    {
    }

    /// The content is as long as what was received and not discarded.
    pub proof fn lemma_accounts_for_stream(&self)
        requires
            self.wf(),
        ensures
            self.spec_used() + self.discarded() == self.received().len(),
    {
    }

    /// An empty buffer of the given capacity.
    pub fn new(capacity: usize) -> (b: Self)
        ensures
            b.wf(),
            b.spec_capacity() == capacity,
            b.spec_used() == 0,
            b@ == Seq::<u8>::empty(),
            b.received() == Seq::<u8>::empty(),
            b.discarded() == 0,
            b.is_unconsumed_stream(),
    {
        let b = IncomingBuffer {
            data: vec![0u8; capacity],
            used: 0,
            stream: Ghost(Seq::empty()),
            consumed: Ghost(0),
        };
        assert(b.data@.subrange(0, 0) =~= Seq::<u8>::empty());
        assert(b.stream@.skip(0) =~= Seq::<u8>::empty());
        b
    }

    /// The number of bytes that the buffer can hold.
    #[verifier::when_used_as_spec(spec_capacity)]
    pub fn capacity(&self) -> (n: usize)
        ensures
            n == self.spec_capacity(),
    {
        self.data.len()
    }

    /// The number of bytes that the buffer holds.
    #[verifier::when_used_as_spec(spec_used)]
    pub fn used(&self) -> (n: usize)
        ensures
            n == self.spec_used(),
    {
        self.used
    }

    /// The number of bytes that can still be appended.
    pub fn free(&self) -> (n: usize)
        requires
            self.wf(),
        ensures
            n == self.spec_capacity() - self.spec_used(),
    {
        self.data.len() - self.used
    }

    /// Whether no byte can be appended.
    pub fn is_full(&self) -> (full: bool)
        requires
            self.wf(),
        ensures
            full == (self.spec_used() == self.spec_capacity()),
    {
        self.used == self.data.len()
    }

    /// The content: the bytes to hand to the engine.
    pub fn filled(&self) -> (bytes: &[u8])
        requires
            self.wf(),
        ensures
            bytes@ == self@,
    {
        vstd::slice::slice_subrange(self.data.as_slice(), 0, self.used)
    }

    /// The content, for an engine that works on it in place. What the engine
    /// leaves there is the content afterwards; its length cannot change.
    pub fn filled_mut(&mut self) -> (bytes: &mut [u8])
        requires
            old(self).wf(),
        ensures
            bytes@ == old(self)@,
            final(self).spec_used() == old(self).spec_used(),
            final(self).received() == old(self).received(),
            final(self).discarded() == old(self).discarded(),
            final(bytes)@.len() == bytes@.len() ==> {
                &&& final(self).wf()
                &&& final(self)@ == final(bytes)@
                &&& final(self).spec_capacity() == old(self).spec_capacity()
            },
    {
        let (head, _) = self.data.as_mut_slice().split_at_mut(self.used);
        head
    }

    /// Appends what one transport read delivered.
    ///
    /// Bytes that do not fit are refused as a whole, and the buffer stays as
    /// it was.
    pub fn append(&mut self, bytes: &[u8]) -> (r: Result<(), DriverError>)
        requires
            old(self).wf(),
        ensures
            final(self).wf(),
            final(self).spec_capacity() == old(self).spec_capacity(),
            final(self).discarded() == old(self).discarded(),
            r.is_ok() <==> old(self).spec_used() + bytes@.len() <= old(self).spec_capacity(),
            r.is_ok() ==> {
                &&& final(self)@ == old(self)@ + bytes@
                &&& final(self).received() == old(self).received() + bytes@
                &&& final(self).spec_used() == old(self).spec_used() + bytes@.len()
                &&& old(self).is_unconsumed_stream() ==> final(self).is_unconsumed_stream()
            },
            r.is_err() ==> {
                &&& r == Err::<(), DriverError>(DriverError::InvariantViolation)
                &&& *final(self) == *old(self)
            },
    {
        let n: usize = bytes.len();
        if n > self.data.len() - self.used {
            return Err(DriverError::InvariantViolation);
        }
        let start: usize = self.used;
        let mut i: usize = 0;
        while i < n
            invariant
                old(self).wf(),
                self.stream == old(self).stream,
                self.consumed == old(self).consumed,
                n == bytes@.len(),
                start == old(self).used,
                start + n <= self.data.len(),
                self.data.len() == old(self).data.len(),
                i <= n,
                self.data@.subrange(0, start as int) == old(self).data@.subrange(0, start as int),
                self.data@.subrange(start as int, start + i) == bytes@.subrange(0, i as int),
            decreases n - i,
        {
            let b: u8 = bytes[i];
            self.data.set(start + i, b);
            i = i + 1;
            proof {
                assert(self.data@.subrange(0, start as int) =~= old(self).data@.subrange(
                    0,
                    start as int,
                ));
                assert(self.data@.subrange(start as int, start + i) =~= bytes@.subrange(
                    0,
                    i as int,
                ));
            }
        }
        self.used = start + n;
        proof {
            self.stream@ = self.stream@ + bytes@;
            assert(bytes@.subrange(0, n as int) =~= bytes@);
            assert(self.data@.subrange(0, self.used as int) =~= old(self).data@.subrange(
                0,
                start as int,
            ) + bytes@);
            assert(self.stream@.skip(self.consumed@ as int) =~= old(self).stream@.skip(
                old(self).consumed@ as int,
            ) + bytes@);
            assert(old(self)@.len() == old(self).used);
        }
        Ok(())
    }

    /// Removes the first `count` bytes and moves the rest to the front.
    ///
    /// A count beyond the content is refused, and the buffer stays as it was.
    pub fn discard(&mut self, count: usize) -> (r: Result<(), DriverError>)
        requires
            old(self).wf(),
        ensures
            final(self).wf(),
            final(self).spec_capacity() == old(self).spec_capacity(),
            final(self).received() == old(self).received(),
            r.is_ok() <==> count <= old(self).spec_used(),
            r.is_ok() ==> {
                &&& final(self)@ == old(self)@.skip(count as int)
                &&& final(self).spec_used() == old(self).spec_used() - count
                &&& final(self).discarded() == old(self).discarded() + count
                &&& old(self).is_unconsumed_stream() ==> final(self).is_unconsumed_stream()
            },
            r.is_err() ==> {
                &&& r == Err::<(), DriverError>(DriverError::InvariantViolation)
                &&& *final(self) == *old(self)
            },
    {
        if count > self.used {
            return Err(DriverError::InvariantViolation);
        }
        let rest: usize = self.used - count;
        let mut i: usize = 0;
        while i < rest
            invariant
                old(self).wf(),
                self.stream == old(self).stream,
                self.consumed == old(self).consumed,
                rest == old(self).used - count,
                count <= old(self).used <= old(self).data.len(),
                self.data.len() == old(self).data.len(),
                i <= rest,
                self.data@.subrange(0, i as int) == old(self).data@.subrange(
                    count as int,
                    count + i,
                ),
                self.data@.subrange(i + count, self.data.len() as int) == old(
                    self,
                ).data@.subrange(i + count, self.data.len() as int),
            decreases rest - i,
        {
            let ghost before = self.data@;
            let b: u8 = self.data[i + count];
            assert(b == before.subrange(i + count, before.len() as int)[0]);
            self.data.set(i, b);
            i = i + 1;
            proof {
                assert(self.data@.subrange(0, i as int) =~= old(self).data@.subrange(
                    count as int,
                    count + i,
                )) by {
                    assert forall|k: int| 0 <= k < i implies self.data@[k] == old(self).data@[count
                        + k] by {
                        if k < i - 1 {
                            assert(before.subrange(0, i - 1)[k] == before[k]);
                        }
                    }
                }
                assert(self.data@.subrange(i + count, self.data.len() as int) =~= old(
                    self,
                ).data@.subrange(i + count, self.data.len() as int)) by {
                    assert forall|k: int| i + count <= k < self.data.len() implies self.data@[k]
                        == old(self).data@[k] by {
                        assert(before.subrange(i - 1 + count, before.len() as int)[k - (i - 1
                            + count)] == before[k]);
                    }
                }
            }
        }
        self.used = rest;
        proof {
            self.consumed@ = self.consumed@ + count as nat;
            assert(self.data@.subrange(0, rest as int) =~= old(self).data@.subrange(
                0,
                old(self).used as int,
            ).skip(count as int));
            assert(self.stream@.skip(self.consumed@ as int) =~= old(self).stream@.skip(
                old(self).consumed@ as int,
            ).skip(count as int));
        }
        Ok(())
    }
}

} // verus!
