//! The growable buffer of encoded ciphertext that waits to be sent.
use vstd::prelude::*;
use crate::error::DriverError;

verus! {

/// Encoded bytes that were not sent yet, followed by room for more.
///
/// The view is the pending part. The room behind it grows only when the
/// engine says how much it needs.
pub struct OutgoingBuffer {
    data: Vec<u8>,
    used: usize,
}

impl View for OutgoingBuffer {
    type V = Seq<u8>;

    closed spec fn view(&self) -> Seq<u8> {
        self.data@.subrange(0, self.used as int)
    }
}

impl OutgoingBuffer {
    /// The invariant: the pending part lies within the buffer.
    pub closed spec fn wf(&self) -> bool {
        self.used <= self.data.len()
    }

    /// The length of the buffer, pending bytes and room together.
    pub closed spec fn spec_len(&self) -> usize {
        self.data.len()
    }

    /// The number of pending bytes.
    pub closed spec fn spec_used(&self) -> usize {
        self.used
    }

    /// The room behind the pending bytes.
    pub open spec fn spec_space(&self) -> int {
        self.spec_len() - self.spec_used()
    }

    /// The pending part is as long as `used` says, and lies within the buffer.
    pub proof fn lemma_used_within_len(&self)
        requires
            self.wf(),
        ensures
            self@.len() == self.spec_used(),
            0 <= self.spec_used() <= self.spec_len(),
    {
    }

    /// An empty buffer without any room.
    pub fn new() -> (b: Self)
        ensures
            b.wf(),
            b.spec_len() == 0,
            b.spec_used() == 0,
            b@ == Seq::<u8>::empty(),
    {
        let b = OutgoingBuffer { data: Vec::new(), used: 0 };
        assert(b.data@.subrange(0, 0) =~= Seq::<u8>::empty());
        b
    }

    /// The length of the buffer, pending bytes and room together.
    #[verifier::when_used_as_spec(spec_len)]
    pub fn len(&self) -> (n: usize)
        ensures
            n == self.spec_len(),
    {
        self.data.len()
    }

    /// The number of pending bytes.
    #[verifier::when_used_as_spec(spec_used)]
    pub fn used(&self) -> (n: usize)
        ensures
            n == self.spec_used(),
    {
        self.used
    }

    /// The room behind the pending bytes.
    pub fn space(&self) -> (n: usize)
        requires
            self.wf(),
        ensures
            n == self.spec_space(),
    {
        self.data.len() - self.used
    }

    /// The pending bytes from the given offset on: what is left to send once
    /// `from` of them were sent.
    pub fn unsent(&self, from: usize) -> (bytes: &[u8])
        requires
            self.wf(),
            from <= self.spec_used(),
        ensures
            bytes@ == self@.skip(from as int),
    {
        let bytes = vstd::slice::slice_subrange(self.data.as_slice(), from, self.used);
        assert(bytes@ =~= self@.skip(from as int));
        bytes
    }

    /// Makes the room behind the pending bytes exactly `required` bytes long.
    ///
    /// The pending bytes stay. A size that no buffer can have is refused, and
    /// the buffer stays as it was.
    pub fn grow(&mut self, required: usize) -> (r: Result<(), DriverError>)
        requires
            old(self).wf(),
        ensures
            final(self).wf(),
            final(self)@ == old(self)@,
            final(self).spec_used() == old(self).spec_used(),
            r.is_ok() <==> old(self).spec_used() + required <= usize::MAX,
            r.is_ok() ==> final(self).spec_len() == old(self).spec_used() + required,
            r.is_err() ==> {
                &&& r == Err::<(), DriverError>(DriverError::EncodingFailed)
                &&& *final(self) == *old(self)
            },
    {
        match self.used.checked_add(required) {
            Some(new_len) => {
                self.data.resize(new_len, 0u8);
                assert(self.data@.subrange(0, self.used as int) =~= old(self).data@.subrange(
                    0,
                    self.used as int,
                ));
                Ok(())
            },
            None => Err(DriverError::EncodingFailed),
        }
    }

    /// Takes over the bytes that the engine encoded: they become the end of
    /// the pending part.
    ///
    /// More bytes than there is room for are refused, and the buffer stays as
    /// it was.
    pub fn commit(&mut self, bytes: &[u8]) -> (r: Result<(), DriverError>)
        requires
            old(self).wf(),
        ensures
            final(self).wf(),
            final(self).spec_len() == old(self).spec_len(),
            r.is_ok() <==> bytes@.len() <= old(self).spec_space(),
            r.is_ok() ==> {
                &&& final(self)@ == old(self)@ + bytes@
                &&& final(self).spec_used() == old(self).spec_used() + bytes@.len()
            },
            r.is_err() ==> {
                &&& r == Err::<(), DriverError>(DriverError::InvariantViolation)
                &&& *final(self) == *old(self)
            },
    {
        let n: usize = bytes.len();
        if n > self.data.len() - self.used {
            return Err(DriverError::InvariantViolation);
        }
        let start: usize = self.used;
        let mut i: usize = 0;
        while i < n
            invariant
                n == bytes@.len(),
                start == old(self).used,
                start + n <= self.data.len(),
                self.data.len() == old(self).data.len(),
                i <= n,
                self.data@.subrange(0, start as int) == old(self).data@.subrange(0, start as int),
                self.data@.subrange(start as int, start + i) == bytes@.subrange(0, i as int),
            decreases n - i,
        {
            let b: u8 = bytes[i];
            self.data.set(start + i, b);
            i = i + 1;
            proof {
                assert(self.data@.subrange(0, start as int) =~= old(self).data@.subrange(
                    0,
                    start as int,
                ));
                assert(self.data@.subrange(start as int, start + i) =~= bytes@.subrange(
                    0,
                    i as int,
                ));
            }
        }
        self.used = start + n;
        proof {
            assert(bytes@.subrange(0, n as int) =~= bytes@);
            assert(self.data@.subrange(0, self.used as int) =~= old(self).data@.subrange(
                0,
                start as int,
            ) + bytes@);
        }
        Ok(())
    }

    /// Forgets the pending bytes once they were sent. The room stays.
    pub fn reset(&mut self)
        requires
            old(self).wf(),
        ensures
            final(self).wf(),
            final(self).spec_used() == 0,
            final(self)@ == Seq::<u8>::empty(),
            final(self).spec_len() == old(self).spec_len(),
    {
        self.used = 0;
        assert(self.data@.subrange(0, 0) =~= Seq::<u8>::empty());
    }
}

} // verus!
