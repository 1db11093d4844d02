//! A byte buffer for encoded output: an allocation and a logical length
//! that may be shorter than it.
use vstd::prelude::*;
use crate::error::HResultError;

verus! {

/// An allocation of `capacity` bytes whose first `size` bytes are in use.
#[derive(Debug)]
pub struct Blob {
    buffer: Vec<u8>,
    size: usize,
}

impl Blob {
    /// Every byte of the allocation.
    pub closed spec fn allocation(&self) -> Seq<u8> {
        self.buffer@
    }

    /// The bytes in use.
    pub closed spec fn bytes(&self) -> Seq<u8> {
        self.buffer@.subrange(0, self.size as int)
    }

    pub closed spec fn wf(&self) -> bool {
        self.size <= self.buffer@.len()
    }

    pub open spec fn is_empty(&self) -> bool {
        self.allocation().len() == 0 && self.bytes().len() == 0
    }

    pub fn new() -> (r: Self)
        ensures
            r.wf(),
            r.is_empty(),
    {
        Blob { buffer: Vec::new(), size: 0 }
    }

    /// A fresh zero-filled allocation of `size` bytes, all in use.
    /// `InvalidArgument` for size 0, `OutOfMemory` above `isize::MAX`; the
    /// blob is empty after a failure.
    pub fn initialize(&mut self, size: usize) -> (r: Result<(), HResultError>)
        ensures
            final(self).wf(),
            size == 0 ==> r == Err::<(), HResultError>(HResultError::InvalidArgument),
            size > isize::MAX ==> r == Err::<(), HResultError>(HResultError::OutOfMemory),
            0 < size <= isize::MAX ==> r.is_ok(),
            r.is_ok() ==> final(self).allocation().len() == size && final(self).bytes().len() == size,
            r.is_ok() ==> forall|i: int| 0 <= i < size ==> #[trigger] final(self).bytes()[i] == 0u8,
            r.is_err() ==> final(self).is_empty(),
    {
        self.release();
        if size == 0 {
            return Err(HResultError::InvalidArgument);
        }
        if size > isize::MAX as usize {
            return Err(HResultError::OutOfMemory);
        }
        self.buffer = vec![0u8; size];
        self.size = size;
        proof {
            assert(self.buffer@.subrange(0, size as int) =~= self.buffer@);
        }
        Ok(())
    }

    /// Frees the allocation.
    pub fn release(&mut self)
        ensures
            final(self).wf(),
            final(self).is_empty(),
    {
        self.buffer = Vec::new();
        self.size = 0;
    }

    /// The bytes in use.
    pub fn get_buffer(&self) -> (r: &[u8])
        requires
            self.wf(),
        ensures
            r@ == self.bytes(),
    {
        let (head, _) = self.buffer.as_slice().split_at(self.size);
        head
    }

    pub fn get_buffer_size(&self) -> (r: usize)
        requires
            self.wf(),
        ensures
            r == self.bytes().len(),
    {
        self.size
    }

    /// Moves the bytes in use into a fresh allocation of `size` bytes,
    /// keeping the first `min(old size, size)` of them; bytes past those
    /// are zero. `InvalidArgument`, with nothing changed, for size 0 or an
    /// empty blob; `OutOfMemory` above `isize::MAX`.
    pub fn resize(&mut self, size: usize) -> (r: Result<(), HResultError>)
        requires
            old(self).wf(),
        ensures
            final(self).wf(),
            (size == 0 || old(self).bytes().len() == 0) ==> r == Err::<(), HResultError>(
                HResultError::InvalidArgument,
            ),
            size > 0 && old(self).bytes().len() > 0 && size > isize::MAX ==> r == Err::<(), HResultError>(
                HResultError::OutOfMemory,
            ),
            size > 0 && old(self).bytes().len() > 0 && size <= isize::MAX ==> r.is_ok(),
            r.is_err() ==> *final(self) == *old(self),
            r.is_ok() ==> {
                &&& final(self).bytes().len() == size
                &&& final(self).allocation().len() == size
                &&& forall|i: int| 0 <= i < size && i < old(self).bytes().len()
                    ==> #[trigger] final(self).bytes()[i] == old(self).bytes()[i]
                &&& forall|i: int| old(self).bytes().len() <= i < size ==> #[trigger] final(self).bytes()[i] == 0u8
            },
    {
        if size == 0 || self.size == 0 {
            return Err(HResultError::InvalidArgument);
        }
        if size > isize::MAX as usize {
            return Err(HResultError::OutOfMemory);
        }
        let keep = if self.size < size { self.size } else { size };
        let mut fresh = vec![0u8; size];
        let mut i: usize = 0;
        while i < keep
            invariant
                keep <= size,
                keep <= self.size,
                self.size <= self.buffer@.len(),
                fresh@.len() == size,
                i <= keep,
                forall|k: int| 0 <= k < i ==> #[trigger] fresh@[k] == self.buffer@[k],
                forall|k: int| keep <= k < size ==> #[trigger] fresh@[k] == 0u8,
            decreases keep - i,
        {
            fresh.set(i, self.buffer[i]);
            i = i + 1;
        }
        self.buffer = fresh;
        self.size = size;
        Ok(())
    }

    /// Shortens the bytes in use to `size` without touching the allocation.
    /// `InvalidArgument`, with nothing changed, for size 0 or a size past
    /// the bytes in use.
    pub fn trim(&mut self, size: usize) -> (r: Result<(), HResultError>)
        requires
            old(self).wf(),
        ensures
            final(self).wf(),
            (size == 0 || size > old(self).bytes().len()) ==> r == Err::<(), HResultError>(
                HResultError::InvalidArgument,
            ) && *final(self) == *old(self),
            0 < size <= old(self).bytes().len() ==> r.is_ok(),
            final(self).allocation() == old(self).allocation(),
            r.is_ok() ==> final(self).bytes() == old(self).bytes().subrange(0, size as int),
    {
        if size == 0 || size > self.size {
            return Err(HResultError::InvalidArgument);
        }
        self.size = size;
        proof {
            assert(self.buffer@.subrange(0, size as int) =~= old(self).buffer@.subrange(
                0,
                old(self).size as int,
            ).subrange(0, size as int));
        }
        Ok(())
    }
}

impl Default for Blob {
    fn default() -> (r: Self)
        ensures
            r.is_empty(),
    {
        Blob::new()
    }
}

} // verus!
