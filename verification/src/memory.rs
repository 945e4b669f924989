use vstd::prelude::*;

use crate::{MAX_PAGES, PAGE_BYTES};

verus! {

use vstd::arithmetic::div_mod::{lemma_fundamental_div_mod, lemma_mod_multiples_basic};

/// `n` zero bytes.
pub open spec fn zero_bytes(n: nat) -> Seq<u8> {
    Seq::new(n, |i: int| 0u8)
}

/// `v` with the segment starting at `at` overwritten by `data`.
/// Meaningful when `0 <= at` and `at + data.len() <= v.len()`.
pub open spec fn splice(v: Seq<u8>, at: int, data: Seq<u8>) -> Seq<u8> {
    v.subrange(0, at) + data + v.subrange(at + data.len(), v.len() as int)
}

/// A growable, page-granular raw memory resource: size and growth are in
/// whole pages of `PAGE_BYTES` bytes, reads and writes are byte-addressed.
/// Out-of-range reads and writes are ruled out by contract: a caller that
/// would request one has violated an internal invariant.
pub trait Memory: Sized {
    /// The bytes the resource currently holds. An implementation outside the
    /// verified world may leave the default in place; nothing can then be
    /// proved about it.
    open spec fn contents(&self) -> Seq<u8> {
        Seq::empty()
    }

    /// Well-formedness: the capacity is a whole number of pages and stays
    /// within the maximum addressable range. An implementation outside the
    /// verified world may leave the default in place.
    open spec fn wf(&self) -> bool {
        false
    }

    /// Current size in pages. Its contract also surfaces what
    /// well-formedness guarantees about the capacity.
    fn size(&self) -> (r: u64)
        requires
            self.wf(),
        ensures
            r == self.contents().len() / 65536,
            self.contents().len() % 65536 == 0,
            self.contents().len() <= MAX_PAGES * 65536,
            self.contents().len() <= usize::MAX,
    ;

    /// Tries to add `pages` zero-filled pages. On success returns the size in
    /// pages before the growth; on failure returns -1 and changes nothing.
    /// A request that would push the size past `MAX_PAGES` always fails.
    fn grow(&mut self, pages: u64) -> (r: i64)
        requires
            old(self).wf(),
        ensures
            final(self).wf(),
            old(self).contents().len() / 65536 + pages > MAX_PAGES ==> r == -1,
            r == -1 ==> final(self).contents() == old(self).contents(),
            r != -1 ==> {
                &&& r == old(self).contents().len() / 65536
                &&& final(self).contents() == old(self).contents() + zero_bytes((pages * 65536) as nat)
            },
    ;

    /// Copies `dst.len()` bytes starting at `offset` into `dst`.
    fn read(&self, offset: u64, dst: &mut Vec<u8>)
        requires
            self.wf(),
            offset + old(dst)@.len() <= self.contents().len(),
        ensures
            final(dst)@ == self.contents().subrange(offset as int, offset + old(dst)@.len()),
    ;

    /// Copies `src` into the resource starting at `offset`.
    fn write(&mut self, offset: u64, src: &Vec<u8>)
        requires
            old(self).wf(),
            offset + src@.len() <= old(self).contents().len(),
        ensures
            final(self).wf(),
            final(self).contents() == splice(old(self).contents(), offset as int, src@),
    ;
}

/// Round trip: writing `data` at `offset` and reading the same range back
/// returns exactly `data`, for every offset and length within bounds.
pub proof fn lemma_write_read_round_trip(v: Seq<u8>, offset: int, data: Seq<u8>)
    requires
        0 <= offset,
        offset + data.len() <= v.len(),
    ensures
        splice(v, offset, data).subrange(offset, offset + data.len() as int) == data,
{
    assert(splice(v, offset, data).subrange(offset, offset + data.len() as int) =~= data);
}

/// A `Memory` backed by an in-process byte buffer, for hosts that provide no
/// native growable memory primitive.
pub struct VectorMemory {
    buf: Vec<u8>,
}

impl VectorMemory {
    /// Fresh resource of zero pages.
    pub fn new() -> (r: VectorMemory)
        ensures
            r.wf(),
            r.contents() == Seq::<u8>::empty(),
    {
        let r = VectorMemory { buf: Vec::new() };
        proof {
            assert(r.buf@ =~= Seq::<u8>::empty());
        }
        r
    }
}

impl Default for VectorMemory {
    fn default() -> (r: VectorMemory)
        ensures
            r.wf(),
            r.contents() == Seq::<u8>::empty(),
    {
        VectorMemory::new()
    }
}

impl Memory for VectorMemory {
    closed spec fn contents(&self) -> Seq<u8> {
        self.buf@
    }

    closed spec fn wf(&self) -> bool {
        &&& self.buf@.len() % 65536 == 0
        &&& self.buf@.len() <= MAX_PAGES * 65536
        &&& self.buf@.len() <= usize::MAX
    }

    fn size(&self) -> (r: u64) {
        (self.buf.len() as u64) / PAGE_BYTES
    }

    fn grow(&mut self, pages: u64) -> (r: i64)
        ensures
            r == -1 <==> (old(self).contents().len() / 65536 + pages > MAX_PAGES || old(self).contents().len() + pages * 65536 > usize::MAX),
    {
        let len: usize = self.buf.len();
        proof {
            lemma_fundamental_div_mod(len as int, 65536);
        }
        let cur: u64 = (len as u64) / PAGE_BYTES;
        if pages > MAX_PAGES - cur {
            return -1;
        }
        let add_bytes: u64 = pages * PAGE_BYTES;
        // The buffer cannot be grown past what the address width can index:
        // treat that as an allocation failure.
        if add_bytes > (usize::MAX as u64) - (len as u64) {
            return -1;
        }
        proof {
            lemma_mod_multiples_basic((cur + pages) as int, 65536);
        }
        let mut i: u64 = 0;
        while i < add_bytes
            invariant
                i <= add_bytes,
                self.buf@ == old(self).buf@ + zero_bytes(i as nat),
                old(self).buf@.len() + add_bytes <= usize::MAX,
            decreases add_bytes - i,
        {
            self.buf.push(0u8);
            proof {
                assert(self.buf@ =~= old(self).buf@ + zero_bytes((i + 1) as nat));
            }
            i = i + 1;
        }
        cur as i64
    }

    fn read(&self, offset: u64, dst: &mut Vec<u8>) {
        let len: usize = dst.len();
        let start: usize = offset as usize;
        let mut i: usize = 0;
        while i < len
            invariant
                i <= len,
                len == old(dst)@.len(),
                dst@.len() == len,
                start == offset,
                offset + len <= self.buf@.len() <= usize::MAX,
                forall|j: int| 0 <= j < i ==> dst@[j] == self.buf@[offset + j],
            decreases len - i,
        {
            let b: u8 = self.buf[start + i];
            dst[i] = b;
            i = i + 1;
        }
        proof {
            assert(dst@ =~= self.buf@.subrange(offset as int, offset + len));
        }
    }

    fn write(&mut self, offset: u64, src: &Vec<u8>) {
        let len: usize = src.len();
        let start: usize = offset as usize;
        let mut i: usize = 0;
        while i < len
            invariant
                i <= len,
                len == src@.len(),
                self.buf@.len() == old(self).buf@.len(),
                start == offset,
                offset + len <= old(self).buf@.len() <= usize::MAX,
                forall|j: int| 0 <= j < i ==> self.buf@[offset + j] == src@[j],
                forall|j: int| 0 <= j < old(self).buf@.len() && !(offset <= j < offset + i)
                    ==> self.buf@[j] == old(self).buf@[j],
            decreases len - i,
        {
            let b: u8 = src[i];
            self.buf[start + i] = b;
            i = i + 1;
        }
        proof {
            assert(self.buf@ =~= splice(old(self).buf@, offset as int, src@));
        }
    }
}

} // verus!
