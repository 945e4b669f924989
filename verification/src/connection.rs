use vstd::prelude::*;

use crate::header::{be64, be64_bytes, be64_decode, be64_encode, lemma_be64_of_bytes};
use crate::locks::{rank, rank_exec, step, try_lock, LockLevel, LockState, WriterIntent};
use crate::memory::{lemma_write_read_round_trip, splice, zero_bytes, Memory};
use crate::vfs::VfsError;
use crate::{MAX_PAGES, PAGE_BYTES};

verus! {

use vstd::arithmetic::div_mod::lemma_fundamental_div_mod;

/// Number of header bytes at the front of the resource holding the logical
/// database size; every logical offset is shifted past them.
pub const SIZE_HEADER_BYTES: u64 = 8;

/// Logical database size recorded in `v`: the first eight bytes, big-endian;
/// zero while the resource holds no pages at all.
pub open spec fn db_size_of(v: Seq<u8>) -> u64 {
    if v.len() == 0 {
        0
    } else {
        be64(v.subrange(0, 8))
    }
}

/// Physical capacity left for payload bytes: everything past the header;
/// zero while the resource holds no pages at all.
pub open spec fn payload_capacity_of(v: Seq<u8>) -> int {
    if v.len() == 0 {
        0
    } else {
        v.len() - 8
    }
}

/// Whole pages needed to hold `bytes` further bytes.
pub open spec fn pages_for(bytes: int) -> int {
    bytes / 65536 + if bytes % 65536 != 0 {
        1int
    } else {
        0int
    }
}

/// One open handle to the single logical database. It maps the engine's
/// byte-offset file operations onto the shared resource and drives its own
/// lock level against the shared lock state.
pub struct Connection {
    lock: LockLevel,
}

impl Connection {
    /// The lock level this handle currently holds.
    pub closed spec fn level(&self) -> LockLevel {
        self.lock
    }

    /// A fresh handle holds no lock.
    pub fn new() -> (c: Connection)
        ensures
            c.level() == LockLevel::Unlocked,
    {
        Connection { lock: LockLevel::Unlocked }
    }

    /// The lock level this handle currently holds; no shared state is needed.
    pub fn current_lock(&self) -> (r: LockLevel)
        ensures
            r == self.level(),
    {
        self.lock
    }

    /// Attempts the transition from this handle's level to `target` against
    /// the shared lock state, as `step` describes.
    pub fn lock(&mut self, state: &mut LockState, target: LockLevel) -> (granted: bool)
        requires
            old(self).level() == LockLevel::Shared && target != LockLevel::Shared ==> old(state).readers >= 1,
            target == LockLevel::Shared && old(self).level() != LockLevel::Shared ==> old(state).readers < usize::MAX,
        ensures
            granted == step(*old(state), old(self).level(), target).granted,
            *final(state) == step(*old(state), old(self).level(), target).state,
            final(self).level() == step(*old(state), old(self).level(), target).level,
    {
        let (granted, level) = try_lock(state, self.lock, target);
        self.lock = level;
        granted
    }

    /// Identical to `lock`: the engine calls it when lowering a level.
    pub fn unlock(&mut self, state: &mut LockState, target: LockLevel) -> (granted: bool)
        requires
            old(self).level() == LockLevel::Shared && target != LockLevel::Shared ==> old(state).readers >= 1,
            target == LockLevel::Shared && old(self).level() != LockLevel::Shared ==> old(state).readers < usize::MAX,
        ensures
            granted == step(*old(state), old(self).level(), target).granted,
            *final(state) == step(*old(state), old(self).level(), target).state,
            final(self).level() == step(*old(state), old(self).level(), target).level,
    {
        self.lock(state, target)
    }

    /// Forces this handle back to `Unlocked` before it is discarded, so a
    /// reader slot or writer intent is never leaked.
    pub fn release(&mut self, state: &mut LockState)
        requires
            old(self).level() == LockLevel::Shared ==> old(state).readers >= 1,
        ensures
            final(self).level() == LockLevel::Unlocked,
            *final(state) == step(*old(state), old(self).level(), LockLevel::Unlocked).state,
    {
        if !matches!(self.lock, LockLevel::Unlocked) {
            let _ = self.lock(state, LockLevel::Unlocked);
        }
    }

    /// True if this handle itself sits above `Shared`, or any handle has
    /// announced writer intent in the shared state.
    pub fn reserved(&self, state: &LockState) -> (r: bool)
        ensures
            r == (rank(self.level()) > 1 || state.intent != WriterIntent::Idle),
    {
        if rank_exec(self.lock) > 1 {
            return true;
        }
        state.intent_held()
    }

    /// Logical database size: the header value, or zero on an entirely empty
    /// resource.
    pub fn size<M: Memory>(&self, mem: &M) -> (r: u64)
        requires
            mem.wf(),
        ensures
            r == db_size_of(mem.contents()),
    {
        Self::db_size(mem)
    }

    /// If the resource has any pages, copies `buf.len()` bytes from logical
    /// offset `offset` (physical `offset + 8`) into `buf`; on an entirely
    /// empty resource leaves `buf` untouched, which the caller reads as a
    /// never-initialised, zero-filled database.
    pub fn read_exact_at<M: Memory>(&self, mem: &M, buf: &mut Vec<u8>, offset: u64)
        requires
            mem.wf(),
            mem.contents().len() > 0 ==> offset + 8 + old(buf)@.len() <= mem.contents().len(),
        ensures
            final(buf)@.len() == old(buf)@.len(),
            mem.contents().len() == 0 ==> final(buf)@ == old(buf)@,
            mem.contents().len() > 0 ==> final(buf)@ == mem.contents().subrange(
                offset + 8,
                offset + 8 + old(buf)@.len(),
            ),
    {
        if mem.size() > 0 {
            proof {
                lemma_nonempty_holds_header(mem.contents());
            }
            mem.read(offset + SIZE_HEADER_BYTES, buf);
        }
    }

    /// Writes `buf` at logical offset `offset` (physical `offset + 8`). When
    /// the write ends past the recorded logical size, the new size is written
    /// into the header first, so size growth is durably recorded before the
    /// payload: afterwards the recorded size is exactly the write's end, and
    /// otherwise it is unchanged.
    pub fn write_all_at<M: Memory>(&self, mem: &mut M, buf: &Vec<u8>, offset: u64)
        requires
            old(mem).wf(),
            offset + buf@.len() <= u64::MAX,
            offset + 8 + buf@.len() <= old(mem).contents().len(),
        ensures
            final(mem).wf(),
            final(mem).contents() == ({
                let end = (offset + buf@.len()) as u64;
                let with_header = if end > db_size_of(old(mem).contents()) {
                    splice(old(mem).contents(), 0, be64_bytes(end))
                } else {
                    old(mem).contents()
                };
                splice(with_header, offset + 8, buf@)
            }),
            db_size_of(final(mem).contents()) == ({
                let end = (offset + buf@.len()) as u64;
                let prior = db_size_of(old(mem).contents());
                if end > prior {
                    end
                } else {
                    prior
                }
            }),
    {
        let end: u64 = offset + buf.len() as u64;
        let prior: u64 = Self::db_size(mem);
        proof {
            lemma_nonempty_holds_header(mem.contents());
        }
        if end > prior {
            let header = be64_encode(end);
            mem.write(0, &header);
            proof {
                assert(mem.contents().subrange(0, 8) =~= be64_bytes(end));
                lemma_be64_of_bytes(end);
            }
        }
        let ghost after_header: Seq<u8> = mem.contents();
        proof {
            assert(after_header.len() == old(mem).contents().len());
        }
        mem.write(offset + SIZE_HEADER_BYTES, buf);
        proof {
            assert(mem.contents().subrange(0, 8) =~= after_header.subrange(0, 8));
            assert(mem.contents().len() == after_header.len());
        }
    }

    /// Nothing to do: every write above is already synchronously committed to
    /// the backing resource.
    pub fn sync(&self, _data_only: bool) -> (r: Result<(), VfsError>)
        ensures
            r.is_ok(),
    {
        Ok(())
    }

    /// Grows the resource so that `size` payload bytes fit, and records
    /// `size` in the header; a request already within capacity changes
    /// nothing. Fails only when the growth would pass the maximum page count
    /// or the underlying allocation fails, leaving everything unchanged.
    pub fn set_len<M: Memory>(&self, mem: &mut M, size: u64) -> (r: Result<(), VfsError>)
        requires
            old(mem).wf(),
        ensures
            final(mem).wf(),
            size <= payload_capacity_of(old(mem).contents()) ==> r.is_ok() && final(mem).contents()
                == old(mem).contents(),
            size > payload_capacity_of(old(mem).contents()) ==> ({
                let shortfall = size - payload_capacity_of(old(mem).contents());
                let added = pages_for(shortfall);
                let grown = old(mem).contents() + zero_bytes((added * 65536) as nat);
                &&& (old(mem).contents().len() / 65536 + added > MAX_PAGES ==> r == Err::<
                    (),
                    VfsError,
                >(VfsError::OutOfMemory))
                &&& (r == Err::<(), VfsError>(VfsError::OutOfMemory) || r.is_ok())
                &&& (!r.is_ok() ==> final(mem).contents() == old(mem).contents())
                &&& (r.is_ok() ==> final(mem).contents() == splice(grown, 0, be64_bytes(size))
                    && db_size_of(final(mem).contents()) == size)
            }),
    {
        let pages: u64 = mem.size();
        proof {
            lemma_nonempty_holds_header(mem.contents());
        }
        let capacity: u64 = if pages == 0 {
            0
        } else {
            Self::stable_capacity(mem) - SIZE_HEADER_BYTES
        };
        if size > capacity {
            match Self::stable_grow_bytes(mem, size - capacity) {
                Err(e) => {
                    return Err(e);
                },
                Ok(_) => {},
            }
            // Queries the size once more so the grown capacity's page
            // alignment is in scope for the header write below.
            let _ = mem.size();
            proof {
                lemma_nonempty_holds_header(mem.contents());
            }
            let header = be64_encode(size);
            mem.write(0, &header);
            proof {
                assert(mem.contents().subrange(0, 8) =~= be64_bytes(size));
                lemma_be64_of_bytes(size);
            }
        }
        Ok(())
    }

    /// Chunk sizing is accepted and ignored.
    pub fn set_chunk_size(&self, _chunk_size: usize) -> (r: Result<(), VfsError>)
        ensures
            r.is_ok(),
    {
        Ok(())
    }

    /// The single persistent resource is never renamed or moved.
    pub fn moved(&self) -> (r: bool)
        ensures
            r == false,
    {
        false
    }

    /// Physical capacity of the resource in bytes.
    fn stable_capacity<M: Memory>(mem: &M) -> (r: u64)
        requires
            mem.wf(),
        ensures
            r == mem.contents().len(),
    {
        let pages: u64 = mem.size();
        proof {
            lemma_fundamental_div_mod(mem.contents().len() as int, 65536);
            assert(pages << 16 == pages * 65536) by (bit_vector)
                requires
                    pages <= 0x7fff_ffff_ffff_ffffu64 / 65536,
            ;
        }
        pages << 16
    }

    /// Grows the resource by as many whole pages as hold `bytes` further
    /// bytes; returns the page count before the growth.
    fn stable_grow_bytes<M: Memory>(mem: &mut M, bytes: u64) -> (r: Result<u64, VfsError>)
        requires
            old(mem).wf(),
        ensures
            final(mem).wf(),
            ({
                let added = pages_for(bytes as int);
                &&& (old(mem).contents().len() / 65536 + added > MAX_PAGES ==> r == Err::<
                    u64,
                    VfsError,
                >(VfsError::OutOfMemory))
                &&& (r is Err ==> r == Err::<u64, VfsError>(VfsError::OutOfMemory) && final(mem).contents() == old(mem).contents())
                &&& (r is Ok ==> r->Ok_0 == old(mem).contents().len() / 65536 && final(mem).contents() == old(mem).contents() + zero_bytes((added * 65536) as nat))
            }),
    {
        let added_pages: u64 = bytes / PAGE_BYTES + (if bytes % PAGE_BYTES != 0 {
            1
        } else {
            0
        });
        let g: i64 = mem.grow(added_pages);
        if g == -1 {
            Err(VfsError::OutOfMemory)
        } else {
            Ok(g as u64)
        }
    }

    /// Logical size read from the header, zero on an entirely empty resource.
    fn db_size<M: Memory>(mem: &M) -> (r: u64)
        requires
            mem.wf(),
        ensures
            r == db_size_of(mem.contents()),
            mem.contents().len() % 65536 == 0,
            mem.contents().len() <= MAX_PAGES * 65536,
    {
        if mem.size() == 0 {
            return 0;
        }
        proof {
            lemma_nonempty_holds_header(mem.contents());
        }
        let mut buf: Vec<u8> = vec![0u8; 8];
        mem.read(0, &mut buf);
        be64_decode(&buf)
    }
}

/// Header consistency: when a write ends past the recorded logical size, the
/// state that `write_all_at` leaves behind - header updated to the write's
/// end, then the payload spliced in - records exactly that end as the
/// logical size.
pub proof fn lemma_header_consistency(v: Seq<u8>, offset: u64, data: Seq<u8>)
    requires
        offset + data.len() <= u64::MAX,
        offset + 8 + data.len() <= v.len(),
        offset + data.len() > db_size_of(v),
    ensures
        ({
            let end = (offset + data.len()) as u64;
            let written = splice(splice(v, 0, be64_bytes(end)), offset + 8, data);
            db_size_of(written) == end
        }),
{
    let end = (offset + data.len()) as u64;
    let with_header = splice(v, 0, be64_bytes(end));
    let written = splice(with_header, offset + 8, data);
    assert(with_header.len() == v.len());
    assert(written.len() == v.len());
    assert(with_header.subrange(0, 8) =~= be64_bytes(end));
    assert(written.subrange(0, 8) =~= with_header.subrange(0, 8));
    lemma_be64_of_bytes(end);
}

/// Round trip through the handle: in the state `write_all_at(offset, data)`
/// leaves behind, a read of the same logical range returns exactly `data`.
pub proof fn lemma_adapter_round_trip(v: Seq<u8>, offset: u64, data: Seq<u8>)
    requires
        offset + data.len() <= u64::MAX,
        offset + 8 + data.len() <= v.len(),
    ensures
        ({
            let end = (offset + data.len()) as u64;
            let with_header = if end > db_size_of(v) {
                splice(v, 0, be64_bytes(end))
            } else {
                v
            };
            let written = splice(with_header, offset + 8, data);
            written.subrange(offset + 8, offset + 8 + data.len() as int) == data
        }),
{
    let end = (offset + data.len()) as u64;
    let with_header = if end > db_size_of(v) {
        splice(v, 0, be64_bytes(end))
    } else {
        v
    };
    assert(with_header.len() == v.len());
    lemma_write_read_round_trip(with_header, offset + 8, data);
}

/// A resource made of whole pages that is not empty holds at least one page,
/// so in particular the whole size header.
pub proof fn lemma_nonempty_holds_header(v: Seq<u8>)
    requires
        v.len() % 65536 == 0,
    ensures
        v.len() > 0 ==> v.len() >= 65536,
{
    if v.len() > 0 {
        lemma_fundamental_div_mod(v.len() as int, 65536);
    }
}

} // verus!
