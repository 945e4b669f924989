use vstd::prelude::*;

use crate::connection::Connection;
use crate::locks::LockLevel;
use crate::memory::Memory;

verus! {

/// Failures reported back through the storage contract. Out-of-range reads
/// and writes are not here: they are internal-invariant violations, ruled out
/// by contract rather than reported.
#[derive(Clone, Copy, Debug, PartialEq, Eq, Structural)]
pub enum VfsError {
    /// The requested logical file name is not the single supported one.
    NotFound,
    /// The requested file kind is not the main database.
    PermissionDenied,
    /// A growth request could not be satisfied.
    OutOfMemory,
}

/// The kind of file the engine asks to open. Only `MainDb` is supported.
#[derive(Clone, Copy, Debug, PartialEq, Eq, Structural)]
pub enum OpenKind {
    MainDb,
    MainJournal,
    TempDb,
    TempJournal,
    TransientDb,
    SubJournal,
    SuperJournal,
    Wal,
}

/// The front door of the adapter: resolves names and kinds to at most one
/// accepted logical database and produces fresh handles for it.
pub struct PagesVfs;

/// The single logical file name the adapter accepts.
pub open spec fn accepted_name() -> Seq<char> {
    "main.db"@
}

/// True exactly when `db` spells the single accepted name.
pub fn name_matches(db: &str) -> (r: bool)
    ensures
        r == (db@ == accepted_name()),
{
    let expected = "main.db";
    proof {
        reveal_strlit("main.db");
    }
    let n: usize = db.unicode_len();
    if n != 7 {
        return false;
    }
    let mut i: usize = 0;
    while i < 7
        invariant
            0 <= i <= 7,
            db@.len() == 7,
            expected@ == accepted_name(),
            expected@.len() == 7,
            forall|j: int| 0 <= j < i ==> db@[j] == expected@[j],
        decreases 7 - i,
    {
        if db.get_char(i) != expected.get_char(i) {
            return false;
        }
        i = i + 1;
    }
    proof {
        assert(db@ =~= accepted_name());
    }
    true
}

impl PagesVfs {
    /// Opens the single logical database: any other name is rejected as
    /// not found, any kind but the main database (journals, write-ahead logs,
    /// temporaries) as not permitted. On success the handle starts unlocked.
    pub fn open(db: &str, kind: OpenKind) -> (r: Result<Connection, VfsError>)
        ensures
            db@ != accepted_name() ==> r == Err::<Connection, VfsError>(VfsError::NotFound),
            db@ == accepted_name() && kind != OpenKind::MainDb ==> r == Err::<
                Connection,
                VfsError,
            >(VfsError::PermissionDenied),
            r.is_ok() <==> (db@ == accepted_name() && kind == OpenKind::MainDb),
            r.is_ok() ==> r->Ok_0.level() == LockLevel::Unlocked,
    {
        if !name_matches(db) {
            return Err(VfsError::NotFound);
        }
        if !matches!(kind, OpenKind::MainDb) {
            return Err(VfsError::PermissionDenied);
        }
        Ok(Connection::new())
    }

    /// Deletion is not modelled: the single resource persists, and the
    /// request succeeds as a no-op.
    pub fn delete(_db: &str) -> (r: Result<(), VfsError>)
        ensures
            r.is_ok(),
    {
        Ok(())
    }

    /// True exactly when `db` is the accepted name and the resource already
    /// holds at least one page.
    pub fn db_exists<M: Memory>(db: &str, mem: &M) -> (r: bool)
        requires
            mem.wf(),
        ensures
            r == (db@ == accepted_name() && mem.contents().len() > 0),
    {
        let nonzero: bool = mem.size() > 0;
        proof {
            crate::connection::lemma_nonempty_holds_header(mem.contents());
        }
        name_matches(db) && nonzero
    }

    /// No distinct temporary files are ever created: the accepted name
    /// stands in for them.
    pub fn temporary_name() -> (r: String)
        ensures
            r@ == accepted_name(),
    {
        "main.db".to_owned()
    }

    /// Cooperative-yield hook: no actual wait is performed and the requested
    /// duration is reported as elapsed.
    pub fn sleep(micros: u64) -> (r: u64)
        ensures
            r == micros,
    {
        micros
    }
}

} // verus!
