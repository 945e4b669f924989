use pages_vfs::connection::Connection;
use pages_vfs::header::{be64_decode, be64_encode};
use pages_vfs::locks::LockLevel;
use pages_vfs::memory::{Memory, VectorMemory};
use pages_vfs::vfs::{OpenKind, PagesVfs, VfsError};

fn open_main() -> Connection {
    PagesVfs::open("main.db", OpenKind::MainDb).unwrap()
}

#[test]
fn open_accepts_only_the_main_database() {
    let conn = open_main();
    assert_eq!(conn.current_lock(), LockLevel::Unlocked);
}

#[test]
fn open_rejects_unknown_names_as_not_found() {
    assert!(matches!(
        PagesVfs::open("other.db", OpenKind::MainDb),
        Err(VfsError::NotFound)
    ));
    assert!(matches!(
        PagesVfs::open("", OpenKind::MainDb),
        Err(VfsError::NotFound)
    ));
    assert!(matches!(
        PagesVfs::open("main.db2", OpenKind::MainDb),
        Err(VfsError::NotFound)
    ));
    assert!(matches!(
        PagesVfs::open("main.dc", OpenKind::MainDb),
        Err(VfsError::NotFound)
    ));
}

#[test]
fn open_rejects_unsupported_kinds_as_permission_denied() {
    for kind in [
        OpenKind::MainJournal,
        OpenKind::TempDb,
        OpenKind::TempJournal,
        OpenKind::TransientDb,
        OpenKind::SubJournal,
        OpenKind::SuperJournal,
        OpenKind::Wal,
    ] {
        assert!(matches!(
            PagesVfs::open("main.db", kind),
            Err(VfsError::PermissionDenied)
        ));
    }
}

#[test]
fn delete_always_succeeds() {
    assert!(PagesVfs::delete("main.db").is_ok());
    assert!(PagesVfs::delete("anything").is_ok());
}

#[test]
fn existence_follows_resource_size() {
    let mut mem = VectorMemory::new();
    assert!(!PagesVfs::db_exists("main.db", &mem));
    let conn = open_main();
    assert!(conn.set_len(&mut mem, 100).is_ok());
    assert!(PagesVfs::db_exists("main.db", &mem));
    assert!(!PagesVfs::db_exists("other.db", &mem));
}

#[test]
fn temporary_name_is_the_main_database() {
    assert_eq!(PagesVfs::temporary_name(), "main.db");
}

#[test]
fn sleep_reports_the_requested_duration() {
    assert_eq!(PagesVfs::sleep(0), 0);
    assert_eq!(PagesVfs::sleep(123_456), 123_456);
}

#[test]
fn size_is_zero_on_an_empty_resource() {
    let mem = VectorMemory::new();
    let conn = open_main();
    assert_eq!(conn.size(&mem), 0);
}

#[test]
fn read_on_empty_resource_leaves_buffer_untouched() {
    let mem = VectorMemory::new();
    let conn = open_main();
    let mut buf: Vec<u8> = vec![9, 9, 9];
    conn.read_exact_at(&mem, &mut buf, 0);
    assert_eq!(buf, vec![9, 9, 9]);
}

#[test]
fn write_updates_header_when_growing_the_logical_size() {
    let mut mem = VectorMemory::new();
    let conn = open_main();
    assert_eq!(mem.grow(1), 0);
    let data: Vec<u8> = vec![b'h', b'e', b'l', b'l', b'o'];
    conn.write_all_at(&mut mem, &data, 5);
    assert_eq!(conn.size(&mem), 10);
    let mut back: Vec<u8> = vec![0; 5];
    conn.read_exact_at(&mem, &mut back, 5);
    assert_eq!(back, data);
}

#[test]
fn write_within_the_logical_size_keeps_the_header() {
    let mut mem = VectorMemory::new();
    let conn = open_main();
    assert_eq!(mem.grow(1), 0);
    conn.write_all_at(&mut mem, &vec![1, 2, 3, 4, 5, 6, 7, 8, 9, 10], 0);
    assert_eq!(conn.size(&mem), 10);
    conn.write_all_at(&mut mem, &vec![42, 43], 2);
    assert_eq!(conn.size(&mem), 10);
    let mut back: Vec<u8> = vec![0; 10];
    conn.read_exact_at(&mem, &mut back, 0);
    assert_eq!(back, vec![1, 2, 42, 43, 5, 6, 7, 8, 9, 10]);
}

#[test]
fn header_lives_in_the_first_eight_bytes() {
    let mut mem = VectorMemory::new();
    let conn = open_main();
    assert_eq!(mem.grow(1), 0);
    conn.write_all_at(&mut mem, &vec![7; 3], 0);
    let mut header: Vec<u8> = vec![0; 8];
    mem.read(0, &mut header);
    assert_eq!(header, vec![0, 0, 0, 0, 0, 0, 0, 3]);
}

#[test]
fn set_len_grows_an_empty_resource_and_records_the_size() {
    let mut mem = VectorMemory::new();
    let conn = open_main();
    assert!(conn.set_len(&mut mem, 100).is_ok());
    assert_eq!(mem.size(), 1);
    assert_eq!(conn.size(&mem), 100);
}

#[test]
fn set_len_within_capacity_changes_nothing() {
    let mut mem = VectorMemory::new();
    let conn = open_main();
    assert!(conn.set_len(&mut mem, 100).is_ok());
    assert!(conn.set_len(&mut mem, 10).is_ok());
    assert_eq!(conn.size(&mem), 100);
    assert_eq!(mem.size(), 1);
}

#[test]
fn set_len_rounds_the_growth_up_to_whole_pages() {
    let mut mem = VectorMemory::new();
    let conn = open_main();
    assert!(conn.set_len(&mut mem, 65536 + 10).is_ok());
    assert_eq!(mem.size(), 2);
    assert_eq!(conn.size(&mem), 65536 + 10);
}

#[test]
fn set_len_past_the_maximum_fails_with_out_of_memory() {
    let mut mem = VectorMemory::new();
    let conn = open_main();
    assert!(matches!(
        conn.set_len(&mut mem, u64::MAX),
        Err(VfsError::OutOfMemory)
    ));
    assert_eq!(mem.size(), 0);
    assert_eq!(conn.size(&mem), 0);
}

#[test]
fn sync_and_chunk_size_and_moved_are_fixed_responses() {
    let conn = open_main();
    assert!(conn.sync(true).is_ok());
    assert!(conn.sync(false).is_ok());
    assert!(conn.set_chunk_size(4096).is_ok());
    assert!(!conn.moved());
}

#[test]
fn be64_encodes_big_endian_and_decodes_back() {
    let bytes = be64_encode(0x0102_0304_0506_0708);
    assert_eq!(bytes, vec![1, 2, 3, 4, 5, 6, 7, 8]);
    assert_eq!(be64_decode(&bytes), 0x0102_0304_0506_0708);
    assert_eq!(be64_encode(0), vec![0; 8]);
    assert_eq!(be64_decode(&be64_encode(u64::MAX)), u64::MAX);
    assert_eq!(be64_decode(&vec![0, 0, 0, 0, 0, 0, 0, 1]), 1);
    assert_eq!(be64_encode(65536 + 10), vec![0, 0, 0, 0, 0, 1, 0, 10]);
}
