use pages_vfs::connection::Connection;
use pages_vfs::locks::{LockLevel, LockState};

#[test]
fn no_contention_full_escalation() {
    let mut state = LockState::new();
    let mut conn = Connection::new();
    assert!(conn.lock(&mut state, LockLevel::Shared));
    assert_eq!(conn.current_lock(), LockLevel::Shared);
    assert!(conn.lock(&mut state, LockLevel::Reserved));
    assert_eq!(conn.current_lock(), LockLevel::Reserved);
    assert!(conn.lock(&mut state, LockLevel::Exclusive));
    assert_eq!(conn.current_lock(), LockLevel::Exclusive);
    assert!(conn.lock(&mut state, LockLevel::Unlocked));
    assert_eq!(conn.current_lock(), LockLevel::Unlocked);
    assert_eq!(state.reader_count(), 0);
    assert!(!state.intent_held());
}

#[test]
fn same_level_request_always_succeeds() {
    let mut state = LockState::new();
    let mut conn = Connection::new();
    assert!(conn.lock(&mut state, LockLevel::Unlocked));
    assert!(conn.lock(&mut state, LockLevel::Shared));
    assert!(conn.lock(&mut state, LockLevel::Shared));
    assert_eq!(state.reader_count(), 1);
}

#[test]
fn pending_cannot_be_requested_directly() {
    let mut state = LockState::new();
    let mut conn = Connection::new();
    assert!(conn.lock(&mut state, LockLevel::Shared));
    assert!(!conn.lock(&mut state, LockLevel::Pending));
    assert_eq!(conn.current_lock(), LockLevel::Shared);
}

#[test]
fn exclusive_blocks_new_readers() {
    let mut state = LockState::new();
    let mut a = Connection::new();
    let mut b = Connection::new();
    assert!(a.lock(&mut state, LockLevel::Shared));
    assert!(a.lock(&mut state, LockLevel::Reserved));
    assert!(a.lock(&mut state, LockLevel::Exclusive));
    assert!(!b.lock(&mut state, LockLevel::Shared));
    assert_eq!(b.current_lock(), LockLevel::Unlocked);
    assert!(a.lock(&mut state, LockLevel::Unlocked));
    assert!(b.lock(&mut state, LockLevel::Shared));
    assert_eq!(b.current_lock(), LockLevel::Shared);
}

#[test]
fn reserved_is_exclusive_among_writers() {
    let mut state = LockState::new();
    let mut a = Connection::new();
    let mut b = Connection::new();
    assert!(a.lock(&mut state, LockLevel::Shared));
    assert!(b.lock(&mut state, LockLevel::Shared));
    assert!(a.lock(&mut state, LockLevel::Reserved));
    assert!(!b.lock(&mut state, LockLevel::Reserved));
    assert_eq!(b.current_lock(), LockLevel::Shared);
}

#[test]
fn reserved_still_admits_new_readers() {
    let mut state = LockState::new();
    let mut a = Connection::new();
    let mut b = Connection::new();
    assert!(a.lock(&mut state, LockLevel::Shared));
    assert!(a.lock(&mut state, LockLevel::Reserved));
    assert!(b.lock(&mut state, LockLevel::Shared));
    assert_eq!(state.reader_count(), 1);
}

#[test]
fn pending_handoff_between_two_readers() {
    let mut state = LockState::new();
    let mut a = Connection::new();
    let mut b = Connection::new();
    assert!(a.lock(&mut state, LockLevel::Shared));
    assert!(b.lock(&mut state, LockLevel::Shared));
    assert_eq!(state.reader_count(), 2);
    assert!(!a.lock(&mut state, LockLevel::Exclusive));
    assert_eq!(a.current_lock(), LockLevel::Pending);
    assert_eq!(state.reader_count(), 1);
    assert!(b.lock(&mut state, LockLevel::Unlocked));
    assert!(a.lock(&mut state, LockLevel::Exclusive));
    assert_eq!(a.current_lock(), LockLevel::Exclusive);
}

#[test]
fn pending_blocks_new_readers() {
    let mut state = LockState::new();
    let mut a = Connection::new();
    let mut b = Connection::new();
    let mut c = Connection::new();
    assert!(a.lock(&mut state, LockLevel::Shared));
    assert!(b.lock(&mut state, LockLevel::Shared));
    assert!(!a.lock(&mut state, LockLevel::Exclusive));
    assert_eq!(a.current_lock(), LockLevel::Pending);
    assert!(!c.lock(&mut state, LockLevel::Shared));
}

#[test]
fn release_returns_writer_intent() {
    let mut state = LockState::new();
    let mut a = Connection::new();
    let mut b = Connection::new();
    assert!(a.lock(&mut state, LockLevel::Shared));
    assert!(a.lock(&mut state, LockLevel::Reserved));
    assert!(b.lock(&mut state, LockLevel::Shared));
    a.release(&mut state);
    assert_eq!(a.current_lock(), LockLevel::Unlocked);
    assert!(!state.intent_held());
    assert!(b.lock(&mut state, LockLevel::Reserved));
    assert_eq!(b.current_lock(), LockLevel::Reserved);
}

#[test]
fn downgrade_to_shared_clears_intent() {
    let mut state = LockState::new();
    let mut a = Connection::new();
    assert!(a.lock(&mut state, LockLevel::Shared));
    assert!(a.lock(&mut state, LockLevel::Reserved));
    assert!(a.unlock(&mut state, LockLevel::Shared));
    assert_eq!(a.current_lock(), LockLevel::Shared);
    assert!(!state.intent_held());
    assert_eq!(state.reader_count(), 1);
}

#[test]
fn reserved_query_sees_own_and_global_intent() {
    let mut state = LockState::new();
    let mut a = Connection::new();
    let b = Connection::new();
    assert!(!a.reserved(&state));
    assert!(!b.reserved(&state));
    assert!(a.lock(&mut state, LockLevel::Shared));
    assert!(a.lock(&mut state, LockLevel::Reserved));
    assert!(a.reserved(&state));
    assert!(b.reserved(&state));
    a.release(&mut state);
    assert!(!b.reserved(&state));
}

#[test]
fn reserved_holder_can_escalate_despite_own_intent() {
    let mut state = LockState::new();
    let mut a = Connection::new();
    assert!(a.lock(&mut state, LockLevel::Shared));
    assert!(a.lock(&mut state, LockLevel::Reserved));
    assert!(a.lock(&mut state, LockLevel::Exclusive));
    assert_eq!(a.current_lock(), LockLevel::Exclusive);
}
