use vstd::prelude::*;

verus! {

/// Access level a handle may hold on the single database, totally ordered
/// from weakest to strongest.
///
/// `Pending` can never be requested directly: it is only the outcome of an
/// escalation to `Exclusive` that found other readers still active.
#[derive(Clone, Copy, Debug, PartialEq, Eq, Structural)]
pub enum LockLevel {
    Unlocked,
    Shared,
    Reserved,
    Pending,
    Exclusive,
}

/// Write intention recorded in the shared lock state. At most one handle at a
/// time may hold `Reserved` or `Exclusive` intent.
#[derive(Clone, Copy, Debug, PartialEq, Eq, Structural)]
pub enum WriterIntent {
    Idle,
    Reserved,
    Exclusive,
}

/// Lock bookkeeping shared by every handle open against the same resource:
/// how many handles sit at exactly `Shared`, and whether some handle has
/// announced write intent.
pub struct LockState {
    /// Count of handles currently at exactly `Shared`.
    pub readers: usize,
    /// Whether some handle has announced `Reserved` or `Exclusive` intent.
    pub intent: WriterIntent,
}

/// Position of a level in the total order `Unlocked < Shared < Reserved <
/// Pending < Exclusive`.
pub open spec fn rank(l: LockLevel) -> int {
    match l {
        LockLevel::Unlocked => 0,
        LockLevel::Shared => 1,
        LockLevel::Reserved => 2,
        LockLevel::Pending => 3,
        LockLevel::Exclusive => 4,
    }
}

/// A handle above `Shared` holds the shared state's writer intent.
pub open spec fn is_writer(l: LockLevel) -> bool {
    rank(l) >= 2
}

impl LockState {
    /// Fresh lock state: no readers, no writer intent.
    pub fn new() -> (s: LockState)
        ensures
            s.readers == 0,
            s.intent == WriterIntent::Idle,
    {
        LockState { readers: 0, intent: WriterIntent::Idle }
    }

    /// Number of handles currently at exactly `Shared`.
    pub fn reader_count(&self) -> (r: usize)
        ensures
            r == self.readers,
    {
        self.readers
    }

    /// Whether some handle has announced `Reserved` or `Exclusive` intent.
    pub fn intent_held(&self) -> (r: bool)
        ensures
            r == (self.intent != WriterIntent::Idle),
    {
        !matches!(self.intent, WriterIntent::Idle)
    }
}

/// Result of one attempted lock transition: whether the request was granted,
/// the shared state afterwards, and the requesting handle's level afterwards.
pub struct Step {
    pub granted: bool,
    pub state: LockState,
    pub level: LockLevel,
}

/// The transition rules of the lock protocol, as one total function from
/// (shared state, requester's level, requested level) to the outcome.
///
/// - A same-level request always succeeds and changes nothing.
/// - `Unlocked` is always granted; leaving `Shared` frees the reader slot,
///   leaving a higher level clears the writer intent.
/// - `Shared` is refused only while another handle's intent is `Exclusive`;
///   a handle downgrading from above `Shared` clears its own intent.
/// - `Reserved` requires being exactly `Shared` with no intent held; the
///   reader slot is traded for the `Reserved` intent.
/// - `Pending` is never granted on request.
/// - `Exclusive` is refused while a handle at or below `Shared` faces foreign
///   intent; otherwise the requester claims `Exclusive` intent, and is granted
///   the lock only once no readers remain - else it parks at `Pending`.
pub open spec fn step(s: LockState, cur: LockLevel, target: LockLevel) -> Step {
    if target == cur {
        Step { granted: true, state: s, level: cur }
    } else {
        match target {
            LockLevel::Unlocked => Step {
                granted: true,
                state: LockState {
                    readers: if cur == LockLevel::Shared {
                        (s.readers - 1) as usize
                    } else {
                        s.readers
                    },
                    intent: if rank(cur) > 1 {
                        WriterIntent::Idle
                    } else {
                        s.intent
                    },
                },
                level: LockLevel::Unlocked,
            },
            LockLevel::Shared => {
                if s.intent == WriterIntent::Exclusive && rank(cur) <= 1 {
                    Step { granted: false, state: s, level: cur }
                } else {
                    Step {
                        granted: true,
                        state: LockState {
                            readers: (s.readers + 1) as usize,
                            intent: if rank(cur) > 1 {
                                WriterIntent::Idle
                            } else {
                                s.intent
                            },
                        },
                        level: LockLevel::Shared,
                    }
                }
            },
            LockLevel::Reserved => {
                if s.intent != WriterIntent::Idle || cur != LockLevel::Shared {
                    Step { granted: false, state: s, level: cur }
                } else {
                    Step {
                        granted: true,
                        state: LockState {
                            readers: (s.readers - 1) as usize,
                            intent: WriterIntent::Reserved,
                        },
                        level: LockLevel::Reserved,
                    }
                }
            },
            LockLevel::Pending => Step { granted: false, state: s, level: cur },
            LockLevel::Exclusive => {
                if s.intent != WriterIntent::Idle && rank(cur) <= 1 {
                    Step { granted: false, state: s, level: cur }
                } else {
                    let remaining = if cur == LockLevel::Shared {
                        (s.readers - 1) as usize
                    } else {
                        s.readers
                    };
                    if remaining == 0 {
                        Step {
                            granted: true,
                            state: LockState { readers: remaining, intent: WriterIntent::Exclusive },
                            level: LockLevel::Exclusive,
                        }
                    } else {
                        Step {
                            granted: false,
                            state: LockState { readers: remaining, intent: WriterIntent::Exclusive },
                            level: LockLevel::Pending,
                        }
                    }
                }
            },
        }
    }
}

/// One attempted transition of the requesting handle from `cur` to `target`,
/// mutating the shared state, exactly as `step` describes.
pub fn try_lock(state: &mut LockState, cur: LockLevel, target: LockLevel) -> (r: (bool, LockLevel))
    requires
        cur == LockLevel::Shared && target != LockLevel::Shared ==> old(state).readers >= 1,
        target == LockLevel::Shared && cur != LockLevel::Shared ==> old(state).readers
            < usize::MAX,
    ensures
        r.0 == step(*old(state), cur, target).granted,
        *final(state) == step(*old(state), cur, target).state,
        r.1 == step(*old(state), cur, target).level,
{
    if target == cur {
        return (true, cur);
    }

    match target {
        LockLevel::Unlocked => {
            if cur == LockLevel::Shared {
                state.readers = state.readers - 1;
            } else if rank_exec(cur) > 1 {
                state.intent = WriterIntent::Idle;
            }
            (true, LockLevel::Unlocked)
        },
        LockLevel::Shared => {
            if matches!(state.intent, WriterIntent::Exclusive) && rank_exec(cur) <= 1 {
                return (false, cur);
            }
            state.readers = state.readers + 1;
            if rank_exec(cur) > 1 {
                state.intent = WriterIntent::Idle;
            }
            (true, LockLevel::Shared)
        },
        LockLevel::Reserved => {
            if !matches!(state.intent, WriterIntent::Idle) || !matches!(cur, LockLevel::Shared) {
                return (false, cur);
            }
            state.readers = state.readers - 1;
            state.intent = WriterIntent::Reserved;
            (true, LockLevel::Reserved)
        },
        LockLevel::Pending => {
            // Pending cannot be requested directly.
            (false, cur)
        },
        LockLevel::Exclusive => {
            if !matches!(state.intent, WriterIntent::Idle) && rank_exec(cur) <= 1 {
                return (false, cur);
            }
            if cur == LockLevel::Shared {
                state.readers = state.readers - 1;
            }
            state.intent = WriterIntent::Exclusive;
            if state.readers == 0 {
                (true, LockLevel::Exclusive)
            } else {
                (false, LockLevel::Pending)
            }
        },
    }
}

/// Readers the shared state counts when two handles hold `la` and `lb`.
pub open spec fn readers_of(la: LockLevel, lb: LockLevel) -> int {
    (if la == LockLevel::Shared {
        1int
    } else {
        0int
    }) + (if lb == LockLevel::Shared {
        1int
    } else {
        0int
    })
}

/// The shared state attributes to two handles exactly what they hold:
/// `readers` counts the handles at exactly `Shared`, at most one handle sits
/// above `Shared`, and the recorded intent mirrors that handle's level -
/// `Reserved` for a handle at `Reserved`, `Exclusive` for one at `Pending` or
/// `Exclusive`.
pub open spec fn consistent(s: LockState, la: LockLevel, lb: LockLevel) -> bool {
    &&& s.readers == readers_of(la, lb)
    &&& !(is_writer(la) && is_writer(lb))
    &&& (s.intent == WriterIntent::Idle <==> !is_writer(la) && !is_writer(lb))
    &&& (s.intent == WriterIntent::Reserved <==> la == LockLevel::Reserved || lb
        == LockLevel::Reserved)
    &&& (s.intent == WriterIntent::Exclusive <==> rank(la) >= 3 || rank(lb) >= 3)
}

/// Whatever level one of two handles requests, the transition keeps the
/// shared state consistent with what the two handles hold.
pub proof fn lemma_step_preserves_consistency(
    s: LockState,
    la: LockLevel,
    lb: LockLevel,
    target: LockLevel,
)
    requires
        consistent(s, la, lb),
    ensures
        consistent(step(s, la, target).state, step(s, la, target).level, lb),
{
}

/// Consistency does not depend on the order of the two handles.
pub proof fn lemma_consistent_symmetric(s: LockState, la: LockLevel, lb: LockLevel)
    requires
        consistent(s, la, lb),
    ensures
        consistent(s, lb, la),
{
}

/// For exactly two handles, the general consistency of the shared state is
/// the pairwise one.
pub proof fn lemma_consistent_pair(s: LockState, la: LockLevel, lb: LockLevel)
    ensures
        consistent(s, la, lb) <==> consistent_all(s, seq![la, lb]),
{
    reveal_with_fuel(shared_count, 3);
    reveal_with_fuel(writer_count, 3);
    let ls = seq![la, lb];
    assert(ls.drop_last() =~= seq![la]);
    assert(seq![la].drop_last() =~= Seq::<LockLevel>::empty());
    assert(shared_count(ls) == readers_of(la, lb));
    assert(writer_count(ls) == (if is_writer(la) {
        1int
    } else {
        0int
    }) + (if is_writer(lb) {
        1int
    } else {
        0int
    }));
    assert(ls[0] == la && ls[1] == lb);
}

/// Reader/writer exclusion: while one handle holds `Exclusive`, an unlocked
/// handle's request for `Shared` is refused and changes nothing; as soon as
/// the holder releases to `Unlocked`, the same request is granted.
pub proof fn lemma_reader_writer_exclusion(s: LockState)
    requires
        consistent(s, LockLevel::Exclusive, LockLevel::Unlocked),
    ensures
        !step(s, LockLevel::Unlocked, LockLevel::Shared).granted,
        step(s, LockLevel::Unlocked, LockLevel::Shared).state == s,
        step(s, LockLevel::Unlocked, LockLevel::Shared).level == LockLevel::Unlocked,
        ({
            let rel = step(s, LockLevel::Exclusive, LockLevel::Unlocked);
            let retry = step(rel.state, LockLevel::Unlocked, LockLevel::Shared);
            &&& rel.granted
            &&& retry.granted
            &&& retry.level == LockLevel::Shared
        }),
{
}

/// Reserved exclusion: while one handle holds `Reserved`, no other handle's
/// request for `Reserved` is granted, whatever level it holds.
pub proof fn lemma_reserved_exclusion(s: LockState, lb: LockLevel)
    requires
        consistent(s, LockLevel::Reserved, lb),
    ensures
        !step(s, lb, LockLevel::Reserved).granted,
{
}

/// Pending handoff: with two handles at `Shared`, one handle's escalation to
/// `Exclusive` is refused and parks it at `Pending`; once the other handle
/// releases to `Unlocked`, the retried escalation is granted `Exclusive`.
pub proof fn lemma_pending_handoff(s: LockState)
    requires
        consistent(s, LockLevel::Shared, LockLevel::Shared),
    ensures
        ({
            let first = step(s, LockLevel::Shared, LockLevel::Exclusive);
            let other_release = step(first.state, LockLevel::Shared, LockLevel::Unlocked);
            let retry = step(other_release.state, first.level, LockLevel::Exclusive);
            &&& !first.granted
            &&& first.level == LockLevel::Pending
            &&& first.state.readers == 1
            &&& other_release.granted
            &&& retry.granted
            &&& retry.level == LockLevel::Exclusive
        }),
{
}

/// Destruction releases locks: a handle at `Reserved` that is forced back to
/// `Unlocked` leaves no writer intent behind, so another handle at `Shared`
/// can then acquire `Reserved`.
pub proof fn lemma_destruction_releases(s: LockState)
    requires
        consistent(s, LockLevel::Reserved, LockLevel::Shared),
    ensures
        ({
            let rel = step(s, LockLevel::Reserved, LockLevel::Unlocked);
            let claim = step(rel.state, LockLevel::Shared, LockLevel::Reserved);
            &&& rel.granted
            &&& rel.state.intent == WriterIntent::Idle
            &&& claim.granted
            &&& claim.level == LockLevel::Reserved
        }),
{
}

/// Number of handles among `ls` at exactly `Shared`.
pub open spec fn shared_count(ls: Seq<LockLevel>) -> int
    decreases ls.len(),
{
    if ls.len() == 0 {
        0
    } else {
        shared_count(ls.drop_last()) + (if ls.last() == LockLevel::Shared {
            1int
        } else {
            0int
        })
    }
}

/// Number of handles among `ls` above `Shared`.
pub open spec fn writer_count(ls: Seq<LockLevel>) -> int
    decreases ls.len(),
{
    if ls.len() == 0 {
        0
    } else {
        writer_count(ls.drop_last()) + (if is_writer(ls.last()) {
            1int
        } else {
            0int
        })
    }
}

/// The shared state attributes to the handles exactly what they hold, for
/// any number of handles `ls` open against one resource: `readers` counts the
/// handles at exactly `Shared`, at most one handle sits above `Shared`, and
/// the recorded intent mirrors that handle's level - `Reserved` for a handle
/// at `Reserved`, `Exclusive` for one at `Pending` or `Exclusive`.
pub open spec fn consistent_all(s: LockState, ls: Seq<LockLevel>) -> bool {
    &&& ls.len() < usize::MAX
    &&& s.readers == shared_count(ls)
    &&& writer_count(ls) <= 1
    &&& (s.intent == WriterIntent::Idle <==> writer_count(ls) == 0)
    &&& (s.intent == WriterIntent::Reserved <==> exists|j: int|
        0 <= j < ls.len() && ls[j] == LockLevel::Reserved)
    &&& (s.intent == WriterIntent::Exclusive <==> exists|j: int|
        0 <= j < ls.len() && rank(ls[j]) >= 3)
}

/// Replacing the level of one handle moves each count by exactly the
/// difference that handle makes.
proof fn lemma_count_update(ls: Seq<LockLevel>, i: int, v: LockLevel)
    requires
        0 <= i < ls.len(),
    ensures
        shared_count(ls.update(i, v)) == shared_count(ls) - (if ls[i] == LockLevel::Shared {
            1int
        } else {
            0int
        }) + (if v == LockLevel::Shared {
            1int
        } else {
            0int
        }),
        writer_count(ls.update(i, v)) == writer_count(ls) - (if is_writer(ls[i]) {
            1int
        } else {
            0int
        }) + (if is_writer(v) {
            1int
        } else {
            0int
        }),
    decreases ls.len(),
{
    if i == ls.len() - 1 {
        assert(ls.update(i, v).drop_last() =~= ls.drop_last());
    } else {
        assert(ls.update(i, v).drop_last() =~= ls.drop_last().update(i, v));
        lemma_count_update(ls.drop_last(), i, v);
    }
}

/// Each count lies between what one handle contributes and the handle count.
proof fn lemma_count_bounds(ls: Seq<LockLevel>, i: int)
    requires
        0 <= i < ls.len(),
    ensures
        shared_count(ls) >= (if ls[i] == LockLevel::Shared {
            1int
        } else {
            0int
        }),
        writer_count(ls) >= (if is_writer(ls[i]) {
            1int
        } else {
            0int
        }),
        shared_count(ls) <= ls.len(),
        writer_count(ls) <= ls.len(),
        shared_count(ls) >= 0,
        writer_count(ls) >= 0,
    decreases ls.len(),
{
    if ls.len() == 1 {
    } else if i == ls.len() - 1 {
        lemma_count_bounds(ls.drop_last(), 0);
    } else {
        lemma_count_bounds(ls.drop_last(), i);
    }
}

/// With no handle above `Shared` counted, no handle is above `Shared`.
proof fn lemma_no_writer(ls: Seq<LockLevel>)
    requires
        writer_count(ls) == 0,
    ensures
        forall|j: int| 0 <= j < ls.len() ==> !is_writer(ls[j]),
    decreases ls.len(),
{
    if ls.len() > 0 {
        lemma_count_bounds(ls, 0);
        assert(writer_count(ls.drop_last()) >= 0) by {
            if ls.len() > 1 {
                lemma_count_bounds(ls.drop_last(), 0);
            }
        }
        lemma_no_writer(ls.drop_last());
        assert forall|j: int| 0 <= j < ls.len() implies !is_writer(ls[j]) by {
            if j < ls.len() - 1 {
                assert(ls.drop_last()[j] == ls[j]);
            }
        }
    }
}

/// Two distinct handles contribute separately to the writer count.
proof fn lemma_writer_pair(ls: Seq<LockLevel>, i: int, j: int)
    requires
        0 <= i < j < ls.len(),
    ensures
        writer_count(ls) >= (if is_writer(ls[i]) {
            1int
        } else {
            0int
        }) + (if is_writer(ls[j]) {
            1int
        } else {
            0int
        }),
    decreases ls.len(),
{
    if j == ls.len() - 1 {
        lemma_count_bounds(ls.drop_last(), i);
    } else {
        lemma_writer_pair(ls.drop_last(), i, j);
    }
}

/// With at most one handle counted above `Shared`, a handle above `Shared`
/// is the only one.
proof fn lemma_unique_writer(ls: Seq<LockLevel>, i: int)
    requires
        0 <= i < ls.len(),
        writer_count(ls) <= 1,
        is_writer(ls[i]),
    ensures
        forall|j: int| 0 <= j < ls.len() && j != i ==> !is_writer(ls[j]),
{
    assert forall|j: int| 0 <= j < ls.len() && j != i implies !is_writer(ls[j]) by {
        if j < i {
            lemma_writer_pair(ls, j, i);
        } else {
            lemma_writer_pair(ls, i, j);
        }
    }
}

/// Whatever level any one of the handles requests, the transition keeps the
/// shared state consistent with what all the handles hold.
pub proof fn lemma_step_preserves_consistency_all(
    s: LockState,
    ls: Seq<LockLevel>,
    i: int,
    target: LockLevel,
)
    requires
        consistent_all(s, ls),
        0 <= i < ls.len(),
    ensures
        ({
            let st = step(s, ls[i], target);
            consistent_all(st.state, ls.update(i, st.level))
        }),
{
    let st = step(s, ls[i], target);
    let cur = ls[i];
    let ls2 = ls.update(i, st.level);
    lemma_count_update(ls, i, st.level);
    lemma_count_bounds(ls, i);
    if is_writer(cur) {
        lemma_unique_writer(ls, i);
    }
    if writer_count(ls) == 0 {
        lemma_no_writer(ls);
    }
    if st.state.intent == WriterIntent::Reserved {
        if st.level == LockLevel::Reserved {
            assert(ls2[i] == LockLevel::Reserved);
        } else {
            let j0 = choose|j: int| 0 <= j < ls.len() && ls[j] == LockLevel::Reserved;
            assert(ls2[j0] == LockLevel::Reserved);
        }
    }
    if st.state.intent == WriterIntent::Exclusive {
        if rank(st.level) >= 3 {
            assert(rank(ls2[i]) >= 3);
        } else {
            let j0 = choose|j: int| 0 <= j < ls.len() && rank(ls[j]) >= 3;
            assert(rank(ls2[j0]) >= 3);
        }
    }
}

/// Position of a level in the total order, as executable code.
pub fn rank_exec(l: LockLevel) -> (r: u8)
    ensures
        r == rank(l),
{
    match l {
        LockLevel::Unlocked => 0,
        LockLevel::Shared => 1,
        LockLevel::Reserved => 2,
        LockLevel::Pending => 3,
        LockLevel::Exclusive => 4,
    }
}

} // verus!
