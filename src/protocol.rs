//! The per-instance protocol of a hybrid lock, as a state machine.
//!
//! A lock instance is idle, held by one or more shared holders, or held by a
//! single exclusive holder. The version counts completed exclusive sections:
//! it moves only when an exclusive holder releases. Optimistic readers take
//! no step here; they sample the exclusive flag and the version.
//!
//! The laws below are proved of this model. `HybridLock` does not run it: its
//! state lives in parking_lot's lock and an atomic counter across threads, and
//! only its decisions (`admits`, `validate_optimistic`) are shared with it.
use vstd::prelude::*;

verus! {

/// One step that a lock instance can take.
#[derive(Clone, Copy, Debug, PartialEq, Eq, Structural)]
pub enum LockEvent {
    /// A blocking reader is granted shared access.
    AcquireShared,
    /// A blocking reader drops its guard.
    ReleaseShared,
    /// A writer is granted exclusive access.
    AcquireExclusive,
    /// The exclusive holder stores a new value through its guard.
    Store(u64),
    /// The exclusive holder drops its guard; the version moves by one.
    ReleaseExclusive,
}

/// What a lock instance holds at one moment: the number of shared holders,
/// whether an exclusive holder is present, the version and the protected value.
#[derive(Clone, Copy, Debug, PartialEq, Eq, Structural)]
pub struct LockState {
    pub readers: u64,
    pub exclusive: bool,
    pub version: u64,
    pub value: u64,
}

/// The version after one more completed exclusive section (a fetch-and-add
/// of one, which wraps).
pub open spec fn next_version(v: u64) -> u64 {
    if v == u64::MAX { 0 } else { (v + 1) as u64 }
}

/// The state after `e`, or `None` where `e` cannot be taken now: an
/// acquisition that has to wait, or a release or store by a party that holds
/// no such access.
pub open spec fn step(s: LockState, e: LockEvent) -> Option<LockState> {
    match e {
        LockEvent::AcquireShared => if !s.exclusive && s.readers < u64::MAX {
            Some(LockState { readers: (s.readers + 1) as u64, ..s })
        } else {
            None
        },
        LockEvent::ReleaseShared => if s.readers > 0 {
            Some(LockState { readers: (s.readers - 1) as u64, ..s })
        } else {
            None
        },
        LockEvent::AcquireExclusive => if !s.exclusive && s.readers == 0 {
            Some(LockState { exclusive: true, ..s })
        } else {
            None
        },
        LockEvent::Store(v) => if s.exclusive {
            Some(LockState { value: v, ..s })
        } else {
            None
        },
        LockEvent::ReleaseExclusive => if s.exclusive {
            Some(LockState { exclusive: false, version: next_version(s.version), ..s })
        } else {
            None
        },
    }
}

/// The state after taking the events in order, or `None` where one of them
/// cannot be taken.
pub open spec fn run(s: LockState, es: Seq<LockEvent>) -> Option<LockState>
    decreases es.len(),
{
    if es.len() == 0 {
        Some(s)
    } else {
        match step(s, es[0]) {
            Some(t) => run(t, es.drop_first()),
            None => None,
        }
    }
}

impl LockState {
    /// No exclusive holder is present together with a shared holder.
    pub open spec fn wf(self) -> bool {
        !(self.exclusive && self.readers > 0)
    }

    /// The state of a fresh instance: idle, at version zero.
    pub open spec fn initial(value: u64) -> LockState {
        LockState { readers: 0, exclusive: false, version: 0, value }
    }

    pub fn new(value: u64) -> (r: LockState)
        ensures
            r == LockState::initial(value),
            r.wf(),
    {
        LockState { readers: 0, exclusive: false, version: 0, value }
    }

    /// Takes one step.
    pub fn apply(self, e: LockEvent) -> (r: Option<LockState>)
        ensures
            r == step(self, e),
    {
        match e {
            LockEvent::AcquireShared => if !self.exclusive && self.readers < u64::MAX {
                Some(LockState { readers: self.readers + 1, ..self })
            } else {
                None
            },
            LockEvent::ReleaseShared => if self.readers > 0 {
                Some(LockState { readers: self.readers - 1, ..self })
            } else {
                None
            },
            LockEvent::AcquireExclusive => if !self.exclusive && self.readers == 0 {
                Some(LockState { exclusive: true, ..self })
            } else {
                None
            },
            LockEvent::Store(v) => if self.exclusive {
                Some(LockState { value: v, ..self })
            } else {
                None
            },
            LockEvent::ReleaseExclusive => if self.exclusive {
                Some(LockState { exclusive: false, version: self.version.wrapping_add(1), ..self })
            } else {
                None
            },
        }
    }

    /// Takes the events in order; `None` as soon as one cannot be taken.
    pub fn apply_all(self, es: &Vec<LockEvent>) -> (r: Option<LockState>)
        ensures
            r == run(self, es@),
    {
        let mut cur: LockState = self;
        let mut i: usize = 0;
        assert(es@.subrange(0, es@.len() as int) =~= es@);
        while i < es.len()
            invariant
                0 <= i <= es.len(),
                run(self, es@) == run(cur, es@.subrange(i as int, es@.len() as int)),
            decreases es.len() - i,
        {
            let rest = Ghost(es@.subrange(i as int, es@.len() as int));
            assert(rest@.drop_first() =~= es@.subrange(i + 1, es@.len() as int));
            match cur.apply(es[i]) {
                Some(t) => cur = t,
                None => return None,
            }
            i = i + 1;
        }
        assert(es@.subrange(i as int, es@.len() as int) =~= Seq::<LockEvent>::empty());
        Some(cur)
    }
}

/// The number of completed exclusive sections among the events.
pub open spec fn releases(es: Seq<LockEvent>) -> nat
    decreases es.len(),
{
    if es.len() == 0 {
        0
    } else {
        (if es[0] == LockEvent::ReleaseExclusive { 1nat } else { 0nat }) + releases(es.drop_first())
    }
}

/// Only shared acquisitions and releases occur among the events: nobody
/// takes, uses or gives up exclusive access.
pub open spec fn quiet(es: Seq<LockEvent>) -> bool {
    forall|i: int|
        0 <= i < es.len() ==> (es[i] == LockEvent::AcquireShared || es[i] == LockEvent::ReleaseShared)
}

/// An optimistic attempt keeps its result when no exclusive holder was seen
/// after its call and the version read after the call equals the one read
/// before.
pub open spec fn accepts(pre_version: u64, locked_after: bool, post_version: u64) -> bool {
    !locked_after && pre_version == post_version
}

/// Whether an optimistic attempt may run its read, given whether an exclusive
/// holder was present when it looked: only when none was.
pub fn admits(locked_before: bool) -> (r: bool)
    ensures
        r == !locked_before,
{
    !locked_before
}

/// Decides an optimistic attempt from what it observed: the version before
/// the call, the call's result, whether an exclusive holder was present after
/// the call, and the version after that.
pub fn validate_optimistic<R>(pre_version: u64, result: R, locked_after: bool, post_version: u64) -> (r:
    Option<R>)
    ensures
        r == (if accepts(pre_version, locked_after, post_version) {
            Some(result)
        } else {
            None
        }),
{
    if !locked_after && pre_version == post_version {
        Some(result)
    } else {
        None
    }
}

proof fn lemma_run_append(s: LockState, a: Seq<LockEvent>, b: Seq<LockEvent>)
    ensures
        run(s, a + b) == (match run(s, a) {
            Some(m) => run(m, b),
            None => None,
        }),
        releases(a + b) == releases(a) + releases(b),
    decreases a.len(),
{
    if a.len() == 0 {
        assert(a + b =~= b);
    } else {
        assert((a + b).drop_first() =~= a.drop_first() + b);
        assert((a + b)[0] == a[0]);
        if let Some(t) = step(s, a[0]) {
            lemma_run_append(t, a.drop_first(), b);
        } else {
            lemma_run_append(s, a.drop_first(), b);
        }
    }
}

/// Mutual exclusion, in the model: from a well-formed state, every reachable state is
/// well-formed, so an exclusive holder is never present together with a
/// shared holder; and while any holder is present a writer is not admitted,
/// so no two exclusive holders coexist.
pub proof fn lemma_mutual_exclusion(s: LockState, es: Seq<LockEvent>)
    requires
        s.wf(),
        run(s, es) is Some,
    ensures
        run(s, es)->0.wf(),
        run(s, es)->0.exclusive ==> step(run(s, es)->0, LockEvent::AcquireExclusive) is None,
        run(s, es)->0.exclusive ==> step(run(s, es)->0, LockEvent::AcquireShared) is None,
        run(s, es)->0.readers > 0 ==> step(run(s, es)->0, LockEvent::AcquireExclusive) is None,
    decreases es.len(),
{
    if es.len() > 0 {
        lemma_mutual_exclusion(step(s, es[0])->0, es.drop_first());
    }
}

/// In the model, the version moves by exactly one per completed exclusive section, and by
/// nothing else, as long as it does not wrap.
pub proof fn lemma_version_counts_releases(s: LockState, es: Seq<LockEvent>)
    requires
        run(s, es) is Some,
        s.version + releases(es) <= u64::MAX,
    ensures
        run(s, es)->0.version == s.version + releases(es),
        s.version <= run(s, es)->0.version,
    decreases es.len(),
{
    if es.len() > 0 {
        lemma_version_counts_releases(step(s, es[0])->0, es.drop_first());
    }
}

/// In the model, while a shared holder is present, no step moves the version.
pub proof fn lemma_version_fixed_under_readers(s: LockState, e: LockEvent)
    requires
        s.wf(),
        s.readers > 0,
        step(s, e) is Some,
    ensures
        step(s, e)->0.version == s.version,
        step(s, e)->0.value == s.value,
{
}

/// In the model, two reads with no writer admitted between them observe the same value and
/// the same version.
pub proof fn lemma_reads_repeat(s: LockState, es: Seq<LockEvent>)
    requires
        !s.exclusive,
        run(s, es) is Some,
        forall|i: int| 0 <= i < es.len() ==> es[i] != LockEvent::AcquireExclusive,
    ensures
        run(s, es)->0.value == s.value,
        run(s, es)->0.version == s.version,
        !run(s, es)->0.exclusive,
    decreases es.len(),
{
    if es.len() > 0 {
        let t = step(s, es[0])->0;
        assert forall|i: int| 0 <= i < es.drop_first().len() implies es.drop_first()[i]
            != LockEvent::AcquireExclusive by {
            assert(es.drop_first()[i] == es[i + 1]);
        }
        lemma_reads_repeat(t, es.drop_first());
    }
}

/// A shared holder is present before each of the events that can be taken.
pub open spec fn shared_throughout(s: LockState, es: Seq<LockEvent>) -> bool
    decreases es.len(),
{
    if es.len() == 0 {
        true
    } else {
        s.readers > 0 && match step(s, es[0]) {
            Some(t) => shared_throughout(t, es.drop_first()),
            None => true,
        }
    }
}

/// In the model, over any stretch in which a read guard is live, neither the version nor the
/// value changes.
pub proof fn lemma_version_fixed_while_read(s: LockState, es: Seq<LockEvent>)
    requires
        s.wf(),
        run(s, es) is Some,
        shared_throughout(s, es),
    ensures
        run(s, es)->0.version == s.version,
        run(s, es)->0.value == s.value,
    decreases es.len(),
{
    if es.len() > 0 {
        lemma_version_fixed_under_readers(s, es[0]);
        lemma_version_fixed_while_read(step(s, es[0])->0, es.drop_first());
    }
}

/// In the model, when an optimistic attempt fails, its fallback takes one blocking read:
/// that read is granted at once whenever no writer holds the lock (and the
/// count of readers has room), and shows the value as it stands.
pub proof fn lemma_fallback_granted(s: LockState)
    requires
        !s.exclusive,
        s.readers < u64::MAX,
    ensures
        step(s, LockEvent::AcquireShared) == Some(LockState { readers: (s.readers + 1) as u64, ..s }),
{
}

proof fn lemma_held_until_released(s: LockState, es: Seq<LockEvent>)
    requires
        run(s, es) is Some,
        releases(es) == 0,
        !run(s, es)->0.exclusive,
    ensures
        !s.exclusive,
        quiet(es),
        run(s, es)->0.value == s.value,
        run(s, es)->0.version == s.version,
    decreases es.len(),
{
    if es.len() > 0 {
        let t = step(s, es[0])->0;
        lemma_held_until_released(t, es.drop_first());
        assert forall|i: int| 0 <= i < es.len() implies (es[i] == LockEvent::AcquireShared || es[i]
            == LockEvent::ReleaseShared) by {
            if i > 0 {
                assert(es[i] == es.drop_first()[i - 1]);
            }
        }
    }
}

/// Optimistic soundness, in the model. An attempt reads the version at `s`, runs its call
/// over `during`, checks the exclusive flag at the state reached, and reads
/// the version again after `after`. If it accepts, no exclusive section was
/// completed in between, nobody took or used exclusive access while the call
/// ran, and the value the call saw throughout is the one at `s`, where no
/// exclusive holder was present: what a read guard would have shown.
pub proof fn lemma_optimistic_sound(s: LockState, during: Seq<LockEvent>, after: Seq<LockEvent>)
    requires
        run(s, during) is Some,
        run(run(s, during)->0, after) is Some,
        accepts(s.version, run(s, during)->0.exclusive, run(run(s, during)->0, after)->0.version),
        s.version + releases(during + after) <= u64::MAX,
    ensures
        releases(during + after) == 0,
        !s.exclusive,
        quiet(during),
        run(s, during)->0.value == s.value,
{
    let m = run(s, during)->0;
    lemma_run_append(s, during, after);
    lemma_version_counts_releases(s, during);
    lemma_version_counts_releases(m, after);
    lemma_held_until_released(s, during);
}

} // verus!
