//! The fixed-timestep frame scheduler: the delta-time computation with its
//! stall clamp, and the static checks on the subsystem graph — declared
//! resource access must not conflict between subsystems that may run
//! concurrently, and the declared order must respect dependencies and keep
//! the pinned subsystems after the concurrent set.

use vstd::prelude::*;

verus! {

/// Singleton timing resource: the delta published for the current frame,
/// in microseconds.
#[derive(Clone, Copy, Debug, PartialEq, Eq, Structural)]
pub struct TimingRes {
    pub delta_us: u64,
}

impl Default for TimingRes {
    /// Before the first frame no time has passed.
    fn default() -> (r: TimingRes)
        ensures
            r.delta_us == 0,
    {
        TimingRes { delta_us: 0 }
    }
}

/// The target frame period for a target frame rate, in microseconds.
pub fn target_period_us(rate: u32) -> (r: u64)
    requires
        rate > 0,
    ensures
        r == 1_000_000int / rate as int,
{
    1_000_000u64 / (rate as u64)
}

/// Whether the busy-wait is over: the elapsed time has reached the target
/// frame period.
pub fn frame_ready(elapsed_us: u64, target_us: u64) -> (b: bool)
    ensures
        b == (elapsed_us >= target_us),
{
    elapsed_us >= target_us
}

/// The delta published for a frame: the elapsed time, except that an
/// elapsed time beyond twice the target period is clamped to zero, so a
/// stall cannot produce a time explosion on resume.
pub open spec fn clamped_delta(elapsed_us: u64, target_us: u64) -> u64 {
    if elapsed_us > 2 * (target_us as int) {
        0u64
    } else {
        elapsed_us
    }
}

/// Compute the frame's published delta from the measured elapsed time.
pub fn clamp_delta(elapsed_us: u64, target_us: u64) -> (d: u64)
    ensures
        d == clamped_delta(elapsed_us, target_us),
{
    if (elapsed_us as u128) > 2u128 * (target_us as u128) {
        0
    } else {
        elapsed_us
    }
}

/// A stalled frame publishes a zero delta: at an elapsed time of three
/// target periods the published delta is 0, not the elapsed time.
pub proof fn lemma_stall_clamps_to_zero(target_us: u64)
    requires
        3 * (target_us as int) <= u64::MAX,
    ensures
        clamped_delta((3 * target_us) as u64, target_us) == 0,
{
}

/// One subsystem of the frame graph: the resources it reads and writes
/// (by resource id), the subsystems that must have run before it (by index
/// into the graph), and whether it is pinned to the designated thread.
pub struct SubsystemDecl {
    pub name: String,
    pub reads: Vec<u32>,
    pub writes: Vec<u32>,
    pub deps: Vec<usize>,
    pub pinned: bool,
}

/// A static configuration error in the subsystem graph, fatal before the
/// frame loop starts.
#[derive(Clone, Copy, Debug, PartialEq, Eq, Structural)]
pub enum SchedError {
    /// Two subsystems that may run concurrently declare conflicting access
    /// to the same resource.
    AccessConflict,
    /// The declared order breaks a dependency, or an unpinned subsystem is
    /// declared after a pinned one.
    BadOrder,
}

/// The subsystem touches resource `r` at all.
pub open spec fn accesses(s: SubsystemDecl, r: u32) -> bool {
    s.reads@.contains(r) || s.writes@.contains(r)
}

/// Some resource written by `a` is also accessed by `b`.
pub open spec fn writes_into(a: SubsystemDecl, b: SubsystemDecl) -> bool {
    exists|r: u32| #[trigger] a.writes@.contains(r) && accesses(b, r)
}

/// The two subsystems' declared access sets conflict: one writes what the
/// other reads or writes.
pub open spec fn conflict(a: SubsystemDecl, b: SubsystemDecl) -> bool {
    writes_into(a, b) || writes_into(b, a)
}

/// Subsystems `i` and `j` may run concurrently: both belong to the
/// concurrent set (not pinned) and neither declares the other as a
/// dependency.
pub open spec fn may_overlap(sys: Seq<SubsystemDecl>, i: int, j: int) -> bool {
    &&& i != j
    &&& !sys[i].pinned
    &&& !sys[j].pinned
    &&& !sys[i].deps@.contains(j as usize)
    &&& !sys[j].deps@.contains(i as usize)
}

/// No two subsystems that may run concurrently conflict.
pub open spec fn schedule_conflict_free(sys: Seq<SubsystemDecl>) -> bool {
    forall|i: int, j: int|
        0 <= i < j < sys.len() && #[trigger] may_overlap(sys, i, j) ==> !conflict(sys[i], sys[j])
}

/// The declaration order is a valid run order: every dependency points at
/// an earlier subsystem, and the pinned subsystems all come after the
/// concurrent set, in declaration order among themselves.
pub open spec fn order_ok(sys: Seq<SubsystemDecl>) -> bool {
    &&& forall|i: int, k: int|
        0 <= i < sys.len() && 0 <= k < sys[i].deps@.len() ==> #[trigger] sys[i].deps@[k] < i
    &&& forall|i: int, j: int|
        #![trigger sys[i].pinned, sys[j].pinned]
        0 <= i < j < sys.len() && sys[i].pinned ==> sys[j].pinned
}

fn contains_u32(v: &Vec<u32>, x: u32) -> (b: bool)
    ensures
        b == v@.contains(x),
{
    let mut i: usize = 0;
    while i < v.len()
        invariant
            i <= v@.len(),
            forall|k: int| 0 <= k < i ==> v@[k] != x,
        decreases v@.len() - i,
    {
        if v[i] == x {
            return true;
        }
        i += 1;
    }
    false
}

fn contains_usize(v: &Vec<usize>, x: usize) -> (b: bool)
    ensures
        b == v@.contains(x),
{
    let mut i: usize = 0;
    while i < v.len()
        invariant
            i <= v@.len(),
            forall|k: int| 0 <= k < i ==> v@[k] != x,
        decreases v@.len() - i,
    {
        if v[i] == x {
            return true;
        }
        i += 1;
    }
    false
}

/// Whether some resource written by `a` is read or written by `b`.
fn writes_into_exec(a: &SubsystemDecl, b: &SubsystemDecl) -> (r: bool)
    ensures
        r == writes_into(*a, *b),
{
    let mut i: usize = 0;
    while i < a.writes.len()
        invariant
            i <= a.writes@.len(),
            forall|k: int| 0 <= k < i ==> !accesses(*b, #[trigger] a.writes@[k]),
        decreases a.writes@.len() - i,
    {
        let r = a.writes[i];
        if contains_u32(&b.reads, r) || contains_u32(&b.writes, r) {
            proof {
                assert(a.writes@.contains(r) && accesses(*b, r));
            }
            return true;
        }
        i += 1;
    }
    proof {
        if writes_into(*a, *b) {
            let r = choose|r: u32| a.writes@.contains(r) && accesses(*b, r);
            let k = choose|k: int| 0 <= k < a.writes@.len() && a.writes@[k] == r;
            assert(!accesses(*b, a.writes@[k]));
        }
    }
    false
}

/// Whether the two subsystems declare conflicting access.
pub fn conflicts(a: &SubsystemDecl, b: &SubsystemDecl) -> (r: bool)
    ensures
        r == conflict(*a, *b),
{
    writes_into_exec(a, b) || writes_into_exec(b, a)
}

/// Validate the whole subsystem graph before the frame loop starts: report
/// a conflict between concurrently runnable subsystems, or a declared
/// order that breaks a dependency or the pinning rule. Exactly the valid
/// graphs pass.
pub fn check_schedule(systems: &Vec<SubsystemDecl>) -> (r: Result<(), SchedError>)
    ensures
        r == Ok::<(), SchedError>(()) <==> schedule_conflict_free(systems@) && order_ok(systems@),
        r is Err ==> (r == Err::<(), SchedError>(SchedError::AccessConflict) <==> !schedule_conflict_free(
            systems@,
        )),
{
    let n = systems.len();
    let mut i: usize = 0;
    while i < n
        invariant
            n == systems@.len(),
            i <= n,
            forall|a: int, b: int|
                0 <= a < b < n && a < i && #[trigger] may_overlap(systems@, a, b) ==> !conflict(
                    systems@[a],
                    systems@[b],
                ),
        decreases n - i,
    {
        let mut j: usize = i + 1;
        while j < n
            invariant
                n == systems@.len(),
                i + 1 <= j,
                i < n,
                j <= n,
                forall|a: int, b: int|
                    0 <= a < b < n && a < i && #[trigger] may_overlap(systems@, a, b) ==> !conflict(
                        systems@[a],
                        systems@[b],
                    ),
                forall|b: int|
                    i < b < j && #[trigger] may_overlap(systems@, i as int, b) ==> !conflict(
                        systems@[i as int],
                        systems@[b],
                    ),
            decreases n - j,
        {
            let overlap = !systems[i].pinned && !systems[j].pinned && !contains_usize(
                &systems[i].deps,
                j,
            ) && !contains_usize(&systems[j].deps, i);
            if overlap {
                if conflicts(&systems[i], &systems[j]) {
                    proof {
                        assert(may_overlap(systems@, i as int, j as int));
                        assert(!schedule_conflict_free(systems@));
                    }
                    return Err(SchedError::AccessConflict);
                }
            }
            j += 1;
        }
        i += 1;
    }
    let mut i: usize = 0;
    while i < n
        invariant
            n == systems@.len(),
            i <= n,
            schedule_conflict_free(systems@),
            forall|a: int, k: int|
                0 <= a < i && 0 <= k < systems@[a].deps@.len() ==> #[trigger] systems@[a].deps@[k]
                    < a,
            forall|a: int, b: int|
                #![trigger systems@[a].pinned, systems@[b].pinned]
                0 <= a < b < n && b < i && systems@[a].pinned ==> systems@[b].pinned,
        decreases n - i,
    {
        let mut k: usize = 0;
        while k < systems[i].deps.len()
            invariant
                n == systems@.len(),
                i < n,
                schedule_conflict_free(systems@),
                k <= systems@[i as int].deps@.len(),
                forall|q: int|
                    0 <= q < k ==> #[trigger] systems@[i as int].deps@[q] < i as int,
            decreases systems@[i as int].deps@.len() - k,
        {
            if systems[i].deps[k] >= i {
                proof {
                    assert(systems@[i as int].deps@[k as int] >= i as int);
                    assert(!order_ok(systems@));
                }
                return Err(SchedError::BadOrder);
            }
            k += 1;
        }
        if i > 0 {
            if systems[i - 1].pinned && !systems[i].pinned {
                proof {
                    assert(systems@[i - 1].pinned && !systems@[i as int].pinned);
                    assert(!order_ok(systems@));
                }
                return Err(SchedError::BadOrder);
            }
            proof {
                if i + 1 <= n {
                    assert forall|a: int, b: int|
                        #![trigger systems@[a].pinned, systems@[b].pinned]
                        0 <= a < b < n && b < i + 1 && systems@[a].pinned implies systems@[b].pinned by {
                        if b == i as int {
                            assert(systems@[i - 1].pinned);
                        }
                    }
                }
            }
        }
        i += 1;
    }
    Ok(())
}

} // verus!
