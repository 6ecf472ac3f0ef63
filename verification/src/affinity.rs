//! CPU-affinity planning: which cores a worker's thread is restricted to, and
//! the mask that hands that plan to the operating system.

use nix::errno::Errno;
use nix::sched::CpuSet;
use vstd::prelude::*;

verus! {

/// Cores that each worker is given: `total_cores / workers`, rounded up.
pub open spec fn spec_cores_per_worker(total_cores: int, workers: int) -> int
    recommends
        workers > 0,
{
    (total_cores + workers - 1) / workers
}

/// The core behind position `k` of a worker's window: the raw index
/// `worker_id * cores_per_worker + k`, wrapped by the number of workers.
pub open spec fn spec_core_at(total_cores: int, workers: int, worker_id: int, k: int) -> int
    recommends
        workers > 0,
{
    (worker_id * spec_cores_per_worker(total_cores, workers) + k) % workers
}

/// The affinity plan of one worker, in window order. A core occurs more than
/// once where the window is longer than the number of workers.
pub open spec fn spec_affinity_plan(total_cores: int, workers: int, worker_id: int) -> Seq<int>
    recommends
        workers > 0,
{
    Seq::new(
        spec_cores_per_worker(total_cores, workers) as nat,
        |k: int| spec_core_at(total_cores, workers, worker_id, k),
    )
}

/// The set of cores that the plan restricts a worker to.
pub open spec fn spec_affinity_set(total_cores: int, workers: int, worker_id: int) -> Set<int>
    recommends
        workers > 0,
{
    spec_affinity_plan(total_cores, workers, worker_id).to_set()
}

/// A list of cores as mathematical integers.
pub open spec fn spec_core_ids(cores: Seq<usize>) -> Seq<int> {
    cores.map_values(|c: usize| c as int)
}

proof fn lemma_ceil_div(total: int, workers: int)
    requires
        total >= 0,
        workers > 0,
    ensures
        spec_cores_per_worker(total, workers) == total / workers + (if total % workers != 0 {
            1int
        } else {
            0int
        }),
        0 <= spec_cores_per_worker(total, workers) <= total,
{
    let q = total / workers;
    let r = total % workers;
    assert(total == workers * q + r && 0 <= r < workers) by (nonlinear_arith)
        requires
            workers > 0,
            q == total / workers,
            r == total % workers,
    ;
    assert(q >= 0) by (nonlinear_arith)
        requires
            total >= 0,
            workers > 0,
            q == total / workers,
    ;
    if r == 0 {
        assert((workers * q + workers - 1) / workers == q) by (nonlinear_arith)
            requires
                workers > 0,
        ;
    } else {
        assert((workers * q + r + workers - 1) / workers == q + 1) by (nonlinear_arith)
            requires
                workers > 0,
                0 < r < workers,
        ;
    }
    assert(q <= total) by (nonlinear_arith)
        requires
            total == workers * q + r,
            workers > 0,
            q >= 0,
            r >= 0,
    ;
    if r != 0 {
        assert(q + 1 <= total) by (nonlinear_arith)
            requires
                total == workers * q + r,
                workers > 0,
                q >= 0,
                r > 0,
        ;
    }
}

/// Number of cores in each worker's window.
pub fn cores_per_worker(total_cores: usize, workers: usize) -> (count: usize)
    requires
        workers > 0,
    ensures
        count == spec_cores_per_worker(total_cores as int, workers as int),
{
    proof {
        lemma_ceil_div(total_cores as int, workers as int);
    }
    let whole: usize = total_cores / workers;
    if total_cores % workers != 0 {
        whole + 1
    } else {
        whole
    }
}

/// Computes the cores that worker `worker_id` of `workers` is restricted to
/// on a host with `total_cores` cores.
pub fn affinity_plan(total_cores: usize, workers: usize, worker_id: usize) -> (cores: Vec<usize>)
    requires
        workers > 0,
        worker_id < workers,
    ensures
        spec_core_ids(cores@) == spec_affinity_plan(
            total_cores as int,
            workers as int,
            worker_id as int,
        ),
        cores.len() == spec_cores_per_worker(total_cores as int, workers as int),
        forall|k: int|
            0 <= k < cores.len() ==> #[trigger] cores[k] == spec_core_at(
                total_cores as int,
                workers as int,
                worker_id as int,
                k,
            ) && cores[k] < workers,
{
    let window: usize = cores_per_worker(total_cores, workers);
    let wide_workers: u128 = workers as u128;
    assert(0 <= worker_id * window <= 0xffff_ffff_ffff_ffff * 0xffff_ffff_ffff_ffff)
        by (nonlinear_arith)
        requires
            0 <= worker_id <= 0xffff_ffff_ffff_ffff,
            0 <= window <= 0xffff_ffff_ffff_ffff,
    ;
    let start: u128 = (worker_id as u128) * (window as u128);
    let mut cores: Vec<usize> = Vec::new();
    let mut k: usize = 0;
    while k < window
        invariant
            workers > 0,
            wide_workers == workers,
            k <= window,
            window == spec_cores_per_worker(total_cores as int, workers as int),
            start == worker_id * window,
            start <= 0xffff_ffff_ffff_ffff * 0xffff_ffff_ffff_ffff,
            cores.len() == k,
            forall|j: int|
                0 <= j < k ==> #[trigger] cores[j] as int == spec_core_at(
                    total_cores as int,
                    workers as int,
                    worker_id as int,
                    j,
                ),
        decreases window - k,
    {
        let raw: u128 = start + (k as u128);
        let core: u128 = raw % wide_workers;
        cores.push(core as usize);
        k += 1;
    }
    proof {
        let plan = spec_affinity_plan(total_cores as int, workers as int, worker_id as int);
        assert(spec_core_ids(cores@) =~= plan);
    }
    cores
}

/// `nix::sched::CpuSet`, a fixed-size bit mask of CPU ids. Verus sees
/// nothing inside it; what it holds is named by [`cpu_set_members`].
#[verifier::external_type_specification]
#[verifier::external_body]
pub struct ExCpuSet(CpuSet);

/// `nix::errno::Errno`, the error of the scheduling calls.
#[verifier::external_type_specification]
#[verifier::external_body]
pub struct ExErrno(Errno);

/// The CPU ids whose bit is set in a mask.
pub uninterp spec fn cpu_set_members(set: CpuSet) -> Set<int>;

/// The number of CPU ids that a mask has room for.
pub uninterp spec fn cpu_set_limit(set: CpuSet) -> int;

/// `CpuSet::new`: a mask with no bit set.
#[verifier::external_body]
fn cpu_set_new() -> (set: CpuSet)
    ensures
        cpu_set_members(set) == Set::<int>::empty(),
{
    CpuSet::new()
}

/// `CpuSet::count`: the number of ids a mask has room for. It is the same
/// for every mask, so it is stated here of the one handed in.
#[verifier::external_body]
fn cpu_set_count(set: &CpuSet) -> (limit: usize)
    ensures
        limit == cpu_set_limit(*set),
{
    let _ = set;
    CpuSet::count()
}

/// `CpuSet::set`: sets the bit of `cpu` where `cpu` is below the limit of the
/// mask, and otherwise fails and leaves the mask as it was.
#[verifier::external_body]
fn cpu_set_add(set: &mut CpuSet, cpu: usize) -> (added: Result<(), Errno>)
    ensures
        cpu_set_limit(*final(set)) == cpu_set_limit(*old(set)),
        added is Ok <==> cpu < cpu_set_limit(*old(set)),
        added is Ok ==> cpu_set_members(*final(set)) == cpu_set_members(*old(set)).insert(
            cpu as int,
        ),
        added is Err ==> cpu_set_members(*final(set)) == cpu_set_members(*old(set)),
{
    set.set(cpu)
}

/// `nix::sched::sched_setaffinity` for the calling thread (process id 0).
/// Whether the host accepts the mask is not known beforehand, so nothing is
/// claimed of the result.
#[verifier::external_body]
fn bind_calling_thread(set: &CpuSet) -> (bound: Result<(), Errno>) {
    nix::sched::sched_setaffinity(nix::unistd::Pid::from_raw(0), set)
}

/// `num_cpus::get`: the number of logical cores available to this process,
/// which is never zero.
#[verifier::external_body]
fn host_cores() -> (cores: usize)
    ensures
        cores >= 1,
{
    num_cpus::get()
}

/// Why a worker could not be pinned.
#[derive(Clone, Copy, Debug, PartialEq, Eq, Structural)]
pub enum AffinityError {
    /// A planned core does not fit in the mask: it is not below `limit`.
    CoreOutOfRange { core: usize, limit: usize },
    /// The host refused the mask.
    Refused,
}

/// Whether `core` is the first core of `plan` that a mask with room for
/// `limit` ids cannot hold.
pub open spec fn spec_first_out_of_range(plan: Seq<int>, core: int, limit: int) -> bool {
    exists|k: int|
        {
            &&& 0 <= k < plan.len()
            &&& #[trigger] plan[k] == core
            &&& core >= limit
            &&& forall|j: int| 0 <= j < k ==> #[trigger] plan[j] < limit
        }
}

/// Whether `limit` is the room of a mask: the number of ids that some mask
/// has room for.
pub open spec fn spec_is_mask_room(limit: int) -> bool {
    exists|room: CpuSet| #[trigger] cpu_set_limit(room) == limit
}

/// Whether every core of `plan` is below `limit`.
pub open spec fn spec_fits(plan: Seq<int>, limit: int) -> bool {
    forall|k: int| 0 <= k < plan.len() ==> #[trigger] plan[k] < limit
}

/// What building the mask of `plan` comes to, held against the room of
/// `room`. A plan that fits the room gives the mask that holds exactly the
/// cores of the plan and has the same room. A plan that does not fit gives
/// the error that names the first core out of range, and the room.
pub open spec fn spec_mask_for(
    room: CpuSet,
    plan: Seq<int>,
    built: Result<CpuSet, AffinityError>,
) -> bool {
    if spec_fits(plan, cpu_set_limit(room)) {
        built matches Ok(set) && cpu_set_members(set) == plan.to_set() && cpu_set_limit(set)
            == cpu_set_limit(room)
    } else {
        built matches Err(AffinityError::CoreOutOfRange { core, limit }) && limit == cpu_set_limit(
            room,
        ) && spec_first_out_of_range(plan, core as int, limit as int)
    }
}

/// Builds the mask that holds exactly the given cores. Fails at the first
/// core that the mask has no room for, and only then: there is a room, the
/// same for the mask and for the error, that decides which of the two it is.
pub fn build_cpu_set(cores: &Vec<usize>) -> (built: Result<CpuSet, AffinityError>)
    ensures
        match built {
            Ok(set) => {
                &&& cpu_set_members(set) == spec_core_ids(cores@).to_set()
                &&& forall|k: int| 0 <= k < cores.len() ==> #[trigger] cores[k] < cpu_set_limit(set)
            },
            Err(AffinityError::CoreOutOfRange { core, limit }) => {
                &&& spec_is_mask_room(limit as int)
                &&& exists|k: int|
                    {
                        &&& 0 <= k < cores.len()
                        &&& #[trigger] cores[k] == core
                        &&& core >= limit
                        &&& forall|j: int| 0 <= j < k ==> #[trigger] cores[j] < limit
                    }
            },
            Err(AffinityError::Refused) => false,
        },
        exists|room: CpuSet| #[trigger] spec_mask_for(room, spec_core_ids(cores@), built),
{
    let mut set: CpuSet = cpu_set_new();
    let limit: usize = cpu_set_count(&set);
    let ghost ids = spec_core_ids(cores@);
    let mut k: usize = 0;
    while k < cores.len()
        invariant
            k <= cores.len(),
            ids == spec_core_ids(cores@),
            limit == cpu_set_limit(set),
            cpu_set_members(set) == ids.take(k as int).to_set(),
            forall|j: int| 0 <= j < k ==> #[trigger] cores[j] < limit,
        decreases cores.len() - k,
    {
        let core: usize = cores[k];
        match cpu_set_add(&mut set, core) {
            Ok(()) => {},
            Err(_) => {
                let failed = Err(AffinityError::CoreOutOfRange { core, limit });
                proof {
                    assert(cpu_set_limit(set) == limit);
                    assert(ids[k as int] == core);
                    assert forall|j: int| 0 <= j < k implies #[trigger] ids[j] < limit by {
                        assert(cores[j] < limit);
                    }
                    assert(!spec_fits(ids, limit as int));
                    assert(spec_first_out_of_range(ids, core as int, limit as int));
                    assert(spec_mask_for(set, ids, failed));
                }
                return failed;
            },
        }
        proof {
            let step = ids.take(k as int + 1);
            assert(step.drop_last() =~= ids.take(k as int));
            assert(step.last() == core as int);
            assert(step.to_set() =~= ids.take(k as int).to_set().insert(core as int)) by {
                assert forall|c: int| step.to_set().contains(c) implies ids.take(
                    k as int,
                ).to_set().insert(core as int).contains(c) by {
                    let i = choose|i: int| 0 <= i < step.len() && step[i] == c;
                    if i < k {
                        assert(ids.take(k as int)[i] == c);
                    }
                }
                assert forall|c: int|
                    ids.take(k as int).to_set().insert(core as int).contains(
                        c,
                    ) implies step.to_set().contains(c) by {
                    if c == core as int {
                        assert(step[k as int] == c);
                    } else {
                        let i = choose|i: int| 0 <= i < k && ids.take(k as int)[i] == c;
                        assert(step[i] == c);
                    }
                }
            }
        }
        k += 1;
    }
    proof {
        assert(ids.take(k as int) =~= ids);
        assert forall|j: int| 0 <= j < ids.len() implies #[trigger] ids[j] < limit by {
            assert(cores[j] < limit);
        }
        assert(spec_mask_for(set, ids, Ok(set)));
    }
    Ok(set)
}

/// Builds the mask of worker `worker_id` of `workers` on a host with
/// `total_cores` cores: the mask that holds exactly the worker's affinity
/// set. Fails at the first planned core that the mask has no room for.
pub fn affinity_mask(total_cores: usize, workers: usize, worker_id: usize) -> (mask: Result<
    CpuSet,
    AffinityError,
>)
    requires
        workers > 0,
        worker_id < workers,
    ensures
        match mask {
            Ok(set) => {
                &&& cpu_set_members(set) == spec_affinity_set(
                    total_cores as int,
                    workers as int,
                    worker_id as int,
                )
                &&& forall|core: int| #[trigger]
                    cpu_set_members(set).contains(core) ==> 0 <= core < cpu_set_limit(set)
            },
            Err(AffinityError::CoreOutOfRange { core, limit }) => {
                &&& spec_is_mask_room(limit as int)
                &&& spec_first_out_of_range(
                    spec_affinity_plan(total_cores as int, workers as int, worker_id as int),
                    core as int,
                    limit as int,
                )
            },
            Err(AffinityError::Refused) => false,
        },
        exists|room: CpuSet| #[trigger]
            spec_mask_for(
                room,
                spec_affinity_plan(total_cores as int, workers as int, worker_id as int),
                mask,
            ),
{
    let cores: Vec<usize> = affinity_plan(total_cores, workers, worker_id);
    let ghost plan = spec_affinity_plan(total_cores as int, workers as int, worker_id as int);
    let ghost ids = spec_core_ids(cores@);
    let built = build_cpu_set(&cores);
    proof {
        match built {
            Ok(set) => {
                assert forall|core: int| #[trigger]
                    cpu_set_members(set).contains(core) implies 0 <= core < cpu_set_limit(
                    set,
                ) by {
                    let k = choose|k: int| 0 <= k < ids.len() && ids[k] == core;
                    assert(cores[k] < cpu_set_limit(set));
                }
            },
            Err(AffinityError::CoreOutOfRange { core, limit }) => {
                let k = choose|k: int|
                    {
                        &&& 0 <= k < cores.len()
                        &&& #[trigger] cores[k] == core
                        &&& core >= limit
                        &&& forall|j: int| 0 <= j < k ==> #[trigger] cores[j] < limit
                    };
                assert(ids[k] == plan[k]);
                assert forall|j: int| 0 <= j < k implies #[trigger] plan[j] < limit by {
                    assert(ids[j] == plan[j]);
                    assert(cores[j] < limit);
                }
            },
            Err(AffinityError::Refused) => {},
        }
    }
    built
}

/// Whether `set` is the mask of worker `worker_id`: it holds exactly the
/// worker's affinity set, and each of these cores is within its room.
pub open spec fn spec_is_affinity_mask(
    set: CpuSet,
    total_cores: int,
    workers: int,
    worker_id: int,
) -> bool {
    &&& cpu_set_members(set) == spec_affinity_set(total_cores, workers, worker_id)
    &&& forall|core: int| #[trigger]
        cpu_set_members(set).contains(core) ==> 0 <= core < cpu_set_limit(set)
}

/// What pinning a worker to its plan comes to, held against the room of
/// `room`. A plan that fits the room goes to the host, which accepts or
/// refuses the mask. A plan that does not fit is reported with its first
/// core out of range, and the room, without the host being asked.
pub open spec fn spec_pinned_for(
    room: CpuSet,
    plan: Seq<int>,
    pinned: Result<(), AffinityError>,
) -> bool {
    if spec_fits(plan, cpu_set_limit(room)) {
        pinned is Ok || pinned == Err::<(), AffinityError>(AffinityError::Refused)
    } else {
        pinned matches Err(AffinityError::CoreOutOfRange { core, limit }) && limit == cpu_set_limit(
            room,
        ) && spec_first_out_of_range(plan, core as int, limit as int)
    }
}

/// What pinning a worker to its plan comes to. Either the plan does not fit
/// a mask, and the error names the first planned core that is out of range
/// and the room of a mask, which that core exceeds; or the worker's mask was
/// built and handed to the host, which accepted or refused it. Which of the
/// two it is, is decided by the room of a mask alone.
pub open spec fn spec_pinned_to_plan(
    total_cores: int,
    workers: int,
    worker_id: int,
    pinned: Result<(), AffinityError>,
) -> bool {
    &&& match pinned {
        Err(AffinityError::CoreOutOfRange { core, limit }) => {
            &&& spec_is_mask_room(limit as int)
            &&& spec_first_out_of_range(
                spec_affinity_plan(total_cores, workers, worker_id),
                core as int,
                limit as int,
            )
        },
        _ => exists|set: CpuSet| #[trigger]
            spec_is_affinity_mask(set, total_cores, workers, worker_id),
    }
    &&& exists|room: CpuSet| #[trigger]
        spec_pinned_for(room, spec_affinity_plan(total_cores, workers, worker_id), pinned)
}

/// What the host's answer to a mask means for the worker: it is pinned, or
/// the mask was refused.
pub open spec fn spec_host_answer(bound: Result<(), Errno>) -> Result<(), AffinityError> {
    if bound is Ok {
        Ok(())
    } else {
        Err(AffinityError::Refused)
    }
}

/// Turns the host's answer to a mask into the result of pinning.
pub fn host_answer(bound: Result<(), Errno>) -> (pinned: Result<(), AffinityError>)
    ensures
        pinned == spec_host_answer(bound),
{
    match bound {
        Ok(()) => Ok(()),
        Err(_) => Err(AffinityError::Refused),
    }
}

/// Restricts the calling thread to the cores planned for worker `worker_id`
/// of `workers`, on a host with `total_cores` cores.
///
/// The plan and the mask are fixed by the arguments: a plan that does not
/// fit a mask is reported before the host is asked, and otherwise the host
/// is handed the mask that holds exactly the worker's affinity set. Whether
/// the host accepts that mask is not fixed by the arguments, so `Refused`
/// may come for any plan that fits.
pub fn pin_to_plan(total_cores: usize, workers: usize, worker_id: usize) -> (pinned: Result<
    (),
    AffinityError,
>)
    requires
        workers > 0,
        worker_id < workers,
    ensures
        spec_pinned_to_plan(total_cores as int, workers as int, worker_id as int, pinned),
{
    let mask = affinity_mask(total_cores, workers, worker_id);
    let ghost plan = spec_affinity_plan(total_cores as int, workers as int, worker_id as int);
    let ghost room = choose|room: CpuSet| spec_mask_for(room, plan, mask);
    match mask {
        Ok(set) => {
            let pinned = host_answer(bind_calling_thread(&set));
            proof {
                assert(spec_is_affinity_mask(
                    set,
                    total_cores as int,
                    workers as int,
                    worker_id as int,
                ));
                assert(spec_pinned_for(room, plan, pinned));
            }
            pinned
        },
        Err(e) => {
            proof {
                assert(spec_pinned_for(room, plan, Err(e)));
            }
            Err(e)
        },
    }
}

/// What pinning a worker comes to on a host whose core count is detected:
/// what pinning to the plan comes to for some count of at least one core.
/// A core that is reported out of range is then below the worker count.
pub open spec fn spec_pinned(workers: int, worker_id: int, pinned: Result<(), AffinityError>) -> bool {
    &&& exists|total_cores: int|
        total_cores >= 1 && #[trigger] spec_pinned_to_plan(
            total_cores,
            workers,
            worker_id,
            pinned,
        )
    &&& pinned matches Err(AffinityError::CoreOutOfRange { core, limit }) ==> limit <= core
        < workers && spec_is_mask_room(limit as int)
}

/// Detects the host's core count and restricts the calling thread to the
/// cores planned for worker `worker_id` of `workers`.
pub fn pin_worker(workers: usize, worker_id: usize) -> (pinned: Result<(), AffinityError>)
    requires
        workers > 0,
        worker_id < workers,
    ensures
        spec_pinned(workers as int, worker_id as int, pinned),
{
    let total_cores: usize = host_cores();
    let pinned = pin_to_plan(total_cores, workers, worker_id);
    proof {
        assert(spec_pinned_to_plan(total_cores as int, workers as int, worker_id as int, pinned));
        if let Err(AffinityError::CoreOutOfRange { core, limit }) = pinned {
            let plan = spec_affinity_plan(total_cores as int, workers as int, worker_id as int);
            let k = choose|k: int|
                {
                    &&& 0 <= k < plan.len()
                    &&& #[trigger] plan[k] == core
                    &&& core >= limit
                    &&& forall|j: int| 0 <= j < k ==> #[trigger] plan[j] < limit
                };
            assert(plan[k] == spec_core_at(total_cores as int, workers as int, worker_id as int, k));
        }
    }
    pinned
}

} // verus!
