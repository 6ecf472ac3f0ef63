use encode_broker::affinity::{
    affinity_mask, affinity_plan, build_cpu_set, cores_per_worker, host_answer, pin_to_plan,
    pin_worker, AffinityError,
};

#[test]
fn cores_per_worker_rounds_up() {
    assert_eq!(cores_per_worker(16, 8), 2);
    assert_eq!(cores_per_worker(16, 12), 2);
    assert_eq!(cores_per_worker(8, 8), 1);
    assert_eq!(cores_per_worker(8, 16), 1);
    assert_eq!(cores_per_worker(7, 2), 4);
    assert_eq!(cores_per_worker(1, 1), 1);
    assert_eq!(cores_per_worker(0, 3), 0);
    assert_eq!(cores_per_worker(usize::MAX, 1), usize::MAX);
    assert_eq!(cores_per_worker(usize::MAX, 2), usize::MAX / 2 + 1);
}

#[test]
fn sixteen_cores_eight_workers() {
    assert_eq!(affinity_plan(16, 8, 0), vec![0, 1]);
    assert_eq!(affinity_plan(16, 8, 1), vec![2, 3]);
    assert_eq!(affinity_plan(16, 8, 3), vec![6, 7]);
    assert_eq!(affinity_plan(16, 8, 4), vec![0, 1]);
    assert_eq!(affinity_plan(16, 8, 7), vec![6, 7]);
}

#[test]
fn eight_cores_eight_workers() {
    for worker in 0..8usize {
        assert_eq!(affinity_plan(8, 8, worker), vec![worker]);
    }
}

#[test]
fn window_wraps_by_worker_count() {
    // Twelve workers on sixteen cores: windows of two, wrapped by twelve.
    assert_eq!(affinity_plan(16, 12, 5), vec![10, 11]);
    assert_eq!(affinity_plan(16, 12, 6), vec![0, 1]);
    assert_eq!(affinity_plan(16, 12, 11), vec![10, 11]);
    // Sixteen workers on eight cores: the wrap is by sixteen, not by eight.
    assert_eq!(affinity_plan(8, 16, 9), vec![9]);
    assert_eq!(affinity_plan(8, 16, 15), vec![15]);
}

#[test]
fn single_worker_gets_core_zero_only() {
    assert_eq!(affinity_plan(4, 1, 0), vec![0, 0, 0, 0]);
}

#[test]
fn no_cores_gives_empty_plan() {
    assert_eq!(affinity_plan(0, 4, 2), Vec::<usize>::new());
}

#[test]
fn plan_is_deterministic() {
    for workers in 1..20usize {
        for worker in 0..workers {
            let first = affinity_plan(24, workers, worker);
            let second = affinity_plan(24, workers, worker);
            assert_eq!(first, second);
            assert_eq!(first.len(), cores_per_worker(24, workers));
            assert!(first.iter().all(|core| *core < workers));
        }
    }
}

#[test]
fn plan_survives_large_products() {
    let plan = affinity_plan(usize::MAX, usize::MAX, usize::MAX - 1);
    assert_eq!(plan, vec![usize::MAX - 1]);
}

#[test]
fn cpu_set_holds_exactly_the_cores() {
    let set = build_cpu_set(&vec![6, 7, 6]).unwrap();
    for core in 0..64usize {
        assert_eq!(set.is_set(core).unwrap(), core == 6 || core == 7);
    }
}

#[test]
fn empty_cpu_set() {
    let set = build_cpu_set(&Vec::new()).unwrap();
    for core in 0..64usize {
        assert!(!set.is_set(core).unwrap());
    }
}

#[test]
fn cpu_set_rejects_core_beyond_limit() {
    let limit = nix::sched::CpuSet::count();
    assert!(build_cpu_set(&vec![0, limit - 1]).is_ok());
    match build_cpu_set(&vec![3, limit + 5, limit]) {
        Err(error) => assert_eq!(
            error,
            AffinityError::CoreOutOfRange { core: limit + 5, limit }
        ),
        Ok(_) => panic!("a core beyond the limit was accepted"),
    }
}

#[test]
fn pinning_never_reports_a_core_in_range() {
    // Whether the host accepts the mask is its own business.
    match pin_to_plan(1, 1, 0) {
        Ok(()) | Err(AffinityError::Refused) => {}
        Err(other) => panic!("unexpected {:?}", other),
    }
    match pin_worker(1, 0) {
        Ok(()) | Err(AffinityError::Refused) => {}
        Err(other) => panic!("unexpected {:?}", other),
    }
}

#[test]
fn pinning_reports_first_core_out_of_range() {
    let limit = nix::sched::CpuSet::count();
    // One worker short of the last: its only core is its own index.
    let workers = limit + 10;
    assert_eq!(
        pin_to_plan(limit, workers, limit + 3),
        Err(AffinityError::CoreOutOfRange { core: limit + 3, limit })
    );
}

#[test]
fn mask_holds_the_affinity_set() {
    let mask = affinity_mask(16, 8, 7).unwrap();
    for core in 0..32usize {
        assert_eq!(mask.is_set(core).unwrap(), core == 6 || core == 7);
    }
    let shared = affinity_mask(4, 1, 0).unwrap();
    for core in 0..32usize {
        assert_eq!(shared.is_set(core).unwrap(), core == 0);
    }
}

#[test]
fn mask_reports_first_core_out_of_range() {
    let limit = nix::sched::CpuSet::count();
    // Windows of two: the window of worker `limit / 2` starts at `limit`.
    assert_eq!(limit % 2, 0);
    match affinity_mask(2 * (limit + 2), limit + 2, limit / 2) {
        Err(error) => assert_eq!(error, AffinityError::CoreOutOfRange { core: limit, limit }),
        Ok(_) => panic!("a core beyond the limit was accepted"),
    }
}

#[test]
fn host_refuses_a_core_it_does_not_have() {
    // Worker 1000 of 1001 is planned onto core 1000 alone, which fits the
    // mask but is not a core of any host this runs on.
    assert_eq!(affinity_plan(1001, 1001, 1000), vec![1000]);
    assert_eq!(pin_to_plan(1001, 1001, 1000), Err(AffinityError::Refused));
}

#[test]
fn host_answer_is_pinned_or_refused() {
    assert_eq!(host_answer(Ok(())), Ok(()));
    assert_eq!(host_answer(Err(nix::errno::Errno::EINVAL)), Err(AffinityError::Refused));
    assert_eq!(host_answer(Err(nix::errno::Errno::EPERM)), Err(AffinityError::Refused));
}
