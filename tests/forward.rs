use reflector::forward::{Forwarder, Step};
use reflector::layout::{PoolLayout, PAGE_SIZE};
use reflector::pool::{BufHandle, ReleaseError, SlotPool};

fn pool_with(n: u32) -> SlotPool {
    SlotPool::new(PoolLayout::plan(n, 1518, PAGE_SIZE).unwrap())
}

fn take(p: &mut SlotPool, k: usize) -> Vec<BufHandle> {
    (0..k).map(|_| p.acquire().unwrap()).collect()
}

#[test]
fn full_acceptance() {
    let mut p = pool_with(64);
    let mut f = Forwarder::new(4);
    let burst = take(&mut p, 4);
    let before = p.available();
    let v = match f.on_received(burst.clone()) {
        Step::Submit(v) => v,
        Step::Idle => panic!("a non-empty burst is submitted"),
    };
    assert_eq!(v, burst);
    let released = f.settle_to_pool(&mut p, v, 4);
    assert_eq!(released, 0);
    assert_eq!(f.total_forwarded(), 4);
    assert_eq!(f.total_dropped(), 0);
    assert_eq!(p.available(), before);
}

#[test]
fn partial_acceptance() {
    let mut p = pool_with(64);
    let mut f = Forwarder::new(32);
    let burst = take(&mut p, 32);
    let before = p.available();
    let released = f.settle_to_pool(&mut p, burst.clone(), 10);
    assert_eq!(released, 22);
    assert_eq!(f.total_forwarded(), 10);
    assert_eq!(f.total_dropped(), 22);
    assert_eq!(p.available(), before + 22);
    for h in &burst[10..] {
        assert_eq!(p.release(*h), Err(ReleaseError::NotCheckedOut));
    }
    for h in &burst[..10] {
        assert_eq!(p.release(*h), Ok(()));
    }
}

#[test]
fn rejected_keep_their_order() {
    let mut f = Forwarder::new(8);
    let rejected = f.settle(vec![10u32, 11, 12, 13, 14, 15], 2);
    assert_eq!(rejected, vec![12, 13, 14, 15]);
    assert_eq!(f.total_forwarded(), 2);
    assert_eq!(f.total_dropped(), 4);
}

#[test]
fn submission_keeps_arrival_order() {
    let f = Forwarder::new(4);
    match f.on_received(vec![7u32, 3, 9, 1]) {
        Step::Submit(v) => assert_eq!(v, vec![7, 3, 9, 1]),
        Step::Idle => panic!("a non-empty burst is submitted"),
    }
}

#[test]
fn zero_burst_is_a_no_op() {
    let mut p = pool_with(8);
    let mut f = Forwarder::new(4);
    let first = take(&mut p, 3);
    let _ = f.settle_to_pool(&mut p, first, 1);
    let (fw, dr, avail) = (f.total_forwarded(), f.total_dropped(), p.available());
    assert!(matches!(f.on_received(Vec::<BufHandle>::new()), Step::Idle));
    assert_eq!(f.total_forwarded(), fw);
    assert_eq!(f.total_dropped(), dr);
    assert_eq!(p.available(), avail);
    let released = f.settle_to_pool(&mut p, Vec::new(), 0);
    assert_eq!(released, 0);
    assert_eq!((f.total_forwarded(), f.total_dropped(), p.available()), (fw, dr, avail));
}

#[test]
fn counters_never_decrease() {
    let mut f = Forwarder::new(32);
    let mut last = (0u64, 0u64);
    for (r, t) in [(4usize, 4usize), (0, 0), (32, 10), (5, 0), (1, 1), (32, 32)] {
        let burst: Vec<u32> = (0..r as u32).collect();
        let rejected = f.settle(burst, t);
        assert_eq!(rejected.len(), r - t);
        let now = (f.total_forwarded(), f.total_dropped());
        assert!(now.0 >= last.0 && now.1 >= last.1);
        assert_eq!(now.0 + now.1, last.0 + last.1 + r as u64);
        last = now;
    }
    assert_eq!(last, (47, 27));
}

#[test]
fn conservation_over_many_iterations() {
    let mut p = pool_with(16);
    let mut f = Forwarder::new(4);
    let mut in_egress: Vec<BufHandle> = Vec::new();
    for t in [0usize, 1, 2, 3, 4, 2] {
        let burst = take(&mut p, 4);
        let before = p.available();
        let released = f.settle_to_pool(&mut p, burst.clone(), t);
        assert_eq!(t + released, 4);
        assert_eq!(p.available(), before + released);
        in_egress.extend_from_slice(&burst[..t]);
        p.release_all(in_egress.drain(..).collect());
    }
    assert_eq!(p.available(), 16);
    assert_eq!(f.total_forwarded(), 12);
    assert_eq!(f.total_dropped(), 12);
    assert_eq!(f.max_burst(), 4);
}
