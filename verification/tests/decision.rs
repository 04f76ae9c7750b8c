use std::time::Duration;

use governor::{
    Action, Decision, InsufficientCapacity, KeyedRateLimiter, Nanos, NonZeroU32, Quota, RateLimiter,
    StateInformationMiddleware, Wait,
};

/// A clock that can be advanced, stalled and rewound at will.
struct FakeClock {
    now: u64,
}

impl FakeClock {
    fn at(nanos: u64) -> FakeClock {
        FakeClock { now: nanos }
    }

    fn now(&self) -> Nanos {
        Nanos::from(self.now)
    }

    fn advance(&mut self, by: Duration) {
        self.now += by.as_nanos() as u64;
    }

    fn set(&mut self, nanos: u64) {
        self.now = nanos;
    }
}

fn nonzero(n: u32) -> NonZeroU32 {
    NonZeroU32::new(n).unwrap()
}

#[test]
fn direct_decision_allowed_fields() {
    let mut clock = FakeClock::at(0);
    let quota = Quota::per_second(nonzero(2u32)).allow_burst(nonzero(4u32));
    let mut lim = RateLimiter::direct(quota, clock.now());

    let decision = lim.check_with_decision(clock.now());
    assert!(decision.is_allowed());
    assert_eq!(decision.cells(), nonzero(1u32));
    assert_eq!(decision.quota(), quota);
    assert_eq!(decision.remaining_burst_capacity(), Some(3));
    assert_eq!(decision.retry_at(), None);
    assert_eq!(decision.time_of_decision(), clock.now());
    assert_eq!(decision.wait_time_from(clock.now()), Duration::from_nanos(0));

    clock.advance(Duration::from_millis(1));
    let decision = lim.check_with_decision(clock.now());
    assert!(decision.is_allowed());
    assert_eq!(decision.remaining_burst_capacity(), Some(2));
    assert_eq!(decision.time_of_decision(), clock.now());
}

#[test]
fn direct_decision_denied_fields_and_no_capacity_consumed() {
    let mut clock = FakeClock::at(0);
    let quota = Quota::per_second(nonzero(1u32));
    let mut lim = RateLimiter::direct(quota, clock.now());

    assert!(lim.check_with_decision(clock.now()).is_allowed());

    let now = clock.now();
    let decision = lim.check_with_decision(now);
    assert!(!decision.is_allowed());
    assert_eq!(decision.cells(), nonzero(1u32));
    assert_eq!(decision.quota(), quota);
    assert_eq!(decision.remaining_burst_capacity(), None);
    assert_eq!(decision.time_of_decision(), now);
    assert_eq!(
        decision.retry_at(),
        Some(Nanos::from(now.as_u64() + 1_000_000_000u64))
    );
    assert_eq!(decision.wait_time_from(now), Duration::from_secs(1));

    // A denied decision must not consume capacity: exactly one cell is
    // available at the advertised retry time, not fewer and not more.
    clock.advance(Duration::from_secs(1));
    assert!(lim.check_with_decision(clock.now()).is_allowed());
    assert!(!lim.check_with_decision(clock.now()).is_allowed());
}

#[test]
fn direct_decision_batch() {
    let clock = FakeClock::at(0);
    let quota = Quota::per_second(nonzero(1u32)).allow_burst(nonzero(4u32));
    let mut lim = RateLimiter::direct(quota, clock.now());

    let decision = lim.check_n_with_decision(clock.now(), nonzero(3u32)).unwrap();
    assert!(decision.is_allowed());
    assert_eq!(decision.cells(), nonzero(3u32));
    assert_eq!(decision.quota(), quota);
    assert_eq!(decision.remaining_burst_capacity(), Some(1));
    assert_eq!(decision.time_of_decision(), clock.now());

    // Only one cell of burst capacity remains, so a batch of two is denied:
    let decision = lim.check_n_with_decision(clock.now(), nonzero(2u32)).unwrap();
    assert!(!decision.is_allowed());
    assert_eq!(decision.cells(), nonzero(2u32));
    assert!(decision.retry_at().is_some());

    // A batch larger than the burst size can never conform; the error
    // boundary is identical to check_n's:
    assert_eq!(
        lim.check_n_with_decision(clock.now(), nonzero(5u32)),
        Err(InsufficientCapacity(4))
    );
    assert_eq!(
        lim.check_n(clock.now(), nonzero(5u32)),
        Err(InsufficientCapacity(4))
    );

    // The failed batches above consumed nothing:
    let decision = lim.check_n_with_decision(clock.now(), nonzero(1u32)).unwrap();
    assert!(decision.is_allowed());
    assert_eq!(decision.remaining_burst_capacity(), Some(0));
}

#[test]
fn keyed_decision_per_key() {
    let clock = FakeClock::at(0);
    let quota = Quota::per_second(nonzero(1u32)).allow_burst(nonzero(2u32));
    let mut lim = KeyedRateLimiter::keyed(quota, clock.now());

    let decision = lim.check_key_with_decision("one", clock.now());
    assert!(decision.is_allowed());
    assert_eq!(decision.remaining_burst_capacity(), Some(1));
    assert_eq!(decision.quota(), quota);

    // Keys have independent states:
    let decision = lim.check_key_with_decision("two", clock.now());
    assert!(decision.is_allowed());
    assert_eq!(decision.remaining_burst_capacity(), Some(1));

    let decision = lim
        .check_key_n_with_decision("one", clock.now(), nonzero(2u32))
        .unwrap();
    assert!(!decision.is_allowed());
    assert_eq!(decision.cells(), nonzero(2u32));
    let retry_at = decision.retry_at().unwrap();
    assert!(retry_at > clock.now());

    // ...while "two" still has capacity left:
    let decision = lim.check_key_with_decision("two", clock.now());
    assert!(decision.is_allowed());
    assert_eq!(decision.remaining_burst_capacity(), Some(0));
}

#[test]
fn decision_remains_self_consistent_when_clock_rewinds() {
    let mut clock = FakeClock::at(0);
    clock.set(1_000_000_000); // start the limiter at t=1s
    let quota = Quota::per_second(nonzero(1u32));
    let mut lim = RateLimiter::direct(quota, clock.now());

    assert!(lim.check_with_decision(clock.now()).is_allowed());

    // The clock jumps backwards by 500ms; the decision's timestamps and
    // wait times must still agree with each other:
    clock.set(500_000_000);
    let decision = lim.check_with_decision(clock.now());
    assert!(!decision.is_allowed());
    assert_eq!(decision.time_of_decision(), Nanos::from(500_000_000u64));
    let retry_at = decision.retry_at().unwrap();
    assert_eq!(retry_at, Nanos::from(2_000_000_000u64));
    assert_eq!(
        decision.wait_time_from(clock.now()),
        Duration::from_millis(1500)
    );

    // A stalled clock keeps reporting the same, consistent wait:
    let stalled = lim.check_with_decision(clock.now());
    assert_eq!(stalled.retry_at(), Some(retry_at));
    assert_eq!(
        stalled.wait_time_from(clock.now()),
        Duration::from_millis(1500)
    );

    // Once the clock reaches the advertised retry time, the cell conforms:
    clock.set(2_000_000_000);
    assert!(lim.check_with_decision(clock.now()).is_allowed());
}

#[test]
fn decisions_match_legacy_check_api() {
    let quota = Quota::per_second(nonzero(2u32)).allow_burst(nonzero(3u32));
    let mut clock_old = FakeClock::at(0);
    let mut clock_new = FakeClock::at(0);
    let mut old = RateLimiter::direct(quota, clock_old.now())
        .with_middleware::<StateInformationMiddleware>();
    let mut new = RateLimiter::direct(quota, clock_new.now());

    // A pseudo-random but deterministic sequence of clock advances (ms):
    let steps = [0u64, 100, 100, 700, 100, 2000, 0, 300, 0, 0, 1500];
    for step in steps {
        clock_old.advance(Duration::from_millis(step));
        clock_new.advance(Duration::from_millis(step));

        let legacy = old.check(clock_old.now());
        let decision = new.check_with_decision(clock_new.now());

        // The allow/deny sequence is identical:
        assert_eq!(legacy.is_ok(), decision.is_allowed());
        assert_eq!(decision.time_of_decision(), clock_new.now());
        assert_eq!(decision.cells(), nonzero(1u32));
        match legacy {
            Ok(snapshot) => {
                // The structured fields are a snapshot of the same transition:
                assert_eq!(
                    decision.remaining_burst_capacity(),
                    Some(snapshot.remaining_burst_capacity())
                );
                assert_eq!(decision.quota(), snapshot.quota());
            }
            Err(not_until) => {
                assert_eq!(decision.retry_at(), Some(not_until.earliest_possible()));
                assert_eq!(
                    decision.wait_time_from(clock_new.now()),
                    not_until.wait_time_from(clock_old.now())
                );
                assert_eq!(decision.quota(), not_until.quota());
            }
        }
    }
}

#[test]
fn batch_decisions_match_legacy_check_n_api() {
    let quota = Quota::per_second(nonzero(1u32)).allow_burst(nonzero(3u32));
    let mut clock_old = FakeClock::at(0);
    let mut clock_new = FakeClock::at(0);
    let mut old = RateLimiter::direct(quota, clock_old.now())
        .with_middleware::<StateInformationMiddleware>();
    let mut new = RateLimiter::direct(quota, clock_new.now());

    let attempts: Vec<(u64, NonZeroU32)> = vec![
        (0, nonzero(2u32)),
        (0, nonzero(2u32)),
        (1000, nonzero(3u32)),
        (0, nonzero(4u32)), // exceeds burst size: InsufficientCapacity
        (3000, nonzero(1u32)),
    ];
    for (advance_ms, n) in attempts {
        clock_old.advance(Duration::from_millis(advance_ms));
        clock_new.advance(Duration::from_millis(advance_ms));

        let legacy = old.check_n(clock_old.now(), n);
        let decision = new.check_n_with_decision(clock_new.now(), n);

        match (legacy, decision) {
            (Ok(legacy), Ok(decision)) => {
                assert_eq!(legacy.is_ok(), decision.is_allowed());
                assert_eq!(decision.cells(), n);
                match legacy {
                    Ok(snapshot) => {
                        assert_eq!(
                            decision.remaining_burst_capacity(),
                            Some(snapshot.remaining_burst_capacity())
                        );
                        assert_eq!(decision.quota(), snapshot.quota());
                    }
                    Err(not_until) => {
                        assert_eq!(decision.retry_at(), Some(not_until.earliest_possible()));
                        assert_eq!(decision.quota(), not_until.quota());
                    }
                }
            }
            (Err(capacity), Err(decision_capacity)) => {
                assert_eq!(capacity, decision_capacity);
            }
            (legacy, decision) => panic!(
                "legacy and decision APIs disagree: {:?} vs {:?}",
                legacy, decision
            ),
        }
    }
}

/// Performs a wait on a clock that passes only while the task sleeps.
fn block_on<F>(clock: &mut FakeClock, mut step: F) -> Result<Decision<Nanos>, InsufficientCapacity>
where
    F: FnMut(&mut Wait<Decision<Nanos>>, Nanos) -> Result<Action<Decision<Nanos>>, InsufficientCapacity>,
{
    let mut wait = Wait::Asking;
    loop {
        match step(&mut wait, clock.now())? {
            Action::ReadClock => {}
            Action::Sleep(delay) => clock.advance(delay),
            Action::Resolve(decision) => return Ok(decision),
        }
    }
}

#[test]
fn until_ready_with_decision_waits_and_returns_decision() {
    let mut clock = FakeClock::at(0);
    let quota = Quota::per_second(nonzero(10u32));
    let mut lim = RateLimiter::direct(quota, clock.now());

    // exhaust the limiter:
    loop {
        if lim.check(clock.now()).is_err() {
            break;
        }
    }
    let decision = block_on(&mut clock, |wait, now| {
        Ok(lim.until_ready_with_decision(wait, now))
    })
    .unwrap();
    assert!(decision.is_allowed());
    assert_eq!(decision.cells(), nonzero(1u32));
    assert_eq!(decision.quota(), quota);
    assert_eq!(decision.remaining_burst_capacity(), Some(0));

    // The task has slept until the first cell was replenished:
    assert_eq!(clock.now(), Nanos::from(100_000_000u64));
}

#[test]
fn until_n_ready_with_decision_waits_and_returns_decision() {
    let mut clock = FakeClock::at(0);
    let quota = Quota::per_second(nonzero(10u32));
    let mut lim = RateLimiter::direct(quota, clock.now());

    for _ in 0..6 {
        lim.check(clock.now()).unwrap();
    }
    let decision = block_on(&mut clock, |wait, now| {
        lim.until_n_ready_with_decision(wait, now, nonzero(5u32))
    })
    .unwrap();
    assert!(decision.is_allowed());
    assert_eq!(decision.cells(), nonzero(5u32));
    assert_eq!(decision.quota(), quota);

    // Batches exceeding the burst size fail exactly like check_n:
    assert_eq!(
        block_on(&mut clock, |wait, now| {
            lim.until_n_ready_with_decision(wait, now, nonzero(11u32))
        }),
        Err(InsufficientCapacity(10))
    );
}

#[test]
fn until_key_ready_with_decision_waits_and_returns_decision() {
    let mut clock = FakeClock::at(0);
    let quota = Quota::per_second(nonzero(10u32));
    let mut lim = KeyedRateLimiter::keyed(quota, clock.now());

    // exhaust the limiter:
    loop {
        if lim.check_key(1u32, clock.now()).is_err() {
            break;
        }
    }
    let decision = block_on(&mut clock, |wait, now| {
        Ok(lim.until_key_ready_with_decision(wait, 1u32, now))
    })
    .unwrap();
    assert!(decision.is_allowed());
    assert_eq!(decision.cells(), nonzero(1u32));
    assert_eq!(decision.quota(), quota);

    let decision = block_on(&mut clock, |wait, now| {
        lim.until_key_n_ready_with_decision(wait, 2u32, now, nonzero(3u32))
    })
    .unwrap();
    assert!(decision.is_allowed());
    assert_eq!(decision.cells(), nonzero(3u32));
}

#[test]
fn insufficient_capacity_impl_coverage() {
    let i = InsufficientCapacity(1);
    assert_eq!(i.0, i.0);
    assert!(i.to_string().len() > 0);
}
