use std::time::Duration;

use governor::future::after_check;
use governor::{
    Action, InsufficientCapacity, Nanos, NonZeroU32, NotUntil, Quota, RateLimiter,
    RateLimitingMiddleware, StateInformationMiddleware, StateSnapshot, Wait,
};

const SECOND: u64 = 1_000_000_000;

fn nonzero(n: u32) -> NonZeroU32 {
    NonZeroU32::new(n).unwrap()
}

fn exhausted(burst: u32) -> RateLimiter<Nanos> {
    let quota = Quota::per_second(nonzero(1)).allow_burst(nonzero(burst));
    let mut lim = RateLimiter::direct(quota, Nanos::new(0));
    lim.check_n(Nanos::new(0), nonzero(burst)).unwrap().unwrap();
    lim
}

#[test]
fn wait_resolves_immediately_when_allowed() {
    let quota = Quota::per_second(nonzero(1));
    let mut plain = RateLimiter::direct(quota, Nanos::new(0));
    assert_eq!(
        plain.until_ready(&mut Wait::Asking, Nanos::new(0)),
        Action::Resolve(())
    );
    let mut lim = RateLimiter::direct(quota, Nanos::new(0))
        .with_middleware::<StateInformationMiddleware>();
    let mut wait = Wait::Asking;
    match lim.until_ready(&mut wait, Nanos::new(0)) {
        Action::Resolve(snapshot) => {
            assert_eq!(snapshot.remaining_burst_capacity(), 0);
            assert_eq!(snapshot.quota(), quota);
        }
        other => panic!("expected the wait to resolve: {:?}", other),
    }
    assert_eq!(wait, Wait::Asking);
}

#[test]
fn wait_sleeps_for_the_time_left_at_the_second_reading() {
    let mut lim = exhausted(1);
    let mut wait = Wait::Asking;
    assert_eq!(lim.until_ready(&mut wait, Nanos::new(0)), Action::ReadClock);
    assert_eq!(
        lim.until_ready(&mut wait, Nanos::new(SECOND / 4)),
        Action::Sleep(Duration::from_millis(750))
    );
    assert!(matches!(
        lim.until_ready(&mut wait, Nanos::new(SECOND)),
        Action::Resolve(_)
    ));
}

#[test]
fn wait_does_not_sleep_once_the_time_has_come() {
    let mut lim = exhausted(1);
    let mut wait = Wait::Asking;
    assert_eq!(lim.until_ready(&mut wait, Nanos::new(0)), Action::ReadClock);
    assert_eq!(
        lim.until_ready(&mut wait, Nanos::new(5 * SECOND)),
        Action::Sleep(Duration::ZERO)
    );
}

#[test]
fn jitter_prolongs_the_sleep() {
    let mut lim = exhausted(1);
    let mut wait = Wait::Asking;
    let jitter = Nanos::new(SECOND / 2);
    assert_eq!(
        lim.until_ready_with_jitter(&mut wait, Nanos::new(0), jitter),
        Action::ReadClock
    );
    assert_eq!(
        lim.until_ready_with_jitter(&mut wait, Nanos::new(0), jitter),
        Action::Sleep(Duration::from_millis(1500))
    );
    assert!(matches!(
        lim.until_ready_with_jitter(&mut wait, Nanos::new(3 * SECOND / 2), jitter),
        Action::Resolve(_)
    ));
}

#[test]
fn longest_jitter_and_longest_wait_add_up() {
    let quota = Quota::per_second(nonzero(1));
    let start = Nanos::new(u64::MAX - 2 * SECOND);
    let mut lim = RateLimiter::direct(quota, start);
    lim.check(start).unwrap();
    let mut wait = Wait::Asking;
    assert_eq!(lim.until_ready(&mut wait, start), Action::ReadClock);
    let longest = Duration::from_nanos(u64::MAX);
    assert_eq!(
        lim.until_ready_with_jitter(&mut wait, Nanos::new(0), Nanos::new(u64::MAX)),
        Action::Sleep(longest + longest - Duration::from_secs(1))
    );
}

#[test]
fn batch_wait_sleeps_until_all_cells_conform() {
    let mut lim = exhausted(4);
    let mut wait = Wait::Asking;
    let n = nonzero(3);
    assert_eq!(
        lim.until_n_ready(&mut wait, Nanos::new(0), n),
        Ok(Action::ReadClock)
    );
    assert_eq!(
        lim.until_n_ready(&mut wait, Nanos::new(0), n),
        Ok(Action::Sleep(Duration::from_secs(3)))
    );
    assert!(matches!(
        lim.until_n_ready(&mut wait, Nanos::new(3 * SECOND), n),
        Ok(Action::Resolve(_))
    ));
}

#[test]
fn batch_wait_with_jitter_adds_it_to_the_sleep() {
    let mut lim = exhausted(2);
    let mut wait = Wait::Asking;
    let n = nonzero(2);
    let jitter = Nanos::new(7);
    assert_eq!(
        lim.until_n_ready_with_jitter(&mut wait, Nanos::new(0), n, jitter),
        Ok(Action::ReadClock)
    );
    assert_eq!(
        lim.until_n_ready_with_jitter(&mut wait, Nanos::new(0), n, jitter),
        Ok(Action::Sleep(Duration::from_nanos(2 * SECOND + 7)))
    );
}

#[test]
fn batch_wait_fails_at_once_beyond_the_burst_size() {
    let mut lim = exhausted(4);
    let n = nonzero(5);
    let mut wait = Wait::Asking;
    let error = Err(InsufficientCapacity(4));
    assert_eq!(lim.until_n_ready(&mut wait, Nanos::new(0), n), error);
    assert_eq!(
        lim.until_n_ready_with_jitter(&mut wait, Nanos::new(0), n, Nanos::new(9)),
        error
    );
    assert_eq!(wait, Wait::Asking);
    let mut wait = Wait::Asking;
    assert_eq!(
        lim.until_n_ready_with_decision(&mut wait, Nanos::new(0), n),
        Err(InsufficientCapacity(4))
    );
    assert_eq!(wait, Wait::Asking);
}

#[test]
fn structured_wait_goes_like_a_plain_one() {
    let mut plain_lim = exhausted(1).with_middleware::<StateInformationMiddleware>();
    let mut structured_lim = exhausted(1);
    let mut plain_wait = Wait::Asking;
    let mut structured_wait = Wait::Asking;
    for reading in [0, SECOND / 2, SECOND] {
        let now = Nanos::new(reading);
        let plain = plain_lim.until_ready(&mut plain_wait, now);
        let structured = structured_lim.until_ready_with_decision(&mut structured_wait, now);
        match (plain, structured) {
            (Action::ReadClock, Action::ReadClock) => assert_eq!(reading, 0),
            (Action::Sleep(left), Action::Sleep(right)) => {
                assert_eq!(left, Duration::from_millis(500));
                assert_eq!(left, right);
            }
            (Action::Resolve(snapshot), Action::Resolve(decision)) => {
                assert_eq!(reading, SECOND);
                assert!(decision.is_allowed());
                assert_eq!(decision.time_of_decision(), now);
                assert_eq!(
                    decision.remaining_burst_capacity(),
                    Some(snapshot.remaining_burst_capacity())
                );
            }
            (plain, structured) => panic!("{:?} differs from {:?}", plain, structured),
        }
    }
}

/// A middleware of its own: a positive outcome tells how many cells are left of how many.
struct Gauge;

impl RateLimitingMiddleware<Nanos> for Gauge {
    type PositiveOutcome = (u32, u32);
    type NegativeOutcome = NotUntil<Nanos>;

    fn may_allow(_: Quota, _: vstd::prelude::nat, _: (u32, u32)) -> bool {
        true
    }

    fn may_disallow(_: Quota, _: Nanos, _: NotUntil<Nanos>) -> bool {
        true
    }

    fn allow(snapshot: StateSnapshot) -> (u32, u32) {
        (
            snapshot.remaining_burst_capacity(),
            snapshot.quota().burst_size().get(),
        )
    }

    fn disallow(negative: NotUntil<Nanos>) -> NotUntil<Nanos> {
        negative
    }
}

#[test]
fn wait_resolves_with_what_the_middleware_returns() {
    let quota = Quota::per_second(nonzero(1)).allow_burst(nonzero(3));
    let mut lim = RateLimiter::direct(quota, Nanos::new(0)).with_middleware::<Gauge>();
    let now = Nanos::new(0);
    assert_eq!(lim.check(now), Ok((2, 3)));
    assert_eq!(
        lim.until_ready(&mut Wait::Asking, now),
        Action::Resolve((1, 3))
    );
    let mut wait = Wait::Asking;
    let n = nonzero(2);
    assert_eq!(lim.until_n_ready(&mut wait, now, n), Ok(Action::ReadClock));
    assert_eq!(
        lim.until_n_ready(&mut wait, now, n),
        Ok(Action::Sleep(Duration::from_secs(1)))
    );
    assert_eq!(
        lim.until_n_ready(&mut wait, Nanos::new(SECOND), n),
        Ok(Action::Resolve((0, 3)))
    );
}

#[test]
fn outcomes_are_passed_on_as_they_are() {
    let mut wait: Wait<&str> = Wait::Asking;
    assert_eq!(after_check(&mut wait, Ok("in")), Action::Resolve("in"));
    assert_eq!(wait, Wait::Asking);
    let action: Action<&str> = after_check(&mut wait, Err("out"));
    assert_eq!(action, Action::ReadClock);
    assert_eq!(wait, Wait::Refused("out"));
}
