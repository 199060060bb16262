use raytracer::path::{Action, Event, Outcome, Path, MAX_BOUNCES, T_MAX, T_MIN};

/// Feeds `events` to a fresh path, one after the other.
fn run(events: &[Event]) -> Path {
    let mut path = Path::start();
    for event in events {
        path = path.advance(*event);
    }
    path
}

/// Lets a fresh path scatter `n` times.
fn bounce(n: u32) -> Path {
    let mut path = Path::start();
    for _ in 0..n {
        path = path.advance(Event::Hit);
        path = path.advance(Event::Scattered);
    }
    path
}

#[test]
fn fresh_path_asks_for_an_intersection() {
    let path = Path::start();
    assert_eq!(path.bounces(), 0);
    assert_eq!(path.pending(), Action::Intersect);
}

#[test]
fn bounce_budget_is_fifty() {
    assert_eq!(MAX_BOUNCES, 50);
}

#[test]
fn search_interval_runs_from_the_bias_to_the_greatest_finite_number() {
    assert_eq!(f32::from_bits(T_MIN), 0.001);
    assert_eq!(f32::from_bits(T_MAX), f32::MAX);
}

#[test]
fn miss_ends_the_path_as_escaped() {
    let path = run(&[Event::Miss]);
    assert_eq!(path.pending(), Action::Finish(Outcome::Escaped));
    assert_eq!(path.bounces(), 0);
}

#[test]
fn hit_asks_for_a_scattering() {
    let path = run(&[Event::Hit]);
    assert_eq!(path.pending(), Action::Scatter);
    assert_eq!(path.bounces(), 0);
}

#[test]
fn scattering_counts_a_bounce_and_asks_for_an_intersection() {
    let path = run(&[Event::Hit, Event::Scattered]);
    assert_eq!(path.pending(), Action::Intersect);
    assert_eq!(path.bounces(), 1);
}

#[test]
fn absorbing_surface_ends_the_path_black() {
    let path = run(&[Event::Hit, Event::Absorbed]);
    assert_eq!(path.pending(), Action::Finish(Outcome::Absorbed));
    assert_eq!(path.bounces(), 0);
    assert!(Outcome::Absorbed.is_black());
}

#[test]
fn absorption_after_some_bounces_ends_the_path_black() {
    let path = bounce(7).advance(Event::Hit).advance(Event::Absorbed);
    assert_eq!(path.pending(), Action::Finish(Outcome::Absorbed));
    assert_eq!(path.bounces(), 7);
}

#[test]
fn escape_after_some_bounces_keeps_the_count() {
    let path = bounce(3).advance(Event::Miss);
    assert_eq!(path.pending(), Action::Finish(Outcome::Escaped));
    assert_eq!(path.bounces(), 3);
}

#[test]
fn forty_nine_bounces_leave_one_more() {
    let path = bounce(49).advance(Event::Hit);
    assert_eq!(path.pending(), Action::Scatter);
    let path = path.advance(Event::Scattered);
    assert_eq!(path.bounces(), 50);
    assert_eq!(path.pending(), Action::Intersect);
}

#[test]
fn hit_after_fifty_bounces_exhausts_the_budget() {
    let path = bounce(50);
    assert_eq!(path.bounces(), 50);
    assert_eq!(path.pending(), Action::Intersect);
    let path = path.advance(Event::Hit);
    assert_eq!(path.pending(), Action::Finish(Outcome::Exhausted));
    assert_eq!(path.bounces(), 50);
    assert!(Outcome::Exhausted.is_black());
}

#[test]
fn miss_after_fifty_bounces_still_escapes() {
    let path = bounce(50).advance(Event::Miss);
    assert_eq!(path.pending(), Action::Finish(Outcome::Escaped));
    assert_eq!(path.bounces(), 50);
}

#[test]
fn only_an_escaped_path_carries_light() {
    assert!(!Outcome::Escaped.is_black());
    assert!(Outcome::Absorbed.is_black());
    assert!(Outcome::Exhausted.is_black());
}

#[test]
fn event_out_of_turn_changes_nothing() {
    for event in [Event::Scattered, Event::Absorbed] {
        let path = Path::start().advance(event);
        assert_eq!(path.pending(), Action::Intersect);
        assert_eq!(path.bounces(), 0);
    }
    for event in [Event::Miss, Event::Hit] {
        let path = Path::start().advance(Event::Hit).advance(event);
        assert_eq!(path.pending(), Action::Scatter);
        assert_eq!(path.bounces(), 0);
    }
}

#[test]
fn finished_path_stays_finished() {
    for outcome in [Outcome::Escaped, Outcome::Absorbed, Outcome::Exhausted] {
        for event in [Event::Miss, Event::Hit, Event::Scattered, Event::Absorbed] {
            let path = match outcome {
                Outcome::Escaped => run(&[Event::Miss]),
                Outcome::Absorbed => run(&[Event::Hit, Event::Absorbed]),
                Outcome::Exhausted => bounce(50).advance(Event::Hit),
            };
            let bounces = path.bounces();
            let path = path.advance(event);
            assert_eq!(path.pending(), Action::Finish(outcome));
            assert_eq!(path.bounces(), bounces);
        }
    }
}

#[test]
fn longest_path_takes_one_hundred_and_one_events() {
    let mut path = Path::start();
    let mut events = 0;
    loop {
        let event = match path.pending() {
            Action::Intersect => Event::Hit,
            Action::Scatter => Event::Scattered,
            Action::Finish(outcome) => {
                assert_eq!(outcome, Outcome::Exhausted);
                break;
            }
        };
        path = path.advance(event);
        events += 1;
    }
    assert_eq!(events, 101);
    assert_eq!(path.bounces(), 50);
}

#[test]
fn every_path_ends_within_its_budget() {
    let mut seed: u32 = 0x2545_f491;
    for _ in 0..2000 {
        let mut path = Path::start();
        let mut events = 0;
        loop {
            seed = seed.wrapping_mul(1_664_525).wrapping_add(1_013_904_223);
            let heads = (seed >> 16) % 16 != 0;
            let event = match path.pending() {
                Action::Intersect => {
                    if heads {
                        Event::Hit
                    } else {
                        Event::Miss
                    }
                }
                Action::Scatter => {
                    if heads {
                        Event::Scattered
                    } else {
                        Event::Absorbed
                    }
                }
                Action::Finish(_) => break,
            };
            path = path.advance(event);
            events += 1;
            assert!(path.bounces() <= MAX_BOUNCES);
            assert!(events <= 101);
        }
    }
}
