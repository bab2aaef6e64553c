use betterserver::timer::{Timer, GameTimer};

#[test]
fn fresh_timer_is_zero() {
    let t = Timer::new();
    assert_eq!(t.get(GameTimer::Time), 0);
    assert_eq!(t.get(GameTimer::TailsProjectile), 0);
    assert_eq!(t.get(GameTimer::EggmanTracker), 0);
    assert_eq!(t.get(GameTimer::CreamRing), 0);
    assert_eq!(t.get(GameTimer::ExetiorRing), 0);
}

#[test]
fn tick_decrements_nonzero_only() {
    let mut t = Timer::new();
    t.set(GameTimer::Time, 100);
    t.set(GameTimer::CreamRing, 1);
    t.tick();
    assert_eq!(t.get(GameTimer::Time), 99);
    assert_eq!(t.get(GameTimer::CreamRing), 0);
    assert_eq!(t.get(GameTimer::TailsProjectile), 0);
    t.tick();
    assert_eq!(t.get(GameTimer::Time), 98);
    assert_eq!(t.get(GameTimer::CreamRing), 0);
}

#[test]
fn zero_stays_zero_forever() {
    let mut t = Timer::new();
    t.set(GameTimer::EggmanTracker, 2);
    for _ in 0..10 {
        t.tick();
    }
    assert_eq!(t.get(GameTimer::EggmanTracker), 0);
    assert_eq!(t.get(GameTimer::Time), 0);
}

#[test]
fn set_overwrites_one_key() {
    let mut t = Timer::new();
    t.set(GameTimer::TailsProjectile, 600);
    t.set(GameTimer::ExetiorRing, 7);
    assert_eq!(t.get(GameTimer::TailsProjectile), 600);
    assert_eq!(t.get(GameTimer::ExetiorRing), 7);
    assert_eq!(t.get(GameTimer::Time), 0);
}
