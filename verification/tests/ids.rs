use knowloop::ids::{seconds_between, Timestamp};

#[test]
fn whole_seconds_between_times() {
    let a = Timestamp { secs: 10, nanos: 0 };
    let b = Timestamp { secs: 0, nanos: 500_000_000 };
    assert_eq!(seconds_between(a, b), 9);
    assert_eq!(seconds_between(b, a), -9);
    assert_eq!(seconds_between(a, a), 0);
    let c = Timestamp { secs: -5, nanos: 250_000_000 };
    assert_eq!(seconds_between(a, c), 14);
}
