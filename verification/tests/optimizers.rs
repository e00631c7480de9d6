use smolnn::optimizers::{AdamClock, Param};

#[test]
fn clock_starts_at_one() {
    let clock = AdamClock::new();
    assert_eq!(clock.exponent(), 1);
    assert!(!clock.is_exhausted());
}

#[test]
fn bias_update_reads_without_moving() {
    let mut clock = AdamClock::new();
    assert_eq!(clock.tick(Param::Biases), 1);
    assert_eq!(clock.tick(Param::Biases), 1);
    assert_eq!(clock.exponent(), 1);
}

#[test]
fn weight_update_reads_then_moves() {
    let mut clock = AdamClock::new();
    assert_eq!(clock.tick(Param::Weights), 1);
    assert_eq!(clock.exponent(), 2);
    assert_eq!(clock.tick(Param::Weights), 2);
    assert_eq!(clock.exponent(), 3);
}

#[test]
fn both_tensors_of_a_batch_see_the_same_step() {
    let mut clock = AdamClock::new();
    for batch in 1..=100 {
        assert_eq!(clock.tick(Param::Biases), batch);
        assert_eq!(clock.tick(Param::Weights), batch);
    }
    assert_eq!(clock.exponent(), 101);
}

#[test]
fn step_is_one_plus_the_weight_updates() {
    let updates = [
        Param::Weights,
        Param::Biases,
        Param::Biases,
        Param::Weights,
        Param::Weights,
        Param::Biases,
    ];
    let mut clock = AdamClock::new();
    let mut seen = Vec::new();
    for param in updates {
        seen.push(clock.tick(param));
    }
    assert_eq!(seen, vec![1, 2, 2, 2, 3, 4]);
    assert_eq!(clock.exponent(), 1 + 3);
}
