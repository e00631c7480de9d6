use smolnn::sampling::{draw_sample, sample_at};

#[test]
fn draw_names_the_sample_at_its_position() {
    assert_eq!(sample_at(0, 1), Some(0));
    assert_eq!(sample_at(0, 10_000), Some(0));
    assert_eq!(sample_at(9_999, 10_000), Some(9_999));
}

#[test]
fn draw_past_the_end_names_no_sample() {
    assert_eq!(sample_at(0, 0), None);
    assert_eq!(sample_at(1, 1), None);
    assert_eq!(sample_at(10_000, 10_000), None);
    assert_eq!(sample_at(u64::MAX, 10_000), None);
}

#[test]
fn nothing_is_drawn_from_an_empty_set() {
    assert_eq!(draw_sample(0), None);
}

#[test]
fn drawn_samples_are_in_the_set() {
    for len in [1usize, 2, 3, 10, 784, 10_000] {
        for _ in 0..2_000 {
            if let Some(at) = draw_sample(len) {
                assert!(at < len);
            }
        }
    }
}

#[test]
fn draws_differ() {
    let drawn: Vec<Option<usize>> = (0..200).map(|_| draw_sample(1_000_000)).collect();
    assert!(drawn.iter().any(|d| d.is_some()));
    assert!(drawn.iter().any(|d| *d != drawn[0]));
    assert!(drawn.iter().any(|d| *d != Some(0)));
}

#[test]
fn set_of_one_is_drawn_or_missed() {
    let mut hit = false;
    let mut missed = false;
    for _ in 0..400 {
        match draw_sample(1) {
            Some(at) => {
                assert_eq!(at, 0);
                hit = true;
            }
            None => missed = true,
        }
    }
    assert!(hit);
    assert!(missed);
}
