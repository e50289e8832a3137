use rust_tcp::client::{summarize, Report};
use rust_tcp::latency::Latency;

fn of(samples: &[i64]) -> Latency {
    let mut l = Latency::new();
    for s in samples {
        l.observe(*s);
    }
    l
}

fn figures(l: &Latency) -> (i64, i64, i64, i64) {
    (l.num(), l.min(), l.max(), l.sum())
}

#[test]
fn new_is_empty() {
    let l = Latency::new();
    assert_eq!(l.min(), i64::MAX);
    assert_eq!(l.max(), i64::MIN);
    assert_eq!(l.sum(), 0);
    assert_eq!(l.num(), 0);
}

#[test]
fn average_of_empty_is_zero() {
    assert_eq!(Latency::new().average(), 0);
    assert_eq!(Latency::new().checked_average(), Some(0));
}

#[test]
fn observe_tracks_min_max_sum_count() {
    let l = of(&[5, 8, -2]);
    assert_eq!(figures(&l), (3, -2, 8, 11));
}

#[test]
fn observe_single_sample() {
    let l = of(&[7]);
    assert_eq!(figures(&l), (1, 7, 7, 7));
}

#[test]
fn average_is_twice_sum_less_one_over_count() {
    // (2 * 13 - 1) / 2 = 12
    assert_eq!(of(&[5, 8]).average(), 12);
    // (2 * 10 - 1) / 1 = 19
    assert_eq!(of(&[10]).average(), 19);
    // (2 * 30 - 1) / 3 = 19
    assert_eq!(of(&[10, 10, 10]).average(), 19);
    // (2 * 0 - 1) / 4 = 0, rounded toward zero
    assert_eq!(of(&[0, 0, 0, 0]).average(), 0);
}

#[test]
fn average_rounds_toward_zero_for_negative_sums() {
    // (2 * -3 - 1) / 2 = -7 / 2 = -3
    assert_eq!(of(&[-1, -2]).average(), -3);
    assert_eq!(of(&[-1, -2]).checked_average(), Some(-3));
}

#[test]
fn checked_average_refuses_what_does_not_fit() {
    let l = of(&[i64::MAX]);
    assert_eq!(l.checked_average(), None);
    let m = of(&[i64::MAX / 2]);
    assert_eq!(m.checked_average(), Some(i64::MAX - 2));
}

#[test]
fn merge_adds_samples() {
    let mut a = of(&[5, 8]);
    let b = of(&[1, 20, 3]);
    a.merge(&b);
    assert_eq!(figures(&a), (5, 1, 20, 37));
}

#[test]
fn merge_is_commutative() {
    let mut ab = of(&[5, 8]);
    ab.merge(&of(&[1, 20, 3]));
    let mut ba = of(&[1, 20, 3]);
    ba.merge(&of(&[5, 8]));
    assert_eq!(figures(&ab), figures(&ba));
}

#[test]
fn merge_is_associative() {
    let (a, b, c) = (of(&[4]), of(&[-9, 2]), of(&[100]));
    let mut left = of(&[4]);
    left.merge(&b);
    left.merge(&c);
    let mut bc = of(&[-9, 2]);
    bc.merge(&c);
    let mut right = a;
    right.merge(&bc);
    assert_eq!(figures(&left), figures(&right));
    assert_eq!(figures(&left), (4, -9, 100, 97));
}

#[test]
fn merge_with_empty_changes_nothing() {
    let mut a = of(&[5, 8]);
    a.merge(&Latency::new());
    assert_eq!(figures(&a), (2, 5, 8, 13));
    let mut e = Latency::new();
    e.merge(&of(&[5, 8]));
    assert_eq!(figures(&e), (2, 5, 8, 13));
    let mut ee = Latency::new();
    ee.merge(&Latency::new());
    assert_eq!(figures(&ee), figures(&Latency::new()));
}

#[test]
fn observe_equals_merge_of_single() {
    let mut a = of(&[5, 8]);
    a.observe(3);
    let mut b = of(&[5, 8]);
    b.merge(&of(&[3]));
    assert_eq!(figures(&a), figures(&b));
}

#[test]
fn merge_iter_takes_all() {
    let parts = vec![of(&[1, 2]), Latency::new(), of(&[-7]), of(&[40, 41, 42])];
    let mut total = of(&[10]);
    total.merge_iter(parts.iter());
    assert_eq!(figures(&total), (7, -7, 42, 129));
}

#[test]
fn from_iter_of_nothing_is_empty() {
    let parts: Vec<Latency> = Vec::new();
    let total = Latency::from_iter(parts.iter());
    assert_eq!(figures(&total), figures(&Latency::new()));
    assert_eq!(total.average(), 0);
}

#[test]
fn from_iter_merges_all() {
    let parts = vec![of(&[3, 9]), of(&[1]), of(&[4, 4])];
    let total = Latency::from_iter(parts.iter());
    assert_eq!(figures(&total), (5, 1, 9, 21));
    // (2 * 21 - 1) / 5 = 8
    assert_eq!(total.average(), 8);
}

#[test]
fn summarize_reports_the_merged_figures() {
    let parts = vec![of(&[3, 9]), of(&[1]), of(&[4, 4])];
    assert_eq!(summarize(&parts), Some(Report { num: 5, min: 1, max: 9, average: 8 }));
}

#[test]
fn summarize_of_nothing() {
    let parts: Vec<Latency> = Vec::new();
    assert_eq!(
        summarize(&parts),
        Some(Report { num: 0, min: i64::MAX, max: i64::MIN, average: 0 })
    );
}

#[test]
fn summarize_refuses_overflow() {
    let parts = vec![of(&[i64::MAX]), of(&[1])];
    assert_eq!(summarize(&parts), None);
    let lone = vec![of(&[i64::MAX])];
    assert_eq!(summarize(&lone), None);
}
