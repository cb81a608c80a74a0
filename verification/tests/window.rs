//! Tests for the sliding-window maximum and the magnitude ordering.

use synth::data::SlidingWindowMax;
use synth::limiter::Magnitude;
use synth::sample::TotalOrder;

#[test]
fn test_sliding_window_max() {
    let mut w = SlidingWindowMax::<i32>::new();
    w.enqueue(1);
    assert_eq!(w.maximum(), Some(1));
    w.enqueue(3);
    assert_eq!(w.maximum(), Some(3));
    w.enqueue(2);
    assert_eq!(w.maximum(), Some(3));
    assert_eq!(w.dequeue(), Some(1));
    assert_eq!(w.maximum(), Some(3));
    assert_eq!(w.dequeue(), Some(3));
    assert_eq!(w.maximum(), Some(2));
    w.enqueue(5);
    assert_eq!(w.maximum(), Some(5));
    w.enqueue(7);
    assert_eq!(w.maximum(), Some(7));
    assert_eq!(w.dequeue(), Some(2));
    assert_eq!(w.maximum(), Some(7));
    assert_eq!(w.dequeue(), Some(5));
    assert_eq!(w.maximum(), Some(7));
    assert_eq!(w.dequeue(), Some(7));
    assert_eq!(w.maximum(), None);
}

#[test]
fn test_window_empty_and_clear() {
    let mut w = SlidingWindowMax::<i32>::with_capacity(8);
    assert!(w.is_empty());
    assert_eq!(w.len(), 0);
    assert_eq!(w.dequeue(), None);
    assert_eq!(w.maximum(), None);
    w.enqueue(4);
    w.enqueue(-2);
    assert_eq!(w.len(), 2);
    assert!(!w.is_empty());
    w.clear();
    assert!(w.is_empty());
    assert_eq!(w.maximum(), None);
}

/// The reported maximum always matches a naive scan over a mixed sequence of
/// operations, including duplicated values.
#[test]
fn test_window_against_naive_scan() {
    let ops: Vec<i32> = vec![5, 1, 5, 3, 9, 2, 2, 9, 0, -4, 7, 7, 1];
    let mut w = SlidingWindowMax::<i32>::new();
    let mut naive: Vec<i32> = Vec::new();
    for (step, value) in ops.iter().enumerate() {
        w.enqueue(*value);
        naive.push(*value);
        if step % 3 == 2 {
            let expected = naive.remove(0);
            assert_eq!(w.dequeue(), Some(expected));
        }
        let naive_max = naive.iter().copied().max();
        assert_eq!(w.maximum(), naive_max);
    }
    while !naive.is_empty() {
        let expected = naive.remove(0);
        assert_eq!(w.dequeue(), Some(expected));
        let naive_max = naive.iter().copied().max();
        assert_eq!(w.maximum(), naive_max);
    }
}

#[test]
fn test_magnitude_order() {
    assert_eq!(Magnitude(-1), Magnitude(1));
    assert!(Magnitude(1) < Magnitude(-2));
    assert!(Magnitude(1) != Magnitude(2));
    assert!(Magnitude(-3) > Magnitude(2));
    assert!(Magnitude(0) < Magnitude(-1));
}

#[test]
fn test_magnitude_window() {
    let mut w = SlidingWindowMax::<Magnitude>::new();
    w.enqueue(Magnitude(5));
    w.enqueue(Magnitude(-8));
    w.enqueue(Magnitude(3));
    assert_eq!(w.maximum(), Some(Magnitude(-8)));
    assert!(w.maximum().unwrap().le(Magnitude(8)));
    assert!(Magnitude(8).le(w.maximum().unwrap()));
    assert_eq!(w.dequeue(), Some(Magnitude(5)));
    assert_eq!(w.dequeue(), Some(Magnitude(-8)));
    assert_eq!(w.maximum(), Some(Magnitude(3)));
}
