use heart_ascii::range::FloatRangeIter;
use heart_ascii::range::ToFloatRangeIter;

fn collect_all(it: &mut FloatRangeIter) -> Vec<i64> {
    let mut out = Vec::new();
    while let Some(v) = it.next() {
        out.push(v);
    }
    out
}

// The interval [0.0, 1.0) stepped by 0.25, in fixed-point ticks
// (100_000 ticks per unit), yields exactly 0.0, 0.25, 0.5 and 0.75.
#[test]
fn basic_usage() {
    let mut range = (0..100_000).stepped_by(25_000);
    let result = collect_all(&mut range);
    assert_eq!(vec![0, 25_000, 50_000, 75_000], result);
}

#[test]
fn bounds_and_count() {
    let start: i64 = 3;
    let end: i64 = 1_000;
    let step: i64 = 7;
    let mut range = FloatRangeIter::new(start, end, step);
    let values = collect_all(&mut range);
    assert_eq!(values.len() as i64, (end - start) / step);
    for (i, v) in values.iter().enumerate() {
        assert!(start <= *v && *v < end);
        assert_eq!(*v, start + step * (i as i64));
    }
}

#[test]
fn empty_interval_produces_nothing() {
    let mut range = FloatRangeIter::new(5, 5, 2);
    assert_eq!(collect_all(&mut range), Vec::<i64>::new());
}

#[test]
fn step_larger_than_interval() {
    let mut range = FloatRangeIter::new(0, 3, 10);
    assert_eq!(collect_all(&mut range), Vec::<i64>::new());
}

// After producing all values, a cyclic producer's next value equals its
// first value again.
#[test]
fn cyclic_restart() {
    let mut range = FloatRangeIter::new(10, 100, 30);
    // three values: 10, 40, 70
    assert_eq!(range.next_cyclic(), 10);
    assert_eq!(range.next_cyclic(), 40);
    assert_eq!(range.next_cyclic(), 70);
    assert_eq!(range.next_cyclic(), 10);
    assert_eq!(range.next_cyclic(), 40);
}

#[test]
fn reset_rewinds() {
    let mut range = FloatRangeIter::new(0, 10, 4);
    assert_eq!(range.next(), Some(0));
    assert_eq!(range.next(), Some(4));
    range.reset();
    assert_eq!(range.next(), Some(0));
}
