use apicore::histogram::{ensure_finite, Bin, BinRange, Histogram, HistogramError};
use apicore::support::{Float64, HistogramSupport};
use std::cmp::Ordering;
use std::ops::Bound;

fn fl(x: f64) -> Float64 {
    Float64::from_bits(x.to_bits())
}

#[test]
fn test_ensure_finite() {
    assert!(ensure_finite(0i64).is_ok());
    assert!(ensure_finite(i64::MIN).is_ok());
    assert!(ensure_finite(i64::MAX).is_ok());

    assert!(ensure_finite(fl(0.0)).is_ok());
    assert!(ensure_finite(fl(f64::NEG_INFINITY)).is_err());
    assert!(ensure_finite(fl(f64::INFINITY)).is_err());
    assert!(ensure_finite(fl(f64::NAN)).is_err());
}

#[test]
fn test_bin_range_to() {
    let range = BinRange::to(10);
    assert!(!range.contains(&100));
    assert!(range.contains(&0));
    assert_eq!(range.cmp(&0), Ordering::Equal);
    assert_eq!(range.cmp(&10), Ordering::Greater);
}

#[test]
fn test_bin_range_from() {
    let range = BinRange::from(10);
    assert!(range.contains(&100));
    assert!(!range.contains(&0));
    assert_eq!(range.cmp(&0), Ordering::Less);
    assert_eq!(range.cmp(&10), Ordering::Equal);
}

#[test]
fn test_bin_range() {
    let range = BinRange::range(0, 10);
    assert!(!range.contains(&100));
    assert!(range.contains(&0));
    assert!(!range.contains(&10));
    assert_eq!(range.cmp(&0), Ordering::Equal);
    assert_eq!(range.cmp(&10), Ordering::Greater);
}

#[test]
fn test_histogram() {
    let mut hist = Histogram::new(&vec![0, 10, 20]).unwrap();
    assert_eq!(
        hist.n_bins(),
        4,
        "Histogram should have 1 more bin than bin edges specified"
    );
    assert_eq!(hist.n_samples(), 0, "Histogram should init with 0 samples");

    let samples = [-10i64, 0, 1, 10, 50];
    let expected_counts = [1u64, 2, 1, 1];
    for (i, sample) in samples.iter().enumerate() {
        hist.sample(*sample).unwrap();
        let count = i as u64 + 1;
        assert_eq!(
            hist.n_samples(),
            count,
            "Histogram should have {} sample(s)",
            count
        );
    }

    for (bin, &expected_count) in hist.iter().zip(expected_counts.iter()) {
        assert_eq!(
            bin.count, expected_count,
            "Bin {:?} expected to have {} items, but found {}",
            bin.range, expected_count, bin.count
        );
    }
}

#[test]
fn test_histogram_with_bins() {
    let bins = &[(..0).into(), (0..10).into()];
    let hist = Histogram::with_bins(bins).unwrap();
    assert_eq!(hist.n_bins(), 3);
    let data = hist.iter().collect::<Vec<_>>();
    assert_eq!(data[0].range, BinRange::Range(i64::MIN, 0));
    assert_eq!(data[1].range, BinRange::Range(0, 10));
    assert_eq!(data[2].range, BinRange::RangeFrom(10));
}

#[test]
fn test_histogram_with_overlapping_bins() {
    let bins: &[BinRange<i64>] = &[(..1).into(), (0..10).into()];
    assert!(Histogram::with_bins(bins).is_err());
}

#[test]
fn test_histogram_with_non_partitioned_bins() {
    let bins: &[BinRange<i64>] = &[(..0).into(), (1..10).into()];
    assert!(
        Histogram::with_bins(bins).is_err(),
        "Bins with gaps should trigger an error"
    );
}

#[test]
fn test_histogram_float_bins() {
    let bins = &[(..fl(0.0)).into(), (fl(0.0)..fl(10.0)).into()];
    assert!(Histogram::with_bins(bins).is_ok());
}

#[test]
fn test_histogram_extreme_samples() {
    let mut hist = Histogram::with_bins(&[(0..1).into()]).unwrap();
    assert!(hist.sample(i64::MIN).is_ok());
    assert!(hist.sample(i64::MAX).is_ok());
    assert_eq!(hist.iter().nth(0).unwrap().count, 1);
    assert_eq!(hist.iter().nth(1).unwrap().count, 0);
    assert_eq!(hist.iter().nth(2).unwrap().count, 1);

    let mut hist = Histogram::with_bins(&[(fl(0.0)..fl(1.0)).into()]).unwrap();
    assert!(hist.sample(fl(f64::MIN)).is_ok());
    assert!(hist.sample(fl(f64::INFINITY)).is_err());
    assert!(hist.sample(fl(f64::NAN)).is_err());
}

#[test]
fn test_histogram_extreme_bins() {
    let hist = Histogram::with_bins(&[(i64::MIN..).into()]).unwrap();
    assert_eq!(
        hist.n_bins(),
        1,
        "This histogram should have one bin, which covers the whole range"
    );

    assert!(Histogram::with_bins(&[(fl(f64::NEG_INFINITY)..).into()]).is_err());
    assert!(Histogram::with_bins(&[(..fl(f64::INFINITY)).into()]).is_err());
    let hist = Histogram::with_bins(&[(fl(f64::MIN)..).into()]).unwrap();
    assert_eq!(
        hist.n_bins(),
        1,
        "This histogram should have one bin, which covers the whole range"
    );
    let hist = Histogram::with_bins(&[(..fl(f64::MAX)).into()]).unwrap();
    assert_eq!(
        hist.n_bins(), 2,
        "This histogram should have two bins, since `BinRange`s are always exclusive on the right"
    );
    assert!(Histogram::with_bins(&[(fl(f64::NAN)..).into()]).is_err());
    assert!(Histogram::with_bins(&[(..fl(f64::NAN)).into()]).is_err());
    assert!(Histogram::with_bins(&[
        (fl(0.0)..fl(f64::NAN)).into(),
        (fl(f64::NAN)..fl(100.0)).into()
    ])
    .is_err());
    assert!(Histogram::new(&[fl(f64::NAN), fl(0.0)]).is_err());

    let hist = Histogram::new(&[i64::MIN]).unwrap();
    assert_eq!(
        hist.iter().nth(0).unwrap().range,
        BinRange::range(i64::MIN, i64::MAX),
        "A single bin at i64::MIN should be turned into a single bin [i64::MIN, i64::MAX]"
    );
    let hist = Histogram::new(&[i64::MIN, 0]).unwrap();
    assert_eq!(hist.iter().nth(0).unwrap().range, BinRange::range(i64::MIN, 0));

    let hist = Histogram::new(&[fl(f64::MIN)]).unwrap();
    assert_eq!(
        hist.iter().nth(0).unwrap().range,
        BinRange::range(fl(f64::MIN), fl(f64::MAX)),
        "A single bin at f64::MIN should be turned into a single bin [MIN, MAX)"
    );
}

#[test]
fn test_histogram_unsorted_bins() {
    assert!(
        Histogram::new(&vec![0, -10, 1]).is_err(),
        "Expected an Err when building a histogram with unsorted bins"
    );

    assert!(
        Histogram::with_bins(&[(0..1).into(), (-1..0).into()]).is_err(),
        "Expected an Err when building a histogram with unsorted bins"
    );
}

#[test]
fn test_histogram_unbounded_samples() {
    let mut hist = Histogram::new(&vec![fl(0.0), fl(1.0)]).unwrap();
    assert!(
        hist.sample(fl(f64::NAN)).is_err(),
        "Expected an Err when sampling NaN into a histogram"
    );
    assert!(
        hist.sample(fl(f64::NEG_INFINITY)).is_err(),
        "Expected an Err when sampling negative infinity into a histogram"
    );
}

#[test]
fn test_histogram_to_arrays() {
    let mut hist = Histogram::new(&[0, 10, 20]).unwrap();
    hist.sample(1).unwrap();
    hist.sample(11).unwrap();

    let (bins, counts) = hist.to_arrays();
    assert_eq!(
        bins.len(),
        counts.len(),
        "Bins and counts should have the same size"
    );
    assert_eq!(
        bins.len(),
        hist.n_bins(),
        "Paired-array bins should be of the same length as the histogram"
    );
    assert_eq!(counts, &[0, 1, 1, 0], "Paired-array counts are incorrect");

    let rebuilt = Histogram::from_arrays(bins, counts).unwrap();
    assert_eq!(
        hist, rebuilt,
        "Histogram reconstructed from paired arrays is not correct"
    );
}

#[test]
fn new_reports_each_fault() {
    let empty: Vec<i64> = Vec::new();
    assert_eq!(Histogram::new(&empty), Err(HistogramError::EmptyBins));
    assert_eq!(Histogram::new(&[0i64, 0]), Err(HistogramError::NonmonotonicBins));
    assert_eq!(Histogram::new(&[5i64, 4]), Err(HistogramError::NonmonotonicBins));
    assert_eq!(Histogram::new(&[i64::MIN, 0, 0]), Err(HistogramError::NonmonotonicBins));
    let inf = fl(f64::INFINITY);
    assert_eq!(
        Histogram::new(&[fl(0.0), inf]),
        Err(HistogramError::NonFiniteValue(format!("{:?}", inf)))
    );
    assert_eq!(
        Histogram::new(&[fl(0.0), fl(f64::NEG_INFINITY)]),
        Err(HistogramError::NonmonotonicBins)
    );
    assert_eq!(
        Histogram::new(&[fl(0.0), fl(f64::NAN)]),
        Err(HistogramError::NonFiniteValue(format!("{:?}", fl(0.0))))
    );
    assert_eq!(
        Histogram::new(&[fl(f64::NAN)]),
        Err(HistogramError::NonFiniteValue(format!("{:?}", fl(f64::NAN))))
    );
}

#[test]
fn new_lays_out_the_bins() {
    let ranges = |h: &Histogram<i64>| h.iter().map(|b| b.range).collect::<Vec<_>>();
    let h = Histogram::new(&[0i64, 10]).unwrap();
    assert_eq!(
        ranges(&h),
        vec![BinRange::Range(i64::MIN, 0), BinRange::Range(0, 10), BinRange::RangeFrom(10)]
    );
    let h = Histogram::new(&[i64::MIN, 10]).unwrap();
    assert_eq!(ranges(&h), vec![BinRange::Range(i64::MIN, 10), BinRange::RangeFrom(10)]);
    let h = Histogram::new(&[0i64, i64::MAX]).unwrap();
    assert_eq!(ranges(&h), vec![BinRange::Range(i64::MIN, 0), BinRange::Range(0, i64::MAX)]);
    let h = Histogram::new(&[i64::MAX]).unwrap();
    assert_eq!(ranges(&h), vec![BinRange::Range(i64::MIN, i64::MAX)]);
    let h = Histogram::new(&[i64::MIN]).unwrap();
    assert_eq!(ranges(&h), vec![BinRange::Range(i64::MIN, i64::MAX)]);
    assert!(h.iter().all(|b| b.count == 0));
    assert_eq!(h.n_samples(), 0);
}

#[test]
fn with_bins_reports_each_fault() {
    let empty: Vec<BinRange<i64>> = Vec::new();
    assert_eq!(Histogram::with_bins(&empty), Err(HistogramError::EmptyBins));
    let first = Bin { range: BinRange::Range(0i64, 10), count: 0 };
    let second = Bin { range: BinRange::Range(11i64, 20), count: 0 };
    assert_eq!(
        Histogram::with_bins(&[first.range, second.range]),
        Err(HistogramError::NonAdjoiningBins(format!("{:?}", first), format!("{:?}", second)))
    );
    let first = Bin { range: BinRange::Range(0i64, 1), count: 0 };
    let second = Bin { range: BinRange::Range(5i64, 6), count: 0 };
    assert_eq!(
        Histogram::with_bins(&[first.range, second.range, BinRange::RangeTo(7)]),
        Err(HistogramError::NonAdjoiningBins(format!("{:?}", first), format!("{:?}", second)))
    );
    let nan = fl(f64::NAN);
    assert_eq!(
        Histogram::with_bins(&[BinRange::RangeFrom(nan)]),
        Err(HistogramError::NonFiniteValue(format!("{:?}", nan)))
    );
    let inf = fl(f64::INFINITY);
    assert_eq!(
        Histogram::with_bins(&[BinRange::Range(fl(0.0), inf)]),
        Err(HistogramError::NonFiniteValue(format!("{:?}", inf)))
    );
}

fn ranges_of<T: HistogramSupport>(h: &Histogram<T>) -> Vec<BinRange<T>> {
    h.iter().map(|b| b.range).collect()
}

#[test]
fn with_bins_does_not_ask_that_a_start_lies_before_its_end() {
    let h = Histogram::with_bins(&[BinRange::RangeTo(i64::MIN)]).unwrap();
    assert_eq!(
        ranges_of(&h),
        vec![BinRange::Range(i64::MIN, i64::MIN), BinRange::RangeFrom(i64::MIN)]
    );
    assert_eq!(h.n_samples(), 0);
    assert!(h.iter().all(|b| b.count == 0));
    let h = Histogram::with_bins(&[BinRange::Range(0i64, 10), BinRange::Range(10, 5)]).unwrap();
    assert_eq!(
        ranges_of(&h),
        vec![
            BinRange::Range(i64::MIN, 0),
            BinRange::Range(0, 10),
            BinRange::Range(10, 5),
            BinRange::RangeFrom(5)
        ]
    );
    let (starts, counts) = h.to_arrays();
    assert_eq!(starts, vec![i64::MIN, 0, 10, 5]);
    assert_eq!(counts, vec![0, 0, 0, 0]);
}

#[test]
fn new_takes_the_edge_behind_the_least_value_as_it_is() {
    let h = Histogram::new(&[i64::MIN, i64::MIN]).unwrap();
    assert_eq!(
        ranges_of(&h),
        vec![BinRange::Range(i64::MIN, i64::MIN), BinRange::RangeFrom(i64::MIN)]
    );
    let nan = fl(f64::NAN);
    let h = Histogram::new(&[fl(f64::MIN), nan]).unwrap();
    assert_eq!(ranges_of(&h), vec![BinRange::Range(fl(f64::MIN), nan)]);
    let inf = fl(f64::INFINITY);
    let h = Histogram::new(&[fl(f64::MIN), inf]).unwrap();
    assert_eq!(ranges_of(&h), vec![BinRange::Range(fl(f64::MIN), inf)]);
    assert_eq!(
        Histogram::new(&[fl(f64::MIN), nan, fl(1.0)]),
        Err(HistogramError::NonFiniteValue(format!("{:?}", nan)))
    );
    assert_eq!(
        Histogram::new(&[fl(f64::MIN), inf, fl(1.0)]),
        Err(HistogramError::NonmonotonicBins)
    );
    let low = fl(f64::NEG_INFINITY);
    let h = Histogram::new(&[fl(f64::MIN), low, fl(1.0)]).unwrap();
    assert_eq!(
        ranges_of(&h),
        vec![
            BinRange::Range(fl(f64::MIN), low),
            BinRange::Range(low, fl(1.0)),
            BinRange::RangeFrom(fl(1.0))
        ]
    );
}

#[test]
fn debug_strings_are_what_debug_prints() {
    for v in [0i64, 7, -7, 10, 1234567890, i64::MAX, i64::MIN, -1] {
        assert_eq!(v.debug_string(), format!("{:?}", v));
        let bin = Bin { range: BinRange::Range(v, v), count: 42 };
        assert_eq!(bin.debug_string(), format!("{:?}", bin));
        assert_eq!(BinRange::RangeTo(v).debug_string(), format!("{:?}", BinRange::RangeTo(v)));
        assert_eq!(BinRange::RangeFrom(v).debug_string(), format!("{:?}", BinRange::RangeFrom(v)));
    }
    for x in [0.0f64, -0.0, 1.5, f64::MAX, f64::MIN, f64::NAN, f64::INFINITY] {
        assert_eq!(fl(x).debug_string(), format!("{:?}", fl(x)));
    }
}

#[test]
fn floats_compare_as_their_bits_say() {
    let values = [
        f64::NEG_INFINITY,
        f64::MIN,
        -1.5,
        -f64::MIN_POSITIVE,
        -0.0,
        0.0,
        f64::MIN_POSITIVE,
        1.0,
        1.5,
        f64::MAX,
        f64::INFINITY,
        f64::NAN,
    ];
    for a in values {
        assert_eq!(fl(a).is_finite(), a.is_finite());
        for b in values {
            assert_eq!(fl(a).less_than(&fl(b)), a < b, "{} < {}", a, b);
            assert_eq!(fl(a).equal_to(&fl(b)), a == b, "{} == {}", a, b);
        }
    }
    assert_eq!(<Float64 as HistogramSupport>::min_value(), fl(f64::MIN));
    assert_eq!(<Float64 as HistogramSupport>::max_value(), fl(f64::MAX));
    assert_eq!(<i64 as HistogramSupport>::min_value(), i64::MIN);
    assert_eq!(<i64 as HistogramSupport>::max_value(), i64::MAX);
}

#[test]
fn sample_counts_in_one_bin_only() {
    let mut h = Histogram::new(&[fl(-1.0), fl(0.0), fl(2.5)]).unwrap();
    for x in [-5.0, -1.0, -0.5, -0.0, 0.0, 2.4999, 2.5, 1e300, f64::MAX, f64::MIN] {
        assert!(h.can_sample(&fl(x)));
        let before = h.iter().map(|b| b.count).collect::<Vec<_>>();
        h.sample(fl(x)).unwrap();
        let after = h.iter().map(|b| b.count).collect::<Vec<_>>();
        for (i, bin) in h.iter().enumerate() {
            let grew = after[i] - before[i];
            assert_eq!(grew == 1, bin.range.contains(&fl(x)));
            assert!(grew <= 1);
        }
        assert_eq!(after.iter().sum::<u64>(), before.iter().sum::<u64>() + 1);
    }
    assert_eq!(h.n_samples(), 10);
    assert_eq!(h.iter().map(|b| b.count).collect::<Vec<_>>(), vec![2, 2, 3, 3]);
    let h = Histogram::new(&[i64::MIN]).unwrap();
    assert!(h.can_sample(&0));
    assert!(!h.can_sample(&i64::MAX));
}

#[test]
fn from_arrays_takes_the_counts_that_fit() {
    let h = Histogram::from_arrays(vec![0i64], vec![7]).unwrap();
    assert_eq!(h.iter().map(|b| b.count).collect::<Vec<_>>(), vec![7, 0]);
    assert_eq!(h.n_samples(), 7);
    let h = Histogram::from_arrays(vec![i64::MIN, i64::MAX], vec![3, 4]).unwrap();
    assert_eq!(h.iter().map(|b| b.count).collect::<Vec<_>>(), vec![3]);
    assert_eq!(h.n_samples(), 3);
    assert_eq!(
        Histogram::from_arrays(vec![1i64, 1], vec![3, 4]),
        Err(HistogramError::NonmonotonicBins)
    );
}

#[test]
fn ranges_tell_their_bounds() {
    assert_eq!(BinRange::to(5i64).start_bound(), Bound::Unbounded);
    assert_eq!(BinRange::to(5i64).end_bound(), Bound::Excluded(&5));
    assert_eq!(BinRange::range(1i64, 5).start_bound(), Bound::Included(&1));
    assert_eq!(BinRange::range(1i64, 5).end_bound(), Bound::Excluded(&5));
    assert_eq!(BinRange::from(1i64).start_bound(), Bound::Included(&1));
    assert_eq!(BinRange::from(1i64).end_bound(), Bound::Unbounded);
    assert!(!BinRange::range(fl(0.0), fl(1.0)).contains(&fl(f64::NAN)));
    assert_eq!(BinRange::range(fl(0.0), fl(1.0)).cmp(&fl(f64::NAN)), Ordering::Greater);
}
