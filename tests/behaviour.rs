use movavg::{initialize_accu, MovAvg, MovAvgAccu, MovAvgError};

#[test]
fn windowing_matches_latest_values() {
    let values: [i64; 7] = [5, -3, 17, 8, -40, 12, 9];
    let mut a: MovAvg<i64, i64, 4> = MovAvg::new();
    for (i, v) in values.iter().enumerate() {
        let lo = if i + 1 > 4 { i + 1 - 4 } else { 0 };
        let window = &values[lo..=i];
        let expected = window.iter().sum::<i64>() / window.len() as i64;
        assert_eq!(a.try_feed(*v), Ok(expected));
    }
}

#[test]
fn negative_average_truncates_toward_zero() {
    let mut a: MovAvg<i32, i32, 2> = MovAvg::new();
    assert_eq!(a.feed(-3), -3);
    assert_eq!(a.feed(-4), -3);
    assert_eq!(a.feed(1), -1);
}

#[test]
fn empty_query_is_empty_error() {
    let a: MovAvg<u32, u64, 4> = MovAvg::new();
    assert_eq!(a.try_get(), Err(MovAvgError::Empty));
    assert_eq!(a.try_get(), Err(MovAvgError::Empty));
}

#[test]
fn failed_feed_leaves_state_unchanged() {
    let mut a: MovAvg<u8, u8, 3> = MovAvg::new();
    assert_eq!(a.feed(200), 200);
    assert_eq!(a.try_feed(200), Err(MovAvgError::Overflow));
    assert_eq!(a.get(), 200);
    assert_eq!(a.feed(40), 120);
    assert_eq!(a.feed(6), 82);
}

#[test]
fn failed_cast_leaves_state_unchanged() {
    let mut a: MovAvg<i16, i8, 3> = MovAvg::new();
    assert_eq!(a.feed(7), 7);
    assert_eq!(a.try_feed(200), Err(MovAvgError::Cast));
    assert_eq!(a.try_feed(-129), Err(MovAvgError::Cast));
    assert_eq!(a.get(), 7);
    assert_eq!(a.feed(-1), 3);
}

#[test]
fn underflow_when_leaving_sample_is_taken_off() {
    // The window [-100, 100, 100] sums to 100, but without its oldest
    // sample the sum is 200, which an i8 cannot hold.
    let mut a: MovAvg<i8, i8, 3> = MovAvg::new();
    assert_eq!(a.feed(-100), -100);
    assert_eq!(a.feed(100), 0);
    assert_eq!(a.feed(100), 33);
    assert_eq!(a.try_feed(0), Err(MovAvgError::Overflow));
    assert_eq!(a.get(), 33);
}

#[test]
fn count_that_does_not_fit_accumulator_is_cast_error() {
    let mut a: MovAvg<u8, u8, 300> = MovAvg::new();
    for _ in 0..255 {
        assert_eq!(a.feed(0), 0);
    }
    assert_eq!(a.try_feed(0), Err(MovAvgError::Cast));
    assert_eq!(a.get(), 0);
}

#[test]
fn seeded_count_that_does_not_fit_accumulator_is_cast_error() {
    let a: MovAvg<u8, u8, 300> = MovAvg::new_init([0u8; 300], 300);
    assert_eq!(a.try_get(), Err(MovAvgError::Cast));
}

#[test]
fn reset_behaves_like_new() {
    let mut a: MovAvg<i32, i32, 3> = MovAvg::new();
    a.feed(1000);
    a.feed(-7);
    a.feed(55);
    a.feed(12);
    a.reset();
    let mut b: MovAvg<i32, i32, 3> = MovAvg::new();
    assert_eq!(a.try_get(), Err(MovAvgError::Empty));
    for v in [4, 9, -30, 2, 2] {
        assert_eq!(a.try_feed(v), b.try_feed(v));
        assert_eq!(a.try_get(), b.try_get());
    }
}

#[test]
fn seeded_behaves_like_fed() {
    let mut seeded: MovAvg<i32, i32, 3> = MovAvg::new_init([10, 20, 0], 2);
    let mut fed: MovAvg<i32, i32, 3> = MovAvg::new();
    fed.feed(10);
    fed.feed(20);
    assert_eq!(seeded.get(), 15);
    assert_eq!(seeded.get(), fed.get());
    for v in [102, 178, -5, 0] {
        assert_eq!(seeded.try_feed(v), fed.try_feed(v));
    }
}

#[test]
fn seeded_scenario() {
    let mut a: MovAvg<i32, i32, 3> = MovAvg::new_init([10, 20, 0], 2);
    assert_eq!(a.get(), 15);
    assert_eq!(a.feed(102), 44);
    assert_eq!(a.feed(178), 100);
}

#[test]
fn full_seed_starts_at_oldest() {
    let mut a: MovAvg<u16, u32, 3> = MovAvg::new_init([3, 6, 9], 3);
    assert_eq!(a.get(), 6);
    assert_eq!(a.feed(30), 15);
    assert_eq!(a.feed(0), 13);
}

#[test]
fn window_of_one_returns_each_sample() {
    let mut a: MovAvg<i64, i64, 1> = MovAvg::new();
    for v in [5, -9, i64::MAX, i64::MIN, 0] {
        assert_eq!(a.feed(v), v);
    }
}

#[test]
fn narrow_samples_with_wide_accumulator() {
    let mut a: MovAvg<u8, u16, 3> = MovAvg::new();
    assert_eq!(a.feed(100), 100);
    assert_eq!(a.feed(100), 100);
    assert_eq!(a.feed(255), 151);
    assert_eq!(a.feed(255), 203);
}

#[test]
fn initialize_accu_errors() {
    let r: Result<u8, MovAvgError> = initialize_accu(&[100_i32, 100, 100]);
    assert_eq!(r, Err(MovAvgError::Overflow));
    let r: Result<u8, MovAvgError> = initialize_accu(&[1_i32, -1]);
    assert_eq!(r, Err(MovAvgError::Cast));
    let r: Result<i8, MovAvgError> = initialize_accu::<u64, i8>(&[]);
    assert_eq!(r, Ok(0));
}

#[test]
fn recalc_accu_takes_off_and_adds() {
    let window: [u8; 0] = [];
    assert_eq!(MovAvgAccu::<u8>::recalc_accu(50_i16, 20, 7, &window), Ok(37));
    assert_eq!(MovAvgAccu::<u8>::recalc_accu(120_i8, -10, 0, &window), Err(MovAvgError::Overflow));
    assert_eq!(MovAvgAccu::<u8>::recalc_accu(120_i8, 0, 10, &window), Err(MovAvgError::Overflow));
}

#[test]
fn error_messages() {
    assert_eq!(MovAvgError::Overflow.message(), "Accumulator type add overflow.");
    assert_eq!(MovAvgError::Empty.message(), "The MovAvg state is empty.");
    assert_eq!(MovAvgError::Cast.message(), "Failed to cast value to the target type.");
}
