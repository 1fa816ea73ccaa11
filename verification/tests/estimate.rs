use samplerate::{
    formatted_time, infer_samplerate, EstimationError, Instant, RowError, Samplerate,
};

fn hertz(rate: Samplerate) -> f64 {
    if rate.intervals == 0 {
        0.0
    } else {
        1.0 / (rate.total_millis as f64 / rate.intervals as f64 * 1e-3)
    }
}

fn data_rows(file: &str) -> Vec<String> {
    file.lines().skip(1).map(|line| line.to_string()).collect()
}

fn instants(pairs: &[(i64, i32)]) -> Vec<Instant> {
    pairs
        .iter()
        .map(|&(sec, nsec)| Instant::new(sec, nsec).expect("a representable instant"))
        .collect()
}

const ONE_HZ: &str = "time,value
2015-07-09 23:08:08.000,0.1
2015-07-09 23:08:09.000,0.2
2015-07-09 23:08:10.000,0.3
2015-07-09 23:08:11.000,0.4
2015-07-09 23:08:12.000,0.5
";

const THIRD_HZ: &str = "time,value
2015-07-09 23:08:08.000,0.1
2015-07-09 23:08:11.000,0.2
2015-07-09 23:08:14.000,0.3
2015-07-09 23:08:17.000,0.4
";

const FIVE_HZ: &str = "time,value
2015-07-09 23:08:08.000,0.1
2015-07-09 23:08:08.200,0.2
2015-07-09 23:08:08.400,0.3
2015-07-09 23:08:08.600,0.4
2015-07-09 23:08:08.800,0.5
2015-07-09 23:08:09.000,0.6
";

#[test]
fn infer_samplerate_from_csv() {
    let tests = vec![(ONE_HZ, 1.0), (THIRD_HZ, 0.33333333), (FIVE_HZ, 5.0)];
    let delim = ',';
    let col = 0;
    let num_rows = 3;
    let epsilon = 0.00001;
    for (file, hz) in tests {
        let rate = infer_samplerate(&data_rows(file), delim, num_rows, col).unwrap();
        let hz_predicted = hertz(rate);
        assert!((hz_predicted - hz).abs() < epsilon);
    }
}

#[test]
fn estimate_sums_the_sampled_gaps() {
    assert_eq!(
        infer_samplerate(&data_rows(ONE_HZ), ',', 3, 0),
        Ok(Samplerate { intervals: 2, total_millis: 2000 })
    );
    assert_eq!(
        infer_samplerate(&data_rows(THIRD_HZ), ',', 3, 0),
        Ok(Samplerate { intervals: 2, total_millis: 6000 })
    );
    assert_eq!(
        infer_samplerate(&data_rows(FIVE_HZ), ',', 3, 0),
        Ok(Samplerate { intervals: 2, total_millis: 400 })
    );
    assert_eq!(
        infer_samplerate(&data_rows(FIVE_HZ), ',', 100, 0),
        Ok(Samplerate { intervals: 5, total_millis: 1000 })
    );
}

#[test]
fn uniform_rows_give_the_reciprocal_of_their_spacing() {
    for &(millis, rows) in [(1i64, 2usize), (10, 5), (250, 40), (1000, 3), (90_000, 7)].iter() {
        let batch: Vec<String> = (0..rows as i64)
            .map(|k| {
                let t = k * millis;
                format!(
                    "{};2015-07-09 {:02}:{:02}:{:02}.{:03}",
                    k,
                    t / 3_600_000,
                    t / 60_000 % 60,
                    t / 1000 % 60,
                    t % 1000
                )
            })
            .collect();
        let rate = infer_samplerate(&batch, ';', rows, 1).unwrap();
        assert_eq!(rate.intervals, rows - 1);
        assert_eq!(rate.total_millis, (rows as i128 - 1) * millis as i128);
        let expected = 1000.0 / millis as f64;
        assert!((hertz(rate) - expected).abs() < 1e-5 * expected.max(1.0));
    }
}

#[test]
fn no_row_or_one_row_gives_no_interval() {
    let none: Vec<String> = Vec::new();
    let empty = Samplerate { intervals: 0, total_millis: 0 };
    assert_eq!(infer_samplerate(&none, ',', 3, 0), Ok(empty));
    assert_eq!(infer_samplerate(&none, ',', 0, 0), Ok(empty));
    let rows = data_rows(ONE_HZ);
    assert_eq!(infer_samplerate(&rows, ',', 0, 0), Ok(empty));
    assert_eq!(infer_samplerate(&rows, ',', 1, 0), Ok(empty));
    assert_eq!(infer_samplerate(&rows[..1], ',', 3, 0), Ok(empty));
    let hz = hertz(empty);
    assert_eq!(hz, 0.0);
    assert!(hz.is_finite());
}

#[test]
fn rows_past_the_limit_are_not_read() {
    let mut rows = data_rows(ONE_HZ);
    rows[3] = "garbage".to_string();
    assert_eq!(
        infer_samplerate(&rows, ',', 3, 0),
        Ok(Samplerate { intervals: 2, total_millis: 2000 })
    );
    assert_eq!(
        infer_samplerate(&rows, ',', 4, 0),
        Err(EstimationError { row: 3, cause: RowError::FormatGuess })
    );
}

#[test]
fn column_out_of_range_fails_the_batch() {
    let rows = data_rows(ONE_HZ);
    assert_eq!(
        infer_samplerate(&rows, ',', 3, 2),
        Err(EstimationError { row: 0, cause: RowError::Extraction })
    );
    let mut short = data_rows(ONE_HZ);
    short[1] = String::new();
    assert_eq!(
        infer_samplerate(&short, ',', 3, 0),
        Err(EstimationError { row: 1, cause: RowError::Extraction })
    );
}

#[test]
fn first_bad_row_decides_the_error() {
    let rows = vec![
        "2015-07-09 23:08:08.000,a".to_string(),
        "yesterday,b".to_string(),
        String::new(),
    ];
    assert_eq!(
        infer_samplerate(&rows, ',', 3, 0),
        Err(EstimationError { row: 1, cause: RowError::FormatGuess })
    );
    assert_eq!(
        infer_samplerate(&rows, ',', 3, 1),
        Err(EstimationError { row: 0, cause: RowError::FormatGuess })
    );
    assert_eq!(
        infer_samplerate(&rows, ',', 3, 2),
        Err(EstimationError { row: 0, cause: RowError::Extraction })
    );
}

#[test]
fn each_row_is_guessed_on_its_own() {
    let rows = vec![
        "2015-07-09 23:08:08.000".to_string(),
        "20150709 23:08:09.500".to_string(),
        "23:08:12.000 09-07-2015".to_string(),
    ];
    assert_eq!(
        infer_samplerate(&rows, ',', 3, 0),
        Ok(Samplerate { intervals: 2, total_millis: 4000 })
    );
}

#[test]
fn rows_out_of_order_give_negative_gaps() {
    let rows = vec![
        "2015-07-09 23:08:10.000".to_string(),
        "2015-07-09 23:08:08.000".to_string(),
        "2015-07-09 23:08:09.000".to_string(),
    ];
    assert_eq!(
        infer_samplerate(&rows, ',', 3, 0),
        Ok(Samplerate { intervals: 2, total_millis: -1000 })
    );
}

#[test]
fn formatted_time_reads_one_row() {
    let t = formatted_time("7 ; 2015-07-09 23:08:08.123 ; x", ';', 1).unwrap();
    assert_eq!(t.seconds(), 1436483288);
    assert_eq!(t.subsec_nanos(), 123_000_000);
    assert_eq!(
        formatted_time("7 ; 2015-07-09 23:08:08.123 ; x", ';', 3),
        Err(RowError::Extraction)
    );
    assert_eq!(
        formatted_time("7 ; 2015-07-09 23:08:08.123 ; x", ';', 0),
        Err(RowError::FormatGuess)
    );
    assert_eq!(formatted_time("", ';', 0), Err(RowError::Extraction));
}

#[test]
fn from_instants_measures_consecutive_gaps() {
    let steady = instants(&[(0, 0), (0, 200_000_000), (0, 400_000_000), (0, 600_000_000)]);
    assert_eq!(
        Samplerate::from_instants(&steady),
        Samplerate { intervals: 3, total_millis: 600 }
    );
    let uneven = instants(&[(5, 0), (6, 500_000_000), (6, 500_900_000), (4, 0)]);
    assert_eq!(
        Samplerate::from_instants(&uneven),
        Samplerate { intervals: 3, total_millis: 1500 + 0 - 2500 }
    );
    assert_eq!(
        Samplerate::from_instants(&[]),
        Samplerate { intervals: 0, total_millis: 0 }
    );
    assert_eq!(
        Samplerate::from_instants(&instants(&[(9, 9)])),
        Samplerate { intervals: 0, total_millis: 0 }
    );
}

#[test]
fn from_instants_truncates_each_gap_before_summing() {
    let times = instants(&[(0, 0), (0, 1_900_000), (0, 3_800_000)]);
    assert_eq!(
        Samplerate::from_instants(&times),
        Samplerate { intervals: 2, total_millis: 2 }
    );
}

#[test]
fn from_instants_does_not_overflow_on_wide_swings() {
    let far = 4_000_000_000_000_000i64;
    let times = instants(&[(-far, 0), (far, 0), (-far, 0), (far, 0)]);
    assert_eq!(
        Samplerate::from_instants(&times),
        Samplerate { intervals: 3, total_millis: 8_000_000_000_000_000_000 }
    );
}

#[test]
fn row_errors_describe_themselves() {
    assert_eq!(RowError::Extraction.message(), "couldn't get column from row");
    assert_eq!(RowError::FormatGuess.message(), "couldn't guess timestamp format");
    assert_eq!(RowError::Parse.message(), "couldn't parse timestamp");
}
