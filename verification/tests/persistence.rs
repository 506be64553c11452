use clockeroo::resolve_stop;
use clockeroo::Session;
use clockeroo::StopReport;
use clockeroo::StopwatchRecord;

#[test]
fn record_round_trip() {
    let rec = StopwatchRecord { start_millis: 123_456 };
    let text = rec.encode();
    assert_eq!(text, "123456");
    let back = StopwatchRecord::decode(&text).unwrap();
    assert_eq!(back, rec);

    let zero = StopwatchRecord { start_millis: 0 };
    assert_eq!(zero.encode(), "0");
    assert_eq!(StopwatchRecord::decode("0"), Some(zero));

    let max = StopwatchRecord { start_millis: u64::MAX };
    assert_eq!(StopwatchRecord::decode(&max.encode()), Some(max));
}

#[test]
fn decode_accepts_only_digit_runs_in_range() {
    assert_eq!(StopwatchRecord::decode(""), None);
    assert_eq!(StopwatchRecord::decode("12a3"), None);
    assert_eq!(StopwatchRecord::decode("-5"), None);
    assert_eq!(StopwatchRecord::decode("18446744073709551615"), Some(StopwatchRecord {
        start_millis: u64::MAX,
    }));
    assert_eq!(StopwatchRecord::decode("18446744073709551616"), None);
    assert_eq!(StopwatchRecord::decode("99999999999999999999999"), None);
    assert_eq!(StopwatchRecord::decode("00042"), Some(StopwatchRecord { start_millis: 42 }));
}

#[test]
fn resumed_elapsed_matches_original_session() {
    // The first invocation starts a stopwatch and persists its record.
    let rec = StopwatchRecord { start_millis: 50_000 };
    let original = Session::stopwatch(rec.start_millis);
    let text = rec.encode();

    // A later invocation decodes the record and measures from it.
    let resumed = StopwatchRecord::decode(&text).unwrap().session();
    for now in [50_000u64, 50_001, 61_000, 1_000_000] {
        assert_eq!(resumed.elapsed_millis(now), original.elapsed_millis(now));
    }
    assert_eq!(resumed.elapsed_millis(61_000), 11_000);
}

#[test]
fn stop_query_reports_elapsed_or_no_record() {
    assert_eq!(resolve_stop(None, 99_000), StopReport::NoRecord);
    let rec = StopwatchRecord { start_millis: 10_000 };
    assert_eq!(
        resolve_stop(Some(rec), 99_000),
        StopReport::Stopped { elapsed_millis: 89_000 }
    );
}
