use rasterkv::engine::metrics::{CacheEvent, Completed, IndexEvent, Kind, Metrics};

#[test]
fn statistics_are_written_out_with_all_their_numbers() {
    let mut metrics = Metrics::new(true);
    let mut read = metrics.accept(Kind::Read);
    read.finish(&mut metrics, Completed::Success, Some(3));
    let mut copy = metrics.accept(Kind::Copy);
    copy.finish(&mut metrics, Completed::NotFound, Some(0));
    metrics.cache(CacheEvent::Evict);
    metrics.index(IndexEvent::Lookup);
    metrics.record_time(true, 12);
    let none = "accept 0,completed 0,sync 0,success 0,missing/Outdated 0,abort 0,failure 0(Already effective 0,Impact unknown 0),I/O completed 0,Record invalid 0,pending nanoseconds 0\n";
    let expected = format!(
        "Statistics collection:true;count saturation:false;Measurement complete:true\n\
         read:accept 1,completed 1,sync 1,success 1,missing/Outdated 0,abort 0,failure 0(Already effective 0,Impact unknown 0),I/O completed 3,Record invalid 0,pending nanoseconds 0\n  \
         per request I/O completed [2,3]:1\n\
         write:{none}Modify:{none}delete:{none}\
         conditional copy:accept 1,completed 1,sync 1,success 0,missing/Outdated 1,abort 0,failure 0(Already effective 0,Impact unknown 0),I/O completed 0,Record invalid 0,pending nanoseconds 0\n  \
         per request I/O completed [0,0]:1\n\
         cache:Query 0,hit 0,Insert 0,Eliminate 1,Refresh 0\n\
         Index:Query 1,publish attempt 0,publishing conflict 0\n\
         Session refresh nanoseconds 0,Maintenance advances nanoseconds 12"
    );
    assert_eq!(metrics.snapshot().to_text(), expected);
    assert_eq!(metrics.snapshot().to_string(), expected);
}

#[test]
fn the_largest_bin_ends_at_the_largest_number() {
    let mut metrics = Metrics::new(true);
    let mut read = metrics.accept(Kind::Delete);
    read.finish(&mut metrics, Completed::Aborted, Some(u64::MAX));
    assert!(metrics
        .snapshot()
        .to_text()
        .contains("[9223372036854775808,18446744073709551615]:1\n"));
}
