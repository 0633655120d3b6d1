use engula::journal::file::{
    next_segment, partition_point, plan_read, plan_release, recover_indexes, segment_name, Index, ReadRange,
    SegmentMeta,
};
use engula::journal::{Error, Event, MemStream, Stream, Timestamp};
use std::collections::VecDeque;

fn event(ts: u64, data: &str) -> Event {
    Event { ts: Timestamp::from(ts), data: data.as_bytes().to_vec() }
}

fn index(ts: u64, location: u64, size: u64) -> Index {
    Index { ts: Timestamp(ts), location, size }
}

#[test]
fn timestamps_are_ordered_by_value() {
    assert_eq!(Timestamp::from(7), Timestamp(7));
    assert_eq!(Timestamp::from(7).value(), 7);
    assert!(Timestamp(3) < Timestamp(4));
    assert!(Timestamp(4) >= Timestamp(4));
    assert_eq!(Timestamp(258).serialize(), vec![0, 0, 0, 0, 0, 0, 1, 2]);
    assert_eq!(Timestamp(u64::MAX).serialize(), vec![255; 8]);
    assert_eq!(Timestamp(0x0102030405060708).serialize(), vec![1, 2, 3, 4, 5, 6, 7, 8]);
    assert_eq!(Timestamp::deserialize(&vec![1, 2, 3, 4, 5, 6, 7, 8]), Some(Timestamp(0x0102030405060708)));
    assert_eq!(Timestamp::deserialize(&Timestamp(123456789).serialize()), Some(Timestamp(123456789)));
    assert_eq!(Timestamp::deserialize(&vec![1, 2, 3]), None);
    assert_eq!(Timestamp::deserialize(&vec![0; 9]), None);
    assert_eq!(Timestamp(42).debug(), "Timestamp(42)");
}

#[test]
fn mem_stream_reads_events_since_a_timestamp() {
    let mut stream = MemStream::new();
    assert_eq!(stream.read_events(Timestamp(0)), Ok(vec![]));
    for ts in [2u64, 4, 6, 8] {
        assert_eq!(stream.append_event(event(ts, "e")), Ok(()));
    }
    assert_eq!(stream.len(), 4);
    assert_eq!(stream.read_events(Timestamp(0)).unwrap().len(), 4);
    // Inclusive.
    assert_eq!(stream.read_events(Timestamp(4)), Ok(vec![event(4, "e"), event(6, "e"), event(8, "e")]));
    assert_eq!(stream.read_events(Timestamp(5)), Ok(vec![event(6, "e"), event(8, "e")]));
    assert_eq!(stream.read_events(Timestamp(8)), Ok(vec![event(8, "e")]));
    assert_eq!(stream.read_events(Timestamp(9)), Ok(vec![]));
    assert_eq!(stream.read_events(Timestamp(u64::MAX)), Ok(vec![]));
}

#[test]
fn mem_stream_refuses_events_out_of_order() {
    let mut stream = MemStream::new();
    stream.append_event(event(5, "a")).unwrap();
    assert_eq!(
        stream.append_event(event(5, "b")),
        Err(Error::InvalidArgument("timestamp Timestamp(5) <= last timestamp Timestamp(5)".to_string()))
    );
    assert_eq!(
        stream.append_event(event(3, "b")),
        Err(Error::InvalidArgument("timestamp Timestamp(3) <= last timestamp Timestamp(5)".to_string()))
    );
    assert_eq!(stream.len(), 1);
    assert_eq!(stream.append_event(event(6, "c")), Ok(()));
    assert_eq!(stream.read_events(Timestamp(0)), Ok(vec![event(5, "a"), event(6, "c")]));
}

#[test]
fn mem_stream_releases_events_before_a_timestamp() {
    let mut stream = MemStream::new();
    for ts in [2u64, 4, 6, 8] {
        stream.append_event(event(ts, "e")).unwrap();
    }
    // Exclusive.
    assert_eq!(stream.release_events(Timestamp(4)), Ok(()));
    assert_eq!(stream.read_events(Timestamp(0)), Ok(vec![event(4, "e"), event(6, "e"), event(8, "e")]));
    stream.release_events(Timestamp(1)).unwrap();
    assert_eq!(stream.len(), 3);
    stream.release_events(Timestamp(7)).unwrap();
    assert_eq!(stream.read_events(Timestamp(0)), Ok(vec![event(8, "e")]));
    stream.release_events(Timestamp(100)).unwrap();
    assert_eq!(stream.len(), 0);
    // Released timestamps do not come back as a bound.
    assert_eq!(stream.append_event(event(1, "again")), Ok(()));
}

fn fill<S: Stream>(stream: &mut S) -> Result<Vec<Event>, Error> {
    stream.append_event(event(1, "a"))?;
    stream.append_event(event(2, "b"))?;
    stream.release_events(Timestamp(2))?;
    stream.read_events(Timestamp(0))
}

#[test]
fn mem_stream_is_a_stream() {
    let mut stream = MemStream::new();
    assert_eq!(fill(&mut stream), Ok(vec![event(2, "b")]));
    assert!(matches!(stream.append_event(event(2, "c")), Err(Error::InvalidArgument(_))));
}

#[test]
fn segment_files_are_named_in_binary() {
    assert_eq!(segment_name(1), "0000000001");
    assert_eq!(segment_name(2), "0000000010");
    assert_eq!(segment_name(3), "0000000011");
    assert_eq!(segment_name(0), "0000000000");
    assert_eq!(segment_name(1023), "1111111111");
    assert_eq!(segment_name(1024), "10000000000");
    assert_eq!(segment_name(5), format!("{:010b}", 5));
    assert_eq!(segment_name(usize::MAX), format!("{:010b}", usize::MAX));
}

#[test]
fn a_new_segment_is_opened_when_the_newest_is_full() {
    assert_eq!(next_segment(0, false), Some(1));
    assert_eq!(next_segment(0, true), Some(1));
    assert_eq!(next_segment(3, true), Some(4));
    assert_eq!(next_segment(3, false), None);
}

fn sample_indexes() -> VecDeque<Index> {
    VecDeque::from(vec![index(10, 0, 5), index(20, 5, 5), index(30, 0, 7), index(40, 7, 3), index(50, 0, 9)])
}

/// The newest segment comes first.
fn sample_segments() -> VecDeque<SegmentMeta> {
    VecDeque::from(vec![
        SegmentMeta { start_index: index(50, 0, 9), end_index: index(50, 0, 9) },
        SegmentMeta { start_index: index(30, 0, 7), end_index: index(40, 7, 3) },
        SegmentMeta { start_index: index(10, 0, 5), end_index: index(20, 5, 5) },
    ])
}

#[test]
fn reads_cover_the_segments_that_hold_the_events() {
    let indexes = sample_indexes();
    let segments = sample_segments();
    assert_eq!(partition_point(&indexes, Timestamp(20)), 1);
    assert_eq!(partition_point(&indexes, Timestamp(21)), 2);
    assert_eq!(partition_point(&indexes, Timestamp(0)), 0);
    assert_eq!(partition_point(&indexes, Timestamp(51)), 5);
    for ts in 0..60 {
        assert_eq!(partition_point(&indexes, Timestamp(ts)), indexes.partition_point(|x| x.ts < Timestamp(ts)));
    }
    // From the middle of the oldest segment on, the oldest segment first.
    assert_eq!(
        plan_read(&indexes, &segments, Timestamp(15)),
        vec![
            ReadRange { segment: 2, start: 5, end: 10 },
            ReadRange { segment: 1, start: 0, end: 10 },
            ReadRange { segment: 0, start: 0, end: 9 },
        ]
    );
    assert_eq!(
        plan_read(&indexes, &segments, Timestamp(40)),
        vec![ReadRange { segment: 1, start: 7, end: 10 }, ReadRange { segment: 0, start: 0, end: 9 }]
    );
    assert_eq!(plan_read(&indexes, &segments, Timestamp(50)), vec![ReadRange { segment: 0, start: 0, end: 9 }]);
    assert_eq!(plan_read(&indexes, &segments, Timestamp(51)), vec![]);
    assert_eq!(plan_read(&VecDeque::new(), &segments, Timestamp(0)), vec![]);
    assert_eq!(plan_read(&indexes, &VecDeque::new(), Timestamp(0)), vec![]);
}

#[test]
fn an_index_out_of_order_is_searched_all_the_same() {
    let indexes = VecDeque::from(vec![index(30, 0, 1), index(10, 1, 1), index(20, 2, 1)]);
    // The search by halves looks at the middle entry, which lies before 15,
    // then at the last, which does not.
    assert_eq!(partition_point(&indexes, Timestamp(15)), 2);
    assert_eq!(partition_point(&indexes, Timestamp(25)), 3);
    assert_eq!(partition_point(&indexes, Timestamp(5)), 0);
    assert_eq!(partition_point(&indexes, Timestamp(35)), 3);
    let plan = plan_release(&indexes, &VecDeque::new(), Timestamp(25));
    assert_eq!(plan.released, 3);
}

#[test]
fn a_release_deletes_the_segments_that_ended() {
    let indexes = sample_indexes();
    let segments = sample_segments();
    let plan = plan_release(&indexes, &segments, Timestamp(41));
    assert_eq!(plan.segments, vec![2, 1]);
    assert_eq!(plan.released, 4);
    assert_eq!(plan.stamp, vec![0, 0, 0, 0, 0, 0, 0, 41]);
    // A segment whose last event is at the timestamp stays.
    let plan = plan_release(&indexes, &segments, Timestamp(40));
    assert_eq!(plan.segments, vec![2]);
    assert_eq!(plan.released, 3);
    let plan = plan_release(&indexes, &segments, Timestamp(5));
    assert_eq!((plan.segments, plan.released), (vec![], 0));
    let plan = plan_release(&indexes, &segments, Timestamp(500));
    assert_eq!((plan.segments, plan.released), (vec![2, 1, 0], 5));
}

#[test]
fn recovery_keeps_what_was_not_released() {
    let found = vec![index(10, 0, 5), index(20, 5, 5), index(30, 0, 7)];
    let recover = |release_ts: Option<u64>| {
        let mut indexes = VecDeque::from(vec![index(1, 0, 1)]);
        recover_indexes(&mut indexes, &found, release_ts);
        Vec::from(indexes)
    };
    assert_eq!(recover(None), vec![index(1, 0, 1), index(10, 0, 5), index(20, 5, 5), index(30, 0, 7)]);
    assert_eq!(recover(Some(20)), vec![index(1, 0, 1), index(20, 5, 5), index(30, 0, 7)]);
    assert_eq!(recover(Some(21)), vec![index(1, 0, 1), index(30, 0, 7)]);
    assert_eq!(recover(Some(31)), vec![index(1, 0, 1)]);
    assert_eq!(recover(Some(0)).len(), 4);
}

#[test]
fn segment_names_sort_as_their_numbers() {
    let mut names: Vec<String> = (1..1024).rev().map(segment_name).collect();
    names.sort();
    let in_order: Vec<String> = (1..1024).map(segment_name).collect();
    assert_eq!(names, in_order);
    // Beyond ten digits the names get longer and sort no more.
    assert!(segment_name(1024) < segment_name(1023));
}
