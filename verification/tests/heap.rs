use gossip_glomers::common::heap::RecordHeap;
use gossip_glomers::common::record::Record;

#[test]
fn the_earliest_record_comes_out_first() {
    let mut heap = RecordHeap::new();
    assert!(heap.peek().is_none());
    assert!(heap.pop().is_none());
    for (timestamp, value) in [(9u64, 'a'), (4, 'b'), (7, 'c'), (1, 'd'), (8, 'e'), (2, 'f')] {
        heap.push(Record { timestamp, value });
    }
    assert_eq!(heap.len(), 6);
    assert_eq!(heap.peek().map(|record| record.value), Some('d'));
    let mut out = Vec::new();
    while let Some(record) = heap.pop() {
        out.push((record.timestamp, record.value));
    }
    assert_eq!(out, vec![(1, 'd'), (2, 'f'), (4, 'b'), (7, 'c'), (8, 'e'), (9, 'a')]);
    assert_eq!(heap.len(), 0);
}

#[test]
fn taking_all_records_empties_the_heap() {
    let mut heap = RecordHeap::new();
    for timestamp in [3u64, 1, 2] {
        heap.push(Record { timestamp, value: timestamp * 10 });
    }
    let mut taken: Vec<u64> = heap.take_all().into_iter().map(|record| record.value).collect();
    taken.sort();
    assert_eq!(taken, vec![10, 20, 30]);
    assert_eq!(heap.len(), 0);
    assert!(heap.pop().is_none());
    heap.push(Record { timestamp: 0, value: 0 });
    assert_eq!(heap.len(), 1);
}

#[test]
fn records_compare_by_time_with_the_earlier_one_greater() {
    let early = Record { timestamp: 1u64, value: "x" };
    let late = Record { timestamp: 2u64, value: "x" };
    let twin = Record { timestamp: 1u64, value: "y" };
    assert!(early > late);
    assert!(late < early);
    assert!(early == twin);
    assert!(early != late);
    assert_eq!(early.partial_cmp(&twin), Some(std::cmp::Ordering::Equal));
    assert_eq!(early.partial_cmp(&late), Some(std::cmp::Ordering::Greater));
    assert_eq!(late.partial_cmp(&early), Some(std::cmp::Ordering::Less));
}
