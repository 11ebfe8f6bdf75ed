//! Sizes, orders, sorted runs and their merge.

use dtdb_sql::facts::ErrorKind;
use dtdb_sql::merge::merge_runs;
use dtdb_sql::order::{compare_keys, total_compare, type_rank};
use dtdb_sql::spill::{
    encode_run, estimate_row_size, estimate_value_size, merge_groups, next_pass, patch_count, read_count, read_framed,
    sort_entries, write_count, write_framed, HeapEntry, KWayMerge, MergeGroup, RunReader, MAX_FANIN,
};
use dtdb_sql::value::{Date, DbValue, Decimal, Order, Time, Timestamp};
use std::collections::VecDeque;

fn float(f: f64) -> DbValue {
    DbValue::Float(f.to_bits())
}

fn date(y: i32, m: u32, d: u32) -> Date {
    let day = chrono::NaiveDate::from_ymd_opt(y, m, d).unwrap();
    Date::from_days(chrono::Datelike::num_days_from_ce(&day)).unwrap()
}

#[test]
fn test_type_rank_and_total_compare() {
    // Null (0) < Bool (1) < Int (2) < Float (3) < String (4) < Bytes (5)
    assert_eq!(type_rank(&DbValue::Null), 0);
    assert_eq!(type_rank(&DbValue::Bool(true)), 1);
    assert_eq!(type_rank(&DbValue::Int(42)), 2);
    assert_eq!(type_rank(&float(1.5)), 3);
    assert_eq!(type_rank(&DbValue::string("hello")), 4);
    assert_eq!(type_rank(&DbValue::bytes(vec![1])), 5);

    // Different variant comparison
    assert_eq!(total_compare(&DbValue::Null, &DbValue::Bool(false)), Order::Less);
    assert_eq!(total_compare(&DbValue::Int(10), &float(1.0)), Order::Less);
    assert_eq!(total_compare(&DbValue::string("a"), &DbValue::bytes(vec![])), Order::Less);

    // Same variant comparison - Null
    assert_eq!(total_compare(&DbValue::Null, &DbValue::Null), Order::Equal);

    // Same variant comparison - Bool
    assert_eq!(total_compare(&DbValue::Bool(false), &DbValue::Bool(true)), Order::Less);
    assert_eq!(total_compare(&DbValue::Bool(true), &DbValue::Bool(true)), Order::Equal);

    // Same variant comparison - Int
    assert_eq!(total_compare(&DbValue::Int(5), &DbValue::Int(10)), Order::Less);
    assert_eq!(total_compare(&DbValue::Int(5), &DbValue::Int(5)), Order::Equal);

    // Same variant comparison - Float
    assert_eq!(total_compare(&float(1.0), &float(2.0)), Order::Less);
    // NaN behavior
    assert_eq!(total_compare(&float(f64::NAN), &float(f64::NAN)), Order::Equal);
    assert_eq!(total_compare(&float(1.0), &float(f64::NAN)), Order::Less);

    // Same variant comparison - String
    assert_eq!(total_compare(&DbValue::string("abc"), &DbValue::string("def")), Order::Less);

    // Same variant comparison - Bytes
    assert_eq!(total_compare(&DbValue::bytes(vec![1, 2]), &DbValue::bytes(vec![1, 3])), Order::Less);
    assert_eq!(total_compare(&DbValue::bytes(vec![1, 2]), &DbValue::bytes(vec![1, 2])), Order::Equal);

    // Temporal / decimal variants: ranks Date (6) < Time (7) < Timestamp (8)
    // < Decimal (9), and same-variant ordering delegates to the inner type.
    let date = date(2026, 6, 4);
    let time_a = Time::from_secs_nanos(8 * 3600, 0).unwrap();
    let time_b = Time::from_secs_nanos(9 * 3600, 0).unwrap();
    let ts_a = Timestamp { date, time: time_a };
    let ts_b = Timestamp { date, time: time_b };
    let dec_a = Decimal::new(100, 2).unwrap();
    let dec_b = Decimal::new(200, 2).unwrap();

    assert_eq!(type_rank(&DbValue::Time(time_a)), 7);
    assert_eq!(type_rank(&DbValue::Timestamp(ts_a)), 8);
    assert_eq!(type_rank(&DbValue::Decimal(dec_a)), 9);

    // Cross-variant ordering follows the rank order.
    assert_eq!(total_compare(&DbValue::Date(date), &DbValue::Time(time_a)), Order::Less);
    assert_eq!(total_compare(&DbValue::Time(time_a), &DbValue::Timestamp(ts_a)), Order::Less);
    assert_eq!(total_compare(&DbValue::Timestamp(ts_a), &DbValue::Decimal(dec_a)), Order::Less);

    // Same-variant ordering - Time / Timestamp / Decimal.
    assert_eq!(total_compare(&DbValue::Time(time_a), &DbValue::Time(time_b)), Order::Less);
    assert_eq!(total_compare(&DbValue::Timestamp(ts_a), &DbValue::Timestamp(ts_b)), Order::Less);
    assert_eq!(total_compare(&DbValue::Decimal(dec_a), &DbValue::Decimal(dec_b)), Order::Less);
    assert_eq!(total_compare(&DbValue::Decimal(dec_a), &DbValue::Decimal(dec_a)), Order::Equal);
}

#[test]
fn equal_values_tie() {
    assert_eq!(total_compare(&float(0.0), &float(-0.0)), Order::Equal);
    let one = DbValue::Decimal(Decimal::new(1, 0).unwrap());
    let also_one = DbValue::Decimal(Decimal::new(100, 2).unwrap());
    assert_eq!(total_compare(&one, &also_one), Order::Equal);
    assert_eq!(total_compare(&float(f64::NAN), &float(f64::INFINITY)), Order::Greater);
    assert_eq!(total_compare(&DbValue::string("ab"), &DbValue::string("abc")), Order::Less);
}

#[test]
fn test_estimate_value_size() {
    let size_int = estimate_value_size(&DbValue::Int(42));
    assert!(size_int > 0);

    let size_str = estimate_value_size(&DbValue::string("hello"));
    let size_bytes = estimate_value_size(&DbValue::bytes(vec![1, 2, 3]));
    assert_eq!(size_str, std::mem::size_of::<DbValue>() + 5);
    assert_eq!(size_bytes, std::mem::size_of::<DbValue>() + 3);

    let row_size = estimate_row_size(&vec![DbValue::Int(1)], &vec![DbValue::string("a")]);
    assert!(row_size > 0);
}

#[test]
fn sizes_count_bytes_and_add_up() {
    let value = std::mem::size_of::<DbValue>();
    let list = std::mem::size_of::<Vec<DbValue>>();
    assert_eq!(estimate_value_size(&DbValue::string("h\u{e9}")), value + 3);
    let size = estimate_row_size(&vec![DbValue::Int(1)], &vec![DbValue::string("ab"), DbValue::Null]);
    assert_eq!(size, 2 * list + 3 * value + 2);
}

#[test]
fn test_heap_entry_eq() {
    let directions = vec![true];
    let e1 = HeapEntry { sort_keys: vec![DbValue::Int(10)], payload: "p1", run_index: 0 };
    let e2 = HeapEntry { sort_keys: vec![DbValue::Int(10)], payload: "p2", run_index: 1 };
    let e3 = HeapEntry { sort_keys: vec![DbValue::Int(20)], payload: "p1", run_index: 0 };

    assert!(compare_keys(&e1.sort_keys, &e2.sort_keys, &directions) == Order::Equal);
    assert!(compare_keys(&e1.sort_keys, &e3.sort_keys, &directions) != Order::Equal);
}

/// Merges sorted runs, at most as many at once as may be.
fn merge(runs: Vec<Vec<(Vec<DbValue>, i64)>>, directions: &[bool]) -> Vec<(Vec<DbValue>, i64)> {
    let mut runs = runs;
    while runs.len() > MAX_FANIN {
        let mut next = Vec::new();
        for g in merge_groups(runs.len()) {
            next.push(merge_once(runs[g.from..g.to].to_vec(), directions));
        }
        runs = next;
    }
    merge_once(runs, directions)
}

fn merge_once(runs: Vec<Vec<(Vec<DbValue>, i64)>>, directions: &[bool]) -> Vec<(Vec<DbValue>, i64)> {
    let mut rest: Vec<std::vec::IntoIter<(Vec<DbValue>, i64)>> = runs.into_iter().map(|r| r.into_iter()).collect();
    let mut merger = KWayMerge::new(directions.to_vec());
    for (i, run) in rest.iter_mut().enumerate() {
        if let Some((k, p)) = run.next() {
            merger.push(k, p, i);
        }
    }
    let mut out = Vec::new();
    while let Some(e) = merger.next() {
        if let Some((k, p)) = rest[e.run_index].next() {
            merger.push(k, p, e.run_index);
        }
        out.push((e.sort_keys, e.payload));
    }
    out
}

#[test]
fn test_cascade_merge_lone_run() {
    // One chunk of 64 runs is merged, and a second chunk of 1 run is carried over.
    let mut runs = Vec::new();
    for i in 0..65 {
        runs.push(vec![(vec![DbValue::Int(i as i64)], i as i64)]);
    }
    assert_eq!(merge_groups(65), vec![MergeGroup { from: 0, to: 64 }, MergeGroup { from: 64, to: 65 }]);

    let results = merge(runs, &[true]);

    assert_eq!(results.len(), 65);
    for (i, (keys, payload)) in results.iter().enumerate() {
        assert_eq!(keys[0], DbValue::Int(i as i64));
        assert_eq!(*payload, i as i64);
    }
}

#[test]
fn merging_keeps_the_order_of_the_directions() {
    let entry = |k: i64, p: i64| (vec![DbValue::Int(k)], p);
    let runs = vec![
        vec![entry(9, 1), entry(5, 2), entry(1, 3)],
        vec![entry(8, 4), entry(5, 5)],
        vec![],
    ];
    let keys: Vec<DbValue> = merge(runs, &[false]).into_iter().map(|e| e.0[0].clone()).collect();
    let expected: Vec<DbValue> = [9, 8, 5, 5, 1].iter().map(|k| DbValue::Int(*k)).collect();
    assert_eq!(keys, expected);
}

#[test]
fn groups_cover_all_runs() {
    assert_eq!(merge_groups(0), vec![]);
    assert_eq!(merge_groups(64), vec![MergeGroup { from: 0, to: 64 }]);
    let groups = merge_groups(200);
    assert_eq!(groups.len(), 4);
    assert_eq!(groups[3], MergeGroup { from: 192, to: 200 });
}

#[test]
fn sorting_is_stable() {
    let entry = |a: i64, b: &str, p: i64| (vec![DbValue::Int(a), DbValue::string(b)], p);
    let mut buffer = vec![
        entry(2, "x", 0),
        entry(1, "b", 1),
        entry(2, "x", 2),
        entry(1, "c", 3),
        entry(2, "x", 4),
        entry(1, "b", 5),
    ];
    sort_entries(&mut buffer, &vec![true, false]);
    let payloads: Vec<i64> = buffer.iter().map(|e| e.1).collect();
    assert_eq!(payloads, vec![3, 1, 5, 0, 2, 4]);

    let mut empty: Vec<(Vec<DbValue>, i64)> = Vec::new();
    sort_entries(&mut empty, &vec![true]);
    assert!(empty.is_empty());
}

#[test]
fn sorting_agrees_with_the_standard_library() {
    let mut seed: u64 = 7;
    let mut buffer: Vec<(Vec<DbValue>, usize)> = Vec::new();
    for i in 0..1000usize {
        seed = seed.wrapping_mul(6364136223846793005).wrapping_add(1442695040888963407);
        buffer.push((vec![DbValue::Int((seed >> 60) as i64), DbValue::Int((seed >> 33 & 7) as i64)], i));
    }
    let directions = vec![true, false];
    let mut expected = buffer.clone();
    expected.sort_by(|a, b| match compare_keys(&a.0, &b.0, &directions) {
        Order::Less => std::cmp::Ordering::Less,
        Order::Equal => std::cmp::Ordering::Equal,
        Order::Greater => std::cmp::Ordering::Greater,
    });
    sort_entries(&mut buffer, &directions);
    assert_eq!(buffer, expected);
}

#[test]
fn counts_are_eight_bytes_the_lowest_first() {
    let mut bytes = vec![9];
    write_count(&mut bytes, 0x0102);
    assert_eq!(bytes, vec![9, 2, 1, 0, 0, 0, 0, 0, 0]);

    let mut all = Vec::new();
    write_count(&mut all, u64::MAX);
    let mut reader = RunReader::new(all);
    assert_eq!(read_count(&mut reader).unwrap(), u64::MAX);
    assert_eq!(reader.remaining(), 0);
    assert_eq!(read_count(&mut reader).unwrap_err().kind, ErrorKind::RunTruncated);
}

#[test]
fn a_patched_count_is_read_back() {
    let mut run = Vec::new();
    write_count(&mut run, 0);
    write_framed(&mut run, &vec![1, 2, 3]).unwrap();
    patch_count(&mut run, 77);
    let mut reader = RunReader::new(run);
    assert_eq!(read_count(&mut reader).unwrap(), 77);
    assert_eq!(read_framed(&mut reader).unwrap(), vec![1, 2, 3]);
}

#[test]
fn frames_are_read_back() {
    let mut bytes = Vec::new();
    write_framed(&mut bytes, &vec![]).unwrap();
    write_framed(&mut bytes, &vec![7; 300]).unwrap();
    assert_eq!(bytes[..8], [0, 0, 0, 0, 44, 1, 0, 0]);
    let mut reader = RunReader::new(bytes);
    assert_eq!(read_framed(&mut reader).unwrap(), Vec::<u8>::new());
    assert_eq!(read_framed(&mut reader).unwrap(), vec![7; 300]);
    assert_eq!(read_framed(&mut reader).unwrap_err().kind, ErrorKind::RunTruncated);

    let mut cut = RunReader::new(vec![2, 0, 0, 0, 1]);
    assert_eq!(read_framed(&mut cut).unwrap_err().kind, ErrorKind::RunTruncated);
}

#[test]
fn a_run_is_read_back() {
    let records = vec![(vec![1], vec![2, 3]), (vec![], vec![4])];
    let bytes = encode_run(&records).unwrap();
    let mut reader = RunReader::new(bytes);
    assert_eq!(read_count(&mut reader).unwrap(), 2);
    for (k, p) in &records {
        assert_eq!(read_framed(&mut reader).unwrap(), *k);
        assert_eq!(read_framed(&mut reader).unwrap(), *p);
    }
    assert_eq!(reader.remaining(), 0);
}

#[test]
fn runs_in_memory_are_merged_in_passes() {
    for n in [0usize, 1, 2, 64, 65, 129, 200] {
        let runs: Vec<VecDeque<(Vec<DbValue>, usize)>> = (0..n)
            .map(|r| (0..r % 4).map(|i| (vec![DbValue::Int((i * 50 + r % 7) as i64)], r * 10 + i)).collect())
            .collect();
        let mut all: Vec<(i64, usize)> = Vec::new();
        for (key, p) in runs.iter().flatten() {
            match key[0] {
                DbValue::Int(k) => all.push((k, *p)),
                _ => unreachable!(),
            }
        }
        let merged: Vec<(i64, usize)> = merge_runs(runs, &vec![true])
            .into_iter()
            .map(|(k, p)| match k[0] {
                DbValue::Int(i) => (i, p),
                _ => unreachable!(),
            })
            .collect();
        assert!(merged.windows(2).all(|w| w[0].0 <= w[1].0));
        let mut sorted = merged.clone();
        sorted.sort();
        all.sort();
        assert_eq!(sorted, all);
    }
}

#[test]
fn passes_go_on_while_there_are_too_many_runs() {
    assert_eq!(next_pass(0), None);
    assert_eq!(next_pass(MAX_FANIN), None);
    let groups = next_pass(MAX_FANIN + 1).unwrap();
    assert_eq!(groups, merge_groups(MAX_FANIN + 1));
    assert_eq!((groups[0].is_lone(), groups[1].is_lone()), (false, true));
}
