use afl_orchestra::corpus::{bytes_equal, CorpusStore, TestCase};
use afl_orchestra::mutator::{
    input_to_state, mutate, next_rand, should_trace, splice_operand, CmpRecord, MAX_INPUT_LEN,
};
use afl_orchestra::scheduler::{covers_exec, Scheduler};

fn case(bytes: Vec<u8>, coverage: Vec<u8>) -> TestCase {
    TestCase::new(bytes, coverage, 10, 0)
}

#[test]
fn insert_same_content_twice_dedups() {
    let mut store = CorpusStore::new();
    let a = store.insert(case(vec![1, 2], vec![1, 0]));
    let b = store.insert(case(vec![3], vec![0, 1]));
    let again = store.insert(TestCase::new(vec![1, 2], vec![1, 1], 99, 4));
    assert_eq!((a, b, again), (0, 1, 0));
    assert_eq!(store.len(), 2);
    assert_eq!(store.records().len(), 2);
    // The first insertion's metadata is kept.
    assert_eq!(store.get(0).unwrap().exec_time, 10);
    assert_eq!(store.find(&vec![3]), Some(1));
    assert_eq!(store.find(&vec![4]), None);
    assert!(store.get(2).is_none());
}

#[test]
fn restore_round_trip() {
    let mut store = CorpusStore::new();
    store.insert(TestCase::new(vec![], vec![1, 0, 0], 5, 0));
    store.insert(TestCase::new(vec![0x41, 7], vec![1, 2, 0], 8, 3));
    store.refresh_favored();
    let records = store.records();
    let back = CorpusStore::restore(&records);
    assert_eq!(back.len(), store.len());
    for id in 0..store.len() {
        let x = store.get(id).unwrap();
        let y = back.get(id).unwrap();
        assert_eq!(x.bytes, y.bytes);
        assert_eq!(x.coverage, y.coverage);
        assert_eq!(x.exec_time, y.exec_time);
        assert_eq!(x.generation, y.generation);
        assert_eq!(x.favored, y.favored);
    }
}

#[test]
fn restore_drops_duplicate_records() {
    let records = vec![case(vec![1], vec![1]), case(vec![1], vec![0]), case(vec![2], vec![1])];
    let store = CorpusStore::restore(&records);
    assert_eq!(store.len(), 2);
    assert_eq!(store.get(1).unwrap().bytes, vec![2]);
}

#[test]
fn strict_subset_loses_favor() {
    let mut store = CorpusStore::new();
    store.insert(case(vec![1], vec![1, 0, 0]));
    store.insert(case(vec![2], vec![1, 1, 0]));
    store.insert(case(vec![3], vec![0, 0, 1]));
    store.insert(case(vec![4], vec![0, 0, 3]));
    store.refresh_favored();
    let fav: Vec<bool> = (0..4).map(|i| store.get(i).unwrap().favored).collect();
    // Entry 0 is covered by entry 1; entries 2 and 3 hit the same location, earliest wins.
    assert_eq!(fav, vec![false, true, true, false]);
}

#[test]
fn scheduler_round_robin_over_favored() {
    let mut store = CorpusStore::new();
    let mut sched = Scheduler::new();
    assert_eq!(sched.next(&store), None);
    store.insert(case(vec![1], vec![1, 0, 0]));
    store.insert(case(vec![2], vec![1, 1, 0]));
    store.insert(case(vec![3], vec![0, 0, 1]));
    // Nothing ranked yet: the cursor position is taken.
    assert_eq!(sched.next(&store), Some(0));
    store.refresh_favored();
    let picks: Vec<usize> = (0..4).map(|_| sched.next(&store).unwrap()).collect();
    assert_eq!(picks, vec![1, 2, 1, 2]);
}

#[test]
fn covers_compares_hit_locations() {
    assert!(covers_exec(&vec![1, 0], &vec![9, 9]));
    assert!(!covers_exec(&vec![1, 1], &vec![9, 0]));
    assert!(!covers_exec(&vec![1], &vec![1, 1]));
    assert!(bytes_equal(&vec![1, 2], &vec![1, 2]));
    assert!(!bytes_equal(&vec![1, 2], &vec![1, 3]));
}

#[test]
fn mutation_is_reproducible() {
    let parent = vec![0x10u8, 0x20, 0x30, 0x40];
    for seed in [0u64, 1, 42, 0xdead_beef, u64::MAX] {
        assert_eq!(mutate(&parent, seed), mutate(&parent, seed));
    }
    let children: Vec<Vec<u8>> = (1..50u64).map(|s| mutate(&parent, s)).collect();
    assert!(children.iter().any(|c| c != &parent));
    assert!(children.iter().all(|c| c.len() <= parent.len() + 8));
}

#[test]
fn mutation_grows_empty_input() {
    let grown = (1..200u64).map(|s| mutate(&vec![], s)).filter(|c| !c.is_empty()).count();
    assert!(grown > 0);
}

#[test]
fn xorshift_step() {
    assert_eq!(next_rand(1), 1082269761);
    assert_ne!(next_rand(42), 42);
    assert_eq!(MAX_INPUT_LEN, 4096);
}

#[test]
fn splice_and_input_to_state() {
    let input = vec![0u8, 0, 0, 0];
    assert_eq!(splice_operand(&input, 1, &vec![0xde, 0xad]), vec![0, 0xde, 0xad, 0]);
    assert_eq!(splice_operand(&input, 3, &vec![1, 2, 3]), vec![0, 0, 0, 1]);
    assert_eq!(splice_operand(&input, 9, &vec![1]), input);
    let cmps = vec![
        CmpRecord { offset: 0, value: b"MZ".to_vec() },
        CmpRecord { offset: 2, value: vec![7] },
    ];
    assert_eq!(input_to_state(&input, &cmps, 0), vec![b'M', b'Z', 0, 0]);
    assert_eq!(input_to_state(&input, &cmps, 3), vec![0, 0, 7, 0]);
    assert_eq!(input_to_state(&input, &vec![], 3), input);
}

#[test]
fn tracing_coin() {
    assert!(should_trace(5, 10));
    assert!(!should_trace(15, 10));
    assert!(should_trace(199, 100));
    assert!(!should_trace(0, 0));
}

#[test]
fn faster_entry_wins_among_equal_coverage() {
    let mut store = CorpusStore::new();
    store.insert(TestCase::new(vec![1], vec![1, 1], 50, 0));
    store.insert(TestCase::new(vec![2], vec![2, 1], 20, 1));
    store.insert(TestCase::new(vec![3], vec![1, 0], 1, 1));
    store.refresh_favored();
    assert_eq!(store.favored_ids(), vec![1]);
}

#[test]
fn favored_ids_in_insertion_order() {
    let mut store = CorpusStore::new();
    assert!(store.favored_ids().is_empty());
    store.insert(case(vec![1], vec![1, 0, 0]));
    store.insert(case(vec![2], vec![0, 1, 0]));
    store.insert(case(vec![3], vec![0, 1, 1]));
    store.insert(case(vec![4], vec![0, 0, 1]));
    assert!(store.favored_ids().is_empty());
    store.refresh_favored();
    assert_eq!(store.favored_ids(), vec![0, 2]);
}
