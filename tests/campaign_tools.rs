use afl_orchestra::campaign::{
    check_setup, evaluate, heartbeat_missed, propose, Broker, CampaignConfig, EventBus,
    EventMessage, Manager, SetupError, WorkerState,
};
use afl_orchestra::corpus::{CorpusStore, TestCase};
use afl_orchestra::coverage::{CoverageMap, SeenMap};
use afl_orchestra::feedback::{DedupKey, FaultKind, Outcome};
use afl_orchestra::scheduler::Scheduler;
use afl_orchestra::tools::{
    contains_line, is_binary_crate, is_workspace_toml, parse_llvm_fmt_version, parse_u32,
    parse_version_fields, CrateProbeError,
};

fn chars(s: &str) -> Vec<char> {
    s.chars().collect()
}

/// A toy target: counter 0 on every run, counter 1 for non-empty input,
/// counter 5 only when the first byte is 0x41.
fn run_target(input: &[u8], map: &mut CoverageMap) -> Outcome {
    map.reset();
    map.record(0);
    if !input.is_empty() {
        map.record(1);
        if input[0] == 0x41 {
            map.record(5);
        }
    }
    Outcome::Normal { coverage: map.snapshot() }
}

#[test]
fn campaign_finds_magic_byte() {
    let config = CampaignConfig { map_size: 64, timeout_ms: 1000, trace_percent: 10 };
    assert_eq!(check_setup(&config, 64, 1), Ok(()));
    let mut broker = Broker::new(config.map_size);
    let mut map = CoverageMap::new(config.map_size);
    let seed_input: Vec<u8> = vec![];
    let Outcome::Normal { coverage } = run_target(&seed_input, &mut map) else {
        panic!("seed run faulted")
    };
    broker.seen.merge(&coverage);
    broker.corpus.insert(TestCase::new(seed_input, coverage, 1, 0));
    broker.corpus.refresh_favored();
    let mut sched = Scheduler::new();
    for i in 0..10_000u64 {
        let (parent, child) = propose(&broker.corpus, &mut sched, i + 1).unwrap();
        let generation = broker.corpus.get(parent).unwrap().generation + 1;
        let outcome = run_target(&child, &mut map);
        if let Some(msg) = evaluate(&broker.seen, outcome, child, 1, generation, 0) {
            if broker.handle(msg) == Ok(true) {
                broker.corpus.refresh_favored();
            }
        }
    }
    assert!(broker.seen.classes[5] > 0);
    let found = (0..broker.corpus.len())
        .any(|id| broker.corpus.get(id).unwrap().bytes.first() == Some(&0x41));
    assert!(found);
}

#[test]
fn killed_worker_is_relaunched_and_corpus_kept() {
    let mut manager = Manager::new(2);
    let mut broker = Broker::new(8);
    let cov = vec![1u8, 0, 0, 0, 0, 0, 0, 0];
    assert_eq!(
        broker.handle(EventMessage::NewCoverage(TestCase::new(vec![7], cov, 3, 0))),
        Ok(true)
    );
    let before = broker.corpus.len();
    // Worker 1 produced a candidate but died before proposing it.
    let _lost = propose(&broker.corpus, &mut Scheduler::new(), 9).unwrap();
    assert!(heartbeat_missed(100, 250, 100));
    assert!(!heartbeat_missed(100, 150, 100));
    let replacement = manager.on_worker_exit(1).unwrap();
    assert_eq!(replacement, WorkerState { id: 1, generation: 0, restarts: 1 });
    assert_eq!(manager.workers[1].restarts, 1);
    assert_eq!(manager.workers[0].restarts, 0);
    assert_eq!(broker.corpus.len(), before);
    let reloaded = CorpusStore::restore(&broker.corpus.records());
    assert_eq!(reloaded.len(), before);
    assert_eq!(reloaded.get(0).unwrap().bytes, vec![7]);
}

#[test]
fn no_relaunch_after_stop() {
    let mut manager = Manager::new(1);
    assert_eq!(manager.on_worker_exit(3), None);
    manager.request_stop();
    assert_eq!(manager.on_worker_exit(0), None);
    assert_eq!(manager.workers[0].restarts, 0);
}

#[test]
fn setup_errors() {
    let config = CampaignConfig { map_size: 64, timeout_ms: 1000, trace_percent: 10 };
    assert_eq!(check_setup(&config, 64, 0), Err(SetupError::EmptySeedCorpus));
    assert_eq!(check_setup(&config, 32, 1), Err(SetupError::MapSizeMismatch));
    let bad = CampaignConfig { map_size: 64, timeout_ms: 1000, trace_percent: 101 };
    assert_eq!(check_setup(&bad, 64, 1), Err(SetupError::TracePercentOutOfRange));
    let mut broker = Broker::new(4);
    let wrong = TestCase::new(vec![1], vec![1, 1], 0, 0);
    assert_eq!(broker.handle(EventMessage::NewCoverage(wrong)), Err(SetupError::MapSizeMismatch));
    assert_eq!(broker.corpus.len(), 0);
}

#[test]
fn broker_commits_only_novel_coverage() {
    let mut broker = Broker::new(4);
    let t = |b: u8, c: Vec<u8>| EventMessage::NewCoverage(TestCase::new(vec![b], c, 0, 0));
    assert_eq!(broker.handle(t(1, vec![1, 0, 0, 0])), Ok(true));
    assert_eq!(broker.handle(t(2, vec![1, 0, 0, 0])), Ok(false));
    assert_eq!(broker.handle(t(3, vec![2, 0, 0, 1])), Ok(true));
    assert_eq!(broker.corpus.len(), 2);
    assert_eq!(broker.seen.classes, vec![2, 0, 0, 1]);
    assert_eq!(broker.handle(EventMessage::Heartbeat { worker: 0 }), Ok(false));
    assert_eq!(broker.handle(EventMessage::Stats { executions: 10 }), Ok(false));
    assert_eq!(broker.handle(EventMessage::Stats { executions: u64::MAX }), Ok(false));
    assert_eq!(broker.executions, u64::MAX);
}

#[test]
fn worker_reports_crash_and_novelty() {
    let seen = SeenMap::new(2);
    match evaluate(&seen, Outcome::Crash { location: 9 }, vec![1], 0, 0, 3) {
        Some(EventMessage::NewCrash(c)) => {
            assert_eq!(c.key, DedupKey { kind: FaultKind::Signal, location: 9 });
            assert_eq!(c.worker, 3);
        }
        _ => panic!("expected a crash report"),
    }
    let mut broker = Broker::new(2);
    let crash = evaluate(&seen, Outcome::Timeout, vec![1], 0, 0, 3).unwrap();
    assert_eq!(broker.handle(crash), Ok(true));
    let again = evaluate(&seen, Outcome::Timeout, vec![2], 0, 0, 1).unwrap();
    assert_eq!(broker.handle(again), Ok(false));
    assert_eq!(broker.crashes.len(), 1);
    assert!(evaluate(&seen, Outcome::Normal { coverage: vec![0, 0] }, vec![1], 0, 0, 0).is_none());
    assert!(evaluate(&seen, Outcome::Normal { coverage: vec![0, 0, 1] }, vec![1], 0, 0, 0).is_none());
    match evaluate(&seen, Outcome::Normal { coverage: vec![0, 1] }, vec![4], 6, 2, 0) {
        Some(EventMessage::NewCoverage(t)) => {
            assert_eq!(t.bytes, vec![4]);
            assert_eq!((t.exec_time, t.generation, t.favored), (6, 2, false));
        }
        _ => panic!("expected new coverage"),
    }
}

#[test]
fn bus_applies_backpressure() {
    let mut bus = EventBus::new(2);
    assert!(bus.push(EventMessage::Heartbeat { worker: 0 }).is_ok());
    assert!(bus.push(EventMessage::Heartbeat { worker: 1 }).is_ok());
    match bus.push(EventMessage::Heartbeat { worker: 2 }) {
        Err(EventMessage::Heartbeat { worker }) => assert_eq!(worker, 2),
        _ => panic!("a full bus hands the message back"),
    }
    assert!(matches!(bus.pop(), Some(EventMessage::Heartbeat { worker: 0 })));
    assert!(bus.push(EventMessage::Heartbeat { worker: 2 }).is_ok());
    assert!(matches!(bus.pop(), Some(EventMessage::Heartbeat { worker: 1 })));
    assert!(matches!(bus.pop(), Some(EventMessage::Heartbeat { worker: 2 })));
    assert!(bus.pop().is_none());
}

#[test]
fn relaunch_saturates() {
    let w = WorkerState { id: 4, generation: 9, restarts: u64::MAX };
    assert_eq!(w.relaunched(), w);
    assert_eq!(WorkerState::new(4, 9).relaunched().restarts, 1);
}

#[test]
fn binary_crate_probe() {
    assert_eq!(is_binary_crate(true, true), Ok(true));
    assert_eq!(is_binary_crate(true, false), Ok(false));
    assert_eq!(is_binary_crate(false, true), Err(CrateProbeError::NotADirectory));
}

#[test]
fn workspace_manifest_detection() {
    assert!(is_workspace_toml("[workspace]\nmembers = []\n"));
    assert!(is_workspace_toml("[package]\r\n[workspace]\r\n"));
    assert!(is_workspace_toml("a = 1\n[workspace]"));
    assert!(!is_workspace_toml("[workspace.dependencies]\n"));
    assert!(!is_workspace_toml(" [workspace]\n"));
    assert!(!is_workspace_toml("[package]\nname = \"x\"\n"));
    assert!(!is_workspace_toml(""));
    assert!(contains_line(&chars("x\n\ny"), &vec![]));
    assert!(!contains_line(&chars("xy"), &chars("x")));
}

#[test]
fn llvm_version_parsing() {
    assert_eq!(
        parse_llvm_fmt_version("Ubuntu clang-format version 18.1.3 (1ubuntu1)"),
        Some((18, 1, 3))
    );
    assert_eq!(parse_llvm_fmt_version("clang-format version 20.0.0"), Some((20, 0, 0)));
    assert_eq!(parse_llvm_fmt_version("clang version 18.1.3"), None);
    assert_eq!(parse_llvm_fmt_version("clang-format version 99999999999.1.2"), None);
    assert_eq!(parse_u32(&chars("4294967295")), Some(u32::MAX));
    assert_eq!(parse_u32(&chars("4294967296")), None);
    assert_eq!(parse_u32(&chars("")), None);
    assert_eq!(parse_u32(&chars("1a")), None);
    assert_eq!(parse_version_fields(&chars("1"), &chars("02"), &chars("3")), Some((1, 2, 3)));
}
