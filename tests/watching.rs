use quadoculars::fingerprint::{same_bytes, Fingerprint};
use quadoculars::watcher::RETRY_BUDGET;
use quadoculars::{FileWatcher, Fstate, Notice, Observation, Phase};

fn read(text: &str) -> Observation {
    Observation::Read(text.as_bytes().to_vec())
}

fn present(text: &str) -> FileWatcher {
    FileWatcher::new(Some(text.as_bytes().to_vec()))
}

#[test]
fn same_bytes_compares_every_byte() {
    assert!(same_bytes(&vec![1, 2, 3], &vec![1, 2, 3]));
    assert!(!same_bytes(&vec![1, 2, 3], &vec![1, 2, 4]));
    assert!(!same_bytes(&vec![1, 2, 3], &vec![1, 2]));
    assert!(same_bytes(&vec![], &vec![]));
}

#[test]
fn fingerprint_ignores_empty_and_identical_reads() {
    let mut f = Fingerprint::new(b"abc".to_vec());
    assert!(!f.observe(Vec::new()));
    assert!(!f.observe(b"abc".to_vec()));
    assert!(f.observe(b"abd".to_vec()));
    assert!(!f.observe(b"abd".to_vec()));
    assert!(f.observe(b"abc".to_vec()));
}

#[test]
fn watcher_starts_from_the_first_read() {
    assert_eq!(present("a").phase(), Phase::Existing);
    assert_eq!(FileWatcher::new(None).phase(), Phase::Missing(0));
}

#[test]
fn identical_rewrites_report_nothing() {
    let mut w = present("{\"x\":1}");
    for _ in 0..5 {
        assert_eq!(w.step(read("{\"x\":1}")), None);
        assert_eq!(w.step(read("")), None);
        assert_eq!(w.step(Observation::Quiet), None);
    }
    assert_eq!(w.phase(), Phase::Existing);
}

#[test]
fn two_distinct_writes_report_two_changes_in_order() {
    let mut w = present("one");
    assert_eq!(w.step(read("two")), Some(Notice::Changed));
    assert_eq!(w.step(read("two")), None);
    assert_eq!(w.step(read("three")), Some(Notice::Changed));
    assert_eq!(w.step(read("two")), Some(Notice::Changed));
    assert_eq!(w.phase(), Phase::Existing);
}

#[test]
fn vanished_file_is_reported_once() {
    let mut w = present("content");
    assert_eq!(w.step(Observation::Vanished), None);
    assert_eq!(w.phase(), Phase::Missing(0));
    for n in 1..=RETRY_BUDGET {
        assert_eq!(w.step(Observation::ReadFailed), None);
        assert_eq!(w.phase(), Phase::Missing(n));
    }
    assert_eq!(w.step(Observation::ReadFailed), Some(Notice::NotFound));
    assert!(w.is_gone());
    assert_eq!(w.step(read("back again")), None);
    assert_eq!(w.step(Observation::ReadFailed), None);
    assert_eq!(w.phase(), Phase::Gone);
}

#[test]
fn failed_read_after_notification_starts_polling() {
    let mut w = present("content");
    assert_eq!(w.step(Observation::ReadFailed), None);
    assert_eq!(w.phase(), Phase::Missing(0));
}

#[test]
fn recreated_file_recovers_with_one_change() {
    let mut w = present("old");
    assert_eq!(w.step(Observation::Vanished), None);
    for _ in 0..RETRY_BUDGET {
        assert_eq!(w.step(Observation::ReadFailed), None);
    }
    assert_eq!(w.step(read("new")), Some(Notice::Changed));
    assert_eq!(w.phase(), Phase::Existing);
}

#[test]
fn recreated_identical_file_keeps_polling() {
    let mut w = present("same");
    assert_eq!(w.step(Observation::Vanished), None);
    assert_eq!(w.step(Observation::ReadFailed), None);
    assert_eq!(w.step(read("same")), None);
    assert_eq!(w.phase(), Phase::Missing(0));
    assert_eq!(w.step(read("")), None);
    assert_eq!(w.step(read("other")), Some(Notice::Changed));
    assert_eq!(w.phase(), Phase::Existing);
}

#[test]
fn missing_watcher_that_never_read_reports_first_content() {
    let mut w = FileWatcher::new(None);
    assert_eq!(w.step(read("first")), Some(Notice::Changed));
    assert_eq!(w.phase(), Phase::Existing);
}

#[test]
fn notice_is_attached_to_its_target() {
    match Notice::Changed.into_event("a.json") {
        Fstate::Changed(p) => assert_eq!(p, "a.json"),
        Fstate::NotFound(_) => panic!("wrong kind"),
    }
    match Notice::NotFound.into_event(7u8) {
        Fstate::NotFound(p) => assert_eq!(p, 7),
        Fstate::Changed(_) => panic!("wrong kind"),
    }
}

#[test]
fn successful_poll_restarts_the_failure_count() {
    let mut w = present("same");
    assert_eq!(w.step(Observation::Vanished), None);
    for _ in 0..5 {
        assert_eq!(w.step(Observation::ReadFailed), None);
    }
    assert_eq!(w.step(read("same")), None);
    assert_eq!(w.phase(), Phase::Missing(0));
    for _ in 0..RETRY_BUDGET {
        assert_eq!(w.step(Observation::ReadFailed), None);
    }
    assert_eq!(w.phase(), Phase::Missing(RETRY_BUDGET));
    assert_eq!(w.step(Observation::ReadFailed), Some(Notice::NotFound));
}
