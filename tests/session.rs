use quadoculars::session::{CHECKPOINTS, MIN_TIMEOUT_MS};
use quadoculars::Watch;

fn paths(names: &[&str]) -> Vec<String> {
    names.iter().map(|n| n.to_string()).collect()
}

#[test]
fn test_if_file_not_exist() {
    let file_not_exist = std::path::Path::new("file.not_exist");
    let is_watching_file_not_yet_exist = Watch::new()
        .set_timeout(600)
        .single_file(file_not_exist.exists());
    assert_eq!(is_watching_file_not_yet_exist, false);
}

#[test]
fn test_if_file_exist() {
    let file_exist = std::path::Path::new(".");
    let is_watching_cargo_toml = Watch::new().set_timeout(600).single_file(file_exist.exists());
    assert_eq!(is_watching_cargo_toml, true);
}

#[test]
fn timeout_is_clamped_to_the_floor() {
    assert_eq!(Watch::new().timeout_ms(), MIN_TIMEOUT_MS);
    assert_eq!(Watch::new().set_timeout(600).timeout_ms(), 630);
    assert_eq!(Watch::new().set_timeout(630).timeout_ms(), 630);
    assert_eq!(Watch::new().set_timeout(2000).timeout_ms(), 2000);
    assert_eq!(Watch::new().set_timeout(2000).set_timeout(100).timeout_ms(), 630);
}

#[test]
fn poll_slice_divides_the_timeout() {
    assert_eq!(CHECKPOINTS, 7);
    assert_eq!(Watch::new().poll_slice_ms(), 90);
    assert_eq!(Watch::new().set_timeout(1000).poll_slice_ms(), 142);
}

#[test]
fn grace_period_covers_the_timeout() {
    for t in [0u32, 630, 631, 636, 637, 1000, 4_000_000_000] {
        let w = Watch::new().set_timeout(t);
        assert!(8 * (w.poll_slice_ms() as u64) >= w.timeout_ms() as u64);
    }
}

#[test]
fn multiple_files_keeps_present_files_in_order() {
    let mut files = paths(&["a", "b", "c", "d"]);
    assert!(Watch::new().multiple_files(&mut files, &vec![false, true, false, true]));
    assert_eq!(files, paths(&["b", "d"]));
}

#[test]
fn multiple_files_with_none_present_watches_nothing() {
    let mut files = paths(&["a", "b"]);
    assert!(!Watch::new().multiple_files(&mut files, &vec![false, false]));
    assert_eq!(files, paths(&["a", "b"]));
    let mut empty: Vec<String> = Vec::new();
    assert!(!Watch::new().multiple_files(&mut empty, &Vec::new()));
}

#[test]
fn shrink_of_sole_path_leaves_nothing() {
    let mut files = paths(&["only"]);
    assert!(!Watch::is_continue(&mut files, &"only".to_string()));
    assert!(files.is_empty());
}

#[test]
fn shrink_of_one_of_several_removes_only_it() {
    let mut files = paths(&["a", "b", "c"]);
    assert!(Watch::is_continue(&mut files, &"b".to_string()));
    assert_eq!(files, paths(&["a", "c"]));
    assert!(Watch::is_continue(&mut files, &"z".to_string()));
    assert_eq!(files, paths(&["a", "c"]));
    assert!(Watch::is_continue(&mut files, &"a".to_string()));
    assert!(!Watch::is_continue(&mut files, &"c".to_string()));
}
