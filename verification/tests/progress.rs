use mod_installer::errors::FetchError;
use mod_installer::progress::{positions, ProgressState};

#[test]
fn new_transfer_starts_at_zero() {
    let p = ProgressState::new(String::from("Downloading BepInEx.zip"), 1000);
    assert_eq!(p.label(), "Downloading BepInEx.zip");
    assert_eq!(p.total(), 1000);
    assert_eq!(p.completed(), 0);
    assert!(!p.is_complete());
}

#[test]
fn advance_adds_chunk_length() {
    let mut p = ProgressState::new(String::from("x"), 1000);
    assert_eq!(p.advance(300), 300);
    assert_eq!(p.advance(300), 600);
    assert_eq!(p.completed(), 600);
    assert_eq!(p.total(), 1000);
}

#[test]
fn advance_is_capped_at_total() {
    let mut p = ProgressState::new(String::from("x"), 1000);
    assert_eq!(p.advance(900), 900);
    assert_eq!(p.advance(300), 1000);
    assert_eq!(p.advance(1), 1000);
    assert!(p.is_complete());
}

#[test]
fn advance_does_not_overflow() {
    let mut p = ProgressState::new(String::from("x"), u64::MAX);
    assert_eq!(p.advance(u64::MAX - 1), u64::MAX - 1);
    assert_eq!(p.advance(u64::MAX), u64::MAX);
}

#[test]
fn finish_jumps_to_total() {
    let mut p = ProgressState::new(String::from("x"), 1000);
    p.advance(10);
    assert_eq!(p.finish(), 1000);
    assert_eq!(p.completed(), 1000);
    assert_eq!(p.label(), "x");
    assert!(p.is_complete());
}

#[test]
fn empty_resource_is_complete_at_once() {
    let mut p = ProgressState::new(String::new(), 0);
    assert!(p.is_complete());
    assert_eq!(p.advance(5), 0);
    assert_eq!(p.finish(), 0);
}

#[test]
fn begin_accepts_success_with_length() {
    let p = ProgressState::begin(String::from("a"), 200, Some(42)).unwrap();
    assert_eq!(p.total(), 42);
    assert_eq!(p.completed(), 0);
    assert_eq!(p.label(), "a");
    assert!(ProgressState::begin(String::from("a"), 299, Some(0)).is_ok());
}

#[test]
fn begin_rejects_bad_status() {
    assert_eq!(ProgressState::begin(String::new(), 404, Some(42)).err(), Some(FetchError::BadStatus));
    assert_eq!(ProgressState::begin(String::new(), 199, Some(42)).err(), Some(FetchError::BadStatus));
    assert_eq!(ProgressState::begin(String::new(), 300, Some(42)).err(), Some(FetchError::BadStatus));
    assert_eq!(ProgressState::begin(String::new(), 500, None).err(), Some(FetchError::BadStatus));
}

#[test]
fn begin_rejects_missing_length() {
    assert_eq!(
        ProgressState::begin(String::new(), 200, None).err(),
        Some(FetchError::ContentLengthMissing)
    );
}

#[test]
fn positions_of_exact_transfer() {
    assert_eq!(positions(10, &vec![4, 4, 2]), vec![0, 4, 8, 10, 10]);
}

#[test]
fn positions_are_capped_on_overshoot() {
    assert_eq!(positions(10, &vec![6, 6, 6]), vec![0, 6, 10, 10, 10]);
}

#[test]
fn positions_end_at_total_when_stream_is_short() {
    assert_eq!(positions(10, &vec![3]), vec![0, 3, 10]);
    assert_eq!(positions(10, &vec![]), vec![0, 10]);
}

#[test]
fn positions_never_decrease_and_end_at_total() {
    let total = 1_000u64;
    let chunks = vec![0, 17, 400, 0, 250, 999, 3, u64::MAX, 5];
    let out = positions(total, &chunks);
    assert_eq!(out.len(), chunks.len() + 2);
    assert_eq!(out[0], 0);
    assert_eq!(*out.last().unwrap(), total);
    for w in out.windows(2) {
        assert!(w[0] <= w[1]);
    }
    for p in &out {
        assert!(*p <= total);
    }
}
