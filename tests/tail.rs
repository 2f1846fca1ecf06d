use ue_log_tail::tail::{FileStat, ReadRequest, TailState};

fn stat(len: u64) -> Option<FileStat> {
    Some(FileStat { len, created: Some(1), modified: Some(10) })
}

#[test]
fn starts_at_end_of_existing_file() {
    let mut t = TailState::start(Some(100));
    assert_eq!(t.on_stat(stat(100)), None);
    assert_eq!(t.on_stat(stat(130)), Some(ReadRequest { offset: 100, count: 30 }));
}

#[test]
fn missing_file_starts_from_zero() {
    let mut t = TailState::start(None);
    assert_eq!(t.on_stat(None), None);
    assert_eq!(t.on_stat(stat(5)), Some(ReadRequest { offset: 0, count: 5 }));
}

#[test]
fn reads_advance_offset_and_yield_records() {
    let mut t = TailState::start(None);
    assert_eq!(t.on_stat(stat(21)), Some(ReadRequest { offset: 0, count: 21 }));
    let lines = t.on_read(b"LogA: one\nLogB: tw");
    assert_eq!(t.offset, 18);
    assert_eq!(lines.len(), 1);
    assert_eq!(lines[0].category.as_deref(), Some("LogA"));
    let lines = t.on_read(b"o\n\n");
    assert_eq!(t.offset, 21);
    assert_eq!(lines.len(), 1);
    assert_eq!(lines[0].text, "LogB: two");
}

#[test]
fn rotation_reset_reads_new_file_from_start() {
    let new_file: &[u8] = b"fresh one\nfresh two\n";
    let mut t = TailState::start(None);
    t.on_stat(stat(50));
    t.on_read(&[b'x'; 50]);
    assert_eq!(t.offset, 50);
    assert!(!t.decoder.carry.is_empty());
    let req = t.on_stat(stat(new_file.len() as u64));
    assert_eq!(req, Some(ReadRequest { offset: 0, count: new_file.len() as u64 }));
    assert!(t.decoder.carry.is_empty());
    let lines = t.on_read(new_file);
    let mut fresh = TailState::start(None);
    fresh.on_stat(stat(new_file.len() as u64));
    let expected = fresh.on_read(new_file);
    let got: Vec<String> = lines.iter().map(|l| l.text.clone()).collect();
    let want: Vec<String> = expected.iter().map(|l| l.text.clone()).collect();
    assert_eq!(got, want);
    assert_eq!(got, vec!["fresh one".to_string(), "fresh two".to_string()]);
}

#[test]
fn recreated_file_restarts_even_when_longer() {
    let mut t = TailState::start(Some(10));
    t.on_stat(Some(FileStat { len: 10, created: Some(1), modified: Some(5) }));
    let req = t.on_stat(Some(FileStat { len: 20, created: Some(2), modified: Some(6) }));
    assert_eq!(req, Some(ReadRequest { offset: 0, count: 20 }));
}

#[test]
fn modified_time_going_back_restarts() {
    let mut t = TailState::start(Some(10));
    t.on_stat(Some(FileStat { len: 10, created: None, modified: Some(50) }));
    let req = t.on_stat(Some(FileStat { len: 12, created: None, modified: Some(40) }));
    assert_eq!(req, Some(ReadRequest { offset: 0, count: 12 }));
}

#[test]
fn vanished_file_forgets_identity() {
    let mut t = TailState::start(Some(10));
    t.on_stat(Some(FileStat { len: 10, created: Some(1), modified: Some(5) }));
    assert_eq!(t.on_stat(None), None);
    assert_eq!(t.last_created, None);
    assert_eq!(t.last_modified, None);
    // A new creation time after the gap is a first sighting, not a rotation.
    let req = t.on_stat(Some(FileStat { len: 15, created: Some(9), modified: Some(9) }));
    assert_eq!(req, Some(ReadRequest { offset: 10, count: 5 }));
}

#[test]
fn reset_skips_to_end_and_drops_fragment() {
    let mut t = TailState::start(None);
    t.on_stat(stat(4));
    t.on_read(b"part");
    t.reset_to_end(Some(40));
    assert_eq!(t.offset, 40);
    assert!(t.decoder.carry.is_empty());
    t.reset_to_end(None);
    assert_eq!(t.offset, 40);
}
