use adbr::batch::{PullBatch, PushBatch};
use adbr::dirwalk::{DirPull, PendingDir, Tally};
use adbr::host::Progress;
use adbr::sync::{
    data_frame, decode_list_record, decode_push_status, decode_recv_header, decode_stat_reply,
    done_frame, list_request, pull_failure, quit_frame, recv_request, send_request, stat_request,
    stat_request_nul, sync_entry_request, ListItem, RecvHeader,
};
use adbr::transfer::{begin_push, pull_destination, pull_into_directory, push_mode, push_outcome, push_targets, should_push};
use adbr::{AdbError, PullResult, PushResult, RemoteDirEntry, RemoteMetadata, StatData};

fn stat_record(mode: u32, size: u32, mtime: u32) -> Vec<u8> {
    let mut v = b"STAT".to_vec();
    v.extend_from_slice(&mode.to_le_bytes());
    v.extend_from_slice(&size.to_le_bytes());
    v.extend_from_slice(&mtime.to_le_bytes());
    v
}

fn stat_of(mode: u32, size: u32, mtime: u32) -> StatData {
    match decode_stat_reply(&stat_record(mode, size, mtime), false) {
        Progress::Done(Ok(Some(s))) => s,
        other => panic!("unexpected {:?}", other),
    }
}

fn dent(mode: u32, name: &str) -> Vec<u8> {
    let mut v = b"DENT".to_vec();
    v.extend_from_slice(&mode.to_le_bytes());
    v.extend_from_slice(&7u32.to_le_bytes());
    v.extend_from_slice(&99u32.to_le_bytes());
    v.extend_from_slice(&(name.len() as u32).to_le_bytes());
    v.extend_from_slice(name.as_bytes());
    v
}

#[test]
fn sync_frames_are_tag_length_payload() {
    assert_eq!(sync_entry_request(), b"0005sync:".to_vec());
    assert_eq!(stat_request("/sdcard").unwrap(), b"STAT\x07\x00\x00\x00/sdcard".to_vec());
    assert_eq!(stat_request_nul("/sdcard").unwrap(), b"STAT\x08\x00\x00\x00/sdcard\x00".to_vec());
    assert_eq!(list_request("/d").unwrap(), b"LIST\x02\x00\x00\x00/d".to_vec());
    assert_eq!(recv_request("/nope").unwrap(), b"RECV\x05\x00\x00\x00/nope".to_vec());
    assert_eq!(quit_frame(), b"QUIT".to_vec());
    assert_eq!(done_frame(0x01020304), b"DONE\x04\x03\x02\x01".to_vec());
}

#[test]
fn send_names_path_and_decimal_mode() {
    assert_eq!(send_request("/data/local/tmp/a", 0o755).unwrap(), b"SEND\x15\x00\x00\x00/data/local/tmp/a,493".to_vec());
    assert_eq!(send_request("/x", 0o644).unwrap(), b"SEND\x06\x00\x00\x00/x,420".to_vec());
}

#[test]
fn stat_record_decodes() {
    let s = StatData::from_bytes(&stat_record(0o40755, 4096, 1_700_000_000)[4..]).unwrap();
    assert_eq!(s.mode(), 0o40755);
    assert_eq!(s.size(), 4096);
    assert_eq!(s.mtime(), 1_700_000_000);
    assert!(s.is_directory());
    assert!(!stat_of(0o100644, 1, 1).is_directory());
    assert!(matches!(StatData::from_bytes(&[0u8; 11]), Err(AdbError::Protocol(_))));
}

#[test]
fn stat_reply_without_record_is_none() {
    assert!(matches!(decode_stat_reply(b"FAIL\x00\x00\x00\x00", false), Progress::Done(Ok(None))));
    assert!(matches!(decode_stat_reply(b"", true), Progress::Done(Ok(None))));
    assert!(matches!(decode_stat_reply(b"STAT\x00", false), Progress::Need(11)));
    assert!(matches!(decode_stat_reply(b"STAT\x00", true), Progress::Done(Err(AdbError::Protocol(_)))));
}

#[test]
fn preserved_mode_reads_back_from_stat() {
    let s = stat_of(0o100755, 12, 1_600_000_000);
    let m = RemoteMetadata::from_stat(&s);
    assert_eq!(m.mode & 0o777, 0o755);
    assert_eq!(m.mtime, 1_600_000_000);
}

#[test]
fn push_mode_follows_execute_bits() {
    assert_eq!(push_mode(0o100755), 0o755);
    assert_eq!(push_mode(0o100700), 0o755);
    assert_eq!(push_mode(0o100001), 0o755);
    assert_eq!(push_mode(0o100644), 0o644);
}

#[test]
fn sync_skips_when_remote_is_not_older() {
    let remote = Some(stat_of(0o100644, 5, 100));
    assert!(!should_push(true, &remote, 100));
    assert!(!should_push(true, &remote, 99));
    assert!(should_push(true, &remote, 101));
    assert!(should_push(false, &remote, 1));
    assert!(should_push(true, &None, 1));
    assert!(matches!(begin_push("/r", 0o644, 100, true, &remote), Ok(None)));
    match begin_push("/r", 0o644, 101, true, &remote) {
        Ok(Some(v)) => assert_eq!(v, b"SEND\x06\x00\x00\x00/r,420".to_vec()),
        other => panic!("unexpected {:?}", other),
    }
}

#[test]
fn push_of_twelve_bytes() {
    let targets = push_targets(&vec!["dir/hello.txt".to_string()], "/data/local/tmp/", true).unwrap();
    assert_eq!(targets, vec!["/data/local/tmp/hello.txt".to_string()]);
    let header = begin_push(&targets[0], 0o644, 1_700_000_000, false, &None).unwrap().unwrap();
    assert_eq!(&header[..4], b"SEND");
    let data = data_frame(b"hello, world").unwrap();
    assert_eq!(data, b"DATA\x0c\x00\x00\x00hello, world".to_vec());
    assert_eq!(&done_frame(1_700_000_000)[..4], b"DONE");
    let status = match decode_push_status(b"OKAY", false) {
        Progress::Done(Ok(s)) => s,
        other => panic!("unexpected {:?}", other),
    };
    let out = push_outcome("dir/hello.txt", &targets[0], 12, 5, status);
    assert!(matches!(out, PushResult::Success(12, _, 1)));
}

#[test]
fn push_refused_by_server() {
    let status = match decode_push_status(b"FAIL0009read-only", true) {
        Progress::Done(Ok(s)) => s,
        other => panic!("unexpected {:?}", other),
    };
    match push_outcome("a", "/system/a", 3, 1, status) {
        PushResult::FailedAllPush(m) => assert_eq!(m, "adb: error: failed to copy 'a' to '/system/a': remote read-only"),
        other => panic!("unexpected {:?}", other),
    }
}

#[test]
fn push_targets_into_directories() {
    let two = vec!["a/x.txt".to_string(), "b/y.bin".to_string()];
    assert_eq!(push_targets(&two, "/sdcard", true).unwrap(), vec!["/sdcard/x.txt".to_string(), "/sdcard/y.bin".to_string()]);
    match push_targets(&two, "/sdcard/f", false) {
        Err(AdbError::Argument(m)) => assert_eq!(m, "adbr: error: target '/sdcard/f' is not a directory"),
        other => panic!("unexpected {:?}", other),
    }
    assert!(matches!(push_targets(&vec!["x".to_string()], "/sdcard/", false), Err(AdbError::Argument(_))));
    assert_eq!(push_targets(&vec!["x".to_string()], "/sdcard/new", false).unwrap(), vec!["/sdcard/new".to_string()]);
    assert!(matches!(push_targets(&vec!["..".to_string()], "/sdcard", true), Err(AdbError::Argument(_))));
}

#[test]
fn pull_destination_by_base_name() {
    assert!(pull_into_directory(2, false));
    assert!(pull_into_directory(1, true));
    assert!(!pull_into_directory(1, false));
    assert_eq!(pull_destination("/sdcard/a.png", true).unwrap(), Some("a.png".to_string()));
    assert_eq!(pull_destination("/sdcard/a.png", false).unwrap(), None);
    assert!(matches!(pull_destination("/", true), Err(AdbError::Argument(_))));
}

#[test]
fn recv_headers() {
    assert!(matches!(decode_recv_header(b"DATA\x0c\x00\x00\x00", false), Progress::Done(Ok(RecvHeader::Data(12)))));
    assert!(matches!(decode_recv_header(b"DONE\x00\x00\x00\x00", false), Progress::Done(Ok(RecvHeader::Done))));
    assert!(matches!(decode_recv_header(b"FAIL\x06\x00\x00\x00", false), Progress::Done(Ok(RecvHeader::Fail(6)))));
    assert!(matches!(decode_recv_header(b"ZZZZ\x06\x00\x00\x00", false), Progress::Done(Ok(RecvHeader::Skip))));
    assert!(matches!(decode_recv_header(b"DATA", false), Progress::Need(4)));
    assert!(matches!(decode_recv_header(b"DATA", true), Progress::Done(Err(AdbError::Protocol(_)))));
}

#[test]
fn pull_of_missing_file_reports_enoent() {
    match pull_failure("/nope", "nope", b"ENOENT") {
        AdbError::SyncOp(m) => {
            assert!(m.contains("ENOENT"));
            assert_eq!(m, "adb: error: failed to copy '/nope' to 'nope': ENOENT");
        },
        other => panic!("unexpected {:?}", other),
    }
    match pull_failure("/nope", "nope", &[b'E', 0xff]) {
        AdbError::SyncOp(m) => assert!(m.ends_with("E\u{fffd}")),
        other => panic!("unexpected {:?}", other),
    }
}

fn reassemble(content: &[u8]) -> Vec<u8> {
    let mut stream = Vec::new();
    for chunk in content.chunks(64 * 1024) {
        stream.extend_from_slice(&data_frame(chunk).unwrap());
    }
    stream.extend_from_slice(b"DONE\x00\x00\x00\x00");
    let mut out = Vec::new();
    let mut at = 0;
    loop {
        match decode_recv_header(&stream[at..at + 8], false) {
            Progress::Done(Ok(RecvHeader::Data(n))) => {
                out.extend_from_slice(&stream[at + 8..at + 8 + n as usize]);
                at += 8 + n as usize;
            },
            Progress::Done(Ok(RecvHeader::Done)) => break,
            other => panic!("unexpected {:?}", other),
        }
    }
    out
}

#[test]
fn data_frames_round_trip() {
    for len in [0usize, 1, 1024, 1_048_576] {
        let content: Vec<u8> = (0..len).map(|i| (i * 31 % 251) as u8).collect();
        assert_eq!(reassemble(&content), content);
    }
}

#[test]
fn list_records() {
    match decode_list_record(&dent(0o40755, "sub"), false) {
        Progress::Done(Ok(ListItem::Entry(e))) => {
            assert_eq!(e.name, "sub");
            assert_eq!(e.mode, 0o40755);
            assert_eq!(e.size, 7);
            assert_eq!(e.mtime, 99);
        },
        other => panic!("unexpected {:?}", other),
    }
    assert!(matches!(decode_list_record(b"DONE\x00\x00\x00\x00", false), Progress::Done(Ok(ListItem::End))));
    match decode_list_record(b"FAIL\x06\x00\x00\x00ENOENT", false) {
        Progress::Done(Err(AdbError::ServerReject(m))) => assert_eq!(m, "ENOENT"),
        other => panic!("unexpected {:?}", other),
    }
    assert!(matches!(decode_list_record(b"ABCD", false), Progress::Done(Err(AdbError::Protocol(_)))));
    let d = dent(0o100644, "file.txt");
    assert!(matches!(decode_list_record(&d[..10], false), Progress::Need(10)));
    assert!(matches!(decode_list_record(&d[..21], false), Progress::Need(7)));
}

fn entry(name: &str, mode: u32) -> RemoteDirEntry {
    RemoteDirEntry { name: name.to_string(), mode, size: 1, mtime: 1 }
}

#[test]
fn directory_pull_is_breadth_first() {
    let mut walk = DirPull::new("/sdcard/d/".to_string());
    let root = walk.next_dir().unwrap();
    assert_eq!(root.remote, "/sdcard/d/");
    assert_eq!(root.local, "");
    let files = walk.visit(&root, &vec![
        entry(".", 0o40755),
        entry("..", 0o40755),
        entry("a", 0o40755),
        entry("f.txt", 0o100644),
        entry("b", 0o40700),
    ]);
    assert_eq!(files.len(), 1);
    assert_eq!(files[0].remote, "/sdcard/d/f.txt");
    assert_eq!(files[0].local, "f.txt");
    let a = walk.next_dir().unwrap();
    assert_eq!((a.remote.as_str(), a.local.as_str()), ("/sdcard/d/a", "a"));
    let inner = walk.visit(&a, &vec![entry("g", 0o100600), entry("deep", 0o40755)]);
    assert_eq!(inner[0].remote, "/sdcard/d/a/g");
    assert_eq!(inner[0].local, "a/g");
    let b = walk.next_dir().unwrap();
    assert_eq!(b.remote, "/sdcard/d/b");
    let deep: PendingDir = walk.next_dir().unwrap();
    assert_eq!((deep.remote.as_str(), deep.local.as_str()), ("/sdcard/d/a/deep", "a/deep"));
    assert!(walk.next_dir().is_none());
}

#[test]
fn tallies_count_sent_files() {
    let mut t = Tally::new();
    assert!(t.record_push(&PushResult::Success(10, 1, 1)));
    assert!(t.record_push(&PushResult::Skip));
    assert!(t.record_push(&PushResult::Success(5, 1, 1)));
    assert!(!t.record_push(&PushResult::FailedAllPush("no".to_string())));
    assert!(matches!(t.push_result(7), PushResult::SuccessDirectory(15, 7, 2)));
    let mut p = Tally::new();
    assert!(p.record_pull(&PullResult::Success(u64::MAX, 1, 1)));
    assert!(p.record_pull(&PullResult::Success(3, 1, 1)));
    assert!(matches!(p.pull_result(0), PullResult::SuccessDirectory(u64::MAX, 0, 2)));
}

#[test]
fn push_batch_keeps_outcomes_up_to_first_fatal() {
    let mut b = PushBatch::new();
    assert!(b.record("a".to_string(), Ok(PushResult::Success(1, 1, 1))));
    assert!(b.record("b".to_string(), Ok(PushResult::Skip)));
    assert!(!b.record("c".to_string(), Ok(PushResult::FailedAllPush("x".to_string()))));
    let r = b.into_results();
    assert_eq!(r.len(), 3);
    assert_eq!(r[0].0, "a");
    assert_eq!(r[2].0, "c");
    let mut all = PushBatch::new();
    for name in ["1", "2", "3", "4"] {
        assert!(all.record(name.to_string(), Ok(PushResult::Success(0, 0, 1))));
    }
    assert_eq!(all.into_results().len(), 4);
}

#[test]
fn pull_batch_stops_at_an_error() {
    let mut b = PullBatch::new();
    assert!(b.record("/a".to_string(), Ok(PullResult::Success(1, 1, 1))));
    assert!(!b.record("/b".to_string(), Err(AdbError::SyncOp("gone".to_string()))));
    let r = b.into_results();
    assert_eq!(r.len(), 2);
    assert!(matches!(r[1].1, Err(AdbError::SyncOp(_))));
}

use adbr::sync::list_failure;

#[test]
fn failed_listing_names_the_directory() {
    let e = match decode_list_record(b"FAIL\x06\x00\x00\x00ENOENT", false) {
        Progress::Done(Err(e)) => e,
        other => panic!("unexpected {:?}", other),
    };
    match list_failure("/sdcard/x", e) {
        AdbError::SyncOp(m) => assert_eq!(m, "adb: error: failed to list directory '/sdcard/x': ENOENT"),
        other => panic!("unexpected {:?}", other),
    }
    match decode_list_record(b"ABCD", false) {
        Progress::Done(Err(AdbError::Protocol(m))) => assert_eq!(m, "adb: error: unexpected response during list: ABCD"),
        other => panic!("unexpected {:?}", other),
    }
}
