use warpinator_lib::proto::{FileChunk, FILE_TYPE_DIRECTORY, FILE_TYPE_FILE};
use warpinator_lib::server::transfer_receiver::{ReceiveEffect, ReceiveEvent, ReceiveState};
use warpinator_lib::server::transfers::transfer_sender::{
    final_update, EntryMetadata, ModifiedTime, SendEffect, SendEvent, SendPaths, SendSession,
    CHUNK_SIZE,
};
use warpinator_lib::types::transfer::{
    IoErrorKind, TransferError, TransferState, TransferUpdate,
};

const FILE: EntryMetadata = EntryMetadata::File { modified: None };

fn session(sources: &[&str]) -> SendSession {
    SendSession::new(sources.iter().map(|source| source.to_string()).collect())
}

fn shown(effects: &[SendEffect]) -> String {
    format!("{:?}", effects)
}

fn entry(path: &str, metadata: EntryMetadata) -> SendEvent {
    SendEvent::Entry { path: path.to_string(), metadata: Ok(metadata) }
}

fn sent() -> SendEvent {
    SendEvent::Sent { bytes_per_second: 100 }
}

fn piece(effects: Vec<SendEffect>) -> FileChunk {
    match effects.into_iter().next() {
        Some(SendEffect::Send(chunk)) => chunk,
        other => panic!("no piece: {:?}", other),
    }
}

#[test]
fn nothing_to_send_is_completed_at_once() {
    assert_eq!(shown(&session(&[]).step(SendEvent::Begin, false)), "[Finish(Ok(true))]");
    assert_eq!(shown(&session(&[]).step(SendEvent::Begin, true)), "[Finish(Ok(true))]");
}

#[test]
fn cancelled_before_the_first_source() {
    assert_eq!(shown(&session(&["/a/x"]).step(SendEvent::Begin, true)), "[Finish(Ok(false))]");
}

#[test]
fn source_without_a_parent_fails() {
    assert_eq!(
        shown(&session(&["/"]).step(SendEvent::Begin, false)),
        "[Finish(Err(FailedToProcessFiles))]"
    );
}

#[test]
fn single_file_goes_out_in_pieces() {
    let mut sender = session(&["/a/x.txt"]);
    assert_eq!(shown(&sender.step(SendEvent::Begin, false)), r#"[Examine("/a/x.txt")]"#);
    let time = ModifiedTime { secs: 1700000000, subsec_millis: 250 };
    let metadata = EntryMetadata::File { modified: Some(time) };
    assert_eq!(
        shown(&sender.step(SendEvent::Examined(Ok(metadata)), false)),
        r#"[Open("/a/x.txt")]"#
    );
    assert_eq!(shown(&sender.step(SendEvent::Opened, false)), "[Read]");
    let first = piece(sender.step(SendEvent::Read(b"abc".to_vec()), false));
    assert_eq!(first.relative_path, "x.txt");
    assert_eq!(first.file_type, FILE_TYPE_FILE);
    assert_eq!(first.chunk, b"abc".to_vec());
    assert_eq!(first.file_mode, 0o644);
    assert_eq!(first.symlink_target, "");
    let sent_time = first.time.unwrap();
    assert_eq!(sent_time.mtime, 1700000000);
    assert_eq!(sent_time.mtime_usec, 250000);
    assert_eq!(
        shown(&sender.step(SendEvent::Sent { bytes_per_second: 10 }, false)),
        "[Update(Progress { bytes: 3, bytes_per_second: 10 }), Read]"
    );
    let second = piece(sender.step(SendEvent::Read(b"de".to_vec()), false));
    assert_eq!(second.relative_path, "x.txt");
    assert_eq!(second.time, None);
    assert_eq!(
        shown(&sender.step(SendEvent::Sent { bytes_per_second: 21 }, false)),
        "[Update(Progress { bytes: 2, bytes_per_second: 15 }), Read]"
    );
    assert_eq!(shown(&sender.step(SendEvent::Read(vec![]), false)), "[Finish(Ok(true))]");
}

#[test]
fn speed_that_does_not_fit_is_told_in_advance() {
    let mut sender = session(&["/a/x"]);
    sender.step(SendEvent::Begin, false);
    sender.step(SendEvent::Examined(Ok(FILE)), false);
    sender.step(SendEvent::Opened, false);
    sender.step(SendEvent::Read(vec![1]), false);
    assert!(sender.can_count(u64::MAX));
    sender.step(SendEvent::Sent { bytes_per_second: u64::MAX - 1 }, false);
    assert!(sender.can_count(1));
    assert!(!sender.can_count(2));
}

#[test]
fn pieces_are_of_a_fixed_size_at_most() {
    assert_eq!(CHUNK_SIZE, 64 * 1024);
    let mut sender = session(&["/a/x"]);
    sender.step(SendEvent::Begin, false);
    sender.step(SendEvent::Examined(Ok(FILE)), false);
    sender.step(SendEvent::Opened, false);
    let full = piece(sender.step(SendEvent::Read(vec![7; CHUNK_SIZE]), false));
    assert_eq!(full.chunk.len(), CHUNK_SIZE);
    assert_eq!(
        shown(&sender.step(SendEvent::Sent { bytes_per_second: 5 }, false)),
        "[Update(Progress { bytes: 65536, bytes_per_second: 5 }), Read]"
    );
}

#[test]
fn empty_file_goes_out_without_a_piece() {
    let mut sender = session(&["/a/x"]);
    sender.step(SendEvent::Begin, false);
    sender.step(SendEvent::Examined(Ok(FILE)), false);
    sender.step(SendEvent::Opened, false);
    assert_eq!(shown(&sender.step(SendEvent::Read(vec![]), false)), "[Finish(Ok(true))]");
}

#[test]
fn directory_goes_out_with_its_entries() {
    let mut sender = session(&["/a/d", "/b/pipe"]);
    sender.step(SendEvent::Begin, false);
    let top = piece(sender.step(SendEvent::Examined(Ok(EntryMetadata::Directory)), false));
    assert_eq!(top.relative_path, "d");
    assert_eq!(top.file_type, FILE_TYPE_DIRECTORY);
    assert_eq!(top.file_mode, 0o755);
    assert!(top.chunk.is_empty());
    assert_eq!(top.time, None);
    assert_eq!(shown(&sender.step(sent(), false)), r#"[Walk("/a/d")]"#);
    let below = piece(sender.step(entry("/a/d/e", EntryMetadata::Directory), false));
    assert_eq!(below.relative_path, "d/e");
    assert_eq!(below.file_type, FILE_TYPE_DIRECTORY);
    assert_eq!(below.file_mode, 0o755);
    assert_eq!(shown(&sender.step(sent(), false)), "[NextEntry]");
    assert_eq!(shown(&sender.step(entry("/a/d/e/f", FILE), false)), r#"[Open("/a/d/e/f")]"#);
    assert_eq!(shown(&sender.step(SendEvent::Opened, false)), "[Read]");
    let data = piece(sender.step(SendEvent::Read(b"x".to_vec()), false));
    assert_eq!(data.relative_path, "d/e/f");
    sender.step(sent(), false);
    assert_eq!(shown(&sender.step(SendEvent::Read(vec![]), false)), "[NextEntry]");
    assert_eq!(shown(&sender.step(entry("/a/d/link", EntryMetadata::Other), false)), "[NextEntry]");
    assert_eq!(shown(&sender.step(SendEvent::WalkEnded, false)), r#"[Examine("/b/pipe")]"#);
    assert_eq!(
        shown(&sender.step(SendEvent::Examined(Ok(EntryMetadata::Other)), false)),
        "[Finish(Ok(true))]"
    );
}

#[test]
fn entry_elsewhere_keeps_its_whole_path() {
    let mut sender = session(&["/a/d"]);
    sender.step(SendEvent::Begin, false);
    sender.step(SendEvent::Examined(Ok(EntryMetadata::Directory)), false);
    sender.step(sent(), false);
    let elsewhere = piece(sender.step(entry("/other/e", EntryMetadata::Directory), false));
    assert_eq!(elsewhere.relative_path, "/other/e");
}

#[test]
fn failures_end_the_transfer() {
    let mut sender = session(&["/a/x"]);
    sender.step(SendEvent::Begin, false);
    assert_eq!(
        shown(&sender.step(SendEvent::Examined(Err(IoErrorKind::NotFound)), false)),
        "[Finish(Err(FilesNotFound))]"
    );
    let mut sender = session(&["/a/x"]);
    sender.step(SendEvent::Begin, false);
    sender.step(SendEvent::Examined(Ok(FILE)), false);
    assert_eq!(
        shown(&sender.step(SendEvent::NotOpened(IoErrorKind::PermissionDenied), false)),
        "[Finish(Err(PermissionDenied))]"
    );
    let mut sender = session(&["/a/x"]);
    sender.step(SendEvent::Begin, false);
    sender.step(SendEvent::Examined(Ok(FILE)), false);
    sender.step(SendEvent::Opened, false);
    assert_eq!(
        shown(&sender.step(SendEvent::ReadFailed(IoErrorKind::TimedOut), false)),
        "[Finish(Err(IoError(TimedOut)))]"
    );
    let mut sender = session(&["/a/x"]);
    sender.step(SendEvent::Begin, false);
    sender.step(SendEvent::Examined(Ok(FILE)), false);
    sender.step(SendEvent::Opened, false);
    sender.step(SendEvent::Read(vec![1]), false);
    assert_eq!(
        shown(&sender.step(SendEvent::Refused, false)),
        "[Finish(Err(ConnectionLost))]"
    );
}

#[test]
fn failures_below_a_directory_end_the_transfer() {
    let walking = || {
        let mut sender = session(&["/a/d"]);
        sender.step(SendEvent::Begin, false);
        sender.step(SendEvent::Examined(Ok(EntryMetadata::Directory)), false);
        sender.step(sent(), false);
        sender
    };
    assert_eq!(
        shown(&walking().step(SendEvent::EntryFailed, false)),
        "[Finish(Err(FailedToProcessFiles))]"
    );
    assert_eq!(shown(&walking().step(SendEvent::EntryFailed, true)), "[Finish(Ok(false))]");
    let unreadable = SendEvent::Entry {
        path: "/a/d/e".to_string(),
        metadata: Err(IoErrorKind::PermissionDenied),
    };
    assert_eq!(
        shown(&walking().step(unreadable, false)),
        "[Finish(Err(PermissionDenied))]"
    );
    assert_eq!(shown(&walking().step(entry("/a/d/e", FILE), true)), "[Finish(Ok(false))]");
    let mut sender = session(&["/a/d"]);
    sender.step(SendEvent::Begin, false);
    sender.step(SendEvent::Examined(Ok(EntryMetadata::Directory)), false);
    assert_eq!(
        shown(&sender.step(SendEvent::Refused, false)),
        "[Finish(Err(ConnectionLost))]"
    );
}

#[test]
fn file_that_is_cut_off_is_cancelled() {
    let sending = |sources: &[&str]| {
        let mut sender = session(sources);
        sender.step(SendEvent::Begin, false);
        sender.step(SendEvent::Examined(Ok(FILE)), false);
        sender
    };
    assert_eq!(
        shown(&sending(&["/a/x"]).step(SendEvent::Opened, true)),
        "[Finish(Ok(false))]"
    );
    for sources in [&["/a/x"][..], &["/a/x", "/a/y"][..]] {
        let mut sender = sending(sources);
        sender.step(SendEvent::Opened, false);
        sender.step(SendEvent::Read(vec![1]), false);
        assert_eq!(
            shown(&sender.step(sent(), true)),
            "[Update(Progress { bytes: 1, bytes_per_second: 100 }), Finish(Ok(false))]"
        );
    }
}

#[test]
fn file_below_a_directory_that_is_cut_off_is_cancelled() {
    let mut sender = session(&["/a/d"]);
    sender.step(SendEvent::Begin, false);
    sender.step(SendEvent::Examined(Ok(EntryMetadata::Directory)), false);
    sender.step(sent(), false);
    sender.step(entry("/a/d/x", FILE), false);
    sender.step(SendEvent::Opened, false);
    sender.step(SendEvent::Read(vec![1]), false);
    assert_eq!(
        shown(&sender.step(sent(), true)),
        "[Update(Progress { bytes: 1, bytes_per_second: 100 }), Finish(Ok(false))]"
    );
}

#[test]
fn file_that_was_read_to_its_end_is_completed() {
    let mut sender = session(&["/a/x"]);
    sender.step(SendEvent::Begin, false);
    sender.step(SendEvent::Examined(Ok(FILE)), false);
    sender.step(SendEvent::Opened, false);
    sender.step(SendEvent::Read(vec![1]), false);
    sender.step(sent(), false);
    assert_eq!(shown(&sender.step(SendEvent::Read(vec![]), true)), "[Finish(Ok(true))]");
    let mut sender = session(&["/a/x", "/a/y"]);
    sender.step(SendEvent::Begin, false);
    sender.step(SendEvent::Examined(Ok(FILE)), false);
    sender.step(SendEvent::Opened, false);
    assert_eq!(shown(&sender.step(SendEvent::Read(vec![]), true)), "[Finish(Ok(false))]");
}

#[test]
fn last_update_says_how_it_ended() {
    assert!(matches!(
        final_update(Ok(true), true),
        TransferUpdate::Finished(TransferState::Completed)
    ));
    assert!(matches!(
        final_update(Ok(true), false),
        TransferUpdate::Finished(TransferState::Completed)
    ));
    assert!(matches!(
        final_update(Ok(false), true),
        TransferUpdate::Finished(TransferState::Canceled)
    ));
    assert!(matches!(
        final_update(Ok(false), false),
        TransferUpdate::Finished(TransferState::Canceled)
    ));
    assert!(matches!(
        final_update(Err(TransferError::ConnectionLost), false),
        TransferUpdate::Finished(TransferState::Failed(TransferError::ConnectionLost))
    ));
    assert!(matches!(
        final_update(Err(TransferError::ConnectionLost), true),
        TransferUpdate::Finished(TransferState::Canceled)
    ));
}

#[test]
fn sent_file_arrives_whole() {
    let reads: [&[u8]; 3] = [b"first ", b"second ", b"third"];
    let mut sender = session(&["/from/x.bin"]);
    sender.step(SendEvent::Begin, false);
    sender.step(SendEvent::Examined(Ok(FILE)), false);
    sender.step(SendEvent::Opened, false);
    let mut receiver = ReceiveState::new();
    let mut created = vec![];
    let mut written: Vec<u8> = vec![];
    for read in reads {
        let chunk = piece(sender.step(SendEvent::Read(read.to_vec()), false));
        sender.step(sent(), false);
        let mut next = Some(ReceiveEvent::Chunk(chunk));
        while let Some(event) = next {
            next = None;
            for effect in receiver.step("/to", event) {
                match effect {
                    ReceiveEffect::CreateFile(path) => {
                        created.push(path);
                        next = Some(ReceiveEvent::FileCreated);
                    }
                    ReceiveEffect::Write(data) => {
                        written.extend(data);
                        next = Some(ReceiveEvent::Written { bytes_per_second: 1 });
                    }
                    _ => {}
                }
            }
        }
    }
    assert_eq!(created, vec!["/to/x.bin"]);
    assert_eq!(written, b"first second third".to_vec());
}

#[test]
fn pieces_of_an_entry_stay_together() {
    let mut sender = session(&["/a/d", "/a/last"]);
    let mut names = vec![];
    for event in [
        SendEvent::Begin,
        SendEvent::Examined(Ok(EntryMetadata::Directory)),
        sent(),
        entry("/a/d/one", FILE),
        SendEvent::Opened,
        SendEvent::Read(vec![1]),
        sent(),
        SendEvent::Read(vec![2]),
        sent(),
        SendEvent::Read(vec![]),
        entry("/a/d/two", FILE),
        SendEvent::Opened,
        SendEvent::Read(vec![3]),
        sent(),
        SendEvent::Read(vec![]),
        SendEvent::WalkEnded,
        SendEvent::Examined(Ok(FILE)),
        SendEvent::Opened,
        SendEvent::Read(vec![4]),
        sent(),
        SendEvent::Read(vec![]),
    ] {
        for effect in sender.step(event, false) {
            if let SendEffect::Send(chunk) = effect {
                names.push(chunk.relative_path);
            }
        }
    }
    assert_eq!(names, vec!["d", "d/one", "d/one", "d/two", "last"]);
}

#[test]
fn progress_adds_up_to_the_sent_bytes() {
    let mut sender = session(&["/a/d"]);
    let mut handed_on = 0;
    let mut counted = 0;
    for event in [
        SendEvent::Begin,
        SendEvent::Examined(Ok(EntryMetadata::Directory)),
        sent(),
        entry("/a/d/one", FILE),
        SendEvent::Opened,
        SendEvent::Read(vec![1, 2, 3]),
        sent(),
        SendEvent::Read(vec![4]),
        sent(),
        SendEvent::Read(vec![]),
        SendEvent::WalkEnded,
    ] {
        for effect in sender.step(event, false) {
            match effect {
                SendEffect::Send(chunk) => handed_on += chunk.chunk.len() as u64,
                SendEffect::Update(TransferUpdate::Progress { bytes, .. }) => counted += bytes,
                _ => {}
            }
        }
    }
    assert_eq!(handed_on, 4);
    assert_eq!(counted, 4);
}

#[test]
fn step_goes_by_the_given_paths() {
    let paths = |next_base: Option<&str>, relative: &str| SendPaths {
        next_base: next_base.map(|base| base.to_string()),
        relative: relative.to_string(),
    };
    let mut sender = session(&["x"]);
    assert_eq!(
        shown(&sender.step_at(SendEvent::Begin, false, paths(Some("B"), ""))),
        r#"[Examine("x")]"#
    );
    let top = sender.step_at(
        SendEvent::Examined(Ok(EntryMetadata::Directory)),
        false,
        paths(None, "R"),
    );
    assert_eq!(piece(top).relative_path, "R");
    sender.step_at(sent(), false, paths(None, ""));
    sender.step_at(entry("x/f", FILE), false, paths(None, "R/f"));
    sender.step_at(SendEvent::Opened, false, paths(None, ""));
    let data = sender.step_at(SendEvent::Read(vec![1]), false, paths(None, "other"));
    assert_eq!(piece(data).relative_path, "R/f");
    let mut sender = session(&["x"]);
    assert_eq!(
        shown(&sender.step_at(SendEvent::Begin, false, paths(None, ""))),
        "[Finish(Err(FailedToProcessFiles))]"
    );
}

#[test]
fn entries_that_were_told_go_out_in_order() {
    let mut sender = session(&["/a/d", "/b/last"]);
    let mut gone: Vec<(String, Vec<u8>)> = vec![];
    let mut finished = String::new();
    for event in [
        SendEvent::Begin,
        SendEvent::Examined(Ok(EntryMetadata::Directory)),
        sent(),
        entry("/a/d/empty", FILE),
        SendEvent::Opened,
        SendEvent::Read(vec![]),
        entry("/a/d/sub", EntryMetadata::Directory),
        sent(),
        entry("/a/d/sub/full", FILE),
        SendEvent::Opened,
        SendEvent::Read(vec![1, 2]),
        sent(),
        SendEvent::Read(vec![3]),
        sent(),
        SendEvent::Read(vec![]),
        SendEvent::WalkEnded,
        SendEvent::Examined(Ok(FILE)),
        SendEvent::Opened,
        SendEvent::Read(vec![4]),
        sent(),
        SendEvent::Read(vec![]),
    ] {
        for effect in sender.step(event, false) {
            match effect {
                SendEffect::Send(chunk) => match gone.last_mut() {
                    Some(last) if last.0 == chunk.relative_path => last.1.extend(chunk.chunk),
                    _ => gone.push((chunk.relative_path, chunk.chunk)),
                },
                SendEffect::Finish(result) => finished = format!("{:?}", result),
                _ => {}
            }
        }
    }
    assert_eq!(finished, "Ok(true)");
    assert_eq!(
        gone,
        vec![
            ("d".to_string(), vec![]),
            ("d/sub".to_string(), vec![]),
            ("d/sub/full".to_string(), vec![1, 2, 3]),
            ("last".to_string(), vec![4]),
        ]
    );
}
