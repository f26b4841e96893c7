use warpinator_lib::proto::{OpInfo, Status, StatusCode, TransferOpRequest};
use warpinator_lib::types::transfer::{
    probes_fit, EntryProbe, IoErrorKind, PathProbe, SourcePathError, Transfer, TransferError, TransferKind,
    TransferState, TransferUpdate,
};

fn outgoing(paths: &[&str]) -> Transfer {
    Transfer::outgoing_at("t".to_string(), 77, "r".to_string(), texts(paths))
}

fn texts(items: &[&str]) -> Vec<String> {
    items.iter().map(|item| item.to_string()).collect()
}

fn offer(count: u64, name: &str, mime: &str) -> TransferOpRequest {
    TransferOpRequest {
        info: Some(OpInfo {
            ident: "sender".to_string(),
            timestamp: 123,
            readable_name: "name".to_string(),
            use_compression: true,
        }),
        sender_name: "s".to_string(),
        receiver_name: "n".to_string(),
        receiver: "me".to_string(),
        size: 4096,
        count,
        name_if_single: name.to_string(),
        mime_if_single: mime.to_string(),
        top_dir_basenames: texts(&["a", "b"]),
    }
}

#[test]
fn io_errors_become_transfer_errors() {
    assert!(matches!(TransferError::from(IoErrorKind::NotFound), TransferError::FilesNotFound));
    assert!(matches!(
        TransferError::from(IoErrorKind::PermissionDenied),
        TransferError::PermissionDenied
    ));
    assert!(matches!(
        TransferError::from(IoErrorKind::ReadOnlyFilesystem),
        TransferError::PermissionDenied
    ));
    assert!(matches!(TransferError::from(IoErrorKind::StorageFull), TransferError::StorageFull));
    assert!(matches!(TransferError::from(IoErrorKind::FileTooLarge), TransferError::FileTooLarge));
    assert!(matches!(
        TransferError::from(IoErrorKind::InvalidFilename),
        TransferError::InvalidFilename
    ));
    assert!(matches!(TransferError::from(IoErrorKind::OutOfMemory), TransferError::OutOfMemory));
    assert!(matches!(
        TransferError::from(IoErrorKind::BrokenPipe),
        TransferError::IoError(IoErrorKind::BrokenPipe)
    ));
    assert!(matches!(
        TransferError::from(IoErrorKind::QuotaExceeded),
        TransferError::IoError(IoErrorKind::QuotaExceeded)
    ));
    assert!(matches!(
        TransferError::from(IoErrorKind::Other),
        TransferError::IoError(IoErrorKind::Other)
    ));
}

#[test]
fn new_outgoing_transfer_is_initializing() {
    let before = chrono::Utc::now().timestamp_millis() as u64;
    let transfer = Transfer::new_outgoing("r".to_string(), texts(&["/home/u/a.txt"]));
    assert_eq!(transfer.uuid.len(), 36);
    assert_eq!(transfer.uuid.as_bytes()[14], b'4');
    assert_eq!(transfer.remote_uuid, "r");
    assert!(matches!(transfer.state, TransferState::Initializing));
    assert!(before <= transfer.timestamp);
    assert_eq!(transfer.total_bytes, 0);
    assert_eq!(transfer.bytes_transferred, 0);
    assert_eq!(transfer.bytes_per_second, 0);
    assert_eq!(transfer.file_count, 0);
    assert!(transfer.entry_names.is_empty());
    assert_eq!(transfer.single_name, None);
    assert_eq!(transfer.single_mime_type, None);
    assert!(matches!(
        &transfer.kind,
        TransferKind::Outgoing { source_paths } if *source_paths == texts(&["/home/u/a.txt"])
    ));
}

#[test]
fn single_file_is_described_by_name_and_type() {
    let paths = texts(&["/home/u/notes.txt"]);
    let mut transfer = outgoing(&["/home/u/notes.txt"]);
    assert!(transfer.process_paths(&paths, &vec![PathProbe::File(1234)]).is_ok());
    assert_eq!(transfer.single_name.as_deref(), Some("notes.txt"));
    assert_eq!(transfer.single_mime_type.as_deref(), Some("text/plain"));
    assert_eq!(transfer.total_bytes, 1234);
    assert_eq!(transfer.file_count, 1);
    assert_eq!(transfer.entry_names, texts(&["notes.txt"]));
}

#[test]
fn file_without_an_extension_is_arbitrary_bytes() {
    let paths = texts(&["/home/u/README"]);
    let mut transfer = outgoing(&["/home/u/README"]);
    assert!(transfer.process_paths(&paths, &vec![PathProbe::File(0)]).is_ok());
    assert_eq!(transfer.single_name.as_deref(), Some("README"));
    assert_eq!(transfer.single_mime_type.as_deref(), Some("application/octet-stream"));
    assert_eq!(transfer.total_bytes, 0);
    assert_eq!(transfer.file_count, 1);
}

#[test]
fn single_file_without_a_name_is_refused() {
    let paths = texts(&["/home/u/.."]);
    let mut transfer = outgoing(&["/home/u/.."]);
    let before = format!("{:?}", transfer);
    let result = transfer.process_paths(&paths, &vec![PathProbe::File(1)]);
    assert!(matches!(
        result,
        Err(SourcePathError::UnsupportedPathType(path)) if path == "/home/u/.."
    ));
    assert_eq!(format!("{:?}", transfer), before);
}

#[test]
fn several_paths_are_added_up() {
    let paths = texts(&["/a/one.txt", "/a/dir", "/", "/a/pipe"]);
    let probes = vec![
        PathProbe::File(10),
        PathProbe::Directory(vec![
            EntryProbe::File(5),
            EntryProbe::Other,
            EntryProbe::Unreadable,
            EntryProbe::File(7),
        ]),
        PathProbe::Directory(vec![]),
        PathProbe::Other,
    ];
    let mut transfer = outgoing(&["/a/one.txt", "/a/dir", "/", "/a/pipe"]);
    assert!(transfer.process_paths(&paths, &probes).is_ok());
    assert_eq!(transfer.total_bytes, 22);
    assert_eq!(transfer.file_count, 3);
    assert_eq!(transfer.entry_names, texts(&["one.txt", "dir", "pipe"]));
    assert_eq!(transfer.single_name, None);
    assert_eq!(transfer.single_mime_type, None);
}

#[test]
fn single_directory_has_no_single_name() {
    let paths = texts(&["/a/dir"]);
    let mut transfer = outgoing(&["/a/dir"]);
    let probes = vec![PathProbe::Directory(vec![EntryProbe::File(9)])];
    assert!(transfer.process_paths(&paths, &probes).is_ok());
    assert_eq!(transfer.single_name, None);
    assert_eq!(transfer.total_bytes, 9);
    assert_eq!(transfer.file_count, 1);
    assert_eq!(transfer.entry_names, texts(&["dir"]));
}

#[test]
fn nothing_to_send_is_described_as_nothing() {
    let mut transfer = outgoing(&[]);
    assert!(transfer.process_paths(&vec![], &vec![]).is_ok());
    assert_eq!(transfer.total_bytes, 0);
    assert_eq!(transfer.file_count, 0);
    assert!(transfer.entry_names.is_empty());
}

#[test]
fn failed_probe_changes_nothing() {
    let paths = texts(&["/a/one", "/a/two", "/a/three"]);
    let mut transfer = outgoing(&["/a/one", "/a/two", "/a/three"]);
    let before = format!("{:?}", transfer);
    let probes = vec![PathProbe::File(1), PathProbe::Failed(IoErrorKind::PermissionDenied)];
    assert!(matches!(
        transfer.process_paths(&paths, &probes),
        Err(SourcePathError::IoError(IoErrorKind::PermissionDenied))
    ));
    assert_eq!(format!("{:?}", transfer), before);
    let single = texts(&["/a/one"]);
    assert!(matches!(
        transfer.process_paths(&single, &vec![PathProbe::Failed(IoErrorKind::NotFound)]),
        Err(SourcePathError::IoError(IoErrorKind::NotFound))
    ));
}

#[test]
fn describing_leaves_the_rest_alone() {
    let paths = texts(&["/a/x.png"]);
    let mut transfer = outgoing(&["/a/x.png"]);
    assert!(transfer.process_paths(&paths, &vec![PathProbe::File(3)]).is_ok());
    assert_eq!(transfer.uuid, "t");
    assert_eq!(transfer.remote_uuid, "r");
    assert_eq!(transfer.timestamp, 77);
    assert!(matches!(transfer.state, TransferState::Initializing));
    assert_eq!(transfer.bytes_transferred, 0);
    assert!(matches!(transfer.kind, TransferKind::Outgoing { .. }));
    assert_eq!(transfer.single_mime_type.as_deref(), Some("image/png"));
}

#[test]
fn offer_carries_the_description() {
    let paths = texts(&["/a/x.png"]);
    let mut transfer = outgoing(&["/a/x.png"]);
    assert!(transfer.process_paths(&paths, &vec![PathProbe::File(3)]).is_ok());
    let request = transfer.as_proto("service");
    let info = request.info.as_ref().unwrap();
    assert_eq!(info.ident, "service");
    assert_eq!(info.timestamp, 77);
    assert_eq!(info.readable_name, "");
    assert!(!info.use_compression);
    assert_eq!(request.sender_name, "");
    assert_eq!(request.receiver_name, "");
    assert_eq!(request.receiver, "service");
    assert_eq!(request.size, 3);
    assert_eq!(request.count, 1);
    assert_eq!(request.name_if_single, "x.png");
    assert_eq!(request.mime_if_single, "image/png");
    assert_eq!(request.top_dir_basenames, texts(&["x.png"]));
}

#[test]
fn offer_without_a_single_file_leaves_its_name_empty() {
    let request = outgoing(&["/a", "/b"]).as_proto("service");
    assert_eq!(request.name_if_single, "");
    assert_eq!(request.mime_if_single, "");
}

#[test]
fn offer_is_recorded_as_an_incoming_transfer() {
    let transfer = Transfer::incoming_at("u".to_string(), 9, offer(1, "a.txt", "text/plain"));
    assert_eq!(transfer.uuid, "u");
    assert_eq!(transfer.timestamp, 9);
    assert_eq!(transfer.remote_uuid, "sender");
    assert!(matches!(transfer.state, TransferState::WaitingPermission));
    assert_eq!(transfer.total_bytes, 4096);
    assert_eq!(transfer.bytes_transferred, 0);
    assert_eq!(transfer.bytes_per_second, 0);
    assert_eq!(transfer.file_count, 1);
    assert_eq!(transfer.entry_names, texts(&["a", "b"]));
    assert_eq!(transfer.single_name.as_deref(), Some("a.txt"));
    assert_eq!(transfer.single_mime_type.as_deref(), Some("text/plain"));
    assert!(matches!(
        &transfer.kind,
        TransferKind::Incoming { destination, remote_timestamp: 123 } if destination == "/"
    ));
}

#[test]
fn name_counts_only_for_a_single_file() {
    let several = Transfer::from(offer(2, "a.txt", "text/plain"));
    assert_eq!(several.single_name, None);
    assert_eq!(several.single_mime_type, None);
    let nameless = Transfer::from(offer(1, "", ""));
    assert_eq!(nameless.single_name, None);
    assert_eq!(nameless.single_mime_type, None);
    let none = Transfer::from(offer(0, "a.txt", "text/plain"));
    assert_eq!(none.single_name, None);
}

#[test]
fn recorded_offers_get_identifiers_of_their_own() {
    let before = chrono::Utc::now().timestamp_millis() as u64;
    let first = Transfer::from(offer(1, "a", "b"));
    let second = Transfer::from(offer(1, "a", "b"));
    assert_eq!(first.uuid.len(), 36);
    assert_ne!(first.uuid, second.uuid);
    assert!(before <= first.timestamp);
}

#[test]
fn what_is_offered_is_recorded() {
    let paths = texts(&["/a/x.png"]);
    let mut offered = outgoing(&["/a/x.png"]);
    assert!(offered.process_paths(&paths, &vec![PathProbe::File(300)]).is_ok());
    let recorded = Transfer::from(offered.as_proto("service"));
    assert_eq!(recorded.remote_uuid, "service");
    assert_eq!(recorded.total_bytes, 300);
    assert_eq!(recorded.file_count, 1);
    assert_eq!(recorded.entry_names, offered.entry_names);
    assert_eq!(recorded.single_name, offered.single_name);
    assert_eq!(recorded.single_mime_type, offered.single_mime_type);
    assert!(matches!(recorded.kind, TransferKind::Incoming { remote_timestamp: 77, .. }));
}

#[test]
fn updates_change_what_they_name() {
    let mut transfer = Transfer::incoming_at("u".to_string(), 9, offer(1, "a", "b"));
    transfer.apply(TransferUpdate::Accepted {
        destination: "/home/u".to_string(),
        remote_timestamp: 123,
    });
    assert!(matches!(transfer.state, TransferState::InProgress));
    assert!(matches!(
        &transfer.kind,
        TransferKind::Incoming { destination, remote_timestamp: 123 } if destination == "/home/u"
    ));
    transfer.apply(TransferUpdate::Progress { bytes: 100, bytes_per_second: 7 });
    transfer.apply(TransferUpdate::Progress { bytes: 50, bytes_per_second: 8 });
    assert_eq!(transfer.bytes_transferred, 150);
    assert_eq!(transfer.bytes_per_second, 8);
    transfer.apply(TransferUpdate::State(TransferState::Stopped));
    assert!(matches!(transfer.state, TransferState::Stopped));
    assert_eq!(transfer.bytes_per_second, 8);
    transfer.apply(TransferUpdate::Finished(TransferState::Completed));
    assert!(matches!(transfer.state, TransferState::Completed));
    assert_eq!(transfer.bytes_per_second, 0);
    assert_eq!(transfer.bytes_transferred, 150);
}

#[test]
fn sums_that_do_not_fit_are_told_in_advance() {
    assert!(probes_fit(&vec![]));
    assert!(probes_fit(&vec![PathProbe::File(u64::MAX), PathProbe::Other]));
    assert!(!probes_fit(&vec![PathProbe::File(u64::MAX), PathProbe::File(1)]));
    assert!(!probes_fit(&vec![PathProbe::Directory(vec![
        EntryProbe::File(u64::MAX),
        EntryProbe::Unreadable,
        EntryProbe::File(1),
    ])]));
    assert!(probes_fit(&vec![PathProbe::Directory(vec![EntryProbe::File(4), EntryProbe::Other])]));
    let mut transfer = outgoing(&["/a"]);
    transfer.apply(TransferUpdate::Progress { bytes: u64::MAX - 1, bytes_per_second: 0 });
    let more = |bytes| TransferUpdate::Progress { bytes, bytes_per_second: 0 };
    assert!(more(1).can_apply(&transfer));
    assert!(!more(2).can_apply(&transfer));
    assert!(TransferUpdate::State(TransferState::Paused).can_apply(&transfer));
}

#[test]
fn offered_update_describes_and_waits() {
    let mut transfer = outgoing(&["/a"]);
    transfer.apply(TransferUpdate::Offered {
        total_bytes: 5,
        file_count: 2,
        entry_names: texts(&["a"]),
        single_name: None,
        single_mime_type: None,
    });
    assert!(matches!(transfer.state, TransferState::WaitingPermission));
    assert_eq!(transfer.total_bytes, 5);
    assert_eq!(transfer.file_count, 2);
    assert_eq!(transfer.entry_names, texts(&["a"]));
}

#[test]
fn copied_transfer_is_the_same() {
    let mut transfer = Transfer::from(offer(1, "a", "b"));
    for state in [
        TransferState::Initializing,
        TransferState::WaitingPermission,
        TransferState::InProgress,
        TransferState::Paused,
        TransferState::Completed,
        TransferState::Stopped,
        TransferState::Canceled,
        TransferState::Denied,
        TransferState::Failed(TransferError::ConnectionLost),
        TransferState::Failed(TransferError::StorageFull),
        TransferState::Failed(TransferError::FailedToProcessFiles),
        TransferState::Failed(TransferError::FailedToStartTransfer(Status {
            code: StatusCode::Unavailable,
            message: "gone".to_string(),
        })),
        TransferState::Failed(TransferError::UnsafePath),
        TransferState::Failed(TransferError::FilesNotFound),
        TransferState::Failed(TransferError::PermissionDenied),
        TransferState::Failed(TransferError::FileTooLarge),
        TransferState::Failed(TransferError::InvalidFilename),
        TransferState::Failed(TransferError::OutOfMemory),
        TransferState::Failed(TransferError::IoError(IoErrorKind::TimedOut)),
    ] {
        transfer.apply(TransferUpdate::State(state));
        assert_eq!(format!("{:?}", transfer.clone()), format!("{:?}", transfer));
    }
    let other = outgoing(&["/a", "/b"]);
    assert_eq!(format!("{:?}", other.clone()), format!("{:?}", other));
}

#[test]
fn given_names_and_type_describe_the_transfer() {
    let paths = texts(&["/a/x"]);
    let mut transfer = outgoing(&["/a/x"]);
    let names = vec![Some("given".to_string())];
    let probes = vec![PathProbe::File(3)];
    assert!(transfer.describe(&paths, &names, "some/type".to_string(), &probes).is_ok());
    assert_eq!(transfer.single_name.as_deref(), Some("given"));
    assert_eq!(transfer.single_mime_type.as_deref(), Some("some/type"));
    assert_eq!(transfer.entry_names, texts(&["given"]));
    assert!(matches!(
        transfer.describe(&paths, &vec![None], String::new(), &probes),
        Err(SourcePathError::UnsupportedPathType(path)) if path == "/a/x"
    ));
    let paths = texts(&["/a/x", "/", "/b/y"]);
    let names = vec![Some("x".to_string()), None, Some("y".to_string())];
    let probes = vec![PathProbe::File(1), PathProbe::Other, PathProbe::File(2)];
    assert!(transfer.describe(&paths, &names, String::new(), &probes).is_ok());
    assert_eq!(transfer.entry_names, texts(&["x", "y"]));
    assert_eq!(transfer.total_bytes, 3);
    assert_eq!(transfer.file_count, 2);
    assert_eq!(transfer.single_mime_type, None);
}

#[test]
fn errors_of_a_transfer_have_words() {
    let status = Status { code: StatusCode::Unavailable, message: "gone".to_string() };
    for (error, words) in [
        (TransferError::ConnectionLost, "Connection to remote was lost"),
        (TransferError::StorageFull, "Not enough storage space"),
        (TransferError::FailedToProcessFiles, "Failed to process source files"),
        (TransferError::FailedToStartTransfer(status), "Failed to start transfer: why"),
        (TransferError::UnsafePath, "Received an unsafe file path from remote"),
        (TransferError::FilesNotFound, "Source files not found"),
        (TransferError::PermissionDenied, "Permission denied writing to destination"),
        (TransferError::FileTooLarge, "File too large for destination filesystem"),
        (TransferError::InvalidFilename, "Filename is invalid for the destination filesystem"),
        (TransferError::OutOfMemory, "Out of memory"),
        (TransferError::IoError(IoErrorKind::TimedOut), "IO error during transfer: why"),
    ] {
        assert_eq!(error.message("why"), words);
    }
    assert_eq!(
        SourcePathError::IoError(IoErrorKind::NotFound).message("why"),
        "IO error while processing source paths: why"
    );
    assert_eq!(
        SourcePathError::UnsupportedPathType("/x".to_string()).message("why"),
        "Unsupported path type: /x"
    );
}
