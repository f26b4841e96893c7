use std::collections::BTreeMap;
use warpinator_lib::proto::{
    FileChunk, FILE_TYPE_DIRECTORY, FILE_TYPE_FILE, FILE_TYPE_SYMLINK,
};
use warpinator_lib::server::transfer_receiver::{
    place_chunk, sanitize_path_component, ChunkPlace, MovingAverage, ReceiveEffect, ReceiveEvent, ReceiveState,
    SPEED_WINDOW,
};
use warpinator_lib::types::transfer::IoErrorKind;

fn piece(path: &str, file_type: i32, data: &[u8]) -> ReceiveEvent {
    ReceiveEvent::Chunk(FileChunk {
        relative_path: path.to_string(),
        file_type,
        symlink_target: String::new(),
        chunk: data.to_vec(),
        file_mode: 420,
        time: None,
    })
}

fn file(path: &str, data: &[u8]) -> ReceiveEvent {
    piece(path, FILE_TYPE_FILE, data)
}

fn shown(effects: &[ReceiveEffect]) -> String {
    format!("{:?}", effects)
}

/// Performs on a map what a receiver asks for, until it waits for the next piece or stops.
fn deliver(
    receiver: &mut ReceiveState,
    files: &mut BTreeMap<String, Vec<u8>>,
    open: &mut Option<String>,
    event: ReceiveEvent,
) -> String {
    let mut updates = String::new();
    let mut next = Some(event);
    while let Some(event) = next {
        next = None;
        for effect in receiver.step("/dest", event) {
            match effect {
                ReceiveEffect::CloseFile => *open = None,
                ReceiveEffect::CreateFile(path) => {
                    files.insert(path.clone(), vec![]);
                    *open = Some(path);
                    next = Some(ReceiveEvent::FileCreated);
                }
                ReceiveEffect::Write(data) => {
                    files.get_mut(open.as_ref().unwrap()).unwrap().extend(data);
                    next = Some(ReceiveEvent::Written { bytes_per_second: 100 });
                }
                ReceiveEffect::Update(update) => updates = format!("{}{:?};", updates, update),
                ReceiveEffect::CreateDirectory(_)
                | ReceiveEffect::NextMessage
                | ReceiveEffect::Stop => {}
            }
        }
    }
    updates
}

#[test]
fn average_of_the_first_samples() {
    let mut average = MovingAverage::new(3);
    assert_eq!(average.push(10), 10);
    assert_eq!(average.push(20), 15);
    assert_eq!(average.push(31), 20);
}

#[test]
fn oldest_sample_leaves_a_full_window() {
    let mut average = MovingAverage::new(3);
    for value in [1, 2, 3] {
        average.push(value);
    }
    assert_eq!(average.push(100), 35);
    assert_eq!(average.push(100), 67);
    assert_eq!(average.push(100), 100);
}

#[test]
fn window_of_nothing_keeps_every_sample() {
    let mut average = MovingAverage::new(0);
    assert_eq!(average.push(4), 4);
    assert_eq!(average.push(8), 6);
    assert_eq!(average.push(12), 8);
}

#[test]
fn sample_that_does_not_fit_is_told_in_advance() {
    let mut average = MovingAverage::new(2);
    assert!(average.can_take(u64::MAX));
    average.push(u64::MAX - 5);
    assert!(average.can_take(5));
    assert!(!average.can_take(6));
    assert_eq!(average.push(5), u64::MAX / 2);
    assert!(average.can_take(u64::MAX - 5));
    assert!(!average.can_take(u64::MAX - 4));
    let mut receiver = ReceiveState::new();
    receiver.step("/dest", file("a", b"1"));
    receiver.step("/dest", ReceiveEvent::FileCreated);
    assert!(receiver.can_count(u64::MAX));
    receiver.step("/dest", ReceiveEvent::Written { bytes_per_second: u64::MAX });
    assert!(!receiver.can_count(1));
    assert!(receiver.can_count(0));
}

#[test]
fn average_lies_between_the_samples() {
    let mut average = MovingAverage::new(SPEED_WINDOW);
    for value in 0..100u64 {
        let sample = 50 + value % 7;
        let now = average.push(sample);
        assert!((50..=56).contains(&now));
    }
}

#[test]
fn forbidden_characters_are_replaced() {
    assert_eq!(sanitize_path_component(r#"\<>*|?:""#), "________");
    assert_eq!(sanitize_path_component("a/b.c"), "a/b.c");
    assert_eq!(sanitize_path_component("a:b"), "a_b");
    assert_eq!(sanitize_path_component(""), "");
    assert_eq!(sanitize_path_component("ü?"), "ü_");
}

#[test]
fn sanitizing_twice_changes_nothing_more() {
    let once = sanitize_path_component(r"C:\x*y");
    assert_eq!(once, "C__x_y");
    assert_eq!(sanitize_path_component(&once), once);
}

#[test]
fn first_piece_of_a_file_creates_it() {
    let mut receiver = ReceiveState::new();
    assert_eq!(
        shown(&receiver.step("/dest", file("dir/a.txt", b"hi"))),
        r#"[CreateDirectory("/dest/dir"), CreateFile("/dest/dir/a.txt")]"#
    );
    assert_eq!(shown(&receiver.step("/dest", ReceiveEvent::FileCreated)), "[Write([104, 105])]");
    assert_eq!(
        shown(&receiver.step("/dest", ReceiveEvent::Written { bytes_per_second: 7 })),
        "[Update(Progress { bytes: 2, bytes_per_second: 7 }), NextMessage]"
    );
}

#[test]
fn later_pieces_go_to_the_open_file() {
    let mut receiver = ReceiveState::new();
    receiver.step("/dest", file("a", b"1"));
    receiver.step("/dest", ReceiveEvent::FileCreated);
    receiver.step("/dest", ReceiveEvent::Written { bytes_per_second: 10 });
    assert_eq!(shown(&receiver.step("/dest", file("a", b"23"))), "[Write([50, 51])]");
    assert_eq!(
        shown(&receiver.step("/dest", ReceiveEvent::Written { bytes_per_second: 20 })),
        "[Update(Progress { bytes: 2, bytes_per_second: 15 }), NextMessage]"
    );
}

#[test]
fn next_file_closes_the_one_before() {
    let mut receiver = ReceiveState::new();
    receiver.step("/dest", file("a", b"1"));
    receiver.step("/dest", ReceiveEvent::FileCreated);
    receiver.step("/dest", ReceiveEvent::Written { bytes_per_second: 10 });
    assert_eq!(
        shown(&receiver.step("/dest", file("b", b"2"))),
        r#"[CloseFile, CreateDirectory("/dest"), CreateFile("/dest/b")]"#
    );
}

#[test]
fn directory_is_created() {
    let mut receiver = ReceiveState::new();
    assert_eq!(
        shown(&receiver.step("/dest", piece("d", FILE_TYPE_DIRECTORY, b""))),
        r#"[CreateDirectory("/dest/d"), NextMessage]"#
    );
    assert_eq!(
        shown(&receiver.step("/dest", piece("d", FILE_TYPE_DIRECTORY, b""))),
        "[NextMessage]"
    );
}

#[test]
fn links_are_skipped() {
    let mut receiver = ReceiveState::new();
    assert_eq!(
        shown(&receiver.step("/dest", piece("../../x", FILE_TYPE_SYMLINK, b""))),
        "[NextMessage]"
    );
}

#[test]
fn path_is_sanitized_before_it_is_joined() {
    let mut receiver = ReceiveState::new();
    assert_eq!(
        shown(&receiver.step("/dest", file(r"..\a:b", b""))),
        r#"[CreateDirectory("/dest"), CreateFile("/dest/.._a_b")]"#
    );
}

#[test]
fn path_that_leads_out_of_the_destination_is_refused() {
    for path in [
        "../x",
        "..",
        "a/../../x",
        "/etc/x",
        "/etc/../x",
        "/other/x",
        "/",
        "./../x",
        "/dest/../x",
        "/destx",
        "../destx",
    ] {
        for file_type in [FILE_TYPE_FILE, FILE_TYPE_DIRECTORY] {
            let mut receiver = ReceiveState::new();
            assert_eq!(
                shown(&receiver.step("/dest", piece(path, file_type, b"1"))),
                "[Update(State(Failed(UnsafePath))), Stop]",
                "{path}"
            );
        }
    }
}

#[test]
fn path_that_leads_into_the_destination_is_accepted() {
    let mut receiver = ReceiveState::new();
    assert_eq!(
        shown(&receiver.step("/dest", file("/dest/x", b"1"))),
        r#"[CreateDirectory("/dest"), CreateFile("/dest/x")]"#
    );
    let mut receiver = ReceiveState::new();
    assert_eq!(
        shown(&receiver.step("/dest", file("../dest/x", b"1"))),
        r#"[CreateDirectory("/dest/../dest"), CreateFile("/dest/../dest/x")]"#
    );
}

#[test]
fn upward_path_beside_the_destination_is_refused() {
    let mut receiver = ReceiveState::new();
    assert_eq!(
        shown(&receiver.step("/dest", file("/etc/../dest/x", b"1"))),
        "[Update(State(Failed(UnsafePath))), Stop]"
    );
}

#[test]
fn nothing_is_written_for_a_refused_path() {
    let mut receiver = ReceiveState::new();
    let mut files = BTreeMap::new();
    let mut open = None;
    deliver(&mut receiver, &mut files, &mut open, file("a", b"1"));
    let updates = deliver(&mut receiver, &mut files, &mut open, file("../b", b"2"));
    assert_eq!(updates, "State(Failed(UnsafePath));");
    assert_eq!(files.len(), 1);
    assert_eq!(files["/dest/a"], b"1".to_vec());
}

#[test]
fn path_that_stays_in_the_destination_is_accepted() {
    let mut receiver = ReceiveState::new();
    assert_eq!(
        shown(&receiver.step("/dest", file("a/../b", b"1"))),
        r#"[CreateDirectory("/dest/a/.."), CreateFile("/dest/a/../b")]"#
    );
    let mut receiver = ReceiveState::new();
    assert_eq!(
        shown(&receiver.step("/dest", file("v1..2.txt", b"1"))),
        r#"[CreateDirectory("/dest"), CreateFile("/dest/v1..2.txt")]"#
    );
}

#[test]
fn cancelling_closes_the_file() {
    let mut receiver = ReceiveState::new();
    assert_eq!(
        shown(&receiver.step("/dest", ReceiveEvent::Cancelled)),
        "[Update(State(Canceled)), Stop]"
    );
    let mut receiver = ReceiveState::new();
    receiver.step("/dest", file("a", b"1"));
    receiver.step("/dest", ReceiveEvent::FileCreated);
    receiver.step("/dest", ReceiveEvent::Written { bytes_per_second: 10 });
    assert_eq!(
        shown(&receiver.step("/dest", ReceiveEvent::Cancelled)),
        "[CloseFile, Update(State(Canceled)), Stop]"
    );
}

#[test]
fn end_of_stream_completes() {
    let mut receiver = ReceiveState::new();
    assert_eq!(
        shown(&receiver.step("/dest", ReceiveEvent::EndOfStream)),
        "[Update(Finished(Completed)), Stop]"
    );
}

#[test]
fn broken_stream_fails() {
    let mut receiver = ReceiveState::new();
    assert_eq!(
        shown(&receiver.step("/dest", ReceiveEvent::StreamFailed)),
        "[Update(State(Failed(ConnectionLost))), Stop]"
    );
}

#[test]
fn file_that_cannot_be_created_fails() {
    let mut receiver = ReceiveState::new();
    receiver.step("/dest", file("a", b"1"));
    assert_eq!(
        shown(&receiver.step("/dest", ReceiveEvent::FileNotCreated(IoErrorKind::StorageFull))),
        "[Update(State(Failed(StorageFull))), Stop]"
    );
    let mut receiver = ReceiveState::new();
    receiver.step("/dest", file("a", b"1"));
    assert_eq!(
        shown(&receiver.step("/dest", ReceiveEvent::FileNotCreated(IoErrorKind::NotFound))),
        "[Update(State(Failed(IoError(NotFound)))), Stop]"
    );
}

#[test]
fn failed_write_means_no_space() {
    let mut receiver = ReceiveState::new();
    receiver.step("/dest", file("a", b"1"));
    receiver.step("/dest", ReceiveEvent::FileCreated);
    assert_eq!(
        shown(&receiver.step("/dest", ReceiveEvent::WriteFailed)),
        "[Update(State(Failed(StorageFull))), Stop]"
    );
}

#[test]
fn received_pieces_make_up_the_files() {
    let mut receiver = ReceiveState::new();
    let mut files = BTreeMap::new();
    let mut open = None;
    for event in [
        piece("d", FILE_TYPE_DIRECTORY, b""),
        file("d/a", b"one "),
        file("d/a", b"two "),
        file("d/a", b"three"),
        piece("d/link", FILE_TYPE_SYMLINK, b""),
        file("d/b?", b"four"),
    ] {
        deliver(&mut receiver, &mut files, &mut open, event);
    }
    let updates = deliver(&mut receiver, &mut files, &mut open, ReceiveEvent::EndOfStream);
    assert_eq!(updates, "Finished(Completed);");
    assert_eq!(open, None);
    assert_eq!(files.len(), 2);
    assert_eq!(files["/dest/d/a"], b"one two three".to_vec());
    assert_eq!(files["/dest/d/b_"], b"four".to_vec());
}

#[test]
fn progress_adds_up_to_the_written_bytes() {
    let mut receiver = ReceiveState::new();
    let mut files = BTreeMap::new();
    let mut open = None;
    let mut updates = String::new();
    for event in [
        file("a", b"12345"),
        piece("d", FILE_TYPE_DIRECTORY, b"ignored"),
        file("b", b""),
        file("b", b"67"),
    ] {
        updates += &deliver(&mut receiver, &mut files, &mut open, event);
    }
    let counted: usize = updates
        .split(';')
        .filter(|update| !update.is_empty())
        .map(|update| {
            let start = update.find("bytes: ").unwrap() + 7;
            let end = start + update[start..].find(',').unwrap();
            update[start..end].parse::<usize>().unwrap()
        })
        .sum();
    let written: usize = files.values().map(|data| data.len()).sum();
    assert_eq!(counted, 7);
    assert_eq!(written, 7);
}

#[test]
fn place_of_a_piece() {
    let place = place_chunk("/dest", "d/a?b");
    assert_eq!(place.name, "d/a_b");
    assert_eq!(place.target, "/dest/d/a_b");
    assert!(place.inside);
    assert!(!place.outward);
    assert_eq!(place.parent.as_deref(), Some("/dest/d"));
    let place = place_chunk("/dest", "/etc/../x");
    assert_eq!(place.target, "/etc/../x");
    assert!(!place.inside);
    assert!(place.outward);
    let place = place_chunk("/dest", "/");
    assert_eq!(place.parent, None);
}

#[test]
fn piece_goes_where_its_place_says() {
    let chunk = |data: &[u8]| FileChunk {
        relative_path: "ignored".to_string(),
        file_type: FILE_TYPE_FILE,
        symlink_target: String::new(),
        chunk: data.to_vec(),
        file_mode: 420,
        time: None,
    };
    let place = |name: &str, outward: bool, inside: bool, parent: Option<&str>| ChunkPlace {
        name: name.to_string(),
        target: "T".to_string(),
        outward,
        inside,
        parent: parent.map(|p| p.to_string()),
    };
    let mut receiver = ReceiveState::new();
    assert_eq!(
        shown(&receiver.receive_chunk(place("n", false, false, Some("P")), chunk(b"1"))),
        r#"[CreateDirectory("P"), CreateFile("T")]"#
    );
    let mut receiver = ReceiveState::new();
    assert_eq!(
        shown(&receiver.receive_chunk(place("a..b", false, true, None), chunk(b"1"))),
        r#"[CreateFile("T")]"#
    );
    for refused in [place("n", true, true, None), place("a..b", false, false, None)] {
        let mut receiver = ReceiveState::new();
        assert_eq!(
            shown(&receiver.receive_chunk(refused, chunk(b"1"))),
            "[Update(State(Failed(UnsafePath))), Stop]"
        );
    }
}

#[test]
fn directories_of_a_stream_are_asked_for() {
    let mut receiver = ReceiveState::new();
    let mut directories = vec![];
    for event in [
        piece("d", FILE_TYPE_DIRECTORY, b""),
        piece("d/e", FILE_TYPE_DIRECTORY, b""),
        file("d/e/f", b"1"),
        ReceiveEvent::FileCreated,
        ReceiveEvent::Written { bytes_per_second: 1 },
        file("g/h", b"2"),
    ] {
        for effect in receiver.step("/dest", event) {
            if let ReceiveEffect::CreateDirectory(path) = effect {
                directories.push(path);
            }
        }
    }
    assert_eq!(directories, vec!["/dest/d", "/dest/d/e", "/dest/d/e", "/dest/g"]);
}
