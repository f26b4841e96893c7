use warpinator_lib::config::protocol::ProtocolConfig;
use warpinator_lib::remote_manager::{RemoteManager, RemoteUpdate, UpdateError, WarpEvent};
use warpinator_lib::types::message::{Direction, Message};
use warpinator_lib::types::remote::{Remote, RemoteConnectionError, RemoteState};
use warpinator_lib::types::transfer::{Transfer, TransferState, TransferUpdate};

fn manager() -> RemoteManager {
    RemoteManager::new(
        ProtocolConfig::default(),
        "host".to_string(),
        "10.0.0.1".to_string(),
        "service".to_string(),
    )
}

fn remote(uuid: &str, ip: &str) -> Remote {
    Remote::new(
        uuid.to_string(),
        ip.to_string(),
        42000,
        42001,
        "name".to_string(),
        "other".to_string(),
    )
}

fn transfer(uuid: &str, timestamp: u64) -> Transfer {
    Transfer::outgoing_at(uuid.to_string(), timestamp, "a".to_string(), vec![])
}

fn message(uuid: &str, content: &str) -> Message {
    Message::stamped(
        uuid.to_string(),
        1,
        "a".to_string(),
        Direction::Sent,
        content.to_string(),
    )
}

fn shown(events: &[WarpEvent]) -> String {
    format!("{:?}", events)
}

#[test]
fn new_remote_is_disconnected_and_bare() {
    let remote = remote("a", "10.0.0.2");
    assert_eq!(remote.uuid, "a");
    assert_eq!(remote.ip, "10.0.0.2");
    assert_eq!(remote.port, 42000);
    assert_eq!(remote.auth_port, 42001);
    assert_eq!(remote.service_name, "name");
    assert_eq!(remote.hostname, "other");
    assert_eq!(remote.display_name, "");
    assert_eq!(remote.username, "");
    assert_eq!(remote.picture, None);
    assert_eq!(remote.state, RemoteState::Disconnected);
    assert!(remote.messages.is_empty());
    assert!(remote.transfers.is_empty());
    assert!(!remote.service_static);
    assert!(!remote.service_available);
    assert_eq!(remote.cert_pem, None);
}

#[test]
fn connection_errors_have_words() {
    assert_eq!(RemoteConnectionError::SslError.message(), "SSL connection failed");
    assert_eq!(RemoteConnectionError::GroupCodeMismatch.message(), "Group code mismatch");
    assert_eq!(RemoteConnectionError::NoCertificate.message(), "No certificate");
    assert_eq!(RemoteConnectionError::DuplexError.message(), "Duplex connection failed");
    assert_eq!(UpdateError::NotFound.message(), "Resource not found");
}

#[test]
fn empty_manager_knows_nothing() {
    let mut manager = manager();
    assert!(manager.remote("a").is_none());
    assert!(manager.remotes().is_empty());
    assert!(manager.get_worker("a").is_none());
    assert!(manager.transfers("a").is_none());
    assert!(manager.messages("a").is_none());
    assert!(manager.transfer("a", "t").is_none());
    assert!(manager.transfer_by_timestamp("a", 1).is_none());
    assert!(manager.message("a", "m").is_none());
    assert!(manager.take_events().is_empty());
}

#[test]
fn added_remote_is_found() {
    let mut manager = manager();
    manager.add_remote(remote("a", "10.0.0.2"));
    manager.add_remote(remote("b", "10.0.0.3"));
    assert_eq!(manager.remote("a").unwrap().ip, "10.0.0.2");
    assert_eq!(manager.remote("b").unwrap().ip, "10.0.0.3");
    assert!(manager.remote("c").is_none());
    assert!(manager.get_worker("a").is_some());
    assert!(manager.get_worker("c").is_none());
    assert_eq!(manager.remotes().len(), 2);
    assert_eq!(
        shown(&manager.take_events()),
        r#"[RemoteAdded("a"), RemoteAdded("b")]"#
    );
}

#[test]
fn remote_with_a_known_identifier_takes_the_place_of_the_other() {
    let mut manager = manager();
    manager.add_remote(remote("a", "10.0.0.2"));
    manager.add_remote(remote("b", "10.0.0.3"));
    assert!(manager.add_transfer("a", transfer("t", 1)).is_ok());
    manager.add_remote(remote("a", "10.0.0.9"));
    let remotes = manager.remotes();
    assert_eq!(remotes.len(), 2);
    assert_eq!(manager.remote("a").unwrap().ip, "10.0.0.9");
    assert!(manager.transfers("a").unwrap().is_empty());
    assert_eq!(manager.remote("b").unwrap().ip, "10.0.0.3");
}

#[test]
fn remote_updates_touch_one_remote() {
    let mut manager = manager();
    manager.add_remote(remote("a", "10.0.0.2"));
    manager.add_remote(remote("b", "10.0.0.3"));
    manager.take_events();
    assert!(manager.update_remote("a", RemoteUpdate::State(RemoteState::Connected)).is_ok());
    assert!(manager.update_remote("a", RemoteUpdate::Certificate(vec![1, 2])).is_ok());
    assert!(manager
        .update_remote(
            "a",
            RemoteUpdate::MachineInfo {
                display_name: "Ann".to_string(),
                username: "ann".to_string(),
            },
        )
        .is_ok());
    assert!(manager.update_remote("a", RemoteUpdate::Picture(vec![3])).is_ok());
    let changed = manager.remote("a").unwrap();
    assert_eq!(changed.state, RemoteState::Connected);
    assert_eq!(changed.cert_pem, Some(vec![1, 2]));
    assert_eq!(changed.display_name, "Ann");
    assert_eq!(changed.username, "ann");
    assert_eq!(changed.picture, Some(vec![3]));
    assert_eq!(changed.ip, "10.0.0.2");
    assert_eq!(manager.remote("b").unwrap().state, RemoteState::Disconnected);
    assert_eq!(
        shown(&manager.take_events()),
        r#"[RemoteUpdated("a"), RemoteUpdated("a"), RemoteUpdated("a"), RemoteUpdated("a")]"#
    );
}

#[test]
fn unknown_remote_is_not_changed() {
    let mut manager = manager();
    manager.add_remote(remote("a", "10.0.0.2"));
    manager.take_events();
    let before = format!("{:?}", manager);
    assert_eq!(
        manager.update_remote("x", RemoteUpdate::State(RemoteState::Connected)),
        Err(UpdateError::NotFound)
    );
    assert_eq!(manager.add_transfer("x", transfer("t", 1)), Err(UpdateError::NotFound));
    assert_eq!(manager.remove_transfer("x", "t"), Err(UpdateError::NotFound));
    assert_eq!(manager.remove_transfer("a", "t"), Err(UpdateError::NotFound));
    assert_eq!(
        manager.update_transfer("a", "t", TransferUpdate::State(TransferState::Stopped)),
        Err(UpdateError::NotFound)
    );
    assert_eq!(
        manager.update_transfer("x", "t", TransferUpdate::State(TransferState::Stopped)),
        Err(UpdateError::NotFound)
    );
    assert_eq!(manager.add_message("x", message("m", "hi")), Err(UpdateError::NotFound));
    assert_eq!(manager.remove_message("a", "m"), Err(UpdateError::NotFound));
    assert_eq!(manager.remove_message("x", "m"), Err(UpdateError::NotFound));
    assert_eq!(format!("{:?}", manager), before);
}

#[test]
fn added_transfer_can_be_looked_up() {
    let mut manager = manager();
    manager.add_remote(remote("a", "10.0.0.2"));
    manager.take_events();
    assert!(manager.add_transfer("a", transfer("t", 10)).is_ok());
    assert!(manager.add_transfer("a", transfer("u", 20)).is_ok());
    assert_eq!(manager.transfer("a", "t").unwrap().timestamp, 10);
    assert_eq!(manager.transfer("a", "u").unwrap().timestamp, 20);
    assert_eq!(manager.transfer_by_timestamp("a", 20).unwrap().uuid, "u");
    assert!(manager.transfer_by_timestamp("a", 30).is_none());
    assert!(manager.transfer("b", "t").is_none());
    assert_eq!(manager.transfers("a").unwrap().len(), 2);
    assert_eq!(
        shown(&manager.take_events()),
        r#"[TransferAdded("a", "t"), TransferAdded("a", "u")]"#
    );
}

#[test]
fn first_of_several_transfers_is_looked_up() {
    let mut manager = manager();
    manager.add_remote(remote("a", "10.0.0.2"));
    assert!(manager.add_transfer("a", transfer("t", 10)).is_ok());
    assert!(manager.add_transfer("a", transfer("u", 10)).is_ok());
    assert!(manager.add_transfer("a", transfer("t", 30)).is_ok());
    assert_eq!(manager.transfer_by_timestamp("a", 10).unwrap().uuid, "t");
    assert_eq!(manager.transfer("a", "t").unwrap().timestamp, 10);
    assert!(manager.remove_transfer("a", "t").is_ok());
    assert_eq!(manager.transfer("a", "t").unwrap().timestamp, 30);
}

#[test]
fn transfer_update_touches_one_transfer() {
    let mut manager = manager();
    manager.add_remote(remote("a", "10.0.0.2"));
    manager.add_remote(remote("b", "10.0.0.3"));
    assert!(manager.add_transfer("a", transfer("t", 1)).is_ok());
    assert!(manager.add_transfer("a", transfer("u", 2)).is_ok());
    assert!(manager.add_transfer("b", transfer("t", 3)).is_ok());
    manager.take_events();
    let update = TransferUpdate::Progress { bytes: 5, bytes_per_second: 6 };
    assert!(manager.update_transfer("a", "u", update).is_ok());
    assert_eq!(manager.transfer("a", "u").unwrap().bytes_transferred, 5);
    assert_eq!(manager.transfer("a", "u").unwrap().bytes_per_second, 6);
    assert_eq!(manager.transfer("a", "t").unwrap().bytes_transferred, 0);
    assert_eq!(manager.transfer("b", "t").unwrap().bytes_transferred, 0);
    assert_eq!(shown(&manager.take_events()), r#"[TransferUpdated("a", "u")]"#);
}

#[test]
fn removing_a_transfer_undoes_adding_it() {
    let mut manager = manager();
    manager.add_remote(remote("a", "10.0.0.2"));
    assert!(manager.add_transfer("a", transfer("t", 1)).is_ok());
    manager.take_events();
    let before = format!("{:?}", manager.remotes());
    assert!(manager.add_transfer("a", transfer("u", 2)).is_ok());
    assert!(manager.remove_transfer("a", "u").is_ok());
    assert_eq!(format!("{:?}", manager.remotes()), before);
    assert_eq!(
        shown(&manager.take_events()),
        r#"[TransferAdded("a", "u"), TransferRemoved("a", "u")]"#
    );
}

#[test]
fn removed_transfer_leaves_the_others() {
    let mut manager = manager();
    manager.add_remote(remote("a", "10.0.0.2"));
    for uuid in ["t", "u", "v"] {
        assert!(manager.add_transfer("a", transfer(uuid, 1)).is_ok());
    }
    assert!(manager.remove_transfer("a", "u").is_ok());
    assert!(manager.transfer("a", "t").is_some());
    assert!(manager.transfer("a", "u").is_none());
    assert!(manager.transfer("a", "v").is_some());
    assert_eq!(manager.transfers("a").unwrap().len(), 2);
}

#[test]
fn messages_are_kept_in_order() {
    let mut manager = manager();
    manager.add_remote(remote("a", "10.0.0.2"));
    manager.take_events();
    assert!(manager.add_message("a", message("m", "one")).is_ok());
    assert!(manager.add_message("a", message("n", "two")).is_ok());
    assert_eq!(manager.message("a", "n").unwrap().content, "two");
    assert!(manager.message("a", "o").is_none());
    assert!(manager.message("b", "n").is_none());
    let contents: Vec<String> =
        manager.messages("a").unwrap().into_iter().map(|m| m.content).collect();
    assert_eq!(contents, vec!["one", "two"]);
    assert_eq!(
        shown(&manager.take_events()),
        r#"[MessageAdded("a", "m"), MessageAdded("a", "n")]"#
    );
}

#[test]
fn removing_a_message_undoes_adding_it() {
    let mut manager = manager();
    manager.add_remote(remote("a", "10.0.0.2"));
    assert!(manager.add_message("a", message("m", "one")).is_ok());
    manager.take_events();
    let before = format!("{:?}", manager.remotes());
    assert!(manager.add_message("a", message("n", "two")).is_ok());
    assert!(manager.remove_message("a", "n").is_ok());
    assert_eq!(format!("{:?}", manager.remotes()), before);
    assert_eq!(
        shown(&manager.take_events()),
        r#"[MessageAdded("a", "n"), MessageRemoved("a", "n")]"#
    );
}

#[test]
fn removed_message_leaves_the_others() {
    let mut manager = manager();
    manager.add_remote(remote("a", "10.0.0.2"));
    for uuid in ["m", "n", "o"] {
        assert!(manager.add_message("a", message(uuid, uuid)).is_ok());
    }
    assert!(manager.remove_message("a", "m").is_ok());
    assert!(manager.message("a", "m").is_none());
    assert_eq!(manager.message("a", "n").unwrap().content, "n");
    assert_eq!(manager.message("a", "o").unwrap().content, "o");
}

#[test]
fn events_are_handed_over_once() {
    let mut manager = manager();
    manager.add_remote(remote("a", "10.0.0.2"));
    let events = manager.take_events();
    assert_eq!(shown(&events), shown(&events.clone()));
    assert_eq!(events.len(), 1);
    assert!(manager.take_events().is_empty());
}

#[test]
fn listed_remotes_can_be_looked_up() {
    let mut manager = manager();
    for uuid in ["a", "b", "c", "b"] {
        manager.add_remote(remote(uuid, uuid));
    }
    let remotes = manager.remotes();
    assert_eq!(remotes.len(), 3);
    for remote in &remotes {
        assert_eq!(
            format!("{:?}", manager.remote(&remote.uuid).unwrap()),
            format!("{:?}", remote)
        );
    }
}

#[test]
fn added_transfer_is_found_by_its_time() {
    let mut manager = manager();
    manager.add_remote(remote("a", "10.0.0.2"));
    assert!(manager.add_transfer("a", transfer("t", 10)).is_ok());
    assert!(manager.transfer_by_timestamp("a", 20).is_none());
    assert!(manager.add_transfer("a", transfer("u", 20)).is_ok());
    assert_eq!(manager.transfer_by_timestamp("a", 20).unwrap().uuid, "u");
    assert_eq!(manager.transfer_by_timestamp("a", 10).unwrap().uuid, "t");
}
