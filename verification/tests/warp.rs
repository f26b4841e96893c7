use warpinator_lib::config::protocol::{ProtocolConfig, ProtocolFeatures, MESSAGE_SUPPORT};
use warpinator_lib::config::user::UserConfig;
use warpinator_lib::grpc::warp::{
    DuplexAction, DuplexWake, WarpServer, AVATAR_CHUNK_SIZE, DUPLEX_WAIT_SECS,
};
use warpinator_lib::proto::{
    LookupName, OpInfo, StatusCode, StopInfo, TextMessage, TransferOpRequest, VoidType,
};
use warpinator_lib::remote_manager::{RemoteManager, RemoteUpdate, WarpEvent};
use warpinator_lib::types::message::{Direction, Message};
use warpinator_lib::types::remote::{Remote, RemoteConnectionError, RemoteState};
use warpinator_lib::types::transfer::{Transfer, TransferState};

fn user(picture: Option<Vec<u8>>) -> UserConfig {
    UserConfig {
        username: "ann".to_string(),
        display_name: "Ann".to_string(),
        picture,
        ..UserConfig::default()
    }
}

fn server() -> WarpServer {
    WarpServer::new(user(None), ProtocolConfig::default())
}

fn known(state: RemoteState) -> RemoteManager {
    let mut manager = RemoteManager::new(
        ProtocolConfig::default(),
        "host".to_string(),
        "10.0.0.1".to_string(),
        "service".to_string(),
    );
    manager.add_remote(Remote::new(
        "a".to_string(),
        "10.0.0.2".to_string(),
        42000,
        42001,
        "name".to_string(),
        "other".to_string(),
    ));
    assert!(manager.update_remote("a", RemoteUpdate::State(state)).is_ok());
    manager.take_events();
    manager
}

fn info(ident: &str) -> OpInfo {
    OpInfo {
        ident: ident.to_string(),
        timestamp: 12,
        readable_name: String::new(),
        use_compression: false,
    }
}

fn offer(info: Option<OpInfo>) -> TransferOpRequest {
    TransferOpRequest {
        info,
        sender_name: String::new(),
        receiver_name: String::new(),
        receiver: "service".to_string(),
        size: 5,
        count: 1,
        name_if_single: "x".to_string(),
        mime_if_single: "y/z".to_string(),
        top_dir_basenames: vec!["x".to_string()],
    }
}

fn text(ident: &str) -> TextMessage {
    TextMessage { ident: ident.to_string(), timestamp: 3, message: "hi".to_string() }
}

#[test]
fn duplex_stands_where_the_remote_is_reached() {
    let server = server();
    for state in [RemoteState::AwaitingDuplex, RemoteState::Connected] {
        assert_eq!(server.waiting_for_duplex(&known(state), "a"), DuplexAction::Reply(true));
    }
}

#[test]
fn remote_that_is_not_connected_is_connected_to() {
    let server = server();
    for state in [
        RemoteState::Disconnected,
        RemoteState::Error(RemoteConnectionError::SslError),
        RemoteState::Error(RemoteConnectionError::GroupCodeMismatch),
    ] {
        assert_eq!(server.waiting_for_duplex(&known(state), "a"), DuplexAction::ConnectAndWait);
    }
}

#[test]
fn answer_comes_later_while_connecting_or_unknown() {
    let server = server();
    let manager = known(RemoteState::Connecting);
    assert_eq!(server.waiting_for_duplex(&manager, "a"), DuplexAction::Wait);
    assert_eq!(server.waiting_for_duplex(&manager, "b"), DuplexAction::Wait);
}

#[test]
fn waiting_ends_when_the_remote_is_reached() {
    let server = server();
    let manager = known(RemoteState::AwaitingDuplex);
    let event = |event| server.duplex_event(&manager, "a", DuplexWake::Event(event));
    assert_eq!(event(WarpEvent::RemoteUpdated("a".to_string())), DuplexAction::Reply(true));
    assert_eq!(event(WarpEvent::RemoteAdded("a".to_string())), DuplexAction::Reply(true));
    assert_eq!(event(WarpEvent::RemoteUpdated("b".to_string())), DuplexAction::Wait);
    assert_eq!(
        event(WarpEvent::TransferAdded("a".to_string(), "t".to_string())),
        DuplexAction::Wait
    );
}

#[test]
fn waiting_goes_on_until_the_time_is_up() {
    let server = server();
    let manager = known(RemoteState::Connecting);
    let event = DuplexWake::Event(WarpEvent::RemoteUpdated("a".to_string()));
    assert_eq!(server.duplex_event(&manager, "a", event), DuplexAction::Wait);
    let unknown = DuplexWake::Event(WarpEvent::RemoteAdded("b".to_string()));
    assert_eq!(server.duplex_event(&manager, "b", unknown), DuplexAction::Wait);
    assert_eq!(
        server.duplex_event(&manager, "a", DuplexWake::TimedOut),
        DuplexAction::Reply(false)
    );
    assert_eq!(DUPLEX_WAIT_SECS, 10);
}

#[test]
fn machine_info_is_that_of_the_user() {
    let info = server().get_remote_machine_info(LookupName::empty());
    assert_eq!(info.display_name, "Ann");
    assert_eq!(info.user_name, "ann");
    assert_eq!(info.feature_flags, MESSAGE_SUPPORT);
}

#[test]
fn picture_goes_out_in_pieces() {
    assert_eq!(AVATAR_CHUNK_SIZE, 64 * 1024);
    let bytes: Vec<u8> = (0..AVATAR_CHUNK_SIZE * 2 + 3).map(|i| (i % 251) as u8).collect();
    let server = WarpServer::new(user(Some(bytes.clone())), ProtocolConfig::default());
    let pieces = server.get_remote_machine_avatar(LookupName::empty());
    let sizes: Vec<usize> = pieces.iter().map(|piece| piece.avatar_chunk.len()).collect();
    assert_eq!(sizes, vec![AVATAR_CHUNK_SIZE, AVATAR_CHUNK_SIZE, 3]);
    let whole: Vec<u8> = pieces.into_iter().flat_map(|piece| piece.avatar_chunk).collect();
    assert_eq!(whole, bytes);
}

#[test]
fn picture_of_a_whole_number_of_pieces() {
    let server =
        WarpServer::new(user(Some(vec![7; AVATAR_CHUNK_SIZE])), ProtocolConfig::default());
    assert_eq!(server.get_remote_machine_avatar(LookupName::empty()).len(), 1);
    let empty = WarpServer::new(user(Some(vec![])), ProtocolConfig::default());
    assert!(empty.get_remote_machine_avatar(LookupName::empty()).is_empty());
}

#[test]
fn no_picture_is_no_pieces() {
    assert!(server().get_remote_machine_avatar(LookupName::empty()).is_empty());
}

#[test]
fn sent_picture_is_received() {
    let bytes: Vec<u8> = (0..100_000u32).map(|i| (i % 256) as u8).collect();
    let server = WarpServer::new(user(Some(bytes.clone())), ProtocolConfig::default());
    let mut manager = known(RemoteState::Connected);
    let worker = manager.get_worker("a").unwrap();
    let pieces = server.get_remote_machine_avatar(LookupName::empty());
    assert!(worker.fetch_avatar(&mut manager, &pieces).is_ok());
    assert_eq!(manager.remote("a").unwrap().picture, Some(bytes));
}

#[test]
fn offered_transfer_is_recorded() {
    let mut manager = known(RemoteState::Connected);
    assert_eq!(
        server().process_transfer_op_request(&mut manager, offer(Some(info("a")))).unwrap(),
        VoidType {}
    );
    let transfers = manager.transfers("a").unwrap();
    assert_eq!(transfers.len(), 1);
    assert_eq!(transfers[0].uuid.len(), 36);
    assert_eq!(transfers[0].remote_uuid, "a");
    assert_eq!(transfers[0].total_bytes, 5);
    assert!(matches!(transfers[0].state, TransferState::WaitingPermission));
    assert_eq!(
        format!("{:?}", manager.take_events()),
        format!("[TransferAdded(\"a\", {:?})]", transfers[0].uuid)
    );
}

#[test]
fn offer_without_info_is_refused() {
    let mut manager = known(RemoteState::Connected);
    let status = server().process_transfer_op_request(&mut manager, offer(None)).unwrap_err();
    assert_eq!(status.code, StatusCode::InvalidArgument);
    assert_eq!(status.message, "Missing OpInfo");
    assert!(manager.transfers("a").unwrap().is_empty());
}

#[test]
fn offer_of_a_stranger_is_refused() {
    let mut manager = known(RemoteState::Connected);
    let status =
        server().process_transfer_op_request(&mut manager, offer(Some(info("b")))).unwrap_err();
    assert_eq!(status.code, StatusCode::Internal);
    assert_eq!(status.message, "Failed to add transfer op request: NotFound");
    let transfer = Transfer::incoming_at("t".to_string(), 1, offer(Some(info("b"))));
    let status = server().record_transfer(&mut manager, "b", transfer).unwrap_err();
    assert_eq!(status.code, StatusCode::Internal);
}

#[test]
fn given_transfer_is_recorded_as_it_is() {
    let mut manager = known(RemoteState::Connected);
    let transfer = Transfer::incoming_at("t".to_string(), 1, offer(Some(info("a"))));
    assert!(server().record_transfer(&mut manager, "a", transfer.clone()).is_ok());
    assert_eq!(
        format!("{:?}", manager.transfer("a", "t").unwrap()),
        format!("{:?}", transfer)
    );
}

#[test]
fn text_is_recorded() {
    let mut manager = known(RemoteState::Connected);
    assert!(server().send_text_message(&mut manager, &text("a")).is_ok());
    let messages = manager.messages("a").unwrap();
    assert_eq!(messages.len(), 1);
    assert_eq!(messages[0].content, "hi");
    assert_eq!(messages[0].remote_uuid, "a");
    assert_eq!(messages[0].direction, Direction::Received);
}

#[test]
fn text_of_a_stranger_is_refused() {
    let mut manager = known(RemoteState::Connected);
    let status = server().send_text_message(&mut manager, &text("b")).unwrap_err();
    assert_eq!(status.code, StatusCode::Internal);
    assert_eq!(status.message, "Failed to add message: NotFound");
    assert!(manager.messages("a").unwrap().is_empty());
}

#[test]
fn texts_are_refused_where_they_are_not_offered() {
    let config =
        ProtocolConfig { features: ProtocolFeatures { bits: 2 }, ..ProtocolConfig::default() };
    let server = WarpServer::new(user(None), config);
    let mut manager = known(RemoteState::Connected);
    let status = server.send_text_message(&mut manager, &text("a")).unwrap_err();
    assert_eq!(status.code, StatusCode::Unimplemented);
    assert_eq!(status.message, "Messaging feature is disabled");
    assert!(manager.messages("a").unwrap().is_empty());
}

#[test]
fn given_message_is_recorded_as_it_is() {
    let mut manager = known(RemoteState::Connected);
    let message = Message::stamped(
        "m".to_string(),
        4,
        "a".to_string(),
        Direction::Received,
        "hi".to_string(),
    );
    assert!(server().record_message(&mut manager, "a", message.clone()).is_ok());
    assert_eq!(
        format!("{:?}", manager.message("a", "m").unwrap()),
        format!("{:?}", message)
    );
    assert_eq!(
        server().record_message(&mut manager, "b", message).unwrap_err().message,
        "Failed to add message: NotFound"
    );
}

#[test]
fn other_calls_are_only_noted() {
    let server = server();
    assert!(server.start_transfer(info("a")).is_empty());
    assert!(matches!(server.pause_transfer_op(info("a")), Ok(VoidType {})));
    for error in [true, false] {
        let request = StopInfo { info: Some(info("a")), error };
        assert!(matches!(server.stop_transfer(request), Ok(VoidType {})));
    }
    assert!(matches!(server.stop_transfer(StopInfo { info: None, error: true }), Ok(VoidType {})));
    assert!(matches!(server.cancel_transfer_op_request(info("a")), Ok(VoidType {})));
    assert!(matches!(server.ping(LookupName::empty()), Ok(VoidType {})));
}
