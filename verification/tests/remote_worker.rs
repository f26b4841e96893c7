use warpinator_lib::config::protocol::{ProtocolConfig, ProtocolFeatures};
use warpinator_lib::proto::{HaveDuplex, RemoteMachineAvatar, RemoteMachineInfo};
use warpinator_lib::remote_manager::{RemoteManager, UpdateError};
use warpinator_lib::server::remote_worker::{
    after_ping, after_wait, boxed_certificate, decode_box, decoded_box, duplex_answer,
    CertUnboxError, CertificateReply, ConnectEffect, ConnectEvent, LoopEffect, LoopWait, LoopWake,
    OfferError, ReceiveCertError, RemoteWorker, WorkerError,
};
use warpinator_lib::types::message::{Direction, Message};
use warpinator_lib::types::remote::{Remote, RemoteConnectionError, RemoteState};
use warpinator_lib::types::transfer::{
    IoErrorKind, PathProbe, SourcePathError, Transfer, TransferError, TransferKind, TransferState,
};
use warpinator_lib::ConnectRemoteError;

fn config() -> ProtocolConfig {
    ProtocolConfig {
        features: ProtocolFeatures { bits: 1 },
        reconnect_interval: 111,
        ping_interval: 222,
        ping_timeout: 333,
        connect_timeout: 444,
    }
}

fn known() -> (RemoteManager, RemoteWorker) {
    let mut manager = RemoteManager::new(
        config(),
        "host".to_string(),
        "10.0.0.1".to_string(),
        "service".to_string(),
    );
    let worker = manager.add_remote(Remote::new(
        "a".to_string(),
        "10.0.0.2".to_string(),
        42000,
        42001,
        "name".to_string(),
        "other".to_string(),
    ));
    manager.take_events();
    (manager, worker)
}

fn stranger() -> RemoteWorker {
    RemoteWorker::new(
        "nobody".to_string(),
        config(),
        "host".to_string(),
        "10.0.0.1".to_string(),
        "service".to_string(),
    )
}

fn texts(items: &[&str]) -> Vec<String> {
    items.iter().map(|item| item.to_string()).collect()
}

fn incoming(manager: &mut RemoteManager) -> String {
    let offered = Transfer::outgoing_at("t".to_string(), 500, "b".to_string(), vec![]);
    let recorded =
        Transfer::incoming_at("in".to_string(), 600, offered.as_proto("a"));
    assert!(manager.add_transfer("a", recorded).is_ok());
    "in".to_string()
}

fn outgoing(manager: &mut RemoteManager) -> String {
    let transfer = Transfer::outgoing_at("out".to_string(), 700, "a".to_string(), vec![]);
    assert!(manager.add_transfer("a", transfer).is_ok());
    "out".to_string()
}

fn shown(effects: &[ConnectEffect]) -> String {
    format!("{:?}", effects)
}

#[test]
fn errors_have_words() {
    assert_eq!(ReceiveCertError::NoRemote.message(), "Local remote not found");
    assert_eq!(
        ReceiveCertError::RegisterServiceError("x".to_string()).message(),
        "Failed to register with remote: x"
    );
    assert_eq!(
        ReceiveCertError::CertificateRequestFailed("x".to_string()).message(),
        "Failed to request certificate: x"
    );
    assert_eq!(ReceiveCertError::WrongGroupCode.message(), "Group code mismatch");
    assert_eq!(ReceiveCertError::Offline.message(), "Remote registration service is offline");
    assert_eq!(
        ConnectRemoteError::CertificateError(ReceiveCertError::Offline).message(),
        "Failed to receive certificate: Remote registration service is offline"
    );
    assert_eq!(
        ConnectRemoteError::TlsError("x".to_string()).message(),
        "Failed to build TLS channel: x"
    );
    assert_eq!(ConnectRemoteError::PingError("x".to_string()).message(), "Ping failed: x");
    assert_eq!(ConnectRemoteError::DuplexError("x".to_string()).message(), "Duplex failed: x");
    assert_eq!(ConnectRemoteError::RemoteWorkerNotFound.message(), "Remote worker not found");
    assert_eq!(WorkerError::NoClient.message(), "No client");
    assert_eq!(WorkerError::RemoteNotFound.message(), "Remote not found");
    assert_eq!(WorkerError::TransferNotFound.message(), "Transfer not found");
    assert_eq!(WorkerError::OutgoingTransfer.message(), "Cannot accept an outgoing transfer");
    assert_eq!(WorkerError::DuplexNotEstablished.message(), "Duplex not established");
    assert_eq!(WorkerError::Update(UpdateError::NotFound).message(), "Resource not found");
}

#[test]
fn wait_goes_by_the_state() {
    let (_, worker) = known();
    assert_eq!(worker.next_wait(RemoteState::Connected), LoopWait::PingAfter(222));
    assert_eq!(worker.next_wait(RemoteState::Disconnected), LoopWait::ConnectAfter(111));
    assert_eq!(worker.next_wait(RemoteState::Connecting), LoopWait::StateChange);
    assert_eq!(worker.next_wait(RemoteState::AwaitingDuplex), LoopWait::StateChange);
    for error in [
        RemoteConnectionError::SslError,
        RemoteConnectionError::NoCertificate,
        RemoteConnectionError::DuplexError,
    ] {
        assert_eq!(worker.next_wait(RemoteState::Error(error)), LoopWait::ConnectAfter(111));
    }
}

#[test]
fn wrong_group_code_is_not_tried_again() {
    let (_, worker) = known();
    let state = RemoteState::Error(RemoteConnectionError::GroupCodeMismatch);
    assert_eq!(worker.next_wait(state), LoopWait::Stop);
    assert_eq!(
        shown(&worker.connect(ConnectEvent::CertificateFailed(ReceiveCertError::WrongGroupCode))),
        "[SetState(Error(GroupCodeMismatch)), Fail(CertificateError(WrongGroupCode))]"
    );
}

#[test]
fn ending_disconnects_in_every_wait() {
    for wait in [LoopWait::PingAfter(1), LoopWait::ConnectAfter(2), LoopWait::StateChange] {
        assert_eq!(
            after_wait(wait, LoopWake::Cancelled),
            vec![
                LoopEffect::ClearChannel,
                LoopEffect::SetState(RemoteState::Disconnected),
                LoopEffect::Stop,
            ]
        );
        assert_eq!(after_wait(wait, LoopWake::StateChanged), vec![LoopEffect::Continue]);
    }
}

#[test]
fn time_to_ping_or_to_connect() {
    assert_eq!(after_wait(LoopWait::PingAfter(1), LoopWake::Elapsed), vec![LoopEffect::Ping]);
    assert_eq!(
        after_wait(LoopWait::ConnectAfter(1), LoopWake::Elapsed),
        vec![LoopEffect::Connect, LoopEffect::Continue]
    );
    assert_eq!(after_ping(true), vec![LoopEffect::Continue]);
    assert_eq!(
        after_ping(false),
        vec![
            LoopEffect::SetState(RemoteState::Disconnected),
            LoopEffect::ClearChannel,
            LoopEffect::Continue,
        ]
    );
}

#[test]
fn connecting_goes_through_three_states() {
    let (_, worker) = known();
    let events = vec![
        ConnectEvent::Begin,
        ConnectEvent::CertificateReceived(vec![1, 2]),
        ConnectEvent::ChannelBuilt,
        ConnectEvent::PingSucceeded,
        ConnectEvent::DuplexEstablished,
        ConnectEvent::MachineInfoDone,
        ConnectEvent::AvatarDone,
    ];
    let mut all = String::new();
    let mut states = vec![];
    for event in events {
        for effect in worker.connect(event) {
            all = format!("{}{:?};", all, effect);
            if let ConnectEffect::SetState(state) = effect {
                states.push(state);
            }
        }
    }
    assert_eq!(
        states,
        vec![RemoteState::Connecting, RemoteState::AwaitingDuplex, RemoteState::Connected]
    );
    assert_eq!(
        all,
        "SetState(Connecting);ReceiveCertificate;BuildChannel([1, 2]);StoreChannel;Ping;\
         SetState(AwaitingDuplex);WaitForDuplex;SetState(Connected);FetchMachineInfo;FetchAvatar;\
         Succeed;"
    );
}

#[test]
fn failed_connection_is_shown() {
    let (_, worker) = known();
    assert_eq!(
        shown(&worker.connect(ConnectEvent::CertificateFailed(ReceiveCertError::Offline))),
        "[SetState(Disconnected), Fail(CertificateError(Offline))]"
    );
    assert_eq!(
        shown(&worker.connect(ConnectEvent::CertificateFailed(ReceiveCertError::NoRemote))),
        "[SetState(Error(NoCertificate)), Fail(CertificateError(NoRemote))]"
    );
    assert_eq!(
        shown(&worker.connect(ConnectEvent::ChannelFailed("x".to_string()))),
        r#"[SetState(Error(SslError)), Fail(TlsError("x"))]"#
    );
    assert_eq!(
        shown(&worker.connect(ConnectEvent::PingFailed("x".to_string()))),
        r#"[ClearChannel, SetState(Error(SslError)), Fail(PingError("x"))]"#
    );
    assert_eq!(
        shown(&worker.connect(ConnectEvent::DuplexFailed("x".to_string()))),
        r#"[ClearChannel, SetState(Error(DuplexError)), Fail(DuplexError("x"))]"#
    );
}

#[test]
fn state_is_recorded() {
    let (mut manager, worker) = known();
    worker.set_state(&mut manager, RemoteState::Connecting);
    assert_eq!(manager.remote("a").unwrap().state, RemoteState::Connecting);
    assert_eq!(format!("{:?}", manager.take_events()), r#"[RemoteUpdated("a")]"#);
    stranger().set_state(&mut manager, RemoteState::Connected);
    assert_eq!(manager.remote("a").unwrap().state, RemoteState::Connecting);
    assert!(manager.take_events().is_empty());
}

#[test]
fn certificate_is_asked_for_at_the_registration_port() {
    let (manager, worker) = known();
    let call = worker.receive_certificate(&manager).unwrap();
    assert_eq!(call.address, "http://10.0.0.2:42001");
    assert_eq!(call.connect_timeout, 444);
    assert_eq!(call.request.ip, "10.0.0.1");
    assert_eq!(call.request.hostname, "host");
    assert_eq!(call.request.ipv6, "");
    assert!(matches!(
        stranger().receive_certificate(&manager),
        Err(ReceiveCertError::NoRemote)
    ));
}

#[test]
fn box_is_decoded_with_its_line_breaks_left_out() {
    assert_eq!(decode_box("aGVs\nbG8g\r\nd29ybGQ=\n").unwrap(), b"hello world".to_vec());
    assert_eq!(decode_box("").unwrap(), Vec::<u8>::new());
    assert_eq!(decode_box("AP8=").unwrap(), vec![0, 255]);
}

#[test]
fn box_that_is_not_base64_is_refused() {
    assert!(matches!(
        decode_box("a*b="),
        Err(ReceiveCertError::CertificateRequestFailed(message))
            if message.starts_with("Failed to decode base64 certificate ") && message.len() > 36
    ));
    assert!(matches!(
        decode_box("aGVsbG8"),
        Err(ReceiveCertError::CertificateRequestFailed(_))
    ));
}

#[test]
fn reply_of_the_registration_service_is_sorted() {
    assert!(matches!(
        boxed_certificate(CertificateReply::BadAddress("x".to_string())),
        Err(ReceiveCertError::RegisterServiceError(cause)) if cause == "x"
    ));
    assert!(matches!(
        boxed_certificate(CertificateReply::Unreachable),
        Err(ReceiveCertError::Offline)
    ));
    assert!(matches!(
        boxed_certificate(CertificateReply::Refused("no".to_string())),
        Err(ReceiveCertError::CertificateRequestFailed(message)) if message == "no"
    ));
    assert_eq!(
        boxed_certificate(CertificateReply::Locked("AQI\nD".to_string())).unwrap(),
        vec![1, 2, 3]
    );
    assert!(boxed_certificate(CertificateReply::Locked("*".to_string())).is_err());
}

#[test]
fn decoded_box_keeps_the_cause() {
    assert_eq!(decoded_box(Ok(vec![1, 2])).unwrap(), vec![1, 2]);
    assert!(matches!(
        decoded_box(Err("because".to_string())),
        Err(ReceiveCertError::CertificateRequestFailed(message))
            if message == "Failed to decode base64 certificate because"
    ));
}

#[test]
fn opened_box_is_recorded() {
    let (mut manager, worker) = known();
    assert_eq!(worker.store_certificate(&mut manager, Ok(vec![7, 8])).unwrap(), vec![7, 8]);
    assert_eq!(manager.remote("a").unwrap().cert_pem, Some(vec![7, 8]));
    assert_eq!(format!("{:?}", manager.take_events()), r#"[RemoteUpdated("a")]"#);
    assert!(matches!(
        stranger().store_certificate(&mut manager, Ok(vec![9])),
        Err(ReceiveCertError::NoRemote)
    ));
}

#[test]
fn box_that_cannot_be_opened_is_an_error() {
    let (mut manager, worker) = known();
    assert!(matches!(
        worker.store_certificate(&mut manager, Err(CertUnboxError::BoxTooShort)),
        Err(ReceiveCertError::CertificateRequestFailed(message)) if message == "Box too short"
    ));
    assert!(matches!(
        worker.store_certificate(&mut manager, Err(CertUnboxError::DecryptionFailed)),
        Err(ReceiveCertError::WrongGroupCode)
    ));
    assert_eq!(manager.remote("a").unwrap().cert_pem, None);
    assert!(manager.take_events().is_empty());
}

#[test]
fn channel_goes_to_the_transfer_port() {
    let (manager, worker) = known();
    let target = worker.build_channel(&manager).unwrap();
    assert_eq!(target.address, "https://10.0.0.2:42000");
    assert_eq!(target.domain_name, "10.0.0.2");
    assert_eq!(target.connect_timeout, 444);
    assert!(matches!(
        stranger().build_channel(&manager),
        Err(WorkerError::RemoteNotFound)
    ));
}

#[test]
fn ping_names_the_remote() {
    let (_, worker) = known();
    let request = worker.ping(true).unwrap();
    assert_eq!(request.id, "a");
    assert_eq!(request.readable_name, "host");
    assert!(matches!(worker.ping(false), Err(WorkerError::NoClient)));
}

#[test]
fn duplex_question_names_this_service() {
    let (_, worker) = known();
    let request = worker.wait_for_duplex(true).unwrap();
    assert_eq!(request.id, "service");
    assert_eq!(request.readable_name, "host");
    assert!(matches!(worker.wait_for_duplex(false), Err(WorkerError::NoClient)));
    assert_eq!(duplex_answer(HaveDuplex { response: true }), Ok(()));
    assert_eq!(
        duplex_answer(HaveDuplex { response: false }),
        Err(WorkerError::DuplexNotEstablished)
    );
}

#[test]
fn machine_info_is_recorded() {
    let (mut manager, worker) = known();
    let info = || RemoteMachineInfo {
        display_name: "Ann".to_string(),
        user_name: "ann".to_string(),
        feature_flags: 1,
    };
    assert!(worker.fetch_machine_info(&mut manager, info()).is_ok());
    assert_eq!(manager.remote("a").unwrap().display_name, "Ann");
    assert_eq!(manager.remote("a").unwrap().username, "ann");
    assert_eq!(
        stranger().fetch_machine_info(&mut manager, info()),
        Err(UpdateError::NotFound)
    );
}

#[test]
fn picture_is_put_together() {
    let (mut manager, worker) = known();
    let pieces = vec![
        RemoteMachineAvatar { avatar_chunk: vec![1, 2] },
        RemoteMachineAvatar { avatar_chunk: vec![] },
        RemoteMachineAvatar { avatar_chunk: vec![3] },
    ];
    assert!(worker.fetch_avatar(&mut manager, &pieces).is_ok());
    assert_eq!(manager.remote("a").unwrap().picture, Some(vec![1, 2, 3]));
    assert_eq!(
        stranger().fetch_avatar(&mut manager, &pieces),
        Err(UpdateError::NotFound)
    );
}

#[test]
fn empty_picture_is_let_be() {
    let (mut manager, worker) = known();
    assert!(worker.fetch_avatar(&mut manager, &vec![]).is_ok());
    let empty = vec![RemoteMachineAvatar { avatar_chunk: vec![] }];
    assert!(worker.fetch_avatar(&mut manager, &empty).is_ok());
    assert_eq!(manager.remote("a").unwrap().picture, None);
    assert!(stranger().fetch_avatar(&mut manager, &empty).is_ok());
    assert!(manager.take_events().is_empty());
}

#[test]
fn new_transfer_shows_at_once() {
    let (mut manager, worker) = known();
    let transfer = worker.new_transfer(&mut manager, true, texts(&["/a/x.txt"])).unwrap();
    assert_eq!(transfer.remote_uuid, "a");
    assert!(matches!(transfer.state, TransferState::Initializing));
    let recorded = manager.transfer("a", &transfer.uuid).unwrap();
    assert_eq!(format!("{:?}", recorded), format!("{:?}", transfer));
    assert!(matches!(
        worker.new_transfer(&mut manager, false, vec![]),
        Err(WorkerError::NoClient)
    ));
    assert!(matches!(
        stranger().new_transfer(&mut manager, true, vec![]),
        Err(WorkerError::Update(UpdateError::NotFound))
    ));
    assert_eq!(manager.transfers("a").unwrap().len(), 1);
}

#[test]
fn transfer_is_offered_as_described() {
    let (mut manager, worker) = known();
    let paths = texts(&["/a/x.txt"]);
    let mut transfer = worker.new_transfer(&mut manager, true, paths.clone()).unwrap();
    let request = worker
        .send_transfer_request(&mut manager, &mut transfer, &paths, &vec![PathProbe::File(12)])
        .unwrap();
    assert_eq!(request.size, 12);
    assert_eq!(request.name_if_single, "x.txt");
    assert_eq!(request.receiver, "service");
    let waiting = manager.transfer("a", &transfer.uuid).unwrap();
    assert!(matches!(waiting.state, TransferState::Initializing));
    assert_eq!(waiting.total_bytes, 0);
    assert!(worker.transfer_offered(&mut manager, &transfer).is_ok());
    let offered = manager.transfer("a", &transfer.uuid).unwrap();
    assert!(matches!(offered.state, TransferState::WaitingPermission));
    assert_eq!(offered.total_bytes, 12);
    assert_eq!(offered.file_count, 1);
    assert_eq!(offered.entry_names, texts(&["x.txt"]));
    assert_eq!(offered.single_name.as_deref(), Some("x.txt"));
    assert_eq!(offered.single_mime_type.as_deref(), Some("text/plain"));
    assert_eq!(
        stranger().transfer_offered(&mut manager, &transfer),
        Err(UpdateError::NotFound)
    );
}

#[test]
fn transfer_of_bad_paths_has_failed() {
    let (mut manager, worker) = known();
    let paths = texts(&["/a/x.txt"]);
    let probes = vec![PathProbe::Failed(IoErrorKind::NotFound)];
    let mut transfer = worker.new_transfer(&mut manager, true, paths.clone()).unwrap();
    assert!(matches!(
        worker.send_transfer_request(&mut manager, &mut transfer, &paths, &probes),
        Err(OfferError::SourcePath(SourcePathError::IoError(IoErrorKind::NotFound)))
    ));
    assert!(matches!(
        manager.transfer("a", &transfer.uuid).unwrap().state,
        TransferState::Failed(TransferError::FailedToProcessFiles)
    ));
    assert!(manager.remove_transfer("a", &transfer.uuid).is_ok());
    assert!(matches!(
        worker.send_transfer_request(&mut manager, &mut transfer, &paths, &probes),
        Err(OfferError::Update(UpdateError::NotFound))
    ));
}

#[test]
fn message_is_recorded_once_sent() {
    let (mut manager, worker) = known();
    let (message, request) = worker.send_message(true, "hello").unwrap();
    assert_eq!(message.uuid.len(), 36);
    assert_eq!(message.remote_uuid, "a");
    assert_eq!(message.direction, Direction::Sent);
    assert_eq!(message.content, "hello");
    assert_eq!(request.ident, "service");
    assert_eq!(request.timestamp, message.timestamp);
    assert_eq!(request.message, "hello");
    assert!(manager.messages("a").unwrap().is_empty());
    let uuid = message.uuid.clone();
    assert_eq!(
        stranger().message_sent(&mut manager, message.clone()),
        Err(UpdateError::NotFound)
    );
    assert!(worker.message_sent(&mut manager, message).is_ok());
    assert_eq!(manager.message("a", &uuid).unwrap().content, "hello");
    assert!(matches!(worker.send_message(false, "hello"), Err(WorkerError::NoClient)));
}

#[test]
fn incoming_transfer_is_accepted() {
    let (mut manager, worker) = known();
    let uuid = incoming(&mut manager);
    let info = worker.accept_transfer(&manager, true, &uuid).unwrap();
    assert_eq!(info.ident, "service");
    assert_eq!(info.timestamp, 500);
    assert_eq!(info.readable_name, "");
    assert!(!info.use_compression);
    assert!(worker
        .transfer_accepted(&mut manager, &uuid, "/home/u".to_string(), info.timestamp)
        .is_ok());
    let accepted = manager.transfer("a", &uuid).unwrap();
    assert!(matches!(accepted.state, TransferState::InProgress));
    assert!(matches!(
        &accepted.kind,
        TransferKind::Incoming { destination, remote_timestamp: 500 } if destination == "/home/u"
    ));
    assert_eq!(
        worker.transfer_accepted(&mut manager, "none", String::new(), 1),
        Err(UpdateError::NotFound)
    );
}

#[test]
fn only_known_incoming_transfers_are_accepted() {
    let (mut manager, worker) = known();
    let uuid = outgoing(&mut manager);
    assert!(matches!(
        worker.accept_transfer(&manager, true, &uuid),
        Err(WorkerError::OutgoingTransfer)
    ));
    assert!(matches!(
        worker.accept_transfer(&manager, true, "none"),
        Err(WorkerError::TransferNotFound)
    ));
    assert!(matches!(
        worker.accept_transfer(&manager, false, &uuid),
        Err(WorkerError::NoClient)
    ));
}

#[test]
fn transfer_is_stopped_under_the_shared_timestamp() {
    let (mut manager, worker) = known();
    let received = incoming(&mut manager);
    let sent = outgoing(&mut manager);
    let plan = worker.stop_transfer(&manager, true, &received, true).unwrap();
    assert!(!plan.stop_sending);
    assert!(plan.request.error);
    assert_eq!(plan.request.info.as_ref().unwrap().ident, "service");
    assert_eq!(plan.request.info.as_ref().unwrap().timestamp, 500);
    let plan = worker.stop_transfer(&manager, true, &sent, false).unwrap();
    assert!(plan.stop_sending);
    assert!(!plan.request.error);
    assert_eq!(plan.request.info.as_ref().unwrap().timestamp, 700);
    assert!(worker.transfer_stopped(&mut manager, &sent).is_ok());
    assert!(matches!(manager.transfer("a", &sent).unwrap().state, TransferState::Stopped));
    assert!(matches!(
        worker.stop_transfer(&manager, true, "none", true),
        Err(WorkerError::TransferNotFound)
    ));
    assert!(matches!(
        worker.stop_transfer(&manager, false, &sent, true),
        Err(WorkerError::NoClient)
    ));
    assert_eq!(
        worker.transfer_stopped(&mut manager, "none"),
        Err(UpdateError::NotFound)
    );
}

#[test]
fn transfer_is_called_off() {
    let (mut manager, worker) = known();
    let received = incoming(&mut manager);
    let sent = outgoing(&mut manager);
    let plan = worker.cancel_transfer(&manager, true, &received).unwrap();
    assert!(!plan.stop_sending);
    assert_eq!(plan.request.timestamp, 500);
    assert!(matches!(plan.new_state, TransferState::Denied));
    assert!(worker.transfer_cancelled(&mut manager, &received, plan.new_state).is_ok());
    assert!(matches!(manager.transfer("a", &received).unwrap().state, TransferState::Denied));
    let plan = worker.cancel_transfer(&manager, true, &sent).unwrap();
    assert!(plan.stop_sending);
    assert_eq!(plan.request.timestamp, 700);
    assert_eq!(plan.request.ident, "service");
    assert!(matches!(plan.new_state, TransferState::Canceled));
    assert!(matches!(
        worker.cancel_transfer(&manager, true, "none"),
        Err(WorkerError::TransferNotFound)
    ));
    assert!(matches!(
        worker.cancel_transfer(&manager, false, &sent),
        Err(WorkerError::NoClient)
    ));
    assert_eq!(
        worker.transfer_cancelled(&mut manager, "none", TransferState::Denied),
        Err(UpdateError::NotFound)
    );
}

#[test]
fn both_sides_find_the_transfer_by_its_time() {
    let (mut offering, _) = known();
    let transfer = Transfer::outgoing_at("out".to_string(), 700, "a".to_string(), vec![]);
    let request = transfer.as_proto("b");
    assert!(offering.add_transfer("a", transfer).is_ok());
    let (mut accepting, worker) = known();
    let recorded = Transfer::incoming_at("in".to_string(), 1, request);
    assert!(accepting.add_transfer("a", recorded).is_ok());
    let info = worker.accept_transfer(&accepting, true, "in").unwrap();
    assert_eq!(offering.transfer_by_timestamp("a", info.timestamp).unwrap().uuid, "out");
}

#[test]
fn copied_worker_is_the_same() {
    let (manager, worker) = known();
    assert_eq!(format!("{:?}", worker.clone()), format!("{:?}", worker));
    assert_eq!(
        format!("{:?}", manager.get_worker("a").unwrap()),
        format!("{:?}", worker)
    );
}

#[test]
fn given_transfer_is_entered_as_it_is() {
    let (mut manager, worker) = known();
    let transfer = Transfer::outgoing_at("t".to_string(), 5, "a".to_string(), texts(&["/x"]));
    let entered = worker.enter_transfer(&mut manager, transfer.clone()).unwrap();
    assert_eq!(format!("{:?}", entered), format!("{:?}", transfer));
    assert_eq!(
        format!("{:?}", manager.transfer("a", "t").unwrap()),
        format!("{:?}", transfer)
    );
    assert_eq!(format!("{:?}", manager.take_events()), r#"[TransferAdded("a", "t")]"#);
    assert!(matches!(
        stranger().enter_transfer(&mut manager, transfer),
        Err(WorkerError::Update(UpdateError::NotFound))
    ));
}

#[test]
fn offer_goes_by_how_the_paths_were_processed() {
    let (mut manager, worker) = known();
    let transfer = Transfer::outgoing_at("t".to_string(), 5, "a".to_string(), texts(&["/x"]));
    assert!(manager.add_transfer("a", transfer.clone()).is_ok());
    let request = worker.offer(&mut manager, &transfer, Ok(())).unwrap();
    assert_eq!(request.info.unwrap().timestamp, 5);
    assert_eq!(request.receiver, "service");
    let failed = || Err(SourcePathError::UnsupportedPathType("/x".to_string()));
    assert!(matches!(
        worker.offer(&mut manager, &transfer, failed()),
        Err(OfferError::SourcePath(SourcePathError::UnsupportedPathType(path))) if path == "/x"
    ));
    assert!(matches!(
        manager.transfer("a", "t").unwrap().state,
        TransferState::Failed(TransferError::FailedToProcessFiles)
    ));
    assert!(matches!(
        stranger().offer(&mut manager, &transfer, failed()),
        Err(OfferError::Update(UpdateError::NotFound))
    ));
}

#[test]
fn given_message_is_sent_under_the_service() {
    let (_, worker) = known();
    let message = Message::stamped(
        "m".to_string(),
        8,
        "a".to_string(),
        Direction::Sent,
        "hi".to_string(),
    );
    let request = worker.message_request(&message);
    assert_eq!(request.ident, "service");
    assert_eq!(request.timestamp, 8);
    assert_eq!(request.message, "hi");
}
