//! The connection to one remote.
use crate::config::protocol::ProtocolConfig;
use crate::platform::decode_base64;
use crate::proto::{
    HaveDuplex, LookupName, LookupNameView, OpInfo, OpInfoView, RegRequest, RegRequestView,
    RemoteMachineAvatar, RemoteMachineInfo, StopInfo, StopInfoView, TextMessage, TransferOpRequest,
};
use crate::server::remote_manager::{
    ManagerView, RemoteManager, RemoteUpdate, ServerView, UpdateError,
};
use crate::text::{copy_optional_text, copy_texts, strip_line_breaks, to_decimal};
use crate::types::message::{Direction, Message};
use crate::types::remote::{RemoteConnectionError, RemoteState, RemoteView};
use crate::types::transfer::{
    PathProbe, SourcePathError, Transfer, TransferError, TransferKind, TransferKindView,
    TransferState, TransferUpdate, TransferView,
};
use vstd::prelude::*;
use vstd::string::*;

verus! {

/// How long the other side may take to connect back, in seconds.
pub const DUPLEX_TIMEOUT_SECS: u64 = 60;

/// Why a remote's certificate could not be had.
#[derive(Debug)]
pub enum ReceiveCertError {
    /// Local remote not found
    NoRemote,
    /// Failed to register with remote
    RegisterServiceError(String),
    /// Failed to request certificate
    CertificateRequestFailed(String),
    /// Group code mismatch
    WrongGroupCode,
    /// Remote registration service is offline
    Offline,
}

impl ReceiveCertError {
    /// What the error says.
    pub open spec fn text(self) -> Seq<char> {
        match self {
            ReceiveCertError::NoRemote => "Local remote not found"@,
            ReceiveCertError::RegisterServiceError(cause) => "Failed to register with remote: "@
                + cause@,
            ReceiveCertError::CertificateRequestFailed(cause) => "Failed to request certificate: "@
                + cause@,
            ReceiveCertError::WrongGroupCode => "Group code mismatch"@,
            ReceiveCertError::Offline => "Remote registration service is offline"@,
        }
    }

    /// The error in words.
    pub fn message(&self) -> (r: String)
        ensures
            r@ == self.text(),
    {
        match self {
            ReceiveCertError::NoRemote => "Local remote not found".to_string(),
            ReceiveCertError::RegisterServiceError(cause) => {
                "Failed to register with remote: ".to_string().concat(cause)
            },
            ReceiveCertError::CertificateRequestFailed(cause) => {
                "Failed to request certificate: ".to_string().concat(cause)
            },
            ReceiveCertError::WrongGroupCode => "Group code mismatch".to_string(),
            ReceiveCertError::Offline => "Remote registration service is offline".to_string(),
        }
    }
}

/// Why a remote could not be connected to.
#[derive(Debug)]
pub enum ConnectRemoteError {
    /// Failed to receive certificate
    CertificateError(ReceiveCertError),
    /// Failed to build TLS channel
    TlsError(String),
    /// Ping failed
    PingError(String),
    /// Duplex failed
    DuplexError(String),
    /// Remote worker not found
    RemoteWorkerNotFound,
}

impl ConnectRemoteError {
    /// What the error says.
    pub open spec fn text(self) -> Seq<char> {
        match self {
            ConnectRemoteError::CertificateError(cause) => "Failed to receive certificate: "@
                + cause.text(),
            ConnectRemoteError::TlsError(cause) => "Failed to build TLS channel: "@ + cause@,
            ConnectRemoteError::PingError(cause) => "Ping failed: "@ + cause@,
            ConnectRemoteError::DuplexError(cause) => "Duplex failed: "@ + cause@,
            ConnectRemoteError::RemoteWorkerNotFound => "Remote worker not found"@,
        }
    }

    /// The error in words.
    pub fn message(&self) -> (r: String)
        ensures
            r@ == self.text(),
    {
        match self {
            ConnectRemoteError::CertificateError(cause) => {
                "Failed to receive certificate: ".to_string().concat(&cause.message())
            },
            ConnectRemoteError::TlsError(cause) => {
                "Failed to build TLS channel: ".to_string().concat(cause)
            },
            ConnectRemoteError::PingError(cause) => "Ping failed: ".to_string().concat(cause),
            ConnectRemoteError::DuplexError(cause) => "Duplex failed: ".to_string().concat(cause),
            ConnectRemoteError::RemoteWorkerNotFound => "Remote worker not found".to_string(),
        }
    }
}

/// Why a worker could not do what it was asked to.
#[derive(Clone, Copy, Debug, PartialEq, Eq, Structural)]
pub enum WorkerError {
    /// The remote is not connected
    NoClient,
    /// The remote is not known
    RemoteNotFound,
    /// The transfer is not known
    TransferNotFound,
    /// Only incoming transfers can be accepted
    OutgoingTransfer,
    /// The other side has not connected back
    DuplexNotEstablished,
    /// What was to be changed is not known
    Update(UpdateError),
}

impl WorkerError {
    /// What the error says.
    pub open spec fn text(self) -> Seq<char> {
        match self {
            WorkerError::NoClient => "No client"@,
            WorkerError::RemoteNotFound => "Remote not found"@,
            WorkerError::TransferNotFound => "Transfer not found"@,
            WorkerError::OutgoingTransfer => "Cannot accept an outgoing transfer"@,
            WorkerError::DuplexNotEstablished => "Duplex not established"@,
            WorkerError::Update(error) => error.text(),
        }
    }

    /// The error in words.
    pub fn message(&self) -> (r: String)
        ensures
            r@ == self.text(),
    {
        match self {
            WorkerError::NoClient => "No client".to_string(),
            WorkerError::RemoteNotFound => "Remote not found".to_string(),
            WorkerError::TransferNotFound => "Transfer not found".to_string(),
            WorkerError::OutgoingTransfer => "Cannot accept an outgoing transfer".to_string(),
            WorkerError::DuplexNotEstablished => "Duplex not established".to_string(),
            WorkerError::Update(error) => error.message(),
        }
    }
}

/// Why a transfer could not be offered.
#[derive(Debug)]
pub enum OfferError {
    /// The paths to send could not be examined
    SourcePath(SourcePathError),
    /// The transfer is not known
    Update(UpdateError),
}

/// Why a boxed certificate could not be opened.
#[derive(Clone, Copy, Debug, PartialEq, Eq, Structural)]
pub enum CertUnboxError {
    /// There is less than a box holds at least
    BoxTooShort,
    /// The box was locked with another key
    DecryptionFailed,
}

/// What has happened on the way to a connection.
#[derive(Debug)]
pub enum ConnectEvent {
    /// A connection is wanted
    Begin,
    /// The remote's certificate is here
    CertificateReceived(Vec<u8>),
    /// The certificate could not be had
    CertificateFailed(ReceiveCertError),
    /// The channel stands
    ChannelBuilt,
    /// The channel could not be built
    ChannelFailed(String),
    /// The remote has answered
    PingSucceeded,
    /// The remote has not answered
    PingFailed(String),
    /// The remote has connected back
    DuplexEstablished,
    /// The remote has not connected back
    DuplexFailed(String),
    /// The remote has been asked who its user is
    MachineInfoDone,
    /// The remote has been asked for its user's picture
    AvatarDone,
}

/// What is to be done on the way to a connection, in order.
#[derive(Debug)]
pub enum ConnectEffect {
    /// Enter a state
    SetState(RemoteState),
    /// Get the remote's certificate, and tell how that went
    ReceiveCertificate,
    /// Build a channel secured by the certificate, and tell how that went
    BuildChannel(Vec<u8>),
    /// Keep the channel for the calls to come
    StoreChannel,
    /// Drop the channel
    ClearChannel,
    /// Ping the remote, and tell how that went
    Ping,
    /// Wait until the remote has connected back, and tell how that went
    WaitForDuplex,
    /// Ask the remote who its user is, and tell when that is done
    FetchMachineInfo,
    /// Ask the remote for its user's picture, and tell when that is done
    FetchAvatar,
    /// The connection stands
    Succeed,
    /// There is no connection
    Fail(ConnectRemoteError),
}

/// The state in which a remote is left whose certificate could not be had.
pub open spec fn state_without_certificate(error: ReceiveCertError) -> RemoteState {
    match error {
        ReceiveCertError::WrongGroupCode => RemoteState::Error(
            RemoteConnectionError::GroupCodeMismatch,
        ),
        ReceiveCertError::Offline => RemoteState::Disconnected,
        _ => RemoteState::Error(RemoteConnectionError::NoCertificate),
    }
}

/// What is to be done next on the way to a connection.
pub open spec fn connect_effects(event: ConnectEvent) -> Seq<ConnectEffect> {
    match event {
        ConnectEvent::Begin => seq![
            ConnectEffect::SetState(RemoteState::Connecting),
            ConnectEffect::ReceiveCertificate,
        ],
        ConnectEvent::CertificateReceived(pem) => seq![ConnectEffect::BuildChannel(pem)],
        ConnectEvent::CertificateFailed(error) => seq![
            ConnectEffect::SetState(state_without_certificate(error)),
            ConnectEffect::Fail(ConnectRemoteError::CertificateError(error)),
        ],
        ConnectEvent::ChannelBuilt => seq![ConnectEffect::StoreChannel, ConnectEffect::Ping],
        ConnectEvent::ChannelFailed(cause) => seq![
            ConnectEffect::SetState(RemoteState::Error(RemoteConnectionError::SslError)),
            ConnectEffect::Fail(ConnectRemoteError::TlsError(cause)),
        ],
        ConnectEvent::PingSucceeded => seq![
            ConnectEffect::SetState(RemoteState::AwaitingDuplex),
            ConnectEffect::WaitForDuplex,
        ],
        ConnectEvent::PingFailed(cause) => seq![
            ConnectEffect::ClearChannel,
            ConnectEffect::SetState(RemoteState::Error(RemoteConnectionError::SslError)),
            ConnectEffect::Fail(ConnectRemoteError::PingError(cause)),
        ],
        ConnectEvent::DuplexEstablished => seq![
            ConnectEffect::SetState(RemoteState::Connected),
            ConnectEffect::FetchMachineInfo,
        ],
        ConnectEvent::DuplexFailed(cause) => seq![
            ConnectEffect::ClearChannel,
            ConnectEffect::SetState(RemoteState::Error(RemoteConnectionError::DuplexError)),
            ConnectEffect::Fail(ConnectRemoteError::DuplexError(cause)),
        ],
        ConnectEvent::MachineInfoDone => seq![ConnectEffect::FetchAvatar],
        ConnectEvent::AvatarDone => seq![ConnectEffect::Succeed],
    }
}

/// What a worker waits for while its remote is in some state. A state change and the end of the
/// service are waited for in any case.
#[derive(Clone, Copy, Debug, PartialEq, Eq, Structural)]
pub enum LoopWait {
    /// The time to ping, in milliseconds
    PingAfter(u64),
    /// The time to connect again, in milliseconds
    ConnectAfter(u64),
    /// Nothing else
    StateChange,
    /// Nothing at all: the worker is done
    Stop,
}

/// What has ended a wait.
#[derive(Clone, Copy, Debug, PartialEq, Eq, Structural)]
pub enum LoopWake {
    /// The service ends
    Cancelled,
    /// The time is up
    Elapsed,
    /// The state has changed
    StateChanged,
}

/// What a worker does after a wait, in order.
#[derive(Clone, Copy, Debug, PartialEq, Eq, Structural)]
pub enum LoopEffect {
    /// Drop the channel
    ClearChannel,
    /// Enter a state
    SetState(RemoteState),
    /// Ping the remote, and tell how that went
    Ping,
    /// Connect, whatever comes of it
    Connect,
    /// Look at the state again
    Continue,
    /// Do nothing more
    Stop,
}

/// What is waited for in a state.
pub open spec fn wait_in(state: RemoteState, config: ProtocolConfig) -> LoopWait {
    match state {
        RemoteState::Connected => LoopWait::PingAfter(config.ping_interval),
        RemoteState::Disconnected => LoopWait::ConnectAfter(config.reconnect_interval),
        RemoteState::Error(RemoteConnectionError::GroupCodeMismatch) => LoopWait::Stop,
        RemoteState::Error(_) => LoopWait::ConnectAfter(config.reconnect_interval),
        _ => LoopWait::StateChange,
    }
}

/// Whether a wait can end in a certain way.
pub open spec fn can_end(wait: LoopWait, wake: LoopWake) -> bool {
    match wait {
        LoopWait::PingAfter(_) | LoopWait::ConnectAfter(_) => true,
        LoopWait::StateChange => !(wake is Elapsed),
        LoopWait::Stop => false,
    }
}

/// What is done after a wait.
pub open spec fn effects_after(wait: LoopWait, wake: LoopWake) -> Seq<LoopEffect> {
    match wake {
        LoopWake::Cancelled => seq![
            LoopEffect::ClearChannel,
            LoopEffect::SetState(RemoteState::Disconnected),
            LoopEffect::Stop,
        ],
        LoopWake::Elapsed => if wait is PingAfter {
            seq![LoopEffect::Ping]
        } else {
            seq![LoopEffect::Connect, LoopEffect::Continue]
        },
        LoopWake::StateChanged => seq![LoopEffect::Continue],
    }
}

/// What is done after a ping.
pub open spec fn effects_after_ping(answered: bool) -> Seq<LoopEffect> {
    if answered {
        seq![LoopEffect::Continue]
    } else {
        seq![
            LoopEffect::SetState(RemoteState::Disconnected),
            LoopEffect::ClearChannel,
            LoopEffect::Continue,
        ]
    }
}

/// A call for a remote's certificate.
#[derive(Debug)]
pub struct CertificateCall {
    pub address: String,
    /// In milliseconds
    pub connect_timeout: u64,
    pub request: RegRequest,
}

/// What became of a call for a certificate.
#[derive(Debug)]
pub enum CertificateReply {
    /// The address makes no sense, for the given reason
    BadAddress(String),
    /// Nobody can be reached there
    Unreachable,
    /// The call was refused, with what the code of the refusal means
    Refused(String),
    /// The certificate came in a box
    Locked(String),
}

/// Where and how to build a channel to a remote.
#[derive(Debug)]
pub struct ChannelTarget {
    pub address: String,
    /// The name that the remote's certificate is for
    pub domain_name: String,
    /// In milliseconds
    pub connect_timeout: u64,
}

/// How to stop a transfer.
#[derive(Debug)]
pub struct StopPlan {
    /// Whether this side is sending, and has to be told to stop
    pub stop_sending: bool,
    pub request: StopInfo,
}

/// How to call off a transfer.
#[derive(Debug)]
pub struct CancelPlan {
    /// Whether this side is sending, and has to be told to stop
    pub stop_sending: bool,
    pub request: OpInfo,
    /// Where the transfer stands once the other side has been told
    pub new_state: TransferState,
}

/// The address of a port of a remote.
pub open spec fn address_of(scheme: Seq<char>, ip: Seq<char>, port: u16) -> Seq<char> {
    scheme + ip + ":"@ + crate::text::decimal(port as nat)
}

/// Names a transfer to the other side.
pub open spec fn op_info(ident: Seq<char>, timestamp: u64) -> OpInfoView {
    OpInfoView { ident, timestamp, readable_name: Seq::empty(), use_compression: false }
}

/// The timestamp by which the other side knows a transfer.
pub open spec fn shared_timestamp(transfer: TransferView) -> u64 {
    match transfer.kind {
        TransferKindView::Incoming { remote_timestamp, .. } => remote_timestamp,
        TransferKindView::Outgoing { .. } => transfer.timestamp,
    }
}

/// Where a transfer stands once it has been called off before it began.
pub open spec fn state_called_off(transfer: TransferView) -> TransferState {
    match transfer.kind {
        TransferKindView::Incoming { .. } => TransferState::Denied,
        TransferKindView::Outgoing { .. } => TransferState::Canceled,
    }
}

/// The bytes of some pieces of a picture, one after the other.
pub open spec fn picture_bytes(pieces: Seq<RemoteMachineAvatar>) -> Seq<u8>
    decreases pieces.len(),
{
    if pieces.len() == 0 {
        Seq::empty()
    } else {
        picture_bytes(pieces.drop_last()) + pieces.last().avatar_chunk@
    }
}

/// What a [`RemoteWorker`] works with.
#[verifier::ext_equal]
pub struct WorkerView {
    pub uuid: Seq<char>,
    pub server: ServerView,
}

impl WorkerView {
    /// After the remote has entered a state. A remote that is not known any more is let be.
    pub open spec fn state_set(self, manager: ManagerView, state: RemoteState) -> ManagerView {
        match manager.remote_updated(self.uuid, RemoteUpdate::State(state)) {
            Some(after) => after,
            None => manager,
        }
    }

    /// The transfer of the remote with an identifier.
    pub open spec fn transfer(self, manager: ManagerView, uuid: Seq<char>) -> Option<
        TransferView,
    > {
        manager.transfer(self.uuid, uuid)
    }
}

/// Looks after the connection to one remote.
#[derive(Debug)]
pub struct RemoteWorker {
    uuid: String,
    protocol_config: ProtocolConfig,
    server_hostname: String,
    server_ip: String,
    server_fullname: String,
}

impl View for RemoteWorker {
    type V = WorkerView;

    closed spec fn view(&self) -> WorkerView {
        WorkerView {
            uuid: self.uuid@,
            server: ServerView {
                protocol_config: self.protocol_config,
                hostname: self.server_hostname@,
                ip: self.server_ip@,
                fullname: self.server_fullname@,
            },
        }
    }
}

impl Clone for RemoteWorker {
    fn clone(&self) -> (r: Self)
        ensures
            r == *self,
    {
        RemoteWorker {
            uuid: self.uuid.clone(),
            protocol_config: self.protocol_config,
            server_hostname: self.server_hostname.clone(),
            server_ip: self.server_ip.clone(),
            server_fullname: self.server_fullname.clone(),
        }
    }
}

fn make_address(scheme: &str, ip: &str, port: u16) -> (r: String)
    ensures
        r@ == address_of(scheme@, ip@, port),
{
    scheme.to_string().concat(ip).concat(":").concat(&to_decimal(port))
}

/// What comes of the decoded certificate box: its bytes, or the error that says that it could
/// not be decoded.
pub fn decoded_box(decoded: Result<Vec<u8>, String>) -> (r: Result<Vec<u8>, ReceiveCertError>)
    ensures
        match decoded {
            Ok(bytes) => r == Ok::<Vec<u8>, ReceiveCertError>(bytes),
            Err(cause) => r matches Err(ReceiveCertError::CertificateRequestFailed(message))
                && message@ == "Failed to decode base64 certificate "@ + cause@,
        },
{
    match decoded {
        Ok(bytes) => Ok(bytes),
        Err(cause) => Err(
            ReceiveCertError::CertificateRequestFailed(
                "Failed to decode base64 certificate ".to_string().concat(&cause),
            ),
        ),
    }
}

/// Whether a boxed certificate came out as it should: as the bytes that the Base64 stands for,
/// or as the error that says why it stands for none. Line breaks do not count.
pub open spec fn box_came_out(
    locked_cert: Seq<char>,
    r: Result<Vec<u8>, ReceiveCertError>,
) -> bool {
    match crate::platform::base64_decoded(crate::text::without_line_breaks(locked_cert)) {
        Ok(bytes) => r matches Ok(b) && b@ == bytes,
        Err(cause) => r matches Err(ReceiveCertError::CertificateRequestFailed(message)) && message@
            == "Failed to decode base64 certificate "@ + cause,
    }
}

/// Takes the Base64 off a boxed certificate.
pub fn decode_box(locked_cert: &str) -> (r: Result<Vec<u8>, ReceiveCertError>)
    ensures
        box_came_out(locked_cert@, r),
{
    decoded_box(decode_base64(&strip_line_breaks(locked_cert)))
}

/// The boxed certificate in a registration service's reply, or why there is none.
pub fn boxed_certificate(reply: CertificateReply) -> (r: Result<Vec<u8>, ReceiveCertError>)
    ensures
        match reply {
            CertificateReply::BadAddress(cause) => r == Err::<Vec<u8>, ReceiveCertError>(
                ReceiveCertError::RegisterServiceError(cause),
            ),
            CertificateReply::Unreachable => r == Err::<Vec<u8>, ReceiveCertError>(
                ReceiveCertError::Offline,
            ),
            CertificateReply::Refused(description) => r == Err::<Vec<u8>, ReceiveCertError>(
                ReceiveCertError::CertificateRequestFailed(description),
            ),
            CertificateReply::Locked(locked_cert) => box_came_out(locked_cert@, r),
        },
{
    match reply {
        CertificateReply::BadAddress(cause) => Err(ReceiveCertError::RegisterServiceError(cause)),
        CertificateReply::Unreachable => Err(ReceiveCertError::Offline),
        CertificateReply::Refused(description) => Err(
            ReceiveCertError::CertificateRequestFailed(description),
        ),
        CertificateReply::Locked(locked_cert) => decode_box(&locked_cert),
    }
}

/// What comes of the other side's word on a two-way connection.
pub fn duplex_answer(answer: HaveDuplex) -> (r: Result<(), WorkerError>)
    ensures
        r == (if answer.response {
            Ok::<(), WorkerError>(())
        } else {
            Err(WorkerError::DuplexNotEstablished)
        }),
{
    if answer.response {
        Ok(())
    } else {
        Err(WorkerError::DuplexNotEstablished)
    }
}

/// What a worker does after a wait.
pub fn after_wait(wait: LoopWait, wake: LoopWake) -> (r: Vec<LoopEffect>)
    requires
        can_end(wait, wake),
    ensures
        r@ == effects_after(wait, wake),
{
    let mut effects: Vec<LoopEffect> = Vec::new();
    match wake {
        LoopWake::Cancelled => {
            effects.push(LoopEffect::ClearChannel);
            effects.push(LoopEffect::SetState(RemoteState::Disconnected));
            effects.push(LoopEffect::Stop);
        },
        LoopWake::Elapsed => match wait {
            LoopWait::PingAfter(_) => {
                effects.push(LoopEffect::Ping);
            },
            _ => {
                effects.push(LoopEffect::Connect);
                effects.push(LoopEffect::Continue);
            },
        },
        LoopWake::StateChanged => {
            effects.push(LoopEffect::Continue);
        },
    }
    assert(effects@ =~= effects_after(wait, wake));
    effects
}

/// What a worker does after a ping.
pub fn after_ping(answered: bool) -> (r: Vec<LoopEffect>)
    ensures
        r@ == effects_after_ping(answered),
{
    let mut effects: Vec<LoopEffect> = Vec::new();
    if !answered {
        effects.push(LoopEffect::SetState(RemoteState::Disconnected));
        effects.push(LoopEffect::ClearChannel);
    }
    effects.push(LoopEffect::Continue);
    assert(effects@ =~= effects_after_ping(answered));
    effects
}

impl RemoteWorker {
    /// The worker of the remote with a given identifier.
    pub fn new(
        uuid: String,
        protocol_config: ProtocolConfig,
        server_hostname: String,
        server_ip: String,
        server_fullname: String,
    ) -> (r: Self)
        ensures
            r@ == (WorkerView {
                uuid: uuid@,
                server: ServerView {
                    protocol_config,
                    hostname: server_hostname@,
                    ip: server_ip@,
                    fullname: server_fullname@,
                },
            }),
    {
        RemoteWorker { uuid, protocol_config, server_hostname, server_ip, server_fullname }
    }

    /// What to wait for while the remote is in a state. A group code that does not match is not
    /// worth another attempt.
    pub fn next_wait(&self, state: RemoteState) -> (r: LoopWait)
        ensures
            r == wait_in(state, self@.server.protocol_config),
    {
        match state {
            RemoteState::Connected => LoopWait::PingAfter(self.protocol_config.ping_interval),
            RemoteState::Disconnected => {
                LoopWait::ConnectAfter(self.protocol_config.reconnect_interval)
            },
            RemoteState::Error(RemoteConnectionError::GroupCodeMismatch) => LoopWait::Stop,
            RemoteState::Error(_) => {
                LoopWait::ConnectAfter(self.protocol_config.reconnect_interval)
            },
            _ => LoopWait::StateChange,
        }
    }

    /// The next part of the way to a connection.
    pub fn connect(&self, event: ConnectEvent) -> (r: Vec<ConnectEffect>)
        ensures
            r@ == connect_effects(event),
    {
        let mut effects: Vec<ConnectEffect> = Vec::new();
        match event {
            ConnectEvent::Begin => {
                effects.push(ConnectEffect::SetState(RemoteState::Connecting));
                effects.push(ConnectEffect::ReceiveCertificate);
            },
            ConnectEvent::CertificateReceived(pem) => {
                effects.push(ConnectEffect::BuildChannel(pem));
            },
            ConnectEvent::CertificateFailed(error) => {
                let state = match &error {
                    ReceiveCertError::WrongGroupCode => RemoteState::Error(
                        RemoteConnectionError::GroupCodeMismatch,
                    ),
                    ReceiveCertError::Offline => RemoteState::Disconnected,
                    _ => RemoteState::Error(RemoteConnectionError::NoCertificate),
                };
                effects.push(ConnectEffect::SetState(state));
                effects.push(ConnectEffect::Fail(ConnectRemoteError::CertificateError(error)));
            },
            ConnectEvent::ChannelBuilt => {
                effects.push(ConnectEffect::StoreChannel);
                effects.push(ConnectEffect::Ping);
            },
            ConnectEvent::ChannelFailed(cause) => {
                effects.push(
                    ConnectEffect::SetState(RemoteState::Error(RemoteConnectionError::SslError)),
                );
                effects.push(ConnectEffect::Fail(ConnectRemoteError::TlsError(cause)));
            },
            ConnectEvent::PingSucceeded => {
                effects.push(ConnectEffect::SetState(RemoteState::AwaitingDuplex));
                effects.push(ConnectEffect::WaitForDuplex);
            },
            ConnectEvent::PingFailed(cause) => {
                effects.push(ConnectEffect::ClearChannel);
                effects.push(
                    ConnectEffect::SetState(RemoteState::Error(RemoteConnectionError::SslError)),
                );
                effects.push(ConnectEffect::Fail(ConnectRemoteError::PingError(cause)));
            },
            ConnectEvent::DuplexEstablished => {
                effects.push(ConnectEffect::SetState(RemoteState::Connected));
                effects.push(ConnectEffect::FetchMachineInfo);
            },
            ConnectEvent::DuplexFailed(cause) => {
                effects.push(ConnectEffect::ClearChannel);
                effects.push(
                    ConnectEffect::SetState(RemoteState::Error(RemoteConnectionError::DuplexError)),
                );
                effects.push(ConnectEffect::Fail(ConnectRemoteError::DuplexError(cause)));
            },
            ConnectEvent::MachineInfoDone => {
                effects.push(ConnectEffect::FetchAvatar);
            },
            ConnectEvent::AvatarDone => {
                effects.push(ConnectEffect::Succeed);
            },
        }
        assert(effects@ =~= connect_effects(event));
        effects
    }

    /// Records that the remote has entered a state.
    pub fn set_state(&self, manager: &mut RemoteManager, state: RemoteState)
        requires
            old(manager).wf(),
        ensures
            final(manager).wf(),
            final(manager)@ == self@.state_set(old(manager)@, state),
    {
        let _ = manager.update_remote(&self.uuid, RemoteUpdate::State(state));
    }

    /// How to ask the remote's registration service for its certificate.
    pub fn receive_certificate(&self, manager: &RemoteManager) -> (r: Result<
        CertificateCall,
        ReceiveCertError,
    >)
        requires
            manager.wf(),
        ensures
            match manager@.remote(self@.uuid) {
                Some(remote) => r matches Ok(call) && {
                    &&& call.address@ == address_of("http://"@, remote.ip, remote.auth_port)
                    &&& call.connect_timeout == self@.server.protocol_config.connect_timeout
                    &&& call.request@ == (RegRequestView {
                        ip: self@.server.ip,
                        hostname: self@.server.hostname,
                        ipv6: Seq::empty(),
                    })
                },
                None => r matches Err(ReceiveCertError::NoRemote),
            },
    {
        match manager.remote(&self.uuid) {
            Some(remote) => Ok(
                CertificateCall {
                    address: make_address("http://", &remote.ip, remote.auth_port),
                    connect_timeout: self.protocol_config.connect_timeout,
                    request: RegRequest {
                        ip: self.server_ip.clone(),
                        hostname: self.server_hostname.clone(),
                        ipv6: String::new(),
                    },
                },
            ),
            None => Err(ReceiveCertError::NoRemote),
        }
    }

    /// Records the certificate that was in the box, if the box could be opened.
    pub fn store_certificate(
        &self,
        manager: &mut RemoteManager,
        unboxed: Result<Vec<u8>, CertUnboxError>,
    ) -> (r: Result<Vec<u8>, ReceiveCertError>)
        requires
            old(manager).wf(),
        ensures
            final(manager).wf(),
            match unboxed {
                Ok(pem) => match old(manager)@.remote_updated(
                    self@.uuid,
                    RemoteUpdate::Certificate(pem),
                ) {
                    Some(after) => r matches Ok(p) && p@ == pem@ && final(manager)@ == after,
                    None => r matches Err(ReceiveCertError::NoRemote) && final(manager)@ == old(
                        manager,
                    )@,
                },
                Err(CertUnboxError::BoxTooShort) => {
                    &&& r matches Err(ReceiveCertError::CertificateRequestFailed(message))
                        && message@ == "Box too short"@
                    &&& final(manager)@ == old(manager)@
                },
                Err(CertUnboxError::DecryptionFailed) => {
                    &&& r matches Err(ReceiveCertError::WrongGroupCode)
                    &&& final(manager)@ == old(manager)@
                },
            },
    {
        match unboxed {
            Ok(pem) => {
                let kept = pem.clone();
                match manager.update_remote(&self.uuid, RemoteUpdate::Certificate(pem)) {
                    Ok(()) => Ok(kept),
                    Err(_) => Err(ReceiveCertError::NoRemote),
                }
            },
            Err(CertUnboxError::BoxTooShort) => Err(
                ReceiveCertError::CertificateRequestFailed("Box too short".to_string()),
            ),
            Err(CertUnboxError::DecryptionFailed) => Err(ReceiveCertError::WrongGroupCode),
        }
    }

    /// Where and how to build the channel to the remote.
    pub fn build_channel(&self, manager: &RemoteManager) -> (r: Result<ChannelTarget, WorkerError>)
        requires
            manager.wf(),
        ensures
            match manager@.remote(self@.uuid) {
                Some(remote) => r matches Ok(target) && {
                    &&& target.address@ == address_of("https://"@, remote.ip, remote.port)
                    &&& target.domain_name@ == remote.ip
                    &&& target.connect_timeout == self@.server.protocol_config.connect_timeout
                },
                None => r == Err::<ChannelTarget, WorkerError>(WorkerError::RemoteNotFound),
            },
    {
        match manager.remote(&self.uuid) {
            Some(remote) => Ok(
                ChannelTarget {
                    address: make_address("https://", &remote.ip, remote.port),
                    domain_name: remote.ip,
                    connect_timeout: self.protocol_config.connect_timeout,
                },
            ),
            None => Err(WorkerError::RemoteNotFound),
        }
    }

    /// The ping to send.
    pub fn ping(&self, has_client: bool) -> (r: Result<LookupName, WorkerError>)
        ensures
            !has_client ==> r == Err::<LookupName, WorkerError>(WorkerError::NoClient),
            has_client ==> (r matches Ok(request) && request@ == (LookupNameView {
                id: self@.uuid,
                readable_name: self@.server.hostname,
            })),
    {
        if !has_client {
            return Err(WorkerError::NoClient);
        }
        Ok(LookupName { id: self.uuid.clone(), readable_name: self.server_hostname.clone() })
    }

    /// The question whether the remote has connected back.
    pub fn wait_for_duplex(&self, has_client: bool) -> (r: Result<LookupName, WorkerError>)
        ensures
            !has_client ==> r == Err::<LookupName, WorkerError>(WorkerError::NoClient),
            has_client ==> (r matches Ok(request) && request@ == (LookupNameView {
                id: self@.server.fullname,
                readable_name: self@.server.hostname,
            })),
    {
        if !has_client {
            return Err(WorkerError::NoClient);
        }
        Ok(
            LookupName {
                id: self.server_fullname.clone(),
                readable_name: self.server_hostname.clone(),
            },
        )
    }

    /// Records what the remote has told about its user.
    pub fn fetch_machine_info(&self, manager: &mut RemoteManager, info: RemoteMachineInfo) -> (r:
        Result<(), UpdateError>)
        requires
            old(manager).wf(),
        ensures
            final(manager).wf(),
            crate::server::remote_manager::change_came_out(
                old(manager)@,
                old(manager)@.remote_updated(
                    self@.uuid,
                    RemoteUpdate::MachineInfo {
                        display_name: info.display_name,
                        username: info.user_name,
                    },
                ),
                final(manager)@,
                r,
            ),
    {
        manager.update_remote(
            &self.uuid,
            RemoteUpdate::MachineInfo {
                display_name: info.display_name,
                username: info.user_name,
            },
        )
    }

    /// Records the picture that the remote has sent in pieces. An empty one is let be.
    pub fn fetch_avatar(&self, manager: &mut RemoteManager, pieces: &Vec<RemoteMachineAvatar>) -> (r:
        Result<(), UpdateError>)
        requires
            old(manager).wf(),
        ensures
            final(manager).wf(),
            picture_bytes(pieces@).len() == 0 ==> r is Ok && final(manager)@ == old(manager)@,
            picture_bytes(pieces@).len() > 0 ==> match old(manager)@.place(self@.uuid) {
                Some(i) => r is Ok && final(manager)@ == old(manager)@.with_remote(
                    i,
                    RemoteView {
                        picture: Some(picture_bytes(pieces@)),
                        ..old(manager)@.remotes[i]
                    },
                ).notified(
                    crate::server::remote_manager::WarpEventView::RemoteUpdated(self@.uuid),
                ),
                None => r == Err::<(), UpdateError>(UpdateError::NotFound) && final(manager)@
                    == old(manager)@,
            },
    {
        let mut bytes: Vec<u8> = Vec::new();
        assert(bytes@ =~= picture_bytes(pieces@.take(0)));
        for i in 0..pieces.len()
            invariant
                bytes@ == picture_bytes(pieces@.take(i as int)),
        {
            assert(pieces@.take(i + 1).drop_last() =~= pieces@.take(i as int));
            bytes.extend_from_slice(&pieces[i].avatar_chunk);
            assert(bytes@ =~= picture_bytes(pieces@.take(i + 1)));
        }
        assert(pieces@.take(pieces@.len() as int) =~= pieces@);
        if bytes.len() == 0 {
            return Ok(());
        }
        manager.update_remote(&self.uuid, RemoteUpdate::Picture(bytes))
    }

    /// A new transfer to the remote, entered before its paths are examined so that it shows at
    /// once.
    pub fn new_transfer(
        &self,
        manager: &mut RemoteManager,
        has_client: bool,
        source_paths: Vec<String>,
    ) -> (r: Result<Transfer, WorkerError>)
        requires
            old(manager).wf(),
        ensures
            final(manager).wf(),
            !has_client ==> r == Err::<Transfer, WorkerError>(WorkerError::NoClient),
            has_client && old(manager)@.remote(self@.uuid) is None ==> r == Err::<
                Transfer,
                WorkerError,
            >(WorkerError::Update(UpdateError::NotFound)),
            has_client && old(manager)@.remote(self@.uuid) is Some ==> r is Ok,
            match r {
                Ok(transfer) => {
                    &&& crate::platform::is_random_uuid(transfer@.uuid)
                    &&& transfer@ == crate::types::transfer::outgoing_transfer(
                        transfer@.uuid,
                        transfer@.timestamp,
                        self@.uuid,
                        crate::text::texts(source_paths@),
                    )
                    &&& old(manager)@.transfer_added(self@.uuid, transfer@) == Some(
                        final(manager)@,
                    )
                },
                Err(_) => final(manager)@ == old(manager)@,
            },
    {
        if !has_client {
            return Err(WorkerError::NoClient);
        }
        let transfer = Transfer::new_outgoing(self.uuid.clone(), source_paths);
        self.enter_transfer(manager, transfer)
    }

    /// Enters a transfer to the remote.
    pub fn enter_transfer(&self, manager: &mut RemoteManager, transfer: Transfer) -> (r: Result<
        Transfer,
        WorkerError,
    >)
        requires
            old(manager).wf(),
        ensures
            final(manager).wf(),
            match old(manager)@.transfer_added(self@.uuid, transfer@) {
                Some(after) => r matches Ok(t) && t@ == transfer@ && final(manager)@ == after,
                None => {
                    &&& r == Err::<Transfer, WorkerError>(
                        WorkerError::Update(UpdateError::NotFound),
                    )
                    &&& final(manager)@ == old(manager)@
                },
            },
    {
        match manager.add_transfer(&self.uuid, transfer.clone()) {
            Ok(()) => Ok(transfer),
            Err(error) => Err(WorkerError::Update(error)),
        }
    }

    /// The offer of a transfer, from what was found at its paths. Where they could not be
    /// examined, the transfer has failed.
    pub fn send_transfer_request(
        &self,
        manager: &mut RemoteManager,
        transfer: &mut Transfer,
        paths: &Vec<String>,
        probes: &Vec<PathProbe>,
    ) -> (r: Result<TransferOpRequest, OfferError>)
        requires
            old(manager).wf(),
            crate::types::transfer::probes_cover(crate::text::texts(paths@), probes@),
            crate::types::transfer::probed_bytes(probes@) <= u64::MAX,
            crate::types::transfer::probed_files(probes@) <= u64::MAX,
        ensures
            final(manager).wf(),
            match crate::types::transfer::described(
                old(transfer)@,
                crate::text::texts(paths@),
                probes@,
            ) {
                Ok(described) => {
                    &&& r matches Ok(request) && request@ == described.to_request(
                        self@.server.fullname,
                    )
                    &&& final(transfer)@ == described
                    &&& final(manager)@ == old(manager)@
                },
                Err(error) => {
                    &&& final(transfer)@ == old(transfer)@
                    &&& match old(manager)@.transfer_updated(
                        self@.uuid,
                        old(transfer)@.uuid,
                        TransferUpdate::State(
                            TransferState::Failed(TransferError::FailedToProcessFiles),
                        ),
                    ) {
                        Some(after) => final(manager)@ == after && (r matches Err(
                            OfferError::SourcePath(e),
                        ) && e@ == error),
                        None => final(manager)@ == old(manager)@ && r == Err::<
                            TransferOpRequest,
                            OfferError,
                        >(OfferError::Update(UpdateError::NotFound)),
                    }
                },
            },
    {
        let processed = transfer.process_paths(paths, probes);
        self.offer(manager, transfer, processed)
    }

    /// The offer of a transfer whose paths have been examined, or, where they could not be, the
    /// record that it has failed.
    pub fn offer(
        &self,
        manager: &mut RemoteManager,
        transfer: &Transfer,
        processed: Result<(), SourcePathError>,
    ) -> (r: Result<TransferOpRequest, OfferError>)
        requires
            old(manager).wf(),
        ensures
            final(manager).wf(),
            match processed {
                Ok(()) => {
                    &&& r matches Ok(request) && request@ == transfer@.to_request(
                        self@.server.fullname,
                    )
                    &&& final(manager)@ == old(manager)@
                },
                Err(error) => match old(manager)@.transfer_updated(
                    self@.uuid,
                    transfer@.uuid,
                    TransferUpdate::State(
                        TransferState::Failed(TransferError::FailedToProcessFiles),
                    ),
                ) {
                    Some(after) => final(manager)@ == after && r == Err::<
                        TransferOpRequest,
                        OfferError,
                    >(OfferError::SourcePath(error)),
                    None => final(manager)@ == old(manager)@ && r == Err::<
                        TransferOpRequest,
                        OfferError,
                    >(OfferError::Update(UpdateError::NotFound)),
                },
            },
    {
        match processed {
            Ok(()) => Ok(transfer.as_proto(&self.server_fullname)),
            Err(error) => {
                let failed = TransferUpdate::State(
                    TransferState::Failed(TransferError::FailedToProcessFiles),
                );
                match manager.update_transfer(&self.uuid, &transfer.uuid, failed) {
                    Ok(()) => Err(OfferError::SourcePath(error)),
                    Err(error) => Err(OfferError::Update(error)),
                }
            },
        }
    }

    /// Records that a transfer has been offered as described, and waits for permission.
    pub fn transfer_offered(&self, manager: &mut RemoteManager, transfer: &Transfer) -> (r: Result<
        (),
        UpdateError,
    >)
        requires
            old(manager).wf(),
        ensures
            final(manager).wf(),
            match old(manager)@.place(self@.uuid) {
                Some(i) => match old(manager)@.transfer_place(i, transfer@.uuid) {
                    Some(k) => {
                        let before = old(manager)@.remotes[i].transfers;
                        let offered = TransferView {
                            total_bytes: transfer@.total_bytes,
                            file_count: transfer@.file_count,
                            entry_names: transfer@.entry_names,
                            single_name: transfer@.single_name,
                            single_mime_type: transfer@.single_mime_type,
                            state: TransferState::WaitingPermission,
                            ..before[k]
                        };
                        &&& r is Ok
                        &&& final(manager)@ == old(manager)@.with_transfers(
                            i,
                            before.update(k, offered),
                        ).notified(
                            crate::server::remote_manager::WarpEventView::TransferUpdated(
                                self@.uuid,
                                transfer@.uuid,
                            ),
                        )
                    },
                    None => r == Err::<(), UpdateError>(UpdateError::NotFound) && final(manager)@
                        == old(manager)@,
                },
                None => r == Err::<(), UpdateError>(UpdateError::NotFound) && final(manager)@
                    == old(manager)@,
            },
    {
        let update = TransferUpdate::Offered {
            total_bytes: transfer.total_bytes,
            file_count: transfer.file_count,
            entry_names: copy_texts(&transfer.entry_names),
            single_name: copy_optional_text(&transfer.single_name),
            single_mime_type: copy_optional_text(&transfer.single_mime_type),
        };
        manager.update_transfer(&self.uuid, &transfer.uuid, update)
    }

    /// A new message to the remote, and the form in which it is sent.
    pub fn send_message(&self, has_client: bool, message: &str) -> (r: Result<
        (Message, TextMessage),
        WorkerError,
    >)
        ensures
            !has_client ==> r == Err::<(Message, TextMessage), WorkerError>(WorkerError::NoClient),
            has_client ==> (r matches Ok(sent) && {
                &&& crate::platform::is_random_uuid(sent.0@.uuid)
                &&& sent.0@.remote_uuid == self@.uuid
                &&& sent.0@.direction == Direction::Sent
                &&& sent.0@.content == message@
                &&& sent.1@ == sent.0@.to_proto(self@.server.fullname)
            }),
    {
        if !has_client {
            return Err(WorkerError::NoClient);
        }
        let message = Message::new(self.uuid.clone(), Direction::Sent, message.to_string());
        let request = self.message_request(&message);
        Ok((message, request))
    }

    /// The form in which a message is sent to the remote.
    pub fn message_request(&self, message: &Message) -> (r: TextMessage)
        ensures
            r@ == message@.to_proto(self@.server.fullname),
    {
        message.as_proto(&self.server_fullname)
    }

    /// Records a message that has been sent.
    pub fn message_sent(&self, manager: &mut RemoteManager, message: Message) -> (r: Result<
        (),
        UpdateError,
    >)
        requires
            old(manager).wf(),
        ensures
            final(manager).wf(),
            crate::server::remote_manager::change_came_out(
                old(manager)@,
                old(manager)@.message_added(self@.uuid, message@),
                final(manager)@,
                r,
            ),
    {
        manager.add_message(&self.uuid, message)
    }

    /// The word to the other side that a transfer is accepted. Only incoming transfers can be.
    pub fn accept_transfer(
        &self,
        manager: &RemoteManager,
        has_client: bool,
        transfer_uuid: &str,
    ) -> (r: Result<OpInfo, WorkerError>)
        requires
            manager.wf(),
        ensures
            !has_client ==> r == Err::<OpInfo, WorkerError>(WorkerError::NoClient),
            has_client ==> match self@.transfer(manager@, transfer_uuid@) {
                None => r == Err::<OpInfo, WorkerError>(WorkerError::TransferNotFound),
                Some(transfer) => match transfer.kind {
                    TransferKindView::Outgoing { .. } => r == Err::<OpInfo, WorkerError>(
                        WorkerError::OutgoingTransfer,
                    ),
                    TransferKindView::Incoming { remote_timestamp, .. } => r matches Ok(info)
                        && info@ == op_info(self@.server.fullname, remote_timestamp),
                },
            },
    {
        if !has_client {
            return Err(WorkerError::NoClient);
        }
        match manager.transfer(&self.uuid, transfer_uuid) {
            None => Err(WorkerError::TransferNotFound),
            Some(transfer) => match transfer.kind {
                TransferKind::Outgoing { .. } => Err(WorkerError::OutgoingTransfer),
                TransferKind::Incoming { remote_timestamp, .. } => Ok(
                    self.make_op_info(remote_timestamp),
                ),
            },
        }
    }

    /// Records that an incoming transfer has been accepted into a directory and has begun.
    pub fn transfer_accepted(
        &self,
        manager: &mut RemoteManager,
        transfer_uuid: &str,
        destination: String,
        remote_timestamp: u64,
    ) -> (r: Result<(), UpdateError>)
        requires
            old(manager).wf(),
        ensures
            final(manager).wf(),
            crate::server::remote_manager::change_came_out(
                old(manager)@,
                old(manager)@.transfer_updated(
                    self@.uuid,
                    transfer_uuid@,
                    TransferUpdate::Accepted { destination, remote_timestamp },
                ),
                final(manager)@,
                r,
            ),
    {
        manager.update_transfer(
            &self.uuid,
            transfer_uuid,
            TransferUpdate::Accepted { destination, remote_timestamp },
        )
    }

    fn make_op_info(&self, timestamp: u64) -> (r: OpInfo)
        ensures
            r@ == op_info(self@.server.fullname, timestamp),
    {
        OpInfo {
            ident: self.server_fullname.clone(),
            timestamp,
            readable_name: String::new(),
            use_compression: false,
        }
    }

    /// How to stop an in-progress transfer. Don't use on transfers that are not in progress
    pub fn stop_transfer(
        &self,
        manager: &RemoteManager,
        has_client: bool,
        transfer_uuid: &str,
        error: bool,
    ) -> (r: Result<StopPlan, WorkerError>)
        requires
            manager.wf(),
        ensures
            !has_client ==> r == Err::<StopPlan, WorkerError>(WorkerError::NoClient),
            has_client ==> match self@.transfer(manager@, transfer_uuid@) {
                None => r == Err::<StopPlan, WorkerError>(WorkerError::TransferNotFound),
                Some(transfer) => r matches Ok(plan) && {
                    &&& plan.stop_sending == (transfer.kind is Outgoing)
                    &&& plan.request@ == (StopInfoView {
                        info: Some(op_info(self@.server.fullname, shared_timestamp(transfer))),
                        error,
                    })
                },
            },
    {
        if !has_client {
            return Err(WorkerError::NoClient);
        }
        match manager.transfer(&self.uuid, transfer_uuid) {
            None => Err(WorkerError::TransferNotFound),
            Some(transfer) => {
                let (stop_sending, timestamp) = match transfer.kind {
                    TransferKind::Incoming { remote_timestamp, .. } => (false, remote_timestamp),
                    TransferKind::Outgoing { .. } => (true, transfer.timestamp),
                };
                Ok(
                    StopPlan {
                        stop_sending,
                        request: StopInfo { info: Some(self.make_op_info(timestamp)), error },
                    },
                )
            },
        }
    }

    /// Records that a transfer has been stopped.
    pub fn transfer_stopped(&self, manager: &mut RemoteManager, transfer_uuid: &str) -> (r: Result<
        (),
        UpdateError,
    >)
        requires
            old(manager).wf(),
        ensures
            final(manager).wf(),
            crate::server::remote_manager::change_came_out(
                old(manager)@,
                old(manager)@.transfer_updated(
                    self@.uuid,
                    transfer_uuid@,
                    TransferUpdate::State(TransferState::Stopped),
                ),
                final(manager)@,
                r,
            ),
    {
        manager.update_transfer(
            &self.uuid,
            transfer_uuid,
            TransferUpdate::State(TransferState::Stopped),
        )
    }

    /// How to reject an incoming transfer or cancel an outgoing one. Use only on transfers
    /// waiting for permission
    pub fn cancel_transfer(
        &self,
        manager: &RemoteManager,
        has_client: bool,
        transfer_uuid: &str,
    ) -> (r: Result<CancelPlan, WorkerError>)
        requires
            manager.wf(),
        ensures
            !has_client ==> r == Err::<CancelPlan, WorkerError>(WorkerError::NoClient),
            has_client ==> match self@.transfer(manager@, transfer_uuid@) {
                None => r == Err::<CancelPlan, WorkerError>(WorkerError::TransferNotFound),
                Some(transfer) => r matches Ok(plan) && {
                    &&& plan.stop_sending == (transfer.kind is Outgoing)
                    &&& plan.request@ == op_info(
                        self@.server.fullname,
                        shared_timestamp(transfer),
                    )
                    &&& plan.new_state == state_called_off(transfer)
                },
            },
    {
        if !has_client {
            return Err(WorkerError::NoClient);
        }
        match manager.transfer(&self.uuid, transfer_uuid) {
            None => Err(WorkerError::TransferNotFound),
            Some(transfer) => Ok(
                match transfer.kind {
                    TransferKind::Incoming { remote_timestamp, .. } => CancelPlan {
                        stop_sending: false,
                        request: self.make_op_info(remote_timestamp),
                        new_state: TransferState::Denied,
                    },
                    TransferKind::Outgoing { .. } => CancelPlan {
                        stop_sending: true,
                        request: self.make_op_info(transfer.timestamp),
                        new_state: TransferState::Canceled,
                    },
                },
            ),
        }
    }

    /// Records that a transfer has been called off.
    pub fn transfer_cancelled(
        &self,
        manager: &mut RemoteManager,
        transfer_uuid: &str,
        new_state: TransferState,
    ) -> (r: Result<(), UpdateError>)
        requires
            old(manager).wf(),
        ensures
            final(manager).wf(),
            crate::server::remote_manager::change_came_out(
                old(manager)@,
                old(manager)@.transfer_updated(
                    self@.uuid,
                    transfer_uuid@,
                    TransferUpdate::State(new_state),
                ),
                final(manager)@,
                r,
            ),
    {
        manager.update_transfer(&self.uuid, transfer_uuid, TransferUpdate::State(new_state))
    }
}

/// Whether an event tells how what was asked for went.
pub open spec fn answers(effect: ConnectEffect, event: ConnectEvent) -> bool {
    match effect {
        ConnectEffect::ReceiveCertificate => event is CertificateReceived
            || event is CertificateFailed,
        ConnectEffect::BuildChannel(_) => event is ChannelBuilt || event is ChannelFailed,
        ConnectEffect::Ping => event is PingSucceeded || event is PingFailed,
        ConnectEffect::WaitForDuplex => event is DuplexEstablished || event is DuplexFailed,
        ConnectEffect::FetchMachineInfo => event is MachineInfoDone,
        ConnectEffect::FetchAvatar => event is AvatarDone,
        _ => false,
    }
}

/// Whether some events are an attempt to connect: it is begun, and every event after that tells
/// how what was asked for last went.
pub open spec fn is_attempt(events: Seq<ConnectEvent>) -> bool {
    &&& events.len() > 0
    &&& events[0] is Begin
    &&& forall|i: int|
        0 < i < events.len() ==> answers(
            connect_effects(events[i - 1]).last(),
            #[trigger] events[i],
        )
}

/// The states that are entered while some things are done.
pub open spec fn states_in(effects: Seq<ConnectEffect>) -> Seq<RemoteState>
    decreases effects.len(),
{
    if effects.len() == 0 {
        Seq::empty()
    } else {
        match effects.last() {
            ConnectEffect::SetState(state) => states_in(effects.drop_last()).push(state),
            _ => states_in(effects.drop_last()),
        }
    }
}

/// The states that are entered during an attempt.
pub open spec fn states_entered(events: Seq<ConnectEvent>) -> Seq<RemoteState>
    decreases events.len(),
{
    if events.len() == 0 {
        Seq::empty()
    } else {
        states_entered(events.drop_last()) + states_in(connect_effects(events.last()))
    }
}

/// The last thing that an attempt has asked for, or how it has ended.
pub open spec fn asked_last(events: Seq<ConnectEvent>) -> ConnectEffect {
    connect_effects(events.last()).last()
}

/// The state that an event leads to, if it leads to one.
pub open spec fn state_after(event: ConnectEvent) -> Seq<RemoteState> {
    match event {
        ConnectEvent::Begin => seq![RemoteState::Connecting],
        ConnectEvent::CertificateFailed(error) => seq![state_without_certificate(error)],
        ConnectEvent::ChannelFailed(_) => seq![RemoteState::Error(RemoteConnectionError::SslError)],
        ConnectEvent::PingSucceeded => seq![RemoteState::AwaitingDuplex],
        ConnectEvent::PingFailed(_) => seq![RemoteState::Error(RemoteConnectionError::SslError)],
        ConnectEvent::DuplexEstablished => seq![RemoteState::Connected],
        ConnectEvent::DuplexFailed(_) => seq![
            RemoteState::Error(RemoteConnectionError::DuplexError),
        ],
        _ => Seq::empty(),
    }
}

proof fn lemma_states_in_event(event: ConnectEvent)
    ensures
        states_in(connect_effects(event)) == state_after(event),
{
    reveal_with_fuel(states_in, 4);
    assert(states_in(connect_effects(event)) =~= state_after(event));
}

/// The states that an attempt goes through when nothing has failed yet.
pub open spec fn course(length: int) -> Seq<RemoteState> {
    if length < 4 {
        seq![RemoteState::Connecting]
    } else if length == 4 {
        seq![RemoteState::Connecting, RemoteState::AwaitingDuplex]
    } else {
        seq![RemoteState::Connecting, RemoteState::AwaitingDuplex, RemoteState::Connected]
    }
}

/// What has been asked for after so many events when nothing has failed yet.
pub open spec fn is_on_course(events: Seq<ConnectEvent>) -> bool {
    let n = events.len();
    let last = events.last();
    &&& n == 1 ==> last is Begin
    &&& n == 2 ==> last is CertificateReceived
    &&& n == 3 ==> last is ChannelBuilt
    &&& n == 4 ==> last is PingSucceeded
    &&& n == 5 ==> last is DuplexEstablished
    &&& n == 6 ==> last is MachineInfoDone
    &&& n == 7 ==> last is AvatarDone
    &&& 0 < n <= 7
    &&& states_entered(events) == course(n as int)
}

proof fn lemma_course(events: Seq<ConnectEvent>)
    requires
        is_attempt(events),
    ensures
        events.len() <= 7,
        !(asked_last(events) is Fail) ==> is_on_course(events),
        asked_last(events) is Fail ==> {
            &&& events.len() > 1
            &&& is_on_course(events.drop_last())
            &&& states_entered(events) == course(events.len() - 1) + state_after(events.last())
        },
    decreases events.len(),
{
    lemma_states_in_event(events.last());
    if events.len() == 1 {
        assert(events.drop_last() =~= Seq::<ConnectEvent>::empty());
        reveal_with_fuel(states_entered, 2);
        assert(states_entered(events) =~= course(1));
    } else {
        let before = events.drop_last();
        let n = before.len() as int;
        assert(is_attempt(before)) by {
            assert forall|i: int| 0 < i < before.len() implies answers(
                connect_effects(before[i - 1]).last(),
                #[trigger] before[i],
            ) by {
                assert(before[i] == events[i] && before[i - 1] == events[i - 1]);
            }
        }
        lemma_course(before);
        assert(answers(connect_effects(events[n - 1]).last(), events[n]));
        assert(before.last() == events[n - 1] && events.last() == events[n]);
        assert(states_entered(events) == states_entered(before) + state_after(events.last()));
        if !(asked_last(events) is Fail) {
            assert(states_entered(events) =~= course(n + 1));
        }
    }
}

/// An attempt to connect that succeeds goes through exactly three states: the remote is being
/// connected to, it is awaited, it is connected.
pub proof fn connecting_takes_its_course(events: Seq<ConnectEvent>)
    requires
        is_attempt(events),
        asked_last(events) is Succeed,
    ensures
        states_entered(events) == seq![
            RemoteState::Connecting,
            RemoteState::AwaitingDuplex,
            RemoteState::Connected,
        ],
        events.len() == 7,
{
    lemma_course(events);
    assert(is_on_course(events));
}

/// An attempt to connect that fails never enters the connected state, and leaves the remote
/// disconnected or in error.
pub proof fn failing_to_connect_is_shown(events: Seq<ConnectEvent>)
    requires
        is_attempt(events),
        asked_last(events) is Fail,
    ensures
        states_entered(events).len() > 0,
        !states_entered(events).contains(RemoteState::Connected),
        states_entered(events).last() is Error || states_entered(events).last() is Disconnected,
{
    lemma_course(events);
    let n = events.len() - 1;
    let before = events.drop_last();
    assert(answers(connect_effects(events[n - 1]).last(), events[n]));
    assert(before.last() == events[n - 1] && events.last() == events[n]);
    assert(n < 5);
}

/// An attempt ends by itself: it takes seven steps at most, and as long as it has not ended it
/// has asked for something whose outcome it can be told.
pub proof fn connecting_ends(events: Seq<ConnectEvent>)
    requires
        is_attempt(events),
    ensures
        events.len() <= 7,
        asked_last(events) is Succeed || asked_last(events) is Fail || (exists|event: ConnectEvent|
            answers(asked_last(events), event)),
{
    lemma_course(events);
    if !(asked_last(events) is Fail) {
        assert(is_on_course(events));
        let ask = asked_last(events);
        let cause = arbitrary();
        assert(ask is ReceiveCertificate ==> answers(
            ask,
            ConnectEvent::CertificateFailed(ReceiveCertError::Offline),
        ));
        assert(ask is BuildChannel ==> answers(ask, ConnectEvent::ChannelFailed(cause)));
        assert(ask is Ping ==> answers(ask, ConnectEvent::PingFailed(cause)));
        assert(ask is WaitForDuplex ==> answers(ask, ConnectEvent::DuplexFailed(cause)));
        assert(ask is FetchMachineInfo ==> answers(ask, ConnectEvent::MachineInfoDone));
        assert(ask is FetchAvatar ==> answers(ask, ConnectEvent::AvatarDone));
    }
}

/// A group code that does not match is the one failure that is not tried again: the worker
/// stops in that state and in no other.
pub proof fn only_a_wrong_group_code_is_final(state: RemoteState, config: ProtocolConfig)
    ensures
        wait_in(state, config) is Stop <==> state == RemoteState::Error(
            RemoteConnectionError::GroupCodeMismatch,
        ),
        states_in(
            connect_effects(ConnectEvent::CertificateFailed(ReceiveCertError::WrongGroupCode)),
        ) == seq![RemoteState::Error(RemoteConnectionError::GroupCodeMismatch)],
{
    lemma_states_in_event(ConnectEvent::CertificateFailed(ReceiveCertError::WrongGroupCode));
}

/// After any failure but a wrong group code the worker connects again when the time is up.
pub proof fn failed_attempts_are_repeated(events: Seq<ConnectEvent>, config: ProtocolConfig)
    requires
        is_attempt(events),
        asked_last(events) is Fail,
        asked_last(events) != ConnectEffect::Fail(
            ConnectRemoteError::CertificateError(ReceiveCertError::WrongGroupCode),
        ),
    ensures
        ({
            let wait = wait_in(states_entered(events).last(), config);
            &&& wait == LoopWait::ConnectAfter(config.reconnect_interval)
            &&& effects_after(wait, LoopWake::Elapsed)[0] == LoopEffect::Connect
        }),
{
    lemma_course(events);
    failing_to_connect_is_shown(events);
    let n = events.len() - 1;
    let before = events.drop_last();
    assert(answers(connect_effects(events[n - 1]).last(), events[n]));
    assert(before.last() == events[n - 1] && events.last() == events[n]);
    assert(state_after(events.last()).len() == 1);
    assert(states_entered(events).last() == state_after(events.last())[0]);
}

/// When the service ends, every worker that is still waiting drops its channel, leaves its
/// remote disconnected, and stops.
pub proof fn ending_disconnects(state: RemoteState, config: ProtocolConfig)
    ensures
        ({
            let wait = wait_in(state, config);
            !(wait is Stop) ==> can_end(wait, LoopWake::Cancelled) && effects_after(
                wait,
                LoopWake::Cancelled,
            ) == seq![
                LoopEffect::ClearChannel,
                LoopEffect::SetState(RemoteState::Disconnected),
                LoopEffect::Stop,
            ]
        }),
{
}

/// Both sides know a transfer by the same timestamp, so that what one side says of it reaches
/// the transfer that the other side means.
pub proof fn both_sides_mean_the_same_transfer(
    offering: ManagerView,
    remote_uuid: Seq<char>,
    offered: TransferView,
    service_id: Seq<char>,
    uuid: Seq<char>,
    timestamp: u64,
    answering: Seq<char>,
)
    requires
        offered.kind is Outgoing,
        offering.transfer_at_time(remote_uuid, offered.timestamp) == Some(offered),
    ensures
        ({
            let recorded = crate::types::transfer::incoming_transfer(
                uuid,
                timestamp,
                offered.to_request(service_id),
            );
            &&& shared_timestamp(recorded) == shared_timestamp(offered)
            &&& offering.transfer_at_time(
                remote_uuid,
                op_info(answering, shared_timestamp(recorded)).timestamp,
            ) == Some(offered)
        }),
{
}

/// An error that stems from a cause ends in the words of the cause.
pub proof fn error_words_end_in_their_cause(cause: String, inner: ReceiveCertError, error: UpdateError)
    ensures
        ReceiveCertError::RegisterServiceError(cause).text() == "Failed to register with remote: "@
            + cause@,
        ReceiveCertError::CertificateRequestFailed(cause).text()
            == "Failed to request certificate: "@ + cause@,
        ConnectRemoteError::CertificateError(inner).text() == "Failed to receive certificate: "@
            + inner.text(),
        ConnectRemoteError::TlsError(cause).text() == "Failed to build TLS channel: "@ + cause@,
        ConnectRemoteError::PingError(cause).text() == "Ping failed: "@ + cause@,
        ConnectRemoteError::DuplexError(cause).text() == "Duplex failed: "@ + cause@,
        WorkerError::Update(error).text() == "Resource not found"@,
{
}

/// The state that an attempt to connect is said to have entered is the one that goes with what has
/// happened: a failed certificate shows a wrong group code as such, a service that is offline as
/// disconnected, and anything else as a missing certificate; a channel or a ping that failed shows
/// as a failed connection, and a remote that does not connect back as such.
pub proof fn state_goes_with_what_happened(event: ConnectEvent)
    ensures
        ({
            let effects = connect_effects(event);
            let state = match event {
                ConnectEvent::Begin => Some(RemoteState::Connecting),
                ConnectEvent::PingSucceeded => Some(RemoteState::AwaitingDuplex),
                ConnectEvent::DuplexEstablished => Some(RemoteState::Connected),
                ConnectEvent::CertificateFailed(ReceiveCertError::Offline) => Some(
                    RemoteState::Disconnected,
                ),
                ConnectEvent::CertificateFailed(ReceiveCertError::WrongGroupCode) => Some(
                    RemoteState::Error(RemoteConnectionError::GroupCodeMismatch),
                ),
                ConnectEvent::CertificateFailed(_) => Some(
                    RemoteState::Error(RemoteConnectionError::NoCertificate),
                ),
                ConnectEvent::ChannelFailed(_) | ConnectEvent::PingFailed(_) => Some(
                    RemoteState::Error(RemoteConnectionError::SslError),
                ),
                ConnectEvent::DuplexFailed(_) => Some(
                    RemoteState::Error(RemoteConnectionError::DuplexError),
                ),
                _ => None,
            };
            &&& state matches Some(s) ==> effects.contains(ConnectEffect::SetState(s))
            &&& forall|i: int|
                0 <= i < effects.len() ==> (#[trigger] effects[i] matches ConnectEffect::SetState(
                    entered,
                ) ==> state == Some(entered))
        }),
{
    let effects = connect_effects(event);
    assert(effects[0] is SetState ==> effects.contains(effects[0]));
    assert(effects.len() > 1 && effects[1] is SetState ==> effects.contains(effects[1]));
}

/// What comes after what has happened on the way to a connection: after each success the next part
/// of the way, with the very certificate that came, and after each failure the word that there is no
/// connection, with the very cause that was told. The channel is kept when it has been built, and
/// dropped exactly where a later part fails.
pub proof fn connecting_goes_on_or_fails(event: ConnectEvent)
    ensures
        ({
            let effects = connect_effects(event);
            let last = effects.last();
            &&& effects.len() > 0
            &&& match event {
                ConnectEvent::Begin => last is ReceiveCertificate,
                ConnectEvent::CertificateReceived(pem) => last == ConnectEffect::BuildChannel(pem),
                ConnectEvent::ChannelBuilt => last is Ping,
                ConnectEvent::PingSucceeded => last is WaitForDuplex,
                ConnectEvent::DuplexEstablished => last is FetchMachineInfo,
                ConnectEvent::MachineInfoDone => last is FetchAvatar,
                ConnectEvent::AvatarDone => last is Succeed,
                ConnectEvent::CertificateFailed(error) => last == ConnectEffect::Fail(
                    ConnectRemoteError::CertificateError(error),
                ),
                ConnectEvent::ChannelFailed(cause) => last == ConnectEffect::Fail(
                    ConnectRemoteError::TlsError(cause),
                ),
                ConnectEvent::PingFailed(cause) => last == ConnectEffect::Fail(
                    ConnectRemoteError::PingError(cause),
                ),
                ConnectEvent::DuplexFailed(cause) => last == ConnectEffect::Fail(
                    ConnectRemoteError::DuplexError(cause),
                ),
            }
            &&& effects.contains(ConnectEffect::StoreChannel) <==> event is ChannelBuilt
            &&& effects.contains(ConnectEffect::ClearChannel) <==> event is PingFailed
                || event is DuplexFailed
            &&& event is PingFailed || event is DuplexFailed ==> effects[0] is ClearChannel
            &&& event is ChannelBuilt ==> effects[0] is StoreChannel
            &&& forall|i: int|
                0 <= i < effects.len() - 1 ==> #[trigger] effects[i] is SetState
                    || effects[i] is StoreChannel || effects[i] is ClearChannel
        }),
{
    let effects = connect_effects(event);
    assert(effects.contains(effects[0]));
}

/// What is waited for goes with the state: a ping while the remote is connected, another attempt
/// while it is disconnected or in error, nothing any more after a wrong group code, and a change of
/// the state in any other.
pub proof fn wait_goes_with_the_state(state: RemoteState, config: ProtocolConfig)
    ensures
        state is Connected <==> wait_in(state, config) is PingAfter,
        wait_in(state, config) matches LoopWait::PingAfter(time) ==> time == config.ping_interval,
        state is Disconnected || (state is Error && state != RemoteState::Error(
            RemoteConnectionError::GroupCodeMismatch,
        )) <==> wait_in(state, config) is ConnectAfter,
        wait_in(state, config) matches LoopWait::ConnectAfter(time) ==> time
            == config.reconnect_interval,
        state is Connecting || state is AwaitingDuplex <==> wait_in(state, config) is StateChange,
{
}

/// A wait that is for a time ends when it is up, and any wait but that of a worker that is done ends
/// when the state changes or the service ends.
pub proof fn waits_end(wait: LoopWait)
    ensures
        can_end(wait, LoopWake::Elapsed) <==> wait is PingAfter || wait is ConnectAfter,
        can_end(wait, LoopWake::StateChanged) <==> !(wait is Stop),
        can_end(wait, LoopWake::Cancelled) <==> !(wait is Stop),
{
}

/// After a wait a worker does what it waited for: it pings, connects and looks at the state again,
/// or only looks at the state again. It stops only when the service ends. A ping that is not answered
/// leaves the remote disconnected and the channel dropped, and one that is answered changes nothing.
pub proof fn worker_does_what_it_waited_for(wait: LoopWait, wake: LoopWake, answered: bool)
    requires
        can_end(wait, wake),
    ensures
        ({
            let effects = effects_after(wait, wake);
            let after_ping = effects_after_ping(answered);
            &&& wake is Elapsed && wait is PingAfter ==> effects == seq![LoopEffect::Ping]
            &&& wake is Elapsed && wait is ConnectAfter ==> effects == seq![
                LoopEffect::Connect,
                LoopEffect::Continue,
            ]
            &&& wake is StateChanged ==> effects == seq![LoopEffect::Continue]
            &&& effects.contains(LoopEffect::Stop) <==> wake is Cancelled
            &&& after_ping.last() is Continue
            &&& after_ping.contains(LoopEffect::SetState(RemoteState::Disconnected)) <==> !answered
            &&& after_ping.contains(LoopEffect::ClearChannel) <==> !answered
            &&& answered ==> after_ping.len() == 1
            &&& !answered ==> after_ping.len() == 3
        }),
{
    let effects = effects_after(wait, wake);
    assert(wake is Cancelled ==> effects[2] is Stop);
    let after_ping = effects_after_ping(answered);
    assert(!answered ==> after_ping[0] == LoopEffect::SetState(RemoteState::Disconnected)
        && after_ping[1] is ClearChannel);
}

/// A remote whose worker has recorded a state is looked up in that state, whichever it is; nothing
/// else about the remote has changed, and no other remote has. A remote that is not known any more
/// is let be.
pub proof fn recorded_state_is_looked_up(
    worker: WorkerView,
    manager: ManagerView,
    state: RemoteState,
    other: Seq<char>,
)
    ensures
        match manager.remote(worker.uuid) {
            Some(before) => {
                let after = worker.state_set(manager, state);
                &&& after.remote(worker.uuid) == Some(RemoteView { state, ..before })
                &&& other != worker.uuid ==> after.remote(other) == manager.remote(other)
            },
            None => worker.state_set(manager, state) == manager,
        },
{
    crate::server::remote_manager::remote_is_in_the_state_it_entered(manager, worker.uuid, state);
    crate::server::remote_manager::updated_remote_is_changed_alone(
        manager,
        worker.uuid,
        RemoteUpdate::State(state),
        other,
    );
}

/// A worker means by a transfer the one of its own remote.
pub proof fn worker_means_its_own_transfers(
    worker: WorkerView,
    manager: ManagerView,
    uuid: Seq<char>,
)
    ensures
        worker.transfer(manager, uuid) == manager.transfer(worker.uuid, uuid),
{
}

/// The address of a remote is the scheme, its own address and its own port, in that order, with a
/// colon before the port; two ports never make the same address.
pub proof fn address_tells_the_port(
    scheme: Seq<char>,
    ip: Seq<char>,
    port: u16,
    other: u16,
)
    ensures
        ({
            let address = address_of(scheme, ip, port);
            let start = (scheme.len() + ip.len()) as int;
            &&& address.take(scheme.len() as int) == scheme
            &&& address.subrange(scheme.len() as int, start) == ip
            &&& address[start] == ':'
            &&& crate::text::value_of(address.skip(start + 1)) == port
            &&& address[start + 1] == '0' ==> port == 0
            &&& address_of(scheme, ip, other) == address ==> other == port
        }),
{
    reveal_strlit(":");
    let address = address_of(scheme, ip, port);
    let start = (scheme.len() + ip.len()) as int;
    let digits = crate::text::decimal(port as nat);
    crate::text::decimal_stands_for_the_number(port as nat);
    crate::text::decimal_stands_for_the_number(other as nat);
    assert(address.take(scheme.len() as int) =~= scheme);
    assert(address.subrange(scheme.len() as int, start) =~= ip);
    assert(address.skip(start + 1) =~= digits);
    assert(address[start + 1] == digits[0]);
    assert(address_of(scheme, ip, other).skip(start + 1) =~= crate::text::decimal(other as nat));
}

/// A transfer is named to the other side by the identifier of this service and the time by which
/// the other side knows it: the time of the offer for an outgoing transfer, and the time that came
/// with the offer for an incoming one.
pub proof fn transfer_is_named_by_its_shared_time(
    ident: Seq<char>,
    transfer: TransferView,
    info: OpInfo,
)
    requires
        info@ == op_info(ident, shared_timestamp(transfer)),
    ensures
        info.ident@ == ident,
        transfer.kind is Outgoing ==> info.timestamp == transfer.timestamp,
        transfer.kind matches TransferKindView::Incoming { remote_timestamp, .. } ==> info.timestamp
            == remote_timestamp,
        info.readable_name@.len() == 0,
        !info.use_compression,
{
}

/// A transfer that has been called off is looked up as denied where it came from the other side, and
/// as cancelled where it was to go there; one that has been stopped is looked up as stopped. Nothing
/// else about it has changed.
pub proof fn called_off_transfer_is_looked_up_as_such(
    worker: WorkerView,
    manager: ManagerView,
    uuid: Seq<char>,
)
    ensures
        worker.transfer(manager, uuid) matches Some(before) ==> {
            &&& manager.transfer_updated(
                worker.uuid,
                uuid,
                TransferUpdate::State(state_called_off(before)),
            ) matches Some(after) && (worker.transfer(after, uuid) matches Some(t) && {
                &&& before.kind is Incoming ==> t.state is Denied
                &&& before.kind is Outgoing ==> t.state is Canceled
                &&& (TransferView { state: before.state, ..t }) == before
            })
            &&& manager.transfer_updated(
                worker.uuid,
                uuid,
                TransferUpdate::State(TransferState::Stopped),
            ) matches Some(after) && (worker.transfer(after, uuid) matches Some(t) && {
                &&& t.state is Stopped
                &&& (TransferView { state: before.state, ..t }) == before
            })
        },
{
    if let Some(before) = worker.transfer(manager, uuid) {
        crate::server::remote_manager::transfer_is_looked_up_in_its_state(
            manager,
            worker.uuid,
            uuid,
            state_called_off(before),
        );
        crate::server::remote_manager::transfer_is_looked_up_in_its_state(
            manager,
            worker.uuid,
            uuid,
            TransferState::Stopped,
        );
    }
}

/// The pieces of a picture are put together in order: the bytes of some pieces and those of others,
/// one after the other, are those of all, and one piece stands for its own bytes.
pub proof fn picture_is_put_together_in_order(
    first: Seq<RemoteMachineAvatar>,
    second: Seq<RemoteMachineAvatar>,
    piece: RemoteMachineAvatar,
)
    ensures
        picture_bytes(first + second) == picture_bytes(first) + picture_bytes(second),
        picture_bytes(Seq::empty()) == Seq::<u8>::empty(),
        picture_bytes(seq![piece]) == piece.avatar_chunk@,
    decreases second.len(),
{
    reveal_with_fuel(picture_bytes, 2);
    assert(picture_bytes(seq![piece]) =~= piece.avatar_chunk@);
    if second.len() == 0 {
        assert(first + second =~= first);
        assert(picture_bytes(first) + picture_bytes(second) =~= picture_bytes(first));
    } else {
        assert((first + second).drop_last() =~= first + second.drop_last());
        picture_is_put_together_in_order(first, second.drop_last(), piece);
        assert(picture_bytes(first + second) =~= picture_bytes(first) + picture_bytes(second));
    }
}

/// A boxed certificate comes out as what its Base64 stands for, and line breaks in it make no
/// difference; what stands for nothing comes out as a failed request that gives the reason.
pub proof fn boxed_certificate_is_decoded(
    first: Seq<char>,
    second: Seq<char>,
    r: Result<Vec<u8>, ReceiveCertError>,
)
    requires
        box_came_out(first + seq!['\n'] + second, r),
    ensures
        box_came_out(first + second, r),
        box_came_out(first + seq!['\r'] + second, r),
        ({
            let text = crate::text::without_line_breaks(first + second);
            match crate::platform::base64_decoded(text) {
                Ok(bytes) => r matches Ok(decoded) && decoded@ == bytes,
                Err(cause) => r matches Err(ReceiveCertError::CertificateRequestFailed(message))
                    && message@ == "Failed to decode base64 certificate "@ + cause,
            }
        }),
{
    crate::text::line_breaks_alone_are_taken_out(first, second, '\n');
    crate::text::line_breaks_alone_are_taken_out(first, seq!['\n'], '\n');
    crate::text::line_breaks_alone_are_taken_out(first + seq!['\n'], second, '\n');
    crate::text::line_breaks_alone_are_taken_out(first, seq!['\r'], '\r');
    crate::text::line_breaks_alone_are_taken_out(first + seq!['\r'], second, '\r');
    let kept = crate::text::without_line_breaks(first);
    assert(kept + Seq::<char>::empty() =~= kept);
}

} // verus!
