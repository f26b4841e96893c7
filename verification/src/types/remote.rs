//! The machines that are known on the network.
use crate::text::copy_optional_bytes;
use crate::types::message::{Message, MessageView};
use crate::types::transfer::{Transfer, TransferView};
use vstd::prelude::*;

verus! {

/// Why a remote cannot be reached.
#[derive(Clone, Copy, Debug, PartialEq, Eq, Structural)]
pub enum RemoteConnectionError {
    SslError,
    GroupCodeMismatch,
    NoCertificate,
    DuplexError,
}

impl RemoteConnectionError {
    /// What the error is called.
    pub open spec fn text(self) -> Seq<char> {
        match self {
            RemoteConnectionError::SslError => "SSL connection failed"@,
            RemoteConnectionError::GroupCodeMismatch => "Group code mismatch"@,
            RemoteConnectionError::NoCertificate => "No certificate"@,
            RemoteConnectionError::DuplexError => "Duplex connection failed"@,
        }
    }

    /// The error in words.
    pub fn message(&self) -> (r: String)
        ensures
            r@ == self.text(),
    {
        match self {
            RemoteConnectionError::SslError => "SSL connection failed".to_string(),
            RemoteConnectionError::GroupCodeMismatch => "Group code mismatch".to_string(),
            RemoteConnectionError::NoCertificate => "No certificate".to_string(),
            RemoteConnectionError::DuplexError => "Duplex connection failed".to_string(),
        }
    }
}

/// Where the connection to a remote stands.
#[derive(Clone, Copy, Debug, PartialEq, Eq, Structural)]
pub enum RemoteState {
    Error(RemoteConnectionError),
    Disconnected,
    Connecting,
    AwaitingDuplex,
    Connected,
}

/// A machine that is known on the network.
#[derive(Debug)]
pub struct Remote {
    pub uuid: String,
    /// Address in text form
    pub ip: String,
    pub port: u16,
    pub auth_port: u16,
    pub service_name: String,
    pub display_name: String,
    pub username: String,
    pub hostname: String,
    pub picture: Option<Vec<u8>>,
    pub state: RemoteState,
    pub messages: Vec<Message>,
    pub transfers: Vec<Transfer>,
    /// Whether the remote's service is static (i.e. registered) or dynamic
    /// (i.e. discovered on the network)
    pub service_static: bool,
    /// Whether the remote's mdns service is currently available
    pub service_available: bool,
    /// Unboxed PEM certificate for the remote
    pub cert_pem: Option<Vec<u8>>,
}

/// What is known of a [`Remote`].
#[verifier::ext_equal]
pub struct RemoteView {
    pub uuid: Seq<char>,
    pub ip: Seq<char>,
    pub port: u16,
    pub auth_port: u16,
    pub service_name: Seq<char>,
    pub display_name: Seq<char>,
    pub username: Seq<char>,
    pub hostname: Seq<char>,
    pub picture: Option<Seq<u8>>,
    pub state: RemoteState,
    pub messages: Seq<MessageView>,
    pub transfers: Seq<TransferView>,
    pub service_static: bool,
    pub service_available: bool,
    pub cert_pem: Option<Seq<u8>>,
}

/// What a list of messages says.
pub open spec fn message_views(messages: Seq<Message>) -> Seq<MessageView> {
    messages.map_values(|m: Message| m@)
}

/// What a list of transfers says.
pub open spec fn transfer_views(transfers: Seq<Transfer>) -> Seq<TransferView> {
    transfers.map_values(|t: Transfer| t@)
}

impl View for Remote {
    type V = RemoteView;

    open spec fn view(&self) -> RemoteView {
        RemoteView {
            uuid: self.uuid@,
            ip: self.ip@,
            port: self.port,
            auth_port: self.auth_port,
            service_name: self.service_name@,
            display_name: self.display_name@,
            username: self.username@,
            hostname: self.hostname@,
            picture: crate::text::optional_bytes(self.picture),
            state: self.state,
            messages: message_views(self.messages@),
            transfers: transfer_views(self.transfers@),
            service_static: self.service_static,
            service_available: self.service_available,
            cert_pem: crate::text::optional_bytes(self.cert_pem),
        }
    }
}

/// A copy of a list of messages.
pub fn copy_messages(messages: &Vec<Message>) -> (r: Vec<Message>)
    ensures
        message_views(r@) == message_views(messages@),
{
    let r = messages.clone();
    assert(message_views(r@) =~= message_views(messages@));
    r
}

/// A copy of a list of transfers.
pub fn copy_transfers(transfers: &Vec<Transfer>) -> (r: Vec<Transfer>)
    ensures
        transfer_views(r@) == transfer_views(transfers@),
{
    let r = transfers.clone();
    assert(transfer_views(r@) =~= transfer_views(transfers@));
    r
}

impl Clone for Remote {
    fn clone(&self) -> (r: Self)
        ensures
            r@ == self@,
    {
        Remote {
            uuid: self.uuid.clone(),
            ip: self.ip.clone(),
            port: self.port,
            auth_port: self.auth_port,
            service_name: self.service_name.clone(),
            display_name: self.display_name.clone(),
            username: self.username.clone(),
            hostname: self.hostname.clone(),
            picture: copy_optional_bytes(&self.picture),
            state: self.state,
            messages: copy_messages(&self.messages),
            transfers: copy_transfers(&self.transfers),
            service_static: self.service_static,
            service_available: self.service_available,
            cert_pem: copy_optional_bytes(&self.cert_pem),
        }
    }
}

impl Remote {
    /// A remote of which nothing but its address and its names is known yet.
    pub fn new(
        uuid: String,
        ip: String,
        port: u16,
        auth_port: u16,
        service_name: String,
        hostname: String,
    ) -> (r: Self)
        ensures
            r@ == (RemoteView {
                uuid: uuid@,
                ip: ip@,
                port,
                auth_port,
                service_name: service_name@,
                display_name: Seq::empty(),
                username: Seq::empty(),
                hostname: hostname@,
                picture: None,
                state: RemoteState::Disconnected,
                messages: Seq::empty(),
                transfers: Seq::empty(),
                service_static: false,
                service_available: false,
                cert_pem: None,
            }),
    {
        Remote {
            uuid,
            ip,
            port,
            auth_port,
            service_name,
            display_name: String::new(),
            username: String::new(),
            hostname,
            picture: None,
            state: RemoteState::Disconnected,
            messages: Vec::new(),
            transfers: Vec::new(),
            service_static: false,
            service_available: false,
            cert_pem: None,
        }
    }
}

/// What is said of a remote is what it holds.
pub proof fn remote_is_seen_as_it_is(remote: Remote)
    ensures
        remote@.uuid == remote.uuid@,
        remote@.ip == remote.ip@,
        remote@.port == remote.port,
        remote@.auth_port == remote.auth_port,
        remote@.service_name == remote.service_name@,
        remote@.display_name == remote.display_name@,
        remote@.username == remote.username@,
        remote@.hostname == remote.hostname@,
        remote@.picture is Some <==> remote.picture is Some,
        remote.picture matches Some(held) ==> remote@.picture == Some(held@),
        remote@.state == remote.state,
        remote@.messages.len() == remote.messages@.len(),
        forall|i: int| 0 <= i < remote.messages@.len() ==> #[trigger] remote@.messages[i] == remote.messages@[i]@,
        remote@.transfers.len() == remote.transfers@.len(),
        forall|i: int| 0 <= i < remote.transfers@.len() ==> #[trigger] remote@.transfers[i] == remote.transfers@[i]@,
        remote@.service_static == remote.service_static,
        remote@.service_available == remote.service_available,
        remote@.cert_pem is Some <==> remote.cert_pem is Some,
        remote.cert_pem matches Some(held) ==> remote@.cert_pem == Some(held@),
{
}

/// What is said of a list of messages or of transfers is what its entries say, one by one and in
/// order.
pub proof fn lists_are_seen_as_they_are(messages: Seq<Message>, transfers: Seq<Transfer>)
    ensures
        message_views(messages).len() == messages.len(),
        forall|i: int|
            0 <= i < messages.len() ==> #[trigger] message_views(messages)[i] == messages[i]@,
        transfer_views(transfers).len() == transfers.len(),
        forall|i: int|
            0 <= i < transfers.len() ==> #[trigger] transfer_views(transfers)[i] == transfers[i]@,
{
}

} // verus!
