//! The messages of the Warpinator protocol, as plain values.
use vstd::prelude::*;

verus! {

/// `file_type` of a piece of a regular file.
pub const FILE_TYPE_FILE: i32 = 1;

/// `file_type` of a directory.
pub const FILE_TYPE_DIRECTORY: i32 = 2;

/// `file_type` of a symbolic link.
pub const FILE_TYPE_SYMLINK: i32 = 3;

/// The empty message.
#[derive(Clone, Copy, Debug, PartialEq, Eq, Structural)]
pub struct VoidType {}

/// Whether a two-way connection stands.
#[derive(Clone, Copy, Debug, PartialEq, Eq, Structural)]
pub struct HaveDuplex {
    pub response: bool,
}

/// When a file was last changed, in seconds since the start of 1970 and microseconds.
#[derive(Clone, Copy, Debug, PartialEq, Eq, Structural)]
pub struct FileTime {
    pub mtime: u64,
    pub mtime_usec: u32,
}

/// The codes with which a call can fail.
#[derive(Clone, Copy, Debug, PartialEq, Eq, Structural)]
pub enum StatusCode {
    Cancelled,
    Unknown,
    InvalidArgument,
    DeadlineExceeded,
    NotFound,
    AlreadyExists,
    PermissionDenied,
    ResourceExhausted,
    FailedPrecondition,
    Aborted,
    OutOfRange,
    Unimplemented,
    Internal,
    Unavailable,
    DataLoss,
    Unauthenticated,
}

/// Why a call failed.
#[derive(Debug)]
pub struct Status {
    pub code: StatusCode,
    pub message: String,
}

impl Clone for Status {
    fn clone(&self) -> (r: Self)
        ensures
            r == *self,
    {
        Status { code: self.code, message: self.message.clone() }
    }
}

/// A machine that a call is about.
#[derive(Debug)]
pub struct LookupName {
    pub id: String,
    pub readable_name: String,
}

/// What a [`LookupName`] says.
#[verifier::ext_equal]
pub struct LookupNameView {
    pub id: Seq<char>,
    pub readable_name: Seq<char>,
}

impl View for LookupName {
    type V = LookupNameView;

    open spec fn view(&self) -> LookupNameView {
        LookupNameView {
            id: self.id@,
            readable_name: self.readable_name@,
        }
    }
}

/// Who a machine's user is, and what the machine can do.
#[derive(Debug)]
pub struct RemoteMachineInfo {
    pub display_name: String,
    pub user_name: String,
    pub feature_flags: u32,
}

/// What a [`RemoteMachineInfo`] says.
#[verifier::ext_equal]
pub struct RemoteMachineInfoView {
    pub display_name: Seq<char>,
    pub user_name: Seq<char>,
    pub feature_flags: u32,
}

impl View for RemoteMachineInfo {
    type V = RemoteMachineInfoView;

    open spec fn view(&self) -> RemoteMachineInfoView {
        RemoteMachineInfoView {
            display_name: self.display_name@,
            user_name: self.user_name@,
            feature_flags: self.feature_flags,
        }
    }
}

/// One piece of a user's picture.
#[derive(Debug)]
pub struct RemoteMachineAvatar {
    pub avatar_chunk: Vec<u8>,
}

/// What a [`RemoteMachineAvatar`] says.
#[verifier::ext_equal]
pub struct RemoteMachineAvatarView {
    pub avatar_chunk: Seq<u8>,
}

impl View for RemoteMachineAvatar {
    type V = RemoteMachineAvatarView;

    open spec fn view(&self) -> RemoteMachineAvatarView {
        RemoteMachineAvatarView {
            avatar_chunk: self.avatar_chunk@,
        }
    }
}

/// Names one transfer: `timestamp` is its identifier on the side that offered it.
#[derive(Debug)]
pub struct OpInfo {
    pub ident: String,
    pub timestamp: u64,
    pub readable_name: String,
    pub use_compression: bool,
}

/// What a [`OpInfo`] says.
#[verifier::ext_equal]
pub struct OpInfoView {
    pub ident: Seq<char>,
    pub timestamp: u64,
    pub readable_name: Seq<char>,
    pub use_compression: bool,
}

impl View for OpInfo {
    type V = OpInfoView;

    open spec fn view(&self) -> OpInfoView {
        OpInfoView {
            ident: self.ident@,
            timestamp: self.timestamp,
            readable_name: self.readable_name@,
            use_compression: self.use_compression,
        }
    }
}

/// Asks to stop a running transfer.
#[derive(Debug)]
pub struct StopInfo {
    pub info: Option<OpInfo>,
    pub error: bool,
}

/// What a [`StopInfo`] says.
#[verifier::ext_equal]
pub struct StopInfoView {
    pub info: Option<OpInfoView>,
    pub error: bool,
}

impl View for StopInfo {
    type V = StopInfoView;

    open spec fn view(&self) -> StopInfoView {
        StopInfoView {
            info: match self.info {
                Some(x) => Some(x@),
                None => None,
            },
            error: self.error,
        }
    }
}

/// Offers a transfer to the other side.
#[derive(Debug)]
pub struct TransferOpRequest {
    pub info: Option<OpInfo>,
    pub sender_name: String,
    pub receiver_name: String,
    pub receiver: String,
    pub size: u64,
    pub count: u64,
    pub name_if_single: String,
    pub mime_if_single: String,
    pub top_dir_basenames: Vec<String>,
}

/// What a [`TransferOpRequest`] says.
#[verifier::ext_equal]
pub struct TransferOpRequestView {
    pub info: Option<OpInfoView>,
    pub sender_name: Seq<char>,
    pub receiver_name: Seq<char>,
    pub receiver: Seq<char>,
    pub size: u64,
    pub count: u64,
    pub name_if_single: Seq<char>,
    pub mime_if_single: Seq<char>,
    pub top_dir_basenames: Seq<Seq<char>>,
}

impl View for TransferOpRequest {
    type V = TransferOpRequestView;

    open spec fn view(&self) -> TransferOpRequestView {
        TransferOpRequestView {
            info: match self.info {
                Some(x) => Some(x@),
                None => None,
            },
            sender_name: self.sender_name@,
            receiver_name: self.receiver_name@,
            receiver: self.receiver@,
            size: self.size,
            count: self.count,
            name_if_single: self.name_if_single@,
            mime_if_single: self.mime_if_single@,
            top_dir_basenames: crate::text::texts(self.top_dir_basenames@),
        }
    }
}

/// A text message.
#[derive(Debug)]
pub struct TextMessage {
    pub ident: String,
    pub timestamp: u64,
    pub message: String,
}

/// What a [`TextMessage`] says.
#[verifier::ext_equal]
pub struct TextMessageView {
    pub ident: Seq<char>,
    pub timestamp: u64,
    pub message: Seq<char>,
}

impl View for TextMessage {
    type V = TextMessageView;

    open spec fn view(&self) -> TextMessageView {
        TextMessageView {
            ident: self.ident@,
            timestamp: self.timestamp,
            message: self.message@,
        }
    }
}

/// One piece of a transfer's stream: a directory, or some of a file's bytes.
#[derive(Debug)]
pub struct FileChunk {
    pub relative_path: String,
    pub file_type: i32,
    pub symlink_target: String,
    pub chunk: Vec<u8>,
    pub file_mode: u32,
    pub time: Option<FileTime>,
}

/// What a [`FileChunk`] says.
#[verifier::ext_equal]
pub struct FileChunkView {
    pub relative_path: Seq<char>,
    pub file_type: i32,
    pub symlink_target: Seq<char>,
    pub chunk: Seq<u8>,
    pub file_mode: u32,
    pub time: Option<FileTime>,
}

impl View for FileChunk {
    type V = FileChunkView;

    open spec fn view(&self) -> FileChunkView {
        FileChunkView {
            relative_path: self.relative_path@,
            file_type: self.file_type,
            symlink_target: self.symlink_target@,
            chunk: self.chunk@,
            file_mode: self.file_mode,
            time: self.time,
        }
    }
}

/// Asks a registration service for its certificate.
#[derive(Debug)]
pub struct RegRequest {
    pub ip: String,
    pub hostname: String,
    pub ipv6: String,
}

/// What a [`RegRequest`] says.
#[verifier::ext_equal]
pub struct RegRequestView {
    pub ip: Seq<char>,
    pub hostname: Seq<char>,
    pub ipv6: Seq<char>,
}

impl View for RegRequest {
    type V = RegRequestView;

    open spec fn view(&self) -> RegRequestView {
        RegRequestView {
            ip: self.ip@,
            hostname: self.hostname@,
            ipv6: self.ipv6@,
        }
    }
}

/// How a machine's services are reached.
#[derive(Debug)]
pub struct ServiceRegistration {
    pub service_id: String,
    pub ip: String,
    pub port: u32,
    pub hostname: String,
    pub api_version: u32,
    pub auth_port: u32,
    pub ipv6: String,
}

/// What a [`ServiceRegistration`] says.
#[verifier::ext_equal]
pub struct ServiceRegistrationView {
    pub service_id: Seq<char>,
    pub ip: Seq<char>,
    pub port: u32,
    pub hostname: Seq<char>,
    pub api_version: u32,
    pub auth_port: u32,
    pub ipv6: Seq<char>,
}

impl View for ServiceRegistration {
    type V = ServiceRegistrationView;

    open spec fn view(&self) -> ServiceRegistrationView {
        ServiceRegistrationView {
            service_id: self.service_id@,
            ip: self.ip@,
            port: self.port,
            hostname: self.hostname@,
            api_version: self.api_version,
            auth_port: self.auth_port,
            ipv6: self.ipv6@,
        }
    }
}

impl LookupName {
    /// The message with every field left empty.
    pub fn empty() -> (r: Self)
        ensures
            r@.id.len() == 0,
            r@.readable_name.len() == 0,
    {
        LookupName { id: String::new(), readable_name: String::new() }
    }
}

/// What is said of the name of a machine is what it holds.
pub proof fn lookup_name_is_seen_as_it_is(name: LookupName)
    ensures
        name@.id == name.id@,
        name@.readable_name == name.readable_name@,
{
}

/// What is said of a machine's word on its user is what it holds.
pub proof fn machine_info_is_seen_as_it_is(info: RemoteMachineInfo)
    ensures
        info@.display_name == info.display_name@,
        info@.user_name == info.user_name@,
        info@.feature_flags == info.feature_flags,
{
}

/// What is said of a piece of a picture is what it holds.
pub proof fn picture_piece_is_seen_as_it_is(piece: RemoteMachineAvatar)
    ensures
        piece@.avatar_chunk == piece.avatar_chunk@,
{
}

/// What is said of what names a transfer is what it holds.
pub proof fn transfer_name_is_seen_as_it_is(info: OpInfo)
    ensures
        info@.ident == info.ident@,
        info@.timestamp == info.timestamp,
        info@.readable_name == info.readable_name@,
        info@.use_compression == info.use_compression,
{
}

/// What is said of a request to stop is what it holds.
pub proof fn stop_is_seen_as_it_is(stop: StopInfo)
    ensures
        stop@.info is Some <==> stop.info is Some,
        stop.info matches Some(held) ==> stop@.info == Some(held@),
        stop@.error == stop.error,
{
}

/// What is said of an offer is what it holds.
pub proof fn offer_is_seen_as_it_is(offer: TransferOpRequest)
    ensures
        offer@.info is Some <==> offer.info is Some,
        offer.info matches Some(held) ==> offer@.info == Some(held@),
        offer@.sender_name == offer.sender_name@,
        offer@.receiver_name == offer.receiver_name@,
        offer@.receiver == offer.receiver@,
        offer@.size == offer.size,
        offer@.count == offer.count,
        offer@.name_if_single == offer.name_if_single@,
        offer@.mime_if_single == offer.mime_if_single@,
        offer@.top_dir_basenames.len() == offer.top_dir_basenames@.len(),
        forall|i: int| 0 <= i < offer.top_dir_basenames@.len() ==> #[trigger] offer@.top_dir_basenames[i] == offer.top_dir_basenames@[i]@,
{
}

/// What is said of a text message is what it holds.
pub proof fn text_message_is_seen_as_it_is(text: TextMessage)
    ensures
        text@.ident == text.ident@,
        text@.timestamp == text.timestamp,
        text@.message == text.message@,
{
}

/// What is said of a piece of a stream is what it holds.
pub proof fn piece_is_seen_as_it_is(piece: FileChunk)
    ensures
        piece@.relative_path == piece.relative_path@,
        piece@.file_type == piece.file_type,
        piece@.symlink_target == piece.symlink_target@,
        piece@.chunk == piece.chunk@,
        piece@.file_mode == piece.file_mode,
        piece@.time == piece.time,
{
}

/// What is said of a request for a certificate is what it holds.
pub proof fn certificate_request_is_seen_as_it_is(request: RegRequest)
    ensures
        request@.ip == request.ip@,
        request@.hostname == request.hostname@,
        request@.ipv6 == request.ipv6@,
{
}

/// What is said of a registration is what it holds.
pub proof fn registration_is_seen_as_it_is(registration: ServiceRegistration)
    ensures
        registration@.service_id == registration.service_id@,
        registration@.ip == registration.ip@,
        registration@.port == registration.port,
        registration@.hostname == registration.hostname@,
        registration@.api_version == registration.api_version,
        registration@.auth_port == registration.auth_port,
        registration@.ipv6 == registration.ipv6@,
{
}

} // verus!
