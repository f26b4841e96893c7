//! Transfers of files and directories.
use crate::platform::{fresh_uuid, guess_mime, now_millis, path_file_name};
use crate::proto::{OpInfo, OpInfoView, Status, TransferOpRequest, TransferOpRequestView};
use crate::text::{copy_optional_text, copy_texts};
use vstd::prelude::*;
use vstd::string::*;

verus! {

/// The kinds of input and output errors.
#[derive(Clone, Copy, Debug, PartialEq, Eq, Structural)]
pub enum IoErrorKind {
    NotFound,
    PermissionDenied,
    ConnectionRefused,
    ConnectionReset,
    HostUnreachable,
    NetworkUnreachable,
    ConnectionAborted,
    NotConnected,
    AddrInUse,
    AddrNotAvailable,
    NetworkDown,
    BrokenPipe,
    AlreadyExists,
    WouldBlock,
    NotADirectory,
    IsADirectory,
    DirectoryNotEmpty,
    ReadOnlyFilesystem,
    StaleNetworkFileHandle,
    InvalidInput,
    InvalidData,
    TimedOut,
    WriteZero,
    StorageFull,
    NotSeekable,
    QuotaExceeded,
    FileTooLarge,
    ResourceBusy,
    ExecutableFileBusy,
    Deadlock,
    CrossesDevices,
    TooManyLinks,
    InvalidFilename,
    ArgumentListTooLong,
    Interrupted,
    Unsupported,
    UnexpectedEof,
    OutOfMemory,
    Other,
}

/// Why a transfer failed.
#[derive(Debug)]
pub enum TransferError {
    /// Connection to remote was lost
    ConnectionLost,
    /// Not enough storage space
    StorageFull,
    /// Failed to process source files
    FailedToProcessFiles,
    /// Failed to start transfer
    FailedToStartTransfer(Status),
    /// Received an unsafe file path from remote
    UnsafePath,
    /// Source files not found
    FilesNotFound,
    /// Permission denied writing to destination
    PermissionDenied,
    /// File too large for destination filesystem
    FileTooLarge,
    /// Filename is invalid for the destination filesystem
    InvalidFilename,
    /// Out of memory
    OutOfMemory,
    /// IO error during transfer
    IoError(IoErrorKind),
}

impl Clone for TransferError {
    fn clone(&self) -> (r: Self)
        ensures
            r == *self,
    {
        match self {
            TransferError::ConnectionLost => TransferError::ConnectionLost,
            TransferError::StorageFull => TransferError::StorageFull,
            TransferError::FailedToProcessFiles => TransferError::FailedToProcessFiles,
            TransferError::FailedToStartTransfer(status) => TransferError::FailedToStartTransfer(
                status.clone(),
            ),
            TransferError::UnsafePath => TransferError::UnsafePath,
            TransferError::FilesNotFound => TransferError::FilesNotFound,
            TransferError::PermissionDenied => TransferError::PermissionDenied,
            TransferError::FileTooLarge => TransferError::FileTooLarge,
            TransferError::InvalidFilename => TransferError::InvalidFilename,
            TransferError::OutOfMemory => TransferError::OutOfMemory,
            TransferError::IoError(kind) => TransferError::IoError(*kind),
        }
    }
}

impl TransferError {
    /// What the error says, given what its cause says where it has one.
    pub open spec fn text(self, cause: Seq<char>) -> Seq<char> {
        match self {
            TransferError::ConnectionLost => "Connection to remote was lost"@,
            TransferError::StorageFull => "Not enough storage space"@,
            TransferError::FailedToProcessFiles => "Failed to process source files"@,
            TransferError::FailedToStartTransfer(_) => "Failed to start transfer: "@ + cause,
            TransferError::UnsafePath => "Received an unsafe file path from remote"@,
            TransferError::FilesNotFound => "Source files not found"@,
            TransferError::PermissionDenied => "Permission denied writing to destination"@,
            TransferError::FileTooLarge => "File too large for destination filesystem"@,
            TransferError::InvalidFilename => {
                "Filename is invalid for the destination filesystem"@
            },
            TransferError::OutOfMemory => "Out of memory"@,
            TransferError::IoError(_) => "IO error during transfer: "@ + cause,
        }
    }

    /// The error in words, given the words of its cause where it has one.
    pub fn message(&self, cause: &str) -> (r: String)
        ensures
            r@ == self.text(cause@),
    {
        match self {
            TransferError::ConnectionLost => "Connection to remote was lost".to_string(),
            TransferError::StorageFull => "Not enough storage space".to_string(),
            TransferError::FailedToProcessFiles => "Failed to process source files".to_string(),
            TransferError::FailedToStartTransfer(_) => {
                "Failed to start transfer: ".to_string().concat(cause)
            },
            TransferError::UnsafePath => "Received an unsafe file path from remote".to_string(),
            TransferError::FilesNotFound => "Source files not found".to_string(),
            TransferError::PermissionDenied => {
                "Permission denied writing to destination".to_string()
            },
            TransferError::FileTooLarge => {
                "File too large for destination filesystem".to_string()
            },
            TransferError::InvalidFilename => {
                "Filename is invalid for the destination filesystem".to_string()
            },
            TransferError::OutOfMemory => "Out of memory".to_string(),
            TransferError::IoError(_) => "IO error during transfer: ".to_string().concat(cause),
        }
    }
}

/// The transfer error that an input or output error amounts to.
pub open spec fn transfer_error_of(kind: IoErrorKind) -> TransferError {
    match kind {
        IoErrorKind::NotFound => TransferError::FilesNotFound,
        IoErrorKind::PermissionDenied => TransferError::PermissionDenied,
        IoErrorKind::ReadOnlyFilesystem => TransferError::PermissionDenied,
        IoErrorKind::StorageFull => TransferError::StorageFull,
        IoErrorKind::FileTooLarge => TransferError::FileTooLarge,
        IoErrorKind::InvalidFilename => TransferError::InvalidFilename,
        IoErrorKind::OutOfMemory => TransferError::OutOfMemory,
        other => TransferError::IoError(other),
    }
}

impl From<IoErrorKind> for TransferError {
    fn from(value: IoErrorKind) -> (r: Self) {
        match value {
            IoErrorKind::NotFound => TransferError::FilesNotFound,
            IoErrorKind::PermissionDenied | IoErrorKind::ReadOnlyFilesystem => {
                TransferError::PermissionDenied
            },
            IoErrorKind::StorageFull => TransferError::StorageFull,
            IoErrorKind::FileTooLarge => TransferError::FileTooLarge,
            IoErrorKind::InvalidFilename => TransferError::InvalidFilename,
            IoErrorKind::OutOfMemory => TransferError::OutOfMemory,
            other => TransferError::IoError(other),
        }
    }
}

impl vstd::std_specs::convert::FromSpecImpl<IoErrorKind> for TransferError {
    open spec fn obeys_from_spec() -> bool {
        true
    }

    open spec fn from_spec(value: IoErrorKind) -> Self {
        transfer_error_of(value)
    }
}

/// Where a transfer stands.
#[derive(Debug)]
pub enum TransferState {
    /// New outgoing transfer
    Initializing,
    /// Waiting for the other party to accept the transfer
    WaitingPermission,
    /// Transfer is in progress
    InProgress,
    /// Transfer is paused
    Paused,
    /// Transfer is completed
    Completed,
    /// Transfer was stopped while in progress
    Stopped,
    /// Transfer is canceled
    Canceled,
    /// Transfer was denied by the other party
    Denied,
    /// Transfer failed due to an error
    Failed(TransferError),
}

impl Clone for TransferState {
    fn clone(&self) -> (r: Self)
        ensures
            r == *self,
    {
        match self {
            TransferState::Initializing => TransferState::Initializing,
            TransferState::WaitingPermission => TransferState::WaitingPermission,
            TransferState::InProgress => TransferState::InProgress,
            TransferState::Paused => TransferState::Paused,
            TransferState::Completed => TransferState::Completed,
            TransferState::Stopped => TransferState::Stopped,
            TransferState::Canceled => TransferState::Canceled,
            TransferState::Denied => TransferState::Denied,
            TransferState::Failed(error) => TransferState::Failed(error.clone()),
        }
    }
}

/// Which way a transfer goes, and what goes with that. Paths are in text form.
#[derive(Debug)]
pub enum TransferKind {
    Outgoing { source_paths: Vec<String> },
    Incoming {
        destination: String,
        /// The timestamp of the transfer on the remote side. This is used as id for the
        /// transfer in the protocol. Ironically, this might not be a timestamp
        remote_timestamp: u64,
    },
}

/// What a [`TransferKind`] says.
#[verifier::ext_equal]
pub enum TransferKindView {
    Outgoing { source_paths: Seq<Seq<char>> },
    Incoming { destination: Seq<char>, remote_timestamp: u64 },
}

impl View for TransferKind {
    type V = TransferKindView;

    open spec fn view(&self) -> TransferKindView {
        match self {
            TransferKind::Outgoing { source_paths } => TransferKindView::Outgoing {
                source_paths: crate::text::texts(source_paths@),
            },
            TransferKind::Incoming { destination, remote_timestamp } => {
                TransferKindView::Incoming {
                    destination: destination@,
                    remote_timestamp: *remote_timestamp,
                }
            },
        }
    }
}

impl Clone for TransferKind {
    fn clone(&self) -> (r: Self)
        ensures
            r@ == self@,
    {
        match self {
            TransferKind::Outgoing { source_paths } => TransferKind::Outgoing {
                source_paths: copy_texts(source_paths),
            },
            TransferKind::Incoming { destination, remote_timestamp } => TransferKind::Incoming {
                destination: destination.clone(),
                remote_timestamp: *remote_timestamp,
            },
        }
    }
}

/// A transfer to or from a remote.
#[derive(Debug)]
pub struct Transfer {
    /// Unique identifier for this transfer
    pub uuid: String,
    /// Unique identifier of the parent remote
    pub remote_uuid: String,
    /// Current state of the transfer
    pub state: TransferState,
    /// Timestamp of the time when the transfer was created(sent/received) in milliseconds
    pub timestamp: u64,
    /// Total size of the transfer in bytes
    pub total_bytes: u64,
    /// Number of bytes transferred so far
    pub bytes_transferred: u64,
    /// Current transfer speed in bytes per second. Moving average
    pub bytes_per_second: u64,
    /// Number of total files in the transfer
    pub file_count: u64,
    /// Names of the top dir entries in the transfer
    pub entry_names: Vec<String>,
    /// Utilized only if the transfer contains a single file. Name of the file being transferred
    pub single_name: Option<String>,
    /// Utilized only if the transfer contains a single file. MIME type of the file being
    /// transferred
    pub single_mime_type: Option<String>,
    /// Kind of transfer - incoming or outgoing. Contains additional data relevant to the kind
    pub kind: TransferKind,
}

/// What is known of a [`Transfer`].
#[verifier::ext_equal]
pub struct TransferView {
    pub uuid: Seq<char>,
    pub remote_uuid: Seq<char>,
    pub state: TransferState,
    pub timestamp: u64,
    pub total_bytes: u64,
    pub bytes_transferred: u64,
    pub bytes_per_second: u64,
    pub file_count: u64,
    pub entry_names: Seq<Seq<char>>,
    pub single_name: Option<Seq<char>>,
    pub single_mime_type: Option<Seq<char>>,
    pub kind: TransferKindView,
}

impl View for Transfer {
    type V = TransferView;

    open spec fn view(&self) -> TransferView {
        TransferView {
            uuid: self.uuid@,
            remote_uuid: self.remote_uuid@,
            state: self.state,
            timestamp: self.timestamp,
            total_bytes: self.total_bytes,
            bytes_transferred: self.bytes_transferred,
            bytes_per_second: self.bytes_per_second,
            file_count: self.file_count,
            entry_names: crate::text::texts(self.entry_names@),
            single_name: crate::text::optional_text(self.single_name),
            single_mime_type: crate::text::optional_text(self.single_mime_type),
            kind: self.kind@,
        }
    }
}

impl Clone for Transfer {
    fn clone(&self) -> (r: Self)
        ensures
            r@ == self@,
    {
        Transfer {
            uuid: self.uuid.clone(),
            remote_uuid: self.remote_uuid.clone(),
            state: self.state.clone(),
            timestamp: self.timestamp,
            total_bytes: self.total_bytes,
            bytes_transferred: self.bytes_transferred,
            bytes_per_second: self.bytes_per_second,
            file_count: self.file_count,
            entry_names: copy_texts(&self.entry_names),
            single_name: copy_optional_text(&self.single_name),
            single_mime_type: copy_optional_text(&self.single_mime_type),
            kind: self.kind.clone(),
        }
    }
}

/// Why the files to send could not be listed.
#[derive(Debug)]
pub enum SourcePathError {
    /// IO error while processing source paths
    IoError(IoErrorKind),
    /// Unsupported path type
    UnsupportedPathType(String),
}

/// What a [`SourcePathError`] says.
#[verifier::ext_equal]
pub enum SourcePathErrorView {
    IoError(IoErrorKind),
    UnsupportedPathType(Seq<char>),
}

impl View for SourcePathError {
    type V = SourcePathErrorView;

    open spec fn view(&self) -> SourcePathErrorView {
        match self {
            SourcePathError::IoError(kind) => SourcePathErrorView::IoError(*kind),
            SourcePathError::UnsupportedPathType(path) => {
                SourcePathErrorView::UnsupportedPathType(path@)
            },
        }
    }
}

impl SourcePathError {
    /// What the error says, given what its cause says where it has one.
    pub open spec fn text(self, cause: Seq<char>) -> Seq<char> {
        match self {
            SourcePathError::IoError(_) => "IO error while processing source paths: "@ + cause,
            SourcePathError::UnsupportedPathType(path) => "Unsupported path type: "@ + path@,
        }
    }

    /// The error in words, given the words of its cause where it has one.
    pub fn message(&self, cause: &str) -> (r: String)
        ensures
            r@ == self.text(cause@),
    {
        match self {
            SourcePathError::IoError(_) => {
                "IO error while processing source paths: ".to_string().concat(cause)
            },
            SourcePathError::UnsupportedPathType(path) => {
                "Unsupported path type: ".to_string().concat(path)
            },
        }
    }
}

/// What was found for one entry below a source directory.
#[derive(Clone, Copy, Debug, PartialEq, Eq, Structural)]
pub enum EntryProbe {
    /// A regular file, with its length
    File(u64),
    /// Anything else
    Other,
    /// An entry that could not be read
    Unreadable,
}

/// What was found at one of the paths to send.
#[derive(Debug)]
pub enum PathProbe {
    /// A regular file, with its length
    File(u64),
    /// A directory, with all that lies below it
    Directory(Vec<EntryProbe>),
    /// Anything else
    Other,
    /// The path could not be examined
    Failed(IoErrorKind),
}

/// The bytes of the regular files among some entries.
pub open spec fn entry_bytes(entries: Seq<EntryProbe>) -> nat
    decreases entries.len(),
{
    if entries.len() == 0 {
        0
    } else {
        entry_bytes(entries.drop_last()) + match entries.last() {
            EntryProbe::File(len) => len as nat,
            _ => 0,
        }
    }
}

/// The number of regular files among some entries.
pub open spec fn entry_files(entries: Seq<EntryProbe>) -> nat
    decreases entries.len(),
{
    if entries.len() == 0 {
        0
    } else {
        entry_files(entries.drop_last()) + match entries.last() {
            EntryProbe::File(_) => 1nat,
            _ => 0,
        }
    }
}

impl PathProbe {
    /// The bytes to send for the path.
    pub open spec fn bytes(self) -> nat {
        match self {
            PathProbe::File(len) => len as nat,
            PathProbe::Directory(entries) => entry_bytes(entries@),
            _ => 0,
        }
    }

    /// The files to send for the path.
    pub open spec fn files(self) -> nat {
        match self {
            PathProbe::File(_) => 1,
            PathProbe::Directory(entries) => entry_files(entries@),
            _ => 0,
        }
    }
}

/// The bytes to send for all the paths.
pub open spec fn probed_bytes(probes: Seq<PathProbe>) -> nat
    decreases probes.len(),
{
    if probes.len() == 0 {
        0
    } else {
        probed_bytes(probes.drop_last()) + probes.last().bytes()
    }
}

/// The files to send for all the paths.
pub open spec fn probed_files(probes: Seq<PathProbe>) -> nat
    decreases probes.len(),
{
    if probes.len() == 0 {
        0
    } else {
        probed_files(probes.drop_last()) + probes.last().files()
    }
}

/// The first failure among the probes.
pub open spec fn first_failure(probes: Seq<PathProbe>) -> Option<IoErrorKind>
    decreases probes.len(),
{
    if probes.len() == 0 {
        None
    } else {
        match probes[0] {
            PathProbe::Failed(kind) => Some(kind),
            _ => first_failure(probes.drop_first()),
        }
    }
}

/// What some optional strings stand for.
pub open spec fn optional_texts(strings: Seq<Option<String>>) -> Seq<Option<Seq<char>>> {
    strings.map_values(|s: Option<String>| crate::text::optional_text(s))
}

/// The names of some paths, as far as they have one.
pub open spec fn names_of(paths: Seq<Seq<char>>) -> Seq<Option<Seq<char>>> {
    paths.map_values(|path: Seq<char>| crate::platform::file_name_of(path))
}

/// The type of a single path; of several, none is asked for.
pub open spec fn mime_of(paths: Seq<Seq<char>>) -> Seq<char> {
    if paths.len() == 1 {
        crate::platform::guessed_mime(paths[0])
    } else {
        Seq::empty()
    }
}

/// The names that are there, in order.
pub open spec fn present(names: Seq<Option<Seq<char>>>) -> Seq<Seq<char>>
    decreases names.len(),
{
    if names.len() == 0 {
        Seq::empty()
    } else {
        match names.last() {
            Some(name) => present(names.drop_last()).push(name),
            None => present(names.drop_last()),
        }
    }
}

/// Whether there is a probe for every path, or for those up to the first that failed.
pub open spec fn probes_cover(paths: Seq<Seq<char>>, probes: Seq<PathProbe>) -> bool {
    ||| probes.len() == paths.len()
    ||| 0 < probes.len() < paths.len() && probes.last() is Failed
}

/// The transfer once the paths to send have been examined, given the names of the paths and the
/// type of a single one.
pub open spec fn described_with(
    transfer: TransferView,
    paths: Seq<Seq<char>>,
    names: Seq<Option<Seq<char>>>,
    mime: Seq<char>,
    probes: Seq<PathProbe>,
) -> Result<TransferView, SourcePathErrorView> {
    if paths.len() == 1 && probes[0] is File {
        match names[0] {
            Some(name) => Ok(
                TransferView {
                    single_name: Some(name),
                    single_mime_type: Some(mime),
                    total_bytes: probes[0]->File_0,
                    entry_names: seq![name],
                    file_count: 1,
                    ..transfer
                },
            ),
            None => Err(SourcePathErrorView::UnsupportedPathType(paths[0])),
        }
    } else {
        match first_failure(probes) {
            Some(kind) => Err(SourcePathErrorView::IoError(kind)),
            None => Ok(
                TransferView {
                    single_name: None,
                    single_mime_type: None,
                    total_bytes: probed_bytes(probes) as u64,
                    entry_names: present(names),
                    file_count: probed_files(probes) as u64,
                    ..transfer
                },
            ),
        }
    }
}

/// The transfer once the paths to send have been examined.
pub open spec fn described(
    transfer: TransferView,
    paths: Seq<Seq<char>>,
    probes: Seq<PathProbe>,
) -> Result<TransferView, SourcePathErrorView> {
    described_with(transfer, paths, names_of(paths), mime_of(paths), probes)
}

impl TransferView {
    /// The offer that is sent to the other side.
    pub open spec fn to_request(self, service_id: Seq<char>) -> TransferOpRequestView {
        TransferOpRequestView {
            info: Some(
                OpInfoView {
                    ident: service_id,
                    timestamp: self.timestamp,
                    readable_name: Seq::empty(),
                    use_compression: false,
                },
            ),
            sender_name: Seq::empty(),
            receiver_name: Seq::empty(),
            receiver: service_id,
            size: self.total_bytes,
            count: self.file_count,
            name_if_single: match self.single_name {
                Some(name) => name,
                None => Seq::empty(),
            },
            mime_if_single: match self.single_mime_type {
                Some(mime) => mime,
                None => Seq::empty(),
            },
            top_dir_basenames: self.entry_names,
        }
    }
}

/// A new transfer of some paths to a remote.
pub open spec fn outgoing_transfer(
    uuid: Seq<char>,
    timestamp: u64,
    remote_uuid: Seq<char>,
    source_paths: Seq<Seq<char>>,
) -> TransferView {
    TransferView {
        uuid,
        remote_uuid,
        state: TransferState::Initializing,
        timestamp,
        total_bytes: 0,
        bytes_transferred: 0,
        bytes_per_second: 0,
        file_count: 0,
        entry_names: Seq::empty(),
        single_name: None,
        single_mime_type: None,
        kind: TransferKindView::Outgoing { source_paths },
    }
}

/// The name or type in an offer, which counts only where a single file is offered.
pub open spec fn if_single(count: u64, text: Seq<char>) -> Option<Seq<char>> {
    if count == 1 && text.len() > 0 {
        Some(text)
    } else {
        None
    }
}

/// The transfer that is recorded for an offer.
pub open spec fn incoming_transfer(
    uuid: Seq<char>,
    timestamp: u64,
    request: TransferOpRequestView,
) -> TransferView
    recommends
        request.info is Some,
{
    TransferView {
        uuid,
        remote_uuid: request.info->0.ident,
        state: TransferState::WaitingPermission,
        timestamp,
        total_bytes: request.size,
        bytes_transferred: 0,
        bytes_per_second: 0,
        file_count: request.count,
        entry_names: request.top_dir_basenames,
        single_name: if_single(request.count, request.name_if_single),
        single_mime_type: if_single(request.count, request.mime_if_single),
        kind: TransferKindView::Incoming {
            destination: "/"@,
            remote_timestamp: request.info->0.timestamp,
        },
    }
}

fn text_if_single(count: u64, text: String) -> (r: Option<String>)
    ensures
        crate::text::optional_text(r) == if_single(count, text@),
{
    if count == 1 && !text.as_str().is_empty() {
        Some(text)
    } else {
        None
    }
}

fn text_or_empty(text: &Option<String>) -> (r: String)
    ensures
        r@ == (match crate::text::optional_text(*text) {
            Some(t) => t,
            None => Seq::<char>::empty(),
        }),
{
    match text {
        Some(t) => t.clone(),
        None => String::new(),
    }
}

proof fn lemma_probed_prefix(probes: Seq<PathProbe>, i: int)
    requires
        0 <= i <= probes.len(),
    ensures
        probed_bytes(probes.take(i)) <= probed_bytes(probes),
        probed_files(probes.take(i)) <= probed_files(probes),
    decreases probes.len(),
{
    if i == probes.len() {
        assert(probes.take(i) =~= probes);
    } else {
        assert(probes.drop_last().take(i) =~= probes.take(i));
        lemma_probed_prefix(probes.drop_last(), i);
    }
}

proof fn lemma_entry_prefix(entries: Seq<EntryProbe>, i: int)
    requires
        0 <= i <= entries.len(),
    ensures
        entry_bytes(entries.take(i)) <= entry_bytes(entries),
        entry_files(entries.take(i)) <= entry_files(entries),
    decreases entries.len(),
{
    if i == entries.len() {
        assert(entries.take(i) =~= entries);
    } else {
        assert(entries.drop_last().take(i) =~= entries.take(i));
        lemma_entry_prefix(entries.drop_last(), i);
    }
}

/// A failure among the probes is found.
proof fn lemma_failure_is_found(probes: Seq<PathProbe>, i: int)
    requires
        0 <= i < probes.len(),
        probes[i] is Failed,
    ensures
        first_failure(probes) is Some,
    decreases probes.len(),
{
    if !(probes[0] is Failed) {
        lemma_failure_is_found(probes.drop_first(), i - 1);
    }
}

/// Whether the regular files among some entries can be added up.
fn entries_fit(entries: &Vec<EntryProbe>) -> (r: bool)
    ensures
        r == (entry_bytes(entries@) <= u64::MAX && entry_files(entries@) <= u64::MAX),
{
    let mut bytes: u64 = 0;
    let mut files: u64 = 0;
    for i in 0..entries.len()
        invariant
            bytes == entry_bytes(entries@.take(i as int)),
            files == entry_files(entries@.take(i as int)),
    {
        proof {
            lemma_entry_prefix(entries@, i + 1);
            assert(entries@.take(i + 1).drop_last() =~= entries@.take(i as int));
        }
        if let EntryProbe::File(len) = entries[i] {
            match (bytes.checked_add(len), files.checked_add(1)) {
                (Some(b), Some(f)) => {
                    bytes = b;
                    files = f;
                },
                _ => {
                    return false;
                },
            }
        }
    }
    assert(entries@.take(entries@.len() as int) =~= entries@);
    true
}

/// Adds up the regular files among some entries: their bytes and their number.
fn sum_entries(entries: &Vec<EntryProbe>) -> (r: (u64, u64))
    requires
        entry_bytes(entries@) <= u64::MAX,
        entry_files(entries@) <= u64::MAX,
    ensures
        r.0 == entry_bytes(entries@),
        r.1 == entry_files(entries@),
{
    let mut bytes: u64 = 0;
    let mut files: u64 = 0;
    for i in 0..entries.len()
        invariant
            bytes == entry_bytes(entries@.take(i as int)),
            files == entry_files(entries@.take(i as int)),
            entry_bytes(entries@) <= u64::MAX,
            entry_files(entries@) <= u64::MAX,
    {
        proof {
            lemma_entry_prefix(entries@, i + 1);
            assert(entries@.take(i + 1).drop_last() =~= entries@.take(i as int));
        }
        if let EntryProbe::File(len) = entries[i] {
            bytes = bytes + len;
            files = files + 1;
        }
    }
    assert(entries@.take(entries@.len() as int) =~= entries@);
    (bytes, files)
}

/// Whether the files to send can be added up: their bytes and their number.
pub fn probes_fit(probes: &Vec<PathProbe>) -> (r: bool)
    ensures
        r == (probed_bytes(probes@) <= u64::MAX && probed_files(probes@) <= u64::MAX),
{
    let mut bytes: u64 = 0;
    let mut files: u64 = 0;
    for i in 0..probes.len()
        invariant
            bytes == probed_bytes(probes@.take(i as int)),
            files == probed_files(probes@.take(i as int)),
    {
        proof {
            lemma_probed_prefix(probes@, i + 1);
            assert(probes@.take(i + 1).drop_last() =~= probes@.take(i as int));
        }
        let (more_bytes, more_files) = match &probes[i] {
            PathProbe::File(len) => (*len, 1),
            PathProbe::Directory(entries) => {
                if !entries_fit(entries) {
                    return false;
                }
                sum_entries(entries)
            },
            _ => (0, 0),
        };
        match (bytes.checked_add(more_bytes), files.checked_add(more_files)) {
            (Some(b), Some(f)) => {
                bytes = b;
                files = f;
            },
            _ => {
                return false;
            },
        }
    }
    assert(probes@.take(probes@.len() as int) =~= probes@);
    true
}

impl Transfer {
    /// A new transfer to a remote, with an identifier of its own and stamped with the current
    /// time.
    pub fn new_outgoing(remote_uuid: String, source_paths: Vec<String>) -> (r: Self)
        ensures
            crate::platform::is_random_uuid(r@.uuid),
            r@ == outgoing_transfer(
                r@.uuid,
                r@.timestamp,
                remote_uuid@,
                crate::text::texts(source_paths@),
            ),
    {
        Transfer::outgoing_at(fresh_uuid(), now_millis() as u64, remote_uuid, source_paths)
    }

    /// The new transfer to a remote with a given identifier and time.
    pub fn outgoing_at(
        uuid: String,
        timestamp: u64,
        remote_uuid: String,
        source_paths: Vec<String>,
    ) -> (r: Self)
        ensures
            r@ == outgoing_transfer(
                uuid@,
                timestamp,
                remote_uuid@,
                crate::text::texts(source_paths@),
            ),
    {
        Transfer {
            uuid,
            remote_uuid,
            state: TransferState::Initializing,
            timestamp,
            total_bytes: 0,
            bytes_transferred: 0,
            bytes_per_second: 0,
            file_count: 0,
            entry_names: Vec::new(),
            single_name: None,
            single_mime_type: None,
            kind: TransferKind::Outgoing { source_paths },
        }
    }

    /// The transfer that is recorded for an offer. The destination is a default, to be replaced
    /// when the transfer is accepted.
    pub fn from(value: TransferOpRequest) -> (r: Self)
        requires
            value.info is Some,
        ensures
            crate::platform::is_random_uuid(r@.uuid),
            r@ == incoming_transfer(r@.uuid, r@.timestamp, value@),
    {
        Transfer::incoming_at(fresh_uuid(), now_millis() as u64, value)
    }

    /// The transfer that is recorded for an offer under a given identifier and time.
    pub fn incoming_at(uuid: String, timestamp: u64, value: TransferOpRequest) -> (r: Self)
        requires
            value.info is Some,
        ensures
            r@ == incoming_transfer(uuid@, timestamp, value@),
    {
        let info = value.info.unwrap();
        Transfer {
            uuid,
            remote_uuid: info.ident,
            state: TransferState::WaitingPermission,
            timestamp,
            total_bytes: value.size,
            bytes_transferred: 0,
            bytes_per_second: 0,
            file_count: value.count,
            entry_names: value.top_dir_basenames,
            single_name: text_if_single(value.count, value.name_if_single),
            single_mime_type: text_if_single(value.count, value.mime_if_single),
            kind: TransferKind::Incoming {
                destination: "/".to_string(),
                remote_timestamp: info.timestamp,
            },
        }
    }

    /// Describes the transfer by what was found at the paths to send: a single file by its name
    /// and type, anything else by the names at the top. Nothing changes where a path could not
    /// be examined or a single file has no name.
    pub fn process_paths(&mut self, paths: &Vec<String>, probes: &Vec<PathProbe>) -> (r: Result<
        (),
        SourcePathError,
    >)
        requires
            probes_cover(crate::text::texts(paths@), probes@),
            probed_bytes(probes@) <= u64::MAX,
            probed_files(probes@) <= u64::MAX,
        ensures
            match described(old(self)@, crate::text::texts(paths@), probes@) {
                Ok(transfer) => r is Ok && final(self)@ == transfer,
                Err(error) => r matches Err(e) && e@ == error && *final(self) == *old(self),
            },
    {
        let ghost path_texts = crate::text::texts(paths@);
        let mut names: Vec<Option<String>> = Vec::new();
        for i in 0..paths.len()
            invariant
                path_texts == crate::text::texts(paths@),
                optional_texts(names@) =~= names_of(path_texts.take(i as int)),
        {
            let ghost before = names@;
            let name = path_file_name(&paths[i]);
            names.push(name);
            proof {
                assert(optional_texts(names@) =~= optional_texts(before).push(
                    crate::text::optional_text(name),
                ));
                assert(path_texts[i as int] == paths@[i as int]@);
            }
        }
        assert(path_texts.take(path_texts.len() as int) =~= path_texts);
        let mime = if paths.len() == 1 {
            guess_mime(&paths[0])
        } else {
            String::new()
        };
        assert(mime@ =~= mime_of(path_texts));
        self.describe(paths, &names, mime, probes)
    }

    /// Describes the transfer by what was found at the paths to send, given the names of the
    /// paths and the type of a single one.
    pub fn describe(
        &mut self,
        paths: &Vec<String>,
        names: &Vec<Option<String>>,
        mime: String,
        probes: &Vec<PathProbe>,
    ) -> (r: Result<(), SourcePathError>)
        requires
            names@.len() == paths@.len(),
            probes_cover(crate::text::texts(paths@), probes@),
            probed_bytes(probes@) <= u64::MAX,
            probed_files(probes@) <= u64::MAX,
        ensures
            match described_with(
                old(self)@,
                crate::text::texts(paths@),
                optional_texts(names@),
                mime@,
                probes@,
            ) {
                Ok(transfer) => r is Ok && final(self)@ == transfer,
                Err(error) => r matches Err(e) && e@ == error && *final(self) == *old(self),
            },
    {
        let ghost path_texts = crate::text::texts(paths@);
        let ghost name_texts = optional_texts(names@);
        if paths.len() == 1 {
            if let PathProbe::File(len) = probes[0] {
                return match copy_optional_text(&names[0]) {
                    None => Err(SourcePathError::UnsupportedPathType(paths[0].clone())),
                    Some(name) => {
                        let mut entry_names: Vec<String> = Vec::new();
                        entry_names.push(name.clone());
                        assert(crate::text::texts(entry_names@) =~= seq![name@]);
                        self.single_name = Some(name);
                        self.single_mime_type = Some(mime);
                        self.total_bytes = len;
                        self.entry_names = entry_names;
                        self.file_count = 1;
                        Ok(())
                    },
                };
            }
        }
        let mut total_size: u64 = 0;
        let mut file_count: u64 = 0;
        let mut entry_names: Vec<String> = Vec::new();
        assert(crate::text::texts(entry_names@) =~= present(name_texts.take(0)));
        assert(probes@.skip(0) =~= probes@);
        for i in 0..probes.len()
            invariant
                *self == *old(self),
                path_texts == crate::text::texts(paths@),
                name_texts == optional_texts(names@),
                names@.len() == paths@.len(),
                probes_cover(path_texts, probes@),
                probed_bytes(probes@) <= u64::MAX,
                probed_files(probes@) <= u64::MAX,
                !(path_texts.len() == 1 && probes@[0] is File),
                total_size == probed_bytes(probes@.take(i as int)),
                file_count == probed_files(probes@.take(i as int)),
                crate::text::texts(entry_names@) == present(name_texts.take(i as int)),
                first_failure(probes@) == first_failure(probes@.skip(i as int)),
        {
            proof {
                lemma_probed_prefix(probes@, i + 1);
                assert(probes@.take(i + 1).drop_last() =~= probes@.take(i as int));
                assert(probes@.skip(i as int).drop_first() =~= probes@.skip(i + 1));
                assert(name_texts.take(i + 1).drop_last() =~= name_texts.take(i as int));
            }
            match &probes[i] {
                PathProbe::Failed(kind) => {
                    return Err(SourcePathError::IoError(*kind));
                },
                PathProbe::File(len) => {
                    total_size = total_size + *len;
                    file_count = file_count + 1;
                },
                PathProbe::Directory(entries) => {
                    let (bytes, files) = sum_entries(entries);
                    total_size = total_size + bytes;
                    file_count = file_count + files;
                },
                PathProbe::Other => {},
            }
            let ghost before = entry_names@;
            if let Some(name) = copy_optional_text(&names[i]) {
                entry_names.push(name);
                assert(crate::text::texts(entry_names@) =~= crate::text::texts(before).push(name@));
            }
        }
        proof {
            assert(probes@.take(probes@.len() as int) =~= probes@);
            assert(first_failure(probes@) is None);
            if probes@.len() != path_texts.len() {
                lemma_failure_is_found(probes@, probes@.len() - 1);
            }
            assert(name_texts.take(name_texts.len() as int) =~= name_texts);
        }
        self.single_name = None;
        self.single_mime_type = None;
        self.total_bytes = total_size;
        self.entry_names = entry_names;
        self.file_count = file_count;
        Ok(())
    }

    /// The offer that is sent to the other side.
    pub fn as_proto(&self, service_id: &str) -> (r: TransferOpRequest)
        ensures
            r@ == self@.to_request(service_id@),
    {
        TransferOpRequest {
            info: Some(
                OpInfo {
                    ident: service_id.to_string(),
                    timestamp: self.timestamp,
                    readable_name: String::new(),
                    use_compression: false,
                },
            ),
            sender_name: String::new(),
            receiver_name: String::new(),
            receiver: service_id.to_string(),
            size: self.total_bytes,
            count: self.file_count,
            name_if_single: text_or_empty(&self.single_name),
            mime_if_single: text_or_empty(&self.single_mime_type),
            top_dir_basenames: copy_texts(&self.entry_names),
        }
    }
}

/// A change to a transfer that is under way.
#[derive(Debug)]
pub enum TransferUpdate {
    /// The transfer enters a state
    State(TransferState),
    /// The transfer is over, and nothing moves any more
    Finished(TransferState),
    /// An incoming transfer is accepted into a directory
    Accepted { destination: String, remote_timestamp: u64 },
    /// An outgoing transfer has been offered as described
    Offered {
        total_bytes: u64,
        file_count: u64,
        entry_names: Vec<String>,
        single_name: Option<String>,
        single_mime_type: Option<String>,
    },
    /// Some more bytes have gone through, at the given speed
    Progress { bytes: u64, bytes_per_second: u64 },
}

impl TransferUpdate {
    /// Whether the count of bytes stays within its type.
    pub open spec fn fits(self, transfer: TransferView) -> bool {
        self matches TransferUpdate::Progress { bytes, .. } ==> transfer.bytes_transferred + bytes
            <= u64::MAX
    }

    /// Whether the count of bytes stays within its type.
    pub fn can_apply(&self, transfer: &Transfer) -> (r: bool)
        ensures
            r == self.fits(transfer@),
    {
        match self {
            TransferUpdate::Progress { bytes, .. } => {
                transfer.bytes_transferred.checked_add(*bytes).is_some()
            },
            _ => true,
        }
    }

    /// The transfer after the change.
    pub open spec fn applied(self, transfer: TransferView) -> TransferView {
        match self {
            TransferUpdate::State(state) => TransferView { state, ..transfer },
            TransferUpdate::Finished(state) => TransferView {
                state,
                bytes_per_second: 0,
                ..transfer
            },
            TransferUpdate::Accepted { destination, remote_timestamp } => TransferView {
                state: TransferState::InProgress,
                kind: TransferKindView::Incoming { destination: destination@, remote_timestamp },
                ..transfer
            },
            TransferUpdate::Offered {
                total_bytes,
                file_count,
                entry_names,
                single_name,
                single_mime_type,
            } => TransferView {
                total_bytes,
                file_count,
                entry_names: crate::text::texts(entry_names@),
                single_name: crate::text::optional_text(single_name),
                single_mime_type: crate::text::optional_text(single_mime_type),
                state: TransferState::WaitingPermission,
                ..transfer
            },
            TransferUpdate::Progress { bytes, bytes_per_second } => TransferView {
                bytes_transferred: (transfer.bytes_transferred + bytes) as u64,
                bytes_per_second,
                ..transfer
            },
        }
    }
}

impl Transfer {
    /// Carries out a change.
    pub fn apply(&mut self, update: TransferUpdate)
        requires
            update.fits(old(self)@),
        ensures
            final(self)@ == update.applied(old(self)@),
    {
        match update {
            TransferUpdate::State(state) => {
                self.state = state;
            },
            TransferUpdate::Finished(state) => {
                self.state = state;
                self.bytes_per_second = 0;
            },
            TransferUpdate::Accepted { destination, remote_timestamp } => {
                self.state = TransferState::InProgress;
                self.kind = TransferKind::Incoming { destination, remote_timestamp };
            },
            TransferUpdate::Offered {
                total_bytes,
                file_count,
                entry_names,
                single_name,
                single_mime_type,
            } => {
                self.total_bytes = total_bytes;
                self.file_count = file_count;
                self.entry_names = entry_names;
                self.single_name = single_name;
                self.single_mime_type = single_mime_type;
                self.state = TransferState::WaitingPermission;
            },
            TransferUpdate::Progress { bytes, bytes_per_second } => {
                self.bytes_transferred = self.bytes_transferred + bytes;
                self.bytes_per_second = bytes_per_second;
            },
        }
    }
}

/// What one side offers, the other records: the same sizes, counts and names, under the
/// identifier of the offering service, with the offering side's timestamp to answer with. The
/// name and the type of a single file come through as well, as long as they are not empty.
pub proof fn offered_transfer_is_recorded(
    offered: TransferView,
    service_id: Seq<char>,
    uuid: Seq<char>,
    timestamp: u64,
)
    ensures
        ({
            let recorded = incoming_transfer(uuid, timestamp, offered.to_request(service_id));
            &&& recorded.uuid == uuid
            &&& recorded.timestamp == timestamp
            &&& recorded.remote_uuid == service_id
            &&& recorded.state == TransferState::WaitingPermission
            &&& recorded.total_bytes == offered.total_bytes
            &&& recorded.bytes_transferred == 0
            &&& recorded.bytes_per_second == 0
            &&& recorded.file_count == offered.file_count
            &&& recorded.entry_names == offered.entry_names
            &&& recorded.kind == (TransferKindView::Incoming {
                destination: "/"@,
                remote_timestamp: offered.timestamp,
            })
            &&& recorded.single_name == offered.single_name <==> (match offered.single_name {
                Some(name) => offered.file_count == 1 && name.len() > 0,
                None => true,
            })
            &&& recorded.single_mime_type == offered.single_mime_type <==> (
            match offered.single_mime_type {
                Some(mime) => offered.file_count == 1 && mime.len() > 0,
                None => true,
            })
        }),
{
}

/// Examining the paths leaves alone all that does not describe the files: the identifiers, the
/// state, the time, the progress and the direction.
pub proof fn describing_keeps_the_rest(
    transfer: TransferView,
    paths: Seq<Seq<char>>,
    probes: Seq<PathProbe>,
)
    requires
        probes_cover(paths, probes),
    ensures
        described(transfer, paths, probes) matches Ok(t) ==> {
            &&& t.uuid == transfer.uuid
            &&& t.remote_uuid == transfer.remote_uuid
            &&& t.state == transfer.state
            &&& t.timestamp == transfer.timestamp
            &&& t.bytes_transferred == transfer.bytes_transferred
            &&& t.bytes_per_second == transfer.bytes_per_second
            &&& t.kind == transfer.kind
            &&& t.single_name is Some <==> t.single_mime_type is Some
            &&& t.single_name matches Some(name) ==> t.file_count == 1 && t.entry_names == seq![name]
        },
{
}

/// What is said of a transfer is what it holds.
pub proof fn transfer_is_seen_as_it_is(transfer: Transfer)
    ensures
        transfer@.uuid == transfer.uuid@,
        transfer@.remote_uuid == transfer.remote_uuid@,
        transfer@.state == transfer.state,
        transfer@.timestamp == transfer.timestamp,
        transfer@.total_bytes == transfer.total_bytes,
        transfer@.bytes_transferred == transfer.bytes_transferred,
        transfer@.bytes_per_second == transfer.bytes_per_second,
        transfer@.file_count == transfer.file_count,
        transfer@.entry_names.len() == transfer.entry_names@.len(),
        forall|i: int|
            0 <= i < transfer.entry_names@.len() ==> #[trigger] transfer@.entry_names[i]
                == transfer.entry_names@[i]@,
        transfer@.single_name is Some <==> transfer.single_name is Some,
        transfer.single_name matches Some(name) ==> transfer@.single_name == Some(name@),
        transfer@.single_mime_type is Some <==> transfer.single_mime_type is Some,
        transfer.single_mime_type matches Some(mime) ==> transfer@.single_mime_type == Some(mime@),
        transfer@.kind is Incoming <==> transfer.kind is Incoming,
        transfer.kind matches TransferKind::Outgoing { source_paths } ==> {
            &&& transfer@.kind->source_paths.len() == source_paths@.len()
            &&& forall|i: int|
                0 <= i < source_paths@.len() ==> #[trigger] transfer@.kind->source_paths[i]
                    == source_paths@[i]@
        },
        transfer.kind matches TransferKind::Incoming { destination, remote_timestamp } ==> {
            &&& transfer@.kind->destination == destination@
            &&& transfer@.kind->remote_timestamp == remote_timestamp
        },
{
}

/// What is said of an error about the paths is what it holds.
pub proof fn path_error_is_seen_as_it_is(error: SourcePathError)
    ensures
        error matches SourcePathError::IoError(kind) ==> error@ == SourcePathErrorView::IoError(
            kind,
        ),
        error matches SourcePathError::UnsupportedPathType(path) ==> error@
            == SourcePathErrorView::UnsupportedPathType(path@),
{
}

/// An error that stems from a cause ends in the words of the cause; a path that cannot be sent
/// stands at the end of the error about it. Any other error says the same whatever it is told of a
/// cause.
pub proof fn error_words_end_in_their_cause(
    status: Status,
    kind: IoErrorKind,
    path: String,
    error: TransferError,
    cause: Seq<char>,
    other: Seq<char>,
)
    ensures
        !(error is FailedToStartTransfer) && !(error is IoError) ==> error.text(cause)
            == error.text(other),
        TransferError::FailedToStartTransfer(status).text(cause) == "Failed to start transfer: "@
            + cause,
        TransferError::IoError(kind).text(cause) == "IO error during transfer: "@ + cause,
        SourcePathError::IoError(kind).text(cause) == "IO error while processing source paths: "@
            + cause,
        SourcePathError::UnsupportedPathType(path).text(cause) == "Unsupported path type: "@
            + path@,
{
}

/// Every kind of input or output error has a transfer error of its own, apart from a read-only
/// file system, which is a lack of permission; a kind that there is no name for is kept as it is.
pub proof fn every_input_error_is_told(kind: IoErrorKind)
    ensures
        transfer_error_of(kind) is FilesNotFound <==> kind == IoErrorKind::NotFound,
        transfer_error_of(kind) is PermissionDenied <==> kind == IoErrorKind::PermissionDenied
            || kind == IoErrorKind::ReadOnlyFilesystem,
        transfer_error_of(kind) is StorageFull <==> kind == IoErrorKind::StorageFull,
        transfer_error_of(kind) is FileTooLarge <==> kind == IoErrorKind::FileTooLarge,
        transfer_error_of(kind) is InvalidFilename <==> kind == IoErrorKind::InvalidFilename,
        transfer_error_of(kind) is OutOfMemory <==> kind == IoErrorKind::OutOfMemory,
        transfer_error_of(kind) matches TransferError::IoError(kept) ==> kept == kind,
        transfer_error_of(kind) is FilesNotFound || transfer_error_of(kind) is PermissionDenied
            || transfer_error_of(kind) is StorageFull || transfer_error_of(kind) is FileTooLarge
            || transfer_error_of(kind) is InvalidFilename || transfer_error_of(kind) is OutOfMemory
            || transfer_error_of(kind) is IoError,
{
}

/// The files below a directory add up: the bytes and the number of those in one part and of those
/// in another are the bytes and the number of all; a file counts once and with its length, and
/// nothing else counts.
pub proof fn entries_add_up(first: Seq<EntryProbe>, second: Seq<EntryProbe>, len: u64)
    ensures
        entry_bytes(first + second) == entry_bytes(first) + entry_bytes(second),
        entry_files(first + second) == entry_files(first) + entry_files(second),
        entry_bytes(Seq::empty()) == 0,
        entry_files(Seq::empty()) == 0,
        entry_bytes(seq![EntryProbe::File(len)]) == len,
        entry_files(seq![EntryProbe::File(len)]) == 1,
        entry_bytes(seq![EntryProbe::Other]) == 0,
        entry_files(seq![EntryProbe::Other]) == 0,
        entry_bytes(seq![EntryProbe::Unreadable]) == 0,
        entry_files(seq![EntryProbe::Unreadable]) == 0,
    decreases second.len(),
{
    reveal_with_fuel(entry_bytes, 2);
    reveal_with_fuel(entry_files, 2);
    if second.len() == 0 {
        assert(first + second =~= first);
    } else {
        assert((first + second).drop_last() =~= first + second.drop_last());
        entries_add_up(first, second.drop_last(), len);
    }
}

/// The files to send add up: the bytes and the number of those for some paths and of those for
/// others are the bytes and the number of all; a file counts once and with its length, a directory
/// with all the files below it, and nothing else counts.
pub proof fn paths_add_up(
    first: Seq<PathProbe>,
    second: Seq<PathProbe>,
    len: u64,
    entries: Vec<EntryProbe>,
    kind: IoErrorKind,
)
    ensures
        probed_bytes(first + second) == probed_bytes(first) + probed_bytes(second),
        probed_files(first + second) == probed_files(first) + probed_files(second),
        probed_bytes(Seq::empty()) == 0,
        probed_files(Seq::empty()) == 0,
        probed_bytes(seq![PathProbe::File(len)]) == len,
        probed_files(seq![PathProbe::File(len)]) == 1,
        probed_bytes(seq![PathProbe::Directory(entries)]) == entry_bytes(entries@),
        probed_files(seq![PathProbe::Directory(entries)]) == entry_files(entries@),
        probed_bytes(seq![PathProbe::Other]) == 0,
        probed_files(seq![PathProbe::Other]) == 0,
        probed_bytes(seq![PathProbe::Failed(kind)]) == 0,
        probed_files(seq![PathProbe::Failed(kind)]) == 0,
    decreases second.len(),
{
    reveal_with_fuel(probed_bytes, 2);
    reveal_with_fuel(probed_files, 2);
    if second.len() == 0 {
        assert(first + second =~= first);
    } else {
        assert((first + second).drop_last() =~= first + second.drop_last());
        paths_add_up(first, second.drop_last(), len, entries, kind);
    }
}

/// A transfer that has been described says how much there is to send: as many bytes and as many
/// files as were found, whatever the paths are called. That of a single file says how long it is.
pub proof fn description_says_how_much_there_is(
    transfer: TransferView,
    paths: Seq<Seq<char>>,
    names: Seq<Option<Seq<char>>>,
    mime: Seq<char>,
    probes: Seq<PathProbe>,
)
    requires
        probes_cover(paths, probes),
        probed_bytes(probes) <= u64::MAX,
        probed_files(probes) <= u64::MAX,
    ensures
        described_with(transfer, paths, names, mime, probes) matches Ok(d) ==> d.total_bytes
            == probed_bytes(probes) && d.file_count == probed_files(probes),
        described(transfer, paths, probes) matches Ok(d) ==> d.total_bytes == probed_bytes(probes)
            && d.file_count == probed_files(probes),
        probes.len() == 1 && probes[0] is File ==> {
            &&& described_with(transfer, paths, names, mime, probes) matches Ok(d)
                ==> d.total_bytes == probes[0]->File_0
            &&& described(transfer, paths, probes) matches Ok(d) ==> d.total_bytes
                == probes[0]->File_0
        },
{
    if probes.len() == 1 {
        assert(probes =~= Seq::<PathProbe>::empty() + seq![probes[0]]);
        paths_add_up(
            Seq::empty(),
            seq![probes[0]],
            probes[0]->File_0,
            arbitrary(),
            IoErrorKind::Other,
        );
    }
}

/// The names that are there are kept in order: those of one part and those of another, one after
/// the other, are those of all; a name that is there is kept as it is, and one that is not leaves
/// nothing.
pub proof fn names_are_kept_in_order(
    first: Seq<Option<Seq<char>>>,
    second: Seq<Option<Seq<char>>>,
    name: Seq<char>,
)
    ensures
        present(first + second) == present(first) + present(second),
        present(Seq::empty()) == Seq::<Seq<char>>::empty(),
        present(seq![Some(name)]) == seq![name],
        present(seq![None]) == Seq::<Seq<char>>::empty(),
    decreases second.len(),
{
    reveal_with_fuel(present, 2);
    assert(present(seq![Some(name)]) =~= seq![name]);
    if second.len() == 0 {
        assert(first + second =~= first);
        assert(present(first) + present(second) =~= present(first));
    } else {
        assert((first + second).drop_last() =~= first + second.drop_last());
        names_are_kept_in_order(first, second.drop_last(), name);
        assert(present(first + second) =~= present(first) + present(second));
    }
}

/// A transfer is described by the paths that it is made of: a single file by its own name and
/// type, and anything else by the names of all the paths that have one.
pub proof fn description_names_the_paths(
    transfer: TransferView,
    paths: Seq<Seq<char>>,
    probes: Seq<PathProbe>,
)
    requires
        probes_cover(paths, probes),
    ensures
        described(transfer, paths, probes) matches Ok(d) ==> if paths.len() == 1
            && probes[0] is File {
            &&& crate::platform::file_name_of(paths[0]) is Some
            &&& d.single_name == crate::platform::file_name_of(paths[0])
            &&& d.single_mime_type == Some(crate::platform::guessed_mime(paths[0]))
            &&& d.entry_names == seq![crate::platform::file_name_of(paths[0])->0]
        } else {
            &&& d.single_name is None
            &&& d.single_mime_type is None
            &&& d.entry_names == present(
                Seq::new(paths.len(), |i: int| crate::platform::file_name_of(paths[i])),
            )
        },
{
    assert(names_of(paths) =~= Seq::new(
        paths.len(),
        |i: int| crate::platform::file_name_of(paths[i]),
    ));
}

/// Given the name and the type of a single file, they are what the transfer is described by;
/// anything else is described by the names that are there.
pub proof fn description_takes_the_names(
    transfer: TransferView,
    paths: Seq<Seq<char>>,
    names: Seq<Option<Seq<char>>>,
    mime: Seq<char>,
    probes: Seq<PathProbe>,
)
    requires
        names.len() == paths.len(),
        probes_cover(paths, probes),
    ensures
        described_with(transfer, paths, names, mime, probes) matches Ok(d) ==> {
            &&& (TransferView {
                single_name: transfer.single_name,
                single_mime_type: transfer.single_mime_type,
                total_bytes: transfer.total_bytes,
                entry_names: transfer.entry_names,
                file_count: transfer.file_count,
                ..d
            }) == transfer
            &&& if paths.len() == 1 && probes[0] is File {
                &&& d.single_name is Some
                &&& d.single_name == names[0]
                &&& d.single_mime_type == Some(mime)
                &&& d.entry_names == seq![names[0]->0]
            } else {
                &&& d.single_name is None
                &&& d.single_mime_type is None
                &&& d.entry_names == present(names)
            }
        },
{
}

proof fn lemma_first_failure(probes: Seq<PathProbe>)
    ensures
        match first_failure(probes) {
            Some(kind) => exists|i: int|
                0 <= i < probes.len() && #[trigger] probes[i] == PathProbe::Failed(kind)
                    && forall|j: int| 0 <= j < i ==> !(#[trigger] probes[j] is Failed),
            None => forall|i: int| 0 <= i < probes.len() ==> !(#[trigger] probes[i] is Failed),
        },
    decreases probes.len(),
{
    if probes.len() > 0 {
        let rest = probes.drop_first();
        lemma_first_failure(rest);
        if probes[0] is Failed {
            assert(probes[0] == PathProbe::Failed(first_failure(probes)->0));
        } else {
            assert forall|j: int| 0 < j < probes.len() implies #[trigger] probes[j] == rest[j
                - 1] by {}
            if let Some(kind) = first_failure(rest) {
                let i = choose|i: int|
                    0 <= i < rest.len() && #[trigger] rest[i] == PathProbe::Failed(kind) && forall|
                        j: int,
                    |
                        0 <= j < i ==> !(#[trigger] rest[j] is Failed);
                assert(probes[i + 1] == PathProbe::Failed(kind));
            }
        }
    }
}

/// Describing a transfer fails exactly where a path could not be examined, with the error of the
/// first such path, or where a single file has no name, with its path.
pub proof fn description_fails_with_the_first_failure(
    transfer: TransferView,
    paths: Seq<Seq<char>>,
    names: Seq<Option<Seq<char>>>,
    mime: Seq<char>,
    probes: Seq<PathProbe>,
    i: int,
)
    requires
        names.len() == paths.len(),
        probes_cover(paths, probes),
    ensures
        (forall|j: int| 0 <= j < probes.len() ==> !(#[trigger] probes[j] is Failed)) ==> {
            if paths.len() == 1 && probes[0] is File && names[0] is None {
                described_with(transfer, paths, names, mime, probes) == Err::<
                    TransferView,
                    SourcePathErrorView,
                >(SourcePathErrorView::UnsupportedPathType(paths[0]))
            } else {
                described_with(transfer, paths, names, mime, probes) is Ok
            }
        },
        0 <= i < probes.len() && probes[i] is Failed && (forall|j: int|
            0 <= j < i ==> !(#[trigger] probes[j] is Failed)) ==> described_with(
            transfer,
            paths,
            names,
            mime,
            probes,
        ) == Err::<TransferView, SourcePathErrorView>(
            SourcePathErrorView::IoError(probes[i]->Failed_0),
        ),
{
    lemma_first_failure(probes);
    if 0 <= i < probes.len() && probes[i] is Failed {
        lemma_failure_is_found(probes, i);
        let kind = first_failure(probes)->0;
        let k = choose|k: int|
            0 <= k < probes.len() && #[trigger] probes[k] == PathProbe::Failed(kind) && forall|
                j: int,
            |
                0 <= j < k ==> !(#[trigger] probes[j] is Failed);
        assert(probes[k] is Failed);
    }
}

/// An offer says what it offers: the transfer's own time, size, count and names, under the
/// identifier of the offering service; of a transfer that is not a single file it gives no name
/// and no type.
pub proof fn offer_says_what_it_offers(
    transfer: Transfer,
    service_id: Seq<char>,
    offer: TransferOpRequest,
)
    requires
        offer@ == transfer@.to_request(service_id),
    ensures
        offer.info matches Some(info) && {
            &&& info.ident@ == service_id
            &&& info.timestamp == transfer.timestamp
            &&& info.readable_name@.len() == 0
            &&& !info.use_compression
        },
        offer.receiver@ == service_id,
        offer.sender_name@.len() == 0,
        offer.receiver_name@.len() == 0,
        offer.size == transfer.total_bytes,
        offer.count == transfer.file_count,
        match transfer.single_name {
            Some(name) => offer.name_if_single@ == name@,
            None => offer.name_if_single@.len() == 0,
        },
        match transfer.single_mime_type {
            Some(mime) => offer.mime_if_single@ == mime@,
            None => offer.mime_if_single@.len() == 0,
        },
        offer.top_dir_basenames@.len() == transfer.entry_names@.len(),
        forall|i: int|
            0 <= i < transfer.entry_names@.len() ==> (#[trigger] offer.top_dir_basenames@[i])@
                == transfer.entry_names@[i]@,
{
    crate::text::strings_are_seen_as_they_are(offer.top_dir_basenames@, None, None);
    crate::text::strings_are_seen_as_they_are(transfer.entry_names@, None, None);
    assert forall|i: int| 0 <= i < transfer.entry_names@.len() implies (
    #[trigger] offer.top_dir_basenames@[i])@ == transfer.entry_names@[i]@ by {
        assert(offer@.top_dir_basenames[i] == offer.top_dir_basenames@[i]@);
        assert(transfer@.entry_names[i] == transfer.entry_names@[i]@);
    }
}

/// A transfer that is recorded for an offer holds what the offer says, waits for permission, and
/// has moved nothing yet. The name and the type count only where one file is offered and they are
/// given.
pub proof fn offer_is_recorded_as_it_came(
    uuid: Seq<char>,
    timestamp: u64,
    request: TransferOpRequestView,
)
    requires
        request.info is Some,
    ensures
        ({
            let recorded = incoming_transfer(uuid, timestamp, request);
            &&& recorded.uuid == uuid
            &&& recorded.remote_uuid == request.info->0.ident
            &&& recorded.state is WaitingPermission
            &&& recorded.timestamp == timestamp
            &&& recorded.total_bytes == request.size
            &&& recorded.bytes_transferred == 0
            &&& recorded.bytes_per_second == 0
            &&& recorded.file_count == request.count
            &&& recorded.entry_names == request.top_dir_basenames
            &&& recorded.kind is Incoming
            &&& recorded.kind->destination == "/"@
            &&& recorded.kind->remote_timestamp == request.info->0.timestamp
            &&& recorded.single_name is Some <==> request.count == 1
                && request.name_if_single.len() > 0
            &&& recorded.single_name matches Some(name) ==> name == request.name_if_single
            &&& recorded.single_mime_type is Some <==> request.count == 1
                && request.mime_if_single.len() > 0
            &&& recorded.single_mime_type matches Some(mime) ==> mime == request.mime_if_single
        }),
{
}

/// A new transfer is to send the paths that it was given, to the remote that it was given; nothing
/// is known of them and nothing has moved yet.
pub proof fn new_transfer_is_to_send_its_paths(
    uuid: Seq<char>,
    timestamp: u64,
    remote_uuid: Seq<char>,
    source_paths: Seq<Seq<char>>,
)
    ensures
        ({
            let new = outgoing_transfer(uuid, timestamp, remote_uuid, source_paths);
            &&& new.uuid == uuid
            &&& new.remote_uuid == remote_uuid
            &&& new.timestamp == timestamp
            &&& new.kind is Outgoing
            &&& new.kind->source_paths == source_paths
            &&& new.state is Initializing
            &&& new.total_bytes == 0
            &&& new.file_count == 0
            &&& new.bytes_transferred == 0
            &&& new.bytes_per_second == 0
            &&& new.entry_names.len() == 0
            &&& new.single_name is None
            &&& new.single_mime_type is None
        }),
{
}

/// A transfer that is put into a state is in that state, whichever it is, and nothing else about it
/// has changed. One that is over does not move any more.
pub proof fn transfer_is_in_the_state_it_was_put_into(
    before: Transfer,
    state: TransferState,
    after: Transfer,
    finished: Transfer,
)
    requires
        after@ == TransferUpdate::State(state).applied(before@),
        finished@ == TransferUpdate::Finished(state).applied(before@),
    ensures
        TransferUpdate::State(state).fits(before@),
        TransferUpdate::Finished(state).fits(before@),
        after.state == state,
        after@ == (TransferView { state, ..before@ }),
        finished.state == state,
        finished@ == (TransferView { state, bytes_per_second: 0, ..before@ }),
{
}

/// A transfer that is accepted is in progress, into the directory that was chosen, under the time
/// that the other side knows it by; nothing else about it has changed.
pub proof fn accepted_transfer_goes_into_its_directory(
    before: TransferView,
    destination: String,
    remote_timestamp: u64,
)
    ensures
        ({
            let update = TransferUpdate::Accepted { destination, remote_timestamp };
            &&& update.fits(before)
            &&& update.applied(before) == (TransferView {
                state: TransferState::InProgress,
                kind: TransferKindView::Incoming { destination: destination@, remote_timestamp },
                ..before
            })
        }),
{
}

/// A transfer that has been offered is as it was described, and waits for permission; nothing else
/// about it has changed.
pub proof fn offered_transfer_is_as_described(before: TransferView, described: Transfer)
    ensures
        ({
            let update = TransferUpdate::Offered {
                total_bytes: described.total_bytes,
                file_count: described.file_count,
                entry_names: described.entry_names,
                single_name: described.single_name,
                single_mime_type: described.single_mime_type,
            };
            &&& update.fits(before)
            &&& update.applied(before) == (TransferView {
                state: TransferState::WaitingPermission,
                total_bytes: described@.total_bytes,
                file_count: described@.file_count,
                entry_names: described@.entry_names,
                single_name: described@.single_name,
                single_mime_type: described@.single_mime_type,
                ..before
            })
        }),
{
}

/// Progress adds up: the bytes that go through are added to those that have gone through before,
/// and two steps add as much as both together; the speed is the latest. Nothing else about the
/// transfer changes.
pub proof fn progress_adds_up(
    before: TransferView,
    bytes: u64,
    bytes_per_second: u64,
    more: u64,
    later: u64,
)
    ensures
        ({
            let first = TransferUpdate::Progress { bytes, bytes_per_second };
            let second = TransferUpdate::Progress { bytes: more, bytes_per_second: later };
            let between = first.applied(before);
            let after = second.applied(between);
            &&& first.fits(before) <==> before.bytes_transferred + bytes <= u64::MAX
            &&& first.fits(before) ==> {
                &&& between.bytes_transferred == before.bytes_transferred + bytes
                &&& between.bytes_per_second == bytes_per_second
                &&& (TransferView {
                    bytes_transferred: before.bytes_transferred,
                    bytes_per_second: before.bytes_per_second,
                    ..between
                }) == before
            }
            &&& first.fits(before) && second.fits(between) ==> {
                &&& after.bytes_transferred == before.bytes_transferred + bytes + more
                &&& after.bytes_per_second == later
            }
        }),
{
}

/// What was found covers the paths exactly where there is word of every one of them, or of those up
/// to the first that could not be examined.
pub proof fn probes_cover_the_paths(paths: Seq<Seq<char>>, probes: Seq<PathProbe>)
    ensures
        probes.len() == paths.len() ==> probes_cover(paths, probes),
        0 < probes.len() < paths.len() && probes.last() is Failed ==> probes_cover(paths, probes),
        probes_cover(paths, probes) ==> probes.len() <= paths.len(),
        probes_cover(paths, probes) && probes.len() < paths.len() ==> probes.len() > 0
            && probes.last() is Failed,
{
}

/// What is said of optional strings is what they hold, one by one and in order.
pub proof fn optional_strings_are_seen_as_they_are(strings: Seq<Option<String>>)
    ensures
        optional_texts(strings).len() == strings.len(),
        forall|i: int|
            0 <= i < strings.len() ==> (#[trigger] optional_texts(strings)[i] is Some
                <==> strings[i] is Some),
        forall|i: int|
            0 <= i < strings.len() && strings[i] is Some ==> #[trigger] optional_texts(strings)[i]
                == Some(strings[i]->0@),
{
}

} // verus!
