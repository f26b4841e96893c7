//! Sending a transfer.
use crate::platform::{path_parent, path_strip_prefix};
use crate::proto::{FileChunk, FileChunkView, FileTime, FILE_TYPE_DIRECTORY, FILE_TYPE_FILE};
use crate::server::transfer_receiver::{MovingAverage, MovingAverageView, SPEED_WINDOW};
use crate::types::transfer::{IoErrorKind, TransferError, TransferState, TransferUpdate};
use vstd::prelude::*;

verus! {

/// The most bytes that are read and sent at once.
pub const CHUNK_SIZE: usize = 65536;

/// The mode that directories are sent with: all rights for the owner, read and search for others.
pub const DIRECTORY_MODE: u32 = 493;

/// The mode that files are sent with: read and write for the owner, read for others.
pub const FILE_MODE: u32 = 420;

/// When a file was last changed: seconds since the start of 1970 and the milliseconds on top.
#[derive(Clone, Copy, Debug, PartialEq, Eq, Structural)]
pub struct ModifiedTime {
    pub secs: u64,
    pub subsec_millis: u32,
}

impl ModifiedTime {
    /// Whether the milliseconds make up less than a second.
    pub open spec fn wf(self) -> bool {
        self.subsec_millis < 1000
    }

    /// The time as it is sent.
    pub open spec fn to_proto(self) -> FileTime {
        FileTime { mtime: self.secs, mtime_usec: (self.subsec_millis * 1000) as u32 }
    }

    /// The time as it is sent.
    pub fn as_proto(&self) -> (r: FileTime)
        requires
            self.wf(),
        ensures
            r == self.to_proto(),
    {
        FileTime { mtime: self.secs, mtime_usec: self.subsec_millis * 1000 }
    }
}

/// What is found at a path.
#[derive(Clone, Copy, Debug, PartialEq, Eq, Structural)]
pub enum EntryMetadata {
    /// A regular file, and when it was last changed if that is known
    File { modified: Option<ModifiedTime> },
    /// A directory
    Directory,
    /// Anything else
    Other,
}

impl EntryMetadata {
    /// Whether the time makes sense.
    pub open spec fn wf(self) -> bool {
        self matches EntryMetadata::File { modified: Some(time) } ==> time.wf()
    }
}

/// What a sender is told.
#[derive(Debug)]
pub enum SendEvent {
    /// The other side is ready
    Begin,
    /// What is to be sent next has been examined
    Examined(Result<EntryMetadata, IoErrorKind>),
    /// There is an entry below the directory that is being sent
    Entry { path: String, metadata: Result<EntryMetadata, IoErrorKind> },
    /// The directory that is being sent could not be read further
    EntryFailed,
    /// There are no more entries
    WalkEnded,
    /// The file has been opened
    Opened,
    /// The file could not be opened
    NotOpened(IoErrorKind),
    /// Some bytes of the file have been read; none are left where there are none
    Read(Vec<u8>),
    /// The file could not be read
    ReadFailed(IoErrorKind),
    /// The piece has gone out, at the given speed
    Sent { bytes_per_second: u64 },
    /// The piece could not be handed on
    Refused,
}

/// What a [`SendEvent`] says.
#[verifier::ext_equal]
pub enum SendEventView {
    Begin,
    Examined(Result<EntryMetadata, IoErrorKind>),
    Entry { path: Seq<char>, metadata: Result<EntryMetadata, IoErrorKind> },
    EntryFailed,
    WalkEnded,
    Opened,
    NotOpened(IoErrorKind),
    Read(Seq<u8>),
    ReadFailed(IoErrorKind),
    Sent { bytes_per_second: u64 },
    Refused,
}

impl View for SendEvent {
    type V = SendEventView;

    open spec fn view(&self) -> SendEventView {
        match self {
            SendEvent::Begin => SendEventView::Begin,
            SendEvent::Examined(metadata) => SendEventView::Examined(*metadata),
            SendEvent::Entry { path, metadata } => SendEventView::Entry {
                path: path@,
                metadata: *metadata,
            },
            SendEvent::EntryFailed => SendEventView::EntryFailed,
            SendEvent::WalkEnded => SendEventView::WalkEnded,
            SendEvent::Opened => SendEventView::Opened,
            SendEvent::NotOpened(kind) => SendEventView::NotOpened(*kind),
            SendEvent::Read(data) => SendEventView::Read(data@),
            SendEvent::ReadFailed(kind) => SendEventView::ReadFailed(*kind),
            SendEvent::Sent { bytes_per_second } => SendEventView::Sent {
                bytes_per_second: *bytes_per_second,
            },
            SendEvent::Refused => SendEventView::Refused,
        }
    }
}

/// What a sender wants done, in order.
#[derive(Debug)]
pub enum SendEffect {
    /// Find out what is at a path, and tell
    Examine(String),
    /// Start to list what lies below a directory, and tell of the first entry
    Walk(String),
    /// Tell of the next entry
    NextEntry,
    /// Open a file, and tell how that went
    Open(String),
    /// Read from the open file, and tell what was read
    Read,
    /// Hand on a piece, and tell how that went
    Send(FileChunk),
    /// Change the transfer
    Update(TransferUpdate),
    /// Do nothing more: the transfer went through, was cancelled, or failed
    Finish(Result<bool, TransferError>),
}

/// What a [`SendEffect`] says.
#[verifier::ext_equal]
pub enum SendEffectView {
    Examine(Seq<char>),
    Walk(Seq<char>),
    NextEntry,
    Open(Seq<char>),
    Read,
    Send(FileChunkView),
    Update(TransferUpdate),
    Finish(Result<bool, TransferError>),
}

impl View for SendEffect {
    type V = SendEffectView;

    open spec fn view(&self) -> SendEffectView {
        match self {
            SendEffect::Examine(path) => SendEffectView::Examine(path@),
            SendEffect::Walk(path) => SendEffectView::Walk(path@),
            SendEffect::NextEntry => SendEffectView::NextEntry,
            SendEffect::Open(path) => SendEffectView::Open(path@),
            SendEffect::Read => SendEffectView::Read,
            SendEffect::Send(chunk) => SendEffectView::Send(chunk@),
            SendEffect::Update(update) => SendEffectView::Update(*update),
            SendEffect::Finish(result) => SendEffectView::Finish(*result),
        }
    }
}

/// What a list of effects says.
pub open spec fn effect_views(effects: Seq<SendEffect>) -> Seq<SendEffectView> {
    effects.map_values(|e: SendEffect| e@)
}

/// What a sender is waiting for.
#[derive(Clone, Copy, Debug, PartialEq, Eq, Structural)]
pub enum SendPhase {
    /// The other side to be ready
    Starting,
    /// What is at the path to send
    Examining,
    /// The piece of a source directory to go out
    SendingSource,
    /// The next entry below a source directory
    Walking,
    /// The piece of a directory below a source directory to go out
    SendingEntry,
    /// A file to be opened
    Opening,
    /// Bytes of a file
    Reading,
    /// The given number of bytes to go out
    SendingData(u64),
    /// Nothing any more
    Finished,
}

/// The piece of a directory.
pub open spec fn directory_chunk(relative_path: Seq<char>) -> FileChunkView {
    FileChunkView {
        relative_path,
        file_type: FILE_TYPE_DIRECTORY,
        symlink_target: Seq::empty(),
        chunk: Seq::empty(),
        file_mode: DIRECTORY_MODE,
        time: None,
    }
}

/// A piece of a file.
pub open spec fn file_chunk(
    relative_path: Seq<char>,
    data: Seq<u8>,
    time: Option<FileTime>,
) -> FileChunkView {
    FileChunkView {
        relative_path,
        file_type: FILE_TYPE_FILE,
        symlink_target: Seq::empty(),
        chunk: data,
        file_mode: FILE_MODE,
        time,
    }
}

/// A path below the directory that a source lies in, or the whole path where it is not below it.
pub open spec fn relative_path(path: Seq<char>, base: Seq<char>) -> Seq<char> {
    match crate::platform::stripped_path(path, base) {
        Some(rest) => rest,
        None => path,
    }
}

/// What a step needs to know of the paths that it may come to.
#[derive(Debug)]
pub struct SendPaths {
    /// The directory that the next source lies in, if it lies in one
    pub next_base: Option<String>,
    /// Where what the step is about belongs on the other side
    pub relative: String,
}

/// What [`SendPaths`] say.
#[verifier::ext_equal]
pub struct SendPathsView {
    pub next_base: Option<Seq<char>>,
    pub relative: Seq<char>,
}

impl View for SendPaths {
    type V = SendPathsView;

    open spec fn view(&self) -> SendPathsView {
        SendPathsView {
            next_base: crate::text::optional_text(self.next_base),
            relative: self.relative@,
        }
    }
}

/// What a [`SendSession`] holds.
#[verifier::ext_equal]
pub struct SendView {
    /// The paths to send
    pub sources: Seq<Seq<char>>,
    /// How many of them have been begun
    pub begun: int,
    /// The directory that the current source lies in
    pub base: Seq<char>,
    /// Whether the current source is a directory whose entries are being sent
    pub walking: bool,
    /// Where the current file belongs on the other side
    pub relative_path: Seq<char>,
    /// The time to send with the first piece of the current file
    pub time: Option<FileTime>,
    pub phase: SendPhase,
    pub speed: MovingAverageView,
}

/// A sender that has sent nothing yet.
pub open spec fn new_sender(sources: Seq<Seq<char>>) -> SendView {
    SendView {
        sources,
        begun: 0,
        base: Seq::empty(),
        walking: false,
        relative_path: Seq::empty(),
        time: None,
        phase: SendPhase::Starting,
        speed: MovingAverageView { samples: Seq::empty(), window: SPEED_WINDOW },
    }
}

impl SendView {
    /// The source that is being sent.
    pub open spec fn source(self) -> Seq<char> {
        self.sources[self.begun - 1]
    }

    /// No source is counted that is not there, one is begun while it is being sent, and none
    /// before.
    pub open spec fn wf(self) -> bool {
        &&& 0 <= self.begun <= self.sources.len()
        &&& self.begun == 0 ==> self.phase is Starting || self.phase is Finished
        &&& self.phase is Starting ==> self.begun == 0
    }

    /// Done, with the given outcome.
    pub open spec fn finish(self, result: Result<bool, TransferError>) -> (
        SendView,
        Seq<SendEffectView>,
    ) {
        (SendView { phase: SendPhase::Finished, ..self }, seq![SendEffectView::Finish(result)])
    }

    /// On to the next source, unless none is left or the transfer has been cancelled.
    pub open spec fn next_source(self, cancelled: bool, paths: SendPathsView) -> (
        SendView,
        Seq<SendEffectView>,
    ) {
        if self.begun >= self.sources.len() {
            self.finish(Ok(true))
        } else if cancelled {
            self.finish(Ok(false))
        } else {
            match paths.next_base {
                Some(base) => (
                    SendView {
                        begun: self.begun + 1,
                        base,
                        walking: false,
                        phase: SendPhase::Examining,
                        ..self
                    },
                    seq![SendEffectView::Examine(self.sources[self.begun])],
                ),
                None => self.finish(Err(TransferError::FailedToProcessFiles)),
            }
        }
    }

    /// On to a file.
    pub open spec fn begin_file(
        self,
        path: Seq<char>,
        modified: Option<ModifiedTime>,
        paths: SendPathsView,
    ) -> (SendView, Seq<SendEffectView>) {
        (
            SendView {
                relative_path: paths.relative,
                time: match modified {
                    Some(time) => Some(time.to_proto()),
                    None => None,
                },
                phase: SendPhase::Opening,
                ..self
            },
            seq![SendEffectView::Open(path)],
        )
    }

    /// The file is done: on to the next entry or the next source.
    pub open spec fn end_file(self, cancelled: bool, paths: SendPathsView) -> (
        SendView,
        Seq<SendEffectView>,
    ) {
        if self.walking {
            (SendView { phase: SendPhase::Walking, ..self }, seq![SendEffectView::NextEntry])
        } else {
            self.next_source(cancelled, paths)
        }
    }

    /// On to the next bytes of the file, unless the transfer has been cancelled.
    pub open spec fn read_next(self, cancelled: bool) -> (SendView, Seq<SendEffectView>) {
        if cancelled {
            self.finish(Ok(false))
        } else {
            (SendView { phase: SendPhase::Reading, ..self }, seq![SendEffectView::Read])
        }
    }

    /// Some bytes of the file have been read.
    pub open spec fn on_read(self, data: Seq<u8>, cancelled: bool, paths: SendPathsView) -> (
        SendView,
        Seq<SendEffectView>,
    ) {
        if data.len() == 0 {
            self.end_file(cancelled, paths)
        } else {
            (
                SendView { time: None, phase: SendPhase::SendingData(data.len() as u64), ..self },
                seq![SendEffectView::Send(file_chunk(self.relative_path, data, self.time))],
            )
        }
    }

    /// A piece has gone out.
    pub open spec fn on_sent(self, bytes_per_second: u64, cancelled: bool) -> (
        SendView,
        Seq<SendEffectView>,
    ) {
        match self.phase {
            SendPhase::SendingSource => (
                SendView { walking: true, phase: SendPhase::Walking, ..self },
                seq![SendEffectView::Walk(self.source())],
            ),
            SendPhase::SendingData(bytes) => {
                let speed = self.speed.pushed(bytes_per_second);
                let counted = SendEffectView::Update(
                    TransferUpdate::Progress { bytes, bytes_per_second: speed.average() as u64 },
                );
                let (next, effects) = SendView { speed, ..self }.read_next(cancelled);
                (next, seq![counted] + effects)
            },
            _ => (
                SendView { phase: SendPhase::Walking, ..self },
                seq![SendEffectView::NextEntry],
            ),
        }
    }

    /// The source has been examined.
    pub open spec fn on_examined(
        self,
        metadata: Result<EntryMetadata, IoErrorKind>,
        cancelled: bool,
        paths: SendPathsView,
    ) -> (SendView, Seq<SendEffectView>) {
        match metadata {
            Err(kind) => self.finish(Err(crate::types::transfer::transfer_error_of(kind))),
            Ok(EntryMetadata::File { modified }) => self.begin_file(self.source(), modified, paths),
            Ok(EntryMetadata::Directory) => (
                SendView { phase: SendPhase::SendingSource, ..self },
                seq![SendEffectView::Send(directory_chunk(paths.relative))],
            ),
            Ok(EntryMetadata::Other) => self.next_source(cancelled, paths),
        }
    }

    /// An entry has been found.
    pub open spec fn on_entry(
        self,
        path: Seq<char>,
        metadata: Result<EntryMetadata, IoErrorKind>,
        cancelled: bool,
        paths: SendPathsView,
    ) -> (SendView, Seq<SendEffectView>) {
        if cancelled {
            self.finish(Ok(false))
        } else {
            match metadata {
                Err(kind) => self.finish(Err(crate::types::transfer::transfer_error_of(kind))),
                Ok(EntryMetadata::File { modified }) => self.begin_file(path, modified, paths),
                Ok(EntryMetadata::Directory) => (
                    SendView { phase: SendPhase::SendingEntry, ..self },
                    seq![SendEffectView::Send(directory_chunk(paths.relative))],
                ),
                Ok(EntryMetadata::Other) => (self, seq![SendEffectView::NextEntry]),
            }
        }
    }

    /// Whether the sender is waiting for what it is told, and can count it.
    pub open spec fn expects(self, event: SendEventView) -> bool {
        match event {
            SendEventView::Begin => self.phase is Starting,
            SendEventView::Examined(metadata) => {
                &&& self.phase is Examining
                &&& metadata matches Ok(m) ==> m.wf()
            },
            SendEventView::Entry { metadata, .. } => {
                &&& self.phase is Walking
                &&& metadata matches Ok(m) ==> m.wf()
            },
            SendEventView::EntryFailed | SendEventView::WalkEnded => self.phase is Walking,
            SendEventView::Opened | SendEventView::NotOpened(_) => self.phase is Opening,
            SendEventView::Read(data) => self.phase is Reading && data.len() <= CHUNK_SIZE,
            SendEventView::ReadFailed(_) => self.phase is Reading,
            SendEventView::Sent { bytes_per_second } => {
                ||| self.phase is SendingSource
                ||| self.phase is SendingEntry
                ||| self.phase is SendingData && self.speed.fits(bytes_per_second)
            },
            SendEventView::Refused => {
                ||| self.phase is SendingSource
                ||| self.phase is SendingEntry
                ||| self.phase is SendingData
            },
        }
    }

    /// What comes of what the sender is told, given what it needs to know of the paths: the
    /// sender after it, and what is to be done.
    pub open spec fn on_event_at(
        self,
        event: SendEventView,
        cancelled: bool,
        paths: SendPathsView,
    ) -> (SendView, Seq<SendEffectView>) {
        match event {
            SendEventView::Begin => self.next_source(cancelled, paths),
            SendEventView::Examined(metadata) => self.on_examined(metadata, cancelled, paths),
            SendEventView::Entry { path, metadata } => self.on_entry(
                path,
                metadata,
                cancelled,
                paths,
            ),
            SendEventView::EntryFailed => if cancelled {
                self.finish(Ok(false))
            } else {
                self.finish(Err(TransferError::FailedToProcessFiles))
            },
            SendEventView::WalkEnded => SendView { walking: false, ..self }.next_source(
                cancelled,
                paths,
            ),
            SendEventView::Opened => self.read_next(cancelled),
            SendEventView::NotOpened(kind) => self.finish(
                Err(crate::types::transfer::transfer_error_of(kind)),
            ),
            SendEventView::Read(data) => self.on_read(data, cancelled, paths),
            SendEventView::ReadFailed(kind) => self.finish(
                Err(crate::types::transfer::transfer_error_of(kind)),
            ),
            SendEventView::Sent { bytes_per_second } => self.on_sent(bytes_per_second, cancelled),
            SendEventView::Refused => self.finish(Err(TransferError::ConnectionLost)),
        }
    }

    /// What the sender needs to know of the paths when it is told something.
    pub open spec fn paths_for(self, event: SendEventView) -> SendPathsView {
        SendPathsView {
            next_base: if self.begun < self.sources.len() {
                crate::platform::parent_of(self.sources[self.begun])
            } else {
                None
            },
            relative: match event {
                SendEventView::Examined(_) => relative_path(self.source(), self.base),
                SendEventView::Entry { path, .. } => relative_path(path, self.base),
                _ => Seq::empty(),
            },
        }
    }

    /// What comes of what the sender is told: the sender after it, and what is to be done.
    pub open spec fn on_event(self, event: SendEventView, cancelled: bool) -> (
        SendView,
        Seq<SendEffectView>,
    ) {
        self.on_event_at(event, cancelled, self.paths_for(event))
    }
}

/// A transfer that is being sent.
#[derive(Debug)]
pub struct SendSession {
    sources: Vec<String>,
    begun: usize,
    base: String,
    walking: bool,
    relative_path: String,
    time: Option<FileTime>,
    phase: SendPhase,
    speed: MovingAverage,
}

impl View for SendSession {
    type V = SendView;

    closed spec fn view(&self) -> SendView {
        SendView {
            sources: crate::text::texts(self.sources@),
            begun: self.begun as int,
            base: self.base@,
            walking: self.walking,
            relative_path: self.relative_path@,
            time: self.time,
            phase: self.phase,
            speed: self.speed@,
        }
    }
}

fn only(effect: SendEffect) -> (r: Vec<SendEffect>)
    ensures
        effect_views(r@) == seq![effect@],
{
    let mut effects: Vec<SendEffect> = Vec::new();
    effects.push(effect);
    assert(effect_views(effects@) =~= seq![effect@]);
    effects
}

fn make_directory_chunk(relative_path: String) -> (r: FileChunk)
    ensures
        r@ == directory_chunk(relative_path@),
{
    let r = FileChunk {
        relative_path,
        file_type: FILE_TYPE_DIRECTORY,
        symlink_target: String::new(),
        chunk: Vec::new(),
        file_mode: DIRECTORY_MODE,
        time: None,
    };
    assert(r@.chunk =~= Seq::empty());
    r
}

fn path_below(path: &str, base: &str) -> (r: String)
    ensures
        r@ == relative_path(path@, base@),
{
    match path_strip_prefix(path, base) {
        Some(rest) => rest,
        None => path.to_string(),
    }
}

impl SendSession {
    /// A sender of the given paths.
    pub fn new(sources: Vec<String>) -> (r: Self)
        ensures
            r@ == new_sender(crate::text::texts(sources@)),
            r@.wf(),
    {
        SendSession {
            sources,
            begun: 0,
            base: String::new(),
            walking: false,
            relative_path: String::new(),
            time: None,
            phase: SendPhase::Starting,
            speed: MovingAverage::new(SPEED_WINDOW),
        }
    }

    /// Whether a speed can be counted in.
    pub fn can_count(&self, bytes_per_second: u64) -> (r: bool)
        ensures
            r == self@.speed.fits(bytes_per_second),
    {
        self.speed.can_take(bytes_per_second)
    }

    fn finish(&mut self, result: Result<bool, TransferError>) -> (r: Vec<SendEffect>)
        ensures
            (final(self)@, effect_views(r@)) == old(self)@.finish(result),
    {
        self.phase = SendPhase::Finished;
        only(SendEffect::Finish(result))
    }

    fn next_source(&mut self, cancelled: bool, paths: SendPaths) -> (r: Vec<SendEffect>)
        requires
            old(self)@.begun <= old(self)@.sources.len(),
        ensures
            (final(self)@, effect_views(r@)) == old(self)@.next_source(cancelled, paths@),
    {
        if self.begun >= self.sources.len() {
            return self.finish(Ok(true));
        }
        if cancelled {
            return self.finish(Ok(false));
        }
        match paths.next_base {
            Some(base) => {
                let source = self.sources[self.begun].clone();
                self.begun = self.begun + 1;
                self.base = base;
                self.walking = false;
                self.phase = SendPhase::Examining;
                only(SendEffect::Examine(source))
            },
            None => self.finish(Err(TransferError::FailedToProcessFiles)),
        }
    }

    fn begin_file(
        &mut self,
        path: String,
        modified: Option<ModifiedTime>,
        paths: SendPaths,
    ) -> (r: Vec<SendEffect>)
        requires
            modified matches Some(time) ==> time.wf(),
        ensures
            (final(self)@, effect_views(r@)) == old(self)@.begin_file(path@, modified, paths@),
    {
        self.relative_path = paths.relative;
        self.time = match modified {
            Some(time) => Some(time.as_proto()),
            None => None,
        };
        self.phase = SendPhase::Opening;
        only(SendEffect::Open(path))
    }

    fn end_file(&mut self, cancelled: bool, paths: SendPaths) -> (r: Vec<SendEffect>)
        requires
            old(self)@.begun <= old(self)@.sources.len(),
        ensures
            (final(self)@, effect_views(r@)) == old(self)@.end_file(cancelled, paths@),
    {
        if self.walking {
            self.phase = SendPhase::Walking;
            only(SendEffect::NextEntry)
        } else {
            self.next_source(cancelled, paths)
        }
    }

    fn read_next(&mut self, cancelled: bool) -> (r: Vec<SendEffect>)
        ensures
            (final(self)@, effect_views(r@)) == old(self)@.read_next(cancelled),
    {
        if cancelled {
            self.finish(Ok(false))
        } else {
            self.phase = SendPhase::Reading;
            only(SendEffect::Read)
        }
    }

    fn on_read(&mut self, data: Vec<u8>, cancelled: bool, paths: SendPaths) -> (r: Vec<SendEffect>)
        requires
            old(self)@.begun <= old(self)@.sources.len(),
        ensures
            (final(self)@, effect_views(r@)) == old(self)@.on_read(data@, cancelled, paths@),
    {
        if data.len() == 0 {
            return self.end_file(cancelled, paths);
        }
        let len = data.len() as u64;
        let chunk = FileChunk {
            relative_path: self.relative_path.clone(),
            file_type: FILE_TYPE_FILE,
            symlink_target: String::new(),
            chunk: data,
            file_mode: FILE_MODE,
            time: self.time,
        };
        self.time = None;
        self.phase = SendPhase::SendingData(len);
        only(SendEffect::Send(chunk))
    }

    fn on_sent(&mut self, bytes_per_second: u64, cancelled: bool) -> (r: Vec<SendEffect>)
        requires
            old(self)@.wf(),
            old(self)@.expects(SendEventView::Sent { bytes_per_second }),
        ensures
            (final(self)@, effect_views(r@)) == old(self)@.on_sent(bytes_per_second, cancelled),
    {
        match self.phase {
            SendPhase::SendingSource => {
                self.walking = true;
                self.phase = SendPhase::Walking;
                only(SendEffect::Walk(self.sources[self.begun - 1].clone()))
            },
            SendPhase::SendingData(bytes) => {
                let average = self.speed.push(bytes_per_second);
                let mut effects = only(
                    SendEffect::Update(
                        TransferUpdate::Progress { bytes, bytes_per_second: average },
                    ),
                );
                let ghost counted = effect_views(effects@);
                let mut more = self.read_next(cancelled);
                let ghost next = effect_views(more@);
                effects.append(&mut more);
                assert(effect_views(effects@) =~= counted + next);
                effects
            },
            _ => {
                self.phase = SendPhase::Walking;
                only(SendEffect::NextEntry)
            },
        }
    }

    fn on_examined(
        &mut self,
        metadata: Result<EntryMetadata, IoErrorKind>,
        cancelled: bool,
        paths: SendPaths,
    ) -> (r: Vec<SendEffect>)
        requires
            old(self)@.wf(),
            old(self)@.expects(SendEventView::Examined(metadata)),
        ensures
            (final(self)@, effect_views(r@)) == old(self)@.on_examined(metadata, cancelled, paths@),
    {
        match metadata {
            Err(kind) => self.finish(Err(TransferError::from(kind))),
            Ok(EntryMetadata::File { modified }) => {
                let source = self.sources[self.begun - 1].clone();
                self.begin_file(source, modified, paths)
            },
            Ok(EntryMetadata::Directory) => {
                self.phase = SendPhase::SendingSource;
                only(SendEffect::Send(make_directory_chunk(paths.relative)))
            },
            Ok(EntryMetadata::Other) => self.next_source(cancelled, paths),
        }
    }

    fn on_entry(
        &mut self,
        path: String,
        metadata: Result<EntryMetadata, IoErrorKind>,
        cancelled: bool,
        paths: SendPaths,
    ) -> (r: Vec<SendEffect>)
        requires
            old(self)@.expects(SendEventView::Entry { path: path@, metadata }),
        ensures
            (final(self)@, effect_views(r@)) == old(self)@.on_entry(
                path@,
                metadata,
                cancelled,
                paths@,
            ),
    {
        if cancelled {
            return self.finish(Ok(false));
        }
        match metadata {
            Err(kind) => self.finish(Err(TransferError::from(kind))),
            Ok(EntryMetadata::File { modified }) => self.begin_file(path, modified, paths),
            Ok(EntryMetadata::Directory) => {
                self.phase = SendPhase::SendingEntry;
                only(SendEffect::Send(make_directory_chunk(paths.relative)))
            },
            Ok(EntryMetadata::Other) => only(SendEffect::NextEntry),
        }
    }

    /// Takes in what has happened, and whether the transfer has been cancelled by now, and says
    /// what is to be done.
    pub fn step(&mut self, event: SendEvent, cancelled: bool) -> (r: Vec<SendEffect>)
        requires
            old(self)@.wf(),
            old(self)@.expects(event@),
        ensures
            (final(self)@, effect_views(r@)) == old(self)@.on_event(event@, cancelled),
            final(self)@.wf(),
    {
        let next_base = if self.begun < self.sources.len() {
            path_parent(&self.sources[self.begun])
        } else {
            None
        };
        let relative = match &event {
            SendEvent::Examined(_) => path_below(&self.sources[self.begun - 1], &self.base),
            SendEvent::Entry { path, .. } => path_below(path, &self.base),
            _ => String::new(),
        };
        let paths = SendPaths { next_base, relative };
        assert(paths@ =~= self@.paths_for(event@));
        self.step_at(event, cancelled, paths)
    }

    /// Takes in what has happened, given what the step needs to know of the paths, and says what
    /// is to be done.
    pub fn step_at(&mut self, event: SendEvent, cancelled: bool, paths: SendPaths) -> (r: Vec<
        SendEffect,
    >)
        requires
            old(self)@.wf(),
            old(self)@.expects(event@),
        ensures
            (final(self)@, effect_views(r@)) == old(self)@.on_event_at(event@, cancelled, paths@),
            final(self)@.wf(),
    {
        match event {
            SendEvent::Begin => self.next_source(cancelled, paths),
            SendEvent::Examined(metadata) => self.on_examined(metadata, cancelled, paths),
            SendEvent::Entry { path, metadata } => self.on_entry(path, metadata, cancelled, paths),
            SendEvent::EntryFailed => if cancelled {
                self.finish(Ok(false))
            } else {
                self.finish(Err(TransferError::FailedToProcessFiles))
            },
            SendEvent::WalkEnded => {
                self.walking = false;
                self.next_source(cancelled, paths)
            },
            SendEvent::Opened => self.read_next(cancelled),
            SendEvent::NotOpened(kind) => self.finish(Err(TransferError::from(kind))),
            SendEvent::Read(data) => self.on_read(data, cancelled, paths),
            SendEvent::ReadFailed(kind) => self.finish(Err(TransferError::from(kind))),
            SendEvent::Sent { bytes_per_second } => self.on_sent(bytes_per_second, cancelled),
            SendEvent::Refused => self.finish(Err(TransferError::ConnectionLost)),
        }
    }
}

/// Where a transfer stands once its sender is done.
pub open spec fn final_state_of(result: Result<bool, TransferError>, cancelled: bool) -> TransferState {
    match result {
        Ok(true) => TransferState::Completed,
        Ok(false) => TransferState::Canceled,
        Err(error) => if cancelled {
            TransferState::Canceled
        } else {
            TransferState::Failed(error)
        },
    }
}

/// The last change to a transfer once its sender is done, given whether it has been cancelled.
pub fn final_update(result: Result<bool, TransferError>, cancelled: bool) -> (r: TransferUpdate)
    ensures
        r == TransferUpdate::Finished(final_state_of(result, cancelled)),
{
    match result {
        Ok(true) => TransferUpdate::Finished(TransferState::Completed),
        Err(error) => if cancelled {
            TransferUpdate::Finished(TransferState::Canceled)
        } else {
            TransferUpdate::Finished(TransferState::Failed(error))
        },
        Ok(false) => TransferUpdate::Finished(TransferState::Canceled),
    }
}

/// Whether what is asked for last is what the sender then waits for.
pub open spec fn leads_on(phase: SendPhase, effect: SendEffectView) -> bool {
    match phase {
        SendPhase::Starting => false,
        SendPhase::Examining => effect is Examine,
        SendPhase::SendingSource => effect is Send,
        SendPhase::Walking => effect is Walk || effect is NextEntry,
        SendPhase::SendingEntry => effect is Send,
        SendPhase::Opening => effect is Open,
        SendPhase::Reading => effect is Read,
        SendPhase::SendingData(_) => effect is Send,
        SendPhase::Finished => effect is Finish,
    }
}

/// A sender is never stuck: after every step it has asked for exactly what it then waits for,
/// or has said how the transfer ended. It says so only then.
pub proof fn every_send_step_leads_on(sender: SendView, event: SendEventView, cancelled: bool)
    requires
        sender.wf(),
        sender.expects(event),
    ensures
        ({
            let (after, effects) = sender.on_event(event, cancelled);
            &&& after.wf()
            &&& effects.len() > 0
            &&& leads_on(after.phase, effects.last())
            &&& forall|i: int| 0 <= i < effects.len() - 1 ==> !(#[trigger] effects[i] is Finish)
            &&& after.sources == sender.sources
            &&& sender.begun <= after.begun <= sender.begun + 1
        }),
{
}

/// A transfer is said to have gone through only when every source has been begun and the last one
/// has come to its end: there is no source at all, a file has been read to its end, a directory
/// has been walked to its end, or what was found is not sent at all. It is said to have been
/// cancelled only when it has been.
pub proof fn send_outcome_is_earned(sender: SendView, event: SendEventView, cancelled: bool)
    requires
        sender.wf(),
        sender.expects(event),
    ensures
        sender.on_event(event, cancelled).1.last() == SendEffectView::Finish(Ok(true)) ==> {
            &&& sender.begun == sender.sources.len()
            &&& match event {
                SendEventView::Begin => sender.sources.len() == 0,
                SendEventView::Read(data) => data.len() == 0,
                SendEventView::WalkEnded => true,
                SendEventView::Examined(metadata) => metadata == Ok::<EntryMetadata, IoErrorKind>(
                    EntryMetadata::Other,
                ),
                _ => false,
            }
        },
        sender.on_event(event, cancelled).1.last() == SendEffectView::Finish(Ok(false))
            ==> cancelled,
{
}

/// A file that is cut off by a cancellation is never said to have gone through: a sender that
/// learns of the cancellation before it has read a file to its end says that the transfer was
/// cancelled, and the transfer ends cancelled.
pub proof fn cut_off_file_is_cancelled(sender: SendView, event: SendEventView)
    requires
        sender.wf(),
        sender.expects(event),
        event is Opened || (event is Sent && sender.phase is SendingData),
    ensures
        sender.on_event(event, true).1.last() == SendEffectView::Finish(Ok(false)),
        sender.on_event(event, true).0.phase is Finished,
        final_state_of(Ok(false), true) is Canceled,
{
}

/// A transfer ends completed exactly where its sender said that it went through, and failed
/// exactly where an error came that no cancellation explains.
pub proof fn final_state_is_exact(result: Result<bool, TransferError>, cancelled: bool)
    ensures
        final_state_of(result, cancelled) is Completed <==> result == Ok::<bool, TransferError>(
            true,
        ),
        final_state_of(result, cancelled) is Failed <==> result is Err && !cancelled,
        final_state_of(result, cancelled) is Completed || final_state_of(result, cancelled) is Failed
            || final_state_of(result, cancelled) is Canceled,
{
}

/// What goes out of a file is counted: the bytes of a piece are added to the progress when it
/// has gone out.
pub proof fn sent_bytes_are_counted(
    sender: SendView,
    data: Seq<u8>,
    cancelled_before: bool,
    bytes_per_second: u64,
    cancelled: bool,
)
    requires
        sender.phase is Reading,
        0 < data.len() <= CHUNK_SIZE,
    ensures
        ({
            let (sending, _) = sender.on_event(SendEventView::Read(data), cancelled_before);
            let (_, effects) = sending.on_event(
                SendEventView::Sent { bytes_per_second },
                cancelled,
            );
            effects[0] matches SendEffectView::Update(TransferUpdate::Progress { bytes, .. })
                && bytes == data.len()
        }),
{
}

/// A piece of a file is never empty, and never larger than what is read at once; the piece of a
/// directory is empty. There are no other pieces.
pub proof fn sent_pieces_have_their_size(sender: SendView, event: SendEventView, cancelled: bool)
    requires
        sender.wf(),
        sender.expects(event),
    ensures
        forall|i: int|
            0 <= i < sender.on_event(event, cancelled).1.len() ==> (
            #[trigger] sender.on_event(event, cancelled).1[i] matches SendEffectView::Send(chunk)
                ==> {
                ||| chunk.file_type == FILE_TYPE_FILE && 0 < chunk.chunk.len() <= CHUNK_SIZE
                ||| chunk.file_type == FILE_TYPE_DIRECTORY && chunk.chunk.len() == 0
            }),
{
}

/// The pieces that go out while the given bytes are read from a file, none of them refused.
pub open spec fn sent_pieces(sender: SendView, reads: Seq<Seq<u8>>, rates: Seq<u64>) -> (
    SendView,
    Seq<FileChunkView>,
)
    decreases reads.len(),
{
    if reads.len() == 0 {
        (sender, Seq::empty())
    } else {
        let (before, chunks) = sent_pieces(sender, reads.drop_last(), rates.drop_last());
        let (sending, effects) = before.on_event(SendEventView::Read(reads.last()), false);
        let (after, _) = sending.on_event(
            SendEventView::Sent { bytes_per_second: rates.last() },
            false,
        );
        (after, chunks.push(effects[0]->Send_0))
    }
}

/// Some bytes after the other.
pub open spec fn joined(reads: Seq<Seq<u8>>) -> Seq<u8>
    decreases reads.len(),
{
    if reads.len() == 0 {
        Seq::empty()
    } else {
        joined(reads.drop_last()) + reads.last()
    }
}

/// A file goes out whole: one piece for all that is read at once, in order, each under the
/// file's path, and none of them empty or larger than allowed; only the first carries the time.
pub proof fn sent_file_is_whole(sender: SendView, reads: Seq<Seq<u8>>, rates: Seq<u64>)
    requires
        sender.phase is Reading,
        reads.len() == rates.len(),
        forall|i: int| 0 <= i < reads.len() ==> 0 < (#[trigger] reads[i]).len() <= CHUNK_SIZE,
    ensures
        ({
            let (after, chunks) = sent_pieces(sender, reads, rates);
            &&& after.phase is Reading
            &&& after.relative_path == sender.relative_path
            &&& chunks.len() == reads.len()
            &&& crate::server::transfer_receiver::pieces_of(chunks, sender.relative_path)
            &&& crate::server::transfer_receiver::contents(chunks) == joined(reads)
            &&& forall|i: int|
                0 <= i < chunks.len() ==> 0 < (#[trigger] chunks[i]).chunk.len() <= CHUNK_SIZE
            &&& forall|i: int|
                0 <= i < chunks.len() ==> (#[trigger] chunks[i]).time == (if i == 0 {
                    sender.time
                } else {
                    None
                })
            &&& after.time == (if reads.len() == 0 {
                sender.time
            } else {
                None
            })
        }),
    decreases reads.len(),
{
    if reads.len() > 0 {
        sent_file_is_whole(sender, reads.drop_last(), rates.drop_last());
        let (_, before) = sent_pieces(sender, reads.drop_last(), rates.drop_last());
        let (_, chunks) = sent_pieces(sender, reads, rates);
        assert(chunks.drop_last() =~= before);
        assert(reads.last() == reads[reads.len() - 1]);
        assert(chunks.last().chunk == reads.last());
    }
}

/// A file that is sent is received as it was: the bytes that one side reads from it are the
/// bytes that the other side has in the file at the end, at the place that goes with the path,
/// and no other file of the other side is touched.
pub proof fn sent_file_arrives(
    sender: SendView,
    reads: Seq<Seq<u8>>,
    send_rates: Seq<u64>,
    receiver: crate::server::transfer_receiver::ReceiveView,
    disk: crate::server::transfer_receiver::DiskView,
    destination: Seq<char>,
    receive_rates: Seq<u64>,
)
    requires
        sender.phase is Reading,
        0 < reads.len() == send_rates.len() == receive_rates.len(),
        forall|i: int| 0 <= i < reads.len() ==> 0 < (#[trigger] reads[i]).len() <= CHUNK_SIZE,
        receiver.phase is Waiting,
        receiver.current_path != Some(
            crate::server::transfer_receiver::sanitized(sender.relative_path),
        ),
        !crate::server::transfer_receiver::is_unsafe(destination, sender.relative_path),
    ensures
        ({
            let chunks = sent_pieces(sender, reads, send_rates).1;
            let (_, after_disk) = crate::server::transfer_receiver::all_delivered(
                receiver,
                disk,
                destination,
                chunks,
                receive_rates,
            );
            after_disk.files == disk.files.insert(
                crate::server::transfer_receiver::target_path(destination, sender.relative_path),
                joined(reads),
            )
        }),
{
    sent_file_is_whole(sender, reads, send_rates);
    crate::server::transfer_receiver::received_file_is_whole(
        receiver,
        disk,
        destination,
        sender.relative_path,
        sent_pieces(sender, reads, send_rates).1,
        receive_rates,
    );
}

/// The pieces that have gone out, sorted into entries: those that are done, and the pieces of
/// the latest file.
#[verifier::ext_equal]
pub struct SentView {
    pub done: Seq<Seq<FileChunkView>>,
    pub latest: Seq<FileChunkView>,
}

/// Nothing has gone out yet.
pub open spec fn nothing_sent() -> SentView {
    SentView { done: Seq::empty(), latest: Seq::empty() }
}

impl SentView {
    /// All the entries that have gone out, in order.
    pub open spec fn entries(self) -> Seq<Seq<FileChunkView>> {
        if self.latest.len() == 0 {
            self.done
        } else {
            self.done.push(self.latest)
        }
    }

    /// After one thing has been done: another file or a directory puts an end to the latest
    /// file.
    pub open spec fn after(self, effect: SendEffectView) -> SentView {
        match effect {
            SendEffectView::Open(_) => SentView { done: self.entries(), latest: Seq::empty() },
            SendEffectView::Send(chunk) => if chunk.file_type == FILE_TYPE_DIRECTORY {
                SentView { done: self.entries().push(seq![chunk]), latest: Seq::empty() }
            } else {
                SentView { latest: self.latest.push(chunk), ..self }
            },
            _ => self,
        }
    }

    /// After some things have been done in order.
    pub open spec fn after_all(self, effects: Seq<SendEffectView>) -> SentView
        decreases effects.len(),
    {
        if effects.len() == 0 {
            self
        } else {
            self.after_all(effects.drop_last()).after(effects.last())
        }
    }

    /// Every entry that is done is whole, and the latest file's pieces are all its own.
    pub open spec fn in_order(self, sender: SendView) -> bool {
        &&& forall|i: int|
            0 <= i < self.done.len() ==> crate::server::transfer_receiver::is_entry(
                #[trigger] self.done[i],
            )
        &&& crate::server::transfer_receiver::pieces_of(self.latest, sender.relative_path)
    }
}

/// The pieces among some effects.
pub open spec fn chunks_in(effects: Seq<SendEffectView>) -> Seq<FileChunkView>
    decreases effects.len(),
{
    if effects.len() == 0 {
        Seq::empty()
    } else {
        match effects.last() {
            SendEffectView::Send(chunk) => chunks_in(effects.drop_last()).push(chunk),
            _ => chunks_in(effects.drop_last()),
        }
    }
}

/// What a sender is told, and whether the transfer has been cancelled by then.
pub type Told = (SendEventView, bool);

/// A sender after all that it has been told, with the pieces that have gone out, as they came
/// and sorted into entries.
pub open spec fn sent_after(sources: Seq<Seq<char>>, told: Seq<Told>) -> (
    SendView,
    Seq<FileChunkView>,
    SentView,
)
    decreases told.len(),
{
    if told.len() == 0 {
        (new_sender(sources), Seq::empty(), nothing_sent())
    } else {
        let (before, chunks, sent) = sent_after(sources, told.drop_last());
        let (after, effects) = before.on_event(told.last().0, told.last().1);
        (after, chunks + chunks_in(effects), sent.after_all(effects))
    }
}

/// Whether a sender was told only what it was waiting for.
pub open spec fn is_session(sources: Seq<Seq<char>>, told: Seq<Told>) -> bool
    decreases told.len(),
{
    told.len() == 0 || {
        &&& is_session(sources, told.drop_last())
        &&& sent_after(sources, told.drop_last()).0.expects(told.last().0)
    }
}

proof fn lemma_stream_of_push(
    entries: Seq<Seq<FileChunkView>>,
    entry: Seq<FileChunkView>,
)
    ensures
        crate::server::transfer_receiver::stream_of(entries.push(entry))
            == crate::server::transfer_receiver::stream_of(entries) + entry,
{
    assert(entries.push(entry).drop_last() =~= entries);
}

proof fn lemma_entries_keep_order(sent: SentView, sender: SendView)
    requires
        sent.in_order(sender),
    ensures
        crate::server::transfer_receiver::stream_of(sent.entries())
            == crate::server::transfer_receiver::stream_of(sent.done) + sent.latest,
        forall|i: int|
            0 <= i < sent.entries().len() ==> crate::server::transfer_receiver::is_entry(
                #[trigger] sent.entries()[i],
            ),
{
    if sent.latest.len() == 0 {
        assert(crate::server::transfer_receiver::stream_of(sent.done) + sent.latest
            =~= crate::server::transfer_receiver::stream_of(sent.done));
    } else {
        lemma_stream_of_push(sent.done, sent.latest);
        assert(crate::server::transfer_receiver::is_entry(sent.latest));
    }
}

/// One effect keeps the pieces in order.
proof fn lemma_effect_keeps_order(
    sent: SentView,
    before: SendView,
    after: SendView,
    effect: SendEffectView,
)
    requires
        sent.in_order(before),
        effect is Open || after.relative_path == before.relative_path,
        effect matches SendEffectView::Send(chunk) ==> chunk.file_type == FILE_TYPE_DIRECTORY || (
        chunk.file_type == FILE_TYPE_FILE && chunk.relative_path == before.relative_path),
    ensures
        sent.after(effect).in_order(after),
        crate::server::transfer_receiver::stream_of(sent.after(effect).entries())
            == crate::server::transfer_receiver::stream_of(sent.entries()) + chunks_in(
            seq![effect],
        ),
{
    let next = sent.after(effect);
    lemma_entries_keep_order(sent, before);
    assert(seq![effect].drop_last() =~= Seq::<SendEffectView>::empty());
    reveal_with_fuel(chunks_in, 2);
    let stream = crate::server::transfer_receiver::stream_of(sent.entries());
    match effect {
        SendEffectView::Send(chunk) => {
            assert(chunks_in(seq![effect]) =~= seq![chunk]);
            if chunk.file_type == FILE_TYPE_DIRECTORY {
                lemma_stream_of_push(sent.entries(), seq![chunk]);
                assert(crate::server::transfer_receiver::is_entry(seq![chunk]));
            } else {
                assert(next.in_order(after));
                lemma_entries_keep_order(next, after);
                assert(crate::server::transfer_receiver::stream_of(sent.done) + next.latest
                    =~= stream + seq![chunk]);
            }
        },
        _ => {
            assert(stream + chunks_in(seq![effect]) =~= stream);
        },
    }
}

proof fn lemma_sent_one(sent: SentView, effect: SendEffectView)
    ensures
        sent.after_all(seq![effect]) == sent.after(effect),
{
    assert(seq![effect].drop_last() =~= Seq::<SendEffectView>::empty());
    reveal_with_fuel(SentView::after_all, 2);
}

/// One step keeps the pieces in order.
proof fn lemma_step_keeps_order(
    sent: SentView,
    sender: SendView,
    event: SendEventView,
    cancelled: bool,
)
    requires
        sender.wf(),
        sender.expects(event),
        sent.in_order(sender),
    ensures
        ({
            let (after, effects) = sender.on_event(event, cancelled);
            &&& sent.after_all(effects).in_order(after)
            &&& crate::server::transfer_receiver::stream_of(sent.after_all(effects).entries())
                == crate::server::transfer_receiver::stream_of(sent.entries()) + chunks_in(effects)
        }),
{
    let (after, effects) = sender.on_event(event, cancelled);
    every_send_step_leads_on(sender, event, cancelled);
    let last = effects.last();
    if effects.len() == 1 {
        assert(effects =~= seq![last]);
        lemma_sent_one(sent, last);
        lemma_effect_keeps_order(sent, sender, after, last);
    } else {
        let first = effects[0];
        assert(first is Update);
        assert(effects =~= seq![first, last]);
        assert(effects.drop_last() =~= seq![first]);
        lemma_sent_one(sent, first);
        lemma_effect_keeps_order(sent, sender, after, last);
        assert(seq![first].drop_last() =~= Seq::<SendEffectView>::empty());
        assert(seq![last].drop_last() =~= Seq::<SendEffectView>::empty());
        reveal_with_fuel(chunks_in, 3);
        assert(chunks_in(effects) =~= chunks_in(seq![last]));
    }
}

/// Whatever a sender is told, the pieces that it lets go out are whole entries one after the
/// other, apart from a file that it may still be sending: directories, and files of which every
/// piece comes before anything else goes out.
pub proof fn sent_stream_is_made_of_entries(sources: Seq<Seq<char>>, told: Seq<Told>)
    requires
        is_session(sources, told),
    ensures
        ({
            let (sender, chunks, sent) = sent_after(sources, told);
            &&& sender.wf()
            &&& sent.in_order(sender)
            &&& chunks == crate::server::transfer_receiver::stream_of(sent.entries())
            &&& forall|i: int|
                0 <= i < sent.entries().len() ==> crate::server::transfer_receiver::is_entry(
                    #[trigger] sent.entries()[i],
                )
        }),
    decreases told.len(),
{
    let (sender, chunks, sent) = sent_after(sources, told);
    if told.len() > 0 {
        sent_stream_is_made_of_entries(sources, told.drop_last());
        let (before, _, before_sent) = sent_after(sources, told.drop_last());
        every_send_step_leads_on(before, told.last().0, told.last().1);
        lemma_step_keeps_order(before_sent, before, told.last().0, told.last().1);
    }
    lemma_entries_keep_order(sent, sender);
}

/// All that a sender lets go out arrives: the other side, whatever it did before, ends up with
/// every file of the entries at its place, with all the bytes that went out for it, and with no
/// other file changed, and has asked for every directory of the entries and for those that the
/// files lie in, and for no other. The paths must not be such that they are refused, and no two entries in
/// a row may end up under the same name.
pub proof fn sent_stream_arrives(
    sources: Seq<Seq<char>>,
    told: Seq<Told>,
    receiver: crate::server::transfer_receiver::ReceiveView,
    disk: crate::server::transfer_receiver::DiskView,
    destination: Seq<char>,
    rates: Seq<u64>,
)
    requires
        is_session(sources, told),
        receiver.phase is Waiting,
        rates.len() == sent_after(sources, told).1.len(),
        ({
            let entries = sent_after(sources, told).2.entries();
            &&& entries.len() > 0 ==> receiver.current_path != Some(
                crate::server::transfer_receiver::entry_name(entries[0]),
            )
            &&& forall|i: int|
                0 <= i < entries.len() ==> !crate::server::transfer_receiver::is_unsafe(
                    destination,
                    (#[trigger] entries[i])[0].relative_path,
                )
            &&& forall|i: int, j: int|
                0 <= i && j == i + 1 && j < entries.len()
                    ==> crate::server::transfer_receiver::entry_name(#[trigger] entries[i])
                    != crate::server::transfer_receiver::entry_name(#[trigger] entries[j])
        }),
    ensures
        ({
            let (_, chunks, sent) = sent_after(sources, told);
            let (after, after_disk) = crate::server::transfer_receiver::all_delivered(
                receiver,
                disk,
                destination,
                chunks,
                rates,
            );
            &&& after.phase is Waiting
            &&& after_disk.files == crate::server::transfer_receiver::files_with(
                disk.files,
                destination,
                sent.entries(),
            )
            &&& after_disk.directories == crate::server::transfer_receiver::directories_with(
                disk.directories,
                destination,
                sent.entries(),
            )
        }),
{
    sent_stream_is_made_of_entries(sources, told);
    crate::server::transfer_receiver::received_stream_is_whole(
        receiver,
        disk,
        destination,
        sent_after(sources, told).2.entries(),
        rates,
    );
}

/// How many bytes of files have gone out, and how many have been added to the progress.
#[verifier::ext_equal]
pub struct TallyView {
    pub sent: nat,
    pub counted: nat,
}

impl TallyView {
    /// After one more thing.
    pub open spec fn after(self, effect: SendEffectView) -> TallyView {
        match effect {
            SendEffectView::Send(chunk) => TallyView { sent: self.sent + chunk.chunk.len(), ..self },
            SendEffectView::Update(TransferUpdate::Progress { bytes, .. }) => TallyView {
                counted: self.counted + bytes as nat,
                ..self
            },
            _ => self,
        }
    }

    /// After some more things in order.
    pub open spec fn after_all(self, effects: Seq<SendEffectView>) -> TallyView
        decreases effects.len(),
    {
        if effects.len() == 0 {
            self
        } else {
            self.after_all(effects.drop_last()).after(effects.last())
        }
    }

    /// Whether all that has gone out has been counted, but for what is going out.
    pub open spec fn in_step(self, sender: SendView) -> bool {
        match sender.phase {
            SendPhase::SendingData(bytes) => self.sent == self.counted + bytes,
            SendPhase::Finished => self.counted <= self.sent,
            _ => self.sent == self.counted,
        }
    }
}

/// The progress is what has gone out: whatever a sender is told, it has counted exactly the
/// bytes of the pieces that it has handed on, but for the one that is on its way or was refused.
pub proof fn progress_is_what_was_sent(
    sender: SendView,
    tally: TallyView,
    event: SendEventView,
    cancelled: bool,
)
    requires
        sender.wf(),
        sender.expects(event),
        tally.in_step(sender),
    ensures
        ({
            let (after, effects) = sender.on_event(event, cancelled);
            &&& tally.after_all(effects).in_step(after)
            &&& after.phase is Finished && !(event is Refused) ==> tally.after_all(effects).sent
                == tally.after_all(effects).counted
        }),
{
    let (after, effects) = sender.on_event(event, cancelled);
    every_send_step_leads_on(sender, event, cancelled);
    reveal_with_fuel(TallyView::after_all, 3);
    assert(effects.len() <= 2);
    if effects.len() == 2 {
        assert(effects.drop_last() =~= seq![effects[0]]);
        assert(effects.drop_last().drop_last() =~= Seq::<SendEffectView>::empty());
    } else {
        assert(effects.drop_last() =~= Seq::<SendEffectView>::empty());
    }
}

/// A directory or a file that a sender has been told of: where it belongs on the other side, and,
/// of a file, what has been read from it, and whether it has been read to its end.
#[verifier::ext_equal]
pub struct ItemView {
    pub relative_path: Seq<char>,
    pub directory: bool,
    pub data: Seq<u8>,
    pub ended: bool,
}

/// A directory that a sender has been told of.
pub open spec fn directory_item(relative_path: Seq<char>) -> ItemView {
    ItemView { relative_path, directory: true, data: Seq::empty(), ended: true }
}

/// A file that a sender has been told of, and of which nothing has been read yet.
pub open spec fn file_item(relative_path: Seq<char>) -> ItemView {
    ItemView { relative_path, directory: false, data: Seq::empty(), ended: false }
}

/// What a sender has been told of after one more event, given the source that it is sending. An
/// entry that comes after the cancellation does not count.
pub open spec fn items_with(
    items: Seq<ItemView>,
    source: Seq<char>,
    event: SendEventView,
    cancelled: bool,
) -> Seq<ItemView> {
    let base = crate::platform::parent_of(source)->0;
    match event {
        SendEventView::Examined(Ok(EntryMetadata::Directory)) => items.push(
            directory_item(relative_path(source, base)),
        ),
        SendEventView::Examined(Ok(EntryMetadata::File { .. })) => items.push(
            file_item(relative_path(source, base)),
        ),
        SendEventView::Entry { path, metadata: Ok(EntryMetadata::Directory) } => if cancelled {
            items
        } else {
            items.push(directory_item(relative_path(path, base)))
        },
        SendEventView::Entry { path, metadata: Ok(EntryMetadata::File { .. }) } => if cancelled {
            items
        } else {
            items.push(file_item(relative_path(path, base)))
        },
        SendEventView::Read(data) => items.drop_last().push(
            ItemView {
                data: items.last().data + data,
                ended: data.len() == 0,
                ..items.last()
            },
        ),
        _ => items,
    }
}

/// All that a sender has been told of, in order.
pub open spec fn told_items(sources: Seq<Seq<char>>, told: Seq<Told>) -> Seq<ItemView>
    decreases told.len(),
{
    if told.len() == 0 {
        Seq::empty()
    } else {
        items_with(
            told_items(sources, told.drop_last()),
            sent_after(sources, told.drop_last()).0.source(),
            told.last().0,
            told.last().1,
        )
    }
}

/// Those that go out: the directories, and the files of which something has been read.
pub open spec fn going_out(items: Seq<ItemView>) -> Seq<ItemView>
    decreases items.len(),
{
    if items.len() == 0 {
        Seq::empty()
    } else {
        let item = items.last();
        if item.directory || item.data.len() > 0 {
            going_out(items.drop_last()).push(item)
        } else {
            going_out(items.drop_last())
        }
    }
}

/// Whether some pieces are what goes out for a directory or a file: the piece of the directory, or
/// pieces of the file that hold together what has been read from it.
pub open spec fn goes_out_as(item: ItemView, entry: Seq<FileChunkView>) -> bool {
    if item.directory {
        entry == seq![directory_chunk(item.relative_path)]
    } else {
        &&& entry.len() > 0
        &&& crate::server::transfer_receiver::pieces_of(entry, item.relative_path)
        &&& crate::server::transfer_receiver::contents(entry) == item.data
    }
}

/// Whether some entries are, one by one and in order, what goes out for some directories and files.
pub open spec fn go_out_as(items: Seq<ItemView>, entries: Seq<Seq<FileChunkView>>) -> bool {
    &&& entries.len() == items.len()
    &&& forall|i: int|
        0 <= i < items.len() ==> goes_out_as(#[trigger] items[i], #[trigger] entries[i])
}

/// Whether every file has been read to its end.
pub open spec fn all_ended(items: Seq<ItemView>) -> bool {
    forall|i: int| 0 <= i < items.len() ==> (#[trigger] items[i]).ended
}

/// Whether a sender is sending a file.
spec fn in_file(phase: SendPhase) -> bool {
    phase is Opening || phase is Reading || phase is SendingData
}

/// Whether what has gone out is what a sender has been told of, as far as it has come.
spec fn keeps_up(sender: SendView, sent: SentView, items: Seq<ItemView>) -> bool {
    &&& sender.begun > 0 && !(sender.phase is Finished) ==> crate::platform::parent_of(
        sender.source(),
    ) == Some(sender.base)
    &&& go_out_as(going_out(items), sent.entries())
    &&& !in_file(sender.phase) && !(sender.phase is Finished) ==> all_ended(items)
    &&& in_file(sender.phase) ==> {
        &&& items.len() > 0
        &&& !items.last().directory
        &&& items.last().relative_path == sender.relative_path
        &&& items.last().data == crate::server::transfer_receiver::contents(sent.latest)
        &&& items.last().data.len() == 0 <==> sent.latest.len() == 0
        &&& crate::server::transfer_receiver::pieces_of(sent.latest, sender.relative_path)
        &&& go_out_as(going_out(items.drop_last()), sent.done)
        &&& all_ended(items.drop_last())
    }
}

proof fn lemma_go_out_push(
    items: Seq<ItemView>,
    entries: Seq<Seq<FileChunkView>>,
    item: ItemView,
    entry: Seq<FileChunkView>,
)
    requires
        go_out_as(going_out(items), entries),
        goes_out_as(item, entry),
        item.directory || item.data.len() > 0,
    ensures
        go_out_as(going_out(items.push(item)), entries.push(entry)),
{
    assert(items.push(item).drop_last() =~= items);
    let more = going_out(items).push(item);
    assert forall|i: int| 0 <= i < more.len() implies goes_out_as(
        #[trigger] more[i],
        #[trigger] entries.push(entry)[i],
    ) by {
        if i < going_out(items).len() {
            assert(goes_out_as(going_out(items)[i], entries[i]));
        }
    }
}

proof fn lemma_step_keeps_up(
    sender: SendView,
    sent: SentView,
    items: Seq<ItemView>,
    event: SendEventView,
    cancelled: bool,
)
    requires
        sender.wf(),
        sender.expects(event),
        keeps_up(sender, sent, items),
    ensures
        ({
            let (after, effects) = sender.on_event(event, cancelled);
            let more = items_with(items, sender.source(), event, cancelled);
            &&& keeps_up(after, sent.after_all(effects), more)
            &&& effects.last() == SendEffectView::Finish(Ok(true)) ==> all_ended(more)
        }),
{
    let (after, effects) = sender.on_event(event, cancelled);
    let more = items_with(items, sender.source(), event, cancelled);
    let next = sent.after_all(effects);
    every_send_step_leads_on(sender, event, cancelled);
    let last = effects.last();
    if effects.len() == 1 {
        assert(effects =~= seq![last]);
        lemma_sent_one(sent, last);
    } else {
        let first = effects[0];
        assert(effects.drop_last() =~= seq![first]);
        lemma_sent_one(sent, first);
        assert(next == sent.after(first).after(last));
    }
    if sender.phase is Reading && event is Read {
        let data = event->Read_0;
        let item = items.last();
        let fewer = items.drop_last();
        assert(items =~= fewer.push(item));
        assert(more.drop_last() =~= fewer);
        if data.len() == 0 {
            assert(more.last().data =~= item.data);
            assert(next == sent);
            if item.data.len() > 0 {
                assert(sent.latest.len() > 0);
                lemma_go_out_push(fewer, sent.done, more.last(), sent.latest);
                assert(more =~= fewer.push(more.last()));
            }
            assert(go_out_as(going_out(more), sent.entries()));
            assert forall|i: int| 0 <= i < more.len() implies (#[trigger] more[i]).ended by {
                if i < fewer.len() {
                    assert(fewer[i].ended);
                }
            }
        } else {
            let chunk = last->Send_0;
            assert(next.latest =~= sent.latest.push(chunk));
            assert(next.latest.drop_last() =~= sent.latest);
            assert(crate::server::transfer_receiver::contents(next.latest)
                =~= crate::server::transfer_receiver::contents(sent.latest) + data);
            assert(crate::server::transfer_receiver::pieces_of(
                next.latest,
                sender.relative_path,
            ));
            lemma_go_out_push(fewer, sent.done, more.last(), next.latest);
            assert(more =~= fewer.push(more.last()));
        }
    } else if last is Open {
        let item = more.last();
        assert(more.drop_last() =~= items);
        assert(next.latest =~= Seq::<FileChunkView>::empty());
        assert(item.data =~= crate::server::transfer_receiver::contents(next.latest));
    } else if last is Send {
        let item = more.last();
        let chunk = last->Send_0;
        assert(chunk.file_type == FILE_TYPE_DIRECTORY);
        assert(more =~= items.push(item));
        lemma_go_out_push(items, sent.entries(), item, seq![chunk]);
        assert(next.entries() =~= sent.entries().push(seq![chunk]));
        assert forall|i: int| 0 <= i < more.len() implies (#[trigger] more[i]).ended by {
            if i < items.len() {
                assert(items[i].ended);
            }
        }
    } else {
        assert(next == sent);
        assert(more == items);
    }
}

proof fn lemma_session_keeps_up(sources: Seq<Seq<char>>, told: Seq<Told>)
    requires
        is_session(sources, told),
    ensures
        ({
            let (sender, _, sent) = sent_after(sources, told);
            keeps_up(sender, sent, told_items(sources, told))
        }),
    decreases told.len(),
{
    if told.len() > 0 {
        let earlier = told.drop_last();
        lemma_session_keeps_up(sources, earlier);
        sent_stream_is_made_of_entries(sources, earlier);
        let (before, _, before_sent) = sent_after(sources, earlier);
        lemma_step_keeps_up(
            before,
            before_sent,
            told_items(sources, earlier),
            told.last().0,
            told.last().1,
        );
    }
}

/// What a sender lets go out is what it has been told of: in order, the piece of every directory,
/// and the pieces of every file that is not empty, each under its path below the directory that
/// the source lies in, and with all the bytes that were read. When the sender says that the
/// transfer went through, it has come to the last source, and every file has been read to its end.
pub proof fn sent_stream_is_what_was_told(sources: Seq<Seq<char>>, told: Seq<Told>)
    requires
        is_session(sources, told),
    ensures
        ({
            let (sender, chunks, sent) = sent_after(sources, told);
            let items = told_items(sources, told);
            &&& chunks == crate::server::transfer_receiver::stream_of(sent.entries())
            &&& go_out_as(going_out(items), sent.entries())
            &&& told.len() > 0 && sent_after(sources, told.drop_last()).0.on_event(
                told.last().0,
                told.last().1,
            ).1.last() == SendEffectView::Finish(Ok(true)) ==> {
                &&& sender.begun == sources.len()
                &&& all_ended(items)
            }
        }),
{
    sent_stream_is_made_of_entries(sources, told);
    lemma_session_keeps_up(sources, told);
    if told.len() > 0 {
        let earlier = told.drop_last();
        let (before, _, before_sent) = sent_after(sources, earlier);
        sent_stream_is_made_of_entries(sources, earlier);
        lemma_session_keeps_up(sources, earlier);
        lemma_step_keeps_up(
            before,
            before_sent,
            told_items(sources, earlier),
            told.last().0,
            told.last().1,
        );
        send_outcome_is_earned(before, told.last().0, told.last().1);
        lemma_sources_stay(sources, told);
        lemma_sources_stay(sources, earlier);
    }
}

proof fn lemma_sources_stay(sources: Seq<Seq<char>>, told: Seq<Told>)
    requires
        is_session(sources, told),
    ensures
        sent_after(sources, told).0.sources == sources,
        sent_after(sources, told).0.wf(),
    decreases told.len(),
{
    if told.len() > 0 {
        lemma_sources_stay(sources, told.drop_last());
        every_send_step_leads_on(
            sent_after(sources, told.drop_last()).0,
            told.last().0,
            told.last().1,
        );
    }
}

/// The files of the other side after some directories and files have gone out to it: every file in
/// its place with what was read from it.
pub open spec fn files_told(
    files: Map<Seq<char>, Seq<u8>>,
    destination: Seq<char>,
    items: Seq<ItemView>,
) -> Map<Seq<char>, Seq<u8>>
    decreases items.len(),
{
    if items.len() == 0 {
        files
    } else {
        let before = files_told(files, destination, items.drop_last());
        let item = items.last();
        if item.directory {
            before
        } else {
            before.insert(
                crate::server::transfer_receiver::target_path(destination, item.relative_path),
                item.data,
            )
        }
    }
}

proof fn lemma_files_told(
    files: Map<Seq<char>, Seq<u8>>,
    destination: Seq<char>,
    items: Seq<ItemView>,
    entries: Seq<Seq<FileChunkView>>,
)
    requires
        go_out_as(items, entries),
    ensures
        crate::server::transfer_receiver::files_with(files, destination, entries) == files_told(
            files,
            destination,
            items,
        ),
    decreases items.len(),
{
    if items.len() > 0 {
        let n = items.len() - 1;
        assert(goes_out_as(items[n], entries[n]));
        assert forall|i: int| 0 <= i < items.drop_last().len() implies goes_out_as(
            #[trigger] items.drop_last()[i],
            #[trigger] entries.drop_last()[i],
        ) by {
            assert(goes_out_as(items[i], entries[i]));
        }
        lemma_files_told(files, destination, items.drop_last(), entries.drop_last());
    }
}

/// All that a sender has been told of arrives: the other side, whatever it did before, ends up with
/// every file that is not empty at the place that goes with its path, with all the bytes that were
/// read from it, and with no other file changed. The paths must not be such that they are refused,
/// and no two in a row may end up under the same name.
pub proof fn told_files_arrive(
    sources: Seq<Seq<char>>,
    told: Seq<Told>,
    receiver: crate::server::transfer_receiver::ReceiveView,
    disk: crate::server::transfer_receiver::DiskView,
    destination: Seq<char>,
    rates: Seq<u64>,
)
    requires
        is_session(sources, told),
        receiver.phase is Waiting,
        rates.len() == sent_after(sources, told).1.len(),
        ({
            let items = going_out(told_items(sources, told));
            &&& items.len() > 0 ==> receiver.current_path != Some(
                crate::server::transfer_receiver::sanitized(items[0].relative_path),
            )
            &&& forall|i: int|
                0 <= i < items.len() ==> !crate::server::transfer_receiver::is_unsafe(
                    destination,
                    (#[trigger] items[i]).relative_path,
                )
            &&& forall|i: int, j: int|
                0 <= i && j == i + 1 && j < items.len()
                    ==> crate::server::transfer_receiver::sanitized(
                    (#[trigger] items[i]).relative_path,
                ) != crate::server::transfer_receiver::sanitized(
                    (#[trigger] items[j]).relative_path,
                )
        }),
    ensures
        crate::server::transfer_receiver::all_delivered(
            receiver,
            disk,
            destination,
            sent_after(sources, told).1,
            rates,
        ).1.files == files_told(disk.files, destination, going_out(told_items(sources, told))),
{
    sent_stream_is_what_was_told(sources, told);
    let items = going_out(told_items(sources, told));
    let entries = sent_after(sources, told).2.entries();
    assert forall|i: int| 0 <= i < entries.len() implies (
    #[trigger] entries[i])[0].relative_path == items[i].relative_path by {
        assert(goes_out_as(items[i], entries[i]));
    }
    assert forall|i: int, j: int|
        0 <= i && j == i + 1 && j
            < entries.len() implies crate::server::transfer_receiver::entry_name(
        #[trigger] entries[i],
    ) != crate::server::transfer_receiver::entry_name(#[trigger] entries[j]) by {
        assert(entries[i][0].relative_path == items[i].relative_path);
        assert(entries[j][0].relative_path == items[j].relative_path);
    }
    assert forall|i: int|
        0 <= i < entries.len() implies !crate::server::transfer_receiver::is_unsafe(
        destination,
        (#[trigger] entries[i])[0].relative_path,
    ) by {
        assert(entries[i][0].relative_path == items[i].relative_path);
    }
    if entries.len() > 0 {
        assert(entries[0][0].relative_path == items[0].relative_path);
    }
    sent_stream_arrives(sources, told, receiver, disk, destination, rates);
    lemma_files_told(disk.files, destination, items, entries);
}

/// What is said of what a sender is told is what it holds.
pub proof fn event_is_seen_as_it_is(event: SendEvent)
    ensures
        event is Begin <==> event@ is Begin,
        event is EntryFailed <==> event@ is EntryFailed,
        event is WalkEnded <==> event@ is WalkEnded,
        event is Opened <==> event@ is Opened,
        event is Refused <==> event@ is Refused,
        event matches SendEvent::Examined(metadata) ==> event@ == SendEventView::Examined(metadata),
        event matches SendEvent::Entry { path, metadata } ==> event@ == (SendEventView::Entry {
            path: path@,
            metadata,
        }),
        event matches SendEvent::NotOpened(kind) ==> event@ == SendEventView::NotOpened(kind),
        event matches SendEvent::Read(data) ==> event@ == SendEventView::Read(data@),
        event matches SendEvent::ReadFailed(kind) ==> event@ == SendEventView::ReadFailed(kind),
        event matches SendEvent::Sent { bytes_per_second } ==> event@ == (SendEventView::Sent {
            bytes_per_second,
        }),
{
}

/// What is said of an effect is what it holds.
pub proof fn effect_is_seen_as_it_is(effect: SendEffect)
    ensures
        effect is NextEntry <==> effect@ is NextEntry,
        effect is Read <==> effect@ is Read,
        effect matches SendEffect::Examine(path) ==> effect@ == SendEffectView::Examine(path@),
        effect matches SendEffect::Walk(path) ==> effect@ == SendEffectView::Walk(path@),
        effect matches SendEffect::Open(path) ==> effect@ == SendEffectView::Open(path@),
        effect matches SendEffect::Send(chunk) ==> effect@ == SendEffectView::Send(chunk@),
        effect matches SendEffect::Update(update) ==> effect@ == SendEffectView::Update(update),
        effect matches SendEffect::Finish(result) ==> effect@ == SendEffectView::Finish(result),
{
}

/// What is said of some effects is what each of them holds, in order.
pub proof fn effects_are_seen_as_they_are(effects: Seq<SendEffect>)
    ensures
        effect_views(effects).len() == effects.len(),
        forall|i: int| 0 <= i < effects.len() ==> #[trigger] effect_views(effects)[i] == effects[i]@,
{
}

/// What is said of the paths that a step is given is what they hold.
pub proof fn paths_are_seen_as_they_are(paths: SendPaths)
    ensures
        paths@.relative == paths.relative@,
        paths@.next_base is Some <==> paths.next_base is Some,
        paths.next_base matches Some(base) ==> paths@.next_base == Some(base@),
{
}

/// The time of a file is sent in seconds and microseconds.
pub proof fn time_is_sent_in_microseconds(time: ModifiedTime)
    requires
        time.wf(),
    ensures
        time.to_proto().mtime == time.secs,
        time.to_proto().mtime_usec == time.subsec_millis * 1000,
        time.to_proto().mtime_usec < 1_000_000,
{
}

/// A path goes out as what is left of it below the directory that its source lies in, and whole
/// where it does not lie below it.
pub proof fn path_goes_out_below_its_base(path: Seq<char>, base: Seq<char>)
    ensures
        crate::platform::stripped_path(path, base) matches Some(rest) ==> relative_path(path, base)
            == rest,
        crate::platform::stripped_path(path, base) is None ==> relative_path(path, base) == path,
{
}

/// The path that a sender asks about is always the one that it has just come to. It asks to open
/// only what it has just been told is a file: the current source after the source was examined, and
/// an entry's own path after the entry. It asks to examine only the first source that has not been
/// begun, and counts it as begun then, and to walk only the current source. So the bytes that go out
/// under a path are those of the file at the path that it was made from.
pub proof fn asked_path_is_the_one_come_to(
    sender: SendView,
    event: SendEventView,
    cancelled: bool,
    paths: SendPathsView,
    i: int,
)
    requires
        sender.wf(),
        sender.expects(event),
        0 <= i < sender.on_event_at(event, cancelled, paths).1.len(),
    ensures
        ({
            let (after, effects) = sender.on_event_at(event, cancelled, paths);
            match effects[i] {
                SendEffectView::Open(path) => {
                    &&& match event {
                        SendEventView::Examined(Ok(EntryMetadata::File { .. })) => path
                            == sender.sources[sender.begun - 1],
                        SendEventView::Entry {
                            path: entry,
                            metadata: Ok(EntryMetadata::File { .. }),
                        } => path == entry && !cancelled,
                        _ => false,
                    }
                    &&& after.relative_path == paths.relative
                    &&& after.begun == sender.begun
                },
                SendEffectView::Examine(path) => {
                    &&& sender.begun < sender.sources.len()
                    &&& path == sender.sources[sender.begun]
                    &&& after.begun == sender.begun + 1
                    &&& paths.next_base == Some(after.base)
                    &&& !after.walking
                    &&& !cancelled
                },
                SendEffectView::Walk(path) => {
                    &&& sender.phase is SendingSource
                    &&& path == sender.sources[sender.begun - 1]
                    &&& after.begun == sender.begun
                    &&& after.walking
                    &&& after.base == sender.base
                },
                _ => after.begun == sender.begun && after.base == sender.base,
            }
        }),
{
}

/// A file goes out under the path that it was opened by, below the directory that the current source
/// lies in, and with its own time: this is what the sender holds from the moment it asks for the
/// file to be opened.
pub proof fn opened_file_has_its_own_path_and_time(
    sender: SendView,
    event: SendEventView,
    cancelled: bool,
    path: Seq<char>,
)
    requires
        sender.wf(),
        sender.expects(event),
        sender.on_event(event, cancelled).1.last() == SendEffectView::Open(path),
    ensures
        ({
            let after = sender.on_event(event, cancelled).0;
            let metadata = match event {
                SendEventView::Examined(found) => found,
                SendEventView::Entry { metadata: found, .. } => found,
                _ => arbitrary(),
            };
            &&& after.phase is Opening
            &&& match crate::platform::stripped_path(path, sender.base) {
                Some(rest) => after.relative_path == rest,
                None => after.relative_path == path,
            }
            &&& metadata matches Ok(EntryMetadata::File { modified }) && match modified {
                Some(time) => after.time matches Some(sent) && sent.mtime == time.secs
                    && sent.mtime_usec == time.subsec_millis * 1000,
                None => after.time is None,
            }
            &&& after.base == sender.base
            &&& after.walking == sender.walking
        }),
{
}

/// The directory that a source lies in is the one that its paths go out below: it is found when the
/// source is begun.
pub proof fn begun_source_goes_out_below_its_parent(
    sender: SendView,
    event: SendEventView,
    cancelled: bool,
    source: Seq<char>,
)
    requires
        sender.wf(),
        sender.expects(event),
        sender.on_event(event, cancelled).1.last() == SendEffectView::Examine(source),
    ensures
        crate::platform::parent_of(source) == Some(sender.on_event(event, cancelled).0.base),
        source == sender.sources[sender.begun],
        sender.on_event(event, cancelled).0.begun == sender.begun + 1,
{
}

/// A directory goes out as one empty piece under its own path, with the rights of a directory and no
/// time, when the sender has been told of it: the current source, or an entry below it.
pub proof fn directory_goes_out_under_its_own_path(
    sender: SendView,
    event: SendEventView,
    cancelled: bool,
)
    requires
        sender.wf(),
        sender.expects(event),
    ensures
        ({
            let (after, effects) = sender.on_event(event, cancelled);
            let found = match event {
                SendEventView::Examined(Ok(EntryMetadata::Directory)) => Some(
                    sender.sources[sender.begun - 1],
                ),
                SendEventView::Entry { path, metadata: Ok(EntryMetadata::Directory) } => if cancelled {
                    None
                } else {
                    Some(path)
                },
                _ => None,
            };
            found matches Some(path) ==> {
                &&& effects.len() == 1
                &&& effects[0] matches SendEffectView::Send(chunk) && {
                    &&& match crate::platform::stripped_path(path, sender.base) {
                        Some(rest) => chunk.relative_path == rest,
                        None => chunk.relative_path == path,
                    }
                    &&& chunk.file_type == FILE_TYPE_DIRECTORY == 2
                    &&& chunk.chunk.len() == 0
                    &&& chunk.symlink_target.len() == 0
                    &&& chunk.file_mode == 0o755
                    &&& chunk.time is None
                }
                &&& event is Examined ==> after.phase is SendingSource
                &&& event is Entry ==> after.phase is SendingEntry
                &&& after.walking == sender.walking
            }
        }),
{
}

/// What is read from a file goes out as it was read: all of it in one piece under the file's path,
/// with the rights of a file, and with the time only where none has gone out yet.
pub proof fn read_bytes_go_out_as_they_are(sender: SendView, data: Seq<u8>, cancelled: bool)
    requires
        sender.phase is Reading,
        0 < data.len() <= CHUNK_SIZE,
    ensures
        ({
            let (after, effects) = sender.on_event(SendEventView::Read(data), cancelled);
            &&& effects.len() == 1
            &&& effects[0] matches SendEffectView::Send(chunk) && {
                &&& chunk.relative_path == sender.relative_path
                &&& chunk.file_type == FILE_TYPE_FILE == 1
                &&& chunk.chunk == data
                &&& chunk.symlink_target.len() == 0
                &&& chunk.file_mode == 0o644
                &&& chunk.time == sender.time
            }
            &&& after.time is None
            &&& after.relative_path == sender.relative_path
            &&& after.phase == SendPhase::SendingData(data.len() as u64)
            &&& after.walking == sender.walking
        }),
{
}

/// A sender that is told what stands in its way says so: a lost connection when a piece could not
/// be handed on, the error that goes with the kind of input error, or that the files could not be
/// processed when a directory could not be read further or a source lies in no directory. It says
/// that a transfer has failed in no other case.
pub proof fn failure_is_told_for_what_it_is(sender: SendView, event: SendEventView, cancelled: bool)
    requires
        sender.wf(),
        sender.expects(event),
    ensures
        ({
            let (after, effects) = sender.on_event(event, cancelled);
            let goes_on = match event {
                SendEventView::Begin | SendEventView::WalkEnded => true,
                SendEventView::Examined(Ok(EntryMetadata::Other)) => true,
                SendEventView::Read(data) => data.len() == 0 && !sender.walking,
                _ => false,
            };
            let error = match event {
                SendEventView::Refused => Some(TransferError::ConnectionLost),
                SendEventView::NotOpened(kind) | SendEventView::ReadFailed(kind) => Some(
                    crate::types::transfer::transfer_error_of(kind),
                ),
                SendEventView::Examined(Err(kind)) => Some(
                    crate::types::transfer::transfer_error_of(kind),
                ),
                SendEventView::Entry { metadata: Err(kind), .. } => if cancelled {
                    None
                } else {
                    Some(crate::types::transfer::transfer_error_of(kind))
                },
                SendEventView::EntryFailed => if cancelled {
                    None
                } else {
                    Some(TransferError::FailedToProcessFiles)
                },
                _ => if goes_on && sender.begun < sender.sources.len() && !cancelled
                    && crate::platform::parent_of(sender.sources[sender.begun]) is None {
                    Some(TransferError::FailedToProcessFiles)
                } else {
                    None
                },
            };
            &&& error matches Some(e) ==> {
                &&& effects == seq![SendEffectView::Finish(Err(e))]
                &&& after.phase is Finished
            }
            &&& forall|i: int|
                0 <= i < effects.len() ==> (#[trigger] effects[i] matches SendEffectView::Finish(
                    Err(e),
                ) ==> error == Some(e))
        }),
{
}

/// After what it has been told, a sender goes on as it should. When a source is done it begins the
/// next one, says that the transfer went through where none is left, or that it was cancelled. It
/// goes on from one entry to the next, from the piece of a directory to what lies below it, and from
/// one piece of a file to the next bytes, unless the transfer has been cancelled.
pub proof fn sender_goes_on_as_it_should(sender: SendView, event: SendEventView, cancelled: bool)
    requires
        sender.wf(),
        sender.expects(event),
    ensures
        ({
            let (after, effects) = sender.on_event(event, cancelled);
            let last = effects.last();
            let source_is_done = match event {
                SendEventView::Begin | SendEventView::WalkEnded => true,
                SendEventView::Examined(Ok(EntryMetadata::Other)) => true,
                SendEventView::Read(data) => data.len() == 0 && !sender.walking,
                _ => false,
            };
            let next_entry = match event {
                SendEventView::Entry { metadata: Ok(EntryMetadata::Other), .. } => !cancelled,
                SendEventView::Read(data) => data.len() == 0 && sender.walking,
                SendEventView::Sent { .. } => sender.phase is SendingEntry,
                _ => false,
            };
            let next_bytes = match event {
                SendEventView::Opened => true,
                SendEventView::Sent { .. } => sender.phase is SendingData,
                _ => false,
            };
            &&& effects.len() > 0
            &&& source_is_done ==> if sender.begun == sender.sources.len() {
                last == SendEffectView::Finish(Ok(true))
            } else if cancelled {
                last == SendEffectView::Finish(Ok(false))
            } else {
                crate::platform::parent_of(sender.sources[sender.begun]) is Some ==> last
                    == SendEffectView::Examine(sender.sources[sender.begun])
            }
            &&& next_entry ==> last is NextEntry && after.phase is Walking && after.walking
                == sender.walking
            &&& next_bytes ==> if cancelled {
                last == SendEffectView::Finish(Ok(false))
            } else {
                last is Read && after.phase is Reading && after.relative_path
                    == sender.relative_path && after.time == sender.time && after.walking
                    == sender.walking
            }
            &&& (event is Entry || event is EntryFailed) && cancelled ==> last
                == SendEffectView::Finish(Ok(false))
            &&& event is Sent && sender.phase is SendingSource ==> last == SendEffectView::Walk(
                sender.sources[sender.begun - 1],
            )
            &&& event matches SendEventView::Examined(Ok(EntryMetadata::File { .. }))
                ==> last == SendEffectView::Open(sender.sources[sender.begun - 1])
            &&& event matches SendEventView::Entry {
                path,
                metadata: Ok(EntryMetadata::File { .. }),
            } ==> !cancelled ==> last == SendEffectView::Open(path)
        }),
{
}

/// What has gone out of a file is counted with the average of the latest speeds, and nothing is
/// counted for a directory.
pub proof fn speed_is_counted_with_the_bytes(
    sender: SendView,
    bytes_per_second: u64,
    cancelled: bool,
)
    requires
        sender.wf(),
        sender.expects(SendEventView::Sent { bytes_per_second }),
    ensures
        ({
            let (after, effects) = sender.on_event(SendEventView::Sent { bytes_per_second }, cancelled);
            match sender.phase {
                SendPhase::SendingData(bytes) => {
                    &&& effects.len() == 2
                    &&& effects[0] matches SendEffectView::Update(
                        TransferUpdate::Progress { bytes: counted, bytes_per_second: speed },
                    ) && counted == bytes && speed == sender.speed.pushed(
                        bytes_per_second,
                    ).average()
                    &&& after.speed == sender.speed.pushed(bytes_per_second)
                },
                _ => effects.len() == 1 && !(effects[0] is Update) && after.speed == sender.speed,
            }
        }),
{
    if sender.phase is SendingData {
        let average = sender.speed.pushed(bytes_per_second);
        let n = average.samples.len();
        let total = crate::server::transfer_receiver::sum(average.samples);
        assert(total / n <= total) by (nonlinear_arith)
            requires
                n > 0,
        ;
    }
}

/// Only what has gone out is counted, and only when it has: a sender asks for no other change to the
/// transfer, and its speed changes in no other case.
pub proof fn nothing_else_is_counted(sender: SendView, event: SendEventView, cancelled: bool)
    requires
        sender.wf(),
        sender.expects(event),
    ensures
        ({
            let (after, effects) = sender.on_event(event, cancelled);
            &&& forall|i: int|
                0 <= i < effects.len() && #[trigger] effects[i] is Update ==> event is Sent
                    && sender.phase is SendingData && effects[i]->Update_0 is Progress
            &&& !(event is Sent) ==> after.speed == sender.speed
        }),
{
}

/// A new sender is to send the paths that it was given, in order, and has begun none of them.
pub proof fn new_sender_has_sent_nothing(sources: Seq<Seq<char>>)
    ensures
        new_sender(sources).sources == sources,
        new_sender(sources).begun == 0,
        new_sender(sources).phase is Starting,
        new_sender(sources).speed.samples.len() == 0,
        new_sender(sources).speed.window == 30,
        !new_sender(sources).walking,
{
}

/// A sender takes in word of what it has asked for, and nothing else, as long as it makes sense: the
/// milliseconds of a time are less than a second, no more is read at once than is asked for, and a
/// speed can be counted with the latest ones.
pub proof fn sender_expects_what_it_waits_for(sender: SendView, event: SendEventView)
    ensures
        sender.phase is Starting ==> (sender.expects(event) <==> event is Begin),
        sender.phase is Examining ==> (sender.expects(event) <==> (
        event matches SendEventView::Examined(found) && (found matches Ok(
            EntryMetadata::File { modified: Some(time) },
        ) ==> time.subsec_millis < 1000))),
        sender.phase is Walking ==> (sender.expects(event) <==> event is EntryFailed
            || event is WalkEnded || (event matches SendEventView::Entry { metadata: found, .. } && (
        found matches Ok(EntryMetadata::File { modified: Some(time) }) ==> time.subsec_millis
            < 1000))),
        sender.phase is Opening ==> (sender.expects(event) <==> event is Opened
            || event is NotOpened),
        sender.phase is Reading ==> (sender.expects(event) <==> event is ReadFailed || (
        event matches SendEventView::Read(data) && data.len() <= 65536)),
        sender.phase is SendingSource || sender.phase is SendingEntry ==> (sender.expects(event)
            <==> event is Sent || event is Refused),
        sender.phase is SendingData ==> (sender.expects(event) <==> event is Refused || (
        event matches SendEventView::Sent { bytes_per_second } && sender.speed.fits(
            bytes_per_second,
        ))),
        sender.phase is Finished ==> !sender.expects(event),
{
}

/// A transfer whose sender is done is looked up as it ended: completed where it went through,
/// cancelled where it was cancelled, and failed with the error that came where no cancellation
/// explains it. It does not move any more, and nothing else about it has changed.
pub proof fn sent_transfer_is_looked_up_as_it_ended(
    manager: crate::server::remote_manager::ManagerView,
    remote_uuid: Seq<char>,
    uuid: Seq<char>,
    result: Result<bool, TransferError>,
    cancelled: bool,
)
    requires
        manager.transfer(remote_uuid, uuid) is Some,
    ensures
        manager.transfer_updated(
            remote_uuid,
            uuid,
            TransferUpdate::Finished(final_state_of(result, cancelled)),
        ) matches Some(after) && (after.transfer(remote_uuid, uuid) matches Some(ended) && {
            &&& result matches Ok(true) ==> ended.state is Completed
            &&& result matches Ok(false) ==> ended.state is Canceled
            &&& result matches Err(error) ==> if cancelled {
                ended.state is Canceled
            } else {
                ended.state == TransferState::Failed(error)
            }
            &&& ended.bytes_per_second == 0
            &&& ended.bytes_transferred == manager.transfer(
                remote_uuid,
                uuid,
            )->0.bytes_transferred
        }),
{
    crate::server::remote_manager::transfer_is_looked_up_in_its_state(
        manager,
        remote_uuid,
        uuid,
        final_state_of(result, cancelled),
    );
}

/// The path that a sender has last asked to open.
pub open spec fn opened_last(sources: Seq<Seq<char>>, told: Seq<Told>) -> Seq<char>
    decreases told.len(),
{
    if told.len() == 0 {
        Seq::empty()
    } else {
        match sent_after(sources, told.drop_last()).0.on_event(
            told.last().0,
            told.last().1,
        ).1.last() {
            SendEffectView::Open(path) => path,
            _ => opened_last(sources, told.drop_last()),
        }
    }
}

proof fn lemma_opened_path_is_held(sources: Seq<Seq<char>>, told: Seq<Told>)
    requires
        is_session(sources, told),
    ensures
        ({
            let sender = sent_after(sources, told).0;
            &&& sender.wf()
            &&& in_file(sender.phase) ==> sender.relative_path == relative_path(
                opened_last(sources, told),
                sender.base,
            )
        }),
    decreases told.len(),
{
    if told.len() > 0 {
        let earlier = told.drop_last();
        lemma_opened_path_is_held(sources, earlier);
        let before = sent_after(sources, earlier).0;
        let (event, cancelled) = told.last();
        every_send_step_leads_on(before, event, cancelled);
        let (after, effects) = before.on_event(event, cancelled);
        if let SendEffectView::Open(path) = effects.last() {
            opened_file_has_its_own_path_and_time(before, event, cancelled, path);
        }
    }
}

/// The bytes of a file go out under its own path: whatever a sender has been told, a piece of a file
/// bears the path of the file that was last opened, below the directory that the current source lies
/// in, and holds what has just been read from it.
pub proof fn bytes_go_out_under_the_path_they_were_read_from(
    sources: Seq<Seq<char>>,
    told: Seq<Told>,
    i: int,
)
    requires
        told.len() > 0,
        is_session(sources, told),
    ensures
        ({
            let earlier = told.drop_last();
            let before = sent_after(sources, earlier).0;
            let effects = before.on_event(told.last().0, told.last().1).1;
            0 <= i < effects.len() ==> (effects[i] matches SendEffectView::Send(chunk)
                ==> chunk.file_type == FILE_TYPE_FILE ==> {
                &&& told.last().0 == SendEventView::Read(chunk.chunk)
                &&& crate::platform::parent_of(sources[before.begun - 1]) matches Some(base)
                    && match crate::platform::stripped_path(opened_last(sources, earlier), base) {
                    Some(rest) => chunk.relative_path == rest,
                    None => chunk.relative_path == opened_last(sources, earlier),
                }
            })
        }),
{
    let earlier = told.drop_last();
    lemma_opened_path_is_held(sources, earlier);
    lemma_session_keeps_up(sources, earlier);
    lemma_sources_stay(sources, earlier);
}

} // verus!
