//! Receiving a transfer.
use crate::platform::{path_join, path_parent, path_separator, path_starts_with};
use crate::proto::{FileChunk, FileChunkView, FILE_TYPE_DIRECTORY, FILE_TYPE_SYMLINK};
use crate::server::relative_name::is_outward;
use crate::text::{contains_double_dot, same_text};
use crate::types::transfer::{IoErrorKind, TransferError, TransferState, TransferUpdate};
use std::collections::VecDeque;
use vstd::prelude::*;

verus! {

/// The samples that an average is taken over.
pub const SPEED_WINDOW: usize = 30;

/// The sum of some samples.
pub open spec fn sum(samples: Seq<u64>) -> nat
    decreases samples.len(),
{
    if samples.len() == 0 {
        0
    } else {
        sum(samples.drop_last()) + samples.last() as nat
    }
}

/// What a [`MovingAverage`] holds: the latest samples, oldest first.
#[verifier::ext_equal]
pub struct MovingAverageView {
    pub samples: Seq<u64>,
    pub window: usize,
}

impl MovingAverageView {
    /// The samples that stay when one more comes: all but the oldest of a full window.
    pub open spec fn kept(self) -> Seq<u64> {
        if self.samples.len() == self.window && self.samples.len() > 0 {
            self.samples.drop_first()
        } else {
            self.samples
        }
    }

    /// After one more sample.
    pub open spec fn pushed(self, value: u64) -> MovingAverageView {
        MovingAverageView { samples: self.kept().push(value), ..self }
    }

    /// Whether one more sample keeps the sum within its type.
    pub open spec fn fits(self, value: u64) -> bool {
        sum(self.pushed(value).samples) <= u64::MAX
    }

    /// The average, rounded down.
    pub open spec fn average(self) -> nat {
        sum(self.samples) / self.samples.len()
    }
}

/// The average of the latest samples.
#[derive(Debug)]
pub struct MovingAverage {
    samples: VecDeque<u64>,
    window: usize,
}

impl View for MovingAverage {
    type V = MovingAverageView;

    closed spec fn view(&self) -> MovingAverageView {
        MovingAverageView { samples: self.samples@, window: self.window }
    }
}

impl MovingAverage {
    /// An average over the given number of samples, of which there are none yet.
    pub fn new(window: usize) -> (r: Self)
        requires
            window * 8 <= isize::MAX,
        ensures
            r@ == (MovingAverageView { samples: Seq::empty(), window }),
    {
        MovingAverage { samples: VecDeque::with_capacity(window), window }
    }

    /// Whether one more sample keeps the sum within its type.
    pub fn can_take(&self, value: u64) -> (r: bool)
        ensures
            r == self@.fits(value),
    {
        let first: usize = if self.samples.len() == self.window && self.samples.len() > 0 {
            1
        } else {
            0
        };
        let ghost kept = self@.kept();
        let ghost pushed = kept.push(value);
        assert(kept =~= self@.samples.skip(first as int));
        assert(pushed.drop_last() =~= kept);
        assert(kept.take(0) =~= Seq::<u64>::empty());
        let mut total: u64 = value;
        for i in first..self.samples.len()
            invariant
                first <= self@.samples.len(),
                kept == self@.samples.skip(first as int),
                sum(pushed) == sum(kept) + value,
                pushed == self@.pushed(value).samples,
                total == sum(kept.take(i - first)) + value,
        {
            proof {
                lemma_sum_prefix(kept, i - first + 1);
                assert(kept.take(i - first + 1).drop_last() =~= kept.take(i - first));
            }
            match total.checked_add(self.samples[i]) {
                Some(more) => {
                    total = more;
                },
                None => {
                    return false;
                },
            }
        }
        assert(kept.take(kept.len() as int) =~= kept);
        true
    }

    /// Takes one more sample in, and gives the average that results.
    pub fn push(&mut self, value: u64) -> (r: u64)
        requires
            old(self)@.fits(value),
        ensures
            final(self)@ == old(self)@.pushed(value),
            r == final(self)@.average(),
    {
        if self.samples.len() == self.window {
            let _ = self.samples.pop_front();
        }
        self.samples.push_back(value);
        assert(self@.samples =~= old(self)@.pushed(value).samples);
        let mut total: u64 = 0;
        for i in 0..self.samples.len()
            invariant
                total == sum(self@.samples.take(i as int)),
                sum(self@.samples) <= u64::MAX,
        {
            proof {
                lemma_sum_prefix(self@.samples, i + 1);
                assert(self@.samples.take(i + 1).drop_last() =~= self@.samples.take(i as int));
            }
            total = total + self.samples[i];
        }
        assert(self@.samples.take(self@.samples.len() as int) =~= self@.samples);
        total / self.samples.len() as u64
    }
}

proof fn lemma_sum_prefix(samples: Seq<u64>, i: int)
    requires
        0 <= i <= samples.len(),
    ensures
        sum(samples.take(i)) <= sum(samples),
    decreases samples.len(),
{
    if i == samples.len() {
        assert(samples.take(i) =~= samples);
    } else {
        assert(samples.drop_last().take(i) =~= samples.take(i));
        lemma_sum_prefix(samples.drop_last(), i);
    }
}

proof fn lemma_sum_bounds(samples: Seq<u64>, low: u64, high: u64)
    requires
        forall|i: int| 0 <= i < samples.len() ==> low <= #[trigger] samples[i] <= high,
    ensures
        low * samples.len() <= sum(samples) <= high * samples.len(),
    decreases samples.len(),
{
    if samples.len() > 0 {
        lemma_sum_bounds(samples.drop_last(), low, high);
        assert(low * samples.len() == low * (samples.len() - 1) + low) by (nonlinear_arith);
        assert(high * samples.len() == high * (samples.len() - 1) + high) by (nonlinear_arith);
    }
}

/// A window that holds at least one sample is never overfilled, and the newest sample is always
/// in it.
pub proof fn window_is_kept(average: MovingAverageView, value: u64)
    requires
        0 < average.window,
        average.samples.len() <= average.window,
    ensures
        average.pushed(value).samples.len() <= average.window,
        average.pushed(value).samples.last() == value,
        average.pushed(value).window == average.window,
{
}

/// The average lies between the least and the greatest of the samples.
pub proof fn average_is_between(average: MovingAverageView, low: u64, high: u64)
    requires
        average.samples.len() > 0,
        forall|i: int|
            0 <= i < average.samples.len() ==> low <= #[trigger] average.samples[i] <= high,
    ensures
        low <= average.average() <= high,
{
    let n = average.samples.len();
    let total = sum(average.samples);
    lemma_sum_bounds(average.samples, low, high);
    assert(low <= total / n <= high) by (nonlinear_arith)
        requires
            n > 0,
            low * n <= total <= high * n,
    ;
}

/// Whether a character may not stand in a file name everywhere.
pub open spec fn is_forbidden(c: char) -> bool {
    c == '\\' || c == '<' || c == '>' || c == '*' || c == '|' || c == '?' || c == ':' || c == '"'
}

/// A name with every forbidden character replaced.
pub open spec fn sanitized(name: Seq<char>) -> Seq<char> {
    name.map_values(
        |c: char|
            if is_forbidden(c) {
                '_'
            } else {
                c
            },
    )
}

/// Replaces the characters that may not stand in a file name everywhere.
pub fn sanitize_path_component(name: &str) -> (r: String)
    ensures
        r@ == sanitized(name@),
{
    let mut clean = String::new();
    for c in it: name.chars()
        invariant
            it.seq() == name@,
            clean@ == sanitized(name@.take(it.index())),
    {
        proof {
            assert(sanitized(name@.take(it.index() + 1)) =~= sanitized(
                name@.take(it.index()),
            ).push(
                if is_forbidden(c) {
                    '_'
                } else {
                    c
                },
            ));
        }
        if c == '\\' || c == '<' || c == '>' || c == '*' || c == '|' || c == '?' || c == ':' || c
            == '"' {
            clean.push('_');
        } else {
            clean.push(c);
        }
    }
    assert(name@.take(name@.len() as int) =~= name@);
    clean
}

/// A sanitized name holds no forbidden character, is as long as the name, and is not changed by
/// sanitizing it again.
pub proof fn sanitizing_is_final(name: Seq<char>)
    ensures
        forall|i: int| 0 <= i < name.len() ==> !is_forbidden(#[trigger] sanitized(name)[i]),
        sanitized(name).len() == name.len(),
        sanitized(sanitized(name)) == sanitized(name),
{
    assert(sanitized(sanitized(name)) =~= sanitized(name));
}

/// What a receiver is doing.
#[derive(Debug)]
pub enum ReceivePhase {
    /// Waiting for the next piece
    Waiting,
    /// Waiting for a file to be created, with the bytes to write to it
    Creating(Vec<u8>),
    /// Waiting for the given number of bytes to be written
    Writing(u64),
    /// Done
    Stopped,
}

/// What a [`ReceivePhase`] says.
#[verifier::ext_equal]
pub enum ReceivePhaseView {
    Waiting,
    Creating(Seq<u8>),
    Writing(u64),
    Stopped,
}

impl View for ReceivePhase {
    type V = ReceivePhaseView;

    open spec fn view(&self) -> ReceivePhaseView {
        match self {
            ReceivePhase::Waiting => ReceivePhaseView::Waiting,
            ReceivePhase::Creating(data) => ReceivePhaseView::Creating(data@),
            ReceivePhase::Writing(len) => ReceivePhaseView::Writing(*len),
            ReceivePhase::Stopped => ReceivePhaseView::Stopped,
        }
    }
}

/// What a receiver is told.
#[derive(Debug)]
pub enum ReceiveEvent {
    /// The transfer has been cancelled
    Cancelled,
    /// A piece has come
    Chunk(FileChunk),
    /// There are no more pieces
    EndOfStream,
    /// The connection has failed
    StreamFailed,
    /// The file has been created
    FileCreated,
    /// The file could not be created
    FileNotCreated(IoErrorKind),
    /// The bytes have been written, at the given speed
    Written { bytes_per_second: u64 },
    /// The bytes could not be written
    WriteFailed,
}

/// What a receiver wants done, in order.
#[derive(Debug)]
pub enum ReceiveEffect {
    /// Flush and close the open file
    CloseFile,
    /// Create a directory and those above it, if that is possible
    CreateDirectory(String),
    /// Create a file and open it, and tell how that went
    CreateFile(String),
    /// Write to the open file, and tell how that went
    Write(Vec<u8>),
    /// Change the transfer
    Update(TransferUpdate),
    /// Wait for the next piece, and tell what comes
    NextMessage,
    /// Do nothing more
    Stop,
}

/// What a [`ReceiveEffect`] says.
#[verifier::ext_equal]
pub enum ReceiveEffectView {
    CloseFile,
    CreateDirectory(Seq<char>),
    CreateFile(Seq<char>),
    Write(Seq<u8>),
    Update(TransferUpdate),
    NextMessage,
    Stop,
}

impl View for ReceiveEffect {
    type V = ReceiveEffectView;

    open spec fn view(&self) -> ReceiveEffectView {
        match self {
            ReceiveEffect::CloseFile => ReceiveEffectView::CloseFile,
            ReceiveEffect::CreateDirectory(path) => ReceiveEffectView::CreateDirectory(path@),
            ReceiveEffect::CreateFile(path) => ReceiveEffectView::CreateFile(path@),
            ReceiveEffect::Write(data) => ReceiveEffectView::Write(data@),
            ReceiveEffect::Update(update) => ReceiveEffectView::Update(*update),
            ReceiveEffect::NextMessage => ReceiveEffectView::NextMessage,
            ReceiveEffect::Stop => ReceiveEffectView::Stop,
        }
    }
}

/// What a list of effects says.
pub open spec fn effect_views(effects: Seq<ReceiveEffect>) -> Seq<ReceiveEffectView> {
    effects.map_values(|e: ReceiveEffect| e@)
}

/// What a [`ReceiveState`] holds.
#[verifier::ext_equal]
pub struct ReceiveView {
    pub current_path: Option<Seq<char>>,
    pub file_open: bool,
    pub phase: ReceivePhaseView,
    pub speed: MovingAverageView,
}

/// A receiver that has received nothing yet.
pub open spec fn new_receiver() -> ReceiveView {
    ReceiveView {
        current_path: None,
        file_open: false,
        phase: ReceivePhaseView::Waiting,
        speed: MovingAverageView { samples: Seq::empty(), window: SPEED_WINDOW },
    }
}

/// Where a piece of a stream belongs, given the destination.
pub open spec fn target_path(destination: Seq<char>, relative_path: Seq<char>) -> Seq<char> {
    crate::platform::joined_path(destination, sanitized(relative_path))
}

/// Where a piece belongs.
#[derive(Debug)]
pub struct ChunkPlace {
    /// Its path with every forbidden character replaced
    pub name: String,
    /// The path to write to
    pub target: String,
    /// Whether it leads out of the destination
    pub outward: bool,
    /// Whether the path to write to starts with the destination
    pub inside: bool,
    /// The directory that it lies in, if it lies in one
    pub parent: Option<String>,
}

/// What a [`ChunkPlace`] says.
#[verifier::ext_equal]
pub struct ChunkPlaceView {
    pub name: Seq<char>,
    pub target: Seq<char>,
    pub outward: bool,
    pub inside: bool,
    pub parent: Option<Seq<char>>,
}

impl View for ChunkPlace {
    type V = ChunkPlaceView;

    open spec fn view(&self) -> ChunkPlaceView {
        ChunkPlaceView {
            name: self.name@,
            target: self.target@,
            outward: self.outward,
            inside: self.inside,
            parent: crate::text::optional_text(self.parent),
        }
    }
}

/// Where a piece with a path belongs, given the destination.
pub open spec fn place_of(destination: Seq<char>, relative_path: Seq<char>) -> ChunkPlaceView {
    let target = target_path(destination, relative_path);
    ChunkPlaceView {
        name: sanitized(relative_path),
        target,
        outward: is_outside(destination, relative_path),
        inside: crate::platform::has_path_prefix(target, destination),
        parent: crate::platform::parent_of(target),
    }
}

/// Finds out where a piece with a path belongs.
pub fn place_chunk(destination: &str, relative_path: &str) -> (r: ChunkPlace)
    ensures
        r@ == place_of(destination@, relative_path@),
        path_facts(destination@, relative_path@),
{
    let name = sanitize_path_component(relative_path);
    let target = path_join(destination, &name);
    proof {
        sanitizing_is_final(relative_path@);
        if name@.contains('\\') {
            let i = choose|i: int| 0 <= i < name@.len() && name@[i] == '\\';
            assert(is_forbidden(sanitized(relative_path@)[i]));
        }
        if name@.contains(':') {
            let i = choose|i: int| 0 <= i < name@.len() && name@[i] == ':';
            assert(is_forbidden(sanitized(relative_path@)[i]));
        }
    }
    let outward = is_outward(destination, &name, &target, path_separator('\\'));
    let inside = path_starts_with(&target, destination);
    let parent = path_parent(&target);
    proof {
        if crate::server::relative_name::stays_below(name@) {
            crate::server::relative_name::name_that_stays_below_does_not_leave(
                destination@,
                name@,
                target@,
                crate::platform::separates_path('\\'),
            );
        }
    }
    ChunkPlace { name, target, outward, inside, parent }
}

/// What is known of the place of a piece with a path: one that stays below the destination all the
/// way is not refused, unless it holds two full stops side by side and the destination starts with
/// two separators; and one that starts at a root takes the place of the destination, where
/// backslashes do not separate.
pub open spec fn path_facts(destination: Seq<char>, relative_path: Seq<char>) -> bool {
    let name = sanitized(relative_path);
    &&& crate::server::relative_name::stays_below(name) && (!crate::text::has_double_dot(name)
        || !crate::platform::has_double_root(destination)) ==> !is_unsafe(
        destination,
        relative_path,
    )
    &&& crate::server::relative_name::is_rooted_name(name) && !crate::platform::separates_path(
        '\\',
    ) ==> target_path(destination, relative_path) == name
}

/// Whether a piece's path leads out of the destination, once all that goes up has been resolved.
pub open spec fn is_outside(destination: Seq<char>, relative_path: Seq<char>) -> bool {
    crate::server::relative_name::leaves_destination(
        destination,
        sanitized(relative_path),
        target_path(destination, relative_path),
        crate::platform::separates_path('\\'),
    )
}

/// Whether a piece's path is refused: it leads out of the destination, or it holds two full stops
/// side by side and the place that goes with it is not at a path that starts with the destination.
pub open spec fn is_unsafe(destination: Seq<char>, relative_path: Seq<char>) -> bool {
    ||| is_outside(destination, relative_path)
    ||| crate::text::has_double_dot(sanitized(relative_path)) && !crate::platform::has_path_prefix(
        target_path(destination, relative_path),
        destination,
    )
}

/// Whether something is created on the disk.
pub open spec fn creates(effect: ReceiveEffectView) -> bool {
    effect is CreateFile || effect is CreateDirectory
}

/// The state of a transfer whose file could not be created.
pub open spec fn creation_failure(kind: IoErrorKind) -> TransferError {
    if kind == IoErrorKind::StorageFull {
        TransferError::StorageFull
    } else {
        TransferError::IoError(kind)
    }
}

/// Creating the directory that a path lies in, if it lies in one.
pub open spec fn parent_effects(parent: Option<Seq<char>>) -> Seq<ReceiveEffectView> {
    match parent {
        Some(directory) => seq![ReceiveEffectView::CreateDirectory(directory)],
        None => Seq::empty(),
    }
}

impl ReceiveView {
    /// Closing the file that is open, if one is.
    pub open spec fn closing(self) -> Seq<ReceiveEffectView> {
        if self.file_open {
            seq![ReceiveEffectView::CloseFile]
        } else {
            Seq::empty()
        }
    }

    /// With no file open.
    pub open spec fn closed(self) -> ReceiveView {
        ReceiveView { current_path: None, file_open: false, ..self }
    }

    /// Done with the transfer.
    pub open spec fn stopped(self) -> ReceiveView {
        ReceiveView { phase: ReceivePhaseView::Stopped, ..self }
    }

    /// Whether the receiver is waiting for what it is told, and can count it.
    pub open spec fn expects(self, event: ReceiveEvent) -> bool {
        match event {
            ReceiveEvent::Cancelled
            | ReceiveEvent::Chunk(_)
            | ReceiveEvent::EndOfStream
            | ReceiveEvent::StreamFailed => self.phase is Waiting,
            ReceiveEvent::FileCreated | ReceiveEvent::FileNotCreated(_) => self.phase is Creating,
            ReceiveEvent::Written { bytes_per_second } => self.phase is Writing && self.speed.fits(
                bytes_per_second,
            ),
            ReceiveEvent::WriteFailed => self.phase is Writing,
        }
    }

    /// What comes of a piece that belongs in a place: the receiver after it, and what is to be
    /// done.
    pub open spec fn on_placed(self, place: ChunkPlaceView, chunk: FileChunkView) -> (
        ReceiveView,
        Seq<ReceiveEffectView>,
    ) {
        if chunk.file_type == FILE_TYPE_SYMLINK {
            (self, seq![ReceiveEffectView::NextMessage])
        } else if place.outward || (crate::text::has_double_dot(place.name) && !place.inside) {
            (
                self.stopped(),
                seq![
                    ReceiveEffectView::Update(
                        TransferUpdate::State(TransferState::Failed(TransferError::UnsafePath)),
                    ),
                    ReceiveEffectView::Stop,
                ],
            )
        } else if self.current_path != Some(place.name) {
            let opened = ReceiveView { current_path: Some(place.name), file_open: false, ..self };
            if chunk.file_type == FILE_TYPE_DIRECTORY {
                (
                    opened,
                    self.closing() + seq![
                        ReceiveEffectView::CreateDirectory(place.target),
                        ReceiveEffectView::NextMessage,
                    ],
                )
            } else {
                (
                    ReceiveView { phase: ReceivePhaseView::Creating(chunk.chunk), ..opened },
                    self.closing() + parent_effects(place.parent) + seq![
                        ReceiveEffectView::CreateFile(place.target),
                    ],
                )
            }
        } else if self.file_open {
            (
                ReceiveView { phase: ReceivePhaseView::Writing(chunk.chunk.len() as u64), ..self },
                seq![ReceiveEffectView::Write(chunk.chunk)],
            )
        } else {
            (self, seq![ReceiveEffectView::NextMessage])
        }
    }

    /// What comes of a piece, given the destination.
    pub open spec fn on_chunk(self, destination: Seq<char>, chunk: FileChunkView) -> (
        ReceiveView,
        Seq<ReceiveEffectView>,
    ) {
        self.on_placed(place_of(destination, chunk.relative_path), chunk)
    }

    /// What comes of what the receiver is told: the receiver after it, and what is to be done.
    pub open spec fn on_event(self, destination: Seq<char>, event: ReceiveEvent) -> (
        ReceiveView,
        Seq<ReceiveEffectView>,
    ) {
        match event {
            ReceiveEvent::Cancelled => (
                self.closed().stopped(),
                self.closing() + seq![
                    ReceiveEffectView::Update(TransferUpdate::State(TransferState::Canceled)),
                    ReceiveEffectView::Stop,
                ],
            ),
            ReceiveEvent::Chunk(chunk) => self.on_chunk(destination, chunk@),
            ReceiveEvent::EndOfStream => (
                self.closed().stopped(),
                self.closing() + seq![
                    ReceiveEffectView::Update(TransferUpdate::Finished(TransferState::Completed)),
                    ReceiveEffectView::Stop,
                ],
            ),
            ReceiveEvent::StreamFailed => (
                self.closed().stopped(),
                self.closing() + seq![
                    ReceiveEffectView::Update(
                        TransferUpdate::State(TransferState::Failed(TransferError::ConnectionLost)),
                    ),
                    ReceiveEffectView::Stop,
                ],
            ),
            ReceiveEvent::FileCreated => {
                let data = self.phase->Creating_0;
                (
                    ReceiveView {
                        file_open: true,
                        phase: ReceivePhaseView::Writing(data.len() as u64),
                        ..self
                    },
                    seq![ReceiveEffectView::Write(data)],
                )
            },
            ReceiveEvent::FileNotCreated(kind) => (
                self.stopped(),
                seq![
                    ReceiveEffectView::Update(
                        TransferUpdate::State(TransferState::Failed(creation_failure(kind))),
                    ),
                    ReceiveEffectView::Stop,
                ],
            ),
            ReceiveEvent::Written { bytes_per_second } => {
                let speed = self.speed.pushed(bytes_per_second);
                (
                    ReceiveView { phase: ReceivePhaseView::Waiting, speed, ..self },
                    seq![
                        ReceiveEffectView::Update(
                            TransferUpdate::Progress {
                                bytes: self.phase->Writing_0,
                                bytes_per_second: speed.average() as u64,
                            },
                        ),
                        ReceiveEffectView::NextMessage,
                    ],
                )
            },
            ReceiveEvent::WriteFailed => (
                self.stopped(),
                seq![
                    ReceiveEffectView::Update(
                        TransferUpdate::State(TransferState::Failed(TransferError::StorageFull)),
                    ),
                    ReceiveEffectView::Stop,
                ],
            ),
        }
    }
}

/// A transfer that is being received.
#[derive(Debug)]
pub struct ReceiveState {
    current_path: Option<String>,
    file_open: bool,
    phase: ReceivePhase,
    speed: MovingAverage,
}

impl View for ReceiveState {
    type V = ReceiveView;

    closed spec fn view(&self) -> ReceiveView {
        ReceiveView {
            current_path: crate::text::optional_text(self.current_path),
            file_open: self.file_open,
            phase: self.phase@,
            speed: self.speed@,
        }
    }
}

fn is_current(current_path: &Option<String>, name: &str) -> (r: bool)
    ensures
        r == (crate::text::optional_text(*current_path) == Some(name@)),
{
    match current_path {
        Some(path) => same_text(path, name),
        None => false,
    }
}

impl ReceiveState {
    /// A receiver that has received nothing yet.
    pub fn new() -> (r: Self)
        ensures
            r@ == new_receiver(),
    {
        ReceiveState {
            current_path: None,
            file_open: false,
            phase: ReceivePhase::Waiting,
            speed: MovingAverage::new(SPEED_WINDOW),
        }
    }

    /// Whether a speed can be counted in.
    pub fn can_count(&self, bytes_per_second: u64) -> (r: bool)
        ensures
            r == self@.speed.fits(bytes_per_second),
    {
        self.speed.can_take(bytes_per_second)
    }

    /// Forgets the file that is open, and asks for it to be closed.
    fn close_current_file(&mut self, effects: &mut Vec<ReceiveEffect>)
        ensures
            final(self)@ == old(self)@.closed(),
            effect_views(final(effects)@) == effect_views(old(effects)@) + old(self)@.closing(),
    {
        if self.file_open {
            effects.push(ReceiveEffect::CloseFile);
        }
        self.file_open = false;
        self.current_path = None;
        assert(effect_views(effects@) =~= effect_views(old(effects)@) + old(self)@.closing());
    }

    /// Takes in a piece that belongs in a place, and says what is to be done.
    pub fn receive_chunk(&mut self, place: ChunkPlace, chunk: FileChunk) -> (r: Vec<ReceiveEffect>)
        requires
            old(self)@.phase is Waiting,
        ensures
            (final(self)@, effect_views(r@)) == old(self)@.on_placed(place@, chunk@),
    {
        let mut effects: Vec<ReceiveEffect> = Vec::new();
        let ghost expected = self@.on_placed(place@, chunk@);
        if chunk.file_type == FILE_TYPE_SYMLINK {
            effects.push(ReceiveEffect::NextMessage);
            assert(effect_views(effects@) =~= expected.1);
            return effects;
        }
        if place.outward || (contains_double_dot(&place.name) && !place.inside) {
            self.phase = ReceivePhase::Stopped;
            effects.push(
                ReceiveEffect::Update(
                    TransferUpdate::State(TransferState::Failed(TransferError::UnsafePath)),
                ),
            );
            effects.push(ReceiveEffect::Stop);
            assert(effect_views(effects@) =~= expected.1);
            return effects;
        }
        if !is_current(&self.current_path, &place.name) {
            self.close_current_file(&mut effects);
            self.current_path = Some(place.name);
            if chunk.file_type == FILE_TYPE_DIRECTORY {
                effects.push(ReceiveEffect::CreateDirectory(place.target));
                effects.push(ReceiveEffect::NextMessage);
                assert(effect_views(effects@) =~= expected.1);
                return effects;
            }
            if let Some(parent) = place.parent {
                effects.push(ReceiveEffect::CreateDirectory(parent));
            }
            effects.push(ReceiveEffect::CreateFile(place.target));
            self.phase = ReceivePhase::Creating(chunk.chunk);
            assert(effect_views(effects@) =~= expected.1);
            return effects;
        }
        if self.file_open {
            self.phase = ReceivePhase::Writing(chunk.chunk.len() as u64);
            effects.push(ReceiveEffect::Write(chunk.chunk));
        } else {
            effects.push(ReceiveEffect::NextMessage);
        }
        assert(effect_views(effects@) =~= expected.1);
        effects
    }

    /// Takes in what has happened, and says what is to be done. Files and directories are created
    /// only for a piece whose path does not lead out of the destination.
    pub fn step(&mut self, destination: &str, event: ReceiveEvent) -> (r: Vec<ReceiveEffect>)
        requires
            old(self)@.expects(event),
        ensures
            (final(self)@, effect_views(r@)) == old(self)@.on_event(destination@, event),
            forall|i: int|
                0 <= i < r@.len() && creates((#[trigger] r@[i])@) ==> (
                event matches ReceiveEvent::Chunk(chunk) && !is_outside(
                    destination@,
                    chunk@.relative_path,
                ) && !is_unsafe(destination@, chunk@.relative_path)),
            event matches ReceiveEvent::Chunk(chunk) ==> path_facts(
                destination@,
                chunk@.relative_path,
            ),
    {
        let mut effects: Vec<ReceiveEffect> = Vec::new();
        let ghost expected = self@.on_event(destination@, event);
        match event {
            ReceiveEvent::Chunk(chunk) => {
                let place = place_chunk(destination, &chunk.relative_path);
                let r = self.receive_chunk(place, chunk);
                proof {
                    assert forall|i: int| 0 <= i < r@.len() && creates(
                        (#[trigger] r@[i])@,
                    ) implies !is_unsafe(destination@, chunk@.relative_path) by {
                        assert(effect_views(r@)[i] == r@[i]@);
                        assert(effect_views(r@) == expected.1);
                        if is_unsafe(destination@, chunk@.relative_path) {
                            assert(expected.1.len() <= 2);
                            assert(i == 0 || i == 1);
                        }
                    }
                }
                return r;
            },
            ReceiveEvent::Cancelled => {
                self.close_current_file(&mut effects);
                self.phase = ReceivePhase::Stopped;
                effects.push(
                    ReceiveEffect::Update(TransferUpdate::State(TransferState::Canceled)),
                );
                effects.push(ReceiveEffect::Stop);
            },
            ReceiveEvent::EndOfStream => {
                self.close_current_file(&mut effects);
                self.phase = ReceivePhase::Stopped;
                effects.push(
                    ReceiveEffect::Update(TransferUpdate::Finished(TransferState::Completed)),
                );
                effects.push(ReceiveEffect::Stop);
            },
            ReceiveEvent::StreamFailed => {
                self.close_current_file(&mut effects);
                self.phase = ReceivePhase::Stopped;
                effects.push(
                    ReceiveEffect::Update(
                        TransferUpdate::State(TransferState::Failed(TransferError::ConnectionLost)),
                    ),
                );
                effects.push(ReceiveEffect::Stop);
            },
            ReceiveEvent::FileCreated => {
                let mut phase = ReceivePhase::Waiting;
                std::mem::swap(&mut phase, &mut self.phase);
                if let ReceivePhase::Creating(data) = phase {
                    self.file_open = true;
                    self.phase = ReceivePhase::Writing(data.len() as u64);
                    effects.push(ReceiveEffect::Write(data));
                }
            },
            ReceiveEvent::FileNotCreated(kind) => {
                self.phase = ReceivePhase::Stopped;
                let error = if kind == IoErrorKind::StorageFull {
                    TransferError::StorageFull
                } else {
                    TransferError::IoError(kind)
                };
                effects.push(
                    ReceiveEffect::Update(TransferUpdate::State(TransferState::Failed(error))),
                );
                effects.push(ReceiveEffect::Stop);
            },
            ReceiveEvent::Written { bytes_per_second } => {
                if let ReceivePhase::Writing(bytes) = self.phase {
                    let average = self.speed.push(bytes_per_second);
                    self.phase = ReceivePhase::Waiting;
                    effects.push(
                        ReceiveEffect::Update(
                            TransferUpdate::Progress { bytes, bytes_per_second: average },
                        ),
                    );
                    effects.push(ReceiveEffect::NextMessage);
                }
            },
            ReceiveEvent::WriteFailed => {
                self.phase = ReceivePhase::Stopped;
                effects.push(
                    ReceiveEffect::Update(
                        TransferUpdate::State(TransferState::Failed(TransferError::StorageFull)),
                    ),
                );
                effects.push(ReceiveEffect::Stop);
            },
        }
        assert(effect_views(effects@) =~= expected.1);
        assert forall|i: int| 0 <= i < effects@.len() implies !creates(
            (#[trigger] effects@[i])@,
        ) by {
            assert(effect_views(effects@)[i] == effects@[i]@);
        }
        effects
    }
}

/// Files on a disk, by their paths, the directories that have been asked for, and the file that
/// is open.
#[verifier::ext_equal]
pub struct DiskView {
    pub files: Map<Seq<char>, Seq<u8>>,
    pub directories: Set<Seq<char>>,
    pub open: Option<Seq<char>>,
}

impl DiskView {
    /// After one thing has been done.
    pub open spec fn after(self, effect: ReceiveEffectView) -> DiskView {
        match effect {
            ReceiveEffectView::CloseFile => DiskView { open: None, ..self },
            ReceiveEffectView::CreateFile(path) => DiskView {
                files: self.files.insert(path, Seq::empty()),
                open: Some(path),
                ..self
            },
            ReceiveEffectView::CreateDirectory(path) => DiskView {
                directories: self.directories.insert(path),
                ..self
            },
            ReceiveEffectView::Write(data) => match self.open {
                Some(path) => DiskView {
                    files: self.files.insert(path, self.files[path] + data),
                    ..self
                },
                None => self,
            },
            _ => self,
        }
    }

    /// After some things have been done in order.
    pub open spec fn after_all(self, effects: Seq<ReceiveEffectView>) -> DiskView
        decreases effects.len(),
    {
        if effects.len() == 0 {
            self
        } else {
            self.after_all(effects.drop_last()).after(effects.last())
        }
    }
}

/// A piece is received, and all that it asks for succeeds.
pub open spec fn delivered(
    receiver: ReceiveView,
    disk: DiskView,
    destination: Seq<char>,
    chunk: FileChunkView,
    rate: u64,
) -> (ReceiveView, DiskView) {
    let (first, first_effects) = receiver.on_chunk(destination, chunk);
    let first_disk = disk.after_all(first_effects);
    let (second, second_disk) = if first.phase is Creating {
        let (next, effects) = first.on_event(destination, ReceiveEvent::FileCreated);
        (next, first_disk.after_all(effects))
    } else {
        (first, first_disk)
    };
    if second.phase is Writing {
        let (next, effects) = second.on_event(
            destination,
            ReceiveEvent::Written { bytes_per_second: rate },
        );
        (next, second_disk.after_all(effects))
    } else {
        (second, second_disk)
    }
}

/// Some pieces are received in order, and all that they ask for succeeds.
pub open spec fn all_delivered(
    receiver: ReceiveView,
    disk: DiskView,
    destination: Seq<char>,
    chunks: Seq<FileChunkView>,
    rates: Seq<u64>,
) -> (ReceiveView, DiskView)
    decreases chunks.len(),
{
    if chunks.len() == 0 {
        (receiver, disk)
    } else {
        let (before, before_disk) = all_delivered(
            receiver,
            disk,
            destination,
            chunks.drop_last(),
            rates.drop_last(),
        );
        delivered(before, before_disk, destination, chunks.last(), rates.last())
    }
}

/// Some directories and the one that a path lies in, if it lies in one.
pub open spec fn with_parent(directories: Set<Seq<char>>, path: Seq<char>) -> Set<Seq<char>> {
    match crate::platform::parent_of(path) {
        Some(parent) => directories.insert(parent),
        None => directories,
    }
}

/// The bytes in some pieces, one after the other.
pub open spec fn contents(chunks: Seq<FileChunkView>) -> Seq<u8>
    decreases chunks.len(),
{
    if chunks.len() == 0 {
        Seq::empty()
    } else {
        contents(chunks.drop_last()) + chunks.last().chunk
    }
}

/// Whether some pieces are those of one regular file.
pub open spec fn pieces_of(chunks: Seq<FileChunkView>, relative_path: Seq<char>) -> bool {
    forall|i: int|
        0 <= i < chunks.len() ==> {
            &&& (#[trigger] chunks[i]).relative_path == relative_path
            &&& chunks[i].file_type == crate::proto::FILE_TYPE_FILE
        }
}

proof fn lemma_after_one(disk: DiskView, effect: ReceiveEffectView)
    ensures
        disk.after_all(seq![effect]) == disk.after(effect),
{
    assert(seq![effect].drop_last() =~= Seq::<ReceiveEffectView>::empty());
    reveal_with_fuel(DiskView::after_all, 2);
}

proof fn lemma_after_more(
    disk: DiskView,
    first: Seq<ReceiveEffectView>,
    second: Seq<ReceiveEffectView>,
)
    ensures
        disk.after_all(first + second) == disk.after_all(first).after_all(second),
    decreases second.len(),
{
    if second.len() == 0 {
        assert(first + second =~= first);
    } else {
        assert((first + second).drop_last() =~= first + second.drop_last());
        lemma_after_more(disk, first, second.drop_last());
    }
}

/// The pieces of a file that are received one after the other make up the file: whatever the
/// receiver did before, and at whatever speed they come, they end up in one new file at the
/// place that goes with the path, with all their bytes in order, and no other file is touched.
/// The directory that the file lies in has been asked for, and no other.
pub proof fn received_file_is_whole(
    receiver: ReceiveView,
    disk: DiskView,
    destination: Seq<char>,
    relative_path: Seq<char>,
    chunks: Seq<FileChunkView>,
    rates: Seq<u64>,
)
    requires
        receiver.phase is Waiting,
        receiver.current_path != Some(sanitized(relative_path)),
        !is_unsafe(destination, relative_path),
        pieces_of(chunks, relative_path),
        0 < chunks.len() == rates.len(),
    ensures
        ({
            let (after, after_disk) = all_delivered(receiver, disk, destination, chunks, rates);
            let target = target_path(destination, relative_path);
            &&& after_disk.files == disk.files.insert(target, contents(chunks))
            &&& after_disk.directories == with_parent(disk.directories, target)
            &&& after_disk.open == Some(target)
            &&& after.phase is Waiting
            &&& after.current_path == Some(sanitized(relative_path))
            &&& after.file_open
        }),
    decreases chunks.len(),
{
    let target = target_path(destination, relative_path);
    let chunk = chunks.last();
    let rate = rates.last();
    if chunks.len() == 1 {
        assert(chunks.drop_last() =~= Seq::<FileChunkView>::empty());
        reveal_with_fuel(all_delivered, 2);
        reveal_with_fuel(contents, 2);
        let (first, first_effects) = receiver.on_chunk(destination, chunk);
        let create = seq![ReceiveEffectView::CreateFile(target)];
        let parent = parent_effects(crate::platform::parent_of(target));
        let prepare = receiver.closing() + parent;
        assert(first_effects == prepare + create);
        lemma_after_more(disk, prepare, create);
        lemma_after_one(disk.after_all(prepare), ReceiveEffectView::CreateFile(target));
        lemma_after_more(disk, receiver.closing(), parent);
        lemma_after_one(disk, ReceiveEffectView::CloseFile);
        let closed = disk.after_all(receiver.closing());
        assert(closed.files == disk.files);
        if let Some(directory) = crate::platform::parent_of(target) {
            lemma_after_one(closed, ReceiveEffectView::CreateDirectory(directory));
        }
        let created = disk.after_all(first_effects);
        assert(created.files == disk.files.insert(target, Seq::empty()));
        assert(created.directories == with_parent(disk.directories, target));
        lemma_after_one(created, ReceiveEffectView::Write(chunk.chunk));
        assert(Seq::<u8>::empty() + chunk.chunk =~= chunk.chunk);
        assert(created.files.insert(target, chunk.chunk) =~= disk.files.insert(
            target,
            chunk.chunk,
        ));
    } else {
        received_file_is_whole(
            receiver,
            disk,
            destination,
            relative_path,
            chunks.drop_last(),
            rates.drop_last(),
        );
        let (before, before_disk) = all_delivered(
            receiver,
            disk,
            destination,
            chunks.drop_last(),
            rates.drop_last(),
        );
        assert(chunks.last() == chunks[chunks.len() - 1]);
        lemma_after_one(before_disk, ReceiveEffectView::Write(chunk.chunk));
        assert(before_disk.files.insert(target, contents(chunks)) =~= disk.files.insert(
            target,
            contents(chunks),
        ));
    }
    let (second, second_disk) = if chunks.len() == 1 {
        let first = receiver.on_chunk(destination, chunk).0;
        (
            first.on_event(destination, ReceiveEvent::FileCreated).0,
            disk.after_all(receiver.on_chunk(destination, chunk).1).after_all(
                seq![ReceiveEffectView::Write(chunk.chunk)],
            ),
        )
    } else {
        let (before, before_disk) = all_delivered(
            receiver,
            disk,
            destination,
            chunks.drop_last(),
            rates.drop_last(),
        );
        (
            before.on_chunk(destination, chunk).0,
            before_disk.after_all(seq![ReceiveEffectView::Write(chunk.chunk)]),
        )
    };
    let (third, last_effects) = second.on_event(
        destination,
        ReceiveEvent::Written { bytes_per_second: rate },
    );
    assert(last_effects =~= seq![last_effects[0]] + seq![last_effects[1]]);
    lemma_after_more(second_disk, seq![last_effects[0]], seq![last_effects[1]]);
    lemma_after_one(second_disk, last_effects[0]);
    lemma_after_one(second_disk, last_effects[1]);
    assert(second_disk.after_all(last_effects) == second_disk);
    assert(all_delivered(receiver, disk, destination, chunks, rates) == (third, second_disk));
}

proof fn lemma_delivered_in_two_parts(
    receiver: ReceiveView,
    disk: DiskView,
    destination: Seq<char>,
    first: Seq<FileChunkView>,
    first_rates: Seq<u64>,
    second: Seq<FileChunkView>,
    second_rates: Seq<u64>,
)
    requires
        first.len() == first_rates.len(),
        second.len() == second_rates.len(),
    ensures
        ({
            let (between, between_disk) = all_delivered(
                receiver,
                disk,
                destination,
                first,
                first_rates,
            );
            all_delivered(receiver, disk, destination, first + second, first_rates + second_rates)
                == all_delivered(between, between_disk, destination, second, second_rates)
        }),
    decreases second.len(),
{
    if second.len() == 0 {
        assert(first + second =~= first);
        assert(first_rates + second_rates =~= first_rates);
    } else {
        assert((first + second).drop_last() =~= first + second.drop_last());
        assert((first_rates + second_rates).drop_last() =~= first_rates
            + second_rates.drop_last());
        lemma_delivered_in_two_parts(
            receiver,
            disk,
            destination,
            first,
            first_rates,
            second.drop_last(),
            second_rates.drop_last(),
        );
    }
}

/// Whether some pieces are all that there is of one entry: the pieces of a file that is not
/// empty, or the single piece of a directory.
pub open spec fn is_entry(chunks: Seq<FileChunkView>) -> bool {
    &&& chunks.len() > 0
    &&& pieces_of(chunks, chunks[0].relative_path) || (chunks.len() == 1 && chunks[0].file_type
        == FILE_TYPE_DIRECTORY)
}

/// The name under which an entry is kept.
pub open spec fn entry_name(chunks: Seq<FileChunkView>) -> Seq<char> {
    sanitized(chunks[0].relative_path)
}

/// All the pieces of some entries, one entry after the other.
pub open spec fn stream_of(entries: Seq<Seq<FileChunkView>>) -> Seq<FileChunkView>
    decreases entries.len(),
{
    if entries.len() == 0 {
        Seq::empty()
    } else {
        stream_of(entries.drop_last()) + entries.last()
    }
}

/// The files after some entries have been put in place, each file with all its bytes.
pub open spec fn files_with(
    files: Map<Seq<char>, Seq<u8>>,
    destination: Seq<char>,
    entries: Seq<Seq<FileChunkView>>,
) -> Map<Seq<char>, Seq<u8>>
    decreases entries.len(),
{
    if entries.len() == 0 {
        files
    } else {
        let before = files_with(files, destination, entries.drop_last());
        let entry = entries.last();
        if entry[0].file_type == FILE_TYPE_DIRECTORY {
            before
        } else {
            before.insert(target_path(destination, entry[0].relative_path), contents(entry))
        }
    }
}

/// The directories after some entries have been put in place: those of the entries, and those that
/// the files lie in.
pub open spec fn directories_with(
    directories: Set<Seq<char>>,
    destination: Seq<char>,
    entries: Seq<Seq<FileChunkView>>,
) -> Set<Seq<char>>
    decreases entries.len(),
{
    if entries.len() == 0 {
        directories
    } else {
        let before = directories_with(directories, destination, entries.drop_last());
        let entry = entries.last();
        let target = target_path(destination, entry[0].relative_path);
        if entry[0].file_type == FILE_TYPE_DIRECTORY {
            before.insert(target)
        } else {
            with_parent(before, target)
        }
    }
}

/// A stream of whole entries, no two in a row with the same name, ends up on the disk as those
/// entries: every file in its place with all its bytes, every directory of the stream and those
/// that the files lie in asked for, and nothing else changed.
pub proof fn received_stream_is_whole(
    receiver: ReceiveView,
    disk: DiskView,
    destination: Seq<char>,
    entries: Seq<Seq<FileChunkView>>,
    rates: Seq<u64>,
)
    requires
        receiver.phase is Waiting,
        forall|i: int|
            0 <= i < entries.len() ==> is_entry(#[trigger] entries[i]) && !is_unsafe(
                destination,
                entries[i][0].relative_path,
            ),
        entries.len() > 0 ==> receiver.current_path != Some(entry_name(entries[0])),
        forall|i: int, j: int|
            0 <= i && j == i + 1 && j < entries.len() ==> entry_name(#[trigger] entries[i])
                != entry_name(#[trigger] entries[j]),
        rates.len() == stream_of(entries).len(),
    ensures
        ({
            let (after, after_disk) = all_delivered(
                receiver,
                disk,
                destination,
                stream_of(entries),
                rates,
            );
            &&& after_disk.files == files_with(disk.files, destination, entries)
            &&& after_disk.directories == directories_with(disk.directories, destination, entries)
            &&& after.phase is Waiting
            &&& entries.len() > 0 ==> after.current_path == Some(entry_name(entries.last()))
        }),
    decreases entries.len(),
{
    if entries.len() > 0 {
        let earlier = entries.drop_last();
        let entry = entries.last();
        let n = stream_of(earlier).len() as int;
        let early_rates = rates.take(n);
        let late_rates = rates.skip(n);
        assert(early_rates + late_rates =~= rates);
        received_stream_is_whole(receiver, disk, destination, earlier, early_rates);
        let (between, between_disk) = all_delivered(
            receiver,
            disk,
            destination,
            stream_of(earlier),
            early_rates,
        );
        lemma_delivered_in_two_parts(
            receiver,
            disk,
            destination,
            stream_of(earlier),
            early_rates,
            entry,
            late_rates,
        );
        assert(is_entry(entries[entries.len() - 1]));
        if entries.len() > 1 {
            assert(earlier.last() == entries[entries.len() - 2]);
        }
        assert(between.current_path != Some(entry_name(entry)));
        if entry[0].file_type == FILE_TYPE_DIRECTORY {
            let chunk = entry[0];
            assert(entry.drop_last() =~= Seq::<FileChunkView>::empty());
            reveal_with_fuel(all_delivered, 2);
            let target = target_path(destination, chunk.relative_path);
            let (after, effects) = between.on_chunk(destination, chunk);
            let create = seq![ReceiveEffectView::CreateDirectory(target)];
            let wait = seq![ReceiveEffectView::NextMessage];
            assert(effects =~= between.closing() + create + wait);
            lemma_after_more(between_disk, between.closing() + create, wait);
            lemma_after_more(between_disk, between.closing(), create);
            lemma_after_one(between_disk, ReceiveEffectView::CloseFile);
            let closed = between_disk.after_all(between.closing());
            lemma_after_one(closed, ReceiveEffectView::CreateDirectory(target));
            let made = closed.after(ReceiveEffectView::CreateDirectory(target));
            lemma_after_one(made, ReceiveEffectView::NextMessage);
            assert(between_disk.after_all(effects).files == between_disk.files);
            assert(between_disk.after_all(effects).directories
                == between_disk.directories.insert(target));
            assert(all_delivered(between, between_disk, destination, entry, late_rates)
                == delivered(between, between_disk, destination, chunk, late_rates.last()));
        } else {
            received_file_is_whole(
                between,
                between_disk,
                destination,
                entry[0].relative_path,
                entry,
                late_rates,
            );
        }
    }
}

/// Every directory of a stream, and the directory that each of its files lies in, is among those
/// that are asked for.
pub proof fn directories_are_asked_for(
    directories: Set<Seq<char>>,
    destination: Seq<char>,
    entries: Seq<Seq<FileChunkView>>,
)
    ensures
        forall|i: int|
            0 <= i < entries.len() ==> {
                let target = target_path(destination, (#[trigger] entries[i])[0].relative_path);
                if entries[i][0].file_type == FILE_TYPE_DIRECTORY {
                    directories_with(directories, destination, entries).contains(target)
                } else {
                    crate::platform::parent_of(target) matches Some(parent) ==> directories_with(
                        directories,
                        destination,
                        entries,
                    ).contains(parent)
                }
            },
    decreases entries.len(),
{
    if entries.len() > 0 {
        let earlier = entries.drop_last();
        directories_are_asked_for(directories, destination, earlier);
        assert forall|i: int| 0 <= i < entries.len() implies ({
            let target = target_path(destination, (#[trigger] entries[i])[0].relative_path);
            if entries[i][0].file_type == FILE_TYPE_DIRECTORY {
                directories_with(directories, destination, entries).contains(target)
            } else {
                crate::platform::parent_of(target) matches Some(parent) ==> directories_with(
                    directories,
                    destination,
                    entries,
                ).contains(parent)
            }
        }) by {
            if i < earlier.len() {
                assert(earlier[i] == entries[i]);
            }
        }
    }
}

/// Nothing is created outside the destination: a file or a directory is asked for only at the
/// place that goes with the path of a piece, or, for a file, at the directory that this place
/// lies in; and the path, once all that goes up in it has been resolved, leads to the destination
/// or to a place below it.
pub proof fn nothing_is_created_outside(
    receiver: ReceiveView,
    destination: Seq<char>,
    event: ReceiveEvent,
)
    requires
        receiver.expects(event),
    ensures
        forall|i: int|
            0 <= i < receiver.on_event(destination, event).1.len() ==> (creates(
                #[trigger] receiver.on_event(destination, event).1[i],
            ) ==> (event matches ReceiveEvent::Chunk(chunk) && {
                let target = target_path(destination, chunk@.relative_path);
                let name = sanitized(chunk@.relative_path);
                let backslash = crate::platform::separates_path('\\');
                let directory = crate::server::relative_name::resolved(destination, backslash);
                let place = if crate::server::relative_name::is_rooted_name(name) {
                    crate::server::relative_name::resolved(target, backslash)
                } else {
                    crate::server::relative_name::resolved_below(destination, name, backslash)
                };
                &&& match receiver.on_event(destination, event).1[i] {
                    ReceiveEffectView::CreateFile(path) => path == target,
                    ReceiveEffectView::CreateDirectory(path) => path == target
                        || crate::platform::parent_of(target) == Some(path),
                    _ => false,
                }
                &&& directory.is_prefix_of(place)
                &&& crate::server::relative_name::lies_within(place, directory)
            })),
{
}

/// A piece whose path leads out of the destination puts an end to the transfer: it fails for an
/// unsafe path, nothing is created or written for the piece, and the receiver takes in nothing
/// more.
pub proof fn unsafe_path_ends_the_transfer(
    receiver: ReceiveView,
    destination: Seq<char>,
    chunk: FileChunkView,
    event: ReceiveEvent,
)
    requires
        receiver.phase is Waiting,
        chunk.file_type != FILE_TYPE_SYMLINK,
        is_outside(destination, chunk.relative_path),
    ensures
        receiver.on_chunk(destination, chunk).1 == seq![
            ReceiveEffectView::Update(
                TransferUpdate::State(TransferState::Failed(TransferError::UnsafePath)),
            ),
            ReceiveEffectView::Stop,
        ],
        !receiver.on_chunk(destination, chunk).0.expects(event),
{
}

/// Whether what is asked for last is what the receiver then waits for.
pub open spec fn leads_on(phase: ReceivePhaseView, effect: ReceiveEffectView) -> bool {
    match phase {
        ReceivePhaseView::Waiting => effect is NextMessage,
        ReceivePhaseView::Creating(_) => effect is CreateFile,
        ReceivePhaseView::Writing(_) => effect is Write,
        ReceivePhaseView::Stopped => effect is Stop,
    }
}

/// Whether a change puts an end to a transfer.
pub open spec fn ends_transfer(effect: ReceiveEffectView) -> bool {
    match effect {
        ReceiveEffectView::Update(TransferUpdate::State(state)) => state is Canceled
            || state is Failed,
        ReceiveEffectView::Update(TransferUpdate::Finished(state)) => state is Completed,
        _ => false,
    }
}

/// A receiver is never stuck: after every step it has asked for exactly what it then waits for,
/// or has stopped. It stops only after it has put an end to the transfer, and puts an end to
/// the transfer only when it stops.
pub proof fn every_receive_step_leads_on(
    receiver: ReceiveView,
    destination: Seq<char>,
    event: ReceiveEvent,
)
    requires
        receiver.expects(event),
    ensures
        ({
            let (after, effects) = receiver.on_event(destination, event);
            &&& effects.len() > 0
            &&& leads_on(after.phase, effects.last())
            &&& after.phase is Stopped ==> effects.len() > 1 && ends_transfer(
                effects[effects.len() - 2],
            )
            &&& !(after.phase is Stopped) ==> forall|i: int|
                0 <= i < effects.len() ==> !ends_transfer(#[trigger] effects[i])
        }),
{
}

/// What is written is counted: the number of bytes that the receiver asks to write is added to
/// the progress when they have been written.
pub proof fn written_bytes_are_counted(
    receiver: ReceiveView,
    destination: Seq<char>,
    event: ReceiveEvent,
    data: Seq<u8>,
    bytes_per_second: u64,
)
    requires
        receiver.expects(event),
        receiver.on_event(destination, event).1.last() == ReceiveEffectView::Write(data),
        data.len() <= u64::MAX,
    ensures
        ({
            let (writing, _) = receiver.on_event(destination, event);
            let (_, effects) = writing.on_event(
                destination,
                ReceiveEvent::Written { bytes_per_second },
            );
            effects[0] matches ReceiveEffectView::Update(TransferUpdate::Progress { bytes, .. })
                && bytes == data.len()
        }),
{
}

/// What a receiver has asked for so far: whether a file has been opened, how many bytes were to
/// be written to it, and how many have been added to the progress.
#[verifier::ext_equal]
pub struct TallyView {
    pub open: bool,
    pub written: nat,
    pub counted: nat,
}

/// Nothing has been asked for yet.
pub open spec fn nothing_asked() -> TallyView {
    TallyView { open: false, written: 0, counted: 0 }
}

impl TallyView {
    /// After one more thing.
    pub open spec fn after(self, effect: ReceiveEffectView) -> TallyView {
        match effect {
            ReceiveEffectView::CloseFile => TallyView { open: false, ..self },
            ReceiveEffectView::CreateFile(_) => TallyView { open: true, ..self },
            ReceiveEffectView::Write(data) => TallyView {
                written: self.written + data.len(),
                ..self
            },
            ReceiveEffectView::Update(TransferUpdate::Progress { bytes, .. }) => TallyView {
                counted: self.counted + bytes as nat,
                ..self
            },
            _ => self,
        }
    }

    /// After some more things in order.
    pub open spec fn after_all(self, effects: Seq<ReceiveEffectView>) -> TallyView
        decreases effects.len(),
    {
        if effects.len() == 0 {
            self
        } else {
            self.after_all(effects.drop_last()).after(effects.last())
        }
    }

    /// Whether a receiver is in step with what it has asked for: it knows whether a file is
    /// open, and has counted all that was written but for what is being written.
    pub open spec fn in_step(self, receiver: ReceiveView) -> bool {
        match receiver.phase {
            ReceivePhaseView::Waiting => self.open == receiver.file_open && self.written
                == self.counted,
            ReceivePhaseView::Creating(data) => self.open && self.written == self.counted
                && data.len() <= u64::MAX,
            ReceivePhaseView::Writing(bytes) => self.open && receiver.file_open && self.written
                == self.counted + bytes,
            ReceivePhaseView::Stopped => true,
        }
    }
}

/// The progress is what was written: whatever a receiver is told, it asks to write only to a
/// file that is open, and whenever it waits for the next piece it has counted exactly the bytes
/// that it has had written. Pieces are not longer than a length can say.
pub proof fn progress_is_what_was_written(
    receiver: ReceiveView,
    tally: TallyView,
    destination: Seq<char>,
    event: ReceiveEvent,
)
    requires
        receiver.expects(event),
        tally.in_step(receiver),
        event matches ReceiveEvent::Chunk(chunk) ==> chunk@.chunk.len() <= u64::MAX,
    ensures
        nothing_asked().in_step(new_receiver()),
        ({
            let (after, effects) = receiver.on_event(destination, event);
            &&& tally.after_all(effects).in_step(after)
            &&& forall|i: int|
                0 <= i < effects.len() && #[trigger] effects[i] is Write ==> tally.after_all(
                    effects.take(i),
                ).open
        }),
{
    let (after, effects) = receiver.on_event(destination, event);
    reveal_with_fuel(TallyView::after_all, 4);
    assert(effects.len() <= 3);
    assert(effects.take(0) =~= Seq::<ReceiveEffectView>::empty());
    assert(effects.drop_last() =~= effects.take(effects.len() - 1));
    if effects.len() >= 2 {
        assert(effects.drop_last().drop_last() =~= effects.take(effects.len() - 2));
    }
    if effects.len() >= 3 {
        assert(effects.drop_last().drop_last().drop_last() =~= effects.take(effects.len() - 3));
    }
}

/// What is said of an effect is what it holds.
pub proof fn effect_is_seen_as_it_is(effect: ReceiveEffect)
    ensures
        effect is CloseFile <==> effect@ is CloseFile,
        effect is NextMessage <==> effect@ is NextMessage,
        effect is Stop <==> effect@ is Stop,
        effect matches ReceiveEffect::CreateDirectory(path) ==> effect@
            == ReceiveEffectView::CreateDirectory(path@),
        effect matches ReceiveEffect::CreateFile(path) ==> effect@ == ReceiveEffectView::CreateFile(
            path@,
        ),
        effect matches ReceiveEffect::Write(data) ==> effect@ == ReceiveEffectView::Write(data@),
        effect matches ReceiveEffect::Update(update) ==> effect@ == ReceiveEffectView::Update(
            update,
        ),
{
}

/// What is said of some effects is what each of them holds, in order.
pub proof fn effects_are_seen_as_they_are(effects: Seq<ReceiveEffect>)
    ensures
        effect_views(effects).len() == effects.len(),
        forall|i: int| 0 <= i < effects.len() ==> #[trigger] effect_views(effects)[i] == effects[i]@,
{
}

/// What is said of the place of a piece is what it holds.
pub proof fn place_is_seen_as_it_is(place: ChunkPlace)
    ensures
        place@.name == place.name@,
        place@.target == place.target@,
        place@.outward == place.outward,
        place@.inside == place.inside,
        place@.parent is Some <==> place.parent is Some,
        place.parent matches Some(parent) ==> place@.parent == Some(parent@),
{
}

/// Samples add up: the sum of some and the sum of others is the sum of all, and the sum of one is
/// that one.
pub proof fn samples_add_up(first: Seq<u64>, second: Seq<u64>, value: u64)
    ensures
        sum(first + second) == sum(first) + sum(second),
        sum(Seq::empty()) == 0,
        sum(seq![value]) == value,
    decreases second.len(),
{
    reveal_with_fuel(sum, 2);
    if second.len() == 0 {
        assert(first + second =~= first);
    } else {
        assert((first + second).drop_last() =~= first + second.drop_last());
        samples_add_up(first, second.drop_last(), value);
    }
}

/// The average is the sum of the samples shared out among them, rounded down.
pub proof fn average_shares_out_the_sum(average: MovingAverageView)
    requires
        average.samples.len() > 0,
    ensures
        average.average() * average.samples.len() <= sum(average.samples) < (average.average() + 1)
            * average.samples.len(),
{
    let n = average.samples.len();
    let total = sum(average.samples);
    assert((total / n) * n <= total < (total / n + 1) * n) by (nonlinear_arith)
        requires
            n > 0,
    ;
}

/// The samples in a window are the latest: one more comes last, and the oldest goes only where
/// there were as many as the window holds. A sample can be counted exactly where the sum of those
/// that are then in the window fits into its type.
pub proof fn window_holds_the_latest(average: MovingAverageView, value: u64)
    ensures
        ({
            let after = average.pushed(value);
            let full = 0 < average.samples.len() == average.window;
            &&& after.window == average.window
            &&& !full ==> after.samples == average.samples.push(value)
            &&& full ==> after.samples == average.samples.skip(1).push(value)
            &&& average.fits(value) <==> sum(after.samples) <= u64::MAX
        }),
{
    assert(average.samples.len() > 0 ==> average.samples.drop_first() =~= average.samples.skip(1));
}

/// Sanitizing goes character by character: a backslash, an angle bracket, an asterisk, a bar, a
/// question mark, a colon and a quotation mark become an underscore, and every other character,
/// the slash among them, stays as it is.
pub proof fn sanitizing_replaces_what_is_forbidden(name: Seq<char>, i: int)
    requires
        0 <= i < name.len(),
    ensures
        sanitized(name).len() == name.len(),
        seq!['\\', '<', '>', '*', '|', '?', ':', '"'].contains(name[i]) ==> sanitized(name)[i]
            == '_',
        !seq!['\\', '<', '>', '*', '|', '?', ':', '"'].contains(name[i]) ==> sanitized(name)[i]
            == name[i],
{
    let forbidden = seq!['\\', '<', '>', '*', '|', '?', ':', '"'];
    assert(forbidden[0] == '\\' && forbidden[1] == '<' && forbidden[2] == '>' && forbidden[3] == '*'
        && forbidden[4] == '|' && forbidden[5] == '?' && forbidden[6] == ':' && forbidden[7]
        == '"');
}

/// A piece belongs at the path that its sanitized path makes with the destination, and its place
/// says so: its name, that path, the directory that the path lies in, whether the path starts with
/// the destination, and whether the name leads out of the destination.
pub proof fn piece_belongs_below_the_destination(
    destination: Seq<char>,
    relative_path: Seq<char>,
)
    ensures
        ({
            let place = place_of(destination, relative_path);
            let name = sanitized(relative_path);
            let target = crate::platform::joined_path(destination, name);
            &&& place.name == name
            &&& place.target == target
            &&& place.parent == crate::platform::parent_of(target)
            &&& place.inside == crate::platform::has_path_prefix(target, destination)
            &&& place.outward == crate::server::relative_name::leaves_destination(
                destination,
                name,
                target,
                crate::platform::separates_path('\\'),
            )
            &&& target_path(destination, relative_path) == target
            &&& is_outside(destination, relative_path) == place.outward
            &&& is_unsafe(destination, relative_path) <==> place.outward || (
            crate::text::has_double_dot(name) && !place.inside)
        }),
{
}

/// A receiver puts a transfer to completed exactly when it is told that the stream has ended, and
/// ends it in no other way than the one that goes with what it is told: cancelled when it has been
/// cancelled, failed for a lost connection when the stream has failed, for lack of space when bytes
/// could not be written, for the reason why a file could not be created, or for an unsafe path. So
/// it does whatever it did before, and whether or not a file is open.
pub proof fn transfer_ends_as_it_was_told(
    receiver: ReceiveView,
    destination: Seq<char>,
    event: ReceiveEvent,
)
    requires
        receiver.expects(event),
    ensures
        ({
            let effects = receiver.on_event(destination, event).1;
            &&& effects.contains(
                ReceiveEffectView::Update(TransferUpdate::Finished(TransferState::Completed)),
            ) <==> event is EndOfStream
            &&& forall|i: int|
                0 <= i < effects.len() ==> match #[trigger] effects[i] {
                    ReceiveEffectView::Update(TransferUpdate::Finished(state)) => event is EndOfStream
                        && state is Completed,
                    ReceiveEffectView::Update(TransferUpdate::State(state)) => match event {
                        ReceiveEvent::Cancelled => state is Canceled,
                        ReceiveEvent::StreamFailed => state == TransferState::Failed(
                            TransferError::ConnectionLost,
                        ),
                        ReceiveEvent::WriteFailed => state == TransferState::Failed(
                            TransferError::StorageFull,
                        ),
                        ReceiveEvent::FileNotCreated(kind) => if kind == IoErrorKind::StorageFull {
                            state == TransferState::Failed(TransferError::StorageFull)
                        } else {
                            state == TransferState::Failed(TransferError::IoError(kind))
                        },
                        ReceiveEvent::Chunk(_) => state == TransferState::Failed(
                            TransferError::UnsafePath,
                        ),
                        _ => false,
                    },
                    ReceiveEffectView::Update(TransferUpdate::Progress { .. }) => event is Written,
                    ReceiveEffectView::Update(_) => false,
                    _ => true,
                }
        }),
{
    let effects = receiver.on_event(destination, event).1;
    if event is EndOfStream {
        assert(effects[effects.len() - 2] == ReceiveEffectView::Update(
            TransferUpdate::Finished(TransferState::Completed),
        ));
    }
}

/// A transfer that is over is over at once: when a receiver is told that it has been cancelled, that
/// the stream has ended or failed, or that a file could not be created or written, the last but one
/// thing that it asks for is the change that goes with it, and the last is to do nothing more. After
/// that it takes in nothing.
pub proof fn transfer_that_is_over_is_ended(
    receiver: ReceiveView,
    destination: Seq<char>,
    event: ReceiveEvent,
    later: ReceiveEvent,
)
    requires
        receiver.expects(event),
        event is Cancelled || event is EndOfStream || event is StreamFailed
            || event is FileNotCreated || event is WriteFailed,
    ensures
        ({
            let (after, effects) = receiver.on_event(destination, event);
            let n = effects.len();
            &&& n >= 2
            &&& effects[n - 1] is Stop
            &&& effects[n - 2] is Update
            &&& effects[n - 2]->Update_0 == (match event {
                ReceiveEvent::Cancelled => TransferUpdate::State(TransferState::Canceled),
                ReceiveEvent::EndOfStream => TransferUpdate::Finished(TransferState::Completed),
                ReceiveEvent::StreamFailed => TransferUpdate::State(
                    TransferState::Failed(TransferError::ConnectionLost),
                ),
                ReceiveEvent::FileNotCreated(IoErrorKind::StorageFull) => TransferUpdate::State(
                    TransferState::Failed(TransferError::StorageFull),
                ),
                ReceiveEvent::FileNotCreated(kind) => TransferUpdate::State(
                    TransferState::Failed(TransferError::IoError(kind)),
                ),
                _ => TransferUpdate::State(TransferState::Failed(TransferError::StorageFull)),
            })
            &&& !after.expects(later)
            &&& after.speed == receiver.speed
        }),
{
}

/// The file that is open is closed, first of all, when the transfer is cancelled, ends or fails and
/// when something else comes; a file is closed in no other case, and none that is not open.
pub proof fn open_file_is_closed(
    receiver: ReceiveView,
    destination: Seq<char>,
    event: ReceiveEvent,
)
    requires
        receiver.expects(event),
    ensures
        ({
            let (after, effects) = receiver.on_event(destination, event);
            let something_else = event matches ReceiveEvent::Chunk(chunk) && {
                &&& chunk@.file_type != FILE_TYPE_SYMLINK
                &&& !is_unsafe(destination, chunk@.relative_path)
                &&& receiver.current_path != Some(sanitized(chunk@.relative_path))
            };
            let closes = receiver.file_open && (event is Cancelled || event is EndOfStream
                || event is StreamFailed || something_else);
            &&& effects.contains(ReceiveEffectView::CloseFile) <==> closes
            &&& closes ==> effects[0] is CloseFile && !after.file_open
            &&& forall|i: int| 0 < i < effects.len() ==> !(#[trigger] effects[i] is CloseFile)
            &&& event is Cancelled || event is EndOfStream || event is StreamFailed
                ==> after.current_path is None && !after.file_open
        }),
{
    let effects = receiver.on_event(destination, event).1;
    assert(effects.len() <= 3);
    if effects.contains(ReceiveEffectView::CloseFile) {
        assert(effects[0] is CloseFile || effects[1] is CloseFile || effects[2] is CloseFile);
    }
    if receiver.file_open && effects[0] is CloseFile {
        assert(effects[0] == ReceiveEffectView::CloseFile);
    }
}

/// Every piece is taken for what it is. A symbolic link changes nothing. A piece under a refused
/// path ends the transfer. One under another path than the last is a new directory or a new file,
/// and asks for it at its place: for a directory nothing else, for a file first for the directory
/// that it lies in and last for the file, with the bytes of the piece to be written then. More of
/// the file that is open is written to it, and more of something that is not open is let be.
pub proof fn piece_is_taken_for_what_it_is(
    receiver: ReceiveView,
    destination: Seq<char>,
    chunk: FileChunkView,
)
    requires
        receiver.phase is Waiting,
    ensures
        ({
            let (after, effects) = receiver.on_chunk(destination, chunk);
            let name = sanitized(chunk.relative_path);
            let target = crate::platform::joined_path(destination, name);
            let n = effects.len();
            let first: int = if receiver.file_open {
                1
            } else {
                0
            };
            &&& after.speed == receiver.speed
            &&& if chunk.file_type == 3 {
                &&& after == receiver
                &&& n == 1
                &&& effects[0] is NextMessage
            } else if is_unsafe(destination, chunk.relative_path) {
                &&& after.phase is Stopped
                &&& n == 2
                &&& effects[0] == ReceiveEffectView::Update(
                    TransferUpdate::State(TransferState::Failed(TransferError::UnsafePath)),
                )
                &&& effects[1] is Stop
            } else if receiver.current_path != Some(name) {
                &&& after.current_path == Some(name)
                &&& !after.file_open
                &&& if chunk.file_type == 2 {
                    &&& n == first + 2
                    &&& effects[first] == ReceiveEffectView::CreateDirectory(target)
                    &&& effects[first + 1] is NextMessage
                    &&& after.phase is Waiting
                } else {
                    &&& effects[n - 1] == ReceiveEffectView::CreateFile(target)
                    &&& after.phase == ReceivePhaseView::Creating(chunk.chunk)
                    &&& match crate::platform::parent_of(target) {
                        Some(parent) => n == first + 2 && effects[first]
                            == ReceiveEffectView::CreateDirectory(parent),
                        None => n == first + 1,
                    }
                }
            } else {
                &&& after.current_path == receiver.current_path
                &&& after.file_open == receiver.file_open
                &&& n == 1
                &&& if receiver.file_open {
                    &&& effects[0] == ReceiveEffectView::Write(chunk.chunk)
                    &&& after.phase is Writing
                    &&& chunk.chunk.len() <= u64::MAX ==> after.phase->Writing_0
                        == chunk.chunk.len()
                } else {
                    &&& effects[0] is NextMessage
                    &&& after.phase is Waiting
                }
            }
        }),
{
}

/// What a piece is taken for goes by the place that is given for it.
pub proof fn piece_goes_to_the_place_it_is_given(
    receiver: ReceiveView,
    place: ChunkPlaceView,
    chunk: FileChunkView,
)
    requires
        receiver.phase is Waiting,
    ensures
        ({
            let (after, effects) = receiver.on_placed(place, chunk);
            let refused = place.outward || (crate::text::has_double_dot(place.name)
                && !place.inside);
            let last = effects.last();
            let n = effects.len();
            let first: int = if receiver.file_open {
                1
            } else {
                0
            };
            &&& n > 0
            &&& chunk.file_type == FILE_TYPE_SYMLINK ==> n == 1 && last is NextMessage && after
                == receiver
            &&& last is Stop <==> chunk.file_type != FILE_TYPE_SYMLINK && refused
            &&& last is Stop ==> n == 2 && effects[0] == ReceiveEffectView::Update(
                TransferUpdate::State(TransferState::Failed(TransferError::UnsafePath)),
            ) && after.phase is Stopped
            &&& chunk.file_type != FILE_TYPE_SYMLINK && !refused ==> {
                &&& after.current_path == Some(place.name)
                &&& if receiver.current_path == Some(place.name) {
                    &&& n == 1
                    &&& if receiver.file_open {
                        last == ReceiveEffectView::Write(chunk.chunk) && after.file_open
                    } else {
                        last is NextMessage && after == receiver
                    }
                } else {
                    &&& receiver.file_open ==> effects[0] is CloseFile
                    &&& !after.file_open
                    &&& if chunk.file_type == FILE_TYPE_DIRECTORY {
                        &&& n == first + 2
                        &&& last is NextMessage
                        &&& effects[first] == ReceiveEffectView::CreateDirectory(place.target)
                    } else {
                        &&& last == ReceiveEffectView::CreateFile(place.target)
                        &&& after.phase == ReceivePhaseView::Creating(chunk.chunk)
                        &&& match place.parent {
                            Some(parent) => n == first + 2 && effects[first]
                                == ReceiveEffectView::CreateDirectory(parent),
                            None => n == first + 1,
                        }
                    }
                }
            }
        }),
{
}

/// The bytes that came with the first piece of a file are written to it as soon as it has been
/// created, all of them and no others; what has been written is added to the progress with the
/// average of the latest speeds, and the next piece is waited for.
pub proof fn first_bytes_are_written_and_counted(
    receiver: ReceiveView,
    destination: Seq<char>,
    bytes_per_second: u64,
)
    ensures
        receiver.phase matches ReceivePhaseView::Creating(data) ==> {
            let (after, effects) = receiver.on_event(destination, ReceiveEvent::FileCreated);
            &&& effects == seq![ReceiveEffectView::Write(data)]
            &&& after.file_open
            &&& after.current_path == receiver.current_path
            &&& after.speed == receiver.speed
            &&& after.phase is Writing
            &&& data.len() <= u64::MAX ==> after.phase->Writing_0 == data.len()
        },
        receiver.phase matches ReceivePhaseView::Writing(bytes) ==> receiver.speed.fits(
            bytes_per_second,
        ) ==> {
            let (after, effects) = receiver.on_event(
                destination,
                ReceiveEvent::Written { bytes_per_second },
            );
            &&& effects.len() == 2
            &&& effects[0] matches ReceiveEffectView::Update(
                TransferUpdate::Progress { bytes: counted, bytes_per_second: speed },
            ) && counted == bytes && speed == receiver.speed.pushed(bytes_per_second).average()
            &&& effects[1] is NextMessage
            &&& after.phase is Waiting
            &&& after.file_open == receiver.file_open
            &&& after.current_path == receiver.current_path
            &&& after.speed == receiver.speed.pushed(bytes_per_second)
        },
{
    let average = receiver.speed.pushed(bytes_per_second);
    if receiver.speed.fits(bytes_per_second) {
        let n = average.samples.len();
        let total = sum(average.samples);
        assert(total / n <= total) by (nonlinear_arith)
            requires
                n > 0,
        ;
    }
}

/// A receiver that has received nothing yet waits, has no file open, and has counted no speed.
pub proof fn new_receiver_has_received_nothing()
    ensures
        new_receiver().phase is Waiting,
        new_receiver().current_path is None,
        !new_receiver().file_open,
        new_receiver().speed.samples.len() == 0,
        new_receiver().speed.window == 30,
{
}

/// A receiver takes in pieces, the end of the stream, its failure and a cancellation while it waits
/// for a piece, word of a file while it has one created, and word of bytes while it has some
/// written, and nothing else.
pub proof fn receiver_expects_what_it_waits_for(receiver: ReceiveView, event: ReceiveEvent)
    ensures
        receiver.phase is Waiting ==> (receiver.expects(event) <==> event is Cancelled
            || event is Chunk || event is EndOfStream || event is StreamFailed),
        receiver.phase is Creating ==> (receiver.expects(event) <==> event is FileCreated
            || event is FileNotCreated),
        receiver.phase is Writing ==> (receiver.expects(event) <==> event is WriteFailed || (
        event matches ReceiveEvent::Written { bytes_per_second } && receiver.speed.fits(
            bytes_per_second,
        ))),
        receiver.phase is Stopped ==> !receiver.expects(event),
{
}

} // verus!
