//! The answers to the calls of a connected remote.
use crate::config::protocol::{ProtocolConfig, MESSAGE_SUPPORT};
use crate::config::user::{UserConfig, UserConfigView};
use crate::proto::{
    FileChunk, LookupName, OpInfo, RemoteMachineAvatar, RemoteMachineInfo, RemoteMachineInfoView,
    Status, StatusCode, StopInfo, TextMessage, TransferOpRequest, VoidType,
};
use crate::server::remote_manager::{ManagerView, RemoteManager, WarpEvent, WarpEventView};
use crate::text::same_text;
use crate::types::message::Message;
use crate::types::remote::{RemoteState, RemoteView};
use crate::types::transfer::Transfer;
use vstd::prelude::*;
use vstd::slice::slice_subrange;
use vstd::slice::slice_to_vec;

verus! {

/// The most bytes of a picture that are sent at once.
pub const AVATAR_CHUNK_SIZE: usize = 65536;

/// How long a remote is kept waiting for a two-way connection, in seconds.
pub const DUPLEX_WAIT_SECS: u64 = 10;

/// What a remote that asks for a two-way connection gets.
#[derive(Clone, Copy, Debug, PartialEq, Eq, Structural)]
pub enum DuplexAction {
    /// An answer
    Reply(bool),
    /// An attempt to connect to it, and the answer later
    ConnectAndWait,
    /// The answer later
    Wait,
}

/// What has happened while a remote waits for a two-way connection.
#[derive(Debug)]
pub enum DuplexWake {
    /// The time is up
    TimedOut,
    /// Something has happened to a remote
    Event(WarpEvent),
}

/// Whether this side's half of the connection to a remote stands.
pub open spec fn is_reachable(state: RemoteState) -> bool {
    state is AwaitingDuplex || state is Connected
}

/// What a remote that asks for a two-way connection gets at first.
pub open spec fn duplex_action(remote: Option<RemoteView>) -> DuplexAction {
    match remote {
        Some(r) => if is_reachable(r.state) {
            DuplexAction::Reply(true)
        } else if r.state is Connecting {
            DuplexAction::Wait
        } else {
            DuplexAction::ConnectAndWait
        },
        None => DuplexAction::Wait,
    }
}

/// Whether an event says that a remote is new or has changed.
pub open spec fn concerns(event: WarpEventView, id: Seq<char>) -> bool {
    event == WarpEventView::RemoteAdded(id) || event == WarpEventView::RemoteUpdated(id)
}

/// What a remote that waits for a two-way connection gets when something has happened.
pub open spec fn duplex_action_after(
    manager: ManagerView,
    id: Seq<char>,
    wake: DuplexWake,
) -> DuplexAction {
    match wake {
        DuplexWake::TimedOut => DuplexAction::Reply(false),
        DuplexWake::Event(event) => if concerns(event@, id) && (manager.remote(id) matches Some(r)
            && is_reachable(r.state)) {
            DuplexAction::Reply(true)
        } else {
            DuplexAction::Wait
        },
    }
}

/// Bytes cut into pieces of a size; the last may be shorter.
pub open spec fn cut(bytes: Seq<u8>, size: nat) -> Seq<Seq<u8>>
    decreases bytes.len(),
{
    if bytes.len() == 0 || size == 0 {
        Seq::empty()
    } else if bytes.len() <= size {
        seq![bytes]
    } else {
        seq![bytes.take(size as int)] + cut(bytes.skip(size as int), size)
    }
}

/// The bytes in some pieces of a picture.
pub open spec fn piece_views(pieces: Seq<RemoteMachineAvatar>) -> Seq<Seq<u8>> {
    pieces.map_values(|p: RemoteMachineAvatar| p.avatar_chunk@)
}

/// Answers the calls of the remotes.
#[derive(Debug)]
pub struct WarpServer {
    user_config: UserConfig,
    protocol_config: ProtocolConfig,
}

/// What a [`WarpServer`] answers with.
#[verifier::ext_equal]
pub struct WarpServerView {
    pub user_config: UserConfigView,
    pub protocol_config: ProtocolConfig,
}

impl View for WarpServer {
    type V = WarpServerView;

    closed spec fn view(&self) -> WarpServerView {
        WarpServerView {
            user_config: self.user_config@,
            protocol_config: self.protocol_config,
        }
    }
}

fn is_connected_or_awaited(state: RemoteState) -> (r: bool)
    ensures
        r == is_reachable(state),
{
    match state {
        RemoteState::AwaitingDuplex | RemoteState::Connected => true,
        _ => false,
    }
}

fn failure(code: StatusCode, message: &str) -> (r: Status)
    ensures
        r.code == code,
        r.message@ == message@,
{
    Status { code, message: message.to_string() }
}

impl WarpServer {
    /// A server that answers for a user.
    pub fn new(user_config: UserConfig, protocol_config: ProtocolConfig) -> (r: Self)
        ensures
            r@ == (WarpServerView { user_config: user_config@, protocol_config }),
    {
        WarpServer { user_config, protocol_config }
    }

    /// What a remote that asks for a two-way connection gets at first.
    pub fn waiting_for_duplex(&self, manager: &RemoteManager, id: &str) -> (r: DuplexAction)
        requires
            manager.wf(),
        ensures
            r == duplex_action(manager@.remote(id@)),
    {
        match manager.remote(id) {
            Some(remote) => match remote.state {
                RemoteState::Error(_) | RemoteState::Disconnected => DuplexAction::ConnectAndWait,
                RemoteState::AwaitingDuplex | RemoteState::Connected => DuplexAction::Reply(true),
                _ => DuplexAction::Wait,
            },
            None => DuplexAction::Wait,
        }
    }

    /// What a remote that waits for a two-way connection gets when something has happened.
    pub fn duplex_event(&self, manager: &RemoteManager, id: &str, wake: DuplexWake) -> (r:
        DuplexAction)
        requires
            manager.wf(),
        ensures
            r == duplex_action_after(manager@, id@, wake),
    {
        match wake {
            DuplexWake::TimedOut => DuplexAction::Reply(false),
            DuplexWake::Event(event) => {
                let concerned = match &event {
                    WarpEvent::RemoteAdded(uuid) => same_text(uuid, id),
                    WarpEvent::RemoteUpdated(uuid) => same_text(uuid, id),
                    _ => false,
                };
                if concerned {
                    if let Some(remote) = manager.remote(id) {
                        if is_connected_or_awaited(remote.state) {
                            return DuplexAction::Reply(true);
                        }
                    }
                }
                DuplexAction::Wait
            },
        }
    }

    /// Who the user is, and what this machine can do.
    pub fn get_remote_machine_info(&self, _request: LookupName) -> (r: RemoteMachineInfo)
        ensures
            r@ == (RemoteMachineInfoView {
                display_name: self@.user_config.display_name,
                user_name: self@.user_config.username,
                feature_flags: self@.protocol_config.features.bits,
            }),
    {
        RemoteMachineInfo {
            display_name: self.user_config.display_name.clone(),
            user_name: self.user_config.username.clone(),
            feature_flags: self.protocol_config.features.bits(),
        }
    }

    /// The user's picture in pieces; none where there is no picture.
    pub fn get_remote_machine_avatar(&self, _request: LookupName) -> (r: Vec<RemoteMachineAvatar>)
        ensures
            piece_views(r@) == (match self@.user_config.picture {
                Some(bytes) => cut(bytes, AVATAR_CHUNK_SIZE as nat),
                None => Seq::empty(),
            }),
    {
        let mut pieces: Vec<RemoteMachineAvatar> = Vec::new();
        assert(piece_views(pieces@) =~= Seq::empty());
        if let Some(bytes) = &self.user_config.picture {
            let mut start: usize = 0;
            let ghost all = cut(bytes@, AVATAR_CHUNK_SIZE as nat);
            assert(bytes@.skip(0) =~= bytes@);
            assert(Seq::<Seq<u8>>::empty() + all =~= all);
            while start < bytes.len()
                invariant
                    start <= bytes@.len(),
                    all == cut(bytes@, AVATAR_CHUNK_SIZE as nat),
                    all == piece_views(pieces@) + cut(
                        bytes@.skip(start as int),
                        AVATAR_CHUNK_SIZE as nat,
                    ),
                decreases bytes@.len() - start,
            {
                let left = bytes.len() - start;
                let end = if left <= AVATAR_CHUNK_SIZE {
                    bytes.len()
                } else {
                    start + AVATAR_CHUNK_SIZE
                };
                let ghost before = piece_views(pieces@);
                let ghost rest = bytes@.skip(start as int);
                let piece = slice_to_vec(slice_subrange(bytes.as_slice(), start, end));
                pieces.push(RemoteMachineAvatar { avatar_chunk: piece });
                proof {
                    assert(piece@ =~= rest.take(end - start));
                    assert(piece_views(pieces@) =~= before.push(piece@));
                    if left <= AVATAR_CHUNK_SIZE {
                        assert(piece@ =~= rest);
                        assert(bytes@.skip(end as int) =~= Seq::empty());
                    } else {
                        assert(rest.skip(AVATAR_CHUNK_SIZE as int) =~= bytes@.skip(end as int));
                    }
                    assert(all =~= piece_views(pieces@) + cut(
                        bytes@.skip(end as int),
                        AVATAR_CHUNK_SIZE as nat,
                    ));
                }
                start = end;
            }
            assert(bytes@.skip(start as int) =~= Seq::empty());
            assert(all =~= piece_views(pieces@));
        }
        pieces
    }

    /// Records the transfer that a remote offers.
    pub fn process_transfer_op_request(
        &self,
        manager: &mut RemoteManager,
        request: TransferOpRequest,
    ) -> (r: Result<VoidType, Status>)
        requires
            old(manager).wf(),
        ensures
            final(manager).wf(),
            match request@.info {
                None => {
                    &&& r matches Err(status) && status.code == StatusCode::InvalidArgument
                        && status.message@ == "Missing OpInfo"@
                    &&& final(manager)@ == old(manager)@
                },
                Some(info) => match old(manager)@.remote(info.ident) {
                    Some(_) => {
                        &&& r is Ok
                        &&& exists|uuid: Seq<char>, timestamp: u64|
                            crate::platform::is_random_uuid(uuid) && old(
                                manager,
                            )@.transfer_added(
                                info.ident,
                                #[trigger] crate::types::transfer::incoming_transfer(
                                    uuid,
                                    timestamp,
                                    request@,
                                ),
                            ) == Some(final(manager)@)
                    },
                    None => {
                        &&& r matches Err(status) && status.code == StatusCode::Internal
                            && status.message@ == "Failed to add transfer op request: NotFound"@
                        &&& final(manager)@ == old(manager)@
                    },
                },
            },
    {
        let ident = match &request.info {
            Some(info) => info.ident.clone(),
            None => {
                return Err(failure(StatusCode::InvalidArgument, "Missing OpInfo"));
            },
        };
        let transfer = Transfer::from(request);
        let ghost t = transfer@;
        let r = self.record_transfer(manager, &ident, transfer);
        proof {
            if old(manager)@.remote(ident@) is Some {
                assert(old(manager)@.transfer_added(
                    ident@,
                    crate::types::transfer::incoming_transfer(t.uuid, t.timestamp, request@),
                ) == Some(manager@));
            }
        }
        r
    }

    /// Records a transfer that a remote offers.
    pub fn record_transfer(&self, manager: &mut RemoteManager, ident: &str, transfer: Transfer) -> (r:
        Result<VoidType, Status>)
        requires
            old(manager).wf(),
        ensures
            final(manager).wf(),
            match old(manager)@.transfer_added(ident@, transfer@) {
                Some(after) => r is Ok && final(manager)@ == after,
                None => {
                    &&& r matches Err(status) && status.code == StatusCode::Internal
                        && status.message@ == "Failed to add transfer op request: NotFound"@
                    &&& final(manager)@ == old(manager)@
                },
            },
    {
        match manager.add_transfer(ident, transfer) {
            Ok(()) => Ok(VoidType {  }),
            Err(_) => Err(
                failure(
                    StatusCode::Internal,
                    "Failed to add transfer op request: NotFound",
                ),
            ),
        }
    }

    /// Records the text that a remote has sent, if text messages are offered.
    pub fn send_text_message(&self, manager: &mut RemoteManager, request: &TextMessage) -> (r:
        Result<VoidType, Status>)
        requires
            old(manager).wf(),
        ensures
            final(manager).wf(),
            !self@.protocol_config.features.has(MESSAGE_SUPPORT) ==> {
                &&& r matches Err(status) && status.code == StatusCode::Unimplemented
                    && status.message@ == "Messaging feature is disabled"@
                &&& final(manager)@ == old(manager)@
            },
            self@.protocol_config.features.has(MESSAGE_SUPPORT) ==> match old(manager)@.remote(
                request@.ident,
            ) {
                Some(_) => {
                    &&& r is Ok
                    &&& exists|uuid: Seq<char>, timestamp: u64|
                        crate::platform::is_random_uuid(uuid) && old(manager)@.message_added(
                            request@.ident,
                            #[trigger] crate::types::message::received_message(
                                uuid,
                                timestamp,
                                request@,
                            ),
                        ) == Some(final(manager)@)
                },
                None => {
                    &&& r matches Err(status) && status.code == StatusCode::Internal
                        && status.message@ == "Failed to add message: NotFound"@
                    &&& final(manager)@ == old(manager)@
                },
            },
    {
        if !self.protocol_config.features.contains(MESSAGE_SUPPORT) {
            return Err(failure(StatusCode::Unimplemented, "Messaging feature is disabled"));
        }
        let message = Message::from(request);
        let ghost m = message@;
        let r = self.record_message(manager, &request.ident, message);
        proof {
            if old(manager)@.remote(request@.ident) is Some {
                assert(old(manager)@.message_added(
                    request@.ident,
                    crate::types::message::received_message(m.uuid, m.timestamp, request@),
                ) == Some(manager@));
            }
        }
        r
    }

    /// Records a text that a remote has sent.
    pub fn record_message(&self, manager: &mut RemoteManager, ident: &str, message: Message) -> (r:
        Result<VoidType, Status>)
        requires
            old(manager).wf(),
        ensures
            final(manager).wf(),
            match old(manager)@.message_added(ident@, message@) {
                Some(after) => r is Ok && final(manager)@ == after,
                None => {
                    &&& r matches Err(status) && status.code == StatusCode::Internal
                        && status.message@ == "Failed to add message: NotFound"@
                    &&& final(manager)@ == old(manager)@
                },
            },
    {
        match manager.add_message(ident, message) {
            Ok(()) => Ok(VoidType {  }),
            Err(_) => Err(failure(StatusCode::Internal, "Failed to add message: NotFound")),
        }
    }

    /// The pieces of a transfer that a remote has accepted: none are handed out on this call.
    pub fn start_transfer(&self, _request: OpInfo) -> (r: Vec<FileChunk>)
        ensures
            r@.len() == 0,
    {
        Vec::new()
    }

    /// Takes note that a remote wants to pause a transfer. Every request is answered with success,
    /// and nothing is changed.
    pub fn pause_transfer_op(&self, _request: OpInfo) -> (r: Result<VoidType, Status>)
        ensures
            r == Ok::<VoidType, Status>(VoidType {  }),
    {
        Ok(VoidType {  })
    }

    /// Takes note that a remote wants to stop a transfer. Every request is answered with success,
    /// and nothing is changed.
    pub fn stop_transfer(&self, _request: StopInfo) -> (r: Result<VoidType, Status>)
        ensures
            r == Ok::<VoidType, Status>(VoidType {  }),
    {
        Ok(VoidType {  })
    }

    /// Takes note that a remote has called off a transfer. Every request is answered with success,
    /// and nothing is changed.
    pub fn cancel_transfer_op_request(&self, _request: OpInfo) -> (r: Result<VoidType, Status>)
        ensures
            r == Ok::<VoidType, Status>(VoidType {  }),
    {
        Ok(VoidType {  })
    }

    /// Answers a ping. Every ping is answered with success.
    pub fn ping(&self, _request: LookupName) -> (r: Result<VoidType, Status>)
        ensures
            r == Ok::<VoidType, Status>(VoidType {  }),
    {
        Ok(VoidType {  })
    }
}

/// A remote is told that the two-way connection stands only while this side's half of it
/// stands, at once or when something has happened to it; it is told that it does not stand only
/// when the time is up.
pub proof fn duplex_answers_are_true(manager: ManagerView, id: Seq<char>, wake: DuplexWake)
    ensures
        duplex_action(manager.remote(id)) is Reply ==> {
            &&& duplex_action(manager.remote(id)) == DuplexAction::Reply(true)
            &&& is_reachable(manager.remote(id)->0.state)
        },
        duplex_action_after(manager, id, wake) == DuplexAction::Reply(true) ==> manager.remote(
            id,
        ) is Some && is_reachable(manager.remote(id)->0.state),
        duplex_action_after(manager, id, wake) == DuplexAction::Reply(false)
            <==> wake is TimedOut,
{
}

/// A remote that is waiting is answered as soon as it is told that this side's half of the
/// connection stands.
pub proof fn waiting_ends_with_the_connection(
    manager: ManagerView,
    id: Seq<char>,
    state: RemoteState,
    event: WarpEvent,
)
    requires
        manager.remote(id) is Some,
        is_reachable(state),
        event@ == WarpEventView::RemoteUpdated(id),
    ensures
        ({
            let update = crate::server::remote_manager::RemoteUpdate::State(state);
            &&& manager.remote_updated(id, update) is Some
            &&& duplex_action_after(
                manager.remote_updated(id, update)->0,
                id,
                DuplexWake::Event(event),
            ) == DuplexAction::Reply(true)
        }),
{
    crate::server::remote_manager::updated_remote_is_changed_alone(
        manager,
        id,
        crate::server::remote_manager::RemoteUpdate::State(state),
        id,
    );
}

proof fn lemma_picture_bytes_of_first(first: RemoteMachineAvatar, rest: Seq<RemoteMachineAvatar>)
    ensures
        crate::server::remote_worker::picture_bytes(seq![first] + rest) == first.avatar_chunk@
            + crate::server::remote_worker::picture_bytes(rest),
    decreases rest.len(),
{
    let all = seq![first] + rest;
    if rest.len() == 0 {
        assert(all.drop_last() =~= Seq::<RemoteMachineAvatar>::empty());
        reveal_with_fuel(crate::server::remote_worker::picture_bytes, 2);
        assert(Seq::<u8>::empty() + first.avatar_chunk@ =~= first.avatar_chunk@);
        assert(first.avatar_chunk@ + Seq::<u8>::empty() =~= first.avatar_chunk@);
    } else {
        assert(all.drop_last() =~= seq![first] + rest.drop_last());
        lemma_picture_bytes_of_first(first, rest.drop_last());
        assert(crate::server::remote_worker::picture_bytes(all) =~= first.avatar_chunk@
            + crate::server::remote_worker::picture_bytes(rest));
    }
}

/// A picture that is sent in pieces is the picture that is received: put one after the other,
/// the pieces are its bytes. No piece is empty or larger than allowed.
pub proof fn sent_picture_is_whole(
    picture: Seq<u8>,
    pieces: Seq<RemoteMachineAvatar>,
    size: nat,
)
    requires
        size > 0,
        piece_views(pieces) == cut(picture, size),
    ensures
        crate::server::remote_worker::picture_bytes(pieces) == picture,
        forall|i: int|
            0 <= i < pieces.len() ==> 0 < (#[trigger] pieces[i]).avatar_chunk@.len() <= size,
    decreases picture.len(),
{
    assert(pieces.len() == cut(picture, size).len());
    if picture.len() == 0 {
        assert(picture =~= Seq::empty());
        assert(crate::server::remote_worker::picture_bytes(pieces) =~= picture);
    } else {
        let rest = pieces.drop_first();
        let rest_picture = if picture.len() <= size {
            Seq::empty()
        } else {
            picture.skip(size as int)
        };
        let first_bytes = if picture.len() <= size {
            picture
        } else {
            picture.take(size as int)
        };
        assert(cut(picture, size) =~= seq![first_bytes] + cut(rest_picture, size));
        assert(piece_views(pieces)[0] == first_bytes);
        assert(piece_views(rest) =~= cut(rest_picture, size)) by {
            assert forall|i: int| 0 <= i < rest.len() implies piece_views(rest)[i] == cut(
                rest_picture,
                size,
            )[i] by {
                assert(piece_views(rest)[i] == piece_views(pieces)[i + 1]);
            }
        }
        sent_picture_is_whole(rest_picture, rest, size);
        assert(pieces =~= seq![pieces[0]] + rest);
        lemma_picture_bytes_of_first(pieces[0], rest);
        assert(first_bytes + rest_picture =~= picture);
        assert forall|i: int| 0 <= i < pieces.len() implies 0 < (
        #[trigger] pieces[i]).avatar_chunk@.len() <= size by {
            if i > 0 {
                assert(pieces[i] == rest[i - 1]);
            }
        }
    }
}

/// What a remote that asks for a two-way connection gets at first goes with its state: the word that
/// it stands while this side's half stands, an attempt to connect to it while it is disconnected or
/// in error, and the answer later while it is being connected to or not known.
pub proof fn duplex_answer_goes_with_the_state(remote: Option<RemoteView>)
    ensures
        match remote {
            Some(r) => {
                &&& r.state is AwaitingDuplex || r.state is Connected <==> duplex_action(remote)
                    == DuplexAction::Reply(true)
                &&& r.state is Disconnected || r.state is Error <==> duplex_action(remote)
                    == DuplexAction::ConnectAndWait
                &&& r.state is Connecting <==> duplex_action(remote) == DuplexAction::Wait
            },
            None => duplex_action(remote) == DuplexAction::Wait,
        },
{
}

/// A remote that waits is answered when it is told of a change to it, or that it is new, and this
/// side's half of the connection stands then; what happens to another remote, or to transfers and
/// messages, is no answer, nor is any change while this side's half does not stand.
pub proof fn waiting_remote_is_answered_for_itself(
    manager: ManagerView,
    id: Seq<char>,
    event: WarpEvent,
)
    ensures
        duplex_action_after(manager, id, DuplexWake::Event(event)) == DuplexAction::Reply(true)
            <==> (match event {
            WarpEvent::RemoteAdded(uuid) => uuid@ == id,
            WarpEvent::RemoteUpdated(uuid) => uuid@ == id,
            _ => false,
        }) && (manager.remote(id) matches Some(r) && (r.state is AwaitingDuplex
            || r.state is Connected)),
        duplex_action_after(manager, id, DuplexWake::Event(event)) == DuplexAction::Reply(true)
            || duplex_action_after(manager, id, DuplexWake::Event(event)) == DuplexAction::Wait,
        duplex_action_after(manager, id, DuplexWake::TimedOut) == DuplexAction::Reply(false),
{
}

/// A picture is cut into as few pieces as can be: every piece but the last is as large as allowed.
pub proof fn picture_is_cut_into_full_pieces(picture: Seq<u8>, size: nat)
    requires
        size > 0,
    ensures
        forall|i: int|
            0 <= i < cut(picture, size).len() - 1 ==> (#[trigger] cut(picture, size)[i]).len()
                == size,
        forall|i: int|
            0 <= i < cut(picture, size).len() ==> 0 < (#[trigger] cut(picture, size)[i]).len()
                <= size,
        picture.len() == 0 <==> cut(picture, size).len() == 0,
    decreases picture.len(),
{
    if picture.len() > size {
        let rest = picture.skip(size as int);
        picture_is_cut_into_full_pieces(rest, size);
        let pieces = cut(picture, size);
        assert(pieces =~= seq![picture.take(size as int)] + cut(rest, size));
        assert forall|i: int| 0 < i < pieces.len() implies #[trigger] pieces[i] == cut(
            rest,
            size,
        )[i - 1] by {}
    }
}

/// What is said of the pieces of a picture is what they hold, one by one and in order.
pub proof fn pieces_are_seen_as_they_are(pieces: Seq<RemoteMachineAvatar>)
    ensures
        piece_views(pieces).len() == pieces.len(),
        forall|i: int|
            0 <= i < pieces.len() ==> #[trigger] piece_views(pieces)[i] == pieces[i].avatar_chunk@,
{
}

} // verus!
