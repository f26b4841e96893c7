//! The remotes that are known, and what is exchanged with them.
use crate::config::protocol::ProtocolConfig;
use crate::server::remote_worker::{RemoteWorker, WorkerView};
use crate::text::same_text;
use crate::types::message::{Message, MessageView};
use crate::types::remote::{
    copy_messages, copy_transfers, Remote, RemoteState, RemoteView,
};
use crate::types::transfer::{Transfer, TransferUpdate, TransferView};
use vstd::prelude::*;

verus! {

/// What has happened to a remote.
#[non_exhaustive]
#[derive(Debug)]
pub enum WarpEvent {
    /// A remote, by its identifier, is new
    RemoteAdded(String),
    /// Something about a remote has changed
    RemoteUpdated(String),
    /// A remote has a new transfer; its identifier comes second
    TransferAdded(String, String),
    /// Something about a transfer has changed
    TransferUpdated(String, String),
    /// A transfer has been removed from a remote
    TransferRemoved(String, String),
    /// A remote has a new message; its identifier comes second
    MessageAdded(String, String),
    /// A message has been removed from a remote
    MessageRemoved(String, String),
}

/// What a [`WarpEvent`] says.
#[verifier::ext_equal]
pub enum WarpEventView {
    RemoteAdded(Seq<char>),
    RemoteUpdated(Seq<char>),
    TransferAdded(Seq<char>, Seq<char>),
    TransferUpdated(Seq<char>, Seq<char>),
    TransferRemoved(Seq<char>, Seq<char>),
    MessageAdded(Seq<char>, Seq<char>),
    MessageRemoved(Seq<char>, Seq<char>),
}

impl View for WarpEvent {
    type V = WarpEventView;

    open spec fn view(&self) -> WarpEventView {
        match self {
            WarpEvent::RemoteAdded(r) => WarpEventView::RemoteAdded(r@),
            WarpEvent::RemoteUpdated(r) => WarpEventView::RemoteUpdated(r@),
            WarpEvent::TransferAdded(r, t) => WarpEventView::TransferAdded(r@, t@),
            WarpEvent::TransferUpdated(r, t) => WarpEventView::TransferUpdated(r@, t@),
            WarpEvent::TransferRemoved(r, t) => WarpEventView::TransferRemoved(r@, t@),
            WarpEvent::MessageAdded(r, m) => WarpEventView::MessageAdded(r@, m@),
            WarpEvent::MessageRemoved(r, m) => WarpEventView::MessageRemoved(r@, m@),
        }
    }
}

impl Clone for WarpEvent {
    fn clone(&self) -> (r: Self)
        ensures
            r == *self,
    {
        match self {
            WarpEvent::RemoteAdded(r) => WarpEvent::RemoteAdded(r.clone()),
            WarpEvent::RemoteUpdated(r) => WarpEvent::RemoteUpdated(r.clone()),
            WarpEvent::TransferAdded(r, t) => WarpEvent::TransferAdded(r.clone(), t.clone()),
            WarpEvent::TransferUpdated(r, t) => WarpEvent::TransferUpdated(r.clone(), t.clone()),
            WarpEvent::TransferRemoved(r, t) => WarpEvent::TransferRemoved(r.clone(), t.clone()),
            WarpEvent::MessageAdded(r, m) => WarpEvent::MessageAdded(r.clone(), m.clone()),
            WarpEvent::MessageRemoved(r, m) => WarpEvent::MessageRemoved(r.clone(), m.clone()),
        }
    }
}

/// What a list of events says.
pub open spec fn event_views(events: Seq<WarpEvent>) -> Seq<WarpEventView> {
    events.map_values(|e: WarpEvent| e@)
}

/// Why a change was not made.
#[derive(Clone, Copy, Debug, PartialEq, Eq, Structural)]
pub enum UpdateError {
    NotFound,
}

impl UpdateError {
    /// What the error is called.
    pub open spec fn text(self) -> Seq<char> {
        "Resource not found"@
    }

    /// The error in words.
    pub fn message(&self) -> (r: String)
        ensures
            r@ == self.text(),
    {
        "Resource not found".to_string()
    }
}

/// A change to what is known of a remote.
#[derive(Debug)]
pub enum RemoteUpdate {
    /// The connection enters a state
    State(RemoteState),
    /// The remote's certificate is known
    Certificate(Vec<u8>),
    /// The remote has told who its user is
    MachineInfo { display_name: String, username: String },
    /// The remote has sent its user's picture
    Picture(Vec<u8>),
}

impl RemoteUpdate {
    /// The remote after the change.
    pub open spec fn applied(self, remote: RemoteView) -> RemoteView {
        match self {
            RemoteUpdate::State(state) => RemoteView { state, ..remote },
            RemoteUpdate::Certificate(pem) => RemoteView { cert_pem: Some(pem@), ..remote },
            RemoteUpdate::MachineInfo { display_name, username } => RemoteView {
                display_name: display_name@,
                username: username@,
                ..remote
            },
            RemoteUpdate::Picture(bytes) => RemoteView { picture: Some(bytes@), ..remote },
        }
    }
}

/// The identifiers of some remotes.
pub open spec fn remote_uuids(remotes: Seq<RemoteView>) -> Seq<Seq<char>> {
    remotes.map_values(|r: RemoteView| r.uuid)
}

/// The identifiers of some transfers.
pub open spec fn transfer_uuids(transfers: Seq<TransferView>) -> Seq<Seq<char>> {
    transfers.map_values(|t: TransferView| t.uuid)
}

/// The times of some transfers.
pub open spec fn transfer_times(transfers: Seq<TransferView>) -> Seq<u64> {
    transfers.map_values(|t: TransferView| t.timestamp)
}

/// The identifiers of some messages.
pub open spec fn message_uuids(messages: Seq<MessageView>) -> Seq<Seq<char>> {
    messages.map_values(|m: MessageView| m.uuid)
}

/// How this machine presents itself to every remote.
#[verifier::ext_equal]
pub struct ServerView {
    pub protocol_config: ProtocolConfig,
    pub hostname: Seq<char>,
    pub ip: Seq<char>,
    pub fullname: Seq<char>,
}

/// What a [`RemoteManager`] holds: the remotes in the order in which they became known, what
/// has happened and was not collected yet, and how this machine presents itself.
#[verifier::ext_equal]
pub struct ManagerView {
    pub remotes: Seq<RemoteView>,
    pub events: Seq<WarpEventView>,
    pub server: ServerView,
}

impl ManagerView {
    /// Where a remote is kept.
    pub open spec fn place(self, uuid: Seq<char>) -> Option<int> {
        crate::lookup::first_place(remote_uuids(self.remotes), uuid)
    }

    /// Where a remote keeps a transfer: the first with the identifier.
    pub open spec fn transfer_place(self, remote: int, uuid: Seq<char>) -> Option<int> {
        crate::lookup::first_place(transfer_uuids(self.remotes[remote].transfers), uuid)
    }

    /// Where a remote keeps a message: the first with the identifier.
    pub open spec fn message_place(self, remote: int, uuid: Seq<char>) -> Option<int> {
        crate::lookup::first_place(message_uuids(self.remotes[remote].messages), uuid)
    }

    /// A remote by its identifier.
    pub open spec fn remote(self, uuid: Seq<char>) -> Option<RemoteView> {
        match self.place(uuid) {
            Some(i) => Some(self.remotes[i]),
            None => None,
        }
    }

    /// A transfer by the identifiers of its remote and its own.
    pub open spec fn transfer(self, remote_uuid: Seq<char>, uuid: Seq<char>) -> Option<
        TransferView,
    > {
        match self.place(remote_uuid) {
            Some(i) => match self.transfer_place(i, uuid) {
                Some(k) => Some(self.remotes[i].transfers[k]),
                None => None,
            },
            None => None,
        }
    }

    /// The first transfer of a remote with a given time.
    pub open spec fn transfer_at_time(self, remote_uuid: Seq<char>, timestamp: u64) -> Option<
        TransferView,
    > {
        match self.place(remote_uuid) {
            Some(i) => match crate::lookup::first_place(
                transfer_times(self.remotes[i].transfers),
                timestamp,
            ) {
                Some(k) => Some(self.remotes[i].transfers[k]),
                None => None,
            },
            None => None,
        }
    }

    /// A message by the identifiers of its remote and its own.
    pub open spec fn message(self, remote_uuid: Seq<char>, uuid: Seq<char>) -> Option<
        MessageView,
    > {
        match self.place(remote_uuid) {
            Some(i) => match self.message_place(i, uuid) {
                Some(k) => Some(self.remotes[i].messages[k]),
                None => None,
            },
            None => None,
        }
    }

    /// The same with one remote replaced.
    pub open spec fn with_remote(self, i: int, remote: RemoteView) -> ManagerView {
        ManagerView { remotes: self.remotes.update(i, remote), ..self }
    }

    /// The same with the transfers of one remote replaced.
    pub open spec fn with_transfers(self, i: int, transfers: Seq<TransferView>) -> ManagerView {
        self.with_remote(i, RemoteView { transfers, ..self.remotes[i] })
    }

    /// The same with the messages of one remote replaced.
    pub open spec fn with_messages(self, i: int, messages: Seq<MessageView>) -> ManagerView {
        self.with_remote(i, RemoteView { messages, ..self.remotes[i] })
    }

    /// The same with one more thing that has happened.
    pub open spec fn notified(self, event: WarpEventView) -> ManagerView {
        ManagerView { events: self.events.push(event), ..self }
    }

    /// After a remote has been made known: it takes the place of one with the same identifier,
    /// or comes last.
    pub open spec fn remote_added(self, remote: RemoteView) -> ManagerView {
        (match self.place(remote.uuid) {
            Some(i) => self.with_remote(i, remote),
            None => ManagerView { remotes: self.remotes.push(remote), ..self },
        }).notified(WarpEventView::RemoteAdded(remote.uuid))
    }

    /// After a change to a remote; nothing where it is not known.
    pub open spec fn remote_updated(self, uuid: Seq<char>, update: RemoteUpdate) -> Option<
        ManagerView,
    > {
        match self.place(uuid) {
            Some(i) => Some(
                self.with_remote(i, update.applied(self.remotes[i])).notified(
                    WarpEventView::RemoteUpdated(uuid),
                ),
            ),
            None => None,
        }
    }

    /// After a transfer has been added to a remote; nothing where the remote is not known.
    pub open spec fn transfer_added(self, remote_uuid: Seq<char>, transfer: TransferView) -> Option<
        ManagerView,
    > {
        match self.place(remote_uuid) {
            Some(i) => Some(
                self.with_transfers(i, self.remotes[i].transfers.push(transfer)).notified(
                    WarpEventView::TransferAdded(remote_uuid, transfer.uuid),
                ),
            ),
            None => None,
        }
    }

    /// After a change to a transfer; nothing where it is not known.
    pub open spec fn transfer_updated(
        self,
        remote_uuid: Seq<char>,
        uuid: Seq<char>,
        update: TransferUpdate,
    ) -> Option<ManagerView> {
        match self.place(remote_uuid) {
            Some(i) => match self.transfer_place(i, uuid) {
                Some(k) => Some(
                    self.with_transfers(
                        i,
                        self.remotes[i].transfers.update(
                            k,
                            update.applied(self.remotes[i].transfers[k]),
                        ),
                    ).notified(WarpEventView::TransferUpdated(remote_uuid, uuid)),
                ),
                None => None,
            },
            None => None,
        }
    }

    /// After a transfer has been removed; nothing where it is not known.
    pub open spec fn transfer_removed(self, remote_uuid: Seq<char>, uuid: Seq<char>) -> Option<
        ManagerView,
    > {
        match self.place(remote_uuid) {
            Some(i) => match self.transfer_place(i, uuid) {
                Some(k) => Some(
                    self.with_transfers(i, self.remotes[i].transfers.remove(k)).notified(
                        WarpEventView::TransferRemoved(remote_uuid, uuid),
                    ),
                ),
                None => None,
            },
            None => None,
        }
    }

    /// After a message has been added to a remote; nothing where the remote is not known.
    pub open spec fn message_added(self, remote_uuid: Seq<char>, message: MessageView) -> Option<
        ManagerView,
    > {
        match self.place(remote_uuid) {
            Some(i) => Some(
                self.with_messages(i, self.remotes[i].messages.push(message)).notified(
                    WarpEventView::MessageAdded(remote_uuid, message.uuid),
                ),
            ),
            None => None,
        }
    }

    /// After a message has been removed; nothing where it is not known.
    pub open spec fn message_removed(self, remote_uuid: Seq<char>, uuid: Seq<char>) -> Option<
        ManagerView,
    > {
        match self.place(remote_uuid) {
            Some(i) => match self.message_place(i, uuid) {
                Some(k) => Some(
                    self.with_messages(i, self.remotes[i].messages.remove(k)).notified(
                        WarpEventView::MessageRemoved(remote_uuid, uuid),
                    ),
                ),
                None => None,
            },
            None => None,
        }
    }

    /// Whether a change keeps a transfer's count of bytes within its type.
    pub open spec fn update_fits(
        self,
        remote_uuid: Seq<char>,
        uuid: Seq<char>,
        update: TransferUpdate,
    ) -> bool {
        self.transfer(remote_uuid, uuid) matches Some(t) ==> update.fits(t)
    }

    /// The worker of a remote.
    pub open spec fn worker(self, uuid: Seq<char>) -> WorkerView {
        WorkerView { uuid, server: self.server }
    }
}

/// Whether a change that may not have been possible came out as it should: made where it was
/// possible, and refused, with nothing changed, where it was not.
pub open spec fn change_came_out(
    before: ManagerView,
    change: Option<ManagerView>,
    after: ManagerView,
    r: Result<(), UpdateError>,
) -> bool {
    match change {
        Some(changed) => r is Ok && after == changed,
        None => r == Err::<(), UpdateError>(UpdateError::NotFound) && after == before,
    }
}

/// What a list of remotes says.
pub open spec fn remote_views(remotes: Seq<Remote>) -> Seq<RemoteView> {
    remotes.map_values(|r: Remote| r@)
}

/// The remotes that are known, each with its worker, and what has happened to them since it was
/// last asked.
#[derive(Debug)]
pub struct RemoteManager {
    remotes: Vec<Remote>,
    workers: Vec<RemoteWorker>,
    events: Vec<WarpEvent>,
    protocol_config: ProtocolConfig,
    server_hostname: String,
    server_ip: String,
    server_fullname: String,
}

impl View for RemoteManager {
    type V = ManagerView;

    closed spec fn view(&self) -> ManagerView {
        ManagerView {
            remotes: remote_views(self.remotes@),
            events: event_views(self.events@),
            server: ServerView {
                protocol_config: self.protocol_config,
                hostname: self.server_hostname@,
                ip: self.server_ip@,
                fullname: self.server_fullname@,
            },
        }
    }
}

impl RemoteManager {
    /// No two remotes have the same identifier, and every remote has a worker of its own.
    pub closed spec fn wf(self) -> bool {
        &&& forall|i: int, j: int|
            0 <= i < j < self@.remotes.len() ==> #[trigger] self@.remotes[i].uuid
                != #[trigger] self@.remotes[j].uuid
        &&& self.workers@.len() == self@.remotes.len()
        &&& forall|i: int|
            0 <= i < self@.remotes.len() ==> (#[trigger] self.workers@[i])@ == self@.worker(
                self@.remotes[i].uuid,
            )
    }

    /// A manager that knows no remote.
    pub fn new(
        protocol_config: ProtocolConfig,
        server_hostname: String,
        server_ip: String,
        server_fullname: String,
    ) -> (r: Self)
        ensures
            r.wf(),
            r@ == (ManagerView {
                remotes: Seq::empty(),
                events: Seq::empty(),
                server: ServerView {
                    protocol_config,
                    hostname: server_hostname@,
                    ip: server_ip@,
                    fullname: server_fullname@,
                },
            }),
    {
        let r = RemoteManager {
            remotes: Vec::new(),
            workers: Vec::new(),
            events: Vec::new(),
            protocol_config,
            server_hostname,
            server_ip,
            server_fullname,
        };
        assert(r@.remotes =~= Seq::empty());
        assert(r@.events =~= Seq::empty());
        r
    }

    fn find(&self, uuid: &str) -> (r: Option<usize>)
        ensures
            match r {
                Some(i) => self@.place(uuid@) == Some(i as int) && i < self.remotes@.len(),
                None => self@.place(uuid@) is None,
            },
    {
        let ghost keys = remote_uuids(self@.remotes);
        for i in 0..self.remotes.len()
            invariant
                keys == remote_uuids(self@.remotes),
                forall|j: int| 0 <= j < i ==> keys[j] != uuid@,
        {
            if same_text(&self.remotes[i].uuid, uuid) {
                proof {
                    crate::lookup::lemma_first_place_is(keys, uuid@, i as int);
                }
                return Some(i);
            }
        }
        proof {
            crate::lookup::lemma_first_place(keys, uuid@);
        }
        None
    }

    fn notify(&mut self, event: WarpEvent)
        ensures
            final(self)@ == old(self)@.notified(event@),
            final(self).remotes == old(self).remotes,
            final(self).workers == old(self).workers,
    {
        self.events.push(event);
        assert(self@.events =~= old(self)@.events.push(event@));
    }

    fn make_worker(&self, uuid: String) -> (r: RemoteWorker)
        ensures
            r@ == self@.worker(uuid@),
    {
        RemoteWorker::new(
            uuid,
            self.protocol_config,
            self.server_hostname.clone(),
            self.server_ip.clone(),
            self.server_fullname.clone(),
        )
    }

    /// Makes a remote known, and gives it a worker.
    pub fn add_remote(&mut self, remote: Remote) -> (r: RemoteWorker)
        requires
            old(self).wf(),
        ensures
            final(self).wf(),
            final(self)@ == old(self)@.remote_added(remote@),
            r@ == old(self)@.worker(remote@.uuid),
    {
        let uuid = remote.uuid.clone();
        let worker = self.make_worker(uuid.clone());
        let kept = self.make_worker(uuid.clone());
        match self.find(&uuid) {
            Some(i) => {
                proof {
                    crate::lookup::lemma_first_place(remote_uuids(self@.remotes), uuid@);
                }
                self.remotes.set(i, remote);
                self.workers.set(i, kept);
                assert(self@.remotes =~= old(self)@.remotes.update(i as int, remote@));
            },
            None => {
                proof {
                    crate::lookup::lemma_first_place(remote_uuids(self@.remotes), uuid@);
                    assert forall|j: int| 0 <= j < self@.remotes.len() implies (
                    #[trigger] self@.remotes[j]).uuid != uuid@ by {
                        assert(remote_uuids(self@.remotes)[j] == self@.remotes[j].uuid);
                    }
                }
                self.remotes.push(remote);
                self.workers.push(kept);
                assert(self@.remotes =~= old(self)@.remotes.push(remote@));
            },
        }
        self.notify(WarpEvent::RemoteAdded(uuid));
        worker
    }

    /// Changes what is known of a remote.
    pub fn update_remote(&mut self, uuid: &str, update: RemoteUpdate) -> (r: Result<
        (),
        UpdateError,
    >)
        requires
            old(self).wf(),
        ensures
            final(self).wf(),
            change_came_out(
                old(self)@,
                old(self)@.remote_updated(uuid@, update),
                final(self)@,
                r,
            ),
    {
        if let Some(i) = self.find(uuid) {
            match update {
                RemoteUpdate::State(state) => {
                    self.remotes[i].state = state;
                },
                RemoteUpdate::Certificate(pem) => {
                    self.remotes[i].cert_pem = Some(pem);
                },
                RemoteUpdate::MachineInfo { display_name, username } => {
                    self.remotes[i].display_name = display_name;
                    self.remotes[i].username = username;
                },
                RemoteUpdate::Picture(bytes) => {
                    self.remotes[i].picture = Some(bytes);
                },
            }
            proof {
                let changed = update.applied(old(self)@.remotes[i as int]);
                assert(self@.remotes =~= old(self)@.remotes.update(i as int, changed));
            }
            self.notify(WarpEvent::RemoteUpdated(uuid.to_string()));
            Ok(())
        } else {
            Err(UpdateError::NotFound)
        }
    }

    /// Adds a transfer to a remote.
    pub fn add_transfer(&mut self, remote_uuid: &str, transfer: Transfer) -> (r: Result<
        (),
        UpdateError,
    >)
        requires
            old(self).wf(),
        ensures
            final(self).wf(),
            change_came_out(
                old(self)@,
                old(self)@.transfer_added(remote_uuid@, transfer@),
                final(self)@,
                r,
            ),
    {
        let transfer_uuid = transfer.uuid.clone();
        if let Some(i) = self.find(remote_uuid) {
            self.remotes[i].transfers.push(transfer);
            proof {
                let transfers = old(self)@.remotes[i as int].transfers.push(transfer@);
                assert(self@.remotes[i as int].transfers =~= transfers);
                assert(self@.remotes =~= old(self)@.with_transfers(i as int, transfers).remotes);
            }
            self.notify(WarpEvent::TransferAdded(remote_uuid.to_string(), transfer_uuid));
            Ok(())
        } else {
            Err(UpdateError::NotFound)
        }
    }

    fn find_transfer(&self, remote: usize, uuid: &str) -> (r: Option<usize>)
        requires
            remote < self.remotes@.len(),
        ensures
            match r {
                Some(k) => self@.transfer_place(remote as int, uuid@) == Some(k as int) && k
                    < self.remotes@[remote as int].transfers@.len(),
                None => self@.transfer_place(remote as int, uuid@) is None,
            },
    {
        let transfers = &self.remotes[remote].transfers;
        let ghost keys = transfer_uuids(self@.remotes[remote as int].transfers);
        for k in 0..transfers.len()
            invariant
                remote < self.remotes@.len(),
                transfers == self.remotes@[remote as int].transfers,
                keys == transfer_uuids(self@.remotes[remote as int].transfers),
                forall|j: int| 0 <= j < k ==> keys[j] != uuid@,
        {
            if same_text(&transfers[k].uuid, uuid) {
                proof {
                    crate::lookup::lemma_first_place_is(keys, uuid@, k as int);
                }
                return Some(k);
            }
        }
        proof {
            crate::lookup::lemma_first_place(keys, uuid@);
        }
        None
    }

    /// Changes a transfer.
    pub fn update_transfer(
        &mut self,
        remote_uuid: &str,
        transfer_uuid: &str,
        update: TransferUpdate,
    ) -> (r: Result<(), UpdateError>)
        requires
            old(self).wf(),
            old(self)@.update_fits(remote_uuid@, transfer_uuid@, update),
        ensures
            final(self).wf(),
            change_came_out(
                old(self)@,
                old(self)@.transfer_updated(remote_uuid@, transfer_uuid@, update),
                final(self)@,
                r,
            ),
    {
        if let Some(i) = self.find(remote_uuid) {
            if let Some(k) = self.find_transfer(i, transfer_uuid) {
                self.remotes[i].transfers[k].apply(update);
                proof {
                    let before = old(self)@.remotes[i as int].transfers;
                    let transfers = before.update(k as int, update.applied(before[k as int]));
                    assert(self@.remotes[i as int].transfers =~= transfers);
                    assert(self@.remotes =~= old(self)@.with_transfers(
                        i as int,
                        transfers,
                    ).remotes);
                }
                self.notify(
                    WarpEvent::TransferUpdated(remote_uuid.to_string(), transfer_uuid.to_string()),
                );
                return Ok(());
            }
        }
        Err(UpdateError::NotFound)
    }

    /// Removes a transfer from a remote.
    pub fn remove_transfer(&mut self, remote_uuid: &str, transfer_uuid: &str) -> (r: Result<
        (),
        UpdateError,
    >)
        requires
            old(self).wf(),
        ensures
            final(self).wf(),
            change_came_out(
                old(self)@,
                old(self)@.transfer_removed(remote_uuid@, transfer_uuid@),
                final(self)@,
                r,
            ),
    {
        if let Some(i) = self.find(remote_uuid) {
            if let Some(k) = self.find_transfer(i, transfer_uuid) {
                self.remotes[i].transfers.remove(k);
                proof {
                    let transfers = old(self)@.remotes[i as int].transfers.remove(k as int);
                    assert(self@.remotes[i as int].transfers =~= transfers);
                    assert(self@.remotes =~= old(self)@.with_transfers(
                        i as int,
                        transfers,
                    ).remotes);
                }
                self.notify(
                    WarpEvent::TransferRemoved(remote_uuid.to_string(), transfer_uuid.to_string()),
                );
                return Ok(());
            }
        }
        Err(UpdateError::NotFound)
    }

    /// Adds a message to a remote.
    pub fn add_message(&mut self, remote_uuid: &str, message: Message) -> (r: Result<
        (),
        UpdateError,
    >)
        requires
            old(self).wf(),
        ensures
            final(self).wf(),
            change_came_out(
                old(self)@,
                old(self)@.message_added(remote_uuid@, message@),
                final(self)@,
                r,
            ),
    {
        let message_uuid = message.uuid.clone();
        if let Some(i) = self.find(remote_uuid) {
            self.remotes[i].messages.push(message);
            proof {
                let messages = old(self)@.remotes[i as int].messages.push(message@);
                assert(self@.remotes[i as int].messages =~= messages);
                assert(self@.remotes =~= old(self)@.with_messages(i as int, messages).remotes);
            }
            self.notify(WarpEvent::MessageAdded(remote_uuid.to_string(), message_uuid));
            Ok(())
        } else {
            Err(UpdateError::NotFound)
        }
    }

    fn find_message(&self, remote: usize, uuid: &str) -> (r: Option<usize>)
        requires
            remote < self.remotes@.len(),
        ensures
            match r {
                Some(k) => self@.message_place(remote as int, uuid@) == Some(k as int) && k
                    < self.remotes@[remote as int].messages@.len(),
                None => self@.message_place(remote as int, uuid@) is None,
            },
    {
        let messages = &self.remotes[remote].messages;
        let ghost keys = message_uuids(self@.remotes[remote as int].messages);
        for k in 0..messages.len()
            invariant
                remote < self.remotes@.len(),
                messages == self.remotes@[remote as int].messages,
                keys == message_uuids(self@.remotes[remote as int].messages),
                forall|j: int| 0 <= j < k ==> keys[j] != uuid@,
        {
            if same_text(&messages[k].uuid, uuid) {
                proof {
                    crate::lookup::lemma_first_place_is(keys, uuid@, k as int);
                }
                return Some(k);
            }
        }
        proof {
            crate::lookup::lemma_first_place(keys, uuid@);
        }
        None
    }

    /// Removes a message from a remote.
    pub fn remove_message(&mut self, remote_uuid: &str, message_uuid: &str) -> (r: Result<
        (),
        UpdateError,
    >)
        requires
            old(self).wf(),
        ensures
            final(self).wf(),
            change_came_out(
                old(self)@,
                old(self)@.message_removed(remote_uuid@, message_uuid@),
                final(self)@,
                r,
            ),
    {
        if let Some(i) = self.find(remote_uuid) {
            if let Some(k) = self.find_message(i, message_uuid) {
                self.remotes[i].messages.remove(k);
                proof {
                    let messages = old(self)@.remotes[i as int].messages.remove(k as int);
                    assert(self@.remotes[i as int].messages =~= messages);
                    assert(self@.remotes =~= old(self)@.with_messages(
                        i as int,
                        messages,
                    ).remotes);
                }
                self.notify(
                    WarpEvent::MessageRemoved(remote_uuid.to_string(), message_uuid.to_string()),
                );
                return Ok(());
            }
        }
        Err(UpdateError::NotFound)
    }

    /// Hands over what has happened since it was last asked, oldest first.
    pub fn take_events(&mut self) -> (r: Vec<WarpEvent>)
        requires
            old(self).wf(),
        ensures
            final(self).wf(),
            event_views(r@) == old(self)@.events,
            final(self)@ == (ManagerView { events: Seq::empty(), ..old(self)@ }),
    {
        let mut events: Vec<WarpEvent> = Vec::new();
        std::mem::swap(&mut events, &mut self.events);
        assert(self@.events =~= Seq::empty());
        events
    }

    /// The worker of a remote.
    pub fn get_worker(&self, uuid: &str) -> (r: Option<RemoteWorker>)
        requires
            self.wf(),
        ensures
            match r {
                Some(worker) => self@.remote(uuid@) is Some && worker@ == self@.worker(uuid@),
                None => self@.remote(uuid@) is None,
            },
    {
        match self.find(uuid) {
            Some(i) => {
                proof {
                    crate::lookup::lemma_first_place(remote_uuids(self@.remotes), uuid@);
                }
                Some(self.workers[i].clone())
            },
            None => None,
        }
    }

    /// What is known of a remote.
    pub fn remote(&self, uuid: &str) -> (r: Option<Remote>)
        requires
            self.wf(),
        ensures
            match r {
                Some(remote) => self@.remote(uuid@) == Some(remote@),
                None => self@.remote(uuid@) is None,
            },
    {
        match self.find(uuid) {
            Some(i) => Some(self.remotes[i].clone()),
            None => None,
        }
    }

    /// All the remotes that are known, each once.
    pub fn remotes(&self) -> (r: Vec<Remote>)
        requires
            self.wf(),
        ensures
            remote_views(r@) == self@.remotes,
    {
        let r = self.remotes.clone();
        assert(remote_views(r@) =~= self@.remotes);
        r
    }

    /// A transfer of a remote.
    pub fn transfer(&self, remote_uuid: &str, transfer_uuid: &str) -> (r: Option<Transfer>)
        requires
            self.wf(),
        ensures
            match r {
                Some(transfer) => self@.transfer(remote_uuid@, transfer_uuid@) == Some(transfer@),
                None => self@.transfer(remote_uuid@, transfer_uuid@) is None,
            },
    {
        match self.find(remote_uuid) {
            Some(i) => match self.find_transfer(i, transfer_uuid) {
                Some(k) => Some(self.remotes[i].transfers[k].clone()),
                None => None,
            },
            None => None,
        }
    }

    /// The first transfer of a remote that was created at a given time.
    pub fn transfer_by_timestamp(&self, remote_uuid: &str, transfer_timestamp: u64) -> (r: Option<
        Transfer,
    >)
        requires
            self.wf(),
        ensures
            match r {
                Some(transfer) => self@.transfer_at_time(remote_uuid@, transfer_timestamp) == Some(
                    transfer@,
                ),
                None => self@.transfer_at_time(remote_uuid@, transfer_timestamp) is None,
            },
    {
        let i = match self.find(remote_uuid) {
            Some(i) => i,
            None => {
                return None;
            },
        };
        let transfers = &self.remotes[i].transfers;
        let ghost keys = transfer_times(self@.remotes[i as int].transfers);
        for k in 0..transfers.len()
            invariant
                i < self.remotes@.len(),
                self@.place(remote_uuid@) == Some(i as int),
                transfers == self.remotes@[i as int].transfers,
                keys == transfer_times(self@.remotes[i as int].transfers),
                forall|j: int| 0 <= j < k ==> keys[j] != transfer_timestamp,
        {
            if transfers[k].timestamp == transfer_timestamp {
                proof {
                    crate::lookup::lemma_first_place_is(keys, transfer_timestamp, k as int);
                }
                return Some(transfers[k].clone());
            }
        }
        proof {
            crate::lookup::lemma_first_place(keys, transfer_timestamp);
        }
        None
    }

    /// All the transfers of a remote.
    pub fn transfers(&self, remote_uuid: &str) -> (r: Option<Vec<Transfer>>)
        requires
            self.wf(),
        ensures
            match r {
                Some(transfers) => self@.remote(remote_uuid@) matches Some(remote)
                    && crate::types::remote::transfer_views(transfers@) == remote.transfers,
                None => self@.remote(remote_uuid@) is None,
            },
    {
        match self.find(remote_uuid) {
            Some(i) => Some(copy_transfers(&self.remotes[i].transfers)),
            None => None,
        }
    }

    /// A message exchanged with a remote.
    pub fn message(&self, remote_uuid: &str, message_uuid: &str) -> (r: Option<Message>)
        requires
            self.wf(),
        ensures
            match r {
                Some(message) => self@.message(remote_uuid@, message_uuid@) == Some(message@),
                None => self@.message(remote_uuid@, message_uuid@) is None,
            },
    {
        match self.find(remote_uuid) {
            Some(i) => match self.find_message(i, message_uuid) {
                Some(k) => Some(self.remotes[i].messages[k].clone()),
                None => None,
            },
            None => None,
        }
    }

    /// All the messages exchanged with a remote.
    pub fn messages(&self, remote_uuid: &str) -> (r: Option<Vec<Message>>)
        requires
            self.wf(),
        ensures
            match r {
                Some(messages) => self@.remote(remote_uuid@) matches Some(remote)
                    && crate::types::remote::message_views(messages@) == remote.messages,
                None => self@.remote(remote_uuid@) is None,
            },
    {
        match self.find(remote_uuid) {
            Some(i) => Some(copy_messages(&self.remotes[i].messages)),
            None => None,
        }
    }
}

/// The identifiers tell the remotes apart.
pub proof fn remotes_have_distinct_identifiers(manager: RemoteManager)
    requires
        manager.wf(),
    ensures
        forall|i: int, j: int|
            0 <= i < j < manager@.remotes.len() ==> #[trigger] manager@.remotes[i].uuid
                != #[trigger] manager@.remotes[j].uuid,
{
}

/// What is kept at a place is what is looked up there.
proof fn lemma_place(m: ManagerView, uuid: Seq<char>)
    ensures
        m.place(uuid) matches Some(i) ==> 0 <= i < m.remotes.len() && m.remotes[i].uuid == uuid,
{
    crate::lookup::lemma_first_place(remote_uuids(m.remotes), uuid);
}

/// Replacing what is known of a remote, but not its identifier, moves no remote.
proof fn lemma_places_stay(m: ManagerView, i: int, remote: RemoteView)
    requires
        0 <= i < m.remotes.len(),
        remote.uuid == m.remotes[i].uuid,
    ensures
        forall|u: Seq<char>| #[trigger] m.with_remote(i, remote).place(u) == m.place(u),
{
    assert(remote_uuids(m.with_remote(i, remote).remotes) =~= remote_uuids(m.remotes));
}

/// A remote that has been made known is the one that is looked up under its identifier, and
/// every other remote is as it was.
pub proof fn added_remote_is_known(m: ManagerView, remote: RemoteView, other: Seq<char>)
    ensures
        m.remote_added(remote).remote(remote.uuid) == Some(remote),
        other != remote.uuid ==> m.remote_added(remote).remote(other) == m.remote(other),
{
    let after = m.remote_added(remote);
    lemma_place(m, remote.uuid);
    lemma_place(m, other);
    match m.place(remote.uuid) {
        Some(i) => {
            lemma_places_stay(m, i, remote);
            assert(after.place(remote.uuid) == m.with_remote(i, remote).place(remote.uuid));
            assert(after.place(other) == m.with_remote(i, remote).place(other));
        },
        None => {
            assert(remote_uuids(after.remotes) =~= remote_uuids(m.remotes).push(remote.uuid));
            crate::lookup::lemma_first_place_push(
                remote_uuids(m.remotes),
                remote.uuid,
                remote.uuid,
            );
            crate::lookup::lemma_first_place_push(remote_uuids(m.remotes), remote.uuid, other);
        },
    }
}

/// A change to a remote is made to that remote alone, and is possible exactly where the remote
/// is known.
pub proof fn updated_remote_is_changed_alone(
    m: ManagerView,
    uuid: Seq<char>,
    update: RemoteUpdate,
    other: Seq<char>,
)
    ensures
        m.remote_updated(uuid, update) is Some <==> m.remote(uuid) is Some,
        m.remote_updated(uuid, update) matches Some(after) ==> {
            &&& after.remote(uuid) == Some(update.applied(m.remote(uuid)->0))
            &&& other != uuid ==> after.remote(other) == m.remote(other)
            &&& after.events == m.events.push(WarpEventView::RemoteUpdated(uuid))
        },
{
    lemma_place(m, uuid);
    lemma_place(m, other);
    if let Some(i) = m.place(uuid) {
        let changed = m.with_remote(i, update.applied(m.remotes[i]));
        lemma_places_stay(m, i, update.applied(m.remotes[i]));
        let after = m.remote_updated(uuid, update)->0;
        assert(after.place(uuid) == changed.place(uuid));
        assert(after.place(other) == changed.place(other));
    }
}

/// Replacing the transfers of a remote changes no other remote and nothing else about it.
proof fn lemma_with_transfers(
    m: ManagerView,
    i: int,
    transfers: Seq<TransferView>,
    event: WarpEventView,
)
    requires
        0 <= i < m.remotes.len(),
    ensures
        forall|u: Seq<char>|
            #[trigger] m.with_transfers(i, transfers).notified(event).place(u) == m.place(u),
{
    assert(remote_uuids(m.with_transfers(i, transfers).notified(event).remotes) =~= remote_uuids(
        m.remotes,
    ));
}

proof fn lemma_with_messages(
    m: ManagerView,
    i: int,
    messages: Seq<MessageView>,
    event: WarpEventView,
)
    requires
        0 <= i < m.remotes.len(),
    ensures
        forall|u: Seq<char>|
            #[trigger] m.with_messages(i, messages).notified(event).place(u) == m.place(u),
{
    assert(remote_uuids(m.with_messages(i, messages).notified(event).remotes) =~= remote_uuids(
        m.remotes,
    ));
}

/// A transfer with an identifier that the remote has not seen is found under it once it has
/// been added; every other transfer is as it was, and so is every other remote.
pub proof fn added_transfer_is_found(
    m: ManagerView,
    remote_uuid: Seq<char>,
    transfer: TransferView,
    other_remote: Seq<char>,
    other: Seq<char>,
)
    requires
        m.transfer(remote_uuid, transfer.uuid) is None,
    ensures
        m.transfer_added(remote_uuid, transfer) is Some <==> m.remote(remote_uuid) is Some,
        m.transfer_added(remote_uuid, transfer) matches Some(after) ==> {
            &&& after.transfer(remote_uuid, transfer.uuid) == Some(transfer)
            &&& other != transfer.uuid ==> after.transfer(remote_uuid, other) == m.transfer(
                remote_uuid,
                other,
            )
            &&& other_remote != remote_uuid ==> after.remote(other_remote) == m.remote(other_remote)
            &&& after.events == m.events.push(
                WarpEventView::TransferAdded(remote_uuid, transfer.uuid),
            )
        },
{
    lemma_place(m, remote_uuid);
    lemma_place(m, other_remote);
    if let Some(i) = m.place(remote_uuid) {
        let before = m.remotes[i].transfers;
        let after = m.transfer_added(remote_uuid, transfer)->0;
        lemma_with_transfers(
            m,
            i,
            before.push(transfer),
            WarpEventView::TransferAdded(remote_uuid, transfer.uuid),
        );
        assert(after.place(remote_uuid) == Some(i));
        assert(after.place(other_remote) == m.place(other_remote));
        assert(transfer_uuids(before.push(transfer)) =~= transfer_uuids(before).push(
            transfer.uuid,
        ));
        crate::lookup::lemma_first_place_push(
            transfer_uuids(before),
            transfer.uuid,
            transfer.uuid,
        );
        crate::lookup::lemma_first_place_push(transfer_uuids(before), transfer.uuid, other);
        crate::lookup::lemma_first_place(transfer_uuids(before), other);
    }
}

/// Removing a transfer undoes adding it: what is known of every remote is as before, and both
/// are announced.
pub proof fn removing_undoes_adding_a_transfer(
    m: ManagerView,
    remote_uuid: Seq<char>,
    transfer: TransferView,
)
    requires
        m.remote(remote_uuid) is Some,
        m.transfer(remote_uuid, transfer.uuid) is None,
    ensures
        m.transfer_added(remote_uuid, transfer) is Some,
        m.transfer_added(remote_uuid, transfer)->0.transfer_removed(remote_uuid, transfer.uuid)
            == Some(
            m.notified(WarpEventView::TransferAdded(remote_uuid, transfer.uuid)).notified(
                WarpEventView::TransferRemoved(remote_uuid, transfer.uuid),
            ),
        ),
{
    lemma_place(m, remote_uuid);
    let i = m.place(remote_uuid)->0;
    let before = m.remotes[i].transfers;
    let after = m.transfer_added(remote_uuid, transfer)->0;
    lemma_with_transfers(
        m,
        i,
        before.push(transfer),
        WarpEventView::TransferAdded(remote_uuid, transfer.uuid),
    );
    assert(after.place(remote_uuid) == Some(i));
    assert(transfer_uuids(before.push(transfer)) =~= transfer_uuids(before).push(transfer.uuid));
    crate::lookup::lemma_first_place_push(transfer_uuids(before), transfer.uuid, transfer.uuid);
    assert(before.push(transfer).remove(before.len() as int) =~= before);
    let back = after.transfer_removed(remote_uuid, transfer.uuid)->0;
    assert(back.remotes =~= m.remotes);
}

/// A change to a transfer is made to the one that is looked up, and to it alone.
pub proof fn updated_transfer_is_changed_alone(
    m: ManagerView,
    remote_uuid: Seq<char>,
    uuid: Seq<char>,
    update: TransferUpdate,
    other_remote: Seq<char>,
    other: Seq<char>,
)
    ensures
        m.transfer_updated(remote_uuid, uuid, update) is Some <==> m.transfer(
            remote_uuid,
            uuid,
        ) is Some,
        m.transfer_updated(remote_uuid, uuid, update) matches Some(after) ==> {
            &&& after.transfer(remote_uuid, uuid) == Some(
                update.applied(m.transfer(remote_uuid, uuid)->0),
            )
            &&& other != uuid ==> after.transfer(remote_uuid, other) == m.transfer(
                remote_uuid,
                other,
            )
            &&& other_remote != remote_uuid ==> after.remote(other_remote) == m.remote(other_remote)
            &&& after.events == m.events.push(WarpEventView::TransferUpdated(remote_uuid, uuid))
        },
{
    lemma_place(m, remote_uuid);
    lemma_place(m, other_remote);
    if let Some(i) = m.place(remote_uuid) {
        let before = m.remotes[i].transfers;
        crate::lookup::lemma_first_place(transfer_uuids(before), uuid);
        crate::lookup::lemma_first_place(transfer_uuids(before), other);
        if let Some(k) = m.transfer_place(i, uuid) {
            let changed = before.update(k, update.applied(before[k]));
            let after = m.transfer_updated(remote_uuid, uuid, update)->0;
            lemma_with_transfers(
                m,
                i,
                changed,
                WarpEventView::TransferUpdated(remote_uuid, uuid),
            );
            assert(after.place(remote_uuid) == Some(i));
            assert(after.place(other_remote) == m.place(other_remote));
            assert(transfer_uuids(changed) =~= transfer_uuids(before));
        }
    }
}

/// A message with an identifier that the remote has not seen is found under it once it has been
/// added; every other message is as it was, and so is every other remote.
pub proof fn added_message_is_found(
    m: ManagerView,
    remote_uuid: Seq<char>,
    message: MessageView,
    other_remote: Seq<char>,
    other: Seq<char>,
)
    requires
        m.message(remote_uuid, message.uuid) is None,
    ensures
        m.message_added(remote_uuid, message) is Some <==> m.remote(remote_uuid) is Some,
        m.message_added(remote_uuid, message) matches Some(after) ==> {
            &&& after.message(remote_uuid, message.uuid) == Some(message)
            &&& other != message.uuid ==> after.message(remote_uuid, other) == m.message(
                remote_uuid,
                other,
            )
            &&& other_remote != remote_uuid ==> after.remote(other_remote) == m.remote(other_remote)
            &&& after.events == m.events.push(
                WarpEventView::MessageAdded(remote_uuid, message.uuid),
            )
        },
{
    lemma_place(m, remote_uuid);
    lemma_place(m, other_remote);
    if let Some(i) = m.place(remote_uuid) {
        let before = m.remotes[i].messages;
        let after = m.message_added(remote_uuid, message)->0;
        lemma_with_messages(
            m,
            i,
            before.push(message),
            WarpEventView::MessageAdded(remote_uuid, message.uuid),
        );
        assert(after.place(remote_uuid) == Some(i));
        assert(after.place(other_remote) == m.place(other_remote));
        assert(message_uuids(before.push(message)) =~= message_uuids(before).push(message.uuid));
        crate::lookup::lemma_first_place_push(message_uuids(before), message.uuid, message.uuid);
        crate::lookup::lemma_first_place_push(message_uuids(before), message.uuid, other);
        crate::lookup::lemma_first_place(message_uuids(before), other);
    }
}

/// Removing a message undoes adding it: what is known of every remote is as before, and both
/// are announced.
pub proof fn removing_undoes_adding_a_message(
    m: ManagerView,
    remote_uuid: Seq<char>,
    message: MessageView,
)
    requires
        m.remote(remote_uuid) is Some,
        m.message(remote_uuid, message.uuid) is None,
    ensures
        m.message_added(remote_uuid, message) is Some,
        m.message_added(remote_uuid, message)->0.message_removed(remote_uuid, message.uuid)
            == Some(
            m.notified(WarpEventView::MessageAdded(remote_uuid, message.uuid)).notified(
                WarpEventView::MessageRemoved(remote_uuid, message.uuid),
            ),
        ),
{
    lemma_place(m, remote_uuid);
    let i = m.place(remote_uuid)->0;
    let before = m.remotes[i].messages;
    let after = m.message_added(remote_uuid, message)->0;
    lemma_with_messages(
        m,
        i,
        before.push(message),
        WarpEventView::MessageAdded(remote_uuid, message.uuid),
    );
    assert(after.place(remote_uuid) == Some(i));
    assert(message_uuids(before.push(message)) =~= message_uuids(before).push(message.uuid));
    crate::lookup::lemma_first_place_push(message_uuids(before), message.uuid, message.uuid);
    assert(before.push(message).remove(before.len() as int) =~= before);
    let back = after.message_removed(remote_uuid, message.uuid)->0;
    assert(back.remotes =~= m.remotes);
}

/// What is listed is what is known: every listed remote is the one that is looked up under its
/// identifier, and every remote that can be looked up is listed.
pub proof fn listed_remotes_are_known(manager: RemoteManager, uuid: Seq<char>)
    requires
        manager.wf(),
    ensures
        forall|i: int|
            0 <= i < manager@.remotes.len() ==> manager@.remote(
                (#[trigger] manager@.remotes[i]).uuid,
            ) == Some(manager@.remotes[i]),
        manager@.remote(uuid) matches Some(remote) ==> remote.uuid == uuid
            && manager@.remotes.contains(remote),
{
    let remotes = manager@.remotes;
    let keys = remote_uuids(remotes);
    lemma_place(manager@, uuid);
    assert forall|i: int| 0 <= i < remotes.len() implies manager@.remote(
        (#[trigger] remotes[i]).uuid,
    ) == Some(remotes[i]) by {
        assert forall|j: int| 0 <= j < i implies keys[j] != remotes[i].uuid by {
            assert(keys[j] == remotes[j].uuid);
        }
        crate::lookup::lemma_first_place_is(keys, remotes[i].uuid, i);
    }
}

/// Removing a transfer is possible exactly where it is known, and leaves every other transfer
/// and every other remote as it was.
pub proof fn removed_transfer_goes_alone(
    m: ManagerView,
    remote_uuid: Seq<char>,
    uuid: Seq<char>,
    other_remote: Seq<char>,
    other: Seq<char>,
)
    ensures
        m.transfer_removed(remote_uuid, uuid) is Some <==> m.transfer(remote_uuid, uuid) is Some,
        m.transfer_removed(remote_uuid, uuid) matches Some(after) ==> {
            &&& other != uuid ==> after.transfer(remote_uuid, other) == m.transfer(
                remote_uuid,
                other,
            )
            &&& other_remote != remote_uuid ==> after.remote(other_remote) == m.remote(other_remote)
            &&& after.events == m.events.push(WarpEventView::TransferRemoved(remote_uuid, uuid))
        },
{
    lemma_place(m, remote_uuid);
    lemma_place(m, other_remote);
    if let Some(i) = m.place(remote_uuid) {
        let before = m.remotes[i].transfers;
        crate::lookup::lemma_first_place(transfer_uuids(before), uuid);
        crate::lookup::lemma_first_place(transfer_uuids(before), other);
        if let Some(k) = m.transfer_place(i, uuid) {
            let after = m.transfer_removed(remote_uuid, uuid)->0;
            lemma_with_transfers(
                m,
                i,
                before.remove(k),
                WarpEventView::TransferRemoved(remote_uuid, uuid),
            );
            assert(after.place(remote_uuid) == Some(i));
            assert(after.place(other_remote) == m.place(other_remote));
            if other != uuid {
                assert(transfer_uuids(before.remove(k)) =~= transfer_uuids(before).remove(k));
                crate::lookup::lemma_first_place_remove(transfer_uuids(before), k, other);
            }
        }
    }
}

/// Removing a message is possible exactly where it is known, and leaves every other message and
/// every other remote as it was.
pub proof fn removed_message_goes_alone(
    m: ManagerView,
    remote_uuid: Seq<char>,
    uuid: Seq<char>,
    other_remote: Seq<char>,
    other: Seq<char>,
)
    ensures
        m.message_removed(remote_uuid, uuid) is Some <==> m.message(remote_uuid, uuid) is Some,
        m.message_removed(remote_uuid, uuid) matches Some(after) ==> {
            &&& other != uuid ==> after.message(remote_uuid, other) == m.message(
                remote_uuid,
                other,
            )
            &&& other_remote != remote_uuid ==> after.remote(other_remote) == m.remote(other_remote)
            &&& after.events == m.events.push(WarpEventView::MessageRemoved(remote_uuid, uuid))
        },
{
    lemma_place(m, remote_uuid);
    lemma_place(m, other_remote);
    if let Some(i) = m.place(remote_uuid) {
        let before = m.remotes[i].messages;
        crate::lookup::lemma_first_place(message_uuids(before), uuid);
        crate::lookup::lemma_first_place(message_uuids(before), other);
        if let Some(k) = m.message_place(i, uuid) {
            let after = m.message_removed(remote_uuid, uuid)->0;
            lemma_with_messages(
                m,
                i,
                before.remove(k),
                WarpEventView::MessageRemoved(remote_uuid, uuid),
            );
            assert(after.place(remote_uuid) == Some(i));
            assert(after.place(other_remote) == m.place(other_remote));
            if other != uuid {
                assert(message_uuids(before.remove(k)) =~= message_uuids(before).remove(k));
                crate::lookup::lemma_first_place_remove(message_uuids(before), k, other);
            }
        }
    }
}

/// A transfer that has been added is the one that is found under its time, as long as the remote
/// had none of that time; what is found under any other time is as it was.
pub proof fn added_transfer_is_found_by_its_time(
    m: ManagerView,
    remote_uuid: Seq<char>,
    transfer: TransferView,
    other: u64,
)
    requires
        m.remote(remote_uuid) is Some,
        m.transfer_at_time(remote_uuid, transfer.timestamp) is None,
    ensures
        m.transfer_added(remote_uuid, transfer) matches Some(after) && {
            &&& after.transfer_at_time(remote_uuid, transfer.timestamp) == Some(transfer)
            &&& other != transfer.timestamp ==> after.transfer_at_time(remote_uuid, other)
                == m.transfer_at_time(remote_uuid, other)
        },
{
    lemma_place(m, remote_uuid);
    let i = m.place(remote_uuid)->0;
    let before = m.remotes[i].transfers;
    let after = m.transfer_added(remote_uuid, transfer)->0;
    lemma_with_transfers(
        m,
        i,
        before.push(transfer),
        WarpEventView::TransferAdded(remote_uuid, transfer.uuid),
    );
    assert(after.place(remote_uuid) == Some(i));
    assert(transfer_times(before.push(transfer)) =~= transfer_times(before).push(
        transfer.timestamp,
    ));
    crate::lookup::lemma_first_place_push(
        transfer_times(before),
        transfer.timestamp,
        transfer.timestamp,
    );
    crate::lookup::lemma_first_place_push(transfer_times(before), transfer.timestamp, other);
    crate::lookup::lemma_first_place(transfer_times(before), other);
}

/// What is said of an event is what it holds.
pub proof fn event_is_seen_as_it_is(event: WarpEvent)
    ensures
        event matches WarpEvent::RemoteAdded(r) ==> event@ == WarpEventView::RemoteAdded(r@),
        event matches WarpEvent::RemoteUpdated(r) ==> event@ == WarpEventView::RemoteUpdated(r@),
        event matches WarpEvent::TransferAdded(r, t) ==> event@ == WarpEventView::TransferAdded(
            r@,
            t@,
        ),
        event matches WarpEvent::TransferUpdated(r, t) ==> event@ == WarpEventView::TransferUpdated(
            r@,
            t@,
        ),
        event matches WarpEvent::TransferRemoved(r, t) ==> event@ == WarpEventView::TransferRemoved(
            r@,
            t@,
        ),
        event matches WarpEvent::MessageAdded(r, m) ==> event@ == WarpEventView::MessageAdded(
            r@,
            m@,
        ),
        event matches WarpEvent::MessageRemoved(r, m) ==> event@ == WarpEventView::MessageRemoved(
            r@,
            m@,
        ),
{
}

/// What is said of a list of events or of remotes is what its entries say, one by one and in order.
pub proof fn lists_are_seen_as_they_are(events: Seq<WarpEvent>, remotes: Seq<Remote>)
    ensures
        event_views(events).len() == events.len(),
        forall|i: int| 0 <= i < events.len() ==> #[trigger] event_views(events)[i] == events[i]@,
        remote_views(remotes).len() == remotes.len(),
        forall|i: int|
            0 <= i < remotes.len() ==> #[trigger] remote_views(remotes)[i] == remotes[i]@,
{
}

/// A remote that has entered a state is looked up in that state, whichever it is, and nothing else
/// about it has changed.
pub proof fn remote_is_in_the_state_it_entered(m: ManagerView, uuid: Seq<char>, state: RemoteState)
    ensures
        match m.remote(uuid) {
            Some(before) => m.remote_updated(uuid, RemoteUpdate::State(state)) matches Some(after)
                && after.remote(uuid) == Some(RemoteView { state, ..before }),
            None => m.remote_updated(uuid, RemoteUpdate::State(state)) is None,
        },
{
    updated_remote_is_changed_alone(m, uuid, RemoteUpdate::State(state), uuid);
}

/// A certificate that has been recorded for a remote is the one that is looked up, and nothing else
/// about the remote has changed.
pub proof fn recorded_certificate_is_looked_up(m: ManagerView, uuid: Seq<char>, pem: Vec<u8>)
    ensures
        match m.remote(uuid) {
            Some(before) => m.remote_updated(uuid, RemoteUpdate::Certificate(pem)) matches Some(
                after,
            ) && after.remote(uuid) == Some(RemoteView { cert_pem: Some(pem@), ..before }),
            None => m.remote_updated(uuid, RemoteUpdate::Certificate(pem)) is None,
        },
{
    updated_remote_is_changed_alone(m, uuid, RemoteUpdate::Certificate(pem), uuid);
}

/// The names that a remote has told are the ones that are looked up, and nothing else about the
/// remote has changed.
pub proof fn told_names_are_looked_up(
    m: ManagerView,
    uuid: Seq<char>,
    display_name: String,
    username: String,
)
    ensures
        match m.remote(uuid) {
            Some(before) => m.remote_updated(
                uuid,
                RemoteUpdate::MachineInfo { display_name, username },
            ) matches Some(after) && after.remote(uuid) == Some(
                RemoteView { display_name: display_name@, username: username@, ..before },
            ),
            None => m.remote_updated(
                uuid,
                RemoteUpdate::MachineInfo { display_name, username },
            ) is None,
        },
{
    updated_remote_is_changed_alone(
        m,
        uuid,
        RemoteUpdate::MachineInfo { display_name, username },
        uuid,
    );
}

/// A picture that has been recorded for a remote is the one that is looked up, and nothing else
/// about the remote has changed.
pub proof fn recorded_picture_is_looked_up(m: ManagerView, uuid: Seq<char>, picture: Vec<u8>)
    ensures
        match m.remote(uuid) {
            Some(before) => m.remote_updated(uuid, RemoteUpdate::Picture(picture)) matches Some(
                after,
            ) && after.remote(uuid) == Some(RemoteView { picture: Some(picture@), ..before }),
            None => m.remote_updated(uuid, RemoteUpdate::Picture(picture)) is None,
        },
{
    updated_remote_is_changed_alone(m, uuid, RemoteUpdate::Picture(picture), uuid);
}

/// A transfer that has been put into a state is looked up in that state, whichever it is, and
/// nothing else about it has changed. One that is over does not move any more.
pub proof fn transfer_is_looked_up_in_its_state(
    m: ManagerView,
    remote_uuid: Seq<char>,
    uuid: Seq<char>,
    state: crate::types::transfer::TransferState,
)
    ensures
        match m.transfer(remote_uuid, uuid) {
            Some(before) => {
                &&& m.transfer_updated(remote_uuid, uuid, TransferUpdate::State(state)) matches Some(
                    after,
                ) && after.transfer(remote_uuid, uuid) == Some(TransferView { state, ..before })
                &&& m.transfer_updated(
                    remote_uuid,
                    uuid,
                    TransferUpdate::Finished(state),
                ) matches Some(after) && after.transfer(remote_uuid, uuid) == Some(
                    TransferView { state, bytes_per_second: 0, ..before },
                )
            },
            None => {
                &&& m.transfer_updated(remote_uuid, uuid, TransferUpdate::State(state)) is None
                &&& m.transfer_updated(remote_uuid, uuid, TransferUpdate::Finished(state)) is None
            },
        },
{
    updated_transfer_is_changed_alone(
        m,
        remote_uuid,
        uuid,
        TransferUpdate::State(state),
        remote_uuid,
        uuid,
    );
    updated_transfer_is_changed_alone(
        m,
        remote_uuid,
        uuid,
        TransferUpdate::Finished(state),
        remote_uuid,
        uuid,
    );
}

/// A transfer that has been accepted is looked up in progress and with the directory that was
/// chosen; one that has moved is looked up with what has moved added to what had moved before.
pub proof fn transfer_is_looked_up_as_it_goes_on(
    m: ManagerView,
    remote_uuid: Seq<char>,
    uuid: Seq<char>,
    destination: String,
    remote_timestamp: u64,
    bytes: u64,
    bytes_per_second: u64,
)
    requires
        m.transfer(remote_uuid, uuid) matches Some(t) && t.bytes_transferred + bytes <= u64::MAX,
    ensures
        m.transfer_updated(
            remote_uuid,
            uuid,
            TransferUpdate::Accepted { destination, remote_timestamp },
        ) matches Some(after) && after.transfer(remote_uuid, uuid) == Some(
            TransferView {
                state: crate::types::transfer::TransferState::InProgress,
                kind: crate::types::transfer::TransferKindView::Incoming {
                    destination: destination@,
                    remote_timestamp,
                },
                ..m.transfer(remote_uuid, uuid)->0
            },
        ),
        m.transfer_updated(
            remote_uuid,
            uuid,
            TransferUpdate::Progress { bytes, bytes_per_second },
        ) matches Some(after) && (after.transfer(remote_uuid, uuid) matches Some(t) && {
            &&& t.bytes_transferred == m.transfer(remote_uuid, uuid)->0.bytes_transferred + bytes
            &&& t.bytes_per_second == bytes_per_second
            &&& (TransferView {
                bytes_transferred: m.transfer(remote_uuid, uuid)->0.bytes_transferred,
                bytes_per_second: m.transfer(remote_uuid, uuid)->0.bytes_per_second,
                ..t
            }) == m.transfer(remote_uuid, uuid)->0
        }),
{
    updated_transfer_is_changed_alone(
        m,
        remote_uuid,
        uuid,
        TransferUpdate::Accepted { destination, remote_timestamp },
        remote_uuid,
        uuid,
    );
    updated_transfer_is_changed_alone(
        m,
        remote_uuid,
        uuid,
        TransferUpdate::Progress { bytes, bytes_per_second },
        remote_uuid,
        uuid,
    );
}

/// Whatever is looked up is what is kept: a remote has the identifier that it is looked up under,
/// and so have a transfer and a message, which are among those of their remote; a transfer that is
/// looked up by its time has that time. What comes first is found first, and nothing is found only
/// where nothing has the identifier or the time.
pub proof fn what_is_looked_up_is_what_is_kept(
    m: ManagerView,
    remote_uuid: Seq<char>,
    uuid: Seq<char>,
    timestamp: u64,
)
    ensures
        match m.remote(remote_uuid) {
            Some(remote) => {
                &&& remote.uuid == remote_uuid
                &&& m.remotes.contains(remote)
                &&& match m.transfer(remote_uuid, uuid) {
                    Some(t) => exists|k: int| {
                        &&& 0 <= k < remote.transfers.len()
                        &&& #[trigger] remote.transfers[k] == t
                        &&& t.uuid == uuid
                        &&& forall|j: int| 0 <= j < k ==> (#[trigger] remote.transfers[j]).uuid
                            != uuid
                    },
                    None => forall|j: int|
                        0 <= j < remote.transfers.len() ==> (#[trigger] remote.transfers[j]).uuid
                            != uuid,
                }
                &&& match m.transfer_at_time(remote_uuid, timestamp) {
                    Some(t) => exists|k: int| {
                        &&& 0 <= k < remote.transfers.len()
                        &&& #[trigger] remote.transfers[k] == t
                        &&& t.timestamp == timestamp
                        &&& forall|j: int|
                            0 <= j < k ==> (#[trigger] remote.transfers[j]).timestamp != timestamp
                    },
                    None => forall|j: int|
                        0 <= j < remote.transfers.len() ==> (
                        #[trigger] remote.transfers[j]).timestamp != timestamp,
                }
                &&& match m.message(remote_uuid, uuid) {
                    Some(message) => exists|k: int| {
                        &&& 0 <= k < remote.messages.len()
                        &&& #[trigger] remote.messages[k] == message
                        &&& message.uuid == uuid
                        &&& forall|j: int| 0 <= j < k ==> (#[trigger] remote.messages[j]).uuid
                            != uuid
                    },
                    None => forall|j: int|
                        0 <= j < remote.messages.len() ==> (#[trigger] remote.messages[j]).uuid
                            != uuid,
                }
            },
            None => {
                &&& forall|i: int|
                    0 <= i < m.remotes.len() ==> (#[trigger] m.remotes[i]).uuid != remote_uuid
                &&& m.transfer(remote_uuid, uuid) is None
                &&& m.transfer_at_time(remote_uuid, timestamp) is None
                &&& m.message(remote_uuid, uuid) is None
            },
        },
{
    crate::lookup::lemma_first_place(remote_uuids(m.remotes), remote_uuid);
    match m.place(remote_uuid) {
        Some(i) => {
            let transfers = m.remotes[i].transfers;
            let messages = m.remotes[i].messages;
            crate::lookup::lemma_first_place(transfer_uuids(transfers), uuid);
            crate::lookup::lemma_first_place(transfer_times(transfers), timestamp);
            crate::lookup::lemma_first_place(message_uuids(messages), uuid);
            assert forall|j: int| 0 <= j < transfers.len() implies (
            #[trigger] transfers[j]).uuid == transfer_uuids(transfers)[j] && transfers[j].timestamp
                == transfer_times(transfers)[j] by {}
            assert forall|j: int| 0 <= j < messages.len() implies (
            #[trigger] messages[j]).uuid == message_uuids(messages)[j] by {}
        },
        None => {
            assert forall|j: int| 0 <= j < m.remotes.len() implies (
            #[trigger] m.remotes[j]).uuid != remote_uuid by {
                assert(remote_uuids(m.remotes)[j] == m.remotes[j].uuid);
            }
        },
    }
}

/// A transfer that is added comes last among those of its remote, whether or not one has the same
/// identifier, and so does a message; nothing else about the remote has changed.
pub proof fn what_is_added_comes_last(
    m: ManagerView,
    remote_uuid: Seq<char>,
    transfer: TransferView,
    message: MessageView,
)
    ensures
        match m.remote(remote_uuid) {
            Some(before) => {
                &&& m.transfer_added(remote_uuid, transfer) matches Some(after) && {
                    &&& after.remote(remote_uuid) == Some(
                        RemoteView { transfers: before.transfers.push(transfer), ..before },
                    )
                    &&& after.remotes.len() == m.remotes.len()
                    &&& after.server == m.server
                    &&& after.events == m.events.push(
                        WarpEventView::TransferAdded(remote_uuid, transfer.uuid),
                    )
                }
                &&& m.message_added(remote_uuid, message) matches Some(after) && {
                    &&& after.remote(remote_uuid) == Some(
                        RemoteView { messages: before.messages.push(message), ..before },
                    )
                    &&& after.remotes.len() == m.remotes.len()
                    &&& after.server == m.server
                    &&& after.events == m.events.push(
                        WarpEventView::MessageAdded(remote_uuid, message.uuid),
                    )
                }
            },
            None => {
                &&& m.transfer_added(remote_uuid, transfer) is None
                &&& m.message_added(remote_uuid, message) is None
            },
        },
{
    lemma_place(m, remote_uuid);
    if let Some(i) = m.place(remote_uuid) {
        let transfers = m.remotes[i].transfers.push(transfer);
        let messages = m.remotes[i].messages.push(message);
        lemma_with_transfers(
            m,
            i,
            transfers,
            WarpEventView::TransferAdded(remote_uuid, transfer.uuid),
        );
        lemma_with_messages(
            m,
            i,
            messages,
            WarpEventView::MessageAdded(remote_uuid, message.uuid),
        );
        assert(m.transfer_added(remote_uuid, transfer)->0.place(remote_uuid) == Some(i));
        assert(m.message_added(remote_uuid, message)->0.place(remote_uuid) == Some(i));
    }
}

/// A transfer that is removed is the first with the identifier, and so is a message; what came
/// before and after it is left in order, and nothing else about the remote has changed.
pub proof fn what_is_removed_leaves_the_rest_in_order(
    m: ManagerView,
    remote_uuid: Seq<char>,
    uuid: Seq<char>,
    k: int,
)
    requires
        m.remote(remote_uuid) is Some,
    ensures
        ({
            let before = m.remote(remote_uuid)->0;
            &&& 0 <= k < before.transfers.len() && before.transfers[k].uuid == uuid && (forall|
                j: int,
            |
                0 <= j < k ==> (#[trigger] before.transfers[j]).uuid != uuid) ==> (
            m.transfer_removed(remote_uuid, uuid) matches Some(after) && {
                &&& after.remote(remote_uuid) == Some(
                    RemoteView {
                        transfers: before.transfers.take(k) + before.transfers.skip(k + 1),
                        ..before
                    },
                )
                &&& after.remotes.len() == m.remotes.len()
                &&& after.server == m.server
            })
            &&& 0 <= k < before.messages.len() && before.messages[k].uuid == uuid && (forall|
                j: int,
            |
                0 <= j < k ==> (#[trigger] before.messages[j]).uuid != uuid) ==> (
            m.message_removed(remote_uuid, uuid) matches Some(after) && {
                &&& after.remote(remote_uuid) == Some(
                    RemoteView {
                        messages: before.messages.take(k) + before.messages.skip(k + 1),
                        ..before
                    },
                )
                &&& after.remotes.len() == m.remotes.len()
                &&& after.server == m.server
            })
        }),
{
    lemma_place(m, remote_uuid);
    let i = m.place(remote_uuid)->0;
    let transfers = m.remotes[i].transfers;
    let messages = m.remotes[i].messages;
    if 0 <= k < transfers.len() && transfers[k].uuid == uuid && (forall|j: int|
        0 <= j < k ==> (#[trigger] transfers[j]).uuid != uuid) {
        let keys = transfer_uuids(transfers);
        assert forall|j: int| 0 <= j < k implies keys[j] != uuid by {
            assert(keys[j] == transfers[j].uuid);
        }
        crate::lookup::lemma_first_place_is(keys, uuid, k);
        lemma_with_transfers(
            m,
            i,
            transfers.remove(k),
            WarpEventView::TransferRemoved(remote_uuid, uuid),
        );
        assert(m.transfer_removed(remote_uuid, uuid)->0.place(remote_uuid) == Some(i));
        assert(transfers.remove(k) =~= transfers.take(k) + transfers.skip(k + 1));
    }
    if 0 <= k < messages.len() && messages[k].uuid == uuid && (forall|j: int|
        0 <= j < k ==> (#[trigger] messages[j]).uuid != uuid) {
        let keys = message_uuids(messages);
        assert forall|j: int| 0 <= j < k implies keys[j] != uuid by {
            assert(keys[j] == messages[j].uuid);
        }
        crate::lookup::lemma_first_place_is(keys, uuid, k);
        lemma_with_messages(
            m,
            i,
            messages.remove(k),
            WarpEventView::MessageRemoved(remote_uuid, uuid),
        );
        assert(m.message_removed(remote_uuid, uuid)->0.place(remote_uuid) == Some(i));
        assert(messages.remove(k) =~= messages.take(k) + messages.skip(k + 1));
    }
}

/// A change to one transfer leaves the others of its remote in their places, and everything else
/// about the remote as it was; how this machine presents itself never changes.
pub proof fn changed_transfer_keeps_its_place(
    m: ManagerView,
    remote_uuid: Seq<char>,
    uuid: Seq<char>,
    update: TransferUpdate,
    k: int,
)
    requires
        m.remote(remote_uuid) is Some,
        0 <= k < m.remote(remote_uuid)->0.transfers.len(),
        m.remote(remote_uuid)->0.transfers[k].uuid == uuid,
        forall|j: int|
            0 <= j < k ==> (#[trigger] m.remote(remote_uuid)->0.transfers[j]).uuid != uuid,
    ensures
        m.transfer_updated(remote_uuid, uuid, update) matches Some(after) && {
            let before = m.remote(remote_uuid)->0;
            &&& after.remote(remote_uuid) matches Some(changed) && {
                &&& changed.transfers.len() == before.transfers.len()
                &&& forall|j: int|
                    0 <= j < before.transfers.len() && j != k ==> #[trigger] changed.transfers[j]
                        == before.transfers[j]
                &&& (RemoteView { transfers: before.transfers, ..changed }) == before
            }
            &&& after.remotes.len() == m.remotes.len()
            &&& after.server == m.server
        },
{
    lemma_place(m, remote_uuid);
    let i = m.place(remote_uuid)->0;
    let transfers = m.remotes[i].transfers;
    let keys = transfer_uuids(transfers);
    assert forall|j: int| 0 <= j < k implies keys[j] != uuid by {
        assert(keys[j] == transfers[j].uuid);
    }
    crate::lookup::lemma_first_place_is(keys, uuid, k);
    lemma_with_transfers(
        m,
        i,
        transfers.update(k, update.applied(transfers[k])),
        WarpEventView::TransferUpdated(remote_uuid, uuid),
    );
    assert(m.transfer_updated(remote_uuid, uuid, update)->0.place(remote_uuid) == Some(i));
}

/// A remote that is made known comes last, or takes the place of the one with its identifier, and
/// is announced; every other remote keeps its place.
pub proof fn remotes_keep_their_places(m: ManagerView, remote: RemoteView, update: RemoteUpdate)
    ensures
        ({
            let after = m.remote_added(remote);
            &&& after.events == m.events.push(WarpEventView::RemoteAdded(remote.uuid))
            &&& after.server == m.server
            &&& match m.remote(remote.uuid) {
                Some(_) => after.remotes.len() == m.remotes.len(),
                None => after.remotes == m.remotes.push(remote),
            }
            &&& forall|i: int|
                0 <= i < m.remotes.len() ==> #[trigger] after.remotes[i] == m.remotes[i]
                    || after.remotes[i] == remote && m.remotes[i].uuid == remote.uuid
        }),
        m.remote_updated(remote.uuid, update) matches Some(after) ==> {
            &&& after.events == m.events.push(WarpEventView::RemoteUpdated(remote.uuid))
            &&& after.server == m.server
            &&& after.remotes.len() == m.remotes.len()
            &&& forall|i: int|
                0 <= i < m.remotes.len() ==> #[trigger] after.remotes[i] == m.remotes[i]
                    || m.remotes[i].uuid == remote.uuid
        },
{
    lemma_place(m, remote.uuid);
}

/// A change that is possible is made, and one that is not is refused with nothing changed.
pub proof fn changes_come_out_as_they_should(
    before: ManagerView,
    change: Option<ManagerView>,
    after: ManagerView,
    r: Result<(), UpdateError>,
)
    requires
        change_came_out(before, change, after, r),
    ensures
        r is Ok <==> change is Some,
        change matches Some(changed) ==> after == changed,
        change is None ==> after == before && r == Err::<(), UpdateError>(UpdateError::NotFound),
{
}

/// The worker of a remote works for that remote, and presents this machine as it is presented to
/// all.
pub proof fn worker_works_for_its_remote(m: ManagerView, uuid: Seq<char>)
    ensures
        m.worker(uuid).uuid == uuid,
        m.worker(uuid).server == m.server,
{
}

/// A change of a transfer is counted exactly where the bytes that have moved and those that move
/// fit together into their type, or where the transfer is not known.
pub proof fn progress_fits_where_it_adds_up(
    m: ManagerView,
    remote_uuid: Seq<char>,
    uuid: Seq<char>,
    bytes: u64,
    bytes_per_second: u64,
)
    ensures
        m.update_fits(remote_uuid, uuid, TransferUpdate::Progress { bytes, bytes_per_second })
            <==> (match m.transfer(remote_uuid, uuid) {
            Some(t) => t.bytes_transferred + bytes <= u64::MAX,
            None => true,
        }),
{
}

} // verus!
