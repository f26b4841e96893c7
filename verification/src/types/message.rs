//! Text messages.
use crate::platform::{fresh_uuid, now_millis};
use crate::proto::{TextMessage, TextMessageView};
use vstd::prelude::*;

verus! {

/// Which way a message went.
#[derive(Clone, Copy, Debug, PartialEq, Eq, Structural)]
pub enum Direction {
    Sent,
    Received,
}

/// A text message exchanged with a remote.
#[derive(Debug)]
pub struct Message {
    pub uuid: String,
    pub remote_uuid: String,
    pub direction: Direction,
    /// Milliseconds since the start of 1970
    pub timestamp: u64,
    pub content: String,
}

/// What a [`Message`] says.
#[verifier::ext_equal]
pub struct MessageView {
    pub uuid: Seq<char>,
    pub remote_uuid: Seq<char>,
    pub direction: Direction,
    pub timestamp: u64,
    pub content: Seq<char>,
}

impl View for Message {
    type V = MessageView;

    open spec fn view(&self) -> MessageView {
        MessageView {
            uuid: self.uuid@,
            remote_uuid: self.remote_uuid@,
            direction: self.direction,
            timestamp: self.timestamp,
            content: self.content@,
        }
    }
}

impl Clone for Message {
    fn clone(&self) -> (r: Self)
        ensures
            r == *self,
    {
        Message {
            uuid: self.uuid.clone(),
            remote_uuid: self.remote_uuid.clone(),
            direction: self.direction,
            timestamp: self.timestamp,
            content: self.content.clone(),
        }
    }
}

impl MessageView {
    /// The message as it goes over the network, under the sender's service identifier.
    pub open spec fn to_proto(self, service_id: Seq<char>) -> TextMessageView {
        TextMessageView { ident: service_id, timestamp: self.timestamp, message: self.content }
    }
}

/// The message that is recorded for a text received under a given identifier at a given time.
pub open spec fn received_message(
    uuid: Seq<char>,
    timestamp: u64,
    text: TextMessageView,
) -> MessageView {
    MessageView {
        uuid,
        remote_uuid: text.ident,
        direction: Direction::Received,
        timestamp,
        content: text.message,
    }
}

impl Message {
    /// A new message, with an identifier of its own and stamped with the current time.
    pub fn new(remote_uuid: String, direction: Direction, content: String) -> (r: Self)
        ensures
            crate::platform::is_random_uuid(r@.uuid),
            r@.remote_uuid == remote_uuid@,
            r@.direction == direction,
            r@.content == content@,
    {
        Message::stamped(fresh_uuid(), now_millis() as u64, remote_uuid, direction, content)
    }

    /// The message with a given identifier and time.
    pub fn stamped(
        uuid: String,
        timestamp: u64,
        remote_uuid: String,
        direction: Direction,
        content: String,
    ) -> (r: Self)
        ensures
            r@ == (MessageView {
                uuid: uuid@,
                remote_uuid: remote_uuid@,
                direction,
                timestamp,
                content: content@,
            }),
    {
        Message { uuid, remote_uuid, direction, timestamp, content }
    }

    /// The message as it goes over the network.
    pub fn as_proto(&self, service_id: &str) -> (r: TextMessage)
        ensures
            r@ == self@.to_proto(service_id@),
    {
        TextMessage {
            ident: service_id.to_string(),
            timestamp: self.timestamp,
            message: self.content.clone(),
        }
    }

    /// The message that is recorded for a received text. Its time is that of its arrival.
    pub fn from(value: &TextMessage) -> (r: Self)
        ensures
            crate::platform::is_random_uuid(r@.uuid),
            r@ == received_message(r@.uuid, r@.timestamp, value@),
    {
        Message::new(value.ident.clone(), Direction::Received, value.message.clone())
    }
}

/// What one side sends, the other records: the same content, under the identifier of the
/// sending service and marked as received.
pub proof fn sent_message_is_received(
    sent: MessageView,
    service_id: Seq<char>,
    uuid: Seq<char>,
    timestamp: u64,
)
    ensures
        received_message(uuid, timestamp, sent.to_proto(service_id)) == (MessageView {
            uuid,
            remote_uuid: service_id,
            direction: Direction::Received,
            timestamp,
            content: sent.content,
        }),
{
}

/// A message goes out as it is: under the given service identifier, with its own time and content.
pub proof fn message_goes_out_as_it_is(message: Message, sent: TextMessage, service_id: Seq<char>)
    requires
        sent@ == message@.to_proto(service_id),
    ensures
        sent.ident@ == service_id,
        sent.timestamp == message.timestamp,
        sent.message@ == message.content@,
{
}

/// A text that is received is recorded as it came: from the service that it names, with its
/// content, as received.
pub proof fn text_is_recorded_as_it_came(
    message: Message,
    uuid: Seq<char>,
    timestamp: u64,
    text: TextMessage,
)
    requires
        message@ == received_message(uuid, timestamp, text@),
    ensures
        message.uuid@ == uuid,
        message.timestamp == timestamp,
        message.remote_uuid@ == text.ident@,
        message.content@ == text.message@,
        message.direction == Direction::Received,
{
}

/// What is said of a message is what it holds.
pub proof fn message_is_seen_as_it_is(message: Message)
    ensures
        message@.uuid == message.uuid@,
        message@.remote_uuid == message.remote_uuid@,
        message@.direction == message.direction,
        message@.timestamp == message.timestamp,
        message@.content == message.content@,
{
}

} // verus!
