//! The values that the parser produces.

use crate::timestamp::Timestamp;
use vstd::prelude::*;

verus! {

/// One answer of a poll, with the number of votes it got.
#[derive(Debug, Clone, PartialEq, Eq)]
pub struct PollOption {
    pub option: String,
    pub votes: u32,
}

/// What a `PollOption` holds.
pub struct PollOptionView {
    pub option: Seq<char>,
    pub votes: u32,
}

impl View for PollOption {
    type V = PollOptionView;

    open spec fn view(&self) -> PollOptionView {
        PollOptionView { option: self.option@, votes: self.votes }
    }
}

/// What a user sent.
#[derive(Debug, Clone, PartialEq, Eq)]
pub enum MessageBody {
    /// Free text, one entry for each line. `edited` tells that the first
    /// line carried the edit marker, which is not kept in `text`.
    Text { text: Vec<String>, edited: bool },
    Poll { title: String, options: Vec<PollOption> },
    /// A file, by its name.
    Attachment(String),
    /// Media that the export left out.
    Omitted,
    /// A place, by the decimal text of its latitude and longitude.
    Location { lat: String, long: String },
    Event {
        title: String,
        description: String,
        start_time: Timestamp,
        end_time: Option<Timestamp>,
        cancelled: bool,
    },
}

/// What a `MessageBody` holds.
pub enum MessageBodyView {
    Text { text: Seq<Seq<char>>, edited: bool },
    Poll { title: Seq<char>, options: Seq<PollOptionView> },
    Attachment(Seq<char>),
    Omitted,
    Location { lat: Seq<char>, long: Seq<char> },
    Event {
        title: Seq<char>,
        description: Seq<char>,
        start_time: Timestamp,
        end_time: Option<Timestamp>,
        cancelled: bool,
    },
}

/// The texts of a sequence of strings.
pub open spec fn texts(lines: Seq<String>) -> Seq<Seq<char>> {
    lines.map_values(|l: String| l@)
}

/// What a sequence of poll options holds.
pub open spec fn option_views(options: Seq<PollOption>) -> Seq<PollOptionView> {
    options.map_values(|o: PollOption| o@)
}

impl View for MessageBody {
    type V = MessageBodyView;

    open spec fn view(&self) -> MessageBodyView {
        match *self {
            MessageBody::Text { text, edited } => MessageBodyView::Text { text: texts(text@), edited },
            MessageBody::Poll { title, options } => MessageBodyView::Poll {
                title: title@,
                options: option_views(options@),
            },
            MessageBody::Attachment(name) => MessageBodyView::Attachment(name@),
            MessageBody::Omitted => MessageBodyView::Omitted,
            MessageBody::Location { lat, long } => MessageBodyView::Location { lat: lat@, long: long@ },
            MessageBody::Event { title, description, start_time, end_time, cancelled } => MessageBodyView::Event {
                title: title@,
                description: description@,
                start_time,
                end_time,
                cancelled,
            },
        }
    }
}

/// Who a message is from: the chat itself, or one of its users.
#[derive(Debug, Clone, PartialEq, Eq)]
pub enum MessageType {
    System(String),
    User { sender: String, body: MessageBody },
}

/// What a `MessageType` holds.
pub enum MessageTypeView {
    System(Seq<char>),
    User { sender: Seq<char>, body: MessageBodyView },
}

impl View for MessageType {
    type V = MessageTypeView;

    open spec fn view(&self) -> MessageTypeView {
        match *self {
            MessageType::System(text) => MessageTypeView::System(text@),
            MessageType::User { sender, body } => MessageTypeView::User { sender: sender@, body: body@ },
        }
    }
}

/// One message of the chat.
#[derive(Debug, Clone, PartialEq, Eq)]
pub struct Message {
    pub date_time: Timestamp,
    pub message_type: MessageType,
}

/// What a `Message` holds.
pub struct MessageView {
    pub date_time: Timestamp,
    pub message_type: MessageTypeView,
}

impl View for Message {
    type V = MessageView;

    open spec fn view(&self) -> MessageView {
        MessageView { date_time: self.date_time, message_type: self.message_type@ }
    }
}

impl Message {
    /// A notice of the chat itself.
    pub fn system_message(date_time: Timestamp, text: String) -> (m: Message)
        ensures
            m@ == (MessageView { date_time, message_type: MessageTypeView::System(text@) }),
    {
        Message { date_time, message_type: MessageType::System(text) }
    }

    /// A message that `sender` sent.
    pub fn user_message(date_time: Timestamp, sender: String, body: MessageBody) -> (m: Message)
        ensures
            m@ == (MessageView {
                date_time,
                message_type: MessageTypeView::User { sender: sender@, body: body@ },
            }),
    {
        Message { date_time, message_type: MessageType::User { sender, body } }
    }
}

} // verus!
