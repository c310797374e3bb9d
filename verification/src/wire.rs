//! The meeting point with the WebSocket transport.
//!
//! The transport hands over messages of its own type and takes such
//! messages back. Here they are turned into the frames and events that the
//! protocol speaks of, and replies are turned into messages.
use vstd::prelude::*;
use tokio_tungstenite::tungstenite::{Error, Message};
use crate::frame::{Frame, FrameModel};
use crate::session::{Action, ActionModel, Event, EventModel};

verus! {

/// A WebSocket message. Nothing inside it is visible here.
#[verifier::external_type_specification]
#[verifier::external_body]
pub struct ExMessage(Message);

/// A failure of the WebSocket transport. Nothing inside it is visible here.
#[verifier::external_type_specification]
#[verifier::external_body]
pub struct ExError(Error);

/// The frame that a WebSocket message carries: its text for a text message,
/// its bytes for a binary message, and nothing for the messages that the
/// transport keeps to itself.
pub uninterp spec fn carried(message: Message) -> FrameModel;

/// Takes the frame out of a WebSocket message, variant by variant: the text
/// of `Message::Text`, read with `Utf8Bytes::as_str`; a copy of the bytes of
/// `Message::Binary`; and `Frame::Control` for pings, pongs, close notices
/// and raw frames. Trusted: the result is what `carried` names.
#[verifier::external_body]
pub(crate) fn frame_of(message: Message) -> (frame: Frame)
    ensures
        frame@ == carried(message),
{
    match message {
        Message::Text(text) => Frame::Text(text.as_str().to_owned()),
        Message::Binary(data) => Frame::Binary(data.to_vec()),
        Message::Ping(_) => Frame::Control,
        Message::Pong(_) => Frame::Control,
        Message::Close(_) => Frame::Control,
        Message::Frame(_) => Frame::Control,
    }
}

/// `Message::text`: the text message that carries `text`. Trusted.
#[verifier::external_body]
pub(crate) fn text_message(text: String) -> (message: Message)
    ensures
        carried(message) == FrameModel::Text(text@),
{
    Message::text(text)
}

/// The event that the next item of a connection's stream stands for: the
/// end of the stream where there is none, a failure where the transport
/// reports one, and otherwise the frame that the message carries.
pub fn event_of(item: Option<Result<Message, Error>>) -> (event: Event)
    ensures
        event@ == match item {
            None => EventModel::Ended,
            Some(Err(_)) => EventModel::Failed,
            Some(Ok(message)) => EventModel::Frame(carried(message)),
        },
{
    match item {
        None => Event::Ended,
        Some(Err(_)) => Event::Failed,
        Some(Ok(message)) => Event::Frame(frame_of(message)),
    }
}

/// The message to send for an action: a text message with the action's
/// text where it asks to send one, and none otherwise.
pub fn message_of(action: Action) -> (message: Option<Message>)
    ensures
        match action@ {
            ActionModel::Send(text) => message matches Some(m) && carried(m) == FrameModel::Text(
                text,
            ),
            _ => message is None,
        },
{
    match action {
        Action::Send(text) => Some(text_message(text)),
        _ => None,
    }
}

} // verus!
