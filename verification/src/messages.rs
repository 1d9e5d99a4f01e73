//! Messages as they travel between a client and the transport.

use vstd::prelude::*;
use crate::framing::{frame, spec_frame, spec_split_messages, split_messages};

verus! {

/// A message handed to or received from the transport.
#[derive(Debug, Clone)]
pub enum ClientMessage {
    /// A JSON text message, record separators included.
    Json(String),
    /// A binary message.
    Binary(Vec<u8>),
}

/// What a message holds, as mathematical values.
pub enum MessageView {
    /// The characters of a text message.
    Text(Seq<char>),
    /// The bytes of a binary message.
    Bytes(Seq<u8>),
}

impl View for ClientMessage {
    type V = MessageView;

    open spec fn view(&self) -> MessageView {
        match self {
            ClientMessage::Json(t) => MessageView::Text(t@),
            ClientMessage::Binary(b) => MessageView::Bytes(b@),
        }
    }
}

/// The encodings a client speaks.
#[derive(Debug, Clone, Copy, PartialEq, Eq, Structural)]
pub enum MessageEncoding {
    /// The JSON hub protocol.
    Json,
}

impl ClientMessage {
    /// The encoding of a text message.
    pub fn get_encoding(&self) -> (r: MessageEncoding)
        requires
            self is Json,
        ensures
            r == MessageEncoding::Json,
    {
        match self {
            ClientMessage::Json(_) => MessageEncoding::Json,
            ClientMessage::Binary(_) => MessageEncoding::Json,
        }
    }

    /// The text of a text message.
    pub fn unwrap_text(&self) -> (r: &str)
        requires
            self is Json,
        ensures
            r@ == self->Json_0@,
    {
        match self {
            ClientMessage::Json(value) => value.as_str(),
            ClientMessage::Binary(_) => "",
        }
    }

    /// The messages that one text frame carries: the pieces between record
    /// separators that are not blank, each as a text message of its own.
    pub fn split(self) -> (r: Vec<ClientMessage>)
        requires
            self is Json,
        ensures
            r@.len() == spec_split_messages(self->Json_0@).len(),
            forall|k: int|
                0 <= k < r@.len() ==> (#[trigger] r@[k]) is Json && r@[k]->Json_0@
                    == spec_split_messages(self->Json_0@)[k],
    {
        match self {
            ClientMessage::Json(message) => {
                let pieces = split_messages(message.as_str());
                let mut out: Vec<ClientMessage> = Vec::new();
                let mut i: usize = 0;
                while i < pieces.len()
                    invariant
                        i <= pieces.len(),
                        out@.len() == i,
                        forall|k: int|
                            0 <= k < i ==> (#[trigger] out@[k]) is Json && out@[k]->Json_0@
                                == pieces@[k]@,
                    decreases pieces.len() - i,
                {
                    out.push(ClientMessage::Json(pieces[i].clone()));
                    i = i + 1;
                }
                out
            },
            ClientMessage::Binary(_) => Vec::new(),
        }
    }
}

impl MessageEncoding {
    /// A serialized message, framed for the transport in this encoding.
    pub fn framed(&self, serialized: String) -> (r: ClientMessage)
        ensures
            r@ == MessageView::Text(spec_frame(serialized@)),
    {
        match self {
            MessageEncoding::Json => ClientMessage::Json(frame(serialized)),
        }
    }
}

} // verus!
