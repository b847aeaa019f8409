//! Protocol messages exchanged between counterparties.
//!
//! A [`Message`] is the envelope this engine builds; signing, encryption
//! and delivery are the transport collaborator's work. Every outbound
//! message is addressed to exactly one recipient identity, which
//! [`OutboundMessage`] records.

use vstd::prelude::*;

verus! {

/// Semantic step a message announces.
#[derive(Clone, Copy, PartialEq, Eq, Structural, Debug)]
pub enum Action {
    FiatSent,
    CantDo,
    PeerInfo,
}

/// A counterparty identity disclosed inside a message: a public key in its
/// string encoding.
pub struct Peer {
    pub pubkey: String,
}

/// Tagged payload of a message: free text or a peer-identity disclosure.
pub enum Content {
    TextMessage(String),
    Peer(Peer),
}

/// Envelope sent between counterparties: protocol version, the order it
/// speaks of, the action, and an optional payload.
pub struct Message {
    pub version: u8,
    pub order_id: Option<u64>,
    pub action: Action,
    pub content: Option<Content>,
}

/// A message paired with the one identity it is addressed to.
pub struct OutboundMessage {
    pub recipient: String,
    pub message: Message,
}

/// Mathematical image of a [`Content`].
pub enum ContentModel {
    TextMessage(Seq<char>),
    Peer(Seq<char>),
}

/// Mathematical image of a [`Message`].
pub struct MessageModel {
    pub version: u8,
    pub order_id: Option<u64>,
    pub action: Action,
    pub content: Option<ContentModel>,
}

/// Mathematical image of an [`OutboundMessage`].
pub struct OutboundMessageModel {
    pub recipient: Seq<char>,
    pub message: MessageModel,
}

impl View for Content {
    type V = ContentModel;

    open spec fn view(&self) -> ContentModel {
        match self {
            Content::TextMessage(t) => ContentModel::TextMessage(t@),
            Content::Peer(p) => ContentModel::Peer(p.pubkey@),
        }
    }
}

impl View for Message {
    type V = MessageModel;

    open spec fn view(&self) -> MessageModel {
        MessageModel {
            version: self.version,
            order_id: self.order_id,
            action: self.action,
            content: match self.content {
                Some(ref c) => Some(c@),
                None => None,
            },
        }
    }
}

impl View for OutboundMessage {
    type V = OutboundMessageModel;

    open spec fn view(&self) -> OutboundMessageModel {
        OutboundMessageModel { recipient: self.recipient@, message: self.message@ }
    }
}

impl Message {
    /// Build an envelope from its parts.
    pub fn new(version: u8, order_id: Option<u64>, action: Action, content: Option<Content>) -> (r:
        Message)
        ensures
            r.version == version,
            r.order_id == order_id,
            r.action == action,
            (match (&r.content, &content) {
                (Some(a), Some(b)) => a@ == b@,
                (None, None) => true,
                _ => false,
            }),
    {
        Message { version, order_id, action, content }
    }
}

/// The text sent back with a `CantDo` reply.
pub open spec fn cant_do_text() -> Seq<char> {
    "You can't do that!"@
}

/// Canned reply text for a request the engine rejects.
pub fn cant_do() -> (r: String)
    ensures
        r@ == cant_do_text(),
{
    "You can't do that!".to_owned()
}

} // verus!
