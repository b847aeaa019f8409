//! The `FiatSent` transition of the order state machine.
//!
//! An inbound `FiatSent` message says the buyer has sent the fiat side of
//! the trade. The handler validates the message against the stored order,
//! advances the order to `FiatSent`, and tells both counterparties. It
//! performs no transport itself: the messages to send come back to the
//! caller, and persistence happens before any of them is handed out.

use vstd::prelude::*;

use crate::messages::{
    cant_do, cant_do_text, Action, Content, ContentModel, Message, MessageModel, OutboundMessage,
    OutboundMessageModel, Peer,
};
use crate::order::{store_find, store_save, valid_transition, OrderModel, OrderStore, Status};

verus! {

/// What the handler decided for one inbound `FiatSent` message.
///
/// Replies travel with the variant: a rejected sender gets a `CantDo`
/// reply, a completed transition produces one notification for each
/// counterparty. The caller sends them only after the outcome (and with
/// it the persisted status) is in hand.
pub enum FiatSentOutcome {
    /// No order under the message's id: nothing is sent to anyone, so an
    /// untrusted sender learns nothing about which orders exist.
    OrderNotFound,
    /// The order is not `Active`; the transition is illegal and the sender
    /// is told so.
    WrongStatus(OutboundMessage),
    /// The sender is not the order's buyer; only the buyer may declare
    /// fiat sent.
    Unauthorized(OutboundMessage),
    /// The order is `Active` but has no seller identity: a broken
    /// invariant, reported to the caller, order untouched.
    InvariantViolation,
    /// The order now has status `FiatSent`; the two notifications carry
    /// each counterparty the other's identity.
    Completed { to_seller: OutboundMessage, to_buyer: OutboundMessage },
}

/// The `CantDo` reply the handler addresses to a rejected sender.
pub open spec fn cant_do_reply_model(id: u64, sender: Seq<char>) -> OutboundMessageModel {
    OutboundMessageModel {
        recipient: sender,
        message: MessageModel {
            version: 0,
            order_id: Some(id),
            action: Action::CantDo,
            content: Some(ContentModel::TextMessage(cant_do_text())),
        },
    }
}

/// The `FiatSent` notification addressed to `recipient`, disclosing the
/// other counterparty's identity `peer`.
pub open spec fn fiat_sent_notice_model(id: u64, recipient: Seq<char>, peer: Seq<char>) -> OutboundMessageModel {
    OutboundMessageModel {
        recipient,
        message: MessageModel {
            version: 0,
            order_id: Some(id),
            action: Action::FiatSent,
            content: Some(ContentModel::Peer(peer)),
        },
    }
}

fn cant_do_reply(id: u64, sender: &String) -> (r: OutboundMessage)
    ensures
        r@ == cant_do_reply_model(id, sender@),
{
    let text_message = cant_do();
    let message = Message::new(
        0,
        Some(id),
        Action::CantDo,
        Some(Content::TextMessage(text_message)),
    );
    OutboundMessage { recipient: sender.clone(), message }
}

fn fiat_sent_notice(id: u64, recipient: &String, peer: &String) -> (r: OutboundMessage)
    ensures
        r@ == fiat_sent_notice_model(id, recipient@, peer@),
{
    let message = Message::new(
        0,
        Some(id),
        Action::FiatSent,
        Some(Content::Peer(Peer { pubkey: peer.clone() })),
    );
    OutboundMessage { recipient: recipient.clone(), message }
}

/// Handle an inbound `FiatSent` message from `sender_pubkey`.
///
/// The order named by the message must exist, be `Active`, name the
/// sender as its buyer and carry a seller identity; then and only then
/// the order is persisted with status `FiatSent` and the two
/// notifications are produced. On every rejection the store is left
/// exactly as it was.
pub fn fiat_sent_action(store: &mut OrderStore, msg: &Message, sender_pubkey: &String) -> (r:
    FiatSentOutcome)
    requires
        msg.order_id is Some,
    ensures
        (match store_find(old(store)@, msg.order_id.unwrap()) {
            None => final(store)@ == old(store)@ && r is OrderNotFound,
            Some(o) => {
                if o.status != Status::Active {
                    &&& final(store)@ == old(store)@
                    &&& r matches FiatSentOutcome::WrongStatus(reply) && reply@
                        == cant_do_reply_model(msg.order_id.unwrap(), sender_pubkey@)
                } else if o.buyer_pubkey != Some(sender_pubkey@) {
                    &&& final(store)@ == old(store)@
                    &&& r matches FiatSentOutcome::Unauthorized(reply) && reply@
                        == cant_do_reply_model(msg.order_id.unwrap(), sender_pubkey@)
                } else if o.seller_pubkey is None {
                    &&& final(store)@ == old(store)@
                    &&& r is InvariantViolation
                } else {
                    &&& valid_transition(o.status, Status::FiatSent)
                    &&& final(store)@ == store_save(
                        old(store)@,
                        (OrderModel { status: Status::FiatSent, ..o }),
                    )
                    &&& r matches FiatSentOutcome::Completed { to_seller, to_buyer }
                        && to_seller@ == fiat_sent_notice_model(
                            msg.order_id.unwrap(),
                            o.seller_pubkey.unwrap(),
                            sender_pubkey@,
                        )
                        && to_buyer@ == fiat_sent_notice_model(
                            msg.order_id.unwrap(),
                            sender_pubkey@,
                            o.seller_pubkey.unwrap(),
                        )
                }
            },
        }),
{
    let order_id = msg.order_id.unwrap();
    let order = match store.load(order_id) {
        Some(order) => order,
        None => {
            return FiatSentOutcome::OrderNotFound;
        },
    };
    if order.status != Status::Active {
        return FiatSentOutcome::WrongStatus(cant_do_reply(order_id, sender_pubkey));
    }
    let buyer_matches = match &order.buyer_pubkey {
        Some(b) => b.eq(sender_pubkey),
        None => false,
    };
    if !buyer_matches {
        return FiatSentOutcome::Unauthorized(cant_do_reply(order_id, sender_pubkey));
    }
    let seller_pubkey = match &order.seller_pubkey {
        Some(pk) => pk.clone(),
        None => {
            return FiatSentOutcome::InvariantViolation;
        },
    };
    // The new status is persisted before any notification leaves the
    // handler: a crash between the two leaves at worst an unsent,
    // replayable notification, never a counterparty acting on a status
    // that was not recorded.
    let mut updated = order.clone();
    updated.status = Status::FiatSent;
    let ghost o = store_find(old(store)@, order_id).unwrap();
    proof {
        assert(updated@ == (OrderModel { status: Status::FiatSent, ..o }));
    }
    let _ = store.save(&updated);
    let to_seller = fiat_sent_notice(order_id, &seller_pubkey, sender_pubkey);
    let to_buyer = fiat_sent_notice(order_id, sender_pubkey, &seller_pubkey);
    FiatSentOutcome::Completed { to_seller, to_buyer }
}

} // verus!
