use mostro::app::fiat_sent::{fiat_sent_action, FiatSentOutcome};
use mostro::messages::{cant_do, Action, Content, Message};
use mostro::order::{Order, OrderStore, Status};

const BUYER: &str = "npub1buyerbuyerbuyer";
const SELLER: &str = "npub1sellersellerseller";
const STRANGER: &str = "npub1strangerstranger";

fn active_order(id: u64, seller: Option<&str>) -> Order {
    Order {
        id,
        status: Status::Active,
        amount: 7000,
        buyer_pubkey: Some(String::from(BUYER)),
        seller_pubkey: seller.map(String::from),
        payment_hash: None,
    }
}

fn fiat_sent_msg(id: u64) -> Message {
    Message::new(0, Some(id), Action::FiatSent, None)
}

fn store_with(order: Order) -> OrderStore {
    let mut store = OrderStore::new();
    assert!(store.save(&order).is_ok());
    store
}

#[test]
fn scenario_active_order_completes() {
    let mut store = store_with(active_order(42, Some(SELLER)));

    let outcome = fiat_sent_action(&mut store, &fiat_sent_msg(42), &String::from(BUYER));

    match outcome {
        FiatSentOutcome::Completed { to_seller, to_buyer } => {
            assert_eq!(to_seller.recipient, SELLER);
            assert!(matches!(to_seller.message.action, Action::FiatSent));
            assert_eq!(to_seller.message.order_id, Some(42));
            match to_seller.message.content {
                Some(Content::Peer(peer)) => assert_eq!(peer.pubkey, BUYER),
                _ => panic!("seller notice must disclose the buyer"),
            }

            assert_eq!(to_buyer.recipient, BUYER);
            assert!(matches!(to_buyer.message.action, Action::FiatSent));
            assert_eq!(to_buyer.message.order_id, Some(42));
            match to_buyer.message.content {
                Some(Content::Peer(peer)) => assert_eq!(peer.pubkey, SELLER),
                _ => panic!("buyer notice must disclose the seller"),
            }
        },
        _ => panic!("a valid FiatSent from the buyer must complete"),
    }

    let order = store.load(42).expect("order 42 must still be there");
    assert!(matches!(order.status, Status::FiatSent));
}

#[test]
fn scenario_unknown_sender_is_rejected() {
    let mut store = store_with(active_order(42, Some(SELLER)));

    let outcome = fiat_sent_action(&mut store, &fiat_sent_msg(42), &String::from(STRANGER));

    match outcome {
        FiatSentOutcome::Unauthorized(reply) => {
            assert_eq!(reply.recipient, STRANGER);
            assert!(matches!(reply.message.action, Action::CantDo));
            assert_eq!(reply.message.order_id, Some(42));
            match reply.message.content {
                Some(Content::TextMessage(text)) => assert_eq!(text, cant_do()),
                _ => panic!("the reply must carry the canned text"),
            }
        },
        _ => panic!("a sender who is not the buyer must be rejected"),
    }

    let order = store.load(42).expect("order 42 must still be there");
    assert!(matches!(order.status, Status::Active));
}

#[test]
fn scenario_absent_order_sends_nothing() {
    let mut store = store_with(active_order(42, Some(SELLER)));

    let outcome = fiat_sent_action(&mut store, &fiat_sent_msg(99), &String::from(BUYER));

    assert!(matches!(outcome, FiatSentOutcome::OrderNotFound));
    let order = store.load(42).expect("order 42 must still be there");
    assert!(matches!(order.status, Status::Active));
}

#[test]
fn scenario_missing_seller_is_reported() {
    let mut store = store_with(active_order(42, None));

    let outcome = fiat_sent_action(&mut store, &fiat_sent_msg(42), &String::from(BUYER));

    assert!(matches!(outcome, FiatSentOutcome::InvariantViolation));
    let order = store.load(42).expect("order 42 must still be there");
    assert!(matches!(order.status, Status::Active));
}

#[test]
fn guard_rejects_every_non_active_status() {
    for status in [Status::Pending, Status::Settled, Status::Canceled, Status::Disputed] {
        let mut order = active_order(42, Some(SELLER));
        order.status = status;
        let mut store = store_with(order);

        let outcome = fiat_sent_action(&mut store, &fiat_sent_msg(42), &String::from(BUYER));

        match outcome {
            FiatSentOutcome::WrongStatus(reply) => {
                assert_eq!(reply.recipient, BUYER);
                assert!(matches!(reply.message.action, Action::CantDo));
            },
            _ => panic!("a non-active order must only draw a CantDo"),
        }
        let order = store.load(42).expect("order 42 must still be there");
        assert!(order.status == status, "status must be untouched");
    }
}
