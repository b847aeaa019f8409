use mostro::order::{can_transition, Order, OrderStore, Status};
use mostro::order::Status::{
    Active, Canceled, CooperativelyCanceled, Disputed, FiatSent, Pending, Settled,
};

fn order(id: u64, status: Status) -> Order {
    Order {
        id,
        status,
        amount: 1000,
        buyer_pubkey: Some(String::from("npub1buyer")),
        seller_pubkey: Some(String::from("npub1seller")),
        payment_hash: None,
    }
}

#[test]
fn transition_table_is_exactly_the_state_machine() {
    let all = [Pending, Active, FiatSent, Settled, Canceled, CooperativelyCanceled, Disputed];
    let allowed = [
        (Pending, Active),
        (Active, FiatSent),
        (Active, Canceled),
        (Active, CooperativelyCanceled),
        (FiatSent, Settled),
        (FiatSent, Canceled),
        (FiatSent, CooperativelyCanceled),
        (FiatSent, Disputed),
    ];
    for from in all {
        for to in all {
            let expected = allowed.contains(&(from, to));
            assert_eq!(can_transition(from, to), expected, "{from:?} -> {to:?}");
        }
    }
}

#[test]
fn terminal_statuses_have_no_way_out() {
    for from in [Settled, Canceled, CooperativelyCanceled] {
        for to in [Pending, Active, FiatSent, Settled, Canceled, CooperativelyCanceled, Disputed] {
            assert!(!can_transition(from, to));
        }
    }
}

#[test]
fn load_of_absent_id_is_none() {
    let store = OrderStore::new();
    assert!(store.load(7).is_none());
}

#[test]
fn save_then_load_observes_new_status() {
    let mut store = OrderStore::new();
    assert!(store.save(&order(42, Status::Active)).is_ok());

    let loaded = store.load(42).expect("order 42 must be there");
    assert!(matches!(loaded.status, Status::Active));

    let mut updated = loaded;
    updated.status = Status::FiatSent;
    assert!(store.save(&updated).is_ok());

    let reloaded = store.load(42).expect("order 42 must still be there");
    assert!(matches!(reloaded.status, Status::FiatSent));
    assert_eq!(reloaded.id, 42);
    assert_eq!(reloaded.amount, 1000);
}

#[test]
fn save_leaves_other_orders_alone() {
    let mut store = OrderStore::new();
    assert!(store.save(&order(1, Status::Pending)).is_ok());
    assert!(store.save(&order(2, Status::Active)).is_ok());

    let mut updated = order(2, Status::FiatSent);
    updated.amount = 5;
    assert!(store.save(&updated).is_ok());

    let untouched = store.load(1).expect("order 1 must be there");
    assert!(matches!(untouched.status, Status::Pending));
    assert_eq!(untouched.amount, 1000);
    let changed = store.load(2).expect("order 2 must be there");
    assert!(matches!(changed.status, Status::FiatSent));
    assert_eq!(changed.amount, 5);
}
