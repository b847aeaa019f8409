//! Orders, their status state machine, and the order store contract.
//!
//! An [`Order`] describes one escrow trade between a buyer and a seller.
//! Its status moves along a fixed transition table; the terminal states are
//! immutable. The [`OrderStore`] is the in-memory form of the persistence
//! contract: load by id, save with read-your-writes, per-id isolation.

use vstd::prelude::*;

verus! {

/// Lifecycle status of an order.
///
/// Happy path: `Pending -> Active -> FiatSent -> Settled`. `Canceled` and
/// `CooperativelyCanceled` are reachable from `Active` and `FiatSent`;
/// `Disputed` is reachable from `FiatSent`. `Settled`, `Canceled` and
/// `CooperativelyCanceled` are terminal.
#[derive(Clone, Copy, PartialEq, Eq, Structural, Debug)]
pub enum Status {
    Pending,
    Active,
    FiatSent,
    Settled,
    Canceled,
    CooperativelyCanceled,
    Disputed,
}

/// True on the pairs of statuses that the state machine allows as a single
/// step.
pub open spec fn valid_transition(from: Status, to: Status) -> bool {
    match (from, to) {
        (Status::Pending, Status::Active) => true,
        (Status::Active, Status::FiatSent) => true,
        (Status::Active, Status::Canceled) => true,
        (Status::Active, Status::CooperativelyCanceled) => true,
        (Status::FiatSent, Status::Settled) => true,
        (Status::FiatSent, Status::Canceled) => true,
        (Status::FiatSent, Status::CooperativelyCanceled) => true,
        (Status::FiatSent, Status::Disputed) => true,
        _ => false,
    }
}

/// True on the statuses no transition may leave.
pub open spec fn is_terminal(s: Status) -> bool {
    match s {
        Status::Settled | Status::Canceled | Status::CooperativelyCanceled => true,
        _ => false,
    }
}

/// Terminal statuses really are terminal: no transition leaves them.
pub proof fn lemma_terminal_is_final(from: Status, to: Status)
    requires
        is_terminal(from),
    ensures
        !valid_transition(from, to),
{
}

/// The transition table, exhaustively checked: exactly the pairs of
/// [`valid_transition`] are allowed.
pub fn can_transition(from: Status, to: Status) -> (r: bool)
    ensures
        r == valid_transition(from, to),
{
    match (from, to) {
        (Status::Pending, Status::Active) => true,
        (Status::Active, Status::FiatSent) => true,
        (Status::Active, Status::Canceled) => true,
        (Status::Active, Status::CooperativelyCanceled) => true,
        (Status::FiatSent, Status::Settled) => true,
        (Status::FiatSent, Status::Canceled) => true,
        (Status::FiatSent, Status::CooperativelyCanceled) => true,
        (Status::FiatSent, Status::Disputed) => true,
        _ => false,
    }
}

/// One escrow trade. Counterparty identities are public keys in their
/// string encoding, optional until assigned; the payment hash is set once
/// the hold invoice backing the trade exists.
pub struct Order {
    pub id: u64,
    pub status: Status,
    pub amount: i64,
    pub buyer_pubkey: Option<String>,
    pub seller_pubkey: Option<String>,
    pub payment_hash: Option<Vec<u8>>,
}

/// Mathematical image of an [`Order`]: identities as character sequences,
/// the payment hash as a byte sequence.
pub struct OrderModel {
    pub id: u64,
    pub status: Status,
    pub amount: i64,
    pub buyer_pubkey: Option<Seq<char>>,
    pub seller_pubkey: Option<Seq<char>>,
    pub payment_hash: Option<Seq<u8>>,
}

impl View for Order {
    type V = OrderModel;

    open spec fn view(&self) -> OrderModel {
        OrderModel {
            id: self.id,
            status: self.status,
            amount: self.amount,
            buyer_pubkey: match self.buyer_pubkey {
                Some(ref s) => Some(s@),
                None => None,
            },
            seller_pubkey: match self.seller_pubkey {
                Some(ref s) => Some(s@),
                None => None,
            },
            payment_hash: match self.payment_hash {
                Some(ref h) => Some(h@),
                None => None,
            },
        }
    }
}

fn clone_opt_string(s: &Option<String>) -> (r: Option<String>)
    ensures
        (match (s, &r) {
            (Some(a), Some(b)) => a@ == b@,
            (None, None) => true,
            _ => false,
        }),
{
    match s {
        Some(v) => Some(v.clone()),
        None => None,
    }
}

fn clone_opt_bytes(b: &Option<Vec<u8>>) -> (r: Option<Vec<u8>>)
    ensures
        (match (b, &r) {
            (Some(a), Some(c)) => a@ == c@,
            (None, None) => true,
            _ => false,
        }),
{
    match b {
        Some(v) => {
            let mut out: Vec<u8> = Vec::new();
            let mut i: usize = 0;
            while i < v.len()
                invariant
                    i <= v.len(),
                    out@ == v@.subrange(0, i as int),
                decreases v.len() - i,
            {
                out.push(v[i]);
                i = i + 1;
                proof {
                    assert(out@ =~= v@.subrange(0, i as int));
                }
            }
            proof {
                assert(out@ =~= v@);
            }
            Some(out)
        },
        None => None,
    }
}

impl Clone for Order {
    fn clone(&self) -> (r: Self)
        ensures
            r@ == self@,
    {
        let r = Order {
            id: self.id,
            status: self.status,
            amount: self.amount,
            buyer_pubkey: clone_opt_string(&self.buyer_pubkey),
            seller_pubkey: clone_opt_string(&self.seller_pubkey),
            payment_hash: clone_opt_bytes(&self.payment_hash),
        };
        proof {
            assert(r@ == self@);
        }
        r
    }
}

/// First order with the given id, scanning from the front.
pub open spec fn store_find(s: Seq<OrderModel>, id: u64) -> Option<OrderModel>
    decreases s.len(),
{
    if s.len() == 0 {
        None
    } else if s[0].id == id {
        Some(s[0])
    } else {
        store_find(s.drop_first(), id)
    }
}

/// The store after saving `o`: the order with `o.id` is replaced if
/// present, else `o` is appended.
pub open spec fn store_save(s: Seq<OrderModel>, o: OrderModel) -> Seq<OrderModel>
    decreases s.len(),
{
    if s.len() == 0 {
        seq![o]
    } else if s[0].id == o.id {
        seq![o] + s.drop_first()
    } else {
        seq![s[0]] + store_save(s.drop_first(), o)
    }
}

/// In-memory form of the order persistence contract: load by id, save with
/// read-your-writes. One record per id.
pub struct OrderStore {
    orders: Vec<Order>,
}

/// Error of the persistence contract. The in-memory store never raises it;
/// an engine behind the same contract may.
#[derive(Clone, Copy, PartialEq, Eq, Structural, Debug)]
pub enum StoreError {
    WriteFailed,
}

impl View for OrderStore {
    type V = Seq<OrderModel>;

    closed spec fn view(&self) -> Seq<OrderModel> {
        self.orders@.map_values(|o: Order| o@)
    }
}

impl OrderStore {
    pub fn new() -> (r: Self)
        ensures
            r@ == Seq::<OrderModel>::empty(),
    {
        let r = OrderStore { orders: Vec::new() };
        proof {
            assert(r@ =~= Seq::<OrderModel>::empty());
        }
        r
    }

    /// Load the order with the given id, or `None` if the store holds no
    /// such order.
    pub fn load(&self, id: u64) -> (r: Option<Order>)
        ensures
            (match r {
                Some(o) => store_find(self@, id) == Some(o@),
                None => store_find(self@, id) is None,
            }),
    {
        let mut i: usize = 0;
        while i < self.orders.len()
            invariant
                i <= self.orders.len(),
                forall|k: int| 0 <= k < i ==> self@[k].id != id,
            decreases self.orders.len() - i,
        {
            if self.orders[i].id == id {
                let o = self.orders[i].clone();
                proof {
                    lemma_store_find_hit(self@, id, i as int);
                }
                return Some(o);
            }
            i = i + 1;
        }
        proof {
            lemma_store_find_miss(self@, id);
        }
        None
    }

    /// Persist the order: replace the record with the same id, or append a
    /// new one. The in-memory store always succeeds.
    pub fn save(&mut self, o: &Order) -> (r: Result<(), StoreError>)
        ensures
            r is Ok,
            final(self)@ == store_save(old(self)@, o@),
    {
        let mut i: usize = 0;
        while i < self.orders.len()
            invariant
                i <= self.orders.len(),
                forall|k: int| 0 <= k < i ==> self@[k].id != o.id,
                self@ == old(self)@,
            decreases self.orders.len() - i,
        {
            if self.orders[i].id == o.id {
                let ghost pre = self@;
                self.orders.set(i, o.clone());
                proof {
                    assert(self@ =~= pre.update(i as int, o@));
                    lemma_store_save_hit(pre, o@, i as int);
                }
                return Ok(());
            }
            i = i + 1;
        }
        let ghost pre = self@;
        self.orders.push(o.clone());
        proof {
            assert(self@ =~= pre.push(o@));
            lemma_store_save_miss(pre, o@);
        }
        Ok(())
    }
}

proof fn lemma_store_find_hit(s: Seq<OrderModel>, id: u64, i: int)
    requires
        0 <= i < s.len(),
        s[i].id == id,
        forall|k: int| 0 <= k < i ==> s[k].id != id,
    ensures
        store_find(s, id) == Some(s[i]),
    decreases i,
{
    if i > 0 {
        lemma_store_find_hit(s.drop_first(), id, i - 1);
    }
}

proof fn lemma_store_find_miss(s: Seq<OrderModel>, id: u64)
    requires
        forall|k: int| 0 <= k < s.len() ==> s[k].id != id,
    ensures
        store_find(s, id) is None,
    decreases s.len(),
{
    if s.len() > 0 {
        lemma_store_find_miss(s.drop_first(), id);
    }
}

proof fn lemma_store_save_hit(s: Seq<OrderModel>, o: OrderModel, i: int)
    requires
        0 <= i < s.len(),
        s[i].id == o.id,
        forall|k: int| 0 <= k < i ==> s[k].id != o.id,
    ensures
        store_save(s, o) =~= s.update(i, o),
    decreases i,
{
    if i == 0 {
        assert(store_save(s, o) =~= seq![o] + s.drop_first());
        assert(seq![o] + s.drop_first() =~= s.update(0, o));
    } else {
        lemma_store_save_hit(s.drop_first(), o, i - 1);
        assert(store_save(s, o) =~= seq![s[0]] + store_save(s.drop_first(), o));
        assert(seq![s[0]] + s.drop_first().update(i - 1, o) =~= s.update(i, o));
    }
}

proof fn lemma_store_save_miss(s: Seq<OrderModel>, o: OrderModel)
    requires
        forall|k: int| 0 <= k < s.len() ==> s[k].id != o.id,
    ensures
        store_save(s, o) =~= s.push(o),
    decreases s.len(),
{
    if s.len() == 0 {
        assert(store_save(s, o) =~= s.push(o));
    } else {
        lemma_store_save_miss(s.drop_first(), o);
        assert(seq![s[0]] + s.drop_first().push(o) =~= s.push(o));
    }
}

/// No lost writes: immediately after a save, a load of the saved id
/// observes exactly the saved record, and a load of any other id observes
/// what it observed before the save.
pub proof fn lemma_store_no_lost_writes(s: Seq<OrderModel>, o: OrderModel, other: u64)
    ensures
        store_find(store_save(s, o), o.id) == Some(o),
        other != o.id ==> store_find(store_save(s, o), other) == store_find(s, other),
    decreases s.len(),
{
    reveal_with_fuel(store_find, 3);
    if s.len() == 0 {
        assert(store_save(s, o) =~= seq![o]);
        assert(seq![o].drop_first() =~= Seq::<OrderModel>::empty());
    } else if s[0].id == o.id {
        let t = seq![o] + s.drop_first();
        assert(store_save(s, o) =~= t);
        assert(t[0] == o);
        assert(t.drop_first() =~= s.drop_first());
    } else {
        lemma_store_no_lost_writes(s.drop_first(), o, other);
        let t = seq![s[0]] + store_save(s.drop_first(), o);
        assert(store_save(s, o) =~= t);
        assert(t[0] == s[0]);
        assert(t.drop_first() =~= store_save(s.drop_first(), o));
    }
}

} // verus!
