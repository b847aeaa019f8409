//! The payment-node side of the escrow: hold invoices and outbound
//! payments.
//!
//! [`LndConnector`] is the engine's record of the node's escrow state: the
//! hold invoices it asked for, keyed by payment hash, and the payment
//! hashes it has already attempted to pay. Its methods validate each
//! action, update that record, and hand back the request the caller's RPC
//! layer is to send; the round trips themselves are the caller's work.

pub mod invoice;

use rand::RngCore;

use vstd::prelude::*;
use vstd::string::StringSliceAdditionalSpecFns;

use crate::hex::{hex_decode, spec_hex_decode};
use crate::lightning::invoice::{
    decode_invoice, invoice_amount_of, invoice_hash_of, invoice_parses,
};

verus! {

/// Errors of the payment-node side.
#[derive(Clone, Copy, PartialEq, Eq, Structural, Debug)]
pub enum LnError {
    /// An invoice string the invoice library rejects.
    DecodeError,
    /// A preimage that is not well-formed hex.
    InvalidPreimage,
    /// A payment hash that is not well-formed hex.
    InvalidHash,
    /// The node cannot honour the request (unknown invoice, invoice
    /// already settled or canceled, duplicate payment hash).
    NodeError,
}

/// Settlement state of a hold invoice.
#[derive(Clone, Copy, PartialEq, Eq, Structural, Debug)]
pub enum InvoiceState {
    Open,
    Settled,
    Canceled,
    Accepted,
}

/// Status of an outbound payment attempt.
#[derive(Clone, Copy, PartialEq, Eq, Structural, Debug)]
pub enum PaymentStatus {
    Unknown,
    InFlight,
    Succeeded,
    Failed,
}

/// Connection parameters for the payment node, read once at startup by
/// the caller and passed in explicitly.
pub struct LndConfig {
    pub host: String,
    pub port: u32,
    pub tls_path: String,
    pub macaroon_path: String,
    pub cltv_delta: u64,
}

/// One hold invoice the engine asked the node for.
pub struct HoldInvoice {
    pub hash: Vec<u8>,
    pub amount: i64,
    pub state: InvoiceState,
}

/// Mathematical image of a [`HoldInvoice`].
pub struct HoldInvoiceModel {
    pub hash: Seq<u8>,
    pub amount: i64,
    pub state: InvoiceState,
}

impl View for HoldInvoice {
    type V = HoldInvoiceModel;

    open spec fn view(&self) -> HoldInvoiceModel {
        HoldInvoiceModel { hash: self.hash@, amount: self.amount, state: self.state }
    }
}

/// One state-change event of a watched invoice, as forwarded to a
/// subscriber.
pub struct InvoiceMessage {
    pub hash: Vec<u8>,
    pub state: InvoiceState,
}

/// One status update of an outbound payment, as forwarded to a
/// subscriber.
pub struct PaymentMessage {
    pub status: PaymentStatus,
}

/// The request that creates one hold invoice at the node.
pub struct HoldInvoiceRequest {
    pub hash: Vec<u8>,
    pub memo: String,
    pub value: i64,
    pub cltv_expiry: u64,
}

/// The request that opens one streaming payment attempt at the node. The
/// amount travels with the request only where the invoice itself names
/// none.
pub struct SendPaymentRequest {
    pub payment_request: String,
    pub amt: Option<i64>,
    pub timeout_seconds: i64,
}

/// What a call to [`LndConnector::send_payment`] decided.
pub enum SendPaymentOutcome {
    /// The invoice string did not decode; nothing was recorded or sent.
    DecodeFailed,
    /// A payment for this payment hash is already tracked; the attempt
    /// was aborted before anything was sent, so a retry cannot pay twice.
    AlreadyTracked,
    /// The payment is now tracked and this request goes to the node.
    Attempt(SendPaymentRequest),
}

/// Mathematical image of an [`LndConnector`].
pub struct ConnectorModel {
    pub cltv_delta: u64,
    pub invoices: Seq<HoldInvoiceModel>,
    pub attempted: Seq<Seq<u8>>,
}

/// True where some invoice carries the hash.
pub open spec fn has_invoice(s: Seq<HoldInvoiceModel>, h: Seq<u8>) -> bool {
    exists|i: int| 0 <= i < s.len() && s[i].hash == h
}

/// First invoice carrying the hash, scanning from the front.
pub open spec fn invoice_find(s: Seq<HoldInvoiceModel>, h: Seq<u8>) -> Option<HoldInvoiceModel>
    decreases s.len(),
{
    if s.len() == 0 {
        None
    } else if s[0].hash == h {
        Some(s[0])
    } else {
        invoice_find(s.drop_first(), h)
    }
}

/// The invoices after the first one carrying the hash moves to state
/// `st`; unchanged where none does.
pub open spec fn invoice_set_state(
    s: Seq<HoldInvoiceModel>,
    h: Seq<u8>,
    st: InvoiceState,
) -> Seq<HoldInvoiceModel>
    decreases s.len(),
{
    if s.len() == 0 {
        s
    } else if s[0].hash == h {
        seq![(HoldInvoiceModel { state: st, ..s[0] })] + s.drop_first()
    } else {
        seq![s[0]] + invoice_set_state(s.drop_first(), h, st)
    }
}

/// True on the states settling and canceling act on. `Settled` and
/// `Canceled` are terminal: each is reached at most once, and they
/// exclude each other.
pub open spec fn settleable(st: InvoiceState) -> bool {
    st is Open || st is Accepted
}

/// True where the hash names an invoice that can still be settled or
/// canceled.
pub open spec fn can_resolve(s: Seq<HoldInvoiceModel>, h: Seq<u8>) -> bool {
    match invoice_find(s, h) {
        Some(inv) => settleable(inv.state),
        None => false,
    }
}

/// SHA-256 digest of a byte sequence.
pub uninterp spec fn sha256_of(data: Seq<u8>) -> Seq<u8>;

/// Relies on `easy_hasher::easy_hasher::raw_sha256` (and `Hash::to_vec`):
/// the SHA-256 digest of the input bytes alone, 32 bytes long.
#[verifier::external_body]
fn sha256(data: &Vec<u8>) -> (r: Vec<u8>)
    ensures
        r@ == sha256_of(data@),
        r@.len() == 32,
{
    easy_hasher::easy_hasher::raw_sha256(data.clone()).to_vec()
}

/// Relies on `rand::thread_rng` and `RngCore::fill_bytes`: fills the
/// buffer with random bytes; nothing is assumed about their values.
#[verifier::external_body]
fn random_preimage() -> (r: Vec<u8>)
    ensures
        r@.len() == 32,
{
    let mut preimage = [0u8; 32];
    rand::thread_rng().fill_bytes(&mut preimage);
    preimage.to_vec()
}

fn clone_bytes(v: &Vec<u8>) -> (r: Vec<u8>)
    ensures
        r@ == v@,
{
    let mut out: Vec<u8> = Vec::new();
    let mut i: usize = 0;
    while i < v.len()
        invariant
            i <= v.len(),
            out@ == v@.subrange(0, i as int),
        decreases v.len() - i,
    {
        out.push(v[i]);
        i = i + 1;
        proof {
            assert(out@ =~= v@.subrange(0, i as int));
        }
    }
    proof {
        assert(out@ =~= v@);
    }
    out
}

fn bytes_eq(a: &Vec<u8>, b: &Vec<u8>) -> (r: bool)
    ensures
        r == (a@ == b@),
{
    if a.len() != b.len() {
        return false;
    }
    let mut i: usize = 0;
    while i < a.len()
        invariant
            i <= a.len(),
            a@.len() == b@.len(),
            forall|k: int| 0 <= k < i ==> a@[k] == b@[k],
        decreases a.len() - i,
    {
        if a[i] != b[i] {
            return false;
        }
        i = i + 1;
    }
    proof {
        assert(a@ =~= b@);
    }
    true
}

/// The images of a vector of hold invoices.
pub open spec fn invoice_models(s: Seq<HoldInvoice>) -> Seq<HoldInvoiceModel> {
    s.map_values(|i: HoldInvoice| i@)
}

/// The images of a vector of byte vectors.
pub open spec fn byte_models(s: Seq<Vec<u8>>) -> Seq<Seq<u8>> {
    s.map_values(|v: Vec<u8>| v@)
}

proof fn lemma_invoice_find_hit(s: Seq<HoldInvoiceModel>, h: Seq<u8>, i: int)
    requires
        0 <= i < s.len(),
        s[i].hash == h,
        forall|k: int| 0 <= k < i ==> s[k].hash != h,
    ensures
        invoice_find(s, h) == Some(s[i]),
    decreases i,
{
    if i > 0 {
        lemma_invoice_find_hit(s.drop_first(), h, i - 1);
    }
}

proof fn lemma_invoice_find_miss(s: Seq<HoldInvoiceModel>, h: Seq<u8>)
    requires
        forall|k: int| 0 <= k < s.len() ==> s[k].hash != h,
    ensures
        invoice_find(s, h) is None,
        !has_invoice(s, h),
    decreases s.len(),
{
    if s.len() > 0 {
        lemma_invoice_find_miss(s.drop_first(), h);
    }
}

proof fn lemma_invoice_set_state_hit(s: Seq<HoldInvoiceModel>, h: Seq<u8>, st: InvoiceState, i: int)
    requires
        0 <= i < s.len(),
        s[i].hash == h,
        forall|k: int| 0 <= k < i ==> s[k].hash != h,
    ensures
        invoice_set_state(s, h, st) =~= s.update(i, (HoldInvoiceModel { state: st, ..s[i] })),
    decreases i,
{
    if i == 0 {
        assert(seq![(HoldInvoiceModel { state: st, ..s[0] })] + s.drop_first() =~= s.update(
            0,
            (HoldInvoiceModel { state: st, ..s[0] }),
        ));
    } else {
        lemma_invoice_set_state_hit(s.drop_first(), h, st, i - 1);
        assert(seq![s[0]] + s.drop_first().update(i - 1, (HoldInvoiceModel { state: st, ..s[i] }))
            =~= s.update(i, (HoldInvoiceModel { state: st, ..s[i] })));
    }
}

fn find_invoice(invs: &Vec<HoldInvoice>, h: &Vec<u8>) -> (r: Option<usize>)
    ensures
        (match r {
            Some(i) => {
                &&& 0 <= i < invs.len()
                &&& invoice_models(invs@)[i as int].hash == h@
                &&& forall|k: int| 0 <= k < i ==> invoice_models(invs@)[k].hash != h@
                &&& invoice_find(invoice_models(invs@), h@) == Some(invoice_models(invs@)[i as int])
            },
            None => invoice_find(invoice_models(invs@), h@) is None && !has_invoice(
                invoice_models(invs@),
                h@,
            ),
        }),
{
    let mut i: usize = 0;
    while i < invs.len()
        invariant
            i <= invs.len(),
            forall|k: int| 0 <= k < i ==> invoice_models(invs@)[k].hash != h@,
        decreases invs.len() - i,
    {
        if bytes_eq(&invs[i].hash, h) {
            proof {
                lemma_invoice_find_hit(invoice_models(invs@), h@, i as int);
            }
            return Some(i);
        }
        i = i + 1;
    }
    proof {
        lemma_invoice_find_miss(invoice_models(invs@), h@);
    }
    None
}

fn contains_bytes(v: &Vec<Vec<u8>>, h: &Vec<u8>) -> (r: bool)
    ensures
        r == byte_models(v@).contains(h@),
{
    let mut i: usize = 0;
    while i < v.len()
        invariant
            i <= v.len(),
            forall|k: int| 0 <= k < i ==> byte_models(v@)[k] != h@,
        decreases v.len() - i,
    {
        if bytes_eq(&v[i], h) {
            proof {
                assert(byte_models(v@)[i as int] == h@);
            }
            return true;
        }
        i = i + 1;
    }
    proof {
        assert forall|k: int| 0 <= k < byte_models(v@).len() implies byte_models(v@)[k] != h@ by {}
    }
    false
}

/// The engine's record of the payment node's escrow state: the hold
/// invoices it asked for and the payment hashes it has attempted to pay.
pub struct LndConnector {
    config: LndConfig,
    invoices: Vec<HoldInvoice>,
    attempted: Vec<Vec<u8>>,
}

impl View for LndConnector {
    type V = ConnectorModel;

    closed spec fn view(&self) -> ConnectorModel {
        ConnectorModel {
            cltv_delta: self.config.cltv_delta,
            invoices: invoice_models(self.invoices@),
            attempted: byte_models(self.attempted@),
        }
    }
}

impl LndConnector {
    /// A connector for a node reached with the given configuration; no
    /// invoice asked for, no payment attempted yet.
    pub fn new(config: LndConfig) -> (r: Self)
        ensures
            r@.cltv_delta == config.cltv_delta,
            r@.invoices == Seq::<HoldInvoiceModel>::empty(),
            r@.attempted == Seq::<Seq<u8>>::empty(),
    {
        let r = LndConnector { config, invoices: Vec::new(), attempted: Vec::new() };
        proof {
            assert(r@.invoices =~= Seq::<HoldInvoiceModel>::empty());
            assert(r@.attempted =~= Seq::<Seq<u8>>::empty());
        }
        r
    }

    /// Create a hold invoice: draw a fresh 32-byte preimage, take its
    /// SHA-256 digest as the payment hash, record the invoice as `Open`,
    /// and hand back the node request together with the preimage and the
    /// hash. The preimage is the caller's to keep safe; it is disclosed
    /// only at settlement. The node rejects a payment hash it already
    /// knows, so a (vanishingly unlikely) collision with a recorded
    /// invoice fails instead.
    pub fn create_hold_invoice(&mut self, description: &str, amount: i64) -> (r: Result<
        (HoldInvoiceRequest, Vec<u8>, Vec<u8>),
        LnError,
    >)
        ensures
            (match r {
                Ok((req, preimage, hash)) => {
                    &&& preimage@.len() == 32
                    &&& hash@ == sha256_of(preimage@)
                    &&& hash@.len() == 32
                    &&& req.hash@ == hash@
                    &&& req.memo@ == description@
                    &&& req.value == amount
                    &&& req.cltv_expiry == old(self)@.cltv_delta
                    &&& !has_invoice(old(self)@.invoices, hash@)
                    &&& final(self)@.invoices == old(self)@.invoices.push(
                        (HoldInvoiceModel { hash: hash@, amount, state: InvoiceState::Open }),
                    )
                    &&& final(self)@.attempted == old(self)@.attempted
                    &&& final(self)@.cltv_delta == old(self)@.cltv_delta
                },
                Err(e) => {
                    &&& e is NodeError
                    &&& final(self)@ == old(self)@
                    &&& exists|p: Seq<u8>|
                        p.len() == 32 && has_invoice(old(self)@.invoices, sha256_of(p))
                },
            }),
    {
        let preimage = random_preimage();
        let hash = sha256(&preimage);
        match find_invoice(&self.invoices, &hash) {
            Some(_) => {
                proof {
                    assert(preimage@.len() == 32 && has_invoice(
                        old(self)@.invoices,
                        sha256_of(preimage@),
                    ));
                }
                Err(LnError::NodeError)
            },
            None => {
                let req = HoldInvoiceRequest {
                    hash: clone_bytes(&hash),
                    memo: description.to_owned(),
                    value: amount,
                    cltv_expiry: self.config.cltv_delta,
                };
                let ghost pre = self@.invoices;
                self.invoices.push(
                    HoldInvoice { hash: clone_bytes(&hash), amount, state: InvoiceState::Open },
                );
                proof {
                    assert(self@.invoices =~= pre.push(
                        (HoldInvoiceModel { hash: hash@, amount, state: InvoiceState::Open }),
                    ));
                }
                Ok((req, preimage, hash))
            },
        }
    }

    /// Settle the hold invoice the preimage's digest names: reveal the
    /// preimage to the node and record the invoice `Settled`. Succeeds
    /// exactly where the preimage is well-formed hex whose digest names a
    /// recorded invoice that is still `Open` or `Accepted` — so an
    /// invoice settles at most once, and never after a cancel.
    pub fn settle_hold_invoice(&mut self, preimage: &str) -> (r: Result<Vec<u8>, LnError>)
        ensures
            r is Ok <==> (spec_hex_decode(preimage.spec_bytes()) matches Some(b) && can_resolve(
                old(self)@.invoices,
                sha256_of(b),
            )),
            (r matches Ok(bytes) ==> {
                &&& Some(bytes@) == spec_hex_decode(preimage.spec_bytes())
                &&& final(self)@.invoices == invoice_set_state(
                    old(self)@.invoices,
                    sha256_of(bytes@),
                    InvoiceState::Settled,
                )
                &&& final(self)@.attempted == old(self)@.attempted
                &&& final(self)@.cltv_delta == old(self)@.cltv_delta
            }),
            (r matches Err(e) ==> {
                &&& final(self)@ == old(self)@
                &&& (e is InvalidPreimage <==> spec_hex_decode(preimage.spec_bytes()) is None)
                &&& (e is InvalidPreimage || e is NodeError)
            }),
    {
        let bytes = match hex_decode(preimage) {
            Some(b) => b,
            None => {
                return Err(LnError::InvalidPreimage);
            },
        };
        let hash = sha256(&bytes);
        match find_invoice(&self.invoices, &hash) {
            Some(i) => {
                let settleable_now = match self.invoices[i].state {
                    InvoiceState::Open | InvoiceState::Accepted => true,
                    _ => false,
                };
                if !settleable_now {
                    return Err(LnError::NodeError);
                }
                let amount = self.invoices[i].amount;
                let ghost pre = self@.invoices;
                self.invoices.set(
                    i,
                    HoldInvoice {
                        hash: clone_bytes(&hash),
                        amount,
                        state: InvoiceState::Settled,
                    },
                );
                proof {
                    assert(self@.invoices =~= pre.update(
                        i as int,
                        (HoldInvoiceModel { state: InvoiceState::Settled, ..pre[i as int] }),
                    ));
                    lemma_invoice_set_state_hit(pre, hash@, InvoiceState::Settled, i as int);
                }
                Ok(bytes)
            },
            None => Err(LnError::NodeError),
        }
    }

    /// Release the hold the payment hash names without payment and record
    /// the invoice `Canceled`. Succeeds exactly where the hash is
    /// well-formed hex naming a recorded invoice that is still `Open` or
    /// `Accepted` — so a cancel never follows a settle, nor a second
    /// cancel.
    pub fn cancel_hold_invoice(&mut self, hash: &str) -> (r: Result<Vec<u8>, LnError>)
        ensures
            r is Ok <==> (spec_hex_decode(hash.spec_bytes()) matches Some(b) && can_resolve(
                old(self)@.invoices,
                b,
            )),
            (r matches Ok(bytes) ==> {
                &&& Some(bytes@) == spec_hex_decode(hash.spec_bytes())
                &&& final(self)@.invoices == invoice_set_state(
                    old(self)@.invoices,
                    bytes@,
                    InvoiceState::Canceled,
                )
                &&& final(self)@.attempted == old(self)@.attempted
                &&& final(self)@.cltv_delta == old(self)@.cltv_delta
            }),
            (r matches Err(e) ==> {
                &&& final(self)@ == old(self)@
                &&& (e is InvalidHash <==> spec_hex_decode(hash.spec_bytes()) is None)
                &&& (e is InvalidHash || e is NodeError)
            }),
    {
        let payment_hash = match hex_decode(hash) {
            Some(b) => b,
            None => {
                return Err(LnError::InvalidHash);
            },
        };
        match find_invoice(&self.invoices, &payment_hash) {
            Some(i) => {
                let cancelable_now = match self.invoices[i].state {
                    InvoiceState::Open | InvoiceState::Accepted => true,
                    _ => false,
                };
                if !cancelable_now {
                    return Err(LnError::NodeError);
                }
                let amount = self.invoices[i].amount;
                let ghost pre = self@.invoices;
                self.invoices.set(
                    i,
                    HoldInvoice {
                        hash: clone_bytes(&payment_hash),
                        amount,
                        state: InvoiceState::Canceled,
                    },
                );
                proof {
                    assert(self@.invoices =~= pre.update(
                        i as int,
                        (HoldInvoiceModel { state: InvoiceState::Canceled, ..pre[i as int] }),
                    ));
                    lemma_invoice_set_state_hit(pre, payment_hash@, InvoiceState::Canceled, i as int);
                }
                Ok(payment_hash)
            },
            None => Err(LnError::NodeError),
        }
    }

    /// Plan an outbound payment for a decoded invoice. The attempt is
    /// recorded and the node request handed back only where no attempt
    /// for the same payment hash is tracked yet; a repeated call aborts
    /// before anything is sent. The invoice's own amount wins where it
    /// names one; `amount` travels with the request only otherwise.
    pub fn send_payment(&mut self, payment_request: &str, amount: i64) -> (r: SendPaymentOutcome)
        ensures
            r matches SendPaymentOutcome::Attempt(_) <==> payment_will_send(
                old(self)@.attempted,
                payment_request@,
            ),
            final(self)@.attempted == attempted_after(old(self)@.attempted, payment_request@),
            final(self)@.invoices == old(self)@.invoices,
            final(self)@.cltv_delta == old(self)@.cltv_delta,
            r is DecodeFailed <==> !invoice_parses(payment_request@),
            r is AlreadyTracked <==> (invoice_parses(payment_request@) && old(
                self,
            )@.attempted.contains(invoice_hash_of(payment_request@))),
            (r matches SendPaymentOutcome::Attempt(req) ==> {
                &&& req.payment_request@ == payment_request@
                &&& req.amt == (if invoice_amount_of(payment_request@) is None {
                    Some(amount)
                } else {
                    None::<i64>
                })
                &&& req.timeout_seconds == 60
            }),
    {
        let decoded = match decode_invoice(payment_request) {
            Ok(d) => d,
            Err(_) => {
                return SendPaymentOutcome::DecodeFailed;
            },
        };
        if contains_bytes(&self.attempted, &decoded.payment_hash) {
            return SendPaymentOutcome::AlreadyTracked;
        }
        let ghost pre = self@.attempted;
        self.attempted.push(clone_bytes(&decoded.payment_hash));
        proof {
            assert(self@.attempted =~= pre.push(decoded.payment_hash@));
        }
        let amt = match decoded.amount_msat {
            Some(_) => None,
            None => Some(amount),
        };
        SendPaymentOutcome::Attempt(
            SendPaymentRequest {
                payment_request: payment_request.to_owned(),
                amt,
                timeout_seconds: 60,
            },
        )
    }
}

impl LndConnector {
    /// Record a state-change event the node reported for a watched
    /// invoice. The record moves only while the invoice is still `Open`
    /// or `Accepted`: a terminal state, once recorded, stays — so no
    /// event sequence can reopen, re-settle or un-cancel an invoice.
    pub fn record_invoice_update(&mut self, update: &InvoiceMessage) -> (r: bool)
        ensures
            r == can_resolve(old(self)@.invoices, update.hash@),
            (r ==> final(self)@.invoices == invoice_set_state(
                old(self)@.invoices,
                update.hash@,
                update.state,
            )),
            !r ==> final(self)@ == old(self)@,
            final(self)@.attempted == old(self)@.attempted,
            final(self)@.cltv_delta == old(self)@.cltv_delta,
    {
        match find_invoice(&self.invoices, &update.hash) {
            Some(i) => {
                let movable = match self.invoices[i].state {
                    InvoiceState::Open | InvoiceState::Accepted => true,
                    _ => false,
                };
                if !movable {
                    return false;
                }
                let amount = self.invoices[i].amount;
                let ghost pre = self@.invoices;
                self.invoices.set(
                    i,
                    HoldInvoice { hash: clone_bytes(&update.hash), amount, state: update.state },
                );
                proof {
                    assert(self@.invoices =~= pre.update(
                        i as int,
                        (HoldInvoiceModel { state: update.state, ..pre[i as int] }),
                    ));
                    lemma_invoice_set_state_hit(pre, update.hash@, update.state, i as int);
                }
                true
            },
            None => false,
        }
    }
}

/// True where `attempted` lets a payment for this invoice go out: the
/// invoice decodes and its payment hash is not tracked yet.
pub open spec fn payment_will_send(attempted: Seq<Seq<u8>>, req: Seq<char>) -> bool {
    invoice_parses(req) && !attempted.contains(invoice_hash_of(req))
}

/// The tracked payment hashes after one `send_payment` call for `req`.
pub open spec fn attempted_after(attempted: Seq<Seq<u8>>, req: Seq<char>) -> Seq<Seq<u8>> {
    if payment_will_send(attempted, req) {
        attempted.push(invoice_hash_of(req))
    } else {
        attempted
    }
}

/// Sending a payment is idempotent: whatever one `send_payment` call for
/// an invoice did to the tracked set, a second call for the same invoice
/// sends nothing.
pub proof fn lemma_send_payment_idempotent(attempted: Seq<Seq<u8>>, req: Seq<char>)
    ensures
        !payment_will_send(attempted_after(attempted, req), req),
{
    if payment_will_send(attempted, req) {
        assert(attempted.push(invoice_hash_of(req))[attempted.len() as int] == invoice_hash_of(
            req,
        ));
    }
}

/// The payment hash returned beside a fresh hold invoice is the SHA-256
/// digest of the returned preimage (an ensures of
/// [`LndConnector::create_hold_invoice`]); this lemma adds that the
/// fresh invoice is settled by exactly the preimages with that digest: a
/// settle with the matching preimage succeeds, while one whose digest
/// differs finds no invoice to settle (as long as no recorded invoice
/// carries its digest either), so by the settle contract it draws the
/// node-rejection error — and the record is not moved by that digest:
/// the fresh invoice stays `Open`.
pub proof fn lemma_preimage_gates_settlement(
    invs: Seq<HoldInvoiceModel>,
    p: Seq<u8>,
    q: Seq<u8>,
    amount: i64,
)
    requires
        !has_invoice(invs, sha256_of(p)),
    ensures
        can_resolve(
            invs.push((HoldInvoiceModel { hash: sha256_of(p), amount, state: InvoiceState::Open })),
            sha256_of(p),
        ),
        (sha256_of(q) != sha256_of(p) && !has_invoice(invs, sha256_of(q))) ==> !can_resolve(
            invs.push((HoldInvoiceModel { hash: sha256_of(p), amount, state: InvoiceState::Open })),
            sha256_of(q),
        ),
        (sha256_of(q) != sha256_of(p) && !has_invoice(invs, sha256_of(q))) ==> invoice_set_state(
            invs.push((HoldInvoiceModel { hash: sha256_of(p), amount, state: InvoiceState::Open })),
            sha256_of(q),
            InvoiceState::Settled,
        ) == invs.push(
            (HoldInvoiceModel { hash: sha256_of(p), amount, state: InvoiceState::Open }),
        ),
{
    let inv = HoldInvoiceModel { hash: sha256_of(p), amount, state: InvoiceState::Open };
    lemma_find_push(invs, inv, sha256_of(p));
    if sha256_of(q) != sha256_of(p) && !has_invoice(invs, sha256_of(q)) {
        lemma_find_push(invs, inv, sha256_of(q));
        assert(!has_invoice(invs.push(inv), sha256_of(q))) by {
            assert(forall|i: int| 0 <= i < invs.len() ==> invs.push(inv)[i] == invs[i]);
            assert(invs.push(inv)[invs.len() as int] == inv);
        }
        lemma_invoice_set_state_miss(invs.push(inv), sha256_of(q), InvoiceState::Settled);
    }
}

proof fn lemma_invoice_set_state_miss(s: Seq<HoldInvoiceModel>, h: Seq<u8>, st: InvoiceState)
    requires
        !has_invoice(s, h),
    ensures
        invoice_set_state(s, h, st) =~= s,
    decreases s.len(),
{
    if s.len() > 0 {
        assert(s[0].hash != h);
        assert(!has_invoice(s.drop_first(), h)) by {
            assert(forall|i: int| 0 <= i < s.drop_first().len() ==> s.drop_first()[i] == s[i + 1]);
        }
        lemma_invoice_set_state_miss(s.drop_first(), h, st);
        assert(seq![s[0]] + s.drop_first() =~= s);
    }
}

proof fn lemma_find_push(s: Seq<HoldInvoiceModel>, inv: HoldInvoiceModel, h: Seq<u8>)
    requires
        !has_invoice(s, h),
    ensures
        inv.hash == h ==> invoice_find(s.push(inv), h) == Some(inv),
        inv.hash != h ==> invoice_find(s.push(inv), h) is None,
    decreases s.len(),
{
    reveal_with_fuel(invoice_find, 3);
    if s.len() == 0 {
        assert(s.push(inv).drop_first() =~= Seq::<HoldInvoiceModel>::empty());
    } else {
        assert(s[0].hash != h);
        assert(!has_invoice(s.drop_first(), h)) by {
            assert(forall|i: int| 0 <= i < s.drop_first().len() ==> s.drop_first()[i] == s[i + 1]);
        }
        lemma_find_push(s.drop_first(), inv, h);
        assert(s.push(inv).drop_first() =~= s.drop_first().push(inv));
    }
}

/// Settling and canceling are mutually exclusive terminal actions: once
/// the invoice a hash names is settled or canceled, no further settle or
/// cancel of that hash can succeed.
pub proof fn lemma_resolution_is_terminal(s: Seq<HoldInvoiceModel>, h: Seq<u8>)
    ensures
        !can_resolve(invoice_set_state(s, h, InvoiceState::Settled), h),
        !can_resolve(invoice_set_state(s, h, InvoiceState::Canceled), h),
    decreases s.len(),
{
    if s.len() > 0 && s[0].hash != h {
        lemma_resolution_is_terminal(s.drop_first(), h);
        assert((seq![s[0]] + invoice_set_state(s.drop_first(), h, InvoiceState::Settled))
            .drop_first() =~= invoice_set_state(s.drop_first(), h, InvoiceState::Settled));
        assert((seq![s[0]] + invoice_set_state(s.drop_first(), h, InvoiceState::Canceled))
            .drop_first() =~= invoice_set_state(s.drop_first(), h, InvoiceState::Canceled));
    } else if s.len() > 0 {
        assert((seq![(HoldInvoiceModel { state: InvoiceState::Settled, ..s[0] })] + s.drop_first())[0]
            == (HoldInvoiceModel { state: InvoiceState::Settled, ..s[0] }));
        assert((seq![(HoldInvoiceModel { state: InvoiceState::Canceled, ..s[0] })] + s.drop_first())[0]
            == (HoldInvoiceModel { state: InvoiceState::Canceled, ..s[0] }));
    }
}

/// True where revealing `preimage` would settle an invoice created under
/// `payment_hash`: the preimage's SHA-256 digest is that payment hash.
pub fn preimage_matches(preimage: &Vec<u8>, payment_hash: &Vec<u8>) -> (r: bool)
    ensures
        r == (sha256_of(preimage@) == payment_hash@),
{
    let digest = sha256(preimage);
    bytes_eq(&digest, payment_hash)
}

/// The invoice settlement state an update event carries, by the node's
/// numbering; `None` on a number outside it.
pub open spec fn invoice_state_from_i32(state: i32) -> Option<InvoiceState> {
    if state == 0 {
        Some(InvoiceState::Open)
    } else if state == 1 {
        Some(InvoiceState::Settled)
    } else if state == 2 {
        Some(InvoiceState::Canceled)
    } else if state == 3 {
        Some(InvoiceState::Accepted)
    } else {
        None
    }
}

/// The payment status an update event carries, by the node's numbering;
/// `None` on a number outside it.
pub open spec fn payment_status_from_i32(status: i32) -> Option<PaymentStatus> {
    if status == 0 {
        Some(PaymentStatus::Unknown)
    } else if status == 1 {
        Some(PaymentStatus::InFlight)
    } else if status == 2 {
        Some(PaymentStatus::Succeeded)
    } else if status == 3 {
        Some(PaymentStatus::Failed)
    } else {
        None
    }
}

/// Turn one raw state-change event of a watched invoice into the message
/// forwarded to the subscriber, or `None` where the state number is
/// unknown.
pub fn invoice_update(r_hash: &Vec<u8>, state: i32) -> (r: Option<InvoiceMessage>)
    ensures
        (match r {
            Some(m) => m.hash@ == r_hash@ && Some(m.state) == invoice_state_from_i32(state),
            None => invoice_state_from_i32(state) is None,
        }),
{
    let parsed = if state == 0 {
        Some(InvoiceState::Open)
    } else if state == 1 {
        Some(InvoiceState::Settled)
    } else if state == 2 {
        Some(InvoiceState::Canceled)
    } else if state == 3 {
        Some(InvoiceState::Accepted)
    } else {
        None
    };
    match parsed {
        Some(st) => Some(InvoiceMessage { hash: clone_bytes(r_hash), state: st }),
        None => None,
    }
}

/// Turn one raw status update of a payment stream into the message
/// forwarded to the subscriber, or `None` where the status number is
/// unknown.
pub fn payment_update(status: i32) -> (r: Option<PaymentMessage>)
    ensures
        (match r {
            Some(m) => Some(m.status) == payment_status_from_i32(status),
            None => payment_status_from_i32(status) is None,
        }),
{
    if status == 0 {
        Some(PaymentMessage { status: PaymentStatus::Unknown })
    } else if status == 1 {
        Some(PaymentMessage { status: PaymentStatus::InFlight })
    } else if status == 2 {
        Some(PaymentMessage { status: PaymentStatus::Succeeded })
    } else if status == 3 {
        Some(PaymentMessage { status: PaymentStatus::Failed })
    } else {
        None
    }
}

} // verus!
