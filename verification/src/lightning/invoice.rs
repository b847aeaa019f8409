//! Decoding of BOLT11-style payment-network invoice strings.
//!
//! Parsing itself is the invoice library's work; the engine acts only on
//! the two facts it extracts: the payment hash and the amount, when the
//! invoice carries one. Both are functions of the invoice string alone,
//! so they carry names the rest of the library's contracts speak of.

use std::str::FromStr;

use vstd::prelude::*;

use crate::lightning::LnError;

verus! {

/// Whether the string is a well-formed, semantically valid invoice.
pub uninterp spec fn invoice_parses(s: Seq<char>) -> bool;

/// The payment hash carried by a well-formed invoice string.
pub uninterp spec fn invoice_hash_of(s: Seq<char>) -> Seq<u8>;

/// The amount in millisatoshis carried by a well-formed invoice string,
/// where it names one.
pub uninterp spec fn invoice_amount_of(s: Seq<char>) -> Option<u64>;

/// A decoded invoice, reduced to what the engine acts on.
pub struct DecodedInvoice {
    pub payment_hash: Vec<u8>,
    pub amount_msat: Option<u64>,
}

/// Relies on `lightning_invoice::Bolt11Invoice`: `from_str` accepts or
/// rejects the string on its content alone; `payment_hash` returns the
/// invoice's 32-byte SHA-256 payment hash; `amount_milli_satoshis`
/// returns the amount field, when the invoice carries one.
#[verifier::external_body]
pub fn decode_invoice(payment_request: &str) -> (r: Result<DecodedInvoice, LnError>)
    ensures
        r is Ok <==> invoice_parses(payment_request@),
        (r matches Ok(d) ==> {
            &&& d.payment_hash@ == invoice_hash_of(payment_request@)
            &&& d.payment_hash@.len() == 32
            &&& d.amount_msat == invoice_amount_of(payment_request@)
        }),
        (r matches Err(e) ==> e is DecodeError),
{
    match lightning_invoice::Bolt11Invoice::from_str(payment_request) {
        Ok(invoice) => {
            let payment_hash = AsRef::<[u8; 32]>::as_ref(invoice.payment_hash()).to_vec();
            let amount_msat = invoice.amount_milli_satoshis();
            Ok(DecodedInvoice { payment_hash, amount_msat })
        },
        Err(_) => Err(LnError::DecodeError),
    }
}

} // verus!
