//! Checking what a caller hands in before a payment is sent: an encoded
//! invoice, or the hex identity of a spontaneous payment's recipient.

use vstd::prelude::*;
use ldk_node::bitcoin::secp256k1::PublicKey;
use ldk_node::lightning_invoice::Invoice;

verus! {

#[verifier::external_type_specification]
#[verifier::external_body]
pub struct ExInvoice(Invoice);

#[derive(Clone, Copy, Debug, PartialEq, Eq, Structural)]
pub enum PaymentRequestError {
    /// The invoice is malformed, badly signed or expired.
    InvalidInvoice,
    /// The recipient is not the hex encoding of a public key.
    MalformedNodeId,
}

/// Whether `s` decodes to a well-formed, correctly signed invoice.
pub uninterp spec fn invoice_decodes(s: Seq<char>) -> bool;

/// The compressed 33-byte key that the hex text `s` encodes, if any.
pub uninterp spec fn node_id_of_hex(s: Seq<char>) -> Option<Seq<u8>>;

/// Relies on `Invoice::from_str` of lightning-invoice: parses the bech32
/// text, checks its semantics and its signature; the outcome depends on the
/// text alone.
#[verifier::external_body]
fn parse_invoice(s: &str) -> (r: Option<Invoice>)
    ensures
        r is Some <==> invoice_decodes(s@),
{
    s.parse::<Invoice>().ok()
}

/// Relies on `Invoice::is_expired` of lightning-invoice, which compares the
/// expiry with the clock: nothing is promised of the answer.
#[verifier::external_body]
fn invoice_is_expired(inv: &Invoice) -> (r: bool) {
    inv.is_expired()
}

/// Relies on `PublicKey::from_str` of secp256k1, which takes 66 or 130 hex
/// digits of a point on the curve, and `PublicKey::serialize`, which gives
/// its 33-byte compressed form.
#[verifier::external_body]
fn public_key_from_hex(s: &str) -> (r: Option<[u8; 33]>)
    ensures
        r is Some <==> node_id_of_hex(s@) is Some,
        r is Some ==> node_id_of_hex(s@) == Some(r->0@),
        r is Some ==> s@.len() == 66 || s@.len() == 130,
{
    s.parse::<PublicKey>().ok().map(|k| k.serialize())
}

/// Decodes an invoice to pay. Malformed text is refused; a decoded invoice
/// is refused too when it has expired by the clock.
pub fn decode_invoice(s: &str) -> (r: Result<Invoice, PaymentRequestError>)
    ensures
        !invoice_decodes(s@) ==> r matches Err(PaymentRequestError::InvalidInvoice),
        r is Ok ==> invoice_decodes(s@),
        r is Err ==> r matches Err(PaymentRequestError::InvalidInvoice),
{
    match parse_invoice(s) {
        None => Err(PaymentRequestError::InvalidInvoice),
        Some(inv) => if invoice_is_expired(&inv) {
            Err(PaymentRequestError::InvalidInvoice)
        } else {
            Ok(inv)
        },
    }
}

/// The recipient of a spontaneous payment, from its hex identity.
pub fn parse_node_id(s: &str) -> (r: Result<[u8; 33], PaymentRequestError>)
    ensures
        match node_id_of_hex(s@) {
            Some(k) => r is Ok && r->Ok_0@ == k,
            None => r == Err::<[u8; 33], PaymentRequestError>(PaymentRequestError::MalformedNodeId),
        },
        r is Ok ==> s@.len() == 66 || s@.len() == 130,
{
    match public_key_from_hex(s) {
        Some(k) => Ok(k),
        None => Err(PaymentRequestError::MalformedNodeId),
    }
}

} // verus!
