//! The two-phase transfer settlement protocol.
//!
//! Phase one ([`Contract::ft_transfer_call`]) debits the sender and
//! credits the external receiver optimistically, before the
//! receiver's own logic has run. Phase two, here, runs once the
//! receiver's answer is known: whatever the receiver declares unused
//! is clamped against the original amount and against the receiver's
//! *current* balance — the receiver may have spent part of the funds
//! in between — and only that much is refunded. The protocol never
//! refunds more than the receiver still holds, and never loses or
//! duplicates value.

use vstd::prelude::*;

use crate::Contract;
use crate::Error;

verus! {

/// What the receiver's answer bytes parse to: a declared unused
/// amount, or nothing for a malformed answer.
pub uninterp spec fn parsed_token_amount(bytes: Seq<u8>) -> Option<u128>;

/// Relies on `near_sdk::serde_json::from_slice` with
/// `near_sdk::NearToken`'s `Deserialize` impl — the wire format of the
/// receiver's answer, a JSON string of decimal digits naming a 128-bit
/// amount. The parsed amount is a function of the bytes alone;
/// anything malformed is rejected.
#[verifier::external_body]
fn parse_declared_unused(bytes: &Vec<u8>) -> (r: Option<u128>)
    ensures
        r == parsed_token_amount(bytes@),
{
    match near_sdk::serde_json::from_slice::<near_sdk::NearToken>(bytes) {
        Ok(token) => Some(token.as_yoctonear()),
        Err(_) => None,
    }
}

/// How much of `amount` counts as unused: everything when the
/// receiver's invocation failed or answered malformed (`None`), and
/// otherwise the declared figure clamped to `amount` — a receiver
/// declaring more than it was sent cannot inflate the refund.
pub open spec fn clamped_unused(amount: u128, declared: Option<u128>) -> u128 {
    match declared {
        None => amount,
        Some(d) => if d < amount {
            d
        } else {
            amount
        },
    }
}

impl Contract {
    /// The refund a resolution would pay in this state: the unused
    /// amount clamped once more against the receiver's current
    /// balance. It never exceeds `amount` and never exceeds what the
    /// receiver holds.
    pub open spec fn spec_refund(
        self,
        receiver: Seq<char>,
        amount: u128,
        declared: Option<u128>,
    ) -> u128 {
        let unused = clamped_unused(amount, declared);
        let held = self.spec_balance_of(receiver);
        if held < unused {
            held
        } else {
            unused
        }
    }

    /// Resolves a settled transfer given the receiver's declared
    /// unused amount (`None` when the receiver's invocation failed or
    /// answered malformed, in which case the whole amount counts as
    /// unused). Pays the refund back from the receiver to the sender
    /// and returns how much the receiver actually used, so that the
    /// used and the refunded parts always rebuild the original
    /// amount. With a refund of zero — the receiver consumed or
    /// already spent everything — nothing moves and the whole amount
    /// counts as used.
    pub fn resolve_transfer_with(
        &mut self,
        sender_id: &String,
        receiver_id: &String,
        amount: u128,
        declared_unused: Option<u128>,
    ) -> (r: Result<u128, Error>)
        requires
            old(self).wf(),
        ensures
            final(self).wf(),
            ({
                let refund = old(self).spec_refund(receiver_id@, amount, declared_unused);
                &&& refund == 0 ==> r == Ok::<u128, Error>(amount) && *final(self) == *old(self)
                &&& refund > 0 ==> match old(self).transfer_error(receiver_id@, sender_id@, refund) {
                    Some(e) => r == Err::<u128, Error>(e) && *final(self) == *old(self),
                    None => r == Ok::<u128, Error>((amount - refund) as u128) && old(
                        self,
                    ).transfer_effect(*final(self), receiver_id@, sender_id@, refund),
                }
            }),
    {
        let unused = match declared_unused {
            None => amount,
            Some(d) => if d < amount {
                d
            } else {
                amount
            },
        };
        if unused > 0 {
            let receiver_balance = self.ft_balance_of(receiver_id);
            if receiver_balance > 0 {
                let refund = if receiver_balance < unused {
                    receiver_balance
                } else {
                    unused
                };
                match self.transfer(receiver_id, sender_id, refund) {
                    Err(e) => { return Err(e) },
                    Ok(_) => {},
                }
                let used = match amount.checked_sub(refund) {
                    Some(u) => u,
                    None => { return Err(Error::SupplyOverflowError) },
                };
                return Ok(used);
            }
        }
        Ok(amount)
    }

    /// Phase two of the settlement, as scheduled by the host after
    /// [`Contract::ft_transfer_call`]: `receiver_response` carries the
    /// raw bytes of the receiver's answer, or `None` when the
    /// receiver's invocation failed. The answer is parsed as a
    /// declared unused amount and the transfer is resolved with it.
    pub fn ft_resolve_transfer(
        &mut self,
        sender_id: &String,
        receiver_id: &String,
        amount: u128,
        receiver_response: Option<Vec<u8>>,
    ) -> (r: Result<u128, Error>)
        requires
            old(self).wf(),
        ensures
            final(self).wf(),
            ({
                let declared = match receiver_response {
                    None => None,
                    Some(bytes) => parsed_token_amount(bytes@),
                };
                let refund = old(self).spec_refund(receiver_id@, amount, declared);
                &&& refund == 0 ==> r == Ok::<u128, Error>(amount) && *final(self) == *old(self)
                &&& refund > 0 ==> match old(self).transfer_error(receiver_id@, sender_id@, refund) {
                    Some(e) => r == Err::<u128, Error>(e) && *final(self) == *old(self),
                    None => r == Ok::<u128, Error>((amount - refund) as u128) && old(
                        self,
                    ).transfer_effect(*final(self), receiver_id@, sender_id@, refund),
                }
            }),
    {
        let declared = match &receiver_response {
            None => None,
            Some(bytes) => parse_declared_unused(bytes),
        };
        self.resolve_transfer_with(sender_id, receiver_id, amount, declared)
    }
}

} // verus!
