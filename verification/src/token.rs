//! A minimal token used alongside the oracle. A transfer keeps no balances:
//! it asks the host for the payer's authorization and then reports itself in
//! one event. The library decides these host effects and their order; the
//! contract around it performs them.

use vstd::prelude::*;

verus! {

#[verifier::external_type_specification]
#[verifier::external_body]
pub struct ExAddress(soroban_sdk::Address);

/// Copy of an address.
///
/// Trusted: `soroban_sdk::Address::clone` is the derived clone of the
/// address's environment handle and host object, so the copy names the same
/// address as the original; the contract says no more than that.
#[verifier::external_body]
fn clone_address(a: &soroban_sdk::Address) -> (r: soroban_sdk::Address)
    ensures
        r == *a,
{
    a.clone()
}

/// What a transfer reports: who pays, who receives, and how much.
pub struct TokenTransferEvent {
    pub from: soroban_sdk::Address,
    pub to: soroban_sdk::Address,
    pub amount: i128,
}

/// A host effect that a token operation asks for.
pub enum TokenEffect {
    /// The host must see that this address authorized the invocation; the
    /// operation stops here when it did not.
    RequireAuth(soroban_sdk::Address),
    /// The host publishes this event.
    Publish(TokenTransferEvent),
}

/// A token that keeps no balances: a transfer only reports itself.
pub struct DummyToken;

impl DummyToken {
    /// The host effects of a transfer of `amount` from `from` to `to`, in the
    /// order they are to be performed: first the payer's authorization (never
    /// the payee's), then exactly one event carrying payer, payee and amount.
    pub fn transfer(from: soroban_sdk::Address, to: soroban_sdk::Address, amount: i128) -> (effects: Vec<TokenEffect>)
        ensures
            effects@ == seq![
                TokenEffect::RequireAuth(from),
                TokenEffect::Publish(TokenTransferEvent { from: from, to: to, amount: amount }),
            ],
    {
        let payer = clone_address(&from);
        let ev = TokenTransferEvent { from, to, amount };
        vec![TokenEffect::RequireAuth(payer), TokenEffect::Publish(ev)]
    }
}

} // verus!
