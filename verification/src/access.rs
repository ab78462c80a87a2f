//! Who may administer the oracle and who may report prices. The contract
//! reads this state from its storage, applies one of these transitions, and
//! writes it back.

use vstd::prelude::*;

verus! {

/// Who may administer the oracle and who may report prices.
pub struct AccessControl {
    pub admins: Vec<soroban_sdk::Address>,
    pub providers: Vec<soroban_sdk::Address>,
}

impl AccessControl {
    /// No admins and no providers.
    pub fn new() -> (r: Self)
        ensures
            r.admins@ == Seq::<soroban_sdk::Address>::empty(),
            r.providers@ == Seq::<soroban_sdk::Address>::empty(),
    {
        AccessControl { admins: Vec::new(), providers: Vec::new() }
    }

    /// Replaces the admin list by exactly `admins`; providers are untouched.
    pub fn set_admins(&mut self, admins: Vec<soroban_sdk::Address>)
        ensures
            final(self).admins@ == admins@,
            final(self).providers@ == old(self).providers@,
    {
        self.admins = admins;
    }

    /// Makes `admin` the one and only admin; providers are untouched.
    pub fn set_admin(&mut self, admin: soroban_sdk::Address)
        ensures
            final(self).admins@ == seq![admin],
            final(self).providers@ == old(self).providers@,
    {
        self.set_admins(vec![admin]);
    }

    /// Makes `provider` an authorized provider. It is appended after the
    /// providers already listed; the admins are untouched.
    pub fn add_provider(&mut self, provider: soroban_sdk::Address)
        ensures
            final(self).admins@ == old(self).admins@,
            final(self).providers@ == old(self).providers@.push(provider),
            final(self).providers@.to_set() == old(self).providers@.to_set().insert(provider),
    {
        self.providers.push(provider);
        proof {
            let before = old(self).providers@;
            let after = self.providers@;
            assert forall|a: soroban_sdk::Address| after.contains(a) <==> before.contains(a) || a == provider by {
                if after.contains(a) {
                    let i = choose|i: int| 0 <= i < after.len() && after[i] == a;
                    if i < before.len() {
                        assert(before[i] == a);
                    }
                }
                if before.contains(a) {
                    let i = choose|i: int| 0 <= i < before.len() && before[i] == a;
                    assert(after[i] == a);
                }
                if a == provider {
                    assert(after[before.len() as int] == a);
                }
            }
            assert(after.to_set() =~= before.to_set().insert(provider));
        }
    }
}

/// Adding a provider that is already authorized changes nothing about who may
/// report prices: adding the same address twice authorizes the same set as
/// adding it once.
pub proof fn law_add_provider_idempotent(providers: Seq<soroban_sdk::Address>, provider: soroban_sdk::Address)
    ensures
        providers.push(provider).push(provider).to_set() == providers.push(provider).to_set(),
{
    let once = providers.push(provider);
    let twice = once.push(provider);
    assert forall|a: soroban_sdk::Address| twice.contains(a) <==> once.contains(a) by {
        if twice.contains(a) {
            let i = choose|i: int| 0 <= i < twice.len() && twice[i] == a;
            if i < once.len() {
                assert(once[i] == a);
            } else {
                assert(once[providers.len() as int] == a);
            }
        }
        if once.contains(a) {
            let i = choose|i: int| 0 <= i < once.len() && once[i] == a;
            assert(twice[i] == a);
        }
    }
    assert(twice.to_set() =~= once.to_set());
}

} // verus!
