use vstd::prelude::*;
use crate::address::Address;
use crate::authority::recreate_authority;
use crate::ledger::Ledger;

pub mod make;
pub mod refund;
pub mod take;

verus! {

/// Rebuilds, from the stored seeds and bump, the authority of the escrow
/// that is open at `at`.
pub fn escrow_authority(ledger: &Ledger, at: &Address) -> (r: Option<Address>)
    requires
        ledger.sound(),
    ensures
        ledger@.is_open(at@) ==> r.deep_view() == ledger@.authority_of(at@),
        !ledger@.is_open(at@) ==> r is None,
{
    match ledger.escrow(at) {
        Some(e) => {
            let program = ledger.program();
            recreate_authority(&program, &e.maker, e.seed, e.bump)
        },
        None => None,
    }
}

/// Pays all that the vault at `vault` holds to the holding at `to`, then
/// closes the vault and its escrow.
pub(crate) fn release(ledger: &mut Ledger, vault: &Address, to: &Address)
    requires
        old(ledger).wf(),
        old(ledger)@.is_open(vault@),
        old(ledger)@.holdings.dom().contains(to@),
        !old(ledger)@.holdings[to@].custody,
        old(ledger)@.holdings[to@].asset == old(ledger)@.escrows[vault@].asset_a,
    ensures
        final(ledger).wf(),
        final(ledger)@ == old(ledger)@.released(vault@, to@),
        forall|a: Seq<u8>| #[trigger] final(ledger).supply(a) == old(ledger).supply(a),
{
    let amount = match ledger.holding(vault) {
        Some(h) => h.amount,
        None => 0,
    };
    ledger.transfer(vault, to, amount);
    ledger.drop_holding(vault);
    ledger.drop_escrow(vault);
}

} // verus!
