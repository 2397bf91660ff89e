//! A two-party asset swap held in escrow: a maker deposits one asset into a
//! vault and names what it wants in return; a taker pays that and receives
//! the deposit, or the maker cancels and takes the deposit back.

use vstd::prelude::*;
use crate::authority::bump_of;
use crate::authority::derived_authority;
use crate::authority::find_authority;
use crate::instructions::escrow_authority;

pub mod address;
pub mod authority;
pub mod error;
pub mod holding;
pub mod instructions;
pub mod laws;
pub mod ledger;
pub mod state;
mod table;

pub use crate::address::Address;
pub use crate::error::EscrowError;
pub use crate::holding::Holding;
pub use crate::instructions::make::Make;
pub use crate::instructions::make::MakeBumps;
pub use crate::instructions::refund::Refund;
pub use crate::instructions::take::Take;
pub use crate::ledger::Ledger;
pub use crate::state::Escrow;

verus! {

/// Opens an escrow: moves `deposit_amount` units of the deposited asset from
/// the maker's holding into a new vault, and records that `receive_amount`
/// units of the demanded asset fulfil the swap. The escrow and its vault
/// stand at the authority derived for the maker and `seed`. Either all of
/// this happens or nothing does.
///
/// With a signature, amounts above zero and a fitting vault address, the
/// escrow is opened exactly when the maker holds the deposit; the vault then
/// holds exactly the deposit.
pub fn make(
    ledger: &mut Ledger,
    accounts: &Make,
    seed: u64,
    deposit_amount: u64,
    receive_amount: u64,
) -> (r: Result<(), EscrowError>)
    requires
        old(ledger).wf(),
    ensures
        final(ledger).wf(),
        r == accounts.outcome(
            old(ledger)@,
            deposit_amount,
            receive_amount,
            derived_authority(old(ledger)@.program, accounts.maker@, seed),
        ),
        r is Ok ==> final(ledger)@ == accounts.applied(
            old(ledger)@,
            seed,
            deposit_amount,
            receive_amount,
            bump_of(derived_authority(old(ledger)@.program, accounts.maker@, seed)),
        ),
        r is Err ==> final(ledger)@ == old(ledger)@,
        forall|a: Seq<u8>| #[trigger] final(ledger).supply(a) == old(ledger).supply(a),
        accounts.signed && deposit_amount > 0 && receive_amount > 0 && accounts.vault_fits(
            old(ledger)@,
            derived_authority(old(ledger)@.program, accounts.maker@, seed),
        ) ==> (r is Ok <==> old(ledger)@.held(
            accounts.maker_a@,
            accounts.maker@,
            accounts.asset_a@,
        ) >= deposit_amount),
        r is Ok ==> final(ledger)@.is_open(accounts.vault@),
        r is Ok ==> final(ledger)@.holdings[accounts.vault@].amount == deposit_amount,
{
    let program = ledger.program();
    let found = find_authority(&program, &accounts.maker, seed);
    let bumps = accounts.validate(ledger, deposit_amount, receive_amount, found)?;
    accounts.deposit_into_escrow(ledger, deposit_amount)?;
    accounts.initialize_escrow(ledger, seed, receive_amount, &bumps)
}

/// Cancels an escrow: pays the vault's whole content back to the maker and
/// closes the vault and the escrow. Either all of this happens or nothing
/// does.
///
/// Only the maker can cancel. After a Cancel, the maker's holding has grown
/// by exactly what the vault held, and neither the escrow nor the vault is
/// there any more.
pub fn refund(ledger: &mut Ledger, accounts: &Refund) -> (r: Result<(), EscrowError>)
    requires
        old(ledger).wf(),
    ensures
        final(ledger).wf(),
        r == accounts.outcome(old(ledger)@, old(ledger)@.authority_of(accounts.escrow@)),
        r is Ok ==> final(ledger)@ == accounts.applied(old(ledger)@),
        r is Err ==> final(ledger)@ == old(ledger)@,
        forall|a: Seq<u8>| #[trigger] final(ledger).supply(a) == old(ledger).supply(a),
        r is Ok ==> accounts.signed,
        r is Ok ==> accounts.maker@ == old(ledger)@.escrows[accounts.escrow@].maker,
        r is Ok ==> final(ledger)@.holdings[accounts.maker_a@].amount
            == old(ledger)@.holdings[accounts.maker_a@].amount
            + old(ledger)@.holdings[accounts.vault@].amount,
        r is Ok ==> !final(ledger)@.is_open(accounts.escrow@),
        r is Ok ==> !final(ledger)@.holdings.dom().contains(accounts.vault@),
{
    let authority = escrow_authority(ledger, &accounts.escrow);
    accounts.validate(ledger, authority)?;
    accounts.refund_and_close_vault(ledger)
}

/// Fulfils an escrow: pays the demanded amount from the taker to the maker,
/// pays the vault's whole content to the taker, and closes the vault and the
/// escrow. Either all of this happens or nothing does.
///
/// An open escrow is fulfilled exactly when the taker signed, the supplied
/// vault is the one that the escrow's seeds and bump lead back to, the two
/// receiving holdings are the taker's and the maker's in the right assets,
/// and the taker holds the demanded amount. After a Fulfill, the maker's
/// receiving holding has grown by exactly the demanded amount and the
/// taker's by exactly what the vault held, where no holding serves two of
/// these purposes at once; neither the escrow nor the vault is there any
/// more.
pub fn take(ledger: &mut Ledger, accounts: &Take) -> (r: Result<(), EscrowError>)
    requires
        old(ledger).wf(),
    ensures
        final(ledger).wf(),
        r == accounts.outcome(old(ledger)@, old(ledger)@.authority_of(accounts.escrow@)),
        r is Ok ==> final(ledger)@ == accounts.applied(old(ledger)@),
        r is Err ==> final(ledger)@ == old(ledger)@,
        forall|a: Seq<u8>| #[trigger] final(ledger).supply(a) == old(ledger).supply(a),
        r is Ok <==> {
            &&& old(ledger)@.is_open(accounts.escrow@)
            &&& accounts.signed
            &&& accounts.vault_fits(old(ledger)@.authority_of(accounts.escrow@))
            &&& accounts.receivers_fit(old(ledger)@)
            &&& accounts.funded(old(ledger)@)
        },
        r is Ok && accounts.maker_b@ != accounts.taker_b@ && accounts.maker_b@ != accounts.taker_a@
            ==> final(ledger)@.holdings[accounts.maker_b@].amount
            == old(ledger)@.holdings[accounts.maker_b@].amount
            + old(ledger)@.escrows[accounts.escrow@].receive_amount,
        r is Ok && accounts.taker_a@ != accounts.taker_b@ && accounts.taker_a@ != accounts.maker_b@
            ==> final(ledger)@.holdings[accounts.taker_a@].amount
            == old(ledger)@.holdings[accounts.taker_a@].amount
            + old(ledger)@.holdings[accounts.vault@].amount,
        r is Ok ==> !final(ledger)@.is_open(accounts.escrow@),
        r is Ok ==> !final(ledger)@.holdings.dom().contains(accounts.vault@),
{
    let authority = escrow_authority(ledger, &accounts.escrow);
    accounts.validate(ledger, authority)?;
    accounts.deposit_to_maker(ledger)?;
    accounts.withdraw_to_taker(ledger)
}

} // verus!
