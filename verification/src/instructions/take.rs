use vstd::prelude::*;
use crate::address::Address;
use crate::error::EscrowError;
use crate::instructions::release;
use crate::ledger::Ledger;
use crate::state::LedgerView;

verus! {

/// The accounts of a Fulfill: who takes the swap, which escrow and vault,
/// and the three holdings that the two payments run between.
#[derive(Clone, Copy, Debug, PartialEq, Eq)]
pub struct Take {
    /// The party that fulfils the swap.
    pub taker: Address,
    /// Whether the taker signed the operation.
    pub signed: bool,
    /// The party that opened the escrow, which is paid.
    pub maker: Address,
    /// The address of the escrow.
    pub escrow: Address,
    /// The address of the vault.
    pub vault: Address,
    /// The taker's holding of the deposited asset, which receives the
    /// vault's content.
    pub taker_a: Address,
    /// The taker's holding of the demanded asset, which pays the maker.
    pub taker_b: Address,
    /// The maker's holding of the demanded asset, which receives the
    /// payment.
    pub maker_b: Address,
}

impl Take {
    /// Whether the supplied vault is the one that the escrow's stored seeds
    /// and bump lead back to, given the address `authority` rebuilt from
    /// them.
    pub open spec fn vault_fits(self, authority: Option<Seq<u8>>) -> bool {
        authority == Some(self.vault@) && self.vault@ == self.escrow@
    }

    /// Whether the party to be paid is the escrow's maker, and the two
    /// receiving holdings are the taker's in the deposited asset and the
    /// maker's in the demanded asset.
    pub open spec fn receivers_fit(self, s: LedgerView) -> bool {
        &&& self.maker@ == s.escrows[self.escrow@].maker
        &&& s.receives(self.taker_a@, self.taker@, s.escrows[self.escrow@].asset_a)
        &&& s.receives(self.maker_b@, self.maker@, s.escrows[self.escrow@].asset_b)
    }

    /// What the check of the accounts of a Fulfill yields, where `authority`
    /// is the address rebuilt from the escrow's stored seeds and bump.
    pub open spec fn checked(self, s: LedgerView, authority: Option<Seq<u8>>) -> Result<
        (),
        EscrowError,
    > {
        if !s.is_open(self.escrow@) {
            Err(EscrowError::AlreadyClosed)
        } else if !self.signed {
            Err(EscrowError::Unauthorized)
        } else if !self.vault_fits(authority) || !self.receivers_fit(s) {
            Err(EscrowError::AddressMismatch)
        } else {
            Ok(())
        }
    }

    /// Whether the taker can pay what the escrow demands.
    pub open spec fn funded(self, s: LedgerView) -> bool {
        s.held(self.taker_b@, self.taker@, s.escrows[self.escrow@].asset_b)
            >= s.escrows[self.escrow@].receive_amount
    }

    /// How a Fulfill ends.
    pub open spec fn outcome(self, s: LedgerView, authority: Option<Seq<u8>>) -> Result<
        (),
        EscrowError,
    > {
        match self.checked(s, authority) {
            Err(e) => Err(e),
            Ok(_) => if self.funded(s) {
                Ok(())
            } else {
                Err(EscrowError::InsufficientFunds)
            },
        }
    }

    /// The ledger after the taker paid the maker.
    pub open spec fn paid(self, s: LedgerView) -> LedgerView {
        s.moved(self.taker_b@, self.maker_b@, s.escrows[self.escrow@].receive_amount)
    }

    /// The ledger after a Fulfill that succeeded.
    pub open spec fn applied(self, s: LedgerView) -> LedgerView {
        self.paid(s).released(self.vault@, self.taker_a@)
    }

    /// Checks the accounts of a Fulfill against the ledger, given the
    /// address `authority` rebuilt from the escrow's stored seeds and bump.
    pub fn validate(&self, ledger: &Ledger, authority: Option<Address>) -> (r: Result<
        (),
        EscrowError,
    >)
        requires
            ledger.sound(),
        ensures
            r == self.checked(ledger@, authority.deep_view()),
    {
        let e = match ledger.escrow(&self.escrow) {
            Some(e) => e,
            None => {
                return Err(EscrowError::AlreadyClosed);
            },
        };
        if !self.signed {
            return Err(EscrowError::Unauthorized);
        }
        let fits = match authority {
            Some(a) => a.same(&self.vault) && self.vault.same(&self.escrow),
            None => false,
        };
        if !fits || !self.maker.same(&e.maker) || !ledger.receives(
            &self.taker_a,
            &self.taker,
            &e.asset_a,
        ) || !ledger.receives(&self.maker_b, &self.maker, &e.asset_b) {
            return Err(EscrowError::AddressMismatch);
        }
        Ok(())
    }

    /// Pays the demanded amount from the taker's holding to the maker's, if
    /// the taker holds that much.
    pub(crate) fn deposit_to_maker(&self, ledger: &mut Ledger) -> (r: Result<(), EscrowError>)
        requires
            old(ledger).wf(),
            old(ledger)@.is_open(self.escrow@),
            self.receivers_fit(old(ledger)@),
        ensures
            final(ledger).wf(),
            r is Ok == self.funded(old(ledger)@),
            r is Err ==> r == Err::<(), EscrowError>(EscrowError::InsufficientFunds),
            r is Ok ==> final(ledger)@ == self.paid(old(ledger)@),
            r is Err ==> final(ledger)@ == old(ledger)@,
            forall|a: Seq<u8>| #[trigger] final(ledger).supply(a) == old(ledger).supply(a),
    {
        let e = match ledger.escrow(&self.escrow) {
            Some(e) => e,
            None => {
                return Err(EscrowError::AlreadyClosed);
            },
        };
        if ledger.held(&self.taker_b, &self.taker, &e.asset_b) < e.receive_amount {
            return Err(EscrowError::InsufficientFunds);
        }
        ledger.transfer(&self.taker_b, &self.maker_b, e.receive_amount);
        Ok(())
    }

    /// Pays the vault's whole content to the taker and closes the vault and
    /// the escrow.
    pub(crate) fn withdraw_to_taker(&self, ledger: &mut Ledger) -> (r: Result<(), EscrowError>)
        requires
            old(ledger).wf(),
            old(ledger)@.is_open(self.escrow@),
            self.vault@ == self.escrow@,
            old(ledger)@.receives(
                self.taker_a@,
                self.taker@,
                old(ledger)@.escrows[self.escrow@].asset_a,
            ),
        ensures
            final(ledger).wf(),
            r == Ok::<(), EscrowError>(()),
            final(ledger)@ == old(ledger)@.released(self.vault@, self.taker_a@),
            forall|a: Seq<u8>| #[trigger] final(ledger).supply(a) == old(ledger).supply(a),
    {
        release(ledger, &self.vault, &self.taker_a);
        Ok(())
    }
}

} // verus!
