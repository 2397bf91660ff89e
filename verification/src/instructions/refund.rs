use vstd::prelude::*;
use crate::address::Address;
use crate::error::EscrowError;
use crate::instructions::release;
use crate::ledger::Ledger;
use crate::state::LedgerView;

verus! {

/// The accounts of a Cancel: who cancels, which escrow and vault, and the
/// holding that takes the deposit back.
#[derive(Clone, Copy, Debug, PartialEq, Eq)]
pub struct Refund {
    /// The party that cancels, which has to be the escrow's maker.
    pub maker: Address,
    /// Whether that party signed the operation.
    pub signed: bool,
    /// The address of the escrow.
    pub escrow: Address,
    /// The address of the vault.
    pub vault: Address,
    /// The maker's holding of the deposited asset, which receives the
    /// vault's content.
    pub maker_a: Address,
}

impl Refund {
    /// Whether the supplied vault is the one that the escrow's stored seeds
    /// and bump lead back to, given the address `authority` rebuilt from
    /// them.
    pub open spec fn vault_fits(self, authority: Option<Seq<u8>>) -> bool {
        authority == Some(self.vault@) && self.vault@ == self.escrow@
    }

    /// Whether the receiving holding is the maker's, in the deposited asset.
    pub open spec fn receiver_fits(self, s: LedgerView) -> bool {
        s.receives(self.maker_a@, self.maker@, s.escrows[self.escrow@].asset_a)
    }

    /// How a Cancel ends, where `authority` is the address rebuilt from the
    /// escrow's stored seeds and bump.
    pub open spec fn outcome(self, s: LedgerView, authority: Option<Seq<u8>>) -> Result<
        (),
        EscrowError,
    > {
        if !s.is_open(self.escrow@) {
            Err(EscrowError::AlreadyClosed)
        } else if !self.signed || s.escrows[self.escrow@].maker != self.maker@ {
            Err(EscrowError::Unauthorized)
        } else if !self.vault_fits(authority) || !self.receiver_fits(s) {
            Err(EscrowError::AddressMismatch)
        } else {
            Ok(())
        }
    }

    /// The ledger after a Cancel that succeeded.
    pub open spec fn applied(self, s: LedgerView) -> LedgerView {
        s.released(self.vault@, self.maker_a@)
    }

    /// Checks the accounts of a Cancel against the ledger, given the address
    /// `authority` rebuilt from the escrow's stored seeds and bump.
    pub fn validate(&self, ledger: &Ledger, authority: Option<Address>) -> (r: Result<
        (),
        EscrowError,
    >)
        requires
            ledger.sound(),
        ensures
            r == self.outcome(ledger@, authority.deep_view()),
    {
        let e = match ledger.escrow(&self.escrow) {
            Some(e) => e,
            None => {
                return Err(EscrowError::AlreadyClosed);
            },
        };
        if !self.signed || !e.maker.same(&self.maker) {
            return Err(EscrowError::Unauthorized);
        }
        let fits = match authority {
            Some(a) => a.same(&self.vault) && self.vault.same(&self.escrow),
            None => false,
        };
        if !fits || !ledger.receives(&self.maker_a, &self.maker, &e.asset_a) {
            return Err(EscrowError::AddressMismatch);
        }
        Ok(())
    }

    /// Pays the vault's whole content back to the maker and closes the vault
    /// and the escrow.
    pub(crate) fn refund_and_close_vault(&self, ledger: &mut Ledger) -> (r: Result<
        (),
        EscrowError,
    >)
        requires
            old(ledger).wf(),
            old(ledger)@.is_open(self.escrow@),
            self.vault@ == self.escrow@,
            self.receiver_fits(old(ledger)@),
        ensures
            final(ledger).wf(),
            r == Ok::<(), EscrowError>(()),
            final(ledger)@ == self.applied(old(ledger)@),
            forall|a: Seq<u8>| #[trigger] final(ledger).supply(a) == old(ledger).supply(a),
    {
        release(ledger, &self.vault, &self.maker_a);
        Ok(())
    }
}

} // verus!
