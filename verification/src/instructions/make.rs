use vstd::prelude::*;
use crate::address::Address;
use crate::authority::bump_of;
use crate::authority::stands_at;
use crate::error::EscrowError;
use crate::holding::empty_vault;
use crate::ledger::Ledger;
use crate::state::Escrow;
use crate::state::EscrowView;
use crate::state::LedgerView;

verus! {

/// The accounts of an Open: who opens the escrow, with which assets, from
/// which holding the deposit comes, and where the vault is to stand.
#[derive(Clone, Copy, Debug, PartialEq, Eq)]
pub struct Make {
    /// The party that opens the escrow.
    pub maker: Address,
    /// Whether the maker signed the operation.
    pub signed: bool,
    /// The asset that the maker deposits.
    pub asset_a: Address,
    /// The asset that the maker demands.
    pub asset_b: Address,
    /// The maker's holding of the deposited asset.
    pub maker_a: Address,
    /// The address at which the escrow and its vault are to be opened.
    pub vault: Address,
}

/// The bump found for the escrow while its accounts were checked.
#[derive(Clone, Copy, Debug, PartialEq, Eq)]
pub struct MakeBumps {
    pub escrow: u8,
}

impl Make {
    /// Whether the supplied vault address is the authority derived for the
    /// escrow, with nothing standing at it yet.
    pub open spec fn vault_fits(self, s: LedgerView, found: Option<(Seq<u8>, u8)>) -> bool {
        &&& stands_at(found, self.vault@)
        &&& !s.holdings.dom().contains(self.vault@)
        &&& !s.escrows.dom().contains(self.vault@)
    }

    /// What the check of the accounts and amounts of an Open yields, where
    /// `found` is the authority derived for the maker and the seed: the bump
    /// to be stored, or the reason to refuse.
    pub open spec fn checked(
        self,
        s: LedgerView,
        deposit_amount: u64,
        receive_amount: u64,
        found: Option<(Seq<u8>, u8)>,
    ) -> Result<MakeBumps, EscrowError> {
        if !self.signed {
            Err(EscrowError::Unauthorized)
        } else if deposit_amount == 0 || receive_amount == 0 {
            Err(EscrowError::InvalidAmount)
        } else if !self.vault_fits(s, found) {
            Err(EscrowError::AddressMismatch)
        } else {
            Ok(MakeBumps { escrow: bump_of(found) })
        }
    }

    /// Whether the maker can pay the deposit.
    pub open spec fn funded(self, s: LedgerView, deposit_amount: u64) -> bool {
        s.held(self.maker_a@, self.maker@, self.asset_a@) >= deposit_amount
    }

    /// How an Open ends.
    pub open spec fn outcome(
        self,
        s: LedgerView,
        deposit_amount: u64,
        receive_amount: u64,
        found: Option<(Seq<u8>, u8)>,
    ) -> Result<(), EscrowError> {
        match self.checked(s, deposit_amount, receive_amount, found) {
            Err(e) => Err(e),
            Ok(_) => if self.funded(s, deposit_amount) {
                Ok(())
            } else {
                Err(EscrowError::InsufficientFunds)
            },
        }
    }

    /// The terms that an Open records.
    pub open spec fn record(self, seed: u64, receive_amount: u64, bump: u8) -> EscrowView {
        EscrowView {
            maker: self.maker@,
            seed: seed,
            asset_a: self.asset_a@,
            asset_b: self.asset_b@,
            receive_amount: receive_amount as nat,
            bump: bump,
        }
    }

    /// The ledger after the deposit went into a newly opened vault.
    pub open spec fn deposited(self, s: LedgerView, deposit_amount: u64) -> LedgerView {
        s.with_holding(self.vault@, empty_vault(self.vault@, self.asset_a@)).moved(
            self.maker_a@,
            self.vault@,
            deposit_amount as nat,
        )
    }

    /// The ledger after an Open that succeeded.
    pub open spec fn applied(
        self,
        s: LedgerView,
        seed: u64,
        deposit_amount: u64,
        receive_amount: u64,
        bump: u8,
    ) -> LedgerView {
        self.deposited(s, deposit_amount).with_escrow(
            self.vault@,
            self.record(seed, receive_amount, bump),
        )
    }

    /// Checks the accounts and amounts of an Open against the ledger, given
    /// the authority `found` for the maker and the seed.
    pub fn validate(
        &self,
        ledger: &Ledger,
        deposit_amount: u64,
        receive_amount: u64,
        found: Option<(Address, u8)>,
    ) -> (r: Result<MakeBumps, EscrowError>)
        requires
            ledger.sound(),
        ensures
            r == self.checked(ledger@, deposit_amount, receive_amount, found.deep_view()),
    {
        if !self.signed {
            return Err(EscrowError::Unauthorized);
        }
        if deposit_amount == 0 || receive_amount == 0 {
            return Err(EscrowError::InvalidAmount);
        }
        match found {
            None => Err(EscrowError::AddressMismatch),
            Some((authority, bump)) => {
                if !authority.same(&self.vault) || ledger.holding(&self.vault).is_some()
                    || ledger.escrow(&self.vault).is_some() {
                    Err(EscrowError::AddressMismatch)
                } else {
                    Ok(MakeBumps { escrow: bump })
                }
            },
        }
    }

    /// Opens the vault and moves the deposit from the maker's holding into
    /// it, if the maker holds that much.
    pub(crate) fn deposit_into_escrow(&self, ledger: &mut Ledger, deposit_amount: u64) -> (r:
        Result<(), EscrowError>)
        requires
            old(ledger).sound(),
            deposit_amount > 0,
            !old(ledger)@.holdings.dom().contains(self.vault@),
        ensures
            final(ledger).sound(),
            r is Ok == self.funded(old(ledger)@, deposit_amount),
            r is Err ==> r == Err::<(), EscrowError>(EscrowError::InsufficientFunds),
            r is Ok ==> final(ledger)@ == self.deposited(old(ledger)@, deposit_amount),
            r is Err ==> final(ledger)@ == old(ledger)@,
            forall|a: Seq<u8>| #[trigger] final(ledger).supply(a) == old(ledger).supply(a),
    {
        if ledger.held(&self.maker_a, &self.maker, &self.asset_a) < deposit_amount {
            return Err(EscrowError::InsufficientFunds);
        }
        ledger.open_vault(self.vault, self.asset_a);
        ledger.transfer(&self.maker_a, &self.vault, deposit_amount);
        Ok(())
    }

    /// Records the terms of the escrow beside its vault.
    pub(crate) fn initialize_escrow(
        &self,
        ledger: &mut Ledger,
        seed: u64,
        receive_amount: u64,
        bumps: &MakeBumps,
    ) -> (r: Result<(), EscrowError>)
        requires
            old(ledger).sound(),
            !old(ledger)@.escrows.dom().contains(self.vault@),
        ensures
            final(ledger).sound(),
            r == Ok::<(), EscrowError>(()),
            final(ledger)@ == old(ledger)@.with_escrow(
                self.vault@,
                self.record(seed, receive_amount, bumps.escrow),
            ),
            forall|a: Seq<u8>| #[trigger] final(ledger).supply(a) == old(ledger).supply(a),
    {
        ledger.put_escrow(
            self.vault,
            Escrow {
                maker: self.maker,
                seed,
                asset_a: self.asset_a,
                asset_b: self.asset_b,
                receive_amount,
                bump: bumps.escrow,
            },
        );
        Ok(())
    }
}

} // verus!
