use vstd::prelude::*;
use crate::address::Address;
use crate::authority::escrow_address;
use crate::holding::HoldingView;

verus! {

/// The terms of one open swap. They are fixed when the escrow is opened and
/// never change afterwards.
#[derive(Clone, Copy, Debug, PartialEq, Eq)]
pub struct Escrow {
    /// The party that opened the escrow.
    pub maker: Address,
    /// The number that the maker chose for this escrow.
    pub seed: u64,
    /// The deposited asset.
    pub asset_a: Address,
    /// The demanded asset.
    pub asset_b: Address,
    /// How many units of the demanded asset fulfil the swap.
    pub receive_amount: u64,
    /// The bump with which the seeds lead back to the vault's authority.
    pub bump: u8,
}

/// The terms of an escrow as plain values.
pub struct EscrowView {
    pub maker: Seq<u8>,
    pub seed: u64,
    pub asset_a: Seq<u8>,
    pub asset_b: Seq<u8>,
    pub receive_amount: nat,
    pub bump: u8,
}

impl View for Escrow {
    type V = EscrowView;

    open spec fn view(&self) -> EscrowView {
        EscrowView {
            maker: self.maker@,
            seed: self.seed,
            asset_a: self.asset_a@,
            asset_b: self.asset_b@,
            receive_amount: self.receive_amount as nat,
            bump: self.bump,
        }
    }
}

impl EscrowView {
    /// Whether the holding `h`, standing at `at`, is a vault for this escrow:
    /// in custody, under its own address as authority, and funded in the
    /// deposited asset.
    pub open spec fn kept_in(self, at: Seq<u8>, h: HoldingView) -> bool {
        &&& h.custody
        &&& h.owner == at
        &&& h.asset == self.asset_a
        &&& h.amount > 0
        &&& self.receive_amount > 0
    }
}

/// What a ledger holds: the program it derives authorities under, the
/// holdings by address, and the open escrows by address. An escrow and its
/// vault stand at the same address, the escrow's derived authority.
pub struct LedgerView {
    pub program: Seq<u8>,
    pub holdings: Map<Seq<u8>, HoldingView>,
    pub escrows: Map<Seq<u8>, EscrowView>,
}

impl LedgerView {
    /// The units of `asset` that `owner` can spend from the holding at `at`:
    /// its amount if it is an ordinary holding of that owner and asset, else
    /// nothing.
    pub open spec fn held(self, at: Seq<u8>, owner: Seq<u8>, asset: Seq<u8>) -> nat {
        if self.receives(at, owner, asset) {
            self.holdings[at].amount
        } else {
            0
        }
    }

    /// Whether the holding at `at` is an ordinary holding of `owner` in
    /// `asset`, so that units of it can be paid to that owner there.
    pub open spec fn receives(self, at: Seq<u8>, owner: Seq<u8>, asset: Seq<u8>) -> bool {
        &&& self.holdings.dom().contains(at)
        &&& !self.holdings[at].custody
        &&& self.holdings[at].owner == owner
        &&& self.holdings[at].asset == asset
    }

    /// Whether an escrow is open at `at`.
    pub open spec fn is_open(self, at: Seq<u8>) -> bool {
        self.escrows.dom().contains(at)
    }

    /// Whether the holding at `at` is the vault that belongs to the escrow
    /// `e` at the same address.
    pub open spec fn vault_of(self, at: Seq<u8>, e: EscrowView) -> bool {
        self.holdings.dom().contains(at) && e.kept_in(at, self.holdings[at])
    }

    /// Escrows and vaults exist together: every open escrow has its vault,
    /// and every holding in custody is the vault of an open escrow.
    pub open spec fn paired(self) -> bool {
        &&& forall|a: Seq<u8>| #[trigger]
            self.escrows.dom().contains(a) ==> self.vault_of(a, self.escrows[a])
        &&& forall|a: Seq<u8>| #[trigger]
            self.holdings.dom().contains(a) && self.holdings[a].custody
                ==> self.escrows.dom().contains(a)
    }

    /// Every open escrow stands at the address that its stored seeds and
    /// bump lead back to.
    pub open spec fn derived(self) -> bool {
        forall|a: Seq<u8>| #[trigger]
            self.escrows.dom().contains(a) ==> self.authority_of(a) == Some(a)
    }

    /// Escrows and vaults exist together, at their derived addresses.
    pub open spec fn consistent(self) -> bool {
        self.paired() && self.derived()
    }

    /// The ledger after `amount` units went from the holding at `from` to
    /// the holding at `to`.
    pub open spec fn moved(self, from: Seq<u8>, to: Seq<u8>, amount: nat) -> LedgerView {
        let debited = self.holdings.insert(
            from,
            self.holdings[from].with_amount((self.holdings[from].amount - amount) as nat),
        );
        LedgerView {
            program: self.program,
            holdings: debited.insert(to, debited[to].with_amount(debited[to].amount + amount)),
            escrows: self.escrows,
        }
    }

    /// The address that the stored seeds and bump of the escrow at `at` lead
    /// back to.
    pub open spec fn authority_of(self, at: Seq<u8>) -> Option<Seq<u8>> {
        escrow_address(
            self.program,
            self.escrows[at].maker,
            self.escrows[at].seed,
            self.escrows[at].bump,
        )
    }

    /// The ledger after the vault at `at` paid all it held to the holding at
    /// `to`, and the vault and its escrow were closed.
    pub open spec fn released(self, at: Seq<u8>, to: Seq<u8>) -> LedgerView {
        self.moved(at, to, self.holdings[at].amount).without_holding(at).without_escrow(at)
    }

    /// Whether the escrow with the terms `e` and its vault `vault` can be
    /// brought back into the ledger at `at`: the escrow's seeds and bump lead
    /// to `at`, the vault is the escrow's vault there, and nothing stands
    /// there yet.
    pub open spec fn restores(self, e: EscrowView, at: Seq<u8>, vault: HoldingView) -> bool {
        &&& escrow_address(self.program, e.maker, e.seed, e.bump) == Some(at)
        &&& e.kept_in(at, vault)
        &&& !self.holdings.dom().contains(at)
        &&& !self.escrows.dom().contains(at)
    }

    /// The ledger with the escrow `e` and its vault at `at`.
    pub open spec fn restored(self, at: Seq<u8>, e: EscrowView, vault: HoldingView) -> LedgerView {
        self.with_holding(at, vault).with_escrow(at, e)
    }

    /// The ledger with the holding `h` at `at`.
    pub open spec fn with_holding(self, at: Seq<u8>, h: HoldingView) -> LedgerView {
        LedgerView {
            program: self.program,
            holdings: self.holdings.insert(at, h),
            escrows: self.escrows,
        }
    }

    /// The ledger without a holding at `at`.
    pub open spec fn without_holding(self, at: Seq<u8>) -> LedgerView {
        LedgerView {
            program: self.program,
            holdings: self.holdings.remove(at),
            escrows: self.escrows,
        }
    }

    /// The ledger with the escrow `e` at `at`.
    pub open spec fn with_escrow(self, at: Seq<u8>, e: EscrowView) -> LedgerView {
        LedgerView {
            program: self.program,
            holdings: self.holdings,
            escrows: self.escrows.insert(at, e),
        }
    }

    /// The ledger without an escrow at `at`.
    pub open spec fn without_escrow(self, at: Seq<u8>) -> LedgerView {
        LedgerView {
            program: self.program,
            holdings: self.holdings,
            escrows: self.escrows.remove(at),
        }
    }
}

} // verus!
