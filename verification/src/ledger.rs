use vstd::prelude::*;
use crate::address::Address;
use crate::authority::recreate_authority;
use crate::holding::Holding;
use crate::holding::HoldingView;
use crate::holding::empty_vault;
use crate::holding::lemma_total_prefix;
use crate::holding::lemma_total_push;
use crate::holding::lemma_total_remove;
use crate::holding::lemma_total_step;
use crate::holding::lemma_total_two;
use crate::holding::lemma_total_update;
use crate::holding::total;
use crate::state::Escrow;
use crate::state::EscrowView;
use crate::state::LedgerView;
use crate::table::assoc;
use crate::table::distinct;
use crate::table::has_key;
use crate::table::key_at;
use crate::table::lemma_assoc_push;
use crate::table::lemma_assoc_remove;
use crate::table::lemma_assoc_update;
use crate::table::lemma_slot;

verus! {

/// An open escrow and the address it stands at.
#[derive(Clone, Copy, Debug)]
struct Entry {
    at: Address,
    record: Escrow,
}

/// The holdings and the open escrows of one program.
#[derive(Debug)]
pub struct Ledger {
    program: Address,
    holdings: Vec<Holding>,
    escrows: Vec<Entry>,
}

/// The addresses of the holdings, in their order.
spec fn holding_keys(s: Seq<Holding>) -> Seq<Seq<u8>> {
    Seq::new(s.len(), |i: int| s[i].address@)
}

/// What the holdings are, in their order.
spec fn holding_views(s: Seq<Holding>) -> Seq<HoldingView> {
    Seq::new(s.len(), |i: int| s[i]@)
}

/// The addresses of the open escrows, in their order.
spec fn entry_keys(s: Seq<Entry>) -> Seq<Seq<u8>> {
    Seq::new(s.len(), |i: int| s[i].at@)
}

/// The terms of the open escrows, in their order.
spec fn entry_views(s: Seq<Entry>) -> Seq<EscrowView> {
    Seq::new(s.len(), |i: int| s[i].record@)
}

impl View for Ledger {
    type V = LedgerView;

    closed spec fn view(&self) -> LedgerView {
        LedgerView {
            program: self.program@,
            holdings: assoc(holding_keys(self.holdings@), holding_views(self.holdings@)),
            escrows: assoc(entry_keys(self.escrows@), entry_views(self.escrows@)),
        }
    }
}

impl Ledger {
    /// The units of `asset` in all holdings together.
    pub closed spec fn supply(&self, asset: Seq<u8>) -> nat {
        total(holding_views(self.holdings@), asset)
    }

    /// The ledger is kept in order: no two holdings and no two escrows stand
    /// at one address, and the supply of every asset fits a `u64`.
    pub closed spec fn sound(&self) -> bool {
        &&& distinct(holding_keys(self.holdings@))
        &&& distinct(entry_keys(self.escrows@))
        &&& forall|asset: Seq<u8>| #[trigger]
            total(holding_views(self.holdings@), asset) <= u64::MAX
    }

    /// The ledger is in order, and its escrows and vaults exist together.
    pub open spec fn wf(&self) -> bool {
        self.sound() && self@.consistent()
    }

    /// An empty ledger for the escrows of `program`.
    pub fn new(program: Address) -> (r: Ledger)
        ensures
            r.wf(),
            r@.program == program@,
            r@.holdings == Map::<Seq<u8>, HoldingView>::empty(),
            r@.escrows == Map::<Seq<u8>, EscrowView>::empty(),
            forall|asset: Seq<u8>| #[trigger] r.supply(asset) == 0,
    {
        Ledger { program, holdings: Vec::new(), escrows: Vec::new() }
    }

    /// The program under which the ledger derives authorities.
    pub fn program(&self) -> (r: Address)
        ensures
            r@ == self@.program,
    {
        self.program
    }

    /// The place of the holding at `at`, if there is one.
    fn holding_index(&self, at: &Address) -> (r: Option<usize>)
        ensures
            match r {
                Some(i) => key_at(holding_keys(self.holdings@), i as int, at@),
                None => !has_key(holding_keys(self.holdings@), at@),
            },
    {
        let mut i: usize = 0;
        while i < self.holdings.len()
            invariant
                i <= self.holdings.len(),
                forall|k: int| 0 <= k < i ==> !key_at(holding_keys(self.holdings@), k, at@),
            decreases self.holdings.len() - i,
        {
            if self.holdings[i].address.same(at) {
                return Some(i);
            }
            i += 1;
        }
        None
    }

    /// The place of the escrow at `at`, if one is open there.
    fn escrow_index(&self, at: &Address) -> (r: Option<usize>)
        ensures
            match r {
                Some(i) => key_at(entry_keys(self.escrows@), i as int, at@),
                None => !has_key(entry_keys(self.escrows@), at@),
            },
    {
        let mut i: usize = 0;
        while i < self.escrows.len()
            invariant
                i <= self.escrows.len(),
                forall|k: int| 0 <= k < i ==> !key_at(entry_keys(self.escrows@), k, at@),
            decreases self.escrows.len() - i,
        {
            if self.escrows[i].at.same(at) {
                return Some(i);
            }
            i += 1;
        }
        None
    }

    /// The holding at `at`, if there is one.
    pub fn holding(&self, at: &Address) -> (r: Option<Holding>)
        requires
            self.sound(),
        ensures
            match r {
                Some(h) => self@.holdings.dom().contains(at@) && self@.holdings[at@] == h@
                    && h.address@ == at@,
                None => !self@.holdings.dom().contains(at@),
            },
    {
        match self.holding_index(at) {
            Some(i) => {
                proof {
                    lemma_slot(holding_keys(self.holdings@), i as int);
                }
                Some(self.holdings[i])
            },
            None => None,
        }
    }

    /// The terms of the escrow that is open at `at`, if one is.
    pub fn escrow(&self, at: &Address) -> (r: Option<Escrow>)
        requires
            self.sound(),
        ensures
            match r {
                Some(e) => self@.escrows.dom().contains(at@) && self@.escrows[at@] == e@,
                None => !self@.escrows.dom().contains(at@),
            },
    {
        match self.escrow_index(at) {
            Some(i) => {
                proof {
                    lemma_slot(entry_keys(self.escrows@), i as int);
                }
                Some(self.escrows[i].record)
            },
            None => None,
        }
    }

    /// Whether units of `asset` can be paid to `owner` at `at`.
    pub fn receives(&self, at: &Address, owner: &Address, asset: &Address) -> (r: bool)
        requires
            self.sound(),
        ensures
            r == self@.receives(at@, owner@, asset@),
    {
        match self.holding(at) {
            Some(h) => !h.custody && h.owner.same(owner) && h.asset.same(asset),
            None => false,
        }
    }

    /// The units of `asset` that `owner` can spend from the holding at `at`.
    pub fn held(&self, at: &Address, owner: &Address, asset: &Address) -> (r: u64)
        requires
            self.sound(),
        ensures
            r == self@.held(at@, owner@, asset@),
    {
        match self.holding(at) {
            Some(h) => {
                if !h.custody && h.owner.same(owner) && h.asset.same(asset) {
                    h.amount
                } else {
                    0
                }
            },
            None => 0,
        }
    }

    /// The units of `asset` in all holdings together.
    pub fn supply_of(&self, asset: &Address) -> (r: u64)
        requires
            self.sound(),
        ensures
            r == self.supply(asset@),
    {
        let ghost vals = holding_views(self.holdings@);
        let mut sum: u64 = 0;
        let mut i: usize = 0;
        proof {
            assert(vals.take(0) =~= Seq::empty());
        }
        while i < self.holdings.len()
            invariant
                i <= self.holdings.len(),
                vals == holding_views(self.holdings@),
                vals.len() == self.holdings.len(),
                sum == total(vals.take(i as int), asset@),
                total(vals, asset@) <= u64::MAX,
            decreases self.holdings.len() - i,
        {
            proof {
                lemma_total_step(vals, i as int, asset@);
                lemma_total_prefix(vals, i + 1, asset@);
            }
            if self.holdings[i].asset.same(asset) {
                sum = sum + self.holdings[i].amount;
            }
            i += 1;
        }
        proof {
            assert(vals.take(i as int) =~= vals);
        }
        sum
    }

    /// The place of the holding that stands at `at`.
    fn holding_place(&self, at: &Address) -> (i: usize)
        requires
            has_key(holding_keys(self.holdings@), at@),
        ensures
            key_at(holding_keys(self.holdings@), i as int, at@),
    {
        match self.holding_index(at) {
            Some(i) => i,
            None => 0,
        }
    }

    /// The place of the escrow that is open at `at`.
    fn escrow_place(&self, at: &Address) -> (i: usize)
        requires
            has_key(entry_keys(self.escrows@), at@),
        ensures
            key_at(entry_keys(self.escrows@), i as int, at@),
    {
        match self.escrow_index(at) {
            Some(i) => i,
            None => 0,
        }
    }

    /// Adds the holding `h`, at an address where none stands yet.
    fn put_holding(&mut self, h: Holding)
        requires
            old(self).sound(),
            !old(self)@.holdings.dom().contains(h.address@),
            old(self).supply(h.asset@) + h.amount <= u64::MAX,
        ensures
            final(self).sound(),
            final(self)@ == old(self)@.with_holding(h.address@, h@),
            forall|asset: Seq<u8>| #[trigger]
                final(self).supply(asset) == old(self).supply(asset) + h@.part(asset),
    {
        let ghost before = self.holdings@;
        self.holdings.push(h);
        proof {
            let keys = holding_keys(before);
            let vals = holding_views(before);
            assert(holding_keys(self.holdings@) =~= keys.push(h.address@));
            assert(holding_views(self.holdings@) =~= vals.push(h@));
            lemma_assoc_push(keys, vals, h.address@, h@);
            assert forall|asset: Seq<u8>|
                #[trigger] total(vals.push(h@), asset) == total(vals, asset) + h@.part(asset) by {
                lemma_total_push(vals, h@, asset);
            }
        }
    }

    /// Moves `amount` units from the holding at `from` to the holding at
    /// `to`.
    pub(crate) fn transfer(&mut self, from: &Address, to: &Address, amount: u64)
        requires
            old(self).sound(),
            old(self)@.holdings.dom().contains(from@),
            old(self)@.holdings.dom().contains(to@),
            old(self)@.holdings[from@].asset == old(self)@.holdings[to@].asset,
            amount <= old(self)@.holdings[from@].amount,
        ensures
            final(self).sound(),
            final(self)@ == old(self)@.moved(from@, to@, amount as nat),
            forall|asset: Seq<u8>| #[trigger] final(self).supply(asset) == old(self).supply(asset),
    {
        let ghost before = self.holdings@;
        let ghost keys = holding_keys(before);
        let ghost vals = holding_views(before);
        let i = self.holding_place(from);
        let j = self.holding_place(to);
        proof {
            lemma_slot(keys, i as int);
            lemma_slot(keys, j as int);
        }
        if i != j {
            let src = self.holdings[i];
            let dst = self.holdings[j];
            proof {
                lemma_total_two(vals, i as int, j as int, src.asset@);
                assert(total(vals, src.asset@) <= u64::MAX);
            }
            let debited = Holding {
                address: src.address,
                owner: src.owner,
                asset: src.asset,
                amount: src.amount - amount,
                custody: src.custody,
            };
            let credited = Holding {
                address: dst.address,
                owner: dst.owner,
                asset: dst.asset,
                amount: dst.amount + amount,
                custody: dst.custody,
            };
            self.holdings.set(i, debited);
            self.holdings.set(j, credited);
            proof {
                let vals1 = vals.update(i as int, debited@);
                let vals2 = vals1.update(j as int, credited@);
                assert(holding_keys(self.holdings@) =~= keys);
                assert(holding_views(self.holdings@) =~= vals2);
                lemma_assoc_update(keys, vals, i as int, debited@);
                lemma_assoc_update(keys, vals1, j as int, credited@);
                assert(self@.holdings =~= old(self)@.moved(from@, to@, amount as nat).holdings);
                assert forall|asset: Seq<u8>| #[trigger] total(vals2, asset) == total(vals, asset) by {
                    lemma_total_update(vals, i as int, debited@, asset);
                    lemma_total_update(vals1, j as int, credited@, asset);
                }
            }
        } else {
            proof {
                assert(self@.holdings =~= old(self)@.moved(from@, to@, amount as nat).holdings);
            }
        }
    }

    /// Opens an empty vault for `asset` at `at`, where no holding stands yet.
    pub(crate) fn open_vault(&mut self, at: Address, asset: Address)
        requires
            old(self).sound(),
            !old(self)@.holdings.dom().contains(at@),
        ensures
            final(self).sound(),
            final(self)@ == old(self)@.with_holding(at@, empty_vault(at@, asset@)),
            forall|a: Seq<u8>| #[trigger] final(self).supply(a) == old(self).supply(a),
    {
        self.put_holding(Holding { address: at, owner: at, asset, amount: 0, custody: true });
    }

    /// Takes out the holding at `at`, which holds nothing.
    pub(crate) fn drop_holding(&mut self, at: &Address)
        requires
            old(self).sound(),
            old(self)@.holdings.dom().contains(at@),
            old(self)@.holdings[at@].amount == 0,
        ensures
            final(self).sound(),
            final(self)@ == old(self)@.without_holding(at@),
            forall|asset: Seq<u8>| #[trigger] final(self).supply(asset) == old(self).supply(asset),
    {
        let ghost before = self.holdings@;
        let ghost keys = holding_keys(before);
        let ghost vals = holding_views(before);
        let i = self.holding_place(at);
        proof {
            lemma_slot(keys, i as int);
        }
        self.holdings.remove(i);
        proof {
            assert(holding_keys(self.holdings@) =~= keys.remove(i as int));
            assert(holding_views(self.holdings@) =~= vals.remove(i as int));
            lemma_assoc_remove(keys, vals, i as int);
            assert forall|asset: Seq<u8>|
                #[trigger] total(vals.remove(i as int), asset) == total(vals, asset) by {
                lemma_total_remove(vals, i as int, asset);
            }
        }
    }

    /// Records the escrow `e` at `at`, where none is open.
    pub(crate) fn put_escrow(&mut self, at: Address, e: Escrow)
        requires
            old(self).sound(),
            !old(self)@.escrows.dom().contains(at@),
        ensures
            final(self).sound(),
            final(self)@ == old(self)@.with_escrow(at@, e@),
            forall|asset: Seq<u8>| #[trigger] final(self).supply(asset) == old(self).supply(asset),
    {
        let ghost before = self.escrows@;
        self.escrows.push(Entry { at, record: e });
        proof {
            let keys = entry_keys(before);
            let vals = entry_views(before);
            assert(entry_keys(self.escrows@) =~= keys.push(at@));
            assert(entry_views(self.escrows@) =~= vals.push(e@));
            lemma_assoc_push(keys, vals, at@, e@);
        }
    }

    /// Takes out the escrow that is open at `at`.
    pub(crate) fn drop_escrow(&mut self, at: &Address)
        requires
            old(self).sound(),
            old(self)@.escrows.dom().contains(at@),
        ensures
            final(self).sound(),
            final(self)@ == old(self)@.without_escrow(at@),
            forall|asset: Seq<u8>| #[trigger] final(self).supply(asset) == old(self).supply(asset),
    {
        let ghost before = self.escrows@;
        let ghost keys = entry_keys(before);
        let ghost vals = entry_views(before);
        let i = self.escrow_place(at);
        proof {
            lemma_slot(keys, i as int);
        }
        self.escrows.remove(i);
        proof {
            assert(entry_keys(self.escrows@) =~= keys.remove(i as int));
            assert(entry_views(self.escrows@) =~= vals.remove(i as int));
            lemma_assoc_remove(keys, vals, i as int);
        }
    }

    /// Opens an ordinary holding of `owner` in `asset` at `address`, with
    /// `amount` newly issued units in it. Nothing is opened where a holding
    /// already stands at the address, or where the asset's supply would no
    /// longer fit a `u64`.
    pub fn open_account(&mut self, address: Address, owner: Address, asset: Address, amount: u64) -> (r:
        bool)
        requires
            old(self).wf(),
        ensures
            final(self).wf(),
            r == (!old(self)@.holdings.dom().contains(address@) && old(self).supply(asset@)
                + amount <= u64::MAX),
            r ==> final(self)@ == old(self)@.with_holding(
                address@,
                HoldingView { owner: owner@, asset: asset@, amount: amount as nat, custody: false },
            ),
            !r ==> final(self)@ == old(self)@,
            forall|a: Seq<u8>| #[trigger]
                final(self).supply(a) == old(self).supply(a) + (if r && a == asset@ {
                    amount as nat
                } else {
                    0
                }),
    {
        if self.holding(&address).is_some() {
            return false;
        }
        let issued = self.supply_of(&asset);
        if amount > u64::MAX - issued {
            return false;
        }
        self.put_holding(Holding { address, owner, asset, amount, custody: false });
        true
    }

    /// Brings an escrow that was opened earlier, and kept elsewhere, back
    /// into the ledger: its terms and its vault. The escrow is put at the
    /// address that its seeds and bump lead back to, which is returned.
    /// Nothing is put, and `None` is returned, where the seeds and bump lead
    /// to no address, where `vault` is not the escrow's vault at that
    /// address, where something stands at that address already, where the
    /// vault is empty or the demanded amount zero, or where the supply of the
    /// deposited asset would no longer fit a `u64`.
    pub fn restore_escrow(&mut self, escrow: Escrow, vault: Holding) -> (r: Option<Address>)
        requires
            old(self).wf(),
        ensures
            final(self).wf(),
            r.deep_view() == (if old(self)@.restores(escrow@, vault.address@, vault@)
                && old(self).supply(vault.asset@) + vault.amount <= u64::MAX {
                Some(vault.address@)
            } else {
                None
            }),
            r is Some ==> final(self)@ == old(self)@.restored(vault.address@, escrow@, vault@),
            r is None ==> final(self)@ == old(self)@,
            forall|a: Seq<u8>| #[trigger]
                final(self).supply(a) == old(self).supply(a) + (if r is Some {
                    vault@.part(a)
                } else {
                    0
                }),
    {
        if vault.amount == 0 || escrow.receive_amount == 0 || !vault.custody {
            return None;
        }
        let at = match recreate_authority(&self.program, &escrow.maker, escrow.seed, escrow.bump) {
            Some(at) => at,
            None => {
                return None;
            },
        };
        if !vault.address.same(&at) || !vault.owner.same(&at) || !vault.asset.same(&escrow.asset_a) {
            return None;
        }
        if self.holding(&at).is_some() || self.escrow(&at).is_some() {
            return None;
        }
        let issued = self.supply_of(&vault.asset);
        if vault.amount > u64::MAX - issued {
            return None;
        }
        self.put_holding(vault);
        self.put_escrow(at, escrow);
        Some(at)
    }
}

} // verus!
