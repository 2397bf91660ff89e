use vstd::prelude::*;
use crate::address::Address;

verus! {

/// An account that holds units of one asset.
#[derive(Clone, Copy, Debug, PartialEq, Eq)]
pub struct Holding {
    /// Where the holding stands in the ledger.
    pub address: Address,
    /// Who may spend from it.
    pub owner: Address,
    /// The asset it holds.
    pub asset: Address,
    /// How many units it holds.
    pub amount: u64,
    /// Whether it is the vault of an escrow, spent from only under the
    /// escrow's derived authority.
    pub custody: bool,
}

/// What a holding is, apart from its address.
pub struct HoldingView {
    pub owner: Seq<u8>,
    pub asset: Seq<u8>,
    pub amount: nat,
    pub custody: bool,
}

impl View for Holding {
    type V = HoldingView;

    open spec fn view(&self) -> HoldingView {
        HoldingView {
            owner: self.owner@,
            asset: self.asset@,
            amount: self.amount as nat,
            custody: self.custody,
        }
    }
}

impl HoldingView {
    /// The same holding with another amount.
    pub open spec fn with_amount(self, amount: nat) -> HoldingView {
        HoldingView { owner: self.owner, asset: self.asset, amount: amount, custody: self.custody }
    }

    /// What the holding adds to the supply of `asset`.
    pub open spec fn part(self, asset: Seq<u8>) -> nat {
        if self.asset == asset {
            self.amount
        } else {
            0
        }
    }
}

/// A vault that was opened for `asset` at `at` and holds nothing yet.
pub open spec fn empty_vault(at: Seq<u8>, asset: Seq<u8>) -> HoldingView {
    HoldingView { owner: at, asset: asset, amount: 0, custody: true }
}

/// The units of `asset` in all of the given holdings together.
pub open spec fn total(vals: Seq<HoldingView>, asset: Seq<u8>) -> nat
    decreases vals.len(),
{
    if vals.len() == 0 {
        0
    } else {
        total(vals.drop_last(), asset) + vals.last().part(asset)
    }
}

/// One more holding adds its part.
pub proof fn lemma_total_push(vals: Seq<HoldingView>, h: HoldingView, asset: Seq<u8>)
    ensures
        total(vals.push(h), asset) == total(vals, asset) + h.part(asset),
{
    assert(vals.push(h).drop_last() =~= vals);
}

/// Replacing a holding exchanges its part.
pub proof fn lemma_total_update(vals: Seq<HoldingView>, i: int, h: HoldingView, asset: Seq<u8>)
    requires
        0 <= i < vals.len(),
    ensures
        total(vals.update(i, h), asset) + vals[i].part(asset) == total(vals, asset) + h.part(
            asset,
        ),
    decreases vals.len(),
{
    let next = vals.update(i, h);
    if i == vals.len() - 1 {
        assert(next.drop_last() =~= vals.drop_last());
    } else {
        lemma_total_update(vals.drop_last(), i, h, asset);
        assert(next.drop_last() =~= vals.drop_last().update(i, h));
    }
}

/// Taking a holding out takes its part out.
pub proof fn lemma_total_remove(vals: Seq<HoldingView>, i: int, asset: Seq<u8>)
    requires
        0 <= i < vals.len(),
    ensures
        total(vals.remove(i), asset) + vals[i].part(asset) == total(vals, asset),
    decreases vals.len(),
{
    let next = vals.remove(i);
    if i == vals.len() - 1 {
        assert(next =~= vals.drop_last());
    } else {
        lemma_total_remove(vals.drop_last(), i, asset);
        assert(next.drop_last() =~= vals.drop_last().remove(i));
        assert(next.last() == vals.last());
    }
}

/// The first holdings never hold more than all of them.
pub proof fn lemma_total_prefix(vals: Seq<HoldingView>, n: int, asset: Seq<u8>)
    requires
        0 <= n <= vals.len(),
    ensures
        total(vals.take(n), asset) <= total(vals, asset),
    decreases vals.len(),
{
    if n == vals.len() {
        assert(vals.take(n) =~= vals);
    } else {
        lemma_total_prefix(vals.drop_last(), n, asset);
        assert(vals.drop_last().take(n) =~= vals.take(n));
    }
}

/// The first `n + 1` holdings hold what the first `n` hold and the part of
/// the next.
pub proof fn lemma_total_step(vals: Seq<HoldingView>, n: int, asset: Seq<u8>)
    requires
        0 <= n < vals.len(),
    ensures
        total(vals.take(n + 1), asset) == total(vals.take(n), asset) + vals[n].part(asset),
{
    assert(vals.take(n + 1).drop_last() =~= vals.take(n));
}

/// Two holdings together never hold more than all of them.
pub proof fn lemma_total_two(vals: Seq<HoldingView>, i: int, j: int, asset: Seq<u8>)
    requires
        0 <= i < vals.len(),
        0 <= j < vals.len(),
        i != j,
    ensures
        vals[i].part(asset) + vals[j].part(asset) <= total(vals, asset),
{
    let rest = vals.remove(i);
    lemma_total_remove(vals, i, asset);
    let k = if j < i { j } else { j - 1 };
    assert(rest[k] == vals[j]);
    lemma_total_remove(rest, k, asset);
}

} // verus!
