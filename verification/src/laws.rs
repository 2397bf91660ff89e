use vstd::prelude::*;
use crate::authority::bump_of;
use crate::error::EscrowError;
use crate::holding::HoldingView;
use crate::instructions::make::Make;
use crate::instructions::refund::Refund;
use crate::instructions::take::Take;
use crate::state::EscrowView;
use crate::state::LedgerView;

verus! {

/// One change to a ledger: a holding is funded, an escrow is brought back,
/// or an escrow is opened, fulfilled or cancelled. The derived addresses that
/// the escrow operations work with are part of the step.
pub enum Step {
    Fund { at: Seq<u8>, owner: Seq<u8>, asset: Seq<u8>, amount: nat },
    Restore { at: Seq<u8>, escrow: EscrowView, vault: HoldingView },
    Open {
        make: Make,
        seed: u64,
        deposit_amount: u64,
        receive_amount: u64,
        found: Option<(Seq<u8>, u8)>,
    },
    Fulfill { take: Take, authority: Option<Seq<u8>> },
    Cancel { refund: Refund, authority: Option<Seq<u8>> },
}

/// The ledger after one step. A step that is refused leaves the ledger as it
/// is.
pub open spec fn step(s: LedgerView, op: Step) -> LedgerView {
    match op {
        Step::Fund { at, owner, asset, amount } => if s.holdings.dom().contains(at) {
            s
        } else {
            s.with_holding(
                at,
                HoldingView { owner: owner, asset: asset, amount: amount, custody: false },
            )
        },
        Step::Restore { at, escrow, vault } => if s.restores(escrow, at, vault) {
            s.restored(at, escrow, vault)
        } else {
            s
        },
        Step::Open { make, seed, deposit_amount, receive_amount, found } => if make.outcome(
            s,
            deposit_amount,
            receive_amount,
            found,
        ) is Ok {
            make.applied(s, seed, deposit_amount, receive_amount, bump_of(found))
        } else {
            s
        },
        Step::Fulfill { take, authority } => if take.outcome(s, authority) is Ok {
            take.applied(s)
        } else {
            s
        },
        Step::Cancel { refund, authority } => if refund.outcome(s, authority) is Ok {
            refund.applied(s)
        } else {
            s
        },
    }
}

/// The ledger after a sequence of steps.
pub open spec fn run(s: LedgerView, ops: Seq<Step>) -> LedgerView
    decreases ops.len(),
{
    if ops.len() == 0 {
        s
    } else {
        step(run(s, ops.drop_last()), ops.last())
    }
}

/// An Open with a signature, amounts above zero and a fitting vault address
/// succeeds exactly when the maker holds the deposit, and then the vault
/// holds exactly the deposit and the escrow is open with the given terms.
pub proof fn lemma_open_funds_vault(
    s: LedgerView,
    accounts: Make,
    seed: u64,
    deposit_amount: u64,
    receive_amount: u64,
    found: Option<(Seq<u8>, u8)>,
)
    requires
        accounts.signed,
        deposit_amount > 0,
        receive_amount > 0,
        accounts.vault_fits(s, found),
    ensures
        accounts.outcome(s, deposit_amount, receive_amount, found) is Ok <==> s.held(
            accounts.maker_a@,
            accounts.maker@,
            accounts.asset_a@,
        ) >= deposit_amount,
        accounts.outcome(s, deposit_amount, receive_amount, found) is Ok ==> ({
            let after = accounts.applied(s, seed, deposit_amount, receive_amount, bump_of(found));
            &&& after.holdings[accounts.vault@].amount == deposit_amount
            &&& after.holdings[accounts.maker_a@].amount + deposit_amount
                == s.holdings[accounts.maker_a@].amount
            &&& after.is_open(accounts.vault@)
            &&& after.escrows[accounts.vault@] == accounts.record(
                seed,
                receive_amount,
                bump_of(found),
            )
        }),
{
}

/// Every step keeps escrows and vaults together.
pub proof fn lemma_step_keeps_pairs(s: LedgerView, op: Step)
    requires
        s.paired(),
    ensures
        step(s, op).paired(),
{
}

/// Every sequence of steps keeps escrows and vaults together.
pub proof fn lemma_run_keeps_pairs(s: LedgerView, ops: Seq<Step>)
    requires
        s.paired(),
    ensures
        run(s, ops).paired(),
    decreases ops.len(),
{
    if ops.len() > 0 {
        lemma_run_keeps_pairs(s, ops.drop_last());
        lemma_step_keeps_pairs(run(s, ops.drop_last()), ops.last());
    }
}

/// A step leaves every escrow that is open before and after it as it was:
/// its terms and what its vault holds.
pub proof fn lemma_step_leaves_open(s: LedgerView, op: Step, at: Seq<u8>)
    requires
        s.paired(),
        s.is_open(at),
        step(s, op).is_open(at),
    ensures
        step(s, op).escrows[at] == s.escrows[at],
        step(s, op).holdings[at] == s.holdings[at],
{
}

/// As long as an escrow stays open, its terms stay as they were recorded and
/// its vault holds exactly what it held at first, whatever else happens to
/// the ledger.
pub proof fn lemma_vault_keeps_deposit(s: LedgerView, ops: Seq<Step>, at: Seq<u8>)
    requires
        s.paired(),
        forall|k: int| 0 <= k <= ops.len() ==> #[trigger] run(s, ops.take(k)).is_open(at),
    ensures
        run(s, ops).escrows[at] == s.escrows[at],
        run(s, ops).holdings[at] == s.holdings[at],
    decreases ops.len(),
{
    if ops.len() > 0 {
        let before = ops.drop_last();
        assert forall|k: int| 0 <= k <= before.len() implies #[trigger] run(
            s,
            before.take(k),
        ).is_open(at) by {
            assert(before.take(k) =~= ops.take(k));
        }
        lemma_vault_keeps_deposit(s, before, at);
        lemma_run_keeps_pairs(s, before);
        assert(ops.take(before.len() as int) =~= before);
        assert(ops.take(ops.len() as int) =~= ops);
        assert(run(s, ops.take(before.len() as int)).is_open(at));
        assert(run(s, ops.take(ops.len() as int)).is_open(at));
        lemma_step_leaves_open(run(s, before), ops.last(), at);
    }
}

/// Two escrows that were opened one after the other stand at different
/// addresses, and each vault holds exactly its own deposit: opening the
/// second takes nothing from the first and adds nothing to it.
pub proof fn lemma_opens_do_not_interfere(
    s: LedgerView,
    first: Make,
    first_seed: u64,
    first_deposit: u64,
    first_receive: u64,
    first_found: Option<(Seq<u8>, u8)>,
    second: Make,
    second_seed: u64,
    second_deposit: u64,
    second_receive: u64,
    second_found: Option<(Seq<u8>, u8)>,
)
    requires
        first.outcome(s, first_deposit, first_receive, first_found) is Ok,
        second.outcome(
            first.applied(s, first_seed, first_deposit, first_receive, bump_of(first_found)),
            second_deposit,
            second_receive,
            second_found,
        ) is Ok,
    ensures
        first.vault@ != second.vault@,
        ({
            let one = first.applied(s, first_seed, first_deposit, first_receive, bump_of(first_found));
            let two = second.applied(
                one,
                second_seed,
                second_deposit,
                second_receive,
                bump_of(second_found),
            );
            &&& two.holdings[first.vault@] == one.holdings[first.vault@]
            &&& two.escrows[first.vault@] == one.escrows[first.vault@]
            &&& two.holdings[first.vault@].amount == first_deposit
            &&& two.holdings[second.vault@].amount == second_deposit
        }),
{
}

/// After a Fulfill succeeded, every further Fulfill or Cancel of the same
/// escrow is refused as already closed.
pub proof fn lemma_fulfilled_is_closed(
    s: LedgerView,
    accounts: Take,
    authority: Option<Seq<u8>>,
    again: Take,
    back: Refund,
    later: Option<Seq<u8>>,
)
    requires
        accounts.outcome(s, authority) is Ok,
        again.escrow@ == accounts.escrow@,
        back.escrow@ == accounts.escrow@,
    ensures
        again.outcome(accounts.applied(s), later) == Err::<(), EscrowError>(
            EscrowError::AlreadyClosed,
        ),
        back.outcome(accounts.applied(s), later) == Err::<(), EscrowError>(
            EscrowError::AlreadyClosed,
        ),
{
}

/// After a Cancel succeeded, every further Fulfill or Cancel of the same
/// escrow is refused as already closed.
pub proof fn lemma_cancelled_is_closed(
    s: LedgerView,
    accounts: Refund,
    authority: Option<Seq<u8>>,
    again: Take,
    back: Refund,
    later: Option<Seq<u8>>,
)
    requires
        accounts.outcome(s, authority) is Ok,
        again.escrow@ == accounts.escrow@,
        back.escrow@ == accounts.escrow@,
    ensures
        again.outcome(accounts.applied(s), later) == Err::<(), EscrowError>(
            EscrowError::AlreadyClosed,
        ),
        back.outcome(accounts.applied(s), later) == Err::<(), EscrowError>(
            EscrowError::AlreadyClosed,
        ),
{
}

/// Whoever fulfils an escrow receives exactly the deposit it was opened
/// with, and pays exactly the amount that was demanded when it was opened,
/// whatever happened to the ledger while the escrow was open. The holdings
/// that receive are taken to serve no second purpose in the Fulfill.
pub proof fn lemma_fulfill_pays_the_deposit(
    s: LedgerView,
    make: Make,
    seed: u64,
    deposit_amount: u64,
    receive_amount: u64,
    found: Option<(Seq<u8>, u8)>,
    ops: Seq<Step>,
    take: Take,
    authority: Option<Seq<u8>>,
)
    requires
        s.paired(),
        make.outcome(s, deposit_amount, receive_amount, found) is Ok,
        forall|k: int|
            0 <= k <= ops.len() ==> #[trigger] run(
                make.applied(s, seed, deposit_amount, receive_amount, bump_of(found)),
                ops.take(k),
            ).is_open(make.vault@),
        take.escrow@ == make.vault@,
        take.outcome(
            run(make.applied(s, seed, deposit_amount, receive_amount, bump_of(found)), ops),
            authority,
        ) is Ok,
        take.taker_a@ != take.taker_b@,
        take.taker_a@ != take.maker_b@,
        take.maker_b@ != take.taker_b@,
    ensures
        ({
            let opened = make.applied(s, seed, deposit_amount, receive_amount, bump_of(found));
            let before = run(opened, ops);
            let after = take.applied(before);
            &&& after.holdings[take.taker_a@].amount == before.holdings[take.taker_a@].amount
                + deposit_amount
            &&& after.holdings[take.maker_b@].amount == before.holdings[take.maker_b@].amount
                + receive_amount
            &&& after.holdings[take.taker_b@].amount + receive_amount
                == before.holdings[take.taker_b@].amount
            &&& before.holdings[take.maker_b@].owner == make.maker@
            &&& !after.is_open(make.vault@)
            &&& !after.holdings.dom().contains(make.vault@)
        }),
{
    let opened = make.applied(s, seed, deposit_amount, receive_amount, bump_of(found));
    lemma_step_keeps_pairs(
        s,
        Step::Open { make, seed, deposit_amount, receive_amount, found },
    );
    lemma_vault_keeps_deposit(opened, ops, make.vault@);
    lemma_run_keeps_pairs(opened, ops);
}

/// The maker who cancels an escrow receives back exactly the deposit it was
/// opened with, whatever happened to the ledger while the escrow was open,
/// and nobody but the maker can cancel it.
pub proof fn lemma_cancel_returns_the_deposit(
    s: LedgerView,
    make: Make,
    seed: u64,
    deposit_amount: u64,
    receive_amount: u64,
    found: Option<(Seq<u8>, u8)>,
    ops: Seq<Step>,
    refund: Refund,
    authority: Option<Seq<u8>>,
)
    requires
        s.paired(),
        make.outcome(s, deposit_amount, receive_amount, found) is Ok,
        forall|k: int|
            0 <= k <= ops.len() ==> #[trigger] run(
                make.applied(s, seed, deposit_amount, receive_amount, bump_of(found)),
                ops.take(k),
            ).is_open(make.vault@),
        refund.escrow@ == make.vault@,
        refund.outcome(
            run(make.applied(s, seed, deposit_amount, receive_amount, bump_of(found)), ops),
            authority,
        ) is Ok,
    ensures
        refund.signed,
        refund.maker@ == make.maker@,
        ({
            let opened = make.applied(s, seed, deposit_amount, receive_amount, bump_of(found));
            let before = run(opened, ops);
            let after = refund.applied(before);
            &&& after.holdings[refund.maker_a@].amount == before.holdings[refund.maker_a@].amount
                + deposit_amount
            &&& before.holdings[refund.maker_a@].owner == make.maker@
            &&& !after.is_open(make.vault@)
            &&& !after.holdings.dom().contains(make.vault@)
        }),
{
    let opened = make.applied(s, seed, deposit_amount, receive_amount, bump_of(found));
    lemma_step_keeps_pairs(
        s,
        Step::Open { make, seed, deposit_amount, receive_amount, found },
    );
    lemma_vault_keeps_deposit(opened, ops, make.vault@);
    lemma_run_keeps_pairs(opened, ops);
}

} // verus!
