use crate::handlers::{
    bank_address, donated, fresh_registry, initialize_result, make_donation_result, prior_registry,
    registry_exists, updated_registry, credited_bank, drained_bank, withdraw_result,
    DonationError, Initialize, MakeDonation, ProgramError, Withdraw,
};
use crate::state::{AccountData, Ledger, Registry};
use vstd::prelude::*;

verus! {

/// The exact sum of a list of amounts.
pub open spec fn total(amounts: Seq<u64>) -> int
    decreases amounts.len(),
{
    if amounts.len() == 0 {
        0
    } else {
        total(amounts.drop_last()) + amounts.last()
    }
}

/// The registry of `donor` at `bank` after it has donated `amounts` in order,
/// starting from no record.
pub open spec fn registry_after(bank: [u8; 32], donor: [u8; 32], amounts: Seq<u64>) -> Registry
    decreases amounts.len(),
{
    if amounts.len() == 0 {
        fresh_registry(bank, donor)
    } else {
        donated(registry_after(bank, donor, amounts.drop_last()), bank, donor, amounts.last())
    }
}

/// After a successful donation, the registry that the next donation by the
/// same donor to the same bank starts from is the one this donation left.
pub proof fn lemma_donation_feeds_next(l: Ledger, ctx: MakeDonation, donor: u64, amount: u64, next: Ledger)
    requires
        l.wf(),
        make_donation_result(l, ctx, donor, amount) is Ok,
        next@ == l@.insert(ctx.donation_bank@, credited_bank(l, ctx, amount)).insert(
            ctx.registry@,
            updated_registry(l, ctx, amount),
        ),
    ensures
        registry_exists(next, ctx),
        prior_registry(next, ctx) == donated(prior_registry(l, ctx), ctx.donation_bank, ctx.donor, amount),
{
}

/// A donor's registry at a bank holds the exact sum of its positive
/// donations there, capped at `u64::MAX`, and names that bank and donor.
pub proof fn lemma_donations_accumulate(bank: [u8; 32], donor: [u8; 32], amounts: Seq<u64>)
    requires
        forall|i: int| 0 <= i < amounts.len() ==> amounts[i] > 0,
    ensures
        registry_after(bank, donor, amounts).amount == if total(amounts) > u64::MAX {
            u64::MAX as int
        } else {
            total(amounts)
        },
        registry_after(bank, donor, amounts).donation_bank == bank,
        registry_after(bank, donor, amounts).donor == donor,
    decreases amounts.len(),
{
    if amounts.len() > 0 {
        let rest = amounts.drop_last();
        assert forall|i: int| 0 <= i < rest.len() implies rest[i] > 0 by {
            assert(rest[i] == amounts[i]);
        }
        lemma_donations_accumulate(bank, donor, rest);
    }
}

/// In a well-formed ledger, which every operation keeps well-formed, each bank
/// holds at least the bank reserve.
pub proof fn lemma_bank_keeps_reserve(l: Ledger, address: Seq<u8>)
    requires
        l.wf(),
        l@.contains_key(address),
        l@[address].data is Bank,
    ensures
        l@[address].lamports >= l.bank_reserve,
{
}

/// A successful withdrawal leaves the bank with exactly its reserve and pays
/// the destination exactly what the bank held above it.
pub proof fn lemma_withdraw_leaves_reserve(l: Ledger, ctx: Withdraw, destination: u64, destination_reserve: u64)
    requires
        l.wf(),
        withdraw_result(l, ctx, destination, destination_reserve) is Ok,
    ensures
        drained_bank(l, ctx).lamports == l.bank_reserve,
        withdraw_result(l, ctx, destination, destination_reserve)->Ok_0.amount == l@[ctx.donation_bank@].lamports
            - l.bank_reserve,
        destination + withdraw_result(l, ctx, destination, destination_reserve)->Ok_0.amount <= u64::MAX,
{
}

/// The authority's withdrawal from a bank that holds no more than its reserve
/// fails with `NoFundsForWithdrawal`.
pub proof fn lemma_withdraw_needs_surplus(l: Ledger, ctx: Withdraw, destination: u64, destination_reserve: u64)
    requires
        l.wf(),
        l@.contains_key(ctx.donation_bank@),
        l@[ctx.donation_bank@].data matches AccountData::Bank(b) && b.authority@ == ctx.authority@,
        destination >= destination_reserve,
        l@[ctx.donation_bank@].lamports <= l.bank_reserve,
    ensures
        withdraw_result(l, ctx, destination, destination_reserve) == Err::<crate::handlers::WithdrawEvent, ProgramError>(
            ProgramError::Donation(DonationError::NoFundsForWithdrawal),
        ),
{
}

/// A donation of zero fails with `InvalidAmount`.
pub proof fn lemma_zero_donation_rejected(l: Ledger, ctx: MakeDonation, donor: u64)
    ensures
        make_donation_result(l, ctx, donor, 0) == Err::<crate::handlers::DonationEvent, ProgramError>(
            ProgramError::Donation(DonationError::InvalidAmount),
        ),
{
}

/// A withdrawal signed by anyone but the bank's authority is rejected.
pub proof fn lemma_withdraw_requires_authority(l: Ledger, ctx: Withdraw, destination: u64, destination_reserve: u64)
    requires
        l@.contains_key(ctx.donation_bank@),
        l@[ctx.donation_bank@].data matches AccountData::Bank(b) && b.authority@ != ctx.authority@,
    ensures
        withdraw_result(l, ctx, destination, destination_reserve) == Err::<crate::handlers::WithdrawEvent, ProgramError>(
            ProgramError::ConstraintHasOne,
        ),
{
}

/// Initialize fails for an authority whose bank already exists.
pub proof fn lemma_initialize_once(l: Ledger, ctx: Initialize, payer: u64, authority: [u8; 32])
    requires
        bank_address(l.program_id, authority).is_some(),
        l@.contains_key(bank_address(l.program_id, authority).unwrap().0),
    ensures
        initialize_result(l, ctx, payer, authority) is Err,
        ctx.donation@ == bank_address(l.program_id, authority).unwrap().0 ==> initialize_result(
            l,
            ctx,
            payer,
            authority,
        ) == Err::<(), ProgramError>(ProgramError::AccountAlreadyInUse),
{
}

} // verus!
