use crate::keys::{derive_address, program_address_of, same_key, seed_views};
use crate::state::{Account, AccountData, DonationBank, Ledger, Registry};
use vstd::prelude::*;

verus! {

/// The program's own failures.
#[derive(Clone, Copy, Debug, PartialEq, Eq, Structural)]
pub enum DonationError {
    /// A donation of zero.
    InvalidAmount,
    /// Crediting the destination would overflow its balance.
    CalculationFailure,
    /// The bank holds nothing above its reserve.
    NoFundsForWithdrawal,
}

/// Every way an operation can fail; on any of them nothing changes.
#[derive(Clone, Copy, Debug, PartialEq, Eq, Structural)]
pub enum ProgramError {
    Donation(DonationError),
    /// No bump gives an off-curve address for the seeds.
    AddressDerivationFailed,
    /// The supplied address is not the one derived from its seeds.
    ConstraintSeeds,
    /// An account already exists at the address to be created.
    AccountAlreadyInUse,
    /// No account exists at an address that must hold one.
    AccountNotInitialized,
    /// The account at an address holds the other record kind.
    AccountDiscriminatorMismatch,
    /// The signer is not the bank's authority.
    ConstraintHasOne,
    /// The destination does not hold its own persistence reserve.
    ConstraintRentExempt,
    /// The paying account cannot cover the transfer.
    InsufficientFunds,
    /// Crediting the bank would overflow its balance.
    ArithmeticOverflow,
}

/// The accounts of an Initialize: the address of the bank to create.
#[derive(Clone, Copy, Debug)]
pub struct Initialize {
    pub donation: [u8; 32],
}

/// The accounts of a donation.
#[derive(Clone, Copy, Debug)]
pub struct MakeDonation {
    pub donation_bank: [u8; 32],
    pub registry: [u8; 32],
    pub donor: [u8; 32],
}

/// The accounts of a withdrawal; `authority` is the signer.
#[derive(Clone, Copy, Debug)]
pub struct Withdraw {
    pub donation_bank: [u8; 32],
    pub authority: [u8; 32],
    pub destination: [u8; 32],
}

/// Notice of a completed donation.
#[derive(Clone, Copy, Debug)]
pub struct DonationEvent {
    pub donation_bank: [u8; 32],
    pub donor: [u8; 32],
    pub amount: u64,
}

/// Notice of a completed withdrawal.
#[derive(Clone, Copy, Debug)]
pub struct WithdrawEvent {
    pub donation_bank: [u8; 32],
    pub destination: [u8; 32],
    pub amount: u64,
}

/// `a + b`, capped at `u64::MAX`.
pub open spec fn saturating_sum(a: u64, b: u64) -> u64 {
    if a + b > u64::MAX {
        u64::MAX
    } else {
        (a + b) as u64
    }
}

/// The address of the bank of `authority`.
pub open spec fn bank_address(program_id: [u8; 32], authority: [u8; 32]) -> Option<(Seq<u8>, u8)> {
    program_address_of(seed_views(seq![authority]), program_id@)
}

/// The address of the registry of `donor` at `bank`.
pub open spec fn registry_address(program_id: [u8; 32], bank: [u8; 32], donor: [u8; 32]) -> Option<(Seq<u8>, u8)> {
    program_address_of(seed_views(seq![bank, donor]), program_id@)
}

/// The address part of a derivation's result.
pub open spec fn address_part(d: Option<(Seq<u8>, u8)>) -> Option<Seq<u8>> {
    match d {
        Some((a, _)) => Some(a),
        None => None,
    }
}

/// The byte view of an optional key.
pub open spec fn key_view(k: Option<[u8; 32]>) -> Option<Seq<u8>> {
    match k {
        Some(a) => Some(a@),
        None => None,
    }
}

/// The outcome of an Initialize, given what the bank's address derivation gave.
pub open spec fn initialize_outcome(l: Ledger, ctx: Initialize, payer: u64, derived: Option<Seq<u8>>) -> Result<(), ProgramError> {
    if derived.is_none() {
        Err(ProgramError::AddressDerivationFailed)
    } else if derived.unwrap() != ctx.donation@ {
        Err(ProgramError::ConstraintSeeds)
    } else if l@.contains_key(ctx.donation@) {
        Err(ProgramError::AccountAlreadyInUse)
    } else if payer < l.bank_reserve {
        Err(ProgramError::InsufficientFunds)
    } else {
        Ok(())
    }
}

pub open spec fn initialize_result(l: Ledger, ctx: Initialize, payer: u64, authority: [u8; 32]) -> Result<(), ProgramError> {
    initialize_outcome(l, ctx, payer, address_part(bank_address(l.program_id, authority)))
}

/// The bank that a successful Initialize creates: funded with the reserve.
pub open spec fn new_bank(l: Ledger, ctx: Initialize, authority: [u8; 32]) -> Account {
    Account {
        address: ctx.donation,
        lamports: l.bank_reserve,
        data: AccountData::Bank(DonationBank { authority }),
    }
}

/// Creates the bank of `authority` at `derived`, the address that derivation
/// gave for it (`None` when it gave none), paid by the payer.
pub fn initialize_with_derived(
    ledger: &mut Ledger,
    ctx: &Initialize,
    payer_lamports: &mut u64,
    authority: [u8; 32],
    derived: Option<[u8; 32]>,
) -> (r: Result<(), ProgramError>)
    requires
        old(ledger).wf(),
    ensures
        final(ledger).wf(),
        final(ledger).program_id == old(ledger).program_id,
        final(ledger).bank_reserve == old(ledger).bank_reserve,
        final(ledger).registry_reserve == old(ledger).registry_reserve,
        r == initialize_outcome(*old(ledger), *ctx, *old(payer_lamports), key_view(derived)),
        r is Ok ==> final(ledger)@ == old(ledger)@.insert(ctx.donation@, new_bank(*old(ledger), *ctx, authority))
            && *final(payer_lamports) == *old(payer_lamports) - old(ledger).bank_reserve,
        r is Err ==> *final(ledger) == *old(ledger) && *final(payer_lamports) == *old(payer_lamports),
{
    let address = match derived {
        Some(a) => a,
        None => return Err(ProgramError::AddressDerivationFailed),
    };
    if !same_key(&address, &ctx.donation) {
        return Err(ProgramError::ConstraintSeeds);
    }
    if ledger.account(&ctx.donation).is_some() {
        return Err(ProgramError::AccountAlreadyInUse);
    }
    if *payer_lamports < ledger.bank_reserve {
        return Err(ProgramError::InsufficientFunds);
    }
    *payer_lamports = *payer_lamports - ledger.bank_reserve;
    let bank = Account {
        address: ctx.donation,
        lamports: ledger.bank_reserve,
        data: AccountData::Bank(DonationBank { authority }),
    };
    ledger.put(bank);
    Ok(())
}

/// Creates the bank of `authority` at its derived address, paid by the payer.
pub fn initialize(ledger: &mut Ledger, ctx: &Initialize, payer_lamports: &mut u64, authority: [u8; 32]) -> (r: Result<(), ProgramError>)
    requires
        old(ledger).wf(),
    ensures
        final(ledger).wf(),
        final(ledger).program_id == old(ledger).program_id,
        final(ledger).bank_reserve == old(ledger).bank_reserve,
        final(ledger).registry_reserve == old(ledger).registry_reserve,
        r == initialize_result(*old(ledger), *ctx, *old(payer_lamports), authority),
        r is Ok ==> final(ledger)@ == old(ledger)@.insert(ctx.donation@, new_bank(*old(ledger), *ctx, authority))
            && *final(payer_lamports) == *old(payer_lamports) - old(ledger).bank_reserve,
        r is Err ==> *final(ledger) == *old(ledger) && *final(payer_lamports) == *old(payer_lamports),
{
    let seeds = vec![authority];
    proof {
        assert(seeds@ =~= seq![authority]);
    }
    let derived = derive_address(&seeds, &ledger.program_id);
    initialize_with_derived(ledger, ctx, payer_lamports, authority, derived)
}

/// The record a donation leaves: the first donation (a zero total) sets the
/// bank and the donor, and every donation adds its amount, capped at `u64::MAX`.
pub open spec fn donated(prior: Registry, bank: [u8; 32], donor: [u8; 32], amount: u64) -> Registry {
    if prior.amount == 0 {
        Registry { donation_bank: bank, donor, amount: saturating_sum(prior.amount, amount) }
    } else {
        Registry {
            donation_bank: prior.donation_bank,
            donor: prior.donor,
            amount: saturating_sum(prior.amount, amount),
        }
    }
}

/// The record that a new registry starts from.
pub open spec fn fresh_registry(bank: [u8; 32], donor: [u8; 32]) -> Registry {
    Registry { donation_bank: bank, donor, amount: 0 }
}

/// Whether a registry record already stands at the donation's registry address.
pub open spec fn registry_exists(l: Ledger, ctx: MakeDonation) -> bool {
    l@.contains_key(ctx.registry@)
}

/// The registry record before the donation: the stored one, or a fresh one.
pub open spec fn prior_registry(l: Ledger, ctx: MakeDonation) -> Registry {
    match l@[ctx.registry@].data {
        AccountData::Registry(reg) if registry_exists(l, ctx) => reg,
        _ => fresh_registry(ctx.donation_bank, ctx.donor),
    }
}

/// What the donor pays: the amount, and the registry's reserve if it is new.
pub open spec fn donation_cost(l: Ledger, ctx: MakeDonation, amount: u64) -> int {
    if registry_exists(l, ctx) {
        amount as int
    } else {
        amount + l.registry_reserve
    }
}

/// The outcome of a donation, given what the registry's address derivation gave.
pub open spec fn make_donation_outcome(l: Ledger, ctx: MakeDonation, donor: u64, amount: u64, d: Option<Seq<u8>>) -> Result<DonationEvent, ProgramError> {
    if amount == 0 {
        Err(ProgramError::Donation(DonationError::InvalidAmount))
    } else if !l@.contains_key(ctx.donation_bank@) {
        Err(ProgramError::AccountNotInitialized)
    } else if !(l@[ctx.donation_bank@].data is Bank) {
        Err(ProgramError::AccountDiscriminatorMismatch)
    } else if d.is_none() {
        Err(ProgramError::AddressDerivationFailed)
    } else if d.unwrap() != ctx.registry@ {
        Err(ProgramError::ConstraintSeeds)
    } else if registry_exists(l, ctx) && !(l@[ctx.registry@].data is Registry) {
        Err(ProgramError::AccountDiscriminatorMismatch)
    } else if donor < donation_cost(l, ctx, amount) {
        Err(ProgramError::InsufficientFunds)
    } else if l@[ctx.donation_bank@].lamports + amount > u64::MAX {
        Err(ProgramError::ArithmeticOverflow)
    } else {
        Ok(DonationEvent { donation_bank: ctx.donation_bank, donor: ctx.donor, amount })
    }
}

pub open spec fn make_donation_result(l: Ledger, ctx: MakeDonation, donor: u64, amount: u64) -> Result<DonationEvent, ProgramError> {
    make_donation_outcome(l, ctx, donor, amount, address_part(registry_address(l.program_id, ctx.donation_bank, ctx.donor)))
}

/// The bank after a donation: its balance raised by the amount.
pub open spec fn credited_bank(l: Ledger, ctx: MakeDonation, amount: u64) -> Account {
    let bank = l@[ctx.donation_bank@];
    Account { address: bank.address, lamports: (bank.lamports + amount) as u64, data: bank.data }
}

/// The registry account after a donation.
pub open spec fn updated_registry(l: Ledger, ctx: MakeDonation, amount: u64) -> Account {
    Account {
        address: ctx.registry,
        lamports: if registry_exists(l, ctx) {
            l@[ctx.registry@].lamports
        } else {
            l.registry_reserve
        },
        data: AccountData::Registry(donated(prior_registry(l, ctx), ctx.donation_bank, ctx.donor, amount)),
    }
}

/// Moves `amount` from the donor to the bank and adds it to the donor's
/// registry at that bank, creating the registry on the first donation;
/// `derived` is the registry address that derivation gave (`None` when it gave none).
pub fn make_donation_with_derived(
    ledger: &mut Ledger,
    ctx: &MakeDonation,
    donor_lamports: &mut u64,
    amount: u64,
    derived: Option<[u8; 32]>,
) -> (r: Result<DonationEvent, ProgramError>)
    requires
        old(ledger).wf(),
    ensures
        final(ledger).wf(),
        final(ledger).program_id == old(ledger).program_id,
        final(ledger).bank_reserve == old(ledger).bank_reserve,
        final(ledger).registry_reserve == old(ledger).registry_reserve,
        r == make_donation_outcome(*old(ledger), *ctx, *old(donor_lamports), amount, key_view(derived)),
        r is Ok ==> final(ledger)@ == old(ledger)@.insert(ctx.donation_bank@, credited_bank(*old(ledger), *ctx, amount)).insert(
            ctx.registry@,
            updated_registry(*old(ledger), *ctx, amount),
        ) && *final(donor_lamports) == *old(donor_lamports) - donation_cost(*old(ledger), *ctx, amount),
        r is Err ==> *final(ledger) == *old(ledger) && *final(donor_lamports) == *old(donor_lamports),
{
    if amount == 0 {
        return Err(ProgramError::Donation(DonationError::InvalidAmount));
    }
    let bank = match ledger.account(&ctx.donation_bank) {
        Some(acc) => acc,
        None => return Err(ProgramError::AccountNotInitialized),
    };
    if !matches!(bank.data, AccountData::Bank(_)) {
        return Err(ProgramError::AccountDiscriminatorMismatch);
    }
    let address = match derived {
        Some(a) => a,
        None => return Err(ProgramError::AddressDerivationFailed),
    };
    if !same_key(&address, &ctx.registry) {
        return Err(ProgramError::ConstraintSeeds);
    }
    let existing = ledger.account(&ctx.registry);
    let (mut registry, registry_lamports, rent_paid) = match existing {
        Some(acc) => match acc.data {
            AccountData::Registry(reg) => (reg, acc.lamports, 0u64),
            AccountData::Bank(_) => return Err(ProgramError::AccountDiscriminatorMismatch),
        },
        None => {
            let fresh = Registry { donation_bank: ctx.donation_bank, donor: ctx.donor, amount: 0 };
            (fresh, ledger.registry_reserve, ledger.registry_reserve)
        },
    };
    if *donor_lamports < rent_paid || *donor_lamports - rent_paid < amount {
        return Err(ProgramError::InsufficientFunds);
    }
    if bank.lamports > u64::MAX - amount {
        return Err(ProgramError::ArithmeticOverflow);
    }
    *donor_lamports = *donor_lamports - rent_paid - amount;
    let credited = Account { address: bank.address, lamports: bank.lamports + amount, data: bank.data };
    ledger.put(credited);
    if registry.amount == 0 {
        registry.donor = ctx.donor;
        registry.donation_bank = ctx.donation_bank;
    }
    registry.amount = registry.amount.saturating_add(amount);
    let updated = Account {
        address: ctx.registry,
        lamports: registry_lamports,
        data: AccountData::Registry(registry),
    };
    ledger.put(updated);
    Ok(DonationEvent { donation_bank: ctx.donation_bank, donor: ctx.donor, amount })
}

/// Moves `amount` from the donor to the bank and adds it to the donor's
/// registry at that bank, creating the registry on the first donation.
pub fn make_donation(ledger: &mut Ledger, ctx: &MakeDonation, donor_lamports: &mut u64, amount: u64) -> (r: Result<DonationEvent, ProgramError>)
    requires
        old(ledger).wf(),
    ensures
        final(ledger).wf(),
        final(ledger).program_id == old(ledger).program_id,
        final(ledger).bank_reserve == old(ledger).bank_reserve,
        final(ledger).registry_reserve == old(ledger).registry_reserve,
        r == make_donation_result(*old(ledger), *ctx, *old(donor_lamports), amount),
        r is Ok ==> final(ledger)@ == old(ledger)@.insert(ctx.donation_bank@, credited_bank(*old(ledger), *ctx, amount)).insert(
            ctx.registry@,
            updated_registry(*old(ledger), *ctx, amount),
        ) && *final(donor_lamports) == *old(donor_lamports) - donation_cost(*old(ledger), *ctx, amount),
        r is Err ==> *final(ledger) == *old(ledger) && *final(donor_lamports) == *old(donor_lamports),
{
    let seeds = vec![ctx.donation_bank, ctx.donor];
    proof {
        assert(seeds@ =~= seq![ctx.donation_bank, ctx.donor]);
    }
    let derived = derive_address(&seeds, &ledger.program_id);
    make_donation_with_derived(ledger, ctx, donor_lamports, amount, derived)
}

pub open spec fn withdraw_result(l: Ledger, ctx: Withdraw, destination: u64, destination_reserve: u64) -> Result<WithdrawEvent, ProgramError> {
    if !l@.contains_key(ctx.donation_bank@) {
        Err(ProgramError::AccountNotInitialized)
    } else {
        let bank = l@[ctx.donation_bank@];
        match bank.data {
            AccountData::Registry(_) => Err(ProgramError::AccountDiscriminatorMismatch),
            AccountData::Bank(b) => if b.authority@ != ctx.authority@ {
                Err(ProgramError::ConstraintHasOne)
            } else if destination < destination_reserve {
                Err(ProgramError::ConstraintRentExempt)
            } else if bank.lamports <= l.bank_reserve {
                Err(ProgramError::Donation(DonationError::NoFundsForWithdrawal))
            } else if destination + (bank.lamports - l.bank_reserve) > u64::MAX {
                Err(ProgramError::Donation(DonationError::CalculationFailure))
            } else {
                Ok(
                    WithdrawEvent {
                        donation_bank: ctx.donation_bank,
                        destination: ctx.destination,
                        amount: (bank.lamports - l.bank_reserve) as u64,
                    },
                )
            },
        }
    }
}

/// The bank after a withdrawal: its balance set to the reserve.
pub open spec fn drained_bank(l: Ledger, ctx: Withdraw) -> Account {
    let bank = l@[ctx.donation_bank@];
    Account { address: bank.address, lamports: l.bank_reserve, data: bank.data }
}

/// Moves everything above the bank's reserve to the destination, whose
/// balance and own reserve the caller supplies.
pub fn withdraw(ledger: &mut Ledger, ctx: &Withdraw, destination_lamports: &mut u64, destination_reserve: u64) -> (r: Result<WithdrawEvent, ProgramError>)
    requires
        old(ledger).wf(),
    ensures
        final(ledger).wf(),
        final(ledger).program_id == old(ledger).program_id,
        final(ledger).bank_reserve == old(ledger).bank_reserve,
        final(ledger).registry_reserve == old(ledger).registry_reserve,
        r == withdraw_result(*old(ledger), *ctx, *old(destination_lamports), destination_reserve),
        r is Ok ==> final(ledger)@ == old(ledger)@.insert(ctx.donation_bank@, drained_bank(*old(ledger), *ctx))
            && *final(destination_lamports) == *old(destination_lamports) + r->Ok_0.amount,
        r is Err ==> *final(ledger) == *old(ledger) && *final(destination_lamports) == *old(destination_lamports),
{
    let bank = match ledger.account(&ctx.donation_bank) {
        Some(acc) => acc,
        None => return Err(ProgramError::AccountNotInitialized),
    };
    let record = match bank.data {
        AccountData::Bank(b) => b,
        AccountData::Registry(_) => return Err(ProgramError::AccountDiscriminatorMismatch),
    };
    if !same_key(&record.authority, &ctx.authority) {
        return Err(ProgramError::ConstraintHasOne);
    }
    if *destination_lamports < destination_reserve {
        return Err(ProgramError::ConstraintRentExempt);
    }
    let reserve = ledger.bank_reserve;
    let amount = bank.lamports.saturating_sub(reserve);
    if amount == 0 {
        return Err(ProgramError::Donation(DonationError::NoFundsForWithdrawal));
    }
    let credited = match destination_lamports.checked_add(amount) {
        Some(v) => v,
        None => return Err(ProgramError::Donation(DonationError::CalculationFailure)),
    };
    ledger.put(Account { address: bank.address, lamports: reserve, data: bank.data });
    *destination_lamports = credited;
    Ok(WithdrawEvent { donation_bank: ctx.donation_bank, destination: ctx.destination, amount })
}

} // verus!
