use crate::keys::same_key;
use vstd::prelude::*;

verus! {

/// A bank: the identity that may withdraw from it.
#[derive(Clone, Copy, Debug)]
pub struct DonationBank {
    pub authority: [u8; 32],
}

/// The running total of one donor's contributions to one bank.
#[derive(Clone, Copy, Debug)]
pub struct Registry {
    pub donation_bank: [u8; 32],
    pub donor: [u8; 32],
    pub amount: u64,
}

/// What a program-owned account holds.
#[derive(Clone, Copy, Debug)]
pub enum AccountData {
    Bank(DonationBank),
    Registry(Registry),
}

/// A program-owned account: its address, its native balance and its record.
#[derive(Clone, Copy, Debug)]
pub struct Account {
    pub address: [u8; 32],
    pub lamports: u64,
    pub data: AccountData,
}

/// The accounts that the program owns, each at its own address, together with
/// the program id that addresses are derived under and the persistence reserve
/// of each record kind.
pub struct Ledger {
    pub program_id: [u8; 32],
    pub bank_reserve: u64,
    pub registry_reserve: u64,
    pub accounts: Vec<Account>,
}

/// The accounts of a list, keyed by address; a later entry wins.
pub open spec fn map_of(s: Seq<Account>) -> Map<Seq<u8>, Account>
    decreases s.len(),
{
    if s.len() == 0 {
        Map::empty()
    } else {
        map_of(s.drop_last()).insert(s.last().address@, s.last())
    }
}

/// No two entries of a list share an address.
pub open spec fn unique_addresses(s: Seq<Account>) -> bool {
    forall|i: int, j: int|
        0 <= i < s.len() && 0 <= j < s.len() && i != j ==> s[i].address@ != s[j].address@
}

proof fn lemma_map_of_entry(s: Seq<Account>, i: int)
    requires
        unique_addresses(s),
        0 <= i < s.len(),
    ensures
        map_of(s).contains_key(s[i].address@),
        map_of(s)[s[i].address@] == s[i],
    decreases s.len(),
{
    if i < s.len() - 1 {
        lemma_map_of_entry(s.drop_last(), i);
    }
}

proof fn lemma_map_of_absent(s: Seq<Account>, a: Seq<u8>)
    requires
        forall|i: int| 0 <= i < s.len() ==> s[i].address@ != a,
    ensures
        !map_of(s).contains_key(a),
    decreases s.len(),
{
    if s.len() > 0 {
        lemma_map_of_absent(s.drop_last(), a);
    }
}

proof fn lemma_map_of_update(s: Seq<Account>, i: int, acc: Account)
    requires
        unique_addresses(s),
        0 <= i < s.len(),
        s[i].address@ == acc.address@,
    ensures
        map_of(s.update(i, acc)) == map_of(s).insert(acc.address@, acc),
    decreases s.len(),
{
    let t = s.update(i, acc);
    if i == s.len() - 1 {
        assert(t.drop_last() =~= s.drop_last());
        assert(map_of(t) =~= map_of(s).insert(acc.address@, acc));
    } else {
        lemma_map_of_update(s.drop_last(), i, acc);
        assert(t.drop_last() =~= s.drop_last().update(i, acc));
        assert(map_of(t) =~= map_of(s).insert(acc.address@, acc));
    }
}

proof fn lemma_map_of_source(s: Seq<Account>, a: Seq<u8>) -> (i: int)
    requires
        map_of(s).contains_key(a),
    ensures
        0 <= i < s.len(),
        s[i].address@ == a,
        map_of(s)[a] == s[i],
    decreases s.len(),
{
    if s.last().address@ == a {
        s.len() - 1
    } else {
        lemma_map_of_source(s.drop_last(), a)
    }
}

/// The reserve that the record kind of `acc` must keep.
pub open spec fn holds_reserve(acc: Account, bank_reserve: u64, registry_reserve: u64) -> bool {
    match acc.data {
        AccountData::Bank(_) => acc.lamports >= bank_reserve,
        AccountData::Registry(_) => acc.lamports >= registry_reserve,
    }
}

impl View for Ledger {
    type V = Map<Seq<u8>, Account>;

    open spec fn view(&self) -> Map<Seq<u8>, Account> {
        map_of(self.accounts@)
    }
}

impl Ledger {
    /// Every address holds at most one account.
    pub open spec fn addresses_unique(&self) -> bool {
        unique_addresses(self.accounts@)
    }

    /// Every bank holds at least the bank reserve, and every registry at
    /// least the registry reserve.
    pub open spec fn reserves_held(&self) -> bool {
        forall|a: Seq<u8>| #[trigger]
            self@.contains_key(a) ==> holds_reserve(self@[a], self.bank_reserve, self.registry_reserve)
    }

    /// Every account is stored under its own address.
    pub open spec fn keyed_by_address(&self) -> bool {
        forall|a: Seq<u8>| #[trigger] self@.contains_key(a) ==> self@[a].address@ == a
    }

    /// The ledger's invariant.
    pub open spec fn wf(&self) -> bool {
        &&& self.addresses_unique()
        &&& self.keyed_by_address()
        &&& self.reserves_held()
    }

    /// An empty ledger for a program id and the reserves of its two record kinds.
    pub fn new(program_id: [u8; 32], bank_reserve: u64, registry_reserve: u64) -> (r: Ledger)
        ensures
            r.wf(),
            r@ == Map::<Seq<u8>, Account>::empty(),
            r.program_id == program_id,
            r.bank_reserve == bank_reserve,
            r.registry_reserve == registry_reserve,
    {
        let r = Ledger { program_id, bank_reserve, registry_reserve, accounts: Vec::new() };
        proof {
            assert(r.accounts@.len() == 0);
        }
        r
    }


    /// Whether the ledger is well formed: no address holds two accounts and
    /// each account keeps the reserve of its kind.
    pub fn is_well_formed(&self) -> (r: bool)
        ensures
            r == self.wf(),
    {
        let n = self.accounts.len();
        let mut i: usize = 0;
        while i < n
            invariant
                0 <= i <= n,
                n == self.accounts@.len(),
                forall|p: int, q: int| 0 <= p < i && 0 <= q < n && p != q ==> self.accounts@[p].address@ != self.accounts@[q].address@,
                forall|p: int| 0 <= p < i ==> holds_reserve(self.accounts@[p], self.bank_reserve, self.registry_reserve),
            decreases n - i,
        {
            let acc = self.accounts[i];
            let enough = match acc.data {
                AccountData::Bank(_) => acc.lamports >= self.bank_reserve,
                AccountData::Registry(_) => acc.lamports >= self.registry_reserve,
            };
            if !enough {
                proof {
                    if self.addresses_unique() {
                        lemma_map_of_entry(self.accounts@, i as int);
                        assert(self@.contains_key(acc.address@));
                    }
                }
                return false;
            }
            let mut j: usize = 0;
            while j < n
                invariant
                    0 <= i < n,
                    0 <= j <= n,
                    n == self.accounts@.len(),
                    acc == self.accounts@[i as int],
                    forall|q: int| 0 <= q < j && q != i ==> self.accounts@[i as int].address@ != self.accounts@[q].address@,
                decreases n - j,
            {
                if j != i && same_key(&acc.address, &self.accounts[j].address) {
                    return false;
                }
                j = j + 1;
            }
            i = i + 1;
        }
        proof {
            assert forall|a: Seq<u8>| #[trigger] self@.contains_key(a) implies self@[a].address@ == a
                && holds_reserve(self@[a], self.bank_reserve, self.registry_reserve) by {
                let k = lemma_map_of_source(self.accounts@, a);
            }
        }
        true
    }

    fn position(&self, address: &[u8; 32]) -> (r: Option<usize>)
        requires
            self.addresses_unique(),
        ensures
            r.is_some() ==> r.unwrap() < self.accounts@.len() && self.accounts@[r.unwrap() as int].address@
                == address@ && self@.contains_key(address@) && self@[address@]
                == self.accounts@[r.unwrap() as int],
            r.is_none() ==> !self@.contains_key(address@),
    {
        let mut i: usize = 0;
        while i < self.accounts.len()
            invariant
                0 <= i <= self.accounts@.len(),
                self.addresses_unique(),
                forall|j: int| 0 <= j < i ==> self.accounts@[j].address@ != address@,
            decreases self.accounts@.len() - i,
        {
            if same_key(&self.accounts[i].address, address) {
                proof {
                    lemma_map_of_entry(self.accounts@, i as int);
                }
                return Some(i);
            }
            i = i + 1;
        }
        proof {
            lemma_map_of_absent(self.accounts@, address@);
        }
        None
    }

    /// The account at `address`, if there is one.
    pub fn account(&self, address: &[u8; 32]) -> (r: Option<Account>)
        requires
            self.wf(),
        ensures
            r.is_some() == self@.contains_key(address@),
            r.is_some() ==> r.unwrap() == self@[address@],
    {
        match self.position(address) {
            Some(i) => Some(self.accounts[i]),
            None => None,
        }
    }

    /// Stores `acc` at its address, replacing what was there.
    pub(crate) fn put(&mut self, acc: Account)
        requires
            old(self).addresses_unique(),
            old(self).keyed_by_address(),
        ensures
            final(self)@ == old(self)@.insert(acc.address@, acc),
            final(self).addresses_unique(),
            final(self).keyed_by_address(),
            final(self).program_id == old(self).program_id,
            final(self).bank_reserve == old(self).bank_reserve,
            final(self).registry_reserve == old(self).registry_reserve,
    {
        match self.position(&acc.address) {
            Some(i) => {
                proof {
                    lemma_map_of_update(self.accounts@, i as int, acc);
                }
                self.accounts.set(i, acc);
            },
            None => {
                let ghost s = self.accounts@;
                self.accounts.push(acc);
                proof {
                    assert(self.accounts@.drop_last() =~= s);
                    assert forall|i: int| 0 <= i < s.len() implies s[i].address@ != acc.address@ by {
                        lemma_map_of_entry(s, i);
                    }
                }
            },
        }
    }
}

} // verus!
