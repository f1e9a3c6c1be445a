use crate::address::{create_program_address, created_address, Address};
use crate::error::VaultError;
use crate::state::Vault;
use vstd::prelude::*;

verus! {

/// What the ledger holds at one address: its lamports and, where a vault was
/// created there, the vault record.
pub type Entry = (u64, Option<Vault>);

/// One account of the ledger.
#[derive(Clone, Copy, Debug)]
pub struct Account {
    pub key: Address,
    pub lamports: u64,
    pub record: Option<Vault>,
}

/// The balances and records that the vault program works against, with the
/// program's own identity.
pub struct Ledger {
    program: Address,
    accounts: Vec<Account>,
}

/// Lamports held at `k`; an address the ledger has never seen holds none.
pub open spec fn balance_in(m: Map<Seq<u8>, Entry>, k: Seq<u8>) -> nat {
    if m.contains_key(k) {
        m[k].0 as nat
    } else {
        0
    }
}

/// The vault record stored at `k`, if any.
pub open spec fn record_in(m: Map<Seq<u8>, Entry>, k: Seq<u8>) -> Option<Vault> {
    if m.contains_key(k) {
        m[k].1
    } else {
        None
    }
}

impl View for Ledger {
    type V = Map<Seq<u8>, Entry>;

    closed spec fn view(&self) -> Map<Seq<u8>, Entry> {
        Map::new(
            |k: Seq<u8>| exists|i: int| 0 <= i < self.accounts@.len() && self.accounts@[i].key@ == k,
            |k: Seq<u8>|
                {
                    let a = self.accounts@[choose|i: int|
                        0 <= i < self.accounts@.len() && self.accounts@[i].key@ == k];
                    (a.lamports, a.record)
                },
        )
    }
}

impl Ledger {
    /// No two accounts share an address.
    pub closed spec fn wf(&self) -> bool {
        forall|i: int, j: int|
            0 <= i < j < self.accounts@.len() ==> self.accounts@[i].key@ != self.accounts@[j].key@
    }

    /// The identity of the program that derives the vault addresses.
    pub closed spec fn program_id(&self) -> Seq<u8> {
        self.program@
    }

    proof fn lemma_entry(&self, i: int)
        requires
            self.wf(),
            0 <= i < self.accounts@.len(),
        ensures
            self@.contains_key(self.accounts@[i].key@),
            self@[self.accounts@[i].key@] == (self.accounts@[i].lamports, self.accounts@[i].record),
    {
        let k = self.accounts@[i].key@;
        let j = choose|j: int| 0 <= j < self.accounts@.len() && self.accounts@[j].key@ == k;
        if j < i {
            assert(self.accounts@[j].key@ != self.accounts@[i].key@);
        } else if i < j {
            assert(self.accounts@[i].key@ != self.accounts@[j].key@);
        }
    }

    pub fn new(program: Address) -> (r: Ledger)
        ensures
            r.wf(),
            r.program_id() == program@,
            r@ == Map::<Seq<u8>, Entry>::empty(),
    {
        let r = Ledger { program, accounts: Vec::new() };
        assert(r@ =~= Map::<Seq<u8>, Entry>::empty());
        r
    }

    pub fn program(&self) -> (r: Address)
        ensures
            r@ == self.program_id(),
    {
        self.program
    }

    fn find(&self, key: &Address) -> (r: Option<usize>)
        requires
            self.wf(),
        ensures
            r matches Some(i) ==> i < self.accounts@.len() && self.accounts@[i as int].key@ == key@,
            r is None ==> !self@.contains_key(key@),
    {
        let mut i: usize = 0;
        while i < self.accounts.len()
            invariant
                i <= self.accounts@.len(),
                forall|j: int| 0 <= j < i ==> self.accounts@[j].key@ != key@,
            decreases self.accounts@.len() - i,
        {
            if self.accounts[i].key.equals(key) {
                return Some(i);
            }
            i = i + 1;
        }
        None
    }

    /// Reads what the ledger holds at `key`.
    pub fn entry(&self, key: &Address) -> (r: Entry)
        requires
            self.wf(),
        ensures
            r.0 as nat == balance_in(self@, key@),
            r.1 == record_in(self@, key@),
    {
        match self.find(key) {
            Some(i) => {
                proof {
                    self.lemma_entry(i as int);
                }
                (self.accounts[i].lamports, self.accounts[i].record)
            },
            None => (0, None),
        }
    }

    /// Lamports held at `key`.
    pub fn balance(&self, key: &Address) -> (r: u64)
        requires
            self.wf(),
        ensures
            r as nat == balance_in(self@, key@),
    {
        self.entry(key).0
    }

    /// The vault record stored at `key`, if any.
    pub fn record(&self, key: &Address) -> (r: Option<Vault>)
        requires
            self.wf(),
        ensures
            r == record_in(self@, key@),
    {
        self.entry(key).1
    }

    fn put(&mut self, key: &Address, lamports: u64, record: Option<Vault>)
        requires
            old(self).wf(),
        ensures
            final(self).wf(),
            final(self).program_id() == old(self).program_id(),
            final(self)@ == old(self)@.insert(key@, (lamports, record)),
    {
        let ghost before = *self;
        let acc = Account { key: *key, lamports, record };
        let found = self.find(key);
        match found {
            Some(i) => {
                self.accounts.set(i, acc);
            },
            None => {
                self.accounts.push(acc);
            },
        }
        let ghost at: int = match found {
            Some(i) => i as int,
            None => before.accounts@.len() as int,
        };
        assert(self.accounts@[at].key@ == key@);
        assert forall|j: int| 0 <= j < self.accounts@.len() && j != at implies self.accounts@[j]
            == before.accounts@[j] by {}
        assert(self.wf()) by {
            assert forall|i: int, j: int| 0 <= i < j < self.accounts@.len() implies self.accounts@[i].key@
                != self.accounts@[j].key@ by {
                if i != at && j != at {
                    assert(before.accounts@[i].key@ != before.accounts@[j].key@);
                } else if i == at {
                    assert(before@.contains_key(before.accounts@[j].key@)) by {
                        before.lemma_entry(j);
                    }
                    if found is None {
                    } else {
                        assert(before.accounts@[at].key@ != before.accounts@[j].key@);
                    }
                } else {
                    assert(before@.contains_key(before.accounts@[i].key@)) by {
                        before.lemma_entry(i);
                    }
                    if found is None {
                    } else {
                        assert(before.accounts@[i].key@ != before.accounts@[at].key@);
                    }
                }
            }
        }
        let ghost target = before@.insert(key@, (lamports, record));
        assert forall|k: Seq<u8>| #[trigger] self@.contains_key(k) == target.contains_key(k) && (self@.contains_key(k) ==> self@[k] == target[k]) by {
            if k == key@ {
                self.lemma_entry(at);
            } else if self@.contains_key(k) {
                let j = choose|j: int| 0 <= j < self.accounts@.len() && self.accounts@[j].key@ == k;
                self.lemma_entry(j);
                before.lemma_entry(j);
            } else if before@.contains_key(k) {
                let j = choose|j: int| 0 <= j < before.accounts@.len() && before.accounts@[j].key@ == k;
                assert(j != at);
                assert(self.accounts@[j].key@ == k);
            }
        }
        assert(self@ =~= target);
    }

    /// Adds `amount` lamports at `key`, as a faucet or an outside payment would.
    pub fn airdrop(&mut self, key: &Address, amount: u64) -> (r: Result<(), VaultError>)
        requires
            old(self).wf(),
        ensures
            final(self).wf(),
            final(self).program_id() == old(self).program_id(),
            balance_in(old(self)@, key@) + amount > u64::MAX ==> r == Err::<(), VaultError>(
                VaultError::BalanceOverflow,
            ) && final(self)@ == old(self)@,
            balance_in(old(self)@, key@) + amount <= u64::MAX ==> r is Ok && final(self)@ == old(
                self,
            )@.insert(key@, ((balance_in(old(self)@, key@) + amount) as u64, record_in(old(self)@, key@))),
    {
        let (lamports, record) = self.entry(key);
        match lamports.checked_add(amount) {
            Some(n) => {
                self.put(key, n, record);
                Ok(())
            },
            None => Err(VaultError::BalanceOverflow),
        }
    }

    /// Stores a vault record at `key`; refused where one is already there.
    pub fn create_record(&mut self, key: &Address, vault: Vault) -> (r: Result<(), VaultError>)
        requires
            old(self).wf(),
        ensures
            final(self).wf(),
            final(self).program_id() == old(self).program_id(),
            record_in(old(self)@, key@) is Some ==> r == Err::<(), VaultError>(VaultError::AlreadyExists)
                && final(self)@ == old(self)@,
            record_in(old(self)@, key@) is None ==> r is Ok && final(self)@ == old(self)@.insert(
                key@,
                (balance_in(old(self)@, key@) as u64, Some(vault)),
            ),
    {
        let (lamports, record) = self.entry(key);
        if record.is_some() {
            return Err(VaultError::AlreadyExists);
        }
        self.put(key, lamports, Some(vault));
        Ok(())
    }

    /// Moves `amount` lamports from `from` to `to`, signed by `from`'s holder.
    pub fn transfer(&mut self, from: &Address, to: &Address, amount: u64) -> (r: Result<(), VaultError>)
        requires
            old(self).wf(),
        ensures
            final(self).wf(),
            final(self).program_id() == old(self).program_id(),
            r == transfer_outcome(old(self)@, from@, to@, amount),
            r is Ok ==> final(self)@ == after_transfer(old(self)@, from@, to@, amount),
            r is Err ==> final(self)@ == old(self)@,
    {
        let (from_lamports, from_record) = self.entry(from);
        if from_lamports < amount {
            return Err(VaultError::InsufficientFunds);
        }
        if from.equals(to) {
            return Ok(());
        }
        let (to_lamports, to_record) = self.entry(to);
        match to_lamports.checked_add(amount) {
            Some(n) => {
                self.put(from, from_lamports - amount, from_record);
                self.put(to, n, to_record);
                Ok(())
            },
            None => Err(VaultError::BalanceOverflow),
        }
    }

    /// Moves `amount` lamports out of the keyless address `from`. The signature
    /// is the seed chain: it holds only where the chain derives `from` under
    /// this ledger's program.
    pub fn transfer_signed(
        &mut self,
        from: &Address,
        to: &Address,
        amount: u64,
        signer_seeds: &Vec<Vec<u8>>,
    ) -> (r: Result<(), VaultError>)
        requires
            old(self).wf(),
        ensures
            final(self).wf(),
            final(self).program_id() == old(self).program_id(),
            created_address(signer_seeds@.map_values(|s: Vec<u8>| s@), old(self).program_id()) != Some(
                from@,
            ) ==> r == Err::<(), VaultError>(VaultError::Unauthorized),
            created_address(signer_seeds@.map_values(|s: Vec<u8>| s@), old(self).program_id()) == Some(
                from@,
            ) ==> r == transfer_outcome(old(self)@, from@, to@, amount),
            r is Ok ==> final(self)@ == after_transfer(old(self)@, from@, to@, amount),
            r is Err ==> final(self)@ == old(self)@,
    {
        let signer = create_program_address(signer_seeds, &self.program);
        match signer {
            Ok(a) => {
                if !a.equals(from) {
                    return Err(VaultError::Unauthorized);
                }
            },
            Err(_) => {
                return Err(VaultError::Unauthorized);
            },
        }
        self.transfer(from, to, amount)
    }
}

/// The result that a transfer of `amount` from `from` to `to` has on `m`.
pub open spec fn transfer_outcome(m: Map<Seq<u8>, Entry>, from: Seq<u8>, to: Seq<u8>, amount: u64) -> Result<
    (),
    VaultError,
> {
    if balance_in(m, from) < amount {
        Err(VaultError::InsufficientFunds)
    } else if from != to && balance_in(m, to) + amount > u64::MAX {
        Err(VaultError::BalanceOverflow)
    } else {
        Ok(())
    }
}

/// The ledger after a transfer that succeeded: `amount` leaves `from` and
/// reaches `to`; records stay where they are.
pub open spec fn after_transfer(m: Map<Seq<u8>, Entry>, from: Seq<u8>, to: Seq<u8>, amount: u64) -> Map<
    Seq<u8>,
    Entry,
> {
    if from == to {
        m
    } else {
        m.insert(from, ((balance_in(m, from) - amount) as u64, record_in(m, from))).insert(
            to,
            ((balance_in(m, to) + amount) as u64, record_in(m, to)),
        )
    }
}

} // verus!
