use vstd::prelude::*;
use crate::error::ErrorCode;
use crate::identity::Identity;
use crate::record::{Record, UserMetadata};

verus! {

/// A record and the address at which it is kept.
#[derive(Debug)]
struct Account {
    key: Identity,
    data: UserMetadata,
}

/// The records, each kept at an address of its own.
#[derive(Debug)]
pub struct RecordStore {
    accounts: Vec<Account>,
}

/// Whether one of the accounts is kept at `address`.
spec fn holds(accounts: Seq<Account>, address: Seq<u8>) -> bool {
    exists|i: int| 0 <= i < accounts.len() && #[trigger] accounts[i].key@ == address
}

/// The place of the account kept at `address`.
spec fn slot(accounts: Seq<Account>, address: Seq<u8>) -> int {
    choose|i: int| 0 <= i < accounts.len() && #[trigger] accounts[i].key@ == address
}

/// No two of the accounts are kept at one address.
spec fn distinct(accounts: Seq<Account>) -> bool {
    forall|i: int, j: int|
        0 <= i < j < accounts.len() ==> #[trigger] accounts[i].key@ != #[trigger] accounts[j].key@
}

/// The accounts as a map from addresses to records.
spec fn contents(accounts: Seq<Account>) -> Map<Seq<u8>, Record> {
    Map::new(
        |address: Seq<u8>| holds(accounts, address),
        |address: Seq<u8>| accounts[slot(accounts, address)].data@,
    )
}

/// Among distinct accounts each is found at its own place.
proof fn lemma_slot(accounts: Seq<Account>, i: int)
    requires
        distinct(accounts),
        0 <= i < accounts.len(),
    ensures
        holds(accounts, accounts[i].key@),
        slot(accounts, accounts[i].key@) == i,
{
    let found = slot(accounts, accounts[i].key@);
    assert(0 <= found < accounts.len() && accounts[found].key@ == accounts[i].key@);
}

/// One more account at a free address adds one entry to the map.
proof fn lemma_contents_push(accounts: Seq<Account>, account: Account)
    requires
        distinct(accounts),
        !holds(accounts, account.key@),
    ensures
        distinct(accounts.push(account)),
        contents(accounts.push(account)) == contents(accounts).insert(account.key@, account.data@),
{
    let after = accounts.push(account);
    assert forall|i: int, j: int| 0 <= i < j < after.len() implies #[trigger] after[i].key@
        != #[trigger] after[j].key@ by {
        if j == accounts.len() {
            assert(accounts[i].key@ != account.key@);
        } else {
            assert(accounts[i].key@ != accounts[j].key@);
        }
    }
    assert forall|address: Seq<u8>|
        holds(after, address) <==> (holds(accounts, address) || address == account.key@) by {
        if holds(after, address) {
            let i = slot(after, address);
            if i < accounts.len() {
                assert(accounts[i].key@ == address);
            }
        }
        if holds(accounts, address) {
            let i = slot(accounts, address);
            assert(after[i].key@ == address);
        }
        if address == account.key@ {
            assert(after[accounts.len() as int].key@ == address);
        }
    }
    assert forall|address: Seq<u8>| holds(after, address) implies #[trigger] contents(after)[address]
        == contents(accounts).insert(account.key@, account.data@)[address] by {
        let i = slot(after, address);
        lemma_slot(after, i);
        if i < accounts.len() {
            assert(accounts[i].key@ == address);
            lemma_slot(accounts, i);
        }
    }
    assert(contents(after) =~= contents(accounts).insert(account.key@, account.data@));
}

/// A new record in the place of an account's record changes that entry of the map.
proof fn lemma_contents_update(accounts: Seq<Account>, i: int, account: Account)
    requires
        distinct(accounts),
        0 <= i < accounts.len(),
        account.key@ == accounts[i].key@,
    ensures
        distinct(accounts.update(i, account)),
        contents(accounts.update(i, account)) == contents(accounts).insert(
            account.key@,
            account.data@,
        ),
{
    let after = accounts.update(i, account);
    assert forall|a: int, b: int| 0 <= a < b < after.len() implies #[trigger] after[a].key@
        != #[trigger] after[b].key@ by {
        assert(accounts[a].key@ != accounts[b].key@);
    }
    assert forall|address: Seq<u8>| holds(after, address) <==> holds(accounts, address) by {
        if holds(after, address) {
            let j = slot(after, address);
            assert(accounts[j].key@ == address);
        }
        if holds(accounts, address) {
            let j = slot(accounts, address);
            assert(after[j].key@ == address);
        }
    }
    lemma_slot(accounts, i);
    assert forall|address: Seq<u8>| holds(after, address) implies #[trigger] contents(after)[address]
        == contents(accounts).insert(account.key@, account.data@)[address] by {
        let j = slot(after, address);
        lemma_slot(after, j);
        assert(accounts[j].key@ == address);
        lemma_slot(accounts, j);
    }
    assert(contents(after) =~= contents(accounts).insert(account.key@, account.data@));
}

impl View for RecordStore {
    type V = Map<Seq<u8>, Record>;

    closed spec fn view(&self) -> Map<Seq<u8>, Record> {
        contents(self.accounts@)
    }
}

impl RecordStore {
    /// The store keeps at most one record at each address.
    pub closed spec fn wf(&self) -> bool {
        distinct(self.accounts@)
    }

    /// A store without records.
    pub fn new() -> (r: RecordStore)
        ensures
            r.wf(),
            r@ == Map::<Seq<u8>, Record>::empty(),
    {
        let r = RecordStore { accounts: Vec::new() };
        assert(r@ =~= Map::<Seq<u8>, Record>::empty());
        r
    }

    /// The place of the account kept at `address`.
    fn position(&self, address: &Identity) -> (r: Option<usize>)
        requires
            self.wf(),
        ensures
            match r {
                Some(i) => i < self.accounts@.len() && self.accounts@[i as int].key@ == address@
                    && holds(self.accounts@, address@) && slot(self.accounts@, address@) == i,
                None => !holds(self.accounts@, address@),
            },
    {
        let mut i: usize = 0;
        while i < self.accounts.len()
            invariant
                self.wf(),
                i <= self.accounts@.len(),
                forall|j: int| 0 <= j < i ==> self.accounts@[j].key@ != address@,
            decreases self.accounts.len() - i,
        {
            if self.accounts[i].key.same(address) {
                proof {
                    lemma_slot(self.accounts@, i as int);
                }
                return Some(i);
            }
            i += 1;
        }
        None
    }

    /// Whether a record is kept at `address`.
    pub fn contains(&self, address: &Identity) -> (r: bool)
        requires
            self.wf(),
        ensures
            r == self@.contains_key(address@),
    {
        self.position(address).is_some()
    }

    /// The record kept at `address`, if there is one.
    pub fn get(&self, address: &Identity) -> (r: Option<&UserMetadata>)
        requires
            self.wf(),
        ensures
            match r {
                Some(record) => self@.contains_key(address@) && self@[address@] == record@,
                None => !self@.contains_key(address@),
            },
    {
        match self.position(address) {
            Some(i) => Some(&self.accounts[i].data),
            None => None,
        }
    }

    /// Keeps `record` at `address` if no record is kept there yet; refuses
    /// with `AlreadyExists`, and changes nothing, if one is.
    pub fn create(&mut self, address: Identity, record: UserMetadata) -> (r: Result<(), ErrorCode>)
        requires
            old(self).wf(),
        ensures
            final(self).wf(),
            match r {
                Ok(()) => !old(self)@.contains_key(address@) && final(self)@ == old(self)@.insert(
                    address@,
                    record@,
                ),
                Err(e) => e == ErrorCode::AlreadyExists && old(self)@.contains_key(address@)
                    && final(self)@ == old(self)@,
            },
    {
        if self.position(&address).is_some() {
            return Err(ErrorCode::AlreadyExists);
        }
        let account = Account { key: address, data: record };
        proof {
            lemma_contents_push(self.accounts@, account);
        }
        self.accounts.push(account);
        Ok(())
    }

    /// Puts `record` in the place of the record kept at `address`. Where no
    /// record is kept there, nothing changes and `false` is returned.
    pub fn write(&mut self, address: &Identity, record: UserMetadata) -> (written: bool)
        requires
            old(self).wf(),
        ensures
            final(self).wf(),
            written == old(self)@.contains_key(address@),
            final(self)@ == if written {
                old(self)@.insert(address@, record@)
            } else {
                old(self)@
            },
    {
        match self.position(address) {
            Some(i) => {
                let account = Account { key: *address, data: record };
                proof {
                    lemma_contents_update(self.accounts@, i as int, account);
                }
                self.accounts.set(i, account);
                true
            },
            None => false,
        }
    }

    /// The number of records kept.
    pub fn len(&self) -> (r: usize)
        requires
            self.wf(),
        ensures
            r == self@.dom().len(),
            self@.dom().finite(),
    {
        proof {
            lemma_contents_count(self.accounts@);
        }
        self.accounts.len()
    }
}

/// Distinct accounts make a map with as many entries as there are accounts.
proof fn lemma_contents_count(accounts: Seq<Account>)
    requires
        distinct(accounts),
    ensures
        contents(accounts).dom().finite(),
        contents(accounts).dom().len() == accounts.len(),
    decreases accounts.len(),
{
    if accounts.len() == 0 {
        assert(contents(accounts).dom() =~= Set::<Seq<u8>>::empty());
    } else {
        let front = accounts.drop_last();
        let last = accounts.last();
        assert forall|i: int, j: int| 0 <= i < j < front.len() implies #[trigger] front[i].key@
            != #[trigger] front[j].key@ by {
            assert(accounts[i].key@ != accounts[j].key@);
        }
        lemma_contents_count(front);
        if holds(front, last.key@) {
            let i = slot(front, last.key@);
            assert(accounts[i].key@ != accounts[accounts.len() - 1].key@);
        }
        lemma_contents_push(front, last);
        assert(front.push(last) =~= accounts);
        assert(contents(accounts).dom() =~= contents(front).dom().insert(last.key@));
    }
}

} // verus!
