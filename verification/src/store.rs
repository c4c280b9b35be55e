//! The credential store: the durable mapping from accounts to registered
//! credentials and to in-flight ceremony state.
//!
//! The store is the single source of truth the orchestrator re-reads on every
//! call.  Every write is individually failable — the store stands for a
//! transactional engine reached over a network — and failures are injected
//! through [`CredentialStore::inject_fault`], so the orchestrator's
//! compensation paths can be exercised and proved.

use vstd::prelude::*;
use crate::model::{
    AccountModel, CeremonyModel, CeremonyKind, CredentialModel, FaultModel, StoreModel,
    account_index, account_id_index, account_for, ceremonies_without, ceremony_for,
    ceremony_index, credential_for, credential_index, credentials_of, fresh_at, has_account,
    has_account_id, has_ceremony, has_credential, lemma_wf_faults_only, matching_credentials,
    no_faults, wf_model,
    with_fault, StoreOp, CEREMONY_TTL_SECS,
};

verus! {

/// One account row.
pub struct Account {
    pub id: u128,
    pub username: String,
    pub email: String,
    pub display_name: String,
}

/// One registered authenticator.
pub struct StoredCredential {
    pub account_id: u128,
    pub credential_id: Vec<u8>,
    pub public_key: Vec<u8>,
    pub signature_counter: u32,
    pub created_at: u64,
}

/// One in-flight ceremony row.
pub struct CeremonyRow {
    pub account_id: u128,
    pub kind: CeremonyKind,
    pub context: Vec<u8>,
    pub created_at: u64,
}

/// Which store writes are due to fail.
struct Faults {
    insert_account: bool,
    insert_ceremony: bool,
    insert_credential: bool,
    update_counter: bool,
    delete_ceremony: bool,
    delete_account: bool,
}

/// The store itself.
pub struct CredentialStore {
    accounts: Vec<Account>,
    credentials: Vec<StoredCredential>,
    ceremonies: Vec<CeremonyRow>,
    faults: Faults,
}

impl View for Account {
    type V = AccountModel;

    open spec fn view(&self) -> AccountModel {
        AccountModel {
            id: self.id,
            username: self.username@,
            email: self.email@,
            display_name: self.display_name@,
        }
    }
}

impl View for StoredCredential {
    type V = CredentialModel;

    open spec fn view(&self) -> CredentialModel {
        CredentialModel {
            account_id: self.account_id,
            credential_id: self.credential_id@,
            public_key: self.public_key@,
            signature_counter: self.signature_counter,
            created_at: self.created_at,
        }
    }
}

impl View for CeremonyRow {
    type V = CeremonyModel;

    open spec fn view(&self) -> CeremonyModel {
        CeremonyModel {
            account_id: self.account_id,
            kind: self.kind,
            context: self.context@,
            created_at: self.created_at,
        }
    }
}

impl View for Faults {
    type V = FaultModel;

    closed spec fn view(&self) -> FaultModel {
        FaultModel {
            insert_account: self.insert_account,
            insert_ceremony: self.insert_ceremony,
            insert_credential: self.insert_credential,
            update_counter: self.update_counter,
            delete_ceremony: self.delete_ceremony,
            delete_account: self.delete_account,
        }
    }
}

impl View for CredentialStore {
    type V = StoreModel;

    closed spec fn view(&self) -> StoreModel {
        StoreModel {
            accounts: self.accounts@.map_values(|a: Account| a@),
            credentials: self.credentials@.map_values(|c: StoredCredential| c@),
            ceremonies: self.ceremonies@.map_values(|c: CeremonyRow| c@),
            faults: self.faults@,
        }
    }
}

// ---------------------------------------------------------------------------
// Small byte-vector helpers
// ---------------------------------------------------------------------------

/// Whether two byte strings hold the same bytes.
fn bytes_eq(a: &Vec<u8>, b: &Vec<u8>) -> (r: bool)
    ensures
        r == (a@ == b@),
{
    if a.len() != b.len() {
        proof {
            assert(a@ != b@);
        }
        return false;
    }
    let n = a.len();
    let mut i: usize = 0;
    while i < n
        invariant
            i <= n,
            n == a@.len() && n == b@.len(),
            forall|k: int| 0 <= k < i ==> a@[k] == b@[k],
        decreases n - i,
    {
        if a[i] != b[i] {
            return false;
        }
        i = i + 1;
    }
    proof {
        assert(a@ =~= b@);
    }
    true
}

/// An owned copy of a byte string.
fn clone_bytes(v: &Vec<u8>) -> (r: Vec<u8>)
    ensures
        r@ == v@,
{
    let r = v.clone();
    proof {
        assert(r@ =~= v@);
    }
    r
}

impl CredentialStore {
    /// The store's invariant; every operation preserves it.
    pub open spec fn wf(&self) -> bool {
        wf_model(self@)
    }

    /// An empty store with no pending faults.
    pub fn new() -> (s: Self)
        ensures
            s.wf(),
            s@.accounts == Seq::<AccountModel>::empty(),
            s@.credentials == Seq::<CredentialModel>::empty(),
            s@.ceremonies == Seq::<CeremonyModel>::empty(),
            s@.faults == no_faults(),
    {
        let s = CredentialStore {
            accounts: Vec::new(),
            credentials: Vec::new(),
            ceremonies: Vec::new(),
            faults: Faults {
                insert_account: false,
                insert_ceremony: false,
                insert_credential: false,
                update_counter: false,
                delete_ceremony: false,
                delete_account: false,
            },
        };
        proof {
            assert(s@.accounts =~= Seq::<AccountModel>::empty());
            assert(s@.credentials =~= Seq::<CredentialModel>::empty());
            assert(s@.ceremonies =~= Seq::<CeremonyModel>::empty());
        }
        s
    }

    /// Arrange for the next write of the given kind to fail, as a transient
    /// storage outage would make it.
    pub fn inject_fault(&mut self, op: StoreOp)
        ensures
            final(self)@ == (StoreModel { faults: with_fault(old(self)@.faults, op), ..old(self)@ }),
            old(self).wf() ==> final(self).wf(),
    {
        match op {
            StoreOp::InsertAccount => {
                self.faults.insert_account = true;
            },
            StoreOp::InsertCeremony => {
                self.faults.insert_ceremony = true;
            },
            StoreOp::InsertCredential => {
                self.faults.insert_credential = true;
            },
            StoreOp::UpdateCounter => {
                self.faults.update_counter = true;
            },
            StoreOp::DeleteCeremony => {
                self.faults.delete_ceremony = true;
            },
            StoreOp::DeleteAccount => {
                self.faults.delete_account = true;
            },
        }
        proof {
            if wf_model(old(self)@) {
                lemma_wf_faults_only(old(self)@, self@.faults);
            }
        }
    }

    /// Let every pending fault pass: the storage engine is healthy again.
    pub fn clear_faults(&mut self)
        ensures
            final(self)@ == (StoreModel { faults: no_faults(), ..old(self)@ }),
            old(self).wf() ==> final(self).wf(),
    {
        self.faults = Faults {
            insert_account: false,
            insert_ceremony: false,
            insert_credential: false,
            update_counter: false,
            delete_ceremony: false,
            delete_account: false,
        };
        proof {
            if wf_model(old(self)@) {
                lemma_wf_faults_only(old(self)@, self@.faults);
            }
        }
    }

    /// How many account rows the store holds.
    pub fn account_count(&self) -> (n: usize)
        ensures
            n == self@.accounts.len(),
    {
        self.accounts.len()
    }

    /// How many ceremony rows the store holds, over all accounts.
    pub fn ceremony_count(&self) -> (n: usize)
        ensures
            n == self@.ceremonies.len(),
    {
        self.ceremonies.len()
    }

    /// The index of the account that owns `username`, if any.
    fn find_account_index(&self, username: &String) -> (r: Option<usize>)
        requires
            self.wf(),
        ensures
            match r {
                Some(i) => has_account(self@, username@) && account_index(self@, username@)
                    == i as int && i < self@.accounts.len(),
                None => !has_account(self@, username@),
            },
    {
        let n = self.accounts.len();
        let mut i: usize = 0;
        while i < n
            invariant
                i <= n,
                n == self@.accounts.len(),
                self.wf(),
                forall|k: int| 0 <= k < i ==> self@.accounts[k].username != username@,
            decreases n - i,
        {
            if self.accounts[i].username == *username {
                proof {
                    assert(self@.accounts[i as int].username == username@);
                    assert(has_account(self@, username@));
                    let j = account_index(self@, username@);
                    assert(0 <= j < self@.accounts.len() && self@.accounts[j].username
                        == username@);
                    if j != i as int {
                        assert(false);
                    }
                }
                return Some(i);
            }
            i = i + 1;
        }
        proof {
            if has_account(self@, username@) {
                let j = account_index(self@, username@);
                assert(self@.accounts[j].username != username@);
            }
        }
        None
    }

    /// Look an account up by its unique username.
    pub fn find_account_by_username(&self, username: &String) -> (r: Option<Account>)
        requires
            self.wf(),
        ensures
            match r {
                Some(a) => has_account(self@, username@) && a@ == account_for(self@, username@),
                None => !has_account(self@, username@),
            },
    {
        match self.find_account_index(username) {
            Some(i) => {
                let a = &self.accounts[i];
                Some(
                    Account {
                        id: a.id,
                        username: a.username.clone(),
                        email: a.email.clone(),
                        display_name: a.display_name.clone(),
                    },
                )
            },
            None => None,
        }
    }

    /// Whether some account already carries this id.
    pub fn account_id_in_use(&self, id: u128) -> (r: bool)
        ensures
            r == has_account_id(self@, id),
    {
        let n = self.accounts.len();
        let mut i: usize = 0;
        while i < n
            invariant
                i <= n,
                n == self@.accounts.len(),
                forall|k: int| 0 <= k < i ==> self@.accounts[k].id != id,
            decreases n - i,
        {
            if self.accounts[i].id == id {
                proof {
                    assert(self@.accounts[i as int].id == id);
                }
                return true;
            }
            i = i + 1;
        }
        proof {
            if has_account_id(self@, id) {
                let j = choose|j: int| 0 <= j < self@.accounts.len() && self@.accounts[j].id == id;
                assert(self@.accounts[j].id != id);
            }
        }
        false
    }

    /// Insert a brand-new account row.
    pub fn insert_account(&mut self, account: Account) -> (r: Result<(), ()>)
        requires
            old(self).wf(),
            !has_account(old(self)@, account.username@),
            !has_account_id(old(self)@, account.id),
        ensures
            final(self).wf(),
            old(self)@.faults.insert_account ==> r is Err && final(self)@ == old(self)@,
            !old(self)@.faults.insert_account ==> r is Ok && final(self)@ == (StoreModel {
                accounts: old(self)@.accounts.push(account@),
                ..old(self)@
            }),
    {
        if self.faults.insert_account {
            return Err(());
        }
        let ghost pre = self@;
        let ghost acct_m = account@;
        self.accounts.push(account);
        proof {
            assert(self@.accounts =~= pre.accounts.push(acct_m));
            assert(self@ == (StoreModel { accounts: pre.accounts.push(acct_m), ..pre }));
            crate::model::lemma_wf_insert_account(pre, acct_m);
        }
        Ok(())
    }

    /// Delete an account row (used only as compensation, on an account that
    /// owns no ceremony and no credential).
    pub fn delete_account(&mut self, id: u128) -> (r: Result<(), ()>)
        requires
            old(self).wf(),
            forall|k: int|
                0 <= k < old(self)@.ceremonies.len() ==> (#[trigger] old(
                    self,
                )@.ceremonies[k]).account_id != id,
            forall|k: int|
                0 <= k < old(self)@.credentials.len() ==> (#[trigger] old(
                    self,
                )@.credentials[k]).account_id != id,
        ensures
            final(self).wf(),
            old(self)@.faults.delete_account ==> r is Err && final(self)@ == old(self)@,
            !old(self)@.faults.delete_account && has_account_id(old(self)@, id) ==> r is Ok
                && final(self)@ == (StoreModel {
                accounts: old(self)@.accounts.remove(account_id_index(old(self)@, id)),
                ..old(self)@
            }),
            !old(self)@.faults.delete_account && !has_account_id(old(self)@, id) ==> r is Ok
                && final(self)@ == old(self)@,
    {
        if self.faults.delete_account {
            return Err(());
        }
        let ghost pre = self@;
        let n = self.accounts.len();
        let mut i: usize = 0;
        while i < n
            invariant
                i <= n,
                n == self@.accounts.len(),
                self.wf(),
                self@ == old(self)@,
                pre == old(self)@,
                !old(self)@.faults.delete_account,
                forall|k: int|
                    0 <= k < old(self)@.ceremonies.len() ==> (#[trigger] old(
                        self,
                    )@.ceremonies[k]).account_id != id,
                forall|k: int|
                    0 <= k < old(self)@.credentials.len() ==> (#[trigger] old(
                        self,
                    )@.credentials[k]).account_id != id,
                forall|k: int| 0 <= k < i ==> self@.accounts[k].id != id,
            decreases n - i,
        {
            if self.accounts[i].id == id {
                proof {
                    assert(self@.accounts[i as int].id == id);
                    assert(has_account_id(pre, id));
                    let g = account_id_index(pre, id);
                    assert(0 <= g < pre.accounts.len() && pre.accounts[g].id == id);
                    if g != i as int {
                        assert(false);
                    }
                }
                let ghost ov = self.accounts@;
                self.accounts.remove(i);
                proof {
                    ov.remove_ensures(i as int);
                    pre.accounts.remove_ensures(i as int);
                    assert(self.accounts@ == ov.remove(i as int));
                    assert forall|k: int|
                        0 <= k < self@.accounts.len() implies self@.accounts[k]
                        == pre.accounts.remove(i as int)[k] by {
                        if k < i as int {
                            assert(ov.remove(i as int)[k] == ov[k]);
                            assert(pre.accounts.remove(i as int)[k] == pre.accounts[k]);
                        } else {
                            assert(ov.remove(i as int)[k] == ov[k + 1]);
                            assert(pre.accounts.remove(i as int)[k] == pre.accounts[k + 1]);
                        }
                    }
                    assert(self@.accounts =~= pre.accounts.remove(i as int));
                    assert(self@ == (StoreModel {
                        accounts: pre.accounts.remove(i as int),
                        ..pre
                    }));
                    crate::model::lemma_wf_remove_account(pre, i as int);
                }
                return Ok(());
            }
            i = i + 1;
        }
        proof {
            if has_account_id(pre, id) {
                let g = account_id_index(pre, id);
                assert(pre.accounts[g].id != id);
            }
        }
        Ok(())
    }

    /// The index of the account's in-flight ceremony row, if any.
    fn find_ceremony_index(&self, account_id: u128) -> (r: Option<usize>)
        requires
            self.wf(),
        ensures
            match r {
                Some(i) => has_ceremony(self@, account_id) && ceremony_index(self@, account_id)
                    == i as int && i < self@.ceremonies.len(),
                None => !has_ceremony(self@, account_id),
            },
    {
        let n = self.ceremonies.len();
        let mut i: usize = 0;
        while i < n
            invariant
                i <= n,
                n == self@.ceremonies.len(),
                self.wf(),
                forall|k: int| 0 <= k < i ==> self@.ceremonies[k].account_id != account_id,
            decreases n - i,
        {
            if self.ceremonies[i].account_id == account_id {
                proof {
                    assert(self@.ceremonies[i as int].account_id == account_id);
                    assert(has_ceremony(self@, account_id));
                    let g = ceremony_index(self@, account_id);
                    assert(0 <= g < self@.ceremonies.len() && self@.ceremonies[g].account_id
                        == account_id);
                    if g != i as int {
                        assert(false);
                    }
                }
                return Some(i);
            }
            i = i + 1;
        }
        proof {
            if has_ceremony(self@, account_id) {
                let g = ceremony_index(self@, account_id);
                assert(self@.ceremonies[g].account_id != account_id);
            }
        }
        None
    }

    /// Store the account's new ceremony, replacing any prior one in the same
    /// step: issuing a new challenge invalidates the old one.
    pub fn upsert_ceremony(&mut self, row: CeremonyRow) -> (r: Result<(), ()>)
        requires
            old(self).wf(),
            has_account_id(old(self)@, row.account_id),
        ensures
            final(self).wf(),
            old(self)@.faults.insert_ceremony ==> r is Err && final(self)@ == old(self)@,
            !old(self)@.faults.insert_ceremony ==> r is Ok && final(self)@ == (StoreModel {
                ceremonies: ceremonies_without(old(self)@, row.account_id).push(row@),
                ..old(self)@
            }),
    {
        if self.faults.insert_ceremony {
            return Err(());
        }
        let ghost pre = self@;
        let ghost rowm = row@;
        match self.find_ceremony_index(row.account_id) {
            Some(i) => {
                let ghost ov = self.ceremonies@;
                self.ceremonies.remove(i);
                proof {
                    ov.remove_ensures(i as int);
                    pre.ceremonies.remove_ensures(i as int);
                    assert(self.ceremonies@ == ov.remove(i as int));
                    assert forall|k: int|
                        0 <= k < self@.ceremonies.len() implies self@.ceremonies[k]
                        == pre.ceremonies.remove(i as int)[k] by {
                        if k < i as int {
                            assert(ov.remove(i as int)[k] == ov[k]);
                            assert(pre.ceremonies.remove(i as int)[k] == pre.ceremonies[k]);
                        } else {
                            assert(ov.remove(i as int)[k] == ov[k + 1]);
                            assert(pre.ceremonies.remove(i as int)[k] == pre.ceremonies[k + 1]);
                        }
                    }
                    assert(self@.ceremonies =~= pre.ceremonies.remove(i as int));
                    assert(self@.ceremonies == ceremonies_without(pre, rowm.account_id));
                }
            },
            None => {
                proof {
                    assert(self@.ceremonies == ceremonies_without(pre, rowm.account_id));
                }
            },
        }
        let ghost mid = self@;
        self.ceremonies.push(row);
        proof {
            assert(self@.ceremonies =~= mid.ceremonies.push(rowm));
            assert(self@ == (StoreModel {
                ceremonies: ceremonies_without(pre, rowm.account_id).push(rowm),
                ..pre
            }));
            crate::model::lemma_wf_upsert_ceremony(pre, rowm);
        }
        Ok(())
    }

    /// Delete the account's ceremony: it was consumed, or is being discarded.
    pub fn delete_ceremony(&mut self, account_id: u128) -> (r: Result<(), ()>)
        requires
            old(self).wf(),
        ensures
            final(self).wf(),
            old(self)@.faults.delete_ceremony ==> r is Err && final(self)@ == old(self)@,
            !old(self)@.faults.delete_ceremony ==> r is Ok && final(self)@ == (StoreModel {
                ceremonies: ceremonies_without(old(self)@, account_id),
                ..old(self)@
            }),
    {
        if self.faults.delete_ceremony {
            return Err(());
        }
        let ghost pre = self@;
        match self.find_ceremony_index(account_id) {
            Some(i) => {
                let ghost ov = self.ceremonies@;
                self.ceremonies.remove(i);
                proof {
                    ov.remove_ensures(i as int);
                    pre.ceremonies.remove_ensures(i as int);
                    assert(self.ceremonies@ == ov.remove(i as int));
                    assert forall|k: int|
                        0 <= k < self@.ceremonies.len() implies self@.ceremonies[k]
                        == pre.ceremonies.remove(i as int)[k] by {
                        if k < i as int {
                            assert(ov.remove(i as int)[k] == ov[k]);
                            assert(pre.ceremonies.remove(i as int)[k] == pre.ceremonies[k]);
                        } else {
                            assert(ov.remove(i as int)[k] == ov[k + 1]);
                            assert(pre.ceremonies.remove(i as int)[k] == pre.ceremonies[k + 1]);
                        }
                    }
                    assert(self@.ceremonies =~= pre.ceremonies.remove(i as int));
                    assert(self@ == (StoreModel {
                        ceremonies: ceremonies_without(pre, account_id),
                        ..pre
                    }));
                    crate::model::lemma_wf_delete_ceremony(pre, account_id);
                }
            },
            None => {
                proof {
                    assert(self@ == (StoreModel {
                        ceremonies: ceremonies_without(pre, account_id),
                        ..pre
                    }));
                }
            },
        }
        Ok(())
    }

    /// The account's ceremony row, if one exists and is still within its
    /// validity window at `now`.  An expired row is reported as absent:
    /// expiry is enforced at read time.
    pub fn find_active_ceremony(&self, account_id: u128, now: u64) -> (r: Option<CeremonyRow>)
        requires
            self.wf(),
        ensures
            match r {
                Some(c) => has_ceremony(self@, account_id) && c@ == ceremony_for(
                    self@,
                    account_id,
                ) && fresh_at(c@.created_at, now),
                None => !has_ceremony(self@, account_id) || !fresh_at(
                    ceremony_for(self@, account_id).created_at,
                    now,
                ),
            },
    {
        match self.find_ceremony_index(account_id) {
            Some(i) => {
                let c = &self.ceremonies[i];
                if now < c.created_at || now - c.created_at < CEREMONY_TTL_SECS {
                    Some(
                        CeremonyRow {
                            account_id: c.account_id,
                            kind: c.kind,
                            context: clone_bytes(&c.context),
                            created_at: c.created_at,
                        },
                    )
                } else {
                    None
                }
            },
            None => None,
        }
    }

    /// The index of the credential row with this id on this account, if any.
    fn find_credential_index(&self, account_id: u128, credential_id: &Vec<u8>) -> (r: Option<
        usize,
    >)
        requires
            self.wf(),
        ensures
            match r {
                Some(i) => has_credential(self@, account_id, credential_id@) && credential_index(
                    self@,
                    account_id,
                    credential_id@,
                ) == i as int && i < self@.credentials.len(),
                None => !has_credential(self@, account_id, credential_id@),
            },
    {
        let n = self.credentials.len();
        let mut i: usize = 0;
        while i < n
            invariant
                i <= n,
                n == self@.credentials.len(),
                self.wf(),
                forall|k: int|
                    0 <= k < i ==> !(self@.credentials[k].account_id == account_id
                        && self@.credentials[k].credential_id == credential_id@),
            decreases n - i,
        {
            if self.credentials[i].account_id == account_id && bytes_eq(
                &self.credentials[i].credential_id,
                credential_id,
            ) {
                proof {
                    assert(self@.credentials[i as int].account_id == account_id
                        && self@.credentials[i as int].credential_id == credential_id@);
                    assert(has_credential(self@, account_id, credential_id@));
                    let g = credential_index(self@, account_id, credential_id@);
                    assert(0 <= g < self@.credentials.len() && self@.credentials[g].account_id
                        == account_id && self@.credentials[g].credential_id == credential_id@);
                    if g != i as int {
                        assert(false);
                    }
                }
                return Some(i);
            }
            i = i + 1;
        }
        proof {
            if has_credential(self@, account_id, credential_id@) {
                let g = credential_index(self@, account_id, credential_id@);
                assert(!(self@.credentials[g].account_id == account_id
                    && self@.credentials[g].credential_id == credential_id@));
            }
        }
        None
    }

    /// Whether the account already has a credential row with this id.
    pub fn credential_exists(&self, account_id: u128, credential_id: &Vec<u8>) -> (r: bool)
        requires
            self.wf(),
        ensures
            r == has_credential(self@, account_id, credential_id@),
    {
        self.find_credential_index(account_id, credential_id).is_some()
    }

    /// The stored signature counter of the account's credential, if the
    /// credential exists.
    pub fn find_credential_counter(&self, account_id: u128, credential_id: &Vec<u8>) -> (r:
        Option<u32>)
        requires
            self.wf(),
        ensures
            match r {
                Some(c) => has_credential(self@, account_id, credential_id@) && c
                    == credential_for(self@, account_id, credential_id@).signature_counter,
                None => !has_credential(self@, account_id, credential_id@),
            },
    {
        match self.find_credential_index(account_id, credential_id) {
            Some(i) => Some(self.credentials[i].signature_counter),
            None => None,
        }
    }

    /// Insert a newly registered credential row.
    pub fn insert_credential(&mut self, cred: StoredCredential) -> (r: Result<(), ()>)
        requires
            old(self).wf(),
            has_account_id(old(self)@, cred.account_id),
            !has_credential(old(self)@, cred.account_id, cred.credential_id@),
        ensures
            final(self).wf(),
            old(self)@.faults.insert_credential ==> r is Err && final(self)@ == old(self)@,
            !old(self)@.faults.insert_credential ==> r is Ok && final(self)@ == (StoreModel {
                credentials: old(self)@.credentials.push(cred@),
                ..old(self)@
            }),
    {
        if self.faults.insert_credential {
            return Err(());
        }
        let ghost pre = self@;
        let ghost credm = cred@;
        self.credentials.push(cred);
        proof {
            assert(self@.credentials =~= pre.credentials.push(credm));
            assert(self@ == (StoreModel { credentials: pre.credentials.push(credm), ..pre }));
            crate::model::lemma_wf_insert_credential(pre, credm);
        }
        Ok(())
    }

    /// Advance a credential's signature counter to the value a verified
    /// authentication reported.
    pub fn update_credential_counter(
        &mut self,
        account_id: u128,
        credential_id: &Vec<u8>,
        new_counter: u32,
    ) -> (r: Result<(), ()>)
        requires
            old(self).wf(),
            has_credential(old(self)@, account_id, credential_id@),
        ensures
            final(self).wf(),
            old(self)@.faults.update_counter ==> r is Err && final(self)@ == old(self)@,
            !old(self)@.faults.update_counter ==> r is Ok && final(self)@ == (StoreModel {
                credentials: old(self)@.credentials.update(
                    credential_index(old(self)@, account_id, credential_id@),
                    (CredentialModel {
                        signature_counter: new_counter,
                        ..credential_for(old(self)@, account_id, credential_id@)
                    }),
                ),
                ..old(self)@
            }),
    {
        if self.faults.update_counter {
            return Err(());
        }
        let ghost pre = self@;
        match self.find_credential_index(account_id, credential_id) {
            Some(i) => {
                let ghost ov = self.credentials@;
                let mut row = self.credentials.remove(i);
                row.signature_counter = new_counter;
                let ghost rowm = row@;
                self.credentials.insert(i, row);
                proof {
                    ov.remove_ensures(i as int);
                    ov.remove(i as int).insert_ensures(i as int, row);
                    let target = pre.credentials.update(
                        i as int,
                        (CredentialModel { signature_counter: new_counter, ..pre.credentials[i as int] }),
                    );
                    assert forall|k: int|
                        0 <= k < self@.credentials.len() implies self@.credentials[k]
                        == target[k] by {
                        if k < i as int {
                            assert(ov.remove(i as int).insert(i as int, row)[k] == ov.remove(
                                i as int,
                            )[k]);
                            assert(ov.remove(i as int)[k] == ov[k]);
                        } else if k == i as int {
                            assert(ov.remove(i as int).insert(i as int, row)[k] == row);
                        } else {
                            assert(ov.remove(i as int).insert(i as int, row)[k] == ov.remove(
                                i as int,
                            )[k - 1]);
                            assert(ov.remove(i as int)[k - 1] == ov[k]);
                        }
                    }
                    assert(self@.credentials =~= target);
                    assert(self@ == (StoreModel { credentials: target, ..pre }));
                    crate::model::lemma_wf_update_credential(pre, i as int, rowm);
                }
                Ok(())
            },
            None => {
                proof {
                    assert(false);
                }
                Err(())
            },
        }
    }

    /// Every credential registered to the account, for the engine to verify
    /// an authentication response against.
    pub fn find_credentials_by_account(&self, account_id: u128) -> (r: Vec<StoredCredential>)
        requires
            self.wf(),
        ensures
            r@.map_values(|c: StoredCredential| c@) == credentials_of(self@, account_id),
    {
        let n = self.credentials.len();
        let mut out: Vec<StoredCredential> = Vec::new();
        proof {
            assert(out@.map_values(|c: StoredCredential| c@) =~= matching_credentials(
                self@.credentials.take(0),
                account_id,
            )) by {
                assert(self@.credentials.take(0) =~= Seq::<CredentialModel>::empty());
                reveal(Seq::filter);
            }
        }
        let mut i: usize = 0;
        while i < n
            invariant
                i <= n,
                n == self@.credentials.len(),
                out@.map_values(|c: StoredCredential| c@) == matching_credentials(
                    self@.credentials.take(i as int),
                    account_id,
                ),
            decreases n - i,
        {
            let ghost prev_out = out@;
            if self.credentials[i].account_id == account_id {
                let c = &self.credentials[i];
                out.push(
                    StoredCredential {
                        account_id: c.account_id,
                        credential_id: clone_bytes(&c.credential_id),
                        public_key: clone_bytes(&c.public_key),
                        signature_counter: c.signature_counter,
                        created_at: c.created_at,
                    },
                );
                proof {
                    assert(out@.map_values(|c: StoredCredential| c@) =~= prev_out.map_values(
                        |c: StoredCredential| c@,
                    ).push(self@.credentials[i as int]));
                }
            }
            proof {
                self@.credentials.lemma_take_succ_push(i as int);
                crate::model::lemma_matching_credentials_push(
                    self@.credentials.take(i as int),
                    self@.credentials[i as int],
                    account_id,
                );
                assert(out@.map_values(|c: StoredCredential| c@) == matching_credentials(
                    self@.credentials.take(i as int + 1),
                    account_id,
                ));
            }
            i = i + 1;
        }
        proof {
            assert(self@.credentials.take(n as int) =~= self@.credentials);
        }
        out
    }
}

} // verus!
