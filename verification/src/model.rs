//! The mathematical model of the credential store and of every deterministic
//! step the orchestrator takes on it.
//!
//! Each executable operation is specified against these functions: the
//! orchestrator's contracts say that whatever the verification engine decided,
//! the store moved along one of the transitions written here.  The laws in
//! `laws` are proved over the same functions, so they hold of the executable
//! code by composition of contracts.

use vstd::prelude::*;
use crate::errors::AppError;
use crate::text::trimmed;

verus! {

/// How long an issued challenge stays valid, in seconds.
pub const CEREMONY_TTL_SECS: u64 = 300;

/// Which of the two ceremony protocols a stored challenge belongs to.
#[derive(Clone, Copy, PartialEq, Eq, Structural, Debug)]
pub enum CeremonyKind {
    Registration,
    Authentication,
}

/// The individually failable store writes, named for fault injection.
#[derive(Clone, Copy, PartialEq, Eq, Structural, Debug)]
pub enum StoreOp {
    InsertAccount,
    InsertCeremony,
    InsertCredential,
    UpdateCounter,
    DeleteCeremony,
    DeleteAccount,
}

/// One account row: an immutable id, the unique (trimmed) username, and
/// display metadata.
pub ghost struct AccountModel {
    pub id: u128,
    pub username: Seq<char>,
    pub email: Seq<char>,
    pub display_name: Seq<char>,
}

/// One registered authenticator: its opaque credential id (unique per
/// account), serialized public-key material, and the replay-protection
/// counter.
pub ghost struct CredentialModel {
    pub account_id: u128,
    pub credential_id: Seq<u8>,
    pub public_key: Seq<u8>,
    pub signature_counter: u32,
    pub created_at: u64,
}

/// One in-flight challenge: at most one exists per account.
pub ghost struct CeremonyModel {
    pub account_id: u128,
    pub kind: CeremonyKind,
    pub context: Seq<u8>,
    pub created_at: u64,
}

/// Which store writes are due to fail: the store is reachable over a network
/// and every write is individually failable.  The flags are injected by the
/// caller (or by tests) and the transitions read them; they never change by
/// themselves.
pub ghost struct FaultModel {
    pub insert_account: bool,
    pub insert_ceremony: bool,
    pub insert_credential: bool,
    pub update_counter: bool,
    pub delete_ceremony: bool,
    pub delete_account: bool,
}

/// The abstract state of the credential store.
pub ghost struct StoreModel {
    pub accounts: Seq<AccountModel>,
    pub credentials: Seq<CredentialModel>,
    pub ceremonies: Seq<CeremonyModel>,
    pub faults: FaultModel,
}

// ---------------------------------------------------------------------------
// Lookups
// ---------------------------------------------------------------------------

pub open spec fn has_account(s: StoreModel, username: Seq<char>) -> bool {
    exists|i: int| 0 <= i < s.accounts.len() && s.accounts[i].username == username
}

pub open spec fn account_index(s: StoreModel, username: Seq<char>) -> int {
    choose|i: int| 0 <= i < s.accounts.len() && s.accounts[i].username == username
}

/// The account owning `username`; meaningful only under `has_account`.
pub open spec fn account_for(s: StoreModel, username: Seq<char>) -> AccountModel {
    s.accounts[account_index(s, username)]
}

pub open spec fn has_account_id(s: StoreModel, id: u128) -> bool {
    exists|i: int| 0 <= i < s.accounts.len() && s.accounts[i].id == id
}

pub open spec fn account_id_index(s: StoreModel, id: u128) -> int {
    choose|i: int| 0 <= i < s.accounts.len() && s.accounts[i].id == id
}

pub open spec fn has_ceremony(s: StoreModel, account_id: u128) -> bool {
    exists|i: int| 0 <= i < s.ceremonies.len() && s.ceremonies[i].account_id == account_id
}

pub open spec fn ceremony_index(s: StoreModel, account_id: u128) -> int {
    choose|i: int| 0 <= i < s.ceremonies.len() && s.ceremonies[i].account_id == account_id
}

/// The account's in-flight ceremony; meaningful only under `has_ceremony`.
pub open spec fn ceremony_for(s: StoreModel, account_id: u128) -> CeremonyModel {
    s.ceremonies[ceremony_index(s, account_id)]
}

/// The ceremony table with the account's row (if any) taken out.
pub open spec fn ceremonies_without(s: StoreModel, account_id: u128) -> Seq<CeremonyModel> {
    if has_ceremony(s, account_id) {
        s.ceremonies.remove(ceremony_index(s, account_id))
    } else {
        s.ceremonies
    }
}

pub open spec fn has_credential(s: StoreModel, account_id: u128, credential_id: Seq<u8>) -> bool {
    exists|i: int|
        0 <= i < s.credentials.len() && s.credentials[i].account_id == account_id
            && s.credentials[i].credential_id == credential_id
}

pub open spec fn credential_index(s: StoreModel, account_id: u128, credential_id: Seq<u8>) -> int {
    choose|i: int|
        0 <= i < s.credentials.len() && s.credentials[i].account_id == account_id
            && s.credentials[i].credential_id == credential_id
}

/// The credential row; meaningful only under `has_credential`.
pub open spec fn credential_for(s: StoreModel, account_id: u128, credential_id: Seq<u8>) -> CredentialModel {
    s.credentials[credential_index(s, account_id, credential_id)]
}

/// The credentials in `cs` registered to the account, in order.
pub open spec fn matching_credentials(cs: Seq<CredentialModel>, account_id: u128) -> Seq<
    CredentialModel,
> {
    cs.filter(|c: CredentialModel| c.account_id == account_id)
}

/// Every credential registered to the account, in insertion order.
pub open spec fn credentials_of(s: StoreModel, account_id: u128) -> Seq<CredentialModel> {
    matching_credentials(s.credentials, account_id)
}

/// Appending a credential row extends the account's credential list exactly
/// when the row belongs to the account.
pub proof fn lemma_matching_credentials_push(cs: Seq<CredentialModel>, c: CredentialModel, account_id: u128)
    ensures
        matching_credentials(cs.push(c), account_id) == if c.account_id == account_id {
            matching_credentials(cs, account_id).push(c)
        } else {
            matching_credentials(cs, account_id)
        },
{
    broadcast use Seq::lemma_filter_push;

}

/// A table with no row for the account filters to an empty credential list.
pub proof fn lemma_matching_credentials_empty(cs: Seq<CredentialModel>, account_id: u128)
    requires
        forall|k: int| 0 <= k < cs.len() ==> (#[trigger] cs[k]).account_id != account_id,
    ensures
        matching_credentials(cs, account_id).len() == 0,
{
    cs.lemma_all_neg_filter_empty(|c: CredentialModel| c.account_id == account_id);
}

/// Account lookups agree between two stores with the same account table
/// (when that table has unique usernames).
pub proof fn lemma_account_lookup_same(s1: StoreModel, s2: StoreModel, username: Seq<char>)
    requires
        s1.accounts == s2.accounts,
        forall|i: int, j: int|
            0 <= i < j < s1.accounts.len() ==> s1.accounts[i].username != s1.accounts[j].username,
    ensures
        has_account(s1, username) == has_account(s2, username),
        has_account(s1, username) ==> account_for(s1, username) == account_for(s2, username)
            && account_index(s1, username) == account_index(s2, username),
{
    if has_account(s1, username) {
        let i = account_index(s1, username);
        assert(0 <= i < s1.accounts.len() && s1.accounts[i].username == username);
        assert(s2.accounts[i].username == username);
        assert(has_account(s2, username));
        let j = account_index(s2, username);
        assert(0 <= j < s2.accounts.len() && s2.accounts[j].username == username);
        if i != j {
            assert(false);
        }
    }
    if has_account(s2, username) {
        let i = account_index(s2, username);
        assert(s1.accounts[i].username == username);
        assert(has_account(s1, username));
    }
}

/// Ceremony lookups agree between two stores with the same ceremony table
/// (when that table has at most one row per account).
pub proof fn lemma_ceremony_lookup_same(s1: StoreModel, s2: StoreModel, account_id: u128)
    requires
        s1.ceremonies == s2.ceremonies,
        forall|i: int, j: int|
            0 <= i < j < s1.ceremonies.len() ==> s1.ceremonies[i].account_id
                != s1.ceremonies[j].account_id,
    ensures
        has_ceremony(s1, account_id) == has_ceremony(s2, account_id),
        has_ceremony(s1, account_id) ==> ceremony_for(s1, account_id) == ceremony_for(
            s2,
            account_id,
        ),
{
    if has_ceremony(s1, account_id) {
        let i = ceremony_index(s1, account_id);
        assert(0 <= i < s1.ceremonies.len() && s1.ceremonies[i].account_id == account_id);
        assert(s2.ceremonies[i].account_id == account_id);
        assert(has_ceremony(s2, account_id));
        let j = ceremony_index(s2, account_id);
        assert(0 <= j < s2.ceremonies.len() && s2.ceremonies[j].account_id == account_id);
        if i != j {
            assert(false);
        }
    }
    if has_ceremony(s2, account_id) {
        let i = ceremony_index(s2, account_id);
        assert(s1.ceremonies[i].account_id == account_id);
        assert(has_ceremony(s1, account_id));
    }
}

// ---------------------------------------------------------------------------
// Faults
// ---------------------------------------------------------------------------

/// A healthy store: no write is due to fail.
pub open spec fn no_faults() -> FaultModel {
    FaultModel {
        insert_account: false,
        insert_ceremony: false,
        insert_credential: false,
        update_counter: false,
        delete_ceremony: false,
        delete_account: false,
    }
}

/// The fault set with the given write marked as due to fail.
pub open spec fn with_fault(f: FaultModel, op: StoreOp) -> FaultModel {
    match op {
        StoreOp::InsertAccount => FaultModel { insert_account: true, ..f },
        StoreOp::InsertCeremony => FaultModel { insert_ceremony: true, ..f },
        StoreOp::InsertCredential => FaultModel { insert_credential: true, ..f },
        StoreOp::UpdateCounter => FaultModel { update_counter: true, ..f },
        StoreOp::DeleteCeremony => FaultModel { delete_ceremony: true, ..f },
        StoreOp::DeleteAccount => FaultModel { delete_account: true, ..f },
    }
}

// ---------------------------------------------------------------------------
// Well-formedness
// ---------------------------------------------------------------------------

/// The store's invariant: usernames and account ids are unique, each account
/// has at most one in-flight ceremony, credential ids are unique per account,
/// and ceremony and credential rows always point at an existing account.
pub open spec fn wf_model(s: StoreModel) -> bool {
    &&& forall|i: int, j: int|
        0 <= i < j < s.accounts.len() ==> s.accounts[i].username != s.accounts[j].username
    &&& forall|i: int, j: int|
        0 <= i < j < s.accounts.len() ==> s.accounts[i].id != s.accounts[j].id
    &&& forall|i: int, j: int|
        0 <= i < j < s.ceremonies.len() ==> s.ceremonies[i].account_id != s.ceremonies[j].account_id
    &&& forall|i: int|
        0 <= i < s.ceremonies.len() ==> has_account_id(s, #[trigger] s.ceremonies[i].account_id)
    &&& forall|i: int, j: int|
        0 <= i < j < s.credentials.len() ==> !(s.credentials[i].account_id
            == s.credentials[j].account_id && s.credentials[i].credential_id
            == s.credentials[j].credential_id)
    &&& forall|i: int|
        0 <= i < s.credentials.len() ==> has_account_id(s, #[trigger] s.credentials[i].account_id)
}

/// Well-formedness reads only the three tables, never the fault flags.
pub proof fn lemma_wf_faults_only(s: StoreModel, f: FaultModel)
    requires
        wf_model(s),
    ensures
        wf_model(StoreModel { faults: f, ..s }),
{
    let s1 = StoreModel { faults: f, ..s };
    assert forall|i: int|
        0 <= i < s1.ceremonies.len() implies has_account_id(
        s1,
        #[trigger] s1.ceremonies[i].account_id,
    ) by {
        assert(has_account_id(s, s.ceremonies[i].account_id));
        let k = choose|k: int|
            0 <= k < s.accounts.len() && s.accounts[k].id == s.ceremonies[i].account_id;
        assert(s1.accounts[k].id == s1.ceremonies[i].account_id);
    }
    assert forall|i: int|
        0 <= i < s1.credentials.len() implies has_account_id(
        s1,
        #[trigger] s1.credentials[i].account_id,
    ) by {
        assert(has_account_id(s, s.credentials[i].account_id));
        let k = choose|k: int|
            0 <= k < s.accounts.len() && s.accounts[k].id == s.credentials[i].account_id;
        assert(s1.accounts[k].id == s1.credentials[i].account_id);
    }
}

/// Inserting an account with a fresh username and a fresh id preserves the
/// store invariant.
pub proof fn lemma_wf_insert_account(s: StoreModel, acct: AccountModel)
    requires
        wf_model(s),
        !has_account(s, acct.username),
        !has_account_id(s, acct.id),
    ensures
        wf_model(StoreModel { accounts: s.accounts.push(acct), ..s }),
{
    let s1 = StoreModel { accounts: s.accounts.push(acct), ..s };
    assert forall|i: int, j: int|
        0 <= i < j < s1.accounts.len() implies s1.accounts[i].username
        != s1.accounts[j].username by {
        if j == s.accounts.len() {
            assert(!(0 <= i < s.accounts.len() && s.accounts[i].username == acct.username));
        }
    }
    assert forall|i: int, j: int|
        0 <= i < j < s1.accounts.len() implies s1.accounts[i].id != s1.accounts[j].id by {
        if j == s.accounts.len() {
            assert(!(0 <= i < s.accounts.len() && s.accounts[i].id == acct.id));
        }
    }
    assert forall|i: int|
        0 <= i < s1.ceremonies.len() implies has_account_id(
        s1,
        #[trigger] s1.ceremonies[i].account_id,
    ) by {
        assert(has_account_id(s, s.ceremonies[i].account_id));
        let k = choose|k: int|
            0 <= k < s.accounts.len() && s.accounts[k].id == s.ceremonies[i].account_id;
        assert(s1.accounts[k].id == s1.ceremonies[i].account_id);
    }
    assert forall|i: int|
        0 <= i < s1.credentials.len() implies has_account_id(
        s1,
        #[trigger] s1.credentials[i].account_id,
    ) by {
        assert(has_account_id(s, s.credentials[i].account_id));
        let k = choose|k: int|
            0 <= k < s.accounts.len() && s.accounts[k].id == s.credentials[i].account_id;
        assert(s1.accounts[k].id == s1.credentials[i].account_id);
    }
}

/// Removing an account that no ceremony or credential row references
/// preserves the store invariant.
pub proof fn lemma_wf_remove_account(s: StoreModel, i: int)
    requires
        wf_model(s),
        0 <= i < s.accounts.len(),
        forall|k: int|
            0 <= k < s.ceremonies.len() ==> (#[trigger] s.ceremonies[k]).account_id
                != s.accounts[i].id,
        forall|k: int|
            0 <= k < s.credentials.len() ==> (#[trigger] s.credentials[k]).account_id
                != s.accounts[i].id,
    ensures
        wf_model(StoreModel { accounts: s.accounts.remove(i), ..s }),
{
    let s1 = StoreModel { accounts: s.accounts.remove(i), ..s };
    s.accounts.remove_ensures(i);
    assert forall|k: int|
        0 <= k < s1.ceremonies.len() implies has_account_id(
        s1,
        #[trigger] s1.ceremonies[k].account_id,
    ) by {
        assert(has_account_id(s, s.ceremonies[k].account_id));
        let j = choose|j: int|
            0 <= j < s.accounts.len() && s.accounts[j].id == s.ceremonies[k].account_id;
        assert(j != i);
        if j < i {
            assert(s1.accounts[j].id == s.ceremonies[k].account_id);
        } else {
            assert(s1.accounts[j - 1].id == s.ceremonies[k].account_id);
        }
    }
    assert forall|k: int|
        0 <= k < s1.credentials.len() implies has_account_id(
        s1,
        #[trigger] s1.credentials[k].account_id,
    ) by {
        assert(has_account_id(s, s.credentials[k].account_id));
        let j = choose|j: int|
            0 <= j < s.accounts.len() && s.accounts[j].id == s.credentials[k].account_id;
        assert(j != i);
        if j < i {
            assert(s1.accounts[j].id == s.credentials[k].account_id);
        } else {
            assert(s1.accounts[j - 1].id == s.credentials[k].account_id);
        }
    }
}

/// Appending a credential whose id is new for its (existing) account
/// preserves the store invariant.
pub proof fn lemma_wf_insert_credential(s: StoreModel, cred: CredentialModel)
    requires
        wf_model(s),
        has_account_id(s, cred.account_id),
        !has_credential(s, cred.account_id, cred.credential_id),
    ensures
        wf_model(StoreModel { credentials: s.credentials.push(cred), ..s }),
{
    let s1 = StoreModel { credentials: s.credentials.push(cred), ..s };
    assert forall|i: int, j: int|
        0 <= i < j < s1.credentials.len() implies !(s1.credentials[i].account_id
        == s1.credentials[j].account_id && s1.credentials[i].credential_id
        == s1.credentials[j].credential_id) by {
        if j == s.credentials.len() {
            assert(!(0 <= i < s.credentials.len() && s.credentials[i].account_id
                == cred.account_id && s.credentials[i].credential_id == cred.credential_id));
        }
    }
    assert forall|i: int|
        0 <= i < s1.ceremonies.len() implies has_account_id(
        s1,
        #[trigger] s1.ceremonies[i].account_id,
    ) by {
        assert(has_account_id(s, s.ceremonies[i].account_id));
        let k = choose|k: int|
            0 <= k < s.accounts.len() && s.accounts[k].id == s.ceremonies[i].account_id;
        assert(s1.accounts[k].id == s1.ceremonies[i].account_id);
    }
    assert forall|i: int|
        0 <= i < s1.credentials.len() implies has_account_id(
        s1,
        #[trigger] s1.credentials[i].account_id,
    ) by {
        if i < s.credentials.len() {
            assert(has_account_id(s, s.credentials[i].account_id));
            let k = choose|k: int|
                0 <= k < s.accounts.len() && s.accounts[k].id == s.credentials[i].account_id;
            assert(s1.accounts[k].id == s1.credentials[i].account_id);
        } else {
            let k = choose|k: int| 0 <= k < s.accounts.len() && s.accounts[k].id == cred.account_id;
            assert(s1.accounts[k].id == s1.credentials[i].account_id);
        }
    }
}

/// Replacing a credential row by one with the same keys (only its counter
/// moves) preserves the store invariant.
pub proof fn lemma_wf_update_credential(s: StoreModel, i: int, updated: CredentialModel)
    requires
        wf_model(s),
        0 <= i < s.credentials.len(),
        updated.account_id == s.credentials[i].account_id,
        updated.credential_id == s.credentials[i].credential_id,
    ensures
        wf_model(StoreModel { credentials: s.credentials.update(i, updated), ..s }),
{
    let s1 = StoreModel { credentials: s.credentials.update(i, updated), ..s };
    assert forall|k: int|
        0 <= k < s1.ceremonies.len() implies has_account_id(
        s1,
        #[trigger] s1.ceremonies[k].account_id,
    ) by {
        assert(has_account_id(s, s.ceremonies[k].account_id));
        let j = choose|j: int|
            0 <= j < s.accounts.len() && s.accounts[j].id == s.ceremonies[k].account_id;
        assert(s1.accounts[j].id == s1.ceremonies[k].account_id);
    }
    assert forall|k: int|
        0 <= k < s1.credentials.len() implies has_account_id(
        s1,
        #[trigger] s1.credentials[k].account_id,
    ) by {
        assert(s1.credentials[k].account_id == s.credentials[k].account_id);
        assert(has_account_id(s, s.credentials[k].account_id));
        let j = choose|j: int|
            0 <= j < s.accounts.len() && s.accounts[j].id == s.credentials[k].account_id;
        assert(s1.accounts[j].id == s1.credentials[k].account_id);
    }
}

/// No row of the ceremony table with the account's row taken out still
/// belongs to that account, and each row of it sits somewhere in the
/// original table.
pub proof fn lemma_ceremonies_without(s: StoreModel, account_id: u128)
    requires
        wf_model(s),
    ensures
        forall|k: int|
            0 <= k < ceremonies_without(s, account_id).len() ==> (#[trigger] ceremonies_without(
                s,
                account_id,
            )[k]).account_id != account_id,
        forall|k: int|
            0 <= k < ceremonies_without(s, account_id).len() ==> s.ceremonies.contains(
                #[trigger] ceremonies_without(s, account_id)[k],
            ),
        forall|k1: int, k2: int|
            0 <= k1 < k2 < ceremonies_without(s, account_id).len() ==> ceremonies_without(
                s,
                account_id,
            )[k1].account_id != ceremonies_without(s, account_id)[k2].account_id,
{
    let cw = ceremonies_without(s, account_id);
    if has_ceremony(s, account_id) {
        let i = ceremony_index(s, account_id);
        s.ceremonies.remove_ensures(i);
        assert forall|k: int|
            0 <= k < ceremonies_without(s, account_id).len() implies (
        #[trigger] ceremonies_without(s, account_id)[k]).account_id != account_id by {
            if k < i {
                assert(cw[k] == s.ceremonies[k]);
                assert(s.ceremonies[k].account_id != s.ceremonies[i].account_id);
            } else {
                assert(cw[k] == s.ceremonies[k + 1]);
                assert(s.ceremonies[k + 1].account_id != s.ceremonies[i].account_id);
            }
        }
        assert forall|k: int|
            0 <= k < ceremonies_without(s, account_id).len() implies s.ceremonies.contains(
            #[trigger] ceremonies_without(s, account_id)[k],
        ) by {
            if k < i {
                assert(s.ceremonies[k] == cw[k]);
            } else {
                assert(s.ceremonies[k + 1] == cw[k]);
            }
        }
        assert forall|k1: int, k2: int|
            0 <= k1 < k2 < ceremonies_without(s, account_id).len() implies ceremonies_without(
            s,
            account_id,
        )[k1].account_id != ceremonies_without(s, account_id)[k2].account_id by {
            let j1: int = if k1 < i {
                k1
            } else {
                k1 + 1
            };
            let j2: int = if k2 < i {
                k2
            } else {
                k2 + 1
            };
            assert(cw[k1] == s.ceremonies[j1]);
            assert(cw[k2] == s.ceremonies[j2]);
        }
    } else {
        assert forall|k: int|
            0 <= k < ceremonies_without(s, account_id).len() implies (
        #[trigger] ceremonies_without(s, account_id)[k]).account_id != account_id by {
            assert(!(0 <= k < s.ceremonies.len() && s.ceremonies[k].account_id == account_id));
        }
        assert forall|k: int|
            0 <= k < ceremonies_without(s, account_id).len() implies s.ceremonies.contains(
            #[trigger] ceremonies_without(s, account_id)[k],
        ) by {
            assert(s.ceremonies[k] == ceremonies_without(s, account_id)[k]);
        }
    }
}

/// Replacing the account's ceremony (or adding one where none was) preserves
/// the store invariant.
pub proof fn lemma_wf_upsert_ceremony(s: StoreModel, c: CeremonyModel)
    requires
        wf_model(s),
        has_account_id(s, c.account_id),
    ensures
        wf_model(StoreModel { ceremonies: ceremonies_without(s, c.account_id).push(c), ..s }),
{
    lemma_ceremonies_without(s, c.account_id);
    let cw = ceremonies_without(s, c.account_id);
    let s1 = StoreModel { ceremonies: cw.push(c), ..s };
    assert forall|i: int, j: int|
        0 <= i < j < s1.ceremonies.len() implies s1.ceremonies[i].account_id
        != s1.ceremonies[j].account_id by {
        if j < cw.len() {
            assert(cw[i].account_id != cw[j].account_id);
        } else {
            assert(cw[i].account_id != c.account_id);
        }
    }
    assert forall|i: int|
        0 <= i < s1.ceremonies.len() implies has_account_id(
        s1,
        #[trigger] s1.ceremonies[i].account_id,
    ) by {
        if i < cw.len() {
            assert(s.ceremonies.contains(cw[i]));
            let j = choose|j: int| 0 <= j < s.ceremonies.len() && s.ceremonies[j] == cw[i];
            assert(has_account_id(s, s.ceremonies[j].account_id));
            let k = choose|k: int|
                0 <= k < s.accounts.len() && s.accounts[k].id == s.ceremonies[j].account_id;
            assert(s1.accounts[k].id == s1.ceremonies[i].account_id);
        } else {
            let k = choose|k: int| 0 <= k < s.accounts.len() && s.accounts[k].id == c.account_id;
            assert(s1.accounts[k].id == s1.ceremonies[i].account_id);
        }
    }
    assert forall|i: int|
        0 <= i < s1.credentials.len() implies has_account_id(
        s1,
        #[trigger] s1.credentials[i].account_id,
    ) by {
        assert(has_account_id(s, s.credentials[i].account_id));
        let k = choose|k: int|
            0 <= k < s.accounts.len() && s.accounts[k].id == s.credentials[i].account_id;
        assert(s1.accounts[k].id == s1.credentials[i].account_id);
    }
}

/// Consuming or discarding the account's ceremony preserves the store
/// invariant.
pub proof fn lemma_wf_delete_ceremony(s: StoreModel, account_id: u128)
    requires
        wf_model(s),
    ensures
        wf_model(StoreModel { ceremonies: ceremonies_without(s, account_id), ..s }),
{
    lemma_ceremonies_without(s, account_id);
    let cw = ceremonies_without(s, account_id);
    let s1 = StoreModel { ceremonies: cw, ..s };
    assert forall|i: int|
        0 <= i < s1.ceremonies.len() implies has_account_id(
        s1,
        #[trigger] s1.ceremonies[i].account_id,
    ) by {
        assert(s.ceremonies.contains(cw[i]));
        let j = choose|j: int| 0 <= j < s.ceremonies.len() && s.ceremonies[j] == cw[i];
        assert(has_account_id(s, s.ceremonies[j].account_id));
        let k = choose|k: int|
            0 <= k < s.accounts.len() && s.accounts[k].id == s.ceremonies[j].account_id;
        assert(s1.accounts[k].id == s1.ceremonies[i].account_id);
    }
    assert forall|i: int|
        0 <= i < s1.credentials.len() implies has_account_id(
        s1,
        #[trigger] s1.credentials[i].account_id,
    ) by {
        assert(has_account_id(s, s.credentials[i].account_id));
        let k = choose|k: int|
            0 <= k < s.accounts.len() && s.accounts[k].id == s.credentials[i].account_id;
        assert(s1.accounts[k].id == s1.credentials[i].account_id);
    }
}

// ---------------------------------------------------------------------------
// The validity window
// ---------------------------------------------------------------------------

/// Whether a ceremony created at `created_at` is still within its validity
/// window at `now`.  At exactly the window's edge the ceremony has expired.
pub open spec fn fresh_at(created_at: u64, now: u64) -> bool {
    created_at + CEREMONY_TTL_SECS > now
}

// ---------------------------------------------------------------------------
// Deterministic transition steps
// ---------------------------------------------------------------------------

/// The error a `complete_*` call reports when the ceremony is missing,
/// expired, or of the other kind.  The class never distinguishes "never
/// began" from "expired", so a caller cannot probe ceremony state.
pub open spec fn missing_ceremony_error(kind: CeremonyKind) -> AppError {
    match kind {
        CeremonyKind::Registration => AppError::NotFound,
        CeremonyKind::Authentication => AppError::BadRequest,
    }
}

/// The checks `begin_registration` makes before it touches the engine or the
/// store: the username must be non-empty after trimming and not yet taken.
pub open spec fn begin_registration_gate(s: StoreModel, raw_username: Seq<char>) -> Option<
    AppError,
> {
    if trimmed(raw_username).len() == 0 {
        Some(AppError::BadRequest)
    } else if has_account(s, trimmed(raw_username)) {
        Some(AppError::Conflict)
    } else {
        None
    }
}

/// Persisting a fresh account together with its registration ceremony, as one
/// logical unit.  If the ceremony write fails after the account write, the
/// account is deleted again (compensation), so no orphan identity survives a
/// failed ceremony start; only when that compensating delete itself fails
/// does the orphan remain.
pub open spec fn record_registration_start(
    s: StoreModel,
    acct: AccountModel,
    context: Seq<u8>,
    now: u64,
) -> (StoreModel, Result<(), AppError>) {
    if s.faults.insert_account {
        (s, Err(AppError::Internal))
    } else if s.faults.insert_ceremony {
        if s.faults.delete_account {
            (StoreModel { accounts: s.accounts.push(acct), ..s }, Err(AppError::Internal))
        } else {
            (s, Err(AppError::Internal))
        }
    } else {
        (
            StoreModel {
                accounts: s.accounts.push(acct),
                ceremonies: s.ceremonies.push(
                    CeremonyModel {
                        account_id: acct.id,
                        kind: CeremonyKind::Registration,
                        context,
                        created_at: now,
                    },
                ),
                ..s
            },
            Ok(()),
        )
    }
}

/// [`record_registration_start`] with the account row spelled out field by
/// field: the shape `begin_registration`'s contract quantifies over.
pub open spec fn started_registration(
    s: StoreModel,
    username: Seq<char>,
    email: Seq<char>,
    display_name: Seq<char>,
    id: u128,
    context: Seq<u8>,
    now: u64,
) -> (StoreModel, Result<(), AppError>) {
    record_registration_start(
        s,
        AccountModel { id, username, email, display_name },
        context,
        now,
    )
}

/// What a `complete_*` call finds when it reads the account's ceremony at
/// `now`: the ceremony, or the kind's missing-ceremony error when the account
/// is unknown or the ceremony is absent, expired, or of the other kind.
pub open spec fn lookup_ceremony(
    s: StoreModel,
    username: Seq<char>,
    kind: CeremonyKind,
    now: u64,
) -> Result<CeremonyModel, AppError> {
    if !has_account(s, username) {
        Err(missing_ceremony_error(kind))
    } else {
        let acct = account_for(s, username);
        if !has_ceremony(s, acct.id) {
            Err(missing_ceremony_error(kind))
        } else {
            let c = ceremony_for(s, acct.id);
            if c.kind == kind && fresh_at(c.created_at, now) {
                Ok(c)
            } else {
                Err(missing_ceremony_error(kind))
            }
        }
    }
}

/// Persisting the credential a verified registration produced and consuming
/// the ceremony.  A credential id already registered to the account is
/// refused; if the credential write fails the ceremony is kept (the caller
/// may retry against the still-valid challenge); if only the consuming delete
/// fails the registration still succeeds and the stale ceremony ages out.
pub open spec fn record_registration_finish(
    s: StoreModel,
    account_id: u128,
    credential_id: Seq<u8>,
    public_key: Seq<u8>,
    now: u64,
) -> (StoreModel, Result<(), AppError>) {
    if has_credential(s, account_id, credential_id) {
        (s, Err(AppError::ProtocolFailure))
    } else if s.faults.insert_credential {
        (s, Err(AppError::Internal))
    } else {
        let s1 = StoreModel {
            credentials: s.credentials.push(
                CredentialModel {
                    account_id,
                    credential_id,
                    public_key,
                    signature_counter: 0,
                    created_at: now,
                },
            ),
            ..s
        };
        if s.faults.delete_ceremony {
            (s1, Ok(()))
        } else {
            (StoreModel { ceremonies: ceremonies_without(s1, account_id), ..s1 }, Ok(()))
        }
    }
}

/// The checks `begin_authentication` makes before it touches the engine: the
/// username must be non-empty after trimming, the account must exist, and it
/// must have at least one registered credential to verify against.
pub open spec fn begin_authentication_gate(s: StoreModel, raw_username: Seq<char>) -> Option<
    AppError,
> {
    if trimmed(raw_username).len() == 0 {
        Some(AppError::BadRequest)
    } else if !has_account(s, trimmed(raw_username)) {
        Some(AppError::NotFound)
    } else if credentials_of(s, account_for(s, trimmed(raw_username)).id).len() == 0 {
        Some(AppError::BadRequest)
    } else {
        None
    }
}

/// Persisting a fresh authentication ceremony.  Any prior ceremony for the
/// account is replaced in the same step: beginning a new ceremony invalidates
/// the old challenge, so at most the single most recent challenge can ever
/// complete.
pub open spec fn record_authentication_start(
    s: StoreModel,
    account_id: u128,
    context: Seq<u8>,
    now: u64,
) -> (StoreModel, Result<(), AppError>) {
    if s.faults.insert_ceremony {
        (s, Err(AppError::Internal))
    } else {
        (
            StoreModel {
                ceremonies: ceremonies_without(s, account_id).push(
                    CeremonyModel {
                        account_id,
                        kind: CeremonyKind::Authentication,
                        context,
                        created_at: now,
                    },
                ),
                ..s
            },
            Ok(()),
        )
    }
}

/// Applying the engine's verdict on an authentication response: the reported
/// credential must be one of the account's, its reported signature counter
/// must be strictly greater than the stored one (a stale or replayed counter
/// may mean a cloned authenticator), and on success the counter advances and
/// the ceremony is consumed.  Every failure leaves the store untouched; a
/// failure of only the consuming delete is non-fatal.
pub open spec fn apply_authentication(
    s: StoreModel,
    username: Seq<char>,
    credential_id: Seq<u8>,
    reported_counter: u32,
    now: u64,
) -> (StoreModel, Result<AccountModel, AppError>) {
    let acct = account_for(s, username);
    if !has_credential(s, acct.id, credential_id) {
        (s, Err(AppError::ProtocolFailure))
    } else if reported_counter <= credential_for(s, acct.id, credential_id).signature_counter {
        (s, Err(AppError::ProtocolFailure))
    } else if s.faults.update_counter {
        (s, Err(AppError::Internal))
    } else {
        let idx = credential_index(s, acct.id, credential_id);
        let updated = CredentialModel {
            signature_counter: reported_counter,
            ..credential_for(s, acct.id, credential_id)
        };
        let s1 = StoreModel { credentials: s.credentials.update(idx, updated), ..s };
        if s.faults.delete_ceremony {
            (s1, Ok(acct))
        } else {
            (StoreModel { ceremonies: ceremonies_without(s1, acct.id), ..s1 }, Ok(acct))
        }
    }
}

} // verus!
