//! Account settings (without passwords) kept in `accounts.toml`, the source of
//! truth; the database `accounts` table follows it.
//!
//! Entries are matched to existing accounts by name: a match keeps its id (so
//! the keyring entry, the messages and the Maildir files stay attached) and
//! gets the file's connection settings; an entry without a match becomes a new
//! account. Accounts missing from the file are never removed here: removing an
//! account removes its mail, which is done only on explicit request.

use vstd::prelude::*;

use crate::db::accounts::Account;
use crate::text::str_eq;

verus! {

#[derive(Debug, Clone, PartialEq, Eq)]
pub struct AccountConfig {
    pub name: String,
    pub host: String,
    pub port: u16,
    pub username: String,
    /// Must be chosen explicitly: it has no default.
    pub use_tls: bool,
}

#[derive(Debug, Clone, PartialEq, Eq)]
pub struct AccountsFile {
    pub accounts: Vec<AccountConfig>,
}

impl AccountsFile {
    /// A file with no accounts, what a missing file stands for.
    pub fn empty() -> (file: AccountsFile)
        ensures
            file.accounts@.len() == 0,
    {
        AccountsFile { accounts: Vec::new() }
    }
}

/// The entries without those named `name`, the others in their order.
pub open spec fn spec_without_entry(entries: Seq<AccountConfig>, name: Seq<char>) -> Seq<AccountConfig>
    decreases entries.len(),
{
    if entries.len() == 0 {
        Seq::empty()
    } else {
        let rest = spec_without_entry(entries.drop_last(), name);
        if entries.last().name@ == name {
            rest
        } else {
            rest.push(entries.last())
        }
    }
}

/// No entry of `spec_without_entry` has the removed name, so reconciling the
/// file afterwards does not bring the removed account back.
pub proof fn lemma_removed_entry_is_gone(entries: Seq<AccountConfig>, name: Seq<char>, k: int)
    requires
        0 <= k < spec_without_entry(entries, name).len(),
    ensures
        spec_without_entry(entries, name)[k].name@ != name,
        spec_without_entry(entries, name).len() <= entries.len(),
    decreases entries.len(),
{
    let rest = spec_without_entry(entries.drop_last(), name);
    if k < rest.len() {
        lemma_removed_entry_is_gone(entries.drop_last(), name, k);
    } else if entries.len() > 0 {
        if rest.len() > 0 {
            lemma_removed_entry_is_gone(entries.drop_last(), name, 0);
        }
    }
}

impl AccountsFile {
    /// The file without the entries named `name` (the account being removed);
    /// the other entries stay, in order.
    pub fn without_entry(&self, name: &str) -> (file: AccountsFile)
        ensures
            file.accounts@ == spec_without_entry(self.accounts@, name@),
    {
        let mut out: Vec<AccountConfig> = Vec::new();
        let mut i: usize = 0;
        while i < self.accounts.len()
            invariant
                i <= self.accounts@.len(),
                out@ == spec_without_entry(self.accounts@.subrange(0, i as int), name@),
            decreases self.accounts@.len() - i,
        {
            proof {
                assert(self.accounts@.subrange(0, i + 1).drop_last() =~= self.accounts@.subrange(0, i as int));
            }
            let e = &self.accounts[i];
            if !str_eq(e.name.as_str(), name) {
                out.push(AccountConfig {
                    name: e.name.clone(),
                    host: e.host.clone(),
                    port: e.port,
                    username: e.username.clone(),
                    use_tls: e.use_tls,
                });
            }
            i = i + 1;
        }
        proof {
            assert(self.accounts@.subrange(0, self.accounts@.len() as int) =~= self.accounts@);
        }
        AccountsFile { accounts: out }
    }
}

#[derive(Debug, Clone, PartialEq, Eq)]
pub enum AccountConfigError {
    Io(String),
    Parse { path: String, message: String },
    Serialize(String),
    Db(String),
    DuplicateName(String),
}

/// What becomes of one entry of the file, in the database.
#[derive(Debug, Clone, Copy, PartialEq, Eq, Structural)]
pub enum ReconcileStep {
    /// The account `id` already has the entry's name: give it the entry's
    /// host, port, user name and TLS choice, and keep its id.
    Update { id: i64, entry: usize },
    /// No account has the entry's name: insert a new one.
    Insert { entry: usize },
}

/// Entry `j` has the name of an earlier entry.
pub open spec fn spec_repeats_earlier_name(entries: Seq<AccountConfig>, j: int) -> bool {
    exists|i: int| 0 <= i < j && #[trigger] entries[i].name@ == entries[j].name@
}

/// Entry `j` is the first entry that repeats an earlier name.
pub open spec fn spec_is_first_duplicate(entries: Seq<AccountConfig>, j: int) -> bool {
    &&& 0 <= j < entries.len()
    &&& spec_repeats_earlier_name(entries, j)
    &&& forall|k: int| 0 <= k < j ==> !spec_repeats_earlier_name(entries, k)
}

pub open spec fn spec_has_duplicate_name(entries: Seq<AccountConfig>) -> bool {
    exists|j: int| 0 <= j < entries.len() && spec_repeats_earlier_name(entries, j)
}

/// The first existing account with the entry's name, if any.
pub open spec fn spec_match(existing: Seq<Account>, name: Seq<char>) -> Option<int>
    decreases existing.len(),
{
    if existing.len() == 0 {
        None
    } else {
        match spec_match(existing.drop_last(), name) {
            Some(k) => Some(k),
            None => if existing.last().name@ == name {
                Some(existing.len() - 1)
            } else {
                None
            },
        }
    }
}

/// The step for entry `j`, given the accounts that exist.
pub open spec fn spec_step_for(entries: Seq<AccountConfig>, existing: Seq<Account>, j: int) -> ReconcileStep {
    match spec_match(existing, entries[j].name@) {
        Some(k) => ReconcileStep::Update { id: existing[k].id, entry: j as usize },
        None => ReconcileStep::Insert { entry: j as usize },
    }
}

/// `spec_match` finds the first account with the name, or says there is none.
pub proof fn lemma_match(existing: Seq<Account>, name: Seq<char>)
    ensures
        spec_match(existing, name) matches Some(k) ==> 0 <= k < existing.len()
            && existing[k].name@ == name && forall|m: int|
            0 <= m < k ==> existing[m].name@ != name,
        spec_match(existing, name) is None ==> forall|m: int|
            0 <= m < existing.len() ==> existing[m].name@ != name,
    decreases existing.len(),
{
    if existing.len() > 0 {
        let prefix = existing.drop_last();
        lemma_match(prefix, name);
        assert forall|m: int| 0 <= m < prefix.len() implies existing[m] == prefix[m] by {}
    }
}

fn find_by_name(existing: &Vec<Account>, name: &str) -> (r: Option<usize>)
    ensures
        r matches Some(k) ==> k < existing@.len() && spec_match(existing@, name@) == Some(k as int),
        r is None ==> spec_match(existing@, name@) is None,
{
    proof {
        lemma_match(existing@, name@);
    }
    let mut k: usize = 0;
    while k < existing.len()
        invariant
            k <= existing@.len(),
            forall|m: int| 0 <= m < k ==> existing@[m].name@ != name@,
            spec_match(existing@, name@) matches Some(c) ==> 0 <= c < existing@.len()
                && existing@[c].name@ == name@ && forall|m: int|
                0 <= m < c ==> existing@[m].name@ != name@,
            spec_match(existing@, name@) is None ==> forall|m: int|
                0 <= m < existing@.len() ==> existing@[m].name@ != name@,
        decreases existing@.len() - k,
    {
        if str_eq(existing[k].name.as_str(), name) {
            proof {
                if let Some(c) = spec_match(existing@, name@) {
                    if c > k {
                        assert(existing@[k as int].name@ == name@);
                    }
                }
            }
            return Some(k);
        }
        k = k + 1;
    }
    None
}

/// What to do in the database to make it follow the file, one step per entry
/// in the order of the file (see `ReconcileStep`), given the accounts that
/// exist. A name that appears twice in the file is refused with the entry that
/// repeats it first, and then nothing is done.
pub fn reconcile(file: &AccountsFile, existing: &Vec<Account>) -> (result: Result<
    Vec<ReconcileStep>,
    AccountConfigError,
>)
    ensures
        !spec_has_duplicate_name(file.accounts@) <==> result is Ok,
        result matches Err(e) ==> exists|j: int|
            spec_is_first_duplicate(file.accounts@, j) && (e matches AccountConfigError::DuplicateName(
                n,
            ) && n@ == file.accounts@[j].name@),
        result matches Ok(steps) ==> steps@.len() == file.accounts@.len() && forall|j: int|
            0 <= j < steps@.len() ==> #[trigger] steps@[j] == spec_step_for(
                file.accounts@,
                existing@,
                j,
            ),
{
    let mut j: usize = 0;
    while j < file.accounts.len()
        invariant
            j <= file.accounts@.len(),
            forall|k: int| 0 <= k < j ==> !spec_repeats_earlier_name(file.accounts@, k),
        decreases file.accounts@.len() - j,
    {
        let mut i: usize = 0;
        while i < j
            invariant
                i <= j < file.accounts@.len(),
                forall|k: int| 0 <= k < j ==> !spec_repeats_earlier_name(file.accounts@, k),
                forall|m: int| 0 <= m < i ==> file.accounts@[m].name@ != file.accounts@[j as int].name@,
            decreases j - i,
        {
            if str_eq(file.accounts[i].name.as_str(), file.accounts[j].name.as_str()) {
                let name = file.accounts[j].name.clone();
                proof {
                    assert(file.accounts@[i as int].name@ == file.accounts@[j as int].name@);
                    assert(spec_repeats_earlier_name(file.accounts@, j as int));
                    assert(spec_is_first_duplicate(file.accounts@, j as int));
                    assert(spec_has_duplicate_name(file.accounts@));
                }
                return Err(AccountConfigError::DuplicateName(name));
            }
            i = i + 1;
        }
        proof {
            assert(!spec_repeats_earlier_name(file.accounts@, j as int));
        }
        j = j + 1;
    }
    let mut steps: Vec<ReconcileStep> = Vec::new();
    let mut j: usize = 0;
    while j < file.accounts.len()
        invariant
            j <= file.accounts@.len(),
            steps@.len() == j,
            forall|m: int| 0 <= m < j ==> #[trigger] steps@[m] == spec_step_for(
                file.accounts@,
                existing@,
                m,
            ),
        decreases file.accounts@.len() - j,
    {
        let step = match find_by_name(existing, file.accounts[j].name.as_str()) {
            Some(k) => ReconcileStep::Update { id: existing[k].id, entry: j },
            None => ReconcileStep::Insert { entry: j },
        };
        steps.push(step);
        j = j + 1;
    }
    Ok(steps)
}

/// `reconcile` on the file as read: an error reading it is passed on.
pub fn load_and_reconcile(
    loaded: Result<AccountsFile, AccountConfigError>,
    existing: &Vec<Account>,
) -> (result: Result<Vec<ReconcileStep>, AccountConfigError>)
    ensures
        loaded matches Err(e) ==> result == Err::<Vec<ReconcileStep>, AccountConfigError>(e),
        loaded matches Ok(file) ==> (!spec_has_duplicate_name(file.accounts@) <==> result is Ok),
        loaded matches Ok(file) ==> (result matches Ok(steps) ==> steps@.len()
            == file.accounts@.len() && forall|j: int|
            0 <= j < steps@.len() ==> #[trigger] steps@[j] == spec_step_for(
                file.accounts@,
                existing@,
                j,
            )),
{
    match loaded {
        Ok(file) => reconcile(&file, existing),
        Err(e) => Err(e),
    }
}

/// Reconciling never removes an account, and an account whose name is in the
/// file keeps its id: every step either updates an existing account in place
/// or inserts one for an entry whose name no account has.
pub proof fn lemma_reconcile_keeps_accounts(
    entries: Seq<AccountConfig>,
    existing: Seq<Account>,
    j: int,
)
    requires
        0 <= j < entries.len() <= usize::MAX,
    ensures
        spec_step_for(entries, existing, j) matches ReconcileStep::Update { id, entry } ==> entry
            == j && exists|k: int|
            0 <= k < existing.len() && existing[k].id == id && existing[k].name@ == entries[j].name@,
        spec_step_for(entries, existing, j) matches ReconcileStep::Insert { entry } ==> entry == j
            && forall|k: int| 0 <= k < existing.len() ==> existing[k].name@ != entries[j].name@,
{
    lemma_match(existing, entries[j].name@);
}

} // verus!
