use std::sync::Arc;

use dashmap::mapref::entry::Entry;
use dashmap::DashMap;
use vstd::prelude::*;

use crate::error::MirrorError;
use crate::package::ProviderPackage;

verus! {

#[verifier::external_type_specification]
#[verifier::external_body]
#[verifier::reject_recursive_types(K)]
#[verifier::reject_recursive_types(V)]
#[verifier::reject_recursive_types(S)]
pub struct ExDashMap<K, V, S>(DashMap<K, V, S>);

/// The state of one cache key: its archive is being fetched, or it is cached at
/// `uri`. A key with no entry has never been fetched, or its last fetch failed.
#[derive(Debug)]
pub enum PackageStatus {
    Downloading,
    Ready(String),
}

impl PackageStatus {
    /// A copy of the status.
    pub fn snapshot(&self) -> (r: Self)
        ensures
            r == *self,
    {
        match self {
            PackageStatus::Downloading => PackageStatus::Downloading,
            PackageStatus::Ready(uri) => PackageStatus::Ready(uri.clone()),
        }
    }
}

/// The right, and the duty, to finish the fetch of one package: handed out only
/// to the caller whose claim found the package's entry vacant, and used up by
/// `complete`. Nobody else can settle the entry.
pub struct Claim {
    package: ProviderPackage,
}

impl Claim {
    /// The package whose fetch this claim owes.
    pub closed spec fn package_of(&self) -> ProviderPackage {
        self.package
    }

    pub fn package(&self) -> (r: &ProviderPackage)
        ensures
            *r == self.package_of(),
    {
        &self.package
    }
}

/// What a lookup of a cache key hands back.
pub struct Retrieval {
    /// The cached location, when the key is ready.
    pub uri: Option<String>,
    /// The claim of the key, when this lookup found no entry and won it; its
    /// holder owes the fetch.
    pub claim: Option<Claim>,
}

/// What a lookup decides from the entry it read: the location to hand back, and
/// whether the key is to be claimed.
pub struct RetrievalPlan {
    pub uri: Option<String>,
    pub claim: bool,
}

/// The cached location an entry holds, if it is ready.
pub open spec fn ready_uri(entry: Option<PackageStatus>) -> Option<Seq<char>> {
    match entry {
        Some(PackageStatus::Ready(uri)) => Some(uri@),
        _ => None,
    }
}

pub open spec fn is_ready_entry(entry: Option<PackageStatus>) -> bool {
    entry matches Some(PackageStatus::Ready(_))
}

/// A claim of a key: it succeeds exactly on a vacant entry, which then turns to
/// `Downloading`; an occupied entry stays as it is.
pub open spec fn claim_next(entry: Option<PackageStatus>) -> (Option<PackageStatus>, bool) {
    match entry {
        None => (Some(PackageStatus::Downloading), true),
        Some(s) => (Some(s), false),
    }
}

/// The entry that the end of a fetch leaves: the fetched location, or no entry at
/// all after a failure, so that a later request fetches again.
pub open spec fn settle_next(outcome: Result<String, MirrorError>) -> Option<PackageStatus> {
    match outcome {
        Ok(uri) => Some(PackageStatus::Ready(uri)),
        Err(_) => None,
    }
}

/// A retrieval on an entry: the entry afterwards, the location handed back, and
/// whether a fetch was claimed.
pub open spec fn retrieve_next(entry: Option<PackageStatus>) -> (
    Option<PackageStatus>,
    Option<Seq<char>>,
    bool,
) {
    if entry is None {
        let (next, won) = claim_next(entry);
        (next, None, won)
    } else {
        (entry, ready_uri(entry), false)
    }
}

/// A call on one cache key.
pub ghost enum KeyCall {
    Store,
    Retrieve,
    /// The end of a fetch, reported by the holder of a claim.
    Complete(Result<String, MirrorError>),
}

/// One call on an entry while `held` claims of it are outstanding: the entry
/// afterwards, the claims outstanding afterwards, and whether the call won a
/// claim. A completion needs a claim to hand in; without one there is nothing
/// to call `complete` with, and the entry is left alone.
pub open spec fn call_next(entry: Option<PackageStatus>, held: nat, call: KeyCall) -> (
    Option<PackageStatus>,
    nat,
    bool,
) {
    match call {
        KeyCall::Store => {
            let (next, won) = claim_next(entry);
            (next, if won {
                held + 1
            } else {
                held
            }, won)
        },
        KeyCall::Retrieve => {
            let (next, _, won) = retrieve_next(entry);
            (next, if won {
                held + 1
            } else {
                held
            }, won)
        },
        KeyCall::Complete(outcome) => {
            if held > 0 {
                (settle_next(outcome), (held - 1) as nat, false)
            } else {
                (entry, held, false)
            }
        },
    }
}

/// Calls on one key in the order in which they reach its entry, which is how
/// concurrent callers are seen: the entry afterwards, the claims outstanding,
/// and how many calls won a claim.
pub open spec fn run_calls(entry: Option<PackageStatus>, held: nat, calls: Seq<KeyCall>) -> (
    Option<PackageStatus>,
    nat,
    nat,
)
    decreases calls.len(),
{
    if calls.len() == 0 {
        (entry, held, 0)
    } else {
        let (e, h, wins) = run_calls(entry, held, calls.drop_last());
        let (next, h2, won) = call_next(e, h, calls.last());
        (next, h2, if won {
            wins + 1
        } else {
            wins
        })
    }
}

/// Whether an entry is ready: one look at the one entry, no second read.
pub fn entry_is_ready(entry: &Option<PackageStatus>) -> (r: bool)
    ensures
        r == is_ready_entry(*entry),
{
    match entry {
        Some(PackageStatus::Ready(_)) => true,
        _ => false,
    }
}

/// What a retrieval does with an entry read once: hand back the location when it
/// is ready; otherwise nothing, with a claim to make only when there is no entry.
pub fn plan_retrieval(entry: &Option<PackageStatus>) -> (r: RetrievalPlan)
    ensures
        match r.uri {
            Some(u) => retrieve_next(*entry).1 == Some(u@),
            None => retrieve_next(*entry).1 is None,
        },
        r.claim == retrieve_next(*entry).2,
{
    match entry {
        Some(PackageStatus::Ready(uri)) => RetrievalPlan { uri: Some(uri.clone()), claim: false },
        Some(PackageStatus::Downloading) => RetrievalPlan { uri: None, claim: false },
        None => RetrievalPlan { uri: None, claim: true },
    }
}

/// The status a successful claim stores.
fn claimed_status() -> (r: PackageStatus)
    ensures
        claim_next(None).0 == Some(r),
{
    PackageStatus::Downloading
}

/// The outcome of a claim of `package` that found `found` in the entry: a claim
/// exactly when the entry was vacant.
pub fn claim_outcome(found: Option<PackageStatus>, package: &ProviderPackage) -> (r: Option<Claim>)
    ensures
        r is Some == claim_next(found).1,
        r matches Some(c) ==> c.package_of() == *package,
{
    match found {
        None => Some(Claim { package: package.duplicate() }),
        Some(_) => None,
    }
}

/// The entry that a finished fetch leaves behind.
pub fn settle(outcome: Result<String, MirrorError>) -> (r: Option<PackageStatus>)
    ensures
        r == settle_next(outcome),
{
    match outcome {
        Ok(uri) => Some(PackageStatus::Ready(uri)),
        Err(_) => None,
    }
}

/// However many stores and retrievals of one key race, while no fetch of it
/// ends, exactly one of them claims the fetch when the key had no entry, and
/// none does when it had one.
pub proof fn lemma_single_flight(entry: Option<PackageStatus>, held: nat, calls: Seq<KeyCall>)
    requires
        calls.len() >= 1,
        forall|i: int| 0 <= i < calls.len() ==> !(#[trigger] calls[i] is Complete),
    ensures
        run_calls(entry, held, calls).2 == (if entry is None {
            1nat
        } else {
            0nat
        }),
        run_calls(entry, held, calls).0 is Some,
    decreases calls.len(),
{
    let rest = calls.drop_last();
    assert(!(calls[calls.len() - 1] is Complete));
    if calls.len() > 1 {
        assert forall|i: int| 0 <= i < rest.len() implies !(#[trigger] rest[i] is Complete) by {
            assert(rest[i] == calls[i]);
        }
        lemma_single_flight(entry, held, rest);
    } else {
        assert(run_calls(entry, held, rest) == (entry, held, 0nat));
    }
}

/// A key is not available while its fetch runs, and is once the holder of the
/// claim has completed it with a location. From then on every store, retrieval
/// or completion leaves it so: no claim is won, so no fetch can overwrite it,
/// and each retrieval hands back that location.
pub proof fn lemma_ready_is_final(uri: String, calls: Seq<KeyCall>)
    ensures
        !is_ready_entry(claim_next(None).0),
        call_next(claim_next(None).0, 1, KeyCall::Complete(Ok(uri))) == (
            settle_next(Ok(uri)),
            0nat,
            false,
        ),
        is_ready_entry(settle_next(Ok(uri))),
        run_calls(settle_next(Ok(uri)), 0, calls) == (settle_next(Ok(uri)), 0nat, 0nat),
        retrieve_next(settle_next(Ok(uri))) == (settle_next(Ok(uri)), Some(uri@), false),
    decreases calls.len(),
{
    if calls.len() > 0 {
        lemma_ready_is_final(uri, calls.drop_last());
    }
}

/// A retrieval of a key that is not ready hands back nothing; on a key with no
/// entry it claims the fetch, and a second retrieval, finding the fetch under
/// way, claims nothing more.
pub proof fn lemma_retrieve_claims_once(entry: Option<PackageStatus>)
    requires
        !is_ready_entry(entry),
    ensures
        ({
            let (e1, u1, f1) = retrieve_next(entry);
            let (e2, u2, f2) = retrieve_next(e1);
            &&& u1 is None
            &&& u2 is None
            &&& f1 == entry is None
            &&& !f2
            &&& e2 == e1
            &&& e1 is Some
        }),
{
}

// The table is shared with other tasks, so what one of the calls below returns
// says nothing of what the next one sees: they promise nothing of the table, and
// the decisions above are applied to whatever they return.

/// Relies on `DashMap::new`: an empty concurrent map.
#[verifier::external_body]
fn new_table() -> DashMap<ProviderPackage, PackageStatus> {
    DashMap::new()
}

/// Relies on `DashMap::view`: reads the key's entry once, under its shard's read
/// lock, and hands back a copy of it.
#[verifier::external_body]
fn read_entry(
    table: &DashMap<ProviderPackage, PackageStatus>,
    key: &ProviderPackage,
) -> Option<PackageStatus> {
    table.view(key, |_, status| status.snapshot())
}

/// Relies on `DashMap::entry`, `VacantEntry::insert` and `OccupiedEntry::get`:
/// under the shard's write lock, stores `status` if the key has no entry and
/// then hands back `None`, or else hands back a copy of the entry it found.
#[verifier::external_body]
fn claim_vacant(
    table: &DashMap<ProviderPackage, PackageStatus>,
    key: &ProviderPackage,
    status: PackageStatus,
) -> Option<PackageStatus>
    requires
        claim_next(None).0 == Some(status),
{
    match table.entry(key.clone()) {
        Entry::Vacant(slot) => {
            slot.insert(status);
            None
        },
        Entry::Occupied(held) => Some(held.get().snapshot()),
    }
}

/// Relies on `DashMap::insert`: sets the key's entry to `status`.
#[verifier::external_body]
fn write_entry(
    table: &DashMap<ProviderPackage, PackageStatus>,
    key: &ProviderPackage,
    status: PackageStatus,
) {
    table.insert(key.clone(), status);
}

/// Relies on `DashMap::remove`: drops the key's entry.
#[verifier::external_body]
fn drop_entry(table: &DashMap<ProviderPackage, PackageStatus>, key: &ProviderPackage) {
    table.remove(key);
}

/// A store of cached archives, shared by every request.
pub trait StorageBackend {
    /// Whether the package is cached: one atomic read of its entry.
    fn is_available(&self, package: &ProviderPackage) -> bool;

    /// The cached location of the package, read atomically; on a miss with no
    /// entry, claims the package as `store` does.
    fn retrieve(&self, package: &ProviderPackage) -> (r: Retrieval)
        ensures
            r.uri is Some ==> r.claim is None,
            r.claim matches Some(c) ==> c.package_of() == *package,
    ;

    /// Claims the package for a fetch, atomically: a claim for exactly one caller
    /// while the package has no entry. Its holder owes the fetch and hands the
    /// claim to `complete`.
    fn store(&self, package: &ProviderPackage) -> (r: Option<Claim>)
        ensures
            r matches Some(c) ==> c.package_of() == *package,
    ;

    /// Records how the fetch owed by `claim` ended.
    fn complete(&self, claim: Claim, outcome: Result<String, MirrorError>);
}

/// The in-memory store: a concurrent map from package to status, locked per
/// shard and never across a fetch. A ready entry is never evicted; a failed
/// fetch removes its entry so that a later request fetches again.
#[derive(Clone)]
pub struct LocalStorageBackend {
    packages_status: Arc<DashMap<ProviderPackage, PackageStatus>>,
}

impl LocalStorageBackend {
    pub fn new() -> Self {
        LocalStorageBackend { packages_status: Arc::new(new_table()) }
    }
}

impl StorageBackend for LocalStorageBackend {
    fn is_available(&self, package: &ProviderPackage) -> bool {
        let entry = read_entry(&self.packages_status, package);
        entry_is_ready(&entry)
    }

    fn retrieve(&self, package: &ProviderPackage) -> (r: Retrieval) {
        let entry = read_entry(&self.packages_status, package);
        let plan = plan_retrieval(&entry);
        if plan.claim {
            let claim = self.store(package);
            Retrieval { uri: None, claim }
        } else {
            Retrieval { uri: plan.uri, claim: None }
        }
    }

    fn store(&self, package: &ProviderPackage) -> (r: Option<Claim>) {
        let found = claim_vacant(&self.packages_status, package, claimed_status());
        claim_outcome(found, package)
    }

    fn complete(&self, claim: Claim, outcome: Result<String, MirrorError>) {
        match settle(outcome) {
            Some(status) => write_entry(&self.packages_status, &claim.package, status),
            None => drop_entry(&self.packages_status, &claim.package),
        }
    }
}

} // verus!
