use vstd::prelude::*;
use vstd::string::*;

use crate::error::MirrorError;
use crate::package::ProviderPackage;

verus! {

/// A platform for which the upstream registry publishes an archive.
pub struct PlatformArchPair {
    pub os: String,
    pub arch: String,
}

/// One entry of the upstream registry's version list.
pub struct RegistryVersion {
    pub version: String,
    pub platforms: Vec<PlatformArchPair>,
}

/// The upstream registry's answer to a versions query, in its order.
pub struct RegistryVersionsList {
    pub versions: Vec<RegistryVersion>,
}

/// The empty marker that the mirror protocol attaches to each version.
pub struct MirrorVersion {}

/// The mirror's version listing: distinct version strings, each with its marker.
pub struct MirrorVersionsList {
    versions: Vec<(String, MirrorVersion)>,
}

/// Where the archive of one platform can be downloaded, relative to the mirror.
pub struct Archive {
    pub url: String,
}

/// The mirror's archive listing for one version: distinct platform keys, each
/// with its archive.
pub struct AvailablePackages {
    archives: Vec<(String, Archive)>,
}

/// What the upstream registry answers to a download query.
pub struct DownloadMetadata {
    pub download_url: String,
}

/// The client of the upstream registry. It holds no state: the queries it makes
/// are addressed by the package alone.
#[derive(Clone, Copy)]
pub struct RealProviderRegistry {}

/// The upstream query for the versions of a package:
/// `https://{hostname}/v1/providers/{namespace}/{name}/versions`.
pub open spec fn versions_endpoint_of(hostname: Seq<char>, namespace: Seq<char>, name: Seq<char>) -> Seq<
    char,
> {
    "https://"@ + hostname + "/v1/providers/"@ + namespace + "/"@ + name + "/versions"@
}

/// The upstream query for the download of an archive:
/// `https://{hostname}/v1/providers/{namespace}/{name}/{version}/download/{os}/{arch}`.
pub open spec fn download_endpoint_of(
    hostname: Seq<char>,
    namespace: Seq<char>,
    name: Seq<char>,
    version: Seq<char>,
    os: Seq<char>,
    arch: Seq<char>,
) -> Seq<char> {
    "https://"@ + hostname + "/v1/providers/"@ + namespace + "/"@ + name + "/"@
        + archive_url_of(version, os, arch)
}

/// The keys of a keyed listing, in order.
pub open spec fn keys_of<T>(entries: Seq<(String, T)>) -> Seq<Seq<char>> {
    entries.map_values(|e: (String, T)| e.0@)
}

/// The version strings that occur in an upstream version list.
pub open spec fn listed_versions(vs: Seq<RegistryVersion>) -> Set<Seq<char>> {
    Set::new(|k: Seq<char>| exists|j: int| 0 <= j < vs.len() && vs[j].version@ == k)
}

/// The key of a platform in an archive listing: `{os}_{arch}`.
pub open spec fn platform_key(os: Seq<char>, arch: Seq<char>) -> Seq<char> {
    os + "_"@ + arch
}

/// The mirror-relative download location of an archive:
/// `{version}/download/{os}/{arch}`.
pub open spec fn archive_url_of(version: Seq<char>, os: Seq<char>, arch: Seq<char>) -> Seq<char> {
    version + "/download/"@ + os + "/"@ + arch
}

/// The archive listing of `version` for the platforms `ps`, a later platform with
/// the same key taking the place of an earlier one.
pub open spec fn archive_map(version: Seq<char>, ps: Seq<PlatformArchPair>) -> Map<
    Seq<char>,
    Seq<char>,
>
    decreases ps.len(),
{
    if ps.len() == 0 {
        Map::empty()
    } else {
        let p = ps.last();
        archive_map(version, ps.drop_last()).insert(
            platform_key(p.os@, p.arch@),
            archive_url_of(version, p.os@, p.arch@),
        )
    }
}

/// The map from key to url that a sequence of archive entries spells.
pub open spec fn entries_map(es: Seq<(String, Archive)>) -> Map<Seq<char>, Seq<char>>
    decreases es.len(),
{
    if es.len() == 0 {
        Map::empty()
    } else {
        entries_map(es.drop_last()).insert(es.last().0@, es.last().1.url@)
    }
}

/// Whether `j` is the index of the first entry of `vs` whose version is `v`.
pub open spec fn is_first_match(vs: Seq<RegistryVersion>, v: Seq<char>, j: int) -> bool {
    &&& 0 <= j < vs.len()
    &&& vs[j].version@ == v
    &&& forall|k: int| 0 <= k < j ==> vs[k].version@ != v
}

impl MirrorVersionsList {
    #[verifier::type_invariant]
    spec fn keys_distinct(&self) -> bool {
        keys_of(self.versions@).no_duplicates()
    }

    /// The entries of the listing, in order.
    pub closed spec fn entries(&self) -> Seq<(String, MirrorVersion)> {
        self.versions@
    }

    /// The entries of the listing; no version occurs twice.
    pub fn versions(&self) -> (r: &Vec<(String, MirrorVersion)>)
        ensures
            r@ == self.entries(),
            keys_of(r@).no_duplicates(),
    {
        proof {
            use_type_invariant(self);
        }
        &self.versions
    }
}

impl View for MirrorVersionsList {
    type V = Set<Seq<char>>;

    open spec fn view(&self) -> Set<Seq<char>> {
        keys_of(self.entries()).to_set()
    }
}

impl AvailablePackages {
    #[verifier::type_invariant]
    spec fn keys_distinct(&self) -> bool {
        keys_of(self.archives@).no_duplicates()
    }

    /// The entries of the listing, in order.
    pub closed spec fn entries(&self) -> Seq<(String, Archive)> {
        self.archives@
    }

    /// The entries of the listing; no platform key occurs twice.
    pub fn archives(&self) -> (r: &Vec<(String, Archive)>)
        ensures
            r@ == self.entries(),
            keys_of(r@).no_duplicates(),
            entries_map(r@) == self@,
    {
        proof {
            use_type_invariant(self);
        }
        &self.archives
    }
}

impl View for AvailablePackages {
    type V = Map<Seq<char>, Seq<char>>;

    open spec fn view(&self) -> Map<Seq<char>, Seq<char>> {
        entries_map(self.entries())
    }
}

/// Replacing the entry of a key in a listing with distinct keys changes only that
/// key's url.
proof fn lemma_entries_map_update(es: Seq<(String, Archive)>, i: int, e: (String, Archive))
    requires
        keys_of(es).no_duplicates(),
        0 <= i < es.len(),
        es[i].0@ == e.0@,
    ensures
        entries_map(es.update(i, e)) == entries_map(es).insert(e.0@, e.1.url@),
    decreases es.len(),
{
    let us = es.update(i, e);
    if i == es.len() - 1 {
        assert(us.drop_last() =~= es.drop_last());
        assert(entries_map(us) =~= entries_map(es).insert(e.0@, e.1.url@));
    } else {
        assert(us.drop_last() =~= es.drop_last().update(i, e));
        assert(keys_of(es.drop_last()) =~= keys_of(es).drop_last());
        assert(keys_of(es)[i] == es[i].0@);
        assert(keys_of(es)[es.len() - 1] == es.last().0@);
        lemma_entries_map_update(es.drop_last(), i, e);
        assert(entries_map(us) =~= entries_map(es).insert(e.0@, e.1.url@));
    }
}

/// The position of `key` among the keys of `entries`.
fn position_of_key<T>(entries: &Vec<(String, T)>, key: &String) -> (r: Option<usize>)
    ensures
        match r {
            Some(i) => i < entries@.len() && entries@[i as int].0@ == key@,
            None => !keys_of(entries@).contains(key@),
        },
{
    let mut i: usize = 0;
    while i < entries.len()
        invariant
            i <= entries@.len(),
            forall|j: int| 0 <= j < i ==> entries@[j].0@ != key@,
        decreases entries@.len() - i,
    {
        if entries[i].0 == *key {
            return Some(i);
        }
        i += 1;
    }
    assert(!keys_of(entries@).contains(key@)) by {
        assert forall|j: int| 0 <= j < entries@.len() implies keys_of(entries@)[j] != key@ by {
            assert(keys_of(entries@)[j] == entries@[j].0@);
        }
    }
    None
}

/// Folds the upstream version list into the mirror's listing: one entry per
/// distinct version string, platform details dropped.
pub fn transform_version_list(registry_versions: RegistryVersionsList) -> (r: MirrorVersionsList)
    ensures
        r@ == listed_versions(registry_versions.versions@),
{
    let vs = &registry_versions.versions;
    let mut versions: Vec<(String, MirrorVersion)> = Vec::new();
    let mut i: usize = 0;
    while i < vs.len()
        invariant
            i <= vs@.len(),
            keys_of(versions@).no_duplicates(),
            forall|k: Seq<char>|
                keys_of(versions@).contains(k) <==> exists|j: int| 0 <= j < i && vs@[j].version@ == k,
        decreases vs@.len() - i,
    {
        let v = &vs[i].version;
        let ghost before = versions@;
        match position_of_key(&versions, v) {
            Some(p) => {
                assert(keys_of(versions@)[p as int] == v@);
                assert(keys_of(versions@).contains(v@));
            },
            None => {
                versions.push((v.clone(), MirrorVersion {  }));
                assert(keys_of(versions@) =~= keys_of(before).push(v@));
                assert(keys_of(versions@)[before.len() as int] == v@);
                assert(keys_of(versions@).contains(v@));
            },
        }
        assert forall|k: Seq<char>|
            keys_of(versions@).contains(k) <==> exists|j: int|
                0 <= j < i + 1 && vs@[j].version@ == k by {
            if k == v@ {
                assert(vs@[i as int].version@ == k);
                assert(keys_of(versions@).contains(k));
            } else {
                assert(keys_of(versions@).contains(k) <==> keys_of(before).contains(k)) by {
                    if keys_of(before).contains(k) {
                        let m = choose|m: int| 0 <= m < keys_of(before).len() && keys_of(before)[m] == k;
                        assert(keys_of(versions@)[m] == k);
                    }
                    if keys_of(versions@).contains(k) {
                        let m = choose|m: int| 0 <= m < keys_of(versions@).len() && keys_of(versions@)[m] == k;
                        assert(keys_of(before)[m] == k);
                    }
                }
                if exists|j: int| 0 <= j < i + 1 && vs@[j].version@ == k {
                    let j = choose|j: int| 0 <= j < i + 1 && vs@[j].version@ == k;
                    assert(j < i);
                }
            }
        }
        i += 1;
    }
    let r = MirrorVersionsList { versions };
    assert(r@ =~= listed_versions(registry_versions.versions@));
    r
}

/// The mirror-relative download location `{version}/download/{os}/{arch}`.
pub fn archive_url(version: &str, os: &str, arch: &str) -> (r: String)
    ensures
        r@ == archive_url_of(version@, os@, arch@),
{
    let mut s = String::from_str(version);
    s.append("/download/");
    s.append(os);
    s.append("/");
    s.append(arch);
    s
}

impl RealProviderRegistry {
    /// Where the upstream registry lists the versions of `package`; the archive
    /// listing of one version is read from the same list.
    pub fn versions_endpoint(&self, package: &ProviderPackage) -> (r: String)
        ensures
            r@ == versions_endpoint_of(package.hostname@, package.namespace@, package.name@),
    {
        let mut s = String::from_str("https://");
        s.append(package.hostname.as_str());
        s.append("/v1/providers/");
        s.append(package.namespace.as_str());
        s.append("/");
        s.append(package.name.as_str());
        s.append("/versions");
        s
    }

    /// Where the upstream registry tells the real download location of the
    /// archive that `package` names.
    pub fn download_endpoint(&self, package: &ProviderPackage) -> (r: String)
        requires
            package.is_resolved(),
        ensures
            r@ == download_endpoint_of(
                package.hostname@,
                package.namespace@,
                package.name@,
                package.version->0.num@,
                package.version->0.os@,
                package.version->0.arch@,
            ),
    {
        let version = package.version();
        let os = package.os();
        let arch = package.arch();
        let mut s = String::from_str("https://");
        s.append(package.hostname.as_str());
        s.append("/v1/providers/");
        s.append(package.namespace.as_str());
        s.append("/");
        s.append(package.name.as_str());
        s.append("/");
        let tail = archive_url(version.as_str(), os.as_str(), arch.as_str());
        s.append(tail.as_str());
        s
    }
}

/// The archive listing key `{os}_{arch}`.
fn platform_key_string(os: &str, arch: &str) -> (r: String)
    ensures
        r@ == platform_key(os@, arch@),
{
    let mut s = String::from_str(os);
    s.append("_");
    s.append(arch);
    s
}

/// The archive listing of `version` over `platforms`.
fn archives_for(version: &str, platforms: &Vec<PlatformArchPair>) -> (r: AvailablePackages)
    ensures
        r@ == archive_map(version@, platforms@),
{
    let mut archives: Vec<(String, Archive)> = Vec::new();
    let mut i: usize = 0;
    while i < platforms.len()
        invariant
            i <= platforms@.len(),
            keys_of(archives@).no_duplicates(),
            entries_map(archives@) == archive_map(version@, platforms@.subrange(0, i as int)),
        decreases platforms@.len() - i,
    {
        let p = &platforms[i];
        let key = platform_key_string(p.os.as_str(), p.arch.as_str());
        let url = archive_url(version, p.os.as_str(), p.arch.as_str());
        let ghost before = archives@;
        let ghost entry = (key, Archive { url });
        assert(platforms@.subrange(0, i + 1).drop_last() =~= platforms@.subrange(0, i as int));
        match position_of_key(&archives, &key) {
            Some(j) => {
                proof {
                    lemma_entries_map_update(before, j as int, entry);
                }
                archives[j] = (key, Archive { url });
                assert(archives@ =~= before.update(j as int, entry));
                assert(keys_of(archives@) =~= keys_of(before));
            },
            None => {
                archives.push((key, Archive { url }));
                assert(archives@.drop_last() =~= before);
                assert(keys_of(archives@) =~= keys_of(before).push(entry.0@));
            },
        }
        i += 1;
    }
    assert(platforms@.subrange(0, platforms@.len() as int) =~= platforms@);
    AvailablePackages { archives }
}

/// The archive listing of `version`: taken from the first entry of the upstream
/// list whose version string equals `version` exactly, with one archive per
/// platform; `VersionNotFound` when no entry has that version.
pub fn generate_installation_packages(rvl: &RegistryVersionsList, version: &str) -> (r: Result<
    AvailablePackages,
    MirrorError,
>)
    ensures
        match r {
            Ok(packages) => exists|j: int|
                is_first_match(rvl.versions@, version@, j) && packages@ == archive_map(
                    version@,
                    rvl.versions@[j].platforms@,
                ),
            Err(e) => e == MirrorError::VersionNotFound && forall|j: int|
                0 <= j < rvl.versions@.len() ==> rvl.versions@[j].version@ != version@,
        },
{
    let vs = &rvl.versions;
    let target = version.to_string();
    let mut i: usize = 0;
    while i < vs.len()
        invariant
            i <= vs@.len(),
            target@ == version@,
            vs@ == rvl.versions@,
            forall|k: int| 0 <= k < i ==> vs@[k].version@ != version@,
        decreases vs@.len() - i,
    {
        if vs[i].version == target {
            let packages = archives_for(version, &vs[i].platforms);
            assert(vs@[i as int].version@ == version@);
            assert(is_first_match(vs@, version@, i as int));
            assert(packages@ == archive_map(
                version@,
                rvl.versions@[i as int].platforms@,
            ));
            return Ok(packages);
        }
        i += 1;
    }
    Err(MirrorError::VersionNotFound)
}

} // verus!
