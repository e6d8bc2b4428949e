//! A caching mirror for a provider registry's distribution protocol: identities of
//! provider packages, translation of the upstream registry's answers into the
//! mirror's wire shapes, parsing of mirror request paths, and a single-flight
//! status table for cached archives.

mod error;
mod package;
mod path;
mod registry;
mod storage_backend;

pub use error::{status_of, MirrorError};
pub use package::{return_package_type, PackageKind, ProviderPackage, ProviderPackageVersion};
pub use path::{
    is_segment, lemma_archive_url_round_trip, lemma_listed_urls_round_trip, parse_mirror_path,
    request_of, split_path, views_of, MirrorRequest, RequestShape,
};
pub use registry::{
    archive_map, archive_url, archive_url_of, download_endpoint_of, entries_map,
    generate_installation_packages, is_first_match, keys_of, listed_versions, platform_key,
    transform_version_list, versions_endpoint_of, Archive, AvailablePackages, DownloadMetadata,
    MirrorVersion, MirrorVersionsList, PlatformArchPair, RealProviderRegistry, RegistryVersion,
    RegistryVersionsList,
};
pub use storage_backend::{
    call_next, claim_next, claim_outcome, entry_is_ready, is_ready_entry, lemma_ready_is_final,
    lemma_retrieve_claims_once, lemma_single_flight, plan_retrieval, ready_uri, retrieve_next,
    run_calls, settle, settle_next, Claim, KeyCall, LocalStorageBackend, PackageStatus,
    Retrieval, RetrievalPlan, StorageBackend,
};
