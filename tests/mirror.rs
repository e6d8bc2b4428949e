use terraform_registry_mirror::{
    archive_url, claim_outcome, entry_is_ready, plan_retrieval, settle, PackageStatus, generate_installation_packages, parse_mirror_path, return_package_type,
    transform_version_list, LocalStorageBackend, MirrorError, MirrorRequest, PackageKind,
    PlatformArchPair, ProviderPackage, ProviderPackageVersion, RealProviderRegistry,
    RegistryVersion, RegistryVersionsList, StorageBackend,
};

fn platform(os: &str, arch: &str) -> PlatformArchPair {
    PlatformArchPair { os: os.to_string(), arch: arch.to_string() }
}

fn upstream(entries: &[(&str, &[(&str, &str)])]) -> RegistryVersionsList {
    RegistryVersionsList {
        versions: entries
            .iter()
            .map(|(v, ps)| RegistryVersion {
                version: v.to_string(),
                platforms: ps.iter().map(|(os, arch)| platform(os, arch)).collect(),
            })
            .collect(),
    }
}

fn aws_upstream() -> RegistryVersionsList {
    upstream(&[("1.11.1", &[("linux", "amd64")])])
}

fn resolved(version: &str, os: &str, arch: &str) -> ProviderPackage {
    ProviderPackage::with_version(
        "registry.terraform.io",
        "hashicorp",
        "aws",
        ProviderPackageVersion::new(version.to_string(), os.to_string(), arch.to_string()),
    )
}

#[test]
fn list_available_versions() {
    let listing = transform_version_list(aws_upstream());
    let keys: Vec<&str> = listing.versions().iter().map(|(k, _)| k.as_str()).collect();
    assert_eq!(keys, vec!["1.11.1"]);
}

#[test]
fn duplicate_versions_collapse() {
    let listing = transform_version_list(upstream(&[
        ("1.0.0", &[("linux", "amd64")]),
        ("2.0.0", &[]),
        ("1.0.0", &[("darwin", "arm64")]),
    ]));
    let mut keys: Vec<&str> = listing.versions().iter().map(|(k, _)| k.as_str()).collect();
    keys.sort();
    assert_eq!(keys, vec!["1.0.0", "2.0.0"]);
}

#[test]
fn empty_upstream_lists_no_versions() {
    let listing = transform_version_list(upstream(&[]));
    assert!(listing.versions().is_empty());
}

#[test]
fn installation_packages_for_listed_version() {
    let packages = generate_installation_packages(&aws_upstream(), "1.11.1").unwrap();
    assert_eq!(packages.archives().len(), 1);
    let (key, archive) = &packages.archives()[0];
    assert_eq!(key, "linux_amd64");
    assert!(archive.url.contains("1.11.1"));
    assert_eq!(archive.url, "1.11.1/download/linux/amd64");
}

#[test]
fn installation_packages_cover_every_platform() {
    let rvl = upstream(&[
        ("1.0.0", &[("linux", "amd64")]),
        ("2.0.0", &[("linux", "amd64"), ("darwin", "arm64"), ("linux", "amd64")]),
    ]);
    let packages = generate_installation_packages(&rvl, "2.0.0").unwrap();
    let mut entries: Vec<(String, String)> =
        packages.archives().iter().map(|(k, a)| (k.clone(), a.url.clone())).collect();
    entries.sort();
    assert_eq!(
        entries,
        vec![
            ("darwin_arm64".to_string(), "2.0.0/download/darwin/arm64".to_string()),
            ("linux_amd64".to_string(), "2.0.0/download/linux/amd64".to_string()),
        ]
    );
}

#[test]
fn version_without_platforms_lists_no_archives() {
    let rvl = upstream(&[("3.0.0", &[])]);
    let packages = generate_installation_packages(&rvl, "3.0.0").unwrap();
    assert!(packages.archives().is_empty());
}

#[test]
fn unknown_version_is_not_found() {
    let r = generate_installation_packages(&aws_upstream(), "9.9.9");
    assert_eq!(r.err(), Some(MirrorError::VersionNotFound));
    assert_eq!(MirrorError::VersionNotFound.status_code(), 404);
}

#[test]
fn version_match_is_exact() {
    let r = generate_installation_packages(&aws_upstream(), "1.11");
    assert_eq!(r.err(), Some(MirrorError::VersionNotFound));
    let r = generate_installation_packages(&aws_upstream(), "v1.11.1");
    assert_eq!(r.err(), Some(MirrorError::VersionNotFound));
}

#[test]
fn error_status_codes() {
    assert_eq!(MirrorError::UpstreamUnavailable.status_code(), 502);
    assert_eq!(MirrorError::UpstreamProtocolError.status_code(), 502);
    assert_eq!(MirrorError::VersionNotFound.status_code(), 404);
    assert_eq!(MirrorError::InvalidRequest.status_code(), 400);
}

#[test]
fn archive_url_parses_back() {
    let packages = generate_installation_packages(&aws_upstream(), "1.11.1").unwrap();
    let url = &packages.archives()[0].1.url;
    match parse_mirror_path(url) {
        Ok(MirrorRequest::Download(v)) => {
            let package = ProviderPackage::with_version("registry.terraform.io", "hashicorp", "aws", v);
            assert_eq!(package, resolved("1.11.1", "linux", "amd64"));
            assert_eq!(package.version(), "1.11.1");
            assert_eq!(package.os(), "linux");
            assert_eq!(package.arch(), "amd64");
        }
        _ => panic!("archive url did not parse as a download"),
    }
}

#[test]
fn archive_url_shape() {
    assert_eq!(archive_url("0.1.0", "windows", "386"), "0.1.0/download/windows/386");
}

#[test]
fn parse_listing_paths() {
    assert!(matches!(parse_mirror_path("index.json"), Ok(MirrorRequest::Index)));
    match parse_mirror_path("1.11.1.json") {
        Ok(MirrorRequest::Packages(v)) => assert_eq!(v, "1.11.1"),
        _ => panic!("expected a version listing"),
    }
    match parse_mirror_path("9.9.9.json") {
        Ok(MirrorRequest::Packages(v)) => assert_eq!(v, "9.9.9"),
        _ => panic!("expected a version listing"),
    }
}

#[test]
fn parse_rejects_other_shapes() {
    for path in [
        "",
        ".json",
        "1.11.1",
        "1.11.1.yaml",
        "a/b",
        "1.11.1/download/linux",
        "1.11.1/fetch/linux/amd64",
        "1.11.1/download//amd64",
        "/download/linux/amd64",
        "1.11.1/download/linux/amd64/extra",
    ] {
        assert_eq!(parse_mirror_path(path).err(), Some(MirrorError::InvalidRequest), "{}", path);
    }
}

#[test]
fn upstream_endpoints() {
    let registry = RealProviderRegistry {};
    let listing = ProviderPackage::new("registry.terraform.io", "hashicorp", "aws");
    assert_eq!(
        registry.versions_endpoint(&listing),
        "https://registry.terraform.io/v1/providers/hashicorp/aws/versions"
    );
    assert_eq!(
        registry.download_endpoint(&resolved("1.11.1", "linux", "amd64")),
        "https://registry.terraform.io/v1/providers/hashicorp/aws/1.11.1/download/linux/amd64"
    );
}

#[test]
fn package_identity_fields() {
    let p = ProviderPackage::new("example.com", "acme", "widget");
    assert_eq!(p.hostname, "example.com");
    assert_eq!(p.namespace, "acme");
    assert_eq!(p.name, "widget");
    assert!(p.version.is_none());
    let q = resolved("1.0.0", "linux", "arm64");
    assert_ne!(q, resolved("1.0.0", "linux", "amd64"));
    assert_eq!(q, resolved("1.0.0", "linux", "arm64"));
}

#[test]
fn package_types() {
    assert_eq!(return_package_type(PackageKind::Module), "modules");
    assert_eq!(return_package_type(PackageKind::Provider), "providers");
}

#[test]
fn stores_of_one_key_claim_once() {
    let cache = LocalStorageBackend::new();
    let key = resolved("1.11.1", "linux", "amd64");
    let claims: Vec<_> = (0..8).filter_map(|_| cache.store(&key)).collect();
    assert_eq!(claims.len(), 1);
    assert_eq!(claims[0].package(), &key);
    assert!(cache.store(&resolved("1.11.1", "darwin", "arm64")).is_some());
}

#[test]
fn availability_follows_the_fetch() {
    let cache = LocalStorageBackend::new();
    let key = resolved("1.11.1", "linux", "amd64");
    assert!(!cache.is_available(&key));
    let claim = cache.store(&key).unwrap();
    assert!(!cache.is_available(&key));
    cache.complete(claim, Ok("https://cache.example/aws.zip".to_string()));
    assert!(cache.is_available(&key));
    assert!(cache.store(&key).is_none());
    for _ in 0..3 {
        let r = cache.retrieve(&key);
        assert_eq!(r.uri.as_deref(), Some("https://cache.example/aws.zip"));
        assert!(r.claim.is_none());
        assert!(cache.is_available(&key));
    }
}

#[test]
fn retrieve_on_absent_key_claims_once() {
    let cache = LocalStorageBackend::new();
    let key = resolved("1.11.1", "linux", "amd64");
    let first = cache.retrieve(&key);
    assert!(first.uri.is_none());
    assert_eq!(first.claim.as_ref().map(|c| c.package()), Some(&key));
    let second = cache.retrieve(&key);
    assert!(second.uri.is_none());
    assert!(second.claim.is_none());
    assert!(cache.store(&key).is_none());
}

#[test]
fn failed_fetch_frees_the_key() {
    let cache = LocalStorageBackend::new();
    let key = resolved("1.11.1", "linux", "amd64");
    let claim = cache.store(&key).unwrap();
    cache.complete(claim, Err(MirrorError::UpstreamUnavailable));
    assert!(!cache.is_available(&key));
    let again = cache.retrieve(&key);
    assert!(again.uri.is_none());
    assert!(again.claim.is_some());
}

#[test]
fn clones_share_one_table() {
    let cache = LocalStorageBackend::new();
    let other = cache.clone();
    let key = resolved("2.0.0", "linux", "amd64");
    let claim = cache.store(&key).unwrap();
    assert!(other.store(&key).is_none());
    other.complete(claim, Ok("u".to_string()));
    assert!(cache.is_available(&key));
}

#[test]
fn decisions_on_one_entry() {
    let absent: Option<PackageStatus> = None;
    let downloading = Some(PackageStatus::Downloading);
    let ready = Some(PackageStatus::Ready("https://cache.example/a.zip".to_string()));
    assert!(!entry_is_ready(&absent));
    assert!(!entry_is_ready(&downloading));
    assert!(entry_is_ready(&ready));
    let p = plan_retrieval(&absent);
    assert!(p.uri.is_none() && p.claim);
    let p = plan_retrieval(&downloading);
    assert!(p.uri.is_none() && !p.claim);
    let p = plan_retrieval(&ready);
    assert_eq!(p.uri.as_deref(), Some("https://cache.example/a.zip"));
    assert!(!p.claim);
    assert!(matches!(settle(Ok("x".to_string())), Some(PackageStatus::Ready(u)) if u == "x"));
    assert!(settle(Err(MirrorError::UpstreamProtocolError)).is_none());
    let key = resolved("1.0.0", "linux", "amd64");
    assert_eq!(claim_outcome(None, &key).map(|c| c.package().clone()), Some(key.clone()));
    assert!(claim_outcome(Some(PackageStatus::Downloading), &key).is_none());
    assert!(claim_outcome(ready, &key).is_none());
    assert_eq!(key.duplicate(), key);
}

#[test]
fn concurrent_stores_claim_once() {
    let runtime = tokio::runtime::Builder::new_multi_thread().worker_threads(4).build().unwrap();
    let wins = runtime.block_on(async {
        let cache = LocalStorageBackend::new();
        let tasks: Vec<_> = (0..64)
            .map(|i| {
                let cache = cache.clone();
                tokio::spawn(async move {
                    let key = resolved("1.11.1", "linux", "amd64");
                    if i % 2 == 0 {
                        cache.store(&key).is_some()
                    } else {
                        cache.retrieve(&key).claim.is_some()
                    }
                })
            })
            .collect();
        let mut wins = 0;
        for task in tasks {
            if task.await.unwrap() {
                wins += 1;
            }
        }
        wins
    });
    assert_eq!(wins, 1);
}
