use vstd::prelude::*;
use vstd::string::*;

verus! {

/// The two kinds of artifact a registry distributes.
pub enum PackageKind {
    Module,
    Provider,
}

/// The registry path segment under which packages of `kind` are published.
pub open spec fn package_type_of(kind: PackageKind) -> Seq<char> {
    match kind {
        PackageKind::Module => seq!['m', 'o', 'd', 'u', 'l', 'e', 's'],
        PackageKind::Provider => seq!['p', 'r', 'o', 'v', 'i', 'd', 'e', 'r', 's'],
    }
}

pub fn return_package_type(kind: PackageKind) -> (r: String)
    ensures
        r@ == package_type_of(kind),
{
    proof {
        reveal_strlit("modules");
        reveal_strlit("providers");
    }
    match kind {
        PackageKind::Module => String::from_str("modules"),
        PackageKind::Provider => String::from_str("providers"),
    }
}

/// A resolved version of a provider package: version number and platform.
#[derive(Clone, Debug, PartialEq, Eq, Hash)]
pub struct ProviderPackageVersion {
    pub num: String,
    pub os: String,
    pub arch: String,
}

impl ProviderPackageVersion {
    pub fn new(num: String, os: String, arch: String) -> (r: Self)
        ensures
            r.num@ == num@,
            r.os@ == os@,
            r.arch@ == arch@,
    {
        ProviderPackageVersion { num, os, arch }
    }

    /// A copy of the version, equal to it field by field.
    pub fn duplicate(&self) -> (r: Self)
        ensures
            r == *self,
    {
        ProviderPackageVersion { num: self.num.clone(), os: self.os.clone(), arch: self.arch.clone() }
    }
}

/// The identity of a provider package: where it is published and, for cache and
/// download calls, which version and platform.
///
/// Two identities name the same cache key when all six strings agree.
#[derive(Clone, Debug, PartialEq, Eq, Hash)]
pub struct ProviderPackage {
    pub hostname: String,
    pub namespace: String,
    pub name: String,
    pub version: Option<ProviderPackageVersion>,
}

impl ProviderPackage {
    /// Whether the identity carries a resolved version and platform.
    pub open spec fn is_resolved(&self) -> bool {
        self.version is Some
    }

    /// The identity as six strings: the parts that decide equality of cache keys.
    pub open spec fn resolved_key(&self) -> (Seq<char>, Seq<char>, Seq<char>, Seq<char>, Seq<char>, Seq<char>)
        recommends
            self.is_resolved(),
    {
        (
            self.hostname@,
            self.namespace@,
            self.name@,
            self.version->0.num@,
            self.version->0.os@,
            self.version->0.arch@,
        )
    }

    /// A copy of the identity, equal to it field by field.
    pub fn duplicate(&self) -> (r: Self)
        ensures
            r == *self,
    {
        let version = match &self.version {
            Some(v) => Some(v.duplicate()),
            None => None,
        };
        ProviderPackage {
            hostname: self.hostname.clone(),
            namespace: self.namespace.clone(),
            name: self.name.clone(),
            version,
        }
    }

    /// An identity for listing calls, with no version.
    pub fn new(hostname: &str, namespace: &str, name: &str) -> (r: Self)
        ensures
            r.hostname@ == hostname@,
            r.namespace@ == namespace@,
            r.name@ == name@,
            r.version is None,
    {
        ProviderPackage {
            hostname: hostname.to_string(),
            namespace: namespace.to_string(),
            name: name.to_string(),
            version: None,
        }
    }

    /// An identity for cache and download calls, bound to `version`.
    pub fn with_version(
        hostname: &str,
        namespace: &str,
        name: &str,
        version: ProviderPackageVersion,
    ) -> (r: Self)
        ensures
            r.hostname@ == hostname@,
            r.namespace@ == namespace@,
            r.name@ == name@,
            r.version == Some(version),
    {
        ProviderPackage {
            hostname: hostname.to_string(),
            namespace: namespace.to_string(),
            name: name.to_string(),
            version: Some(version),
        }
    }

    pub fn arch(&self) -> (r: String)
        requires
            self.is_resolved(),
        ensures
            r@ == self.version->0.arch@,
    {
        match &self.version {
            Some(v) => v.arch.clone(),
            None => String::new(),
        }
    }

    pub fn os(&self) -> (r: String)
        requires
            self.is_resolved(),
        ensures
            r@ == self.version->0.os@,
    {
        match &self.version {
            Some(v) => v.os.clone(),
            None => String::new(),
        }
    }

    pub fn version(&self) -> (r: String)
        requires
            self.is_resolved(),
        ensures
            r@ == self.version->0.num@,
    {
        match &self.version {
            Some(v) => v.num.clone(),
            None => String::new(),
        }
    }
}

} // verus!
