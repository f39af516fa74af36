//! The distribution of the system, and the package manager that goes with it.
use crate::text::text_eq;
use vstd::prelude::*;

verus! {

/// Which of the release files that mark a distribution are present.
#[derive(Debug, Clone, Copy)]
pub struct ReleaseFiles {
    /// `/etc/centos-release`
    pub centos: bool,
    /// `/etc/debian_version`
    pub debian: bool,
    /// `/etc/redhat-release`
    pub rhel: bool,
}

/// The package managers that packages can be checked with.
#[derive(Debug, Clone, Copy, PartialEq, Eq, Structural)]
pub enum PackageManager {
    Rpm,
    Deb,
    Unknown,
}

/// The name of the distribution that the release files show.
pub open spec fn distrib_name(probe: ReleaseFiles) -> Seq<char> {
    if probe.centos {
        "centos"@
    } else if probe.debian {
        "debian"@
    } else if probe.rhel {
        "rhel"@
    } else {
        "unknow"@
    }
}

/// The package manager of a distribution.
pub open spec fn manager_of(distrib: Seq<char>) -> PackageManager {
    if distrib == "rhel"@ || distrib == "centos"@ {
        PackageManager::Rpm
    } else if distrib == "debian"@ {
        PackageManager::Deb
    } else {
        PackageManager::Unknown
    }
}

/// The name of the distribution: CentOS first, then Debian, then Red Hat.
pub fn get_distrib(probe: &ReleaseFiles) -> (r: String)
    ensures
        r@ == distrib_name(*probe),
{
    if probe.centos {
        "centos".to_string()
    } else if probe.debian {
        "debian".to_string()
    } else if probe.rhel {
        "rhel".to_string()
    } else {
        "unknow".to_string()
    }
}

/// The package manager of the distribution that the release files show.
pub fn get_package_manager(probe: &ReleaseFiles) -> (r: PackageManager)
    ensures
        r == manager_of(distrib_name(*probe)),
{
    let distrib = get_distrib(probe);
    if text_eq(distrib.as_str(), "rhel") || text_eq(distrib.as_str(), "centos") {
        PackageManager::Rpm
    } else if text_eq(distrib.as_str(), "debian") {
        PackageManager::Deb
    } else {
        PackageManager::Unknown
    }
}

} // verus!
