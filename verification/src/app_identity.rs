//! What the application is called, and where it is found.

use vstd::prelude::*;

verus! {

/// Where "Update" goes when a release does not say where it is.
pub const RELEASES_PAGE: &'static str = "https://github.com/xcomart/rudbman/releases";

/// The entry the Windows installer leaves in the list of installed programs. The
/// identifier in it is the installer's own and the package manager's product
/// code, and none of the three ever changes.
pub const ARP_KEY: &'static str =
    "Software\\Microsoft\\Windows\\CurrentVersion\\Uninstall\\{E09022E1-1203-4A82-A00E-6385C2594DEF}_is1";

/// A platform a release is made for.
#[derive(Clone, Copy, Debug, PartialEq, Eq, Structural)]
pub enum Platform {
    Windows,
    MacOs,
    Linux,
}

/// What a release's archive carries, in install order: the executable first, and
/// then the runtime that comes along.
pub open spec fn payload_of(platform: Platform) -> Seq<&'static str> {
    match platform {
        Platform::Windows => seq!["rudbman.exe", "lib", "runtime"],
        Platform::MacOs => seq!["rudbman.app"],
        Platform::Linux => seq!["rudbman", "lib", "runtime"],
    }
}

/// What a release's archive carries, in install order.
pub fn payload(platform: Platform) -> (r: Vec<&'static str>)
    ensures
        r@ == payload_of(platform),
{
    let mut entries: Vec<&'static str> = Vec::new();
    match platform {
        Platform::Windows => {
            entries.push("rudbman.exe");
            entries.push("lib");
            entries.push("runtime");
        },
        Platform::MacOs => {
            entries.push("rudbman.app");
        },
        Platform::Linux => {
            entries.push("rudbman");
            entries.push("lib");
            entries.push("runtime");
        },
    }
    assert(entries@ =~= payload_of(platform));
    entries
}

/// Who the application is.
#[derive(Debug)]
pub struct AppIdentity {
    pub name: &'static str,
    pub version: &'static str,
    pub repository_url: &'static str,
    pub repository_label: &'static str,
    pub latest_release_api: &'static str,
    pub releases_page: &'static str,
    pub fallback_archive: &'static str,
    pub payload: Vec<&'static str>,
    pub bundle_executable: &'static str,
    pub windows_arp_key: &'static str,
}

impl AppIdentity {
    /// Who the application is on a platform, in the version it was built as.
    pub fn of(platform: Platform, version: &'static str) -> (r: Self)
        ensures
            r.name == "rudbman",
            r.version == version,
            r.repository_url == "https://github.com/xcomart/rudbman",
            r.repository_label == "github.com/xcomart/rudbman",
            r.latest_release_api
                == "https://api.github.com/repos/xcomart/rudbman/releases/latest",
            r.releases_page == RELEASES_PAGE,
            r.fallback_archive == "rudbman-update",
            r.payload@ == payload_of(platform),
            r.bundle_executable == "Contents/MacOS/rudbman",
            r.windows_arp_key == ARP_KEY,
    {
        AppIdentity {
            name: "rudbman",
            version,
            repository_url: "https://github.com/xcomart/rudbman",
            repository_label: "github.com/xcomart/rudbman",
            latest_release_api: "https://api.github.com/repos/xcomart/rudbman/releases/latest",
            releases_page: RELEASES_PAGE,
            fallback_archive: "rudbman-update",
            payload: payload(platform),
            bundle_executable: "Contents/MacOS/rudbman",
            windows_arp_key: ARP_KEY,
        }
    }
}

/// Whether an update has to wait for the next launch: on Windows a virtual machine
/// that has been loaded holds the files that would be renamed.
pub fn must_defer(platform: Platform, jvm_loaded: bool) -> (r: bool)
    ensures
        r == (platform == Platform::Windows && jvm_loaded),
{
    platform == Platform::Windows && jvm_loaded
}

/// What is installed is the program itself and, beside it, what it runs on; on one platform
/// all of it is in one bundle.
pub proof fn what_is_installed(platform: Platform)
    ensures
        platform == Platform::MacOs ==> payload_of(platform) == seq!["rudbman.app"],
        platform == Platform::Windows ==> payload_of(platform) == seq![
            "rudbman.exe",
            "lib",
            "runtime",
        ],
        platform == Platform::Linux ==> payload_of(platform) == seq!["rudbman", "lib", "runtime"],
{
}

} // verus!
