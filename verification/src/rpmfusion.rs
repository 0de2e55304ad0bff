//! RPM Fusion repositories: reading whether they are enabled or installed,
//! and the commands that install them.
use vstd::prelude::*;

use crate::text::concat;

verus! {

/// Lists the enabled free repository files (non-empty output: enabled).
pub const FREE_ENABLED_QUERY: &'static str =
    "grep -rl 'enabled=1' /etc/yum.repos.d/rpmfusion-free*.repo 2>/dev/null | grep -v nonfree";

/// Lists the enabled nonfree repository files (non-empty output: enabled).
pub const NONFREE_ENABLED_QUERY: &'static str =
    "grep -rl 'enabled=1' /etc/yum.repos.d/rpmfusion-nonfree*.repo 2>/dev/null";

/// Names the free release package when it is installed.
pub const FREE_INSTALLED_QUERY: &'static str =
    "rpm -q rpmfusion-free-release 2>/dev/null | grep -v 'not installed'";

/// Names the nonfree release package when it is installed.
pub const NONFREE_INSTALLED_QUERY: &'static str =
    "rpm -q rpmfusion-nonfree-release 2>/dev/null | grep -v 'not installed'";

/// Prints the Fedora release number.
pub const FEDORA_VERSION_QUERY: &'static str = "rpm -E %fedora";

/// Whether the free and the nonfree repositories are enabled, from the
/// (trimmed) outputs of [`FREE_ENABLED_QUERY`] and [`NONFREE_ENABLED_QUERY`]:
/// a repository is enabled when its query printed something.
pub fn rpmfusion_enabled(free_output: &str, nonfree_output: &str) -> (res: (bool, bool))
    ensures
        res == (free_output@.len() > 0, nonfree_output@.len() > 0),
{
    (!free_output.is_empty(), !nonfree_output.is_empty())
}

/// Whether the free and the nonfree release packages are installed, from
/// the (trimmed) outputs of [`FREE_INSTALLED_QUERY`] and
/// [`NONFREE_INSTALLED_QUERY`]: a package is installed when its query
/// printed something.
pub fn rpmfusion_installed(free_output: &str, nonfree_output: &str) -> (res: (bool, bool))
    ensures
        res == (free_output@.len() > 0, nonfree_output@.len() > 0),
{
    (!free_output.is_empty(), !nonfree_output.is_empty())
}

/// The Fedora release to put in a download URL: the one `rpm` printed, or,
/// when it printed nothing, a shell expansion that asks `rpm` at install
/// time.
pub open spec fn release_or_expansion(fedora_version: Seq<char>) -> Seq<char> {
    if fedora_version.len() == 0 {
        "$(rpm -E %fedora)"@
    } else {
        fedora_version
    }
}

pub fn release_or_expansion_exec(fedora_version: &str) -> (res: String)
    ensures
        res@ == release_or_expansion(fedora_version@),
{
    if fedora_version.is_empty() {
        "$(rpm -E %fedora)".to_owned()
    } else {
        fedora_version.to_owned()
    }
}

/// The URL of a release package: `kind` is `free` or `nonfree`.
pub open spec fn release_url(kind: Seq<char>, release: Seq<char>) -> Seq<char> {
    "https://mirrors.rpmfusion.org/"@ + kind + "/fedora/rpmfusion-"@ + kind + "-release-"@ + release
        + ".noarch.rpm"@
}

fn release_url_exec(kind: &str, release: &str) -> (res: String)
    ensures
        res@ == release_url(kind@, release@),
{
    let a = concat("https://mirrors.rpmfusion.org/", kind);
    let b = concat(a.as_str(), "/fedora/rpmfusion-");
    let c = concat(b.as_str(), kind);
    let d = concat(c.as_str(), "-release-");
    let e = concat(d.as_str(), release);
    concat(e.as_str(), ".noarch.rpm")
}

/// The command that installs both release packages for the Fedora release
/// and enables the Cisco OpenH264 repository.
pub open spec fn install_rpmfusion_command(fedora_version: Seq<char>) -> Seq<char> {
    let release = release_or_expansion(fedora_version);
    "dnf install -y "@ + release_url("free"@, release) + " "@ + release_url("nonfree"@, release)
        + " && dnf config-manager setopt fedora-cisco-openh264.enabled=1"@
}

/// The command that installs both RPM Fusion release packages, given the
/// (trimmed) output of [`FEDORA_VERSION_QUERY`].
pub fn install_rpmfusion_cmd(fedora_version: &str) -> (res: String)
    ensures
        res@ == install_rpmfusion_command(fedora_version@),
{
    let release = release_or_expansion_exec(fedora_version);
    let free = release_url_exec("free", release.as_str());
    let nonfree = release_url_exec("nonfree", release.as_str());
    let a = concat("dnf install -y ", free.as_str());
    let b = concat(a.as_str(), " ");
    let c = concat(b.as_str(), nonfree.as_str());
    concat(c.as_str(), " && dnf config-manager setopt fedora-cisco-openh264.enabled=1")
}

/// The command that installs one release package (`kind` is `free` or
/// `nonfree`) for the Fedora release.
pub open spec fn install_release_command(kind: Seq<char>, fedora_version: Seq<char>) -> Seq<char> {
    "dnf install -y "@ + release_url(kind, release_or_expansion(fedora_version))
}

/// The command that installs the free release package only.
pub fn install_free_release_cmd(fedora_version: &str) -> (res: String)
    ensures
        res@ == install_release_command("free"@, fedora_version@),
{
    let release = release_or_expansion_exec(fedora_version);
    let url = release_url_exec("free", release.as_str());
    concat("dnf install -y ", url.as_str())
}

/// The command that installs the nonfree release package only.
pub fn install_nonfree_release_cmd(fedora_version: &str) -> (res: String)
    ensures
        res@ == install_release_command("nonfree"@, fedora_version@),
{
    let release = release_or_expansion_exec(fedora_version);
    let url = release_url_exec("nonfree", release.as_str());
    concat("dnf install -y ", url.as_str())
}

} // verus!
