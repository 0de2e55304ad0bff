//! Enriching a GPU with what its vendor's tools and the package database
//! tell: the decisions of which commands to run, and the reading of their
//! output. The commands themselves are run by the caller.
use vstd::prelude::*;

use crate::lspci::{GpuInfo, GpuView};
use crate::packages::{
    available_from_outputs, available_packages, installed_from_outputs, installed_packages,
    text_pairs,
};
use crate::pattern::ParsePatterns;
use crate::text::{
    after_char, before_char, lemma_split_pieces_nonempty, lines, lines_of, split_char,
    split_once_char, split_pieces, str_eq, trim, trim_str,
};
use crate::vendor::Vendor;

verus! {

/// The command whose output says more about a GPU of this vendor:
/// `nvidia-smi` for NVIDIA, `vulkaninfo` for AMD, none for the others.
pub open spec fn probe_command_for(vendor: Vendor) -> Option<Seq<char>> {
    match vendor {
        Vendor::Nvidia => Some(
            "nvidia-smi --query-gpu=driver_version,vbios_version --format=csv,noheader 2>/dev/null | head -1"@,
        ),
        Vendor::Amd => Some(
            "vulkaninfo --summary 2>/dev/null | grep -iE 'deviceName|driverVersion' | head -2"@,
        ),
        _ => None,
    }
}

/// The package patterns whose installed versions are looked up.
pub open spec fn installed_patterns(vendor: Vendor) -> Seq<Seq<char>> {
    match vendor {
        Vendor::Nvidia => seq![
            "akmod-nvidia"@,
            "xorg-x11-drv-nvidia"@,
            "xorg-x11-drv-nvidia-power"@,
            "nvidia-settings"@,
            "nvidia-modprobe"@,
            "nvidia-xconfig"@,
            "libva-nvidia-driver"@,
        ],
        Vendor::Amd => seq!["mesa-dri-drivers"@, "mesa-vulkan-drivers"@, "xorg-x11-drv-amdgpu"@],
        Vendor::Intel => seq!["intel-media-driver"@, "libva-intel-driver"@, "xorg-x11-drv-intel"@],
        Vendor::Unknown => seq![],
    }
}

/// The package patterns whose available versions are looked up.
pub open spec fn available_patterns(vendor: Vendor) -> Seq<Seq<char>> {
    match vendor {
        Vendor::Nvidia => seq!["akmod-nvidia"@, "xorg-x11-drv-nvidia"@],
        Vendor::Amd => seq!["mesa-dri-drivers"@, "mesa-vulkan-drivers"@, "xorg-x11-drv-amdgpu"@],
        Vendor::Intel => seq!["intel-media-driver"@, "libva-intel-driver"@],
        Vendor::Unknown => seq![],
    }
}

/// The packages whose installed and available versions are looked up for
/// each vendor: NVIDIA the driver, its settings and power tools; AMD the Mesa
/// drivers and the amdgpu X driver; Intel the media drivers (and the X
/// driver, installed only); nothing for an unknown vendor.
pub proof fn lemma_queried_packages()
    ensures
        installed_patterns(Vendor::Nvidia) == seq![
            "akmod-nvidia"@,
            "xorg-x11-drv-nvidia"@,
            "xorg-x11-drv-nvidia-power"@,
            "nvidia-settings"@,
            "nvidia-modprobe"@,
            "nvidia-xconfig"@,
            "libva-nvidia-driver"@,
        ],
        available_patterns(Vendor::Nvidia) == seq!["akmod-nvidia"@, "xorg-x11-drv-nvidia"@],
        installed_patterns(Vendor::Amd) == seq![
            "mesa-dri-drivers"@,
            "mesa-vulkan-drivers"@,
            "xorg-x11-drv-amdgpu"@,
        ],
        available_patterns(Vendor::Amd) == seq![
            "mesa-dri-drivers"@,
            "mesa-vulkan-drivers"@,
            "xorg-x11-drv-amdgpu"@,
        ],
        installed_patterns(Vendor::Intel) == seq![
            "intel-media-driver"@,
            "libva-intel-driver"@,
            "xorg-x11-drv-intel"@,
        ],
        available_patterns(Vendor::Intel) == seq!["intel-media-driver"@, "libva-intel-driver"@],
        installed_patterns(Vendor::Unknown).len() == 0,
        available_patterns(Vendor::Unknown).len() == 0,
{
}

/// The probe command for a GPU of this vendor, if any.
pub fn probe_command(vendor: Vendor) -> (res: Option<&'static str>)
    ensures
        match res {
            Some(c) => probe_command_for(vendor) == Some(c@),
            None => probe_command_for(vendor) is None,
        },
{
    match vendor {
        Vendor::Nvidia => Some(
            "nvidia-smi --query-gpu=driver_version,vbios_version --format=csv,noheader 2>/dev/null | head -1",
        ),
        Vendor::Amd => Some(
            "vulkaninfo --summary 2>/dev/null | grep -iE 'deviceName|driverVersion' | head -2",
        ),
        _ => None,
    }
}

/// The patterns of installed packages to look up for this vendor.
pub fn installed_package_patterns(vendor: Vendor) -> (res: Vec<&'static str>)
    ensures
        res@.map_values(|p: &str| p@) == installed_patterns(vendor),
        vendor == Vendor::Nvidia ==> res@.map_values(|p: &str| p@) == seq![
            "akmod-nvidia"@,
            "xorg-x11-drv-nvidia"@,
            "xorg-x11-drv-nvidia-power"@,
            "nvidia-settings"@,
            "nvidia-modprobe"@,
            "nvidia-xconfig"@,
            "libva-nvidia-driver"@,
        ],
        vendor == Vendor::Amd ==> res@.map_values(|p: &str| p@) == seq![
            "mesa-dri-drivers"@,
            "mesa-vulkan-drivers"@,
            "xorg-x11-drv-amdgpu"@,
        ],
        vendor == Vendor::Intel ==> res@.map_values(|p: &str| p@) == seq![
            "intel-media-driver"@,
            "libva-intel-driver"@,
            "xorg-x11-drv-intel"@,
        ],
        vendor == Vendor::Unknown ==> res@.len() == 0,
{
    let res = match vendor {
        Vendor::Nvidia => vec![
            "akmod-nvidia",
            "xorg-x11-drv-nvidia",
            "xorg-x11-drv-nvidia-power",
            "nvidia-settings",
            "nvidia-modprobe",
            "nvidia-xconfig",
            "libva-nvidia-driver",
        ],
        Vendor::Amd => vec!["mesa-dri-drivers", "mesa-vulkan-drivers", "xorg-x11-drv-amdgpu"],
        Vendor::Intel => vec!["intel-media-driver", "libva-intel-driver", "xorg-x11-drv-intel"],
        Vendor::Unknown => vec![],
    };
    assert(res@.map_values(|p: &str| p@) =~= installed_patterns(vendor));
    res
}

/// The patterns of available packages to look up for this vendor.
pub fn available_package_patterns(vendor: Vendor) -> (res: Vec<&'static str>)
    ensures
        res@.map_values(|p: &str| p@) == available_patterns(vendor),
        vendor == Vendor::Nvidia ==> res@.map_values(|p: &str| p@) == seq![
            "akmod-nvidia"@,
            "xorg-x11-drv-nvidia"@,
        ],
        vendor == Vendor::Amd ==> res@.map_values(|p: &str| p@) == seq![
            "mesa-dri-drivers"@,
            "mesa-vulkan-drivers"@,
            "xorg-x11-drv-amdgpu"@,
        ],
        vendor == Vendor::Intel ==> res@.map_values(|p: &str| p@) == seq![
            "intel-media-driver"@,
            "libva-intel-driver"@,
        ],
        vendor == Vendor::Unknown ==> res@.len() == 0,
{
    let res = match vendor {
        Vendor::Nvidia => vec!["akmod-nvidia", "xorg-x11-drv-nvidia"],
        Vendor::Amd => vec!["mesa-dri-drivers", "mesa-vulkan-drivers", "xorg-x11-drv-amdgpu"],
        Vendor::Intel => vec!["intel-media-driver", "libva-intel-driver"],
        Vendor::Unknown => vec![],
    };
    assert(res@.map_values(|p: &str| p@) =~= available_patterns(vendor));
    res
}

/// What a line of `nvidia-smi --format=csv` output tells: the driver
/// version (first field) and, when there is a second field, the VBIOS
/// version; nothing when the output is empty.
pub open spec fn nvidia_smi_facts(output: Seq<char>) -> Seq<(Seq<char>, Seq<char>)> {
    if output.len() == 0 {
        seq![]
    } else {
        let parts = split_pieces(output, ',');
        let driver = seq![("nvidia-smi driver"@, trim(parts[0]))];
        if parts.len() > 1 {
            driver.push(("VBIOS version"@, trim(parts[1])))
        } else {
            driver
        }
    }
}

/// The `key = value` lines of `vulkaninfo` output, keys and values trimmed,
/// each key only the first time it comes.
pub open spec fn vulkan_facts(lines: Seq<Seq<char>>) -> Seq<(Seq<char>, Seq<char>)>
    decreases lines.len(),
{
    if lines.len() == 0 {
        seq![]
    } else {
        let before = vulkan_facts(lines.drop_last());
        let line = lines.last();
        if line.contains('=') {
            let key = trim(before_char(line, '='));
            if exists|i: int| 0 <= i < before.len() && #[trigger] before[i].0 == key {
                before
            } else {
                before.push((key, trim(after_char(line, '='))))
            }
        } else {
            before
        }
    }
}

/// The facts that `nvidia-smi` output tells (see [`nvidia_smi_facts`]).
pub fn read_nvidia_smi(output: &str) -> (res: Vec<(String, String)>)
    ensures
        text_pairs(res@) == nvidia_smi_facts(output@),
{
    let mut res: Vec<(String, String)> = Vec::new();
    if output.is_empty() {
        assert(text_pairs(res@) =~= nvidia_smi_facts(output@));
        return res;
    }
    let parts = split_char(output, ',');
    proof {
        lemma_split_pieces_nonempty(output@, ',');
    }
    assert(parts[0]@ == parts.deep_view()[0]);
    res.push(("nvidia-smi driver".to_owned(), trim_str(parts[0].as_str())));
    if parts.len() > 1 {
        assert(parts[1]@ == parts.deep_view()[1]);
        res.push(("VBIOS version".to_owned(), trim_str(parts[1].as_str())));
    }
    assert(text_pairs(res@) =~= nvidia_smi_facts(output@));
    res
}

/// Whether some pair of `facts` has the key `key`.
fn has_key(facts: &Vec<(String, String)>, key: &str) -> (res: bool)
    ensures
        res == exists|i: int| 0 <= i < text_pairs(facts@).len() && #[trigger] text_pairs(facts@)[i].0 == key@,
{
    let mut i: usize = 0;
    while i < facts.len()
        invariant
            i <= facts.len(),
            forall|k: int| 0 <= k < i ==> #[trigger] text_pairs(facts@)[k].0 != key@,
        decreases facts.len() - i,
    {
        if str_eq(facts[i].0.as_str(), key) {
            assert(text_pairs(facts@)[i as int].0 == key@);
            return true;
        }
        i = i + 1;
    }
    false
}

/// The facts that `vulkaninfo` output tells (see [`vulkan_facts`]).
pub fn read_vulkan_summary(output: &str) -> (res: Vec<(String, String)>)
    ensures
        text_pairs(res@) == vulkan_facts(lines(output@)),
{
    let ls = lines_of(output);
    let mut res: Vec<(String, String)> = Vec::new();
    let mut i: usize = 0;
    assert(ls.deep_view().take(0) =~= Seq::<Seq<char>>::empty());
    assert(text_pairs(res@) =~= Seq::<(Seq<char>, Seq<char>)>::empty());
    while i < ls.len()
        invariant
            i <= ls.len(),
            ls.deep_view() == lines(output@),
            text_pairs(res@) == vulkan_facts(ls.deep_view().take(i as int)),
        decreases ls.len() - i,
    {
        assert(ls.deep_view().take(i + 1).drop_last() =~= ls.deep_view().take(i as int));
        assert(ls[i as int]@ == ls.deep_view()[i as int]);
        if let Some((k, v)) = split_once_char(ls[i].as_str(), '=') {
            let key = trim_str(k.as_str());
            if !has_key(&res, key.as_str()) {
                let value = trim_str(v.as_str());
                let ghost before = text_pairs(res@);
                res.push((key, value));
                assert(text_pairs(res@) =~= before.push((key@, value@)));
            }
        }
        i = i + 1;
    }
    assert(ls.deep_view().take(ls.len() as int) =~= ls.deep_view());
    res
}

/// A GPU after enrichment: for NVIDIA, the `nvidia-smi` facts added and the
/// package maps read; for AMD, the `vulkaninfo` facts added and the package
/// maps read; for Intel, the package maps read; an unknown GPU unchanged.
pub open spec fn enriched(
    g: GpuView,
    probe_output: Seq<char>,
    installed_outputs: Seq<Seq<char>>,
    available_outputs: Seq<Seq<char>>,
) -> GpuView {
    let installed = installed_from_outputs(installed_outputs);
    let available = available_from_outputs(available_patterns(g.vendor), available_outputs);
    match g.vendor {
        Vendor::Nvidia => GpuView {
            extra: g.extra + nvidia_smi_facts(probe_output),
            installed_pkgs: installed,
            available_pkgs: available,
            ..g
        },
        Vendor::Amd => GpuView {
            extra: g.extra + vulkan_facts(lines(probe_output)),
            installed_pkgs: installed,
            available_pkgs: available,
            ..g
        },
        Vendor::Intel => GpuView { installed_pkgs: installed, available_pkgs: available, ..g },
        Vendor::Unknown => g,
    }
}

/// Enrichment keeps what `lspci` told of a GPU (slot, name, PCI ID, vendor,
/// drivers) and the facts it already had: it only adds facts after them and
/// sets the package maps.
pub proof fn lemma_enrichment_keeps_identity(
    g: GpuView,
    probe_output: Seq<char>,
    installed_outputs: Seq<Seq<char>>,
    available_outputs: Seq<Seq<char>>,
)
    ensures
        ({
            let e = enriched(g, probe_output, installed_outputs, available_outputs);
            &&& e.slot == g.slot
            &&& e.name == g.name
            &&& e.pci_id == g.pci_id
            &&& e.vendor == g.vendor
            &&& e.driver_in_use == g.driver_in_use
            &&& e.driver_modules == g.driver_modules
            &&& e.extra.len() >= g.extra.len()
            &&& e.extra.take(g.extra.len() as int) == g.extra
        }),
{
    let e = enriched(g, probe_output, installed_outputs, available_outputs);
    assert(e.extra.take(g.extra.len() as int) =~= g.extra);
}

/// Adds to a GPU what its vendor's tools and the package database tell.
/// `probe_output` is the output of [`probe_command`] (ignored when there is
/// none), `installed_outputs` those of [`crate::packages::rpm_query_command`]
/// for each of [`installed_package_patterns`], `available_outputs` those of
/// [`crate::packages::dnf_available_command`] for each of
/// [`available_package_patterns`], in that order.
pub fn enrich_gpu(
    gpu: &mut GpuInfo,
    pats: &ParsePatterns,
    probe_output: &str,
    installed_outputs: &Vec<String>,
    available_outputs: &Vec<String>,
)
    ensures
        final(gpu)@ == enriched(
            old(gpu)@,
            probe_output@,
            installed_outputs.deep_view(),
            available_outputs.deep_view(),
        ),
{
    let ghost g = gpu@;
    match gpu.vendor {
        Vendor::Unknown => {
            return;
        },
        Vendor::Nvidia => {
            let facts = read_nvidia_smi(probe_output);
            append_facts(&mut gpu.extra, facts);
        },
        Vendor::Amd => {
            let facts = read_vulkan_summary(probe_output);
            append_facts(&mut gpu.extra, facts);
        },
        Vendor::Intel => {},
    }
    gpu.installed_pkgs = installed_packages(installed_outputs);
    let patterns = available_package_patterns(gpu.vendor);
    gpu.available_pkgs = available_packages(pats, patterns.as_slice(), available_outputs);
    assert(gpu@ == enriched(g, probe_output@, installed_outputs.deep_view(), available_outputs.deep_view()));
}

fn append_facts(extra: &mut Vec<(String, String)>, facts: Vec<(String, String)>)
    ensures
        text_pairs(final(extra)@) == text_pairs(old(extra)@) + text_pairs(facts@),
{
    let mut facts = facts;
    let ghost added = text_pairs(facts@);
    extra.append(&mut facts);
    assert(text_pairs(extra@) =~= text_pairs(old(extra)@) + added);
}

} // verus!
