//! What the pages of the GPU manager show, decided from plain values: the
//! titles, the status badges, which install actions are offered and the
//! commands they run, the log messages. Building the widgets is left to the
//! caller.
use vstd::prelude::*;

use crate::lspci::{GpuInfo, GpuView};
use crate::packages::{text_pairs, PackageMap};
use crate::rpmfusion::{
    install_free_release_cmd, install_nonfree_release_cmd, install_release_command,
    install_rpmfusion_cmd, install_rpmfusion_command,
};
use crate::text::{
    concat, decimal, decimal_string, signed_decimal, signed_decimal_string, unicode_lowercase,
};
use crate::vendor::{amd_igpu_ids, vendor_label, Vendor};

verus! {

/// One row of a panel.
pub enum PanelRow {
    /// A row that runs `command` as root when it is activated.
    Install { title: String, subtitle: String, command: String },
    /// A row with a status badge.
    Status { title: String, badge: String },
}

pub enum RowView {
    Install { title: Seq<char>, subtitle: Seq<char>, command: Seq<char> },
    Status { title: Seq<char>, badge: Seq<char> },
}

impl View for PanelRow {
    type V = RowView;

    open spec fn view(&self) -> RowView {
        match self {
            PanelRow::Install { title, subtitle, command } => RowView::Install {
                title: title@,
                subtitle: subtitle@,
                command: command@,
            },
            PanelRow::Status { title, badge } => RowView::Status { title: title@, badge: badge@ },
        }
    }
}

/// A titled group of rows, with an optional description.
pub struct Panel {
    pub title: String,
    pub description: Option<String>,
    pub rows: Vec<PanelRow>,
}

pub struct PanelView {
    pub title: Seq<char>,
    pub description: Option<Seq<char>>,
    pub rows: Seq<RowView>,
}

impl View for Panel {
    type V = PanelView;

    open spec fn view(&self) -> PanelView {
        PanelView {
            title: self.title@,
            description: match self.description {
                Some(d) => Some(d@),
                None => None,
            },
            rows: self.rows@.map_values(|r: PanelRow| r@),
        }
    }
}

pub open spec fn panel_view_of(p: Option<Panel>) -> Option<PanelView> {
    match p {
        Some(p) => Some(p@),
        None => None,
    }
}

/// The check mark of the status badges.
pub open spec fn check_mark() -> Seq<char> {
    "\u{2713}"@
}

/// The packages that make up the NVIDIA driver.
pub open spec fn nvidia_driver_install_command() -> Seq<char> {
    "dnf install -y akmod-nvidia xorg-x11-drv-nvidia xorg-x11-drv-nvidia-power nvidia-settings nvidia-modprobe"@
}

/// Whether a GPU is integrated: a known AMD integrated GPU, or any Intel GPU.
pub open spec fn is_integrated(vendor: Vendor, pci_id: Seq<char>) -> bool {
    (vendor == Vendor::Amd && amd_igpu_ids().contains(unicode_lowercase(pci_id)))
        || vendor == Vendor::Intel
}

/// Whether a GPU is a known AMD integrated GPU.
pub open spec fn is_amd_integrated(vendor: Vendor, pci_id: Seq<char>) -> bool {
    vendor == Vendor::Amd && amd_igpu_ids().contains(unicode_lowercase(pci_id))
}

pub fn is_amd_integrated_exec(vendor: Vendor, pci_id: &str) -> (res: bool)
    ensures
        res == is_amd_integrated(vendor, pci_id@),
{
    vendor == Vendor::Amd && Vendor::is_amd_igpu(pci_id)
}

/// The title of a GPU's identity group.
pub open spec fn gpu_title(vendor: Vendor, pci_id: Seq<char>) -> Seq<char> {
    if is_amd_integrated(vendor, pci_id) {
        vendor_label(vendor) + " GPU (Integrated)"@
    } else if vendor == Vendor::Intel {
        "Intel GPU (Integrated)"@
    } else {
        vendor_label(vendor) + " GPU"@
    }
}

/// The title of a GPU's identity group: `AMD GPU (Integrated)` for a known
/// AMD integrated GPU, `Intel GPU (Integrated)` for Intel, else the vendor
/// and `GPU`.
pub fn gpu_group_title(gpu: &GpuInfo) -> (res: String)
    ensures
        res@ == gpu_title(gpu.vendor, gpu.pci_id@),
{
    if is_amd_integrated_exec(gpu.vendor, gpu.pci_id.as_str()) {
        concat(gpu.vendor.label(), " GPU (Integrated)")
    } else if gpu.vendor == Vendor::Intel {
        "Intel GPU (Integrated)".to_owned()
    } else {
        concat(gpu.vendor.label(), " GPU")
    }
}

/// A row subtitle as shown: an em dash in place of an empty text.
pub open spec fn shown(s: Seq<char>) -> Seq<char> {
    if s.len() == 0 {
        "\u{2014}"@
    } else {
        s
    }
}

pub fn shown_exec(s: &str) -> (res: String)
    ensures
        res@ == shown(s@),
{
    if s.is_empty() {
        "\u{2014}".to_owned()
    } else {
        s.to_owned()
    }
}

/// The identity rows of a GPU: slot, PCI ID, driver in use, kernel modules,
/// then the extra facts, each value as [`shown`].
pub open spec fn identity_rows_of(g: GpuView) -> Seq<(Seq<char>, Seq<char>)> {
    seq![
        ("PCI Slot"@, shown(g.slot)),
        ("PCI ID"@, shown(g.pci_id)),
        ("Driver in use"@, shown(g.driver_in_use)),
        ("Kernel modules"@, shown(g.driver_modules)),
    ] + g.extra.map_values(|p: (Seq<char>, Seq<char>)| (p.0, shown(p.1)))
}

/// The identity rows of a GPU (see [`identity_rows_of`]).
pub fn identity_rows(gpu: &GpuInfo) -> (res: Vec<(String, String)>)
    ensures
        text_pairs(res@) == identity_rows_of(gpu@),
{
    let mut res: Vec<(String, String)> = Vec::new();
    res.push(("PCI Slot".to_owned(), shown_exec(gpu.slot.as_str())));
    res.push(("PCI ID".to_owned(), shown_exec(gpu.pci_id.as_str())));
    res.push(("Driver in use".to_owned(), shown_exec(gpu.driver_in_use.as_str())));
    res.push(("Kernel modules".to_owned(), shown_exec(gpu.driver_modules.as_str())));
    let ghost head = text_pairs(res@);
    let ghost extra = text_pairs(gpu.extra@);
    let mut i: usize = 0;
    while i < gpu.extra.len()
        invariant
            i <= gpu.extra.len(),
            extra == text_pairs(gpu.extra@),
            head.len() == 4,
            text_pairs(res@) == head + extra.take(i as int).map_values(
                |p: (Seq<char>, Seq<char>)| (p.0, shown(p.1)),
            ),
        decreases gpu.extra.len() - i,
    {
        let key = gpu.extra[i].0.clone();
        let value = shown_exec(gpu.extra[i].1.as_str());
        let ghost before = text_pairs(res@);
        res.push((key, value));
        assert(text_pairs(res@) =~= before.push((key@, value@)));
        i = i + 1;
        assert(extra.take(i as int).map_values(|p: (Seq<char>, Seq<char>)| (p.0, shown(p.1)))
            =~= extra.take(i - 1).map_values(|p: (Seq<char>, Seq<char>)| (p.0, shown(p.1))).push(
            (extra[i - 1].0, shown(extra[i - 1].1)),
        ));
    }
    assert(extra.take(i as int) =~= extra);
    assert(text_pairs(res@) =~= identity_rows_of(gpu@));
    res
}

/// The rows of a package group: each package with its version as
/// [`shown`], in name order.
pub fn package_rows(pkgs: &PackageMap) -> (res: Vec<(String, String)>)
    ensures
        text_pairs(res@) == pkgs.pairs().map_values(
            |p: (Seq<char>, Seq<char>)| (p.0, shown(p.1)),
        ),
{
    let entries = pkgs.entries();
    let mut res: Vec<(String, String)> = Vec::new();
    let ghost ps = text_pairs(entries@);
    let mut i: usize = 0;
    while i < entries.len()
        invariant
            i <= entries.len(),
            ps == text_pairs(entries@),
            text_pairs(res@) == ps.take(i as int).map_values(
                |p: (Seq<char>, Seq<char>)| (p.0, shown(p.1)),
            ),
        decreases entries.len() - i,
    {
        let name = entries[i].0.clone();
        let version = shown_exec(entries[i].1.as_str());
        let ghost before = text_pairs(res@);
        res.push((name, version));
        assert(text_pairs(res@) =~= before.push((name@, version@)));
        i = i + 1;
        assert(ps.take(i as int).map_values(|p: (Seq<char>, Seq<char>)| (p.0, shown(p.1)))
            =~= ps.take(i - 1).map_values(|p: (Seq<char>, Seq<char>)| (p.0, shown(p.1))).push(
            (ps[i - 1].0, shown(ps[i - 1].1)),
        ));
    }
    assert(ps.take(i as int) =~= ps);
    res
}

/// The driver panel of a GPU. NVIDIA: without the nonfree repository, an
/// action that installs RPM Fusion and the driver; with it but without
/// `akmod-nvidia`, an action that installs the driver; else an installed
/// badge. A discrete AMD GPU: an in-kernel badge, and an optional RPM Fusion
/// install when the free repository is not enabled. Intel: an in-kernel
/// badge. An integrated AMD GPU or an unknown vendor: no panel.
pub open spec fn driver_panel_of(
    g: GpuView,
    free: bool,
    nonfree: bool,
    fedora_version: Seq<char>,
) -> Option<PanelView> {
    match g.vendor {
        Vendor::Nvidia => Some(
            if !nonfree {
                PanelView {
                    title: "Driver Management"@,
                    description: Some(
                        "RPM Fusion nonfree is required for the NVIDIA proprietary driver."@,
                    ),
                    rows: seq![
                        RowView::Install {
                            title: "Install RPM Fusion &amp; NVIDIA Driver"@,
                            subtitle: "Installs RPM Fusion nonfree repos then akmod-nvidia"@,
                            command: install_rpmfusion_command(fedora_version) + " && "@
                                + nvidia_driver_install_command(),
                        },
                    ],
                }
            } else if !g.installed_pkgs.contains_key("akmod-nvidia"@) {
                PanelView {
                    title: "Driver Management"@,
                    description: Some("NVIDIA proprietary driver is not installed."@),
                    rows: seq![
                        RowView::Install {
                            title: "Install NVIDIA Driver"@,
                            subtitle: "Installs akmod-nvidia, xorg-x11-drv-nvidia, nvidia-settings"@,
                            command: nvidia_driver_install_command(),
                        },
                    ],
                }
            } else {
                PanelView {
                    title: "Driver Management"@,
                    description: Some(
                        "NVIDIA proprietary driver is installed. A reboot may be required after kernel updates for akmod to rebuild."@,
                    ),
                    rows: seq![
                        RowView::Status {
                            title: "Driver status"@,
                            badge: "Installed "@ + check_mark(),
                        },
                    ],
                }
            },
        ),
        Vendor::Amd => if is_integrated(g.vendor, g.pci_id) {
            None
        } else {
            let status = RowView::Status { title: "amdgpu driver"@, badge: "In-kernel "@ + check_mark() };
            Some(
                PanelView {
                    title: "Driver Status"@,
                    description: Some(
                        "AMD GPUs use the open-source amdgpu driver built into the kernel. No proprietary driver or additional repositories are required."@,
                    ),
                    rows: if free {
                        seq![status]
                    } else {
                        seq![
                            status,
                            RowView::Install {
                                title: "Install RPM Fusion (optional)"@,
                                subtitle: "Adds extra Mesa builds and ROCm compute packages"@,
                                command: install_rpmfusion_command(fedora_version),
                            },
                        ]
                    },
                },
            )
        },
        Vendor::Intel => Some(
            PanelView {
                title: "Driver Status"@,
                description: Some(
                    "Intel GPUs use the open-source i915/xe driver built into the kernel. No additional repositories are required for basic operation."@,
                ),
                rows: seq![
                    RowView::Status { title: "i915/xe driver"@, badge: "In-kernel "@ + check_mark() },
                ],
            },
        ),
        Vendor::Unknown => None,
    }
}

fn status_row(title: &str, badge_text: &str) -> (res: PanelRow)
    ensures
        res@ == (RowView::Status { title: title@, badge: badge_text@ + check_mark() }),
{
    PanelRow::Status { title: title.to_owned(), badge: concat(badge_text, "\u{2713}") }
}

fn install_row(title: &str, subtitle: &str, command: String) -> (res: PanelRow)
    ensures
        res@ == (RowView::Install { title: title@, subtitle: subtitle@, command: command@ }),
{
    PanelRow::Install { title: title.to_owned(), subtitle: subtitle.to_owned(), command }
}

/// The driver panel of a GPU (see [`driver_panel_of`]); `fedora_version` is
/// the output of [`crate::rpmfusion::FEDORA_VERSION_QUERY`].
pub fn driver_panel(gpu: &GpuInfo, free: bool, nonfree: bool, fedora_version: &str) -> (res:
    Option<Panel>)
    ensures
        panel_view_of(res) == driver_panel_of(gpu@, free, nonfree, fedora_version@),
{
    match gpu.vendor {
        Vendor::Nvidia => {
            if !nonfree {
                let rpmfusion = install_rpmfusion_cmd(fedora_version);
                let with_sep = concat(rpmfusion.as_str(), " && ");
                let command = concat(
                    with_sep.as_str(),
                    "dnf install -y akmod-nvidia xorg-x11-drv-nvidia xorg-x11-drv-nvidia-power nvidia-settings nvidia-modprobe",
                );
                let rows = vec![
                    install_row(
                        "Install RPM Fusion &amp; NVIDIA Driver",
                        "Installs RPM Fusion nonfree repos then akmod-nvidia",
                        command,
                    ),
                ];
                let p = Panel {
                    title: "Driver Management".to_owned(),
                    description: Some(
                        "RPM Fusion nonfree is required for the NVIDIA proprietary driver.".to_owned(),
                    ),
                    rows,
                };
                assert(p@.rows =~= driver_panel_of(gpu@, free, nonfree, fedora_version@)->0.rows);
                Some(p)
            } else if !gpu.installed_pkgs.contains_key("akmod-nvidia") {
                let rows = vec![
                    install_row(
                        "Install NVIDIA Driver",
                        "Installs akmod-nvidia, xorg-x11-drv-nvidia, nvidia-settings",
                        "dnf install -y akmod-nvidia xorg-x11-drv-nvidia xorg-x11-drv-nvidia-power nvidia-settings nvidia-modprobe".to_owned(),
                    ),
                ];
                let p = Panel {
                    title: "Driver Management".to_owned(),
                    description: Some("NVIDIA proprietary driver is not installed.".to_owned()),
                    rows,
                };
                assert(p@.rows =~= driver_panel_of(gpu@, free, nonfree, fedora_version@)->0.rows);
                Some(p)
            } else {
                let rows = vec![status_row("Driver status", "Installed ")];
                let p = Panel {
                    title: "Driver Management".to_owned(),
                    description: Some(
                        "NVIDIA proprietary driver is installed. A reboot may be required after kernel updates for akmod to rebuild.".to_owned(),
                    ),
                    rows,
                };
                assert(p@.rows =~= driver_panel_of(gpu@, free, nonfree, fedora_version@)->0.rows);
                Some(p)
            }
        },
        Vendor::Amd => {
            if Vendor::is_amd_igpu(gpu.pci_id.as_str()) {
                return None;
            }
            let mut rows = vec![status_row("amdgpu driver", "In-kernel ")];
            if !free {
                rows.push(
                    install_row(
                        "Install RPM Fusion (optional)",
                        "Adds extra Mesa builds and ROCm compute packages",
                        install_rpmfusion_cmd(fedora_version),
                    ),
                );
            }
            let p = Panel {
                title: "Driver Status".to_owned(),
                description: Some(
                    "AMD GPUs use the open-source amdgpu driver built into the kernel. No proprietary driver or additional repositories are required.".to_owned(),
                ),
                rows,
            };
            assert(p@.rows =~= driver_panel_of(gpu@, free, nonfree, fedora_version@)->0.rows);
            Some(p)
        },
        Vendor::Intel => {
            let rows = vec![status_row("i915/xe driver", "In-kernel ")];
            let p = Panel {
                title: "Driver Status".to_owned(),
                description: Some(
                    "Intel GPUs use the open-source i915/xe driver built into the kernel. No additional repositories are required for basic operation.".to_owned(),
                ),
                rows,
            };
            assert(p@.rows =~= driver_panel_of(gpu@, free, nonfree, fedora_version@)->0.rows);
            Some(p)
        },
        Vendor::Unknown => None,
    }
}

/// A status row of the repositories page.
pub struct RepoStatus {
    pub name: &'static str,
    pub description: &'static str,
    pub badge: String,
    /// The style class of the badge: `success` or `warning`.
    pub badge_class: &'static str,
}

/// The badge of a repository: `Enabled ✓` in the success style, or
/// `Disabled` in the warning style.
pub open spec fn repo_badge(enabled: bool) -> (Seq<char>, Seq<char>) {
    if enabled {
        ("Enabled "@ + check_mark(), "success"@)
    } else {
        ("Disabled"@, "warning"@)
    }
}

/// The status rows of the repositories page: the free repository, then the
/// nonfree one, each with its badge.
pub fn repo_status_rows(free: bool, nonfree: bool) -> (res: Vec<RepoStatus>)
    ensures
        res.len() == 2,
        res[0].name@ == "rpmfusion-free"@,
        res[0].description@ == "Open-source GPU packages (Mesa, ROCm)"@,
        (res[0].badge@, res[0].badge_class@) == repo_badge(free),
        res[1].name@ == "rpmfusion-nonfree"@,
        res[1].description@ == "Proprietary GPU drivers (akmod-nvidia)"@,
        (res[1].badge@, res[1].badge_class@) == repo_badge(nonfree),
{
    let free_badge = if free { concat("Enabled ", "\u{2713}") } else { "Disabled".to_owned() };
    let nonfree_badge = if nonfree { concat("Enabled ", "\u{2713}") } else { "Disabled".to_owned() };
    vec![
        RepoStatus {
            name: "rpmfusion-free",
            description: "Open-source GPU packages (Mesa, ROCm)",
            badge: free_badge,
            badge_class: if free { "success" } else { "warning" },
        },
        RepoStatus {
            name: "rpmfusion-nonfree",
            description: "Proprietary GPU drivers (akmod-nvidia)",
            badge: nonfree_badge,
            badge_class: if nonfree { "success" } else { "warning" },
        },
    ]
}

/// The actions panel of the repositories page: nothing to do when both
/// repositories are enabled; otherwise one install action, of both release
/// packages when neither is enabled, else of the one that is missing.
pub open spec fn repo_actions_of(free: bool, nonfree: bool, fedora_version: Seq<char>) -> PanelView {
    if free && nonfree {
        PanelView {
            title: "Actions"@,
            description: None,
            rows: seq![
                RowView::Status { title: "RPM Fusion fully configured"@, badge: "No action needed "@ + check_mark() },
            ],
        }
    } else if !free && !nonfree {
        PanelView {
            title: "Actions"@,
            description: Some(
                "RPM Fusion is not installed. Click below to install both free and nonfree repositories and enable the Cisco OpenH264 codec."@,
            ),
            rows: seq![
                RowView::Install {
                    title: "Install RPM Fusion (free + nonfree)"@,
                    subtitle: "Installs both repos and enables fedora-cisco-openh264"@,
                    command: install_rpmfusion_command(fedora_version),
                },
            ],
        }
    } else if !free {
        PanelView {
            title: "Actions"@,
            description: None,
            rows: seq![
                RowView::Install {
                    title: "Install rpmfusion-free"@,
                    subtitle: "Adds Mesa, ROCm, and open-source GPU packages"@,
                    command: install_release_command("free"@, fedora_version),
                },
            ],
        }
    } else {
        PanelView {
            title: "Actions"@,
            description: None,
            rows: seq![
                RowView::Install {
                    title: "Install rpmfusion-nonfree"@,
                    subtitle: "Adds akmod-nvidia and proprietary NVIDIA drivers"@,
                    command: install_release_command("nonfree"@, fedora_version),
                },
            ],
        }
    }
}

/// The actions panel of the repositories page (see [`repo_actions_of`]).
pub fn repo_actions(free: bool, nonfree: bool, fedora_version: &str) -> (res: Panel)
    ensures
        res@ == repo_actions_of(free, nonfree, fedora_version@),
{
    let (description, row) = if free && nonfree {
        (None, status_row("RPM Fusion fully configured", "No action needed "))
    } else if !free && !nonfree {
        (
            Some(
                "RPM Fusion is not installed. Click below to install both free and nonfree repositories and enable the Cisco OpenH264 codec.".to_owned(),
            ),
            install_row(
                "Install RPM Fusion (free + nonfree)",
                "Installs both repos and enables fedora-cisco-openh264",
                install_rpmfusion_cmd(fedora_version),
            ),
        )
    } else if !free {
        (
            None,
            install_row(
                "Install rpmfusion-free",
                "Adds Mesa, ROCm, and open-source GPU packages",
                install_free_release_cmd(fedora_version),
            ),
        )
    } else {
        (
            None,
            install_row(
                "Install rpmfusion-nonfree",
                "Adds akmod-nvidia and proprietary NVIDIA drivers",
                install_nonfree_release_cmd(fedora_version),
            ),
        )
    };
    let p = Panel { title: "Actions".to_owned(), description, rows: vec![row] };
    assert(p@.rows =~= repo_actions_of(free, nonfree, fedora_version@).rows);
    p
}

/// Whether the banner that points to the repositories page shows: when a
/// repository is not enabled.
pub open spec fn banner_shown(free: bool, nonfree: bool) -> bool {
    !free || !nonfree
}

pub fn banner_revealed(free: bool, nonfree: bool) -> (res: bool)
    ensures
        res == banner_shown(free, nonfree),
{
    !free || !nonfree
}

/// The repositories page always offers exactly one action, and it is an
/// install action exactly when the banner shows, that is when a repository
/// is not enabled.
pub proof fn lemma_banner_matches_repo_action(free: bool, nonfree: bool, fedora_version: Seq<char>)
    ensures
        repo_actions_of(free, nonfree, fedora_version).rows.len() == 1,
        banner_shown(free, nonfree) <==> repo_actions_of(free, nonfree, fedora_version).rows[0] is Install,
{
}

/// An NVIDIA GPU's panel offers an install action exactly when the nonfree
/// repository is not enabled or `akmod-nvidia` is not installed; a panel
/// that offers RPM Fusion then installs the driver in the same command.
pub proof fn lemma_nvidia_panel_offers_install(
    g: GpuView,
    free: bool,
    nonfree: bool,
    fedora_version: Seq<char>,
)
    requires
        g.vendor == Vendor::Nvidia,
    ensures
        driver_panel_of(g, free, nonfree, fedora_version) is Some,
        driver_panel_of(g, free, nonfree, fedora_version)->0.rows.len() == 1,
        (driver_panel_of(g, free, nonfree, fedora_version)->0.rows[0] is Install) <==> (!nonfree
            || !g.installed_pkgs.contains_key("akmod-nvidia"@)),
{
}

/// A discrete AMD GPU (one that is not a known AMD integrated GPU) gets the
/// `Driver Status` panel: the in-kernel `amdgpu driver` badge, followed by an
/// optional RPM Fusion install exactly when the free repository is not
/// enabled, whatever the state of the nonfree one.
pub proof fn lemma_discrete_amd_panel(
    g: GpuView,
    free: bool,
    nonfree: bool,
    fedora_version: Seq<char>,
)
    requires
        g.vendor == Vendor::Amd,
        !amd_igpu_ids().contains(unicode_lowercase(g.pci_id)),
    ensures
        driver_panel_of(g, free, nonfree, fedora_version) is Some,
        driver_panel_of(g, free, nonfree, fedora_version)->0.title == "Driver Status"@,
        driver_panel_of(g, free, nonfree, fedora_version)->0.rows.len() == (if free {
            1int
        } else {
            2int
        }),
        driver_panel_of(g, free, nonfree, fedora_version)->0.rows[0] == (RowView::Status {
            title: "amdgpu driver"@,
            badge: "In-kernel "@ + check_mark(),
        }),
        !free ==> driver_panel_of(g, free, nonfree, fedora_version)->0.rows[1] == (
        RowView::Install {
            title: "Install RPM Fusion (optional)"@,
            subtitle: "Adds extra Mesa builds and ROCm compute packages"@,
            command: install_rpmfusion_command(fedora_version),
        }),
        driver_panel_of(g, free, nonfree, fedora_version) == driver_panel_of(
            g,
            free,
            !nonfree,
            fedora_version,
        ),
{
}

/// A known AMD integrated GPU, and a GPU of an unknown vendor, get no driver
/// panel; an Intel GPU gets the in-kernel `i915/xe driver` badge alone.
pub proof fn lemma_panel_without_actions(
    g: GpuView,
    free: bool,
    nonfree: bool,
    fedora_version: Seq<char>,
)
    ensures
        (g.vendor == Vendor::Amd && amd_igpu_ids().contains(unicode_lowercase(g.pci_id)))
            ==> driver_panel_of(g, free, nonfree, fedora_version) is None,
        g.vendor == Vendor::Unknown ==> driver_panel_of(g, free, nonfree, fedora_version) is None,
        g.vendor == Vendor::Intel ==> driver_panel_of(g, free, nonfree, fedora_version) is Some
            && driver_panel_of(g, free, nonfree, fedora_version)->0.rows == seq![
            RowView::Status { title: "i915/xe driver"@, badge: "In-kernel "@ + check_mark() },
        ],
{
}

/// The tab title of the GPU at `index` among `count`: the vendor and `GPU`
/// when there is only one; else `iGPU` for a known AMD integrated GPU,
/// `Intel iGPU` for Intel, and the vendor with the position (from 1)
/// otherwise.
pub open spec fn tab_title(vendor: Vendor, pci_id: Seq<char>, index: nat, count: nat) -> Seq<char> {
    if count == 1 {
        vendor_label(vendor) + " GPU"@
    } else if is_amd_integrated(vendor, pci_id) {
        vendor_label(vendor) + " iGPU"@
    } else if vendor == Vendor::Intel {
        "Intel iGPU"@
    } else {
        vendor_label(vendor) + " #"@ + decimal(index + 1)
    }
}

/// The tab title of the GPU at `index` among `count` (see [`tab_title`]).
pub fn gpu_tab_title(gpu: &GpuInfo, index: usize, count: usize) -> (res: String)
    requires
        index < count,
    ensures
        res@ == tab_title(gpu.vendor, gpu.pci_id@, index as nat, count as nat),
{
    if count == 1 {
        concat(gpu.vendor.label(), " GPU")
    } else if is_amd_integrated_exec(gpu.vendor, gpu.pci_id.as_str()) {
        concat(gpu.vendor.label(), " iGPU")
    } else if gpu.vendor == Vendor::Intel {
        "Intel iGPU".to_owned()
    } else {
        let head = concat(gpu.vendor.label(), " #");
        let position = decimal_string((index + 1) as u64);
        concat(head.as_str(), position.as_str())
    }
}

/// How the GPU tabs are titled. A lone GPU is `<vendor> GPU`. Among several,
/// a known AMD integrated GPU is `AMD iGPU`, an Intel GPU is `Intel iGPU`,
/// and any other GPU, a discrete AMD GPU among them, is its vendor, `#` and
/// its position counted from 1.
pub proof fn lemma_tab_titles(vendor: Vendor, pci_id: Seq<char>, index: nat, count: nat)
    ensures
        count == 1 ==> tab_title(vendor, pci_id, index, count) == vendor_label(vendor)
            + " GPU"@,
        count > 1 && vendor == Vendor::Amd && amd_igpu_ids().contains(unicode_lowercase(pci_id))
            ==> tab_title(vendor, pci_id, index, count) == "AMD iGPU"@,
        count > 1 && vendor == Vendor::Intel ==> tab_title(vendor, pci_id, index, count)
            == "Intel iGPU"@,
        count > 1 && vendor != Vendor::Intel && !(vendor == Vendor::Amd && amd_igpu_ids().contains(
            unicode_lowercase(pci_id),
        )) ==> tab_title(vendor, pci_id, index, count) == vendor_label(vendor) + " #"@
            + decimal(index + 1),
{
    reveal_strlit("AMD");
    reveal_strlit(" iGPU");
    reveal_strlit("AMD iGPU");
    assert("AMD"@ + " iGPU"@ =~= "AMD iGPU"@);
}

/// The page name of the GPU at `index`: `gpu` and the index.
pub fn gpu_page_id(index: usize) -> (res: String)
    ensures
        res@ == "gpu"@ + decimal(index as nat),
{
    let digits = decimal_string(index as u64);
    concat("gpu", digits.as_str())
}

/// How a privileged command ended.
pub enum CommandOutcome {
    /// It exited with success.
    Succeeded,
    /// It exited with failure, with its exit code when it had one.
    Failed(Option<i32>),
    /// Waiting for it failed; the text describes the error.
    WaitFailed(String),
}

/// The log line that announces a command.
pub fn command_banner(command: &str) -> (res: String)
    ensures
        res@ == "\u{25b6} "@ + command@ + "\n\n"@,
{
    let head = concat("\u{25b6} ", command);
    concat(head.as_str(), "\n\n")
}

/// A line of the command's output, as it goes to the log.
pub fn output_line(line: &str) -> (res: String)
    ensures
        res@ == line@ + "\n"@,
{
    concat(line, "\n")
}

/// The log line when the command could not be started.
pub fn spawn_failure_message(error: &str) -> (res: String)
    ensures
        res@ == "\u{2717} Failed to spawn pkexec: "@ + error@ + "\n"@,
{
    let head = concat("\u{2717} Failed to spawn pkexec: ", error);
    concat(head.as_str(), "\n")
}

/// The log line that ends a command: done, failed with its exit code (-1
/// when it has none), or the error of waiting for it.
pub open spec fn outcome_text(outcome: CommandOutcome) -> Seq<char> {
    match outcome {
        CommandOutcome::Succeeded => "\n\u{2713} Done. Please refresh.\n"@,
        CommandOutcome::Failed(code) => "\n\u{2717} Failed (exit "@ + signed_decimal(
            match code {
                Some(c) => c as int,
                None => -1,
            },
        ) + ")\n"@,
        CommandOutcome::WaitFailed(e) => "\n\u{2717} wait() error: "@ + e@ + "\n"@,
    }
}

/// The log line that ends a command (see [`outcome_text`]).
pub fn completion_message(outcome: &CommandOutcome) -> (res: String)
    ensures
        res@ == outcome_text(*outcome),
{
    match outcome {
        CommandOutcome::Succeeded => "\n\u{2713} Done. Please refresh.\n".to_owned(),
        CommandOutcome::Failed(code) => {
            let c: i32 = match code {
                Some(c) => *c,
                None => -1,
            };
            let digits = signed_decimal_string(c);
            let head = concat("\n\u{2717} Failed (exit ", digits.as_str());
            concat(head.as_str(), ")\n")
        },
        CommandOutcome::WaitFailed(e) => {
            let head = concat("\n\u{2717} wait() error: ", e.as_str());
            concat(head.as_str(), "\n")
        },
    }
}

} // verus!
