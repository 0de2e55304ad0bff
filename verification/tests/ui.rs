use fedora_gpu_manager::enrich::enrich_gpu;
use fedora_gpu_manager::lspci::{detect_gpus, GpuInfo};
use fedora_gpu_manager::pattern::ParsePatterns;
use fedora_gpu_manager::ui::{
    banner_revealed, command_banner, completion_message, driver_panel, gpu_group_title,
    gpu_page_id, gpu_tab_title, identity_rows, output_line, package_rows, repo_actions,
    repo_status_rows, spawn_failure_message, CommandOutcome, PanelRow,
};

fn gpu(line: &str) -> GpuInfo {
    let pats = ParsePatterns::new().unwrap();
    detect_gpus(&pats, line).pop().unwrap()
}

fn nvidia() -> GpuInfo {
    gpu("01:00.0 VGA compatible controller [0300]: NVIDIA AD104 [10de:2782] (rev a1)\n")
}

fn install_command(row: &PanelRow) -> Option<&str> {
    match row {
        PanelRow::Install { command, .. } => Some(command.as_str()),
        PanelRow::Status { .. } => None,
    }
}

const DRIVER: &str = "dnf install -y akmod-nvidia xorg-x11-drv-nvidia xorg-x11-drv-nvidia-power nvidia-settings nvidia-modprobe";

#[test]
fn nvidia_without_nonfree_installs_rpmfusion_then_driver() {
    let p = driver_panel(&nvidia(), true, false, "44").unwrap();
    assert_eq!(p.title, "Driver Management");
    assert_eq!(
        p.description.as_deref(),
        Some("RPM Fusion nonfree is required for the NVIDIA proprietary driver.")
    );
    assert_eq!(p.rows.len(), 1);
    let expected = format!(
        "dnf install -y https://mirrors.rpmfusion.org/free/fedora/rpmfusion-free-release-44.noarch.rpm https://mirrors.rpmfusion.org/nonfree/fedora/rpmfusion-nonfree-release-44.noarch.rpm && dnf config-manager setopt fedora-cisco-openh264.enabled=1 && {}",
        DRIVER
    );
    assert_eq!(install_command(&p.rows[0]), Some(expected.as_str()));
}

#[test]
fn nvidia_with_nonfree_and_no_driver_installs_driver() {
    let p = driver_panel(&nvidia(), false, true, "44").unwrap();
    assert_eq!(p.description.as_deref(), Some("NVIDIA proprietary driver is not installed."));
    assert_eq!(install_command(&p.rows[0]), Some(DRIVER));
}

#[test]
fn nvidia_with_driver_shows_installed() {
    let pats = ParsePatterns::new().unwrap();
    let mut g = nvidia();
    enrich_gpu(&mut g, &pats, "", &vec!["akmod-nvidia 580.126.18-1.fc44".to_string()], &vec![]);
    let p = driver_panel(&g, true, true, "44").unwrap();
    assert_eq!(p.rows.len(), 1);
    match &p.rows[0] {
        PanelRow::Status { title, badge } => {
            assert_eq!(title, "Driver status");
            assert_eq!(badge, "Installed \u{2713}");
        }
        _ => panic!("expected a status row"),
    }
}

#[test]
fn amd_panels() {
    let discrete = gpu("03:00.0 VGA compatible controller [0300]: AMD Navi 32 [1002:747e]\n");
    let p = driver_panel(&discrete, false, false, "44").unwrap();
    assert_eq!(p.title, "Driver Status");
    assert_eq!(p.rows.len(), 2);
    assert_eq!(install_command(&p.rows[0]), None);
    assert!(install_command(&p.rows[1]).unwrap().starts_with("dnf install -y https://mirrors.rpmfusion.org/free/"));
    let p = driver_panel(&discrete, true, false, "44").unwrap();
    assert_eq!(p.rows.len(), 1);

    let integrated = gpu("04:00.0 VGA compatible controller [0300]: AMD Phoenix [1002:15BF]\n");
    assert!(driver_panel(&integrated, false, false, "44").is_none());
    assert_eq!(gpu_group_title(&integrated), "AMD GPU (Integrated)");
    assert_eq!(gpu_group_title(&discrete), "AMD GPU");
}

#[test]
fn intel_and_unknown_panels() {
    let intel = gpu("00:02.0 VGA compatible controller [0300]: Intel [8086:a780]\n");
    let p = driver_panel(&intel, false, false, "").unwrap();
    match &p.rows[0] {
        PanelRow::Status { title, badge } => {
            assert_eq!(title, "i915/xe driver");
            assert_eq!(badge, "In-kernel \u{2713}");
        }
        _ => panic!("expected a status row"),
    }
    assert_eq!(gpu_group_title(&intel), "Intel GPU (Integrated)");
    let unknown = gpu("05:00.0 Display controller [0380]: Other [1234:5678]\n");
    assert!(driver_panel(&unknown, false, false, "").is_none());
    assert_eq!(gpu_group_title(&unknown), "Unknown GPU");
}

#[test]
fn identity_and_package_rows() {
    let pats = ParsePatterns::new().unwrap();
    let mut g = gpu("03:00.0 VGA compatible controller [0300]: AMD Navi 32 [1002:747e]\n");
    enrich_gpu(
        &mut g,
        &pats,
        "deviceName = Radeon\ndriverVersion =",
        &vec!["mesa-dri-drivers 25.1.0-1.fc44".to_string()],
        &vec![],
    );
    let rows = identity_rows(&g);
    let expected: Vec<(String, String)> = vec![
        ("PCI Slot", "03:00.0"),
        ("PCI ID", "1002:747e"),
        ("Driver in use", "none"),
        ("Kernel modules", "none"),
        ("deviceName", "Radeon"),
        ("driverVersion", "\u{2014}"),
    ]
    .into_iter()
    .map(|(a, b)| (a.to_string(), b.to_string()))
    .collect();
    assert_eq!(rows, expected);
    assert_eq!(
        package_rows(&g.installed_pkgs),
        vec![("mesa-dri-drivers".to_string(), "25.1.0-1.fc44".to_string())]
    );
}

#[test]
fn repos_page() {
    let rows = repo_status_rows(true, false);
    assert_eq!(rows[0].name, "rpmfusion-free");
    assert_eq!(rows[0].badge, "Enabled \u{2713}");
    assert_eq!(rows[0].badge_class, "success");
    assert_eq!(rows[1].badge, "Disabled");
    assert_eq!(rows[1].badge_class, "warning");

    let done = repo_actions(true, true, "");
    assert_eq!(done.rows.len(), 1);
    assert!(install_command(&done.rows[0]).is_none());
    let both = repo_actions(false, false, "44");
    assert!(both.description.is_some());
    assert!(install_command(&both.rows[0]).unwrap().ends_with("fedora-cisco-openh264.enabled=1"));
    let free = repo_actions(false, true, "44");
    assert_eq!(
        install_command(&free.rows[0]),
        Some("dnf install -y https://mirrors.rpmfusion.org/free/fedora/rpmfusion-free-release-44.noarch.rpm")
    );
    let nonfree = repo_actions(true, false, "");
    assert_eq!(
        install_command(&nonfree.rows[0]),
        Some("dnf install -y https://mirrors.rpmfusion.org/nonfree/fedora/rpmfusion-nonfree-release-$(rpm -E %fedora).noarch.rpm")
    );
    assert!(!banner_revealed(true, true));
    assert!(banner_revealed(true, false));
    assert!(banner_revealed(false, false));
}

#[test]
fn tabs() {
    let n = nvidia();
    let amd_igpu = gpu("04:00.0 VGA compatible controller [0300]: AMD Phoenix [1002:15bf]\n");
    let intel = gpu("00:02.0 VGA compatible controller [0300]: Intel [8086:a780]\n");
    assert_eq!(gpu_tab_title(&n, 0, 1), "NVIDIA GPU");
    assert_eq!(gpu_tab_title(&n, 1, 2), "NVIDIA #2");
    assert_eq!(gpu_tab_title(&amd_igpu, 0, 2), "AMD iGPU");
    assert_eq!(gpu_tab_title(&intel, 0, 3), "Intel iGPU");
    assert_eq!(gpu_tab_title(&n, 11, 12), "NVIDIA #12");
    assert_eq!(gpu_page_id(0), "gpu0");
    assert_eq!(gpu_page_id(10), "gpu10");
}

#[test]
fn log_messages() {
    assert_eq!(command_banner("dnf install -y x"), "\u{25b6} dnf install -y x\n\n");
    assert_eq!(output_line("Installing"), "Installing\n");
    assert_eq!(spawn_failure_message("No such file"), "\u{2717} Failed to spawn pkexec: No such file\n");
    assert_eq!(completion_message(&CommandOutcome::Succeeded), "\n\u{2713} Done. Please refresh.\n");
    assert_eq!(completion_message(&CommandOutcome::Failed(Some(126))), "\n\u{2717} Failed (exit 126)\n");
    assert_eq!(completion_message(&CommandOutcome::Failed(None)), "\n\u{2717} Failed (exit -1)\n");
    assert_eq!(
        completion_message(&CommandOutcome::WaitFailed("interrupted".to_string())),
        "\n\u{2717} wait() error: interrupted\n"
    );
}
