use fedora_gpu_manager::packages::dnf_entry;
use fedora_gpu_manager::packages::{
    available_packages, dnf_available_command, installed_packages, rpm_query_command, PackageMap,
};
use fedora_gpu_manager::pattern::ParsePatterns;

#[test]
fn map_insert_get_and_order() {
    let mut m = PackageMap::new();
    assert!(m.is_empty());
    m.insert("xorg-x11-drv-nvidia".to_string(), "2".to_string());
    m.insert("akmod-nvidia".to_string(), "1".to_string());
    m.insert("nvidia-settings".to_string(), "3".to_string());
    m.insert("akmod-nvidia".to_string(), "4".to_string());
    assert!(!m.is_empty());
    assert!(m.contains_key("akmod-nvidia"));
    assert!(!m.contains_key("akmod"));
    assert_eq!(m.get("akmod-nvidia"), Some("4".to_string()));
    assert_eq!(m.get("missing"), None);
    let names: Vec<String> = m.entries().into_iter().map(|(n, _)| n).collect();
    assert_eq!(names, vec!["akmod-nvidia", "nvidia-settings", "xorg-x11-drv-nvidia"]);
}

#[test]
fn rpm_output_is_read() {
    let outputs = vec![
        "akmod-nvidia 580.126.18-1.fc44\n".to_string(),
        "package nvidia-xconfig is not installed\n".to_string(),
        "xorg-x11-drv-nvidia 580.126.18-1.fc44\nxorg-x11-drv-nvidia-cuda 580.126.18-2.fc44".to_string(),
        "nospace\n".to_string(),
    ];
    let m = installed_packages(&outputs);
    assert_eq!(
        m.entries(),
        vec![
            ("akmod-nvidia".to_string(), "580.126.18-1.fc44".to_string()),
            ("xorg-x11-drv-nvidia".to_string(), "580.126.18-1.fc44".to_string()),
            ("xorg-x11-drv-nvidia-cuda".to_string(), "580.126.18-2.fc44".to_string()),
        ]
    );
}

#[test]
fn later_rpm_line_wins() {
    let outputs = vec!["mesa-dri-drivers 1\n".to_string(), "mesa-dri-drivers 2 extra\n".to_string()];
    let m = installed_packages(&outputs);
    assert_eq!(m.get("mesa-dri-drivers"), Some("2 extra".to_string()));
}

#[test]
fn dnf_output_is_read_and_filtered() {
    let pats = ParsePatterns::new().unwrap();
    let output = "Available Packages
akmod-nvidia.x86_64                    3:580.126.18-1.fc44     rpmfusion-nonfree-nvidia-driver
xorg-x11-drv-nvidia-libs.i686          3:580.126.18-1.fc44     rpmfusion-nonfree-nvidia-driver
kernel-devel.x86_64                    6.17.1-300.fc44         updates
"
    .to_string();
    let m = available_packages(&pats, &["akmod-nvidia", "xorg-x11-drv-nvidia*"], &vec![output]);
    assert_eq!(
        m.entries(),
        vec![
            ("akmod-nvidia".to_string(), "3:580.126.18-1.fc44".to_string()),
            ("xorg-x11-drv-nvidia-libs".to_string(), "3:580.126.18-1.fc44".to_string()),
        ]
    );
}

#[test]
fn query_commands() {
    assert_eq!(
        rpm_query_command("akmod-nvidia"),
        "rpm -q akmod-nvidia --queryformat '%{NAME} %{VERSION}-%{RELEASE}\\n' 2>/dev/null"
    );
    assert_eq!(
        dnf_available_command("mesa-dri-drivers"),
        "dnf list --available --cacheonly mesa-dri-drivers 2>/dev/null"
    );
}

#[test]
fn dnf_entry_needs_both_groups_and_a_pattern() {
    let some = |x: &str| Some(x.to_string());
    assert_eq!(
        dnf_entry(&["xorg-x11-drv-nvidia*"], some("xorg-x11-drv-nvidia-cuda"), some("3:580")),
        Some(("xorg-x11-drv-nvidia-cuda".to_string(), "3:580".to_string()))
    );
    assert_eq!(dnf_entry(&["akmod-nvidia"], some("kernel"), some("6.17")), None);
    assert_eq!(dnf_entry(&["akmod-nvidia"], some("akmod-nvidia"), None), None);
    assert_eq!(dnf_entry(&[], some("akmod-nvidia"), some("1")), None);
}
