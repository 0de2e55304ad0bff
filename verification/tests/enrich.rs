use fedora_gpu_manager::enrich::{
    available_package_patterns, enrich_gpu, installed_package_patterns, probe_command,
    read_nvidia_smi, read_vulkan_summary,
};
use fedora_gpu_manager::lspci::detect_gpus;
use fedora_gpu_manager::pattern::ParsePatterns;
use fedora_gpu_manager::vendor::Vendor;

fn pair(a: &str, b: &str) -> (String, String) {
    (a.to_string(), b.to_string())
}

#[test]
fn nvidia_smi_output() {
    assert_eq!(
        read_nvidia_smi("580.126.18, 96.00.AF.00.01"),
        vec![pair("nvidia-smi driver", "580.126.18"), pair("VBIOS version", "96.00.AF.00.01")]
    );
    assert_eq!(read_nvidia_smi("580.126.18"), vec![pair("nvidia-smi driver", "580.126.18")]);
    assert!(read_nvidia_smi("").is_empty());
}

#[test]
fn vulkan_output_keeps_first_of_each_key() {
    let out = "\tdeviceName         = AMD Radeon RX 7800 XT (RADV NAVI32)\n\tdriverVersion      = 25.0.4\n\tdeviceName = llvmpipe\nno equals here";
    assert_eq!(
        read_vulkan_summary(out),
        vec![
            pair("deviceName", "AMD Radeon RX 7800 XT (RADV NAVI32)"),
            pair("driverVersion", "25.0.4")
        ]
    );
}

#[test]
fn commands_and_patterns_per_vendor() {
    assert_eq!(
        probe_command(Vendor::Nvidia),
        Some("nvidia-smi --query-gpu=driver_version,vbios_version --format=csv,noheader 2>/dev/null | head -1")
    );
    assert_eq!(
        probe_command(Vendor::Amd),
        Some("vulkaninfo --summary 2>/dev/null | grep -iE 'deviceName|driverVersion' | head -2")
    );
    assert_eq!(probe_command(Vendor::Intel), None);
    assert_eq!(installed_package_patterns(Vendor::Nvidia).len(), 7);
    assert_eq!(available_package_patterns(Vendor::Intel), vec!["intel-media-driver", "libva-intel-driver"]);
    assert!(installed_package_patterns(Vendor::Unknown).is_empty());
}

#[test]
fn enrich_nvidia_gpu() {
    let pats = ParsePatterns::new().unwrap();
    let mut gpus =
        detect_gpus(&pats, "01:00.0 VGA compatible controller [0300]: NVIDIA AD104 [10de:2782] (rev a1)\n");
    let gpu = &mut gpus[0];
    let installed = vec![
        "akmod-nvidia 580.126.18-1.fc44".to_string(),
        "package xorg-x11-drv-nvidia is not installed".to_string(),
    ];
    let available = vec![
        "akmod-nvidia.x86_64  3:580.126.18-1.fc44  rpmfusion-nonfree\n".to_string(),
        String::new(),
    ];
    enrich_gpu(gpu, &pats, "580.126.18, 95.04.35.00.7A", &installed, &available);
    assert_eq!(
        gpu.extra,
        vec![pair("nvidia-smi driver", "580.126.18"), pair("VBIOS version", "95.04.35.00.7A")]
    );
    assert_eq!(gpu.installed_pkgs.get("akmod-nvidia"), Some("580.126.18-1.fc44".to_string()));
    assert!(!gpu.installed_pkgs.contains_key("xorg-x11-drv-nvidia"));
    assert_eq!(gpu.available_pkgs.get("akmod-nvidia"), Some("3:580.126.18-1.fc44".to_string()));
    assert_eq!(gpu.slot, "01:00.0");
}

#[test]
fn enrich_intel_ignores_probe_and_unknown_is_untouched() {
    let pats = ParsePatterns::new().unwrap();
    let mut gpus = detect_gpus(
        &pats,
        "00:02.0 VGA compatible controller [0300]: Intel [8086:a780]\n05:00.0 Display controller [0380]: Other [1234:5678]\n",
    );
    let installed = vec!["intel-media-driver 25.2.6-1.fc44".to_string()];
    enrich_gpu(&mut gpus[0], &pats, "ignored = yes", &installed, &vec![]);
    assert!(gpus[0].extra.is_empty());
    assert_eq!(gpus[0].installed_pkgs.get("intel-media-driver"), Some("25.2.6-1.fc44".to_string()));
    enrich_gpu(&mut gpus[1], &pats, "a = b", &installed, &vec![]);
    assert!(gpus[1].extra.is_empty());
    assert!(gpus[1].installed_pkgs.is_empty());
}
