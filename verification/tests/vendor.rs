use fedora_gpu_manager::vendor::Vendor;

#[test]
fn vendor_from_pci_id() {
    assert_eq!(Vendor::from_pci_id("10de:25a0"), Vendor::Nvidia);
    assert_eq!(Vendor::from_pci_id("10DE:25A0"), Vendor::Nvidia);
    assert_eq!(Vendor::from_pci_id("1002:747e"), Vendor::Amd);
    assert_eq!(Vendor::from_pci_id("8086"), Vendor::Intel);
    assert_eq!(Vendor::from_pci_id("?"), Vendor::Unknown);
    assert_eq!(Vendor::from_pci_id(""), Vendor::Unknown);
    assert_eq!(Vendor::from_pci_id(":10de"), Vendor::Unknown);
}

#[test]
fn labels_and_subtitles() {
    assert_eq!(Vendor::Nvidia.label(), "NVIDIA");
    assert_eq!(Vendor::Amd.label(), "AMD");
    assert_eq!(Vendor::Intel.label(), "Intel");
    assert_eq!(Vendor::Unknown.label(), "Unknown");
    assert_eq!(
        Vendor::Amd.subtitle(),
        "Open-source amdgpu driver (in-kernel) \u{b7} Mesa via main Fedora repos"
    );
    assert_eq!(Vendor::Unknown.subtitle(), "Unknown vendor");
}

#[test]
fn amd_integrated_gpus() {
    assert!(Vendor::is_amd_igpu("1002:164e"));
    assert!(Vendor::is_amd_igpu("1002:15BF"));
    assert!(Vendor::is_amd_igpu("1002:1901"));
    assert!(!Vendor::is_amd_igpu("1002:747e"));
    assert!(!Vendor::is_amd_igpu("10de:164e"));
}
