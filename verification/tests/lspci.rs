use fedora_gpu_manager::lspci::blocks_from_matches;
use fedora_gpu_manager::lspci::gpu_record;
use fedora_gpu_manager::lspci::detect_gpus;
use fedora_gpu_manager::pattern::ParsePatterns;
use fedora_gpu_manager::vendor::Vendor;

const LAPTOP: &str = "00:02.0 VGA compatible controller [0300]: Intel Corporation Alder Lake-P GT2 [Iris Xe Graphics] [8086:46a6] (rev 0c)
\tSubsystem: Lenovo Device [17aa:22e6]
\tKernel driver in use: i915
\tKernel modules: i915, xe
00:14.0 USB controller [0c03]: Intel Corporation Alder Lake PCH USB 3.2 xHCI Host Controller [8086:51ed] (rev 01)
\tSubsystem: Lenovo Device [17aa:22e6]
\tKernel driver in use: xhci_hcd
01:00.0 3D controller [0302]: NVIDIA Corporation GA107M [GeForce RTX 3050 Mobile] [10de:25a2] (rev a1)
\tSubsystem: Lenovo Device [17aa:22e6]
\tKernel modules: nouveau, nvidia_drm, nvidia
";

#[test]
fn laptop_with_two_gpus() {
    let pats = ParsePatterns::new().unwrap();
    let gpus = detect_gpus(&pats, LAPTOP);
    assert_eq!(gpus.len(), 2);

    assert_eq!(gpus[0].slot, "00:02.0");
    assert_eq!(gpus[0].pci_id, "8086:46a6");
    assert_eq!(gpus[0].vendor, Vendor::Intel);
    assert_eq!(
        gpus[0].name,
        "00:02.0 VGA compatible controller [0300]: Intel Corporation Alder Lake-P GT2 [Iris Xe Graphics] [8086:46a6] (rev 0c)"
    );
    assert_eq!(gpus[0].driver_in_use, "i915");
    assert_eq!(gpus[0].driver_modules, "i915, xe");
    assert!(gpus[0].installed_pkgs.is_empty());
    assert!(gpus[0].available_pkgs.is_empty());
    assert!(gpus[0].extra.is_empty());

    assert_eq!(gpus[1].slot, "01:00.0");
    assert_eq!(gpus[1].pci_id, "10de:25a2");
    assert_eq!(gpus[1].vendor, Vendor::Nvidia);
    assert_eq!(gpus[1].driver_in_use, "none");
    assert_eq!(gpus[1].driver_modules, "nouveau, nvidia_drm, nvidia");
}

#[test]
fn controller_prefix_and_trailing_id_are_removed_from_the_name() {
    let pats = ParsePatterns::new().unwrap();
    let raw = "0a:00.0 VGA controller: Advanced Micro Devices [AMD/ATI] Navi 32 [1002:747e]\n\tKernel driver in use:   amdgpu  \n";
    let gpus = detect_gpus(&pats, raw);
    assert_eq!(gpus.len(), 1);
    assert_eq!(gpus[0].name, "Advanced Micro Devices [AMD/ATI] Navi 32");
    assert_eq!(gpus[0].vendor, Vendor::Amd);
    assert_eq!(gpus[0].driver_in_use, "amdgpu");
    assert_eq!(gpus[0].driver_modules, "none");
}

#[test]
fn missing_slot_and_id_read_as_question_marks() {
    let pats = ParsePatterns::new().unwrap();
    // The block starts at a slot, but the first line has no [vvvv:dddd] ID.
    let raw = "03:00.0 Display controller: Some Device\n";
    let gpus = detect_gpus(&pats, raw);
    assert_eq!(gpus.len(), 1);
    assert_eq!(gpus[0].slot, "03:00.0");
    assert_eq!(gpus[0].pci_id, "?");
    assert_eq!(gpus[0].vendor, Vendor::Unknown);
}

#[test]
fn later_driver_line_wins() {
    let pats = ParsePatterns::new().unwrap();
    let raw = "01:00.0 VGA compatible controller [0300]: X [10de:2684]\n\tKernel driver in use: nouveau\n\tKernel driver in use: nvidia\n";
    let gpus = detect_gpus(&pats, raw);
    assert_eq!(gpus[0].driver_in_use, "nvidia");
}

#[test]
fn no_gpu_in_empty_or_unrelated_output() {
    let pats = ParsePatterns::new().unwrap();
    assert!(detect_gpus(&pats, "").is_empty());
    assert!(detect_gpus(&pats, "00:1f.3 Audio device [0403]: Intel [8086:51c8]\n").is_empty());
    // Text before the first slot belongs to no block.
    assert!(detect_gpus(&pats, "VGA 3D Display\n").is_empty());
}

#[test]
fn blocks_are_match_plus_following_piece() {
    let s = |v: &[&str]| v.iter().map(|x| x.to_string()).collect::<Vec<String>>();
    assert_eq!(
        blocks_from_matches(&s(&["00:02.0", "01:00.0"]), &s(&["pre", " VGA a\n", " 3D b\n"])),
        s(&["00:02.0 VGA a\n", "01:00.0 3D b\n"])
    );
    assert!(blocks_from_matches(&s(&[]), &s(&["only"])).is_empty());
    assert!(blocks_from_matches(&s(&["x"]), &s(&[])).is_empty());
}

#[test]
fn record_from_captured_parts() {
    let g = gpu_record(None, Some("1002:747E".to_string()), "  Navi 32 ", String::new(), "amdgpu".to_string());
    assert_eq!(g.slot, "?");
    assert_eq!(g.pci_id, "1002:747E");
    assert_eq!(g.vendor, Vendor::Amd);
    assert_eq!(g.name, "Navi 32");
    assert_eq!(g.driver_in_use, "none");
    assert_eq!(g.driver_modules, "amdgpu");
}
