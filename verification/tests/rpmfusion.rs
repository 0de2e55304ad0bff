use fedora_gpu_manager::rpmfusion::{
    install_free_release_cmd, install_nonfree_release_cmd, install_rpmfusion_cmd,
    rpmfusion_enabled, rpmfusion_installed,
};

#[test]
fn enabled_and_installed_from_output() {
    assert_eq!(
        rpmfusion_enabled("/etc/yum.repos.d/rpmfusion-free.repo", ""),
        (true, false)
    );
    assert_eq!(rpmfusion_enabled("", "x"), (false, true));
    assert_eq!(rpmfusion_installed("rpmfusion-free-release-44-1.noarch", "rpmfusion-nonfree-release-44-1.noarch"), (true, true));
    assert_eq!(rpmfusion_installed("", ""), (false, false));
}

#[test]
fn install_commands() {
    assert_eq!(
        install_rpmfusion_cmd("44"),
        "dnf install -y https://mirrors.rpmfusion.org/free/fedora/rpmfusion-free-release-44.noarch.rpm https://mirrors.rpmfusion.org/nonfree/fedora/rpmfusion-nonfree-release-44.noarch.rpm && dnf config-manager setopt fedora-cisco-openh264.enabled=1"
    );
    assert_eq!(
        install_rpmfusion_cmd(""),
        "dnf install -y https://mirrors.rpmfusion.org/free/fedora/rpmfusion-free-release-$(rpm -E %fedora).noarch.rpm https://mirrors.rpmfusion.org/nonfree/fedora/rpmfusion-nonfree-release-$(rpm -E %fedora).noarch.rpm && dnf config-manager setopt fedora-cisco-openh264.enabled=1"
    );
    assert_eq!(
        install_free_release_cmd("43"),
        "dnf install -y https://mirrors.rpmfusion.org/free/fedora/rpmfusion-free-release-43.noarch.rpm"
    );
    assert_eq!(
        install_nonfree_release_cmd(""),
        "dnf install -y https://mirrors.rpmfusion.org/nonfree/fedora/rpmfusion-nonfree-release-$(rpm -E %fedora).noarch.rpm"
    );
}
