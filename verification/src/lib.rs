//! Detection and driver-management logic for the GPUs of a Fedora system.
pub mod enrich;
pub mod lspci;
pub mod nvidia_branch;
pub mod packages;
pub mod pattern;
pub mod rpmfusion;
pub mod text;
pub mod ui;
pub mod vendor;

pub use enrich::enrich_gpu;
pub use lspci::{detect_gpus, GpuInfo};
pub use rpmfusion::{install_rpmfusion_cmd, rpmfusion_enabled, rpmfusion_installed};
pub use vendor::Vendor;
