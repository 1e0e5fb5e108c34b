//! Command-line options of the graphical application.

use vstd::prelude::*;

verus! {

/// What the graphical application was asked to monitor, and which tab to open.
#[derive(Debug, Clone)]
pub struct Args {
    /// Disable GPU monitoring
    pub disable_gpu_monitoring: bool,
    /// Disable network interface monitoring
    pub disable_network_interface_monitoring: bool,
    /// Disable drive monitoring
    pub disable_drive_monitoring: bool,
    /// Disable battery monitoring
    pub disable_battery_monitoring: bool,
    /// Disable CPU monitoring
    pub disable_cpu_monitoring: bool,
    /// Disable memory monitoring
    pub disable_memory_monitoring: bool,
    /// Disable NPU monitoring
    pub disable_npu_monitoring: bool,
    /// Disable process monitoring
    pub disable_process_monitoring: bool,
    /// Open tab specified by ID.
    /// Valid IDs are: "applications", "processes", "cpu", "memory", "gpu-$PCI_SLOT$",
    /// "drive-$MODEL_NAME_OR_DEVICE_NAME$", "network-$INTERFACE_NAME$",
    /// "battery-$MANUFACTURER$-$MODEL_NAME$-$DEVICE_NAME$"
    pub open_tab_id: Option<String>,
}

impl Default for Args {
    /// Everything monitored, no tab requested.
    fn default() -> (r: Self)
        ensures
            !r.disable_gpu_monitoring && !r.disable_network_interface_monitoring
                && !r.disable_drive_monitoring && !r.disable_battery_monitoring
                && !r.disable_cpu_monitoring && !r.disable_memory_monitoring
                && !r.disable_npu_monitoring && !r.disable_process_monitoring,
            r.open_tab_id is None,
    {
        Args {
            disable_gpu_monitoring: false,
            disable_network_interface_monitoring: false,
            disable_drive_monitoring: false,
            disable_battery_monitoring: false,
            disable_cpu_monitoring: false,
            disable_memory_monitoring: false,
            disable_npu_monitoring: false,
            disable_process_monitoring: false,
            open_tab_id: None,
        }
    }
}

} // verus!
