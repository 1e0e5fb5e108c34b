//! Verified core of a system resource monitor: parsers for procfs and DRM
//! fdinfo contents, PCI slot identifiers, per-process GPU/NPU counters, the
//! caches and fdinfo scan of the process reader, the decisions of the
//! privileged helpers, the texts and search filters of the process lists, and
//! the small text helpers used around them.

pub mod text;
pub mod std_ext;
pub mod pci_slot;
pub mod gpu_usage;
pub mod npu_usage;
pub mod nvidia;
pub mod cache;
pub mod scan;
pub mod actions;
pub mod search;
pub mod pattern;
pub mod procfs;
pub mod fdinfo;
pub mod assoc;
pub mod process;
pub mod i18n;
pub mod priority;
pub mod tools;
pub mod dmi;
pub mod time;
pub mod gui;
pub mod backend;
