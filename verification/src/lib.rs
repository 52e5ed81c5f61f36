//! Hardware sensor readings (fans, temperatures) from the Linux `sysfs`
//! tree and hypervisor detection through `cpuid`.
//!
//! The library holds the logic: which `sysfs` entries are sensors, how
//! their files are parsed and assembled, and where errors go. Reading the
//! files is left to the caller, who hands the contents in as plain values.

pub mod error;
pub mod fans;
pub mod names;
pub mod temperatures;
pub mod text;
pub mod virt;
pub mod walk;

pub use error::{Error, IntErrorKind};
pub use fans::{fans, FanReadings, FanSensor};
pub use temperatures::{temperatures, TemperatureSensor};
pub use virt::{detect_vm_cpuid, Virtualization};
pub use walk::{Entry, Listing};
