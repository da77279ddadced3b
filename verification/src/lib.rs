//! Hardware bring-up core of a small x86-64 kernel, modelled over explicit
//! state so that every rule of the logic is checked: PCI configuration-space
//! enumeration, MSI interrupt routing, interrupt-descriptor-table management,
//! and the spinlock discipline that shares one controller handle between
//! mainline code and the interrupt path.

pub mod bit_field;
pub mod console;
pub mod fixed_vec;
pub mod graphics;
pub mod init_once;
pub mod interrupts;
pub mod logger;
pub mod mouse;
pub mod pci;
pub mod sync;
pub mod xhc;
