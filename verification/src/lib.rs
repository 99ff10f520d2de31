//! A freestanding chronometer: its figures, its surface, its interface and
//! the hardware decisions behind them.

pub mod abi;
pub mod acpi;
pub mod arch;
pub mod bench;
pub mod boot;
pub mod draw;
pub mod framebuffer;
pub mod gui;
pub mod hypervisor;
pub mod i2c_hid;
pub mod input;
pub mod log;
pub mod memory;
pub mod multiboot;
pub mod panic_screen;
pub mod pmu;
pub mod psci;
pub mod selftest;
pub mod serial;
pub mod text;
pub mod vga;
