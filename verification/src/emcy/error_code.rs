//! Well-known emergency error-code *classes* — the high byte of the 16-bit
//! code (CiA 301 §7.2.7.1, Table 22). The low byte refines the class.
use vstd::prelude::*;

verus! {

/// No error / error reset.
pub const ERROR_RESET: u16 = 0x0000;

/// Generic error.
pub const GENERIC: u16 = 0x1000;

/// Current.
pub const CURRENT: u16 = 0x2000;

/// Voltage.
pub const VOLTAGE: u16 = 0x3000;

/// Temperature.
pub const TEMPERATURE: u16 = 0x4000;

/// Device hardware.
pub const DEVICE_HARDWARE: u16 = 0x5000;

/// Device software.
pub const DEVICE_SOFTWARE: u16 = 0x6000;

/// Additional modules.
pub const ADDITIONAL_MODULES: u16 = 0x7000;

/// Monitoring.
pub const MONITORING: u16 = 0x8000;

/// Communication (subset of monitoring).
pub const COMMUNICATION: u16 = 0x8100;

/// External error.
pub const EXTERNAL: u16 = 0x9000;

/// Additional functions.
pub const ADDITIONAL_FUNCTIONS: u16 = 0xF000;

/// Device-specific.
pub const DEVICE_SPECIFIC: u16 = 0xFF00;

/// The classes by their numbers.
pub proof fn law_classes()
    ensures
        ERROR_RESET == 0,
        GENERIC == 0x1000,
        CURRENT == 0x2000,
        VOLTAGE == 0x3000,
        TEMPERATURE == 0x4000,
        DEVICE_HARDWARE == 0x5000,
        DEVICE_SOFTWARE == 0x6000,
        ADDITIONAL_MODULES == 0x7000,
        MONITORING == 0x8000,
        COMMUNICATION == 0x8100,
        EXTERNAL == 0x9000,
        ADDITIONAL_FUNCTIONS == 0xF000,
        DEVICE_SPECIFIC == 0xFF00,
{
}

} // verus!
