//! The registers of a slave device that the master uses.

use vstd::prelude::*;

verus! {

/// A register of a slave device.
#[derive(PartialEq, Eq, Structural, Debug, Copy, Clone)]
pub enum RegisterAddress {
    /// The type of the device.
    Type,
    /// The address that the master has assigned to the device.
    ConfiguredStationAddress,
    /// The state that the master requests of the device.
    AlControl,
    /// The state that the device is in.
    AlStatus,
    /// Why the device is in an error state.
    AlStatusCode,
    /// The first fieldbus memory management unit.
    Fmmu0,
    /// The first sync manager.
    Sm0,
    /// The system time of the device.
    DcSystemTime,
    /// The offset of the local time of the device to the system time.
    DcSystemTimeOffset,
    /// The transmission delay between the reference clock and the device.
    DcSystemTimeTransmissionDelay,
    /// The first parameter of the clock control loop.
    DcControlLoopParam1,
    /// The third parameter of the clock control loop.
    DcControlLoopParam3,
    /// Which sync signals the device emits.
    DcSyncActive,
    /// When the device starts to emit sync signals.
    DcSyncStartTime,
    /// The time between two pulses of the first sync signal.
    DcSync0CycleTime,
}

impl RegisterAddress {
    /// The memory location of this register.
    pub open spec fn location(self) -> u16 {
        match self {
            RegisterAddress::Type => 0x0000,
            RegisterAddress::ConfiguredStationAddress => 0x0010,
            RegisterAddress::AlControl => 0x0120,
            RegisterAddress::AlStatus => 0x0130,
            RegisterAddress::AlStatusCode => 0x0134,
            RegisterAddress::Fmmu0 => 0x0600,
            RegisterAddress::Sm0 => 0x0800,
            RegisterAddress::DcSystemTime => 0x0910,
            RegisterAddress::DcSystemTimeOffset => 0x0920,
            RegisterAddress::DcSystemTimeTransmissionDelay => 0x0928,
            RegisterAddress::DcControlLoopParam1 => 0x0930,
            RegisterAddress::DcControlLoopParam3 => 0x0934,
            RegisterAddress::DcSyncActive => 0x0981,
            RegisterAddress::DcSyncStartTime => 0x0990,
            RegisterAddress::DcSync0CycleTime => 0x09A0,
        }
    }
}

impl From<RegisterAddress> for u16 {
    /// The memory location of a register.
    fn from(register: RegisterAddress) -> (location: u16) {
        match register {
            RegisterAddress::Type => 0x0000,
            RegisterAddress::ConfiguredStationAddress => 0x0010,
            RegisterAddress::AlControl => 0x0120,
            RegisterAddress::AlStatus => 0x0130,
            RegisterAddress::AlStatusCode => 0x0134,
            RegisterAddress::Fmmu0 => 0x0600,
            RegisterAddress::Sm0 => 0x0800,
            RegisterAddress::DcSystemTime => 0x0910,
            RegisterAddress::DcSystemTimeOffset => 0x0920,
            RegisterAddress::DcSystemTimeTransmissionDelay => 0x0928,
            RegisterAddress::DcControlLoopParam1 => 0x0930,
            RegisterAddress::DcControlLoopParam3 => 0x0934,
            RegisterAddress::DcSyncActive => 0x0981,
            RegisterAddress::DcSyncStartTime => 0x0990,
            RegisterAddress::DcSync0CycleTime => 0x09A0,
        }
    }
}

impl vstd::std_specs::convert::FromSpecImpl<RegisterAddress> for u16 {
    open spec fn obeys_from_spec() -> bool {
        true
    }

    open spec fn from_spec(register: RegisterAddress) -> u16 {
        register.location()
    }
}

/// The parts of a slave's memory that registers head do not overlap: each register lies after the end
/// of the part that the one before it heads.
pub proof fn law_registers_head_separate_parts(a: RegisterAddress, b: RegisterAddress)
    ensures
        a.location() == b.location() ==> a == b,
        RegisterAddress::Type.location() == 0,
        RegisterAddress::ConfiguredStationAddress.location() == 0x10,
        RegisterAddress::AlControl.location() == 0x120,
        RegisterAddress::AlStatus.location() == RegisterAddress::AlControl.location() + 0x10,
        RegisterAddress::AlStatusCode.location() == RegisterAddress::AlStatus.location() + 4,
        RegisterAddress::Fmmu0.location() == 0x600,
        RegisterAddress::Sm0.location() == RegisterAddress::Fmmu0.location() + 0x200,
        RegisterAddress::DcSystemTime.location() == 0x910,
        RegisterAddress::DcSystemTimeOffset.location() == RegisterAddress::DcSystemTime.location()
            + 0x10,
        RegisterAddress::DcSystemTimeTransmissionDelay.location()
            == RegisterAddress::DcSystemTimeOffset.location() + 8,
        RegisterAddress::DcControlLoopParam1.location()
            == RegisterAddress::DcSystemTimeTransmissionDelay.location() + 8,
        RegisterAddress::DcControlLoopParam3.location()
            == RegisterAddress::DcControlLoopParam1.location() + 4,
        RegisterAddress::DcSyncActive.location() == RegisterAddress::DcSystemTime.location() + 0x71,
        RegisterAddress::DcSyncStartTime.location() == RegisterAddress::DcSystemTime.location()
            + 0x80,
        RegisterAddress::DcSync0CycleTime.location() == RegisterAddress::DcSyncStartTime.location()
            + 0x10,
{
}

} // verus!
