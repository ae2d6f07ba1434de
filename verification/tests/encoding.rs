use ethercat_master::bytes::{le_u16, le_u32, u16_from_le, u32_from_le};
use ethercat_master::pdi::PdiOffset;
use ethercat_master::register::RegisterAddress;
use ethercat_master::state::{AlControl, SlaveState};

#[test]
fn little_endian() {
    assert_eq!(le_u16(0xabcd), 0xabcdu16.to_le_bytes());
    assert_eq!(le_u32(0x89ab_cdef), 0x89ab_cdefu32.to_le_bytes());
    assert_eq!(u16_from_le(0xcd, 0xab), 0xabcd);
    assert_eq!(u32_from_le(0xcdef, 0x89ab), 0x89ab_cdef);
}

#[test]
fn integers_survive_encoding() {
    for value in [0, 1, 0xff, 0x100, 0x7fff, 0xffff] {
        let bytes = le_u16(value);
        assert_eq!(u16_from_le(bytes[0], bytes[1]), value);
    }
    for value in [0, 0xffff, 0x1_0000, 0xdead_beef, u32::MAX] {
        let bytes = le_u32(value);
        let low = u16_from_le(bytes[0], bytes[1]);
        let high = u16_from_le(bytes[2], bytes[3]);
        assert_eq!(u32_from_le(low, high), value);
    }
}

#[test]
fn register_locations() {
    let locations: Vec<u16> = [
        RegisterAddress::Type,
        RegisterAddress::ConfiguredStationAddress,
        RegisterAddress::AlControl,
        RegisterAddress::AlStatus,
        RegisterAddress::AlStatusCode,
        RegisterAddress::Fmmu0,
        RegisterAddress::Sm0,
        RegisterAddress::DcSystemTime,
        RegisterAddress::DcSystemTimeOffset,
        RegisterAddress::DcSystemTimeTransmissionDelay,
        RegisterAddress::DcControlLoopParam1,
        RegisterAddress::DcControlLoopParam3,
        RegisterAddress::DcSyncActive,
        RegisterAddress::DcSyncStartTime,
        RegisterAddress::DcSync0CycleTime,
    ]
    .into_iter()
    .map(u16::from)
    .collect();

    assert_eq!(
        locations,
        [
            0x0000, 0x0010, 0x0120, 0x0130, 0x0134, 0x0600, 0x0800, 0x0910, 0x0920, 0x0928, 0x0930,
            0x0934, 0x0981, 0x0990, 0x09a0,
        ]
    );
}

#[test]
fn control_values() {
    assert_eq!(
        AlControl::new(SlaveState::PreOp),
        AlControl { state: SlaveState::PreOp, error: false, id_request: false }
    );
    assert_eq!(
        AlControl::reset(),
        AlControl { state: SlaveState::Init, error: true, id_request: false }
    );
    assert_eq!(PdiOffset::default(), PdiOffset { start_address: 0 });
}
