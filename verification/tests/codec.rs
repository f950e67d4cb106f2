use grapple_frc_msgs::binmarshal::{BitWriter, BufferBitWriter, Marshal};
use grapplefrcdriver::errors::{COptional, Empty, ErrorKind, GrappleError};
use grapplefrcdriver::ids::{decode_id, encode_id, MessageId};
use grapplefrcdriver::messages::{
    decode_payload, encode_payload, id_of, validate, AckStatus, GrappleDeviceMessage,
    LaserCanMeasurement, LaserCanMessage, LaserCanRangingMode, LaserCanRoi, LaserCanTimingBudget,
    MitocandriaAdjustableChannelRequest, MitocandriaChannelRequest, MitocandriaChannelStatus,
    MitocandriaMessage, MitocandriaStatusFrame, MitocandriaSwitchableChannelRequest, Request,
};

fn fields(
    device_type: u8,
    fragment_flag: bool,
    ack_flag: bool,
    api_class: u8,
    api_index: u8,
    device_id: u8,
) -> MessageId {
    MessageId { device_type, fragment_flag, ack_flag, api_class, api_index, device_id }
}

#[test]
fn test_encode_id_literal() {
    // device type 6, ack set, api class 1, device id 5:
    // 6<<24 | 6<<16 | (ack 0x10 | class 1)<<10 | 5
    let f = fields(6, false, true, 1, 0, 5);
    assert_eq!(encode_id(f), 0x0606_4405);
    assert!(encode_id(f) < 0x2000_0000);
}

#[test]
fn test_id_roundtrip_samples() {
    let samples = [
        fields(6, false, false, 0, 0, 0),
        fields(8, true, false, 15, 15, 63),
        fields(0x10, false, true, 1, 0, 5),
        fields(31, true, true, 7, 9, 33),
    ];
    for f in samples {
        let raw = encode_id(f);
        assert!(raw < 0x2000_0000);
        assert_eq!(decode_id(raw), f);
    }
}

#[test]
fn test_encode_id_matches_vendor_layout() {
    // The wire layout must agree with the vendor message crate.
    for (dt, frag, ack, class, index, id) in [
        (6u8, false, false, 0u8, 0u8, 5u8),
        (8, true, false, 3, 1, 63),
        (6, false, true, 1, 0, 5),
    ] {
        let gid = grapple_frc_msgs::grapple::GrappleMessageId {
            device_type: dt,
            fragment_flag: frag,
            ack_flag: ack,
            api_class: class,
            api_index: index,
            device_id: id,
        };
        let mid: grapple_frc_msgs::MessageId = gid.into();
        let raw: u32 = mid.into();
        assert_eq!(encode_id(fields(dt, frag, ack, class, index, id)), raw);
    }
}

fn roi(x: u8, y: u8, w: u8, h: u8) -> LaserCanRoi {
    LaserCanRoi { x, y, w, h }
}

fn measurement() -> LaserCanMeasurement {
    LaserCanMeasurement {
        status: 0,
        distance_mm: 0x1234,
        ambient: 5,
        mode: LaserCanRangingMode::Long,
        budget: LaserCanTimingBudget::TimingBudget33ms,
        roi: roi(8, 8, 16, 16),
    }
}

#[test]
fn test_measurement_payload_literal() {
    let m = GrappleDeviceMessage::DistanceSensor(LaserCanMessage::Measurement(measurement()));
    let bytes = encode_payload(&m);
    assert_eq!(bytes, vec![0x00, 0x12, 0x34, 0x00, 0x05, 0x80 | 33, 0x77, 0xFF]);
}

#[test]
fn test_measurement_payload_matches_vendor_crate() {
    let vendor = grapple_frc_msgs::grapple::lasercan::LaserCanMeasurement {
        status: 0,
        distance_mm: 0x1234,
        ambient: 5,
        mode: grapple_frc_msgs::grapple::lasercan::LaserCanRangingMode::Long,
        budget: grapple_frc_msgs::grapple::lasercan::LaserCanTimingBudget::TB33ms,
        roi: grapple_frc_msgs::grapple::lasercan::LaserCanRoi {
            x: grapple_frc_msgs::grapple::lasercan::LaserCanRoiU4(8),
            y: grapple_frc_msgs::grapple::lasercan::LaserCanRoiU4(8),
            w: grapple_frc_msgs::grapple::lasercan::LaserCanRoiU4(16),
            h: grapple_frc_msgs::grapple::lasercan::LaserCanRoiU4(16),
        },
    };
    let mut buf = [0u8; 16];
    let mut writer = BufferBitWriter::new(&mut buf);
    vendor.write(&mut writer, ()).unwrap();
    let vendor_bytes = writer.slice().to_vec();
    let m = GrappleDeviceMessage::DistanceSensor(LaserCanMessage::Measurement(measurement()));
    assert_eq!(encode_payload(&m), vendor_bytes);
}

fn status_frame() -> MitocandriaStatusFrame {
    MitocandriaStatusFrame {
        c0: MitocandriaChannelStatus::NonSwitchable { current: 1500 },
        c1: MitocandriaChannelStatus::Switchable { enabled: true, current: 250 },
        c2: MitocandriaChannelStatus::Adjustable {
            enabled: false,
            voltage: 3300,
            voltage_setpoint: 5000,
            current: 0,
        },
        c3: MitocandriaChannelStatus::Switchable { enabled: false, current: 0 },
        c4: MitocandriaChannelStatus::NonSwitchable { current: 42 },
    }
}

#[test]
fn test_payload_roundtrip_all_variants() {
    let msgs = vec![
        GrappleDeviceMessage::DistanceSensor(LaserCanMessage::Measurement(measurement())),
        GrappleDeviceMessage::DistanceSensor(LaserCanMessage::SetRange(Request::Request(
            LaserCanRangingMode::Long,
        ))),
        GrappleDeviceMessage::DistanceSensor(LaserCanMessage::SetRange(Request::Request(
            LaserCanRangingMode::Short,
        ))),
        GrappleDeviceMessage::DistanceSensor(LaserCanMessage::SetRange(Request::Ack(
            AckStatus::Accepted,
        ))),
        GrappleDeviceMessage::DistanceSensor(LaserCanMessage::SetRoi(Request::Request(roi(
            8, 8, 4, 4,
        )))),
        GrappleDeviceMessage::DistanceSensor(LaserCanMessage::SetRoi(Request::Ack(
            AckStatus::Rejected(ErrorKind::ParameterOutOfBounds),
        ))),
        GrappleDeviceMessage::DistanceSensor(LaserCanMessage::SetTimingBudget(Request::Request(
            LaserCanTimingBudget::TimingBudget100ms,
        ))),
        GrappleDeviceMessage::DistanceSensor(LaserCanMessage::SetTimingBudget(Request::Ack(
            AckStatus::Rejected(ErrorKind::FailedAssertion),
        ))),
        GrappleDeviceMessage::PowerDistributionModule(MitocandriaMessage::StatusFrame(
            status_frame(),
        )),
        GrappleDeviceMessage::PowerDistributionModule(MitocandriaMessage::ChannelRequest(
            MitocandriaChannelRequest::SetSwitchableChannel(Request::Request(
                MitocandriaSwitchableChannelRequest { channel: 1, enabled: true },
            )),
        )),
        GrappleDeviceMessage::PowerDistributionModule(MitocandriaMessage::ChannelRequest(
            MitocandriaChannelRequest::SetSwitchableChannel(Request::Ack(AckStatus::Accepted)),
        )),
        GrappleDeviceMessage::PowerDistributionModule(MitocandriaMessage::ChannelRequest(
            MitocandriaChannelRequest::SetAdjustableChannel(Request::Request(
                MitocandriaAdjustableChannelRequest { channel: 2, enabled: true, voltage: 3300 },
            )),
        )),
        GrappleDeviceMessage::PowerDistributionModule(MitocandriaMessage::ChannelRequest(
            MitocandriaChannelRequest::SetAdjustableChannel(Request::Ack(AckStatus::Rejected(
                ErrorKind::TimedOut,
            ))),
        )),
    ];
    for m in msgs {
        let sel = id_of(9, &m);
        let bytes = encode_payload(&m);
        assert_eq!(decode_payload(sel, &bytes), Some(m));
    }
}

#[test]
fn test_decode_rejects_bad_budget() {
    // A measurement whose budget discriminant is not a known value.
    let bytes = vec![0x00, 0x12, 0x34, 0x00, 0x05, 0x80 | 21, 0x77, 0xFF];
    let sel = id_of(
        9,
        &GrappleDeviceMessage::DistanceSensor(LaserCanMessage::Measurement(measurement())),
    );
    assert_eq!(decode_payload(sel, &bytes), None);
}

#[test]
fn test_decode_short_payload() {
    let sel = id_of(
        9,
        &GrappleDeviceMessage::DistanceSensor(LaserCanMessage::Measurement(measurement())),
    );
    let bytes = vec![0x00, 0x12, 0x34];
    assert_eq!(decode_payload(sel, &bytes), None);
}

#[test]
fn test_validate_rejects_odd_roi() {
    let m = GrappleDeviceMessage::DistanceSensor(LaserCanMessage::SetRoi(Request::Request(roi(
        8, 8, 3, 4,
    ))));
    let e = validate(&m).unwrap_err();
    assert_eq!(e.kind, ErrorKind::ParameterOutOfBounds);
    assert_eq!(e.to_error_code(), 0x00);
}

#[test]
fn test_validate_rejects_out_of_bounds_roi() {
    let m = GrappleDeviceMessage::DistanceSensor(LaserCanMessage::SetRoi(Request::Request(roi(
        1, 8, 8, 4,
    ))));
    let e = validate(&m).unwrap_err();
    assert_eq!(e.kind, ErrorKind::ParameterOutOfBounds);
}

#[test]
fn test_validate_accepts_legal_roi() {
    let m = GrappleDeviceMessage::DistanceSensor(LaserCanMessage::SetRoi(Request::Request(roi(
        8, 8, 16, 16,
    ))));
    assert!(validate(&m).is_ok());
}

#[test]
fn test_error_codes_stable() {
    assert_eq!(ErrorKind::ParameterOutOfBounds.code(), 0x00);
    assert_eq!(ErrorKind::FailedAssertion.code(), 0x01);
    assert_eq!(ErrorKind::ParseError.code(), 0x02);
    assert_eq!(ErrorKind::HalError.code(), 0x03);
    assert_eq!(ErrorKind::TimedOut.code(), 0xFE);
    assert_eq!(ErrorKind::Generic.code(), 0xFF);
    assert_eq!(ErrorKind::from_code(0xFE), Some(ErrorKind::TimedOut));
    assert_eq!(ErrorKind::from_code(0x42), None);
}

#[test]
fn test_abi_shapes() {
    let e = Empty::new();
    assert_eq!(e._sentinel, 0);
    match COptional::from_option(Some(7u8)) {
        COptional::CSome(v) => assert_eq!(v, 7),
        COptional::CNone => panic!("value lost"),
    }
    assert!(matches!(COptional::from_option(None::<u8>), COptional::CNone));
    let err = GrappleError::new(ErrorKind::Generic, "nope");
    assert_eq!(err.to_error_code(), 0xFF);
    assert_eq!(err.message, "nope");
}
