use grapplefrcdriver::errors::ErrorKind;
use grapplefrcdriver::fragments::FragmentTx;
use grapplefrcdriver::ids::encode_id;
use grapplefrcdriver::lasercan::LaserCAN;
use grapplefrcdriver::messages::{
    decode_payload, encode_payload, id_of, GrappleDeviceMessage, LaserCanMeasurement,
    LaserCanMessage, LaserCanRangingMode, LaserCanRoi, LaserCanTimingBudget,
    MitocandriaChannelRequest, MitocandriaChannelStatus, MitocandriaMessage,
    MitocandriaStatusFrame, MitocandriaSwitchableChannelRequest, Request,
};
use grapplefrcdriver::mitocandria::MitoCANdria;

fn laser_can_budget_tester(budget: &LaserCanTimingBudget) {
    match budget {
        LaserCanTimingBudget::TimingBudget20ms => assert_eq!(budget.as_u8(), 20),
        LaserCanTimingBudget::TimingBudget33ms => assert_eq!(budget.as_u8(), 33),
        LaserCanTimingBudget::TimingBudget50ms => assert_eq!(budget.as_u8(), 50),
        LaserCanTimingBudget::TimingBudget100ms => assert_eq!(budget.as_u8(), 100),
    }
}

#[test]
fn test_laser_can_budget_u8() {
    let mut budget = LaserCanTimingBudget::TimingBudget20ms;
    laser_can_budget_tester(&budget);

    budget = LaserCanTimingBudget::TimingBudget33ms;
    laser_can_budget_tester(&budget);

    budget = LaserCanTimingBudget::TimingBudget50ms;
    laser_can_budget_tester(&budget);

    budget = LaserCanTimingBudget::TimingBudget100ms;
    laser_can_budget_tester(&budget);
}

#[test]
fn test_ranging_is_long() {
    let mut ranging_mode = LaserCanRangingMode::Long;
    assert_eq!(ranging_mode.is_long(), true);

    ranging_mode = LaserCanRangingMode::Short;
    assert_eq!(ranging_mode.is_long(), false);
}

fn measurement() -> LaserCanMeasurement {
    LaserCanMeasurement {
        status: 0,
        distance_mm: 1234,
        ambient: 9,
        mode: LaserCanRangingMode::Long,
        budget: LaserCanTimingBudget::TimingBudget33ms,
        roi: LaserCanRoi { x: 8, y: 8, w: 16, h: 16 },
    }
}

#[test]
fn test_fragmented_measurement_into_cache() {
    // A measurement travels from a simulated device as three fragments
    // sharing fragment id 7; after feeding them the facade serves the
    // decoded measurement, and keeps serving it while fresh.
    let mut lc = LaserCAN::new(0x05);
    let msg = GrappleDeviceMessage::DistanceSensor(LaserCanMessage::Measurement(measurement()));
    let base = id_of(0x05, &msg);
    let mut payload = encode_payload(&msg);
    while payload.len() < 20 {
        payload.push(0x5A);
    }
    let mut fragged = base;
    fragged.fragment_flag = true;
    let raw = encode_id(fragged);
    let chunks: [(u8, &[u8]); 3] =
        [(0x00, &payload[0..8]), (0x01, &payload[8..16]), (0x82, &payload[16..20])];
    for (seq_byte, chunk) in chunks {
        let mut data = vec![7u8, seq_byte];
        data.extend_from_slice(chunk);
        lc.feed_frame(0, raw, &data);
    }
    assert_eq!(lc.get_measurement(0), Some(measurement()));
    // Still cached within the freshness window, with no new frames.
    assert_eq!(lc.get_measurement(400), Some(measurement()));
    // Past the window the cache clears.
    assert_eq!(lc.get_measurement(501), None);
    assert_eq!(lc.get_measurement(502), None);
}

#[test]
fn test_measurement_cache_freshness_boundary() {
    let mut lc = LaserCAN::new(0x05);
    let msg = GrappleDeviceMessage::DistanceSensor(LaserCanMessage::Measurement(measurement()));
    let raw = encode_id(id_of(0x05, &msg));
    let payload = encode_payload(&msg);
    lc.feed_frame(100, raw, &payload);
    assert_eq!(lc.get_measurement(600), Some(measurement()));
    lc.feed_frame(100, raw, &payload);
    assert_eq!(lc.get_measurement(601), None);
}

#[test]
fn test_lasercan_setters_build_requests() {
    let mut lc = LaserCAN::new(0x05);
    let p = lc.set_range(0, LaserCanRangingMode::Long).unwrap();
    assert_eq!(p.frames.len(), 1);
    assert_eq!(p.frames[0].data, vec![0x80]);
    assert_eq!(p.state.timeout_ms, 200);
    assert_eq!(p.state.retries_left, 3);
    assert!(p.state.reply_id.ack_flag);

    let p = lc
        .set_timing_budget(0, LaserCanTimingBudget::TimingBudget100ms)
        .unwrap();
    assert_eq!(p.frames[0].data, vec![100 << 1]);

    let p = lc.set_roi(0, LaserCanRoi { x: 8, y: 8, w: 4, h: 4 }).unwrap();
    assert_eq!(p.frames[0].data, vec![0x77, 0x33]);

    let e = lc.set_roi(0, LaserCanRoi { x: 1, y: 8, w: 8, h: 4 }).unwrap_err();
    assert_eq!(e.kind, ErrorKind::ParameterOutOfBounds);
}

fn capability_frame() -> MitocandriaStatusFrame {
    MitocandriaStatusFrame {
        c0: MitocandriaChannelStatus::NonSwitchable { current: 100 },
        c1: MitocandriaChannelStatus::Switchable { enabled: true, current: 200 },
        c2: MitocandriaChannelStatus::Adjustable {
            enabled: true,
            voltage: 3250,
            voltage_setpoint: 3300,
            current: 300,
        },
        c3: MitocandriaChannelStatus::Switchable { enabled: false, current: 0 },
        c4: MitocandriaChannelStatus::NonSwitchable { current: 0 },
    }
}

fn feed_status(mc: &mut MitoCANdria, now: u64, frame: MitocandriaStatusFrame) {
    let msg = GrappleDeviceMessage::PowerDistributionModule(MitocandriaMessage::StatusFrame(frame));
    let base = id_of(0x09, &msg);
    let payload = encode_payload(&msg);
    // Status frames are oversize: deliver them the way a device would,
    // through the split half.
    let mut tx = FragmentTx::new();
    let frames = tx.maybe_fragment(base, payload);
    assert!(frames.len() >= 2);
    for f in &frames {
        mc.feed_frame(now, f.id, &f.data);
    }
}

#[test]
fn test_power_module_channel_capabilities() {
    let mut mc = MitoCANdria::new(0x09);
    // Nothing cached yet: getters are absent, setters report the device
    // offline.
    assert_eq!(mc.get_enabled(0, 0), None);
    let e = mc.set_enabled(0, 0, false).unwrap_err();
    assert_eq!(e.kind, ErrorKind::FailedAssertion);

    feed_status(&mut mc, 0, capability_frame());

    // Switching the non-switchable channel fails.
    let e = mc.set_enabled(1, 0, false).unwrap_err();
    assert_eq!(e.kind, ErrorKind::FailedAssertion);

    // Switching the switchable channel issues a switchable request.
    let p = mc.set_enabled(1, 1, false).unwrap();
    let sel = decode_payload(
        grapplefrcdriver::ids::decode_id(p.frames[0].id),
        &p.frames[0].data,
    )
    .unwrap();
    assert_eq!(
        sel,
        GrappleDeviceMessage::PowerDistributionModule(MitocandriaMessage::ChannelRequest(
            MitocandriaChannelRequest::SetSwitchableChannel(Request::Request(
                MitocandriaSwitchableChannelRequest { channel: 1, enabled: false }
            ))
        ))
    );
    assert_eq!(p.state.timeout_ms, 500);

    // Adjusting the voltage of a switchable channel fails.
    let e = mc.set_voltage(1, 1, 3300).unwrap_err();
    assert_eq!(e.kind, ErrorKind::FailedAssertion);

    // Adjusting the adjustable channel issues an adjustable request in
    // millivolts.
    let p = mc.set_voltage(1, 2, 3300).unwrap();
    match decode_payload(
        grapplefrcdriver::ids::decode_id(p.frames[0].id),
        &p.frames[0].data,
    )
    .unwrap()
    {
        GrappleDeviceMessage::PowerDistributionModule(MitocandriaMessage::ChannelRequest(
            MitocandriaChannelRequest::SetAdjustableChannel(Request::Request(r)),
        )) => {
            assert_eq!(r.channel, 2);
            assert_eq!(r.voltage, 3300);
            assert!(r.enabled);
        },
        other => panic!("unexpected request: {:?}", other),
    }

    // Enabling the adjustable channel re-sends its last known setpoint.
    let p = mc.set_enabled(1, 2, true).unwrap();
    match decode_payload(
        grapplefrcdriver::ids::decode_id(p.frames[0].id),
        &p.frames[0].data,
    )
    .unwrap()
    {
        GrappleDeviceMessage::PowerDistributionModule(MitocandriaMessage::ChannelRequest(
            MitocandriaChannelRequest::SetAdjustableChannel(Request::Request(r)),
        )) => {
            assert_eq!(r.voltage, 3300);
            assert!(r.enabled);
        },
        other => panic!("unexpected request: {:?}", other),
    }

    // An unknown channel is an out-of-bounds parameter.
    let e = mc.set_enabled(1, 9, true).unwrap_err();
    assert_eq!(e.kind, ErrorKind::ParameterOutOfBounds);
}

#[test]
fn test_power_module_getters() {
    let mut mc = MitoCANdria::new(0x09);
    feed_status(&mut mc, 0, capability_frame());
    assert_eq!(mc.get_current(1, 0), Some(Ok(100)));
    assert_eq!(mc.get_current(1, 2), Some(Ok(300)));
    assert_eq!(mc.get_voltage(1, 0), Some(Ok(5000)));
    assert_eq!(mc.get_voltage(1, 2), Some(Ok(3250)));
    assert_eq!(mc.get_voltage_setpoint(1, 2), Some(Ok(3300)));
    assert_eq!(mc.get_enabled(1, 0), Some(Ok(true)));
    assert_eq!(mc.get_enabled(1, 3), Some(Ok(false)));
    assert_eq!(mc.get_current(1, 7).unwrap().unwrap_err().kind, ErrorKind::ParameterOutOfBounds);
    // The cache goes stale after the freshness window.
    assert_eq!(mc.get_current(502, 0), None);
}
