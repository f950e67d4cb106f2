use grapplefrcdriver::fragments::{CanFrame, FragmentRx, FragmentTx};
use grapplefrcdriver::ids::{encode_id, MessageId};
use grapplefrcdriver::messages::{
    encode_payload, id_of, GrappleDeviceMessage, LaserCanMeasurement, LaserCanMessage,
    LaserCanRangingMode, LaserCanRoi, LaserCanTimingBudget,
};

fn measurement() -> LaserCanMeasurement {
    LaserCanMeasurement {
        status: 0,
        distance_mm: 777,
        ambient: 3,
        mode: LaserCanRangingMode::Short,
        budget: LaserCanTimingBudget::TimingBudget50ms,
        roi: LaserCanRoi { x: 8, y: 8, w: 16, h: 16 },
    }
}

fn measurement_msg() -> GrappleDeviceMessage {
    GrappleDeviceMessage::DistanceSensor(LaserCanMessage::Measurement(measurement()))
}

/// A 20-byte buffer whose head parses as a measurement; the decoder
/// ignores the trailing bytes, as a transport may pad.
fn padded_measurement_payload() -> Vec<u8> {
    let mut p = encode_payload(&measurement_msg());
    while p.len() < 20 {
        p.push(0xA5);
    }
    p
}

fn base_id(device_id: u8) -> MessageId {
    id_of(device_id, &measurement_msg())
}

fn fragment(base: MessageId, fid: u8, seq: u8, last: bool, chunk: &[u8]) -> CanFrame {
    let mut data = vec![fid, if last { 0x80 | seq } else { seq }];
    data.extend_from_slice(chunk);
    let mut id = base;
    id.fragment_flag = true;
    CanFrame { id: encode_id(id), data }
}

#[test]
fn test_split_emits_expected_fragments() {
    let mut tx = FragmentTx::new();
    let base = base_id(5);
    let payload = padded_measurement_payload();
    let frames = tx.maybe_fragment(base, payload.clone());
    assert_eq!(frames.len(), 3);
    assert_eq!(tx.fragment_id, 1);
    // All frames carry the base identifier with the fragment flag set.
    let mut fragged = base;
    fragged.fragment_flag = true;
    for f in &frames {
        assert_eq!(f.id, encode_id(fragged));
    }
    assert_eq!(frames[0].data, {
        let mut d = vec![1, 0x00];
        d.extend_from_slice(&payload[0..8]);
        d
    });
    assert_eq!(frames[1].data, {
        let mut d = vec![1, 0x01];
        d.extend_from_slice(&payload[8..16]);
        d
    });
    assert_eq!(frames[2].data, {
        let mut d = vec![1, 0x82];
        d.extend_from_slice(&payload[16..20]);
        d
    });
}

#[test]
fn test_split_small_payload_single_frame() {
    let mut tx = FragmentTx::new();
    let base = base_id(5);
    let payload = encode_payload(&measurement_msg());
    assert_eq!(payload.len(), 8);
    let frames = tx.maybe_fragment(base, payload.clone());
    assert_eq!(frames.len(), 1);
    assert_eq!(frames[0].id, encode_id(base));
    assert_eq!(frames[0].data, payload);
    // The fragment-id counter is not consumed by a single-frame send.
    assert_eq!(tx.fragment_id, 0);
}

#[test]
fn test_reassembly_in_order_yields_message() {
    let mut rx = FragmentRx::new();
    let base = base_id(5);
    let payload = padded_measurement_payload();
    let f0 = fragment(base, 7, 0, false, &payload[0..8]);
    let f1 = fragment(base, 7, 1, false, &payload[8..16]);
    let f2 = fragment(base, 7, 2, true, &payload[16..20]);
    let mut fragged = base;
    fragged.fragment_flag = true;
    assert_eq!(rx.defragment(0, fragged, &f0.data), None);
    assert_eq!(rx.defragment(1, fragged, &f1.data), None);
    let out = rx.defragment(2, fragged, &f2.data);
    assert_eq!(out, Some((base, measurement_msg())));
}

#[test]
fn test_out_of_order_discards_silently() {
    // Orders that are not strictly ascending never complete a message.
    let base = base_id(5);
    let payload = padded_measurement_payload();
    let mk = |seq: u8, last: bool, lo: usize, hi: usize| {
        fragment(base, 7, seq, last, &payload[lo..hi])
    };
    let mut fragged = base;
    fragged.fragment_flag = true;
    let orders: Vec<Vec<(u8, bool, usize, usize)>> = vec![
        vec![(0, false, 0, 8), (2, true, 16, 20), (1, false, 8, 16)],
        vec![(1, false, 8, 16), (0, false, 0, 8), (2, true, 16, 20)],
        vec![(2, true, 16, 20), (1, false, 8, 16), (0, false, 0, 8)],
    ];
    for order in orders {
        let mut rx = FragmentRx::new();
        let mut t = 0u64;
        for (seq, last, lo, hi) in order {
            let f = mk(seq, last, lo, hi);
            assert_eq!(rx.defragment(t, fragged, &f.data), None);
            t += 1;
        }
    }
}

#[test]
fn test_out_of_order_then_clean_restart() {
    // An out-of-order arrival kills the partial; a clean run under the
    // same fragment id afterwards succeeds.
    let base = base_id(5);
    let payload = padded_measurement_payload();
    let mut fragged = base;
    fragged.fragment_flag = true;
    let mut rx = FragmentRx::new();
    let f0 = fragment(base, 7, 0, false, &payload[0..8]);
    let f2 = fragment(base, 7, 2, true, &payload[16..20]);
    assert_eq!(rx.defragment(0, fragged, &f0.data), None);
    // Sequence 2 while 1 was expected: entry discarded.
    assert_eq!(rx.defragment(1, fragged, &f2.data), None);
    // A later fragment with no entry is dropped too.
    let f1 = fragment(base, 7, 1, false, &payload[8..16]);
    assert_eq!(rx.defragment(2, fragged, &f1.data), None);
    // Clean run, same id.
    assert_eq!(rx.defragment(3, fragged, &f0.data), None);
    assert_eq!(rx.defragment(4, fragged, &f1.data), None);
    assert_eq!(
        rx.defragment(5, fragged, &f2.data),
        Some((base, measurement_msg()))
    );
}

#[test]
fn test_stale_partial_evicted() {
    // A partial whose first fragment arrived at t=0 is gone once any
    // frame arrives past the staleness bound.
    let base = base_id(5);
    let payload = padded_measurement_payload();
    let mut fragged = base;
    fragged.fragment_flag = true;
    let mut rx = FragmentRx::new();
    let f0 = fragment(base, 3, 0, false, &payload[0..8]);
    assert_eq!(rx.defragment(0, fragged, &f0.data), None);
    // A bare frame at t=1100 sweeps the partial away (and itself parses).
    let bare = encode_payload(&measurement_msg());
    assert_eq!(
        rx.defragment(1100, base, &bare),
        Some((base, measurement_msg()))
    );
    // The old partial no longer exists: its tail fragments die quietly,
    // and a fresh run under the same fragment id completes.
    let f1 = fragment(base, 3, 1, false, &payload[8..16]);
    assert_eq!(rx.defragment(1101, fragged, &f1.data), None);
    let g0 = fragment(base, 3, 0, false, &payload[0..8]);
    let g1 = fragment(base, 3, 1, false, &payload[8..16]);
    let g2 = fragment(base, 3, 2, true, &payload[16..20]);
    assert_eq!(rx.defragment(1102, fragged, &g0.data), None);
    assert_eq!(rx.defragment(1103, fragged, &g1.data), None);
    assert_eq!(
        rx.defragment(1104, fragged, &g2.data),
        Some((base, measurement_msg()))
    );
}

#[test]
fn test_staleness_boundary() {
    // At exactly the bound the entry survives; one millisecond past, it
    // does not.
    let base = base_id(5);
    let payload = padded_measurement_payload();
    let mut fragged = base;
    fragged.fragment_flag = true;
    for (second_at, expect_complete) in [(1000u64, true), (1001, false)] {
        let mut rx = FragmentRx::new();
        let f0 = fragment(base, 4, 0, false, &payload[0..8]);
        let f1 = fragment(base, 4, 1, false, &payload[8..16]);
        let f2 = fragment(base, 4, 2, true, &payload[16..20]);
        assert_eq!(rx.defragment(0, fragged, &f0.data), None);
        assert_eq!(rx.defragment(second_at, fragged, &f1.data), None);
        let out = rx.defragment(second_at, fragged, &f2.data);
        if expect_complete {
            assert_eq!(out, Some((base, measurement_msg())));
        } else {
            assert_eq!(out, None);
        }
    }
}

#[test]
fn test_per_sender_capacity_evicts_least_recent() {
    // A ninth concurrent partial from one sender evicts the least
    // recently touched one; the newer partials all survive.
    let base = base_id(5);
    let payload = padded_measurement_payload();
    let mut fragged = base;
    fragged.fragment_flag = true;
    let mut rx = FragmentRx::new();
    for fid in 1..=9u8 {
        let f = fragment(base, fid, 0, false, &payload[0..8]);
        assert_eq!(rx.defragment(fid as u64, fragged, &f.data), None);
    }
    // The partial for the first fragment id is gone: its closing
    // fragment dies quietly.
    let close1 = fragment(base, 1, 1, true, &payload[8..20]);
    assert_eq!(rx.defragment(20, fragged, &close1.data), None);
    // The others are intact and complete normally.
    for fid in 2..=9u8 {
        let close = fragment(base, fid, 1, true, &payload[8..20]);
        assert_eq!(
            rx.defragment(21 + fid as u64, fragged, &close.data),
            Some((base, measurement_msg()))
        );
    }
}
