//! The vendor message tree and its bit-exact payload codec.
//!
//! A message is a tagged variant tree: the top level selects the device
//! family (distance sensor or power-distribution module), each family has
//! its own inner variants.  The variant is not written into the payload
//! bytes: the arbitration identifier (api-class, api-index, ack flag) is
//! the variant selector, so decoding always takes the identifier alongside
//! the bytes.  Enumerations are carried by stable numeric discriminants.
//!
//! Multi-byte integers are big-endian.  Sub-byte fields are packed from the
//! most significant bit down, expressed here with multiplication and
//! division by powers of two.

use vstd::prelude::*;

use crate::errors::ErrorKind;
use crate::ids::MessageId;
use crate::ids::DEVICE_TYPE_DISTANCE_SENSOR;
use crate::ids::DEVICE_TYPE_POWER_DISTRIBUTION_MODULE;

verus! {

/// Ranging mode of the distance sensor.
#[derive(Clone, Copy, Debug, PartialEq, Eq, Structural)]
pub enum LaserCanRangingMode {
    Short,
    Long,
}

impl LaserCanRangingMode {
    pub open spec fn spec_is_long(self) -> bool {
        self is Long
    }

    pub fn is_long(&self) -> (r: bool)
        ensures
            r == self.spec_is_long(),
    {
        match self {
            LaserCanRangingMode::Long => true,
            LaserCanRangingMode::Short => false,
        }
    }
}

/// Timing budget of the distance sensor, encoded by its millisecond value.
#[derive(Clone, Copy, Debug, PartialEq, Eq, Structural)]
pub enum LaserCanTimingBudget {
    TimingBudget20ms,
    TimingBudget33ms,
    TimingBudget50ms,
    TimingBudget100ms,
}

impl LaserCanTimingBudget {
    /// The stable numeric discriminant: the budget in milliseconds.
    pub open spec fn spec_as_u8(self) -> u8 {
        match self {
            LaserCanTimingBudget::TimingBudget20ms => 20,
            LaserCanTimingBudget::TimingBudget33ms => 33,
            LaserCanTimingBudget::TimingBudget50ms => 50,
            LaserCanTimingBudget::TimingBudget100ms => 100,
        }
    }

    pub fn as_u8(&self) -> (r: u8)
        ensures
            r == self.spec_as_u8(),
    {
        match self {
            LaserCanTimingBudget::TimingBudget20ms => 20,
            LaserCanTimingBudget::TimingBudget33ms => 33,
            LaserCanTimingBudget::TimingBudget50ms => 50,
            LaserCanTimingBudget::TimingBudget100ms => 100,
        }
    }

    /// The budget that a numeric discriminant stands for, if any.
    pub open spec fn spec_from_u8(v: u8) -> Option<LaserCanTimingBudget> {
        if v == 20 {
            Some(LaserCanTimingBudget::TimingBudget20ms)
        } else if v == 33 {
            Some(LaserCanTimingBudget::TimingBudget33ms)
        } else if v == 50 {
            Some(LaserCanTimingBudget::TimingBudget50ms)
        } else if v == 100 {
            Some(LaserCanTimingBudget::TimingBudget100ms)
        } else {
            None
        }
    }

    pub fn from_u8(v: u8) -> (r: Option<LaserCanTimingBudget>)
        ensures
            r == LaserCanTimingBudget::spec_from_u8(v),
    {
        if v == 20 {
            Some(LaserCanTimingBudget::TimingBudget20ms)
        } else if v == 33 {
            Some(LaserCanTimingBudget::TimingBudget33ms)
        } else if v == 50 {
            Some(LaserCanTimingBudget::TimingBudget50ms)
        } else if v == 100 {
            Some(LaserCanTimingBudget::TimingBudget100ms)
        } else {
            None
        }
    }
}

/// Region of interest of the distance sensor.  Each field is carried in a
/// 4-bit slot holding the value minus one, so a field is encodable when it
/// lies in 1..=16.
#[derive(Clone, Copy, Debug, PartialEq, Eq, Structural)]
pub struct LaserCanRoi {
    pub x: u8,
    pub y: u8,
    pub w: u8,
    pub h: u8,
}

impl LaserCanRoi {
    /// Every field fits its 4-bit slot.
    pub open spec fn well_formed(self) -> bool {
        &&& 1 <= self.x <= 16
        &&& 1 <= self.y <= 16
        &&& 1 <= self.w <= 16
        &&& 1 <= self.h <= 16
    }

    /// Range legality of a region the caller asks the sensor to adopt:
    /// width and height are even and the region lies within the 16x16 grid.
    pub open spec fn spec_legal(self) -> bool {
        &&& self.well_formed()
        &&& self.w % 2 == 0
        &&& self.h % 2 == 0
        &&& self.x >= self.w / 2
        &&& self.x + self.w / 2 <= 16
        &&& self.y >= self.h / 2
        &&& self.y + self.h / 2 <= 16
    }
}

/// Whether the device accepted an acknowledged request, and if not, the
/// kind of error it reported.
#[derive(Clone, Copy, Debug, PartialEq, Eq, Structural)]
pub enum AckStatus {
    Accepted,
    Rejected(ErrorKind),
}

/// A request/acknowledgement pair: the same message variant carries the
/// request (ack flag clear on the identifier) and the device's reply (ack
/// flag set).
#[derive(Clone, Copy, Debug, PartialEq, Eq, Structural)]
pub enum Request<T> {
    Request(T),
    Ack(AckStatus),
}

impl<T> Request<T> {
    pub open spec fn is_ack(self) -> bool {
        self is Ack
    }
}

/// One measurement report of the distance sensor.
#[derive(Clone, Copy, Debug, PartialEq, Eq, Structural)]
pub struct LaserCanMeasurement {
    pub status: u8,
    pub distance_mm: u16,
    pub ambient: u16,
    pub mode: LaserCanRangingMode,
    pub budget: LaserCanTimingBudget,
    pub roi: LaserCanRoi,
}

/// The distance-sensor message family.
#[derive(Clone, Copy, Debug, PartialEq, Eq, Structural)]
pub enum LaserCanMessage {
    Measurement(LaserCanMeasurement),
    SetRange(Request<LaserCanRangingMode>),
    SetRoi(Request<LaserCanRoi>),
    SetTimingBudget(Request<LaserCanTimingBudget>),
}

/// Status of one power-module channel: its capability and live readings.
#[derive(Clone, Copy, Debug, PartialEq, Eq, Structural)]
pub enum MitocandriaChannelStatus {
    Switchable { enabled: bool, current: u16 },
    NonSwitchable { current: u16 },
    Adjustable { enabled: bool, voltage: u16, voltage_setpoint: u16, current: u16 },
}

/// Status report of the power module: five channels.
#[derive(Clone, Copy, Debug, PartialEq, Eq, Structural)]
pub struct MitocandriaStatusFrame {
    pub c0: MitocandriaChannelStatus,
    pub c1: MitocandriaChannelStatus,
    pub c2: MitocandriaChannelStatus,
    pub c3: MitocandriaChannelStatus,
    pub c4: MitocandriaChannelStatus,
}

impl MitocandriaStatusFrame {
    pub open spec fn spec_channel(self, i: int) -> Option<MitocandriaChannelStatus> {
        if i == 0 {
            Some(self.c0)
        } else if i == 1 {
            Some(self.c1)
        } else if i == 2 {
            Some(self.c2)
        } else if i == 3 {
            Some(self.c3)
        } else if i == 4 {
            Some(self.c4)
        } else {
            None
        }
    }

    /// The status of channel `i`, or nothing when `i` is out of range.
    pub fn channel(&self, i: u8) -> (r: Option<MitocandriaChannelStatus>)
        ensures
            r == self.spec_channel(i as int),
    {
        if i == 0 {
            Some(self.c0)
        } else if i == 1 {
            Some(self.c1)
        } else if i == 2 {
            Some(self.c2)
        } else if i == 3 {
            Some(self.c3)
        } else if i == 4 {
            Some(self.c4)
        } else {
            None
        }
    }
}

/// Request to switch a switchable channel on or off.
#[derive(Clone, Copy, Debug, PartialEq, Eq, Structural)]
pub struct MitocandriaSwitchableChannelRequest {
    pub channel: u8,
    pub enabled: bool,
}

/// Request to drive an adjustable channel: the enable state and the
/// voltage setpoint in millivolts travel together, so that enabling a
/// channel re-sends its last known setpoint.
#[derive(Clone, Copy, Debug, PartialEq, Eq, Structural)]
pub struct MitocandriaAdjustableChannelRequest {
    pub channel: u8,
    pub enabled: bool,
    pub voltage: u16,
}

/// The power-module channel request family.
#[derive(Clone, Copy, Debug, PartialEq, Eq, Structural)]
pub enum MitocandriaChannelRequest {
    SetSwitchableChannel(Request<MitocandriaSwitchableChannelRequest>),
    SetAdjustableChannel(Request<MitocandriaAdjustableChannelRequest>),
}

/// The power-module message family.
#[derive(Clone, Copy, Debug, PartialEq, Eq, Structural)]
pub enum MitocandriaMessage {
    StatusFrame(MitocandriaStatusFrame),
    ChannelRequest(MitocandriaChannelRequest),
}

/// A whole vendor message: the top-level device family.
#[derive(Clone, Copy, Debug, PartialEq, Eq, Structural)]
pub enum GrappleDeviceMessage {
    DistanceSensor(LaserCanMessage),
    PowerDistributionModule(MitocandriaMessage),
}

impl GrappleDeviceMessage {
    /// Every field of the message fits its wire slot, so the message can
    /// be serialized.
    pub open spec fn well_formed(self) -> bool {
        match self {
            GrappleDeviceMessage::DistanceSensor(l) => match l {
                LaserCanMessage::Measurement(m) => m.roi.well_formed(),
                LaserCanMessage::SetRoi(Request::Request(roi)) => roi.well_formed(),
                _ => true,
            },
            GrappleDeviceMessage::PowerDistributionModule(_) => true,
        }
    }

    /// Field-range legality checked before transmission: a well-formed
    /// message whose region-of-interest request, if any, is legal.
    pub open spec fn spec_valid(self) -> bool {
        &&& self.well_formed()
        &&& match self {
            GrappleDeviceMessage::DistanceSensor(LaserCanMessage::SetRoi(Request::Request(roi))) =>
                roi.spec_legal(),
            _ => true,
        }
    }
}

/// The identifier under which a message travels: the api class and index
/// select the variant, the ack flag marks a reply, and the device id names
/// the peripheral.
pub open spec fn spec_id_of(device_id: u8, m: GrappleDeviceMessage) -> MessageId {
    let (api_class, api_index, ack) = spec_variant_of(m);
    MessageId {
        device_type: spec_device_type_of(m),
        fragment_flag: false,
        ack_flag: ack,
        api_class,
        api_index,
        device_id,
    }
}

pub open spec fn spec_device_type_of(m: GrappleDeviceMessage) -> u8 {
    match m {
        GrappleDeviceMessage::DistanceSensor(_) => DEVICE_TYPE_DISTANCE_SENSOR,
        GrappleDeviceMessage::PowerDistributionModule(_) => DEVICE_TYPE_POWER_DISTRIBUTION_MODULE,
    }
}

/// The (api-class, api-index, ack-flag) triple of a message variant.
pub open spec fn spec_variant_of(m: GrappleDeviceMessage) -> (u8, u8, bool) {
    match m {
        GrappleDeviceMessage::DistanceSensor(l) => match l {
            LaserCanMessage::Measurement(_) => (0u8, 0u8, false),
            LaserCanMessage::SetRange(r) => (1u8, 0u8, r.is_ack()),
            LaserCanMessage::SetRoi(r) => (2u8, 0u8, r.is_ack()),
            LaserCanMessage::SetTimingBudget(r) => (3u8, 0u8, r.is_ack()),
        },
        GrappleDeviceMessage::PowerDistributionModule(p) => match p {
            MitocandriaMessage::StatusFrame(_) => (0u8, 0u8, false),
            MitocandriaMessage::ChannelRequest(c) => match c {
                MitocandriaChannelRequest::SetSwitchableChannel(r) => (1u8, 0u8, r.is_ack()),
                MitocandriaChannelRequest::SetAdjustableChannel(r) => (1u8, 1u8, r.is_ack()),
            },
        },
    }
}

/// Computes the identifier a message travels under.
pub fn id_of(device_id: u8, m: &GrappleDeviceMessage) -> (r: MessageId)
    ensures
        r == spec_id_of(device_id, *m),
{
    let (api_class, api_index, ack_flag): (u8, u8, bool) = match m {
        GrappleDeviceMessage::DistanceSensor(l) => match l {
            LaserCanMessage::Measurement(_) => (0, 0, false),
            LaserCanMessage::SetRange(r) => (1, 0, matches!(r, Request::Ack(_))),
            LaserCanMessage::SetRoi(r) => (2, 0, matches!(r, Request::Ack(_))),
            LaserCanMessage::SetTimingBudget(r) => (3, 0, matches!(r, Request::Ack(_))),
        },
        GrappleDeviceMessage::PowerDistributionModule(p) => match p {
            MitocandriaMessage::StatusFrame(_) => (0, 0, false),
            MitocandriaMessage::ChannelRequest(c) => match c {
                MitocandriaChannelRequest::SetSwitchableChannel(r) => (
                    1,
                    0,
                    matches!(r, Request::Ack(_)),
                ),
                MitocandriaChannelRequest::SetAdjustableChannel(r) => (
                    1,
                    1,
                    matches!(r, Request::Ack(_)),
                ),
            },
        },
    };
    MessageId {
        device_type: match m {
            GrappleDeviceMessage::DistanceSensor(_) => DEVICE_TYPE_DISTANCE_SENSOR,
            GrappleDeviceMessage::PowerDistributionModule(_) => DEVICE_TYPE_POWER_DISTRIBUTION_MODULE,
        },
        fragment_flag: false,
        ack_flag,
        api_class,
        api_index,
        device_id,
    }
}

// ---------------------------------------------------------------------------
// Encoding
// ---------------------------------------------------------------------------
/// Big-endian bytes of a 16-bit value.
pub open spec fn spec_u16_bytes(v: u16) -> Seq<u8> {
    seq![(v / 256) as u8, (v % 256) as u8]
}

pub open spec fn spec_bool_byte(b: bool) -> u8 {
    if b {
        1u8
    } else {
        0u8
    }
}

/// The packed byte holding the 1-bit ranging mode above the 7-bit budget
/// discriminant.
pub open spec fn spec_mode_budget_byte(mode: LaserCanRangingMode, budget: LaserCanTimingBudget) -> u8 {
    (spec_bool_byte(mode.spec_is_long()) * 128 + budget.spec_as_u8()) as u8
}

/// The packed byte holding two 4-bit region fields, each stored minus one.
pub open spec fn spec_nibble_byte(hi: u8, lo: u8) -> u8 {
    ((hi - 1) * 16 + (lo - 1)) as u8
}

pub open spec fn spec_encode_roi(roi: LaserCanRoi) -> Seq<u8> {
    seq![spec_nibble_byte(roi.x, roi.y), spec_nibble_byte(roi.w, roi.h)]
}

pub open spec fn spec_encode_measurement(m: LaserCanMeasurement) -> Seq<u8> {
    seq![m.status] + spec_u16_bytes(m.distance_mm) + spec_u16_bytes(m.ambient) + seq![
        spec_mode_budget_byte(m.mode, m.budget),
    ] + spec_encode_roi(m.roi)
}

/// An acknowledgement payload: a zero byte for success, else a one byte,
/// the error code and an empty NUL-terminated detail text.
pub open spec fn spec_encode_ack(st: AckStatus) -> Seq<u8> {
    match st {
        AckStatus::Accepted => seq![0u8],
        AckStatus::Rejected(kind) => seq![1u8, kind.spec_code(), 0u8],
    }
}

pub open spec fn spec_encode_channel(ch: MitocandriaChannelStatus) -> Seq<u8> {
    match ch {
        MitocandriaChannelStatus::Switchable { enabled, current } => seq![
            0u8,
            spec_bool_byte(enabled),
        ] + spec_u16_bytes(current),
        MitocandriaChannelStatus::NonSwitchable { current } => seq![1u8] + spec_u16_bytes(current),
        MitocandriaChannelStatus::Adjustable { enabled, voltage, voltage_setpoint, current } => seq![
            2u8,
            spec_bool_byte(enabled),
        ] + spec_u16_bytes(voltage) + spec_u16_bytes(voltage_setpoint) + spec_u16_bytes(current),
    }
}

pub open spec fn spec_encode_status(f: MitocandriaStatusFrame) -> Seq<u8> {
    spec_encode_channel(f.c0) + spec_encode_channel(f.c1) + spec_encode_channel(f.c2)
        + spec_encode_channel(f.c3) + spec_encode_channel(f.c4)
}

/// The payload bytes of a well-formed message.  The variant itself is not
/// written: it travels in the identifier.
pub open spec fn spec_encode_payload(m: GrappleDeviceMessage) -> Seq<u8> {
    match m {
        GrappleDeviceMessage::DistanceSensor(l) => match l {
            LaserCanMessage::Measurement(meas) => spec_encode_measurement(meas),
            LaserCanMessage::SetRange(Request::Request(mode)) => seq![
                (spec_bool_byte(mode.spec_is_long()) * 128) as u8,
            ],
            LaserCanMessage::SetRange(Request::Ack(st)) => spec_encode_ack(st),
            LaserCanMessage::SetRoi(Request::Request(roi)) => spec_encode_roi(roi),
            LaserCanMessage::SetRoi(Request::Ack(st)) => spec_encode_ack(st),
            LaserCanMessage::SetTimingBudget(Request::Request(b)) => seq![(b.spec_as_u8() * 2) as u8],
            LaserCanMessage::SetTimingBudget(Request::Ack(st)) => spec_encode_ack(st),
        },
        GrappleDeviceMessage::PowerDistributionModule(p) => match p {
            MitocandriaMessage::StatusFrame(f) => spec_encode_status(f),
            MitocandriaMessage::ChannelRequest(c) => match c {
                MitocandriaChannelRequest::SetSwitchableChannel(Request::Request(r)) => seq![
                    r.channel,
                    spec_bool_byte(r.enabled),
                ],
                MitocandriaChannelRequest::SetSwitchableChannel(Request::Ack(st)) =>
                    spec_encode_ack(st),
                MitocandriaChannelRequest::SetAdjustableChannel(Request::Request(r)) => seq![
                    r.channel,
                    spec_bool_byte(r.enabled),
                ] + spec_u16_bytes(r.voltage),
                MitocandriaChannelRequest::SetAdjustableChannel(Request::Ack(st)) =>
                    spec_encode_ack(st),
            },
        },
    }
}

fn push_u16(out: &mut Vec<u8>, v: u16)
    ensures
        final(out)@ == old(out)@ + spec_u16_bytes(v),
{
    out.push((v / 256) as u8);
    out.push((v % 256) as u8);
    assert(out@ =~= old(out)@ + spec_u16_bytes(v));
}

fn bool_byte(b: bool) -> (r: u8)
    ensures
        r == spec_bool_byte(b),
{
    if b {
        1
    } else {
        0
    }
}

fn encode_roi_into(out: &mut Vec<u8>, roi: &LaserCanRoi)
    requires
        roi.well_formed(),
    ensures
        final(out)@ == old(out)@ + spec_encode_roi(*roi),
{
    out.push((roi.x - 1) * 16 + (roi.y - 1));
    out.push((roi.w - 1) * 16 + (roi.h - 1));
    assert(out@ =~= old(out)@ + spec_encode_roi(*roi));
}

fn encode_ack_into(out: &mut Vec<u8>, st: &AckStatus)
    ensures
        final(out)@ == old(out)@ + spec_encode_ack(*st),
{
    match st {
        AckStatus::Accepted => {
            out.push(0);
        },
        AckStatus::Rejected(kind) => {
            out.push(1);
            out.push(kind.code());
            out.push(0);
        },
    }
    assert(out@ =~= old(out)@ + spec_encode_ack(*st));
}

fn encode_channel_into(out: &mut Vec<u8>, ch: &MitocandriaChannelStatus)
    ensures
        final(out)@ == old(out)@ + spec_encode_channel(*ch),
{
    match ch {
        MitocandriaChannelStatus::Switchable { enabled, current } => {
            out.push(0);
            out.push(bool_byte(*enabled));
            push_u16(out, *current);
        },
        MitocandriaChannelStatus::NonSwitchable { current } => {
            out.push(1);
            push_u16(out, *current);
        },
        MitocandriaChannelStatus::Adjustable { enabled, voltage, voltage_setpoint, current } => {
            out.push(2);
            out.push(bool_byte(*enabled));
            push_u16(out, *voltage);
            push_u16(out, *voltage_setpoint);
            push_u16(out, *current);
        },
    }
    assert(out@ =~= old(out)@ + spec_encode_channel(*ch));
}

/// Serializes a well-formed message to its payload bytes.
pub fn encode_payload(m: &GrappleDeviceMessage) -> (r: Vec<u8>)
    requires
        m.well_formed(),
    ensures
        r@ == spec_encode_payload(*m),
{
    let mut out: Vec<u8> = Vec::new();
    match m {
        GrappleDeviceMessage::DistanceSensor(l) => match l {
            LaserCanMessage::Measurement(meas) => {
                out.push(meas.status);
                push_u16(&mut out, meas.distance_mm);
                push_u16(&mut out, meas.ambient);
                out.push(bool_byte(meas.mode.is_long()) * 128 + meas.budget.as_u8());
                encode_roi_into(&mut out, &meas.roi);
            },
            LaserCanMessage::SetRange(Request::Request(mode)) => {
                out.push(bool_byte(mode.is_long()) * 128);
            },
            LaserCanMessage::SetRange(Request::Ack(st)) => {
                encode_ack_into(&mut out, st);
            },
            LaserCanMessage::SetRoi(Request::Request(roi)) => {
                encode_roi_into(&mut out, roi);
            },
            LaserCanMessage::SetRoi(Request::Ack(st)) => {
                encode_ack_into(&mut out, st);
            },
            LaserCanMessage::SetTimingBudget(Request::Request(b)) => {
                out.push(b.as_u8() * 2);
            },
            LaserCanMessage::SetTimingBudget(Request::Ack(st)) => {
                encode_ack_into(&mut out, st);
            },
        },
        GrappleDeviceMessage::PowerDistributionModule(p) => match p {
            MitocandriaMessage::StatusFrame(f) => {
                encode_channel_into(&mut out, &f.c0);
                encode_channel_into(&mut out, &f.c1);
                encode_channel_into(&mut out, &f.c2);
                encode_channel_into(&mut out, &f.c3);
                encode_channel_into(&mut out, &f.c4);
            },
            MitocandriaMessage::ChannelRequest(c) => match c {
                MitocandriaChannelRequest::SetSwitchableChannel(Request::Request(r)) => {
                    out.push(r.channel);
                    out.push(bool_byte(r.enabled));
                },
                MitocandriaChannelRequest::SetSwitchableChannel(Request::Ack(st)) => {
                    encode_ack_into(&mut out, st);
                },
                MitocandriaChannelRequest::SetAdjustableChannel(Request::Request(r)) => {
                    out.push(r.channel);
                    out.push(bool_byte(r.enabled));
                    push_u16(&mut out, r.voltage);
                },
                MitocandriaChannelRequest::SetAdjustableChannel(Request::Ack(st)) => {
                    encode_ack_into(&mut out, st);
                },
            },
        },
    }
    assert(out@ =~= spec_encode_payload(*m));
    out
}

// ---------------------------------------------------------------------------
// Decoding
// ---------------------------------------------------------------------------
/// The 16-bit big-endian value at offset `i`.
pub open spec fn spec_dec_u16(d: Seq<u8>, i: int) -> u16 {
    (d[i] * 256 + d[i + 1]) as u16
}

/// Reads an acknowledgement payload: a leading zero byte is acceptance, a
/// leading one byte carries an error code; the NUL-terminated detail text
/// that may follow the code is skipped.
pub open spec fn spec_decode_ack(d: Seq<u8>) -> Option<AckStatus> {
    if d.len() >= 1 && d[0] == 0 {
        Some(AckStatus::Accepted)
    } else if d.len() >= 2 && d[0] == 1 {
        match ErrorKind::spec_from_code(d[1]) {
            Some(k) => Some(AckStatus::Rejected(k)),
            None => None,
        }
    } else {
        None
    }
}

/// Reads one channel status at offset `i`; on success also gives the
/// offset just past it.
pub open spec fn spec_decode_channel(d: Seq<u8>, i: int) -> Option<(MitocandriaChannelStatus, int)> {
    if i < 0 || i >= d.len() {
        None
    } else if d[i] == 0 {
        if i + 4 <= d.len() {
            Some(
                (
                    MitocandriaChannelStatus::Switchable {
                        enabled: d[i + 1] != 0,
                        current: spec_dec_u16(d, i + 2),
                    },
                    i + 4,
                ),
            )
        } else {
            None
        }
    } else if d[i] == 1 {
        if i + 3 <= d.len() {
            Some(
                (
                    MitocandriaChannelStatus::NonSwitchable { current: spec_dec_u16(d, i + 1) },
                    i + 3,
                ),
            )
        } else {
            None
        }
    } else if d[i] == 2 {
        if i + 8 <= d.len() {
            Some(
                (
                    MitocandriaChannelStatus::Adjustable {
                        enabled: d[i + 1] != 0,
                        voltage: spec_dec_u16(d, i + 2),
                        voltage_setpoint: spec_dec_u16(d, i + 4),
                        current: spec_dec_u16(d, i + 6),
                    },
                    i + 8,
                ),
            )
        } else {
            None
        }
    } else {
        None
    }
}

pub open spec fn spec_decode_status(d: Seq<u8>) -> Option<MitocandriaStatusFrame> {
    match spec_decode_channel(d, 0) {
        Some((c0, i1)) => match spec_decode_channel(d, i1) {
            Some((c1, i2)) => match spec_decode_channel(d, i2) {
                Some((c2, i3)) => match spec_decode_channel(d, i3) {
                    Some((c3, i4)) => match spec_decode_channel(d, i4) {
                        Some((c4, _)) => Some(MitocandriaStatusFrame { c0, c1, c2, c3, c4 }),
                        None => None,
                    },
                    None => None,
                },
                None => None,
            },
            None => None,
        },
        None => None,
    }
}

/// The two region bytes at offset `i`, each nibble read plus one.
pub open spec fn spec_decode_roi(d: Seq<u8>, i: int) -> LaserCanRoi {
    LaserCanRoi {
        x: (d[i] / 16 + 1) as u8,
        y: (d[i] % 16 + 1) as u8,
        w: (d[i + 1] / 16 + 1) as u8,
        h: (d[i + 1] % 16 + 1) as u8,
    }
}

pub open spec fn spec_decode_measurement(d: Seq<u8>) -> Option<LaserCanMeasurement> {
    if d.len() >= 8 {
        match LaserCanTimingBudget::spec_from_u8((d[5] % 128) as u8) {
            Some(budget) => Some(
                LaserCanMeasurement {
                    status: d[0],
                    distance_mm: spec_dec_u16(d, 1),
                    ambient: spec_dec_u16(d, 3),
                    mode: if d[5] / 128 == 1 {
                        LaserCanRangingMode::Long
                    } else {
                        LaserCanRangingMode::Short
                    },
                    budget,
                    roi: spec_decode_roi(d, 6),
                },
            ),
            None => None,
        }
    } else {
        None
    }
}

/// Parses a payload under its identifier, the variant selector.  Reads a
/// prefix of the bytes: trailing bytes are ignored, as the transport may
/// pad a frame.  Anything unparseable gives nothing back.
pub open spec fn spec_decode_payload(sel: MessageId, d: Seq<u8>) -> Option<GrappleDeviceMessage> {
    if sel.device_type == DEVICE_TYPE_DISTANCE_SENSOR {
        if sel.api_class == 0 {
            match spec_decode_measurement(d) {
                Some(m) => Some(
                    GrappleDeviceMessage::DistanceSensor(LaserCanMessage::Measurement(m)),
                ),
                None => None,
            }
        } else if sel.api_class == 1 {
            if sel.ack_flag {
                match spec_decode_ack(d) {
                    Some(st) => Some(
                        GrappleDeviceMessage::DistanceSensor(
                            LaserCanMessage::SetRange(Request::Ack(st)),
                        ),
                    ),
                    None => None,
                }
            } else if d.len() >= 1 {
                Some(
                    GrappleDeviceMessage::DistanceSensor(
                        LaserCanMessage::SetRange(
                            Request::Request(
                                if d[0] / 128 == 1 {
                                    LaserCanRangingMode::Long
                                } else {
                                    LaserCanRangingMode::Short
                                },
                            ),
                        ),
                    ),
                )
            } else {
                None
            }
        } else if sel.api_class == 2 {
            if sel.ack_flag {
                match spec_decode_ack(d) {
                    Some(st) => Some(
                        GrappleDeviceMessage::DistanceSensor(
                            LaserCanMessage::SetRoi(Request::Ack(st)),
                        ),
                    ),
                    None => None,
                }
            } else if d.len() >= 2 {
                Some(
                    GrappleDeviceMessage::DistanceSensor(
                        LaserCanMessage::SetRoi(Request::Request(spec_decode_roi(d, 0))),
                    ),
                )
            } else {
                None
            }
        } else if sel.api_class == 3 {
            if sel.ack_flag {
                match spec_decode_ack(d) {
                    Some(st) => Some(
                        GrappleDeviceMessage::DistanceSensor(
                            LaserCanMessage::SetTimingBudget(Request::Ack(st)),
                        ),
                    ),
                    None => None,
                }
            } else if d.len() >= 1 {
                match LaserCanTimingBudget::spec_from_u8((d[0] / 2) as u8) {
                    Some(b) => Some(
                        GrappleDeviceMessage::DistanceSensor(
                            LaserCanMessage::SetTimingBudget(Request::Request(b)),
                        ),
                    ),
                    None => None,
                }
            } else {
                None
            }
        } else {
            None
        }
    } else if sel.device_type == DEVICE_TYPE_POWER_DISTRIBUTION_MODULE {
        if sel.api_class == 0 {
            match spec_decode_status(d) {
                Some(f) => Some(
                    GrappleDeviceMessage::PowerDistributionModule(
                        MitocandriaMessage::StatusFrame(f),
                    ),
                ),
                None => None,
            }
        } else if sel.api_class == 1 {
            if sel.api_index == 0 {
                if sel.ack_flag {
                    match spec_decode_ack(d) {
                        Some(st) => Some(
                            GrappleDeviceMessage::PowerDistributionModule(
                                MitocandriaMessage::ChannelRequest(
                                    MitocandriaChannelRequest::SetSwitchableChannel(
                                        Request::Ack(st),
                                    ),
                                ),
                            ),
                        ),
                        None => None,
                    }
                } else if d.len() >= 2 {
                    Some(
                        GrappleDeviceMessage::PowerDistributionModule(
                            MitocandriaMessage::ChannelRequest(
                                MitocandriaChannelRequest::SetSwitchableChannel(
                                    Request::Request(
                                        MitocandriaSwitchableChannelRequest {
                                            channel: d[0],
                                            enabled: d[1] != 0,
                                        },
                                    ),
                                ),
                            ),
                        ),
                    )
                } else {
                    None
                }
            } else if sel.api_index == 1 {
                if sel.ack_flag {
                    match spec_decode_ack(d) {
                        Some(st) => Some(
                            GrappleDeviceMessage::PowerDistributionModule(
                                MitocandriaMessage::ChannelRequest(
                                    MitocandriaChannelRequest::SetAdjustableChannel(
                                        Request::Ack(st),
                                    ),
                                ),
                            ),
                        ),
                        None => None,
                    }
                } else if d.len() >= 4 {
                    Some(
                        GrappleDeviceMessage::PowerDistributionModule(
                            MitocandriaMessage::ChannelRequest(
                                MitocandriaChannelRequest::SetAdjustableChannel(
                                    Request::Request(
                                        MitocandriaAdjustableChannelRequest {
                                            channel: d[0],
                                            enabled: d[1] != 0,
                                            voltage: spec_dec_u16(d, 2),
                                        },
                                    ),
                                ),
                            ),
                        ),
                    )
                } else {
                    None
                }
            } else {
                None
            }
        } else {
            None
        }
    } else {
        None
    }
}

/// Checks field-range legality before transmission, as `spec_valid` says:
/// the error names the field at fault.
pub fn validate(m: &GrappleDeviceMessage) -> (r: Result<(), crate::errors::GrappleError>)
    ensures
        r is Ok <==> m.spec_valid(),
        r matches Err(e) ==> e.kind == ErrorKind::ParameterOutOfBounds,
{
    match m {
        GrappleDeviceMessage::DistanceSensor(LaserCanMessage::Measurement(meas)) => {
            let roi = meas.roi;
            if 1 <= roi.x && roi.x <= 16 && 1 <= roi.y && roi.y <= 16 && 1 <= roi.w && roi.w <= 16
                && 1 <= roi.h && roi.h <= 16 {
                Ok(())
            } else {
                Err(
                    crate::errors::GrappleError::new(
                        ErrorKind::ParameterOutOfBounds,
                        "LaserCanRoi: field out of range",
                    ),
                )
            }
        },
        GrappleDeviceMessage::DistanceSensor(LaserCanMessage::SetRoi(Request::Request(roi))) => {
            if !(1 <= roi.x && roi.x <= 16 && 1 <= roi.y && roi.y <= 16 && 1 <= roi.w && roi.w
                <= 16 && 1 <= roi.h && roi.h <= 16) {
                Err(
                    crate::errors::GrappleError::new(
                        ErrorKind::ParameterOutOfBounds,
                        "LaserCanRoi: field out of range",
                    ),
                )
            } else if roi.w % 2 != 0 || roi.h % 2 != 0 {
                Err(
                    crate::errors::GrappleError::new(
                        ErrorKind::ParameterOutOfBounds,
                        "LaserCanRoi: width and height must be even",
                    ),
                )
            } else if roi.x < roi.w / 2 || roi.x + roi.w / 2 > 16 || roi.y < roi.h / 2 || roi.y
                + roi.h / 2 > 16 {
                Err(
                    crate::errors::GrappleError::new(
                        ErrorKind::ParameterOutOfBounds,
                        "LaserCanRoi: out of bounds",
                    ),
                )
            } else {
                Ok(())
            }
        },
        _ => Ok(()),
    }
}

/// A message's identifier is well formed whenever the device id fits its
/// six bits: the api class and index of every variant fit theirs.
pub proof fn lemma_id_of_wf(device_id: u8, m: GrappleDeviceMessage)
    requires
        device_id < 64,
    ensures
        spec_id_of(device_id, m).well_formed(),
{
}

/// No message encodes to more than a status frame's worth of bytes.
pub proof fn lemma_encode_len(m: GrappleDeviceMessage)
    ensures
        spec_encode_payload(m).len() <= 40,
{
}

// ---------------------------------------------------------------------------
// Round trip
// ---------------------------------------------------------------------------
proof fn lemma_u16_split(v: u16)
    ensures
        v / 256 * 256 + v % 256 == v,
        v / 256 < 256,
        v % 256 < 256,
{
}

/// How a byte packing a high field over a low field splits back apart.
pub proof fn lemma_packed_byte(hi: u8, lo: u8, base: u8)
    by (nonlinear_arith)
    requires
        1 <= base,
        hi < 256int / (base as int),
        lo < base,
    ensures
        (hi * base + lo) / (base as int) == hi,
        (hi * base + lo) % (base as int) == lo,
        hi * base + lo < 256,
{
}

proof fn lemma_ack_roundtrip(st: AckStatus)
    ensures
        spec_decode_ack(spec_encode_ack(st)) == Some(st),
{
    match st {
        AckStatus::Accepted => {
        },
        AckStatus::Rejected(kind) => {
            assert(ErrorKind::spec_from_code(kind.spec_code()) == Some(kind));
        },
    }
}

proof fn lemma_channel_at(d: Seq<u8>, i: int, ch: MitocandriaChannelStatus)
    requires
        0 <= i,
        i + spec_encode_channel(ch).len() <= d.len(),
        d.subrange(i, i + spec_encode_channel(ch).len() as int) == spec_encode_channel(ch),
    ensures
        spec_decode_channel(d, i) == Some((ch, i + spec_encode_channel(ch).len() as int)),
{
    let e = spec_encode_channel(ch);
    let l = e.len() as int;
    assert forall|k: int| 0 <= k < l implies d[i + k] == e[k] by {
        assert(d.subrange(i, i + l)[k] == d[i + k]);
    }
    match ch {
        MitocandriaChannelStatus::Switchable { enabled, current } => {
            lemma_u16_split(current);
            assert(e[0] == 0 && e[1] == spec_bool_byte(enabled) && e[2] == current / 256 && e[3]
                == current % 256);
            assert(spec_dec_u16(d, i + 2) == current);
        },
        MitocandriaChannelStatus::NonSwitchable { current } => {
            lemma_u16_split(current);
            assert(e[0] == 1 && e[1] == current / 256 && e[2] == current % 256);
            assert(spec_dec_u16(d, i + 1) == current);
        },
        MitocandriaChannelStatus::Adjustable { enabled, voltage, voltage_setpoint, current } => {
            lemma_u16_split(voltage);
            lemma_u16_split(voltage_setpoint);
            lemma_u16_split(current);
            assert(e[0] == 2 && e[1] == spec_bool_byte(enabled));
            assert(e[2] == voltage / 256 && e[3] == voltage % 256);
            assert(e[4] == voltage_setpoint / 256 && e[5] == voltage_setpoint % 256);
            assert(e[6] == current / 256 && e[7] == current % 256);
            assert(spec_dec_u16(d, i + 2) == voltage);
            assert(spec_dec_u16(d, i + 4) == voltage_setpoint);
            assert(spec_dec_u16(d, i + 6) == current);
        },
    }
}

proof fn lemma_status_roundtrip(f: MitocandriaStatusFrame)
    ensures
        spec_decode_status(spec_encode_status(f)) == Some(f),
{
    let e0 = spec_encode_channel(f.c0);
    let e1 = spec_encode_channel(f.c1);
    let e2 = spec_encode_channel(f.c2);
    let e3 = spec_encode_channel(f.c3);
    let e4 = spec_encode_channel(f.c4);
    let d = spec_encode_status(f);
    let o1 = e0.len() as int;
    let o2 = o1 + e1.len();
    let o3 = o2 + e2.len();
    let o4 = o3 + e3.len();
    let o5 = o4 + e4.len();
    assert(d.len() == o5);
    assert(d.subrange(0, o1) =~= e0);
    assert(d.subrange(o1, o2) =~= e1);
    assert(d.subrange(o2, o3) =~= e2);
    assert(d.subrange(o3, o4) =~= e3);
    assert(d.subrange(o4, o5) =~= e4);
    lemma_channel_at(d, 0, f.c0);
    lemma_channel_at(d, o1, f.c1);
    lemma_channel_at(d, o2, f.c2);
    lemma_channel_at(d, o3, f.c3);
    lemma_channel_at(d, o4, f.c4);
}

proof fn lemma_roi_at(d: Seq<u8>, i: int, roi: LaserCanRoi)
    requires
        roi.well_formed(),
        0 <= i,
        i + 2 <= d.len(),
        d[i] == spec_nibble_byte(roi.x, roi.y),
        d[i + 1] == spec_nibble_byte(roi.w, roi.h),
    ensures
        spec_decode_roi(d, i) == roi,
{
    lemma_packed_byte((roi.x - 1) as u8, (roi.y - 1) as u8, 16);
    lemma_packed_byte((roi.w - 1) as u8, (roi.h - 1) as u8, 16);
}

proof fn lemma_measurement_roundtrip(m: LaserCanMeasurement)
    requires
        m.roi.well_formed(),
    ensures
        spec_decode_measurement(spec_encode_measurement(m)) == Some(m),
{
    let d = spec_encode_measurement(m);
    lemma_u16_split(m.distance_mm);
    lemma_u16_split(m.ambient);
    assert(d.len() == 8);
    assert(d[0] == m.status);
    assert(d[1] == m.distance_mm / 256 && d[2] == m.distance_mm % 256);
    assert(d[3] == m.ambient / 256 && d[4] == m.ambient % 256);
    assert(d[5] == spec_mode_budget_byte(m.mode, m.budget));
    assert(d[6] == spec_nibble_byte(m.roi.x, m.roi.y));
    assert(d[7] == spec_nibble_byte(m.roi.w, m.roi.h));
    lemma_packed_byte(spec_bool_byte(m.mode.spec_is_long()), m.budget.spec_as_u8(), 128);
    assert(spec_dec_u16(d, 1) == m.distance_mm);
    assert(spec_dec_u16(d, 3) == m.ambient);
    assert((d[5] % 128) as u8 == m.budget.spec_as_u8());
    assert(LaserCanTimingBudget::spec_from_u8(m.budget.spec_as_u8()) == Some(m.budget));
    assert(d[5] / 128 == spec_bool_byte(m.mode.spec_is_long()));
    lemma_roi_at(d, 6, m.roi);
}

/// Payload round trip: decoding an encoded well-formed message under its
/// own identifier gives the message back, whatever device id it travels
/// under.
pub proof fn lemma_payload_roundtrip(device_id: u8, m: GrappleDeviceMessage)
    requires
        m.well_formed(),
    ensures
        spec_decode_payload(spec_id_of(device_id, m), spec_encode_payload(m)) == Some(m),
{
    let sel = spec_id_of(device_id, m);
    let d = spec_encode_payload(m);
    match m {
        GrappleDeviceMessage::DistanceSensor(l) => match l {
            LaserCanMessage::Measurement(meas) => {
                lemma_measurement_roundtrip(meas);
            },
            LaserCanMessage::SetRange(Request::Request(mode)) => {
                lemma_packed_byte(spec_bool_byte(mode.spec_is_long()), 0, 128);
                assert(d[0] / 128 == spec_bool_byte(mode.spec_is_long()));
            },
            LaserCanMessage::SetRange(Request::Ack(st)) => {
                lemma_ack_roundtrip(st);
            },
            LaserCanMessage::SetRoi(Request::Request(roi)) => {
                lemma_roi_at(d, 0, roi);
            },
            LaserCanMessage::SetRoi(Request::Ack(st)) => {
                lemma_ack_roundtrip(st);
            },
            LaserCanMessage::SetTimingBudget(Request::Request(b)) => {
                lemma_packed_byte(b.spec_as_u8(), 0, 2);
                assert((d[0] / 2) as u8 == b.spec_as_u8());
            },
            LaserCanMessage::SetTimingBudget(Request::Ack(st)) => {
                lemma_ack_roundtrip(st);
            },
        },
        GrappleDeviceMessage::PowerDistributionModule(p) => match p {
            MitocandriaMessage::StatusFrame(f) => {
                lemma_status_roundtrip(f);
            },
            MitocandriaMessage::ChannelRequest(c) => match c {
                MitocandriaChannelRequest::SetSwitchableChannel(Request::Request(r)) => {
                    assert(d[0] == r.channel && d[1] == spec_bool_byte(r.enabled));
                },
                MitocandriaChannelRequest::SetSwitchableChannel(Request::Ack(st)) => {
                    lemma_ack_roundtrip(st);
                },
                MitocandriaChannelRequest::SetAdjustableChannel(Request::Request(r)) => {
                    lemma_u16_split(r.voltage);
                    assert(d[0] == r.channel && d[1] == spec_bool_byte(r.enabled));
                    assert(d[2] == r.voltage / 256 && d[3] == r.voltage % 256);
                    assert(spec_dec_u16(d, 2) == r.voltage);
                },
                MitocandriaChannelRequest::SetAdjustableChannel(Request::Ack(st)) => {
                    lemma_ack_roundtrip(st);
                },
            },
        },
    }
}

fn dec_u16(d: &Vec<u8>, i: usize) -> (r: u16)
    requires
        i + 2 <= d@.len(),
    ensures
        r == spec_dec_u16(d@, i as int),
{
    let n = d.len();
    (d[i] as u16) * 256 + (d[i + 1] as u16)
}

fn decode_ack(d: &Vec<u8>) -> (r: Option<AckStatus>)
    ensures
        r == spec_decode_ack(d@),
{
    if d.len() >= 1 && d[0] == 0 {
        Some(AckStatus::Accepted)
    } else if d.len() >= 2 && d[0] == 1 {
        match crate::errors::ErrorKind::from_code(d[1]) {
            Some(k) => Some(AckStatus::Rejected(k)),
            None => None,
        }
    } else {
        None
    }
}

fn decode_channel(d: &Vec<u8>, i: usize) -> (r: Option<(MitocandriaChannelStatus, usize)>)
    requires
        i <= d@.len(),
    ensures
        match r {
            Some((ch, j)) => spec_decode_channel(d@, i as int) == Some((ch, j as int)) && i < j <= d@.len(),
            None => spec_decode_channel(d@, i as int) is None,
        },
{
    let n = d.len();
    if i >= n {
        None
    } else if d[i] == 0 {
        if n - i >= 4 {
            Some(
                (
                    MitocandriaChannelStatus::Switchable {
                        enabled: d[i + 1] != 0,
                        current: dec_u16(d, i + 2),
                    },
                    i + 4,
                ),
            )
        } else {
            None
        }
    } else if d[i] == 1 {
        if n - i >= 3 {
            Some(
                (
                    MitocandriaChannelStatus::NonSwitchable { current: dec_u16(d, i + 1) },
                    i + 3,
                ),
            )
        } else {
            None
        }
    } else if d[i] == 2 {
        if n - i >= 8 {
            Some(
                (
                    MitocandriaChannelStatus::Adjustable {
                        enabled: d[i + 1] != 0,
                        voltage: dec_u16(d, i + 2),
                        voltage_setpoint: dec_u16(d, i + 4),
                        current: dec_u16(d, i + 6),
                    },
                    i + 8,
                ),
            )
        } else {
            None
        }
    } else {
        None
    }
}

fn decode_status(d: &Vec<u8>) -> (r: Option<MitocandriaStatusFrame>)
    ensures
        r == spec_decode_status(d@),
{
    let r0 = decode_channel(d, 0);
    match r0 {
        Some((c0, i1)) => match decode_channel(d, i1) {
            Some((c1, i2)) => match decode_channel(d, i2) {
                Some((c2, i3)) => match decode_channel(d, i3) {
                    Some((c3, i4)) => match decode_channel(d, i4) {
                        Some((c4, _)) => Some(MitocandriaStatusFrame { c0, c1, c2, c3, c4 }),
                        None => None,
                    },
                    None => None,
                },
                None => None,
            },
            None => None,
        },
        None => None,
    }
}

fn decode_measurement(d: &Vec<u8>) -> (r: Option<LaserCanMeasurement>)
    ensures
        r == spec_decode_measurement(d@),
{
    if d.len() >= 8 {
        match LaserCanTimingBudget::from_u8(d[5] % 128) {
            Some(budget) => Some(
                LaserCanMeasurement {
                    status: d[0],
                    distance_mm: dec_u16(d, 1),
                    ambient: dec_u16(d, 3),
                    mode: if d[5] / 128 == 1 {
                        LaserCanRangingMode::Long
                    } else {
                        LaserCanRangingMode::Short
                    },
                    budget,
                    roi: LaserCanRoi {
                        x: d[6] / 16 + 1,
                        y: d[6] % 16 + 1,
                        w: d[7] / 16 + 1,
                        h: d[7] % 16 + 1,
                    },
                },
            ),
            None => None,
        }
    } else {
        None
    }
}

/// Parses a payload under its identifier.  Gives back the message, or
/// nothing when the selector or the bytes do not form one.
pub fn decode_payload(sel: MessageId, d: &Vec<u8>) -> (r: Option<GrappleDeviceMessage>)
    ensures
        r == spec_decode_payload(sel, d@),
{
    if sel.device_type == DEVICE_TYPE_DISTANCE_SENSOR {
        if sel.api_class == 0 {
            match decode_measurement(d) {
                Some(m) => Some(
                    GrappleDeviceMessage::DistanceSensor(LaserCanMessage::Measurement(m)),
                ),
                None => None,
            }
        } else if sel.api_class == 1 {
            if sel.ack_flag {
                match decode_ack(d) {
                    Some(st) => Some(
                        GrappleDeviceMessage::DistanceSensor(
                            LaserCanMessage::SetRange(Request::Ack(st)),
                        ),
                    ),
                    None => None,
                }
            } else if d.len() >= 1 {
                let mode = if d[0] / 128 == 1 {
                    LaserCanRangingMode::Long
                } else {
                    LaserCanRangingMode::Short
                };
                Some(
                    GrappleDeviceMessage::DistanceSensor(
                        LaserCanMessage::SetRange(Request::Request(mode)),
                    ),
                )
            } else {
                None
            }
        } else if sel.api_class == 2 {
            if sel.ack_flag {
                match decode_ack(d) {
                    Some(st) => Some(
                        GrappleDeviceMessage::DistanceSensor(
                            LaserCanMessage::SetRoi(Request::Ack(st)),
                        ),
                    ),
                    None => None,
                }
            } else if d.len() >= 2 {
                let roi = LaserCanRoi {
                    x: d[0] / 16 + 1,
                    y: d[0] % 16 + 1,
                    w: d[1] / 16 + 1,
                    h: d[1] % 16 + 1,
                };
                Some(
                    GrappleDeviceMessage::DistanceSensor(
                        LaserCanMessage::SetRoi(Request::Request(roi)),
                    ),
                )
            } else {
                None
            }
        } else if sel.api_class == 3 {
            if sel.ack_flag {
                match decode_ack(d) {
                    Some(st) => Some(
                        GrappleDeviceMessage::DistanceSensor(
                            LaserCanMessage::SetTimingBudget(Request::Ack(st)),
                        ),
                    ),
                    None => None,
                }
            } else if d.len() >= 1 {
                match LaserCanTimingBudget::from_u8(d[0] / 2) {
                    Some(b) => Some(
                        GrappleDeviceMessage::DistanceSensor(
                            LaserCanMessage::SetTimingBudget(Request::Request(b)),
                        ),
                    ),
                    None => None,
                }
            } else {
                None
            }
        } else {
            None
        }
    } else if sel.device_type == DEVICE_TYPE_POWER_DISTRIBUTION_MODULE {
        if sel.api_class == 0 {
            match decode_status(d) {
                Some(f) => Some(
                    GrappleDeviceMessage::PowerDistributionModule(
                        MitocandriaMessage::StatusFrame(f),
                    ),
                ),
                None => None,
            }
        } else if sel.api_class == 1 {
            if sel.api_index == 0 {
                if sel.ack_flag {
                    match decode_ack(d) {
                        Some(st) => Some(
                            GrappleDeviceMessage::PowerDistributionModule(
                                MitocandriaMessage::ChannelRequest(
                                    MitocandriaChannelRequest::SetSwitchableChannel(
                                        Request::Ack(st),
                                    ),
                                ),
                            ),
                        ),
                        None => None,
                    }
                } else if d.len() >= 2 {
                    Some(
                        GrappleDeviceMessage::PowerDistributionModule(
                            MitocandriaMessage::ChannelRequest(
                                MitocandriaChannelRequest::SetSwitchableChannel(
                                    Request::Request(
                                        MitocandriaSwitchableChannelRequest {
                                            channel: d[0],
                                            enabled: d[1] != 0,
                                        },
                                    ),
                                ),
                            ),
                        ),
                    )
                } else {
                    None
                }
            } else if sel.api_index == 1 {
                if sel.ack_flag {
                    match decode_ack(d) {
                        Some(st) => Some(
                            GrappleDeviceMessage::PowerDistributionModule(
                                MitocandriaMessage::ChannelRequest(
                                    MitocandriaChannelRequest::SetAdjustableChannel(
                                        Request::Ack(st),
                                    ),
                                ),
                            ),
                        ),
                        None => None,
                    }
                } else if d.len() >= 4 {
                    Some(
                        GrappleDeviceMessage::PowerDistributionModule(
                            MitocandriaMessage::ChannelRequest(
                                MitocandriaChannelRequest::SetAdjustableChannel(
                                    Request::Request(
                                        MitocandriaAdjustableChannelRequest {
                                            channel: d[0],
                                            enabled: d[1] != 0,
                                            voltage: dec_u16(d, 2),
                                        },
                                    ),
                                ),
                            ),
                        ),
                    )
                } else {
                    None
                }
            } else {
                None
            }
        } else {
            None
        }
    } else {
        None
    }
}

} // verus!
