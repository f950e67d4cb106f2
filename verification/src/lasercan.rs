//! Facade for the distance-sensor peripheral.
//!
//! Wraps one driver and a cached measurement.  The caller's poll loop
//! hands every received frame to `feed_frame`; `get_measurement` then
//! serves the cache while it is fresh.  The setters build acknowledged
//! requests: the caller transmits the frames, pumps received messages
//! through the pending request's state, and reads the device's verdict
//! off the reply with the matching `*_reply` function.

use vstd::prelude::*;

use crate::driver::GrappleCanDriver;
use crate::driver::PendingRequest;
use crate::driver::RequestState;
use crate::errors::ErrorKind;
use crate::errors::GrappleError;
use crate::fragments::spec_rx_step;
use crate::ids::DEVICE_TYPE_DISTANCE_SENSOR;
use crate::ids::spec_decode_id;
use crate::ids::spec_encode_id;
use crate::messages::GrappleDeviceMessage;
use crate::messages::LaserCanMeasurement;
use crate::messages::LaserCanMessage;
use crate::messages::LaserCanRangingMode;
use crate::messages::LaserCanRoi;
use crate::messages::LaserCanTimingBudget;
use crate::messages::Request;
use crate::messages::AckStatus;
use crate::messages::spec_encode_payload;
use crate::messages::spec_id_of;

verus! {

/// A cached status older than this many milliseconds is treated as
/// absent.
pub const STATUS_FRESH_MS: u64 = 500;

/// Timeout of one distance-sensor request window, in milliseconds.
pub const LASERCAN_REQUEST_TIMEOUT_MS: u64 = 200;

/// Retry budget of a distance-sensor request.
pub const LASERCAN_REQUEST_RETRIES: usize = 3;

/// Driver facade for one distance sensor.
pub struct LaserCAN {
    pub driver: GrappleCanDriver,
    pub last_status_frame: Option<(u64, LaserCanMeasurement)>,
}

/// What the cache holds after a receive step: the measurement the step
/// yielded, stamped with its arrival time, else the old cache.
pub open spec fn spec_cache_after(
    cache: Option<(u64, LaserCanMeasurement)>,
    yielded: Option<(crate::ids::MessageId, GrappleDeviceMessage)>,
    now: u64,
) -> Option<(u64, LaserCanMeasurement)> {
    match yielded {
        Some((_id, GrappleDeviceMessage::DistanceSensor(LaserCanMessage::Measurement(m)))) => Some(
            (now, m),
        ),
        _ => cache,
    }
}

impl LaserCAN {
    pub fn new(can_id: u8) -> (r: LaserCAN)
        requires
            can_id < 64,
        ensures
            r.driver.can_id == can_id,
            r.driver.device_type == DEVICE_TYPE_DISTANCE_SENSOR,
            r.driver.reassembler_rx@ == Seq::<crate::fragments::EntryModel>::empty(),
            r.last_status_frame is None,
    {
        LaserCAN {
            driver: GrappleCanDriver::new(can_id, DEVICE_TYPE_DISTANCE_SENSOR),
            last_status_frame: None,
        }
    }

    /// Feeds one received frame to the driver and installs any
    /// measurement it yields into the cache, stamped with `now`.  The
    /// yielded message, if any, is handed back so a caller can also pair
    /// it against a pending request.
    pub fn feed_frame(&mut self, now: u64, raw_id: u32, data: &Vec<u8>) -> (r: Option<
        (crate::ids::MessageId, GrappleDeviceMessage),
    >)
        ensures
            final(self).driver.can_id == old(self).driver.can_id,
            final(self).driver.device_type == old(self).driver.device_type,
            final(self).driver.reassembler_tx == old(self).driver.reassembler_tx,
            ({
                let id = spec_decode_id(raw_id);
                if old(self).driver.spec_accepts(id) {
                    let step = spec_rx_step(old(self).driver.reassembler_rx@, now, id, data@);
                    &&& final(self).driver.reassembler_rx@ == step.0
                    &&& final(self).last_status_frame == spec_cache_after(
                        old(self).last_status_frame,
                        step.1,
                        now,
                    )
                    &&& r == step.1
                } else {
                    &&& final(self).driver.reassembler_rx@ == old(self).driver.reassembler_rx@
                    &&& final(self).last_status_frame == old(self).last_status_frame
                    &&& r is None
                }
            }),
    {
        let r = self.driver.receive_frame(now, raw_id, data);
        match r {
            Some((_id, GrappleDeviceMessage::DistanceSensor(LaserCanMessage::Measurement(m)))) => {
                self.last_status_frame = Some((now, m));
            },
            _ => {
            },
        }
        r
    }

    /// Freshness cache: gives the most recently received measurement
    /// exactly when it arrived within the freshness window; a stale cache
    /// is cleared and nothing is returned.
    pub fn get_measurement(&mut self, now: u64) -> (r: Option<LaserCanMeasurement>)
        ensures
            final(self).driver == old(self).driver,
            match old(self).last_status_frame {
                Some((t, m)) => {
                    &&& (r == Some(m) <==> now <= t + STATUS_FRESH_MS)
                    &&& (now <= t + STATUS_FRESH_MS ==> final(self).last_status_frame == Some(
                        (t, m),
                    ))
                    &&& (now > t + STATUS_FRESH_MS ==> r is None && final(self).last_status_frame
                        is None)
                },
                None => r is None && final(self).last_status_frame is None,
            },
    {
        match self.last_status_frame {
            Some((t, m)) => {
                if now > t && now - t > STATUS_FRESH_MS {
                    self.last_status_frame = None;
                    None
                } else {
                    Some(m)
                }
            },
            None => None,
        }
    }

    /// Starts an acknowledged request carrying `msg`: the frames to
    /// transmit and the state awaiting the matching reply.
    fn start_request(&mut self, now: u64, msg: &GrappleDeviceMessage) -> (r: Result<
        PendingRequest,
        GrappleError,
    >)
        requires
            old(self).driver.can_id < 64,
            msg.spec_valid(),
            spec_encode_payload(*msg).len() <= 8,
        ensures
            final(self).driver.can_id == old(self).driver.can_id,
            final(self).driver.device_type == old(self).driver.device_type,
            final(self).driver.reassembler_rx@ == old(self).driver.reassembler_rx@,
            final(self).driver.reassembler_tx == old(self).driver.reassembler_tx,
            final(self).last_status_frame == old(self).last_status_frame,
            r matches Ok(p) ==> {
                &&& p.state == (RequestState {
                    reply_id: spec_id_of(old(self).driver.can_id, *msg).spec_with_ack(),
                    started: now,
                    timeout_ms: LASERCAN_REQUEST_TIMEOUT_MS,
                    retries_left: LASERCAN_REQUEST_RETRIES,
                })
                &&& p.frames@.len() == 1
                &&& p.frames@[0]@ == (crate::fragments::FrameModel {
                    id: spec_encode_id(spec_id_of(old(self).driver.can_id, *msg)),
                    data: spec_encode_payload(*msg),
                })
            },
            r is Ok,
    {
        let frames = match self.driver.send(msg) {
            Ok(f) => f,
            Err(e) => {
                return Err(e);
            },
        };
        let reply_id = self.driver.reply_id(msg);
        Ok(
            PendingRequest {
                state: RequestState::new(
                    reply_id,
                    now,
                    LASERCAN_REQUEST_TIMEOUT_MS,
                    LASERCAN_REQUEST_RETRIES,
                ),
                frames,
            },
        )
    }

    /// Asks the sensor to adopt a ranging mode.
    pub fn set_range(&mut self, now: u64, mode: LaserCanRangingMode) -> (r: Result<
        PendingRequest,
        GrappleError,
    >)
        requires
            old(self).driver.can_id < 64,
        ensures
            final(self).driver.can_id == old(self).driver.can_id,
            final(self).driver.device_type == old(self).driver.device_type,
            final(self).driver.reassembler_rx@ == old(self).driver.reassembler_rx@,
            final(self).driver.reassembler_tx == old(self).driver.reassembler_tx,
            final(self).last_status_frame == old(self).last_status_frame,
            r matches Ok(p) && p.state.reply_id == spec_id_of(
                old(self).driver.can_id,
                GrappleDeviceMessage::DistanceSensor(
                    LaserCanMessage::SetRange(Request::Request(mode)),
                ),
            ).spec_with_ack() && p.state.started == now && p.state.timeout_ms
                == LASERCAN_REQUEST_TIMEOUT_MS && p.state.retries_left
                == LASERCAN_REQUEST_RETRIES && p.frames@.len() == 1 && p.frames@[0]@
                == (crate::fragments::FrameModel {
                id: spec_encode_id(
                    spec_id_of(
                        old(self).driver.can_id,
                        GrappleDeviceMessage::DistanceSensor(
                            LaserCanMessage::SetRange(Request::Request(mode)),
                        ),
                    ),
                ),
                data: spec_encode_payload(
                    GrappleDeviceMessage::DistanceSensor(
                        LaserCanMessage::SetRange(Request::Request(mode)),
                    ),
                ),
            }),
    {
        let msg = GrappleDeviceMessage::DistanceSensor(
            LaserCanMessage::SetRange(Request::Request(mode)),
        );
        self.start_request(now, &msg)
    }

    /// Asks the sensor to adopt a timing budget.
    pub fn set_timing_budget(&mut self, now: u64, budget: LaserCanTimingBudget) -> (r: Result<
        PendingRequest,
        GrappleError,
    >)
        requires
            old(self).driver.can_id < 64,
        ensures
            final(self).driver.can_id == old(self).driver.can_id,
            final(self).driver.device_type == old(self).driver.device_type,
            final(self).driver.reassembler_rx@ == old(self).driver.reassembler_rx@,
            final(self).driver.reassembler_tx == old(self).driver.reassembler_tx,
            final(self).last_status_frame == old(self).last_status_frame,
            r matches Ok(p) && p.state.reply_id == spec_id_of(
                old(self).driver.can_id,
                GrappleDeviceMessage::DistanceSensor(
                    LaserCanMessage::SetTimingBudget(Request::Request(budget)),
                ),
            ).spec_with_ack() && p.state.started == now && p.state.timeout_ms
                == LASERCAN_REQUEST_TIMEOUT_MS && p.state.retries_left
                == LASERCAN_REQUEST_RETRIES && p.frames@.len() == 1 && p.frames@[0]@
                == (crate::fragments::FrameModel {
                id: spec_encode_id(
                    spec_id_of(
                        old(self).driver.can_id,
                        GrappleDeviceMessage::DistanceSensor(
                            LaserCanMessage::SetTimingBudget(Request::Request(budget)),
                        ),
                    ),
                ),
                data: spec_encode_payload(
                    GrappleDeviceMessage::DistanceSensor(
                        LaserCanMessage::SetTimingBudget(Request::Request(budget)),
                    ),
                ),
            }),
    {
        let msg = GrappleDeviceMessage::DistanceSensor(
            LaserCanMessage::SetTimingBudget(Request::Request(budget)),
        );
        self.start_request(now, &msg)
    }

    /// Asks the sensor to adopt a region of interest.  An illegal region
    /// is rejected here, before anything is transmitted.
    pub fn set_roi(&mut self, now: u64, roi: LaserCanRoi) -> (r: Result<
        PendingRequest,
        GrappleError,
    >)
        requires
            old(self).driver.can_id < 64,
        ensures
            final(self).driver.can_id == old(self).driver.can_id,
            final(self).driver.device_type == old(self).driver.device_type,
            final(self).driver.reassembler_rx@ == old(self).driver.reassembler_rx@,
            final(self).driver.reassembler_tx == old(self).driver.reassembler_tx,
            final(self).last_status_frame == old(self).last_status_frame,
            r is Ok <==> roi.spec_legal(),
            r matches Err(e) ==> e.kind == ErrorKind::ParameterOutOfBounds,
            r matches Ok(p) ==> p.state.reply_id == spec_id_of(
                old(self).driver.can_id,
                GrappleDeviceMessage::DistanceSensor(
                    LaserCanMessage::SetRoi(Request::Request(roi)),
                ),
            ).spec_with_ack() && p.state.started == now && p.state.timeout_ms
                == LASERCAN_REQUEST_TIMEOUT_MS && p.state.retries_left
                == LASERCAN_REQUEST_RETRIES && p.frames@.len() == 1 && p.frames@[0]@
                == (crate::fragments::FrameModel {
                id: spec_encode_id(
                    spec_id_of(
                        old(self).driver.can_id,
                        GrappleDeviceMessage::DistanceSensor(
                            LaserCanMessage::SetRoi(Request::Request(roi)),
                        ),
                    ),
                ),
                data: spec_encode_payload(
                    GrappleDeviceMessage::DistanceSensor(
                        LaserCanMessage::SetRoi(Request::Request(roi)),
                    ),
                ),
            }),
    {
        let msg = GrappleDeviceMessage::DistanceSensor(
            LaserCanMessage::SetRoi(Request::Request(roi)),
        );
        match crate::messages::validate(&msg) {
            Ok(()) => self.start_request(now, &msg),
            Err(e) => Err(e),
        }
    }
}

/// Reads the device's verdict off a reply to a distance-sensor setter:
/// acceptance gives success, a rejection surfaces the device's error
/// kind, and a reply of any other shape is a failed assertion.
pub fn setter_reply(msg: &GrappleDeviceMessage) -> (r: Result<(), GrappleError>)
    ensures
        r is Ok <==> ({
            ||| *msg == GrappleDeviceMessage::DistanceSensor(
                LaserCanMessage::SetRange(Request::Ack(AckStatus::Accepted)),
            )
            ||| *msg == GrappleDeviceMessage::DistanceSensor(
                LaserCanMessage::SetRoi(Request::Ack(AckStatus::Accepted)),
            )
            ||| *msg == GrappleDeviceMessage::DistanceSensor(
                LaserCanMessage::SetTimingBudget(Request::Ack(AckStatus::Accepted)),
            )
        }),
        r matches Err(e) ==> match *msg {
            GrappleDeviceMessage::DistanceSensor(
                LaserCanMessage::SetRange(Request::Ack(AckStatus::Rejected(k))),
            ) => e.kind == k,
            GrappleDeviceMessage::DistanceSensor(
                LaserCanMessage::SetRoi(Request::Ack(AckStatus::Rejected(k))),
            ) => e.kind == k,
            GrappleDeviceMessage::DistanceSensor(
                LaserCanMessage::SetTimingBudget(Request::Ack(AckStatus::Rejected(k))),
            ) => e.kind == k,
            _ => e.kind == ErrorKind::FailedAssertion,
        },
{
    match msg {
        GrappleDeviceMessage::DistanceSensor(LaserCanMessage::SetRange(Request::Ack(st)))
        | GrappleDeviceMessage::DistanceSensor(LaserCanMessage::SetRoi(Request::Ack(st)))
        | GrappleDeviceMessage::DistanceSensor(
            LaserCanMessage::SetTimingBudget(Request::Ack(st)),
        ) => match st {
            AckStatus::Accepted => Ok(()),
            AckStatus::Rejected(k) => Err(GrappleError::new(*k, "device rejected the request")),
        },
        _ => Err(
            GrappleError::new(ErrorKind::FailedAssertion, "received request, expected an ack"),
        ),
    }
}

} // verus!
