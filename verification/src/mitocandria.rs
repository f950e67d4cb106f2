//! Facade for the switchable power-distribution module.
//!
//! Wraps one driver and a cached status frame.  Getters read per-channel
//! values off the fresh cache in milliamps and millivolts.  Setters
//! dispatch on the channel's capability: switching a non-switchable
//! channel or adjusting a non-adjustable one is rejected locally, and an
//! adjustable channel's enable request re-sends its last known voltage
//! setpoint so the device keeps it.

use vstd::prelude::*;

use crate::driver::GrappleCanDriver;
use crate::driver::PendingRequest;
use crate::driver::RequestState;
use crate::errors::ErrorKind;
use crate::errors::GrappleError;
use crate::fragments::spec_rx_step;
use crate::ids::DEVICE_TYPE_POWER_DISTRIBUTION_MODULE;
use crate::ids::spec_decode_id;
use crate::ids::spec_encode_id;
use crate::lasercan::STATUS_FRESH_MS;
use crate::messages::AckStatus;
use crate::messages::GrappleDeviceMessage;
use crate::messages::MitocandriaAdjustableChannelRequest;
use crate::messages::MitocandriaChannelRequest;
use crate::messages::MitocandriaChannelStatus;
use crate::messages::MitocandriaMessage;
use crate::messages::MitocandriaStatusFrame;
use crate::messages::MitocandriaSwitchableChannelRequest;
use crate::messages::Request;
use crate::messages::spec_encode_payload;
use crate::messages::spec_id_of;

verus! {

/// Timeout of one power-module request window, in milliseconds.
pub const MITOCANDRIA_REQUEST_TIMEOUT_MS: u64 = 500;

/// Retry budget of a power-module request.
pub const MITOCANDRIA_REQUEST_RETRIES: usize = 3;

/// Millivolts the fixed five-volt channels report.
pub const FIXED_CHANNEL_MILLIVOLTS: u16 = 5000;

/// Driver facade for one power-distribution module.
pub struct MitoCANdria {
    pub driver: GrappleCanDriver,
    pub last_status_frame: Option<(u64, MitocandriaStatusFrame)>,
}

/// What the cache holds after a receive step: the status frame the step
/// yielded, stamped with its arrival time, else the old cache.
pub open spec fn spec_cache_after(
    cache: Option<(u64, MitocandriaStatusFrame)>,
    yielded: Option<(crate::ids::MessageId, GrappleDeviceMessage)>,
    now: u64,
) -> Option<(u64, MitocandriaStatusFrame)> {
    match yielded {
        Some(
            (_id, GrappleDeviceMessage::PowerDistributionModule(MitocandriaMessage::StatusFrame(f))),
        ) => Some((now, f)),
        _ => cache,
    }
}

/// The status a getter consults at `now`: the cached frame while fresh.
pub open spec fn spec_fresh_status(
    cache: Option<(u64, MitocandriaStatusFrame)>,
    now: u64,
) -> Option<MitocandriaStatusFrame> {
    match cache {
        Some((t, f)) => if now <= t + STATUS_FRESH_MS {
            Some(f)
        } else {
            None
        },
        None => None,
    }
}

impl MitoCANdria {
    pub fn new(can_id: u8) -> (r: MitoCANdria)
        requires
            can_id < 64,
        ensures
            r.driver.can_id == can_id,
            r.driver.device_type == DEVICE_TYPE_POWER_DISTRIBUTION_MODULE,
            r.driver.reassembler_rx@ == Seq::<crate::fragments::EntryModel>::empty(),
            r.last_status_frame is None,
    {
        MitoCANdria {
            driver: GrappleCanDriver::new(can_id, DEVICE_TYPE_POWER_DISTRIBUTION_MODULE),
            last_status_frame: None,
        }
    }

    /// Feeds one received frame to the driver and installs any status
    /// frame it yields into the cache, stamped with `now`.  The yielded
    /// message, if any, is handed back so a caller can also pair it
    /// against a pending request.
    pub fn feed_frame(&mut self, now: u64, raw_id: u32, data: &Vec<u8>) -> (r: Option<
        (crate::ids::MessageId, GrappleDeviceMessage),
    >)
        ensures
            final(self).driver.can_id == old(self).driver.can_id,
            final(self).driver.device_type == old(self).driver.device_type,
            final(self).driver.reassembler_tx == old(self).driver.reassembler_tx,
            ({
                let id = spec_decode_id(raw_id);
                if old(self).driver.spec_accepts(id) {
                    let step = spec_rx_step(old(self).driver.reassembler_rx@, now, id, data@);
                    &&& final(self).driver.reassembler_rx@ == step.0
                    &&& final(self).last_status_frame == spec_cache_after(
                        old(self).last_status_frame,
                        step.1,
                        now,
                    )
                    &&& r == step.1
                } else {
                    &&& final(self).driver.reassembler_rx@ == old(self).driver.reassembler_rx@
                    &&& final(self).last_status_frame == old(self).last_status_frame
                    &&& r is None
                }
            }),
    {
        let r = self.driver.receive_frame(now, raw_id, data);
        match r {
            Some(
                (
                    _id,
                    GrappleDeviceMessage::PowerDistributionModule(
                        MitocandriaMessage::StatusFrame(f),
                    ),
                ),
            ) => {
                self.last_status_frame = Some((now, f));
            },
            _ => {
            },
        }
        r
    }

    /// Freshness cache: gives the most recently received status frame
    /// exactly when it arrived within the freshness window; a stale
    /// cache is cleared and nothing is returned.
    pub fn get_status(&mut self, now: u64) -> (r: Option<MitocandriaStatusFrame>)
        ensures
            final(self).driver == old(self).driver,
            r == spec_fresh_status(old(self).last_status_frame, now),
            final(self).last_status_frame == if r is Some {
                old(self).last_status_frame
            } else {
                None::<(u64, MitocandriaStatusFrame)>
            },
    {
        match self.last_status_frame {
            Some((t, f)) => {
                if now > t && now - t > STATUS_FRESH_MS {
                    self.last_status_frame = None;
                    None
                } else {
                    Some(f)
                }
            },
            None => None,
        }
    }

    /// Current drawn on a channel, in milliamps: absent while no fresh
    /// status is cached, an error on an unknown channel.
    pub fn get_current(&mut self, now: u64, channel: u8) -> (r: Option<Result<u16, GrappleError>>)
        ensures
            final(self).driver == old(self).driver,
            match spec_fresh_status(old(self).last_status_frame, now) {
                None => r is None,
                Some(f) => match f.spec_channel(channel as int) {
                    Some(MitocandriaChannelStatus::Switchable { current, .. }) => r == Some(
                        Ok::<u16, GrappleError>(current),
                    ),
                    Some(MitocandriaChannelStatus::NonSwitchable { current }) => r == Some(
                        Ok::<u16, GrappleError>(current),
                    ),
                    Some(MitocandriaChannelStatus::Adjustable { current, .. }) => r == Some(
                        Ok::<u16, GrappleError>(current),
                    ),
                    None => r matches Some(Err(e)) && e.kind == ErrorKind::ParameterOutOfBounds,
                },
            },
    {
        let status = match self.get_status(now) {
            Some(f) => f,
            None => {
                return None;
            },
        };
        match status.channel(channel) {
            Some(MitocandriaChannelStatus::Switchable { current, .. }) => Some(Ok(current)),
            Some(MitocandriaChannelStatus::NonSwitchable { current }) => Some(Ok(current)),
            Some(MitocandriaChannelStatus::Adjustable { current, .. }) => Some(Ok(current)),
            None => Some(
                Err(GrappleError::new(ErrorKind::ParameterOutOfBounds, "Invalid channel!")),
            ),
        }
    }

    /// Voltage presented on a channel, in millivolts: the fixed channels
    /// report five volts, an adjustable one its measured voltage.
    pub fn get_voltage(&mut self, now: u64, channel: u8) -> (r: Option<Result<u16, GrappleError>>)
        ensures
            final(self).driver == old(self).driver,
            match spec_fresh_status(old(self).last_status_frame, now) {
                None => r is None,
                Some(f) => match f.spec_channel(channel as int) {
                    Some(MitocandriaChannelStatus::Switchable { .. }) => r == Some(
                        Ok::<u16, GrappleError>(FIXED_CHANNEL_MILLIVOLTS),
                    ),
                    Some(MitocandriaChannelStatus::NonSwitchable { .. }) => r == Some(
                        Ok::<u16, GrappleError>(FIXED_CHANNEL_MILLIVOLTS),
                    ),
                    Some(MitocandriaChannelStatus::Adjustable { voltage, .. }) => r == Some(
                        Ok::<u16, GrappleError>(voltage),
                    ),
                    None => r matches Some(Err(e)) && e.kind == ErrorKind::ParameterOutOfBounds,
                },
            },
    {
        let status = match self.get_status(now) {
            Some(f) => f,
            None => {
                return None;
            },
        };
        match status.channel(channel) {
            Some(MitocandriaChannelStatus::Switchable { .. }) => Some(
                Ok(FIXED_CHANNEL_MILLIVOLTS),
            ),
            Some(MitocandriaChannelStatus::NonSwitchable { .. }) => Some(
                Ok(FIXED_CHANNEL_MILLIVOLTS),
            ),
            Some(MitocandriaChannelStatus::Adjustable { voltage, .. }) => Some(Ok(voltage)),
            None => Some(
                Err(GrappleError::new(ErrorKind::ParameterOutOfBounds, "Invalid channel!")),
            ),
        }
    }

    /// Voltage setpoint of a channel, in millivolts: the fixed channels
    /// report five volts.
    pub fn get_voltage_setpoint(&mut self, now: u64, channel: u8) -> (r: Option<
        Result<u16, GrappleError>,
    >)
        ensures
            final(self).driver == old(self).driver,
            match spec_fresh_status(old(self).last_status_frame, now) {
                None => r is None,
                Some(f) => match f.spec_channel(channel as int) {
                    Some(MitocandriaChannelStatus::Switchable { .. }) => r == Some(
                        Ok::<u16, GrappleError>(FIXED_CHANNEL_MILLIVOLTS),
                    ),
                    Some(MitocandriaChannelStatus::NonSwitchable { .. }) => r == Some(
                        Ok::<u16, GrappleError>(FIXED_CHANNEL_MILLIVOLTS),
                    ),
                    Some(MitocandriaChannelStatus::Adjustable { voltage_setpoint, .. }) => r
                        == Some(Ok::<u16, GrappleError>(voltage_setpoint)),
                    None => r matches Some(Err(e)) && e.kind == ErrorKind::ParameterOutOfBounds,
                },
            },
    {
        let status = match self.get_status(now) {
            Some(f) => f,
            None => {
                return None;
            },
        };
        match status.channel(channel) {
            Some(MitocandriaChannelStatus::Switchable { .. }) => Some(
                Ok(FIXED_CHANNEL_MILLIVOLTS),
            ),
            Some(MitocandriaChannelStatus::NonSwitchable { .. }) => Some(
                Ok(FIXED_CHANNEL_MILLIVOLTS),
            ),
            Some(MitocandriaChannelStatus::Adjustable { voltage_setpoint, .. }) => Some(
                Ok(voltage_setpoint),
            ),
            None => Some(
                Err(GrappleError::new(ErrorKind::ParameterOutOfBounds, "Invalid channel!")),
            ),
        }
    }

    /// Whether a channel is live: a non-switchable channel always is.
    pub fn get_enabled(&mut self, now: u64, channel: u8) -> (r: Option<Result<bool, GrappleError>>)
        ensures
            final(self).driver == old(self).driver,
            match spec_fresh_status(old(self).last_status_frame, now) {
                None => r is None,
                Some(f) => match f.spec_channel(channel as int) {
                    Some(MitocandriaChannelStatus::Switchable { enabled, .. }) => r == Some(
                        Ok::<bool, GrappleError>(enabled),
                    ),
                    Some(MitocandriaChannelStatus::NonSwitchable { .. }) => r == Some(
                        Ok::<bool, GrappleError>(true),
                    ),
                    Some(MitocandriaChannelStatus::Adjustable { enabled, .. }) => r == Some(
                        Ok::<bool, GrappleError>(enabled),
                    ),
                    None => r matches Some(Err(e)) && e.kind == ErrorKind::ParameterOutOfBounds,
                },
            },
    {
        let status = match self.get_status(now) {
            Some(f) => f,
            None => {
                return None;
            },
        };
        match status.channel(channel) {
            Some(MitocandriaChannelStatus::Switchable { enabled, .. }) => Some(Ok(enabled)),
            Some(MitocandriaChannelStatus::NonSwitchable { .. }) => Some(Ok(true)),
            Some(MitocandriaChannelStatus::Adjustable { enabled, .. }) => Some(Ok(enabled)),
            None => Some(
                Err(GrappleError::new(ErrorKind::ParameterOutOfBounds, "Invalid channel!")),
            ),
        }
    }

    /// The channel-request message `set_enabled` issues for a channel, if
    /// the capability allows one: a switchable channel takes a switch
    /// request; an adjustable one takes an adjustable request that keeps
    /// its last known voltage setpoint.
    pub open spec fn spec_enable_request(
        f: MitocandriaStatusFrame,
        channel: u8,
        enabled: bool,
    ) -> Option<GrappleDeviceMessage> {
        match f.spec_channel(channel as int) {
            Some(MitocandriaChannelStatus::Switchable { .. }) => Some(
                GrappleDeviceMessage::PowerDistributionModule(
                    MitocandriaMessage::ChannelRequest(
                        MitocandriaChannelRequest::SetSwitchableChannel(
                            Request::Request(
                                MitocandriaSwitchableChannelRequest { channel, enabled },
                            ),
                        ),
                    ),
                ),
            ),
            Some(
                MitocandriaChannelStatus::Adjustable { voltage_setpoint, .. },
            ) => Some(
                GrappleDeviceMessage::PowerDistributionModule(
                    MitocandriaMessage::ChannelRequest(
                        MitocandriaChannelRequest::SetAdjustableChannel(
                            Request::Request(
                                MitocandriaAdjustableChannelRequest {
                                    channel,
                                    enabled,
                                    voltage: voltage_setpoint,
                                },
                            ),
                        ),
                    ),
                ),
            ),
            _ => None,
        }
    }

    /// Switches a channel on or off.  Needs a fresh status frame; rejects
    /// unknown channels and non-switchable ones.
    pub fn set_enabled(&mut self, now: u64, channel: u8, enabled: bool) -> (r: Result<
        PendingRequest,
        GrappleError,
    >)
        requires
            old(self).driver.can_id < 64,
        ensures
            final(self).driver.can_id == old(self).driver.can_id,
            final(self).driver.device_type == old(self).driver.device_type,
            final(self).driver.reassembler_rx@ == old(self).driver.reassembler_rx@,
            final(self).driver.reassembler_tx == old(self).driver.reassembler_tx,
            match spec_fresh_status(old(self).last_status_frame, now) {
                None => r matches Err(e) && e.kind == ErrorKind::FailedAssertion,
                Some(f) => match f.spec_channel(channel as int) {
                    None => r matches Err(e) && e.kind == ErrorKind::ParameterOutOfBounds,
                    Some(MitocandriaChannelStatus::NonSwitchable { .. }) => r matches Err(e)
                        && e.kind == ErrorKind::FailedAssertion,
                    _ => ({
                        let msg = MitoCANdria::spec_enable_request(f, channel, enabled)->Some_0;
                        r matches Ok(p) && p.state == (RequestState {
                            reply_id: spec_id_of(old(self).driver.can_id, msg).spec_with_ack(),
                            started: now,
                            timeout_ms: MITOCANDRIA_REQUEST_TIMEOUT_MS,
                            retries_left: MITOCANDRIA_REQUEST_RETRIES,
                        }) && p.frames@.len() == 1 && p.frames@[0]@
                            == (crate::fragments::FrameModel {
                            id: spec_encode_id(spec_id_of(old(self).driver.can_id, msg)),
                            data: spec_encode_payload(msg),
                        })
                    }),
                },
            },
    {
        let status = match self.get_status(now) {
            Some(f) => f,
            None => {
                return Err(GrappleError::new(ErrorKind::FailedAssertion, "MitoCANdria Offline"));
            },
        };
        let msg = match status.channel(channel) {
            None => {
                return Err(
                    GrappleError::new(ErrorKind::ParameterOutOfBounds, "Invalid channel!"),
                );
            },
            Some(MitocandriaChannelStatus::NonSwitchable { .. }) => {
                return Err(
                    GrappleError::new(
                        ErrorKind::FailedAssertion,
                        "Cannot switch a non-switchable channel",
                    ),
                );
            },
            Some(MitocandriaChannelStatus::Switchable { .. }) => {
                GrappleDeviceMessage::PowerDistributionModule(
                    MitocandriaMessage::ChannelRequest(
                        MitocandriaChannelRequest::SetSwitchableChannel(
                            Request::Request(
                                MitocandriaSwitchableChannelRequest { channel, enabled },
                            ),
                        ),
                    ),
                )
            },
            Some(MitocandriaChannelStatus::Adjustable { voltage_setpoint, .. }) => {
                GrappleDeviceMessage::PowerDistributionModule(
                    MitocandriaMessage::ChannelRequest(
                        MitocandriaChannelRequest::SetAdjustableChannel(
                            Request::Request(
                                MitocandriaAdjustableChannelRequest {
                                    channel,
                                    enabled,
                                    voltage: voltage_setpoint,
                                },
                            ),
                        ),
                    ),
                )
            },
        };
        self.start_request(now, &msg)
    }

    /// Drives an adjustable channel to a voltage, in millivolts.  Needs a
    /// fresh status frame; rejects unknown channels and ones whose
    /// voltage is fixed.
    pub fn set_voltage(&mut self, now: u64, channel: u8, millivolts: u16) -> (r: Result<
        PendingRequest,
        GrappleError,
    >)
        requires
            old(self).driver.can_id < 64,
        ensures
            final(self).driver.can_id == old(self).driver.can_id,
            final(self).driver.device_type == old(self).driver.device_type,
            final(self).driver.reassembler_rx@ == old(self).driver.reassembler_rx@,
            final(self).driver.reassembler_tx == old(self).driver.reassembler_tx,
            match spec_fresh_status(old(self).last_status_frame, now) {
                None => r matches Err(e) && e.kind == ErrorKind::FailedAssertion,
                Some(f) => match f.spec_channel(channel as int) {
                    None => r matches Err(e) && e.kind == ErrorKind::ParameterOutOfBounds,
                    Some(MitocandriaChannelStatus::Adjustable { enabled, .. }) => ({
                        let msg = GrappleDeviceMessage::PowerDistributionModule(
                            MitocandriaMessage::ChannelRequest(
                                MitocandriaChannelRequest::SetAdjustableChannel(
                                    Request::Request(
                                        MitocandriaAdjustableChannelRequest {
                                            channel,
                                            enabled,
                                            voltage: millivolts,
                                        },
                                    ),
                                ),
                            ),
                        );
                        r matches Ok(p) && p.state == (RequestState {
                            reply_id: spec_id_of(old(self).driver.can_id, msg).spec_with_ack(),
                            started: now,
                            timeout_ms: MITOCANDRIA_REQUEST_TIMEOUT_MS,
                            retries_left: MITOCANDRIA_REQUEST_RETRIES,
                        }) && p.frames@.len() == 1 && p.frames@[0]@
                            == (crate::fragments::FrameModel {
                            id: spec_encode_id(spec_id_of(old(self).driver.can_id, msg)),
                            data: spec_encode_payload(msg),
                        })
                    }),
                    _ => r matches Err(e) && e.kind == ErrorKind::FailedAssertion,
                },
            },
    {
        let status = match self.get_status(now) {
            Some(f) => f,
            None => {
                return Err(GrappleError::new(ErrorKind::FailedAssertion, "MitoCANdria Offline"));
            },
        };
        let msg = match status.channel(channel) {
            None => {
                return Err(
                    GrappleError::new(ErrorKind::ParameterOutOfBounds, "Invalid channel!"),
                );
            },
            Some(MitocandriaChannelStatus::Adjustable { enabled, .. }) => {
                GrappleDeviceMessage::PowerDistributionModule(
                    MitocandriaMessage::ChannelRequest(
                        MitocandriaChannelRequest::SetAdjustableChannel(
                            Request::Request(
                                MitocandriaAdjustableChannelRequest {
                                    channel,
                                    enabled,
                                    voltage: millivolts,
                                },
                            ),
                        ),
                    ),
                )
            },
            Some(_) => {
                return Err(
                    GrappleError::new(
                        ErrorKind::FailedAssertion,
                        "Cannot adjust voltage on a non-adjustable channel",
                    ),
                );
            },
        };
        self.start_request(now, &msg)
    }

    /// Starts an acknowledged request carrying `msg`.
    fn start_request(&mut self, now: u64, msg: &GrappleDeviceMessage) -> (r: Result<
        PendingRequest,
        GrappleError,
    >)
        requires
            old(self).driver.can_id < 64,
            msg.spec_valid(),
            spec_encode_payload(*msg).len() <= 8,
        ensures
            final(self).driver.can_id == old(self).driver.can_id,
            final(self).driver.device_type == old(self).driver.device_type,
            final(self).driver.reassembler_rx@ == old(self).driver.reassembler_rx@,
            final(self).driver.reassembler_tx == old(self).driver.reassembler_tx,
            final(self).last_status_frame == old(self).last_status_frame,
            r matches Ok(p) ==> {
                &&& p.state == (RequestState {
                    reply_id: spec_id_of(old(self).driver.can_id, *msg).spec_with_ack(),
                    started: now,
                    timeout_ms: MITOCANDRIA_REQUEST_TIMEOUT_MS,
                    retries_left: MITOCANDRIA_REQUEST_RETRIES,
                })
                &&& p.frames@.len() == 1
                &&& p.frames@[0]@ == (crate::fragments::FrameModel {
                    id: spec_encode_id(spec_id_of(old(self).driver.can_id, *msg)),
                    data: spec_encode_payload(*msg),
                })
            },
            r is Ok,
    {
        let frames = match self.driver.send(msg) {
            Ok(f) => f,
            Err(e) => {
                return Err(e);
            },
        };
        let reply_id = self.driver.reply_id(msg);
        Ok(
            PendingRequest {
                state: RequestState::new(
                    reply_id,
                    now,
                    MITOCANDRIA_REQUEST_TIMEOUT_MS,
                    MITOCANDRIA_REQUEST_RETRIES,
                ),
                frames,
            },
        )
    }
}

/// Reads the device's verdict off a reply to a power-module channel
/// request: acceptance gives success, a rejection surfaces the device's
/// error kind, and a reply of any other shape is a failed assertion.
pub fn channel_request_reply(msg: &GrappleDeviceMessage) -> (r: Result<(), GrappleError>)
    ensures
        r is Ok <==> ({
            ||| msg matches GrappleDeviceMessage::PowerDistributionModule(
                MitocandriaMessage::ChannelRequest(
                    MitocandriaChannelRequest::SetSwitchableChannel(
                        Request::Ack(AckStatus::Accepted),
                    ),
                ),
            )
            ||| msg matches GrappleDeviceMessage::PowerDistributionModule(
                MitocandriaMessage::ChannelRequest(
                    MitocandriaChannelRequest::SetAdjustableChannel(
                        Request::Ack(AckStatus::Accepted),
                    ),
                ),
            )
        }),
        r matches Err(e) ==> match *msg {
            GrappleDeviceMessage::PowerDistributionModule(
                MitocandriaMessage::ChannelRequest(
                    MitocandriaChannelRequest::SetSwitchableChannel(
                        Request::Ack(AckStatus::Rejected(k)),
                    ),
                ),
            ) => e.kind == k,
            GrappleDeviceMessage::PowerDistributionModule(
                MitocandriaMessage::ChannelRequest(
                    MitocandriaChannelRequest::SetAdjustableChannel(
                        Request::Ack(AckStatus::Rejected(k)),
                    ),
                ),
            ) => e.kind == k,
            _ => e.kind == ErrorKind::FailedAssertion,
        },
{
    match msg {
        GrappleDeviceMessage::PowerDistributionModule(
            MitocandriaMessage::ChannelRequest(
                MitocandriaChannelRequest::SetSwitchableChannel(Request::Ack(st)),
            ),
        )
        | GrappleDeviceMessage::PowerDistributionModule(
            MitocandriaMessage::ChannelRequest(
                MitocandriaChannelRequest::SetAdjustableChannel(Request::Ack(st)),
            ),
        ) => match st {
            AckStatus::Accepted => Ok(()),
            AckStatus::Rejected(k) => Err(GrappleError::new(*k, "device rejected the request")),
        },
        _ => Err(
            GrappleError::new(ErrorKind::FailedAssertion, "received request, expected an ack"),
        ),
    }
}

} // verus!
