//! Per-device CAN driver: a receive pump over the reassembly engine, a
//! validating send path over the split engine, and the request/reply state
//! machine with timeout and retry.
//!
//! The driver owns no I/O.  The caller polls the hardware layer, hands
//! every received frame to `receive_frame` with its timestamp, transmits
//! the frames `send` produces, and drives a `RequestState` with received
//! messages and clock ticks.

use vstd::prelude::*;

use crate::errors::ErrorKind;
use crate::errors::GrappleError;
use crate::fragments::CanFrame;
use crate::fragments::FragmentRx;
use crate::fragments::FragmentTx;
use crate::fragments::FrameModel;
use crate::fragments::spec_rx_step;
use crate::ids::MessageId;
use crate::ids::spec_decode_id;
use crate::ids::spec_encode_id;
use crate::ids::decode_id;
use crate::messages::GrappleDeviceMessage;
use crate::messages::spec_encode_payload;
use crate::messages::spec_id_of;
use crate::messages::encode_payload;
use crate::messages::id_of;
use crate::messages::validate;

verus! {

/// Milliseconds a request loop sleeps between polls of the hardware
/// layer, which offers no event primitive.
pub const REQUEST_POLL_MS: u64 = 5;

/// Driver for one device on the bus, addressed by its device-type tag and
/// its 6-bit device id.
pub struct GrappleCanDriver {
    pub can_id: u8,
    pub device_type: u8,
    pub reassembler_rx: FragmentRx,
    pub reassembler_tx: FragmentTx,
}

impl GrappleCanDriver {
    /// Does a received identifier address this driver?
    pub open spec fn spec_accepts(self, id: MessageId) -> bool {
        id.device_type == self.device_type && id.device_id == self.can_id
    }

    pub fn new(can_id: u8, device_type: u8) -> (r: GrappleCanDriver)
        requires
            can_id < 64,
        ensures
            r.can_id == can_id,
            r.device_type == device_type,
            r.reassembler_rx@ == Seq::<crate::fragments::EntryModel>::empty(),
            r.reassembler_tx.fragment_id == 0,
    {
        GrappleCanDriver {
            can_id,
            device_type,
            reassembler_rx: FragmentRx::new(),
            reassembler_tx: FragmentTx::new(),
        }
    }

    /// Feeds one received frame through the filter and the reassembly
    /// engine: a frame for another device is ignored, a frame for this
    /// one takes a receive step, yielding a whole message when one
    /// completes.
    pub fn receive_frame(&mut self, now: u64, raw_id: u32, data: &Vec<u8>) -> (r: Option<
        (MessageId, GrappleDeviceMessage),
    >)
        ensures
            final(self).can_id == old(self).can_id,
            final(self).device_type == old(self).device_type,
            final(self).reassembler_tx == old(self).reassembler_tx,
            ({
                let id = spec_decode_id(raw_id);
                if old(self).spec_accepts(id) {
                    &&& final(self).reassembler_rx@ == spec_rx_step(
                        old(self).reassembler_rx@,
                        now,
                        id,
                        data@,
                    ).0
                    &&& r == spec_rx_step(old(self).reassembler_rx@, now, id, data@).1
                } else {
                    &&& final(self).reassembler_rx@ == old(self).reassembler_rx@
                    &&& r is None
                }
            }),
    {
        let id = decode_id(raw_id);
        if id.device_type != self.device_type || id.device_id != self.can_id {
            return None;
        }
        self.reassembler_rx.defragment(now, id, data)
    }

    /// Validates a message and emits the frames that carry it, updating
    /// the fragment-id counter when fragmentation was needed.  An illegal
    /// message leaves the driver untouched.
    pub fn send(&mut self, msg: &GrappleDeviceMessage) -> (r: Result<Vec<CanFrame>, GrappleError>)
        requires
            old(self).can_id < 64,
        ensures
            final(self).can_id == old(self).can_id,
            final(self).device_type == old(self).device_type,
            final(self).reassembler_rx@ == old(self).reassembler_rx@,
            r is Ok <==> msg.spec_valid(),
            r matches Err(e) ==> e.kind == ErrorKind::ParameterOutOfBounds && *final(self)
                == *old(self),
            ({
                let payload = spec_encode_payload(*msg);
                let base = spec_id_of(old(self).can_id, *msg);
                r matches Ok(frames) ==> {
                    &&& payload.len() <= 8 ==> {
                        &&& final(self).reassembler_tx == old(self).reassembler_tx
                        &&& frames@.len() == 1
                        &&& frames@[0]@ == (FrameModel {
                            id: spec_encode_id(base),
                            data: payload,
                        })
                    }
                    &&& payload.len() > 8 ==> {
                        &&& final(self).reassembler_tx.fragment_id == ((
                        old(self).reassembler_tx.fragment_id + 1) % 256) as u8
                        &&& frames@.len() == crate::fragments::spec_fragment_count(payload.len())
                        &&& forall|k: int|
                            0 <= k < frames@.len() ==> frames@[k]@
                                == crate::fragments::spec_split_frames(
                                base,
                                final(self).reassembler_tx.fragment_id,
                                payload,
                            )[k]
                    }
                }
            }),
    {
        match validate(msg) {
            Ok(()) => {
            },
            Err(e) => {
                return Err(e);
            },
        }
        let base = id_of(self.can_id, msg);
        proof {
            crate::messages::lemma_id_of_wf(self.can_id, *msg);
            crate::messages::lemma_encode_len(*msg);
        }
        let payload = encode_payload(msg);
        Ok(self.reassembler_tx.maybe_fragment(base, payload))
    }

    /// The identifier of the reply that acknowledges a request: the
    /// request's own identifier with the ack flag set.
    pub fn reply_id(&self, msg: &GrappleDeviceMessage) -> (r: MessageId)
        ensures
            r == spec_id_of(self.can_id, *msg).spec_with_ack(),
    {
        id_of(self.can_id, msg).with_ack()
    }
}

/// What a request loop should do after a clock tick.
#[derive(Clone, Copy, Debug, PartialEq, Eq, Structural)]
pub enum RequestTick {
    /// The window is still open: poll again after the poll interval.
    Wait,
    /// The window expired with retries left: transmit the request frames
    /// again and keep waiting.
    Resend,
    /// The window expired and the retry budget is spent.
    Expired,
}

/// The caller-driven state of one request awaiting its acknowledgement.
#[derive(Clone, Copy, Debug, PartialEq, Eq, Structural)]
pub struct RequestState {
    pub reply_id: MessageId,
    pub started: u64,
    pub timeout_ms: u64,
    pub retries_left: usize,
}

impl RequestState {
    pub fn new(reply_id: MessageId, now: u64, timeout_ms: u64, retries: usize) -> (r: RequestState)
        ensures
            r == (RequestState { reply_id, started: now, timeout_ms, retries_left: retries }),
    {
        RequestState { reply_id, started: now, timeout_ms, retries_left: retries }
    }

    /// Ack pairing: a received message completes the request exactly when
    /// its identifier equals the awaited reply identifier, which is the
    /// request's identifier with the ack flag set; any other message is
    /// passed over.
    pub fn on_message(&self, id: MessageId, msg: &GrappleDeviceMessage) -> (r: Option<
        GrappleDeviceMessage,
    >)
        ensures
            id == self.reply_id ==> r == Some(*msg),
            id != self.reply_id ==> r is None,
    {
        if id == self.reply_id {
            Some(*msg)
        } else {
            None
        }
    }

    /// Advances the clock: within the window the loop keeps polling; at
    /// expiry a retry re-opens the window, and with no retries left the
    /// request has timed out.
    pub fn on_tick(&mut self, now: u64) -> (r: RequestTick)
        ensures
            now < old(self).started + old(self).timeout_ms ==> r == RequestTick::Wait && *final(self)
                == *old(self),
            now >= old(self).started + old(self).timeout_ms && old(self).retries_left > 0 ==> r
                == RequestTick::Resend && *final(self) == (RequestState {
                started: now,
                retries_left: (old(self).retries_left - 1) as usize,
                ..*old(self)
            }),
            now >= old(self).started + old(self).timeout_ms && old(self).retries_left == 0 ==> r
                == RequestTick::Expired && *final(self) == *old(self),
    {
        if now < self.started || now - self.started < self.timeout_ms {
            RequestTick::Wait
        } else if self.retries_left > 0 {
            self.started = now;
            self.retries_left = self.retries_left - 1;
            RequestTick::Resend
        } else {
            RequestTick::Expired
        }
    }

    /// The error a request surfaces once its retry budget is spent.
    pub fn timeout_error(&self) -> (r: GrappleError)
        ensures
            r.kind == ErrorKind::TimedOut,
    {
        GrappleError::new(
            ErrorKind::TimedOut,
            "CAN Request Timed Out! Is your device plugged in and the firmware up to date?",
        )
    }
}

/// A request ready to run: the frames to transmit and the state that
/// pairs the acknowledgement.
#[derive(Clone, Debug)]
pub struct PendingRequest {
    pub state: RequestState,
    pub frames: Vec<CanFrame>,
}

} // verus!
