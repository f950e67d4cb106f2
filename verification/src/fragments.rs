//! Fragmentation and reassembly of oversize vendor messages.
//!
//! A serialized payload that fits in one 8-byte frame travels as a single
//! frame whose identifier has the fragment flag clear.  A longer payload
//! travels as two or more frames with the fragment flag set: each such
//! frame starts with a two-byte header naming the fragment id, the
//! sequence index (7 bits) and an is-last marker (top bit), followed by up
//! to eight payload bytes.
//!
//! The receive half keeps one entry per (sender, fragment-id) pair:
//! fragments must arrive in sequence order; an out-of-order arrival
//! silently discards the partial, entries untouched for longer than the
//! staleness bound are swept before every receive step, and each sender is
//! capped to a small number of concurrent partials with least-recently-
//! touched eviction on overflow.

use vstd::prelude::*;
use vstd::seq_lib::*;

use crate::ids::MessageId;
use crate::ids::spec_decode_id;
use crate::ids::spec_encode_id;
use crate::ids::encode_id;
use crate::messages::GrappleDeviceMessage;
use crate::messages::spec_decode_payload;
use crate::messages::decode_payload;

verus! {

/// Entries older than this many milliseconds are evicted on receive.
pub const STALE_MS: u64 = 1000;

/// Largest number of reassembly entries kept per sender.
pub const MAX_PARTIALS_PER_SENDER: usize = 8;

/// Payload bytes carried by one fragment frame.
pub const FRAGMENT_CHUNK: usize = 8;

/// Longest payload the split half accepts: the sequence index must fit in
/// its 7-bit slot.
pub const MAX_FRAGMENTED_PAYLOAD: usize = 1024;

/// One physical CAN frame: an encoded 29-bit identifier and the data
/// bytes.
#[derive(Clone, Debug)]
pub struct CanFrame {
    pub id: u32,
    pub data: Vec<u8>,
}

/// Mathematical model of a frame.
pub struct FrameModel {
    pub id: u32,
    pub data: Seq<u8>,
}

impl View for CanFrame {
    type V = FrameModel;

    open spec fn view(&self) -> FrameModel {
        FrameModel { id: self.id, data: self.data@ }
    }
}

// ---------------------------------------------------------------------------
// Split half (transmit)
// ---------------------------------------------------------------------------
/// Transmit half: holds only the eight-bit wrap-around fragment-id
/// counter, recording the id most recently used.
pub struct FragmentTx {
    pub fragment_id: u8,
}

/// The header byte holding the is-last marker above the 7-bit sequence
/// index.
pub open spec fn spec_seq_byte(seq: u8, last: bool) -> u8 {
    (crate::messages::spec_bool_byte(last) * 128 + seq) as u8
}

/// Bytes `8k` up to `8k + 8` of the payload; the final chunk may be
/// shorter.
pub open spec fn spec_chunk(payload: Seq<u8>, k: int) -> Seq<u8> {
    payload.subrange(
        k * 8,
        if (k + 1) * 8 <= payload.len() {
            (k + 1) * 8
        } else {
            payload.len() as int
        },
    )
}

/// Number of fragments an oversize payload splits into.
pub open spec fn spec_fragment_count(len: nat) -> int {
    (len + 7) as int / 8
}

/// The fragment frames of an oversize payload: ascending sequence
/// indexes, the last one marked, all sharing one fragment id and the base
/// identifier with the fragment flag set.
pub open spec fn spec_split_frames(base: MessageId, fid: u8, payload: Seq<u8>) -> Seq<FrameModel> {
    let n = spec_fragment_count(payload.len());
    Seq::new(
        n as nat,
        |k: int|
            FrameModel {
                id: spec_encode_id(MessageId { fragment_flag: true, ..base }),
                data: seq![fid, spec_seq_byte(k as u8, k == n - 1)] + spec_chunk(payload, k),
            },
    )
}

impl FragmentTx {
    pub fn new() -> (r: FragmentTx)
        ensures
            r.fragment_id == 0,
    {
        FragmentTx { fragment_id: 0 }
    }

    /// Emits a payload as frames.  A payload of at most eight bytes goes
    /// out as one unfragmented frame and does not consume a fragment id;
    /// a longer one goes out as `N >= 2` fragment frames in ascending
    /// sequence order under the next fragment id.
    pub fn maybe_fragment(&mut self, base: MessageId, payload: Vec<u8>) -> (r: Vec<CanFrame>)
        requires
            base.well_formed(),
            payload@.len() <= MAX_FRAGMENTED_PAYLOAD,
        ensures
            payload@.len() <= FRAGMENT_CHUNK ==> {
                &&& final(self).fragment_id == old(self).fragment_id
                &&& r@.len() == 1
                &&& r@[0]@ == (FrameModel { id: spec_encode_id(base), data: payload@ })
            },
            payload@.len() > FRAGMENT_CHUNK ==> {
                &&& final(self).fragment_id == ((old(self).fragment_id + 1) % 256) as u8
                &&& r@.len() == spec_fragment_count(payload@.len())
                &&& r@.len() >= 2
                &&& forall|k: int|
                    0 <= k < r@.len() ==> r@[k]@ == spec_split_frames(
                        base,
                        final(self).fragment_id,
                        payload@,
                    )[k]
            },
    {
        let mut out: Vec<CanFrame> = Vec::new();
        if payload.len() <= FRAGMENT_CHUNK {
            out.push(CanFrame { id: encode_id(base), data: payload });
            return out;
        }
        let prev = self.fragment_id;
        self.fragment_id = self.fragment_id.wrapping_add(1);
        let fid = self.fragment_id;
        proof {
            assert(fid == ((prev + 1) % 256) as u8) by (bit_vector)
                requires
                    fid == prev.wrapping_add(1),
            ;
        }
        let frag_id_u32 = encode_id(base.with_fragment());
        let total = payload.len();
        let ghost frames = spec_split_frames(base, fid, payload@);
        let n = (total + 7) / 8;
        let mut k: usize = 0;
        while k < n
            invariant
                n == spec_fragment_count(payload@.len()),
                payload@.len() > 8,
                payload@.len() <= MAX_FRAGMENTED_PAYLOAD,
                total == payload@.len(),
                frag_id_u32 == spec_encode_id(MessageId { fragment_flag: true, ..base }),
                frames == spec_split_frames(base, fid, payload@),
                k <= n,
                out@.len() == k,
                forall|j: int| 0 <= j < k ==> out@[j]@ == frames[j],
            decreases n - k,
        {
            let mut data: Vec<u8> = Vec::new();
            data.push(fid);
            let last = k == n - 1;
            let seq_byte = if last {
                128 + (k as u8)
            } else {
                k as u8
            };
            data.push(seq_byte);
            let start = k * 8;
            let end = if start + 8 <= total {
                start + 8
            } else {
                total
            };
            let mut i = start;
            while i < end
                invariant
                    start <= i <= end <= payload@.len(),
                    data@.len() == 2 + i - start,
                    data@[0] == fid,
                    data@[1] == seq_byte,
                    forall|j: int| 2 <= j < data@.len() ==> data@[j] == payload@[start + j - 2],
                decreases end - i,
            {
                data.push(payload[i]);
                i = i + 1;
            }
            proof {
                assert(seq_byte == spec_seq_byte(k as u8, k == n - 1));
                assert(data@ =~= seq![fid, spec_seq_byte(k as u8, k == n - 1)] + spec_chunk(
                    payload@,
                    k as int,
                ));
            }
            out.push(CanFrame { id: frag_id_u32, data });
            k = k + 1;
        }
        out
    }
}

// ---------------------------------------------------------------------------
// Reassembly half (receive)
// ---------------------------------------------------------------------------
/// One reassembly entry: the bytes accumulated so far for a (sender,
/// fragment-id) pair, the sequence index expected next, the time the
/// first fragment arrived, the time of the latest arrival, and the base
/// identifier restored on completion.
pub struct PartialEntry {
    pub sender: u8,
    pub fragment_id: u8,
    pub expected_seq: u8,
    pub buf: Vec<u8>,
    pub first_seen: u64,
    pub last_touch: u64,
    pub base_id: MessageId,
}

/// Mathematical model of an entry.
pub struct EntryModel {
    pub sender: u8,
    pub fragment_id: u8,
    pub expected_seq: u8,
    pub buf: Seq<u8>,
    pub first_seen: u64,
    pub last_touch: u64,
    pub base_id: MessageId,
}

impl View for PartialEntry {
    type V = EntryModel;

    open spec fn view(&self) -> EntryModel {
        EntryModel {
            sender: self.sender,
            fragment_id: self.fragment_id,
            expected_seq: self.expected_seq,
            buf: self.buf@,
            first_seen: self.first_seen,
            last_touch: self.last_touch,
            base_id: self.base_id,
        }
    }
}

/// Receive half: the reassembly table, ordered from least to most
/// recently touched.
pub struct FragmentRx {
    pub entries: Vec<PartialEntry>,
}

impl View for FragmentRx {
    type V = Seq<EntryModel>;

    open spec fn view(&self) -> Seq<EntryModel> {
        self.entries@.map_values(|e: PartialEntry| e@)
    }
}

/// An entry survives a sweep at `now` while it is at most `STALE_MS` old.
pub open spec fn spec_entry_fresh(e: EntryModel, now: u64) -> bool {
    e.first_seen + STALE_MS >= now
}

/// Removes every entry whose first fragment arrived more than `STALE_MS`
/// before `now`, keeping the rest in order.
pub open spec fn spec_sweep(s: Seq<EntryModel>, now: u64) -> Seq<EntryModel>
    decreases s.len(),
{
    if s.len() == 0 {
        Seq::empty()
    } else {
        let rest = spec_sweep(s.drop_first(), now);
        if spec_entry_fresh(s[0], now) {
            seq![s[0]] + rest
        } else {
            rest
        }
    }
}

/// Everything a sweep keeps is fresh.
pub proof fn lemma_sweep_fresh(s: Seq<EntryModel>, now: u64)
    ensures
        forall|j: int|
            0 <= j < spec_sweep(s, now).len() ==> spec_entry_fresh(#[trigger] spec_sweep(s, now)[j], now),
    decreases s.len(),
{
    if s.len() > 0 {
        lemma_sweep_fresh(s.drop_first(), now);
        let rest = spec_sweep(s.drop_first(), now);
        if spec_entry_fresh(s[0], now) {
            assert forall|j: int| 0 <= j < spec_sweep(s, now).len() implies spec_entry_fresh(
                #[trigger] spec_sweep(s, now)[j],
                now,
            ) by {
                if j > 0 {
                    assert(spec_sweep(s, now)[j] == rest[j - 1]);
                }
            }
        }
    }
}

pub open spec fn spec_key_matches(e: EntryModel, sender: u8, fid: u8) -> bool {
    e.sender == sender && e.fragment_id == fid
}

/// Index of the entry for a (sender, fragment-id) pair, if one exists.
pub open spec fn spec_find(s: Seq<EntryModel>, sender: u8, fid: u8) -> Option<int>
    decreases s.len(),
{
    if s.len() == 0 {
        None
    } else if spec_key_matches(s[0], sender, fid) {
        Some(0)
    } else {
        match spec_find(s.drop_first(), sender, fid) {
            Some(i) => Some(i + 1),
            None => None,
        }
    }
}

/// How many entries a sender holds.
pub open spec fn spec_count_sender(s: Seq<EntryModel>, sender: u8) -> int
    decreases s.len(),
{
    if s.len() == 0 {
        0
    } else {
        (if s[0].sender == sender {
            1int
        } else {
            0int
        }) + spec_count_sender(s.drop_first(), sender)
    }
}

/// Index of the least recently touched entry of a sender: the first one,
/// as the table is kept in touch order.
pub open spec fn spec_first_of_sender(s: Seq<EntryModel>, sender: u8) -> Option<int>
    decreases s.len(),
{
    if s.len() == 0 {
        None
    } else if s[0].sender == sender {
        Some(0)
    } else {
        match spec_first_of_sender(s.drop_first(), sender) {
            Some(i) => Some(i + 1),
            None => None,
        }
    }
}

/// Appends a fresh entry, evicting the sender's least recently touched
/// entry first when the sender is at its cap.
pub open spec fn spec_insert(s: Seq<EntryModel>, e: EntryModel) -> Seq<EntryModel> {
    if spec_count_sender(s, e.sender) >= MAX_PARTIALS_PER_SENDER {
        match spec_first_of_sender(s, e.sender) {
            Some(i) => s.remove(i).push(e),
            None => s.push(e),
        }
    } else {
        s.push(e)
    }
}

/// A fresh entry made from the first fragment of a message.
pub open spec fn spec_fresh_entry(id: MessageId, fid: u8, body: Seq<u8>, now: u64) -> EntryModel {
    EntryModel {
        sender: id.device_id,
        fragment_id: fid,
        expected_seq: 1,
        buf: body,
        first_seen: now,
        last_touch: now,
        base_id: id.spec_without_fragment(),
    }
}

/// Wraps a decode outcome with the identifier it was decoded under.
pub open spec fn spec_yield(id: MessageId, body: Seq<u8>) -> Option<(MessageId, GrappleDeviceMessage)> {
    match spec_decode_payload(id, body) {
        Some(m) => Some((id, m)),
        None => None,
    }
}

/// One receive step of the reassembly table: the state afterwards and the
/// message yielded, if any.  Stale entries are swept first.  A bare frame
/// yields its message at once.  A fragment with sequence index zero
/// starts a fresh entry (overwriting any previous one for its key); any
/// other index must meet an entry expecting exactly it, else the partial
/// is discarded; the fragment marked last completes the entry, whose
/// accumulated bytes are parsed under the recorded base identifier.
pub open spec fn spec_rx_step(s: Seq<EntryModel>, now: u64, id: MessageId, data: Seq<u8>) -> (
    Seq<EntryModel>,
    Option<(MessageId, GrappleDeviceMessage)>,
) {
    let s1 = spec_sweep(s, now);
    if !id.fragment_flag {
        (s1, spec_yield(id, data))
    } else if data.len() < 2 {
        (s1, None)
    } else {
        let fid = data[0];
        let seq = (data[1] % 128) as u8;
        let last = data[1] / 128 == 1;
        let body = data.subrange(2, data.len() as int);
        let base = id.spec_without_fragment();
        let prior = spec_find(s1, id.device_id, fid);
        if seq == 0 {
            let s2 = match prior {
                Some(i) => s1.remove(i),
                None => s1,
            };
            if last {
                (s2, spec_yield(base, body))
            } else {
                (spec_insert(s2, spec_fresh_entry(id, fid, body, now)), None)
            }
        } else {
            match prior {
                Some(i) => {
                    let e = s1[i];
                    if e.expected_seq == seq {
                        let joined = e.buf + body;
                        if last {
                            (s1.remove(i), spec_yield(e.base_id, joined))
                        } else {
                            (
                                s1.remove(i).push(
                                    EntryModel {
                                        expected_seq: (e.expected_seq + 1) as u8,
                                        buf: joined,
                                        last_touch: now,
                                        ..e
                                    },
                                ),
                                None,
                            )
                        }
                    } else {
                        (s1.remove(i), None)
                    }
                },
                None => (s1, None),
            }
        }
    }
}

impl FragmentRx {
    pub fn new() -> (r: FragmentRx)
        ensures
            r@ == Seq::<EntryModel>::empty(),
    {
        let r = FragmentRx { entries: Vec::new() };
        proof {
            assert(r@ =~= Seq::<EntryModel>::empty());
        }
        r
    }

    /// Drops every entry older than the staleness bound.
    fn sweep(&mut self, now: u64)
        ensures
            final(self)@ == spec_sweep(old(self)@, now),
    {
        let ghost orig = self@;
        let mut kept: Vec<PartialEntry> = Vec::new();
        proof {
            assert(kept@.map_values(|e: PartialEntry| e@) =~= Seq::<EntryModel>::empty());
        }
        while self.entries.len() > 0
            invariant
                spec_sweep(orig, now) == kept@.map_values(|e: PartialEntry| e@) + spec_sweep(
                    self@,
                    now,
                ),
            decreases self.entries@.len(),
        {
            let ghost pre = self@;
            let ghost kept_pre = kept@.map_values(|e: PartialEntry| e@);
            let e = self.entries.remove(0);
            proof {
                assert(self@ =~= pre.drop_first());
                assert(pre[0] == e@);
            }
            if now <= e.first_seen || now - e.first_seen <= STALE_MS {
                kept.push(e);
                proof {
                    assert(kept@.map_values(|x: PartialEntry| x@) =~= kept_pre.push(e@));
                    assert(kept_pre.push(e@) + spec_sweep(self@, now) =~= kept_pre + (seq![e@]
                        + spec_sweep(pre.drop_first(), now)));
                    assert(spec_entry_fresh(e@, now));
                }
            } else {
                proof {
                    assert(!spec_entry_fresh(e@, now));
                }
            }
        }
        proof {
            assert(self@ =~= Seq::<EntryModel>::empty());
            assert(spec_sweep(orig, now) =~= kept@.map_values(|e: PartialEntry| e@));
        }
        core::mem::swap(&mut self.entries, &mut kept);
    }

    /// Finds the entry for a (sender, fragment-id) pair.
    fn find(&self, sender: u8, fid: u8) -> (r: Option<usize>)
        ensures
            match r {
                Some(i) => spec_find(self@, sender, fid) == Some(i as int) && i < self@.len(),
                None => spec_find(self@, sender, fid) is None,
            },
    {
        let ghost s = self@;
        let n = self.entries.len();
        let mut i: usize = 0;
        proof {
            assert(s.subrange(0, n as int) =~= s);
        }
        while i < n
            invariant
                n == self.entries@.len(),
                s == self@,
                i <= n,
                match spec_find(s.subrange(i as int, n as int), sender, fid) {
                    Some(j) => spec_find(s, sender, fid) == Some(i + j),
                    None => spec_find(s, sender, fid) is None,
                },
            decreases n - i,
        {
            let matches_here = self.entries[i].sender == sender && self.entries[i].fragment_id
                == fid;
            proof {
                let suffix = s.subrange(i as int, n as int);
                assert(suffix[0] == s[i as int]);
                assert(suffix.drop_first() =~= s.subrange(i + 1, n as int));
            }
            if matches_here {
                return Some(i);
            }
            i = i + 1;
        }
        proof {
            assert(s.subrange(n as int, n as int) =~= Seq::<EntryModel>::empty());
        }
        None
    }

    /// Appends a fresh entry, evicting the sender's least recently
    /// touched entry first when the sender is at its cap.
    fn insert(&mut self, e: PartialEntry)
        ensures
            final(self)@ == spec_insert(old(self)@, e@),
    {
        let ghost s = self@;
        let n = self.entries.len();
        let mut count: usize = 0;
        let mut first: Option<usize> = None;
        let mut i: usize = 0;
        proof {
            assert(s.subrange(0, n as int) =~= s);
        }
        while i < n
            invariant
                n == self.entries@.len(),
                s == self@,
                i <= n,
                count <= i,
                spec_count_sender(s, e.sender) == count + spec_count_sender(
                    s.subrange(i as int, n as int),
                    e.sender,
                ),
                match first {
                    Some(j) => spec_first_of_sender(s, e.sender) == Some(j as int) && j
                        < s.len(),
                    None => (forall|k: int| 0 <= k < i ==> s[k].sender != e.sender)
                        && count == 0,
                },
            decreases n - i,
        {
            proof {
                let suffix = s.subrange(i as int, n as int);
                assert(suffix[0] == s[i as int]);
                assert(suffix.drop_first() =~= s.subrange(i + 1, n as int));
            }
            if self.entries[i].sender == e.sender {
                count = count + 1;
                if first.is_none() {
                    first = Some(i);
                    proof {
                        lemma_first_of_sender_is(s, e.sender, i as int);
                    }
                }
            }
            i = i + 1;
        }
        proof {
            assert(s.subrange(n as int, n as int) =~= Seq::<EntryModel>::empty());
        }
        if count >= MAX_PARTIALS_PER_SENDER {
            match first {
                Some(j) => {
                    let ghost pre = self@;
                    self.entries.remove(j);
                    proof {
                        assert(self@ =~= pre.remove(j as int));
                    }
                },
                None => {
                },
            }
        }
        let ghost pre2 = self@;
        self.entries.push(e);
        proof {
            assert(self@ =~= pre2.push(e@));
        }
    }

    /// One receive step: sweeps stale entries, then folds the frame into
    /// the table, yielding a whole message when one completes.  Failures
    /// are local and silent: a malformed or out-of-order fragment only
    /// loses that message.
    pub fn defragment(&mut self, now: u64, id: MessageId, data: &Vec<u8>) -> (r: Option<
        (MessageId, GrappleDeviceMessage),
    >)
        ensures
            final(self)@ == spec_rx_step(old(self)@, now, id, data@).0,
            r == spec_rx_step(old(self)@, now, id, data@).1,
    {
        self.sweep(now);
        let ghost s1 = self@;
        if !id.fragment_flag {
            return match decode_payload(id, data) {
                Some(m) => Some((id, m)),
                None => None,
            };
        }
        if data.len() < 2 {
            return None;
        }
        let fid = data[0];
        let seq = data[1] % 128;
        let last = data[1] / 128 == 1;
        let mut body: Vec<u8> = Vec::new();
        let mut i: usize = 2;
        while i < data.len()
            invariant
                2 <= i <= data@.len(),
                body@ =~= data@.subrange(2, i as int),
            decreases data@.len() - i,
        {
            body.push(data[i]);
            i = i + 1;
        }
        proof {
            assert(body@ =~= data@.subrange(2, data@.len() as int));
        }
        let prior = self.find(id.device_id, fid);
        if seq == 0 {
            match prior {
                Some(j) => {
                    let ghost pre = self@;
                    self.entries.remove(j);
                    proof {
                        assert(self@ =~= pre.remove(j as int));
                    }
                },
                None => {
                },
            }
            if last {
                let base = id.without_fragment();
                match decode_payload(base, &body) {
                    Some(m) => Some((base, m)),
                    None => None,
                }
            } else {
                self.insert(
                    PartialEntry {
                        sender: id.device_id,
                        fragment_id: fid,
                        expected_seq: 1,
                        buf: body,
                        first_seen: now,
                        last_touch: now,
                        base_id: id.without_fragment(),
                    },
                );
                None
            }
        } else {
            match prior {
                Some(j) => {
                    let ghost pre = self@;
                    let e = self.entries.remove(j);
                    proof {
                        assert(self@ =~= pre.remove(j as int));
                        assert(e@ == pre[j as int]);
                    }
                    if e.expected_seq == seq {
                        let mut joined = e.buf;
                        let mut rest = body;
                        joined.append(&mut rest);
                        proof {
                            assert(joined@ =~= e@.buf + data@.subrange(2, data@.len() as int));
                        }
                        if last {
                            match decode_payload(e.base_id, &joined) {
                                Some(m) => Some((e.base_id, m)),
                                None => None,
                            }
                        } else {
                            let ghost pre2 = self@;
                            self.entries.push(
                                PartialEntry {
                                    sender: e.sender,
                                    fragment_id: e.fragment_id,
                                    expected_seq: e.expected_seq + 1,
                                    buf: joined,
                                    first_seen: e.first_seen,
                                    last_touch: now,
                                    base_id: e.base_id,
                                },
                            );
                            proof {
                                let em = EntryModel {
                                    expected_seq: (pre[j as int].expected_seq + 1) as u8,
                                    buf: pre[j as int].buf + data@.subrange(
                                        2,
                                        data@.len() as int,
                                    ),
                                    last_touch: now,
                                    ..pre[j as int]
                                };
                                assert(self@ =~= pre2.push(em));
                            }
                            None
                        }
                    } else {
                        None
                    }
                },
                None => None,
            }
        }
    }
}

// ---------------------------------------------------------------------------
// Laws
// ---------------------------------------------------------------------------
/// Every entry of a table is fresh at `now`.
pub open spec fn spec_all_fresh(s: Seq<EntryModel>, now: u64) -> bool {
    forall|j: int| 0 <= j < s.len() ==> spec_entry_fresh(#[trigger] s[j], now)
}

/// Staleness: whatever frame a receive step at `now` handles, no entry
/// first seen more than `STALE_MS` before `now` survives it.  In
/// particular an entry created at `t0` is gone after any receive call
/// with a timestamp beyond `t0 + STALE_MS`.
pub proof fn lemma_staleness(s: Seq<EntryModel>, now: u64, id: MessageId, data: Seq<u8>)
    ensures
        spec_all_fresh(spec_rx_step(s, now, id, data).0, now),
{
    lemma_sweep_fresh(s, now);
    let s1 = spec_sweep(s, now);
    assert(spec_all_fresh(s1, now));
    if id.fragment_flag && data.len() >= 2 {
        let fid = data[0];
        let seq = (data[1] % 128) as u8;
        match spec_find(s1, id.device_id, fid) {
            Some(i) => {
                lemma_find_props(s1, id.device_id, fid);
                s1.remove_ensures(i);
                let s2 = s1.remove(i);
                assert(spec_all_fresh(s2, now));
                if seq == 0 {
                    lemma_insert_fresh(s2, spec_fresh_entry(id, fid, data.subrange(2, data.len() as int), now), now);
                } else if s1[i].expected_seq == seq {
                    let e = s1[i];
                    let em = EntryModel {
                        expected_seq: (e.expected_seq + 1) as u8,
                        buf: e.buf + data.subrange(2, data.len() as int),
                        last_touch: now,
                        ..e
                    };
                    assert(spec_all_fresh(s2.push(em), now));
                }
            },
            None => {
                if seq == 0 {
                    lemma_insert_fresh(s1, spec_fresh_entry(id, fid, data.subrange(2, data.len() as int), now), now);
                }
            },
        }
    }
}

proof fn lemma_insert_fresh(s: Seq<EntryModel>, e: EntryModel, now: u64)
    requires
        spec_all_fresh(s, now),
        spec_entry_fresh(e, now),
    ensures
        spec_all_fresh(spec_insert(s, e), now),
{
    if spec_count_sender(s, e.sender) >= MAX_PARTIALS_PER_SENDER {
        match spec_first_of_sender(s, e.sender) {
            Some(i) => {
                lemma_first_of_sender_props(s, e.sender);
                s.remove_ensures(i);
                assert(spec_all_fresh(s.remove(i).push(e), now));
            },
            None => {
            },
        }
    }
}

proof fn lemma_first_of_sender_props(s: Seq<EntryModel>, sender: u8)
    ensures
        match spec_first_of_sender(s, sender) {
            Some(i) => 0 <= i < s.len() && s[i].sender == sender,
            None => true,
        },
    decreases s.len(),
{
    if s.len() > 0 && s[0].sender != sender {
        lemma_first_of_sender_props(s.drop_first(), sender);
    }
}

/// What a found index means: the entry there matches the key and no
/// earlier one does; a miss means no entry matches at all.
pub proof fn lemma_find_props(s: Seq<EntryModel>, sender: u8, fid: u8)
    ensures
        match spec_find(s, sender, fid) {
            Some(i) => 0 <= i < s.len() && spec_key_matches(s[i], sender, fid) && forall|j: int|
                0 <= j < i ==> !spec_key_matches(#[trigger] s[j], sender, fid),
            None => forall|j: int| 0 <= j < s.len() ==> !spec_key_matches(#[trigger] s[j], sender, fid),
        },
    decreases s.len(),
{
    if s.len() > 0 && !spec_key_matches(s[0], sender, fid) {
        lemma_find_props(s.drop_first(), sender, fid);
        let rest = s.drop_first();
        match spec_find(rest, sender, fid) {
            Some(i) => {
                assert(s[i + 1] == rest[i]);
                assert forall|j: int| 0 <= j < i + 1 implies !spec_key_matches(
                    #[trigger] s[j],
                    sender,
                    fid,
                ) by {
                    if j > 0 {
                        assert(s[j] == rest[j - 1]);
                    }
                }
            },
            None => {
                assert forall|j: int| 0 <= j < s.len() implies !spec_key_matches(
                    #[trigger] s[j],
                    sender,
                    fid,
                ) by {
                    if j > 0 {
                        assert(s[j] == rest[j - 1]);
                    }
                }
            },
        }
    }
}

proof fn lemma_find_none(s: Seq<EntryModel>, sender: u8, fid: u8)
    requires
        forall|j: int| 0 <= j < s.len() ==> !spec_key_matches(#[trigger] s[j], sender, fid),
    ensures
        spec_find(s, sender, fid) is None,
    decreases s.len(),
{
    if s.len() > 0 {
        lemma_find_none(s.drop_first(), sender, fid);
    }
}

/// No two entries share a (sender, fragment-id) key.
pub open spec fn spec_keys_unique(s: Seq<EntryModel>) -> bool {
    forall|j: int, k: int|
        0 <= j < k < s.len() ==> !(#[trigger] s[j].sender == #[trigger] s[k].sender
            && s[j].fragment_id == s[k].fragment_id)
}

/// Each element the sweep keeps comes from the table it swept.
proof fn lemma_sweep_subset(s: Seq<EntryModel>, now: u64)
    ensures
        forall|j: int|
            0 <= j < spec_sweep(s, now).len() ==> s.contains(#[trigger] spec_sweep(s, now)[j]),
    decreases s.len(),
{
    if s.len() > 0 {
        lemma_sweep_subset(s.drop_first(), now);
        let rest = spec_sweep(s.drop_first(), now);
        assert forall|j: int| 0 <= j < spec_sweep(s, now).len() implies s.contains(
            #[trigger] spec_sweep(s, now)[j],
        ) by {
            if spec_entry_fresh(s[0], now) && j == 0 {
                assert(spec_sweep(s, now)[0] == s[0]);
            } else {
                let x = if spec_entry_fresh(s[0], now) {
                    rest[j - 1]
                } else {
                    rest[j]
                };
                assert(s.drop_first().contains(x));
                let k = choose|k: int| 0 <= k < s.drop_first().len() && s.drop_first()[k] == x;
                assert(s[k + 1] == x);
            }
        }
    }
}

/// Out-of-order discard: in a table with unique keys, a fragment whose
/// sequence index is neither zero nor the index its entry expects yields
/// no message, and afterwards no entry for its (sender, fragment-id) key
/// remains.  Repeating such arrivals therefore never completes a message,
/// and the key stays absent.
pub proof fn lemma_out_of_order_discard(s: Seq<EntryModel>, now: u64, id: MessageId, data: Seq<u8>)
    requires
        spec_keys_unique(spec_sweep(s, now)),
        id.fragment_flag,
        data.len() >= 2,
        data[1] % 128 != 0,
        match spec_find(spec_sweep(s, now), id.device_id, data[0]) {
            Some(i) => spec_sweep(s, now)[i].expected_seq != data[1] % 128,
            None => true,
        },
    ensures
        spec_rx_step(s, now, id, data).1 is None,
        spec_find(spec_rx_step(s, now, id, data).0, id.device_id, data[0]) is None,
{
    let s1 = spec_sweep(s, now);
    let fid = data[0];
    lemma_find_props(s1, id.device_id, fid);
    match spec_find(s1, id.device_id, fid) {
        Some(i) => {
            s1.remove_ensures(i);
            let s2 = s1.remove(i);
            assert forall|j: int| 0 <= j < s2.len() implies !spec_key_matches(
                #[trigger] s2[j],
                id.device_id,
                fid,
            ) by {
                if j < i {
                    assert(s2[j] == s1[j]);
                } else {
                    assert(s2[j] == s1[j + 1]);
                }
            }
            lemma_find_none(s2, id.device_id, fid);
        },
        None => {
            lemma_find_none(s1, id.device_id, fid);
        },
    }
}

proof fn lemma_remove_preserves_unique(s: Seq<EntryModel>, i: int)
    requires
        spec_keys_unique(s),
        0 <= i < s.len(),
    ensures
        spec_keys_unique(s.remove(i)),
{
    s.remove_ensures(i);
    let s2 = s.remove(i);
    assert forall|j: int, k: int| 0 <= j < k < s2.len() implies !(#[trigger] s2[j].sender
        == #[trigger] s2[k].sender && s2[j].fragment_id == s2[k].fragment_id) by {
        let j0 = if j < i {
            j
        } else {
            j + 1
        };
        let k0 = if k < i {
            k
        } else {
            k + 1
        };
        assert(s2[j] == s[j0] && s2[k] == s[k0]);
    }
}

proof fn lemma_push_unique(s: Seq<EntryModel>, e: EntryModel)
    requires
        spec_keys_unique(s),
        forall|j: int|
            0 <= j < s.len() ==> !spec_key_matches(#[trigger] s[j], e.sender, e.fragment_id),
    ensures
        spec_keys_unique(s.push(e)),
{
    let s2 = s.push(e);
    assert forall|j: int, k: int| 0 <= j < k < s2.len() implies !(#[trigger] s2[j].sender
        == #[trigger] s2[k].sender && s2[j].fragment_id == s2[k].fragment_id) by {
        if k < s.len() {
            assert(s2[j] == s[j] && s2[k] == s[k]);
        } else {
            assert(s2[j] == s[j] && s2[k] == e);
        }
    }
}

proof fn lemma_sweep_preserves_unique(s: Seq<EntryModel>, now: u64)
    requires
        spec_keys_unique(s),
    ensures
        spec_keys_unique(spec_sweep(s, now)),
    decreases s.len(),
{
    if s.len() > 0 {
        let rest0 = s.drop_first();
        assert forall|j: int, k: int| 0 <= j < k < rest0.len() implies !(#[trigger] rest0[j].sender
            == #[trigger] rest0[k].sender && rest0[j].fragment_id == rest0[k].fragment_id) by {
            assert(rest0[j] == s[j + 1] && rest0[k] == s[k + 1]);
        }
        lemma_sweep_preserves_unique(rest0, now);
        lemma_sweep_subset(rest0, now);
        let rest = spec_sweep(rest0, now);
        if spec_entry_fresh(s[0], now) {
            let out = spec_sweep(s, now);
            assert forall|j: int, k: int| 0 <= j < k < out.len() implies !(#[trigger] out[j].sender
                == #[trigger] out[k].sender && out[j].fragment_id == out[k].fragment_id) by {
                if j == 0 {
                    assert(out[0] == s[0]);
                    assert(out[k] == rest[k - 1]);
                    assert(rest0.contains(rest[k - 1]));
                    let w = choose|w: int| 0 <= w < rest0.len() && rest0[w] == rest[k - 1];
                    assert(s[w + 1] == rest[k - 1]);
                } else {
                    assert(out[j] == rest[j - 1] && out[k] == rest[k - 1]);
                }
            }
        }
    }
}

/// After removing the entry a find located, its key is absent, so long
/// as keys were unique.
proof fn lemma_remove_found_key(s: Seq<EntryModel>, sender: u8, fid: u8, i: int)
    requires
        spec_keys_unique(s),
        spec_find(s, sender, fid) == Some(i),
    ensures
        forall|j: int|
            0 <= j < s.remove(i).len() ==> !spec_key_matches(#[trigger] s.remove(i)[j], sender, fid),
{
    lemma_find_props(s, sender, fid);
    s.remove_ensures(i);
    let s2 = s.remove(i);
    assert forall|j: int| 0 <= j < s2.len() implies !spec_key_matches(
        #[trigger] s2[j],
        sender,
        fid,
    ) by {
        if j < i {
            assert(s2[j] == s[j]);
        } else {
            assert(s2[j] == s[j + 1]);
        }
    }
}

proof fn lemma_insert_unique(s: Seq<EntryModel>, e: EntryModel)
    requires
        spec_keys_unique(s),
        forall|j: int|
            0 <= j < s.len() ==> !spec_key_matches(#[trigger] s[j], e.sender, e.fragment_id),
    ensures
        spec_keys_unique(spec_insert(s, e)),
{
    if spec_count_sender(s, e.sender) >= MAX_PARTIALS_PER_SENDER {
        match spec_first_of_sender(s, e.sender) {
            Some(i) => {
                lemma_first_of_sender_props(s, e.sender);
                lemma_remove_preserves_unique(s, i);
                s.remove_ensures(i);
                let s2 = s.remove(i);
                assert forall|j: int| 0 <= j < s2.len() implies !spec_key_matches(
                    #[trigger] s2[j],
                    e.sender,
                    e.fragment_id,
                ) by {
                    if j < i {
                        assert(s2[j] == s[j]);
                    } else {
                        assert(s2[j] == s[j + 1]);
                    }
                }
                lemma_push_unique(s2, e);
            },
            None => {
                lemma_push_unique(s, e);
            },
        }
    } else {
        lemma_push_unique(s, e);
    }
}

/// Table validity is an invariant of the receive step: a table with
/// unique keys keeps unique keys, whatever frame arrives.  An empty
/// table is trivially valid, so every reachable table is.
pub proof fn lemma_step_preserves_unique(s: Seq<EntryModel>, now: u64, id: MessageId, data: Seq<u8>)
    requires
        spec_keys_unique(s),
    ensures
        spec_keys_unique(spec_rx_step(s, now, id, data).0),
{
    lemma_sweep_preserves_unique(s, now);
    let s1 = spec_sweep(s, now);
    if id.fragment_flag && data.len() >= 2 {
        let fid = data[0];
        let seq = (data[1] % 128) as u8;
        let body = data.subrange(2, data.len() as int);
        let prior = spec_find(s1, id.device_id, fid);
        lemma_find_props(s1, id.device_id, fid);
        if seq == 0 {
            let s2 = match prior {
                Some(i) => s1.remove(i),
                None => s1,
            };
            match prior {
                Some(i) => {
                    lemma_remove_preserves_unique(s1, i);
                    lemma_remove_found_key(s1, id.device_id, fid, i);
                },
                None => {
                },
            }
            let fresh = spec_fresh_entry(id, fid, body, now);
            if data[1] / 128 != 1 {
                lemma_insert_unique(s2, fresh);
            }
        } else {
            match prior {
                Some(i) => {
                    lemma_remove_preserves_unique(s1, i);
                    let e = s1[i];
                    if e.expected_seq == seq && data[1] / 128 != 1 {
                        lemma_remove_found_key(s1, id.device_id, fid, i);
                        let em = EntryModel {
                            expected_seq: (e.expected_seq + 1) as u8,
                            buf: e.buf + body,
                            last_touch: now,
                            ..e
                        };
                        lemma_push_unique(s1.remove(i), em);
                    }
                },
                None => {
                },
            }
        }
    }
}

proof fn lemma_count_concat(a: Seq<EntryModel>, b: Seq<EntryModel>, sid: u8)
    ensures
        spec_count_sender(a + b, sid) == spec_count_sender(a, sid) + spec_count_sender(b, sid),
    decreases a.len(),
{
    if a.len() == 0 {
        assert(a + b =~= b);
    } else {
        assert((a + b).drop_first() =~= a.drop_first() + b);
        assert((a + b)[0] == a[0]);
        lemma_count_concat(a.drop_first(), b, sid);
    }
}

proof fn lemma_count_singleton(e: EntryModel, sid: u8)
    ensures
        spec_count_sender(seq![e], sid) == if e.sender == sid {
            1int
        } else {
            0int
        },
{
    assert(seq![e].drop_first() =~= Seq::<EntryModel>::empty());
    assert(spec_count_sender(Seq::<EntryModel>::empty(), sid) == 0);
}

proof fn lemma_count_remove(s: Seq<EntryModel>, i: int, sid: u8)
    requires
        0 <= i < s.len(),
    ensures
        spec_count_sender(s.remove(i), sid) == spec_count_sender(s, sid) - (if s[i].sender == sid {
            1int
        } else {
            0int
        }),
{
    let a = s.subrange(0, i);
    let m = seq![s[i]];
    let c = s.subrange(i + 1, s.len() as int);
    assert(s =~= a + (m + c));
    assert(s.remove(i) =~= a + c);
    lemma_count_concat(a, m + c, sid);
    lemma_count_concat(m, c, sid);
    lemma_count_concat(a, c, sid);
    lemma_count_singleton(s[i], sid);
}

proof fn lemma_count_push(s: Seq<EntryModel>, e: EntryModel, sid: u8)
    ensures
        spec_count_sender(s.push(e), sid) == spec_count_sender(s, sid) + (if e.sender == sid {
            1int
        } else {
            0int
        }),
{
    assert(s.push(e) =~= s + seq![e]);
    lemma_count_concat(s, seq![e], sid);
    lemma_count_singleton(e, sid);
}

proof fn lemma_count_sweep_le(s: Seq<EntryModel>, now: u64, sid: u8)
    ensures
        spec_count_sender(spec_sweep(s, now), sid) <= spec_count_sender(s, sid),
    decreases s.len(),
{
    if s.len() > 0 {
        lemma_count_sweep_le(s.drop_first(), now, sid);
        if spec_entry_fresh(s[0], now) {
            lemma_count_concat(seq![s[0]], spec_sweep(s.drop_first(), now), sid);
            lemma_count_singleton(s[0], sid);
        }
    }
}

proof fn lemma_first_some_when_count_pos(s: Seq<EntryModel>, sid: u8)
    requires
        spec_count_sender(s, sid) > 0,
    ensures
        spec_first_of_sender(s, sid) is Some,
    decreases s.len(),
{
    if s.len() > 0 && s[0].sender != sid {
        lemma_first_some_when_count_pos(s.drop_first(), sid);
    }
}

/// Every sender stays within its cap of concurrent partials.
pub open spec fn spec_capacity_ok(s: Seq<EntryModel>) -> bool {
    forall|sid: u8| spec_count_sender(s, sid) <= MAX_PARTIALS_PER_SENDER
}

proof fn lemma_insert_capacity(s: Seq<EntryModel>, e: EntryModel)
    requires
        spec_capacity_ok(s),
    ensures
        spec_capacity_ok(spec_insert(s, e)),
{
    assert forall|sid: u8| spec_count_sender(spec_insert(s, e), sid)
        <= MAX_PARTIALS_PER_SENDER by {
        if spec_count_sender(s, e.sender) >= MAX_PARTIALS_PER_SENDER {
            lemma_first_some_when_count_pos(s, e.sender);
            match spec_first_of_sender(s, e.sender) {
                Some(i) => {
                    lemma_first_of_sender_props(s, e.sender);
                    lemma_count_remove(s, i, sid);
                    lemma_count_push(s.remove(i), e, sid);
                },
                None => {
                },
            }
        } else {
            lemma_count_push(s, e, sid);
        }
    }
}

/// The capacity bound is an invariant of the receive step: a table in
/// which no sender exceeds its cap of concurrent partials stays that
/// way, whatever frame arrives.
pub proof fn lemma_step_preserves_capacity(
    s: Seq<EntryModel>,
    now: u64,
    id: MessageId,
    data: Seq<u8>,
)
    requires
        spec_capacity_ok(s),
    ensures
        spec_capacity_ok(spec_rx_step(s, now, id, data).0),
{
    let s1 = spec_sweep(s, now);
    assert forall|sid: u8| spec_count_sender(s1, sid) <= MAX_PARTIALS_PER_SENDER by {
        lemma_count_sweep_le(s, now, sid);
    }
    if id.fragment_flag && data.len() >= 2 {
        let fid = data[0];
        let seq = (data[1] % 128) as u8;
        let body = data.subrange(2, data.len() as int);
        let prior = spec_find(s1, id.device_id, fid);
        lemma_find_props(s1, id.device_id, fid);
        if seq == 0 {
            let s2 = match prior {
                Some(i) => s1.remove(i),
                None => s1,
            };
            assert forall|sid: u8| spec_count_sender(s2, sid) <= MAX_PARTIALS_PER_SENDER by {
                match prior {
                    Some(i) => {
                        lemma_count_remove(s1, i, sid);
                    },
                    None => {
                    },
                }
            }
            if data[1] / 128 != 1 {
                lemma_insert_capacity(s2, spec_fresh_entry(id, fid, body, now));
            }
        } else {
            match prior {
                Some(i) => {
                    let e = s1[i];
                    assert forall|sid: u8| spec_count_sender(
                        spec_rx_step(s, now, id, data).0,
                        sid,
                    ) <= MAX_PARTIALS_PER_SENDER by {
                        lemma_count_remove(s1, i, sid);
                        if e.expected_seq == seq && data[1] / 128 != 1 {
                            let em = EntryModel {
                                expected_seq: (e.expected_seq + 1) as u8,
                                buf: e.buf + body,
                                last_touch: now,
                                ..e
                            };
                            lemma_count_push(s1.remove(i), em, sid);
                        }
                    }
                },
                None => {
                },
            }
        }
    }
}

/// Feeds frames into the table one after the other, all at one
/// timestamp, and keeps the outcome of the last step.
pub open spec fn spec_feed(s: Seq<EntryModel>, now: u64, frames: Seq<FrameModel>) -> (
    Seq<EntryModel>,
    Option<(MessageId, GrappleDeviceMessage)>,
)
    decreases frames.len(),
{
    if frames.len() == 0 {
        (s, None)
    } else {
        let (s1, out) = spec_rx_step(s, now, spec_decode_id(frames[0].id), frames[0].data);
        if frames.len() == 1 {
            (s1, out)
        } else {
            spec_feed(s1, now, frames.drop_first())
        }
    }
}

/// The entry that holds the first `k` chunks of a payload.
pub open spec fn spec_partial_entry(base: MessageId, fid: u8, payload: Seq<u8>, now: u64, k: int) -> EntryModel {
    EntryModel {
        sender: base.device_id,
        fragment_id: fid,
        expected_seq: k as u8,
        buf: payload.subrange(0, 8 * k),
        first_seen: now,
        last_touch: now,
        base_id: base,
    }
}

/// Feeding the tail of a split, from fragment `k` on, into a table that
/// holds exactly the first `k` chunks, completes the payload.
#[verifier::rlimit(60)]
proof fn lemma_feed_tail(base: MessageId, fid: u8, payload: Seq<u8>, now: u64, k: int)
    requires
        base.well_formed(),
        !base.fragment_flag,
        8 < payload.len() <= MAX_FRAGMENTED_PAYLOAD,
        1 <= k < spec_fragment_count(payload.len()),
    ensures
        spec_feed(
            seq![spec_partial_entry(base, fid, payload, now, k)],
            now,
            spec_split_frames(base, fid, payload).subrange(
                k,
                spec_fragment_count(payload.len()),
            ),
        ) == (Seq::<EntryModel>::empty(), spec_yield(base, payload)),
    decreases spec_fragment_count(payload.len()) - k,
{
    let n = spec_fragment_count(payload.len());
    let frames = spec_split_frames(base, fid, payload);
    let tail = frames.subrange(k, n);
    let e = spec_partial_entry(base, fid, payload, now, k);
    let s = seq![e];
    let fr = frames[k];
    assert(tail[0] == fr);
    let fragged = MessageId { fragment_flag: true, ..base };
    crate::ids::lemma_id_roundtrip(fragged);
    let id = spec_decode_id(fr.id);
    assert(id == fragged);
    let header = seq![fid, spec_seq_byte(k as u8, k == n - 1)];
    assert(fr.data[0] == fid);
    assert(fr.data[1] == spec_seq_byte(k as u8, k == n - 1));
    assert(fr.data.len() >= 2);
    // The payload is at most 1024 bytes, so every sequence index fits the
    // 7-bit slot.
    assert(n <= 128);
    crate::messages::lemma_packed_byte(
        crate::messages::spec_bool_byte(k == n - 1),
        k as u8,
        128,
    );
    let seq_v = (fr.data[1] % 128) as u8;
    let last = fr.data[1] / 128 == 1;
    assert(seq_v == k as u8);
    assert(last == (k == n - 1));
    let body = fr.data.subrange(2, fr.data.len() as int);
    assert(body =~= spec_chunk(payload, k));
    // The lone entry is fresh, so the sweep keeps it.
    assert(spec_sweep(Seq::<EntryModel>::empty(), now) =~= Seq::<EntryModel>::empty());
    assert(s.drop_first() =~= Seq::<EntryModel>::empty());
    assert(spec_entry_fresh(e, now));
    assert(spec_sweep(s, now) =~= seq![e] + spec_sweep(s.drop_first(), now));
    assert(spec_sweep(s, now) =~= s);
    assert(spec_find(s, base.device_id, fid) == Some(0int));
    assert(s.remove(0) =~= Seq::<EntryModel>::empty());
    let joined = e.buf + body;
    let upto = if 8 * (k + 1) <= payload.len() {
        8 * (k + 1)
    } else {
        payload.len() as int
    };
    assert(joined =~= payload.subrange(0, upto));
    let (s2, out) = spec_rx_step(s, now, id, fr.data);
    if k == n - 1 {
        // Final fragment: the accumulated bytes are exactly the payload.
        assert(8 * n >= payload.len());
        assert(joined =~= payload);
        assert(s2 =~= Seq::<EntryModel>::empty());
        assert(out == spec_yield(base, payload));
        assert(tail.len() == 1);
    } else {
        assert(8 * (k + 1) <= payload.len());
        let e2 = spec_partial_entry(base, fid, payload, now, k + 1);
        assert(joined =~= payload.subrange(0, 8 * (k + 1)));
        assert(s2 =~= seq![e2]) by {
            assert(s.remove(0).push(
                EntryModel {
                    expected_seq: (e.expected_seq + 1) as u8,
                    buf: joined,
                    last_touch: now,
                    ..e
                },
            ) =~= seq![e2]);
        }
        lemma_feed_tail(base, fid, payload, now, k + 1);
        assert(tail.drop_first() =~= frames.subrange(k + 1, n));
        assert(tail.len() > 1);
    }
}

/// Fragment round trip: splitting a well-formed oversize message and
/// feeding the fragments in order into an empty table yields the message
/// and the base identifier with the fragment flag cleared, and leaves no
/// entry behind, whatever fragment id the split used.
pub proof fn lemma_fragment_roundtrip(device_id: u8, fid: u8, m: GrappleDeviceMessage, now: u64)
    requires
        m.well_formed(),
        device_id < 64,
        crate::messages::spec_encode_payload(m).len() > FRAGMENT_CHUNK,
        crate::messages::spec_encode_payload(m).len() <= MAX_FRAGMENTED_PAYLOAD,
    ensures
        ({
            let base = crate::messages::spec_id_of(device_id, m);
            spec_feed(
                Seq::<EntryModel>::empty(),
                now,
                spec_split_frames(base, fid, crate::messages::spec_encode_payload(m)),
            ) == (Seq::<EntryModel>::empty(), Some((base, m)))
        }),
{
    let base = crate::messages::spec_id_of(device_id, m);
    let payload = crate::messages::spec_encode_payload(m);
    assert(base.well_formed());
    let n = spec_fragment_count(payload.len());
    assert(n >= 2);
    let frames = spec_split_frames(base, fid, payload);
    let fr = frames[0];
    let fragged = MessageId { fragment_flag: true, ..base };
    crate::ids::lemma_id_roundtrip(fragged);
    assert(spec_decode_id(fr.id) == fragged);
    assert(fr.data[0] == fid);
    assert(fr.data[1] == spec_seq_byte(0, false));
    crate::messages::lemma_packed_byte(0, 0, 128);
    assert(fr.data[1] == 0);
    let body = fr.data.subrange(2, fr.data.len() as int);
    assert(body =~= spec_chunk(payload, 0));
    assert(spec_sweep(Seq::<EntryModel>::empty(), now) =~= Seq::<EntryModel>::empty());
    assert(spec_find(Seq::<EntryModel>::empty(), base.device_id, fid) is None);
    let e1 = spec_fresh_entry(fragged, fid, body, now);
    assert(spec_count_sender(Seq::<EntryModel>::empty(), fragged.device_id) == 0);
    let (s1, out1) = spec_rx_step(Seq::<EntryModel>::empty(), now, fragged, fr.data);
    assert(s1 =~= seq![e1]);
    assert(out1 is None);
    assert(e1 == spec_partial_entry(base, fid, payload, now, 1)) by {
        assert(fragged.spec_without_fragment() == base);
        assert(body =~= payload.subrange(0, 8));
    }
    lemma_feed_tail(base, fid, payload, now, 1);
    assert(frames.drop_first() =~= frames.subrange(1, n));
    crate::messages::lemma_payload_roundtrip(device_id, m);
    assert(spec_yield(base, payload) == Some((base, m)));
}

/// The first entry of a sender, found by scanning: if index `i` holds the
/// sender and no earlier index does, it is the one.
proof fn lemma_first_of_sender_is(s: Seq<EntryModel>, sender: u8, i: int)
    requires
        0 <= i < s.len(),
        s[i].sender == sender,
        forall|k: int| 0 <= k < i ==> s[k].sender != sender,
    ensures
        spec_first_of_sender(s, sender) == Some(i),
    decreases s.len(),
{
    if i > 0 {
        lemma_first_of_sender_is(s.drop_first(), sender, i - 1);
    }
}

} // verus!
