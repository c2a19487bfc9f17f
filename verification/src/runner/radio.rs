//! Packets of the beacon scanner, as they are handed to applets.

use crate::queue::Bounded;
use rubble::bytes::{ByteWriter, ToBytes};
use rubble::link::ad_structure::AdStructure;
use vstd::prelude::*;

verus! {

/// The most bytes of advertising data that one packet carries.
pub const MIN_PDU_BUF: usize = 39;

/// The most packets that wait to be read by the applet.
pub const MAX_PACKETS: usize = 10;

/// What the link layer reports of a received packet.
#[derive(Clone, Copy, Debug, PartialEq, Eq, Structural)]
pub struct Metadata {
    /// When the packet arrived, in ticks of the radio timer, if known.
    pub timestamp: Option<u32>,
    /// The channel index, 0 to 39.
    pub channel: u8,
    /// The signal strength in dBm, if known.
    pub rssi: Option<i8>,
    /// The type of the protocol data unit, if known.
    pub pdu_type: Option<u8>,
}

/// The centre frequency in MHz of the channel with index `channel`: data
/// channels 0 to 36 lie 2 MHz apart from 2404 MHz on, with a gap at
/// 2426 MHz; the advertising channels 37, 38 and 39 lie at 2402, 2426 and
/// 2480 MHz. An index that names no channel gives 0.
pub open spec fn frequency(channel: u8) -> u16 {
    if channel <= 10 {
        (2404 + 2 * channel) as u16
    } else if channel <= 36 {
        (2404 + 2 * (channel + 1)) as u16
    } else if channel == 37 {
        2402
    } else if channel == 38 {
        2426
    } else if channel == 39 {
        2480
    } else {
        0
    }
}

/// Every channel has a frequency of its own, in the 2.4 GHz band.
pub proof fn lemma_frequencies_distinct(a: u8, b: u8)
    requires
        a <= 39,
        b <= 39,
    ensures
        2402 <= frequency(a) <= 2480,
        frequency(a) == frequency(b) ==> a == b,
{
}

/// The metadata of a packet as the applet reads it.
#[derive(Clone, Copy, Debug, PartialEq, Eq, Structural)]
pub struct RadioMetadata {
    ticks: u32,
    freq: u16,
    rssi: i8,
    pdu_type: u8,
}

impl RadioMetadata {
    /// The ticks of the radio timer at which the packet arrived.
    pub closed spec fn spec_ticks(self) -> u32 {
        self.ticks
    }

    /// The frequency in MHz on which the packet arrived.
    pub closed spec fn spec_freq(self) -> u16 {
        self.freq
    }

    /// The signal strength in dBm.
    pub closed spec fn spec_rssi(self) -> i8 {
        self.rssi
    }

    /// The type of the protocol data unit.
    pub closed spec fn spec_pdu_type(self) -> u8 {
        self.pdu_type
    }

    /// The number of bytes that the metadata takes in a packet.
    pub fn len(&self) -> (n: usize)
        ensures
            n == 6,
    {
        6
    }

    /// Metadata is never empty.
    pub fn is_empty(&self) -> (r: bool)
        ensures
            !r,
    {
        false
    }

    /// The metadata of a packet of which timestamp, signal strength and type
    /// are known.
    pub fn from(value: Metadata) -> (r: Self)
        requires
            value.timestamp is Some,
            value.rssi is Some,
            value.pdu_type is Some,
        ensures
            r.spec_ticks() == value.timestamp->0,
            r.spec_freq() == frequency(value.channel),
            r.spec_rssi() == value.rssi->0,
            r.spec_pdu_type() == value.pdu_type->0,
    {
        let channel: u16 = value.channel as u16;
        let freq: u16 = if channel <= 10 {
            2404 + 2 * channel
        } else if channel <= 36 {
            2404 + 2 * (channel + 1)
        } else if channel == 37 {
            2402
        } else if channel == 38 {
            2426
        } else if channel == 39 {
            2480
        } else {
            0
        };
        RadioMetadata {
            ticks: value.timestamp.unwrap(),
            freq,
            rssi: value.rssi.unwrap(),
            pdu_type: value.pdu_type.unwrap(),
        }
    }

    /// The metadata of `value`, or `None` if its timestamp, signal strength
    /// or type is unknown.
    pub fn try_from(value: Metadata) -> (r: Option<Self>)
        ensures
            r is Some <==> value.timestamp is Some && value.rssi is Some && value.pdu_type
                is Some,
            r matches Some(m) ==> {
                &&& m.spec_ticks() == value.timestamp->0
                &&& m.spec_freq() == frequency(value.channel)
                &&& m.spec_rssi() == value.rssi->0
                &&& m.spec_pdu_type() == value.pdu_type->0
            },
    {
        if value.timestamp.is_some() && value.rssi.is_some() && value.pdu_type.is_some() {
            Some(Self::from(value))
        } else {
            None
        }
    }

    /// The ticks of the radio timer at which the packet arrived.
    pub fn ticks(&self) -> (r: u32)
        ensures
            r == self.spec_ticks(),
    {
        self.ticks
    }

    /// The frequency in MHz on which the packet arrived.
    pub fn freq(&self) -> (r: u16)
        ensures
            r == self.spec_freq(),
    {
        self.freq
    }

    /// The signal strength in dBm.
    pub fn rssi(&self) -> (r: i8)
        ensures
            r == self.spec_rssi(),
    {
        self.rssi
    }

    /// The type of the protocol data unit.
    pub fn pdu_type(&self) -> (r: u8)
        ensures
            r == self.spec_pdu_type(),
    {
        self.pdu_type
    }
}

/// The bytes of `parts`, one part after the other.
pub open spec fn joined(parts: Seq<Vec<u8>>) -> Seq<u8>
    decreases parts.len(),
{
    if parts.len() == 0 {
        Seq::empty()
    } else {
        joined(parts.drop_last()) + parts.last()@
    }
}

/// One received advertising packet.
pub struct BlePacket {
    addr: [u8; 6],
    metadata: RadioMetadata,
    data: Vec<u8>,
}

/// A packet as plain values.
pub ghost struct BlePacketView {
    /// The address of the device that sent the packet.
    pub addr: Seq<u8>,
    /// When, where and how the packet arrived.
    pub metadata: RadioMetadata,
    /// The advertising data.
    pub data: Seq<u8>,
}

impl View for BlePacket {
    type V = BlePacketView;

    closed spec fn view(&self) -> BlePacketView {
        BlePacketView { addr: self.addr@, metadata: self.metadata, data: self.data@ }
    }
}

impl BlePacket {
    #[verifier::type_invariant]
    spec fn fits(self) -> bool {
        self.data@.len() <= MIN_PDU_BUF
    }

    /// The number of bytes that the packet takes: address, metadata and
    /// advertising data.
    pub fn len(&self) -> (n: usize)
        ensures
            n == 12 + self@.data.len(),
            self@.data.len() <= MIN_PDU_BUF,
    {
        proof {
            use_type_invariant(self);
        }
        self.addr.len() + self.metadata.len() + self.data.len()
    }

    /// A packet is never empty.
    pub fn is_empty(&self) -> (r: bool)
        ensures
            !r,
    {
        false
    }

    /// The address of the device that sent the packet.
    pub fn addr(&self) -> (r: &[u8; 6])
        ensures
            r@ == self@.addr,
    {
        &self.addr
    }

    /// When, where and how the packet arrived.
    pub fn metadata(&self) -> (r: &RadioMetadata)
        ensures
            *r == self@.metadata,
    {
        &self.metadata
    }

    /// The advertising data.
    pub fn data(&self) -> (r: &Vec<u8>)
        ensures
            r@ == self@.data,
            r@.len() <= MIN_PDU_BUF,
    {
        proof {
            use_type_invariant(self);
        }
        &self.data
    }
}

/// Whether the parts together fit into the advertising data of one packet.
pub fn fits_packet(parts: &Vec<Vec<u8>>) -> (r: bool)
    ensures
        r == (joined(parts@).len() <= MIN_PDU_BUF),
{
    let mut total: usize = 0;
    let mut i: usize = 0;
    proof {
        assert(parts@.take(0) =~= Seq::<Vec<u8>>::empty());
    }
    while i < parts.len()
        invariant
            i <= parts.len(),
            total == joined(parts@.take(i as int)).len(),
            total <= MIN_PDU_BUF,
        decreases parts.len() - i,
    {
        proof {
            assert(parts@.take(i + 1).drop_last() =~= parts@.take(i as int));
            lemma_joined_grows(parts@, i + 1);
        }
        if parts[i].len() > MIN_PDU_BUF - total {
            return false;
        }
        total += parts[i].len();
        i += 1;
    }
    proof {
        assert(parts@.take(i as int) =~= parts@);
    }
    true
}

/// A longer run of parts does not join to fewer bytes.
pub proof fn lemma_joined_grows(parts: Seq<Vec<u8>>, n: int)
    requires
        0 <= n <= parts.len(),
    ensures
        joined(parts.take(n)).len() <= joined(parts).len(),
    decreases parts.len() - n,
{
    if n < parts.len() {
        lemma_joined_grows(parts, n + 1);
        assert(parts.take(n + 1).drop_last() =~= parts.take(n));
    } else {
        assert(parts.take(n) =~= parts);
    }
}

/// One advertising structure of a beacon, as the link layer hands it out.
#[verifier::external_type_specification]
#[verifier::external_body]
pub struct ExAdStructure<'a>(rubble::link::ad_structure::AdStructure<'a>);

/// What `to_bytes` of `rubble::link::ad_structure::AdStructure` writes with
/// `room` bytes to write to: the bytes of the structure as it is sent, or
/// `None` where the structure does not fit.
pub uninterp spec fn ad_structure_written(structure: AdStructure<'_>, room: nat) -> Option<Seq<u8>>;

/// Calls `to_bytes` of `rubble::link::ad_structure::AdStructure` with a
/// `rubble::bytes::ByteWriter` over `buf`, and then `space_left` of that
/// writer. The result is `None` when the structure did not fit, else the
/// number of bytes at the end of `buf` that were not written. Not proved:
/// that `buf` keeps its length, that a structure takes at least its first
/// byte, that this byte counts the bytes written after it, and that what is
/// written, and whether it fits, depends on the structure and on the length
/// of `buf` alone.
#[verifier::external_body]
fn ad_structure_to_bytes(structure: &AdStructure<'_>, buf: &mut [u8]) -> (left: Option<usize>)
    requires
        old(buf)@.len() <= MIN_PDU_BUF,
    ensures
        final(buf)@.len() == old(buf)@.len(),
        left matches Some(n) ==> is_record(written_spec(final(buf)@, n as nat)),
        match left {
            Some(n) => ad_structure_written(*structure, old(buf)@.len()) == Some(
                written_spec(final(buf)@, n as nat),
            ),
            None => ad_structure_written(*structure, old(buf)@.len()) is None,
        },
{
    let mut writer = ByteWriter::new(buf);
    structure.to_bytes(&mut writer).ok()?;
    Some(writer.space_left())
}

/// Whether each of `structures` alone fits into a packet.
pub open spec fn all_written(structures: Seq<AdStructure<'_>>) -> bool {
    forall|i: int|
        0 <= i < structures.len() ==> (#[trigger] ad_structure_written(
            structures[i],
            MIN_PDU_BUF as nat,
        )) is Some
}

/// The bytes that `structures` are sent as, one structure after the other.
pub open spec fn joined_written(structures: Seq<AdStructure<'_>>) -> Seq<u8>
    decreases structures.len(),
{
    if structures.len() == 0 {
        Seq::empty()
    } else {
        joined_written(structures.drop_last()) + ad_structure_written(
            structures.last(),
            MIN_PDU_BUF as nat,
        )->0
    }
}

/// Parts that are the bytes of the structures, each for each, join to the
/// bytes that the structures are sent as.
pub proof fn lemma_joined_written(parts: Seq<Vec<u8>>, structures: Seq<AdStructure<'_>>)
    requires
        parts.len() == structures.len(),
        forall|i: int|
            0 <= i < parts.len() ==> Some((#[trigger] parts[i])@) == ad_structure_written(
                structures[i],
                MIN_PDU_BUF as nat,
            ),
    ensures
        joined(parts) == joined_written(structures),
    decreases parts.len(),
{
    if parts.len() > 0 {
        let front = parts.drop_last();
        let before = structures.drop_last();
        assert forall|i: int| 0 <= i < front.len() implies Some((#[trigger] front[i])@)
            == ad_structure_written(before[i], MIN_PDU_BUF as nat) by {
            assert(front[i] == parts[i]);
            assert(before[i] == structures[i]);
        }
        lemma_joined_written(front, before);
        assert(Some(parts[parts.len() - 1]@) == ad_structure_written(
            structures[parts.len() - 1],
            MIN_PDU_BUF as nat,
        ));
    }
}

/// Why a beacon was not taken.
#[derive(Clone, Copy, Debug, PartialEq, Eq, Structural)]
pub enum Rejected {
    /// The packet of an earlier beacon still waits in the slot.
    Occupied,
    /// Timestamp, signal strength or type of the packet is unknown.
    Incomplete,
    /// The advertising structures do not fit into one packet.
    TooLong,
}

/// The bytes that each of `structures` is sent as, or `None` if one of them
/// alone does not fit into a packet.
pub fn encode(structures: &[AdStructure<'_>]) -> (r: Option<Vec<Vec<u8>>>)
    ensures
        r is Some <==> all_written(structures@),
        r matches Some(parts) ==> {
            &&& parts@.len() == structures@.len()
            &&& forall|i: int| 0 <= i < parts@.len() ==> is_record((#[trigger] parts@[i])@)
            &&& forall|i: int|
                0 <= i < parts@.len() ==> Some((#[trigger] parts@[i])@) == ad_structure_written(
                    structures@[i],
                    MIN_PDU_BUF as nat,
                )
        },
{
    let mut parts: Vec<Vec<u8>> = Vec::new();
    let mut i: usize = 0;
    while i < structures.len()
        invariant
            i <= structures@.len(),
            parts@.len() == i,
            forall|j: int| 0 <= j < parts@.len() ==> is_record((#[trigger] parts@[j])@),
            forall|j: int|
                0 <= j < parts@.len() ==> Some((#[trigger] parts@[j])@) == ad_structure_written(
                    structures@[j],
                    MIN_PDU_BUF as nat,
                ),
            forall|j: int|
                0 <= j < i ==> (#[trigger] ad_structure_written(
                    structures@[j],
                    MIN_PDU_BUF as nat,
                )) is Some,
        decreases structures@.len() - i,
    {
        let mut buf: Vec<u8> = Vec::new();
        let mut k: usize = 0;
        while k < MIN_PDU_BUF
            invariant
                k <= MIN_PDU_BUF,
                buf@.len() == k,
            decreases MIN_PDU_BUF - k,
        {
            buf.push(0);
            k += 1;
        }
        match ad_structure_to_bytes(&structures[i], buf.as_mut_slice()) {
            Some(left) => {
                parts.push(written(buf, left));
            },
            None => {
                proof {
                    assert(ad_structure_written(structures@[i as int], MIN_PDU_BUF as nat)
                        is None);
                }
                return None;
            },
        }
        i += 1;
    }
    Some(parts)
}

/// Whether `bytes` are one advertising structure as it is sent: a length
/// byte, then as many bytes as it says, within the size of a packet.
pub open spec fn is_record(bytes: Seq<u8>) -> bool {
    &&& 1 <= bytes.len() <= MIN_PDU_BUF
    &&& bytes[0] as int == bytes.len() - 1
}

/// What a writer wrote into `buf` that has `left` bytes of space left: all
/// but the last `left` bytes, and nothing where `left` exceeds the buffer.
pub open spec fn written_spec(buf: Seq<u8>, left: nat) -> Seq<u8> {
    if left <= buf.len() {
        buf.take(buf.len() - left)
    } else {
        Seq::empty()
    }
}

/// The part of `buf` that a writer filled which reports `left` bytes of
/// space left.
pub fn written(buf: Vec<u8>, left: usize) -> (part: Vec<u8>)
    ensures
        part@ == written_spec(buf@, left as nat),
{
    let mut part = buf;
    if left <= part.len() {
        let n = part.len() - left;
        part.truncate(n);
        proof {
            assert(part@ =~= buf@.take(n as int));
        }
    } else {
        part.truncate(0);
        proof {
            assert(part@ =~= Seq::<u8>::empty());
        }
    }
    part
}

/// The receiver of the scanner's beacons. It holds the packet that the
/// scanner decoded last until the radio interrupt moves it to the queue.
pub struct TrackerScanCallback {
    packet: Option<BlePacket>,
}

impl TrackerScanCallback {
    /// The packet that waits to be queued, if any.
    pub closed spec fn slot(self) -> Option<BlePacket> {
        self.packet
    }

    /// A receiver that holds no packet.
    pub fn new() -> (r: Self)
        ensures
            r.slot() is None,
    {
        TrackerScanCallback { packet: None }
    }

    /// Whether a packet waits to be queued.
    pub fn is_pending(&self) -> (r: bool)
        ensures
            r == self.slot() is Some,
    {
        self.packet.is_some()
    }

    /// Takes a beacon from the scanner: the address of its sender, its
    /// advertising structures as the bytes that each is sent as, and what
    /// the link layer reports of it. The packet made of them waits in the
    /// slot, which must be free.
    pub fn beacon(&mut self, addr: [u8; 6], data: &Vec<Vec<u8>>, metadata: Metadata)
        requires
            old(self).slot() is None,
            joined(data@).len() <= MIN_PDU_BUF,
            metadata.timestamp is Some,
            metadata.rssi is Some,
            metadata.pdu_type is Some,
        ensures
            final(self).slot() is Some,
            final(self).slot()->0@.addr == addr@,
            final(self).slot()->0@.data == joined(data@),
            final(self).slot()->0@.metadata.spec_ticks() == metadata.timestamp->0,
            final(self).slot()->0@.metadata.spec_freq() == frequency(metadata.channel),
            final(self).slot()->0@.metadata.spec_rssi() == metadata.rssi->0,
            final(self).slot()->0@.metadata.spec_pdu_type() == metadata.pdu_type->0,
    {
        let mut buf: Vec<u8> = Vec::new();
        let mut i: usize = 0;
        proof {
            assert(data@.take(0) =~= Seq::<Vec<u8>>::empty());
        }
        while i < data.len()
            invariant
                i <= data.len(),
                buf@ == joined(data@.take(i as int)),
                joined(data@).len() <= MIN_PDU_BUF,
            decreases data.len() - i,
        {
            proof {
                assert(data@.take(i + 1).drop_last() =~= data@.take(i as int));
            }
            let part = &data[i];
            let mut j: usize = 0;
            while j < part.len()
                invariant
                    j <= part.len(),
                    buf@ == joined(data@.take(i as int)) + part@.take(j as int),
                decreases part.len() - j,
            {
                buf.push(part[j]);
                proof {
                    assert(part@.take(j + 1) =~= part@.take(j as int).push(part@[j as int]));
                }
                j += 1;
            }
            proof {
                assert(part@.take(j as int) =~= part@);
            }
            i += 1;
        }
        proof {
            assert(data@.take(i as int) =~= data@);
        }
        let packet = BlePacket { addr, metadata: RadioMetadata::from(metadata), data: buf };
        self.packet = Some(packet);
    }

    /// Takes a beacon with its advertising structures as the link layer
    /// hands them out. The beacon is refused, and the slot left as it is,
    /// when the slot is occupied, else when the metadata is incomplete, else
    /// when the structures do not fit into one packet.
    pub fn beacon_structures(
        &mut self,
        addr: [u8; 6],
        data: &[AdStructure<'_>],
        metadata: Metadata,
    ) -> (r: Result<(), Rejected>)
        ensures
            r is Ok <==> old(self).slot() is None && metadata.timestamp is Some && metadata.rssi
                is Some && metadata.pdu_type is Some && all_written(data@) && joined_written(
                data@,
            ).len() <= MIN_PDU_BUF,
            r is Err ==> final(self).slot() == old(self).slot(),
            r matches Err(why) ==> why == if old(self).slot() is Some {
                Rejected::Occupied
            } else if !(metadata.timestamp is Some && metadata.rssi is Some && metadata.pdu_type
                is Some) {
                Rejected::Incomplete
            } else {
                Rejected::TooLong
            },
            r is Ok ==> {
                &&& final(self).slot() is Some
                &&& final(self).slot()->0@.addr == addr@
                &&& final(self).slot()->0@.data == joined_written(data@)
                &&& final(self).slot()->0@.metadata.spec_ticks() == metadata.timestamp->0
                &&& final(self).slot()->0@.metadata.spec_freq() == frequency(metadata.channel)
                &&& final(self).slot()->0@.metadata.spec_rssi() == metadata.rssi->0
                &&& final(self).slot()->0@.metadata.spec_pdu_type() == metadata.pdu_type->0
            },
    {
        if self.packet.is_some() {
            return Err(Rejected::Occupied);
        }
        if !(metadata.timestamp.is_some() && metadata.rssi.is_some()
            && metadata.pdu_type.is_some()) {
            return Err(Rejected::Incomplete);
        }
        let parts = match encode(data) {
            Some(parts) => parts,
            None => {
                return Err(Rejected::TooLong);
            },
        };
        proof {
            lemma_joined_written(parts@, data@);
        }
        if !fits_packet(&parts) {
            return Err(Rejected::TooLong);
        }
        self.beacon(addr, &parts, metadata);
        Ok(())
    }

    /// Empties the slot and hands out what it held.
    pub fn take(&mut self) -> (r: Option<BlePacket>)
        ensures
            r == old(self).slot(),
            final(self).slot() is None,
    {
        self.packet.take()
    }
}

/// What the radio interrupt did with a decoded packet.
#[derive(Clone, Copy, Debug, PartialEq, Eq, Structural)]
pub enum Received {
    /// No packet was completed: nothing was queued and no event raised.
    Nothing,
    /// The packet was queued. `notified` says whether the event that
    /// announces it entered the event queue.
    Queued { notified: bool },
    /// The packet queue was full: the packet was dropped.
    Dropped,
}

/// The packets that wait to be read by the applet, oldest first.
pub struct Packets {
    queue: Bounded<BlePacket>,
}

impl Packets {
    /// The queued packets, oldest first.
    pub closed spec fn queued(self) -> Seq<BlePacket> {
        self.queue@
    }

    /// At most `MAX_PACKETS` packets are queued.
    pub closed spec fn inv(self) -> bool {
        self.queue.inv() && self.queue.capacity() == MAX_PACKETS
    }

    /// The queue holds at most `MAX_PACKETS` packets.
    pub proof fn lemma_bounded(self)
        requires
            self.inv(),
        ensures
            self.queued().len() <= MAX_PACKETS,
    {
        self.queue.lemma_within_capacity();
    }

    /// No packet queued.
    pub fn new() -> (r: Self)
        ensures
            r.inv(),
            r.queued() == Seq::<BlePacket>::empty(),
    {
        Packets { queue: Bounded::new(MAX_PACKETS) }
    }

    /// Queues `packet` behind the others if fewer than `MAX_PACKETS` wait,
    /// and hands it back if not.
    pub fn enqueue(&mut self, packet: BlePacket) -> (r: Result<(), BlePacket>)
        requires
            old(self).inv(),
        ensures
            final(self).inv(),
            r is Ok <==> old(self).queued().len() < MAX_PACKETS,
            r is Ok ==> final(self).queued() == old(self).queued().push(packet),
            r matches Err(dropped) ==> dropped == packet && final(self).queued() == old(self).queued(),
    {
        self.queue.push(packet)
    }

    /// The number of queued packets.
    pub fn len(&self) -> (n: usize)
        ensures
            n == self.queued().len(),
    {
        self.queue.len()
    }

    /// Takes the oldest queued packet, if any.
    pub fn read(&mut self) -> (r: Option<BlePacket>)
        ensures
            old(self).inv() ==> final(self).inv(),
            old(self).queued().len() == 0 ==> {
                &&& r is None
                &&& final(self).queued() == old(self).queued()
            },
            old(self).queued().len() > 0 ==> {
                &&& r == Some(old(self).queued().first())
                &&& final(self).queued() == old(self).queued().drop_first()
            },
    {
        self.queue.pop()
    }
}

} // verus!
