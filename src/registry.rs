//! Per-peer protocol state: address, trust state, session key, fragment
//! buffers, fault list and nonce cache; message disassembly into packets,
//! packet finalisation and intake, and message reassembly.
use vstd::prelude::*;
use crate::device::{DeviceSelf, DeviceStatus, VehicleType};
use crate::bytes::{append_bytes, contains_byte, copy_range};
use crate::crypto::NONCE_SIZE;
use crate::nonce_cache::{
    iv_expired, lemma_live_entries_listed, lemma_live_entries_of_live,
    lemma_live_entries_unexpired, live_entries, nonce_in_use, InitializationVectorContainer,
    IvView, DEFAULT_IV_EXPIRATION_MS,
};
use crate::packet::{
    crc16_kermit, opens_to, payload_crc_matches, sealed_payload, LoRaPacket,
    LoRaPacketHeader, LoRaPacketPayload, PacketError, PacketSizeError, PacketView,
    MAX_PAYLOAD_SIZE, MAX_RAW_MESSAGE_SIZE_AES_GCM_128,
};

verus! {

/// Bytes that encryption adds to a payload: the tag and the nonce.
pub const ENCRYPTION_OVERHEAD: usize = 28;

/// Most fragments one message can have: the count is carried in one byte.
pub const MAX_FRAGMENTS: usize = 255;

/// Number of chunks of at most `c` bytes that `len` bytes split into.
pub open spec fn chunk_count(len: int, c: int) -> int {
    (len + c - 1) / c
}

/// The `i`-th chunk of at most `c` bytes of `msg`.
pub open spec fn chunk_of(msg: Seq<u8>, c: int, i: int) -> Seq<u8> {
    let end = if (i + 1) * c < msg.len() { (i + 1) * c } else { msg.len() as int };
    msg.subrange(i * c, end)
}

proof fn lemma_chunk_count(len: int, c: int, i: int)
    requires
        c > 0,
        0 <= len,
        0 <= i,
        (i - 1) * c < len || i == 0,
        len <= i * c,
    ensures
        i == chunk_count(len, c),
{
    assert(i == (len + c - 1) / c) by (nonlinear_arith)
        requires
            c > 0,
            0 <= len,
            0 <= i,
            (i - 1) * c < len || i == 0,
            len <= i * c,
    ;
}

/// Splits `message` into consecutive chunks of `chunk_size` bytes, the last
/// one possibly shorter.
pub fn split_into_chunks(message: &[u8], chunk_size: usize) -> (r: Vec<Vec<u8>>)
    requires
        chunk_size > 0,
    ensures
        r@.len() == chunk_count(message@.len() as int, chunk_size as int),
        forall|i: int| 0 <= i < r@.len() ==> (#[trigger] r@[i])@.len() <= chunk_size,
        forall|i: int|
            0 <= i < r@.len() ==> (#[trigger] r@[i])@ == chunk_of(
                message@,
                chunk_size as int,
                i,
            ),
{
    let len = message.len();
    let mut r: Vec<Vec<u8>> = Vec::new();
    let mut start: usize = 0;
    assert(r@.len() * chunk_size == 0) by (nonlinear_arith)
        requires
            r@.len() == 0,
    ;
    while start < len
        invariant
            chunk_size > 0,
            len == message@.len(),
            start <= len,
            start == r@.len() * chunk_size,
            forall|i: int| 0 <= i < r@.len() ==> (#[trigger] r@[i])@.len() <= chunk_size,
            forall|i: int|
                0 <= i < r@.len() ==> (#[trigger] r@[i])@ == chunk_of(
                    message@,
                    chunk_size as int,
                    i,
                ),
            r@.len() > 0 ==> (r@.len() - 1) * chunk_size < len,
        decreases len - start,
    {
        let end = if len - start > chunk_size {
            start + chunk_size
        } else {
            len
        };
        let ghost k = r@.len() as int;
        assert((k + 1) * chunk_size == k * chunk_size + chunk_size) by (nonlinear_arith);
        let chunk = copy_range(message, start, end);
        r.push(chunk);
        assert(r@[k]@ == chunk_of(message@, chunk_size as int, k));
        if end < len {
            start = end;
        } else {
            assert(start + chunk_size >= len);
            start = len;
            // the last chunk reaches the end of the message
            assert(len <= r@.len() * chunk_size) by (nonlinear_arith)
                requires
                    start == len,
                    k * chunk_size + chunk_size >= len,
                    r@.len() == k + 1,
            ;
            proof {
                lemma_chunk_count(len as int, chunk_size as int, r@.len() as int);
            }
            return r;
        }
    }
    proof {
        lemma_chunk_count(len as int, chunk_size as int, r@.len() as int);
    }
    r
}

} // verus!

verus! {

/// Views of a sequence of packets.
pub open spec fn packet_views(s: Seq<LoRaPacket>) -> Seq<PacketView> {
    s.map_values(|p: LoRaPacket| p@)
}

/// Plaintext bytes that one fragment carries: less when a key is set, to
/// leave room for the tag and the nonce.
pub open spec fn fragment_capacity(encrypted: bool) -> int {
    if encrypted {
        MAX_RAW_MESSAGE_SIZE_AES_GCM_128 as int
    } else {
        MAX_PAYLOAD_SIZE as int
    }
}

/// Header of the `index`-th of `count` fragments of a message, before its CRC
/// is calculated: the payload size counts the tag and nonce when encrypted.
pub open spec fn fragment_header(
    source: u8,
    destination: u8,
    index: int,
    count: int,
    chunk_len: int,
    encrypted: bool,
) -> LoRaPacketHeader {
    LoRaPacketHeader {
        source_addr: source,
        destination_addr: destination,
        message_packet_num: index as u8,
        total_number_of_packets: count as u8,
        payload_size: (if encrypted {
            chunk_len + ENCRYPTION_OVERHEAD
        } else {
            chunk_len
        }) as u8,
        header_crc: 0,
    }
}

/// Network state kept for one peer.
#[derive(Debug, Clone)]
pub struct ArpRegistry {
    pub address: Option<u8>,
    pub device_type: Option<VehicleType>,
    pub device_status: DeviceStatus,
    pub secret_key: Option<[u8; 16]>,
    /// Fragments received from the peer.
    pub packet_rx_vec: Vec<LoRaPacket>,
    /// Fragments of `tx_message`, ready to be finalised and sent.
    pub packet_tx_vec: Vec<LoRaPacket>,
    /// Message reassembled from `packet_rx_vec`.
    pub rx_message: Vec<u8>,
    /// Message waiting to be sent to the peer.
    pub tx_message: Vec<u8>,
    /// Fragment indices that failed a CRC check or decryption.
    pub faulty_packets: Vec<u8>,
    pub used_ivs: InitializationVectorContainer,
    /// Validity window of a nonce, in milliseconds.
    pub iv_expiration_duration: Option<u64>,
}

impl ArpRegistry {
    /// A registry with no key, no buffered data and the default nonce window.
    pub fn new(address: Option<u8>, device_status: DeviceStatus) -> (r: Self)
        ensures
            r.address == address,
            r.device_status == device_status,
            r.device_type is None,
            r.secret_key is None,
            r.packet_rx_vec@.len() == 0,
            r.packet_tx_vec@.len() == 0,
            r.rx_message@.len() == 0,
            r.tx_message@.len() == 0,
            r.faulty_packets@.len() == 0,
            r.used_ivs@.len() == 0,
            r.iv_expiration_duration == Some(DEFAULT_IV_EXPIRATION_MS),
    {
        ArpRegistry {
            address,
            device_type: None,
            device_status,
            secret_key: None,
            packet_rx_vec: Vec::new(),
            packet_tx_vec: Vec::new(),
            rx_message: Vec::new(),
            tx_message: Vec::new(),
            faulty_packets: Vec::new(),
            used_ivs: InitializationVectorContainer::new(),
            iv_expiration_duration: Some(DEFAULT_IV_EXPIRATION_MS),
        }
    }

    pub fn get_address(&self) -> (r: Option<u8>)
        ensures
            r == self.address,
    {
        self.address
    }

    pub fn get_secret_key(&self) -> (r: Option<[u8; 16]>)
        ensures
            r == self.secret_key,
    {
        self.secret_key
    }

    /// Whether the pending message needs at most `MAX_FRAGMENTS` fragments.
    pub open spec fn can_disassemble(&self) -> bool {
        chunk_count(
            self.tx_message@.len() as int,
            fragment_capacity(self.secret_key is Some),
        ) <= MAX_FRAGMENTS
    }

    /// Whether `tx` holds exactly the fragments of the pending message, sent
    /// from `source`.
    pub open spec fn holds_fragments_of_message(&self, tx: Seq<PacketView>, source: u8) -> bool {
        let c = fragment_capacity(self.secret_key is Some);
        let n = chunk_count(self.tx_message@.len() as int, c);
        &&& tx.len() == n
        &&& forall|i: int|
            0 <= i < n ==> #[trigger] tx[i] == (
                fragment_header(
                    source,
                    self.address->0,
                    i,
                    n,
                    chunk_of(self.tx_message@, c, i).len() as int,
                    self.secret_key is Some,
                ),
                0u16,
                chunk_of(self.tx_message@, c, i),
            )
    }

    /// Everything but the outbound fragments is unchanged from `other`.
    pub open spec fn same_except_tx_packets(&self, other: &Self) -> bool {
        &&& self.address == other.address
        &&& self.device_type == other.device_type
        &&& self.device_status == other.device_status
        &&& self.secret_key == other.secret_key
        &&& self.packet_rx_vec@ == other.packet_rx_vec@
        &&& self.rx_message@ == other.rx_message@
        &&& self.tx_message@ == other.tx_message@
        &&& self.faulty_packets@ == other.faulty_packets@
        &&& self.used_ivs@ == other.used_ivs@
        &&& self.iv_expiration_duration == other.iv_expiration_duration
    }

    /// Splits the pending message into fragments addressed to this peer,
    /// sent from `device_self`'s address (0 when it has none). CRCs and
    /// encryption are left to `finalise_tx_packets`. When the peer has no
    /// address no fragment header can be built: every fragment is skipped
    /// and the call still succeeds, leaving no fragments. Fails, leaving no
    /// fragments, when the message needs more than `MAX_FRAGMENTS` fragments
    /// (the count would not fit its header byte).
    pub fn disassemble_message_into_packets(&mut self, device_self: &DeviceSelf) -> (r: Result<
        (),
        (),
    >)
        ensures
            final(self).same_except_tx_packets(old(self)),
            r is Ok <==> (old(self).address is None || old(self).can_disassemble()),
            old(self).address is None ==> final(self).packet_tx_vec@.len() == 0,
            r is Ok && old(self).address is Some ==> old(self).holds_fragments_of_message(
                packet_views(final(self).packet_tx_vec@),
                match device_self.address {
                    Some(a) => a,
                    None => 0u8,
                },
            ),
            r is Err ==> final(self).packet_tx_vec@.len() == 0,
    {
        self.packet_tx_vec = Vec::new();
        let encrypted = self.secret_key.is_some();
        let capacity: usize = if encrypted {
            MAX_RAW_MESSAGE_SIZE_AES_GCM_128
        } else {
            MAX_PAYLOAD_SIZE
        };
        let destination = match self.address {
            Some(a) => a,
            None => {
                return Ok(());
            },
        };
        let source = match device_self.address {
            Some(a) => a,
            None => 0u8,
        };
        let chunks = split_into_chunks(self.tx_message.as_slice(), capacity);
        let count = chunks.len();
        if count > MAX_FRAGMENTS {
            return Err(());
        }
        let ghost msg = self.tx_message@;
        let ghost c = capacity as int;
        let mut index: usize = 0;
        while index < count
            invariant
                count == chunks@.len(),
                count <= MAX_FRAGMENTS,
                count == chunk_count(msg.len() as int, c),
                c == fragment_capacity(encrypted),
                encrypted == (self.secret_key is Some),
                msg == self.tx_message@,
                self.address == Some(destination),
                self.same_except_tx_packets(old(self)),
                forall|i: int| 0 <= i < count ==> (#[trigger] chunks@[i])@ == chunk_of(msg, c, i),
                forall|i: int| 0 <= i < count ==> (#[trigger] chunks@[i])@.len() <= c,
                0 <= index <= count,
                self.packet_tx_vec@.len() == index,
                forall|i: int|
                    0 <= i < index ==> #[trigger] packet_views(self.packet_tx_vec@)[i] == (
                        fragment_header(
                            source,
                            destination,
                            i,
                            count as int,
                            chunk_of(msg, c, i).len() as int,
                            encrypted,
                        ),
                        0u16,
                        chunk_of(msg, c, i),
                    ),
            decreases count - index,
        {
            let chunk = copy_range(chunks[index].as_slice(), 0, chunks[index].len());
            assert(chunk@ =~= chunk_of(msg, c, index as int));
            assert(chunk@.len() <= c);
            let payload_size: usize = if encrypted {
                chunk.len() + ENCRYPTION_OVERHEAD
            } else {
                chunk.len()
            };
            let header = LoRaPacketHeader {
                source_addr: source,
                destination_addr: destination,
                message_packet_num: index as u8,
                total_number_of_packets: count as u8,
                payload_size: payload_size as u8,
                header_crc: 0,
            };
            let payload = LoRaPacketPayload { payload_crc: 0, payload: chunk };
            let ghost before = self.packet_tx_vec@;
            self.packet_tx_vec.push(LoRaPacket { header, payload });
            assert(packet_views(self.packet_tx_vec@) =~= packet_views(before).push(
                self.packet_tx_vec@[index as int]@,
            ));
            index = index + 1;
        }
        Ok(())
    }
}

} // verus!

verus! {

/// Whether `n` is `o` made ready for sending: header CRC calculated, payload
/// encrypted under some nonce when a key is given, then payload CRC
/// calculated over the bytes that go on the air.
pub open spec fn tx_finalised(o: PacketView, n: PacketView, key: Option<[u8; 16]>) -> bool {
    &&& n.0 == LoRaPacketHeader { header_crc: crc16_kermit(o.0.crc_input()), ..o.0 }
    &&& n.1 == crc16_kermit(n.2)
    &&& match key {
        None => n.2 == o.2,
        Some(k) => exists|nonce: Seq<u8>|
            nonce.len() == NONCE_SIZE && n.2 == #[trigger] sealed_payload(k@, nonce, o.2),
    }
}

/// Whether a received packet passes intake: both CRCs match and, when a key
/// is given, the payload authenticates under it.
pub open spec fn rx_accepted(p: PacketView, key: Option<[u8; 16]>) -> bool {
    &&& p.0.crc_matches()
    &&& payload_crc_matches((p.1, p.2))
    &&& match key {
        None => true,
        Some(k) => exists|pt: Seq<u8>| #[trigger] opens_to(k@, p.2, pt),
    }
}

/// Whether `n` is the received packet `o` after intake.
pub open spec fn rx_finalised(o: PacketView, n: PacketView, key: Option<[u8; 16]>) -> bool {
    &&& n.0 == o.0
    &&& n.1 == o.1
    &&& match key {
        Some(k) => if rx_accepted(o, key) {
            opens_to(k@, o.2, n.2)
        } else {
            n.2 == o.2
        },
        None => n.2 == o.2,
    }
}

/// Fragment indices of the packets that fail intake, in order.
pub open spec fn rx_faults(s: Seq<PacketView>, key: Option<[u8; 16]>) -> Seq<u8>
    decreases s.len(),
{
    if s.len() == 0 {
        Seq::empty()
    } else {
        let rest = rx_faults(s.drop_last(), key);
        if rx_accepted(s.last(), key) {
            rest
        } else {
            rest.push(s.last().0.message_packet_num)
        }
    }
}

/// Payloads of the packets with fragment index `k` that are not faulted, in
/// arrival order.
pub open spec fn fragment_payloads(s: Seq<PacketView>, faults: Seq<u8>, k: int) -> Seq<u8>
    decreases s.len(),
{
    if s.len() == 0 {
        Seq::empty()
    } else {
        let rest = fragment_payloads(s.drop_last(), faults, k);
        let p = s.last();
        if p.0.message_packet_num as int == k && !faults.contains(p.0.message_packet_num) {
            rest + p.2
        } else {
            rest
        }
    }
}

/// Payloads of the non-faulted packets with fragment index below `k`, in
/// ascending index order.
pub open spec fn assembled_below(s: Seq<PacketView>, faults: Seq<u8>, k: int) -> Seq<u8>
    decreases k,
{
    if k <= 0 {
        Seq::empty()
    } else {
        assembled_below(s, faults, k - 1) + fragment_payloads(s, faults, k - 1)
    }
}

/// The message reassembled from received packets: the payloads of all
/// non-faulted packets in ascending fragment-index order.
pub open spec fn assembled_message(s: Seq<PacketView>, faults: Seq<u8>) -> Seq<u8> {
    assembled_below(s, faults, 256)
}

/// Whether some packet of `s` carries fragment index `k`.
pub open spec fn has_fragment(s: Seq<PacketView>, k: u8) -> bool {
    exists|i: int| 0 <= i < s.len() && (#[trigger] s[i]).0.message_packet_num == k
}

impl ArpRegistry {
    /// Everything but the outbound fragments and the nonce cache is unchanged.
    pub open spec fn same_except_tx_state(&self, other: &Self) -> bool {
        &&& self.address == other.address
        &&& self.device_type == other.device_type
        &&& self.device_status == other.device_status
        &&& self.secret_key == other.secret_key
        &&& self.packet_rx_vec@ == other.packet_rx_vec@
        &&& self.rx_message@ == other.rx_message@
        &&& self.tx_message@ == other.tx_message@
        &&& self.faulty_packets@ == other.faulty_packets@
        &&& self.iv_expiration_duration == other.iv_expiration_duration
    }

    /// Whether some outbound fragment is too large to be encrypted.
    pub open spec fn has_oversized_tx_packet(&self) -> bool {
        exists|i: int|
            0 <= i < self.packet_tx_vec@.len()
                && (#[trigger] self.packet_tx_vec@[i]).payload.payload@.len()
                > MAX_RAW_MESSAGE_SIZE_AES_GCM_128
    }

    /// Prepares the outbound fragments for sending: calculates each header
    /// CRC, then, when a key is set, encrypts the payload under a nonce that
    /// is not in use at time `now`, recording it in the nonce cache with the
    /// registry's window, then calculates the payload CRC over the resulting
    /// bytes. With a key, a fragment too large to encrypt fails the whole
    /// step before anything changes; running out of fresh nonces stops it
    /// with the fragments before the failing one finalised and the others
    /// untouched.
    pub fn finalise_tx_packets(&mut self, now: u64) -> (r: Result<(), PacketError>)
        ensures
            final(self).same_except_tx_state(old(self)),
            final(self).packet_tx_vec@.len() == old(self).packet_tx_vec@.len(),
            old(self).secret_key is None ==> r is Ok && final(self).used_ivs@ == old(
                self,
            ).used_ivs@,
            r is Ok ==> forall|i: int|
                0 <= i < old(self).packet_tx_vec@.len() ==> tx_finalised(
                    #[trigger] old(self).packet_tx_vec@[i]@,
                    final(self).packet_tx_vec@[i]@,
                    old(self).secret_key,
                ),
            old(self).secret_key is Some && old(self).has_oversized_tx_packet() ==> {
                &&& r matches Err(PacketError::Size(_))
                &&& final(self).packet_tx_vec@ == old(self).packet_tx_vec@
                &&& final(self).used_ivs@ == old(self).used_ivs@
            },
            old(self).secret_key is Some && !old(self).has_oversized_tx_packet() && r is Err
                ==> r == Err::<(), PacketError>(PacketError::NonceExhausted),
            old(self).packet_tx_vec@.len() == 0 ==> r is Ok,
            r is Ok && old(self).secret_key is Some ==> final(self).used_ivs@ == live_entries(
                old(self).used_ivs@,
                now as int,
            ) + nonce_entries(final(self).packet_tx_vec@, old(self).nonce_window(), now),
            r is Ok && old(self).secret_key is Some ==> forall|i: int|
                0 <= i < old(self).packet_tx_vec@.len() ==> !nonce_in_use(
                    old(self).used_ivs@,
                    payload_nonce(#[trigger] final(self).packet_tx_vec@[i]@.2),
                    now as int,
                ),
            r is Ok && old(self).secret_key is Some ==> forall|i: int, j: int|
                0 <= j < i < old(self).packet_tx_vec@.len() ==> payload_nonce(
                    #[trigger] final(self).packet_tx_vec@[i]@.2,
                ) != payload_nonce(#[trigger] final(self).packet_tx_vec@[j]@.2),
            r == Err::<(), PacketError>(PacketError::NonceExhausted) ==> exists|j: int|
                0 <= j < old(self).packet_tx_vec@.len() && #[trigger] finalised_prefix(
                    *old(self),
                    *final(self),
                    j,
                    now,
                ),
    {
        let len = self.packet_tx_vec.len();
        if let Some(_) = self.secret_key {
            let mut j: usize = 0;
            while j < len
                invariant
                    len == self.packet_tx_vec@.len(),
                    old(self).secret_key is Some,
                    *self == *old(self),
                    0 <= j <= len,
                    forall|k: int|
                        0 <= k < j ==> (#[trigger] self.packet_tx_vec@[k]).payload.payload@.len()
                            <= MAX_RAW_MESSAGE_SIZE_AES_GCM_128,
                decreases len - j,
            {
                let size = self.packet_tx_vec[j].payload.payload.len();
                if size > MAX_RAW_MESSAGE_SIZE_AES_GCM_128 {
                    return Err(PacketError::Size(PacketSizeError::new(size)));
                }
                j = j + 1;
            }
        }
        let expiration = self.window();
        let ghost before = self.packet_tx_vec@;
        let ghost cache0 = self.used_ivs@;
        if self.secret_key.is_some() {
            self.used_ivs.purge_expired(now);
        }
        let ghost live0 = live_entries(cache0, now as int);
        let ghost t = now as int;
        proof {
            lemma_live_entries_unexpired(cache0, t);
            assert(live0 + nonce_entries(before.subrange(0, 0), expiration, now) =~= live0);
            assert forall|n: Seq<u8>| #[trigger] nonce_in_use(cache0, n, t) implies nonce_in_use(
                live0,
                n,
                t,
            ) by {
                lemma_live_entries_listed(cache0, t, n);
                let k = choose|k: int| 0 <= k < live0.len() && (#[trigger] live0[k]).0 == n;
                assert(!iv_expired(live0[k], t));
            }
        }
        let mut i: usize = 0;
        while i < len
            invariant
                expiration == old(self).nonce_window(),
                expiration > 0,
                cache0 == old(self).used_ivs@,
                live0 == live_entries(cache0, t),
                forall|k: int| 0 <= k < live0.len() ==> !iv_expired(#[trigger] live0[k], t),
                t == now as int,
                len == self.packet_tx_vec@.len(),
                len == before.len(),
                before == old(self).packet_tx_vec@,
                self.same_except_tx_state(old(self)),
                old(self).secret_key is Some ==> !old(self).has_oversized_tx_packet(),
                0 <= i <= len,
                self.secret_key is None ==> self.used_ivs@ == cache0,
                forall|n: Seq<u8>|
                    #[trigger] nonce_in_use(cache0, n, t) ==> nonce_in_use(live0, n, t),
                self.secret_key is Some ==> self.used_ivs@ == live0 + nonce_entries(
                    self.packet_tx_vec@.subrange(0, i as int),
                    expiration,
                    now,
                ),
                forall|n: Seq<u8>|
                    #[trigger] nonce_in_use(cache0, n, t) ==> nonce_in_use(self.used_ivs@, n, t),
                self.secret_key is Some ==> forall|k: int|
                    0 <= k < i ==> !nonce_in_use(
                        cache0,
                        payload_nonce(#[trigger] self.packet_tx_vec@[k]@.2),
                        t,
                    ),
                self.secret_key is Some ==> forall|k: int|
                    0 <= k < i ==> nonce_in_use(
                        self.used_ivs@,
                        payload_nonce(#[trigger] self.packet_tx_vec@[k]@.2),
                        t,
                    ),
                self.secret_key is Some ==> forall|k: int, m: int|
                    0 <= m < k < i ==> payload_nonce(#[trigger] self.packet_tx_vec@[k]@.2)
                        != payload_nonce(#[trigger] self.packet_tx_vec@[m]@.2),
                forall|k: int|
                    0 <= k < i ==> tx_finalised(
                        #[trigger] before[k]@,
                        self.packet_tx_vec@[k]@,
                        self.secret_key,
                    ),
                forall|k: int| i <= k < len ==> #[trigger] self.packet_tx_vec@[k] == before[k],
            decreases len - i,
        {
            let ghost cur = self.packet_tx_vec@;
            let ghost cache = self.used_ivs@;
            let mut packet = self.packet_tx_vec.remove(i);
            assert(packet == before[i as int]);
            let mut nonce_used: Option<Vec<u8>> = None;
            match self.secret_key {
                Some(_) => {
                    proof {
                        lemma_cache_entries_live(live0, cur.subrange(0, i as int), expiration, now);
                        lemma_live_entries_of_live(cache, t);
                    }
                    match self.used_ivs.pick_unused_nonce(now, expiration) {
                        Some(nonce) => {
                            nonce_used = Some(nonce);
                        },
                        None => {
                            self.packet_tx_vec.insert(i, packet);
                            proof {
                                assert(self.packet_tx_vec@ =~= cur);
                                assert(finalised_prefix(*old(self), *self, i as int, now));
                            }
                            return Err(PacketError::NonceExhausted);
                        },
                    }
                },
                None => {},
            }
            packet.calculate_header_crc();
            assert(packet.header == LoRaPacketHeader {
                header_crc: crc16_kermit(before[i as int]@.0.crc_input()),
                ..before[i as int]@.0
            });
            match (self.secret_key, nonce_used) {
                (Some(key), Some(nonce)) => {
                    assert(!(packet.payload.payload@.len() > MAX_RAW_MESSAGE_SIZE_AES_GCM_128));
                    let _ = packet.encrypt(&key, nonce.as_slice());
                    assert(packet.payload.payload@ == sealed_payload(
                        key@,
                        nonce@,
                        before[i as int]@.2,
                    ));
                    proof {
                        lemma_sealed_payload_nonce(key@, nonce@, before[i as int]@.2);
                        let e: IvView = (nonce@, expiration, now);
                        assert(self.used_ivs@ == cache.push(e));
                        assert forall|n: Seq<u8>| nonce_in_use(cache, n, t) implies #[trigger] nonce_in_use(
                            self.used_ivs@,
                            n,
                            t,
                        ) by {
                            lemma_in_use_survives_purge(cache, e, n, t);
                        }
                        let s = self.used_ivs@;
                        assert(s[s.len() - 1] == e);
                        assert(nonce_in_use(s, nonce@, t));
                    }
                },
                _ => {},
            }
            packet.payload.calculate_payload_crc();
            self.packet_tx_vec.insert(i, packet);
            assert(self.packet_tx_vec@ =~= cur.update(i as int, packet));
            proof {
                if self.secret_key is Some {
                    assert(self.packet_tx_vec@.subrange(0, i as int + 1) =~= cur.subrange(
                        0,
                        i as int,
                    ).push(packet));
                    assert(live0 + nonce_entries(self.packet_tx_vec@.subrange(0, i as int + 1), expiration, now)
                        =~= (live0 + nonce_entries(cur.subrange(0, i as int), expiration, now)).push(
                        (payload_nonce(packet@.2), expiration, now),
                    ));
                }
            }
            i = i + 1;
        }
        proof {
            assert(self.packet_tx_vec@.subrange(0, len as int) =~= self.packet_tx_vec@);
        }
        Ok(())
    }

    /// Validity window given to the nonces this registry uses: the
    /// configured one, or the default when none or a zero window is set.
    pub open spec fn nonce_window(&self) -> u64 {
        match self.iv_expiration_duration {
            Some(d) => if d > 0 {
                d
            } else {
                DEFAULT_IV_EXPIRATION_MS
            },
            None => DEFAULT_IV_EXPIRATION_MS,
        }
    }

    fn window(&self) -> (r: u64)
        ensures
            r == self.nonce_window(),
            r > 0,
    {
        match self.iv_expiration_duration {
            Some(d) => if d > 0 {
                d
            } else {
                DEFAULT_IV_EXPIRATION_MS
            },
            None => DEFAULT_IV_EXPIRATION_MS,
        }
    }
}

/// The cache entries that recording the nonce of each packet of `tx`, in
/// order, at time `now` with window `window` adds.
pub open spec fn nonce_entries(tx: Seq<LoRaPacket>, window: u64, now: u64) -> Seq<IvView> {
    Seq::new(tx.len(), |i: int| (payload_nonce(tx[i]@.2), window, now))
}

/// Whether `after` is `before` with the outbound fragments below `j`
/// finalised, their nonces recorded at `now`, and the others untouched.
pub open spec fn finalised_prefix(before: ArpRegistry, after: ArpRegistry, j: int, now: u64) -> bool {
    &&& forall|k: int|
        0 <= k < j ==> tx_finalised(
            #[trigger] before.packet_tx_vec@[k]@,
            after.packet_tx_vec@[k]@,
            before.secret_key,
        )
    &&& forall|k: int|
        j <= k < before.packet_tx_vec@.len() ==> #[trigger] after.packet_tx_vec@[k]
            == before.packet_tx_vec@[k]
    &&& after.used_ivs@ == live_entries(before.used_ivs@, now as int) + nonce_entries(
        after.packet_tx_vec@.subrange(0, j),
        before.nonce_window(),
        now,
    )
}

/// A cache made of live entries and entries created at `now` with a
/// non-zero window holds only live entries.
proof fn lemma_cache_entries_live(
    live: Seq<IvView>,
    tx: Seq<LoRaPacket>,
    window: u64,
    now: u64,
)
    requires
        window > 0,
        forall|k: int| 0 <= k < live.len() ==> !iv_expired(#[trigger] live[k], now as int),
    ensures
        forall|k: int|
            0 <= k < (live + nonce_entries(tx, window, now)).len() ==> !iv_expired(
                #[trigger] (live + nonce_entries(tx, window, now))[k],
                now as int,
            ),
{
    let s = live + nonce_entries(tx, window, now);
    assert forall|k: int| 0 <= k < s.len() implies !iv_expired(#[trigger] s[k], now as int) by {
        if k < live.len() {
            assert(s[k] == live[k]);
        }
    }
}

/// The nonce carried at the end of an encrypted payload.
pub open spec fn payload_nonce(payload: Seq<u8>) -> Seq<u8> {
    payload.subrange(payload.len() - NONCE_SIZE, payload.len() as int)
}

proof fn lemma_sealed_payload_nonce(key: Seq<u8>, nonce: Seq<u8>, plain: Seq<u8>)
    requires
        nonce.len() == NONCE_SIZE,
    ensures
        payload_nonce(sealed_payload(key, nonce, plain)) == nonce,
{
    let s = sealed_payload(key, nonce, plain);
    assert(payload_nonce(s) =~= nonce);
}

/// A nonce in use stays in use once expired entries are purged and a new
/// entry is added.
proof fn lemma_in_use_survives_purge(s: Seq<IvView>, e: IvView, n: Seq<u8>, now: int)
    requires
        nonce_in_use(s, n, now),
    ensures
        nonce_in_use(live_entries(s, now).push(e), n, now),
{
    let l = live_entries(s, now);
    lemma_live_entries_listed(s, now, n);
    lemma_live_entries_unexpired(s, now);
    let i = choose|i: int| 0 <= i < l.len() && (#[trigger] l[i]).0 == n;
    assert(l.push(e)[i] == l[i]);
}

} // verus!

verus! {

impl ArpRegistry {
    /// Everything but the received fragments, the reassembled message and
    /// the fault list is unchanged.
    pub open spec fn same_except_rx_state(&self, other: &Self) -> bool {
        &&& self.address == other.address
        &&& self.device_type == other.device_type
        &&& self.device_status == other.device_status
        &&& self.secret_key == other.secret_key
        &&& self.packet_tx_vec@ == other.packet_tx_vec@
        &&& self.tx_message@ == other.tx_message@
        &&& self.used_ivs@ == other.used_ivs@
        &&& self.iv_expiration_duration == other.iv_expiration_duration
    }

    /// Intake of the received fragments: a fragment whose header or payload
    /// CRC fails is recorded in the fault list and left as it is; the others
    /// are decrypted in place when a key is set, and recorded as faulty when
    /// they do not authenticate. The fault list is rebuilt from scratch.
    pub fn finalise_rx_packets(&mut self)
        ensures
            final(self).same_except_rx_state(old(self)),
            final(self).rx_message@ == old(self).rx_message@,
            final(self).packet_rx_vec@.len() == old(self).packet_rx_vec@.len(),
            forall|i: int|
                0 <= i < old(self).packet_rx_vec@.len() ==> rx_finalised(
                    #[trigger] old(self).packet_rx_vec@[i]@,
                    final(self).packet_rx_vec@[i]@,
                    old(self).secret_key,
                ),
            final(self).faulty_packets@ == rx_faults(
                packet_views(old(self).packet_rx_vec@),
                old(self).secret_key,
            ),
    {
        self.faulty_packets = Vec::new();
        let len = self.packet_rx_vec.len();
        let ghost before = self.packet_rx_vec@;
        let ghost views = packet_views(before);
        let mut i: usize = 0;
        while i < len
            invariant
                len == self.packet_rx_vec@.len(),
                len == before.len(),
                views == packet_views(before),
                before == old(self).packet_rx_vec@,
                self.same_except_rx_state(old(self)),
                self.rx_message@ == old(self).rx_message@,
                0 <= i <= len,
                forall|k: int|
                    0 <= k < i ==> rx_finalised(
                        #[trigger] before[k]@,
                        self.packet_rx_vec@[k]@,
                        self.secret_key,
                    ),
                forall|k: int| i <= k < len ==> #[trigger] self.packet_rx_vec@[k] == before[k],
                self.faulty_packets@ == rx_faults(views.subrange(0, i as int), self.secret_key),
            decreases len - i,
        {
            let ghost cur = self.packet_rx_vec@;
            let mut packet = self.packet_rx_vec.remove(i);
            assert(packet == before[i as int]);
            assert(views.subrange(0, i as int + 1).drop_last() =~= views.subrange(0, i as int));
            assert(views.subrange(0, i as int + 1).last() == packet@);
            let index = packet.header.message_packet_num;
            let ghost plain = packet.payload.payload@;
            let ghost last = views.subrange(0, i as int + 1).last();
            assert(last == packet@);
            assert(plain == last.2);
            let header_ok = packet.check_header_crc();
            let payload_ok = packet.check_payload_crc();
            if !(header_ok && payload_ok) {
                self.faulty_packets.push(index);
                assert(!rx_accepted(last, self.secret_key));
                assert(self.faulty_packets@ =~= rx_faults(
                    views.subrange(0, i as int + 1),
                    self.secret_key,
                ));
            } else {
                match self.secret_key {
                    Some(key) => {
                        if packet.decrypt(&key).is_err() {
                            self.faulty_packets.push(index);
                            assert(!rx_accepted(last, self.secret_key));
                            assert(self.faulty_packets@ =~= rx_faults(
                                views.subrange(0, i as int + 1),
                                self.secret_key,
                            ));
                        } else {
                            assert(last.0.crc_matches());
                            assert(payload_crc_matches((last.1, last.2)));
                            assert(opens_to(key@, last.2, packet.payload.payload@));
                            assert(rx_accepted(last, self.secret_key));
                        }
                    },
                    None => {
                        assert(rx_accepted(last, self.secret_key));
                    },
                }
            }
            self.packet_rx_vec.insert(i, packet);
            assert(self.packet_rx_vec@ =~= cur.update(i as int, packet));
            i = i + 1;
        }
        assert(views.subrange(0, len as int) =~= views);
    }

    /// Rebuilds the inbound message from the received fragments: the
    /// payloads of all fragments whose index is not in the fault list, in
    /// ascending fragment-index order (arrival order among equal indices).
    /// Missing fragments are not detected here; see `is_message_complete`.
    pub fn assemble_message_from_packets(&mut self)
        ensures
            final(self).same_except_rx_state(old(self)),
            final(self).packet_rx_vec@ == old(self).packet_rx_vec@,
            final(self).faulty_packets@ == old(self).faulty_packets@,
            final(self).rx_message@ == assembled_message(
                packet_views(old(self).packet_rx_vec@),
                old(self).faulty_packets@,
            ),
    {
        let ghost views = packet_views(self.packet_rx_vec@);
        let ghost faults = self.faulty_packets@;
        let mut message: Vec<u8> = Vec::new();
        let len = self.packet_rx_vec.len();
        let mut k: u16 = 0;
        while k < 256
            invariant
                0 <= k <= 256,
                len == self.packet_rx_vec@.len(),
                views == packet_views(self.packet_rx_vec@),
                faults == self.faulty_packets@,
                message@ == assembled_below(views, faults, k as int),
            decreases 256 - k,
        {
            let ghost start = message@;
            let mut j: usize = 0;
            while j < len
                invariant
                    0 <= k < 256,
                    0 <= j <= len,
                    len == self.packet_rx_vec@.len(),
                    views == packet_views(self.packet_rx_vec@),
                    faults == self.faulty_packets@,
                    message@ == start + fragment_payloads(
                        views.subrange(0, j as int),
                        faults,
                        k as int,
                    ),
                decreases len - j,
            {
                let p = &self.packet_rx_vec[j];
                assert(views.subrange(0, j as int + 1).drop_last() =~= views.subrange(0, j as int));
                assert(views.subrange(0, j as int + 1).last() == p@);
                if p.header.message_packet_num as u16 == k && !contains_byte(
                    self.faulty_packets.as_slice(),
                    p.header.message_packet_num,
                ) {
                    append_bytes(&mut message, p.payload.payload.as_slice());
                    assert(message@ =~= start + fragment_payloads(
                        views.subrange(0, j as int + 1),
                        faults,
                        k as int,
                    ));
                }
                j = j + 1;
            }
            assert(views.subrange(0, len as int) =~= views);
            k = k + 1;
        }
        self.rx_message = message;
    }

    /// Whether the received fragments hold, without fault, every index from
    /// zero up to one below the fragment count of the first received one.
    pub open spec fn message_complete(&self) -> bool {
        let s = packet_views(self.packet_rx_vec@);
        &&& s.len() > 0
        &&& complete_below(s, self.faulty_packets@, s[0].0.total_number_of_packets as int)
    }

    fn holds_fragment(&self, k: u8) -> (r: bool)
        ensures
            r == has_fragment(packet_views(self.packet_rx_vec@), k),
    {
        let ghost s = packet_views(self.packet_rx_vec@);
        let mut j: usize = 0;
        while j < self.packet_rx_vec.len()
            invariant
                0 <= j <= self.packet_rx_vec@.len(),
                s == packet_views(self.packet_rx_vec@),
                forall|i: int| 0 <= i < j ==> (#[trigger] s[i]).0.message_packet_num != k,
            decreases self.packet_rx_vec@.len() - j,
        {
            if self.packet_rx_vec[j].header.message_packet_num == k {
                assert(s[j as int].0.message_packet_num == k);
                return true;
            }
            j = j + 1;
        }
        false
    }

    /// Whether every fragment of the message being received has arrived
    /// without fault, so that reassembly is not partial.
    pub fn is_message_complete(&self) -> (r: bool)
        ensures
            r == self.message_complete(),
    {
        if self.packet_rx_vec.len() == 0 {
            return false;
        }
        let ghost s = packet_views(self.packet_rx_vec@);
        let ghost faults = self.faulty_packets@;
        let count = self.packet_rx_vec[0].header.total_number_of_packets;
        let mut k: u8 = 0;
        while k < count
            invariant
                0 <= k <= count,
                s == packet_views(self.packet_rx_vec@),
                faults == self.faulty_packets@,
                s.len() > 0,
                count == s[0].0.total_number_of_packets,
                complete_below(s, faults, k as int),
            decreases count - k,
        {
            let faulty = contains_byte(self.faulty_packets.as_slice(), k);
            let present = self.holds_fragment(k);
            if faulty || !present {
                proof {
                    lemma_complete_below_at(s, faults, count as int, k);
                }
                return false;
            }
            proof {
                lemma_complete_below_step(s, faults, k);
            }
            k = k + 1;
        }
        true
    }
}

/// Whether every fragment index below `k` is present in `s` and not faulted.
pub open spec fn complete_below(s: Seq<PacketView>, faults: Seq<u8>, k: int) -> bool {
    forall|m: u8| (m as int) < k ==> #[trigger] fragment_received(s, faults, m)
}

/// Whether fragment index `m` is present in `s` and not faulted.
pub open spec fn fragment_received(s: Seq<PacketView>, faults: Seq<u8>, m: u8) -> bool {
    !faults.contains(m) && has_fragment(s, m)
}

proof fn lemma_complete_below_step(s: Seq<PacketView>, faults: Seq<u8>, k: u8)
    requires
        complete_below(s, faults, k as int),
        !faults.contains(k),
        has_fragment(s, k),
    ensures
        complete_below(s, faults, k as int + 1),
{
    assert forall|m: u8| (m as int) < k as int + 1 implies #[trigger] fragment_received(s, faults, m) by {
        if m != k {
            assert((m as int) < k as int);
        }
    }
}

proof fn lemma_complete_below_at(s: Seq<PacketView>, faults: Seq<u8>, count: int, k: u8)
    requires
        (k as int) < count,
        faults.contains(k) || !has_fragment(s, k),
    ensures
        !complete_below(s, faults, count),
{
    if complete_below(s, faults, count) {
        assert(fragment_received(s, faults, k));
    }
}

} // verus!

verus! {

/// Whether `n` is `o` after an attempt to decrypt it under `key`: unchanged
/// when there is no key or it does not authenticate, else its plaintext.
pub open spec fn decryption_applied(o: PacketView, n: PacketView, key: Option<[u8; 16]>) -> bool {
    &&& n.0 == o.0
    &&& n.1 == o.1
    &&& match key {
        Some(k) => if exists|pt: Seq<u8>| #[trigger] opens_to(k@, o.2, pt) {
            opens_to(k@, o.2, n.2)
        } else {
            n.2 == o.2
        },
        None => n.2 == o.2,
    }
}

/// Fragment indices of the packets that do not authenticate under `key`.
pub open spec fn decryption_faults(s: Seq<PacketView>, key: Option<[u8; 16]>) -> Seq<u8>
    decreases s.len(),
{
    if s.len() == 0 {
        Seq::empty()
    } else {
        let rest = decryption_faults(s.drop_last(), key);
        match key {
            Some(k) => if exists|pt: Seq<u8>| #[trigger] opens_to(k@, s.last().2, pt) {
                rest
            } else {
                rest.push(s.last().0.message_packet_num)
            },
            None => rest,
        }
    }
}

impl ArpRegistry {
    /// Decrypts one packet with the peer's key; without a key the packet is
    /// taken as plaintext and left alone.
    pub fn decrypt_packet(&mut self, packet: &mut LoRaPacket) -> (r: Result<(), PacketError>)
        ensures
            *final(self) == *old(self),
            decryption_applied(old(packet)@, final(packet)@, old(self).secret_key),
            r is Err <==> (old(self).secret_key matches Some(k) && forall|pt: Seq<u8>|
                !opens_to(k@, old(packet).payload.payload@, pt)),
            r is Err ==> r == Err::<(), PacketError>(
                PacketError::Decryption(crate::packet::PacketDecryptionError {  }),
            ),
    {
        match self.secret_key {
            Some(key) => {
                let r = packet.decrypt(&key);
                proof {
                    if r is Ok {
                        assert(opens_to(key@, old(packet).payload.payload@, packet.payload.payload@));
                    }
                }
                r
            },
            None => Ok(()),
        }
    }

    /// Decrypts each packet with the peer's key, adding the fragment index of
    /// each one that does not authenticate to the fault list.
    pub fn decrypt_packets(&mut self, packets: &mut Vec<LoRaPacket>)
        ensures
            final(self).same_except_rx_state(old(self)),
            final(self).packet_rx_vec@ == old(self).packet_rx_vec@,
            final(self).rx_message@ == old(self).rx_message@,
            final(packets)@.len() == old(packets)@.len(),
            forall|i: int|
                0 <= i < old(packets)@.len() ==> decryption_applied(
                    #[trigger] old(packets)@[i]@,
                    final(packets)@[i]@,
                    old(self).secret_key,
                ),
            final(self).faulty_packets@ == old(self).faulty_packets@ + decryption_faults(
                packet_views(old(packets)@),
                old(self).secret_key,
            ),
    {
        let len = packets.len();
        let ghost before = packets@;
        let ghost views = packet_views(before);
        let ghost faults0 = self.faulty_packets@;
        let mut i: usize = 0;
        while i < len
            invariant
                len == packets@.len(),
                len == before.len(),
                views == packet_views(before),
                before == old(packets)@,
                faults0 == old(self).faulty_packets@,
                self.same_except_rx_state(old(self)),
                self.packet_rx_vec@ == old(self).packet_rx_vec@,
                self.rx_message@ == old(self).rx_message@,
                0 <= i <= len,
                forall|k: int|
                    0 <= k < i ==> decryption_applied(
                        #[trigger] before[k]@,
                        packets@[k]@,
                        self.secret_key,
                    ),
                forall|k: int| i <= k < len ==> #[trigger] packets@[k] == before[k],
                self.faulty_packets@ == faults0 + decryption_faults(
                    views.subrange(0, i as int),
                    self.secret_key,
                ),
            decreases len - i,
        {
            let ghost cur = packets@;
            let mut packet = packets.remove(i);
            assert(packet == before[i as int]);
            assert(views.subrange(0, i as int + 1).drop_last() =~= views.subrange(0, i as int));
            assert(views.subrange(0, i as int + 1).last() == packet@);
            let index = packet.header.message_packet_num;
            let ghost prev = self.faulty_packets@;
            match self.secret_key {
                Some(key) => {
                    let ghost plain = packet.payload.payload@;
                    if packet.decrypt(&key).is_err() {
                        self.faulty_packets.push(index);
                        assert(self.faulty_packets@ =~= faults0 + decryption_faults(
                            views.subrange(0, i as int + 1),
                            self.secret_key,
                        ));
                    } else {
                        assert(opens_to(key@, plain, packet.payload.payload@));
                        assert(plain == views.subrange(0, i as int + 1).last().2);
                        assert(decryption_faults(views.subrange(0, i as int + 1), self.secret_key)
                            == decryption_faults(views.subrange(0, i as int), self.secret_key));
                    }
                },
                None => {
                    assert(decryption_faults(views.subrange(0, i as int + 1), self.secret_key)
                        == decryption_faults(views.subrange(0, i as int), self.secret_key));
                },
            }
            packets.insert(i, packet);
            assert(packets@ =~= cur.update(i as int, packet));
            i = i + 1;
        }
        assert(views.subrange(0, len as int) =~= views);
    }

    /// Encrypts one packet with the peer's key under a nonce that is not in
    /// use at time `now`, recording the nonce with the registry's window.
    /// Without a key the packet is left as plaintext. A packet too large to
    /// encrypt fails before a nonce is drawn.
    pub fn encrypt_packet(&mut self, packet: &mut LoRaPacket, now: u64) -> (r: Result<
        (),
        PacketError,
    >)
        ensures
            final(self).same_except_tx_state(old(self)),
            final(self).packet_tx_vec@ == old(self).packet_tx_vec@,
            final(packet).header == old(packet).header,
            final(packet).payload.payload_crc == old(packet).payload.payload_crc,
            old(self).secret_key is None ==> {
                &&& r is Ok
                &&& final(packet)@ == old(packet)@
                &&& final(self).used_ivs@ == old(self).used_ivs@
            },
            r is Ok ==> encrypted_under(
                old(self).secret_key,
                old(packet).payload.payload@,
                final(packet).payload.payload@,
            ),
            r is Err ==> final(packet)@ == old(packet)@,
            old(self).secret_key is Some && old(packet).payload.payload@.len()
                > MAX_RAW_MESSAGE_SIZE_AES_GCM_128 ==> {
                &&& r matches Err(PacketError::Size(_))
                &&& final(self).used_ivs@ == old(self).used_ivs@
            },
            old(self).secret_key is Some && old(packet).payload.payload@.len()
                <= MAX_RAW_MESSAGE_SIZE_AES_GCM_128 ==> {
                &&& r is Err ==> r == Err::<(), PacketError>(PacketError::NonceExhausted)
                &&& r is Err ==> final(self).used_ivs@ == live_entries(
                    old(self).used_ivs@,
                    now as int,
                )
            },
            r is Ok && old(self).secret_key is Some ==> {
                let nonce = payload_nonce(final(packet).payload.payload@);
                &&& final(packet).payload.payload@ == sealed_payload(
                    old(self).secret_key->0@,
                    nonce,
                    old(packet).payload.payload@,
                )
                &&& !nonce_in_use(old(self).used_ivs@, nonce, now as int)
                &&& final(self).used_ivs@ == live_entries(old(self).used_ivs@, now as int).push(
                    (nonce, old(self).nonce_window(), now),
                )
            },
    {
        match self.secret_key {
            Some(key) => {
                let size = packet.payload.payload.len();
                if size > MAX_RAW_MESSAGE_SIZE_AES_GCM_128 {
                    return Err(PacketError::Size(PacketSizeError::new(size)));
                }
                let expiration = self.window();
                match self.used_ivs.pick_unused_nonce(now, expiration) {
                    Some(nonce) => {
                        let r = packet.encrypt(&key, nonce.as_slice());
                        proof {
                            lemma_sealed_payload_nonce(key@, nonce@, old(packet).payload.payload@);
                        }
                        r
                    },
                    None => Err(PacketError::NonceExhausted),
                }
            },
            None => Ok(()),
        }
    }

    /// Whether some packet of `packets` is too large to be encrypted.
    pub open spec fn has_oversized(packets: Seq<LoRaPacket>) -> bool {
        exists|i: int|
            0 <= i < packets.len() && (#[trigger] packets[i]).payload.payload@.len()
                > MAX_RAW_MESSAGE_SIZE_AES_GCM_128
    }

    /// Encrypts each packet as `encrypt_packet` does, stopping at the first
    /// failure. With a key, expired nonces are purged first.
    pub fn encrypt_packets(&mut self, packets: &mut Vec<LoRaPacket>, now: u64) -> (r: Result<
        (),
        PacketError,
    >)
        ensures
            final(self).same_except_tx_state(old(self)),
            final(self).packet_tx_vec@ == old(self).packet_tx_vec@,
            final(packets)@.len() == old(packets)@.len(),
            old(self).secret_key is None ==> r is Ok && final(self).used_ivs@ == old(
                self,
            ).used_ivs@,
            old(packets)@.len() == 0 ==> r is Ok,
            old(self).secret_key is Some && Self::has_oversized(old(packets)@) ==> {
                &&& r matches Err(PacketError::Size(_))
                &&& final(packets)@ == old(packets)@
                &&& final(self).used_ivs@ == old(self).used_ivs@
            },
            old(self).secret_key is Some && !Self::has_oversized(old(packets)@) && r is Err
                ==> r == Err::<(), PacketError>(PacketError::NonceExhausted),
            r == Err::<(), PacketError>(PacketError::NonceExhausted) ==> exists|j: int|
                0 <= j < old(packets)@.len() && #[trigger] encrypted_prefix(
                    *old(self),
                    *final(self),
                    old(packets)@,
                    final(packets)@,
                    j,
                    now,
                ),

            forall|i: int|
                0 <= i < old(packets)@.len() ==> (#[trigger] final(packets)@[i]).header
                    == old(packets)@[i].header && final(packets)@[i].payload.payload_crc
                    == old(packets)@[i].payload.payload_crc,
            r is Ok ==> forall|i: int|
                0 <= i < old(packets)@.len() ==> encrypted_under(
                    old(self).secret_key,
                    old(packets)@[i].payload.payload@,
                    (#[trigger] final(packets)@[i]).payload.payload@,
                ),
            r is Ok && old(self).secret_key is Some ==> final(self).used_ivs@ == live_entries(
                old(self).used_ivs@,
                now as int,
            ) + nonce_entries(final(packets)@, old(self).nonce_window(), now),
            r is Ok && old(self).secret_key is Some ==> forall|i: int|
                0 <= i < old(packets)@.len() ==> !nonce_in_use(
                    old(self).used_ivs@,
                    payload_nonce(#[trigger] final(packets)@[i]@.2),
                    now as int,
                ),
            r is Ok && old(self).secret_key is Some ==> forall|i: int, j: int|
                0 <= j < i < old(packets)@.len() ==> payload_nonce(
                    #[trigger] final(packets)@[i]@.2,
                ) != payload_nonce(#[trigger] final(packets)@[j]@.2),
    {
        let len = packets.len();
        if let Some(_) = self.secret_key {
            let mut j: usize = 0;
            while j < len
                invariant
                    len == packets@.len(),
                    old(self).secret_key is Some,
                    *self == *old(self),
                    packets@ == old(packets)@,
                    0 <= j <= len,
                    forall|k: int|
                        0 <= k < j ==> (#[trigger] packets@[k]).payload.payload@.len()
                            <= MAX_RAW_MESSAGE_SIZE_AES_GCM_128,
                decreases len - j,
            {
                let size = packets[j].payload.payload.len();
                if size > MAX_RAW_MESSAGE_SIZE_AES_GCM_128 {
                    return Err(PacketError::Size(PacketSizeError::new(size)));
                }
                j = j + 1;
            }
        }
        let ghost before = packets@;
        let ghost cache0 = self.used_ivs@;
        let ghost live0 = live_entries(cache0, now as int);
        let ghost t = now as int;
        let ghost expiration = self.nonce_window();
        proof {
            if self.secret_key is Some && Self::has_oversized(before) {
                let k = choose|k: int|
                    0 <= k < before.len() && (#[trigger] before[k]).payload.payload@.len()
                        > MAX_RAW_MESSAGE_SIZE_AES_GCM_128;
                assert(before[k].payload.payload@.len() <= MAX_RAW_MESSAGE_SIZE_AES_GCM_128);
            }
        }
        if self.secret_key.is_some() {
            self.used_ivs.purge_expired(now);
        }
        proof {
            lemma_live_entries_unexpired(cache0, t);
            assert(live0 + nonce_entries(before.subrange(0, 0), expiration, now) =~= live0);
            assert forall|n: Seq<u8>| #[trigger] nonce_in_use(cache0, n, t) implies nonce_in_use(
                live0,
                n,
                t,
            ) by {
                lemma_live_entries_listed(cache0, t, n);
                let k = choose|k: int| 0 <= k < live0.len() && (#[trigger] live0[k]).0 == n;
                assert(!iv_expired(live0[k], t));
            }
        }
        let mut i: usize = 0;
        while i < len
            invariant
                expiration == old(self).nonce_window(),
                expiration > 0,
                cache0 == old(self).used_ivs@,
                live0 == live_entries(cache0, t),
                forall|k: int| 0 <= k < live0.len() ==> !iv_expired(#[trigger] live0[k], t),
                t == now as int,
                len == packets@.len(),
                len == before.len(),
                before == old(packets)@,
                self.same_except_tx_state(old(self)),
                self.packet_tx_vec@ == old(self).packet_tx_vec@,
                0 <= i <= len,
                old(self).secret_key is Some ==> !Self::has_oversized(before),
                self.secret_key is None ==> self.used_ivs@ == cache0,
                forall|n: Seq<u8>|
                    #[trigger] nonce_in_use(cache0, n, t) ==> nonce_in_use(live0, n, t),
                self.secret_key is Some ==> self.used_ivs@ == live0 + nonce_entries(
                    packets@.subrange(0, i as int),
                    expiration,
                    now,
                ),
                self.secret_key is Some ==> forall|k: int|
                    0 <= k < i ==> before[k].payload.payload@.len()
                        <= MAX_RAW_MESSAGE_SIZE_AES_GCM_128,
                forall|n: Seq<u8>|
                    #[trigger] nonce_in_use(cache0, n, t) ==> nonce_in_use(self.used_ivs@, n, t),
                self.secret_key is Some ==> forall|k: int|
                    0 <= k < i ==> !nonce_in_use(
                        cache0,
                        payload_nonce(#[trigger] packets@[k]@.2),
                        t,
                    ),
                self.secret_key is Some ==> forall|k: int|
                    0 <= k < i ==> nonce_in_use(
                        self.used_ivs@,
                        payload_nonce(#[trigger] packets@[k]@.2),
                        t,
                    ),
                self.secret_key is Some ==> forall|k: int, m: int|
                    0 <= m < k < i ==> payload_nonce(#[trigger] packets@[k]@.2) != payload_nonce(
                        #[trigger] packets@[m]@.2,
                    ),
                forall|k: int|
                    0 <= k < len ==> (#[trigger] packets@[k]).header == before[k].header
                        && packets@[k].payload.payload_crc == before[k].payload.payload_crc,
                forall|k: int|
                    0 <= k < i ==> encrypted_under(
                        old(self).secret_key,
                        before[k].payload.payload@,
                        (#[trigger] packets@[k]).payload.payload@,
                    ),
                forall|k: int| i <= k < len ==> #[trigger] packets@[k] == before[k],
            decreases len - i,
        {
            let ghost cur = packets@;
            let ghost cache = self.used_ivs@;
            let mut packet = packets.remove(i);
            assert(packet == before[i as int]);
            proof {
                if self.secret_key is Some {
                    lemma_cache_entries_live(live0, cur.subrange(0, i as int), expiration, now);
                    lemma_live_entries_of_live(cache, t);
                }
            }
            let r = self.encrypt_packet(&mut packet, now);
            packets.insert(i, packet);
            assert(packets@ =~= cur.update(i as int, packet));
            if r.is_err() {
                proof {
                    assert(self.secret_key is Some);
                    assert(packets@.subrange(0, i as int) =~= cur.subrange(0, i as int));
                    assert(self.used_ivs@ == cache);
                    assert(packets@[i as int]@ == before[i as int]@);
                    assert(forall|k: int| i < k < len ==> #[trigger] packets@[k] == before[k]);
                    assert(encrypted_prefix(*old(self), *self, before, packets@, i as int, now));
                }
                return r;
            }
            proof {
                if let Some(key) = self.secret_key {
                    let nonce = payload_nonce(packet@.2);
                    let e: IvView = (nonce, expiration, now);
                    assert forall|n: Seq<u8>| nonce_in_use(cache, n, t) implies #[trigger] nonce_in_use(
                        self.used_ivs@,
                        n,
                        t,
                    ) by {
                        lemma_in_use_survives_purge(cache, e, n, t);
                    }
                    let s = self.used_ivs@;
                    assert(s[s.len() - 1] == e);
                    assert(nonce_in_use(s, nonce, t));
                    assert(packets@.subrange(0, i as int + 1) =~= cur.subrange(0, i as int).push(
                        packet,
                    ));
                    assert(live0 + nonce_entries(packets@.subrange(0, i as int + 1), expiration, now)
                        =~= (live0 + nonce_entries(cur.subrange(0, i as int), expiration, now)).push(
                        e,
                    ));
                }
            }
            i = i + 1;
        }
        proof {
            assert(packets@.subrange(0, len as int) =~= packets@);
            if self.secret_key is Some && Self::has_oversized(before) {
                let k = choose|k: int|
                    0 <= k < before.len() && (#[trigger] before[k]).payload.payload@.len()
                        > MAX_RAW_MESSAGE_SIZE_AES_GCM_128;
                assert(before[k].payload.payload@.len() <= MAX_RAW_MESSAGE_SIZE_AES_GCM_128);
            }
        }
        Ok(())
    }
}

/// Whether `after` is `before` with the packets below `j` encrypted under
/// the registry's key and their nonces recorded at `now`, and the others
/// untouched.
pub open spec fn encrypted_prefix(
    old_registry: ArpRegistry,
    new_registry: ArpRegistry,
    before: Seq<LoRaPacket>,
    after: Seq<LoRaPacket>,
    j: int,
    now: u64,
) -> bool {
    &&& forall|k: int|
        0 <= k < j ==> encrypted_under(
            old_registry.secret_key,
            before[k].payload.payload@,
            (#[trigger] after[k]).payload.payload@,
        )
    &&& forall|k: int| j <= k < before.len() ==> (#[trigger] after[k])@ == before[k]@
    &&& new_registry.used_ivs@ == live_entries(old_registry.used_ivs@, now as int) + nonce_entries(
        after.subrange(0, j),
        old_registry.nonce_window(),
        now,
    )
}

/// Whether `sealed` is `plain` encrypted under `key` with some nonce
/// appended, or `plain` itself when there is no key.
pub open spec fn encrypted_under(key: Option<[u8; 16]>, plain: Seq<u8>, sealed: Seq<u8>) -> bool {
    match key {
        Some(k) => exists|nonce: Seq<u8>|
            nonce.len() == NONCE_SIZE && sealed == #[trigger] sealed_payload(k@, nonce, plain),
        None => sealed == plain,
    }
}

} // verus!

verus! {

/// The fragments of a message of length `L` split at capacity `C` number
/// `ceil(L / C)`; all carry that same total count, and their indices run
/// over `0..count` with each index carried by exactly one fragment.
pub proof fn lemma_fragmentation_indices(registry: ArpRegistry, tx: Seq<PacketView>, source: u8)
    requires
        registry.address is Some,
        registry.can_disassemble(),
        registry.holds_fragments_of_message(tx, source),
    ensures
        tx.len() == chunk_count(
            registry.tx_message@.len() as int,
            fragment_capacity(registry.secret_key is Some),
        ),
        forall|i: int| 0 <= i < tx.len() ==> (#[trigger] tx[i]).0.total_number_of_packets == tx.len(),
        forall|i: int| 0 <= i < tx.len() ==> (#[trigger] tx[i]).0.message_packet_num == i,
        forall|i: int, j: int|
            0 <= i < tx.len() && 0 <= j < tx.len() && i != j ==> (#[trigger] tx[i]).0.message_packet_num
                != (#[trigger] tx[j]).0.message_packet_num,
        forall|k: u8| (k as int) < tx.len() ==> #[trigger] has_fragment(tx, k),
{
    let n = tx.len();
    assert(n <= MAX_FRAGMENTS);
    assert forall|k: u8| (k as int) < n implies #[trigger] has_fragment(tx, k) by {
        assert(tx[k as int].0.message_packet_num == k);
    }
}

} // verus!

verus! {

/// Whether a message may be reassembled with fragments missing.
#[derive(Debug, Clone, Copy, PartialEq, Eq, Structural)]
pub enum AssemblyPolicy {
    /// Reassemble only once every fragment has arrived without fault.
    RequireComplete,
    /// Reassemble whatever fragments arrived without fault.
    BestEffort,
}

impl ArpRegistry {
    /// Reassembles the inbound message if `policy` allows it for the
    /// fragments received so far; returns whether it did. When it does not,
    /// nothing changes.
    pub fn assemble_with_policy(&mut self, policy: AssemblyPolicy) -> (r: bool)
        ensures
            r == (policy == AssemblyPolicy::BestEffort || old(self).message_complete()),
            r ==> final(self).rx_message@ == assembled_message(
                packet_views(old(self).packet_rx_vec@),
                old(self).faulty_packets@,
            ),
            !r ==> final(self).rx_message@ == old(self).rx_message@,
            final(self).same_except_rx_state(old(self)),
            final(self).packet_rx_vec@ == old(self).packet_rx_vec@,
            final(self).faulty_packets@ == old(self).faulty_packets@,
    {
        let allowed = match policy {
            AssemblyPolicy::BestEffort => true,
            AssemblyPolicy::RequireComplete => self.is_message_complete(),
        };
        if allowed {
            self.assemble_message_from_packets();
        }
        allowed
    }
}

} // verus!
