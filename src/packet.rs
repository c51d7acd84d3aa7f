//! Wire format of a radio packet: a 7-byte header, a 2-byte payload CRC and
//! up to `MAX_PAYLOAD_SIZE` payload bytes, all multi-byte fields big-endian.
use vstd::prelude::*;
use crate::bytes::{append_bytes, copy_range};
use crate::crypto::{
    aead_open, aead_seal, aes128_gcm_seal, MAX_AEAD_PLAINTEXT, NONCE_SIZE, TAG_SIZE,
};

verus! {

/// Largest number of bytes the radio's FIFO holds in one packet.
pub const MAX_PACKET_SIZE: usize = 255;

/// Size of the encoded header.
pub const HEADER_SIZE: usize = 7;

/// Size of the CRC that prefixes the payload on the wire.
pub const PAYLOAD_CRC_SIZE: usize = 2;

/// Largest payload: the packet minus the header and the payload CRC.
pub const MAX_PAYLOAD_SIZE: usize = MAX_PACKET_SIZE - HEADER_SIZE - PAYLOAD_CRC_SIZE;

/// Largest encoded payload section: the payload CRC and the payload.
pub const MAX_PAYLOAD_SECTION_SIZE: usize = MAX_PAYLOAD_SIZE + PAYLOAD_CRC_SIZE;

/// Smallest encoded packet: a header and an empty payload section.
pub const MIN_PACKET_SIZE: usize = HEADER_SIZE + PAYLOAD_CRC_SIZE;

/// Size of the authentication tag that AES-128-GCM appends.
pub const AES_GCM_128_TAG_SIZE: u8 = 16;

/// Size of the AES-128-GCM nonce carried at the end of an encrypted payload.
pub const AES_GCM_128_NONCE_SIZE: u8 = 12;

/// Payload bytes left beside a nonce.
pub const MAX_MESSAGE_SLICE_SIZE: usize = MAX_PAYLOAD_SIZE - 12;

/// Largest plaintext that still fits a payload once the tag and the nonce are added.
pub const MAX_RAW_MESSAGE_SIZE_AES_GCM_128: usize = MAX_PAYLOAD_SIZE - 12 - 16;

/// The CRC-16/KERMIT checksum of a byte sequence.
pub uninterp spec fn crc16_kermit(data: Seq<u8>) -> u16;

/// Relies on `crc::Crc::<u16>::checksum` with the `CRC_16_KERMIT` parameters:
/// its value depends on the bytes alone.
#[verifier::external_body]
fn kermit_checksum(data: &[u8]) -> (r: u16)
    ensures
        r == crc16_kermit(data@),
{
    crc::Crc::<u16>::new(&crc::CRC_16_KERMIT).checksum(data)
}

/// High byte of a big-endian `u16`.
pub open spec fn high_byte(v: u16) -> u8 {
    (v / 256) as u8
}

/// Low byte of a big-endian `u16`.
pub open spec fn low_byte(v: u16) -> u8 {
    (v % 256) as u8
}

/// The `u16` whose big-endian bytes are `hi`, `lo`.
pub open spec fn be_u16(hi: u8, lo: u8) -> u16 {
    (hi as int * 256 + lo as int) as u16
}

fn split_u16(v: u16) -> (r: (u8, u8))
    ensures
        r.0 == high_byte(v),
        r.1 == low_byte(v),
{
    ((v / 256) as u8, (v % 256) as u8)
}

fn join_u16(hi: u8, lo: u8) -> (r: u16)
    ensures
        r == be_u16(hi, lo),
{
    (hi as u16) * 256 + (lo as u16)
}

/// Splitting a `u16` into its bytes and joining them again gives it back.
pub proof fn lemma_u16_bytes_round_trip(v: u16)
    ensures
        be_u16(high_byte(v), low_byte(v)) == v,
{
}

/// A payload longer than `MAX_PAYLOAD_SIZE` was given.
#[derive(Debug, Clone, Copy, PartialEq, Eq, Structural)]
pub struct PacketPayloadSizeError {
    pub payload_size: usize,
}

impl PacketPayloadSizeError {
    pub fn new(payload_size: usize) -> (r: Self)
        ensures
            r.payload_size == payload_size,
    {
        PacketPayloadSizeError { payload_size }
    }
}

/// A byte sequence of a size that no header, payload or packet has.
#[derive(Debug, Clone, Copy, PartialEq, Eq, Structural)]
pub struct PacketSizeError {
    pub packet_size: usize,
}

impl PacketSizeError {
    pub fn new(packet_size: usize) -> (r: Self)
        ensures
            r.packet_size == packet_size,
    {
        PacketSizeError { packet_size }
    }
}

/// The authenticated-encryption primitive refused the payload.
#[derive(Debug, Clone, Copy, PartialEq, Eq, Structural)]
pub struct PacketEncryptionError {}

/// The payload did not authenticate under the key (wrong key or tampering).
#[derive(Debug, Clone, Copy, PartialEq, Eq, Structural)]
pub struct PacketDecryptionError {}

/// A header or payload CRC did not match.
#[derive(Debug, Clone, Copy, PartialEq, Eq, Structural)]
pub struct CRCError {}

/// Header of a packet: addressing, fragment position and payload size,
/// protected by a CRC over its first five bytes.
#[derive(Debug, Clone, Copy, PartialEq, Eq, Structural)]
pub struct LoRaPacketHeader {
    pub source_addr: u8,
    pub destination_addr: u8,
    pub message_packet_num: u8,
    pub total_number_of_packets: u8,
    pub payload_size: u8,
    pub header_crc: u16,
}

impl LoRaPacketHeader {
    /// The five bytes that the header CRC covers.
    pub open spec fn crc_input(self) -> Seq<u8> {
        seq![
            self.source_addr,
            self.destination_addr,
            self.message_packet_num,
            self.total_number_of_packets,
            self.payload_size,
        ]
    }

    /// The seven bytes of the header on the wire.
    pub open spec fn wire_bytes(self) -> Seq<u8> {
        self.crc_input() + seq![high_byte(self.header_crc), low_byte(self.header_crc)]
    }

    /// The header that seven wire bytes encode.
    pub open spec fn from_wire(b: Seq<u8>) -> LoRaPacketHeader
        recommends
            b.len() == HEADER_SIZE,
    {
        LoRaPacketHeader {
            source_addr: b[0],
            destination_addr: b[1],
            message_packet_num: b[2],
            total_number_of_packets: b[3],
            payload_size: b[4],
            header_crc: be_u16(b[5], b[6]),
        }
    }

    /// A header whose payload size fits a packet.
    pub open spec fn is_valid(self) -> bool {
        self.payload_size as int <= MAX_PAYLOAD_SIZE
    }

    /// Whether the stored CRC matches the first five bytes.
    pub open spec fn crc_matches(self) -> bool {
        self.header_crc == crc16_kermit(self.crc_input())
    }

    /// Builds a header; fails when the payload size exceeds `MAX_PAYLOAD_SIZE`.
    pub fn new(
        source_addr: u8,
        destination_addr: u8,
        message_packet_num: u8,
        total_number_of_packets: u8,
        payload_size: u8,
        header_crc: u16,
    ) -> (r: Result<Self, PacketPayloadSizeError>)
        ensures
            payload_size as int <= MAX_PAYLOAD_SIZE ==> r == Ok::<Self, PacketPayloadSizeError>(
                LoRaPacketHeader {
                    source_addr,
                    destination_addr,
                    message_packet_num,
                    total_number_of_packets,
                    payload_size,
                    header_crc,
                },
            ),
            payload_size as int > MAX_PAYLOAD_SIZE ==> r == Err::<Self, PacketPayloadSizeError>(
                PacketPayloadSizeError { payload_size: payload_size as usize },
            ),
    {
        if payload_size as usize > MAX_PAYLOAD_SIZE {
            return Err(PacketPayloadSizeError::new(payload_size as usize));
        }
        Ok(LoRaPacketHeader {
            source_addr,
            destination_addr,
            message_packet_num,
            total_number_of_packets,
            payload_size,
            header_crc,
        })
    }

    /// Decodes a header from its seven wire bytes.
    pub fn new_from_slice(slice: [u8; 7]) -> (r: Result<Self, PacketSizeError>)
        ensures
            r == Ok::<Self, PacketSizeError>(Self::from_wire(slice@)),
    {
        Ok(LoRaPacketHeader {
            source_addr: slice[0],
            destination_addr: slice[1],
            message_packet_num: slice[2],
            total_number_of_packets: slice[3],
            payload_size: slice[4],
            header_crc: join_u16(slice[5], slice[6]),
        })
    }

    /// Decodes a header from a byte vector; fails unless it holds exactly
    /// `HEADER_SIZE` bytes.
    pub fn try_from(value: Vec<u8>) -> (r: Result<Self, PacketSizeError>)
        ensures
            value@.len() == HEADER_SIZE ==> r == Ok::<Self, PacketSizeError>(
                Self::from_wire(value@),
            ),
            value@.len() != HEADER_SIZE ==> r == Err::<Self, PacketSizeError>(
                PacketSizeError { packet_size: value@.len() as usize },
            ),
    {
        if value.len() != HEADER_SIZE {
            return Err(PacketSizeError::new(value.len()));
        }
        Ok(LoRaPacketHeader {
            source_addr: value[0],
            destination_addr: value[1],
            message_packet_num: value[2],
            total_number_of_packets: value[3],
            payload_size: value[4],
            header_crc: join_u16(value[5], value[6]),
        })
    }

    /// Encodes the header into its seven wire bytes.
    pub fn to_array(&self) -> (r: [u8; 7])
        ensures
            r@ == self.wire_bytes(),
    {
        let (hi, lo) = split_u16(self.header_crc);
        let r = [
            self.source_addr,
            self.destination_addr,
            self.message_packet_num,
            self.total_number_of_packets,
            self.payload_size,
            hi,
            lo,
        ];
        assert(r@ =~= self.wire_bytes());
        r
    }

    /// Encodes the header into a vector of its seven wire bytes.
    pub fn to_vec(&self) -> (r: Vec<u8>)
        ensures
            r@ == self.wire_bytes(),
    {
        let (hi, lo) = split_u16(self.header_crc);
        let r = vec![
            self.source_addr,
            self.destination_addr,
            self.message_packet_num,
            self.total_number_of_packets,
            self.payload_size,
            hi,
            lo,
        ];
        assert(r@ =~= self.wire_bytes());
        r
    }

    /// Computes the CRC over the first five bytes and stores it in the header.
    pub fn calculate_header_crc(&mut self)
        ensures
            final(self).header_crc == crc16_kermit(old(self).crc_input()),
            final(self).crc_input() == old(self).crc_input(),
    {
        let bytes: [u8; 5] = [
            self.source_addr,
            self.destination_addr,
            self.message_packet_num,
            self.total_number_of_packets,
            self.payload_size,
        ];
        assert(bytes@ =~= self.crc_input());
        self.header_crc = kermit_checksum(&bytes);
    }

    /// Recomputes the CRC over the first five bytes and compares it with the stored one.
    pub fn check_header_crc(&self) -> (r: bool)
        ensures
            r == self.crc_matches(),
    {
        let bytes: [u8; 5] = [
            self.source_addr,
            self.destination_addr,
            self.message_packet_num,
            self.total_number_of_packets,
            self.payload_size,
        ];
        assert(bytes@ =~= self.crc_input());
        kermit_checksum(&bytes) == self.header_crc
    }
}

/// Decoding the encoding of a header gives the header back.
pub proof fn lemma_header_round_trip(h: LoRaPacketHeader)
    ensures
        h.wire_bytes().len() == HEADER_SIZE,
        LoRaPacketHeader::from_wire(h.wire_bytes()) == h,
{
    lemma_u16_bytes_round_trip(h.header_crc);
}

/// Right after the CRC is calculated, the check accepts the header.
pub proof fn lemma_calculated_header_crc_checks(before: LoRaPacketHeader, after: LoRaPacketHeader)
    requires
        after.header_crc == crc16_kermit(before.crc_input()),
        after.crc_input() == before.crc_input(),
    ensures
        after.crc_matches(),
{
}

} // verus!

verus! {

/// Payload of a packet: its CRC and its bytes (plaintext, or ciphertext,
/// tag and nonce once encrypted).
#[derive(Debug, Clone, PartialEq, Eq)]
pub struct LoRaPacketPayload {
    pub payload_crc: u16,
    pub payload: Vec<u8>,
}

impl View for LoRaPacketPayload {
    type V = (u16, Seq<u8>);

    open spec fn view(&self) -> (u16, Seq<u8>) {
        (self.payload_crc, self.payload@)
    }
}

/// The payload section on the wire: the CRC, big-endian, then the bytes.
pub open spec fn payload_wire_bytes(v: (u16, Seq<u8>)) -> Seq<u8> {
    seq![high_byte(v.0), low_byte(v.0)] + v.1
}

/// The payload that a wire payload section of at least two bytes encodes.
pub open spec fn payload_from_wire(b: Seq<u8>) -> (u16, Seq<u8>) {
    (be_u16(b[0], b[1]), b.subrange(2, b.len() as int))
}

/// Whether the stored payload CRC matches the payload bytes.
pub open spec fn payload_crc_matches(v: (u16, Seq<u8>)) -> bool {
    v.0 == crc16_kermit(v.1)
}

impl LoRaPacketPayload {
    /// A payload with the given bytes and a zero CRC; fails when there are
    /// more than `MAX_PAYLOAD_SIZE` bytes.
    pub fn new(payload: Vec<u8>) -> (r: Result<Self, PacketPayloadSizeError>)
        ensures
            payload@.len() <= MAX_PAYLOAD_SIZE ==> r is Ok && r->Ok_0@ == (0u16, payload@),
            payload@.len() > MAX_PAYLOAD_SIZE ==> r == Err::<Self, PacketPayloadSizeError>(
                PacketPayloadSizeError { payload_size: payload@.len() as usize },
            ),
    {
        if payload.len() > MAX_PAYLOAD_SIZE {
            return Err(PacketPayloadSizeError::new(payload.len()));
        }
        Ok(LoRaPacketPayload { payload_crc: 0, payload })
    }

    /// A payload holding a copy of `slice` and a zero CRC; fails when the
    /// slice is longer than `MAX_PAYLOAD_SIZE`.
    pub fn new_from_slice(slice: &[u8]) -> (r: Result<Self, PacketSizeError>)
        ensures
            slice@.len() <= MAX_PAYLOAD_SIZE ==> r is Ok && r->Ok_0@ == (0u16, slice@),
            slice@.len() > MAX_PAYLOAD_SIZE ==> r == Err::<Self, PacketSizeError>(
                PacketSizeError { packet_size: slice@.len() as usize },
            ),
    {
        if slice.len() > MAX_PAYLOAD_SIZE {
            return Err(PacketSizeError::new(slice.len()));
        }
        let payload = copy_range(slice, 0, slice.len());
        assert(payload@ =~= slice@);
        Ok(LoRaPacketPayload { payload_crc: 0, payload })
    }

    /// Decodes a wire payload section: two CRC bytes, then the payload.
    /// Fails when it is shorter than the CRC or longer than
    /// `MAX_PAYLOAD_SECTION_SIZE`.
    pub fn try_from(value: Vec<u8>) -> (r: Result<Self, PacketSizeError>)
        ensures
            PAYLOAD_CRC_SIZE <= value@.len() <= MAX_PAYLOAD_SECTION_SIZE ==> r is Ok && r->Ok_0@
                == payload_from_wire(value@),
            !(PAYLOAD_CRC_SIZE <= value@.len() <= MAX_PAYLOAD_SECTION_SIZE) ==> r == Err::<
                Self,
                PacketSizeError,
            >(PacketSizeError { packet_size: value@.len() as usize }),
    {
        if value.len() < PAYLOAD_CRC_SIZE || value.len() > MAX_PAYLOAD_SECTION_SIZE {
            return Err(PacketSizeError::new(value.len()));
        }
        let payload_crc = join_u16(value[0], value[1]);
        let payload = copy_range(value.as_slice(), 2, value.len());
        Ok(LoRaPacketPayload { payload_crc, payload })
    }

    /// Encodes the payload section: the CRC, big-endian, then the bytes.
    pub fn to_vec(&self) -> (r: Vec<u8>)
        ensures
            r@ == payload_wire_bytes(self@),
    {
        let (hi, lo) = split_u16(self.payload_crc);
        let mut r: Vec<u8> = vec![hi, lo];
        append_bytes(&mut r, self.payload.as_slice());
        assert(r@ =~= payload_wire_bytes(self@));
        r
    }

    /// Computes the CRC of the payload bytes and stores it.
    pub fn calculate_payload_crc(&mut self)
        ensures
            final(self).payload@ == old(self).payload@,
            final(self).payload_crc == crc16_kermit(old(self).payload@),
    {
        self.payload_crc = kermit_checksum(self.payload.as_slice());
    }

    /// Recomputes the CRC of the payload bytes and compares it with the stored one.
    pub fn check_payload_crc(&self) -> (r: bool)
        ensures
            r == payload_crc_matches(self@),
    {
        kermit_checksum(self.payload.as_slice()) == self.payload_crc
    }
}

/// Decoding the encoding of a payload gives the payload back.
pub proof fn lemma_payload_round_trip(v: (u16, Seq<u8>))
    ensures
        payload_wire_bytes(v).len() == v.1.len() + PAYLOAD_CRC_SIZE,
        payload_from_wire(payload_wire_bytes(v)) == v,
{
    lemma_u16_bytes_round_trip(v.0);
    assert(payload_wire_bytes(v).subrange(2, payload_wire_bytes(v).len() as int) =~= v.1);
}

} // verus!

verus! {

/// Why an operation on a packet failed.
#[derive(Debug, Clone, Copy, PartialEq, Eq, Structural)]
pub enum PacketError {
    Size(PacketSizeError),
    Encryption(PacketEncryptionError),
    Decryption(PacketDecryptionError),
    Crc(CRCError),
    /// No unused nonce was found within the allowed number of draws.
    NonceExhausted,
}

/// A packet: a header and a payload.
#[derive(Debug, Clone, PartialEq, Eq)]
pub struct LoRaPacket {
    pub header: LoRaPacketHeader,
    pub payload: LoRaPacketPayload,
}

/// Abstract value of a packet: header, payload CRC and payload bytes.
pub type PacketView = (LoRaPacketHeader, u16, Seq<u8>);

impl View for LoRaPacket {
    type V = PacketView;

    open spec fn view(&self) -> PacketView {
        (self.header, self.payload.payload_crc, self.payload.payload@)
    }
}

/// The packet on the wire: header bytes, then the payload section.
pub open spec fn packet_wire_bytes(v: PacketView) -> Seq<u8> {
    v.0.wire_bytes() + payload_wire_bytes((v.1, v.2))
}

/// The packet that a wire byte sequence of at least `MIN_PACKET_SIZE` bytes encodes.
pub open spec fn packet_from_wire(b: Seq<u8>) -> PacketView {
    let p = payload_from_wire(b.subrange(HEADER_SIZE as int, b.len() as int));
    (LoRaPacketHeader::from_wire(b.subrange(0, HEADER_SIZE as int)), p.0, p.1)
}

/// Whether a wire byte sequence has the size of a packet.
pub open spec fn is_packet_size(n: int) -> bool {
    MIN_PACKET_SIZE <= n <= MAX_PACKET_SIZE
}

/// The payload that encrypting `plaintext` under `key` and `nonce` produces:
/// ciphertext, tag, then the nonce.
pub open spec fn sealed_payload(key: Seq<u8>, nonce: Seq<u8>, plaintext: Seq<u8>) -> Seq<u8> {
    aes128_gcm_seal(key, nonce, plaintext) + nonce
}

/// Whether an encrypted payload (ciphertext, tag, nonce) authenticates
/// under `key` as the encryption of `plaintext`.
pub open spec fn opens_to(key: Seq<u8>, payload: Seq<u8>, plaintext: Seq<u8>) -> bool {
    &&& payload.len() == plaintext.len() + TAG_SIZE + NONCE_SIZE
    &&& plaintext.len() <= MAX_AEAD_PLAINTEXT
    &&& aes128_gcm_seal(
        key,
        payload.subrange(payload.len() - NONCE_SIZE, payload.len() as int),
        plaintext,
    ) == payload.subrange(0, payload.len() - NONCE_SIZE)
}

impl LoRaPacket {
    pub fn new(header: LoRaPacketHeader, payload: LoRaPacketPayload) -> (r: Self)
        ensures
            r.header == header,
            r.payload@ == payload@,
    {
        LoRaPacket { header, payload }
    }

    /// Decodes a packet from its wire bytes; fails when they are more than
    /// `MAX_PACKET_SIZE` or fewer than `MIN_PACKET_SIZE`.
    pub fn new_from_slice(slice: &[u8]) -> (r: Result<Self, PacketSizeError>)
        ensures
            is_packet_size(slice@.len() as int) ==> r is Ok && r->Ok_0@ == packet_from_wire(
                slice@,
            ),
            !is_packet_size(slice@.len() as int) ==> r == Err::<Self, PacketSizeError>(
                PacketSizeError { packet_size: slice@.len() as usize },
            ),
    {
        if slice.len() > MAX_PACKET_SIZE || slice.len() < MIN_PACKET_SIZE {
            return Err(PacketSizeError::new(slice.len()));
        }
        let header_bytes = copy_range(slice, 0, HEADER_SIZE);
        let payload_bytes = copy_range(slice, HEADER_SIZE, slice.len());
        let header = LoRaPacketHeader::try_from(header_bytes);
        let payload = LoRaPacketPayload::try_from(payload_bytes);
        match (header, payload) {
            (Ok(header), Ok(payload)) => Ok(LoRaPacket { header, payload }),
            _ => Err(PacketSizeError::new(slice.len())),
        }
    }

    /// Decodes a packet from a vector of wire bytes, as `new_from_slice`.
    pub fn try_from(value: Vec<u8>) -> (r: Result<Self, PacketSizeError>)
        ensures
            is_packet_size(value@.len() as int) ==> r is Ok && r->Ok_0@ == packet_from_wire(
                value@,
            ),
            !is_packet_size(value@.len() as int) ==> r == Err::<Self, PacketSizeError>(
                PacketSizeError { packet_size: value@.len() as usize },
            ),
    {
        Self::new_from_slice(value.as_slice())
    }

    /// Encodes the packet: header bytes, then the payload section.
    pub fn to_vec(&self) -> (r: Vec<u8>)
        ensures
            r@ == packet_wire_bytes(self@),
    {
        let mut r = self.header.to_vec();
        let p = self.payload.to_vec();
        append_bytes(&mut r, p.as_slice());
        r
    }

    /// A copy of the packet.
    pub fn duplicate(&self) -> (r: Self)
        ensures
            r@ == self@,
    {
        LoRaPacket {
            header: self.header,
            payload: LoRaPacketPayload {
                payload_crc: self.payload.payload_crc,
                payload: self.get_payload(),
            },
        }
    }

    pub fn get_source_address(&self) -> (r: u8)
        ensures
            r == self.header.source_addr,
    {
        self.header.source_addr
    }

    pub fn get_destination_address(&self) -> (r: u8)
        ensures
            r == self.header.destination_addr,
    {
        self.header.destination_addr
    }

    pub fn get_message_packet_num(&self) -> (r: u8)
        ensures
            r == self.header.message_packet_num,
    {
        self.header.message_packet_num
    }

    pub fn get_total_number_of_packets(&self) -> (r: u8)
        ensures
            r == self.header.total_number_of_packets,
    {
        self.header.total_number_of_packets
    }

    pub fn get_payload_size(&self) -> (r: u8)
        ensures
            r == self.header.payload_size,
    {
        self.header.payload_size
    }

    pub fn get_header_crc(&self) -> (r: u16)
        ensures
            r == self.header.header_crc,
    {
        self.header.header_crc
    }

    pub fn get_payload_crc(&self) -> (r: u16)
        ensures
            r == self.payload.payload_crc,
    {
        self.payload.payload_crc
    }

    /// A copy of the payload bytes.
    pub fn get_payload(&self) -> (r: Vec<u8>)
        ensures
            r@ == self.payload.payload@,
    {
        copy_range(self.payload.payload.as_slice(), 0, self.payload.payload.len())
    }

    pub fn get_payload_ref(&self) -> (r: &Vec<u8>)
        ensures
            r@ == self.payload.payload@,
    {
        &self.payload.payload
    }

    /// Computes the header CRC and stores it in the header.
    pub fn calculate_header_crc(&mut self)
        ensures
            final(self).header.crc_input() == old(self).header.crc_input(),
            final(self).header.header_crc == crc16_kermit(old(self).header.crc_input()),
            final(self).payload@ == old(self).payload@,
    {
        self.header.calculate_header_crc();
    }

    /// Whether the header CRC matches the header.
    pub fn check_header_crc(&self) -> (r: bool)
        ensures
            r == self.header.crc_matches(),
    {
        self.header.check_header_crc()
    }

    /// Whether the payload CRC matches the payload bytes.
    pub fn check_payload_crc(&self) -> (r: bool)
        ensures
            r == payload_crc_matches(self.payload@),
    {
        self.payload.check_payload_crc()
    }

    /// Encrypts the payload with AES-128-GCM under `key` and `nonce` and
    /// appends the nonce. When the result would not fit a packet the payload
    /// is left as it was and `PacketError::Size` is returned.
    pub fn encrypt(&mut self, key: &[u8; 16], nonce: &[u8]) -> (r: Result<(), PacketError>)
        requires
            nonce@.len() == NONCE_SIZE,
        ensures
            final(self).header == old(self).header,
            final(self).payload.payload_crc == old(self).payload.payload_crc,
            old(self).payload.payload@.len() <= MAX_RAW_MESSAGE_SIZE_AES_GCM_128 ==> r is Ok,
            r is Ok ==> final(self).payload.payload@ == sealed_payload(
                key@,
                nonce@,
                old(self).payload.payload@,
            ),
            r is Ok ==> final(self).payload.payload@.len() == old(self).payload.payload@.len()
                + TAG_SIZE + NONCE_SIZE,
            MAX_RAW_MESSAGE_SIZE_AES_GCM_128 < old(self).payload.payload@.len()
                <= MAX_AEAD_PLAINTEXT ==> r == Err::<(), PacketError>(
                PacketError::Size(
                    PacketSizeError { packet_size: old(self).payload.payload@.len() as usize },
                ),
            ),
            old(self).payload.payload@.len() > MAX_RAW_MESSAGE_SIZE_AES_GCM_128 ==> r is Err,
            old(self).payload.payload@.len() > MAX_AEAD_PLAINTEXT ==> r == Err::<(), PacketError>(
                PacketError::Encryption(PacketEncryptionError {  }),
            ),
            r is Err ==> final(self)@ == old(self)@,
    {
        let sealed = aead_seal(key, nonce, self.payload.payload.as_slice());
        match sealed {
            None => Err(PacketError::Encryption(PacketEncryptionError {  })),
            Some(mut ciphertext) => {
                if ciphertext.len() > MAX_PAYLOAD_SIZE - NONCE_SIZE {
                    return Err(
                        PacketError::Size(PacketSizeError::new(self.payload.payload.len())),
                    );
                }
                append_bytes(&mut ciphertext, nonce);
                self.payload.payload = ciphertext;
                Ok(())
            },
        }
    }

    /// Decrypts a payload made of ciphertext, tag and nonce under `key`.
    /// Fails with `PacketError::Decryption`, leaving the packet as it was,
    /// when the payload does not authenticate under the key.
    pub fn decrypt(&mut self, key: &[u8; 16]) -> (r: Result<(), PacketError>)
        ensures
            final(self).header == old(self).header,
            final(self).payload.payload_crc == old(self).payload.payload_crc,
            r is Ok ==> opens_to(key@, old(self).payload.payload@, final(self).payload.payload@),
            forall|p: Seq<u8>|
                #[trigger] opens_to(key@, old(self).payload.payload@, p) ==> r is Ok
                    && final(self).payload.payload@ == p,
            r is Err ==> r == Err::<(), PacketError>(
                PacketError::Decryption(PacketDecryptionError {  }),
            ),
            r is Err ==> final(self)@ == old(self)@,
            r is Err ==> forall|p: Seq<u8>| !opens_to(key@, old(self).payload.payload@, p),
            old(self).payload.payload@.len() < TAG_SIZE + NONCE_SIZE ==> r is Err,
    {
        let len = self.payload.payload.len();
        if len < TAG_SIZE + NONCE_SIZE || len as u64 - 28 > MAX_AEAD_PLAINTEXT {
            return Err(PacketError::Decryption(PacketDecryptionError {  }));
        }
        let ciphertext = copy_range(self.payload.payload.as_slice(), 0, len - NONCE_SIZE);
        let nonce = copy_range(self.payload.payload.as_slice(), len - NONCE_SIZE, len);
        match aead_open(key, nonce.as_slice(), ciphertext.as_slice()) {
            Some(plaintext) => {
                self.payload.payload = plaintext;
                Ok(())
            },
            None => Err(PacketError::Decryption(PacketDecryptionError {  })),
        }
    }
}

/// Decoding the encoding of a packet whose payload fits gives the packet back.
pub proof fn lemma_packet_round_trip(v: PacketView)
    requires
        v.2.len() <= MAX_PAYLOAD_SIZE,
    ensures
        is_packet_size(packet_wire_bytes(v).len() as int),
        packet_from_wire(packet_wire_bytes(v)) == v,
{
    let b = packet_wire_bytes(v);
    lemma_header_round_trip(v.0);
    lemma_payload_round_trip((v.1, v.2));
    assert(b.subrange(0, HEADER_SIZE as int) =~= v.0.wire_bytes());
    assert(b.subrange(HEADER_SIZE as int, b.len() as int) =~= payload_wire_bytes((v.1, v.2)));
}

/// The payload that `encrypt` produces from a plaintext under a key and a
/// nonce authenticates under that key as the encryption of the plaintext, so
/// `decrypt` with the same key restores the plaintext.
pub proof fn lemma_encrypt_then_decrypt(
    key: Seq<u8>,
    nonce: Seq<u8>,
    plaintext: Seq<u8>,
    payload: Seq<u8>,
)
    requires
        nonce.len() == NONCE_SIZE,
        plaintext.len() <= MAX_RAW_MESSAGE_SIZE_AES_GCM_128,
        payload == sealed_payload(key, nonce, plaintext),
        payload.len() == plaintext.len() + TAG_SIZE + NONCE_SIZE,
    ensures
        opens_to(key, payload, plaintext),
{
    let s = payload;
    assert(s.subrange(s.len() - NONCE_SIZE, s.len() as int) =~= nonce);
    assert(s.subrange(0, s.len() - NONCE_SIZE) =~= aes128_gcm_seal(key, nonce, plaintext));
}

} // verus!

verus! {

impl From<LoRaPacketHeader> for Vec<u8> {
    /// The header's wire bytes (see `LoRaPacketHeader::to_vec`).
    fn from(header: LoRaPacketHeader) -> Vec<u8> {
        header.to_vec()
    }
}

impl vstd::std_specs::convert::FromSpecImpl<LoRaPacketHeader> for Vec<u8> {
    open spec fn obeys_from_spec() -> bool {
        false
    }

    open spec fn from_spec(v: LoRaPacketHeader) -> Vec<u8> {
        arbitrary()
    }
}

} // verus!

verus! {

impl From<LoRaPacketHeader> for [u8; 7] {
    /// The header's wire bytes (see `LoRaPacketHeader::to_array`).
    fn from(header: LoRaPacketHeader) -> [u8; 7] {
        header.to_array()
    }
}

impl vstd::std_specs::convert::FromSpecImpl<LoRaPacketHeader> for [u8; 7] {
    open spec fn obeys_from_spec() -> bool {
        false
    }

    open spec fn from_spec(v: LoRaPacketHeader) -> [u8; 7] {
        arbitrary()
    }
}

impl From<LoRaPacketPayload> for Vec<u8> {
    /// The payload section's wire bytes (see `LoRaPacketPayload::to_vec`).
    fn from(payload: LoRaPacketPayload) -> Vec<u8> {
        payload.to_vec()
    }
}

impl vstd::std_specs::convert::FromSpecImpl<LoRaPacketPayload> for Vec<u8> {
    open spec fn obeys_from_spec() -> bool {
        false
    }

    open spec fn from_spec(v: LoRaPacketPayload) -> Vec<u8> {
        arbitrary()
    }
}

impl From<LoRaPacket> for Vec<u8> {
    /// The packet's wire bytes (see `LoRaPacket::to_vec`).
    fn from(packet: LoRaPacket) -> Vec<u8> {
        packet.to_vec()
    }
}

impl vstd::std_specs::convert::FromSpecImpl<LoRaPacket> for Vec<u8> {
    open spec fn obeys_from_spec() -> bool {
        false
    }

    open spec fn from_spec(v: LoRaPacket) -> Vec<u8> {
        arbitrary()
    }
}

} // verus!
