//! Address table: the registry of every known peer, keyed by its one-byte
//! address.
use vstd::prelude::*;
use crate::device::DeviceStatus;
use crate::nonce_cache::DEFAULT_IV_EXPIRATION_MS;
use crate::packet::LoRaPacket;
use crate::registry::ArpRegistry;

verus! {

/// Number of distinct addresses.
pub const ADDRESS_SPACE: usize = 256;

/// Whether `r` is the registry created for a peer first seen at `address`.
pub open spec fn is_new_unknown_registry(r: ArpRegistry, address: u8) -> bool {
    &&& r.address == Some(address)
    &&& r.device_status == DeviceStatus::Unknown
    &&& r.device_type is None
    &&& r.secret_key is None
    &&& r.packet_rx_vec@.len() == 0
    &&& r.packet_tx_vec@.len() == 0
    &&& r.rx_message@.len() == 0
    &&& r.tx_message@.len() == 0
    &&& r.faulty_packets@.len() == 0
    &&& r.used_ivs@.len() == 0
    &&& r.iv_expiration_duration == Some(DEFAULT_IV_EXPIRATION_MS)
}

/// Whether `n` is `o` with `packet` appended to its received fragments.
pub open spec fn received_into(o: ArpRegistry, n: ArpRegistry, packet: LoRaPacket) -> bool {
    &&& n.packet_rx_vec@ == o.packet_rx_vec@.push(packet)
    &&& n.same_except_rx_state(&o)
    &&& n.rx_message@ == o.rx_message@
    &&& n.faulty_packets@ == o.faulty_packets@
}

/// The table that a list of registries gives: each registry with an address
/// under that address, a later one replacing an earlier one.
pub open spec fn registries_map(s: Seq<ArpRegistry>) -> Map<u8, ArpRegistry>
    decreases s.len(),
{
    if s.len() == 0 {
        Map::empty()
    } else {
        let m = registries_map(s.drop_last());
        match s.last().address {
            Some(a) => m.insert(a, s.last()),
            None => m,
        }
    }
}

/// Maps each known peer address to its registry.
pub struct ArpTable {
    table: Vec<Option<ArpRegistry>>,
}

impl View for ArpTable {
    type V = Map<u8, ArpRegistry>;

    closed spec fn view(&self) -> Map<u8, ArpRegistry> {
        Map::new(
            |a: u8| (a as int) < self.table@.len() && self.table@[a as int] is Some,
            |a: u8| self.table@[a as int]->0,
        )
    }
}

impl ArpTable {
    /// The table holds one slot per address.
    pub closed spec fn wf(&self) -> bool {
        self.table@.len() == ADDRESS_SPACE
    }

    /// An empty table.
    pub fn new() -> (r: Self)
        ensures
            r.wf(),
            r@ == Map::<u8, ArpRegistry>::empty(),
    {
        let mut table: Vec<Option<ArpRegistry>> = Vec::new();
        let mut i: usize = 0;
        while i < ADDRESS_SPACE
            invariant
                0 <= i <= ADDRESS_SPACE,
                table@.len() == i,
                forall|k: int| 0 <= k < i ==> table@[k] is None,
            decreases ADDRESS_SPACE - i,
        {
            table.push(None);
            i = i + 1;
        }
        let r = ArpTable { table };
        assert(r@ =~= Map::<u8, ArpRegistry>::empty());
        r
    }

    /// A table holding each given registry that has an address, under that
    /// address; of two with the same address the later one is kept.
    pub fn new_from_registries(registries: Vec<ArpRegistry>) -> (r: Self)
        ensures
            r.wf(),
            r@ == registries_map(registries@),
    {
        let mut t = Self::new();
        let ghost src = registries@;
        let mut rest = registries;
        let total = rest.len();
        let mut i: usize = 0;
        while rest.len() > 0
            invariant
                t.wf(),
                total == src.len(),
                i + rest@.len() == total,
                forall|k: int| 0 <= k < rest@.len() ==> #[trigger] rest@[k] == src[i + k],
                t@ == registries_map(src.subrange(0, i as int)),
            decreases rest@.len(),
        {
            let registry = rest.remove(0);
            assert(registry == src[i as int]);
            assert(src.subrange(0, i as int + 1).drop_last() =~= src.subrange(0, i as int));
            match registry.address {
                Some(a) => t.insert_registry(a, registry),
                None => {},
            }
            i = i + 1;
        }
        assert(src.subrange(0, i as int) =~= src);
        t
    }

    /// The registry of `address`, if the peer is known.
    pub fn get_registry(&self, address: u8) -> (r: Option<&ArpRegistry>)
        requires
            self.wf(),
        ensures
            match r {
                Some(reg) => self@.contains_key(address) && *reg == self@[address],
                None => !self@.contains_key(address),
            },
    {
        match &self.table[address as usize] {
            Some(reg) => Some(reg),
            None => None,
        }
    }

    /// Mutable access to the registry of `address`, if the peer is known.
    pub fn get_registry_mut(&mut self, address: u8) -> (r: Option<&mut ArpRegistry>)
        requires
            old(self).wf(),
        ensures
            match r {
                Some(reg) => {
                    &&& old(self)@.contains_key(address)
                    &&& *reg == old(self)@[address]
                    &&& final(self).wf()
                    &&& final(self)@ == old(self)@.insert(address, *final(reg))
                },
                None => {
                    &&& !old(self)@.contains_key(address)
                    &&& final(self)@ == old(self)@
                    &&& final(self).wf()
                },
            },
    {
        match &mut self.table[address as usize] {
            Some(reg) => Some(reg),
            None => None,
        }
    }

    /// Whether a registry exists for `address`.
    pub fn is_known(&self, address: u8) -> (r: bool)
        requires
            self.wf(),
        ensures
            r == self@.contains_key(address),
    {
        self.table[address as usize].is_some()
    }

    /// Stores `registry` under `address`, replacing any previous one.
    pub fn insert_registry(&mut self, address: u8, registry: ArpRegistry)
        requires
            old(self).wf(),
        ensures
            final(self).wf(),
            final(self)@ == old(self)@.insert(address, registry),
    {
        let ghost r = registry;
        self.table.set(address as usize, Some(registry));
        assert(self@ =~= old(self)@.insert(address, r));
    }

    /// Forgets the peer at `address`.
    pub fn remove_registry(&mut self, address: u8)
        requires
            old(self).wf(),
        ensures
            final(self).wf(),
            final(self)@ == old(self)@.remove(address),
    {
        self.table.set(address as usize, None);
        assert(self@ =~= old(self)@.remove(address));
    }

    /// Makes sure a registry exists for `address`, creating one in the
    /// `Unknown` state for a peer not seen before.
    pub fn get_or_insert(&mut self, address: u8)
        requires
            old(self).wf(),
        ensures
            final(self).wf(),
            old(self)@.contains_key(address) ==> final(self)@ == old(self)@,
            !old(self)@.contains_key(address) ==> final(self)@.dom() == old(self)@.dom().insert(
                address,
            ) && is_new_unknown_registry(final(self)@[address], address) && forall|b: u8|
                b != address ==> #[trigger] final(self)@.contains_key(b) ==> final(self)@[b]
                    == old(self)@[b],
    {
        if self.table[address as usize].is_none() {
            let registry = ArpRegistry::new(Some(address), DeviceStatus::Unknown);
            self.insert_registry(address, registry);
            assert(self@.dom() =~= old(self)@.dom().insert(address));
        }
    }

    /// Appends a received packet to the registry of its source address,
    /// creating an `Unknown` registry for a source not seen before.
    pub fn push_rx_packet(&mut self, packet: LoRaPacket)
        requires
            old(self).wf(),
        ensures
            final(self).wf(),
            final(self)@.dom() == old(self)@.dom().insert(packet.header.source_addr),
            forall|b: u8|
                b != packet.header.source_addr && #[trigger] old(self)@.contains_key(b)
                    ==> final(self)@[b] == old(self)@[b],
            old(self)@.contains_key(packet.header.source_addr) ==> received_into(
                old(self)@[packet.header.source_addr],
                final(self)@[packet.header.source_addr],
                packet,
            ),
            !old(self)@.contains_key(packet.header.source_addr) ==> {
                let n = final(self)@[packet.header.source_addr];
                &&& n.packet_rx_vec@ == seq![packet]
                &&& n.address == Some(packet.header.source_addr)
                &&& n.device_status == DeviceStatus::Unknown
                &&& n.secret_key is None
            },
    {
        let address = packet.header.source_addr;
        let i = address as usize;
        let mut slot: Option<ArpRegistry> = None;
        std::mem::swap(&mut slot, &mut self.table[i]);
        let mut registry = match slot {
            Some(reg) => reg,
            None => ArpRegistry::new(Some(address), DeviceStatus::Unknown),
        };
        let ghost p = packet;
        registry.packet_rx_vec.push(packet);
        let ghost reg = registry;
        self.table.set(i, Some(registry));
        assert(self@.dom() =~= old(self)@.dom().insert(address));
        assert(self@[address] == reg);
    }
}

} // verus!
