//! FIFO queues of outbound and inbound packets, and the decisions of the
//! loops that drain them: the transmit loop arbitrates the half-duplex
//! radio, the receive loop routes packets past the blacklist into the
//! address table.
use vstd::prelude::*;
use std::collections::VecDeque;
use crate::arp_table::{received_into, ArpTable};
use crate::blacklist::BlackList;
use crate::device::DeviceStatus;
use crate::packet::{packet_wire_bytes, LoRaPacket};
use crate::radio::OperationMode;

verus! {

/// A first-in, first-out queue.
pub trait Queue<PacketT>: Sized {
    /// Items in the queue, oldest first.
    spec fn queued(&self) -> Seq<PacketT>;

    /// Whether `a` is a copy of `b`.
    spec fn is_copy(a: PacketT, b: PacketT) -> bool;

    /// A copy of the oldest item, which stays queued.
    fn get_top_item(&mut self) -> (r: Option<PacketT>)
        ensures
            final(self).queued() == old(self).queued(),
            old(self).queued().len() == 0 ==> r is None,
            old(self).queued().len() > 0 ==> r is Some && Self::is_copy(
                r->0,
                old(self).queued()[0],
            ),
    ;

    /// Removes and returns the oldest item.
    fn pop(&mut self) -> (r: Option<PacketT>)
        ensures
            old(self).queued().len() == 0 ==> r is None && final(self).queued() == old(self).queued(),
            old(self).queued().len() > 0 ==> r == Some(old(self).queued()[0]) && final(self).queued() == old(self).queued().drop_first(),
    ;

    /// Appends an item.
    fn push(&mut self, item: PacketT)
        ensures
            final(self).queued() == old(self).queued().push(item),
    ;

    fn is_empty(&self) -> (r: bool)
        ensures
            r == (self.queued().len() == 0),
    ;

    fn len(&self) -> (r: usize)
        ensures
            r == self.queued().len(),
    ;
}

/// Most packets a queue holds; `try_push` refuses more (the newest packet
/// is dropped).
pub const MAX_QUEUE_DEPTH: usize = 64;

/// Outbound packets, sent in the order they were queued.
pub struct TransmitQueue {
    queue: VecDeque<LoRaPacket>,
}

/// Inbound packets, dispatched in the order they arrived.
pub struct ReceiveQueue {
    queue: VecDeque<LoRaPacket>,
}

impl Queue<LoRaPacket> for TransmitQueue {
    closed spec fn queued(&self) -> Seq<LoRaPacket> {
        self.queue@
    }

    open spec fn is_copy(a: LoRaPacket, b: LoRaPacket) -> bool {
        a@ == b@
    }

    fn get_top_item(&mut self) -> (r: Option<LoRaPacket>) {
        if self.queue.len() == 0 {
            None
        } else {
            Some(self.queue[0].duplicate())
        }
    }

    fn pop(&mut self) -> (r: Option<LoRaPacket>) {
        self.queue.pop_front()
    }

    fn push(&mut self, item: LoRaPacket) {
        self.queue.push_back(item);
    }

    fn is_empty(&self) -> (r: bool) {
        self.queue.len() == 0
    }

    fn len(&self) -> (r: usize) {
        self.queue.len()
    }
}

impl Queue<LoRaPacket> for ReceiveQueue {
    closed spec fn queued(&self) -> Seq<LoRaPacket> {
        self.queue@
    }

    open spec fn is_copy(a: LoRaPacket, b: LoRaPacket) -> bool {
        a@ == b@
    }

    fn get_top_item(&mut self) -> (r: Option<LoRaPacket>) {
        if self.queue.len() == 0 {
            None
        } else {
            Some(self.queue[0].duplicate())
        }
    }

    fn pop(&mut self) -> (r: Option<LoRaPacket>) {
        self.queue.pop_front()
    }

    fn push(&mut self, item: LoRaPacket) {
        self.queue.push_back(item);
    }

    fn is_empty(&self) -> (r: bool) {
        self.queue.len() == 0
    }

    fn len(&self) -> (r: usize) {
        self.queue.len()
    }
}

/// What the transmit loop does next.
#[derive(Debug, Clone, Copy, PartialEq, Eq, Structural)]
pub enum TxAction {
    /// Take the oldest packet, stage its bytes in the radio and enter transmit mode.
    Transmit,
    /// A packet waits but the radio is still sending the previous one.
    WaitForRadio,
    /// Nothing to send: put the radio back in continuous receive mode.
    EnterReceive,
    /// Nothing to do.
    Idle,
    /// The radio reports no operating mode while idle: it is not configured
    /// and must not share the channel.
    Fatal,
}

/// The transmit loop's decision, from whether a packet waits, whether the
/// radio is still transmitting, and the radio's operating mode.
pub open spec fn tx_decision(
    has_packet: bool,
    waiting_for_tx: bool,
    opmode: Option<OperationMode>,
) -> TxAction {
    if has_packet {
        if waiting_for_tx {
            TxAction::WaitForRadio
        } else {
            TxAction::Transmit
        }
    } else if waiting_for_tx {
        TxAction::Idle
    } else {
        match opmode {
            None => TxAction::Fatal,
            Some(OperationMode::RxContinuous) => TxAction::Idle,
            Some(_) => TxAction::EnterReceive,
        }
    }
}

impl TransmitQueue {
    pub fn new() -> (r: Self)
        ensures
            r.queued() == Seq::<LoRaPacket>::empty(),
    {
        TransmitQueue { queue: VecDeque::new() }
    }

    /// Appends `item` unless the queue already holds `MAX_QUEUE_DEPTH`
    /// packets, in which case `item` is handed back and the queue is unchanged.
    pub fn try_push(&mut self, item: LoRaPacket) -> (r: Result<(), LoRaPacket>)
        ensures
            old(self).queued().len() < MAX_QUEUE_DEPTH ==> r is Ok && final(self).queued()
                == old(self).queued().push(item),
            old(self).queued().len() >= MAX_QUEUE_DEPTH ==> r == Err::<(), LoRaPacket>(item)
                && final(self).queued() == old(self).queued(),
    {
        if self.queue.len() >= MAX_QUEUE_DEPTH {
            return Err(item);
        }
        self.queue.push_back(item);
        Ok(())
    }

    /// One step of the transmit loop: with packets waiting, send once the
    /// radio is free; otherwise park the radio in continuous receive mode.
    pub fn next_action(&self, waiting_for_tx: bool, opmode: Option<OperationMode>) -> (r: TxAction)
        ensures
            r == tx_decision(self.queued().len() > 0, waiting_for_tx, opmode),
    {
        let has_packet = self.queue.len() > 0;
        if has_packet {
            if waiting_for_tx {
                TxAction::WaitForRadio
            } else {
                TxAction::Transmit
            }
        } else if waiting_for_tx {
            TxAction::Idle
        } else {
            match opmode {
                None => TxAction::Fatal,
                Some(OperationMode::RxContinuous) => TxAction::Idle,
                Some(_) => TxAction::EnterReceive,
            }
        }
    }

    /// Removes the oldest packet and returns its wire bytes.
    pub fn take_next_frame(&mut self) -> (r: Option<Vec<u8>>)
        ensures
            old(self).queued().len() == 0 ==> r is None && final(self).queued() == old(self).queued(),
            old(self).queued().len() > 0 ==> {
                &&& r is Some
                &&& r->0@ == packet_wire_bytes(old(self).queued()[0]@)
                &&& final(self).queued() == old(self).queued().drop_first()
            },
    {
        match self.queue.pop_front() {
            Some(packet) => Some(packet.to_vec()),
            None => None,
        }
    }
}

/// What became of a received packet.
#[derive(Debug, Clone, Copy, PartialEq, Eq, Structural)]
pub enum DispatchOutcome {
    /// The receive queue was empty.
    Empty,
    /// The source address is blacklisted: the packet was dropped.
    Blacklisted,
    /// The packet was appended to its source's registry; `last_fragment`
    /// says whether it carries the last fragment index of its message,
    /// the point at which the message can be reassembled.
    Stored { source: u8, last_fragment: bool },
}

/// Whether a header's fragment index is the last of its message.
pub open spec fn is_last_fragment(p: LoRaPacket) -> bool {
    p.header.message_packet_num as int == p.header.total_number_of_packets as int - 1
}

impl ReceiveQueue {
    pub fn new() -> (r: Self)
        ensures
            r.queued() == Seq::<LoRaPacket>::empty(),
    {
        ReceiveQueue { queue: VecDeque::new() }
    }

    /// Appends `item` unless the queue already holds `MAX_QUEUE_DEPTH`
    /// packets, in which case `item` is handed back and the queue is unchanged.
    pub fn try_push(&mut self, item: LoRaPacket) -> (r: Result<(), LoRaPacket>)
        ensures
            old(self).queued().len() < MAX_QUEUE_DEPTH ==> r is Ok && final(self).queued()
                == old(self).queued().push(item),
            old(self).queued().len() >= MAX_QUEUE_DEPTH ==> r == Err::<(), LoRaPacket>(item)
                && final(self).queued() == old(self).queued(),
    {
        if self.queue.len() >= MAX_QUEUE_DEPTH {
            return Err(item);
        }
        self.queue.push_back(item);
        Ok(())
    }

    /// One step of the receive loop: takes the oldest packet and, unless its
    /// source is blacklisted, appends it to the registry of that source,
    /// creating an `Unknown` registry for a source not seen before.
    pub fn dispatch_next(&mut self, arp_table: &mut ArpTable, blacklist: &BlackList) -> (r:
        DispatchOutcome)
        requires
            old(arp_table).wf(),
            blacklist.wf(),
        ensures
            final(arp_table).wf(),
            old(self).queued().len() == 0 ==> {
                &&& r == DispatchOutcome::Empty
                &&& final(self).queued() == old(self).queued()
                &&& final(arp_table)@ == old(arp_table)@
            },
            old(self).queued().len() > 0 ==> final(self).queued() == old(self).queued().drop_first(),
            old(self).queued().len() > 0 ==> {
                let p = old(self).queued()[0];
                let a = p.header.source_addr;
                if blacklist@.contains(a) {
                    &&& r == DispatchOutcome::Blacklisted
                    &&& final(arp_table)@ == old(arp_table)@
                } else {
                    &&& r == DispatchOutcome::Stored { source: a, last_fragment: is_last_fragment(p) }
                    &&& final(arp_table)@.dom() == old(arp_table)@.dom().insert(a)
                    &&& forall|b: u8|
                        b != a && #[trigger] old(arp_table)@.contains_key(b) ==> final(arp_table)@[b] == old(arp_table)@[b]
                    &&& old(arp_table)@.contains_key(a) ==> received_into(
                        old(arp_table)@[a],
                        final(arp_table)@[a],
                        p,
                    )
                    &&& !old(arp_table)@.contains_key(a) ==> {
                        &&& final(arp_table)@[a].packet_rx_vec@ == seq![p]
                        &&& final(arp_table)@[a].device_status == DeviceStatus::Unknown
                    }
                }
            },
    {
        let packet = match self.queue.pop_front() {
            Some(p) => p,
            None => {
                return DispatchOutcome::Empty;
            },
        };
        let source = packet.header.source_addr;
        if blacklist.is_blacklisted(source) {
            return DispatchOutcome::Blacklisted;
        }
        let last_fragment = packet.header.message_packet_num as u16 + 1
            == packet.header.total_number_of_packets as u16;
        arp_table.push_rx_packet(packet);
        DispatchOutcome::Stored { source, last_fragment }
    }
}

} // verus!
