//! Zero-copy Ethernet buffer exchange.
//!
//! The MAC owns two fixed buffer regions per direction. A received frame is
//! announced by a pending event naming the region and the frame length;
//! acknowledging the event returns that region to the hardware. An outgoing
//! frame is registered by writing the next slot index and a length, filled in
//! place, and started by an explicit one-shot command on release of the
//! handle. The register state is held here as explicit fields so the whole
//! handshake is verified; a platform layer maps the same fields onto the real
//! memory-mapped registers.

use vstd::prelude::*;
use vstd::slice::{slice_subrange, slice_to_vec};

verus! {

/// Size in bytes of each of the two hardware buffer regions of a direction.
pub const SLOT_BYTES: usize = 2048;

/// Selector for one of the two physical buffer regions of a direction.
#[derive(Clone, Copy, PartialEq, Eq, Structural, Debug)]
pub enum Slot {
    First,
    Second,
}

/// The other region of the pair.
pub open spec fn flipped(s: Slot) -> Slot {
    match s {
        Slot::First => Slot::Second,
        Slot::Second => Slot::First,
    }
}

impl Slot {
    /// The other region of the pair; transmit slot selection alternates
    /// through this.
    pub fn other(self) -> (r: Slot)
        ensures
            r == flipped(self),
    {
        match self {
            Slot::First => Slot::Second,
            Slot::Second => Slot::First,
        }
    }
}

/// Flipping the slot never stays put and returns after two steps, so
/// repeated transmissions walk the two regions in strict alternation.
pub proof fn lemma_slot_alternation(s: Slot)
    ensures
        flipped(s) != s,
        flipped(flipped(s)) == s,
{
}

/// The MAC's register file, one field per hardware register.
///
/// `rx_pending` reflects the receive event line; `rx_slot` and `rx_length`
/// are hardware-reported for the pending frame. `tx_ready` is the reader's
/// backpressure signal; `tx_slot` and `tx_length` are the last registered
/// transmission. `tx_starts` counts the one-shot start commands issued, so
/// contracts can say exactly when the command fires.
#[derive(Clone, Copy, PartialEq, Eq, Structural, Debug)]
pub struct EthernetRegisters {
    pub rx_pending: bool,
    pub rx_slot: Slot,
    pub rx_length: u16,
    pub tx_ready: bool,
    pub tx_slot: Slot,
    pub tx_length: u16,
    pub tx_starts: u64,
}

/// The Ethernet device: register state plus the four fixed buffer regions.
pub struct EthernetDevice {
    pub regs: EthernetRegisters,
    pub rx_first: Vec<u8>,
    pub rx_second: Vec<u8>,
    pub tx_first: Vec<u8>,
    pub tx_second: Vec<u8>,
}

/// Transient error of the buffer exchange: nothing pending on receive, or no
/// readiness on transmit. Expected under polling; the caller retries later.
#[derive(Clone, Copy, PartialEq, Eq, Structural, Debug)]
pub enum NetError {
    Exhausted,
}

impl EthernetDevice {
    /// Contents of a receive region.
    pub open spec fn rx_region(self, s: Slot) -> Seq<u8> {
        match s {
            Slot::First => self.rx_first@,
            Slot::Second => self.rx_second@,
        }
    }

    /// Contents of a transmit region.
    pub open spec fn tx_region(self, s: Slot) -> Seq<u8> {
        match s {
            Slot::First => self.tx_first@,
            Slot::Second => self.tx_second@,
        }
    }

    /// Hardware protocol invariant: a pending receive event reports a length
    /// that lies within the region it names.
    pub open spec fn wf(self) -> bool {
        self.regs.rx_pending ==> self.regs.rx_length as int <= self.rx_region(
            self.regs.rx_slot,
        ).len()
    }

    /// A quiescent device: no event pending, reader ready, counters cleared.
    pub fn new() -> (r: EthernetDevice)
        ensures
            r.wf(),
            r.regs == (EthernetRegisters {
                rx_pending: false,
                rx_slot: Slot::First,
                rx_length: 0,
                tx_ready: true,
                tx_slot: Slot::First,
                tx_length: 0,
                tx_starts: 0,
            }),
            r.rx_first@ =~= Seq::<u8>::empty(),
            r.rx_second@ =~= Seq::<u8>::empty(),
            r.tx_first@ =~= Seq::<u8>::empty(),
            r.tx_second@ =~= Seq::<u8>::empty(),
    {
        EthernetDevice {
            regs: EthernetRegisters {
                rx_pending: false,
                rx_slot: Slot::First,
                rx_length: 0,
                tx_ready: true,
                tx_slot: Slot::First,
                tx_length: 0,
                tx_starts: 0,
            },
            rx_first: Vec::new(),
            rx_second: Vec::new(),
            tx_first: Vec::new(),
            tx_second: Vec::new(),
        }
    }

    /// Fixed maximum transmission unit of the link.
    pub fn mtu(&self) -> (r: usize)
        ensures
            r == 1500,
    {
        1500
    }

    /// Models the MAC delivering a frame: it fills a receive region, reports
    /// slot and length, and raises the pending event.
    pub fn deliver_frame(&mut self, slot: Slot, frame: Vec<u8>)
        requires
            frame@.len() <= SLOT_BYTES,
        ensures
            final(self).wf(),
            final(self).regs == (EthernetRegisters {
                rx_pending: true,
                rx_slot: slot,
                rx_length: frame@.len() as u16,
                ..old(self).regs
            }),
            final(self).rx_region(slot) == frame@,
            final(self).rx_region(flipped(slot)) == old(self).rx_region(flipped(slot)),
            final(self).tx_first == old(self).tx_first,
            final(self).tx_second == old(self).tx_second,
    {
        let len = frame.len();
        match slot {
            Slot::First => self.rx_first = frame,
            Slot::Second => self.rx_second = frame,
        }
        self.regs.rx_pending = true;
        self.regs.rx_slot = slot;
        self.regs.rx_length = len as u16;
    }

    /// One receive poll. If an event is pending, the reported region is read
    /// up to the reported length and the event is acknowledged at once, which
    /// hands the region back to the hardware: an immediate repeat poll with
    /// no new event reports nothing. If no event is pending, the transient
    /// no-data outcome is returned and nothing is touched.
    pub fn receive(&mut self) -> (r: Result<Vec<u8>, NetError>)
        requires
            old(self).wf(),
        ensures
            final(self).wf(),
            old(self).regs.rx_pending ==> {
                &&& r is Ok
                &&& r->Ok_0@ == old(self).rx_region(old(self).regs.rx_slot).subrange(
                    0,
                    old(self).regs.rx_length as int,
                )
                &&& final(self).regs == (EthernetRegisters {
                    rx_pending: false,
                    ..old(self).regs
                })
            },
            !old(self).regs.rx_pending ==> r == Err::<Vec<u8>, NetError>(NetError::Exhausted),
            final(self).rx_first == old(self).rx_first,
            final(self).rx_second == old(self).rx_second,
            final(self).tx_first == old(self).tx_first,
            final(self).tx_second == old(self).tx_second,
            !old(self).regs.rx_pending ==> final(self).regs == old(self).regs,
    {
        if self.regs.rx_pending {
            let length = self.regs.rx_length as usize;
            let region: &Vec<u8> = match self.regs.rx_slot {
                Slot::First => &self.rx_first,
                Slot::Second => &self.rx_second,
            };
            let view = slice_to_vec(slice_subrange(region.as_slice(), 0, length));
            self.regs.rx_pending = false;
            Ok(view)
        } else {
            Err(NetError::Exhausted)
        }
    }

    /// One transmit request. If the reader is not ready, the transient busy
    /// outcome is returned and no register is written. Otherwise the slot
    /// after the last registered one is registered together with the
    /// requested length, and a handle over that slot is returned; the start
    /// command is not issued here.
    pub fn transmit(&mut self, length: usize) -> (r: Result<TxBuffer, NetError>)
        requires
            old(self).wf(),
            length <= SLOT_BYTES,
        ensures
            final(self).wf(),
            !old(self).regs.tx_ready ==> {
                &&& r == Err::<TxBuffer, NetError>(NetError::Exhausted)
                &&& final(self).regs == old(self).regs
            },
            old(self).regs.tx_ready ==> {
                &&& r is Ok
                &&& r->Ok_0.slot == flipped(old(self).regs.tx_slot)
                &&& r->Ok_0.data@ =~= Seq::new(length as nat, |i: int| 0u8)
                &&& final(self).regs == (EthernetRegisters {
                    tx_slot: flipped(old(self).regs.tx_slot),
                    tx_length: length as u16,
                    ..old(self).regs
                })
            },
            final(self).rx_first == old(self).rx_first,
            final(self).rx_second == old(self).rx_second,
            final(self).tx_first == old(self).tx_first,
            final(self).tx_second == old(self).tx_second,
    {
        if self.regs.tx_ready {
            let slot = self.regs.tx_slot.other();
            self.regs.tx_slot = slot;
            self.regs.tx_length = length as u16;
            let data: Vec<u8> = vec![0u8; length];
            Ok(TxBuffer { slot, data })
        } else {
            Err(NetError::Exhausted)
        }
    }
}

/// Exclusive handle over one registered transmit slot.
///
/// The handle stages the frame; releasing it commits the frame to the slot's
/// region and issues the hardware start command — the release is the only
/// place the command fires, and consuming the handle makes it fire exactly
/// once per registered transmission.
pub struct TxBuffer {
    pub slot: Slot,
    pub data: Vec<u8>,
}

impl TxBuffer {
    /// Read access to the staged frame.
    pub fn as_ref(&self) -> (r: &[u8])
        ensures
            r@ == self.data@,
    {
        self.data.as_slice()
    }

    /// Write access to the staged frame, for the caller to fill.
    pub fn as_mut(&mut self) -> (r: &mut Vec<u8>)
        ensures
            *r == old(self).data,
            final(self).slot == old(self).slot,
            final(self).data == *final(r),
    {
        &mut self.data
    }

    /// Commits the staged frame to the handle's slot region and issues the
    /// start command, exactly once, consuming the handle.
    pub fn release(self, dev: &mut EthernetDevice)
        requires
            old(dev).wf(),
            old(dev).regs.tx_starts < u64::MAX,
        ensures
            final(dev).wf(),
            final(dev).regs == (EthernetRegisters {
                tx_starts: (old(dev).regs.tx_starts + 1) as u64,
                ..old(dev).regs
            }),
            final(dev).tx_region(self.slot) == self.data@,
            final(dev).tx_region(flipped(self.slot)) == old(dev).tx_region(flipped(self.slot)),
            final(dev).rx_first == old(dev).rx_first,
            final(dev).rx_second == old(dev).rx_second,
    {
        match self.slot {
            Slot::First => dev.tx_first = self.data,
            Slot::Second => dev.tx_second = self.data,
        }
        dev.regs.tx_starts = dev.regs.tx_starts + 1;
    }
}

} // verus!
