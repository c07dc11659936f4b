use rtio_runtime::ethmac::{EthernetDevice, NetError, Slot, SLOT_BYTES};

#[test]
fn mtu_is_fixed() {
    let dev = EthernetDevice::new();
    assert_eq!(dev.mtu(), 1500);
}

#[test]
fn transmit_slots_alternate_strictly() {
    // With the hardware always ready and the recorded slot starting at the
    // second region, repeated transmissions pick indices 0, 1, 0, 1, ...
    let mut dev = EthernetDevice::new();
    dev.regs.tx_slot = Slot::Second;
    let expected = [Slot::First, Slot::Second, Slot::First, Slot::Second];
    for want in expected {
        let buf = dev.transmit(64).unwrap();
        assert_eq!(buf.slot, want);
        buf.release(&mut dev);
    }
}

#[test]
fn transmit_registers_but_does_not_start() {
    let mut dev = EthernetDevice::new();
    let buf = dev.transmit(100).unwrap();
    // Registration wrote slot and length; the start command did not fire.
    assert_eq!(dev.regs.tx_slot, Slot::Second);
    assert_eq!(dev.regs.tx_length, 100);
    assert_eq!(dev.regs.tx_starts, 0);
    assert_eq!(buf.as_ref().len(), 100);
    buf.release(&mut dev);
}

#[test]
fn release_starts_exactly_once() {
    let mut dev = EthernetDevice::new();
    let mut buf = dev.transmit(4).unwrap();
    assert_eq!(dev.regs.tx_starts, 0);
    let payload = buf.as_mut();
    payload[0] = 0xde;
    payload[1] = 0xad;
    payload[2] = 0xbe;
    payload[3] = 0xef;
    buf.release(&mut dev);
    assert_eq!(dev.regs.tx_starts, 1);
    assert_eq!(dev.tx_second, vec![0xde, 0xad, 0xbe, 0xef]);

    // A second transmission pulses the command once more, and only then.
    let buf2 = dev.transmit(1).unwrap();
    assert_eq!(dev.regs.tx_starts, 1);
    buf2.release(&mut dev);
    assert_eq!(dev.regs.tx_starts, 2);
}

#[test]
fn transmit_while_busy_touches_nothing() {
    let mut dev = EthernetDevice::new();
    dev.regs.tx_ready = false;
    let before = dev.regs;
    let r = dev.transmit(128);
    assert_eq!(r.map(|_| ()), Err(NetError::Exhausted));
    assert_eq!(dev.regs, before);
}

#[test]
fn receive_reports_no_data_iff_no_event_pending() {
    let mut dev = EthernetDevice::new();
    // No event pending: the transient no-data outcome.
    assert_eq!(dev.receive(), Err(NetError::Exhausted));

    // A delivered frame is returned from the reported slot, and the event
    // is acknowledged at once: the immediate repeat poll reports no data.
    let frame = vec![1u8, 2, 3, 4, 5];
    dev.deliver_frame(Slot::Second, frame.clone());
    assert_eq!(dev.receive(), Ok(frame));
    assert_eq!(dev.receive(), Err(NetError::Exhausted));
}

#[test]
fn receive_truncates_to_reported_length() {
    let mut dev = EthernetDevice::new();
    dev.deliver_frame(Slot::First, vec![9u8; 100]);
    dev.regs.rx_length = 60;
    assert_eq!(dev.receive(), Ok(vec![9u8; 60]));
}

#[test]
fn slot_regions_hold_a_full_frame() {
    // Each region takes a frame up to its full hardware size.
    let mut dev = EthernetDevice::new();
    let buf = dev.transmit(SLOT_BYTES).unwrap();
    assert_eq!(buf.as_ref().len(), SLOT_BYTES);
    buf.release(&mut dev);
    assert_eq!(dev.tx_second.len(), SLOT_BYTES);
}
