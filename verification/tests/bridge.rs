use fx68k::bridge::{settle, MemoryBridge, UNSERVED_BYTE, UNSERVED_HALF_WORD};
use fx68k::harness::CycleReport;
use fx68k::memory::{Fx68kVecMemoryInterface, MemoryInterface};

/// A capability that serves nothing and counts what it was asked.
struct Silent {
    asked: u32,
}

impl MemoryInterface for Silent {
    fn read_u8(&mut self, _cycle: u32, _address: u32) -> Option<u8> {
        self.asked += 1;
        None
    }

    fn read_u16(&mut self, _cycle: u32, _address: u32) -> Option<u16> {
        self.asked += 1;
        None
    }

    fn write_u8(&mut self, _cycle: u32, _address: u32, _value: u8) -> Option<()> {
        self.asked += 1;
        None
    }

    fn write_u16(&mut self, _cycle: u32, _address: u32, _value: u16) -> Option<()> {
        self.asked += 1;
        None
    }
}

#[test]
fn settle_keeps_a_served_value() {
    assert_eq!(settle(Some(7u8), 0, true), (7, true));
    assert_eq!(settle(Some(7u8), 0, false), (7, false));
}

#[test]
fn settle_replaces_a_failure() {
    assert_eq!(settle(None, 0x55u8, true), (0x55, false));
    assert_eq!(settle(None, 0x55u8, false), (0x55, false));
    assert_eq!(settle(None, (), true), ((), false));
}

#[test]
fn placeholders() {
    assert_eq!(UNSERVED_BYTE, 0);
    assert_eq!(UNSERVED_HALF_WORD, 0);
}

#[test]
fn bridge_forwards_to_the_capability() {
    let mut bridge = MemoryBridge::new(Fx68kVecMemoryInterface::new(vec![0x12, 0x34, 0, 0]));
    assert_eq!(bridge.read_u8(0, 1), 0x34);
    assert_eq!(bridge.read_u16(0, 0), 0x1234);
    bridge.write_u8(1, 2, 0xaa);
    bridge.write_u16(2, 2, 0xbbcc);
    assert_eq!(bridge.get().as_bytes(), &[0x12u8, 0x34, 0xbb, 0xcc][..]);
    assert_eq!(bridge.report(4), CycleReport { pc: 4, memory_ok: true });
}

#[test]
fn bridge_resolves_to_the_same_capability_every_time() {
    let mut bridge = MemoryBridge::new(Fx68kVecMemoryInterface::new(vec![0; 64]));
    for address in 0..63u32 {
        bridge.write_u16(address, address, 0x0101);
    }
    for address in 0..64u32 {
        assert_eq!(bridge.read_u8(0, address), 1);
    }
    assert_eq!(bridge.report(0), CycleReport { pc: 0, memory_ok: true });
}

#[test]
fn bridge_records_a_failed_read() {
    let mut bridge = MemoryBridge::new(Fx68kVecMemoryInterface::new(vec![0xff; 4]));
    assert_eq!(bridge.read_u16(0, 3), UNSERVED_HALF_WORD);
    assert_eq!(bridge.read_u8(0, 0), 0xff);
    assert_eq!(bridge.report(2), CycleReport { pc: 2, memory_ok: false });
    assert_eq!(bridge.report(2), CycleReport { pc: 2, memory_ok: true });
}

#[test]
fn bridge_records_a_failed_write() {
    let mut bridge = MemoryBridge::new(Fx68kVecMemoryInterface::new(vec![0; 4]));
    bridge.write_u8(0, 4, 1);
    assert_eq!(bridge.report(0), CycleReport { pc: 0, memory_ok: false });
    bridge.write_u16(0, 3, 1);
    assert_eq!(bridge.report(0), CycleReport { pc: 0, memory_ok: false });
    assert_eq!(bridge.get().as_bytes(), &[0u8, 0, 0, 0][..]);
}

#[test]
fn bridge_with_a_capability_that_serves_nothing() {
    let mut bridge = MemoryBridge::new(Silent { asked: 0 });
    assert_eq!(bridge.read_u8(0, 0), UNSERVED_BYTE);
    assert_eq!(bridge.read_u16(0, 0), UNSERVED_HALF_WORD);
    bridge.write_u8(0, 0, 1);
    bridge.write_u16(0, 0, 1);
    assert_eq!(bridge.get().asked, 4);
    assert_eq!(bridge.report(9), CycleReport { pc: 9, memory_ok: false });
    assert_eq!(bridge.report(9), CycleReport { pc: 9, memory_ok: true });
}

/// A capability that serves everything and keeps what it was asked.
struct Recorder {
    calls: Vec<(u32, u32, u32)>,
}

impl MemoryInterface for Recorder {
    fn read_u8(&mut self, cycle: u32, address: u32) -> Option<u8> {
        self.calls.push((cycle, address, 0));
        Some(0x7f)
    }

    fn read_u16(&mut self, cycle: u32, address: u32) -> Option<u16> {
        self.calls.push((cycle, address, 0));
        Some(0x7fff)
    }

    fn write_u8(&mut self, cycle: u32, address: u32, value: u8) -> Option<()> {
        self.calls.push((cycle, address, u32::from(value)));
        Some(())
    }

    fn write_u16(&mut self, cycle: u32, address: u32, value: u16) -> Option<()> {
        self.calls.push((cycle, address, u32::from(value)));
        Some(())
    }
}

#[test]
fn bridge_hands_the_access_on_as_it_came() {
    let mut bridge = MemoryBridge::new(Recorder { calls: Vec::new() });
    assert_eq!(bridge.read_u8(1, 10), 0x7f);
    assert_eq!(bridge.read_u16(2, 20), 0x7fff);
    bridge.write_u8(3, 30, 0xab);
    bridge.write_u16(4, 40, 0xabcd);
    assert_eq!(
        bridge.get().calls,
        vec![(1, 10, 0), (2, 20, 0), (3, 30, 0xab), (4, 40, 0xabcd)]
    );
    assert_eq!(bridge.report(0), CycleReport { pc: 0, memory_ok: true });
}
