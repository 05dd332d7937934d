use fx68k::harness::CycleReport;
use fx68k::memory::Fx68kVecMemoryInterface;
use fx68k::registry::{context_of, handle_of, HandleRegistry};

fn buffer(fill: u8) -> Fx68kVecMemoryInterface {
    Fx68kVecMemoryInterface::new(vec![fill; 4])
}

#[test]
fn handles_are_issued_in_order() {
    let mut registry = HandleRegistry::new();
    assert_eq!(registry.handles_issued(), 0);
    assert_eq!(registry.register(buffer(1)), 0);
    assert_eq!(registry.register(buffer(2)), 1);
    assert_eq!(registry.register(buffer(3)), 2);
    assert_eq!(registry.handles_issued(), 3);
}

#[test]
fn each_handle_resolves_to_its_own_capability() {
    let mut registry = HandleRegistry::new();
    let first = registry.register(buffer(0x11));
    let second = registry.register(buffer(0x22));
    assert_eq!(registry.read_u8(first, 0, 0), Some(0x11));
    assert_eq!(registry.read_u8(second, 0, 0), Some(0x22));
    assert_eq!(registry.read_u16(first, 0, 2), Some(0x1111));
    assert_eq!(registry.write_u16(second, 0, 0, 0xabcd), Some(()));
    assert_eq!(registry.write_u8(second, 0, 3, 0xef), Some(()));
    assert_eq!(registry.get(second).unwrap().get().as_bytes(), &[0xabu8, 0xcd, 0x22, 0xef][..]);
    assert_eq!(registry.get(first).unwrap().get().as_bytes(), &[0x11u8; 4][..]);
}

#[test]
fn repeated_resolution_sees_the_same_capability() {
    let mut registry = HandleRegistry::new();
    let handle = registry.register(buffer(0));
    for round in 0..100u8 {
        assert_eq!(registry.write_u8(handle, 0, 1, round), Some(()));
        assert_eq!(registry.read_u8(handle, 0, 1), Some(round));
    }
}

#[test]
fn unknown_handles_resolve_to_nothing() {
    let mut registry: HandleRegistry<Fx68kVecMemoryInterface> = HandleRegistry::new();
    assert_eq!(registry.read_u8(0, 0, 0), None);
    assert_eq!(registry.read_u16(5, 0, 0), None);
    assert_eq!(registry.write_u8(usize::MAX, 0, 0, 1), None);
    assert_eq!(registry.write_u16(1, 0, 0, 1), None);
    assert_eq!(registry.report(0, 0), None);
    assert!(registry.get(0).is_none());
    assert!(registry.release(0).is_none());
}

#[test]
fn a_released_handle_is_gone_for_good() {
    let mut registry = HandleRegistry::new();
    let first = registry.register(buffer(1));
    let second = registry.register(buffer(2));
    let released = registry.release(first).unwrap();
    assert_eq!(released.get().as_bytes(), &[1u8; 4][..]);
    assert_eq!(registry.read_u8(first, 0, 0), None);
    assert!(registry.release(first).is_none());
    assert_eq!(registry.read_u8(second, 0, 0), Some(2));
    let third = registry.register(buffer(3));
    assert_eq!(third, 2);
    assert_eq!(registry.read_u8(first, 0, 0), None);
    assert_eq!(registry.read_u8(third, 0, 0), Some(3));
}

#[test]
fn report_collects_and_clears_the_failure_of_its_core_only() {
    let mut registry = HandleRegistry::new();
    let first = registry.register(buffer(1));
    let second = registry.register(buffer(2));
    assert_eq!(registry.read_u8(first, 0, 4), Some(0));
    assert_eq!(registry.report(second, 8), Some(CycleReport { pc: 8, memory_ok: true }));
    assert_eq!(registry.report(first, 6), Some(CycleReport { pc: 6, memory_ok: false }));
    assert_eq!(registry.report(first, 6), Some(CycleReport { pc: 6, memory_ok: true }));
}

#[test]
fn contexts_are_never_zero() {
    assert_eq!(context_of(0), Some(1));
    assert_eq!(context_of(41), Some(42));
    assert_eq!(context_of(usize::MAX - 1), Some(usize::MAX));
    assert_eq!(context_of(usize::MAX), None);
}

#[test]
fn contexts_lead_back_to_their_handles() {
    assert_eq!(handle_of(0), None);
    assert_eq!(handle_of(1), Some(0));
    assert_eq!(handle_of(usize::MAX), Some(usize::MAX - 1));
    for handle in [0usize, 1, 2, 1000] {
        assert_eq!(handle_of(context_of(handle).unwrap()), Some(handle));
    }
}
