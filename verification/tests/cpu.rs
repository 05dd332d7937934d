use fx68k::cpu::{CodeAdress, CpuState, Register, StackAddress};

fn sample_state() -> CpuState {
    CpuState {
        d_registers: [100, 101, 102, 103, 104, 105, 106, 107],
        a_registers: [200, 201, 202, 203, 204, 205, 206, 207],
        pc: 4,
        flags: 0x2700,
        last_read_address: 6,
        last_written_address: 0,
    }
}

#[test]
fn data_registers_keep_their_index() {
    for n in 0u8..8 {
        assert_eq!(Register::Data(n).engine_index(), Some(u32::from(n)));
    }
}

#[test]
fn address_registers_follow_the_data_registers() {
    assert_eq!(Register::Address(0).engine_index(), Some(8));
    assert_eq!(Register::Address(3).engine_index(), Some(11));
    assert_eq!(Register::Address(7).engine_index(), Some(15));
}

#[test]
fn registers_outside_the_bank_have_no_index() {
    assert_eq!(Register::Data(8).engine_index(), None);
    assert_eq!(Register::Address(8).engine_index(), None);
    assert_eq!(Register::Data(255).engine_index(), None);
    assert_eq!(Register::Address(255).engine_index(), None);
    assert_eq!(Register::Address(248).engine_index(), None);
}

#[test]
fn register_equality() {
    assert!(Register::Data(1) == Register::Data(1));
    assert!(Register::Data(1) != Register::Address(1));
    assert!(Register::Address(2) != Register::Address(3));
}

#[test]
fn snapshot_register_lookup() {
    let state = sample_state();
    assert_eq!(state.register(Register::Data(0)), Some(100));
    assert_eq!(state.register(Register::Data(7)), Some(107));
    assert_eq!(state.register(Register::Address(0)), Some(200));
    assert_eq!(state.register(Register::Address(7)), Some(207));
    assert_eq!(state.register(Register::Data(8)), None);
    assert_eq!(state.register(Register::Address(9)), None);
}

#[test]
fn snapshot_fields() {
    let state = sample_state();
    assert_eq!(state.pc, 4);
    assert_eq!(state.flags, 0x2700);
    assert_eq!(state.last_read_address, 6);
    assert_eq!(state.last_written_address, 0);
}

#[test]
fn tagged_addresses_hold_their_value() {
    let code = CodeAdress(0x400);
    let stack = StackAddress(0x1000);
    assert_eq!(code.0, 0x400);
    assert_eq!(stack.0, 0x1000);
}
