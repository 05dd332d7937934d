//! Value types that describe the simulated CPU to the host.

use vstd::prelude::*;

verus! {

/// Number of data registers, and of address registers.
pub const REGISTER_BANK_SIZE: u8 = 8;

/// Snapshot of the CPU: registers, program counter, flags and the most recent
/// memory addresses the engine touched.
#[derive(Clone, Copy, Debug)]
pub struct CpuState {
    /// data registers
    pub d_registers: [u32; 8],
    /// address registers
    pub a_registers: [u32; 8],
    /// program counter
    pub pc: u32,
    /// status flags
    pub flags: u32,
    /// last read address
    pub last_read_address: u32,
    /// last written address
    pub last_written_address: u32,
}

/// Address at which code starts.
#[derive(Copy, Clone, Debug)]
pub struct CodeAdress(pub u32);

/// Address at which the stack pointer starts.
#[derive(Copy, Clone, Debug)]
pub struct StackAddress(pub u32);

/// A register to patch: one of the data registers or one of the address
/// registers, by its index in the bank.
#[derive(Copy, Clone, Debug, PartialEq, Eq, Structural)]
pub enum Register {
    Data(u8),
    Address(u8),
}

impl Register {
    /// Index of the register inside its bank.
    pub open spec fn bank_index(self) -> u8 {
        match self {
            Register::Data(n) => n,
            Register::Address(n) => n,
        }
    }

    /// The register exists: its index lies inside the bank.
    pub open spec fn wf(self) -> bool {
        self.bank_index() < REGISTER_BANK_SIZE
    }

    /// The index by which the engine knows an existing register: data
    /// registers keep their bank index, address registers follow them.
    pub open spec fn spec_engine_index(self) -> u32 {
        match self {
            Register::Data(n) => n as u32,
            Register::Address(n) => (n + REGISTER_BANK_SIZE) as u32,
        }
    }

    /// The engine's index for this register, or `None` for a register that
    /// does not exist.
    pub fn engine_index(self) -> (r: Option<u32>)
        ensures
            r == (if self.wf() { Some(self.spec_engine_index()) } else { None }),
            r matches Some(i) ==> i < 2 * REGISTER_BANK_SIZE,
    {
        match self {
            Register::Data(n) => {
                if n < REGISTER_BANK_SIZE {
                    Some(n as u32)
                } else {
                    None
                }
            },
            Register::Address(n) => {
                if n < REGISTER_BANK_SIZE {
                    Some((n + REGISTER_BANK_SIZE) as u32)
                } else {
                    None
                }
            },
        }
    }
}

impl CpuState {
    /// The value that the snapshot holds for an existing register.
    pub open spec fn spec_register(self, register: Register) -> u32
        recommends
            register.wf(),
    {
        match register {
            Register::Data(n) => self.d_registers[n as int],
            Register::Address(n) => self.a_registers[n as int],
        }
    }

    /// Reads a register out of the snapshot; `None` for a register that does
    /// not exist.
    pub fn register(&self, register: Register) -> (r: Option<u32>)
        ensures
            r == (if register.wf() { Some(self.spec_register(register)) } else { None }),
    {
        match register {
            Register::Data(n) => {
                if n < REGISTER_BANK_SIZE {
                    Some(self.d_registers[n as usize])
                } else {
                    None
                }
            },
            Register::Address(n) => {
                if n < REGISTER_BANK_SIZE {
                    Some(self.a_registers[n as usize])
                } else {
                    None
                }
            },
        }
    }
}

} // verus!
