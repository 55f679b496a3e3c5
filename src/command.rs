//! The command catalog: each command's opcode and header length.
use vstd::prelude::*;

verus! {

/// A command that the bootloader understands.
#[derive(PartialEq, Eq, Structural, Clone, Copy, Debug)]
pub enum Command {
    GetVersion,
    GetHelp,
    GetDeviceId,
    GetRdpLevel,
    JumpToAddress,
    FlashErase,
    MemoryWrite,
    MemoryRead,
    SetRwProtection,
    GetRwProtection,
}

/// Header length of a memory write without its payload.
pub const MEMORY_WRITE_BASE_LENGTH: u8 = 11;

impl Command {
    pub open spec fn opcode_spec(self) -> u8 {
        match self {
            Command::GetVersion => 0xA1,
            Command::GetHelp => 0xA2,
            Command::GetDeviceId => 0xA3,
            Command::GetRdpLevel => 0xA4,
            Command::JumpToAddress => 0xA5,
            Command::FlashErase => 0xA6,
            Command::MemoryWrite => 0xA7,
            Command::MemoryRead => 0xA8,
            Command::SetRwProtection => 0xA9,
            Command::GetRwProtection => 0xAA,
        }
    }

    /// Header length in bytes, the length byte included; for a memory write
    /// the payload comes on top of it.
    pub open spec fn header_length_spec(self) -> u8 {
        match self {
            Command::JumpToAddress => 10,
            Command::FlashErase => 8,
            Command::MemoryWrite => 11,
            Command::MemoryRead => 11,
            Command::SetRwProtection => 8,
            _ => 6,
        }
    }

    pub fn opcode(&self) -> (r: u8)
        ensures
            r == self.opcode_spec(),
    {
        match self {
            Command::GetVersion => 0xA1,
            Command::GetHelp => 0xA2,
            Command::GetDeviceId => 0xA3,
            Command::GetRdpLevel => 0xA4,
            Command::JumpToAddress => 0xA5,
            Command::FlashErase => 0xA6,
            Command::MemoryWrite => 0xA7,
            Command::MemoryRead => 0xA8,
            Command::SetRwProtection => 0xA9,
            Command::GetRwProtection => 0xAA,
        }
    }

    pub fn header_length(&self) -> (r: u8)
        ensures
            r == self.header_length_spec(),
    {
        match self {
            Command::JumpToAddress => 10,
            Command::FlashErase => 8,
            Command::MemoryWrite => MEMORY_WRITE_BASE_LENGTH,
            Command::MemoryRead => 11,
            Command::SetRwProtection => 8,
            _ => 6,
        }
    }

    /// The command with the given opcode, if there is one.
    pub fn from_opcode(opcode: u8) -> (r: Option<Command>)
        ensures
            r matches Some(c) ==> c.opcode_spec() == opcode,
            r is None <==> (forall|c: Command| c.opcode_spec() != opcode),
    {
        let r = if opcode == 0xA1 {
            Some(Command::GetVersion)
        } else if opcode == 0xA2 {
            Some(Command::GetHelp)
        } else if opcode == 0xA3 {
            Some(Command::GetDeviceId)
        } else if opcode == 0xA4 {
            Some(Command::GetRdpLevel)
        } else if opcode == 0xA5 {
            Some(Command::JumpToAddress)
        } else if opcode == 0xA6 {
            Some(Command::FlashErase)
        } else if opcode == 0xA7 {
            Some(Command::MemoryWrite)
        } else if opcode == 0xA8 {
            Some(Command::MemoryRead)
        } else if opcode == 0xA9 {
            Some(Command::SetRwProtection)
        } else if opcode == 0xAA {
            Some(Command::GetRwProtection)
        } else {
            None
        };
        proof {
            if r is None {
                assert forall|c: Command| c.opcode_spec() != opcode by {
                    match c {
                        _ => {},
                    }
                }
            }
        }
        r
    }
}

} // verus!
