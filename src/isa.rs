use vstd::prelude::*;

verus! {

/// The instruction set. Each instruction is one opcode byte followed by its
/// operands, which the execute stage reads from the instruction stream.
#[derive(Clone, Copy, Debug, PartialEq, Eq, Structural)]
pub enum Instructions {
    /// Literal (u16), destination register: register := literal.
    MoveLitToReg,
    /// Source register, destination register: copies a register.
    MoveRegToReg,
    /// Source register, address (u16): stores the register at the address.
    MoveRegToMem,
    /// Address (u16), destination register: loads the word at the address.
    MoveMemToReg,
    /// Two registers: the accumulator takes their sum.
    AddRegReg,
    /// Evaluates a value and modifies the IP (Instruction Pointer) to a
    /// provided address on not equal
    JmpNotEq,
    /// Pushes a literal from the instructions onto the stack
    PushLit,
    /// Pushes the current value in a specified register onto the stack
    PushReg,
    /// Moves the stack points by one value to remove the item at the top
    Pop,
    /// Stashes the current machine state on the stack and moves the IP
    /// to the location specified from the next u16 instructions literal
    CallLit,
    /// Stashes the current machine state on the stack and moves the IP
    /// to the location specified from the register identity provided
    CallReg,
    /// Resets the machine state from the last stack frame values and moves
    /// the IP back to the prior instruction location
    Ret,
    /// Stops the machine
    Hlt,
}

/// The register file's slots, in the order of their ids.
#[derive(Clone, Copy, Debug, PartialEq, Eq, Structural)]
pub enum Registers {
    /// [IP] Instruction Pointer holds a pointer to the current location
    /// the machine should load instructions from
    IP,
    /// [SP] Stack Pointer tracks the current position of the stack
    /// within main memory
    SP,
    /// [FP] Frame Pointer enables jumping by tracking where in the stack
    /// to unroll prior state back into registers
    FP,
    /// [ACC] Accumulator is the standard destination for storing the
    /// result of operations
    ACC,
    R1,
    R2,
    R3,
    R4,
    R5,
    R6,
    R7,
    R8,
}

/// Why a step failed.
#[derive(Clone, Copy, Debug, PartialEq, Eq, Structural)]
pub enum MachineError {
    /// The fetched opcode byte names no instruction.
    InvalidInstruction(u8),
    /// The fetched register-id byte names no register.
    InvalidRegister(u8),
    /// The instruction reached memory outside the machine's capacity.
    OutOfBounds,
    /// The instruction was `Hlt`: the driver stops stepping.
    Halted,
}

/// The opcode byte of each instruction.
pub open spec fn opcode_of(i: Instructions) -> u8 {
    match i {
        Instructions::MoveLitToReg => 0x10,
        Instructions::MoveRegToReg => 0x11,
        Instructions::MoveRegToMem => 0x12,
        Instructions::MoveMemToReg => 0x13,
        Instructions::AddRegReg => 0x14,
        Instructions::JmpNotEq => 0x15,
        Instructions::PushLit => 0x17,
        Instructions::PushReg => 0x18,
        Instructions::Pop => 0x19,
        Instructions::CallLit => 0x5E,
        Instructions::CallReg => 0x5F,
        Instructions::Ret => 0x60,
        Instructions::Hlt => 0xFF,
    }
}

/// The bytes that are the opcode of some instruction.
pub open spec fn is_opcode(b: u8) -> bool {
    0x10 <= b <= 0x15 || 0x17 <= b <= 0x19 || 0x5E <= b <= 0x60 || b == 0xFF
}

/// What an opcode byte decodes to.
pub open spec fn decode_instruction(b: u8) -> Result<Instructions, MachineError> {
    if b == 0x10 {
        Ok(Instructions::MoveLitToReg)
    } else if b == 0x11 {
        Ok(Instructions::MoveRegToReg)
    } else if b == 0x12 {
        Ok(Instructions::MoveRegToMem)
    } else if b == 0x13 {
        Ok(Instructions::MoveMemToReg)
    } else if b == 0x14 {
        Ok(Instructions::AddRegReg)
    } else if b == 0x15 {
        Ok(Instructions::JmpNotEq)
    } else if b == 0x17 {
        Ok(Instructions::PushLit)
    } else if b == 0x18 {
        Ok(Instructions::PushReg)
    } else if b == 0x19 {
        Ok(Instructions::Pop)
    } else if b == 0x5E {
        Ok(Instructions::CallLit)
    } else if b == 0x5F {
        Ok(Instructions::CallReg)
    } else if b == 0x60 {
        Ok(Instructions::Ret)
    } else if b == 0xFF {
        Ok(Instructions::Hlt)
    } else {
        Err(MachineError::InvalidInstruction(b))
    }
}

/// The id byte of each register: its position in the register file.
pub open spec fn register_id(r: Registers) -> u8 {
    match r {
        Registers::IP => 0x00,
        Registers::SP => 0x01,
        Registers::FP => 0x02,
        Registers::ACC => 0x03,
        Registers::R1 => 0x04,
        Registers::R2 => 0x05,
        Registers::R3 => 0x06,
        Registers::R4 => 0x07,
        Registers::R5 => 0x08,
        Registers::R6 => 0x09,
        Registers::R7 => 0x0A,
        Registers::R8 => 0x0B,
    }
}

/// The register with id `b`, for `b` below twelve.
pub open spec fn register_at(b: u8) -> Registers {
    if b == 0 {
        Registers::IP
    } else if b == 1 {
        Registers::SP
    } else if b == 2 {
        Registers::FP
    } else if b == 3 {
        Registers::ACC
    } else if b == 4 {
        Registers::R1
    } else if b == 5 {
        Registers::R2
    } else if b == 6 {
        Registers::R3
    } else if b == 7 {
        Registers::R4
    } else if b == 8 {
        Registers::R5
    } else if b == 9 {
        Registers::R6
    } else if b == 10 {
        Registers::R7
    } else {
        Registers::R8
    }
}

/// What a register-id byte decodes to.
pub open spec fn decode_register(b: u8) -> Result<Registers, MachineError> {
    if b < 12 {
        Ok(register_at(b))
    } else {
        Err(MachineError::InvalidRegister(b))
    }
}

impl Instructions {
    /// The opcode byte of this instruction.
    pub fn opcode(&self) -> (r: u8)
        ensures
            r == opcode_of(*self),
    {
        match self {
            Instructions::MoveLitToReg => 0x10,
            Instructions::MoveRegToReg => 0x11,
            Instructions::MoveRegToMem => 0x12,
            Instructions::MoveMemToReg => 0x13,
            Instructions::AddRegReg => 0x14,
            Instructions::JmpNotEq => 0x15,
            Instructions::PushLit => 0x17,
            Instructions::PushReg => 0x18,
            Instructions::Pop => 0x19,
            Instructions::CallLit => 0x5E,
            Instructions::CallReg => 0x5F,
            Instructions::Ret => 0x60,
            Instructions::Hlt => 0xFF,
        }
    }

    /// Decodes an opcode byte; a byte that is no opcode is
    /// `InvalidInstruction` carrying that byte.
    pub fn decode(b: u8) -> (r: Result<Instructions, MachineError>)
        ensures
            r == decode_instruction(b),
            is_opcode(b) <==> r is Ok,
            r matches Ok(i) ==> opcode_of(i) == b,
            !is_opcode(b) ==> r == Err::<Instructions, MachineError>(
                MachineError::InvalidInstruction(b),
            ),
    {
        match b {
            0x10 => Ok(Instructions::MoveLitToReg),
            0x11 => Ok(Instructions::MoveRegToReg),
            0x12 => Ok(Instructions::MoveRegToMem),
            0x13 => Ok(Instructions::MoveMemToReg),
            0x14 => Ok(Instructions::AddRegReg),
            0x15 => Ok(Instructions::JmpNotEq),
            0x17 => Ok(Instructions::PushLit),
            0x18 => Ok(Instructions::PushReg),
            0x19 => Ok(Instructions::Pop),
            0x5E => Ok(Instructions::CallLit),
            0x5F => Ok(Instructions::CallReg),
            0x60 => Ok(Instructions::Ret),
            0xFF => Ok(Instructions::Hlt),
            _ => Err(MachineError::InvalidInstruction(b)),
        }
    }
}

impl Registers {
    /// The id byte of this register.
    pub fn id(&self) -> (r: u8)
        ensures
            r == register_id(*self),
            r < 12,
    {
        match self {
            Registers::IP => 0x00,
            Registers::SP => 0x01,
            Registers::FP => 0x02,
            Registers::ACC => 0x03,
            Registers::R1 => 0x04,
            Registers::R2 => 0x05,
            Registers::R3 => 0x06,
            Registers::R4 => 0x07,
            Registers::R5 => 0x08,
            Registers::R6 => 0x09,
            Registers::R7 => 0x0A,
            Registers::R8 => 0x0B,
        }
    }

    /// The position of this register in the register file.
    pub fn index(&self) -> (r: usize)
        ensures
            r == register_id(*self) as usize,
            r < 12,
    {
        self.id() as usize
    }

    /// Decodes a register-id byte; a byte above 0x0B is `InvalidRegister`
    /// carrying that byte.
    pub fn decode(b: u8) -> (r: Result<Registers, MachineError>)
        ensures
            r == decode_register(b),
            b < 12 <==> r is Ok,
            r matches Ok(reg) ==> register_id(reg) == b,
            b >= 12 ==> r == Err::<Registers, MachineError>(MachineError::InvalidRegister(b)),
    {
        match b {
            0x00 => Ok(Registers::IP),
            0x01 => Ok(Registers::SP),
            0x02 => Ok(Registers::FP),
            0x03 => Ok(Registers::ACC),
            0x04 => Ok(Registers::R1),
            0x05 => Ok(Registers::R2),
            0x06 => Ok(Registers::R3),
            0x07 => Ok(Registers::R4),
            0x08 => Ok(Registers::R5),
            0x09 => Ok(Registers::R6),
            0x0A => Ok(Registers::R7),
            0x0B => Ok(Registers::R8),
            _ => Err(MachineError::InvalidRegister(b)),
        }
    }
}

} // verus!
