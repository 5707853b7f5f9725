use vstd::prelude::*;

use crate::isa::{decode_instruction, decode_register, register_id, Instructions, MachineError, Registers};
use crate::ptr::add16;

verus! {

/// The mathematical state of a machine: the register file by id, the
/// frame-size counter, and the memory bytes by address.
pub struct MachineModel {
    pub registers: Seq<u16>,
    pub frame_size: u16,
    pub memory: Seq<u8>,
}

/// The number of general registers, saved and restored by a call.
pub open spec fn general_count() -> nat {
    8
}

/// Position in the register file of the first general register, R1.
pub open spec fn first_general() -> int {
    4
}

impl MachineModel {
    /// Twelve registers, and a memory that the stack pointer's start fits in.
    pub open spec fn wf(self) -> bool {
        &&& self.registers.len() == 12
        &&& 2 <= self.memory.len() <= 65536
    }

    pub open spec fn reg(self, r: Registers) -> u16 {
        self.registers[register_id(r) as int]
    }

    pub open spec fn ip(self) -> u16 {
        self.reg(Registers::IP)
    }

    pub open spec fn sp(self) -> u16 {
        self.reg(Registers::SP)
    }

    pub open spec fn fp(self) -> u16 {
        self.reg(Registers::FP)
    }

    pub open spec fn acc(self) -> u16 {
        self.reg(Registers::ACC)
    }

    /// The general registers R1..R8, in order.
    pub open spec fn general(self) -> Seq<u16> {
        self.registers.subrange(first_general(), first_general() + general_count())
    }

    pub open spec fn with_reg(self, r: Registers, v: u16) -> MachineModel {
        MachineModel { registers: self.registers.update(register_id(r) as int, v), ..self }
    }

    pub open spec fn with_frame_size(self, v: u16) -> MachineModel {
        MachineModel { frame_size: v, ..self }
    }

    /// The byte at `a` lies inside memory.
    pub open spec fn addr_ok(self, a: u16) -> bool {
        (a as int) < self.memory.len()
    }

    /// Both bytes of the word at `a` lie inside memory.
    pub open spec fn word_ok(self, a: u16) -> bool {
        self.addr_ok(a) && self.addr_ok(add16(a, 1))
    }

    pub open spec fn byte(self, a: u16) -> u8 {
        self.memory[a as int]
    }

    /// The big-endian word at `a`: high byte at `a`, low byte after it.
    pub open spec fn word(self, a: u16) -> u16 {
        (self.byte(a) as int * 256 + self.byte(add16(a, 1)) as int) as u16
    }

    /// Stores `v` at `a`; an address outside memory changes nothing.
    pub open spec fn with_byte(self, a: u16, v: u8) -> MachineModel {
        if self.addr_ok(a) {
            MachineModel { memory: self.memory.update(a as int, v), ..self }
        } else {
            self
        }
    }

    /// Stores `v` big-endian at `a`.
    pub open spec fn with_word(self, a: u16, v: u16) -> MachineModel {
        self.with_byte(a, (v / 256) as u8).with_byte(add16(a, 1), (v % 256) as u8)
    }

    /// Reads the byte at IP and advances IP by one.
    pub open spec fn fetch(self) -> (MachineModel, u8) {
        (self.with_reg(Registers::IP, add16(self.ip(), 1)), self.byte(self.ip()))
    }

    /// Reads the word at IP and advances IP by two.
    pub open spec fn fetch16(self) -> (MachineModel, u16) {
        (self.with_reg(Registers::IP, add16(self.ip(), 2)), self.word(self.ip()))
    }

    /// Fetches a word operand, failing where it lies outside memory.
    pub open spec fn fetch16_checked(self) -> (MachineModel, Result<u16, MachineError>) {
        if self.word_ok(self.ip()) {
            (self.fetch16().0, Ok(self.fetch16().1))
        } else {
            (self, Err(MachineError::OutOfBounds))
        }
    }

    /// Fetches a register-id operand and decodes it.
    pub open spec fn fetch_register(self) -> (MachineModel, Result<Registers, MachineError>) {
        if self.addr_ok(self.ip()) {
            (self.fetch().0, decode_register(self.fetch().1))
        } else {
            (self, Err(MachineError::OutOfBounds))
        }
    }

    /// Writes `v` at SP, moves SP two bytes down, and counts two more bytes
    /// in the current frame.
    pub open spec fn push(self, v: u16) -> MachineModel {
        let s = self.with_word(self.sp(), v);
        MachineModel {
            registers: s.registers.update(register_id(Registers::SP) as int, add16(self.sp(), -2)),
            frame_size: add16(self.frame_size, 2),
            memory: s.memory,
        }
    }

    /// Moves SP two bytes up, counts two fewer bytes in the current frame,
    /// and reads the word now at SP.
    pub open spec fn pop(self) -> (MachineModel, u16) {
        let sp = add16(self.sp(), 2);
        (
            MachineModel {
                registers: self.registers.update(register_id(Registers::SP) as int, sp),
                frame_size: add16(self.frame_size, -2),
                memory: self.memory,
            },
            self.word(sp),
        )
    }

    /// The words of `n` pushes starting at SP all lie inside memory.
    pub open spec fn push_room(self, n: nat) -> bool {
        forall|i: int| 0 <= i < n ==> #[trigger] self.word_ok(add16(self.sp(), -2 * i))
    }

    /// The words of `n` pops from a stack pointer at `base` all lie inside
    /// memory.
    pub open spec fn pop_room(self, base: u16, n: nat) -> bool {
        forall|i: int| 1 <= i <= n ==> #[trigger] self.word_ok(add16(base, 2 * i))
    }

    /// Pushes the first `n` general registers in ascending order.
    pub open spec fn push_general(self, n: nat) -> MachineModel
        decreases n,
    {
        if n == 0 {
            self
        } else {
            let s = self.push_general((n - 1) as nat);
            s.push(s.registers[first_general() + n - 1])
        }
    }

    /// Saves the state for a call: the general registers, IP, then the frame
    /// size of the saved block; FP marks the block and the callee's frame
    /// starts empty.
    pub open spec fn push_state(self) -> MachineModel {
        let s1 = self.push_general(general_count());
        let s2 = s1.push(s1.ip());
        let s3 = s2.push(add16(s2.frame_size, 2));
        s3.with_reg(Registers::FP, s3.sp()).with_frame_size(0)
    }

    /// Pops `n` words into the general registers, from R8 downwards.
    pub open spec fn pop_general(self, n: nat) -> MachineModel
        decreases n,
    {
        if n == 0 {
            self
        } else {
            let s = self.pop_general((n - 1) as nat);
            let p = s.pop();
            MachineModel {
                registers: p.0.registers.update(first_general() + general_count() - n, p.1),
                ..p.0
            }
        }
    }

    /// Pops `n` words and drops them.
    pub open spec fn discard(self, n: nat) -> MachineModel
        decreases n,
    {
        if n == 0 {
            self
        } else {
            self.discard((n - 1) as nat).pop().0
        }
    }

    /// Pushes `vals` in order, the first one first.
    pub open spec fn push_all(self, vals: Seq<u16>) -> MachineModel
        decreases vals.len(),
    {
        if vals.len() == 0 {
            self
        } else {
            self.push_all(vals.drop_last()).push(vals.last())
        }
    }

    /// Pops `n` words; the values in the order they were popped.
    pub open spec fn pop_many(self, n: nat) -> (MachineModel, Seq<u16>)
        decreases n,
    {
        if n == 0 {
            (self, Seq::empty())
        } else {
            let p = self.pop();
            let r = p.0.pop_many((n - 1) as nat);
            (r.0, seq![p.1] + r.1)
        }
    }

    /// Offset from FP of the argument-count word of a saved block.
    pub open spec fn arg_count_addr(self) -> u16 {
        add16(self.fp(), 2 * (general_count() + 3) as int)
    }

    /// Every pop of a state restore lies inside memory.
    pub open spec fn pop_state_ok(self) -> bool {
        &&& self.pop_room(self.fp(), general_count() + 3)
        &&& self.pop_room(self.arg_count_addr(), self.word(self.arg_count_addr()) as nat)
    }

    /// Restores the state saved by a call: from the block at FP, the frame
    /// size, IP and the general registers; then drops the caller's
    /// arguments, and sets FP past the block by the frame size left.
    pub open spec fn pop_state(self) -> MachineModel {
        let boundary = self.fp();
        let s0 = self.with_reg(Registers::SP, boundary);
        let p1 = s0.pop();
        let s1 = p1.0.with_frame_size(p1.1);
        let p2 = s1.pop();
        let s2 = p2.0.with_reg(Registers::IP, p2.1);
        let s3 = s2.pop_general(general_count());
        let p4 = s3.pop();
        let s5 = p4.0.discard(p4.1 as nat);
        s5.with_reg(Registers::FP, add16(boundary, s5.frame_size as int))
    }

    /// Saves the state and continues at `target`, or fails where the saved
    /// block does not fit.
    pub open spec fn call(self, target: u16) -> (MachineModel, Result<(), MachineError>) {
        if self.push_room(general_count() + 2) {
            (self.push_state().with_reg(Registers::IP, target), Ok(()))
        } else {
            (self, Err(MachineError::OutOfBounds))
        }
    }

    /// Executes `instr`, whose opcode has been fetched, reading its operands
    /// from IP onwards.
    #[verifier::opaque]
    pub open spec fn execute(self, instr: Instructions) -> (MachineModel, Result<(), MachineError>) {
        match instr {
            Instructions::MoveLitToReg => {
                let f1 = self.fetch16_checked();
                match f1.1 {
                    Err(e) => (f1.0, Err(e)),
                    Ok(lit) => {
                        let f2 = f1.0.fetch_register();
                        match f2.1 {
                            Err(e) => (f2.0, Err(e)),
                            Ok(dest) => (f2.0.with_reg(dest, lit), Ok(())),
                        }
                    },
                }
            },
            Instructions::MoveRegToReg => {
                let f1 = self.fetch_register();
                match f1.1 {
                    Err(e) => (f1.0, Err(e)),
                    Ok(src) => {
                        let f2 = f1.0.fetch_register();
                        match f2.1 {
                            Err(e) => (f2.0, Err(e)),
                            Ok(dest) => (f2.0.with_reg(dest, f2.0.reg(src)), Ok(())),
                        }
                    },
                }
            },
            Instructions::MoveRegToMem => {
                let f1 = self.fetch_register();
                match f1.1 {
                    Err(e) => (f1.0, Err(e)),
                    Ok(src) => {
                        let f2 = f1.0.fetch16_checked();
                        match f2.1 {
                            Err(e) => (f2.0, Err(e)),
                            Ok(addr) => if f2.0.word_ok(addr) {
                                (f2.0.with_word(addr, f2.0.reg(src)), Ok(()))
                            } else {
                                (f2.0, Err(MachineError::OutOfBounds))
                            },
                        }
                    },
                }
            },
            Instructions::MoveMemToReg => {
                let f1 = self.fetch16_checked();
                match f1.1 {
                    Err(e) => (f1.0, Err(e)),
                    Ok(addr) => {
                        let f2 = f1.0.fetch_register();
                        match f2.1 {
                            Err(e) => (f2.0, Err(e)),
                            Ok(dest) => if f2.0.word_ok(addr) {
                                (f2.0.with_reg(dest, f2.0.word(addr)), Ok(()))
                            } else {
                                (f2.0, Err(MachineError::OutOfBounds))
                            },
                        }
                    },
                }
            },
            Instructions::AddRegReg => {
                let f1 = self.fetch_register();
                match f1.1 {
                    Err(e) => (f1.0, Err(e)),
                    Ok(r1) => {
                        let f2 = f1.0.fetch_register();
                        match f2.1 {
                            Err(e) => (f2.0, Err(e)),
                            Ok(r2) => (
                                f2.0.with_reg(
                                    Registers::ACC,
                                    add16(f2.0.reg(r1), f2.0.reg(r2) as int),
                                ),
                                Ok(()),
                            ),
                        }
                    },
                }
            },
            Instructions::JmpNotEq => {
                let f1 = self.fetch16_checked();
                match f1.1 {
                    Err(e) => (f1.0, Err(e)),
                    Ok(lit) => {
                        let f2 = f1.0.fetch16_checked();
                        match f2.1 {
                            Err(e) => (f2.0, Err(e)),
                            Ok(target) => if lit != f2.0.acc() {
                                (f2.0.with_reg(Registers::IP, target), Ok(()))
                            } else {
                                (f2.0, Ok(()))
                            },
                        }
                    },
                }
            },
            Instructions::PushLit => {
                let f1 = self.fetch16_checked();
                match f1.1 {
                    Err(e) => (f1.0, Err(e)),
                    Ok(v) => if f1.0.word_ok(f1.0.sp()) {
                        (f1.0.push(v), Ok(()))
                    } else {
                        (f1.0, Err(MachineError::OutOfBounds))
                    },
                }
            },
            Instructions::PushReg => {
                let f1 = self.fetch_register();
                match f1.1 {
                    Err(e) => (f1.0, Err(e)),
                    Ok(r) => if f1.0.word_ok(f1.0.sp()) {
                        (f1.0.push(f1.0.reg(r)), Ok(()))
                    } else {
                        (f1.0, Err(MachineError::OutOfBounds))
                    },
                }
            },
            Instructions::Pop => {
                let f1 = self.fetch_register();
                match f1.1 {
                    Err(e) => (f1.0, Err(e)),
                    Ok(r) => if f1.0.word_ok(add16(f1.0.sp(), 2)) {
                        (f1.0.pop().0.with_reg(r, f1.0.pop().1), Ok(()))
                    } else {
                        (f1.0, Err(MachineError::OutOfBounds))
                    },
                }
            },
            Instructions::CallLit => {
                let f1 = self.fetch16_checked();
                match f1.1 {
                    Err(e) => (f1.0, Err(e)),
                    Ok(target) => f1.0.call(target),
                }
            },
            Instructions::CallReg => {
                let f1 = self.fetch_register();
                match f1.1 {
                    Err(e) => (f1.0, Err(e)),
                    Ok(r) => f1.0.call(f1.0.reg(r)),
                }
            },
            Instructions::Ret => if self.pop_state_ok() {
                (self.pop_state(), Ok(()))
            } else {
                (self, Err(MachineError::OutOfBounds))
            },
            Instructions::Hlt => (self, Err(MachineError::Halted)),
        }
    }

    /// One step: fetch the opcode at IP, decode it, execute it.
    #[verifier::opaque]
    pub open spec fn step(self) -> (MachineModel, Result<(), MachineError>) {
        if !self.addr_ok(self.ip()) {
            (self, Err(MachineError::OutOfBounds))
        } else {
            let f = self.fetch();
            match decode_instruction(f.1) {
                Err(e) => (f.0, Err(e)),
                Ok(instr) => f.0.execute(instr),
            }
        }
    }
}

} // verus!

verus! {

/// What saving the first `n` general registers changes: SP, the frame-size
/// counter, and memory below the old SP; nothing else.
pub proof fn lemma_push_general(s: MachineModel, n: nat)
    requires
        s.wf(),
    ensures
        s.push_general(n).registers.len() == 12,
        s.push_general(n).memory.len() == s.memory.len(),
        s.push_general(n).sp() == add16(s.sp(), -2 * n),
        s.push_general(n).frame_size == add16(s.frame_size, 2 * n as int),
        forall|j: int| 0 <= j < 12 && j != 1 ==> s.push_general(n).registers[j] == s.registers[j],
    decreases n,
{
    if n == 0 {
        crate::ptr::lemma_add16_zero(s.sp());
        crate::ptr::lemma_add16_zero(s.frame_size);
    } else {
        lemma_push_general(s, (n - 1) as nat);
        crate::ptr::lemma_add16_add16(s.sp(), -2 * (n - 1), -2);
        crate::ptr::lemma_add16_add16(s.frame_size, 2 * (n - 1), 2);
    }
}

/// What restoring `n` general registers changes: SP moves up by `2 * n`, the
/// counter down by as much; memory, IP, FP and ACC stay.
pub proof fn lemma_pop_general(s: MachineModel, n: nat)
    requires
        s.wf(),
        n <= general_count(),
    ensures
        s.pop_general(n).registers.len() == 12,
        s.pop_general(n).memory == s.memory,
        s.pop_general(n).sp() == add16(s.sp(), 2 * n as int),
        s.pop_general(n).frame_size == add16(s.frame_size, -2 * n),
        forall|j: int| 0 <= j < 12 && j != 1 && j < 12 - n ==> s.pop_general(n).registers[j] == s.registers[j],
    decreases n,
{
    if n == 0 {
        crate::ptr::lemma_add16_zero(s.sp());
        crate::ptr::lemma_add16_zero(s.frame_size);
    } else {
        lemma_pop_general(s, (n - 1) as nat);
        crate::ptr::lemma_add16_add16(s.sp(), 2 * (n - 1), 2);
        crate::ptr::lemma_add16_add16(s.frame_size, -2 * (n - 1), -2);
    }
}

/// What dropping `n` words changes: SP moves up by `2 * n`, the counter down
/// by as much; memory and the other registers stay.
pub proof fn lemma_discard(s: MachineModel, n: nat)
    requires
        s.wf(),
    ensures
        s.discard(n).registers.len() == 12,
        s.discard(n).memory == s.memory,
        s.discard(n).sp() == add16(s.sp(), 2 * n as int),
        s.discard(n).frame_size == add16(s.frame_size, -2 * n),
        forall|j: int| 0 <= j < 12 && j != 1 ==> s.discard(n).registers[j] == s.registers[j],
    decreases n,
{
    if n == 0 {
        crate::ptr::lemma_add16_zero(s.sp());
        crate::ptr::lemma_add16_zero(s.frame_size);
    } else {
        lemma_discard(s, (n - 1) as nat);
        crate::ptr::lemma_add16_add16(s.sp(), 2 * (n - 1), 2);
        crate::ptr::lemma_add16_add16(s.frame_size, -2 * (n - 1), -2);
    }
}

} // verus!
