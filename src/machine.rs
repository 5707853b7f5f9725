use vstd::prelude::*;

use crate::isa::{Instructions, MachineError, Registers};
use crate::memory_window::MemoryWindow;
use crate::model::{
    general_count, lemma_discard, lemma_pop_general, lemma_push_general, MachineModel,
};
use crate::ptr::{add16, lemma_add16_add16, lemma_add16_zero, wrap_add, wrap_sub, Ptr};

verus! {

/// Position of IP in the register file.
const IP_INDEX: usize = 0;

/// Position of SP in the register file.
const SP_INDEX: usize = 1;

/// Position of FP in the register file.
const FP_INDEX: usize = 2;

/// Position of R1 in the register file.
const R1_INDEX: usize = 4;

/// Position of R8 in the register file.
const R8_INDEX: usize = 11;

/// A register machine with a memory of fixed capacity.
pub struct Machine {
    /// The register file, indexed by register id.
    pub registers: Vec<u16>,
    /// Bytes pushed within the current call frame.
    pub stack_frame_size: u16,
    /// The memory; its length is set at construction and never changes.
    pub memory: Vec<u8>,
}

impl View for Machine {
    type V = MachineModel;

    open spec fn view(&self) -> MachineModel {
        MachineModel {
            registers: self.registers@,
            frame_size: self.stack_frame_size,
            memory: self.memory@,
        }
    }
}

impl MachineModel {
    /// A fresh machine with `len` bytes of memory: all zero, but SP and FP,
    /// which point at the last word of memory.
    pub open spec fn initial(len: nat) -> MachineModel {
        MachineModel {
            registers: Seq::new(
                12,
                |i: int|
                    if i == 1 || i == 2 {
                        (len - 2) as u16
                    } else {
                        0u16
                    },
            ),
            frame_size: 0,
            memory: Seq::new(len, |i: int| 0u8),
        }
    }
}

impl Machine {
    /// Builds a machine with `memory_length` bytes of zeroed memory, all
    /// registers zero but SP and FP, which start at `memory_length - 2`.
    pub fn new(memory_length: usize) -> (r: Machine)
        requires
            2 <= memory_length <= 65536,
        ensures
            r@ == MachineModel::initial(memory_length as nat),
            r@.wf(),
    {
        let mut registers: Vec<u16> = Vec::new();
        let mut i: usize = 0;
        while i < 12
            invariant
                i <= 12,
                registers@ == Seq::new(i as nat, |k: int| 0u16),
            decreases 12 - i,
        {
            registers.push(0);
            i += 1;
            assert(registers@ =~= Seq::new(i as nat, |k: int| 0u16));
        }
        let top = (memory_length - 2) as u16;
        registers.set(SP_INDEX, top);
        registers.set(FP_INDEX, top);
        let mut memory: Vec<u8> = Vec::with_capacity(memory_length);
        let mut j: usize = 0;
        while j < memory_length
            invariant
                j <= memory_length,
                memory@ == Seq::new(j as nat, |k: int| 0u8),
            decreases memory_length - j,
        {
            memory.push(0);
            j += 1;
            assert(memory@ =~= Seq::new(j as nat, |k: int| 0u8));
        }
        let r = Machine { registers, stack_frame_size: 0, memory };
        assert(r@.registers =~= MachineModel::initial(memory_length as nat).registers);
        r
    }

    /// The value held by register `reg`.
    pub fn register(&self, reg: Registers) -> (r: u16)
        requires
            self@.wf(),
        ensures
            r == self@.reg(reg),
    {
        self.registers[reg.index()]
    }

    /// The number of bytes of memory.
    pub fn memory_length(&self) -> (r: usize)
        ensures
            r == self@.memory.len(),
    {
        self.memory.len()
    }

    /// A view of `len` bytes of memory from `addr`, cut short where memory
    /// ends.
    pub fn get_window(&self, addr: Ptr, len: u16) -> (r: MemoryWindow<'_>)
        ensures
            r.start() == addr,
            r.bytes() == self@.memory.subrange(
                vstd::math::min(addr.0 as int, self@.memory.len() as int),
                vstd::math::min(addr.0 as int + len as int, self@.memory.len() as int),
            ),
    {
        let size = self.memory.len();
        let start = if (addr.0 as usize) < size {
            addr.0 as usize
        } else {
            size
        };
        let end = if (addr.0 as usize) + (len as usize) < size {
            (addr.0 as usize) + (len as usize)
        } else {
            size
        };
        let data = vstd::slice::slice_subrange(self.memory.as_slice(), start, end);
        MemoryWindow::new(addr, data)
    }

    /// Sets register `reg` to `value`.
    pub fn set_register(&mut self, reg: Registers, value: u16)
        requires
            old(self)@.wf(),
        ensures
            final(self)@ == old(self)@.with_reg(reg, value),
            final(self)@.wf(),
    {
        self.registers.set(reg.index(), value);
    }

    /// The byte at `addr`.
    pub fn get(&self, addr: Ptr) -> (r: u8)
        requires
            self@.addr_ok(addr.0),
        ensures
            r == self@.byte(addr.0),
    {
        self.memory[addr.0 as usize]
    }

    /// The big-endian word at `addr`: the byte at `addr` is the high byte.
    pub fn get16(&self, addr: Ptr) -> (r: u16)
        requires
            self@.word_ok(addr.0),
        ensures
            r == self@.word(addr.0),
    {
        let high = self.get(addr);
        let low = self.get(addr.offset(1));
        (high as u16) * 256 + (low as u16)
    }

    /// Stores the byte `data` at `addr`.
    pub fn set8(&mut self, addr: Ptr, data: u8)
        requires
            old(self)@.wf(),
            old(self)@.addr_ok(addr.0),
        ensures
            final(self)@ == old(self)@.with_byte(addr.0, data),
            final(self)@.wf(),
    {
        self.memory.set(addr.0 as usize, data);
    }

    /// Stores `data` big-endian at `addr`.
    pub fn set16(&mut self, addr: Ptr, data: u16)
        requires
            old(self)@.wf(),
            old(self)@.word_ok(addr.0),
        ensures
            final(self)@ == old(self)@.with_word(addr.0, data),
            final(self)@.wf(),
    {
        self.set8(addr, (data / 256) as u8);
        self.set8(addr.offset(1), (data % 256) as u8);
    }

    /// Reads the byte at IP and advances IP by one.
    pub fn fetch(&mut self) -> (r: u8)
        requires
            old(self)@.wf(),
            old(self)@.addr_ok(old(self)@.ip()),
        ensures
            (final(self)@, r) == old(self)@.fetch(),
            final(self)@.wf(),
    {
        let ip = self.registers[IP_INDEX];
        let instruction = self.get(Ptr(ip));
        self.registers.set(IP_INDEX, wrap_add(ip, 1));
        instruction
    }

    /// Reads the big-endian word at IP and advances IP by two.
    pub fn fetch16(&mut self) -> (r: u16)
        requires
            old(self)@.wf(),
            old(self)@.word_ok(old(self)@.ip()),
        ensures
            (final(self)@, r) == old(self)@.fetch16(),
            final(self)@.wf(),
    {
        let ip = self.registers[IP_INDEX];
        let result = self.get16(Ptr(ip));
        self.registers.set(IP_INDEX, wrap_add(ip, 2));
        result
    }

    /// Fetches a word operand, or fails where it lies outside memory.
    fn fetch16_checked(&mut self) -> (r: Result<u16, MachineError>)
        requires
            old(self)@.wf(),
        ensures
            (final(self)@, r) == old(self)@.fetch16_checked(),
            final(self)@.wf(),
    {
        if self.word_fits(self.registers[IP_INDEX]) {
            Ok(self.fetch16())
        } else {
            Err(MachineError::OutOfBounds)
        }
    }

    /// Fetches one byte and decodes it as a register id; fails with
    /// `InvalidRegister` carrying the byte where it names no register.
    pub fn fetch_register_id(&mut self) -> (r: Result<Registers, MachineError>)
        requires
            old(self)@.wf(),
        ensures
            (final(self)@, r) == old(self)@.fetch_register(),
            final(self)@.wf(),
    {
        if (self.registers[IP_INDEX] as usize) < self.memory.len() {
            let b = self.fetch();
            Registers::decode(b)
        } else {
            Err(MachineError::OutOfBounds)
        }
    }

    /// Whether both bytes of the word at `a` lie inside memory.
    fn word_fits(&self, a: u16) -> (r: bool)
        ensures
            r == self@.word_ok(a),
    {
        (a as usize) < self.memory.len() && (wrap_add(a, 1) as usize) < self.memory.len()
    }

    /// Whether the words of `n` pushes from the current SP lie inside memory.
    fn push_fits(&self, n: u16) -> (r: bool)
        requires
            self@.wf(),
        ensures
            r == self@.push_room(n as nat),
    {
        let sp = self.registers[SP_INDEX];
        let mut addr = sp;
        let mut i: u16 = 0;
        proof {
            lemma_add16_zero(sp);
        }
        while i < n
            invariant
                self@.wf(),
                sp == self@.sp(),
                i <= n,
                addr == add16(sp, -2 * i),
                forall|k: int| 0 <= k < i ==> #[trigger] self@.word_ok(add16(sp, -2 * k)),
            decreases n - i,
        {
            if !self.word_fits(addr) {
                return false;
            }
            proof {
                lemma_add16_add16(sp, -2 * i, -2);
            }
            addr = wrap_sub(addr, 2);
            i += 1;
        }
        true
    }

    /// Whether the words of `n` pops from a stack pointer at `base` lie
    /// inside memory.
    fn pop_fits(&self, base: u16, n: u16) -> (r: bool)
        requires
            self@.wf(),
        ensures
            r == self@.pop_room(base, n as nat),
    {
        let mut addr = base;
        let mut i: u16 = 0;
        proof {
            lemma_add16_zero(base);
        }
        while i < n
            invariant
                self@.wf(),
                i <= n,
                addr == add16(base, 2 * i),
                forall|k: int| 1 <= k <= i ==> #[trigger] self@.word_ok(add16(base, 2 * k)),
            decreases n - i,
        {
            proof {
                lemma_add16_add16(base, 2 * i, 2);
            }
            addr = wrap_add(addr, 2);
            i += 1;
            if !self.word_fits(addr) {
                assert(!self@.word_ok(add16(base, 2 * i)));
                return false;
            }
        }
        true
    }

    /// Writes `value` at SP, moves SP two bytes down, and counts two more
    /// bytes in the current frame.
    pub fn push(&mut self, value: u16)
        requires
            old(self)@.wf(),
            old(self)@.word_ok(old(self)@.sp()),
        ensures
            final(self)@ == old(self)@.push(value),
            final(self)@.wf(),
    {
        let sp = self.registers[SP_INDEX];
        self.set16(Ptr(sp), value);
        self.registers.set(SP_INDEX, wrap_sub(sp, 2));
        self.stack_frame_size = wrap_add(self.stack_frame_size, 2);
    }

    /// Moves SP two bytes up, counts two fewer bytes in the current frame,
    /// and returns the word now at SP.
    pub fn pop(&mut self) -> (r: u16)
        requires
            old(self)@.wf(),
            old(self)@.word_ok(add16(old(self)@.sp(), 2)),
        ensures
            (final(self)@, r) == old(self)@.pop(),
            final(self)@.wf(),
    {
        let sp = wrap_add(self.registers[SP_INDEX], 2);
        self.registers.set(SP_INDEX, sp);
        self.stack_frame_size = wrap_sub(self.stack_frame_size, 2);
        self.get16(Ptr(sp))
    }

    /// Saves the state for a call: pushes R1..R8, IP, and the frame size of
    /// the saved block; FP then marks the block and the callee's frame
    /// starts empty.
    pub fn push_state(&mut self)
        requires
            old(self)@.wf(),
            old(self)@.push_room(general_count() + 2),
        ensures
            final(self)@ == old(self)@.push_state(),
            final(self)@.wf(),
    {
        let ghost s0 = self@;
        let mut reg: usize = R1_INDEX;
        while reg <= R8_INDEX
            invariant
                R1_INDEX <= reg <= R8_INDEX + 1,
                self@ == s0.push_general((reg - R1_INDEX) as nat),
                self@.wf(),
                s0.wf(),
                s0.push_room(general_count() + 2),
            decreases R8_INDEX + 1 - reg,
        {
            proof {
                lemma_push_general(s0, (reg - R1_INDEX) as nat);
                assert(s0.word_ok(add16(s0.sp(), -2 * (reg - R1_INDEX) as int)));
            }
            let value = self.registers[reg];
            self.push(value);
            reg += 1;
        }
        proof {
            lemma_push_general(s0, general_count());
            lemma_add16_add16(s0.sp(), -16, -2);
            assert(s0.word_ok(add16(s0.sp(), -2 * 8)));
            assert(s0.word_ok(add16(s0.sp(), -2 * 9)));
        }
        let ip = self.registers[IP_INDEX];
        self.push(ip);
        let size = wrap_add(self.stack_frame_size, 2);
        self.push(size);
        let sp = self.registers[SP_INDEX];
        self.registers.set(FP_INDEX, sp);
        self.stack_frame_size = 0;
    }

    /// Restores the state saved by a call: the frame size, IP and R8..R1 from
    /// the block at FP; then pops the argument count and drops that many
    /// words; FP ends past the block by the frame size left.
    pub fn pop_state(&mut self)
        requires
            old(self)@.wf(),
            old(self)@.pop_state_ok(),
        ensures
            final(self)@ == old(self)@.pop_state(),
            final(self)@.wf(),
    {
        let ghost s = self@;
        let boundary = self.registers[FP_INDEX];
        self.registers.set(SP_INDEX, boundary);
        proof {
            assert(s.word_ok(add16(boundary, 2 * 1int)));
        }
        let saved = self.pop();
        self.stack_frame_size = saved;
        proof {
            lemma_add16_add16(boundary, 2, 2);
            assert(s.word_ok(add16(boundary, 2 * 2int)));
        }
        let ret = self.pop();
        self.registers.set(IP_INDEX, ret);
        let ghost s2 = self@;
        let mut k: usize = 0;
        while k < 8
            invariant
                k <= 8,
                s2.wf(),
                s2.sp() == add16(boundary, 4),
                s2.memory == s.memory,
                self@ == s2.pop_general(k as nat),
                self@.wf(),
                s.pop_state_ok(),
                boundary == s.fp(),
            decreases 8 - k,
        {
            proof {
                lemma_pop_general(s2, k as nat);
                lemma_add16_add16(boundary, 4, 2 * k);
                lemma_add16_add16(boundary, 4 + 2 * k, 2);
                assert(s.word_ok(add16(boundary, 2 * (k + 3))));
            }
            let value = self.pop();
            self.registers.set(R8_INDEX - k, value);
            k += 1;
        }
        proof {
            lemma_pop_general(s2, 8);
            lemma_add16_add16(boundary, 4, 16);
            lemma_add16_add16(boundary, 20, 2);
            assert(s.word_ok(add16(boundary, 2 * 11int)));
        }
        let n_args = self.pop();
        let ghost s4 = self@;
        proof {
            lemma_add16_zero(s4.sp());
        }
        let mut j: u16 = 0;
        while j < n_args
            invariant
                j <= n_args,
                s4.wf(),
                s4.sp() == s.arg_count_addr(),
                s4.memory == s.memory,
                n_args == s.word(s.arg_count_addr()),
                self@ == s4.discard(j as nat),
                self@.wf(),
                s.pop_state_ok(),
            decreases n_args - j,
        {
            proof {
                lemma_discard(s4, j as nat);
                lemma_add16_add16(s4.sp(), 2 * j, 2);
                assert(s.word_ok(add16(s.arg_count_addr(), 2 * (j + 1))));
            }
            self.pop();
            j += 1;
        }
        let size = self.stack_frame_size;
        self.registers.set(FP_INDEX, wrap_add(boundary, size));
    }

    /// Saves the state and continues at `target`, or fails where the saved
    /// block does not fit in memory.
    fn call(&mut self, target: u16) -> (r: Result<(), MachineError>)
        requires
            old(self)@.wf(),
        ensures
            (final(self)@, r) == old(self)@.call(target),
            final(self)@.wf(),
    {
        if self.push_fits(10) {
            self.push_state();
            self.registers.set(IP_INDEX, target);
            Ok(())
        } else {
            Err(MachineError::OutOfBounds)
        }
    }

    /// Executes `instruction`, whose opcode has been fetched: reads its
    /// operands from IP onwards and applies it. Fails on an operand byte
    /// that names no register, on an access outside memory, and on `Hlt`,
    /// which tells the driver to stop.
    #[verifier::spinoff_prover]
    #[verifier::rlimit(50)]
    pub fn execute(&mut self, instruction: Instructions) -> (r: Result<(), MachineError>)
        requires
            old(self)@.wf(),
        ensures
            (final(self)@, r) == old(self)@.execute(instruction),
            final(self)@.wf(),
    {
        proof {
            reveal(MachineModel::execute);
        }
        match instruction {
            Instructions::MoveLitToReg => {
                let lit_value = self.fetch16_checked()?;
                let reg_dest = self.fetch_register_id()?;
                self.set_register(reg_dest, lit_value);
                Ok(())
            },
            Instructions::MoveRegToReg => {
                let reg_src = self.fetch_register_id()?;
                let reg_dest = self.fetch_register_id()?;
                let value = self.register(reg_src);
                self.set_register(reg_dest, value);
                Ok(())
            },
            Instructions::MoveRegToMem => {
                let reg_src = self.fetch_register_id()?;
                let addr_dest = self.fetch16_checked()?;
                if !self.word_fits(addr_dest) {
                    return Err(MachineError::OutOfBounds);
                }
                let value = self.register(reg_src);
                self.set16(Ptr(addr_dest), value);
                Ok(())
            },
            Instructions::MoveMemToReg => {
                let addr_src = self.fetch16_checked()?;
                let reg_dest = self.fetch_register_id()?;
                if !self.word_fits(addr_src) {
                    return Err(MachineError::OutOfBounds);
                }
                let value = self.get16(Ptr(addr_src));
                self.set_register(reg_dest, value);
                Ok(())
            },
            Instructions::AddRegReg => {
                let reg_1 = self.fetch_register_id()?;
                let reg_2 = self.fetch_register_id()?;
                let val_1 = self.register(reg_1);
                let val_2 = self.register(reg_2);
                self.set_register(Registers::ACC, wrap_add(val_1, val_2));
                Ok(())
            },
            Instructions::JmpNotEq => {
                let value = self.fetch16_checked()?;
                let addr = self.fetch16_checked()?;
                if value != self.register(Registers::ACC) {
                    self.set_register(Registers::IP, addr);
                }
                Ok(())
            },
            Instructions::PushLit => {
                let value = self.fetch16_checked()?;
                if !self.word_fits(self.registers[SP_INDEX]) {
                    return Err(MachineError::OutOfBounds);
                }
                self.push(value);
                Ok(())
            },
            Instructions::PushReg => {
                let reg = self.fetch_register_id()?;
                if !self.word_fits(self.registers[SP_INDEX]) {
                    return Err(MachineError::OutOfBounds);
                }
                let value = self.register(reg);
                self.push(value);
                Ok(())
            },
            Instructions::Pop => {
                let reg = self.fetch_register_id()?;
                if !self.word_fits(wrap_add(self.registers[SP_INDEX], 2)) {
                    return Err(MachineError::OutOfBounds);
                }
                let value = self.pop();
                self.set_register(reg, value);
                Ok(())
            },
            Instructions::CallLit => {
                let subroutine_addr = self.fetch16_checked()?;
                self.call(subroutine_addr)
            },
            Instructions::CallReg => {
                let reg = self.fetch_register_id()?;
                let subroutine_addr = self.register(reg);
                self.call(subroutine_addr)
            },
            Instructions::Ret => {
                if !self.pop_state_fits() {
                    return Err(MachineError::OutOfBounds);
                }
                self.pop_state();
                Ok(())
            },
            Instructions::Hlt => Err(MachineError::Halted),
        }
    }

    /// Whether every pop of a state restore lies inside memory.
    fn pop_state_fits(&self) -> (r: bool)
        requires
            self@.wf(),
        ensures
            r == self@.pop_state_ok(),
    {
        let fp = self.registers[FP_INDEX];
        if !self.pop_fits(fp, 11) {
            return false;
        }
        proof {
            assert(self@.word_ok(add16(fp, 2 * 11int)));
        }
        let count_addr = wrap_add(fp, 22);
        let n_args = self.get16(Ptr(count_addr));
        self.pop_fits(count_addr, n_args)
    }

    /// One step: fetches the opcode at IP, decodes it, and executes it.
    pub fn step(&mut self) -> (r: Result<(), MachineError>)
        requires
            old(self)@.wf(),
        ensures
            (final(self)@, r) == old(self)@.step(),
            final(self)@.wf(),
    {
        proof {
            reveal(MachineModel::step);
        }
        if (self.registers[IP_INDEX] as usize) >= self.memory.len() {
            return Err(MachineError::OutOfBounds);
        }
        let opcode = self.fetch();
        let instruction = Instructions::decode(opcode)?;
        self.execute(instruction)
    }
}

impl Default for Machine {
    /// A fresh machine with the default memory capacity.
    fn default() -> (r: Machine)
        ensures
            r@ == MachineModel::initial(crate::DEFAULT_MEMORY_LENGTH as nat),
    {
        Machine::new(crate::DEFAULT_MEMORY_LENGTH)
    }
}

} // verus!
