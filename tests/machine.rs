use register_vm::Instructions::{
    AddRegReg, CallLit, CallReg, Hlt, JmpNotEq, MoveLitToReg, MoveMemToReg, MoveRegToMem,
    MoveRegToReg, Pop, PushLit, PushReg, Ret,
};
use register_vm::Registers::{ACC, FP, IP, R1, R2, R3, R4, R5, R6, R7, R8, SP};
use register_vm::{Instructions, Machine, MachineError, Ptr, Registers, DEFAULT_MEMORY_LENGTH};

fn load(machine: &mut Machine, at: u16, bytes: &[u8]) {
    let mut i = Ptr(at);
    for b in bytes {
        machine.set8(i.inc(), *b);
    }
}

fn op(i: Instructions) -> u8 {
    i.opcode()
}

fn reg(r: Registers) -> u8 {
    r.id()
}

fn counter_program(machine: &mut Machine) {
    let program = [
        op(MoveMemToReg), 0x01, 0x00, reg(R1),
        op(MoveLitToReg), 0x00, 0x01, reg(R2),
        op(AddRegReg), reg(R1), reg(R2),
        op(MoveRegToMem), reg(ACC), 0x01, 0x00,
        op(JmpNotEq), 0x00, 0x03, 0x00, 0x00,
    ];
    load(machine, 0, &program);
}

#[test]
fn load_machine() {
    let mut machine = Machine::default();
    assert_eq!(machine.memory_length(), DEFAULT_MEMORY_LENGTH);
    counter_program(&mut machine);
    for _ in 0..15 {
        machine.step().unwrap();
    }
    assert_eq!(machine.get16(Ptr(0x0100)), 3);
    assert_eq!(machine.register(Registers::IP), 20);
    assert_eq!(machine.step(), Err(MachineError::InvalidInstruction(0x00)));
}

#[test]
fn counter_loop_counts_to_three() {
    let mut machine = Machine::new(DEFAULT_MEMORY_LENGTH);
    counter_program(&mut machine);
    for round in 1..=3u16 {
        for _ in 0..4 {
            machine.step().unwrap();
        }
        assert_eq!(machine.get16(Ptr(0x0100)), round);
        machine.step().unwrap();
        if round < 3 {
            assert_eq!(machine.register(Registers::IP), 0);
        } else {
            assert_eq!(machine.register(Registers::IP), 20);
        }
    }
}

#[test]
fn swap_registers_through_stack() {
    let mut machine = Machine::default();
    let program = [
        op(MoveLitToReg), 0x12, 0x34, reg(R1),
        op(MoveLitToReg), 0x56, 0x78, reg(R2),
        op(PushReg), reg(R1),
        op(PushReg), reg(R2),
        op(Pop), reg(R1),
        op(Pop), reg(R2),
    ];
    load(&mut machine, 0, &program);
    for _ in 0..6 {
        machine.step().unwrap();
    }
    assert_eq!(machine.register(R1), 0x5678);
    assert_eq!(machine.register(R2), 0x1234);
    assert_eq!(machine.register(SP), (DEFAULT_MEMORY_LENGTH - 2) as u16);
    assert_eq!(machine.stack_frame_size, 0);
}

#[test]
fn new_machine_starts_stack_at_top() {
    let machine = Machine::new(256);
    assert_eq!(machine.memory_length(), 256);
    assert_eq!(machine.register(Registers::SP), 254);
    assert_eq!(machine.register(Registers::FP), 254);
    assert_eq!(machine.register(Registers::IP), 0);
    assert_eq!(machine.register(Registers::ACC), 0);
    assert_eq!(machine.stack_frame_size, 0);
    assert!(machine.memory.iter().all(|b| *b == 0));
}

#[test]
fn every_opcode_decodes_and_others_fail() {
    let table = [
        (0x10u8, MoveLitToReg),
        (0x11, Instructions::MoveRegToReg),
        (0x12, Instructions::MoveRegToMem),
        (0x13, Instructions::MoveMemToReg),
        (0x14, Instructions::AddRegReg),
        (0x15, Instructions::JmpNotEq),
        (0x17, Instructions::PushLit),
        (0x18, Instructions::PushReg),
        (0x19, Instructions::Pop),
        (0x5E, Instructions::CallLit),
        (0x5F, Instructions::CallReg),
        (0x60, Instructions::Ret),
        (0xFF, Instructions::Hlt),
    ];
    for b in 0..=255u8 {
        match table.iter().find(|(code, _)| *code == b) {
            Some((_, i)) => {
                assert_eq!(Instructions::decode(b), Ok(*i));
                assert_eq!(i.opcode(), b);
            }
            None => assert_eq!(Instructions::decode(b), Err(MachineError::InvalidInstruction(b))),
        }
    }
}

#[test]
fn register_ids_decode_in_order() {
    let order = [IP, SP, FP, ACC, R1, R2, R3, R4, R5, R6, R7, R8];
    for b in 0..=255u8 {
        if (b as usize) < order.len() {
            assert_eq!(Registers::decode(b), Ok(order[b as usize]));
            assert_eq!(order[b as usize].id(), b);
        } else {
            assert_eq!(Registers::decode(b), Err(MachineError::InvalidRegister(b)));
        }
    }
}

#[test]
fn word_written_reads_back_big_endian() {
    let mut machine = Machine::new(1024);
    machine.set16(Ptr(0x0200), 0xABCD);
    assert_eq!(machine.get16(Ptr(0x0200)), 0xABCD);
    assert_eq!(machine.get(Ptr(0x0200)), 0xAB);
    assert_eq!(machine.get(Ptr(0x0201)), 0xCD);
    let big = Machine::new(65536);
    let mut big = big;
    big.set16(Ptr(0xFFFF), 0x1234);
    assert_eq!(big.get(Ptr(0xFFFF)), 0x12);
    assert_eq!(big.get(Ptr(0x0000)), 0x34);
    assert_eq!(big.get16(Ptr(0xFFFF)), 0x1234);
}

#[test]
fn pushes_pop_in_reverse_order() {
    let mut machine = Machine::new(512);
    let sp = machine.register(Registers::SP);
    let values = [0x0001u16, 0xBEEF, 0x7F00, 0x0000, 0xFFFF];
    for v in values {
        machine.push(v);
    }
    assert_eq!(machine.register(Registers::SP), sp - 10);
    assert_eq!(machine.stack_frame_size, 10);
    for v in values.iter().rev() {
        assert_eq!(machine.pop(), *v);
    }
    assert_eq!(machine.register(Registers::SP), sp);
    assert_eq!(machine.stack_frame_size, 0);
}

fn call_program(machine: &mut Machine, args: &[u16]) -> u16 {
    let mut i = Ptr(0);
    for a in args {
        machine.set8(i.inc(), op(PushLit));
        machine.set16(i.inc_by(2), *a);
    }
    machine.set8(i.inc(), op(PushLit));
    machine.set16(i.inc_by(2), args.len() as u16);
    machine.set8(i.inc(), op(CallLit));
    machine.set16(i.inc_by(2), 0x3000);
    let after_call = i.0;
    machine.set8(i.inc(), op(PushLit));
    machine.set16(i.inc_by(2), 0x4444);

    let mut s = Ptr(0x3000);
    machine.set8(s.inc(), op(PushLit));
    machine.set16(s.inc_by(2), 0x0102);
    machine.set8(s.inc(), op(MoveLitToReg));
    machine.set16(s.inc_by(2), 0x0708);
    machine.set8(s.inc(), reg(R1));
    machine.set8(s.inc(), op(MoveLitToReg));
    machine.set16(s.inc_by(2), 0x090A);
    machine.set8(s.inc(), reg(R4));
    machine.set8(s.inc(), op(Ret));
    after_call
}

#[test]
fn call_and_return_restore_registers_and_ip() {
    let mut machine = Machine::default();
    let general = [R1, R2, R3, R4, R5, R6, R7, R8];
    for (k, r) in general.iter().enumerate() {
        machine.set_register(*r, 0x1111 * (k as u16 + 1));
    }
    let after_call = call_program(&mut machine, &[]);
    let sp_before = machine.register(SP);
    machine.step().unwrap();
    machine.step().unwrap();
    assert_eq!(machine.register(IP), 0x3000);
    assert_eq!(machine.stack_frame_size, 0);
    assert_eq!(machine.register(FP), machine.register(SP));
    assert_eq!(machine.register(SP), sp_before - 2 - 20);
    for _ in 0..4 {
        machine.step().unwrap();
    }
    assert_eq!(machine.register(IP), after_call);
    for (k, r) in general.iter().enumerate() {
        assert_eq!(machine.register(*r), 0x1111 * (k as u16 + 1));
    }
    assert_eq!(machine.register(SP), sp_before);
    machine.step().unwrap();
    assert_eq!(machine.pop(), 0x4444);
}

#[test]
fn return_discards_call_arguments() {
    let mut machine = Machine::default();
    let after_call = call_program(&mut machine, &[0x3333, 0x2222, 0x1111]);
    let sp_before = machine.register(SP);
    for _ in 0..4 {
        machine.step().unwrap();
    }
    let sp_at_call = machine.register(SP);
    assert_eq!(sp_at_call, sp_before - 8);
    machine.step().unwrap();
    for _ in 0..4 {
        machine.step().unwrap();
    }
    assert_eq!(machine.register(IP), after_call);
    assert_eq!(machine.register(SP), sp_before);
    assert_eq!(machine.register(SP), sp_at_call + 8);
}

#[test]
fn frame_counter_follows_each_pop_of_a_return() {
    let mut machine = Machine::default();
    call_program(&mut machine, &[0x3333, 0x2222]);
    let top = machine.register(SP);
    for _ in 0..3 {
        machine.step().unwrap();
    }
    assert_eq!(machine.stack_frame_size, 6);
    machine.step().unwrap();
    let boundary = machine.register(FP);
    assert_eq!(boundary, top - 6 - 20);
    assert_eq!(machine.get16(Ptr(boundary + 2)), 6 + 18 + 2);
    for _ in 0..4 {
        machine.step().unwrap();
    }
    // The saved counter is 26; IP, eight registers, the count and two
    // arguments take 24 of it.
    assert_eq!(machine.stack_frame_size, 2);
    assert_eq!(machine.register(FP), boundary + 2);
}

#[test]
fn invalid_register_operand_is_reported() {
    let mut machine = Machine::default();
    load(&mut machine, 0, &[op(Instructions::PushReg), 0x0C]);
    assert_eq!(machine.step(), Err(MachineError::InvalidRegister(0x0C)));
}

#[test]
fn halt_stops_the_machine() {
    let mut machine = Machine::default();
    load(&mut machine, 0, &[op(Hlt)]);
    assert_eq!(machine.step(), Err(MachineError::Halted));
    assert_eq!(machine.register(Registers::IP), 1);
}

#[test]
fn access_outside_memory_is_reported() {
    let mut machine = Machine::new(16);
    load(&mut machine, 0, &[op(Instructions::MoveMemToReg), 0x00, 0x20, reg(Registers::R1)]);
    assert_eq!(machine.step(), Err(MachineError::OutOfBounds));
    let mut machine = Machine::new(16);
    machine.set_register(Registers::IP, 16);
    assert_eq!(machine.step(), Err(MachineError::OutOfBounds));
    let mut machine = Machine::new(16);
    load(&mut machine, 0, &[op(Instructions::CallLit), 0x00, 0x08]);
    assert_eq!(machine.step(), Err(MachineError::OutOfBounds));
}

#[test]
fn add_wraps_at_sixteen_bits() {
    let mut machine = Machine::default();
    machine.set_register(R1, 0xFFFF);
    machine.set_register(R2, 0x0002);
    load(&mut machine, 0, &[op(Instructions::AddRegReg), reg(R1), reg(R2)]);
    machine.step().unwrap();
    assert_eq!(machine.register(ACC), 0x0001);
}

#[test]
fn call_through_register_jumps_to_its_value() {
    let mut machine = Machine::default();
    machine.set_register(R3, 0x0400);
    load(&mut machine, 0, &[op(CallReg), reg(R3)]);
    machine.step().unwrap();
    assert_eq!(machine.register(IP), 0x0400);
    assert_eq!(machine.stack_frame_size, 0);
}

#[test]
fn move_between_registers_and_memory() {
    let mut machine = Machine::default();
    load(
        &mut machine,
        0,
        &[
            op(MoveLitToReg), 0xCA, 0xFE, reg(R5),
            op(MoveRegToReg), reg(R5), reg(R6),
            op(MoveRegToMem), reg(R6), 0x08, 0x00,
            op(MoveMemToReg), 0x08, 0x00, reg(R7),
        ],
    );
    for _ in 0..4 {
        machine.step().unwrap();
    }
    assert_eq!(machine.register(R6), 0xCAFE);
    assert_eq!(machine.get(Ptr(0x0800)), 0xCA);
    assert_eq!(machine.register(R7), 0xCAFE);
}

#[test]
fn pointer_advances_and_wraps() {
    let mut p = Ptr(0xFFFE);
    assert_eq!(p.inc(), Ptr(0xFFFE));
    assert_eq!(p, Ptr(0xFFFF));
    assert_eq!(p.inc_by(3), Ptr(0xFFFF));
    assert_eq!(p, Ptr(0x0002));
    assert_eq!(Ptr(0x10).offset(0x20), Ptr(0x30));
}

#[test]
fn window_is_cut_at_memory_end() {
    let mut machine = Machine::new(16);
    machine.set8(Ptr(14), 7);
    let w = machine.get_window(Ptr(12), 8);
    assert_eq!(w.ptr(), Ptr(12));
    assert_eq!(w.data(), &[0, 0, 7, 0]);
    let w = machine.get_window(Ptr(20), 4);
    assert_eq!(w.data().len(), 0);
}
