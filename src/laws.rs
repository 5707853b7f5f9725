use vstd::prelude::*;

use crate::isa::{
    decode_instruction, decode_register, is_opcode, opcode_of, register_at, register_id,
    Instructions, MachineError, Registers,
};
use crate::model::{first_general, general_count, lemma_discard, lemma_pop_general, lemma_push_general, MachineModel};
use crate::ptr::add16;

verus! {

/// Every opcode decodes to the instruction it is the opcode of, and every
/// other byte fails with `InvalidInstruction` carrying that byte.
pub proof fn decode_closure(b: u8)
    ensures
        is_opcode(b) ==> (decode_instruction(b) matches Ok(i) && opcode_of(i) == b),
        !is_opcode(b) ==> decode_instruction(b) == Err::<Instructions, MachineError>(
            MachineError::InvalidInstruction(b),
        ),
        forall|i: Instructions| #[trigger] decode_instruction(opcode_of(i)) == Ok::<Instructions, MachineError>(i),
{
}

/// The bytes 0x00 to 0x0B decode to IP, SP, FP, ACC, R1, ..., R8 in that
/// order; every other byte fails with `InvalidRegister` carrying that byte.
pub proof fn register_decode_closure(b: u8)
    ensures
        b < 12 ==> decode_register(b) == Ok::<Registers, MachineError>(register_at(b))
            && register_id(register_at(b)) == b,
        b >= 12 ==> decode_register(b) == Err::<Registers, MachineError>(
            MachineError::InvalidRegister(b),
        ),
        forall|r: Registers| #[trigger] decode_register(register_id(r)) == Ok::<Registers, MachineError>(r),
{
}

/// A word written at an address inside memory reads back as written, and is
/// the byte there times 256 plus the byte after it.
pub proof fn word_round_trip(m: MachineModel, a: u16, v: u16)
    requires
        m.wf(),
        m.word_ok(a),
    ensures
        m.with_word(a, v).word(a) == v,
        m.with_word(a, v).word(a) as int == m.with_word(a, v).byte(a) as int * 256
            + m.with_word(a, v).byte(add16(a, 1)) as int,
{
    assert(add16(a, 1) != a);
}

} // verus!

verus! {

/// Pushing `vals` from SP = `p`, with room below `p` and no wrap: SP drops
/// by two per value, the i-th value is the word at `p - 2 * i`, and memory
/// outside the pushed words keeps its bytes.
proof fn lemma_push_all(s: MachineModel, vals: Seq<u16>)
    requires
        s.wf(),
        s.sp() + 1 < s.memory.len(),
        2 * vals.len() <= s.sp(),
    ensures
        s.push_all(vals).registers.len() == 12,
        s.push_all(vals).memory.len() == s.memory.len(),
        s.push_all(vals).sp() == s.sp() - 2 * vals.len(),
        s.push_all(vals).frame_size == add16(s.frame_size, 2 * vals.len() as int),
        forall|j: int| 0 <= j < 12 && j != 1 ==> s.push_all(vals).registers[j] == s.registers[j],
        forall|i: int| 0 <= i < vals.len() ==> #[trigger] s.push_all(vals).word((s.sp() - 2 * i) as u16) == vals[i],
        forall|a: u16| s.addr_ok(a) && (a < s.sp() - 2 * vals.len() + 2 || a > s.sp() + 1) ==> #[trigger] s.push_all(vals).byte(a) == s.byte(a),
    decreases vals.len(),
{
    broadcast use crate::ptr::lemma_add16_plain;
    if vals.len() == 0 {
        crate::ptr::lemma_add16_zero(s.frame_size);
    } else {
        let init = vals.drop_last();
        lemma_push_all(s, init);
        let t = s.push_all(init);
        let n = vals.len();
        let q = t.sp();
        assert(q == s.sp() - 2 * (n - 1));
        crate::ptr::lemma_add16_add16(s.frame_size, 2 * (n - 1), 2);
        let u = t.push(vals.last());
        assert(u.word(q) == vals.last());
        assert forall|i: int| 0 <= i < vals.len() implies #[trigger] u.word((s.sp() - 2 * i) as u16) == vals[i] by {
            if i < n - 1 {
                let a = (s.sp() - 2 * i) as u16;
                assert(t.word(a) == init[i]);
                assert(u.byte(a) == t.byte(a));
                assert(u.byte(add16(a, 1)) == t.byte(add16(a, 1)));
            }
        }
        assert forall|a: u16| s.addr_ok(a) && (a < s.sp() - 2 * vals.len() + 2 || a > s.sp() + 1) implies #[trigger] u.byte(a) == s.byte(a) by {
            assert(t.byte(a) == s.byte(a));
            assert(a != q && a != add16(q, 1));
        }
    }
}

/// Popping `n` words from SP = `q`, with no wrap: the j-th value popped is
/// the word at `q + 2 * (j + 1)`; SP rises by `2 * n`, memory stays.
proof fn lemma_pop_many(s: MachineModel, n: nat)
    requires
        s.wf(),
        s.sp() + 2 * n + 1 < s.memory.len(),
    ensures
        s.pop_many(n).1.len() == n,
        s.pop_many(n).0.registers.len() == 12,
        s.pop_many(n).0.memory == s.memory,
        s.pop_many(n).0.sp() == s.sp() + 2 * n,
        s.pop_many(n).0.frame_size == add16(s.frame_size, -2 * n),
        forall|j: int| 0 <= j < 12 && j != 1 ==> s.pop_many(n).0.registers[j] == s.registers[j],
        forall|j: int| 0 <= j < n ==> #[trigger] s.pop_many(n).1[j] == s.word((s.sp() + 2 * (j + 1)) as u16),
    decreases n,
{
    broadcast use crate::ptr::lemma_add16_plain;
    if n == 0 {
        crate::ptr::lemma_add16_zero(s.frame_size);
    } else {
        let p = s.pop();
        lemma_pop_many(p.0, (n - 1) as nat);
        crate::ptr::lemma_add16_add16(s.frame_size, -2, -2 * (n - 1));
        let r = p.0.pop_many((n - 1) as nat);
        assert forall|j: int| 0 <= j < 12 && j != 1 implies s.pop_many(n).0.registers[j] == s.registers[j] by {
            assert(p.0.registers[j] == s.registers[j]);
        }
        assert forall|j: int| 0 <= j < n implies #[trigger] s.pop_many(n).1[j] == s.word((s.sp() + 2 * (j + 1)) as u16) by {
            if j > 0 {
                assert(s.pop_many(n).1[j] == r.1[j - 1]);
            }
        }
    }
}

/// Pushing a sequence of values and then popping as many returns them last
/// first, and puts SP and the frame-size counter back where they were.
pub proof fn push_pop_round_trip(m: MachineModel, vals: Seq<u16>)
    requires
        m.wf(),
        m.sp() + 1 < m.memory.len(),
        2 * vals.len() <= m.sp(),
    ensures
        m.push_all(vals).pop_many(vals.len()).1.len() == vals.len(),
        forall|j: int| 0 <= j < vals.len() ==>
            #[trigger] m.push_all(vals).pop_many(vals.len()).1[j] == vals[vals.len() - 1 - j],
        m.push_all(vals).pop_many(vals.len()).0.sp() == m.sp(),
        m.push_all(vals).pop_many(vals.len()).0.frame_size == m.frame_size,
{
    lemma_push_all(m, vals);
    let t = m.push_all(vals);
    let n = vals.len();
    lemma_pop_many(t, n);
    crate::ptr::lemma_add16_add16(m.frame_size, 2 * n as int, -2 * n);
    crate::ptr::lemma_add16_zero(m.frame_size);
    assert forall|j: int| 0 <= j < vals.len() implies
        #[trigger] t.pop_many(n).1[j] == vals[n - 1 - j] by {
        assert(t.pop_many(n).1[j] == t.word((t.sp() + 2 * (j + 1)) as u16));
        assert(t.sp() + 2 * (j + 1) == m.sp() - 2 * (n - 1 - j));
    }
}

} // verus!

verus! {

/// Saving the first `n` general registers is pushing them in order.
proof fn lemma_push_general_is_push_all(s: MachineModel, n: nat)
    requires
        s.wf(),
        n <= general_count(),
    ensures
        s.push_general(n) == s.push_all(s.general().take(n as int)),
    decreases n,
{
    let g = s.general();
    if n == 0 {
        assert(g.take(0).len() == 0);
    } else {
        lemma_push_general_is_push_all(s, (n - 1) as nat);
        lemma_push_general(s, (n - 1) as nat);
        assert(g.take(n as int).drop_last() =~= g.take(n - 1));
        assert(g.take(n as int).last() == s.registers[first_general() + n - 1]);
    }
}

/// The values that a call saves, in the order it pushes them.
pub open spec fn saved_block(s: MachineModel) -> Seq<u16> {
    s.general() + seq![s.ip(), add16(s.frame_size, 2 * general_count() as int + 4)]
}

/// Saving the state is pushing the saved block, then setting FP to SP and
/// clearing the frame-size counter.
proof fn lemma_push_state_is_push_all(s: MachineModel)
    requires
        s.wf(),
    ensures
        s.push_state() == s.push_all(saved_block(s)).with_reg(
            Registers::FP,
            s.push_all(saved_block(s)).sp(),
        ).with_frame_size(0),
{
    let g = s.general();
    let vals = saved_block(s);
    lemma_push_general_is_push_all(s, 8);
    lemma_push_general(s, 8);
    assert(g.take(8) =~= g);
    let with_ip = g + seq![s.ip()];
    assert(with_ip.drop_last() =~= g);
    assert(vals.drop_last() =~= with_ip);
    let s1 = s.push_general(8);
    crate::ptr::lemma_add16_add16(s.frame_size, 16, 2);
    crate::ptr::lemma_add16_add16(s.frame_size, 18, 2);
    assert(s1 == s.push_all(g));
    assert(s1.ip() == s.ip());
    assert(with_ip.last() == s.ip());
    assert(s.push_all(with_ip) == s1.push(s1.ip()));
    assert(s1.push(s1.ip()).frame_size == add16(s.frame_size, 18));
    assert(vals.last() == add16(s.frame_size, 20));
    assert(s.push_all(vals) == s.push_all(with_ip).push(vals.last()));
}

/// Restoring `n` general registers from SP = `q`, with no wrap: register
/// `R8 - k` takes the word at `q + 2 * (k + 1)`.
proof fn lemma_pop_general_values(s: MachineModel, n: nat)
    requires
        s.wf(),
        n <= general_count(),
        s.sp() + 2 * n + 1 < s.memory.len(),
    ensures
        forall|k: int| 0 <= k < n ==> #[trigger] s.pop_general(n).registers[11 - k] == s.word(
            (s.sp() + 2 * (k + 1)) as u16,
        ),
    decreases n,
{
    broadcast use crate::ptr::lemma_add16_plain;
    if n > 0 {
        lemma_pop_general_values(s, (n - 1) as nat);
        lemma_pop_general(s, (n - 1) as nat);
        let y = s.pop_general((n - 1) as nat);
        assert forall|k: int| 0 <= k < n implies #[trigger] s.pop_general(n).registers[11 - k] == s.word(
            (s.sp() + 2 * (k + 1)) as u16,
        ) by {
            if k < n - 1 {
                assert(y.pop().0.registers[11 - k] == y.registers[11 - k]);
            }
        }
    }
}

} // verus!

verus! {

/// A step on a `CallLit` whose operand and saved block fit in memory.
proof fn lemma_call_step(m: MachineModel, target: u16)
    requires
        m.wf(),
        m.ip() + 2 < m.memory.len(),
        m.byte(m.ip()) == 0x5E,
        m.word(add16(m.ip(), 1)) == target,
        m.push_room(general_count() + 2),
    ensures
        m.step() == (
            m.with_reg(Registers::IP, add16(m.ip(), 3)).push_state().with_reg(Registers::IP, target),
            Ok::<(), MachineError>(()),
        ),
{
    broadcast use crate::ptr::lemma_add16_plain;
    reveal(MachineModel::step);
    reveal(MachineModel::execute);
    let f = m.fetch();
    let g = f.0.fetch16_checked();
    let ip3 = m.with_reg(Registers::IP, add16(m.ip(), 3));
    assert(f.0.ip() == m.ip() + 1);
    assert(g.0.registers =~= ip3.registers);
    assert(g.0 == ip3);
    assert(ip3.sp() == m.sp());
    assert forall|i: int| 0 <= i < general_count() + 2 implies #[trigger] ip3.word_ok(add16(ip3.sp(), -2 * i)) by {
        assert(m.word_ok(add16(m.sp(), -2 * i)));
    }
}

/// A step on a `Ret` whose pops all fit in memory.
proof fn lemma_ret_step(w: MachineModel)
    requires
        w.wf(),
        w.addr_ok(w.ip()),
        w.byte(w.ip()) == 0x60,
        w.with_reg(Registers::IP, add16(w.ip(), 1)).pop_state_ok(),
    ensures
        w.step() == (w.with_reg(Registers::IP, add16(w.ip(), 1)).pop_state(), Ok::<(), MachineError>(())),
{
    reveal(MachineModel::step);
    reveal(MachineModel::execute);
}

} // verus!

verus! {

/// Restoring from a block of ten words below `p` (FP at `p - 20`) that
/// holds `vals`, with the count `k` above it: IP and the general registers
/// come from `vals`, and SP ends above the `k` words past the count.
proof fn lemma_pop_state_values(w: MachineModel, p: u16, vals: Seq<u16>, k: nat)
    requires
        w.wf(),
        vals.len() == 10,
        20 <= p,
        p + 2 * k + 3 < w.memory.len(),
        w.fp() == p - 20,
        forall|i: int| 0 <= i < 10 ==> #[trigger] w.word((p - 2 * i) as u16) == vals[i],
        w.word((p + 2) as u16) == k,
    ensures
        forall|i: int| 0 <= i < 8 ==> #[trigger] w.pop_state().registers[4 + i] == vals[i],
        w.pop_state().registers.len() == 12,
        w.pop_state().ip() == vals[8],
        w.pop_state().sp() == p + 2 + 2 * k,
{
    broadcast use crate::ptr::lemma_add16_plain;
    let b = w.fp();
    let s0 = w.with_reg(Registers::SP, b);
    let p1 = s0.pop();
    let s1 = p1.0.with_frame_size(p1.1);
    let p2 = s1.pop();
    assert(w.word((p - 2 * 8) as u16) == vals[8]);
    assert(p2.1 == vals[8]);
    let s2 = p2.0.with_reg(Registers::IP, p2.1);
    assert(s2.memory == w.memory);
    assert(s2.sp() == p - 16);
    lemma_pop_general_values(s2, 8);
    lemma_pop_general(s2, 8);
    let s3 = s2.pop_general(8);
    assert forall|i: int| 0 <= i < 8 implies #[trigger] s3.registers[4 + i] == vals[i] by {
        let kk = 7 - i;
        assert(s3.registers[11 - kk] == s2.word((s2.sp() + 2 * (kk + 1)) as u16));
        assert(w.word((p - 2 * i) as u16) == vals[i]);
    }
    let p4 = s3.pop();
    assert(p4.1 == k);
    lemma_discard(p4.0, k);
    let s5 = p4.0.discard(k);
    let fin = s5.with_reg(Registers::FP, add16(b, s5.frame_size as int));
    assert(w.pop_state() == fin);
    assert forall|i: int| 0 <= i < 8 implies #[trigger] fin.registers[4 + i] == vals[i] by {
        assert(s5.registers[4 + i] == p4.0.registers[4 + i]);
        assert(p4.0.registers[4 + i] == s3.registers[4 + i]);
    }
    assert(s2.ip() == vals[8]);
    assert(s3.ip() == s2.ip());
    assert(p4.0.ip() == s3.ip());
    assert(s5.ip() == p4.0.ip());
    assert(fin.ip() == vals[8]);
}

/// A `Ret` reached right after a call from a state `g` (IP already past the
/// call's operands) whose stack holds the count `k` and `k` words above SP:
/// the return restores the general registers and IP of `g`, and SP ends
/// above the count and the words.
proof fn lemma_return_after_call(g: MachineModel, target: u16, k: nat)
    requires
        g.wf(),
        20 <= g.sp(),
        g.sp() + 2 * k + 3 < g.memory.len(),
        target < g.sp() - 18,
        g.byte(target) == 0x60,
        g.word((g.sp() + 2) as u16) == k,
    ensures
        g.push_state().with_reg(Registers::IP, target).ip() == target,
        ({
            let r = g.push_state().with_reg(Registers::IP, target).step();
            &&& r.1 == Ok::<(), MachineError>(())
            &&& r.0.general() == g.general()
            &&& r.0.ip() == g.ip()
            &&& r.0.sp() == g.sp() + 2 + 2 * k
        }),
{
    broadcast use crate::ptr::lemma_add16_plain;
    let p = g.sp();
    lemma_push_state_is_push_all(g);
    let vals = saved_block(g);
    lemma_push_all(g, vals);
    let t = g.push_all(vals);
    let u = t.with_reg(Registers::FP, t.sp()).with_frame_size(0).with_reg(Registers::IP, target);
    assert(g.push_state().with_reg(Registers::IP, target) == u);
    assert(u.byte(target) == t.byte(target));
    assert(u.byte(target) == 0x60);
    let w = u.with_reg(Registers::IP, add16(target, 1));
    assert(w.fp() == p - 20);
    assert(w.memory == t.memory);
    assert forall|i: int| 1 <= i <= general_count() + 3 implies #[trigger] w.word_ok(add16(w.fp(), 2 * i)) by {}
    assert(w.arg_count_addr() == p + 2);
    assert(t.byte((p + 2) as u16) == g.byte((p + 2) as u16));
    assert(t.byte((p + 3) as u16) == g.byte((p + 3) as u16));
    assert(w.word(w.arg_count_addr()) == k);
    assert forall|j: int| 1 <= j <= w.word(w.arg_count_addr()) as nat implies #[trigger] w.word_ok(add16(w.arg_count_addr(), 2 * j)) by {}
    lemma_ret_step(u);
    assert forall|i: int| 0 <= i < 10 implies #[trigger] w.word((p - 2 * i) as u16) == vals[i] by {
        assert(t.word((g.sp() - 2 * i) as u16) == vals[i]);
    }
    lemma_pop_state_values(w, p, vals, k);
    assert forall|i: int| 0 <= i < 8 implies #[trigger] w.pop_state().general()[i] == g.general()[i] by {
        assert(vals[i] == g.general()[i]);
        assert(w.pop_state().general()[i] == w.pop_state().registers[4 + i]);
    }
    assert(w.pop_state().general() =~= g.general());
}

/// A call by `CallLit` to a `Ret`, after pushing `args` and their count:
/// both steps succeed, the call lands on `target`, and the return restores
/// the general registers, resumes after the call's operands, and leaves SP
/// where it was before the arguments were pushed. Requires that the stack
/// fits below the top of memory without wrapping, and that the code lies
/// below everything the pushes write.
pub proof fn call_then_return(m_pre: MachineModel, args: Seq<u16>, target: u16)
    requires
        m_pre.wf(),
        m_pre.sp() + 1 < m_pre.memory.len(),
        2 * (args.len() + 1) + 20 <= m_pre.sp(),
        m_pre.ip() + 3 <= m_pre.sp() - 2 * (args.len() + 1) - 18,
        target < m_pre.sp() - 2 * (args.len() + 1) - 18,
        m_pre.byte(m_pre.ip()) == 0x5E,
        m_pre.word((m_pre.ip() + 1) as u16) == target,
        m_pre.byte(target) == 0x60,
    ensures
        ({
            let m = m_pre.push_all(args).push(args.len() as u16);
            let r1 = m.step();
            let r2 = r1.0.step();
            &&& r1.1 == Ok::<(), MachineError>(())
            &&& r1.0.ip() == target
            &&& r2.1 == Ok::<(), MachineError>(())
            &&& r2.0.general() == m_pre.general()
            &&& r2.0.ip() == m_pre.ip() + 3
            &&& r2.0.sp() == m_pre.sp()
        }),
{
    broadcast use crate::ptr::lemma_add16_plain;
    let k = args.len();
    let all = args.push(k as u16);
    assert(all.drop_last() =~= args);
    let m = m_pre.push_all(all);
    assert(m == m_pre.push_all(args).push(k as u16));
    lemma_push_all(m_pre, all);
    let top = m_pre.sp();
    let p = m.sp();
    let ip = m_pre.ip();
    assert(p == top - 2 * (k + 1));
    assert(m.ip() == ip);
    assert(m.byte(ip) == 0x5E);
    assert(m.byte((ip + 1) as u16) == m_pre.byte((ip + 1) as u16));
    assert(m.byte((ip + 2) as u16) == m_pre.byte((ip + 2) as u16));
    assert(m.word(add16(ip, 1)) == target);
    assert forall|i: int| 0 <= i < general_count() + 2 implies #[trigger] m.word_ok(add16(m.sp(), -2 * i)) by {}
    lemma_call_step(m, target);

    let g = m.with_reg(Registers::IP, add16(ip, 3));
    assert(m.byte(target) == m_pre.byte(target));
    assert(g.byte(target) == m_pre.byte(target));
    assert(m.word((top - 2 * k) as u16) == all[k as int]);
    assert(g.word((p + 2) as u16) == k);
    assert(g.general() =~= m_pre.general());
    lemma_return_after_call(g, target, k);
}

/// A call and return around no arguments, after a pushed count of zero,
/// restores every general register and resumes right after the call's
/// operands.
pub proof fn call_return_symmetry(m_pre: MachineModel, target: u16)
    requires
        m_pre.wf(),
        m_pre.sp() + 1 < m_pre.memory.len(),
        22 <= m_pre.sp(),
        m_pre.ip() + 3 <= m_pre.sp() - 20,
        target < m_pre.sp() - 20,
        m_pre.byte(m_pre.ip()) == 0x5E,
        m_pre.word((m_pre.ip() + 1) as u16) == target,
        m_pre.byte(target) == 0x60,
    ensures
        ({
            let m = m_pre.push(0);
            let r = m.step().0.step();
            &&& r.1 == Ok::<(), MachineError>(())
            &&& r.0.general() == m.general()
            &&& r.0.ip() == m.ip() + 3
        }),
{
    let args = Seq::<u16>::empty();
    call_then_return(m_pre, args, target);
    assert(m_pre.push_all(args) == m_pre);
    assert(m_pre.push(0).general() =~= m_pre.general());
}

/// Pushing `k` words, then the count `k`, then a call and return: SP ends
/// `k + 1` words above where it stood at the call, which is where it stood
/// before the pushes.
pub proof fn argument_discard(m_pre: MachineModel, args: Seq<u16>, target: u16)
    requires
        m_pre.wf(),
        m_pre.sp() + 1 < m_pre.memory.len(),
        2 * (args.len() + 1) + 20 <= m_pre.sp(),
        m_pre.ip() + 3 <= m_pre.sp() - 2 * (args.len() + 1) - 18,
        target < m_pre.sp() - 2 * (args.len() + 1) - 18,
        m_pre.byte(m_pre.ip()) == 0x5E,
        m_pre.word((m_pre.ip() + 1) as u16) == target,
        m_pre.byte(target) == 0x60,
    ensures
        ({
            let m = m_pre.push_all(args).push(args.len() as u16);
            let r = m.step().0.step();
            &&& r.1 == Ok::<(), MachineError>(())
            &&& r.0.sp() == m_pre.sp()
            &&& r.0.sp() == m.sp() + 2 * (args.len() + 1)
        }),
{
    call_then_return(m_pre, args, target);
    let all = args.push(args.len() as u16);
    assert(all.drop_last() =~= args);
    lemma_push_all(m_pre, all);
}

} // verus!
