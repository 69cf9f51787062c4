use vstd::prelude::*;

use super::display::DISPLAY_HEIGHT;
use super::keypad::KeypadView;
use super::memory::MEMORY_SIZE;
use super::semantics::{
    cycle_result, execute, fetch, op_group, op_kk, op_n, op_nnn, op_x, op_y, opcode_defined, CpuView,
    STACK_DEPTH,
};

verus! {

/// Whether `c1` differs from `c` in at most its program counter.
pub open spec fn same_but_pc(c: CpuView, c1: CpuView) -> bool {
    c1.v == c.v && c1.i == c.i && c1.dt == c.dt && c1.st == c.st && c1.stack == c.stack
}

/// Whether `c1` differs from `c` in at most its registers V0 to VF.
pub open spec fn same_but_registers(c: CpuView, c1: CpuView) -> bool {
    c1.pc == c.pc && c1.i == c.i && c1.dt == c.dt && c1.st == c.st && c1.stack == c.stack
}

/// An opcode is its four nibbles: the group, x, y and n, each below 16, with
/// kk the last two and nnn the last three.
pub proof fn lemma_decode_fields(op: u16)
    ensures
        op_group(op) < 16 && 0 <= op_x(op) < 16 && 0 <= op_y(op) < 16 && op_n(op) < 16,
        op == op_group(op) * 0x1000 + op_x(op) * 0x100 + op_y(op) * 0x10 + op_n(op),
        op_kk(op) == op_y(op) * 0x10 + op_n(op),
        op_nnn(op) == op_x(op) * 0x100 + op_y(op) * 0x10 + op_n(op),
{
}

/// Opcodes are stored big-endian: the byte at the program counter holds the
/// group and x, the next byte holds kk (y and n).
pub proof fn lemma_fetch_bytes(c: CpuView, mem: Seq<u8>)
    requires
        c.pc + 1 < mem.len(),
    ensures
        op_group(fetch(c, mem)) == mem[c.pc as int] / 16,
        op_x(fetch(c, mem)) == mem[c.pc as int] % 16,
        op_kk(fetch(c, mem)) == mem[c.pc + 1],
        op_y(fetch(c, mem)) == mem[c.pc + 1] / 16,
        op_n(fetch(c, mem)) == mem[c.pc + 1] % 16,
{
    let hi = mem[c.pc as int];
    let lo = mem[c.pc + 1];
    assert(fetch(c, mem) == hi * 256 + lo);
}

/// The jumps and skips change only the program counter:
/// 1nnn jumps to nnn, Bnnn to V0 + nnn; 3xkk skips when Vx == kk, 4xkk when
/// Vx != kk, 5xy0 when Vx == Vy, 9xy0 when Vx != Vy, Ex9E when key Vx is
/// down and ExA1 when it is up. A skip adds 2 to the program counter.
pub proof fn lemma_flow_instructions(
    c: CpuView,
    mem: Seq<u8>,
    disp: Seq<u64>,
    keys: KeypadView,
    op: u16,
    r: u8,
)
    requires
        c.v.len() == 16,
        c.pc + 2 <= u16::MAX,
    ensures
        ({
            let (c1, mem1, disp1) = execute(c, mem, disp, keys, op, r);
            let g = op_group(op);
            let vx = c.v[op_x(op)];
            let vy = c.v[op_y(op)];
            let kk = op_kk(op);
            let skip = |cond: bool| c1.pc == if cond { c.pc + 2 } else { c.pc as int };
            &&& g == 0x1 ==> c1.pc == op_nnn(op) && same_but_pc(c, c1)
            &&& g == 0xB ==> c1.pc == c.v[0] + op_nnn(op) && same_but_pc(c, c1)
            &&& g == 0x3 ==> skip(vx == kk) && same_but_pc(c, c1)
            &&& g == 0x4 ==> skip(vx != kk) && same_but_pc(c, c1)
            &&& g == 0x5 ==> skip(vx == vy) && same_but_pc(c, c1)
            &&& g == 0x9 ==> skip(vx != vy) && same_but_pc(c, c1)
            &&& g == 0xE && kk == 0x9E ==> skip(keys.pressed.contains(vx)) && same_but_pc(c, c1)
            &&& g == 0xE && kk == 0xA1 ==> skip(!keys.pressed.contains(vx)) && same_but_pc(c, c1)
            &&& (g == 0x1 || g == 0xB || g == 0x3 || g == 0x4 || g == 0x5 || g == 0x9 || g == 0xE)
                ==> mem1 == mem && disp1 == disp
        }),
{
    lemma_decode_fields(op);
}

/// The register loads and logic: 6xkk sets Vx = kk; 7xkk adds kk to Vx
/// modulo 256 without touching VF (unless x is F); 8xy0 sets Vx = Vy,
/// 8xy1 Vx = Vx | Vy, 8xy2 Vx = Vx & Vy, 8xy3 Vx = Vx ^ Vy; Fx07 sets
/// Vx = DT. Nothing else changes.
pub proof fn lemma_register_instructions(
    c: CpuView,
    mem: Seq<u8>,
    disp: Seq<u64>,
    keys: KeypadView,
    op: u16,
    r: u8,
)
    requires
        c.v.len() == 16,
    ensures
        ({
            let (c1, mem1, disp1) = execute(c, mem, disp, keys, op, r);
            let g = op_group(op);
            let x = op_x(op);
            let vx = c.v[x];
            let vy = c.v[op_y(op)];
            let n = op_n(op);
            let loads = |value: u8| c1.v == c.v.update(x, value) && same_but_registers(c, c1) && mem1
                == mem && disp1 == disp;
            &&& g == 0x6 ==> loads(op_kk(op))
            &&& g == 0x7 ==> loads(((vx + op_kk(op)) % 256) as u8)
            &&& g == 0x8 && n == 0x0 ==> loads(vy)
            &&& g == 0x8 && n == 0x1 ==> loads(vx | vy)
            &&& g == 0x8 && n == 0x2 ==> loads(vx & vy)
            &&& g == 0x8 && n == 0x3 ==> loads(vx ^ vy)
            &&& g == 0xF && op_kk(op) == 0x07 ==> loads(c.dt)
        }),
{
    lemma_decode_fields(op);
}

/// Annn sets I = nnn, Fx1E adds Vx to I, Fx15 sets the delay timer and Fx18
/// the sound timer to Vx. Nothing else changes.
pub proof fn lemma_index_and_timer_instructions(
    c: CpuView,
    mem: Seq<u8>,
    disp: Seq<u64>,
    keys: KeypadView,
    op: u16,
    r: u8,
)
    requires
        c.v.len() == 16,
    ensures
        ({
            let (c1, mem1, disp1) = execute(c, mem, disp, keys, op, r);
            let g = op_group(op);
            let kk = op_kk(op);
            let vx = c.v[op_x(op)];
            let regs = c1.v == c.v && c1.pc == c.pc && c1.stack == c.stack && mem1 == mem && disp1
                == disp;
            &&& g == 0xA ==> regs && c1.i == op_nnn(op) && c1.dt == c.dt && c1.st == c.st
            &&& g == 0xF && kk == 0x1E && c.i + vx <= u16::MAX ==> regs && c1.i == c.i + vx && c1.dt
                == c.dt && c1.st == c.st
            &&& g == 0xF && kk == 0x15 ==> regs && c1.i == c.i && c1.dt == vx && c1.st == c.st
            &&& g == 0xF && kk == 0x18 ==> regs && c1.i == c.i && c1.dt == c.dt && c1.st == vx
        }),
{
    lemma_decode_fields(op);
}

/// 00E0 turns every pixel of the 32 rows dark and changes nothing else.
pub proof fn lemma_clear_instruction(c: CpuView, mem: Seq<u8>, disp: Seq<u64>, keys: KeypadView, r: u8)
    ensures
        ({
            let (c1, mem1, disp1) = execute(c, mem, disp, keys, 0x00E0, r);
            &&& disp1.len() == DISPLAY_HEIGHT
            &&& forall|row: int| 0 <= row < DISPLAY_HEIGHT ==> disp1[row] == 0
            &&& c1 == c && mem1 == mem
        }),
{
    assert(op_group(0x00E0) == 0 && op_nnn(0x00E0) == 0x0E0);
}

/// Fx55 copies V0 to Vx into memory at I onwards; Fx65 copies memory at I
/// onwards into V0 to Vx. Neither changes I or anything else.
pub proof fn lemma_register_transfer_instructions(
    c: CpuView,
    mem: Seq<u8>,
    disp: Seq<u64>,
    keys: KeypadView,
    op: u16,
    r: u8,
)
    requires
        c.v.len() == 16,
        mem.len() == MEMORY_SIZE,
        op_group(op) == 0xF,
        c.i + op_x(op) < MEMORY_SIZE,
    ensures
        ({
            let (c1, mem1, disp1) = execute(c, mem, disp, keys, op, r);
            let x = op_x(op);
            let i = c.i as int;
            &&& op_kk(op) == 0x55 ==> c1 == c && disp1 == disp && mem1.len() == mem.len() && forall|
                a: int,
            |
                0 <= a < mem.len() ==> #[trigger] mem1[a] == if i <= a <= i + x {
                    c.v[a - i]
                } else {
                    mem[a]
                }
            &&& op_kk(op) == 0x65 ==> mem1 == mem && disp1 == disp && same_but_registers(c, c1)
                && c1.v.len() == 16 && forall|j: int|
                0 <= j < 16 ==> #[trigger] c1.v[j] == if j <= x {
                    mem[i + j]
                } else {
                    c.v[j]
                }
        }),
{
    lemma_decode_fields(op);
}

/// Every known instruction can run when its operands are in range: the
/// jumps, skips, loads, arithmetic and random opcodes always; 00EE with a
/// return address on the stack and 2nnn with room on it; Dxyn with the
/// sprite inside memory and a column that fits (or nothing on screen);
/// Ex9E and ExA1 on a key of the pad; Fx07, Fx0A, Fx15 and Fx18 always (Fx0A
/// when the program counter is past its opcode); Fx1E without overflow of
/// I; Fx29 on a digit; Fx33, Fx55 and Fx65 within memory.
pub proof fn lemma_known_opcodes_defined(c: CpuView, mem: Seq<u8>, keys: KeypadView, op: u16)
    requires
        c.v.len() == 16,
        mem.len() == MEMORY_SIZE,
        ({
            let g = op_group(op);
            let n = op_n(op);
            let kk = op_kk(op);
            let vx = c.v[op_x(op)];
            let vy = c.v[op_y(op)];
            ||| g == 0x0 && op_nnn(op) != 0x0EE
            ||| g == 0x0 && op_nnn(op) == 0x0EE && c.stack.len() > 0
            ||| g == 0x2 && c.stack.len() < STACK_DEPTH
            ||| g == 0x1 || g == 0x3 || g == 0x4 || g == 0x5 || g == 0x6 || g == 0x7
            ||| g == 0x8 && (n <= 0x7 || n == 0xE)
            ||| g == 0x9 && n == 0
            ||| g == 0xA || g == 0xB || g == 0xC
            ||| g == 0xD && c.i + n <= MEMORY_SIZE && (n == 0 || vy >= 32 || vx < 120 || vx >= 249)
            ||| g == 0xE && (kk == 0x9E || kk == 0xA1) && vx < 16
            ||| g == 0xF && (kk == 0x07 || kk == 0x15 || kk == 0x18)
            ||| g == 0xF && kk == 0x0A && c.pc >= 2
            ||| g == 0xF && kk == 0x1E && c.i + vx <= u16::MAX
            ||| g == 0xF && kk == 0x29 && vx <= 0xF
            ||| g == 0xF && kk == 0x33 && c.i + 2 < MEMORY_SIZE
            ||| g == 0xF && (kk == 0x55 || kk == 0x65) && c.i + op_x(op) < MEMORY_SIZE
        }),
    ensures
        opcode_defined(c, mem, keys, op),
{
    lemma_decode_fields(op);
}

/// The arithmetic opcodes with VF as Vx: the flag is what VF holds in the
/// end, except for the shifts, which shift it after it was set (8FF6 leaves
/// 0, 8FFE twice the old high bit).
pub proof fn lemma_arithmetic_on_flag_register(
    c: CpuView,
    mem: Seq<u8>,
    disp: Seq<u64>,
    keys: KeypadView,
    op: u16,
    r: u8,
)
    requires
        c.v.len() == 16,
        op_group(op) == 0x8,
        op_x(op) == 15,
    ensures
        ({
            let (c1, mem1, disp1) = execute(c, mem, disp, keys, op, r);
            let vf = c.v[15];
            let vy = c.v[op_y(op)];
            let n = op_n(op);
            &&& n == 0x4 ==> c1.v[15] == if vf + vy > 255 { 1u8 } else { 0 }
            &&& n == 0x5 ==> c1.v[15] == if vf >= vy { 1u8 } else { 0 }
            &&& n == 0x6 ==> c1.v[15] == 0
            &&& n == 0x7 ==> c1.v[15] == if vy >= vf { 1u8 } else { 0 }
            &&& n == 0xE ==> c1.v[15] == 2 * (vf / 128)
            &&& (n == 0x4 || n == 0x5 || n == 0x6 || n == 0x7 || n == 0xE) ==> (forall|k: int|
                0 <= k < 15 ==> c1.v[k] == c.v[k]) && same_but_registers(c, c1) && mem1 == mem
                && disp1 == disp
        }),
{
    lemma_decode_fields(op);
}

/// A cycle moves the program counter past the opcode it runs: for the
/// opcodes that neither jump, skip, call nor return nor wait, the program
/// counter ends 2 further on.
pub proof fn lemma_cycle_advances_pc(c: CpuView, mem: Seq<u8>, disp: Seq<u64>, keys: KeypadView, r: u8)
    requires
        c.v.len() == 16,
        mem.len() == MEMORY_SIZE,
        c.pc + 1 < mem.len(),
        ({
            let g = op_group(fetch(c, mem));
            let kk = op_kk(fetch(c, mem));
            g == 0x6 || g == 0x7 || g == 0x8 || g == 0xA || g == 0xC || g == 0xD || (g == 0xF && kk
                != 0x0A)
        }),
    ensures
        cycle_result(c, mem, disp, keys, r).0.pc == c.pc + 2,
{
    lemma_decode_fields(fetch(c, mem));
}
} // verus!
