use vstd::prelude::*;

use super::display::{drawn_rows, sprite_collides, sprite_drawable, DISPLAY_HEIGHT};
use super::keypad::KeypadView;
use super::memory::MEMORY_SIZE;

verus! {

/// The state of the processor: the sixteen registers V0 to VF, the index
/// register I, the program counter, the delay and sound timers and the call
/// stack (the last element is the top).
pub ghost struct CpuView {
    pub v: Seq<u8>,
    pub i: u16,
    pub pc: u16,
    pub dt: u8,
    pub st: u8,
    pub stack: Seq<u16>,
}

/// The number of return addresses the call stack holds.
pub const STACK_DEPTH: usize = 16;

/// The address at which programs are loaded and execution starts.
pub const PROGRAM_START: u16 = 0x200;

/// The first nibble of an opcode, which selects its group.
pub open spec fn op_group(op: u16) -> u16 {
    op / 0x1000
}

/// The second nibble of an opcode: register "x".
pub open spec fn op_x(op: u16) -> int {
    ((op / 0x100) % 16) as int
}

/// The third nibble of an opcode: register "y".
pub open spec fn op_y(op: u16) -> int {
    ((op / 0x10) % 16) as int
}

/// The last nibble of an opcode.
pub open spec fn op_n(op: u16) -> u8 {
    (op % 0x10) as u8
}

/// The last byte of an opcode.
pub open spec fn op_kk(op: u16) -> u8 {
    (op % 0x100) as u8
}

/// The last three nibbles of an opcode: an address.
pub open spec fn op_nnn(op: u16) -> u16 {
    op % 0x1000
}

/// A display with every pixel dark.
pub open spec fn blank_display() -> Seq<u64> {
    Seq::new(DISPLAY_HEIGHT as nat, |r: int| 0u64)
}

/// Whether some key is held down.
pub open spec fn any_key_down(keys: KeypadView) -> bool {
    exists|k: u8| keys.pressed.contains(k)
}

/// Memory after the decimal digits of `value` (hundreds, tens, ones) are
/// stored at `i`, `i + 1` and `i + 2`.
pub open spec fn bcd_stored(mem: Seq<u8>, i: int, value: u8) -> Seq<u8> {
    mem.update(i, value / 100).update(i + 1, (value / 10) % 10).update(i + 2, value % 10)
}

/// Memory after registers V0 to Vx are stored at `i` onwards.
pub open spec fn registers_stored(mem: Seq<u8>, i: int, x: int, v: Seq<u8>) -> Seq<u8> {
    Seq::new(mem.len(), |a: int| if i <= a <= i + x { v[a - i] } else { mem[a] })
}

impl CpuView {
    /// The state at power-on: registers, index and timers zero, an empty
    /// stack, and execution at the program start.
    pub open spec fn initial() -> CpuView {
        CpuView {
            v: Seq::new(16, |j: int| 0u8),
            i: 0,
            pc: PROGRAM_START,
            dt: 0,
            st: 0,
            stack: Seq::empty(),
        }
    }

    pub open spec fn set_v(self, x: int, value: u8) -> CpuView {
        CpuView { v: self.v.update(x, value), ..self }
    }

    pub open spec fn with_pc(self, pc: u16) -> CpuView {
        CpuView { pc: pc, ..self }
    }

    pub open spec fn with_i(self, i: u16) -> CpuView {
        CpuView { i: i, ..self }
    }

    /// Skips the next instruction when `cond` holds.
    pub open spec fn skip_if(self, cond: bool) -> CpuView {
        if cond {
            self.with_pc((self.pc + 2) as u16)
        } else {
            self
        }
    }

    /// Calls the subroutine at `addr`: the return address goes on the stack.
    pub open spec fn call(self, addr: u16) -> CpuView {
        CpuView { stack: self.stack.push(self.pc), pc: addr, ..self }
    }

    /// Returns from a subroutine to the address on top of the stack.
    pub open spec fn ret(self) -> CpuView {
        CpuView { pc: self.stack.last(), stack: self.stack.drop_last(), ..self }
    }

    /// Vx = Vx + Vy modulo 256, then VF = 1 when the sum overflowed, else 0.
    pub open spec fn add_carry(self, x: int, y: int) -> CpuView {
        let sum = self.v[x] + self.v[y];
        self.set_v(x, (sum % 256) as u8).set_v(15, if sum > 255 { 1 } else { 0 })
    }

    /// Vx = Vx - Vy modulo 256, then VF = 1 when Vx >= Vy (no borrow), else
    /// 0; both from the operands' values before the instruction.
    pub open spec fn sub_not_borrow(self, x: int, y: int) -> CpuView {
        let vx = self.v[x];
        let vy = self.v[y];
        self.set_v(x, ((vx - vy) % 256) as u8).set_v(15, if vx >= vy { 1 } else { 0 })
    }

    /// VF = the lowest bit of Vx, then Vx = Vx / 2 (so when x is F, VF ends
    /// up as that bit shifted out, zero).
    pub open spec fn shift_right(self, x: int) -> CpuView {
        let c = self.set_v(15, self.v[x] % 2);
        c.set_v(x, c.v[x] / 2)
    }

    /// Vx = Vy - Vx modulo 256, then VF = 1 when Vy >= Vx (no borrow), else
    /// 0; both from the operands' values before the instruction.
    pub open spec fn sub_reversed(self, x: int, y: int) -> CpuView {
        let vx = self.v[x];
        let vy = self.v[y];
        self.set_v(x, ((vy - vx) % 256) as u8).set_v(15, if vy >= vx { 1 } else { 0 })
    }

    /// VF = the highest bit of Vx, then Vx = Vx * 2 modulo 256 (so when x is
    /// F, VF ends up as twice that bit).
    pub open spec fn shift_left(self, x: int) -> CpuView {
        let c = self.set_v(15, self.v[x] / 128);
        c.set_v(x, ((c.v[x] * 2) % 256) as u8)
    }

    /// Vx = the key pressed last when some key is down; otherwise the program
    /// counter steps back so that the instruction runs again.
    pub open spec fn wait_for_key(self, x: int, keys: KeypadView) -> CpuView {
        if any_key_down(keys) {
            self.set_v(x, keys.last->0)
        } else {
            self.with_pc((self.pc - 2) as u16)
        }
    }

    /// Registers V0 to Vx take the bytes at I onwards.
    pub open spec fn load_registers(self, x: int, mem: Seq<u8>) -> CpuView {
        CpuView {
            v: Seq::new(16, |j: int| if j <= x { mem[self.i + j] } else { self.v[j] }),
            ..self
        }
    }

    /// Each timer that is above zero goes down by one.
    pub open spec fn timers_decremented(self) -> CpuView {
        CpuView {
            dt: if self.dt > 0 { (self.dt - 1) as u8 } else { 0 },
            st: if self.st > 0 { (self.st - 1) as u8 } else { 0 },
            ..self
        }
    }
}

/// The effect of an opcode of group 0: clear the screen, return from a
/// subroutine, or (any other) nothing.
pub open spec fn execute_system(c: CpuView, mem: Seq<u8>, disp: Seq<u64>, op: u16) -> (CpuView, Seq<u8>, Seq<u64>) {
    if op_nnn(op) == 0x0E0 {
        (c, mem, blank_display())
    } else if op_nnn(op) == 0x0EE {
        (c.ret(), mem, disp)
    } else {
        (c, mem, disp)
    }
}

/// The effect of an arithmetic opcode 8xyN.
pub open spec fn execute_arithmetic(c: CpuView, op: u16) -> CpuView {
    let x = op_x(op);
    let y = op_y(op);
    let n = op_n(op);
    if n == 0x0 {
        c.set_v(x, c.v[y])
    } else if n == 0x1 {
        c.set_v(x, c.v[x] | c.v[y])
    } else if n == 0x2 {
        c.set_v(x, c.v[x] & c.v[y])
    } else if n == 0x3 {
        c.set_v(x, c.v[x] ^ c.v[y])
    } else if n == 0x4 {
        c.add_carry(x, y)
    } else if n == 0x5 {
        c.sub_not_borrow(x, y)
    } else if n == 0x6 {
        c.shift_right(x)
    } else if n == 0x7 {
        c.sub_reversed(x, y)
    } else {
        c.shift_left(x)
    }
}

/// Whether N names an arithmetic opcode 8xyN.
pub open spec fn arithmetic_defined(n: u8) -> bool {
    n <= 0x7 || n == 0xE
}

/// The effect of an opcode of group F.
pub open spec fn execute_misc(c: CpuView, mem: Seq<u8>, keys: KeypadView, op: u16) -> (CpuView, Seq<u8>) {
    let x = op_x(op);
    let kk = op_kk(op);
    let vx = c.v[x];
    if kk == 0x07 {
        (c.set_v(x, c.dt), mem)
    } else if kk == 0x0A {
        (c.wait_for_key(x, keys), mem)
    } else if kk == 0x15 {
        (CpuView { dt: vx, ..c }, mem)
    } else if kk == 0x18 {
        (CpuView { st: vx, ..c }, mem)
    } else if kk == 0x1E {
        (c.with_i((c.i + vx) as u16), mem)
    } else if kk == 0x29 {
        (c.with_i((5 * vx) as u16), mem)
    } else if kk == 0x33 {
        (c, bcd_stored(mem, c.i as int, vx))
    } else if kk == 0x55 {
        (c, registers_stored(mem, c.i as int, x, c.v))
    } else {
        (c.load_registers(x, mem), mem)
    }
}

/// Whether an opcode of group F with last byte `kk` can run in state `c`.
pub open spec fn misc_defined(c: CpuView, keys: KeypadView, x: int, kk: u8) -> bool {
    let vx = c.v[x];
    if kk == 0x07 || kk == 0x15 || kk == 0x18 {
        true
    } else if kk == 0x0A {
        any_key_down(keys) || c.pc >= 2
    } else if kk == 0x1E {
        c.i + vx <= u16::MAX
    } else if kk == 0x29 {
        vx <= 0xF
    } else if kk == 0x33 {
        c.i + 2 < MEMORY_SIZE
    } else if kk == 0x55 || kk == 0x65 {
        c.i + x < MEMORY_SIZE
    } else {
        false
    }
}

/// The state after executing `op` in state `c`, with memory `mem`, display
/// rows `disp` and keypad `keys`. `random` is the byte that the random
/// opcode Cxkk masks; no other opcode depends on it.
pub open spec fn execute(
    c: CpuView,
    mem: Seq<u8>,
    disp: Seq<u64>,
    keys: KeypadView,
    op: u16,
    random: u8,
) -> (CpuView, Seq<u8>, Seq<u64>) {
    let group = op_group(op);
    let x = op_x(op);
    let y = op_y(op);
    let n = op_n(op);
    let kk = op_kk(op);
    let nnn = op_nnn(op);
    let vx = c.v[x];
    let vy = c.v[y];
    if group == 0x0 {
        execute_system(c, mem, disp, op)
    } else if group == 0x1 {
        (c.with_pc(nnn), mem, disp)
    } else if group == 0x2 {
        (c.call(nnn), mem, disp)
    } else if group == 0x3 {
        (c.skip_if(vx == kk), mem, disp)
    } else if group == 0x4 {
        (c.skip_if(vx != kk), mem, disp)
    } else if group == 0x5 {
        (c.skip_if(vx == vy), mem, disp)
    } else if group == 0x6 {
        (c.set_v(x, kk), mem, disp)
    } else if group == 0x7 {
        (c.set_v(x, ((vx + kk) % 256) as u8), mem, disp)
    } else if group == 0x8 {
        (execute_arithmetic(c, op), mem, disp)
    } else if group == 0x9 {
        (c.skip_if(vx != vy), mem, disp)
    } else if group == 0xA {
        (c.with_i(nnn), mem, disp)
    } else if group == 0xB {
        (c.with_pc((c.v[0] + nnn) as u16), mem, disp)
    } else if group == 0xC {
        (c.set_v(x, random & kk), mem, disp)
    } else if group == 0xD {
        let sprite = mem.subrange(c.i as int, c.i + n);
        (
            c.set_v(15, if sprite_collides(disp, sprite, vx as usize, vy as usize) { 1 } else { 0 }),
            mem,
            drawn_rows(disp, sprite, vx as usize, vy as usize),
        )
    } else if group == 0xE {
        (c.skip_if(if kk == 0x9E { keys.pressed.contains(vx) } else { !keys.pressed.contains(vx) }), mem, disp)
    } else {
        let (c2, mem2) = execute_misc(c, mem, keys, op);
        (c2, mem2, disp)
    }
}

/// Whether `op` is an opcode that can run in state `c`: it is a known
/// instruction, and the stack, memory, keypad and display accesses it makes
/// stay within bounds.
pub open spec fn opcode_defined(c: CpuView, mem: Seq<u8>, keys: KeypadView, op: u16) -> bool {
    let group = op_group(op);
    let x = op_x(op);
    let y = op_y(op);
    let n = op_n(op);
    let kk = op_kk(op);
    let vx = c.v[x];
    let vy = c.v[y];
    if group == 0x0 {
        op_nnn(op) == 0x0EE ==> c.stack.len() > 0
    } else if group == 0x2 {
        c.stack.len() < STACK_DEPTH
    } else if group == 0x8 {
        arithmetic_defined(n)
    } else if group == 0x9 {
        n == 0
    } else if group == 0xD {
        &&& c.i + n <= MEMORY_SIZE
        &&& sprite_drawable(mem.subrange(c.i as int, c.i + n), vx as usize, vy as usize)
    } else if group == 0xE {
        (kk == 0x9E || kk == 0xA1) && vx < 16
    } else if group == 0xF {
        misc_defined(c, keys, x, kk)
    } else {
        true
    }
}

/// Whether (`c1`, `mem1`, `disp1`) is a possible outcome of executing `op`
/// from (`c0`, `mem0`, `disp0`): the outcome for some random byte.
pub open spec fn executes_to(
    c0: CpuView,
    mem0: Seq<u8>,
    disp0: Seq<u64>,
    keys: KeypadView,
    op: u16,
    c1: CpuView,
    mem1: Seq<u8>,
    disp1: Seq<u64>,
) -> bool {
    exists|random: u8| #[trigger] execute(c0, mem0, disp0, keys, op, random) == (c1, mem1, disp1)
}

/// The opcode stored at the program counter (big-endian).
pub open spec fn fetch(c: CpuView, mem: Seq<u8>) -> u16 {
    (mem[c.pc as int] * 256 + mem[c.pc + 1]) as u16
}

/// Whether one fetch-and-execute cycle can run: the opcode lies within
/// memory and can run once the program counter has moved past it.
pub open spec fn cycle_defined(c: CpuView, mem: Seq<u8>, keys: KeypadView) -> bool {
    &&& c.pc + 1 < MEMORY_SIZE
    &&& opcode_defined(c.with_pc((c.pc + 2) as u16), mem, keys, fetch(c, mem))
}

/// The state after one cycle: fetch the opcode at the program counter,
/// move the program counter past it, and execute it.
pub open spec fn cycle_result(
    c: CpuView,
    mem: Seq<u8>,
    disp: Seq<u64>,
    keys: KeypadView,
    random: u8,
) -> (CpuView, Seq<u8>, Seq<u64>) {
    execute(c.with_pc((c.pc + 2) as u16), mem, disp, keys, fetch(c, mem), random)
}

} // verus!

verus! {

/// Whether (`c1`, `mem1`, `disp1`) is a possible outcome of one cycle from
/// (`c0`, `mem0`, `disp0`): the outcome for some random byte.
pub open spec fn cycles_to(
    c0: CpuView,
    mem0: Seq<u8>,
    disp0: Seq<u64>,
    keys: KeypadView,
    c1: CpuView,
    mem1: Seq<u8>,
    disp1: Seq<u64>,
) -> bool {
    exists|random: u8| #[trigger] cycle_result(c0, mem0, disp0, keys, random) == (c1, mem1, disp1)
}

} // verus!
