use vstd::prelude::*;

use super::display::{drawn_rows, sprite_collides, sprite_drawable, DISPLAY_HEIGHT};
use super::semantics::{
    any_key_down, bcd_stored, blank_display, cycle_defined, cycle_result, cycles_to, execute,
    executes_to, fetch, op_group, op_kk, op_n, op_nnn, op_x, op_y, opcode_defined,
    registers_stored, CpuView, PROGRAM_START, STACK_DEPTH,
};
use super::{Display, Keypad, Memory};
use super::memory::MEMORY_SIZE;

verus! {

/// `rand::random::<u8>()`: a byte drawn from the thread-local generator. Any
/// byte may come back, so nothing is stated of it.
#[verifier::external_body]
fn random_byte() -> (r: u8) {
    rand::random::<u8>()
}

struct Registers {
    /// General registers V0 to VF.
    v: [u8; 16],
    /// The index register, which holds memory addresses.
    i: u16,
    /// The program counter: the address of the next opcode.
    pc: u16,
}

impl Registers {
    fn new() -> (r: Self)
        ensures
            r.v@ == Seq::new(16, |j: int| 0u8),
            r.i == 0,
            r.pc == PROGRAM_START,
    {
        let r = Self { v: [0; 16], i: 0, pc: 0x200 };
        assert(r.v@ =~= Seq::new(16, |j: int| 0u8));
        r
    }
}

struct Timers {
    /// The delay timer.
    dt: u8,
    /// The sound timer; a tone plays while it is above zero.
    st: u8,
}

impl Timers {
    fn new() -> (r: Self)
        ensures
            r.dt == 0,
            r.st == 0,
    {
        Self { dt: 0, st: 0 }
    }
}

struct Stack {
    data: [u16; 16],
    /// The next free slot of `data`.
    pointer: usize,
}

impl Stack {
    spec fn view(&self) -> Seq<u16> {
        self.data@.subrange(0, self.pointer as int)
    }

    spec fn wf(&self) -> bool {
        self.pointer <= STACK_DEPTH
    }

    fn new() -> (r: Self)
        ensures
            r.wf(),
            r@ == Seq::<u16>::empty(),
    {
        let r = Self { data: [0; 16], pointer: 0 };
        assert(r@ =~= Seq::<u16>::empty());
        r
    }

    fn push(&mut self, value: u16)
        requires
            old(self).wf(),
            old(self)@.len() < STACK_DEPTH,
        ensures
            final(self).wf(),
            final(self)@ == old(self)@.push(value),
    {
        self.data[self.pointer] = value;
        self.pointer += 1;
        assert(self@ =~= old(self)@.push(value));
    }

    fn pop(&mut self) -> (r: u16)
        requires
            old(self).wf(),
            old(self)@.len() > 0,
        ensures
            final(self).wf(),
            r == old(self)@.last(),
            final(self)@ == old(self)@.drop_last(),
    {
        self.pointer -= 1;
        let value = self.data[self.pointer];
        assert(self@ =~= old(self)@.drop_last());
        value
    }
}

/// The CHIP-8 processor: registers, timers and call stack.
pub struct Cpu {
    registers: Registers,
    timers: Timers,
    stack: Stack,
}

proof fn lemma_decode(opcode: u16)
    ensures
        (opcode & 0xF000) >> 12 == op_group(opcode),
        (opcode & 0x0F00) >> 8 == op_x(opcode),
        (opcode & 0x00F0) >> 4 == op_y(opcode),
        opcode & 0x000F == op_n(opcode),
        opcode & 0x00FF == op_kk(opcode),
        opcode & 0x0FFF == op_nnn(opcode),
{
    assert((opcode & 0xF000) >> 12 == opcode / 0x1000) by (bit_vector);
    assert((opcode & 0x0F00) >> 8 == (opcode / 0x100) % 16) by (bit_vector);
    assert((opcode & 0x00F0) >> 4 == (opcode / 0x10) % 16) by (bit_vector);
    assert(opcode & 0x000F == opcode % 0x10) by (bit_vector);
    assert(opcode & 0x00FF == opcode % 0x100) by (bit_vector);
    assert(opcode & 0x0FFF == opcode % 0x1000) by (bit_vector);
}

impl Cpu {
    pub closed spec fn view(&self) -> CpuView {
        CpuView {
            v: self.registers.v@,
            i: self.registers.i,
            pc: self.registers.pc,
            dt: self.timers.dt,
            st: self.timers.st,
            stack: self.stack@,
        }
    }

    /// The processor's invariant: the call stack holds at most sixteen
    /// return addresses.
    pub closed spec fn wf(&self) -> bool {
        self.stack.wf()
    }

    /// The processor has sixteen registers V0 to VF.
    pub proof fn lemma_v_len(&self)
        ensures
            self@.v.len() == 16,
    {
    }

    /// What the invariant says of the processor's state.
    pub proof fn lemma_wf(&self)
        requires
            self.wf(),
        ensures
            self@.v.len() == 16,
            self@.stack.len() <= STACK_DEPTH,
    {
    }

    /// The processor at power-on.
    pub fn new() -> (r: Self)
        ensures
            r.wf(),
            r@ == CpuView::initial(),
    {
        let r = Self { registers: Registers::new(), timers: Timers::new(), stack: Stack::new() };
        assert(r@ =~= CpuView::initial());
        r
    }

    // 0nnn - SYS addr
    /// Ignored by modern interpreters.
    fn op_0nnn(&self) {
    }

    // 00E0 - CLS
    /// Clear the display.
    fn op_00e0(&self, display: &mut Display)
        ensures
            final(display)@ == blank_display(),
    {
        display.clear();
    }

    // 00EE - RET
    /// Return from a subroutine.
    fn op_00ee(&mut self)
        requires
            old(self).wf(),
            old(self)@.stack.len() > 0,
        ensures
            final(self).wf(),
            final(self)@ == old(self)@.ret(),
    {
        self.registers.pc = self.stack.pop();
    }

    // 1nnn - JP addr
    /// Jump to location nnn (u12).
    fn op_1nnn(&mut self, address: u16)
        ensures
            final(self).wf() == old(self).wf(),
            final(self)@ == old(self)@.with_pc(address),
    {
        self.registers.pc = address;
    }

    // 2nnn - CALL addr
    /// Call subroutine at nnn (u12).
    fn op_2nnn(&mut self, address: u16)
        requires
            old(self).wf(),
            old(self)@.stack.len() < STACK_DEPTH,
        ensures
            final(self).wf(),
            final(self)@ == old(self)@.call(address),
    {
        self.stack.push(self.registers.pc);
        self.registers.pc = address;
    }

    // 3xkk - SE Vx, byte
    /// Skip next instruction if Vx = kk.
    fn op_3xkk(&mut self, x: usize, value: u8)
        requires
            x < 16,
            old(self)@.pc + 2 <= u16::MAX,
        ensures
            final(self).wf() == old(self).wf(),
            final(self)@ == old(self)@.skip_if(old(self)@.v[x as int] == value),
    {
        if self.registers.v[x] == value {
            self.registers.pc += 2;
        }
    }

    // 4xkk - SNE Vx, byte
    /// Skip next instruction if Vx != kk.
    fn op_4xkk(&mut self, x: usize, value: u8)
        requires
            x < 16,
            old(self)@.pc + 2 <= u16::MAX,
        ensures
            final(self).wf() == old(self).wf(),
            final(self)@ == old(self)@.skip_if(old(self)@.v[x as int] != value),
    {
        if !(self.registers.v[x] == value) {
            self.registers.pc += 2;
        }
    }

    // 5xy0 - SE Vx, Vy
    /// Skip next instruction if Vx = Vy.
    fn op_5xy0(&mut self, x: usize, y: usize)
        requires
            x < 16,
            y < 16,
            old(self)@.pc + 2 <= u16::MAX,
        ensures
            final(self).wf() == old(self).wf(),
            final(self)@ == old(self)@.skip_if(old(self)@.v[x as int] == old(self)@.v[y as int]),
    {
        if self.registers.v[x] == self.registers.v[y] {
            self.registers.pc += 2;
        }
    }

    // 6xkk - LD Vx, byte
    /// Set Vx = kk.
    fn op_6xkk(&mut self, x: usize, value: u8)
        requires
            x < 16,
        ensures
            final(self).wf() == old(self).wf(),
            final(self)@ == old(self)@.set_v(x as int, value),
    {
        self.registers.v[x] = value;
        assert(self@ =~= old(self)@.set_v(x as int, value));
    }

    // 7xkk - ADD Vx, byte
    /// Set Vx = Vx + kk with wrapping.
    fn op_7xkk(&mut self, x: usize, value: u8)
        requires
            x < 16,
        ensures
            final(self).wf() == old(self).wf(),
            final(self)@ == old(self)@.set_v(x as int, ((old(self)@.v[x as int] + value) % 256) as u8),
    {
        self.registers.v[x] = self.registers.v[x].wrapping_add(value);
        assert(self@ =~= old(self)@.set_v(x as int, ((old(self)@.v[x as int] + value) % 256) as u8));
    }

    // 8xy0 - LD Vx, Vy
    /// Set Vx = Vy.
    fn op_8xy0(&mut self, x: usize, y: usize)
        requires
            x < 16,
            y < 16,
        ensures
            final(self).wf() == old(self).wf(),
            final(self)@ == old(self)@.set_v(x as int, old(self)@.v[y as int]),
    {
        self.registers.v[x] = self.registers.v[y];
        assert(self@ =~= old(self)@.set_v(x as int, old(self)@.v[y as int]));
    }

    // 8xy1 - OR Vx, Vy
    /// Set Vx = Vx OR Vy.
    fn op_8xy1(&mut self, x: usize, y: usize)
        requires
            x < 16,
            y < 16,
        ensures
            final(self).wf() == old(self).wf(),
            final(self)@ == old(self)@.set_v(x as int, old(self)@.v[x as int] | old(self)@.v[y as int]),
    {
        self.registers.v[x] = self.registers.v[x] | self.registers.v[y];
        assert(self@ =~= old(self)@.set_v(x as int, old(self)@.v[x as int] | old(self)@.v[y as int]));
    }

    // 8xy2 - AND Vx, Vy
    /// Set Vx = Vx AND Vy.
    fn op_8xy2(&mut self, x: usize, y: usize)
        requires
            x < 16,
            y < 16,
        ensures
            final(self).wf() == old(self).wf(),
            final(self)@ == old(self)@.set_v(x as int, old(self)@.v[x as int] & old(self)@.v[y as int]),
    {
        self.registers.v[x] = self.registers.v[x] & self.registers.v[y];
        assert(self@ =~= old(self)@.set_v(x as int, old(self)@.v[x as int] & old(self)@.v[y as int]));
    }

    // 8xy3 - XOR Vx, Vy
    /// Set Vx = Vx XOR Vy.
    fn op_8xy3(&mut self, x: usize, y: usize)
        requires
            x < 16,
            y < 16,
        ensures
            final(self).wf() == old(self).wf(),
            final(self)@ == old(self)@.set_v(x as int, old(self)@.v[x as int] ^ old(self)@.v[y as int]),
    {
        self.registers.v[x] = self.registers.v[x] ^ self.registers.v[y];
        assert(self@ =~= old(self)@.set_v(x as int, old(self)@.v[x as int] ^ old(self)@.v[y as int]));
    }

    // 8xy4 - ADD Vx, Vy
    /// Set Vx = Vx + Vy, set VF = carry.
    fn op_8xy4(&mut self, x: usize, y: usize)
        requires
            x < 16,
            y < 16,
        ensures
            final(self).wf() == old(self).wf(),
            final(self)@ == old(self)@.add_carry(x as int, y as int),
    {
        let sum = self.registers.v[x] as u16 + self.registers.v[y] as u16;
        let result = (sum % 256) as u8;
        let is_overflowed = sum > 255;
        self.registers.v[x] = result;

        if is_overflowed {
            self.registers.v[0xF] = 1;
        } else {
            self.registers.v[0xF] = 0;
        }
        assert(self@ =~= old(self)@.add_carry(x as int, y as int));
    }

    // 8xy5 - SUB Vx, Vy
    /// Set Vx = Vx - Vy, set VF = NOT borrow.
    fn op_8xy5(&mut self, x: usize, y: usize)
        requires
            x < 16,
            y < 16,
        ensures
            final(self).wf() == old(self).wf(),
            final(self)@ == old(self)@.sub_not_borrow(x as int, y as int),
    {
        let vx = self.registers.v[x];
        let vy = self.registers.v[y];
        self.registers.v[x] = vx.wrapping_sub(vy);
        if vx >= vy {
            self.registers.v[0xF] = 1;
        } else {
            self.registers.v[0xF] = 0;
        }
        assert(self@ =~= old(self)@.sub_not_borrow(x as int, y as int));
    }

    // 8xy6 - SHR Vx {, Vy}
    /// Set Vx = Vx SHR 1
    fn op_8xy6(&mut self, x: usize)
        requires
            x < 16,
        ensures
            final(self).wf() == old(self).wf(),
            final(self)@ == old(self)@.shift_right(x as int),
    {
        let vx = self.registers.v[x];
        assert(vx & 1 == vx % 2) by (bit_vector);
        self.registers.v[0xF] = vx & 1;
        let vx2 = self.registers.v[x];
        assert(vx2 >> 1 == vx2 / 2) by (bit_vector);
        self.registers.v[x] >>= 1;
        assert(self@ =~= old(self)@.shift_right(x as int));
    }

    // 8xy7 - SUBN Vx, Vy
    /// Set Vx = Vy - Vx, set VF = NOT borrow.
    fn op_8xy7(&mut self, x: usize, y: usize)
        requires
            x < 16,
            y < 16,
        ensures
            final(self).wf() == old(self).wf(),
            final(self)@ == old(self)@.sub_reversed(x as int, y as int),
    {
        let vx = self.registers.v[x];
        let vy = self.registers.v[y];
        self.registers.v[x] = vy.wrapping_sub(vx);
        if vy >= vx {
            self.registers.v[0xF] = 1;
        } else {
            self.registers.v[0xF] = 0;
        }
        assert(self@ =~= old(self)@.sub_reversed(x as int, y as int));
    }

    // 8xyE - SHL Vx {, Vy}
    /// Set Vx = Vx SHL 1.
    fn op_8xye(&mut self, x: usize)
        requires
            x < 16,
        ensures
            final(self).wf() == old(self).wf(),
            final(self)@ == old(self)@.shift_left(x as int),
    {
        // Checks is most significant bit == 1
        let vx = self.registers.v[x];
        assert(vx >> 7 & 1 == vx / 128) by (bit_vector);
        self.registers.v[0xF] = vx >> 7 & 1;
        let vx2 = self.registers.v[x];
        assert(vx2 << 1 == (vx2 * 2) % 256) by (bit_vector);
        self.registers.v[x] <<= 1;
        assert(self@ =~= old(self)@.shift_left(x as int));
    }

    // 9xy0 - SNE Vx, Vy
    /// Skip next instruction if Vx != Vy.
    fn op_9xy0(&mut self, x: usize, y: usize)
        requires
            x < 16,
            y < 16,
            old(self)@.pc + 2 <= u16::MAX,
        ensures
            final(self).wf() == old(self).wf(),
            final(self)@ == old(self)@.skip_if(old(self)@.v[x as int] != old(self)@.v[y as int]),
    {
        if self.registers.v[x] != self.registers.v[y] {
            self.registers.pc += 2;
        }
    }

    // Annn - LD I, addr
    /// Set I = nnn.
    fn op_annn(&mut self, value: u16)
        ensures
            final(self).wf() == old(self).wf(),
            final(self)@ == old(self)@.with_i(value),
    {
        self.registers.i = value;
    }

    // Bnnn - JP V0, addr
    /// Jump to location nnn + V0.
    fn op_bnnn(&mut self, address: u16)
        requires
            address < 0x1000,
        ensures
            final(self).wf() == old(self).wf(),
            final(self)@ == old(self)@.with_pc((old(self)@.v[0] + address) as u16),
    {
        self.registers.pc = self.registers.v[0] as u16 + address;
    }

    // Cxkk - RND Vx, byte
    /// Set Vx = `random` AND kk.
    fn op_cxkk_with(&mut self, x: usize, value: u8, random: u8)
        requires
            x < 16,
        ensures
            final(self).wf() == old(self).wf(),
            final(self)@ == old(self)@.set_v(x as int, random & value),
    {
        self.registers.v[x] = random & value;
        assert(self@ =~= old(self)@.set_v(x as int, random & value));
    }

    // Cxkk - RND Vx, byte
    /// Set Vx = random byte AND kk.
    fn op_cxkk(&mut self, x: usize, value: u8)
        requires
            x < 16,
        ensures
            final(self).wf() == old(self).wf(),
            exists|random: u8| final(self)@ == old(self)@.set_v(x as int, random & value),
    {
        let r = random_byte();
        self.op_cxkk_with(x, value, r);
    }

    // Dxyn - DRW Vx, Vy, nibble
    /// Display n-byte sprite starting at memory location I at (Vx, Vy), set VF = collision.
    fn op_dxyn(&mut self, x: usize, y: usize, sprite_height: u8, memory: &Memory, display: &mut Display)
        requires
            x < 16,
            y < 16,
            old(self)@.i + sprite_height <= MEMORY_SIZE,
            sprite_drawable(
                memory@.subrange(old(self)@.i as int, old(self)@.i + sprite_height),
                old(self)@.v[x as int] as usize,
                old(self)@.v[y as int] as usize,
            ),
        ensures
            final(self).wf() == old(self).wf(),
            ({
                let sprite = memory@.subrange(old(self)@.i as int, old(self)@.i + sprite_height);
                let vx = old(self)@.v[x as int] as usize;
                let vy = old(self)@.v[y as int] as usize;
                &&& final(display)@ == drawn_rows(old(display)@, sprite, vx, vy)
                &&& final(self)@ == old(self)@.set_v(
                    15,
                    if sprite_collides(old(display)@, sprite, vx, vy) { 1 } else { 0 },
                )
            }),
    {
        let sprite_bytes = memory.read_bytes(self.registers.i as usize, sprite_height as usize);

        let pixels_collided = display.draw_sprite(
            sprite_bytes,
            self.registers.v[x] as usize,
            self.registers.v[y] as usize,
        );

        if pixels_collided {
            self.registers.v[0xF] = 1;
        } else {
            self.registers.v[0xF] = 0;
        }
        assert(self@ =~= old(self)@.set_v(15, if pixels_collided { 1 } else { 0 }));
    }

    // Ex9E - SKP Vx
    /// Skip next instruction if key with the value of Vx is pressed.
    fn op_ex9e(&mut self, x: usize, keypad: &Keypad)
        requires
            x < 16,
            old(self)@.v[x as int] < 16,
            old(self)@.pc + 2 <= u16::MAX,
        ensures
            final(self).wf() == old(self).wf(),
            final(self)@ == old(self)@.skip_if(keypad@.pressed.contains(old(self)@.v[x as int])),
    {
        if keypad.is_key_pressed(self.registers.v[x]) {
            self.registers.pc += 2;
        }
    }

    // ExA1 - SKNP Vx
    /// Skip next instruction if key with the value of Vx is not pressed.
    fn op_exa1(&mut self, x: usize, keypad: &Keypad)
        requires
            x < 16,
            old(self)@.v[x as int] < 16,
            old(self)@.pc + 2 <= u16::MAX,
        ensures
            final(self).wf() == old(self).wf(),
            final(self)@ == old(self)@.skip_if(!keypad@.pressed.contains(old(self)@.v[x as int])),
    {
        if !keypad.is_key_pressed(self.registers.v[x]) {
            self.registers.pc += 2;
        }
    }

    // Fx07 - LD Vx, DT
    /// Set Vx = delay timer value.
    fn op_fx07(&mut self, x: usize)
        requires
            x < 16,
        ensures
            final(self).wf() == old(self).wf(),
            final(self)@ == old(self)@.set_v(x as int, old(self)@.dt),
    {
        self.registers.v[x] = self.timers.dt;
        assert(self@ =~= old(self)@.set_v(x as int, old(self)@.dt));
    }

    // Fx0A - LD Vx, K
    /// Wait for a key press, store the value of the key in Vx.
    fn op_fx0a(&mut self, x: usize, keypad: &Keypad)
        requires
            x < 16,
            keypad.wf(),
            any_key_down(keypad@) || old(self)@.pc >= 2,
        ensures
            final(self).wf() == old(self).wf(),
            final(self)@ == old(self)@.wait_for_key(x as int, keypad@),
    {
        if !keypad.is_any_key_pressed() {
            // Moving program counter backwards because it would skip this opcode otherwise
            self.registers.pc -= 2;
            return;
        }

        self.registers.v[x] = keypad.get_last_pressed_key();
        assert(self@ =~= old(self)@.wait_for_key(x as int, keypad@));
    }

    // Fx15 - LD DT, Vx
    /// Set delay timer = Vx.
    fn op_fx15(&mut self, x: usize)
        requires
            x < 16,
        ensures
            final(self).wf() == old(self).wf(),
            final(self)@ == (CpuView { dt: old(self)@.v[x as int], ..old(self)@ }),
    {
        self.timers.dt = self.registers.v[x];
    }

    // Fx18 - LD ST, Vx
    /// Set sound timer = Vx.
    fn op_fx18(&mut self, x: usize)
        requires
            x < 16,
        ensures
            final(self).wf() == old(self).wf(),
            final(self)@ == (CpuView { st: old(self)@.v[x as int], ..old(self)@ }),
    {
        self.timers.st = self.registers.v[x];
    }

    // Fx1E - ADD I, Vx
    /// Set I = I + Vx.
    fn op_fx1e(&mut self, x: usize)
        requires
            x < 16,
            old(self)@.i + old(self)@.v[x as int] <= u16::MAX,
        ensures
            final(self).wf() == old(self).wf(),
            final(self)@ == old(self)@.with_i((old(self)@.i + old(self)@.v[x as int]) as u16),
    {
        self.registers.i += self.registers.v[x] as u16;
    }

    // Fx29 - LD F, Vx
    /// Set I = location of sprite for digit Vx.
    fn op_fx29(&mut self, x: usize)
        requires
            x < 16,
            old(self)@.v[x as int] <= 0xF,
        ensures
            final(self).wf() == old(self).wf(),
            final(self)@ == old(self)@.with_i((5 * old(self)@.v[x as int]) as u16),
    {
        // Each digit sprite uses 5 bytes of memory
        self.registers.i = 5 * self.registers.v[x] as u16;
    }

    // Fx33 - LD B, Vx
    /// Store BCD representation of Vx in memory locations I, I+1, and I+2.
    fn op_fx33(&mut self, x: usize, memory: &mut Memory)
        requires
            x < 16,
            old(self)@.i + 2 < MEMORY_SIZE,
        ensures
            *final(self) == *old(self),
            final(memory)@ == bcd_stored(old(memory)@, old(self)@.i as int, old(self)@.v[x as int]),
    {
        // 123 // 100 = 1
        let hundreds = self.registers.v[x] / 100;
        // (123 // 10) % 10 = 12 % 10 = 2
        let tens = (self.registers.v[x] / 10) % 10;
        // 123 % 10 = 3
        let ones = self.registers.v[x] % 10;

        let idx = self.registers.i as usize;

        memory.write_byte(idx, hundreds);
        memory.write_byte(idx + 1, tens);
        memory.write_byte(idx + 2, ones);
    }

    // Fx55 - LD [I], Vx
    /// Store registers V0 through Vx in memory starting at location I.
    fn op_fx55(&self, x: usize, memory: &mut Memory)
        requires
            x < 16,
            self@.i + x < MEMORY_SIZE,
        ensures
            final(memory)@ == registers_stored(old(memory)@, self@.i as int, x as int, self@.v),
    {
        let ghost i = self@.i as int;
        let mut idx: usize = 0;
        while idx <= x
            invariant
                x < 16,
                idx <= x + 1,
                i == self@.i,
                i + x < MEMORY_SIZE,
                memory@.len() == MEMORY_SIZE,
                forall|a: int|
                    0 <= a < MEMORY_SIZE ==> #[trigger] memory@[a] == if i <= a < i + idx {
                        self@.v[a - i]
                    } else {
                        old(memory)@[a]
                    },
            decreases x + 1 - idx,
        {
            let offset = self.registers.i as usize + idx;
            memory.write_byte(offset, self.registers.v[idx]);
            idx += 1;
        }
        assert(memory@ =~= registers_stored(old(memory)@, i, x as int, self@.v));
    }

    // Fx65 - LD Vx, [I]
    /// Read registers V0 through Vx from memory starting at location I.
    fn op_fx65(&mut self, x: usize, memory: &Memory)
        requires
            x < 16,
            old(self)@.i + x < MEMORY_SIZE,
        ensures
            final(self).wf() == old(self).wf(),
            final(self)@ == old(self)@.load_registers(x as int, memory@),
    {
        let ghost i = self@.i as int;
        let mut idx: usize = 0;
        assert(self.registers.v@ =~= Seq::new(16, |j: int| if j < 0 { memory@[i + j] } else { old(self)@.v[j] }));
        while idx <= x
            invariant
                x < 16,
                idx <= x + 1,
                i == old(self)@.i,
                i + x < MEMORY_SIZE,
                memory@.len() == MEMORY_SIZE,
                self.wf() == old(self).wf(),
                self@ == (CpuView {
                    v: Seq::new(16, |j: int| if j < idx { memory@[i + j] } else { old(self)@.v[j] }),
                    ..old(self)@
                }),
            decreases x + 1 - idx,
        {
            let offset = self.registers.i as usize + idx;
            self.registers.v[idx] = memory.read_byte(offset);
            idx += 1;
            assert(self.registers.v@ =~= Seq::new(16, |j: int| if j < idx { memory@[i + j] } else { old(self)@.v[j] }));
        }
        assert(self@.v =~= old(self)@.load_registers(x as int, memory@).v);
    }

    /// Each timer that is above zero counts down by one.
    pub fn decrement_timers(&mut self)
        ensures
            final(self).wf() == old(self).wf(),
            final(self)@ == old(self)@.timers_decremented(),
    {
        if self.timers.dt > 0 {
            self.timers.dt -= 1;
        }

        if self.timers.st > 0 {
            self.timers.st -= 1;
        }
    }

    fn execute_opcode(
        &mut self,
        opcode: u16,
        memory: &mut Memory,
        display: &mut Display,
        keypad: &Keypad,
    )
        requires
            old(self).wf(),
            keypad.wf(),
            old(self)@.pc + 2 <= u16::MAX,
            opcode_defined(old(self)@, old(memory)@, keypad@, opcode),
        ensures
            final(self).wf(),
            executes_to(
                old(self)@,
                old(memory)@,
                old(display)@,
                keypad@,
                opcode,
                final(self)@,
                final(memory)@,
                final(display)@,
            ),
    {
        let ghost c = self@;
        let ghost m = memory@;
        let ghost d = display@;
        proof {
            lemma_decode(opcode);
            self.lemma_wf();
        }
        // First nibble which means a group of opcodes
        let group = (opcode & 0xF000) >> 12;

        let x = ((opcode & 0x0F00) >> 8) as usize; // Register with number "x"
        let y = ((opcode & 0x00F0) >> 4) as usize; // Register with number "y"
        let n = (opcode & 0x000F) as u8; // Value in last 1 nibble
        let kk = (opcode & 0x00FF) as u8; // Value in last 2 nibbles
        let nnn = opcode & 0x0FFF; // Value in last 3 nibbles

        match group {
            0x0 => match nnn {
                0x0E0 => self.op_00e0(display),
                0x0EE => self.op_00ee(),
                _ => self.op_0nnn(),
            },
            0x1 => self.op_1nnn(nnn),
            0x2 => self.op_2nnn(nnn),
            0x3 => self.op_3xkk(x, kk),
            0x4 => self.op_4xkk(x, kk),
            0x5 => self.op_5xy0(x, y),
            0x6 => self.op_6xkk(x, kk),
            0x7 => self.op_7xkk(x, kk),
            0x8 => match n {
                0x0 => self.op_8xy0(x, y),
                0x1 => self.op_8xy1(x, y),
                0x2 => self.op_8xy2(x, y),
                0x3 => self.op_8xy3(x, y),
                0x4 => self.op_8xy4(x, y),
                0x5 => self.op_8xy5(x, y),
                0x6 => self.op_8xy6(x),
                0x7 => self.op_8xy7(x, y),
                // 0xE: `opcode_defined` rules out every other value
                _ => self.op_8xye(x),
            },
            // 9xy0: `opcode_defined` rules out a last nibble other than 0
            0x9 => self.op_9xy0(x, y),
            0xA => self.op_annn(nnn),
            0xB => self.op_bnnn(nnn),
            0xC => self.op_cxkk(x, kk),
            0xD => self.op_dxyn(x, y, n, memory, display),
            0xE => match kk {
                0x9E => self.op_ex9e(x, keypad),
                // 0xA1: `opcode_defined` rules out every other value
                _ => self.op_exa1(x, keypad),
            },
            // 0xF, the last group
            _ => match kk {
                0x07 => self.op_fx07(x),
                0x0A => self.op_fx0a(x, keypad),
                0x15 => self.op_fx15(x),
                0x18 => self.op_fx18(x),
                0x1E => self.op_fx1e(x),
                0x29 => self.op_fx29(x),
                0x33 => self.op_fx33(x, memory),
                0x55 => self.op_fx55(x, memory),
                // 0x65: `opcode_defined` rules out every other value
                _ => self.op_fx65(x, memory),
            },
        }
        proof {
            if group == 0xC {
                let r = choose|r: u8| self@ == c.set_v(x as int, r & kk);
                assert(execute(c, m, d, keypad@, opcode, r) == (self@, memory@, display@));
            } else {
                assert(execute(c, m, d, keypad@, opcode, 0) == (self@, memory@, display@));
            }
        }
    }

    /// Makes one CPU cycle: fetches the opcode at the program counter, moves
    /// the program counter past it and executes it.
    pub fn cycle(&mut self, memory: &mut Memory, display: &mut Display, keypad: &Keypad)
        requires
            old(self).wf(),
            keypad.wf(),
            cycle_defined(old(self)@, old(memory)@, keypad@),
        ensures
            final(self).wf(),
            cycles_to(
                old(self)@,
                old(memory)@,
                old(display)@,
                keypad@,
                final(self)@,
                final(memory)@,
                final(display)@,
            ),
    {
        let ghost c = self@;
        let ghost m = memory@;
        let ghost d = display@;
        // Reading current opcode
        let opcode = memory.read_word(self.registers.pc as usize);

        // Moving to next opcode
        self.registers.pc += 2;

        // Executing one opcode
        self.execute_opcode(opcode, memory, display, keypad);
        proof {
            let r = choose|r: u8|
                #[trigger] execute(c.with_pc((c.pc + 2) as u16), m, d, keypad@, opcode, r) == (
                    self@,
                    memory@,
                    display@,
                );
            assert(cycle_result(c, m, d, keypad@, r) == (self@, memory@, display@));
        }
    }

    /// Whether `cycle` can run on this state: the opcode at the program
    /// counter lies within memory, is a known instruction, and its stack,
    /// memory, keypad and display accesses stay within bounds.
    pub fn can_cycle(&self, memory: &Memory, keypad: &Keypad) -> (r: bool)
        requires
            self.wf(),
        ensures
            r == cycle_defined(self@, memory@, keypad@),
    {
        proof {
            self.lemma_wf();
        }
        let pc = self.registers.pc as usize;
        if pc + 1 >= MEMORY_SIZE {
            return false;
        }
        let opcode = memory.read_word(pc);
        let ghost c = self@.with_pc((self@.pc + 2) as u16);
        assert(opcode == fetch(self@, memory@));
        proof {
            lemma_decode(opcode);
        }
        let group = (opcode & 0xF000) >> 12;
        let x = ((opcode & 0x0F00) >> 8) as usize;
        let y = ((opcode & 0x00F0) >> 4) as usize;
        let n = (opcode & 0x000F) as u8;
        let kk = (opcode & 0x00FF) as u8;
        let nnn = opcode & 0x0FFF;
        let vx = self.registers.v[x];
        let vy = self.registers.v[y];
        let i = self.registers.i as usize;
        match group {
            0x0 => nnn != 0x0EE || self.stack.pointer > 0,
            0x2 => self.stack.pointer < STACK_DEPTH,
            0x8 => n <= 0x7 || n == 0xE,
            0x9 => n == 0,
            0xD => i + (n as usize) <= MEMORY_SIZE && (n == 0 || vy as usize >= DISPLAY_HEIGHT
                || vx < 120 || vx >= 249),
            0xE => (kk == 0x9E || kk == 0xA1) && vx < 16,
            0xF => match kk {
                // Fx0A can always step the program counter back past the
                // opcode that was just fetched.
                0x07 | 0x0A | 0x15 | 0x18 => true,
                0x1E => (self.registers.i as u32) + (vx as u32) <= 0xFFFF,
                0x29 => vx <= 0xF,
                0x33 => i + 2 < MEMORY_SIZE,
                0x55 | 0x65 => i + x < MEMORY_SIZE,
                _ => false,
            },
            _ => true,
        }
    }
}

} // verus!
