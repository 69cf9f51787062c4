use vstd::prelude::*;

use super::display::{
    drawn_rows, lemma_sprite_row_mask_pixels, pixel_colour, pixel_lit, sprite_collides,
    sprite_covers_row, sprite_drawable, sprite_left, sprite_mask_at, sprite_pixel, BLACK, DISPLAY_HEIGHT,
    DISPLAY_WIDTH,
};
use super::keypad::KeypadView;
use super::memory::{bytes_written, font_glyph, initial_byte, initial_memory, MEMORY_SIZE};
use super::semantics::{
    any_key_down, arithmetic_defined, bcd_stored, blank_display, cycle_result, execute, fetch,
    op_group, op_kk, op_n, op_nnn, op_x, op_y, opcode_defined, registers_stored,
    CpuView, PROGRAM_START, STACK_DEPTH,
};

verus! {

/// Drawing the same sprite twice at the same place leaves the display as it
/// was: drawing XORs the sprite onto the screen.
pub proof fn lemma_draw_twice_restores(rows: Seq<u64>, sprite: Seq<u8>, offset_x: usize, offset_y: usize)
    ensures
        drawn_rows(drawn_rows(rows, sprite, offset_x, offset_y), sprite, offset_x, offset_y) == rows,
{
    let once = drawn_rows(rows, sprite, offset_x, offset_y);
    let twice = drawn_rows(once, sprite, offset_x, offset_y);
    assert forall|r: int| 0 <= r < rows.len() implies twice[r] == rows[r] by {
        if sprite_covers_row(sprite, offset_y, r) {
            let a = rows[r];
            let m = sprite_mask_at(sprite, offset_x, offset_y, r);
            assert((a ^ m) ^ m == a) by (bit_vector);
        }
    }
    assert(twice =~= rows);
}

/// Drawing onto a dark display never reports a collision.
pub proof fn lemma_draw_on_blank_no_collision(sprite: Seq<u8>, offset_x: usize, offset_y: usize)
    ensures
        !sprite_collides(blank_display(), sprite, offset_x, offset_y),
{
    assert forall|r: int| 0 <= r < blank_display().len() && sprite_covers_row(sprite, offset_y, r)
        implies #[trigger] (sprite_mask_at(sprite, offset_x, offset_y, r) & blank_display()[r]) == 0 by {
        let m = sprite_mask_at(sprite, offset_x, offset_y, r);
        assert(m & 0u64 == 0) by (bit_vector);
    }
}

/// Erasing a sprite by drawing it a second time reports a collision exactly
/// when the sprite covers a lit pixel of some row it is drawn on.
pub proof fn lemma_redraw_collides(rows: Seq<u64>, sprite: Seq<u8>, offset_x: usize, offset_y: usize)
    ensures
        sprite_collides(drawn_rows(rows, sprite, offset_x, offset_y), sprite, offset_x, offset_y)
            <==> exists|r: int|
            0 <= r < rows.len() && sprite_covers_row(sprite, offset_y, r) && #[trigger] (sprite_mask_at(
                sprite,
                offset_x,
                offset_y,
                r,
            ) & !rows[r]) != 0,
{
    let once = drawn_rows(rows, sprite, offset_x, offset_y);
    assert forall|r: int| 0 <= r < rows.len() && sprite_covers_row(sprite, offset_y, r) implies (
    #[trigger] (sprite_mask_at(sprite, offset_x, offset_y, r) & once[r]) != 0) == ((sprite_mask_at(
        sprite,
        offset_x,
        offset_y,
        r,
    ) & !rows[r]) != 0) by {
        let a = rows[r];
        let m = sprite_mask_at(sprite, offset_x, offset_y, r);
        assert(m & (a ^ m) == m & !a) by (bit_vector);
    }
    if sprite_collides(once, sprite, offset_x, offset_y) {
        let r = choose|r: int|
            0 <= r < once.len() && sprite_covers_row(sprite, offset_y, r) && #[trigger] (sprite_mask_at(
                sprite,
                offset_x,
                offset_y,
                r,
            ) & once[r]) != 0;
        assert((sprite_mask_at(sprite, offset_x, offset_y, r) & !rows[r]) != 0);
    }
    if exists|r: int|
        0 <= r < rows.len() && sprite_covers_row(sprite, offset_y, r) && #[trigger] (sprite_mask_at(
            sprite,
            offset_x,
            offset_y,
            r,
        ) & !rows[r]) != 0 {
        let r = choose|r: int|
            0 <= r < rows.len() && sprite_covers_row(sprite, offset_y, r) && #[trigger] (sprite_mask_at(
                sprite,
                offset_x,
                offset_y,
                r,
            ) & !rows[r]) != 0;
        assert((sprite_mask_at(sprite, offset_x, offset_y, r) & once[r]) != 0);
    }
}

proof fn lemma_xor_bit(a: u64, m: u64, k: u64)
    requires
        k < 64,
    ensures
        ((a ^ m) >> k) & 1 == 1 <==> (((a >> k) & 1 == 1) != ((m >> k) & 1 == 1)),
{
    assert(((a ^ m) >> k) & 1 == 1 <==> (((a >> k) & 1 == 1) != ((m >> k) & 1 == 1)))
        by (bit_vector)
        requires
            k < 64,
    ;
}

proof fn lemma_and_bit(a: u64, m: u64, k: u64)
    requires
        k < 64,
    ensures
        ((m >> k) & 1 == 1 && (a >> k) & 1 == 1) ==> (m & a) != 0,
{
    assert(((m >> k) & 1 == 1 && (a >> k) & 1 == 1) ==> (m & a) != 0) by (bit_vector)
        requires
            k < 64,
    ;
}

/// A nonzero word has a set bit.
proof fn lemma_nonzero_has_set_bit(v: u64)
    requires
        v != 0,
    ensures
        exists|k: u64| k < 64 && #[trigger] ((v >> k) & 1) == 1,
    decreases v,
{
    if v & 1 == 1 {
        assert((v >> 0u64) & 1 == v & 1) by (bit_vector);
        assert(((v >> 0u64) & 1) == 1);
    } else {
        let w = v >> 1u64;
        assert(v & 1 != 1 && v != 0 ==> (v >> 1u64) != 0 && (v >> 1u64) < v) by (bit_vector);
        lemma_nonzero_has_set_bit(w);
        let k = choose|k: u64| k < 64 && #[trigger] ((w >> k) & 1) == 1;
        assert(((v >> 1u64) >> 63u64) & 1 == 0) by (bit_vector);
        assert(k < 63);
        assert(k < 63 ==> ((v >> 1u64) >> k) == v >> ((k + 1) as u64)) by (bit_vector);
        assert(((v >> ((k + 1) as u64)) & 1) == 1);
    }
}

/// At pixel level, drawing XORs: a pixel of a row the sprite covers flips
/// exactly where the sprite has a pixel, and every other pixel stays.
pub proof fn lemma_drawn_pixels(
    rows: Seq<u64>,
    sprite: Seq<u8>,
    offset_x: usize,
    offset_y: usize,
    r: int,
    x: int,
)
    requires
        rows.len() == DISPLAY_HEIGHT,
        sprite_drawable(sprite, offset_x, offset_y),
        0 <= r < DISPLAY_HEIGHT,
        0 <= x < DISPLAY_WIDTH,
    ensures
        pixel_lit(drawn_rows(rows, sprite, offset_x, offset_y)[r], x) == (pixel_lit(rows[r], x) != (
        sprite_covers_row(sprite, offset_y, r) && sprite_pixel(sprite[r - offset_y], offset_x, x))),
{
    if sprite_covers_row(sprite, offset_y, r) {
        let m = sprite_mask_at(sprite, offset_x, offset_y, r);
        lemma_sprite_row_mask_pixels(sprite[r - offset_y], offset_x, x);
        lemma_xor_bit(rows[r], m, (63 - x) as u64);
    }
}

/// At pixel level, a draw collides exactly when some pixel of the sprite
/// lands on a pixel of the display that is lit.
pub proof fn lemma_collision_pixels(rows: Seq<u64>, sprite: Seq<u8>, offset_x: usize, offset_y: usize)
    requires
        rows.len() == DISPLAY_HEIGHT,
        sprite_drawable(sprite, offset_x, offset_y),
    ensures
        sprite_collides(rows, sprite, offset_x, offset_y) <==> exists|r: int, x: int|
            0 <= r < DISPLAY_HEIGHT && 0 <= x < DISPLAY_WIDTH && sprite_covers_row(sprite, offset_y, r)
                && #[trigger] sprite_pixel(sprite[r - offset_y], offset_x, x) && #[trigger] pixel_lit(
                rows[r],
                x,
            ),
{
    if sprite_collides(rows, sprite, offset_x, offset_y) {
        let r = choose|r: int|
            0 <= r < rows.len() && sprite_covers_row(sprite, offset_y, r) && #[trigger] (sprite_mask_at(
                sprite,
                offset_x,
                offset_y,
                r,
            ) & rows[r]) != 0;
        let m = sprite_mask_at(sprite, offset_x, offset_y, r);
        let a = rows[r];
        lemma_nonzero_has_set_bit(m & a);
        let k = choose|k: u64| k < 64 && #[trigger] (((m & a) >> k) & 1) == 1;
        assert((((m & a) >> k) & 1) == 1 ==> (m >> k) & 1 == 1 && (a >> k) & 1 == 1) by (bit_vector);
        let x = 63 - k;
        assert((63 - x) as u64 == k);
        lemma_sprite_row_mask_pixels(sprite[r - offset_y], offset_x, x);
        assert(sprite_pixel(sprite[r - offset_y], offset_x, x) && pixel_lit(rows[r], x));
    }
    if exists|r: int, x: int|
        0 <= r < DISPLAY_HEIGHT && 0 <= x < DISPLAY_WIDTH && sprite_covers_row(sprite, offset_y, r)
            && #[trigger] sprite_pixel(sprite[r - offset_y], offset_x, x) && #[trigger] pixel_lit(
            rows[r],
            x,
        ) {
        let (r, x) = choose|r: int, x: int|
            0 <= r < DISPLAY_HEIGHT && 0 <= x < DISPLAY_WIDTH && sprite_covers_row(sprite, offset_y, r)
                && #[trigger] sprite_pixel(sprite[r - offset_y], offset_x, x) && #[trigger] pixel_lit(
                rows[r],
                x,
            );
        let m = sprite_mask_at(sprite, offset_x, offset_y, r);
        lemma_sprite_row_mask_pixels(sprite[r - offset_y], offset_x, x);
        lemma_and_bit(rows[r], m, (63 - x) as u64);
        assert((m & rows[r]) != 0);
    }
}

/// Calling a subroutine and returning from it restores the program counter
/// and the stack.
pub proof fn lemma_call_then_return(c: CpuView, addr: u16)
    ensures
        c.call(addr).ret() == c,
{
    assert(c.call(addr).stack.drop_last() =~= c.stack);
}

/// Running a CALL at `c.pc` whose target holds a RET brings execution back
/// to the instruction after the CALL, with the stack as it was.
pub proof fn lemma_call_then_return_cycles(
    c: CpuView,
    mem: Seq<u8>,
    disp: Seq<u64>,
    keys: KeypadView,
    r1: u8,
    r2: u8,
)
    requires
        c.pc + 3 < MEMORY_SIZE,
        op_group(fetch(c, mem)) == 0x2,
        ({
            let target = c.with_pc(op_nnn(fetch(c, mem)));
            target.pc + 1 < MEMORY_SIZE && fetch(target, mem) == 0x00EE
        }),
    ensures
        ({
            let (c1, mem1, disp1) = cycle_result(c, mem, disp, keys, r1);
            let (c2, mem2, disp2) = cycle_result(c1, mem1, disp1, keys, r2);
            c2 == c.with_pc((c.pc + 2) as u16) && mem2 == mem && disp2 == disp
        }),
{
    let op = fetch(c, mem);
    let c0 = c.with_pc((c.pc + 2) as u16);
    let (c1, mem1, disp1) = cycle_result(c, mem, disp, keys, r1);
    assert(c1 == c0.call(op_nnn(op)));
    assert(fetch(c1, mem1) == 0x00EE);
    assert(op_group(0x00EE) == 0 && op_nnn(0x00EE) == 0x0EE);
    lemma_call_then_return(c0.with_pc(op_nnn(op)), op_nnn(op));
    assert(c1.with_pc((c1.pc + 2) as u16).ret().stack =~= c0.stack);
    assert(c1.with_pc((c1.pc + 2) as u16).ret() == c0);
}

/// Storing registers V0 to Vx and loading them back from the same place
/// restores them.
pub proof fn lemma_store_then_load_registers(c: CpuView, mem: Seq<u8>, x: int)
    requires
        0 <= x < 16,
        c.v.len() == 16,
        c.i + x < mem.len(),
    ensures
        c.load_registers(x, registers_stored(mem, c.i as int, x, c.v)) == c,
{
    assert(c.load_registers(x, registers_stored(mem, c.i as int, x, c.v)).v =~= c.v);
}

/// The three bytes stored for a value are its decimal digits: each is below
/// ten and together they make the value again.
pub proof fn lemma_bcd_digits(mem: Seq<u8>, i: int, value: u8)
    requires
        0 <= i,
        i + 2 < mem.len(),
    ensures
        ({
            let m = bcd_stored(mem, i, value);
            &&& m[i] < 10 && m[i + 1] < 10 && m[i + 2] < 10
            &&& 100 * m[i] + 10 * m[i + 1] + m[i + 2] == value
            &&& forall|a: int| 0 <= a < mem.len() && (a < i || a > i + 2) ==> m[a] == mem[a]
        }),
{
    let m = bcd_stored(mem, i, value);
    assert(m[i] == value / 100);
    assert(m[i + 1] == (value / 10) % 10);
    assert(m[i + 2] == value % 10);
    assert(100 * (value / 100) + 10 * ((value / 10) % 10) + value % 10 == value) by (nonlinear_arith);
}

/// An addition with carry loses nothing: the new Vx plus 256 times the
/// carry in VF is the sum of the old Vx and Vy (for x and y other than F).
pub proof fn lemma_add_carry_exact(c: CpuView, x: int, y: int)
    requires
        c.v.len() == 16,
        0 <= x < 15,
        0 <= y < 15,
    ensures
        ({
            let d = c.add_carry(x, y);
            d.v[x] + 256 * d.v[15] == c.v[x] + c.v[y] && d.v[15] <= 1
        }),
{
}

/// A subtraction with borrow loses nothing: the new Vx is the old Vx minus
/// Vy, plus 256 when VF reports a borrow (for x and y other than F).
pub proof fn lemma_sub_not_borrow_exact(c: CpuView, x: int, y: int)
    requires
        c.v.len() == 16,
        0 <= x < 15,
        0 <= y < 15,
    ensures
        ({
            let d = c.sub_not_borrow(x, y);
            d.v[x] == c.v[x] - c.v[y] + 256 * (1 - d.v[15]) && d.v[15] <= 1
        }),
{
}

/// Only the random opcode depends on the random byte.
pub proof fn lemma_execute_deterministic(
    c: CpuView,
    mem: Seq<u8>,
    disp: Seq<u64>,
    keys: KeypadView,
    op: u16,
    r1: u8,
    r2: u8,
)
    requires
        op_group(op) != 0xC,
    ensures
        execute(c, mem, disp, keys, op, r1) == execute(c, mem, disp, keys, op, r2),
{
}

/// The random opcode Cxkk only sets bits of Vx that are set in kk, and
/// leaves every other register alone.
pub proof fn lemma_random_masked(
    c: CpuView,
    mem: Seq<u8>,
    disp: Seq<u64>,
    keys: KeypadView,
    op: u16,
    r: u8,
)
    requires
        c.v.len() == 16,
        op_group(op) == 0xC,
    ensures
        ({
            let (c1, mem1, disp1) = execute(c, mem, disp, keys, op, r);
            let vx = c1.v[op_x(op)];
            &&& vx == r & op_kk(op)
            &&& vx & !op_kk(op) == 0
            &&& c1 == c.set_v(op_x(op), vx)
            &&& mem1 == mem
            &&& disp1 == disp
        }),
{
    let kk = op_kk(op);
    assert((r & kk) & !kk == 0) by (bit_vector);
}

/// After power-on, the index I = 5 * d set for digit d points at the sprite
/// of that digit.
pub proof fn lemma_font_at_digit(d: int, j: int)
    requires
        0 <= d < 16,
        0 <= j < 5,
    ensures
        initial_byte(5 * d + j) == font_glyph(d)[j],
{
    assert((5 * d + j) / 5 == d);
    assert((5 * d + j) % 5 == j);
}

/// Reading back a range that was just written gives the bytes written, and
/// every byte outside it is as it was.
pub proof fn lemma_write_then_read_bytes(mem: Seq<u8>, pointer: int, values: Seq<u8>)
    requires
        0 <= pointer,
        pointer + values.len() <= mem.len(),
    ensures
        bytes_written(mem, pointer, values).subrange(pointer, pointer + values.len()) == values,
        forall|a: int|
            0 <= a < mem.len() && !(pointer <= a < pointer + values.len())
                ==> #[trigger] bytes_written(mem, pointer, values)[a] == mem[a],
{
    assert(bytes_written(mem, pointer, values).subrange(pointer, pointer + values.len()) =~= values);
}

/// Loading a program leaves the digit sprites of fresh memory in place.
pub proof fn lemma_rom_keeps_font(rom: Seq<u8>, a: int)
    requires
        rom.len() <= MEMORY_SIZE - PROGRAM_START,
        0 <= a < 80,
    ensures
        bytes_written(initial_memory(), PROGRAM_START as int, rom)[a] == initial_byte(a),
{
}

/// Pressing a key that was up and releasing it again leaves the set of keys
/// held down as it was.
pub proof fn lemma_press_then_release(keys: KeypadView, k: u8)
    requires
        !keys.pressed.contains(k),
    ensures
        keys.pressed.insert(k).remove(k) == keys.pressed,
{
    assert(keys.pressed.insert(k).remove(k) =~= keys.pressed);
}

/// A dark display renders black everywhere.
pub proof fn lemma_blank_renders_black(i: int)
    requires
        0 <= i < 2048,
    ensures
        pixel_colour(blank_display()[i / 64], i % 64) == BLACK,
{
    let s = (63 - i % 64) as u64;
    assert((0u64 >> s) & 1 == 0) by (bit_vector);
}

/// Fx0A waits for a key: while no key is held down, a cycle on it leaves the
/// processor, memory and display as they were, so it runs again.
pub proof fn lemma_wait_for_key_repeats(
    c: CpuView,
    mem: Seq<u8>,
    disp: Seq<u64>,
    keys: KeypadView,
    random: u8,
)
    requires
        c.pc + 1 < MEMORY_SIZE,
        op_group(fetch(c, mem)) == 0xF,
        op_kk(fetch(c, mem)) == 0x0A,
        !any_key_down(keys),
    ensures
        cycle_result(c, mem, disp, keys, random) == (c, mem, disp),
{
}
/// The opcodes that the instruction set does not define cannot run: 8xyN
/// with N outside 0 to 7 and E, 9xyN with N other than 0, ExKK with KK other
/// than 9E and A1, and FxKK with KK other than 07, 0A, 15, 18, 1E, 29, 33,
/// 55 and 65.
pub proof fn lemma_unknown_opcodes_undefined(c: CpuView, mem: Seq<u8>, keys: KeypadView, op: u16)
    requires
        ({
            let g = op_group(op);
            let n = op_n(op);
            let kk = op_kk(op);
            ||| g == 0x8 && !(n <= 0x7 || n == 0xE)
            ||| g == 0x9 && n != 0
            ||| g == 0xE && kk != 0x9E && kk != 0xA1
            ||| g == 0xF && kk != 0x07 && kk != 0x0A && kk != 0x15 && kk != 0x18 && kk != 0x1E
                && kk != 0x29 && kk != 0x33 && kk != 0x55 && kk != 0x65
        }),
    ensures
        !opcode_defined(c, mem, keys, op),
{
}

/// Memory changes only by Fx33 and Fx55, and the display only by 00E0 and
/// Dxyn.
pub proof fn lemma_execute_frame(
    c: CpuView,
    mem: Seq<u8>,
    disp: Seq<u64>,
    keys: KeypadView,
    op: u16,
    r: u8,
)
    ensures
        ({
            let (c1, mem1, disp1) = execute(c, mem, disp, keys, op, r);
            &&& !(op_group(op) == 0xF && (op_kk(op) == 0x33 || op_kk(op) == 0x55)) ==> mem1 == mem
            &&& !((op_group(op) == 0x0 && op_nnn(op) == 0x0E0) || op_group(op) == 0xD) ==> disp1
                == disp
        }),
{
}

/// 0nnn (SYS addr) is ignored: nothing changes.
pub proof fn lemma_sys_ignored(c: CpuView, mem: Seq<u8>, disp: Seq<u64>, keys: KeypadView, op: u16, r: u8)
    requires
        op_group(op) == 0x0,
        op_nnn(op) != 0x0E0,
        op_nnn(op) != 0x0EE,
    ensures
        execute(c, mem, disp, keys, op, r) == (c, mem, disp),
        opcode_defined(c, mem, keys, op),
{
}

/// 2nnn pushes the program counter and jumps to nnn; it can run only while
/// the stack holds fewer than sixteen addresses.
pub proof fn lemma_call_pushes(c: CpuView, mem: Seq<u8>, disp: Seq<u64>, keys: KeypadView, op: u16, r: u8)
    requires
        op_group(op) == 0x2,
    ensures
        ({
            let (c1, mem1, disp1) = execute(c, mem, disp, keys, op, r);
            &&& c1.pc == op_nnn(op)
            &&& c1.stack == c.stack.push(c.pc)
            &&& c1.v == c.v && c1.i == c.i && c1.dt == c.dt && c1.st == c.st
            &&& mem1 == mem && disp1 == disp
        }),
        opcode_defined(c, mem, keys, op) <==> c.stack.len() < STACK_DEPTH,
{
}

/// 00EE pops the return address into the program counter; it can run only
/// when the stack is not empty.
pub proof fn lemma_return_pops(c: CpuView, mem: Seq<u8>, disp: Seq<u64>, keys: KeypadView, r: u8)
    ensures
        ({
            let (c1, mem1, disp1) = execute(c, mem, disp, keys, 0x00EE, r);
            &&& c1.pc == c.stack.last()
            &&& c1.stack == c.stack.drop_last()
            &&& c1.v == c.v && c1.i == c.i && c1.dt == c.dt && c1.st == c.st
            &&& mem1 == mem && disp1 == disp
        }),
        opcode_defined(c, mem, keys, 0x00EE) <==> c.stack.len() > 0,
{
    assert(op_group(0x00EE) == 0 && op_nnn(0x00EE) == 0x0EE);
}

/// Of a skip and the skip on the opposite condition from the same state,
/// exactly one skips: together they move the program counter by 2.
pub proof fn lemma_skip_complementary(c: CpuView, p: bool)
    requires
        c.pc + 2 <= u16::MAX,
    ensures
        c.skip_if(p).pc + c.skip_if(!p).pc == 2 * c.pc + 2,
        c.skip_if(p).pc == if p { c.pc + 2 } else { c.pc as int },
        c.skip_if(p).with_pc(c.pc) == c,
{
}

/// 3xkk and 4xkk with the same x and kk skip on opposite conditions, and so
/// do Ex9E and ExA1 with the same x.
pub proof fn lemma_skip_pairs(
    c: CpuView,
    mem: Seq<u8>,
    disp: Seq<u64>,
    keys: KeypadView,
    op: u16,
    r: u8,
)
    requires
        c.pc + 2 <= u16::MAX,
        op_group(op) == 0x3 || (op_group(op) == 0xE && op_kk(op) == 0x9E),
    ensures
        ({
            let twin = if op_group(op) == 0x3 { (op + 0x1000) as u16 } else { (op + 3) as u16 };
            let (c1, mem1, disp1) = execute(c, mem, disp, keys, op, r);
            let (c2, mem2, disp2) = execute(c, mem, disp, keys, twin, r);
            &&& c1.pc + c2.pc == 2 * c.pc + 2
            &&& c1.with_pc(c.pc) == c && c2.with_pc(c.pc) == c
            &&& mem1 == mem && mem2 == mem && disp1 == disp && disp2 == disp
        }),
{
    let twin = if op_group(op) == 0x3 { (op + 0x1000) as u16 } else { (op + 3) as u16 };
    assert(op_x(twin) == op_x(op));
    if op_group(op) == 0x3 {
        assert(op_group(twin) == 0x4 && op_kk(twin) == op_kk(op));
        lemma_skip_complementary(c, c.v[op_x(op)] == op_kk(op));
    } else {
        assert(op_group(twin) == 0xE && op_kk(twin) == 0xA1);
        lemma_skip_complementary(c, keys.pressed.contains(c.v[op_x(op)]));
    }
}

/// 7xkk adds without a carry: only Vx changes (for x other than F).
pub proof fn lemma_add_immediate(c: CpuView, mem: Seq<u8>, disp: Seq<u64>, keys: KeypadView, op: u16, r: u8)
    requires
        c.v.len() == 16,
        op_group(op) == 0x7,
        op_x(op) < 15,
    ensures
        ({
            let (c1, mem1, disp1) = execute(c, mem, disp, keys, op, r);
            let x = op_x(op);
            &&& c1.v[x] == (c.v[x] + op_kk(op)) % 256
            &&& forall|k: int| 0 <= k < 16 && k != x ==> c1.v[k] == c.v[k]
            &&& c1.v.len() == 16
            &&& c1.pc == c.pc && c1.i == c.i && c1.stack == c.stack && c1.dt == c.dt && c1.st == c.st
            &&& mem1 == mem && disp1 == disp
        }),
{
}

/// The arithmetic opcodes 8xy4 to 8xyE compute Vx from the old values of Vx
/// and Vy and then set VF to the carry, the no-borrow flag or the bit shifted
/// out; no other register changes (for x other than F).
pub proof fn lemma_arithmetic_flags(
    c: CpuView,
    mem: Seq<u8>,
    disp: Seq<u64>,
    keys: KeypadView,
    op: u16,
    r: u8,
)
    requires
        c.v.len() == 16,
        op_group(op) == 0x8,
        arithmetic_defined(op_n(op)),
        op_n(op) >= 0x4,
        op_x(op) < 15,
    ensures
        ({
            let (c1, mem1, disp1) = execute(c, mem, disp, keys, op, r);
            let x = op_x(op);
            let vx = c.v[x];
            let vy = c.v[op_y(op)];
            let n = op_n(op);
            &&& n == 0x4 ==> c1.v[x] == (vx + vy) % 256 && c1.v[15] == if vx + vy > 255 { 1u8 } else { 0 }
            &&& n == 0x5 ==> c1.v[x] == (vx - vy) % 256 && c1.v[15] == if vx >= vy { 1u8 } else { 0 }
            &&& n == 0x6 ==> c1.v[x] == vx / 2 && c1.v[15] == vx % 2
            &&& n == 0x7 ==> c1.v[x] == (vy - vx) % 256 && c1.v[15] == if vy >= vx { 1u8 } else { 0 }
            &&& n == 0xE ==> c1.v[x] == (vx * 2) % 256 && c1.v[15] == vx / 128
            &&& forall|k: int| 0 <= k < 15 && k != x ==> c1.v[k] == c.v[k]
            &&& c1.v.len() == 16
            &&& c1.pc == c.pc && c1.i == c.i && c1.stack == c.stack && c1.dt == c.dt && c1.st == c.st
            &&& mem1 == mem && disp1 == disp
        }),
{
}

/// Dxyn at pixel level: the display flips exactly the pixels the sprite
/// covers, VF = 1 exactly when one of them was lit, and nothing else but VF
/// changes.
pub proof fn lemma_draw_instruction(
    c: CpuView,
    mem: Seq<u8>,
    disp: Seq<u64>,
    keys: KeypadView,
    op: u16,
    r: u8,
)
    requires
        c.v.len() == 16,
        mem.len() == MEMORY_SIZE,
        disp.len() == DISPLAY_HEIGHT,
        op_group(op) == 0xD,
        opcode_defined(c, mem, keys, op),
    ensures
        ({
            let (c1, mem1, disp1) = execute(c, mem, disp, keys, op, r);
            let sprite = mem.subrange(c.i as int, c.i + op_n(op));
            let ox = c.v[op_x(op)] as usize;
            let oy = c.v[op_y(op)] as usize;
            &&& forall|row: int, x: int|
                0 <= row < DISPLAY_HEIGHT && 0 <= x < DISPLAY_WIDTH ==> #[trigger] pixel_lit(disp1[row], x)
                    == (pixel_lit(disp[row], x) != (sprite_covers_row(sprite, oy, row) && sprite_pixel(
                    sprite[row - oy],
                    ox,
                    x,
                )))
            &&& (c1.v[15] == 1) == exists|row: int, x: int|
                0 <= row < DISPLAY_HEIGHT && 0 <= x < DISPLAY_WIDTH && sprite_covers_row(sprite, oy, row)
                    && #[trigger] sprite_pixel(sprite[row - oy], ox, x) && #[trigger] pixel_lit(
                    disp[row],
                    x,
                )
            &&& c1.v[15] <= 1
            &&& c1 == c.set_v(15, c1.v[15])
            &&& mem1 == mem
        }),
{
    let sprite = mem.subrange(c.i as int, c.i + op_n(op));
    let ox = c.v[op_x(op)] as usize;
    let oy = c.v[op_y(op)] as usize;
    assert forall|row: int, x: int| 0 <= row < DISPLAY_HEIGHT && 0 <= x < DISPLAY_WIDTH implies #[trigger] pixel_lit(
        drawn_rows(disp, sprite, ox, oy)[row],
        x,
    ) == (pixel_lit(disp[row], x) != (sprite_covers_row(sprite, oy, row) && sprite_pixel(
        sprite[row - oy],
        ox,
        x,
    ))) by {
        lemma_drawn_pixels(disp, sprite, ox, oy, row, x);
    }
    lemma_collision_pixels(disp, sprite, ox, oy);
}
/// The keypad after `release_key` is called on each key of `keys` in turn:
/// each call removes its key from the set held down and keeps the last key
/// pressed.
pub open spec fn after_releases(keypad: KeypadView, keys: Seq<u8>) -> KeypadView
    decreases keys.len(),
{
    if keys.len() == 0 {
        keypad
    } else {
        KeypadView {
            pressed: after_releases(keypad, keys.drop_last()).pressed.remove(keys.last()),
            ..after_releases(keypad, keys.drop_last())
        }
    }
}

/// After `press_key(k)`, any sequence of releases leaves `k` as the last key
/// pressed, and the keys held down are those held before, and `k`, less the
/// keys released.
pub proof fn lemma_last_key_survives_releases(keypad: KeypadView, k: u8, keys: Seq<u8>)
    ensures
        ({
            let pressed = KeypadView { pressed: keypad.pressed.insert(k), last: Some(k) };
            let after = after_releases(pressed, keys);
            &&& after.last == Some(k)
            &&& forall|key: u8|
                #[trigger] after.pressed.contains(key) <==> ((keypad.pressed.contains(key) || key
                    == k) && !keys.contains(key))
        }),
    decreases keys.len(),
{
    let pressed = KeypadView { pressed: keypad.pressed.insert(k), last: Some(k) };
    if keys.len() > 0 {
        lemma_last_key_survives_releases(keypad, k, keys.drop_last());
        let after = after_releases(pressed, keys);
        assert forall|key: u8|
            #[trigger] after.pressed.contains(key) <==> ((keypad.pressed.contains(key) || key == k)
                && !keys.contains(key)) by {
            if keys.contains(key) {
                let j = choose|j: int| 0 <= j < keys.len() && keys[j] == key;
                if j < keys.len() - 1 {
                    assert(keys.drop_last()[j] == key);
                }
            }
            if keys.drop_last().contains(key) {
                let j = choose|j: int| 0 <= j < keys.drop_last().len() && keys.drop_last()[j] == key;
                assert(keys[j] == key);
            }
            if key == keys.last() {
                assert(keys[keys.len() - 1] == key);
            }
        }
    }
}
/// Fx15 (load the delay timer from Vx) followed by Fy07 (load Vy from the
/// delay timer) copies Vx into Vy; Fy07 changes no other register and
/// neither timer.
pub proof fn lemma_delay_timer_round_trip(
    c: CpuView,
    mem: Seq<u8>,
    disp: Seq<u64>,
    keys: KeypadView,
    x: u16,
    y: u16,
    r1: u8,
    r2: u8,
)
    requires
        c.v.len() == 16,
        x < 16,
        y < 16,
    ensures
        ({
            let (c1, mem1, disp1) = execute(c, mem, disp, keys, (0xF015 + x * 0x100) as u16, r1);
            let (c2, mem2, disp2) = execute(c1, mem1, disp1, keys, (0xF007 + y * 0x100) as u16, r2);
            &&& c1.dt == c.v[x as int]
            &&& c2.v[y as int] == c.v[x as int]
            &&& c2 == c1.set_v(y as int, c1.dt)
            &&& mem2 == mem && disp2 == disp
        }),
{
    let op1 = (0xF015 + x * 0x100) as u16;
    let op2 = (0xF007 + y * 0x100) as u16;
    assert(op_group(op1) == 0xF && op_kk(op1) == 0x15 && op_x(op1) == x);
    assert(op_group(op2) == 0xF && op_kk(op2) == 0x07 && op_x(op2) == y);
}

/// Fx0A waits for a key: with no key down the program counter steps back
/// onto the instruction and nothing else changes; with a key down Vx takes
/// the key pressed last and nothing else changes.
pub proof fn lemma_wait_for_key(c: CpuView, mem: Seq<u8>, disp: Seq<u64>, keys: KeypadView, op: u16, r: u8)
    requires
        op_group(op) == 0xF,
        op_kk(op) == 0x0A,
        c.pc >= 2,
    ensures
        ({
            let (c1, mem1, disp1) = execute(c, mem, disp, keys, op, r);
            &&& !any_key_down(keys) ==> c1 == c.with_pc((c.pc - 2) as u16)
            &&& any_key_down(keys) ==> c1 == c.set_v(op_x(op), keys.last->0)
            &&& mem1 == mem && disp1 == disp
        }),
        opcode_defined(c, mem, keys, op),
{
}

/// Fx29 points I at the built-in sprite of digit Vx, which fresh memory
/// holds there; it cannot run with Vx above 0xF.
pub proof fn lemma_font_instruction(c: CpuView, disp: Seq<u64>, keys: KeypadView, op: u16, r: u8)
    requires
        c.v.len() == 16,
        op_group(op) == 0xF,
        op_kk(op) == 0x29,
    ensures
        opcode_defined(c, initial_memory(), keys, op) <==> c.v[op_x(op)] <= 0xF,
        c.v[op_x(op)] <= 0xF ==> ({
            let (c1, mem1, disp1) = execute(c, initial_memory(), disp, keys, op, r);
            &&& c1 == c.with_i((5 * c.v[op_x(op)]) as u16)
            &&& mem1.subrange(c1.i as int, c1.i + 5) == font_glyph(c.v[op_x(op)] as int)
            &&& mem1 == initial_memory() && disp1 == disp
        }),
{
    let d = c.v[op_x(op)] as int;
    if d <= 0xF {
        let (c1, mem1, disp1) = execute(c, initial_memory(), disp, keys, op, r);
        assert(c1.i == 5 * d);
        assert forall|j: int| 0 <= j < 5 implies mem1.subrange(c1.i as int, c1.i + 5)[j] == font_glyph(
            d,
        )[j] by {
            lemma_font_at_digit(d, j);
        }
        assert(mem1.subrange(c1.i as int, c1.i + 5) =~= font_glyph(d));
    }
}

/// Fx33 stores the decimal digits of Vx at I, I + 1 and I + 2: each below
/// ten, the first at most 2, together making Vx; the rest of memory and the
/// processor are unchanged.
pub proof fn lemma_bcd_instruction(c: CpuView, mem: Seq<u8>, disp: Seq<u64>, keys: KeypadView, op: u16, r: u8)
    requires
        c.v.len() == 16,
        op_group(op) == 0xF,
        op_kk(op) == 0x33,
        c.i + 2 < mem.len(),
    ensures
        ({
            let (c1, mem1, disp1) = execute(c, mem, disp, keys, op, r);
            let i = c.i as int;
            &&& mem1[i] <= 2 && mem1[i + 1] <= 9 && mem1[i + 2] <= 9
            &&& 100 * mem1[i] + 10 * mem1[i + 1] + mem1[i + 2] == c.v[op_x(op)]
            &&& forall|a: int| 0 <= a < mem.len() && (a < i || a > i + 2) ==> mem1[a] == mem[a]
            &&& mem1.len() == mem.len()
            &&& c1 == c && disp1 == disp
        }),
{
    lemma_bcd_digits(mem, c.i as int, c.v[op_x(op)]);
}
/// The five bytes of fresh memory at 5 * d.
pub open spec fn fresh_digit_sprite(d: int) -> Seq<u8> {
    initial_memory().subrange(5 * d, 5 * d + 5)
}

/// Fresh memory starts with the sixteen hexadecimal digit sprites, five
/// bytes each, digit d at 5 * d, in the standard CHIP-8 font; distinct digits
/// have distinct sprites.
pub proof fn lemma_font_table()
    ensures
        initial_memory().subrange(0, 80) == seq![
            0xF0u8, 0x90, 0x90, 0x90, 0xF0, // 0
            0x20, 0x60, 0x20, 0x20, 0x70, // 1
            0xF0, 0x10, 0xF0, 0x80, 0xF0, // 2
            0xF0, 0x10, 0xF0, 0x10, 0xF0, // 3
            0x90, 0x90, 0xF0, 0x10, 0x10, // 4
            0xF0, 0x80, 0xF0, 0x10, 0xF0, // 5
            0xF0, 0x80, 0xF0, 0x90, 0xF0, // 6
            0xF0, 0x10, 0x20, 0x40, 0x40, // 7
            0xF0, 0x90, 0xF0, 0x90, 0xF0, // 8
            0xF0, 0x90, 0xF0, 0x10, 0xF0, // 9
            0xF0, 0x90, 0xF0, 0x90, 0x90, // A
            0xE0, 0x90, 0xE0, 0x90, 0xE0, // B
            0xF0, 0x80, 0x80, 0x80, 0xF0, // C
            0xE0, 0x90, 0x90, 0x90, 0xE0, // D
            0xF0, 0x80, 0xF0, 0x80, 0xF0, // E
            0xF0, 0x80, 0xF0, 0x80, 0x80, // F
        ],
        forall|a: int| 80 <= a < MEMORY_SIZE ==> #[trigger] initial_memory()[a] == 0,
        initial_memory().len() == MEMORY_SIZE,
        forall|d1: int, d2: int|
            0 <= d1 < 16 && 0 <= d2 < 16 && d1 != d2 ==> #[trigger] fresh_digit_sprite(d1)
                != #[trigger] fresh_digit_sprite(d2),
{
    let table = seq![
        0xF0u8, 0x90, 0x90, 0x90, 0xF0, 0x20, 0x60, 0x20, 0x20, 0x70, 0xF0, 0x10, 0xF0, 0x80, 0xF0,
        0xF0, 0x10, 0xF0, 0x10, 0xF0, 0x90, 0x90, 0xF0, 0x10, 0x10, 0xF0, 0x80, 0xF0, 0x10, 0xF0,
        0xF0, 0x80, 0xF0, 0x90, 0xF0, 0xF0, 0x10, 0x20, 0x40, 0x40, 0xF0, 0x90, 0xF0, 0x90, 0xF0,
        0xF0, 0x90, 0xF0, 0x10, 0xF0, 0xF0, 0x90, 0xF0, 0x90, 0x90, 0xE0, 0x90, 0xE0, 0x90, 0xE0,
        0xF0, 0x80, 0x80, 0x80, 0xF0, 0xE0, 0x90, 0x90, 0x90, 0xE0, 0xF0, 0x80, 0xF0, 0x80, 0xF0,
        0xF0, 0x80, 0xF0, 0x80, 0x80,
    ];
    let m = initial_memory();
    assert forall|a: int| 0 <= a < 80 implies m[a] == table[a] by {
        let d = a / 5;
        let j = a % 5;
        assert(a == 5 * d + j);
        lemma_font_at_digit(d, j);
    }
    assert(m.subrange(0, 80) =~= table);
    assert forall|d1: int, d2: int|
        0 <= d1 < 16 && 0 <= d2 < 16 && d1 != d2 implies #[trigger] fresh_digit_sprite(d1)
        != #[trigger] fresh_digit_sprite(d2) by {
        let s1 = m.subrange(5 * d1, 5 * d1 + 5);
        let s2 = m.subrange(5 * d2, 5 * d2 + 5);
        assert forall|j: int| 0 <= j < 5 implies s1[j] == table[5 * d1 + j] && s2[j] == table[5 * d2
            + j] by {}
        assert(s1[0] != s2[0] || s1[1] != s2[1] || s1[2] != s2[2] || s1[3] != s2[3] || s1[4]
            != s2[4]);
    }
}
/// At power-on the processor has every register, I and both timers at
/// zero, an empty stack, and the program counter at 0x200.
pub proof fn lemma_power_on()
    ensures
        CpuView::initial().pc == 0x200,
        CpuView::initial().i == 0,
        CpuView::initial().dt == 0 && CpuView::initial().st == 0,
        CpuView::initial().stack.len() == 0,
        CpuView::initial().v.len() == 16,
        forall|j: int| 0 <= j < 16 ==> #[trigger] CpuView::initial().v[j] == 0,
{
}

/// A tick of the timers takes one off each timer that is above zero and
/// leaves a timer at zero there; nothing else changes.
pub proof fn lemma_timers_tick(c: CpuView)
    ensures
        ({
            let t = c.timers_decremented();
            &&& c.dt > 0 ==> t.dt + 1 == c.dt
            &&& c.dt == 0 ==> t.dt == 0
            &&& c.st > 0 ==> t.st + 1 == c.st
            &&& c.st == 0 ==> t.st == 0
            &&& t.v == c.v && t.i == c.i && t.pc == c.pc && t.stack == c.stack
        }),
{
}

/// A single-pixel sprite (the byte 0x80) drawn at column x < 64 and row
/// y < 32 of a dark display lights exactly that pixel, which renders white
/// while every other pixel renders black, and reports no collision.
pub proof fn lemma_single_pixel(x: usize, y: usize, row: int, col: int)
    requires
        x < DISPLAY_WIDTH,
        y < DISPLAY_HEIGHT,
        0 <= row < DISPLAY_HEIGHT,
        0 <= col < DISPLAY_WIDTH,
    ensures
        pixel_colour(drawn_rows(blank_display(), seq![0x80u8], x, y)[row], col) == if row == y && col
            == x {
            0xFFFFFFu32
        } else {
            0u32
        },
        !sprite_collides(blank_display(), seq![0x80u8], x, y),
{
    let sprite = seq![0x80u8];
    lemma_drawn_pixels(blank_display(), sprite, x, y, row, col);
    lemma_draw_on_blank_no_collision(sprite, x, y);
    let k = (63 - col) as u64;
    assert((0u64 >> k) & 1 == 0) by (bit_vector);
    if sprite_covers_row(sprite, y, row) {
        assert(row == y);
        assert(sprite_left(x) == x);
        let j = col - x;
        if 0 <= j < 8 {
            let s = (7 - j) as u64;
            assert(s < 8 ==> ((128u64 >> s) & 1 == 1 <==> s == 7)) by (bit_vector);
            assert((0x80u8 as u64) == 128u64);
        }
    }
}
} // verus!
