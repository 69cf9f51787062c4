pub mod cpu;
pub mod display;
pub mod instruction_laws;
pub mod keypad;
pub mod laws;
pub mod memory;
pub mod semantics;

pub use cpu::Cpu;
pub use display::Display;
pub use keypad::Keypad;
pub use memory::Memory;

use vstd::prelude::*;

use display::{pixel_colour, DISPLAY_HEIGHT};
use keypad::KeypadView;
use memory::{bytes_written, initial_memory, MEMORY_SIZE};
use semantics::{
    blank_display, cycle_defined, cycle_result, cycles_to, CpuView, PROGRAM_START, STACK_DEPTH,
};

verus! {

/// The whole machine: processor, memory, display and keypad.
pub ghost struct EmulatorView {
    pub cpu: CpuView,
    pub memory: Seq<u8>,
    pub display: Seq<u64>,
    pub keypad: KeypadView,
}

/// The largest program that fits between the program start and the end of
/// memory.
pub const MAX_ROM_SIZE: usize = 0xE00;

/// The number of cycles the processor runs in one frame, between two ticks
/// of the timers.
pub const CYCLES_PER_FRAME: usize = 10;

/// The machine after one cycle in which the random opcode, if it runs,
/// draws `random`.
pub open spec fn cycle_step(e: EmulatorView, random: u8) -> EmulatorView {
    let (cpu, memory, display) = cycle_result(e.cpu, e.memory, e.display, e.keypad, random);
    EmulatorView { cpu, memory, display, keypad: e.keypad }
}

/// The machine after one cycle for each byte of `randoms`, in order.
pub open spec fn run_cycles(e: EmulatorView, randoms: Seq<u8>) -> EmulatorView
    decreases randoms.len(),
{
    if randoms.len() == 0 {
        e
    } else {
        cycle_step(run_cycles(e, randoms.drop_last()), randoms.last())
    }
}

/// Whether each of the cycles of `run_cycles(e, randoms)` can run.
pub open spec fn cycles_run(e: EmulatorView, randoms: Seq<u8>) -> bool
    decreases randoms.len(),
{
    randoms.len() == 0 || {
        &&& cycles_run(e, randoms.drop_last())
        &&& cycle_defined(
            run_cycles(e, randoms.drop_last()).cpu,
            run_cycles(e, randoms.drop_last()).memory,
            run_cycles(e, randoms.drop_last()).keypad,
        )
    }
}

/// The machine with both timers counted down by one, stopping at zero.
pub open spec fn timers_ticked(e: EmulatorView) -> EmulatorView {
    EmulatorView { cpu: e.cpu.timers_decremented(), ..e }
}

/// A CHIP-8 machine.
pub struct Emulator {
    cpu: Cpu,
    memory: Memory,
    display: Display,
    keypad: Keypad,
}

impl Emulator {
    pub closed spec fn view(&self) -> EmulatorView {
        EmulatorView {
            cpu: self.cpu@,
            memory: self.memory@,
            display: self.display@,
            keypad: self.keypad@,
        }
    }

    /// The machine's invariant: that of its processor and of its keypad.
    pub closed spec fn wf(&self) -> bool {
        self.cpu.wf() && self.keypad.wf()
    }

    /// The machine has 16 registers, 4 KiB of memory and 32 display rows.
    pub proof fn lemma_lengths(&self)
        ensures
            self@.cpu.v.len() == 16,
            self@.memory.len() == MEMORY_SIZE,
            self@.display.len() == DISPLAY_HEIGHT,
    {
        self.cpu.lemma_v_len();
        self.display.lemma_len();
    }

    /// What the machine's invariant says of its state: the call stack holds
    /// at most sixteen return addresses, and the keypad's invariant holds.
    pub proof fn lemma_wf(&self)
        requires
            self.wf(),
        ensures
            self@.cpu.stack.len() <= STACK_DEPTH,
            self@.keypad.last matches Some(k) ==> k < 16,
            (exists|k: u8| self@.keypad.pressed.contains(k)) ==> self@.keypad.last is Some,
            forall|k: u8| self@.keypad.pressed.contains(k) ==> k < 16,
    {
        self.cpu.lemma_wf();
    }

    /// A machine at power-on: the processor at the program start, the digit
    /// sprites at the start of memory, a dark display and no key pressed.
    pub fn new() -> (r: Self)
        ensures
            r.wf(),
            r@.cpu == CpuView::initial(),
            r@.memory == initial_memory(),
            r@.display == blank_display(),
            r@.keypad.pressed == Set::<u8>::empty(),
            r@.keypad.last is None,
    {
        Self { cpu: Cpu::new(), memory: Memory::new(), display: Display::new(), keypad: Keypad::new() }
    }

    /// Copies the program `data` into memory at the program start.
    pub fn load_rom(&mut self, data: &[u8])
        requires
            data@.len() <= MAX_ROM_SIZE,
        ensures
            final(self).wf() == old(self).wf(),
            final(self)@.memory == bytes_written(old(self)@.memory, PROGRAM_START as int, data@),
            final(self)@.cpu == old(self)@.cpu,
            final(self)@.display == old(self)@.display,
            final(self)@.keypad == old(self)@.keypad,
    {
        self.memory.write_bytes(0x200, data);
    }

    /// Runs one processor cycle.
    pub fn cycle(&mut self)
        requires
            old(self).wf(),
            cycle_defined(old(self)@.cpu, old(self)@.memory, old(self)@.keypad),
        ensures
            final(self).wf(),
            final(self)@.keypad == old(self)@.keypad,
            cycles_to(
                old(self)@.cpu,
                old(self)@.memory,
                old(self)@.display,
                old(self)@.keypad,
                final(self)@.cpu,
                final(self)@.memory,
                final(self)@.display,
            ),
    {
        self.cpu.cycle(&mut self.memory, &mut self.display, &self.keypad);
    }

    /// Whether `cycle` can run on this state.
    pub fn can_cycle(&self) -> (r: bool)
        requires
            self.wf(),
        ensures
            r == cycle_defined(self@.cpu, self@.memory, self@.keypad),
    {
        self.cpu.can_cycle(&self.memory, &self.keypad)
    }

    /// Runs one frame: `CYCLES_PER_FRAME` cycles, then one tick of the
    /// timers. Returns `false`, without the tick, as soon as a cycle cannot
    /// run; the cycles before it have run.
    pub fn run_frame(&mut self) -> (r: bool)
        requires
            old(self).wf(),
        ensures
            final(self).wf(),
            r ==> exists|randoms: Seq<u8>|
                randoms.len() == CYCLES_PER_FRAME && #[trigger] cycles_run(old(self)@, randoms)
                    && final(self)@ == timers_ticked(run_cycles(old(self)@, randoms)),
            !r ==> exists|randoms: Seq<u8>|
                randoms.len() < CYCLES_PER_FRAME && #[trigger] cycles_run(old(self)@, randoms)
                    && final(self)@ == run_cycles(old(self)@, randoms) && !cycle_defined(
                    final(self)@.cpu,
                    final(self)@.memory,
                    final(self)@.keypad,
                ),
    {
        let ghost start = self@;
        let ghost mut randoms: Seq<u8> = Seq::empty();
        let mut n: usize = 0;
        while n < CYCLES_PER_FRAME
            invariant
                n <= CYCLES_PER_FRAME,
                randoms.len() == n,
                self.wf(),
                start == old(self)@,
                cycles_run(start, randoms),
                self@ == run_cycles(start, randoms),
            decreases CYCLES_PER_FRAME - n,
        {
            if !self.can_cycle() {
                assert(cycles_run(start, randoms));
                return false;
            }
            let ghost before = self@;
            self.cycle();
            proof {
                let r = choose|r: u8|
                    #[trigger] cycle_result(before.cpu, before.memory, before.display, before.keypad, r)
                        == (self@.cpu, self@.memory, self@.display);
                let next = randoms.push(r);
                assert(next.drop_last() =~= randoms);
                assert(self@ == cycle_step(before, r));
                randoms = next;
            }
            n += 1;
        }
        self.decrement_timers();
        assert(cycles_run(start, randoms));
        true
    }

    /// Counts both timers down by one, stopping at zero.
    pub fn decrement_timers(&mut self)
        ensures
            final(self).wf() == old(self).wf(),
            final(self)@ == (EmulatorView { cpu: old(self)@.cpu.timers_decremented(), ..old(self)@ }),
    {
        self.cpu.decrement_timers();
    }

    /// Marks `key` as held down and as the key pressed last.
    pub fn press_key(&mut self, key: u8)
        requires
            old(self).wf(),
            key < 16,
        ensures
            final(self).wf(),
            final(self)@.keypad.pressed == old(self)@.keypad.pressed.insert(key),
            final(self)@.keypad.last == Some(key),
            final(self)@.cpu == old(self)@.cpu,
            final(self)@.memory == old(self)@.memory,
            final(self)@.display == old(self)@.display,
    {
        self.keypad.press_key(key);
    }

    /// Marks `key` as released.
    pub fn release_key(&mut self, key: u8)
        requires
            old(self).wf(),
            key < 16,
        ensures
            final(self).wf(),
            final(self)@.keypad.pressed == old(self)@.keypad.pressed.remove(key),
            final(self)@.keypad.last == old(self)@.keypad.last,
            final(self)@.cpu == old(self)@.cpu,
            final(self)@.memory == old(self)@.memory,
            final(self)@.display == old(self)@.display,
    {
        self.keypad.release_key(key);
    }

    /// The current frame as 64 x 32 colours, row by row from the top left.
    pub fn render(&self) -> (r: [u32; 2048])
        ensures
            forall|i: int|
                0 <= i < 2048 ==> #[trigger] r@[i] == pixel_colour(self@.display[i / 64], i % 64),
    {
        self.display.render()
    }
}

} // verus!
