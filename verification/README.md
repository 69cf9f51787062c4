# chip8

A CHIP-8 virtual machine whose behaviour is stated in contracts and proved.

- `src/emulator/memory.rs`: the 4 KiB address space, with the digit sprites
  loaded at power-on.
- `src/emulator/display.rs`: the 64 x 32 monochrome screen; sprites are drawn
  by XOR and rendered to a frame of colours.
- `src/emulator/keypad.rs`: the sixteen-key hexadecimal keypad.
- `src/emulator/semantics.rs`: the mathematical model of the processor and of
  every instruction: what one cycle does and when it can run.
- `src/emulator/cpu.rs`: the processor, each instruction proved against the
  model.
- `src/emulator/laws.rs`: properties that span several operations.
- `src/emulator/mod.rs`: the whole machine.
- `src/keyboard.rs`: the layout of the keypad on a QWERTY keyboard.
- `app/`: the program around the library: window, ROM file and key input.
