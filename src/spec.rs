use vstd::prelude::*;
use crate::screen::{collides, drawn};

verus! {

/// Address where programs are loaded and execution starts.
pub const START_ADDRESS: usize = 0x200;

/// Address of the built-in hexadecimal digit glyphs.
pub const FONTSET_START_ADDRESS: usize = 0x50;

/// Largest program that fits in memory after the start address.
pub const MAX_ROM_SIZE: usize = 3584;

/// Glyphs of the digits 0 to F, five bytes each.
pub const FONTSET: [u8; 80] = [
    0xF0, 0x90, 0x90, 0x90, 0xF0, 0x20, 0x60, 0x20, 0x20, 0x70,
    0xF0, 0x10, 0xF0, 0x80, 0xF0, 0xF0, 0x10, 0xF0, 0x10, 0xF0,
    0x90, 0x90, 0xF0, 0x10, 0x10, 0xF0, 0x80, 0xF0, 0x10, 0xF0,
    0xF0, 0x80, 0xF0, 0x90, 0xF0, 0xF0, 0x10, 0x20, 0x40, 0x40,
    0xF0, 0x90, 0xF0, 0x90, 0xF0, 0xF0, 0x90, 0xF0, 0x10, 0xF0,
    0xF0, 0x90, 0xF0, 0x90, 0x90, 0xE0, 0x90, 0xE0, 0x90, 0xE0,
    0xF0, 0x80, 0x80, 0x80, 0xF0, 0xE0, 0x90, 0x90, 0x90, 0xE0,
    0xF0, 0x80, 0xF0, 0x80, 0xF0, 0xF0, 0x80, 0xF0, 0x80, 0x80,
];

/// Why an instruction or a load could not be carried out.
#[derive(Debug, Clone, Copy, PartialEq, Eq, Structural)]
pub enum Chip8Error {
    /// The instruction word matches no known instruction.
    UnimplementedOpcode(u16),
    /// A call was made with all sixteen stack entries in use.
    StackOverflow,
    /// A return was made with no call to return from.
    StackUnderflow,
    /// An instruction reached past the end of memory from this base address.
    AddressOutOfRange(u16),
    /// A register used as a key index held a value above 0xF.
    InvalidKey(u8),
    /// A program of this many bytes does not fit in memory.
    RomTooLarge(usize),
}

/// The whole machine as mathematical values.
#[verifier::ext_equal]
pub struct MachineView {
    pub registers: Seq<u8>,
    pub memory: Seq<u8>,
    pub index: u16,
    pub pc: u16,
    pub stack: Seq<u16>,
    pub stack_ptr: u8,
    pub delay_timer: u8,
    pub sound_timer: u8,
    pub keypad: Seq<bool>,
    pub pixels: Seq<bool>,
    pub show_grid: bool,
    pub opcode: u16,
    pub cycle_advance: bool,
    pub block_cycle: bool,
    pub shift_quirk: bool,
}

/// The sizes that the machine's arrays fix.
pub open spec fn well_formed(s: MachineView) -> bool {
    &&& s.registers.len() == 16
    &&& s.memory.len() == 4096
    &&& s.stack.len() == 16
    &&& s.keypad.len() == 16
    &&& s.pixels.len() == 2048
}

/// Memory at power-on: the glyphs at their address, zero elsewhere.
pub open spec fn initial_memory() -> Seq<u8> {
    Seq::new(
        4096,
        |a: int|
            if 0x50 <= a < 0xA0 {
                FONTSET@[a - 0x50]
            } else {
                0u8
            },
    )
}

/// The power-on state: glyphs loaded, PC at the start address, everything else zero or off,
/// and cycles running freely.
pub open spec fn power_on() -> MachineView {
    MachineView {
        registers: Seq::new(16, |i: int| 0u8),
        memory: initial_memory(),
        index: 0,
        pc: 0x200,
        stack: Seq::new(16, |i: int| 0u16),
        stack_ptr: 0,
        delay_timer: 0,
        sound_timer: 0,
        keypad: Seq::new(16, |i: int| false),
        pixels: Seq::new(2048, |p: int| false),
        show_grid: false,
        opcode: 0,
        cycle_advance: false,
        block_cycle: true,
        shift_quirk: false,
    }
}

/// Top nibble of an instruction word.
pub open spec fn op_kind(op: u16) -> int {
    op as int / 0x1000
}

/// Second nibble: the register X.
pub open spec fn op_x(op: u16) -> int {
    (op as int / 0x100) % 16
}

/// Third nibble: the register Y.
pub open spec fn op_y(op: u16) -> int {
    (op as int / 0x10) % 16
}

/// Lowest nibble.
pub open spec fn op_n(op: u16) -> int {
    op as int % 16
}

/// Low byte.
pub open spec fn op_nn(op: u16) -> u8 {
    (op as int % 0x100) as u8
}

/// Low twelve bits: an address.
pub open spec fn op_nnn(op: u16) -> u16 {
    (op as int % 0x1000) as u16
}

/// `pc` moved forward by one instruction, modulo 2^16.
pub open spec fn pc_next(pc: u16) -> u16 {
    ((pc + 2) % 0x10000) as u16
}

/// `pc` moved back by one instruction, modulo 2^16.
pub open spec fn pc_prev(pc: u16) -> u16 {
    ((pc - 2) % 0x10000) as u16
}

/// A step that succeeded with state `s`.
pub open spec fn done(s: MachineView) -> (MachineView, Result<(), Chip8Error>) {
    (s, Ok(()))
}

/// A step that failed with `e`, leaving `s` as it was.
pub open spec fn failed(s: MachineView, e: Chip8Error) -> (MachineView, Result<(), Chip8Error>) {
    (s, Err(e))
}

/// VX set to `v`.
pub open spec fn with_reg(s: MachineView, x: int, v: u8) -> MachineView {
    MachineView { registers: s.registers.update(x, v), ..s }
}

/// VX set to `v`, then VF set to `f`: the flag wins when X is F.
pub open spec fn with_reg_flag(s: MachineView, x: int, v: u8, f: u8) -> MachineView {
    MachineView { registers: s.registers.update(x, v).update(15, f), ..s }
}

/// Skips the next instruction when `c` holds.
pub open spec fn skip_if(s: MachineView, c: bool) -> MachineView {
    if c {
        MachineView { pc: pc_next(s.pc), ..s }
    } else {
        s
    }
}

/// The lowest pressed key at index `i` or above.
pub open spec fn first_pressed(keys: Seq<bool>, i: int) -> Option<u8>
    decreases 16 - i,
{
    if i >= 16 || i < 0 {
        None
    } else if keys[i] {
        Some(i as u8)
    } else {
        first_pressed(keys, i + 1)
    }
}

/// Effect of the instructions with top nibble 0 to 5, 9 and B: jumps, calls and skips.
pub open spec fn flow_step(s: MachineView) -> (MachineView, Result<(), Chip8Error>) {
    let op = s.opcode;
    let kind = op_kind(op);
    let vx = s.registers[op_x(op)];
    let vy = s.registers[op_y(op)];
    if op == 0x00E0 {
        done(MachineView { pixels: Seq::new(2048, |p: int| false), ..s })
    } else if op == 0x00EE {
        if s.stack_ptr == 0 {
            failed(s, Chip8Error::StackUnderflow)
        } else if s.stack_ptr > 16 {
            failed(s, Chip8Error::StackOverflow)
        } else {
            done(
                MachineView {
                    stack_ptr: (s.stack_ptr - 1) as u8,
                    pc: s.stack[s.stack_ptr - 1],
                    ..s
                },
            )
        }
    } else if kind == 1 {
        done(MachineView { pc: op_nnn(op), ..s })
    } else if kind == 2 {
        if s.stack_ptr >= 16 {
            failed(s, Chip8Error::StackOverflow)
        } else {
            done(
                MachineView {
                    stack: s.stack.update(s.stack_ptr as int, s.pc),
                    stack_ptr: (s.stack_ptr + 1) as u8,
                    pc: op_nnn(op),
                    ..s
                },
            )
        }
    } else if kind == 3 {
        done(skip_if(s, vx == op_nn(op)))
    } else if kind == 4 {
        done(skip_if(s, vx != op_nn(op)))
    } else if kind == 5 && op_n(op) == 0 {
        done(skip_if(s, vx == vy))
    } else if kind == 9 && op_n(op) == 0 {
        done(skip_if(s, vx != vy))
    } else if kind == 0xB {
        done(MachineView { pc: (s.registers[0] + op_nnn(op)) as u16, ..s })
    } else {
        failed(s, Chip8Error::UnimplementedOpcode(op))
    }
}

/// The value that a register instruction (top nibble 6, 7 or 8) writes to VX, and the
/// value it then writes to VF if it sets the flag; `None` for an unknown instruction.
pub open spec fn alu_values(op: u16, vx: u8, vy: u8, quirk: bool) -> Option<(u8, Option<u8>)> {
    let kind = op_kind(op);
    let n = op_n(op);
    let src = if quirk {
        vy
    } else {
        vx
    };
    if kind == 6 {
        Some((op_nn(op), None))
    } else if kind == 7 {
        Some((((vx + op_nn(op)) % 256) as u8, None))
    } else if kind != 8 {
        None
    } else if n == 0 {
        Some((vy, None))
    } else if n == 1 {
        Some((vx | vy, None))
    } else if n == 2 {
        Some((vx & vy, None))
    } else if n == 3 {
        Some((vx ^ vy, None))
    } else if n == 4 {
        Some((((vx + vy) % 256) as u8, Some(if vx + vy > 255 { 1u8 } else { 0u8 })))
    } else if n == 5 {
        Some((((vx - vy) % 256) as u8, Some(if vx >= vy { 1u8 } else { 0u8 })))
    } else if n == 6 {
        Some(((src / 2) as u8, Some((src % 2) as u8)))
    } else if n == 7 {
        Some((((vy - vx) % 256) as u8, Some(if vy >= vx { 1u8 } else { 0u8 })))
    } else if n == 0xE {
        Some((((src * 2) % 256) as u8, Some((src / 128) as u8)))
    } else {
        None
    }
}

/// Effect of the register instructions, top nibble 6, 7 and 8.
pub open spec fn alu_step(s: MachineView) -> (MachineView, Result<(), Chip8Error>) {
    let op = s.opcode;
    let x = op_x(op);
    match alu_values(op, s.registers[x], s.registers[op_y(op)], s.shift_quirk) {
        Some((v, None)) => done(with_reg(s, x, v)),
        Some((v, Some(f))) => done(with_reg_flag(s, x, v, f)),
        None => failed(s, Chip8Error::UnimplementedOpcode(op)),
    }
}

/// Effect of the instructions with top nibble A, C, D and E: index, random, draw and keys.
pub open spec fn device_step(s: MachineView, rnd: u8) -> (MachineView, Result<(), Chip8Error>) {
    let op = s.opcode;
    let kind = op_kind(op);
    let x = op_x(op);
    let vx = s.registers[x];
    let vy = s.registers[op_y(op)];
    let i = s.index as int;
    if kind == 0xA {
        done(MachineView { index: op_nnn(op), ..s })
    } else if kind == 0xC {
        done(with_reg(s, x, rnd & op_nn(op)))
    } else if kind == 0xD {
        let n = op_n(op);
        if i + n > 4096 {
            failed(s, Chip8Error::AddressOutOfRange(s.index))
        } else {
            let sprite = s.memory.subrange(i, i + n);
            done(
                MachineView {
                    pixels: drawn(s.pixels, sprite, vx as int, vy as int),
                    registers: s.registers.update(
                        15,
                        if collides(s.pixels, sprite, vx as int, vy as int) {
                            1u8
                        } else {
                            0u8
                        },
                    ),
                    ..s
                },
            )
        }
    } else if kind == 0xE && op % 0x100 == 0x9E {
        if vx >= 16 {
            failed(s, Chip8Error::InvalidKey(vx))
        } else {
            done(skip_if(s, s.keypad[vx as int]))
        }
    } else if kind == 0xE && op % 0x100 == 0xA1 {
        if vx >= 16 {
            failed(s, Chip8Error::InvalidKey(vx))
        } else {
            done(skip_if(s, !s.keypad[vx as int]))
        }
    } else {
        failed(s, Chip8Error::UnimplementedOpcode(op))
    }
}

/// Effect of the instructions with top nibble F: timers, key wait, index and memory blocks.
pub open spec fn misc_step(s: MachineView) -> (MachineView, Result<(), Chip8Error>) {
    let op = s.opcode;
    let x = op_x(op);
    let low = op % 0x100;
    let vx = s.registers[x];
    let i = s.index as int;
    if op_kind(op) != 0xF {
        failed(s, Chip8Error::UnimplementedOpcode(op))
    } else if low == 0x07 {
        done(with_reg(s, x, s.delay_timer))
    } else if low == 0x0A {
        match first_pressed(s.keypad, 0) {
            Some(k) => done(with_reg(s, x, k)),
            None => done(MachineView { pc: pc_prev(s.pc), ..s }),
        }
    } else if low == 0x15 {
        done(MachineView { delay_timer: vx, ..s })
    } else if low == 0x18 {
        done(MachineView { sound_timer: vx, ..s })
    } else if low == 0x1E {
        done(MachineView { index: ((i + vx) % 0x10000) as u16, ..s })
    } else if low == 0x29 {
        done(MachineView { index: (0x50 + 5 * vx) as u16, ..s })
    } else if low == 0x33 {
        if i + 3 > 4096 {
            failed(s, Chip8Error::AddressOutOfRange(s.index))
        } else {
            done(
                MachineView {
                    memory: s.memory.update(i, vx / 100).update(i + 1, (vx / 10) % 10).update(
                        i + 2,
                        vx % 10,
                    ),
                    ..s
                },
            )
        }
    } else if low == 0x55 {
        if i + x + 1 > 4096 {
            failed(s, Chip8Error::AddressOutOfRange(s.index))
        } else {
            done(MachineView { memory: stored(s.memory, s.registers, i, x), ..s })
        }
    } else if low == 0x65 {
        if i + x + 1 > 4096 {
            failed(s, Chip8Error::AddressOutOfRange(s.index))
        } else {
            done(MachineView { registers: loaded(s.registers, s.memory, i, x), ..s })
        }
    } else {
        failed(s, Chip8Error::UnimplementedOpcode(op))
    }
}

/// `memory` with `registers[0..=x]` written from address `i` on.
pub open spec fn stored(memory: Seq<u8>, registers: Seq<u8>, i: int, x: int) -> Seq<u8> {
    Seq::new(
        memory.len(),
        |a: int|
            if i <= a <= i + x {
                registers[a - i]
            } else {
                memory[a]
            },
    )
}

/// `registers` with `registers[0..=x]` read from address `i` on.
pub open spec fn loaded(registers: Seq<u8>, memory: Seq<u8>, i: int, x: int) -> Seq<u8> {
    Seq::new(
        registers.len(),
        |j: int|
            if j <= x {
                memory[i + j]
            } else {
                registers[j]
            },
    )
}

/// Effect of executing the instruction `s.opcode`, given the byte that a random draw
/// would give. On an error the state is left as it was.
pub open spec fn execute_step(s: MachineView, rnd: u8) -> (MachineView, Result<(), Chip8Error>) {
    let kind = op_kind(s.opcode);
    if kind <= 5 || kind == 9 || kind == 0xB {
        flow_step(s)
    } else if kind <= 8 {
        alu_step(s)
    } else if kind == 0xF {
        misc_step(s)
    } else {
        device_step(s, rnd)
    }
}

/// Both timers counted down by one where above zero.
pub open spec fn tick_timers(s: MachineView) -> MachineView {
    MachineView {
        delay_timer: if s.delay_timer > 0 { (s.delay_timer - 1) as u8 } else { 0 },
        sound_timer: if s.sound_timer > 0 { (s.sound_timer - 1) as u8 } else { 0 },
        ..s
    }
}

/// The big-endian instruction word at `pc`.
pub open spec fn fetch(s: MachineView) -> u16 {
    (s.memory[s.pc as int] * 256 + s.memory[s.pc + 1]) as u16
}

/// Effect of one cycle: fetch the word at PC, advance PC by two, execute, then count the
/// timers down. An instruction's error is reported after the timers have moved. A PC whose
/// word would lie past the end of memory is an error, and nothing changes.
pub open spec fn cycle_step(s: MachineView, rnd: u8) -> (MachineView, Result<(), Chip8Error>) {
    if s.pc + 1 >= 4096 {
        failed(s, Chip8Error::AddressOutOfRange(s.pc))
    } else {
        let fetched = MachineView { opcode: fetch(s), pc: (s.pc + 2) as u16, ..s };
        let e = execute_step(fetched, rnd);
        (tick_timers(e.0), e.1)
    }
}

/// `s` back in its power-on state, keeping the host's settings: the grid overlay,
/// single-step mode and its hold, and the shift quirk.
pub open spec fn after_reset(s: MachineView) -> MachineView {
    MachineView {
        show_grid: s.show_grid,
        cycle_advance: s.cycle_advance,
        block_cycle: s.block_cycle,
        shift_quirk: s.shift_quirk,
        ..power_on()
    }
}

/// `memory` with `rom` copied in from the start address on.
pub open spec fn with_program(memory: Seq<u8>, rom: Seq<u8>) -> Seq<u8> {
    Seq::new(
        memory.len(),
        |a: int|
            if 0x200 <= a < 0x200 + rom.len() {
                rom[a - 0x200]
            } else {
                memory[a]
            },
    )
}

/// Whether the host should run a cycle this frame: freely running and not held,
/// or in single-step mode with a step requested.
pub open spec fn cycle_due(s: MachineView) -> bool {
    s.cycle_advance != s.block_cycle
}

} // verus!
