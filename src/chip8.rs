use vstd::prelude::*;
use crate::screen::Screen;
use crate::spec::{
    alu_step, alu_values, cycle_step, device_step, execute_step, first_pressed, flow_step,
    after_reset, cycle_due, initial_memory, loaded, with_program, MAX_ROM_SIZE, START_ADDRESS, misc_step, op_kind, power_on, stored, Chip8Error, MachineView, FONTSET,
    FONTSET_START_ADDRESS,
};

verus! {

/// A CHIP-8 machine: sixteen registers, 4 KiB of memory, a sixteen-entry call stack,
/// two timers, a sixteen-key keypad and the display.
pub struct Chip8 {
    pub registers: [u8; 16],
    pub memory: [u8; 4096],
    pub index: u16,
    pub pc: u16,
    pub stack: [u16; 16],
    pub stack_ptr: u8,
    pub delay_timer: u8,
    pub sound_timer: u8,
    pub keypad: [bool; 16],
    pub screen: Screen,
    /// The instruction word fetched last.
    pub opcode: u16,
    /// Single-step mode: a cycle runs only when a step is requested.
    pub cycle_advance: bool,
    /// In single-step mode, whether the next cycle is still held back.
    pub block_cycle: bool,
    /// Whether 8XY6 and 8XYE shift VY into VX rather than VX in place.
    pub shift_quirk: bool,
}

impl View for Chip8 {
    type V = MachineView;

    open spec fn view(&self) -> MachineView {
        MachineView {
            registers: self.registers@,
            memory: self.memory@,
            index: self.index,
            pc: self.pc,
            stack: self.stack@,
            stack_ptr: self.stack_ptr,
            delay_timer: self.delay_timer,
            sound_timer: self.sound_timer,
            keypad: self.keypad@,
            pixels: self.screen.state@,
            show_grid: self.screen.show_grid,
            opcode: self.opcode,
            cycle_advance: self.cycle_advance,
            block_cycle: self.block_cycle,
            shift_quirk: self.shift_quirk,
        }
    }
}

/// Fresh memory holding the digit glyphs.
fn font_memory() -> (r: [u8; 4096])
    ensures
        r@ == initial_memory(),
{
    let mut memory = [0u8; 4096];
    let mut i: usize = 0;
    while i < 80
        invariant
            i <= 80,
            forall|a: int|
                0 <= a < 4096 ==> memory@[a] == if 0x50 <= a < 0x50 + i {
                    FONTSET@[a - 0x50]
                } else {
                    0u8
                },
        decreases 80 - i,
    {
        memory[FONTSET_START_ADDRESS + i] = FONTSET[i];
        i += 1;
    }
    assert(memory@ =~= initial_memory());
    memory
}

/// The lowest index of a pressed key, if any key is pressed.
fn lowest_pressed(keys: &[bool; 16]) -> (r: Option<u8>)
    ensures
        r == first_pressed(keys@, 0),
{
    let mut i: usize = 0;
    while i < 16
        invariant
            i <= 16,
            first_pressed(keys@, 0) == first_pressed(keys@, i as int),
        decreases 16 - i,
    {
        if keys[i] {
            return Some(i as u8);
        }
        i += 1;
    }
    None
}

impl Default for Chip8 {
    /// A machine in its power-on state.
    fn default() -> (r: Chip8)
        ensures
            r@ =~= power_on(),
    {
        let r = Chip8 {
            registers: [0u8; 16],
            memory: font_memory(),
            index: 0,
            pc: 0x200,
            stack: [0u16; 16],
            stack_ptr: 0,
            delay_timer: 0,
            sound_timer: 0,
            keypad: [false; 16],
            screen: Screen::new(),
            opcode: 0,
            cycle_advance: false,
            block_cycle: true,
            shift_quirk: false,
        };
        assert(r.screen.state@ =~= Seq::new(2048, |p: int| false));
        assert(r.registers@ =~= Seq::new(16, |i: int| 0u8));
        assert(r.stack@ =~= Seq::new(16, |i: int| 0u16));
        assert(r.keypad@ =~= Seq::new(16, |i: int| false));
        r
    }
}

impl Chip8 {
    /// Jumps, calls, returns and conditional skips.
    fn execute_flow(&mut self) -> (r: Result<(), Chip8Error>)
        requires
            ({
                let k = op_kind(old(self).opcode);
                k <= 5 || k == 9 || k == 0xB
            }),
        ensures
            final(self)@ =~= flow_step(old(self)@).0,
            r == flow_step(old(self)@).1,
    {
        let op = self.opcode;
        let kind = op / 0x1000;
        let vx = self.registers[((op / 0x100) % 16) as usize];
        let vy = self.registers[((op / 0x10) % 16) as usize];
        if op == 0x00E0 {
            self.screen.reset();
            assert(self.screen.state@ =~= Seq::new(2048, |p: int| false));
        } else if op == 0x00EE {
            if self.stack_ptr == 0 {
                return Err(Chip8Error::StackUnderflow);
            } else if self.stack_ptr > 16 {
                return Err(Chip8Error::StackOverflow);
            }
            self.stack_ptr -= 1;
            self.pc = self.stack[self.stack_ptr as usize];
        } else if kind == 1 {
            self.pc = op % 0x1000;
        } else if kind == 2 {
            if self.stack_ptr >= 16 {
                return Err(Chip8Error::StackOverflow);
            }
            self.stack[self.stack_ptr as usize] = self.pc;
            self.stack_ptr += 1;
            self.pc = op % 0x1000;
        } else if kind == 3 || kind == 4 || (kind == 5 || kind == 9) && op % 16 == 0 {
            let cond = if kind == 3 {
                vx == (op % 0x100) as u8
            } else if kind == 4 {
                vx != (op % 0x100) as u8
            } else if kind == 5 {
                vx == vy
            } else {
                vx != vy
            };
            if cond {
                self.pc = self.pc.wrapping_add(2);
            }
        } else if kind == 0xB {
            self.pc = self.registers[0] as u16 + op % 0x1000;
        } else {
            return Err(Chip8Error::UnimplementedOpcode(op));
        }
        Ok(())
    }

    /// Register loads, arithmetic, logic and shifts.
    fn execute_alu(&mut self) -> (r: Result<(), Chip8Error>)
        ensures
            final(self)@ =~= alu_step(old(self)@).0,
            r == alu_step(old(self)@).1,
    {
        let op = self.opcode;
        let x = ((op / 0x100) % 16) as usize;
        let vx = self.registers[x];
        let vy = self.registers[((op / 0x10) % 16) as usize];
        match alu_compute(op, vx, vy, self.shift_quirk) {
            Some((v, None)) => {
                self.registers[x] = v;
            },
            Some((v, Some(f))) => {
                self.registers[x] = v;
                self.registers[15] = f;
            },
            None => {
                return Err(Chip8Error::UnimplementedOpcode(op));
            },
        }
        Ok(())
    }

    /// Index loads, random bytes, sprite drawing and key skips.
    fn execute_device(&mut self, rnd: u8) -> (r: Result<(), Chip8Error>)
        requires
            ({
                let k = op_kind(old(self).opcode);
                k == 0xA || k == 0xC || k == 0xD || k == 0xE
            }),
        ensures
            final(self)@ =~= device_step(old(self)@, rnd).0,
            r == device_step(old(self)@, rnd).1,
    {
        let op = self.opcode;
        let kind = op / 0x1000;
        let x = ((op / 0x100) % 16) as usize;
        let vx = self.registers[x];
        let vy = self.registers[((op / 0x10) % 16) as usize];
        if kind == 0xA {
            self.index = op % 0x1000;
        } else if kind == 0xC {
            self.registers[x] = rnd & (op % 0x100) as u8;
        } else if kind == 0xD {
            let n = (op % 16) as usize;
            let i = self.index as usize;
            if i + n > 4096 {
                return Err(Chip8Error::AddressOutOfRange(self.index));
            }
            let flipped = self.screen.draw_sprite(&self.memory, i, n, vx, vy);
            self.registers[15] = if flipped { 1 } else { 0 };
        } else if op % 0x100 == 0x9E || op % 0x100 == 0xA1 {
            if vx >= 16 {
                return Err(Chip8Error::InvalidKey(vx));
            }
            let pressed = self.keypad[vx as usize];
            if pressed == (op % 0x100 == 0x9E) {
                self.pc = self.pc.wrapping_add(2);
            }
        } else {
            return Err(Chip8Error::UnimplementedOpcode(op));
        }
        Ok(())
    }

    /// Timers, the key wait, index arithmetic, digits and register blocks.
    fn execute_misc(&mut self) -> (r: Result<(), Chip8Error>)
        requires
            op_kind(old(self).opcode) == 0xF,
        ensures
            final(self)@ =~= misc_step(old(self)@).0,
            r == misc_step(old(self)@).1,
    {
        let op = self.opcode;
        let low = op % 0x100;
        let x = ((op / 0x100) % 16) as usize;
        let vx = self.registers[x];
        let i = self.index as usize;
        if low == 0x07 {
            self.registers[x] = self.delay_timer;
        } else if low == 0x0A {
            match lowest_pressed(&self.keypad) {
                Some(k) => {
                    self.registers[x] = k;
                },
                None => {
                    self.pc = self.pc.wrapping_sub(2);
                },
            }
        } else if low == 0x15 {
            self.delay_timer = vx;
        } else if low == 0x18 {
            self.sound_timer = vx;
        } else if low == 0x1E {
            self.index = self.index.wrapping_add(vx as u16);
        } else if low == 0x29 {
            self.index = FONTSET_START_ADDRESS as u16 + 5 * vx as u16;
        } else if low == 0x33 {
            if i + 3 > 4096 {
                return Err(Chip8Error::AddressOutOfRange(self.index));
            }
            self.memory[i] = vx / 100;
            self.memory[i + 1] = (vx / 10) % 10;
            self.memory[i + 2] = vx % 10;
        } else if low == 0x55 {
            if i + x + 1 > 4096 {
                return Err(Chip8Error::AddressOutOfRange(self.index));
            }
            self.memory = store_registers(self.memory, &self.registers, i, x);
        } else if low == 0x65 {
            if i + x + 1 > 4096 {
                return Err(Chip8Error::AddressOutOfRange(self.index));
            }
            self.registers = load_registers(self.registers, &self.memory, i, x);
        } else {
            return Err(Chip8Error::UnimplementedOpcode(op));
        }
        Ok(())
    }

    /// Executes the instruction in `opcode`, with `rnd` as the byte that CXNN draws.
    /// PC is not advanced here; on an error nothing changes.
    pub fn execute_with(&mut self, rnd: u8) -> (r: Result<(), Chip8Error>)
        ensures
            final(self)@ =~= execute_step(old(self)@, rnd).0,
            r == execute_step(old(self)@, rnd).1,
    {
        let kind = self.opcode / 0x1000;
        if kind <= 5 || kind == 9 || kind == 0xB {
            self.execute_flow()
        } else if kind <= 8 {
            self.execute_alu()
        } else if kind == 0xF {
            self.execute_misc()
        } else {
            self.execute_device(rnd)
        }
    }

    /// Executes the instruction in `opcode`; CXNN draws a fresh random byte.
    pub fn execute(&mut self) -> (r: Result<(), Chip8Error>)
        ensures
            exists|rnd: u8|
                final(self)@ =~= execute_step(old(self)@, rnd).0 && r == execute_step(
                    old(self)@,
                    rnd,
                ).1,
    {
        let rnd = random_byte();
        self.execute_with(rnd)
    }

    /// One cycle: fetch the word at PC, advance PC by two, execute it with `rnd` as the
    /// byte that CXNN draws, then count both timers down.
    pub fn cycle_with(&mut self, rnd: u8) -> (r: Result<(), Chip8Error>)
        ensures
            final(self)@ =~= cycle_step(old(self)@, rnd).0,
            r == cycle_step(old(self)@, rnd).1,
    {
        if self.pc as usize + 1 >= 4096 {
            return Err(Chip8Error::AddressOutOfRange(self.pc));
        }
        let hi = self.memory[self.pc as usize] as u16;
        let lo = self.memory[self.pc as usize + 1] as u16;
        self.opcode = hi * 256 + lo;
        self.pc = self.pc + 2;
        let r = self.execute_with(rnd);
        if self.delay_timer > 0 {
            self.delay_timer -= 1;
        }
        if self.sound_timer > 0 {
            self.sound_timer -= 1;
        }
        r
    }

    /// One cycle, with a fresh random byte for CXNN.
    pub fn cycle(&mut self) -> (r: Result<(), Chip8Error>)
        ensures
            exists|rnd: u8|
                final(self)@ =~= cycle_step(old(self)@, rnd).0 && r == cycle_step(old(self)@, rnd).1,
    {
        let rnd = random_byte();
        self.cycle_with(rnd)
    }
}

impl Chip8 {
    /// Returns the machine to its power-on state. The grid overlay, single-step mode,
    /// its hold and the shift quirk are kept.
    pub fn reset(&mut self)
        ensures
            final(self)@ =~= after_reset(old(self)@),
    {
        self.memory = font_memory();
        self.registers = [0u8; 16];
        self.pc = 0x200;
        self.index = 0;
        self.stack = [0u16; 16];
        self.stack_ptr = 0;
        self.delay_timer = 0;
        self.sound_timer = 0;
        self.keypad = [false; 16];
        self.opcode = 0;
        self.screen.reset();
        assert(self.screen.state@ =~= Seq::new(2048, |p: int| false));
        assert(self.registers@ =~= Seq::new(16, |i: int| 0u8));
        assert(self.stack@ =~= Seq::new(16, |i: int| 0u16));
        assert(self.keypad@ =~= Seq::new(16, |i: int| false));
    }

    /// Copies a program into memory from the start address on. A program longer than
    /// the memory after the start address is refused, and nothing changes.
    pub fn load_rom(&mut self, rom: &[u8]) -> (r: Result<(), Chip8Error>)
        ensures
            rom@.len() > MAX_ROM_SIZE ==> r == Err::<(), Chip8Error>(
                Chip8Error::RomTooLarge(rom@.len() as usize),
            ) && final(self)@ == old(self)@,
            rom@.len() <= MAX_ROM_SIZE ==> r is Ok && final(self)@ =~= (MachineView {
                memory: with_program(old(self)@.memory, rom@),
                ..old(self)@
            }),
    {
        if rom.len() > MAX_ROM_SIZE {
            return Err(Chip8Error::RomTooLarge(rom.len()));
        }
        let mut j: usize = 0;
        while j < rom.len()
            invariant
                rom@.len() <= MAX_ROM_SIZE,
                j <= rom@.len(),
                self.registers == old(self).registers,
                self.index == old(self).index,
                self.pc == old(self).pc,
                self.stack == old(self).stack,
                self.stack_ptr == old(self).stack_ptr,
                self.delay_timer == old(self).delay_timer,
                self.sound_timer == old(self).sound_timer,
                self.keypad == old(self).keypad,
                self.screen == old(self).screen,
                self.opcode == old(self).opcode,
                self.cycle_advance == old(self).cycle_advance,
                self.block_cycle == old(self).block_cycle,
                self.shift_quirk == old(self).shift_quirk,
                forall|a: int|
                    0 <= a < 4096 ==> self.memory@[a] == if 0x200 <= a < 0x200 + j {
                        rom@[a - 0x200]
                    } else {
                        old(self).memory@[a]
                    },
            decreases rom@.len() - j,
        {
            self.memory[START_ADDRESS + j] = rom[j];
            j += 1;
        }
        Ok(())
    }

    /// Takes the host's input for this frame: the state of the sixteen keys, and whether
    /// the step key was just pressed or is held. In single-step mode either releases the
    /// hold on the next cycle.
    pub fn process_input(&mut self, keys: [bool; 16], step_pressed: bool, step_held: bool)
        ensures
            final(self)@ =~= (MachineView {
                keypad: keys@,
                block_cycle: if old(self).cycle_advance && (step_pressed || step_held) {
                    false
                } else {
                    old(self).block_cycle
                },
                ..old(self)@
            }),
    {
        self.keypad = keys;
        if self.cycle_advance && (step_pressed || step_held) {
            self.block_cycle = false;
        }
    }

    /// Whether a cycle is due this frame.
    pub fn should_cycle(&self) -> (r: bool)
        ensures
            r == cycle_due(self@),
    {
        self.cycle_advance != self.block_cycle
    }

    /// Runs the frame's cycle if one is due, with `rnd` as the byte that CXNN draws, and
    /// then holds the next one. Returns the cycle's outcome, or `None` when none was due.
    pub fn frame_with(&mut self, rnd: u8) -> (r: Option<Result<(), Chip8Error>>)
        ensures
            !cycle_due(old(self)@) ==> r is None && final(self)@ == old(self)@,
            cycle_due(old(self)@) ==> r == Some(cycle_step(old(self)@, rnd).1) && final(self)@
                =~= (MachineView { block_cycle: true, ..cycle_step(old(self)@, rnd).0 }),
    {
        if !self.should_cycle() {
            return None;
        }
        let r = self.cycle_with(rnd);
        self.block_cycle = true;
        Some(r)
    }

    /// Runs the frame's cycle if one is due, with a fresh random byte for CXNN.
    pub fn frame(&mut self) -> (r: Option<Result<(), Chip8Error>>)
        ensures
            !cycle_due(old(self)@) ==> r is None && final(self)@ == old(self)@,
            cycle_due(old(self)@) ==> exists|rnd: u8|
                r == Some(cycle_step(old(self)@, rnd).1) && final(self)@ =~= (MachineView {
                    block_cycle: true,
                    ..cycle_step(old(self)@, rnd).0
                }),
    {
        let rnd = random_byte();
        self.frame_with(rnd)
    }
}

/// `memory` with `registers[0..=x]` written from address `i` on.
fn store_registers(memory: [u8; 4096], registers: &[u8; 16], i: usize, x: usize) -> (r: [u8; 4096])
    requires
        x < 16,
        i + x + 1 <= 4096,
    ensures
        r@ =~= stored(memory@, registers@, i as int, x as int),
{
    let mut m = memory;
    let mut j: usize = 0;
    while j <= x
        invariant
            x < 16,
            i + x + 1 <= 4096,
            j <= x + 1,
            forall|a: int|
                0 <= a < 4096 ==> m@[a] == if i <= a < i + j {
                    registers@[a - i]
                } else {
                    memory@[a]
                },
        decreases x + 1 - j,
    {
        m[i + j] = registers[j];
        j += 1;
    }
    m
}

/// `registers` with `registers[0..=x]` read from address `i` on.
fn load_registers(registers: [u8; 16], memory: &[u8; 4096], i: usize, x: usize) -> (r: [u8; 16])
    requires
        x < 16,
        i + x + 1 <= 4096,
    ensures
        r@ =~= loaded(registers@, memory@, i as int, x as int),
{
    let mut regs = registers;
    let mut j: usize = 0;
    while j <= x
        invariant
            x < 16,
            i + x + 1 <= 4096,
            j <= x + 1,
            forall|k: int|
                0 <= k < 16 ==> regs@[k] == if k < j {
                    memory@[i + k]
                } else {
                    registers@[k]
                },
        decreases x + 1 - j,
    {
        regs[j] = memory[i + j];
        j += 1;
    }
    regs
}

/// Relies on rand::random::<u8>: a byte drawn from the thread-local generator.
/// Nothing is known of its value.
#[verifier::external_body]
fn random_byte() -> (r: u8) {
    rand::random::<u8>()
}

/// What a register instruction writes to VX and to VF.
#[verifier::rlimit(60)]
fn alu_compute(op: u16, vx: u8, vy: u8, quirk: bool) -> (r: Option<(u8, Option<u8>)>)
    ensures
        r == alu_values(op, vx, vy, quirk),
{
    let kind = op / 0x1000;
    let n = op % 16;
    let src = if quirk {
        vy
    } else {
        vx
    };
    if kind == 6 {
        Some(((op % 0x100) as u8, None))
    } else if kind == 7 {
        Some((((vx as u16 + op % 0x100) % 256) as u8, None))
    } else if kind != 8 {
        None
    } else if n == 0 {
        Some((vy, None))
    } else if n == 1 {
        Some((vx | vy, None))
    } else if n == 2 {
        Some((vx & vy, None))
    } else if n == 3 {
        Some((vx ^ vy, None))
    } else if n == 4 {
        let sum = vx as u16 + vy as u16;
        Some(((sum % 256) as u8, Some(if sum > 255 { 1 } else { 0 })))
    } else if n == 5 {
        Some((((vx as u16 + 256 - vy as u16) % 256) as u8, Some(if vx >= vy { 1 } else { 0 })))
    } else if n == 6 {
        Some((src / 2, Some(src % 2)))
    } else if n == 7 {
        Some((((vy as u16 + 256 - vx as u16) % 256) as u8, Some(if vy >= vx { 1 } else { 0 })))
    } else if n == 0xE {
        Some((((src as u16 * 2) % 256) as u8, Some(src / 128)))
    } else {
        None
    }
}

} // verus!
