//! The machine itself: the state it owns and the engine that runs on it.

use crate::bits::msb0_bit;
use crate::framebuffer::{blank_pixels, pixel_index, Framebuffer, DISPLAY_HEIGHT};
use crate::keypad::{lemma_lowest_key, Keypad};
use crate::instruction::{join, op_of, split};
use crate::state::{
    alu, ends_as, execute, execute_alu, execute_draw, execute_keys, execute_misc, execute_system,
    fetch, font_table, initial_state, invalid, load, loaded_memory, loaded_registers, skip_if,
    stored_memory,
    tick, Error, State, FLAG_REGISTER, FONT_BASE, FONT_BYTES, GLYPH_BYTES, MEMORY_SIZE,
    PROGRAM_START,
};
use crate::timers::Timers;
use vstd::prelude::*;

verus! {

/// The built-in font, as it lies in memory from `FONT_BASE` on.
pub fn font() -> (glyphs: [u8; 80])
    ensures
        glyphs@ == font_table(),
{
    let glyphs: [u8; 80] = [
        0xF0, 0x90, 0x90, 0x90, 0xF0,
        0x20, 0x60, 0x20, 0x20, 0x70,
        0xF0, 0x10, 0xF0, 0x80, 0xF0,
        0xF0, 0x10, 0xF0, 0x10, 0xF0,
        0x90, 0x90, 0xF0, 0x10, 0x10,
        0xF0, 0x80, 0xF0, 0x10, 0xF0,
        0xF0, 0x80, 0xF0, 0x90, 0xF0,
        0xF0, 0x10, 0x20, 0x40, 0x40,
        0xF0, 0x90, 0xF0, 0x90, 0xF0,
        0xF0, 0x90, 0xF0, 0x10, 0xF0,
        0xF0, 0x90, 0xF0, 0x90, 0x90,
        0xE0, 0x90, 0xE0, 0x90, 0xE0,
        0xF0, 0x80, 0x80, 0x80, 0xF0,
        0xE0, 0x90, 0x90, 0x90, 0xE0,
        0xF0, 0x80, 0xF0, 0x80, 0xF0,
        0xF0, 0x80, 0xF0, 0x80, 0x80,
    ];
    assert(glyphs@ =~= font_table());
    glyphs
}

/// A CHIP-8 machine. It owns all of its state; the engine and the timers
/// change it through `&mut self`, one call at a time.
pub struct Emulator {
    display: Framebuffer,
    display_flag: bool,
    memory: Vec<u8>,
    stack: Vec<u16>,
    program_counter: u16,
    index: u16,
    registers: [u8; 16],
    super_chip: bool,
    timers: Timers,
    keys_down: Keypad,
}

impl View for Emulator {
    type V = State;

    /// The machine as a mathematical value.
    closed spec fn view(&self) -> State {
        State {
            memory: self.memory@,
            registers: self.registers@,
            index: self.index,
            pc: self.program_counter,
            stack: self.stack@,
            delay: self.timers.delay,
            sound: self.timers.sound,
            pixels: self.display@,
            display_flag: self.display_flag,
            keys: self.keys_down@,
            super_chip: self.super_chip,
        }
    }
}

impl Emulator {
    /// Memory and display have their fixed sizes.
    pub closed spec fn wf(&self) -> bool {
        &&& self.display.wf()
        &&& self.memory@.len() == 4096
    }

    /// The view of a well-formed machine is a valid state.
    pub proof fn lemma_valid(&self)
        requires
            self.wf(),
        ensures
            self@.valid(),
    {
        self.display.lemma_view_len();
        self.keys_down.lemma_valid();
    }

    /// A machine ready for a program: see `initial_state`. `super_chip`
    /// selects the extended quirks for good.
    pub fn new(super_chip: bool) -> (emu: Emulator)
        ensures
            emu.wf(),
            emu@ == initial_state(super_chip),
    {
        let glyphs = font();
        let mut memory: Vec<u8> = vec![0u8; 4096];
        let mut i: usize = 0;
        while i < FONT_BYTES
            invariant
                i <= 80,
                glyphs@ == font_table(),
                memory@.len() == 4096,
                forall|j: int|
                    0 <= j < 4096 ==> #[trigger] memory@[j] == (if 0x50 <= j < 0x50 + i {
                        font_table()[j - 0x50]
                    } else {
                        0u8
                    }),
            decreases 80 - i,
        {
            memory.set(FONT_BASE as usize + i, glyphs[i]);
            i = i + 1;
        }
        let emu = Emulator {
            display: Framebuffer::new(),
            display_flag: false,
            memory,
            stack: Vec::new(),
            program_counter: PROGRAM_START,
            index: 0,
            registers: [0u8; 16],
            super_chip,
            timers: Timers::new(),
            keys_down: Keypad::new(),
        };
        assert(emu@ =~= initial_state(super_chip));
        emu
    }

    /// Copies `program` into memory from `PROGRAM_START` on. A program that
    /// does not fit is refused and nothing is copied.
    pub fn load_program(&mut self, program: &Vec<u8>) -> (result: Result<(), Error>)
        requires
            old(self).wf(),
        ensures
            final(self).wf(),
            ends_as(old(self)@, final(self)@, result, load(old(self)@, program@)),
    {
        if program.len() > MEMORY_SIZE - PROGRAM_START as usize {
            return Err(Error::OutOfBounds);
        }
        copy_program(&mut self.memory, program);
        assert(self@ =~= load(old(self)@, program@)->Ok_0);
        Ok(())
    }

    /// Reads the instruction at the program counter and moves the counter
    /// past it. Fails, changing nothing, where the two bytes do not lie
    /// inside memory.
    pub fn fetch(&mut self) -> (result: Result<u16, Error>)
        requires
            old(self).wf(),
        ensures
            final(self).wf(),
            match fetch(old(self)@) {
                Ok((s, w)) => result == Ok::<u16, Error>(w) && final(self)@ == s,
                Err(e) => result == Err::<u16, Error>(e) && final(self)@ == old(self)@,
            },
    {
        let pc = self.program_counter as usize;
        if pc + 2 > MEMORY_SIZE {
            return Err(Error::OutOfBounds);
        }
        let high = self.memory[pc];
        let low = self.memory[pc + 1];
        self.program_counter = self.program_counter + 2;
        Ok(join(high, low))
    }

    /// Lowers both timers by one, never below zero. The driver calls this
    /// sixty times a second, whatever the instruction rate.
    pub fn decrement_timers(&mut self)
        requires
            old(self).wf(),
        ensures
            final(self).wf(),
            final(self)@ == tick(old(self)@),
    {
        self.timers.tick();
    }

    /// Whether pixel `(x, y)` is on.
    pub fn get_pixel(&self, x: u8, y: u8) -> (on: bool)
        requires
            self.wf(),
            x < 64,
            y < 32,
        ensures
            on == self@.pixels[pixel_index(x as int, y as int)],
    {
        self.display.get(x, y)
    }

    /// Turns pixel `(x, y)` on or off.
    pub fn set_pixel(&mut self, x: u8, y: u8, state: bool)
        requires
            old(self).wf(),
            x < 64,
            y < 32,
        ensures
            final(self).wf(),
            final(self)@ == (State {
                pixels: old(self)@.pixels.update(pixel_index(x as int, y as int), state),
                ..old(self)@
            }),
    {
        self.display.set(x, y, state);
    }

    /// Turns every pixel off.
    pub fn clear_screen(&mut self)
        requires
            old(self).wf(),
        ensures
            final(self).wf(),
            final(self)@ == (State { pixels: blank_pixels(), ..old(self)@ }),
    {
        self.display.clear();
    }

    /// Continues at address `n`.
    pub fn jump(&mut self, n: u16)
        requires
            old(self).wf(),
        ensures
            final(self).wf(),
            final(self)@ == old(self)@.with_pc(n),
    {
        self.program_counter = n;
    }

    /// Calls the subroutine at `n`: the program counter goes on the stack
    /// and execution continues at `n`. Calls nest to any depth.
    pub fn jump_subroutine(&mut self, n: u16)
        requires
            old(self).wf(),
        ensures
            final(self).wf(),
            final(self)@ == (State {
                stack: old(self)@.stack.push(old(self)@.pc),
                pc: n,
                ..old(self)@
            }),
    {
        self.stack.push(self.program_counter);
        self.program_counter = n;
    }

    /// Skips the next instruction. Fails, changing nothing, where the
    /// program counter cannot move further.
    pub fn skip(&mut self) -> (result: Result<(), Error>)
        requires
            old(self).wf(),
        ensures
            final(self).wf(),
            ends_as(old(self)@, final(self)@, result, skip_if(old(self)@, true)),
    {
        if self.program_counter > 0xFFFF - 2 {
            return Err(Error::OutOfBounds);
        }
        self.program_counter = self.program_counter + 2;
        Ok(())
    }

    /// Marks `key` as held. The input side calls this on a key press.
    pub fn press(&mut self, key: usize)
        requires
            old(self).wf(),
        ensures
            final(self).wf(),
            final(self)@ == (State {
                keys: if key < 16 {
                    old(self)@.keys.insert(key as int)
                } else {
                    old(self)@.keys
                },
                ..old(self)@
            }),
    {
        self.keys_down.press(key);
    }

    /// Marks `key` as no longer held. The input side calls this on a key
    /// release.
    pub fn release(&mut self, key: usize)
        requires
            old(self).wf(),
        ensures
            final(self).wf(),
            final(self)@ == (State { keys: old(self)@.keys.remove(key as int), ..old(self)@ }),
    {
        self.keys_down.release(key);
    }

    /// Reports whether the display changed since the last call, and marks
    /// it as shown.
    pub fn take_display_flag(&mut self) -> (changed: bool)
        requires
            old(self).wf(),
        ensures
            final(self).wf(),
            changed == old(self)@.display_flag,
            final(self)@ == (State { display_flag: false, ..old(self)@ }),
    {
        let changed = self.display_flag;
        self.display_flag = false;
        changed
    }

    /// The program counter.
    pub fn program_counter(&self) -> (pc: u16)
        ensures
            pc == self@.pc,
    {
        self.program_counter
    }

    /// The index register.
    pub fn index(&self) -> (index: u16)
        ensures
            index == self@.index,
    {
        self.index
    }

    /// The registers `V0` to `VF`.
    pub fn registers(&self) -> (registers: &[u8; 16])
        ensures
            registers@ == self@.registers,
    {
        &self.registers
    }

    /// The whole of memory.
    pub fn memory(&self) -> (memory: &Vec<u8>)
        ensures
            memory@ == self@.memory,
    {
        &self.memory
    }

    /// The return addresses of the calls in progress, the latest last.
    pub fn stack(&self) -> (stack: &Vec<u16>)
        ensures
            stack@ == self@.stack,
    {
        &self.stack
    }

    /// The delay timer.
    pub fn delay_timer(&self) -> (delay: u8)
        ensures
            delay == self@.delay,
    {
        self.timers.delay
    }

    /// The sound timer. A tone is due while it is not zero.
    pub fn sound_timer(&self) -> (sound: u8)
        ensures
            sound == self@.sound,
    {
        self.timers.sound
    }

    /// Whether the extended quirks are on.
    pub fn super_chip(&self) -> (on: bool)
        ensures
            on == self@.super_chip,
    {
        self.super_chip
    }

    /// Whether `key` is held.
    pub fn is_held(&self, key: usize) -> (held: bool)
        ensures
            held == self@.keys.contains(key as int),
    {
        self.keys_down.is_held(key)
    }

    /// The display as a renderer takes it: 256 bytes, row by row, eight
    /// pixels to a byte, the leftmost in the most significant bit.
    pub fn display_bytes(&self) -> (bytes: &Vec<u8>)
        requires
            self.wf(),
        ensures
            bytes@.len() == 256,
            forall|i: int| 0 <= i < 2048 ==> #[trigger] msb0_bit(bytes@, i) == self@.pixels[i],
    {
        self.display.bytes()
    }

    fn skip_when(&mut self, taken: bool) -> (result: Result<(), Error>)
        requires
            old(self).wf(),
        ensures
            final(self).wf(),
            ends_as(old(self)@, final(self)@, result, skip_if(old(self)@, taken)),
    {
        if taken {
            self.skip()
        } else {
            Ok(())
        }
    }

    fn invalid_opcode(&self, instruction: u16) -> (result: Result<(), Error>)
        ensures
            ends_as(self@, self@, result, invalid(self@, instruction)),
    {
        Err(Error::InvalidOpcode { instruction, pc: self.program_counter })
    }

    fn set_register(&mut self, x: usize, value: u8)
        requires
            old(self).wf(),
            x < 16,
        ensures
            final(self).wf(),
            final(self)@ == old(self)@.with_register(x as int, value),
    {
        self.registers[x] = value;
    }

    fn set_result(&mut self, x: usize, value: u8, flag: bool)
        requires
            old(self).wf(),
            x < 16,
        ensures
            final(self).wf(),
            final(self)@ == old(self)@.with_result(x as int, value, flag),
    {
        self.registers[x] = value;
        self.registers[FLAG_REGISTER] = if flag {
            1
        } else {
            0
        };
    }

    fn run_system(&mut self, instruction: u16) -> (result: Result<(), Error>)
        requires
            old(self).wf(),
        ensures
            final(self).wf(),
            ends_as(old(self)@, final(self)@, result, execute_system(old(self)@, instruction)),
    {
        if instruction == 0x00E0 {
            self.clear_screen();
            self.display_flag = true;
            Ok(())
        } else if instruction == 0x00EE {
            match self.stack.pop() {
                Some(address) => {
                    self.program_counter = address;
                    Ok(())
                },
                None => Err(Error::StackUnderflow),
            }
        } else {
            self.invalid_opcode(instruction)
        }
    }

    fn run_alu(&mut self, instruction: u16) -> (result: Result<(), Error>)
        requires
            old(self).wf(),
        ensures
            final(self).wf(),
            ends_as(old(self)@, final(self)@, result, execute_alu(old(self)@, instruction)),
    {
        let f = split(instruction);
        match alu_operation(f.n, self.registers[f.x], self.registers[f.y]) {
            Some((value, Some(flag))) => {
                self.set_result(f.x, value, flag);
                Ok(())
            },
            Some((value, None)) => {
                self.set_register(f.x, value);
                Ok(())
            },
            None => self.invalid_opcode(instruction),
        }
    }

    fn run_draw(&mut self, instruction: u16) -> (result: Result<(), Error>)
        requires
            old(self).wf(),
        ensures
            final(self).wf(),
            ends_as(old(self)@, final(self)@, result, execute_draw(old(self)@, instruction)),
    {
        let f = split(instruction);
        let x0: u8 = self.registers[f.x] % 64;
        let y0: u8 = self.registers[f.y] % 32;
        let n: u8 = f.n;
        let rows: usize = if (n as usize) <= DISPLAY_HEIGHT - y0 as usize {
            n as usize
        } else {
            DISPLAY_HEIGHT - y0 as usize
        };
        if rows > 0 && self.index as usize + rows > MEMORY_SIZE {
            return Err(Error::OutOfBounds);
        }
        let collision = self.display.draw(x0, y0, &self.memory, self.index as usize, n);
        self.registers[FLAG_REGISTER] = if collision {
            1
        } else {
            0
        };
        self.display_flag = true;
        Ok(())
    }

    fn run_keys(&mut self, instruction: u16) -> (result: Result<(), Error>)
        requires
            old(self).wf(),
        ensures
            final(self).wf(),
            ends_as(old(self)@, final(self)@, result, execute_keys(old(self)@, instruction)),
    {
        let f = split(instruction);
        let vx = self.registers[f.x];
        match f.nn {
            0x9E => {
                let held = self.keys_down.is_held(vx as usize);
                self.skip_when(held)
            },
            0xA1 => {
                let held = self.keys_down.is_held(vx as usize);
                self.skip_when(!held)
            },
            _ => self.invalid_opcode(instruction),
        }
    }

    fn run_misc(&mut self, instruction: u16) -> (result: Result<(), Error>)
        requires
            old(self).wf(),
        ensures
            final(self).wf(),
            ends_as(old(self)@, final(self)@, result, execute_misc(old(self)@, instruction)),
    {
        let f = split(instruction);
        let x = f.x;
        let vx = self.registers[x];
        let index = self.index as usize;
        match f.nn {
            0x07 => {
                let delay = self.timers.delay;
                self.set_register(x, delay);
            },
            0x0A => {
                match self.keys_down.any_held() {
                    None => {
                        if self.program_counter < 2 {
                            return Err(Error::OutOfBounds);
                        }
                        self.program_counter = self.program_counter - 2;
                    },
                    Some(key) => {
                        proof {
                            lemma_lowest_key(self.keys_down@);
                        }
                        self.set_register(x, key as u8);
                    },
                }
            },
            0x15 => {
                self.timers.delay = vx;
            },
            0x18 => {
                self.timers.sound = vx;
            },
            0x1E => {
                if self.index > 0xFFFF - vx as u16 {
                    return Err(Error::OutOfBounds);
                }
                self.index = self.index + vx as u16;
            },
            0x29 => {
                self.index = FONT_BASE + vx as u16 * GLYPH_BYTES;
            },
            0x33 => {
                if index + 3 > MEMORY_SIZE {
                    return Err(Error::OutOfBounds);
                }
                self.memory.set(index, vx / 100);
                self.memory.set(index + 1, (vx / 10) % 10);
                self.memory.set(index + 2, vx % 10);
            },
            0x55 => {
                if index + x + 1 > MEMORY_SIZE {
                    return Err(Error::OutOfBounds);
                }
                store_registers(&mut self.memory, &self.registers, index, x);
            },
            0x65 => {
                if index + x + 1 > MEMORY_SIZE {
                    return Err(Error::OutOfBounds);
                }
                load_registers(&mut self.registers, &self.memory, index, x);
            },
            _ => {
                return self.invalid_opcode(instruction);
            },
        }
        Ok(())
    }

    /// Executes one instruction, with `random` as the byte that the
    /// random-number instruction uses. On an error nothing has changed.
    pub fn execute(&mut self, instruction: u16, random: u8) -> (result: Result<(), Error>)
        requires
            old(self).wf(),
        ensures
            final(self).wf(),
            ends_as(old(self)@, final(self)@, result, execute(old(self)@, instruction, random)),
    {
        let f = split(instruction);
        let x = f.x;
        let vx = self.registers[x];
        let vy = self.registers[f.y];
        let nn = f.nn;
        let nnn = f.nnn;
        match f.op {
            0x0 => self.run_system(instruction),
            0x1 => {
                self.jump(nnn);
                Ok(())
            },
            0x2 => {
                self.jump_subroutine(nnn);
                Ok(())
            },
            0x3 => self.skip_when(vx == nn),
            0x4 => self.skip_when(vx != nn),
            0x5 => {
                if f.n == 0 {
                    self.skip_when(vx == vy)
                } else {
                    self.invalid_opcode(instruction)
                }
            },
            0x6 => {
                self.set_register(x, nn);
                Ok(())
            },
            0x7 => {
                self.set_register(x, vx.wrapping_add(nn));
                Ok(())
            },
            0x8 => self.run_alu(instruction),
            0x9 => {
                if f.n == 0 {
                    self.skip_when(vx != vy)
                } else {
                    self.invalid_opcode(instruction)
                }
            },
            0xA => {
                self.index = nnn;
                Ok(())
            },
            0xB => {
                if self.super_chip {
                    self.jump(nn as u16 + vx as u16);
                } else {
                    let v0 = self.registers[0];
                    self.jump(nnn + v0 as u16);
                }
                Ok(())
            },
            0xC => {
                self.set_register(x, random & nn);
                Ok(())
            },
            0xD => self.run_draw(instruction),
            0xE => self.run_keys(instruction),
            _ => self.run_misc(instruction),
        }
    }

    /// Decodes and executes one instruction. The random-number instruction
    /// draws its byte from the thread's generator, so of it only this is
    /// known: the outcome is that of `execute` with some byte.
    pub fn decode(&mut self, instruction: u16) -> (result: Result<(), Error>)
        requires
            old(self).wf(),
        ensures
            final(self).wf(),
            exists|random: u8|
                ends_as(
                    old(self)@,
                    final(self)@,
                    result,
                    #[trigger] execute(old(self)@, instruction, random),
                ),
            op_of(instruction) != 0xC ==> ends_as(
                old(self)@,
                final(self)@,
                result,
                execute(old(self)@, instruction, 0),
            ),
    {
        let random = if split(instruction).op == 0xC {
            random_byte()
        } else {
            0
        };
        self.execute(instruction, random)
    }
}

/// Computes operation `n` of the arithmetic group on `vx` and `vy`: the new
/// `vx` and, where the operation has one, the flag.
pub fn alu_operation(n: u8, vx: u8, vy: u8) -> (outcome: Option<(u8, Option<bool>)>)
    ensures
        outcome == alu(n as int, vx, vy),
{
    match n {
        0x0 => Some((vy, None)),
        0x1 => Some((vx | vy, None)),
        0x2 => Some((vx & vy, None)),
        0x3 => Some((vx ^ vy, None)),
        0x4 => Some((vx.wrapping_add(vy), Some(vx as u16 + vy as u16 > 255))),
        0x5 => Some((vx.wrapping_sub(vy), Some(vx >= vy))),
        0x6 => Some((vx / 2, Some(vx % 2 == 1))),
        0x7 => Some((vy.wrapping_sub(vx), Some(vy >= vx))),
        0xE => Some(((vx % 128) * 2, Some(vx >= 128))),
        _ => None,
    }
}

/// A byte from `rand::random`, which asks the thread's generator. Nothing
/// is claimed of the byte.
#[verifier::external_body]
fn random_byte() -> (byte: u8) {
    rand::random::<u8>()
}

/// Copies `program` into memory from `PROGRAM_START` on.
fn copy_program(memory: &mut Vec<u8>, program: &Vec<u8>)
    requires
        old(memory)@.len() == 4096,
        0x200 + program@.len() <= 4096,
    ensures
        final(memory)@ == loaded_memory(old(memory)@, program@),
{
    let mut i: usize = 0;
    while i < program.len()
        invariant
            i <= program@.len() <= 4096 - 0x200,
            memory@.len() == 4096,
            forall|j: int|
                0 <= j < 4096 ==> #[trigger] memory@[j] == (if 0x200 <= j < 0x200 + i {
                    program@[j - 0x200]
                } else {
                    old(memory)@[j]
                }),
        decreases program@.len() - i,
    {
        memory.set(PROGRAM_START as usize + i, program[i]);
        i = i + 1;
    }
    assert(memory@ =~= loaded_memory(old(memory)@, program@));
}

/// Stores the registers `V0..=Vx` in memory from `index` on.
fn store_registers(memory: &mut Vec<u8>, registers: &[u8; 16], index: usize, x: usize)
    requires
        x < 16,
        index + x < old(memory)@.len(),
    ensures
        final(memory)@ == stored_memory(old(memory)@, registers@, index as int, x as int),
{
    let size = memory.len();
    let mut i: usize = 0;
    while i <= x
        invariant
            i <= x + 1,
            x < 16,
            index + x < size,
            size == memory@.len(),
            memory@.len() == old(memory)@.len(),
            forall|j: int|
                0 <= j < memory@.len() ==> #[trigger] memory@[j] == (if index <= j < index + i {
                    registers@[j - index]
                } else {
                    old(memory)@[j]
                }),
        decreases x + 1 - i,
    {
        memory.set(index + i, registers[i]);
        i = i + 1;
    }
    assert(memory@ =~= stored_memory(old(memory)@, registers@, index as int, x as int));
}

/// Loads the registers `V0..=Vx` from memory from `index` on.
fn load_registers(registers: &mut [u8; 16], memory: &Vec<u8>, index: usize, x: usize)
    requires
        x < 16,
        index + x < memory@.len(),
    ensures
        final(registers)@ == loaded_registers(old(registers)@, memory@, index as int, x as int),
{
    let size = memory.len();
    let mut i: usize = 0;
    while i <= x
        invariant
            i <= x + 1,
            x < 16,
            index + x < size,
            size == memory@.len(),
            forall|j: int|
                0 <= j < 16 ==> #[trigger] registers@[j] == (if j < i {
                    memory@[index + j]
                } else {
                    old(registers)@[j]
                }),
        decreases x + 1 - i,
    {
        registers[i] = memory[index + i];
        i = i + 1;
    }
    assert(registers@ =~= loaded_registers(old(registers)@, memory@, index as int, x as int));
}

} // verus!
