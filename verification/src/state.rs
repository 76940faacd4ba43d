//! The machine as a mathematical value, and what one instruction does to it.

use crate::framebuffer::{blank_pixels, draw_collides, draw_pixels, visible_rows};
use crate::instruction::{n_of, nn_of, nnn_of, op_of, word_of, x_of, y_of};
use crate::keypad::{lowest_key, valid_keys};
use crate::timers::count_down;
use vstd::prelude::*;

verus! {

/// Bytes of memory; addresses are `0..MEMORY_SIZE`.
pub const MEMORY_SIZE: usize = 4096;

/// The register that instructions write flags to.
pub const FLAG_REGISTER: usize = 15;

/// Address of the first glyph of the built-in font.
pub const FONT_BASE: u16 = 0x50;

/// Bytes in one glyph of the font.
pub const GLYPH_BYTES: u16 = 5;

/// Bytes in the whole font: sixteen glyphs.
pub const FONT_BYTES: usize = 80;

/// Address at which programs are loaded and execution starts.
pub const PROGRAM_START: u16 = 0x200;

/// Why the machine stopped.
#[derive(Clone, Copy, Debug, PartialEq, Eq, Structural)]
pub enum Error {
    /// The word is no instruction. `pc` is the program counter when it was
    /// decoded.
    InvalidOpcode { instruction: u16, pc: u16 },
    /// A return with no call to return from.
    StackUnderflow,
    /// An address, or arithmetic on one, left the memory window.
    OutOfBounds,
}

/// The built-in glyphs for the digits `0` to `F`, five rows each, in the
/// high four bits of every byte.
pub open spec fn font_table() -> Seq<u8> {
    seq![
        0xF0u8, 0x90, 0x90, 0x90, 0xF0,
        0x20, 0x60, 0x20, 0x20, 0x70,
        0xF0, 0x10, 0xF0, 0x80, 0xF0,
        0xF0, 0x10, 0xF0, 0x10, 0xF0,
        0x90, 0x90, 0xF0, 0x10, 0x10,
        0xF0, 0x80, 0xF0, 0x10, 0xF0,
        0xF0, 0x80, 0xF0, 0x90, 0xF0,
        0xF0, 0x10, 0x20, 0x40, 0x40,
        0xF0, 0x90, 0xF0, 0x90, 0xF0,
        0xF0, 0x90, 0xF0, 0x10, 0xF0,
        0xF0, 0x90, 0xF0, 0x90, 0x90,
        0xE0, 0x90, 0xE0, 0x90, 0xE0,
        0xF0, 0x80, 0x80, 0x80, 0xF0,
        0xE0, 0x90, 0x90, 0x90, 0xE0,
        0xF0, 0x80, 0xF0, 0x80, 0xF0,
        0xF0, 0x80, 0xF0, 0x80, 0x80,
    ]
}

/// Everything that changes while a program runs, and the mode it runs in.
#[verifier::ext_equal]
pub struct State {
    /// The 4096 bytes of memory.
    pub memory: Seq<u8>,
    /// The registers `V0` to `VF`.
    pub registers: Seq<u8>,
    /// The index register.
    pub index: u16,
    /// The program counter.
    pub pc: u16,
    /// Return addresses, the most recent call last.
    pub stack: Seq<u16>,
    /// The delay timer.
    pub delay: u8,
    /// The sound timer.
    pub sound: u8,
    /// The 2048 pixels, row by row.
    pub pixels: Seq<bool>,
    /// Whether the display changed since it was last shown.
    pub display_flag: bool,
    /// The keys that are held.
    pub keys: Set<int>,
    /// Whether the extended quirks are on; fixed when the machine is made.
    pub super_chip: bool,
}

impl State {
    /// The sizes are the machine's, and only key codes are held.
    pub open spec fn valid(self) -> bool {
        &&& self.memory.len() == 4096
        &&& self.registers.len() == 16
        &&& self.pixels.len() == 2048
        &&& valid_keys(self.keys)
    }

    /// This state with register `r` set to `v`.
    pub open spec fn with_register(self, r: int, v: u8) -> State {
        State { registers: self.registers.update(r, v), ..self }
    }

    /// This state with register `r` set to `v` and then the flag register
    /// set to 1 or 0: the flag is written last and wins where `r` is `VF`.
    pub open spec fn with_result(self, r: int, v: u8, flag: bool) -> State {
        State { registers: self.registers.update(r, v).update(15, flag_byte(flag)), ..self }
    }

    /// This state with the program counter at `pc`.
    pub open spec fn with_pc(self, pc: u16) -> State {
        State { pc, ..self }
    }
}

/// A flag as the byte that the flag register holds.
pub open spec fn flag_byte(flag: bool) -> u8 {
    if flag {
        1
    } else {
        0
    }
}

/// The machine as it is made: memory zero but for the font, registers and
/// timers zero, an empty stack, a blank display, no key held, and the
/// program counter at the start of the program area.
pub open spec fn initial_state(super_chip: bool) -> State {
    State {
        memory: Seq::new(
            4096,
            |i: int|
                if 0x50 <= i < 0xA0 {
                    font_table()[i - 0x50]
                } else {
                    0u8
                },
        ),
        registers: Seq::new(16, |i: int| 0u8),
        index: 0,
        pc: 0x200,
        stack: Seq::empty(),
        delay: 0,
        sound: 0,
        pixels: blank_pixels(),
        display_flag: false,
        keys: Set::empty(),
        super_chip,
    }
}

/// Memory with `program` copied in from address `0x200` on.
pub open spec fn loaded_memory(memory: Seq<u8>, program: Seq<u8>) -> Seq<u8> {
    Seq::new(
        memory.len(),
        |i: int|
            if 0x200 <= i < 0x200 + program.len() {
                program[i - 0x200]
            } else {
                memory[i]
            },
    )
}

/// Loading a program: it must fit between `0x200` and the end of memory.
pub open spec fn load(s: State, program: Seq<u8>) -> Result<State, Error> {
    if 0x200 + program.len() > 4096 {
        Err(Error::OutOfBounds)
    } else {
        Ok(State { memory: loaded_memory(s.memory, program), ..s })
    }
}

/// Fetching: the word at the program counter, which moves past it. The two
/// bytes must lie inside memory.
pub open spec fn fetch(s: State) -> Result<(State, u16), Error> {
    if s.pc + 2 > 4096 {
        Err(Error::OutOfBounds)
    } else {
        Ok(
            (
                s.with_pc((s.pc + 2) as u16),
                word_of(s.memory[s.pc as int], s.memory[s.pc as int + 1]),
            ),
        )
    }
}

/// The error for a word that is no instruction.
pub open spec fn invalid(s: State, w: u16) -> Result<State, Error> {
    Err(Error::InvalidOpcode { instruction: w, pc: s.pc })
}

/// Skipping the next instruction where `taken` holds.
pub open spec fn skip_if(s: State, taken: bool) -> Result<State, Error> {
    if !taken {
        Ok(s)
    } else if s.pc + 2 > 0xFFFF {
        Err(Error::OutOfBounds)
    } else {
        Ok(s.with_pc((s.pc + 2) as u16))
    }
}

/// The group `0`: clear the display, or return from a call.
pub open spec fn execute_system(s: State, w: u16) -> Result<State, Error> {
    if w == 0x00E0 {
        Ok(State { pixels: blank_pixels(), display_flag: true, ..s })
    } else if w == 0x00EE {
        if s.stack.len() == 0 {
            Err(Error::StackUnderflow)
        } else {
            Ok(State { pc: s.stack.last(), stack: s.stack.drop_last(), ..s })
        }
    } else {
        invalid(s, w)
    }
}

/// What operation `n` of the group `8` makes of `vx` and `vy`: the new
/// `vx` and, where the operation has one, the flag. The flag is 1 on a carry
/// out of an addition, where a subtraction needs no borrow, and for the bit
/// that a shift pushes out; shifts work on `vx` alone. `None` where `n`
/// names no operation.
pub open spec fn alu(n: int, vx: u8, vy: u8) -> Option<(u8, Option<bool>)> {
    if n == 0 {
        Some((vy, None))
    } else if n == 1 {
        Some((vx | vy, None))
    } else if n == 2 {
        Some((vx & vy, None))
    } else if n == 3 {
        Some((vx ^ vy, None))
    } else if n == 4 {
        Some((((vx + vy) % 256) as u8, Some(vx + vy > 255)))
    } else if n == 5 {
        Some((((vx - vy) % 256) as u8, Some(vx >= vy)))
    } else if n == 6 {
        Some((vx / 2, Some(vx % 2 == 1)))
    } else if n == 7 {
        Some((((vy - vx) % 256) as u8, Some(vy >= vx)))
    } else if n == 0xE {
        Some((((vx * 2) % 256) as u8, Some(vx >= 128)))
    } else {
        None
    }
}

/// The group `8`: arithmetic and logic on `vx` and `vy`. The operands are
/// read before anything is written, and the flag is written last.
pub open spec fn execute_alu(s: State, w: u16) -> Result<State, Error> {
    let x = x_of(w);
    match alu(n_of(w), s.registers[x], s.registers[y_of(w)]) {
        Some((value, Some(flag))) => Ok(s.with_result(x, value, flag)),
        Some((value, None)) => Ok(s.with_register(x, value)),
        None => invalid(s, w),
    }
}

/// The group `D`: draw the sprite at the index register, `n` rows tall, at
/// column `vx mod 64` and row `vy mod 32`. The rows that lie on the display
/// must lie inside memory.
pub open spec fn execute_draw(s: State, w: u16) -> Result<State, Error> {
    let x0 = s.registers[x_of(w)] as int % 64;
    let y0 = s.registers[y_of(w)] as int % 32;
    let n = n_of(w);
    let rows = visible_rows(y0, n);
    if rows > 0 && s.index + rows > 4096 {
        Err(Error::OutOfBounds)
    } else {
        Ok(
            State {
                pixels: draw_pixels(s.pixels, s.memory, s.index as int, x0, y0, n),
                registers: s.registers.update(
                    15,
                    flag_byte(draw_collides(s.pixels, s.memory, s.index as int, x0, y0, n)),
                ),
                display_flag: true,
                ..s
            },
        )
    }
}

/// The group `E`: skip on whether the key `vx` is held.
pub open spec fn execute_keys(s: State, w: u16) -> Result<State, Error> {
    let vx = s.registers[x_of(w)];
    if nn_of(w) == 0x9E {
        skip_if(s, s.keys.contains(vx as int))
    } else if nn_of(w) == 0xA1 {
        skip_if(s, !s.keys.contains(vx as int))
    } else {
        invalid(s, w)
    }
}

/// The decimal digits of `v`: hundreds, tens, ones.
pub open spec fn bcd(v: u8) -> Seq<u8> {
    seq![v / 100, (v / 10) % 10, v % 10]
}

/// Memory with the registers `V0..=Vx` stored from `index` on.
pub open spec fn stored_memory(memory: Seq<u8>, registers: Seq<u8>, index: int, x: int) -> Seq<u8> {
    Seq::new(
        memory.len(),
        |i: int|
            if index <= i <= index + x {
                registers[i - index]
            } else {
                memory[i]
            },
    )
}

/// The registers with `V0..=Vx` loaded from `index` on.
pub open spec fn loaded_registers(registers: Seq<u8>, memory: Seq<u8>, index: int, x: int) -> Seq<
    u8,
> {
    Seq::new(
        registers.len(),
        |i: int|
            if i <= x {
                memory[index + i]
            } else {
                registers[i]
            },
    )
}

/// The group `F`: timers, the key wait, and the index register with what
/// it points to.
pub open spec fn execute_misc(s: State, w: u16) -> Result<State, Error> {
    let x = x_of(w);
    let vx = s.registers[x];
    let nn = nn_of(w);
    if nn == 0x07 {
        Ok(s.with_register(x, s.delay))
    } else if nn == 0x0A {
        match lowest_key(s.keys) {
            None => if s.pc < 2 {
                Err(Error::OutOfBounds)
            } else {
                Ok(s.with_pc((s.pc - 2) as u16))
            },
            Some(k) => Ok(s.with_register(x, k as u8)),
        }
    } else if nn == 0x15 {
        Ok(State { delay: vx, ..s })
    } else if nn == 0x18 {
        Ok(State { sound: vx, ..s })
    } else if nn == 0x1E {
        if s.index + vx > 0xFFFF {
            Err(Error::OutOfBounds)
        } else {
            Ok(State { index: (s.index + vx) as u16, ..s })
        }
    } else if nn == 0x29 {
        Ok(State { index: (0x50 + vx * 5) as u16, ..s })
    } else if nn == 0x33 {
        if s.index + 3 > 4096 {
            Err(Error::OutOfBounds)
        } else {
            Ok(
                State {
                    memory: s.memory.update(s.index as int, bcd(vx)[0]).update(
                        s.index + 1,
                        bcd(vx)[1],
                    ).update(s.index + 2, bcd(vx)[2]),
                    ..s
                },
            )
        }
    } else if nn == 0x55 {
        if s.index + x + 1 > 4096 {
            Err(Error::OutOfBounds)
        } else {
            Ok(State { memory: stored_memory(s.memory, s.registers, s.index as int, x), ..s })
        }
    } else if nn == 0x65 {
        if s.index + x + 1 > 4096 {
            Err(Error::OutOfBounds)
        } else {
            Ok(State { registers: loaded_registers(s.registers, s.memory, s.index as int, x), ..s })
        }
    } else {
        invalid(s, w)
    }
}

/// What the instruction `w` does to the state `s`, where `random` is the
/// byte that chance supplies to the one instruction that asks for it. An
/// error leaves the state as it was.
pub open spec fn execute(s: State, w: u16, random: u8) -> Result<State, Error> {
    let op = op_of(w);
    let x = x_of(w);
    let vx = s.registers[x];
    let vy = s.registers[y_of(w)];
    let nn = nn_of(w);
    let nnn = nnn_of(w);
    if op == 0x0 {
        execute_system(s, w)
    } else if op == 0x1 {
        Ok(s.with_pc(nnn))
    } else if op == 0x2 {
        Ok(State { stack: s.stack.push(s.pc), pc: nnn, ..s })
    } else if op == 0x3 {
        skip_if(s, vx == nn)
    } else if op == 0x4 {
        skip_if(s, vx != nn)
    } else if op == 0x5 {
        if n_of(w) == 0 {
            skip_if(s, vx == vy)
        } else {
            invalid(s, w)
        }
    } else if op == 0x6 {
        Ok(s.with_register(x, nn))
    } else if op == 0x7 {
        Ok(s.with_register(x, ((vx + nn) % 256) as u8))
    } else if op == 0x8 {
        execute_alu(s, w)
    } else if op == 0x9 {
        if n_of(w) == 0 {
            skip_if(s, vx != vy)
        } else {
            invalid(s, w)
        }
    } else if op == 0xA {
        Ok(State { index: nnn, ..s })
    } else if op == 0xB {
        if s.super_chip {
            Ok(s.with_pc((nn + vx) as u16))
        } else {
            Ok(s.with_pc((nnn + s.registers[0]) as u16))
        }
    } else if op == 0xC {
        Ok(s.with_register(x, random & nn))
    } else if op == 0xD {
        execute_draw(s, w)
    } else if op == 0xE {
        execute_keys(s, w)
    } else {
        execute_misc(s, w)
    }
}

/// One cycle of the driver: fetch, then execute what was fetched.
pub open spec fn cycle(s: State, random: u8) -> Result<State, Error> {
    match fetch(s) {
        Ok((fetched, w)) => execute(fetched, w, random),
        Err(e) => Err(e),
    }
}

/// One tick of the timers.
pub open spec fn tick(s: State) -> State {
    State { delay: count_down(s.delay), sound: count_down(s.sound), ..s }
}

/// How a call that may fail ends: with the new state, or with the error and
/// the state it found.
pub open spec fn ends_as(
    before: State,
    after: State,
    result: Result<(), Error>,
    expected: Result<State, Error>,
) -> bool {
    match expected {
        Ok(s) => result is Ok && after == s,
        Err(e) => result == Err::<(), Error>(e) && after == before,
    }
}

} // verus!
