//! What holds of the machine for every state and every instruction.

use crate::framebuffer::{
    blank_pixels, collides_before, draw_collides, draw_pixels, sprite_at,
};
use crate::keypad::{lemma_lowest_key, lowest_key};
use crate::instruction::{n_of, op_of, word_of, x_of, y_of};
use crate::state::{cycle, execute, fetch, tick, Error, State};
use crate::timers::{count_down_by, lemma_count_down_by};
use vstd::prelude::*;

verus! {

/// Running one cycle for each byte of `randoms`, in order, stopping at the
/// first error.
pub open spec fn cycles(s: State, randoms: Seq<u8>) -> Result<State, Error>
    decreases randoms.len(),
{
    if randoms.len() == 0 {
        Ok(s)
    } else {
        match cycle(s, randoms[0]) {
            Ok(next) => cycles(next, randoms.subrange(1, randoms.len() as int)),
            Err(e) => Err(e),
        }
    }
}

/// The state after `n` timer ticks.
pub open spec fn ticks(s: State, n: nat) -> State
    decreases n,
{
    if n == 0 {
        s
    } else {
        ticks(tick(s), (n - 1) as nat)
    }
}

/// An instruction leaves a valid state valid, and changes neither the mode
/// nor the held keys.
pub proof fn law_execute_keeps_shape(s: State, w: u16, random: u8)
    requires
        s.valid(),
    ensures
        execute(s, w, random) matches Ok(next) ==> next.valid() && next.super_chip == s.super_chip
            && next.keys == s.keys,
{
}

/// Fetching changes the program counter only, and by two.
pub proof fn law_fetch_advances(s: State)
    requires
        s.valid(),
    ensures
        fetch(s) matches Ok((next, w)) ==> next == s.with_pc((s.pc + 2) as u16) && s.pc + 2
            <= 4096,
        fetch(s) is Err <==> s.pc + 2 > 4096,
{
}

/// Loading a register with `6xnn` and then adding one to it with `7x01`
/// leaves `nn + 1` in it, with `0xFF + 1` wrapping to `0`; all else but the
/// program counter, which has moved past both, is as before: the flag
/// register is not touched.
pub proof fn law_load_then_increment(s: State, x: int, nn: u8, random1: u8, random2: u8)
    requires
        s.valid(),
        0 <= x < 16,
        s.pc + 4 <= 4096,
        s.memory[s.pc as int] == 0x60 + x,
        s.memory[s.pc + 1] == nn,
        s.memory[s.pc + 2] == 0x70 + x,
        s.memory[s.pc + 3] == 0x01,
    ensures
        cycle(s, random1) matches Ok(loaded) && cycle(loaded, random2) == Ok::<State, Error>(
            State {
                registers: s.registers.update(x, ((nn + 1) % 256) as u8),
                pc: (s.pc + 4) as u16,
                ..s
            },
        ),
{
    let w1 = word_of(s.memory[s.pc as int], s.memory[s.pc + 1]);
    assert(op_of(w1) == 6 && x_of(w1) == x);
    let loaded = cycle(s, random1)->Ok_0;
    let w2 = word_of(loaded.memory[loaded.pc as int], loaded.memory[loaded.pc + 1]);
    assert(op_of(w2) == 7 && x_of(w2) == x);
    let after = cycle(loaded, random2)->Ok_0;
    assert(after.registers =~= s.registers.update(x, ((nn + 1) % 256) as u8));
}

/// `3xnn` skips the next instruction exactly when register `x` holds `nn`:
/// fetching and executing it moves the program counter by four where it
/// does, by two where it does not, and changes nothing else.
pub proof fn law_skip_if_equal(s: State, x: int, nn: u8, random: u8)
    requires
        s.valid(),
        0 <= x < 16,
        s.pc + 2 <= 4096,
        s.memory[s.pc as int] == 0x30 + x,
        s.memory[s.pc + 1] == nn,
    ensures
        cycle(s, random) == Ok::<State, Error>(
            s.with_pc(
                (s.pc + if s.registers[x] == nn {
                    4int
                } else {
                    2int
                }) as u16,
            ),
        ),
{
    let w = word_of(s.memory[s.pc as int], s.memory[s.pc + 1]);
    assert(op_of(w) == 3 && x_of(w) == x);
}

/// Drawing on a blank display turns on exactly the pixels under the set
/// bits of the sprite, and reports no collision.
pub proof fn law_draw_on_blank(memory: Seq<u8>, start: int, x0: int, y0: int, n: int)
    ensures
        !draw_collides(blank_pixels(), memory, start, x0, y0, n),
        draw_pixels(blank_pixels(), memory, start, x0, y0, n) == Seq::new(
            2048,
            |i: int| sprite_at(memory, start, x0, y0, n, i),
        ),
{
    assert(draw_pixels(blank_pixels(), memory, start, x0, y0, n) =~= Seq::new(
        2048,
        |i: int| sprite_at(memory, start, x0, y0, n, i),
    ));
}

/// Drawing the same sprite twice at the same place gives back the display
/// as it was. The second draw reports a collision exactly when the first
/// turned some pixel on.
pub proof fn law_draw_twice(pixels: Seq<bool>, memory: Seq<u8>, start: int, x0: int, y0: int, n: int)
    requires
        pixels.len() == 2048,
    ensures
        draw_pixels(draw_pixels(pixels, memory, start, x0, y0, n), memory, start, x0, y0, n)
            == pixels,
        draw_collides(draw_pixels(pixels, memory, start, x0, y0, n), memory, start, x0, y0, n)
            <==> exists|i: int|
            0 <= i < 2048 && !pixels[i] && #[trigger] sprite_at(memory, start, x0, y0, n, i),
{
    let once = draw_pixels(pixels, memory, start, x0, y0, n);
    assert(draw_pixels(once, memory, start, x0, y0, n) =~= pixels);
    if draw_collides(once, memory, start, x0, y0, n) {
        let i = choose|i: int|
            0 <= i < 2048 && i < 2048 && once[i] && #[trigger] sprite_at(
                memory,
                start,
                x0,
                y0,
                n,
                i,
            );
        assert(!pixels[i] && sprite_at(memory, start, x0, y0, n, i));
    }
    if exists|i: int|
        0 <= i < 2048 && !pixels[i] && #[trigger] sprite_at(memory, start, x0, y0, n, i) {
        let i = choose|i: int|
            0 <= i < 2048 && !pixels[i] && #[trigger] sprite_at(memory, start, x0, y0, n, i);
        assert(0 <= i < 2048 && i < 2048 && once[i] && sprite_at(memory, start, x0, y0, n, i));
        assert(collides_before(once, memory, start, x0, y0, n, 2048));
    }
}

/// The sprite that the draw instruction `w` draws in state `s`, as the set
/// bit it has, or has not, on pixel `i`.
pub open spec fn drawn_sprite_at(s: State, w: u16, i: int) -> bool {
    sprite_at(
        s.memory,
        s.index as int,
        s.registers[x_of(w)] as int % 64,
        s.registers[y_of(w)] as int % 32,
        n_of(w),
        i,
    )
}

/// A draw instruction on a blank display lights exactly the pixels under
/// the set bits of its sprite, clears the flag register and raises the
/// display flag; nothing else changes.
pub proof fn law_draw_instruction_on_blank(s: State, w: u16, random: u8)
    requires
        s.valid(),
        op_of(w) == 0xD,
        s.pixels == blank_pixels(),
        execute(s, w, random) is Ok,
    ensures
        execute(s, w, random) == Ok::<State, Error>(
            State {
                pixels: Seq::new(2048, |i: int| drawn_sprite_at(s, w, i)),
                registers: s.registers.update(15, 0),
                display_flag: true,
                ..s
            },
        ),
{
    let x0 = s.registers[x_of(w)] as int % 64;
    let y0 = s.registers[y_of(w)] as int % 32;
    law_draw_on_blank(s.memory, s.index as int, x0, y0, n_of(w));
    let drawn = execute(s, w, random)->Ok_0;
    assert(drawn.pixels =~= Seq::new(2048, |i: int| drawn_sprite_at(s, w, i)));
}

/// The same draw instruction twice, with coordinates that are not taken
/// from the flag register, leaves the display as it was before the first.
/// After the second the flag register holds 1 exactly when the first lit
/// some pixel: two full rows drawn on the same place of a blank display
/// cancel, with the flag raised.
pub proof fn law_draw_instruction_twice(s: State, w: u16, random1: u8, random2: u8)
    requires
        s.valid(),
        op_of(w) == 0xD,
        x_of(w) != 15,
        y_of(w) != 15,
        execute(s, w, random1) is Ok,
    ensures
        execute(s, w, random1) matches Ok(once) && execute(once, w, random2) matches Ok(twice)
            && twice.pixels == s.pixels && (twice.registers[15] == 1 <==> exists|i: int|
            0 <= i < 2048 && !s.pixels[i] && #[trigger] drawn_sprite_at(s, w, i)) && twice
            == (State { registers: twice.registers, display_flag: true, ..s }),
{
    let x0 = s.registers[x_of(w)] as int % 64;
    let y0 = s.registers[y_of(w)] as int % 32;
    law_draw_twice(s.pixels, s.memory, s.index as int, x0, y0, n_of(w));
    let once = execute(s, w, random1)->Ok_0;
    let twice = execute(once, w, random2)->Ok_0;
    if exists|i: int|
        0 <= i < 2048 && !s.pixels[i] && #[trigger] sprite_at(
            s.memory,
            s.index as int,
            x0,
            y0,
            n_of(w),
            i,
        ) {
        let i = choose|i: int|
            0 <= i < 2048 && !s.pixels[i] && #[trigger] sprite_at(
                s.memory,
                s.index as int,
                x0,
                y0,
                n_of(w),
                i,
            );
        assert(drawn_sprite_at(s, w, i));
    }
    if exists|i: int| 0 <= i < 2048 && !s.pixels[i] && #[trigger] drawn_sprite_at(s, w, i) {
        let i = choose|i: int|
            0 <= i < 2048 && !s.pixels[i] && #[trigger] drawn_sprite_at(s, w, i);
        assert(sprite_at(s.memory, s.index as int, x0, y0, n_of(w), i));
    }
}

/// `n` ticks lower each timer by `n`, stopping at zero, and change nothing
/// else: a timer at 5 is at 0 after five ticks and still at 0 after a sixth.
pub proof fn law_ticks_count_down(s: State, n: nat)
    ensures
        ticks(s, n) == (State {
            delay: count_down_by(s.delay, n),
            sound: count_down_by(s.sound, n),
            ..s
        }),
        count_down_by(s.delay, n) == (if n >= s.delay {
            0
        } else {
            s.delay - n
        }),
        count_down_by(s.sound, n) == (if n >= s.sound {
            0
        } else {
            s.sound - n
        }),
    decreases n,
{
    lemma_count_down_by(s.delay, n);
    lemma_count_down_by(s.sound, n);
    if n > 0 {
        law_ticks_count_down(tick(s), (n - 1) as nat);
    }
}

/// While no key is held, the key wait `Fx0A` leaves the machine exactly as
/// it found it, program counter included, for any number of cycles.
pub proof fn law_key_wait_blocks(s: State, x: int, randoms: Seq<u8>)
    requires
        s.valid(),
        0 <= x < 16,
        s.pc + 2 <= 4096,
        s.memory[s.pc as int] == 0xF0 + x,
        s.memory[s.pc + 1] == 0x0A,
        forall|k: int| 0 <= k < 16 ==> !s.keys.contains(k),
    ensures
        cycles(s, randoms) == Ok::<State, Error>(s),
    decreases randoms.len(),
{
    if randoms.len() > 0 {
        let w = word_of(s.memory[s.pc as int], s.memory[s.pc + 1]);
        assert(op_of(w) == 15 && x_of(w) == x);
        lemma_lowest_key(s.keys);
        assert(lowest_key(s.keys) is None);
        assert(cycle(s, randoms[0]) == Ok::<State, Error>(s));
        law_key_wait_blocks(s, x, randoms.subrange(1, randoms.len() as int));
    }
}

/// Once a key is held, the key wait `Fx0A` goes on: the program counter has
/// moved past it and register `x` holds the key's code, the lowest where
/// several are held.
pub proof fn law_key_wait_takes_key(s: State, x: int, key: int, random: u8)
    requires
        s.valid(),
        0 <= x < 16,
        s.pc + 2 <= 4096,
        s.memory[s.pc as int] == 0xF0 + x,
        s.memory[s.pc + 1] == 0x0A,
        s.keys.contains(key),
        forall|k: int| 0 <= k < key ==> !s.keys.contains(k),
    ensures
        cycle(s, random) == Ok::<State, Error>(
            State { registers: s.registers.update(x, key as u8), pc: (s.pc + 2) as u16, ..s },
        ),
{
    let w = word_of(s.memory[s.pc as int], s.memory[s.pc + 1]);
    assert(op_of(w) == 15 && x_of(w) == x);
    lemma_lowest_key(s.keys);
    assert(lowest_key(s.keys) == Some(key));
}

/// Storing `V0..=Vx` with `Fx55` and loading them back with `Fx65` from the
/// same address restores them, whatever the registers held in between.
pub proof fn law_store_then_load(s: State, x: int, between: State, random1: u8, random2: u8)
    requires
        s.valid(),
        0 <= x < 16,
        s.index + x < 4096,
        between.valid(),
        execute(s, word_of((0xF0 + x) as u8, 0x55), random1) matches Ok(stored) && between.memory
            == stored.memory,
        between.index == s.index,
    ensures
        execute(between, word_of((0xF0 + x) as u8, 0x65), random2) matches Ok(loaded) && forall|
            i: int,
        |
            0 <= i <= x ==> loaded.registers[i] == s.registers[i],
{
    let store = word_of((0xF0 + x) as u8, 0x55);
    let load = word_of((0xF0 + x) as u8, 0x65);
    assert(op_of(store) == 15 && x_of(store) == x);
    assert(op_of(load) == 15 && x_of(load) == x);
}

} // verus!
