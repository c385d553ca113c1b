//! Machine-wide laws of the execution engine, stated and proved over the
//! specification-level transition function: facts that hold of every
//! machine state, not of one chosen input.

use vstd::prelude::*;

use crate::cpu::CpuView;
use crate::cpu::spec_fetch;
use crate::cpu::spec_step;
use crate::cpu::spec_tick_timers;
use crate::cpu::spec_exec_cls;
use crate::cpu::spec_draw_display;
use crate::cpu::spec_draw_collision;
use crate::cpu::spec_sprite_bit;
use crate::cpu::spec_first_key_from;
use crate::decoder::Instruction;
use crate::decoder::spec_decode;

verus! {

/// A jump lands exactly where it points: for every address `nnn` below
/// 0x1000, executing the opcode `0x1000 | nnn` succeeds and leaves the
/// program counter equal to `nnn`.
pub proof fn lemma_jump_sets_pc(s: CpuView, rand: u8, nnn: u16)
    requires
        s.wf(),
        s.pc < 4095,
        nnn < 0x1000,
        spec_fetch(s) == 0x1000 | nnn,
    ensures
        spec_step(s, rand).1 is Ok,
        spec_step(s, rand).0.pc == nnn,
{
    assert(0x1000 | nnn == 0x1000 + nnn) by (bit_vector)
        requires
            nnn < 0x1000,
    ;
}

/// The XOR round trip of sprite drawing: with `mid` holding the framebuffer
/// a first draw produced (same memory and index register, so the same
/// sprite), drawing the sprite again returns every cell to its original
/// value; and the second draw reports a collision exactly when the first
/// draw lit some cell, i.e. put a set sprite bit on a dark cell.
pub proof fn lemma_draw_twice_restores(s: CpuView, mid: CpuView, sx: u8, sy: u8, n: u8)
    requires
        s.wf(),
        mid.memory == s.memory,
        mid.i == s.i,
        mid.display == spec_draw_display(s, sx, sy, n),
    ensures
        spec_draw_display(mid, sx, sy, n) =~= s.display,
        spec_draw_collision(mid, sx, sy, n) <==> exists|p: int|
            0 <= p < 2048 && #[trigger] spec_sprite_bit(
                s.memory,
                s.i as int,
                n as int,
                sx,
                sy,
                p % 64,
                p / 64,
            ) && s.display[p] == 0,
{
    assert forall|p: int| 0 <= p < 2048 implies spec_draw_display(mid, sx, sy, n)[p]
        == s.display[p] by {
        assert(mid.display[p] == spec_draw_display(s, sx, sy, n)[p]);
    }
    if spec_draw_collision(mid, sx, sy, n) {
        let p = choose|p: int|
            0 <= p < 2048 && #[trigger] spec_sprite_bit(
                mid.memory,
                mid.i as int,
                n as int,
                sx,
                sy,
                p % 64,
                p / 64,
            ) && mid.display[p] == 1;
        assert(s.display[p] == 0);
    }
    if exists|p: int|
        0 <= p < 2048 && #[trigger] spec_sprite_bit(
            s.memory,
            s.i as int,
            n as int,
            sx,
            sy,
            p % 64,
            p / 64,
        ) && s.display[p] == 0 {
        let p = choose|p: int|
            0 <= p < 2048 && #[trigger] spec_sprite_bit(
                s.memory,
                s.i as int,
                n as int,
                sx,
                sy,
                p % 64,
                p / 64,
            ) && s.display[p] == 0;
        assert(mid.display[p] == 1);
        assert(spec_draw_collision(mid, sx, sy, n));
    }
}

/// The clear round trip: clearing the screen, drawing any sprite on it, and
/// clearing again leaves every framebuffer cell dark.
pub proof fn lemma_cls_draw_cls_round_trip(s: CpuView, sx: u8, sy: u8, n: u8)
    ensures
        ({
            let cleared = spec_exec_cls(s);
            let drawn = CpuView { display: spec_draw_display(cleared, sx, sy, n), ..cleared };
            forall|p: int| 0 <= p < 2048 ==> spec_exec_cls(drawn).display[p] == 0
        }),
{
}

/// Timers never race ahead or underflow: an executed cycle of any
/// instruction that does not itself load a timer counts each timer down by
/// exactly one, and a timer already at zero stays at zero.
pub proof fn lemma_timer_tick(s: CpuView, rand: u8)
    requires
        s.wf(),
        spec_step(s, rand).1 is Ok,
        !(spec_decode(spec_fetch(s)) matches Instruction::SetDt { .. }),
        !(spec_decode(spec_fetch(s)) matches Instruction::SetSt { .. }),
    ensures
        spec_step(s, rand).0.dt == if s.dt > 0 {
            (s.dt - 1) as u8
        } else {
            0u8
        },
        spec_step(s, rand).0.st == if s.st > 0 {
            (s.st - 1) as u8
        } else {
            0u8
        },
{
}

/// Only `Cxkk` consults the random byte: a cycle over any other fetched
/// instruction is the same transition whatever byte the random source
/// produced.
pub proof fn lemma_step_ignores_random(s: CpuView, r1: u8, r2: u8)
    requires
        !(spec_decode(spec_fetch(s)) matches Instruction::Rnd { .. }),
    ensures
        spec_step(s, r1) == spec_step(s, r2),
{
}

/// The only pressed key `spec_first_key_from` can miss is one below its
/// starting index: from `j`, it answers `None` exactly when no key at or
/// above `j` is down, and otherwise the lowest such key.
pub proof fn lemma_first_key_from(keys: Seq<bool>, j: int)
    requires
        0 <= j <= 16,
        keys.len() == 16,
    ensures
        (spec_first_key_from(keys, j) is None) <==> (forall|k: int| j <= k < 16 ==> !keys[k]),
        spec_first_key_from(keys, j) matches Some(k0) ==> j <= k0 < 16 && keys[k0 as int] && (
        forall|k: int| j <= k < k0 ==> !keys[k]),
    decreases 16 - j,
{
    if j < 16 {
        lemma_first_key_from(keys, j + 1);
    }
}

/// The key-wait instruction blocks by standing still: executing `Fx0A` with
/// no key down changes nothing but the timers - the program counter, every
/// register, memory and the framebuffer are exactly as they were, so the
/// same instruction is fetched again on the next cycle. Once a key is down,
/// the lowest pressed key's index lands in `Vx` and the program counter
/// moves on by exactly two.
pub proof fn lemma_wait_key_blocks(s: CpuView, rand: u8, x: u8)
    requires
        s.wf(),
        s.pc < 4095,
        x < 16,
        spec_decode(spec_fetch(s)) == (Instruction::WaitKey { x }),
    ensures
        spec_step(s, rand).1 is Ok,
        (forall|k: int| 0 <= k < 16 ==> !s.keys[k]) ==> spec_step(s, rand).0 == spec_tick_timers(
            s,
        ),
        (exists|k: int| 0 <= k < 16 && s.keys[k]) ==> ({
            let k0 = spec_first_key_from(s.keys, 0)->Some_0;
            &&& spec_first_key_from(s.keys, 0) is Some
            &&& k0 < 16
            &&& s.keys[k0 as int]
            &&& (forall|k: int| 0 <= k < k0 ==> !s.keys[k])
            &&& spec_step(s, rand).0 == spec_tick_timers(
                CpuView { v: s.v.update(x as int, k0), pc: (s.pc + 2) as u16, ..s },
            )
        }),
{
    lemma_first_key_from(s.keys, 0);
    if forall|k: int| 0 <= k < 16 ==> !s.keys[k] {
        assert(spec_step(s, rand).0 =~= spec_tick_timers(s));
    } else {
        let kw = choose|k: int| 0 <= k < 16 && s.keys[k];
        assert(s.keys[kw]);
        assert(spec_first_key_from(s.keys, 0) is Some);
    }
}

} // verus!
