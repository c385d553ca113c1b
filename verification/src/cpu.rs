//! The machine state and the execution engine.
//!
//! [`Cpu`] holds the whole state of one machine: 4096 bytes of memory,
//! sixteen 8-bit registers, the 16-bit index register and program counter, a
//! sixteen-entry call stack, the delay and sound timers, the sixteen-key
//! keypad, and the 64x32 framebuffer stored row-major as one byte per pixel.
//!
//! The meaning of every instruction is stated once, by the specification
//! functions around [`spec_step`], over the mathematical view [`CpuView`] of
//! the state. The executable engine ([`Cpu::emulate_cycle`] and
//! [`Cpu::step_with_random`]) is proved to follow that transition function
//! exactly.

use vstd::prelude::*;
use vstd::arithmetic::div_mod::lemma_fundamental_div_mod;

use crate::decoder::Instruction;
use crate::decoder::spec_decode;
use crate::decoder::decode;
use crate::decoder::lemma_decode_fields;
use crate::decoder::instr_fields_wf;
use crate::emulate_cycle_error::EmulateCycleError;
use crate::rng::random_byte;

verus! {

/// The machine state.
///
/// Every field is public, as the host is free to inspect registers and the
/// framebuffer, to preload memory, and to press and release keys. The
/// execution engine requires the state to be well formed ([`Cpu::wf`]): the
/// collections have their fixed machine sizes, the stack pointer is in
/// range, and every framebuffer cell is 0 or 1.
pub struct Cpu {
    /// 4096 bytes of memory; the font table sits at 0x050..0x0A0 and a
    /// loaded program at 0x200 upward.
    pub memory: Vec<u8>,
    /// The program counter; it addresses the next two-byte opcode.
    pub pc: u16,
    /// The sixteen general-purpose registers V0..VF. VF doubles as the flag
    /// output of the arithmetic, shift and draw instructions.
    pub v: Vec<u8>,
    /// The index register, used as a memory pointer.
    pub i: u16,
    /// The call stack: sixteen return addresses. Slot 0 is never used; the
    /// stack pointer names the top entry, so entries 1..=sp are live.
    pub stack: Vec<u16>,
    /// The stack pointer: 0 when the stack is empty, at most 15.
    pub sp: u8,
    /// The 64x32 framebuffer, row-major (`index = x + y * 64`), one byte per
    /// pixel, each 0 or 1.
    pub display: Vec<u8>,
    /// The delay timer; counts down to 0, one tick per executed cycle.
    pub dt: u8,
    /// The sound timer; counts down to 0, one tick per executed cycle.
    pub st: u8,
    /// The keypad: pressed state of keys 0x0..=0xF, written by the host.
    pub keys: Vec<bool>,
}

/// The mathematical view of a machine state: the same fields, with every
/// collection a sequence.
#[verifier::ext_equal]
pub ghost struct CpuView {
    /// View of [`Cpu::memory`].
    pub memory: Seq<u8>,
    /// View of [`Cpu::pc`].
    pub pc: u16,
    /// View of [`Cpu::v`].
    pub v: Seq<u8>,
    /// View of [`Cpu::i`].
    pub i: u16,
    /// View of [`Cpu::stack`].
    pub stack: Seq<u16>,
    /// View of [`Cpu::sp`].
    pub sp: u8,
    /// View of [`Cpu::display`].
    pub display: Seq<u8>,
    /// View of [`Cpu::dt`].
    pub dt: u8,
    /// View of [`Cpu::st`].
    pub st: u8,
    /// View of [`Cpu::keys`].
    pub keys: Seq<bool>,
}

impl View for Cpu {
    type V = CpuView;

    open spec fn view(&self) -> CpuView {
        CpuView {
            memory: self.memory@,
            pc: self.pc,
            v: self.v@,
            i: self.i,
            stack: self.stack@,
            sp: self.sp,
            display: self.display@,
            dt: self.dt,
            st: self.st,
            keys: self.keys@,
        }
    }
}

impl CpuView {
    /// A well-formed machine state: the collections have their fixed machine
    /// sizes, the stack pointer is in range, and every framebuffer cell is 0
    /// or 1. Every engine entry point preserves this.
    pub open spec fn wf(self) -> bool {
        &&& self.memory.len() == 4096
        &&& self.v.len() == 16
        &&& self.stack.len() == 16
        &&& self.sp <= 15
        &&& self.display.len() == 2048
        &&& self.keys.len() == 16
        &&& forall|p: int| 0 <= p < 2048 ==> self.display[p] == 0 || self.display[p] == 1
    }
}

/// The 80-byte font table: sixteen glyphs of five rows each, one glyph per
/// hexadecimal digit, each row an 8-bit bitmap using the high four bits.
pub open spec fn font_set() -> Seq<u8> {
    seq![
        0xF0u8, 0x90, 0x90, 0x90, 0xF0, // 0
        0x20, 0x60, 0x20, 0x20, 0x70, // 1
        0xF0, 0x10, 0xF0, 0x80, 0xF0, // 2
        0xF0, 0x10, 0xF0, 0x10, 0xF0, // 3
        0x90, 0x90, 0xF0, 0x10, 0x10, // 4
        0xF0, 0x80, 0xF0, 0x10, 0xF0, // 5
        0xF0, 0x80, 0xF0, 0x90, 0xF0, // 6
        0xF0, 0x10, 0x20, 0x40, 0x40, // 7
        0xF0, 0x90, 0xF0, 0x90, 0xF0, // 8
        0xF0, 0x90, 0xF0, 0x10, 0xF0, // 9
        0xF0, 0x90, 0xF0, 0x90, 0x90, // A
        0xE0, 0x90, 0xE0, 0x90, 0xE0, // B
        0xF0, 0x80, 0x80, 0x80, 0xF0, // C
        0xE0, 0x90, 0x90, 0x90, 0xE0, // D
        0xF0, 0x80, 0xF0, 0x80, 0xF0, // E
        0xF0, 0x80, 0xF0, 0x80, 0x80, // F
    ]
}

/// The font table as an executable vector, byte for byte `font_set()`.
pub fn font_data() -> (r: Vec<u8>)
    ensures
        r@ == font_set(),
{
    let font: [u8; 80] = [
        0xF0u8, 0x90, 0x90, 0x90, 0xF0, // 0
        0x20, 0x60, 0x20, 0x20, 0x70, // 1
        0xF0, 0x10, 0xF0, 0x80, 0xF0, // 2
        0xF0, 0x10, 0xF0, 0x10, 0xF0, // 3
        0x90, 0x90, 0xF0, 0x10, 0x10, // 4
        0xF0, 0x80, 0xF0, 0x10, 0xF0, // 5
        0xF0, 0x80, 0xF0, 0x90, 0xF0, // 6
        0xF0, 0x10, 0x20, 0x40, 0x40, // 7
        0xF0, 0x90, 0xF0, 0x90, 0xF0, // 8
        0xF0, 0x90, 0xF0, 0x10, 0xF0, // 9
        0xF0, 0x90, 0xF0, 0x90, 0x90, // A
        0xE0, 0x90, 0xE0, 0x90, 0xE0, // B
        0xF0, 0x80, 0x80, 0x80, 0xF0, // C
        0xE0, 0x90, 0x90, 0x90, 0xE0, // D
        0xF0, 0x80, 0xF0, 0x80, 0xF0, // E
        0xF0, 0x80, 0xF0, 0x80, 0x80, // F
    ];
    let r = vstd::slice::slice_to_vec(font.as_slice());
    proof {
        assert(r@ =~= font_set());
    }
    r
}

/// A vector of `n` copies of `value`.
fn filled_vec<T: Copy>(n: usize, value: T) -> (r: Vec<T>)
    ensures
        r@ == Seq::new(n as nat, |j: int| value),
{
    let mut r: Vec<T> = Vec::new();
    let mut k: usize = 0;
    while k < n
        invariant
            k <= n,
            r@.len() == k,
            forall|j: int| 0 <= j < k ==> r@[j] == value,
        decreases n - k,
    {
        r.push(value);
        k += 1;
    }
    proof {
        assert(r@ =~= Seq::new(n as nat, |j: int| value));
    }
    r
}

/// The state a machine starts in: memory all zero except the font table at
/// 0x050..0x0A0, the program counter at 0x200, and every register, stack
/// slot, timer, key and framebuffer cell zeroed.
pub open spec fn spec_initial_state() -> CpuView {
    CpuView {
        memory: Seq::new(4096, |j: int| if 0x50 <= j < 0xA0 { font_set()[j - 0x50] } else { 0u8 }),
        pc: 0x200,
        v: Seq::new(16, |j: int| 0u8),
        i: 0,
        stack: Seq::new(16, |j: int| 0u16),
        sp: 0,
        display: Seq::new(2048, |j: int| 0u8),
        dt: 0,
        st: 0,
        keys: Seq::new(16, |j: int| false),
    }
}

impl Cpu {
    /// A well-formed machine state; see [`CpuView::wf`].
    pub open spec fn wf(self) -> bool {
        self@.wf()
    }

    /// Build a machine in its initial state: zeroed but for the font table
    /// at 0x050..0x0A0 and the program counter at 0x200.
    pub fn new() -> (cpu: Cpu)
        ensures
            cpu.wf(),
            cpu@ == spec_initial_state(),
    {
        let font = font_data();
        let mut memory: Vec<u8> = filled_vec(4096, 0u8);
        let mut j: usize = 0;
        while j < 80
            invariant
                j <= 80,
                font@ == font_set(),
                memory@.len() == 4096,
                forall|k: int| 0 <= k < 4096 && !(0x50 <= k < 0x50 + j) ==> memory@[k] == 0,
                forall|k: int| 0x50 <= k < 0x50 + j ==> memory@[k] == font_set()[k - 0x50],
            decreases 80 - j,
        {
            memory[0x50 + j] = font[j];
            j += 1;
        }
        let cpu = Cpu {
            memory,
            pc: 0x200,
            v: filled_vec(16, 0u8),
            i: 0,
            stack: filled_vec(16, 0u16),
            sp: 0,
            display: filled_vec(2048, 0u8),
            dt: 0,
            st: 0,
            keys: filled_vec(16, false),
        };
        proof {
            assert(cpu@ =~= spec_initial_state());
        }
        cpu
    }

    /// Write the font table over the first 80 bytes of memory, leaving the
    /// rest of the state alone. Some hosts install the font at address 0
    /// this way; the glyphs the engine itself points at (`Fx29`) are the
    /// ones `new` placed at 0x050.
    pub fn initialize(&mut self)
        requires
            old(self).wf(),
        ensures
            final(self).wf(),
            forall|k: int| 0 <= k < 80 ==> final(self)@.memory[k] == font_set()[k],
            forall|k: int| 80 <= k < 4096 ==> final(self)@.memory[k] == old(self)@.memory[k],
            final(self)@ == (CpuView { memory: final(self)@.memory, ..old(self)@ }),
    {
        let font = font_data();
        let mut j: usize = 0;
        while j < 80
            invariant
                j <= 80,
                font@ == font_set(),
                self@.memory.len() == 4096,
                forall|k: int| 0 <= k < j ==> self@.memory[k] == font_set()[k],
                forall|k: int| j <= k < 4096 ==> self@.memory[k] == old(self)@.memory[k],
                self@ == (CpuView { memory: self@.memory, ..old(self)@ }),
            decreases 80 - j,
        {
            self.memory[j] = font[j];
            j += 1;
        }
    }

    /// Copy a program image into memory starting at 0x200, leaving the rest
    /// of the state alone. The image must fit below the end of memory.
    pub fn load_game(&mut self, data: Vec<u8>)
        requires
            old(self).wf(),
            data@.len() <= 4096 - 0x200,
        ensures
            final(self).wf(),
            forall|k: int| 0 <= k < data@.len() ==> final(self)@.memory[0x200 + k] == data@[k],
            forall|k: int|
                0 <= k < 4096 && !(0x200 <= k < 0x200 + data@.len()) ==> final(self)@.memory[k]
                    == old(self)@.memory[k],
            final(self)@ == (CpuView { memory: final(self)@.memory, ..old(self)@ }),
    {
        let mut idx: usize = 0;
        while idx < data.len()
            invariant
                idx <= data@.len(),
                data@.len() <= 4096 - 0x200,
                self@.memory.len() == 4096,
                forall|k: int| 0 <= k < idx ==> self@.memory[0x200 + k] == data@[k],
                forall|k: int|
                    0 <= k < 4096 && !(0x200 <= k < 0x200 + idx) ==> self@.memory[k] == old(
                        self,
                    )@.memory[k],
                self@ == (CpuView { memory: self@.memory, ..old(self)@ }),
            decreases data@.len() - idx,
        {
            self.memory[0x200 + idx] = data[idx];
            idx += 1;
        }
    }

    /// Merge the two memory bytes at the program counter into one big-endian
    /// opcode: the byte at `pc` is the high byte, the byte at `pc + 1` the
    /// low byte.
    pub fn fetch_current_opcode(&self) -> (op: u16)
        requires
            self.wf(),
            self.pc < 4095,
        ensures
            op == spec_fetch(self@),
    {
        let hi: u16 = self.memory[self.pc as usize] as u16;
        let lo: u16 = self.memory[self.pc as usize + 1] as u16;
        hi * 0x100 + lo
    }
}

impl Default for Cpu {
    /// The initial machine state, as `Cpu::new` builds it.
    fn default() -> (cpu: Cpu)
        ensures
            cpu.wf(),
            cpu@ == spec_initial_state(),
    {
        Cpu::new()
    }
}

/// The big-endian opcode at the program counter: the byte at `pc` shifted
/// into the high half, merged with the byte at `pc + 1`.
pub open spec fn spec_fetch(s: CpuView) -> u16 {
    (s.memory[s.pc as int] * 0x100 + s.memory[s.pc as int + 1]) as u16
}

/// One timer tick: the delay and sound timers each count down by one,
/// stopping at zero.
pub open spec fn spec_tick_timers(s: CpuView) -> CpuView {
    CpuView {
        dt: if s.dt > 0 { (s.dt - 1) as u8 } else { 0u8 },
        st: if s.st > 0 { (s.st - 1) as u8 } else { 0u8 },
        ..s
    }
}

/// The program counter moved past the current instruction: two bytes on, or
/// four when the instruction skips the next one.
pub open spec fn spec_advance(pc: u16, skip: bool) -> u16 {
    if skip {
        (pc + 4) as u16
    } else {
        (pc + 2) as u16
    }
}

/// The lowest pressed key at or above index `k`, if any.
pub open spec fn spec_first_key_from(keys: Seq<bool>, k: int) -> Option<u8>
    decreases 16 - k,
{
    if k < 0 || k >= 16 {
        None
    } else if keys[k] {
        Some(k as u8)
    } else {
        spec_first_key_from(keys, k + 1)
    }
}

/// Bit `c` of a sprite row counted from the left edge: sprite rows are drawn
/// most significant bit first, so column `c` holds bit `7 - c`.
pub open spec fn spec_sprite_pixel(row_byte: u8, c: u8) -> u8 {
    (row_byte >> ((7 - c) as u8)) & 1
}

/// Whether the `n`-row sprite at memory address `i`, drawn with its origin
/// at `(sx, sy)`, puts a set bit on the framebuffer cell `(xi, yi)`. Both
/// coordinates wrap: column `sx + c` lands on `(sx + c) % 64` and row
/// `sy + r` on `(sy + r) % 32`, independently per pixel.
pub open spec fn spec_sprite_bit(
    mem: Seq<u8>,
    i: int,
    n: int,
    sx: u8,
    sy: u8,
    xi: int,
    yi: int,
) -> bool {
    exists|r: int, c: u8|
        0 <= r < n && c < 8 && (sx + c) % 64 == xi && (sy + r) % 32 == yi
            && #[trigger] spec_sprite_pixel(mem[i + r], c) == 1
}

/// A framebuffer cell after an XOR with a set sprite bit: a lit cell goes
/// out, any other cell lights up.
pub open spec fn spec_flip(d: u8) -> u8 {
    if d == 1 {
        0u8
    } else {
        1u8
    }
}

/// The framebuffer after a `Dxyn` draw: every cell covered by a set sprite
/// bit is flipped, every other cell keeps its value.
pub open spec fn spec_draw_display(s: CpuView, sx: u8, sy: u8, n: u8) -> Seq<u8> {
    Seq::new(
        2048,
        |p: int|
            if spec_sprite_bit(s.memory, s.i as int, n as int, sx, sy, p % 64, p / 64) {
                spec_flip(s.display[p])
            } else {
                s.display[p]
            },
    )
}

/// Whether a `Dxyn` draw turns any lit cell off: true exactly when some set
/// sprite bit lands on a cell that already holds 1. This is what the draw
/// instruction reports in VF.
pub open spec fn spec_draw_collision(s: CpuView, sx: u8, sy: u8, n: u8) -> bool {
    exists|p: int|
        0 <= p < 2048 && spec_sprite_bit(s.memory, s.i as int, n as int, sx, sy, p % 64, p / 64)
            && s.display[p] == 1
}

/// `00E0`: the framebuffer cleared.
pub open spec fn spec_exec_cls(s: CpuView) -> CpuView {
    CpuView { display: Seq::new(2048, |p: int| 0u8), pc: (s.pc + 2) as u16, ..s }
}

/// `00EE`: the program counter restored from the stack top (plus two, past
/// the call instruction, wrapping at 16 bits) and the stack popped; a
/// stack-underflow error on an empty stack.
pub open spec fn spec_exec_ret(s: CpuView) -> (CpuView, Result<(), EmulateCycleError>) {
    if s.sp == 0 {
        (s, Err(EmulateCycleError::StackUnderflow))
    } else {
        (
            CpuView {
                pc: ((s.stack[s.sp as int] + 2) % 0x10000) as u16,
                sp: (s.sp - 1) as u8,
                ..s
            },
            Ok(()),
        )
    }
}

/// `2nnn`: the current program counter pushed and control moved to `nnn`; a
/// stack-overflow error when all fifteen usable slots are taken.
pub open spec fn spec_exec_call(s: CpuView, nnn: u16) -> (CpuView, Result<(), EmulateCycleError>) {
    if s.sp >= 15 {
        (s, Err(EmulateCycleError::StackOverflow))
    } else {
        (
            CpuView {
                sp: (s.sp + 1) as u8,
                stack: s.stack.update(s.sp as int + 1, s.pc),
                pc: nnn,
                ..s
            },
            Ok(()),
        )
    }
}

/// A conditional skip: the program counter moves four bytes on when `skip`
/// holds, else two.
pub open spec fn spec_exec_skip(s: CpuView, skip: bool) -> CpuView {
    CpuView { pc: spec_advance(s.pc, skip), ..s }
}

/// A register write: `Vx` set to `val` and the program counter moved on.
pub open spec fn spec_exec_set_v(s: CpuView, x: u8, val: u8) -> CpuView {
    CpuView { v: s.v.update(x as int, val), pc: (s.pc + 2) as u16, ..s }
}

/// An arithmetic instruction's write-back: `VF` takes the flag, then `Vx`
/// takes the value, in that order - so when `x` is 15 the value wins.
pub open spec fn spec_exec_alu(s: CpuView, x: u8, flag: u8, val: u8) -> CpuView {
    CpuView {
        v: s.v.update(15, flag).update(x as int, val),
        pc: (s.pc + 2) as u16,
        ..s
    }
}

/// An index-register write: `I` set to `val` and the program counter moved
/// on.
pub open spec fn spec_exec_set_i(s: CpuView, val: u16) -> CpuView {
    CpuView { i: val, pc: (s.pc + 2) as u16, ..s }
}

/// `Dxyn`: the sprite drawn and `VF` set to the collision flag; a bounds
/// error when the sprite's rows would be read past the end of memory.
pub open spec fn spec_exec_drw(s: CpuView, x: u8, y: u8, n: u8) -> (CpuView, Result<
    (),
    EmulateCycleError,
>) {
    if n > 0 && s.i as int + n as int > 4096 {
        (s, Err(EmulateCycleError::MemoryOutOfBounds))
    } else {
        (
            CpuView {
                display: spec_draw_display(s, s.v[x as int], s.v[y as int], n),
                v: s.v.update(
                    15,
                    if spec_draw_collision(s, s.v[x as int], s.v[y as int], n) {
                        1u8
                    } else {
                        0u8
                    },
                ),
                pc: (s.pc + 2) as u16,
                ..s
            },
            Ok(()),
        )
    }
}

/// `Ex9E`/`ExA1`: a skip on the key named by `Vx`, down for `Ex9E` and up
/// for `ExA1`; a bounds error when `Vx` names no key.
pub open spec fn spec_exec_key_skip(s: CpuView, x: u8, on_up: bool) -> (CpuView, Result<
    (),
    EmulateCycleError,
>) {
    if s.v[x as int] >= 16 {
        (s, Err(EmulateCycleError::MemoryOutOfBounds))
    } else {
        (spec_exec_skip(s, s.keys[s.v[x as int] as int] != on_up), Ok(()))
    }
}

/// `Fx0A`: when some key is down, its lowest index lands in `Vx` and the
/// program counter moves on; with no key down the state is left exactly as
/// it was, so the instruction runs again on the next cycle.
pub open spec fn spec_exec_wait_key(s: CpuView, x: u8) -> CpuView {
    match spec_first_key_from(s.keys, 0) {
        Some(k) => spec_exec_set_v(s, x, k),
        None => s,
    }
}

/// `Fx33`: the three decimal digits of `Vx` written at the index register;
/// a bounds error when the three cells do not fit below 4096.
pub open spec fn spec_exec_bcd(s: CpuView, x: u8) -> (CpuView, Result<(), EmulateCycleError>) {
    if s.i as int + 2 >= 4096 {
        (s, Err(EmulateCycleError::MemoryOutOfBounds))
    } else {
        (
            CpuView {
                memory: s.memory.update(s.i as int, (s.v[x as int] / 100) as u8).update(
                    s.i as int + 1,
                    ((s.v[x as int] / 10) % 10) as u8,
                ).update(s.i as int + 2, (s.v[x as int] % 10) as u8),
                pc: (s.pc + 2) as u16,
                ..s
            },
            Ok(()),
        )
    }
}

/// `Fx55`: registers `V0..=Vx` copied into memory at the index register; a
/// bounds error when the block does not fit below 4096.
pub open spec fn spec_exec_store_regs(s: CpuView, x: u8) -> (CpuView, Result<
    (),
    EmulateCycleError,
>) {
    if s.i as int + x as int >= 4096 {
        (s, Err(EmulateCycleError::MemoryOutOfBounds))
    } else {
        (
            CpuView {
                memory: Seq::new(
                    4096,
                    |j: int|
                        if s.i as int <= j <= s.i as int + x as int {
                            s.v[j - s.i as int]
                        } else {
                            s.memory[j]
                        },
                ),
                pc: (s.pc + 2) as u16,
                ..s
            },
            Ok(()),
        )
    }
}

/// `Fx65`: registers `V0..=Vx` loaded from memory at the index register; a
/// bounds error when the block does not fit below 4096.
pub open spec fn spec_exec_load_regs(s: CpuView, x: u8) -> (CpuView, Result<
    (),
    EmulateCycleError,
>) {
    if s.i as int + x as int >= 4096 {
        (s, Err(EmulateCycleError::MemoryOutOfBounds))
    } else {
        (
            CpuView {
                v: Seq::new(
                    16,
                    |j: int|
                        if 0 <= j <= x as int {
                            s.memory[s.i as int + j]
                        } else {
                            s.v[j]
                        },
                ),
                pc: (s.pc + 2) as u16,
                ..s
            },
            Ok(()),
        )
    }
}

/// Execute one decoded instruction on a fetched state: the meaning of every
/// instruction, stated over the view.
///
/// The program counter is assumed already checked (`s.pc + 1 < 4096`, as
/// `spec_step` guarantees), so plain advances cannot leave the 16-bit space;
/// the two places an arbitrary 16-bit sum can arise (`00EE` and `Fx1E`) wrap
/// modulo 2^16. On an error the state is unchanged, except for an unhandled
/// opcode, which has already been stepped over.
pub open spec fn spec_exec(s: CpuView, instr: Instruction, rand: u8) -> (CpuView, Result<
    (),
    EmulateCycleError,
>) {
    match instr {
        Instruction::Cls => (spec_exec_cls(s), Ok(())),
        Instruction::Ret => spec_exec_ret(s),
        Instruction::Jp { nnn } => (CpuView { pc: nnn, ..s }, Ok(())),
        Instruction::Call { nnn } => spec_exec_call(s, nnn),
        Instruction::SeImm { x, kk } => (spec_exec_skip(s, s.v[x as int] == kk), Ok(())),
        Instruction::SneImm { x, kk } => (spec_exec_skip(s, s.v[x as int] != kk), Ok(())),
        Instruction::SeReg { x, y } => (
            spec_exec_skip(s, s.v[x as int] == s.v[y as int]),
            Ok(()),
        ),
        Instruction::LdImm { x, kk } => (spec_exec_set_v(s, x, kk), Ok(())),
        Instruction::AddImm { x, kk } => (
            spec_exec_set_v(s, x, ((s.v[x as int] + kk) % 256) as u8),
            Ok(()),
        ),
        Instruction::LdReg { x, y } => (spec_exec_set_v(s, x, s.v[y as int]), Ok(())),
        Instruction::OrReg { x, y } => (
            spec_exec_set_v(s, x, s.v[x as int] | s.v[y as int]),
            Ok(()),
        ),
        Instruction::AndReg { x, y } => (
            spec_exec_set_v(s, x, s.v[x as int] & s.v[y as int]),
            Ok(()),
        ),
        Instruction::XorReg { x, y } => (
            spec_exec_set_v(s, x, s.v[x as int] ^ s.v[y as int]),
            Ok(()),
        ),
        Instruction::AddReg { x, y } => (
            spec_exec_alu(
                s,
                x,
                if s.v[x as int] + s.v[y as int] > 255 {
                    1u8
                } else {
                    0u8
                },
                ((s.v[x as int] + s.v[y as int]) % 256) as u8,
            ),
            Ok(()),
        ),
        Instruction::SubReg { x, y } => (
            spec_exec_alu(
                s,
                x,
                if s.v[x as int] > s.v[y as int] {
                    1u8
                } else {
                    0u8
                },
                ((s.v[x as int] - s.v[y as int]) % 256) as u8,
            ),
            Ok(()),
        ),
        Instruction::Shr { x } => (
            spec_exec_alu(s, x, (s.v[x as int] % 2) as u8, (s.v[x as int] / 2) as u8),
            Ok(()),
        ),
        Instruction::SubnReg { x, y } => (
            spec_exec_alu(
                s,
                x,
                if s.v[y as int] >= s.v[x as int] {
                    1u8
                } else {
                    0u8
                },
                ((s.v[y as int] - s.v[x as int]) % 256) as u8,
            ),
            Ok(()),
        ),
        Instruction::Shl { x } => (
            spec_exec_alu(s, x, (s.v[x as int] / 128) as u8, ((s.v[x as int] % 128) * 2) as u8),
            Ok(()),
        ),
        Instruction::SneReg { x, y } => (
            spec_exec_skip(s, s.v[x as int] != s.v[y as int]),
            Ok(()),
        ),
        Instruction::LdI { nnn } => (spec_exec_set_i(s, nnn), Ok(())),
        Instruction::JpV0 { nnn } => (CpuView { pc: (nnn + s.v[0]) as u16, ..s }, Ok(())),
        Instruction::Rnd { x, kk } => (spec_exec_set_v(s, x, rand & kk), Ok(())),
        Instruction::Drw { x, y, n } => spec_exec_drw(s, x, y, n),
        Instruction::Skp { x } => spec_exec_key_skip(s, x, false),
        Instruction::Sknp { x } => spec_exec_key_skip(s, x, true),
        Instruction::LdFromDt { x } => (spec_exec_set_v(s, x, s.dt), Ok(())),
        Instruction::WaitKey { x } => (spec_exec_wait_key(s, x), Ok(())),
        Instruction::SetDt { x } => (
            CpuView { dt: s.v[x as int], pc: (s.pc + 2) as u16, ..s },
            Ok(()),
        ),
        Instruction::SetSt { x } => (
            CpuView { st: s.v[x as int], pc: (s.pc + 2) as u16, ..s },
            Ok(()),
        ),
        Instruction::AddI { x } => (
            spec_exec_set_i(s, ((s.i + s.v[x as int]) % 0x10000) as u16),
            Ok(()),
        ),
        Instruction::LdFont { x } => (
            spec_exec_set_i(s, (0x50 + s.v[x as int] * 5) as u16),
            Ok(()),
        ),
        Instruction::Bcd { x } => spec_exec_bcd(s, x),
        Instruction::StoreRegs { x } => spec_exec_store_regs(s, x),
        Instruction::LoadRegs { x } => spec_exec_load_regs(s, x),
        Instruction::Unknown { op } => (
            CpuView { pc: (s.pc + 2) as u16, ..s },
            Err(EmulateCycleError::UnhandledOpcode { op }),
        ),
    }
}


/// One full execution cycle on the view: fail if the program counter cannot
/// address a whole opcode, else fetch, decode, execute, and - when execution
/// succeeded - tick both timers once.
pub open spec fn spec_step(s: CpuView, rand: u8) -> (CpuView, Result<(), EmulateCycleError>) {
    if s.pc as int + 1 >= 4096 {
        (s, Err(EmulateCycleError::MemoryOutOfBounds))
    } else {
        let r = spec_exec(s, spec_decode(spec_fetch(s)), rand);
        if r.1 is Ok {
            (spec_tick_timers(r.0), Ok(()))
        } else {
            r
        }
    }
}

/// The sprite bits the draw loop has already processed when it stands at row
/// `row`, column `c`: every column of the rows before `row`, and the columns
/// before `c` of row `row` itself. At position `(n, 0)` this is the whole
/// sprite, i.e. `spec_sprite_bit`.
spec fn spec_partial_sprite_bit(
    s: CpuView,
    sx: u8,
    sy: u8,
    n: u8,
    row: int,
    c: int,
    xi: int,
    yi: int,
) -> bool {
    exists|r2: int, c2: u8|
        0 <= r2 < n && c2 < 8 && (r2 < row || (r2 == row && (c2 as int) < c)) && (sx + c2) % 64
            == xi && (sy + r2) % 32 == yi && #[trigger] spec_sprite_pixel(
            s.memory[s.i as int + r2],
            c2,
        ) == 1
}

/// Whether some already-processed sprite bit landed on a lit cell: the
/// partial form of `spec_draw_collision`, for the draw loop's invariant.
spec fn spec_partial_collision(s: CpuView, sx: u8, sy: u8, n: u8, row: int, c: int) -> bool {
    exists|r2: int, c2: u8|
        0 <= r2 < n && c2 < 8 && (r2 < row || (r2 == row && (c2 as int) < c))
            && #[trigger] spec_sprite_pixel(s.memory[s.i as int + r2], c2) == 1 && s.display[(sx
            + c2) % 64 + 64 * ((sy + r2) % 32)] == 1
}

/// Two offsets below `m` that land on the same residue when added to the
/// same base are the same offset.
proof fn lemma_mod_window_inj(a: int, b1: int, b2: int, m: int)
    requires
        m > 0,
        0 <= b1 < m,
        0 <= b2 < m,
        (a + b1) % m == (a + b2) % m,
    ensures
        b1 == b2,
{
    lemma_fundamental_div_mod(a + b1, m);
    lemma_fundamental_div_mod(a + b2, m);
    let q1 = (a + b1) / m;
    let q2 = (a + b2) / m;
    assert(b1 - b2 == m * q1 - m * q2);
    assert(m * q1 - m * q2 == m * (q1 - q2)) by (nonlinear_arith);
    if q1 - q2 >= 1 {
        assert(m * (q1 - q2) >= m) by (nonlinear_arith)
            requires
                m > 0,
                q1 - q2 >= 1,
        ;
        assert(false);
    }
    if q2 - q1 >= 1 {
        assert(m * (q1 - q2) <= -m) by (nonlinear_arith)
            requires
                m > 0,
                q1 - q2 <= -1,
        ;
        assert(false);
    }
}

/// Distinct sprite pixels land on distinct framebuffer cells: a sprite is at
/// most 15 rows tall and 8 columns wide, so two of its pixels can only share
/// a wrapped row (modulo 32) or wrapped column (modulo 64) by being the same
/// pixel.
proof fn lemma_target_inj(sx: u8, sy: u8, r1: int, c1: u8, r2: int, c2: u8)
    requires
        0 <= r1 < 16,
        0 <= r2 < 16,
        c1 < 8,
        c2 < 8,
        (sx + c1) % 64 == (sx + c2) % 64,
        (sy + r1) % 32 == (sy + r2) % 32,
    ensures
        r1 == r2,
        c1 == c2,
{
    lemma_mod_window_inj(sy as int, r1, r2, 32);
    lemma_mod_window_inj(sx as int, c1 as int, c2 as int, 64);
}

impl Cpu {
    /// Count both timers down by one, stopping at zero.
    fn tick_timers(&mut self)
        ensures
            final(self)@ == spec_tick_timers(old(self)@),
    {
        if self.dt > 0 {
            self.dt = self.dt - 1;
        }
        if self.st > 0 {
            self.st = self.st - 1;
        }
        proof {
            assert(self@ =~= spec_tick_timers(old(self)@));
        }
    }

    /// Clear every framebuffer cell: the `00E0` instruction, less the
    /// program counter advance.
    fn clear_display(&mut self)
        ensures
            final(self)@ == (CpuView { display: Seq::new(2048, |p: int| 0u8), ..old(self)@ }),
    {
        self.display = filled_vec(2048, 0u8);
        proof {
            assert(self@.display =~= Seq::new(2048, |p: int| 0u8));
            assert(self@ =~= (CpuView { display: Seq::new(2048, |p: int| 0u8), ..old(self)@ }));
        }
    }

    /// The lowest pressed key, if any key is down.
    fn first_pressed_key(&self) -> (r: Option<u8>)
        requires
            self.wf(),
        ensures
            r == spec_first_key_from(self@.keys, 0),
    {
        let mut k: usize = 0;
        while k < 16
            invariant
                k <= 16,
                self.wf(),
                spec_first_key_from(self@.keys, 0) == spec_first_key_from(self@.keys, k as int),
            decreases 16 - k,
        {
            if self.keys[k] {
                return Some(k as u8);
            }
            k += 1;
        }
        None
    }

    /// Copy registers `V0..=Vx` into memory at the index register: the
    /// `Fx55` instruction, less the program counter advance.
    fn exec_store_regs(&mut self, x: u8)
        requires
            old(self).wf(),
            x < 16,
            old(self).i as int + (x as int) < 4096,
        ensures
            final(self)@ == (CpuView {
                memory: Seq::new(
                    4096,
                    |j: int|
                        if old(self).i as int <= j <= old(self).i as int + x as int {
                            old(self)@.v[j - old(self).i as int]
                        } else {
                            old(self)@.memory[j]
                        },
                ),
                ..old(self)@
            }),
    {
        let ghost pre = self@;
        let base: usize = self.i as usize;
        let mut off: usize = 0;
        while off <= x as usize
            invariant
                pre.wf(),
                off <= x as usize + 1,
                x < 16,
                base == pre.i,
                base + (x as usize) < 4096,
                self@.memory.len() == 4096,
                forall|j: int| base <= j < base + off ==> self@.memory[j] == pre.v[j - base],
                forall|j: int|
                    0 <= j < 4096 && !(base <= j < base + off) ==> self@.memory[j] == pre.memory[j],
                self@ == (CpuView { memory: self@.memory, ..pre }),
            decreases x as int + 1 - off,
        {
            self.memory[base + off] = self.v[off];
            off += 1;
        }
        proof {
            assert(self@.memory =~= Seq::new(
                4096,
                |j: int|
                    if pre.i as int <= j <= pre.i as int + x as int {
                        pre.v[j - pre.i as int]
                    } else {
                        pre.memory[j]
                    },
            ));
            assert(self@ =~= (CpuView {
                memory: Seq::new(
                    4096,
                    |j: int|
                        if pre.i as int <= j <= pre.i as int + x as int {
                            pre.v[j - pre.i as int]
                        } else {
                            pre.memory[j]
                        },
                ),
                ..pre
            }));
        }
    }

    /// Load registers `V0..=Vx` from memory at the index register: the
    /// `Fx65` instruction, less the program counter advance.
    fn exec_load_regs(&mut self, x: u8)
        requires
            old(self).wf(),
            x < 16,
            old(self).i as int + (x as int) < 4096,
        ensures
            final(self)@ == (CpuView {
                v: Seq::new(
                    16,
                    |j: int|
                        if 0 <= j <= x as int {
                            old(self)@.memory[old(self).i as int + j]
                        } else {
                            old(self)@.v[j]
                        },
                ),
                ..old(self)@
            }),
    {
        let ghost pre = self@;
        let base: usize = self.i as usize;
        let mut off: usize = 0;
        while off <= x as usize
            invariant
                pre.wf(),
                off <= x as usize + 1,
                x < 16,
                base == pre.i,
                base + (x as usize) < 4096,
                self@.v.len() == 16,
                forall|j: int| 0 <= j < off ==> self@.v[j] == pre.memory[base + j],
                forall|j: int| off <= j < 16 ==> self@.v[j] == pre.v[j],
                self@ == (CpuView { v: self@.v, ..pre }),
            decreases x as int + 1 - off,
        {
            self.v[off] = self.memory[base + off];
            off += 1;
        }
        proof {
            assert(self@.v =~= Seq::new(
                16,
                |j: int|
                    if 0 <= j <= x as int {
                        pre.memory[pre.i as int + j]
                    } else {
                        pre.v[j]
                    },
            ));
            assert(self@ =~= (CpuView {
                v: Seq::new(
                    16,
                    |j: int|
                        if 0 <= j <= x as int {
                            pre.memory[pre.i as int + j]
                        } else {
                            pre.v[j]
                        },
                ),
                ..pre
            }));
        }
    }

    /// Draw the `n`-row sprite at the index register with its origin at
    /// `(sx, sy)`: the framebuffer and collision-flag effect of `Dxyn`, less
    /// the program counter advance. Every set sprite bit flips its cell,
    /// wrapping at both screen edges, and `VF` reports whether any lit cell
    /// went out.
    fn exec_draw(&mut self, sx: u8, sy: u8, n: u8)
        requires
            old(self).wf(),
            n <= 15,
            n > 0 ==> old(self).i as int + n as int <= 4096,
        ensures
            final(self).wf(),
            final(self)@ == (CpuView {
                display: spec_draw_display(old(self)@, sx, sy, n),
                v: old(self)@.v.update(
                    15,
                    if spec_draw_collision(old(self)@, sx, sy, n) {
                        1u8
                    } else {
                        0u8
                    },
                ),
                ..old(self)@
            }),
    {
        let ghost pre = self@;
        self.v[15] = 0;
        proof {
            assert(self@.v =~= pre.v.update(
                15,
                if spec_partial_collision(pre, sx, sy, n, 0, 0) {
                    1u8
                } else {
                    0u8
                },
            ));
        }
        let mut row: u8 = 0;
        while row < n
            invariant
                pre.wf(),
                row <= n,
                n <= 15,
                n > 0 ==> pre.i as int + n as int <= 4096,
                self@.display.len() == 2048,
                self@.v.len() == 16,
                forall|p: int|
                    0 <= p < 2048 ==> self@.display[p] == (if spec_partial_sprite_bit(
                        pre,
                        sx,
                        sy,
                        n,
                        row as int,
                        0,
                        p % 64,
                        p / 64,
                    ) {
                        spec_flip(pre.display[p])
                    } else {
                        pre.display[p]
                    }),
                self@.v == pre.v.update(
                    15,
                    if spec_partial_collision(pre, sx, sy, n, row as int, 0) {
                        1u8
                    } else {
                        0u8
                    },
                ),
                self@ == (CpuView { display: self@.display, v: self@.v, ..pre }),
            decreases n - row,
        {
            let row_byte: u8 = self.memory[self.i as usize + row as usize];
            let mut c: u8 = 0;
            while c < 8
                invariant
                    pre.wf(),
                    row < n,
                    n <= 15,
                    c <= 8,
                    pre.i as int + n as int <= 4096,
                    row_byte == pre.memory[pre.i as int + row as int],
                    self@.display.len() == 2048,
                    self@.v.len() == 16,
                    forall|p: int|
                        0 <= p < 2048 ==> self@.display[p] == (if spec_partial_sprite_bit(
                            pre,
                            sx,
                            sy,
                            n,
                            row as int,
                            c as int,
                            p % 64,
                            p / 64,
                        ) {
                            spec_flip(pre.display[p])
                        } else {
                            pre.display[p]
                        }),
                    self@.v == pre.v.update(
                        15,
                        if spec_partial_collision(pre, sx, sy, n, row as int, c as int) {
                            1u8
                        } else {
                            0u8
                        },
                    ),
                    self@ == (CpuView { display: self@.display, v: self@.v, ..pre }),
                decreases 8 - c,
            {
                let ghost old_view = self@;
                let pixel: u8 = (row_byte >> (7 - c)) & 1;
                proof {
                    assert(pixel == spec_sprite_pixel(pre.memory[pre.i as int + row as int], c));
                }
                if pixel == 1 {
                    let xi: usize = (sx as usize + c as usize) % 64;
                    let yi: usize = (sy as usize + row as usize) % 32;
                    let p: usize = xi + yi * 64;
                    let ghost xii = (sx as int + c as int) % 64;
                    let ghost yii = (sy as int + row as int) % 32;
                    let ghost pp = xii + 64 * yii;
                    proof {
                        assert(xi as int == xii);
                        assert(yi as int == yii);
                        assert(p as int == pp);
                        lemma_fundamental_div_mod(pp, 64);
                        assert(pp % 64 == xii);
                        assert(pp / 64 == yii);
                        // No earlier sprite pixel hit this cell, so it still
                        // holds its original value.
                        assert(!spec_partial_sprite_bit(
                            pre,
                            sx,
                            sy,
                            n,
                            row as int,
                            c as int,
                            xii,
                            yii,
                        )) by {
                            if spec_partial_sprite_bit(pre, sx, sy, n, row as int, c as int, xii, yii) {
                                let (r2, c2): (int, u8) = choose|r2: int, c2: u8|
                                    0 <= r2 < n && c2 < 8 && (r2 < row as int || (r2 == row as int
                                        && (c2 as int) < c as int)) && (sx + c2) % 64 == xii && (sy
                                        + r2) % 32 == yii && #[trigger] spec_sprite_pixel(
                                        pre.memory[pre.i as int + r2],
                                        c2,
                                    ) == 1;
                                lemma_target_inj(sx, sy, r2, c2, row as int, c);
                                assert(false);
                            }
                        }
                        assert(self@.display[pp] == pre.display[pp]);
                    }
                    let collided: bool = self.display[p] == 1;
                    if collided {
                        self.v[15] = 1;
                        self.display[p] = 0;
                    } else {
                        self.display[p] = 1;
                    }
                    proof {
                        let rowi = row as int;
                        let ci = c as int;
                        // The cell just written now reads as flipped, under
                        // the partial predicate one column further on.
                        assert(spec_partial_sprite_bit(pre, sx, sy, n, rowi, ci + 1, xii, yii));
                        if pre.display[pp] == 1 {
                            assert(spec_partial_collision(pre, sx, sy, n, rowi, ci + 1));
                        }
                        // Every other cell is untouched, and its partial
                        // predicate is unchanged: the one new processed
                        // pixel targets only `pp`.
                        assert forall|q: int| 0 <= q < 2048 && q != pp implies
                            #[trigger] spec_partial_sprite_bit(pre, sx, sy, n, rowi, ci + 1, q % 64, q / 64)
                                == spec_partial_sprite_bit(
                                pre,
                                sx,
                                sy,
                                n,
                                rowi,
                                ci,
                                q % 64,
                                q / 64,
                            ) by {
                            if spec_partial_sprite_bit(pre, sx, sy, n, rowi, ci + 1, q % 64, q / 64) {
                                let (r2, c2): (int, u8) = choose|r2: int, c2: u8|
                                    0 <= r2 < n && c2 < 8 && (r2 < rowi || (r2 == rowi && (
                                    c2 as int) < ci + 1)) && (sx + c2) % 64 == q % 64 && (sy + r2)
                                        % 32 == q / 64 && #[trigger] spec_sprite_pixel(
                                        pre.memory[pre.i as int + r2],
                                        c2,
                                    ) == 1;
                                if r2 == rowi && c2 == c {
                                    lemma_fundamental_div_mod(q, 64);
                                    assert(q == pp);
                                    assert(false);
                                }
                            }
                        }
                        // The collision flag likewise only gains the new
                        // pixel's cell.
                        if pre.display[pp] != 1 {
                            assert(spec_partial_collision(pre, sx, sy, n, rowi, ci + 1)
                                == spec_partial_collision(pre, sx, sy, n, rowi, ci)) by {
                                if spec_partial_collision(pre, sx, sy, n, rowi, ci + 1) {
                                    let (r2, c2): (int, u8) = choose|r2: int, c2: u8|
                                        0 <= r2 < n && c2 < 8 && (r2 < rowi || (r2 == rowi && (
                                        c2 as int) < ci + 1)) && #[trigger] spec_sprite_pixel(
                                            pre.memory[pre.i as int + r2],
                                            c2,
                                        ) == 1 && pre.display[(sx + c2) % 64 + 64 * ((sy + r2)
                                            % 32)] == 1;
                                    if r2 == rowi && c2 == c {
                                        assert(false);
                                    }
                                }
                            }
                        }
                        assert(self@.v =~= pre.v.update(
                            15,
                            if spec_partial_collision(pre, sx, sy, n, rowi, ci + 1) {
                                1u8
                            } else {
                                0u8
                            },
                        ));
                    }
                } else {
                    proof {
                        let rowi = row as int;
                        let ci = c as int;
                        // A clear sprite bit changes nothing: the partial
                        // predicates are the same one column further on.
                        assert forall|q: int| 0 <= q < 2048 implies #[trigger] spec_partial_sprite_bit(
                            pre,
                            sx,
                            sy,
                            n,
                            rowi,
                            ci + 1,
                            q % 64,
                            q / 64,
                        ) == spec_partial_sprite_bit(pre, sx, sy, n, rowi, ci, q % 64, q / 64) by {
                            if spec_partial_sprite_bit(pre, sx, sy, n, rowi, ci + 1, q % 64, q / 64) {
                                let (r2, c2): (int, u8) = choose|r2: int, c2: u8|
                                    0 <= r2 < n && c2 < 8 && (r2 < rowi || (r2 == rowi && (
                                    c2 as int) < ci + 1)) && (sx + c2) % 64 == q % 64 && (sy + r2)
                                        % 32 == q / 64 && #[trigger] spec_sprite_pixel(
                                        pre.memory[pre.i as int + r2],
                                        c2,
                                    ) == 1;
                                if r2 == rowi && c2 == c {
                                    assert(false);
                                }
                            }
                        }
                        assert(spec_partial_collision(pre, sx, sy, n, rowi, ci + 1)
                            == spec_partial_collision(pre, sx, sy, n, rowi, ci)) by {
                            if spec_partial_collision(pre, sx, sy, n, rowi, ci + 1) {
                                let (r2, c2): (int, u8) = choose|r2: int, c2: u8|
                                    0 <= r2 < n && c2 < 8 && (r2 < rowi || (r2 == rowi && (
                                    c2 as int) < ci + 1)) && #[trigger] spec_sprite_pixel(
                                        pre.memory[pre.i as int + r2],
                                        c2,
                                    ) == 1 && pre.display[(sx + c2) % 64 + 64 * ((sy + r2) % 32)]
                                        == 1;
                                if r2 == rowi && c2 == c {
                                    assert(false);
                                }
                            }
                        }
                    }
                }
                c += 1;
            }
            proof {
                let rowi = row as int;
                // Standing past the last column of this row is the same as
                // standing at the start of the next row.
                assert forall|q: int| 0 <= q < 2048 implies #[trigger] spec_partial_sprite_bit(
                    pre,
                    sx,
                    sy,
                    n,
                    rowi + 1,
                    0,
                    q % 64,
                    q / 64,
                ) == spec_partial_sprite_bit(pre, sx, sy, n, rowi, 8, q % 64, q / 64) by {
                    if spec_partial_sprite_bit(pre, sx, sy, n, rowi + 1, 0, q % 64, q / 64) {
                        let (r2, c2): (int, u8) = choose|r2: int, c2: u8|
                            0 <= r2 < n && c2 < 8 && (r2 < rowi + 1 || (r2 == rowi + 1 && (
                            c2 as int) < 0)) && (sx + c2) % 64 == q % 64 && (sy + r2) % 32 == q / 64
                                && #[trigger] spec_sprite_pixel(pre.memory[pre.i as int + r2], c2)
                                == 1;
                        assert(r2 < rowi || (r2 == rowi && (c2 as int) < 8));
                    }
                }
                assert(spec_partial_collision(pre, sx, sy, n, rowi + 1, 0) == spec_partial_collision(
                    pre,
                    sx,
                    sy,
                    n,
                    rowi,
                    8,
                )) by {
                    if spec_partial_collision(pre, sx, sy, n, rowi + 1, 0) {
                        let (r2, c2): (int, u8) = choose|r2: int, c2: u8|
                            0 <= r2 < n && c2 < 8 && (r2 < rowi + 1 || (r2 == rowi + 1 && (
                            c2 as int) < 0)) && #[trigger] spec_sprite_pixel(
                                pre.memory[pre.i as int + r2],
                                c2,
                            ) == 1 && pre.display[(sx + c2) % 64 + 64 * ((sy + r2) % 32)] == 1;
                        assert(r2 < rowi || (r2 == rowi && (c2 as int) < 8));
                    }
                }
            }
            row += 1;
        }
        proof {
            let ni = n as int;
            // At position `(n, 0)` the partial predicates are the full ones.
            assert forall|q: int| 0 <= q < 2048 implies #[trigger] spec_partial_sprite_bit(
                pre,
                sx,
                sy,
                n,
                ni,
                0,
                q % 64,
                q / 64,
            ) == spec_sprite_bit(pre.memory, pre.i as int, ni, sx, sy, q % 64, q / 64) by {}
            assert(spec_partial_collision(pre, sx, sy, n, ni, 0) == spec_draw_collision(
                pre,
                sx,
                sy,
                n,
            )) by {
                if spec_partial_collision(pre, sx, sy, n, ni, 0) {
                    let (r2, c2): (int, u8) = choose|r2: int, c2: u8|
                        0 <= r2 < ni && c2 < 8 && (r2 < ni || (r2 == ni && (c2 as int) < 0))
                            && #[trigger] spec_sprite_pixel(pre.memory[pre.i as int + r2], c2) == 1
                            && pre.display[(sx + c2) % 64 + 64 * ((sy + r2) % 32)] == 1;
                    let q = (sx + c2) % 64 + 64 * ((sy + r2) % 32);
                    lemma_fundamental_div_mod(q, 64);
                    assert(spec_sprite_bit(pre.memory, pre.i as int, ni, sx, sy, q % 64, q / 64));
                    assert(0 <= q < 2048);
                }
                if spec_draw_collision(pre, sx, sy, n) {
                    let q = choose|q: int|
                        0 <= q < 2048 && spec_sprite_bit(
                            pre.memory,
                            pre.i as int,
                            ni,
                            sx,
                            sy,
                            q % 64,
                            q / 64,
                        ) && pre.display[q] == 1;
                    let (r2, c2): (int, u8) = choose|r2: int, c2: u8|
                        0 <= r2 < ni && c2 < 8 && (sx + c2) % 64 == q % 64 && (sy + r2) % 32 == q
                            / 64 && #[trigger] spec_sprite_pixel(pre.memory[pre.i as int + r2], c2)
                            == 1;
                    lemma_fundamental_div_mod(q, 64);
                    assert((sx + c2) % 64 + 64 * ((sy + r2) % 32) == q);
                    assert(spec_partial_collision(pre, sx, sy, n, ni, 0));
                }
            }
            assert(self@.display =~= spec_draw_display(pre, sx, sy, n));
            assert(self@ =~= (CpuView {
                display: spec_draw_display(pre, sx, sy, n),
                v: pre.v.update(
                    15,
                    if spec_draw_collision(pre, sx, sy, n) {
                        1u8
                    } else {
                        0u8
                    },
                ),
                ..pre
            }));
        }
    }

    /// Write `val` into `Vx` and step past the instruction: the shared
    /// shape of the plain register loads (`6xkk`, `7xkk`, `8xy0`, `8xy1`,
    /// `8xy2`, `8xy3`, `Cxkk`, `Fx07`).
    fn step_set_v(&mut self, x: u8, val: u8)
        requires
            old(self).wf(),
            x < 16,
            old(self).pc < 4095,
        ensures
            final(self)@ == spec_exec_set_v(old(self)@, x, val),
    {
        self.v[x as usize] = val;
        self.pc = self.pc + 2;
        proof {
            assert(self@ =~= spec_exec_set_v(old(self)@, x, val));
        }
    }

    /// Write the flag into `VF`, then `val` into `Vx`, and step past the
    /// instruction: the shared shape of the flag-setting arithmetic
    /// instructions (`8xy4` to `8xyE`).
    fn step_alu(&mut self, x: u8, flag: u8, val: u8)
        requires
            old(self).wf(),
            x < 16,
            old(self).pc < 4095,
        ensures
            final(self)@ == spec_exec_alu(old(self)@, x, flag, val),
    {
        self.v[15] = flag;
        self.v[x as usize] = val;
        self.pc = self.pc + 2;
        proof {
            assert(self@ =~= spec_exec_alu(old(self)@, x, flag, val));
        }
    }

    /// Write `val` into the index register and step past the instruction:
    /// the shared shape of `Annn`, `Fx1E` and `Fx29`.
    fn step_set_i(&mut self, val: u16)
        requires
            old(self).wf(),
            old(self).pc < 4095,
        ensures
            final(self)@ == spec_exec_set_i(old(self)@, val),
    {
        self.i = val;
        self.pc = self.pc + 2;
        proof {
            assert(self@ =~= spec_exec_set_i(old(self)@, val));
        }
    }

    /// Return from a subroutine: the `00EE` instruction on a non-empty
    /// stack.
    fn step_ret(&mut self)
        requires
            old(self).wf(),
            old(self).sp > 0,
        ensures
            final(self)@ == spec_exec_ret(old(self)@).0,
    {
        let ret: u16 = self.stack[self.sp as usize];
        self.pc = ret.wrapping_add(2);
        self.sp = self.sp - 1;
        proof {
            assert(self@ =~= spec_exec_ret(old(self)@).0);
        }
    }

    /// Call a subroutine: the `2nnn` instruction with a free stack slot.
    fn step_call(&mut self, nnn: u16)
        requires
            old(self).wf(),
            old(self).sp < 15,
        ensures
            final(self)@ == spec_exec_call(old(self)@, nnn).0,
    {
        self.sp = self.sp + 1;
        self.stack[self.sp as usize] = self.pc;
        self.pc = nnn;
        proof {
            assert(self@ =~= spec_exec_call(old(self)@, nnn).0);
        }
    }

    /// Store the three decimal digits of `Vx` at the index register: the
    /// `Fx33` instruction with its three cells in bounds.
    fn step_bcd(&mut self, x: u8)
        requires
            old(self).wf(),
            x < 16,
            old(self).pc < 4095,
            old(self).i < 4094,
        ensures
            final(self)@ == spec_exec_bcd(old(self)@, x).0,
    {
        let vx: u8 = self.v[x as usize];
        let base: usize = self.i as usize;
        self.memory[base] = vx / 100;
        self.memory[base + 1] = (vx / 10) % 10;
        self.memory[base + 2] = vx % 10;
        self.pc = self.pc + 2;
        proof {
            assert(self@ =~= spec_exec_bcd(old(self)@, x).0);
        }
    }

    /// Complete the `Fx0A` key wait: with a key down, its lowest index
    /// lands in `Vx` and the program counter moves on; with no key down
    /// nothing changes, and the instruction runs again next cycle.
    fn step_wait_key(&mut self, x: u8)
        requires
            old(self).wf(),
            x < 16,
            old(self).pc < 4095,
        ensures
            final(self)@ == spec_exec_wait_key(old(self)@, x),
    {
        match self.first_pressed_key() {
            Some(k) => {
                self.v[x as usize] = k;
                self.pc = self.pc + 2;
                proof {
                    assert(self@ =~= spec_exec_set_v(old(self)@, x, k));
                }
            },
            None => {},
        }
    }

    /// Execute one already-decoded instruction: exactly the transition
    /// `spec_exec` states, without the fetch or the timer tick.
    #[verifier::rlimit(100)]
    #[verifier::spinoff_prover]
    fn step_decoded(&mut self, instr: Instruction, rand: u8) -> (result: Result<
        (),
        EmulateCycleError,
    >)
        requires
            old(self).wf(),
            old(self).pc < 4095,
            instr_fields_wf(instr),
        ensures
            final(self).wf(),
            final(self)@ == spec_exec(old(self)@, instr, rand).0,
            result == spec_exec(old(self)@, instr, rand).1,
    {
        let ghost pre = self@;
        match instr {
            Instruction::Cls => {
                self.clear_display();
                self.pc = self.pc + 2;
                proof {
                    assert(self@ =~= spec_exec_cls(pre));
                }
            },
            Instruction::Ret => {
                if self.sp == 0 {
                    return Err(EmulateCycleError::StackUnderflow);
                }
                self.step_ret();
            },
            Instruction::Jp { nnn } => {
                self.pc = nnn;
                proof {
                    assert(self@ =~= spec_exec(pre, instr, rand).0);
                }
            },
            Instruction::Call { nnn } => {
                if self.sp >= 15 {
                    return Err(EmulateCycleError::StackOverflow);
                }
                self.step_call(nnn);
            },
            Instruction::SeImm { x, kk } => {
                if self.v[x as usize] == kk {
                    self.pc = self.pc + 4;
                } else {
                    self.pc = self.pc + 2;
                }
                proof {
                    assert(self@ =~= spec_exec_skip(pre, pre.v[x as int] == kk));
                }
            },
            Instruction::SneImm { x, kk } => {
                if self.v[x as usize] != kk {
                    self.pc = self.pc + 4;
                } else {
                    self.pc = self.pc + 2;
                }
                proof {
                    assert(self@ =~= spec_exec_skip(pre, pre.v[x as int] != kk));
                }
            },
            Instruction::SeReg { x, y } => {
                if self.v[x as usize] == self.v[y as usize] {
                    self.pc = self.pc + 4;
                } else {
                    self.pc = self.pc + 2;
                }
                proof {
                    assert(self@ =~= spec_exec_skip(pre, pre.v[x as int] == pre.v[y as int]));
                }
            },
            Instruction::LdImm { x, kk } => {
                self.step_set_v(x, kk);
            },
            Instruction::AddImm { x, kk } => {
                let sum: u16 = self.v[x as usize] as u16 + kk as u16;
                self.step_set_v(x, (sum % 256) as u8);
            },
            Instruction::LdReg { x, y } => {
                let val: u8 = self.v[y as usize];
                self.step_set_v(x, val);
            },
            Instruction::OrReg { x, y } => {
                let val: u8 = self.v[x as usize] | self.v[y as usize];
                self.step_set_v(x, val);
            },
            Instruction::AndReg { x, y } => {
                let val: u8 = self.v[x as usize] & self.v[y as usize];
                self.step_set_v(x, val);
            },
            Instruction::XorReg { x, y } => {
                let val: u8 = self.v[x as usize] ^ self.v[y as usize];
                self.step_set_v(x, val);
            },
            Instruction::AddReg { x, y } => {
                let sum: u16 = self.v[x as usize] as u16 + self.v[y as usize] as u16;
                let flag: u8 = if sum > 255 {
                    1
                } else {
                    0
                };
                self.step_alu(x, flag, (sum % 256) as u8);
            },
            Instruction::SubReg { x, y } => {
                let vx: u8 = self.v[x as usize];
                let vy: u8 = self.v[y as usize];
                let flag: u8 = if vx > vy {
                    1
                } else {
                    0
                };
                proof {
                    assert(vx.wrapping_sub(vy) == ((vx - vy) % 256) as u8);
                }
                self.step_alu(x, flag, vx.wrapping_sub(vy));
            },
            Instruction::Shr { x } => {
                let vx: u8 = self.v[x as usize];
                self.step_alu(x, vx % 2, vx / 2);
            },
            Instruction::SubnReg { x, y } => {
                let vx: u8 = self.v[x as usize];
                let vy: u8 = self.v[y as usize];
                let flag: u8 = if vy >= vx {
                    1
                } else {
                    0
                };
                proof {
                    assert(vy.wrapping_sub(vx) == ((vy - vx) % 256) as u8);
                }
                self.step_alu(x, flag, vy.wrapping_sub(vx));
            },
            Instruction::Shl { x } => {
                let vx: u8 = self.v[x as usize];
                self.step_alu(x, vx / 128, (vx % 128) * 2);
            },
            Instruction::SneReg { x, y } => {
                if self.v[x as usize] != self.v[y as usize] {
                    self.pc = self.pc + 4;
                } else {
                    self.pc = self.pc + 2;
                }
                proof {
                    assert(self@ =~= spec_exec_skip(pre, pre.v[x as int] != pre.v[y as int]));
                }
            },
            Instruction::LdI { nnn } => {
                self.step_set_i(nnn);
            },
            Instruction::JpV0 { nnn } => {
                self.pc = nnn + self.v[0] as u16;
                proof {
                    assert(self@ =~= spec_exec(pre, instr, rand).0);
                }
            },
            Instruction::Rnd { x, kk } => {
                self.step_set_v(x, rand & kk);
            },
            Instruction::Drw { x, y, n } => {
                if n > 0 && self.i as usize + n as usize > 4096 {
                    return Err(EmulateCycleError::MemoryOutOfBounds);
                }
                let sx: u8 = self.v[x as usize];
                let sy: u8 = self.v[y as usize];
                self.exec_draw(sx, sy, n);
                self.pc = self.pc + 2;
                proof {
                    assert(self@ =~= spec_exec_drw(pre, x, y, n).0);
                }
            },
            Instruction::Skp { x } => {
                let vx: u8 = self.v[x as usize];
                if vx >= 16 {
                    return Err(EmulateCycleError::MemoryOutOfBounds);
                }
                if self.keys[vx as usize] {
                    self.pc = self.pc + 4;
                } else {
                    self.pc = self.pc + 2;
                }
                proof {
                    assert(self@ =~= spec_exec_key_skip(pre, x, false).0);
                }
            },
            Instruction::Sknp { x } => {
                let vx: u8 = self.v[x as usize];
                if vx >= 16 {
                    return Err(EmulateCycleError::MemoryOutOfBounds);
                }
                if !self.keys[vx as usize] {
                    self.pc = self.pc + 4;
                } else {
                    self.pc = self.pc + 2;
                }
                proof {
                    assert(self@ =~= spec_exec_key_skip(pre, x, true).0);
                }
            },
            Instruction::LdFromDt { x } => {
                let val: u8 = self.dt;
                self.step_set_v(x, val);
            },
            Instruction::WaitKey { x } => {
                self.step_wait_key(x);
            },
            Instruction::SetDt { x } => {
                self.dt = self.v[x as usize];
                self.pc = self.pc + 2;
                proof {
                    assert(self@ =~= spec_exec(pre, instr, rand).0);
                }
            },
            Instruction::SetSt { x } => {
                self.st = self.v[x as usize];
                self.pc = self.pc + 2;
                proof {
                    assert(self@ =~= spec_exec(pre, instr, rand).0);
                }
            },
            Instruction::AddI { x } => {
                let sum: u16 = self.i.wrapping_add(self.v[x as usize] as u16);
                proof {
                    assert(sum == ((pre.i + pre.v[x as int]) % 0x10000) as u16);
                }
                self.step_set_i(sum);
            },
            Instruction::LdFont { x } => {
                let glyph: u16 = 0x50 + (self.v[x as usize] as u16) * 5;
                self.step_set_i(glyph);
            },
            Instruction::Bcd { x } => {
                if self.i >= 4094 {
                    return Err(EmulateCycleError::MemoryOutOfBounds);
                }
                self.step_bcd(x);
            },
            Instruction::StoreRegs { x } => {
                if self.i as usize + x as usize >= 4096 {
                    return Err(EmulateCycleError::MemoryOutOfBounds);
                }
                self.exec_store_regs(x);
                self.pc = self.pc + 2;
                proof {
                    assert(self@ =~= spec_exec_store_regs(pre, x).0);
                }
            },
            Instruction::LoadRegs { x } => {
                if self.i as usize + x as usize >= 4096 {
                    return Err(EmulateCycleError::MemoryOutOfBounds);
                }
                self.exec_load_regs(x);
                self.pc = self.pc + 2;
                proof {
                    assert(self@ =~= spec_exec_load_regs(pre, x).0);
                }
            },
            Instruction::Unknown { op: bad } => {
                self.pc = self.pc + 2;
                proof {
                    assert(self@ =~= spec_exec(pre, instr, rand).0);
                }
                return Err(EmulateCycleError::UnhandledOpcode { op: bad });
            },
        }
        proof {
            assert(self@ == spec_exec(pre, instr, rand).0);
            assert(spec_exec(pre, instr, rand).1 is Ok);
            assert(self@.wf());
        }
        Ok(())
    }

    /// Execute exactly one cycle with `rand` as the byte the `Cxkk`
    /// instruction masks: fetch the opcode at the program counter, run the
    /// instruction it decodes to, and on success tick both timers once -
    /// precisely the transition `spec_step` states.
    ///
    /// The errors and the inputs on which they come, all stated by
    /// `spec_step`: `MemoryOutOfBounds` when the program counter cannot
    /// address a whole opcode, when `Dxyn`, `Fx33`, `Fx55` or `Fx65` would
    /// touch memory past 4095, or when `Ex9E`/`ExA1` name a key above 0xF;
    /// `StackUnderflow` on `00EE` with an empty stack; `StackOverflow` on
    /// `2nnn` with all fifteen usable slots full; `UnhandledOpcode` on an
    /// encoding that decodes to no instruction, which is stepped over.
    /// Every other input returns `Ok`.
    pub fn step_with_random(&mut self, rand: u8) -> (result: Result<(), EmulateCycleError>)
        requires
            old(self).wf(),
        ensures
            final(self).wf(),
            final(self)@ == spec_step(old(self)@, rand).0,
            result == spec_step(old(self)@, rand).1,
    {
        if self.pc >= 4095 {
            return Err(EmulateCycleError::MemoryOutOfBounds);
        }
        let op = self.fetch_current_opcode();
        proof {
            lemma_decode_fields(op);
        }
        let instr = decode(op);
        let result = self.step_decoded(instr, rand);
        if result.is_ok() {
            self.tick_timers();
        }
        result
    }

    /// Execute exactly one cycle: fetch the opcode at the program counter,
    /// run the instruction it decodes to, and on success tick both timers
    /// once. The byte the `Cxkk` instruction masks is drawn from the
    /// operating system's random number source, so the transition is
    /// `spec_step` for some such byte; every instruction but `Cxkk` ignores
    /// it (`crate::laws::lemma_step_ignores_random`). The errors are those
    /// of [`Cpu::step_with_random`].
    pub fn emulate_cycle(&mut self) -> (result: Result<(), EmulateCycleError>)
        requires
            old(self).wf(),
        ensures
            final(self).wf(),
            exists|rand: u8| #[trigger] spec_step(old(self)@, rand) == (final(self)@, result),
    {
        let rand = random_byte();
        let result = self.step_with_random(rand);
        proof {
            assert(spec_step(old(self)@, rand) == (self@, result));
        }
        result
    }
}

} // verus!
