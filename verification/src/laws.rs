//! Laws of the engine that relate several operations, stated over the spec
//! model and proved once for all inputs.
use vstd::prelude::*;

use crate::display::SCREEN_PIXELS;
use crate::errors::{Chip8Error, StepEvent};
use crate::model::{
    called, draw_bits, draw_sprite, fetched, loaded_regs, returned, skipped, spec_run, spec_step,
    sprite_row_bit, stored_regs, CpuView, MachineView,
};
use crate::ram::{RAM_SIZE, RAM_START};

verus! {

/// Storing `cnt` registers at `base` leaves memory the same length, holds
/// exactly those registers at `base`, and touches nothing else.
proof fn lemma_stored_regs_at(mem: Seq<u8>, base: int, regs: Seq<u8>, cnt: int)
    requires
        0 <= cnt <= regs.len(),
        0 <= base,
        base + cnt <= mem.len(),
    ensures
        stored_regs(mem, base, regs, cnt).len() == mem.len(),
        forall|j: int| 0 <= j < cnt ==> stored_regs(mem, base, regs, cnt)[base + j] == regs[j],
        forall|a: int|
            0 <= a < mem.len() && !(base <= a < base + cnt) ==> stored_regs(
                mem,
                base,
                regs,
                cnt,
            )[a] == mem[a],
    decreases cnt,
{
    if cnt > 0 {
        lemma_stored_regs_at(mem, base, regs, cnt - 1);
    }
}

/// Loading `cnt` registers from `base` leaves the register file the same
/// length, fills exactly the first `cnt` registers from memory, and leaves
/// the rest alone.
proof fn lemma_loaded_regs_at(regs: Seq<u8>, mem: Seq<u8>, base: int, cnt: int)
    requires
        0 <= cnt <= regs.len(),
    ensures
        loaded_regs(regs, mem, base, cnt).len() == regs.len(),
        forall|j: int| 0 <= j < cnt ==> loaded_regs(regs, mem, base, cnt)[j] == mem[base + j],
        forall|j: int|
            cnt <= j < regs.len() ==> loaded_regs(regs, mem, base, cnt)[j] == regs[j],
    decreases cnt,
{
    if cnt > 0 {
        lemma_loaded_regs_at(regs, mem, base, cnt - 1);
    }
}

/// Round trip: storing registers 0 through `cnt - 1` at `base` and then
/// loading the same range back restores the register file exactly.
pub proof fn lemma_store_load_round_trip(regs: Seq<u8>, mem: Seq<u8>, base: int, cnt: int)
    requires
        0 <= cnt <= regs.len(),
        0 <= base,
        base + cnt <= mem.len(),
    ensures
        loaded_regs(regs, stored_regs(mem, base, regs, cnt), base, cnt) == regs,
{
    lemma_stored_regs_at(mem, base, regs, cnt);
    lemma_loaded_regs_at(regs, stored_regs(mem, base, regs, cnt), base, cnt);
    assert(loaded_regs(regs, stored_regs(mem, base, regs, cnt), base, cnt) =~= regs);
}

/// Drawing part of one sprite row keeps the framebuffer's length and keeps
/// every pixel a single bit.
proof fn lemma_draw_bits_wf(pix: Seq<u8>, flag: u8, vx: u8, py: int, row_byte: u8, nbits: int)
    requires
        pix.len() == SCREEN_PIXELS,
        forall|p: int| 0 <= p < pix.len() ==> pix[p] <= 1,
        0 <= py < 32,
        0 <= nbits <= 8,
    ensures
        draw_bits(pix, flag, vx, py, row_byte, nbits).0.len() == pix.len(),
        forall|p: int|
            0 <= p < pix.len() ==> draw_bits(pix, flag, vx, py, row_byte, nbits).0[p] <= 1,
    decreases nbits,
{
    if nbits > 0 {
        lemma_draw_bits_wf(pix, flag, vx, py, row_byte, nbits - 1);
        let bit = nbits - 1;
        let sh = (7 - bit) as u8;
        assert(((row_byte >> sh) & 1) <= 1) by (bit_vector);
        let prev = draw_bits(pix, flag, vx, py, row_byte, nbits - 1);
        let idx = crate::display::pix_idx((vx + bit) % 64, py);
        let old_pix = prev.0[idx];
        let sbit = sprite_row_bit(row_byte, bit);
        assert((old_pix ^ sbit) <= 1) by (bit_vector)
            requires
                old_pix <= 1,
                sbit <= 1,
        ;
    }
}

/// Drawing a whole sprite keeps the framebuffer's length and keeps every
/// pixel a single bit.
proof fn lemma_draw_sprite_wf(pix: Seq<u8>, vx: u8, vy: u8, i: u16, mem: Seq<u8>, nrows: int)
    requires
        pix.len() == SCREEN_PIXELS,
        forall|p: int| 0 <= p < pix.len() ==> pix[p] <= 1,
        0 <= nrows <= 16,
    ensures
        draw_sprite(pix, vx, vy, i, mem, nrows).0.len() == pix.len(),
        forall|p: int|
            0 <= p < pix.len() ==> draw_sprite(pix, vx, vy, i, mem, nrows).0[p] <= 1,
    decreases nrows,
{
    if nrows > 0 {
        lemma_draw_sprite_wf(pix, vx, vy, i, mem, nrows - 1);
        let prev = draw_sprite(pix, vx, vy, i, mem, nrows - 1);
        let row = nrows - 1;
        lemma_draw_bits_wf(prev.0, prev.1, vx, (vy + row) % 32, mem[i + row], 8);
    }
}

/// Invariant: one step of a well-formed machine yields a well-formed
/// machine, whatever the outcome: full register and stack files, the stack
/// pointer within capacity, memory of fixed size, and a single-bit
/// framebuffer.
#[verifier::rlimit(100)]
pub proof fn lemma_step_preserves_wf(m: MachineView, rnd: u8)
    requires
        m.wf(),
    ensures
        spec_step(m, rnd).m.wf(),
{
    if m.cpu.pc + 1 < RAM_SIZE {
        let w = fetched(m);
        let c = m.cpu;
        let h = w as int / 4096;
        let x = (w as int / 256) % 16;
        let y = (w as int / 16) % 16;
        let l = w as int % 16;
        if h == 0xD && c.i + l <= RAM_SIZE {
            lemma_draw_sprite_wf(m.disp.pixels, c.regs[x], c.regs[y], c.i, m.mem, l);
        }
        if h == 0xF && y == 5 && l == 5 && c.i >= RAM_START && c.i + x < RAM_SIZE {
            lemma_stored_regs_at(m.mem, c.i as int, c.regs, x + 1);
        }
        if h == 0xF && y == 6 && l == 5 {
            lemma_loaded_regs_at(c.regs, m.mem, c.i as int, x + 1);
        }
    }
}

/// Store-registers immediately followed by load-registers for the same
/// `x` and index register restores registers 0 through `x` unchanged: a
/// CPU whose store succeeded (its index register in the writable region
/// with room for `x + 1` bytes) reads back exactly the register file it
/// wrote, whatever memory held before.
pub proof fn lemma_write_then_read_regs(c: CpuView, mem: Seq<u8>, x: int)
    requires
        c.wf(),
        mem.len() == RAM_SIZE,
        0 <= x < 16,
        RAM_START <= c.i,
        c.i + x < RAM_SIZE,
    ensures
        loaded_regs(c.regs, stored_regs(mem, c.i as int, c.regs, x + 1), c.i as int, x + 1)
            == c.regs,
{
    lemma_store_load_round_trip(c.regs, mem, c.i as int, x + 1);
}

/// Skip-on-not-equal is the exact complement of skip-on-equal: from one
/// and the same state, for any operand pair, the one advances the program
/// counter by 4 exactly when the other advances it by 2, and conversely.
pub proof fn lemma_skip_complement(c: CpuView, a: u8, b: u8)
    requires
        c.pc + 4 <= u16::MAX,
    ensures
        skipped(c, a == b).pc == c.pc + 4 <==> skipped(c, a != b).pc == c.pc + 2,
        skipped(c, a == b).pc == c.pc + 2 <==> skipped(c, a != b).pc == c.pc + 4,
{
}

/// Determinism: unless the fetched word is the random-number opcode, the
/// step's outcome does not depend on the random byte at all.
#[verifier::rlimit(100)]
pub proof fn lemma_step_rnd_irrelevant(m: MachineView, rnd1: u8, rnd2: u8)
    requires
        m.cpu.pc + 1 >= RAM_SIZE || fetched(m) as int / 4096 != 0xC,
    ensures
        spec_step(m, rnd1) == spec_step(m, rnd2),
{
    assert(spec_step(m, rnd1) =~~= spec_step(m, rnd2));
}

/// The machine sits on a jump-to-self instruction: the fetched word is a
/// jump whose target is the program counter itself.
pub open spec fn jump_self_at(m: MachineView) -> bool {
    let w = fetched(m);
    &&& m.wf()
    &&& m.cpu.pc + 1 < RAM_SIZE
    &&& w as int / 4096 == 1
    &&& w as int % 4096 == m.cpu.pc
}

/// One step of a machine sitting on a jump-to-self succeeds, moves neither
/// the program counter nor memory, and leaves it sitting on the same jump.
proof fn lemma_jump_self_step(m: MachineView, rnd: u8)
    requires
        jump_self_at(m),
    ensures
        spec_step(m, rnd).r == Ok::<StepEvent, Chip8Error>(StepEvent::Ran),
        spec_step(m, rnd).m.cpu.pc == m.cpu.pc,
        spec_step(m, rnd).m.mem == m.mem,
        jump_self_at(spec_step(m, rnd).m),
{
}

/// A machine sitting on a jump-to-self keeps its program counter forever:
/// after any number of steps every step has succeeded and the program
/// counter is unmoved.
pub proof fn lemma_jump_self_forever(m: MachineView, n: nat)
    requires
        jump_self_at(m),
    ensures
        spec_run(m, n).cpu.pc == m.cpu.pc,
        jump_self_at(spec_run(m, n)),
        n > 0 ==> spec_step(spec_run(m, (n - 1) as nat), 0).r == Ok::<StepEvent, Chip8Error>(
            StepEvent::Ran,
        ),
    decreases n,
{
    if n > 0 {
        lemma_jump_self_forever(m, (n - 1) as nat);
        lemma_jump_self_step(spec_run(m, (n - 1) as nat), 0);
    }
}

/// Call then return: a call pushes the address of the following
/// instruction; any interlude that leaves the stack region as the call
/// left it and comes back to the call's depth makes the next return
/// restore the program counter to exactly that following instruction and
/// the stack pointer to its pre-call depth.
pub proof fn lemma_call_return(c: CpuView, target: u16, c2: CpuView)
    requires
        c.wf(),
        c.sp < 16,
        c.pc + 2 <= u16::MAX,
        c2.sp == called(c, target).sp,
        c2.stack == called(c, target).stack,
    ensures
        returned(c2).pc == c.pc + 2,
        returned(c2).sp == c.sp,
{
}

} // verus!
