//! The mathematical model of the machine: ghost views of the CPU state,
//! memory and display, and a total transition function giving the exact
//! outcome of one fetch-decode-execute step for every machine state.
use vstd::prelude::*;

use crate::arith::{diff_lo, diff_no_borrow, sum_carry, sum_lo};
use crate::display::{blank_pixels, disp_wf, pix_idx, DisplayView};
use crate::errors::{Chip8Error, StepEvent};
use crate::ram::{RAM_SIZE, RAM_START};

verus! {

/// The CPU state as the spec model sees it: the 16 general-purpose
/// registers, index register, the two timers, program counter, and the
/// 16-entry call stack with its pointer.
#[verifier::ext_equal]
pub struct CpuView {
    /// The 16 general-purpose 8-bit registers; register 15 doubles as the
    /// carry, borrow and collision flag.
    pub regs: Seq<u8>,
    /// The 16-bit index register used for memory-indirect opcodes.
    pub i: u16,
    /// The delay timer, decremented once per executed instruction.
    pub dt: u8,
    /// The sound timer, decremented once per executed instruction; the
    /// core tracks it but produces no tone.
    pub st: u8,
    /// The program counter: address of the next instruction's high byte.
    pub pc: u16,
    /// The number of call-stack slots in use, 0 to 16.
    pub sp: int,
    /// The 16 return-address slots; slots at `sp` and above are inactive.
    pub stack: Seq<u16>,
}

impl CpuView {
    /// Well-formedness: full register and stack files, stack pointer within
    /// capacity.
    pub open spec fn wf(self) -> bool {
        &&& self.regs.len() == 16
        &&& self.stack.len() == 16
        &&& 0 <= self.sp <= 16
    }
}

/// The whole machine as the spec model sees it.
#[verifier::ext_equal]
pub struct MachineView {
    /// The CPU state.
    pub cpu: CpuView,
    /// The 4096 memory bytes.
    pub mem: Seq<u8>,
    /// The framebuffer and key table.
    pub disp: DisplayView,
}

impl MachineView {
    /// Well-formedness of every part.
    pub open spec fn wf(self) -> bool {
        &&& self.cpu.wf()
        &&& self.mem.len() == RAM_SIZE
        &&& disp_wf(self.disp)
    }
}

/// What one step does: the machine afterwards, and its reported outcome.
/// On an error the machine is untouched.
#[verifier::ext_equal]
pub struct StepSpec {
    /// The machine after the step.
    pub m: MachineView,
    /// The outcome the step reports.
    pub r: Result<StepEvent, Chip8Error>,
}

/// Both timers decremented toward zero, as happens once after every
/// executed instruction.
pub open spec fn tick_timers(c: CpuView) -> CpuView {
    CpuView {
        dt: if c.dt > 0 {
            (c.dt - 1) as u8
        } else {
            c.dt
        },
        st: if c.st > 0 {
            (c.st - 1) as u8
        } else {
            c.st
        },
        ..c
    }
}

/// The CPU with the program counter set to an explicit target.
pub open spec fn with_pc(c: CpuView, pc: u16) -> CpuView {
    CpuView { pc, ..c }
}

/// The CPU advanced past the current 2-byte instruction.
pub open spec fn advanced(c: CpuView) -> CpuView {
    with_pc(c, (c.pc + 2) as u16)
}

/// The CPU after a conditional skip: 4 bytes ahead when the condition
/// holds, 2 otherwise.
pub open spec fn skipped(c: CpuView, cond: bool) -> CpuView {
    with_pc(c, if cond { (c.pc + 4) as u16 } else { (c.pc + 2) as u16 })
}

/// The CPU with register `x` set and the program counter advanced.
pub open spec fn reg_set(c: CpuView, x: int, v: u8) -> CpuView {
    CpuView { regs: c.regs.update(x, v), pc: (c.pc + 2) as u16, ..c }
}

/// The CPU after a call: the return address pushed, the stack pointer
/// raised, control transferred.  Meaningful only when a slot is free.
pub open spec fn called(c: CpuView, nnn: u16) -> CpuView {
    CpuView {
        stack: c.stack.update(c.sp, (c.pc + 2) as u16),
        sp: c.sp + 1,
        pc: nnn,
        ..c
    }
}

/// The CPU after a return: the stack pointer lowered and the program
/// counter restored from the popped slot.  Meaningful only when the stack
/// is nonempty.
pub open spec fn returned(c: CpuView) -> CpuView {
    CpuView { sp: c.sp - 1, pc: c.stack[c.sp - 1], ..c }
}

/// A successful step that touched only the CPU: the timers tick.
pub open spec fn cpu_ok(m: MachineView, c: CpuView) -> StepSpec {
    StepSpec {
        m: MachineView { cpu: tick_timers(c), ..m },
        r: Ok(StepEvent::Ran),
    }
}

/// A fatal step: the machine is untouched.
pub open spec fn fault(m: MachineView, e: Chip8Error) -> StepSpec {
    StepSpec { m, r: Err(e) }
}

/// The big-endian 16-bit word at the program counter.
pub open spec fn fetched(m: MachineView) -> u16 {
    (m.mem[m.cpu.pc as int] * 256 + m.mem[m.cpu.pc as int + 1]) as u16
}

/// Bit `bit` of a sprite row, most significant first: bit 0 is the leftmost
/// pixel of the row.
pub open spec fn sprite_row_bit(row_byte: u8, bit: int) -> u8 {
    (row_byte >> ((7 - bit) as u8)) & 1
}

/// The framebuffer and collision flag after XOR-drawing the leftmost
/// `nbits` bits of one sprite row at column `vx`, row `py`, columns
/// wrapping modulo the screen width.
pub open spec fn draw_bits(
    pix: Seq<u8>,
    flag: u8,
    vx: u8,
    py: int,
    row_byte: u8,
    nbits: int,
) -> (Seq<u8>, u8)
    decreases nbits,
{
    if nbits <= 0 {
        (pix, flag)
    } else {
        let prev = draw_bits(pix, flag, vx, py, row_byte, nbits - 1);
        let bit = nbits - 1;
        let idx = pix_idx((vx + bit) % 64, py);
        let sbit = sprite_row_bit(row_byte, bit);
        let old_pix = prev.0[idx];
        (prev.0.update(idx, old_pix ^ sbit), prev.1 | (old_pix & sbit))
    }
}

/// The framebuffer and collision flag after XOR-drawing an `nrows`-byte
/// sprite read from memory at `i`, at screen position (`vx`, `vy`), both
/// coordinates wrapping.  The flag starts from 0 and accumulates
/// `old_pixel AND sprite_bit` over every drawn bit.
pub open spec fn draw_sprite(
    pix: Seq<u8>,
    vx: u8,
    vy: u8,
    i: u16,
    mem: Seq<u8>,
    nrows: int,
) -> (Seq<u8>, u8)
    decreases nrows,
{
    if nrows <= 0 {
        (pix, 0u8)
    } else {
        let prev = draw_sprite(pix, vx, vy, i, mem, nrows - 1);
        let row = nrows - 1;
        draw_bits(prev.0, prev.1, vx, (vy + row) % 32, mem[i + row], 8)
    }
}

/// Memory after the registers 0 through `cnt - 1` are stored at consecutive
/// addresses from `base`.
pub open spec fn stored_regs(mem: Seq<u8>, base: int, regs: Seq<u8>, cnt: int) -> Seq<u8>
    decreases cnt,
{
    if cnt <= 0 {
        mem
    } else {
        stored_regs(mem, base, regs, cnt - 1).update(base + cnt - 1, regs[cnt - 1])
    }
}

/// The register file after registers 0 through `cnt - 1` are loaded from
/// consecutive addresses from `base`.
pub open spec fn loaded_regs(regs: Seq<u8>, mem: Seq<u8>, base: int, cnt: int) -> Seq<u8>
    decreases cnt,
{
    if cnt <= 0 {
        regs
    } else {
        loaded_regs(regs, mem, base, cnt - 1).update(cnt - 1, mem[base + cnt - 1])
    }
}

/// The lowest-numbered key at or above `start` that is currently held, or
/// 16 when none is.
pub open spec fn first_held(keys: Seq<bool>, start: int) -> int
    decreases 16 - start,
{
    if start < 0 || start >= 16 {
        16
    } else if keys[start] {
        start
    } else {
        first_held(keys, start + 1)
    }
}

/// Executes the already-fetched word `w` on machine `m`; `rnd` is the byte
/// the random-number opcode masks.  Dispatch goes by the operation class,
/// the variant nibble and the `y` nibble; unmatched combinations fault with
/// the raw word.
pub open spec fn spec_exec(m: MachineView, w: u16, rnd: u8) -> StepSpec {
    let c = m.cpu;
    let h = w as int / 4096;
    let x = (w as int / 256) % 16;
    let y = (w as int / 16) % 16;
    let l = w as int % 16;
    let nnn = (w as int % 4096) as u16;
    let kk = (w as int % 256) as u8;
    if h == 0 {
        if y == 0xE && l == 0 {
            // clear the framebuffer
            StepSpec {
                m: MachineView {
                    cpu: tick_timers(advanced(c)),
                    disp: DisplayView { pixels: blank_pixels(), keys: m.disp.keys },
                    ..m
                },
                r: Ok(StepEvent::Ran),
            }
        } else if y == 0xE && l == 0xE {
            if c.sp == 0 {
                fault(m, Chip8Error::StackUnderflow)
            } else {
                cpu_ok(m, returned(c))
            }
        } else {
            fault(m, Chip8Error::UnknownInstruction(w))
        }
    } else if h == 1 {
        cpu_ok(m, with_pc(c, nnn))
    } else if h == 2 {
        if c.sp >= 16 {
            fault(m, Chip8Error::StackOverflow)
        } else {
            cpu_ok(m, called(c, nnn))
        }
    } else if h == 3 {
        cpu_ok(m, skipped(c, c.regs[x] == kk))
    } else if h == 4 {
        cpu_ok(m, skipped(c, c.regs[x] != kk))
    } else if h == 5 {
        if l == 0 {
            cpu_ok(m, skipped(c, c.regs[x] == c.regs[y]))
        } else {
            fault(m, Chip8Error::UnknownInstruction(w))
        }
    } else if h == 6 {
        cpu_ok(m, reg_set(c, x, kk))
    } else if h == 7 {
        cpu_ok(m, reg_set(c, x, sum_lo(c.regs[x] as int, kk as int) as u8))
    } else if h == 8 {
        let vx = c.regs[x];
        let vy = c.regs[y];
        if l == 0 {
            cpu_ok(m, reg_set(c, x, vy))
        } else if l == 1 {
            cpu_ok(m, reg_set(c, x, vx | vy))
        } else if l == 2 {
            cpu_ok(m, reg_set(c, x, vx & vy))
        } else if l == 3 {
            cpu_ok(m, reg_set(c, x, vx ^ vy))
        } else if l == 4 {
            // result first, then the carry flag: the flag wins on register 15
            let c1 = reg_set(c, x, sum_lo(vx as int, vy as int) as u8);
            cpu_ok(
                m,
                CpuView { regs: c1.regs.update(15, sum_carry(vx as int, vy as int) as u8), ..c1 },
            )
        } else if l == 5 {
            // flag first, then the result: the result wins on register 15
            let c1 = CpuView {
                regs: c.regs.update(15, diff_no_borrow(vx as int, vy as int) as u8),
                ..c
            };
            cpu_ok(m, reg_set(c1, x, diff_lo(vx as int, vy as int) as u8))
        } else if l == 6 {
            let c1 = CpuView { regs: c.regs.update(15, (vx % 2) as u8), ..c };
            cpu_ok(m, reg_set(c1, x, (vx / 2) as u8))
        } else if l == 7 {
            let c1 = CpuView {
                regs: c.regs.update(15, diff_no_borrow(vy as int, vx as int) as u8),
                ..c
            };
            cpu_ok(m, reg_set(c1, x, diff_lo(vy as int, vx as int) as u8))
        } else if l == 0xE {
            let c1 = CpuView { regs: c.regs.update(15, (vx / 128) as u8), ..c };
            cpu_ok(m, reg_set(c1, x, ((vx * 2) % 256) as u8))
        } else {
            fault(m, Chip8Error::UnknownInstruction(w))
        }
    } else if h == 9 {
        if l == 0 {
            cpu_ok(m, skipped(c, c.regs[x] != c.regs[y]))
        } else {
            fault(m, Chip8Error::UnknownInstruction(w))
        }
    } else if h == 0xA {
        cpu_ok(m, CpuView { i: nnn, pc: (c.pc + 2) as u16, ..c })
    } else if h == 0xB {
        cpu_ok(m, with_pc(c, (nnn + c.regs[0]) as u16))
    } else if h == 0xC {
        cpu_ok(m, reg_set(c, x, rnd & kk))
    } else if h == 0xD {
        if c.i + l > RAM_SIZE {
            fault(m, Chip8Error::AddressOutOfBounds)
        } else {
            let d = draw_sprite(m.disp.pixels, c.regs[x], c.regs[y], c.i, m.mem, l);
            StepSpec {
                m: MachineView {
                    cpu: tick_timers(
                        CpuView { regs: c.regs.update(15, d.1), pc: (c.pc + 2) as u16, ..c },
                    ),
                    disp: DisplayView { pixels: d.0, keys: m.disp.keys },
                    ..m
                },
                r: Ok(StepEvent::Ran),
            }
        }
    } else if h == 0xE {
        let key = c.regs[x];
        if y == 9 && l == 0xE {
            if key >= 16 {
                fault(m, Chip8Error::InvalidKey)
            } else {
                cpu_ok(m, skipped(c, m.disp.keys[key as int]))
            }
        } else if y == 0xA && l == 1 {
            if key >= 16 {
                fault(m, Chip8Error::InvalidKey)
            } else {
                cpu_ok(m, skipped(c, !m.disp.keys[key as int]))
            }
        } else {
            fault(m, Chip8Error::UnknownInstruction(w))
        }
    } else {
        if y == 0 && l == 7 {
            cpu_ok(m, reg_set(c, x, c.dt))
        } else if y == 0 && l == 0xA {
            let k = first_held(m.disp.keys, 0);
            if k >= 16 {
                StepSpec { m, r: Ok(StepEvent::WaitingForKey) }
            } else {
                cpu_ok(m, reg_set(c, x, k as u8))
            }
        } else if y == 1 && l == 5 {
            cpu_ok(m, CpuView { dt: c.regs[x], pc: (c.pc + 2) as u16, ..c })
        } else if y == 1 && l == 8 {
            cpu_ok(m, CpuView { st: c.regs[x], pc: (c.pc + 2) as u16, ..c })
        } else if y == 1 && l == 0xE {
            cpu_ok(
                m,
                CpuView { i: ((c.i + c.regs[x]) % 0x10000) as u16, pc: (c.pc + 2) as u16, ..c },
            )
        } else if y == 2 && l == 9 {
            cpu_ok(m, CpuView { i: (c.regs[x] * 5) as u16, pc: (c.pc + 2) as u16, ..c })
        } else if y == 3 && l == 3 {
            if c.i < RAM_START {
                fault(m, Chip8Error::ProtectedWrite)
            } else if c.i + 2 >= RAM_SIZE {
                fault(m, Chip8Error::AddressOutOfBounds)
            } else {
                let vx = c.regs[x];
                let mem2 = m.mem.update(c.i as int, (vx / 100) as u8).update(
                    c.i + 1,
                    ((vx / 10) % 10) as u8,
                ).update(c.i + 2, (vx % 10) as u8);
                StepSpec {
                    m: MachineView { cpu: tick_timers(advanced(c)), mem: mem2, ..m },
                    r: Ok(StepEvent::Ran),
                }
            }
        } else if y == 5 && l == 5 {
            if c.i < RAM_START {
                fault(m, Chip8Error::ProtectedWrite)
            } else if c.i + x >= RAM_SIZE {
                fault(m, Chip8Error::AddressOutOfBounds)
            } else {
                let mem2 = stored_regs(m.mem, c.i as int, c.regs, x + 1);
                StepSpec {
                    m: MachineView { cpu: tick_timers(advanced(c)), mem: mem2, ..m },
                    r: Ok(StepEvent::Ran),
                }
            }
        } else if y == 6 && l == 5 {
            if c.i + x >= RAM_SIZE {
                fault(m, Chip8Error::AddressOutOfBounds)
            } else {
                let regs2 = loaded_regs(c.regs, m.mem, c.i as int, x + 1);
                cpu_ok(m, CpuView { regs: regs2, pc: (c.pc + 2) as u16, ..c })
            }
        } else {
            fault(m, Chip8Error::UnknownInstruction(w))
        }
    }
}

/// One whole step of the machine: fetch (faulting when the program counter
/// runs off memory), decode, execute, and tick the delay timer.
pub open spec fn spec_step(m: MachineView, rnd: u8) -> StepSpec {
    if m.cpu.pc + 1 >= RAM_SIZE {
        fault(m, Chip8Error::AddressOutOfBounds)
    } else {
        spec_exec(m, fetched(m), rnd)
    }
}

/// One step took the machine from `m0` to `m1` reporting `r`, with `rnd` as
/// the byte the random-number opcode masked.
pub open spec fn step_rel(
    m0: MachineView,
    m1: MachineView,
    r: Result<StepEvent, Chip8Error>,
    rnd: u8,
) -> bool {
    let out = spec_step(m0, rnd);
    m1 == out.m && r == out.r
}

/// The machine after `n` steps, each with a zero random byte.
pub open spec fn spec_run(m: MachineView, n: nat) -> MachineView
    decreases n,
{
    if n == 0 {
        m
    } else {
        spec_step(spec_run(m, (n - 1) as nat), 0).m
    }
}

} // verus!
