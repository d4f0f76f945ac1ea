//! The execution engine: the register file, call stack and timers, the
//! opcode handlers, and the fetch-decode-execute step.
use vstd::prelude::*;

use crate::arith::{add_with_carry, sub_with_borrow};
use crate::decode::Instruction;
use crate::display::{blank_pixels, Display};
use crate::errors::{Chip8Error, StepEvent};
use crate::model::{
    advanced, called, draw_bits, draw_sprite, fetched, first_held, loaded_regs, reg_set, returned,
    skipped, spec_exec, sprite_row_bit, step_rel, stored_regs, tick_timers, with_pc, CpuView,
    MachineView,
};
use crate::ram::{Ram, RAM_SIZE, RAM_START};
use crate::rng::random_byte;

verus! {

/// Number of general-purpose registers and of call-stack slots.
pub const NUM_REGS: usize = 16;

/// Depth of the call stack.
pub const STACK_DEPTH: usize = 16;

/// The CPU: registers, index register, timers, program counter and call
/// stack.  Memory and the display are passed into `step` by reference.
pub struct Cpu {
    /// The 16 general-purpose registers; register 15 is the flag register.
    pub regs: Vec<u8>,
    /// The index register.
    pub i: u16,
    /// The delay timer.
    pub dt: u8,
    /// The sound timer.
    pub st: u8,
    /// The program counter.
    pub pc: u16,
    /// Number of call-stack slots in use.
    pub sp: usize,
    /// The return-address slots.
    pub stack: Vec<u16>,
}

impl View for Cpu {
    type V = CpuView;

    open spec fn view(&self) -> CpuView {
        CpuView {
            regs: self.regs@,
            i: self.i,
            dt: self.dt,
            st: self.st,
            pc: self.pc,
            sp: self.sp as int,
            stack: self.stack@,
        }
    }
}

/// A zero-filled byte vector of the given length.
fn zero_bytes(n: usize) -> (v: Vec<u8>)
    ensures
        v@.len() == n,
        forall|j: int| 0 <= j < n ==> v@[j] == 0u8,
{
    let mut v: Vec<u8> = Vec::new();
    while v.len() < n
        invariant
            v@.len() <= n,
            forall|j: int| 0 <= j < v@.len() ==> v@[j] == 0u8,
        decreases n - v@.len(),
    {
        v.push(0);
    }
    v
}

/// Index of the lowest-numbered held key, or 16 when none is held.
fn first_key_down(display: &Display) -> (k: u8)
    requires
        display.wf(),
    ensures
        k == first_held(display@.keys, 0),
        k <= 16,
{
    let mut k: u8 = 0;
    while k < 16
        invariant
            k <= 16,
            display.wf(),
            forall|j: int| 0 <= j < k ==> !display@.keys[j],
        decreases 16 - k,
    {
        if display.is_key_down(k) {
            proof {
                lemma_first_held_skip(display@.keys, 0, k as int);
            }
            return k;
        }
        k = k + 1;
    }
    proof {
        lemma_first_held_skip(display@.keys, 0, 16);
    }
    16
}

/// Scanning for the first held key can start anywhere inside a prefix of
/// keys known not to be held.
proof fn lemma_first_held_skip(keys: Seq<bool>, s: int, k: int)
    requires
        0 <= s <= k <= 16,
        forall|j: int| s <= j < k ==> !keys[j],
    ensures
        first_held(keys, s) == first_held(keys, k),
    decreases k - s,
{
    if s < k {
        assert(!keys[s]);
        lemma_first_held_skip(keys, s + 1, k);
    }
}

impl Cpu {
    /// Well-formedness: full register and stack files, stack pointer within
    /// capacity.
    pub open spec fn wf(self) -> bool {
        self@.wf()
    }

    /// A fresh CPU: everything zeroed, the program counter at the start of
    /// the writable program region.
    pub fn new() -> (r: Cpu)
        ensures
            r.wf(),
            r@.pc == RAM_START,
            r@.i == 0 && r@.dt == 0 && r@.st == 0 && r@.sp == 0,
            forall|j: int| 0 <= j < 16 ==> r@.regs[j] == 0u8,
            forall|j: int| 0 <= j < 16 ==> r@.stack[j] == 0u16,
    {
        let regs = zero_bytes(NUM_REGS);
        let mut stack: Vec<u16> = Vec::new();
        while stack.len() < STACK_DEPTH
            invariant
                stack@.len() <= STACK_DEPTH,
                forall|j: int| 0 <= j < stack@.len() ==> stack@[j] == 0u16,
            decreases STACK_DEPTH - stack@.len(),
        {
            stack.push(0);
        }
        Cpu { regs, i: 0, dt: 0, st: 0, pc: RAM_START, sp: 0, stack }
    }

    /// The delay timer's current value, for host-side pacing.
    pub fn delay_timer(&self) -> (r: u8)
        ensures
            r == self@.dt,
    {
        self.dt
    }

    /// Clears the framebuffer and advances past the instruction.
    pub fn cls(&mut self, display: &mut Display)
        requires
            old(self).wf(),
            old(display).wf(),
            old(self).pc + 2 <= u16::MAX,
        ensures
            final(self).wf(),
            final(display).wf(),
            final(self)@ == advanced(old(self)@),
            final(display)@.pixels == blank_pixels(),
            final(display)@.keys == old(display)@.keys,
    {
        display.clear();
        self.pc = self.pc + 2;
    }

    /// Pops the call stack into the program counter.  Fails, leaving the
    /// CPU untouched, exactly when the stack is empty.
    pub fn ret(&mut self) -> (r: Result<(), Chip8Error>)
        requires
            old(self).wf(),
        ensures
            final(self).wf(),
            match r {
                Ok(()) => old(self)@.sp > 0 && final(self)@ == returned(old(self)@),
                Err(e) => {
                    &&& e == Chip8Error::StackUnderflow
                    &&& old(self)@.sp == 0
                    &&& final(self)@ == old(self)@
                },
            },
    {
        if self.sp == 0 {
            return Err(Chip8Error::StackUnderflow);
        }
        self.sp = self.sp - 1;
        self.pc = self.stack[self.sp];
        Ok(())
    }

    /// Transfers control to an explicit target.
    pub fn jump(&mut self, addr: u16)
        requires
            old(self).wf(),
        ensures
            final(self).wf(),
            final(self)@ == with_pc(old(self)@, addr),
    {
        self.pc = addr;
    }

    /// Pushes the return address and transfers control.  Fails, leaving the
    /// CPU untouched, exactly when all stack slots are in use.
    pub fn call(&mut self, addr: u16) -> (r: Result<(), Chip8Error>)
        requires
            old(self).wf(),
            old(self).pc + 2 <= u16::MAX,
        ensures
            final(self).wf(),
            match r {
                Ok(()) => old(self)@.sp < 16 && final(self)@ == called(old(self)@, addr),
                Err(e) => {
                    &&& e == Chip8Error::StackOverflow
                    &&& old(self)@.sp == 16
                    &&& final(self)@ == old(self)@
                },
            },
    {
        if self.sp >= STACK_DEPTH {
            return Err(Chip8Error::StackOverflow);
        }
        self.stack[self.sp] = self.pc + 2;
        self.sp = self.sp + 1;
        self.pc = addr;
        Ok(())
    }

    /// The shared skip primitive: when `eq` is set it skips on equality,
    /// when clear it skips on inequality.  A skip advances the program
    /// counter by exactly 4, a non-skip by exactly 2.
    pub fn skip(&mut self, a: u8, b: u8, eq: bool)
        requires
            old(self).wf(),
            old(self).pc + 4 <= u16::MAX,
        ensures
            final(self).wf(),
            final(self)@ == skipped(old(self)@, (eq && a == b) || (!eq && a != b)),
    {
        if (eq && a == b) || (!eq && a != b) {
            self.pc = self.pc + 4;
        } else {
            self.pc = self.pc + 2;
        }
    }

    /// Sets register `x` and advances past the instruction.
    pub fn set_reg(&mut self, x: u8, v: u8)
        requires
            old(self).wf(),
            x < 16,
            old(self).pc + 2 <= u16::MAX,
        ensures
            final(self).wf(),
            final(self)@ == reg_set(old(self)@, x as int, v),
    {
        self.regs[x as usize] = v;
        self.pc = self.pc + 2;
    }

    /// Stores the three decimal digits of register `x` at the index
    /// register: hundreds, tens, ones.  Fails, touching nothing, exactly
    /// when a target address is protected or out of bounds.
    pub fn store_bcd(&mut self, x: u8, ram: &mut Ram) -> (r: Result<(), Chip8Error>)
        requires
            old(self).wf(),
            old(ram).wf(),
            x < 16,
            old(self).pc + 2 <= u16::MAX,
        ensures
            final(self).wf(),
            final(ram).wf(),
            match r {
                Ok(()) => {
                    &&& RAM_START <= old(self).i
                    &&& old(self).i + 2 < RAM_SIZE
                    &&& final(self)@ == advanced(old(self)@)
                    &&& final(ram)@ == old(ram)@.update(
                        old(self).i as int,
                        (old(self)@.regs[x as int] / 100) as u8,
                    ).update(
                        old(self).i + 1,
                        ((old(self)@.regs[x as int] / 10) % 10) as u8,
                    ).update(old(self).i + 2, (old(self)@.regs[x as int] % 10) as u8)
                },
                Err(e) => {
                    &&& final(self)@ == old(self)@
                    &&& final(ram)@ == old(ram)@
                    &&& e == (if old(self).i < RAM_START {
                        Chip8Error::ProtectedWrite
                    } else {
                        Chip8Error::AddressOutOfBounds
                    })
                    &&& (old(self).i < RAM_START || old(self).i + 2 >= RAM_SIZE)
                },
            },
    {
        if self.i < RAM_START {
            return Err(Chip8Error::ProtectedWrite);
        }
        if self.i as usize + 2 >= RAM_SIZE {
            return Err(Chip8Error::AddressOutOfBounds);
        }
        let vx = self.regs[x as usize];
        ram.data[self.i as usize] = vx / 100;
        ram.data[self.i as usize + 1] = (vx / 10) % 10;
        ram.data[self.i as usize + 2] = vx % 10;
        self.pc = self.pc + 2;
        Ok(())
    }

    /// Stores registers 0 through `x` inclusive at consecutive addresses
    /// from the index register.  Fails, touching nothing, exactly when a
    /// target address is protected or out of bounds.
    pub fn write_regs(&mut self, x: u8, ram: &mut Ram) -> (r: Result<(), Chip8Error>)
        requires
            old(self).wf(),
            old(ram).wf(),
            x < 16,
            old(self).pc + 2 <= u16::MAX,
        ensures
            final(self).wf(),
            final(ram).wf(),
            match r {
                Ok(()) => {
                    &&& RAM_START <= old(self).i
                    &&& old(self).i + x < RAM_SIZE
                    &&& final(self)@ == advanced(old(self)@)
                    &&& final(ram)@ == stored_regs(
                        old(ram)@,
                        old(self).i as int,
                        old(self)@.regs,
                        x + 1,
                    )
                },
                Err(e) => {
                    &&& final(self)@ == old(self)@
                    &&& final(ram)@ == old(ram)@
                    &&& e == (if old(self).i < RAM_START {
                        Chip8Error::ProtectedWrite
                    } else {
                        Chip8Error::AddressOutOfBounds
                    })
                    &&& (old(self).i < RAM_START || old(self).i + x >= RAM_SIZE)
                },
            },
    {
        if self.i < RAM_START {
            return Err(Chip8Error::ProtectedWrite);
        }
        if self.i as usize + x as usize >= RAM_SIZE {
            return Err(Chip8Error::AddressOutOfBounds);
        }
        let ghost ram0 = ram@;
        let mut j: usize = 0;
        while j <= x as usize
            invariant
                self.wf(),
                ram.wf(),
                x < 16,
                j <= x + 1,
                RAM_START <= self.i,
                self.i + x < RAM_SIZE,
                ram@ == stored_regs(ram0, self.i as int, self@.regs, j as int),
            decreases x + 1 - j,
        {
            ram.data[self.i as usize + j] = self.regs[j];
            j = j + 1;
        }
        self.pc = self.pc + 2;
        Ok(())
    }

    /// Loads registers 0 through `x` inclusive from consecutive addresses
    /// from the index register.  Fails, touching nothing, exactly when a
    /// source address is out of bounds.
    pub fn read_regs(&mut self, x: u8, ram: &Ram) -> (r: Result<(), Chip8Error>)
        requires
            old(self).wf(),
            ram.wf(),
            x < 16,
            old(self).pc + 2 <= u16::MAX,
        ensures
            final(self).wf(),
            match r {
                Ok(()) => {
                    &&& old(self).i + x < RAM_SIZE
                    &&& final(self)@ == (CpuView {
                        regs: loaded_regs(old(self)@.regs, ram@, old(self).i as int, x + 1),
                        pc: (old(self).pc + 2) as u16,
                        ..old(self)@
                    })
                },
                Err(e) => {
                    &&& final(self)@ == old(self)@
                    &&& e == Chip8Error::AddressOutOfBounds
                    &&& old(self).i + x >= RAM_SIZE
                },
            },
    {
        if self.i as usize + x as usize >= RAM_SIZE {
            return Err(Chip8Error::AddressOutOfBounds);
        }
        let ghost regs0 = self@.regs;
        let mut j: usize = 0;
        while j <= x as usize
            invariant
                self.wf(),
                ram.wf(),
                x < 16,
                j <= x + 1,
                self.i + x < RAM_SIZE,
                self.i == old(self).i,
                self.pc == old(self).pc,
                self.dt == old(self).dt,
                self.st == old(self).st,
                self.sp == old(self).sp,
                self.stack@ == old(self).stack@,
                self@.regs == loaded_regs(regs0, ram@, self.i as int, j as int),
            decreases x + 1 - j,
        {
            self.regs[j] = ram.read(self.i + j as u16);
            j = j + 1;
        }
        self.pc = self.pc + 2;
        Ok(())
    }

    /// XOR-draws an `n`-byte sprite read from memory at the index register
    /// at screen position (register `x`, register `y`), coordinates
    /// wrapping.  Register 15 receives the collision flag: 1 exactly when
    /// some lit pixel was turned off.  Fails, touching nothing, exactly
    /// when the sprite bytes run past the end of memory.
    pub fn display_sprite(
        &mut self,
        ram: &Ram,
        display: &mut Display,
        x: u8,
        y: u8,
        n: u8,
    ) -> (r: Result<(), Chip8Error>)
        requires
            old(self).wf(),
            ram.wf(),
            old(display).wf(),
            x < 16,
            y < 16,
            n < 16,
            old(self).pc + 2 <= u16::MAX,
        ensures
            final(self).wf(),
            final(display).wf(),
            match r {
                Ok(()) => {
                    &&& old(self).i + n <= RAM_SIZE
                    &&& ({
                        let d = draw_sprite(
                            old(display)@.pixels,
                            old(self)@.regs[x as int],
                            old(self)@.regs[y as int],
                            old(self).i,
                            ram@,
                            n as int,
                        );
                        &&& final(display)@.pixels == d.0
                        &&& final(self)@ == (CpuView {
                            regs: old(self)@.regs.update(15, d.1),
                            pc: (old(self).pc + 2) as u16,
                            ..old(self)@
                        })
                    })
                    &&& final(display)@.keys == old(display)@.keys
                },
                Err(e) => {
                    &&& final(self)@ == old(self)@
                    &&& final(display)@ == old(display)@
                    &&& e == Chip8Error::AddressOutOfBounds
                    &&& old(self).i + n > RAM_SIZE
                },
            },
    {
        if self.i as usize + n as usize > RAM_SIZE {
            return Err(Chip8Error::AddressOutOfBounds);
        }
        let vx = self.regs[x as usize];
        let vy = self.regs[y as usize];
        let ghost pix0 = display@.pixels;
        let mut flag: u8 = 0;
        let mut row: u8 = 0;
        while row < n
            invariant
                self.wf(),
                ram.wf(),
                display.wf(),
                x < 16,
                y < 16,
                n < 16,
                row <= n,
                self.i + n <= RAM_SIZE,
                vx == self@.regs[x as int],
                vy == self@.regs[y as int],
                display@.keys == old(display)@.keys,
                display@.pixels == draw_sprite(pix0, vx, vy, self.i, ram@, row as int).0,
                flag == draw_sprite(pix0, vx, vy, self.i, ram@, row as int).1,
            decreases n - row,
        {
            let row_byte = ram.read(self.i + row as u16);
            let py = (vy as usize + row as usize) % 32;
            let ghost outer = draw_sprite(pix0, vx, vy, self.i, ram@, row as int);
            let mut bit: u8 = 0;
            while bit < 8
                invariant
                    self.wf(),
                    display.wf(),
                    x < 16,
                    y < 16,
                    bit <= 8,
                    py == (vy + row) % 32,
                    py < 32,
                    row_byte == ram@[self.i + row],
                    display@.keys == old(display)@.keys,
                    display@.pixels == draw_bits(
                        outer.0,
                        outer.1,
                        vx,
                        py as int,
                        row_byte,
                        bit as int,
                    ).0,
                    flag == draw_bits(outer.0, outer.1, vx, py as int, row_byte, bit as int).1,
                decreases 8 - bit,
            {
                let px = (vx as usize + bit as usize) % 64;
                let sbit = (row_byte >> (7 - bit)) & 1;
                let cur = display.read_pixel(px, py);
                proof {
                    let sh: u8 = (7 - bit) as u8;
                    assert(((row_byte >> sh) & 1) <= 1) by (bit_vector);
                    assert(sbit == sprite_row_bit(row_byte, bit as int));
                    lemma_bit_ops(cur, sbit);
                }
                flag = flag | (cur & sbit);
                display.write_pixel(px, py, cur ^ sbit);
                bit = bit + 1;
            }
            row = row + 1;
        }
        self.regs[15] = flag;
        self.pc = self.pc + 2;
        Ok(())
    }
}

impl Cpu {
    /// One whole machine step: fetch the word at the program counter
    /// (faulting when it runs off memory), decode it, dispatch on the
    /// class, variant and `y` nibbles, execute, and tick the delay timer.
    /// On a fatal outcome nothing is touched; on `WaitingForKey` nothing is
    /// touched either, and the caller should pump input and step again.
    /// The relation to the spec model is existential in one byte: the one
    /// the random-number opcode masked.
    #[verifier::rlimit(100)]
    pub fn step(&mut self, ram: &mut Ram, display: &mut Display) -> (r: Result<
        StepEvent,
        Chip8Error,
    >)
        requires
            old(self).wf(),
            old(ram).wf(),
            old(display).wf(),
        ensures
            final(self).wf(),
            final(ram).wf(),
            final(display).wf(),
            exists|rnd: u8|
                step_rel(
                    (MachineView { cpu: old(self)@, mem: old(ram)@, disp: old(display)@ }),
                    (MachineView { cpu: final(self)@, mem: final(ram)@, disp: final(display)@ }),
                    r,
                    rnd,
                ),
    {
        let ghost m0 = MachineView { cpu: self@, mem: ram@, disp: display@ };
        if self.pc as usize + 1 >= RAM_SIZE {
            proof {
                assert(step_rel(
                    m0,
                    (MachineView { cpu: self@, mem: ram@, disp: display@ }),
                    Err::<StepEvent, Chip8Error>(Chip8Error::AddressOutOfBounds),
                    0u8,
                ));
            }
            return Err(Chip8Error::AddressOutOfBounds);
        }
        let hi = ram.read(self.pc);
        let lo = ram.read(self.pc + 1);
        let raw: u16 = (hi as u16) * 256 + (lo as u16);
        proof {
            assert(raw == fetched(m0));
        }
        let instr = Instruction::parse(raw);
        let nnn = instr.nnn;
        let kk = instr.kk;
        let ghost mut rnd_w: u8 = 0;
        if instr.h == 0 {
            if instr.y == 0xE && instr.l == 0 {
                self.cls(display);
            } else if instr.y == 0xE && instr.l == 0xE {
                match self.ret() {
                    Ok(()) => {},
                    Err(e) => {
                        proof {
                            assert(step_rel(
                                m0,
                                (MachineView { cpu: self@, mem: ram@, disp: display@ }),
                                Err::<StepEvent, Chip8Error>(e),
                                0u8,
                            ));
                        }
                        return Err(e);
                    },
                }
            } else {
                proof {
                    assert(step_rel(
                        m0,
                        (MachineView { cpu: self@, mem: ram@, disp: display@ }),
                        Err::<StepEvent, Chip8Error>(Chip8Error::UnknownInstruction(raw)),
                        0u8,
                    ));
                }
                return Err(Chip8Error::UnknownInstruction(raw));
            }
        } else if instr.h == 1 {
            self.jump(nnn);
        } else if instr.h == 2 {
            match self.call(nnn) {
                Ok(()) => {},
                Err(e) => {
                    proof {
                        assert(step_rel(
                            m0,
                            (MachineView { cpu: self@, mem: ram@, disp: display@ }),
                            Err::<StepEvent, Chip8Error>(e),
                            0u8,
                        ));
                    }
                    return Err(e);
                },
            }
        } else if instr.h == 3 {
            let a = self.regs[instr.x as usize];
            self.skip(a, kk, true);
        } else if instr.h == 4 {
            let a = self.regs[instr.x as usize];
            self.skip(a, kk, false);
        } else if instr.h == 5 {
            if instr.l == 0 {
                let a = self.regs[instr.x as usize];
                let b = self.regs[instr.y as usize];
                self.skip(a, b, true);
            } else {
                proof {
                    assert(step_rel(
                        m0,
                        (MachineView { cpu: self@, mem: ram@, disp: display@ }),
                        Err::<StepEvent, Chip8Error>(Chip8Error::UnknownInstruction(raw)),
                        0u8,
                    ));
                }
                return Err(Chip8Error::UnknownInstruction(raw));
            }
        } else if instr.h == 6 {
            self.set_reg(instr.x, kk);
        } else if instr.h == 7 {
            let vx = self.regs[instr.x as usize];
            self.set_reg(instr.x, ((vx as u16 + kk as u16) % 256) as u8);
        } else if instr.h == 8 {
            let vx = self.regs[instr.x as usize];
            let vy = self.regs[instr.y as usize];
            if instr.l == 0 {
                self.set_reg(instr.x, vy);
            } else if instr.l == 1 {
                self.set_reg(instr.x, vx | vy);
            } else if instr.l == 2 {
                self.set_reg(instr.x, vx & vy);
            } else if instr.l == 3 {
                self.set_reg(instr.x, vx ^ vy);
            } else if instr.l == 4 {
                let (res, carry) = add_with_carry(vx as u16, vy as u16);
                self.set_reg(instr.x, res);
                self.regs[15] = carry;
            } else if instr.l == 5 {
                let (res, no_borrow) = sub_with_borrow(vx as u16, vy as u16);
                self.regs[15] = no_borrow;
                self.set_reg(instr.x, res);
            } else if instr.l == 6 {
                self.regs[15] = vx % 2;
                self.set_reg(instr.x, vx / 2);
            } else if instr.l == 7 {
                let (res, no_borrow) = sub_with_borrow(vy as u16, vx as u16);
                self.regs[15] = no_borrow;
                self.set_reg(instr.x, res);
            } else if instr.l == 0xE {
                self.regs[15] = vx / 128;
                self.set_reg(instr.x, ((vx as u16 * 2) % 256) as u8);
            } else {
                proof {
                    assert(step_rel(
                        m0,
                        (MachineView { cpu: self@, mem: ram@, disp: display@ }),
                        Err::<StepEvent, Chip8Error>(Chip8Error::UnknownInstruction(raw)),
                        0u8,
                    ));
                }
                return Err(Chip8Error::UnknownInstruction(raw));
            }
        } else if instr.h == 9 {
            if instr.l == 0 {
                let a = self.regs[instr.x as usize];
                let b = self.regs[instr.y as usize];
                self.skip(a, b, false);
            } else {
                proof {
                    assert(step_rel(
                        m0,
                        (MachineView { cpu: self@, mem: ram@, disp: display@ }),
                        Err::<StepEvent, Chip8Error>(Chip8Error::UnknownInstruction(raw)),
                        0u8,
                    ));
                }
                return Err(Chip8Error::UnknownInstruction(raw));
            }
        } else if instr.h == 0xA {
            self.i = nnn;
            self.pc = self.pc + 2;
        } else if instr.h == 0xB {
            let v0 = self.regs[0];
            self.jump(nnn + v0 as u16);
        } else if instr.h == 0xC {
            let rb = random_byte();
            proof {
                rnd_w = rb;
            }
            self.set_reg(instr.x, rb & kk);
        } else if instr.h == 0xD {
            match self.display_sprite(ram, display, instr.x, instr.y, instr.l) {
                Ok(()) => {},
                Err(e) => {
                    proof {
                        assert(step_rel(
                            m0,
                            (MachineView { cpu: self@, mem: ram@, disp: display@ }),
                            Err::<StepEvent, Chip8Error>(e),
                            0u8,
                        ));
                    }
                    return Err(e);
                },
            }
        } else if instr.h == 0xE {
            let key = self.regs[instr.x as usize];
            if instr.y == 9 && instr.l == 0xE {
                if key >= 16 {
                    proof {
                        assert(step_rel(
                            m0,
                            (MachineView { cpu: self@, mem: ram@, disp: display@ }),
                            Err::<StepEvent, Chip8Error>(Chip8Error::InvalidKey),
                            0u8,
                        ));
                    }
                    return Err(Chip8Error::InvalidKey);
                }
                let held = display.is_key_down(key);
                if held {
                    self.pc = self.pc + 4;
                } else {
                    self.pc = self.pc + 2;
                }
                proof {
                    assert(self@ == skipped(m0.cpu, m0.disp.keys[key as int]));
                }
            } else if instr.y == 0xA && instr.l == 1 {
                if key >= 16 {
                    proof {
                        assert(step_rel(
                            m0,
                            (MachineView { cpu: self@, mem: ram@, disp: display@ }),
                            Err::<StepEvent, Chip8Error>(Chip8Error::InvalidKey),
                            0u8,
                        ));
                    }
                    return Err(Chip8Error::InvalidKey);
                }
                let held = display.is_key_down(key);
                if !held {
                    self.pc = self.pc + 4;
                } else {
                    self.pc = self.pc + 2;
                }
                proof {
                    assert(self@ == skipped(m0.cpu, !m0.disp.keys[key as int]));
                }
            } else {
                proof {
                    assert(step_rel(
                        m0,
                        (MachineView { cpu: self@, mem: ram@, disp: display@ }),
                        Err::<StepEvent, Chip8Error>(Chip8Error::UnknownInstruction(raw)),
                        0u8,
                    ));
                }
                return Err(Chip8Error::UnknownInstruction(raw));
            }
        } else {
            if instr.y == 0 && instr.l == 7 {
                let d = self.dt;
                self.set_reg(instr.x, d);
            } else if instr.y == 0 && instr.l == 0xA {
                let k = first_key_down(display);
                if k >= 16 {
                    proof {
                        assert(step_rel(
                            m0,
                            (MachineView { cpu: self@, mem: ram@, disp: display@ }),
                            Ok::<StepEvent, Chip8Error>(StepEvent::WaitingForKey),
                            0u8,
                        ));
                    }
                    return Ok(StepEvent::WaitingForKey);
                }
                self.set_reg(instr.x, k);
            } else if instr.y == 1 && instr.l == 5 {
                self.dt = self.regs[instr.x as usize];
                self.pc = self.pc + 2;
            } else if instr.y == 1 && instr.l == 8 {
                self.st = self.regs[instr.x as usize];
                self.pc = self.pc + 2;
            } else if instr.y == 1 && instr.l == 0xE {
                let vx = self.regs[instr.x as usize];
                self.i = ((self.i as u32 + vx as u32) % 65536) as u16;
                self.pc = self.pc + 2;
            } else if instr.y == 2 && instr.l == 9 {
                let vx = self.regs[instr.x as usize];
                self.i = vx as u16 * 5;
                self.pc = self.pc + 2;
            } else if instr.y == 3 && instr.l == 3 {
                match self.store_bcd(instr.x, ram) {
                    Ok(()) => {},
                    Err(e) => {
                        proof {
                            assert(step_rel(
                                m0,
                                (MachineView { cpu: self@, mem: ram@, disp: display@ }),
                                Err::<StepEvent, Chip8Error>(e),
                                0u8,
                            ));
                        }
                        return Err(e);
                    },
                }
            } else if instr.y == 5 && instr.l == 5 {
                match self.write_regs(instr.x, ram) {
                    Ok(()) => {},
                    Err(e) => {
                        proof {
                            assert(step_rel(
                                m0,
                                (MachineView { cpu: self@, mem: ram@, disp: display@ }),
                                Err::<StepEvent, Chip8Error>(e),
                                0u8,
                            ));
                        }
                        return Err(e);
                    },
                }
            } else if instr.y == 6 && instr.l == 5 {
                match self.read_regs(instr.x, ram) {
                    Ok(()) => {},
                    Err(e) => {
                        proof {
                            assert(step_rel(
                                m0,
                                (MachineView { cpu: self@, mem: ram@, disp: display@ }),
                                Err::<StepEvent, Chip8Error>(e),
                                0u8,
                            ));
                        }
                        return Err(e);
                    },
                }
            } else {
                proof {
                    assert(step_rel(
                        m0,
                        (MachineView { cpu: self@, mem: ram@, disp: display@ }),
                        Err::<StepEvent, Chip8Error>(Chip8Error::UnknownInstruction(raw)),
                        0u8,
                    ));
                }
                return Err(Chip8Error::UnknownInstruction(raw));
            }
        }
        proof {
            assert(spec_exec(m0, raw, rnd_w).m =~~= (MachineView {
                cpu: tick_timers(self@),
                mem: ram@,
                disp: display@,
            }));
            assert(spec_exec(m0, raw, rnd_w).r == Ok::<StepEvent, Chip8Error>(StepEvent::Ran));
        }
        let ghost pre = MachineView { cpu: self@, mem: ram@, disp: display@ };
        if self.dt > 0 {
            self.dt = self.dt - 1;
        }
        if self.st > 0 {
            self.st = self.st - 1;
        }
        proof {
            assert(self@ == tick_timers(pre.cpu));
            assert(step_rel(
                m0,
                (MachineView { cpu: self@, mem: ram@, disp: display@ }),
                Ok::<StepEvent, Chip8Error>(StepEvent::Ran),
                rnd_w,
            ));
        }
        Ok(StepEvent::Ran)
    }
}

/// XOR and AND of two single-bit bytes are single-bit again.
proof fn lemma_bit_ops(a: u8, b: u8)
    requires
        a <= 1,
        b <= 1,
    ensures
        (a ^ b) <= 1,
        (a & b) <= 1,
        (a ^ b) == if a == b { 0u8 } else { 1u8 },
{
    assert((a ^ b) <= 1 && (a & b) <= 1 && (a ^ b) == (if a == b { 0u8 } else { 1u8 }))
        by (bit_vector)
        requires
            a <= 1,
            b <= 1,
    ;
}

} // verus!
