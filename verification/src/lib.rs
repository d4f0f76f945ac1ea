//! A CHIP-8 virtual-machine core: a register file, call stack, timers,
//! byte-addressable memory with a protected font region, a monochrome
//! framebuffer with a key-state table, and a fetch-decode-execute engine
//! covering the full 16-bit instruction set.  Every step is proved to agree
//! with a spec-level transition function over a mathematical model of the
//! whole machine.
use vstd::prelude::*;

pub mod arith;
pub mod cpu;
pub mod decode;
pub mod display;
pub mod errors;
pub mod laws;
pub mod model;
pub mod ram;
mod rng;

use crate::cpu::Cpu;
use crate::display::{blank_pixels, Display, NUM_KEYS};
use crate::errors::{Chip8Error, StepEvent};
use crate::model::{step_rel, MachineView};
use crate::ram::{font_table, Ram, FONT_SIZE, RAM_SIZE, RAM_START};

verus! {

/// The assembled machine: memory, CPU and display surface.
pub struct Chip8 {
    /// The byte-addressable memory store.
    pub ram: Ram,
    /// The execution engine.
    pub cpu: Cpu,
    /// The framebuffer and key table.
    pub display: Display,
}

impl View for Chip8 {
    type V = MachineView;

    open spec fn view(&self) -> MachineView {
        MachineView { cpu: self.cpu@, mem: self.ram@, disp: self.display@ }
    }
}

impl Chip8 {
    /// Well-formedness of every part.
    pub open spec fn wf(self) -> bool {
        self@.wf()
    }

    /// A fresh machine: font table in protected memory, registers, call
    /// stack and timers zeroed, the program counter at the program-start
    /// boundary, a dark screen and no key held.
    pub fn new() -> (r: Chip8)
        ensures
            r.wf(),
            r@.cpu.pc == RAM_START,
            r@.cpu.sp == 0 && r@.cpu.i == 0 && r@.cpu.dt == 0 && r@.cpu.st == 0,
            forall|j: int| 0 <= j < 16 ==> r@.cpu.regs[j] == 0u8,
            forall|j: int| 0 <= j < 16 ==> r@.cpu.stack[j] == 0u16,
            forall|a: int| 0 <= a < FONT_SIZE ==> r@.mem[a] == font_table()[a],
            forall|a: int| FONT_SIZE <= a < RAM_SIZE ==> r@.mem[a] == 0u8,
            r@.disp.pixels == blank_pixels(),
            forall|k: int| 0 <= k < NUM_KEYS ==> !r@.disp.keys[k],
    {
        Chip8 { ram: Ram::new(), cpu: Cpu::new(), display: Display::new() }
    }

    /// Loads a program image verbatim at the program-start boundary.
    /// Fails, touching nothing, exactly when the image exceeds the writable
    /// region's capacity.
    pub fn init_rom(&mut self, rom: &Vec<u8>) -> (r: Result<(), Chip8Error>)
        requires
            old(self).wf(),
        ensures
            final(self).wf(),
            final(self)@.cpu == old(self)@.cpu,
            final(self)@.disp == old(self)@.disp,
            match r {
                Ok(()) => {
                    &&& rom@.len() <= RAM_SIZE - RAM_START
                    &&& forall|j: int|
                        0 <= j < rom@.len() ==> final(self)@.mem[RAM_START + j] == rom@[j]
                    &&& forall|a: int|
                        0 <= a < RAM_START ==> final(self)@.mem[a] == old(self)@.mem[a]
                    &&& forall|a: int|
                        RAM_START + rom@.len() <= a < RAM_SIZE ==> final(self)@.mem[a] == old(
                            self,
                        )@.mem[a]
                },
                Err(e) => {
                    &&& e == Chip8Error::RomTooLarge
                    &&& rom@.len() > RAM_SIZE - RAM_START
                    &&& final(self)@.mem == old(self)@.mem
                },
            },
    {
        self.ram.init_rom(rom)
    }

    /// One whole machine step; see `Cpu::step`.
    #[verifier::rlimit(100)]
    pub fn step(&mut self) -> (r: Result<StepEvent, Chip8Error>)
        requires
            old(self).wf(),
        ensures
            final(self).wf(),
            exists|rnd: u8| step_rel(old(self)@, final(self)@, r, rnd),
    {
        let r = self.cpu.step(&mut self.ram, &mut self.display);
        proof {
            assert(old(self)@ == (MachineView {
                cpu: old(self).cpu@,
                mem: old(self).ram@,
                disp: old(self).display@,
            }));
            assert(self@ == (MachineView { cpu: self.cpu@, mem: self.ram@, disp: self.display@ }));
        }
        r
    }

    /// The delay timer's current value, for host-side pacing.
    pub fn delay_timer(&self) -> (r: u8)
        ensures
            r == self@.cpu.dt,
    {
        self.cpu.delay_timer()
    }
}

} // verus!
