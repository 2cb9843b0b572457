//! The machine state: memory image, registers, stack, timers, and the
//! display surface, together with its mathematical view and invariant.

use vstd::prelude::*;
use vstd::pervasive::VecAdditionalExecFns;
use crate::font::FONT_BASE;
use crate::font::FONT_END;
use crate::font::font_bytes;
use crate::font::font_table;
use crate::instr::Fault;

verus! {

/// Number of addressable memory cells.
pub const MEM_SIZE: usize = 4096;

/// Address at which a loaded program image begins.
pub const PROG_BASE: usize = 0x200;

/// Width of the display in pixels.
pub const DISPLAY_WIDTH: usize = 64;

/// Height of the display in pixels.
pub const DISPLAY_HEIGHT: usize = 32;

/// Number of pixels of the display.
pub const DISPLAY_CELLS: usize = 2048;

/// Capacity of the return-address stack.
pub const STACK_DEPTH: usize = 16;

/// The mathematical view of an interpreter: plain sequences and integers,
/// with the display flattened row-major (pixel `(x, y)` at index
/// `y * 64 + x`).
#[verifier::ext_equal]
pub ghost struct StateV {
    pub mem: Seq<u8>,
    pub v: Seq<u8>,
    pub pc: u16,
    pub i: u16,
    pub display: Seq<bool>,
    pub stack: Seq<u16>,
    pub delay: u8,
    pub sound: u8,
}

/// Well-formedness of a state: sizes are fixed, the program counter, the
/// index register and every stacked return address stay inside the 12-bit
/// address space, and the font region still holds the font.
pub open spec fn wf_state(s: StateV) -> bool {
    &&& s.mem.len() == MEM_SIZE
    &&& s.v.len() == 16
    &&& s.display.len() == DISPLAY_CELLS
    &&& s.stack.len() <= STACK_DEPTH
    &&& s.pc < MEM_SIZE
    &&& s.i < MEM_SIZE
    &&& forall|j: int| 0 <= j < s.stack.len() ==> s.stack[j] < MEM_SIZE
    &&& font_loaded(s.mem)
}

/// The font region of `mem` holds the font table.
pub open spec fn font_loaded(mem: Seq<u8>) -> bool {
    forall|k: int| 0 <= k < 80 ==> mem[FONT_BASE + k] == font_table()[k]
}

/// The memory image of a fresh interpreter: all zero but for the font.
pub open spec fn init_mem() -> Seq<u8> {
    Seq::new(MEM_SIZE as nat, |a: int| if FONT_BASE <= a < FONT_END {
        font_table()[a - FONT_BASE]
    } else {
        0u8
    })
}

/// The state of a fresh interpreter: font seeded, program counter at
/// `PROG_BASE`, everything else zeroed, display blank, stack empty.
pub open spec fn init_state() -> StateV {
    StateV {
        mem: init_mem(),
        v: Seq::new(16, |j: int| 0u8),
        pc: PROG_BASE as u16,
        i: 0,
        display: Seq::new(DISPLAY_CELLS as nat, |p: int| false),
        stack: Seq::empty(),
        delay: 0,
        sound: 0,
    }
}

/// Writing one memory cell. The font region is immutable after
/// construction: a write aimed there leaves memory unchanged.
pub open spec fn mem_write(mem: Seq<u8>, addr: int, val: u8) -> Seq<u8> {
    if FONT_BASE <= addr < FONT_END {
        mem
    } else {
        mem.update(addr, val)
    }
}

/// The memory image after loading `prog` at `PROG_BASE`.
pub open spec fn loaded_mem(mem: Seq<u8>, prog: Seq<u8>) -> Seq<u8> {
    Seq::new(MEM_SIZE as nat, |a: int| if PROG_BASE <= a < PROG_BASE + prog.len() {
        prog[a - PROG_BASE]
    } else {
        mem[a]
    })
}

/// The CHIP-8 interpreter: 4096 bytes of memory, sixteen 8-bit registers,
/// a 16-bit program counter and index register, a 64x32 monochrome
/// display, a return-address stack, and two countdown timers.
pub struct Chip8 {
    pub memory: Vec<u8>,
    pub v: Vec<u8>,
    pub pc: u16,
    pub i: u16,
    pub display: Vec<bool>,
    pub stack: Vec<u16>,
    pub delay_timer: u8,
    pub sound_timer: u8,
}

impl View for Chip8 {
    type V = StateV;

    open spec fn view(&self) -> StateV {
        StateV {
            mem: self.memory@,
            v: self.v@,
            pc: self.pc,
            i: self.i,
            display: self.display@,
            stack: self.stack@,
            delay: self.delay_timer,
            sound: self.sound_timer,
        }
    }
}

impl Chip8 {
    /// Well-formedness of the interpreter, stated over its view.
    pub open spec fn wf(&self) -> bool {
        wf_state(self@)
    }

    /// Builds a fresh interpreter: memory zeroed and seeded with the font,
    /// program counter at `PROG_BASE`, display blank, stack empty.
    ///
    /// A program image is brought in afterwards with [`Chip8::load`].
    pub fn new() -> (c: Chip8)
        ensures
            c.wf(),
            c@ == init_state(),
    {
        let mut memory: Vec<u8> = Vec::new();
        while memory.len() < MEM_SIZE
            invariant
                memory@ =~= Seq::new(memory.len() as nat, |a: int| 0u8),
                memory.len() <= MEM_SIZE,
            decreases MEM_SIZE - memory.len(),
        {
            memory.push(0);
        }
        let font = font_bytes();
        let mut k: usize = 0;
        while k < 80
            invariant
                k <= 80,
                memory.len() == MEM_SIZE,
                font@ == font_table(),
                memory@ =~= Seq::new(MEM_SIZE as nat, |a: int| if FONT_BASE <= a < FONT_BASE + k {
                    font_table()[a - FONT_BASE]
                } else {
                    0u8
                }),
            decreases 80 - k,
        {
            memory.set(FONT_BASE + k, font[k]);
            k = k + 1;
        }
        let mut v: Vec<u8> = Vec::new();
        while v.len() < 16
            invariant
                v@ =~= Seq::new(v.len() as nat, |j: int| 0u8),
                v.len() <= 16,
            decreases 16 - v.len(),
        {
            v.push(0);
        }
        let display = blank_display();
        let c = Chip8 {
            memory,
            v,
            pc: PROG_BASE as u16,
            i: 0,
            display,
            stack: Vec::new(),
            delay_timer: 0,
            sound_timer: 0,
        };
        proof {
            assert(c@.mem =~= init_mem());
            assert(c@.stack =~= Seq::<u16>::empty());
            assert(c@ =~= init_state());
        }
        c
    }

    /// Copies a program image into memory starting at `PROG_BASE`.
    ///
    /// Succeeds exactly when the image fits the space `PROG_BASE..MEM_SIZE`
    /// (at most 3584 bytes); a longer image is rejected whole with
    /// `Fault::ProgramTooLarge` and nothing changes.
    pub fn load(&mut self, prog: &Vec<u8>) -> (r: Result<(), Fault>)
        requires
            old(self).wf(),
        ensures
            final(self).wf(),
            prog@.len() <= MEM_SIZE - PROG_BASE ==> (r == Ok::<(), Fault>(())
                && final(self)@ == (StateV { mem: loaded_mem(old(self)@.mem, prog@), ..old(self)@ })),
            prog@.len() > MEM_SIZE - PROG_BASE ==> (r == Err::<(), Fault>(Fault::ProgramTooLarge)
                && final(self)@ == old(self)@),
    {
        if prog.len() > MEM_SIZE - PROG_BASE {
            return Err(Fault::ProgramTooLarge);
        }
        let mut k: usize = 0;
        while k < prog.len()
            invariant
                old(self).wf(),
                k <= prog.len(),
                prog@.len() <= MEM_SIZE - PROG_BASE,
                self.memory.len() == MEM_SIZE,
                self.memory@ =~= Seq::new(MEM_SIZE as nat, |a: int| if PROG_BASE <= a < PROG_BASE + k {
                    prog@[a - PROG_BASE]
                } else {
                    old(self)@.mem[a]
                }),
                self.v == old(self).v,
                self.pc == old(self).pc,
                self.i == old(self).i,
                self.display == old(self).display,
                self.stack == old(self).stack,
                self.delay_timer == old(self).delay_timer,
                self.sound_timer == old(self).sound_timer,
            decreases prog.len() - k,
        {
            self.memory.set(PROG_BASE + k, prog[k]);
            k = k + 1;
        }
        proof {
            assert(self@.mem =~= loaded_mem(old(self)@.mem, prog@));
            assert(self@ =~= (StateV { mem: loaded_mem(old(self)@.mem, prog@), ..old(self)@ }));
        }
        Ok(())
    }

    /// Reads one pixel; `(x, y)` must lie on the 64x32 grid.
    pub fn get_pixel(&self, x: usize, y: usize) -> (r: bool)
        requires
            self.wf(),
            x < DISPLAY_WIDTH,
            y < DISPLAY_HEIGHT,
        ensures
            r == self@.display[y * DISPLAY_WIDTH + x],
    {
        self.display[y * DISPLAY_WIDTH + x]
    }

    /// Flips one pixel and reports whether it was set before the flip, the
    /// signal the draw instruction accumulates into the collision flag.
    /// `(x, y)` must lie on the grid: clipping is the caller's concern.
    pub fn flip_pixel(&mut self, x: usize, y: usize) -> (r: bool)
        requires
            old(self).wf(),
            x < DISPLAY_WIDTH,
            y < DISPLAY_HEIGHT,
        ensures
            final(self).wf(),
            r == old(self)@.display[y * DISPLAY_WIDTH + x],
            final(self)@ == (StateV {
                display: old(self)@.display.update(y * DISPLAY_WIDTH + x, !old(self)@.display[y * DISPLAY_WIDTH + x]),
                ..old(self)@
            }),
    {
        let was_on = self.display[y * DISPLAY_WIDTH + x];
        self.display.set(y * DISPLAY_WIDTH + x, !was_on);
        was_on
    }

    /// Copies `count` memory bytes starting at `start_addr`, the form in
    /// which the draw instruction takes its sprite rows.
    pub fn read_sprite_bytes(&self, start_addr: u16, count: u16) -> (r: Vec<u8>)
        requires
            self.wf(),
            start_addr + count <= MEM_SIZE,
        ensures
            r@ == self@.mem.subrange(start_addr as int, start_addr as int + count as int),
    {
        let mut r: Vec<u8> = Vec::new();
        let mut k: usize = 0;
        while k < count as usize
            invariant
                self.wf(),
                k <= count,
                start_addr + count <= MEM_SIZE,
                r@ =~= self@.mem.subrange(start_addr as int, start_addr as int + k as int),
            decreases count - k,
        {
            r.push(self.memory[start_addr as usize + k]);
            k = k + 1;
        }
        proof {
            assert(r@ =~= self@.mem.subrange(start_addr as int, start_addr as int + count as int));
        }
        r
    }

    /// Writes one memory cell, leaving the font region untouched.
    pub fn mem_store(&mut self, addr: usize, val: u8)
        requires
            old(self).wf(),
            addr < MEM_SIZE,
        ensures
            final(self).wf(),
            final(self)@ == (StateV { mem: mem_write(old(self)@.mem, addr as int, val), ..old(self)@ }),
    {
        if addr < FONT_BASE || addr >= FONT_END {
            self.memory.set(addr, val);
        }
        proof {
            assert(self@ =~= (StateV { mem: mem_write(old(self)@.mem, addr as int, val), ..old(self)@ }));
        }
    }

    /// Counts one 60 Hz tick: each timer that is above zero comes down by
    /// one; nothing else changes. The host calls this at a fixed cadence,
    /// independent of the instruction rate.
    pub fn tick_timers(&mut self)
        requires
            old(self).wf(),
        ensures
            final(self).wf(),
            final(self)@ == (StateV {
                delay: if old(self)@.delay > 0 { (old(self)@.delay - 1) as u8 } else { 0u8 },
                sound: if old(self)@.sound > 0 { (old(self)@.sound - 1) as u8 } else { 0u8 },
                ..old(self)@
            }),
    {
        if self.delay_timer > 0 {
            self.delay_timer = self.delay_timer - 1;
        }
        if self.sound_timer > 0 {
            self.sound_timer = self.sound_timer - 1;
        }
    }
}

/// Builds a blank display: 2048 pixels, all off.
pub fn blank_display() -> (r: Vec<bool>)
    ensures
        r@ == Seq::new(DISPLAY_CELLS as nat, |p: int| false),
{
    let mut d: Vec<bool> = Vec::new();
    while d.len() < DISPLAY_CELLS
        invariant
            d@ =~= Seq::new(d.len() as nat, |p: int| false),
            d.len() <= DISPLAY_CELLS,
        decreases DISPLAY_CELLS - d.len(),
    {
        d.push(false);
    }
    proof {
        assert(d@ =~= Seq::new(DISPLAY_CELLS as nat, |p: int| false));
    }
    d
}

} // verus!
