//! The instruction cycle: the spec-level transition function for one
//! fetch/decode/execute step, and the verified executable step.
//!
//! A step is atomic: when it reports a fault, the machine state is exactly
//! what it was before the step. The program counter is advanced by 2
//! right after the fetch, so control-flow instructions that assign it
//! overwrite the pre-advanced value rather than compose with it.

use vstd::prelude::*;
use vstd::pervasive::VecAdditionalExecFns;
use crate::draw::covers_partial;
use crate::draw::draw_collision;
use crate::draw::draw_display;
use crate::draw::lemma_covers_partial_row_step;
use crate::draw::sprite_rows;
use crate::instr::Fault;
use crate::instr::Instr;
use crate::instr::decode;
use crate::instr::spec_decode;
use crate::state::Chip8;
use crate::state::DISPLAY_CELLS;
use crate::state::DISPLAY_HEIGHT;
use crate::state::DISPLAY_WIDTH;
use crate::state::MEM_SIZE;
use crate::state::STACK_DEPTH;
use crate::state::StateV;
use crate::state::mem_write;

verus! {

/// What one step yields: the next state, and the fault if the step could
/// not be taken. On a fault the state is the pre-step state unchanged.
#[verifier::ext_equal]
pub ghost struct StepOut {
    pub state: StateV,
    pub fault: Option<Fault>,
}

/// A step that succeeded.
pub open spec fn step_ok(s: StateV) -> StepOut {
    StepOut { state: s, fault: None }
}

/// A step that faulted, leaving the state untouched.
pub open spec fn step_fault(s: StateV, f: Fault) -> StepOut {
    StepOut { state: s, fault: Some(f) }
}

/// An integer reduced modulo 256, as a register byte.
pub open spec fn wrap8(n: int) -> u8 {
    (n % 256) as u8
}

/// An integer masked to the 12-bit address space.
pub open spec fn mask12(n: int) -> u16 {
    (n % (MEM_SIZE as int)) as u16
}

/// Whether key `k` (0-15) is pressed in the host-supplied key state,
/// where bit `k` of `keys` stands for key `k`.
pub open spec fn key_pressed(keys: u16, k: u8) -> bool {
    (keys >> (k as u16)) & 1 == 1
}

/// The lowest pressed key at or above `k`, or 16 when none is.
pub open spec fn least_key_from(keys: u16, k: u8) -> u8
    decreases 16 - k,
{
    if k >= 16 {
        16u8
    } else if key_pressed(keys, k) {
        k
    } else {
        least_key_from(keys, (k + 1) as u8)
    }
}

/// The lowest pressed key, or 16 when none is pressed.
pub open spec fn least_key(keys: u16) -> u8 {
    least_key_from(keys, 0)
}

/// Memory after storing `v[0..k]` at addresses `i..i + k`, taken with
/// 12-bit wraparound; the font region is never overwritten.
pub open spec fn store_regs_mem(mem: Seq<u8>, i: int, v: Seq<u8>, k: int) -> Seq<u8>
    decreases k,
{
    if k <= 0 {
        mem
    } else {
        mem_write(store_regs_mem(mem, i, v, k - 1), (i + k - 1) % (MEM_SIZE as int), v[k - 1])
    }
}

/// Registers after loading `v[0..k]` from addresses `i..i + k`, taken
/// with 12-bit wraparound.
pub open spec fn load_regs_v(v: Seq<u8>, mem: Seq<u8>, i: int, k: int) -> Seq<u8>
    decreases k,
{
    if k <= 0 {
        v
    } else {
        load_regs_v(v, mem, i, k - 1).update(k - 1, mem[(i + k - 1) % (MEM_SIZE as int)])
    }
}

/// The effect of one decoded instruction on state `s`, whose program
/// counter has not yet been advanced past the instruction. `keys` is the
/// host's current key state and `rnd` the host-supplied random byte.
pub open spec fn spec_exec(s: StateV, ins: Instr, keys: u16, rnd: u8) -> StepOut {
    let pc2 = mask12(s.pc + 2);
    match ins {
        Instr::ClearScreen => step_ok(StateV {
            pc: pc2,
            display: Seq::new(DISPLAY_CELLS as nat, |p: int| false),
            ..s
        }),
        Instr::Ret => if s.stack.len() == 0 {
            step_fault(s, Fault::StackUnderflow)
        } else {
            step_ok(StateV { pc: s.stack.last(), stack: s.stack.drop_last(), ..s })
        },
        Instr::Jump { nnn } => step_ok(StateV { pc: nnn, ..s }),
        Instr::Call { nnn } => if s.stack.len() >= STACK_DEPTH {
            step_fault(s, Fault::StackOverflow)
        } else {
            step_ok(StateV { pc: nnn, stack: s.stack.push(pc2), ..s })
        },
        Instr::SkipEqImm { x, nn } => step_ok(StateV {
            pc: if s.v[x as int] == nn { mask12(pc2 + 2) } else { pc2 },
            ..s
        }),
        Instr::SkipNeImm { x, nn } => step_ok(StateV {
            pc: if s.v[x as int] != nn { mask12(pc2 + 2) } else { pc2 },
            ..s
        }),
        Instr::SkipEqReg { x, y } => step_ok(StateV {
            pc: if s.v[x as int] == s.v[y as int] { mask12(pc2 + 2) } else { pc2 },
            ..s
        }),
        Instr::SkipNeReg { x, y } => step_ok(StateV {
            pc: if s.v[x as int] != s.v[y as int] { mask12(pc2 + 2) } else { pc2 },
            ..s
        }),
        Instr::SetImm { x, nn } => step_ok(StateV { v: s.v.update(x as int, nn), pc: pc2, ..s }),
        Instr::AddImm { x, nn } => step_ok(StateV {
            v: s.v.update(x as int, wrap8(s.v[x as int] + nn)),
            pc: pc2,
            ..s
        }),
        Instr::SetReg { x, y } => step_ok(StateV {
            v: s.v.update(x as int, s.v[y as int]),
            pc: pc2,
            ..s
        }),
        Instr::OrReg { x, y } => step_ok(StateV {
            v: s.v.update(x as int, s.v[x as int] | s.v[y as int]),
            pc: pc2,
            ..s
        }),
        Instr::AndReg { x, y } => step_ok(StateV {
            v: s.v.update(x as int, s.v[x as int] & s.v[y as int]),
            pc: pc2,
            ..s
        }),
        Instr::XorReg { x, y } => step_ok(StateV {
            v: s.v.update(x as int, s.v[x as int] ^ s.v[y as int]),
            pc: pc2,
            ..s
        }),
        Instr::AddReg { x, y } => step_ok(StateV {
            v: s.v.update(x as int, wrap8(s.v[x as int] + s.v[y as int])).update(
                15,
                if s.v[x as int] + s.v[y as int] >= 256 { 1u8 } else { 0u8 },
            ),
            pc: pc2,
            ..s
        }),
        Instr::SubReg { x, y } => step_ok(StateV {
            v: s.v.update(x as int, wrap8(s.v[x as int] - s.v[y as int])).update(
                15,
                if s.v[x as int] >= s.v[y as int] { 1u8 } else { 0u8 },
            ),
            pc: pc2,
            ..s
        }),
        Instr::SubnReg { x, y } => step_ok(StateV {
            v: s.v.update(x as int, wrap8(s.v[y as int] - s.v[x as int])).update(
                15,
                if s.v[y as int] >= s.v[x as int] { 1u8 } else { 0u8 },
            ),
            pc: pc2,
            ..s
        }),
        Instr::ShrReg { x } => step_ok(StateV {
            v: s.v.update(x as int, s.v[x as int] >> 1).update(15, s.v[x as int] & 1),
            pc: pc2,
            ..s
        }),
        Instr::ShlReg { x } => step_ok(StateV {
            v: s.v.update(x as int, s.v[x as int] << 1).update(15, s.v[x as int] >> 7),
            pc: pc2,
            ..s
        }),
        Instr::SetIndex { nnn } => step_ok(StateV { i: nnn, pc: pc2, ..s }),
        Instr::JumpOffset { nnn } => step_ok(StateV { pc: mask12(nnn + s.v[0]), ..s }),
        Instr::Rand { x, nn } => step_ok(StateV {
            v: s.v.update(x as int, rnd & nn),
            pc: pc2,
            ..s
        }),
        Instr::Draw { x, y, n } => {
            let ox = s.v[x as int] % 64;
            let oy = s.v[y as int] % 32;
            let sprite = sprite_rows(s.mem, s.i as int, n as int);
            step_ok(StateV {
                display: draw_display(s.display, sprite, ox as int, oy as int),
                v: s.v.update(15, if draw_collision(s.display, sprite, ox as int, oy as int) {
                    1u8
                } else {
                    0u8
                }),
                pc: pc2,
                ..s
            })
        },
        Instr::SkipKey { x } => step_ok(StateV {
            pc: if key_pressed(keys, (s.v[x as int] % 16) as u8) { mask12(pc2 + 2) } else { pc2 },
            ..s
        }),
        Instr::SkipNoKey { x } => step_ok(StateV {
            pc: if !key_pressed(keys, (s.v[x as int] % 16) as u8) { mask12(pc2 + 2) } else { pc2 },
            ..s
        }),
        Instr::GetDelay { x } => step_ok(StateV { v: s.v.update(x as int, s.delay), pc: pc2, ..s }),
        Instr::WaitKey { x } => if least_key(keys) < 16 {
            step_ok(StateV { v: s.v.update(x as int, least_key(keys)), pc: pc2, ..s })
        } else {
            step_ok(s)
        },
        Instr::SetDelay { x } => step_ok(StateV { delay: s.v[x as int], pc: pc2, ..s }),
        Instr::SetSound { x } => step_ok(StateV { sound: s.v[x as int], pc: pc2, ..s }),
        Instr::AddIndex { x } => step_ok(StateV { i: mask12(s.i + s.v[x as int]), pc: pc2, ..s }),
        Instr::FontIndex { x } => step_ok(StateV {
            i: (0x50 + 5 * (s.v[x as int] % 16)) as u16,
            pc: pc2,
            ..s
        }),
        Instr::StoreBcd { x } => {
            let val = s.v[x as int];
            let m1 = mem_write(s.mem, s.i as int, (val / 100) as u8);
            let m2 = mem_write(m1, (s.i + 1) % (MEM_SIZE as int), ((val / 10) % 10) as u8);
            let m3 = mem_write(m2, (s.i + 2) % (MEM_SIZE as int), (val % 10) as u8);
            step_ok(StateV { mem: m3, pc: pc2, ..s })
        },
        Instr::StoreRegs { x } => step_ok(StateV {
            mem: store_regs_mem(s.mem, s.i as int, s.v, x as int + 1),
            pc: pc2,
            ..s
        }),
        Instr::LoadRegs { x } => step_ok(StateV {
            v: load_regs_v(s.v, s.mem, s.i as int, x as int + 1),
            pc: pc2,
            ..s
        }),
        Instr::Invalid => step_fault(s, Fault::InvalidOpcode),
    }
}

/// The instruction word fetched at the program counter: the big-endian
/// pair of bytes at `pc` and `pc + 1`.
pub open spec fn spec_fetch_word(s: StateV) -> u16 {
    ((s.mem[s.pc as int] as u16) << 8) | (s.mem[s.pc as int + 1] as u16)
}

/// One whole instruction cycle from state `s`: bounds-check the fetch,
/// decode, and execute. The fetch faults only when the counter sits on
/// the last memory cell, where no two-byte word fits.
pub open spec fn spec_step(s: StateV, keys: u16, rnd: u8) -> StepOut {
    if s.pc as int + 1 >= MEM_SIZE {
        step_fault(s, Fault::ProgramCounterOutOfBounds)
    } else {
        spec_exec(s, spec_decode(spec_fetch_word(s)), keys, rnd)
    }
}

/// `store_regs_mem` keeps the memory size and never touches the font.
pub proof fn lemma_store_regs_mem_props(mem: Seq<u8>, i: int, v: Seq<u8>, k: int)
    requires
        mem.len() == MEM_SIZE,
    ensures
        store_regs_mem(mem, i, v, k).len() == MEM_SIZE,
        crate::state::font_loaded(mem) ==> crate::state::font_loaded(store_regs_mem(mem, i, v, k)),
    decreases k,
{
    if k > 0 {
        lemma_store_regs_mem_props(mem, i, v, k - 1);
    }
}

/// `load_regs_v` keeps the register count.
pub proof fn lemma_load_regs_v_props(v: Seq<u8>, mem: Seq<u8>, i: int, k: int)
    requires
        0 <= k <= v.len(),
    ensures
        load_regs_v(v, mem, i, k).len() == v.len(),
    decreases k,
{
    if k > 0 {
        lemma_load_regs_v_props(v, mem, i, k - 1);
    }
}

/// Scans for the lowest pressed key; 16 means none is pressed.
fn first_pressed_key(keys: u16) -> (k: u8)
    ensures
        k == least_key(keys),
{
    let mut j: u8 = 0;
    while j < 16
        invariant
            j <= 16,
            least_key(keys) == least_key_from(keys, j),
        decreases 16 - j,
    {
        if (keys >> (j as u16)) & 1 == 1 {
            return j;
        }
        j = j + 1;
    }
    16
}

impl Chip8 {
    /// The display pass of the draw instruction: XORs the `n`-row sprite
    /// at the index register into the display at origin
    /// `(v[x] % 64, v[y] % 32)`, and records in `v[0xF]` whether some set
    /// pixel was cleared.
    #[verifier::loop_isolation(false)]
    fn exec_draw(&mut self, x: u8, y: u8, n: u8)
        requires
            old(self).wf(),
            x < 16,
            y < 16,
            n < 16,
        ensures
            final(self).wf(),
            final(self)@ == ({
                let s = old(self)@;
                let ox = (s.v[x as int] % 64) as int;
                let oy = (s.v[y as int] % 32) as int;
                let sprite = sprite_rows(s.mem, s.i as int, n as int);
                StateV {
                    display: draw_display(s.display, sprite, ox, oy),
                    v: s.v.update(15, if draw_collision(s.display, sprite, ox, oy) { 1u8 } else { 0u8 }),
                    ..s
                }
            }),
    {
        let ghost s0 = self@;
        let ox = (self.v[x as usize] % 64) as usize;
        let oy = (self.v[y as usize] % 32) as usize;
        let ghost sprite = sprite_rows(s0.mem, s0.i as int, n as int);
        let mut collided = false;
        let mut r: usize = 0;
        proof {
            crate::draw::lemma_draw_zero(s0.display, sprite, ox as int, oy as int);
        }
        while r < n as usize
            invariant
                self.wf(),
                r <= n as usize,
                self@.mem == s0.mem,
                self@.v == s0.v,
                self@.pc == s0.pc,
                self@.i == s0.i,
                self@.stack == s0.stack,
                self@.delay == s0.delay,
                self@.sound == s0.sound,
                self@.display == crate::draw::display_partial(s0.display, sprite, ox as int, oy as int, r as int, 0),
                collided == crate::draw::collision_partial(s0.display, sprite, ox as int, oy as int, r as int, 0),
            decreases n as usize - r,
        {
            let byte = self.memory[(self.i as usize + r) % MEM_SIZE];
            proof {
                assert(byte == sprite[r as int]);
            }
            let mut c: usize = 0;
            while c < 8
                invariant
                    c <= 8,
                    r < n as usize,
                    byte == sprite[r as int],
                    self.wf(),
                    self@.mem == s0.mem,
                    self@.v == s0.v,
                    self@.pc == s0.pc,
                    self@.i == s0.i,
                    self@.stack == s0.stack,
                    self@.delay == s0.delay,
                    self@.sound == s0.sound,
                    self@.display == crate::draw::display_partial(s0.display, sprite, ox as int, oy as int, r as int, c as int),
                    collided == crate::draw::collision_partial(s0.display, sprite, ox as int, oy as int, r as int, c as int),
                decreases 8 - c,
            {
                let sh = (7 - c) as u8;
                let bit = (byte >> sh) & 1;
                let px = ox + c;
                let py = oy + r;
                if bit == 1 && px < DISPLAY_WIDTH && py < DISPLAY_HEIGHT {
                    let ghost q = (py * DISPLAY_WIDTH + px) as int;
                    proof {
                        assert(0 <= q < DISPLAY_CELLS);
                        assert(q % 64 == px as int);
                        assert(q / 64 == py as int);
                        assert(covers_partial(sprite, ox as int, oy as int, r as int, c as int + 1, q));
                        assert(!covers_partial(sprite, ox as int, oy as int, r as int, c as int, q));
                        assert forall|p: int|
                            0 <= p < DISPLAY_CELLS && p != q implies covers_partial(
                            sprite,
                            ox as int,
                            oy as int,
                            r as int,
                            c as int + 1,
                            p,
                        ) == covers_partial(sprite, ox as int, oy as int, r as int, c as int, p) by {
                            assert(p == 64 * (p / 64) + p % 64);
                        }
                        crate::draw::lemma_single_bit_step(
                            s0.display,
                            sprite,
                            ox as int,
                            oy as int,
                            r as int,
                            c as int,
                            q,
                        );
                    }
                    let was = self.flip_pixel(px, py);
                    if was {
                        collided = true;
                    }
                    proof {
                        assert(self@.display =~= crate::draw::display_partial(
                            s0.display,
                            sprite,
                            ox as int,
                            oy as int,
                            r as int,
                            c as int + 1,
                        ));
                    }
                } else {
                    proof {
                        assert forall|p: int| 0 <= p < DISPLAY_CELLS implies covers_partial(
                            sprite,
                            ox as int,
                            oy as int,
                            r as int,
                            c as int + 1,
                            p,
                        ) == covers_partial(sprite, ox as int, oy as int, r as int, c as int, p) by {
                            assert(p == 64 * (p / 64) + p % 64);
                            assert(0 <= p % 64 < 64);
                            assert(0 <= p / 64 < 32);
                        }
                        crate::draw::lemma_cover_ext(
                            s0.display,
                            sprite,
                            ox as int,
                            oy as int,
                            r as int,
                            c as int + 1,
                            r as int,
                            c as int,
                        );
                    }
                }
                c = c + 1;
            }
            proof {
                lemma_covers_partial_row_step(sprite, ox as int, oy as int, r as int);
                crate::draw::lemma_cover_ext(
                    s0.display,
                    sprite,
                    ox as int,
                    oy as int,
                    r as int,
                    8,
                    r as int + 1,
                    0,
                );
            }
            r = r + 1;
        }
        proof {
            crate::draw::lemma_draw_full(s0.display, sprite, ox as int, oy as int);
        }
        self.v.set(15, if collided { 1 } else { 0 });
        proof {
            assert(self@ =~= (StateV {
                display: draw_display(s0.display, sprite, ox as int, oy as int),
                v: s0.v.update(15, if draw_collision(s0.display, sprite, ox as int, oy as int) { 1u8 } else { 0u8 }),
                ..s0
            }));
        }
    }

    /// Stores `v[0]..=v[x]` to memory at the index register, which is left
    /// unchanged; addresses wrap in the 12-bit space and the font region
    /// is never overwritten.
    #[verifier::loop_isolation(false)]
    fn exec_store_regs(&mut self, x: u8)
        requires
            old(self).wf(),
            x < 16,
        ensures
            final(self).wf(),
            final(self)@ == (StateV {
                mem: store_regs_mem(old(self)@.mem, old(self)@.i as int, old(self)@.v, x as int + 1),
                ..old(self)@
            }),
    {
        let ghost s0 = self@;
        let mut k: usize = 0;
        while k <= x as usize
            invariant
                self.wf(),
                k <= x as usize + 1,
                self@.v == s0.v,
                self@.pc == s0.pc,
                self@.i == s0.i,
                self@.display == s0.display,
                self@.stack == s0.stack,
                self@.delay == s0.delay,
                self@.sound == s0.sound,
                self@.mem == store_regs_mem(s0.mem, s0.i as int, s0.v, k as int),
            decreases x as usize + 1 - k,
        {
            let val = self.v[k];
            let addr = (self.i as usize + k) % MEM_SIZE;
            self.mem_store(addr, val);
            k = k + 1;
        }
    }

    /// Loads `v[0]..=v[x]` from memory at the index register, which is
    /// left unchanged; addresses wrap in the 12-bit space.
    #[verifier::loop_isolation(false)]
    fn exec_load_regs(&mut self, x: u8)
        requires
            old(self).wf(),
            x < 16,
        ensures
            final(self).wf(),
            final(self)@ == (StateV {
                v: load_regs_v(old(self)@.v, old(self)@.mem, old(self)@.i as int, x as int + 1),
                ..old(self)@
            }),
    {
        let ghost s0 = self@;
        let mut k: usize = 0;
        while k <= x as usize
            invariant
                self.wf(),
                k <= x as usize + 1,
                self@.mem == s0.mem,
                self@.pc == s0.pc,
                self@.i == s0.i,
                self@.display == s0.display,
                self@.stack == s0.stack,
                self@.delay == s0.delay,
                self@.sound == s0.sound,
                self@.v == load_regs_v(s0.v, s0.mem, s0.i as int, k as int),
            decreases x as usize + 1 - k,
        {
            let addr = (self.i as usize + k) % MEM_SIZE;
            let val = self.memory[addr];
            self.v.set(k, val);
            k = k + 1;
        }
    }

    /// Executes the control-flow instructions: screen clear, return,
    /// jumps, calls, conditional skips, and the key wait.
    #[verifier::rlimit(60)]
    #[verifier::spinoff_prover]
    fn exec_flow(&mut self, ins: Instr, keys: u16, rnd: u8) -> (r: Result<(), Fault>)
        requires
            old(self).wf(),
            crate::instr::instr_wf(ins),
            is_flow_instr(ins),
        ensures
            final(self).wf(),
            final(self)@ == spec_exec(old(self)@, ins, keys, rnd).state,
            match r {
                Ok(()) => spec_exec(old(self)@, ins, keys, rnd).fault is None,
                Err(f) => spec_exec(old(self)@, ins, keys, rnd).fault == Some(f),
            },
    {
        let ghost s0 = self@;
        let ghost out = spec_exec(s0, ins, keys, rnd);
        let pc2: u16 = (self.pc + 2) % (MEM_SIZE as u16);
        proof {
            assert(pc2 == mask12(s0.pc + 2));
        }
        match ins {
            Instr::ClearScreen => {
                self.display = crate::state::blank_display();
                self.pc = pc2;
                proof {
                    assert(self@ =~= out.state);
                }
                Ok(())
            },
            Instr::Ret => {
                if self.stack.len() == 0 {
                    return Err(Fault::StackUnderflow);
                }
                let top = match self.stack.pop() {
                    Some(t) => t,
                    None => 0,
                };
                self.pc = top;
                proof {
                    assert(self@ =~= out.state);
                }
                Ok(())
            },
            Instr::Jump { nnn } => {
                self.pc = nnn;
                proof {
                    assert(self@ =~= out.state);
                }
                Ok(())
            },
            Instr::Call { nnn } => {
                if self.stack.len() >= STACK_DEPTH {
                    return Err(Fault::StackOverflow);
                }
                self.stack.push(pc2);
                self.pc = nnn;
                proof {
                    assert(self@ =~= out.state);
                }
                Ok(())
            },
            Instr::SkipEqImm { x, nn } => {
                let pc4: u16 = (pc2 + 2) % (MEM_SIZE as u16);
                self.pc = if self.v[x as usize] == nn { pc4 } else { pc2 };
                proof {
                    assert(self@ =~= out.state);
                }
                Ok(())
            },
            Instr::SkipNeImm { x, nn } => {
                let pc4: u16 = (pc2 + 2) % (MEM_SIZE as u16);
                self.pc = if self.v[x as usize] != nn { pc4 } else { pc2 };
                proof {
                    assert(self@ =~= out.state);
                }
                Ok(())
            },
            Instr::SkipEqReg { x, y } => {
                let pc4: u16 = (pc2 + 2) % (MEM_SIZE as u16);
                self.pc = if self.v[x as usize] == self.v[y as usize] { pc4 } else { pc2 };
                proof {
                    assert(self@ =~= out.state);
                }
                Ok(())
            },
            Instr::SkipNeReg { x, y } => {
                let pc4: u16 = (pc2 + 2) % (MEM_SIZE as u16);
                self.pc = if self.v[x as usize] != self.v[y as usize] { pc4 } else { pc2 };
                proof {
                    assert(self@ =~= out.state);
                }
                Ok(())
            },
            Instr::SkipKey { x } => {
                let pc4: u16 = (pc2 + 2) % (MEM_SIZE as u16);
                let k = self.v[x as usize] % 16;
                self.pc = if (keys >> (k as u16)) & 1 == 1 { pc4 } else { pc2 };
                proof {
                    assert(self@ =~= out.state);
                }
                Ok(())
            },
            Instr::SkipNoKey { x } => {
                let pc4: u16 = (pc2 + 2) % (MEM_SIZE as u16);
                let k = self.v[x as usize] % 16;
                self.pc = if (keys >> (k as u16)) & 1 == 1 { pc2 } else { pc4 };
                proof {
                    assert(self@ =~= out.state);
                }
                Ok(())
            },
            Instr::WaitKey { x } => {
                let k = first_pressed_key(keys);
                if k < 16 {
                    self.v.set(x as usize, k);
                    self.pc = pc2;
                }
                proof {
                    assert(self@ =~= out.state);
                }
                Ok(())
            },
            Instr::Invalid => {
                Err(Fault::InvalidOpcode)
            },
            _ => {
                proof {
                    assert(false);
                }
                Err(Fault::InvalidOpcode)
            },
        }
    }

    /// Executes the plain register instructions: immediate and register
    /// moves, bitwise operations, the masked random byte, and the
    /// delay-timer read.
    #[verifier::rlimit(100)]
    #[verifier::spinoff_prover]
    fn exec_alu(&mut self, ins: Instr, keys: u16, rnd: u8) -> (r: Result<(), Fault>)
        requires
            old(self).wf(),
            crate::instr::instr_wf(ins),
            is_alu_instr(ins),
        ensures
            final(self).wf(),
            final(self)@ == spec_exec(old(self)@, ins, keys, rnd).state,
            match r {
                Ok(()) => spec_exec(old(self)@, ins, keys, rnd).fault is None,
                Err(f) => spec_exec(old(self)@, ins, keys, rnd).fault == Some(f),
            },
    {
        let ghost s0 = self@;
        let ghost out = spec_exec(s0, ins, keys, rnd);
        let pc2: u16 = (self.pc + 2) % (MEM_SIZE as u16);
        proof {
            assert(pc2 == mask12(s0.pc + 2));
        }
        match ins {
            Instr::SetImm { x, nn } => {
                self.v.set(x as usize, nn);
                self.pc = pc2;
                proof {
                    assert(self@ =~= out.state);
                }
                Ok(())
            },
            Instr::AddImm { x, nn } => {
                let sum = self.v[x as usize] as u16 + nn as u16;
                self.v.set(x as usize, (sum % 256) as u8);
                self.pc = pc2;
                proof {
                    assert(self@ =~= out.state);
                }
                Ok(())
            },
            Instr::SetReg { x, y } => {
                let vy = self.v[y as usize];
                self.v.set(x as usize, vy);
                self.pc = pc2;
                proof {
                    assert(self@ =~= out.state);
                }
                Ok(())
            },
            Instr::OrReg { x, y } => {
                let r8 = self.v[x as usize] | self.v[y as usize];
                self.v.set(x as usize, r8);
                self.pc = pc2;
                proof {
                    assert(self@ =~= out.state);
                }
                Ok(())
            },
            Instr::AndReg { x, y } => {
                let r8 = self.v[x as usize] & self.v[y as usize];
                self.v.set(x as usize, r8);
                self.pc = pc2;
                proof {
                    assert(self@ =~= out.state);
                }
                Ok(())
            },
            Instr::XorReg { x, y } => {
                let r8 = self.v[x as usize] ^ self.v[y as usize];
                self.v.set(x as usize, r8);
                self.pc = pc2;
                proof {
                    assert(self@ =~= out.state);
                }
                Ok(())
            },
            Instr::Rand { x, nn } => {
                self.v.set(x as usize, rnd & nn);
                self.pc = pc2;
                proof {
                    assert(self@ =~= out.state);
                }
                Ok(())
            },
            Instr::GetDelay { x } => {
                let d = self.delay_timer;
                self.v.set(x as usize, d);
                self.pc = pc2;
                proof {
                    assert(self@ =~= out.state);
                }
                Ok(())
            },
            _ => {
                proof {
                    assert(false);
                }
                Err(Fault::InvalidOpcode)
            },
        }
    }


    /// Executes the flagged arithmetic instructions: the carrying add,
    /// the two subtract orders, and the shifts.
    #[verifier::rlimit(100)]
    #[verifier::spinoff_prover]
    fn exec_arith(&mut self, ins: Instr, keys: u16, rnd: u8) -> (r: Result<(), Fault>)
        requires
            old(self).wf(),
            crate::instr::instr_wf(ins),
            is_arith_instr(ins),
        ensures
            final(self).wf(),
            final(self)@ == spec_exec(old(self)@, ins, keys, rnd).state,
            match r {
                Ok(()) => spec_exec(old(self)@, ins, keys, rnd).fault is None,
                Err(f) => spec_exec(old(self)@, ins, keys, rnd).fault == Some(f),
            },
    {
        let ghost s0 = self@;
        let ghost out = spec_exec(s0, ins, keys, rnd);
        let pc2: u16 = (self.pc + 2) % (MEM_SIZE as u16);
        proof {
            assert(pc2 == mask12(s0.pc + 2));
        }
        match ins {
            Instr::AddReg { x, y } => {
                let vx = self.v[x as usize];
                let vy = self.v[y as usize];
                let sum = vx as u16 + vy as u16;
                self.v.set(x as usize, (sum % 256) as u8);
                self.v.set(15, if sum >= 256 { 1 } else { 0 });
                self.pc = pc2;
                proof {
                    assert(self@ =~= out.state);
                }
                Ok(())
            },
            Instr::SubReg { x, y } => {
                let vx = self.v[x as usize];
                let vy = self.v[y as usize];
                let diff = (vx as u16 + 256 - vy as u16) % 256;
                self.v.set(x as usize, diff as u8);
                self.v.set(15, if vx >= vy { 1 } else { 0 });
                self.pc = pc2;
                proof {
                    assert((vx as int + 256 - vy as int) % 256 == (vx as int - vy as int) % 256)
                        by (nonlinear_arith);
                    assert(diff as u8 == wrap8(vx - vy));
                    assert(self@ =~= out.state);
                }
                Ok(())
            },
            Instr::SubnReg { x, y } => {
                let vx = self.v[x as usize];
                let vy = self.v[y as usize];
                let diff = (vy as u16 + 256 - vx as u16) % 256;
                self.v.set(x as usize, diff as u8);
                self.v.set(15, if vy >= vx { 1 } else { 0 });
                self.pc = pc2;
                proof {
                    assert((vy as int + 256 - vx as int) % 256 == (vy as int - vx as int) % 256)
                        by (nonlinear_arith);
                    assert(diff as u8 == wrap8(vy - vx));
                    assert(self@ =~= out.state);
                }
                Ok(())
            },
            Instr::ShrReg { x } => {
                let vx = self.v[x as usize];
                self.v.set(x as usize, vx >> 1);
                self.v.set(15, vx & 1);
                self.pc = pc2;
                proof {
                    assert(self@ =~= out.state);
                }
                Ok(())
            },
            Instr::ShlReg { x } => {
                let vx = self.v[x as usize];
                self.v.set(x as usize, vx << 1);
                self.v.set(15, vx >> 7);
                self.pc = pc2;
                proof {
                    assert(self@ =~= out.state);
                }
                Ok(())
            },
            _ => {
                proof {
                    assert(false);
                }
                Err(Fault::InvalidOpcode)
            },
        }
    }

    /// Executes the memory, index, timer-write and draw instructions.
    #[verifier::rlimit(60)]
    #[verifier::spinoff_prover]
    fn exec_misc(&mut self, ins: Instr, keys: u16, rnd: u8) -> (r: Result<(), Fault>)
        requires
            old(self).wf(),
            crate::instr::instr_wf(ins),
            is_misc_instr(ins),
        ensures
            final(self).wf(),
            final(self)@ == spec_exec(old(self)@, ins, keys, rnd).state,
            match r {
                Ok(()) => spec_exec(old(self)@, ins, keys, rnd).fault is None,
                Err(f) => spec_exec(old(self)@, ins, keys, rnd).fault == Some(f),
            },
    {
        let ghost s0 = self@;
        let ghost out = spec_exec(s0, ins, keys, rnd);
        let pc2: u16 = (self.pc + 2) % (MEM_SIZE as u16);
        proof {
            assert(pc2 == mask12(s0.pc + 2));
        }
        match ins {
            Instr::SetIndex { nnn } => {
                self.i = nnn;
                self.pc = pc2;
                proof {
                    assert(self@ =~= out.state);
                }
                Ok(())
            },
            Instr::JumpOffset { nnn } => {
                self.pc = ((nnn as usize + self.v[0] as usize) % MEM_SIZE) as u16;
                proof {
                    assert(self@ =~= out.state);
                }
                Ok(())
            },
            Instr::Draw { x, y, n } => {
                self.exec_draw(x, y, n);
                self.pc = pc2;
                proof {
                    assert(self@ =~= out.state);
                }
                Ok(())
            },
            Instr::SetDelay { x } => {
                self.delay_timer = self.v[x as usize];
                self.pc = pc2;
                proof {
                    assert(self@ =~= out.state);
                }
                Ok(())
            },
            Instr::SetSound { x } => {
                self.sound_timer = self.v[x as usize];
                self.pc = pc2;
                proof {
                    assert(self@ =~= out.state);
                }
                Ok(())
            },
            Instr::AddIndex { x } => {
                self.i = ((self.i as usize + self.v[x as usize] as usize) % MEM_SIZE) as u16;
                self.pc = pc2;
                proof {
                    assert(self@ =~= out.state);
                }
                Ok(())
            },
            Instr::FontIndex { x } => {
                let d = self.v[x as usize] % 16;
                self.i = 0x50 + 5 * (d as u16);
                self.pc = pc2;
                proof {
                    assert(self@ =~= out.state);
                }
                Ok(())
            },
            Instr::StoreBcd { x } => {
                let vx = self.v[x as usize];
                let i0 = self.i as usize;
                self.mem_store(i0, vx / 100);
                self.mem_store((i0 + 1) % MEM_SIZE, (vx / 10) % 10);
                self.mem_store((i0 + 2) % MEM_SIZE, vx % 10);
                self.pc = pc2;
                proof {
                    assert(self@ =~= out.state);
                }
                Ok(())
            },
            Instr::StoreRegs { x } => {
                self.exec_store_regs(x);
                self.pc = pc2;
                proof {
                    lemma_store_regs_mem_props(s0.mem, s0.i as int, s0.v, x as int + 1);
                    assert(self@ =~= out.state);
                }
                Ok(())
            },
            Instr::LoadRegs { x } => {
                self.exec_load_regs(x);
                self.pc = pc2;
                proof {
                    lemma_load_regs_v_props(s0.v, s0.mem, s0.i as int, x as int + 1);
                    assert(self@ =~= out.state);
                }
                Ok(())
            },
            _ => {
                proof {
                    assert(false);
                }
                Err(Fault::InvalidOpcode)
            },
        }
    }

    /// Executes exactly one instruction: fetch at the program counter,
    /// advance it by 2, decode, and apply the instruction to the machine.
    ///
    /// `keys` is the host's current key state (bit `k` set means key `k`
    /// is pressed) and `rnd` a host-supplied random byte, consumed only by
    /// the random instruction. The whole transition equals `spec_step` on
    /// the prior state; on a fault the machine is left exactly as it was.
    pub fn step(&mut self, keys: u16, rnd: u8) -> (r: Result<(), Fault>)
        requires
            old(self).wf(),
        ensures
            final(self).wf(),
            final(self)@ == spec_step(old(self)@, keys, rnd).state,
            match r {
                Ok(()) => spec_step(old(self)@, keys, rnd).fault is None,
                Err(f) => spec_step(old(self)@, keys, rnd).fault == Some(f),
            },
    {
        let ghost s0 = self@;
        if self.pc as usize + 1 >= MEM_SIZE {
            return Err(Fault::ProgramCounterOutOfBounds);
        }
        let hi = self.memory[self.pc as usize];
        let lo = self.memory[self.pc as usize + 1];
        let w: u16 = ((hi as u16) << 8) | (lo as u16);
        proof {
            assert(w == spec_fetch_word(s0));
        }
        let ins = decode(w);
        proof {
            assert(spec_step(s0, keys, rnd) == spec_exec(s0, ins, keys, rnd));
        }
        let g = instr_group(ins);
        if g == 0 {
            self.exec_flow(ins, keys, rnd)
        } else if g == 1 {
            self.exec_alu(ins, keys, rnd)
        } else if g == 2 {
            self.exec_arith(ins, keys, rnd)
        } else {
            self.exec_misc(ins, keys, rnd)
        }
    }
}

/// The control-flow group of instructions.
pub open spec fn is_flow_instr(ins: Instr) -> bool {
    ||| ins is ClearScreen
    ||| ins is Ret
    ||| ins is Jump
    ||| ins is Call
    ||| ins is SkipEqImm
    ||| ins is SkipNeImm
    ||| ins is SkipEqReg
    ||| ins is SkipNeReg
    ||| ins is SkipKey
    ||| ins is SkipNoKey
    ||| ins is WaitKey
    ||| ins is Invalid
}

/// The register-arithmetic group of instructions.
pub open spec fn is_alu_instr(ins: Instr) -> bool {
    ||| ins is SetImm
    ||| ins is AddImm
    ||| ins is SetReg
    ||| ins is OrReg
    ||| ins is AndReg
    ||| ins is XorReg
    ||| ins is Rand
    ||| ins is GetDelay
}

/// The flagged-arithmetic group of instructions.
pub open spec fn is_arith_instr(ins: Instr) -> bool {
    ||| ins is AddReg
    ||| ins is SubReg
    ||| ins is SubnReg
    ||| ins is ShrReg
    ||| ins is ShlReg
}

/// The memory, index, timer-write and draw group of instructions.
pub open spec fn is_misc_instr(ins: Instr) -> bool {
    ||| ins is SetIndex
    ||| ins is JumpOffset
    ||| ins is Draw
    ||| ins is SetDelay
    ||| ins is SetSound
    ||| ins is AddIndex
    ||| ins is FontIndex
    ||| ins is StoreBcd
    ||| ins is StoreRegs
    ||| ins is LoadRegs
}

/// Sorts an instruction into its executor group: 0 for control flow, 1
/// for register moves and bitwise work, 2 for the flagged arithmetic,
/// 3 for the rest.
fn instr_group(ins: Instr) -> (g: u8)
    ensures
        g == 0 ==> is_flow_instr(ins),
        g == 1 ==> is_alu_instr(ins),
        g == 2 ==> is_arith_instr(ins),
        g != 0 && g != 1 && g != 2 ==> is_misc_instr(ins),
{
    match ins {
        Instr::ClearScreen => 0,
        Instr::Ret => 0,
        Instr::Jump { .. } => 0,
        Instr::Call { .. } => 0,
        Instr::SkipEqImm { .. } => 0,
        Instr::SkipNeImm { .. } => 0,
        Instr::SkipEqReg { .. } => 0,
        Instr::SkipNeReg { .. } => 0,
        Instr::SkipKey { .. } => 0,
        Instr::SkipNoKey { .. } => 0,
        Instr::WaitKey { .. } => 0,
        Instr::Invalid => 0,
        Instr::SetImm { .. } => 1,
        Instr::AddImm { .. } => 1,
        Instr::SetReg { .. } => 1,
        Instr::OrReg { .. } => 1,
        Instr::AndReg { .. } => 1,
        Instr::XorReg { .. } => 1,
        Instr::AddReg { .. } => 2,
        Instr::SubReg { .. } => 2,
        Instr::SubnReg { .. } => 2,
        Instr::ShrReg { .. } => 2,
        Instr::ShlReg { .. } => 2,
        Instr::Rand { .. } => 1,
        Instr::GetDelay { .. } => 1,
        Instr::SetIndex { .. } => 3,
        Instr::JumpOffset { .. } => 3,
        Instr::Draw { .. } => 3,
        Instr::SetDelay { .. } => 3,
        Instr::SetSound { .. } => 3,
        Instr::AddIndex { .. } => 3,
        Instr::FontIndex { .. } => 3,
        Instr::StoreBcd { .. } => 3,
        Instr::StoreRegs { .. } => 3,
        Instr::LoadRegs { .. } => 3,
    }
}

} // verus!
