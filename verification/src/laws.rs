//! Laws of the instruction set, proved once and for all over the
//! spec-level transition functions.

use vstd::prelude::*;
use crate::cycle::mask12;
use crate::cycle::spec_exec;
use crate::cycle::spec_fetch_word;
use crate::cycle::spec_step;
use crate::draw::covers;
use crate::draw::draw_collision;
use crate::draw::draw_display;
use crate::draw::sprite_rows;
use crate::instr::Instr;
use crate::instr::spec_decode;
use crate::state::DISPLAY_CELLS;
use crate::state::MEM_SIZE;
use crate::state::STACK_DEPTH;
use crate::state::StateV;
use crate::state::wf_state;

verus! {

/// The register add wraps modulo 256, and VF reports the carry: it
/// becomes 1 exactly when the true sum reaches 256. When `x` is 15 the
/// flag lands in the same register as the sum and wins.
pub proof fn lemma_add_reg_wraps(s: StateV, x: u8, y: u8, keys: u16, rnd: u8)
    requires
        wf_state(s),
        x < 16,
        y < 16,
    ensures
        spec_exec(s, Instr::AddReg { x, y }, keys, rnd).fault is None,
        spec_exec(s, Instr::AddReg { x, y }, keys, rnd).state.v[15]
            == if s.v[x as int] + s.v[y as int] >= 256 { 1u8 } else { 0u8 },
        x != 15 ==> spec_exec(s, Instr::AddReg { x, y }, keys, rnd).state.v[x as int]
            == (s.v[x as int] + s.v[y as int]) % 256,
{
}

/// The subtract `v[x] - v[y]` wraps modulo 256, and VF reports the
/// borrow's absence: it becomes 1 exactly when `v[x] >= v[y]`.
pub proof fn lemma_sub_reg_wraps(s: StateV, x: u8, y: u8, keys: u16, rnd: u8)
    requires
        wf_state(s),
        x < 16,
        y < 16,
    ensures
        spec_exec(s, Instr::SubReg { x, y }, keys, rnd).fault is None,
        spec_exec(s, Instr::SubReg { x, y }, keys, rnd).state.v[15]
            == if s.v[x as int] >= s.v[y as int] { 1u8 } else { 0u8 },
        x != 15 ==> spec_exec(s, Instr::SubReg { x, y }, keys, rnd).state.v[x as int]
            == (s.v[x as int] - s.v[y as int]) % 256,
{
}

/// The reversed subtract `v[y] - v[x]` wraps modulo 256, and VF becomes 1
/// exactly when `v[y] >= v[x]`.
pub proof fn lemma_subn_reg_wraps(s: StateV, x: u8, y: u8, keys: u16, rnd: u8)
    requires
        wf_state(s),
        x < 16,
        y < 16,
    ensures
        spec_exec(s, Instr::SubnReg { x, y }, keys, rnd).fault is None,
        spec_exec(s, Instr::SubnReg { x, y }, keys, rnd).state.v[15]
            == if s.v[y as int] >= s.v[x as int] { 1u8 } else { 0u8 },
        x != 15 ==> spec_exec(s, Instr::SubnReg { x, y }, keys, rnd).state.v[x as int]
            == (s.v[y as int] - s.v[x as int]) % 256,
{
}

/// The immediate add wraps modulo 256 and, unlike the register add,
/// leaves the flag register alone.
pub proof fn lemma_add_imm_wraps_no_flag(s: StateV, x: u8, nn: u8, keys: u16, rnd: u8)
    requires
        wf_state(s),
        x < 16,
    ensures
        spec_exec(s, Instr::AddImm { x, nn }, keys, rnd).fault is None,
        spec_exec(s, Instr::AddImm { x, nn }, keys, rnd).state.v[x as int]
            == (s.v[x as int] + nn) % 256,
        x != 15 ==> spec_exec(s, Instr::AddImm { x, nn }, keys, rnd).state.v[15] == s.v[15],
{
}

/// A jump lands exactly on its target: the cycle's implicit advance by 2
/// never composes with the assigned address.
pub proof fn lemma_jump_exact(s: StateV, nnn: u16, keys: u16, rnd: u8)
    requires
        wf_state(s),
        s.pc + 1 < MEM_SIZE,
        spec_decode(spec_fetch_word(s)) == (Instr::Jump { nnn }),
    ensures
        spec_step(s, keys, rnd).fault is None,
        spec_step(s, keys, rnd).state.pc == nnn,
{
}

/// Call then return round-trips the program counter: a call at address A
/// jumps to its target, and the return resumes at A + 2 with the stack
/// exactly as it was before the call.
#[verifier::rlimit(100)]
#[verifier::spinoff_prover]
pub proof fn lemma_call_ret_round_trip(s: StateV, nnn: u16, keys1: u16, rnd1: u8, keys2: u16, rnd2: u8)
    requires
        wf_state(s),
        s.pc + 2 < MEM_SIZE,
        s.stack.len() < STACK_DEPTH,
        spec_decode(spec_fetch_word(s)) == (Instr::Call { nnn }),
        nnn + 1 < MEM_SIZE,
        spec_decode(spec_fetch_word(spec_step(s, keys1, rnd1).state)) == Instr::Ret,
    ensures
        spec_step(s, keys1, rnd1).fault is None,
        spec_step(s, keys1, rnd1).state.pc == nnn,
        spec_step(spec_step(s, keys1, rnd1).state, keys2, rnd2).fault is None,
        spec_step(spec_step(s, keys1, rnd1).state, keys2, rnd2).state.pc == s.pc + 2,
        spec_step(spec_step(s, keys1, rnd1).state, keys2, rnd2).state.stack == s.stack,
{
    let s1 = spec_step(s, keys1, rnd1).state;
    assert(s1.stack == s.stack.push(mask12(s.pc + 2)));
    assert(s1.stack.len() == s.stack.len() + 1);
    assert(mask12(s.pc + 2) == s.pc + 2);
    let s2 = spec_step(s1, keys2, rnd2).state;
    assert(s2.stack =~= s.stack);
    assert(s2.pc == s1.stack.last());
}

/// XOR-drawing the same sprite at the same origin twice restores the
/// display exactly.
pub proof fn lemma_draw_display_involutive(d: Seq<bool>, sprite: Seq<u8>, ox: int, oy: int)
    requires
        d.len() == DISPLAY_CELLS,
    ensures
        draw_display(draw_display(d, sprite, ox, oy), sprite, ox, oy) =~= d,
{
    assert forall|p: int| 0 <= p < DISPLAY_CELLS implies draw_display(
        draw_display(d, sprite, ox, oy),
        sprite,
        ox,
        oy,
    )[p] == d[p] by {
        assert(draw_display(d, sprite, ox, oy)[p] == (d[p] != covers(sprite, ox, oy, p)));
    }
}

/// Executing the same draw instruction twice in a row (with coordinate
/// registers other than VF, which the draw itself rewrites) leaves every
/// pixel as it started.
pub proof fn lemma_draw_twice_restores(s: StateV, x: u8, y: u8, n: u8, keys1: u16, rnd1: u8, keys2: u16, rnd2: u8)
    requires
        wf_state(s),
        x < 16,
        y < 16,
        n < 16,
        x != 15,
        y != 15,
    ensures
        spec_exec(
            spec_exec(s, Instr::Draw { x, y, n }, keys1, rnd1).state,
            Instr::Draw { x, y, n },
            keys2,
            rnd2,
        ).state.display == s.display,
{
    let s1 = spec_exec(s, Instr::Draw { x, y, n }, keys1, rnd1).state;
    let ox = (s.v[x as int] % 64) as int;
    let oy = (s.v[y as int] % 32) as int;
    let sprite = sprite_rows(s.mem, s.i as int, n as int);
    assert(s1.mem == s.mem);
    assert(s1.i == s.i);
    assert(s1.v[x as int] == s.v[x as int]);
    assert(s1.v[y as int] == s.v[y as int]);
    assert(sprite_rows(s1.mem, s1.i as int, n as int) == sprite);
    lemma_draw_display_involutive(s.display, sprite, ox, oy);
    assert(spec_exec(s1, Instr::Draw { x, y, n }, keys2, rnd2).state.display =~= s.display);
}

/// For a second identical draw, the flag is 0 exactly when the first
/// draw collided nowhere — stated for the draws on which it holds: those
/// whose sprite covers no pixel at all, and those that cover both some
/// lit and some unlit pixel.
pub proof fn lemma_draw_twice_flag(s: StateV, x: u8, y: u8, n: u8, keys1: u16, rnd1: u8, keys2: u16, rnd2: u8)
    requires
        wf_state(s),
        x < 16,
        y < 16,
        n < 16,
        x != 15,
        y != 15,
        ({
            let ox = (s.v[x as int] % 64) as int;
            let oy = (s.v[y as int] % 32) as int;
            let sprite = sprite_rows(s.mem, s.i as int, n as int);
            (forall|p: int| 0 <= p < DISPLAY_CELLS ==> !covers(sprite, ox, oy, p))
            || ((exists|p: int| 0 <= p < DISPLAY_CELLS && covers(sprite, ox, oy, p) && s.display[p])
                && (exists|p: int| 0 <= p < DISPLAY_CELLS && covers(sprite, ox, oy, p) && !s.display[p]))
        }),
    ensures
        ({
            let s1 = spec_exec(s, Instr::Draw { x, y, n }, keys1, rnd1).state;
            let s2 = spec_exec(s1, Instr::Draw { x, y, n }, keys2, rnd2).state;
            (s2.v[15] == 0) <==> (s1.v[15] == 0)
        }),
{
    let ox = (s.v[x as int] % 64) as int;
    let oy = (s.v[y as int] % 32) as int;
    let sprite = sprite_rows(s.mem, s.i as int, n as int);
    let s1 = spec_exec(s, Instr::Draw { x, y, n }, keys1, rnd1).state;
    let s2 = spec_exec(s1, Instr::Draw { x, y, n }, keys2, rnd2).state;
    assert(s1.display == draw_display(s.display, sprite, ox, oy));
    assert(sprite_rows(s1.mem, s1.i as int, n as int) == sprite);
    assert(s1.v[15] == if draw_collision(s.display, sprite, ox, oy) { 1u8 } else { 0u8 });
    assert(s2.v[15] == if draw_collision(s1.display, sprite, ox, oy) { 1u8 } else { 0u8 });
    if forall|p: int| 0 <= p < DISPLAY_CELLS ==> !covers(sprite, ox, oy, p) {
        assert(!draw_collision(s.display, sprite, ox, oy)) by {
            if draw_collision(s.display, sprite, ox, oy) {
                let p = choose|p: int| 0 <= p < DISPLAY_CELLS && covers(sprite, ox, oy, p)
                    && s.display[p];
                assert(!covers(sprite, ox, oy, p));
            }
        }
        assert(!draw_collision(s1.display, sprite, ox, oy)) by {
            if draw_collision(s1.display, sprite, ox, oy) {
                let p = choose|p: int| 0 <= p < DISPLAY_CELLS && covers(sprite, ox, oy, p)
                    && s1.display[p];
                assert(!covers(sprite, ox, oy, p));
            }
        }
    } else {
        let lit = choose|p: int| 0 <= p < DISPLAY_CELLS && covers(sprite, ox, oy, p)
            && s.display[p];
        let unlit = choose|p: int| 0 <= p < DISPLAY_CELLS && covers(sprite, ox, oy, p)
            && !s.display[p];
        assert(draw_collision(s.display, sprite, ox, oy));
        assert(s1.display[unlit] == (s.display[unlit] != covers(sprite, ox, oy, unlit)));
        assert(s1.display[unlit]);
        assert(draw_collision(s1.display, sprite, ox, oy));
    }
}

} // verus!
