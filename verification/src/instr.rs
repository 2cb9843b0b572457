//! Instruction words: faults, the decoded instruction type, and the
//! decoder from a 16-bit instruction word to an `Instr`.

use vstd::prelude::*;

verus! {

/// The faults an interpreter can report.
///
/// `ProgramTooLarge` is a load-time condition; the rest are fatal execution
/// faults. The policy for words that match no known pattern is fatal:
/// `InvalidOpcode` is reported and no state changes.
#[derive(Clone, Copy, Debug, PartialEq, Eq, Structural)]
pub enum Fault {
    ProgramTooLarge,
    ProgramCounterOutOfBounds,
    StackUnderflow,
    StackOverflow,
    InvalidOpcode,
}

/// A decoded instruction.
///
/// Fields follow the conventional CHIP-8 naming: `x` and `y` are register
/// indices taken from bits 8-11 and 4-7 of the word, `n` a 4-bit immediate,
/// `nn` an 8-bit immediate, and `nnn` a 12-bit address.
#[derive(Clone, Copy, Debug, PartialEq, Eq, Structural)]
pub enum Instr {
    /// 00E0: reset every pixel of the display.
    ClearScreen,
    /// 00EE: pop the stack into the program counter.
    Ret,
    /// 1NNN: set the program counter to `nnn`.
    Jump { nnn: u16 },
    /// 2NNN: push the advanced program counter, then jump to `nnn`.
    Call { nnn: u16 },
    /// 3XNN: skip the next instruction if `v[x] == nn`.
    SkipEqImm { x: u8, nn: u8 },
    /// 4XNN: skip the next instruction if `v[x] != nn`.
    SkipNeImm { x: u8, nn: u8 },
    /// 5XY0: skip the next instruction if `v[x] == v[y]`.
    SkipEqReg { x: u8, y: u8 },
    /// 9XY0: skip the next instruction if `v[x] != v[y]`.
    SkipNeReg { x: u8, y: u8 },
    /// 6XNN: set `v[x]` to `nn`.
    SetImm { x: u8, nn: u8 },
    /// 7XNN: add `nn` to `v[x]`, wrapping modulo 256; the flag register is
    /// not touched.
    AddImm { x: u8, nn: u8 },
    /// 8XY0: set `v[x]` to `v[y]`.
    SetReg { x: u8, y: u8 },
    /// 8XY1: set `v[x]` to `v[x] | v[y]`.
    OrReg { x: u8, y: u8 },
    /// 8XY2: set `v[x]` to `v[x] & v[y]`.
    AndReg { x: u8, y: u8 },
    /// 8XY3: set `v[x]` to `v[x] ^ v[y]`.
    XorReg { x: u8, y: u8 },
    /// 8XY4: set `v[x]` to `v[x] + v[y]` modulo 256; `v[0xF]` becomes 1 on
    /// unsigned overflow, else 0.
    AddReg { x: u8, y: u8 },
    /// 8XY5: set `v[x]` to `v[x] - v[y]` modulo 256; `v[0xF]` becomes 1 if
    /// there was no borrow (`v[x] >= v[y]`), else 0.
    SubReg { x: u8, y: u8 },
    /// 8XY6: shift `v[x]` right by one; `v[0xF]` receives the bit shifted
    /// out.
    ShrReg { x: u8 },
    /// 8XY7: set `v[x]` to `v[y] - v[x]` modulo 256; `v[0xF]` becomes 1 if
    /// there was no borrow (`v[y] >= v[x]`), else 0.
    SubnReg { x: u8, y: u8 },
    /// 8XYE: shift `v[x]` left by one; `v[0xF]` receives the bit shifted
    /// out.
    ShlReg { x: u8 },
    /// ANNN: set the index register to `nnn`.
    SetIndex { nnn: u16 },
    /// BNNN: jump to `nnn + v[0]`, masked to 12 bits.
    JumpOffset { nnn: u16 },
    /// CXNN: set `v[x]` to a host-supplied random byte masked by `nn`.
    Rand { x: u8, nn: u8 },
    /// DXYN: draw an `n`-row sprite read from the index register at screen
    /// position `(v[x] % 64, v[y] % 32)`, XOR-ing pixels and reporting
    /// collisions in `v[0xF]`.
    Draw { x: u8, y: u8, n: u8 },
    /// EX9E: skip the next instruction if the key named by the low nibble
    /// of `v[x]` is pressed.
    SkipKey { x: u8 },
    /// EXA1: skip the next instruction if the key named by the low nibble
    /// of `v[x]` is not pressed.
    SkipNoKey { x: u8 },
    /// FX07: set `v[x]` to the delay timer.
    GetDelay { x: u8 },
    /// FX0A: wait until some key is pressed, then latch the lowest pressed
    /// key into `v[x]`; while no key is pressed the cycle makes no
    /// progress.
    WaitKey { x: u8 },
    /// FX15: set the delay timer to `v[x]`.
    SetDelay { x: u8 },
    /// FX18: set the sound timer to `v[x]`.
    SetSound { x: u8 },
    /// FX1E: add `v[x]` to the index register, masked to 12 bits.
    AddIndex { x: u8 },
    /// FX29: set the index register to the font address of the glyph for
    /// the low nibble of `v[x]`.
    FontIndex { x: u8 },
    /// FX33: store the three decimal digits of `v[x]` at the index
    /// register.
    StoreBcd { x: u8 },
    /// FX55: store `v[0]..=v[x]` to memory at the index register, which is
    /// left unchanged.
    StoreRegs { x: u8 },
    /// FX65: load `v[0]..=v[x]` from memory at the index register, which is
    /// left unchanged.
    LoadRegs { x: u8 },
    /// A word that matches no known pattern.
    Invalid,
}

/// Field bounds that every decoded instruction satisfies: register indices
/// below 16 and addresses below 4096.
pub open spec fn instr_wf(ins: Instr) -> bool {
    match ins {
        Instr::Jump { nnn } => nnn < 4096,
        Instr::Call { nnn } => nnn < 4096,
        Instr::SetIndex { nnn } => nnn < 4096,
        Instr::JumpOffset { nnn } => nnn < 4096,
        Instr::SkipEqImm { x, nn } => x < 16,
        Instr::SkipNeImm { x, nn } => x < 16,
        Instr::SkipEqReg { x, y } => x < 16 && y < 16,
        Instr::SkipNeReg { x, y } => x < 16 && y < 16,
        Instr::SetImm { x, nn } => x < 16,
        Instr::AddImm { x, nn } => x < 16,
        Instr::SetReg { x, y } => x < 16 && y < 16,
        Instr::OrReg { x, y } => x < 16 && y < 16,
        Instr::AndReg { x, y } => x < 16 && y < 16,
        Instr::XorReg { x, y } => x < 16 && y < 16,
        Instr::AddReg { x, y } => x < 16 && y < 16,
        Instr::SubReg { x, y } => x < 16 && y < 16,
        Instr::SubnReg { x, y } => x < 16 && y < 16,
        Instr::ShrReg { x } => x < 16,
        Instr::ShlReg { x } => x < 16,
        Instr::Rand { x, nn } => x < 16,
        Instr::Draw { x, y, n } => x < 16 && y < 16 && n < 16,
        Instr::SkipKey { x } => x < 16,
        Instr::SkipNoKey { x } => x < 16,
        Instr::GetDelay { x } => x < 16,
        Instr::WaitKey { x } => x < 16,
        Instr::SetDelay { x } => x < 16,
        Instr::SetSound { x } => x < 16,
        Instr::AddIndex { x } => x < 16,
        Instr::FontIndex { x } => x < 16,
        Instr::StoreBcd { x } => x < 16,
        Instr::StoreRegs { x } => x < 16,
        Instr::LoadRegs { x } => x < 16,
        _ => true,
    }
}

/// What a 16-bit instruction word decodes to.
///
/// Words whose meaning depends on the full value (00E0, 00EE) are resolved
/// before the nibble-masked families; anything that matches no pattern
/// decodes to `Invalid`.
pub open spec fn spec_decode(w: u16) -> Instr {
    let op = w >> 12;
    let x = ((w >> 8) & 0xF) as u8;
    let y = ((w >> 4) & 0xF) as u8;
    let n = (w & 0xF) as u8;
    let nn = (w & 0xFF) as u8;
    let nnn = w & 0xFFF;
    if w == 0x00E0 {
        Instr::ClearScreen
    } else if w == 0x00EE {
        Instr::Ret
    } else if op == 0x1 {
        Instr::Jump { nnn }
    } else if op == 0x2 {
        Instr::Call { nnn }
    } else if op == 0x3 {
        Instr::SkipEqImm { x, nn }
    } else if op == 0x4 {
        Instr::SkipNeImm { x, nn }
    } else if op == 0x5 {
        if n == 0 {
            Instr::SkipEqReg { x, y }
        } else {
            Instr::Invalid
        }
    } else if op == 0x6 {
        Instr::SetImm { x, nn }
    } else if op == 0x7 {
        Instr::AddImm { x, nn }
    } else if op == 0x8 {
        if n == 0x0 {
            Instr::SetReg { x, y }
        } else if n == 0x1 {
            Instr::OrReg { x, y }
        } else if n == 0x2 {
            Instr::AndReg { x, y }
        } else if n == 0x3 {
            Instr::XorReg { x, y }
        } else if n == 0x4 {
            Instr::AddReg { x, y }
        } else if n == 0x5 {
            Instr::SubReg { x, y }
        } else if n == 0x6 {
            Instr::ShrReg { x }
        } else if n == 0x7 {
            Instr::SubnReg { x, y }
        } else if n == 0xE {
            Instr::ShlReg { x }
        } else {
            Instr::Invalid
        }
    } else if op == 0x9 {
        if n == 0 {
            Instr::SkipNeReg { x, y }
        } else {
            Instr::Invalid
        }
    } else if op == 0xA {
        Instr::SetIndex { nnn }
    } else if op == 0xB {
        Instr::JumpOffset { nnn }
    } else if op == 0xC {
        Instr::Rand { x, nn }
    } else if op == 0xD {
        Instr::Draw { x, y, n }
    } else if op == 0xE {
        if nn == 0x9E {
            Instr::SkipKey { x }
        } else if nn == 0xA1 {
            Instr::SkipNoKey { x }
        } else {
            Instr::Invalid
        }
    } else if op == 0xF {
        if nn == 0x07 {
            Instr::GetDelay { x }
        } else if nn == 0x0A {
            Instr::WaitKey { x }
        } else if nn == 0x15 {
            Instr::SetDelay { x }
        } else if nn == 0x18 {
            Instr::SetSound { x }
        } else if nn == 0x1E {
            Instr::AddIndex { x }
        } else if nn == 0x29 {
            Instr::FontIndex { x }
        } else if nn == 0x33 {
            Instr::StoreBcd { x }
        } else if nn == 0x55 {
            Instr::StoreRegs { x }
        } else if nn == 0x65 {
            Instr::LoadRegs { x }
        } else {
            Instr::Invalid
        }
    } else {
        Instr::Invalid
    }
}

/// Every decoded instruction has in-range fields.
pub proof fn lemma_decode_wf(w: u16)
    ensures
        instr_wf(spec_decode(w)),
{
    assert(((w >> 8) & 0xF) < 16) by (bit_vector);
    assert(((w >> 4) & 0xF) < 16) by (bit_vector);
    assert((w & 0xF) < 16) by (bit_vector);
    assert((w & 0xFF) < 256) by (bit_vector);
    assert((w & 0xFFF) < 4096) by (bit_vector);
}

/// Decodes one instruction word.
pub fn decode(w: u16) -> (r: Instr)
    ensures
        r == spec_decode(w),
        instr_wf(r),
{
    proof {
        lemma_decode_wf(w);
    }
    let op = w >> 12;
    let x = ((w >> 8) & 0xF) as u8;
    let y = ((w >> 4) & 0xF) as u8;
    let n = (w & 0xF) as u8;
    let nn = (w & 0xFF) as u8;
    let nnn = w & 0xFFF;
    if w == 0x00E0 {
        Instr::ClearScreen
    } else if w == 0x00EE {
        Instr::Ret
    } else if op == 0x1 {
        Instr::Jump { nnn }
    } else if op == 0x2 {
        Instr::Call { nnn }
    } else if op == 0x3 {
        Instr::SkipEqImm { x, nn }
    } else if op == 0x4 {
        Instr::SkipNeImm { x, nn }
    } else if op == 0x5 {
        if n == 0 {
            Instr::SkipEqReg { x, y }
        } else {
            Instr::Invalid
        }
    } else if op == 0x6 {
        Instr::SetImm { x, nn }
    } else if op == 0x7 {
        Instr::AddImm { x, nn }
    } else if op == 0x8 {
        if n == 0x0 {
            Instr::SetReg { x, y }
        } else if n == 0x1 {
            Instr::OrReg { x, y }
        } else if n == 0x2 {
            Instr::AndReg { x, y }
        } else if n == 0x3 {
            Instr::XorReg { x, y }
        } else if n == 0x4 {
            Instr::AddReg { x, y }
        } else if n == 0x5 {
            Instr::SubReg { x, y }
        } else if n == 0x6 {
            Instr::ShrReg { x }
        } else if n == 0x7 {
            Instr::SubnReg { x, y }
        } else if n == 0xE {
            Instr::ShlReg { x }
        } else {
            Instr::Invalid
        }
    } else if op == 0x9 {
        if n == 0 {
            Instr::SkipNeReg { x, y }
        } else {
            Instr::Invalid
        }
    } else if op == 0xA {
        Instr::SetIndex { nnn }
    } else if op == 0xB {
        Instr::JumpOffset { nnn }
    } else if op == 0xC {
        Instr::Rand { x, nn }
    } else if op == 0xD {
        Instr::Draw { x, y, n }
    } else if op == 0xE {
        if nn == 0x9E {
            Instr::SkipKey { x }
        } else if nn == 0xA1 {
            Instr::SkipNoKey { x }
        } else {
            Instr::Invalid
        }
    } else if op == 0xF {
        if nn == 0x07 {
            Instr::GetDelay { x }
        } else if nn == 0x0A {
            Instr::WaitKey { x }
        } else if nn == 0x15 {
            Instr::SetDelay { x }
        } else if nn == 0x18 {
            Instr::SetSound { x }
        } else if nn == 0x1E {
            Instr::AddIndex { x }
        } else if nn == 0x29 {
            Instr::FontIndex { x }
        } else if nn == 0x33 {
            Instr::StoreBcd { x }
        } else if nn == 0x55 {
            Instr::StoreRegs { x }
        } else if nn == 0x65 {
            Instr::LoadRegs { x }
        } else {
            Instr::Invalid
        }
    } else {
        Instr::Invalid
    }
}

} // verus!
