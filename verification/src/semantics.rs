//! The mathematical model of the machine and the per-instruction transition
//! semantics.
//!
//! [`MachineState`] is the abstract value of an engine: registers, index
//! register, timers, program counter, call stack, memory image and key
//! latch. [`exec_instr`] says exactly what one decoded instruction does to
//! it, and [`tick_spec`] what one whole engine step does: decrement the
//! timers, fetch and decode the word at the program counter, and apply it.
//! The random instruction is the one non-deterministic transition, so both
//! functions take the drawn byte as an argument; the engine's contracts
//! quantify over it.

use vstd::prelude::*;
use crate::blit::blit_rows;
use crate::blit::collide_rows;
use crate::constants::DISPLAY_MEM_START;
use crate::constants::DISPLAY_MEM_SIZE;
use crate::constants::FONT_START;
use crate::constants::MEM_SIZE;
use crate::constants::STACK_DEPTH;
use crate::opcode::Instruction;
use crate::opcode::spec_decode;
use crate::types::Chip8Error;

verus! {

/// The abstract state of the machine: 16 registers, the index register, the
/// two timers, the program counter, the call stack (deepest frame first),
/// the 4096-byte memory image and the 16 key flags.
#[verifier::ext_equal]
pub struct MachineState {
    pub v: Seq<u8>,
    pub i: u16,
    pub dt: u8,
    pub st: u8,
    pub pc: u16,
    pub stack: Seq<u16>,
    pub mem: Seq<u8>,
    pub keys: Seq<bool>,
}

/// What one applied instruction leaves behind: the new state, whether the
/// host should redraw, and whether the machine is blocked awaiting a key
/// for some register.
#[verifier::ext_equal]
pub struct StepEffect {
    pub state: MachineState,
    pub redraw: bool,
    pub waiting: Option<usize>,
}

/// The dimensions every reachable state keeps.
pub open spec fn wf_state(s: MachineState) -> bool {
    &&& s.v.len() == 16
    &&& s.stack.len() <= STACK_DEPTH
    &&& s.mem.len() == MEM_SIZE
    &&& s.keys.len() == 16
}

/// Both timers decremented by one where nonzero.
pub open spec fn dec_timers(s: MachineState) -> MachineState {
    MachineState {
        dt: if s.dt > 0 { (s.dt - 1) as u8 } else { 0 },
        st: if s.st > 0 { (s.st - 1) as u8 } else { 0 },
        ..s
    }
}

/// The framebuffer region cleared to zero.
pub open spec fn clear_fb(mem: Seq<u8>) -> Seq<u8> {
    Seq::new(mem.len(), |a: int|
        if DISPLAY_MEM_START <= a < DISPLAY_MEM_START + DISPLAY_MEM_SIZE { 0u8 } else { mem[a] })
}

/// The lowest pressed key at or above index `from`, if any.
pub open spec fn first_pressed(keys: Seq<bool>, from: int) -> Option<int>
    decreases 16 - from,
{
    if from < 0 || from >= 16 {
        None
    } else if keys[from] {
        Some(from)
    } else {
        first_pressed(keys, from + 1)
    }
}

/// `mem` with `v[0] ..= v[x]` written starting at address `i`.
pub open spec fn write_regs(mem: Seq<u8>, v: Seq<u8>, i: int, x: int) -> Seq<u8> {
    Seq::new(mem.len(), |a: int| if i <= a <= i + x { v[a - i] } else { mem[a] })
}

/// `v` with `v[0] ..= v[x]` replaced by memory starting at address `i`.
pub open spec fn read_regs(mem: Seq<u8>, v: Seq<u8>, i: int, x: int) -> Seq<u8> {
    Seq::new(v.len(), |j: int| if j <= x { mem[i + j] } else { v[j] })
}

/// A step that leaves `s` behind and asks for nothing from the host.
pub open spec fn plain(s: MachineState) -> Result<StepEffect, Chip8Error> {
    Ok(StepEffect { state: s, redraw: false, waiting: None })
}

/// The program counter advanced past the current instruction, skipping one
/// further instruction when `cond` holds.
pub open spec fn skip_pc(pc: u16, cond: bool) -> u16 {
    if cond { (pc + 4) as u16 } else { (pc + 2) as u16 }
}

/// `s` with register `x` set to `val`.
pub open spec fn with_v(s: MachineState, x: int, val: u8) -> MachineState {
    MachineState { v: s.v.update(x, val), ..s }
}

/// What the decoded instruction `instr` does to the (timer-decremented)
/// state `s`, `rnd` being the byte the random instruction draws. Every
/// arithmetic instruction wraps to 8 bits; the flag register VF is written
/// after the destination register, so a flag-writing instruction aimed at
/// VF leaves the flag there. Errors leave the state as it stands.
pub open spec fn exec_instr(s: MachineState, instr: Instruction, rnd: u8) -> Result<
    StepEffect,
    Chip8Error,
> {
    let pc2 = (s.pc + 2) as u16;
    match instr {
        Instruction::Cls => Ok(
            StepEffect {
                state: MachineState { mem: clear_fb(s.mem), pc: pc2, ..s },
                redraw: true,
                waiting: None,
            },
        ),
        Instruction::Ret => if s.stack.len() == 0 {
            Err(Chip8Error::StackUnderflow)
        } else {
            plain(MachineState { pc: s.stack.last(), stack: s.stack.drop_last(), ..s })
        },
        Instruction::Sys { nnn } => plain(MachineState { pc: pc2, ..s }),
        Instruction::Jump { nnn } => plain(MachineState { pc: nnn, ..s }),
        Instruction::Call { nnn } => if s.stack.len() >= STACK_DEPTH {
            Err(Chip8Error::StackOverflow)
        } else {
            plain(MachineState { pc: nnn, stack: s.stack.push(pc2), ..s })
        },
        Instruction::SkipEqImm { x, kk } => plain(
            MachineState { pc: skip_pc(s.pc, s.v[x as int] == kk), ..s },
        ),
        Instruction::SkipNeImm { x, kk } => plain(
            MachineState { pc: skip_pc(s.pc, s.v[x as int] != kk), ..s },
        ),
        Instruction::SkipEqReg { x, y } => plain(
            MachineState { pc: skip_pc(s.pc, s.v[x as int] == s.v[y as int]), ..s },
        ),
        Instruction::LoadImm { x, kk } => plain(
            MachineState { pc: pc2, ..with_v(s, x as int, kk) },
        ),
        Instruction::AddImm { x, kk } => plain(
            MachineState {
                pc: pc2,
                ..with_v(s, x as int, ((s.v[x as int] + kk) % 256) as u8)
            },
        ),
        Instruction::Move { x, y } => plain(
            MachineState { pc: pc2, ..with_v(s, x as int, s.v[y as int]) },
        ),
        Instruction::Or { x, y } => plain(
            MachineState { pc: pc2, ..with_v(s, x as int, s.v[x as int] | s.v[y as int]) },
        ),
        Instruction::And { x, y } => plain(
            MachineState { pc: pc2, ..with_v(s, x as int, s.v[x as int] & s.v[y as int]) },
        ),
        Instruction::Xor { x, y } => plain(
            MachineState { pc: pc2, ..with_v(s, x as int, s.v[x as int] ^ s.v[y as int]) },
        ),
        Instruction::Add { x, y } => {
            let sum = s.v[x as int] + s.v[y as int];
            let flag: u8 = if sum > 255 { 1 } else { 0 };
            plain(
                MachineState {
                    pc: pc2,
                    v: s.v.update(x as int, (sum % 256) as u8).update(15, flag),
                    ..s
                },
            )
        },
        Instruction::Sub { x, y } => {
            let flag: u8 = if s.v[x as int] >= s.v[y as int] { 1 } else { 0 };
            let diff = ((s.v[x as int] + 256 - s.v[y as int]) % 256) as u8;
            plain(
                MachineState { pc: pc2, v: s.v.update(x as int, diff).update(15, flag), ..s },
            )
        },
        // The shift instructions operate on Vx in place, as the majority of
        // interpreters do; historical variants shift Vy into Vx instead.
        Instruction::ShiftRight { x, y } => {
            let flag: u8 = (s.v[x as int] % 2) as u8;
            plain(
                MachineState {
                    pc: pc2,
                    v: s.v.update(x as int, s.v[x as int] / 2).update(15, flag),
                    ..s
                },
            )
        },
        Instruction::SubNeg { x, y } => {
            let flag: u8 = if s.v[y as int] >= s.v[x as int] { 1 } else { 0 };
            let diff = ((s.v[y as int] + 256 - s.v[x as int]) % 256) as u8;
            plain(
                MachineState { pc: pc2, v: s.v.update(x as int, diff).update(15, flag), ..s },
            )
        },
        Instruction::ShiftLeft { x, y } => {
            let flag: u8 = (s.v[x as int] / 128) as u8;
            plain(
                MachineState {
                    pc: pc2,
                    v: s.v.update(x as int, ((s.v[x as int] * 2) % 256) as u8).update(15, flag),
                    ..s
                },
            )
        },
        Instruction::SkipNeReg { x, y } => plain(
            MachineState { pc: skip_pc(s.pc, s.v[x as int] != s.v[y as int]), ..s },
        ),
        Instruction::LoadIndex { nnn } => plain(MachineState { i: nnn, pc: pc2, ..s }),
        Instruction::JumpV0 { nnn } => plain(
            MachineState { pc: (s.v[0] + nnn) as u16, ..s },
        ),
        Instruction::Random { x, kk } => plain(
            MachineState { pc: pc2, ..with_v(s, x as int, rnd & kk) },
        ),
        Instruction::Draw { x, y, n } => {
            if n > 0 && s.i + n > MEM_SIZE {
                Err(Chip8Error::AddressOutOfRange)
            } else {
                let x0 = (s.v[x as int] % 64) as int;
                let y0 = (s.v[y as int] % 32) as int;
                let collision = collide_rows(s.mem, x0, y0, s.i as int, n as int);
                Ok(
                    StepEffect {
                        state: MachineState {
                            mem: blit_rows(s.mem, x0, y0, s.i as int, n as int),
                            v: s.v.update(15, if collision { 1u8 } else { 0u8 }),
                            pc: pc2,
                            ..s
                        },
                        redraw: true,
                        waiting: None,
                    },
                )
            }
        },
        Instruction::SkipKeyPressed { x } => {
            let key = s.v[x as int];
            let pressed = key < 16 && s.keys[key as int];
            plain(MachineState { pc: skip_pc(s.pc, pressed), ..s })
        },
        Instruction::SkipKeyNotPressed { x } => {
            let key = s.v[x as int];
            let pressed = key < 16 && s.keys[key as int];
            plain(MachineState { pc: skip_pc(s.pc, !pressed), ..s })
        },
        Instruction::ReadDelay { x } => plain(
            MachineState { pc: pc2, ..with_v(s, x as int, s.dt) },
        ),
        // The key wait stores the pressed key's code, never the delay
        // timer's value; when no key is pressed the program counter stays
        // put, so the same instruction is fetched again next step.
        Instruction::WaitKey { x } => match first_pressed(s.keys, 0) {
            Some(k) => plain(MachineState { pc: pc2, ..with_v(s, x as int, k as u8) }),
            None => Ok(StepEffect { state: s, redraw: false, waiting: Some(x as usize) }),
        },
        Instruction::SetDelay { x } => plain(
            MachineState { dt: s.v[x as int], pc: pc2, ..s },
        ),
        Instruction::SetSound { x } => plain(
            MachineState { st: s.v[x as int], pc: pc2, ..s },
        ),
        Instruction::AddIndex { x } => plain(
            MachineState { i: ((s.i + s.v[x as int]) % 0x10000) as u16, pc: pc2, ..s },
        ),
        Instruction::LoadGlyph { x } => plain(
            MachineState { i: (FONT_START + s.v[x as int] * 5) as u16, pc: pc2, ..s },
        ),
        Instruction::StoreBcd { x } => {
            if s.i + 2 >= MEM_SIZE {
                Err(Chip8Error::AddressOutOfRange)
            } else {
                let val = s.v[x as int];
                let mem = s.mem.update(s.i as int, (val / 100) as u8).update(
                    s.i + 1,
                    ((val / 10) % 10) as u8,
                ).update(s.i + 2, (val % 10) as u8);
                plain(MachineState { mem, pc: pc2, ..s })
            }
        },
        Instruction::StoreRegs { x } => {
            if s.i + x >= MEM_SIZE {
                Err(Chip8Error::AddressOutOfRange)
            } else {
                plain(
                    MachineState {
                        mem: write_regs(s.mem, s.v, s.i as int, x as int),
                        pc: pc2,
                        ..s
                    },
                )
            }
        },
        Instruction::LoadRegs { x } => {
            if s.i + x >= MEM_SIZE {
                Err(Chip8Error::AddressOutOfRange)
            } else {
                plain(
                    MachineState {
                        v: read_regs(s.mem, s.v, s.i as int, x as int),
                        pc: pc2,
                        ..s
                    },
                )
            }
        },
        Instruction::Invalid { first, second } => Err(Chip8Error::InvalidOpcode),
    }
}

/// One whole engine step applied to `s`: both timers decremented, then the
/// word at the program counter fetched, decoded and applied. Fetching
/// outside the address space is an error.
pub open spec fn tick_spec(s: MachineState, rnd: u8) -> Result<StepEffect, Chip8Error> {
    let s1 = dec_timers(s);
    if s1.pc + 1 >= MEM_SIZE {
        Err(Chip8Error::AddressOutOfRange)
    } else {
        exec_instr(s1, spec_decode(s1.mem[s1.pc as int], s1.mem[s1.pc + 1]), rnd)
    }
}

} // verus!
