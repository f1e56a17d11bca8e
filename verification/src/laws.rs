//! Laws of the step semantics: properties that hold of every machine
//! state, proved once and for all against [`tick_spec`].

use vstd::prelude::*;
use crate::blit::fb_bit;
use crate::blit::lemma_draw_twice_restores;
use crate::blit::lemma_second_draw_collision;
use crate::blit::pixel_at;
use crate::blit::sprite_bit;
use crate::blit::sprite_outside_fb;
use crate::constants::MEM_SIZE;
use crate::constants::STACK_DEPTH;
use crate::opcode::Instruction;
use crate::opcode::spec_decode;
use crate::semantics::MachineState;
use crate::semantics::exec_instr;
use crate::semantics::tick_spec;
use crate::semantics::wf_state;

verus! {

/// Loading an immediate is observable: for any 8-bit `kk`, a step on a
/// `6xkk` word leaves exactly `kk` in Vx, and the program counter two
/// bytes further, so any immediately following read of Vx sees `kk`.
pub proof fn lemma_load_immediate(s: MachineState, rnd: u8, x: u8, kk: u8)
    requires
        wf_state(s),
        s.pc + 1 < MEM_SIZE,
        spec_decode(s.mem[s.pc as int], s.mem[s.pc as int + 1]) == (Instruction::LoadImm {
            x,
            kk,
        }),
    ensures
        tick_spec(s, rnd) is Ok,
        tick_spec(s, rnd)->Ok_0.state.v[x as int] == kk,
        tick_spec(s, rnd)->Ok_0.state.pc == s.pc + 2,
{
    assert(x < 16);
}

/// A conditional skip advances the program counter by exactly four bytes
/// when taken and exactly two when not: for a `3xkk` word, the net advance
/// from the pre-instruction program counter is +4 when Vx == kk and +2
/// otherwise.
pub proof fn lemma_skip_eq_advance(s: MachineState, rnd: u8, x: u8, kk: u8)
    requires
        wf_state(s),
        s.pc + 1 < MEM_SIZE,
        spec_decode(s.mem[s.pc as int], s.mem[s.pc as int + 1]) == (Instruction::SkipEqImm {
            x,
            kk,
        }),
    ensures
        tick_spec(s, rnd) is Ok,
        s.v[x as int] == kk ==> tick_spec(s, rnd)->Ok_0.state.pc == s.pc + 4,
        s.v[x as int] != kk ==> tick_spec(s, rnd)->Ok_0.state.pc == s.pc + 2,
{
}

/// Draw idempotence under double-XOR: applying the identical draw
/// instruction twice in succession restores all of memory, the framebuffer
/// region included, to its contents before the first draw; and the second
/// draw reports a collision in VF exactly when the first draw turned some
/// pixel on. The sprite source must lie outside the framebuffer (else the
/// first draw can alter the sprite the second one reads), and neither
/// coordinate register may be the flag register VF (else the first draw's
/// flag write moves the second draw's anchor).
pub proof fn lemma_draw_twice(s: MachineState, rnd1: u8, rnd2: u8, x: u8, y: u8, n: u8)
    requires
        wf_state(s),
        x < 16,
        y < 16,
        x != 15,
        y != 15,
        n <= 15,
        s.i + n <= MEM_SIZE,
        sprite_outside_fb(s.i as int, n as int),
    ensures
        ({
            let x0 = (s.v[x as int] % 64) as int;
            let y0 = (s.v[y as int] % 32) as int;
            let r1 = exec_instr(s, Instruction::Draw { x, y, n }, rnd1);
            &&& r1 is Ok
            &&& ({
                let s1 = r1->Ok_0.state;
                let r2 = exec_instr(s1, Instruction::Draw { x, y, n }, rnd2);
                &&& r2 is Ok
                &&& r2->Ok_0.state.mem == s.mem
                &&& (r2->Ok_0.state.v[15] == 1 <==> exists|j: int, k: int|
                    0 <= j < n && 0 <= k < 8 && sprite_bit(s.mem[s.i + j], k) && !fb_bit(
                        s.mem,
                        #[trigger] pixel_at(x0, y0 + j, k),
                    ))
            })
        }),
{
    let x0 = (s.v[x as int] % 64) as int;
    let y0 = (s.v[y as int] % 32) as int;
    let r1 = exec_instr(s, Instruction::Draw { x, y, n }, rnd1);
    let s1 = r1->Ok_0.state;
    assert(s1.v[x as int] == s.v[x as int]);
    assert(s1.v[y as int] == s.v[y as int]);
    lemma_draw_twice_restores(s.mem, x0, y0, s.i as int, n as int);
    lemma_second_draw_collision(s.mem, x0, y0, s.i as int, n as int);
}

/// A call followed by its return comes back to the instruction after the
/// call: stepping a `2nnn` word whose target holds `00EE` restores the
/// program counter to exactly the word following the call, and leaves the
/// call stack as it was.
pub proof fn lemma_call_ret(s: MachineState, rnd1: u8, rnd2: u8, nnn: u16)
    requires
        wf_state(s),
        s.pc + 1 < MEM_SIZE,
        spec_decode(s.mem[s.pc as int], s.mem[s.pc as int + 1]) == (Instruction::Call { nnn }),
        s.stack.len() < STACK_DEPTH,
        nnn + 1 < MEM_SIZE,
        spec_decode(s.mem[nnn as int], s.mem[nnn as int + 1]) == Instruction::Ret,
    ensures
        tick_spec(s, rnd1) is Ok,
        ({
            let s1 = tick_spec(s, rnd1)->Ok_0.state;
            &&& s1.pc == nnn
            &&& tick_spec(s1, rnd2) is Ok
            &&& tick_spec(s1, rnd2)->Ok_0.state.pc == s.pc + 2
            &&& tick_spec(s1, rnd2)->Ok_0.state.stack == s.stack
        }),
{
    let s1 = tick_spec(s, rnd1)->Ok_0.state;
    assert(s1.stack == s.stack.push((s.pc + 2) as u16));
    assert(s1.stack.len() == s.stack.len() + 1);
    let s2 = tick_spec(s1, rnd2)->Ok_0.state;
    assert(s2.pc == s1.stack.last());
    assert(s2.stack =~= s.stack);
}

} // verus!
