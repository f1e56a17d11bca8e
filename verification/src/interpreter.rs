//! The execution engine: it owns all machine state and exposes one
//! per-step operation that fetches, decodes and applies a single
//! instruction.
//!
//! Every public operation is specified against the [`MachineState`] view of
//! the engine: [`Interpreter::tick`] performs exactly one [`tick_spec`]
//! transition, with the random instruction's byte existentially quantified.

use vstd::prelude::*;
use crate::constants::DISPLAY_MEM_START;
use crate::constants::DISPLAY_MEM_SIZE;
use crate::constants::FONT_SIZE;
use crate::constants::FONT_START;
use crate::constants::GLYPH_SIZE;
use crate::constants::MAX_PROGRAM_SIZE;
use crate::constants::MEM_SIZE;
use crate::constants::PC_DEFAULT_START;
use crate::constants::STACK_DEPTH;
use crate::constants::font_byte;
use crate::constants::font_sprite_byte;
use crate::disassembler::Disassembler;
use crate::opcode::Instruction;
use crate::opcode::OpCode;
use crate::opcode::spec_decode;
use crate::semantics::MachineState;
use crate::semantics::StepEffect;
use crate::semantics::dec_timers;
use crate::semantics::exec_instr;
use crate::semantics::first_pressed;
use crate::semantics::read_regs;
use crate::semantics::tick_spec;
use crate::semantics::wf_state;
use crate::semantics::write_regs;
use crate::types::Chip8Error;
use crate::types::HandleOp;
use crate::util::InterpreterResult;

verus! {

/// Relies on rand::random of the rand crate: it draws a value of any type
/// the standard distribution supports. Nothing is promised of the drawn
/// value.
pub assume_specification<T>[ rand::random::<T> ]() -> (r: T)
    where
        rand::distributions::Standard: rand::distributions::Distribution<T>,
;

/// The byte at address `a` of a freshly constructed machine: the font table
/// in its reserved region, the program image in the program region, zero
/// everywhere else.
pub open spec fn init_mem_byte(program: Seq<u8>, a: int) -> u8 {
    if FONT_START <= a < FONT_START + FONT_SIZE {
        font_byte((a - FONT_START) / GLYPH_SIZE as int, (a - FONT_START) % GLYPH_SIZE as int)
    } else if PC_DEFAULT_START <= a < PC_DEFAULT_START + program.len() {
        program[a - PC_DEFAULT_START]
    } else {
        0
    }
}

/// The state of a freshly constructed machine running `program`.
pub open spec fn init_state(program: Seq<u8>) -> MachineState {
    MachineState {
        v: Seq::new(16, |j: int| 0u8),
        i: 0,
        dt: 0,
        st: 0,
        pc: PC_DEFAULT_START as u16,
        stack: Seq::empty(),
        mem: Seq::new(MEM_SIZE as nat, |a: int| init_mem_byte(program, a)),
        keys: Seq::new(16, |j: int| false),
    }
}

/// `r` is what applying `instr` to `pre` may return: on success the new
/// state and result descriptor for some drawn random byte, on failure the
/// instruction's error with the state untouched.
pub open spec fn handled(
    pre: MachineState,
    instr: Instruction,
    post: MachineState,
    r: Result<InterpreterResult, Chip8Error>,
) -> bool {
    match r {
        Ok(res) => exists|rnd: u8|
            (#[trigger] exec_instr(pre, instr, rnd)) == Ok::<StepEffect, Chip8Error>(
                StepEffect {
                    state: post,
                    redraw: res.refresh_display,
                    waiting: res.wait_for_keyboard,
                },
            ),
        Err(e) => exec_instr(pre, instr, 0) == Err::<StepEffect, Chip8Error>(e) && post == pre,
    }
}

/// `r` is what one whole engine step from `pre` may return: on success a
/// [`tick_spec`] transition for some drawn random byte, on failure the
/// step's error with only the timers decremented.
pub open spec fn ticked(
    pre: MachineState,
    post: MachineState,
    r: Result<InterpreterResult, Chip8Error>,
) -> bool {
    match r {
        Ok(res) => exists|rnd: u8|
            (#[trigger] tick_spec(pre, rnd)) == Ok::<StepEffect, Chip8Error>(
                StepEffect {
                    state: post,
                    redraw: res.refresh_display,
                    waiting: res.wait_for_keyboard,
                },
            ),
        Err(e) => tick_spec(pre, 0) == Err::<StepEffect, Chip8Error>(e) && post == dec_timers(
            pre,
        ),
    }
}

/// The execution engine: all machine state, plus the length of the loaded
/// program and a renderer for listing it.
pub struct Interpreter {
    v: Vec<u8>,
    i: u16,
    dt: u8,
    st: u8,
    pc: u16,
    stack: Vec<u16>,
    memory: Vec<u8>,
    keyboard: Vec<bool>,
    program_length: usize,
    disassembler: Disassembler,
}

impl View for Interpreter {
    type V = MachineState;

    closed spec fn view(&self) -> MachineState {
        MachineState {
            v: self.v@,
            i: self.i,
            dt: self.dt,
            st: self.st,
            pc: self.pc,
            stack: self.stack@,
            mem: self.memory@,
            keys: self.keyboard@,
        }
    }
}

impl Interpreter {
    /// The engine's state has its proper dimensions and its program fits
    /// the program region.
    pub open spec fn wf(&self) -> bool {
        wf_state(self@) && self.spec_program_length() <= MAX_PROGRAM_SIZE
    }

    /// How many bytes of program were loaded at construction.
    pub closed spec fn spec_program_length(&self) -> usize {
        self.program_length
    }

    /// Construct an engine for `program`: memory zeroed, font installed,
    /// program copied to the program region, program counter at the program
    /// start, registers, timers, stack and key latch zeroed. A program too
    /// long for the address space is a load-time error.
    pub fn new(program: Vec<u8>) -> (r: Result<Interpreter, Chip8Error>)
        ensures
            program@.len() > MAX_PROGRAM_SIZE ==> r == Err::<Interpreter, Chip8Error>(
                Chip8Error::AddressOutOfRange,
            ),
            program@.len() <= MAX_PROGRAM_SIZE ==> ({
                &&& r is Ok
                &&& r->Ok_0@ == init_state(program@)
                &&& r->Ok_0.wf()
                &&& r->Ok_0.spec_program_length() == program@.len()
            }),
    {
        if program.len() > MAX_PROGRAM_SIZE {
            return Err(Chip8Error::AddressOutOfRange);
        }
        let mut memory: Vec<u8> = Vec::new();
        while memory.len() < MEM_SIZE
            invariant
                memory@.len() <= MEM_SIZE,
                forall|a: int| 0 <= a < memory@.len() ==> memory@[a] == 0u8,
            decreases MEM_SIZE - memory@.len(),
        {
            memory.push(0);
        }
        Self::initialize_program(&mut memory, &program);
        Self::initialize_font(&mut memory);
        let mut v: Vec<u8> = Vec::new();
        while v.len() < 16
            invariant
                v@.len() <= 16,
                forall|a: int| 0 <= a < v@.len() ==> v@[a] == 0u8,
            decreases 16 - v@.len(),
        {
            v.push(0);
        }
        let mut keyboard: Vec<bool> = Vec::new();
        while keyboard.len() < 16
            invariant
                keyboard@.len() <= 16,
                forall|a: int| 0 <= a < keyboard@.len() ==> !keyboard@[a],
            decreases 16 - keyboard@.len(),
        {
            keyboard.push(false);
        }
        let interp = Interpreter {
            v,
            i: 0,
            dt: 0,
            st: 0,
            pc: PC_DEFAULT_START as u16,
            stack: Vec::new(),
            memory,
            keyboard,
            program_length: program.len(),
            disassembler: Disassembler {},
        };
        proof {
            assert(interp@.v =~= init_state(program@).v);
            assert(interp@.keys =~= init_state(program@).keys);
            assert(interp@.stack =~= init_state(program@).stack);
            assert(interp@.mem =~= init_state(program@).mem);
            assert(interp@ =~= init_state(program@));
        }
        Ok(interp)
    }

    /// Copy the program image into the program region.
    fn initialize_program(memory: &mut Vec<u8>, program: &Vec<u8>)
        requires
            old(memory).len() == MEM_SIZE,
            program@.len() <= MAX_PROGRAM_SIZE,
        ensures
            final(memory)@.len() == MEM_SIZE,
            forall|a: int|
                0 <= a < MEM_SIZE ==> final(memory)@[a] == (
                if PC_DEFAULT_START <= a < PC_DEFAULT_START + program@.len() {
                    program@[a - PC_DEFAULT_START]
                } else {
                    old(memory)@[a]
                }),
    {
        let mut j: usize = 0;
        while j < program.len()
            invariant
                j <= program@.len() <= MAX_PROGRAM_SIZE,
                memory@.len() == MEM_SIZE,
                forall|a: int|
                    0 <= a < MEM_SIZE ==> memory@[a] == (
                    if PC_DEFAULT_START <= a < PC_DEFAULT_START + j {
                        program@[a - PC_DEFAULT_START]
                    } else {
                        old(memory)@[a]
                    }),
            decreases program@.len() - j,
        {
            memory.set(PC_DEFAULT_START + j, program[j]);
            j = j + 1;
        }
    }

    /// Install the font table in its reserved region.
    fn initialize_font(memory: &mut Vec<u8>)
        requires
            old(memory).len() == MEM_SIZE,
        ensures
            final(memory)@.len() == MEM_SIZE,
            forall|a: int|
                0 <= a < MEM_SIZE ==> final(memory)@[a] == (
                if FONT_START <= a < FONT_START + FONT_SIZE {
                    font_byte((a - FONT_START) / GLYPH_SIZE as int, (a - FONT_START) % GLYPH_SIZE as int)
                } else {
                    old(memory)@[a]
                }),
    {
        let mut k: usize = 0;
        while k < FONT_SIZE
            invariant
                k <= FONT_SIZE,
                memory@.len() == MEM_SIZE,
                forall|a: int|
                    0 <= a < MEM_SIZE ==> memory@[a] == (
                    if FONT_START <= a < FONT_START + k {
                        font_byte((a - FONT_START) / GLYPH_SIZE as int, (a - FONT_START) % GLYPH_SIZE as int)
                    } else {
                        old(memory)@[a]
                    }),
            decreases FONT_SIZE - k,
        {
            let b = font_sprite_byte(k / GLYPH_SIZE, k % GLYPH_SIZE);
            memory.set(FONT_START + k, b);
            k = k + 1;
        }
    }

    /// Record a host key event: key `key` is now pressed or released.
    pub fn press_key(&mut self, key: u8, pressed: bool)
        requires
            old(self).wf(),
            key < 16,
        ensures
            final(self).wf(),
            final(self)@ == (MachineState { keys: old(self)@.keys.update(key as int, pressed), ..old(self)@ }),
            final(self).spec_program_length() == old(self).spec_program_length(),
    {
        self.keyboard.set(key as usize, pressed);
    }

    /// Store a key code directly into register `register`, as a host
    /// resolving a key wait on the engine's behalf would.
    pub fn store_key(&mut self, register: usize, key: u8)
        requires
            old(self).wf(),
            register < 16,
        ensures
            final(self).wf(),
            final(self)@ == (MachineState { v: old(self)@.v.update(register as int, key), ..old(self)@ }),
            final(self).spec_program_length() == old(self).spec_program_length(),
    {
        self.v.set(register, key);
    }

    /// The program counter.
    pub fn pc(&self) -> (r: u16)
        ensures
            r == self@.pc,
    {
        self.pc
    }

    /// The index register I.
    pub fn i_reg(&self) -> (r: u16)
        ensures
            r == self@.i,
    {
        self.i
    }

    /// The delay timer DT.
    pub fn delay_timer(&self) -> (r: u8)
        ensures
            r == self@.dt,
    {
        self.dt
    }

    /// The sound timer ST.
    pub fn sound_timer(&self) -> (r: u8)
        ensures
            r == self@.st,
    {
        self.st
    }

    /// General register `x`.
    pub fn v_reg(&self, x: usize) -> (r: u8)
        requires
            self.wf(),
            x < 16,
        ensures
            r == self@.v[x as int],
    {
        self.v[x]
    }

    /// The byte at address `addr`, as the host's presentation layer reads
    /// the framebuffer region.
    pub fn memory_at(&self, addr: usize) -> (r: u8)
        requires
            self.wf(),
            addr < MEM_SIZE,
        ensures
            r == self@.mem[addr as int],
    {
        self.memory[addr]
    }

    /// How many call frames are active.
    pub fn stack_depth(&self) -> (r: usize)
        ensures
            r == self@.stack.len(),
    {
        self.stack.len()
    }

    /// The loaded program read back from the program region as a list of
    /// two-byte opcodes, in program order. An odd trailing byte is paired
    /// with the byte that follows it in memory.
    fn read_op_codes(&self) -> (r: Vec<OpCode>)
        requires
            self.wf(),
        ensures
            r@.len() == (self.spec_program_length() + 1) / 2,
            forall|j: int|
                0 <= j < r@.len() ==> #[trigger] r@[j] == (OpCode {
                    first: self@.mem[PC_DEFAULT_START + 2 * j],
                    second: self@.mem[PC_DEFAULT_START + 2 * j + 1],
                }),
    {
        let count = (self.program_length + 1) / 2;
        let mut r: Vec<OpCode> = Vec::new();
        let mut j: usize = 0;
        while j < count
            invariant
                self.wf(),
                count == (self.spec_program_length() + 1) / 2,
                count <= (MAX_PROGRAM_SIZE + 1) / 2,
                j <= count,
                r@.len() == j,
                forall|a: int|
                    0 <= a < j ==> #[trigger] r@[a] == (OpCode {
                        first: self@.mem[PC_DEFAULT_START + 2 * a],
                        second: self@.mem[PC_DEFAULT_START + 2 * a + 1],
                    }),
            decreases count - j,
        {
            let op = OpCode {
                first: self.memory[PC_DEFAULT_START + 2 * j],
                second: self.memory[PC_DEFAULT_START + 2 * j + 1],
            };
            r.push(op);
            j = j + 1;
        }
        r
    }

    /// The loaded program rendered as one text line per opcode, in program
    /// order, for the host to print.
    pub fn disassemble_program(&self) -> (lines: Vec<String>)
        requires
            self.wf(),
        ensures
            lines@.len() == (self.spec_program_length() + 1) / 2,
    {
        let op_codes = self.read_op_codes();
        let mut lines: Vec<String> = Vec::new();
        let mut j: usize = 0;
        while j < op_codes.len()
            invariant
                j <= op_codes@.len(),
                lines@.len() == j,
            decreases op_codes@.len() - j,
        {
            let line = self.disassembler.handle_op(&op_codes[j]);
            lines.push(line);
            j = j + 1;
        }
        lines
    }

    /// Dispatch one fetched opcode by its class nibble.
    fn handle_op(&mut self, op_code: &OpCode) -> (r: Result<InterpreterResult, Chip8Error>)
        requires
            old(self).wf(),
            old(self)@.pc + 1 < MEM_SIZE,
        ensures
            final(self).wf(),
            final(self).spec_program_length() == old(self).spec_program_length(),
            handled(old(self)@, spec_decode(op_code.first, op_code.second), final(self)@, r),
    {
        let nibble = op_code.first / 16;
        match nibble {
            0x0 => self.handle_0_op(op_code),
            0x1 => self.handle_1_op(op_code),
            0x2 => self.handle_2_op(op_code),
            0x3 => self.handle_3_op(op_code),
            0x4 => self.handle_4_op(op_code),
            0x5 => self.handle_5_op(op_code),
            0x6 => self.handle_6_op(op_code),
            0x7 => self.handle_7_op(op_code),
            0x8 => self.handle_8_op(op_code),
            0x9 => self.handle_9_op(op_code),
            0xA => self.handle_a_op(op_code),
            0xB => self.handle_b_op(op_code),
            0xC => self.handle_c_op(op_code),
            0xD => self.handle_d_op(op_code),
            0xE => self.handle_e_op(op_code),
            _ => {
                proof {
                    assert(op_code.first / 16 == 0xF);
                }
                self.handle_f_op(op_code)
            },
        }
    }

    /// Execute one engine step: decrement both timers where nonzero, fetch
    /// the two bytes at the program counter, decode them and apply the
    /// instruction. On success the result descriptor says whether to redraw
    /// and whether the machine is blocked awaiting a key; an error is a
    /// halting condition and leaves the machine with only its timers
    /// decremented.
    pub fn tick(&mut self) -> (r: Result<InterpreterResult, Chip8Error>)
        requires
            old(self).wf(),
        ensures
            final(self).wf(),
            final(self).spec_program_length() == old(self).spec_program_length(),
            ticked(old(self)@, final(self)@, r),
    {
        let ghost pre = old(self)@;
        if self.dt > 0 {
            self.dt = self.dt - 1;
        }
        if self.st > 0 {
            self.st = self.st - 1;
        }
        proof {
            assert(self@ =~= dec_timers(pre));
        }
        if self.pc as usize + 1 >= MEM_SIZE {
            proof {
                assert(tick_spec(pre, 0) == Err::<StepEffect, Chip8Error>(
                    Chip8Error::AddressOutOfRange,
                ));
            }
            return Err(Chip8Error::AddressOutOfRange);
        }
        let op_code = OpCode {
            first: self.memory[self.pc as usize],
            second: self.memory[self.pc as usize + 1],
        };
        let ghost s1 = self@;
        let ghost instr = spec_decode(op_code.first, op_code.second);
        let r = self.handle_op(&op_code);
        proof {
            match r {
                Ok(res) => {
                    let eff = StepEffect {
                        state: self@,
                        redraw: res.refresh_display,
                        waiting: res.wait_for_keyboard,
                    };
                    let rnd = choose|rnd: u8|
                        (#[trigger] exec_instr(s1, instr, rnd)) == Ok::<StepEffect, Chip8Error>(
                            eff,
                        );
                    assert(exec_instr(s1, instr, rnd) == Ok::<StepEffect, Chip8Error>(eff));
                    assert(tick_spec(pre, rnd) == Ok::<StepEffect, Chip8Error>(eff));
                },
                Err(e) => {
                    assert(tick_spec(pre, 0) == Err::<StepEffect, Chip8Error>(e));
                },
            }
        }
        r
    }

    /// Zero the framebuffer region.
    fn clear_screen(&mut self)
        requires
            old(self).wf(),
        ensures
            final(self).wf(),
            final(self)@ == (MachineState {
                mem: crate::semantics::clear_fb(old(self)@.mem),
                ..old(self)@
            }),
            final(self).spec_program_length() == old(self).spec_program_length(),
    {
        let mut a: usize = DISPLAY_MEM_START;
        while a < DISPLAY_MEM_START + DISPLAY_MEM_SIZE
            invariant
                DISPLAY_MEM_START <= a <= DISPLAY_MEM_START + DISPLAY_MEM_SIZE,
                self.memory@.len() == MEM_SIZE,
                self.v == old(self).v,
                self.i == old(self).i,
                self.dt == old(self).dt,
                self.st == old(self).st,
                self.pc == old(self).pc,
                self.stack == old(self).stack,
                self.keyboard == old(self).keyboard,
                self.program_length == old(self).program_length,
                forall|b: int|
                    0 <= b < MEM_SIZE ==> self.memory@[b] == (
                    if DISPLAY_MEM_START <= b < a {
                        0u8
                    } else {
                        old(self).memory@[b]
                    }),
            decreases DISPLAY_MEM_START + DISPLAY_MEM_SIZE - a,
        {
            self.memory.set(a, 0);
            a = a + 1;
        }
        proof {
            assert(self@.mem =~= crate::semantics::clear_fb(old(self)@.mem));
            assert(self@ =~= (MachineState {
                mem: crate::semantics::clear_fb(old(self)@.mem),
                ..old(self)@
            }));
        }
    }

    /// Class 0: clear-screen, return, or a legacy system call (a no-op).
    fn handle_0_op(&mut self, op_code: &OpCode) -> (r: Result<InterpreterResult, Chip8Error>)
        requires
            old(self).wf(),
            old(self)@.pc + 1 < MEM_SIZE,
            op_code.first / 16 == 0x0,
        ensures
            final(self).wf(),
            final(self).spec_program_length() == old(self).spec_program_length(),
            handled(old(self)@, spec_decode(op_code.first, op_code.second), final(self)@, r),
    {
        let ghost pre = old(self)@;
        let ghost instr = spec_decode(op_code.first, op_code.second);
        if op_code.first == 0x00 && op_code.second == 0xE0 {
            self.clear_screen();
            self.pc = self.pc + 2;
            proof {
                assert(exec_instr(pre, instr, 0) == Ok::<StepEffect, Chip8Error>(StepEffect {
                    state: self@,
                    redraw: true,
                    waiting: None,
                }));
            }
            Ok(InterpreterResult { refresh_display: true, wait_for_keyboard: None })
        } else if op_code.first == 0x00 && op_code.second == 0xEE {
            if self.stack.len() == 0 {
                return Err(Chip8Error::StackUnderflow);
            }
            let addr = self.stack.pop().unwrap();
            self.pc = addr;
            proof {
                assert(self@.stack =~= pre.stack.drop_last());
                assert(exec_instr(pre, instr, 0) == Ok::<StepEffect, Chip8Error>(StepEffect {
                    state: self@,
                    redraw: false,
                    waiting: None,
                }));
            }
            Ok(InterpreterResult { refresh_display: false, wait_for_keyboard: None })
        } else {
            self.pc = self.pc + 2;
            proof {
                assert(exec_instr(pre, instr, 0) == Ok::<StepEffect, Chip8Error>(StepEffect {
                    state: self@,
                    redraw: false,
                    waiting: None,
                }));
            }
            Ok(InterpreterResult { refresh_display: false, wait_for_keyboard: None })
        }
    }

    /// `1nnn`: jump.
    fn handle_1_op(&mut self, op_code: &OpCode) -> (r: Result<InterpreterResult, Chip8Error>)
        requires
            old(self).wf(),
            old(self)@.pc + 1 < MEM_SIZE,
            op_code.first / 16 == 0x1,
        ensures
            final(self).wf(),
            final(self).spec_program_length() == old(self).spec_program_length(),
            handled(old(self)@, spec_decode(op_code.first, op_code.second), final(self)@, r),
    {
        let nnn = ((op_code.first % 16) as u16) * 256 + (op_code.second as u16);
        self.pc = nnn;
        proof {
            assert(exec_instr(old(self)@, spec_decode(op_code.first, op_code.second), 0)
                == Ok::<StepEffect, Chip8Error>(StepEffect {
                state: self@,
                redraw: false,
                waiting: None,
            }));
        }
        Ok(InterpreterResult { refresh_display: false, wait_for_keyboard: None })
    }

    /// `2nnn`: call, pushing the return address.
    fn handle_2_op(&mut self, op_code: &OpCode) -> (r: Result<InterpreterResult, Chip8Error>)
        requires
            old(self).wf(),
            old(self)@.pc + 1 < MEM_SIZE,
            op_code.first / 16 == 0x2,
        ensures
            final(self).wf(),
            final(self).spec_program_length() == old(self).spec_program_length(),
            handled(old(self)@, spec_decode(op_code.first, op_code.second), final(self)@, r),
    {
        let nnn = ((op_code.first % 16) as u16) * 256 + (op_code.second as u16);
        if self.stack.len() >= STACK_DEPTH {
            return Err(Chip8Error::StackOverflow);
        }
        let ret = self.pc + 2;
        self.stack.push(ret);
        self.pc = nnn;
        proof {
            assert(exec_instr(old(self)@, spec_decode(op_code.first, op_code.second), 0)
                == Ok::<StepEffect, Chip8Error>(StepEffect {
                state: self@,
                redraw: false,
                waiting: None,
            }));
        }
        Ok(InterpreterResult { refresh_display: false, wait_for_keyboard: None })
    }

    /// `3xkk`: skip the next instruction if Vx == kk.
    fn handle_3_op(&mut self, op_code: &OpCode) -> (r: Result<InterpreterResult, Chip8Error>)
        requires
            old(self).wf(),
            old(self)@.pc + 1 < MEM_SIZE,
            op_code.first / 16 == 0x3,
        ensures
            final(self).wf(),
            final(self).spec_program_length() == old(self).spec_program_length(),
            handled(old(self)@, spec_decode(op_code.first, op_code.second), final(self)@, r),
    {
        let x = (op_code.first % 16) as usize;
        if self.v[x] == op_code.second {
            self.pc = self.pc + 4;
        } else {
            self.pc = self.pc + 2;
        }
        proof {
            assert(exec_instr(old(self)@, spec_decode(op_code.first, op_code.second), 0)
                == Ok::<StepEffect, Chip8Error>(StepEffect {
                state: self@,
                redraw: false,
                waiting: None,
            }));
        }
        Ok(InterpreterResult { refresh_display: false, wait_for_keyboard: None })
    }

    /// `4xkk`: skip the next instruction if Vx != kk.
    fn handle_4_op(&mut self, op_code: &OpCode) -> (r: Result<InterpreterResult, Chip8Error>)
        requires
            old(self).wf(),
            old(self)@.pc + 1 < MEM_SIZE,
            op_code.first / 16 == 0x4,
        ensures
            final(self).wf(),
            final(self).spec_program_length() == old(self).spec_program_length(),
            handled(old(self)@, spec_decode(op_code.first, op_code.second), final(self)@, r),
    {
        let x = (op_code.first % 16) as usize;
        if self.v[x] != op_code.second {
            self.pc = self.pc + 4;
        } else {
            self.pc = self.pc + 2;
        }
        proof {
            assert(exec_instr(old(self)@, spec_decode(op_code.first, op_code.second), 0)
                == Ok::<StepEffect, Chip8Error>(StepEffect {
                state: self@,
                redraw: false,
                waiting: None,
            }));
        }
        Ok(InterpreterResult { refresh_display: false, wait_for_keyboard: None })
    }

    /// `5xy0`: skip the next instruction if Vx == Vy.
    fn handle_5_op(&mut self, op_code: &OpCode) -> (r: Result<InterpreterResult, Chip8Error>)
        requires
            old(self).wf(),
            old(self)@.pc + 1 < MEM_SIZE,
            op_code.first / 16 == 0x5,
        ensures
            final(self).wf(),
            final(self).spec_program_length() == old(self).spec_program_length(),
            handled(old(self)@, spec_decode(op_code.first, op_code.second), final(self)@, r),
    {
        if op_code.second % 16 != 0 {
            return Err(Chip8Error::InvalidOpcode);
        }
        let x = (op_code.first % 16) as usize;
        let y = (op_code.second / 16) as usize;
        if self.v[x] == self.v[y] {
            self.pc = self.pc + 4;
        } else {
            self.pc = self.pc + 2;
        }
        proof {
            assert(exec_instr(old(self)@, spec_decode(op_code.first, op_code.second), 0)
                == Ok::<StepEffect, Chip8Error>(StepEffect {
                state: self@,
                redraw: false,
                waiting: None,
            }));
        }
        Ok(InterpreterResult { refresh_display: false, wait_for_keyboard: None })
    }

    /// `6xkk`: load an immediate into Vx.
    fn handle_6_op(&mut self, op_code: &OpCode) -> (r: Result<InterpreterResult, Chip8Error>)
        requires
            old(self).wf(),
            old(self)@.pc + 1 < MEM_SIZE,
            op_code.first / 16 == 0x6,
        ensures
            final(self).wf(),
            final(self).spec_program_length() == old(self).spec_program_length(),
            handled(old(self)@, spec_decode(op_code.first, op_code.second), final(self)@, r),
    {
        let x = (op_code.first % 16) as usize;
        self.v.set(x, op_code.second);
        self.pc = self.pc + 2;
        proof {
            assert(exec_instr(old(self)@, spec_decode(op_code.first, op_code.second), 0)
                == Ok::<StepEffect, Chip8Error>(StepEffect {
                state: self@,
                redraw: false,
                waiting: None,
            }));
        }
        Ok(InterpreterResult { refresh_display: false, wait_for_keyboard: None })
    }

    /// `7xkk`: add an immediate to Vx, wrapping, with no flag effect.
    fn handle_7_op(&mut self, op_code: &OpCode) -> (r: Result<InterpreterResult, Chip8Error>)
        requires
            old(self).wf(),
            old(self)@.pc + 1 < MEM_SIZE,
            op_code.first / 16 == 0x7,
        ensures
            final(self).wf(),
            final(self).spec_program_length() == old(self).spec_program_length(),
            handled(old(self)@, spec_decode(op_code.first, op_code.second), final(self)@, r),
    {
        let x = (op_code.first % 16) as usize;
        let sum = (self.v[x] as u16) + (op_code.second as u16);
        self.v.set(x, (sum % 256) as u8);
        self.pc = self.pc + 2;
        proof {
            assert(exec_instr(old(self)@, spec_decode(op_code.first, op_code.second), 0)
                == Ok::<StepEffect, Chip8Error>(StepEffect {
                state: self@,
                redraw: false,
                waiting: None,
            }));
        }
        Ok(InterpreterResult { refresh_display: false, wait_for_keyboard: None })
    }

    /// Class 8: register-to-register moves, bitwise operations, wrapping
    /// arithmetic with the flag register, and the in-place shifts.
    fn handle_8_op(&mut self, op_code: &OpCode) -> (r: Result<InterpreterResult, Chip8Error>)
        requires
            old(self).wf(),
            old(self)@.pc + 1 < MEM_SIZE,
            op_code.first / 16 == 0x8,
        ensures
            final(self).wf(),
            final(self).spec_program_length() == old(self).spec_program_length(),
            handled(old(self)@, spec_decode(op_code.first, op_code.second), final(self)@, r),
    {
        let ghost pre = old(self)@;
        let ghost instr = spec_decode(op_code.first, op_code.second);
        let x = (op_code.first % 16) as usize;
        let y = (op_code.second / 16) as usize;
        match op_code.second % 16 {
            0x0 => {
                let vy = self.v[y];
                self.v.set(x, vy);
            },
            0x1 => {
                let val = self.v[x] | self.v[y];
                self.v.set(x, val);
            },
            0x2 => {
                let val = self.v[x] & self.v[y];
                self.v.set(x, val);
            },
            0x3 => {
                let val = self.v[x] ^ self.v[y];
                self.v.set(x, val);
            },
            0x4 => {
                let sum = (self.v[x] as u16) + (self.v[y] as u16);
                let flag: u8 = if sum > 255 { 1 } else { 0 };
                self.v.set(x, (sum % 256) as u8);
                self.v.set(15, flag);
            },
            0x5 => {
                let flag: u8 = if self.v[x] >= self.v[y] { 1 } else { 0 };
                let diff = (((self.v[x] as u16) + 256 - (self.v[y] as u16)) % 256) as u8;
                self.v.set(x, diff);
                self.v.set(15, flag);
            },
            0x6 => {
                let flag: u8 = self.v[x] % 2;
                let val = self.v[x] / 2;
                self.v.set(x, val);
                self.v.set(15, flag);
            },
            0x7 => {
                let flag: u8 = if self.v[y] >= self.v[x] { 1 } else { 0 };
                let diff = (((self.v[y] as u16) + 256 - (self.v[x] as u16)) % 256) as u8;
                self.v.set(x, diff);
                self.v.set(15, flag);
            },
            0xE => {
                let flag: u8 = self.v[x] / 128;
                let val = (((self.v[x] as u16) * 2) % 256) as u8;
                self.v.set(x, val);
                self.v.set(15, flag);
            },
            _ => {
                return Err(Chip8Error::InvalidOpcode);
            },
        }
        self.pc = self.pc + 2;
        proof {
            assert(exec_instr(pre, instr, 0) == Ok::<StepEffect, Chip8Error>(StepEffect {
                state: self@,
                redraw: false,
                waiting: None,
            }));
        }
        Ok(InterpreterResult { refresh_display: false, wait_for_keyboard: None })
    }

    /// `Annn`: load the index register.
    fn handle_a_op(&mut self, op_code: &OpCode) -> (r: Result<InterpreterResult, Chip8Error>)
        requires
            old(self).wf(),
            old(self)@.pc + 1 < MEM_SIZE,
            op_code.first / 16 == 0xA,
        ensures
            final(self).wf(),
            final(self).spec_program_length() == old(self).spec_program_length(),
            handled(old(self)@, spec_decode(op_code.first, op_code.second), final(self)@, r),
    {
        let nnn = ((op_code.first % 16) as u16) * 256 + (op_code.second as u16);
        self.i = nnn;
        self.pc = self.pc + 2;
        proof {
            assert(exec_instr(old(self)@, spec_decode(op_code.first, op_code.second), 0)
                == Ok::<StepEffect, Chip8Error>(StepEffect {
                state: self@,
                redraw: false,
                waiting: None,
            }));
        }
        Ok(InterpreterResult { refresh_display: false, wait_for_keyboard: None })
    }

    /// `Bnnn`: jump to V0 + nnn.
    fn handle_b_op(&mut self, op_code: &OpCode) -> (r: Result<InterpreterResult, Chip8Error>)
        requires
            old(self).wf(),
            old(self)@.pc + 1 < MEM_SIZE,
            op_code.first / 16 == 0xB,
        ensures
            final(self).wf(),
            final(self).spec_program_length() == old(self).spec_program_length(),
            handled(old(self)@, spec_decode(op_code.first, op_code.second), final(self)@, r),
    {
        let nnn = ((op_code.first % 16) as u16) * 256 + (op_code.second as u16);
        self.pc = (self.v[0] as u16) + nnn;
        proof {
            assert(exec_instr(old(self)@, spec_decode(op_code.first, op_code.second), 0)
                == Ok::<StepEffect, Chip8Error>(StepEffect {
                state: self@,
                redraw: false,
                waiting: None,
            }));
        }
        Ok(InterpreterResult { refresh_display: false, wait_for_keyboard: None })
    }

    /// `Cxkk`: load Vx with a random byte masked by kk.
    fn handle_c_op(&mut self, op_code: &OpCode) -> (r: Result<InterpreterResult, Chip8Error>)
        requires
            old(self).wf(),
            old(self)@.pc + 1 < MEM_SIZE,
            op_code.first / 16 == 0xC,
        ensures
            final(self).wf(),
            final(self).spec_program_length() == old(self).spec_program_length(),
            handled(old(self)@, spec_decode(op_code.first, op_code.second), final(self)@, r),
    {
        let x = (op_code.first % 16) as usize;
        let drawn: u8 = rand::random();
        self.v.set(x, drawn & op_code.second);
        self.pc = self.pc + 2;
        proof {
            assert(exec_instr(old(self)@, spec_decode(op_code.first, op_code.second), drawn)
                == Ok::<StepEffect, Chip8Error>(StepEffect {
                state: self@,
                redraw: false,
                waiting: None,
            }));
        }
        Ok(InterpreterResult { refresh_display: false, wait_for_keyboard: None })
    }

    /// Class E: skip on the state of the key whose code is in Vx. A code
    /// outside the 16-key pad counts as not pressed.
    fn handle_e_op(&mut self, op_code: &OpCode) -> (r: Result<InterpreterResult, Chip8Error>)
        requires
            old(self).wf(),
            old(self)@.pc + 1 < MEM_SIZE,
            op_code.first / 16 == 0xE,
        ensures
            final(self).wf(),
            final(self).spec_program_length() == old(self).spec_program_length(),
            handled(old(self)@, spec_decode(op_code.first, op_code.second), final(self)@, r),
    {
        let x = (op_code.first % 16) as usize;
        let key = self.v[x];
        let pressed = if key < 16 {
            self.keyboard[key as usize]
        } else {
            false
        };
        let skip = match op_code.second {
            0x9E => pressed,
            0xA1 => !pressed,
            _ => {
                return Err(Chip8Error::InvalidOpcode);
            },
        };
        if skip {
            self.pc = self.pc + 4;
        } else {
            self.pc = self.pc + 2;
        }
        proof {
            assert(exec_instr(old(self)@, spec_decode(op_code.first, op_code.second), 0)
                == Ok::<StepEffect, Chip8Error>(StepEffect {
                state: self@,
                redraw: false,
                waiting: None,
            }));
        }
        Ok(InterpreterResult { refresh_display: false, wait_for_keyboard: None })
    }

    /// `Dxyn`: blit an n-row sprite read from memory at I, anchored at
    /// (Vx mod 64, Vy mod 32); VF records whether a set pixel was turned
    /// off. Always asks the host to redraw.
    fn handle_d_op(&mut self, op_code: &OpCode) -> (r: Result<InterpreterResult, Chip8Error>)
        requires
            old(self).wf(),
            old(self)@.pc + 1 < MEM_SIZE,
            op_code.first / 16 == 0xD,
        ensures
            final(self).wf(),
            final(self).spec_program_length() == old(self).spec_program_length(),
            handled(old(self)@, spec_decode(op_code.first, op_code.second), final(self)@, r),
    {
        let ghost pre = old(self)@;
        let ghost instr = spec_decode(op_code.first, op_code.second);
        let x = (op_code.first % 16) as usize;
        let y = (op_code.second / 16) as usize;
        let n = op_code.second % 16;
        if n > 0 && (self.i as usize) + (n as usize) > MEM_SIZE {
            return Err(Chip8Error::AddressOutOfRange);
        }
        let x0 = self.v[x] % 64;
        let y0 = self.v[y] % 32;
        let collision = if n == 0 {
            proof {
                assert(crate::blit::blit_rows(pre.mem, x0 as int, y0 as int, pre.i as int, 0)
                    == pre.mem);
                assert(!crate::blit::collide_rows(pre.mem, x0 as int, y0 as int, pre.i as int, 0));
            }
            false
        } else {
            crate::blit::blit_sprite(&mut self.memory, x0, y0, self.i, n)
        };
        self.v.set(15, if collision { 1 } else { 0 });
        self.pc = self.pc + 2;
        proof {
            assert(exec_instr(pre, instr, 0) == Ok::<StepEffect, Chip8Error>(StepEffect {
                state: self@,
                redraw: true,
                waiting: None,
            }));
        }
        Ok(InterpreterResult { refresh_display: true, wait_for_keyboard: None })
    }

    /// The lowest-numbered key currently pressed, if any.
    fn first_pressed_key(&self) -> (r: Option<u8>)
        requires
            self.wf(),
        ensures
            match r {
                Some(k) => k < 16 && first_pressed(self@.keys, 0) == Some(k as int),
                None => first_pressed(self@.keys, 0) is None,
            },
    {
        let mut k: usize = 0;
        while k < 16
            invariant
                k <= 16,
                self.wf(),
                first_pressed(self@.keys, 0) == first_pressed(self@.keys, k as int),
            decreases 16 - k,
        {
            if self.keyboard[k] {
                proof {
                    assert(first_pressed(self@.keys, k as int) == Some(k as int));
                }
                return Some(k as u8);
            }
            proof {
                assert(first_pressed(self@.keys, k as int) == first_pressed(
                    self@.keys,
                    k as int + 1,
                ));
            }
            k = k + 1;
        }
        None
    }

    /// Class F: timer reads and writes, the blocking key read, index
    /// arithmetic, the font lookup, binary-coded decimal, and the register
    /// dump and load through I.
    fn handle_f_op(&mut self, op_code: &OpCode) -> (r: Result<InterpreterResult, Chip8Error>)
        requires
            old(self).wf(),
            old(self)@.pc + 1 < MEM_SIZE,
            op_code.first / 16 == 0xF,
        ensures
            final(self).wf(),
            final(self).spec_program_length() == old(self).spec_program_length(),
            handled(old(self)@, spec_decode(op_code.first, op_code.second), final(self)@, r),
    {
        let ghost pre = old(self)@;
        let ghost instr = spec_decode(op_code.first, op_code.second);
        let x = (op_code.first % 16) as usize;
        match op_code.second {
            0x07 => {
                let dt = self.dt;
                self.v.set(x, dt);
                self.pc = self.pc + 2;
            },
            0x0A => {
                match self.first_pressed_key() {
                    Some(k) => {
                        self.v.set(x, k);
                        self.pc = self.pc + 2;
                        proof {
                            assert(exec_instr(pre, instr, 0) == Ok::<StepEffect, Chip8Error>(
                                StepEffect { state: self@, redraw: false, waiting: None },
                            ));
                        }
                        return Ok(
                            InterpreterResult { refresh_display: false, wait_for_keyboard: None },
                        );
                    },
                    None => {
                        proof {
                            assert(exec_instr(pre, instr, 0) == Ok::<StepEffect, Chip8Error>(
                                StepEffect {
                                    state: self@,
                                    redraw: false,
                                    waiting: Some(x as usize),
                                },
                            ));
                        }
                        return Ok(
                            InterpreterResult {
                                refresh_display: false,
                                wait_for_keyboard: Some(x),
                            },
                        );
                    },
                }
            },
            0x15 => {
                self.dt = self.v[x];
                self.pc = self.pc + 2;
            },
            0x18 => {
                self.st = self.v[x];
                self.pc = self.pc + 2;
            },
            0x1E => {
                self.i = (((self.i as u32) + (self.v[x] as u32)) % 65536) as u16;
                self.pc = self.pc + 2;
            },
            0x29 => {
                self.i = (FONT_START as u16) + (self.v[x] as u16) * 5;
                self.pc = self.pc + 2;
            },
            0x33 => {
                if (self.i as usize) + 2 >= MEM_SIZE {
                    return Err(Chip8Error::AddressOutOfRange);
                }
                let val = self.v[x];
                let base = self.i as usize;
                self.memory.set(base, val / 100);
                self.memory.set(base + 1, (val / 10) % 10);
                self.memory.set(base + 2, val % 10);
                self.pc = self.pc + 2;
            },
            0x55 => {
                if (self.i as usize) + x >= MEM_SIZE {
                    return Err(Chip8Error::AddressOutOfRange);
                }
                let base = self.i as usize;
                let mut j: usize = 0;
                while j <= x
                    invariant
                        pre == old(self)@,
                        j <= x + 1,
                        x < 16,
                        base == pre.i,
                        base + x < MEM_SIZE,
                        self.memory@.len() == MEM_SIZE,
                        self.v == old(self).v,
                        self.i == old(self).i,
                        self.dt == old(self).dt,
                        self.st == old(self).st,
                        self.pc == old(self).pc,
                        self.stack == old(self).stack,
                        self.keyboard == old(self).keyboard,
                        self.program_length == old(self).program_length,
                        self.v@.len() == 16,
                        forall|a: int|
                            0 <= a < MEM_SIZE ==> self.memory@[a] == (
                            if base <= a < base + j {
                                pre.v[a - base]
                            } else {
                                pre.mem[a]
                            }),
                    decreases x + 1 - j,
                {
                    let b = self.v[j];
                    self.memory.set(base + j, b);
                    j = j + 1;
                }
                self.pc = self.pc + 2;
                proof {
                    assert(self@.mem =~= write_regs(pre.mem, pre.v, pre.i as int, x as int));
                }
            },
            0x65 => {
                if (self.i as usize) + x >= MEM_SIZE {
                    return Err(Chip8Error::AddressOutOfRange);
                }
                let base = self.i as usize;
                let mut j: usize = 0;
                while j <= x
                    invariant
                        pre == old(self)@,
                        j <= x + 1,
                        x < 16,
                        base == pre.i,
                        base + x < MEM_SIZE,
                        self.memory == old(self).memory,
                        self.memory@.len() == MEM_SIZE,
                        self.i == old(self).i,
                        self.dt == old(self).dt,
                        self.st == old(self).st,
                        self.pc == old(self).pc,
                        self.stack == old(self).stack,
                        self.keyboard == old(self).keyboard,
                        self.program_length == old(self).program_length,
                        self.v@.len() == 16,
                        forall|a: int|
                            0 <= a < 16 ==> self.v@[a] == (
                            if 0 <= a < j {
                                pre.mem[base + a]
                            } else {
                                pre.v[a]
                            }),
                    decreases x + 1 - j,
                {
                    let b = self.memory[base + j];
                    self.v.set(j, b);
                    j = j + 1;
                }
                self.pc = self.pc + 2;
                proof {
                    assert(self@.v =~= read_regs(pre.mem, pre.v, pre.i as int, x as int));
                }
            },
            _ => {
                return Err(Chip8Error::InvalidOpcode);
            },
        }
        proof {
            assert(exec_instr(pre, instr, 0) == Ok::<StepEffect, Chip8Error>(StepEffect {
                state: self@,
                redraw: false,
                waiting: None,
            }));
        }
        Ok(InterpreterResult { refresh_display: false, wait_for_keyboard: None })
    }

    /// `9xy0`: skip the next instruction if Vx != Vy.
    fn handle_9_op(&mut self, op_code: &OpCode) -> (r: Result<InterpreterResult, Chip8Error>)
        requires
            old(self).wf(),
            old(self)@.pc + 1 < MEM_SIZE,
            op_code.first / 16 == 0x9,
        ensures
            final(self).wf(),
            final(self).spec_program_length() == old(self).spec_program_length(),
            handled(old(self)@, spec_decode(op_code.first, op_code.second), final(self)@, r),
    {
        if op_code.second % 16 != 0 {
            return Err(Chip8Error::InvalidOpcode);
        }
        let x = (op_code.first % 16) as usize;
        let y = (op_code.second / 16) as usize;
        if self.v[x] != self.v[y] {
            self.pc = self.pc + 4;
        } else {
            self.pc = self.pc + 2;
        }
        proof {
            assert(exec_instr(old(self)@, spec_decode(op_code.first, op_code.second), 0)
                == Ok::<StepEffect, Chip8Error>(StepEffect {
                state: self@,
                redraw: false,
                waiting: None,
            }));
        }
        Ok(InterpreterResult { refresh_display: false, wait_for_keyboard: None })
    }
}

} // verus!
