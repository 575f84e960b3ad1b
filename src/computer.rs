use crate::constants::{
    CONDNEGATIVE, CONDPOSITIVE, CONDZERO, DEFAULT_START, MEMORY_SIZE, MRKBDR, MRKBSR, OPADD,
    OPAND, OPBR, OPJMPSUBR, OPJUMP, OPLOAD, OPLOADEA, OPLOADIND, OPLOADREG, OPNOT, OPRES, OPRTI,
    OPSTORE, OPSTOREIND, OPSTOREREG, OPTRAP, R0, R7, RCOND, RCOUNT, RPC, TRAPGETC, TRAPHALT,
    TRAPOUT, TRAPPUTS,
};
use crate::instruction::{bit, field, Instruction};
use crate::machine::{
    arith, branch, cond_of, execute, image_fits, initial, is_getc, jump_subroutine, lemma_next_wf, load, loaded,
    next, puts, read, run_steps, sext, store, trap, with_image, ImageError, Machine, StepOutcome,
    VmError,
};
use vstd::arithmetic::power2::{lemma2_to64, pow2};
use vstd::bits::{lemma_u16_shr_is_div, lemma_u32_pow2_no_overflow, lemma_u32_shl_is_mul};
use vstd::prelude::*;

verus! {

/// Setting every bit from `k` up in a number whose top bit is `k` adds
/// 2^16 - 2^(k+1).
proof fn lemma_sign_bits(v: u16, k: u16)
    by (bit_vector)
    requires
        k < 16,
    ensures
        ((v as u32) >= (1u32 << k) && (v as u32) < (1u32 << (k + 1) as u32)) ==> (v | (0xFFFFu16
            << k)) as u32 == (v as u32) + 0x10000u32 - (1u32 << (k + 1) as u32),
{
}

/// The two words that a read of the keyboard status can give hold the
/// opcodes 8 and 0.
proof fn lemma_status_words_are_not_traps()
    ensures
        field(0x8000u16, 12, 15) == 8,
        field(0u16, 12, 15) == 0,
{
    lemma2_to64();
    let (d, m) = (pow2(12), pow2(4));
    assert((0x8000nat / d) % m == 8 && (0nat / d) % m == 0) by (nonlinear_arith)
        requires
            d == 4096,
            m == 16,
    ;
}

/// The engine: registers, memory, the running flag and the character buffers
/// of the keyboard and the display.
pub struct Computer {
    memory: Vec<u16>,
    registers: Vec<u16>,
    running: bool,
    debug_mode: bool,
    input: Vec<u8>,
    output: Vec<u8>,
}

impl View for Computer {
    type V = Machine;

    closed spec fn view(&self) -> Machine {
        Machine {
            regs: self.registers@,
            mem: self.memory@,
            running: self.running,
            input: self.input@,
            output: self.output@,
        }
    }
}

impl Computer {
    /// Whether the registers are to be shown after each instruction.
    pub closed spec fn debug(&self) -> bool {
        self.debug_mode
    }

    /// A machine with zeroed registers and memory.
    pub fn new(debug_mode: bool) -> (r: Computer)
        ensures
            r@ == initial(),
            r.debug() == debug_mode,
    {
        let memory: Vec<u16> = vec![0; MEMORY_SIZE];
        let registers: Vec<u16> = vec![0; RCOUNT];
        let r = Computer {
            memory,
            registers,
            running: true,
            debug_mode,
            input: Vec::new(),
            output: Vec::new(),
        };
        assert(r@.regs =~= initial().regs);
        assert(r@.mem =~= initial().mem);
        assert(r@.input =~= initial().input);
        assert(r@.output =~= initial().output);
        r
    }

    /// Points the program counter at the default entry point, where a run
    /// of a loaded program begins.
    pub fn start(&mut self)
        requires
            old(self)@.wf(),
        ensures
            final(self)@ == old(self)@.with_reg(RPC as int, DEFAULT_START),
            final(self).debug() == old(self).debug(),
    {
        self.registers.set(RPC, DEFAULT_START);
    }

    pub fn debug_mode(&self) -> (r: bool)
        ensures
            r == self.debug(),
    {
        self.debug_mode
    }

    /// Reads a word through the device registers: a read of the keyboard
    /// status polls the buffered input first.
    pub fn read_mem(&mut self, address: usize) -> (r: u16)
        requires
            old(self)@.wf(),
            address < MEMORY_SIZE,
        ensures
            final(self)@ == read(old(self)@, address as int).0,
            r == read(old(self)@, address as int).1,
            final(self).debug() == old(self).debug(),
    {
        if address == MRKBSR {
            if self.input.len() > 0 {
                let key = self.input.remove(0);
                self.memory.set(MRKBSR, 0x8000);
                self.memory.set(MRKBDR, key as u16);
                assert(self.input@ =~= old(self)@.input.drop_first());
            } else {
                self.memory.set(MRKBSR, 0);
            }
        }
        self.memory[address]
    }

    /// Sign extends an `n_bits`-bits number to 16 bits.
    pub fn sign_extend_to_16_bits(&self, to_extend: u16, n_bits: u16) -> (r: u16)
        requires
            1 <= n_bits <= 16,
        ensures
            to_extend < pow2((n_bits - 1) as nat) ==> r == to_extend,
            to_extend >= pow2((n_bits - 1) as nat) ==> r == to_extend | (0xFFFFu16 << (n_bits
                - 1) as u16),
            to_extend < pow2(n_bits as nat) ==> r == sext(to_extend as nat, n_bits as nat),
    {
        let k = n_bits - 1;
        let sign_bit = to_extend >> k;
        let is_negative = sign_bit > 0;
        proof {
            lemma_u16_shr_is_div(to_extend, k);
            lemma_u32_pow2_no_overflow(k as nat);
            lemma_u32_pow2_no_overflow(n_bits as nat);
            lemma_u32_shl_is_mul(1, k as u32);
            lemma_u32_shl_is_mul(1, n_bits as u32);
            vstd::arithmetic::power2::lemma_pow2_pos(k as nat);
            lemma_sign_bits(to_extend, k);
            if to_extend < pow2(k as nat) {
                vstd::arithmetic::div_mod::lemma_basic_div(to_extend as int, pow2(k as nat) as int);
            } else {
                vstd::arithmetic::div_mod::lemma_div_non_zero(
                    to_extend as int,
                    pow2(k as nat) as int,
                );
            }
        }
        // A negative five-bit number widened to eight bits:
        //    1 0000
        // 1111 0000
        if is_negative {
            let mask: u16 = u16::MAX << k;
            to_extend | mask
        } else {
            to_extend
        }
    }
    /// Whether `a` is negative read as a two's-complement number.
    pub fn is_negative(&self, a: u16) -> (r: bool)
        ensures
            r == bit(a, 15),
            r == (a >= 0x8000),
    {
        proof {
            lemma2_to64();
            lemma_u16_shr_is_div(a, 15);
            assert((a / 0x8000u16) % 2 == (if a >= 0x8000 {
                1u16
            } else {
                0u16
            })) by (bit_vector);
        }
        (a >> 15) > 0
    }

    /// Sets the condition register to the one flag that the sign of `result` gives.
    pub fn update_flags(&mut self, result: u16)
        requires
            old(self)@.wf(),
        ensures
            final(self)@ == old(self)@.with_reg(RCOND as int, cond_of(result)),
            final(self)@.regs[RCOND as int] == CONDNEGATIVE <==> bit(result, 15),
            final(self)@.regs[RCOND as int] == CONDZERO <==> result == 0,
            final(self)@.regs[RCOND as int] == CONDPOSITIVE <==> (!bit(result, 15) && result
                != 0),
            final(self).debug() == old(self).debug(),
    {
        let cond = if self.is_negative(result) {
            CONDNEGATIVE
        } else if result == 0 {
            CONDZERO
        } else {
            CONDPOSITIVE
        };
        self.registers.set(RCOND, cond);
    }

    fn halt(&mut self)
        ensures
            final(self)@ == old(self)@.halted(),
            final(self).debug() == old(self).debug(),
    {
        self.running = false;
    }

    fn handle_trap(&mut self, trap_vector: u16) -> (r: Result<StepOutcome, VmError>)
        requires
            old(self)@.wf(),
            trap_vector == TRAPGETC ==> old(self)@.input.len() > 0,
        ensures
            final(self)@ == trap(old(self)@, trap_vector).0,
            r == trap(old(self)@, trap_vector).1,
            final(self).debug() == old(self).debug(),
    {
        if trap_vector == TRAPPUTS {
            let start = self.registers[R0] as usize;
            let mut string_addr: usize = start;
            while string_addr < MEMORY_SIZE
                invariant_except_break
                    self@.wf(),
                    string_addr <= MEMORY_SIZE,
                    puts(self@, string_addr as nat) == puts(old(self)@, start as nat),
                    self.debug() == old(self).debug(),
                ensures
                    self@ == puts(old(self)@, start as nat),
                    self.debug() == old(self).debug(),
                decreases MEMORY_SIZE - string_addr,
            {
                let c = self.read_mem(string_addr);
                if c == 0 {
                    break;
                }
                assert(c as u8 == (c % 256) as u8) by (bit_vector);
                self.output.push(c as u8);
                string_addr += 1;
            }
            Ok(StepOutcome::Running)
        } else if trap_vector == TRAPOUT {
            let c = self.registers[R0];
            assert(c as u8 == (c % 256) as u8) by (bit_vector);
            self.output.push(c as u8);
            Ok(StepOutcome::Running)
        } else if trap_vector == TRAPGETC {
            let c = self.input.remove(0);
            self.registers.set(R0, c as u16);
            assert(self.input@ =~= old(self)@.input.drop_first());
            Ok(StepOutcome::Running)
        } else if trap_vector == TRAPHALT {
            self.halt();
            Ok(StepOutcome::Halted)
        } else {
            self.halt();
            Err(VmError::UnknownTrapVector(trap_vector))
        }
    }
    fn exec_arith(&mut self, inst: &Instruction, opcode: u16)
        requires
            old(self)@.wf(),
            opcode == field(inst@, 12, 15),
            opcode == OPADD || opcode == OPAND,
        ensures
            final(self)@ == arith(old(self)@, inst@),
            final(self).debug() == old(self).debug(),
    {
        proof {
            lemma2_to64();
        }
        let a = self.registers[inst.sr1()];
        let b = if inst.is_imm() {
            self.sign_extend_to_16_bits(inst.imm5(), 5)
        } else {
            self.registers[inst.sr2()]
        };
        let v = if opcode == OPADD {
            a.wrapping_add(b)
        } else {
            a & b
        };
        self.registers.set(inst.dr(), v);
        self.update_flags(v);
    }

    fn exec_branch(&mut self, inst: &Instruction)
        requires
            old(self)@.wf(),
        ensures
            final(self)@ == branch(old(self)@, inst@),
            final(self).debug() == old(self).debug(),
    {
        proof {
            lemma2_to64();
        }
        let cond = self.registers[RCOND];
        if (inst.n_flag() && cond == CONDNEGATIVE) || (inst.z_flag() && cond == CONDZERO) || (
        inst.p_flag() && cond == CONDPOSITIVE) {
            let pc_offset = self.sign_extend_to_16_bits(inst.pc_offset9(), 9);
            let pc = self.registers[RPC];
            self.registers.set(RPC, pc.wrapping_add(pc_offset));
        }
    }

    fn exec_jump_subroutine(&mut self, inst: &Instruction)
        requires
            old(self)@.wf(),
        ensures
            final(self)@ == jump_subroutine(old(self)@, inst@),
            final(self).debug() == old(self).debug(),
    {
        proof {
            lemma2_to64();
        }
        let pc = self.registers[RPC];
        self.registers.set(R7, pc);
        let target = if inst.is_base_r() {
            self.registers[inst.base_r()]
        } else {
            pc.wrapping_add(self.sign_extend_to_16_bits(inst.pc_offset11(), 11))
        };
        self.registers.set(RPC, target);
    }

    fn exec_load(&mut self, inst: &Instruction, opcode: u16)
        requires
            old(self)@.wf(),
            opcode == field(inst@, 12, 15),
            opcode == OPLOAD || opcode == OPLOADIND || opcode == OPLOADREG || opcode == OPLOADEA,
        ensures
            final(self)@ == load(old(self)@, inst@),
            final(self).debug() == old(self).debug(),
    {
        proof {
            lemma2_to64();
        }
        let pc = self.registers[RPC];
        let value = if opcode == OPLOADREG {
            let offset6 = self.sign_extend_to_16_bits(inst.offset6(), 6);
            let base = self.registers[inst.base_r()];
            self.read_mem(base.wrapping_add(offset6) as usize)
        } else {
            let pc_offset = self.sign_extend_to_16_bits(inst.pc_offset9(), 9);
            let address = pc.wrapping_add(pc_offset);
            if opcode == OPLOAD {
                self.read_mem(address as usize)
            } else if opcode == OPLOADIND {
                let pointer = self.read_mem(address as usize);
                self.read_mem(pointer as usize)
            } else {
                address
            }
        };
        self.registers.set(inst.dr(), value);
        self.update_flags(value);
    }

    fn exec_store(&mut self, inst: &Instruction, opcode: u16)
        requires
            old(self)@.wf(),
            opcode == field(inst@, 12, 15),
            opcode == OPSTORE || opcode == OPSTOREIND || opcode == OPSTOREREG,
        ensures
            final(self)@ == store(old(self)@, inst@),
            final(self).debug() == old(self).debug(),
    {
        proof {
            lemma2_to64();
        }
        // bits 11..9 name the register to store, in the place of a destination
        let value = self.registers[inst.dr()];
        let address = if opcode == OPSTOREREG {
            let offset6 = self.sign_extend_to_16_bits(inst.offset6(), 6);
            self.registers[inst.base_r()].wrapping_add(offset6)
        } else {
            let pc_offset = self.sign_extend_to_16_bits(inst.pc_offset9(), 9);
            let near = self.registers[RPC].wrapping_add(pc_offset);
            if opcode == OPSTORE {
                near
            } else {
                self.read_mem(near as usize)
            }
        };
        self.memory.set(address as usize, value);
    }

    /// Runs one fetch-decode-execute cycle.
    pub fn step(&mut self) -> (r: Result<StepOutcome, VmError>)
        requires
            old(self)@.wf(),
        ensures
            final(self)@ == next(old(self)@).0,
            r == next(old(self)@).1,
            final(self)@.wf(),
            final(self).debug() == old(self).debug(),
    {
        proof {
            lemma_next_wf(old(self)@);
        }
        if !self.running {
            return Ok(StepOutcome::Halted);
        }
        proof {
            lemma2_to64();
        }
        let pc = self.registers[RPC];
        let inst = Instruction::new(self.read_mem(pc as usize));
        let opcode = inst.opcode();
        if opcode == OPTRAP && inst.trap_vect8() == TRAPGETC && self.input.len() == 0 {
            // a word read from the keyboard status is 0 or 0x8000, never a trap
            proof {
                if pc as usize == MRKBSR {
                    assert(inst@ == 0x8000 || inst@ == 0);
                    lemma_status_words_are_not_traps();
                }
            }
            return Ok(StepOutcome::NeedsInput);
        }
        // the counter moves on before dispatch: offsets count from the next word
        self.registers.set(RPC, pc.wrapping_add(1));
        if inst.all() == 0 {
            self.halt();
            return Ok(StepOutcome::Halted);
        }
        self.dispatch(&inst)
    }

    /// Executes a non-zero word whose character read, if it is one, has a
    /// character buffered.
    fn dispatch(&mut self, inst: &Instruction) -> (r: Result<StepOutcome, VmError>)
        requires
            old(self)@.wf(),
            is_getc(inst@) ==> old(self)@.input.len() > 0,
        ensures
            final(self)@ == execute(old(self)@, inst@).0,
            r == execute(old(self)@, inst@).1,
            final(self).debug() == old(self).debug(),
    {
        proof {
            lemma2_to64();
            reveal(execute);
        }
        let opcode = inst.opcode();
        if opcode == OPADD || opcode == OPAND {
            self.exec_arith(inst, opcode);
            Ok(StepOutcome::Running)
        } else if opcode == OPBR {
            self.exec_branch(inst);
            Ok(StepOutcome::Running)
        } else if opcode == OPJUMP {
            let mut reg = inst.base_r();
            if reg == 0b111 {
                reg = R7;
            }
            let target = self.registers[reg];
            self.registers.set(RPC, target);
            Ok(StepOutcome::Running)
        } else if opcode == OPJMPSUBR {
            self.exec_jump_subroutine(inst);
            Ok(StepOutcome::Running)
        } else if opcode == OPLOAD || opcode == OPLOADIND || opcode == OPLOADREG || opcode
            == OPLOADEA {
            self.exec_load(inst, opcode);
            Ok(StepOutcome::Running)
        } else if opcode == OPNOT {
            let v = !self.registers[inst.sr1()];
            assert(v == (0xFFFF - old(self)@.regs[field(inst@, 6, 8) as int]) as u16) by {
                let x = old(self)@.regs[field(inst@, 6, 8) as int];
                assert(!x == (0xFFFF - x) as u16) by (bit_vector);
            }
            self.registers.set(inst.dr(), v);
            self.update_flags(v);
            Ok(StepOutcome::Running)
        } else if opcode == OPSTORE || opcode == OPSTOREIND || opcode == OPSTOREREG {
            self.exec_store(inst, opcode);
            Ok(StepOutcome::Running)
        } else if opcode == OPTRAP {
            let pc = self.registers[RPC];
            self.registers.set(R7, pc);
            self.handle_trap(inst.trap_vect8())
        } else if opcode == OPRTI || opcode == OPRES {
            self.halt();
            Err(VmError::UnimplementedOpcode(opcode))
        } else {
            self.halt();
            Ok(StepOutcome::Halted)
        }
    }

    /// Copies a program image into memory: the first word is the origin, the
    /// others go to consecutive addresses from it.
    pub fn init_memory(&mut self, words: Vec<u16>) -> (r: Result<(), ImageError>)
        requires
            old(self)@.wf(),
        ensures
            words.len() == 0 ==> r == Err::<(), ImageError>(ImageError::Empty),
            words.len() > 0 && words[0] + words.len() - 1 > MEMORY_SIZE ==> r == Err::<
                (),
                ImageError,
            >(ImageError::OutOfBounds),
            r.is_ok() == image_fits(words@),
            r.is_ok() ==> final(self)@ == loaded(old(self)@, words@),
            r.is_err() ==> final(self)@ == old(self)@,
            final(self)@.wf(),
            final(self).debug() == old(self).debug(),
    {
        if words.len() == 0 {
            return Err(ImageError::Empty);
        }
        let origin = words[0] as usize;
        if words.len() - 1 > MEMORY_SIZE - origin {
            return Err(ImageError::OutOfBounds);
        }
        let mut j: usize = 1;
        assert(self@.mem =~= with_image(old(self)@.mem, words@.subrange(0, 1)));
        while j < words.len()
            invariant
                1 <= j <= words.len(),
                origin == words[0],
                origin + words.len() - 1 <= MEMORY_SIZE,
                self@.wf(),
                self@.regs == old(self)@.regs,
                self@.running == old(self)@.running,
                self@.input == old(self)@.input,
                self@.output == old(self)@.output,
                self.debug() == old(self).debug(),
                self@.mem == with_image(old(self)@.mem, words@.subrange(0, j as int)),
            decreases words.len() - j,
        {
            self.memory.set(origin + j - 1, words[j]);
            j += 1;
            assert(self@.mem =~= with_image(old(self)@.mem, words@.subrange(0, j as int)));
        }
        assert(words@.subrange(0, j as int) =~= words@);
        Ok(())
    }

    /// Runs up to `max_steps` cycles; stops early when a cycle halts, waits
    /// for input or fails.
    pub fn run(&mut self, max_steps: u64) -> (r: Result<StepOutcome, VmError>)
        requires
            old(self)@.wf(),
        ensures
            final(self)@ == run_steps(old(self)@, max_steps as nat).0,
            r == run_steps(old(self)@, max_steps as nat).1,
            final(self)@.wf(),
            final(self).debug() == old(self).debug(),
    {
        let mut i: u64 = 0;
        while i < max_steps
            invariant
                i <= max_steps,
                self@.wf(),
                run_steps(self@, (max_steps - i) as nat) == run_steps(
                    old(self)@,
                    max_steps as nat,
                ),
                self.debug() == old(self).debug(),
            decreases max_steps - i,
        {
            let r = self.step();
            match r {
                Ok(StepOutcome::Running) => {},
                _ => {
                    return r;
                },
            }
            i += 1;
        }
        Ok(StepOutcome::Running)
    }
    pub fn is_running(&self) -> (r: bool)
        ensures
            r == self@.running,
    {
        self.running
    }

    pub fn register(&self, index: usize) -> (r: u16)
        requires
            self@.wf(),
            index < RCOUNT,
        ensures
            r == self@.regs[index as int],
    {
        self.registers[index]
    }

    pub fn set_register(&mut self, index: usize, value: u16)
        requires
            old(self)@.wf(),
            index < RCOUNT,
        ensures
            final(self)@ == old(self)@.with_reg(index as int, value),
            final(self).debug() == old(self).debug(),
    {
        self.registers.set(index, value);
    }

    /// The word stored at `address`, read without touching the devices.
    pub fn memory_at(&self, address: usize) -> (r: u16)
        requires
            self@.wf(),
            address < MEMORY_SIZE,
        ensures
            r == self@.mem[address as int],
    {
        self.memory[address]
    }

    /// Stores a word; writes go straight to memory.
    pub fn write_mem(&mut self, address: usize, value: u16)
        requires
            old(self)@.wf(),
            address < MEMORY_SIZE,
        ensures
            final(self)@ == old(self)@.with_mem(address as int, value),
            final(self).debug() == old(self).debug(),
    {
        self.memory.set(address, value);
    }

    /// Buffers a character typed on the keyboard.
    pub fn push_input(&mut self, c: u8)
        ensures
            final(self)@ == (Machine { input: old(self)@.input.push(c), ..old(self)@ }),
            final(self).debug() == old(self).debug(),
    {
        self.input.push(c);
    }

    /// Hands out the characters written so far, and forgets them.
    pub fn take_output(&mut self) -> (r: Vec<u8>)
        ensures
            r@ == old(self)@.output,
            final(self)@ == (Machine { output: Seq::empty(), ..old(self)@ }),
            final(self).debug() == old(self).debug(),
    {
        let mut r: Vec<u8> = Vec::new();
        std::mem::swap(&mut r, &mut self.output);
        assert(self@.output =~= Seq::<u8>::empty());
        r
    }
}

} // verus!
