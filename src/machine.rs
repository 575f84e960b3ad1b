use crate::constants::{
    CONDNEGATIVE, CONDPOSITIVE, CONDZERO, MEMORY_SIZE, MRKBDR, MRKBSR, OPADD,
    OPAND, OPBR, OPJMPSUBR, OPJUMP, OPLOAD, OPLOADEA, OPLOADIND, OPLOADREG, OPNOT, OPRES, OPRTI,
    OPSTORE, OPSTOREIND, OPSTOREREG, OPTRAP, R0, R7, RCOND, RCOUNT, RPC, TRAPGETC, TRAPHALT,
    TRAPOUT, TRAPPUTS,
};
use crate::instruction::{bit, field};
use vstd::arithmetic::power2::{lemma2_to64, pow2};
use vstd::prelude::*;

verus! {

/// How a step of the engine ended, when it did not fail.
#[derive(PartialEq, Eq, Structural, Debug, Clone, Copy)]
pub enum StepOutcome {
    /// An instruction was executed and the machine still runs.
    Running,
    /// The machine has stopped, or was stopped already.
    Halted,
    /// The next instruction waits for a character and none is buffered;
    /// nothing was changed.
    NeedsInput,
}

/// A fatal error: the program asked for a feature that the engine does not have.
#[derive(PartialEq, Eq, Structural, Debug, Clone, Copy)]
pub enum VmError {
    /// The return-from-interrupt or the reserved opcode.
    UnimplementedOpcode(u16),
    /// A trap vector with no service behind it.
    UnknownTrapVector(u16),
}

/// Why a program image was refused.
#[derive(PartialEq, Eq, Structural, Debug, Clone, Copy)]
pub enum ImageError {
    /// The image holds no origin word.
    Empty,
    /// The words after the origin run past the end of memory.
    OutOfBounds,
}

/// The state of one emulated core, as a mathematical value.
pub ghost struct Machine {
    /// R0..R7, then the program counter and the condition register.
    pub regs: Seq<u16>,
    pub mem: Seq<u16>,
    pub running: bool,
    /// Characters typed and not yet consumed, oldest first.
    pub input: Seq<u8>,
    /// Characters written by the program and not yet taken.
    pub output: Seq<u8>,
}

impl Machine {
    pub open spec fn wf(self) -> bool {
        self.regs.len() == RCOUNT && self.mem.len() == MEMORY_SIZE
    }

    pub open spec fn with_reg(self, i: int, v: u16) -> Machine {
        Machine { regs: self.regs.update(i, v), ..self }
    }

    pub open spec fn with_mem(self, a: int, v: u16) -> Machine {
        Machine { mem: self.mem.update(a, v), ..self }
    }

    /// Writes a result to register `d` and sets the condition register from it.
    pub open spec fn with_result(self, d: int, v: u16) -> Machine {
        self.with_reg(d, v).with_reg(RCOND as int, cond_of(v))
    }

    pub open spec fn halted(self) -> Machine {
        Machine { running: false, ..self }
    }
}

/// The machine as it is built: registers and memory all zero, running, with
/// no characters buffered.
pub open spec fn initial() -> Machine {
    Machine {
        regs: Seq::new(RCOUNT as nat, |i: int| 0u16),
        mem: Seq::new(MEMORY_SIZE as nat, |i: int| 0u16),
        running: true,
        input: Seq::empty(),
        output: Seq::empty(),
    }
}

/// Whether an image has an origin and its words fit in memory from it.
pub open spec fn image_fits(words: Seq<u16>) -> bool {
    words.len() > 0 && words[0] + words.len() - 1 <= MEMORY_SIZE
}

/// Memory with the words after the origin copied to the origin and on.
pub open spec fn with_image(mem: Seq<u16>, words: Seq<u16>) -> Seq<u16> {
    let origin = words[0] as int;
    Seq::new(
        mem.len(),
        |a: int|
            if origin <= a < origin + words.len() - 1 {
                words[a - origin + 1]
            } else {
                mem[a]
            },
    )
}

/// The machine after an image that fits was copied into its memory.
pub open spec fn loaded(m: Machine, words: Seq<u16>) -> Machine {
    Machine { mem: with_image(m.mem, words), ..m }
}

/// The condition flag of a result read as a two's-complement number.
pub open spec fn cond_of(v: u16) -> u16 {
    if v >= 0x8000 {
        CONDNEGATIVE
    } else if v == 0 {
        CONDZERO
    } else {
        CONDPOSITIVE
    }
}

pub open spec fn valid_cond(c: u16) -> bool {
    c == CONDNEGATIVE || c == CONDZERO || c == CONDPOSITIVE
}

/// Addition modulo 2^16.
pub open spec fn add16(a: u16, b: u16) -> u16 {
    ((a + b) % 0x10000) as u16
}

/// The sixteen-bit word of the `n`-bit two's-complement number `v`.
pub open spec fn sext(v: nat, n: nat) -> u16 {
    if v < pow2((n - 1) as nat) {
        v as u16
    } else {
        (v + 0x10000 - pow2(n)) as u16
    }
}

/// A read of address `addr`: the machine after it, and the word read.
/// Reading the keyboard status polls the input: a waiting character is moved
/// to the data register and the status gets its high bit; else the status is
/// cleared.
pub open spec fn read(m: Machine, addr: int) -> (Machine, u16) {
    let m1 = if addr == MRKBSR {
        if m.input.len() > 0 {
            Machine {
                mem: m.mem.update(MRKBSR as int, 0x8000).update(MRKBDR as int, m.input[0] as u16),
                input: m.input.drop_first(),
                ..m
            }
        } else {
            m.with_mem(MRKBSR as int, 0)
        }
    } else {
        m
    };
    (m1, m1.mem[addr])
}

/// Writes the low byte of each word from `addr` on, up to a zero word or the
/// end of memory.
pub open spec fn puts(m: Machine, addr: nat) -> Machine
    decreases MEMORY_SIZE - addr,
{
    if addr >= MEMORY_SIZE {
        m
    } else {
        let (m1, c) = read(m, addr as int);
        if c == 0 {
            m1
        } else {
            puts(Machine { output: m1.output.push((c % 256) as u8), ..m1 }, addr + 1)
        }
    }
}

/// The trap service `t`. A character read takes the oldest buffered one.
pub open spec fn trap(m: Machine, t: u16) -> (Machine, Result<StepOutcome, VmError>) {
    if t == TRAPGETC {
        (
            Machine { regs: m.regs.update(R0 as int, m.input[0] as u16), input: m.input.drop_first(), ..m },
            Ok(StepOutcome::Running),
        )
    } else if t == TRAPOUT {
        (
            Machine { output: m.output.push((m.regs[R0 as int] % 256) as u8), ..m },
            Ok(StepOutcome::Running),
        )
    } else if t == TRAPPUTS {
        (puts(m, m.regs[R0 as int] as nat), Ok(StepOutcome::Running))
    } else if t == TRAPHALT {
        (m.halted(), Ok(StepOutcome::Halted))
    } else {
        (m.halted(), Err(VmError::UnknownTrapVector(t)))
    }
}

/// ADD and AND: the second operand is the sign-extended immediate when bit 5
/// is set, else register bits 2..0.
pub open spec fn arith(m: Machine, w: u16) -> Machine {
    let a = m.regs[field(w, 6, 8) as int];
    let b = if bit(w, 5) {
        sext(field(w, 0, 4), 5)
    } else {
        m.regs[field(w, 0, 2) as int]
    };
    let v = if field(w, 12, 15) == OPADD {
        add16(a, b)
    } else {
        a & b
    };
    m.with_result(field(w, 9, 11) as int, v)
}

/// BR: taken when a condition bit that the word requests is the current flag.
pub open spec fn branch(m: Machine, w: u16) -> Machine {
    let c = m.regs[RCOND as int];
    let taken = (bit(w, 11) && c == CONDNEGATIVE)
        || (bit(w, 10) && c == CONDZERO)
        || (bit(w, 9) && c == CONDPOSITIVE);
    if taken {
        m.with_reg(RPC as int, add16(m.regs[RPC as int], sext(field(w, 0, 8), 9)))
    } else {
        m
    }
}

/// JSR and JSRR: the return address goes to R7 first.
pub open spec fn jump_subroutine(m: Machine, w: u16) -> Machine {
    let pc = m.regs[RPC as int];
    let m1 = m.with_reg(R7 as int, pc);
    let target = if bit(w, 11) {
        m1.regs[field(w, 6, 8) as int]
    } else {
        add16(pc, sext(field(w, 0, 10), 11))
    };
    m1.with_reg(RPC as int, target)
}

/// LD, LDI, LDR and LEA.
pub open spec fn load(m: Machine, w: u16) -> Machine {
    let op = field(w, 12, 15);
    let d = field(w, 9, 11) as int;
    let near = add16(m.regs[RPC as int], sext(field(w, 0, 8), 9));
    if op == OPLOAD {
        let (m1, v) = read(m, near as int);
        m1.with_result(d, v)
    } else if op == OPLOADIND {
        let (m1, a) = read(m, near as int);
        let (m2, v) = read(m1, a as int);
        m2.with_result(d, v)
    } else if op == OPLOADREG {
        let (m1, v) = read(m, add16(m.regs[field(w, 6, 8) as int], sext(field(w, 0, 5), 6)) as int);
        m1.with_result(d, v)
    } else {
        m.with_result(d, near)
    }
}

/// ST, STI and STR: the register in bits 11..9 is stored.
pub open spec fn store(m: Machine, w: u16) -> Machine {
    let op = field(w, 12, 15);
    let v = m.regs[field(w, 9, 11) as int];
    let near = add16(m.regs[RPC as int], sext(field(w, 0, 8), 9));
    if op == OPSTORE {
        m.with_mem(near as int, v)
    } else if op == OPSTOREIND {
        let (m1, a) = read(m, near as int);
        m1.with_mem(a as int, v)
    } else {
        m.with_mem(add16(m.regs[field(w, 6, 8) as int], sext(field(w, 0, 5), 6)) as int, v)
    }
}

/// Executes the non-zero word `w` on a machine whose program counter has
/// already moved past it.
#[verifier::opaque]
pub open spec fn execute(m: Machine, w: u16) -> (Machine, Result<StepOutcome, VmError>) {
    let op = field(w, 12, 15);
    if op == OPADD || op == OPAND {
        (arith(m, w), Ok(StepOutcome::Running))
    } else if op == OPBR {
        (branch(m, w), Ok(StepOutcome::Running))
    } else if op == OPJUMP {
        (m.with_reg(RPC as int, m.regs[field(w, 6, 8) as int]), Ok(StepOutcome::Running))
    } else if op == OPJMPSUBR {
        (jump_subroutine(m, w), Ok(StepOutcome::Running))
    } else if op == OPLOAD || op == OPLOADIND || op == OPLOADREG || op == OPLOADEA {
        (load(m, w), Ok(StepOutcome::Running))
    } else if op == OPNOT {
        (
            m.with_result(field(w, 9, 11) as int, (0xFFFF - m.regs[field(w, 6, 8) as int]) as u16),
            Ok(StepOutcome::Running),
        )
    } else if op == OPSTORE || op == OPSTOREIND || op == OPSTOREREG {
        (store(m, w), Ok(StepOutcome::Running))
    } else if op == OPTRAP {
        trap(m.with_reg(R7 as int, m.regs[RPC as int]), field(w, 0, 7) as u16)
    } else if op == OPRTI || op == OPRES {
        (m.halted(), Err(VmError::UnimplementedOpcode(op as u16)))
    } else {
        (m.halted(), Ok(StepOutcome::Halted))
    }
}

/// Whether `w` is a trap that reads a character.
pub open spec fn is_getc(w: u16) -> bool {
    field(w, 12, 15) == OPTRAP && field(w, 0, 7) == TRAPGETC
}

/// One cycle: fetch the word at the program counter, move the counter past
/// it, then stop on an all-zero word or execute it. A character read with
/// nothing buffered changes nothing and asks for input.
pub open spec fn next(m: Machine) -> (Machine, Result<StepOutcome, VmError>) {
    if !m.running {
        (m, Ok(StepOutcome::Halted))
    } else {
        let (m1, w) = read(m, m.regs[RPC as int] as int);
        if is_getc(w) && m.input.len() == 0 {
            (m, Ok(StepOutcome::NeedsInput))
        } else {
            let m2 = m1.with_reg(RPC as int, add16(m.regs[RPC as int], 1));
            if w == 0 {
                (m2.halted(), Ok(StepOutcome::Halted))
            } else {
                execute(m2, w)
            }
        }
    }
}

/// Up to `n` cycles, stopping at the first that does not leave the machine running.
pub open spec fn run_steps(m: Machine, n: nat) -> (Machine, Result<StepOutcome, VmError>)
    decreases n,
{
    if n == 0 {
        (m, Ok(StepOutcome::Running))
    } else {
        let (m1, r) = next(m);
        if r == Ok::<StepOutcome, VmError>(StepOutcome::Running) {
            run_steps(m1, (n - 1) as nat)
        } else {
            (m1, r)
        }
    }
}

} // verus!

verus! {

proof fn lemma_puts_wf(m: Machine, addr: nat)
    requires
        m.wf(),
    ensures
        puts(m, addr).wf(),
        puts(m, addr).regs == m.regs,
    decreases MEMORY_SIZE - addr,
{
    if addr < MEMORY_SIZE {
        let (m1, c) = read(m, addr as int);
        if c != 0 {
            lemma_puts_wf(Machine { output: m1.output.push((c % 256) as u8), ..m1 }, addr + 1);
        }
    }
}

/// A cycle keeps the shape of the machine: ten registers and a full memory.
pub proof fn lemma_next_wf(m: Machine)
    requires
        m.wf(),
    ensures
        next(m).0.wf(),
{
    let (m1, w) = read(m, m.regs[RPC as int] as int);
    let m2 = m1.with_reg(RPC as int, add16(m.regs[RPC as int], 1));
    reveal(execute);
    lemma2_to64();
    assert(field(w, 9, 11) < 8 && field(w, 6, 8) < 8 && field(w, 0, 2) < 8);
    lemma_puts_wf(m2.with_reg(R7 as int, m2.regs[RPC as int]), m2.regs[R0 as int] as nat);
}

/// Once set, the condition register holds exactly one of the three flags
/// after every cycle: each cycle that writes it writes the flag of its result.
pub proof fn lemma_next_keeps_one_flag(m: Machine)
    requires
        m.wf(),
        valid_cond(m.regs[RCOND as int]),
    ensures
        valid_cond(next(m).0.regs[RCOND as int]),
{
    lemma_next_wf(m);
    let (m1, w) = read(m, m.regs[RPC as int] as int);
    let m2 = m1.with_reg(RPC as int, add16(m.regs[RPC as int], 1));
    reveal(execute);
    lemma2_to64();
    assert(field(w, 9, 11) < 8 && field(w, 6, 8) < 8 && field(w, 0, 2) < 8);
    lemma_puts_wf(m2.with_reg(R7 as int, m2.regs[RPC as int]), m2.regs[R0 as int] as nat);
}

/// The low bytes of the words `a` up to `e` (exclusive) of memory, in order.
pub open spec fn low_bytes(mem: Seq<u16>, a: int, e: int) -> Seq<u8> {
    Seq::new((e - a) as nat, |i: int| (mem[a + i] % 256) as u8)
}

proof fn lemma_puts_from(m: Machine, a: nat, e: nat)
    requires
        m.wf(),
        a <= e < MRKBSR,
        forall|j: int| a <= j < e ==> #[trigger] m.mem[j] != 0,
        m.mem[e as int] == 0,
    ensures
        puts(m, a) == (Machine { output: m.output + low_bytes(m.mem, a as int, e as int), ..m }),
    decreases e - a,
{
    let want = Machine { output: m.output + low_bytes(m.mem, a as int, e as int), ..m };
    if a == e {
        assert(want.output =~= m.output);
    } else {
        let c = m.mem[a as int];
        let m1 = Machine { output: m.output.push((c % 256) as u8), ..m };
        lemma_puts_from(m1, a + 1, e);
        assert(m1.output + low_bytes(m1.mem, (a + 1) as int, e as int) =~= want.output);
    }
}

/// The string service writes the low byte of each word from the address in
/// R0 up to the first zero word, in order, and nothing more; registers,
/// memory, the running flag and the buffered input stay as they were. The
/// string ends below the keyboard status register, whose reads poll input.
pub proof fn lemma_puts_writes_until_zero(m: Machine, k: nat)
    requires
        m.wf(),
        m.regs[R0 as int] + k < MRKBSR,
        forall|j: int| 0 <= j < k ==> #[trigger] m.mem[m.regs[R0 as int] + j] != 0,
        m.mem[m.regs[R0 as int] + k] == 0,
    ensures
        trap(m, TRAPPUTS) == (
            Machine {
                output: m.output + low_bytes(
                    m.mem,
                    m.regs[R0 as int] as int,
                    m.regs[R0 as int] + k,
                ),
                ..m
            },
            Ok::<StepOutcome, VmError>(StepOutcome::Running),
        ),
{
    let s = m.regs[R0 as int] as nat;
    assert forall|j: int| s <= j < s + k implies #[trigger] m.mem[j] != 0 by {
        assert(m.mem[s + (j - s)] != 0);
    }
    lemma_puts_from(m, s, s + k);
}

/// A halted machine stays as it is: the running flag goes false once, for good.
pub proof fn lemma_halted_is_final(m: Machine)
    requires
        !m.running,
    ensures
        next(m) == (m, Ok::<StepOutcome, VmError>(StepOutcome::Halted)),
        forall|n: nat| #[trigger] run_steps(m, n).0 == m,
{
    assert forall|n: nat| #[trigger] run_steps(m, n).0 == m by {
        if n > 0 {
            assert(run_steps(m, n) == next(m));
        }
    }
}

} // verus!
