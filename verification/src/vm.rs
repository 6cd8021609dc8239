//! The execution engine: a register file, linear memory, a signal-handler
//! table and a halted flag, driven by a fetch-decode-execute `step`.
//!
//! The whole machine is modelled by [`MachineView`], and every operation's
//! contract states its exact effect on that model; [`spec_step`] is the
//! mathematical transition function of the machine.

use vstd::prelude::*;

use crate::memory::{Addressable, Error, Linear};
use crate::memory::{dump_str, word_at, word_written};
use crate::op::Instruction;
use crate::op::decode_spec;
use crate::register::{Flag, Register, flag_set};
use crate::text::dec_str;

verus! {

/// Memory size of a fresh machine, in kilobytes.
pub const MEMORY_KILO_BYTES: usize = 1;

/// Number of cells in the register file.
pub const REGISTER_COUNT: usize = 8;

/// A failure of the engine, the disassembler or a memory operation reached
/// through them. Each variant names the inputs that produce it.
#[derive(Clone, Copy, PartialEq, Eq, Structural, Debug)]
pub enum VmError {
    /// A memory access fell outside the configured size; carries the base
    /// address of the failed access.
    OutOfBounds(u16),
    /// A fetched word whose low byte is not in the instruction table.
    UnknownOpcode(u8),
    /// A `Signal` instruction named an id with no registered handler.
    UnknownSignal(u8),
    /// A `Pop` was executed with a stack pointer below 2.
    StackUnderflow,
    /// A `Div` was executed with a zero divisor.
    DivisionByZero,
    /// A byte stream of odd length was handed to the disassembler.
    IncompleteInstruction,
}

/// A host callback registered in the signal table.
///
/// The callback representation is an enum of the known handler kinds: the
/// halting handler mutates the machine, and the diagnostic handlers append a
/// rendering of machine state to the host-visible output, which the embedding
/// application drains and prints.
#[derive(Clone, Copy, PartialEq, Eq, Structural, Debug)]
pub enum SignalHandler {
    /// Set the halted flag.
    Halt,
    /// Append `A = <value>` to the host-visible output.
    LogRegisterA,
    /// Append the register dump to the host-visible output.
    LogRegisters,
    /// Append a hex dump of the memory to the host-visible output.
    DumpMemory,
}

/// The mathematical model of a machine: register file, memory bytes, signal
/// table, halted flag and pending host-visible output lines.
#[verifier::ext_equal]
pub ghost struct MachineView {
    pub regs: Seq<u16>,
    pub mem: Seq<u8>,
    pub handlers: Map<u8, SignalHandler>,
    pub halted: bool,
    pub output: Seq<Seq<char>>,
}

/// The signal table a sequence of registrations denotes: a later
/// registration of the same id replaces the earlier one.
pub open spec fn handler_map(pairs: Seq<(u8, SignalHandler)>) -> Map<u8, SignalHandler>
    decreases pairs.len(),
{
    if pairs.len() == 0 {
        Map::empty()
    } else {
        handler_map(pairs.drop_last()).insert(pairs.last().0, pairs.last().1)
    }
}

/// The value of register `r` in the model `v`.
pub open spec fn reg_of(v: MachineView, r: Register) -> u16 {
    v.regs[r.index_spec() as int]
}

/// The model `v` with register `r` set to `val`.
pub open spec fn with_reg(v: MachineView, r: Register, val: u16) -> MachineView {
    MachineView { regs: v.regs.update(r.index_spec() as int, val), ..v }
}

/// `x + 2` wrapped to 16 bits: the program-counter and stack-pointer
/// advance.
pub open spec fn wrap_add2(x: u16) -> u16 {
    if x + 2 > 0xFFFF {
        (x + 2 - 0x10000) as u16
    } else {
        (x + 2) as u16
    }
}

/// The flags register after an arithmetic or logic result: `Compare` set on
/// a zero result, `Negative` on a set sign bit, `Overflow` as computed by
/// the operation; the higher bits are preserved.
pub open spec fn flags_after_alu(fl: u16, res: u16, overflow: bool) -> u16 {
    ((fl / 8) * 8 + (if res == 0 {
        1int
    } else {
        0int
    }) + (if res >= 0x8000 {
        2int
    } else {
        0int
    }) + (if overflow {
        4int
    } else {
        0int
    })) as u16
}

/// The flags register after `Cmp`: `Compare` and `Negative` are
/// re-evaluated, `Overflow` and the higher bits are preserved.
pub open spec fn flags_after_cmp(fl: u16, eq: bool, lt: bool) -> u16 {
    ((fl / 4) * 4 + (if eq {
        1int
    } else {
        0int
    }) + (if lt {
        2int
    } else {
        0int
    })) as u16
}

/// The flags register `fl` with flag `f` set or cleared.
pub open spec fn flag_written(fl: u16, f: Flag, set: bool) -> u16 {
    if set == flag_set(fl, f) {
        fl
    } else if set {
        (fl + f.mask_spec()) as u16
    } else {
        (fl - f.mask_spec()) as u16
    }
}

/// An `Ok` of `val`, or the error `e` carries.
pub open spec fn outcome<T>(val: T, e: Option<VmError>) -> Result<T, VmError> {
    match e {
        None => Ok(val),
        Some(err) => Err(err),
    }
}

/// The effect of pushing `val`: the word is written at `SP`, then `SP`
/// advances by 2 (wrapping). A failed write leaves the machine unchanged.
pub open spec fn spec_push(v: MachineView, val: u16) -> (MachineView, Option<VmError>) {
    let sp = reg_of(v, Register::SP);
    if sp + 1 < v.mem.len() {
        (
            with_reg(
                MachineView { mem: word_written(v.mem, sp as int, val), ..v },
                Register::SP,
                wrap_add2(sp),
            ),
            None,
        )
    } else {
        (v, Some(VmError::OutOfBounds(sp)))
    }
}

/// The effect of popping: `SP` retreats by 2 (underflow of zero is an
/// error), then the word at the new `SP` is read. The returned word is
/// meaningful only when the error component is `None`.
pub open spec fn spec_pop(v: MachineView) -> (MachineView, u16, Option<VmError>) {
    let sp = reg_of(v, Register::SP);
    if sp < 2 {
        (v, 0u16, Some(VmError::StackUnderflow))
    } else {
        let sp2 = (sp - 2) as u16;
        let v1 = with_reg(v, Register::SP, sp2);
        if sp2 + 1 < v.mem.len() {
            (v1, word_at(v.mem, sp2 as int), None)
        } else {
            (v1, 0u16, Some(VmError::OutOfBounds(sp2)))
        }
    }
}

/// The register dump a machine renders for diagnostics.
pub open spec fn status_str(regs: Seq<u16>) -> Seq<char> {
    "A="@ + dec_str(regs[0] as int) + " B="@ + dec_str(regs[1] as int) + " C="@ + dec_str(
        regs[2] as int,
    ) + " D="@ + dec_str(regs[3] as int) + " SP="@ + dec_str(regs[4] as int) + " PC="@ + dec_str(
        regs[5] as int,
    ) + " BP="@ + dec_str(regs[6] as int) + " FL="@ + dec_str(regs[7] as int)
}

/// The output line of the register-A logging handler.
pub open spec fn log_a_str(regs: Seq<u16>) -> Seq<char> {
    "A = "@ + dec_str(regs[0] as int)
}

/// The effect of invoking a registered handler: `Halt` sets the halted
/// flag; the diagnostic handlers append one rendered line to the
/// host-visible output.
pub open spec fn spec_handle(v: MachineView, h: SignalHandler) -> MachineView {
    match h {
        SignalHandler::Halt => MachineView { halted: true, ..v },
        SignalHandler::LogRegisterA => MachineView { output: v.output.push(log_a_str(v.regs)), ..v },
        SignalHandler::LogRegisters => MachineView {
            output: v.output.push(status_str(v.regs)),
            ..v
        },
        SignalHandler::DumpMemory => MachineView { output: v.output.push(dump_str(v.mem)), ..v },
    }
}

/// The model of a freshly created machine: all registers zero, memory
/// zeroed, no handlers, not halted, no pending output.
pub open spec fn init_view() -> MachineView {
    MachineView {
        regs: Seq::new(8, |i: int| 0u16),
        mem: Seq::new((MEMORY_KILO_BYTES * 1024) as nat, |i: int| 0u8),
        handlers: Map::empty(),
        halted: false,
        output: Seq::empty(),
    }
}

/// 16-bit wrapping addition, with its carry as the overflow indication.
pub open spec fn add16(a: u16, b: u16) -> u16 {
    if a + b > 0xFFFF {
        (a + b - 0x10000) as u16
    } else {
        (a + b) as u16
    }
}

/// 16-bit wrapping subtraction; a borrow is the overflow indication.
pub open spec fn sub16(a: u16, b: u16) -> u16 {
    if a >= b {
        (a - b) as u16
    } else {
        (a - b + 0x10000) as u16
    }
}

/// 16-bit wrapping multiplication.
pub open spec fn mul16(a: u16, b: u16) -> u16 {
    ((a as int * b as int) % 0x10000) as u16
}

/// `a` doubled, wrapped to 16 bits.
pub open spec fn dbl16(a: u16) -> u16 {
    if a + a > 0xFFFF {
        (a + a - 0x10000) as u16
    } else {
        (a + a) as u16
    }
}

/// `a` shifted left by `s` bits: `s`-fold wrapping doubling.
pub open spec fn shl16(a: u16, s: nat) -> u16
    decreases s,
{
    if s == 0 {
        a
    } else {
        dbl16(shl16(a, (s - 1) as nat))
    }
}

/// `a` shifted right by `s` bits: `s`-fold halving.
pub open spec fn shr16(a: u16, s: nat) -> u16
    decreases s,
{
    if s == 0 {
        a
    } else {
        (shr16(a, (s - 1) as nat) / 2) as u16
    }
}

/// The result and overflow indication of a binary arithmetic or logic
/// instruction on the operand values `a` and `b`, or `None` for a division
/// by zero. Shift amounts are taken modulo 16, and a shift request of 16 or
/// more is the overflow indication, as in overflowing machine shifts.
pub open spec fn alu_op(i: Instruction, a: u16, b: u16) -> Option<(u16, bool)> {
    match i {
        Instruction::Add(_, _) => Some((add16(a, b), a + b > 0xFFFF)),
        Instruction::Sub(_, _) => Some((sub16(a, b), a < b)),
        Instruction::Mul(_, _) => Some((mul16(a, b), a as int * b as int > 0xFFFF)),
        Instruction::Div(_, _) => if b == 0 {
            None
        } else {
            Some(((a as int / b as int) as u16, false))
        },
        Instruction::Shl(_, _) => Some((shl16(a, (b % 16) as nat), b >= 16)),
        Instruction::Shr(_, _) => Some((shr16(a, (b % 16) as nat), b >= 16)),
        Instruction::And(_, _) => Some((a & b, false)),
        Instruction::Or(_, _) => Some((a | b, false)),
        Instruction::Xor(_, _) => Some((a ^ b, false)),
        _ => None,
    }
}

/// The machine after an arithmetic or logic result is written to `dst` and
/// the flags are re-evaluated from the result.
pub open spec fn alu_applied(v: MachineView, dst: Register, res: u16, ovf: bool) -> MachineView {
    let v2 = with_reg(v, dst, res);
    with_reg(v2, Register::FL, flags_after_alu(reg_of(v2, Register::FL), res, ovf))
}

/// The branch target: the program counter (already advanced past the
/// branch) plus twice the signed offset, wrapping.
pub open spec fn branch_target(pc: u16, off: i8) -> u16 {
    let t = pc + 2 * off;
    if t < 0 {
        (t + 0x10000) as u16
    } else if t > 0xFFFF {
        (t - 0x10000) as u16
    } else {
        t as u16
    }
}

/// The effect of dispatching the decoded instruction `ins` on the machine
/// `v`, whose program counter has already been advanced past `ins`.
pub open spec fn spec_exec_instr(v: MachineView, ins: Instruction) -> (MachineView, Option<
    VmError,
>) {
    match ins {
        Instruction::Nop => (v, None),
        Instruction::Push(imm) => spec_push(v, imm as u16),
        Instruction::Pop(r) => {
            let (v2, val, e) = spec_pop(v);
            match e {
                Some(err) => (v2, Some(err)),
                None => (with_reg(v2, r, val), None),
            }
        },
        Instruction::PushReg(r) => spec_push(v, reg_of(v, r)),
        Instruction::Mov(d, s) => (with_reg(v, d, reg_of(v, s)), None),
        Instruction::Add(d, s) | Instruction::Sub(d, s) | Instruction::Mul(d, s)
        | Instruction::Div(d, s) | Instruction::Shl(d, s) | Instruction::Shr(d, s)
        | Instruction::And(d, s) | Instruction::Or(d, s) | Instruction::Xor(d, s) => {
            match alu_op(ins, reg_of(v, d), reg_of(v, s)) {
                None => (v, Some(VmError::DivisionByZero)),
                Some((res, ovf)) => (alu_applied(v, d, res, ovf), None),
            }
        },
        Instruction::Not(r) => (alu_applied(v, r, !reg_of(v, r), false), None),
        Instruction::Cmp(r1, r2) => {
            let a = reg_of(v, r1);
            let b = reg_of(v, r2);
            (
                with_reg(v, Register::FL, flags_after_cmp(reg_of(v, Register::FL), a == b, a < b)),
                None,
            )
        },
        Instruction::Jmp(off) => (
            with_reg(v, Register::PC, branch_target(reg_of(v, Register::PC), off)),
            None,
        ),
        Instruction::Je(off) => if flag_set(reg_of(v, Register::FL), Flag::Compare) {
            (with_reg(v, Register::PC, branch_target(reg_of(v, Register::PC), off)), None)
        } else {
            (v, None)
        },
        Instruction::Jne(off) => if !flag_set(reg_of(v, Register::FL), Flag::Compare) {
            (with_reg(v, Register::PC, branch_target(reg_of(v, Register::PC), off)), None)
        } else {
            (v, None)
        },
        Instruction::Load(d, s) => {
            let addr = reg_of(v, s);
            if addr + 1 < v.mem.len() {
                (with_reg(v, d, word_at(v.mem, addr as int)), None)
            } else {
                (v, Some(VmError::OutOfBounds(addr)))
            }
        },
        Instruction::Store(s, d) => {
            let addr = reg_of(v, d);
            if addr + 1 < v.mem.len() {
                (MachineView { mem: word_written(v.mem, addr as int, reg_of(v, s)), ..v }, None)
            } else {
                (v, Some(VmError::OutOfBounds(addr)))
            }
        },
        Instruction::Signal(id) => match v.handlers.index_opt(id) {
            None => (v, Some(VmError::UnknownSignal(id))),
            Some(h) => (spec_handle(v, h), None),
        },
    }
}

/// The transition function of the machine: one fetch-decode-execute cycle.
///
/// The program counter is advanced by 2 before dispatch, so relative
/// branches compute their target from the address of the next instruction;
/// the advance happens even when the fetch or decode fails.
pub open spec fn spec_step(v: MachineView) -> (MachineView, Option<VmError>) {
    let pc = reg_of(v, Register::PC);
    let v1 = with_reg(v, Register::PC, wrap_add2(pc));
    if pc + 1 < v.mem.len() {
        let w = word_at(v.mem, pc as int);
        match decode_spec(w) {
            Some(ins) => spec_exec_instr(v1, ins),
            None => (v1, Some(VmError::UnknownOpcode((w % 256) as u8))),
        }
    } else {
        (v1, Some(VmError::OutOfBounds(pc)))
    }
}

/// The machine after up to `n` steps: stepping stops early only on an
/// error, exactly as a driving loop that checks each step's result.
pub open spec fn spec_iterate(v: MachineView, n: nat) -> (MachineView, Option<VmError>)
    decreases n,
{
    if n == 0 {
        (v, None)
    } else {
        let (v1, e) = spec_step(v);
        match e {
            Some(err) => (v1, Some(err)),
            None => spec_iterate(v1, (n - 1) as nat),
        }
    }
}

/// The virtual machine: register file, memory, signal table, halted flag.
///
/// The host-visible output holds the lines the diagnostic signal handlers
/// have rendered; the embedding application drains it with
/// [`Machine::take_output`].
pub struct Machine {
    /// The machine's linear memory.
    pub memory: Linear,
    registers: Vec<u16>,
    signal_handlers: Vec<(u8, SignalHandler)>,
    /// Set when a halting handler has run; the driving loop stops on it.
    pub machine_halted: bool,
    /// Debug-trace request flag for the embedding application.
    pub debug: bool,
    output: Vec<String>,
}

impl View for Machine {
    type V = MachineView;

    closed spec fn view(&self) -> MachineView {
        MachineView {
            regs: self.registers@,
            mem: self.memory.mem(),
            handlers: handler_map(self.signal_handlers@),
            halted: self.machine_halted,
            output: self.output.deep_view(),
        }
    }
}

impl Machine {
    /// Well-formedness of the representation: eight register cells and a
    /// well-formed memory.
    pub closed spec fn wf(&self) -> bool {
        self.registers@.len() == 8 && self.memory.wf()
    }

    /// The register file of a well-formed machine has eight cells, and its
    /// memory fits the 16-bit address range.
    pub proof fn lemma_wf_view(&self)
        requires
            self.wf(),
        ensures
            self@.regs.len() == 8,
            self@.mem.len() <= 0x10000,
    {
        self.memory.lemma_mem_len();
    }

    /// A machine with zeroed registers and memory, an empty signal table
    /// and the halted flag clear.
    pub fn new() -> (m: Machine)
        ensures
            m.wf(),
            m@ == init_view(),
    {
        let mut registers: Vec<u16> = Vec::new();
        let mut i: usize = 0;
        while i < 8
            invariant
                0 <= i <= 8,
                registers@.len() == i,
                forall|j: int| 0 <= j < i ==> registers@[j] == 0u16,
            decreases 8 - i,
        {
            registers.push(0);
            i = i + 1;
        }
        let m = Machine {
            memory: Linear::new(MEMORY_KILO_BYTES * 1024),
            registers,
            signal_handlers: Vec::new(),
            machine_halted: false,
            debug: false,
            output: Vec::new(),
        };
        proof {
            assert(m@.regs =~= init_view().regs);
            assert(m@.output =~= init_view().output);
            assert(m@ =~= init_view());
        }
        m
    }

    /// The value of register `r`.
    pub fn get_register(&self, r: Register) -> (val: u16)
        requires
            self.wf(),
        ensures
            val == reg_of(self@, r),
    {
        self.registers[r.index()]
    }

    /// Register the handler for signal id `id`, replacing any earlier
    /// registration of the same id.
    pub fn define_handler(&mut self, id: u8, handler: SignalHandler)
        requires
            old(self).wf(),
        ensures
            final(self).wf(),
            final(self)@ == (MachineView {
                handlers: old(self)@.handlers.insert(id, handler),
                ..old(self)@
            }),
    {
        let ghost pairs = self.signal_handlers@;
        self.signal_handlers.push((id, handler));
        proof {
            assert(self.signal_handlers@.drop_last() =~= pairs);
            assert(final(self)@ =~= MachineView {
                handlers: old(self)@.handlers.insert(id, handler),
                ..old(self)@
            });
        }
    }

    /// Look the signal id up in the handler table.
    fn lookup_handler(&self, id: u8) -> (r: Option<SignalHandler>)
        ensures
            r == self@.handlers.index_opt(id),
            r == if self@.handlers.contains_key(id) {
                Some(self@.handlers[id])
            } else {
                None::<SignalHandler>
            },
    {
        let n = self.signal_handlers.len();
        proof {
            assert(self.signal_handlers@.take(n as int) =~= self.signal_handlers@);
        }
        let mut i: usize = n;
        while i > 0
            invariant
                0 <= i <= n,
                n == self.signal_handlers@.len(),
                handler_map(self.signal_handlers@).index_opt(id) == handler_map(
                    self.signal_handlers@.take(i as int),
                ).index_opt(id),
            decreases i,
        {
            let (key, h) = self.signal_handlers[i - 1];
            proof {
                assert(self.signal_handlers@.take(i as int).drop_last() =~= self.signal_handlers@
                    .take(i as int - 1));
                assert(self.signal_handlers@.take(i as int).last() == self.signal_handlers@[i as int
                    - 1]);
            }
            if key == id {
                return Some(h);
            }
            i = i - 1;
        }
        proof {
            assert(self.signal_handlers@.take(0) =~= Seq::<(u8, SignalHandler)>::empty());
        }
        None
    }

    /// Whether flag `f` is set in the `FL` register.
    pub fn test_flag(&self, f: Flag) -> (b: bool)
        requires
            self.wf(),
        ensures
            b == flag_set(reg_of(self@, Register::FL), f),
    {
        let fl = self.registers[7];
        match f {
            Flag::Compare => fl % 2 == 1,
            Flag::Negative => (fl / 2) % 2 == 1,
            Flag::Overflow => (fl / 4) % 2 == 1,
        }
    }

    /// Set or clear flag `f` in the `FL` register.
    pub fn set_flag(&mut self, f: Flag, set: bool)
        requires
            old(self).wf(),
        ensures
            final(self).wf(),
            final(self)@ == with_reg(
                old(self)@,
                Register::FL,
                flag_written(reg_of(old(self)@, Register::FL), f, set),
            ),
    {
        let fl = self.registers[7];
        let already = self.test_flag(f);
        let updated: u16 = if set == already {
            fl
        } else if set {
            fl + f.mask()
        } else {
            fl - f.mask()
        };
        self.registers.set(7, updated);
        proof {
            assert(final(self)@ =~= with_reg(
                old(self)@,
                Register::FL,
                flag_written(reg_of(old(self)@, Register::FL), f, set),
            ));
        }
    }

    /// Push `value`: write it at `SP`, then advance `SP` by 2.
    pub fn push(&mut self, value: u16) -> (r: Result<(), VmError>)
        requires
            old(self).wf(),
        ensures
            final(self).wf(),
            ({
                let (v2, e) = spec_push(old(self)@, value);
                final(self)@ == v2 && r == outcome((), e)
            }),
    {
        let sp = self.registers[4];
        match self.memory.write_word(sp, value) {
            Ok(()) => {
                self.registers.set(4, sp.wrapping_add(2));
                proof {
                    assert(final(self)@ =~= spec_push(old(self)@, value).0);
                }
                Ok(())
            },
            Err(_) => Err(VmError::OutOfBounds(sp)),
        }
    }

    /// Pop a word: retreat `SP` by 2, then read the word at the new `SP`.
    /// A stack pointer below 2 underflows and fails without change.
    pub fn pop(&mut self) -> (r: Result<u16, VmError>)
        requires
            old(self).wf(),
        ensures
            final(self).wf(),
            ({
                let (v2, val, e) = spec_pop(old(self)@);
                final(self)@ == v2 && r == outcome(val, e)
            }),
    {
        let sp = self.registers[4];
        if sp < 2 {
            return Err(VmError::StackUnderflow);
        }
        let sp2 = sp - 2;
        self.registers.set(4, sp2);
        proof {
            assert(final(self)@ =~= spec_pop(old(self)@).0);
        }
        match self.memory.read_word(sp2) {
            Ok(w) => Ok(w),
            Err(_) => Err(VmError::OutOfBounds(sp2)),
        }
    }

    /// A rendering of the whole register file, for diagnostics.
    pub fn status(&self) -> (s: String)
        requires
            self.wf(),
        ensures
            s@ == status_str(self@.regs),
    {
        let mut s = String::from_str("A=");
        s.append(crate::text::dec_string(self.registers[0]).as_str());
        s.append(" B=");
        s.append(crate::text::dec_string(self.registers[1]).as_str());
        s.append(" C=");
        s.append(crate::text::dec_string(self.registers[2]).as_str());
        s.append(" D=");
        s.append(crate::text::dec_string(self.registers[3]).as_str());
        s.append(" SP=");
        s.append(crate::text::dec_string(self.registers[4]).as_str());
        s.append(" PC=");
        s.append(crate::text::dec_string(self.registers[5]).as_str());
        s.append(" BP=");
        s.append(crate::text::dec_string(self.registers[6]).as_str());
        s.append(" FL=");
        s.append(crate::text::dec_string(self.registers[7]).as_str());
        proof {
            assert(s@ =~= status_str(self@.regs));
        }
        s
    }

    /// Drain the host-visible output lines the diagnostic handlers have
    /// rendered since the last call.
    pub fn take_output(&mut self) -> (out: Vec<String>)
        requires
            old(self).wf(),
        ensures
            final(self).wf(),
            out.deep_view() == old(self)@.output,
            final(self)@ == (MachineView { output: Seq::empty(), ..old(self)@ }),
    {
        let mut out: Vec<String> = Vec::new();
        proof {
            assert(out.deep_view() =~= Seq::<Seq<char>>::empty());
        }
        core::mem::swap(&mut out, &mut self.output);
        proof {
            assert(final(self)@ =~= MachineView { output: Seq::empty(), ..old(self)@ });
        }
        out
    }

    /// Write `val` to register `r`.
    fn set_reg(&mut self, r: Register, val: u16)
        requires
            old(self).wf(),
        ensures
            final(self).wf(),
            final(self)@ == with_reg(old(self)@, r, val),
    {
        self.registers.set(r.index(), val);
        proof {
            assert(final(self)@ =~= with_reg(old(self)@, r, val));
        }
    }

    /// Whether a halting handler has run.
    pub fn is_halted(&self) -> (b: bool)
        ensures
            b == self@.halted,
    {
        self.machine_halted
    }

    /// Set the halted flag, the effect of the halting signal handler.
    pub fn halt(&mut self)
        requires
            old(self).wf(),
        ensures
            final(self).wf(),
            final(self)@ == (MachineView { halted: true, ..old(self)@ }),
    {
        self.machine_halted = true;
        proof {
            assert(final(self)@ =~= MachineView { halted: true, ..old(self)@ });
        }
    }

    /// Load a program image at address 0. The whole range is checked
    /// before anything is written.
    pub fn load_program(&mut self, bytes: &[u8]) -> (r: Result<(), VmError>)
        requires
            old(self).wf(),
        ensures
            final(self).wf(),
            match r {
                Ok(()) => bytes@.len() <= old(self)@.mem.len() && final(self)@ == (MachineView {
                    mem: crate::memory::loaded(old(self)@.mem, bytes@, 0),
                    ..old(self)@
                }),
                Err(e) => bytes@.len() > old(self)@.mem.len() && e == VmError::OutOfBounds(0)
                    && final(self)@ == old(self)@,
            },
    {
        match self.memory.load(bytes, 0) {
            Ok(()) => {
                proof {
                    assert(final(self)@ =~= MachineView {
                        mem: crate::memory::loaded(old(self)@.mem, bytes@, 0),
                        ..old(self)@
                    });
                }
                Ok(())
            },
            Err(_) => Err(VmError::OutOfBounds(0)),
        }
    }

    /// Write one 16-bit word into memory, little-endian, as a host would
    /// when feeding the machine one instruction at a time.
    pub fn poke_word(&mut self, addr: u16, value: u16) -> (r: Result<(), VmError>)
        requires
            old(self).wf(),
        ensures
            final(self).wf(),
            match r {
                Ok(()) => addr + 1 < old(self)@.mem.len() && final(self)@ == (MachineView {
                    mem: word_written(old(self)@.mem, addr as int, value),
                    ..old(self)@
                }),
                Err(e) => addr + 1 >= old(self)@.mem.len() && e == VmError::OutOfBounds(addr)
                    && final(self)@ == old(self)@,
            },
    {
        match self.memory.write_word(addr, value) {
            Ok(()) => {
                proof {
                    assert(final(self)@ =~= MachineView {
                        mem: word_written(old(self)@.mem, addr as int, value),
                        ..old(self)@
                    });
                }
                Ok(())
            },
            Err(_) => Err(VmError::OutOfBounds(addr)),
        }
    }

    /// Write an arithmetic or logic result to `dst` and re-evaluate the
    /// flags from it.
    fn apply_alu(&mut self, dst: Register, res: u16, ovf: bool)
        requires
            old(self).wf(),
        ensures
            final(self).wf(),
            final(self)@ == alu_applied(old(self)@, dst, res, ovf),
    {
        self.registers.set(dst.index(), res);
        let fl = self.registers[7];
        proof {
            assert((fl / 8) * 8 + 7 < 0x10000) by (nonlinear_arith)
                requires fl < 0x10000;
        }
        let cmp: u16 = if res == 0 { 1 } else { 0 };
        let neg: u16 = if res >= 0x8000 { 2 } else { 0 };
        let ovfb: u16 = if ovf { 4 } else { 0 };
        self.registers.set(7, (fl / 8) * 8 + cmp + neg + ovfb);
        proof {
            assert(final(self)@ =~= alu_applied(old(self)@, dst, res, ovf));
        }
    }

    /// Pop the stack top into register `r`.
    fn exec_pop(&mut self, r: Register) -> (res: Result<(), VmError>)
        requires
            old(self).wf(),
        ensures
            final(self).wf(),
            ({
                let (v2, e) = spec_exec_instr(old(self)@, Instruction::Pop(r));
                final(self)@ == v2 && res == outcome((), e)
            }),
    {
        match self.pop() {
            Ok(val) => {
                self.set_reg(r, val);
                Ok(())
            },
            Err(e) => Err(e),
        }
    }

    /// A binary arithmetic or logic instruction on registers `d` and `s`.
    fn exec_alu_binary(&mut self, ins: Instruction, d: Register, s: Register) -> (r: Result<
        (),
        VmError,
    >)
        requires
            old(self).wf(),
            ins matches Instruction::Add(a, b) || ins matches Instruction::Sub(a, b)
                || ins matches Instruction::Mul(a, b) || ins matches Instruction::Div(a, b)
                || ins matches Instruction::Shl(a, b) || ins matches Instruction::Shr(a, b)
                || ins matches Instruction::And(a, b) || ins matches Instruction::Or(a, b)
                || ins matches Instruction::Xor(a, b),
        ensures
            final(self).wf(),
            ({
                let (v2, e) = (
                    match alu_op(ins, reg_of(old(self)@, d), reg_of(old(self)@, s)) {
                        None => (old(self)@, Some(VmError::DivisionByZero)),
                        Some((res, ovf)) => (alu_applied(old(self)@, d, res, ovf), None),
                    }
                );
                final(self)@ == v2 && r == outcome((), e)
            }),
    {
        let a = self.registers[d.index()];
        let b = self.registers[s.index()];
        match alu_exec(&ins, a, b) {
            None => Err(VmError::DivisionByZero),
            Some((res, ovf)) => {
                self.apply_alu(d, res, ovf);
                Ok(())
            },
        }
    }

    /// Re-evaluate `Compare` and `Negative` from the comparison of two
    /// registers, leaving the registers themselves untouched.
    fn exec_cmp(&mut self, r1: Register, r2: Register)
        requires
            old(self).wf(),
        ensures
            final(self).wf(),
            final(self)@ == spec_exec_instr(old(self)@, Instruction::Cmp(r1, r2)).0,
    {
        let a = self.registers[r1.index()];
        let b = self.registers[r2.index()];
        let fl = self.registers[7];
        proof {
            assert((fl / 4) * 4 + 3 < 0x10000) by (nonlinear_arith)
                requires fl < 0x10000;
        }
        let eqb: u16 = if a == b { 1 } else { 0 };
        let ltb: u16 = if a < b { 2 } else { 0 };
        self.set_reg(Register::FL, (fl / 4) * 4 + eqb + ltb);
    }

    /// Branch by `off` words if `taken`, from the already advanced program
    /// counter.
    fn exec_branch(&mut self, off: i8, taken: bool)
        requires
            old(self).wf(),
        ensures
            final(self).wf(),
            final(self)@ == if taken {
                with_reg(
                    old(self)@,
                    Register::PC,
                    branch_target(reg_of(old(self)@, Register::PC), off),
                )
            } else {
                old(self)@
            },
    {
        if taken {
            let pcv = self.registers[5];
            self.set_reg(Register::PC, pcv.wrapping_add_signed((off as i16) * 2));
        }
    }

    /// Read the word addressed by register `s` into register `d`.
    fn exec_load(&mut self, d: Register, s: Register) -> (r: Result<(), VmError>)
        requires
            old(self).wf(),
        ensures
            final(self).wf(),
            ({
                let (v2, e) = spec_exec_instr(old(self)@, Instruction::Load(d, s));
                final(self)@ == v2 && r == outcome((), e)
            }),
    {
        let addr = self.registers[s.index()];
        match self.memory.read_word(addr) {
            Ok(w) => {
                self.set_reg(d, w);
                Ok(())
            },
            Err(_) => Err(VmError::OutOfBounds(addr)),
        }
    }

    /// Write register `s` to the address held in register `d`.
    fn exec_store(&mut self, s: Register, d: Register) -> (r: Result<(), VmError>)
        requires
            old(self).wf(),
        ensures
            final(self).wf(),
            ({
                let (v2, e) = spec_exec_instr(old(self)@, Instruction::Store(s, d));
                final(self)@ == v2 && r == outcome((), e)
            }),
    {
        let addr = self.registers[d.index()];
        let val = self.registers[s.index()];
        match self.memory.write_word(addr, val) {
            Ok(()) => {
                proof {
                    assert(self@ =~= spec_exec_instr(old(self)@, Instruction::Store(s, d)).0);
                }
                Ok(())
            },
            Err(_) => Err(VmError::OutOfBounds(addr)),
        }
    }

    /// Dispatch the decoded instruction `ins`; the program counter has
    /// already been advanced past it.
    #[verifier::rlimit(100)]
    fn exec_instr(&mut self, ins: Instruction) -> (r: Result<(), VmError>)
        requires
            old(self).wf(),
        ensures
            final(self).wf(),
            ({
                let (v2, e) = spec_exec_instr(old(self)@, ins);
                final(self)@ == v2 && r == outcome((), e)
            }),
    {
        match ins {
            Instruction::Nop => Ok(()),
            Instruction::Push(imm) => self.push(imm as u16),
            Instruction::Pop(r) => self.exec_pop(r),
            Instruction::PushReg(r) => {
                let val = self.registers[r.index()];
                self.push(val)
            },
            Instruction::Mov(d, s) => {
                let val = self.registers[s.index()];
                self.set_reg(d, val);
                Ok(())
            },
            Instruction::Add(d, s) | Instruction::Sub(d, s) | Instruction::Mul(d, s)
            | Instruction::Div(d, s) | Instruction::Shl(d, s) | Instruction::Shr(d, s)
            | Instruction::And(d, s) | Instruction::Or(d, s) | Instruction::Xor(d, s) => self
                .exec_alu_binary(ins, d, s),
            Instruction::Not(r) => {
                let a = self.registers[r.index()];
                self.apply_alu(r, !a, false);
                Ok(())
            },
            Instruction::Cmp(r1, r2) => {
                self.exec_cmp(r1, r2);
                Ok(())
            },
            Instruction::Jmp(off) => {
                self.exec_branch(off, true);
                Ok(())
            },
            Instruction::Je(off) => {
                let taken = self.test_flag(Flag::Compare);
                self.exec_branch(off, taken);
                Ok(())
            },
            Instruction::Jne(off) => {
                let taken = !self.test_flag(Flag::Compare);
                self.exec_branch(off, taken);
                Ok(())
            },
            Instruction::Load(d, s) => self.exec_load(d, s),
            Instruction::Store(s, d) => self.exec_store(s, d),
            Instruction::Signal(id) => self.exec_signal(id),
        }
    }

    /// Dispatch a `Signal` instruction: look the id up and invoke the
    /// registered handler, or fail on an unregistered id.
    fn exec_signal(&mut self, id: u8) -> (r: Result<(), VmError>)
        requires
            old(self).wf(),
        ensures
            final(self).wf(),
            ({
                let (v2, e) = spec_exec_instr(old(self)@, Instruction::Signal(id));
                final(self)@ == v2 && r == outcome((), e)
            }),
    {
        match self.lookup_handler(id) {
            None => Err(VmError::UnknownSignal(id)),
            Some(SignalHandler::Halt) => {
                self.machine_halted = true;
                proof {
                    assert(self@ =~= spec_exec_instr(old(self)@, Instruction::Signal(id)).0);
                }
                Ok(())
            },
            Some(SignalHandler::LogRegisterA) => {
                let mut line = String::from_str("A = ");
                line.append(crate::text::dec_string(self.registers[0]).as_str());
                self.output.push(line);
                proof {
                    assert(line@ =~= log_a_str(old(self)@.regs));
                    assert(self@.output =~= old(self)@.output.push(log_a_str(old(self)@.regs)));
                    assert(self@ =~= spec_exec_instr(old(self)@, Instruction::Signal(id)).0);
                }
                Ok(())
            },
            Some(SignalHandler::LogRegisters) => {
                let line = self.status();
                self.output.push(line);
                proof {
                    assert(self@.output =~= old(self)@.output.push(status_str(old(self)@.regs)));
                    assert(self@ =~= spec_exec_instr(old(self)@, Instruction::Signal(id)).0);
                }
                Ok(())
            },
            Some(SignalHandler::DumpMemory) => {
                let line = self.memory.dump();
                self.output.push(line);
                proof {
                    assert(self@.output =~= old(self)@.output.push(dump_str(old(self)@.mem)));
                    assert(self@ =~= spec_exec_instr(old(self)@, Instruction::Signal(id)).0);
                }
                Ok(())
            },
        }
    }

    /// One fetch-decode-execute cycle: read the program counter, advance it
    /// by 2, fetch the word it addressed, decode and dispatch.
    pub fn step(&mut self) -> (r: Result<(), VmError>)
        requires
            old(self).wf(),
        ensures
            final(self).wf(),
            ({
                let (v2, e) = spec_step(old(self)@);
                final(self)@ == v2 && r == outcome((), e)
            }),
    {
        let pc = self.registers[5];
        self.registers.set(5, pc.wrapping_add(2));
        proof {
            assert(self@ =~= with_reg(old(self)@, Register::PC, wrap_add2(pc)));
        }
        let w = match self.memory.read_word(pc) {
            Ok(w) => w,
            Err(_) => {
                return Err(VmError::OutOfBounds(pc));
            },
        };
        match Instruction::try_from_u16(w) {
            Ok(ins) => self.exec_instr(ins),
            Err(op) => Err(VmError::UnknownOpcode(op)),
        }
    }

    /// Step the machine up to `n` times, stopping at the first error.
    pub fn iterate(&mut self, n: usize) -> (r: Result<(), VmError>)
        requires
            old(self).wf(),
        ensures
            final(self).wf(),
            ({
                let (v2, e) = spec_iterate(old(self)@, n as nat);
                final(self)@ == v2 && r == outcome((), e)
            }),
    {
        let mut i: usize = 0;
        while i < n
            invariant
                0 <= i <= n,
                self.wf(),
                spec_iterate(old(self)@, n as nat) == spec_iterate(self@, (n - i) as nat),
            decreases n - i,
        {
            match self.step() {
                Ok(()) => (),
                Err(e) => {
                    return Err(e);
                },
            }
            i = i + 1;
        }
        Ok(())
    }
}

/// Stack discipline, the underflow half: popping with a zero stack
/// pointer fails with `StackUnderflow` and leaves the machine unchanged.
pub proof fn lemma_pop_underflow(v: MachineView)
    requires
        reg_of(v, Register::SP) == 0,
    ensures
        spec_pop(v).2 == Some(VmError::StackUnderflow),
        spec_pop(v).0 == v,
{
}

/// Stack discipline, the round-trip half: a push followed by a pop yields
/// the pushed word unchanged, returns the stack pointer to its pre-push
/// value, and touches no other register. The stack pointer must leave room
/// for the word and must not wrap when advanced.
pub proof fn lemma_push_pop(v: MachineView, val: u16)
    requires
        v.regs.len() == 8,
        reg_of(v, Register::SP) + 1 < v.mem.len(),
        reg_of(v, Register::SP) + 2 <= 0xFFFF,
    ensures
        ({
            let (v1, e1) = spec_push(v, val);
            e1 is None && {
                let (v2, got, e2) = spec_pop(v1);
                e2 is None && got == val && reg_of(v2, Register::SP) == reg_of(v, Register::SP)
                    && v2.regs == v.regs && v2.mem == word_written(
                    v.mem,
                    reg_of(v, Register::SP) as int,
                    val,
                ) && v2.handlers == v.handlers && v2.halted == v.halted && v2.output == v.output
            }
        }),
{
    let sp = reg_of(v, Register::SP);
    crate::memory::lemma_word_roundtrip(val);
    let (v1, e1) = spec_push(v, val);
    let (v2, got, e2) = spec_pop(v1);
    assert(v2.regs =~= v.regs);
}

/// Exec counterpart of [`alu_op`]: compute a binary arithmetic or logic
/// result and its overflow indication.
fn alu_exec(i: &Instruction, a: u16, b: u16) -> (r: Option<(u16, bool)>)
    ensures
        r == alu_op(*i, a, b),
{
    match i {
        Instruction::Add(_, _) => {
            if a as u32 + b as u32 > 0xFFFF {
                Some(((a as u32 + b as u32 - 0x10000) as u16, true))
            } else {
                Some((a + b, false))
            }
        },
        Instruction::Sub(_, _) => {
            if a >= b {
                Some((a - b, false))
            } else {
                Some(((a as u32 + 0x10000 - b as u32) as u16, true))
            }
        },
        Instruction::Mul(_, _) => {
            proof {
                assert(a as int * b as int <= 0xFFFF * 0xFFFF) by (nonlinear_arith)
                    requires a <= 0xFFFF, b <= 0xFFFF;
            }
            let p = a as u32 * b as u32;
            Some(((p % 0x10000) as u16, p > 0xFFFF))
        },
        Instruction::Div(_, _) => {
            if b == 0 {
                None
            } else {
                Some((a / b, false))
            }
        },
        Instruction::Shl(_, _) => {
            let s = b % 16;
            let mut res = a;
            let mut k: u16 = 0;
            while k < s
                invariant
                    0 <= k <= s,
                    s < 16,
                    res == shl16(a, k as nat),
                decreases s - k,
            {
                res = if res >= 0x8000 {
                    (res - 0x8000) * 2
                } else {
                    res * 2
                };
                k = k + 1;
            }
            Some((res, b >= 16))
        },
        Instruction::Shr(_, _) => {
            let s = b % 16;
            let mut res = a;
            let mut k: u16 = 0;
            while k < s
                invariant
                    0 <= k <= s,
                    s < 16,
                    res == shr16(a, k as nat),
                decreases s - k,
            {
                res = res / 2;
                k = k + 1;
            }
            Some((res, b >= 16))
        },
        Instruction::And(_, _) => Some((a & b, false)),
        Instruction::Or(_, _) => Some((a | b, false)),
        Instruction::Xor(_, _) => Some((a ^ b, false)),
        _ => None,
    }
}

} // verus!
