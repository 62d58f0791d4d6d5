//! A loaded program and its machine, advanced one cycle at a time.
//!
//! Each cycle first hands a pending syscall to the host; only when none is
//! pending does it fetch the instruction at the line counter, advance the
//! counter past it, and execute it. A syscall is therefore delivered before
//! the next instruction runs, in program order. The host drives the cycles
//! and stops at `Step::Halted` or at the first error.
use vstd::prelude::*;

use crate::exec::{exec_instr, lossy_utf8, ExecError};
use crate::instr::{
    decode, encode, lemma_decode_then_encode, DecodeError, Instruction, SysCallInstr, ALU_DIV,
};
use crate::machine::{c_string, initial_state, Context, MachineState, SysCallInvoc, MEM_CELLS};

verus! {

/// What one cycle did.
#[derive(Debug, PartialEq, Eq)]
pub enum Step {
    /// A syscall made by the previous instruction, for the host to carry out.
    SysCall(SysCallInvoc),
    /// One instruction was executed.
    Executed,
    /// The line counter is at the end of the program; nothing was done.
    Halted,
}

/// The mathematical value of a `Step`.
pub enum StepModel {
    Print(Seq<char>),
    Executed,
    Halted,
}

impl View for Step {
    type V = StepModel;

    open spec fn view(&self) -> StepModel {
        match self {
            Step::SysCall(SysCallInvoc::Print(s)) => StepModel::Print(s@),
            Step::Executed => StepModel::Executed,
            Step::Halted => StepModel::Halted,
        }
    }
}

/// `Ok(done + rest)` where `r` is `Ok(rest)`, else the error of `r`.
pub open spec fn prepend(
    done: Seq<Instruction>,
    r: Result<Seq<Instruction>, DecodeError>,
) -> Result<Seq<Instruction>, DecodeError> {
    match r {
        Ok(rest) => Ok(done + rest),
        Err(e) => Err(e),
    }
}

/// The instructions encoded back to back in `b`, or the first decode error.
pub open spec fn decode_program(b: Seq<u8>) -> Result<Seq<Instruction>, DecodeError>
    decreases b.len(),
{
    if b.len() == 0 {
        Ok(seq![])
    } else {
        match decode(b) {
            Ok((i, n)) => prepend(seq![i], decode_program(b.subrange(n, b.len() as int))),
            Err(e) => Err(e),
        }
    }
}

/// The bytes of `prog`, each instruction's encoding after the previous one.
pub open spec fn encode_program(prog: Seq<Instruction>) -> Seq<u8>
    decreases prog.len(),
{
    if prog.len() == 0 {
        seq![]
    } else {
        encode(prog[0]) + encode_program(prog.drop_first())
    }
}

/// Decoding a whole byte stream and encoding the program that comes out
/// gives back the stream.
pub proof fn lemma_program_round_trip(b: Seq<u8>)
    requires
        decode_program(b) is Ok,
    ensures
        encode_program(decode_program(b)->Ok_0) == b,
    decreases b.len(),
{
    if b.len() > 0 {
        let (i, n) = decode(b)->Ok_0;
        let tail = b.subrange(n, b.len() as int);
        lemma_decode_then_encode(b);
        lemma_program_round_trip(tail);
        let prog = decode_program(b)->Ok_0;
        assert(prog == seq![i] + decode_program(tail)->Ok_0);
        assert(prog.drop_first() =~= decode_program(tail)->Ok_0);
        assert(b =~= b.subrange(0, n) + tail);
    }
}

/// One cycle from state `m` of a machine running `prog`: the event and the
/// next state, or the error that stops the run.
pub open spec fn cycle_outcome(prog: Seq<Instruction>, m: MachineState) -> Result<
    (StepModel, MachineState),
    ExecError,
> {
    match m.pending {
        Some(text) => Ok((StepModel::Print(text), MachineState { pending: None, ..m })),
        None => if m.line_counter >= prog.len() {
            Ok((StepModel::Halted, m))
        } else {
            match exec_instr(prog[m.line_counter], advanced(m)) {
                Ok(next) => Ok((StepModel::Executed, next)),
                Err(e) => Err(e),
            }
        },
    }
}

/// `m` with the line counter moved past the instruction it points at.
pub open spec fn advanced(m: MachineState) -> MachineState {
    MachineState { line_counter: m.line_counter + 1, ..m }
}

/// A decoded program together with the machine that runs it.
pub struct Process {
    context: Context,
    program: Vec<Instruction>,
}

impl Process {
    /// The machine is well formed and sized for the loaded program.
    pub closed spec fn wf(&self) -> bool {
        &&& self.context.wf()
        &&& self.context.program_len == self.program.len()
    }

    /// What well-formedness tells a caller: memory has one cell per address,
    /// the machine knows the program's length, and the line counter never
    /// passes the end of the program.
    pub open spec fn bounded(&self) -> bool {
        &&& self.state().mem.len() == MEM_CELLS
        &&& self.state().program_len == self.instructions().len()
        &&& 0 <= self.state().line_counter <= self.instructions().len()
    }

    /// The program's instructions.
    pub closed spec fn instructions(&self) -> Seq<Instruction> {
        self.program@
    }

    /// The machine's state.
    pub closed spec fn state(&self) -> MachineState {
        self.context@
    }

    /// Decodes the whole of `source` and sets up a fresh machine for it.
    /// Nothing is loaded if any instruction fails to decode.
    pub fn new(source: Vec<u8>) -> (r: Result<Process, DecodeError>)
        ensures
            match decode_program(source@) {
                Ok(prog) => r is Ok && r->Ok_0.wf() && r->Ok_0.instructions() == prog
                    && r->Ok_0.state() == initial_state(prog.len() as int) && r->Ok_0.bounded(),
                Err(e) => r is Err && r->Err_0 == e,
            },
    {
        let mut rest: &[u8] = source.as_slice();
        let mut program: Vec<Instruction> = Vec::new();
        while rest.len() > 0
            invariant
                decode_program(source@) == prepend(program@, decode_program(rest@)),
            decreases rest@.len(),
        {
            match Instruction::decode_instr(rest) {
                Ok((instr, tail)) => {
                    proof {
                        assert(decode_program(rest@) == prepend(
                            seq![instr],
                            decode_program(tail@),
                        ));
                        lemma_prepend_push(program@, instr, decode_program(tail@));
                    }
                    program.push(instr);
                    rest = tail;
                },
                Err(e) => {
                    return Err(e);
                },
            }
        }
        assert(program@ + seq![] =~= program@);
        let context = Context::new(program.len());
        Ok(Process { context, program })
    }

    /// Runs one cycle: hands over a pending syscall if there is one, else
    /// executes the instruction at the line counter, else reports the halt.
    /// After an error the line counter has moved past the failed instruction
    /// and nothing else has changed.
    pub fn step(&mut self) -> (r: Result<Step, ExecError>)
        requires
            old(self).wf(),
        ensures
            final(self).wf(),
            final(self).bounded(),
            final(self).instructions() == old(self).instructions(),
            match cycle_outcome(old(self).instructions(), old(self).state()) {
                Ok((event, next)) => r is Ok && r->Ok_0@ == event && final(self).state() == next,
                Err(e) => r is Err && r->Err_0 == e && final(self).state() == advanced(
                    old(self).state(),
                ),
            },
    {
        if let Some(invoc) = self.context.syscall_invoc.take() {
            return Ok(Step::SysCall(invoc));
        }
        if self.context.line_counter >= self.program.len() {
            return Ok(Step::Halted);
        }
        let line = self.context.line_counter;
        self.context.line_counter = line + 1;
        match self.program[line].execute(&mut self.context) {
            Ok(()) => Ok(Step::Executed),
            Err(e) => Err(e),
        }
    }

    /// The loaded program.
    pub fn program(&self) -> (r: &Vec<Instruction>)
        ensures
            r@ == self.instructions(),
    {
        &self.program
    }

    /// The machine that runs the program.
    pub fn context(&self) -> (r: &Context)
        ensures
            r@ == self.state(),
    {
        &self.context
    }

    /// Up to `count` memory cells from address `pos`, cut at the end of
    /// memory.
    pub fn mem_range(&self, pos: u16, count: u16) -> (r: &[i32])
        requires
            self.wf(),
        ensures
            r@ == self.state().mem.subrange(
                pos as int,
                if pos + count > MEM_CELLS { MEM_CELLS as int } else { pos + count },
            ),
    {
        let start = pos as usize;
        let end = if start + count as usize > MEM_CELLS {
            MEM_CELLS
        } else {
            start + count as usize
        };
        vstd::slice::slice_subrange(self.context.mem_block.as_slice(), start, end)
    }
}

/// A division by a zero cell stops the run with its own error, whatever the
/// rest of the state.
pub proof fn lemma_divide_by_zero_stops_run(prog: Seq<Instruction>, m: MachineState)
    requires
        m.mem.len() == MEM_CELLS,
        m.pending is None,
        0 <= m.line_counter < prog.len(),
        prog[m.line_counter] matches Instruction::Alu { alu_op, src, .. } && alu_op == ALU_DIV
            && m.mem[src as int] == 0,
    ensures
        cycle_outcome(prog, m) == Err::<(StepModel, MachineState), ExecError>(ExecError::DivideByZero),
{
}

/// A jump at position `p` of the program fails the run with
/// `InvalidNegativeOffset` when `p + offset` is negative, and with
/// `InvalidPositiveOffset` when its target `p + 1 + offset` passes the end of
/// the program; either way before it changes anything but the line counter.
pub proof fn lemma_jump_bounds_stop_run(
    prog: Seq<Instruction>,
    m: MachineState,
    op: u8,
    offset: i16,
)
    requires
        m.pending is None,
        m.program_len == prog.len(),
        0 <= m.line_counter < prog.len(),
        prog[m.line_counter] == (Instruction::Jump { jmp_op: op, offset }),
    ensures
        m.line_counter + offset < 0 ==> cycle_outcome(prog, m) == Err::<
            (StepModel, MachineState),
            ExecError,
        >(ExecError::InvalidNegativeOffset),
        m.line_counter + offset >= 0 && m.line_counter + 1 + offset > prog.len() ==> cycle_outcome(
            prog,
            m,
        ) == Err::<(StepModel, MachineState), ExecError>(ExecError::InvalidPositiveOffset),
{
}

/// A print request is handed to the host by the cycle right after the one
/// that executed it, with the text of the zero-terminated string in memory;
/// that cycle changes nothing else, and the cycle after it delivers nothing.
pub proof fn lemma_print_delivered_once(prog: Seq<Instruction>, m: MachineState, addr: u16)
    requires
        m.mem.len() == MEM_CELLS,
        m.pending is None,
        0 <= m.line_counter < prog.len(),
        prog[m.line_counter] == Instruction::SysCall(SysCallInstr::Print(addr)),
    ensures
        ({
            let text = lossy_utf8(c_string(m.mem, 4 * addr));
            let first = cycle_outcome(prog, m);
            let second = cycle_outcome(prog, first->Ok_0.1);
            let third = cycle_outcome(prog, second->Ok_0.1);
            &&& first is Ok
            &&& first->Ok_0.0 == StepModel::Executed
            &&& first->Ok_0.1 == (MachineState { pending: Some(text), ..advanced(m) })
            &&& second is Ok
            &&& second->Ok_0.0 == StepModel::Print(text)
            &&& second->Ok_0.1 == advanced(m)
            &&& !(third matches Ok((StepModel::Print(_), _)))
        }),
{
}

proof fn lemma_prepend_push(
    done: Seq<Instruction>,
    i: Instruction,
    r: Result<Seq<Instruction>, DecodeError>,
)
    ensures
        prepend(done, prepend(seq![i], r)) == prepend(done.push(i), r),
{
    if let Ok(rest) = r {
        assert(done + (seq![i] + rest) =~= done.push(i) + rest);
    }
}

} // verus!
