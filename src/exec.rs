//! What each instruction does to the machine state.
use vstd::prelude::*;

use crate::bytes::unsigned32;
use crate::instr::{
    ALU_ADD, ALU_AND, ALU_ASSIGN, ALU_CMP, ALU_DIV, ALU_MOVE_EXTRA, ALU_MUL, ALU_OR, ALU_SLL,
    ALU_SRA, ALU_SRL, ALU_SUB, ALU_XOR, Instruction, JMP_ALWAYS, JMP_NEGATIVE,
    JMP_NEGATIVE_OR_ZERO, JMP_ZERO, SysCallInstr,
};
use crate::machine::{
    c_string, negative_flag, zero_flag, Context, MachineState, SysCallInvoc, NEGATIVE_FLAG,
    ZERO_FLAG,
};

verus! {

/// Why an instruction could not be executed. Every such error ends the run.
#[derive(Debug, Clone, Copy, PartialEq, Eq, Structural)]
pub enum ExecError {
    InvalidAluOp(u8),
    InvalidJumpOp(u8),
    /// The jump's own position plus its offset is negative: it would land
    /// before the first instruction.
    InvalidNegativeOffset,
    /// The jump would move the line counter past the end of the program.
    InvalidPositiveOffset,
    DivideByZero,
}

/// The value in `[-2^31, 2^31)` congruent to `x` modulo `2^32`.
pub open spec fn wrap_i32(x: int) -> i32 {
    let r = x % 0x1_0000_0000;
    (if r >= 0x8000_0000 { r - 0x1_0000_0000 } else { r }) as i32
}

pub open spec fn abs(x: int) -> int {
    if x < 0 { -x } else { x }
}

/// Quotient of `a` by `b` rounded toward zero.
pub open spec fn trunc_div(a: int, b: int) -> int {
    if (a < 0) != (b < 0) { -(abs(a) / abs(b)) } else { abs(a) / abs(b) }
}

/// Remainder of `a` by `b` that takes the sign of `a`.
pub open spec fn trunc_rem(a: int, b: int) -> int {
    if a < 0 { -(abs(a) % abs(b)) } else { abs(a) % abs(b) }
}

/// The shift distance taken from the low five bits of `s`.
pub open spec fn shift_amount(s: i32) -> u32 {
    (s & 31) as u32
}

/// The status register after comparing `d` with `s`: exactly one of the
/// zero and negative flags, or neither, is set; other bits are kept.
pub open spec fn compared_status(status: u8, d: i32, s: i32) -> u8 {
    if d < s {
        (status | NEGATIVE_FLAG) & !ZERO_FLAG
    } else if d == s {
        (status | ZERO_FLAG) & !NEGATIVE_FLAG
    } else {
        status & !(ZERO_FLAG | NEGATIVE_FLAG)
    }
}

/// What an ALU operation that only writes its destination writes there,
/// given the destination `d`, the source `s` and the extra register `x`.
pub open spec fn alu_value(op: u8, d: i32, s: i32, x: i32) -> Option<i32> {
    if op == ALU_ASSIGN {
        Some(s)
    } else if op == ALU_ADD {
        Some(wrap_i32(d + s))
    } else if op == ALU_SUB {
        Some(wrap_i32(d - s))
    } else if op == ALU_AND {
        Some(d & s)
    } else if op == ALU_OR {
        Some(d | s)
    } else if op == ALU_XOR {
        Some(d ^ s)
    } else if op == ALU_SLL {
        Some(d << shift_amount(s))
    } else if op == ALU_SRL {
        Some(((d as u32) >> shift_amount(s)) as i32)
    } else if op == ALU_SRA {
        Some(d >> shift_amount(s))
    } else if op == ALU_MOVE_EXTRA {
        Some(x)
    } else {
        None
    }
}

/// The state after an ALU operation on the cells `src` and `dest`.
pub open spec fn exec_alu(m: MachineState, op: u8, src: u16, dest: u16) -> Result<
    MachineState,
    ExecError,
> {
    let s = m.mem[src as int];
    let d = m.mem[dest as int];
    if op == ALU_CMP {
        Ok(MachineState { status: compared_status(m.status, d, s), ..m })
    } else if op == ALU_MUL {
        Ok(
            MachineState {
                mem: m.mem.update(dest as int, wrap_i32(d * s)),
                extra: ((d * s) / 0x1_0000_0000) as i32,
                ..m
            },
        )
    } else if op == ALU_DIV {
        if s == 0 {
            Err(ExecError::DivideByZero)
        } else {
            Ok(
                MachineState {
                    mem: m.mem.update(dest as int, wrap_i32(trunc_div(d as int, s as int))),
                    extra: trunc_rem(d as int, s as int) as i32,
                    ..m
                },
            )
        }
    } else {
        match alu_value(op, d, s, m.extra) {
            Some(v) => Ok(MachineState { mem: m.mem.update(dest as int, v), ..m }),
            None => Err(ExecError::InvalidAluOp(op)),
        }
    }
}

/// Whether a jump with opcode `op` is taken under the status register.
pub open spec fn jump_taken(op: u8, status: u8) -> bool {
    if op == JMP_ALWAYS {
        true
    } else if op == JMP_NEGATIVE {
        negative_flag(status)
    } else if op == JMP_NEGATIVE_OR_ZERO {
        negative_flag(status) || zero_flag(status)
    } else {
        zero_flag(status)
    }
}

/// The state after a jump by `offset`. The line counter already points past
/// the jump, so the jump stands at `line_counter - 1` and must not be carried
/// below position zero; the target, `line_counter + offset`, must not pass
/// the end of the program.
pub open spec fn exec_jump(m: MachineState, op: u8, offset: i16) -> Result<
    MachineState,
    ExecError,
> {
    let target = m.line_counter + offset;
    if target < 1 {
        Err(ExecError::InvalidNegativeOffset)
    } else if target > m.program_len {
        Err(ExecError::InvalidPositiveOffset)
    } else if !(JMP_ALWAYS <= op <= JMP_ZERO) {
        Err(ExecError::InvalidJumpOp(op))
    } else if jump_taken(op, m.status) {
        Ok(MachineState { line_counter: target, ..m })
    } else {
        Ok(m)
    }
}

/// The text of `b` decoded as UTF-8, each invalid sequence replaced by U+FFFD.
pub uninterp spec fn lossy_utf8(b: Seq<u8>) -> Seq<char>;

/// Whether every byte of `b` is ASCII.
pub open spec fn is_ascii(b: Seq<u8>) -> bool {
    forall|k: int| 0 <= k < b.len() ==> b[k] < 0x80
}

/// The characters whose codes are the bytes of `b`.
pub open spec fn ascii_chars(b: Seq<u8>) -> Seq<char> {
    b.map_values(|c: u8| c as char)
}

/// The state after a print syscall on the string at cell `addr`: the request
/// is left pending for the host.
pub open spec fn exec_print(m: MachineState, addr: u16) -> MachineState {
    MachineState { pending: Some(lossy_utf8(c_string(m.mem, 4 * addr))), ..m }
}

/// The state after executing `i`, or the error that stops the run.
pub open spec fn exec_instr(i: Instruction, m: MachineState) -> Result<MachineState, ExecError> {
    match i {
        Instruction::Mov { literal, dest } => Ok(
            MachineState { mem: m.mem.update(dest as int, literal), ..m },
        ),
        Instruction::Alu { alu_op, src, dest } => exec_alu(m, alu_op, src, dest),
        Instruction::Jump { jmp_op, offset } => exec_jump(m, jmp_op, offset),
        Instruction::SysCall(SysCallInstr::Print(addr)) => Ok(exec_print(m, addr)),
    }
}

/// After a comparison the zero flag is set exactly when the operands are
/// equal, the negative flag exactly when `d < s`, so never both; the other
/// bits of the status register are kept.
pub proof fn lemma_compare_flags(status: u8, d: i32, s: i32)
    ensures
        zero_flag(compared_status(status, d, s)) == (d == s),
        negative_flag(compared_status(status, d, s)) == (d < s),
        compared_status(status, d, s) & 0xFC == status & 0xFC,
{
    let r = compared_status(status, d, s);
    if d < s {
        assert(r == (status | NEGATIVE_FLAG) & !ZERO_FLAG);
        assert(((status | 2u8) & !1u8) & 1u8 != 1u8) by (bit_vector);
        assert(((status | 2u8) & !1u8) & 2u8 == 2u8) by (bit_vector);
        assert(((status | 2u8) & !1u8) & 0xFCu8 == status & 0xFCu8) by (bit_vector);
    } else if d == s {
        assert(r == (status | ZERO_FLAG) & !NEGATIVE_FLAG);
        assert(((status | 1u8) & !2u8) & 1u8 == 1u8) by (bit_vector);
        assert(((status | 1u8) & !2u8) & 2u8 != 2u8) by (bit_vector);
        assert(((status | 1u8) & !2u8) & 0xFCu8 == status & 0xFCu8) by (bit_vector);
    } else {
        assert(r == status & !(ZERO_FLAG | NEGATIVE_FLAG));
        assert((status & !(1u8 | 2u8)) & 1u8 != 1u8) by (bit_vector);
        assert((status & !(1u8 | 2u8)) & 2u8 != 2u8) by (bit_vector);
        assert((status & !(1u8 | 2u8)) & 0xFCu8 == status & 0xFCu8) by (bit_vector);
    }
}

/// The words that a multiply leaves behind make up the whole 64-bit product:
/// the high word times `2^32` plus the low word read as unsigned.
pub proof fn lemma_multiply_words(d: i32, s: i32)
    ensures
        ((d * s) / 0x1_0000_0000) as i32 * 0x1_0000_0000 + unsigned32(wrap_i32(d * s)) == d * s,
{
    assert(-0x4000_0000_0000_0000 <= d * s <= 0x4000_0000_0000_0000) by (nonlinear_arith)
        requires
            -0x8000_0000 <= d < 0x8000_0000,
            -0x8000_0000 <= s < 0x8000_0000,
    ;
}

/// Dividing by a zero cell fails with its own error and changes nothing,
/// whatever the rest of the state.
pub proof fn lemma_divide_by_zero(m: MachineState, src: u16, dest: u16)
    requires
        m.mem[src as int] == 0,
    ensures
        exec_alu(m, ALU_DIV, src, dest) == Err::<MachineState, ExecError>(ExecError::DivideByZero),
{
}

/// A jump whose own position plus its offset is negative fails with
/// `InvalidNegativeOffset`; one whose target passes the end of the program
/// fails with `InvalidPositiveOffset`; any other jump with a valid opcode
/// succeeds and leaves the line counter in `1..=program_len` or where it was.
pub proof fn lemma_jump_bounds(m: MachineState, op: u8, offset: i16)
    requires
        0 <= m.line_counter <= m.program_len,
    ensures
        m.line_counter - 1 + offset < 0 ==> exec_jump(m, op, offset) == Err::<
            MachineState,
            ExecError,
        >(ExecError::InvalidNegativeOffset),
        m.line_counter - 1 + offset >= 0 && m.line_counter + offset > m.program_len ==> exec_jump(
            m,
            op,
            offset,
        ) == Err::<MachineState, ExecError>(ExecError::InvalidPositiveOffset),
        exec_jump(m, op, offset) is Ok ==> {
            let next = exec_jump(m, op, offset)->Ok_0;
            &&& next.line_counter == m.line_counter || 1 <= next.line_counter <= m.program_len
            &&& next == (MachineState { line_counter: next.line_counter, ..m })
        },
{
}

/// Relies on `String::from_utf8_lossy`, whose text depends on the bytes alone
/// and which returns valid UTF-8, ASCII included, unchanged.
#[verifier::external_body]
fn utf8_lossy(bytes: &[u8]) -> (r: String)
    ensures
        r@ == lossy_utf8(bytes@),
        is_ascii(bytes@) ==> r@ == ascii_chars(bytes@),
{
    String::from_utf8_lossy(bytes).into_owned()
}

impl Instruction {
    /// Executes this instruction on `ctx`. On an error `ctx` is left as it was.
    pub fn execute(&self, ctx: &mut Context) -> (r: Result<(), ExecError>)
        requires
            old(ctx).wf(),
        ensures
            final(ctx).wf(),
            match exec_instr(*self, old(ctx)@) {
                Ok(m) => r is Ok && final(ctx)@ == m,
                Err(e) => r == Err::<(), ExecError>(e) && final(ctx)@ == old(ctx)@,
            },
            match *self {
                Instruction::SysCall(SysCallInstr::Print(addr)) => is_ascii(
                    c_string(old(ctx)@.mem, 4 * addr),
                ) ==> final(ctx)@.pending == Some(ascii_chars(c_string(old(ctx)@.mem, 4 * addr))),
                _ => true,
            },
    {
        match *self {
            Instruction::Mov { literal, dest } => Self::execute_mov(ctx, literal, dest),
            Instruction::Alu { alu_op, src, dest } => Self::execute_alu(ctx, alu_op, src, dest),
            Instruction::Jump { jmp_op, offset } => Self::execute_jmp(ctx, jmp_op, offset),
            Instruction::SysCall(syscall) => Self::execute_syscall(ctx, syscall),
        }
    }

    fn execute_mov(ctx: &mut Context, literal: i32, dest: u16) -> (r: Result<(), ExecError>)
        requires
            old(ctx).wf(),
        ensures
            final(ctx).wf(),
            r is Ok,
            final(ctx)@ == (MachineState {
                mem: old(ctx)@.mem.update(dest as int, literal),
                ..old(ctx)@
            }),
    {
        ctx.mem_block[dest as usize] = literal;
        Ok(())
    }

    #[verifier::rlimit(40)]
    fn execute_alu(ctx: &mut Context, alu_op: u8, src: u16, dest: u16) -> (r: Result<
        (),
        ExecError,
    >)
        requires
            old(ctx).wf(),
        ensures
            final(ctx).wf(),
            match exec_alu(old(ctx)@, alu_op, src, dest) {
                Ok(m) => r is Ok && final(ctx)@ == m,
                Err(e) => r == Err::<(), ExecError>(e) && final(ctx)@ == old(ctx)@,
            },
    {
        let s = ctx.mem_block[src as usize];
        let d = ctx.mem_block[dest as usize];
        if alu_op == ALU_CMP {
            ctx.status_register = compare(ctx.status_register, d, s);
            return Ok(());
        }
        if alu_op == ALU_MUL {
            let (low, high) = wide_mul(d, s);
            ctx.mem_block[dest as usize] = low;
            ctx.special_register = high;
            return Ok(());
        }
        if alu_op == ALU_DIV {
            if s == 0 {
                return Err(ExecError::DivideByZero);
            }
            let (quot, rem) = divide(d, s);
            ctx.mem_block[dest as usize] = quot;
            ctx.special_register = rem;
            return Ok(());
        }
        assert(0 <= s & 31 < 32) by (bit_vector);
        let k = (s & 31) as u32;
        let v = if alu_op == ALU_ASSIGN {
            s
        } else if alu_op == ALU_ADD {
            d.wrapping_add(s)
        } else if alu_op == ALU_SUB {
            d.wrapping_sub(s)
        } else if alu_op == ALU_AND {
            d & s
        } else if alu_op == ALU_OR {
            d | s
        } else if alu_op == ALU_XOR {
            d ^ s
        } else if alu_op == ALU_SLL {
            d << k
        } else if alu_op == ALU_SRL {
            (#[verifier::truncate] (d as u32) >> k) as i32
        } else if alu_op == ALU_SRA {
            d >> k
        } else if alu_op == ALU_MOVE_EXTRA {
            ctx.special_register
        } else {
            return Err(ExecError::InvalidAluOp(alu_op));
        };
        ctx.mem_block[dest as usize] = v;
        Ok(())
    }

    fn execute_jmp(ctx: &mut Context, jmp_op: u8, offset: i16) -> (r: Result<(), ExecError>)
        requires
            old(ctx).wf(),
        ensures
            final(ctx).wf(),
            match exec_jump(old(ctx)@, jmp_op, offset) {
                Ok(m) => r is Ok && final(ctx)@ == m,
                Err(e) => r == Err::<(), ExecError>(e) && final(ctx)@ == old(ctx)@,
            },
    {
        let counter = ctx.line_counter;
        let target: usize;
        if offset < 0 {
            let back = (0 - offset as i32) as usize;
            if counter <= back {
                return Err(ExecError::InvalidNegativeOffset);
            }
            target = counter - back;
        } else {
            let forward = offset as usize;
            if counter == 0 && forward == 0 {
                return Err(ExecError::InvalidNegativeOffset);
            }
            if forward > ctx.program_len - counter {
                return Err(ExecError::InvalidPositiveOffset);
            }
            target = counter + forward;
        }
        let zero = ctx.status_register & ZERO_FLAG == ZERO_FLAG;
        let negative = ctx.status_register & NEGATIVE_FLAG == NEGATIVE_FLAG;
        if jmp_op == JMP_ALWAYS {
            ctx.line_counter = target;
        } else if jmp_op == JMP_NEGATIVE {
            if negative {
                ctx.line_counter = target;
            }
        } else if jmp_op == JMP_NEGATIVE_OR_ZERO {
            if negative || zero {
                ctx.line_counter = target;
            }
        } else if jmp_op == JMP_ZERO {
            if zero {
                ctx.line_counter = target;
            }
        } else {
            return Err(ExecError::InvalidJumpOp(jmp_op));
        }
        Ok(())
    }

    fn execute_syscall(ctx: &mut Context, syscall: SysCallInstr) -> (r: Result<(), ExecError>)
        requires
            old(ctx).wf(),
        ensures
            final(ctx).wf(),
            r is Ok,
            match syscall {
                SysCallInstr::Print(addr) => final(ctx)@ == exec_print(old(ctx)@, addr) && (
                is_ascii(c_string(old(ctx)@.mem, 4 * addr)) ==> final(ctx)@.pending == Some(
                    ascii_chars(c_string(old(ctx)@.mem, 4 * addr)),
                )),
            },
    {
        match syscall {
            SysCallInstr::Print(addr) => {
                let bytes = ctx.string_bytes(addr);
                let text = utf8_lossy(bytes.as_slice());
                ctx.syscall_invoc = Some(SysCallInvoc::Print(text));
            },
        }
        Ok(())
    }
}

/// The status register after comparing `d` with `s`.
fn compare(status: u8, d: i32, s: i32) -> (r: u8)
    ensures
        r == compared_status(status, d, s),
{
    if d < s {
        (status | NEGATIVE_FLAG) & !ZERO_FLAG
    } else if d == s {
        (status | ZERO_FLAG) & !NEGATIVE_FLAG
    } else {
        status & !(ZERO_FLAG | NEGATIVE_FLAG)
    }
}

/// The low and high words of the 64-bit product of `d` and `s`.
fn wide_mul(d: i32, s: i32) -> (r: (i32, i32))
    ensures
        r.0 == wrap_i32(d * s),
        r.1 == ((d * s) / 0x1_0000_0000) as i32,
{
    assert(-0x4000_0000_0000_0000 <= d * s <= 0x4000_0000_0000_0000) by (nonlinear_arith)
        requires
            -0x8000_0000 <= d < 0x8000_0000,
            -0x8000_0000 <= s < 0x8000_0000,
    ;
    let p: i64 = d as i64 * s as i64;
    let low = d.wrapping_mul(s);
    let unsigned_low: i64 = if low < 0 { low as i64 + 0x1_0000_0000 } else { low as i64 };
    let q: i64 = p - unsigned_low;
    let high: i64 = if q >= 0 { q / 0x1_0000_0000 } else { 0 - (0 - q) / 0x1_0000_0000 };
    (low, high as i32)
}

/// Quotient rounded toward zero and remainder of `d` by `s`; the one
/// quotient out of range, `i32::MIN / -1`, wraps to `i32::MIN`.
fn divide(d: i32, s: i32) -> (r: (i32, i32))
    requires
        s != 0,
    ensures
        r.0 == wrap_i32(trunc_div(d as int, s as int)),
        r.1 == trunc_rem(d as int, s as int),
{
    let quot = match d.checked_div(s) {
        Some(q) => q,
        None => i32::MIN,
    };
    let rem = match d.checked_rem(s) {
        Some(r) => r,
        None => 0,
    };
    (quot, rem)
}

} // verus!
