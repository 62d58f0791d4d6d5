//! The machine state that instructions act on: memory, status register,
//! extra register, line counter and the pending syscall slot.
use vstd::prelude::*;

use crate::bytes::{i32_be, i32_byte};

verus! {

/// The number of 32-bit cells in memory: every 16-bit address names one.
pub const MEM_CELLS: usize = 65536;

/// Bit of the status register set when the last comparison found equality.
pub const ZERO_FLAG: u8 = 0x01;

/// Bit of the status register set when the last comparison found `dest < src`.
pub const NEGATIVE_FLAG: u8 = 0x02;

/// A request to the host that the running program has made.
#[derive(Debug, PartialEq, Eq)]
pub enum SysCallInvoc {
    Print(String),
}

/// The mutable state of one machine.
pub struct Context {
    /// Memory; always `MEM_CELLS` cells long.
    pub mem_block: Vec<i32>,
    /// Index of the next instruction to fetch.
    pub line_counter: usize,
    /// Number of instructions in the program being run.
    pub program_len: usize,
    pub status_register: u8,
    /// High word of the last multiply, or remainder of the last division.
    pub special_register: i32,
    /// A syscall made by the last instruction and not yet handed to the host.
    pub syscall_invoc: Option<SysCallInvoc>,
}

/// The mathematical value of a `Context`.
pub struct MachineState {
    pub mem: Seq<i32>,
    pub line_counter: int,
    pub program_len: int,
    pub status: u8,
    pub extra: i32,
    /// The text of a pending print request.
    pub pending: Option<Seq<char>>,
}

/// Whether the last comparison found its operands equal.
pub open spec fn zero_flag(status: u8) -> bool {
    status & ZERO_FLAG == ZERO_FLAG
}

/// Whether the last comparison found `dest < src`.
pub open spec fn negative_flag(status: u8) -> bool {
    status & NEGATIVE_FLAG == NEGATIVE_FLAG
}

/// The state of a fresh machine for a program of `program_len` instructions.
pub open spec fn initial_state(program_len: int) -> MachineState {
    MachineState {
        mem: Seq::new(MEM_CELLS as nat, |i: int| 0i32),
        line_counter: 0,
        program_len,
        status: 0,
        extra: 0,
        pending: None,
    }
}

/// Byte `p` of memory read as one stream, each cell most significant byte
/// first.
pub open spec fn mem_byte(mem: Seq<i32>, p: int) -> u8 {
    i32_be(mem[p / 4])[p % 4]
}

/// The bytes of memory from byte position `p` up to the first zero byte or
/// the end of memory, whichever comes first.
pub open spec fn c_string(mem: Seq<i32>, p: int) -> Seq<u8>
    decreases 4 * mem.len() - p,
{
    if 0 <= p < 4 * mem.len() && mem_byte(mem, p) != 0 {
        seq![mem_byte(mem, p)] + c_string(mem, p + 1)
    } else {
        seq![]
    }
}

impl View for Context {
    type V = MachineState;

    open spec fn view(&self) -> MachineState {
        MachineState {
            mem: self.mem_block@,
            line_counter: self.line_counter as int,
            program_len: self.program_len as int,
            status: self.status_register,
            extra: self.special_register,
            pending: match self.syscall_invoc {
                Some(SysCallInvoc::Print(s)) => Some(s@),
                None => None,
            },
        }
    }
}

impl Context {
    /// Memory has one cell per address and the line counter stays within the
    /// program.
    pub open spec fn wf(&self) -> bool {
        &&& self.mem_block@.len() == MEM_CELLS
        &&& self.line_counter <= self.program_len
    }

    /// A machine with zeroed memory and registers, for a program of
    /// `program_len` instructions.
    pub fn new(program_len: usize) -> (r: Context)
        ensures
            r.wf(),
            r@ == initial_state(program_len as int),
    {
        let r = Context {
            mem_block: vec![0i32; MEM_CELLS],
            line_counter: 0,
            program_len,
            status_register: 0,
            special_register: 0,
            syscall_invoc: None,
        };
        assert(r.mem_block@ =~= initial_state(program_len as int).mem);
        r
    }

    /// The bytes of memory from cell `addr` on, up to the first zero byte.
    pub fn string_bytes(&self, addr: u16) -> (r: Vec<u8>)
        requires
            self.wf(),
        ensures
            r@ == c_string(self.mem_block@, 4 * addr),
    {
        let mut out: Vec<u8> = Vec::new();
        let mut p: usize = 4 * addr as usize;
        while p < 4 * MEM_CELLS
            invariant
                self.wf(),
                4 * addr <= p <= 4 * MEM_CELLS,
                c_string(self.mem_block@, 4 * addr) == out@ + c_string(self.mem_block@, p as int),
            decreases 4 * MEM_CELLS - p,
        {
            let b = i32_byte(self.mem_block[p / 4], p % 4);
            if b == 0 {
                assert(c_string(self.mem_block@, p as int) =~= seq![]);
                assert(out@ + seq![] =~= out@);
                return out;
            }
            assert(out@.push(b) + c_string(self.mem_block@, p + 1) =~= out@ + c_string(
                self.mem_block@,
                p as int,
            ));
            out.push(b);
            p = p + 1;
        }
        assert(out@ + seq![] =~= out@);
        out
    }
}

} // verus!
