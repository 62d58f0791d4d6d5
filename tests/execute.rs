use vcpu::exec::ExecError;
use vcpu::instr::{Instruction, SysCallInstr};
use vcpu::machine::{Context, SysCallInvoc, MEM_CELLS};

fn alu(ctx: &mut Context, op: u8, dest_value: i32, src_value: i32) -> Result<(), ExecError> {
    ctx.mem_block[10] = dest_value;
    ctx.mem_block[11] = src_value;
    Instruction::Alu { alu_op: op, src: 11, dest: 10 }.execute(ctx)
}

fn alu_result(op: u8, dest_value: i32, src_value: i32) -> i32 {
    let mut ctx = Context::new(1);
    alu(&mut ctx, op, dest_value, src_value).unwrap();
    ctx.mem_block[10]
}

#[test]
fn fresh_context_is_zeroed() {
    let ctx = Context::new(3);
    assert_eq!(ctx.mem_block.len(), MEM_CELLS);
    assert!(ctx.mem_block.iter().all(|&c| c == 0));
    assert_eq!(ctx.line_counter, 0);
    assert_eq!(ctx.program_len, 3);
    assert_eq!(ctx.status_register, 0);
    assert_eq!(ctx.special_register, 0);
    assert_eq!(ctx.syscall_invoc, None);
}

#[test]
fn mov_writes_literal() {
    let mut ctx = Context::new(1);
    Instruction::Mov { literal: -7, dest: 65535 }.execute(&mut ctx).unwrap();
    assert_eq!(ctx.mem_block[65535], -7);
}

#[test]
fn compare_sets_flags() {
    let mut ctx = Context::new(1);
    alu(&mut ctx, 0x17, 5, 5).unwrap();
    assert_eq!(ctx.status_register & 1, 1);
    assert_eq!(ctx.status_register & 2, 0);
    alu(&mut ctx, 0x17, 3, 5).unwrap();
    assert_eq!(ctx.status_register & 2, 2);
    assert_eq!(ctx.status_register & 1, 0);
    alu(&mut ctx, 0x17, 5, 3).unwrap();
    assert_eq!(ctx.status_register & 3, 0);
    assert_eq!(ctx.mem_block[10], 5);
}

#[test]
fn compare_keeps_other_bits_and_does_not_overflow() {
    let mut ctx = Context::new(1);
    ctx.status_register = 0xF0;
    alu(&mut ctx, 0x17, i32::MIN, 1).unwrap();
    assert_eq!(ctx.status_register, 0xF2);
    alu(&mut ctx, 0x17, i32::MAX, -1).unwrap();
    assert_eq!(ctx.status_register, 0xF0);
}

#[test]
fn multiply_splits_product() {
    let mut ctx = Context::new(1);
    alu(&mut ctx, 0x1B, 0x0001_0000, 0x0001_0000).unwrap();
    assert_eq!(ctx.mem_block[10], 0);
    assert_eq!(ctx.special_register, 1);
    alu(&mut ctx, 0x1B, -3, 4).unwrap();
    assert_eq!(ctx.mem_block[10], -12);
    assert_eq!(ctx.special_register, -1);
}

#[test]
fn move_from_extra_reads_special_register() {
    let mut ctx = Context::new(1);
    alu(&mut ctx, 0x1B, i32::MAX, i32::MAX).unwrap();
    Instruction::Alu { alu_op: 0x1D, src: 0, dest: 20 }.execute(&mut ctx).unwrap();
    assert_eq!(ctx.mem_block[20], 0x3FFF_FFFF);
}

#[test]
fn divide_truncates_toward_zero() {
    let mut ctx = Context::new(1);
    alu(&mut ctx, 0x1C, -7, 2).unwrap();
    assert_eq!(ctx.mem_block[10], -3);
    assert_eq!(ctx.special_register, -1);
    alu(&mut ctx, 0x1C, 7, -2).unwrap();
    assert_eq!(ctx.mem_block[10], -3);
    assert_eq!(ctx.special_register, 1);
    alu(&mut ctx, 0x1C, i32::MIN, -1).unwrap();
    assert_eq!(ctx.mem_block[10], i32::MIN);
    assert_eq!(ctx.special_register, 0);
}

#[test]
fn divide_by_zero_is_an_error() {
    let mut ctx = Context::new(1);
    ctx.special_register = 9;
    assert_eq!(alu(&mut ctx, 0x1C, 5, 0), Err(ExecError::DivideByZero));
    assert_eq!(ctx.mem_block[10], 5);
    assert_eq!(ctx.special_register, 9);
}

#[test]
fn add_and_subtract_wrap() {
    assert_eq!(alu_result(0x12, 42, 8), 50);
    assert_eq!(alu_result(0x12, i32::MAX, 1), i32::MIN);
    assert_eq!(alu_result(0x13, i32::MIN, 1), i32::MAX);
    assert_eq!(alu_result(0x13, 3, 5), -2);
}

#[test]
fn assign_and_bitwise() {
    assert_eq!(alu_result(0x11, 1, 99), 99);
    assert_eq!(alu_result(0x14, 0b1100, 0b1010), 0b1000);
    assert_eq!(alu_result(0x15, 0b1100, 0b1010), 0b1110);
    assert_eq!(alu_result(0x16, 0b1100, 0b1010), 0b0110);
}

#[test]
fn shifts_use_low_five_bits() {
    assert_eq!(alu_result(0x18, 1, 4), 16);
    assert_eq!(alu_result(0x18, 1, 33), 2);
    assert_eq!(alu_result(0x18, 3, 31), i32::MIN);
    assert_eq!(alu_result(0x19, -1, 28), 0xF);
    assert_eq!(alu_result(0x19, -16, 0), -16);
    assert_eq!(alu_result(0x1A, -16, 2), -4);
    assert_eq!(alu_result(0x1A, -16, 34), -4);
}

#[test]
fn unknown_alu_operation_is_an_error() {
    let mut ctx = Context::new(1);
    assert_eq!(alu(&mut ctx, 0x1E, 1, 2), Err(ExecError::InvalidAluOp(0x1E)));
    assert_eq!(ctx.mem_block[10], 1);
}

#[test]
fn jump_bounds_are_checked() {
    let mut ctx = Context::new(1);
    assert_eq!(
        Instruction::Jump { jmp_op: 0x20, offset: -1 }.execute(&mut ctx),
        Err(ExecError::InvalidNegativeOffset)
    );
    let mut ctx = Context::new(3);
    ctx.line_counter = 3;
    assert_eq!(
        Instruction::Jump { jmp_op: 0x20, offset: 1 }.execute(&mut ctx),
        Err(ExecError::InvalidPositiveOffset)
    );
    assert_eq!(ctx.line_counter, 3);
    assert_eq!(
        Instruction::Jump { jmp_op: 0x20, offset: -3 }.execute(&mut ctx),
        Err(ExecError::InvalidNegativeOffset)
    );
    assert_eq!(ctx.line_counter, 3);
    Instruction::Jump { jmp_op: 0x20, offset: -2 }.execute(&mut ctx).unwrap();
    assert_eq!(ctx.line_counter, 1);
    Instruction::Jump { jmp_op: 0x20, offset: 2 }.execute(&mut ctx).unwrap();
    assert_eq!(ctx.line_counter, 3);
}

#[test]
fn jump_at_first_position_cannot_go_back() {
    // The counter is 1 while the jump at position 0 executes.
    let mut ctx = Context::new(2);
    ctx.line_counter = 1;
    assert_eq!(
        Instruction::Jump { jmp_op: 0x20, offset: -1 }.execute(&mut ctx),
        Err(ExecError::InvalidNegativeOffset)
    );
    assert_eq!(ctx.line_counter, 1);
    Instruction::Jump { jmp_op: 0x20, offset: 0 }.execute(&mut ctx).unwrap();
    assert_eq!(ctx.line_counter, 1);
}

#[test]
fn conditional_jumps_follow_flags() {
    let mut ctx = Context::new(10);
    ctx.line_counter = 5;
    alu(&mut ctx, 0x17, 1, 2).unwrap();
    Instruction::Jump { jmp_op: 0x23, offset: 2 }.execute(&mut ctx).unwrap();
    assert_eq!(ctx.line_counter, 5);
    Instruction::Jump { jmp_op: 0x21, offset: 2 }.execute(&mut ctx).unwrap();
    assert_eq!(ctx.line_counter, 7);
    alu(&mut ctx, 0x17, 2, 2).unwrap();
    Instruction::Jump { jmp_op: 0x21, offset: -2 }.execute(&mut ctx).unwrap();
    assert_eq!(ctx.line_counter, 7);
    Instruction::Jump { jmp_op: 0x22, offset: -2 }.execute(&mut ctx).unwrap();
    assert_eq!(ctx.line_counter, 5);
    Instruction::Jump { jmp_op: 0x23, offset: 0 }.execute(&mut ctx).unwrap();
    assert_eq!(ctx.line_counter, 5);
}

#[test]
fn unknown_jump_operation_is_an_error() {
    let mut ctx = Context::new(2);
    assert_eq!(
        Instruction::Jump { jmp_op: 0x24, offset: 1 }.execute(&mut ctx),
        Err(ExecError::InvalidJumpOp(0x24))
    );
    assert_eq!(ctx.line_counter, 0);
}

#[test]
fn string_bytes_stop_at_zero_byte() {
    let mut ctx = Context::new(1);
    ctx.mem_block[100] = 0x4142_4344;
    ctx.mem_block[101] = 0x4500_4647;
    assert_eq!(ctx.string_bytes(100), b"ABCDE".to_vec());
    assert_eq!(ctx.string_bytes(101), b"E".to_vec());
    assert_eq!(ctx.string_bytes(102), Vec::<u8>::new());
}

#[test]
fn string_bytes_stop_at_end_of_memory() {
    let mut ctx = Context::new(1);
    ctx.mem_block[65535] = 0x6162_6364;
    assert_eq!(ctx.string_bytes(65535), b"abcd".to_vec());
}

#[test]
fn print_leaves_request_pending() {
    let mut ctx = Context::new(1);
    ctx.mem_block[0] = 0x4869_0000;
    Instruction::SysCall(SysCallInstr::Print(0)).execute(&mut ctx).unwrap();
    assert_eq!(ctx.syscall_invoc, Some(SysCallInvoc::Print(String::from("Hi"))));
}

#[test]
fn print_replaces_invalid_utf8() {
    let mut ctx = Context::new(1);
    ctx.mem_block[0] = 0x41FF_4200;
    Instruction::SysCall(SysCallInstr::Print(0)).execute(&mut ctx).unwrap();
    assert_eq!(
        ctx.syscall_invoc,
        Some(SysCallInvoc::Print(String::from("A\u{FFFD}B")))
    );
}

#[test]
fn print_decodes_multibyte_utf8() {
    let mut ctx = Context::new(1);
    ctx.mem_block[0] = 0xC3A9_0000u32 as i32;
    Instruction::SysCall(SysCallInstr::Print(0)).execute(&mut ctx).unwrap();
    assert_eq!(ctx.syscall_invoc, Some(SysCallInvoc::Print(String::from("é"))));
}
