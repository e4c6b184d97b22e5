use stackvm::RAM_SIZE;
use stackvm::loader::{load_program, LoadError};
use stackvm::machine::{Machine, StepResult};
use stackvm::mem::{read_u32, write_u32, push, pop};
use stackvm::input::{apply_input, apply_str_input};
use stackvm::parse::parse_input_line;
use stackvm::step::execute_instruction;

fn image(words: &[u32]) -> Vec<u8> {
    let mut bytes = vec![0xDEu8, 0xAD, 0xBE, 0xEF];
    for w in words {
        bytes.extend_from_slice(&w.to_le_bytes());
    }
    bytes
}

fn boot(words: &[u32]) -> Machine {
    load_program(&image(words)).expect("program should load")
}

fn top(m: &Machine) -> u32 {
    read_u32(&m.ram, m.sp)
}

#[test]
fn load_rejects_bad_magic() {
    let r = load_program(&[0xDE, 0xAD, 0xBE, 0xEE, 1, 2, 3, 4]);
    assert!(matches!(r, Err(LoadError::InvalidFormat)));
}

#[test]
fn load_rejects_short_file() {
    let r = load_program(&[0xDE, 0xAD]);
    assert!(matches!(r, Err(LoadError::InvalidFormat)));
}

#[test]
fn load_rejects_oversized_body() {
    let mut bytes = vec![0xDEu8, 0xAD, 0xBE, 0xEF];
    bytes.resize(4 + RAM_SIZE + 1, 0);
    let r = load_program(&bytes);
    assert!(matches!(r, Err(LoadError::ProgramTooLarge)));
}

#[test]
fn load_initializes_machine() {
    let m = boot(&[0x12345678]);
    assert_eq!(m.pc, 0);
    assert_eq!(m.sp, RAM_SIZE);
    assert_eq!(m.ram.len(), RAM_SIZE);
    assert_eq!(read_u32(&m.ram, 0), 0x12345678);
    assert_eq!(read_u32(&m.ram, 4), 0);
    assert_eq!(read_u32(&m.ram, RAM_SIZE - 4), 0);
}

#[test]
fn push_pop_round_trip() {
    let mut m = boot(&[]);
    let before = m.sp;
    push(&mut m.sp, &mut m.ram, 0xCAFEBABE);
    assert_eq!(m.sp, before - 4);
    let v = pop(&mut m.sp, &m.ram);
    assert_eq!(v, 0xCAFEBABE);
    assert_eq!(m.sp, before);
}

#[test]
fn write_then_read_word() {
    let mut m = boot(&[]);
    write_u32(&mut m.ram, 100, 0x01020304);
    assert_eq!(read_u32(&m.ram, 100), 0x01020304);
    assert_eq!(m.ram[100], 0x04);
    assert_eq!(m.ram[103], 0x01);
}

#[test]
fn add_wraps_at_32_bits() {
    let mut m = boot(&[0x20000000]);
    push(&mut m.sp, &mut m.ram, 0x7FFFFFFF);
    push(&mut m.sp, &mut m.ram, 1);
    let io = execute_instruction(&mut m);
    assert_eq!(io.result, StepResult::Continue);
    assert_eq!(top(&m), 0x80000000);
}

#[test]
fn division_by_zero_yields_zero() {
    let mut m = boot(&[0x23000000]);
    push(&mut m.sp, &mut m.ram, 5);
    push(&mut m.sp, &mut m.ram, 0);
    let io = execute_instruction(&mut m);
    assert_eq!(io.result, StepResult::Continue);
    assert_eq!(top(&m), 0);
}

#[test]
fn modulo_by_zero_yields_zero() {
    let mut m = boot(&[0x24000000]);
    push(&mut m.sp, &mut m.ram, 5);
    push(&mut m.sp, &mut m.ram, 0);
    execute_instruction(&mut m);
    assert_eq!(top(&m), 0);
}

#[test]
fn division_truncates_toward_zero() {
    let mut m = boot(&[0x23000000]);
    push(&mut m.sp, &mut m.ram, (-7i32) as u32);
    push(&mut m.sp, &mut m.ram, 2);
    execute_instruction(&mut m);
    assert_eq!(top(&m) as i32, -3);
}

#[test]
fn modulo_takes_dividend_sign() {
    let mut m = boot(&[0x24000000]);
    push(&mut m.sp, &mut m.ram, (-7i32) as u32);
    push(&mut m.sp, &mut m.ram, 3);
    execute_instruction(&mut m);
    assert_eq!(top(&m) as i32, -1);
}

#[test]
fn subtract_and_multiply_wrap() {
    let mut m = boot(&[0x21000000, 0x22000000]);
    push(&mut m.sp, &mut m.ram, 0);
    push(&mut m.sp, &mut m.ram, 1);
    execute_instruction(&mut m);
    assert_eq!(top(&m), 0xFFFFFFFF);
    push(&mut m.sp, &mut m.ram, 0x10000);
    push(&mut m.sp, &mut m.ram, 0x10001);
    execute_instruction(&mut m);
    assert_eq!(top(&m), 0x10000);
}

#[test]
fn bitwise_operations() {
    let mut m = boot(&[0x25000000, 0x26000000, 0x27000000]);
    push(&mut m.sp, &mut m.ram, 0b1100);
    push(&mut m.sp, &mut m.ram, 0b1010);
    execute_instruction(&mut m);
    assert_eq!(top(&m), 0b1000);
    push(&mut m.sp, &mut m.ram, 0b0011);
    execute_instruction(&mut m);
    assert_eq!(top(&m), 0b1011);
    push(&mut m.sp, &mut m.ram, 0b0110);
    execute_instruction(&mut m);
    assert_eq!(top(&m), 0b1101);
}

#[test]
fn shifts_mask_their_count() {
    let mut m = boot(&[0x28000000, 0x29000000, 0x2B000000]);
    push(&mut m.sp, &mut m.ram, 1);
    push(&mut m.sp, &mut m.ram, 33);
    execute_instruction(&mut m);
    assert_eq!(top(&m), 2);
    push(&mut m.sp, &mut m.ram, 0x80000000);
    push(&mut m.sp, &mut m.ram, 1);
    let io = execute_instruction(&mut m);
    assert_eq!(io.result, StepResult::Continue);
    assert_eq!(top(&m), 0x40000000);
    push(&mut m.sp, &mut m.ram, 0x80000000);
    push(&mut m.sp, &mut m.ram, 1);
    execute_instruction(&mut m);
    assert_eq!(top(&m), 0xC0000000);
}

#[test]
fn unknown_binary_subopcode_is_a_no_op() {
    let mut m = boot(&[0x2A000000]);
    push(&mut m.sp, &mut m.ram, 1);
    push(&mut m.sp, &mut m.ram, 2);
    let before_sp = m.sp;
    let before_ram = m.ram.clone();
    let io = execute_instruction(&mut m);
    assert_eq!(io.result, StepResult::Continue);
    assert_eq!(m.sp, before_sp);
    assert_eq!(m.ram, before_ram);
    assert_eq!(m.pc, 4);
}

#[test]
fn unknown_binary_subopcode_never_faults() {
    let mut m = boot(&[0x2A000000]);
    let io = execute_instruction(&mut m);
    assert_eq!(io.result, StepResult::Continue);
    assert_eq!(m.sp, RAM_SIZE);
    assert_eq!(m.pc, 4);
}

#[test]
fn unknown_unary_subopcode_is_a_no_op() {
    let mut m = boot(&[0x35000000]);
    push(&mut m.sp, &mut m.ram, 7);
    let before_sp = m.sp;
    let io = execute_instruction(&mut m);
    assert_eq!(io.result, StepResult::Continue);
    assert_eq!(m.sp, before_sp);
    assert_eq!(read_u32(&m.ram, m.sp), 7);
    let mut empty = boot(&[0x35000000]);
    assert_eq!(execute_instruction(&mut empty).result, StepResult::Continue);
    assert_eq!(empty.sp, RAM_SIZE);
}

#[test]
fn binary_on_empty_stack_halts() {
    let mut m = boot(&[0x20000000]);
    let io = execute_instruction(&mut m);
    assert_eq!(io.result, StepResult::Halt);
}

#[test]
fn negate_and_complement() {
    let mut m = boot(&[0x30000000, 0x31000000]);
    push(&mut m.sp, &mut m.ram, 5);
    execute_instruction(&mut m);
    assert_eq!(top(&m) as i32, -5);
    execute_instruction(&mut m);
    assert_eq!(top(&m), 4);
}

#[test]
fn push_immediate_is_not_sign_extended() {
    let mut m = boot(&[0xF800000F]);
    let io = execute_instruction(&mut m);
    assert_eq!(io.result, StepResult::Continue);
    assert_eq!(top(&m), 0x0800000F);
}

#[test]
fn decimal_print_of_123() {
    let mut m = boot(&[0xF000007B, 0xD0000000]);
    execute_instruction(&mut m);
    let io = execute_instruction(&mut m);
    assert_eq!(io.result, StepResult::Continue);
    assert_eq!(io.out, b"123\n".to_vec());
}

#[test]
fn formatted_prints() {
    let mut m = boot(&[0xF000007B, 0xD0000001, 0xD0000002, 0xD0000003]);
    execute_instruction(&mut m);
    assert_eq!(execute_instruction(&mut m).out, b"0x7B\n".to_vec());
    assert_eq!(execute_instruction(&mut m).out, b"0b1111011\n".to_vec());
    assert_eq!(execute_instruction(&mut m).out, b"0o173\n".to_vec());
}

#[test]
fn negative_decimal_print() {
    let mut m = boot(&[0xD0000000]);
    push(&mut m.sp, &mut m.ram, (-1i32) as u32);
    assert_eq!(execute_instruction(&mut m).out, b"-1\n".to_vec());
}

#[test]
fn goto_out_of_range_halts_and_preserves_memory() {
    let mut m = boot(&[0x78000000]);
    let before = m.ram.clone();
    let io = execute_instruction(&mut m);
    assert_eq!(io.result, StepResult::Halt);
    assert_eq!(m.ram, before);
    assert_eq!(m.sp, RAM_SIZE);
    assert_eq!(io.err, b"Invalid goto offset: jumping to 0xF8000000\n".to_vec());
}

#[test]
fn goto_in_range_jumps() {
    let mut m = boot(&[0x70000008]);
    let io = execute_instruction(&mut m);
    assert_eq!(io.result, StepResult::Continue);
    assert_eq!(m.pc, 8);
}

#[test]
fn call_then_return_restores_pc() {
    let mut m = boot(&[0x50000008, 0x00000000, 0x60000000]);
    let io = execute_instruction(&mut m);
    assert_eq!(io.result, StepResult::Continue);
    assert_eq!(m.pc, 8);
    assert_eq!(m.sp, RAM_SIZE - 4);
    assert_eq!(top(&m), 4);
    let io2 = execute_instruction(&mut m);
    assert_eq!(io2.result, StepResult::Continue);
    assert_eq!(m.pc, 4);
    assert_eq!(m.sp, RAM_SIZE);
}

#[test]
fn call_out_of_range_halts_with_diagnostic() {
    let mut m = boot(&[0x58000000]);
    let io = execute_instruction(&mut m);
    assert_eq!(io.result, StepResult::Halt);
    assert_eq!(io.err, b"Invalid call offset: jumping to 0xF8000000\n".to_vec());
    // the return address was pushed before the target check
    assert_eq!(m.sp, RAM_SIZE - 4);
    assert_eq!(top(&m), 4);
}

#[test]
fn dump_on_empty_stack_prints_nothing() {
    let mut m = boot(&[0xE0000000]);
    let io = execute_instruction(&mut m);
    assert_eq!(io.result, StepResult::Continue);
    assert!(io.out.is_empty());
}

#[test]
fn dump_prints_offset_value_lines() {
    let mut m = boot(&[0xE0000000]);
    push(&mut m.sp, &mut m.ram, 0xDEADBEEF);
    push(&mut m.sp, &mut m.ram, 0x1);
    let io = execute_instruction(&mut m);
    assert_eq!(io.out, b"0000: 00000001\n0004: deadbeef\n".to_vec());
}

#[test]
fn swap_exchanges_stack_words() {
    let mut m = boot(&[0x01000001]);
    push(&mut m.sp, &mut m.ram, 0xAAAA);
    push(&mut m.sp, &mut m.ram, 0xBBBB);
    let io = execute_instruction(&mut m);
    assert_eq!(io.result, StepResult::Continue);
    assert_eq!(read_u32(&m.ram, m.sp), 0xAAAA);
    assert_eq!(read_u32(&m.ram, m.sp + 4), 0xBBBB);
}

#[test]
fn swap_out_of_bounds_is_a_no_op() {
    let mut m = boot(&[0x01800001]);
    push(&mut m.sp, &mut m.ram, 0xAAAA);
    push(&mut m.sp, &mut m.ram, 0xBBBB);
    let io = execute_instruction(&mut m);
    assert_eq!(io.result, StepResult::Continue);
    assert_eq!(read_u32(&m.ram, m.sp), 0xBBBB);
    assert_eq!(read_u32(&m.ram, m.sp + 4), 0xAAAA);
}

#[test]
fn exit_reports_signed_low_byte() {
    let mut m = boot(&[0x000000FF]);
    let io = execute_instruction(&mut m);
    assert_eq!(io.result, StepResult::Exit(-1));
    let mut m2 = boot(&[0x0000007F]);
    let io2 = execute_instruction(&mut m2);
    assert_eq!(io2.result, StepResult::Exit(127));
}

#[test]
fn unknown_misc_subcode_halts() {
    let mut m = boot(&[0x02000000]);
    let io = execute_instruction(&mut m);
    assert_eq!(io.result, StepResult::Halt);
}

#[test]
fn unknown_top_opcode_is_a_no_op() {
    let mut m = boot(&[0xA0000000, 0xC0000000]);
    assert_eq!(execute_instruction(&mut m).result, StepResult::Continue);
    assert_eq!(execute_instruction(&mut m).result, StepResult::Continue);
    assert_eq!(m.pc, 8);
    assert_eq!(m.sp, RAM_SIZE);
}

#[test]
fn fetch_off_the_end_halts() {
    let mut m = boot(&[]);
    m.pc = RAM_SIZE - 2;
    let io = execute_instruction(&mut m);
    assert_eq!(io.result, StepResult::Halt);
}

#[test]
fn debug_reports_value_pc_sp() {
    let mut m = boot(&[0x0F00002A]);
    let io = execute_instruction(&mut m);
    assert_eq!(io.result, StepResult::Continue);
    assert_eq!(io.err, b"DEBUG Value=42, PC=4, SP=4096\n".to_vec());
}

#[test]
fn pop_discards_bytes_and_clamps() {
    let mut m = boot(&[0x10000008, 0x10000000, 0x1FFFFFFF]);
    push(&mut m.sp, &mut m.ram, 1);
    push(&mut m.sp, &mut m.ram, 2);
    push(&mut m.sp, &mut m.ram, 3);
    push(&mut m.sp, &mut m.ram, 4);
    execute_instruction(&mut m);
    assert_eq!(m.sp, RAM_SIZE - 8);
    execute_instruction(&mut m);
    assert_eq!(m.sp, RAM_SIZE - 4);
    execute_instruction(&mut m);
    assert_eq!(m.sp, RAM_SIZE);
}

#[test]
fn dup_pushes_relative_word() {
    let mut m = boot(&[0xB0000004]);
    push(&mut m.sp, &mut m.ram, 0x111);
    push(&mut m.sp, &mut m.ram, 0x222);
    let io = execute_instruction(&mut m);
    assert_eq!(io.result, StepResult::Continue);
    assert_eq!(top(&m), 0x111);
}

#[test]
fn binary_jump_peeks_without_popping() {
    let mut m = boot(&[0x8400000C]);
    push(&mut m.sp, &mut m.ram, 1);
    push(&mut m.sp, &mut m.ram, 2);
    let io = execute_instruction(&mut m);
    assert_eq!(io.result, StepResult::Continue);
    assert_eq!(m.pc, 12);
    assert_eq!(m.sp, RAM_SIZE - 8);
    assert_eq!(top(&m), 2);
}

#[test]
fn binary_jump_not_taken_continues() {
    let mut m = boot(&[0x8000000C]);
    push(&mut m.sp, &mut m.ram, 1);
    push(&mut m.sp, &mut m.ram, 2);
    let io = execute_instruction(&mut m);
    assert_eq!(io.result, StepResult::Continue);
    assert_eq!(m.pc, 4);
}

#[test]
fn unary_jump_on_zero() {
    let mut m = boot(&[0x90000002]);
    push(&mut m.sp, &mut m.ram, 0);
    let io = execute_instruction(&mut m);
    assert_eq!(io.result, StepResult::Continue);
    assert_eq!(m.pc, 8);
    assert_eq!(m.sp, RAM_SIZE - 4);
}

#[test]
fn unary_jump_fault_reports_target() {
    let mut m = boot(&[0x92800000]);
    push(&mut m.sp, &mut m.ram, 0x80000000);
    let io = execute_instruction(&mut m);
    assert_eq!(io.result, StepResult::Halt);
    assert_eq!(io.err, b"Invalid jump to 0xFE000000\n".to_vec());
}

#[test]
fn string_print_stops_at_zero_and_skips_filler() {
    let mut m = boot(&[0x40000000]);
    push(&mut m.sp, &mut m.ram, 0x00454443);
    push(&mut m.sp, &mut m.ram, 0x01014241);
    let io = execute_instruction(&mut m);
    assert_eq!(io.result, StepResult::Continue);
    assert_eq!(io.out, b"ABCDE".to_vec());
}

#[test]
fn input_request_prompts() {
    let mut m = boot(&[0x04000000]);
    let io = execute_instruction(&mut m);
    assert_eq!(io.result, StepResult::Input);
    assert_eq!(io.out, b"> ".to_vec());
}

#[test]
fn apply_input_parses_and_pushes() {
    let mut m = boot(&[]);
    let r = apply_input(&mut m, b" 0x10 \n");
    assert_eq!(r, StepResult::Continue);
    assert_eq!(top(&m), 16);
}

#[test]
fn parse_line_forms() {
    assert_eq!(parse_input_line(b"123"), 123);
    assert_eq!(parse_input_line(b"+42"), 42);
    assert_eq!(parse_input_line(b"-5"), (-5i32) as u32);
    assert_eq!(parse_input_line(b"0x1F"), 31);
    assert_eq!(parse_input_line(b"0XFF"), 255);
    assert_eq!(parse_input_line(b"0b101"), 5);
    assert_eq!(parse_input_line(b"0B11"), 3);
    assert_eq!(parse_input_line(b"junk"), 0);
    assert_eq!(parse_input_line(b""), 0);
    assert_eq!(parse_input_line(b"2147483647"), 0x7FFFFFFF);
    assert_eq!(parse_input_line(b"2147483648"), 0);
    assert_eq!(parse_input_line(b"-2147483648"), 0x80000000);
    assert_eq!(parse_input_line(b"-2147483649"), 0);
    assert_eq!(parse_input_line(b"0xFFFFFFFF"), 0xFFFFFFFF);
    assert_eq!(parse_input_line(b"0x100000000"), 0);
    assert_eq!(parse_input_line(b"99999999999999999999"), 0);
    assert_eq!(parse_input_line(b"0x"), 0);
    assert_eq!(parse_input_line(b"12a"), 0);
}

#[test]
fn string_input_request_carries_limit() {
    let mut m = boot(&[0x05000050]);
    let io = execute_instruction(&mut m);
    assert_eq!(io.result, StepResult::StrInput(0x50));
}

#[test]
fn apply_str_input_packs_backward() {
    let mut m = boot(&[]);
    let r = apply_str_input(&mut m, b"ABCDE\n", 80);
    assert_eq!(r, StepResult::Continue);
    assert_eq!(m.sp, RAM_SIZE - 8);
    assert_eq!(read_u32(&m.ram, m.sp), 0x01014241);
    assert_eq!(read_u32(&m.ram, m.sp + 4), 0x00454443);
}

#[test]
fn apply_str_input_truncates_to_limit() {
    let mut m = boot(&[]);
    let r = apply_str_input(&mut m, b"ABCDE", 3);
    assert_eq!(r, StepResult::Continue);
    assert_eq!(m.sp, RAM_SIZE - 4);
    assert_eq!(read_u32(&m.ram, m.sp), 0x00434241);
}

#[test]
fn string_input_then_print_round_trip() {
    let mut m = boot(&[0x40000000]);
    apply_str_input(&mut m, b"Hello!", 100);
    let io = execute_instruction(&mut m);
    assert_eq!(io.out, b"Hello!".to_vec());
}

#[test]
fn binary_jump_fault_reports_target() {
    let mut m = boot(&[0x84800000]);
    push(&mut m.sp, &mut m.ram, 5);
    push(&mut m.sp, &mut m.ram, 9);
    let io = execute_instruction(&mut m);
    assert_eq!(io.result, StepResult::Halt);
    assert_eq!(io.err, b"Invalid if<cond> jump to 0x800000\n".to_vec());
}

#[test]
fn binary_jump_left_out_of_bounds_reads_zero() {
    let mut m = boot(&[0x80000008]);
    push(&mut m.sp, &mut m.ram, 0);
    let io = execute_instruction(&mut m);
    assert_eq!(io.result, StepResult::Continue);
    assert_eq!(m.pc, 8);
}

#[test]
fn return_to_out_of_range_address_halts() {
    let mut m = boot(&[0x60000000]);
    push(&mut m.sp, &mut m.ram, 0x12345678);
    let io = execute_instruction(&mut m);
    assert_eq!(io.result, StepResult::Halt);
}

#[test]
fn return_discards_frame_bytes() {
    let mut m = boot(&[0x60000008]);
    push(&mut m.sp, &mut m.ram, 44);
    push(&mut m.sp, &mut m.ram, 1);
    push(&mut m.sp, &mut m.ram, 2);
    let io = execute_instruction(&mut m);
    assert_eq!(io.result, StepResult::Continue);
    assert_eq!(m.pc, 44);
    assert_eq!(m.sp, RAM_SIZE);
}

#[test]
fn dup_out_of_bounds_halts() {
    let mut m = boot(&[0xB8000000]);
    push(&mut m.sp, &mut m.ram, 1);
    let io = execute_instruction(&mut m);
    assert_eq!(io.result, StepResult::Halt);
}

#[test]
fn print_out_of_bounds_halts() {
    let mut m = boot(&[0xD0000000]);
    let io = execute_instruction(&mut m);
    assert_eq!(io.result, StepResult::Halt);
}

#[test]
fn push_onto_full_stack_halts() {
    let mut m = boot(&[0xF0000001]);
    m.sp = 0;
    let io = execute_instruction(&mut m);
    assert_eq!(io.result, StepResult::Halt);
}

#[test]
fn unary_on_empty_stack_halts() {
    let mut m = boot(&[0x30000000]);
    let io = execute_instruction(&mut m);
    assert_eq!(io.result, StepResult::Halt);
}

#[test]
fn apply_input_on_full_stack_halts() {
    let mut m = boot(&[]);
    m.sp = 2;
    let r = apply_input(&mut m, b"1");
    assert_eq!(r, StepResult::Halt);
    assert_eq!(m.sp, 2);
}

#[test]
fn apply_str_input_halts_when_stack_fills() {
    let mut m = boot(&[]);
    m.sp = 4;
    let r = apply_str_input(&mut m, b"ABCDEFGH", 100);
    assert_eq!(r, StepResult::Halt);
    assert_eq!(m.sp, 0);
    // the one word that fit holds the tail of the text, flagged last
    assert_eq!(read_u32(&m.ram, 0), 0x00484746);
}

#[test]
fn apply_str_input_empty_line_pushes_nothing() {
    let mut m = boot(&[]);
    let r = apply_str_input(&mut m, b"   \n", 100);
    assert_eq!(r, StepResult::Continue);
    assert_eq!(m.sp, RAM_SIZE);
}

#[test]
fn debug_of_large_value() {
    let mut m = boot(&[0x0FFFFFFF]);
    let io = execute_instruction(&mut m);
    assert_eq!(io.result, StepResult::Continue);
    assert_eq!(io.err, b"DEBUG Value=16777215, PC=4, SP=4096\n".to_vec());
}

#[test]
fn string_print_encodes_high_bytes_as_characters() {
    let mut m = boot(&[0x40000000]);
    push(&mut m.sp, &mut m.ram, 0x000000E9);
    let io = execute_instruction(&mut m);
    assert_eq!(io.out, vec![0xC3, 0xA9]);
}
