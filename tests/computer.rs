use lc3_vm::computer::Computer;
use lc3_vm::constants::{
    CONDNEGATIVE, CONDPOSITIVE, CONDZERO, MRKBDR, MRKBSR, R0, R1, R2, R7, RCOND, RPC,
};
use lc3_vm::machine::{StepOutcome, VmError};

fn program(words: &[u16]) -> Computer {
    let mut c = Computer::new(false);
    let mut image = vec![0x3000];
    image.extend_from_slice(words);
    assert_eq!(c.init_memory(image), Ok(()));
    c.start();
    c
}

#[test]
fn test_sign_extend_positive() {
    let c = Computer::new(false);
    assert_eq!(
        c.sign_extend_to_16_bits(0b0000_0000_0000_0100, 5),
        0b0000_0000_0000_0100
    );
}

#[test]
fn test_sign_extend_negative() {
    let c = Computer::new(false);
    assert_eq!(
        c.sign_extend_to_16_bits(0b0000_0000_0001_0100, 5),
        0b1111_1111_1111_0100
    );
}

#[test]
fn sign_extend_other_widths() {
    let c = Computer::new(false);
    assert_eq!(c.sign_extend_to_16_bits(0x1FF, 9), 0xFFFF);
    assert_eq!(c.sign_extend_to_16_bits(0x0FF, 9), 0x00FF);
    assert_eq!(c.sign_extend_to_16_bits(0x400, 11), 0xFC00);
    assert_eq!(c.sign_extend_to_16_bits(0x20, 6), 0xFFE0);
    assert_eq!(c.sign_extend_to_16_bits(0x8000, 16), 0x8000);
}

#[test]
fn new_machine_is_zero_filled() {
    let c = Computer::new(true);
    assert!(c.is_running());
    assert!(c.debug_mode());
    for r in 0..10 {
        assert_eq!(c.register(r), 0);
    }
    assert_eq!(c.memory_at(0), 0);
    assert_eq!(c.memory_at(0x3000), 0);
    assert_eq!(c.memory_at(0xFFFF), 0);
}

#[test]
fn start_points_at_default_address_and_keeps_the_rest() {
    let mut c = Computer::new(false);
    assert_eq!(c.init_memory(vec![0x3000, 0xF025]), Ok(()));
    c.set_register(R1, 9);
    assert_eq!(c.register(RPC), 0);
    c.start();
    assert_eq!(c.register(RPC), 0x3000);
    assert_eq!(c.register(R1), 9);
    assert_eq!(c.memory_at(0x3000), 0xF025);
    assert!(c.is_running());
}

#[test]
fn update_flags_sets_exactly_one_flag() {
    let mut c = Computer::new(false);
    for (v, flag) in [
        (0u16, CONDZERO),
        (1, CONDPOSITIVE),
        (0x7FFF, CONDPOSITIVE),
        (0x8000, CONDNEGATIVE),
        (0xFFFF, CONDNEGATIVE),
    ] {
        c.update_flags(v);
        assert_eq!(c.register(RCOND), flag);
    }
    assert!(c.is_negative(0x8000));
    assert!(!c.is_negative(0x7FFF));
}

#[test]
fn add_immediate_negative_operand() {
    // ADD R0, R1, #-3
    let mut c = program(&[0b0001_000_001_1_11101]);
    c.set_register(R1, 5);
    assert_eq!(c.step(), Ok(StepOutcome::Running));
    assert_eq!(c.register(R0), 2);
    assert_eq!(c.register(RCOND), CONDPOSITIVE);
    assert_eq!(c.register(RPC), 0x3001);
}

#[test]
fn add_register_wraps_around() {
    // ADD R0, R1, R2
    let mut c = program(&[0b0001_000_001_0_00_010]);
    c.set_register(R1, 0xFFFF);
    c.set_register(R2, 1);
    assert_eq!(c.step(), Ok(StepOutcome::Running));
    assert_eq!(c.register(R0), 0);
    assert_eq!(c.register(RCOND), CONDZERO);
}

#[test]
fn and_register_mode() {
    // AND R0, R1, R2
    let mut c = program(&[0b0101_000_001_0_00_010]);
    c.set_register(R1, 0b1010);
    c.set_register(R2, 0b0110);
    assert_eq!(c.step(), Ok(StepOutcome::Running));
    assert_eq!(c.register(R0), 0b0010);
    assert_eq!(c.register(RCOND), CONDPOSITIVE);
}

#[test]
fn not_complements_and_flags_negative() {
    // NOT R0, R1
    let mut c = program(&[0b1001_000_001_111111]);
    c.set_register(R1, 0x00F0);
    assert_eq!(c.step(), Ok(StepOutcome::Running));
    assert_eq!(c.register(R0), 0xFF0F);
    assert_eq!(c.register(RCOND), CONDNEGATIVE);
}

#[test]
fn branch_taken_counts_from_the_next_word() {
    // BRz #5
    let mut c = program(&[0b0000_010_000000101]);
    c.set_register(RCOND, CONDZERO);
    assert_eq!(c.step(), Ok(StepOutcome::Running));
    assert_eq!(c.register(RPC), 0x3006);
}

#[test]
fn branch_not_taken_on_other_flag() {
    // BRn #5
    let mut c = program(&[0b0000_100_000000101]);
    c.set_register(RCOND, CONDZERO);
    assert_eq!(c.step(), Ok(StepOutcome::Running));
    assert_eq!(c.register(RPC), 0x3001);
}

#[test]
fn branch_backwards() {
    // BRnzp #-2
    let mut c = program(&[0b0000_111_111111110]);
    c.set_register(RCOND, CONDPOSITIVE);
    assert_eq!(c.step(), Ok(StepOutcome::Running));
    assert_eq!(c.register(RPC), 0x2FFF);
}

#[test]
fn load_indirect_through_pointer() {
    // LDI R3, #1
    let mut c = program(&[0b1010_011_000000001]);
    c.write_mem(0x3002, 0x4000);
    c.write_mem(0x4000, 0x1234);
    assert_eq!(c.step(), Ok(StepOutcome::Running));
    assert_eq!(c.register(3), 0x1234);
    assert_eq!(c.register(RCOND), CONDPOSITIVE);
}

#[test]
fn load_and_load_register_and_effective_address() {
    // LD R1, #2 ; LDR R2, R1, #-1 ; LEA R4, #-3
    let mut c = program(&[0b0010_001_000000010, 0b0110_010_001_111111, 0b1110_100_111111101]);
    c.write_mem(0x3003, 0x5001);
    c.write_mem(0x5000, 0xFFFE);
    assert_eq!(c.run(3), Ok(StepOutcome::Running));
    assert_eq!(c.register(R1), 0x5001);
    assert_eq!(c.register(R2), 0xFFFE);
    assert_eq!(c.register(4), 0x3000);
    assert_eq!(c.register(RCOND), CONDPOSITIVE);
}

#[test]
fn stores_write_memory() {
    // ST R1, #5 ; STR R1, R2, #-1 ; STI R1, #4
    let mut c = program(&[0b0011_001_000000101, 0b0111_001_010_111111, 0b1011_001_000000100]);
    c.set_register(R1, 0xABCD);
    c.set_register(R2, 0x4001);
    c.write_mem(0x3007, 0x6000);
    assert_eq!(c.run(3), Ok(StepOutcome::Running));
    assert_eq!(c.memory_at(0x3006), 0xABCD);
    assert_eq!(c.memory_at(0x3007), 0x6000);
    assert_eq!(c.memory_at(0x4000), 0xABCD);
    assert_eq!(c.memory_at(0x6000), 0xABCD);
}

#[test]
fn store_near_program_counter() {
    // ST R1, #5
    let mut c = program(&[0b0011_001_000000101]);
    c.set_register(R1, 0xABCD);
    assert_eq!(c.step(), Ok(StepOutcome::Running));
    assert_eq!(c.memory_at(0x3006), 0xABCD);
}

#[test]
fn jumps_and_subroutines() {
    // JSR #4 (bit 11 clear) ; at 0x3005: JSR through R2 (bit 11 set) ; at 0x4000: JMP R7
    let mut c = program(&[0b0100_0_00000000100]);
    c.write_mem(0x3005, 0b0100_1_00_010_000000);
    c.write_mem(0x4000, 0b1100_000_111_000000);
    c.set_register(R2, 0x4000);
    assert_eq!(c.step(), Ok(StepOutcome::Running));
    assert_eq!(c.register(RPC), 0x3005);
    assert_eq!(c.register(R7), 0x3001);
    assert_eq!(c.step(), Ok(StepOutcome::Running));
    assert_eq!(c.register(RPC), 0x4000);
    assert_eq!(c.register(R7), 0x3006);
    assert_eq!(c.step(), Ok(StepOutcome::Running));
    assert_eq!(c.register(RPC), 0x3006);
}

#[test]
fn puts_writes_until_the_zero_word() {
    // TRAP x22
    let mut c = program(&[0xF022]);
    c.set_register(R0, 0x4000);
    c.write_mem(0x4000, 'H' as u16);
    c.write_mem(0x4001, 'I' as u16);
    c.write_mem(0x4002, 0);
    c.write_mem(0x4003, 'X' as u16);
    assert_eq!(c.step(), Ok(StepOutcome::Running));
    assert_eq!(c.take_output(), b"HI".to_vec());
    assert_eq!(c.take_output(), Vec::<u8>::new());
    assert_eq!(c.register(R7), 0x3001);
}

#[test]
fn puts_stops_at_the_end_of_memory() {
    let mut c = program(&[0xF022]);
    c.set_register(R0, 0xFFFF);
    c.write_mem(0xFFFF, 0x141);
    assert_eq!(c.step(), Ok(StepOutcome::Running));
    assert_eq!(c.take_output(), b"A".to_vec());
}

#[test]
fn out_writes_the_low_byte() {
    // TRAP x21
    let mut c = program(&[0xF021]);
    c.set_register(R0, 0x0142);
    assert_eq!(c.step(), Ok(StepOutcome::Running));
    assert_eq!(c.take_output(), b"B".to_vec());
}

#[test]
fn getc_waits_for_input_then_takes_it() {
    // TRAP x20
    let mut c = program(&[0xF020]);
    assert_eq!(c.step(), Ok(StepOutcome::NeedsInput));
    assert_eq!(c.register(RPC), 0x3000);
    assert_eq!(c.register(R7), 0);
    c.push_input(b'q');
    c.push_input(b'r');
    assert_eq!(c.step(), Ok(StepOutcome::Running));
    assert_eq!(c.register(R0), b'q' as u16);
    assert_eq!(c.register(R7), 0x3001);
    assert_eq!(c.take_output(), Vec::<u8>::new());
}

#[test]
fn keyboard_status_poll() {
    // LDI R1, #1 (pointer to the status register) ; LD R2, #1 ... uses data register
    let mut c = program(&[0b1010_001_000000001, 0b1010_010_000000001]);
    c.write_mem(0x3002, MRKBSR as u16);
    c.write_mem(0x3003, MRKBSR as u16);
    c.push_input(b'k');
    assert_eq!(c.step(), Ok(StepOutcome::Running));
    assert_eq!(c.register(R1), 0x8000);
    assert_eq!(c.register(RCOND), CONDNEGATIVE);
    assert_eq!(c.memory_at(MRKBDR), b'k' as u16);
    assert_eq!(c.step(), Ok(StepOutcome::Running));
    assert_eq!(c.register(R2), 0);
    assert_eq!(c.register(RCOND), CONDZERO);
}

#[test]
fn read_mem_polls_only_the_status_address() {
    let mut c = Computer::new(false);
    c.push_input(b'z');
    c.write_mem(0x1234, 9);
    assert_eq!(c.read_mem(0x1234), 9);
    assert_eq!(c.read_mem(MRKBDR), 0);
    assert_eq!(c.read_mem(MRKBSR), 0x8000);
    assert_eq!(c.read_mem(MRKBDR), b'z' as u16);
    assert_eq!(c.read_mem(MRKBSR), 0);
}

#[test]
fn halt_trap_stops_the_machine() {
    let mut c = program(&[0xF025, 0b0001_000_000_1_00001]);
    assert_eq!(c.run(10), Ok(StepOutcome::Halted));
    assert!(!c.is_running());
    assert_eq!(c.register(RPC), 0x3001);
    assert_eq!(c.step(), Ok(StepOutcome::Halted));
    assert_eq!(c.register(RPC), 0x3001);
    assert_eq!(c.register(R0), 0);
}

#[test]
fn zero_word_halts_gracefully() {
    let mut c = program(&[0b0001_000_000_1_00001, 0]);
    assert_eq!(c.run(10), Ok(StepOutcome::Halted));
    assert_eq!(c.register(R0), 1);
    assert_eq!(c.register(RPC), 0x3002);
}

#[test]
fn reserved_opcode_is_a_fatal_error() {
    let mut c = program(&[0xD000]);
    c.set_register(R1, 77);
    assert_eq!(c.step(), Err(VmError::UnimplementedOpcode(13)));
    assert!(!c.is_running());
    assert_eq!(c.register(R1), 77);
    assert_eq!(c.register(RCOND), 0);
}

#[test]
fn return_from_interrupt_is_a_fatal_error() {
    let mut c = program(&[0x8000]);
    assert_eq!(c.run(5), Err(VmError::UnimplementedOpcode(8)));
}

#[test]
fn unknown_and_unimplemented_traps_are_fatal() {
    let mut c = program(&[0xF023]);
    assert_eq!(c.step(), Err(VmError::UnknownTrapVector(0x23)));
    let mut c = program(&[0xF024]);
    assert_eq!(c.step(), Err(VmError::UnknownTrapVector(0x24)));
    let mut c = program(&[0xF0FF]);
    assert_eq!(c.step(), Err(VmError::UnknownTrapVector(0xFF)));
    assert!(!c.is_running());
}

#[test]
fn run_stops_when_input_is_needed() {
    // ADD R0, R0, #1 ; GETC ; OUT
    let mut c = program(&[0b0001_000_000_1_00001, 0xF020, 0xF021, 0xF025]);
    assert_eq!(c.run(100), Ok(StepOutcome::NeedsInput));
    assert_eq!(c.register(RPC), 0x3001);
    c.push_input(b'x');
    assert_eq!(c.run(100), Ok(StepOutcome::Halted));
    assert_eq!(c.take_output(), b"x".to_vec());
}

#[test]
fn run_with_no_budget_changes_nothing() {
    let mut c = program(&[0xF025]);
    assert_eq!(c.run(0), Ok(StepOutcome::Running));
    assert!(c.is_running());
    assert_eq!(c.register(RPC), 0x3000);
}
