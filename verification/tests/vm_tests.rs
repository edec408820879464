use iridium::assembler::Assembler;
use iridium::vm::{VMError, VM};

fn get_test_vm() -> VM {
    let mut test_vm = VM::new();
    test_vm.registers[0] = 5;
    test_vm.registers[1] = 10;
    test_vm
}

/// A 64-byte header followed by the given code bytes.
fn with_header(code: Vec<u8>) -> Vec<u8> {
    let mut image = vec![0x2D, 0x32, 0x31, 0x2D];
    while image.len() < 64 {
        image.push(0);
    }
    image.extend(code);
    image
}

#[test]
fn test_new_vm() {
    let vm = VM::new();
    assert_eq!(vm.registers[0], 0)
}

#[test]
fn test_opcode_hlt() {
    let mut test_vm = VM::new();
    let test_bytes = vec![6, 0, 0, 0];
    test_vm.program = test_bytes;
    test_vm.run_once();
    assert_eq!(test_vm.counter, 1);
}

#[test]
fn test_opcode_igl() {
    let mut test_vm = VM::new();
    let test_bytes = vec![200, 0, 0, 0];
    test_vm.program = test_bytes;
    test_vm.run_once();
    assert_eq!(test_vm.counter, 1);
}

#[test]
fn test_load_opcode() {
    let mut test_vm = get_test_vm();
    test_vm.program = with_header(vec![0, 0, 1, 244]);
    test_vm.run();
    assert_eq!(test_vm.registers[0], 500);
}

#[test]
fn test_add_opcode() {
    let mut test_vm = get_test_vm();
    test_vm.program = with_header(vec![1, 0, 1, 2]);
    test_vm.run();
    assert_eq!(test_vm.registers[2], 15);
}

#[test]
fn test_jmp_opcode() {
    let mut test_vm = get_test_vm();
    test_vm.registers[0] = 4;
    test_vm.program = vec![7, 0, 0, 0];
    test_vm.run_once();
    assert_eq!(test_vm.counter, 4);
}

#[test]
fn test_bad_header_rejected() {
    let mut vm = VM::new();
    vm.program = vec![0, 0, 1, 244];
    let code = vm.run();
    assert_eq!(code, 1);
    assert_eq!(vm.last_error, Some(VMError::HeaderInvalid));
    assert_eq!(vm.registers[0], 0);
}

#[test]
fn test_register_index_out_of_range() {
    let mut vm = VM::new();
    vm.program = with_header(vec![0, 40, 1, 244]);
    let code = vm.run();
    assert_eq!(code, 1);
    assert_eq!(vm.last_error, Some(VMError::RegisterIndexOutOfRange));
}

#[test]
fn test_comparison_and_jmpe() {
    let mut vm = VM::new();
    vm.registers[0] = 7;
    vm.registers[1] = 7;
    vm.registers[2] = 76;
    // eq $0 $1; jmpe $2; load $3 #1 (skipped); hlt
    vm.program = with_header(vec![8, 0, 1, 0, 14, 2, 0, 0, 0, 3, 0, 1, 6, 0, 0, 0]);
    let code = vm.run();
    assert_eq!(code, 0);
    assert_eq!(vm.equal_flag, true);
    assert_eq!(vm.registers[3], 0);
}

#[test]
fn test_aloc_grows_heap() {
    let mut vm = VM::new();
    vm.registers[0] = 1024;
    vm.program = vec![17, 0, 0, 0];
    vm.run_once();
    assert_eq!(vm.heap.len(), 1024);
}

#[test]
fn test_sub_and_mul_opcodes() {
    let mut vm = get_test_vm();
    // sub $1 $0 $2; mul $0 $1 $3; hlt
    vm.program = with_header(vec![2, 1, 0, 2, 3, 0, 1, 3, 6, 0, 0, 0]);
    let code = vm.run();
    assert_eq!(code, 0);
    assert_eq!(vm.registers[2], 5);
    assert_eq!(vm.registers[3], 50);
}

#[test]
fn test_div_sets_remainder() {
    let mut vm = VM::new();
    vm.registers[0] = 7;
    vm.registers[1] = 2;
    vm.program = with_header(vec![4, 0, 1, 2, 6, 0, 0, 0]);
    let code = vm.run();
    assert_eq!(code, 0);
    assert_eq!(vm.registers[2], 3);
    assert_eq!(vm.remainder, 1);
}

#[test]
fn test_run_past_end_returns_zero() {
    let mut vm = VM::new();
    vm.program = with_header(vec![15, 0, 0, 0]);
    let code = vm.run();
    assert_eq!(code, 0);
    assert_eq!(vm.counter, 68);
}

#[test]
fn scenario_minimal_load() {
    let mut assembler = Assembler::new();
    let image = assembler.assemble(".data\n.code\nload $0 #500\nhlt\n").unwrap();
    let mut vm = VM::new();
    vm.add_bytes(image);
    let code = vm.run();
    assert_eq!(vm.registers[0], 500);
    assert_eq!(code, 0);
}

#[test]
fn scenario_add() {
    let mut assembler = Assembler::new();
    let image = assembler
        .assemble(".data\n.code\nload $0 #5\nload $1 #10\nadd $0 $1 $2\nhlt\n")
        .unwrap();
    let mut vm = VM::new();
    vm.add_bytes(image);
    let code = vm.run();
    assert_eq!(vm.registers[2], 15);
    assert_eq!(code, 0);
}

#[test]
fn scenario_unconditional_jump() {
    let mut assembler = Assembler::new();
    let image = assembler
        .assemble(".data\n.code\nload $0 #72\njmp $0\nhlt\n")
        .unwrap();
    let mut vm = VM::new();
    vm.add_bytes(image);
    let code = vm.run();
    // The jump lands on the `hlt` at byte 72 = 64 + 2 * 4.
    assert_eq!(code, 0);
    assert_eq!(vm.registers[0], 72);
    assert_eq!(vm.counter, 73);
}

#[test]
fn scenario_string_print() {
    let mut assembler = Assembler::new();
    let image = assembler
        .assemble(".data\nhello: .asciiz 'Hi!'\n.code\nprts @hello\nhlt\n")
        .unwrap();
    assert_eq!(assembler.ro, vec![0x48, 0x69, 0x21, 0x00]);
    let mut vm = VM::new();
    vm.add_bytes(image);
    vm.set_ro_data(assembler.ro.clone());
    let code = vm.run();
    assert_eq!(code, 0);
    assert_eq!(vm.output, b"Hi!".to_vec());
}

#[test]
fn scenario_division_by_zero() {
    let mut assembler = Assembler::new();
    let image = assembler
        .assemble(".data\n.code\nload $0 #10\nload $1 #0\ndiv $0 $1 $2\nhlt\n")
        .unwrap();
    let mut vm = VM::new();
    vm.add_bytes(image);
    let code = vm.run();
    assert_ne!(code, 0);
    assert_eq!(vm.last_error, Some(VMError::DivideByZero));
}

#[test]
fn test_prts_missing_nul_is_error() {
    let mut vm = VM::new();
    vm.set_ro_data(vec![0x41, 0x42]);
    vm.program = with_header(vec![18, 0, 0, 0, 6, 0, 0, 0]);
    let code = vm.run();
    assert_eq!(code, 1);
    assert_eq!(vm.last_error, Some(VMError::ReadOnlyOutOfRange));
}

#[test]
fn test_add_byte_appends_to_program() {
    let mut vm = VM::new();
    vm.add_byte(6);
    vm.add_byte(0);
    assert_eq!(vm.program, vec![6, 0]);
}

#[test]
fn test_step_reports_halt() {
    let mut vm = VM::new();
    vm.program = vec![15, 0, 0, 0, 6, 0, 0, 0];
    assert_eq!(vm.step(), false);
    assert_eq!(vm.counter, 4);
    assert_eq!(vm.step(), true);
}
