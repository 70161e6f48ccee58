//! Tests for the virtual machine: output, rendering, and every error
//! kind at its instruction pointer.

use artificial_lang::bytecode::{BytecodeModule, Value};
use artificial_lang::vm::{render_value, VirtualMachine, VmError, VmErrorKind};

fn module(constants: Vec<Value>, instructions: Vec<u8>) -> BytecodeModule {
    BytecodeModule { constants, instructions }
}

#[test]
fn push_const_println_prints_with_newline() {
    let m = module(vec![Value::String("hi".to_string())], vec![0x02, 0, 0, 0x04, 0x01]);
    let mut vm = VirtualMachine::with_captured_output();
    vm.execute(&m).expect("program must run");
    assert_eq!(vm.get_output(), "hi\n");
}

#[test]
fn print_without_newline() {
    let m = module(
        vec![Value::String("a".to_string()), Value::String("b".to_string())],
        vec![0x02, 0, 0, 0x03, 0x02, 0, 1, 0x03, 0x01],
    );
    let mut vm = VirtualMachine::with_captured_output();
    vm.execute(&m).expect("program must run");
    assert_eq!(vm.get_output(), "ab");
}

#[test]
fn values_render_canonically() {
    assert_eq!(render_value(&Value::Null), "null");
    assert_eq!(render_value(&Value::String("text".to_string())), "text");
    assert_eq!(render_value(&Value::Integer(0)), "0");
    assert_eq!(render_value(&Value::Integer(906)), "906");
    assert_eq!(render_value(&Value::Integer(-42)), "-42");
    assert_eq!(render_value(&Value::Integer(i64::MIN)), "-9223372036854775808");
    assert_eq!(render_value(&Value::Integer(i64::MAX)), "9223372036854775807");
    assert_eq!(render_value(&Value::Boolean(true)), "true");
    assert_eq!(render_value(&Value::Boolean(false)), "false");
}

#[test]
fn vm_prints_rendered_values() {
    let m = module(
        vec![Value::Null, Value::Integer(-7), Value::Boolean(true)],
        vec![0x02, 0, 0, 0x04, 0x02, 0, 1, 0x04, 0x02, 0, 2, 0x04, 0x01],
    );
    let mut vm = VirtualMachine::with_captured_output();
    vm.execute(&m).expect("program must run");
    assert_eq!(vm.get_output(), "null\n-7\ntrue\n");
}

#[test]
fn pop_on_empty_stack_underflows_at_ip_zero() {
    let m = module(vec![], vec![0x05, 0x01]);
    let mut vm = VirtualMachine::with_captured_output();
    let err = vm.execute(&m).unwrap_err();
    assert_eq!(err, VmError { kind: VmErrorKind::StackUnderflow, ip: 0 });
    assert_eq!(vm.get_output(), "");
}

#[test]
fn unknown_opcode_fails_at_ip_zero() {
    let m = module(vec![], vec![0xFF]);
    let mut vm = VirtualMachine::with_captured_output();
    let err = vm.execute(&m).unwrap_err();
    assert_eq!(err, VmError { kind: VmErrorKind::UnknownOpcode, ip: 0 });
}

#[test]
fn truncated_operand_fails_at_the_opcode() {
    let m = module(vec![], vec![0x00, 0x02, 0x00]);
    let mut vm = VirtualMachine::with_captured_output();
    let err = vm.execute(&m).unwrap_err();
    assert_eq!(err, VmError { kind: VmErrorKind::TruncatedOperand, ip: 1 });
}

#[test]
fn constant_index_out_of_bounds_fails_at_the_opcode() {
    let m = module(vec![], vec![0x02, 0x00, 0x00, 0x01]);
    let mut vm = VirtualMachine::with_captured_output();
    let err = vm.execute(&m).unwrap_err();
    assert_eq!(err, VmError { kind: VmErrorKind::ConstantIndexOutOfBounds, ip: 0 });
}

#[test]
fn output_before_an_error_is_kept() {
    let m = module(
        vec![Value::String("first".to_string())],
        vec![0x02, 0, 0, 0x04, 0x05, 0x01],
    );
    let mut vm = VirtualMachine::with_captured_output();
    let err = vm.execute(&m).unwrap_err();
    assert_eq!(err.kind, VmErrorKind::StackUnderflow);
    assert_eq!(err.ip, 4);
    assert_eq!(vm.get_output(), "first\n");
}

#[test]
fn halt_stops_before_later_instructions() {
    let m = module(
        vec![Value::String("shown".to_string())],
        vec![0x02, 0, 0, 0x04, 0x01, 0xFF],
    );
    let mut vm = VirtualMachine::with_captured_output();
    vm.execute(&m).expect("halt ends the program before the bad byte");
    assert_eq!(vm.get_output(), "shown\n");
}

#[test]
fn nop_advances_and_end_of_stream_is_success() {
    let m = module(vec![], vec![0x00, 0x00]);
    let mut vm = VirtualMachine::with_captured_output();
    vm.execute(&m).expect("running off the end is success");
    assert_eq!(vm.get_output(), "");
}

#[test]
fn error_messages_describe_each_kind() {
    let m = module(vec![], vec![0x05]);
    let mut vm = VirtualMachine::with_captured_output();
    let err = vm.execute(&m).unwrap_err();
    assert_eq!(err.message(), "stack underflow");
    let m = module(vec![], vec![0xFF]);
    let err = vm.execute(&m).unwrap_err();
    assert_eq!(err.message(), "unknown opcode");
}

#[test]
fn execute_resets_captured_output() {
    let m = module(vec![Value::String("x".to_string())], vec![0x02, 0, 0, 0x04, 0x01]);
    let mut vm = VirtualMachine::with_captured_output();
    vm.execute(&m).unwrap();
    vm.execute(&m).unwrap();
    assert_eq!(vm.get_output(), "x\n");
}
