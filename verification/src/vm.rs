//! The stack virtual machine and its execution model.
//!
//! Execution is modelled by [`spec_exec_from`], a step-by-step
//! interpreter over the instruction bytes; [`VirtualMachine::execute`]
//! is proved to realise exactly that model: same result, same final
//! stack, and same output trace.

use std::io::Write;

use vstd::prelude::*;
use vstd::string::StringExecFns;

use crate::bytecode::{BytecodeModule, Value, ValueView};
use crate::text::push_char;

verus! {

/// The ways an execution can fail.
#[derive(Debug, Clone, Copy, PartialEq, Eq, Structural)]
pub enum VmErrorKind {
    /// The byte at the instruction pointer is not an opcode.
    UnknownOpcode,
    /// Fewer than two operand bytes follow a `PushConst` opcode.
    TruncatedOperand,
    /// A `PushConst` operand does not index the constant pool.
    ConstantIndexOutOfBounds,
    /// A pop was attempted on an empty operand stack.
    StackUnderflow,
}

/// An execution failure: what went wrong, and the instruction pointer
/// of the opcode that failed.
#[derive(Debug, Clone, Copy, PartialEq, Eq, Structural)]
pub struct VmError {
    pub kind: VmErrorKind,
    pub ip: usize,
}

/// The text of each failure kind.
pub open spec fn spec_vm_error_message(kind: VmErrorKind) -> Seq<char> {
    match kind {
        VmErrorKind::UnknownOpcode => "unknown opcode"@,
        VmErrorKind::TruncatedOperand => "unexpected end of bytecode while reading operand"@,
        VmErrorKind::ConstantIndexOutOfBounds => "constant index out of bounds"@,
        VmErrorKind::StackUnderflow => "stack underflow"@,
    }
}

impl VmError {
    /// A short description of what went wrong.
    pub fn message(&self) -> (r: String)
        ensures
            r@ == spec_vm_error_message(self.kind),
    {
        match self.kind {
            VmErrorKind::UnknownOpcode => String::from_str("unknown opcode"),
            VmErrorKind::TruncatedOperand => String::from_str(
                "unexpected end of bytecode while reading operand",
            ),
            VmErrorKind::ConstantIndexOutOfBounds => String::from_str(
                "constant index out of bounds",
            ),
            VmErrorKind::StackUnderflow => String::from_str("stack underflow"),
        }
    }
}

/// The model of a [`VmError`], with an unbounded instruction pointer.
#[verifier::ext_equal]
pub ghost struct VmErrorView {
    pub kind: VmErrorKind,
    pub ip: int,
}

/// What an execution comes to: an error or success, the final operand
/// stack, and everything written to the output, in order. Output
/// already emitted is kept when an error aborts execution.
#[verifier::ext_equal]
pub ghost struct VmOutcome {
    pub error: Option<VmErrorView>,
    pub stack: Seq<ValueView>,
    pub output: Seq<char>,
}

/// The decimal digits of a non-negative integer, most significant
/// first.
pub open spec fn spec_nat_decimal(n: int) -> Seq<char>
    recommends
        n >= 0,
    decreases n,
{
    if n < 10 {
        seq![spec_digit(n)]
    } else {
        spec_nat_decimal(n / 10).push(spec_digit(n % 10))
    }
}

/// The character for one decimal digit.
pub open spec fn spec_digit(d: int) -> char
    recommends
        0 <= d < 10,
{
    if d == 0 {
        '0'
    } else if d == 1 {
        '1'
    } else if d == 2 {
        '2'
    } else if d == 3 {
        '3'
    } else if d == 4 {
        '4'
    } else if d == 5 {
        '5'
    } else if d == 6 {
        '6'
    } else if d == 7 {
        '7'
    } else if d == 8 {
        '8'
    } else {
        '9'
    }
}

/// The decimal rendering of an i64, with a leading minus sign when
/// negative.
pub open spec fn spec_i64_decimal(n: i64) -> Seq<char> {
    if n >= 0 {
        spec_nat_decimal(n as int)
    } else {
        seq!['-'] + spec_nat_decimal(-(n as int))
    }
}

/// The canonical text of a value: `null`, the string's own text, the
/// decimal form of an integer, or `true`/`false`.
pub open spec fn spec_render(v: ValueView) -> Seq<char> {
    match v {
        ValueView::Null => "null"@,
        ValueView::Str(s) => s,
        ValueView::Int(n) => spec_i64_decimal(n),
        ValueView::Bool(b) => if b {
            "true"@
        } else {
            "false"@
        },
    }
}

/// The dispatch loop, one opcode at a time, starting at `ip` with the
/// given stack and output so far.
pub open spec fn spec_exec_from(
    consts: Seq<ValueView>,
    code: Seq<u8>,
    ip: nat,
    stack: Seq<ValueView>,
    out: Seq<char>,
) -> VmOutcome
    decreases code.len() - ip,
{
    if ip >= code.len() {
        VmOutcome { error: None, stack, output: out }
    } else {
        let op = code[ip as int];
        if op == 0x00 {  // Nop
            spec_exec_from(consts, code, ip + 1, stack, out)
        } else if op == 0x01 {  // Halt
            VmOutcome { error: None, stack, output: out }
        } else if op == 0x02 {  // PushConst
            if ip + 3 > code.len() {
                VmOutcome {
                    error: Some(VmErrorView { kind: VmErrorKind::TruncatedOperand, ip: ip as int }),
                    stack,
                    output: out,
                }
            } else {
                let idx = (code[ip as int + 1] as int) * 256 + (code[ip as int + 2] as int);
                if idx >= consts.len() {
                    VmOutcome {
                        error: Some(
                            VmErrorView {
                                kind: VmErrorKind::ConstantIndexOutOfBounds,
                                ip: ip as int,
                            },
                        ),
                        stack,
                        output: out,
                    }
                } else {
                    spec_exec_from(consts, code, ip + 3, stack.push(consts[idx]), out)
                }
            }
        } else if op == 0x03 {  // Print
            if stack.len() == 0 {
                VmOutcome {
                    error: Some(VmErrorView { kind: VmErrorKind::StackUnderflow, ip: ip as int }),
                    stack,
                    output: out,
                }
            } else {
                spec_exec_from(
                    consts,
                    code,
                    ip + 1,
                    stack.drop_last(),
                    out + spec_render(stack.last()),
                )
            }
        } else if op == 0x04 {  // PrintLn
            if stack.len() == 0 {
                VmOutcome {
                    error: Some(VmErrorView { kind: VmErrorKind::StackUnderflow, ip: ip as int }),
                    stack,
                    output: out,
                }
            } else {
                spec_exec_from(
                    consts,
                    code,
                    ip + 1,
                    stack.drop_last(),
                    out + spec_render(stack.last()) + seq!['\n'],
                )
            }
        } else if op == 0x05 {  // Pop
            if stack.len() == 0 {
                VmOutcome {
                    error: Some(VmErrorView { kind: VmErrorKind::StackUnderflow, ip: ip as int }),
                    stack,
                    output: out,
                }
            } else {
                spec_exec_from(consts, code, ip + 1, stack.drop_last(), out)
            }
        } else {
            VmOutcome {
                error: Some(VmErrorView { kind: VmErrorKind::UnknownOpcode, ip: ip as int }),
                stack,
                output: out,
            }
        }
    }
}

/// The outcome of running a module from a fresh state: empty stack,
/// empty output, instruction pointer zero.
pub open spec fn spec_execute(m: crate::bytecode::ModuleView) -> VmOutcome {
    spec_exec_from(m.constants, m.instructions, 0, Seq::empty(), Seq::empty())
}

/// Relies on the `write!` macro over `std::io::Stdout`: the text goes
/// to standard output. Nothing is assumed about the outside world, and
/// a write error is deliberately ignored rather than propagated.
#[verifier::external_body]
fn stdout_write(text: &str) {
    let _ = write!(std::io::stdout(), "{}", text);
}

/// Relies on `std::io::Stdout::flush`; a flush error is ignored.
#[verifier::external_body]
fn stdout_flush() {
    let _ = std::io::stdout().flush();
}

/// One digit as a character.
fn digit_char(d: u64) -> (c: char)
    requires
        d < 10,
    ensures
        c == spec_digit(d as int),
{
    if d == 0 {
        '0'
    } else if d == 1 {
        '1'
    } else if d == 2 {
        '2'
    } else if d == 3 {
        '3'
    } else if d == 4 {
        '4'
    } else if d == 5 {
        '5'
    } else if d == 6 {
        '6'
    } else if d == 7 {
        '7'
    } else if d == 8 {
        '8'
    } else {
        '9'
    }
}

/// Append the decimal digits of `n`, most significant first.
fn push_decimal(s: &mut String, n: u64)
    ensures
        final(s)@ == old(s)@ + spec_nat_decimal(n as int),
    decreases n,
{
    if n >= 10 {
        push_decimal(s, n / 10);
        push_char(s, digit_char(n % 10));
        proof {
            assert(s@ =~= old(s)@ + spec_nat_decimal(n as int));
        }
    } else {
        push_char(s, digit_char(n));
        proof {
            assert(s@ =~= old(s)@ + spec_nat_decimal(n as int));
        }
    }
}

/// The canonical text of a value, as [`spec_render`] gives it.
pub fn render_value(value: &Value) -> (r: String)
    ensures
        r@ == spec_render(value@),
{
    match value {
        Value::Null => String::from_str("null"),
        Value::String(s) => s.clone(),
        Value::Integer(n) => {
            let mut out = String::new();
            if *n < 0 {
                push_char(&mut out, '-');
                let magnitude = (-(*n as i128)) as u64;
                push_decimal(&mut out, magnitude);
                proof {
                    assert(out@ =~= spec_i64_decimal(*n));
                }
            } else {
                push_decimal(&mut out, *n as u64);
                proof {
                    assert(out@ =~= spec_i64_decimal(*n));
                }
            }
            out
        },
        Value::Boolean(b) => {
            if *b {
                String::from_str("true")
            } else {
                String::from_str("false")
            }
        },
    }
}

/// Stack-based virtual machine.
///
/// The output sink is chosen at construction time: either each write
/// goes straight to standard output (and the captured buffer stays
/// empty), or all writes accumulate in a buffer that [`Self::get_output`]
/// returns.
pub struct VirtualMachine {
    /// Operand stack.
    stack: Vec<Value>,
    /// Instruction pointer.
    ip: usize,
    /// Captured output, filled only in capture mode.
    output: String,
    /// Whether to capture output instead of printing it.
    capture_output: bool,
}

impl VirtualMachine {
    /// The models of the operand stack, bottom first.
    pub closed spec fn stack_view(&self) -> Seq<ValueView> {
        self.stack@.map_values(|v: Value| v@)
    }

    /// The characters captured so far.
    pub closed spec fn output_view(&self) -> Seq<char> {
        self.output@
    }

    /// Whether this machine captures output rather than printing it.
    pub closed spec fn is_capturing(&self) -> bool {
        self.capture_output
    }

    /// A machine that prints to standard output.
    pub fn new() -> (r: Self)
        ensures
            r.stack_view() == Seq::<ValueView>::empty(),
            r.output_view() == Seq::<char>::empty(),
            !r.is_capturing(),
    {
        let r = VirtualMachine {
            stack: Vec::with_capacity(256),
            ip: 0,
            output: String::new(),
            capture_output: false,
        };
        proof {
            assert(r.stack_view() =~= Seq::<ValueView>::empty());
        }
        r
    }

    /// A machine that captures output instead of printing.
    pub fn with_captured_output() -> (r: Self)
        ensures
            r.stack_view() == Seq::<ValueView>::empty(),
            r.output_view() == Seq::<char>::empty(),
            r.is_capturing(),
    {
        let r = VirtualMachine {
            stack: Vec::with_capacity(256),
            ip: 0,
            output: String::new(),
            capture_output: true,
        };
        proof {
            assert(r.stack_view() =~= Seq::<ValueView>::empty());
        }
        r
    }

    /// The captured output; empty unless this machine captures.
    pub fn get_output(&self) -> (r: &str)
        ensures
            r@ == self.output_view(),
    {
        self.output.as_str()
    }

    /// Read the big-endian u16 operand that follows the opcode at
    /// `self.ip`, advancing past opcode and operand on success.
    fn read_u16(&mut self, module: &BytecodeModule) -> (r: Result<u16, VmError>)
        requires
            old(self).ip < module.instructions@.len(),
        ensures
            final(self).stack == old(self).stack,
            final(self).output == old(self).output,
            final(self).capture_output == old(self).capture_output,
            match r {
                Ok(v) => old(self).ip + 3 <= module.instructions@.len() && final(self).ip == old(
                    self,
                ).ip + 3 && v as int == (module@.instructions[old(self).ip + 1] as int) * 256 + (
                module@.instructions[old(self).ip + 2] as int),
                Err(e) => old(self).ip + 3 > module.instructions@.len() && e == (VmError {
                    kind: VmErrorKind::TruncatedOperand,
                    ip: old(self).ip,
                }) && final(self).ip == old(self).ip,
            },
    {
        if module.instructions.len() - self.ip < 3 {
            return Err(VmError { kind: VmErrorKind::TruncatedOperand, ip: self.ip });
        }
        self.ip = self.ip + 1;
        let high = module.instructions[self.ip] as u16;
        self.ip = self.ip + 1;
        let low = module.instructions[self.ip] as u16;
        self.ip = self.ip + 1;
        proof {
            assert((high << 8) | low == high * 256 + low) by (bit_vector)
                requires
                    high < 256,
                    low < 256,
            ;
        }
        Ok((high << 8) | low)
    }

    /// Pop the top of the stack, or fail with a stack underflow at the
    /// current instruction pointer.
    fn pop(&mut self) -> (r: Result<Value, VmError>)
        ensures
            final(self).ip == old(self).ip,
            final(self).output == old(self).output,
            final(self).capture_output == old(self).capture_output,
            match r {
                Ok(v) => old(self).stack_view().len() > 0 && v@ == old(self).stack_view().last()
                    && final(self).stack_view() == old(self).stack_view().drop_last(),
                Err(e) => old(self).stack_view().len() == 0 && final(self).stack_view() == old(
                    self,
                ).stack_view() && e == (VmError {
                    kind: VmErrorKind::StackUnderflow,
                    ip: old(self).ip,
                }),
            },
    {
        match self.stack.pop() {
            Some(v) => {
                proof {
                    let os = old(self).stack@;
                    assert(old(self).stack_view()[os.len() - 1] == os[os.len() - 1]@);
                    assert(self.stack_view() =~= old(self).stack_view().drop_last());
                }
                Ok(v)
            },
            None => {
                proof {
                    assert(self.stack_view() =~= old(self).stack_view());
                }
                Err(VmError { kind: VmErrorKind::StackUnderflow, ip: self.ip })
            },
        }
    }

    /// Render a value into the output sink, with an optional trailing
    /// newline. In capture mode the text lands in the buffer; else it
    /// is written to standard output and flushed.
    fn print_value(&mut self, value: &Value, newline: bool) -> (r: Result<(), VmError>)
        ensures
            r is Ok,
            final(self).ip == old(self).ip,
            final(self).stack == old(self).stack,
            final(self).capture_output == old(self).capture_output,
            final(self).output@ == if old(self).capture_output {
                old(self).output@ + spec_render(value@) + (if newline {
                    seq!['\n']
                } else {
                    Seq::<char>::empty()
                })
            } else {
                old(self).output@
            },
    {
        let mut text = render_value(value);
        if newline {
            push_char(&mut text, '\n');
        }
        if self.capture_output {
            self.output.append(text.as_str());
            proof {
                if newline {
                    assert(self.output@ =~= old(self).output@ + spec_render(value@)
                        + seq!['\n']);
                } else {
                    assert(self.output@ =~= old(self).output@ + spec_render(value@)
                        + Seq::<char>::empty());
                }
            }
        } else {
            stdout_write(text.as_str());
            stdout_flush();
        }
        Ok(())
    }

    /// Execute a bytecode module from a fresh state.
    ///
    /// The result, the final stack, and the output are exactly those
    /// of the specification interpreter run on the module: execution
    /// ends at `Halt`, at the end of the stream, or at the first
    /// error, and output already emitted stays emitted.
    pub fn execute(&mut self, module: &BytecodeModule) -> (r: Result<(), VmError>)
        ensures
            final(self).is_capturing() == old(self).is_capturing(),
            final(self).stack_view() == spec_execute(module@).stack,
            final(self).output_view() == if old(self).is_capturing() {
                spec_execute(module@).output
            } else {
                Seq::<char>::empty()
            },
            match r {
                Ok(()) => spec_execute(module@).error is None,
                Err(e) => spec_execute(module@).error == Some(
                    VmErrorView { kind: e.kind, ip: e.ip as int },
                ),
            },
    {
        self.ip = 0;
        self.stack.clear();
        self.output = String::new();
        let ghost consts = module@.constants;
        let ghost code = module@.instructions;
        let ghost mut trace: Seq<char> = Seq::empty();
        proof {
            assert(self.stack_view() =~= Seq::<ValueView>::empty());
        }
        while self.ip < module.instructions.len()
            invariant
                consts == module@.constants,
                code == module@.instructions,
                self.ip <= code.len(),
                self.capture_output == old(self).capture_output,
                self.capture_output ==> self.output@ == trace,
                !self.capture_output ==> self.output@ == Seq::<char>::empty(),
                spec_execute(module@) == spec_exec_from(
                    consts,
                    code,
                    self.ip as nat,
                    self.stack_view(),
                    trace,
                ),
            decreases code.len() - self.ip,
        {
            let ghost ip0 = self.ip as nat;
            let ghost stack0 = self.stack_view();
            let ghost trace0 = trace;
            let opcode_byte = module.instructions[self.ip];
            let opcode = match crate::bytecode::Opcode::from_u8(opcode_byte) {
                Some(op) => op,
                None => {
                    return Err(VmError { kind: VmErrorKind::UnknownOpcode, ip: self.ip });
                },
            };
            match opcode {
                crate::bytecode::Opcode::Nop => {
                    self.ip = self.ip + 1;
                },
                crate::bytecode::Opcode::Halt => {
                    proof {
                        assert(spec_exec_from(consts, code, ip0, stack0, trace0) == (VmOutcome {
                            error: None,
                            stack: stack0,
                            output: trace0,
                        }));
                    }
                    return Ok(());
                },
                crate::bytecode::Opcode::PushConst => {
                    let index = match self.read_u16(module) {
                        Ok(v) => v,
                        Err(e) => {
                            return Err(e);
                        },
                    };
                    if index as usize >= module.constants.len() {
                        return Err(VmError {
                            kind: VmErrorKind::ConstantIndexOutOfBounds,
                            ip: self.ip - 3,
                        });
                    }
                    let value = module.constants[index as usize].clone();
                    self.stack.push(value);
                    proof {
                        assert(module@.constants[index as int] == module.constants@[
                            index as int
                        ]@);
                        assert(self.stack_view() =~= stack0.push(consts[index as int]));
                    }
                },
                crate::bytecode::Opcode::Print => {
                    let value = match self.pop() {
                        Ok(v) => v,
                        Err(e) => {
                            return Err(e);
                        },
                    };
                    let res = self.print_value(&value, false);
                    proof {
                        trace = trace0 + spec_render(value@);
                        if self.capture_output {
                            assert(self.output@ =~= trace);
                        }
                    }
                    if res.is_err() {
                        return res;
                    }
                    self.ip = self.ip + 1;
                },
                crate::bytecode::Opcode::PrintLn => {
                    let value = match self.pop() {
                        Ok(v) => v,
                        Err(e) => {
                            return Err(e);
                        },
                    };
                    let res = self.print_value(&value, true);
                    proof {
                        trace = trace0 + spec_render(value@) + seq!['\n'];
                        if self.capture_output {
                            assert(self.output@ =~= trace);
                        }
                    }
                    if res.is_err() {
                        return res;
                    }
                    self.ip = self.ip + 1;
                },
                crate::bytecode::Opcode::Pop => {
                    match self.pop() {
                        Ok(_) => {},
                        Err(e) => {
                            return Err(e);
                        },
                    };
                    self.ip = self.ip + 1;
                },
            }
        }
        proof {
            assert(spec_exec_from(consts, code, self.ip as nat, self.stack_view(), trace) == (
            VmOutcome { error: None, stack: self.stack_view(), output: trace }));
        }
        Ok(())
    }
}

} // verus!
