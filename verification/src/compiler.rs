//! The bytecode compiler: lowers an IR module into a constant pool and
//! an instruction stream.

use vstd::prelude::*;
use vstd::set_lib::lemma_len_subset;

use crate::bytecode::{
    pool_index, lemma_pool_index_props, spec_opcode_byte, BytecodeModule, ModuleView, Opcode,
    Value, ValueView,
};
use crate::ir::{IrExpression, IrModule, IrStatement};
use crate::vm::{spec_exec_from, spec_execute, spec_render, VmOutcome};

verus! {

/// The bytes emitted for one statement whose literal lives at `idx` in
/// the constant pool: `PushConst idx` (big-endian operand) then
/// `PrintLn`.
pub open spec fn statement_code(idx: int) -> Seq<u8> {
    seq![
        spec_opcode_byte(Opcode::PushConst),
        (idx / 256) as u8,
        (idx % 256) as u8,
        spec_opcode_byte(Opcode::PrintLn),
    ]
}

/// One compilation step over the remaining statement texts: each text
/// is interned in the pool (reusing the first structurally equal
/// entry) and `PushConst idx; PrintLn` is appended to the code.
pub open spec fn spec_compile_statements(
    stmts: Seq<Seq<char>>,
    pool: Seq<ValueView>,
    code: Seq<u8>,
) -> (Seq<ValueView>, Seq<u8>)
    decreases stmts.len(),
{
    if stmts.len() == 0 {
        (pool, code)
    } else {
        let v = ValueView::Str(stmts[0]);
        let idx = pool_index(pool, v);
        let pool2 = if pool.contains(v) {
            pool
        } else {
            pool.push(v)
        };
        spec_compile_statements(stmts.drop_first(), pool2, code + statement_code(idx))
    }
}

/// The compiled form of a module: the interned pool, and the statement
/// code followed by a trailing `Halt`.
pub open spec fn spec_compile(stmts: Seq<Seq<char>>) -> ModuleView {
    let (pool, code) = spec_compile_statements(stmts, Seq::empty(), Seq::empty());
    ModuleView { constants: pool, instructions: code.push(spec_opcode_byte(Opcode::Halt)) }
}

/// Compiles IR to bytecode.
pub struct BytecodeCompiler {
    module: BytecodeModule,
}

impl BytecodeCompiler {
    /// The constant pool of the module under construction.
    pub closed spec fn pool(self) -> Seq<ValueView> {
        self.module@.constants
    }

    /// The instruction stream of the module under construction.
    pub closed spec fn code(self) -> Seq<u8> {
        self.module@.instructions
    }

    /// A fresh compiler with an empty module.
    pub fn new() -> (r: Self)
        ensures
            r.pool() == Seq::<ValueView>::empty(),
            r.code() == Seq::<u8>::empty(),
    {
        BytecodeCompiler { module: BytecodeModule::new() }
    }

    /// Compile an IR module to bytecode.
    ///
    /// The result is a function of the IR alone, so compiling the same
    /// module twice yields identical programs. Every `PushConst`
    /// operand indexes an entry of the pool, and the pool holds
    /// exactly the distinct literal texts, in order of first
    /// appearance.
    pub fn compile(self, ir: &IrModule) -> (r: BytecodeModule)
        requires
            self.pool() == Seq::<ValueView>::empty(),
            self.code() == Seq::<u8>::empty(),
            ir@.to_set().len() <= 0x10000,
        ensures
            r@ == spec_compile(ir@),
            r@.constants.len() <= ir@.to_set().len(),
    {
        let mut this = self;
        let ghost all = ir@;
        let n = ir.statements.len();
        let mut i: usize = 0;
        proof {
            assert(all.skip(0) =~= all);
        }
        while i < n
            invariant
                i <= n,
                n == ir.statements@.len(),
                n == all.len(),
                all == ir@,
                all.to_set().len() <= 0x10000,
                spec_compile_statements(all, Seq::empty(), Seq::empty())
                    == spec_compile_statements(
                    all.skip(i as int),
                    this.module@.constants,
                    this.module@.instructions,
                ),
                this.module@.constants.no_duplicates(),
                forall|v: ValueView| #[trigger] this.module@.constants.contains(v)
                    ==> exists|t: Seq<char>|
                    all.to_set().contains(t) && v == ValueView::Str(t),
            decreases n - i,
        {
            let ghost pool = this.module@.constants;
            let ghost code = this.module@.instructions;
            let ghost rest = all.skip(i as int);
            proof {
                assert(rest.len() > 0);
                assert(rest[0] == all[i as int]);
            }
            let stmt = &ir.statements[i];
            match stmt {
                IrStatement::Accrete(expr) => {
                    match expr {
                        IrExpression::StringLiteral(s) => {
                            let ghost text = all[i as int];
                            proof {
                                assert(ir.statements@.map_values(|st: IrStatement| st@)[i as int]
                                    == text);
                                assert(s@ == text);
                                assert(all.contains(text)) by {
                                    assert(all[i as int] == text);
                                }
                                assert(all.to_set().contains(text));
                                lemma_pool_bound(pool, all);
                                lemma_pool_index_props(pool, ValueView::Str(text));
                            }
                            let index = this.module.add_constant(
                                Value::String(s.clone()),
                            );
                            this.module.emit_with_operand(Opcode::PushConst, index);
                            this.module.emit(Opcode::PrintLn);
                            proof {
                                assert(this.module@.constants == if pool.contains(
                                    ValueView::Str(text),
                                ) {
                                    pool
                                } else {
                                    pool.push(ValueView::Str(text))
                                });
                                assert(this.module@.instructions =~= code + statement_code(
                                    pool_index(pool, ValueView::Str(text)),
                                ));
                                assert(rest.drop_first() =~= all.skip(i + 1));
                                if !pool.contains(ValueView::Str(text)) {
                                    assert(this.module@.constants.no_duplicates()) by {
                                        lemma_push_no_duplicates(pool, ValueView::Str(text));
                                    }
                                }
                                assert forall|v: ValueView|
                                    #[trigger] this.module@.constants.contains(v)
                                    implies exists|t: Seq<char>|
                                        all.to_set().contains(t) && v == ValueView::Str(t) by {
                                    if !pool.contains(v) {
                                        assert(v == ValueView::Str(text));
                                        assert(all.to_set().contains(text)
                                            && v == ValueView::Str(text));
                                    }
                                }
                            }
                        },
                    }
                }
            }
            i += 1;
        }
        proof {
            assert(all.skip(n as int) =~= Seq::<Seq<char>>::empty());
            lemma_pool_bound(this.module@.constants, all);
        }
        this.module.emit(Opcode::Halt);
        proof {
            assert(this.module@ =~= spec_compile(all));
        }
        this.module
    }
}

/// Each statement's literal text followed by a newline, in statement
/// order: the output a compiled module owes.
pub open spec fn spec_lines(stmts: Seq<Seq<char>>) -> Seq<char>
    decreases stmts.len(),
{
    if stmts.len() == 0 {
        Seq::empty()
    } else {
        stmts[0] + seq!['\n'] + spec_lines(stmts.drop_first())
    }
}

/// Compilation only appends: the pool and code a step starts from
/// stay in place, entry for entry.
proof fn lemma_compile_statements_extends(stmts: Seq<Seq<char>>, pool: Seq<ValueView>, code: Seq<u8>)
    ensures
        ({
            let r = spec_compile_statements(stmts, pool, code);
            &&& pool.len() <= r.0.len()
            &&& code.len() <= r.1.len()
            &&& forall|j: int| 0 <= j < pool.len() ==> r.0[j] == pool[j]
            &&& forall|j: int| 0 <= j < code.len() ==> r.1[j] == code[j]
        }),
    decreases stmts.len(),
{
    if stmts.len() > 0 {
        let v = ValueView::Str(stmts[0]);
        let idx = pool_index(pool, v);
        let pool2 = if pool.contains(v) {
            pool
        } else {
            pool.push(v)
        };
        let code2 = code + statement_code(idx);
        lemma_compile_statements_extends(stmts.drop_first(), pool2, code2);
        let r = spec_compile_statements(stmts, pool, code);
        assert forall|j: int| 0 <= j < pool.len() implies r.0[j] == pool[j] by {
            assert(r.0[j] == pool2[j]);
            assert(pool2[j] == pool[j]);
        }
        assert forall|j: int| 0 <= j < code.len() implies r.1[j] == code[j] by {
            assert(r.1[j] == code2[j]);
            assert(code2[j] == code[j]);
        }
    }
}

/// What the compiler owes, semantically, one statement run at a time:
/// from the end of the code compiled so far, the virtual machine
/// prints the remaining statements' literals, line by line, and halts
/// with the stack it started with.
proof fn lemma_exec_from_compiled(
    stmts: Seq<Seq<char>>,
    pool: Seq<ValueView>,
    code: Seq<u8>,
    stack: Seq<ValueView>,
    out: Seq<char>,
)
    requires
        spec_compile_statements(stmts, pool, code).0.len() <= 0x10000,
    ensures
        ({
            let r = spec_compile_statements(stmts, pool, code);
            spec_exec_from(r.0, r.1.push(0x01), code.len(), stack, out) == (VmOutcome {
                error: None,
                stack,
                output: out + spec_lines(stmts),
            })
        }),
    decreases stmts.len(),
{
    let r = spec_compile_statements(stmts, pool, code);
    let full = r.1.push(0x01);
    if stmts.len() == 0 {
        assert(full[code.len() as int] == 0x01);
        assert(out + spec_lines(stmts) =~= out);
        assert(spec_exec_from(r.0, full, code.len(), stack, out) =~= (VmOutcome {
            error: None,
            stack,
            output: out + spec_lines(stmts),
        }));
    } else {
        let t0 = stmts[0];
        let v = ValueView::Str(t0);
        let idx = pool_index(pool, v);
        let pool1 = if pool.contains(v) {
            pool
        } else {
            pool.push(v)
        };
        let code1 = code + statement_code(idx);
        assert(r == spec_compile_statements(stmts.drop_first(), pool1, code1));
        lemma_pool_index_props(pool, v);
        assert(idx < pool1.len());
        assert(pool1[idx] == v);
        lemma_compile_statements_extends(stmts.drop_first(), pool1, code1);
        assert(idx < r.0.len());
        assert(r.0[idx] == v);
        assert(idx < 0x10000);

        let ip: nat = code.len();
        assert(code1.len() <= r.1.len());
        assert forall|k: int| 0 <= k < 4 implies full[ip + k] == statement_code(idx)[k] by {
            assert(code1[ip + k] == statement_code(idx)[k]);
            assert(r.1[ip + k] == code1[ip + k]);
            assert(full[ip + k] == r.1[ip + k]);
        }
        assert(full[ip as int] == 0x02);
        assert(full[ip as int + 1] == ((idx / 256) as u8));
        assert(full[ip as int + 2] == ((idx % 256) as u8));
        assert(full[ip as int + 3] == 0x04);
        assert(ip + 3 <= full.len());
        assert((((idx / 256) as u8) as int) * 256 + (((idx % 256) as u8) as int) == idx);
        assert(spec_exec_from(r.0, full, ip, stack, out) == spec_exec_from(
            r.0,
            full,
            ip + 3,
            stack.push(v),
            out,
        ));
        let stack1 = stack.push(v);
        assert(stack1.len() > 0);
        assert(stack1.last() == v);
        assert(spec_render(v) == t0);
        assert(spec_exec_from(r.0, full, ip + 3, stack1, out) == spec_exec_from(
            r.0,
            full,
            ip + 4,
            stack1.drop_last(),
            out + t0 + seq!['\n'],
        ));
        assert(stack1.drop_last() =~= stack);
        assert(ip + 4 == code1.len());
        lemma_exec_from_compiled(stmts.drop_first(), pool1, code1, stack, out + t0 + seq!['\n']);
        assert(out + t0 + seq!['\n'] + spec_lines(stmts.drop_first()) =~= out + spec_lines(
            stmts,
        ));
        assert(spec_exec_from(r.0, full, ip, stack, out) =~= (VmOutcome {
            error: None,
            stack,
            output: out + spec_lines(stmts),
        }));
    }
}

/// The compiler's semantic contract: executing a compiled module
/// prints each statement's literal followed by a newline, in
/// statement order, ends without an error, and leaves the operand
/// stack empty. The pool must fit its u16 index width, which holds of
/// every module the compiler may build.
pub proof fn lemma_compiled_module_executes(stmts: Seq<Seq<char>>)
    requires
        spec_compile(stmts).constants.len() <= 0x10000,
    ensures
        ({
            let o = spec_execute(spec_compile(stmts));
            &&& o.error is None
            &&& o.stack == Seq::<ValueView>::empty()
            &&& o.output == spec_lines(stmts)
        }),
{
    let r = spec_compile_statements(stmts, Seq::empty(), Seq::empty());
    let m = spec_compile(stmts);
    assert(m.constants == r.0);
    assert(m.instructions == r.1.push(0x01));
    lemma_exec_from_compiled(
        stmts,
        Seq::empty(),
        Seq::empty(),
        Seq::empty(),
        Seq::empty(),
    );
    assert(Seq::<char>::empty() + spec_lines(stmts) =~= spec_lines(stmts));
}

/// Constant-pool deduplication: compiling two print statements with
/// identical literal text interns exactly one constant, and both
/// emitted `PushConst` instructions reference that same index.
pub proof fn lemma_dedup_two_identical_literals(text: Seq<char>)
    ensures
        spec_compile(seq![text, text]).constants =~= seq![ValueView::Str(text)],
        spec_compile(seq![text, text]).instructions =~= statement_code(0) + statement_code(0)
            + seq![spec_opcode_byte(Opcode::Halt)],
{
    let v = ValueView::Str(text);
    let stmts = seq![text, text];
    let empty_pool = Seq::<ValueView>::empty();
    let empty_code = Seq::<u8>::empty();
    assert(!empty_pool.contains(v));
    assert(pool_index(empty_pool, v) == 0);
    let pool1 = empty_pool.push(v);
    let code1 = empty_code + statement_code(0);
    assert(stmts.drop_first() =~= seq![text]);
    assert(pool1.contains(v)) by {
        assert(pool1[0] == v);
    }
    assert(pool_index(pool1, v) == 0);
    assert(seq![text].drop_first() =~= Seq::<Seq<char>>::empty());
    assert(spec_compile_statements(stmts, empty_pool, empty_code) == spec_compile_statements(
        seq![text],
        pool1,
        code1,
    ));
    assert(spec_compile_statements(seq![text], pool1, code1) == spec_compile_statements(
        Seq::<Seq<char>>::empty(),
        pool1,
        code1 + statement_code(0),
    ));
    assert(spec_compile_statements(stmts, empty_pool, empty_code) == (
        pool1,
        code1 + statement_code(0),
    ));
    assert(code1 + statement_code(0) =~= statement_code(0) + statement_code(0));
    assert((code1 + statement_code(0)).push(spec_opcode_byte(Opcode::Halt)) =~= statement_code(0)
        + statement_code(0) + seq![spec_opcode_byte(Opcode::Halt)]);
}

/// A duplicate-free pool whose entries are literals drawn from the
/// texts of `stmts` cannot outgrow the set of distinct texts.
proof fn lemma_pool_bound(pool: Seq<ValueView>, stmts: Seq<Seq<char>>)
    requires
        pool.no_duplicates(),
        forall|v: ValueView| #[trigger] pool.contains(v) ==> exists|t: Seq<char>|
            stmts.to_set().contains(t) && v == ValueView::Str(t),
    ensures
        pool.len() <= stmts.to_set().len(),
        forall|t: Seq<char>| !pool.contains(ValueView::Str(t)) && stmts.to_set().contains(t)
            ==> pool.len() < stmts.to_set().len(),
{
    broadcast use vstd::seq_lib::seq_to_set_is_finite;

    pool.unique_seq_to_set();
    let image = stmts.to_set().map(|t: Seq<char>| ValueView::Str(t));
    assert(pool.to_set().subset_of(image)) by {
        assert forall|v: ValueView| pool.to_set().contains(v) implies image.contains(v) by {
            assert(pool.contains(v));
            let t = choose|t: Seq<char>|
                stmts.to_set().contains(t) && v == ValueView::Str(t);
            assert(image.contains(ValueView::Str(t)));
        }
    }
    vstd::set_lib::lemma_map_size_bound(
        stmts.to_set(),
        image,
        |t: Seq<char>| ValueView::Str(t),
    );
    lemma_len_subset(pool.to_set(), image);
    assert forall|t: Seq<char>|
        !pool.contains(ValueView::Str(t)) && stmts.to_set().contains(t)
        implies pool.len() < stmts.to_set().len() by {
        let bigger = pool.to_set().insert(ValueView::Str(t));
        assert(!pool.to_set().contains(ValueView::Str(t)));
        assert(bigger.len() == pool.to_set().len() + 1);
        assert(bigger.subset_of(image)) by {
            assert(image.contains(ValueView::Str(t)));
        }
        lemma_len_subset(bigger, image);
    }
}

/// Pushing a fresh element preserves freedom from duplicates.
proof fn lemma_push_no_duplicates(pool: Seq<ValueView>, v: ValueView)
    requires
        pool.no_duplicates(),
        !pool.contains(v),
    ensures
        pool.push(v).no_duplicates(),
{
    let p = pool.push(v);
    assert forall|i: int, j: int| 0 <= i < p.len() && 0 <= j < p.len() && i != j
        implies p[i] != p[j] by {
        if i < pool.len() && j < pool.len() {
        } else if i == pool.len() {
            assert(pool.contains(p[j]) ==> p[j] != v);
            assert(pool.contains(pool[j]));
        } else {
            assert(pool.contains(pool[i]));
        }
    }
}

} // verus!
