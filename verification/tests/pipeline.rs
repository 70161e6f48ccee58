//! Tests for the front end, the compiler, the bundler text, and the
//! whole pipeline from source text to output.

use artificial_lang::bundler::render_byte_array;
use artificial_lang::bytecode::{BytecodeModule, Opcode, Value};
use artificial_lang::cli::parse_cli_args;
use artificial_lang::compiler::BytecodeCompiler;
use artificial_lang::ir::{IrExpression, IrModule, IrStatement};
use artificial_lang::lexer::{Lexer, TokenKind};
use artificial_lang::lowering::lower_module;
use artificial_lang::parser::Parser;
use artificial_lang::serializer::serialize;
use artificial_lang::vm::VirtualMachine;

fn ir_of(texts: &[&str]) -> IrModule {
    IrModule {
        statements: texts
            .iter()
            .map(|t| IrStatement::Accrete(IrExpression::StringLiteral(t.to_string())))
            .collect(),
    }
}

fn compile(ir: &IrModule) -> BytecodeModule {
    BytecodeCompiler::new().compile(ir)
}

#[test]
fn identical_literals_share_one_constant() {
    let bytecode = compile(&ir_of(&["same", "same"]));
    assert_eq!(bytecode.constants, vec![Value::String("same".to_string())]);
    assert_eq!(
        bytecode.instructions,
        vec![0x02, 0, 0, 0x04, 0x02, 0, 0, 0x04, 0x01]
    );
}

#[test]
fn distinct_literals_get_distinct_indices() {
    let bytecode = compile(&ir_of(&["a", "b", "a"]));
    assert_eq!(
        bytecode.constants,
        vec![
            Value::String("a".to_string()),
            Value::String("b".to_string())
        ]
    );
    assert_eq!(
        bytecode.instructions,
        vec![0x02, 0, 0, 0x04, 0x02, 0, 1, 0x04, 0x02, 0, 0, 0x04, 0x01]
    );
}

#[test]
fn compiling_twice_is_byte_identical() {
    let ir = ir_of(&["x", "y", "x"]);
    let first = compile(&ir);
    let second = compile(&ir);
    assert_eq!(serialize(&first), serialize(&second));
    assert_eq!(first.instructions, second.instructions);
    assert_eq!(first.constants, second.constants);
}

#[test]
fn empty_ir_compiles_to_a_lone_halt() {
    let bytecode = compile(&ir_of(&[]));
    assert_eq!(bytecode.constants, Vec::<Value>::new());
    assert_eq!(bytecode.instructions, vec![0x01]);
}

#[test]
fn opcode_bytes_round_trip() {
    for op in [
        Opcode::Nop,
        Opcode::Halt,
        Opcode::PushConst,
        Opcode::Print,
        Opcode::PrintLn,
        Opcode::Pop,
    ] {
        assert_eq!(Opcode::from_u8(op.to_byte()), Some(op));
    }
    assert_eq!(Opcode::from_u8(0x06), None);
    assert_eq!(Opcode::from_u8(0xFF), None);
}

#[test]
fn emit_with_operand_is_big_endian() {
    let mut module = BytecodeModule::new();
    module.emit_with_operand(Opcode::PushConst, 0x1234);
    assert_eq!(module.instructions, vec![0x02, 0x12, 0x34]);
}

#[test]
fn add_constant_reuses_the_first_equal_entry() {
    let mut module = BytecodeModule::new();
    let a = module.add_constant(Value::String("a".to_string()));
    let b = module.add_constant(Value::Integer(3));
    let a_again = module.add_constant(Value::String("a".to_string()));
    assert_eq!((a, b, a_again), (0, 1, 0));
    assert_eq!(module.constants.len(), 2);
}

#[test]
fn tokenize_splits_keyword_literal_semicolon() {
    let tokens = Lexer::new("accrete \"hello\";").tokenize().expect("lexes");
    let kinds: Vec<TokenKind> = tokens.into_iter().map(|t| t.kind).collect();
    assert_eq!(
        kinds,
        vec![
            TokenKind::Accrete,
            TokenKind::StringLiteral("hello".to_string()),
            TokenKind::Semicolon,
            TokenKind::Eof
        ]
    );
}

#[test]
fn tokenize_decodes_escapes() {
    let tokens = Lexer::new("accrete \"a\\n\\t\\\\\\\"z\";").tokenize().expect("lexes");
    assert_eq!(
        tokens[1].kind,
        TokenKind::StringLiteral("a\n\t\\\"z".to_string())
    );
}

#[test]
fn tokenize_rejects_unknown_identifier_and_unterminated_literal() {
    assert!(Lexer::new("shrink \"x\";").tokenize().is_err());
    assert!(Lexer::new("accrete \"open").tokenize().is_err());
    assert!(Lexer::new("accrete ?").tokenize().is_err());
}

#[test]
fn parser_rejects_a_missing_expression() {
    let tokens = Lexer::new("accrete;").tokenize().expect("lexes");
    let err = Parser::new(tokens).parse_module().unwrap_err();
    assert_eq!(err.message, "expected expression");
}

#[test]
fn parser_rejects_a_stray_semicolon() {
    let tokens = Lexer::new(";").tokenize().expect("lexes");
    let err = Parser::new(tokens).parse_module().unwrap_err();
    assert_eq!(err.message, "expected statement");
}

#[test]
fn end_to_end_hello() {
    let tokens = Lexer::new("accrete \"hello\";").tokenize().expect("lexes");
    let ast = Parser::new(tokens).parse_module().expect("parses");
    let ir = lower_module(ast);
    let bytecode = compile(&ir);
    assert_eq!(bytecode.constants, vec![Value::String("hello".to_string())]);
    assert_eq!(bytecode.instructions, vec![0x02, 0, 0, 0x04, 0x01]);
    let mut vm = VirtualMachine::with_captured_output();
    vm.execute(&bytecode).expect("runs");
    assert_eq!(vm.get_output(), "hello\n");
}

#[test]
fn cli_parses_flags_source_and_out_dir() {
    let args: Vec<String> = ["alc", "--bundle", "--debug", "--out-dir", "build", "x.art"]
        .iter()
        .map(|s| s.to_string())
        .collect();
    let opts = parse_cli_args(&args).expect("parses");
    assert!(opts.bundle && opts.debug);
    assert!(!opts.emit_bytecode && !opts.no_run);
    assert_eq!(opts.out_dir, "build");
    assert_eq!(opts.source_file, "x.art");
}

#[test]
fn cli_defaults_and_errors() {
    let ok = parse_cli_args(&vec!["alc".to_string(), "s.art".to_string()]).unwrap();
    assert_eq!(ok.out_dir, "target/artificial_out");
    let missing = parse_cli_args(&vec!["alc".to_string()]).unwrap_err();
    assert_eq!(missing, "no source file specified");
    let unknown =
        parse_cli_args(&vec!["alc".to_string(), "--frob".to_string()]).unwrap_err();
    assert_eq!(unknown, "unknown option: --frob");
    let extra = parse_cli_args(&vec![
        "alc".to_string(),
        "a.art".to_string(),
        "b.art".to_string(),
    ])
    .unwrap_err();
    assert_eq!(extra, "unexpected positional argument: b.art");
    let no_dir =
        parse_cli_args(&vec!["alc".to_string(), "--out-dir".to_string()]).unwrap_err();
    assert_eq!(no_dir, "--out-dir requires an argument");
}

#[test]
fn byte_array_literal_lists_bytes_in_hex() {
    let text = render_byte_array(&vec![0xAB, 0x00, 0x41]);
    assert_eq!(text, "0xAB, 0x00, 0x41, ");
}

#[test]
fn byte_array_literal_wraps_every_twelve_bytes() {
    let text = render_byte_array(&vec![0x01; 13]);
    let wrapped = text.matches('\n').count();
    assert_eq!(wrapped, 1);
    assert!(text.contains("0x01, \n    0x01, "));
}
