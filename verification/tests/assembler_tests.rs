use iridium::assembler::assembler_errors::AssemblerError;
use iridium::assembler::directive_parsers::directive;
use iridium::assembler::directive_parsers::directive_combined;
use iridium::assembler::instruction_parsers::AssemblerInstruction;
use iridium::assembler::opcode_parsers::opcode;
use iridium::assembler::operand_parsers::integer_operand;
use iridium::assembler::program_parsers::program;
use iridium::assembler::symbols::{Symbol, SymbolTable, SymbolType};
use iridium::assembler::{Assembler, AssemblerPhase, Token};
use iridium::instruction::{Instruction, Opcode};

#[test]
fn test_parser_directive() {
    let result = directive(".data");
    assert_eq!(result.is_some(), true);
    let (directive, rest) = result.unwrap();
    assert_eq!(rest, ".data".len());
    assert_eq!(
        directive,
        Token::Directive {
            name: b"data".to_vec()
        }
    )
}

#[test]
fn test_string_directive() {
    let result = directive_combined("test: .asciiz 'Hello'");
    assert_eq!(result.is_some(), true);
    let directive = result.unwrap();

    let correct_instruction = AssemblerInstruction {
        opcode: None,
        label: Some(Token::LabelDeclaration {
            name: b"test".to_vec(),
        }),
        directive: Some(Token::Directive {
            name: b"asciiz".to_vec(),
        }),
        operand1: Some(Token::IrString {
            name: b"Hello".to_vec(),
        }),
        operand2: None,
        operand3: None,
    };
    assert_eq!(directive, correct_instruction);
}

#[test]
fn test_symbol_table() {
    let mut sym = SymbolTable::new();
    let new_symbol = Symbol::new(b"test".to_vec(), SymbolType::Label, 12);
    sym.add_symbol(new_symbol);
    assert_eq!(sym.symbols.len(), 1);
    let v = sym.symbol_value(b"test");
    assert_eq!(false, v.is_some());
    assert_eq!(v, None);
    let v = sym.symbol_value(b"none");
    assert_eq!(v.is_some(), false);
}

#[test]
fn test_opcode() {
    let result = opcode("load");
    assert_eq!(result.is_some(), true);
    let (token, rest) = result.unwrap();
    assert_eq!(token, Token::Op { code: Opcode::LOAD });
    assert_eq!(rest, "load".len());
    let result = opcode("aold");
    let (token, _) = result.unwrap();
    assert_eq!(token, Token::Op { code: Opcode::IGL });
}

#[test]
fn test_parse_integer_operand() {
    let result = integer_operand("#10");
    assert_eq!(result.is_some(), true);
    let (value, rest) = result.unwrap();
    assert_eq!(rest, "#10".len());
    assert_eq!(value, Token::IntegerOperand { value: 10 });

    let result = integer_operand("10");
    assert_eq!(result.is_some(), false);
}

#[test]
fn test_parse_program() {
    let result = program("load $0 #100\n");
    assert_eq!(result.is_ok(), true);
    let p = result.unwrap();
    assert_eq!(1, p.instructions.len());
}

#[test]
fn test_complete_program() {
    let test_program = ".data\nhello: .asciiz 'Hello everyone!'\n.code\nhlt";
    let result = program(test_program);
    assert_eq!(result.is_ok(), true);
    assert_eq!(result.unwrap().instructions.len(), 4);
}

#[test]
fn test_new_hlt() {
    let opcode = Opcode::HLT;
    assert_eq!(opcode, Opcode::HLT);
}

#[test]
fn test_new_instruction() {
    let instruction = Instruction::new(Opcode::HLT);
    assert_eq!(instruction.opcode, Opcode::HLT);
}

#[test]
fn test_negative_integer_operand() {
    let (token, _) = integer_operand("#-42").unwrap();
    assert_eq!(token, Token::IntegerOperand { value: -42 });
}

#[test]
fn test_register_out_of_range_is_parse_error() {
    let result = program("load $32 #1\n");
    assert!(matches!(result, Err(AssemblerError::ParseError { .. })));
}

#[test]
fn test_unknown_mnemonic_fails_program_parse() {
    let result = program(".data\n.code\nwibble $0\nhlt\n");
    assert!(matches!(result, Err(AssemblerError::ParseError { .. })));
}

#[test]
fn test_encode_load_instruction() {
    let p = program("load $0 #100\n").unwrap();
    let symbols = SymbolTable::new();
    let bytes = p.instructions[0].to_bytes(&symbols).unwrap();
    assert_eq!(bytes, vec![0, 0, 0, 100]);
}

#[test]
fn test_encode_every_instruction_is_four_bytes() {
    let p = program("load $1 #500\nadd $0 $1 $2\neq $3 $4\njmp $5\nprts #0\nhlt\nnop\naloc $6\n")
        .unwrap();
    let symbols = SymbolTable::new();
    for i in &p.instructions {
        let bytes = i.to_bytes(&symbols).unwrap();
        assert_eq!(bytes.len(), 4);
    }
}

#[test]
fn test_encode_too_many_operands_rejected() {
    let p = program("hlt $0\n").unwrap();
    let symbols = SymbolTable::new();
    assert!(p.instructions[0].to_bytes(&symbols).is_err());
}

#[test]
fn test_assemble_minimal_image() {
    let mut assembler = Assembler::new();
    let image = assembler.assemble(".data\n.code\nload $0 #500\nhlt\n").unwrap();
    assert_eq!(&image[0..4], &[0x2D, 0x32, 0x31, 0x2D]);
    assert!(image.len() >= 64);
    assert_eq!(image.len(), 64 + 8);
    assert_eq!(&image[64..72], &[0, 0, 1, 244, 6, 0, 0, 0]);
    assert_eq!(assembler.phase, AssemblerPhase::Second);
}

#[test]
fn test_assemble_is_pure_function_of_source() {
    let source = ".data\nhello: .asciiz 'Hi!'\n.code\nload $0 #5\nprts @hello\nhlt\n";
    let first = Assembler::new().assemble(source).unwrap();
    let second = Assembler::new().assemble(source).unwrap();
    assert_eq!(first, second);
}

#[test]
fn test_assemble_duplicate_label() {
    let mut assembler = Assembler::new();
    let result = assembler.assemble(".data\nx: .asciiz 'a'\nx: .asciiz 'b'\n.code\nhlt\n");
    let errors = result.unwrap_err();
    assert!(errors
        .iter()
        .any(|e| matches!(e, AssemblerError::SymbolAlreadyDeclared { name } if name == b"x")));
}

#[test]
fn test_assemble_missing_sections() {
    let mut assembler = Assembler::new();
    let result = assembler.assemble("hlt\n");
    let errors = result.unwrap_err();
    assert!(errors
        .iter()
        .any(|e| matches!(e, AssemblerError::InsufficientSections)));
}

#[test]
fn test_assemble_label_outside_section() {
    let mut assembler = Assembler::new();
    let result = assembler.assemble("x: hlt\n.data\n.code\n");
    let errors = result.unwrap_err();
    assert!(errors.iter().any(
        |e| matches!(e, AssemblerError::NoSegmentDeclarationFound { instruction } if *instruction == 0)
    ));
}

#[test]
fn test_assemble_unknown_directive() {
    let mut assembler = Assembler::new();
    let result = assembler.assemble(".data\nx: .weird 'a'\n.code\nhlt\n");
    let errors = result.unwrap_err();
    assert!(errors.iter().any(
        |e| matches!(e, AssemblerError::UnknownDirectiveFound { directive } if directive == b"weird")
    ));
}

#[test]
fn test_assemble_string_without_label() {
    let mut assembler = Assembler::new();
    let result = assembler.assemble(".data\n.asciiz 'a'\n.code\nhlt\n");
    let errors = result.unwrap_err();
    assert!(errors.iter().any(|e| matches!(
        e,
        AssemblerError::StringConstantDeclaredWithoutLabel { instruction } if *instruction == 1
    )));
}

#[test]
fn test_assemble_unresolved_label_use() {
    let mut assembler = Assembler::new();
    let result = assembler.assemble(".data\n.code\nprts @nope\nhlt\n");
    let errors = result.unwrap_err();
    assert!(errors
        .iter()
        .any(|e| matches!(e, AssemblerError::InvalidOperand { .. })));
}

#[test]
fn test_assemble_parse_error_aborts() {
    let mut assembler = Assembler::new();
    let result = assembler.assemble(".data\n.code\n???\nhlt\n");
    let errors = result.unwrap_err();
    assert_eq!(errors.len(), 1);
    assert!(matches!(errors[0], AssemblerError::ParseError { .. }));
}

#[test]
fn test_label_round_trip_offset() {
    let mut assembler = Assembler::new();
    assembler.assemble(".data\n.code\nload $0 #0\nlbl: hlt\n").unwrap();
    // `lbl` stands on the instruction at source index 3: 64 + 4 * 3 = 76.
    assert_eq!(assembler.symbols.symbol_value(b"lbl"), Some(76));
}

#[test]
fn test_asciiz_lays_out_ro_data() {
    let mut assembler = Assembler::new();
    assembler.assemble(".data\nhello: .asciiz 'Hi!'\n.code\nprts @hello\nhlt\n")
        .unwrap();
    assert_eq!(assembler.ro, vec![0x48, 0x69, 0x21, 0x00]);
    assert_eq!(assembler.symbols.symbol_value(b"hello"), Some(0));
    assert_eq!(assembler.bytecode, vec![18, 0, 0, 0, 6, 0, 0, 0]);
}

#[test]
fn test_symbols_snapshot_lists_declarations() {
    let mut assembler = Assembler::new();
    assembler
        .assemble(".data\nhello: .asciiz 'Hi!'\n.code\nlbl: hlt\n")
        .unwrap();
    let snapshot = assembler.symbols_snapshot();
    assert_eq!(snapshot.len(), 2);
    assert_eq!(snapshot[0], (b"hello".to_vec(), Some(0)));
    assert_eq!(snapshot[1], (b"lbl".to_vec(), Some(64 + 3 * 4)));
}

#[test]
fn test_asciiz_ignored_after_pass_one() {
    let mut assembler = Assembler::new();
    assembler.assemble(".data\n.code\nhlt\n").unwrap();
    assert_eq!(assembler.phase, AssemblerPhase::Second);
    let instr = directive_combined("x: .asciiz 'zz'").unwrap();
    let ro_before = assembler.ro.clone();
    let symbols_before = assembler.symbols_snapshot();
    assembler.handle_asciiz(&instr);
    assert_eq!(assembler.ro, ro_before);
    assert_eq!(assembler.symbols_snapshot(), symbols_before);
}
