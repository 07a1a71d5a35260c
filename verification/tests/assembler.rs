use atlas::assembler::lexer::{lex_assembly, LexResult};
use atlas::assembler::parser::AssemblyParser;
use atlas::assembler::tokens::{AssembleError, AssembleErrorType, AssemblyToken, AssemblyTokenType};
use atlas::assembler::{assemble, try_assemble};

fn chars(s: &str) -> Vec<char> {
    s.chars().collect()
}

fn assemble_err(src: &str) -> AssembleError {
    match assemble(src.to_string()) {
        Ok(v) => panic!("expected an error, got {:?}", v),
        Err(e) => e,
    }
}

#[test]
fn halt_assembles_to_two_bytes() {
    assert_eq!(assemble("halt".to_string()).unwrap(), vec![0x00, 0xff]);
}

#[test]
fn move_immediate_then_halt() {
    assert_eq!(
        assemble("mov 5, $1\nhalt".to_string()).unwrap(),
        vec![0x02, 0x01, 0x00, 0x05, 0x00, 0xff]
    );
}

#[test]
fn every_register_form_of_mov() {
    assert_eq!(assemble("mov $1, $2".to_string()).unwrap(), vec![0x01, 0xff, 1, 2]);
    assert_eq!(assemble("mov [$3], $4".to_string()).unwrap(), vec![0x04, 0xff, 3, 4]);
    assert_eq!(assemble("mov $5, [$6]".to_string()).unwrap(), vec![0x03, 0xff, 5, 6]);
    assert_eq!(assemble("movb [$3], $4".to_string()).unwrap(), vec![0x14, 0xff, 3, 4]);
    assert_eq!(assemble("movb $5, [$6]".to_string()).unwrap(), vec![0x13, 0xff, 5, 6]);
}

#[test]
fn arithmetic_instructions() {
    assert_eq!(assemble("add $1, $2, $3".to_string()).unwrap(), vec![0x06, 1, 2, 3]);
    assert_eq!(assemble("add $1, 0x1234, $3".to_string()).unwrap(), vec![0x07, 0xff, 1, 3, 0x12, 0x34]);
    assert_eq!(assemble("sub $1, $2, $3".to_string()).unwrap(), vec![0x26, 1, 2, 3]);
    assert_eq!(assemble("sub $1, 0b101, $3".to_string()).unwrap(), vec![0x27, 0xff, 1, 3, 0, 5]);
}

#[test]
fn labels_resolve_to_addresses() {
    // halt (2 bytes) at 0, b (4 bytes) at 2, ret at 6
    assert_eq!(
        assemble("loop: halt\n b end\n end: ret".to_string()).unwrap(),
        vec![0x00, 0xff, 0x08, 0xff, 0x00, 0x06, 0x17, 0x0f]
    );
}

#[test]
fn label_moved_into_register() {
    assert_eq!(
        assemble("start: mov start, $2\nb start".to_string()).unwrap(),
        vec![0x02, 0x02, 0x00, 0x00, 0x08, 0xff, 0x00, 0x00]
    );
}

#[test]
fn conditional_branches_and_calls() {
    let src = "halt\nf: ret\nbeq $1, 7, f\nbleq $2, 8, f\ncall f";
    assert_eq!(
        assemble(src.to_string()).unwrap(),
        vec![
            0x00, 0xff, 0x17, 0x0f, 0x09, 1, 0, 7, 0, 2, 0x0a, 2, 0, 8, 0, 2, 0x16, 0x0f, 0, 2,
        ]
    );
}

#[test]
fn later_label_definition_wins() {
    assert_eq!(
        assemble("x: halt\nx: halt\nb x".to_string()).unwrap(),
        vec![0x00, 0xff, 0x00, 0xff, 0x08, 0xff, 0x00, 0x02]
    );
}

#[test]
fn data_directive_bytes() {
    assert_eq!(
        assemble(".db 1, \"hi\", 0x41".to_string()).unwrap(),
        vec![1, b'h', b'i', 0x41]
    );
}

#[test]
fn data_directive_string_escapes_and_utf8() {
    assert_eq!(
        assemble(".db \"a\\nb\\\\\\\"\"\nhalt".to_string()).unwrap(),
        vec![b'a', b'\n', b'b', b'\\', b'"', 0x00, 0xff]
    );
    assert_eq!(
        assemble(".db \"\u{e9}\u{20ac}\u{1f600}\"\nhalt".to_string()).unwrap(),
        vec![0xc3, 0xa9, 0xe2, 0x82, 0xac, 0xf0, 0x9f, 0x98, 0x80, 0x00, 0xff]
    );
}

#[test]
fn immediate_truncated_to_its_width() {
    // 0x12345 is truncated to 16 bits, and to 8 bits in a data directive
    assert_eq!(assemble("mov 0x12345, $1".to_string()).unwrap(), vec![0x02, 1, 0x23, 0x45]);
    assert_eq!(assemble(".db 0x1ff\nhalt".to_string()).unwrap(), vec![0xff, 0x00, 0xff]);
}

#[test]
fn leading_zero_is_a_number_of_its_own() {
    // "07" lexes as 0 then 7
    let e = assemble_err("mov 07, $1");
    assert!(matches!(e.etype, AssembleErrorType::UnexpectedToken(AssemblyTokenType::Number(7))));
    assert_eq!(e.line_no, 1);
}

#[test]
fn identifier_runs_over_alphanumerics() {
    // "a1b" is one identifier, so the label is found
    assert_eq!(assemble("a1b: halt\nb a1b".to_string()).unwrap(), vec![0x00, 0xff, 0x08, 0xff, 0, 0]);
    assert_eq!(assemble("x_y.z: halt\nb x_y.z".to_string()).unwrap(), vec![0x00, 0xff, 0x08, 0xff, 0, 0]);
}

#[test]
fn unknown_instruction_reports_line_of_next_token() {
    let e = assemble_err("foo\nhalt");
    match e.etype {
        AssembleErrorType::InvalidInstruction(name) => assert_eq!(name, chars("foo")),
        other => panic!("unexpected {:?}", other),
    }
    assert_eq!(e.line_no, 2);
    let e = assemble_err("halt\nhalt\nfoo");
    assert_eq!(e.line_no, 3);
    let e = assemble_err("start:\nfoo\n\nhalt");
    assert_eq!(e.line_no, 2);
    let e = assemble_err("mov $1\n\n, 2");
    assert!(matches!(e.etype, AssembleErrorType::InvalidOperands));
    assert_eq!(e.line_no, 1);
    let e = assemble_err("b\nnowhere");
    assert!(matches!(e.etype, AssembleErrorType::UndefinedLabel(_)));
    assert_eq!(e.line_no, 2);
}

#[test]
fn invalid_character_error() {
    let e = assemble_err("halt\n@");
    assert!(matches!(e.etype, AssembleErrorType::InvalidCharacter('@')));
    assert_eq!(e.line_no, 2);
}

#[test]
fn unterminated_string_error() {
    let e = assemble_err(".db \"abc");
    assert!(matches!(e.etype, AssembleErrorType::UnexpectedEOF));
    assert_eq!(e.line_no, 1);
    let e = assemble_err(".db \"abc\\");
    assert!(matches!(e.etype, AssembleErrorType::UnexpectedEOF));
}

#[test]
fn missing_operand_is_end_of_file() {
    let e = assemble_err("\nmov 1");
    assert!(matches!(e.etype, AssembleErrorType::UnexpectedEOF));
    assert_eq!(e.line_no, 2);
}

#[test]
fn wrong_operands_error() {
    let e = assemble_err("mov $1, 5");
    assert!(matches!(e.etype, AssembleErrorType::InvalidOperands));
    let e = assemble_err("mov [[1]], $1");
    assert!(matches!(e.etype, AssembleErrorType::InvalidOperands));
    let e = assemble_err(".db $1");
    assert!(matches!(e.etype, AssembleErrorType::InvalidOperands));
    let e = assemble_err("b 5");
    assert!(matches!(e.etype, AssembleErrorType::InvalidOperands));
}

#[test]
fn unexpected_token_error() {
    let e = assemble_err(", halt");
    assert!(matches!(e.etype, AssembleErrorType::UnexpectedToken(AssemblyTokenType::Comma)));
    let e = assemble_err("mov [1, $1");
    assert!(matches!(e.etype, AssembleErrorType::UnexpectedToken(AssemblyTokenType::Comma)));
}

#[test]
fn undefined_label_error() {
    let e = assemble_err("halt\nb nowhere");
    match e.etype {
        AssembleErrorType::UndefinedLabel(name) => assert_eq!(name, chars("nowhere")),
        other => panic!("unexpected {:?}", other),
    }
    assert_eq!(e.line_no, 2);
}

#[test]
fn programs_the_assembler_does_not_take() {
    assert!(try_assemble(String::new()).is_none());
    assert!(try_assemble(" \n\t".to_string()).is_none());
    assert!(try_assemble(".db 0".to_string()).is_none());
    assert!(try_assemble("mov 0x, $1".to_string()).is_none());
    assert!(try_assemble("mov $, $1".to_string()).is_none());
    assert!(try_assemble("mov 4294967296, $1".to_string()).is_none());
    assert!(try_assemble(".db 0\n".to_string()).is_some());
}

#[test]
fn lexing_error_comes_before_a_malformed_number() {
    let r = try_assemble("@ 0x".to_string()).unwrap();
    assert!(matches!(r.unwrap_err().etype, AssembleErrorType::InvalidCharacter('@')));
}

#[test]
fn token_texts() {
    assert_eq!(AssemblyTokenType::Colon.to_string(), ":");
    assert_eq!(AssemblyTokenType::Comma.to_string(), ",");
    assert_eq!(AssemblyTokenType::LSquare.to_string(), "[");
    assert_eq!(AssemblyTokenType::RSquare.to_string(), "]");
    assert_eq!(AssemblyTokenType::Identifier(chars("loop")).to_string(), "loop");
    assert_eq!(AssemblyTokenType::Number(0).to_string(), "0");
    assert_eq!(AssemblyTokenType::Number(4294967295).to_string(), "4294967295");
    assert_eq!(AssemblyTokenType::Register(12).to_string(), "$12");
    assert_eq!(AssemblyTokenType::Str(chars("hi there")).to_string(), "\"hi there\"");
}

#[test]
fn error_texts() {
    assert_eq!(AssembleErrorType::InvalidCharacter('#').to_string(), "Unexpected character: '#'");
    assert_eq!(AssembleErrorType::UnexpectedEOF.to_string(), "Unexpected end of file");
    assert_eq!(
        AssembleErrorType::UnexpectedToken(AssemblyTokenType::Register(3)).to_string(),
        "Unexpected token: $3"
    );
    assert_eq!(AssembleErrorType::InvalidInstruction(chars("jmpz")).to_string(), "Invalid instruction: jmpz");
    assert_eq!(AssembleErrorType::InvalidOperands.to_string(), "Invalid operands");
    assert_eq!(AssembleErrorType::UndefinedLabel(chars("end")).to_string(), "Undefined label: end");
    let e = AssembleError { etype: AssembleErrorType::UndefinedLabel(chars("end")), line_no: 107 };
    assert_eq!(e.to_string(), "Error on line 107: Undefined label: end");
}

#[test]
fn error_text_of_a_refused_program() {
    assert_eq!(assemble_err("halt\nfoo").to_string(), "Error on line 2: Invalid instruction: foo");
}

fn lexed(src: &str) -> Vec<AssemblyToken> {
    match lex_assembly(&chars(src)) {
        LexResult::Tokens(v) => v,
        _ => panic!("expected tokens"),
    }
}

fn shown(tokens: &[AssemblyToken]) -> Vec<(String, usize)> {
    tokens.iter().map(|t| (t.ttype.to_string(), t.line_no)).collect()
}

#[test]
fn programs_joined_by_a_blank_lex_independently() {
    let a = "mov 0x10, $1 .db \"a b\"";
    let b = "loop: b loop\nhalt";
    let joined = format!("{} {}", a, b);
    let mut expected = shown(&lexed(a));
    expected.extend(shown(&lexed(b)));
    assert_eq!(shown(&lexed(&joined)), expected);
    assert_eq!(expected.len(), 11);
}

#[test]
fn parser_position_after_errors() {
    let mut p = AssemblyParser::new(lexed("halt , x"));
    assert!(p.eat_token_of_type(AssemblyTokenType::Comma).is_err());
    assert_eq!(p.pos, 1);
    assert!(p.eat_ident().is_err());
    assert_eq!(p.pos, 2);
    assert_eq!(p.eat_ident().unwrap(), chars("x"));
    assert_eq!(p.pos, 3);
    let e = p.eat_token().err().unwrap();
    assert!(matches!(e.etype, AssembleErrorType::UnexpectedEOF));
    assert_eq!(p.pos, 3);
    assert!(p.eat_ident().is_err());
    assert_eq!(p.pos, 3);
}
