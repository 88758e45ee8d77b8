use hrm::machine::Instruction;
use hrm::parser::{InstructionParseError, InstructionParser, OperandError};

fn parse(text: &str) -> Result<Vec<Instruction>, InstructionParseError> {
    InstructionParser::new_from_str(text).parse().map(|m| m.instructions().clone())
}

#[test]
fn parses_every_mnemonic() {
    let text = "inbox\noutbox\ncopyfrom 1\ncopyto 2\nadd 3\nsub 4\nmul 5\nbump+ 6\nbump- 7\nlabel 8\njump 9\njumpzero 10\njumpnegative 11";
    assert_eq!(
        parse(text).unwrap(),
        vec![
            Instruction::Inbox,
            Instruction::Outbox,
            Instruction::CopyFrom(1),
            Instruction::CopyTo(2),
            Instruction::Add(3),
            Instruction::Sub(4),
            Instruction::Mul(5),
            Instruction::BumpPlus(6),
            Instruction::BumpMinus(7),
            Instruction::Label(8),
            Instruction::Jump(9),
            Instruction::JumpIfZero(10),
            Instruction::JumpIfNegative(11),
        ]
    );
}

#[test]
fn parsed_machine_has_ten_registers() {
    let machine = InstructionParser::new_from_str("inbox").parse().unwrap();
    assert_eq!(machine.registers().len(), 10);
    assert_eq!(machine.registers()[9], Some(0));
    assert_eq!(machine.registers()[0], None);
    assert!(!machine.enable_logging);
}

#[test]
fn skips_blank_lines_and_comments() {
    let text = "\n// a comment\n   \n  inbox  \r\n\t// another\noutbox\r\n";
    assert_eq!(parse(text).unwrap(), vec![Instruction::Inbox, Instruction::Outbox]);
    assert_eq!(parse("").unwrap(), Vec::<Instruction>::new());
}

#[test]
fn missing_operand_is_an_error() {
    assert_eq!(
        parse("copyfrom"),
        Err(InstructionParseError::ParseIntError { err: OperandError::Empty, line_number: 1 })
    );
    for name in ["copyto", "add", "sub", "mul", "bump+", "bump-", "label", "jump", "jumpzero", "jumpnegative"] {
        let text = format!("inbox\n{}\noutbox", name);
        assert_eq!(
            parse(&text),
            Err(InstructionParseError::ParseIntError { err: OperandError::Empty, line_number: 2 })
        );
    }
    assert_eq!(parse("inbox\noutbox").unwrap(), vec![Instruction::Inbox, Instruction::Outbox]);
    assert_eq!(parse("inbox 5").unwrap(), vec![Instruction::Inbox]);
    assert_eq!(parse("foo"), Err(InstructionParseError::InstructionNotFound { line_number: 1 }));
}

#[test]
fn operand_forms() {
    assert_eq!(parse("copyto +7").unwrap(), vec![Instruction::CopyTo(7)]);
    assert_eq!(parse("jump 4294967295").unwrap(), vec![Instruction::Jump(u32::MAX)]);
    assert_eq!(parse("add   0012").unwrap(), vec![Instruction::Add(12)]);
}

#[test]
fn line_numbers_count_every_line() {
    let text = "inbox\n\n// skip\nfoo\n";
    assert_eq!(parse(text), Err(InstructionParseError::InstructionNotFound { line_number: 4 }));
    assert_eq!(parse("\n// note\nfoo"), Err(InstructionParseError::InstructionNotFound { line_number: 3 }));
    assert_eq!(
        parse("  \r\n// c\r\ncopyto 1\r\ncopyto x\r\nadd 1 2"),
        Err(InstructionParseError::ParseIntError { err: OperandError::InvalidDigit, line_number: 4 })
    );
}

#[test]
fn too_many_words_is_invalid_syntax() {
    assert_eq!(parse("inbox\nadd 1 2"), Err(InstructionParseError::InvalidSyntax { line_number: 2 }));
}

#[test]
fn bad_operands() {
    assert_eq!(
        parse("copyto x"),
        Err(InstructionParseError::ParseIntError { err: OperandError::InvalidDigit, line_number: 1 })
    );
    assert_eq!(
        parse("copyto -1"),
        Err(InstructionParseError::ParseIntError { err: OperandError::InvalidDigit, line_number: 1 })
    );
    assert_eq!(
        parse("copyto +"),
        Err(InstructionParseError::ParseIntError { err: OperandError::InvalidDigit, line_number: 1 })
    );
    assert_eq!(
        parse("copyto 4294967296"),
        Err(InstructionParseError::ParseIntError { err: OperandError::PosOverflow, line_number: 1 })
    );
}

#[test]
fn operand_is_read_before_the_mnemonic() {
    assert_eq!(
        parse("frobnicate x"),
        Err(InstructionParseError::ParseIntError { err: OperandError::InvalidDigit, line_number: 1 })
    );
    assert_eq!(parse("frobnicate 1"), Err(InstructionParseError::InstructionNotFound { line_number: 1 }));
}

#[test]
fn unicode_space_is_trimmed_but_does_not_split() {
    assert_eq!(parse("\u{3000}inbox\u{a0}").unwrap(), vec![Instruction::Inbox]);
    assert_eq!(parse("add\u{a0}1"), Err(InstructionParseError::InstructionNotFound { line_number: 1 }));
}
