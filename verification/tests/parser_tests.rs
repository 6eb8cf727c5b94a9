use hack_assembler::code::Code;
use hack_assembler::parser::{
    classify, extract_comp, extract_dest, extract_jmp, CommandType, Comp, Destination, Jump,
    Parser,
};
use hack_assembler::text::{chars_of, clean, contains_char, is_whitespace_char};

fn add_program() -> Vec<String> {
    vec![
        "// This file is part of www.nand2tetris.org\r\n".to_string(),
        "// and the book \"The Elements of Computing Systems\"\r\n".to_string(),
        "// File name: projects/06/add/Add.asm\r\n".to_string(),
        "\r\n".to_string(),
        "// Computes R0 = 2 + 3  (R0 refers to RAM[0])\r\n".to_string(),
        "\r\n".to_string(),
        "@2\r\n".to_string(),
        "D=A\r\n".to_string(),
        "@3\r\n".to_string(),
        "D=D+A\r\n".to_string(),
        "@0\r\n".to_string(),
        "M=D\r\n".to_string(),
    ]
}

fn parser_on(command: &str) -> Parser {
    let mut parser = Parser::new(vec![command.to_string()]);
    assert_eq!(parser.advance(), Some(command.to_string()));
    parser
}

#[test]
fn can_read_all_lines() {
    let mut my_parser = Parser::new(add_program());
    let mut seen: Vec<String> = Vec::new();
    while let Some(current_line) = my_parser.advance() {
        seen.push(current_line);
    }
    assert_eq!(seen, vec!["@2", "D=A", "@3", "D=D+A", "@0", "M=D"]);
}

#[test]
fn gets_correct_command_type() {
    let mut my_parser = Parser::new(add_program());
    let mut kinds: Vec<CommandType> = Vec::new();
    while let Some(_current_line) = my_parser.advance() {
        kinds.push(my_parser.get_command_type().unwrap());
    }
    assert_eq!(
        kinds,
        vec![
            CommandType::A_COMMAND,
            CommandType::C_COMMAND,
            CommandType::A_COMMAND,
            CommandType::C_COMMAND,
            CommandType::A_COMMAND,
            CommandType::C_COMMAND,
        ]
    );
}

#[test]
fn gets_correct_symbol() {
    let mut my_parser = Parser::new(add_program());
    let mut symbols: Vec<String> = Vec::new();
    while let Some(_current_line) = my_parser.advance() {
        symbols.push(my_parser.get_symbol().unwrap_or("0".to_string()));
    }
    assert_eq!(symbols, vec!["2", "0", "3", "0", "0", "0"]);
}

#[test]
fn gets_correct_dest() {
    let mut my_parser = Parser::new(add_program());
    let mut dests: Vec<Option<Destination>> = Vec::new();
    while let Some(_current_line) = my_parser.advance() {
        dests.push(my_parser.dest());
    }
    assert_eq!(
        dests,
        vec![None, Some(Destination::D), None, Some(Destination::D), None, Some(Destination::M)]
    );
}

#[test]
fn gets_correct_comp() {
    let mut my_parser = Parser::new(add_program());
    let mut comps: Vec<Option<Comp>> = Vec::new();
    while let Some(_current_line) = my_parser.advance() {
        comps.push(my_parser.comp());
    }
    assert_eq!(
        comps,
        vec![None, Some(Comp::A), None, Some(Comp::DPlusA), None, Some(Comp::D)]
    );
}

#[test]
fn gets_correct_jmp() {
    let mut my_parser = Parser::new(add_program());
    while let Some(_current_line) = my_parser.advance() {
        assert_eq!(my_parser.jump(), None);
    }
    let mut jumping = Parser::new(vec!["0;JMP\n".to_string(), "D;JGT\n".to_string()]);
    jumping.advance();
    assert_eq!(jumping.jump(), Some(Jump::JMP));
    jumping.advance();
    assert_eq!(jumping.jump(), Some(Jump::JGT));
}

#[test]
fn prints_correct_dest_code() {
    let mut my_parser = Parser::new(add_program());
    let mut codes: Vec<String> = Vec::new();
    while let Some(_current_line) = my_parser.advance() {
        if let Some(dst) = my_parser.dest() {
            codes.push(dst.to_code());
        }
    }
    assert_eq!(codes, vec!["010", "010", "001"]);
}

#[test]
fn prints_correct_comp_code() {
    let mut my_parser = Parser::new(add_program());
    let mut codes: Vec<String> = Vec::new();
    while let Some(_current_line) = my_parser.advance() {
        if let Some(comp) = my_parser.comp() {
            codes.push(comp.to_code());
        }
    }
    assert_eq!(codes, vec!["0110000", "0000010", "0001100"]);
}

#[test]
fn prints_correct_jmp_code() {
    let mut my_parser = Parser::new(vec![
        "D;JGT\n".to_string(),
        "D;JEQ\n".to_string(),
        "D;JGE\n".to_string(),
        "D;JLT\n".to_string(),
        "D;JNE\n".to_string(),
        "D;JLE\n".to_string(),
        "0;JMP\n".to_string(),
        "D=A\n".to_string(),
    ]);
    let mut codes: Vec<String> = Vec::new();
    while let Some(_current_line) = my_parser.advance() {
        if let Some(jump) = my_parser.jump() {
            codes.push(jump.to_code());
        }
    }
    assert_eq!(codes, vec!["001", "010", "011", "100", "101", "110", "111"]);
}

#[test]
fn clean_strips_comments_and_whitespace() {
    assert_eq!(clean("D=A // load\r\n"), "D=A");
    assert_eq!(clean("   @R1\t \n"), "@R1");
    assert_eq!(clean("// only a comment\n"), "");
    assert_eq!(clean("   // comment after spaces\n"), "");
    assert_eq!(clean("\r\n"), "");
    assert_eq!(clean(""), "");
    assert_eq!(clean(" \t \n"), "");
    assert_eq!(clean("D=M/1\n"), "D=M/1");
    assert_eq!(clean("D=A//x//y\n"), "D=A");
    assert_eq!(clean("/"), "/");
    assert_eq!(clean("A = D ; JMP"), "A = D ; JMP");
    assert_eq!(clean("\u{3000}@2\u{a0}\u{2003}"), "@2");
}

#[test]
fn whitespace_follows_unicode() {
    for c in [' ', '\t', '\n', '\r', '\u{b}', '\u{c}', '\u{85}', '\u{a0}', '\u{1680}', '\u{2000}',
        '\u{200a}', '\u{2028}', '\u{2029}', '\u{202f}', '\u{205f}', '\u{3000}']
    {
        assert!(is_whitespace_char(c));
        assert!(c.is_whitespace());
    }
    for c in ['a', '0', '/', '@', '\u{8}', '\u{e}', '\u{1f}', '\u{200b}', '\u{2060}', '\u{feff}'] {
        assert!(!is_whitespace_char(c));
        assert!(!c.is_whitespace());
    }
}

#[test]
fn chars_and_contains() {
    assert_eq!(chars_of("A=é"), vec!['A', '=', 'é']);
    assert_eq!(chars_of(""), Vec::<char>::new());
    assert!(contains_char("D=A", '='));
    assert!(!contains_char("D;JMP", '='));
    assert!(!contains_char("", ';'));
}

#[test]
fn advance_skips_lines_without_commands() {
    let mut parser = Parser::new(vec![
        "\n".to_string(),
        "   \n".to_string(),
        "// c\n".to_string(),
        "  // d\n".to_string(),
        "  (LOOP)  // here\n".to_string(),
        "\n".to_string(),
        "0;JMP".to_string(),
        "// end".to_string(),
    ]);
    assert_eq!(parser.get_command_type(), None);
    assert_eq!(parser.get_symbol(), None);
    assert_eq!(parser.dest(), None);
    assert_eq!(parser.comp(), None);
    assert_eq!(parser.jump(), None);
    assert_eq!(parser.advance(), Some("(LOOP)".to_string()));
    assert_eq!(parser.get_command_type(), Some(CommandType::L_COMMAND));
    assert_eq!(parser.get_symbol(), Some("LOOP".to_string()));
    assert_eq!(parser.advance(), Some("0;JMP".to_string()));
    assert_eq!(parser.advance(), None);
    assert_eq!(parser.advance(), None);
    // At the end of the source the last command stays the current one.
    assert_eq!(parser.get_command_type(), Some(CommandType::C_COMMAND));
    assert_eq!(parser.jump(), Some(Jump::JMP));
}

#[test]
fn rewind_starts_over() {
    let mut parser = Parser::new(add_program());
    let mut first: Vec<String> = Vec::new();
    while let Some(line) = parser.advance() {
        first.push(line);
    }
    parser.rewind();
    assert_eq!(parser.get_command_type(), Some(CommandType::C_COMMAND));
    let mut second: Vec<String> = Vec::new();
    while let Some(line) = parser.advance() {
        second.push(line);
    }
    assert_eq!(first, second);
    assert_eq!(second.len(), 6);
}

#[test]
fn read_line_takes_lines_as_they_stand() {
    let mut parser = Parser::new(vec!["// c\r\n".to_string(), "  @1 \n".to_string()]);
    assert_eq!(parser.read_line(), Some("// c\r\n".to_string()));
    assert_eq!(parser.read_line(), Some("  @1 \n".to_string()));
    assert_eq!(parser.read_line(), None);
    assert_eq!(parser.get_command_type(), None);
}

#[test]
fn empty_source_has_no_command() {
    let mut parser = Parser::new(Vec::new());
    assert_eq!(parser.advance(), None);
    assert_eq!(parser.get_command_type(), None);
}

#[test]
fn classify_goes_by_the_first_character() {
    assert_eq!(classify("@x"), CommandType::A_COMMAND);
    assert_eq!(classify("@"), CommandType::A_COMMAND);
    assert_eq!(classify("(X)"), CommandType::L_COMMAND);
    assert_eq!(classify("("), CommandType::L_COMMAND);
    assert_eq!(classify("D=A"), CommandType::C_COMMAND);
    assert_eq!(classify("x@("), CommandType::C_COMMAND);
    assert_eq!(classify(""), CommandType::C_COMMAND);
}

#[test]
fn symbols_of_commands() {
    assert_eq!(parser_on("@foo").get_symbol(), Some("foo".to_string()));
    assert_eq!(parser_on("@123").get_symbol(), Some("123".to_string()));
    assert_eq!(parser_on("@").get_symbol(), Some("".to_string()));
    assert_eq!(parser_on("@ x").get_symbol(), Some(" x".to_string()));
    assert_eq!(parser_on("(LOOP)").get_symbol(), Some("LOOP".to_string()));
    assert_eq!(parser_on("()").get_symbol(), Some("".to_string()));
    assert_eq!(parser_on("(").get_symbol(), Some("".to_string()));
    assert_eq!(parser_on("(END").get_symbol(), Some("EN".to_string()));
    assert_eq!(parser_on("(é)").get_symbol(), Some("é".to_string()));
    assert_eq!(parser_on("D=A").get_symbol(), None);
}

#[test]
fn fields_of_compute_instructions() {
    let p = parser_on("AM=M-1;JNE");
    assert_eq!((p.dest(), p.comp(), p.jump()), (Some(Destination::AM), Some(Comp::MMinus1), Some(Jump::JNE)));
    let p = parser_on("0;JMP");
    assert_eq!((p.dest(), p.comp(), p.jump()), (None, Some(Comp::Zero), Some(Jump::JMP)));
    let p = parser_on("D=M");
    assert_eq!((p.dest(), p.comp(), p.jump()), (Some(Destination::D), Some(Comp::M), None));
    let p = parser_on("D|M");
    assert_eq!((p.dest(), p.comp(), p.jump()), (None, Some(Comp::DOrM), None));
    // The destination is taken as it stands; computation and jump are trimmed.
    let p = parser_on("D = A ; JEQ");
    assert_eq!((p.dest(), p.comp(), p.jump()), (None, Some(Comp::A), Some(Jump::JEQ)));
    let p = parser_on("XY=D+1;JXX");
    assert_eq!((p.dest(), p.comp(), p.jump()), (None, Some(Comp::DPlus1), None));
    let p = parser_on("D=Q");
    assert_eq!((p.dest(), p.comp(), p.jump()), (Some(Destination::D), None, None));
    let p = parser_on("@5");
    assert_eq!((p.dest(), p.comp(), p.jump()), (None, None, None));
    let p = parser_on("(D=A;JMP)");
    assert_eq!((p.dest(), p.comp(), p.jump()), (None, None, None));
}

#[test]
fn extraction_rules() {
    assert_eq!(extract_dest(&"MD=D+1;JGT".to_string()), "MD");
    assert_eq!(extract_dest(&"A=D=M".to_string()), "A");
    assert_eq!(extract_dest(&"D+1".to_string()), "D+1");
    assert_eq!(extract_dest(&"=D".to_string()), "");
    assert_eq!(extract_comp(&"MD=D+1;JGT".to_string()), "D+1");
    assert_eq!(extract_comp(&"D=A".to_string()), "A");
    assert_eq!(extract_comp(&"A=D=M".to_string()), "M");
    assert_eq!(extract_comp(&"D;JGT".to_string()), "D");
    assert_eq!(extract_comp(&"D;JGT;JMP".to_string()), "D");
    assert_eq!(extract_comp(&"D+A".to_string()), "D+A");
    assert_eq!(extract_comp(&"D=".to_string()), "");
    assert_eq!(extract_comp(&"A=D;0;JMP".to_string()), "D");
    // A `;` before the first `=` leaves no computation.
    assert_eq!(extract_comp(&"D;J=P".to_string()), "");
    assert_eq!(extract_comp(&"".to_string()), "");
    assert_eq!(extract_jmp(&"MD=D+1;JGT".to_string()), "JGT");
    assert_eq!(extract_jmp(&"D;JGT;JMP".to_string()), "JMP");
    assert_eq!(extract_jmp(&"D=A".to_string()), "D=A");
    assert_eq!(extract_jmp(&"D;".to_string()), "");
}

#[test]
fn destination_table() {
    let table = [
        ("M", Destination::M, "001"),
        ("D", Destination::D, "010"),
        ("MD", Destination::MD, "011"),
        ("A", Destination::A, "100"),
        ("AM", Destination::AM, "101"),
        ("AD", Destination::AD, "110"),
        ("AMD", Destination::AMD, "111"),
    ];
    for (text, dest, code) in table {
        assert_eq!(Destination::from_str(text), Some(dest));
        assert_eq!(dest.to_code(), code);
    }
    for text in ["", "DM", "MA", "X", "m", " M", "M ", "AMDA", "ADM"] {
        assert_eq!(Destination::from_str(text), None);
    }
}

#[test]
fn computation_table() {
    let table = [
        ("0", Comp::Zero, "0101010"),
        ("1", Comp::One, "0111111"),
        ("-1", Comp::Minus1, "0111010"),
        ("D", Comp::D, "0001100"),
        ("A", Comp::A, "0110000"),
        ("!D", Comp::NotD, "0001101"),
        ("!A", Comp::NotA, "0110001"),
        ("-D", Comp::MinusD, "0001111"),
        ("-A", Comp::MinusA, "0110011"),
        ("D+1", Comp::DPlus1, "0011111"),
        ("A+1", Comp::APlus1, "0110111"),
        ("D-1", Comp::DMinus1, "0001110"),
        ("A-1", Comp::AMinus1, "0110010"),
        ("D+A", Comp::DPlusA, "0000010"),
        ("D-A", Comp::DMinusA, "0010011"),
        ("A-D", Comp::AMinusD, "0000111"),
        ("D&A", Comp::DAndA, "0000000"),
        ("D|A", Comp::DOrA, "0010101"),
        ("M", Comp::M, "1110000"),
        ("!M", Comp::NotM, "1110001"),
        ("-M", Comp::MinusM, "1110011"),
        ("M+1", Comp::MPlus1, "1110111"),
        ("M-1", Comp::MMinus1, "1110010"),
        ("D+M", Comp::DPlusM, "1000010"),
        ("D-M", Comp::DMinusM, "1010011"),
        ("M-D", Comp::MMinusD, "1000111"),
        ("D&M", Comp::DAndM, "1000000"),
        ("D|M", Comp::DOrM, "1010101"),
    ];
    assert_eq!(table.len(), 28);
    for (text, comp, code) in table {
        assert_eq!(Comp::from_str(text), Some(comp));
        assert_eq!(Comp::from_str(&format!("  {}\t", text)), Some(comp));
        assert_eq!(comp.to_code(), code);
        assert_eq!(comp.to_code().starts_with('1'), text.contains('M'));
    }
    for text in ["", "2", "A+D", "M+D", "1+D", "D + A", "d", "D+", "+1", "D&&A", "!", "-"] {
        assert_eq!(Comp::from_str(text), None);
    }
}

#[test]
fn jump_table() {
    let table = [
        ("JGT", Jump::JGT, "001"),
        ("JEQ", Jump::JEQ, "010"),
        ("JGE", Jump::JGE, "011"),
        ("JLT", Jump::JLT, "100"),
        ("JNE", Jump::JNE, "101"),
        ("JLE", Jump::JLE, "110"),
        ("JMP", Jump::JMP, "111"),
    ];
    for (text, jump, code) in table {
        assert_eq!(Jump::from_str(text), Some(jump));
        assert_eq!(Jump::from_str(&format!(" {} ", text)), Some(jump));
        assert_eq!(jump.to_code(), code);
    }
    for text in ["", "JMPX", "jmp", "J", "JG", "JM P"] {
        assert_eq!(Jump::from_str(text), None);
    }
}
