use hack_assembler::assembler::assemble;
use hack_assembler::parser::{CommandType, Parser};
use hack_assembler::symbol_table::SymbolTable;

fn lines(source: &[&str]) -> Vec<String> {
    source.iter().map(|line| format!("{}\n", line)).collect()
}

fn table_of(source: &[&str]) -> SymbolTable {
    let mut parser = Parser::new(lines(source));
    SymbolTable::new(&mut parser)
}

fn predefined() -> Vec<(String, u64)> {
    let mut all = vec![
        ("SP".to_string(), 0),
        ("LCL".to_string(), 1),
        ("ARG".to_string(), 2),
        ("THIS".to_string(), 3),
        ("THAT".to_string(), 4),
        ("SCREEN".to_string(), 16384),
        ("KBD".to_string(), 24576),
    ];
    for i in 0..16u64 {
        all.push((format!("R{}", i), i));
    }
    all
}

#[test]
fn predefined_symbols_have_their_fixed_addresses() {
    let table = table_of(&[]);
    let all = predefined();
    assert_eq!(all.len(), 23);
    for (name, address) in all {
        assert_eq!(table.get_address(&name), Some(address));
        assert_eq!(table.get_binary(&name), Some(format!("{:015b}", address)));
    }
    assert_eq!(table.get_binary("SCREEN"), Some("100000000000000".to_string()));
    assert_eq!(table.get_binary("KBD"), Some("110000000000000".to_string()));
    assert_eq!(table.get_binary("R16"), None);
    assert_eq!(table.get_binary("sp"), None);
    assert_eq!(table.get_binary(""), None);
}

#[test]
fn predefined_symbols_keep_their_addresses_in_any_program() {
    let table = table_of(&[
        "@1", "(SP)", "@2", "(R5)", "(KBD)", "@SCREEN", "@R15", "@3", "(SCREEN)", "@LCL", "@x",
    ]);
    for (name, address) in predefined() {
        assert_eq!(table.get_address(&name), Some(address));
    }
    assert_eq!(table.get_address("x"), Some(16));
    let output = assemble(lines(&["D=A", "(KBD)", "@KBD", "@SP", "@R13"])).unwrap();
    assert_eq!(output[1], "0110000000000000");
    assert_eq!(output[2], "0000000000000000");
    assert_eq!(output[3], "0000000000001101");
}

#[test]
fn labels_are_bound_to_the_next_instruction() {
    let table = table_of(&["(START)", "@1", "D=A", "(MID)", "(ALSO)", "0;JMP", "(END)"]);
    assert_eq!(table.get_address("START"), Some(0));
    assert_eq!(table.get_address("MID"), Some(2));
    assert_eq!(table.get_address("ALSO"), Some(2));
    assert_eq!(table.get_address("END"), Some(3));
    assert_eq!(table.get_binary("END"), Some("000000000000011".to_string()));
}

#[test]
fn the_first_binding_of_a_label_stays() {
    let table = table_of(&["(TWICE)", "D=A", "D=A", "(TWICE)", "@TWICE"]);
    assert_eq!(table.get_address("TWICE"), Some(0));
}

#[test]
fn variables_follow_first_occurrence_and_skip_bound_symbols() {
    let table = table_of(&[
        "@first", "@R3", "@second", "@first", "@7", "@LATER", "@third", "(LATER)", "@SCREEN",
        "@fourth",
    ]);
    assert_eq!(table.get_address("first"), Some(16));
    assert_eq!(table.get_address("second"), Some(17));
    assert_eq!(table.get_address("third"), Some(18));
    assert_eq!(table.get_address("fourth"), Some(19));
    assert_eq!(table.get_address("LATER"), Some(7));
    assert_eq!(table.get_address("7"), None);
    assert_eq!(table.get_address("R3"), Some(3));
}

#[test]
fn no_variable_lies_below_sixteen() {
    let source = ["@a", "(L0)", "@b", "@c", "(L1)", "D=A", "@d", "(L2)"];
    let table = table_of(&source);
    let variables = ["a", "b", "c", "d"];
    let labels = ["L0", "L1", "L2"];
    for (i, v) in variables.iter().enumerate() {
        let address = table.get_address(v).unwrap();
        assert_eq!(address, 16 + i as u64);
        for l in labels {
            assert_ne!(table.get_address(l), Some(address));
        }
    }
}

#[test]
fn a_label_past_the_sixteenth_instruction_may_share_a_number_with_a_variable() {
    let mut source: Vec<&str> = Vec::new();
    for _ in 0..16 {
        source.push("D=A");
    }
    source.push("(FAR)");
    source.push("@var");
    let table = table_of(&source);
    assert_eq!(table.get_address("FAR"), Some(16));
    assert_eq!(table.get_address("var"), Some(16));
}

#[test]
fn building_twice_gives_the_same_bindings() {
    let source = lines(&["@i", "(LOOP)", "@LOOP", "@j", "(END)", "@END", "@R2", "@i"]);
    let mut parser = Parser::new(source);
    let first = SymbolTable::new(&mut parser);
    let second = SymbolTable::new(&mut parser);
    for name in ["i", "j", "LOOP", "END", "R2", "SP", "KBD", "none"] {
        assert_eq!(first.get_address(name), second.get_address(name));
        assert_eq!(first.get_binary(name), second.get_binary(name));
    }
    assert_eq!(first.get_address("i"), Some(16));
    assert_eq!(first.get_address("j"), Some(17));
    assert_eq!(first.get_address("LOOP"), Some(1));
    assert_eq!(first.get_address("END"), Some(3));
}

#[test]
fn passes_can_be_run_one_by_one() {
    let mut parser = Parser::new(lines(&["D=A", "(L)", "@v", "@L", "@SP"]));
    let mut table = SymbolTable::new(&mut Parser::new(Vec::new()));
    assert_eq!(table.get_address("SP"), Some(0));
    table.first_pass(&mut parser);
    assert_eq!(table.get_address("L"), Some(1));
    assert_eq!(table.get_address("v"), None);
    table.second_pass(&mut parser);
    assert_eq!(table.get_address("v"), Some(16));
    assert_eq!(table.get_address("L"), Some(1));
    table.bind("v", 99);
    assert_eq!(table.get_address("v"), Some(16));
    table.bind("w", 99);
    assert_eq!(table.get_address("w"), Some(99));
    table.add_predefined_symbols();
    assert_eq!(table.get_address("R15"), Some(15));
}

#[test]
fn the_table_is_built_from_the_whole_source() {
    let mut parser = Parser::new(lines(&["(A)", "@x", "(B)", "@y"]));
    parser.advance();
    parser.advance();
    parser.advance();
    let table = SymbolTable::new(&mut parser);
    assert_eq!(table.get_address("A"), Some(0));
    assert_eq!(table.get_address("B"), Some(1));
    assert_eq!(table.get_address("x"), Some(16));
    assert_eq!(table.get_address("y"), Some(17));
    assert_eq!(parser.advance(), None);
    assert_eq!(parser.get_command_type(), Some(CommandType::A_COMMAND));
}

#[test]
fn addresses_beyond_fifteen_bits_take_more_digits() {
    let mut table = SymbolTable::new(&mut Parser::new(Vec::new()));
    table.bind("far", 32768);
    assert_eq!(table.get_binary("far"), Some("1000000000000000".to_string()));
    table.bind("edge", 32767);
    assert_eq!(table.get_binary("edge"), Some("111111111111111".to_string()));
}

#[test]
fn symbols_are_taken_as_they_stand() {
    let table = table_of(&["@ x", "@x", "@"]);
    assert_eq!(table.get_address(" x"), Some(16));
    assert_eq!(table.get_address("x"), Some(17));
    assert_eq!(table.get_address(""), Some(18));
    assert_eq!(table.get_address("X"), None);
    let labelled = table_of(&["@x", "@", "D=A", "()"]);
    assert_eq!(labelled.get_address(""), Some(3));
    assert_eq!(labelled.get_address("x"), Some(16));
}
