//! What holds of every program: laws of the encoder, of the symbol table
//! and of the translation, each proved from the definitions.
use crate::assembler::{
    address_line, assembly, command_line, compute_line, destination_code, jump_code, translation,
    AssemblerError,
};
use crate::code::{is_bit, is_bits, Code};
use crate::number::{
    binary_limit, binary_value, lemma_to_binary, literal_value, to_binary,
};
use crate::parser::{command_type, commands, comp_of, CommandType, Comp, Destination, Jump};
use crate::symbol_table::{
    bind, instruction_count, label_table, predefined_symbols, referenced_symbol, symbol_table_of,
    variable_count, with_labels, with_predefined, with_variables,
};
use vstd::prelude::*;

verus! {

/// Whether `name` is a label of the program: the first pass binds it.
pub open spec fn is_label(commands: Seq<Seq<char>>, name: Seq<char>) -> bool {
    !predefined_symbols().contains_key(name) && label_table(commands).contains_key(name)
}

/// Whether `name` is a variable of the program: the second pass binds it.
pub open spec fn is_variable(commands: Seq<Seq<char>>, name: Seq<char>) -> bool {
    !label_table(commands).contains_key(name) && symbol_table_of(commands).contains_key(name)
}

/// Whether `after` holds every binding of `before`.
pub open spec fn keeps(before: Map<Seq<char>, nat>, after: Map<Seq<char>, nat>) -> bool {
    forall|name: Seq<char>| #[trigger]
        before.contains_key(name) ==> after.contains_key(name) && after[name] == before[name]
}

/// Whether `table` binds the name of every label declaration among
/// `commands`.
pub open spec fn labels_bound(table: Map<Seq<char>, nat>, commands: Seq<Seq<char>>) -> bool {
    forall|i: int|
        0 <= i < commands.len() && command_type(#[trigger] commands[i]) == CommandType::L_COMMAND
            ==> table.contains_key(crate::parser::label_name(commands[i]))
}

/// Whether `table` binds every symbol that an address instruction among
/// `commands` refers to.
pub open spec fn references_bound(table: Map<Seq<char>, nat>, commands: Seq<Seq<char>>) -> bool {
    forall|i: int|
        0 <= i < commands.len() && referenced_symbol(#[trigger] commands[i]) is Some
            ==> table.contains_key(referenced_symbol(commands[i])->0)
}

/// Whether every compute instruction among `commands` names a computation.
pub open spec fn computations_known(commands: Seq<Seq<char>>) -> bool {
    forall|i: int|
        0 <= i < commands.len() && command_type(#[trigger] commands[i]) == CommandType::C_COMMAND
            ==> comp_of(commands[i]) is Some
}

/// The output line of a compute instruction has sixteen binary digits and
/// begins with `111`, whatever its fields are.
pub proof fn lemma_compute_line(dest: Option<Destination>, comp: Comp, jump: Option<Jump>)
    ensures
        compute_line(dest, comp, jump).len() == 16,
        compute_line(dest, comp, jump).take(3) == "111"@,
        is_bits(compute_line(dest, comp, jump)),
{
    reveal_strlit("111");
    reveal_strlit("000");
    comp.lemma_computation(Seq::empty());
    if let Some(d) = dest {
        d.lemma_destination(Seq::empty());
    }
    if let Some(j) = jump {
        j.lemma_jump(Seq::empty());
    }
    let line = compute_line(dest, comp, jump);
    let c = comp.code();
    let d = destination_code(dest);
    let j = jump_code(jump);
    assert(line.take(3) =~= "111"@);
    assert forall|i: int| 0 <= i < line.len() implies is_bit(#[trigger] line[i]) by {
        if i < 3 {
            assert(line[i] == "111"@[i]);
        } else if i < 10 {
            assert(line[i] == c[i - 3]);
        } else if i < 13 {
            assert(line[i] == d[i - 10]);
        } else {
            assert(line[i] == j[i - 13]);
        }
    }
}

/// The output line of an address instruction with an integer literal of at
/// most 32767 is `0` and then the literal in binary, in fifteen digits.
pub proof fn lemma_literal_address_line(symbol: Seq<char>, table: Map<Seq<char>, nat>, n: nat)
    requires
        literal_value(symbol) == Some(n),
        n <= 32767,
    ensures
        address_line(symbol, table) == Ok::<Seq<char>, AssemblerError>("0"@ + to_binary(n, 15)),
        to_binary(n, 15).len() == 15,
        is_bits(to_binary(n, 15)),
        binary_value(to_binary(n, 15)) == n,
        ("0"@ + to_binary(n, 15)).len() == 16,
        ("0"@ + to_binary(n, 15))[0] == '0',
{
    reveal_strlit("0");
    lemma_to_binary(n, 15);
    assert(binary_limit(15) == 32768) by {
        reveal_with_fuel(binary_limit, 16);
    }
}

/// The output line of an address instruction begins with `0` and goes on
/// with binary digits, fifteen of them at least; with fifteen exactly where
/// the address is at most 32767.
pub proof fn lemma_address_line(symbol: Seq<char>, table: Map<Seq<char>, nat>)
    requires
        address_line(symbol, table) is Ok,
    ensures
        address_line(symbol, table)->Ok_0.len() >= 16,
        address_line(symbol, table)->Ok_0[0] == '0',
        is_bits(address_line(symbol, table)->Ok_0),
        literal_value(symbol) matches Some(n) && n <= 32767 ==> address_line(
            symbol,
            table,
        )->Ok_0.len() == 16,
        literal_value(symbol) is None && table[symbol] <= 32767 ==> address_line(
            symbol,
            table,
        )->Ok_0.len() == 16,
{
    reveal_strlit("0");
    let address = match literal_value(symbol) {
        Some(n) => n,
        None => table[symbol],
    };
    lemma_to_binary(address, 15);
    assert(binary_limit(15) == 32768) by {
        reveal_with_fuel(binary_limit, 16);
    }
    let line = address_line(symbol, table)->Ok_0;
    assert(line =~= "0"@ + to_binary(address, 15));
    assert forall|i: int| 0 <= i < line.len() implies is_bit(#[trigger] line[i]) by {
        if i >= 1 {
            assert(line[i] == to_binary(address, 15)[i - 1]);
        }
    }
}

/// The first pass keeps every binding that it finds, and binds the name of
/// every label declaration.
pub proof fn lemma_with_labels(table: Map<Seq<char>, nat>, commands: Seq<Seq<char>>)
    ensures
        keeps(table, with_labels(table, commands)),
        labels_bound(with_labels(table, commands), commands),
    decreases commands.len(),
{
    if commands.len() > 0 {
        lemma_with_labels(table, commands.drop_last());
        let before = with_labels(table, commands.drop_last());
        let after = with_labels(table, commands);
        assert(keeps(before, after));
        assert forall|i: int|
            0 <= i < commands.len() && command_type(#[trigger] commands[i])
                == CommandType::L_COMMAND implies after.contains_key(
            crate::parser::label_name(commands[i]),
        ) by {
            if i < commands.len() - 1 {
                assert(commands.drop_last()[i] == commands[i]);
            }
        }
    }
}

/// The second pass keeps every binding that it finds, and binds every
/// symbol that an address instruction refers to.
pub proof fn lemma_with_variables(table: Map<Seq<char>, nat>, commands: Seq<Seq<char>>)
    ensures
        keeps(table, with_variables(table, commands)),
        references_bound(with_variables(table, commands), commands),
    decreases commands.len(),
{
    if commands.len() > 0 {
        lemma_with_variables(table, commands.drop_last());
        let before = with_variables(table, commands.drop_last());
        let after = with_variables(table, commands);
        assert(keeps(before, after));
        assert forall|i: int|
            0 <= i < commands.len() && referenced_symbol(
                #[trigger] commands[i],
            ) is Some implies after.contains_key(referenced_symbol(commands[i])->0) by {
            if i < commands.len() - 1 {
                assert(commands.drop_last()[i] == commands[i]);
            }
        }
    }
}

/// The first pass changes nothing in a table that binds every label.
pub proof fn lemma_with_labels_fixed(table: Map<Seq<char>, nat>, commands: Seq<Seq<char>>)
    requires
        labels_bound(table, commands),
    ensures
        with_labels(table, commands) == table,
    decreases commands.len(),
{
    if commands.len() > 0 {
        assert forall|i: int|
            0 <= i < commands.drop_last().len() && command_type(
                #[trigger] commands.drop_last()[i],
            ) == CommandType::L_COMMAND implies table.contains_key(
            crate::parser::label_name(commands.drop_last()[i]),
        ) by {
            assert(commands.drop_last()[i] == commands[i]);
        }
        lemma_with_labels_fixed(table, commands.drop_last());
        assert(commands.last() == commands[commands.len() - 1]);
    }
}

/// The second pass changes nothing in a table that binds every symbol
/// referred to.
pub proof fn lemma_with_variables_fixed(table: Map<Seq<char>, nat>, commands: Seq<Seq<char>>)
    requires
        references_bound(table, commands),
    ensures
        with_variables(table, commands) == table,
        variable_count(table, commands) == 0,
    decreases commands.len(),
{
    if commands.len() > 0 {
        assert forall|i: int|
            0 <= i < commands.drop_last().len() && referenced_symbol(
                #[trigger] commands.drop_last()[i],
            ) is Some implies table.contains_key(
            referenced_symbol(commands.drop_last()[i])->0,
        ) by {
            assert(commands.drop_last()[i] == commands[i]);
        }
        lemma_with_variables_fixed(table, commands.drop_last());
        assert(commands.last() == commands[commands.len() - 1]);
    }
}

/// The variables get the addresses from 16 on: the address of a name that
/// the second pass binds is at least 16, and below 16 plus the number of
/// variables.
pub proof fn lemma_variable_range(
    table: Map<Seq<char>, nat>,
    commands: Seq<Seq<char>>,
    name: Seq<char>,
)
    requires
        !table.contains_key(name),
        with_variables(table, commands).contains_key(name),
    ensures
        16 <= with_variables(table, commands)[name] < 16 + variable_count(table, commands),
    decreases commands.len(),
{
    if commands.len() > 0 {
        let before = with_variables(table, commands.drop_last());
        if before.contains_key(name) {
            lemma_variable_range(table, commands.drop_last(), name);
        }
    }
}

/// Two variables never share an address.
pub proof fn lemma_variables_distinct(
    table: Map<Seq<char>, nat>,
    commands: Seq<Seq<char>>,
    a: Seq<char>,
    b: Seq<char>,
)
    requires
        a != b,
        !table.contains_key(a),
        !table.contains_key(b),
        with_variables(table, commands).contains_key(a),
        with_variables(table, commands).contains_key(b),
    ensures
        with_variables(table, commands)[a] != with_variables(table, commands)[b],
    decreases commands.len(),
{
    if commands.len() > 0 {
        let before = with_variables(table, commands.drop_last());
        if before.contains_key(a) && before.contains_key(b) {
            lemma_variables_distinct(table, commands.drop_last(), a, b);
        } else if before.contains_key(a) {
            lemma_variable_range(table, commands.drop_last(), a);
        } else if before.contains_key(b) {
            lemma_variable_range(table, commands.drop_last(), b);
        }
    }
}

/// Every address from 16 on, below 16 plus the number of variables, is the
/// address of a variable: the proof hands out its name.
pub proof fn lemma_variable_addresses_dense(
    table: Map<Seq<char>, nat>,
    commands: Seq<Seq<char>>,
    address: nat,
) -> (name: Seq<char>)
    requires
        16 <= address < 16 + variable_count(table, commands),
    ensures
        !table.contains_key(name),
        with_variables(table, commands).contains_key(name),
        with_variables(table, commands)[name] == address,
    decreases commands.len(),
{
    let before = with_variables(table, commands.drop_last());
    lemma_with_variables(table, commands.drop_last());
    if address < 16 + variable_count(table, commands.drop_last()) {
        lemma_variable_addresses_dense(table, commands.drop_last(), address)
    } else {
        referenced_symbol(commands.last())->0
    }
}

/// No variable is ever given an address below 16, and a label never has the
/// address of a variable, unless the label's own address, the number of
/// instructions before it, lies among the addresses of the variables.
pub proof fn lemma_labels_apart_from_variables(
    commands: Seq<Seq<char>>,
    label: Seq<char>,
    variable: Seq<char>,
)
    requires
        is_label(commands, label),
        is_variable(commands, variable),
        !(16 <= label_table(commands)[label] < 16 + variable_count(
            label_table(commands),
            commands,
        )),
    ensures
        symbol_table_of(commands)[variable] >= 16,
        symbol_table_of(commands)[label] == label_table(commands)[label],
        symbol_table_of(commands)[label] != symbol_table_of(commands)[variable],
{
    lemma_with_variables(label_table(commands), commands);
    lemma_variable_range(label_table(commands), commands, variable);
}

/// No variable is ever given an address below 16, for any program.
pub proof fn lemma_variables_from_sixteen(commands: Seq<Seq<char>>, variable: Seq<char>)
    requires
        is_variable(commands, variable),
    ensures
        symbol_table_of(commands)[variable] >= 16,
{
    lemma_variable_range(label_table(commands), commands, variable);
}

/// The second pass never moves a label: what the first pass bound keeps its
/// address.
pub proof fn lemma_labels_stay(commands: Seq<Seq<char>>, name: Seq<char>)
    requires
        label_table(commands).contains_key(name),
    ensures
        symbol_table_of(commands).contains_key(name),
        symbol_table_of(commands)[name] == label_table(commands)[name],
{
    lemma_with_variables(label_table(commands), commands);
}

/// The symbol table depends on the commands of the source alone: two
/// sources with the same commands have the same table.
pub proof fn lemma_table_determined(first: Seq<Seq<char>>, second: Seq<Seq<char>>)
    requires
        commands(first) == commands(second),
    ensures
        symbol_table_of(commands(first)) == symbol_table_of(commands(second)),
        assembly(first) == assembly(second),
{
}

/// Building the table again changes nothing: binding the predefined
/// symbols and the two passes over the same commands, begun with the
/// finished table, end with the same table.
pub proof fn lemma_build_idempotent(commands: Seq<Seq<char>>)
    ensures
        with_predefined(symbol_table_of(commands)) == symbol_table_of(commands),
        with_variables(
            with_labels(with_predefined(symbol_table_of(commands)), commands),
            commands,
        ) == symbol_table_of(commands),
{
    let labels = label_table(commands);
    let table = symbol_table_of(commands);
    lemma_with_labels(predefined_symbols(), commands);
    lemma_with_variables(labels, commands);
    assert(labels_bound(table, commands)) by {
        assert forall|i: int|
            0 <= i < commands.len() && command_type(#[trigger] commands[i])
                == CommandType::L_COMMAND implies table.contains_key(
            crate::parser::label_name(commands[i]),
        ) by {
            assert(labels.contains_key(crate::parser::label_name(commands[i])));
        }
    }
    lemma_with_labels_fixed(table, commands);
    lemma_with_variables_fixed(table, commands);
    assert(keeps(predefined_symbols(), table));
    lemma_predefined_over(table);
    assert(with_predefined(table) =~= table);
}

/// Binding the predefined symbols in a table gives each of them the address
/// it has in the table of the predefined symbols alone, and leaves the other
/// names as they are.
pub proof fn lemma_predefined_over(table: Map<Seq<char>, nat>)
    ensures
        with_predefined(table) == table.union_prefer_right(predefined_symbols()),
{
    assert(with_predefined(table) =~= table.union_prefer_right(predefined_symbols()));
}

/// The predefined symbols keep their addresses, whatever the program holds.
pub proof fn lemma_predefined_stay(commands: Seq<Seq<char>>, name: Seq<char>)
    requires
        predefined_symbols().contains_key(name),
    ensures
        symbol_table_of(commands).contains_key(name),
        symbol_table_of(commands)[name] == predefined_symbols()[name],
{
    lemma_with_labels(predefined_symbols(), commands);
    lemma_with_variables(label_table(commands), commands);
}

/// The addresses of the predefined symbols.
pub proof fn lemma_predefined_addresses()
    ensures
        predefined_symbols().contains_key("SP"@) && predefined_symbols()["SP"@] == 0,
        predefined_symbols().contains_key("LCL"@) && predefined_symbols()["LCL"@] == 1,
        predefined_symbols().contains_key("ARG"@) && predefined_symbols()["ARG"@] == 2,
        predefined_symbols().contains_key("THIS"@) && predefined_symbols()["THIS"@] == 3,
        predefined_symbols().contains_key("THAT"@) && predefined_symbols()["THAT"@] == 4,
        predefined_symbols().contains_key("R0"@) && predefined_symbols()["R0"@] == 0,
        predefined_symbols().contains_key("R1"@) && predefined_symbols()["R1"@] == 1,
        predefined_symbols().contains_key("R2"@) && predefined_symbols()["R2"@] == 2,
        predefined_symbols().contains_key("R3"@) && predefined_symbols()["R3"@] == 3,
        predefined_symbols().contains_key("R4"@) && predefined_symbols()["R4"@] == 4,
        predefined_symbols().contains_key("R5"@) && predefined_symbols()["R5"@] == 5,
        predefined_symbols().contains_key("R6"@) && predefined_symbols()["R6"@] == 6,
        predefined_symbols().contains_key("R7"@) && predefined_symbols()["R7"@] == 7,
        predefined_symbols().contains_key("R8"@) && predefined_symbols()["R8"@] == 8,
        predefined_symbols().contains_key("R9"@) && predefined_symbols()["R9"@] == 9,
        predefined_symbols().contains_key("R10"@) && predefined_symbols()["R10"@] == 10,
        predefined_symbols().contains_key("R11"@) && predefined_symbols()["R11"@] == 11,
        predefined_symbols().contains_key("R12"@) && predefined_symbols()["R12"@] == 12,
        predefined_symbols().contains_key("R13"@) && predefined_symbols()["R13"@] == 13,
        predefined_symbols().contains_key("R14"@) && predefined_symbols()["R14"@] == 14,
        predefined_symbols().contains_key("R15"@) && predefined_symbols()["R15"@] == 15,
        predefined_symbols().contains_key("SCREEN"@) && predefined_symbols()["SCREEN"@] == 16384,
        predefined_symbols().contains_key("KBD"@) && predefined_symbols()["KBD"@] == 24576,
{
    reveal_strlit("SP");
    reveal_strlit("LCL");
    reveal_strlit("ARG");
    reveal_strlit("THIS");
    reveal_strlit("THAT");
    reveal_strlit("R0");
    reveal_strlit("R1");
    reveal_strlit("R2");
    reveal_strlit("R3");
    reveal_strlit("R4");
    reveal_strlit("R5");
    reveal_strlit("R6");
    reveal_strlit("R7");
    reveal_strlit("R8");
    reveal_strlit("R9");
    reveal_strlit("R10");
    reveal_strlit("R11");
    reveal_strlit("R12");
    reveal_strlit("R13");
    reveal_strlit("R14");
    reveal_strlit("R15");
    reveal_strlit("SCREEN");
    reveal_strlit("KBD");
    // The length and the first three characters tell any two names apart.
    let ghost s0 = ("SP"@.len(), "SP"@[0], "SP"@[1], "SP"@[2]);
    let ghost s1 = ("LCL"@.len(), "LCL"@[0], "LCL"@[1], "LCL"@[2]);
    let ghost s2 = ("ARG"@.len(), "ARG"@[0], "ARG"@[1], "ARG"@[2]);
    let ghost s3 = ("THIS"@.len(), "THIS"@[0], "THIS"@[1], "THIS"@[2]);
    let ghost s4 = ("THAT"@.len(), "THAT"@[0], "THAT"@[1], "THAT"@[2]);
    let ghost s5 = ("R0"@.len(), "R0"@[0], "R0"@[1], "R0"@[2]);
    let ghost s6 = ("R1"@.len(), "R1"@[0], "R1"@[1], "R1"@[2]);
    let ghost s7 = ("R2"@.len(), "R2"@[0], "R2"@[1], "R2"@[2]);
    let ghost s8 = ("R3"@.len(), "R3"@[0], "R3"@[1], "R3"@[2]);
    let ghost s9 = ("R4"@.len(), "R4"@[0], "R4"@[1], "R4"@[2]);
    let ghost s10 = ("R5"@.len(), "R5"@[0], "R5"@[1], "R5"@[2]);
    let ghost s11 = ("R6"@.len(), "R6"@[0], "R6"@[1], "R6"@[2]);
    let ghost s12 = ("R7"@.len(), "R7"@[0], "R7"@[1], "R7"@[2]);
    let ghost s13 = ("R8"@.len(), "R8"@[0], "R8"@[1], "R8"@[2]);
    let ghost s14 = ("R9"@.len(), "R9"@[0], "R9"@[1], "R9"@[2]);
    let ghost s15 = ("R10"@.len(), "R10"@[0], "R10"@[1], "R10"@[2]);
    let ghost s16 = ("R11"@.len(), "R11"@[0], "R11"@[1], "R11"@[2]);
    let ghost s17 = ("R12"@.len(), "R12"@[0], "R12"@[1], "R12"@[2]);
    let ghost s18 = ("R13"@.len(), "R13"@[0], "R13"@[1], "R13"@[2]);
    let ghost s19 = ("R14"@.len(), "R14"@[0], "R14"@[1], "R14"@[2]);
    let ghost s20 = ("R15"@.len(), "R15"@[0], "R15"@[1], "R15"@[2]);
    let ghost s21 = ("SCREEN"@.len(), "SCREEN"@[0], "SCREEN"@[1], "SCREEN"@[2]);
    let ghost s22 = ("KBD"@.len(), "KBD"@[0], "KBD"@[1], "KBD"@[2]);
}

/// A translation has one output line for each instruction, all of binary
/// digits and of sixteen or more.
pub proof fn lemma_translation_lines(commands: Seq<Seq<char>>, table: Map<Seq<char>, nat>)
    requires
        translation(commands, table) is Ok,
    ensures
        translation(commands, table)->Ok_0.len() == instruction_count(commands),
        forall|i: int|
            0 <= i < translation(commands, table)->Ok_0.len() ==> is_bits(
                #[trigger] translation(commands, table)->Ok_0[i],
            ) && translation(commands, table)->Ok_0[i].len() >= 16,
    decreases commands.len(),
{
    if commands.len() > 0 {
        lemma_translation_lines(commands.drop_last(), table);
        let before = translation(commands.drop_last(), table)->Ok_0;
        let lines = translation(commands, table)->Ok_0;
        let command = commands.last();
        match command_type(command) {
            CommandType::L_COMMAND => {},
            CommandType::A_COMMAND => {
                lemma_address_line(command.skip(1), table);
            },
            CommandType::C_COMMAND => {
                lemma_compute_line(
                    crate::parser::dest_of(command),
                    comp_of(command)->0,
                    crate::parser::jump_of(command),
                );
            },
        }
        assert forall|i: int| 0 <= i < lines.len() implies is_bits(#[trigger] lines[i])
            && lines[i].len() >= 16 by {
            if i < before.len() {
                assert(lines[i] == before[i]);
            }
        }
    }
}

/// With a table that binds every symbol referred to, a translation fails
/// only on a compute instruction that names no computation, and it fails
/// whenever there is one.
pub proof fn lemma_translation_fails(commands: Seq<Seq<char>>, table: Map<Seq<char>, nat>)
    requires
        references_bound(table, commands),
    ensures
        translation(commands, table) is Ok <==> computations_known(commands),
        translation(commands, table) matches Err(e) ==> e == AssemblerError::UnknownComputation,
    decreases commands.len(),
{
    if commands.len() > 0 {
        let front = commands.drop_last();
        assert forall|i: int|
            0 <= i < front.len() && referenced_symbol(
                #[trigger] front[i],
            ) is Some implies table.contains_key(referenced_symbol(front[i])->0) by {
            assert(front[i] == commands[i]);
        }
        lemma_translation_fails(front, table);
        let command = commands.last();
        assert(command == commands[commands.len() - 1]);
        if computations_known(commands) {
            assert forall|i: int|
                0 <= i < front.len() && command_type(#[trigger] front[i])
                    == CommandType::C_COMMAND implies comp_of(front[i]) is Some by {
                assert(front[i] == commands[i]);
            }
        }
        if computations_known(front) && (command_type(command) == CommandType::C_COMMAND
            ==> comp_of(command) is Some) {
            assert forall|i: int|
                0 <= i < commands.len() && command_type(#[trigger] commands[i])
                    == CommandType::C_COMMAND implies comp_of(commands[i]) is Some by {
                if i < front.len() {
                    assert(front[i] == commands[i]);
                }
            }
        }
    }
}

/// The symbol table of a program binds every symbol that the program refers
/// to: the translation of a program never fails on a symbol. It fails on a
/// compute instruction that names no computation, and on nothing else.
pub proof fn lemma_assembly_fails(source: Seq<Seq<char>>)
    ensures
        assembly(source) is Ok <==> computations_known(commands(source)),
        assembly(source) matches Err(e) ==> e == AssemblerError::UnknownComputation,
{
    let program = commands(source);
    lemma_with_variables(label_table(program), program);
    lemma_translation_fails(program, symbol_table_of(program));
}

} // verus!
