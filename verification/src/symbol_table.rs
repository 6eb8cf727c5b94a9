//! The symbol table: the addresses of the predefined symbols, of the labels
//! and of the variables of a program, found in two passes over its source.
use crate::number::{literal_value, parse_literal, push_binary, to_binary};
use crate::parser::{command_type, commands, label_name, last_command, CommandType, Parser};
use vstd::hash_map::StringHashMap;
use vstd::prelude::*;

verus! {

/// The address that the first variable of a program gets.
pub const FIRST_VARIABLE: u64 = 16;

/// The number of binary digits of an address in an output line.
pub const ADDRESS_WIDTH: usize = 15;

/// `table` with the predefined symbols bound to their fixed addresses.
pub open spec fn with_predefined(table: Map<Seq<char>, nat>) -> Map<Seq<char>, nat> {
    table
        .insert("SP"@, 0)
        .insert("LCL"@, 1)
        .insert("ARG"@, 2)
        .insert("THIS"@, 3)
        .insert("THAT"@, 4)
        .insert("R0"@, 0)
        .insert("R1"@, 1)
        .insert("R2"@, 2)
        .insert("R3"@, 3)
        .insert("R4"@, 4)
        .insert("R5"@, 5)
        .insert("R6"@, 6)
        .insert("R7"@, 7)
        .insert("R8"@, 8)
        .insert("R9"@, 9)
        .insert("R10"@, 10)
        .insert("R11"@, 11)
        .insert("R12"@, 12)
        .insert("R13"@, 13)
        .insert("R14"@, 14)
        .insert("R15"@, 15)
        .insert("SCREEN"@, 16384)
        .insert("KBD"@, 24576)
}

/// The predefined symbols with their addresses: the table before any pass.
pub open spec fn predefined_symbols() -> Map<Seq<char>, nat> {
    with_predefined(Map::empty())
}

/// `table` with `name` bound to `address`, unless `name` is bound already:
/// the first binding of a name stays.
pub open spec fn bind(table: Map<Seq<char>, nat>, name: Seq<char>, address: nat) -> Map<
    Seq<char>,
    nat,
> {
    if table.contains_key(name) {
        table
    } else {
        table.insert(name, address)
    }
}

/// The number of instructions among `commands`: those that are no label
/// declarations.
pub open spec fn instruction_count(commands: Seq<Seq<char>>) -> nat
    decreases commands.len(),
{
    if commands.len() == 0 {
        0
    } else if command_type(commands.last()) == CommandType::L_COMMAND {
        instruction_count(commands.drop_last())
    } else {
        instruction_count(commands.drop_last()) + 1
    }
}

/// `table` after the first pass over `commands`: each label is bound, in
/// order, to the address of the instruction that follows it, which is the
/// number of instructions before it.
pub open spec fn with_labels(table: Map<Seq<char>, nat>, commands: Seq<Seq<char>>) -> Map<
    Seq<char>,
    nat,
>
    decreases commands.len(),
{
    if commands.len() == 0 {
        table
    } else {
        let before = with_labels(table, commands.drop_last());
        let command = commands.last();
        if command_type(command) == CommandType::L_COMMAND {
            bind(before, label_name(command), instruction_count(commands.drop_last()))
        } else {
            before
        }
    }
}

/// The symbol that `command` refers to: that of an address instruction,
/// unless it is an integer literal.
pub open spec fn referenced_symbol(command: Seq<char>) -> Option<Seq<char>> {
    if command_type(command) == CommandType::A_COMMAND && literal_value(command.skip(1)) is None {
        Some(command.skip(1))
    } else {
        None
    }
}

/// `table` after the second pass over `commands`: each symbol that an
/// address instruction refers to and that is not bound yet is bound, in
/// order, to the next free address, the first of them to 16.
pub open spec fn with_variables(table: Map<Seq<char>, nat>, commands: Seq<Seq<char>>) -> Map<
    Seq<char>,
    nat,
>
    decreases commands.len(), 1nat,
{
    if commands.len() == 0 {
        table
    } else {
        let before = with_variables(table, commands.drop_last());
        match referenced_symbol(commands.last()) {
            Some(symbol) => bind(
                before,
                symbol,
                FIRST_VARIABLE as nat + variable_count(table, commands.drop_last()),
            ),
            None => before,
        }
    }
}

/// The number of variables that the second pass over `commands` adds to
/// `table`.
pub open spec fn variable_count(table: Map<Seq<char>, nat>, commands: Seq<Seq<char>>) -> nat
    decreases commands.len(), 0nat,
{
    if commands.len() == 0 {
        0
    } else {
        let count = variable_count(table, commands.drop_last());
        match referenced_symbol(commands.last()) {
            Some(symbol) => if with_variables(table, commands.drop_last()).contains_key(symbol) {
                count
            } else {
                count + 1
            },
            None => count,
        }
    }
}

/// The table after the first pass over `commands`.
pub open spec fn label_table(commands: Seq<Seq<char>>) -> Map<Seq<char>, nat> {
    with_labels(predefined_symbols(), commands)
}

/// The symbol table of a program: the predefined symbols, then its labels,
/// then its variables.
pub open spec fn symbol_table_of(commands: Seq<Seq<char>>) -> Map<Seq<char>, nat> {
    with_variables(label_table(commands), commands)
}

/// A table from symbols to addresses.
pub struct SymbolTable {
    hash_map: StringHashMap<u64>,
}

impl SymbolTable {
    /// The bindings of the table.
    pub closed spec fn view(&self) -> Map<Seq<char>, nat> {
        Map::new(
            |name: Seq<char>| self.hash_map@.contains_key(name),
            |name: Seq<char>| self.hash_map@[name] as nat,
        )
    }

    /// The symbol table of the source of `parser`, built in two passes over
    /// all of it. The scanner is left behind the last line.
    pub fn new(parser: &mut Parser) -> (table: Self)
        ensures
            table@ == symbol_table_of(commands(old(parser).source())),
            final(parser).source() == old(parser).source(),
            final(parser).position() == old(parser).source().len(),
            final(parser).current() == last_command(
                commands(old(parser).source()),
                old(parser).current(),
            ),
    {
        let mut symbol_table = SymbolTable { hash_map: StringHashMap::new() };
        assert(symbol_table@ =~= Map::<Seq<char>, nat>::empty());
        symbol_table.add_predefined_symbols();
        symbol_table.first_pass(parser);
        symbol_table.second_pass(parser);
        symbol_table
    }

    /// Binds `name` to `address`, whatever it was bound to.
    fn set(&mut self, name: &str, address: u64)
        ensures
            final(self)@ == old(self)@.insert(name@, address as nat),
    {
        self.hash_map.insert(name.to_string(), address);
        assert(self@ =~= old(self)@.insert(name@, address as nat));
    }

    /// Binds `name` to `address` unless it is bound already.
    pub fn bind(&mut self, name: &str, address: u64)
        ensures
            final(self)@ == bind(old(self)@, name@, address as nat),
    {
        if !self.hash_map.contains_key(name) {
            self.set(name, address);
        }
    }

    /// Binds the predefined symbols to their fixed addresses.
    pub fn add_predefined_symbols(&mut self)
        ensures
            final(self)@ == with_predefined(old(self)@),
    {
        self.set("SP", 0);
        self.set("LCL", 1);
        self.set("ARG", 2);
        self.set("THIS", 3);
        self.set("THAT", 4);
        self.set("R0", 0);
        self.set("R1", 1);
        self.set("R2", 2);
        self.set("R3", 3);
        self.set("R4", 4);
        self.set("R5", 5);
        self.set("R6", 6);
        self.set("R7", 7);
        self.set("R8", 8);
        self.set("R9", 9);
        self.set("R10", 10);
        self.set("R11", 11);
        self.set("R12", 12);
        self.set("R13", 13);
        self.set("R14", 14);
        self.set("R15", 15);
        self.set("SCREEN", 16384);
        self.set("KBD", 24576);
    }

    /// The first pass: binds the labels of the source of `parser`.
    pub fn first_pass(&mut self, parser: &mut Parser)
        ensures
            final(self)@ == with_labels(old(self)@, commands(old(parser).source())),
            final(parser).source() == old(parser).source(),
            final(parser).position() == old(parser).source().len(),
            final(parser).current() == last_command(
                commands(old(parser).source()),
                old(parser).current(),
            ),
    {
        parser.rewind();
        let ghost source = parser.source();
        let ghost table = self@;
        let ghost current = parser.current();
        let mut current_address: u64 = 0;
        assert(source.take(0) =~= Seq::<Seq<char>>::empty());
        loop
            invariant
                parser.source() == source,
                parser.position() <= source.len() <= isize::MAX,
                current_address <= parser.position(),
                current_address == instruction_count(
                    commands(source.take(parser.position() as int)),
                ),
                self@ == with_labels(table, commands(source.take(parser.position() as int))),
                parser.current() == last_command(
                    commands(source.take(parser.position() as int)),
                    current,
                ),
            ensures
                parser.source() == source,
                parser.position() == source.len(),
                self@ == with_labels(table, commands(source.take(parser.position() as int))),
                parser.current() == last_command(
                    commands(source.take(parser.position() as int)),
                    current,
                ),
            decreases source.len() - parser.position(),
        {
            let ghost before = commands(source.take(parser.position() as int));
            match parser.advance() {
                None => {
                    break ;
                },
                Some(command) => {
                    assert(before.push(command@).drop_last() =~= before);
                    match parser.get_command_type() {
                        Some(CommandType::L_COMMAND) => {
                            match parser.get_symbol() {
                                Some(symbol) => {
                                    self.bind(symbol.as_str(), current_address);
                                },
                                None => {},
                            }
                        },
                        _ => {
                            current_address = current_address + 1;
                        },
                    }
                },
            }
        }
        assert(source.take(source.len() as int) =~= source);
    }

    /// The second pass: binds the variables of the source of `parser`.
    pub fn second_pass(&mut self, parser: &mut Parser)
        ensures
            final(self)@ == with_variables(old(self)@, commands(old(parser).source())),
            final(parser).source() == old(parser).source(),
            final(parser).position() == old(parser).source().len(),
            final(parser).current() == last_command(
                commands(old(parser).source()),
                old(parser).current(),
            ),
    {
        parser.rewind();
        let ghost source = parser.source();
        let ghost table = self@;
        let ghost current = parser.current();
        let mut next_available_address: u64 = FIRST_VARIABLE;
        assert(source.take(0) =~= Seq::<Seq<char>>::empty());
        loop
            invariant
                parser.source() == source,
                parser.position() <= source.len() <= isize::MAX,
                next_available_address <= FIRST_VARIABLE + parser.position(),
                next_available_address == FIRST_VARIABLE + variable_count(
                    table,
                    commands(source.take(parser.position() as int)),
                ),
                self@ == with_variables(table, commands(source.take(parser.position() as int))),
                parser.current() == last_command(
                    commands(source.take(parser.position() as int)),
                    current,
                ),
            ensures
                parser.source() == source,
                parser.position() == source.len(),
                self@ == with_variables(table, commands(source.take(parser.position() as int))),
                parser.current() == last_command(
                    commands(source.take(parser.position() as int)),
                    current,
                ),
            decreases source.len() - parser.position(),
        {
            let ghost before = commands(source.take(parser.position() as int));
            match parser.advance() {
                None => {
                    break ;
                },
                Some(command) => {
                    assert(before.push(command@).drop_last() =~= before);
                    match parser.get_command_type() {
                        Some(CommandType::A_COMMAND) => {
                            match parser.get_symbol() {
                                Some(symbol) => {
                                    if parse_literal(symbol.as_str()).is_none()
                                        && self.get_address(symbol.as_str()).is_none() {
                                        self.set(symbol.as_str(), next_available_address);
                                        next_available_address = next_available_address + 1;
                                    }
                                },
                                None => {},
                            }
                        },
                        _ => {},
                    }
                },
            }
        }
        assert(source.take(source.len() as int) =~= source);
    }

    /// The address that `symbol` is bound to.
    pub fn get_address(&self, symbol: &str) -> (r: Option<u64>)
        ensures
            match r {
                Some(address) => self@.contains_key(symbol@) && self@[symbol@] == address,
                None => !self@.contains_key(symbol@),
            },
    {
        match self.hash_map.get(symbol) {
            Some(address) => Some(*address),
            None => None,
        }
    }

    /// The address that `symbol` is bound to, as a binary numeral of 15
    /// digits, or of more where the address takes more.
    pub fn get_binary(&self, symbol: &str) -> (r: Option<String>)
        ensures
            match r {
                Some(binary) => self@.contains_key(symbol@) && binary@ == to_binary(
                    self@[symbol@],
                    ADDRESS_WIDTH as nat,
                ),
                None => !self@.contains_key(symbol@),
            },
    {
        match self.get_address(symbol) {
            Some(address) => {
                let mut binary = String::new();
                push_binary(&mut binary, address, ADDRESS_WIDTH);
                assert(binary@ =~= to_binary(address as nat, ADDRESS_WIDTH as nat));
                Some(binary)
            },
            None => None,
        }
    }
}

} // verus!
