//! The encoder and the assembler: from the fields of a command to the
//! sixteen binary digits of an instruction, and from the lines of a source
//! to the lines of its translation.
use crate::code::{is_bits, Code};
use crate::laws::{
    computations_known, lemma_assembly_fails, lemma_compute_line, lemma_literal_address_line,
};
use crate::number::{literal_value, parse_literal, push_binary, to_binary};
use crate::parser::{
    command_type, commands, comp_of, dest_of, jump_of, last_command, CommandType, Comp,
    Destination, Jump, Parser,
};
use crate::symbol_table::{symbol_table_of, SymbolTable, ADDRESS_WIDTH};
use crate::text::texts;
use vstd::prelude::*;

verus! {

/// What stops a translation.
#[derive(Debug, Clone, Copy, PartialEq, Eq, Structural)]
pub enum AssemblerError {
    /// The computation part of a compute instruction names no computation.
    UnknownComputation,
    /// The symbol of an address instruction is not bound in the symbol table.
    UnresolvedSymbol,
}

impl AssemblerError {
    /// The error in words.
    pub fn message(&self) -> (text: String)
        ensures
            text@ == match self {
                AssemblerError::UnknownComputation => "unrecognized computation mnemonic"@,
                AssemblerError::UnresolvedSymbol => "unresolved symbol reference"@,
            },
    {
        match self {
            AssemblerError::UnknownComputation => "unrecognized computation mnemonic".to_string(),
            AssemblerError::UnresolvedSymbol => "unresolved symbol reference".to_string(),
        }
    }
}

/// The three binary digits for the destination of a compute instruction;
/// zeros where it has none.
pub open spec fn destination_code(dest: Option<Destination>) -> Seq<char> {
    match dest {
        Some(d) => d.code(),
        None => "000"@,
    }
}

/// The three binary digits for the jump of a compute instruction; zeros
/// where it has none.
pub open spec fn jump_code(jump: Option<Jump>) -> Seq<char> {
    match jump {
        Some(j) => j.code(),
        None => "000"@,
    }
}

/// The seven binary digits for the computation of a compute instruction.
/// There is no computation to fall back on.
pub open spec fn computation_code(comp: Option<Comp>) -> Result<Seq<char>, AssemblerError> {
    match comp {
        Some(c) => Ok(c.code()),
        None => Err(AssemblerError::UnknownComputation),
    }
}

/// The output line of a compute instruction: `111`, then the digits of the
/// computation, of the destination and of the jump.
pub open spec fn compute_line(dest: Option<Destination>, comp: Comp, jump: Option<Jump>) -> Seq<
    char,
> {
    "111"@ + comp.code() + destination_code(dest) + jump_code(jump)
}

/// The output line of an address instruction: `0`, then the address in
/// binary. The address is the number that `symbol` stands for where it is
/// an integer literal, and else the one that `table` binds `symbol` to.
pub open spec fn address_line(symbol: Seq<char>, table: Map<Seq<char>, nat>) -> Result<
    Seq<char>,
    AssemblerError,
> {
    match literal_value(symbol) {
        Some(n) => Ok("0"@ + to_binary(n, ADDRESS_WIDTH as nat)),
        None => if table.contains_key(symbol) {
            Ok("0"@ + to_binary(table[symbol], ADDRESS_WIDTH as nat))
        } else {
            Err(AssemblerError::UnresolvedSymbol)
        },
    }
}

/// The output line of a command, if it has one: a label declaration has
/// none.
pub open spec fn command_line(command: Seq<char>, table: Map<Seq<char>, nat>) -> Option<
    Result<Seq<char>, AssemblerError>,
> {
    match command_type(command) {
        CommandType::L_COMMAND => None,
        CommandType::A_COMMAND => Some(address_line(command.skip(1), table)),
        CommandType::C_COMMAND => Some(
            match comp_of(command) {
                Some(comp) => Ok(compute_line(dest_of(command), comp, jump_of(command))),
                None => Err(AssemblerError::UnknownComputation),
            },
        ),
    }
}

/// The translation of `commands` with the symbols of `table`: the output
/// lines of the commands in order, or the error of the first command that
/// cannot be translated.
pub open spec fn translation(commands: Seq<Seq<char>>, table: Map<Seq<char>, nat>) -> Result<
    Seq<Seq<char>>,
    AssemblerError,
>
    decreases commands.len(),
{
    if commands.len() == 0 {
        Ok(Seq::empty())
    } else {
        match translation(commands.drop_last(), table) {
            Err(e) => Err(e),
            Ok(lines) => match command_line(commands.last(), table) {
                None => Ok(lines),
                Some(Ok(line)) => Ok(lines.push(line)),
                Some(Err(e)) => Err(e),
            },
        }
    }
}

/// The translation of a source: that of its commands, with their symbol
/// table.
pub open spec fn assembly(source: Seq<Seq<char>>) -> Result<Seq<Seq<char>>, AssemblerError> {
    translation(commands(source), symbol_table_of(commands(source)))
}

/// An error in a part of the commands is the error of the whole.
pub proof fn lemma_translation_stops(
    first: Seq<Seq<char>>,
    rest: Seq<Seq<char>>,
    table: Map<Seq<char>, nat>,
)
    requires
        translation(first, table) is Err,
    ensures
        translation(first + rest, table) == translation(first, table),
    decreases rest.len(),
{
    if rest.len() == 0 {
        assert(first + rest =~= first);
    } else {
        assert((first + rest).drop_last() =~= first + rest.drop_last());
        lemma_translation_stops(first, rest.drop_last(), table);
    }
}

/// The commands of two sources, one after the other, are the commands of
/// the first and then those of the second.
pub proof fn lemma_commands_concat(first: Seq<Seq<char>>, rest: Seq<Seq<char>>)
    ensures
        commands(first + rest) == commands(first) + commands(rest),
    decreases rest.len(),
{
    if rest.len() == 0 {
        assert(first + rest =~= first);
        assert(commands(first) + commands(rest) =~= commands(first));
    } else {
        assert((first + rest).drop_last() =~= first + rest.drop_last());
        lemma_commands_concat(first, rest.drop_last());
        assert(commands(first + rest) =~= commands(first) + commands(rest));
    }
}

/// The digits for a destination.
pub fn get_dest_binary_string(dest: Option<Destination>) -> (code: String)
    ensures
        code@ == destination_code(dest),
{
    if let Some(dst) = dest {
        dst.to_code()
    } else {
        "000".to_string()
    }
}

/// The digits for a computation.
pub fn get_comp_binary_string(comp: Option<Comp>) -> (code: Result<String, AssemblerError>)
    ensures
        match code {
            Ok(digits) => computation_code(comp) == Ok::<Seq<char>, AssemblerError>(digits@),
            Err(e) => computation_code(comp) == Err::<Seq<char>, AssemblerError>(e),
        },
{
    match comp {
        Some(c) => Ok(c.to_code()),
        None => Err(AssemblerError::UnknownComputation),
    }
}

/// The digits for a jump.
pub fn get_jump_binary_string(jump: Option<Jump>) -> (code: String)
    ensures
        code@ == jump_code(jump),
{
    if let Some(jmp) = jump {
        jmp.to_code()
    } else {
        "000".to_string()
    }
}

/// The output line of a compute instruction: sixteen binary digits, of which
/// the first three are `111`.
pub fn encode_compute(dest: Option<Destination>, comp: Comp, jump: Option<Jump>) -> (line: String)
    ensures
        line@ == compute_line(dest, comp, jump),
        line@.len() == 16,
        line@.take(3) == "111"@,
        is_bits(line@),
{
    proof {
        lemma_compute_line(dest, comp, jump);
    }
    let mut line = "111".to_string();
    line.append(comp.to_code().as_str());
    line.append(get_dest_binary_string(dest).as_str());
    line.append(get_jump_binary_string(jump).as_str());
    line
}

/// The output line of an address instruction with the symbol `symbol`. For
/// an integer literal of at most 32767 it is `0` and then the literal in
/// binary, in fifteen digits.
pub fn encode_address(symbol: &str, table: &SymbolTable) -> (line: Result<String, AssemblerError>)
    ensures
        match line {
            Ok(digits) => address_line(symbol@, table@) == Ok::<Seq<char>, AssemblerError>(
                digits@,
            ),
            Err(e) => address_line(symbol@, table@) == Err::<Seq<char>, AssemblerError>(e),
        },
        match literal_value(symbol@) {
            Some(n) => n <= 32767 ==> (line matches Ok(digits) && digits@ == "0"@ + to_binary(
                n,
                15,
            ) && digits@.len() == 16),
            None => true,
        },
{
    proof {
        if let Some(n) = literal_value(symbol@) {
            if n <= 32767 {
                lemma_literal_address_line(symbol@, table@, n);
            }
        }
    }
    let address = match parse_literal(symbol) {
        Some(n) => n as u64,
        None => match table.get_address(symbol) {
            Some(a) => a,
            None => {
                return Err(AssemblerError::UnresolvedSymbol);
            },
        },
    };
    let mut line = "0".to_string();
    push_binary(&mut line, address, ADDRESS_WIDTH);
    Ok(line)
}

/// The output line of the current command of `parser`, if it has one.
pub fn encode_current(parser: &Parser, table: &SymbolTable) -> (line: Option<
    Result<String, AssemblerError>,
>)
    ensures
        match parser.current() {
            Some(command) => match command_line(command, table@) {
                Some(Ok(digits)) => line matches Some(Ok(s)) && s@ == digits,
                Some(Err(e)) => line == Some(Err::<String, AssemblerError>(e)),
                None => line is None,
            },
            None => line is None,
        },
{
    match parser.get_command_type() {
        Some(CommandType::C_COMMAND) => {
            match parser.comp() {
                Some(comp) => Some(Ok(encode_compute(parser.dest(), comp, parser.jump()))),
                None => Some(Err(AssemblerError::UnknownComputation)),
            }
        },
        Some(CommandType::A_COMMAND) => {
            match parser.get_symbol() {
                Some(symbol) => Some(encode_address(symbol.as_str(), table)),
                None => None,
            }
        },
        _ => None,
    }
}

/// The last pass: the output lines of the source of `parser`, in order. It
/// stops at the first command that cannot be translated, and leaves the
/// scanner behind that command's line; else behind the last line.
pub fn translate(parser: &mut Parser, table: &SymbolTable) -> (r: Result<
    Vec<String>,
    AssemblerError,
>)
    ensures
        final(parser).source() == old(parser).source(),
        final(parser).position() <= old(parser).source().len(),
        final(parser).current() == last_command(
            commands(old(parser).source().take(final(parser).position() as int)),
            old(parser).current(),
        ),
        match r {
            Ok(lines) => {
                &&& translation(commands(old(parser).source()), table@) == Ok::<
                    Seq<Seq<char>>,
                    AssemblerError,
                >(texts(lines@))
                &&& final(parser).position() == old(parser).source().len()
            },
            Err(e) => {
                &&& translation(commands(old(parser).source()), table@) == Err::<
                    Seq<Seq<char>>,
                    AssemblerError,
                >(e)
                &&& translation(
                    commands(old(parser).source().take(final(parser).position() as int)),
                    table@,
                ) is Err
                &&& final(parser).position() > 0
                &&& translation(
                    commands(old(parser).source().take(final(parser).position() - 1)),
                    table@,
                ) is Ok
            },
        },
{
    parser.rewind();
    let ghost source = parser.source();
    let ghost current = parser.current();
    let mut lines: Vec<String> = Vec::new();
    assert(source.take(0) =~= Seq::<Seq<char>>::empty());
    assert(texts(lines@) =~= Seq::<Seq<char>>::empty());
    loop
        invariant
            source == old(parser).source(),
            current == old(parser).current(),
            parser.source() == source,
            parser.position() <= source.len(),
            parser.current() == last_command(
                commands(source.take(parser.position() as int)),
                current,
            ),
            translation(commands(source.take(parser.position() as int)), table@) == Ok::<
                Seq<Seq<char>>,
                AssemblerError,
            >(texts(lines@)),
        decreases source.len() - parser.position(),
    {
        let ghost before = commands(source.take(parser.position() as int));
        let ghost start = parser.position() as int;
        match parser.advance() {
            None => {
                assert(source.take(source.len() as int) =~= source);
                return Ok(lines);
            },
            Some(command) => {
                let ghost at = parser.position() as int;
                proof {
                    assert(before.push(command@).drop_last() =~= before);
                    // The lines passed on the way hold no command.
                    assert(source.take(at) =~= source.take(at - 1).push(source[at - 1]));
                    assert(source.take(at).drop_last() =~= source.take(at - 1));
                    assert(commands(source.take(at - 1)) == before);
                }
                match encode_current(parser, table) {
                    Some(Ok(line)) => {
                        let ghost old_lines = texts(lines@);
                        lines.push(line);
                        assert(texts(lines@) =~= old_lines.push(line@));
                    },
                    Some(Err(e)) => {
                        proof {
                            assert(source =~= source.take(at) + source.skip(at));
                            lemma_commands_concat(source.take(at), source.skip(at));
                            lemma_translation_stops(
                                commands(source.take(at)),
                                commands(source.skip(at)),
                                table@,
                            );
                        }
                        return Err(e);
                    },
                    None => {},
                }
            },
        }
    }
}

/// Translates a program: builds the symbol table of `lines` in two passes,
/// then translates their commands in a third. It fails where a compute
/// instruction names no computation, and nowhere else. A vector never holds
/// more than `isize::MAX` bytes, so every list of lines meets the bound.
pub fn assemble(lines: Vec<String>) -> (r: Result<Vec<String>, AssemblerError>)
    requires
        lines.len() <= isize::MAX,
    ensures
        match r {
            Ok(output) => assembly(texts(lines@)) == Ok::<Seq<Seq<char>>, AssemblerError>(
                texts(output@),
            ),
            Err(e) => assembly(texts(lines@)) == Err::<Seq<Seq<char>>, AssemblerError>(e),
        },
        r is Ok <==> computations_known(commands(texts(lines@))),
        r matches Err(e) ==> e == AssemblerError::UnknownComputation,
{
    proof {
        lemma_assembly_fails(texts(lines@));
    }
    let mut parser = Parser::new(lines);
    let symbol_table = SymbolTable::new(&mut parser);
    translate(&mut parser, &symbol_table)
}

} // verus!
