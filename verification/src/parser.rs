//! The line scanner: it walks the source line by line, skips what holds no
//! command, and gives access to the fields of the command it stands on.
use crate::code::{is_bits, Code};
use crate::text::{
    after_last, before_first, between_first, chars_of, clean_line, contains_char, find_first,
    find_last, range_is, texts, trim, trim_range,
};
use vstd::prelude::*;

verus! {

/// The three kinds of command.
#[allow(non_camel_case_types)]
#[derive(Debug, Clone, Copy, PartialEq, Eq, Structural)]
pub enum CommandType {
    /// An address instruction: `@` and a symbol or a literal.
    A_COMMAND,
    /// A compute instruction: `dest=comp;jump`, the first and the last part optional.
    C_COMMAND,
    /// A label declaration: a symbol in parentheses.
    L_COMMAND,
}

/// The registers that a compute instruction stores its result in.
#[derive(Debug, Clone, Copy, PartialEq, Eq, Structural)]
pub enum Destination {
    M,
    D,
    MD,
    A,
    AM,
    AD,
    AMD,
}

impl Destination {
    /// The text that names the destination in a source line.
    pub open spec fn mnemonic(self) -> Seq<char> {
        match self {
            Destination::M => "M"@,
            Destination::D => "D"@,
            Destination::MD => "MD"@,
            Destination::A => "A"@,
            Destination::AM => "AM"@,
            Destination::AD => "AD"@,
            Destination::AMD => "AMD"@,
        }
    }

    /// The destination that `text` names, if any.
    pub open spec fn parse(text: Seq<char>) -> Option<Destination> {
        if text == "M"@ {
            Some(Destination::M)
        } else if text == "D"@ {
            Some(Destination::D)
        } else if text == "MD"@ {
            Some(Destination::MD)
        } else if text == "A"@ {
            Some(Destination::A)
        } else if text == "AM"@ {
            Some(Destination::AM)
        } else if text == "AD"@ {
            Some(Destination::AD)
        } else if text == "AMD"@ {
            Some(Destination::AMD)
        } else {
            None
        }
    }

    /// Reads a destination. The text is taken as it stands: surrounding
    /// whitespace makes it unknown.
    pub fn from_str(s: &str) -> (r: Option<Destination>)
        ensures
            r == Destination::parse(s@),
    {
        let v = chars_of(s);
        let n = v.len();
        assert(v@.subrange(0, n as int) =~= s@);
        if range_is(&v, 0, n, "M") {
            Some(Destination::M)
        } else if range_is(&v, 0, n, "D") {
            Some(Destination::D)
        } else if range_is(&v, 0, n, "MD") {
            Some(Destination::MD)
        } else if range_is(&v, 0, n, "A") {
            Some(Destination::A)
        } else if range_is(&v, 0, n, "AM") {
            Some(Destination::AM)
        } else if range_is(&v, 0, n, "AD") {
            Some(Destination::AD)
        } else if range_is(&v, 0, n, "AMD") {
            Some(Destination::AMD)
        } else {
            None
        }
    }

    /// A text names a destination exactly when it is that destination's
    /// mnemonic, and every bit pattern has three binary digits.
    pub proof fn lemma_destination(self, text: Seq<char>)
        ensures
            Destination::parse(text) == Some(self) <==> text == self.mnemonic(),
            self.code().len() == 3,
            is_bits(self.code()),
    {
        reveal_strlit("M");
        reveal_strlit("D");
        reveal_strlit("MD");
        reveal_strlit("A");
        reveal_strlit("AM");
        reveal_strlit("AD");
        reveal_strlit("AMD");
        reveal_strlit("001");
        reveal_strlit("010");
        reveal_strlit("011");
        reveal_strlit("100");
        reveal_strlit("101");
        reveal_strlit("110");
        reveal_strlit("111");
        // The length and the first characters tell any two mnemonics apart.
        let ghost shape = (text.len(), text[0], text[1]);
    }
}

impl Code for Destination {
    open spec fn code(&self) -> Seq<char> {
        match self {
            Destination::M => "001"@,
            Destination::D => "010"@,
            Destination::MD => "011"@,
            Destination::A => "100"@,
            Destination::AM => "101"@,
            Destination::AD => "110"@,
            Destination::AMD => "111"@,
        }
    }

    fn to_code(&self) -> (s: String) {
        match self {
            Destination::M => "001".to_string(),
            Destination::D => "010".to_string(),
            Destination::MD => "011".to_string(),
            Destination::A => "100".to_string(),
            Destination::AM => "101".to_string(),
            Destination::AD => "110".to_string(),
            Destination::AMD => "111".to_string(),
        }
    }
}

/// The computations of a compute instruction, over the registers A and D and
/// the memory cell M that A addresses.
#[derive(Debug, Clone, Copy, PartialEq, Eq, Structural)]
pub enum Comp {
    Zero,
    One,
    Minus1,
    D,
    A,
    NotD,
    NotA,
    MinusD,
    MinusA,
    DPlus1,
    APlus1,
    DMinus1,
    AMinus1,
    DPlusA,
    DMinusA,
    AMinusD,
    DAndA,
    DOrA,
    M,
    NotM,
    MinusM,
    MPlus1,
    MMinus1,
    DPlusM,
    DMinusM,
    MMinusD,
    DAndM,
    DOrM,
}

impl Comp {
    /// The text that names the computation in a source line.
    pub open spec fn mnemonic(self) -> Seq<char> {
        match self {
            Comp::Zero => "0"@,
            Comp::One => "1"@,
            Comp::Minus1 => "-1"@,
            Comp::D => "D"@,
            Comp::A => "A"@,
            Comp::NotD => "!D"@,
            Comp::NotA => "!A"@,
            Comp::MinusD => "-D"@,
            Comp::MinusA => "-A"@,
            Comp::DPlus1 => "D+1"@,
            Comp::APlus1 => "A+1"@,
            Comp::DMinus1 => "D-1"@,
            Comp::AMinus1 => "A-1"@,
            Comp::DPlusA => "D+A"@,
            Comp::DMinusA => "D-A"@,
            Comp::AMinusD => "A-D"@,
            Comp::DAndA => "D&A"@,
            Comp::DOrA => "D|A"@,
            Comp::M => "M"@,
            Comp::NotM => "!M"@,
            Comp::MinusM => "-M"@,
            Comp::MPlus1 => "M+1"@,
            Comp::MMinus1 => "M-1"@,
            Comp::DPlusM => "D+M"@,
            Comp::DMinusM => "D-M"@,
            Comp::MMinusD => "M-D"@,
            Comp::DAndM => "D&M"@,
            Comp::DOrM => "D|M"@,
        }
    }

    /// The computation that `text` names, if any.
    pub open spec fn parse(text: Seq<char>) -> Option<Comp> {
        if text == "0"@ {
            Some(Comp::Zero)
        } else if text == "1"@ {
            Some(Comp::One)
        } else if text == "-1"@ {
            Some(Comp::Minus1)
        } else if text == "D"@ {
            Some(Comp::D)
        } else if text == "A"@ {
            Some(Comp::A)
        } else if text == "!D"@ {
            Some(Comp::NotD)
        } else if text == "!A"@ {
            Some(Comp::NotA)
        } else if text == "-D"@ {
            Some(Comp::MinusD)
        } else if text == "-A"@ {
            Some(Comp::MinusA)
        } else if text == "D+1"@ {
            Some(Comp::DPlus1)
        } else if text == "A+1"@ {
            Some(Comp::APlus1)
        } else if text == "D-1"@ {
            Some(Comp::DMinus1)
        } else if text == "A-1"@ {
            Some(Comp::AMinus1)
        } else if text == "D+A"@ {
            Some(Comp::DPlusA)
        } else if text == "D-A"@ {
            Some(Comp::DMinusA)
        } else if text == "A-D"@ {
            Some(Comp::AMinusD)
        } else if text == "D&A"@ {
            Some(Comp::DAndA)
        } else if text == "D|A"@ {
            Some(Comp::DOrA)
        } else if text == "M"@ {
            Some(Comp::M)
        } else if text == "!M"@ {
            Some(Comp::NotM)
        } else if text == "-M"@ {
            Some(Comp::MinusM)
        } else if text == "M+1"@ {
            Some(Comp::MPlus1)
        } else if text == "M-1"@ {
            Some(Comp::MMinus1)
        } else if text == "D+M"@ {
            Some(Comp::DPlusM)
        } else if text == "D-M"@ {
            Some(Comp::DMinusM)
        } else if text == "M-D"@ {
            Some(Comp::MMinusD)
        } else if text == "D&M"@ {
            Some(Comp::DAndM)
        } else if text == "D|M"@ {
            Some(Comp::DOrM)
        } else {
            None
        }
    }

    /// Reads a computation; whitespace around the text is ignored.
    pub fn from_str(s: &str) -> (r: Option<Comp>)
        ensures
            r == Comp::parse(trim(s@)),
    {
        let v = chars_of(s);
        let (a, b) = trim_range(&v, 0, v.len());
        assert(v@.subrange(0, v.len() as int) =~= s@);
        if range_is(&v, a, b, "0") {
            Some(Comp::Zero)
        } else if range_is(&v, a, b, "1") {
            Some(Comp::One)
        } else if range_is(&v, a, b, "-1") {
            Some(Comp::Minus1)
        } else if range_is(&v, a, b, "D") {
            Some(Comp::D)
        } else if range_is(&v, a, b, "A") {
            Some(Comp::A)
        } else if range_is(&v, a, b, "!D") {
            Some(Comp::NotD)
        } else if range_is(&v, a, b, "!A") {
            Some(Comp::NotA)
        } else if range_is(&v, a, b, "-D") {
            Some(Comp::MinusD)
        } else if range_is(&v, a, b, "-A") {
            Some(Comp::MinusA)
        } else if range_is(&v, a, b, "D+1") {
            Some(Comp::DPlus1)
        } else if range_is(&v, a, b, "A+1") {
            Some(Comp::APlus1)
        } else if range_is(&v, a, b, "D-1") {
            Some(Comp::DMinus1)
        } else if range_is(&v, a, b, "A-1") {
            Some(Comp::AMinus1)
        } else if range_is(&v, a, b, "D+A") {
            Some(Comp::DPlusA)
        } else if range_is(&v, a, b, "D-A") {
            Some(Comp::DMinusA)
        } else if range_is(&v, a, b, "A-D") {
            Some(Comp::AMinusD)
        } else if range_is(&v, a, b, "D&A") {
            Some(Comp::DAndA)
        } else if range_is(&v, a, b, "D|A") {
            Some(Comp::DOrA)
        } else if range_is(&v, a, b, "M") {
            Some(Comp::M)
        } else if range_is(&v, a, b, "!M") {
            Some(Comp::NotM)
        } else if range_is(&v, a, b, "-M") {
            Some(Comp::MinusM)
        } else if range_is(&v, a, b, "M+1") {
            Some(Comp::MPlus1)
        } else if range_is(&v, a, b, "M-1") {
            Some(Comp::MMinus1)
        } else if range_is(&v, a, b, "D+M") {
            Some(Comp::DPlusM)
        } else if range_is(&v, a, b, "D-M") {
            Some(Comp::DMinusM)
        } else if range_is(&v, a, b, "M-D") {
            Some(Comp::MMinusD)
        } else if range_is(&v, a, b, "D&M") {
            Some(Comp::DAndM)
        } else if range_is(&v, a, b, "D|M") {
            Some(Comp::DOrM)
        } else {
            None
        }
    }

    /// A text names a computation exactly when it is that computation's
    /// mnemonic; every bit pattern has seven binary digits, and the first of
    /// them tells whether the computation reads the memory cell.
    pub proof fn lemma_computation(self, text: Seq<char>)
        ensures
            Comp::parse(text) == Some(self) <==> text == self.mnemonic(),
            self.code().len() == 7,
            is_bits(self.code()),
            self.code()[0] == '1' <==> self.mnemonic().contains('M'),
    {
        reveal_strlit("0");
        reveal_strlit("1");
        reveal_strlit("-1");
        reveal_strlit("D");
        reveal_strlit("A");
        reveal_strlit("!D");
        reveal_strlit("!A");
        reveal_strlit("-D");
        reveal_strlit("-A");
        reveal_strlit("D+1");
        reveal_strlit("A+1");
        reveal_strlit("D-1");
        reveal_strlit("A-1");
        reveal_strlit("D+A");
        reveal_strlit("D-A");
        reveal_strlit("A-D");
        reveal_strlit("D&A");
        reveal_strlit("D|A");
        reveal_strlit("M");
        reveal_strlit("!M");
        reveal_strlit("-M");
        reveal_strlit("M+1");
        reveal_strlit("M-1");
        reveal_strlit("D+M");
        reveal_strlit("D-M");
        reveal_strlit("M-D");
        reveal_strlit("D&M");
        reveal_strlit("D|M");
        reveal_strlit("0101010");
        reveal_strlit("0111111");
        reveal_strlit("0111010");
        reveal_strlit("0001100");
        reveal_strlit("0110000");
        reveal_strlit("0001101");
        reveal_strlit("0110001");
        reveal_strlit("0001111");
        reveal_strlit("0110011");
        reveal_strlit("0011111");
        reveal_strlit("0110111");
        reveal_strlit("0001110");
        reveal_strlit("0110010");
        reveal_strlit("0000010");
        reveal_strlit("0010011");
        reveal_strlit("0000111");
        reveal_strlit("0000000");
        reveal_strlit("0010101");
        reveal_strlit("1110000");
        reveal_strlit("1110001");
        reveal_strlit("1110011");
        reveal_strlit("1110111");
        reveal_strlit("1110010");
        reveal_strlit("1000010");
        reveal_strlit("1010011");
        reveal_strlit("1000111");
        reveal_strlit("1000000");
        reveal_strlit("1010101");
        // The length and the first characters tell any two mnemonics apart.
        let ghost shape = (text.len(), text[0], text[1], text[2]);
        let m = self.mnemonic();
        match self {
            Comp::M => {
                assert(m[0] == 'M');
            },
            Comp::NotM => {
                assert(m[1] == 'M');
            },
            Comp::MinusM => {
                assert(m[1] == 'M');
            },
            Comp::MPlus1 => {
                assert(m[0] == 'M');
            },
            Comp::MMinus1 => {
                assert(m[0] == 'M');
            },
            Comp::DPlusM => {
                assert(m[2] == 'M');
            },
            Comp::DMinusM => {
                assert(m[2] == 'M');
            },
            Comp::MMinusD => {
                assert(m[0] == 'M');
            },
            Comp::DAndM => {
                assert(m[2] == 'M');
            },
            Comp::DOrM => {
                assert(m[2] == 'M');
            },
            _ => {},
        }
    }
}

impl Code for Comp {
    open spec fn code(&self) -> Seq<char> {
        match self {
            Comp::Zero => "0101010"@,
            Comp::One => "0111111"@,
            Comp::Minus1 => "0111010"@,
            Comp::D => "0001100"@,
            Comp::A => "0110000"@,
            Comp::NotD => "0001101"@,
            Comp::NotA => "0110001"@,
            Comp::MinusD => "0001111"@,
            Comp::MinusA => "0110011"@,
            Comp::DPlus1 => "0011111"@,
            Comp::APlus1 => "0110111"@,
            Comp::DMinus1 => "0001110"@,
            Comp::AMinus1 => "0110010"@,
            Comp::DPlusA => "0000010"@,
            Comp::DMinusA => "0010011"@,
            Comp::AMinusD => "0000111"@,
            Comp::DAndA => "0000000"@,
            Comp::DOrA => "0010101"@,
            Comp::M => "1110000"@,
            Comp::NotM => "1110001"@,
            Comp::MinusM => "1110011"@,
            Comp::MPlus1 => "1110111"@,
            Comp::MMinus1 => "1110010"@,
            Comp::DPlusM => "1000010"@,
            Comp::DMinusM => "1010011"@,
            Comp::MMinusD => "1000111"@,
            Comp::DAndM => "1000000"@,
            Comp::DOrM => "1010101"@,
        }
    }

    fn to_code(&self) -> (s: String) {
        match self {
            Comp::Zero => "0101010".to_string(),
            Comp::One => "0111111".to_string(),
            Comp::Minus1 => "0111010".to_string(),
            Comp::D => "0001100".to_string(),
            Comp::A => "0110000".to_string(),
            Comp::NotD => "0001101".to_string(),
            Comp::NotA => "0110001".to_string(),
            Comp::MinusD => "0001111".to_string(),
            Comp::MinusA => "0110011".to_string(),
            Comp::DPlus1 => "0011111".to_string(),
            Comp::APlus1 => "0110111".to_string(),
            Comp::DMinus1 => "0001110".to_string(),
            Comp::AMinus1 => "0110010".to_string(),
            Comp::DPlusA => "0000010".to_string(),
            Comp::DMinusA => "0010011".to_string(),
            Comp::AMinusD => "0000111".to_string(),
            Comp::DAndA => "0000000".to_string(),
            Comp::DOrA => "0010101".to_string(),
            Comp::M => "1110000".to_string(),
            Comp::NotM => "1110001".to_string(),
            Comp::MinusM => "1110011".to_string(),
            Comp::MPlus1 => "1110111".to_string(),
            Comp::MMinus1 => "1110010".to_string(),
            Comp::DPlusM => "1000010".to_string(),
            Comp::DMinusM => "1010011".to_string(),
            Comp::MMinusD => "1000111".to_string(),
            Comp::DAndM => "1000000".to_string(),
            Comp::DOrM => "1010101".to_string(),
        }
    }
}
/// The conditions, on the result of the computation, under which a compute
/// instruction jumps.
#[derive(Debug, Clone, Copy, PartialEq, Eq, Structural)]
pub enum Jump {
    JGT,
    JEQ,
    JGE,
    JLT,
    JNE,
    JLE,
    JMP,
}

impl Jump {
    /// The text that names the jump in a source line.
    pub open spec fn mnemonic(self) -> Seq<char> {
        match self {
            Jump::JGT => "JGT"@,
            Jump::JEQ => "JEQ"@,
            Jump::JGE => "JGE"@,
            Jump::JLT => "JLT"@,
            Jump::JNE => "JNE"@,
            Jump::JLE => "JLE"@,
            Jump::JMP => "JMP"@,
        }
    }

    /// The jump that `text` names, if any.
    pub open spec fn parse(text: Seq<char>) -> Option<Jump> {
        if text == "JGT"@ {
            Some(Jump::JGT)
        } else if text == "JEQ"@ {
            Some(Jump::JEQ)
        } else if text == "JGE"@ {
            Some(Jump::JGE)
        } else if text == "JLT"@ {
            Some(Jump::JLT)
        } else if text == "JNE"@ {
            Some(Jump::JNE)
        } else if text == "JLE"@ {
            Some(Jump::JLE)
        } else if text == "JMP"@ {
            Some(Jump::JMP)
        } else {
            None
        }
    }

    /// Reads a jump; whitespace around the text is ignored.
    pub fn from_str(s: &str) -> (r: Option<Jump>)
        ensures
            r == Jump::parse(trim(s@)),
    {
        let v = chars_of(s);
        let (a, b) = trim_range(&v, 0, v.len());
        assert(v@.subrange(0, v.len() as int) =~= s@);
        if range_is(&v, a, b, "JGT") {
            Some(Jump::JGT)
        } else if range_is(&v, a, b, "JEQ") {
            Some(Jump::JEQ)
        } else if range_is(&v, a, b, "JGE") {
            Some(Jump::JGE)
        } else if range_is(&v, a, b, "JLT") {
            Some(Jump::JLT)
        } else if range_is(&v, a, b, "JNE") {
            Some(Jump::JNE)
        } else if range_is(&v, a, b, "JLE") {
            Some(Jump::JLE)
        } else if range_is(&v, a, b, "JMP") {
            Some(Jump::JMP)
        } else {
            None
        }
    }

    /// A text names a jump exactly when it is that jump's mnemonic, and every
    /// bit pattern has three binary digits.
    pub proof fn lemma_jump(self, text: Seq<char>)
        ensures
            Jump::parse(text) == Some(self) <==> text == self.mnemonic(),
            self.code().len() == 3,
            is_bits(self.code()),
    {
        reveal_strlit("JGT");
        reveal_strlit("JEQ");
        reveal_strlit("JGE");
        reveal_strlit("JLT");
        reveal_strlit("JNE");
        reveal_strlit("JLE");
        reveal_strlit("JMP");
        reveal_strlit("001");
        reveal_strlit("010");
        reveal_strlit("011");
        reveal_strlit("100");
        reveal_strlit("101");
        reveal_strlit("110");
        reveal_strlit("111");
        // The length and the first characters tell any two mnemonics apart.
        let ghost shape = (text.len(), text[0], text[1], text[2]);
    }
}

impl Code for Jump {
    open spec fn code(&self) -> Seq<char> {
        match self {
            Jump::JGT => "001"@,
            Jump::JEQ => "010"@,
            Jump::JGE => "011"@,
            Jump::JLT => "100"@,
            Jump::JNE => "101"@,
            Jump::JLE => "110"@,
            Jump::JMP => "111"@,
        }
    }

    fn to_code(&self) -> (s: String) {
        match self {
            Jump::JGT => "001".to_string(),
            Jump::JEQ => "010".to_string(),
            Jump::JGE => "011".to_string(),
            Jump::JLT => "100".to_string(),
            Jump::JNE => "101".to_string(),
            Jump::JLE => "110".to_string(),
            Jump::JMP => "111".to_string(),
        }
    }
}
/// The commands of a source: the canonical forms of its lines, in order,
/// without those that hold nothing.
pub open spec fn commands(source: Seq<Seq<char>>) -> Seq<Seq<char>>
    decreases source.len(),
{
    if source.len() == 0 {
        Seq::empty()
    } else {
        let before = commands(source.drop_last());
        let command = clean_line(source.last());
        if command.len() > 0 {
            before.push(command)
        } else {
            before
        }
    }
}

/// The current command of a scanner that has gone through all of
/// `commands`, and had `before` as its current command at first.
pub open spec fn last_command(commands: Seq<Seq<char>>, before: Option<Seq<char>>) -> Option<
    Seq<char>,
> {
    if commands.len() > 0 {
        Some(commands.last())
    } else {
        before
    }
}

/// The kind of a command, told by its first character.
pub open spec fn command_type(command: Seq<char>) -> CommandType {
    if command.len() > 0 && command[0] == '@' {
        CommandType::A_COMMAND
    } else if command.len() > 0 && command[0] == '(' {
        CommandType::L_COMMAND
    } else {
        CommandType::C_COMMAND
    }
}

/// The name that a label declaration declares: what stands between its
/// first and its last character.
pub open spec fn label_name(command: Seq<char>) -> Seq<char> {
    if command.len() >= 2 {
        command.subrange(1, command.len() - 1)
    } else {
        Seq::empty()
    }
}

/// The symbol of a command: for an address instruction all that follows the
/// `@`, for a label declaration the name it declares.
pub open spec fn symbol_of(command: Seq<char>) -> Option<Seq<char>> {
    match command_type(command) {
        CommandType::A_COMMAND => Some(command.skip(1)),
        CommandType::L_COMMAND => Some(label_name(command)),
        CommandType::C_COMMAND => None,
    }
}

/// The computation part of a compute instruction: between the first `=` and
/// the first `;` where it has both (empty if the `;` comes first), after the
/// last `=` where it has no `;`, and before the first `;` otherwise.
pub open spec fn comp_text(command: Seq<char>) -> Seq<char> {
    if command.contains('=') && command.contains(';') {
        between_first(command, '=', ';')
    } else if command.contains('=') {
        after_last(command, '=')
    } else {
        before_first(command, ';')
    }
}

/// The destination of a command: that of a compute instruction with a `=`
/// whose text before the first `=` names one.
pub open spec fn dest_of(command: Seq<char>) -> Option<Destination> {
    if command_type(command) == CommandType::C_COMMAND && command.contains('=') {
        Destination::parse(before_first(command, '='))
    } else {
        None
    }
}

/// The computation of a command: that of a compute instruction whose
/// computation part names one.
pub open spec fn comp_of(command: Seq<char>) -> Option<Comp> {
    if command_type(command) == CommandType::C_COMMAND {
        Comp::parse(trim(comp_text(command)))
    } else {
        None
    }
}

/// The jump of a command: that of a compute instruction with a `;` whose
/// text after the last `;` names one.
pub open spec fn jump_of(command: Seq<char>) -> Option<Jump> {
    if command_type(command) == CommandType::C_COMMAND && command.contains(';') {
        Jump::parse(trim(after_last(command, ';')))
    } else {
        None
    }
}

/// The kind of `command`.
pub fn classify(command: &str) -> (kind: CommandType)
    ensures
        kind == command_type(command@),
{
    if command.is_empty() {
        CommandType::C_COMMAND
    } else {
        let first = command.get_char(0);
        if first == '@' {
            CommandType::A_COMMAND
        } else if first == '(' {
            CommandType::L_COMMAND
        } else {
            CommandType::C_COMMAND
        }
    }
}

/// The text of `command` before its first `=`.
pub fn extract_dest(command: &String) -> (r: String)
    ensures
        r@ == before_first(command@, '='),
{
    let v = chars_of(command.as_str());
    match find_first(&v, '=') {
        Some(i) => {
            assert(v@.subrange(0, i as int) =~= v@.take(i as int));
            command.as_str().substring_char(0, i).to_owned()
        },
        None => command.clone(),
    }
}

/// The computation part of `command`.
pub fn extract_comp(command: &String) -> (r: String)
    ensures
        r@ == comp_text(command@),
{
    let v = chars_of(command.as_str());
    let n = v.len();
    proof {
        v@.index_of_first_ensures('=');
        v@.index_of_first_ensures(';');
        v@.index_of_last_ensures('=');
    }
    match (find_first(&v, '='), find_first(&v, ';')) {
        (Some(i), Some(j)) => {
            if i < j {
                command.as_str().substring_char(i + 1, j).to_owned()
            } else {
                String::new()
            }
        },
        (Some(_), None) => {
            match find_last(&v, '=') {
                Some(k) => {
                    assert(v@.subrange(k + 1, n as int) =~= v@.skip(k + 1));
                    command.as_str().substring_char(k + 1, n).to_owned()
                },
                None => command.clone(),
            }
        },
        (None, Some(j)) => {
            assert(v@.subrange(0, j as int) =~= v@.take(j as int));
            command.as_str().substring_char(0, j).to_owned()
        },
        (None, None) => command.clone(),
    }
}

/// The text of `command` after its last `;`.
pub fn extract_jmp(command: &String) -> (r: String)
    ensures
        r@ == after_last(command@, ';'),
{
    let v = chars_of(command.as_str());
    let n = v.len();
    match find_last(&v, ';') {
        Some(k) => {
            assert(v@.subrange(k + 1, n as int) =~= v@.skip(k + 1));
            command.as_str().substring_char(k + 1, n).to_owned()
        },
        None => command.clone(),
    }
}

/// A scanner over the lines of a source. It stands before one of the lines,
/// or behind the last, and remembers the command it came to last.
pub struct Parser {
    lines: Vec<String>,
    next: usize,
    current_command: Option<String>,
}

impl Parser {
    #[verifier::type_invariant]
    spec fn well_formed(self) -> bool {
        self.next <= self.lines.len() <= isize::MAX
    }

    /// The lines of the source, as they were given.
    pub closed spec fn source(&self) -> Seq<Seq<char>> {
        texts(self.lines@)
    }

    /// The number of lines that the scanner has gone through.
    pub closed spec fn position(&self) -> nat {
        self.next as nat
    }

    /// The command that the scanner came to last.
    pub closed spec fn current(&self) -> Option<Seq<char>> {
        match self.current_command {
            Some(command) => Some(command@),
            None => None,
        }
    }

    /// A scanner that stands before the first of `lines`. A vector never
    /// holds more than `isize::MAX` bytes, so every list of lines meets the
    /// bound.
    pub fn new(lines: Vec<String>) -> (parser: Parser)
        requires
            lines.len() <= isize::MAX,
        ensures
            parser.source() == texts(lines@),
            parser.position() == 0,
            parser.current() is None,
    {
        Parser { lines, next: 0, current_command: None }
    }

    /// Puts the scanner back before the first line. The command that it came
    /// to last stays.
    pub fn rewind(&mut self)
        ensures
            final(self).source() == old(self).source(),
            final(self).position() == 0,
            final(self).current() == old(self).current(),
            final(self).source().len() <= isize::MAX,
    {
        proof {
            use_type_invariant(&*self);
        }
        self.next = 0;
    }

    /// Moves to the next command and returns it, or `None` where no line that
    /// is left holds one. The lines passed on the way hold nothing; at the
    /// end of the source the last command stays the current one.
    pub fn advance(&mut self) -> (r: Option<String>)
        ensures
            final(self).source() == old(self).source(),
            old(self).position() <= final(self).position() <= old(self).source().len() <= isize::MAX,
            forall|i: int|
                old(self).position() <= i < final(self).position() - (if r is Some {
                    1int
                } else {
                    0int
                }) ==> (#[trigger] clean_line(old(self).source()[i])).len() == 0,
            match r {
                Some(command) => {
                    &&& old(self).position() < final(self).position()
                    &&& command@ == clean_line(old(self).source()[final(self).position() - 1])
                    &&& command@.len() > 0
                    &&& final(self).current() == Some(command@)
                    &&& commands(old(self).source().take(final(self).position() as int)) == commands(
                        old(self).source().take(old(self).position() as int),
                    ).push(command@)
                },
                None => {
                    &&& final(self).position() == old(self).source().len()
                    &&& final(self).current() == old(self).current()
                    &&& commands(old(self).source().take(final(self).position() as int)) == commands(
                        old(self).source().take(old(self).position() as int),
                    )
                },
            },
    {
        proof {
            use_type_invariant(&*self);
        }
        let ghost source = self.source();
        let ghost start = self.position() as int;
        let ghost current = self.current();
        loop
            invariant
                source == old(self).source(),
                start == old(self).position(),
                current == old(self).current(),
                self.source() == source,
                self.current() == current,
                start <= self.position() <= source.len() <= isize::MAX,
                forall|i: int|
                    start <= i < self.position() ==> (#[trigger] clean_line(source[i])).len() == 0,
                commands(source.take(self.position() as int)) == commands(source.take(start)),
            decreases source.len() - self.position(),
        {
            let ghost at = self.position() as int;
            match self.read_line() {
                None => {
                    return None;
                },
                Some(line) => {
                    let command = crate::text::clean(line.as_str());
                    proof {
                        assert(source.take(at + 1).drop_last() =~= source.take(at));
                        assert(source.take(at + 1).last() == source[at]);
                    }
                    if !command.as_str().is_empty() {
                        proof {
                            use_type_invariant(&*self);
                        }
                        self.current_command = Some(command.clone());
                        return Some(command);
                    }
                },
            }
        }
    }

    /// Takes the next line of the source as it stands, or `None` at its end.
    pub fn read_line(&mut self) -> (r: Option<String>)
        ensures
            final(self).source() == old(self).source(),
            final(self).current() == old(self).current(),
            old(self).position() <= old(self).source().len(),
            match r {
                Some(line) => {
                    &&& old(self).position() < old(self).source().len()
                    &&& line@ == old(self).source()[old(self).position() as int]
                    &&& final(self).position() == old(self).position() + 1
                },
                None => {
                    &&& old(self).position() == old(self).source().len()
                    &&& final(self).position() == old(self).position()
                },
            },
    {
        proof {
            use_type_invariant(&*self);
        }
        if self.next < self.lines.len() {
            let line = self.lines[self.next].clone();
            self.next = self.next + 1;
            Some(line)
        } else {
            None
        }
    }

    /// The kind of the current command.
    pub fn get_command_type(&self) -> (r: Option<CommandType>)
        ensures
            r == match self.current() {
                Some(command) => Some(command_type(command)),
                None => None,
            },
    {
        match &self.current_command {
            Some(command) => Some(classify(command.as_str())),
            None => None,
        }
    }

    /// The symbol of the current command.
    pub fn get_symbol(&self) -> (r: Option<String>)
        ensures
            match self.current() {
                Some(command) => match symbol_of(command) {
                    Some(symbol) => r matches Some(s) && s@ == symbol,
                    None => r is None,
                },
                None => r is None,
            },
    {
        match &self.current_command {
            None => None,
            Some(command) => {
                let n = command.as_str().unicode_len();
                match classify(command.as_str()) {
                    CommandType::A_COMMAND => {
                        assert(command@.subrange(1, n as int) =~= command@.skip(1));
                        Some(command.as_str().substring_char(1, n).to_owned())
                    },
                    CommandType::L_COMMAND => {
                        if n >= 2 {
                            Some(command.as_str().substring_char(1, n - 1).to_owned())
                        } else {
                            Some(String::new())
                        }
                    },
                    CommandType::C_COMMAND => None,
                }
            },
        }
    }

    /// The destination of the current command.
    pub fn dest(&self) -> (r: Option<Destination>)
        ensures
            r == match self.current() {
                Some(command) => dest_of(command),
                None => None,
            },
    {
        match &self.current_command {
            None => None,
            Some(command) => match classify(command.as_str()) {
                CommandType::C_COMMAND => {
                    if contains_char(command.as_str(), '=') {
                        let dest_str = extract_dest(command);
                        Destination::from_str(dest_str.as_str())
                    } else {
                        None
                    }
                },
                _ => None,
            },
        }
    }

    /// The computation of the current command.
    pub fn comp(&self) -> (r: Option<Comp>)
        ensures
            r == match self.current() {
                Some(command) => comp_of(command),
                None => None,
            },
    {
        match &self.current_command {
            None => None,
            Some(command) => match classify(command.as_str()) {
                CommandType::C_COMMAND => {
                    let comp_str = extract_comp(command);
                    Comp::from_str(comp_str.as_str())
                },
                _ => None,
            },
        }
    }

    /// The jump of the current command.
    pub fn jump(&self) -> (r: Option<Jump>)
        ensures
            r == match self.current() {
                Some(command) => jump_of(command),
                None => None,
            },
    {
        match &self.current_command {
            None => None,
            Some(command) => match classify(command.as_str()) {
                CommandType::C_COMMAND => {
                    if contains_char(command.as_str(), ';') {
                        let jump_str = extract_jmp(command);
                        Jump::from_str(jump_str.as_str())
                    } else {
                        None
                    }
                },
                _ => None,
            },
        }
    }
}

} // verus!
