use vstd::prelude::*;

use crate::instruction::Instruction;
use crate::opcode::Opcode;
use crate::text::{chars_of, same_chars, split_words, words};

verus! {

/// Why a line of assembly could not be turned into an instruction.
#[derive(Debug, PartialEq)]
pub enum ParseError {
    /// An operand is malformed, out of range or of the wrong kind, or a word
    /// follows the last operand.
    Syntax,
    /// The line ends before the mnemonic or before its last operand.
    UnexpectedEndOfInput,
    /// The mnemonic is not one of the machine's.
    UnknownInstruction,
    /// Any other failure, with a message.
    Custom(String),
}

impl ParseError {
    pub fn custom(msg: String) -> (e: ParseError)
        ensures
            e == ParseError::Custom(msg),
    {
        ParseError::Custom(msg)
    }
}

/// What an operand of an instruction is written as.
#[derive(Debug, Clone, Copy, PartialEq, Eq, Structural)]
pub enum OperandKind {
    /// `$n`, a register index from 0 to 255, one byte.
    Register,
    /// `#n`, a number from 0 to 65535, two bytes, high byte first.
    Number,
}

/// The mnemonic that a word spells, if any.
pub open spec fn mnemonic_of(w: Seq<char>) -> Option<Opcode> {
    if w == seq!['L', 'O', 'A', 'D'] {
        Some(Opcode::LOAD)
    } else if w == seq!['A', 'D', 'D'] {
        Some(Opcode::ADD)
    } else if w == seq!['S', 'U', 'B'] {
        Some(Opcode::SUB)
    } else if w == seq!['M', 'U', 'L'] {
        Some(Opcode::MUL)
    } else if w == seq!['D', 'I', 'V'] {
        Some(Opcode::DIV)
    } else if w == seq!['H', 'L', 'T'] {
        Some(Opcode::HLT)
    } else if w == seq!['J', 'M', 'P'] {
        Some(Opcode::JMP)
    } else if w == seq!['J', 'M', 'P', 'F'] {
        Some(Opcode::JMPF)
    } else if w == seq!['J', 'M', 'P', 'B'] {
        Some(Opcode::JMPB)
    } else if w == seq!['E', 'Q'] {
        Some(Opcode::EQ)
    } else if w == seq!['N', 'E', 'Q'] {
        Some(Opcode::NEQ)
    } else if w == seq!['G', 'T', 'E'] {
        Some(Opcode::GTE)
    } else if w == seq!['L', 'T', 'E'] {
        Some(Opcode::LTE)
    } else if w == seq!['G', 'T'] {
        Some(Opcode::GT)
    } else if w == seq!['L', 'T'] {
        Some(Opcode::LT)
    } else if w == seq!['J', 'M', 'P', 'E'] {
        Some(Opcode::JMPE)
    } else {
        None
    }
}

/// How many operands an instruction is written with.
pub open spec fn arity(op: Opcode) -> nat {
    match op {
        Opcode::HLT | Opcode::ILLEGAL => 0,
        Opcode::JMP | Opcode::JMPF | Opcode::JMPB | Opcode::JMPE => 1,
        Opcode::LOAD => 2,
        Opcode::EQ | Opcode::NEQ | Opcode::GTE | Opcode::LTE | Opcode::GT | Opcode::LT => 2,
        _ => 3,
    }
}

/// The kind of the `k`-th operand: only `LOAD`'s second operand is a number.
pub open spec fn kind_at(op: Opcode, k: nat) -> OperandKind {
    if op == Opcode::LOAD && k == 1 {
        OperandKind::Number
    } else {
        OperandKind::Register
    }
}

pub open spec fn is_digit(c: char) -> bool {
    '0' <= c <= '9'
}

pub open spec fn all_digits(d: Seq<char>) -> bool {
    forall|i: int| 0 <= i < d.len() ==> is_digit(d[i])
}

/// The value of a string of decimal digits.
pub open spec fn digits_value(d: Seq<char>) -> nat
    decreases d.len(),
{
    if d.len() == 0 {
        0
    } else {
        digits_value(d.drop_last()) * 10 + (d.last() as nat - '0' as nat) as nat
    }
}

/// A sigil followed by at least one digit, the digits' value no more than `limit`.
pub open spec fn numeral(w: Seq<char>, sigil: char, limit: nat) -> bool {
    w.len() >= 2 && w[0] == sigil && all_digits(w.drop_first()) && digits_value(w.drop_first())
        <= limit
}

/// The bytes that an operand word stands for, if it is well formed.
pub open spec fn operand_bytes(kind: OperandKind, w: Seq<char>) -> Option<Seq<u8>> {
    let v = digits_value(w.drop_first());
    match kind {
        OperandKind::Register => if numeral(w, '$', 255) {
            Some(seq![v as u8])
        } else {
            None
        },
        OperandKind::Number => if numeral(w, '#', 65535) {
            Some(seq![(v / 256) as u8, (v % 256) as u8])
        } else {
            None
        },
    }
}

/// The bytes of the operands `k..` of `op`, written as `args`, if all are well formed.
pub open spec fn operands_from(op: Opcode, args: Seq<Seq<char>>, k: nat) -> Option<Seq<u8>>
    decreases arity(op) - k,
{
    if k >= arity(op) || k >= args.len() {
        Some(Seq::empty())
    } else {
        match operand_bytes(kind_at(op, k), args[k as int]) {
            None => None,
            Some(b) => match operands_from(op, args, k + 1) {
                None => None,
                Some(rest) => Some(b + rest),
            },
        }
    }
}

/// A leading `name:` word.
pub open spec fn is_label(w: Seq<char>) -> bool {
    w.len() >= 2 && w.last() == ':'
}

/// The instruction that a line of assembly denotes: an optional label, a
/// mnemonic, then exactly the mnemonic's operands, separated by blanks.
pub open spec fn parse_line(line: Seq<char>) -> Result<(Opcode, Seq<u8>), ParseError> {
    let all = words(line);
    let ws = if all.len() > 0 && is_label(all[0]) {
        all.drop_first()
    } else {
        all
    };
    if ws.len() == 0 {
        Err(ParseError::UnexpectedEndOfInput)
    } else {
        match mnemonic_of(ws[0]) {
            None => Err(ParseError::UnknownInstruction),
            Some(op) => {
                let args = ws.drop_first();
                if args.len() < arity(op) {
                    Err(ParseError::UnexpectedEndOfInput)
                } else if args.len() > arity(op) {
                    Err(ParseError::Syntax)
                } else {
                    match operands_from(op, args, 0) {
                        None => Err(ParseError::Syntax),
                        Some(bytes) => Ok((op, bytes)),
                    }
                }
            },
        }
    }
}

fn mnemonic(w: &Vec<char>) -> (r: Option<Opcode>)
    ensures
        r == mnemonic_of(w@),
{
    if same_chars(w, &vec!['L', 'O', 'A', 'D']) {
        Some(Opcode::LOAD)
    } else if same_chars(w, &vec!['A', 'D', 'D']) {
        Some(Opcode::ADD)
    } else if same_chars(w, &vec!['S', 'U', 'B']) {
        Some(Opcode::SUB)
    } else if same_chars(w, &vec!['M', 'U', 'L']) {
        Some(Opcode::MUL)
    } else if same_chars(w, &vec!['D', 'I', 'V']) {
        Some(Opcode::DIV)
    } else if same_chars(w, &vec!['H', 'L', 'T']) {
        Some(Opcode::HLT)
    } else if same_chars(w, &vec!['J', 'M', 'P']) {
        Some(Opcode::JMP)
    } else if same_chars(w, &vec!['J', 'M', 'P', 'F']) {
        Some(Opcode::JMPF)
    } else if same_chars(w, &vec!['J', 'M', 'P', 'B']) {
        Some(Opcode::JMPB)
    } else if same_chars(w, &vec!['E', 'Q']) {
        Some(Opcode::EQ)
    } else if same_chars(w, &vec!['N', 'E', 'Q']) {
        Some(Opcode::NEQ)
    } else if same_chars(w, &vec!['G', 'T', 'E']) {
        Some(Opcode::GTE)
    } else if same_chars(w, &vec!['L', 'T', 'E']) {
        Some(Opcode::LTE)
    } else if same_chars(w, &vec!['G', 'T']) {
        Some(Opcode::GT)
    } else if same_chars(w, &vec!['L', 'T']) {
        Some(Opcode::LT)
    } else if same_chars(w, &vec!['J', 'M', 'P', 'E']) {
        Some(Opcode::JMPE)
    } else {
        None
    }
}

/// Prepends `a` to an optional byte sequence.
spec fn after(a: Seq<u8>, o: Option<Seq<u8>>) -> Option<Seq<u8>> {
    match o {
        None => None,
        Some(rest) => Some(a + rest),
    }
}

fn is_digit_char(c: char) -> (b: bool)
    ensures
        b == is_digit(c),
{
    '0' <= c && c <= '9'
}

/// The value of a numeral `sigil digits` no greater than `limit`.
fn numeral_value(w: &Vec<char>, sigil: char, limit: u32) -> (r: Option<u32>)
    requires
        limit <= 65535,
    ensures
        numeral(w@, sigil, limit as nat) ==> r == Some(digits_value(w@.drop_first()) as u32),
        !numeral(w@, sigil, limit as nat) ==> r is None,
{
    if w.len() < 2 || w[0] != sigil {
        return None;
    }
    let ghost d = w@.drop_first();
    let mut v: u32 = 0;
    let mut i: usize = 1;
    while i < w.len()
        invariant
            d == w@.drop_first(),
            w@.len() >= 2,
            1 <= i <= w@.len(),
            limit <= 65535,
            all_digits(d.subrange(0, i - 1)),
            v as nat == if digits_value(d.subrange(0, i - 1)) <= limit as nat {
                digits_value(d.subrange(0, i - 1))
            } else {
                limit as nat + 1
            },
        decreases w@.len() - i,
    {
        let c = w[i];
        if !is_digit_char(c) {
            assert(d[i - 1] == c);
            return None;
        }
        let ghost prev = digits_value(d.subrange(0, i - 1));
        assert(d.subrange(0, i as int).drop_last() =~= d.subrange(0, i - 1));
        assert(d.subrange(0, i as int).last() == c);
        let dig = (c as u32) - ('0' as u32);
        if v <= limit {
            let x = v * 10 + dig;
            v = if x <= limit {
                x
            } else {
                limit + 1
            };
        } else {
            assert(prev * 10 + dig as nat > limit as nat) by (nonlinear_arith)
                requires
                    prev > limit as nat,
            ;
        }
        assert(all_digits(d.subrange(0, i as int))) by {
            assert forall|k: int| 0 <= k < i implies is_digit(d.subrange(0, i as int)[k]) by {
                if k < i - 1 {
                    assert(d.subrange(0, i as int)[k] == d.subrange(0, i - 1)[k]);
                }
            }
        }
        i = i + 1;
    }
    assert(d.subrange(0, i - 1) =~= d);
    if v <= limit {
        Some(v)
    } else {
        None
    }
}

/// The bytes of one operand word of the given kind.
fn operand(kind: OperandKind, w: &Vec<char>) -> (r: Option<Vec<u8>>)
    ensures
        match operand_bytes(kind, w@) {
            None => r is None,
            Some(b) => r is Some && r->Some_0@ == b,
        },
{
    match kind {
        OperandKind::Register => match numeral_value(w, '$', 255) {
            None => None,
            Some(v) => {
                let r = vec![v as u8];
                assert(r@ =~= seq![v as u8]);
                Some(r)
            },
        },
        OperandKind::Number => match numeral_value(w, '#', 65535) {
            None => None,
            Some(v) => {
                let r = vec![(v / 256) as u8, (v % 256) as u8];
                assert(r@ =~= seq![(v / 256) as u8, (v % 256) as u8]);
                Some(r)
            },
        },
    }
}

fn arity_of(op: Opcode) -> (n: usize)
    ensures
        n == arity(op),
{
    match op {
        Opcode::HLT | Opcode::ILLEGAL => 0,
        Opcode::JMP | Opcode::JMPF | Opcode::JMPB | Opcode::JMPE => 1,
        Opcode::LOAD => 2,
        Opcode::EQ | Opcode::NEQ | Opcode::GTE | Opcode::LTE | Opcode::GT | Opcode::LT => 2,
        _ => 3,
    }
}

fn kind_of(op: Opcode, k: usize) -> (kind: OperandKind)
    ensures
        kind == kind_at(op, k as nat),
{
    if op == Opcode::LOAD && k == 1 {
        OperandKind::Number
    } else {
        OperandKind::Register
    }
}

/// Turns lines of assembly into instructions.
pub struct AssemblyParser;

impl AssemblyParser {
    /// Parses one line: an optional `name:` label, a mnemonic, then its
    /// operands (`$n` for a register, `#n` for a number), separated by blanks.
    pub fn parse_instruction(instruction: &str) -> (r: Result<Instruction, ParseError>)
        ensures
            match parse_line(instruction@) {
                Ok((op, bytes)) => r is Ok && r->Ok_0@ == (op, bytes),
                Err(e) => r == Err::<Instruction, ParseError>(e),
            },
    {
        let cs = chars_of(instruction);
        let ws = split_words(&cs);
        let ghost all = words(instruction@);
        let mut first: usize = 0;
        if ws.len() > 0 {
            let w0 = &ws[0];
            if w0.len() >= 2 && w0[w0.len() - 1] == ':' {
                first = 1;
            }
        }
        let ghost lines = if all.len() > 0 && is_label(all[0]) {
            all.drop_first()
        } else {
            all
        };
        assert(lines =~= all.skip(first as int));
        if ws.len() <= first {
            return Err(ParseError::UnexpectedEndOfInput);
        }
        let op = match mnemonic(&ws[first]) {
            None => {
                return Err(ParseError::UnknownInstruction);
            },
            Some(op) => op,
        };
        let ghost args = lines.drop_first();
        assert(args =~= all.skip(first + 1));
        let n = arity_of(op);
        let nargs = ws.len() - first - 1;
        if nargs < n {
            return Err(ParseError::UnexpectedEndOfInput);
        }
        if nargs > n {
            return Err(ParseError::Syntax);
        }
        let mut bytes: Vec<u8> = Vec::new();
        let mut k: usize = 0;
        while k < n
            invariant
                n == arity(op),
                nargs == n,
                args.len() == n,
                ws@.len() == all.len(),
                first <= 1,
                all == words(instruction@),
                lines == (if all.len() > 0 && is_label(all[0]) {
                    all.drop_first()
                } else {
                    all
                }),
                first + 1 + n == ws@.len(),
                ws@.len() == ws.len(),
                lines.len() > 0,
                lines[0] == all[first as int],
                mnemonic_of(lines[0]) == Some(op),
                args == lines.drop_first(),
                forall|j: int| 0 <= j < ws@.len() ==> ws@[j]@ == all[j],
                args == all.skip(first + 1),
                k <= n,
                operands_from(op, args, 0) == after(bytes@, operands_from(op, args, k as nat)),
            decreases n - k,
        {
            let ghost b0 = bytes@;
            assert(ws@[first + 1 + k]@ == args[k as int]);
            match operand(kind_of(op, k), &ws[first + 1 + k]) {
                None => {
                    assert(operands_from(op, args, k as nat) is None);
                    assert(operands_from(op, args, 0) is None);
                    assert(parse_line(instruction@) == Err::<(Opcode, Seq<u8>), ParseError>(
                        ParseError::Syntax,
                    ));
                    return Err(ParseError::Syntax);
                },
                Some(b) => {
                    let mut b = b;
                    let ghost bv = b@;
                    bytes.append(&mut b);
                    assert(after(b0, after(bv, operands_from(op, args, (k + 1) as nat))) == after(
                        bytes@,
                        operands_from(op, args, (k + 1) as nat),
                    )) by {
                        match operands_from(op, args, (k + 1) as nat) {
                            None => {},
                            Some(rest) => {
                                assert(b0 + (bv + rest) =~= (b0 + bv) + rest);
                            },
                        }
                    }
                },
            }
            k = k + 1;
        }
        assert(bytes@ + Seq::<u8>::empty() =~= bytes@);
        Ok(Instruction::new(op, bytes))
    }
}

} // verus!
