//! Translation of mnemonic source text into instruction words.
//!
//! A source is split into lines at line feeds. A line whose first byte is
//! `;` is a comment; a line of whitespace alone is blank; both give no word.
//! Every other line is one instruction: a mnemonic, then, after whitespace,
//! a comma-separated argument list, each argument trimmed of whitespace.
//! Register arguments are `R0` to `R3`; immediates are decimal numbers up
//! to 255; addresses are decimal numbers below the size of memory.
use vstd::prelude::*;
use vstd::string::StringSliceAdditionalSpecFns;

use crate::cpu::MEMORY_SIZE;
use crate::encoding::{code_of, encode, encode_spec, OpCode};
use crate::text::{
    find_space, range_of, space_index, split, split_ranges, trim, trim_range,
};

verus! {

/// What is wrong with a source line.
#[derive(Clone, Copy, Debug, PartialEq, Eq, Structural)]
pub enum AsmErrorKind {
    /// The mnemonic names no operation.
    UnknownMnemonic,
    /// A register argument is not one of `R0` to `R3`.
    UnknownRegister,
    /// A numeric argument is not a decimal number that fits in eight bits.
    BadNumber,
    /// An address argument is past the end of memory.
    AddressOutOfRange,
    /// The operation takes another number of arguments.
    WrongArgCount,
}

/// A rejected source: the line at fault, counted from 1, and what is wrong
/// with it.
#[derive(Clone, Copy, Debug, PartialEq, Eq, Structural)]
pub struct AsmError {
    pub line: usize,
    pub kind: AsmErrorKind,
}

/// The line feed byte.
pub const NEWLINE: u8 = 0x0Au8;

/// The comment byte `;`.
pub const COMMENT: u8 = 0x3Bu8;

/// The argument separator `,`.
pub const COMMA: u8 = 0x2Cu8;

/// The operation that a mnemonic names, if any.
pub open spec fn mnemonic_of(m: Seq<u8>) -> Option<OpCode> {
    if m == seq![('H' as u8), ('A' as u8), ('L' as u8), ('T' as u8)] {
        Some(OpCode::HALT)
    } else if m == seq![('L' as u8), ('V' as u8), ('A' as u8), ('L' as u8)] {
        Some(OpCode::LVAL)
    } else if m == seq![('L' as u8), ('O' as u8), ('A' as u8), ('D' as u8)] {
        Some(OpCode::LOAD)
    } else if m == seq![('S' as u8), ('T' as u8), ('O' as u8), ('R' as u8), ('E' as u8)] {
        Some(OpCode::STORE)
    } else if m == seq![('A' as u8), ('D' as u8), ('D' as u8)] {
        Some(OpCode::ADD)
    } else if m == seq![('S' as u8), ('U' as u8), ('B' as u8)] {
        Some(OpCode::SUB)
    } else if m == seq![('J' as u8), ('M' as u8), ('P' as u8)] {
        Some(OpCode::JMP)
    } else if m == seq![('M' as u8), ('O' as u8), ('V' as u8)] {
        Some(OpCode::MOV)
    } else {
        None
    }
}

/// Whether every byte of `t` is a decimal digit.
pub open spec fn all_digits(t: Seq<u8>) -> bool {
    forall|i: int| 0 <= i < t.len() ==> ('0' as u8) <= #[trigger] t[i] <= ('9' as u8)
}

/// The value of a string of decimal digits.
pub open spec fn digits_value(t: Seq<u8>) -> nat
    decreases t.len(),
{
    if t.len() == 0 {
        0
    } else {
        10 * digits_value(t.drop_last()) + (t.last() - ('0' as u8)) as nat
    }
}

/// The register index that a token names: `R0` to `R3`.
pub open spec fn register_arg(t: Seq<u8>) -> Result<u8, AsmErrorKind> {
    if t.len() == 2 && t[0] == ('R' as u8) && ('0' as u8) <= t[1] <= ('3' as u8) {
        Ok((t[1] - ('0' as u8)) as u8)
    } else {
        Err(AsmErrorKind::UnknownRegister)
    }
}

/// The value of a decimal token that fits in eight bits.
pub open spec fn byte_arg(t: Seq<u8>) -> Result<u8, AsmErrorKind> {
    if t.len() > 0 && all_digits(t) && digits_value(t) <= 255 {
        Ok(digits_value(t) as u8)
    } else {
        Err(AsmErrorKind::BadNumber)
    }
}

/// The value of a decimal token that names a memory cell.
pub open spec fn address_arg(t: Seq<u8>) -> Result<u8, AsmErrorKind> {
    match byte_arg(t) {
        Ok(v) => if (v as int) < MEMORY_SIZE {
            Ok(v)
        } else {
            Err(AsmErrorKind::AddressOutOfRange)
        },
        Err(e) => Err(e),
    }
}

/// The arguments of an instruction, given the text after its mnemonic:
/// none when that text is blank, else its comma-separated pieces, trimmed.
pub open spec fn args_of(rest: Seq<u8>) -> Seq<Seq<u8>> {
    if trim(rest).len() == 0 {
        seq![]
    } else {
        split(rest, COMMA).map_values(|a: Seq<u8>| trim(a))
    }
}

/// The word for an operation and its arguments, or what is wrong with them.
/// The argument count is checked first, then the arguments from left to right.
pub open spec fn encode_args(op: OpCode, args: Seq<Seq<u8>>) -> Result<u16, AsmErrorKind> {
    let c = code_of(op);
    match op {
        OpCode::HALT => if args.len() != 0 {
            Err(AsmErrorKind::WrongArgCount)
        } else {
            Ok(encode_spec(c, 0, 0))
        },
        OpCode::JMP => if args.len() != 1 {
            Err(AsmErrorKind::WrongArgCount)
        } else {
            match address_arg(args[0]) {
                Ok(a) => Ok(encode_spec(c, 0, a)),
                Err(e) => Err(e),
            }
        },
        _ => if args.len() != 2 {
            Err(AsmErrorKind::WrongArgCount)
        } else {
            match register_arg(args[0]) {
                Err(e) => Err(e),
                Ok(r) => {
                    let second = match op {
                        OpCode::LVAL => byte_arg(args[1]),
                        OpCode::LOAD | OpCode::STORE => address_arg(args[1]),
                        _ => register_arg(args[1]),
                    };
                    match second {
                        Ok(v) => Ok(encode_spec(c, r, v)),
                        Err(e) => Err(e),
                    }
                },
            }
        },
    }
}

/// The word for a trimmed, non-empty instruction text, or what is wrong with it.
pub open spec fn instruction_word(t: Seq<u8>) -> Result<u16, AsmErrorKind> {
    let k = space_index(t);
    match mnemonic_of(t.take(k as int)) {
        None => Err(AsmErrorKind::UnknownMnemonic),
        Some(op) => encode_args(op, args_of(t.skip(k as int))),
    }
}

/// Whether a line gives no word: a comment, or whitespace alone.
pub open spec fn is_silent(l: Seq<u8>) -> bool {
    (l.len() > 0 && l[0] == COMMENT) || trim(l).len() == 0
}

/// What one line gives: nothing for a comment or a blank line, else its
/// word or what is wrong with it.
pub open spec fn line_result(l: Seq<u8>) -> Option<Result<u16, AsmErrorKind>> {
    if is_silent(l) {
        None
    } else {
        Some(instruction_word(trim(l)))
    }
}

/// The words of a sequence of lines, in order, or the first line at fault.
pub open spec fn assemble_lines(ls: Seq<Seq<u8>>) -> Result<Seq<u16>, AsmError>
    decreases ls.len(),
{
    if ls.len() == 0 {
        Ok(seq![])
    } else {
        match assemble_lines(ls.drop_last()) {
            Err(e) => Err(e),
            Ok(ws) => match line_result(ls.last()) {
                None => Ok(ws),
                Some(Ok(w)) => Ok(ws.push(w)),
                Some(Err(k)) => Err(AsmError { line: ls.len() as usize, kind: k }),
            },
        }
    }
}

/// The words of a source text, or the first line at fault.
pub open spec fn assemble_spec(src: Seq<u8>) -> Result<Seq<u16>, AsmError> {
    assemble_lines(split(src, NEWLINE))
}

/// Appending digits never lowers the value of a digit string.
proof fn lemma_digits_grow(t: Seq<u8>, i: int, j: int)
    requires
        0 <= i <= j <= t.len(),
        all_digits(t),
    ensures
        digits_value(t.take(i)) <= digits_value(t.take(j)),
    decreases j - i,
{
    if i < j {
        lemma_digits_grow(t, i, j - 1);
        assert(t.take(j).drop_last() =~= t.take(j - 1));
    }
}

/// Once a prefix of the lines fails, every longer prefix fails the same way.
proof fn lemma_error_persists(ls: Seq<Seq<u8>>, i: int, j: int)
    requires
        0 <= i <= j <= ls.len(),
        assemble_lines(ls.take(i)) is Err,
    ensures
        assemble_lines(ls.take(j)) == assemble_lines(ls.take(i)),
    decreases j - i,
{
    if i < j {
        lemma_error_persists(ls, i, j - 1);
        assert(ls.take(j).drop_last() =~= ls.take(j - 1));
    }
}

/// A failed assembly names a line among those given.
proof fn lemma_error_line_in_range(ls: Seq<Seq<u8>>)
    requires
        assemble_lines(ls) is Err,
        ls.len() <= usize::MAX,
    ensures
        1 <= assemble_lines(ls)->Err_0.line <= ls.len(),
    decreases ls.len(),
{
    if assemble_lines(ls.drop_last()) is Err {
        lemma_error_line_in_range(ls.drop_last());
    }
}

/// A line at fault fails the whole assembly, so that no word comes out; the
/// error names that line or an earlier one.
pub proof fn lemma_bad_line_fails(ls: Seq<Seq<u8>>, i: int)
    requires
        0 <= i < ls.len() <= usize::MAX,
        line_result(ls[i]) matches Some(Err(_)),
    ensures
        assemble_lines(ls) is Err,
        assemble_lines(ls)->Err_0.line <= i + 1,
{
    assert(ls.take(i + 1).drop_last() =~= ls.take(i));
    assert(ls.take(i + 1).last() == ls[i]);
    assert(assemble_lines(ls.take(i + 1)) is Err);
    lemma_error_line_in_range(ls.take(i + 1));
    lemma_error_persists(ls, i + 1, ls.len() as int);
    assert(ls.take(ls.len() as int) =~= ls);
}

/// An instruction line whose first word names no operation is at fault.
pub proof fn lemma_unknown_mnemonic(l: Seq<u8>)
    requires
        !is_silent(l),
        mnemonic_of(trim(l).take(space_index(trim(l)) as int)) is None,
    ensures
        line_result(l) == Some(Err::<u16, AsmErrorKind>(AsmErrorKind::UnknownMnemonic)),
{
}

/// An instruction line with the right number of arguments, whose register
/// argument is not one of `R0` to `R3`, is at fault for that register.
pub proof fn lemma_unknown_register(l: Seq<u8>, op: OpCode)
    requires
        !is_silent(l),
        mnemonic_of(trim(l).take(space_index(trim(l)) as int)) == Some(op),
        op != OpCode::HALT && op != OpCode::JMP,
        args_of(trim(l).skip(space_index(trim(l)) as int)).len() == 2,
        ({
            let args = args_of(trim(l).skip(space_index(trim(l)) as int));
            ||| register_arg(args[0]) is Err
            ||| (op == OpCode::ADD || op == OpCode::SUB || op == OpCode::MOV) && register_arg(
                args[1],
            ) is Err
        }),
    ensures
        line_result(l) == Some(Err::<u16, AsmErrorKind>(AsmErrorKind::UnknownRegister)),
{
}

/// Whether `b[lo..hi]` holds exactly the bytes of `w`.
fn equals_word(b: &[u8], lo: usize, hi: usize, w: &[u8]) -> (r: bool)
    requires
        lo <= hi <= b@.len(),
    ensures
        r == (b@.subrange(lo as int, hi as int) == w@),
{
    if hi - lo != w.len() {
        return false;
    }
    let mut i: usize = 0;
    while i < w.len()
        invariant
            hi - lo == w@.len(),
            lo <= hi <= b@.len(),
            0 <= i <= w@.len(),
            forall|j: int| 0 <= j < i ==> b@[lo + j] == w@[j],
        decreases w@.len() - i,
    {
        if b[lo + i] != w[i] {
            assert(b@.subrange(lo as int, hi as int)[i as int] != w@[i as int]);
            return false;
        }
        i = i + 1;
    }
    assert(b@.subrange(lo as int, hi as int) =~= w@);
    true
}

/// The operation that the mnemonic in `b[lo..hi]` names, if any.
fn parse_mnemonic(b: &[u8], lo: usize, hi: usize) -> (r: Option<OpCode>)
    requires
        lo <= hi <= b@.len(),
    ensures
        r == mnemonic_of(b@.subrange(lo as int, hi as int)),
{
    let halt: [u8; 4] = ['H' as u8, 'A' as u8, 'L' as u8, 'T' as u8];
    let lval: [u8; 4] = ['L' as u8, 'V' as u8, 'A' as u8, 'L' as u8];
    let load: [u8; 4] = ['L' as u8, 'O' as u8, 'A' as u8, 'D' as u8];
    let store: [u8; 5] = ['S' as u8, 'T' as u8, 'O' as u8, 'R' as u8, 'E' as u8];
    let add: [u8; 3] = ['A' as u8, 'D' as u8, 'D' as u8];
    let sub: [u8; 3] = ['S' as u8, 'U' as u8, 'B' as u8];
    let jmp: [u8; 3] = ['J' as u8, 'M' as u8, 'P' as u8];
    let mov: [u8; 3] = ['M' as u8, 'O' as u8, 'V' as u8];
    assert(halt@ =~= seq!['H' as u8, 'A' as u8, 'L' as u8, 'T' as u8]);
    assert(lval@ =~= seq!['L' as u8, 'V' as u8, 'A' as u8, 'L' as u8]);
    assert(load@ =~= seq!['L' as u8, 'O' as u8, 'A' as u8, 'D' as u8]);
    assert(store@ =~= seq!['S' as u8, 'T' as u8, 'O' as u8, 'R' as u8, 'E' as u8]);
    assert(add@ =~= seq!['A' as u8, 'D' as u8, 'D' as u8]);
    assert(sub@ =~= seq!['S' as u8, 'U' as u8, 'B' as u8]);
    assert(jmp@ =~= seq!['J' as u8, 'M' as u8, 'P' as u8]);
    assert(mov@ =~= seq!['M' as u8, 'O' as u8, 'V' as u8]);
    if equals_word(b, lo, hi, halt.as_slice()) {
        Some(OpCode::HALT)
    } else if equals_word(b, lo, hi, lval.as_slice()) {
        Some(OpCode::LVAL)
    } else if equals_word(b, lo, hi, load.as_slice()) {
        Some(OpCode::LOAD)
    } else if equals_word(b, lo, hi, store.as_slice()) {
        Some(OpCode::STORE)
    } else if equals_word(b, lo, hi, add.as_slice()) {
        Some(OpCode::ADD)
    } else if equals_word(b, lo, hi, sub.as_slice()) {
        Some(OpCode::SUB)
    } else if equals_word(b, lo, hi, jmp.as_slice()) {
        Some(OpCode::JMP)
    } else if equals_word(b, lo, hi, mov.as_slice()) {
        Some(OpCode::MOV)
    } else {
        None
    }
}

/// The register index that the token `b[lo..hi]` names.
fn parse_register(b: &[u8], lo: usize, hi: usize) -> (r: Result<u8, AsmErrorKind>)
    requires
        lo <= hi <= b@.len(),
    ensures
        r == register_arg(b@.subrange(lo as int, hi as int)),
{
    if hi - lo == 2 && b[lo] == 'R' as u8 && '0' as u8 <= b[lo + 1] && b[lo + 1] <= '3' as u8 {
        Ok(b[lo + 1] - '0' as u8)
    } else {
        Err(AsmErrorKind::UnknownRegister)
    }
}

/// The value of the decimal token `b[lo..hi]`, which must fit in eight bits.
fn parse_byte(b: &[u8], lo: usize, hi: usize) -> (r: Result<u8, AsmErrorKind>)
    requires
        lo <= hi <= b@.len(),
    ensures
        r == byte_arg(b@.subrange(lo as int, hi as int)),
{
    let ghost t = b@.subrange(lo as int, hi as int);
    if lo == hi {
        return Err(AsmErrorKind::BadNumber);
    }
    let mut acc: u32 = 0;
    let mut i = lo;
    while i < hi
        invariant
            lo <= i <= hi <= b@.len(),
            t == b@.subrange(lo as int, hi as int),
            acc as nat == digits_value(t.take(i - lo)),
            acc <= 255,
            all_digits(t.take(i - lo)),
        decreases hi - i,
    {
        let c = b[i];
        if c < '0' as u8 || c > '9' as u8 {
            assert(t[i - lo] == c);
            return Err(AsmErrorKind::BadNumber);
        }
        assert(t.take(i - lo + 1).drop_last() =~= t.take(i - lo));
        assert(all_digits(t.take(i - lo + 1)));
        assert(t.take(i - lo + 1).last() == c);
        acc = acc * 10 + (c - '0' as u8) as u32;
        i = i + 1;
        assert(acc as nat == digits_value(t.take(i - lo)));
        if acc > 255 {
            proof {
                if all_digits(t) {
                    lemma_digits_grow(t, i - lo, t.len() as int);
                    assert(t.take(t.len() as int) =~= t);
                }
            }
            return Err(AsmErrorKind::BadNumber);
        }
    }
    assert(t.take(i - lo) =~= t);
    Ok(acc as u8)
}

/// The value of the decimal token `b[lo..hi]`, which must name a memory cell.
fn parse_address(b: &[u8], lo: usize, hi: usize) -> (r: Result<u8, AsmErrorKind>)
    requires
        lo <= hi <= b@.len(),
    ensures
        r == address_arg(b@.subrange(lo as int, hi as int)),
{
    let v = parse_byte(b, lo, hi)?;
    if (v as usize) < MEMORY_SIZE {
        Ok(v)
    } else {
        Err(AsmErrorKind::AddressOutOfRange)
    }
}

/// The word for an operation and its trimmed arguments.
fn encode_instruction(op: OpCode, b: &[u8], args: &Vec<(usize, usize)>) -> (r: Result<
    u16,
    AsmErrorKind,
>)
    requires
        forall|j: int| 0 <= j < args@.len() ==> (#[trigger] args@[j]).0 <= args@[j].1 <= b@.len(),
    ensures
        r == encode_args(op, args@.map_values(|p: (usize, usize)| range_of(b@, p))),
{
    let ghost a = args@.map_values(|p: (usize, usize)| range_of(b@, p));
    match op {
        OpCode::HALT => {
            if args.len() != 0 {
                return Err(AsmErrorKind::WrongArgCount);
            }
            Ok(encode(op, 0, 0))
        },
        OpCode::JMP => {
            if args.len() != 1 {
                return Err(AsmErrorKind::WrongArgCount);
            }
            let target = parse_address(b, args[0].0, args[0].1)?;
            Ok(encode(op, 0, target))
        },
        _ => {
            if args.len() != 2 {
                return Err(AsmErrorKind::WrongArgCount);
            }
            assert(a[0] == range_of(b@, args@[0]) && a[1] == range_of(b@, args@[1]));
            let reg = parse_register(b, args[0].0, args[0].1)?;
            let value = match op {
                OpCode::LVAL => parse_byte(b, args[1].0, args[1].1)?,
                OpCode::LOAD | OpCode::STORE => parse_address(b, args[1].0, args[1].1)?,
                _ => parse_register(b, args[1].0, args[1].1)?,
            };
            Ok(encode(op, reg, value))
        },
    }
}

/// What the line `b[lo..hi]` gives: nothing for a comment or a blank line,
/// else its word or what is wrong with it.
fn parse_line(b: &[u8], lo: usize, hi: usize) -> (r: Option<Result<u16, AsmErrorKind>>)
    requires
        lo <= hi <= b@.len(),
    ensures
        r == line_result(b@.subrange(lo as int, hi as int)),
{
    let ghost l = b@.subrange(lo as int, hi as int);
    if hi > lo && b[lo] == COMMENT {
        assert(l[0] == COMMENT);
        return None;
    }
    let (tlo, thi) = trim_range(b, lo, hi);
    if tlo == thi {
        return None;
    }
    let ghost t = b@.subrange(tlo as int, thi as int);
    let k = find_space(b, tlo, thi);
    assert(t.take(k - tlo) =~= b@.subrange(tlo as int, k as int));
    assert(t.skip(k - tlo) =~= b@.subrange(k as int, thi as int));
    let op = match parse_mnemonic(b, tlo, k) {
        Some(op) => op,
        None => return Some(Err(AsmErrorKind::UnknownMnemonic)),
    };
    let ghost rest = b@.subrange(k as int, thi as int);
    let (rlo, rhi) = trim_range(b, k, thi);
    let mut args: Vec<(usize, usize)> = Vec::new();
    if rlo < rhi {
        let pieces = split_ranges(b, k, thi, COMMA);
        let ghost want = split(rest, COMMA).map_values(|a: Seq<u8>| trim(a));
        let mut j: usize = 0;
        while j < pieces.len()
            invariant
                k <= thi <= b@.len(),
                rest == b@.subrange(k as int, thi as int),
                want == split(rest, COMMA).map_values(|a: Seq<u8>| trim(a)),
                pieces@.len() == split(rest, COMMA).len(),
                forall|i: int|
                    0 <= i < pieces@.len() ==> {
                        &&& k <= (#[trigger] pieces@[i]).0 <= pieces@[i].1 <= thi
                        &&& range_of(b@, pieces@[i]) == split(rest, COMMA)[i]
                    },
                j <= pieces@.len(),
                args@.len() == j,
                forall|i: int| 0 <= i < j ==> (#[trigger] args@[i]).0 <= args@[i].1 <= b@.len(),
                args@.map_values(|p: (usize, usize)| range_of(b@, p)) =~= want.take(j as int),
            decreases pieces@.len() - j,
        {
            let (plo, phi) = pieces[j];
            let tr = trim_range(b, plo, phi);
            args.push(tr);
            j = j + 1;
        }
        assert(want.take(j as int) =~= want);
    }
    Some(encode_instruction(op, b, &args))
}

/// Translates a source text, given as its bytes, into instruction words, one
/// for each line that is neither a comment nor blank. Fails on the first line
/// at fault, with no words.
pub fn assemble_bytes(src: &[u8]) -> (r: Result<Vec<u16>, AsmError>)
    ensures
        match assemble_spec(src@) {
            Ok(ws) => r matches Ok(v) && v@ == ws,
            Err(e) => r == Err::<Vec<u16>, AsmError>(e),
        },
{
    let lines = split_ranges(src, 0, src.len(), NEWLINE);
    let ghost ls = split(src@, NEWLINE);
    assert(src@.subrange(0, src@.len() as int) =~= src@);
    let mut out: Vec<u16> = Vec::new();
    let mut j: usize = 0;
    while j < lines.len()
        invariant
            ls == split(src@, NEWLINE),
            lines@.len() == ls.len(),
            forall|i: int|
                0 <= i < lines@.len() ==> {
                    &&& (#[trigger] lines@[i]).0 <= lines@[i].1 <= src@.len()
                    &&& range_of(src@, lines@[i]) == ls[i]
                },
            j <= lines@.len(),
            assemble_lines(ls.take(j as int)) == Ok::<Seq<u16>, AsmError>(out@),
        decreases lines@.len() - j,
    {
        let (lo, hi) = lines[j];
        let res = parse_line(src, lo, hi);
        assert(ls.take(j + 1).drop_last() =~= ls.take(j as int));
        match res {
            None => {},
            Some(Ok(w)) => {
                out.push(w);
            },
            Some(Err(kind)) => {
                proof {
                    lemma_error_persists(ls, j + 1, ls.len() as int);
                    assert(ls.take(ls.len() as int) =~= ls);
                }
                return Err(AsmError { line: j + 1, kind });
            },
        }
        j = j + 1;
    }
    assert(ls.take(j as int) =~= ls);
    Ok(out)
}

/// Translates a source text into instruction words, one for each line that
/// is neither a comment nor blank. Fails on the first line at fault, with no
/// words.
pub fn assemble(source: &str) -> (r: Result<Vec<u16>, AsmError>)
    ensures
        match assemble_spec(source.spec_bytes()) {
            Ok(ws) => r matches Ok(v) && v@ == ws,
            Err(e) => r == Err::<Vec<u16>, AsmError>(e),
        },
{
    assemble_bytes(source.as_bytes())
}

} // verus!
