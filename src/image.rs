//! The binary program format: a flat run of 16-bit words, each stored with
//! its high byte first, with no header.
use vstd::prelude::*;

use crate::cpu::{initial_state, LoadError, CPU, MEMORY_SIZE};

verus! {

/// The bytes of a run of words, high byte first.
pub open spec fn bytes_of(words: Seq<u16>) -> Seq<u8> {
    Seq::new(
        2 * words.len(),
        |i: int|
            if i % 2 == 0 {
                (words[i / 2] / 256) as u8
            } else {
                (words[i / 2] % 256) as u8
            },
    )
}

/// The words of a run of bytes of even length, each read high byte first.
pub open spec fn words_of(bytes: Seq<u8>) -> Seq<u16> {
    Seq::new(
        bytes.len() / 2,
        |i: int| (bytes[2 * i] as int * 256 + bytes[2 * i + 1] as int) as u16,
    )
}

/// Writes a run of words as bytes, high byte first.
pub fn words_to_bytes(words: &[u16]) -> (r: Vec<u8>)
    requires
        2 * words@.len() <= usize::MAX,
    ensures
        r@ == bytes_of(words@),
{
    let mut out: Vec<u8> = Vec::new();
    let mut i: usize = 0;
    while i < words.len()
        invariant
            i <= words@.len(),
            2 * words@.len() <= usize::MAX,
            out@ =~= bytes_of(words@.take(i as int)),
        decreases words@.len() - i,
    {
        let w = words[i];
        out.push((w / 256) as u8);
        out.push((w % 256) as u8);
        i = i + 1;
        assert(out@ =~= bytes_of(words@.take(i as int)));
    }
    assert(words@.take(i as int) =~= words@);
    out
}

/// Reads a run of bytes as words, high byte first. Fails when the number of
/// bytes is odd.
pub fn words_from_bytes(bytes: &[u8]) -> (r: Result<Vec<u16>, LoadError>)
    ensures
        bytes@.len() % 2 == 0 ==> (r matches Ok(v) && v@ == words_of(bytes@)),
        bytes@.len() % 2 == 1 ==> r == Err::<Vec<u16>, LoadError>(
            LoadError::OddByteCount(bytes@.len() as usize),
        ),
{
    if bytes.len() % 2 == 1 {
        return Err(LoadError::OddByteCount(bytes.len()));
    }
    let len = bytes.len();
    let n = len / 2;
    let mut out: Vec<u16> = Vec::new();
    let mut i: usize = 0;
    while i < n
        invariant
            len == bytes@.len(),
            n == bytes@.len() / 2,
            bytes@.len() % 2 == 0,
            i <= n,
            out@ =~= words_of(bytes@).take(i as int),
        decreases n - i,
    {
        assert(2 * i + 1 < bytes@.len()) by (nonlinear_arith)
            requires
                i < n,
                n == bytes@.len() / 2,
        ;
        let w = (bytes[2 * i] as u16) * 256 + (bytes[2 * i + 1] as u16);
        out.push(w);
        i = i + 1;
    }
    Ok(out)
}

/// A machine loaded with the program that a run of bytes holds. Fails when
/// the number of bytes is odd or the program does not fit in memory.
pub fn load_program(bytes: &[u8]) -> (r: Result<CPU, LoadError>)
    ensures
        bytes@.len() % 2 == 1 ==> r == Err::<CPU, LoadError>(
            LoadError::OddByteCount(bytes@.len() as usize),
        ),
        bytes@.len() % 2 == 0 && bytes@.len() / 2 > MEMORY_SIZE ==> r == Err::<CPU, LoadError>(
            LoadError::ProgramTooLarge((bytes@.len() / 2) as usize),
        ),
        bytes@.len() % 2 == 0 && bytes@.len() / 2 <= MEMORY_SIZE ==> (r matches Ok(c) && c@
            == initial_state(words_of(bytes@))),
{
    let words = words_from_bytes(bytes)?;
    CPU::new(words.as_slice())
}

/// Reading back the bytes of a run of words gives the words.
pub proof fn lemma_bytes_round_trip(words: Seq<u16>)
    ensures
        words_of(bytes_of(words)) == words,
{
    let b = bytes_of(words);
    assert forall|i: int| 0 <= i < words.len() implies #[trigger] words_of(b)[i] == words[i] by {
        assert(b[2 * i] == (words[i] / 256) as u8);
        assert(b[2 * i + 1] == (words[i] % 256) as u8);
    }
    assert(words_of(b) =~= words);
}

} // verus!
