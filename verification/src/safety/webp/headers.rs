//! How the prefix codes themselves are written in a lossless WebP image.
use super::bits::{read, read_bits, MAX_CHUNK};
use super::codes::{build, built, read_symbol, shorter, symbol, Code, Words};
use crate::safety::Ending;
use vstd::arithmetic::power2::{lemma2_to64, lemma_pow2_strictly_increases, pow2};
use vstd::prelude::*;

verus! {

/// The number of symbols that the lengths of words are written in.
pub const LENGTH_SYMBOLS: usize = 19;

/// The number of symbols for distances.
pub const DISTANCE_SYMBOLS: u16 = 40;

/// The symbol whose length comes at the given place.
pub open spec fn length_order(place: int) -> int {
    if place == 0 {
        17
    } else if place == 1 {
        18
    } else if place <= 7 {
        place - 2
    } else if place == 8 {
        16
    } else {
        place - 3
    }
}

/// No symbol has a word yet.
pub open spec fn no_lengths() -> Seq<u8> {
    Seq::new(LENGTH_SYMBOLS as nat, |i: int| 0u8)
}

/// Reads the lengths, three bits each, of the words for lengths.
pub open spec fn length_words(
    data: Seq<u8>,
    pos: u64,
    place: int,
    count: int,
    lengths: Seq<u8>,
) -> Result<(Seq<u8>, u64), Ending>
    decreases count - place,
{
    if place >= count {
        Ok((lengths, pos))
    } else {
        match read(data, pos, 3) {
            Err(ending) => Err(ending),
            Ok((value, next)) => length_words(
                data,
                next,
                place + 1,
                count,
                lengths.update(length_order(place), value as u8),
            ),
        }
    }
}

/// How often a length is repeated, by the symbol that says so: how many bits tell, and the least
/// number.
pub open spec fn repetition(sign: u16) -> Option<(u8, int)> {
    if sign == 16 {
        Some((2, 3))
    } else if sign == 17 {
        Some((3, 3))
    } else if sign == 18 {
        Some((7, 11))
    } else {
        None
    }
}

/// Reads the lengths of the words for up to `wanted` symbols, in up to `left` more signs, after
/// those that are there; `previous` is the last length that was not zero.
pub open spec fn word_lengths(
    data: Seq<u8>,
    pos: u64,
    code: Words,
    wanted: int,
    left: int,
    previous: u8,
    lengths: Seq<u8>,
) -> Result<(Seq<u8>, u64), Ending>
    decreases wanted - lengths.len(),
{
    if lengths.len() >= wanted || left <= 0 {
        Ok((lengths, pos))
    } else {
        match symbol(data, pos, code) {
            Err(ending) => Err(ending),
            Ok((sign, next)) => if sign < 16 {
                word_lengths(
                    data,
                    next,
                    code,
                    wanted,
                    left - 1,
                    if sign != 0 {
                        sign as u8
                    } else {
                        previous
                    },
                    lengths.push(sign as u8),
                )
            } else {
                match repetition(sign) {
                    None => Err(Ending::Fails),
                    Some((width, least)) => match read(data, next, width) {
                        Err(ending) => Err(ending),
                        Ok((more, after)) => {
                            let again = least + more;
                            if lengths.len() + again > wanted {
                                Err(Ending::Fails)
                            } else {
                                word_lengths(
                                    data,
                                    after,
                                    code,
                                    wanted,
                                    left - 1,
                                    previous,
                                    lengths + Seq::new(
                                        again as nat,
                                        |i: int|
                                            if sign == 16 {
                                                previous
                                            } else {
                                                0
                                            },
                                    ),
                                )
                            }
                        },
                    },
                }
            },
        }
    }
}

/// Reads a code of one or two symbols, which need not belong to the alphabet.
pub open spec fn simple_code(data: Seq<u8>, pos: u64) -> Result<(Words, u64), Ending> {
    match read(data, pos, 1) {
        Err(ending) => Err(ending),
        Ok((two, a)) => match read(data, a, 1) {
            Err(ending) => Err(ending),
            Ok((wide, b)) => match read(data, b, (1 + 7 * wide) as u8) {
                Err(ending) => Err(ending),
                Ok((first, c)) => if two == 0 {
                    Ok((one_word(first as u16), c))
                } else {
                    match read(data, c, 8) {
                        Err(ending) => Err(ending),
                        Ok((second, d)) => Ok((two_words(first as u16, second as u16), d)),
                    }
                },
            },
        },
    }
}

/// The code of a single symbol.
pub open spec fn one_word(only: u16) -> Words {
    Words {
        lone: Some(only),
        counts: Seq::new(16, |i: int| 0u16),
        symbols: Seq::empty(),
    }
}

/// The code of two symbols.
pub open spec fn two_words(first: u16, second: u16) -> Words {
    Words {
        lone: None,
        counts: Seq::new(16, |i: int| if i == 1 { 2u16 } else { 0u16 }),
        symbols: seq![first, second],
    }
}

/// Reads in how many signs the lengths of words come: as many as there are symbols, or a number that
/// is given. A number beyond sixteen bits is more than the decoder may survive.
pub open spec fn sign_count(data: Seq<u8>, pos: u64, alphabet: u16) -> Result<(int, u64), Ending> {
    match read(data, pos, 1) {
        Err(ending) => Err(ending),
        Ok((given, a)) => if given == 0 {
            Ok((alphabet as int, a))
        } else {
            match read(data, a, 3) {
                Err(ending) => Err(ending),
                Ok((size, b)) => match read(data, b, (2 + 2 * size) as u8) {
                    Err(ending) => Err(ending),
                    Ok((value, c)) => if value + 2 > 0xffff {
                        Err(Ending::Panics)
                    } else {
                        Ok((value + 2, c))
                    },
                },
            }
        },
    }
}

/// Reads a code by the lengths of its words, which are written in a code of their own.
pub open spec fn full_code(data: Seq<u8>, pos: u64, alphabet: u16) -> Result<(Words, u64), Ending> {
    match read(data, pos, 4) {
        Err(ending) => Err(ending),
        Ok((more, a)) => match length_words(
            data,
            a,
            0,
            4 + more as int,
            no_lengths(),
        ) {
            Err(ending) => Err(ending),
            Ok((own, b)) => match built(own) {
                Err(ending) => Err(ending),
                Ok(code) => match sign_count(data, b, alphabet) {
                    Err(ending) => Err(ending),
                    Ok((signs, c)) => match word_lengths(
                        data,
                        c,
                        code,
                        alphabet as int,
                        signs,
                        8,
                        Seq::empty(),
                    ) {
                        Err(ending) => Err(ending),
                        Ok((lengths, d)) => match built(lengths) {
                            Err(ending) => Err(ending),
                            Ok(words) => Ok((words, d)),
                        },
                    },
                },
            },
        },
    }
}

/// Reads a code for an alphabet of the given size.
pub open spec fn code_at(data: Seq<u8>, pos: u64, alphabet: u16) -> Result<(Words, u64), Ending> {
    match read(data, pos, 1) {
        Err(ending) => Err(ending),
        Ok((simple, next)) => if simple == 1 {
            simple_code(data, next)
        } else {
            full_code(data, next, alphabet)
        },
    }
}

/// What a number of a few bits stays below.
proof fn lemma_small(value: u32, n: u8)
    requires
        value < pow2(n as nat),
        n <= 16,
    ensures
        value < 0x1_0000,
        n <= 8 ==> value < 0x100,
        n <= 4 ==> value < 16,
        n <= 3 ==> value < 8,
        n <= 1 ==> value < 2,
{
    lemma2_to64();
    if n < 16 {
        lemma_pow2_strictly_increases(n as nat, 16);
    }
    if n < 8 {
        lemma_pow2_strictly_increases(n as nat, 8);
    }
    if n < 4 {
        lemma_pow2_strictly_increases(n as nat, 4);
    }
    if n < 3 {
        lemma_pow2_strictly_increases(n as nat, 3);
    }
    if n < 1 {
        lemma_pow2_strictly_increases(n as nat, 1);
    }
}

/// Reads up to sixteen bits.
pub fn read_small(data: &[u8], pos: u64, n: u8) -> (bits: Result<(u32, u64), Ending>)
    requires
        data@.len() <= MAX_CHUNK,
        pos <= 8 * data@.len(),
        n <= 16,
    ensures
        bits == read(data@, pos, n),
        bits matches Ok((value, next)) ==> {
            &&& next <= 8 * data@.len()
            &&& value < 0x1_0000
            &&& n <= 8 ==> value < 0x100
            &&& n <= 4 ==> value < 16
            &&& n <= 3 ==> value < 8
            &&& n <= 1 ==> value < 2
        },
{
    let bits = read_bits(data, pos, n);
    proof {
        if let Ok((value, _)) = bits {
            lemma_small(value, n);
        }
    }
    bits
}

/// Reads the lengths of the words for lengths.
fn read_length_words(data: &[u8], pos: u64, count: usize) -> (lengths: Result<
    (Vec<u8>, u64),
    Ending,
>)
    requires
        data@.len() <= MAX_CHUNK,
        pos <= 8 * data@.len(),
        count <= LENGTH_SYMBOLS,
    ensures
        match lengths {
            Ok((made, next)) => {
                &&& length_words(data@, pos, 0, count as int, no_lengths()) == Ok::<
                    (Seq<u8>, u64),
                    Ending,
                >((made@, next))
                &&& next <= 8 * data@.len()
                &&& made@.len() == LENGTH_SYMBOLS
            },
            Err(ending) => length_words(data@, pos, 0, count as int, no_lengths()) == Err::<
                (Seq<u8>, u64),
                Ending,
            >(ending),
        },
{
    let mut lengths: Vec<u8> = vec![0u8; LENGTH_SYMBOLS];
    let mut place: usize = 0;
    let mut at: u64 = pos;
    assert(lengths@ == no_lengths());
    while place < count
        invariant
            data@.len() <= MAX_CHUNK,
            at <= 8 * data@.len(),
            place <= count <= LENGTH_SYMBOLS,
            lengths@.len() == LENGTH_SYMBOLS,
            length_words(data@, pos, 0, count as int, no_lengths()) == length_words(
                data@,
                at,
                place as int,
                count as int,
                lengths@,
            ),
        decreases count - place,
    {
        match read_small(data, at, 3) {
            Ok((value, next)) => {
                let index: usize = if place == 0 {
                    17
                } else if place == 1 {
                    18
                } else if place <= 7 {
                    place - 2
                } else if place == 8 {
                    16
                } else {
                    place - 3
                };
                lengths.set(index, value as u8);
                at = next;
            },
            Err(ending) => {
                return Err(ending);
            },
        }
        place = place + 1;
    }
    Ok((lengths, at))
}

/// Reads the lengths of the words for the symbols of an alphabet.
fn read_word_lengths(data: &[u8], pos: u64, code: &Code, alphabet: u16, signs: u16) -> (lengths:
    Result<(Vec<u8>, u64), Ending>)
    requires
        data@.len() <= MAX_CHUNK,
        pos <= 8 * data@.len(),
        code@.wf(),
    ensures
        match lengths {
            Ok((made, next)) => {
                &&& word_lengths(
                    data@,
                    pos,
                    code@,
                    alphabet as int,
                    signs as int,
                    8,
                    Seq::empty(),
                ) == Ok::<(Seq<u8>, u64), Ending>((made@, next))
                &&& next <= 8 * data@.len()
                &&& made@.len() <= alphabet
            },
            Err(ending) => word_lengths(
                data@,
                pos,
                code@,
                alphabet as int,
                signs as int,
                8,
                Seq::empty(),
            ) == Err::<(Seq<u8>, u64), Ending>(ending),
        },
{
    let mut lengths: Vec<u8> = Vec::new();
    let mut at: u64 = pos;
    let mut left: u16 = signs;
    let mut previous: u8 = 8;
    while lengths.len() < alphabet as usize && left > 0
        invariant
            data@.len() <= MAX_CHUNK,
            at <= 8 * data@.len(),
            code@.wf(),
            lengths@.len() <= alphabet,
            word_lengths(
                data@,
                pos,
                code@,
                alphabet as int,
                signs as int,
                8,
                Seq::empty(),
            ) == word_lengths(
                data@,
                at,
                code@,
                alphabet as int,
                left as int,
                previous,
                lengths@,
            ),
        decreases alphabet - lengths@.len(),
    {
        let (sign, next) = match read_symbol(data, at, code) {
            Ok(found) => found,
            Err(ending) => {
                return Err(ending);
            },
        };
        if sign < 16 {
            if sign != 0 {
                previous = sign as u8;
            }
            lengths.push(sign as u8);
            at = next;
        } else {
            let (width, least): (u8, u32) = if sign == 16 {
                (2, 3)
            } else if sign == 17 {
                (3, 3)
            } else if sign == 18 {
                (7, 11)
            } else {
                return Err(Ending::Fails);
            };
            let (more, after) = match read_small(data, next, width) {
                Ok(found) => found,
                Err(ending) => {
                    return Err(ending);
                },
            };
            let again: u32 = least + more;
            if lengths.len() as u64 + again as u64 > alphabet as u64 {
                return Err(Ending::Fails);
            }
            let length: u8 = if sign == 16 {
                previous
            } else {
                0
            };
            let ghost before = lengths@;
            let mut i: u32 = 0;
            while i < again
                invariant
                    i <= again,
                    lengths@ == before + Seq::new(i as nat, |j: int| length),
                decreases again - i,
            {
                lengths.push(length);
                i = i + 1;
            }
            assert(lengths@ == before + Seq::new(
                again as nat,
                |j: int|
                    if sign == 16 {
                        previous
                    } else {
                        0
                    },
            ));
            at = after;
        }
        left = left - 1;
    }
    Ok((lengths, at))
}

/// Reads a code of one or two symbols.
fn read_simple_code(data: &[u8], pos: u64) -> (code: Result<(Code, u64), Ending>)
    requires
        data@.len() <= MAX_CHUNK,
        pos <= 8 * data@.len(),
    ensures
        match code {
            Ok((made, next)) => {
                &&& simple_code(data@, pos) == Ok::<(Words, u64), Ending>((made@, next))
                &&& next <= 8 * data@.len()
                &&& made@.wf()
            },
            Err(ending) => simple_code(data@, pos) == Err::<(Words, u64), Ending>(ending),
        },
{
    let (two, a) = match read_small(data, pos, 1) {
        Ok(found) => found,
        Err(ending) => {
            return Err(ending);
        },
    };
    let (wide, b) = match read_small(data, a, 1) {
        Ok(found) => found,
        Err(ending) => {
            return Err(ending);
        },
    };
    let (first, c) = match read_small(data, b, (1 + 7 * wide) as u8) {
        Ok(found) => found,
        Err(ending) => {
            return Err(ending);
        },
    };
    let mut counts: Vec<u16> = vec![0u16; 16];
    if two == 0 {
        let code = Code { lone: Some(first as u16), counts, symbols: Vec::new() };
        proof {
            assert(code@.counts == one_word(first as u16).counts);
            assert(code@.symbols == one_word(first as u16).symbols);
            reveal_with_fuel(shorter, 17);
        }
        return Ok((code, c));
    }
    let (second, d) = match read_small(data, c, 8) {
        Ok(found) => found,
        Err(ending) => {
            return Err(ending);
        },
    };
    counts.set(1, 2);
    let mut symbols: Vec<u16> = Vec::new();
    symbols.push(first as u16);
    symbols.push(second as u16);
    let code = Code { lone: None, counts, symbols };
    proof {
        assert(code@.counts == two_words(first as u16, second as u16).counts);
        assert(code@.symbols == two_words(first as u16, second as u16).symbols);
        reveal_with_fuel(shorter, 17);
    }
    Ok((code, d))
}

/// Reads in how many signs the lengths of words come.
fn read_sign_count(data: &[u8], pos: u64, alphabet: u16) -> (signs: Result<(u16, u64), Ending>)
    requires
        data@.len() <= MAX_CHUNK,
        pos <= 8 * data@.len(),
    ensures
        match signs {
            Ok((made, next)) => {
                &&& sign_count(data@, pos, alphabet) == Ok::<(int, u64), Ending>((made as int, next))
                &&& next <= 8 * data@.len()
            },
            Err(ending) => sign_count(data@, pos, alphabet) == Err::<(int, u64), Ending>(ending),
        },
{
    let (given, a) = match read_small(data, pos, 1) {
        Ok(found) => found,
        Err(ending) => {
            return Err(ending);
        },
    };
    if given == 0 {
        return Ok((alphabet, a));
    }
    let (size, b) = match read_small(data, a, 3) {
        Ok(found) => found,
        Err(ending) => {
            return Err(ending);
        },
    };
    match read_small(data, b, (2 + 2 * size) as u8) {
        Ok((value, c)) => if value + 2 > 0xffff {
            Err(Ending::Panics)
        } else {
            Ok(((value + 2) as u16, c))
        },
        Err(ending) => Err(ending),
    }
}

/// Reads a code by the lengths of its words.
fn read_full_code(data: &[u8], pos: u64, alphabet: u16) -> (code: Result<(Code, u64), Ending>)
    requires
        data@.len() <= MAX_CHUNK,
        pos <= 8 * data@.len(),
    ensures
        match code {
            Ok((made, next)) => {
                &&& full_code(data@, pos, alphabet) == Ok::<(Words, u64), Ending>((made@, next))
                &&& next <= 8 * data@.len()
                &&& made@.wf()
            },
            Err(ending) => full_code(data@, pos, alphabet) == Err::<(Words, u64), Ending>(ending),
        },
{
    let (more, a) = match read_small(data, pos, 4) {
        Ok(found) => found,
        Err(ending) => {
            return Err(ending);
        },
    };
    let (own, b) = match read_length_words(data, a, 4 + more as usize) {
        Ok(found) => found,
        Err(ending) => {
            return Err(ending);
        },
    };
    let code = match build(&own) {
        Ok(found) => found,
        Err(ending) => {
            return Err(ending);
        },
    };
    let (signs, c) = match read_sign_count(data, b, alphabet) {
        Ok(found) => found,
        Err(ending) => {
            return Err(ending);
        },
    };
    let (lengths, d) = match read_word_lengths(data, c, &code, alphabet, signs) {
        Ok(found) => found,
        Err(ending) => {
            return Err(ending);
        },
    };
    match build(&lengths) {
        Ok(words) => Ok((words, d)),
        Err(ending) => Err(ending),
    }
}

/// Reads a code for an alphabet of the given size.
pub fn read_code(data: &[u8], pos: u64, alphabet: u16) -> (code: Result<(Code, u64), Ending>)
    requires
        data@.len() <= MAX_CHUNK,
        pos <= 8 * data@.len(),
    ensures
        match code {
            Ok((made, next)) => {
                &&& code_at(data@, pos, alphabet) == Ok::<(Words, u64), Ending>((made@, next))
                &&& next <= 8 * data@.len()
                &&& made@.wf()
            },
            Err(ending) => code_at(data@, pos, alphabet) == Err::<(Words, u64), Ending>(ending),
        },
{
    match read_small(data, pos, 1) {
        Ok((simple, next)) => if simple == 1 {
            read_simple_code(data, next)
        } else {
            read_full_code(data, next, alphabet)
        },
        Err(ending) => Err(ending),
    }
}

} // verus!
