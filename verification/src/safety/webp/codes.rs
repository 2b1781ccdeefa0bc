//! The prefix codes that the symbols of a lossless WebP image are written in.
use super::bits::{read, read_bits, MAX_CHUNK};
use crate::safety::Ending;
use vstd::arithmetic::power2::{
    lemma2_to64, lemma_pow2_pos, lemma_pow2_strictly_increases, lemma_pow2_unfold, pow2,
};
use vstd::prelude::*;

verus! {

/// A prefix code: one symbol that takes no bits, or symbols sorted by the length of their words.
pub struct Code {
    pub lone: Option<u16>,
    /// How many words there are of each length up to fifteen.
    pub counts: Vec<u16>,
    pub symbols: Vec<u16>,
}

/// What a prefix code consists of.
pub struct Words {
    pub lone: Option<u16>,
    pub counts: Seq<u16>,
    pub symbols: Seq<u16>,
}

impl View for Code {
    type V = Words;

    open spec fn view(&self) -> Words {
        Words { lone: self.lone, counts: self.counts@, symbols: self.symbols@ }
    }
}

/// The number of words of the lengths from one up to, and without, the given one.
pub open spec fn shorter(counts: Seq<u16>, length: int) -> int
    decreases length,
{
    if length <= 1 {
        0
    } else {
        shorter(counts, length - 1) + counts[length - 1]
    }
}

impl Words {
    /// There are as many symbols as words.
    pub open spec fn wf(self) -> bool {
        &&& self.counts.len() == 16
        &&& self.symbols.len() == shorter(self.counts, 16)
    }
}

/// Reads a symbol, once the words shorter than `length` are ruled out: `rest` is how far the bits
/// read so far are beyond them.
pub open spec fn symbol_from(
    data: Seq<u8>,
    pos: u64,
    code: Words,
    length: int,
    rest: int,
) -> Result<(u16, u64), Ending>
    decreases 16 - length,
{
    if length > 15 {
        Err(Ending::Fails)
    } else {
        match read(data, pos, 1) {
            Err(ending) => Err(ending),
            Ok((bit, next)) => {
                let word = 2 * rest + bit;
                if word < code.counts[length] {
                    Ok((code.symbols[shorter(code.counts, length) + word], next))
                } else {
                    symbol_from(data, next, code, length + 1, word - code.counts[length])
                }
            },
        }
    }
}

/// Reads a symbol.
pub open spec fn symbol(data: Seq<u8>, pos: u64, code: Words) -> Result<(u16, u64), Ending> {
    match code.lone {
        Some(only) => Ok((only, pos)),
        None => symbol_from(data, pos, code, 1, 0),
    }
}

/// More lengths, more words.
proof fn lemma_shorter_grows(counts: Seq<u16>, a: int, b: int)
    requires
        1 <= a <= b,
    ensures
        0 <= shorter(counts, a) <= shorter(counts, b),
    decreases b,
{
    if a < b {
        lemma_shorter_grows(counts, a, b - 1);
    } else if a > 1 {
        lemma_shorter_grows(counts, a - 1, a - 1);
    }
}

/// Reads a symbol.
pub fn read_symbol(data: &[u8], pos: u64, code: &Code) -> (found: Result<(u16, u64), Ending>)
    requires
        data@.len() <= MAX_CHUNK,
        pos <= 8 * data@.len(),
        code@.wf(),
    ensures
        found == symbol(data@, pos, code@),
        found matches Ok((_, next)) ==> next <= 8 * data@.len(),
{
    if let Some(only) = code.lone {
        return Ok((only, pos));
    }
    let mut at: u64 = pos;
    let mut length: usize = 1;
    let mut rest: u32 = 0;
    let mut before: usize = 0;
    let total: usize = code.symbols.len();
    proof {
        lemma2_to64();
    }
    while length <= 15
        invariant
            data@.len() <= MAX_CHUNK,
            code@.wf(),
            code.lone is None,
            total == code@.symbols.len(),
            1 <= length <= 16,
            at <= 8 * data@.len(),
            rest < pow2((length - 1) as nat),
            before == shorter(code@.counts, length as int),
            symbol_from(data@, pos, code@, 1, 0) == symbol_from(
                data@,
                at,
                code@,
                length as int,
                rest as int,
            ),
        decreases 16 - length,
    {
        proof {
            lemma2_to64();
            lemma_pow2_unfold(length as nat);
            lemma_pow2_strictly_increases(length as nat, 16);
            lemma_shorter_grows(code@.counts, length as int, 16);
            lemma_shorter_grows(code@.counts, length + 1, 16);
        }
        let (bit, next) = match read_bits(data, at, 1) {
            Ok(found) => found,
            Err(ending) => {
                return Err(ending);
            },
        };
        let word: u32 = 2 * rest + bit;
        let count: u16 = code.counts[length];
        assert(shorter(code@.counts, length + 1) == before + count);
        if word < count as u32 {
            return Ok((code.symbols[before + word as usize], next));
        }
        rest = word - count as u32;
        before = before + count as usize;
        at = next;
        length = length + 1;
    }
    Err(Ending::Fails)
}

/// The symbols whose words have the given length, of symbols with the given lengths.
pub open spec fn of_length(lengths: Seq<u8>, length: u8) -> Seq<u16>
    decreases lengths.len(),
{
    if lengths.len() == 0 {
        Seq::empty()
    } else {
        let earlier = of_length(lengths.drop_last(), length);
        if lengths.last() == length {
            earlier.push((lengths.len() - 1) as u16)
        } else {
            earlier
        }
    }
}

/// The symbols whose words have a length from one up to, and without, the given one, sorted.
pub open spec fn sorted(lengths: Seq<u8>, length: int) -> Seq<u16>
    decreases length,
{
    if length <= 1 {
        Seq::empty()
    } else {
        sorted(lengths, length - 1) + of_length(lengths, (length - 1) as u8)
    }
}

/// How many symbols have each length.
pub open spec fn counted(lengths: Seq<u8>) -> Seq<u16> {
    Seq::new(16, |i: int| if i == 0 { 0 } else { of_length(lengths, i as u8).len() as u16 })
}

/// Giving out words in order of length, from the given length on, runs over the sixteen bits that
/// the decoder counts words in.
pub open spec fn overruns(counts: Seq<u16>, length: int, next: int) -> bool
    decreases 16 - length,
{
    if length > 15 {
        false
    } else {
        next + counts[length] > 0xffff || overruns(
            counts,
            length + 1,
            (2 * (next + counts[length])) % 0x1_0000,
        )
    }
}

/// The words from the given length on use up the given number of free places, neither more nor
/// less.
pub open spec fn fills(counts: Seq<u16>, length: int, free: int) -> bool
    decreases 16 - length,
{
    if length > 15 {
        free == 0
    } else {
        2 * free >= counts[length] && fills(counts, length + 1, 2 * free - counts[length])
    }
}

/// The code in which the symbols have words of the given lengths. A code that leaves places free or
/// needs too many is an error.
pub open spec fn built(lengths: Seq<u8>) -> Result<Words, Ending> {
    let counts = counted(lengths);
    let symbols = sorted(lengths, 16);
    if symbols.len() == 0 {
        Err(Ending::Fails)
    } else if symbols.len() == 1 {
        Ok(Words { lone: Some(symbols[0]), counts, symbols })
    } else if overruns(counts, 1, 0) {
        Err(Ending::Panics)
    } else if !fills(counts, 1, 1) {
        Err(Ending::Fails)
    } else {
        Ok(Words { lone: None, counts, symbols })
    }
}

/// There are no more symbols of one length than symbols.
proof fn lemma_of_length(lengths: Seq<u8>, length: u8)
    ensures
        of_length(lengths, length).len() <= lengths.len(),
    decreases lengths.len(),
{
    if lengths.len() > 0 {
        lemma_of_length(lengths.drop_last(), length);
    }
}

/// The symbols sorted by length are as many as the counts say.
proof fn lemma_sorted_len(lengths: Seq<u8>, length: int)
    requires
        lengths.len() <= 0xffff,
        1 <= length <= 16,
    ensures
        sorted(lengths, length).len() == shorter(counted(lengths), length),
    decreases length,
{
    if length > 1 {
        lemma_sorted_len(lengths, length - 1);
        lemma_of_length(lengths, (length - 1) as u8);
    }
}

/// Whether giving out the words overruns.
fn check_overrun(counts: &Vec<u16>) -> (yes: bool)
    requires
        counts@.len() == 16,
    ensures
        yes == overruns(counts@, 1, 0),
{
    let mut length: usize = 1;
    let mut next: u32 = 0;
    while length <= 15
        invariant
            counts@.len() == 16,
            1 <= length <= 16,
            next <= 0xffff,
            overruns(counts@, 1, 0) == overruns(counts@, length as int, next as int),
        decreases 16 - length,
    {
        let sum: u32 = next + counts[length] as u32;
        if sum > 0xffff {
            return true;
        }
        next = (2 * sum) % 0x1_0000;
        length = length + 1;
    }
    false
}

/// Whether the words use up all places.
fn check_filled(counts: &Vec<u16>) -> (yes: bool)
    requires
        counts@.len() == 16,
    ensures
        yes == fills(counts@, 1, 1),
{
    let mut length: usize = 1;
    let mut free: u32 = 1;
    proof {
        lemma2_to64();
    }
    while length <= 15
        invariant
            counts@.len() == 16,
            1 <= length <= 16,
            free <= pow2((length - 1) as nat),
            fills(counts@, 1, 1) == fills(counts@, length as int, free as int),
        decreases 16 - length,
    {
        proof {
            lemma2_to64();
            lemma_pow2_unfold(length as nat);
            lemma_pow2_strictly_increases(length as nat, 16);
        }
        let count: u32 = counts[length] as u32;
        if 2 * free < count {
            return false;
        }
        free = 2 * free - count;
        length = length + 1;
    }
    free == 0
}

/// Builds the code in which the symbols have words of the given lengths.
pub fn build(lengths: &Vec<u8>) -> (code: Result<Code, Ending>)
    requires
        lengths@.len() <= 0xffff,
    ensures
        match code {
            Ok(made) => built(lengths@) == Ok::<Words, Ending>(made@) && made@.wf(),
            Err(ending) => built(lengths@) == Err::<Words, Ending>(ending),
        },
{
    let mut counts: Vec<u16> = Vec::new();
    counts.push(0);
    let mut symbols: Vec<u16> = Vec::new();
    let mut length: u8 = 1;
    while length <= 15
        invariant
            lengths@.len() <= 0xffff,
            1 <= length <= 16,
            counts@ == counted(lengths@).take(length as int),
            symbols@ == sorted(lengths@, length as int),
        decreases 16 - length,
    {
        let before: usize = symbols.len();
        let ghost earlier = symbols@;
        let mut i: usize = 0;
        let mut count: u16 = 0;
        while i < lengths.len()
            invariant
                lengths@.len() <= 0xffff,
                1 <= length <= 15,
                i <= lengths@.len(),
                count <= i,
                symbols@ == earlier + of_length(lengths@.take(i as int), length),
                count == of_length(lengths@.take(i as int), length).len(),
            decreases lengths.len() - i,
        {
            proof {
                let part = lengths@.take(i + 1);
                assert(part.drop_last() == lengths@.take(i as int));
                assert(part.last() == lengths@[i as int]);
            }
            if lengths[i] == length {
                symbols.push(i as u16);
                count = count + 1;
            }
            i = i + 1;
        }
        assert(lengths@.take(lengths@.len() as int) == lengths@);
        counts.push(count);
        assert(counted(lengths@).take(length + 1) == counted(lengths@).take(length as int).push(
            count,
        ));
        length = length + 1;
    }
    assert(counted(lengths@).take(16) == counted(lengths@));
    proof {
        lemma_sorted_len(lengths@, 16);
    }
    if symbols.len() == 0 {
        Err(Ending::Fails)
    } else if symbols.len() == 1 {
        Ok(Code { lone: Some(symbols[0]), counts, symbols })
    } else if check_overrun(&counts) {
        Err(Ending::Panics)
    } else if !check_filled(&counts) {
        Err(Ending::Fails)
    } else {
        Ok(Code { lone: None, counts, symbols })
    }
}

/// The share of all words of fifteen bits that begin with words from the given length on.
pub open spec fn share(counts: Seq<u16>, length: int) -> int
    decreases 16 - length,
{
    if length > 15 {
        0
    } else {
        counts[length] * pow2((15 - length) as nat) + share(counts, length + 1)
    }
}

/// Words from a length on use up the free places exactly if their share is that of the free places.
proof fn lemma_fills_by_share(counts: Seq<u16>, length: int, free: int)
    requires
        1 <= length <= 16,
        0 <= free,
    ensures
        share(counts, length) >= 0,
        fills(counts, length, free) <==> share(counts, length) == free * pow2((16 - length) as nat),
    decreases 16 - length,
{
    lemma2_to64();
    if length <= 15 {
        let here = pow2((15 - length) as nat);
        let count = counts[length] as int;
        lemma_pow2_unfold((16 - length) as nat);
        lemma_pow2_pos((15 - length) as nat);
        assert(((16 - length) as nat - 1) as nat == (15 - length) as nat);
        assert(pow2((16 - length) as nat) == 2 * here);
        assert((16 - (length + 1)) as nat == (15 - length) as nat);
        assert(share(counts, length) == count * here + share(counts, length + 1));
        assert(free * (2 * here) == (2 * free - count) * here + count * here) by (nonlinear_arith);
        assert(count * here >= 0) by (nonlinear_arith)
            requires
                count >= 0,
                here > 0,
        ;
        if 2 * free >= count {
            lemma_fills_by_share(counts, length + 1, 2 * free - count);
            assert(fills(counts, length, free) == fills(counts, length + 1, 2 * free - count));
        } else {
            lemma_fills_by_share(counts, length + 1, 0);
            assert((2 * free - count) * here < 0) by (nonlinear_arith)
                requires
                    2 * free < count,
                    here > 0,
            ;
            assert(!fills(counts, length, free));
        }
    } else {
        assert(free * 1 == free);
        assert((16 - length) as nat == 0);
    }
}

/// The words of a code with more than one symbol, none of which begins another, leave no place free:
/// together they begin all 32768 words of fifteen bits, each exactly once. Lengths for which that does
/// not hold make no code.
pub proof fn law_code_is_complete(lengths: Seq<u8>)
    requires
        sorted(lengths, 16).len() > 1,
    ensures
        built(lengths) is Ok ==> share(counted(lengths), 1) == 32768,
        share(counted(lengths), 1) != 32768 ==> built(lengths) is Err,
        share(counted(lengths), 1) == 32768 && !overruns(counted(lengths), 1, 0) ==> built(
            lengths,
        ) is Ok,
{
    lemma2_to64();
    lemma_fills_by_share(counted(lengths), 1, 1);
}

} // verus!
