//! Whole lossless WebP frames: their transforms, and which codes go with which pixels.
use super::bits::{read, MAX_CHUNK};
use super::headers::read_small;
use super::lossless::{
    group, hand_bits, image, inner_image, read_group, read_hand_bits, read_image, read_inner_image,
    Codes, Group, Layout, Plan,
};
use crate::safety::Ending;
use vstd::prelude::*;

verus! {

/// The longest side of a frame.
pub const MAX_SIDE: u16 = 16384;

/// How many blocks of two to the power of `bits` pixels a side has.
pub open spec fn blocks(side: u16, bits: u8) -> u16 {
    let block = 1u32 << (bits as u32);
    ((side + block - 1) / (block as int)) as u16
}

/// How many blocks a side has.
fn blocks_of(side: u16, bits: u8) -> (count: u16)
    requires
        bits <= 9,
    ensures
        count == blocks(side, bits),
        count <= side,
        side > 0 ==> count > 0,
{
    let shift: u32 = bits as u32;
    assert(1 <= 1u32 << shift <= 512) by (bit_vector)
        requires
            shift <= 9,
    ;
    let block: u32 = 1u32 << shift;
    let sum: u32 = side as u32 + block - 1;
    assert(sum / block <= side) by (nonlinear_arith)
        requires
            sum == side + block - 1,
            1 <= block,
            0 <= side,
    ;
    assert(side > 0 ==> sum / block > 0) by (nonlinear_arith)
        requires
            sum == side + block - 1,
            1 <= block,
    ;
    (sum / block) as u16
}

/// In how many bits pixels are counted that share one place, by the number of colours in a table.
pub open spec fn packing(colours: int) -> u8 {
    if colours <= 2 {
        3
    } else if colours <= 4 {
        2
    } else if colours <= 16 {
        1
    } else {
        0
    }
}

/// The transform that foretells pixels from their neighbours.
pub const PREDICTION: u8 = 0;

/// The transform that shifts red and blue by other channels.
pub const COLOUR_SHIFT: u8 = 1;

/// The transform that shifts red and blue by green.
pub const GREEN_SHIFT: u8 = 2;

/// Reads the transforms of a frame after those that were seen, and tells how wide its rows are
/// written, and whether undoing the transforms makes the decoder panic. A colour table may make the
/// rows narrower. The decoder undoes the transforms from the last to the first, all on rows of full
/// width: on narrower ones it notices for a prediction, and panics for a shift of colours.
#[verifier::opaque]
pub open spec fn transforms(
    data: Seq<u8>,
    pos: u64,
    width: u16,
    height: u16,
    row: u16,
    seen: Seq<u8>,
) -> Result<(u16, bool, u64), Ending>
    decreases 5 - seen.len(),
{
    match read(data, pos, 1) {
        Err(ending) => Err(ending),
        Ok((more, a)) => if more == 0 {
            let shifted = seen.len() > 0 && (seen.last() == COLOUR_SHIFT || seen.last()
                == GREEN_SHIFT);
            Ok((row, row < width && shifted, a))
        } else {
            match read(data, a, 2) {
                Err(ending) => Err(ending),
                Ok((value, b)) => {
                    let kind = value as u8;
                    if seen.contains(kind) || seen.len() >= 4 {
                        Err(Ending::Fails)
                    } else if kind == PREDICTION || kind == COLOUR_SHIFT {
                        match read(data, b, 3) {
                            Err(ending) => Err(ending),
                            Ok((size, c)) => {
                                let bits = (size + 2) as u8;
                                match inner_image(data, c, blocks(row, bits), blocks(height, bits)) {
                                    Err(ending) => Err(ending),
                                    Ok((_, d)) => transforms(
                                        data,
                                        d,
                                        width,
                                        height,
                                        row,
                                        seen.push(kind),
                                    ),
                                }
                            },
                        }
                    } else if kind == GREEN_SHIFT {
                        transforms(data, b, width, height, row, seen.push(kind))
                    } else {
                        match read(data, b, 8) {
                            Err(ending) => Err(ending),
                            Ok((size, c)) => match inner_image(data, c, (size + 1) as u16, 1) {
                                Err(ending) => Err(ending),
                                Ok((_, d)) => transforms(
                                    data,
                                    d,
                                    width,
                                    height,
                                    blocks(row, packing(size + 1)),
                                    seen.push(kind),
                                ),
                            },
                        }
                    }
                },
            }
        },
    }
}

/// Reads the transforms of a frame.
fn read_transforms(
    data: &[u8],
    pos: u64,
    width: u16,
    height: u16,
    row: u16,
    seen: Vec<u8>,
) -> (taken: Result<(u16, bool, u64), Ending>)
    requires
        data@.len() <= MAX_CHUNK,
        pos <= 8 * data@.len(),
        seen@.len() <= 4,
        row > 0,
    ensures
        taken == transforms(data@, pos, width, height, row, seen@),
        taken matches Ok((made, _, next)) ==> next <= 8 * data@.len() && made > 0,
    decreases 5 - seen@.len(),
{
    reveal(transforms);
    let (more, a) = match read_small(data, pos, 1) {
        Ok(found) => found,
        Err(ending) => {
            return Err(ending);
        },
    };
    if more == 0 {
        let shifted: bool = seen.len() > 0 && (seen[seen.len() - 1] == COLOUR_SHIFT
            || seen[seen.len() - 1] == GREEN_SHIFT);
        return Ok((row, row < width && shifted, a));
    }
    let (value, b) = match read_small(data, a, 2) {
        Ok(found) => found,
        Err(ending) => {
            return Err(ending);
        },
    };
    let kind: u8 = value as u8;
    if has(&seen, kind) || seen.len() >= 4 {
        return Err(Ending::Fails);
    }
    let mut seen_now: Vec<u8> = seen;
    seen_now.push(kind);
    if kind == PREDICTION || kind == COLOUR_SHIFT {
        let (size, c) = match read_small(data, b, 3) {
            Ok(found) => found,
            Err(ending) => {
                return Err(ending);
            },
        };
        let bits: u8 = (size + 2) as u8;
        match read_inner_image(data, c, blocks_of(row, bits), blocks_of(height, bits)) {
            Ok((_, d)) => read_transforms(data, d, width, height, row, seen_now),
            Err(ending) => Err(ending),
        }
    } else if kind == GREEN_SHIFT {
        read_transforms(data, b, width, height, row, seen_now)
    } else {
        let (size, c) = match read_small(data, b, 8) {
            Ok(found) => found,
            Err(ending) => {
                return Err(ending);
            },
        };
        let colours: u32 = size + 1;
        let bits: u8 = if colours <= 2 {
            3
        } else if colours <= 4 {
            2
        } else if colours <= 16 {
            1
        } else {
            0
        };
        match read_inner_image(data, c, colours as u16, 1) {
            Ok((_, d)) => read_transforms(data, d, width, height, blocks_of(row, bits), seen_now),
            Err(ending) => Err(ending),
        }
    }
}

/// Whether a kind of transform is among those that were seen.
fn has(seen: &Vec<u8>, kind: u8) -> (yes: bool)
    ensures
        yes == seen@.contains(kind),
{
    let mut i: usize = 0;
    while i < seen.len()
        invariant
            i <= seen@.len(),
            forall|j: int| 0 <= j < i ==> seen@[j] != kind,
        decreases seen.len() - i,
    {
        if seen[i] == kind {
            return true;
        }
        i = i + 1;
    }
    false
}

/// The number of groups of codes that a map of groups asks for: one more than the largest group.
pub open spec fn group_count(map: Seq<u32>) -> int
    decreases map.len(),
{
    if map.len() == 0 {
        1
    } else {
        let others = group_count(map.drop_last());
        let one = (map.last() / 256) % 65536 + 1;
        if one > others {
            one
        } else {
            others
        }
    }
}

/// Reads groups of codes after those that were made, until `count` more have been read.
pub open spec fn groups(data: Seq<u8>, pos: u64, bits: u8, count: int, made: Seq<Codes>) -> Result<
    (Seq<Codes>, u64),
    Ending,
>
    decreases count,
{
    if count <= 0 {
        Ok((made, pos))
    } else {
        match group(data, pos, bits) {
            Err(ending) => Err(ending),
            Ok((codes, next)) => groups(data, next, bits, count - 1, made.push(codes)),
        }
    }
}

/// Reads the map of groups, if there is one: what it holds, how many blocks are in a row, and how
/// many bits count the pixels of a block.
pub open spec fn group_map(data: Seq<u8>, pos: u64, row: u16, height: u16) -> Result<
    (Seq<u32>, u16, u8, u64),
    Ending,
> {
    match read(data, pos, 1) {
        Err(ending) => Err(ending),
        Ok((some, a)) => if some == 0 {
            Ok((Seq::empty(), 1, 0, a))
        } else {
            match read(data, a, 3) {
                Err(ending) => Err(ending),
                Ok((size, b)) => {
                    let bits = (size + 2) as u8;
                    let across = blocks(row, bits);
                    match inner_image(data, b, across, blocks(height, bits)) {
                        Err(ending) => Err(ending),
                        Ok((map, c)) => Ok((map, across, bits, c)),
                    }
                },
            }
        },
    }
}

/// Reads the codes that the pixels of a frame are written in.
#[verifier::opaque]
pub open spec fn plan(data: Seq<u8>, pos: u64, hand: u8, row: u16, height: u16) -> Result<
    (Plan, u64),
    Ending,
> {
    match group_map(data, pos, row, height) {
        Err(ending) => Err(ending),
        Ok((map, across, bits, a)) => match groups(data, a, hand, group_count(map), Seq::empty()) {
            Err(ending) => Err(ending),
            Ok((all, b)) => Ok((Plan { groups: all, map, across, bits }, b)),
        },
    }
}

/// Reads a frame, and undoes its transforms.
pub open spec fn frame(data: Seq<u8>, pos: u64, width: u16, height: u16) -> Result<u64, Ending> {
    match transforms(data, pos, width, height, width, Seq::empty()) {
        Err(ending) => Err(ending),
        Ok((row, breaks, a)) => match hand_bits(data, a) {
            Err(ending) => Err(ending),
            Ok((hand, b)) => match plan(data, b, hand, row, height) {
                Err(ending) => Err(ending),
                Ok((codes, c)) => match image(data, c, codes, hand, row, height) {
                    Err(ending) => Err(ending),
                    Ok((_, d)) => if breaks {
                        Err(Ending::Panics)
                    } else {
                        Ok(d)
                    },
                },
            },
        },
    }
}

/// The number of groups of codes that a map of groups asks for.
fn group_count_of(map: &Vec<u32>) -> (count: u32)
    ensures
        count == group_count(map@),
        1 <= count <= 65536,
{
    let mut count: u32 = 1;
    let mut i: usize = 0;
    while i < map.len()
        invariant
            i <= map@.len(),
            1 <= count <= 65536,
            count == group_count(map@.take(i as int)),
        decreases map.len() - i,
    {
        assert(map@.take(i + 1).drop_last() == map@.take(i as int));
        let one: u32 = (map[i] / 256) % 65536 + 1;
        if one > count {
            count = one;
        }
        i = i + 1;
    }
    assert(map@.take(map@.len() as int) == map@);
    count
}

/// Reads groups of codes.
fn read_groups(data: &[u8], pos: u64, bits: u8, count: u32) -> (taken: Result<
    (Vec<Group>, u64),
    Ending,
>)
    requires
        data@.len() <= MAX_CHUNK,
        pos <= 8 * data@.len(),
        bits <= 11,
    ensures
        match taken {
            Ok((made, next)) => {
                &&& groups(data@, pos, bits, count as int, Seq::empty()) == Ok::<
                    (Seq<Codes>, u64),
                    Ending,
                >((made@.map_values(|one: Group| one@), next))
                &&& next <= 8 * data@.len()
                &&& forall|i: int| 0 <= i < made@.len() ==> (#[trigger] made@[i])@.wf()
            },
            Err(ending) => groups(data@, pos, bits, count as int, Seq::empty()) == Err::<
                (Seq<Codes>, u64),
                Ending,
            >(ending),
        },
{
    let mut made: Vec<Group> = Vec::new();
    let mut left: u32 = count;
    let mut at: u64 = pos;
    assert(made@.map_values(|one: Group| one@) == Seq::<Codes>::empty());
    while left > 0
        invariant
            data@.len() <= MAX_CHUNK,
            at <= 8 * data@.len(),
            bits <= 11,
            forall|i: int| 0 <= i < made@.len() ==> (#[trigger] made@[i])@.wf(),
            groups(data@, pos, bits, count as int, Seq::empty()) == groups(
                data@,
                at,
                bits,
                left as int,
                made@.map_values(|one: Group| one@),
            ),
        decreases left,
    {
        match read_group(data, at, bits) {
            Ok((codes, next)) => {
                let ghost before = made@.map_values(|one: Group| one@);
                let ghost last = codes@;
                made.push(codes);
                assert(made@.map_values(|one: Group| one@) == before.push(last));
                at = next;
            },
            Err(ending) => {
                return Err(ending);
            },
        }
        left = left - 1;
    }
    Ok((made, at))
}

/// Reads the map of groups.
fn read_group_map(data: &[u8], pos: u64, row: u16, height: u16) -> (taken: Result<
    (Vec<u32>, u16, u8, u64),
    Ending,
>)
    requires
        data@.len() <= MAX_CHUNK,
        pos <= 8 * data@.len(),
        row > 0,
    ensures
        match taken {
            Ok((map, across, bits, next)) => {
                &&& group_map(data@, pos, row, height) == Ok::<
                    (Seq<u32>, u16, u8, u64),
                    Ending,
                >((map@, across, bits, next))
                &&& next <= 8 * data@.len()
                &&& bits <= 9
            },
            Err(ending) => group_map(data@, pos, row, height) == Err::<
                (Seq<u32>, u16, u8, u64),
                Ending,
            >(ending),
        },
{
    let (some, a) = match read_small(data, pos, 1) {
        Ok(found) => found,
        Err(ending) => {
            return Err(ending);
        },
    };
    if some == 0 {
        let map: Vec<u32> = Vec::new();
        assert(map@ == Seq::<u32>::empty());
        return Ok((map, 1, 0, a));
    }
    let (size, b) = match read_small(data, a, 3) {
        Ok(found) => found,
        Err(ending) => {
            return Err(ending);
        },
    };
    let bits: u8 = (size + 2) as u8;
    let across: u16 = blocks_of(row, bits);
    match read_inner_image(data, b, across, blocks_of(height, bits)) {
        Ok((map, c)) => Ok((map, across, bits, c)),
        Err(ending) => Err(ending),
    }
}

/// Reads the codes that the pixels of a frame are written in.
fn read_plan(data: &[u8], pos: u64, hand: u8, row: u16, height: u16) -> (taken: Result<
    (Layout, u64),
    Ending,
>)
    requires
        data@.len() <= MAX_CHUNK,
        pos <= 8 * data@.len(),
        hand <= 11,
        row > 0,
    ensures
        match taken {
            Ok((layout, next)) => {
                &&& plan(data@, pos, hand, row, height) == Ok::<(Plan, u64), Ending>(
                    (layout@, next),
                )
                &&& next <= 8 * data@.len()
                &&& layout@.wf()
            },
            Err(ending) => plan(data@, pos, hand, row, height) == Err::<(Plan, u64), Ending>(
                ending,
            ),
        },
{
    reveal(plan);
    let (map, across, bits, a) = match read_group_map(data, pos, row, height) {
        Ok(found) => found,
        Err(ending) => {
            return Err(ending);
        },
    };
    match read_groups(data, a, hand, group_count_of(&map)) {
        Ok((all, b)) => Ok((Layout { groups: all, map, across, bits }, b)),
        Err(ending) => Err(ending),
    }
}

/// Reads a frame.
pub fn read_frame(data: &[u8], pos: u64, width: u16, height: u16) -> (taken: Result<u64, Ending>)
    requires
        data@.len() <= MAX_CHUNK,
        pos <= 8 * data@.len(),
        width > 0,
    ensures
        taken == frame(data@, pos, width, height),
{
    let seen: Vec<u8> = Vec::new();
    assert(seen@ == Seq::<u8>::empty());
    let (row, breaks, a) = match read_transforms(data, pos, width, height, width, seen) {
        Ok(found) => found,
        Err(ending) => {
            return Err(ending);
        },
    };
    let (hand, b) = match read_hand_bits(data, a) {
        Ok(found) => found,
        Err(ending) => {
            return Err(ending);
        },
    };
    let (layout, c) = match read_plan(data, b, hand, row, height) {
        Ok(found) => found,
        Err(ending) => {
            return Err(ending);
        },
    };
    match read_image(data, c, &layout, hand, row, height) {
        Ok((_, d)) => if breaks {
            Err(Ending::Panics)
        } else {
            Ok(d)
        },
        Err(ending) => Err(ending),
    }
}

} // verus!
