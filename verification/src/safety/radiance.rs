//! Radiance HDR files.
use super::bitmap::{is_separator, number_in, read_number, separates};
use super::Ending;
use vstd::prelude::*;
use vstd::slice::slice_subrange;

verus! {

/// The number of run markers in a row that a decoder cannot take: each makes the next run 256 times
/// as long, in a number as wide as an address.
pub open spec fn chain_length() -> int {
    if usize::MAX > 0xffff_ffff {
        8
    } else {
        4
    }
}

/// 256 to the given power.
pub open spec fn run_unit(chain: int) -> int
    decreases chain,
{
    if chain <= 0 {
        1
    } else {
        256 * run_unit(chain - 1)
    }
}

/// Reads one channel of a row, of which `done` values have been read. A byte up to 128 says how many
/// values follow, a greater one how often the value after it comes.
pub open spec fn channel(data: Seq<u8>, at: int, width: int, done: int) -> Result<int, Ending>
    decreases data.len() - at,
{
    if done >= width {
        Ok(at)
    } else if at >= data.len() {
        Err(Ending::Fails)
    } else if data[at] <= 128 {
        if done + data[at] > width || at + 1 + data[at] > data.len() {
            Err(Ending::Fails)
        } else {
            channel(data, at + 1 + data[at], width, done + data[at])
        }
    } else {
        if done + data[at] - 128 > width || at + 2 > data.len() {
            Err(Ending::Fails)
        } else {
            channel(data, at + 2, width, done + data[at] - 128)
        }
    }
}

/// Reads a row of pixels as they stand, of which `done` have been read. A pixel whose channels are
/// all one says how often the pixel before it comes again; `chain` such pixels came last.
pub open spec fn plain_row(data: Seq<u8>, at: int, width: int, done: int, chain: int) -> Result<
    int,
    Ending,
>
    decreases data.len() - at,
{
    if done >= width {
        Ok(at)
    } else if at + 4 > data.len() {
        Err(Ending::Fails)
    } else if data[at] != 1 || data[at + 1] != 1 || data[at + 2] != 1 {
        plain_row(data, at + 4, width, done + 1, 0)
    } else if chain + 1 >= chain_length() {
        Err(Ending::Panics)
    } else if done + data[at + 3] * run_unit(chain) > width {
        Err(Ending::Fails)
    } else {
        plain_row(data, at + 4, width, done + data[at + 3] * run_unit(chain), chain + 1)
    }
}

/// Reads a row, which begins with a mark if its channels come one after the other. A row does not
/// begin with a run.
pub open spec fn row(data: Seq<u8>, at: int, width: int) -> Result<int, Ending> {
    if at + 4 > data.len() {
        Err(Ending::Fails)
    } else if data[at] == 2 && data[at + 1] == 2 && data[at + 2] < 128 {
        match channel(data, at + 4, width, 0) {
            Err(ending) => Err(ending),
            Ok(a) => match channel(data, a, width, 0) {
                Err(ending) => Err(ending),
                Ok(b) => match channel(data, b, width, 0) {
                    Err(ending) => Err(ending),
                    Ok(c) => channel(data, c, width, 0),
                },
            },
        }
    } else if data[at] == 1 && data[at + 1] == 1 && data[at + 2] == 1 {
        Err(Ending::Fails)
    } else {
        plain_row(data, at + 4, width, 1, 0)
    }
}

/// No row makes a decoder panic. After a row that cannot be read there is none.
pub open spec fn rows_are_safe(data: Seq<u8>, at: int, width: int, count: int) -> bool
    decreases count,
{
    count > 0 ==> match row(data, at, width) {
        Ok(next) => rows_are_safe(data, next, width, count - 1),
        Err(ending) => ending == Ending::Fails,
    }
}

/// The end of the line at the given place: where its line feed stands, or the end of the file.
pub open spec fn line_end(data: Seq<u8>, at: int) -> int
    decreases data.len() - at,
{
    if at >= data.len() || data[at] == 0x0a {
        at
    } else {
        line_end(data, at + 1)
    }
}

/// The place after the first empty line from the given place on.
pub open spec fn after_blank(data: Seq<u8>, at: int) -> Option<int>
    decreases data.len() - at,
    via after_blank_decreases
{
    if at >= data.len() {
        None
    } else if data[at] == 0x0a {
        Some(at + 1)
    } else if line_end(data, at) >= data.len() {
        None
    } else {
        after_blank(data, line_end(data, at) + 1)
    }
}

#[via_fn]
proof fn after_blank_decreases(data: Seq<u8>, at: int) {
    lemma_line_end(data, at);
}

/// A line does not end before it begins.
proof fn lemma_line_end(data: Seq<u8>, at: int)
    ensures
        at <= line_end(data, at),
        at <= data.len() ==> line_end(data, at) <= data.len(),
    decreases data.len() - at,
{
    if at < data.len() && data[at] != 0x0a {
        lemma_line_end(data, at + 1);
    }
}

/// The place of the first word from the given place on, before the end of the line.
pub open spec fn word_start(data: Seq<u8>, at: int, end: int) -> int
    decreases end - at,
{
    if at < end && is_separator(data[at]) {
        word_start(data, at + 1, end)
    } else {
        at
    }
}

/// The place after the word at the given place.
pub open spec fn word_end(data: Seq<u8>, at: int, end: int) -> int
    decreases end - at,
{
    if at < end && !is_separator(data[at]) {
        word_end(data, at + 1, end)
    } else {
        at
    }
}

/// The bytes from one place to another are ASCII.
pub open spec fn is_ascii(data: Seq<u8>, at: int, end: int) -> bool {
    forall|i: int| at <= i < end ==> #[trigger] data[i] < 0x80
}

/// The sizes that a line gives: the second word is the height, the fourth the width. The other two
/// tell in which order the pixels come, and only one order is not refused.
pub open spec fn sizes(data: Seq<u8>, at: int, end: int) -> Option<(nat, nat)> {
    let a = word_start(data, at, end);
    let b = word_start(data, word_end(data, a, end), end);
    let c = word_start(data, word_end(data, b, end), end);
    let d = word_start(data, word_end(data, c, end), end);
    match (
        number_in(data.subrange(b, word_end(data, b, end))),
        number_in(data.subrange(d, word_end(data, d, end))),
    ) {
        (Some(height), Some(width)) => Some((height, width)),
        _ => None,
    }
}

/// A Radiance file makes no decoder panic: after its header, which ends with an empty line, a line
/// gives the size, and rows follow. A size with letters from outside ASCII, some of which separate
/// words, is not read here.
pub open spec fn radiance_is_safe(data: Seq<u8>) -> bool {
    after_blank(data, line_end(data, 10) + 1) matches Some(at) ==> {
        let end = line_end(data, at);
        &&& is_ascii(data, at, end)
        &&& sizes(data, at, end) matches Some((height, width)) ==> (width > 0 && height <= u32::MAX
            && width <= u32::MAX ==> rows_are_safe(data, end + 1, width as int, height as int))
    }
}

/// The unit of a short chain fits.
proof fn lemma_run_unit(chain: int)
    requires
        0 <= chain <= 7,
    ensures
        1 <= run_unit(chain) <= 0x100_0000_0000_0000,
{
    reveal_with_fuel(run_unit, 8);
}

/// Reads one channel of a row.
fn read_channel(data: &[u8], at: usize, width: u64) -> (next: Result<usize, Ending>)
    requires
        at <= data@.len(),
        width <= u32::MAX,
    ensures
        match next {
            Ok(place) => channel(data@, at as int, width as int, 0) == Ok::<int, Ending>(
                place as int,
            ) && place <= data@.len(),
            Err(ending) => channel(data@, at as int, width as int, 0) == Err::<int, Ending>(ending),
        },
{
    let total: usize = data.len();
    let mut place: usize = at;
    let mut done: u64 = 0;
    while done < width
        invariant
            total == data@.len(),
            place <= total,
            done <= width <= u32::MAX,
            channel(data@, at as int, width as int, 0) == channel(
                data@,
                place as int,
                width as int,
                done as int,
            ),
        decreases total - place,
    {
        if place >= total {
            return Err(Ending::Fails);
        }
        let byte: u8 = data[place];
        if byte <= 128 {
            if done + byte as u64 > width || byte as usize > total - place - 1 {
                return Err(Ending::Fails);
            }
            place = place + 1 + byte as usize;
            done = done + byte as u64;
        } else {
            if done + byte as u64 - 128 > width || total - place < 2 {
                return Err(Ending::Fails);
            }
            place = place + 2;
            done = done + byte as u64 - 128;
        }
    }
    Ok(place)
}

/// Reads a row of pixels as they stand, after its first one.
fn read_plain_row(data: &[u8], at: usize, width: u64) -> (next: Result<usize, Ending>)
    requires
        at <= data@.len(),
        1 <= width <= u32::MAX,
    ensures
        match next {
            Ok(place) => plain_row(data@, at as int, width as int, 1, 0) == Ok::<int, Ending>(
                place as int,
            ) && place <= data@.len(),
            Err(ending) => plain_row(data@, at as int, width as int, 1, 0) == Err::<int, Ending>(
                ending,
            ),
        },
{
    let most: u64 = if usize::MAX > 0xffff_ffff {
        8
    } else {
        4
    };
    let total: usize = data.len();
    let mut place: usize = at;
    let mut done: u64 = 1;
    let mut chain: u64 = 0;
    let mut unit: u64 = 1;
    while done < width
        invariant
            total == data@.len(),
            place <= total,
            1 <= done <= width <= u32::MAX,
            most == chain_length(),
            chain < most <= 8,
            unit == run_unit(chain as int),
            plain_row(data@, at as int, width as int, 1, 0) == plain_row(
                data@,
                place as int,
                width as int,
                done as int,
                chain as int,
            ),
        decreases total - place,
    {
        if total - place < 4 {
            return Err(Ending::Fails);
        }
        if data[place] != 1 || data[place + 1] != 1 || data[place + 2] != 1 {
            done = done + 1;
            chain = 0;
            unit = 1;
        } else {
            if chain + 1 >= most {
                return Err(Ending::Panics);
            }
            let times: u64 = data[place + 3] as u64;
            proof {
                lemma_run_unit(chain as int);
                lemma_run_unit(chain + 1);
                assert(0 <= times * unit <= 255 * 0x1_0000_0000_0000) by (nonlinear_arith)
                    requires
                        0 <= times <= 255,
                        0 <= unit,
                        256 * unit <= 0x100_0000_0000_0000,
                ;
            }
            if done + times * unit > width {
                return Err(Ending::Fails);
            }
            done = done + times * unit;
            chain = chain + 1;
            unit = 256 * unit;
        }
        place = place + 4;
    }
    Ok(place)
}

/// Reads a row.
fn read_row(data: &[u8], at: usize, width: u64) -> (next: Result<usize, Ending>)
    requires
        at <= data@.len(),
        1 <= width <= u32::MAX,
    ensures
        match next {
            Ok(place) => row(data@, at as int, width as int) == Ok::<int, Ending>(place as int)
                && place <= data@.len(),
            Err(ending) => row(data@, at as int, width as int) == Err::<int, Ending>(ending),
        },
{
    if data.len() - at < 4 {
        return Err(Ending::Fails);
    }
    if data[at] == 2 && data[at + 1] == 2 && data[at + 2] < 128 {
        let mut place: usize = at + 4;
        match read_channel(data, place, width) {
            Ok(found) => {
                place = found;
            },
            Err(ending) => {
                return Err(ending);
            },
        }
        match read_channel(data, place, width) {
            Ok(found) => {
                place = found;
            },
            Err(ending) => {
                return Err(ending);
            },
        }
        match read_channel(data, place, width) {
            Ok(found) => {
                place = found;
            },
            Err(ending) => {
                return Err(ending);
            },
        }
        return read_channel(data, place, width);
    }
    if data[at] == 1 && data[at + 1] == 1 && data[at + 2] == 1 {
        return Err(Ending::Fails);
    }
    read_plain_row(data, at + 4, width)
}

/// Whether no row makes a decoder panic.
fn check_rows(data: &[u8], at: usize, width: u64, count: u64) -> (safe: bool)
    requires
        at <= data@.len(),
        1 <= width <= u32::MAX,
    ensures
        safe == rows_are_safe(data@, at as int, width as int, count as int),
{
    let mut place: usize = at;
    let mut left: u64 = count;
    while left > 0
        invariant
            place <= data@.len(),
            1 <= width <= u32::MAX,
            rows_are_safe(data@, at as int, width as int, count as int) == rows_are_safe(
                data@,
                place as int,
                width as int,
                left as int,
            ),
        decreases left,
    {
        match read_row(data, place, width) {
            Ok(next) => {
                place = next;
            },
            Err(ending) => {
                return ending == Ending::Fails;
            },
        }
        left = left - 1;
    }
    true
}

/// The end of the line at the given place.
fn find_line_end(data: &[u8], at: usize) -> (end: usize)
    requires
        at <= data@.len(),
    ensures
        end == line_end(data@, at as int),
        at <= end <= data@.len(),
{
    let mut place: usize = at;
    while place < data.len() && data[place] != 0x0a
        invariant
            at <= place <= data@.len(),
            line_end(data@, at as int) == line_end(data@, place as int),
        decreases data.len() - place,
    {
        place = place + 1;
    }
    place
}

/// The place after the first empty line.
fn find_after_blank(data: &[u8], at: usize) -> (place: Option<usize>)
    requires
        at <= data@.len(),
    ensures
        match place {
            Some(found) => after_blank(data@, at as int) == Some(found as int) && found
                <= data@.len(),
            None => after_blank(data@, at as int) is None,
        },
{
    let total: usize = data.len();
    let mut here: usize = at;
    while here < total
        invariant
            total == data@.len(),
            here <= total,
            after_blank(data@, at as int) == after_blank(data@, here as int),
        decreases total - here,
    {
        if data[here] == 0x0a {
            return Some(here + 1);
        }
        let end: usize = find_line_end(data, here);
        if end >= total {
            return None;
        }
        here = end + 1;
    }
    None
}

/// The place of the first word.
fn find_word_start(data: &[u8], at: usize, end: usize) -> (start: usize)
    requires
        at <= end <= data@.len(),
    ensures
        start == word_start(data@, at as int, end as int),
        at <= start <= end,
{
    let mut place: usize = at;
    while place < end && separates(data[place])
        invariant
            at <= place <= end <= data@.len(),
            word_start(data@, at as int, end as int) == word_start(
                data@,
                place as int,
                end as int,
            ),
        decreases end - place,
    {
        place = place + 1;
    }
    place
}

/// The place after a word.
fn find_word_end(data: &[u8], at: usize, end: usize) -> (after: usize)
    requires
        at <= end <= data@.len(),
    ensures
        after == word_end(data@, at as int, end as int),
        at <= after <= end,
{
    let mut place: usize = at;
    while place < end && !separates(data[place])
        invariant
            at <= place <= end <= data@.len(),
            word_end(data@, at as int, end as int) == word_end(data@, place as int, end as int),
        decreases end - place,
    {
        place = place + 1;
    }
    place
}

/// Whether the bytes from one place to another are ASCII.
fn check_ascii(data: &[u8], at: usize, end: usize) -> (yes: bool)
    requires
        at <= end <= data@.len(),
    ensures
        yes == is_ascii(data@, at as int, end as int),
{
    let mut i: usize = at;
    while i < end
        invariant
            at <= i <= end <= data@.len(),
            is_ascii(data@, at as int, i as int),
        decreases end - i,
    {
        if data[i] >= 0x80 {
            return false;
        }
        i = i + 1;
    }
    true
}

/// The sizes that a line gives, if they fit into 32 bits.
fn find_sizes(data: &[u8], at: usize, end: usize) -> (found: Option<(u64, u64)>)
    requires
        at <= end <= data@.len(),
    ensures
        match found {
            Some((height, width)) => {
                &&& sizes(data@, at as int, end as int) == Some((height as nat, width as nat))
                &&& height <= u32::MAX
                &&& width <= u32::MAX
            },
            None => sizes(data@, at as int, end as int) matches Some((height, width)) ==> height
                > u32::MAX || width > u32::MAX,
        },
{
    let a: usize = find_word_start(data, at, end);
    let b: usize = find_word_start(data, find_word_end(data, a, end), end);
    let b_end: usize = find_word_end(data, b, end);
    let c: usize = find_word_start(data, b_end, end);
    let d: usize = find_word_start(data, find_word_end(data, c, end), end);
    let d_end: usize = find_word_end(data, d, end);
    match (
        read_number(slice_subrange(data, b, b_end)),
        read_number(slice_subrange(data, d, d_end)),
    ) {
        (Some(height), Some(width)) => Some((height, width)),
        _ => None,
    }
}

/// Whether a Radiance file makes no decoder panic.
pub fn check_radiance(data: &[u8]) -> (safe: bool)
    requires
        data@.len() >= 10,
    ensures
        safe == radiance_is_safe(data@),
{
    let total: usize = data.len();
    let first: usize = find_line_end(data, 10);
    if first >= total {
        assert(after_blank(data@, first + 1) is None);
        return true;
    }
    let at: usize = match find_after_blank(data, first + 1) {
        Some(found) => found,
        None => {
            return true;
        },
    };
    let end: usize = find_line_end(data, at);
    if !check_ascii(data, at, end) {
        return false;
    }
    match find_sizes(data, at, end) {
        Some((height, width)) => {
            if width == 0 {
                return true;
            }
            if end >= total {
                proof {
                    if height > 0 {
                        assert(row(data@, end + 1, width as int) == Err::<int, Ending>(
                            Ending::Fails,
                        ));
                    }
                }
                return true;
            }
            check_rows(data, end + 1, width, height)
        },
        None => true,
    }
}

/// Nowhere are there three bytes of one in a row.
pub open spec fn has_no_runs(data: Seq<u8>) -> bool {
    forall|i: int|
        0 <= i && i + 3 <= data.len() && #[trigger] data[i] == 1 && data[i + 1] == 1 ==> data[i + 2]
            != 1
}

/// Without runs, a row of pixels as they stand makes no decoder panic.
proof fn lemma_plain_row_without_runs(data: Seq<u8>, at: int, width: int, done: int)
    requires
        has_no_runs(data),
        0 <= at,
    ensures
        plain_row(data, at, width, done, 0) != Err::<int, Ending>(Ending::Panics),
        plain_row(data, at, width, done, 0) matches Ok(next) ==> at <= next,
    decreases data.len() - at,
{
    if done < width && at + 4 <= data.len() {
        lemma_plain_row_without_runs(data, at + 4, width, done + 1);
    }
}

/// A channel of a row never makes a decoder panic.
proof fn lemma_channel(data: Seq<u8>, at: int, width: int, done: int)
    requires
        0 <= at,
    ensures
        channel(data, at, width, done) != Err::<int, Ending>(Ending::Panics),
        channel(data, at, width, done) matches Ok(next) ==> at <= next,
    decreases data.len() - at,
{
    if done < width && at < data.len() {
        if data[at] <= 128 && at + 1 + data[at] <= data.len() {
            lemma_channel(data, at + 1 + data[at], width, done + data[at]);
        } else if data[at] > 128 && at + 2 <= data.len() {
            lemma_channel(data, at + 2, width, done + data[at] - 128);
        }
    }
}

/// Without runs, no row makes a decoder panic.
pub proof fn lemma_rows_without_runs(data: Seq<u8>, at: int, width: int, count: int)
    requires
        has_no_runs(data),
        0 <= at,
    ensures
        rows_are_safe(data, at, width, count),
    decreases count,
{
    if count > 0 {
        if at + 4 <= data.len() {
            lemma_plain_row_without_runs(data, at + 4, width, 1);
            lemma_channel(data, at + 4, width, 0);
            if let Ok(a) = channel(data, at + 4, width, 0) {
                lemma_channel(data, a, width, 0);
                if let Ok(b) = channel(data, a, width, 0) {
                    lemma_channel(data, b, width, 0);
                    if let Ok(c) = channel(data, b, width, 0) {
                        lemma_channel(data, c, width, 0);
                    }
                }
            }
        }
        if let Ok(next) = row(data, at, width) {
            lemma_rows_without_runs(data, next, width, count - 1);
        }
    }
}

/// The place after an empty line is within the file or at its end.
pub proof fn lemma_after_blank(data: Seq<u8>, at: int)
    requires
        0 <= at,
    ensures
        after_blank(data, at) matches Some(next) ==> at < next <= data.len(),
    decreases data.len() - at,
{
    if at < data.len() {
        lemma_line_end(data, at);
        if data[at] != 0x0a && line_end(data, at) < data.len() {
            lemma_after_blank(data, line_end(data, at) + 1);
        }
    }
}

/// A file without runs whose size is in ASCII makes no decoder panic.
pub proof fn lemma_radiance_without_runs(data: Seq<u8>)
    requires
        has_no_runs(data),
        after_blank(data, line_end(data, 10) + 1) matches Some(at) ==> is_ascii(
            data,
            at,
            line_end(data, at),
        ),
    ensures
        radiance_is_safe(data),
{
    lemma_line_end(data, 10);
    lemma_after_blank(data, line_end(data, 10) + 1);
    if let Some(at) = after_blank(data, line_end(data, 10) + 1) {
        let end = line_end(data, at);
        lemma_line_end(data, at);
        if let Some((height, width)) = sizes(data, at, end) {
            lemma_rows_without_runs(data, end + 1, width as int, height as int);
        }
    }
}

} // verus!
