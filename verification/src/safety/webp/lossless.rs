//! Lossless WebP images: the groups of codes that they are written in, and their pixels.
use super::bits::{read, read_bits, MAX_CHUNK};
use super::codes::{read_symbol, symbol, Code, Words};
use super::headers::{code_at, read_code, read_small, DISTANCE_SYMBOLS};
use crate::safety::Ending;
use vstd::prelude::*;

verus! {

/// How far to the left the first distances point.
pub const NEAR_LEFT: [i8; 120] = [
    0, 1, 1, -1, 0, 2, 1, -1, 2, -2, 2, -2, 0, 3, 1, -1, 3, -3, 2, -2,
    3, -3, 0, 4, 1, -1, 4, -4, 3, -3, 2, -2, 4, -4, 0, 3, -3, 4, -4, 5,
    1, -1, 5, -5, 2, -2, 5, -5, 4, -4, 3, -3, 5, -5, 0, 6, 1, -1, 6, -6,
    2, -2, 6, -6, 4, -4, 5, -5, 3, -3, 6, -6, 0, 7, 1, -1, 5, -5, 7, -7,
    4, -4, 6, -6, 2, -2, 7, -7, 3, -3, 7, -7, 5, -5, 6, -6, 8, 4, -4, 7,
    -7, 8, 8, 6, -6, 8, 5, -5, 7, -7, 8, 6, -6, 7, -7, 8, 7, -7, 8, 8,
];

/// How far up the first distances point.
pub const NEAR_UP: [i8; 120] = [
    1, 0, 1, 1, 2, 0, 2, 2, 1, 1, 2, 2, 3, 0, 3, 3, 1, 1, 3, 3,
    2, 2, 4, 0, 4, 4, 1, 1, 3, 3, 4, 4, 2, 2, 5, 4, 4, 3, 3, 0,
    5, 5, 1, 1, 5, 5, 2, 2, 4, 4, 5, 5, 3, 3, 6, 0, 6, 6, 1, 1,
    6, 6, 2, 2, 5, 5, 4, 4, 6, 6, 3, 3, 7, 0, 7, 7, 5, 5, 1, 1,
    6, 6, 4, 4, 7, 7, 2, 2, 7, 7, 3, 3, 6, 6, 5, 5, 0, 7, 7, 4,
    4, 1, 2, 6, 6, 3, 7, 7, 5, 5, 4, 7, 7, 6, 6, 5, 7, 7, 6, 7,
];

/// The distance that a code stands for, in an image of the given width: the first codes point to
/// neighbours.
pub open spec fn distance(width: u16, code: u64) -> u64 {
    if code == 0 || code > 120 {
        (code - 120) as u64
    } else {
        let steps = NEAR_LEFT@[code - 1] + NEAR_UP@[code - 1] * width;
        if steps < 1 {
            1
        } else {
            steps as u64
        }
    }
}

/// The distance that a code stands for.
fn distance_of(width: u16, code: u64) -> (steps: u64)
    requires
        code > 0,
    ensures
        steps == distance(width, code),
        steps > 0,
{
    if code > 120 {
        code - 120
    } else {
        let i: usize = (code - 1) as usize;
        let left: i64 = NEAR_LEFT[i] as i64;
        let up: i64 = NEAR_UP[i] as i64;
        assert(-128 * 65535 <= up * width <= 127 * 65535) by (nonlinear_arith)
            requires
                -128 <= up <= 127,
                0 <= width <= 65535,
        ;
        let steps: i64 = left + up * width as i64;
        if steps < 1 {
            1
        } else {
            steps as u64
        }
    }
}

/// The first symbol for distances that are longer than any image.
pub const ENDLESS: u16 = 58;

/// The first symbol for distances that are too long to be counted.
pub open spec fn uncountable() -> u16 {
    if usize::MAX > 0xffff_ffff {
        126
    } else {
        62
    }
}

/// Reads a length or a distance code, whose size a symbol tells.
pub open spec fn extent(data: Seq<u8>, pos: u64, sign: u16) -> Result<(u64, u64), Ending> {
    if sign < 4 {
        Ok(((sign + 1) as u64, pos))
    } else if sign >= uncountable() {
        Err(Ending::Panics)
    } else if sign >= ENDLESS {
        Err(Ending::Fails)
    } else {
        let width = ((sign - 2) / 2) as u8;
        match read(data, pos, width) {
            Err(ending) => Err(ending),
            Ok((more, next)) => {
                let least = ((2 + sign % 2) as u64) << (width as u64);
                Ok(((least + more + 1) as u64, next))
            },
        }
    }
}

/// Reads a length or a distance code.
fn read_extent(data: &[u8], pos: u64, sign: u16) -> (found: Result<(u64, u64), Ending>)
    requires
        data@.len() <= MAX_CHUNK,
        pos <= 8 * data@.len(),
    ensures
        found == extent(data@, pos, sign),
        found matches Ok((value, next)) ==> value > 0 && next <= 8 * data@.len(),
{
    let most: u16 = if usize::MAX > 0xffff_ffff {
        126
    } else {
        62
    };
    if sign < 4 {
        Ok(((sign + 1) as u64, pos))
    } else if sign >= most {
        Err(Ending::Panics)
    } else if sign >= ENDLESS {
        Err(Ending::Fails)
    } else {
        let width: u8 = ((sign - 2) / 2) as u8;
        match read_bits(data, pos, width) {
            Ok((more, next)) => {
                let first: u64 = (2 + sign % 2) as u64;
                let shift: u64 = width as u64;
                assert(first << shift <= 0x2000_0000) by (bit_vector)
                    requires
                        first <= 3,
                        shift <= 27,
                ;
                let least: u64 = first << shift;
                Ok((least + more as u64 + 1, next))
            },
            Err(ending) => Err(ending),
        }
    }
}

/// The pixels of an image so far, and the colours that are at hand, where there are any.
pub struct Pixels {
    pub colours: Vec<u32>,
    pub hand: Vec<u32>,
    /// The number of bits that find a colour at hand.
    pub bits: u8,
}

/// What pixels and colours at hand consist of.
pub struct Canvas {
    pub colours: Seq<u32>,
    pub hand: Seq<u32>,
    pub bits: u8,
}

impl View for Pixels {
    type V = Canvas;

    open spec fn view(&self) -> Canvas {
        Canvas { colours: self.colours@, hand: self.hand@, bits: self.bits }
    }
}

/// Where a colour is kept at hand.
pub open spec fn hand_place(colour: u32, bits: u8) -> u32 {
    (((0x1e35a7bd * colour) % 0x1_0000_0000) as u32) >> ((32 - bits) as u32)
}

impl Canvas {
    /// One more pixel, whose colour is then at hand.
    pub open spec fn with(self, colour: u32) -> Canvas {
        let place = hand_place(colour, self.bits) as int;
        Canvas {
            colours: self.colours.push(colour),
            hand: if 1 <= self.bits <= 11 && place < self.hand.len() {
                self.hand.update(place, colour)
            } else {
                self.hand
            },
            ..self
        }
    }

    /// More pixels, each copied from the one that lies `back` pixels before it.
    pub open spec fn with_copies(self, back: int, count: nat) -> Canvas
        decreases count,
    {
        if count == 0 {
            self
        } else {
            let most = self.with_copies(back, (count - 1) as nat);
            most.with(most.colours[most.colours.len() - back])
        }
    }
}

/// Copies make as many pixels more.
pub proof fn lemma_copies(canvas: Canvas, back: int, count: nat)
    ensures
        canvas.with_copies(back, count).colours.len() == canvas.colours.len() + count,
    decreases count,
{
    if count > 0 {
        lemma_copies(canvas, back, (count - 1) as nat);
    }
}

/// The codes that one image is written in.
pub struct Group {
    pub green: Code,
    pub red: Code,
    pub blue: Code,
    pub alpha: Code,
    pub far: Code,
}

/// What the codes of an image consist of.
pub struct Codes {
    pub green: Words,
    pub red: Words,
    pub blue: Words,
    pub alpha: Words,
    pub far: Words,
}

impl View for Group {
    type V = Codes;

    open spec fn view(&self) -> Codes {
        Codes {
            green: self.green@,
            red: self.red@,
            blue: self.blue@,
            alpha: self.alpha@,
            far: self.far@,
        }
    }
}

impl Codes {
    /// Each code is well formed.
    pub open spec fn wf(self) -> bool {
        &&& self.green.wf()
        &&& self.red.wf()
        &&& self.blue.wf()
        &&& self.alpha.wf()
        &&& self.far.wf()
    }
}

/// The colour of four channels.
pub open spec fn colour_of(alpha: u16, red: u16, green: u16, blue: u16) -> u32 {
    ((0x100_0000 * alpha + 0x1_0000 * red + 0x100 * green + blue) % 0x1_0000_0000) as u32
}

/// Reads the rest of a pixel whose green channel has been read.
pub open spec fn one_pixel(
    data: Seq<u8>,
    pos: u64,
    codes: Codes,
    green: u16,
    canvas: Canvas,
) -> Result<(Canvas, u64), Ending> {
    match symbol(data, pos, codes.red) {
        Err(ending) => Err(ending),
        Ok((red, a)) => match symbol(data, a, codes.blue) {
            Err(ending) => Err(ending),
            Ok((blue, b)) => match symbol(data, b, codes.alpha) {
                Err(ending) => Err(ending),
                Ok((alpha, c)) => Ok((canvas.with(colour_of(alpha, red, green, blue)), c)),
            },
        },
    }
}

/// Reads how many pixels are copied, and from where; they have to exist and to fit.
pub open spec fn copied_pixels(
    data: Seq<u8>,
    pos: u64,
    codes: Codes,
    width: u16,
    total: int,
    sign: u16,
    canvas: Canvas,
) -> Result<(Canvas, u64), Ending> {
    match extent(data, pos, sign) {
        Err(ending) => Err(ending),
        Ok((count, a)) => match symbol(data, a, codes.far) {
            Err(ending) => Err(ending),
            Ok((far, b)) => match extent(data, b, far) {
                Err(ending) => Err(ending),
                Ok((code, c)) => {
                    let back = distance(width, code);
                    if canvas.colours.len() < back || total - canvas.colours.len() < count {
                        Err(Ending::Fails)
                    } else {
                        Ok((canvas.with_copies(back as int, count as nat), c))
                    }
                },
            },
        },
    }
}

/// Reads the next pixel, or the next pixels.
#[verifier::opaque]
pub open spec fn next_pixels(
    data: Seq<u8>,
    pos: u64,
    codes: Codes,
    width: u16,
    total: int,
    canvas: Canvas,
) -> Result<(Canvas, u64), Ending> {
    match symbol(data, pos, codes.green) {
        Err(ending) => Err(ending),
        Ok((sign, next)) => if sign < 256 {
            one_pixel(data, next, codes, sign, canvas)
        } else if sign < 280 {
            copied_pixels(data, next, codes, width, total, (sign - 256) as u16, canvas)
        } else if sign - 280 < canvas.hand.len() {
            Ok((canvas.with(canvas.hand[sign - 280]), next))
        } else {
            Err(Ending::Fails)
        },
    }
}

/// The next pixels are some.
pub proof fn lemma_next_pixels(
    data: Seq<u8>,
    pos: u64,
    codes: Codes,
    width: u16,
    total: int,
    canvas: Canvas,
)
    ensures
        next_pixels(data, pos, codes, width, total, canvas) matches Ok((after, _)) ==> {
            &&& after.colours.len() > canvas.colours.len()
        },
{
    reveal(next_pixels);
    if let Ok((sign, next)) = symbol(data, pos, codes.green) {
        if 256 <= sign < 280 {
            if let Ok((count, a)) = extent(data, next, (sign - 256) as u16) {
                if let Ok((far, b)) = symbol(data, a, codes.far) {
                    if let Ok((code, c)) = extent(data, b, far) {
                        lemma_copies(canvas, distance(width, code) as int, count as nat);
                        lemma_extent(data, next, (sign - 256) as u16);
                    }
                }
            }
        }
    }
}

/// A length is not zero.
pub proof fn lemma_extent(data: Seq<u8>, pos: u64, sign: u16)
    ensures
        extent(data, pos, sign) matches Ok((value, _)) ==> value > 0,
{
    if 4 <= sign < ENDLESS {
        let width = ((sign - 2) / 2) as u8;
        let first = (2 + sign % 2) as u64;
        let shift = width as u64;
        assert(first << shift <= 0x2000_0000) by (bit_vector)
            requires
                first <= 3,
                shift <= 27,
        ;
    }
}

/// Which codes the pixels of an image are written in: the groups of codes, and a map that tells the
/// group for each square block of pixels, unless there is but one group.
pub struct Layout {
    pub groups: Vec<Group>,
    pub map: Vec<u32>,
    /// The number of blocks in a row.
    pub across: u16,
    /// The side of a block is two to this power; there is no map if it is zero.
    pub bits: u8,
}

/// What a layout consists of.
pub struct Plan {
    pub groups: Seq<Codes>,
    pub map: Seq<u32>,
    pub across: u16,
    pub bits: u8,
}

impl View for Layout {
    type V = Plan;

    open spec fn view(&self) -> Plan {
        Plan {
            groups: self.groups@.map_values(|group: Group| group@),
            map: self.map@,
            across: self.across,
            bits: self.bits,
        }
    }
}

impl Plan {
    /// Each group is well formed.
    pub open spec fn wf(self) -> bool {
        &&& self.bits <= 9
        &&& forall|i: int| 0 <= i < self.groups.len() ==> (#[trigger] self.groups[i]).wf()
    }

    /// Where the map tells the group for the pixel that has `done` others before it, in an image of
    /// the given width.
    pub open spec fn place(self, width: u16, done: int) -> int {
        let block = (1u32 << (self.bits as u32)) as int;
        ((done / width as int) / block) * self.across + (done % width as int) / block
    }

    /// The group for the pixel that has `done` others before it. The decoder counts the places of
    /// the map in sixteen bits.
    pub open spec fn group(self, width: u16, done: int) -> Option<int> {
        let place = self.place(width, done);
        if self.bits == 0 {
            if self.groups.len() > 0 {
                Some(0)
            } else {
                None
            }
        } else if place > 0xffff || place >= self.map.len() {
            None
        } else {
            let index = (self.map[place] / 256) % 65536;
            if index < self.groups.len() {
                Some(index as int)
            } else {
                None
            }
        }
    }
}

impl Layout {
    /// The group for the pixel that has `done` others before it.
    fn find_group(&self, width: u16, done: u64) -> (found: Option<usize>)
        requires
            self@.wf(),
            width > 0,
            done <= u32::MAX,
        ensures
            match found {
                Some(index) => self@.group(width, done as int) == Some(index as int) && index
                    < self.groups@.len(),
                None => self@.group(width, done as int) is None,
            },
    {
        if self.bits == 0 {
            if self.groups.len() > 0 {
                return Some(0);
            }
            return None;
        }
        let shift: u32 = self.bits as u32;
        assert(1 <= 1u32 << shift <= 512) by (bit_vector)
            requires
                shift <= 9,
        ;
        let block: u64 = (1u32 << shift) as u64;
        let down: u64 = (done / width as u64) / block;
        let right: u64 = (done % width as u64) / block;
        let across: u64 = self.across as u64;
        assert(down <= done && right <= done) by (nonlinear_arith)
            requires
                down == (done / width as u64) / block,
                right == (done % width as u64) / block,
                width > 0,
                block > 0,
        ;
        assert(0 <= down * across <= 0xffff_ffff * 0xffff) by (nonlinear_arith)
            requires
                0 <= down <= 0xffff_ffff,
                0 <= across <= 0xffff,
        ;
        let place: u64 = down * across + right;
        if place > 0xffff || place >= self.map.len() as u64 {
            return None;
        }
        let index: u32 = (self.map[place as usize] / 256) % 65536;
        if (index as usize) < self.groups.len() {
            Some(index as usize)
        } else {
            None
        }
    }
}

/// Reads pixels until there are `total`.
pub open spec fn pixels_from(
    data: Seq<u8>,
    pos: u64,
    plan: Plan,
    width: u16,
    total: int,
    canvas: Canvas,
) -> Result<(Canvas, u64), Ending>
    decreases
            if canvas.colours.len() >= total {
                0
            } else {
                total - canvas.colours.len()
            },
{
    if canvas.colours.len() >= total {
        Ok((canvas, pos))
    } else {
        match plan.group(width, canvas.colours.len() as int) {
            None => Err(Ending::Panics),
            Some(index) => {
                let codes = plan.groups[index];
                proof {
                    lemma_next_pixels(data, pos, codes, width, total, canvas);
                }
                match next_pixels(data, pos, codes, width, total, canvas) {
                    Err(ending) => Err(ending),
                    Ok((after, next)) => pixels_from(data, next, plan, width, total, after),
                }
            },
        }
    }
}

impl Pixels {
    /// Adds a pixel.
    fn add_pixel(&mut self, colour: u32)
        ensures
            final(self)@ == old(self)@.with(colour),
    {
        self.colours.push(colour);
        if 1 <= self.bits && self.bits <= 11 {
            let product: u64 = 0x1e35a7bdu64 * colour as u64;
            let low: u32 = (product % 0x1_0000_0000) as u32;
            let shift: u32 = (32 - self.bits) as u32;
            let place: u32 = low >> shift;
            if (place as u64) < self.hand.len() as u64 {
                self.hand.set(place as usize, colour);
            }
        }
    }

    /// Adds copies of earlier pixels.
    fn add_copies(&mut self, back: usize, count: u64)
        requires
            0 < back <= old(self)@.colours.len(),
        ensures
            final(self)@ == old(self)@.with_copies(back as int, count as nat),
    {
        let ghost start = self@;
        let mut i: u64 = 0;
        while i < count
            invariant
                i <= count,
                0 < back <= start.colours.len(),
                self@ == start.with_copies(back as int, i as nat),
            decreases count - i,
        {
            proof {
                lemma_copies(start, back as int, i as nat);
            }
            let colour: u32 = self.colours[self.colours.len() - back];
            self.add_pixel(colour);
            i = i + 1;
        }
    }
}

/// Reads the rest of a pixel.
fn read_one_pixel(data: &[u8], pos: u64, codes: &Group, green: u16, pixels: &mut Pixels) -> (taken:
    Result<u64, Ending>)
    requires
        data@.len() <= MAX_CHUNK,
        pos <= 8 * data@.len(),
        codes@.wf(),
    ensures
        match taken {
            Ok(next) => {
                &&& one_pixel(data@, pos, codes@, green, old(pixels)@) == Ok::<
                    (Canvas, u64),
                    Ending,
                >((final(pixels)@, next))
                &&& next <= 8 * data@.len()
            },
            Err(ending) => one_pixel(data@, pos, codes@, green, old(pixels)@) == Err::<
                (Canvas, u64),
                Ending,
            >(ending),
        },
{
    let (red, a) = match read_symbol(data, pos, &codes.red) {
        Ok(found) => found,
        Err(ending) => {
            return Err(ending);
        },
    };
    let (blue, b) = match read_symbol(data, a, &codes.blue) {
        Ok(found) => found,
        Err(ending) => {
            return Err(ending);
        },
    };
    let (alpha, c) = match read_symbol(data, b, &codes.alpha) {
        Ok(found) => found,
        Err(ending) => {
            return Err(ending);
        },
    };
    let sum: u64 = 0x100_0000 * alpha as u64 + 0x1_0000 * red as u64 + 0x100 * green as u64
        + blue as u64;
    pixels.add_pixel((sum % 0x1_0000_0000) as u32);
    Ok(c)
}

/// Reads which pixels are copied, and copies them.
fn read_copied_pixels(
    data: &[u8],
    pos: u64,
    codes: &Group,
    width: u16,
    total: u64,
    sign: u16,
    pixels: &mut Pixels,
) -> (taken: Result<u64, Ending>)
    requires
        data@.len() <= MAX_CHUNK,
        pos <= 8 * data@.len(),
        codes@.wf(),
        old(pixels)@.colours.len() <= total,
    ensures
        match taken {
            Ok(next) => {
                &&& copied_pixels(
                    data@,
                    pos,
                    codes@,
                    width,
                    total as int,
                    sign,
                    old(pixels)@,
                ) == Ok::<(Canvas, u64), Ending>((final(pixels)@, next))
                &&& next <= 8 * data@.len()
                &&& final(pixels)@.colours.len() <= total
            },
            Err(ending) => copied_pixels(
                data@,
                pos,
                codes@,
                width,
                total as int,
                sign,
                old(pixels)@,
            ) == Err::<(Canvas, u64), Ending>(ending),
        },
{
    let (count, a) = match read_extent(data, pos, sign) {
        Ok(found) => found,
        Err(ending) => {
            return Err(ending);
        },
    };
    let (far, b) = match read_symbol(data, a, &codes.far) {
        Ok(found) => found,
        Err(ending) => {
            return Err(ending);
        },
    };
    let (code, c) = match read_extent(data, b, far) {
        Ok(found) => found,
        Err(ending) => {
            return Err(ending);
        },
    };
    let back: u64 = distance_of(width, code);
    let done: u64 = pixels.colours.len() as u64;
    if done < back || total - done < count {
        return Err(Ending::Fails);
    }
    proof {
        lemma_copies(pixels@, back as int, count as nat);
    }
    pixels.add_copies(back as usize, count);
    Ok(c)
}

/// Reads the next pixel, or the next pixels.
fn read_next_pixels(
    data: &[u8],
    pos: u64,
    codes: &Group,
    width: u16,
    total: u64,
    pixels: &mut Pixels,
) -> (taken: Result<u64, Ending>)
    requires
        data@.len() <= MAX_CHUNK,
        pos <= 8 * data@.len(),
        codes@.wf(),
        old(pixels)@.colours.len() < total,
    ensures
        match taken {
            Ok(next) => {
                &&& next_pixels(data@, pos, codes@, width, total as int, old(pixels)@) == Ok::<
                    (Canvas, u64),
                    Ending,
                >((final(pixels)@, next))
                &&& next <= 8 * data@.len()
                &&& final(pixels)@.colours.len() <= total
            },
            Err(ending) => next_pixels(data@, pos, codes@, width, total as int, old(pixels)@)
                == Err::<(Canvas, u64), Ending>(ending),
        },
{
    reveal(next_pixels);
    let (sign, next) = match read_symbol(data, pos, &codes.green) {
        Ok(found) => found,
        Err(ending) => {
            return Err(ending);
        },
    };
    if sign < 256 {
        read_one_pixel(data, next, codes, sign, pixels)
    } else if sign < 280 {
        read_copied_pixels(data, next, codes, width, total, sign - 256, pixels)
    } else if ((sign - 280) as usize) < pixels.hand.len() {
        let colour: u32 = pixels.hand[(sign - 280) as usize];
        pixels.add_pixel(colour);
        Ok(next)
    } else {
        Err(Ending::Fails)
    }
}

/// Reads pixels until there are `total`.
fn read_pixels(
    data: &[u8],
    pos: u64,
    layout: &Layout,
    width: u16,
    total: u64,
    empty: Pixels,
) -> (taken: Result<(Pixels, u64), Ending>)
    requires
        data@.len() <= MAX_CHUNK,
        pos <= 8 * data@.len(),
        layout@.wf(),
        width > 0,
        total <= u32::MAX,
        empty@.colours.len() <= total,
    ensures
        match taken {
            Ok((made, next)) => {
                &&& pixels_from(data@, pos, layout@, width, total as int, empty@) == Ok::<
                    (Canvas, u64),
                    Ending,
                >((made@, next))
                &&& next <= 8 * data@.len()
            },
            Err(ending) => pixels_from(data@, pos, layout@, width, total as int, empty@) == Err::<
                (Canvas, u64),
                Ending,
            >(ending),
        },
{
    let ghost start = empty@;
    let mut pixels = empty;
    let mut at: u64 = pos;
    while (pixels.colours.len() as u64) < total
        invariant
            data@.len() <= MAX_CHUNK,
            at <= 8 * data@.len(),
            layout@.wf(),
            width > 0,
            total <= u32::MAX,
            start == empty@,
            pixels@.colours.len() <= total,
            pixels_from(data@, pos, layout@, width, total as int, start) == pixels_from(
                data@,
                at,
                layout@,
                width,
                total as int,
                pixels@,
            ),
        decreases total - pixels@.colours.len(),
    {
        let index: usize = match layout.find_group(width, pixels.colours.len() as u64) {
            Some(found) => found,
            None => {
                return Err(Ending::Panics);
            },
        };
        let codes = &layout.groups[index];
        proof {
            assert(layout@.groups[index as int] == codes@);
            lemma_next_pixels(data@, at, codes@, width, total as int, pixels@);
        }
        match read_next_pixels(data, at, codes, width, total, &mut pixels) {
            Ok(after) => {
                at = after;
            },
            Err(ending) => {
                return Err(ending);
            },
        }
    }
    Ok((pixels, at))
}

/// Reads the codes of one image, the first with room for the colours at hand.
#[verifier::opaque]
pub open spec fn group(data: Seq<u8>, pos: u64, bits: u8) -> Result<(Codes, u64), Ending> {
    match code_at(data, pos, green_symbols(bits)) {
        Err(ending) => Err(ending),
        Ok((green, a)) => match code_at(data, a, 256) {
            Err(ending) => Err(ending),
            Ok((red, b)) => match code_at(data, b, 256) {
                Err(ending) => Err(ending),
                Ok((blue, c)) => match code_at(data, c, 256) {
                    Err(ending) => Err(ending),
                    Ok((alpha, d)) => match code_at(data, d, DISTANCE_SYMBOLS) {
                        Err(ending) => Err(ending),
                        Ok((far, e)) => Ok((Codes { green, red, blue, alpha, far }, e)),
                    },
                },
            },
        },
    }
}

/// The number of colours that are at hand.
pub open spec fn hand_size(bits: u8) -> u16 {
    if bits == 0 {
        0
    } else {
        1u16 << (bits as u16)
    }
}

/// The number of symbols for the green channel, for lengths and for the colours at hand.
pub open spec fn green_symbols(bits: u8) -> u16 {
    (280 + hand_size(bits)) as u16
}

/// Reads in how many bits colours are kept at hand: none, or one to eleven.
pub open spec fn hand_bits(data: Seq<u8>, pos: u64) -> Result<(u8, u64), Ending> {
    match read(data, pos, 1) {
        Err(ending) => Err(ending),
        Ok((some, a)) => if some == 0 {
            Ok((0, a))
        } else {
            match read(data, a, 4) {
                Err(ending) => Err(ending),
                Ok((bits, b)) => if 1 <= bits <= 11 {
                    Ok((bits as u8, b))
                } else {
                    Err(Ending::Fails)
                },
            }
        },
    }
}

/// Reads the pixels of an image, with colours at hand in the given number of bits.
#[verifier::opaque]
pub open spec fn image(
    data: Seq<u8>,
    pos: u64,
    plan: Plan,
    bits: u8,
    width: u16,
    height: u16,
) -> Result<(Seq<u32>, u64), Ending> {
    let canvas = Canvas {
        colours: Seq::empty(),
        hand: Seq::new(hand_size(bits) as nat, |i: int| 0u32),
        bits,
    };
    match pixels_from(data, pos, plan, width, width * height, canvas) {
        Err(ending) => Err(ending),
        Ok((full, next)) => Ok((full.colours, next)),
    }
}

/// One group of codes for the whole image.
pub open spec fn one_group(codes: Codes) -> Plan {
    Plan { groups: seq![codes], map: Seq::empty(), across: 1, bits: 0 }
}

/// Reads an image that serves another one.
#[verifier::opaque]
pub open spec fn inner_image(data: Seq<u8>, pos: u64, width: u16, height: u16) -> Result<
    (Seq<u32>, u64),
    Ending,
> {
    match hand_bits(data, pos) {
        Err(ending) => Err(ending),
        Ok((bits, a)) => match group(data, a, bits) {
            Err(ending) => Err(ending),
            Ok((codes, b)) => image(data, b, one_group(codes), bits, width, height),
        },
    }
}

/// The number of colours that are at hand.
fn hand_size_of(bits: u8) -> (size: u16)
    requires
        bits <= 11,
    ensures
        size == hand_size(bits),
        size <= 2048,
{
    if bits == 0 {
        0
    } else {
        let shift: u16 = bits as u16;
        assert(1u16 << shift <= 2048u16) by (bit_vector)
            requires
                shift <= 11,
        ;
        1u16 << shift
    }
}

/// Reads the codes of one image.
pub fn read_group(data: &[u8], pos: u64, bits: u8) -> (codes: Result<(Group, u64), Ending>)
    requires
        data@.len() <= MAX_CHUNK,
        pos <= 8 * data@.len(),
        bits <= 11,
    ensures
        match codes {
            Ok((made, next)) => {
                &&& group(data@, pos, bits) == Ok::<(Codes, u64), Ending>((made@, next))
                &&& next <= 8 * data@.len()
                &&& made@.wf()
            },
            Err(ending) => group(data@, pos, bits) == Err::<(Codes, u64), Ending>(ending),
        },
{
    reveal(group);
    let (green, a) = match read_code(data, pos, 280 + hand_size_of(bits)) {
        Ok(found) => found,
        Err(ending) => {
            return Err(ending);
        },
    };
    let (red, b) = match read_code(data, a, 256) {
        Ok(found) => found,
        Err(ending) => {
            return Err(ending);
        },
    };
    let (blue, c) = match read_code(data, b, 256) {
        Ok(found) => found,
        Err(ending) => {
            return Err(ending);
        },
    };
    let (alpha, d) = match read_code(data, c, 256) {
        Ok(found) => found,
        Err(ending) => {
            return Err(ending);
        },
    };
    match read_code(data, d, DISTANCE_SYMBOLS) {
        Ok((far, e)) => Ok((Group { green, red, blue, alpha, far }, e)),
        Err(ending) => Err(ending),
    }
}

/// Reads in how many bits colours are kept at hand.
pub fn read_hand_bits(data: &[u8], pos: u64) -> (bits: Result<(u8, u64), Ending>)
    requires
        data@.len() <= MAX_CHUNK,
        pos <= 8 * data@.len(),
    ensures
        bits == hand_bits(data@, pos),
        bits matches Ok((value, next)) ==> value <= 11 && next <= 8 * data@.len(),
{
    let (some, a) = match read_small(data, pos, 1) {
        Ok(found) => found,
        Err(ending) => {
            return Err(ending);
        },
    };
    if some == 0 {
        return Ok((0, a));
    }
    match read_small(data, a, 4) {
        Ok((bits, b)) => if 1 <= bits && bits <= 11 {
            Ok((bits as u8, b))
        } else {
            Err(Ending::Fails)
        },
        Err(ending) => Err(ending),
    }
}

/// Reads the pixels of an image.
pub fn read_image(
    data: &[u8],
    pos: u64,
    layout: &Layout,
    bits: u8,
    width: u16,
    height: u16,
) -> (made: Result<(Vec<u32>, u64), Ending>)
    requires
        data@.len() <= MAX_CHUNK,
        pos <= 8 * data@.len(),
        layout@.wf(),
        bits <= 11,
        width > 0,
    ensures
        match made {
            Ok((colours, next)) => {
                &&& image(data@, pos, layout@, bits, width, height) == Ok::<
                    (Seq<u32>, u64),
                    Ending,
                >((colours@, next))
                &&& next <= 8 * data@.len()
            },
            Err(ending) => image(data@, pos, layout@, bits, width, height) == Err::<
                (Seq<u32>, u64),
                Ending,
            >(ending),
        },
{
    reveal(image);
    let hand: Vec<u32> = vec![0u32; hand_size_of(bits) as usize];
    let empty = Pixels { colours: Vec::new(), hand, bits };
    assert(0 <= width * height <= 65535 * 65535) by (nonlinear_arith)
        requires
            0 <= width <= 65535,
            0 <= height <= 65535,
    ;
    let ghost canvas = Canvas {
        colours: Seq::empty(),
        hand: Seq::new(hand_size(bits) as nat, |i: int| 0u32),
        bits,
    };
    assert(empty@.hand == canvas.hand);
    assert(empty@ == canvas);
    match read_pixels(data, pos, layout, width, width as u64 * height as u64, empty) {
        Ok((full, next)) => Ok((full.colours, next)),
        Err(ending) => Err(ending),
    }
}

/// Reads an image that serves another one.
pub fn read_inner_image(data: &[u8], pos: u64, width: u16, height: u16) -> (made: Result<
    (Vec<u32>, u64),
    Ending,
>)
    requires
        data@.len() <= MAX_CHUNK,
        pos <= 8 * data@.len(),
        width > 0,
    ensures
        match made {
            Ok((colours, next)) => {
                &&& inner_image(data@, pos, width, height) == Ok::<(Seq<u32>, u64), Ending>(
                    (colours@, next),
                )
                &&& next <= 8 * data@.len()
            },
            Err(ending) => inner_image(data@, pos, width, height) == Err::<
                (Seq<u32>, u64),
                Ending,
            >(ending),
        },
{
    reveal(inner_image);
    let (bits, a) = match read_hand_bits(data, pos) {
        Ok(found) => found,
        Err(ending) => {
            return Err(ending);
        },
    };
    let (codes, b) = match read_group(data, a, bits) {
        Ok(found) => found,
        Err(ending) => {
            return Err(ending);
        },
    };
    let ghost plan = one_group(codes@);
    let mut groups: Vec<Group> = Vec::new();
    groups.push(codes);
    let layout = Layout { groups, map: Vec::new(), across: 1, bits: 0 };
    assert(layout@.groups == plan.groups);
    assert(layout@.map == plan.map);
    assert(layout@ == plan);
    read_image(data, b, &layout, bits, width, height)
}

} // verus!
