//! Images as rows of pixels, and what it means to crop and to mirror them.
use vstd::arithmetic::div_mod::lemma_fundamental_div_mod;
use vstd::arithmetic::div_mod::lemma_fundamental_div_mod_converse;
use vstd::prelude::*;

verus! {

/// An image: four bytes for each pixel (red, green, blue, alpha), row after row from the top.
#[derive(Clone, Debug, PartialEq, Eq)]
pub struct Raster {
    pub pixels: Vec<u8>,
    pub width: u32,
    pub height: u32,
}

/// What an image shows.
#[verifier::ext_equal]
pub struct Picture {
    pub pixels: Seq<u8>,
    pub width: u32,
    pub height: u32,
}

impl View for Raster {
    type V = Picture;

    open spec fn view(&self) -> Picture {
        Picture { pixels: self.pixels@, width: self.width, height: self.height }
    }
}

impl Picture {
    /// The pixel bytes are as many as the size asks for.
    pub open spec fn wf(self) -> bool {
        self.pixels.len() == 4 * (self.width * self.height)
    }

    /// The byte of channel `c` at column `x` and row `y`.
    pub open spec fn channel(self, x: int, y: int, c: int) -> u8 {
        self.pixels[4 * (y * self.width + x) + c]
    }

    /// The image of the given size whose channels are given by column, row and channel.
    pub open spec fn build(width: u32, height: u32, f: spec_fn(int, int, int) -> u8) -> Picture {
        Picture {
            pixels: Seq::new(
                (4 * (width * height)) as nat,
                |i: int| f((i / 4) % (width as int), (i / 4) / (width as int), i % 4),
            ),
            width,
            height,
        }
    }

    /// The part of the image from `(x1, y1)` up to, and without, `(x2, y2)`.
    pub open spec fn cropped(self, x1: u32, y1: u32, x2: u32, y2: u32) -> Picture {
        Picture::build(
            (x2 - x1) as u32,
            (y2 - y1) as u32,
            |x: int, y: int, c: int| self.channel(x1 + x, y1 + y, c),
        )
    }

    /// The image mirrored left to right.
    pub open spec fn flipped_h(self) -> Picture {
        Picture::build(
            self.width,
            self.height,
            |x: int, y: int, c: int| self.channel(self.width - 1 - x, y, c),
        )
    }

    /// The image mirrored top to bottom.
    pub open spec fn flipped_v(self) -> Picture {
        Picture::build(
            self.width,
            self.height,
            |x: int, y: int, c: int| self.channel(x, self.height - 1 - y, c),
        )
    }

    /// `after` is the image with a mark laid over it, the top left corner of the mark at column `left`
    /// and row `top`: what the mark does not reach, or covers with nothing, stays as it was, and what
    /// it covers altogether shows the mark.
    pub open spec fn overlaid(self, mark: Picture, left: int, top: int, after: Picture) -> bool {
        forall|x: int, y: int, c: int|
            self.inside(x, y, c) ==> {
                let (u, v) = (x - left, y - top);
                &&& !mark.inside(u, v, c) || mark.channel(u, v, 3) == 0 ==> #[trigger] after.channel(
                    x,
                    y,
                    c,
                ) == self.channel(x, y, c)
                &&& mark.inside(u, v, c) && mark.channel(u, v, 3) == 255 ==> after.channel(x, y, c)
                    == mark.channel(u, v, c)
            }
    }

    /// Column, row and channel lie within the image.
    pub open spec fn inside(self, x: int, y: int, c: int) -> bool {
        0 <= x < self.width && 0 <= y < self.height && 0 <= c < 4
    }
}

/// Where the byte of a channel stands: within the image, and found again from its place.
proof fn lemma_place(width: int, height: int, x: int, y: int, c: int)
    requires
        0 <= x < width,
        0 <= y < height,
        0 <= c < 4,
    ensures
        0 <= 4 * (y * width + x) + c < 4 * (width * height),
        (4 * (y * width + x) + c) / 4 == y * width + x,
        (4 * (y * width + x) + c) % 4 == c,
        (y * width + x) % width == x,
        (y * width + x) / width == y,
{
    let q = y * width + x;
    lemma_fundamental_div_mod_converse(q, width, y, x);
    lemma_fundamental_div_mod_converse(4 * q + c, 4, q, c);
    assert(y * width + x < width * height) by (nonlinear_arith)
        requires
            0 <= x < width,
            0 <= y < height,
    ;
    assert(0 <= y * width) by (nonlinear_arith)
        requires
            0 <= width,
            0 <= y,
    ;
}

/// Which column, row and channel the byte at a place belongs to.
proof fn lemma_coordinates(width: int, height: int, i: int)
    requires
        0 <= i < 4 * (width * height),
        0 <= width,
        0 <= height,
    ensures
        0 <= (i / 4) % width < width,
        0 <= (i / 4) / width < height,
        0 <= i % 4 < 4,
        4 * (((i / 4) / width) * width + (i / 4) % width) + i % 4 == i,
{
    assert(width > 0) by (nonlinear_arith)
        requires
            0 < width * height,
            0 <= width,
    ;
    let q = i / 4;
    lemma_fundamental_div_mod(i, 4);
    lemma_fundamental_div_mod(q, width);
    assert(width * (q / width) == (q / width) * width) by (nonlinear_arith);
    assert(0 <= q < width * height);
    assert(q / width < height) by (nonlinear_arith)
        requires
            q == width * (q / width) + q % width,
            0 <= q % width,
            q < width * height,
            width > 0,
    ;
    assert(0 <= q / width) by (nonlinear_arith)
        requires
            0 <= q,
            width > 0,
    ;
}

/// A built image has, at each place inside, the channel that it was built from.
pub proof fn lemma_build_channel(
    width: u32,
    height: u32,
    f: spec_fn(int, int, int) -> u8,
    x: int,
    y: int,
    c: int,
)
    requires
        0 <= x < width,
        0 <= y < height,
        0 <= c < 4,
    ensures
        Picture::build(width, height, f).channel(x, y, c) == f(x, y, c),
{
    lemma_place(width as int, height as int, x, y, c);
}

/// A built image is well formed.
pub proof fn lemma_build_wf(width: u32, height: u32, f: spec_fn(int, int, int) -> u8)
    ensures
        Picture::build(width, height, f).wf(),
{
    assert(0 <= width * height) by (nonlinear_arith)
        requires
            0 <= width,
            0 <= height,
    ;
}

/// Two images of one size that agree in every channel are the same image.
pub proof fn lemma_same_channels(a: Picture, b: Picture)
    requires
        a.wf(),
        b.wf(),
        a.width == b.width,
        a.height == b.height,
        forall|x: int, y: int, c: int|
            a.inside(x, y, c) ==> #[trigger] a.channel(x, y, c) == b.channel(x, y, c),
    ensures
        a == b,
{
    assert forall|i: int| 0 <= i < a.pixels.len() implies a.pixels[i] == b.pixels[i] by {
        lemma_coordinates(a.width as int, a.height as int, i);
        let x = (i / 4) % (a.width as int);
        let y = (i / 4) / (a.width as int);
        let c = i % 4;
        assert(a.inside(x, y, c));
        assert(a.channel(x, y, c) == b.channel(x, y, c));
    }
    assert(a.pixels =~= b.pixels);
}

/// What a crop shows at a column and a row is what the image shows that many columns and rows from
/// the corner at which the crop begins.
pub proof fn law_crop_shows_the_part(
    picture: Picture,
    x1: u32,
    y1: u32,
    x2: u32,
    y2: u32,
    x: int,
    y: int,
    c: int,
)
    requires
        picture.wf(),
        x1 <= x1 + x < x2 <= picture.width,
        y1 <= y1 + y < y2 <= picture.height,
        0 <= c < 4,
    ensures
        picture.cropped(x1, y1, x2, y2).width == x2 - x1,
        picture.cropped(x1, y1, x2, y2).height == y2 - y1,
        picture.cropped(x1, y1, x2, y2).pixels[4 * (y * (x2 - x1) + x) + c] == picture.pixels[4 * ((
        y1 + y) * picture.width + (x1 + x)) + c],
{
    let f = |x: int, y: int, c: int| picture.channel(x1 + x, y1 + y, c);
    lemma_build_channel((x2 - x1) as u32, (y2 - y1) as u32, f, x, y, c);
}

/// What stands in a column of an image stands, once it is mirrored left to right, as far from the
/// other side in the same row.
pub proof fn law_flip_h_swaps_columns(picture: Picture, x: int, y: int, c: int)
    requires
        picture.wf(),
        picture.inside(x, y, c),
    ensures
        picture.flipped_h().width == picture.width,
        picture.flipped_h().height == picture.height,
        picture.flipped_h().pixels[4 * (y * picture.width + (picture.width - 1 - x)) + c]
            == picture.pixels[4 * (y * picture.width + x) + c],
{
    let f = |x: int, y: int, c: int| picture.channel(picture.width - 1 - x, y, c);
    lemma_build_channel(picture.width, picture.height, f, picture.width - 1 - x, y, c);
}

/// What stands in a row of an image stands, once it is mirrored top to bottom, as far from the other
/// end in the same column.
pub proof fn law_flip_v_swaps_rows(picture: Picture, x: int, y: int, c: int)
    requires
        picture.wf(),
        picture.inside(x, y, c),
    ensures
        picture.flipped_v().width == picture.width,
        picture.flipped_v().height == picture.height,
        picture.flipped_v().pixels[4 * ((picture.height - 1 - y) * picture.width + x) + c]
            == picture.pixels[4 * (y * picture.width + x) + c],
{
    let f = |x: int, y: int, c: int| picture.channel(x, picture.height - 1 - y, c);
    lemma_build_channel(picture.width, picture.height, f, x, picture.height - 1 - y, c);
}

/// Mirroring an image left to right and then left to right again gives it back.
pub proof fn law_flip_h_twice(picture: Picture)
    requires
        picture.wf(),
    ensures
        picture.flipped_h().flipped_h() == picture,
{
    let once = picture.flipped_h();
    let f = |x: int, y: int, c: int| picture.channel(picture.width - 1 - x, y, c);
    let g = |x: int, y: int, c: int| once.channel(once.width - 1 - x, y, c);
    lemma_build_wf(picture.width, picture.height, f);
    lemma_build_wf(picture.width, picture.height, g);
    assert forall|x: int, y: int, c: int|
        once.flipped_h().inside(x, y, c) implies #[trigger] once.flipped_h().channel(x, y, c)
        == picture.channel(x, y, c) by {
        lemma_build_channel(picture.width, picture.height, g, x, y, c);
        lemma_build_channel(picture.width, picture.height, f, picture.width - 1 - x, y, c);
    }
    lemma_same_channels(once.flipped_h(), picture);
}

/// Mirroring an image top to bottom and then top to bottom again gives it back.
pub proof fn law_flip_v_twice(picture: Picture)
    requires
        picture.wf(),
    ensures
        picture.flipped_v().flipped_v() == picture,
{
    let once = picture.flipped_v();
    let f = |x: int, y: int, c: int| picture.channel(x, picture.height - 1 - y, c);
    let g = |x: int, y: int, c: int| once.channel(x, once.height - 1 - y, c);
    lemma_build_wf(picture.width, picture.height, f);
    lemma_build_wf(picture.width, picture.height, g);
    assert forall|x: int, y: int, c: int|
        once.flipped_v().inside(x, y, c) implies #[trigger] once.flipped_v().channel(x, y, c)
        == picture.channel(x, y, c) by {
        lemma_build_channel(picture.width, picture.height, g, x, y, c);
        lemma_build_channel(picture.width, picture.height, f, x, picture.height - 1 - y, c);
    }
    lemma_same_channels(once.flipped_v(), picture);
}

/// The two mirrorings can be done in either order.
pub proof fn law_flips_commute(picture: Picture)
    requires
        picture.wf(),
    ensures
        picture.flipped_h().flipped_v() == picture.flipped_v().flipped_h(),
{
    let h = picture.flipped_h();
    let v = picture.flipped_v();
    let fh = |x: int, y: int, c: int| picture.channel(picture.width - 1 - x, y, c);
    let fv = |x: int, y: int, c: int| picture.channel(x, picture.height - 1 - y, c);
    let fhv = |x: int, y: int, c: int| h.channel(x, h.height - 1 - y, c);
    let fvh = |x: int, y: int, c: int| v.channel(v.width - 1 - x, y, c);
    lemma_build_wf(picture.width, picture.height, fhv);
    lemma_build_wf(picture.width, picture.height, fvh);
    assert forall|x: int, y: int, c: int|
        h.flipped_v().inside(x, y, c) implies #[trigger] h.flipped_v().channel(x, y, c)
        == v.flipped_h().channel(x, y, c) by {
        lemma_build_channel(picture.width, picture.height, fhv, x, y, c);
        lemma_build_channel(picture.width, picture.height, fvh, x, y, c);
        lemma_build_channel(picture.width, picture.height, fh, x, picture.height - 1 - y, c);
        lemma_build_channel(picture.width, picture.height, fv, picture.width - 1 - x, y, c);
    }
    lemma_same_channels(h.flipped_v(), v.flipped_h());
}

/// Cropping an image to its own bounds gives it back.
pub proof fn law_crop_to_own_bounds(picture: Picture)
    requires
        picture.wf(),
    ensures
        picture.cropped(0, 0, picture.width, picture.height) == picture,
{
    let f = |x: int, y: int, c: int| picture.channel(0u32 + x, 0u32 + y, c);
    lemma_build_wf(picture.width, picture.height, f);
    let whole = picture.cropped(0, 0, picture.width, picture.height);
    assert forall|x: int, y: int, c: int|
        whole.inside(x, y, c) implies #[trigger] whole.channel(x, y, c) == picture.channel(
        x,
        y,
        c,
    ) by {
        lemma_build_channel(picture.width, picture.height, f, x, y, c);
    }
    lemma_same_channels(whole, picture);
}

/// Cropping a cropped image is one crop, at the places moved by the first corner.
pub proof fn law_crop_of_crop(
    picture: Picture,
    x1: u32,
    y1: u32,
    x2: u32,
    y2: u32,
    a1: u32,
    b1: u32,
    a2: u32,
    b2: u32,
)
    requires
        picture.wf(),
        x1 <= x2 <= picture.width,
        y1 <= y2 <= picture.height,
        a1 <= a2 <= x2 - x1,
        b1 <= b2 <= y2 - y1,
    ensures
        picture.cropped(x1, y1, x2, y2).cropped(a1, b1, a2, b2) == picture.cropped(
            (x1 + a1) as u32,
            (y1 + b1) as u32,
            (x1 + a2) as u32,
            (y1 + b2) as u32,
        ),
{
    let outer = picture.cropped(x1, y1, x2, y2);
    let inner = outer.cropped(a1, b1, a2, b2);
    let direct = picture.cropped(
        (x1 + a1) as u32,
        (y1 + b1) as u32,
        (x1 + a2) as u32,
        (y1 + b2) as u32,
    );
    let f = |x: int, y: int, c: int| picture.channel(x1 + x, y1 + y, c);
    let g = |x: int, y: int, c: int| outer.channel(a1 + x, b1 + y, c);
    let d = |x: int, y: int, c: int|
        picture.channel(((x1 + a1) as u32) + x, ((y1 + b1) as u32) + y, c);
    let w = (a2 - a1) as u32;
    let h = (b2 - b1) as u32;
    lemma_build_wf(w, h, g);
    lemma_build_wf(w, h, d);
    assert forall|x: int, y: int, c: int| inner.inside(x, y, c) implies #[trigger] inner.channel(
        x,
        y,
        c,
    ) == direct.channel(x, y, c) by {
        lemma_build_channel(w, h, g, x, y, c);
        lemma_build_channel(w, h, d, x, y, c);
        lemma_build_channel((x2 - x1) as u32, (y2 - y1) as u32, f, a1 + x, b1 + y, c);
    }
    lemma_same_channels(inner, direct);
}

} // verus!
