use vstd::prelude::*;

verus! {

/// Offset of the first byte of pixel `(x, y)` in a row-major RGBA buffer
/// whose rows are `width` pixels long.
pub open spec fn pixel_offset(width: int, x: int, y: int) -> int {
    (y * width + x) * 4
}

/// A fixed-size RGBA8 pixel buffer: row-major, top-left origin, four bytes
/// per pixel.
pub struct Image {
    width: usize,
    height: usize,
    pixels: Vec<u8>,
}

impl Image {
    pub closed spec fn spec_width(&self) -> nat {
        self.width as nat
    }

    pub closed spec fn spec_height(&self) -> nat {
        self.height as nat
    }

    pub closed spec fn spec_pixels(&self) -> Seq<u8> {
        self.pixels@
    }

    /// The buffer holds exactly four bytes for every pixel, and its length
    /// fits in `usize`.
    pub open spec fn wf(&self) -> bool {
        &&& self.spec_pixels().len() == self.spec_width() * self.spec_height() * 4
        &&& self.spec_width() * self.spec_height() * 4 <= usize::MAX
    }

    /// The four bytes of pixel `(x, y)`.
    pub open spec fn pixel(&self, x: int, y: int) -> Seq<u8> {
        let i = pixel_offset(self.spec_width() as int, x, y);
        self.spec_pixels().subrange(i, i + 4)
    }

    /// A `width` by `height` image with every byte zero.
    pub fn new(width: usize, height: usize) -> (r: Image)
        requires
            width * height * 4 <= usize::MAX,
        ensures
            r.wf(),
            r.spec_width() == width,
            r.spec_height() == height,
            r.spec_pixels() == Seq::new((width * height * 4) as nat, |i: int| 0u8),
    {
        assert(width * height <= usize::MAX) by (nonlinear_arith)
            requires
                width * height * 4 <= usize::MAX,
        ;
        let len: usize = width * height * 4;
        let pixels: Vec<u8> = vec![0u8; len];
        let r = Image { width, height, pixels };
        assert(r.spec_pixels() =~= Seq::new((width * height * 4) as nat, |i: int| 0u8));
        r
    }

    pub fn width(&self) -> (r: usize)
        ensures
            r == self.spec_width(),
    {
        self.width
    }

    pub fn height(&self) -> (r: usize)
        ensures
            r == self.spec_height(),
    {
        self.height
    }

    /// The bytes of the buffer, for the host to read.
    pub fn pixels(&self) -> (r: &[u8])
        ensures
            r@ == self.spec_pixels(),
    {
        self.pixels.as_slice()
    }

    /// Writes the colour `(red, green, blue)` at pixel `(x, y)`, fully opaque.
    pub fn draw(&mut self, x: usize, y: usize, red: u8, green: u8, blue: u8)
        requires
            old(self).wf(),
            x < old(self).spec_width(),
            y < old(self).spec_height(),
        ensures
            final(self).wf(),
            final(self).spec_width() == old(self).spec_width(),
            final(self).spec_height() == old(self).spec_height(),
            ({
                let i = pixel_offset(old(self).spec_width() as int, x as int, y as int);
                final(self).spec_pixels() == old(self).spec_pixels().update(i, red).update(
                    i + 1,
                    green,
                ).update(i + 2, blue).update(i + 3, 255u8)
            }),
            final(self).pixel(x as int, y as int) == seq![red, green, blue, 255u8],
            forall|x2: int, y2: int|
                0 <= x2 < old(self).spec_width() && 0 <= y2 < old(self).spec_height() && (x2
                    != x || y2 != y) ==> #[trigger] final(self).pixel(x2, y2) == old(self).pixel(
                    x2,
                    y2,
                ),
    {
        proof {
            lemma_pixel_in_buffer(self.width as int, self.height as int, x as int, y as int);
        }
        let i: usize = (y * self.width + x) * 4;
        self.pixels.set(i, red);
        self.pixels.set(i + 1, green);
        self.pixels.set(i + 2, blue);
        self.pixels.set(i + 3, 255u8);
        proof {
            let w = self.width as int;
            let h = self.height as int;
            assert(self.pixel(x as int, y as int) =~= seq![red, green, blue, 255u8]);
            assert forall|x2: int, y2: int|
                0 <= x2 < w && 0 <= y2 < h && (x2 != x || y2 != y) implies #[trigger] self.pixel(
                x2,
                y2,
            ) == old(self).pixel(x2, y2) by {
                lemma_pixels_apart(w, h, x as int, y as int, x2, y2);
                lemma_pixel_in_buffer(w, h, x2, y2);
                assert(self.pixel(x2, y2) =~= old(self).pixel(x2, y2));
            }
        }
    }

    /// The colour stored at pixel `(x, y)`.
    pub open spec fn colour_at(&self, x: int, y: int) -> (u8, u8, u8) {
        let p = self.pixel(x, y);
        (p[0], p[1], p[2])
    }

    /// Pixel `(x, y)` is fully opaque and holds a colour that `shade` gives
    /// for it.
    pub open spec fn shows_at<F: Fn(usize, usize) -> (u8, u8, u8)>(
        &self,
        shade: F,
        x: usize,
        y: usize,
    ) -> bool {
        &&& shade.ensures((x, y), self.colour_at(x as int, y as int))
        &&& self.pixel(x as int, y as int)[3] == 255u8
    }

    /// Every pixel shows what `shade` gives for it.
    pub open spec fn shows<F: Fn(usize, usize) -> (u8, u8, u8)>(&self, shade: F) -> bool {
        forall|x: usize, y: usize|
            x < self.spec_width() && y < self.spec_height() ==> #[trigger] self.shows_at(
                shade,
                x,
                y,
            )
    }

    /// Fills the image in row-major order, each pixel with the colour that
    /// `shade` gives for its coordinates.
    pub fn render<F: Fn(usize, usize) -> (u8, u8, u8)>(&mut self, shade: F)
        requires
            old(self).wf(),
            forall|x: usize, y: usize|
                x < old(self).spec_width() && y < old(self).spec_height() ==> shade.requires(
                    (x, y),
                ),
        ensures
            final(self).wf(),
            final(self).spec_width() == old(self).spec_width(),
            final(self).spec_height() == old(self).spec_height(),
            final(self).shows(shade),
    {
        let width = self.width;
        let height = self.height;
        let mut y: usize = 0;
        while y < height
            invariant
                self.wf(),
                self.width == width,
                self.height == height,
                y <= height,
                forall|x: usize, y: usize| x < width && y < height ==> shade.requires((x, y)),
                forall|x2: usize, y2: usize|
                    x2 < width && y2 < y ==> #[trigger] self.shows_at(shade, x2, y2),
            decreases height - y,
        {
            let mut x: usize = 0;
            while x < width
                invariant
                    self.wf(),
                    self.width == width,
                    self.height == height,
                    x <= width,
                    y < height,
                    forall|x: usize, y: usize| x < width && y < height ==> shade.requires((x, y)),
                    forall|x2: usize, y2: usize|
                        x2 < width && (y2 < y || (y2 == y && x2 < x)) ==> #[trigger] self.shows_at(
                            shade,
                            x2,
                            y2,
                        ),
                decreases width - x,
            {
                let c = shade(x, y);
                let ghost before = *self;
                self.draw(x, y, c.0, c.1, c.2);
                assert forall|x2: usize, y2: usize|
                    x2 < width && (y2 < y || (y2 == y && x2 < x + 1)) implies #[trigger] self.shows_at(
                    shade,
                    x2,
                    y2,
                ) by {
                    if x2 != x || y2 != y {
                        assert(before.shows_at(shade, x2, y2));
                        assert(self.pixel(x2 as int, y2 as int) == before.pixel(x2 as int, y2 as int));
                    }
                }
                x = x + 1;
            }
            y = y + 1;
        }
    }
}

/// Rendering keeps nothing of what the buffer held before: two images of one
/// size that both show a shader which gives one colour per pixel hold the
/// same bytes. Rendering a fixed scene twice at one size thus gives
/// byte-identical buffers.
pub proof fn lemma_render_deterministic<F: Fn(usize, usize) -> (u8, u8, u8)>(
    a: Image,
    b: Image,
    shade: F,
)
    requires
        a.wf(),
        b.wf(),
        a.spec_width() == b.spec_width(),
        a.spec_height() == b.spec_height(),
        a.shows(shade),
        b.shows(shade),
        forall|x: usize, y: usize, c1: (u8, u8, u8), c2: (u8, u8, u8)|
            shade.ensures((x, y), c1) && shade.ensures((x, y), c2) ==> c1 == c2,
    ensures
        a.spec_pixels() == b.spec_pixels(),
{
    let w = a.spec_width() as int;
    let h = a.spec_height() as int;
    assert forall|i: int| 0 <= i < a.spec_pixels().len() implies a.spec_pixels()[i]
        == b.spec_pixels()[i] by {
        lemma_byte_owner(w, h, i);
        let x = (i / 4) % w;
        let y = (i / 4) / w;
        assert(a.shows_at(shade, x as usize, y as usize));
        assert(b.shows_at(shade, x as usize, y as usize));
        assert(a.pixel(x, y)[i % 4] == a.spec_pixels()[i]);
        assert(b.pixel(x, y)[i % 4] == b.spec_pixels()[i]);
    }
    assert(a.spec_pixels() =~= b.spec_pixels());
}

/// Byte `i` of a `width * height * 4` buffer belongs to the pixel of linear
/// index `i / 4`.
proof fn lemma_byte_owner(width: int, height: int, i: int)
    requires
        0 <= width,
        0 <= height,
        0 <= i < width * height * 4,
    ensures
        0 < width,
        0 <= (i / 4) % width < width,
        0 <= (i / 4) / width < height,
        i == pixel_offset(width, (i / 4) % width, (i / 4) / width) + i % 4,
        0 <= i % 4 < 4,
{
    let k = i / 4;
    assert(0 < width) by (nonlinear_arith)
        requires
            0 <= width,
            0 <= height,
            0 <= i < width * height * 4,
    ;
    assert(k < width * height) by (nonlinear_arith)
        requires
            0 <= i < width * height * 4,
            k == i / 4,
    ;
    vstd::arithmetic::div_mod::lemma_fundamental_div_mod(k, width);
    vstd::arithmetic::div_mod::lemma_div_pos_is_pos(k, width);
    vstd::arithmetic::div_mod::lemma_mod_pos_bound(k, width);
    vstd::arithmetic::div_mod::lemma_multiply_divide_lt(k, width, height);
    vstd::arithmetic::div_mod::lemma_fundamental_div_mod(i, 4);
    vstd::arithmetic::mul::lemma_mul_is_commutative(width, k / width);
    assert(((k / width) * width + k % width) * 4 == k * 4);
}

/// Two different pixels of one image occupy disjoint groups of four bytes.
proof fn lemma_pixels_apart(width: int, height: int, x: int, y: int, x2: int, y2: int)
    requires
        0 <= x < width,
        0 <= y < height,
        0 <= x2 < width,
        0 <= y2 < height,
        x != x2 || y != y2,
    ensures
        pixel_offset(width, x, y) + 4 <= pixel_offset(width, x2, y2) || pixel_offset(
            width,
            x2,
            y2,
        ) + 4 <= pixel_offset(width, x, y),
{
    if y < y2 {
        assert(y * width + x < y2 * width + x2) by (nonlinear_arith)
            requires
                0 <= x < width,
                0 <= x2,
                y < y2,
        ;
    } else if y2 < y {
        assert(y2 * width + x2 < y * width + x) by (nonlinear_arith)
            requires
                0 <= x2 < width,
                0 <= x,
                y2 < y,
        ;
    }
}

/// The four bytes of a pixel lie inside a buffer of `width * height * 4`.
proof fn lemma_pixel_in_buffer(width: int, height: int, x: int, y: int)
    requires
        0 <= x < width,
        0 <= y < height,
    ensures
        0 <= y * width <= y * width + x <= pixel_offset(width, x, y),
        pixel_offset(width, x, y) + 4 <= width * height * 4,
{
    assert(y * width + x + 1 <= width * height) by (nonlinear_arith)
        requires
            0 <= x < width,
            0 <= y < height,
    ;
    assert(0 <= y * width) by (nonlinear_arith)
        requires
            0 <= x < width,
            0 <= y < height,
    ;
}

} // verus!
