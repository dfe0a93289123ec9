//! Decoded pictures: packing a frame's rows of pixels and shrinking a picture to
//! a thumbnail.

use vstd::prelude::*;

verus! {

/// Bytes per pixel in a frame's packed rows.
pub const RGBA_BYTES: usize = 4;

/// A colour with its channels already multiplied by its alpha.
#[derive(Clone, Copy, PartialEq, Eq, Structural, Debug)]
pub struct Color32 {
    pub r: u8,
    pub g: u8,
    pub b: u8,
    pub a: u8,
}

/// A picture, `size` wide and high, row by row.
#[derive(Debug)]
pub struct ColorImage {
    pub size: [usize; 2],
    pub pixels: Vec<Color32>,
}

impl ColorImage {
    /// Pixels across.
    pub open spec fn width(self) -> int {
        self.size@[0] as int
    }

    /// Pixels down.
    pub open spec fn height(self) -> int {
        self.size@[1] as int
    }

    /// Whether there is exactly one pixel for each place.
    pub open spec fn wf(self) -> bool {
        self.pixels@.len() == self.width() * self.height()
    }

    /// The pixel at column `x` of row `y`.
    pub open spec fn at(self, x: int, y: int) -> Color32 {
        self.pixels@[y * self.width() + x]
    }
}

/// Whether `c` is what the straight colour `r`, `g`, `b`, `a` becomes: alpha is
/// kept, an opaque colour is kept whole, an invisible one loses its colour. In
/// between, a channel that is dark stays dark, and channels that are alike stay
/// alike.
pub open spec fn premultiplies(r: u8, g: u8, b: u8, a: u8, c: Color32) -> bool {
    &&& c.a == a
    &&& a == 255 ==> c == Color32 { r, g, b, a }
    &&& a == 0 ==> c == Color32 { r: 0, g: 0, b: 0, a: 0 }
    &&& r == 0 ==> c.r == 0
    &&& g == 0 ==> c.g == 0
    &&& b == 0 ==> c.b == 0
    &&& r == g ==> c.r == c.g
    &&& g == b ==> c.g == c.b
    &&& r == b ==> c.r == c.b
}

/// `egui::Color32::from_rgba_unmultiplied`: alpha is kept, an opaque colour
/// comes back as it is, and a fully transparent one as all zeros. Each channel of
/// another is looked up in one table by itself and alpha, which holds zero for
/// zero; what else it holds is left unsaid, since egui works it out with the
/// machine's own power function.
#[verifier::external_body]
fn from_rgba_unmultiplied(r: u8, g: u8, b: u8, a: u8) -> (c: Color32)
    ensures
        premultiplies(r, g, b, a, c),
{
    let [r, g, b, a] = egui::Color32::from_rgba_unmultiplied(r, g, b, a).to_array();
    Color32 { r, g, b, a }
}

/// Whether a buffer of `len` bytes holds `h` rows of `w` pixels, `stride` bytes
/// apart.
pub open spec fn rows_fit(w: int, h: int, stride: int, len: int) -> bool {
    h > 0 ==> (h - 1) * stride + w * 4 <= len
}

/// Whether `c` is the pixel at column `x` of row `y` of a packed frame.
pub open spec fn is_frame_pixel(data: Seq<u8>, stride: int, x: int, y: int, c: Color32) -> bool {
    let i = y * stride + x * 4;
    premultiplies(data[i], data[i + 1], data[i + 2], data[i + 3], c)
}

/// Packs the rows of an RGBA frame, `stride` bytes apart in `data`, into a picture.
pub fn to_image(width: u32, height: u32, stride: usize, data: &[u8]) -> (image: ColorImage)
    requires
        rows_fit(width as int, height as int, stride as int, data@.len() as int),
        width * height <= usize::MAX,
        width * 4 <= usize::MAX,
    ensures
        image.wf(),
        image.width() == width,
        image.height() == height,
        forall|x: int, y: int|
            0 <= x < width && 0 <= y < height ==> is_frame_pixel(
                data@,
                stride as int,
                x,
                y,
                #[trigger] image.at(x, y),
            ),
{
    let w: usize = width as usize;
    let h: usize = height as usize;
    let len: usize = data.len();
    let mut pixels: Vec<Color32> = Vec::new();
    let mut y: usize = 0;
    while y < h
        invariant
            y <= h,
            len == data@.len(),
            w == width,
            h == height,
            rows_fit(w as int, h as int, stride as int, data@.len() as int),
            w * 4 <= usize::MAX,
            pixels@.len() == y * w,
            forall|i: int, j: int|
                0 <= i < w && 0 <= j < y ==> is_frame_pixel(
                    data@,
                    stride as int,
                    i,
                    j,
                    #[trigger] pixels@[j * w + i],
                ),
        decreases h - y,
    {
        assert(y * stride <= (h - 1) * stride) by (nonlinear_arith)
            requires
                y <= h - 1,
                stride >= 0,
        ;
        let row: usize = y * stride;
        let mut x: usize = 0;
        while x < w
            invariant
                x <= w,
                y < h,
                w * 4 <= usize::MAX,
                row == y * stride,
                len == data@.len(),
                row + w * 4 <= len,
                pixels@.len() == y * w + x,
                forall|i: int, j: int|
                    0 <= i < w && 0 <= j < y ==> is_frame_pixel(
                        data@,
                        stride as int,
                        i,
                        j,
                        #[trigger] pixels@[j * w + i],
                    ),
                forall|i: int|
                    0 <= i < x ==> is_frame_pixel(
                        data@,
                        stride as int,
                        i,
                        y as int,
                        #[trigger] pixels@[y * w + i],
                    ),
            decreases w - x,
        {
            let i: usize = row + x * RGBA_BYTES;
            let c = from_rgba_unmultiplied(data[i], data[i + 1], data[i + 2], data[i + 3]);
            let ghost before = pixels@;
            pixels.push(c);
            proof {
                assert forall|a: int, j: int| 0 <= a < w && 0 <= j < y implies is_frame_pixel(
                    data@,
                    stride as int,
                    a,
                    j,
                    #[trigger] pixels@[j * w + a],
                ) by {
                    lemma_place(a, j, w as int, y as int);
                    assert(pixels@[j * w + a] == before[j * w + a]);
                }
            }
            x = x + 1;
        }
        proof {
            assert((y + 1) * w == y * w + w) by (nonlinear_arith);
            assert forall|a: int, j: int| 0 <= a < w && 0 <= j < y + 1 implies is_frame_pixel(
                data@,
                stride as int,
                a,
                j,
                #[trigger] pixels@[j * w + a],
            ) by {
                if j == y {
                    assert(pixels@[y * w + a] == pixels@[j * w + a]);
                }
            }
        }
        y = y + 1;
    }
    let image = ColorImage { size: [w, h], pixels };
    assert(h * w == w * h) by (nonlinear_arith);
    image
}

/// A place in a row before row `rows` comes before every place of that row.
proof fn lemma_place(x: int, y: int, w: int, rows: int)
    requires
        0 <= x < w,
        0 <= y < rows,
    ensures
        0 <= y * w + x < rows * w,
{
    assert(y * w + x < rows * w) by (nonlinear_arith)
        requires
            0 <= x < w,
            0 <= y < rows,
    ;
    assert(0 <= y * w) by (nonlinear_arith)
        requires
            0 <= w,
            0 <= y,
    ;
}

/// Whether a picture is wide enough to be shrunk to `max_w` across.
pub open spec fn shrinks(img: ColorImage, max_w: int) -> bool {
    img.width() > max_w && img.height() > 0
}

/// The height that keeps the picture's shape at `max_w` across, at least one row.
pub open spec fn thumb_height(img: ColorImage, max_w: int) -> int {
    let h = img.height() * max_w / img.width();
    if h < 1 {
        1
    } else {
        h
    }
}

/// Nearest-neighbour downscale to `max_w` wide, preserving aspect ratio. A
/// picture no wider than that comes back as it is.
pub fn downscale_thumb(img: &ColorImage, max_w: usize) -> (out: ColorImage)
    requires
        img.wf(),
        shrinks(*img, max_w as int) ==> {
            &&& (thumb_height(*img, max_w as int) - 1) * img.height() <= usize::MAX
            &&& (max_w - 1) * img.width() <= usize::MAX
        },
    ensures
        out.wf(),
        !shrinks(*img, max_w as int) ==> out.size@ == img.size@ && out.pixels@ == img.pixels@,
        shrinks(*img, max_w as int) ==> {
            &&& out.width() == max_w
            &&& out.height() == thumb_height(*img, max_w as int)
            &&& forall|x: int, y: int|
                0 <= x < out.width() && 0 <= y < out.height() ==> #[trigger] out.at(x, y) == img.at(
                    x * img.width() / out.width(),
                    y * img.height() / out.height(),
                )
        },
{
    let w: usize = img.size[0];
    let h: usize = img.size[1];
    if w == 0 || h == 0 || w <= max_w {
        let out = ColorImage { size: [w, h], pixels: img.pixels.clone() };
        assert(out.pixels@ == img.pixels@);
        assert(out.size@ == img.size@);
        return out;
    }
    let new_w: usize = max_w;
    assert(0 <= h * max_w <= w * h) by (nonlinear_arith)
        requires
            0 <= max_w <= w,
            0 <= h,
    ;
    let total: usize = img.pixels.len();
    let scaled: usize = h * max_w / w;
    let new_h: usize = if scaled < 1 {
        1
    } else {
        scaled
    };
    assert(h * max_w / (w as int) <= h) by (nonlinear_arith)
        requires
            0 <= max_w <= w,
            0 < w,
            0 <= h,
    ;
    let mut pixels: Vec<Color32> = Vec::new();
    let mut y: usize = 0;
    while y < new_h
        invariant
            y <= new_h,
            1 <= new_h <= h,
            new_w == max_w,
            max_w < w,
            img.wf(),
            total == img.pixels@.len(),
            w == img.width(),
            h == img.height(),
            (new_h - 1) * h <= usize::MAX,
            (max_w - 1) * w <= usize::MAX,
            pixels@.len() == y * new_w,
            forall|i: int, j: int|
                0 <= i < new_w && 0 <= j < y ==> #[trigger] pixels@[j * new_w + i] == img.at(
                    i * w / (new_w as int),
                    j * h / (new_h as int),
                ),
        decreases new_h - y,
    {
        assert(0 <= y * h <= (new_h - 1) * h) by (nonlinear_arith)
            requires
                0 <= y <= new_h - 1,
                0 <= h,
        ;
        let sy: usize = y * h / new_h;
        assert(y * h / (new_h as int) <= h - 1) by (nonlinear_arith)
            requires
                0 <= y < new_h,
                0 < h,
        ;
        assert(0 <= sy * w && sy * w + w <= w * h) by (nonlinear_arith)
            requires
                0 <= sy <= h - 1,
                0 <= w,
        ;
        let mut x: usize = 0;
        while x < new_w
            invariant
                x <= new_w,
                y < new_h,
                new_w == max_w,
                max_w < w,
                img.wf(),
                total == img.pixels@.len(),
                w == img.width(),
                h == img.height(),
                sy == y * h / (new_h as int),
                0 <= sy * w,
                sy * w + w <= w * h,
                (max_w - 1) * w <= usize::MAX,
                pixels@.len() == y * new_w + x,
                forall|i: int, j: int|
                    0 <= i < new_w && 0 <= j < y ==> #[trigger] pixels@[j * new_w + i] == img.at(
                        i * w / (new_w as int),
                        j * h / (new_h as int),
                    ),
                forall|i: int|
                    0 <= i < x ==> #[trigger] pixels@[y * new_w + i] == img.at(
                        i * w / (new_w as int),
                        y * h / (new_h as int),
                    ),
            decreases new_w - x,
        {
            assert(0 <= x * w <= (max_w - 1) * w) by (nonlinear_arith)
                requires
                    0 <= x <= max_w - 1,
                    0 <= w,
            ;
            assert(0 <= x * w / (new_w as int) <= w - 1) by (nonlinear_arith)
                requires
                    0 <= x < new_w,
                    0 < w,
            ;
            let sx: usize = x * w / new_w;
            let c = img.pixels[sy * w + sx];
            let ghost before = pixels@;
            pixels.push(c);
            proof {
                assert forall|a: int, j: int| 0 <= a < new_w && 0 <= j < y implies
                    #[trigger] pixels@[j * new_w + a] == img.at(
                    a * w / (new_w as int),
                    j * h / (new_h as int),
                ) by {
                    lemma_place(a, j, new_w as int, y as int);
                    assert(pixels@[j * new_w + a] == before[j * new_w + a]);
                }
            }
            x = x + 1;
        }
        proof {
            assert((y + 1) * new_w == y * new_w + new_w) by (nonlinear_arith);
            assert forall|a: int, j: int| 0 <= a < new_w && 0 <= j < y + 1 implies
                #[trigger] pixels@[j * new_w + a] == img.at(
                a * w / (new_w as int),
                j * h / (new_h as int),
            ) by {
                if j == y {
                    assert(pixels@[y * new_w + a] == pixels@[j * new_w + a]);
                }
            }
        }
        y = y + 1;
    }
    let out = ColorImage { size: [new_w, new_h], pixels };
    assert(new_h * new_w == new_w * new_h) by (nonlinear_arith);
    out
}

/// A thumbnail is never wider or higher than the picture it was made from.
pub proof fn law_thumb_never_grows(img: ColorImage, max_w: int)
    requires
        img.wf(),
        max_w >= 0,
        shrinks(img, max_w),
    ensures
        max_w < img.width(),
        thumb_height(img, max_w) <= img.height(),
{
    let h = img.height();
    let w = img.width();
    assert(h * max_w / (w as int) <= h) by (nonlinear_arith)
        requires
            0 <= max_w <= w,
            0 < w,
            0 <= h,
    ;
}

/// An opaque pixel of a frame keeps its three colours, each from its own byte, and an
/// invisible one has none.
pub proof fn law_opaque_pixels_keep_their_colour(
    data: Seq<u8>,
    stride: int,
    x: int,
    y: int,
    c: Color32,
)
    requires
        is_frame_pixel(data, stride, x, y, c),
    ensures
        ({
            let at = y * stride + x * 4;
            &&& c.a == data[at + 3]
            &&& c.a == 255 ==> c.r == data[at] && c.g == data[at + 1] && c.b == data[at + 2]
            &&& c.a == 0 ==> c.r == 0 && c.g == 0 && c.b == 0
        }),
{
}

/// A picture is shrunk just when it is wider than asked and has a row, and then keeps its
/// shape: as many rows as the width asked for has room for, and at least one.
pub proof fn law_thumb_keeps_the_shape(img: ColorImage, max_w: int)
    requires
        img.wf(),
        max_w >= 0,
    ensures
        shrinks(img, max_w) <==> img.width() > max_w && img.height() > 0,
        shrinks(img, max_w) ==> {
            let rows = thumb_height(img, max_w);
            &&& rows >= 1
            &&& rows > 1 ==> rows * img.width() <= img.height() * max_w
            &&& img.height() * max_w < (rows + 1) * img.width()
        },
{
    if shrinks(img, max_w) {
        let n = img.height() * max_w;
        let w = img.width();
        let q = n / w;
        assert(q * w <= n < (q + 1) * w) by (nonlinear_arith)
            requires
                q == n / w,
                w > 0,
        ;
        if q < 1 {
            assert((q + 1) * w <= 2 * w) by (nonlinear_arith)
                requires
                    q < 1,
                    w > 0,
            ;
        }
    }
}

/// A picture has a pixel for each place, row by row from the top, each row from the left.
pub proof fn law_pixels_come_row_by_row(img: ColorImage, x: int, y: int)
    requires
        img.wf(),
        0 <= x < img.size@[0],
        0 <= y < img.size@[1],
    ensures
        0 <= y * img.size@[0] + x < img.pixels@.len(),
        img.at(x, y) == img.pixels@[y * img.size@[0] + x],
{
    lemma_place(x, y, img.width(), img.height());
    assert(img.height() * img.width() == img.width() * img.height()) by (nonlinear_arith);
}

} // verus!
