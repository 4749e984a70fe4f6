use vstd::prelude::*;

verus! {

/// An RGBA8 pixel packed as `r | g << 8 | b << 16 | a << 24`, so its alpha is
/// zero exactly when the value is below `1 << 24`.
pub open spec fn is_opaque(p: u32) -> bool {
    p >= 0x0100_0000
}

/// A fully transparent pixel.
pub const TRANSPARENT: u32 = 0;

/// What a bitmap holds: its size and its pixels, row after row.
pub struct BitmapView {
    pub width: nat,
    pub height: nat,
    pub pixels: Seq<u32>,
}

/// The pixel at column `x` of row `y`.
pub open spec fn pixel(b: BitmapView, x: int, y: int) -> u32 {
    b.pixels[y * b.width + x]
}

/// Whether `(x, y)` lies in the bitmap and holds a pixel that is not fully transparent.
pub open spec fn opaque_at(b: BitmapView, x: int, y: int) -> bool {
    0 <= x < b.width && 0 <= y < b.height && is_opaque(pixel(b, x, y))
}

/// A bitmap of RGBA8 pixels, row after row.
pub struct Bitmap {
    pub width: u32,
    pub height: u32,
    pub pixels: Vec<u32>,
}

impl View for Bitmap {
    type V = BitmapView;

    open spec fn view(&self) -> BitmapView {
        BitmapView { width: self.width as nat, height: self.height as nat, pixels: self.pixels@ }
    }
}

impl Bitmap {
    /// The pixel buffer holds one pixel per column of each row.
    pub open spec fn wf(&self) -> bool {
        self.pixels@.len() == self.width as nat * self.height as nat
    }
}

/// A pixel inside a `w` by `h` bitmap has its index inside the buffer.
pub proof fn lemma_pixel_index(x: int, y: int, w: int, h: int)
    requires
        0 <= x < w,
        0 <= y < h,
    ensures
        0 <= y * w + x < w * h,
        y * w + x + 1 <= w * h,
{
    assert(0 <= y * w) by (nonlinear_arith)
        requires
            0 <= y,
            0 <= w,
    ;
    assert(y * w + w <= h * w) by (nonlinear_arith)
        requires
            y + 1 <= h,
            0 <= w,
    ;
    assert(h * w == w * h) by (nonlinear_arith);
}

/// Relies on image::ImageBuffer::from_raw, image::imageops::crop_imm and
/// SubImage::to_image: for a rectangle inside the image, the result holds that
/// rectangle, pixel for pixel.
#[verifier::external_body]
pub(crate) fn crop(img: &Bitmap, x: u32, y: u32, width: u32, height: u32) -> (r: Bitmap)
    requires
        img.wf(),
        x + width <= img.width,
        y + height <= img.height,
    ensures
        r.wf(),
        r.width == width,
        r.height == height,
        forall|i: int, j: int|
            0 <= i < width && 0 <= j < height ==> #[trigger] pixel(r@, i, j) == pixel(
                img@,
                x + i,
                y + j,
            ),
{
    let bytes: Vec<u8> = img.pixels.iter().flat_map(|p| p.to_le_bytes()).collect();
    let buf = image::RgbaImage::from_raw(img.width, img.height, bytes).unwrap();
    let out = image::imageops::crop_imm(&buf, x, y, width, height).to_image();
    let (w, h) = out.dimensions();
    let raw = out.into_raw();
    let pixels = raw.chunks_exact(4).map(|c| u32::from_le_bytes([c[0], c[1], c[2], c[3]])).collect();
    Bitmap { width: w, height: h, pixels }
}

} // verus!
