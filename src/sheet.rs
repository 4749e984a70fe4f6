use vstd::prelude::*;

use crate::bitmap::{pixel, Bitmap, BitmapView};
use crate::pack::{cells_sized, sheet_holds, unpack_frames, PackedSheet};

verus! {

/// The PNG file that the `image` crate writes for a `width` by `height`
/// RGBA8 bitmap, or `None` where it refuses the image.
pub uninterp spec fn png_encoding(width: nat, height: nat, pixels: Seq<u32>) -> Option<Seq<u8>>;

/// The RGBA8 bitmap that the `image` crate reads from `bytes`, or `None`
/// where they hold no image that it can read.
pub uninterp spec fn image_decoding(bytes: Seq<u8>) -> Option<BitmapView>;

/// The standard base64 text of `bytes`, without padding.
pub uninterp spec fn base64_text(bytes: Seq<u8>) -> Seq<char>;

/// The bytes that standard base64 text without padding stands for, or `None`
/// where `text` is not such text.
pub uninterp spec fn base64_bytes(text: Seq<char>) -> Option<Seq<u8>>;

/// Relies on image::ImageBuffer::from_raw and ImageBuffer::write_to with
/// ImageOutputFormat::Png: the file depends on the bitmap alone.
#[verifier::external_body]
fn encode_png(img: &Bitmap) -> (r: Option<Vec<u8>>)
    requires
        img.wf(),
    ensures
        match r {
            Some(bytes) => png_encoding(img@.width, img@.height, img@.pixels) == Some(bytes@),
            None => png_encoding(img@.width, img@.height, img@.pixels) == None::<Seq<u8>>,
        },
{
    let raw: Vec<u8> = img.pixels.iter().flat_map(|p| p.to_le_bytes()).collect();
    let buf = image::RgbaImage::from_raw(img.width, img.height, raw).unwrap();
    let mut out = std::io::Cursor::new(Vec::new());
    match buf.write_to(&mut out, image::ImageOutputFormat::Png) {
        Ok(()) => Some(out.into_inner()),
        Err(_) => None,
    }
}

/// Relies on image::load_from_memory and DynamicImage::to_rgba8: the bitmap
/// read depends on the bytes alone and holds one pixel per column of each row.
#[verifier::external_body]
fn decode_image(bytes: &Vec<u8>) -> (r: Option<Bitmap>)
    ensures
        match r {
            Some(b) => b.wf() && image_decoding(bytes@) == Some(b@),
            None => image_decoding(bytes@) == None::<BitmapView>,
        },
{
    match image::load_from_memory(bytes) {
        Ok(img) => {
            let rgba = img.to_rgba8();
            let (width, height) = rgba.dimensions();
            let pixels = rgba.into_raw().chunks_exact(4).map(|c| u32::from_le_bytes([c[0], c[1], c[2], c[3]])).collect();
            Some(Bitmap { width, height, pixels })
        },
        Err(_) => None,
    }
}

/// Relies on base64's Engine::encode with general_purpose::STANDARD_NO_PAD.
#[verifier::external_body]
fn to_base64(bytes: &Vec<u8>) -> (r: String)
    ensures
        r@ == base64_text(bytes@),
{
    base64::Engine::encode(&base64::engine::general_purpose::STANDARD_NO_PAD, bytes)
}

/// Relies on base64's Engine::decode with general_purpose::STANDARD_NO_PAD.
#[verifier::external_body]
fn from_base64(text: &str) -> (r: Option<Vec<u8>>)
    ensures
        match r {
            Some(bytes) => base64_bytes(text@) == Some(bytes@),
            None => base64_bytes(text@) == None::<Seq<u8>>,
        },
{
    base64::Engine::decode(&base64::engine::general_purpose::STANDARD_NO_PAD, text).ok()
}

#[derive(Clone, Copy, PartialEq, Eq, Debug, Structural)]
pub enum SaveError {
    /// The PNG encoder refused the sheet.
    ImageEncoding,
}

#[derive(Clone, Copy, PartialEq, Eq, Debug, Structural)]
pub enum LoadError {
    /// The sheet text is not base64.
    BadEncoding,
    /// The sheet bytes hold no image that can be read.
    BadImage,
    /// The sheet is too small for the cells that the descriptor lays out, or
    /// the descriptor has no columns.
    BadLayout,
}

/// The text that stands for the packed sheet in a saved file: its PNG file,
/// in base64.
pub fn sheet_text(packed: &PackedSheet) -> (r: Result<String, SaveError>)
    requires
        packed.sheet.wf(),
    ensures
        match png_encoding(packed.sheet@.width, packed.sheet@.height, packed.sheet@.pixels) {
            Some(bytes) => r matches Ok(text) && text@ == base64_text(bytes),
            None => r == Err::<String, SaveError>(SaveError::ImageEncoding),
        },
{
    match encode_png(&packed.sheet) {
        Some(bytes) => Ok(to_base64(&bytes)),
        None => Err(SaveError::ImageEncoding),
    }
}

/// Cuts the frames out of a decoded sheet, after checking that the sheet
/// holds the cells that the descriptor lays out.
pub fn cut_frames(sheet: &Bitmap, cell_width: u32, cell_height: u32, columns: u32, frame_count: usize) -> (r: Result<Vec<Bitmap>, LoadError>)
    requires
        sheet.wf(),
    ensures
        match r {
            Ok(frames) => {
                &&& sheet_holds(sheet@.width, sheet@.height, cell_width as nat, cell_height as nat, columns as nat, frame_count as nat)
                &&& frames@.len() == frame_count
                &&& cells_sized(frames@, cell_width, cell_height)
                &&& forall|k: int, i: int, j: int|
                    0 <= k < frame_count && 0 <= i < cell_width && 0 <= j < cell_height ==> #[trigger] pixel(frames@[k]@, i, j)
                        == pixel(sheet@, (k % columns as int) * cell_width + i, (k / columns as int) * cell_height + j)
            },
            Err(e) => e == LoadError::BadLayout && !sheet_holds(sheet@.width, sheet@.height, cell_width as nat, cell_height as nat, columns as nat, frame_count as nat),
        },
{
    if columns == 0 {
        return Err(LoadError::BadLayout);
    }
    let top = frame_count as u128 + columns as u128 - 1;
    let rows = top / columns as u128;
    assert(rows == crate::pack::rows_for(frame_count as nat, columns as nat));
    assert(rows <= top) by (nonlinear_arith)
        requires
            rows == top / columns as u128,
            columns >= 1,
    ;
    assert(rows * cell_height as u128 <= top * 0xffff_ffff) by (nonlinear_arith)
        requires
            rows <= top,
            cell_height <= 0xffff_ffff,
    ;
    assert(columns as u128 * cell_width as u128 <= 0xffff_ffff * 0xffff_ffff) by (nonlinear_arith)
        requires
            columns <= 0xffff_ffff,
            cell_width <= 0xffff_ffff,
    ;
    if columns as u128 * cell_width as u128 > sheet.width as u128 || rows * cell_height as u128
        > sheet.height as u128 {
        return Err(LoadError::BadLayout);
    }
    Ok(unpack_frames(sheet, cell_width, cell_height, columns, frame_count))
}

/// The frames of a saved sheet: its text is decoded from base64, read as an
/// image, and cut into `frame_count` cells.
pub fn decode_sheet(text: &str, cell_width: u32, cell_height: u32, columns: u32, frame_count: usize) -> (r: Result<Vec<Bitmap>, LoadError>)
    ensures
        match base64_bytes(text@) {
            None => r == Err::<Vec<Bitmap>, LoadError>(LoadError::BadEncoding),
            Some(bytes) => match image_decoding(bytes) {
                None => r == Err::<Vec<Bitmap>, LoadError>(LoadError::BadImage),
                Some(sheet) => match r {
                    Ok(frames) => {
                        &&& sheet_holds(sheet.width, sheet.height, cell_width as nat, cell_height as nat, columns as nat, frame_count as nat)
                        &&& frames@.len() == frame_count
                        &&& cells_sized(frames@, cell_width, cell_height)
                        &&& forall|k: int, i: int, j: int|
                            0 <= k < frame_count && 0 <= i < cell_width && 0 <= j < cell_height ==> #[trigger] pixel(frames@[k]@, i, j)
                                == pixel(sheet, (k % columns as int) * cell_width + i, (k / columns as int) * cell_height + j)
                    },
                    Err(e) => e == LoadError::BadLayout && !sheet_holds(sheet.width, sheet.height, cell_width as nat, cell_height as nat, columns as nat, frame_count as nat),
                },
            },
        },
{
    let bytes = match from_base64(text) {
        Some(b) => b,
        None => return Err(LoadError::BadEncoding),
    };
    let sheet = match decode_image(&bytes) {
        Some(s) => s,
        None => return Err(LoadError::BadImage),
    };
    cut_frames(&sheet, cell_width, cell_height, columns, frame_count)
}

} // verus!
