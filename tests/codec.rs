use sprite_anim::bitmap::Bitmap;
use sprite_anim::pack::{
    assemble, choose_columns, opaque_bounds, pack_frames, pad_cell, unpack_frames, Bounds,
};
use sprite_anim::sheet::{cut_frames, decode_sheet, sheet_text, LoadError};

const RED: u32 = 0xff00_00ff;

fn rgba(r: u8, g: u8, b: u8, a: u8) -> u32 {
    u32::from_le_bytes([r, g, b, a])
}

fn filled(width: u32, height: u32, p: u32) -> Bitmap {
    Bitmap { width, height, pixels: vec![p; (width * height) as usize] }
}

/// A `size` by `size` transparent image with an opaque `w` by `h` block at `(x, y)`.
fn with_block(size: u32, x: u32, y: u32, w: u32, h: u32, p: u32) -> Bitmap {
    let mut img = filled(size, size, 0);
    for j in y..y + h {
        for i in x..x + w {
            img.pixels[(j * size + i) as usize] = p;
        }
    }
    img
}

fn px(b: &Bitmap, x: u32, y: u32) -> u32 {
    b.pixels[(y * b.width + x) as usize]
}

#[test]
fn bounds_of_opaque_block() {
    let img = with_block(8, 2, 3, 4, 2, RED);
    assert_eq!(opaque_bounds(&img), Bounds { left: 2, top: 3, width: 4, height: 2 });
}

#[test]
fn bounds_of_transparent_image_are_empty() {
    let img = filled(5, 4, rgba(255, 255, 255, 0));
    assert_eq!(opaque_bounds(&img), Bounds { left: 5, top: 4, width: 0, height: 0 });
}

#[test]
fn bounds_count_faint_pixels() {
    let mut img = filled(6, 6, 0);
    img.pixels[6 + 1] = rgba(0, 0, 0, 1);
    img.pixels[4 * 6 + 5] = rgba(9, 9, 9, 200);
    assert_eq!(opaque_bounds(&img), Bounds { left: 1, top: 1, width: 5, height: 4 });
}

#[test]
fn single_opaque_image_packs_to_one_cell() {
    let mut img = filled(10, 10, RED);
    img.pixels[37] = rgba(1, 2, 3, 255);
    let p = pack_frames(&vec![Bitmap { width: 10, height: 10, pixels: img.pixels.clone() }]).unwrap();
    assert_eq!((p.cell_width, p.cell_height), (10, 10));
    assert_eq!((p.columns, p.rows), (1, 1));
    assert_eq!((p.sheet.width, p.sheet.height), (10, 10));
    assert_eq!(p.sheet.pixels, img.pixels);
    assert_eq!(p.cells[0].pixels, img.pixels);
    assert_eq!(p.placements[0].crop, Bounds { left: 0, top: 0, width: 10, height: 10 });
    assert_eq!((p.placements[0].pad_left, p.placements[0].pad_top), (0, 0));
}

#[test]
fn five_bordered_images_pack_in_one_row() {
    let images = vec![
        with_block(8, 0, 0, 4, 4, RED),
        with_block(8, 1, 2, 4, 4, RED),
        with_block(8, 2, 1, 4, 4, RED),
        with_block(8, 3, 3, 4, 4, RED),
        with_block(8, 4, 4, 4, 4, RED),
    ];
    let p = pack_frames(&images).unwrap();
    assert_eq!((p.cell_width, p.cell_height), (4, 4));
    assert_eq!(p.columns, 5);
    assert_eq!(p.rows, 1);
    assert_eq!((p.sheet.width, p.sheet.height), (20, 4));
    assert!(p.sheet.pixels.iter().all(|&q| q == RED));
    assert_eq!(p.placements[3].crop, Bounds { left: 3, top: 3, width: 4, height: 4 });
}

#[test]
fn smaller_frames_are_centred() {
    let images = vec![filled(4, 3, RED), filled(1, 2, rgba(0, 255, 0, 255))];
    let p = pack_frames(&images).unwrap();
    assert_eq!((p.cell_width, p.cell_height), (4, 3));
    assert_eq!((p.placements[1].pad_left, p.placements[1].pad_top), (1, 0));
    let cell = &p.cells[1];
    assert_eq!(px(cell, 0, 0), 0);
    assert_eq!(px(cell, 1, 0), rgba(0, 255, 0, 255));
    assert_eq!(px(cell, 1, 1), rgba(0, 255, 0, 255));
    assert_eq!(px(cell, 1, 2), 0);
    assert_eq!(px(cell, 2, 0), 0);
    assert_eq!((p.columns, p.rows), (2, 1));
    assert_eq!(px(&p.sheet, 5, 1), rgba(0, 255, 0, 255));
}

#[test]
fn pad_cell_rounds_left_margin_down() {
    let c = filled(1, 1, RED);
    let r = pad_cell(&c, 4, 2);
    assert_eq!(r.pixels, vec![0, RED, 0, 0, 0, 0, 0, 0]);
}

#[test]
fn column_counts() {
    assert_eq!(choose_columns(0, 4, 4), 1);
    assert_eq!(choose_columns(1, 10, 10), 1);
    assert_eq!(choose_columns(5, 8, 8), 5);
    assert_eq!(choose_columns(4, 1, 100), 4);
    assert_eq!(choose_columns(7, 3, 2), 7);
}

#[test]
fn assemble_leaves_missing_cells_blank() {
    let cells = vec![filled(1, 1, 1 << 24), filled(1, 1, 2 << 24), filled(1, 1, 3 << 24)];
    let sheet = assemble(&cells, 1, 1, 2, 2);
    assert_eq!(sheet.pixels, vec![1 << 24, 2 << 24, 3 << 24, 0]);
    let back = unpack_frames(&sheet, 1, 1, 2, 3);
    assert_eq!(back.len(), 3);
    assert_eq!(back[2].pixels, vec![3 << 24]);
}

#[test]
fn transparent_frames_cannot_be_encoded() {
    let images = vec![filled(3, 3, 0)];
    let p = pack_frames(&images).unwrap();
    assert_eq!((p.cell_width, p.cell_height), (0, 0));
    assert_eq!(p.placements[0].crop, Bounds { left: 3, top: 3, width: 0, height: 0 });
    assert!(sheet_text(&p).is_err());
}

#[test]
fn sheet_round_trip() {
    let images = vec![
        with_block(6, 1, 1, 3, 2, rgba(10, 20, 30, 255)),
        with_block(6, 0, 2, 2, 3, rgba(40, 50, 60, 128)),
        with_block(6, 3, 0, 3, 3, rgba(70, 80, 90, 7)),
    ];
    let p = pack_frames(&images).unwrap();
    let text = sheet_text(&p).unwrap();
    assert!(!text.ends_with('='));
    let frames =
        decode_sheet(&text, p.cell_width, p.cell_height, p.columns, images.len()).unwrap();
    assert_eq!(frames.len(), 3);
    for k in 0..3 {
        assert_eq!(frames[k].width, p.cell_width);
        assert_eq!(frames[k].height, p.cell_height);
        assert_eq!(frames[k].pixels, p.cells[k].pixels);
    }
}

#[test]
fn decode_rejects_bad_text() {
    assert_eq!(decode_sheet("not base64!", 1, 1, 1, 1).err(), Some(LoadError::BadEncoding));
}

#[test]
fn decode_rejects_bad_image() {
    assert_eq!(decode_sheet("AAECAw", 1, 1, 1, 1).err(), Some(LoadError::BadImage));
}

#[test]
fn decode_rejects_bad_layout() {
    let images = vec![filled(2, 2, RED)];
    let p = pack_frames(&images).unwrap();
    let text = sheet_text(&p).unwrap();
    assert_eq!(decode_sheet(&text, 2, 2, 1, 2).err(), Some(LoadError::BadLayout));
    assert_eq!(decode_sheet(&text, 2, 2, 0, 1).err(), Some(LoadError::BadLayout));
    assert_eq!(decode_sheet(&text, 3, 2, 1, 1).err(), Some(LoadError::BadLayout));
    assert!(decode_sheet(&text, 2, 2, 1, 1).is_ok());
}

#[test]
fn cut_frames_reads_cells_in_row_order() {
    let sheet = Bitmap { width: 4, height: 2, pixels: (1..=8).map(|i| i << 24).collect() };
    let frames = cut_frames(&sheet, 2, 1, 2, 3).unwrap();
    assert_eq!(frames[0].pixels, vec![1 << 24, 2 << 24]);
    assert_eq!(frames[1].pixels, vec![3 << 24, 4 << 24]);
    assert_eq!(frames[2].pixels, vec![5 << 24, 6 << 24]);
}

#[test]
fn sheet_text_is_base64_png() {
    let p = pack_frames(&vec![filled(2, 2, RED)]).unwrap();
    let text = sheet_text(&p).unwrap();
    assert!(text.starts_with("iVBORw0KGgo"));
    assert!(!text.contains('='));
}
