use vstd::prelude::*;

use crate::bitmap::{
    is_opaque, lemma_pixel_index, opaque_at, pixel, Bitmap, BitmapView, TRANSPARENT,
};

verus! {

/// A rectangle of a bitmap: its top-left corner and its size.
#[derive(Clone, Copy, PartialEq, Eq, Debug, Structural)]
pub struct Bounds {
    pub left: u32,
    pub top: u32,
    pub width: u32,
    pub height: u32,
}

/// Whether the bitmap holds any pixel that is not fully transparent.
pub open spec fn has_opaque(b: BitmapView) -> bool {
    exists|x: int, y: int| opaque_at(b, x, y)
}

/// Whether `r` is the smallest rectangle holding every pixel of `b` that is
/// not fully transparent. With no such pixel it is empty, at the far corner.
pub open spec fn is_opaque_box(b: BitmapView, r: Bounds) -> bool {
    if has_opaque(b) {
        &&& r.width > 0 && r.height > 0
        &&& r.left + r.width <= b.width && r.top + r.height <= b.height
        &&& forall|x: int, y: int|
            opaque_at(b, x, y) ==> r.left <= x < r.left + r.width && r.top <= y < r.top + r.height
        &&& exists|y: int| #[trigger] opaque_at(b, r.left as int, y)
        &&& exists|y: int| #[trigger] opaque_at(b, r.left + r.width - 1, y)
        &&& exists|x: int| #[trigger] opaque_at(b, x, r.top as int)
        &&& exists|x: int| #[trigger] opaque_at(b, x, r.top + r.height - 1)
    } else {
        r == Bounds { left: b.width as u32, top: b.height as u32, width: 0, height: 0 }
    }
}

/// The smallest rectangle holding every pixel of `b` that is not fully transparent.
pub open spec fn opaque_box_of(b: BitmapView) -> Bounds {
    choose|r: Bounds| is_opaque_box(b, r)
}

/// A bitmap has one smallest rectangle holding its visible pixels.
pub proof fn lemma_opaque_box_unique(b: BitmapView, r1: Bounds, r2: Bounds)
    requires
        is_opaque_box(b, r1),
        is_opaque_box(b, r2),
    ensures
        r1 == r2,
{
    if has_opaque(b) {
        let y1 = choose|y: int| #[trigger] opaque_at(b, r1.left as int, y);
        let y2 = choose|y: int| #[trigger] opaque_at(b, r2.left as int, y);
        let y3 = choose|y: int| #[trigger] opaque_at(b, r1.left + r1.width - 1, y);
        let y4 = choose|y: int| #[trigger] opaque_at(b, r2.left + r2.width - 1, y);
        let x1 = choose|x: int| #[trigger] opaque_at(b, x, r1.top as int);
        let x2 = choose|x: int| #[trigger] opaque_at(b, x, r2.top as int);
        let x3 = choose|x: int| #[trigger] opaque_at(b, x, r1.top + r1.height - 1);
        let x4 = choose|x: int| #[trigger] opaque_at(b, x, r2.top + r2.height - 1);
        assert(opaque_at(b, r1.left as int, y1));
        assert(opaque_at(b, r2.left as int, y2));
        assert(opaque_at(b, r1.left + r1.width - 1, y3));
        assert(opaque_at(b, r2.left + r2.width - 1, y4));
        assert(opaque_at(b, x1, r1.top as int));
        assert(opaque_at(b, x2, r2.top as int));
        assert(opaque_at(b, x3, r1.top + r1.height - 1));
        assert(opaque_at(b, x4, r2.top + r2.height - 1));
    }
}

/// Whether `(x, y)` comes before `(cx, cy)` in a scan of rows from the top,
/// each from the left.
pub open spec fn scanned(x: int, y: int, cx: int, cy: int) -> bool {
    y < cy || (y == cy && x < cx)
}

/// The smallest rectangle that holds every pixel that is not fully transparent.
pub fn opaque_bounds(img: &Bitmap) -> (r: Bounds)
    requires
        img.wf(),
    ensures
        is_opaque_box(img@, r),
        r == opaque_box_of(img@),
{
    let r = scan_opaque_bounds(img);
    proof {
        lemma_opaque_box_unique(img@, r, opaque_box_of(img@));
    }
    r
}

fn scan_opaque_bounds(img: &Bitmap) -> (r: Bounds)
    requires
        img.wf(),
    ensures
        is_opaque_box(img@, r),
{
    let w = img.width;
    let h = img.height;
    let ghost b = img@;
    let n = img.pixels.len();
    let mut found = false;
    let mut min_x: u32 = 0;
    let mut max_x: u32 = 0;
    let mut min_y: u32 = 0;
    let mut max_y: u32 = 0;
    let ghost mut y_at_min_x: int = 0;
    let ghost mut y_at_max_x: int = 0;
    let ghost mut x_at_min_y: int = 0;
    let ghost mut x_at_max_y: int = 0;
    let mut y: u32 = 0;
    while y < h
        invariant
            img.wf(),
            b == img@,
            n == b.pixels.len(),
            w == b.width,
            h == b.height,
            y <= h,
            !found ==> forall|px: int, py: int| #![trigger opaque_at(b, px, py)]
                scanned(px, py, 0, y as int) ==> !opaque_at(b, px, py),
            found ==> {
                &&& min_x <= max_x < w && min_y <= max_y < y
                &&& forall|px: int, py: int| #![trigger opaque_at(b, px, py)]
                    scanned(px, py, 0, y as int) && opaque_at(b, px, py) ==> min_x <= px <= max_x
                        && min_y <= py <= max_y
                &&& opaque_at(b, min_x as int, y_at_min_x)
                &&& opaque_at(b, max_x as int, y_at_max_x)
                &&& opaque_at(b, x_at_min_y, min_y as int)
                &&& opaque_at(b, x_at_max_y, max_y as int)
            },
        decreases h - y,
    {
        let mut x: u32 = 0;
        while x < w
            invariant
                img.wf(),
                b == img@,
                n == b.pixels.len(),
                w == b.width,
                h == b.height,
                y < h,
                x <= w,
                !found ==> forall|px: int, py: int| #![trigger opaque_at(b, px, py)]
                    scanned(px, py, x as int, y as int) ==> !opaque_at(b, px, py),
                found ==> {
                    &&& min_x <= max_x < w && min_y <= max_y <= y
                    &&& forall|px: int, py: int| #![trigger opaque_at(b, px, py)]
                        scanned(px, py, x as int, y as int) && opaque_at(b, px, py) ==> min_x <= px
                            <= max_x && min_y <= py <= max_y
                    &&& opaque_at(b, min_x as int, y_at_min_x)
                    &&& opaque_at(b, max_x as int, y_at_max_x)
                    &&& opaque_at(b, x_at_min_y, min_y as int)
                    &&& opaque_at(b, x_at_max_y, max_y as int)
                },
            decreases w - x,
        {
            proof {
                lemma_pixel_index(x as int, y as int, w as int, h as int);
            }
            let idx = y as usize * w as usize + x as usize;
            let p = img.pixels[idx];
            assert(p == pixel(b, x as int, y as int));
            assert(opaque_at(b, x as int, y as int) == is_opaque(p));
            if p >= 0x0100_0000 {
                if !found {
                    found = true;
                    min_x = x;
                    max_x = x;
                    min_y = y;
                    max_y = y;
                    proof {
                        y_at_min_x = y as int;
                        y_at_max_x = y as int;
                        x_at_min_y = x as int;
                        x_at_max_y = x as int;
                    }
                } else {
                    if x < min_x {
                        min_x = x;
                        proof {
                            y_at_min_x = y as int;
                        }
                    }
                    if x > max_x {
                        max_x = x;
                        proof {
                            y_at_max_x = y as int;
                        }
                    }
                    if y > max_y {
                        max_y = y;
                        proof {
                            x_at_max_y = x as int;
                        }
                    }
                }
            }
            x = x + 1;
        }
        y = y + 1;
    }
    if found {
        let r = Bounds { left: min_x, top: min_y, width: max_x - min_x + 1, height: max_y - min_y + 1 };
        assert(has_opaque(b));
        assert forall|px: int, py: int| opaque_at(b, px, py) implies r.left <= px < r.left + r.width
            && r.top <= py < r.top + r.height by {
            assert(scanned(px, py, 0, y as int));
        }
        assert(opaque_at(b, r.left as int, y_at_min_x));
        assert(opaque_at(b, r.left + r.width - 1, y_at_max_x));
        assert(opaque_at(b, x_at_min_y, r.top as int));
        assert(opaque_at(b, x_at_max_y, r.top + r.height - 1));
        r
    } else {
        assert forall|px: int, py: int| !opaque_at(b, px, py) by {
            if opaque_at(b, px, py) {
                assert(scanned(px, py, 0, y as int));
            }
        }
        assert(!has_opaque(b));
        Bounds { left: w, top: h, width: 0, height: 0 }
    }
}

/// Pixel `(i, j)` of `c` centred in a `cw` by `ch` cell: the left and top
/// margins are half the missing width and height, rounded down, and the
/// margins hold transparent pixels.
pub open spec fn padded_pixel(c: BitmapView, cw: nat, ch: nat, i: int, j: int) -> u32 {
    let pl = (cw - c.width) / 2;
    let pt = (ch - c.height) / 2;
    if pl <= i < pl + c.width && pt <= j < pt + c.height {
        pixel(c, i - pl, j - pt)
    } else {
        TRANSPARENT
    }
}

/// `c` centred in a transparent `cw` by `ch` cell.
pub fn pad_cell(c: &Bitmap, cw: u32, ch: u32) -> (r: Bitmap)
    requires
        c.wf(),
        c.width <= cw,
        c.height <= ch,
        cw as nat * ch as nat <= usize::MAX,
    ensures
        r.wf(),
        r.width == cw,
        r.height == ch,
        forall|i: int, j: int|
            0 <= i < cw && 0 <= j < ch ==> #[trigger] pixel(r@, i, j) == padded_pixel(
                c@,
                cw as nat,
                ch as nat,
                i,
                j,
            ),
{
    let pad_left = (cw - c.width) / 2;
    let pad_top = (ch - c.height) / 2;
    let mut pixels: Vec<u32> = Vec::new();
    let ghost total = cw as nat * ch as nat;
    let clen = c.pixels.len();
    let mut j: u32 = 0;
    while j < ch
        invariant
            c.wf(),
            c.width <= cw,
            c.height <= ch,
            total == cw as nat * ch as nat,
            total <= usize::MAX,
            clen == c.pixels@.len(),
            pad_left == (cw - c.width) / 2,
            pad_top == (ch - c.height) / 2,
            j <= ch,
            pixels@.len() == j as nat * cw as nat,
            forall|pi: int, pj: int|
                0 <= pi < cw && 0 <= pj < j ==> #[trigger] pixels@[pj * cw + pi] == padded_pixel(
                    c@,
                    cw as nat,
                    ch as nat,
                    pi,
                    pj,
                ),
        decreases ch - j,
    {
        let mut i: u32 = 0;
        while i < cw
            invariant
                c.wf(),
                c.width <= cw,
                c.height <= ch,
                total == cw as nat * ch as nat,
                total <= usize::MAX,
                clen == c.pixels@.len(),
                pad_left == (cw - c.width) / 2,
                pad_top == (ch - c.height) / 2,
                j < ch,
                i <= cw,
                pixels@.len() == j as nat * cw as nat + i,
                forall|pi: int, pj: int|
                    0 <= pi < cw && 0 <= pj < j ==> #[trigger] pixels@[pj * cw + pi]
                        == padded_pixel(c@, cw as nat, ch as nat, pi, pj),
                forall|pi: int|
                    0 <= pi < i ==> #[trigger] pixels@[j * cw + pi] == padded_pixel(
                        c@,
                        cw as nat,
                        ch as nat,
                        pi,
                        j as int,
                    ),
            decreases cw - i,
        {
            proof {
                lemma_pixel_index(i as int, j as int, cw as int, ch as int);
            }
            let inside = pad_left <= i && i < pad_left + c.width && pad_top <= j && j < pad_top
                + c.height;
            let p = if inside {
                let sx = i - pad_left;
                let sy = j - pad_top;
                proof {
                    lemma_pixel_index(sx as int, sy as int, c.width as int, c.height as int);
                }
                c.pixels[sy as usize * c.width as usize + sx as usize]
            } else {
                TRANSPARENT
            };
            let ghost before = pixels@;
            pixels.push(p);
            proof {
                assert forall|pi: int, pj: int| 0 <= pi < cw && 0 <= pj < j implies #[trigger] pixels@[pj
                    * cw + pi] == before[pj * cw + pi] by {
                    lemma_pixel_index(pi, pj, cw as int, j as int);
                    assert(cw * j == j as nat * cw as nat) by (nonlinear_arith);
                }
            }
            i = i + 1;
        }
        proof {
            assert(pixels@.len() == (j + 1) as nat * cw as nat) by (nonlinear_arith)
                requires
                    pixels@.len() == j as nat * cw as nat + cw as nat,
            ;
        }
        j = j + 1;
    }
    assert(pixels@.len() == cw as nat * ch as nat) by (nonlinear_arith)
        requires
            pixels@.len() == ch as nat * cw as nat,
    ;
    Bitmap { width: cw, height: ch, pixels }
}

/// How many rows `cols` columns need for `n` cells.
pub open spec fn rows_for(n: nat, cols: nat) -> nat {
    if cols == 0 {
        0
    } else {
        ((n + cols - 1) / cols as int) as nat
    }
}

/// Whether a grid of `cols` columns of `cw` by `ch` cells holding `n` cells is
/// no taller than it is wide.
pub open spec fn grid_fits(n: nat, cols: nat, cw: nat, ch: nat) -> bool {
    rows_for(n, cols) * ch <= cols * cw
}

/// The first column count from `c` down to 1 whose grid is no taller than
/// wide; `n` (at least 1) when there is none.
pub open spec fn columns_from(n: nat, c: nat, cw: nat, ch: nat) -> nat
    decreases c,
{
    if c == 0 {
        if n == 0 {
            1
        } else {
            n
        }
    } else if grid_fits(n, c, cw, ch) {
        c
    } else {
        columns_from(n, (c - 1) as nat, cw, ch)
    }
}

/// The column count of a sheet of `n` cells of `cw` by `ch` pixels: the
/// largest count up to `n` whose grid is no taller than wide.
pub open spec fn columns_for(n: nat, cw: nat, ch: nat) -> nat {
    columns_from(n, n, cw, ch)
}

/// The column count of a sheet of `n` cells of `cw` by `ch` pixels.
pub fn choose_columns(n: usize, cw: u32, ch: u32) -> (r: usize)
    ensures
        r == columns_for(n as nat, cw as nat, ch as nat),
        r >= 1,
        n >= 1 ==> r <= n,
{
    proof {
        lemma_columns_range(n as nat, n as nat, cw as nat, ch as nat);
    }
    let mut c: usize = n;
    while c > 0
        invariant
            c <= n,
            columns_from(n as nat, c as nat, cw as nat, ch as nat) == columns_for(
                n as nat,
                cw as nat,
                ch as nat,
            ),
        decreases c,
    {
        let top = n as u128 + c as u128 - 1;
        let rows = top / c as u128;
        assert(rows == rows_for(n as nat, c as nat));
        assert(rows <= top) by (nonlinear_arith)
            requires
                rows == top / c as u128,
                c >= 1,
        ;
        assert(rows * ch as u128 <= top * 0xffff_ffff) by (nonlinear_arith)
            requires
                rows <= top,
                ch <= 0xffff_ffff,
        ;
        assert(c as u128 * cw as u128 <= c as u128 * 0xffff_ffff) by (nonlinear_arith)
            requires
                cw <= 0xffff_ffff,
        ;
        if rows * ch as u128 <= c as u128 * cw as u128 {
            return c;
        }
        c = c - 1;
    }
    if n == 0 {
        1
    } else {
        n
    }
}

/// A column count lies between 1 and the number of cells, or is 1 when there
/// are none.
pub proof fn lemma_columns_range(n: nat, c: nat, cw: nat, ch: nat)
    requires
        c <= n,
    ensures
        columns_from(n, c, cw, ch) >= 1,
        n >= 1 ==> columns_from(n, c, cw, ch) <= n,
    decreases c,
{
    if c > 0 && !grid_fits(n, c, cw, ch) {
        lemma_columns_range(n, (c - 1) as nat, cw, ch);
    }
}

/// Pixel `(x, y)` of a sheet of `cw` by `ch` cells laid out `cols` to a row:
/// the pixel of the cell that covers it, or transparent past the last cell.
pub open spec fn sheet_pixel(cells: Seq<BitmapView>, cw: nat, ch: nat, cols: nat, x: int, y: int) -> u32 {
    let k = (y / ch as int) * cols + x / cw as int;
    if k < cells.len() {
        pixel(cells[k], x % cw as int, y % ch as int)
    } else {
        TRANSPARENT
    }
}

/// Every cell is a well-formed `cw` by `ch` bitmap.
pub open spec fn cells_sized(cells: Seq<Bitmap>, cw: u32, ch: u32) -> bool {
    forall|k: int|
        0 <= k < cells.len() ==> #[trigger] cells[k].wf() && cells[k].width == cw && cells[k].height
            == ch
}

/// The views of a sequence of bitmaps.
pub open spec fn bitmap_views(bs: Seq<Bitmap>) -> Seq<BitmapView> {
    bs.map_values(|b: Bitmap| b@)
}

/// The sheet of `cols` by `rows` cells of `cw` by `ch` pixels, cell `k` at
/// column `k % cols` of row `k / cols`.
pub fn assemble(cells: &Vec<Bitmap>, cw: u32, ch: u32, cols: u32, rows: u32) -> (r: Bitmap)
    requires
        cells_sized(cells@, cw, ch),
        cols as nat * cw as nat <= u32::MAX,
        rows as nat * ch as nat <= u32::MAX,
        (cols as nat * cw as nat) * (rows as nat * ch as nat) <= usize::MAX,
    ensures
        r.wf(),
        r.width == cols * cw,
        r.height == rows * ch,
        forall|x: int, y: int|
            0 <= x < r.width && 0 <= y < r.height ==> #[trigger] pixel(r@, x, y) == sheet_pixel(
                bitmap_views(cells@),
                cw as nat,
                ch as nat,
                cols as nat,
                x,
                y,
            ),
{
    let sw = cols * cw;
    let sh = rows * ch;
    let ghost views = bitmap_views(cells@);
    let mut pixels: Vec<u32> = Vec::new();
    let mut y: u32 = 0;
    while y < sh
        invariant
            cells_sized(cells@, cw, ch),
            views == bitmap_views(cells@),
            sw == cols * cw,
            sh == rows * ch,
            sw as nat * sh as nat <= usize::MAX,
            y <= sh,
            pixels@.len() == y as nat * sw as nat,
            forall|px: int, py: int|
                0 <= px < sw && 0 <= py < y ==> #[trigger] pixels@[py * sw + px] == sheet_pixel(
                    views,
                    cw as nat,
                    ch as nat,
                    cols as nat,
                    px,
                    py,
                ),
        decreases sh - y,
    {
        let mut x: u32 = 0;
        while x < sw
            invariant
                cells_sized(cells@, cw, ch),
                views == bitmap_views(cells@),
                sw == cols * cw,
                sh == rows * ch,
                sw as nat * sh as nat <= usize::MAX,
                y < sh,
                x <= sw,
                pixels@.len() == y as nat * sw as nat + x,
                forall|px: int, py: int|
                    0 <= px < sw && 0 <= py < y ==> #[trigger] pixels@[py * sw + px]
                        == sheet_pixel(views, cw as nat, ch as nat, cols as nat, px, py),
                forall|px: int|
                    0 <= px < x ==> #[trigger] pixels@[y * sw + px] == sheet_pixel(
                        views,
                        cw as nat,
                        ch as nat,
                        cols as nat,
                        px,
                        y as int,
                    ),
            decreases sw - x,
        {
            proof {
                lemma_pixel_index(x as int, y as int, sw as int, sh as int);
                assert(cw > 0 && ch > 0) by (nonlinear_arith)
                    requires
                        x < sw,
                        y < sh,
                        sw == cols * cw,
                        sh == rows * ch,
                ;
                let a = (y / ch) as int;
                assert(a * cols <= a * 0xffff_ffff) by (nonlinear_arith)
                    requires
                        0 <= a,
                        cols <= 0xffff_ffff,
                ;
                assert(a * 0xffff_ffff <= 0xffff_ffff * 0xffff_ffff) by (nonlinear_arith)
                    requires
                        0 <= a <= 0xffff_ffff,
                ;
            }
            let k = (y / ch) as u64 * cols as u64 + (x / cw) as u64;
            let p = if k < cells.len() as u64 {
                let cell = &cells[k as usize];
                let i = x % cw;
                let j = y % ch;
                proof {
                    assert(cells[k as int].wf());
                    lemma_pixel_index(i as int, j as int, cw as int, ch as int);
                }
                let _cell_len = cell.pixels.len();
                cell.pixels[j as usize * cw as usize + i as usize]
            } else {
                TRANSPARENT
            };
            let ghost before = pixels@;
            pixels.push(p);
            proof {
                assert forall|px: int, py: int| 0 <= px < sw && 0 <= py < y implies #[trigger] pixels@[py
                    * sw + px] == before[py * sw + px] by {
                    lemma_pixel_index(px, py, sw as int, y as int);
                    assert(sw * y == y as nat * sw as nat) by (nonlinear_arith);
                }
            }
            x = x + 1;
        }
        proof {
            assert(pixels@.len() == (y + 1) as nat * sw as nat) by (nonlinear_arith)
                requires
                    pixels@.len() == y as nat * sw as nat + sw as nat,
            ;
        }
        y = y + 1;
    }
    assert(pixels@.len() == sw as nat * sh as nat) by (nonlinear_arith)
        requires
            pixels@.len() == sh as nat * sw as nat,
    ;
    Bitmap { width: sw, height: sh, pixels }
}

/// Whether a `sw` by `sh` sheet holds `count` cells of `cw` by `ch` pixels
/// laid out `cols` to a row.
pub open spec fn sheet_holds(sw: nat, sh: nat, cw: nat, ch: nat, cols: nat, count: nat) -> bool {
    cols > 0 && cols * cw <= sw && rows_for(count, cols) * ch <= sh
}

/// Cuts `count` cells of `cw` by `ch` pixels out of a sheet laid out `cols`
/// to a row, cell `k` at column `k % cols` of row `k / cols`.
pub fn unpack_frames(sheet: &Bitmap, cw: u32, ch: u32, cols: u32, count: usize) -> (r: Vec<Bitmap>)
    requires
        sheet.wf(),
        sheet_holds(sheet.width as nat, sheet.height as nat, cw as nat, ch as nat, cols as nat, count as nat),
    ensures
        r@.len() == count,
        cells_sized(r@, cw, ch),
        forall|k: int, i: int, j: int|
            0 <= k < count && 0 <= i < cw && 0 <= j < ch ==> #[trigger] pixel(r@[k]@, i, j) == pixel(
                sheet@,
                (k % cols as int) * cw + i,
                (k / cols as int) * ch + j,
            ),
{
    let mut frames: Vec<Bitmap> = Vec::new();
    let mut k: usize = 0;
    while k < count
        invariant
            sheet.wf(),
            sheet_holds(sheet.width as nat, sheet.height as nat, cw as nat, ch as nat, cols as nat, count as nat),
            k <= count,
            frames@.len() == k,
            cells_sized(frames@, cw, ch),
            forall|pk: int, i: int, j: int|
                0 <= pk < k && 0 <= i < cw && 0 <= j < ch ==> #[trigger] pixel(frames@[pk]@, i, j)
                    == pixel(sheet@, (pk % cols as int) * cw + i, (pk / cols as int) * ch + j),
        decreases count - k,
    {
        let col = k % cols as usize;
        let row = k / cols as usize;
        proof {
            lemma_cell_in_sheet(count as nat, cols as nat, cw as nat, ch as nat, k as nat);
        }
        let x0 = col as u32 * cw;
        let y0 = (row as u64 * ch as u64) as u32;
        let cell = crate::bitmap::crop(sheet, x0, y0, cw, ch);
        let ghost before = frames@;
        frames.push(cell);
        proof {
            assert forall|pk: int, i: int, j: int|
                0 <= pk < k + 1 && 0 <= i < cw && 0 <= j < ch implies #[trigger] pixel(frames@[pk]@, i, j)
                    == pixel(sheet@, (pk % cols as int) * cw + i, (pk / cols as int) * ch + j) by {
                if pk < k {
                    assert(frames@[pk] == before[pk]);
                }
            }
        }
        k = k + 1;
    }
    frames
}

/// Cell `k` of a grid that holds `count` cells lies inside the sheet.
pub proof fn lemma_cell_in_sheet(count: nat, cols: nat, cw: nat, ch: nat, k: nat)
    requires
        cols > 0,
        k < count,
    ensures
        (k % cols) < cols,
        (k % cols) * cw + cw <= cols * cw,
        (k / cols) * ch + ch <= rows_for(count, cols) * ch,
        (k / cols) <= k,
{
    let c = cols as int;
    let q = k as int / c;
    let m = k as int % c;
    vstd::arithmetic::div_mod::lemma_fundamental_div_mod(k as int, c);
    assert(0 <= m < c);
    assert(m * cw + cw <= c * cw) by (nonlinear_arith)
        requires
            0 <= m < c,
    ;
    let t = count + cols - 1;
    let r = t / c;
    assert(q < r) by (nonlinear_arith)
        requires
            k == c * q + m,
            0 <= m < c,
            k < count,
            t == count + c - 1,
            r == t / c,
            c > 0,
    {
        vstd::arithmetic::div_mod::lemma_fundamental_div_mod(t, c);
        assert(t == c * (t / c) + t % c);
    }
    assert(q * ch + ch <= r * ch) by (nonlinear_arith)
        requires
            q < r,
    ;
    assert(q <= k) by (nonlinear_arith)
        requires
            k == c * q + m,
            0 <= m,
            c >= 1,
            q >= 0,
    ;
}

/// Cutting cell `k` out of a sheet assembled from `cells` gives back cell `k`,
/// pixel for pixel.
pub proof fn lemma_unpack_recovers_cell(
    cells: Seq<BitmapView>,
    cw: nat,
    ch: nat,
    cols: nat,
    k: int,
    i: int,
    j: int,
)
    requires
        cols > 0,
        0 <= k < cells.len(),
        0 <= i < cw,
        0 <= j < ch,
    ensures
        sheet_pixel(cells, cw, ch, cols, (k % cols as int) * cw + i, (k / cols as int) * ch + j)
            == pixel(cells[k], i, j),
{
    let c = cols as int;
    let x = (k % c) * cw + i;
    let y = (k / c) * ch + j;
    vstd::arithmetic::div_mod::lemma_fundamental_div_mod_converse(x, cw as int, k % c, i);
    vstd::arithmetic::div_mod::lemma_fundamental_div_mod_converse(y, ch as int, k / c, j);
    vstd::arithmetic::div_mod::lemma_fundamental_div_mod(k, c);
    assert((k / c) * c + k % c == k) by (nonlinear_arith)
        requires
            k == c * (k / c) + k % c,
    ;
}

/// The widest opaque box of the images.
pub open spec fn max_box_width(imgs: Seq<BitmapView>) -> nat
    decreases imgs.len(),
{
    if imgs.len() == 0 {
        0
    } else {
        let rest = max_box_width(imgs.drop_last());
        let w = opaque_box_of(imgs.last()).width as nat;
        if w > rest {
            w
        } else {
            rest
        }
    }
}

/// The tallest opaque box of the images.
pub open spec fn max_box_height(imgs: Seq<BitmapView>) -> nat
    decreases imgs.len(),
{
    if imgs.len() == 0 {
        0
    } else {
        let rest = max_box_height(imgs.drop_last());
        let h = opaque_box_of(imgs.last()).height as nat;
        if h > rest {
            h
        } else {
            rest
        }
    }
}

/// Whether a sheet of `n` cells of `cw` by `ch` pixels can be made: its grid
/// and pixel sizes fit in 32 bits and its pixels in memory.
pub open spec fn sheet_fits(n: nat, cw: nat, ch: nat) -> bool {
    let cols = columns_for(n, cw, ch);
    let rows = rows_for(n, cols);
    &&& cols <= u32::MAX && rows <= u32::MAX
    &&& cols * cw <= u32::MAX && rows * ch <= u32::MAX
    &&& (cols * cw) * (rows * ch) <= usize::MAX
}

/// Pixel `(i, j)` of the cell made of `img`: its opaque box `b`, centred in a
/// `cw` by `ch` cell.
pub open spec fn cell_pixel(img: BitmapView, b: Bounds, cw: nat, ch: nat, i: int, j: int) -> u32 {
    let pl = (cw - b.width) / 2;
    let pt = (ch - b.height) / 2;
    if pl <= i < pl + b.width && pt <= j < pt + b.height {
        pixel(img, b.left + i - pl, b.top + j - pt)
    } else {
        TRANSPARENT
    }
}

/// Where a frame's image went: the opaque box cut out of it, and the left
/// and top margins that centre that box in its cell.
#[derive(Clone, Copy, PartialEq, Eq, Debug, Structural)]
pub struct Placement {
    pub crop: Bounds,
    pub pad_left: u32,
    pub pad_top: u32,
}

/// The placement of `img` in a `cw` by `ch` cell.
pub open spec fn placement_of(img: BitmapView, cw: nat, ch: nat) -> Placement {
    let b = opaque_box_of(img);
    Placement {
        crop: b,
        pad_left: ((cw - b.width) / 2) as u32,
        pad_top: ((ch - b.height) / 2) as u32,
    }
}

/// The frames of an animation packed into one sheet.
pub struct PackedSheet {
    pub sheet: Bitmap,
    pub cell_width: u32,
    pub cell_height: u32,
    pub columns: u32,
    pub rows: u32,
    pub cells: Vec<Bitmap>,
    pub placements: Vec<Placement>,
}

#[derive(Clone, Copy, PartialEq, Eq, Debug, Structural)]
pub enum PackError {
    /// The sheet would be wider or taller than 32 bits can say, or would not fit in memory.
    SheetTooLarge,
}

/// Every image is well formed.
pub open spec fn all_wf(imgs: Seq<Bitmap>) -> bool {
    forall|k: int| 0 <= k < imgs.len() ==> #[trigger] imgs[k].wf()
}

/// Packs the images into one sheet: each is cut to its opaque box, centred in
/// a cell as large as the largest box, and the cells are laid out in rows.
pub fn pack_frames(images: &Vec<Bitmap>) -> (r: Result<PackedSheet, PackError>)
    requires
        all_wf(images@),
    ensures
        ({
            let views = bitmap_views(images@);
            let n = images@.len();
            let cw = max_box_width(views);
            let ch = max_box_height(views);
            match r {
                Ok(p) => {
                    &&& sheet_fits(n, cw, ch)
                    &&& p.cell_width == cw && p.cell_height == ch
                    &&& p.columns == columns_for(n, cw, ch)
                    &&& p.rows == rows_for(n, p.columns as nat)
                    &&& p.placements@.len() == n && p.cells@.len() == n
                    &&& forall|k: int| 0 <= k < n ==> #[trigger] p.placements@[k] == placement_of(views[k], cw, ch)
                    &&& cells_sized(p.cells@, p.cell_width, p.cell_height)
                    &&& forall|k: int, i: int, j: int|
                        0 <= k < n && 0 <= i < cw && 0 <= j < ch ==> #[trigger] pixel(p.cells@[k]@, i, j)
                            == cell_pixel(views[k], opaque_box_of(views[k]), cw, ch, i, j)
                    &&& p.sheet.wf()
                    &&& p.sheet.width == p.columns * cw && p.sheet.height == p.rows * ch
                    &&& forall|x: int, y: int|
                        0 <= x < p.sheet.width && 0 <= y < p.sheet.height ==> #[trigger] pixel(p.sheet@, x, y)
                            == sheet_pixel(bitmap_views(p.cells@), cw, ch, p.columns as nat, x, y)
                },
                Err(e) => e == PackError::SheetTooLarge && !sheet_fits(n, cw, ch),
            }
        }),
{
    let n = images.len();
    let ghost views = bitmap_views(images@);
    let mut crops: Vec<Bitmap> = Vec::new();
    let mut boxes: Vec<Bounds> = Vec::new();
    let mut cw: u32 = 0;
    let mut ch: u32 = 0;
    let mut k: usize = 0;
    while k < n
        invariant
            all_wf(images@),
            views == bitmap_views(images@),
            n == images@.len(),
            k <= n,
            crops@.len() == k,
            boxes@.len() == k,
            cw == max_box_width(views.take(k as int)),
            ch == max_box_height(views.take(k as int)),
            forall|pk: int| 0 <= pk < k ==> #[trigger] boxes@[pk] == opaque_box_of(views[pk]),
            forall|pk: int| 0 <= pk < k ==> #[trigger] crops@[pk].wf() && crops@[pk].width == boxes@[pk].width
                && crops@[pk].height == boxes@[pk].height,
            forall|pk: int, i: int, j: int|
                0 <= pk < k && 0 <= i < boxes@[pk].width && 0 <= j < boxes@[pk].height ==> #[trigger] pixel(
                    crops@[pk]@,
                    i,
                    j,
                ) == pixel(views[pk], boxes@[pk].left + i, boxes@[pk].top + j),
        decreases n - k,
    {
        assert(images@[k as int].wf());
        let b = opaque_bounds(&images[k]);
        let c = crate::bitmap::crop(&images[k], b.left, b.top, b.width, b.height);
        let ghost crops_before = crops@;
        let ghost boxes_before = boxes@;
        crops.push(c);
        boxes.push(b);
        proof {
            assert(views.take(k + 1).drop_last() =~= views.take(k as int));
            assert(views.take(k + 1).last() == views[k as int]);
            assert forall|pk: int, i: int, j: int|
                0 <= pk < k + 1 && 0 <= i < boxes@[pk].width && 0 <= j < boxes@[pk].height implies #[trigger] pixel(
                    crops@[pk]@,
                    i,
                    j,
                ) == pixel(views[pk], boxes@[pk].left + i, boxes@[pk].top + j) by {
                if pk < k {
                    assert(crops@[pk] == crops_before[pk]);
                    assert(boxes@[pk] == boxes_before[pk]);
                }
            }
        }
        if b.width > cw {
            cw = b.width;
        }
        if b.height > ch {
            ch = b.height;
        }
        k = k + 1;
    }
    assert(views.take(n as int) =~= views);
    let cols = choose_columns(n, cw, ch);
    let rows_wide = (n as u128 + cols as u128 - 1) / cols as u128;
    assert(rows_wide == rows_for(n as nat, cols as nat));
    if cols as u128 > 0xffff_ffff || rows_wide > 0xffff_ffff {
        return Err(PackError::SheetTooLarge);
    }
    assert(cols as u128 * cw as u128 <= 0xffff_ffff * 0xffff_ffff) by (nonlinear_arith)
        requires
            cols <= 0xffff_ffff,
            cw <= 0xffff_ffff,
    ;
    assert(rows_wide * ch as u128 <= 0xffff_ffff * 0xffff_ffff) by (nonlinear_arith)
        requires
            rows_wide <= 0xffff_ffff,
            ch <= 0xffff_ffff,
    ;
    let sw = cols as u128 * cw as u128;
    let sh = rows_wide * ch as u128;
    if sw > 0xffff_ffff || sh > 0xffff_ffff {
        return Err(PackError::SheetTooLarge);
    }
    assert(sw * sh <= 0xffff_ffff_ffff_ffff_ffff_ffff_ffff_ffff) by (nonlinear_arith)
        requires
            sw <= 0xffff_ffff,
            sh <= 0xffff_ffff,
    ;
    if sw * sh > usize::MAX as u128 {
        return Err(PackError::SheetTooLarge);
    }
    let rows = rows_wide as u32;
    proof {
        lemma_cell_fits_sheet(n as nat, cols as nat, rows as nat, cw as nat, ch as nat);
    }
    let mut cells: Vec<Bitmap> = Vec::new();
    let mut placements: Vec<Placement> = Vec::new();
    let mut k: usize = 0;
    while k < n
        invariant
            all_wf(images@),
            views == bitmap_views(images@),
            n == images@.len(),
            cw == max_box_width(views),
            ch == max_box_height(views),
            n > 0 ==> cw as nat * ch as nat <= usize::MAX,
            k <= n,
            crops@.len() == n,
            boxes@.len() == n,
            forall|pk: int| 0 <= pk < n ==> #[trigger] boxes@[pk] == opaque_box_of(views[pk]),
            forall|pk: int| 0 <= pk < n ==> #[trigger] crops@[pk].wf() && crops@[pk].width == boxes@[pk].width
                && crops@[pk].height == boxes@[pk].height,
            forall|pk: int, i: int, j: int|
                0 <= pk < n && 0 <= i < boxes@[pk].width && 0 <= j < boxes@[pk].height ==> #[trigger] pixel(
                    crops@[pk]@,
                    i,
                    j,
                ) == pixel(views[pk], boxes@[pk].left + i, boxes@[pk].top + j),
            cells@.len() == k,
            placements@.len() == k,
            cells_sized(cells@, cw, ch),
            forall|pk: int| 0 <= pk < k ==> #[trigger] placements@[pk] == placement_of(views[pk], cw as nat, ch as nat),
            forall|pk: int, i: int, j: int|
                0 <= pk < k && 0 <= i < cw && 0 <= j < ch ==> #[trigger] pixel(cells@[pk]@, i, j)
                    == cell_pixel(views[pk], opaque_box_of(views[pk]), cw as nat, ch as nat, i, j),
        decreases n - k,
    {
        proof {
            lemma_box_within_max(views, k as int);
        }
        let b = boxes[k];
        assert(crops@[k as int].wf());
        assert(b == opaque_box_of(views[k as int]));
        assert(crops@[k as int].width <= cw && crops@[k as int].height <= ch);
        let cell = pad_cell(&crops[k], cw, ch);
        let ghost cells_before = cells@;
        let ghost placements_before = placements@;
        cells.push(cell);
        placements.push(Placement { crop: b, pad_left: (cw - b.width) / 2, pad_top: (ch - b.height) / 2 });
        proof {
            assert forall|pk: int, i: int, j: int|
                0 <= pk < k + 1 && 0 <= i < cw && 0 <= j < ch implies #[trigger] pixel(cells@[pk]@, i, j)
                    == cell_pixel(views[pk], opaque_box_of(views[pk]), cw as nat, ch as nat, i, j) by {
                if pk < k {
                    assert(cells@[pk] == cells_before[pk]);
                } else {
                    let pl = (cw - b.width) / 2;
                    let pt = (ch - b.height) / 2;
                    assert(cells@[pk] == cell);
                    assert(b == boxes@[pk]);
                    assert(crops@[pk].wf());
                    assert(pixel(cell@, i, j) == padded_pixel(crops@[pk]@, cw as nat, ch as nat, i, j));
                    if pl <= i < pl + b.width && pt <= j < pt + b.height {
                        assert(pixel(crops@[pk]@, i - pl, j - pt) == pixel(views[pk], b.left + (i - pl), b.top + (j - pt)));
                    }
                    assert(padded_pixel(crops@[pk]@, cw as nat, ch as nat, i, j) == cell_pixel(views[pk], b, cw as nat, ch as nat, i, j));
                }
            }
            assert forall|pk: int| 0 <= pk < k + 1 implies #[trigger] placements@[pk] == placement_of(views[pk], cw as nat, ch as nat) by {
                if pk < k {
                    assert(placements@[pk] == placements_before[pk]);
                }
            }
        }
        k = k + 1;
    }
    let sheet = assemble(&cells, cw, ch, cols as u32, rows);
    Ok(PackedSheet {
        sheet,
        cell_width: cw,
        cell_height: ch,
        columns: cols as u32,
        rows,
        cells,
        placements,
    })
}

/// Each opaque box is no larger than the largest.
pub proof fn lemma_box_within_max(imgs: Seq<BitmapView>, k: int)
    requires
        0 <= k < imgs.len(),
    ensures
        opaque_box_of(imgs[k]).width <= max_box_width(imgs),
        opaque_box_of(imgs[k]).height <= max_box_height(imgs),
    decreases imgs.len(),
{
    if k < imgs.len() - 1 {
        lemma_box_within_max(imgs.drop_last(), k);
        assert(imgs.drop_last()[k] == imgs[k]);
    }
}

/// With at least one cell, a cell has no more pixels than the sheet.
pub proof fn lemma_cell_fits_sheet(n: nat, cols: nat, rows: nat, cw: nat, ch: nat)
    requires
        cols >= 1,
        n >= 1 ==> cols <= n,
        rows == rows_for(n, cols),
        (cols * cw) * (rows * ch) <= usize::MAX,
    ensures
        n > 0 ==> cw * ch <= usize::MAX,
{
    if n > 0 {
        let t = n + cols - 1;
        assert(rows >= 1) by (nonlinear_arith)
            requires
                t >= cols,
                cols >= 1,
                rows == t / cols as int,
        ;
        assert(cw * ch <= (cols * cw) * (rows * ch)) by (nonlinear_arith)
            requires
                cols >= 1,
                rows >= 1,
        ;
    }
}

/// Unpacking a packed sheet gives back every cell: when `sheet` holds the
/// pixels that `assemble` puts there and `frames` the cells that
/// `unpack_frames` cuts out of it, each frame equals its cell, pixel for pixel.
pub proof fn lemma_unpack_after_pack(
    cells: Seq<BitmapView>,
    cw: nat,
    ch: nat,
    cols: nat,
    sheet: BitmapView,
    frames: Seq<BitmapView>,
)
    requires
        cols > 0,
        sheet.width == cols * cw,
        sheet.height == rows_for(cells.len(), cols) * ch,
        forall|x: int, y: int|
            0 <= x < sheet.width && 0 <= y < sheet.height ==> #[trigger] pixel(sheet, x, y)
                == sheet_pixel(cells, cw, ch, cols, x, y),
        frames.len() == cells.len(),
        forall|k: int, i: int, j: int|
            0 <= k < frames.len() && 0 <= i < cw && 0 <= j < ch ==> #[trigger] pixel(frames[k], i, j)
                == pixel(sheet, (k % cols as int) * cw + i, (k / cols as int) * ch + j),
    ensures
        forall|k: int, i: int, j: int|
            0 <= k < frames.len() && 0 <= i < cw && 0 <= j < ch ==> #[trigger] pixel(frames[k], i, j)
                == pixel(cells[k], i, j),
{
    assert forall|k: int, i: int, j: int|
        0 <= k < frames.len() && 0 <= i < cw && 0 <= j < ch implies #[trigger] pixel(frames[k], i, j)
            == pixel(cells[k], i, j) by {
        lemma_cell_in_sheet(cells.len(), cols, cw, ch, k as nat);
        lemma_unpack_recovers_cell(cells, cw, ch, cols, k, i, j);
        let x = (k % cols as int) * cw + i;
        let y = (k / cols as int) * ch + j;
        assert(0 <= x < sheet.width);
        assert(0 <= y < sheet.height);
        assert(pixel(sheet, x, y) == sheet_pixel(cells, cw, ch, cols, x, y));
    }
}

/// With at least one cell, the layout is a single row: the grid of all cells
/// side by side is checked first, and when it is taller than wide, so is every
/// grid with fewer columns.
pub proof fn lemma_single_row(n: nat, cw: nat, ch: nat)
    requires
        n >= 1,
    ensures
        columns_for(n, cw, ch) == n,
        rows_for(n, columns_for(n, cw, ch)) == 1,
{
    vstd::arithmetic::div_mod::lemma_fundamental_div_mod_converse(
        (n + n - 1) as int,
        n as int,
        1,
        (n - 1) as int,
    );
    assert(rows_for(n, n) == 1);
    if !grid_fits(n, n, cw, ch) {
        lemma_narrower_grids_too_tall(n, (n - 1) as nat, cw, ch);
    }
}

/// When a single row of `n` cells is taller than wide, every grid of at most
/// `c` columns is too, and the count falls back to `n`.
proof fn lemma_narrower_grids_too_tall(n: nat, c: nat, cw: nat, ch: nat)
    requires
        n >= 1,
        c < n,
        ch > n * cw,
    ensures
        columns_from(n, c, cw, ch) == n,
    decreases c,
{
    if c > 0 {
        let t = n + c - 1;
        let rows = rows_for(n, c);
        assert(rows >= 1) by (nonlinear_arith)
            requires
                t >= c,
                c >= 1,
                rows == t / c as int,
        ;
        assert(rows * ch > c * cw) by (nonlinear_arith)
            requires
                rows >= 1,
                ch > n * cw,
                c < n,
        ;
        lemma_narrower_grids_too_tall(n, (c - 1) as nat, cw, ch);
    }
}

} // verus!
