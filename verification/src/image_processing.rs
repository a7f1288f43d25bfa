//! The rasterization engine: mapping a decoded bitmap to a grid of glyphs
//! under a sampling strategy and an ordered glyph ramp.

use vstd::prelude::*;
use vstd::string::StrSliceExecFns;
use vstd::string::StringSliceAdditionalSpecFns;
use crate::chars::{push_char, str_eq};
use crate::errors::AsciiError;

verus! {

/// A resampling kernel, interpreted by the external image collaborator.
#[derive(Clone, Copy, Debug, PartialEq, Eq, Structural)]
pub enum Kernel {
    Nearest,
    Triangle,
    Lanczos3,
}

/// How source pixels become output cells.
///
/// `FilteredResize` resamples the source to the output grid with a kernel;
/// `PixelResize` samples one source pixel per output cell by a fixed formula;
/// `PixelExact` maps every source pixel to one cell, ignoring the requested
/// column count.
#[derive(Clone, Copy, Debug, PartialEq, Eq, Structural)]
pub enum Strategy {
    FilteredResize { kernel: Kernel },
    PixelResize,
    PixelExact,
}

/// The strategy names accepted by `select_filter`.
pub open spec fn recognized_strategy(s: Seq<char>) -> bool {
    s == "nearest"@ || s == "triangle"@ || s == "lanczos3"@ || s == "pixel"@ || s == "1to1"@
}

/// Turn a strategy name into its sampling behavior. Any unrecognized name is
/// an `UnknownStrategy` error whose message lists the accepted names.
pub fn select_filter(name: &str) -> (r: Result<Strategy, AsciiError>)
    ensures
        name@ == "nearest"@
            ==> r == Ok::<Strategy, AsciiError>(Strategy::FilteredResize { kernel: Kernel::Nearest }),
        name@ == "triangle"@
            ==> r == Ok::<Strategy, AsciiError>(Strategy::FilteredResize { kernel: Kernel::Triangle }),
        name@ == "lanczos3"@
            ==> r == Ok::<Strategy, AsciiError>(Strategy::FilteredResize { kernel: Kernel::Lanczos3 }),
        name@ == "pixel"@ ==> r == Ok::<Strategy, AsciiError>(Strategy::PixelResize),
        name@ == "1to1"@ ==> r == Ok::<Strategy, AsciiError>(Strategy::PixelExact),
        !recognized_strategy(name@) ==> match r {
            Ok(_) => false,
            Err(e) => e matches AsciiError::UnknownStrategy { name: n } && n@ == name@,
        },
{
    proof {
        reveal_strlit("nearest");
        reveal_strlit("triangle");
        reveal_strlit("lanczos3");
        reveal_strlit("pixel");
        reveal_strlit("1to1");
        assert("nearest"@.len() == 7);
        assert("triangle"@.len() == 8);
        assert("lanczos3"@.len() == 8);
        assert("pixel"@.len() == 5);
        assert("1to1"@.len() == 4);
        assert("triangle"@[0] == 't');
        assert("lanczos3"@[0] == 'l');
    }
    if str_eq(name, "nearest") {
        Ok(Strategy::FilteredResize { kernel: Kernel::Nearest })
    } else if str_eq(name, "triangle") {
        Ok(Strategy::FilteredResize { kernel: Kernel::Triangle })
    } else if str_eq(name, "lanczos3") {
        Ok(Strategy::FilteredResize { kernel: Kernel::Lanczos3 })
    } else if str_eq(name, "pixel") {
        Ok(Strategy::PixelResize)
    } else if str_eq(name, "1to1") {
        Ok(Strategy::PixelExact)
    } else {
        Err(AsciiError::UnknownStrategy { name: name.to_owned() })
    }
}

/// What a ramp specifier resolves to: two named presets, and any other
/// string taken verbatim as its own byte sequence, darkest glyph first.
pub open spec fn resolved_ramp(s: &str) -> Seq<u8> {
    if s@ == "basic"@ {
        " .:-=+*#%@".spec_bytes()
    } else if s@ == "classic"@ {
        " .'`^\",:;Il!i<>*+_-?][}{)(|\\/tfjrxnuvczXYUJCLQ0OZmwqpdbkhao*#MW&8%B@$".spec_bytes()
    } else {
        s.spec_bytes()
    }
}

/// Resolve a ramp specifier into the ordered glyph palette.
/// Fails with `InvalidRamp` exactly when the resolved byte sequence is empty.
pub fn select_ramp(specifier: &str) -> (r: Result<Vec<u8>, AsciiError>)
    ensures
        match r {
            Ok(v) => v@ == resolved_ramp(specifier) && v@.len() >= 1,
            Err(e) => e == AsciiError::InvalidRamp && resolved_ramp(specifier).len() == 0,
        },
{
    let bytes: Vec<u8> = if str_eq(specifier, "basic") {
        " .:-=+*#%@".as_bytes_vec()
    } else if str_eq(specifier, "classic") {
        " .'`^\",:;Il!i<>*+_-?][}{)(|\\/tfjrxnuvczXYUJCLQ0OZmwqpdbkhao*#MW&8%B@$".as_bytes_vec()
    } else {
        specifier.as_bytes_vec()
    };
    if bytes.len() == 0 {
        Err(AsciiError::InvalidRamp)
    } else {
        Ok(bytes)
    }
}

/// The palette slot for a luminance value: truncating integer division with
/// an explicit upper clamp, so luminance 255 always lands on the brightest
/// glyph whatever the palette length.
pub open spec fn palette_index_spec(lum: int, len: int) -> int
    recommends
        0 <= lum <= 255,
        len >= 1,
{
    let i = lum * (len - 1) / 255;
    if i <= len - 1 {
        i
    } else {
        len - 1
    }
}

/// Map one luminance value to a palette index.
pub fn palette_index(lum: u8, len: usize) -> (i: usize)
    requires
        len >= 1,
    ensures
        i == palette_index_spec(lum as int, len as int),
        i < len,
{
    proof {
        assert((lum as int) * ((len - 1) as int) <= 255 * ((len - 1) as int)) by (nonlinear_arith)
            requires
                0 <= lum <= 255,
                len >= 1,
        ;
    }
    let q: u128 = (lum as u128) * ((len - 1) as u128) / 255;
    if q <= (len - 1) as u128 {
        q as usize
    } else {
        len - 1
    }
}

/// A decoded source image, reduced to what the rasterizer reads:
/// its dimensions and one luminance byte per pixel, row-major.
pub struct Bitmap {
    pub width: u32,
    pub height: u32,
    pub pixels: Vec<u8>,
}

impl Bitmap {
    /// One luminance byte per pixel.
    pub open spec fn wf(self) -> bool {
        self.pixels@.len() == self.width * self.height
    }

    /// Build a bitmap from row-major luminance bytes; `None` when the buffer
    /// does not hold exactly `width * height` bytes.
    pub fn from_luma(width: u32, height: u32, pixels: Vec<u8>) -> (r: Option<Bitmap>)
        ensures
            match r {
                Some(b) => b.wf() && b.width == width && b.height == height
                    && b.pixels@ == pixels@,
                None => pixels@.len() != width * height,
            },
    {
        proof {
            assert((width as int) * (height as int) <= 0xffff_ffff * 0xffff_ffff)
                by (nonlinear_arith)
                requires
                    width <= 0xffff_ffffu32,
                    height <= 0xffff_ffffu32,
            ;
        }
        if pixels.len() as u64 == (width as u64) * (height as u64) {
            Some(Bitmap { width, height, pixels })
        } else {
            None
        }
    }
}

/// The glyph drawn for cell `i` of a flat luminance buffer.
pub open spec fn glyph_at(px: Seq<u8>, ramp: Seq<u8>, i: int) -> char
    recommends
        0 <= i < px.len(),
        ramp.len() >= 1,
{
    ramp[palette_index_spec(px[i] as int, ramp.len() as int)] as char
}

/// One output row: `wd` glyphs for the cells of row `y`, then a newline.
pub open spec fn render_row(px: Seq<u8>, wd: int, ramp: Seq<u8>, y: int) -> Seq<char> {
    Seq::new(wd as nat, |x: int| glyph_at(px, ramp, y * wd + x)).push('\n')
}

/// The whole glyph grid for a `wd`-wide, `rows`-tall luminance buffer:
/// the rows in order, each terminated by its newline.
pub open spec fn render_grid(px: Seq<u8>, wd: int, rows: int, ramp: Seq<u8>) -> Seq<char>
    decreases rows,
{
    if rows <= 0 {
        Seq::empty()
    } else {
        render_grid(px, wd, rows - 1, ramp) + render_row(px, wd, ramp, rows - 1)
    }
}

/// Draw the glyphs for a flat luminance buffer of `wd` columns and `rows` rows.
fn render_direct(px: &Vec<u8>, wd: u32, rows: u32, ramp: &Vec<u8>) -> (out: String)
    requires
        ramp@.len() >= 1,
        px@.len() == wd * rows,
        rows * (wd + 1) <= usize::MAX,
    ensures
        out@ == render_grid(px@, wd as int, rows as int, ramp@),
{
    let plen: usize = px.len();
    let mut out = String::new();
    let mut y: u32 = 0;
    while y < rows
        invariant
            y <= rows,
            ramp@.len() >= 1,
            px@.len() == wd * rows,
            plen == px@.len(),
            out@ == render_grid(px@, wd as int, y as int, ramp@),
        decreases rows - y,
    {
        let mut x: u32 = 0;
        while x < wd
            invariant
                x <= wd,
                y < rows,
                ramp@.len() >= 1,
                px@.len() == wd * rows,
                plen == px@.len(),
                out@ == render_grid(px@, wd as int, y as int, ramp@)
                    + Seq::new(x as nat, |j: int| glyph_at(px@, ramp@, (y as int) * (wd as int) + j)),
            decreases wd - x,
        {
            proof {
                assert((y as int) * (wd as int) + (x as int) < (wd as int) * (rows as int)
                    && 0 <= (y as int) * (wd as int) + (x as int)) by (nonlinear_arith)
                    requires
                        0 <= (x as int) < (wd as int),
                        0 <= (y as int) < (rows as int),
                ;
            }
            let idx: usize = (y as usize) * (wd as usize) + (x as usize);
            let lum: u8 = px[idx];
            let gi: usize = palette_index(lum, ramp.len());
            let g: u8 = ramp[gi];
            push_char(&mut out, g as char);
            proof {
                assert(out@ =~= render_grid(px@, wd as int, y as int, ramp@)
                    + Seq::new((x + 1) as nat,
                        |j: int| glyph_at(px@, ramp@, (y as int) * (wd as int) + j)));
            }
            x = x + 1;
        }
        push_char(&mut out, '\n');
        proof {
            assert(out@ =~= render_grid(px@, wd as int, y as int, ramp@)
                + render_row(px@, wd as int, ramp@, y as int));
            assert(render_grid(px@, wd as int, (y + 1) as int, ramp@)
                == render_grid(px@, wd as int, y as int, ramp@)
                    + render_row(px@, wd as int, ramp@, y as int));
        }
        y = y + 1;
    }
    out
}

/// The output row count of the resizing strategies: the source height scaled
/// by `cols / width`, corrected by the cell aspect (in hundredths), rounded
/// half-up, and never less than one row.
pub open spec fn out_rows(w: int, h: int, cols: int, aspect: int) -> int
    recommends
        w >= 1,
        aspect >= 1,
{
    let r = (200 * h * cols + w * aspect) / (2 * w * aspect);
    if r >= 1 {
        r
    } else {
        1
    }
}

/// Compute the output row count for the resizing strategies.
pub fn output_rows(width: u32, height: u32, cols: u32, cell_aspect: u32) -> (r: u128)
    requires
        width >= 1,
        cell_aspect >= 1,
    ensures
        r == out_rows(width as int, height as int, cols as int, cell_aspect as int),
{
    proof {
        assert(200 * (height as int) * (cols as int) <= 200 * 0xffff_ffff * 0xffff_ffff
            && (width as int) * (cell_aspect as int) <= 0xffff_ffff * 0xffff_ffff
            && 2 * (width as int) * (cell_aspect as int) <= 2 * 0xffff_ffff * 0xffff_ffff
            && 2 * (width as int) * (cell_aspect as int) >= 2)
            by (nonlinear_arith)
            requires
                height <= 0xffff_ffffu32,
                cols <= 0xffff_ffffu32,
                1 <= width <= 0xffff_ffffu32,
                1 <= cell_aspect <= 0xffff_ffffu32,
        ;
    }
    let num: u128 = 200 * (height as u128) * (cols as u128)
        + (width as u128) * (cell_aspect as u128);
    let den: u128 = 2 * (width as u128) * (cell_aspect as u128);
    let q: u128 = num / den;
    if q >= 1 {
        q
    } else {
        1
    }
}

/// The source column sampled for output column `x` under `PixelResize`:
/// `floor((x + 0.5) * width / cols)`, clamped to the image.
pub open spec fn sample_src_x(x: int, w: int, cols: int) -> int
    recommends
        w >= 1,
        cols >= 1,
{
    let v = (2 * x + 1) * w / (2 * cols);
    if v <= w - 1 {
        v
    } else {
        w - 1
    }
}

/// The source row sampled for output row `y` under `PixelResize`:
/// `floor((y + 0.5) * width * aspect / cols)` with aspect in hundredths,
/// clamped to the image.
pub open spec fn sample_src_y(y: int, w: int, h: int, cols: int, aspect: int) -> int
    recommends
        w >= 1,
        h >= 1,
        cols >= 1,
        aspect >= 1,
{
    let v = (2 * y + 1) * w * aspect / (200 * cols);
    if v <= h - 1 {
        v
    } else {
        h - 1
    }
}

/// The luminance buffer that `PixelResize` reads: one source pixel per
/// output cell, chosen by the sampling formulas.
pub open spec fn sampled(px: Seq<u8>, w: int, h: int, cols: int, rows: int, aspect: int) -> Seq<u8>
    recommends
        px.len() == w * h,
        w >= 1,
        h >= 1,
        cols >= 1,
        aspect >= 1,
{
    Seq::new((cols * rows) as nat,
        |i: int| px[sample_src_y(i / cols, w, h, cols, aspect) * w + sample_src_x(i % cols, w, cols)])
}

/// Build the sampled luminance buffer for `PixelResize`.
fn sample_direct(px: &Vec<u8>, w: u32, h: u32, cols: u32, rows: u32, aspect: u32) -> (v: Vec<u8>)
    requires
        px@.len() == w * h,
        w >= 1,
        h >= 1,
        cols >= 1,
        aspect >= 1,
        cols * rows <= usize::MAX,
    ensures
        v@ == sampled(px@, w as int, h as int, cols as int, rows as int, aspect as int),
{
    let ghost target = sampled(px@, w as int, h as int, cols as int, rows as int, aspect as int);
    let plen: usize = px.len();
    let mut out: Vec<u8> = Vec::new();
    let mut y: u32 = 0;
    while y < rows
        invariant
            y <= rows,
            px@.len() == w * h,
            w >= 1,
            h >= 1,
            cols >= 1,
            aspect >= 1,
            cols * rows <= usize::MAX,
            plen == px@.len(),
            target == sampled(px@, w as int, h as int, cols as int, rows as int, aspect as int),
            out@.len() == (y as int) * (cols as int),
            out@ == target.take((y as int) * (cols as int)),
        decreases rows - y,
    {
        let mut x: u32 = 0;
        while x < cols
            invariant
                x <= cols,
                y < rows,
                px@.len() == w * h,
                w >= 1,
                h >= 1,
                cols >= 1,
                aspect >= 1,
                cols * rows <= usize::MAX,
                plen == px@.len(),
                target == sampled(px@, w as int, h as int, cols as int, rows as int, aspect as int),
                out@.len() == (y as int) * (cols as int) + (x as int),
                out@ == target.take((y as int) * (cols as int) + (x as int)),
            decreases cols - x,
        {
            proof {
                assert((2 * (x as int) + 1) * (w as int) <= 0x3_0000_0000 * 0x1_0000_0000
                    && (2 * (y as int) + 1) * (w as int) <= 0x3_0000_0000 * 0x1_0000_0000
                    && (2 * (y as int) + 1) * (w as int) * (aspect as int)
                        <= 0x3_0000_0000 * 0x1_0000_0000 * 0x1_0000_0000
                    && (2 * (x as int) + 1) * (w as int) >= 0
                    && (2 * (y as int) + 1) * (w as int) * (aspect as int) >= 0)
                    by (nonlinear_arith)
                    requires
                        x <= 0xffff_ffffu32,
                        y <= 0xffff_ffffu32,
                        w <= 0xffff_ffffu32,
                        aspect <= 0xffff_ffffu32,
                ;
            }
            let tx: u128 = (2 * (x as u128) + 1) * (w as u128) / (2 * (cols as u128));
            let sx: u128 = if tx <= (w - 1) as u128 { tx } else { (w - 1) as u128 };
            let ty: u128 = (2 * (y as u128) + 1) * (w as u128) * (aspect as u128)
                / (200 * (cols as u128));
            let sy: u128 = if ty <= (h - 1) as u128 { ty } else { (h - 1) as u128 };
            proof {
                assert((sy as int) * (w as int) + (sx as int) < (w as int) * (h as int)
                    && 0 <= (sy as int) * (w as int) + (sx as int)) by (nonlinear_arith)
                    requires
                        0 <= (sx as int) <= (w as int) - 1,
                        0 <= (sy as int) <= (h as int) - 1,
                        w >= 1,
                        h >= 1,
                ;
                assert((w as int) * (h as int) == px@.len());
            }
            let si: usize = (sy as usize) * (w as usize) + (sx as usize);
            out.push(px[si]);
            proof {
                let gi = (y as int) * (cols as int) + (x as int);
                assert(0 <= (y as int) * (cols as int) + (x as int)
                    && (y as int) * (cols as int) + (x as int) < (cols as int) * (rows as int))
                    by (nonlinear_arith)
                    requires
                        0 <= (x as int) < (cols as int),
                        0 <= (y as int) < (rows as int),
                ;
                vstd::arithmetic::div_mod::lemma_fundamental_div_mod_converse(
                    gi, cols as int, y as int, x as int);
                assert(target[gi] == px@[(sy as int) * (w as int) + (sx as int)]);
                assert(out@ =~= target.take(gi + 1));
            }
            x = x + 1;
        }
        proof {
            assert((y as int) * (cols as int) + (cols as int)
                == ((y as int) + 1) * (cols as int)) by (nonlinear_arith);
        }
        y = y + 1;
    }
    proof {
        assert((rows as int) * (cols as int) == (cols as int) * (rows as int))
            by (nonlinear_arith);
        assert(out@ =~= target);
    }
    out
}

/// The luminance buffer that the external collaborator's resampling returns
/// for a given kernel, source buffer, source dimensions and target
/// dimensions. It depends on those arguments alone.
pub uninterp spec fn resized_luma(kernel: int, px: Seq<u8>, w: int, h: int, nw: int, nh: int) -> Seq<u8>;

/// A stable code for each kernel, used to tell the resampling results apart.
pub open spec fn kernel_code(k: Kernel) -> int {
    match k {
        Kernel::Nearest => 0,
        Kernel::Triangle => 1,
        Kernel::Lanczos3 => 2,
    }
}

/// Relies on `image::imageops::resize` (reached through
/// `image::GrayImage::from_raw` and `into_raw`, which convert between the raw
/// luminance buffer and the crate's image type): the resampled buffer is a
/// deterministic function of the kernel, the source pixels and the
/// dimensions, and holds exactly `nw * nh` luminance bytes.
#[verifier::external_body]
fn resize_luma(px: &Vec<u8>, w: u32, h: u32, nw: u32, nh: u32, kernel: Kernel) -> (r: Vec<u8>)
    requires
        px@.len() == w * h,
        w >= 1,
        h >= 1,
        nw >= 1,
        nh >= 1,
        nw * nh <= usize::MAX,
    ensures
        r@ == resized_luma(kernel_code(kernel), px@, w as int, h as int, nw as int, nh as int),
        r@.len() == nw * nh,
{
    let filter = match kernel {
        Kernel::Nearest => image::imageops::FilterType::Nearest,
        Kernel::Triangle => image::imageops::FilterType::Triangle,
        Kernel::Lanczos3 => image::imageops::FilterType::Lanczos3,
    };
    let buf = image::GrayImage::from_raw(w, h, px.clone()).expect("buffer matches dimensions");
    image::imageops::resize(&buf, nw, nh, filter).into_raw()
}

/// The inputs on which a conversion is owed: positive dimensions, at least
/// one output column, a non-empty palette, and a cell aspect within the
/// accepted range (0.50 to 5.00, in hundredths).
pub open spec fn params_ok(img: Bitmap, cols: u32, aspect: u32, ramp: Seq<u8>) -> bool {
    img.width >= 1 && img.height >= 1 && cols >= 1 && 50 <= aspect <= 500 && ramp.len() >= 1
}

/// Which parameter `image_to_ascii` rejects first when several are bad.
pub open spec fn param_fault(img: Bitmap, cols: u32, aspect: u32, ramp: Seq<u8>) -> Seq<char> {
    if cols == 0 {
        "cols"@
    } else if img.width == 0 || img.height == 0 {
        "image dimensions"@
    } else if ramp.len() == 0 {
        "ramp"@
    } else {
        "cell-aspect"@
    }
}

/// The full conversion result, by strategy: the glyph grid drawn from the
/// source buffer itself (`PixelExact`), from the kernel-resampled buffer
/// (`FilteredResize`), or from the formula-sampled buffer (`PixelResize`).
pub open spec fn ascii_grid(img: Bitmap, cols: int, aspect: int, strategy: Strategy, ramp: Seq<u8>) -> Seq<char>
    recommends
        img.wf(),
        params_ok(img, cols as u32, aspect as u32, ramp),
{
    let w = img.width as int;
    let h = img.height as int;
    match strategy {
        Strategy::PixelExact => render_grid(img.pixels@, w, h, ramp),
        Strategy::FilteredResize { kernel } => {
            let rows = out_rows(w, h, cols, aspect);
            render_grid(resized_luma(kernel_code(kernel), img.pixels@, w, h, cols, rows),
                cols, rows, ramp)
        },
        Strategy::PixelResize => {
            let rows = out_rows(w, h, cols, aspect);
            render_grid(sampled(img.pixels@, w, h, cols, rows, aspect), cols, rows, ramp)
        },
    }
}

/// The machine limits under which the grid can be built at all: the output
/// text must fit in a single allocation, and the resampled dimensions in the
/// collaborator's 32-bit sizes.
pub open spec fn grid_fits(img: Bitmap, cols: int, aspect: int, strategy: Strategy) -> bool {
    let w = img.width as int;
    let h = img.height as int;
    match strategy {
        Strategy::PixelExact => h * (w + 1) <= usize::MAX,
        _ => {
            let rows = out_rows(w, h, cols, aspect);
            rows <= u32::MAX && rows * (cols + 1) <= usize::MAX
        },
    }
}

/// Convert one decoded image to its glyph grid, as newline-terminated rows.
/// `cell_aspect` is the glyph cell's height-to-width ratio in hundredths
/// (200 stands for the usual 2.0).
///
/// Rejects zero columns, a zero-dimension image, an empty palette and an
/// out-of-range cell aspect as `InvalidParameter`; on every other input it
/// returns exactly the grid that `ascii_grid` describes.
pub fn image_to_ascii(img: &Bitmap, cols: u32, cell_aspect: u32, strategy: Strategy, ramp: Vec<u8>) -> (r: Result<String, AsciiError>)
    requires
        img.wf(),
        params_ok(*img, cols, cell_aspect, ramp@)
            ==> grid_fits(*img, cols as int, cell_aspect as int, strategy),
    ensures
        match r {
            Ok(s) => params_ok(*img, cols, cell_aspect, ramp@)
                && s@ == ascii_grid(*img, cols as int, cell_aspect as int, strategy, ramp@),
            Err(e) => !params_ok(*img, cols, cell_aspect, ramp@) && match e {
                AsciiError::InvalidParameter { what } =>
                    what@ == param_fault(*img, cols, cell_aspect, ramp@),
                _ => false,
            },
        },
{
    if cols == 0 {
        return Err(AsciiError::InvalidParameter { what: "cols".to_owned() });
    }
    if img.width == 0 || img.height == 0 {
        return Err(AsciiError::InvalidParameter { what: "image dimensions".to_owned() });
    }
    if ramp.len() == 0 {
        return Err(AsciiError::InvalidParameter { what: "ramp".to_owned() });
    }
    if cell_aspect < 50 || cell_aspect > 500 {
        return Err(AsciiError::InvalidParameter { what: "cell-aspect".to_owned() });
    }
    match strategy {
        Strategy::PixelExact => {
            Ok(render_direct(&img.pixels, img.width, img.height, &ramp))
        },
        Strategy::FilteredResize { kernel } => {
            let rows128 = output_rows(img.width, img.height, cols, cell_aspect);
            let rows: u32 = rows128 as u32;
            proof {
                assert((cols as int) * (rows as int) <= (rows as int) * ((cols as int) + 1)
                    && (rows as int) * ((cols as int) + 1) >= 0) by (nonlinear_arith)
                    requires
                        cols >= 1,
                        rows >= 1,
                ;
            }
            let rpx = resize_luma(&img.pixels, img.width, img.height, cols, rows, kernel);
            Ok(render_direct(&rpx, cols, rows, &ramp))
        },
        Strategy::PixelResize => {
            let rows128 = output_rows(img.width, img.height, cols, cell_aspect);
            let rows: u32 = rows128 as u32;
            proof {
                assert((cols as int) * (rows as int) <= (rows as int) * ((cols as int) + 1)
                    && (rows as int) * ((cols as int) + 1) >= 0) by (nonlinear_arith)
                    requires
                        cols >= 1,
                        rows >= 1,
                ;
            }
            let spx = sample_direct(&img.pixels, img.width, img.height, cols, rows, cell_aspect);
            Ok(render_direct(&spx, cols, rows, &ramp))
        },
    }
}

/// A row holds exactly `wd` glyphs and then its newline.
pub proof fn lemma_render_row_shape(px: Seq<u8>, wd: int, ramp: Seq<u8>, y: int)
    requires
        wd >= 0,
    ensures
        render_row(px, wd, ramp, y).len() == wd + 1,
        render_row(px, wd, ramp, y)[wd] == '\n',
        forall|x: int| 0 <= x < wd
            ==> render_row(px, wd, ramp, y)[x] == glyph_at(px, ramp, y * wd + x),
{
}

/// A grid of `rows` rows over `wd` columns holds exactly `rows * (wd + 1)`
/// characters.
pub proof fn lemma_render_grid_len(px: Seq<u8>, wd: int, rows: int, ramp: Seq<u8>)
    requires
        wd >= 0,
        rows >= 0,
    ensures
        render_grid(px, wd, rows, ramp).len() == rows * (wd + 1),
    decreases rows,
{
    if rows == 0 {
        assert(0 * (wd + 1) == 0);
    } else {
        lemma_render_grid_len(px, wd, rows - 1, ramp);
        assert((rows - 1) * (wd + 1) + (wd + 1) == rows * (wd + 1)) by (nonlinear_arith);
    }
}

/// Row `y` of a grid stands exactly at positions `y * (wd + 1)` up to
/// `(y + 1) * (wd + 1)`.
pub proof fn lemma_render_grid_row(px: Seq<u8>, wd: int, rows: int, ramp: Seq<u8>, y: int)
    requires
        wd >= 0,
        0 <= y < rows,
    ensures
        render_grid(px, wd, rows, ramp).subrange(y * (wd + 1), (y + 1) * (wd + 1))
            == render_row(px, wd, ramp, y),
    decreases rows,
{
    lemma_render_grid_len(px, wd, rows, ramp);
    lemma_render_grid_len(px, wd, rows - 1, ramp);
    assert(y * (wd + 1) >= 0 && (y + 1) * (wd + 1) <= rows * (wd + 1)
        && (y + 1) * (wd + 1) == y * (wd + 1) + (wd + 1)) by (nonlinear_arith)
        requires
            0 <= y < rows,
            wd >= 0,
    ;
    if y == rows - 1 {
        assert(render_grid(px, wd, rows, ramp).subrange(y * (wd + 1), (y + 1) * (wd + 1))
            =~= render_row(px, wd, ramp, y));
    } else {
        lemma_render_grid_row(px, wd, rows - 1, ramp, y);
        assert((y + 1) * (wd + 1) <= (rows - 1) * (wd + 1)) by (nonlinear_arith)
            requires
                y + 1 <= rows - 1,
                wd >= 0,
        ;
        assert(render_grid(px, wd, rows, ramp).subrange(y * (wd + 1), (y + 1) * (wd + 1))
            =~= render_grid(px, wd, rows - 1, ramp).subrange(y * (wd + 1), (y + 1) * (wd + 1)));
    }
}

/// Under `PixelExact` the grid has exactly as many rows as the source image
/// and exactly as many columns per row as the source width, whatever column
/// count and cell aspect were requested.
pub proof fn lemma_pixel_exact_shape(img: Bitmap, cols: int, aspect: int, ramp: Seq<u8>)
    ensures
        ascii_grid(img, cols, aspect, Strategy::PixelExact, ramp).len()
            == img.height * (img.width + 1),
        forall|y: int| 0 <= y < img.height
            ==> #[trigger] ascii_grid(img, cols, aspect, Strategy::PixelExact, ramp)
                [y * (img.width + 1) + img.width] == '\n',
{
    let w = img.width as int;
    let h = img.height as int;
    let grid = ascii_grid(img, cols, aspect, Strategy::PixelExact, ramp);
    lemma_render_grid_len(img.pixels@, w, h, ramp);
    assert forall|y: int| 0 <= y < h implies #[trigger] grid[y * (w + 1) + w] == '\n' by {
        lemma_render_grid_row(img.pixels@, w, h, ramp, y);
        lemma_render_row_shape(img.pixels@, w, ramp, y);
        assert((y + 1) * (w + 1) == y * (w + 1) + (w + 1)
            && 0 <= y * (w + 1) && (y + 1) * (w + 1) <= h * (w + 1)) by (nonlinear_arith)
            requires
                0 <= y < h,
                w >= 0,
        ;
        assert(grid[y * (w + 1) + w]
            == grid.subrange(y * (w + 1), (y + 1) * (w + 1))[w]);
    }
}

/// Under `FilteredResize` and `PixelResize` the grid has exactly
/// `out_rows` rows (`max(1, round(height * (cols / width) / aspect))`) and
/// exactly `cols` columns per row.
pub proof fn lemma_resize_shape(img: Bitmap, cols: int, aspect: int, strategy: Strategy, ramp: Seq<u8>)
    requires
        !(strategy is PixelExact),
        cols >= 0,
    ensures
        ascii_grid(img, cols, aspect, strategy, ramp).len()
            == out_rows(img.width as int, img.height as int, cols, aspect) * (cols + 1),
        forall|y: int| 0 <= y < out_rows(img.width as int, img.height as int, cols, aspect)
            ==> #[trigger] ascii_grid(img, cols, aspect, strategy, ramp)[y * (cols + 1) + cols]
                == '\n',
{
    let w = img.width as int;
    let h = img.height as int;
    let rows = out_rows(w, h, cols, aspect);
    let grid = ascii_grid(img, cols, aspect, strategy, ramp);
    let buf = match strategy {
        Strategy::FilteredResize { kernel } =>
            resized_luma(kernel_code(kernel), img.pixels@, w, h, cols, rows),
        _ => sampled(img.pixels@, w, h, cols, rows, aspect),
    };
    assert(grid == render_grid(buf, cols, rows, ramp));
    lemma_render_grid_len(buf, cols, rows, ramp);
    assert forall|y: int| 0 <= y < rows implies #[trigger] grid[y * (cols + 1) + cols] == '\n' by {
        lemma_render_grid_row(buf, cols, rows, ramp, y);
        lemma_render_row_shape(buf, cols, ramp, y);
        assert((y + 1) * (cols + 1) == y * (cols + 1) + (cols + 1)
            && 0 <= y * (cols + 1) && (y + 1) * (cols + 1) <= rows * (cols + 1))
            by (nonlinear_arith)
            requires
                0 <= y < rows,
                cols >= 0,
        ;
        assert(grid[y * (cols + 1) + cols]
            == grid.subrange(y * (cols + 1), (y + 1) * (cols + 1))[cols]);
    }
}

/// The index is always within the palette; luminance 0 maps to the darkest
/// glyph and luminance 255 to the brightest, for every non-empty palette.
pub proof fn lemma_palette_index_range(lum: int, len: int)
    requires
        0 <= lum <= 255,
        len >= 1,
    ensures
        0 <= palette_index_spec(lum, len) <= len - 1,
        lum == 0 ==> palette_index_spec(lum, len) == 0,
        lum == 255 ==> palette_index_spec(lum, len) == len - 1,
{
    assert(0 <= lum * (len - 1) / 255) by (nonlinear_arith)
        requires
            0 <= lum,
            len >= 1,
    ;
    if lum == 255 {
        vstd::arithmetic::div_mod::lemma_div_multiples_vanish(len - 1, 255);
        assert(255 * (len - 1) == (len - 1) * 255) by (nonlinear_arith);
    }
}

} // verus!
