//! Row-major RGBA pixel buffers and the few operations the compositor needs:
//! filling, reading, copying one buffer into another and a three-quarter turn.

use vstd::arithmetic::div_mod::lemma_fundamental_div_mod_converse;
use vstd::prelude::*;

verus! {

/// One pixel: red, green, blue and alpha, eight bits each.
#[derive(Clone, Copy, Debug, PartialEq, Eq, Structural)]
pub struct Rgba {
    pub r: u8,
    pub g: u8,
    pub b: u8,
    pub a: u8,
}

impl Rgba {
    /// Opaque white, the colour of the canvas and of a space.
    pub open spec fn spec_white() -> Rgba {
        Rgba { r: 255, g: 255, b: 255, a: 255 }
    }

    /// Opaque black, the colour of a bar.
    pub open spec fn spec_black() -> Rgba {
        Rgba { r: 0, g: 0, b: 0, a: 255 }
    }

    #[verifier::when_used_as_spec(spec_white)]
    pub fn white() -> (p: Rgba)
        ensures
            p == Rgba::spec_white(),
    {
        Rgba { r: 255, g: 255, b: 255, a: 255 }
    }

    #[verifier::when_used_as_spec(spec_black)]
    pub fn black() -> (p: Rgba)
        ensures
            p == Rgba::spec_black(),
    {
        Rgba { r: 0, g: 0, b: 0, a: 255 }
    }

    /// The channel at position `c` of the byte layout: 0 red, 1 green, 2 blue,
    /// anything else alpha.
    pub open spec fn channel(self, c: int) -> u8 {
        if c == 0 {
            self.r
        } else if c == 1 {
            self.g
        } else if c == 2 {
            self.b
        } else {
            self.a
        }
    }
}

/// The mathematical picture behind a [`Bitmap`]: its size and its pixels, row
/// after row from the top, each row from the left.
pub struct Raster {
    pub width: nat,
    pub height: nat,
    pub pixels: Seq<Rgba>,
}

impl Raster {
    /// There is exactly one pixel per coordinate.
    pub open spec fn wf(self) -> bool {
        self.pixels.len() == self.width * self.height
    }

    /// `(x, y)` lies inside the picture.
    pub open spec fn contains(self, x: int, y: int) -> bool {
        0 <= x < self.width && 0 <= y < self.height
    }

    /// The pixel in column `x` of row `y`.
    pub open spec fn at(self, x: int, y: int) -> Rgba {
        self.pixels[y * self.width + x]
    }

    /// The picture of the given size whose pixel at `(x, y)` is `f(x, y)`.
    pub open spec fn from_fn(width: nat, height: nat, f: spec_fn(int, int) -> Rgba) -> Raster {
        Raster {
            width,
            height,
            pixels: Seq::new(width * height, |i: int| f(i % (width as int), i / (width as int))),
        }
    }

    /// A picture of one colour.
    pub open spec fn filled(width: nat, height: nat, pixel: Rgba) -> Raster {
        Raster::from_fn(width, height, |x: int, y: int| pixel)
    }

    /// `top` fits into `self` with its top-left corner at `(x0, y0)`.
    pub open spec fn admits(self, top: Raster, x0: nat, y0: nat) -> bool {
        x0 + top.width <= self.width && y0 + top.height <= self.height
    }

    /// `self` with `top` laid over it, the top-left corner of `top` at
    /// `(x0, y0)`: colour and alpha of `top` replace what was there.
    pub open spec fn overlay(self, top: Raster, x0: nat, y0: nat) -> Raster {
        Raster::from_fn(
            self.width,
            self.height,
            |x: int, y: int| self.overlaid_at(top, x0, y0, x, y),
        )
    }

    /// The pixel at `(x, y)` once `top` lies over `self` at `(x0, y0)`.
    pub open spec fn overlaid_at(self, top: Raster, x0: nat, y0: nat, x: int, y: int) -> Rgba {
        if x0 <= x < x0 + top.width && y0 <= y < y0 + top.height {
            top.at(x - x0, y - y0)
        } else {
            self.at(x, y)
        }
    }

    /// `self` turned by 270 degrees clockwise, that is a quarter turn against
    /// the clock: the right-hand column becomes the top row.
    pub open spec fn rotate270(self) -> Raster {
        Raster::from_fn(
            self.height,
            self.width,
            |x: int, y: int| self.at(self.width - 1 - y, x),
        )
    }

    /// The colour of one module: a space where it is 0, a bar otherwise.
    pub open spec fn module_colour(module: u8) -> Rgba {
        if module == 0 {
            Rgba::spec_white()
        } else {
            Rgba::spec_black()
        }
    }

    /// A row of modules drawn `height` pixels tall, one column per module.
    pub open spec fn bars(modules: Seq<u8>, height: nat) -> Raster {
        Raster::from_fn(
            modules.len(),
            height,
            |x: int, y: int| Raster::module_colour(modules[x]),
        )
    }

    /// The byte layout: four bytes per pixel in the order red, green, blue,
    /// alpha, pixels in row-major order.
    pub open spec fn bytes(self) -> Seq<u8> {
        Seq::new(4 * self.pixels.len(), |i: int| self.pixels[i / 4].channel(i % 4))
    }
}

/// Where `(x, y)` lies in a row-major buffer, and back.
pub proof fn lemma_offset(width: int, height: int, x: int, y: int)
    requires
        0 <= x < width,
        0 <= y < height,
    ensures
        0 <= y * width <= y * width + x < width * height,
        (y * width + x) % width == x,
        (y * width + x) / width == y,
{
    assert(0 <= y * width) by (nonlinear_arith)
        requires
            0 <= y,
            0 <= width,
    ;
    assert(y * width + width <= width * height) by (nonlinear_arith)
        requires
            y + 1 <= height,
            0 <= width,
    ;
    lemma_fundamental_div_mod_converse(y * width + x, width, y, x);
}

/// The pixel count of a picture fits in 64 bits.
pub proof fn lemma_area_bound(width: u32, height: u32)
    ensures
        0 <= width * height <= u64::MAX,
{
    assert(0 <= width * height <= 0xffff_ffff * 0xffff_ffff) by (nonlinear_arith)
        requires
            0 <= width <= 0xffff_ffff,
            0 <= height <= 0xffff_ffff,
    ;
}

/// `from_fn` puts `f(x, y)` at `(x, y)` and makes a well-formed picture.
pub proof fn lemma_from_fn(width: nat, height: nat, f: spec_fn(int, int) -> Rgba)
    ensures
        Raster::from_fn(width, height, f).wf(),
        Raster::from_fn(width, height, f).width == width,
        Raster::from_fn(width, height, f).height == height,
        forall|x: int, y: int|
            0 <= x < width && 0 <= y < height ==> #[trigger] Raster::from_fn(width, height, f).at(
                x,
                y,
            ) == f(x, y),
{
    let r = Raster::from_fn(width, height, f);
    assert forall|x: int, y: int| 0 <= x < width && 0 <= y < height implies #[trigger] r.at(x, y)
        == f(x, y) by {
        lemma_offset(width as int, height as int, x, y);
    }
}

/// Column `x` of a drawn row of modules has the colour of module `x` from
/// top to bottom.
pub proof fn lemma_bars_pixel(modules: Seq<u8>, height: nat, x: int, y: int)
    requires
        0 <= x < modules.len(),
        0 <= y < height,
    ensures
        Raster::bars(modules, height).wf(),
        Raster::bars(modules, height).width == modules.len(),
        Raster::bars(modules, height).height == height,
        Raster::bars(modules, height).at(x, y) == Raster::module_colour(modules[x]),
{
    lemma_from_fn(modules.len(), height, |x: int, y: int| Raster::module_colour(modules[x]));
}

/// Laying `top` over `base` keeps the size of `base`, puts the pixels of
/// `top` where it lies and leaves the others as they were.
pub proof fn lemma_overlay_pixel(base: Raster, top: Raster, x0: nat, y0: nat, x: int, y: int)
    requires
        base.contains(x, y),
    ensures
        base.overlay(top, x0, y0).wf(),
        base.overlay(top, x0, y0).width == base.width,
        base.overlay(top, x0, y0).height == base.height,
        base.overlay(top, x0, y0).at(x, y) == base.overlaid_at(top, x0, y0, x, y),
{
    lemma_from_fn(
        base.width,
        base.height,
        |x: int, y: int| base.overlaid_at(top, x0, y0, x, y),
    );
}

/// Turning a picture by 270 degrees swaps width and height; what stands at
/// `(x, y)` afterwards stood in column `width - 1 - y` of row `x`.
pub proof fn lemma_rotate270_pixel(r: Raster, x: int, y: int)
    requires
        0 <= x < r.height,
        0 <= y < r.width,
    ensures
        r.rotate270().wf(),
        r.rotate270().width == r.height,
        r.rotate270().height == r.width,
        r.rotate270().at(x, y) == r.at(r.width - 1 - y, x),
{
    lemma_from_fn(r.height, r.width, |x: int, y: int| r.at(r.width - 1 - y, x));
}

/// A picture in memory. The buffer always holds exactly `width * height`
/// pixels.
#[derive(Debug)]
pub struct Bitmap {
    width: u32,
    height: u32,
    pixels: Vec<Rgba>,
}

impl View for Bitmap {
    type V = Raster;

    closed spec fn view(&self) -> Raster {
        Raster { width: self.width as nat, height: self.height as nat, pixels: self.pixels@ }
    }
}

impl Bitmap {
    #[verifier::type_invariant]
    spec fn inv(self) -> bool {
        self.pixels@.len() == (self.width as int) * (self.height as int)
    }

    /// Number of columns.
    pub fn width(&self) -> (w: u32)
        ensures
            w == self@.width,
            self@.wf(),
    {
        proof {
            use_type_invariant(self);
        }
        self.width
    }

    /// Number of rows.
    pub fn height(&self) -> (h: u32)
        ensures
            h == self@.height,
            self@.wf(),
    {
        proof {
            use_type_invariant(self);
        }
        self.height
    }

    /// The pixel at `(x, y)`, or `None` outside the picture.
    pub fn get(&self, x: u32, y: u32) -> (p: Option<Rgba>)
        ensures
            p == if self@.contains(x as int, y as int) {
                Some(self@.at(x as int, y as int))
            } else {
                None
            },
    {
        proof {
            use_type_invariant(self);
        }
        let n = self.pixels.len();
        if x < self.width && y < self.height {
            proof {
                lemma_offset(self.width as int, self.height as int, x as int, y as int);
            }
            let i: usize = y as usize * self.width as usize + x as usize;
            Some(self.pixels[i])
        } else {
            None
        }
    }

    /// A picture of one colour, or `None` where `width * height` pixels cannot
    /// be addressed on this machine.
    pub fn from_pixel(width: u32, height: u32, pixel: Rgba) -> (r: Option<Bitmap>)
        ensures
            r is Some <==> width * height <= usize::MAX,
            r matches Some(b) ==> b@ == Raster::filled(width as nat, height as nat, pixel),
    {
        proof {
            lemma_area_bound(width, height);
        }
        let total: u64 = width as u64 * height as u64;
        if total > usize::MAX as u64 {
            return None;
        }
        let n: usize = total as usize;
        let mut pixels: Vec<Rgba> = Vec::with_capacity(n);
        let mut i: usize = 0;
        while i < n
            invariant
                i <= n,
                pixels@.len() == i,
                forall|k: int| 0 <= k < i ==> pixels@[k] == pixel,
            decreases n - i,
        {
            pixels.push(pixel);
            i = i + 1;
        }
        let b = Bitmap { width, height, pixels };
        proof {
            assert(b@.pixels =~= Raster::filled(width as nat, height as nat, pixel).pixels);
        }
        Some(b)
    }

    /// A row of modules drawn `height` pixels tall: column `x` is black where
    /// module `x` is set and white where it is 0. `None` where there are more
    /// modules than a picture has columns, or more pixels than this machine
    /// can address.
    pub fn bars(modules: &Vec<u8>, height: u32) -> (r: Option<Bitmap>)
        ensures
            r is Some <==> modules@.len() <= u32::MAX && modules@.len() * height <= usize::MAX,
            r matches Some(b) ==> b@ == Raster::bars(modules@, height as nat),
    {
        let n: usize = modules.len();
        if n > u32::MAX as usize {
            return None;
        }
        proof {
            lemma_area_bound(n as u32, height);
        }
        let total: u64 = n as u64 * height as u64;
        if total > usize::MAX as u64 {
            return None;
        }
        let h: usize = height as usize;
        let mut pixels: Vec<Rgba> = Vec::with_capacity(total as usize);
        let mut y: usize = 0;
        while y < h
            invariant
                y <= h,
                n == modules@.len(),
                h == height,
                (n as int) * (h as int) <= usize::MAX,
                pixels@.len() == (y as int) * (n as int),
                forall|j: int|
                    0 <= j < pixels@.len() ==> #[trigger] pixels@[j] == Raster::module_colour(
                        modules@[j % (n as int)],
                    ),
            decreases h - y,
        {
            let mut x: usize = 0;
            while x < n
                invariant
                    x <= n,
                    y < h,
                    n == modules@.len(),
                    h == height,
                    (n as int) * (h as int) <= usize::MAX,
                    pixels@.len() == (y as int) * (n as int) + x,
                    forall|j: int|
                        0 <= j < pixels@.len() ==> #[trigger] pixels@[j] == Raster::module_colour(
                            modules@[j % (n as int)],
                        ),
                decreases n - x,
            {
                proof {
                    lemma_offset(n as int, h as int, x as int, y as int);
                }
                let p = if modules[x] == 0 {
                    Rgba::white()
                } else {
                    Rgba::black()
                };
                let ghost prev = pixels@;
                pixels.push(p);
                proof {
                    assert forall|j: int| 0 <= j < pixels@.len() implies #[trigger] pixels@[j]
                        == Raster::module_colour(modules@[j % (n as int)]) by {
                        if j < prev.len() {
                            assert(pixels@[j] == prev[j]);
                        }
                    }
                }
                x = x + 1;
            }
            proof {
                assert((y as int) * (n as int) + (n as int) == (y + 1) * (n as int))
                    by (nonlinear_arith);
            }
            y = y + 1;
        }
        proof {
            assert((h as int) * (n as int) == (n as int) * (h as int)) by (nonlinear_arith);
        }
        let b = Bitmap { width: n as u32, height, pixels };
        proof {
            assert(b@.pixels =~= Raster::bars(modules@, height as nat).pixels);
        }
        Some(b)
    }

    /// Copies `other` into `self` with its top-left corner at `(x, y)`.
    /// Returns `false`, and changes nothing, where `other` does not fit there.
    pub fn copy_from(&mut self, other: &Bitmap, x: u32, y: u32) -> (done: bool)
        ensures
            done == old(self)@.admits(other@, x as nat, y as nat),
            done ==> final(self)@ == old(self)@.overlay(other@, x as nat, y as nat),
            !done ==> final(self)@ == old(self)@,
    {
        proof {
            use_type_invariant(&*self);
            use_type_invariant(other);
        }
        let fits = x as u64 + other.width as u64 <= self.width as u64 && y as u64
            + other.height as u64 <= self.height as u64;
        if !fits {
            return false;
        }
        let ghost before = self@;
        let ghost top = other@;
        let w: usize = self.width as usize;
        let h: usize = self.height as usize;
        let ow: usize = other.width as usize;
        let oh: usize = other.height as usize;
        let x0: usize = x as usize;
        let y0: usize = y as usize;
        let mut pixels: Vec<Rgba> = Vec::with_capacity(self.pixels.len());
        let other_len = other.pixels.len();
        let mut py: usize = 0;
        while py < h
            invariant
                py <= h,
                w == self.width,
                h == self.height,
                ow == other.width,
                oh == other.height,
                x0 == x,
                y0 == y,
                x0 + ow <= w,
                y0 + oh <= h,
                before == self@,
                top == other@,
                self.pixels@.len() == (w as int) * (h as int),
                other.pixels@.len() == (ow as int) * (oh as int),
                (w as int) * (h as int) <= usize::MAX,
                (ow as int) * (oh as int) <= usize::MAX,
                pixels@.len() == (py as int) * (w as int),
                forall|j: int|
                    0 <= j < pixels@.len() ==> #[trigger] pixels@[j] == before.overlaid_at(
                        top,
                        x0 as nat,
                        y0 as nat,
                        j % (w as int),
                        j / (w as int),
                    ),
            decreases h - py,
        {
            let mut px: usize = 0;
            while px < w
                invariant
                    px <= w,
                    py < h,
                    w == self.width,
                    h == self.height,
                    ow == other.width,
                    oh == other.height,
                    x0 == x,
                    y0 == y,
                    x0 + ow <= w,
                    y0 + oh <= h,
                    before == self@,
                    top == other@,
                    self.pixels@.len() == (w as int) * (h as int),
                    other.pixels@.len() == (ow as int) * (oh as int),
                    (w as int) * (h as int) <= usize::MAX,
                    (ow as int) * (oh as int) <= usize::MAX,
                    pixels@.len() == (py as int) * (w as int) + px,
                    forall|j: int|
                        0 <= j < pixels@.len() ==> #[trigger] pixels@[j] == before.overlaid_at(
                            top,
                            x0 as nat,
                            y0 as nat,
                            j % (w as int),
                            j / (w as int),
                        ),
                decreases w - px,
            {
                proof {
                    lemma_offset(w as int, h as int, px as int, py as int);
                }
                let inside = x0 <= px && px - x0 < ow && y0 <= py && py - y0 < oh;
                let p = if inside {
                    proof {
                        lemma_offset(ow as int, oh as int, px - x0, py - y0);
                    }
                    other.pixels[(py - y0) * ow + (px - x0)]
                } else {
                    self.pixels[py * w + px]
                };
                let ghost prev = pixels@;
                pixels.push(p);
                proof {
                    assert forall|j: int| 0 <= j < pixels@.len() implies #[trigger] pixels@[j]
                        == before.overlaid_at(
                        top,
                        x0 as nat,
                        y0 as nat,
                        j % (w as int),
                        j / (w as int),
                    ) by {
                        if j < prev.len() {
                            assert(pixels@[j] == prev[j]);
                        }
                    }
                }
                px = px + 1;
            }
            proof {
                assert((py as int) * (w as int) + (w as int) == (py + 1) * (w as int))
                    by (nonlinear_arith);
            }
            py = py + 1;
        }
        proof {
            assert((h as int) * (w as int) == (w as int) * (h as int)) by (nonlinear_arith);
            assert(pixels@ =~= before.overlay(top, x as nat, y as nat).pixels);
        }
        self.pixels = pixels;
        true
    }

    /// The picture turned by 270 degrees clockwise.
    pub fn rotate270(&self) -> (r: Bitmap)
        ensures
            r@ == self@.rotate270(),
    {
        proof {
            use_type_invariant(self);
        }
        let w: usize = self.width as usize;
        let h: usize = self.height as usize;
        let ghost src = self@;
        proof {
            assert((w as int) * (h as int) == (h as int) * (w as int)) by (nonlinear_arith);
        }
        let mut pixels: Vec<Rgba> = Vec::with_capacity(self.pixels.len());
        // Row `y` of the result is column `w - 1 - y` of the source, read downwards.
        let mut y: usize = 0;
        while y < w
            invariant
                y <= w,
                w == self.width,
                h == self.height,
                src == self@,
                self.pixels@.len() == (w as int) * (h as int),
                (w as int) * (h as int) <= usize::MAX,
                pixels@.len() == (y as int) * (h as int),
                forall|j: int|
                    0 <= j < pixels@.len() ==> #[trigger] pixels@[j] == src.at(
                        w - 1 - j / (h as int),
                        j % (h as int),
                    ),
            decreases w - y,
        {
            let mut x: usize = 0;
            while x < h
                invariant
                    x <= h,
                    y < w,
                    w == self.width,
                    h == self.height,
                    src == self@,
                    self.pixels@.len() == (w as int) * (h as int),
                    (w as int) * (h as int) <= usize::MAX,
                    pixels@.len() == (y as int) * (h as int) + x,
                    forall|j: int|
                        0 <= j < pixels@.len() ==> #[trigger] pixels@[j] == src.at(
                            w - 1 - j / (h as int),
                            j % (h as int),
                        ),
                decreases h - x,
            {
                proof {
                    lemma_offset(w as int, h as int, w - 1 - y, x as int);
                    lemma_offset(h as int, w as int, x as int, y as int);
                }
                let from: usize = x * w + (w - 1 - y);
                let p = self.pixels[from];
                let ghost prev = pixels@;
                pixels.push(p);
                proof {
                    assert forall|j: int| 0 <= j < pixels@.len() implies #[trigger] pixels@[j]
                        == src.at(w - 1 - j / (h as int), j % (h as int)) by {
                        if j < prev.len() {
                            assert(pixels@[j] == prev[j]);
                        }
                    }
                }
                x = x + 1;
            }
            proof {
                assert((y as int) * (h as int) + (h as int) == (y + 1) * (h as int))
                    by (nonlinear_arith);
            }
            y = y + 1;
        }
        let r = Bitmap { width: self.height, height: self.width, pixels };
        proof {
            assert(r@.pixels =~= src.rotate270().pixels);
        }
        r
    }

    /// The byte layout of the picture, or `None` where four bytes per pixel
    /// cannot be addressed on this machine.
    pub fn to_bytes(&self) -> (r: Option<Vec<u8>>)
        ensures
            self@.wf(),
            r is Some <==> 4 * self@.pixels.len() <= usize::MAX,
            r matches Some(v) ==> v@ == self@.bytes(),
    {
        proof {
            use_type_invariant(self);
        }
        let n: usize = self.pixels.len();
        if n > usize::MAX / 4 {
            return None;
        }
        let mut out: Vec<u8> = Vec::with_capacity(4 * n);
        let mut i: usize = 0;
        while i < n
            invariant
                i <= n,
                n == self.pixels@.len(),
                4 * n <= usize::MAX,
                out@.len() == 4 * i,
                forall|k: int|
                    0 <= k < out@.len() ==> #[trigger] out@[k] == self.pixels@[k / 4].channel(k % 4),
            decreases n - i,
        {
            let p = self.pixels[i];
            out.push(p.r);
            out.push(p.g);
            out.push(p.b);
            out.push(p.a);
            i = i + 1;
        }
        proof {
            assert(out@ =~= self@.bytes());
        }
        Some(out)
    }
}

} // verus!
