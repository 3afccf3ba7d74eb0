//! Painted pixels and the compositor that blends them into a raster.
use vstd::prelude::*;
use crate::color::Rgba;

verus! {

/// One painted cell: a color at a column and row of the canvas.
#[derive(Debug, Clone, Copy, PartialEq, Eq, Structural)]
pub struct Pyxel {
    pub r: u8,
    pub g: u8,
    pub b: u8,
    pub a: u8,
    pub x: usize,
    pub y: usize,
}

/// The pixel of color `c` at column `x`, row `y`.
pub open spec fn pyxel_of(c: Rgba, x: usize, y: usize) -> Pyxel {
    Pyxel { r: c.r, g: c.g, b: c.b, a: c.a, x, y }
}

impl Pyxel {
    /// A pixel of color `[red, green, blue, alpha]` at column `x`, row `y`.
    pub fn new(color: [u8; 4], x: usize, y: usize) -> (r: Pyxel)
        ensures
            r.color() == color@,
            r.x == x,
            r.y == y,
    {
        Pyxel { r: color[0], g: color[1], b: color[2], a: color[3], x, y }
    }

    /// The channels in the order red, green, blue, alpha.
    pub open spec fn color(self) -> Seq<u8> {
        seq![self.r, self.g, self.b, self.a]
    }

    /// The channels as `[red, green, blue, alpha]`.
    pub fn color_u8(&self) -> (r: [u8; 4])
        ensures
            r@ == self.color(),
    {
        let r = [self.r, self.g, self.b, self.a];
        assert(r@ =~= self.color());
        r
    }

    pub fn r(&self) -> (r: u8)
        ensures
            r == self.r,
    {
        self.r
    }

    pub fn g(&self) -> (r: u8)
        ensures
            r == self.g,
    {
        self.g
    }

    pub fn b(&self) -> (r: u8)
        ensures
            r == self.b,
    {
        self.b
    }

    pub fn a(&self) -> (r: u8)
        ensures
            r == self.a,
    {
        self.a
    }

    pub fn x(&self) -> (r: usize)
        ensures
            r == self.x,
    {
        self.x
    }

    pub fn y(&self) -> (r: usize)
        ensures
            r == self.y,
    {
        self.y
    }
}

/// The value of every channel of the background: black when `dark`, else white.
pub open spec fn background_value(dark: bool) -> u8 {
    if dark {
        0
    } else {
        255
    }
}

/// A uniform RGB raster of `width` by `height` cells.
pub open spec fn background(width: nat, height: nat, dark: bool) -> Seq<u8> {
    Seq::new(width * height * 3, |i: int| background_value(dark))
}

/// One channel of `src` laid over `dst` with opacity `alpha / 255`:
/// `alpha * src + (1 - alpha) * dst`, in units of 1/255, rounded down.
pub open spec fn blend(alpha: u8, src: u8, dst: u8) -> u8 {
    ((alpha * src + (255 - alpha) * dst) / 255) as u8
}

/// The raster with pixel `p` blended over the cell it names; a pixel outside
/// the canvas leaves the raster as it is.
pub open spec fn paint_over(buf: Seq<u8>, width: nat, height: nat, p: Pyxel) -> Seq<u8> {
    if p.x < width && p.y < height {
        let i = (p.y * width + p.x) * 3;
        buf.update(i, blend(p.a, p.r, buf[i])).update(i + 1, blend(p.a, p.g, buf[i + 1])).update(
            i + 2,
            blend(p.a, p.b, buf[i + 2]),
        )
    } else {
        buf
    }
}

/// The background with the pixels blended over it in order.
pub open spec fn composite(width: nat, height: nat, dark: bool, ps: Seq<Pyxel>) -> Seq<u8>
    decreases ps.len(),
{
    if ps.len() == 0 {
        background(width, height, dark)
    } else {
        paint_over(composite(width, height, dark, ps.drop_last()), width, height, ps.last())
    }
}

/// The pixels painted on a canvas, in the order they were painted.
pub struct PyxelVec {
    pub pyxels: Vec<Pyxel>,
    pub width: usize,
    pub height: usize,
}

fn blend_channel(alpha: u8, src: u8, dst: u8) -> (r: u8)
    ensures
        r == blend(alpha, src, dst),
{
    let a = alpha as u32;
    let s = src as u32;
    let d = dst as u32;
    assert(a * s <= 255 * 255) by (nonlinear_arith)
        requires
            a <= 255,
            s <= 255,
    ;
    assert((255 - a) * d <= (255 - a) * 255) by (nonlinear_arith)
        requires
            a <= 255,
            d <= 255,
    ;
    assert(a * s <= a * 255) by (nonlinear_arith)
        requires
            s <= 255,
    ;
    assert(a * s + (255 - a) * d <= 255 * 255) by (nonlinear_arith)
        requires
            a * s <= a * 255,
            (255 - a) * d <= (255 - a) * 255,
            a <= 255,
    ;
    ((a * s + (255 - a) * d) / 255) as u8
}

impl PyxelVec {
    /// An empty canvas of `width` by `height` cells.
    pub fn new(width: usize, height: usize) -> (r: PyxelVec)
        ensures
            r.pyxels@ == Seq::<Pyxel>::empty(),
            r.width == width,
            r.height == height,
    {
        PyxelVec { pyxels: Vec::new(), width, height }
    }

    /// Appends a pixel after those painted so far.
    pub fn push(&mut self, pyxel: Pyxel)
        ensures
            final(self).pyxels@ == old(self).pyxels@.push(pyxel),
            final(self).width == old(self).width,
            final(self).height == old(self).height,
    {
        self.pyxels.push(pyxel);
    }

    /// The raster, row by row and three bytes (red, green, blue) a cell: the
    /// background, black when `dark`, else white, with every pixel blended
    /// over it in the order painted. Pixels outside the canvas are dropped.
    pub fn to_vec_u8(&self, dark: bool) -> (r: Vec<u8>)
        requires
            self.width * self.height * 3 <= usize::MAX,
        ensures
            r@ == composite(self.width as nat, self.height as nat, dark, self.pyxels@),
    {
        let w = self.width;
        let h = self.height;
        let n = w * h * 3;
        let fill: u8 = if dark { 0 } else { 255 };
        let mut v: Vec<u8> = Vec::new();
        while v.len() < n
            invariant
                v.len() <= n,
                n == w * h * 3,
                fill == background_value(dark),
                v@ =~= Seq::new(v.len() as nat, |i: int| background_value(dark)),
            decreases n - v.len(),
        {
            v.push(fill);
        }
        assert(v@ =~= composite(w as nat, h as nat, dark, self.pyxels@.take(0)));
        let mut k: usize = 0;
        while k < self.pyxels.len()
            invariant
                k <= self.pyxels.len(),
                n == w * h * 3,
                n <= usize::MAX,
                w == self.width,
                h == self.height,
                v.len() == n,
                v@ == composite(w as nat, h as nat, dark, self.pyxels@.take(k as int)),
            decreases self.pyxels.len() - k,
        {
            let p = self.pyxels[k];
            assert(self.pyxels@.take(k + 1).drop_last() =~= self.pyxels@.take(k as int));
            if p.x < w && p.y < h {
                assert(p.y * w + p.x < w * h) by (nonlinear_arith)
                    requires
                        p.x < w,
                        p.y < h,
                ;
                let i = (p.y * w + p.x) * 3;
                let nr = blend_channel(p.a, p.r, v[i]);
                v.set(i, nr);
                let ng = blend_channel(p.a, p.g, v[i + 1]);
                v.set(i + 1, ng);
                let nb = blend_channel(p.a, p.b, v[i + 2]);
                v.set(i + 2, nb);
            }
            k += 1;
        }
        assert(self.pyxels@.take(k as int) =~= self.pyxels@);
        v
    }
}

} // verus!
