//! The drawing cursor: a position inside a canvas, an active sub-rectangle,
//! and the wrap rule that moves it from one edge of that rectangle to another.
use vstd::prelude::*;

verus! {

/// Clamps an integer into the range of `isize`.
pub open spec fn clamp(v: int) -> int {
    if v < isize::MIN {
        isize::MIN as int
    } else if v > isize::MAX {
        isize::MAX as int
    } else {
        v
    }
}

/// The sign of an integer: -1, 0 or 1.
pub open spec fn sign(v: int) -> int {
    if v < 0 {
        -1
    } else if v > 0 {
        1
    } else {
        0
    }
}

/// The absolute value of an integer.
pub open spec fn abs(v: int) -> nat {
    if v < 0 {
        (-v) as nat
    } else {
        v as nat
    }
}

/// A unit step turned round when `reverse` is set.
pub open spec fn oriented(reverse: bool, u: int) -> int {
    if reverse {
        -u
    } else {
        u
    }
}

/// The abstract state of a [`Pointer`]: its position, its two direction
/// flags, the canvas extents and the active rectangle `[left, right) x [top, bottom)`.
pub struct CursorState {
    pub x: int,
    pub y: int,
    pub reverse_x: bool,
    pub reverse_y: bool,
    pub width: nat,
    pub height: nat,
    pub top: int,
    pub bottom: int,
    pub left: int,
    pub right: int,
}

/// The row after `y` in the current vertical direction.
pub open spec fn next_row(y: int, reverse_y: bool) -> int {
    if reverse_y {
        clamp(y - 1)
    } else {
        clamp(y + 1)
    }
}

/// Brings the position back into the active rectangle by the wrap rule.
pub open spec fn normalize(c: CursorState) -> CursorState {
    let x1 = if c.x < c.left {
        if c.reverse_x {
            clamp(c.right - 1)
        } else {
            c.left
        }
    } else {
        c.x
    };
    let x2 = if x1 >= c.right {
        if c.reverse_x {
            clamp(c.right - 1)
        } else {
            c.left
        }
    } else {
        x1
    };
    let y1 = if c.y < c.top {
        clamp(c.bottom - 1)
    } else {
        c.y
    };
    let y2 = if y1 >= c.bottom {
        c.top
    } else {
        y1
    };
    CursorState { x: x2, y: y2, ..c }
}

/// One horizontal unit step by `u`. Leaving the rectangle on the left puts
/// the cursor at `right - 1` (and on the next row) when moving in reverse, else
/// at `left`; leaving it on the right puts it at `right - 1` when moving in
/// reverse, else at `left` on the next row.
pub open spec fn h_step(c: CursorState, u: int) -> CursorState {
    let t = c.x + u;
    let x1 = if c.left <= t < c.right {
        t
    } else {
        c.x
    };
    let x2 = if t < c.left {
        if c.reverse_x {
            clamp(c.right - 1)
        } else {
            c.left
        }
    } else {
        x1
    };
    let y2 = if t < c.left && c.reverse_x {
        next_row(c.y, c.reverse_y)
    } else {
        c.y
    };
    let x3 = if t >= c.right {
        if c.reverse_x {
            clamp(c.right - 1)
        } else {
            c.left
        }
    } else {
        x2
    };
    let y3 = if t >= c.right && !c.reverse_x {
        next_row(y2, c.reverse_y)
    } else {
        y2
    };
    CursorState { x: x3, y: y3, ..c }
}

/// One vertical unit step by `u`, wrapping from top to bottom and back.
pub open spec fn v_step(c: CursorState, u: int) -> CursorState {
    let t = c.y + u;
    let y1 = if c.top <= t < c.bottom {
        t
    } else {
        c.y
    };
    let y2 = if t < c.top {
        clamp(c.bottom - 1)
    } else {
        y1
    };
    let y3 = if t >= c.bottom {
        c.top
    } else {
        y2
    };
    CursorState { y: y3, ..c }
}

/// `n` horizontal unit steps by `u`.
pub open spec fn h_steps(c: CursorState, u: int, n: nat) -> CursorState
    decreases n,
{
    if n == 0 {
        c
    } else {
        h_step(h_steps(c, u, (n - 1) as nat), u)
    }
}

/// `n` vertical unit steps by `u`.
pub open spec fn v_steps(c: CursorState, u: int, n: nat) -> CursorState
    decreases n,
{
    if n == 0 {
        c
    } else {
        v_step(v_steps(c, u, (n - 1) as nat), u)
    }
}

/// All horizontal unit steps, then all vertical ones.
pub open spec fn travel(c: CursorState, ux: int, nx: nat, uy: int, ny: nat) -> CursorState {
    v_steps(h_steps(c, ux, nx), uy, ny)
}

/// A move by `r` columns and `d` rows, one unit at a time, ignoring the direction flags.
pub open spec fn move_spec(c: CursorState, r: int, d: int) -> CursorState {
    travel(c, sign(r), abs(r), sign(d), abs(d))
}

/// A move by `r` columns and `d` rows, each turned round when its direction flag is set.
pub open spec fn slide_spec(c: CursorState, r: int, d: int) -> CursorState {
    travel(c, oriented(c.reverse_x, sign(r)), abs(r), oriented(c.reverse_y, sign(d)), abs(d))
}

/// The margin `right` or `bottom` set `n` cells in from a far edge at `extent`.
pub open spec fn inset(extent: nat, n: int) -> int {
    clamp(extent - n)
}

/// A pointer to a cell of the canvas, which moves and wraps inside an active rectangle.
#[derive(Debug, Clone, Copy)]
pub struct Pointer {
    x: isize,
    y: isize,
    reverse_move_x: bool,
    reverse_move_y: bool,
    width: usize,
    height: usize,
    top: isize,
    bottom: isize,
    left: isize,
    right: isize,
}

impl View for Pointer {
    type V = CursorState;

    closed spec fn view(&self) -> CursorState {
        CursorState {
            x: self.x as int,
            y: self.y as int,
            reverse_x: self.reverse_move_x,
            reverse_y: self.reverse_move_y,
            width: self.width as nat,
            height: self.height as nat,
            top: self.top as int,
            bottom: self.bottom as int,
            left: self.left as int,
            right: self.right as int,
        }
    }
}

/// `v` clamped into the range of `isize`.
fn to_isize(v: i128) -> (r: isize)
    ensures
        r == clamp(v as int),
{
    if v < isize::MIN as i128 {
        isize::MIN
    } else if v > isize::MAX as i128 {
        isize::MAX
    } else {
        v as isize
    }
}

/// The row after `y` in the given vertical direction.
fn row_after(y: isize, reverse_y: bool) -> (r: isize)
    ensures
        r == next_row(y as int, reverse_y),
{
    if reverse_y {
        to_isize(y as i128 - 1)
    } else {
        to_isize(y as i128 + 1)
    }
}

/// The absolute value of `v`.
pub(crate) fn magnitude(v: isize) -> (r: usize)
    ensures
        r as nat == abs(v as int),
{
    if v < 0 {
        (0i128 - v as i128) as usize
    } else {
        v as usize
    }
}

/// A unit step as an `isize`: the sign of `v`, turned round when `reverse` is set.
fn unit_of(v: isize, reverse: bool) -> (r: isize)
    ensures
        r == oriented(reverse, sign(v as int)),
{
    let s: isize = if v < 0 {
        -1
    } else if v > 0 {
        1
    } else {
        0
    };
    if reverse {
        -s
    } else {
        s
    }
}

impl Pointer {
    /// A pointer at the origin of a 32 by 32 canvas, moving right and down.
    pub fn new() -> (r: Self)
        ensures
            r@ == (CursorState {
                x: 0,
                y: 0,
                reverse_x: false,
                reverse_y: false,
                width: 32,
                height: 32,
                top: 0,
                bottom: 32,
                left: 0,
                right: 32,
            }),
    {
        Pointer {
            x: 0,
            y: 0,
            reverse_move_x: false,
            reverse_move_y: false,
            width: 32,
            height: 32,
            top: 0,
            bottom: 32,
            left: 0,
            right: 32,
        }
    }

    pub fn x(&self) -> (r: isize)
        ensures
            r as int == self@.x,
    {
        self.x
    }

    pub fn y(&self) -> (r: isize)
        ensures
            r as int == self@.y,
    {
        self.y
    }

    pub fn reverse_move_x(&self) -> (r: bool)
        ensures
            r == self@.reverse_x,
    {
        self.reverse_move_x
    }

    pub fn reverse_move_y(&self) -> (r: bool)
        ensures
            r == self@.reverse_y,
    {
        self.reverse_move_y
    }

    pub fn width(&self) -> (r: usize)
        ensures
            r as nat == self@.width,
    {
        self.width
    }

    pub fn height(&self) -> (r: usize)
        ensures
            r as nat == self@.height,
    {
        self.height
    }

    pub fn top(&self) -> (r: isize)
        ensures
            r as int == self@.top,
    {
        self.top
    }

    pub fn bottom(&self) -> (r: isize)
        ensures
            r as int == self@.bottom,
    {
        self.bottom
    }

    pub fn left(&self) -> (r: isize)
        ensures
            r as int == self@.left,
    {
        self.left
    }

    pub fn right(&self) -> (r: isize)
        ensures
            r as int == self@.right,
    {
        self.right
    }

    /// Puts the pointer at column `r`, row `d`.
    pub fn set_pos(&mut self, r: isize, d: isize)
        ensures
            final(self)@ == (CursorState { x: r as int, y: d as int, ..old(self)@ }),
    {
        self.x = r;
        self.y = d;
    }

    /// Brings the position back into the active rectangle by the wrap rule.
    pub fn check_pos(&mut self)
        ensures
            final(self)@ == normalize(old(self)@),
    {
        let mut x = self.x;
        let mut y = self.y;
        if x < self.left {
            if self.reverse_move_x {
                x = to_isize(self.right as i128 - 1);
            } else {
                x = self.left;
            }
        }
        if x >= self.right {
            if self.reverse_move_x {
                x = to_isize(self.right as i128 - 1);
            } else {
                x = self.left;
            }
        }
        if y < self.top {
            y = to_isize(self.bottom as i128 - 1);
        }
        if y >= self.bottom {
            y = self.top;
        }
        self.set_pos(x, y);
    }

    /// One horizontal unit step by `u`.
    fn step_x(&mut self, u: isize)
        ensures
            final(self)@ == h_step(old(self)@, u as int),
    {
        let t: i128 = self.x as i128 + u as i128;
        let mut x = self.x;
        let mut y = self.y;
        if self.left as i128 <= t && t < self.right as i128 {
            x = t as isize;
        }
        if t < self.left as i128 {
            if self.reverse_move_x {
                x = to_isize(self.right as i128 - 1);
                y = row_after(y, self.reverse_move_y);
            } else {
                x = self.left;
            }
        }
        if t >= self.right as i128 {
            if self.reverse_move_x {
                x = to_isize(self.right as i128 - 1);
            } else {
                x = self.left;
                y = row_after(y, self.reverse_move_y);
            }
        }
        self.set_pos(x, y);
    }

    /// One vertical unit step by `u`.
    fn step_y(&mut self, u: isize)
        ensures
            final(self)@ == v_step(old(self)@, u as int),
    {
        let t: i128 = self.y as i128 + u as i128;
        let mut y = self.y;
        if self.top as i128 <= t && t < self.bottom as i128 {
            y = t as isize;
        }
        if t < self.top as i128 {
            y = to_isize(self.bottom as i128 - 1);
        }
        if t >= self.bottom as i128 {
            y = self.top;
        }
        self.y = y;
    }

    /// `nx` horizontal unit steps by `ux`, then `ny` vertical unit steps by `uy`.
    pub(crate) fn travel(&mut self, ux: isize, nx: usize, uy: isize, ny: usize)
        ensures
            final(self)@ == travel(old(self)@, ux as int, nx as nat, uy as int, ny as nat),
    {
        let ghost start = self@;
        let mut k: usize = 0;
        while k < nx
            invariant
                k <= nx,
                self@ == h_steps(start, ux as int, k as nat),
            decreases nx - k,
        {
            self.step_x(ux);
            k += 1;
        }
        let ghost mid = self@;
        let mut k: usize = 0;
        while k < ny
            invariant
                k <= ny,
                self@ == v_steps(mid, uy as int, k as nat),
            decreases ny - k,
        {
            self.step_y(uy);
            k += 1;
        }
    }

    /// Moves by `r` columns and `d` rows, one unit at a time, wrapping at
    /// the edges; the direction flags are not consulted.
    pub fn move_pos(&mut self, r: isize, d: isize)
        ensures
            final(self)@ == move_spec(old(self)@, r as int, d as int),
    {
        let ux = unit_of(r, false);
        let uy = unit_of(d, false);
        self.travel(ux, magnitude(r), uy, magnitude(d));
    }

    /// Moves by `r` columns and `d` rows, each turned round when the pointer
    /// moves in reverse along that axis.
    pub fn slide(&mut self, r: isize, d: isize)
        ensures
            final(self)@ == slide_spec(old(self)@, r as int, d as int),
    {
        let ux = unit_of(r, self.reverse_move_x);
        let uy = unit_of(d, self.reverse_move_y);
        self.travel(ux, magnitude(r), uy, magnitude(d));
    }

    /// Moves `n` units against the pointer's direction along one axis
    /// (`vertical` selects the axis): the slide by `-n`, for every `n`.
    pub(crate) fn slide_back(&mut self, n: isize, vertical: bool)
        ensures
            vertical ==> final(self)@ == slide_spec(old(self)@, 0, -(n as int)),
            !vertical ==> final(self)@ == slide_spec(old(self)@, -(n as int), 0),
    {
        let u = -unit_of(n, false);
        if vertical {
            let uy: isize = if self.reverse_move_y { -u } else { u };
            self.travel(0, 0, uy, magnitude(n));
        } else {
            let ux: isize = if self.reverse_move_x { -u } else { u };
            self.travel(ux, magnitude(n), 0, 0);
        }
    }

    /// Flips the horizontal direction.
    pub fn flip_reverse_move_x(&mut self)
        ensures
            final(self)@ == (CursorState { reverse_x: !old(self)@.reverse_x, ..old(self)@ }),
    {
        self.reverse_move_x = !self.reverse_move_x;
    }

    /// Flips the vertical direction.
    pub fn flop_reverse_move_y(&mut self)
        ensures
            final(self)@ == (CursorState { reverse_y: !old(self)@.reverse_y, ..old(self)@ }),
    {
        self.reverse_move_y = !self.reverse_move_y;
    }

    /// Sets the left margin to `n` and moves the pointer to that column.
    pub fn set_virtual_left(&mut self, n: isize)
        ensures
            final(self)@ == (CursorState { left: n as int, x: n as int, ..old(self)@ }),
    {
        self.left = n;
        self.x = n;
    }

    /// Sets the right margin `n` columns in from the canvas's right edge.
    pub fn set_virtual_right(&mut self, n: isize)
        ensures
            final(self)@ == (CursorState { right: inset(old(self)@.width, n as int), ..old(self)@ }),
    {
        self.right = to_isize(self.width as i128 - n as i128);
    }

    /// Sets the top margin to `n` and moves the pointer to that row.
    pub fn set_virtual_top(&mut self, n: isize)
        ensures
            final(self)@ == (CursorState { top: n as int, y: n as int, ..old(self)@ }),
    {
        self.top = n;
        self.y = n;
    }

    /// Sets the bottom margin `n` rows up from the canvas's bottom edge.
    pub fn set_virtual_bottom(&mut self, n: isize)
        ensures
            final(self)@ == (CursorState { bottom: inset(old(self)@.height, n as int), ..old(self)@ }),
    {
        self.bottom = to_isize(self.height as i128 - n as i128);
    }

    /// Sets the canvas width (a width of 0 counts as 1) and clears the right margin.
    pub fn set_width(&mut self, w: usize)
        ensures
            final(self)@ == (CursorState {
                width: if w == 0 { 1 } else { w as nat },
                right: clamp(if w == 0 { 1 } else { w as int }),
                ..old(self)@
            }),
    {
        let w = if w == 0 { 1 } else { w };
        self.width = w;
        self.set_virtual_right(0);
    }

    /// Sets the canvas height (a height of 0 counts as 1) and clears the bottom margin.
    pub fn set_height(&mut self, h: usize)
        ensures
            final(self)@ == (CursorState {
                height: if h == 0 { 1 } else { h as nat },
                bottom: clamp(if h == 0 { 1 } else { h as int }),
                ..old(self)@
            }),
    {
        let h = if h == 0 { 1 } else { h };
        self.height = h;
        self.set_virtual_bottom(0);
    }

    /// Resets the pointer to the origin of a `w` by `h` canvas with no
    /// margins; a width or height of 0 counts as 1.
    pub fn blank(&mut self, w: usize, h: usize)
        ensures
            final(self)@ == (CursorState {
                x: 0,
                y: 0,
                reverse_x: false,
                reverse_y: false,
                width: if w == 0 { 1 } else { w as nat },
                height: if h == 0 { 1 } else { h as nat },
                top: 0,
                bottom: clamp(if h == 0 { 1 } else { h as int }),
                left: 0,
                right: clamp(if w == 0 { 1 } else { w as int }),
            }),
    {
        let w = if w == 0 { 1 } else { w };
        let h = if h == 0 { 1 } else { h };
        self.x = 0;
        self.y = 0;
        self.reverse_move_x = false;
        self.reverse_move_y = false;
        self.top = 0;
        self.width = w;
        self.height = h;
        self.bottom = to_isize(h as i128);
        self.left = 0;
        self.right = to_isize(w as i128);
    }
}

/// Normalizing is idempotent: a second normalization leaves the position as
/// the first one left it.
pub proof fn lemma_normalize_idempotent(c: CursorState)
    ensures
        normalize(normalize(c)) == normalize(c),
{
}

/// Unit steps that stay strictly inside the margins move the cursor by one
/// column each and change nothing else.
proof fn lemma_steps_inside(c: CursorState, u: int, k: nat)
    requires
        u == 1 || u == -1,
        c.left <= c.x < c.right,
        u == 1 ==> c.x + k < c.right,
        u == -1 ==> c.left <= c.x - k,
    ensures
        h_steps(c, u, k) == (CursorState {
            x: if u == 1 {
                c.x + k
            } else {
                c.x - k
            },
            ..c
        }),
    decreases k,
{
    if k > 0 {
        lemma_steps_inside(c, u, (k - 1) as nat);
    }
}

/// `a + b` unit steps are `a` steps followed by `b` more.
proof fn lemma_steps_split(c: CursorState, u: int, a: nat, b: nat)
    ensures
        h_steps(c, u, a + b) == h_steps(h_steps(c, u, a), u, b),
    decreases b,
{
    if b > 0 {
        lemma_steps_split(c, u, a, (b - 1) as nat);
        assert((a + b - 1) as nat == a + (b - 1) as nat);
    }
}

/// A rightward move of `r` columns, not reversed, that passes the right
/// margin once wraps to the left margin on the next row down, and ends the
/// columns it had left over past the left margin.
pub proof fn lemma_slide_wraps_right(c: CursorState, r: int)
    requires
        !c.reverse_x,
        !c.reverse_y,
        isize::MIN <= c.left <= c.x < c.right <= isize::MAX,
        isize::MIN <= c.y < isize::MAX,
        r > 0,
        c.x + r >= c.right,
        c.x + r - c.right < c.right - c.left,
    ensures
        slide_spec(c, r, 0).x == c.left + (c.x + r - c.right),
        slide_spec(c, r, 0).y == c.y + 1,
{
    let a = (c.right - c.x - 1) as nat;
    let b = (c.x + r - c.right) as nat;
    lemma_steps_split(c, 1, a, (1 + b) as nat);
    lemma_steps_inside(c, 1, a);
    let c1 = h_steps(c, 1, a);
    lemma_steps_split(c1, 1, 1, b);
    let c2 = h_step(c1, 1);
    assert(h_steps(c1, 1, 0) == c1);
    assert(h_steps(c1, 1, 1) == c2);
    lemma_steps_inside(c2, 1, b);
    assert(a + (1 + b) == r);
    assert(slide_spec(c, r, 0) == h_steps(c, 1, r as nat));
}

/// With the horizontal direction reversed, a move of `r` columns from the
/// left margin (which runs leftwards) wraps at once to the column before the
/// right margin, on the next row in the vertical direction, and goes on
/// leftwards from there.
pub proof fn lemma_slide_wraps_left_reversed(c: CursorState, r: int)
    requires
        c.reverse_x,
        isize::MIN <= c.left == c.x < c.right <= isize::MAX,
        isize::MIN < c.y < isize::MAX,
        1 <= r <= c.right - c.left,
    ensures
        slide_spec(c, r, 0).x == c.right - r,
        slide_spec(c, r, 0).y == c.y + (if c.reverse_y { -1int } else { 1 }),
{
    let b = (r - 1) as nat;
    lemma_steps_split(c, -1, 1, b);
    let c1 = h_step(c, -1);
    assert(h_steps(c, -1, 0) == c);
    assert(h_steps(c, -1, 1) == c1);
    lemma_steps_inside(c1, -1, b);
    assert(1 + b == r);
    assert(slide_spec(c, r, 0) == h_steps(c, -1, r as nat));
}

} // verus!
