//! Instructions and the interpreter that runs them against a [`Pointer`].
use vstd::prelude::*;
use crate::color::Rgba;
use crate::pointer::{Pointer, CursorState, normalize, slide_spec, inset, abs, magnitude};
use crate::pyxel::{Pyxel, PyxelVec, pyxel_of};

verus! {

/// What an instruction does.
#[derive(Clone, Copy, Debug, PartialEq, Eq, Structural)]
pub enum Verb {
    /// Paint a horizontal run of cells.
    Paint,
    Up,
    Down,
    Left,
    Right,
    SetLeft,
    SetRight,
    SetTop,
    SetBottom,
    FlipX,
    FlipY,
    LoopOpen,
    LoopClose,
    /// Go down one row and back to the row's first column.
    NextRow,
    NoOp,
}

/// One instruction: a verb, a resolved color, a signed argument, a repeat
/// count, and whether the argument was left out.
#[derive(Clone, Copy, Debug, PartialEq, Eq, Structural)]
pub struct Command {
    pub verb: Verb,
    pub color: Rgba,
    pub arg: isize,
    pub rep: usize,
    pub unset: bool,
}

impl Command {
    /// An instruction with the color `[red, green, blue, alpha]`.
    pub fn new(verb: Verb, hex: [u8; 4], arg: isize, rep: usize, unset: bool) -> (r: Self)
        ensures
            r.verb == verb,
            r.color.channels() == hex@,
            r.arg == arg,
            r.rep == rep,
            r.unset == unset,
    {
        Command { verb, color: Rgba::from_array(hex), arg, rep, unset }
    }

    pub fn verb(&self) -> (r: &Verb)
        ensures
            *r == self.verb,
    {
        &self.verb
    }

    /// The color as `[red, green, blue, alpha]`.
    pub fn hex(&self) -> (r: [u8; 4])
        ensures
            r@ == self.color.channels(),
    {
        self.color.to_array()
    }

    /// The signed argument, used by moves and margins.
    pub fn arg(&self) -> (r: isize)
        ensures
            r == self.arg,
    {
        self.arg
    }

    /// The repeat count, used by paint and loops.
    pub fn rep(&self) -> (r: usize)
        ensures
            r == self.rep,
    {
        self.rep
    }

    /// Whether no argument was written, which restores a margin's default.
    pub fn unset(&self) -> (r: bool)
        ensures
            r == self.unset,
    {
        self.unset
    }
}

/// An open loop: where it began and how many more times its body runs.
#[derive(Debug, Copy, Clone, PartialEq, Eq, Structural)]
struct Looper {
    index: usize,
    remaining: usize,
}

impl Looper {
    fn index(&self) -> (r: usize)
        ensures
            r == self.index,
    {
        self.index
    }

    fn remaining(&self) -> (r: usize)
        ensures
            r == self.remaining,
    {
        self.remaining
    }

    fn decrease(&mut self)
        requires
            old(self).remaining > 0,
        ensures
            final(self).index == old(self).index,
            final(self).remaining == old(self).remaining - 1,
    {
        self.remaining -= 1;
    }
}

/// The interpreter's state: the cursor, the index of the next instruction,
/// the open loops as `(index of the loop's opening, repeats left)`, innermost
/// last, and the pixels painted so far.
pub struct Machine {
    pub cursor: CursorState,
    pub pc: nat,
    pub frames: Seq<(nat, nat)>,
    pub pixels: Seq<Pyxel>,
}

/// The state in which a run starts.
pub open spec fn start(c: CursorState) -> Machine {
    Machine { cursor: c, pc: 0, frames: Seq::empty(), pixels: Seq::empty() }
}

/// `n` cells painted in `color` from the cursor rightwards (in its direction),
/// one slide after each: the cursor after them, and the pixels.
pub open spec fn paint_run(c: CursorState, color: Rgba, n: nat) -> (CursorState, Seq<Pyxel>)
    decreases n,
{
    if n == 0 {
        (c, Seq::empty())
    } else {
        let (c1, ps) = paint_run(c, color, (n - 1) as nat);
        (
            slide_spec(c1, 1, 0),
            ps.push(pyxel_of(color, abs(c1.x) as usize, abs(c1.y) as usize)),
        )
    }
}

/// The repeats left when a loop opens: one fewer than its count (none for a
/// count of 0, whose body runs once as for a count of 1).
pub open spec fn repeats_left(rep: usize) -> nat {
    if rep > 0 {
        (rep - 1) as nat
    } else {
        0
    }
}

/// What one instruction does to the cursor and to the pixels painted.
pub open spec fn draw(cmd: Command, c: CursorState, pixels: Seq<Pyxel>) -> (CursorState, Seq<Pyxel>) {
    let n = cmd.arg as int;
    let v = if cmd.unset {
        0
    } else {
        n
    };
    match cmd.verb {
        Verb::Up => (slide_spec(c, 0, -n), pixels),
        Verb::Down => (slide_spec(c, 0, n), pixels),
        Verb::Left => (slide_spec(c, -n, 0), pixels),
        Verb::Right => (slide_spec(c, n, 0), pixels),
        Verb::NextRow => {
            let c1 = slide_spec(c, 0, 1);
            (
                CursorState {
                    x: if c1.reverse_x {
                        c1.right
                    } else {
                        c1.left
                    },
                    ..c1
                },
                pixels,
            )
        },
        Verb::SetLeft => (CursorState { left: v, x: v, ..c }, pixels),
        Verb::SetRight => (CursorState { right: inset(c.width, v), ..c }, pixels),
        Verb::SetTop => (CursorState { top: v, y: v, ..c }, pixels),
        Verb::SetBottom => (CursorState { bottom: inset(c.height, v), ..c }, pixels),
        Verb::FlipX => (CursorState { reverse_x: !c.reverse_x, ..c }, pixels),
        Verb::FlipY => (CursorState { reverse_y: !c.reverse_y, ..c }, pixels),
        Verb::Paint => {
            let (c1, ps) = paint_run(c, cmd.color, cmd.rep as nat);
            (c1, pixels + ps)
        },
        _ => (c, pixels),
    }
}

/// What one instruction at index `pc` does to the open loops, and the index
/// of the instruction that runs next. A loop's close with repeats left goes
/// back to just after the loop's opening and counts one repeat off; with none
/// left it closes the loop; with no loop open it does nothing.
pub open spec fn control(cmd: Command, pc: nat, frames: Seq<(nat, nat)>) -> (nat, Seq<(nat, nat)>) {
    match cmd.verb {
        Verb::LoopOpen => (pc + 1, frames.push((pc, repeats_left(cmd.rep)))),
        Verb::LoopClose => {
            if frames.len() == 0 {
                (pc + 1, frames)
            } else {
                let (index, left) = frames.last();
                if left > 0 {
                    (index + 1, frames.update(frames.len() - 1, (index, (left - 1) as nat)))
                } else {
                    (pc + 1, frames.drop_last())
                }
            }
        },
        _ => (pc + 1, frames),
    }
}

/// One interpreter step: normalize the cursor, then run the current instruction.
pub open spec fn step(prog: Seq<Command>, m: Machine) -> Machine {
    let cmd = prog[m.pc as int];
    let (c, ps) = draw(cmd, normalize(m.cursor), m.pixels);
    let (pc, fs) = control(cmd, m.pc, m.frames);
    Machine { cursor: c, pc, frames: fs, pixels: ps }
}

/// Loop frames and index are consistent: every open loop began before the
/// current index, in order of nesting, with a repeat count that fits a `usize`.
pub open spec fn well_formed(n: nat, pc: nat, frames: Seq<(nat, nat)>) -> bool {
    &&& pc <= n
    &&& forall|j: int|
        0 <= j < frames.len() ==> #[trigger] frames[j].0 < pc && frames[j].1 <= usize::MAX
    &&& forall|j: int, k: int|
        0 <= j < k < frames.len() ==> #[trigger] frames[j].0 < #[trigger] frames[k].0
}

/// `b` to the power `e`.
pub open spec fn power(b: int, e: nat) -> int
    decreases e,
{
    if e == 0 {
        1
    } else {
        b * power(b, (e - 1) as nat)
    }
}

proof fn lemma_power_positive(b: int, e: nat)
    requires
        b > 0,
    ensures
        power(b, e) > 0,
    decreases e,
{
    if e > 0 {
        lemma_power_positive(b, (e - 1) as nat);
        let q = power(b, (e - 1) as nat);
        assert(b * q > 0) by (nonlinear_arith)
            requires
                b > 0,
                q > 0,
        ;
    }
}

/// A base larger than any repeat count plus two.
pub open spec fn base() -> int {
    usize::MAX as int + 3
}

/// The weight of the open loops: each counts its repeats left plus one,
/// in units that outweigh everything the program can still do after the
/// loop's opening.
pub open spec fn frame_weight(n: nat, fs: Seq<(nat, nat)>) -> int
    decreases fs.len(),
{
    if fs.len() == 0 {
        0
    } else {
        frame_weight(n, fs.drop_last()) + (fs.last().1 + 1) * power(
            base(),
            (n - 1 - fs.last().0) as nat,
        )
    }
}

/// A quantity that every step from a well-formed state lowers.
pub open spec fn measure(n: nat, pc: nat, frames: Seq<(nat, nat)>) -> int {
    power(base(), (n - pc) as nat) - 1 + frame_weight(n, frames)
}

proof fn lemma_frame_weight_nonneg(n: nat, fs: Seq<(nat, nat)>)
    ensures
        frame_weight(n, fs) >= 0,
    decreases fs.len(),
{
    if fs.len() > 0 {
        lemma_frame_weight_nonneg(n, fs.drop_last());
        lemma_power_positive(base(), (n - 1 - fs.last().0) as nat);
        let p = power(base(), (n - 1 - fs.last().0) as nat);
        assert((fs.last().1 + 1) * p >= 0) by (nonlinear_arith)
            requires
                p > 0,
        ;
    }
}

/// Every instruction keeps the loop frames well formed and strictly lowers
/// a non-negative measure, though a loop's close may send the index back to
/// an earlier instruction: so every run of the interpreter ends.
pub proof fn lemma_control_decreases(n: nat, cmd: Command, pc: nat, fs: Seq<(nat, nat)>)
    requires
        well_formed(n, pc, fs),
        pc < n,
    ensures
        well_formed(n, control(cmd, pc, fs).0, control(cmd, pc, fs).1),
        0 <= measure(n, control(cmd, pc, fs).0, control(cmd, pc, fs).1) < measure(n, pc, fs),
{
    let (pc2, fs2) = control(cmd, pc, fs);
    let d = base();
    let e = (n - pc) as nat;
    let p = power(d, (e - 1) as nat);
    lemma_power_positive(d, (e - 1) as nat);
    assert(power(d, e) == d * p);
    lemma_frame_weight_nonneg(n, fs);
    lemma_frame_weight_nonneg(n, fs2);
    lemma_power_positive(d, (n - pc2) as nat);
    assert(p < d * p) by (nonlinear_arith)
        requires
            p > 0,
            d > 1,
    ;
    if cmd.verb == Verb::LoopOpen {
        let r = repeats_left(cmd.rep);
        assert(fs2.drop_last() =~= fs);
        assert(forall|j: int| 0 <= j < fs.len() ==> #[trigger] fs2[j] == fs[j]);
        assert(fs2[fs.len() as int] == (pc, r));
        assert(forall|j: int, k: int|
            0 <= j < k < fs2.len() ==> #[trigger] fs2[j].0 < #[trigger] fs2[k].0) by {
            assert forall|j: int, k: int| 0 <= j < k < fs2.len() implies #[trigger] fs2[j].0
                < #[trigger] fs2[k].0 by {
                if k < fs.len() {
                    assert(fs[j].0 < fs[k].0);
                } else {
                    assert(fs[j].0 < pc);
                }
            }
        }
        assert((r + 2) * p < d * p) by (nonlinear_arith)
            requires
                p > 0,
                r + 2 < d,
        ;
        assert(frame_weight(n, fs2) == frame_weight(n, fs) + (r + 1) * p);
        assert((r + 1) * p + p == (r + 2) * p) by (nonlinear_arith);
        assert(measure(n, pc2, fs2) == (r + 2) * p - 1 + frame_weight(n, fs));
    } else if cmd.verb == Verb::LoopClose && fs.len() > 0 {
        let (index, left) = fs.last();
        let q = power(d, (n - 1 - index) as nat);
        lemma_power_positive(d, (n - 1 - index) as nat);
        assert(frame_weight(n, fs) == frame_weight(n, fs.drop_last()) + (left + 1) * q);
        if left > 0 {
            assert(fs2.drop_last() =~= fs.drop_last());
            assert(forall|j: int| 0 <= j < fs.len() ==> #[trigger] fs2[j].0 == fs[j].0);
            assert(forall|j: int| 0 <= j < fs.len() - 1 ==> #[trigger] fs2[j] == fs[j]);
            assert(forall|j: int| 0 <= j < fs.len() - 1 ==> #[trigger] fs[j].0 < fs[fs.len() - 1].0);
            assert(left * q + q == (left + 1) * q) by (nonlinear_arith);
            assert(frame_weight(n, fs2) == frame_weight(n, fs.drop_last()) + ((left - 1) as nat + 1) * q);
            assert(measure(n, pc2, fs2) == q - 1 + frame_weight(n, fs.drop_last()) + left * q);
        } else {
            lemma_frame_weight_nonneg(n, fs.drop_last());
            assert(forall|j: int| 0 <= j < fs2.len() ==> #[trigger] fs2[j] == fs[j]);
        }
    }
}

/// The state in which a run from `m` ends: it steps until the index passes
/// the last instruction.
pub open spec fn run_from(prog: Seq<Command>, m: Machine) -> Machine
    decreases measure(prog.len(), m.pc, m.frames),
    via run_from_decreases
{
    if m.pc < prog.len() && well_formed(prog.len(), m.pc, m.frames) {
        run_from(prog, step(prog, m))
    } else {
        m
    }
}

#[via_fn]
proof fn run_from_decreases(prog: Seq<Command>, m: Machine) {
    if m.pc < prog.len() && well_formed(prog.len(), m.pc, m.frames) {
        lemma_control_decreases(prog.len(), prog[m.pc as int], m.pc, m.frames);
    }
}

/// The loop frames as `(index, repeats left)` pairs.
spec fn frames_of(ls: Seq<Looper>) -> Seq<(nat, nat)> {
    ls.map_values(|l: Looper| (l.index as nat, l.remaining as nat))
}

/// Runs the instructions against the pointer and returns the pixels they
/// paint, in order, on a canvas of the pointer's size. The pointer is left
/// where the run ends.
pub fn run(pointer: &mut Pointer, comms: Vec<Command>) -> (r: PyxelVec)
    ensures
        final(pointer)@ == run_from(comms@, start(old(pointer)@)).cursor,
        r.pyxels@ == run_from(comms@, start(old(pointer)@)).pixels,
        r.width == old(pointer)@.width,
        r.height == old(pointer)@.height,
{
    let mut pyxels: PyxelVec = PyxelVec::new(pointer.width(), pointer.height());
    let mut i: usize = 0;
    let mut repeat_table: Vec<Looper> = Vec::new();
    let ghost prog = comms@;
    let ghost n = prog.len();
    let ghost first = start(pointer@);
    assert(frames_of(repeat_table@) =~= Seq::<(nat, nat)>::empty());
    while i < comms.len()
        invariant
            prog == comms@,
            n == prog.len(),
            pyxels.width == first.cursor.width,
            pyxels.height == first.cursor.height,
            ({
                let cur = Machine {
                    cursor: pointer@,
                    pc: i as nat,
                    frames: frames_of(repeat_table@),
                    pixels: pyxels.pyxels@,
                };
                &&& well_formed(n, cur.pc, cur.frames)
                &&& run_from(prog, cur) == run_from(prog, first)
            }),
        decreases measure(n, i as nat, frames_of(repeat_table@)),
    {
        let ghost cur = Machine {
            cursor: pointer@,
            pc: i as nat,
            frames: frames_of(repeat_table@),
            pixels: pyxels.pyxels@,
        };
        proof {
            lemma_control_decreases(n, prog[i as int], cur.pc, cur.frames);
        }
        pointer.check_pos();
        let cmd = comms[i];
        match cmd.verb {
            Verb::Up => {
                pointer.slide_back(cmd.arg(), true);
            },
            Verb::Down => {
                pointer.slide(0, cmd.arg());
            },
            Verb::Left => {
                pointer.slide_back(cmd.arg(), false);
            },
            Verb::Right => {
                pointer.slide(cmd.arg(), 0);
            },
            Verb::NextRow => {
                pointer.slide(0, 1);
                let x = if pointer.reverse_move_x() {
                    pointer.right()
                } else {
                    pointer.left()
                };
                let y = pointer.y();
                pointer.set_pos(x, y);
            },
            Verb::SetLeft => {
                if cmd.unset() {
                    pointer.set_virtual_left(0);
                } else {
                    pointer.set_virtual_left(cmd.arg());
                }
            },
            Verb::SetRight => {
                if cmd.unset() {
                    pointer.set_virtual_right(0);
                } else {
                    pointer.set_virtual_right(cmd.arg());
                }
            },
            Verb::SetTop => {
                if cmd.unset() {
                    pointer.set_virtual_top(0);
                } else {
                    pointer.set_virtual_top(cmd.arg());
                }
            },
            Verb::SetBottom => {
                if cmd.unset() {
                    pointer.set_virtual_bottom(0);
                } else {
                    pointer.set_virtual_bottom(cmd.arg());
                }
            },
            Verb::FlipX => {
                pointer.flip_reverse_move_x();
            },
            Verb::FlipY => {
                pointer.flop_reverse_move_y();
            },
            Verb::LoopOpen => {
                let remaining = if cmd.rep() > 0 {
                    cmd.rep() - 1
                } else {
                    0
                };
                repeat_table.push(Looper { index: i, remaining });
                assert(frames_of(repeat_table@) =~= cur.frames.push(
                    (i as nat, repeats_left(cmd.rep)),
                ));
            },
            Verb::LoopClose => {
                let len = repeat_table.len();
                if len > 0 {
                    let mut last = repeat_table[len - 1];
                    if last.remaining() > 0 {
                        i = last.index();
                        last.decrease();
                        repeat_table.set(len - 1, last);
                        assert(frames_of(repeat_table@) =~= cur.frames.update(
                            cur.frames.len() - 1,
                            (last.index as nat, last.remaining as nat),
                        ));
                    } else {
                        repeat_table.pop();
                        assert(frames_of(repeat_table@) =~= cur.frames.drop_last());
                    }
                }
            },
            Verb::Paint => {
                let ghost c0 = pointer@;
                let ghost px0 = pyxels.pyxels@;
                let mut k: usize = 0;
                while k < cmd.rep()
                    invariant
                        k <= cmd.rep,
                        pointer@ == paint_run(c0, cmd.color, k as nat).0,
                        pyxels.pyxels@ == px0 + paint_run(c0, cmd.color, k as nat).1,
                        pyxels.width == first.cursor.width,
                        pyxels.height == first.cursor.height,
                    decreases cmd.rep - k,
                {
                    let p = Pyxel {
                        r: cmd.color.r,
                        g: cmd.color.g,
                        b: cmd.color.b,
                        a: cmd.color.a,
                        x: magnitude(pointer.x()),
                        y: magnitude(pointer.y()),
                    };
                    pyxels.push(p);
                    pointer.slide(1, 0);
                    k += 1;
                    assert(pyxels.pyxels@ =~= px0 + paint_run(c0, cmd.color, k as nat).1);
                }
            },
            Verb::NoOp => {},
        }
        i += 1;
        proof {
            let next = Machine {
                cursor: pointer@,
                pc: i as nat,
                frames: frames_of(repeat_table@),
                pixels: pyxels.pyxels@,
            };
            assert(next == step(prog, cur));
        }
    }
    pyxels
}

} // verus!
