//! The script reader: a two-line header giving the canvas size, then a body
//! scanned in one pass into [`Command`]s.
use vstd::prelude::*;
use crate::color::{Rgba, Tone, hex_color, named_color, parse_hex, tone};
use crate::cmd::{Command, Verb};
use crate::pointer::abs;
use vstd::std_specs::iter::IteratorSpec;

verus! {

broadcast use vstd::string::group_string_axioms;

/// Text made only of argument characters: digits and `- + / *`.
pub open spec fn is_argument_text(text: Seq<char>) -> bool {
    forall|i: int| 0 <= i < text.len() ==> is_num_char(#[trigger] text[i])
}

/// The value of an arithmetic expression as the evaluator computes it,
/// truncated toward zero into an `isize`; `None` where it cannot be evaluated.
/// It names the result for argument text only (see [`is_argument_text`]),
/// where evaluation uses nothing but number parsing and the four basic
/// operations, and so depends on the text alone.
pub uninterp spec fn evaluated(expr: Seq<char>) -> Option<isize>;

/// Relies on `meval::eval_str`, which parses and evaluates an arithmetic
/// expression. On argument text, which holds no whitespace, it returns
/// without panicking.
#[verifier::external_body]
fn evaluate(expr: &Vec<char>) -> (r: Option<isize>)
    requires
        is_argument_text(expr@),
    ensures
        r == evaluated(expr@),
{
    let text: String = expr.iter().collect();
    match meval::eval_str(&text) {
        Ok(v) => Some(v as isize),
        Err(_) => None,
    }
}

/// The signed argument and the repeat count given by an evaluation: the
/// value and its absolute value, or 0 and 1 where evaluation failed.
pub open spec fn arguments(value: Option<isize>) -> (isize, usize) {
    match value {
        Some(v) => (v, abs(v as int) as usize),
        None => (0, 1),
    }
}

/// The signed argument and the repeat count given by an evaluation.
pub fn num_from_value(value: Option<isize>) -> (r: (isize, usize))
    ensures
        r == arguments(value),
{
    match value {
        Some(v) => {
            let u: usize = if v < 0 {
                (0i128 - v as i128) as usize
            } else {
                v as usize
            };
            (v, u)
        },
        None => (0, 1),
    }
}

/// Evaluates a written argument: its signed value and its repeat count.
pub fn parse_num(num: &Vec<char>) -> (r: (isize, usize))
    requires
        is_argument_text(num@),
    ensures
        r == arguments(evaluated(num@)),
{
    num_from_value(evaluate(num))
}

/// Where the scanner stands with respect to comments.
#[derive(Clone, Copy, Debug, PartialEq, Eq, Structural)]
pub enum Comment {
    Nope,
    Line,
    Mult,
}

/// The scanner's state: the pending instruction (its verb, the digits of a
/// `#` color, the text of its argument, whether a `#` color is being read,
/// its tone), the comment mode, and the instructions read so far.
pub struct ScanState {
    pub verb: Option<Verb>,
    pub hex: Seq<char>,
    pub num: Seq<char>,
    pub sharps: bool,
    pub tone: Tone,
    pub comment: Comment,
    pub cmds: Seq<Command>,
}

/// The state before the first character.
pub open spec fn initial() -> ScanState {
    ScanState {
        verb: None,
        hex: Seq::empty(),
        num: Seq::empty(),
        sharps: false,
        tone: Tone::Normal,
        comment: Comment::Nope,
        cmds: Seq::empty(),
    }
}

/// The state with the pending instruction dropped; the comment mode stays.
pub open spec fn reset(st: ScanState) -> ScanState {
    ScanState {
        verb: None,
        hex: Seq::empty(),
        num: Seq::empty(),
        sharps: false,
        tone: Tone::Normal,
        ..st
    }
}

/// The state with an instruction of `verb` and `color` appended, its
/// argument taken from the pending text.
pub open spec fn emit(st: ScanState, verb: Verb, color: Rgba) -> ScanState {
    let (arg, rep) = arguments(evaluated(st.num));
    let unset = st.hex.len() == 0 && st.num.len() == 0;
    ScanState {
        cmds: st.cmds.push(Command { verb, color, arg, rep, unset }),
        ..st
    }
}

/// The state with the pending instruction appended, if there is one; its
/// color is the `#` color being read, else the tone's black.
pub open spec fn put(st: ScanState) -> ScanState {
    match st.verb {
        Some(v) => emit(
            st,
            v,
            if st.sharps {
                hex_color(st.hex)
            } else {
                named_color(None, st.tone)
            },
        ),
        None => st,
    }
}

/// A digit of a `#` color.
pub open spec fn is_hex_char(c: char) -> bool {
    let u = c as u32;
    (48 <= u <= 57) || (97 <= u <= 102)
}

/// A character of an argument: a digit or one of `- + / *`.
pub open spec fn is_num_char(c: char) -> bool {
    let u = c as u32;
    (48 <= u <= 57) || c == '-' || c == '+' || c == '/' || c == '*'
}

/// A named color: `r g b c y m w`, or `.` for black.
pub open spec fn is_color_char(c: char) -> bool {
    c == 'r' || c == 'g' || c == 'b' || c == 'c' || c == 'y' || c == 'm' || c == 'w' || c == '.'
}

/// The verb of a control character.
pub open spec fn control_verb(c: char) -> Option<Verb> {
    match c {
        '^' => Some(Verb::Up),
        'v' => Some(Verb::Down),
        '<' => Some(Verb::Left),
        '>' => Some(Verb::Right),
        '[' => Some(Verb::LoopOpen),
        ']' => Some(Verb::LoopClose),
        'e' => Some(Verb::SetRight),
        's' => Some(Verb::SetLeft),
        'E' => Some(Verb::SetBottom),
        'S' => Some(Verb::SetTop),
        'X' => Some(Verb::FlipX),
        'Y' => Some(Verb::FlipY),
        _ => None,
    }
}

/// The effect of a comment delimiter or a line break.
pub open spec fn delimit(st: ScanState, c: char) -> ScanState {
    if c == '|' {
        reset(
            if st.comment == Comment::Nope {
                ScanState { comment: Comment::Line, ..st }
            } else {
                st
            },
        )
    } else if c == '{' {
        reset(
            if st.comment == Comment::Nope {
                ScanState { comment: Comment::Mult, ..st }
            } else {
                st
            },
        )
    } else if c == '}' {
        reset(ScanState { comment: Comment::Nope, ..st })
    } else if c == '\n' {
        if st.comment == Comment::Nope {
            reset(put(ScanState { verb: Some(Verb::NextRow), ..st }))
        } else if st.comment == Comment::Line {
            reset(ScanState { comment: Comment::Nope, ..st })
        } else {
            reset(st)
        }
    } else {
        st
    }
}

/// The state after one more character.
pub open spec fn scan_char(st: ScanState, c: char) -> ScanState {
    let s = delimit(st, c);
    if s.comment != Comment::Nope {
        s
    } else if s.sharps && is_hex_char(c) {
        ScanState { hex: s.hex.push(c), ..s }
    } else if !s.sharps && is_num_char(c) {
        ScanState { num: s.num.push(c), ..s }
    } else if c == 'l' {
        ScanState { tone: Tone::Light, ..s }
    } else if c == 'd' {
        ScanState { tone: Tone::Dark, ..s }
    } else if c == '#' {
        ScanState { verb: Some(Verb::Paint), sharps: true, ..s }
    } else if is_color_char(c) {
        reset(emit(s, Verb::Paint, named_color(Some(c), s.tone)))
    } else {
        match control_verb(c) {
            Some(v) => reset(put(ScanState { verb: Some(v), ..s })),
            None => s,
        }
    }
}

/// The state after a run of characters.
pub open spec fn scan(st: ScanState, cs: Seq<char>) -> ScanState
    decreases cs.len(),
{
    if cs.len() == 0 {
        st
    } else {
        scan_char(scan(st, cs.drop_last()), cs.last())
    }
}

/// The scanner only ever evaluates argument text: the pending argument of
/// every state it reaches holds nothing else.
pub proof fn lemma_scan_argument_text(cs: Seq<char>)
    ensures
        is_argument_text(scan(initial(), cs).num),
    decreases cs.len(),
{
    if cs.len() > 0 {
        lemma_scan_argument_text(cs.drop_last());
        let st = scan(initial(), cs.drop_last());
        let c = cs.last();
        let s1 = delimit(st, c);
        assert(is_argument_text(s1.num));
        if s1.comment == Comment::Nope && !s1.sharps && is_num_char(c) {
            assert(is_argument_text(s1.num.push(c)));
        }
    }
}

/// The instructions of a script body.
pub open spec fn scan_all(body: Seq<char>) -> Seq<Command> {
    reset(put(scan(initial(), body))).cmds
}

/// The index of the first line break at or after `from`, or the length.
pub open spec fn line_end(s: Seq<char>, from: int) -> int
    decreases s.len() - from,
{
    if from >= s.len() {
        s.len() as int
    } else if s[from] == '\n' {
        from
    } else {
        line_end(s, from + 1)
    }
}

/// The line from `a` to the break at `b`, without the carriage return of a
/// `\r\n` ending.
pub open spec fn line_text(s: Seq<char>, a: int, b: int) -> Seq<char> {
    if a < b < s.len() && s[b - 1] == '\r' {
        s.subrange(a, b - 1)
    } else {
        s.subrange(a, b)
    }
}

/// A decimal digit.
pub open spec fn is_digit(c: char) -> bool {
    48 <= c as u32 <= 57
}

/// The value of a string of decimal digits.
pub open spec fn decimal_value(d: Seq<char>) -> nat
    decreases d.len(),
{
    if d.len() == 0 {
        0
    } else {
        decimal_value(d.drop_last()) * 10 + (d.last() as u32 - 48) as nat
    }
}

/// A line without the `+` it may start with.
pub open spec fn unsigned_digits(line: Seq<char>) -> Seq<char> {
    if line.len() > 0 && line[0] == '+' {
        line.subrange(1, line.len() as int)
    } else {
        line
    }
}

/// Every character is a decimal digit.
pub open spec fn all_digits(d: Seq<char>) -> bool {
    forall|i: int| 0 <= i < d.len() ==> is_digit(#[trigger] d[i])
}

/// A line read as an unsigned integer: an optional `+`, then at least one
/// decimal digit, with a value that fits a `usize`.
pub open spec fn usize_of(line: Seq<char>) -> Option<usize> {
    let d = unsigned_digits(line);
    if d.len() > 0 && all_digits(d) && decimal_value(d) <= usize::MAX {
        Some(decimal_value(d) as usize)
    } else {
        None
    }
}

/// A canvas dimension: the header line's integer, or 32 where it is none.
pub open spec fn dimension(line: Seq<char>) -> usize {
    match usize_of(line) {
        Some(v) => v,
        None => 32,
    }
}

/// The body after the header's second line break, ending with a line break
/// when it is not empty.
pub open spec fn body_of(s: Seq<char>, second_break: int) -> Seq<char> {
    if second_break >= s.len() {
        Seq::empty()
    } else {
        let b = s.subrange(second_break + 1, s.len() as int);
        if b.len() > 0 && b.last() != '\n' {
            b.push('\n')
        } else {
            b
        }
    }
}

/// A script read as width, height and instructions; `None` where it has
/// fewer than two lines.
pub open spec fn parse_spec(s: Seq<char>) -> Option<(usize, usize, Seq<Command>)> {
    let first_break = line_end(s, 0);
    if first_break + 1 >= s.len() {
        None
    } else {
        let second_break = line_end(s, first_break + 1);
        Some(
            (
                dimension(line_text(s, 0, first_break)),
                dimension(line_text(s, first_break + 1, second_break)),
                scan_all(body_of(s, second_break)),
            ),
        )
    }
}

/// The characters of a string, in order.
fn chars_of(s: &String) -> (r: Vec<char>)
    ensures
        r@ == s@,
{
    let mut out: Vec<char> = Vec::new();
    let mut it = s.as_str().chars();
    loop
        invariant
            s@ == out@ + it.remaining(),
            it.decrease() is Some,
        ensures
            out@ == s@,
        decreases it.decrease()->0,
    {
        match it.next() {
            Some(c) => {
                out.push(c);
            },
            None => {
                assert(out@ =~= s@);
                break ;
            },
        }
    }
    out
}

fn hex_char(c: char) -> (r: bool)
    ensures
        r == is_hex_char(c),
{
    let u = c as u32;
    (48 <= u && u <= 57) || (97 <= u && u <= 102)
}

fn num_char(c: char) -> (r: bool)
    ensures
        r == is_num_char(c),
{
    let u = c as u32;
    (48 <= u && u <= 57) || c == '-' || c == '+' || c == '/' || c == '*'
}

fn color_char(c: char) -> (r: bool)
    ensures
        r == is_color_char(c),
{
    c == 'r' || c == 'g' || c == 'b' || c == 'c' || c == 'y' || c == 'm' || c == 'w' || c == '.'
}

/// The verb of a control character, if it is one.
pub fn control(c: char) -> (r: Option<Verb>)
    ensures
        r == control_verb(c),
{
    match c {
        '^' => Some(Verb::Up),
        'v' => Some(Verb::Down),
        '<' => Some(Verb::Left),
        '>' => Some(Verb::Right),
        '[' => Some(Verb::LoopOpen),
        ']' => Some(Verb::LoopClose),
        'e' => Some(Verb::SetRight),
        's' => Some(Verb::SetLeft),
        'E' => Some(Verb::SetBottom),
        'S' => Some(Verb::SetTop),
        'X' => Some(Verb::FlipX),
        'Y' => Some(Verb::FlipY),
        _ => None,
    }
}

/// The scanner: one pass over the body, character by character.
struct Parser {
    cmd: Option<Verb>,
    hex: Vec<char>,
    num: Vec<char>,
    sharps: bool,
    tone: Tone,
    comment: Comment,
    cmds: Vec<Command>,
}

impl Parser {
    spec fn state(&self) -> ScanState {
        ScanState {
            verb: self.cmd,
            hex: self.hex@,
            num: self.num@,
            sharps: self.sharps,
            tone: self.tone,
            comment: self.comment,
            cmds: self.cmds@,
        }
    }

    fn new() -> (r: Parser)
        ensures
            r.state() == initial(),
    {
        Parser {
            cmd: None,
            hex: Vec::new(),
            num: Vec::new(),
            sharps: false,
            tone: Tone::Normal,
            comment: Comment::Nope,
            cmds: Vec::new(),
        }
    }

    /// Drops the pending instruction.
    fn reset(&mut self)
        ensures
            final(self).state() == reset(old(self).state()),
    {
        self.cmd = None;
        self.hex = Vec::new();
        self.num = Vec::new();
        self.sharps = false;
        self.tone = Tone::Normal;
    }

    /// Appends an instruction of `verb` and `color` with the pending argument.
    fn emit(&mut self, verb: Verb, color: Rgba)
        requires
            is_argument_text(old(self).num@),
        ensures
            final(self).state() == emit(old(self).state(), verb, color),
    {
        let (arg, rep) = parse_num(&self.num);
        let unset = self.hex.len() == 0 && self.num.len() == 0;
        self.cmds.push(Command { verb, color, arg, rep, unset });
    }

    /// Appends the pending instruction, if there is one.
    fn put(&mut self)
        requires
            is_argument_text(old(self).num@),
        ensures
            final(self).state() == put(old(self).state()),
    {
        match self.cmd {
            Some(v) => {
                let color = if self.sharps {
                    parse_hex(&self.hex)
                } else {
                    tone(None, self.tone)
                };
                self.emit(v, color);
            },
            None => {},
        }
    }

    /// Handles a comment delimiter or a line break.
    fn delimit(&mut self, c: char)
        requires
            is_argument_text(old(self).num@),
        ensures
            is_argument_text(final(self).num@),
            final(self).state() == delimit(old(self).state(), c),
    {
        if c == '|' {
            if self.comment == Comment::Nope {
                self.comment = Comment::Line;
            }
            self.reset();
        } else if c == '{' {
            if self.comment == Comment::Nope {
                self.comment = Comment::Mult;
            }
            self.reset();
        } else if c == '}' {
            self.comment = Comment::Nope;
            self.reset();
        } else if c == '\n' {
            if self.comment == Comment::Nope {
                self.cmd = Some(Verb::NextRow);
                self.put();
            } else if self.comment == Comment::Line {
                self.comment = Comment::Nope;
            }
            self.reset();
        }
    }

    /// Reads one character.
    fn scan_char(&mut self, c: char)
        requires
            is_argument_text(old(self).num@),
        ensures
            is_argument_text(final(self).num@),
            final(self).state() == scan_char(old(self).state(), c),
    {
        self.delimit(c);
        if self.comment != Comment::Nope {
            return ;
        }
        if self.sharps && hex_char(c) {
            self.hex.push(c);
        } else if !self.sharps && num_char(c) {
            self.num.push(c);
        } else if c == 'l' {
            self.tone = Tone::Light;
        } else if c == 'd' {
            self.tone = Tone::Dark;
        } else if c == '#' {
            self.cmd = Some(Verb::Paint);
            self.sharps = true;
        } else if color_char(c) {
            let color = tone(Some(c), self.tone);
            self.emit(Verb::Paint, color);
            self.reset();
        } else {
            match control(c) {
                Some(v) => {
                    self.cmd = Some(v);
                    self.put();
                    self.reset();
                },
                None => {},
            }
        }
    }

    /// Reads a whole body and returns its instructions.
    fn parse(&mut self, body: &Vec<char>) -> (r: Vec<Command>)
        requires
            old(self).state() == initial(),
        ensures
            r@ == scan_all(body@),
    {
        let mut k: usize = 0;
        while k < body.len()
            invariant
                k <= body.len(),
                self.state() == scan(initial(), body@.take(k as int)),
                is_argument_text(self.num@),
            decreases body.len() - k,
        {
            assert(body@.take(k + 1).drop_last() =~= body@.take(k as int));
            self.scan_char(body[k]);
            k += 1;
        }
        assert(body@.take(k as int) =~= body@);
        self.put();
        self.reset();
        let mut out: Vec<Command> = Vec::new();
        std::mem::swap(&mut out, &mut self.cmds);
        out
    }
}

/// The index of the first line break at or after `from`, or the length.
fn find_line_end(s: &Vec<char>, from: usize) -> (r: usize)
    requires
        from <= s.len(),
    ensures
        r as int == line_end(s@, from as int),
        from <= r <= s.len(),
{
    let mut k = from;
    while k < s.len() && s[k] != '\n'
        invariant
            from <= k <= s.len(),
            line_end(s@, from as int) == line_end(s@, k as int),
        decreases s.len() - k,
    {
        k += 1;
    }
    k
}

/// Reads the header line from `a` to the break at `b` as a dimension.
fn parse_dimension(s: &Vec<char>, a: usize, b: usize) -> (r: usize)
    requires
        a <= b <= s.len(),
    ensures
        r == dimension(line_text(s@, a as int, b as int)),
{
    let ghost line = line_text(s@, a as int, b as int);
    let end: usize = if a < b && b < s.len() && s[b - 1] == '\r' {
        b - 1
    } else {
        b
    };
    assert(line =~= s@.subrange(a as int, end as int));
    let start: usize = if a < end && s[a] == '+' {
        a + 1
    } else {
        a
    };
    let ghost d = s@.subrange(start as int, end as int);
    assert(d =~= unsigned_digits(line));
    if start == end {
        return 32;
    }
    let mut acc: usize = 0;
    let mut over = false;
    let mut k = start;
    while k < end
        invariant
            start <= k <= end,
            end <= s.len(),
            d == s@.subrange(start as int, end as int),
            line == line_text(s@, a as int, b as int),
            d == unsigned_digits(line),
            forall|i: int| start <= i < k ==> is_digit(#[trigger] s@[i]),
            over ==> decimal_value(s@.subrange(start as int, k as int)) > usize::MAX,
            !over ==> acc == decimal_value(s@.subrange(start as int, k as int)),
        decreases end - k,
    {
        let c = s[k];
        let u = c as u32;
        if u < 48 || u > 57 {
            assert(d[k - start] == c);
            assert(!is_digit(d[k - start]));
            assert(!all_digits(d));
            return 32;
        }
        let digit = (u - 48) as usize;
        assert(s@.subrange(start as int, k + 1).drop_last() =~= s@.subrange(start as int, k as int));
        if !over {
            if acc > (usize::MAX - digit) / 10 {
                over = true;
            } else {
                acc = acc * 10 + digit;
            }
        }
        k += 1;
    }
    assert(s@.subrange(start as int, k as int) =~= d);
    assert(all_digits(d)) by {
        assert(forall|i: int| 0 <= i < d.len() ==> #[trigger] d[i] == s@[start + i]);
    }
    if over {
        32
    } else {
        acc
    }
}

/// Reads a script: the first line is the canvas width and the second its
/// height (a line that is no unsigned integer gives 32), and the lines after
/// them are the body. A script of fewer than two lines gives `None`.
pub fn parse(s: &String) -> (r: Option<(usize, usize, Vec<Command>)>)
    ensures
        r is None <==> parse_spec(s@) is None,
        r matches Some(t) ==> parse_spec(s@) == Some((t.0, t.1, t.2@)),
{
    let chars = chars_of(s);
    let first_break = find_line_end(&chars, 0);
    if first_break >= chars.len() || first_break + 1 >= chars.len() {
        return None;
    }
    let second_break = find_line_end(&chars, first_break + 1);
    let width = parse_dimension(&chars, 0, first_break);
    let height = parse_dimension(&chars, first_break + 1, second_break);
    let mut body: Vec<char> = Vec::new();
    if second_break < chars.len() {
        let mut k = second_break + 1;
        while k < chars.len()
            invariant
                second_break < k <= chars.len(),
                body@ == chars@.subrange(second_break + 1, k as int),
            decreases chars.len() - k,
        {
            body.push(chars[k]);
            k += 1;
        }
        if body.len() > 0 && body[body.len() - 1] != '\n' {
            body.push('\n');
        }
    }
    assert(body@ =~= body_of(chars@, second_break as int));
    let mut parser = Parser::new();
    let cmds = parser.parse(&body);
    Some((width, height, cmds))
}

/// A script with at least two lines always parses: its width and height are
/// the integers on those lines, or 32 for a line that holds none, whatever
/// follows them.
pub proof fn lemma_header(s: Seq<char>)
    requires
        line_end(s, 0) + 1 < s.len(),
    ensures
        parse_spec(s) matches Some((w, h, _)) && w == dimension(line_text(s, 0, line_end(s, 0)))
            && h == dimension(line_text(s, line_end(s, 0) + 1, line_end(s, line_end(s, 0) + 1))),
{
}

} // verus!
