//! The stepping execution engine: a toroidal instruction pointer over a
//! grid of decoded cells, 28 storage slots (27 stacks and one queue), and
//! a single-step transition with bounce-on-underflow recovery.

use std::collections::VecDeque;
use vstd::prelude::*;

use crate::hangul::{
    char_from_u32, char_of, count_lines_in_char, disassemble_jamo, disassemble_spec, final_index,
    get_end_count, stroke_count, valid_scalar, Final, Initial, KChar, Medial,
};
use crate::text::{
    decimal_chars, int_to_chars, line_views, lines_spec, parse_int, parse_int_spec, split_lines,
};

verus! {

/// Number of storage slots: one per final consonant pair.
pub const SLOT_COUNT: usize = 28;

/// The one slot that behaves as a first-in-first-out queue; every other
/// slot is a last-in-first-out stack.
pub const QUEUE_SLOT: usize = 21;

/// The code point of the bare consonant used to pad short source lines;
/// it lies outside the syllabic block, so a padding cell decodes to a
/// pass-through cell.
pub const PAD_CODE: u32 = 0x3147;

/// How a program run ended: normally, with the value popped from the
/// selected slot, or by a division or modulo gone wrong.
#[derive(Clone, Copy, PartialEq, Eq, Debug)]
pub enum ExitCode {
    Success(i32),
    DivideByZero,
}

/// The mathematical model of an engine: the decoded grid, the cursor and
/// its direction, the 28 storage slots (front of each sequence is the top
/// of a stack and the head of the queue), the accumulated output, and the
/// buffered input lines.
#[verifier::ext_equal]
pub ghost struct State {
    pub grid: Seq<Seq<KChar>>,
    pub width: int,
    pub height: int,
    pub cursor: (int, int),
    pub dir: (int, int),
    pub prev: (int, int),
    pub stacks: Seq<Seq<i32>>,
    pub result: Seq<char>,
    pub sel: int,
    pub step: int,
    pub ended: bool,
    pub exit_code: Option<ExitCode>,
    pub inputs: Seq<Seq<char>>,
}

/// A direction is a unit or double step along exactly one axis.
pub open spec fn dir_ok(d: (int, int)) -> bool {
    ||| (d.1 == 0 && (d.0 == 1 || d.0 == -1 || d.0 == 2 || d.0 == -2))
    ||| (d.0 == 0 && (d.1 == 1 || d.1 == -1 || d.1 == 2 || d.1 == -2))
}

/// Well-formedness of an engine state: a nonempty rectangular grid, the
/// cursor and previous cursor inside it, 28 slots, a selected slot, a
/// lawful direction, and an exit code exactly when ended.
pub open spec fn state_wf(s: State) -> bool {
    &&& 1 <= s.width
    &&& 1 <= s.height
    &&& s.grid.len() == s.height
    &&& (forall|y: int| 0 <= y < s.height ==> (#[trigger] s.grid[y]).len() == s.width)
    &&& s.stacks.len() == 28
    &&& 0 <= s.sel < 28
    &&& 0 <= s.cursor.0 < s.width
    &&& 0 <= s.cursor.1 < s.height
    &&& 0 <= s.prev.0 < s.width
    &&& 0 <= s.prev.1 < s.height
    &&& dir_ok(s.dir)
    &&& (s.ended <==> s.exit_code is Some)
}

/// The front-most value of a slot (0 when empty) and the slot after the
/// removal.
pub open spec fn popped(slot: Seq<i32>) -> (i32, Seq<i32>) {
    if slot.len() == 0 { (0i32, slot) } else { (slot[0], slot.drop_first()) }
}

/// A slot after an insertion: at the back for the queue slot, at the
/// front for every stack slot.
pub open spec fn pushed(sel: int, slot: Seq<i32>, v: i32) -> Seq<i32> {
    if sel == 21 { slot.push(v) } else { seq![v] + slot }
}

/// The state after popping slot `sel`, with the popped value.
pub open spec fn spec_pop(s: State, sel: int) -> (State, i32) {
    let r = popped(s.stacks[sel]);
    (State { stacks: s.stacks.update(sel, r.1), ..s }, r.0)
}

/// The state after pushing `v` onto slot `sel`.
pub open spec fn spec_push(s: State, sel: int, v: i32) -> State {
    State { stacks: s.stacks.update(sel, pushed(sel, s.stacks[sel], v)), ..s }
}

/// The state after putting `v` back at the front of slot `sel`, whatever
/// its discipline: duplicate and swap return the values they popped to
/// the place they were taken from, so on the queue too they work on the
/// front values.
pub open spec fn spec_push_front(s: State, sel: int, v: i32) -> State {
    State { stacks: s.stacks.update(sel, seq![v] + s.stacks[sel]), ..s }
}

/// The state after pushing the code point of every character of a line,
/// in order.
pub open spec fn push_all(s: State, sel: int, line: Seq<char>) -> State
    decreases line.len(),
{
    if line.len() == 0 {
        s
    } else {
        push_all(spec_push(s, sel, (line[0] as u32) as i32), sel, line.skip(1))
    }
}

/// The bit pattern of a value read as a code point: a negative value
/// wraps around, as a cast to u32 reads it.
pub open spec fn code_of(v: i32) -> u32 {
    if v >= 0 { v as u32 } else { (v + 0x1_0000_0000) as u32 }
}

/// The character printed for a value: the character at that code point,
/// or a blank substitute when the value is no code point.
pub open spec fn print_char(v: i32) -> char {
    if valid_scalar(code_of(v)) { char_of(code_of(v)) } else { ' ' }
}

/// The state ended with an exit code.
pub open spec fn spec_halt(s: State, code: ExitCode) -> State {
    State { ended: true, exit_code: Some(code), ..s }
}

/// What one opcode attempt does, before any direction change: the state
/// it leaves, whether the attempt was valid (an invalid one bounces), and
/// whether it ended the run (ending skips the move entirely).
///
/// Values are 32-bit, the widest the engine can step without allocating:
/// the arithmetic family wraps at the width's ends, stated exactly below,
/// rather than failing on a value the width cannot hold.
pub open spec fn op_spec(s: State, ini: Initial, fin: Final) -> (State, bool, bool) {
    match ini {
        Initial::Ieung | Initial::Giyeok | Initial::SsangGiyeok => (s, true, false),
        Initial::Hieuh => {
            let p = spec_pop(s, s.sel);
            (spec_halt(p.0, ExitCode::Success(p.1)), true, true)
        },
        Initial::Digeut => {
            if s.stacks[s.sel].len() < 2 {
                (s, false, false)
            } else {
                let p1 = spec_pop(s, s.sel);
                let p2 = spec_pop(p1.0, s.sel);
                (spec_push(p2.0, s.sel, p1.1.wrapping_add(p2.1)), true, false)
            }
        },
        Initial::SsangDigeut => {
            if s.stacks[s.sel].len() < 2 {
                (s, false, false)
            } else {
                let p1 = spec_pop(s, s.sel);
                let p2 = spec_pop(p1.0, s.sel);
                (spec_push(p2.0, s.sel, p1.1.wrapping_mul(p2.1)), true, false)
            }
        },
        Initial::Thieuth => {
            if s.stacks[s.sel].len() < 2 {
                (s, false, false)
            } else {
                let p1 = spec_pop(s, s.sel);
                let p2 = spec_pop(p1.0, s.sel);
                (spec_push(p2.0, s.sel, p2.1.wrapping_sub(p1.1)), true, false)
            }
        },
        Initial::Nieun => {
            if s.stacks[s.sel].len() < 2 {
                (s, false, false)
            } else {
                let p1 = spec_pop(s, s.sel);
                let p2 = spec_pop(p1.0, s.sel);
                if p2.1 == 0 {
                    (spec_halt(p2.0, ExitCode::DivideByZero), true, true)
                } else {
                    match p2.1.checked_div(p1.1) {
                        Some(v) => (spec_push(p2.0, s.sel, v), true, false),
                        None => (spec_halt(p2.0, ExitCode::DivideByZero), true, true),
                    }
                }
            }
        },
        Initial::Rieul => {
            if s.stacks[s.sel].len() < 2 {
                (s, false, false)
            } else {
                let p1 = spec_pop(s, s.sel);
                let p2 = spec_pop(p1.0, s.sel);
                if p2.1 == 0 {
                    (spec_halt(p2.0, ExitCode::DivideByZero), true, true)
                } else {
                    match p2.1.checked_rem(p1.1) {
                        Some(v) => (spec_push(p2.0, s.sel, v), true, false),
                        None => (spec_halt(p2.0, ExitCode::DivideByZero), true, true),
                    }
                }
            }
        },
        Initial::Mieum => {
            if s.stacks[s.sel].len() < 1 {
                (s, false, false)
            } else {
                let p = spec_pop(s, s.sel);
                match fin {
                    Final::Ieung => (
                        State { result: p.0.result + decimal_chars(p.1 as int), ..p.0 },
                        true,
                        false,
                    ),
                    Final::Hieuh => (
                        State { result: p.0.result + seq![print_char(p.1)], ..p.0 },
                        true,
                        false,
                    ),
                    _ => (p.0, true, false),
                }
            }
        },
        Initial::Bieup => {
            match fin {
                Final::Ieung => {
                    let line = if s.inputs.len() > 0 { s.inputs[0] } else { Seq::empty() };
                    let s1 = State {
                        inputs: if s.inputs.len() > 0 { s.inputs.drop_first() } else { s.inputs },
                        ..s
                    };
                    (spec_push(s1, s.sel, parse_int_spec(line)), true, false)
                },
                Final::Hieuh => {
                    let line = if s.inputs.len() > 0 { s.inputs[0] } else { Seq::empty() };
                    let s1 = State {
                        inputs: if s.inputs.len() > 0 { s.inputs.drop_first() } else { s.inputs },
                        ..s
                    };
                    (push_all(s1, s.sel, line), true, false)
                },
                _ => (spec_push(s, s.sel, stroke_count(fin) as i32), true, false),
            }
        },
        Initial::SsangBieup => {
            if s.stacks[s.sel].len() < 1 {
                (s, false, false)
            } else {
                let p = spec_pop(s, s.sel);
                (spec_push_front(spec_push_front(p.0, s.sel, p.1), s.sel, p.1), true, false)
            }
        },
        Initial::Phieuph => {
            if s.stacks[s.sel].len() < 2 {
                (s, false, false)
            } else {
                let p1 = spec_pop(s, s.sel);
                let p2 = spec_pop(p1.0, s.sel);
                (spec_push_front(spec_push_front(p2.0, s.sel, p1.1), s.sel, p2.1), true, false)
            }
        },
        Initial::Siot => (State { sel: final_index(fin), ..s }, true, false),
        Initial::SsangSiot => {
            if s.stacks[s.sel].len() < 1 {
                (s, false, false)
            } else {
                let p = spec_pop(s, s.sel);
                (spec_push(p.0, final_index(fin), p.1), true, false)
            }
        },
        Initial::Jieut => {
            if s.stacks[s.sel].len() < 2 {
                (s, false, false)
            } else {
                let p1 = spec_pop(s, s.sel);
                let p2 = spec_pop(p1.0, s.sel);
                (spec_push(p2.0, s.sel, if p2.1 >= p1.1 { 1i32 } else { 0i32 }), true, false)
            }
        },
        Initial::Chieut => {
            if s.stacks[s.sel].len() < 1 {
                (s, false, false)
            } else {
                let p = spec_pop(s, s.sel);
                (p.0, p.1 != 0, false)
            }
        },
        Initial::SsangJieut | Initial::Khieukh => (s, false, false),
    }
}

proof fn lemma_push_all_frame(s: State, sel: int, line: Seq<char>)
    requires
        0 <= sel < s.stacks.len(),
    ensures
        ({
            let r = push_all(s, sel, line);
            &&& r.cursor == s.cursor
            &&& r.prev == s.prev
            &&& r.dir == s.dir
            &&& r.width == s.width
            &&& r.height == s.height
            &&& r.grid == s.grid
            &&& r.stacks.len() == s.stacks.len()
            &&& r.sel == s.sel
            &&& r.step == s.step
            &&& r.ended == s.ended
            &&& r.exit_code == s.exit_code
            &&& r.inputs == s.inputs
            &&& r.result == s.result
        }),
    decreases line.len(),
{
    if line.len() > 0 {
        lemma_push_all_frame(spec_push(s, sel, (line[0] as u32) as i32), sel, line.skip(1));
    }
}

proof fn lemma_op_frame(s: State, ini: Initial, fin: Final)
    requires
        s.stacks.len() == 28,
        0 <= s.sel < 28,
    ensures
        ({
            let r = op_spec(s, ini, fin);
            &&& r.0.cursor == s.cursor
            &&& r.0.prev == s.prev
            &&& r.0.dir == s.dir
            &&& r.0.width == s.width
            &&& r.0.height == s.height
            &&& r.0.grid == s.grid
            &&& r.0.stacks.len() == s.stacks.len()
            &&& r.0.step == s.step
            &&& (0 <= s.sel < 28 ==> 0 <= r.0.sel < 28)
            &&& (!r.2 ==> r.0.ended == s.ended && r.0.exit_code == s.exit_code)
        }),
{
    assert(0 <= final_index(fin) < 28);
    if ini == Initial::Bieup && fin == Final::Hieuh {
        let line = if s.inputs.len() > 0 { s.inputs[0] } else { Seq::empty() };
        let s1 = State {
            inputs: if s.inputs.len() > 0 { s.inputs.drop_first() } else { s.inputs },
            ..s
        };
        lemma_push_all_frame(s1, s.sel, line);
    }
}

/// Where a vowel steers the direction: four straight moves at each of two
/// magnitudes, two mirrors that reverse one axis only when moving along
/// it, one full reversal, and no change for the rest.
pub open spec fn dir_update(d: (int, int), m: Medial) -> (int, int) {
    match m {
        Medial::A => (1, 0),
        Medial::Eo => (-1, 0),
        Medial::O => (0, -1),
        Medial::U => (0, 1),
        Medial::Ya => (2, 0),
        Medial::Yeo => (-2, 0),
        Medial::Yo => (0, -2),
        Medial::Yu => (0, 2),
        Medial::I => if d.1 == 0 { (-d.0, 0) } else { d },
        Medial::Eu => if d.0 == 0 { (0, -d.1) } else { d },
        Medial::Ui => (-d.0, -d.1),
        _ => d,
    }
}

/// A coordinate moved by one direction component, wrapping around the
/// grid edge.
pub open spec fn wrap_coord(p: int, d: int, m: int) -> int {
    (p + d) % m
}

/// The state after the move: the cursor becomes the previous cursor and
/// advances by the direction vector on both axes, wrapping on the torus.
pub open spec fn spec_advance(s: State) -> State {
    State {
        prev: s.cursor,
        cursor: (
            wrap_coord(s.cursor.0, s.dir.0, s.width),
            wrap_coord(s.cursor.1, s.dir.1, s.height),
        ),
        ..s
    }
}

/// The single-step transition function. One step: count it, read the cell
/// under the cursor; a cell without components passes through unchanged;
/// otherwise attempt its opcode, and unless that ended the run, steer by
/// its vowel — reversed on both axes when the attempt was invalid — and
/// move.
pub open spec fn step_spec(s: State) -> State {
    let s1 = State { step: s.step + 1, ..s };
    let cell = s.grid[s.cursor.1][s.cursor.0];
    match cell.jamo {
        None => spec_advance(s1),
        Some(t) => {
            let r = op_spec(s1, t.0, t.2);
            if r.2 {
                r.0
            } else {
                let d1 = dir_update(s.dir, t.1);
                let d2 = if r.1 { d1 } else { (-d1.0, -d1.1) };
                spec_advance(State { dir: d2, ..r.0 })
            }
        },
    }
}

/// The widest line, in characters.
pub open spec fn max_width(lines: Seq<Seq<char>>) -> int
    decreases lines.len(),
{
    if lines.len() == 0 {
        0
    } else {
        let rest = max_width(lines.drop_last());
        if lines.last().len() > rest { lines.last().len() as int } else { rest }
    }
}

proof fn lemma_max_width_ge(lines: Seq<Seq<char>>, y: int)
    requires
        0 <= y < lines.len(),
    ensures
        lines[y].len() <= max_width(lines),
    decreases lines.len(),
{
    if y < lines.len() - 1 {
        assert(lines.drop_last()[y] == lines[y]);
        lemma_max_width_ge(lines.drop_last(), y);
    }
}

/// The decoded cell at (x, y) of the padded grid: the character of the
/// line when it reaches that far, the padding character otherwise.
pub open spec fn grid_cell(lines: Seq<Seq<char>>, y: int, x: int) -> KChar {
    if x < lines[y].len() {
        disassemble_spec(lines[y][x])
    } else {
        KChar { jamo: None, orig: char_of(PAD_CODE as u32) }
    }
}

/// The starting state an engine built from `src` has: the decoded padded
/// grid, the cursor at the origin moving down, slot 0 selected, all slots
/// empty, and nothing yet stepped, output or ended.
pub open spec fn init_state(src: Seq<char>, s: State) -> bool {
    let lines = lines_spec(src);
    &&& s.width == max_width(lines)
    &&& s.height == lines.len()
    &&& (forall|y: int, x: int|
        0 <= y < s.height && 0 <= x < s.width ==> #[trigger] s.grid[y][x] == grid_cell(
            lines,
            y,
            x,
        ))
    &&& s.cursor == (0int, 0int)
    &&& s.dir == (0int, 1int)
    &&& s.prev == (0int, 0int)
    &&& (forall|i: int| 0 <= i < 28 ==> (#[trigger] s.stacks[i]).len() == 0)
    &&& s.result == Seq::<char>::empty()
    &&& s.sel == 0
    &&& s.step == 0
    &&& !s.ended
    &&& s.exit_code is None
    &&& s.inputs == Seq::<Seq<char>>::empty()
}

/// Whether source text yields a usable grid: at least one line, and at
/// least one of them with a character on it.
pub open spec fn src_ok(src: Seq<char>) -> bool {
    lines_spec(src).len() > 0 && max_width(lines_spec(src)) > 0
}

/// The execution engine.
pub struct Aheui {
    pub cursor: (usize, usize),
    pub dir: (i32, i32),
    pub prev: (usize, usize),
    pub stacks: Vec<VecDeque<i32>>,
    pub result: Vec<char>,
    pub sel: usize,
    pub src_map: Vec<Vec<KChar>>,
    pub src_mat: (usize, usize),
    pub step: usize,
    pub ended: bool,
    pub exit_code: Option<ExitCode>,
    pub inputs: VecDeque<Vec<char>>,
    pub use_debugger: bool,
    pub verbose: bool,
}

/// Law: popping from an empty storage slot yields 0 and leaves the state
/// as it was; it never fails.
pub proof fn lemma_pop_empty(s: State, sel: int)
    requires
        0 <= sel < s.stacks.len(),
        s.stacks[sel].len() == 0,
    ensures
        spec_pop(s, sel).1 == 0i32,
        spec_pop(s, sel).0 == s,
{
    assert(s.stacks.update(sel, s.stacks[sel]) =~~= s.stacks);
    assert(spec_pop(s, sel).0 =~= s);
}

/// Law: a program of a single terminate cell ends after exactly one step,
/// reporting the value popped from the selected slot — 0 when nothing was
/// ever written there.
pub proof fn lemma_terminate_single_cell(s: State)
    requires
        state_wf(s),
        !s.ended,
        s.width == 1,
        s.height == 1,
        s.grid[0][0].jamo matches Some(t) && t.0 == Initial::Hieuh,
    ensures
        step_spec(s).ended,
        step_spec(s).step == s.step + 1,
        step_spec(s).exit_code == Some(ExitCode::Success(popped(s.stacks[s.sel]).0)),
        s.stacks[s.sel].len() == 0 ==> step_spec(s).exit_code == Some(ExitCode::Success(0i32)),
{
    assert(s.cursor.0 == 0 && s.cursor.1 == 0);
}

/// Law: every step keeps the cursor inside the grid, whose dimensions
/// never change, and counts exactly one step; unless it ended the run, it
/// records the old cursor as the previous one and advances by the new
/// direction with a non-negative remainder on each axis.
pub proof fn lemma_step_in_bounds(s: State)
    requires
        state_wf(s),
        !s.ended,
    ensures
        0 <= step_spec(s).cursor.0 < step_spec(s).width,
        0 <= step_spec(s).cursor.1 < step_spec(s).height,
        step_spec(s).width == s.width,
        step_spec(s).height == s.height,
        step_spec(s).step == s.step + 1,
        !step_spec(s).ended ==> step_spec(s).prev == s.cursor && step_spec(s).cursor.0
            == wrap_coord(s.cursor.0, step_spec(s).dir.0, s.width) && step_spec(s).cursor.1
            == wrap_coord(s.cursor.1, step_spec(s).dir.1, s.height),
{
    let cell = s.grid[s.cursor.1][s.cursor.0];
    match cell.jamo {
        None => {},
        Some(t) => {
            lemma_op_frame(State { step: s.step + 1, ..s }, t.0, t.2);
        },
    }
}

/// Law: the swap opcode is its own inverse — applied twice to the same
/// slot, any slot, with no other storage mutation in between, it restores
/// the slot, whatever final components ride along. One application
/// exchanges exactly the two front values.
pub proof fn lemma_swap_twice(s: State, fin1: Final, fin2: Final)
    requires
        s.stacks.len() == 28,
        0 <= s.sel < 28,
        s.stacks[s.sel].len() >= 2,
    ensures
        op_spec(s, Initial::Phieuph, fin1).0.stacks[s.sel] == seq![s.stacks[s.sel][1], s.stacks[s.sel][0]] + s.stacks[s.sel].skip(2),
        op_spec(op_spec(s, Initial::Phieuph, fin1).0, Initial::Phieuph, fin2).0 == s,
{
    let sel = s.sel;
    let slot = s.stacks[sel];
    let a = slot[0];
    let b = slot[1];
    let rest = slot.skip(2);
    assert(slot.drop_first().drop_first() =~= rest);
    let s1 = op_spec(s, Initial::Phieuph, fin1).0;
    let mid = seq![b] + (seq![a] + rest);
    assert(s1.stacks[sel] =~= mid);
    assert(s1.stacks[sel] =~= seq![b, a] + rest);
    assert(s1.stacks =~~= s.stacks.update(sel, mid));
    assert(mid.len() == slot.len());
    assert(mid[0] == b && mid[1] == a);
    assert(mid.drop_first().drop_first() =~= rest);
    let s2 = op_spec(s1, Initial::Phieuph, fin2).0;
    assert(s2.stacks[sel] =~= seq![a] + (seq![b] + rest));
    assert(seq![a] + (seq![b] + rest) =~= slot);
    assert(s2.stacks =~~= s.stacks);
    assert(s2 =~= s);
}

impl View for Aheui {
    type V = State;

    open spec fn view(&self) -> State {
        State {
            grid: Seq::new(self.src_map@.len(), |i: int| self.src_map@[i]@),
            width: self.src_mat.0 as int,
            height: self.src_mat.1 as int,
            cursor: (self.cursor.0 as int, self.cursor.1 as int),
            dir: (self.dir.0 as int, self.dir.1 as int),
            prev: (self.prev.0 as int, self.prev.1 as int),
            stacks: Seq::new(self.stacks@.len(), |i: int| self.stacks@[i]@),
            result: self.result@,
            sel: self.sel as int,
            step: self.step as int,
            ended: self.ended,
            exit_code: self.exit_code,
            inputs: Seq::new(self.inputs@.len(), |i: int| self.inputs@[i]@),
        }
    }
}

fn wrap_add(p: usize, d: i32, m: usize) -> (r: usize)
    requires
        p < m,
        -2 <= d <= 2,
    ensures
        r == wrap_coord(p as int, d as int, m as int),
        r < m,
{
    let t: i128 = p as i128 + d as i128 + 2 * (m as i128);
    let r = t % (m as i128);
    proof {
        vstd::arithmetic::div_mod::lemma_mod_multiples_vanish(2, p + d, m as int);
    }
    r as usize
}

impl Aheui {
    /// Build an engine when the source text yields a usable grid, and
    /// report the rejection otherwise: an empty grid has no cursor
    /// position to start from.
    #[verifier::loop_isolation(false)]
    pub fn try_new(src: Vec<char>) -> (r: Option<Aheui>)
        ensures
            match r {
                Some(a) => state_wf(a@) && init_state(src@, a@),
                None => !src_ok(src@),
            },
    {
        let lines = split_lines(&src);
        let h = lines.len();
        let ghost lviews = lines_spec(src@);
        proof {
            assert(lviews =~= line_views(lines@));
        }
        let mut w: usize = 0;
        let mut i: usize = 0;
        proof {
            assert(lviews.take(0) =~= Seq::<Seq<char>>::empty());
        }
        while i < h
            invariant
                i <= h,
                w == max_width(lviews.take(i as int)),
            decreases h - i,
        {
            let l = lines[i].len();
            proof {
                assert(lviews.take(i as int + 1).drop_last() =~= lviews.take(i as int));
                assert(lviews.take(i as int + 1).last() == lines@[i as int]@);
            }
            if l > w {
                w = l;
            }
            i = i + 1;
        }
        proof {
            assert(lviews.take(h as int) =~= lviews);
        }
        if h == 0 || w == 0 {
            return None;
        }
        let pad: char = match char_from_u32(PAD_CODE) {
            Some(c) => c,
            None => {
                proof {
                    assert(false);
                }
                ' '
            },
        };
        let mut src_map: Vec<Vec<KChar>> = Vec::new();
        let mut y: usize = 0;
        while y < h
            invariant
                y <= h,
                src_map@.len() == y,
                forall|yy: int| 0 <= yy < y ==> (#[trigger] src_map@[yy]@).len() == w,
                forall|yy: int, xx: int|
                    0 <= yy < y && 0 <= xx < w ==> #[trigger] src_map@[yy]@[xx] == grid_cell(
                        lviews,
                        yy,
                        xx,
                    ),
            decreases h - y,
        {
            let line = &lines[y];
            let llen = line.len();
            let mut row: Vec<KChar> = Vec::new();
            let mut x: usize = 0;
            while x < w
                invariant
                    x <= w,
                    row@.len() == x,
                    forall|xx: int|
                        0 <= xx < x ==> #[trigger] row@[xx] == grid_cell(lviews, y as int, xx),
                decreases w - x,
            {
                let c = if x < llen { line[x] } else { pad };
                let k = disassemble_jamo(c);
                proof {
                    if x >= llen {
                        assert((pad as u32) < crate::hangul::SYLLABLE_BASE);
                        assert(k == (KChar { jamo: None, orig: char_of(PAD_CODE) }));
                    }
                    assert(k == grid_cell(lviews, y as int, x as int));
                }
                row.push(k);
                x = x + 1;
            }
            src_map.push(row);
            y = y + 1;
        }
        let mut stacks: Vec<VecDeque<i32>> = Vec::new();
        let mut si: usize = 0;
        while si < SLOT_COUNT
            invariant
                si <= 28,
                stacks@.len() == si,
                forall|k: int| 0 <= k < si ==> (#[trigger] stacks@[k]@).len() == 0,
            decreases 28 - si,
        {
            stacks.push(VecDeque::new());
            si = si + 1;
        }
        let a = Aheui {
            cursor: (0, 0),
            dir: (0, 1),
            prev: (0, 0),
            stacks,
            result: Vec::new(),
            sel: 0,
            src_map,
            src_mat: (w, h),
            step: 0,
            ended: false,
            exit_code: None,
            inputs: VecDeque::new(),
            use_debugger: false,
            verbose: false,
        };
        proof {
            assert(a@.inputs =~= Seq::<Seq<char>>::empty());
            assert(state_wf(a@));
            assert(init_state(src@, a@));
        }
        Some(a)
    }

    /// Build an engine from source text that yields a usable grid: at
    /// least one line, at least one of them with a character on it.
    pub fn new(src: Vec<char>) -> (r: Aheui)
        requires
            src_ok(src@),
        ensures
            state_wf(r@),
            init_state(src@, r@),
    {
        match Self::try_new(src) {
            Some(a) => a,
            None => vstd::pervasive::unreached(),
        }
    }

    fn get_value(&mut self, sel: usize) -> (v: i32)
        requires
            (sel as int) < old(self)@.stacks.len(),
        ensures
            v == spec_pop(old(self)@, sel as int).1,
            final(self)@ == spec_pop(old(self)@, sel as int).0,
    {
        let r = self.stacks[sel].pop_front();
        proof {
            let target = spec_pop(old(self)@, sel as int).0;
            assert(old(self)@.stacks[sel as int] == old(self).stacks@[sel as int]@);
            if old(self).stacks@[sel as int]@.len() > 0 {
                assert(self.stacks@[sel as int]@ =~= old(self)@.stacks[sel as int].drop_first());
            }
            assert(self@.stacks =~~= target.stacks);
            assert(self@ =~= target);
        }
        match r {
            Some(x) => x,
            None => 0,
        }
    }

    fn insert_value(&mut self, sel: usize, val: i32)
        requires
            (sel as int) < old(self)@.stacks.len(),
        ensures
            final(self)@ == spec_push(old(self)@, sel as int, val),
    {
        if sel == QUEUE_SLOT {
            self.stacks[sel].push_back(val);
        } else {
            self.stacks[sel].push_front(val);
        }
        proof {
            let target = spec_push(old(self)@, sel as int, val);
            assert(self.stacks@[sel as int]@ =~= pushed(
                sel as int,
                old(self)@.stacks[sel as int],
                val,
            ));
            assert(self@.stacks =~~= target.stacks);
            assert(self@ =~= target);
        }
    }

    fn push_front_value(&mut self, sel: usize, val: i32)
        requires
            (sel as int) < old(self)@.stacks.len(),
        ensures
            final(self)@ == spec_push_front(old(self)@, sel as int, val),
    {
        self.stacks[sel].push_front(val);
        proof {
            let target = spec_push_front(old(self)@, sel as int, val);
            assert(self.stacks@[sel as int]@ =~= seq![val] + old(self)@.stacks[sel as int]);
            assert(self@.stacks =~~= target.stacks);
            assert(self@ =~= target);
        }
    }

    fn check_require(&self, count: usize) -> (r: bool)
        requires
            0 <= self@.sel < self@.stacks.len(),
        ensures
            r == (self@.stacks[self@.sel].len() >= count),
    {
        self.stacks[self.sel].len() >= count
    }

    fn bump_step(&mut self)
        requires
            old(self)@.step < usize::MAX,
        ensures
            final(self)@ == (State { step: old(self)@.step + 1, ..old(self)@ }),
    {
        self.step = self.step + 1;
        proof {
            assert(self@.grid =~~= old(self)@.grid);
            assert(self@.stacks =~~= old(self)@.stacks);
            assert(self@.inputs =~~= old(self)@.inputs);
            assert(self@ =~= (State { step: old(self)@.step + 1, ..old(self)@ }));
        }
    }

    fn set_dir(&mut self, dx: i32, dy: i32)
        ensures
            final(self)@ == (State { dir: (dx as int, dy as int), ..old(self)@ }),
    {
        self.dir = (dx, dy);
        proof {
            assert(self@.grid =~~= old(self)@.grid);
            assert(self@.stacks =~~= old(self)@.stacks);
            assert(self@.inputs =~~= old(self)@.inputs);
            assert(self@ =~= (State { dir: (dx as int, dy as int), ..old(self)@ }));
        }
    }

    fn set_sel(&mut self, sel: usize)
        ensures
            final(self)@ == (State { sel: sel as int, ..old(self)@ }),
    {
        self.sel = sel;
        proof {
            assert(self@.grid =~~= old(self)@.grid);
            assert(self@.stacks =~~= old(self)@.stacks);
            assert(self@.inputs =~~= old(self)@.inputs);
            assert(self@ =~= (State { sel: sel as int, ..old(self)@ }));
        }
    }

    fn append_result(&mut self, txt: &Vec<char>)
        ensures
            final(self)@ == (State { result: old(self)@.result + txt@, ..old(self)@ }),
    {
        let mut i: usize = 0;
        proof {
            assert(self@.result =~= old(self)@.result + txt@.take(0));
        }
        while i < txt.len()
            invariant
                i <= txt@.len(),
                self@ == (State { result: old(self)@.result + txt@.take(i as int), ..old(self)@ }),
            decreases txt@.len() - i,
        {
            let ghost mid = self@;
            self.result.push(txt[i]);
            proof {
                assert(txt@.take(i as int + 1) =~= txt@.take(i as int).push(txt@[i as int]));
                assert(self@.grid =~~= mid.grid);
                assert(self@.stacks =~~= mid.stacks);
                assert(self@.inputs =~~= mid.inputs);
                assert(self@ =~= (State {
                    result: old(self)@.result + txt@.take(i as int + 1),
                    ..old(self)@
                }));
            }
            i = i + 1;
        }
        proof {
            assert(txt@.take(txt@.len() as int) =~= txt@);
        }
    }

    /// End the run with an exit code; any printing a host does with it is
    /// its own affair.
    pub fn exit(&mut self, code: ExitCode)
        ensures
            final(self)@ == spec_halt(old(self)@, code),
    {
        self.ended = true;
        self.exit_code = Some(code);
        proof {
            assert(self@.grid =~~= old(self)@.grid);
            assert(self@.stacks =~~= old(self)@.stacks);
            assert(self@.inputs =~~= old(self)@.inputs);
            assert(self@ =~= spec_halt(old(self)@, code));
        }
    }

    fn advance_cursor(&mut self)
        requires
            0 <= old(self)@.cursor.0 < old(self)@.width,
            0 <= old(self)@.cursor.1 < old(self)@.height,
            dir_ok(old(self)@.dir),
        ensures
            final(self)@ == spec_advance(old(self)@),
            0 <= final(self)@.cursor.0 < final(self)@.width,
            0 <= final(self)@.cursor.1 < final(self)@.height,
    {
        let nx = wrap_add(self.cursor.0, self.dir.0, self.src_mat.0);
        let ny = wrap_add(self.cursor.1, self.dir.1, self.src_mat.1);
        self.prev = self.cursor;
        self.cursor = (nx, ny);
        proof {
            assert(self@.grid =~~= old(self)@.grid);
            assert(self@.stacks =~~= old(self)@.stacks);
            assert(self@.inputs =~~= old(self)@.inputs);
            assert(self@ =~= spec_advance(old(self)@));
        }
    }

    fn take_input_line(&mut self) -> (line: Vec<char>)
        ensures
            line@ == (if old(self)@.inputs.len() > 0 {
                old(self)@.inputs[0]
            } else {
                Seq::<char>::empty()
            }),
            final(self)@ == (State {
                inputs: if old(self)@.inputs.len() > 0 {
                    old(self)@.inputs.drop_first()
                } else {
                    old(self)@.inputs
                },
                ..old(self)@
            }),
    {
        let r = self.inputs.pop_front();
        proof {
            assert(self@.grid =~~= old(self)@.grid);
            assert(self@.stacks =~~= old(self)@.stacks);
            if old(self)@.inputs.len() > 0 {
                assert(old(self)@.inputs[0] == old(self).inputs@[0]@);
                assert(self@.inputs =~~= old(self)@.inputs.drop_first());
            } else {
                assert(self@.inputs =~~= old(self)@.inputs);
            }
            assert(self@ =~= (State {
                inputs: if old(self)@.inputs.len() > 0 {
                    old(self)@.inputs.drop_first()
                } else {
                    old(self)@.inputs
                },
                ..old(self)@
            }));
        }
        match r {
            Some(l) => l,
            None => Vec::new(),
        }
    }

    /// Record whether a host shows a step-by-step dump; the transition
    /// itself never reads it.
    pub fn verbose(&mut self, opt: bool)
        ensures
            final(self)@ == old(self)@,
            final(self).verbose == opt,
    {
        self.verbose = opt;
        proof {
            assert(self@.grid =~~= old(self)@.grid);
            assert(self@.stacks =~~= old(self)@.stacks);
            assert(self@.inputs =~~= old(self)@.inputs);
            assert(self@ =~= old(self)@);
        }
    }

    /// Record whether a host drives the engine from a debugger; the
    /// transition itself never reads it.
    pub fn debug(&mut self, opt: bool)
        ensures
            final(self)@ == old(self)@,
            final(self).use_debugger == opt,
    {
        self.use_debugger = opt;
        proof {
            assert(self@.grid =~~= old(self)@.grid);
            assert(self@.stacks =~~= old(self)@.stacks);
            assert(self@.inputs =~~= old(self)@.inputs);
            assert(self@ =~= old(self)@);
        }
    }

    /// The cell under the cursor.
    pub fn current(&self) -> (k: &KChar)
        requires
            state_wf(self@),
        ensures
            *k == self@.grid[self@.cursor.1][self@.cursor.0],
    {
        &self.src_map[self.cursor.1][self.cursor.0]
    }

    /// Whether the next step would consume an input line the engine does
    /// not have: the cell under the cursor reads a number or characters,
    /// and no line is buffered.
    pub fn needs_input(&self) -> (r: bool)
        requires
            state_wf(self@),
        ensures
            r == ({
                let cell = self@.grid[self@.cursor.1][self@.cursor.0];
                &&& cell.jamo matches Some(t)
                &&& t.0 == Initial::Bieup
                &&& (t.2 == Final::Ieung || t.2 == Final::Hieuh)
                &&& self@.inputs.len() == 0
            }),
    {
        if self.inputs.len() != 0 {
            return false;
        }
        let k = *self.current();
        match k.jamo {
            Some((ini, _, fin)) => {
                match ini {
                    Initial::Bieup => match fin {
                        Final::Ieung | Final::Hieuh => true,
                        _ => false,
                    },
                    _ => false,
                }
            },
            None => false,
        }
    }

    /// Hand the engine one line of input; the next read consumes it.
    pub fn feed_input(&mut self, line: Vec<char>)
        ensures
            final(self)@ == (State { inputs: old(self)@.inputs.push(line@), ..old(self)@ }),
    {
        let ghost l = line@;
        self.inputs.push_back(line);
        proof {
            assert(self@.grid =~~= old(self)@.grid);
            assert(self@.stacks =~~= old(self)@.stacks);
            assert(self@.inputs =~~= old(self)@.inputs.push(l));
            assert(self@ =~= (State { inputs: old(self)@.inputs.push(l), ..old(self)@ }));
        }
    }

    /// Advance the engine by exactly one step of the transition function.
    /// Stepping an ended engine is a caller bug and is ruled out here.
    #[verifier::loop_isolation(false)]
    #[verifier::rlimit(100)]
    pub fn next(&mut self)
        requires
            state_wf(old(self)@),
            !old(self)@.ended,
            old(self)@.step < usize::MAX,
        ensures
            final(self)@ == step_spec(old(self)@),
            state_wf(final(self)@),
    {
        let ghost s0 = self@;
        self.bump_step();
        let ghost s1 = self@;
        let curr = *self.current();
        proof {
            assert(curr == s0.grid[s0.cursor.1][s0.cursor.0]);
        }
        match curr.jamo {
            None => {
                self.advance_cursor();
                proof {
                    assert(self@ == step_spec(s0));
                }
            },
            Some((ini, med, fin)) => {
                let ghost opr = op_spec(s1, ini, fin);
                let mut valid = false;
                match ini {
                    Initial::Ieung | Initial::Giyeok | Initial::SsangGiyeok => {
                        valid = true;
                    },
                    Initial::Hieuh => {
                        let v = self.get_value(self.sel);
                        self.exit(ExitCode::Success(v));
                        proof {
                            assert(self@ == step_spec(s0));
                        }
                        return;
                    },
                    Initial::Digeut => {
                        if self.check_require(2) {
                            let a = self.get_value(self.sel);
                            let b = self.get_value(self.sel);
                            self.insert_value(self.sel, a.wrapping_add(b));
                            valid = true;
                        }
                    },
                    Initial::SsangDigeut => {
                        if self.check_require(2) {
                            let a = self.get_value(self.sel);
                            let b = self.get_value(self.sel);
                            self.insert_value(self.sel, a.wrapping_mul(b));
                            valid = true;
                        }
                    },
                    Initial::Thieuth => {
                        if self.check_require(2) {
                            let a = self.get_value(self.sel);
                            let b = self.get_value(self.sel);
                            self.insert_value(self.sel, b.wrapping_sub(a));
                            valid = true;
                        }
                    },
                    Initial::Nieun => {
                        if self.check_require(2) {
                            let a = self.get_value(self.sel);
                            let b = self.get_value(self.sel);
                            if b == 0 {
                                self.exit(ExitCode::DivideByZero);
                                proof {
                                    assert(self@ == step_spec(s0));
                                }
                                return;
                            }
                            match b.checked_div(a) {
                                Some(v) => {
                                    self.insert_value(self.sel, v);
                                    valid = true;
                                },
                                None => {
                                    self.exit(ExitCode::DivideByZero);
                                    proof {
                                        assert(self@ == step_spec(s0));
                                    }
                                    return;
                                },
                            }
                        }
                    },
                    Initial::Rieul => {
                        if self.check_require(2) {
                            let a = self.get_value(self.sel);
                            let b = self.get_value(self.sel);
                            if b == 0 {
                                self.exit(ExitCode::DivideByZero);
                                proof {
                                    assert(self@ == step_spec(s0));
                                }
                                return;
                            }
                            match b.checked_rem(a) {
                                Some(v) => {
                                    self.insert_value(self.sel, v);
                                    valid = true;
                                },
                                None => {
                                    self.exit(ExitCode::DivideByZero);
                                    proof {
                                        assert(self@ == step_spec(s0));
                                    }
                                    return;
                                },
                            }
                        }
                    },
                    Initial::Mieum => {
                        if self.check_require(1) {
                            let v = self.get_value(self.sel);
                            match fin {
                                Final::Ieung => {
                                    let txt = int_to_chars(v);
                                    self.append_result(&txt);
                                },
                                Final::Hieuh => {
                                    let code: u32 = if v >= 0 {
                                        v as u32
                                    } else {
                                        ((v as i64) + 0x1_0000_0000) as u32
                                    };
                                    proof {
                                        assert(code == code_of(v));
                                    }
                                    let c = match char_from_u32(code) {
                                        Some(c) => c,
                                        None => ' ',
                                    };
                                    proof {
                                        assert(c == print_char(v));
                                    }
                                    let mut one: Vec<char> = Vec::new();
                                    one.push(c);
                                    proof {
                                        assert(one@ =~= seq![print_char(v)]);
                                    }
                                    self.append_result(&one);
                                },
                                _ => {},
                            }
                            valid = true;
                        }
                    },
                    Initial::Bieup => {
                        match fin {
                            Final::Ieung => {
                                let line = self.take_input_line();
                                let v = parse_int(&line);
                                self.insert_value(self.sel, v);
                            },
                            Final::Hieuh => {
                                let line = self.take_input_line();
                                let ghost sb = self@;
                                let ghost lv = line@;
                                let sel = self.sel;
                                let mut i: usize = 0;
                                proof {
                                    assert(lv.skip(0) =~= lv);
                                }
                                while i < line.len()
                                    invariant
                                        i <= lv.len(),
                                        line@ == lv,
                                        sel as int == sb.sel,
                                        self@.sel == sb.sel,
                                        self@.stacks.len() == sb.stacks.len(),
                                        push_all(sb, sb.sel, lv) == push_all(
                                            self@,
                                            sb.sel,
                                            lv.skip(i as int),
                                        ),
                                    decreases lv.len() - i,
                                {
                                    let c = line[i];
                                    let code = c as u32;
                                    let v = #[verifier::truncate] (code as i32);
                                    self.insert_value(sel, v);
                                    proof {
                                        assert(lv.skip(i as int)[0] == lv[i as int]);
                                        assert(lv.skip(i as int).skip(1) =~= lv.skip(i as int + 1));
                                    }
                                    i = i + 1;
                                }
                                proof {
                                    assert(lv.skip(lv.len() as int) =~= Seq::<char>::empty());
                                    assert(self@ == push_all(sb, sb.sel, lv));
                                }
                            },
                            _ => {
                                let v = count_lines_in_char(fin);
                                self.insert_value(self.sel, v);
                            },
                        }
                        valid = true;
                    },
                    Initial::SsangBieup => {
                        if self.check_require(1) {
                            let v = self.get_value(self.sel);
                            self.push_front_value(self.sel, v);
                            self.push_front_value(self.sel, v);
                            valid = true;
                        }
                    },
                    Initial::Phieuph => {
                        if self.check_require(2) {
                            let a = self.get_value(self.sel);
                            let b = self.get_value(self.sel);
                            self.push_front_value(self.sel, a);
                            self.push_front_value(self.sel, b);
                            valid = true;
                        }
                    },
                    Initial::Siot => {
                        let slot = get_end_count(fin);
                        proof {
                            assert(final_index(fin) < 28);
                        }
                        self.set_sel(slot);
                        valid = true;
                    },
                    Initial::SsangSiot => {
                        if self.check_require(1) {
                            let v = self.get_value(self.sel);
                            let slot = get_end_count(fin);
                            proof {
                                assert(final_index(fin) < 28);
                            }
                            self.insert_value(slot, v);
                            valid = true;
                        }
                    },
                    Initial::Jieut => {
                        if self.check_require(2) {
                            let a = self.get_value(self.sel);
                            let b = self.get_value(self.sel);
                            if b >= a {
                                self.insert_value(self.sel, 1);
                            } else {
                                self.insert_value(self.sel, 0);
                            }
                            valid = true;
                        }
                    },
                    Initial::Chieut => {
                        if self.check_require(1) {
                            let v = self.get_value(self.sel);
                            valid = v != 0;
                        }
                    },
                    Initial::SsangJieut | Initial::Khieukh => {},
                }
                proof {
                    assert(self@ == opr.0);
                    assert(valid == opr.1);
                    assert(!opr.2);
                    lemma_op_frame(s1, ini, fin);
                    assert(self@.dir == s0.dir);
                }
                let dir0 = self.dir;
                let nd: (i32, i32) = match med {
                    Medial::A => (1, 0),
                    Medial::Eo => (-1, 0),
                    Medial::O => (0, -1),
                    Medial::U => (0, 1),
                    Medial::Ya => (2, 0),
                    Medial::Yeo => (-2, 0),
                    Medial::Yo => (0, -2),
                    Medial::Yu => (0, 2),
                    Medial::I => if dir0.1 == 0 { (-dir0.0, 0) } else { dir0 },
                    Medial::Eu => if dir0.0 == 0 { (0, -dir0.1) } else { dir0 },
                    Medial::Ui => (-dir0.0, -dir0.1),
                    _ => dir0,
                };
                proof {
                    assert((nd.0 as int, nd.1 as int) == dir_update(s0.dir, med));
                    assert(dir_ok((nd.0 as int, nd.1 as int)));
                }
                let fd: (i32, i32) = if valid { nd } else { (-nd.0, -nd.1) };
                proof {
                    assert(dir_ok((fd.0 as int, fd.1 as int)));
                }
                self.set_dir(fd.0, fd.1);
                self.advance_cursor();
                proof {
                    assert(self@ == step_spec(s0));
                }
            },
        }
    }
}

} // verus!
