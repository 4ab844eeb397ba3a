//! The Type 1 / Type 2 CharString interpreter.
//!
//! A CharString is a byte-encoded stack program. The interpreter reads
//! operands and operators, keeps the running point in 16.16 fixed-point
//! font units, resolves local-subroutine calls and seac accent composition
//! up to a bounded depth, and emits the glyph outline as a sequence of
//! drawing calls.
//!
//! Two properties of every successfully rendered glyph are part of the
//! contracts here: the first emitted call is a move, every later move
//! directly follows a close, and the number of closes equals the number of
//! moves.
use vstd::prelude::*;

verus! {

use crate::Error;
use crate::cff::parser::Fixed;
use crate::cff::parser::TryNumFrom;
use crate::type1::encoding::standard_encoding_name;

/// The argument stack holds at most this many entries.
pub const STACK_CAPACITY: usize = 48;

/// Subroutine calls and seac composition may nest at most this deep.
pub const NESTING_LIMIT: u8 = 10;

/// One drawing call emitted while rendering a glyph. Coordinates are
/// absolute, in 16.16 fixed-point font units.
#[derive(Clone, Copy, Debug, PartialEq, Eq, Structural)]
pub enum DrawCall {
    /// Starts a new subpath at the point.
    MoveTo(Fixed, Fixed),
    /// A straight segment to the point.
    LineTo(Fixed, Fixed),
    /// A quadratic segment: control point, then endpoint.
    QuadTo(Fixed, Fixed, Fixed, Fixed),
    /// A cubic segment: two control points, then the endpoint.
    CurveTo(Fixed, Fixed, Fixed, Fixed, Fixed, Fixed),
    /// Closes the current subpath.
    Close,
}

/// Whether the call starts a subpath.
pub open spec fn is_move(c: DrawCall) -> bool {
    c matches DrawCall::MoveTo(_, _)
}

/// Whether the call closes a subpath.
pub open spec fn is_close(c: DrawCall) -> bool {
    c == DrawCall::Close
}

/// How many calls of the sequence start a subpath.
pub open spec fn count_moves(s: Seq<DrawCall>) -> int
    decreases s.len(),
{
    if s.len() == 0 {
        0
    } else {
        count_moves(s.drop_last()) + if is_move(s.last()) {
            1int
        } else {
            0int
        }
    }
}

/// How many calls of the sequence close a subpath.
pub open spec fn count_closes(s: Seq<DrawCall>) -> int
    decreases s.len(),
{
    if s.len() == 0 {
        0
    } else {
        count_closes(s.drop_last()) + if is_close(s.last()) {
            1int
        } else {
            0int
        }
    }
}

/// The shape every emitted call sequence keeps: the first call starts a
/// subpath, and every later subpath start directly follows a close.
pub open spec fn path_prefix_ok(s: Seq<DrawCall>) -> bool {
    &&& (s.len() > 0 ==> is_move(s[0]))
    &&& (forall|i: int| 0 < i < s.len() && is_move(#[trigger] s[i]) ==> is_close(s[i - 1]))
}

/// The interpreter's running invariant over the emitted calls. `open` is
/// true while a subpath is open: then one close is still owed.
pub open spec fn path_state_ok(s: Seq<DrawCall>, open: bool) -> bool {
    &&& path_prefix_ok(s)
    &&& count_closes(s) == count_moves(s) - (if open {
        1int
    } else {
        0int
    })
    &&& (open ==> count_moves(s) >= 1)
    &&& (!open && s.len() > 0 ==> is_close(s.last()))
}

/// A finished path: well-shaped, with as many closes as subpath starts.
pub open spec fn path_complete_ok(s: Seq<DrawCall>) -> bool {
    path_prefix_ok(s) && count_closes(s) == count_moves(s)
}

/// Counts are never negative.
proof fn lemma_counts_nonneg(s: Seq<DrawCall>)
    ensures
        count_moves(s) >= 0,
        count_closes(s) >= 0,
    decreases s.len(),
{
    if s.len() > 0 {
        lemma_counts_nonneg(s.drop_last());
    }
}

/// Appending a call adds its kind to the counts.
proof fn lemma_count_push(s: Seq<DrawCall>, c: DrawCall)
    ensures
        count_moves(s.push(c)) == count_moves(s) + if is_move(c) {
            1int
        } else {
            0int
        },
        count_closes(s.push(c)) == count_closes(s) + if is_close(c) {
            1int
        } else {
            0int
        },
{
    assert(s.push(c).drop_last() =~= s);
    assert(s.push(c).last() == c);
}

/// Starting a subpath on a closed path keeps the path shape.
proof fn lemma_path_push_move(s: Seq<DrawCall>, x: Fixed, y: Fixed)
    requires
        path_state_ok(s, false),
    ensures
        path_state_ok(s.push(DrawCall::MoveTo(x, y)), true),
{
    let t = s.push(DrawCall::MoveTo(x, y));
    lemma_counts_nonneg(s);
    lemma_count_push(s, DrawCall::MoveTo(x, y));
    assert forall|i: int| 0 < i < t.len() && is_move(#[trigger] t[i]) implies is_close(t[i - 1]) by {
        if i < s.len() {
            assert(t[i] == s[i] && t[i - 1] == s[i - 1]);
        } else {
            assert(t[i - 1] == s.last());
        }
    }
}

/// A segment on an open subpath keeps the path shape.
proof fn lemma_path_push_segment(s: Seq<DrawCall>, c: DrawCall)
    requires
        path_state_ok(s, true),
        !is_move(c),
        !is_close(c),
    ensures
        path_state_ok(s.push(c), true),
{
    let t = s.push(c);
    lemma_count_push(s, c);
    assert forall|i: int| 0 < i < t.len() && is_move(#[trigger] t[i]) implies is_close(t[i - 1]) by {
        if i < s.len() {
            assert(t[i] == s[i] && t[i - 1] == s[i - 1]);
        } else {
            assert(t[i] == c);
        }
    }
}

/// Closing the open subpath keeps the path shape and settles the count.
proof fn lemma_path_push_close(s: Seq<DrawCall>)
    requires
        path_state_ok(s, true),
    ensures
        path_state_ok(s.push(DrawCall::Close), false),
{
    let t = s.push(DrawCall::Close);
    lemma_count_push(s, DrawCall::Close);
    assert forall|i: int| 0 < i < t.len() && is_move(#[trigger] t[i]) implies is_close(t[i - 1]) by {
        if i < s.len() {
            assert(t[i] == s[i] && t[i - 1] == s[i - 1]);
        } else {
            assert(t[i] == DrawCall::Close);
        }
    }
}

/// The interpreter's bounded argument stack.
#[derive(Debug)]
pub struct ArgStack {
    /// The stack entries, bottom first; never more than `STACK_CAPACITY`.
    pub data: Vec<Fixed>,
}

impl ArgStack {
    /// An empty stack.
    pub fn new() -> (r: Self)
        ensures
            r.data@.len() == 0,
    {
        ArgStack { data: Vec::new() }
    }

    /// How many entries the stack holds.
    pub fn len(&self) -> (r: usize)
        ensures
            r == self.data@.len(),
    {
        self.data.len()
    }

    /// Whether the stack is empty.
    pub fn is_empty(&self) -> (r: bool)
        ensures
            r == (self.data@.len() == 0),
    {
        self.data.len() == 0
    }

    /// Pushes a value, failing when the capacity is reached.
    pub fn push(&mut self, v: Fixed) -> (r: Result<(), Error>)
        ensures
            if old(self).data@.len() < STACK_CAPACITY {
                r is Ok && final(self).data@ == old(self).data@.push(v)
            } else {
                r == Err::<(), Error>(Error::InvalidStackOverflow) && final(self).data@ == old(
                    self,
                ).data@
            },
    {
        if self.data.len() < STACK_CAPACITY {
            self.data.push(v);
            Ok(())
        } else {
            Err(Error::InvalidStackOverflow)
        }
    }

    /// Pops the top value.
    pub fn pop(&mut self) -> (r: Fixed)
        requires
            old(self).data@.len() >= 1,
        ensures
            r == old(self).data@.last(),
            final(self).data@ == old(self).data@.drop_last(),
    {
        let v = self.data.pop().unwrap();
        v
    }

    /// The value at `index`, bottom first.
    pub fn at(&self, index: usize) -> (r: Fixed)
        requires
            index < self.data@.len(),
        ensures
            r == self.data@[index as int],
    {
        self.data[index]
    }

    /// Empties the stack.
    pub fn clear(&mut self)
        ensures
            final(self).data@.len() == 0,
    {
        self.data.clear();
    }
}

/// The per-glyph interpreter state.
#[derive(Debug)]
pub struct InterpState {
    /// The drawing calls emitted so far.
    pub calls: Vec<DrawCall>,
    /// The current point.
    pub x: Fixed,
    /// The current point.
    pub y: Fixed,
    /// The argument stack.
    pub stack: ArgStack,
    /// The advance width, once one has been extracted.
    pub width: Option<Fixed>,
    /// How many stem hints were declared.
    pub stems_len: u32,
    /// Whether `endchar` has been executed.
    pub has_endchar: bool,
    /// Whether seac accent composition was used.
    pub has_seac: bool,
    /// True while no subpath is open.
    pub is_first_move_to: bool,
    /// Whether any point was emitted.
    pub has_point: bool,
    /// The lowest x seen, when `has_point`.
    pub min_x: Fixed,
    /// The lowest y seen, when `has_point`.
    pub min_y: Fixed,
    /// The highest x seen, when `has_point`.
    pub max_x: Fixed,
    /// The highest y seen, when `has_point`.
    pub max_y: Fixed,
}

impl InterpState {
    /// The state's running invariant: the emitted calls are well-shaped,
    /// a close is owed exactly while a subpath is open, and a point was
    /// emitted exactly when any call was.
    pub open spec fn wf(&self) -> bool {
        &&& path_state_ok(self.calls@, !self.is_first_move_to)
        &&& (self.has_point <==> self.calls@.len() > 0)
        &&& self.stack.data@.len() <= STACK_CAPACITY
    }

    /// A fresh state at the origin.
    pub fn new() -> (r: Self)
        ensures
            r.wf(),
            r.calls@.len() == 0,
            !r.has_endchar,
            !r.has_seac,
            r.is_first_move_to,
            r.width is None,
            r.stack.data@.len() == 0,
    {
        InterpState {
            calls: Vec::new(),
            x: Fixed(0),
            y: Fixed(0),
            stack: ArgStack::new(),
            width: None,
            stems_len: 0,
            has_endchar: false,
            has_seac: false,
            is_first_move_to: true,
            has_point: false,
            min_x: Fixed(0),
            min_y: Fixed(0),
            max_x: Fixed(0),
            max_y: Fixed(0),
        }
    }

    /// Grows the bounding box to cover the point.
    fn extend_bbox(&mut self, x: Fixed, y: Fixed)
        ensures
            final(self).calls@ == old(self).calls@,
            final(self).is_first_move_to == old(self).is_first_move_to,
            final(self).has_point,
            final(self).x == old(self).x,
            final(self).y == old(self).y,
            final(self).stack.data@ == old(self).stack.data@,
            final(self).width == old(self).width,
            final(self).stems_len == old(self).stems_len,
            final(self).has_endchar == old(self).has_endchar,
            final(self).has_seac == old(self).has_seac,
    {
        if !self.has_point {
            self.min_x = x;
            self.min_y = y;
            self.max_x = x;
            self.max_y = y;
            self.has_point = true;
        } else {
            if x.0 < self.min_x.0 {
                self.min_x = x;
            }
            if x.0 > self.max_x.0 {
                self.max_x = x;
            }
            if y.0 < self.min_y.0 {
                self.min_y = y;
            }
            if y.0 > self.max_y.0 {
                self.max_y = y;
            }
        }
    }

    /// Starts a new subpath at `(x, y)`, first closing the open one.
    fn move_to(&mut self, x: Fixed, y: Fixed)
        requires
            old(self).wf(),
        ensures
            final(self).wf(),
            !final(self).is_first_move_to,
            final(self).stack.data@ == old(self).stack.data@,
            final(self).width == old(self).width,
            final(self).stems_len == old(self).stems_len,
            final(self).has_endchar == old(self).has_endchar,
            final(self).has_seac == old(self).has_seac,
    {
        if !self.is_first_move_to {
            proof {
                lemma_path_push_close(self.calls@);
            }
            self.calls.push(DrawCall::Close);
            self.is_first_move_to = true;
        }
        proof {
            lemma_path_push_move(self.calls@, x, y);
        }
        self.calls.push(DrawCall::MoveTo(x, y));
        self.is_first_move_to = false;
        self.x = x;
        self.y = y;
        self.extend_bbox(x, y);
    }

    /// A straight segment of the open subpath to `(x, y)`.
    fn line_to(&mut self, x: Fixed, y: Fixed)
        requires
            old(self).wf(),
            !old(self).is_first_move_to,
        ensures
            final(self).wf(),
            !final(self).is_first_move_to,
            final(self).stack.data@ == old(self).stack.data@,
            final(self).width == old(self).width,
            final(self).stems_len == old(self).stems_len,
            final(self).has_endchar == old(self).has_endchar,
            final(self).has_seac == old(self).has_seac,
    {
        proof {
            lemma_path_push_segment(self.calls@, DrawCall::LineTo(x, y));
        }
        self.calls.push(DrawCall::LineTo(x, y));
        self.x = x;
        self.y = y;
        self.extend_bbox(x, y);
    }

    /// A cubic segment of the open subpath to `(x, y)` over two control
    /// points.
    fn curve_to(&mut self, x1: Fixed, y1: Fixed, x2: Fixed, y2: Fixed, x: Fixed, y: Fixed)
        requires
            old(self).wf(),
            !old(self).is_first_move_to,
        ensures
            final(self).wf(),
            !final(self).is_first_move_to,
            final(self).stack.data@ == old(self).stack.data@,
            final(self).width == old(self).width,
            final(self).stems_len == old(self).stems_len,
            final(self).has_endchar == old(self).has_endchar,
            final(self).has_seac == old(self).has_seac,
    {
        proof {
            lemma_path_push_segment(self.calls@, DrawCall::CurveTo(x1, y1, x2, y2, x, y));
        }
        self.calls.push(DrawCall::CurveTo(x1, y1, x2, y2, x, y));
        self.x = x;
        self.y = y;
        self.extend_bbox(x1, y1);
        self.extend_bbox(x2, y2);
        self.extend_bbox(x, y);
    }

    /// Closes the open subpath, if any.
    fn close_path(&mut self)
        requires
            old(self).wf(),
        ensures
            final(self).wf(),
            final(self).is_first_move_to,
            final(self).has_point == old(self).has_point || !old(self).is_first_move_to,
            final(self).stack.data@ == old(self).stack.data@,
            final(self).width == old(self).width,
            final(self).stems_len == old(self).stems_len,
            final(self).has_endchar == old(self).has_endchar,
            final(self).has_seac == old(self).has_seac,
    {
        if !self.is_first_move_to {
            proof {
                lemma_path_push_close(self.calls@);
            }
            self.calls.push(DrawCall::Close);
            self.is_first_move_to = true;
        }
    }
}

/// The additive bias applied to subroutine call indices, by table size.
pub fn calc_subroutine_bias(count: usize) -> (r: u16)
    ensures
        r == if count < 1240 {
            0u16
        } else if count < 33900 {
            107u16
        } else {
            32768u16
        },
{
    if count < 1240 {
        0
    } else if count < 33900 {
        107
    } else {
        32768
    }
}

/// The table slot a popped subroutine operand names: its integer part plus
/// the bias, or `None` when that lies below zero.
pub fn conv_subroutine_index(n: Fixed, bias: u16) -> (r: Option<usize>)
    ensures
        ({
            let t = crate::cff::parser::spec_fixed_trunc(n) + bias;
            if t >= 0 {
                r == Some(t as usize)
            } else {
                r is None
            }
        }),
{
    let t = match i32::try_num_from(n) {
        Some(t) => t,
        None => {
            return None;
        },
    };
    let biased: i64 = (t as i64) + (bias as i64);
    if biased < 0 {
        None
    } else {
        Some(biased as usize)
    }
}

/// The CharString bound to `name`, read from the back so that a later
/// definition of the same name wins.
pub open spec fn spec_assoc_lookup(t: Seq<(Vec<u8>, Vec<u8>)>, name: Seq<u8>) -> Option<Seq<u8>>
    decreases t.len(),
{
    if t.len() == 0 {
        None
    } else if t.last().0@ == name {
        Some(t.last().1@)
    } else {
        spec_assoc_lookup(t.drop_last(), name)
    }
}

/// Finds the CharString bound to a glyph name; the latest binding wins.
pub fn find_char_string<'a>(table: &'a Vec<(Vec<u8>, Vec<u8>)>, name: &[u8]) -> (r: Option<
    &'a Vec<u8>,
>)
    ensures
        match spec_assoc_lookup(table@, name@) {
            Some(n) => r matches Some(v) && v@ == n,
            None => r is None,
        },
{
    let mut i = table.len();
    proof {
        assert(table@.take(i as int) =~= table@);
    }
    while i > 0
        invariant
            i <= table@.len(),
            spec_assoc_lookup(table@.take(i as int), name@) == spec_assoc_lookup(table@, name@),
        decreases i,
    {
        i = i - 1;
        proof {
            assert(table@.take(i + 1).last() == table@[i as int]);
            assert(table@.take(i + 1).drop_last() =~= table@.take(i as int));
        }
        if crate::type1::scanner::bytes_eq(table[i].0.as_slice(), name) {
            return Some(&table[i].1);
        }
    }
    None
}

/// Runs one CharString against the interpreter state. `depth` frames of
/// subroutine or seac nesting lie below this one.
///
/// Whatever happens, the emitted calls keep the path shape; the caller
/// decides success from the flags the run leaves behind.
#[verifier::rlimit(100)]
fn execute(
    cs: &[u8],
    subrs: &Vec<Vec<u8>>,
    char_strings: &Vec<(Vec<u8>, Vec<u8>)>,
    depth: u8,
    st: &mut InterpState,
) -> (r: Result<(), Error>)
    requires
        old(st).wf(),
        depth <= NESTING_LIMIT,
    ensures
        final(st).wf(),
    decreases NESTING_LIMIT - depth,
{
    let mut pos: usize = 0;
    loop
        invariant
            st.wf(),
            pos <= cs@.len(),
            depth <= NESTING_LIMIT,
        decreases cs@.len() - pos,
    {
        if pos >= cs.len() {
            return Ok(());
        }
        let op = cs[pos];
        pos = pos + 1;
        if op == 0 || op == 2 || op == 9 || op == 13 || op == 15 || op == 16 || op == 17 {
            // Reserved.
            return Err(Error::InvalidOperator(op));
        } else if op == 1 || op == 3 || op == 18 || op == 23 {
            // hstem / vstem / hstemhm / vstemhm: an odd stack carries the
            // width at the bottom; hints themselves are parsed and dropped.
            let mut l = st.stack.len();
            if l % 2 == 1 {
                if st.width.is_none() {
                    st.width = Some(st.stack.at(0));
                }
                l = l - 1;
            }
            let grown: u64 = (st.stems_len as u64) + ((l as u64) / 2);
            st.stems_len = if grown > u32::MAX as u64 {
                u32::MAX
            } else {
                grown as u32
            };
            st.stack.clear();
        } else if op == 4 || op == 22 {
            // vmoveto / hmoveto: one delta, along one axis.
            let mut i: usize = 0;
            if st.stack.len() == 2 {
                i = 1;
                if st.width.is_none() {
                    st.width = Some(st.stack.at(0));
                }
            }
            if st.stack.len() != i + 1 {
                return Err(Error::InvalidArgumentsStackLength);
            }
            let d = st.stack.at(i);
            let x = if op == 22 {
                st.x.sat_add(d)
            } else {
                st.x
            };
            let y = if op == 4 {
                st.y.sat_add(d)
            } else {
                st.y
            };
            st.move_to(x, y);
            st.stack.clear();
        } else if op == 21 {
            // rmoveto
            let mut i: usize = 0;
            if st.stack.len() == 3 {
                i = 1;
                if st.width.is_none() {
                    st.width = Some(st.stack.at(0));
                }
            }
            if st.stack.len() != i + 2 {
                return Err(Error::InvalidArgumentsStackLength);
            }
            let x = st.x.sat_add(st.stack.at(i));
            let y = st.y.sat_add(st.stack.at(i + 1));
            st.move_to(x, y);
            st.stack.clear();
        } else if op == 5 {
            // rlineto: pairs of deltas.
            if st.stack.len() == 0 || st.stack.len() % 2 != 0 {
                return Err(Error::InvalidArgumentsStackLength);
            }
            if st.is_first_move_to {
                // A segment needs a current point.
                return Err(Error::InvalidArgumentsStackLength);
            }
            let mut i: usize = 0;
            let mut x = st.x;
            let mut y = st.y;
            while i + 1 < st.stack.len()
                invariant
                    st.wf(),
                    !st.is_first_move_to,
                    i <= st.stack.data@.len(),
                decreases st.stack.data@.len() - i,
            {
                x = x.sat_add(st.stack.at(i));
                y = y.sat_add(st.stack.at(i + 1));
                st.line_to(x, y);
                i = i + 2;
            }
            st.stack.clear();
        } else if op == 6 || op == 7 {
            // hlineto / vlineto: one delta each, alternating axes.
            if st.stack.len() == 0 {
                return Err(Error::InvalidArgumentsStackLength);
            }
            if st.is_first_move_to {
                return Err(Error::InvalidArgumentsStackLength);
            }
            let mut i: usize = 0;
            let mut horizontal = op == 6;
            let mut x = st.x;
            let mut y = st.y;
            while i < st.stack.len()
                invariant
                    st.wf(),
                    !st.is_first_move_to,
                    i <= st.stack.data@.len(),
                decreases st.stack.data@.len() - i,
            {
                let d = st.stack.at(i);
                if horizontal {
                    x = x.sat_add(d);
                } else {
                    y = y.sat_add(d);
                }
                st.line_to(x, y);
                horizontal = !horizontal;
                i = i + 1;
            }
            st.stack.clear();
        } else if op == 8 {
            // rrcurveto: sextuples of deltas.
            if st.stack.len() == 0 || st.stack.len() % 6 != 0 {
                return Err(Error::InvalidArgumentsStackLength);
            }
            if st.is_first_move_to {
                return Err(Error::InvalidArgumentsStackLength);
            }
            let mut i: usize = 0;
            let mut x = st.x;
            let mut y = st.y;
            while i + 5 < st.stack.len()
                invariant
                    st.wf(),
                    !st.is_first_move_to,
                    i <= st.stack.data@.len(),
                decreases st.stack.data@.len() - i,
            {
                let x1 = x.sat_add(st.stack.at(i));
                let y1 = y.sat_add(st.stack.at(i + 1));
                let x2 = x1.sat_add(st.stack.at(i + 2));
                let y2 = y1.sat_add(st.stack.at(i + 3));
                x = x2.sat_add(st.stack.at(i + 4));
                y = y2.sat_add(st.stack.at(i + 5));
                st.curve_to(x1, y1, x2, y2, x, y);
                i = i + 6;
            }
            st.stack.clear();
        } else if op == 24 {
            // rcurveline: sextuples, then one final pair as a line.
            if st.stack.len() < 8 || (st.stack.len() - 2) % 6 != 0 {
                return Err(Error::InvalidArgumentsStackLength);
            }
            if st.is_first_move_to {
                return Err(Error::InvalidArgumentsStackLength);
            }
            let n = st.stack.len() - 2;
            let mut i: usize = 0;
            let mut x = st.x;
            let mut y = st.y;
            while i + 5 < n
                invariant
                    st.wf(),
                    !st.is_first_move_to,
                    n + 2 == st.stack.data@.len(),
                    i <= n,
                decreases n - i,
            {
                let x1 = x.sat_add(st.stack.at(i));
                let y1 = y.sat_add(st.stack.at(i + 1));
                let x2 = x1.sat_add(st.stack.at(i + 2));
                let y2 = y1.sat_add(st.stack.at(i + 3));
                x = x2.sat_add(st.stack.at(i + 4));
                y = y2.sat_add(st.stack.at(i + 5));
                st.curve_to(x1, y1, x2, y2, x, y);
                i = i + 6;
            }
            x = x.sat_add(st.stack.at(n));
            y = y.sat_add(st.stack.at(n + 1));
            st.line_to(x, y);
            st.stack.clear();
        } else if op == 25 {
            // rlinecurve: pairs, then one final sextuple as a curve.
            if st.stack.len() < 8 || (st.stack.len() - 6) % 2 != 0 {
                return Err(Error::InvalidArgumentsStackLength);
            }
            if st.is_first_move_to {
                return Err(Error::InvalidArgumentsStackLength);
            }
            let n = st.stack.len() - 6;
            let mut i: usize = 0;
            let mut x = st.x;
            let mut y = st.y;
            while i + 1 < n
                invariant
                    st.wf(),
                    !st.is_first_move_to,
                    n + 6 == st.stack.data@.len(),
                    i <= n,
                decreases n - i,
            {
                x = x.sat_add(st.stack.at(i));
                y = y.sat_add(st.stack.at(i + 1));
                st.line_to(x, y);
                i = i + 2;
            }
            let x1 = x.sat_add(st.stack.at(n));
            let y1 = y.sat_add(st.stack.at(n + 1));
            let x2 = x1.sat_add(st.stack.at(n + 2));
            let y2 = y1.sat_add(st.stack.at(n + 3));
            x = x2.sat_add(st.stack.at(n + 4));
            y = y2.sat_add(st.stack.at(n + 5));
            st.curve_to(x1, y1, x2, y2, x, y);
            st.stack.clear();
        } else if op == 26 || op == 27 {
            // vvcurveto / hhcurveto: quadruples, with an optional leading
            // cross-axis delta on the first curve.
            if st.is_first_move_to {
                return Err(Error::InvalidArgumentsStackLength);
            }
            let mut i: usize = 0;
            let mut d1 = Fixed(0);
            if st.stack.len() % 2 == 1 {
                d1 = st.stack.at(0);
                i = 1;
            }
            if st.stack.len() == i || (st.stack.len() - i) % 4 != 0 {
                return Err(Error::InvalidArgumentsStackLength);
            }
            let mut x = st.x;
            let mut y = st.y;
            while i + 3 < st.stack.len()
                invariant
                    st.wf(),
                    !st.is_first_move_to,
                    i <= st.stack.data@.len(),
                decreases st.stack.data@.len() - i,
            {
                let x1;
                let y1;
                let x2;
                let y2;
                if op == 26 {
                    x1 = x.sat_add(d1);
                    y1 = y.sat_add(st.stack.at(i));
                    x2 = x1.sat_add(st.stack.at(i + 1));
                    y2 = y1.sat_add(st.stack.at(i + 2));
                    x = x2;
                    y = y2.sat_add(st.stack.at(i + 3));
                } else {
                    x1 = x.sat_add(st.stack.at(i));
                    y1 = y.sat_add(d1);
                    x2 = x1.sat_add(st.stack.at(i + 1));
                    y2 = y1.sat_add(st.stack.at(i + 2));
                    x = x2.sat_add(st.stack.at(i + 3));
                    y = y2;
                }
                st.curve_to(x1, y1, x2, y2, x, y);
                d1 = Fixed(0);
                i = i + 4;
            }
            st.stack.clear();
        } else if op == 30 || op == 31 {
            // vhcurveto / hvcurveto: quadruples with alternating starting
            // axis; a fifth value on the last quadruple finishes the other
            // axis.
            if st.is_first_move_to {
                return Err(Error::InvalidArgumentsStackLength);
            }
            if st.stack.len() < 4 || (st.stack.len() % 4 != 0 && st.stack.len() % 4 != 1) {
                return Err(Error::InvalidArgumentsStackLength);
            }
            let mut i: usize = 0;
            let mut vertical = op == 30;
            let mut x = st.x;
            let mut y = st.y;
            while i + 3 < st.stack.len()
                invariant
                    st.wf(),
                    !st.is_first_move_to,
                    i <= st.stack.data@.len(),
                decreases st.stack.data@.len() - i,
            {
                let x1;
                let y1;
                let x2;
                let y2;
                let last = i + 5 == st.stack.len();
                if vertical {
                    x1 = x;
                    y1 = y.sat_add(st.stack.at(i));
                    x2 = x1.sat_add(st.stack.at(i + 1));
                    y2 = y1.sat_add(st.stack.at(i + 2));
                    x = x2.sat_add(st.stack.at(i + 3));
                    y = if last {
                        y2.sat_add(st.stack.at(i + 4))
                    } else {
                        y2
                    };
                } else {
                    x1 = x.sat_add(st.stack.at(i));
                    y1 = y;
                    x2 = x1.sat_add(st.stack.at(i + 1));
                    y2 = y1.sat_add(st.stack.at(i + 2));
                    y = y2.sat_add(st.stack.at(i + 3));
                    x = if last {
                        x2.sat_add(st.stack.at(i + 4))
                    } else {
                        x2
                    };
                }
                st.curve_to(x1, y1, x2, y2, x, y);
                vertical = !vertical;
                i = i + 4;
            }
            st.stack.clear();
        } else if op == 10 {
            // callsubr
            if st.stack.is_empty() {
                return Err(Error::InvalidArgumentsStackLength);
            }
            if depth == NESTING_LIMIT {
                return Err(Error::NestingLimitReached);
            }
            if subrs.len() == 0 {
                return Err(Error::NoLocalSubroutines);
            }
            let n = st.stack.pop();
            let bias = calc_subroutine_bias(subrs.len());
            let index = match conv_subroutine_index(n, bias) {
                Some(i) => i,
                None => {
                    return Err(Error::InvalidSubroutineIndex);
                },
            };
            if index >= subrs.len() {
                return Err(Error::InvalidSubroutineIndex);
            }
            execute(subrs[index].as_slice(), subrs, char_strings, depth + 1, st)?;
            if st.has_endchar && !st.has_seac {
                if pos != cs.len() {
                    return Err(Error::DataAfterEndChar);
                }
                return Ok(());
            }
        } else if op == 29 {
            // callgsubr: a Type 1 font carries no global subroutine table,
            // so every index misses it.
            if st.stack.is_empty() {
                return Err(Error::InvalidArgumentsStackLength);
            }
            if depth == NESTING_LIMIT {
                return Err(Error::NestingLimitReached);
            }
            let _ = st.stack.pop();
            return Err(Error::InvalidSubroutineIndex);
        } else if op == 11 {
            // return
            return Ok(());
        } else if op == 12 {
            // Escape: the next byte picks the operator.
            if pos >= cs.len() {
                return Err(Error::ReadOutOfBounds);
            }
            let op2 = cs[pos];
            pos = pos + 1;
            if op2 == 0 {
                // dotsection: a no-op.
            } else if op2 == 35 {
                // flex: two cubics; the flex depth argument is dropped.
                if st.stack.len() != 13 {
                    return Err(Error::InvalidArgumentsStackLength);
                }
                if st.is_first_move_to {
                    return Err(Error::InvalidArgumentsStackLength);
                }
                let x1 = st.x.sat_add(st.stack.at(0));
                let y1 = st.y.sat_add(st.stack.at(1));
                let x2 = x1.sat_add(st.stack.at(2));
                let y2 = y1.sat_add(st.stack.at(3));
                let x3 = x2.sat_add(st.stack.at(4));
                let y3 = y2.sat_add(st.stack.at(5));
                let x4 = x3.sat_add(st.stack.at(6));
                let y4 = y3.sat_add(st.stack.at(7));
                let x5 = x4.sat_add(st.stack.at(8));
                let y5 = y4.sat_add(st.stack.at(9));
                let x6 = x5.sat_add(st.stack.at(10));
                let y6 = y5.sat_add(st.stack.at(11));
                st.curve_to(x1, y1, x2, y2, x3, y3);
                st.curve_to(x4, y4, x5, y5, x6, y6);
                st.stack.clear();
            } else if op2 == 34 {
                // hflex: both curves share the starting horizontal.
                if st.stack.len() != 7 {
                    return Err(Error::InvalidArgumentsStackLength);
                }
                if st.is_first_move_to {
                    return Err(Error::InvalidArgumentsStackLength);
                }
                let y0 = st.y;
                let x1 = st.x.sat_add(st.stack.at(0));
                let x2 = x1.sat_add(st.stack.at(1));
                let y2 = y0.sat_add(st.stack.at(2));
                let x3 = x2.sat_add(st.stack.at(3));
                let x4 = x3.sat_add(st.stack.at(4));
                let x5 = x4.sat_add(st.stack.at(5));
                let x6 = x5.sat_add(st.stack.at(6));
                st.curve_to(x1, y0, x2, y2, x3, y2);
                st.curve_to(x4, y2, x5, y0, x6, y0);
                st.stack.clear();
            } else if op2 == 36 {
                // hflex1: the second curve returns to the starting
                // horizontal.
                if st.stack.len() != 9 {
                    return Err(Error::InvalidArgumentsStackLength);
                }
                if st.is_first_move_to {
                    return Err(Error::InvalidArgumentsStackLength);
                }
                let y0 = st.y;
                let x1 = st.x.sat_add(st.stack.at(0));
                let y1 = st.y.sat_add(st.stack.at(1));
                let x2 = x1.sat_add(st.stack.at(2));
                let y2 = y1.sat_add(st.stack.at(3));
                let x3 = x2.sat_add(st.stack.at(4));
                let x4 = x3.sat_add(st.stack.at(5));
                let x5 = x4.sat_add(st.stack.at(6));
                let y5 = y2.sat_add(st.stack.at(7));
                let x6 = x5.sat_add(st.stack.at(8));
                st.curve_to(x1, y1, x2, y2, x3, y2);
                st.curve_to(x4, y2, x5, y5, x6, y0);
                st.stack.clear();
            } else if op2 == 37 {
                // flex1: the endpoint reverts to the start on the shallower
                // axis.
                if st.stack.len() != 11 {
                    return Err(Error::InvalidArgumentsStackLength);
                }
                if st.is_first_move_to {
                    return Err(Error::InvalidArgumentsStackLength);
                }
                let x0 = st.x;
                let y0 = st.y;
                let dx = st.stack.at(0).sat_add(st.stack.at(2)).sat_add(st.stack.at(4)).sat_add(
                    st.stack.at(6),
                ).sat_add(st.stack.at(8));
                let dy = st.stack.at(1).sat_add(st.stack.at(3)).sat_add(st.stack.at(5)).sat_add(
                    st.stack.at(7),
                ).sat_add(st.stack.at(9));
                let x1 = st.x.sat_add(st.stack.at(0));
                let y1 = st.y.sat_add(st.stack.at(1));
                let x2 = x1.sat_add(st.stack.at(2));
                let y2 = y1.sat_add(st.stack.at(3));
                let x3 = x2.sat_add(st.stack.at(4));
                let y3 = y2.sat_add(st.stack.at(5));
                let x4 = x3.sat_add(st.stack.at(6));
                let y4 = y3.sat_add(st.stack.at(7));
                let x5 = x4.sat_add(st.stack.at(8));
                let y5 = y4.sat_add(st.stack.at(9));
                let x6;
                let y6;
                if dx.abs_wide() > dy.abs_wide() {
                    x6 = x5.sat_add(st.stack.at(10));
                    y6 = y0;
                } else {
                    x6 = x0;
                    y6 = y5.sat_add(st.stack.at(10));
                }
                st.curve_to(x1, y1, x2, y2, x3, y3);
                st.curve_to(x4, y4, x5, y5, x6, y6);
                st.stack.clear();
            } else {
                return Err(Error::UnsupportedOperator);
            }
        } else if op == 14 {
            // endchar
            if st.stack.len() == 4 || (st.width.is_none() && st.stack.len() == 5) {
                // seac: compose an accented glyph from two Standard
                // Encoding glyphs.
                let achar = st.stack.pop();
                let bchar = st.stack.pop();
                let dy = st.stack.pop();
                let dx = st.stack.pop();
                if st.width.is_none() && st.stack.len() > 0 {
                    st.width = Some(st.stack.pop());
                }
                st.has_seac = true;
                if depth == NESTING_LIMIT {
                    return Err(Error::NestingLimitReached);
                }
                let bcode = match u8::try_num_from(bchar) {
                    Some(c) => c,
                    None => {
                        return Err(Error::InvalidSeacCode);
                    },
                };
                let acode = match u8::try_num_from(achar) {
                    Some(c) => c,
                    None => {
                        return Err(Error::InvalidSeacCode);
                    },
                };
                let bname = match standard_encoding_name(bcode) {
                    Some(n) => n,
                    None => {
                        return Err(Error::InvalidSeacCode);
                    },
                };
                let aname = match standard_encoding_name(acode) {
                    Some(n) => n,
                    None => {
                        return Err(Error::InvalidSeacCode);
                    },
                };
                let base_cs = match find_char_string(char_strings, bname.as_slice()) {
                    Some(c) => c,
                    None => {
                        return Err(Error::InvalidSeacCode);
                    },
                };
                execute(base_cs.as_slice(), subrs, char_strings, depth + 1, st)?;
                st.x = dx;
                st.y = dy;
                let accent_cs = match find_char_string(char_strings, aname.as_slice()) {
                    Some(c) => c,
                    None => {
                        return Err(Error::InvalidSeacCode);
                    },
                };
                execute(accent_cs.as_slice(), subrs, char_strings, depth + 1, st)?;
            } else if st.stack.len() == 1 && st.width.is_none() {
                st.width = Some(st.stack.pop());
            }
            st.close_path();
            if pos != cs.len() {
                return Err(Error::DataAfterEndChar);
            }
            st.has_endchar = true;
            return Ok(());
        } else if op == 19 || op == 20 {
            // hintmask / cntrmask: stem bookkeeping, then the mask bytes are
            // skipped.
            let l = st.stack.len();
            let mut counted = l;
            if l % 2 == 1 {
                if st.width.is_none() {
                    st.width = Some(st.stack.at(0));
                }
                counted = l - 1;
            }
            st.stack.clear();
            let grown: u64 = (st.stems_len as u64) + ((counted as u64) / 2);
            st.stems_len = if grown > u32::MAX as u64 {
                u32::MAX
            } else {
                grown as u32
            };
            let mask_len: u64 = ((st.stems_len as u64) + 7) / 8;
            if mask_len > (cs.len() - pos) as u64 {
                pos = cs.len();
            } else {
                pos = pos + (mask_len as usize);
            }
        } else if op == 28 {
            // A 16-bit two's-complement integer.
            if cs.len() - pos < 2 {
                return Err(Error::ReadOutOfBounds);
            }
            let v16: u16 = (cs[pos] as u16) * 0x100 + (cs[pos + 1] as u16);
            pos = pos + 2;
            st.stack.push(Fixed::from_i16(#[verifier::truncate] (v16 as i16)))?;
        } else if op == 255 {
            // A 32-bit 16.16 fixed-point number.
            if cs.len() - pos < 4 {
                return Err(Error::ReadOutOfBounds);
            }
            let v32: u32 = (cs[pos] as u32) * 0x1000000 + (cs[pos + 1] as u32) * 0x10000 + (cs[pos
                + 2] as u32) * 0x100 + (cs[pos + 3] as u32);
            pos = pos + 4;
            st.stack.push(Fixed(#[verifier::truncate] (v32 as i32)))?;
        } else if 32 <= op && op <= 246 {
            st.stack.push(Fixed::from_i16((op as i16) - 139))?;
        } else if 247 <= op && op <= 250 {
            if pos >= cs.len() {
                return Err(Error::ReadOutOfBounds);
            }
            let w = cs[pos];
            pos = pos + 1;
            let v: i32 = ((op - 247) as i32) * 256 + (w as i32) + 108;
            st.stack.push(Fixed::from_i16(v as i16))?;
        } else if 251 <= op && op <= 254 {
            if pos >= cs.len() {
                return Err(Error::ReadOutOfBounds);
            }
            let w = cs[pos];
            pos = pos + 1;
            let v: i32 = -(((op - 251) as i32) * 256) - (w as i32) - 108;
            st.stack.push(Fixed::from_i16(v as i16))?;
        } else {
            // Every byte value is handled above.
            return Err(Error::InvalidOperator(op));
        }
    }
}

/// Interprets one decrypted CharString and returns the outline it draws,
/// the advance width if the CharString implies one, and the bounding box in
/// integer font units.
///
/// On success the returned calls always form a well-shaped path: the first
/// call is a move, every later move directly follows a close, and the
/// number of closes equals the number of moves.
pub fn parse_char_string(
    data: &[u8],
    subrs: &Vec<Vec<u8>>,
    char_strings: &Vec<(Vec<u8>, Vec<u8>)>,
) -> (r: Result<(Vec<DrawCall>, Option<Fixed>, crate::Rect), Error>)
    ensures
        r matches Ok(t) ==> path_complete_ok(t.0@) && t.0@.len() > 0,
{
    let mut st = InterpState::new();
    match execute(data, subrs, char_strings, 0, &mut st) {
        Ok(()) => {},
        Err(e) => {
            return Err(e);
        },
    }
    if !st.has_endchar {
        return Err(Error::MissingEndChar);
    }
    st.close_path();
    if !st.has_point {
        return Err(Error::ZeroBBox);
    }
    let x_min = match i16::try_num_from(st.min_x) {
        Some(v) => v,
        None => {
            return Err(Error::BboxOverflow);
        },
    };
    let y_min = match i16::try_num_from(st.min_y) {
        Some(v) => v,
        None => {
            return Err(Error::BboxOverflow);
        },
    };
    let x_max = match i16::try_num_from(st.max_x) {
        Some(v) => v,
        None => {
            return Err(Error::BboxOverflow);
        },
    };
    let y_max = match i16::try_num_from(st.max_y) {
        Some(v) => v,
        None => {
            return Err(Error::BboxOverflow);
        },
    };
    let rect = crate::Rect { x_min, y_min, x_max, y_max };
    Ok((st.calls, st.width, rect))
}

} // verus!
