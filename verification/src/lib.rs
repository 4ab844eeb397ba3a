//! A verified parser for PostScript Type 1 font programs.
//!
//! The crate tokenizes the ASCII portion of a font program, decrypts the
//! eexec-encrypted binary portion, harvests the encoding, subroutine and
//! CharString tables, and interprets CharStrings into outline drawing calls.
use vstd::prelude::*;

pub mod cff;
pub mod type1;

verus! {

/// A glyph identifier inside a font.
#[derive(Clone, Copy, Debug, PartialEq, Eq, Structural)]
pub struct GlyphId(pub u16);

/// A caller-supplied outline sink.
///
/// The glyph renderer hands every glyph to an implementer of this
/// capability set, one drawing call at a time. Coordinates are absolute,
/// in 16.16 fixed-point font units.
pub trait OutlineBuilder {
    /// Starts a new subpath at the point.
    fn move_to(&mut self, x: cff::parser::Fixed, y: cff::parser::Fixed);

    /// Draws a straight segment to the point.
    fn line_to(&mut self, x: cff::parser::Fixed, y: cff::parser::Fixed);

    /// Draws a quadratic segment over one control point.
    fn quad_to(
        &mut self,
        x1: cff::parser::Fixed,
        y1: cff::parser::Fixed,
        x: cff::parser::Fixed,
        y: cff::parser::Fixed,
    );

    /// Draws a cubic segment over two control points.
    fn curve_to(
        &mut self,
        x1: cff::parser::Fixed,
        y1: cff::parser::Fixed,
        x2: cff::parser::Fixed,
        y2: cff::parser::Fixed,
        x: cff::parser::Fixed,
        y: cff::parser::Fixed,
    );

    /// Closes the current subpath.
    fn close(&mut self);
}

/// An axis-aligned bounding box in integer font units.
#[derive(Clone, Copy, Debug, PartialEq, Eq, Structural)]
pub struct Rect {
    /// The lowest x covered.
    pub x_min: i16,
    /// The lowest y covered.
    pub y_min: i16,
    /// The highest x covered.
    pub x_max: i16,
    /// The highest y covered.
    pub y_max: i16,
}

/// Everything that can go wrong while parsing a font program or rendering a
/// glyph.
#[derive(Debug, PartialEq, Eq)]
pub enum Error {
    /// The program does not start with `%!`.
    BadMagic,
    /// The cursor ran out of bytes in the middle of a construct.
    ReadOutOfBounds,
    /// The ASCII-hex eexec body is malformed, or the ciphertext is too short
    /// to hold its random prefix.
    DecryptFailed,
    /// Dictionary parsing lost its place: the first token was expected, the
    /// second came instead.
    UnexpectedToken(Vec<u8>, Vec<u8>),
    /// A reserved CharString opcode.
    InvalidOperator(u8),
    /// An operator's stack preconditions were violated.
    InvalidArgumentsStackLength,
    /// The argument stack would exceed its capacity.
    InvalidStackOverflow,
    /// Popping from an empty argument stack.
    InvalidStackUnderflow,
    /// Subroutine recursion went past the nesting limit.
    NestingLimitReached,
    /// A biased subroutine index lies outside the subroutine table.
    InvalidSubroutineIndex,
    /// `callsubr` was used, but the font declared no subroutines.
    NoLocalSubroutines,
    /// A seac accent or base code, or a character code handed to the
    /// renderer, names no known glyph.
    InvalidSeacCode,
    /// The CharString ran out without reaching `endchar`.
    MissingEndChar,
    /// Bytes remain after `endchar`.
    DataAfterEndChar,
    /// The CharString produced no segments.
    ZeroBBox,
    /// The bounding box left the range representable in font units.
    BboxOverflow,
    /// A well-formed but unimplemented escape operator.
    UnsupportedOperator,
}

} // verus!
