use pdf_font_parser::cff::parser::Fixed;
use pdf_font_parser::type1::charstring::{
    calc_subroutine_bias, parse_char_string, DrawCall,
};
use pdf_font_parser::{Error, Rect};

fn no_subrs() -> Vec<Vec<u8>> {
    Vec::new()
}

fn no_glyphs() -> Vec<(Vec<u8>, Vec<u8>)> {
    Vec::new()
}

fn fx(v: i32) -> Fixed {
    Fixed(v << 16)
}

#[test]
fn hmoveto_endchar_draws_one_point() {
    // `0 hmoveto endchar`: one move to the origin, one close, no width.
    let cs = vec![139, 22, 14];
    let (calls, width, rect) = parse_char_string(&cs, &no_subrs(), &no_glyphs()).unwrap();
    assert_eq!(calls, vec![DrawCall::MoveTo(fx(0), fx(0)), DrawCall::Close]);
    assert_eq!(width, None);
    assert_eq!(rect, Rect { x_min: 0, y_min: 0, x_max: 0, y_max: 0 });
}

#[test]
fn call_to_missing_subroutine_fails() {
    // `50 callsubr` against a one-entry table: the biased index misses it.
    let subrs = vec![vec![11u8]];
    let cs = vec![189, 10];
    let r = parse_char_string(&cs, &subrs, &no_glyphs());
    assert_eq!(r.unwrap_err(), Error::InvalidSubroutineIndex);
}

#[test]
fn eleven_deep_subroutine_chain_fails() {
    // A subroutine that calls itself: the eleventh frame goes past the
    // nesting limit.
    let subrs = vec![vec![139u8, 10]];
    let cs = vec![139, 10];
    let r = parse_char_string(&cs, &subrs, &no_glyphs());
    assert_eq!(r.unwrap_err(), Error::NestingLimitReached);
}

#[test]
fn callsubr_without_table_fails() {
    let cs = vec![139, 10];
    let r = parse_char_string(&cs, &no_subrs(), &no_glyphs());
    assert_eq!(r.unwrap_err(), Error::NoLocalSubroutines);
}

#[test]
fn subroutine_body_is_spliced_in() {
    // Subroutine 0 moves and draws a line; the outer CharString calls it
    // and ends.
    let subrs = vec![vec![139, 239, 21, 149, 149, 5, 11]];
    // 0 callsubr endchar
    let cs = vec![139, 10, 14];
    let (calls, width, rect) = parse_char_string(&cs, &subrs, &no_glyphs()).unwrap();
    assert_eq!(
        calls,
        vec![
            DrawCall::MoveTo(fx(0), fx(100)),
            DrawCall::LineTo(fx(10), fx(110)),
            DrawCall::Close,
        ]
    );
    assert_eq!(width, None);
    assert_eq!(rect, Rect { x_min: 0, y_min: 100, x_max: 10, y_max: 110 });
}

#[test]
fn width_taken_from_odd_moveto_stack() {
    // `250 50 rmoveto`: three would be width + pair, two is a plain pair;
    // here `100 0 50 rmoveto` carries the width 100.
    let cs = vec![239, 139, 189, 21, 14];
    let (calls, width, _rect) = parse_char_string(&cs, &no_subrs(), &no_glyphs()).unwrap();
    assert_eq!(calls, vec![DrawCall::MoveTo(fx(0), fx(50)), DrawCall::Close]);
    assert_eq!(width, Some(fx(100)));
}

#[test]
fn two_subpaths_close_before_each_move() {
    // moveto, lineto, moveto, lineto, endchar: the second move closes the
    // first subpath, endchar closes the second.
    let cs = vec![
        139, 139, 21, // 0 0 rmoveto
        149, 139, 5, // 10 0 rlineto
        139, 149, 21, // 0 10 rmoveto
        149, 139, 5, // 10 0 rlineto
        14,
    ];
    let (calls, _width, _rect) = parse_char_string(&cs, &no_subrs(), &no_glyphs()).unwrap();
    assert_eq!(
        calls,
        vec![
            DrawCall::MoveTo(fx(0), fx(0)),
            DrawCall::LineTo(fx(10), fx(0)),
            DrawCall::Close,
            DrawCall::MoveTo(fx(10), fx(10)),
            DrawCall::LineTo(fx(20), fx(10)),
            DrawCall::Close,
        ]
    );
    let moves = calls.iter().filter(|c| matches!(c, DrawCall::MoveTo(_, _))).count();
    let closes = calls.iter().filter(|c| matches!(c, DrawCall::Close)).count();
    assert_eq!(moves, closes);
    assert!(matches!(calls[0], DrawCall::MoveTo(_, _)));
}

#[test]
fn rrcurveto_emits_cubic() {
    // 0 0 rmoveto, then 1 2 3 4 5 6 rrcurveto.
    let cs = vec![139, 139, 21, 140, 141, 142, 143, 144, 145, 8, 14];
    let (calls, _w, _r) = parse_char_string(&cs, &no_subrs(), &no_glyphs()).unwrap();
    assert_eq!(
        calls,
        vec![
            DrawCall::MoveTo(fx(0), fx(0)),
            DrawCall::CurveTo(fx(1), fx(2), fx(4), fx(6), fx(9), fx(12)),
            DrawCall::Close,
        ]
    );
}

#[test]
fn hlineto_alternates_axes() {
    // 0 0 rmoveto, then 10 20 30 hlineto: horizontal, vertical, horizontal.
    let cs = vec![139, 139, 21, 149, 159, 169, 6, 14];
    let (calls, _w, _r) = parse_char_string(&cs, &no_subrs(), &no_glyphs()).unwrap();
    assert_eq!(
        calls,
        vec![
            DrawCall::MoveTo(fx(0), fx(0)),
            DrawCall::LineTo(fx(10), fx(0)),
            DrawCall::LineTo(fx(10), fx(20)),
            DrawCall::LineTo(fx(40), fx(20)),
            DrawCall::Close,
        ]
    );
}

#[test]
fn number_encodings_push_expected_values() {
    // 28 pushes a 16-bit integer, 255 a 32-bit 16.16 fixed value; both used
    // as a move target.
    let cs = vec![28, 0x01, 0x00, 255, 0x00, 0x02, 0x80, 0x00, 21, 14];
    let (calls, _w, _r) = parse_char_string(&cs, &no_subrs(), &no_glyphs()).unwrap();
    // 256 horizontal, 2.5 vertical (raw 0x00028000).
    assert_eq!(calls[0], DrawCall::MoveTo(fx(256), Fixed(0x00028000)));
}

#[test]
fn two_byte_operand_ranges() {
    // 247..250 encode 108..1131; 251..254 encode -108..-1131.
    let cs = vec![247, 0, 251, 0, 21, 14]; // 108 -108 rmoveto
    let (calls, _w, _r) = parse_char_string(&cs, &no_subrs(), &no_glyphs()).unwrap();
    assert_eq!(calls[0], DrawCall::MoveTo(fx(108), fx(-108)));
}

#[test]
fn seac_composes_base_and_accent() {
    // endchar with 4 operands: dx dy bchar achar; codes 65 and 194 name
    // 'A' and 'acute' in the Standard Encoding.
    let glyphs = vec![
        (b"A".to_vec(), vec![139, 22, 14]),
        (b"acute".to_vec(), vec![149, 149, 21, 14]),
    ];
    let cs = vec![149, 159, 204, 247, 86, 14]; // 10 20 65 194 endchar
    let (calls, _w, _r) = parse_char_string(&cs, &no_subrs(), &glyphs).unwrap();
    assert_eq!(
        calls,
        vec![
            DrawCall::MoveTo(fx(0), fx(0)),
            DrawCall::Close,
            // The accent starts from the seac offset (10, 20).
            DrawCall::MoveTo(fx(20), fx(30)),
            DrawCall::Close,
        ]
    );
}

#[test]
fn seac_with_unknown_code_fails() {
    // Code 0 is unencoded in the Standard Encoding.
    let cs = vec![139, 139, 139, 139, 14];
    let r = parse_char_string(&cs, &no_subrs(), &no_glyphs());
    assert_eq!(r.unwrap_err(), Error::InvalidSeacCode);
}

#[test]
fn reserved_operator_fails() {
    assert_eq!(
        parse_char_string(&[0], &no_subrs(), &no_glyphs()).unwrap_err(),
        Error::InvalidOperator(0)
    );
    assert_eq!(
        parse_char_string(&[9], &no_subrs(), &no_glyphs()).unwrap_err(),
        Error::InvalidOperator(9)
    );
}

#[test]
fn unknown_escape_operator_fails() {
    assert_eq!(
        parse_char_string(&[12, 99], &no_subrs(), &no_glyphs()).unwrap_err(),
        Error::UnsupportedOperator
    );
}

#[test]
fn truncated_operand_fails() {
    assert_eq!(
        parse_char_string(&[28, 0x01], &no_subrs(), &no_glyphs()).unwrap_err(),
        Error::ReadOutOfBounds
    );
}

#[test]
fn line_without_current_point_fails() {
    let cs = vec![149, 149, 5];
    assert_eq!(
        parse_char_string(&cs, &no_subrs(), &no_glyphs()).unwrap_err(),
        Error::InvalidArgumentsStackLength
    );
}

#[test]
fn stack_overflow_fails() {
    let mut cs = vec![139u8; 49];
    cs.push(14);
    assert_eq!(
        parse_char_string(&cs, &no_subrs(), &no_glyphs()).unwrap_err(),
        Error::InvalidStackOverflow
    );
}

#[test]
fn missing_endchar_fails() {
    assert_eq!(
        parse_char_string(&[139, 22], &no_subrs(), &no_glyphs()).unwrap_err(),
        Error::MissingEndChar
    );
}

#[test]
fn data_after_endchar_fails() {
    assert_eq!(
        parse_char_string(&[139, 22, 14, 139], &no_subrs(), &no_glyphs()).unwrap_err(),
        Error::DataAfterEndChar
    );
}

#[test]
fn empty_glyph_has_zero_bbox() {
    assert_eq!(
        parse_char_string(&[14], &no_subrs(), &no_glyphs()).unwrap_err(),
        Error::ZeroBBox
    );
}

#[test]
fn extreme_coordinates_fill_the_bbox_range() {
    // The largest 16.16 fixed-point value truncates to 32767, the edge of
    // the font-unit bounding box.
    let cs = vec![255, 0x7F, 0xFF, 0xFF, 0xFF, 22, 14];
    let (_calls, _w, rect) = parse_char_string(&cs, &no_subrs(), &no_glyphs()).unwrap();
    assert_eq!(rect, Rect { x_min: 32767, y_min: 0, x_max: 32767, y_max: 0 });
}

#[test]
fn hintmask_skips_mask_bytes() {
    // 0 0 hstem declares one stem; hintmask then carries one mask byte.
    let cs = vec![139, 139, 1, 19, 0xFF, 139, 139, 21, 14];
    let (calls, _w, _r) = parse_char_string(&cs, &no_subrs(), &no_glyphs()).unwrap();
    assert_eq!(calls, vec![DrawCall::MoveTo(fx(0), fx(0)), DrawCall::Close]);
}

#[test]
fn stem_with_odd_stack_takes_width() {
    // 90 0 0 hstem: the odd entry at the bottom is the width.
    let cs = vec![229, 139, 139, 1, 139, 139, 21, 14];
    let (_calls, width, _r) = parse_char_string(&cs, &no_subrs(), &no_glyphs()).unwrap();
    assert_eq!(width, Some(fx(90)));
}

#[test]
fn hmoveto_with_two_operands_takes_width() {
    let cs = vec![189, 139, 22, 14]; // 50 0 hmoveto endchar
    let (_c, width, _r) = parse_char_string(&cs, &no_subrs(), &no_glyphs()).unwrap();
    assert_eq!(width, Some(fx(50)));
}

#[test]
fn subroutine_bias_follows_table_size() {
    assert_eq!(calc_subroutine_bias(0), 0);
    assert_eq!(calc_subroutine_bias(1239), 0);
    assert_eq!(calc_subroutine_bias(1240), 107);
    assert_eq!(calc_subroutine_bias(33899), 107);
    assert_eq!(calc_subroutine_bias(33900), 32768);
}

#[test]
fn vhcurveto_starts_vertical() {
    // 0 0 rmoveto, then 10 20 30 40 vhcurveto.
    let cs = vec![139, 139, 21, 149, 159, 169, 179, 30, 14];
    let (calls, _w, _r) = parse_char_string(&cs, &no_subrs(), &no_glyphs()).unwrap();
    assert_eq!(calls[1], DrawCall::CurveTo(fx(0), fx(10), fx(20), fx(40), fx(60), fx(40)));
}

#[test]
fn vhcurveto_takes_trailing_fifth_value() {
    // 10 20 30 40 50 vhcurveto: the fifth value finishes the other axis.
    let cs = vec![139, 139, 21, 149, 159, 169, 179, 189, 30, 14];
    let (calls, _w, _r) = parse_char_string(&cs, &no_subrs(), &no_glyphs()).unwrap();
    assert_eq!(calls[1], DrawCall::CurveTo(fx(0), fx(10), fx(20), fx(40), fx(60), fx(90)));
}

#[test]
fn hvcurveto_starts_horizontal() {
    let cs = vec![139, 139, 21, 149, 159, 169, 179, 31, 14];
    let (calls, _w, _r) = parse_char_string(&cs, &no_subrs(), &no_glyphs()).unwrap();
    assert_eq!(calls[1], DrawCall::CurveTo(fx(10), fx(0), fx(30), fx(30), fx(30), fx(70)));
}

#[test]
fn vvcurveto_with_leading_delta() {
    // 5 10 20 30 40 vvcurveto: the odd leading value shifts the first
    // control point horizontally.
    let cs = vec![139, 139, 21, 144, 149, 159, 169, 179, 26, 14];
    let (calls, _w, _r) = parse_char_string(&cs, &no_subrs(), &no_glyphs()).unwrap();
    assert_eq!(calls[1], DrawCall::CurveTo(fx(5), fx(10), fx(25), fx(40), fx(25), fx(80)));
}

#[test]
fn hhcurveto_keeps_horizontal_axis() {
    let cs = vec![139, 139, 21, 149, 159, 169, 179, 27, 14];
    let (calls, _w, _r) = parse_char_string(&cs, &no_subrs(), &no_glyphs()).unwrap();
    assert_eq!(calls[1], DrawCall::CurveTo(fx(10), fx(0), fx(30), fx(30), fx(70), fx(30)));
}

#[test]
fn rcurveline_ends_with_a_line() {
    let cs = vec![
        139, 139, 21, 140, 141, 142, 143, 144, 145, 146, 147, 24, 14,
    ];
    let (calls, _w, _r) = parse_char_string(&cs, &no_subrs(), &no_glyphs()).unwrap();
    assert_eq!(calls[1], DrawCall::CurveTo(fx(1), fx(2), fx(4), fx(6), fx(9), fx(12)));
    assert_eq!(calls[2], DrawCall::LineTo(fx(16), fx(20)));
}

#[test]
fn rlinecurve_ends_with_a_curve() {
    let cs = vec![
        139, 139, 21, 140, 141, 142, 143, 144, 145, 146, 147, 25, 14,
    ];
    let (calls, _w, _r) = parse_char_string(&cs, &no_subrs(), &no_glyphs()).unwrap();
    assert_eq!(calls[1], DrawCall::LineTo(fx(1), fx(2)));
    assert_eq!(calls[2], DrawCall::CurveTo(fx(4), fx(6), fx(9), fx(12), fx(16), fx(20)));
}

#[test]
fn flex_emits_two_cubics() {
    // 1..12 are the twelve deltas; 50 is the flex depth, which is dropped.
    let cs = vec![
        139, 139, 21, 140, 141, 142, 143, 144, 145, 146, 147, 148, 149, 150, 151, 189, 12, 35, 14,
    ];
    let (calls, _w, _r) = parse_char_string(&cs, &no_subrs(), &no_glyphs()).unwrap();
    assert_eq!(calls[1], DrawCall::CurveTo(fx(1), fx(2), fx(4), fx(6), fx(9), fx(12)));
    assert_eq!(calls[2], DrawCall::CurveTo(fx(16), fx(20), fx(25), fx(30), fx(36), fx(42)));
    assert_eq!(calls[3], DrawCall::Close);
}

#[test]
fn hflex_returns_to_the_starting_horizontal() {
    let cs = vec![139, 139, 21, 140, 141, 142, 143, 144, 145, 146, 12, 34, 14];
    let (calls, _w, _r) = parse_char_string(&cs, &no_subrs(), &no_glyphs()).unwrap();
    assert_eq!(calls[1], DrawCall::CurveTo(fx(1), fx(0), fx(3), fx(3), fx(7), fx(3)));
    assert_eq!(calls[2], DrawCall::CurveTo(fx(12), fx(3), fx(18), fx(0), fx(25), fx(0)));
}

#[test]
fn hflex1_returns_to_the_starting_horizontal() {
    let cs = vec![139, 139, 21, 140, 141, 142, 143, 144, 145, 146, 147, 148, 12, 36, 14];
    let (calls, _w, _r) = parse_char_string(&cs, &no_subrs(), &no_glyphs()).unwrap();
    assert_eq!(calls[1], DrawCall::CurveTo(fx(1), fx(2), fx(4), fx(6), fx(9), fx(6)));
    assert_eq!(calls[2], DrawCall::CurveTo(fx(15), fx(6), fx(22), fx(14), fx(31), fx(0)));
}

#[test]
fn flex1_reverts_the_shallower_axis() {
    // The vertical deltas outweigh the horizontal ones, so the endpoint
    // keeps the starting x.
    let cs = vec![
        139, 139, 21, 140, 141, 142, 143, 144, 145, 146, 147, 148, 149, 150, 12, 37, 14,
    ];
    let (calls, _w, _r) = parse_char_string(&cs, &no_subrs(), &no_glyphs()).unwrap();
    assert_eq!(calls[1], DrawCall::CurveTo(fx(1), fx(2), fx(4), fx(6), fx(9), fx(12)));
    assert_eq!(calls[2], DrawCall::CurveTo(fx(16), fx(20), fx(25), fx(30), fx(0), fx(41)));
}

#[test]
fn dotsection_is_a_no_op() {
    let cs = vec![139, 22, 12, 0, 14];
    let (calls, _w, _r) = parse_char_string(&cs, &no_subrs(), &no_glyphs()).unwrap();
    assert_eq!(calls, vec![DrawCall::MoveTo(fx(0), fx(0)), DrawCall::Close]);
}

#[test]
fn callgsubr_always_misses() {
    // A Type 1 font has no global subroutine table.
    let cs = vec![139, 29];
    assert_eq!(
        parse_char_string(&cs, &no_subrs(), &no_glyphs()).unwrap_err(),
        Error::InvalidSubroutineIndex
    );
}

#[test]
fn vmoveto_moves_vertically() {
    let cs = vec![149, 4, 14];
    let (calls, _w, _r) = parse_char_string(&cs, &no_subrs(), &no_glyphs()).unwrap();
    assert_eq!(calls[0], DrawCall::MoveTo(fx(0), fx(10)));
}

#[test]
fn vlineto_starts_vertical() {
    let cs = vec![139, 139, 21, 149, 159, 7, 14];
    let (calls, _w, _r) = parse_char_string(&cs, &no_subrs(), &no_glyphs()).unwrap();
    assert_eq!(calls[1], DrawCall::LineTo(fx(0), fx(10)));
    assert_eq!(calls[2], DrawCall::LineTo(fx(20), fx(10)));
}
