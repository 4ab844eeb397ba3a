use pdf_font_parser::cff::parser::Fixed;
use pdf_font_parser::type1::charstring::DrawCall;
use pdf_font_parser::type1::charstring::find_char_string;
use pdf_font_parser::type1::cipher::encrypt_stream;
use pdf_font_parser::type1::Table;
use pdf_font_parser::{Error, OutlineBuilder};

fn fx(v: i32) -> Fixed {
    Fixed(v << 16)
}

/// Encrypts a CharString payload: four filler bytes, then the plain body.
fn charstring_payload(plain: &[u8]) -> Vec<u8> {
    let mut body = vec![0u8, 0, 0, 0];
    body.extend_from_slice(plain);
    encrypt_stream(&body, 4330)
}

/// A minimal font program with a cleartext Private dictionary: one glyph
/// named A drawing `0 hmoveto endchar`, no subroutines.
fn minimal_font() -> Vec<u8> {
    let payload = charstring_payload(&[139, 22, 14]);
    let mut font = Vec::new();
    font.extend_from_slice(b"%!FontType1-1.0: Minimal\n");
    font.extend_from_slice(b"/FontName /Minimal def\n");
    font.extend_from_slice(b"/FontMatrix [0.001 0 0 0.001 0 0] readonly def\n");
    font.extend_from_slice(b"/Encoding StandardEncoding def\n");
    font.extend_from_slice(b"/Private 3 dict dup begin\n/lenIV 4 def\n/Subrs 0 array ND\n");
    font.extend_from_slice(format!("/CharStrings 1 dict dup begin\n/A {} RD ", payload.len()).as_bytes());
    font.extend_from_slice(&payload);
    font.extend_from_slice(b" ND end\nend\n");
    font
}

#[test]
fn bad_magic_is_rejected() {
    assert_eq!(Table::parse(b"not a font").unwrap_err(), Error::BadMagic);
    assert_eq!(Table::parse(b"").unwrap_err(), Error::BadMagic);
    assert_eq!(Table::parse(b"%").unwrap_err(), Error::BadMagic);
}

#[test]
fn minimal_font_parses_with_standard_encoding() {
    let font = minimal_font();
    let table = Table::parse(&font).unwrap();
    assert_eq!(table.len_iv, 4);
    assert_eq!(table.code_to_name(0x41), Some(b"A".to_vec()));
    assert_eq!(table.code_to_name(0x20), Some(b"space".to_vec()));
    assert_eq!(table.code_to_name(0x00), None);
    let m = table.font_matrix.as_ref().unwrap();
    assert_eq!(m.len(), 6);
    assert_eq!(m[0], b"0.001".to_vec());
    assert_eq!(m[3], b"0.001".to_vec());
}

#[test]
fn missing_private_dictionary_is_rejected() {
    let r = Table::parse(b"%!FontType1\n/FontName /X def\n");
    assert_eq!(r.unwrap_err(), Error::ReadOutOfBounds);
}

#[test]
fn custom_encoding_binds_only_listed_codes() {
    let payload = charstring_payload(&[139, 22, 14]);
    let mut font = Vec::new();
    font.extend_from_slice(b"%!\n");
    font.extend_from_slice(
        b"/Encoding 256 array\ndup 65 /Alpha put\ndup 66 /Beta put\ndup 66 /Gamma put\nreadonly def\n",
    );
    font.extend_from_slice(format!("/Private 1 dict\n/CharStrings 1 dict\n/Alpha {} RD ", payload.len()).as_bytes());
    font.extend_from_slice(&payload);
    font.extend_from_slice(b" ND end\n");
    let table = Table::parse(&font).unwrap();
    // Bound exactly where declared; the later entry for a code wins.
    assert_eq!(table.code_to_name(65), Some(b"Alpha".to_vec()));
    assert_eq!(table.code_to_name(66), Some(b"Gamma".to_vec()));
    assert_eq!(table.code_to_name(67), None);
    assert_eq!(table.code_to_name(0x20), None);
}

#[test]
fn encoding_with_stray_token_is_rejected() {
    let font = b"%!\n/Encoding 256 array dup 65 /Alpha oops readonly def\n/Private 0\n";
    match Table::parse(font) {
        Err(Error::UnexpectedToken(expected, got)) => {
            assert_eq!(expected, b"put".to_vec());
            assert_eq!(got, b"oops".to_vec());
        }
        r => panic!("expected an UnexpectedToken error, got {:?}", r),
    }
}

/// Records every drawing call it receives.
struct Recorder {
    calls: Vec<DrawCall>,
}

impl OutlineBuilder for Recorder {
    fn move_to(&mut self, x: Fixed, y: Fixed) {
        self.calls.push(DrawCall::MoveTo(x, y));
    }

    fn line_to(&mut self, x: Fixed, y: Fixed) {
        self.calls.push(DrawCall::LineTo(x, y));
    }

    fn quad_to(&mut self, x1: Fixed, y1: Fixed, x: Fixed, y: Fixed) {
        self.calls.push(DrawCall::QuadTo(x1, y1, x, y));
    }

    fn curve_to(&mut self, x1: Fixed, y1: Fixed, x2: Fixed, y2: Fixed, x: Fixed, y: Fixed) {
        self.calls.push(DrawCall::CurveTo(x1, y1, x2, y2, x, y));
    }

    fn close(&mut self) {
        self.calls.push(DrawCall::Close);
    }
}

#[test]
fn outline_emits_move_then_close() {
    let font = minimal_font();
    let table = Table::parse(&font).unwrap();
    let mut sink = Recorder { calls: Vec::new() };
    let width = table.outline(0x41, &mut sink).unwrap();
    assert_eq!(width, None);
    assert_eq!(sink.calls, vec![DrawCall::MoveTo(fx(0), fx(0)), DrawCall::Close]);
}

#[test]
fn outline_of_unencoded_code_fails() {
    let font = minimal_font();
    let table = Table::parse(&font).unwrap();
    let mut sink = Recorder { calls: Vec::new() };
    assert_eq!(table.outline(0x00, &mut sink).unwrap_err(), Error::InvalidSeacCode);
    // 'B' is encoded but this font has no CharString for it.
    assert_eq!(table.outline(0x42, &mut sink).unwrap_err(), Error::InvalidSeacCode);
    assert!(sink.calls.is_empty());
}

#[test]
fn eexec_encrypted_font_round_trip() {
    // The same material as the cleartext font, but behind a binary eexec
    // body, with one local subroutine that the glyph calls.
    let subr_payload = charstring_payload(&[139, 239, 21, 11]); // 0 100 rmoveto return
    let glyph_payload = charstring_payload(&[139, 10, 14]); // 0 callsubr endchar
    let mut private = Vec::new();
    private.extend_from_slice(b" dup /Private 5 dict dup begin\n/lenIV 4 def\n");
    private.extend_from_slice(format!("/Subrs 1 array\ndup 0 {} RD ", subr_payload.len()).as_bytes());
    private.extend_from_slice(&subr_payload);
    private.extend_from_slice(b" NP ND\n");
    private.extend_from_slice(format!("/CharStrings 1 dict dup begin\n/A {} RD ", glyph_payload.len()).as_bytes());
    private.extend_from_slice(&glyph_payload);
    private.extend_from_slice(b" ND end\nend\n");

    let mut body = vec![0u8, 0, 0, 0];
    body.extend_from_slice(&private);
    let encrypted = encrypt_stream(&body, 55665);

    let mut font = Vec::new();
    font.extend_from_slice(b"%!FontType1-1.0: Enc\n/Encoding StandardEncoding def\neexec ");
    font.extend_from_slice(&encrypted);

    let table = Table::parse(&font).unwrap();
    assert_eq!(table.subrs.len(), 1);
    assert_eq!(table.subrs[0], vec![139, 239, 21, 11]);
    let (calls, width, _rect) = table.glyph_commands(0x41).unwrap();
    assert_eq!(width, None);
    assert_eq!(
        calls,
        vec![DrawCall::MoveTo(fx(0), fx(100)), DrawCall::Close]
    );
}

#[test]
fn glyph_commands_path_is_well_shaped() {
    // Two subpaths: closes and moves balance and the first call is a move.
    let payload = charstring_payload(&[
        139, 139, 21, 149, 139, 5, 139, 149, 21, 149, 139, 5, 14,
    ]);
    let mut font = Vec::new();
    font.extend_from_slice(b"%!\n/Encoding StandardEncoding def\n");
    font.extend_from_slice(format!("/Private 1 dict\n/CharStrings 1 dict\n/A {} RD ", payload.len()).as_bytes());
    font.extend_from_slice(&payload);
    font.extend_from_slice(b" ND end\n");
    let table = Table::parse(&font).unwrap();
    let (calls, _w, _r) = table.glyph_commands(0x41).unwrap();
    assert!(matches!(calls[0], DrawCall::MoveTo(_, _)));
    let moves = calls.iter().filter(|c| matches!(c, DrawCall::MoveTo(_, _))).count();
    let closes = calls.iter().filter(|c| matches!(c, DrawCall::Close)).count();
    assert_eq!(moves, 2);
    assert_eq!(moves, closes);
    for (i, c) in calls.iter().enumerate() {
        if i > 0 && matches!(c, DrawCall::MoveTo(_, _)) {
            assert!(matches!(calls[i - 1], DrawCall::Close));
        }
    }
}

#[test]
fn font_matrix_with_wrong_delimiter_is_rejected() {
    let font = b"%!\n/FontMatrix (0.001 0 0 0.001 0 0) def\n/Private 0\n";
    match Table::parse(font) {
        Err(Error::UnexpectedToken(expected, _got)) => {
            assert_eq!(expected, b"[".to_vec());
        }
        r => panic!("expected an UnexpectedToken error, got {:?}", r),
    }
}

#[test]
fn subroutines_are_stored_by_index() {
    // Entries arrive out of order; each lands at its declared slot.
    let p1 = charstring_payload(&[139, 239, 21, 11]);
    let p0 = charstring_payload(&[11]);
    let mut font = Vec::new();
    font.extend_from_slice(b"%!\n/Private 2 dict\n/Subrs 2 array\n");
    font.extend_from_slice(format!("dup 1 {} RD ", p1.len()).as_bytes());
    font.extend_from_slice(&p1);
    font.extend_from_slice(format!(" NP\ndup 0 {} RD ", p0.len()).as_bytes());
    font.extend_from_slice(&p0);
    font.extend_from_slice(b" NP ND\n");
    let table = Table::parse(&font).unwrap();
    assert_eq!(table.subrs, vec![vec![11], vec![139, 239, 21, 11]]);
}

#[test]
fn len_iv_zero_keeps_whole_payload() {
    let payload = encrypt_stream(&[139, 22, 14], 4330); // no filler bytes
    let mut font = Vec::new();
    font.extend_from_slice(b"%!\n/Private 2 dict\n/lenIV 0 def\n");
    font.extend_from_slice(format!("/CharStrings 1 dict\n/A {} RD ", payload.len()).as_bytes());
    font.extend_from_slice(&payload);
    font.extend_from_slice(b" ND end\n");
    let table = Table::parse(&font).unwrap();
    assert_eq!(table.len_iv, 0);
    assert_eq!(table.char_strings, vec![(b"A".to_vec(), vec![139, 22, 14])]);
}

#[test]
fn later_charstring_binding_wins() {
    let table = vec![
        (b"A".to_vec(), vec![1u8]),
        (b"B".to_vec(), vec![2u8]),
        (b"A".to_vec(), vec![3u8]),
    ];
    assert_eq!(find_char_string(&table, b"A"), Some(&vec![3u8]));
    assert_eq!(find_char_string(&table, b"B"), Some(&vec![2u8]));
    assert_eq!(find_char_string(&table, b"C"), None);
}
