//! The Type 1 font table: the dictionary walker that drives the scanner
//! over a font program, harvests the FontMatrix, the Encoding and the
//! Private dictionary (lenIV, Subrs, CharStrings), and renders glyphs.
use vstd::prelude::*;

pub mod charstring;
pub mod cipher;
pub mod encoding;
pub mod scanner;

verus! {

use crate::Error;
use crate::OutlineBuilder;
use crate::Rect;
use crate::cff::parser::Fixed;
use crate::cff::parser::Stream;
use crate::type1::scanner::bytes_eq;
use crate::type1::cipher::decrypt;
use crate::type1::cipher::decrypt_charstring;
use crate::type1::encoding::EncodingType;
use crate::type1::charstring::DrawCall;
use crate::type1::charstring::parse_char_string;
use crate::type1::charstring::find_char_string;
use crate::type1::charstring::spec_assoc_lookup;
use crate::type1::charstring::path_complete_ok;
use vstd::slice::slice_to_vec;
use vstd::slice::slice_subrange;

/// Whether the buffer begins with the `%!` magic of a font program.
pub open spec fn spec_has_magic(d: Seq<u8>) -> bool {
    d.len() >= 2 && d[0] == 0x25 && d[1] == 0x21
}

/// The keyword `begin` as a byte string.
pub open spec fn kw_begin() -> Seq<u8> {
    seq![0x62u8, 0x65u8, 0x67u8, 0x69u8, 0x6Eu8]
}

/// The keyword `end` as a byte string.
pub open spec fn kw_end() -> Seq<u8> {
    seq![0x65u8, 0x6Eu8, 0x64u8]
}

/// The keyword `def` as a byte string.
pub open spec fn kw_def() -> Seq<u8> {
    seq![0x64u8, 0x65u8, 0x66u8]
}

/// The keyword `readonly` as a byte string.
pub open spec fn kw_readonly() -> Seq<u8> {
    seq![0x72u8, 0x65u8, 0x61u8, 0x64u8, 0x6Fu8, 0x6Eu8, 0x6Cu8, 0x79u8]
}

/// The keyword `noaccess` as a byte string.
pub open spec fn kw_noaccess() -> Seq<u8> {
    seq![0x6Eu8, 0x6Fu8, 0x61u8, 0x63u8, 0x63u8, 0x65u8, 0x73u8, 0x73u8]
}

/// The keyword `dup` as a byte string.
pub open spec fn kw_dup() -> Seq<u8> {
    seq![0x64u8, 0x75u8, 0x70u8]
}

/// The keyword `put` as a byte string.
pub open spec fn kw_put() -> Seq<u8> {
    seq![0x70u8, 0x75u8, 0x74u8]
}

/// The keyword `StandardEncoding` as a byte string.
pub open spec fn kw_standard_encoding() -> Seq<u8> {
    seq![0x53u8, 0x74u8, 0x61u8, 0x6Eu8, 0x64u8, 0x61u8, 0x72u8, 0x64u8, 0x45u8, 0x6Eu8, 0x63u8, 0x6Fu8, 0x64u8, 0x69u8, 0x6Eu8, 0x67u8]
}

/// The keyword `[` as a byte string.
pub open spec fn kw_array_open() -> Seq<u8> {
    seq![0x5Bu8]
}

/// The keyword `]` as a byte string.
pub open spec fn kw_array_close() -> Seq<u8> {
    seq![0x5Du8]
}

/// The keyword `RD` as a byte string.
pub open spec fn kw_rd() -> Seq<u8> {
    seq![0x52u8, 0x44u8]
}

/// The keyword `-|` as a byte string.
pub open spec fn kw_rd_alt() -> Seq<u8> {
    seq![0x2Du8, 0x7Cu8]
}

/// The keyword `ND` as a byte string.
pub open spec fn kw_nd() -> Seq<u8> {
    seq![0x4Eu8, 0x44u8]
}

/// The keyword `|-` as a byte string.
pub open spec fn kw_nd_alt() -> Seq<u8> {
    seq![0x7Cu8, 0x2Du8]
}

/// The keyword `NP` as a byte string.
pub open spec fn kw_np() -> Seq<u8> {
    seq![0x4Eu8, 0x50u8]
}

/// The keyword `|` as a byte string.
pub open spec fn kw_np_alt() -> Seq<u8> {
    seq![0x7Cu8]
}

/// The keyword `/Subrs` as a byte string.
pub open spec fn kw_subrs_key() -> Seq<u8> {
    seq![0x2Fu8, 0x53u8, 0x75u8, 0x62u8, 0x72u8, 0x73u8]
}

/// The keyword `/lenIV` as a byte string.
pub open spec fn kw_leniv_key() -> Seq<u8> {
    seq![0x2Fu8, 0x6Cu8, 0x65u8, 0x6Eu8, 0x49u8, 0x56u8]
}

/// The keyword `/CharStrings` as a byte string.
pub open spec fn kw_charstrings_key() -> Seq<u8> {
    seq![0x2Fu8, 0x43u8, 0x68u8, 0x61u8, 0x72u8, 0x53u8, 0x74u8, 0x72u8, 0x69u8, 0x6Eu8, 0x67u8, 0x73u8]
}

/// The keyword `/FontInfo` as a byte string.
pub open spec fn kw_fontinfo_key() -> Seq<u8> {
    seq![0x2Fu8, 0x46u8, 0x6Fu8, 0x6Eu8, 0x74u8, 0x49u8, 0x6Eu8, 0x66u8, 0x6Fu8]
}

/// The keyword `/Metrics` as a byte string.
pub open spec fn kw_metrics_key() -> Seq<u8> {
    seq![0x2Fu8, 0x4Du8, 0x65u8, 0x74u8, 0x72u8, 0x69u8, 0x63u8, 0x73u8]
}

/// The keyword `/FontName` as a byte string.
pub open spec fn kw_fontname_key() -> Seq<u8> {
    seq![0x2Fu8, 0x46u8, 0x6Fu8, 0x6Eu8, 0x74u8, 0x4Eu8, 0x61u8, 0x6Du8, 0x65u8]
}

/// The keyword `/PaintType` as a byte string.
pub open spec fn kw_painttype_key() -> Seq<u8> {
    seq![0x2Fu8, 0x50u8, 0x61u8, 0x69u8, 0x6Eu8, 0x74u8, 0x54u8, 0x79u8, 0x70u8, 0x65u8]
}

/// The keyword `/FontType` as a byte string.
pub open spec fn kw_fonttype_key() -> Seq<u8> {
    seq![0x2Fu8, 0x46u8, 0x6Fu8, 0x6Eu8, 0x74u8, 0x54u8, 0x79u8, 0x70u8, 0x65u8]
}

/// The keyword `/FontBBox` as a byte string.
pub open spec fn kw_fontbbox_key() -> Seq<u8> {
    seq![0x2Fu8, 0x46u8, 0x6Fu8, 0x6Eu8, 0x74u8, 0x42u8, 0x42u8, 0x6Fu8, 0x78u8]
}

/// The keyword `/UniqueID` as a byte string.
pub open spec fn kw_uniqueid_key() -> Seq<u8> {
    seq![0x2Fu8, 0x55u8, 0x6Eu8, 0x69u8, 0x71u8, 0x75u8, 0x65u8, 0x49u8, 0x44u8]
}

/// The keyword `/StrokeWidth` as a byte string.
pub open spec fn kw_strokewidth_key() -> Seq<u8> {
    seq![0x2Fu8, 0x53u8, 0x74u8, 0x72u8, 0x6Fu8, 0x6Bu8, 0x65u8, 0x57u8, 0x69u8, 0x64u8, 0x74u8, 0x68u8]
}

/// The keyword `/FontMatrix` as a byte string.
pub open spec fn kw_fontmatrix_key() -> Seq<u8> {
    seq![0x2Fu8, 0x46u8, 0x6Fu8, 0x6Eu8, 0x74u8, 0x4Du8, 0x61u8, 0x74u8, 0x72u8, 0x69u8, 0x78u8]
}

/// The keyword `/Encoding` as a byte string.
pub open spec fn kw_encoding_key() -> Seq<u8> {
    seq![0x2Fu8, 0x45u8, 0x6Eu8, 0x63u8, 0x6Fu8, 0x64u8, 0x69u8, 0x6Eu8, 0x67u8]
}

/// The keyword `eexec` as a byte string.
pub open spec fn kw_eexec() -> Seq<u8> {
    seq![0x65u8, 0x65u8, 0x78u8, 0x65u8, 0x63u8]
}

/// The keyword `/Private` as a byte string.
pub open spec fn kw_private_key() -> Seq<u8> {
    seq![0x2Fu8, 0x50u8, 0x72u8, 0x69u8, 0x76u8, 0x61u8, 0x74u8, 0x65u8]
}

/// The views of a set of byte strings.
pub open spec fn spec_views(set: Seq<&[u8]>) -> Seq<Seq<u8>> {
    Seq::new(set.len(), |i: int| set[i]@)
}

/// Whether the token is one of the given byte strings.
pub open spec fn spec_token_in(tok: Seq<u8>, set: Seq<Seq<u8>>) -> bool {
    exists|i: int| 0 <= i < set.len() && tok == set[i]
}

/// Where `skip_until` lands: whether `find` was consumed, and the read
/// position after the consumed range (after `find`, after a stop token, or
/// the end of the buffer).
pub open spec fn spec_skip_until(data: Seq<u8>, off: int, find: Seq<u8>, stops: Seq<Seq<u8>>) -> (
    bool,
    int,
)
    decreases data.len() - off,
{
    match crate::type1::scanner::spec_next_token(data, off) {
        None => (false, data.len() as int),
        Some(t) => if t.0 == find {
            (true, t.1)
        } else if spec_token_in(t.0, stops) {
            (false, t.1)
        } else {
            proof {
                crate::type1::scanner::lemma_scan_advances(data, off, false);
            }
            spec_skip_until(data, t.1, find, stops)
        },
    }
}

/// Where `skip_until_before` lands: whether `find` is the next token (then
/// the cursor stays before it), or the position after a consumed stop token
/// or the end of the buffer.
pub open spec fn spec_skip_before(data: Seq<u8>, off: int, find: Seq<u8>, stops: Seq<Seq<u8>>) -> (
    bool,
    int,
)
    decreases data.len() - off,
{
    match crate::type1::scanner::spec_next_token(data, off) {
        None => (false, data.len() as int),
        Some(t) => if t.0 == find {
            (true, off)
        } else if spec_token_in(t.0, stops) {
            (false, t.1)
        } else {
            proof {
                crate::type1::scanner::lemma_scan_advances(data, off, false);
            }
            spec_skip_before(data, t.1, find, stops)
        },
    }
}

/// Where `skip_dict` lands: after the `end` that balances the dictionary's
/// `begin`/`end` pairs at nesting depth `depth`, or the end of the buffer.
pub open spec fn spec_skip_dict(data: Seq<u8>, off: int, depth: u32) -> int
    decreases data.len() - off,
{
    match crate::type1::scanner::spec_next_token(data, off) {
        None => data.len() as int,
        Some(t) => if t.0 == kw_begin() {
            proof {
                crate::type1::scanner::lemma_scan_advances(data, off, false);
            }
            spec_skip_dict(
                data,
                t.1,
                if depth < u32::MAX {
                    (depth + 1) as u32
                } else {
                    depth
                },
            )
        } else if t.0 == kw_end() {
            if depth <= 1 {
                t.1
            } else {
                proof {
                    crate::type1::scanner::lemma_scan_advances(data, off, false);
                }
                spec_skip_dict(data, t.1, (depth - 1) as u32)
            }
        } else {
            proof {
                crate::type1::scanner::lemma_scan_advances(data, off, false);
            }
            spec_skip_dict(data, t.1, depth)
        },
    }
}

/// Whether the token is one of the given keywords.
fn token_in(t: &[u8], set: &[&[u8]]) -> (r: bool)
    ensures
        r == spec_token_in(t@, spec_views(set@)),
{
    let mut i: usize = 0;
    while i < set.len()
        invariant
            i <= set@.len(),
            forall|j: int| 0 <= j < i ==> t@ != #[trigger] spec_views(set@)[j],
        decreases set@.len() - i,
    {
        if bytes_eq(t, set[i]) {
            proof {
                assert(t@ == spec_views(set@)[i as int]);
            }
            return true;
        }
        i = i + 1;
    }
    false
}

/// The views of a list of owned byte strings.
pub open spec fn spec_token_views(v: Seq<Vec<u8>>) -> Seq<Seq<u8>> {
    Seq::new(v.len(), |i: int| v[i]@)
}

/// The next `n` tokens when all of them spell numbers: the tokens and the
/// read position after them, or `None` when one is missing or not a number.
pub open spec fn spec_number_tokens(data: Seq<u8>, off: int, n: nat) -> Option<(Seq<Seq<u8>>, int)>
    decreases n,
{
    if n == 0 {
        Some((Seq::empty(), off))
    } else {
        match crate::type1::scanner::spec_next_token(data, off) {
            None => None,
            Some(t) => if spec_is_number_token(t.0) {
                match spec_number_tokens(data, t.1, (n - 1) as nat) {
                    None => None,
                    Some(rest) => Some((seq![t.0] + rest.0, rest.1)),
                }
            } else {
                None
            },
        }
    }
}

/// What reading a FontMatrix yields: a `[`, six numeric tokens and a `]`,
/// or `None` when the stream offers anything else.
pub open spec fn spec_read_font_matrix(data: Seq<u8>, off: int) -> Option<(Seq<Seq<u8>>, int)> {
    match crate::type1::scanner::spec_next_token(data, off) {
        None => None,
        Some(t) => if t.0 != kw_array_open() {
            None
        } else {
            match spec_number_tokens(data, t.1, 6) {
                None => None,
                Some(m) => match crate::type1::scanner::spec_next_token(data, m.1) {
                    None => None,
                    Some(c) => if c.0 == kw_array_close() {
                        Some((m.0, c.1))
                    } else {
                        None
                    },
                },
            }
        },
    }
}

/// The word `integer`, naming the expected form in an `UnexpectedToken`
/// error raised where a decimal integer in range was required.
fn int_marker() -> Vec<u8> {
    slice_to_vec([0x69u8, 0x6Eu8, 0x74u8, 0x65u8, 0x67u8, 0x65u8, 0x72u8].as_slice())  // "integer"
}

/// Which walker dispatch class a token falls in.
fn walk_key(token: &[u8]) -> (r: WalkKey)
    ensures
        r == spec_walk_key(token@),
{
    let fontinfo_kw: &[u8] = [
        0x2Fu8, 0x46u8, 0x6Fu8, 0x6Eu8, 0x74u8, 0x49u8, 0x6Eu8, 0x66u8, 0x6Fu8,
    ].as_slice();  // "/FontInfo"
    let metrics_kw: &[u8] = [
        0x2Fu8, 0x4Du8, 0x65u8, 0x74u8, 0x72u8, 0x69u8, 0x63u8, 0x73u8,
    ].as_slice();  // "/Metrics"
    let fontname_kw: &[u8] = [
        0x2Fu8, 0x46u8, 0x6Fu8, 0x6Eu8, 0x74u8, 0x4Eu8, 0x61u8, 0x6Du8, 0x65u8,
    ].as_slice();  // "/FontName"
    let painttype_kw: &[u8] = [
        0x2Fu8, 0x50u8, 0x61u8, 0x69u8, 0x6Eu8, 0x74u8, 0x54u8, 0x79u8, 0x70u8, 0x65u8,
    ].as_slice();  // "/PaintType"
    let fonttype_kw: &[u8] = [
        0x2Fu8, 0x46u8, 0x6Fu8, 0x6Eu8, 0x74u8, 0x54u8, 0x79u8, 0x70u8, 0x65u8,
    ].as_slice();  // "/FontType"
    let fontbbox_kw: &[u8] = [
        0x2Fu8, 0x46u8, 0x6Fu8, 0x6Eu8, 0x74u8, 0x42u8, 0x42u8, 0x6Fu8, 0x78u8,
    ].as_slice();  // "/FontBBox"
    let uniqueid_kw: &[u8] = [
        0x2Fu8, 0x55u8, 0x6Eu8, 0x69u8, 0x71u8, 0x75u8, 0x65u8, 0x49u8, 0x44u8,
    ].as_slice();  // "/UniqueID"
    let strokewidth_kw: &[u8] = [
        0x2Fu8, 0x53u8, 0x74u8, 0x72u8, 0x6Fu8, 0x6Bu8, 0x65u8, 0x57u8, 0x69u8, 0x64u8, 0x74u8,
        0x68u8,
    ].as_slice();  // "/StrokeWidth"
    let fontmatrix_kw: &[u8] = [
        0x2Fu8, 0x46u8, 0x6Fu8, 0x6Eu8, 0x74u8, 0x4Du8, 0x61u8, 0x74u8, 0x72u8, 0x69u8, 0x78u8,
    ].as_slice();  // "/FontMatrix"
    let encoding_kw: &[u8] = [
        0x2Fu8, 0x45u8, 0x6Eu8, 0x63u8, 0x6Fu8, 0x64u8, 0x69u8, 0x6Eu8, 0x67u8,
    ].as_slice();  // "/Encoding"
    let eexec_kw: &[u8] = [0x65u8, 0x65u8, 0x78u8, 0x65u8, 0x63u8].as_slice();  // "eexec"
    let private_kw: &[u8] = [
        0x2Fu8, 0x50u8, 0x72u8, 0x69u8, 0x76u8, 0x61u8, 0x74u8, 0x65u8,
    ].as_slice();  // "/Private"
    proof {
        assert(fontinfo_kw@ =~= kw_fontinfo_key());
        assert(metrics_kw@ =~= kw_metrics_key());
        assert(fontname_kw@ =~= kw_fontname_key());
        assert(painttype_kw@ =~= kw_painttype_key());
        assert(fonttype_kw@ =~= kw_fonttype_key());
        assert(fontbbox_kw@ =~= kw_fontbbox_key());
        assert(uniqueid_kw@ =~= kw_uniqueid_key());
        assert(strokewidth_kw@ =~= kw_strokewidth_key());
        assert(fontmatrix_kw@ =~= kw_fontmatrix_key());
        assert(encoding_kw@ =~= kw_encoding_key());
        assert(eexec_kw@ =~= kw_eexec());
        assert(private_kw@ =~= kw_private_key());
    }
    if bytes_eq(token, fontinfo_kw) || bytes_eq(token, metrics_kw) {
        WalkKey::Dict
    } else if bytes_eq(token, fontname_kw) || bytes_eq(token, painttype_kw) || bytes_eq(
        token,
        fonttype_kw,
    ) || bytes_eq(token, fontbbox_kw) || bytes_eq(token, uniqueid_kw) || bytes_eq(
        token,
        strokewidth_kw,
    ) {
        WalkKey::OneValue
    } else if bytes_eq(token, fontmatrix_kw) {
        WalkKey::Matrix
    } else if bytes_eq(token, encoding_kw) {
        WalkKey::Encoding
    } else if bytes_eq(token, eexec_kw) {
        WalkKey::Eexec
    } else if bytes_eq(token, private_kw) {
        WalkKey::Private
    } else {
        WalkKey::Other
    }
}

/// A spec-level encoding: the canonical table, or a custom 256-slot one.
pub enum SpecEncoding {
    /// Adobe's canonical Standard Encoding.
    Standard,
    /// The name bound to each of the 256 codes, if any.
    Custom(Seq<Option<Seq<u8>>>),
}

/// The view of one optional glyph name.
pub open spec fn spec_name_view(n: Option<Vec<u8>>) -> Option<Seq<u8>> {
    match n {
        Some(v) => Some(v@),
        None => None,
    }
}

/// The views of a custom code-to-name table.
pub open spec fn spec_table_view(t: Seq<Option<Vec<u8>>>) -> Seq<Option<Seq<u8>>> {
    Seq::new(t.len(), |i: int| spec_name_view(t[i]))
}

/// Whether an encoding value realizes a spec-level encoding.
pub open spec fn encoding_matches(e: EncodingType, a: SpecEncoding) -> bool {
    match a {
        SpecEncoding::Standard => e is Standard,
        SpecEncoding::Custom(s) => e matches EncodingType::Custom(t) && spec_table_view(t@) == s,
    }
}

/// A custom table with no code bound.
pub open spec fn spec_empty_table() -> Seq<Option<Seq<u8>>> {
    Seq::new(256, |i: int| None)
}

/// The stop tokens that end an Encoding value.
pub open spec fn spec_encoding_stops() -> Seq<Seq<u8>> {
    seq![kw_def(), kw_readonly(), kw_noaccess()]
}

/// The custom-encoding entries from `off` applied to `table`: each
/// `dup <code> /<name> put` group binds its code to its name, a later group
/// for the same code winning, until a stop token or the end of the stream;
/// `None` when an entry is malformed.
pub open spec fn spec_encoding_entries(data: Seq<u8>, off: int, table: Seq<Option<Seq<u8>>>) -> Option<
    (Seq<Option<Seq<u8>>>, int),
>
    decreases data.len() - off,
{
    match crate::type1::scanner::spec_next_token(data, off) {
        None => Some((table, data.len() as int)),
        Some(t) => if spec_token_in(t.0, spec_encoding_stops()) {
            Some((table, t.1))
        } else if t.0 != kw_dup() {
            None
        } else {
            match crate::type1::scanner::spec_next_token(data, t.1) {
                None => None,
                Some(ct) => match crate::type1::scanner::spec_parse_int(ct.0) {
                    None => None,
                    Some(code) => if !(0 <= code <= 255) {
                        None
                    } else {
                        match crate::type1::scanner::spec_next_token(data, ct.1) {
                            None => None,
                            Some(nt) => if !(nt.0.len() >= 2 && nt.0[0] == 0x2F) {
                                None
                            } else {
                                match crate::type1::scanner::spec_next_token(data, nt.1) {
                                    None => None,
                                    Some(pt) => if pt.0 != kw_put() {
                                        None
                                    } else {
                                        proof {
                                            crate::type1::scanner::lemma_scan_advances(
                                                data,
                                                off,
                                                false,
                                            );
                                            crate::type1::scanner::lemma_scan_advances(
                                                data,
                                                t.1,
                                                false,
                                            );
                                            crate::type1::scanner::lemma_scan_advances(
                                                data,
                                                ct.1,
                                                false,
                                            );
                                            crate::type1::scanner::lemma_scan_advances(
                                                data,
                                                nt.1,
                                                false,
                                            );
                                        }
                                        spec_encoding_entries(
                                            data,
                                            pt.1,
                                            table.update(code as int, Some(nt.0.skip(1))),
                                        )
                                    },
                                }
                            },
                        }
                    },
                },
            }
        },
    }
}

/// What reading an Encoding value yields: `StandardEncoding def`, or the
/// custom table built from the `dup <code> /<name> put` groups between the
/// first `dup` and a stop token; `None` when an entry is malformed.
pub open spec fn spec_read_encoding(data: Seq<u8>, off: int) -> Option<(SpecEncoding, int)> {
    match crate::type1::scanner::spec_next_token(data, off) {
        None => None,
        Some(t1) => match crate::type1::scanner::spec_next_token(data, t1.1) {
            None => None,
            Some(t2) => if t1.0 == kw_standard_encoding() && t2.0 == kw_def() {
                Some((SpecEncoding::Standard, t2.1))
            } else {
                let s = spec_skip_before(data, t2.1, kw_dup(), spec_encoding_stops());
                if !s.0 {
                    Some((SpecEncoding::Custom(spec_empty_table()), s.1))
                } else {
                    match spec_encoding_entries(data, s.1, spec_empty_table()) {
                        None => None,
                        Some(res) => Some((SpecEncoding::Custom(res.0), res.1)),
                    }
                }
            },
        },
    }
}

/// Stores `v` at slot `i` of the subroutine table, padding any missing
/// slots below `i` with empty entries.
pub open spec fn spec_store_at(t: Seq<Seq<u8>>, i: int, v: Seq<u8>) -> Seq<Seq<u8>>
    recommends
        0 <= i,
{
    if i < t.len() {
        t.update(i, v)
    } else {
        (t + Seq::new((i - t.len()) as nat, |j: int| Seq::<u8>::empty())).push(v)
    }
}

/// The stop tokens that end a Subrs table.
pub open spec fn spec_subr_stops() -> Seq<Seq<u8>> {
    seq![kw_nd(), kw_nd_alt(), kw_noaccess()]
}

/// What one Subrs entry does, after its `dup` token.
pub enum SubrStep {
    /// The entry is malformed.
    Bad,
    /// The entry was stored and `noaccess def` ended the table at the
    /// offset.
    Done(Seq<Seq<u8>>, int),
    /// The entry was stored; more entries may follow at the offset.
    More(Seq<Seq<u8>>, int),
}

/// One Subrs entry after its `dup`: `<idx> <len> RD <one byte> <len bytes>`
/// and its ending token, the decrypted payload stored at slot `idx`.
pub open spec fn spec_subr_entry_after_dup(
    data: Seq<u8>,
    off: int,
    n: int,
    len_iv: int,
    table: Seq<Seq<u8>>,
) -> SubrStep {
    match crate::type1::scanner::spec_next_token(data, off) {
        None => SubrStep::Bad,
        Some(it) => match crate::type1::scanner::spec_parse_int(it.0) {
            None => SubrStep::Bad,
            Some(idx) => match crate::type1::scanner::spec_next_token(data, it.1) {
                None => SubrStep::Bad,
                Some(lt) => match crate::type1::scanner::spec_parse_int(lt.0) {
                    None => SubrStep::Bad,
                    Some(blen) => if !(0 <= idx < n) || blen < 0 {
                        SubrStep::Bad
                    } else {
                        match crate::type1::scanner::spec_next_token(data, lt.1) {
                            None => SubrStep::Bad,
                            Some(rd) => if !(rd.0 == kw_rd() || rd.0 == kw_rd_alt()) {
                                SubrStep::Bad
                            } else if rd.1 + 1 + blen > data.len() {
                                SubrStep::Bad
                            } else if len_iv > blen {
                                SubrStep::Bad
                            } else {
                                let plain = crate::type1::cipher::spec_decrypt_seq(
                                    data.subrange(rd.1 + 1, rd.1 + 1 + blen),
                                    crate::type1::cipher::CHARSTRING_KEY,
                                ).skip(len_iv);
                                let stored = spec_store_at(table, idx as int, plain);
                                match crate::type1::scanner::spec_next_token(
                                    data,
                                    rd.1 + 1 + blen,
                                ) {
                                    None => SubrStep::Bad,
                                    Some(et) => if et.0 == kw_np() || et.0 == kw_np_alt() {
                                        SubrStep::More(stored, et.1)
                                    } else if et.0 == kw_noaccess() {
                                        match crate::type1::scanner::spec_next_token(data, et.1) {
                                            None => SubrStep::Bad,
                                            Some(e2) => if e2.0 == kw_def() {
                                                SubrStep::Done(stored, e2.1)
                                            } else if e2.0 == kw_put() {
                                                SubrStep::More(stored, e2.1)
                                            } else {
                                                SubrStep::Bad
                                            },
                                        }
                                    } else {
                                        SubrStep::Bad
                                    },
                                }
                            },
                        }
                    },
                },
            },
        },
    }
}

/// A stored Subrs entry always moves the read position forward, staying
/// inside the buffer.
pub proof fn lemma_subr_step_advances(
    data: Seq<u8>,
    off: int,
    n: int,
    len_iv: int,
    table: Seq<Seq<u8>>,
)
    ensures
        match spec_subr_entry_after_dup(data, off, n, len_iv, table) {
            SubrStep::Bad => true,
            SubrStep::Done(tb, o) => off < o <= data.len(),
            SubrStep::More(tb, o) => off < o <= data.len(),
        },
{
    crate::type1::scanner::lemma_scan_advances(data, off, false);
    match crate::type1::scanner::spec_next_token(data, off) {
        None => {},
        Some(it) => {
            crate::type1::scanner::lemma_scan_advances(data, it.1, false);
            match crate::type1::scanner::spec_next_token(data, it.1) {
                None => {},
                Some(lt) => {
                    crate::type1::scanner::lemma_scan_advances(data, lt.1, false);
                    match crate::type1::scanner::spec_parse_int(lt.0) {
                        None => {},
                        Some(blen) => {
                            match crate::type1::scanner::spec_next_token(data, lt.1) {
                                None => {},
                                Some(rd) => {
                                    crate::type1::scanner::lemma_scan_advances(
                                        data,
                                        rd.1 + 1 + blen,
                                        false,
                                    );
                                    match crate::type1::scanner::spec_next_token(
                                        data,
                                        rd.1 + 1 + blen,
                                    ) {
                                        None => {},
                                        Some(et) => {
                                            crate::type1::scanner::lemma_scan_advances(
                                                data,
                                                et.1,
                                                false,
                                            );
                                        },
                                    }
                                },
                            }
                        },
                    }
                },
            }
        },
    }
}

/// The Subrs entries from `off` applied to `table`: each
/// `dup <idx> <len> RD <one byte> <len bytes> NP` group stores the
/// CharString-decrypt of its payload at its index, until `ND`, `|-` or
/// `noaccess def`, or the end of the stream; `None` when an entry is
/// malformed.
pub open spec fn spec_subr_entries(
    data: Seq<u8>,
    off: int,
    n: int,
    len_iv: int,
    table: Seq<Seq<u8>>,
) -> Option<(Seq<Seq<u8>>, int)>
    decreases data.len() - off,
{
    match crate::type1::scanner::spec_next_token(data, off) {
        None => Some((table, data.len() as int)),
        Some(t) => if t.0 == kw_nd() || t.0 == kw_nd_alt() {
            Some((table, t.1))
        } else if t.0 == kw_noaccess() {
            match crate::type1::scanner::spec_next_token(data, t.1) {
                None => None,
                Some(t2) => if t2.0 == kw_def() {
                    Some((table, t2.1))
                } else {
                    None
                },
            }
        } else if t.0 != kw_dup() {
            None
        } else {
            match spec_subr_entry_after_dup(data, t.1, n, len_iv, table) {
                SubrStep::Bad => None,
                SubrStep::Done(tb, o) => Some((tb, o)),
                SubrStep::More(tb, o) => {
                    proof {
                        crate::type1::scanner::lemma_scan_advances(data, off, false);
                        lemma_subr_step_advances(data, t.1, n, len_iv, table);
                    }
                    spec_subr_entries(data, o, n, len_iv, tb)
                },
            }
        },
    }
}

/// What reading a Subrs table yields: the declared count, then the entries
/// between the first `dup` and a terminator, each decrypted and stored at
/// its index; an empty table when the count is below one or no `dup`
/// follows; `None` when the count or an entry is malformed.
pub open spec fn spec_parse_subroutines(data: Seq<u8>, off: int, len_iv: int) -> Option<
    (Seq<Seq<u8>>, int),
> {
    match crate::type1::scanner::spec_next_token(data, off) {
        None => None,
        Some(ct) => match crate::type1::scanner::spec_parse_int(ct.0) {
            None => None,
            Some(n) => if n < 1 {
                Some((Seq::empty(), ct.1))
            } else {
                let sk = spec_skip_before(data, ct.1, kw_dup(), spec_subr_stops());
                if !sk.0 {
                    Some((Seq::empty(), sk.1))
                } else {
                    spec_subr_entries(data, sk.1, n as int, len_iv, Seq::empty())
                }
            },
        },
    }
}

/// The views of a list of name/CharString pairs.
pub open spec fn spec_pair_views(v: Seq<(Vec<u8>, Vec<u8>)>) -> Seq<(Seq<u8>, Seq<u8>)> {
    Seq::new(v.len(), |i: int| (v[i].0@, v[i].1@))
}

/// One CharStrings entry after its `/<name>` token: `<len> RD <one byte>
/// <len bytes> ND`, yielding the decrypted payload and the position after
/// the entry, or `None` when the entry is malformed.
pub open spec fn spec_cs_entry_after_name(data: Seq<u8>, off: int, len_iv: int) -> Option<
    (Seq<u8>, int),
> {
    match crate::type1::scanner::spec_next_token(data, off) {
        None => None,
        Some(lt) => match crate::type1::scanner::spec_parse_int(lt.0) {
            None => None,
            Some(blen) => if blen < 0 {
                None
            } else {
                match crate::type1::scanner::spec_next_token(data, lt.1) {
                    None => None,
                    Some(rd) => if !(rd.0 == kw_rd() || rd.0 == kw_rd_alt()) {
                        None
                    } else if rd.1 + 1 + blen > data.len() {
                        None
                    } else if len_iv > blen {
                        None
                    } else {
                        let plain = crate::type1::cipher::spec_decrypt_seq(
                            data.subrange(rd.1 + 1, rd.1 + 1 + blen),
                            crate::type1::cipher::CHARSTRING_KEY,
                        ).skip(len_iv);
                        match crate::type1::scanner::spec_next_token(data, rd.1 + 1 + blen) {
                            None => None,
                            Some(et) => if et.0 == kw_nd() || et.0 == kw_nd_alt() {
                                Some((plain, et.1))
                            } else {
                                None
                            },
                        }
                    },
                }
            },
        },
    }
}

/// A read CharStrings entry always moves the read position forward, staying
/// inside the buffer.
pub proof fn lemma_cs_entry_advances(data: Seq<u8>, off: int, len_iv: int)
    ensures
        spec_cs_entry_after_name(data, off, len_iv) matches Some(e) ==> off < e.1 <= data.len(),
{
    crate::type1::scanner::lemma_scan_advances(data, off, false);
    match crate::type1::scanner::spec_next_token(data, off) {
        None => {},
        Some(lt) => {
            crate::type1::scanner::lemma_scan_advances(data, lt.1, false);
            match crate::type1::scanner::spec_parse_int(lt.0) {
                None => {},
                Some(blen) => {
                    match crate::type1::scanner::spec_next_token(data, lt.1) {
                        None => {},
                        Some(rd) => {
                            crate::type1::scanner::lemma_scan_advances(
                                data,
                                rd.1 + 1 + blen,
                                false,
                            );
                        },
                    }
                },
            }
        },
    }
}

/// The CharStrings entries from `off` applied to `table`: each
/// `/<name> <len> RD <one byte> <len bytes> ND` group appends the name with
/// the CharString-decrypt of its payload, other tokens between entries are
/// tolerated, until `end` or the end of the stream; `None` when an entry is
/// malformed.
pub open spec fn spec_cs_entries(
    data: Seq<u8>,
    off: int,
    len_iv: int,
    table: Seq<(Seq<u8>, Seq<u8>)>,
) -> Option<(Seq<(Seq<u8>, Seq<u8>)>, int)>
    decreases data.len() - off,
{
    match crate::type1::scanner::spec_next_token(data, off) {
        None => Some((table, data.len() as int)),
        Some(t) => if t.0 == kw_end() {
            Some((table, t.1))
        } else if t.0.len() >= 2 && t.0[0] == 0x2F {
            match spec_cs_entry_after_name(data, t.1, len_iv) {
                None => None,
                Some(e) => {
                    proof {
                        crate::type1::scanner::lemma_scan_advances(data, off, false);
                        lemma_cs_entry_advances(data, t.1, len_iv);
                    }
                    spec_cs_entries(data, e.1, len_iv, table.push((t.0.skip(1), e.0)))
                },
            }
        } else {
            proof {
                crate::type1::scanner::lemma_scan_advances(data, off, false);
            }
            spec_cs_entries(data, t.1, len_iv, table)
        },
    }
}

/// What reading a CharStrings dictionary yields: the declared count, then
/// the entries up to `end` or the end of the stream; `None` when the count
/// or an entry is malformed.
pub open spec fn spec_parse_char_strings(data: Seq<u8>, off: int, len_iv: int) -> Option<
    (Seq<(Seq<u8>, Seq<u8>)>, int),
> {
    match crate::type1::scanner::spec_next_token(data, off) {
        None => None,
        Some(ct) => match crate::type1::scanner::spec_parse_int(ct.0) {
            None => None,
            Some(n) => if n < 0 {
                None
            } else {
                spec_cs_entries(data, ct.1, len_iv, Seq::empty())
            },
        },
    }
}

/// Skipping lands between the start and the end of the buffer.
pub proof fn lemma_skip_before_bounds(data: Seq<u8>, off: int, find: Seq<u8>, stops: Seq<Seq<u8>>)
    requires
        0 <= off <= data.len(),
    ensures
        off <= spec_skip_before(data, off, find, stops).1 <= data.len(),
    decreases data.len() - off,
{
    crate::type1::scanner::lemma_scan_advances(data, off, false);
    match crate::type1::scanner::spec_next_token(data, off) {
        None => {},
        Some(t) => {
            if t.0 == find {
            } else if spec_token_in(t.0, stops) {
            } else {
                lemma_skip_before_bounds(data, t.1, find, stops);
            }
        },
    }
}

/// A dictionary skip lands between the start and the end of the buffer.
pub proof fn lemma_skip_dict_bounds(data: Seq<u8>, off: int, depth: u32)
    requires
        0 <= off <= data.len(),
    ensures
        off <= spec_skip_dict(data, off, depth) <= data.len(),
    decreases data.len() - off,
{
    crate::type1::scanner::lemma_scan_advances(data, off, false);
    match crate::type1::scanner::spec_next_token(data, off) {
        None => {},
        Some(t) => {
            if t.0 == kw_begin() {
                lemma_skip_dict_bounds(
                    data,
                    t.1,
                    if depth < u32::MAX {
                        (depth + 1) as u32
                    } else {
                        depth
                    },
                );
            } else if t.0 == kw_end() {
                if depth > 1 {
                    lemma_skip_dict_bounds(data, t.1, (depth - 1) as u32);
                }
            } else {
                lemma_skip_dict_bounds(data, t.1, depth);
            }
        },
    }
}

/// Reading the numeric tokens moves the position forward, staying inside
/// the buffer.
pub proof fn lemma_number_tokens_bounds(data: Seq<u8>, off: int, n: nat)
    requires
        0 <= off <= data.len(),
    ensures
        spec_number_tokens(data, off, n) matches Some(m) ==> off <= m.1 <= data.len(),
    decreases n,
{
    crate::type1::scanner::lemma_scan_advances(data, off, false);
    if n > 0 {
        match crate::type1::scanner::spec_next_token(data, off) {
            None => {},
            Some(t) => {
                lemma_number_tokens_bounds(data, t.1, (n - 1) as nat);
            },
        }
    }
}

/// Reading a FontMatrix moves the position forward, staying inside the
/// buffer.
pub proof fn lemma_read_font_matrix_bounds(data: Seq<u8>, off: int)
    requires
        0 <= off <= data.len(),
    ensures
        spec_read_font_matrix(data, off) matches Some(m) ==> off < m.1 <= data.len(),
{
    crate::type1::scanner::lemma_scan_advances(data, off, false);
    match crate::type1::scanner::spec_next_token(data, off) {
        None => {},
        Some(t) => {
            lemma_number_tokens_bounds(data, t.1, 6);
            match spec_number_tokens(data, t.1, 6) {
                None => {},
                Some(m) => {
                    crate::type1::scanner::lemma_scan_advances(data, m.1, false);
                },
            }
        },
    }
}

/// Reading encoding entries moves the position forward, staying inside the
/// buffer.
pub proof fn lemma_encoding_entries_bounds(data: Seq<u8>, off: int, table: Seq<Option<Seq<u8>>>)
    requires
        0 <= off <= data.len(),
    ensures
        spec_encoding_entries(data, off, table) matches Some(res) ==> off <= res.1 <= data.len(),
    decreases data.len() - off,
{
    crate::type1::scanner::lemma_scan_advances(data, off, false);
    match crate::type1::scanner::spec_next_token(data, off) {
        None => {},
        Some(t) => {
            if spec_token_in(t.0, spec_encoding_stops()) || t.0 != kw_dup() {
            } else {
                match crate::type1::scanner::spec_next_token(data, t.1) {
                    None => {},
                    Some(ct) => {
                        crate::type1::scanner::lemma_scan_advances(data, t.1, false);
                        match crate::type1::scanner::spec_next_token(data, ct.1) {
                            None => {},
                            Some(nt) => {
                                crate::type1::scanner::lemma_scan_advances(data, ct.1, false);
                                match crate::type1::scanner::spec_next_token(data, nt.1) {
                                    None => {},
                                    Some(pt) => {
                                        crate::type1::scanner::lemma_scan_advances(
                                            data,
                                            nt.1,
                                            false,
                                        );
                                        match crate::type1::scanner::spec_parse_int(ct.0) {
                                            None => {},
                                            Some(code) => {
                                                if 0 <= code <= 255 && nt.0.len() >= 2 && nt.0[0]
                                                    == 0x2F && pt.0 == kw_put() {
                                                    lemma_encoding_entries_bounds(
                                                        data,
                                                        pt.1,
                                                        table.update(
                                                            code as int,
                                                            Some(nt.0.skip(1)),
                                                        ),
                                                    );
                                                }
                                            },
                                        }
                                    },
                                }
                            },
                        }
                    },
                }
            }
        },
    }
}

/// Reading an Encoding value moves the position forward, staying inside the
/// buffer.
pub proof fn lemma_read_encoding_bounds(data: Seq<u8>, off: int)
    requires
        0 <= off <= data.len(),
    ensures
        spec_read_encoding(data, off) matches Some(res) ==> off < res.1 <= data.len(),
{
    crate::type1::scanner::lemma_scan_advances(data, off, false);
    match crate::type1::scanner::spec_next_token(data, off) {
        None => {},
        Some(t1) => {
            crate::type1::scanner::lemma_scan_advances(data, t1.1, false);
            match crate::type1::scanner::spec_next_token(data, t1.1) {
                None => {},
                Some(t2) => {
                    if !(t1.0 == kw_standard_encoding() && t2.0 == kw_def()) {
                        lemma_skip_before_bounds(data, t2.1, kw_dup(), spec_encoding_stops());
                        let s = spec_skip_before(data, t2.1, kw_dup(), spec_encoding_stops());
                        if s.0 {
                            lemma_encoding_entries_bounds(data, s.1, spec_empty_table());
                        }
                    }
                },
            }
        },
    }
}

/// Reading Subrs entries moves the position forward, staying inside the
/// buffer.
pub proof fn lemma_subr_entries_bounds(
    data: Seq<u8>,
    off: int,
    n: int,
    len_iv: int,
    table: Seq<Seq<u8>>,
)
    requires
        0 <= off <= data.len(),
    ensures
        spec_subr_entries(data, off, n, len_iv, table) matches Some(res) ==> off <= res.1
            <= data.len(),
    decreases data.len() - off,
{
    crate::type1::scanner::lemma_scan_advances(data, off, false);
    match crate::type1::scanner::spec_next_token(data, off) {
        None => {},
        Some(t) => {
            crate::type1::scanner::lemma_scan_advances(data, t.1, false);
            if t.0 == kw_nd() || t.0 == kw_nd_alt() || t.0 == kw_noaccess() || t.0 != kw_dup() {
            } else {
                lemma_subr_step_advances(data, t.1, n, len_iv, table);
                match spec_subr_entry_after_dup(data, t.1, n, len_iv, table) {
                    SubrStep::Bad => {},
                    SubrStep::Done(tb, o) => {},
                    SubrStep::More(tb, o) => {
                        lemma_subr_entries_bounds(data, o, n, len_iv, tb);
                    },
                }
            }
        },
    }
}

/// Reading a Subrs table moves the position forward, staying inside the
/// buffer.
pub proof fn lemma_parse_subroutines_bounds(data: Seq<u8>, off: int, len_iv: int)
    requires
        0 <= off <= data.len(),
    ensures
        spec_parse_subroutines(data, off, len_iv) matches Some(res) ==> off < res.1 <= data.len(),
{
    crate::type1::scanner::lemma_scan_advances(data, off, false);
    match crate::type1::scanner::spec_next_token(data, off) {
        None => {},
        Some(ct) => {
            match crate::type1::scanner::spec_parse_int(ct.0) {
                None => {},
                Some(n) => {
                    if n >= 1 {
                        lemma_skip_before_bounds(data, ct.1, kw_dup(), spec_subr_stops());
                        let sk = spec_skip_before(data, ct.1, kw_dup(), spec_subr_stops());
                        if sk.0 {
                            lemma_subr_entries_bounds(data, sk.1, n as int, len_iv, Seq::empty());
                        }
                    }
                },
            }
        },
    }
}

/// Reading CharStrings entries moves the position forward, staying inside
/// the buffer.
pub proof fn lemma_cs_entries_bounds(
    data: Seq<u8>,
    off: int,
    len_iv: int,
    table: Seq<(Seq<u8>, Seq<u8>)>,
)
    requires
        0 <= off <= data.len(),
    ensures
        spec_cs_entries(data, off, len_iv, table) matches Some(res) ==> off <= res.1 <= data.len(),
    decreases data.len() - off,
{
    crate::type1::scanner::lemma_scan_advances(data, off, false);
    match crate::type1::scanner::spec_next_token(data, off) {
        None => {},
        Some(t) => {
            if t.0 == kw_end() {
            } else if t.0.len() >= 2 && t.0[0] == 0x2F {
                lemma_cs_entry_advances(data, t.1, len_iv);
                match spec_cs_entry_after_name(data, t.1, len_iv) {
                    None => {},
                    Some(e) => {
                        lemma_cs_entries_bounds(data, e.1, len_iv, table.push((t.0.skip(1), e.0)));
                    },
                }
            } else {
                lemma_cs_entries_bounds(data, t.1, len_iv, table);
            }
        },
    }
}

/// Reading a CharStrings dictionary moves the position forward, staying
/// inside the buffer.
pub proof fn lemma_parse_char_strings_bounds(data: Seq<u8>, off: int, len_iv: int)
    requires
        0 <= off <= data.len(),
    ensures
        spec_parse_char_strings(data, off, len_iv) matches Some(res) ==> off < res.1
            <= data.len(),
{
    crate::type1::scanner::lemma_scan_advances(data, off, false);
    match crate::type1::scanner::spec_next_token(data, off) {
        None => {},
        Some(ct) => {
            lemma_cs_entries_bounds(data, ct.1, len_iv, Seq::empty());
        },
    }
}

/// What walking a Private dictionary yields: the last `/lenIV`, and the
/// `/Subrs` and `/CharStrings` tables, each read with the `lenIV` in force
/// when its key came; everything else is tolerated and skipped. `None` when
/// a recognized key carries a malformed value.
pub open spec fn spec_private_items(
    data: Seq<u8>,
    off: int,
    len_iv: int,
    subrs: Seq<Seq<u8>>,
    css: Seq<(Seq<u8>, Seq<u8>)>,
) -> Option<(int, Seq<Seq<u8>>, Seq<(Seq<u8>, Seq<u8>)>)>
    decreases data.len() - off,
{
    match crate::type1::scanner::spec_next_token(data, off) {
        None => Some((len_iv, subrs, css)),
        Some(t) => if t.0 == kw_subrs_key() {
            match spec_parse_subroutines(data, t.1, len_iv) {
                None => None,
                Some(res) => {
                    proof {
                        crate::type1::scanner::lemma_scan_advances(data, off, false);
                        lemma_parse_subroutines_bounds(data, t.1, len_iv);
                    }
                    spec_private_items(data, res.1, len_iv, res.0, css)
                },
            }
        } else if t.0 == kw_leniv_key() {
            match crate::type1::scanner::spec_next_token(data, t.1) {
                None => None,
                Some(vt) => match crate::type1::scanner::spec_parse_int(vt.0) {
                    None => None,
                    Some(v) => if v < 0 {
                        None
                    } else {
                        proof {
                            crate::type1::scanner::lemma_scan_advances(data, off, false);
                            crate::type1::scanner::lemma_scan_advances(data, t.1, false);
                        }
                        spec_private_items(data, vt.1, v as int, subrs, css)
                    },
                },
            }
        } else if t.0 == kw_charstrings_key() {
            match spec_parse_char_strings(data, t.1, len_iv) {
                None => None,
                Some(res) => {
                    proof {
                        crate::type1::scanner::lemma_scan_advances(data, off, false);
                        lemma_parse_char_strings_bounds(data, t.1, len_iv);
                    }
                    spec_private_items(data, res.1, len_iv, subrs, res.0)
                },
            }
        } else {
            proof {
                crate::type1::scanner::lemma_scan_advances(data, off, false);
            }
            spec_private_items(data, t.1, len_iv, subrs, css)
        },
    }
}

/// The spec-level encoding an encoding value realizes.
pub open spec fn spec_encoding_abs(e: EncodingType) -> SpecEncoding {
    match e {
        EncodingType::Standard => SpecEncoding::Standard,
        EncodingType::Custom(t) => SpecEncoding::Custom(spec_table_view(t@)),
    }
}

/// The dispatch classes of the top-level dictionary walker.
pub enum WalkKey {
    /// `/FontInfo` or `/Metrics`: a whole dictionary to skip.
    Dict,
    /// A key whose one value token is skipped.
    OneValue,
    /// `/FontMatrix`.
    Matrix,
    /// `/Encoding`.
    Encoding,
    /// `eexec`.
    Eexec,
    /// `/Private`.
    Private,
    /// Anything else is tolerated.
    Other,
}

/// Which walker dispatch class a token falls in.
pub open spec fn spec_walk_key(tok: Seq<u8>) -> WalkKey {
    if tok == kw_fontinfo_key() || tok == kw_metrics_key() {
        WalkKey::Dict
    } else if tok == kw_fontname_key() || tok == kw_painttype_key() || tok == kw_fonttype_key()
        || tok == kw_fontbbox_key() || tok == kw_uniqueid_key() || tok == kw_strokewidth_key() {
        WalkKey::OneValue
    } else if tok == kw_fontmatrix_key() {
        WalkKey::Matrix
    } else if tok == kw_encoding_key() {
        WalkKey::Encoding
    } else if tok == kw_eexec() {
        WalkKey::Eexec
    } else if tok == kw_private_key() {
        WalkKey::Private
    } else {
        WalkKey::Other
    }
}

/// A spec-level parsed font program.
pub struct SpecTable {
    /// The six FontMatrix tokens, when the program declared a matrix.
    pub font_matrix: Option<Seq<Seq<u8>>>,
    /// How codes map to names.
    pub encoding: SpecEncoding,
    /// The decrypted local subroutines, by index.
    pub subrs: Seq<Seq<u8>>,
    /// Each glyph name with its decrypted CharString.
    pub char_strings: Seq<(Seq<u8>, Seq<u8>)>,
    /// How many random bytes lead every CharString plaintext.
    pub len_iv: int,
}

/// Whether a parsed table realizes a spec-level one.
pub open spec fn table_matches(t: Table, a: SpecTable) -> bool {
    &&& match a.font_matrix {
        Some(m) => t.font_matrix matches Some(v) && spec_token_views(v@) == m,
        None => t.font_matrix is None,
    }
    &&& encoding_matches(t.encoding, a.encoding)
    &&& spec_token_views(t.subrs@) == a.subrs
    &&& spec_pair_views(t.char_strings@) == a.char_strings
    &&& t.len_iv == a.len_iv
}

/// What walking a font program from `off` yields, with the FontMatrix and
/// Encoding seen so far. Keys other than the recognized ones are tolerated;
/// `eexec` decrypts the rest of the buffer and reads the Private items from
/// the plaintext; a cleartext `/Private` reads them in place. `None` when a
/// recognized key carries a malformed value, or when the program ends
/// before an `eexec` or `/Private` section.
pub open spec fn spec_walk(
    data: Seq<u8>,
    off: int,
    fm: Option<Seq<Seq<u8>>>,
    enc: SpecEncoding,
) -> Option<SpecTable>
    decreases data.len() - off,
{
    match crate::type1::scanner::spec_next_token(data, off) {
        None => None,
        Some(t) => match spec_walk_key(t.0) {
            WalkKey::Dict => {
                proof {
                    crate::type1::scanner::lemma_scan_advances(data, off, false);
                    lemma_skip_dict_bounds(data, t.1, 0);
                }
                spec_walk(data, spec_skip_dict(data, t.1, 0), fm, enc)
            },
            WalkKey::OneValue => {
                proof {
                    crate::type1::scanner::lemma_scan_advances(data, off, false);
                    crate::type1::scanner::lemma_scan_advances(data, t.1, false);
                }
                spec_walk(
                    data,
                    match crate::type1::scanner::spec_next_token(data, t.1) {
                        None => data.len() as int,
                        Some(u) => u.1,
                    },
                    fm,
                    enc,
                )
            },
            WalkKey::Matrix => match spec_read_font_matrix(data, t.1) {
                None => None,
                Some(m) => {
                    proof {
                        crate::type1::scanner::lemma_scan_advances(data, off, false);
                        lemma_read_font_matrix_bounds(data, t.1);
                    }
                    spec_walk(data, m.1, Some(m.0), enc)
                },
            },
            WalkKey::Encoding => match spec_read_encoding(data, t.1) {
                None => None,
                Some(res) => {
                    proof {
                        crate::type1::scanner::lemma_scan_advances(data, off, false);
                        lemma_read_encoding_bounds(data, t.1);
                    }
                    spec_walk(data, res.1, fm, res.0)
                },
            },
            WalkKey::Eexec => if t.1 >= data.len() {
                None
            } else {
                match crate::type1::cipher::spec_eexec_plain(
                    data.subrange(t.1 + 1, data.len() as int),
                ) {
                    None => None,
                    Some(plain) => match spec_private_items(
                        plain,
                        0,
                        4,
                        Seq::empty(),
                        Seq::empty(),
                    ) {
                        None => None,
                        Some(p) => Some(
                            SpecTable {
                                font_matrix: fm,
                                encoding: enc,
                                subrs: p.1,
                                char_strings: p.2,
                                len_iv: p.0,
                            },
                        ),
                    },
                }
            },
            WalkKey::Private => match spec_private_items(data, t.1, 4, Seq::empty(), Seq::empty()) {
                None => None,
                Some(p) => Some(
                    SpecTable {
                        font_matrix: fm,
                        encoding: enc,
                        subrs: p.1,
                        char_strings: p.2,
                        len_iv: p.0,
                    },
                ),
            },
            WalkKey::Other => {
                proof {
                    crate::type1::scanner::lemma_scan_advances(data, off, false);
                }
                spec_walk(data, t.1, fm, enc)
            },
        },
    }
}

impl<'a> Stream<'a> {
    /// Skips tokens until `find` is consumed (true) or a stop token was
    /// consumed or the stream ran out (false).
    pub fn skip_until(&mut self, find: &[u8], stop: &[&[u8]]) -> (r: bool)
        requires
            old(self).offset <= old(self).data@.len(),
        ensures
            final(self).data@ == old(self).data@,
            old(self).offset <= final(self).offset <= final(self).data@.len(),
            (r, final(self).offset as int) == spec_skip_until(
                old(self).data@,
                old(self).offset as int,
                find@,
                spec_views(stop@),
            ),
    {
        loop
            invariant
                self.data@ == old(self).data@,
                old(self).offset <= self.offset <= self.data@.len(),
                spec_skip_until(self.data@, self.offset as int, find@, spec_views(stop@))
                    == spec_skip_until(
                    old(self).data@,
                    old(self).offset as int,
                    find@,
                    spec_views(stop@),
                ),
            decreases self.data@.len() - self.offset,
        {
            let token = match self.next_token() {
                Some(t) => t,
                None => {
                    return false;
                },
            };
            if bytes_eq(token, find) {
                return true;
            }
            if token_in(token, stop) {
                return false;
            }
        }
    }

    /// Skips tokens until `find` is the next token, leaving it unconsumed
    /// (true); stops after consuming a stop token or at the end (false).
    pub fn skip_until_before(&mut self, find: &[u8], stop: &[&[u8]]) -> (r: bool)
        requires
            old(self).offset <= old(self).data@.len(),
        ensures
            final(self).data@ == old(self).data@,
            old(self).offset <= final(self).offset <= final(self).data@.len(),
            (r, final(self).offset as int) == spec_skip_before(
                old(self).data@,
                old(self).offset as int,
                find@,
                spec_views(stop@),
            ),
    {
        loop
            invariant
                self.data@ == old(self).data@,
                old(self).offset <= self.offset <= self.data@.len(),
                spec_skip_before(self.data@, self.offset as int, find@, spec_views(stop@))
                    == spec_skip_before(
                    old(self).data@,
                    old(self).offset as int,
                    find@,
                    spec_views(stop@),
                ),
            decreases self.data@.len() - self.offset,
        {
            let token = match self.peek_token() {
                Some(t) => t,
                None => {
                    let _ = self.next_token();
                    return false;
                },
            };
            if bytes_eq(token, find) {
                return true;
            }
            let _ = self.next_token();
            if token_in(token, stop) {
                return false;
            }
        }
    }

    /// Skips a dictionary: finds its `begin` and then the matching `end`,
    /// balancing any nested `begin`/`end` pairs. Tolerates a missing
    /// dictionary by running to the end of the stream.
    pub fn skip_dict(&mut self)
        requires
            old(self).offset <= old(self).data@.len(),
        ensures
            final(self).data@ == old(self).data@,
            old(self).offset <= final(self).offset <= final(self).data@.len(),
            final(self).offset as int == spec_skip_dict(
                old(self).data@,
                old(self).offset as int,
                0,
            ),
    {
        let mut depth: u32 = 0;
        loop
            invariant
                self.data@ == old(self).data@,
                old(self).offset <= self.offset <= self.data@.len(),
                spec_skip_dict(self.data@, self.offset as int, depth) == spec_skip_dict(
                    old(self).data@,
                    old(self).offset as int,
                    0,
                ),
            decreases self.data@.len() - self.offset,
        {
            let token = match self.next_token() {
                Some(t) => t,
                None => {
                    return ;
                },
            };
            if bytes_eq(token, [0x62u8, 0x65u8, 0x67u8, 0x69u8, 0x6Eu8].as_slice()) {  // "begin"
                proof {
                    assert(token@ =~= kw_begin());
                }
                if depth < u32::MAX {
                    depth = depth + 1;
                }
            } else if bytes_eq(token, [0x65u8, 0x6Eu8, 0x64u8].as_slice()) {  // "end"
                proof {
                    assert(token@ =~= kw_end());
                }
                if depth <= 1 {
                    return ;
                }
                depth = depth - 1;
            } else {
                proof {
                    assert(token@ != kw_begin() && token@ != kw_end());
                }
            }
        }
    }

    /// Reads the FontMatrix value: a `[`, six numeric tokens, and a `]`.
    /// The six tokens are returned as they were spelled.
    pub fn read_font_matrix(&mut self) -> (r: Result<Vec<Vec<u8>>, Error>)
        requires
            old(self).offset <= old(self).data@.len(),
        ensures
            final(self).data@ == old(self).data@,
            old(self).offset <= final(self).offset <= final(self).data@.len(),
            match spec_read_font_matrix(old(self).data@, old(self).offset as int) {
                Some(m) => r matches Ok(v) && spec_token_views(v@) == m.0 && final(self).offset
                    == m.1,
                None => r is Err,
            },
            r matches Ok(m) ==> m@.len() == 6,
            r matches Err(e) ==> e != Error::BadMagic,
    {
        let open_tok = match self.next_token() {
            Some(t) => t,
            None => {
                return Err(Error::ReadOutOfBounds);
            },
        };
        let bracket_open: &[u8] = [0x5Bu8].as_slice();  // "["
        proof {
            assert(bracket_open@ =~= kw_array_open());
        }
        if !bytes_eq(open_tok, bracket_open) {
            return Err(Error::UnexpectedToken(slice_to_vec(bracket_open), slice_to_vec(open_tok)));
        }
        let ghost goal = spec_number_tokens(self.data@, self.offset as int, 6);
        let mut entries: Vec<Vec<u8>> = Vec::new();
        proof {
            match goal {
                Some(g) => {
                    assert(spec_token_views(entries@) + g.0 =~= g.0);
                },
                None => {},
            }
        }
        while entries.len() < 6
            invariant
                self.data@ == old(self).data@,
                old(self).offset <= self.offset <= self.data@.len(),
                entries@.len() <= 6,
                match crate::type1::scanner::spec_next_token(
                    old(self).data@,
                    old(self).offset as int,
                ) {
                    Some(t) => t.0 == kw_array_open() && goal == spec_number_tokens(
                        old(self).data@,
                        t.1,
                        6,
                    ),
                    None => false,
                },
                match spec_number_tokens(
                    self.data@,
                    self.offset as int,
                    (6 - entries@.len()) as nat,
                ) {
                    Some(rest) => goal matches Some(g) && g.0 == spec_token_views(entries@)
                        + rest.0 && g.1 == rest.1,
                    None => goal is None,
                },
            decreases 6 - entries@.len(),
        {
            let ghost cur = self.offset as int;
            let ghost done = entries@;
            let token = match self.next_token() {
                Some(t) => t,
                None => {
                    return Err(Error::ReadOutOfBounds);
                },
            };
            if !is_number_token(token) {
                return Err(Error::UnexpectedToken(Vec::new(), slice_to_vec(token)));
            }
            entries.push(slice_to_vec(token));
            proof {
                assert(spec_token_views(entries@) =~= spec_token_views(done).push(token@));
                match spec_number_tokens(
                    self.data@,
                    self.offset as int,
                    (6 - entries@.len()) as nat,
                ) {
                    Some(rest) => {
                        assert(spec_token_views(done) + (seq![token@] + rest.0)
                            =~= spec_token_views(entries@) + rest.0);
                    },
                    None => {},
                }
            }
        }
        proof {
            match goal {
                Some(g) => {
                    assert(g.0 =~= spec_token_views(entries@));
                },
                None => {},
            }
        }
        let close_tok = match self.next_token() {
            Some(t) => t,
            None => {
                return Err(Error::ReadOutOfBounds);
            },
        };
        let bracket_close: &[u8] = [0x5Du8].as_slice();  // "]"
        proof {
            assert(bracket_close@ =~= kw_array_close());
        }
        if !bytes_eq(close_tok, bracket_close) {
            return Err(
                Error::UnexpectedToken(slice_to_vec(bracket_close), slice_to_vec(close_tok)),
            );
        }
        Ok(entries)
    }

    /// Reads the Encoding value: either `StandardEncoding def`, or a custom
    /// table of `dup <code> /<name> put` entries ending at `def`,
    /// `readonly` or `noaccess`. A later entry for a code wins.
    pub fn read_encoding(&mut self) -> (r: Result<EncodingType, Error>)
        requires
            old(self).offset <= old(self).data@.len(),
        ensures
            final(self).data@ == old(self).data@,
            old(self).offset <= final(self).offset <= final(self).data@.len(),
            match spec_read_encoding(old(self).data@, old(self).offset as int) {
                Some(res) => r matches Ok(e) && encoding_matches(e, res.0) && final(self).offset
                    == res.1,
                None => r is Err,
            },
            r matches Ok(e) ==> e.wf(),
            r matches Err(e) ==> e != Error::BadMagic,
    {
        let t1 = match self.next_token() {
            Some(t) => t,
            None => {
                return Err(Error::ReadOutOfBounds);
            },
        };
        let t2 = match self.next_token() {
            Some(t) => t,
            None => {
                return Err(Error::ReadOutOfBounds);
            },
        };
        let std_kw: &[u8] = [
            0x53u8, 0x74u8, 0x61u8, 0x6Eu8, 0x64u8, 0x61u8, 0x72u8, 0x64u8, 0x45u8, 0x6Eu8, 0x63u8,
            0x6Fu8, 0x64u8, 0x69u8, 0x6Eu8, 0x67u8,
        ].as_slice();  // "StandardEncoding"
        let def_kw: &[u8] = [0x64u8, 0x65u8, 0x66u8].as_slice();  // "def"
        let readonly_kw: &[u8] = [
            0x72u8, 0x65u8, 0x61u8, 0x64u8, 0x6Fu8, 0x6Eu8, 0x6Cu8, 0x79u8,
        ].as_slice();  // "readonly"
        let noaccess_kw: &[u8] = [
            0x6Eu8, 0x6Fu8, 0x61u8, 0x63u8, 0x63u8, 0x65u8, 0x73u8, 0x73u8,
        ].as_slice();  // "noaccess"
        let dup_kw: &[u8] = [0x64u8, 0x75u8, 0x70u8].as_slice();  // "dup"
        let put_kw: &[u8] = [0x70u8, 0x75u8, 0x74u8].as_slice();  // "put"
        proof {
            assert(std_kw@ =~= kw_standard_encoding());
            assert(def_kw@ =~= kw_def());
            assert(readonly_kw@ =~= kw_readonly());
            assert(noaccess_kw@ =~= kw_noaccess());
            assert(dup_kw@ =~= kw_dup());
            assert(put_kw@ =~= kw_put());
        }
        if bytes_eq(t1, std_kw) && bytes_eq(t2, def_kw) {
            return Ok(EncodingType::Standard);
        }
        let stops = [def_kw, readonly_kw, noaccess_kw];
        proof {
            assert(spec_views(stops@) =~= spec_encoding_stops());
        }
        let mut table: Vec<Option<Vec<u8>>> = Vec::new();
        while table.len() < 256
            invariant
                table@.len() <= 256,
                forall|j: int| 0 <= j < table@.len() ==> table@[j] is None,
            decreases 256 - table@.len(),
        {
            table.push(None);
        }
        proof {
            assert(spec_table_view(table@) =~= spec_empty_table());
        }
        if !self.skip_until_before(dup_kw, stops.as_slice()) {
            return Ok(EncodingType::Custom(table));
        }
        let ghost goal = spec_read_encoding(old(self).data@, old(self).offset as int);
        proof {
            assert(match spec_encoding_entries(
                self.data@,
                self.offset as int,
                spec_table_view(table@),
            ) {
                Some(res) => goal == Some((SpecEncoding::Custom(res.0), res.1)),
                None => goal is None,
            });
        }
        loop
            invariant
                self.data@ == old(self).data@,
                old(self).offset <= self.offset <= self.data@.len(),
                table@.len() == 256,
                goal == spec_read_encoding(old(self).data@, old(self).offset as int),
                match spec_encoding_entries(
                    self.data@,
                    self.offset as int,
                    spec_table_view(table@),
                ) {
                    Some(res) => goal == Some((SpecEncoding::Custom(res.0), res.1)),
                    None => goal is None,
                },
            decreases self.data@.len() - self.offset,
        {
            let def_kw: &[u8] = [0x64u8, 0x65u8, 0x66u8].as_slice();  // "def"
            let readonly_kw: &[u8] = [
                0x72u8, 0x65u8, 0x61u8, 0x64u8, 0x6Fu8, 0x6Eu8, 0x6Cu8, 0x79u8,
            ].as_slice();  // "readonly"
            let noaccess_kw: &[u8] = [
                0x6Eu8, 0x6Fu8, 0x61u8, 0x63u8, 0x63u8, 0x65u8, 0x73u8, 0x73u8,
            ].as_slice();  // "noaccess"
            let dup_kw: &[u8] = [0x64u8, 0x75u8, 0x70u8].as_slice();  // "dup"
            let put_kw: &[u8] = [0x70u8, 0x75u8, 0x74u8].as_slice();  // "put"
            let stops = [def_kw, readonly_kw, noaccess_kw];
            proof {
                assert(def_kw@ =~= kw_def());
                assert(readonly_kw@ =~= kw_readonly());
                assert(noaccess_kw@ =~= kw_noaccess());
                assert(dup_kw@ =~= kw_dup());
                assert(put_kw@ =~= kw_put());
                assert(spec_views(stops@) =~= spec_encoding_stops());
            }
            let ghost pre_table = table@;
            let token = match self.next_token() {
                Some(t) => t,
                None => {
                    return Ok(EncodingType::Custom(table));
                },
            };
            if token_in(token, stops.as_slice()) {
                return Ok(EncodingType::Custom(table));
            }
            if !bytes_eq(token, dup_kw) {
                return Err(Error::UnexpectedToken(slice_to_vec(dup_kw), slice_to_vec(token)));
            }
            let code_tok = match self.next_token() {
                Some(t) => t,
                None => {
                    return Err(Error::ReadOutOfBounds);
                },
            };
            let code = match crate::type1::scanner::parse_int_token(code_tok) {
                Some(v) => v,
                None => {
                    return Err(Error::UnexpectedToken(int_marker(), slice_to_vec(code_tok)));
                },
            };
            if code < 0 || code > 255 {
                return Err(Error::UnexpectedToken(int_marker(), slice_to_vec(code_tok)));
            }
            let name_tok = match self.next_token() {
                Some(t) => t,
                None => {
                    return Err(Error::ReadOutOfBounds);
                },
            };
            if name_tok.len() < 2 || name_tok[0] != 0x2F {  // names start with '/'
                return Err(
                    Error::UnexpectedToken(
                        slice_to_vec([0x2Fu8].as_slice()),
                        slice_to_vec(name_tok),
                    ),
                );
            }
            let name = slice_to_vec(slice_subrange(name_tok, 1, name_tok.len()));
            let put_tok = match self.next_token() {
                Some(t) => t,
                None => {
                    return Err(Error::ReadOutOfBounds);
                },
            };
            if !bytes_eq(put_tok, put_kw) {
                return Err(Error::UnexpectedToken(slice_to_vec(put_kw), slice_to_vec(put_tok)));
            }
            table[code as usize] = Some(name);
            proof {
                assert(name@ =~= name_tok@.skip(1));
                assert(spec_table_view(table@) =~= spec_table_view(pre_table).update(
                    code as int,
                    Some(name_tok@.skip(1)),
                ));
            }
        }
    }

    /// Reads one Subrs entry after its `dup` token: the index and length,
    /// the `RD` keyword, one whitespace byte, the payload, and the entry's
    /// ending token. The decrypted payload lands at its declared slot.
    /// Returns whether a `noaccess def` ended the whole table.
    #[verifier::rlimit(100)]
    fn read_subr_entry(
        &mut self,
        num_subrs: i32,
        len_iv: usize,
        subroutines: &mut Vec<Vec<u8>>,
    ) -> (r: Result<bool, Error>)
        requires
            old(self).offset <= old(self).data@.len(),
            1 <= num_subrs,
            old(subroutines)@.len() <= num_subrs,
        ensures
            final(self).data@ == old(self).data@,
            old(self).offset <= final(self).offset <= final(self).data@.len(),
            final(subroutines)@.len() <= num_subrs,
            match spec_subr_entry_after_dup(
                old(self).data@,
                old(self).offset as int,
                num_subrs as int,
                len_iv as int,
                spec_token_views(old(subroutines)@),
            ) {
                SubrStep::Bad => r is Err,
                SubrStep::Done(tb, o) => r == Ok::<bool, Error>(true) && spec_token_views(
                    final(subroutines)@,
                ) == tb && final(self).offset == o,
                SubrStep::More(tb, o) => r == Ok::<bool, Error>(false) && spec_token_views(
                    final(subroutines)@,
                ) == tb && final(self).offset == o,
            },
            r matches Err(e) ==> e != Error::BadMagic,
    {
        let noaccess_kw: &[u8] = [
            0x6Eu8, 0x6Fu8, 0x61u8, 0x63u8, 0x63u8, 0x65u8, 0x73u8, 0x73u8,
        ].as_slice();  // "noaccess"
        let def_kw: &[u8] = [0x64u8, 0x65u8, 0x66u8].as_slice();  // "def"
        let put_kw: &[u8] = [0x70u8, 0x75u8, 0x74u8].as_slice();  // "put"
        let rd_kw: &[u8] = [0x52u8, 0x44u8].as_slice();  // "RD"
        let rd_alt_kw: &[u8] = [0x2Du8, 0x7Cu8].as_slice();  // "-|"
        let np_kw: &[u8] = [0x4Eu8, 0x50u8].as_slice();  // "NP"
        let np_alt_kw: &[u8] = [0x7Cu8].as_slice();  // "|"
        proof {
            assert(noaccess_kw@ =~= kw_noaccess());
            assert(def_kw@ =~= kw_def());
            assert(put_kw@ =~= kw_put());
            assert(rd_kw@ =~= kw_rd());
            assert(rd_alt_kw@ =~= kw_rd_alt());
            assert(np_kw@ =~= kw_np());
            assert(np_alt_kw@ =~= kw_np_alt());
        }
        let ghost pre = subroutines@;
        let idx_tok = match self.next_token() {
            Some(t) => t,
            None => {
                return Err(Error::ReadOutOfBounds);
            },
        };
        let subr_idx = match crate::type1::scanner::parse_int_token(idx_tok) {
            Some(v) => v,
            None => {
                return Err(Error::UnexpectedToken(int_marker(), slice_to_vec(idx_tok)));
            },
        };
        let len_tok = match self.next_token() {
            Some(t) => t,
            None => {
                return Err(Error::ReadOutOfBounds);
            },
        };
        let bin_len = match crate::type1::scanner::parse_int_token(len_tok) {
            Some(v) => v,
            None => {
                return Err(Error::UnexpectedToken(int_marker(), slice_to_vec(len_tok)));
            },
        };
        if subr_idx < 0 || subr_idx >= num_subrs {
            return Err(Error::UnexpectedToken(int_marker(), slice_to_vec(idx_tok)));
        }
        if bin_len < 0 {
            return Err(Error::UnexpectedToken(int_marker(), slice_to_vec(len_tok)));
        }
        let rd_tok = match self.next_token() {
            Some(t) => t,
            None => {
                return Err(Error::ReadOutOfBounds);
            },
        };
        if !(bytes_eq(rd_tok, rd_kw) || bytes_eq(rd_tok, rd_alt_kw)) {
            return Err(Error::UnexpectedToken(slice_to_vec(rd_kw), slice_to_vec(rd_tok)));
        }
        // Exactly one whitespace byte separates RD from the payload.
        match self.read_byte() {
            Some(_) => {},
            None => {
                return Err(Error::ReadOutOfBounds);
            },
        }
        let encrypted = match self.read_bytes(bin_len as usize) {
            Some(b) => b,
            None => {
                return Err(Error::ReadOutOfBounds);
            },
        };
        if len_iv > encrypted.len() {
            return Err(Error::DecryptFailed);
        }
        let plain = decrypt_charstring(encrypted, len_iv);
        proof {
            assert(spec_token_views(subroutines@) =~= spec_token_views(pre) + Seq::new(
                (subroutines@.len() - pre.len()) as nat,
                |j: int| Seq::<u8>::empty(),
            ));
        }
        while subroutines.len() <= subr_idx as usize
            invariant
                0 <= subr_idx < num_subrs,
                pre.len() <= subroutines@.len() <= num_subrs,
                subroutines@.len() <= subr_idx + 1 || subroutines@.len() == pre.len(),
                spec_token_views(subroutines@) == spec_token_views(pre) + Seq::new(
                    (subroutines@.len() - pre.len()) as nat,
                    |j: int| Seq::<u8>::empty(),
                ),
            decreases num_subrs - subroutines@.len(),
        {
            let ghost before = subroutines@;
            subroutines.push(Vec::new());
            proof {
                assert forall|k: int| 0 <= k < subroutines@.len() implies spec_token_views(
                    subroutines@,
                )[k] == (spec_token_views(pre) + Seq::new(
                    (subroutines@.len() - pre.len()) as nat,
                    |j: int| Seq::<u8>::empty(),
                ))[k] by {
                    if k < before.len() {
                        assert(subroutines@[k] == before[k]);
                        assert(spec_token_views(before)[k] == (spec_token_views(pre) + Seq::new(
                            (before.len() - pre.len()) as nat,
                            |j: int| Seq::<u8>::empty(),
                        ))[k]);
                    } else {
                        assert(subroutines@[k]@ =~= Seq::<u8>::empty());
                    }
                }
                assert(spec_token_views(subroutines@) =~= spec_token_views(pre) + Seq::new(
                    (subroutines@.len() - pre.len()) as nat,
                    |j: int| Seq::<u8>::empty(),
                ));
            }
        }
        let ghost padded = subroutines@;
        subroutines[subr_idx as usize] = plain;
        proof {
            let target = spec_store_at(spec_token_views(pre), subr_idx as int, plain@);
            if (subr_idx as int) < pre.len() {
                assert(padded.len() == pre.len());
            } else {
                assert(padded.len() == subr_idx + 1);
            }
            assert forall|k: int|
                0 <= k < subroutines@.len() implies spec_token_views(subroutines@)[k]
                == target[k] by {
                if k != subr_idx as int {
                    assert(subroutines@[k] == padded[k]);
                    assert(spec_token_views(padded)[k] == (spec_token_views(pre) + Seq::new(
                        (padded.len() - pre.len()) as nat,
                        |j: int| Seq::<u8>::empty(),
                    ))[k]);
                }
            }
            assert(spec_token_views(subroutines@) =~= target);
        }
        let end_tok = match self.next_token() {
            Some(t) => t,
            None => {
                return Err(Error::ReadOutOfBounds);
            },
        };
        if bytes_eq(end_tok, np_kw) || bytes_eq(end_tok, np_alt_kw) {
            // The entry is complete.
            Ok(false)
        } else if bytes_eq(end_tok, noaccess_kw) {
            let t2 = match self.next_token() {
                Some(t) => t,
                None => {
                    return Err(Error::ReadOutOfBounds);
                },
            };
            if bytes_eq(t2, def_kw) {
                return Ok(true);
            }
            if !bytes_eq(t2, put_kw) {
                return Err(Error::UnexpectedToken(slice_to_vec(put_kw), slice_to_vec(t2)));
            }
            Ok(false)
        } else {
            return Err(Error::UnexpectedToken(slice_to_vec(np_kw), slice_to_vec(end_tok)));
        }
    }

    /// Reads the Subrs table: `<n> array`, then `n` entries of the form
    /// `dup <idx> <len> RD <one whitespace byte> <len bytes> NP`, each
    /// payload decrypted with the CharString cipher and stored at its
    /// index. `-|` stands for `RD`, `|` for `NP`, and `noaccess put` /
    /// `noaccess def` are accepted in place of `NP`.
    #[verifier::rlimit(100)]
    #[verifier::spinoff_prover]
    pub fn parse_subroutines(&mut self, len_iv: usize) -> (r: Result<Vec<Vec<u8>>, Error>)
        requires
            old(self).offset <= old(self).data@.len(),
        ensures
            final(self).data@ == old(self).data@,
            old(self).offset <= final(self).offset <= final(self).data@.len(),
            match spec_parse_subroutines(
                old(self).data@,
                old(self).offset as int,
                len_iv as int,
            ) {
                Some(res) => r matches Ok(v) && spec_token_views(v@) == res.0 && final(self).offset
                    == res.1,
                None => r is Err,
            },
            r matches Err(e) ==> e != Error::BadMagic,
    {
        let count_tok = match self.next_token() {
            Some(t) => t,
            None => {
                return Err(Error::ReadOutOfBounds);
            },
        };
        let num_subrs = match crate::type1::scanner::parse_int_token(count_tok) {
            Some(v) => v,
            None => {
                return Err(Error::UnexpectedToken(int_marker(), slice_to_vec(count_tok)));
            },
        };
        let mut subroutines: Vec<Vec<u8>> = Vec::new();
        if num_subrs < 1 {
            proof {
                assert(spec_token_views(subroutines@) =~= Seq::<Seq<u8>>::empty());
            }
            return Ok(subroutines);
        }
        let nd_kw: &[u8] = [0x4Eu8, 0x44u8].as_slice();  // "ND"
        let nd_alt_kw: &[u8] = [0x7Cu8, 0x2Du8].as_slice();  // "|-"
        let noaccess_kw: &[u8] = [
            0x6Eu8, 0x6Fu8, 0x61u8, 0x63u8, 0x63u8, 0x65u8, 0x73u8, 0x73u8,
        ].as_slice();  // "noaccess"
        let dup_kw: &[u8] = [0x64u8, 0x75u8, 0x70u8].as_slice();  // "dup"
        proof {
            assert(nd_kw@ =~= kw_nd());
            assert(nd_alt_kw@ =~= kw_nd_alt());
            assert(noaccess_kw@ =~= kw_noaccess());
            assert(dup_kw@ =~= kw_dup());
        }
        let stops = [nd_kw, nd_alt_kw, noaccess_kw];
        proof {
            assert(spec_views(stops@) =~= spec_subr_stops());
        }
        if !self.skip_until_before(dup_kw, stops.as_slice()) {
            proof {
                assert(spec_token_views(subroutines@) =~= Seq::<Seq<u8>>::empty());
            }
            return Ok(subroutines);
        }
        let ghost goal = spec_parse_subroutines(
            old(self).data@,
            old(self).offset as int,
            len_iv as int,
        );
        proof {
            assert(spec_token_views(subroutines@) =~= Seq::<Seq<u8>>::empty());
        }
        loop
            invariant
                self.data@ == old(self).data@,
                old(self).offset <= self.offset <= self.data@.len(),
                1 <= num_subrs,
                subroutines@.len() <= num_subrs,
                goal == spec_parse_subroutines(
                    old(self).data@,
                    old(self).offset as int,
                    len_iv as int,
                ),
                match spec_subr_entries(
                    self.data@,
                    self.offset as int,
                    num_subrs as int,
                    len_iv as int,
                    spec_token_views(subroutines@),
                ) {
                    Some(res) => goal == Some(res),
                    None => goal is None,
                },
            decreases self.data@.len() - self.offset,
        {
            let nd_kw: &[u8] = [0x4Eu8, 0x44u8].as_slice();  // "ND"
            let nd_alt_kw: &[u8] = [0x7Cu8, 0x2Du8].as_slice();  // "|-"
            let noaccess_kw: &[u8] = [
                0x6Eu8, 0x6Fu8, 0x61u8, 0x63u8, 0x63u8, 0x65u8, 0x73u8, 0x73u8,
            ].as_slice();  // "noaccess"
            let dup_kw: &[u8] = [0x64u8, 0x75u8, 0x70u8].as_slice();  // "dup"
            let def_kw: &[u8] = [0x64u8, 0x65u8, 0x66u8].as_slice();  // "def"
            let put_kw: &[u8] = [0x70u8, 0x75u8, 0x74u8].as_slice();  // "put"
            let rd_kw: &[u8] = [0x52u8, 0x44u8].as_slice();  // "RD"
            let rd_alt_kw: &[u8] = [0x2Du8, 0x7Cu8].as_slice();  // "-|"
            let np_kw: &[u8] = [0x4Eu8, 0x50u8].as_slice();  // "NP"
            let np_alt_kw: &[u8] = [0x7Cu8].as_slice();  // "|"
            proof {
                assert(nd_kw@ =~= kw_nd());
                assert(nd_alt_kw@ =~= kw_nd_alt());
                assert(noaccess_kw@ =~= kw_noaccess());
                assert(dup_kw@ =~= kw_dup());
                assert(def_kw@ =~= kw_def());
                assert(put_kw@ =~= kw_put());
                assert(rd_kw@ =~= kw_rd());
                assert(rd_alt_kw@ =~= kw_rd_alt());
                assert(np_kw@ =~= kw_np());
                assert(np_alt_kw@ =~= kw_np_alt());
            }
            let token = match self.next_token() {
                Some(t) => t,
                None => {
                    return Ok(subroutines);
                },
            };
            if bytes_eq(token, nd_kw) || bytes_eq(token, nd_alt_kw) {
                return Ok(subroutines);
            }
            if bytes_eq(token, noaccess_kw) {
                let t2 = match self.next_token() {
                    Some(t) => t,
                    None => {
                        return Err(Error::ReadOutOfBounds);
                    },
                };
                if bytes_eq(t2, def_kw) {
                    return Ok(subroutines);
                }
                return Err(Error::UnexpectedToken(slice_to_vec(def_kw), slice_to_vec(t2)));
            }
            if !bytes_eq(token, dup_kw) {
                return Err(Error::UnexpectedToken(slice_to_vec(dup_kw), slice_to_vec(token)));
            }
            match self.read_subr_entry(num_subrs, len_iv, &mut subroutines) {
                Ok(true) => {
                    return Ok(subroutines);
                },
                Ok(false) => {},
                Err(e) => {
                    return Err(e);
                },
            }
        }
    }

    /// Reads one CharStrings entry after its `/<name>` token: the length,
    /// the `RD` keyword, one whitespace byte, the payload and its `ND`
    /// ending; the payload comes back decrypted.
    fn read_cs_entry(&mut self, len_iv: usize) -> (r: Result<Vec<u8>, Error>)
        requires
            old(self).offset <= old(self).data@.len(),
        ensures
            final(self).data@ == old(self).data@,
            old(self).offset <= final(self).offset <= final(self).data@.len(),
            match spec_cs_entry_after_name(old(self).data@, old(self).offset as int, len_iv as int) {
                Some(e) => r matches Ok(v) && v@ == e.0 && final(self).offset == e.1,
                None => r is Err,
            },
            r matches Err(e) ==> e != Error::BadMagic,
    {
        let rd_kw: &[u8] = [0x52u8, 0x44u8].as_slice();  // "RD"
        let rd_alt_kw: &[u8] = [0x2Du8, 0x7Cu8].as_slice();  // "-|"
        let nd_kw: &[u8] = [0x4Eu8, 0x44u8].as_slice();  // "ND"
        let nd_alt_kw: &[u8] = [0x7Cu8, 0x2Du8].as_slice();  // "|-"
        proof {
            assert(rd_kw@ =~= kw_rd());
            assert(rd_alt_kw@ =~= kw_rd_alt());
            assert(nd_kw@ =~= kw_nd());
            assert(nd_alt_kw@ =~= kw_nd_alt());
        }
        let len_tok = match self.next_token() {
            Some(t) => t,
            None => {
                return Err(Error::ReadOutOfBounds);
            },
        };
        let bin_len = match crate::type1::scanner::parse_int_token(len_tok) {
            Some(v) => v,
            None => {
                return Err(Error::UnexpectedToken(int_marker(), slice_to_vec(len_tok)));
            },
        };
        if bin_len < 0 {
            return Err(Error::UnexpectedToken(int_marker(), slice_to_vec(len_tok)));
        }
        let rd_tok = match self.next_token() {
            Some(t) => t,
            None => {
                return Err(Error::ReadOutOfBounds);
            },
        };
        if !(bytes_eq(rd_tok, rd_kw) || bytes_eq(rd_tok, rd_alt_kw)) {
            return Err(Error::UnexpectedToken(slice_to_vec(rd_kw), slice_to_vec(rd_tok)));
        }
        // Exactly one whitespace byte separates RD from the payload.
        match self.read_byte() {
            Some(_) => {},
            None => {
                return Err(Error::ReadOutOfBounds);
            },
        }
        let encrypted = match self.read_bytes(bin_len as usize) {
            Some(b) => b,
            None => {
                return Err(Error::ReadOutOfBounds);
            },
        };
        if len_iv > encrypted.len() {
            return Err(Error::DecryptFailed);
        }
        let plain = decrypt_charstring(encrypted, len_iv);
        let end_tok = match self.next_token() {
            Some(t) => t,
            None => {
                return Err(Error::ReadOutOfBounds);
            },
        };
        if !(bytes_eq(end_tok, nd_kw) || bytes_eq(end_tok, nd_alt_kw)) {
            return Err(Error::UnexpectedToken(slice_to_vec(nd_kw), slice_to_vec(end_tok)));
        }
        Ok(plain)
    }

    /// Reads the CharStrings dictionary: `<n> dict`, then entries of the
    /// form `/<name> <len> RD <one whitespace byte> <len bytes> ND` until
    /// `end` or the end of the stream; other tokens between entries are
    /// tolerated. `-|` stands for `RD`, `|-` for `ND`.
    pub fn parse_char_strings(&mut self, len_iv: usize) -> (r: Result<Vec<(Vec<u8>, Vec<u8>)>, Error>)
        requires
            old(self).offset <= old(self).data@.len(),
        ensures
            final(self).data@ == old(self).data@,
            old(self).offset <= final(self).offset <= final(self).data@.len(),
            match spec_parse_char_strings(
                old(self).data@,
                old(self).offset as int,
                len_iv as int,
            ) {
                Some(res) => r matches Ok(v) && spec_pair_views(v@) == res.0 && final(self).offset
                    == res.1,
                None => r is Err,
            },
            r matches Err(e) ==> e != Error::BadMagic,
    {
        let count_tok = match self.next_token() {
            Some(t) => t,
            None => {
                return Err(Error::ReadOutOfBounds);
            },
        };
        let num = match crate::type1::scanner::parse_int_token(count_tok) {
            Some(v) => v,
            None => {
                return Err(Error::UnexpectedToken(int_marker(), slice_to_vec(count_tok)));
            },
        };
        if num < 0 {
            return Err(Error::UnexpectedToken(int_marker(), slice_to_vec(count_tok)));
        }
        let ghost goal = spec_parse_char_strings(
            old(self).data@,
            old(self).offset as int,
            len_iv as int,
        );
        let mut out: Vec<(Vec<u8>, Vec<u8>)> = Vec::new();
        proof {
            assert(spec_pair_views(out@) =~= Seq::<(Seq<u8>, Seq<u8>)>::empty());
        }
        loop
            invariant
                self.data@ == old(self).data@,
                old(self).offset <= self.offset <= self.data@.len(),
                goal == spec_parse_char_strings(
                    old(self).data@,
                    old(self).offset as int,
                    len_iv as int,
                ),
                match spec_cs_entries(
                    self.data@,
                    self.offset as int,
                    len_iv as int,
                    spec_pair_views(out@),
                ) {
                    Some(res) => goal == Some(res),
                    None => goal is None,
                },
            decreases self.data@.len() - self.offset,
        {
            let end_kw: &[u8] = [0x65u8, 0x6Eu8, 0x64u8].as_slice();  // "end"
            proof {
                assert(end_kw@ =~= kw_end());
            }
            let token = match self.next_token() {
                Some(t) => t,
                None => {
                    return Ok(out);
                },
            };
            if bytes_eq(token, end_kw) {
                return Ok(out);
            }
            if token.len() >= 2 && token[0] == 0x2F {  // a glyph name
                let name = slice_to_vec(slice_subrange(token, 1, token.len()));
                let ghost pre = out@;
                let plain = match self.read_cs_entry(len_iv) {
                    Ok(p) => p,
                    Err(e) => {
                        return Err(e);
                    },
                };
                proof {
                    assert(name@ =~= token@.skip(1));
                }
                out.push((name, plain));
                proof {
                    assert(spec_pair_views(out@) =~= spec_pair_views(pre).push(
                        (token@.skip(1), plain@),
                    ));
                }
            }
            // Anything else between entries (dict, dup, begin) is skipped.
        }
    }

}

/// Whether a token body is made of digits and decimal points.
pub open spec fn spec_number_body_ok(d: Seq<u8>) -> bool {
    &&& d.len() >= 1
    &&& forall|i: int|
        0 <= i < d.len() ==> (crate::type1::scanner::spec_is_digit(#[trigger] d[i]) || d[i] == 0x2E)
}

/// Whether a token spells a number: an optional sign, then digits and
/// decimal points.
pub open spec fn spec_is_number_token(t: Seq<u8>) -> bool {
    if t.len() >= 1 && (t[0] == 0x2D || t[0] == 0x2B) {
        spec_number_body_ok(t.skip(1))
    } else {
        spec_number_body_ok(t)
    }
}

/// Whether a token spells a number.
fn is_number_token(t: &[u8]) -> (r: bool)
    ensures
        r == spec_is_number_token(t@),
{
    let start: usize = if t.len() >= 1 && (t[0] == 0x2D || t[0] == 0x2B) {
        1
    } else {
        0
    };
    let ghost d = if t@.len() >= 1 && (t@[0] == 0x2D || t@[0] == 0x2B) {
        t@.skip(1)
    } else {
        t@
    };
    if t.len() == start {
        return false;
    }
    let mut i = start;
    while i < t.len()
        invariant
            start <= i <= t@.len(),
            start == if t@.len() >= 1 && (t@[0] == 0x2D || t@[0] == 0x2B) { 1int } else { 0int },
            d == if t@.len() >= 1 && (t@[0] == 0x2D || t@[0] == 0x2B) { t@.skip(1) } else { t@ },
            forall|j: int|
                0 <= j < i - start ==> (crate::type1::scanner::spec_is_digit(#[trigger] d[j]) || d[j]
                    == 0x2E),
        decreases t@.len() - i,
    {
        let c = t[i];
        if !((0x30 <= c && c <= 0x39) || c == 0x2E) {
            proof {
                assert(d[i - start] == t@[i as int]);
                assert(!(crate::type1::scanner::spec_is_digit(d[i - start]) || d[i - start]
                    == 0x2E));
                assert(!spec_number_body_ok(d));
            }
            return false;
        }
        proof {
            assert(d[i - start] == t@[i as int]);
        }
        i = i + 1;
    }
    proof {
        assert(spec_number_body_ok(d));
    }
    true
}

/// Builds the parsed table from its harvested parts.
fn assemble_table(
    font_matrix: Option<Vec<Vec<u8>>>,
    encoding: EncodingType,
    len_iv: usize,
    subrs: Vec<Vec<u8>>,
    char_strings: Vec<(Vec<u8>, Vec<u8>)>,
) -> (t: Table)
    requires
        encoding.wf(),
        font_matrix matches Some(m) ==> m@.len() == 6,
    ensures
        t.wf(),
        table_matches(
            t,
            SpecTable {
                font_matrix: Table::spec_fm_views(font_matrix),
                encoding: spec_encoding_abs(encoding),
                subrs: spec_token_views(subrs@),
                char_strings: spec_pair_views(char_strings@),
                len_iv: len_iv as int,
            },
        ),
{
    Table { font_matrix, encoding, subrs, char_strings, len_iv }
}

/// Reads the eexec section that follows its keyword: one whitespace byte,
/// then the decrypted remainder of the buffer walked as a Private
/// dictionary.
fn read_eexec_private(s: &mut Stream) -> (r: Result<
    (usize, Vec<Vec<u8>>, Vec<(Vec<u8>, Vec<u8>)>),
    Error,
>)
    requires
        old(s).offset <= old(s).data@.len(),
    ensures
        final(s).data@ == old(s).data@,
        old(s).offset <= final(s).offset <= final(s).data@.len(),
        match (if old(s).offset >= old(s).data@.len() {
            None
        } else {
            match crate::type1::cipher::spec_eexec_plain(
                old(s).data@.subrange(old(s).offset + 1, old(s).data@.len() as int),
            ) {
                None => None,
                Some(plain) => spec_private_items(plain, 0, 4, Seq::empty(), Seq::empty()),
            }
        }) {
            Some(p) => r matches Ok(v) && v.0 as int == p.0 && spec_token_views(v.1@) == p.1
                && spec_pair_views(v.2@) == p.2,
            None => r is Err,
        },
        r matches Err(e) ==> e != Error::BadMagic,
{
    // Exactly one whitespace byte follows `eexec`; the rest is ciphertext.
    match s.read_byte() {
        Some(_) => {},
        None => {
            return Err(Error::ReadOutOfBounds);
        },
    }
    let tail = match s.tail() {
        Some(t) => t,
        None => {
            return Err(Error::ReadOutOfBounds);
        },
    };
    let plain = match decrypt(tail) {
        Ok(p) => p,
        Err(e) => {
            return Err(e);
        },
    };
    let mut ps = Stream::new(plain.as_slice());
    parse_private_items(&mut ps)
}


/// A parsed Type 1 font program.
///
/// The table owns the decrypted Private-dictionary material: every glyph's
/// CharString, the local subroutines, the encoding and the FontMatrix
/// tokens.
#[derive(Debug)]
pub struct Table {
    /// The six FontMatrix entries, as the font program spelled them.
    pub font_matrix: Option<Vec<Vec<u8>>>,
    /// How character codes map to glyph names.
    pub encoding: EncodingType,
    /// The decrypted local subroutines, by index.
    pub subrs: Vec<Vec<u8>>,
    /// Each glyph name with its decrypted CharString.
    pub char_strings: Vec<(Vec<u8>, Vec<u8>)>,
    /// How many random bytes lead every CharString plaintext.
    pub len_iv: usize,
}

impl Table {
    /// The table's shape: a well-formed encoding, and six FontMatrix
    /// entries when there are any.
    pub open spec fn wf(&self) -> bool {
        &&& self.encoding.wf()
        &&& (self.font_matrix matches Some(m) ==> m@.len() == 6)
    }

    /// The spec-level FontMatrix tokens a harvested matrix realizes.
    pub open spec fn spec_fm_views(fm: Option<Vec<Vec<u8>>>) -> Option<Seq<Seq<u8>>> {
        match fm {
            Some(m) => Some(spec_token_views(m@)),
            None => None,
        }
    }

    /// Parses a table from the raw bytes of a Type 1 font program.
    ///
    /// Fails with `BadMagic` exactly when the program does not start with
    /// `%!`. Otherwise the result is fixed by the spec-level walk of the
    /// program: `Ok` exactly when the walk reaches an `eexec` or `/Private`
    /// section with every recognized key well-formed, and then the table
    /// holds the declared FontMatrix tokens, the declared encoding, and the
    /// decrypted Subrs and CharStrings read with the declared `lenIV`
    /// (4 when none is declared).
    #[verifier::rlimit(100)]
    pub fn parse(data: &[u8]) -> (r: Result<Table, Error>)
        ensures
            (r == Err::<Table, Error>(Error::BadMagic)) <==> !spec_has_magic(data@),
            spec_has_magic(data@) ==> match spec_walk(data@, 0, None, SpecEncoding::Standard) {
                Some(a) => r matches Ok(t) && table_matches(t, a),
                None => r is Err,
            },
            r matches Ok(t) ==> t.wf(),
    {
        if data.len() < 2 || data[0] != 0x25 || data[1] != 0x21 {
            return Err(Error::BadMagic);
        }
        let mut s = Stream::new(data);
        let mut font_matrix: Option<Vec<Vec<u8>>> = None;
        let mut encoding = EncodingType::Standard;
        let ghost goal = spec_walk(data@, 0, None, SpecEncoding::Standard);
        loop
            invariant
                s.data@ == data@,
                s.offset <= s.data@.len(),
                spec_has_magic(data@),
                font_matrix matches Some(m) ==> m@.len() == 6,
                encoding.wf(),
                goal == spec_walk(data@, 0, None, SpecEncoding::Standard),
                spec_walk(
                    s.data@,
                    s.offset as int,
                    Table::spec_fm_views(font_matrix),
                    spec_encoding_abs(encoding),
                ) == goal,
            decreases s.data@.len() - s.offset,
        {
            let token = match s.next_token() {
                Some(t) => t,
                None => {
                    // The program ended before its Private dictionary.
                    return Err(Error::ReadOutOfBounds);
                },
            };
            match walk_key(token) {
                WalkKey::Dict => {
                    s.skip_dict();
                },
                WalkKey::OneValue => {
                    s.skip_token();
                },
                WalkKey::Matrix => {
                    match s.read_font_matrix() {
                        Ok(m) => {
                            font_matrix = Some(m);
                        },
                        Err(e) => {
                            return Err(e);
                        },
                    }
                },
                WalkKey::Encoding => {
                    let ghost pre_off = s.offset as int;
                    match s.read_encoding() {
                        Ok(e) => {
                            proof {
                                match spec_read_encoding(s.data@, pre_off) {
                                    Some(res) => {
                                        assert(spec_encoding_abs(e) == res.0);
                                    },
                                    None => {},
                                }
                            }
                            encoding = e;
                        },
                        Err(e) => {
                            return Err(e);
                        },
                    }
                },
                WalkKey::Eexec => {
                    match read_eexec_private(&mut s) {
                        Ok((iv, su, cs)) => {
                            return Ok(assemble_table(font_matrix, encoding, iv, su, cs));
                        },
                        Err(e) => {
                            return Err(e);
                        },
                    }
                },
                WalkKey::Private => {
                    // A cleartext Private dictionary.
                    match parse_private_items(&mut s) {
                        Ok((iv, su, cs)) => {
                            return Ok(assemble_table(font_matrix, encoding, iv, su, cs));
                        },
                        Err(e) => {
                            return Err(e);
                        },
                    }
                },
                WalkKey::Other => {
                    // Unknown keys are tolerated.
                },
            }
        }
    }


    /// The glyph name the table's encoding binds to `code`, or `None` when
    /// `code` is unencoded.
    pub fn code_to_name(&self, code: u8) -> (r: Option<Vec<u8>>)
        requires
            self.wf(),
        ensures
            match self.encoding.spec_lookup(code) {
                Some(n) => r matches Some(v) && v@ == n,
                None => r is None,
            },
    {
        self.encoding.lookup(code)
    }

    /// Renders the glyph bound to `code` as a sequence of drawing calls,
    /// with the advance width the CharString implies and the bounding box.
    ///
    /// Fails with `InvalidSeacCode` when `code` names no glyph of this
    /// table, and with the interpreter's own error otherwise. On success
    /// the calls form a well-shaped path: the first call is a move, every
    /// later move directly follows a close, and closes and moves balance.
    pub fn glyph_commands(&self, code: u8) -> (r: Result<
        (Vec<DrawCall>, Option<Fixed>, Rect),
        Error,
    >)
        requires
            self.wf(),
        ensures
            r matches Ok(t) ==> path_complete_ok(t.0@) && t.0@.len() > 0,
            self.encoding.spec_lookup(code) is None ==> r == Err::<
                (Vec<DrawCall>, Option<Fixed>, Rect),
                Error,
            >(Error::InvalidSeacCode),
            (self.encoding.spec_lookup(code) matches Some(n) && spec_assoc_lookup(
                self.char_strings@,
                n,
            ) is None) ==> r == Err::<(Vec<DrawCall>, Option<Fixed>, Rect), Error>(
                Error::InvalidSeacCode,
            ),
    {
        let name = match self.code_to_name(code) {
            Some(n) => n,
            None => {
                return Err(Error::InvalidSeacCode);
            },
        };
        let cs = match find_char_string(&self.char_strings, name.as_slice()) {
            Some(c) => c,
            None => {
                return Err(Error::InvalidSeacCode);
            },
        };
        parse_char_string(cs.as_slice(), &self.subrs, &self.char_strings)
    }

    /// Renders the glyph bound to `code` into the caller's outline sink and
    /// returns the advance width the CharString implies, if any.
    ///
    /// Fails with `InvalidSeacCode` when `code` names no glyph of this
    /// table, and with the interpreter's own error otherwise.
    pub fn outline<B: OutlineBuilder>(&self, code: u8, builder: &mut B) -> (r: Result<
        Option<Fixed>,
        Error,
    >)
        requires
            self.wf(),
        ensures
            self.encoding.spec_lookup(code) is None ==> r == Err::<Option<Fixed>, Error>(
                Error::InvalidSeacCode,
            ),
            (self.encoding.spec_lookup(code) matches Some(n) && spec_assoc_lookup(
                self.char_strings@,
                n,
            ) is None) ==> r == Err::<Option<Fixed>, Error>(Error::InvalidSeacCode),
    {
        let (calls, width, _rect) = match self.glyph_commands(code) {
            Ok(t) => t,
            Err(e) => {
                return Err(e);
            },
        };
        let mut i: usize = 0;
        while i < calls.len()
            invariant
                i <= calls@.len(),
            decreases calls@.len() - i,
        {
            match calls[i] {
                DrawCall::MoveTo(x, y) => builder.move_to(x, y),
                DrawCall::LineTo(x, y) => builder.line_to(x, y),
                DrawCall::QuadTo(x1, y1, x, y) => builder.quad_to(x1, y1, x, y),
                DrawCall::CurveTo(x1, y1, x2, y2, x, y) => builder.curve_to(x1, y1, x2, y2, x, y),
                DrawCall::Close => builder.close(),
            }
            i = i + 1;
        }
        Ok(width)
    }
}

/// Reads the items of a Private dictionary from the stream: the last
/// `/lenIV`, and the `/Subrs` and `/CharStrings` tables, each read with the
/// `lenIV` in force when its key came; everything else is tolerated and
/// skipped.
fn parse_private_items(s: &mut Stream) -> (r: Result<
    (usize, Vec<Vec<u8>>, Vec<(Vec<u8>, Vec<u8>)>),
    Error,
>)
    requires
        old(s).offset <= old(s).data@.len(),
    ensures
        final(s).data@ == old(s).data@,
        old(s).offset <= final(s).offset <= final(s).data@.len(),
        match spec_private_items(
            old(s).data@,
            old(s).offset as int,
            4,
            Seq::empty(),
            Seq::empty(),
        ) {
            Some(p) => r matches Ok(v) && v.0 as int == p.0 && spec_token_views(v.1@) == p.1
                && spec_pair_views(v.2@) == p.2,
            None => r is Err,
        },
        r matches Err(e) ==> e != Error::BadMagic,
{
    let mut len_iv: usize = 4;
    let mut subrs: Vec<Vec<u8>> = Vec::new();
    let mut char_strings: Vec<(Vec<u8>, Vec<u8>)> = Vec::new();
    let ghost goal = spec_private_items(
        old(s).data@,
        old(s).offset as int,
        4,
        Seq::empty(),
        Seq::empty(),
    );
    proof {
        assert(spec_token_views(subrs@) =~= Seq::<Seq<u8>>::empty());
        assert(spec_pair_views(char_strings@) =~= Seq::<(Seq<u8>, Seq<u8>)>::empty());
    }
    loop
        invariant
            s.data@ == old(s).data@,
            old(s).offset <= s.offset <= s.data@.len(),
            goal == spec_private_items(
                old(s).data@,
                old(s).offset as int,
                4,
                Seq::empty(),
                Seq::empty(),
            ),
            match spec_private_items(
                s.data@,
                s.offset as int,
                len_iv as int,
                spec_token_views(subrs@),
                spec_pair_views(char_strings@),
            ) {
                Some(p) => goal == Some(p),
                None => goal is None,
            },
        decreases s.data@.len() - s.offset,
    {
        let subrs_kw: &[u8] = [0x2Fu8, 0x53u8, 0x75u8, 0x62u8, 0x72u8, 0x73u8].as_slice();  // "/Subrs"
        let leniv_kw: &[u8] = [0x2Fu8, 0x6Cu8, 0x65u8, 0x6Eu8, 0x49u8, 0x56u8].as_slice();  // "/lenIV"
        let charstrings_kw: &[u8] = [
            0x2Fu8, 0x43u8, 0x68u8, 0x61u8, 0x72u8, 0x53u8, 0x74u8, 0x72u8, 0x69u8, 0x6Eu8, 0x67u8,
            0x73u8,
        ].as_slice();  // "/CharStrings"
        proof {
            assert(subrs_kw@ =~= kw_subrs_key());
            assert(leniv_kw@ =~= kw_leniv_key());
            assert(charstrings_kw@ =~= kw_charstrings_key());
        }
        let token = match s.next_token() {
            Some(t) => t,
            None => {
                return Ok((len_iv, subrs, char_strings));
            },
        };
        if bytes_eq(token, subrs_kw) {
            match s.parse_subroutines(len_iv) {
                Ok(v) => {
                    subrs = v;
                },
                Err(e) => {
                    return Err(e);
                },
            }
        } else if bytes_eq(token, leniv_kw) {
            let v_tok = match s.next_token() {
                Some(t) => t,
                None => {
                    return Err(Error::ReadOutOfBounds);
                },
            };
            let v = match crate::type1::scanner::parse_int_token(v_tok) {
                Some(v) => v,
                None => {
                    return Err(Error::UnexpectedToken(int_marker(), slice_to_vec(v_tok)));
                },
            };
            if v < 0 {
                return Err(Error::UnexpectedToken(int_marker(), slice_to_vec(v_tok)));
            }
            len_iv = v as usize;
        } else if bytes_eq(token, charstrings_kw) {
            match s.parse_char_strings(len_iv) {
                Ok(v) => {
                    char_strings = v;
                },
                Err(e) => {
                    return Err(e);
                },
            }
        } else {
            // Unknown keys are tolerated.
        }
    }
}

} // verus!
