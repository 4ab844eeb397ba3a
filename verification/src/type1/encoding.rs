//! Code-to-glyph-name encodings.
//!
//! A Type 1 font binds each of the 256 character codes to a glyph name,
//! either through Adobe's canonical Standard Encoding or through a custom
//! table read from the font program.
use vstd::prelude::*;

verus! {

/// The glyph name Adobe's Standard Encoding binds to `code`, or `None` for
/// an unencoded code.
pub open spec fn spec_standard_name(code: u8) -> Option<Seq<u8>> {
    match code {
        32 => Some(seq![0x73u8, 0x70u8, 0x61u8, 0x63u8, 0x65u8]),  // space
        33 => Some(seq![0x65u8, 0x78u8, 0x63u8, 0x6Cu8, 0x61u8, 0x6Du8]),  // exclam
        34 => Some(seq![0x71u8, 0x75u8, 0x6Fu8, 0x74u8, 0x65u8, 0x64u8, 0x62u8, 0x6Cu8]),  // quotedbl
        35 => Some(seq![0x6Eu8, 0x75u8, 0x6Du8, 0x62u8, 0x65u8, 0x72u8, 0x73u8, 0x69u8, 0x67u8, 0x6Eu8]),  // numbersign
        36 => Some(seq![0x64u8, 0x6Fu8, 0x6Cu8, 0x6Cu8, 0x61u8, 0x72u8]),  // dollar
        37 => Some(seq![0x70u8, 0x65u8, 0x72u8, 0x63u8, 0x65u8, 0x6Eu8, 0x74u8]),  // percent
        38 => Some(seq![0x61u8, 0x6Du8, 0x70u8, 0x65u8, 0x72u8, 0x73u8, 0x61u8, 0x6Eu8, 0x64u8]),  // ampersand
        39 => Some(seq![0x71u8, 0x75u8, 0x6Fu8, 0x74u8, 0x65u8, 0x72u8, 0x69u8, 0x67u8, 0x68u8, 0x74u8]),  // quoteright
        40 => Some(seq![0x70u8, 0x61u8, 0x72u8, 0x65u8, 0x6Eu8, 0x6Cu8, 0x65u8, 0x66u8, 0x74u8]),  // parenleft
        41 => Some(seq![0x70u8, 0x61u8, 0x72u8, 0x65u8, 0x6Eu8, 0x72u8, 0x69u8, 0x67u8, 0x68u8, 0x74u8]),  // parenright
        42 => Some(seq![0x61u8, 0x73u8, 0x74u8, 0x65u8, 0x72u8, 0x69u8, 0x73u8, 0x6Bu8]),  // asterisk
        43 => Some(seq![0x70u8, 0x6Cu8, 0x75u8, 0x73u8]),  // plus
        44 => Some(seq![0x63u8, 0x6Fu8, 0x6Du8, 0x6Du8, 0x61u8]),  // comma
        45 => Some(seq![0x68u8, 0x79u8, 0x70u8, 0x68u8, 0x65u8, 0x6Eu8]),  // hyphen
        46 => Some(seq![0x70u8, 0x65u8, 0x72u8, 0x69u8, 0x6Fu8, 0x64u8]),  // period
        47 => Some(seq![0x73u8, 0x6Cu8, 0x61u8, 0x73u8, 0x68u8]),  // slash
        48 => Some(seq![0x7Au8, 0x65u8, 0x72u8, 0x6Fu8]),  // zero
        49 => Some(seq![0x6Fu8, 0x6Eu8, 0x65u8]),  // one
        50 => Some(seq![0x74u8, 0x77u8, 0x6Fu8]),  // two
        51 => Some(seq![0x74u8, 0x68u8, 0x72u8, 0x65u8, 0x65u8]),  // three
        52 => Some(seq![0x66u8, 0x6Fu8, 0x75u8, 0x72u8]),  // four
        53 => Some(seq![0x66u8, 0x69u8, 0x76u8, 0x65u8]),  // five
        54 => Some(seq![0x73u8, 0x69u8, 0x78u8]),  // six
        55 => Some(seq![0x73u8, 0x65u8, 0x76u8, 0x65u8, 0x6Eu8]),  // seven
        56 => Some(seq![0x65u8, 0x69u8, 0x67u8, 0x68u8, 0x74u8]),  // eight
        57 => Some(seq![0x6Eu8, 0x69u8, 0x6Eu8, 0x65u8]),  // nine
        58 => Some(seq![0x63u8, 0x6Fu8, 0x6Cu8, 0x6Fu8, 0x6Eu8]),  // colon
        59 => Some(seq![0x73u8, 0x65u8, 0x6Du8, 0x69u8, 0x63u8, 0x6Fu8, 0x6Cu8, 0x6Fu8, 0x6Eu8]),  // semicolon
        60 => Some(seq![0x6Cu8, 0x65u8, 0x73u8, 0x73u8]),  // less
        61 => Some(seq![0x65u8, 0x71u8, 0x75u8, 0x61u8, 0x6Cu8]),  // equal
        62 => Some(seq![0x67u8, 0x72u8, 0x65u8, 0x61u8, 0x74u8, 0x65u8, 0x72u8]),  // greater
        63 => Some(seq![0x71u8, 0x75u8, 0x65u8, 0x73u8, 0x74u8, 0x69u8, 0x6Fu8, 0x6Eu8]),  // question
        64 => Some(seq![0x61u8, 0x74u8]),  // at
        65 => Some(seq![0x41u8]),  // A
        66 => Some(seq![0x42u8]),  // B
        67 => Some(seq![0x43u8]),  // C
        68 => Some(seq![0x44u8]),  // D
        69 => Some(seq![0x45u8]),  // E
        70 => Some(seq![0x46u8]),  // F
        71 => Some(seq![0x47u8]),  // G
        72 => Some(seq![0x48u8]),  // H
        73 => Some(seq![0x49u8]),  // I
        74 => Some(seq![0x4Au8]),  // J
        75 => Some(seq![0x4Bu8]),  // K
        76 => Some(seq![0x4Cu8]),  // L
        77 => Some(seq![0x4Du8]),  // M
        78 => Some(seq![0x4Eu8]),  // N
        79 => Some(seq![0x4Fu8]),  // O
        80 => Some(seq![0x50u8]),  // P
        81 => Some(seq![0x51u8]),  // Q
        82 => Some(seq![0x52u8]),  // R
        83 => Some(seq![0x53u8]),  // S
        84 => Some(seq![0x54u8]),  // T
        85 => Some(seq![0x55u8]),  // U
        86 => Some(seq![0x56u8]),  // V
        87 => Some(seq![0x57u8]),  // W
        88 => Some(seq![0x58u8]),  // X
        89 => Some(seq![0x59u8]),  // Y
        90 => Some(seq![0x5Au8]),  // Z
        91 => Some(seq![0x62u8, 0x72u8, 0x61u8, 0x63u8, 0x6Bu8, 0x65u8, 0x74u8, 0x6Cu8, 0x65u8, 0x66u8, 0x74u8]),  // bracketleft
        92 => Some(seq![0x62u8, 0x61u8, 0x63u8, 0x6Bu8, 0x73u8, 0x6Cu8, 0x61u8, 0x73u8, 0x68u8]),  // backslash
        93 => Some(seq![0x62u8, 0x72u8, 0x61u8, 0x63u8, 0x6Bu8, 0x65u8, 0x74u8, 0x72u8, 0x69u8, 0x67u8, 0x68u8, 0x74u8]),  // bracketright
        94 => Some(seq![0x61u8, 0x73u8, 0x63u8, 0x69u8, 0x69u8, 0x63u8, 0x69u8, 0x72u8, 0x63u8, 0x75u8, 0x6Du8]),  // asciicircum
        95 => Some(seq![0x75u8, 0x6Eu8, 0x64u8, 0x65u8, 0x72u8, 0x73u8, 0x63u8, 0x6Fu8, 0x72u8, 0x65u8]),  // underscore
        96 => Some(seq![0x71u8, 0x75u8, 0x6Fu8, 0x74u8, 0x65u8, 0x6Cu8, 0x65u8, 0x66u8, 0x74u8]),  // quoteleft
        97 => Some(seq![0x61u8]),  // a
        98 => Some(seq![0x62u8]),  // b
        99 => Some(seq![0x63u8]),  // c
        100 => Some(seq![0x64u8]),  // d
        101 => Some(seq![0x65u8]),  // e
        102 => Some(seq![0x66u8]),  // f
        103 => Some(seq![0x67u8]),  // g
        104 => Some(seq![0x68u8]),  // h
        105 => Some(seq![0x69u8]),  // i
        106 => Some(seq![0x6Au8]),  // j
        107 => Some(seq![0x6Bu8]),  // k
        108 => Some(seq![0x6Cu8]),  // l
        109 => Some(seq![0x6Du8]),  // m
        110 => Some(seq![0x6Eu8]),  // n
        111 => Some(seq![0x6Fu8]),  // o
        112 => Some(seq![0x70u8]),  // p
        113 => Some(seq![0x71u8]),  // q
        114 => Some(seq![0x72u8]),  // r
        115 => Some(seq![0x73u8]),  // s
        116 => Some(seq![0x74u8]),  // t
        117 => Some(seq![0x75u8]),  // u
        118 => Some(seq![0x76u8]),  // v
        119 => Some(seq![0x77u8]),  // w
        120 => Some(seq![0x78u8]),  // x
        121 => Some(seq![0x79u8]),  // y
        122 => Some(seq![0x7Au8]),  // z
        123 => Some(seq![0x62u8, 0x72u8, 0x61u8, 0x63u8, 0x65u8, 0x6Cu8, 0x65u8, 0x66u8, 0x74u8]),  // braceleft
        124 => Some(seq![0x62u8, 0x61u8, 0x72u8]),  // bar
        125 => Some(seq![0x62u8, 0x72u8, 0x61u8, 0x63u8, 0x65u8, 0x72u8, 0x69u8, 0x67u8, 0x68u8, 0x74u8]),  // braceright
        126 => Some(seq![0x61u8, 0x73u8, 0x63u8, 0x69u8, 0x69u8, 0x74u8, 0x69u8, 0x6Cu8, 0x64u8, 0x65u8]),  // asciitilde
        161 => Some(seq![0x65u8, 0x78u8, 0x63u8, 0x6Cu8, 0x61u8, 0x6Du8, 0x64u8, 0x6Fu8, 0x77u8, 0x6Eu8]),  // exclamdown
        162 => Some(seq![0x63u8, 0x65u8, 0x6Eu8, 0x74u8]),  // cent
        163 => Some(seq![0x73u8, 0x74u8, 0x65u8, 0x72u8, 0x6Cu8, 0x69u8, 0x6Eu8, 0x67u8]),  // sterling
        164 => Some(seq![0x66u8, 0x72u8, 0x61u8, 0x63u8, 0x74u8, 0x69u8, 0x6Fu8, 0x6Eu8]),  // fraction
        165 => Some(seq![0x79u8, 0x65u8, 0x6Eu8]),  // yen
        166 => Some(seq![0x66u8, 0x6Cu8, 0x6Fu8, 0x72u8, 0x69u8, 0x6Eu8]),  // florin
        167 => Some(seq![0x73u8, 0x65u8, 0x63u8, 0x74u8, 0x69u8, 0x6Fu8, 0x6Eu8]),  // section
        168 => Some(seq![0x63u8, 0x75u8, 0x72u8, 0x72u8, 0x65u8, 0x6Eu8, 0x63u8, 0x79u8]),  // currency
        169 => Some(seq![0x71u8, 0x75u8, 0x6Fu8, 0x74u8, 0x65u8, 0x73u8, 0x69u8, 0x6Eu8, 0x67u8, 0x6Cu8, 0x65u8]),  // quotesingle
        170 => Some(seq![0x71u8, 0x75u8, 0x6Fu8, 0x74u8, 0x65u8, 0x64u8, 0x62u8, 0x6Cu8, 0x6Cu8, 0x65u8, 0x66u8, 0x74u8]),  // quotedblleft
        171 => Some(seq![0x67u8, 0x75u8, 0x69u8, 0x6Cu8, 0x6Cu8, 0x65u8, 0x6Du8, 0x6Fu8, 0x74u8, 0x6Cu8, 0x65u8, 0x66u8, 0x74u8]),  // guillemotleft
        172 => Some(seq![0x67u8, 0x75u8, 0x69u8, 0x6Cu8, 0x73u8, 0x69u8, 0x6Eu8, 0x67u8, 0x6Cu8, 0x6Cu8, 0x65u8, 0x66u8, 0x74u8]),  // guilsinglleft
        173 => Some(seq![0x67u8, 0x75u8, 0x69u8, 0x6Cu8, 0x73u8, 0x69u8, 0x6Eu8, 0x67u8, 0x6Cu8, 0x72u8, 0x69u8, 0x67u8, 0x68u8, 0x74u8]),  // guilsinglright
        174 => Some(seq![0x66u8, 0x69u8]),  // fi
        175 => Some(seq![0x66u8, 0x6Cu8]),  // fl
        177 => Some(seq![0x65u8, 0x6Eu8, 0x64u8, 0x61u8, 0x73u8, 0x68u8]),  // endash
        178 => Some(seq![0x64u8, 0x61u8, 0x67u8, 0x67u8, 0x65u8, 0x72u8]),  // dagger
        179 => Some(seq![0x64u8, 0x61u8, 0x67u8, 0x67u8, 0x65u8, 0x72u8, 0x64u8, 0x62u8, 0x6Cu8]),  // daggerdbl
        180 => Some(seq![0x70u8, 0x65u8, 0x72u8, 0x69u8, 0x6Fu8, 0x64u8, 0x63u8, 0x65u8, 0x6Eu8, 0x74u8, 0x65u8, 0x72u8, 0x65u8, 0x64u8]),  // periodcentered
        182 => Some(seq![0x70u8, 0x61u8, 0x72u8, 0x61u8, 0x67u8, 0x72u8, 0x61u8, 0x70u8, 0x68u8]),  // paragraph
        183 => Some(seq![0x62u8, 0x75u8, 0x6Cu8, 0x6Cu8, 0x65u8, 0x74u8]),  // bullet
        184 => Some(seq![0x71u8, 0x75u8, 0x6Fu8, 0x74u8, 0x65u8, 0x73u8, 0x69u8, 0x6Eu8, 0x67u8, 0x6Cu8, 0x62u8, 0x61u8, 0x73u8, 0x65u8]),  // quotesinglbase
        185 => Some(seq![0x71u8, 0x75u8, 0x6Fu8, 0x74u8, 0x65u8, 0x64u8, 0x62u8, 0x6Cu8, 0x62u8, 0x61u8, 0x73u8, 0x65u8]),  // quotedblbase
        186 => Some(seq![0x71u8, 0x75u8, 0x6Fu8, 0x74u8, 0x65u8, 0x64u8, 0x62u8, 0x6Cu8, 0x72u8, 0x69u8, 0x67u8, 0x68u8, 0x74u8]),  // quotedblright
        187 => Some(seq![0x67u8, 0x75u8, 0x69u8, 0x6Cu8, 0x6Cu8, 0x65u8, 0x6Du8, 0x6Fu8, 0x74u8, 0x72u8, 0x69u8, 0x67u8, 0x68u8, 0x74u8]),  // guillemotright
        188 => Some(seq![0x65u8, 0x6Cu8, 0x6Cu8, 0x69u8, 0x70u8, 0x73u8, 0x69u8, 0x73u8]),  // ellipsis
        189 => Some(seq![0x70u8, 0x65u8, 0x72u8, 0x74u8, 0x68u8, 0x6Fu8, 0x75u8, 0x73u8, 0x61u8, 0x6Eu8, 0x64u8]),  // perthousand
        191 => Some(seq![0x71u8, 0x75u8, 0x65u8, 0x73u8, 0x74u8, 0x69u8, 0x6Fu8, 0x6Eu8, 0x64u8, 0x6Fu8, 0x77u8, 0x6Eu8]),  // questiondown
        193 => Some(seq![0x67u8, 0x72u8, 0x61u8, 0x76u8, 0x65u8]),  // grave
        194 => Some(seq![0x61u8, 0x63u8, 0x75u8, 0x74u8, 0x65u8]),  // acute
        195 => Some(seq![0x63u8, 0x69u8, 0x72u8, 0x63u8, 0x75u8, 0x6Du8, 0x66u8, 0x6Cu8, 0x65u8, 0x78u8]),  // circumflex
        196 => Some(seq![0x74u8, 0x69u8, 0x6Cu8, 0x64u8, 0x65u8]),  // tilde
        197 => Some(seq![0x6Du8, 0x61u8, 0x63u8, 0x72u8, 0x6Fu8, 0x6Eu8]),  // macron
        198 => Some(seq![0x62u8, 0x72u8, 0x65u8, 0x76u8, 0x65u8]),  // breve
        199 => Some(seq![0x64u8, 0x6Fu8, 0x74u8, 0x61u8, 0x63u8, 0x63u8, 0x65u8, 0x6Eu8, 0x74u8]),  // dotaccent
        200 => Some(seq![0x64u8, 0x69u8, 0x65u8, 0x72u8, 0x65u8, 0x73u8, 0x69u8, 0x73u8]),  // dieresis
        202 => Some(seq![0x72u8, 0x69u8, 0x6Eu8, 0x67u8]),  // ring
        203 => Some(seq![0x63u8, 0x65u8, 0x64u8, 0x69u8, 0x6Cu8, 0x6Cu8, 0x61u8]),  // cedilla
        205 => Some(seq![0x68u8, 0x75u8, 0x6Eu8, 0x67u8, 0x61u8, 0x72u8, 0x75u8, 0x6Du8, 0x6Cu8, 0x61u8, 0x75u8, 0x74u8]),  // hungarumlaut
        206 => Some(seq![0x6Fu8, 0x67u8, 0x6Fu8, 0x6Eu8, 0x65u8, 0x6Bu8]),  // ogonek
        207 => Some(seq![0x63u8, 0x61u8, 0x72u8, 0x6Fu8, 0x6Eu8]),  // caron
        208 => Some(seq![0x65u8, 0x6Du8, 0x64u8, 0x61u8, 0x73u8, 0x68u8]),  // emdash
        225 => Some(seq![0x41u8, 0x45u8]),  // AE
        227 => Some(seq![0x6Fu8, 0x72u8, 0x64u8, 0x66u8, 0x65u8, 0x6Du8, 0x69u8, 0x6Eu8, 0x69u8, 0x6Eu8, 0x65u8]),  // ordfeminine
        232 => Some(seq![0x4Cu8, 0x73u8, 0x6Cu8, 0x61u8, 0x73u8, 0x68u8]),  // Lslash
        233 => Some(seq![0x4Fu8, 0x73u8, 0x6Cu8, 0x61u8, 0x73u8, 0x68u8]),  // Oslash
        234 => Some(seq![0x4Fu8, 0x45u8]),  // OE
        235 => Some(seq![0x6Fu8, 0x72u8, 0x64u8, 0x6Du8, 0x61u8, 0x73u8, 0x63u8, 0x75u8, 0x6Cu8, 0x69u8, 0x6Eu8, 0x65u8]),  // ordmasculine
        241 => Some(seq![0x61u8, 0x65u8]),  // ae
        245 => Some(seq![0x64u8, 0x6Fu8, 0x74u8, 0x6Cu8, 0x65u8, 0x73u8, 0x73u8, 0x69u8]),  // dotlessi
        248 => Some(seq![0x6Cu8, 0x73u8, 0x6Cu8, 0x61u8, 0x73u8, 0x68u8]),  // lslash
        249 => Some(seq![0x6Fu8, 0x73u8, 0x6Cu8, 0x61u8, 0x73u8, 0x68u8]),  // oslash
        250 => Some(seq![0x6Fu8, 0x65u8]),  // oe
        251 => Some(seq![0x67u8, 0x65u8, 0x72u8, 0x6Du8, 0x61u8, 0x6Eu8, 0x64u8, 0x62u8, 0x6Cu8, 0x73u8]),  // germandbls
        _ => None,
    }
}

/// The glyph name Adobe's Standard Encoding binds to `code`.
#[verifier::rlimit(100)]
pub fn standard_encoding_name(code: u8) -> (r: Option<Vec<u8>>)
    ensures
        match spec_standard_name(code) {
            Some(n) => r matches Some(v) && v@ == n,
            None => r is None,
        },
{
    match code {
        32 => Some(vec![0x73u8, 0x70u8, 0x61u8, 0x63u8, 0x65u8]),  // space
        33 => Some(vec![0x65u8, 0x78u8, 0x63u8, 0x6Cu8, 0x61u8, 0x6Du8]),  // exclam
        34 => Some(vec![0x71u8, 0x75u8, 0x6Fu8, 0x74u8, 0x65u8, 0x64u8, 0x62u8, 0x6Cu8]),  // quotedbl
        35 => Some(vec![0x6Eu8, 0x75u8, 0x6Du8, 0x62u8, 0x65u8, 0x72u8, 0x73u8, 0x69u8, 0x67u8, 0x6Eu8]),  // numbersign
        36 => Some(vec![0x64u8, 0x6Fu8, 0x6Cu8, 0x6Cu8, 0x61u8, 0x72u8]),  // dollar
        37 => Some(vec![0x70u8, 0x65u8, 0x72u8, 0x63u8, 0x65u8, 0x6Eu8, 0x74u8]),  // percent
        38 => Some(vec![0x61u8, 0x6Du8, 0x70u8, 0x65u8, 0x72u8, 0x73u8, 0x61u8, 0x6Eu8, 0x64u8]),  // ampersand
        39 => Some(vec![0x71u8, 0x75u8, 0x6Fu8, 0x74u8, 0x65u8, 0x72u8, 0x69u8, 0x67u8, 0x68u8, 0x74u8]),  // quoteright
        40 => Some(vec![0x70u8, 0x61u8, 0x72u8, 0x65u8, 0x6Eu8, 0x6Cu8, 0x65u8, 0x66u8, 0x74u8]),  // parenleft
        41 => Some(vec![0x70u8, 0x61u8, 0x72u8, 0x65u8, 0x6Eu8, 0x72u8, 0x69u8, 0x67u8, 0x68u8, 0x74u8]),  // parenright
        42 => Some(vec![0x61u8, 0x73u8, 0x74u8, 0x65u8, 0x72u8, 0x69u8, 0x73u8, 0x6Bu8]),  // asterisk
        43 => Some(vec![0x70u8, 0x6Cu8, 0x75u8, 0x73u8]),  // plus
        44 => Some(vec![0x63u8, 0x6Fu8, 0x6Du8, 0x6Du8, 0x61u8]),  // comma
        45 => Some(vec![0x68u8, 0x79u8, 0x70u8, 0x68u8, 0x65u8, 0x6Eu8]),  // hyphen
        46 => Some(vec![0x70u8, 0x65u8, 0x72u8, 0x69u8, 0x6Fu8, 0x64u8]),  // period
        47 => Some(vec![0x73u8, 0x6Cu8, 0x61u8, 0x73u8, 0x68u8]),  // slash
        48 => Some(vec![0x7Au8, 0x65u8, 0x72u8, 0x6Fu8]),  // zero
        49 => Some(vec![0x6Fu8, 0x6Eu8, 0x65u8]),  // one
        50 => Some(vec![0x74u8, 0x77u8, 0x6Fu8]),  // two
        51 => Some(vec![0x74u8, 0x68u8, 0x72u8, 0x65u8, 0x65u8]),  // three
        52 => Some(vec![0x66u8, 0x6Fu8, 0x75u8, 0x72u8]),  // four
        53 => Some(vec![0x66u8, 0x69u8, 0x76u8, 0x65u8]),  // five
        54 => Some(vec![0x73u8, 0x69u8, 0x78u8]),  // six
        55 => Some(vec![0x73u8, 0x65u8, 0x76u8, 0x65u8, 0x6Eu8]),  // seven
        56 => Some(vec![0x65u8, 0x69u8, 0x67u8, 0x68u8, 0x74u8]),  // eight
        57 => Some(vec![0x6Eu8, 0x69u8, 0x6Eu8, 0x65u8]),  // nine
        58 => Some(vec![0x63u8, 0x6Fu8, 0x6Cu8, 0x6Fu8, 0x6Eu8]),  // colon
        59 => Some(vec![0x73u8, 0x65u8, 0x6Du8, 0x69u8, 0x63u8, 0x6Fu8, 0x6Cu8, 0x6Fu8, 0x6Eu8]),  // semicolon
        60 => Some(vec![0x6Cu8, 0x65u8, 0x73u8, 0x73u8]),  // less
        61 => Some(vec![0x65u8, 0x71u8, 0x75u8, 0x61u8, 0x6Cu8]),  // equal
        62 => Some(vec![0x67u8, 0x72u8, 0x65u8, 0x61u8, 0x74u8, 0x65u8, 0x72u8]),  // greater
        63 => Some(vec![0x71u8, 0x75u8, 0x65u8, 0x73u8, 0x74u8, 0x69u8, 0x6Fu8, 0x6Eu8]),  // question
        64 => Some(vec![0x61u8, 0x74u8]),  // at
        65 => Some(vec![0x41u8]),  // A
        66 => Some(vec![0x42u8]),  // B
        67 => Some(vec![0x43u8]),  // C
        68 => Some(vec![0x44u8]),  // D
        69 => Some(vec![0x45u8]),  // E
        70 => Some(vec![0x46u8]),  // F
        71 => Some(vec![0x47u8]),  // G
        72 => Some(vec![0x48u8]),  // H
        73 => Some(vec![0x49u8]),  // I
        74 => Some(vec![0x4Au8]),  // J
        75 => Some(vec![0x4Bu8]),  // K
        76 => Some(vec![0x4Cu8]),  // L
        77 => Some(vec![0x4Du8]),  // M
        78 => Some(vec![0x4Eu8]),  // N
        79 => Some(vec![0x4Fu8]),  // O
        80 => Some(vec![0x50u8]),  // P
        81 => Some(vec![0x51u8]),  // Q
        82 => Some(vec![0x52u8]),  // R
        83 => Some(vec![0x53u8]),  // S
        84 => Some(vec![0x54u8]),  // T
        85 => Some(vec![0x55u8]),  // U
        86 => Some(vec![0x56u8]),  // V
        87 => Some(vec![0x57u8]),  // W
        88 => Some(vec![0x58u8]),  // X
        89 => Some(vec![0x59u8]),  // Y
        90 => Some(vec![0x5Au8]),  // Z
        91 => Some(vec![0x62u8, 0x72u8, 0x61u8, 0x63u8, 0x6Bu8, 0x65u8, 0x74u8, 0x6Cu8, 0x65u8, 0x66u8, 0x74u8]),  // bracketleft
        92 => Some(vec![0x62u8, 0x61u8, 0x63u8, 0x6Bu8, 0x73u8, 0x6Cu8, 0x61u8, 0x73u8, 0x68u8]),  // backslash
        93 => Some(vec![0x62u8, 0x72u8, 0x61u8, 0x63u8, 0x6Bu8, 0x65u8, 0x74u8, 0x72u8, 0x69u8, 0x67u8, 0x68u8, 0x74u8]),  // bracketright
        94 => Some(vec![0x61u8, 0x73u8, 0x63u8, 0x69u8, 0x69u8, 0x63u8, 0x69u8, 0x72u8, 0x63u8, 0x75u8, 0x6Du8]),  // asciicircum
        95 => Some(vec![0x75u8, 0x6Eu8, 0x64u8, 0x65u8, 0x72u8, 0x73u8, 0x63u8, 0x6Fu8, 0x72u8, 0x65u8]),  // underscore
        96 => Some(vec![0x71u8, 0x75u8, 0x6Fu8, 0x74u8, 0x65u8, 0x6Cu8, 0x65u8, 0x66u8, 0x74u8]),  // quoteleft
        97 => Some(vec![0x61u8]),  // a
        98 => Some(vec![0x62u8]),  // b
        99 => Some(vec![0x63u8]),  // c
        100 => Some(vec![0x64u8]),  // d
        101 => Some(vec![0x65u8]),  // e
        102 => Some(vec![0x66u8]),  // f
        103 => Some(vec![0x67u8]),  // g
        104 => Some(vec![0x68u8]),  // h
        105 => Some(vec![0x69u8]),  // i
        106 => Some(vec![0x6Au8]),  // j
        107 => Some(vec![0x6Bu8]),  // k
        108 => Some(vec![0x6Cu8]),  // l
        109 => Some(vec![0x6Du8]),  // m
        110 => Some(vec![0x6Eu8]),  // n
        111 => Some(vec![0x6Fu8]),  // o
        112 => Some(vec![0x70u8]),  // p
        113 => Some(vec![0x71u8]),  // q
        114 => Some(vec![0x72u8]),  // r
        115 => Some(vec![0x73u8]),  // s
        116 => Some(vec![0x74u8]),  // t
        117 => Some(vec![0x75u8]),  // u
        118 => Some(vec![0x76u8]),  // v
        119 => Some(vec![0x77u8]),  // w
        120 => Some(vec![0x78u8]),  // x
        121 => Some(vec![0x79u8]),  // y
        122 => Some(vec![0x7Au8]),  // z
        123 => Some(vec![0x62u8, 0x72u8, 0x61u8, 0x63u8, 0x65u8, 0x6Cu8, 0x65u8, 0x66u8, 0x74u8]),  // braceleft
        124 => Some(vec![0x62u8, 0x61u8, 0x72u8]),  // bar
        125 => Some(vec![0x62u8, 0x72u8, 0x61u8, 0x63u8, 0x65u8, 0x72u8, 0x69u8, 0x67u8, 0x68u8, 0x74u8]),  // braceright
        126 => Some(vec![0x61u8, 0x73u8, 0x63u8, 0x69u8, 0x69u8, 0x74u8, 0x69u8, 0x6Cu8, 0x64u8, 0x65u8]),  // asciitilde
        161 => Some(vec![0x65u8, 0x78u8, 0x63u8, 0x6Cu8, 0x61u8, 0x6Du8, 0x64u8, 0x6Fu8, 0x77u8, 0x6Eu8]),  // exclamdown
        162 => Some(vec![0x63u8, 0x65u8, 0x6Eu8, 0x74u8]),  // cent
        163 => Some(vec![0x73u8, 0x74u8, 0x65u8, 0x72u8, 0x6Cu8, 0x69u8, 0x6Eu8, 0x67u8]),  // sterling
        164 => Some(vec![0x66u8, 0x72u8, 0x61u8, 0x63u8, 0x74u8, 0x69u8, 0x6Fu8, 0x6Eu8]),  // fraction
        165 => Some(vec![0x79u8, 0x65u8, 0x6Eu8]),  // yen
        166 => Some(vec![0x66u8, 0x6Cu8, 0x6Fu8, 0x72u8, 0x69u8, 0x6Eu8]),  // florin
        167 => Some(vec![0x73u8, 0x65u8, 0x63u8, 0x74u8, 0x69u8, 0x6Fu8, 0x6Eu8]),  // section
        168 => Some(vec![0x63u8, 0x75u8, 0x72u8, 0x72u8, 0x65u8, 0x6Eu8, 0x63u8, 0x79u8]),  // currency
        169 => Some(vec![0x71u8, 0x75u8, 0x6Fu8, 0x74u8, 0x65u8, 0x73u8, 0x69u8, 0x6Eu8, 0x67u8, 0x6Cu8, 0x65u8]),  // quotesingle
        170 => Some(vec![0x71u8, 0x75u8, 0x6Fu8, 0x74u8, 0x65u8, 0x64u8, 0x62u8, 0x6Cu8, 0x6Cu8, 0x65u8, 0x66u8, 0x74u8]),  // quotedblleft
        171 => Some(vec![0x67u8, 0x75u8, 0x69u8, 0x6Cu8, 0x6Cu8, 0x65u8, 0x6Du8, 0x6Fu8, 0x74u8, 0x6Cu8, 0x65u8, 0x66u8, 0x74u8]),  // guillemotleft
        172 => Some(vec![0x67u8, 0x75u8, 0x69u8, 0x6Cu8, 0x73u8, 0x69u8, 0x6Eu8, 0x67u8, 0x6Cu8, 0x6Cu8, 0x65u8, 0x66u8, 0x74u8]),  // guilsinglleft
        173 => Some(vec![0x67u8, 0x75u8, 0x69u8, 0x6Cu8, 0x73u8, 0x69u8, 0x6Eu8, 0x67u8, 0x6Cu8, 0x72u8, 0x69u8, 0x67u8, 0x68u8, 0x74u8]),  // guilsinglright
        174 => Some(vec![0x66u8, 0x69u8]),  // fi
        175 => Some(vec![0x66u8, 0x6Cu8]),  // fl
        177 => Some(vec![0x65u8, 0x6Eu8, 0x64u8, 0x61u8, 0x73u8, 0x68u8]),  // endash
        178 => Some(vec![0x64u8, 0x61u8, 0x67u8, 0x67u8, 0x65u8, 0x72u8]),  // dagger
        179 => Some(vec![0x64u8, 0x61u8, 0x67u8, 0x67u8, 0x65u8, 0x72u8, 0x64u8, 0x62u8, 0x6Cu8]),  // daggerdbl
        180 => Some(vec![0x70u8, 0x65u8, 0x72u8, 0x69u8, 0x6Fu8, 0x64u8, 0x63u8, 0x65u8, 0x6Eu8, 0x74u8, 0x65u8, 0x72u8, 0x65u8, 0x64u8]),  // periodcentered
        182 => Some(vec![0x70u8, 0x61u8, 0x72u8, 0x61u8, 0x67u8, 0x72u8, 0x61u8, 0x70u8, 0x68u8]),  // paragraph
        183 => Some(vec![0x62u8, 0x75u8, 0x6Cu8, 0x6Cu8, 0x65u8, 0x74u8]),  // bullet
        184 => Some(vec![0x71u8, 0x75u8, 0x6Fu8, 0x74u8, 0x65u8, 0x73u8, 0x69u8, 0x6Eu8, 0x67u8, 0x6Cu8, 0x62u8, 0x61u8, 0x73u8, 0x65u8]),  // quotesinglbase
        185 => Some(vec![0x71u8, 0x75u8, 0x6Fu8, 0x74u8, 0x65u8, 0x64u8, 0x62u8, 0x6Cu8, 0x62u8, 0x61u8, 0x73u8, 0x65u8]),  // quotedblbase
        186 => Some(vec![0x71u8, 0x75u8, 0x6Fu8, 0x74u8, 0x65u8, 0x64u8, 0x62u8, 0x6Cu8, 0x72u8, 0x69u8, 0x67u8, 0x68u8, 0x74u8]),  // quotedblright
        187 => Some(vec![0x67u8, 0x75u8, 0x69u8, 0x6Cu8, 0x6Cu8, 0x65u8, 0x6Du8, 0x6Fu8, 0x74u8, 0x72u8, 0x69u8, 0x67u8, 0x68u8, 0x74u8]),  // guillemotright
        188 => Some(vec![0x65u8, 0x6Cu8, 0x6Cu8, 0x69u8, 0x70u8, 0x73u8, 0x69u8, 0x73u8]),  // ellipsis
        189 => Some(vec![0x70u8, 0x65u8, 0x72u8, 0x74u8, 0x68u8, 0x6Fu8, 0x75u8, 0x73u8, 0x61u8, 0x6Eu8, 0x64u8]),  // perthousand
        191 => Some(vec![0x71u8, 0x75u8, 0x65u8, 0x73u8, 0x74u8, 0x69u8, 0x6Fu8, 0x6Eu8, 0x64u8, 0x6Fu8, 0x77u8, 0x6Eu8]),  // questiondown
        193 => Some(vec![0x67u8, 0x72u8, 0x61u8, 0x76u8, 0x65u8]),  // grave
        194 => Some(vec![0x61u8, 0x63u8, 0x75u8, 0x74u8, 0x65u8]),  // acute
        195 => Some(vec![0x63u8, 0x69u8, 0x72u8, 0x63u8, 0x75u8, 0x6Du8, 0x66u8, 0x6Cu8, 0x65u8, 0x78u8]),  // circumflex
        196 => Some(vec![0x74u8, 0x69u8, 0x6Cu8, 0x64u8, 0x65u8]),  // tilde
        197 => Some(vec![0x6Du8, 0x61u8, 0x63u8, 0x72u8, 0x6Fu8, 0x6Eu8]),  // macron
        198 => Some(vec![0x62u8, 0x72u8, 0x65u8, 0x76u8, 0x65u8]),  // breve
        199 => Some(vec![0x64u8, 0x6Fu8, 0x74u8, 0x61u8, 0x63u8, 0x63u8, 0x65u8, 0x6Eu8, 0x74u8]),  // dotaccent
        200 => Some(vec![0x64u8, 0x69u8, 0x65u8, 0x72u8, 0x65u8, 0x73u8, 0x69u8, 0x73u8]),  // dieresis
        202 => Some(vec![0x72u8, 0x69u8, 0x6Eu8, 0x67u8]),  // ring
        203 => Some(vec![0x63u8, 0x65u8, 0x64u8, 0x69u8, 0x6Cu8, 0x6Cu8, 0x61u8]),  // cedilla
        205 => Some(vec![0x68u8, 0x75u8, 0x6Eu8, 0x67u8, 0x61u8, 0x72u8, 0x75u8, 0x6Du8, 0x6Cu8, 0x61u8, 0x75u8, 0x74u8]),  // hungarumlaut
        206 => Some(vec![0x6Fu8, 0x67u8, 0x6Fu8, 0x6Eu8, 0x65u8, 0x6Bu8]),  // ogonek
        207 => Some(vec![0x63u8, 0x61u8, 0x72u8, 0x6Fu8, 0x6Eu8]),  // caron
        208 => Some(vec![0x65u8, 0x6Du8, 0x64u8, 0x61u8, 0x73u8, 0x68u8]),  // emdash
        225 => Some(vec![0x41u8, 0x45u8]),  // AE
        227 => Some(vec![0x6Fu8, 0x72u8, 0x64u8, 0x66u8, 0x65u8, 0x6Du8, 0x69u8, 0x6Eu8, 0x69u8, 0x6Eu8, 0x65u8]),  // ordfeminine
        232 => Some(vec![0x4Cu8, 0x73u8, 0x6Cu8, 0x61u8, 0x73u8, 0x68u8]),  // Lslash
        233 => Some(vec![0x4Fu8, 0x73u8, 0x6Cu8, 0x61u8, 0x73u8, 0x68u8]),  // Oslash
        234 => Some(vec![0x4Fu8, 0x45u8]),  // OE
        235 => Some(vec![0x6Fu8, 0x72u8, 0x64u8, 0x6Du8, 0x61u8, 0x73u8, 0x63u8, 0x75u8, 0x6Cu8, 0x69u8, 0x6Eu8, 0x65u8]),  // ordmasculine
        241 => Some(vec![0x61u8, 0x65u8]),  // ae
        245 => Some(vec![0x64u8, 0x6Fu8, 0x74u8, 0x6Cu8, 0x65u8, 0x73u8, 0x73u8, 0x69u8]),  // dotlessi
        248 => Some(vec![0x6Cu8, 0x73u8, 0x6Cu8, 0x61u8, 0x73u8, 0x68u8]),  // lslash
        249 => Some(vec![0x6Fu8, 0x73u8, 0x6Cu8, 0x61u8, 0x73u8, 0x68u8]),  // oslash
        250 => Some(vec![0x6Fu8, 0x65u8]),  // oe
        251 => Some(vec![0x67u8, 0x65u8, 0x72u8, 0x6Du8, 0x61u8, 0x6Eu8, 0x64u8, 0x62u8, 0x6Cu8, 0x73u8]),  // germandbls
        _ => None,
    }
}

/// How character codes map to glyph names.
#[derive(Debug)]
pub enum EncodingType {
    /// Adobe's canonical 256-slot Standard Encoding.
    Standard,
    /// A font-specific table: the name bound to each of the 256 codes, if
    /// any.
    Custom(Vec<Option<Vec<u8>>>),
}

impl EncodingType {
    /// A custom table holds exactly one slot per code.
    pub open spec fn wf(&self) -> bool {
        match self {
            EncodingType::Standard => true,
            EncodingType::Custom(t) => t@.len() == 256,
        }
    }

    /// The glyph name the encoding binds to `code`, or `None` when `code` is
    /// unencoded.
    pub open spec fn spec_lookup(&self, code: u8) -> Option<Seq<u8>> {
        match self {
            EncodingType::Standard => spec_standard_name(code),
            EncodingType::Custom(t) => match t@[code as int] {
                Some(n) => Some(n@),
                None => None,
            },
        }
    }

    /// Looks up the glyph name bound to `code`.
    pub fn lookup(&self, code: u8) -> (r: Option<Vec<u8>>)
        requires
            self.wf(),
        ensures
            match self.spec_lookup(code) {
                Some(n) => r matches Some(v) && v@ == n,
                None => r is None,
            },
    {
        match self {
            EncodingType::Standard => standard_encoding_name(code),
            EncodingType::Custom(t) => {
                match &t[code as usize] {
                    Some(n) => {
                        let mut out: Vec<u8> = Vec::new();
                        let mut i: usize = 0;
                        while i < n.len()
                            invariant
                                i <= n@.len(),
                                out@ == n@.take(i as int),
                            decreases n@.len() - i,
                        {
                            out.push(n[i]);
                            proof {
                                assert(out@ =~= n@.take(i + 1));
                            }
                            i = i + 1;
                        }
                        proof {
                            assert(n@.take(i as int) =~= n@);
                        }
                        Some(out)
                    },
                    None => None,
                }
            },
        }
    }
}

} // verus!
