use pdf_font_parser::cff::parser::{
    Fixed, FromData, LazyArray16, LazyArray32, Offset, Offset16, Offset32, NumFrom, Stream,
    TryNumFrom, U24,
};
use pdf_font_parser::GlyphId;

#[test]
fn from_data_integers() {
    assert_eq!(u8::parse(&[0xAB]), Some(0xAB));
    assert_eq!(i8::parse(&[0xFF]), Some(-1));
    assert_eq!(u16::parse(&[0x12, 0x34]), Some(0x1234));
    assert_eq!(i16::parse(&[0xFF, 0xFE]), Some(-2));
    assert_eq!(u32::parse(&[0x12, 0x34, 0x56, 0x78]), Some(0x12345678));
    assert_eq!(i32::parse(&[0xFF, 0xFF, 0xFF, 0xFF]), Some(-1));
    assert_eq!(
        u64::parse(&[0x01, 0x02, 0x03, 0x04, 0x05, 0x06, 0x07, 0x08]),
        Some(0x0102030405060708)
    );
    assert_eq!(u16::parse(&[0x12]), None);
    assert_eq!(U24::parse(&[0x01, 0x02, 0x03]), Some(U24(0x010203)));
    assert_eq!(GlyphId::parse(&[0x00, 0x2A]), Some(GlyphId(42)));
}

#[test]
fn fixed_parses_raw_bits() {
    // 1.5 in 16.16 fixed point is 0x00018000.
    assert_eq!(Fixed::parse(&[0x00, 0x01, 0x80, 0x00]), Some(Fixed(0x00018000)));
}

#[test]
fn fixed_truncates_towards_zero() {
    assert_eq!(i32::try_num_from(Fixed(0x00018000)), Some(1));
    assert_eq!(i32::try_num_from(Fixed(-0x00018000)), Some(-1));
    assert_eq!(u8::try_num_from(Fixed(0x00FF0000)), Some(255));
    assert_eq!(u8::try_num_from(Fixed(0x01000000)), None);
    assert_eq!(u8::try_num_from(Fixed(-0x00010000)), None);
    assert_eq!(i16::try_num_from(Fixed(0x7FFF0000)), Some(32767));
    assert_eq!(i16::try_num_from(Fixed(i32::MIN)), Some(-32768));
    assert_eq!(u16::try_num_from(Fixed(0x00010000)), Some(1));
}

#[test]
fn fixed_saturating_addition() {
    assert_eq!(Fixed(1).sat_add(Fixed(2)), Fixed(3));
    assert_eq!(Fixed(i32::MAX).sat_add(Fixed(1)), Fixed(i32::MAX));
    assert_eq!(Fixed(i32::MIN).sat_add(Fixed(-1)), Fixed(i32::MIN));
}

#[test]
fn num_from_widens_u32() {
    assert_eq!(usize::num_from(7u32), 7usize);
}

#[test]
fn lazy_array16_reads_by_index() {
    let data = [0x00u8, 0x01, 0x00, 0x02, 0x00, 0x03];
    let a: LazyArray16<u16> = LazyArray16::new(&data);
    assert_eq!(a.len(), 3);
    assert!(!a.is_empty());
    assert_eq!(a.get(0), Some(1));
    assert_eq!(a.get(2), Some(3));
    assert_eq!(a.get(3), None);
    let mut it = a.iter();
    assert_eq!(it.next(), Some(1));
    assert_eq!(it.count(), 2);
}

#[test]
fn lazy_array32_reads_by_index() {
    let data = [0x00u8, 0x00, 0x00, 0x2A];
    let a: LazyArray32<u32> = LazyArray32::new(&data);
    assert_eq!(a.len(), 1);
    assert_eq!(a.get(0), Some(42));
    assert_eq!(a.get(1), None);
}

#[test]
fn stream_reads_and_tracks_offset() {
    let data = [1u8, 2, 3, 4, 5];
    let mut s = Stream::new(&data);
    assert!(!s.at_end());
    assert_eq!(s.offset(), 0);
    assert_eq!(s.read::<u16>(), Some(0x0102));
    assert_eq!(s.read_bytes(2), Some(&[3u8, 4][..]));
    assert_eq!(s.tail(), Some(&[5u8][..]));
    s.advance(1);
    assert!(s.at_end());
    assert_eq!(s.read_bytes(1), None);
}

#[test]
fn stream_move_back_rewinds() {
    let data = [9u8, 8, 7];
    let mut s = Stream::new(&data);
    assert_eq!(s.read_byte(), Some(9));
    assert_eq!(s.peek_byte(), Some(8));
    s.move_back(1);
    assert_eq!(s.read_byte(), Some(9));
}

#[test]
fn stream_new_at_checks_bounds() {
    let data = [1u8, 2];
    assert!(Stream::new_at(&data, 2).is_some());
    assert!(Stream::new_at(&data, 3).is_none());
}

#[test]
fn stream_read_array16() {
    let data = [0x00u8, 0x05, 0x00, 0x06];
    let mut s = Stream::new(&data);
    let a: LazyArray16<u16> = s.read_array16(2).unwrap();
    assert_eq!(a.get(0), Some(5));
    assert_eq!(a.get(1), Some(6));
}

#[test]
fn offsets_convert_to_usize() {
    assert_eq!(Offset16(7).to_usize(), 7);
    assert_eq!(Offset32(9).to_usize(), 9);
    assert_eq!(<Option<Offset16> as FromData>::parse(&[0x00, 0x00]), Some(None));
    assert_eq!(
        <Option<Offset16> as FromData>::parse(&[0x00, 0x05]),
        Some(Some(Offset16(5)))
    );
}
