//! Low-level binary parsing: fixed-size records read from byte slices,
//! lazily-decoded arrays, and a positioned cursor (`Stream`) over an
//! immutable byte buffer.
use vstd::prelude::*;

verus! {

use vstd::slice::slice_subrange;
use vstd::arithmetic::div_mod::lemma_fundamental_div_mod;
use vstd::arithmetic::div_mod::lemma_mod_decreases;
use vstd::arithmetic::div_mod::lemma_mod_bound;
use vstd::arithmetic::mul::lemma_mul_inequality;
use crate::GlyphId;

/// Big-endian u16 read from two bytes.
pub open spec fn spec_u16_be(d: Seq<u8>) -> u16
    recommends
        d.len() == 2,
{
    (d[0] as int * 0x100 + d[1] as int) as u16
}

/// Big-endian u24 read from three bytes, widened to u32.
pub open spec fn spec_u24_be(d: Seq<u8>) -> u32
    recommends
        d.len() == 3,
{
    (d[0] as int * 0x10000 + d[1] as int * 0x100 + d[2] as int) as u32
}

/// Big-endian u32 read from four bytes.
pub open spec fn spec_u32_be(d: Seq<u8>) -> u32
    recommends
        d.len() == 4,
{
    (d[0] as int * 0x1000000 + d[1] as int * 0x10000 + d[2] as int * 0x100 + d[3] as int) as u32
}

/// Big-endian u64 read from eight bytes.
pub open spec fn spec_u64_be(d: Seq<u8>) -> u64
    recommends
        d.len() == 8,
{
    (spec_u32_be(d.subrange(0, 4)) as int * 0x100000000 + spec_u32_be(d.subrange(4, 8)) as int) as u64
}

/// A trait for parsing raw binary data of fixed size.
pub trait FromData: Sized {
    /// Object's raw data size in bytes.
    spec fn spec_size() -> usize;

    /// What `parse` returns for a given byte sequence.
    spec fn spec_parse(data: Seq<u8>) -> Option<Self>;

    /// Object's raw data size in bytes.
    fn size() -> (r: usize)
        ensures
            r == Self::spec_size(),
    ;

    /// Parses an object from raw data.
    fn parse(data: &[u8]) -> (r: Option<Self>)
        ensures
            r == Self::spec_parse(data@),
    ;
}

impl FromData for () {
    open spec fn spec_size() -> usize {
        0
    }

    open spec fn spec_parse(data: Seq<u8>) -> Option<Self> {
        Some(())
    }

    fn size() -> usize {
        0
    }

    fn parse(data: &[u8]) -> (r: Option<Self>) {
        Some(())
    }
}

impl FromData for u8 {
    open spec fn spec_size() -> usize {
        1
    }

    open spec fn spec_parse(data: Seq<u8>) -> Option<Self> {
        if data.len() == 1 {
            Some(data[0])
        } else {
            None
        }
    }

    fn size() -> usize {
        1
    }

    fn parse(data: &[u8]) -> (r: Option<Self>) {
        if data.len() == 1 {
            Some(data[0])
        } else {
            None
        }
    }
}

impl FromData for i8 {
    open spec fn spec_size() -> usize {
        1
    }

    open spec fn spec_parse(data: Seq<u8>) -> Option<Self> {
        if data.len() == 1 {
            Some(data[0] as i8)
        } else {
            None
        }
    }

    fn size() -> usize {
        1
    }

    fn parse(data: &[u8]) -> (r: Option<Self>) {
        if data.len() == 1 {
            Some(data[0] as i8)
        } else {
            None
        }
    }
}

impl FromData for u16 {
    open spec fn spec_size() -> usize {
        2
    }

    open spec fn spec_parse(data: Seq<u8>) -> Option<Self> {
        if data.len() == 2 {
            Some(spec_u16_be(data))
        } else {
            None
        }
    }

    fn size() -> usize {
        2
    }

    fn parse(data: &[u8]) -> (r: Option<Self>) {
        if data.len() == 2 {
            Some((data[0] as u16) * 0x100 + (data[1] as u16))
        } else {
            None
        }
    }
}

impl FromData for i16 {
    open spec fn spec_size() -> usize {
        2
    }

    open spec fn spec_parse(data: Seq<u8>) -> Option<Self> {
        if data.len() == 2 {
            Some(spec_u16_be(data) as i16)
        } else {
            None
        }
    }

    fn size() -> usize {
        2
    }

    fn parse(data: &[u8]) -> (r: Option<Self>) {
        if data.len() == 2 {
            let v: u16 = (data[0] as u16) * 0x100 + (data[1] as u16);
            Some(#[verifier::truncate] (v as i16))
        } else {
            None
        }
    }
}

impl FromData for u32 {
    open spec fn spec_size() -> usize {
        4
    }

    open spec fn spec_parse(data: Seq<u8>) -> Option<Self> {
        if data.len() == 4 {
            Some(spec_u32_be(data))
        } else {
            None
        }
    }

    fn size() -> usize {
        4
    }

    fn parse(data: &[u8]) -> (r: Option<Self>) {
        if data.len() == 4 {
            Some(
                (data[0] as u32) * 0x1000000 + (data[1] as u32) * 0x10000 + (data[2] as u32) * 0x100
                    + (data[3] as u32),
            )
        } else {
            None
        }
    }
}

impl FromData for i32 {
    open spec fn spec_size() -> usize {
        4
    }

    open spec fn spec_parse(data: Seq<u8>) -> Option<Self> {
        if data.len() == 4 {
            Some(spec_u32_be(data) as i32)
        } else {
            None
        }
    }

    fn size() -> usize {
        4
    }

    fn parse(data: &[u8]) -> (r: Option<Self>) {
        if data.len() == 4 {
            let v: u32 = (data[0] as u32) * 0x1000000 + (data[1] as u32) * 0x10000 + (data[2]
                as u32) * 0x100 + (data[3] as u32);
            Some(#[verifier::truncate] (v as i32))
        } else {
            None
        }
    }
}

impl FromData for u64 {
    open spec fn spec_size() -> usize {
        8
    }

    open spec fn spec_parse(data: Seq<u8>) -> Option<Self> {
        if data.len() == 8 {
            Some(spec_u64_be(data))
        } else {
            None
        }
    }

    fn size() -> usize {
        8
    }

    fn parse(data: &[u8]) -> (r: Option<Self>) {
        if data.len() == 8 {
            let hi: u32 = (data[0] as u32) * 0x1000000 + (data[1] as u32) * 0x10000 + (data[2]
                as u32) * 0x100 + (data[3] as u32);
            let lo: u32 = (data[4] as u32) * 0x1000000 + (data[5] as u32) * 0x10000 + (data[6]
                as u32) * 0x100 + (data[7] as u32);
            let r = (hi as u64) * 0x100000000 + (lo as u64);
            proof {
                assert(data@.subrange(0, 4) =~= seq![data@[0], data@[1], data@[2], data@[3]]);
                assert(data@.subrange(4, 8) =~= seq![data@[4], data@[5], data@[6], data@[7]]);
            }
            Some(r)
        } else {
            None
        }
    }
}

/// A u24 number.
///
/// Stored as u32, but encoded as 3 bytes in the font.
#[derive(Clone, Copy, Debug, PartialEq, Eq, Structural)]
pub struct U24(pub u32);

impl FromData for U24 {
    open spec fn spec_size() -> usize {
        3
    }

    open spec fn spec_parse(data: Seq<u8>) -> Option<Self> {
        if data.len() == 3 {
            Some(U24(spec_u24_be(data)))
        } else {
            None
        }
    }

    fn size() -> usize {
        3
    }

    fn parse(data: &[u8]) -> (r: Option<Self>) {
        if data.len() == 3 {
            Some(U24((data[0] as u32) * 0x10000 + (data[1] as u32) * 0x100 + (data[2] as u32)))
        } else {
            None
        }
    }
}

/// A 32-bit signed fixed-point number (16.16), stored as its raw bit pattern.
///
/// The integer part is `v / 65536` truncated towards zero.
#[derive(Clone, Copy, Debug, PartialEq, Eq, Structural)]
pub struct Fixed(pub i32);

/// The integer part of a 16.16 fixed-point number, truncated towards zero.
pub open spec fn spec_fixed_trunc(v: Fixed) -> int {
    if v.0 >= 0 {
        v.0 as int / 0x10000
    } else {
        -((-(v.0 as int)) / 0x10000)
    }
}

impl Fixed {
    /// A fixed-point number with integer value `v` and no fractional part.
    pub open spec fn spec_from_i16(v: i16) -> Fixed {
        Fixed((v as int * 0x10000) as i32)
    }

    /// Builds the fixed-point number with integer value `v`.
    pub fn from_i16(v: i16) -> (r: Fixed)
        ensures
            r == Fixed::spec_from_i16(v),
    {
        Fixed((v as i32) * 0x10000)
    }

    /// Saturating fixed-point addition.
    pub open spec fn spec_sat_add(a: Fixed, b: Fixed) -> Fixed {
        let s = a.0 + b.0;
        if s > i32::MAX {
            Fixed(i32::MAX)
        } else if s < i32::MIN {
            Fixed(i32::MIN)
        } else {
            Fixed(s as i32)
        }
    }

    /// Adds another fixed-point number, saturating at the representable
    /// range.
    pub fn sat_add(self, other: Fixed) -> (r: Fixed)
        ensures
            r == Fixed::spec_sat_add(self, other),
    {
        let s = (self.0 as i64) + (other.0 as i64);
        if s > i32::MAX as i64 {
            Fixed(i32::MAX)
        } else if s < i32::MIN as i64 {
            Fixed(i32::MIN)
        } else {
            Fixed(s as i32)
        }
    }

    /// The magnitude of the number, widened so the smallest value has one
    /// too.
    pub fn abs_wide(self) -> (r: i64)
        ensures
            r == if self.0 >= 0 {
                self.0 as int
            } else {
                -(self.0 as int)
            },
    {
        if self.0 >= 0 {
            self.0 as i64
        } else {
            -(self.0 as i64)
        }
    }
}

impl FromData for Fixed {
    open spec fn spec_size() -> usize {
        4
    }

    open spec fn spec_parse(data: Seq<u8>) -> Option<Self> {
        if data.len() == 4 {
            Some(Fixed(spec_u32_be(data) as i32))
        } else {
            None
        }
    }

    fn size() -> usize {
        4
    }

    fn parse(data: &[u8]) -> (r: Option<Self>) {
        match i32::parse(data) {
            Some(v) => Some(Fixed(v)),
            None => None,
        }
    }
}

impl FromData for GlyphId {
    open spec fn spec_size() -> usize {
        2
    }

    open spec fn spec_parse(data: Seq<u8>) -> Option<Self> {
        if data.len() == 2 {
            Some(GlyphId(spec_u16_be(data)))
        } else {
            None
        }
    }

    fn size() -> usize {
        2
    }

    fn parse(data: &[u8]) -> (r: Option<Self>) {
        match u16::parse(data) {
            Some(v) => Some(GlyphId(v)),
            None => None,
        }
    }
}

/// A safe u32 to usize casting.
///
/// Rust doesn't implement `From<u32> for usize`, because it has to support
/// 16 bit targets. We don't, so we can allow this.
pub trait NumFrom<T>: Sized {
    /// What `num_from` returns.
    spec fn spec_num_from(v: T) -> Self;

    /// Converts the value into `Self`.
    fn num_from(v: T) -> (r: Self)
        ensures
            r == Self::spec_num_from(v),
    ;
}

impl NumFrom<u32> for usize {
    open spec fn spec_num_from(v: u32) -> usize {
        v as usize
    }

    fn num_from(v: u32) -> usize {
        v as usize
    }
}

/// Just like TryFrom, but for numeric types not supported by Rust's std.
pub trait TryNumFrom<T>: Sized {
    /// What `try_num_from` returns.
    spec fn spec_try_num_from(v: T) -> Option<Self>;

    /// Casts between numeric types.
    fn try_num_from(v: T) -> (r: Option<Self>)
        ensures
            r == Self::spec_try_num_from(v),
    ;
}

impl TryNumFrom<Fixed> for i32 {
    open spec fn spec_try_num_from(v: Fixed) -> Option<i32> {
        Some(spec_fixed_trunc(v) as i32)
    }

    fn try_num_from(v: Fixed) -> (r: Option<i32>) {
        if v.0 >= 0 {
            let q: u32 = (v.0 as u32) / 0x10000;
            Some(q as i32)
        } else {
            let m: u32 = (-(v.0 as i64)) as u32;
            let q: u32 = m / 0x10000;
            Some(-(q as i32))
        }
    }
}

impl TryNumFrom<Fixed> for u8 {
    open spec fn spec_try_num_from(v: Fixed) -> Option<u8> {
        let t = spec_fixed_trunc(v);
        if 0 <= t <= u8::MAX {
            Some(t as u8)
        } else {
            None
        }
    }

    fn try_num_from(v: Fixed) -> (r: Option<u8>) {
        match i32::try_num_from(v) {
            Some(t) => if 0 <= t && t <= u8::MAX as i32 {
                Some(t as u8)
            } else {
                None
            },
            None => None,
        }
    }
}

impl TryNumFrom<Fixed> for u16 {
    open spec fn spec_try_num_from(v: Fixed) -> Option<u16> {
        let t = spec_fixed_trunc(v);
        if 0 <= t <= u16::MAX {
            Some(t as u16)
        } else {
            None
        }
    }

    fn try_num_from(v: Fixed) -> (r: Option<u16>) {
        match i32::try_num_from(v) {
            Some(t) => if 0 <= t && t <= u16::MAX as i32 {
                Some(t as u16)
            } else {
                None
            },
            None => None,
        }
    }
}

impl TryNumFrom<Fixed> for i16 {
    open spec fn spec_try_num_from(v: Fixed) -> Option<i16> {
        let t = spec_fixed_trunc(v);
        if i16::MIN <= t <= i16::MAX {
            Some(t as i16)
        } else {
            None
        }
    }

    fn try_num_from(v: Fixed) -> (r: Option<i16>) {
        match i32::try_num_from(v) {
            Some(t) => if i16::MIN as i32 <= t && t <= i16::MAX as i32 {
                Some(t as i16)
            } else {
                None
            },
            None => None,
        }
    }
}

/// A slice-like container that converts internal binary data only on access.
///
/// Array values are stored in a continuous data chunk.
#[derive(Debug)]
pub struct LazyArray16<'a, T> {
    /// The raw bytes backing the array.
    pub data: &'a [u8],
    /// Marks the element type; no element is stored.
    pub data_type: core::marker::PhantomData<T>,
}

impl<'a, T: FromData> LazyArray16<'a, T> {
    /// The raw bytes backing the array.
    pub open spec fn spec_data(&self) -> Seq<u8> {
        self.data@
    }

    /// The array's length, as `len` computes it.
    pub open spec fn spec_len(&self) -> u16 {
        ((self.data@.len() as int / T::spec_size() as int) % 0x10000) as u16
    }

    /// The value at `index`, as `get` returns it.
    pub open spec fn spec_get(&self, index: u16) -> Option<T> {
        if index < self.spec_len() {
            T::spec_parse(
                self.data@.subrange(
                    index as int * T::spec_size() as int,
                    index as int * T::spec_size() as int + T::spec_size() as int,
                ),
            )
        } else {
            None
        }
    }

    /// Creates a new `LazyArray` over the bytes of `data`.
    pub fn new(data: &'a [u8]) -> (r: Self)
        ensures
            r.spec_data() == data@,
    {
        LazyArray16 { data, data_type: core::marker::PhantomData }
    }

    /// Returns a value at `index`.
    pub fn get(&self, index: u16) -> (r: Option<T>)
        requires
            T::spec_size() >= 1,
        ensures
            r == self.spec_get(index),
    {
        if index < self.len() {
            let dlen = self.data.len();
            proof {
                let l = self.data@.len() as int;
                let s = T::spec_size() as int;
                assert(l == dlen as int);
                lemma_mod_decreases((l / s) as nat, 0x10000nat);
                lemma_mod_bound(l, s);
                lemma_fundamental_div_mod(l, s);
                lemma_mul_inequality(index as int + 1, l / s, s);
                assert((index as int + 1) * s == index as int * s + s) by (nonlinear_arith);
                assert(index as int * s + s <= l);
            }
            let start = (index as usize) * T::size();
            let end = start + T::size();
            T::parse(slice_subrange(self.data, start, end))
        } else {
            None
        }
    }

    /// Returns the array's length.
    pub fn len(&self) -> (r: u16)
        requires
            T::spec_size() >= 1,
        ensures
            r == self.spec_len(),
    {
        ((self.data.len() / T::size()) % 0x10000) as u16
    }

    /// Checks if the array is empty.
    pub fn is_empty(&self) -> (r: bool)
        requires
            T::spec_size() >= 1,
        ensures
            r == (self.spec_len() == 0),
    {
        self.len() == 0
    }

    /// Returns an iterator over the array's values.
    pub fn iter(self) -> (r: LazyArrayIter16<'a, T>)
        ensures
            r.data == self,
            r.index == 0,
    {
        LazyArrayIter16 { data: self, index: 0 }
    }
}

impl<'a, T> Default for LazyArray16<'a, T> {
    /// An empty array.
    fn default() -> (r: Self)
        ensures
            r.data@.len() == 0,
    {
        LazyArray16 { data: &[], data_type: core::marker::PhantomData }
    }
}

/// An iterator over `LazyArray16`.
#[derive(Debug)]
pub struct LazyArrayIter16<'a, T> {
    /// The array being walked.
    pub data: LazyArray16<'a, T>,
    /// The index of the next value to hand out.
    pub index: u16,
}

impl<'a, T: FromData> LazyArrayIter16<'a, T> {
    /// Returns the next value, or `None` when the array is exhausted.
    pub fn next(&mut self) -> (r: Option<T>)
        requires
            T::spec_size() >= 1,
        ensures
            final(self).data == old(self).data,
            if old(self).index < old(self).data.spec_len() {
                r == old(self).data.spec_get(old(self).index) && final(self).index == old(
                    self,
                ).index + 1
            } else {
                r is None && final(self).index == old(self).index
            },
    {
        if self.index < self.data.len() {
            let r = self.data.get(self.index);
            self.index = self.index + 1;
            r
        } else {
            None
        }
    }

    /// How many values remain.
    pub fn count(self) -> (r: usize)
        requires
            T::spec_size() >= 1,
        ensures
            r == if self.data.spec_len() >= self.index {
                self.data.spec_len() - self.index
            } else {
                0
            },
    {
        let l = self.data.len();
        if l >= self.index {
            (l - self.index) as usize
        } else {
            0
        }
    }
}

impl<'a, T: FromData> Default for LazyArrayIter16<'a, T> {
    /// An iterator over an empty array.
    fn default() -> (r: Self)
        ensures
            r.data.spec_data().len() == 0,
            r.index == 0,
    {
        LazyArrayIter16 { data: LazyArray16::new(&[]), index: 0 }
    }
}

/// A slice-like container that converts internal binary data only on access.
///
/// Like `LazyArray16`, but indexed by u32.
#[derive(Debug)]
pub struct LazyArray32<'a, T> {
    /// The raw bytes backing the array.
    pub data: &'a [u8],
    /// Marks the element type; no element is stored.
    pub data_type: core::marker::PhantomData<T>,
}

impl<'a, T: FromData> LazyArray32<'a, T> {
    /// The raw bytes backing the array.
    pub open spec fn spec_data(&self) -> Seq<u8> {
        self.data@
    }

    /// The array's length, as `len` computes it.
    pub open spec fn spec_len(&self) -> u32 {
        ((self.data@.len() as int / T::spec_size() as int) % 0x100000000) as u32
    }

    /// The value at `index`, as `get` returns it.
    pub open spec fn spec_get(&self, index: u32) -> Option<T> {
        if index < self.spec_len() {
            T::spec_parse(
                self.data@.subrange(
                    index as int * T::spec_size() as int,
                    index as int * T::spec_size() as int + T::spec_size() as int,
                ),
            )
        } else {
            None
        }
    }

    /// Creates a new `LazyArray32` over the bytes of `data`.
    pub fn new(data: &'a [u8]) -> (r: Self)
        ensures
            r.spec_data() == data@,
    {
        LazyArray32 { data, data_type: core::marker::PhantomData }
    }

    /// Returns a value at `index`.
    pub fn get(&self, index: u32) -> (r: Option<T>)
        requires
            T::spec_size() >= 1,
        ensures
            r == self.spec_get(index),
    {
        if index < self.len() {
            let dlen = self.data.len();
            proof {
                let l = self.data@.len() as int;
                let s = T::spec_size() as int;
                assert(l == dlen as int);
                lemma_mod_decreases((l / s) as nat, 0x100000000nat);
                lemma_mod_bound(l, s);
                lemma_fundamental_div_mod(l, s);
                lemma_mul_inequality(index as int + 1, l / s, s);
                assert((index as int + 1) * s == index as int * s + s) by (nonlinear_arith);
                assert(index as int * s + s <= l);
            }
            let start = usize::num_from(index) * T::size();
            let end = start + T::size();
            T::parse(slice_subrange(self.data, start, end))
        } else {
            None
        }
    }

    /// Returns the array's length.
    pub fn len(&self) -> (r: u32)
        requires
            T::spec_size() >= 1,
        ensures
            r == self.spec_len(),
    {
        (((self.data.len() as u64) / (T::size() as u64)) % 0x100000000) as u32
    }

    /// Returns an iterator over the array's values.
    pub fn iter(self) -> (r: LazyArrayIter32<'a, T>)
        ensures
            r.data == self,
            r.index == 0,
    {
        LazyArrayIter32 { data: self, index: 0 }
    }
}

impl<'a, T> Default for LazyArray32<'a, T> {
    /// An empty array.
    fn default() -> (r: Self)
        ensures
            r.data@.len() == 0,
    {
        LazyArray32 { data: &[], data_type: core::marker::PhantomData }
    }
}

/// An iterator over `LazyArray32`.
#[derive(Debug)]
pub struct LazyArrayIter32<'a, T> {
    /// The array being walked.
    pub data: LazyArray32<'a, T>,
    /// The index of the next value to hand out.
    pub index: u32,
}

impl<'a, T: FromData> LazyArrayIter32<'a, T> {
    /// Returns the next value, or `None` when the array is exhausted.
    pub fn next(&mut self) -> (r: Option<T>)
        requires
            T::spec_size() >= 1,
        ensures
            final(self).data == old(self).data,
            if old(self).index < old(self).data.spec_len() {
                r == old(self).data.spec_get(old(self).index) && final(self).index == old(
                    self,
                ).index + 1
            } else {
                r is None && final(self).index == old(self).index
            },
    {
        if self.index < self.data.len() {
            let r = self.data.get(self.index);
            self.index = self.index + 1;
            r
        } else {
            None
        }
    }

    /// How many values remain.
    pub fn count(self) -> (r: usize)
        requires
            T::spec_size() >= 1,
        ensures
            r == if self.data.spec_len() >= self.index {
                self.data.spec_len() - self.index
            } else {
                0
            },
    {
        let l = self.data.len();
        if l >= self.index {
            usize::num_from(l - self.index)
        } else {
            0
        }
    }
}

/// A common offset methods.
pub trait Offset {
    /// The offset's value.
    spec fn spec_to_usize(&self) -> usize;

    /// Converts the offset to `usize`.
    fn to_usize(&self) -> (r: usize)
        ensures
            r == self.spec_to_usize(),
    ;
}

/// A type-safe u16 offset.
#[derive(Clone, Copy, Debug, PartialEq, Eq, Structural)]
pub struct Offset16(pub u16);

impl Offset for Offset16 {
    open spec fn spec_to_usize(&self) -> usize {
        self.0 as usize
    }

    fn to_usize(&self) -> usize {
        self.0 as usize
    }
}

impl FromData for Offset16 {
    open spec fn spec_size() -> usize {
        2
    }

    open spec fn spec_parse(data: Seq<u8>) -> Option<Self> {
        if data.len() == 2 {
            Some(Offset16(spec_u16_be(data)))
        } else {
            None
        }
    }

    fn size() -> usize {
        2
    }

    fn parse(data: &[u8]) -> (r: Option<Self>) {
        match u16::parse(data) {
            Some(v) => Some(Offset16(v)),
            None => None,
        }
    }
}

impl FromData for Option<Offset16> {
    open spec fn spec_size() -> usize {
        2
    }

    open spec fn spec_parse(data: Seq<u8>) -> Option<Self> {
        match Offset16::spec_parse(data) {
            Some(offset) => if offset.0 != 0 {
                Some(Some(offset))
            } else {
                Some(None)
            },
            None => None,
        }
    }

    fn size() -> usize {
        2
    }

    fn parse(data: &[u8]) -> (r: Option<Self>) {
        match Offset16::parse(data) {
            Some(offset) => if offset.0 != 0 {
                Some(Some(offset))
            } else {
                Some(None)
            },
            None => None,
        }
    }
}

/// A type-safe u24 offset.
#[derive(Clone, Copy, Debug, PartialEq, Eq, Structural)]
pub struct Offset24(pub u32);

impl Offset for Offset24 {
    open spec fn spec_to_usize(&self) -> usize {
        self.0 as usize
    }

    fn to_usize(&self) -> usize {
        usize::num_from(self.0)
    }
}

impl FromData for Offset24 {
    open spec fn spec_size() -> usize {
        3
    }

    open spec fn spec_parse(data: Seq<u8>) -> Option<Self> {
        match U24::spec_parse(data) {
            Some(n) => Some(Offset24(n.0)),
            None => None,
        }
    }

    fn size() -> usize {
        3
    }

    fn parse(data: &[u8]) -> (r: Option<Self>) {
        match U24::parse(data) {
            Some(n) => Some(Offset24(n.0)),
            None => None,
        }
    }
}

impl FromData for Option<Offset24> {
    open spec fn spec_size() -> usize {
        3
    }

    open spec fn spec_parse(data: Seq<u8>) -> Option<Self> {
        match Offset24::spec_parse(data) {
            Some(offset) => if offset.0 != 0 {
                Some(Some(offset))
            } else {
                Some(None)
            },
            None => None,
        }
    }

    fn size() -> usize {
        3
    }

    fn parse(data: &[u8]) -> (r: Option<Self>) {
        match Offset24::parse(data) {
            Some(offset) => if offset.0 != 0 {
                Some(Some(offset))
            } else {
                Some(None)
            },
            None => None,
        }
    }
}

/// A type-safe u32 offset.
#[derive(Clone, Copy, Debug, PartialEq, Eq, Structural)]
pub struct Offset32(pub u32);

impl Offset for Offset32 {
    open spec fn spec_to_usize(&self) -> usize {
        self.0 as usize
    }

    fn to_usize(&self) -> usize {
        usize::num_from(self.0)
    }
}

impl FromData for Offset32 {
    open spec fn spec_size() -> usize {
        4
    }

    open spec fn spec_parse(data: Seq<u8>) -> Option<Self> {
        if data.len() == 4 {
            Some(Offset32(spec_u32_be(data)))
        } else {
            None
        }
    }

    fn size() -> usize {
        4
    }

    fn parse(data: &[u8]) -> (r: Option<Self>) {
        match u32::parse(data) {
            Some(v) => Some(Offset32(v)),
            None => None,
        }
    }
}

impl FromData for Option<Offset32> {
    open spec fn spec_size() -> usize {
        4
    }

    open spec fn spec_parse(data: Seq<u8>) -> Option<Self> {
        match Offset32::spec_parse(data) {
            Some(offset) => if offset.0 != 0 {
                Some(Some(offset))
            } else {
                Some(None)
            },
            None => None,
        }
    }

    fn size() -> usize {
        4
    }

    fn parse(data: &[u8]) -> (r: Option<Self>) {
        match Offset32::parse(data) {
            Some(offset) => if offset.0 != 0 {
                Some(Some(offset))
            } else {
                Some(None)
            },
            None => None,
        }
    }
}

/// A trait for parsing raw binary data of variable size.
pub trait FromSlice<'a>: Sized {
    /// What `parse` returns for a given byte sequence.
    spec fn spec_parse(data: Seq<u8>) -> Option<Self>;

    /// Parses an object from raw data.
    fn parse(data: &'a [u8]) -> (r: Option<Self>)
        ensures
            r == Self::spec_parse(data@),
    ;
}

/// A [`LazyArray16`]-like container, but data is accessed by offsets.
///
/// Unlike [`LazyArray16`], internal storage is not continuous.
/// Multiple offsets can point to the same data.
#[derive(Debug)]
pub struct LazyOffsetArray16<'a, T: FromSlice<'a>> {
    /// The bytes the offsets point into.
    pub data: &'a [u8],
    /// Zero offsets must be ignored, therefore `Option<Offset16>` is used.
    pub offsets: LazyArray16<'a, Option<Offset16>>,
    /// Marks the element type; no element is stored.
    pub data_type: core::marker::PhantomData<T>,
}

impl<'a, T: FromSlice<'a>> LazyOffsetArray16<'a, T> {
    /// The value at `index`, as `get` returns it.
    pub open spec fn spec_get(&self, index: u16) -> Option<T> {
        match self.offsets.spec_get(index) {
            Some(Some(offset)) => if offset.0 <= self.data@.len() {
                T::spec_parse(self.data@.subrange(offset.0 as int, self.data@.len() as int))
            } else {
                None
            },
            _ => None,
        }
    }

    /// Creates a new `LazyOffsetArray16`.
    pub fn new(data: &'a [u8], offsets: LazyArray16<'a, Option<Offset16>>) -> (r: Self)
        ensures
            r.data@ == data@,
            r.offsets == offsets,
    {
        Self { data, offsets, data_type: core::marker::PhantomData }
    }

    /// Parses `LazyOffsetArray16` from raw data: a u16 count followed by that
    /// many 16-bit offsets into the whole buffer.
    pub fn parse(data: &'a [u8]) -> (r: Option<Self>)
        ensures
            ({
                let d = data@;
                if d.len() >= 2 && 2 + spec_u16_be(d.subrange(0, 2)) as int * 2 <= d.len() {
                    let count = spec_u16_be(d.subrange(0, 2)) as int;
                    r matches Some(a) && a.data@ == d && a.offsets.spec_data() == d.subrange(
                        2,
                        2 + count * 2,
                    )
                } else {
                    r is None
                }
            }),
    {
        let mut s = Stream::new(data);
        match s.read::<u16>() {
            Some(count) => {
                match s.read_array16::<Option<Offset16>>(count) {
                    Some(offsets) => Some(
                        Self { data, offsets, data_type: core::marker::PhantomData },
                    ),
                    None => None,
                }
            },
            None => None,
        }
    }

    /// Returns a value at `index`.
    pub fn get(&self, index: u16) -> (r: Option<T>)
        ensures
            r == self.spec_get(index),
    {
        match self.offsets.get(index) {
            Some(Some(offset)) => {
                let off = offset.to_usize();
                if off <= self.data.len() {
                    T::parse(slice_subrange(self.data, off, self.data.len()))
                } else {
                    None
                }
            },
            _ => None,
        }
    }

    /// Returns the array's length.
    pub fn len(&self) -> (r: u16)
        ensures
            r == self.offsets.spec_len(),
    {
        self.offsets.len()
    }

    /// Checks if the array is empty.
    pub fn is_empty(&self) -> (r: bool)
        ensures
            r == (self.offsets.spec_len() == 0),
    {
        self.len() == 0
    }

    /// Returns an iterator over the array's values.
    pub fn iter(self) -> (r: LazyOffsetArrayIter16<'a, T>)
        ensures
            r.array == self,
            r.index == 0,
    {
        LazyOffsetArrayIter16 { array: self, index: 0 }
    }
}

/// An iterator over [`LazyOffsetArray16`] values.
#[derive(Debug)]
pub struct LazyOffsetArrayIter16<'a, T: FromSlice<'a>> {
    /// The array being walked.
    pub array: LazyOffsetArray16<'a, T>,
    /// The index of the next value to hand out.
    pub index: u16,
}

impl<'a, T: FromSlice<'a>> LazyOffsetArrayIter16<'a, T> {
    /// Returns the next value, or `None` when the array is exhausted.
    pub fn next(&mut self) -> (r: Option<T>)
        ensures
            final(self).array == old(self).array,
            if old(self).index < old(self).array.offsets.spec_len() {
                r == old(self).array.spec_get(old(self).index) && final(self).index == old(
                    self,
                ).index + 1
            } else {
                r is None && final(self).index == old(self).index
            },
    {
        if self.index < self.array.len() {
            let r = self.array.get(self.index);
            self.index = self.index + 1;
            r
        } else {
            None
        }
    }

    /// How many values remain.
    pub fn count(self) -> (r: usize)
        ensures
            r == if self.array.offsets.spec_len() >= self.index {
                self.array.offsets.spec_len() - self.index
            } else {
                0
            },
    {
        let l = self.array.len();
        if l >= self.index {
            (l - self.index) as usize
        } else {
            0
        }
    }
}

/// A streaming binary parser: a read position over an immutable byte buffer.
#[derive(Clone, Copy, Debug)]
pub struct Stream<'a> {
    /// The underlying buffer.
    pub data: &'a [u8],
    /// The current read position; may run past the end of `data`.
    pub offset: usize,
}

impl<'a> Stream<'a> {
    /// Creates a new `Stream` parser over `data`, positioned at its start.
    pub fn new(data: &'a [u8]) -> (r: Self)
        ensures
            r.data@ == data@,
            r.offset == 0,
    {
        Stream { data, offset: 0 }
    }

    /// Creates a new `Stream` parser at `offset`.
    ///
    /// Returns `None` when `offset` is out of bounds.
    pub fn new_at(data: &'a [u8], offset: usize) -> (r: Option<Self>)
        ensures
            if offset <= data@.len() {
                r matches Some(s) && s.data@ == data@ && s.offset == offset
            } else {
                r is None
            },
    {
        if offset <= data.len() {
            Some(Stream { data, offset })
        } else {
            None
        }
    }

    /// Checks that the stream has reached the end of the data.
    pub fn at_end(&self) -> (r: bool)
        ensures
            r == (self.offset >= self.data@.len()),
    {
        self.offset >= self.data.len()
    }

    /// Returns the current offset.
    pub fn offset(&self) -> (r: usize)
        ensures
            r == self.offset,
    {
        self.offset
    }

    /// Returns the trailing data, or `None` when the stream has run past the
    /// end.
    pub fn tail(&self) -> (r: Option<&'a [u8]>)
        ensures
            if self.offset <= self.data@.len() {
                r matches Some(t) && t@ == self.data@.subrange(
                    self.offset as int,
                    self.data@.len() as int,
                )
            } else {
                r is None
            },
    {
        if self.offset <= self.data.len() {
            Some(slice_subrange(self.data, self.offset, self.data.len()))
        } else {
            None
        }
    }

    /// Advances by `T`'s raw data size, without checking bounds.
    pub fn skip<T: FromData>(&mut self)
        requires
            old(self).offset + T::spec_size() <= usize::MAX,
        ensures
            final(self).data@ == old(self).data@,
            final(self).offset == old(self).offset + T::spec_size(),
    {
        self.advance(T::size());
    }

    /// Advances by the specified `len`, without checking bounds.
    pub fn advance(&mut self, len: usize)
        requires
            old(self).offset + len <= usize::MAX,
        ensures
            final(self).data@ == old(self).data@,
            final(self).offset == old(self).offset + len,
    {
        self.offset = self.offset + len;
    }

    /// Moves the read position back by `len` bytes.
    pub fn move_back(&mut self, len: usize)
        requires
            len <= old(self).offset,
        ensures
            final(self).data@ == old(self).data@,
            final(self).offset == old(self).offset - len,
    {
        self.offset = self.offset - len;
    }

    /// Parses the type from the stream.
    ///
    /// Returns `None` when there is not enough data left in the stream or the
    /// type parsing failed.
    pub fn read<T: FromData>(&mut self) -> (r: Option<T>)
        ensures
            final(self).data@ == old(self).data@,
            if old(self).offset + T::spec_size() <= old(self).data@.len() {
                r == T::spec_parse(
                    old(self).data@.subrange(
                        old(self).offset as int,
                        old(self).offset + T::spec_size(),
                    ),
                ) && final(self).offset == old(self).offset + T::spec_size()
            } else {
                r is None && final(self).offset == old(self).offset
            },
    {
        match self.read_bytes(T::size()) {
            Some(b) => T::parse(b),
            None => None,
        }
    }

    /// Reads a single byte from the stream.
    pub fn read_byte(&mut self) -> (r: Option<u8>)
        ensures
            final(self).data@ == old(self).data@,
            if old(self).offset < old(self).data@.len() {
                r == Some(old(self).data@[old(self).offset as int]) && final(self).offset == old(
                    self,
                ).offset + 1
            } else {
                r is None && final(self).offset == old(self).offset
            },
    {
        if self.offset < self.data.len() {
            let b = self.data[self.offset];
            self.offset = self.offset + 1;
            Some(b)
        } else {
            None
        }
    }

    /// Returns the byte at the read position without consuming it.
    pub fn peek_byte(&self) -> (r: Option<u8>)
        ensures
            if self.offset < self.data@.len() {
                r == Some(self.data@[self.offset as int])
            } else {
                r is None
            },
    {
        if self.offset < self.data.len() {
            Some(self.data[self.offset])
        } else {
            None
        }
    }

    /// Reads `len` bytes from the stream, advancing past them.
    ///
    /// Returns `None`, leaving the stream unchanged, when fewer than `len`
    /// bytes remain.
    pub fn read_bytes(&mut self, len: usize) -> (r: Option<&'a [u8]>)
        ensures
            final(self).data@ == old(self).data@,
            if old(self).offset + len <= old(self).data@.len() {
                &&& r matches Some(s) && s@ == old(self).data@.subrange(
                    old(self).offset as int,
                    old(self).offset + len,
                )
                &&& final(self).offset == old(self).offset + len
            } else {
                r is None && final(self).offset == old(self).offset
            },
    {
        if self.offset <= self.data.len() && len <= self.data.len() - self.offset {
            let r = slice_subrange(self.data, self.offset, self.offset + len);
            self.offset = self.offset + len;
            Some(r)
        } else {
            None
        }
    }

    /// Reads the next `count` types as a lazy array.
    pub fn read_array16<T: FromData>(&mut self, count: u16) -> (r: Option<LazyArray16<'a, T>>)
        requires
            count as int * T::spec_size() as int <= usize::MAX,
        ensures
            final(self).data@ == old(self).data@,
            if old(self).offset + count as int * T::spec_size() as int <= old(self).data@.len() {
                &&& r matches Some(a) && a.spec_data() == old(self).data@.subrange(
                    old(self).offset as int,
                    old(self).offset + count as int * T::spec_size() as int,
                )
                &&& final(self).offset == old(self).offset + count as int * T::spec_size() as int
            } else {
                r is None && final(self).offset == old(self).offset
            },
    {
        let len = (count as usize) * T::size();
        match self.read_bytes(len) {
            Some(b) => Some(LazyArray16::new(b)),
            None => None,
        }
    }

    /// Reads a 16-bit offset from the stream, then returns the tail of `data`
    /// starting at that offset.
    pub fn read_at_offset16(&mut self, data: &'a [u8]) -> (r: Option<&'a [u8]>)
        ensures
            final(self).data@ == old(self).data@,
            if old(self).offset + 2 <= old(self).data@.len() {
                ({
                    let off = spec_u16_be(
                        old(self).data@.subrange(old(self).offset as int, old(self).offset + 2),
                    );
                    &&& final(self).offset == old(self).offset + 2
                    &&& if off <= data@.len() {
                        r matches Some(t) && t@ == data@.subrange(off as int, data@.len() as int)
                    } else {
                        r is None
                    }
                })
            } else {
                r is None && final(self).offset == old(self).offset
            },
    {
        match self.read::<Offset16>() {
            Some(offset) => {
                let off = offset.to_usize();
                if off <= data.len() {
                    Some(slice_subrange(data, off, data.len()))
                } else {
                    None
                }
            },
            None => None,
        }
    }
}


} // verus!
