//! Generic register reader and writer types: a register value is read field
//! by field, and written field by field into a writer that starts from the
//! register's reset value (or its current value).
use core::marker::PhantomData;
use vstd::prelude::*;
use vstd::std_specs::convert::FromSpec;

verus! {

/// The all-ones mask of a field `width` bits wide.
pub open spec fn field_mask(width: u8) -> u32 {
    if width >= 32 {
        0xffff_ffffu32
    } else {
        ((1u32 << width) - 1) as u32
    }
}

/// The value of the field of `width` bits at `offset`.
pub open spec fn read_field(bits: u32, width: u8, offset: u8) -> u32 {
    (bits >> offset) & field_mask(width)
}

/// `bits` with the field of `width` bits at `offset` set to `value`
/// (truncated to the field's width), and every other bit unchanged.
pub open spec fn write_field(bits: u32, width: u8, offset: u8, value: u32) -> u32 {
    (bits & !(field_mask(width) << offset)) | ((value & field_mask(width)) << offset)
}

/// A register described by a specification type.
pub trait RegisterSpec {
}

/// A register with a value on reset.
pub trait Resettable: RegisterSpec {
    spec fn spec_reset_value() -> u32;

    fn reset_value() -> (r: u32)
        ensures
            r == Self::spec_reset_value(),
    ;
}

/// A writer of a register: holds the bits to write.
pub trait RegWriter {
    spec fn spec_bits(&self) -> u32;

    fn current_bits(&self) -> (r: u32)
        ensures
            r == self.spec_bits(),
    ;

    fn store_bits(&mut self, bits: u32)
        ensures
            final(self).spec_bits() == bits,
    ;
}

/// A register that can be read, with its reader type.
pub trait Readable: RegisterSpec {
    type Reader;
}

/// A register that can be written, with its writer type.
pub trait Writable: RegisterSpec {
    type Writer: RegWriter;
}

/// The mask of a field `width` bits wide.
pub fn mask_of(width: u8) -> (m: u32)
    requires
        1 <= width <= 32,
    ensures
        m == field_mask(width),
{
    if width >= 32 {
        0xffff_ffffu32
    } else {
        assert(1u32 << width >= 1) by (bit_vector)
            requires
                width < 32;
        (1u32 << width) - 1
    }
}

/// A field value type: an unsigned integer no wider than the register.
pub trait FieldValue: Copy {
    spec fn spec_raw(self) -> u32;

    fn raw(self) -> (r: u32)
        ensures
            r == self.spec_raw(),
    ;
}

impl FieldValue for u8 {
    open spec fn spec_raw(self) -> u32 {
        self as u32
    }

    fn raw(self) -> (r: u32) {
        self as u32
    }
}

impl FieldValue for u16 {
    open spec fn spec_raw(self) -> u32 {
        self as u32
    }

    fn raw(self) -> (r: u32) {
        self as u32
    }
}

impl FieldValue for u32 {
    open spec fn spec_raw(self) -> u32 {
        self
    }

    fn raw(self) -> (r: u32) {
        self
    }
}

/// A writer of a field of `WI` bits at offset `O`.
pub struct FieldWriterRaw<'a, U, REG: Writable, N, FI, Safety, const WI: u8, const O: u8> {
    pub w: &'a mut REG::Writer,
    pub _field: PhantomData<(U, N, FI, Safety)>,
}

pub struct Safe;

pub struct Unsafe;

pub type FieldWriter<'a, U, REG, N, FI, const WI: u8, const O: u8> = FieldWriterRaw<'a, U, REG, N, FI, Unsafe, WI, O>;

pub type FieldWriterSafe<'a, U, REG, N, FI, const WI: u8, const O: u8> = FieldWriterRaw<'a, U, REG, N, FI, Safe, WI, O>;

impl<'a, U, REG: Writable, N: FieldValue, FI, Safety, const WI: u8, const O: u8> FieldWriterRaw<
    'a,
    U,
    REG,
    N,
    FI,
    Safety,
    WI,
    O,
> {
    /// A writer of this field of `w`.
    pub fn new(w: &'a mut REG::Writer) -> (r: Self)
        ensures
            *r.w == *old(w),
            *final(w) == *final(r.w),
    {
        FieldWriterRaw { w, _field: PhantomData }
    }

    /// Writes `value` into the field; the other bits stay.
    pub fn bits(self, value: N) -> (r: &'a mut REG::Writer)
        requires
            1 <= WI <= 32,
            WI + O <= 32,
        ensures
            r.spec_bits() == write_field(old(self.w).spec_bits(), WI, O, value.spec_raw()),
            *final(self.w) == *final(r),
    {
        let old_bits = self.w.current_bits();
        let mask = mask_of(WI);
        let v = value.raw();
        let new_bits = (old_bits & !(mask << O)) | ((v & mask) << O);
        self.w.store_bits(new_bits);
        self.w
    }
}


impl<'a, U, REG: Writable, N: FieldValue, FI, Safety, const WI: u8, const O: u8> FieldWriterRaw<
    'a,
    U,
    REG,
    N,
    FI,
    Safety,
    WI,
    O,
> where N: From<FI> {
    /// Writes the value of a named variant into the field.
    pub fn variant(self, variant: FI) -> (r: &'a mut REG::Writer)
        requires
            1 <= WI <= 32,
            WI + O <= 32,
        ensures
            N::obeys_from_spec() ==> r.spec_bits() == write_field(
                old(self.w).spec_bits(),
                WI,
                O,
                N::from_spec(variant).spec_raw(),
            ),
            *final(self.w) == *final(r),
    {
        let n = N::from(variant);
        self.bits(n)
    }
}

/// Writes of single-bit fields.
pub struct BitM;

/// A writer of the one-bit field at offset `O`.
pub struct BitWriterRaw<'a, U, REG: Writable, FI, M, const O: u8> {
    pub w: &'a mut REG::Writer,
    pub _field: PhantomData<(U, FI, M)>,
}

pub type BitWriter<'a, U, REG, FI, const O: u8> = BitWriterRaw<'a, U, REG, FI, BitM, O>;

/// Setting a bit is writing 1 into its one-bit field; clearing it, 0.
pub proof fn lemma_set_clear_bit(bits: u32, offset: u8)
    requires
        offset < 32,
    ensures
        bits | (1u32 << offset) == write_field(bits, 1, offset, 1),
        bits & !(1u32 << offset) == write_field(bits, 1, offset, 0),
{
    assert(field_mask(1) == 1u32) by (bit_vector);
    assert(bits | (1u32 << offset) == (bits & !(1u32 << offset)) | ((1u32 & 1u32) << offset))
        by (bit_vector)
        requires
            offset < 32;
    assert(bits & !(1u32 << offset) == (bits & !(1u32 << offset)) | ((0u32 & 1u32) << offset))
        by (bit_vector)
        requires
            offset < 32;
}

impl<'a, U, REG: Writable, FI, M, const O: u8> BitWriterRaw<'a, U, REG, FI, M, O> {
    /// A writer of this bit of `w`.
    pub fn new(w: &'a mut REG::Writer) -> (r: Self)
        ensures
            *r.w == *old(w),
            *final(w) == *final(r.w),
    {
        BitWriterRaw { w, _field: PhantomData }
    }

    /// Writes `value` into the bit; the other bits stay.
    pub fn bit(self, value: bool) -> (r: &'a mut REG::Writer)
        requires
            O < 32,
        ensures
            r.spec_bits() == write_field(old(self.w).spec_bits(), 1, O, if value { 1 } else { 0 }),
            *final(self.w) == *final(r),
    {
        let old_bits = self.w.current_bits();
        let mask = mask_of(1);
        let v: u32 = if value { 1 } else { 0 };
        let new_bits = (old_bits & !(mask << O)) | ((v & mask) << O);
        self.w.store_bits(new_bits);
        self.w
    }

    /// Sets the bit.
    pub fn set_bit(self) -> (r: &'a mut REG::Writer)
        requires
            O < 32,
        ensures
            r.spec_bits() == write_field(old(self.w).spec_bits(), 1, O, 1),
            *final(self.w) == *final(r),
    {
        let old_bits = self.w.current_bits();
        proof {
            lemma_set_clear_bit(old_bits, O);
        }
        self.w.store_bits(old_bits | (1u32 << O));
        self.w
    }

    /// Clears the bit.
    pub fn clear_bit(self) -> (r: &'a mut REG::Writer)
        requires
            O < 32,
        ensures
            r.spec_bits() == write_field(old(self.w).spec_bits(), 1, O, 0),
            *final(self.w) == *final(r),
    {
        let old_bits = self.w.current_bits();
        proof {
            lemma_set_clear_bit(old_bits, O);
        }
        self.w.store_bits(old_bits & !(1u32 << O));
        self.w
    }
}

/// The value of a field that was read.
pub struct FieldReaderRaw<U, T> {
    pub bits: U,
    pub _reg: PhantomData<T>,
}

pub type FieldReader<U, FI> = FieldReaderRaw<U, FI>;

impl<U: Copy, T> FieldReaderRaw<U, T> {
    pub fn new(bits: U) -> (r: Self)
        ensures
            r.bits == bits,
    {
        FieldReaderRaw { bits, _reg: PhantomData }
    }

    /// The field's value.
    pub fn bits(&self) -> (r: U)
        ensures
            r == self.bits,
    {
        self.bits
    }
}

/// The value of a one-bit field that was read.
pub struct BitReaderRaw<T> {
    pub bits: bool,
    pub _reg: PhantomData<T>,
}

pub type BitReader<FI> = BitReaderRaw<FI>;

impl<T> BitReaderRaw<T> {
    pub fn new(bits: bool) -> (r: Self)
        ensures
            r.bits == bits,
    {
        BitReaderRaw { bits, _reg: PhantomData }
    }

    /// Whether the bit is set.
    pub fn bit(&self) -> (r: bool)
        ensures
            r == self.bits,
    {
        self.bits
    }

    pub fn bit_is_clear(&self) -> (r: bool)
        ensures
            r == !self.bits,
    {
        !self.bits
    }

    pub fn bit_is_set(&self) -> (r: bool)
        ensures
            r == self.bits,
    {
        self.bits
    }
}

/// A value read from a register.
pub struct R<REG> {
    pub bits: u32,
    pub _reg: PhantomData<REG>,
}

impl<REG> R<REG> {
    pub fn new(bits: u32) -> (r: Self)
        ensures
            r.bits == bits,
    {
        R { bits, _reg: PhantomData }
    }

    /// The register's bits.
    pub fn bits(&self) -> (r: u32)
        ensures
            r == self.bits,
    {
        self.bits
    }
}

/// The bits to write to a register.
pub struct W<REG> {
    pub bits: u32,
    pub _reg: PhantomData<REG>,
}

impl<REG> W<REG> {
    /// A writer holding `bits` (the register's current value, for a
    /// modification).
    pub fn new(bits: u32) -> (r: Self)
        ensures
            r.bits == bits,
    {
        W { bits, _reg: PhantomData }
    }

    /// Replaces every bit.
    pub fn bits(&mut self, bits: u32) -> (r: &mut Self)
        ensures
            r.bits == bits,
            *final(self) == *final(r),
    {
        self.bits = bits;
        self
    }
}

impl<REG: Resettable> W<REG> {
    /// A writer holding the register's reset value, as a write starts from.
    pub fn reset() -> (r: Self)
        ensures
            r.bits == REG::spec_reset_value(),
    {
        W { bits: REG::reset_value(), _reg: PhantomData }
    }
}

/// Reading a field just written gives the value written (truncated to the
/// field's width).
pub proof fn lemma_read_after_write(bits: u32, width: u8, offset: u8, value: u32)
    requires
        1 <= width,
        width + offset <= 32,
    ensures
        read_field(write_field(bits, width, offset, value), width, offset) == value & field_mask(
            width,
        ),
{
    assert(((((bits & !(field_mask(width) << offset)) | ((value & field_mask(width)) << offset))
        >> offset) & field_mask(width)) == value & field_mask(width)) by (bit_vector)
        requires
            1 <= width,
            width + offset <= 32;
}

/// Writing a field leaves every field that does not overlap it unchanged.
pub proof fn lemma_write_keeps_other_fields(
    bits: u32,
    width: u8,
    offset: u8,
    value: u32,
    other_width: u8,
    other_offset: u8,
)
    requires
        1 <= width,
        width + offset <= 32,
        1 <= other_width,
        other_width + other_offset <= 32,
        offset + width <= other_offset || other_offset + other_width <= offset,
    ensures
        read_field(write_field(bits, width, offset, value), other_width, other_offset)
            == read_field(bits, other_width, other_offset),
{
    assert(((((bits & !(field_mask(width) << offset)) | ((value & field_mask(width)) << offset))
        >> other_offset) & field_mask(other_width)) == ((bits >> other_offset) & field_mask(
        other_width,
    ))) by (bit_vector)
        requires
            1 <= width,
            width + offset <= 32,
            1 <= other_width,
            other_width + other_offset <= 32,
            offset + width <= other_offset || other_offset + other_width <= offset;
}

/// A second write of a field replaces the first.
pub proof fn lemma_write_twice(bits: u32, width: u8, offset: u8, first: u32, second: u32)
    requires
        1 <= width,
        width + offset <= 32,
    ensures
        write_field(write_field(bits, width, offset, first), width, offset, second) == write_field(
            bits,
            width,
            offset,
            second,
        ),
{
    assert((((bits & !(field_mask(width) << offset)) | ((first & field_mask(width)) << offset))
        & !(field_mask(width) << offset)) | ((second & field_mask(width)) << offset) == (bits
        & !(field_mask(width) << offset)) | ((second & field_mask(width)) << offset))
        by (bit_vector)
        requires
            1 <= width,
            width + offset <= 32;
}


/// The masks of the field widths the registers here use.
pub proof fn lemma_field_masks()
    ensures
        field_mask(1) == 1u32,
        field_mask(7) == 0x7fu32,
        field_mask(12) == 0xfffu32,
        field_mask(15) == 0x7fffu32,
        field_mask(16) == 0xffffu32,
        field_mask(32) == 0xffff_ffffu32,
{
    assert(field_mask(1) == 1u32) by (bit_vector);
    assert(field_mask(7) == 0x7fu32) by (bit_vector);
    assert(field_mask(12) == 0xfffu32) by (bit_vector);
    assert(field_mask(15) == 0x7fffu32) by (bit_vector);
    assert(field_mask(16) == 0xffffu32) by (bit_vector);
}

/// A register: the value it holds.
pub struct Reg<REG> {
    pub bits: u32,
    pub _marker: PhantomData<REG>,
}

impl<REG> Reg<REG> {
    /// A register holding `bits`.
    pub fn new(bits: u32) -> (r: Self)
        ensures
            r.bits == bits,
    {
        Reg { bits, _marker: PhantomData }
    }

    /// Reads the register's value.
    pub fn read(&self) -> (r: R<REG>)
        ensures
            r.bits == self.bits,
    {
        R::new(self.bits)
    }

    /// Stores what a writer holds.
    pub fn write(&mut self, w: W<REG>)
        ensures
            final(self).bits == w.bits,
    {
        self.bits = w.bits;
    }
}

} // verus!
