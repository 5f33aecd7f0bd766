//! Prescaler register of the real-time clock (STM32F446 `RTC.PRER`).
use super::generic;
use super::generic::{lemma_field_masks, read_field, RegWriter};
use vstd::prelude::*;

verus! {

/// Register `PRER` reader.
pub struct R(pub generic::R<PRER_SPEC>);

impl From<generic::R<PRER_SPEC>> for R {
    fn from(reader: generic::R<PRER_SPEC>) -> (r: Self) {
        R(reader)
    }
}

impl vstd::std_specs::convert::FromSpecImpl<generic::R<PRER_SPEC>> for R {
    open spec fn obeys_from_spec() -> bool {
        true
    }

    open spec fn from_spec(reader: generic::R<PRER_SPEC>) -> Self {
        R(reader)
    }
}

impl R {
    /// The register's bits.
    pub fn bits(&self) -> (r: u32)
        ensures
            r == self.0.bits,
    {
        self.0.bits
    }
}

/// Register `PRER` writer.
pub struct W(pub generic::W<PRER_SPEC>);

impl From<generic::W<PRER_SPEC>> for W {
    fn from(writer: generic::W<PRER_SPEC>) -> (r: Self) {
        W(writer)
    }
}

impl vstd::std_specs::convert::FromSpecImpl<generic::W<PRER_SPEC>> for W {
    open spec fn obeys_from_spec() -> bool {
        true
    }

    open spec fn from_spec(writer: generic::W<PRER_SPEC>) -> Self {
        W(writer)
    }
}

impl RegWriter for W {
    open spec fn spec_bits(&self) -> u32 {
        self.0.bits
    }

    fn current_bits(&self) -> (r: u32) {
        self.0.bits
    }

    fn store_bits(&mut self, bits: u32) {
        self.0.bits = bits;
    }
}

/// Field `PREDIV_A` reader - Asynchronous prescaler factor
#[allow(non_camel_case_types)]
pub type PREDIV_A_R = generic::FieldReader<u8, u8>;

/// Field `PREDIV_A` writer - Asynchronous prescaler factor
#[allow(non_camel_case_types)]
pub type PREDIV_A_W<'a, const O: u8> = generic::FieldWriterSafe<'a, u32, PRER_SPEC, u8, u8, 7, O>;

/// Field `PREDIV_S` reader - Synchronous prescaler factor
#[allow(non_camel_case_types)]
pub type PREDIV_S_R = generic::FieldReader<u16, u16>;

/// Field `PREDIV_S` writer - Synchronous prescaler factor
#[allow(non_camel_case_types)]
pub type PREDIV_S_W<'a, const O: u8> = generic::FieldWriterSafe<'a, u32, PRER_SPEC, u16, u16, 15, O>;

impl R {
    /// Bits 16:22 - Asynchronous prescaler factor
    pub fn prediv_a(&self) -> (r: PREDIV_A_R)
        ensures
            r.bits == read_field(self.0.bits, 7, 16) as u8,
    {
        proof {
            lemma_field_masks();
        }
        PREDIV_A_R::new(((self.0.bits >> 16) & 0x7f) as u8)
    }

    /// Bits 0:14 - Synchronous prescaler factor
    pub fn prediv_s(&self) -> (r: PREDIV_S_R)
        ensures
            r.bits == read_field(self.0.bits, 15, 0) as u16,
    {
        proof {
            lemma_field_masks();
            let b: u32 = self.0.bits;
            assert((b >> 0u8) == b) by (bit_vector);
        }
        PREDIV_S_R::new((self.0.bits & 0x7fff) as u16)
    }
}

impl W {
    /// Bits 16:22 - Asynchronous prescaler factor
    pub fn prediv_a(&mut self) -> (r: PREDIV_A_W<'_, 16>)
        ensures
            *r.w == *old(self),
            *final(self) == *final(r.w),
    {
        PREDIV_A_W::new(self)
    }

    /// Bits 0:14 - Synchronous prescaler factor
    pub fn prediv_s(&mut self) -> (r: PREDIV_S_W<'_, 0>)
        ensures
            *r.w == *old(self),
            *final(self) == *final(r.w),
    {
        PREDIV_S_W::new(self)
    }
}

impl W {
    /// Writes raw bits to the register.
    pub fn bits(&mut self, bits: u32) -> (r: &mut Self)
        ensures
            r.0.bits == bits,
            *final(self) == *final(r),
    {
        self.0.bits = bits;
        self
    }
}

/// prescaler register
#[allow(non_camel_case_types)]
pub struct PRER_SPEC;

impl generic::RegisterSpec for PRER_SPEC {
}

impl generic::Readable for PRER_SPEC {
    type Reader = R;
}

impl generic::Writable for PRER_SPEC {
    type Writer = W;
}

/// The register's value on reset is `0x007f_00ff`.
impl generic::Resettable for PRER_SPEC {
    open spec fn spec_reset_value() -> u32 {
        0x007f_00ff
    }

    fn reset_value() -> (r: u32) {
        0x007f_00ff
    }
}

} // verus!
