//! Wakeup timer register of the real-time clock (STM32F429 `RTC.WUTR`).
use super::generic;
use super::generic::{lemma_field_masks, read_field, RegWriter};
use vstd::prelude::*;

verus! {

/// Register `WUTR` reader.
pub struct R(pub generic::R<WUTR_SPEC>);

impl From<generic::R<WUTR_SPEC>> for R {
    fn from(reader: generic::R<WUTR_SPEC>) -> (r: Self) {
        R(reader)
    }
}

impl vstd::std_specs::convert::FromSpecImpl<generic::R<WUTR_SPEC>> for R {
    open spec fn obeys_from_spec() -> bool {
        true
    }

    open spec fn from_spec(reader: generic::R<WUTR_SPEC>) -> Self {
        R(reader)
    }
}

impl R {
    /// The register's bits.
    pub fn bits(&self) -> (r: u32)
        ensures
            r == self.0.bits,
    {
        self.0.bits
    }
}

/// Register `WUTR` writer.
pub struct W(pub generic::W<WUTR_SPEC>);

impl From<generic::W<WUTR_SPEC>> for W {
    fn from(writer: generic::W<WUTR_SPEC>) -> (r: Self) {
        W(writer)
    }
}

impl vstd::std_specs::convert::FromSpecImpl<generic::W<WUTR_SPEC>> for W {
    open spec fn obeys_from_spec() -> bool {
        true
    }

    open spec fn from_spec(writer: generic::W<WUTR_SPEC>) -> Self {
        W(writer)
    }
}

impl RegWriter for W {
    open spec fn spec_bits(&self) -> u32 {
        self.0.bits
    }

    fn current_bits(&self) -> (r: u32) {
        self.0.bits
    }

    fn store_bits(&mut self, bits: u32) {
        self.0.bits = bits;
    }
}

/// Field `WUT` reader - Wakeup auto-reload value bits
#[allow(non_camel_case_types)]
pub type WUT_R = generic::FieldReader<u16, u16>;

/// Field `WUT` writer - Wakeup auto-reload value bits
#[allow(non_camel_case_types)]
pub type WUT_W<'a, const O: u8> = generic::FieldWriterSafe<'a, u32, WUTR_SPEC, u16, u16, 16, O>;

impl R {
    /// Bits 0:15 - Wakeup auto-reload value bits
    pub fn wut(&self) -> (r: WUT_R)
        ensures
            r.bits == read_field(self.0.bits, 16, 0) as u16,
    {
        proof {
            lemma_field_masks();
            let b: u32 = self.0.bits;
            assert((b >> 0u8) == b) by (bit_vector);
        }
        WUT_R::new((self.0.bits & 0xffff) as u16)
    }
}

impl W {
    /// Bits 0:15 - Wakeup auto-reload value bits
    pub fn wut(&mut self) -> (r: WUT_W<'_, 0>)
        ensures
            *r.w == *old(self),
            *final(self) == *final(r.w),
    {
        WUT_W::new(self)
    }
}

impl W {
    /// Writes raw bits to the register.
    pub fn bits(&mut self, bits: u32) -> (r: &mut Self)
        ensures
            r.0.bits == bits,
            *final(self) == *final(r),
    {
        self.0.bits = bits;
        self
    }
}

/// Wakeup timer register
#[allow(non_camel_case_types)]
pub struct WUTR_SPEC;

impl generic::RegisterSpec for WUTR_SPEC {
}

impl generic::Readable for WUTR_SPEC {
    type Reader = R;
}

impl generic::Writable for WUTR_SPEC {
    type Writer = W;
}

/// The register's value on reset is `0xffff`.
impl generic::Resettable for WUTR_SPEC {
    open spec fn spec_reset_value() -> u32 {
        0xffff
    }

    fn reset_value() -> (r: u32) {
        0xffff
    }
}

} // verus!
