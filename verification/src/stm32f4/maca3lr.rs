//! Ethernet MAC address 3 low register (STM32F405 `ETHERNET_MAC.MACA3LR`).
use super::generic;
use super::generic::{lemma_field_masks, read_field, RegWriter};
use vstd::prelude::*;

verus! {

/// Register `MACA3LR` reader.
pub struct R(pub generic::R<MACA3LR_SPEC>);

impl From<generic::R<MACA3LR_SPEC>> for R {
    fn from(reader: generic::R<MACA3LR_SPEC>) -> (r: Self) {
        R(reader)
    }
}

impl vstd::std_specs::convert::FromSpecImpl<generic::R<MACA3LR_SPEC>> for R {
    open spec fn obeys_from_spec() -> bool {
        true
    }

    open spec fn from_spec(reader: generic::R<MACA3LR_SPEC>) -> Self {
        R(reader)
    }
}

impl R {
    /// The register's bits.
    pub fn bits(&self) -> (r: u32)
        ensures
            r == self.0.bits,
    {
        self.0.bits
    }
}

/// Register `MACA3LR` writer.
pub struct W(pub generic::W<MACA3LR_SPEC>);

impl From<generic::W<MACA3LR_SPEC>> for W {
    fn from(writer: generic::W<MACA3LR_SPEC>) -> (r: Self) {
        W(writer)
    }
}

impl vstd::std_specs::convert::FromSpecImpl<generic::W<MACA3LR_SPEC>> for W {
    open spec fn obeys_from_spec() -> bool {
        true
    }

    open spec fn from_spec(writer: generic::W<MACA3LR_SPEC>) -> Self {
        W(writer)
    }
}

impl RegWriter for W {
    open spec fn spec_bits(&self) -> u32 {
        self.0.bits
    }

    fn current_bits(&self) -> (r: u32) {
        self.0.bits
    }

    fn store_bits(&mut self, bits: u32) {
        self.0.bits = bits;
    }
}

/// Field `MBCA3L` reader - MBCA3L
#[allow(non_camel_case_types)]
pub type MBCA3L_R = generic::FieldReader<u32, u32>;

/// Field `MBCA3L` writer - MBCA3L
#[allow(non_camel_case_types)]
pub type MBCA3L_W<'a, const O: u8> = generic::FieldWriter<'a, u32, MACA3LR_SPEC, u32, u32, 32, O>;

impl R {
    /// Bits 0:31 - MBCA3L
    pub fn mbca3l(&self) -> (r: MBCA3L_R)
        ensures
            r.bits == read_field(self.0.bits, 32, 0),
    {
        proof {
            lemma_field_masks();
            let b: u32 = self.0.bits;
            assert((b >> 0u8) & 0xffff_ffffu32 == b) by (bit_vector);
        }
        MBCA3L_R::new(self.0.bits)
    }
}

impl W {
    /// Bits 0:31 - MBCA3L
    pub fn mbca3l(&mut self) -> (r: MBCA3L_W<'_, 0>)
        ensures
            *r.w == *old(self),
            *final(self) == *final(r.w),
    {
        MBCA3L_W::new(self)
    }
}

impl W {
    /// Writes raw bits to the register.
    pub fn bits(&mut self, bits: u32) -> (r: &mut Self)
        ensures
            r.0.bits == bits,
            *final(self) == *final(r),
    {
        self.0.bits = bits;
        self
    }
}

/// Ethernet MAC address 3 low register
#[allow(non_camel_case_types)]
pub struct MACA3LR_SPEC;

impl generic::RegisterSpec for MACA3LR_SPEC {
}

impl generic::Readable for MACA3LR_SPEC {
    type Reader = R;
}

impl generic::Writable for MACA3LR_SPEC {
    type Writer = W;
}

/// The register's value on reset is `0xffff_ffff`.
impl generic::Resettable for MACA3LR_SPEC {
    open spec fn spec_reset_value() -> u32 {
        0xffff_ffff
    }

    fn reset_value() -> (r: u32) {
        0xffff_ffff
    }
}

} // verus!
