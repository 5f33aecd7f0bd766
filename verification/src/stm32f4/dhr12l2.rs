//! DAC channel 2 12-bit left-aligned data holding register (STM32F446 `DAC.DHR12L2`).
use super::generic;
use super::generic::{lemma_field_masks, read_field, RegWriter};
use vstd::prelude::*;

verus! {

/// Register `DHR12L2` reader.
pub struct R(pub generic::R<DHR12L2_SPEC>);

impl From<generic::R<DHR12L2_SPEC>> for R {
    fn from(reader: generic::R<DHR12L2_SPEC>) -> (r: Self) {
        R(reader)
    }
}

impl vstd::std_specs::convert::FromSpecImpl<generic::R<DHR12L2_SPEC>> for R {
    open spec fn obeys_from_spec() -> bool {
        true
    }

    open spec fn from_spec(reader: generic::R<DHR12L2_SPEC>) -> Self {
        R(reader)
    }
}

impl R {
    /// The register's bits.
    pub fn bits(&self) -> (r: u32)
        ensures
            r == self.0.bits,
    {
        self.0.bits
    }
}

/// Register `DHR12L2` writer.
pub struct W(pub generic::W<DHR12L2_SPEC>);

impl From<generic::W<DHR12L2_SPEC>> for W {
    fn from(writer: generic::W<DHR12L2_SPEC>) -> (r: Self) {
        W(writer)
    }
}

impl vstd::std_specs::convert::FromSpecImpl<generic::W<DHR12L2_SPEC>> for W {
    open spec fn obeys_from_spec() -> bool {
        true
    }

    open spec fn from_spec(writer: generic::W<DHR12L2_SPEC>) -> Self {
        W(writer)
    }
}

impl RegWriter for W {
    open spec fn spec_bits(&self) -> u32 {
        self.0.bits
    }

    fn current_bits(&self) -> (r: u32) {
        self.0.bits
    }

    fn store_bits(&mut self, bits: u32) {
        self.0.bits = bits;
    }
}

/// Field `DACC2DHR` reader - DAC channel2 12-bit left-aligned data
#[allow(non_camel_case_types)]
pub type DACC2DHR_R = generic::FieldReader<u16, u16>;

/// Field `DACC2DHR` writer - DAC channel2 12-bit left-aligned data
#[allow(non_camel_case_types)]
pub type DACC2DHR_W<'a, const O: u8> = generic::FieldWriterSafe<'a, u32, DHR12L2_SPEC, u16, u16, 12, O>;

impl R {
    /// Bits 4:15 - DAC channel2 12-bit left-aligned data
    pub fn dacc2dhr(&self) -> (r: DACC2DHR_R)
        ensures
            r.bits == read_field(self.0.bits, 12, 4) as u16,
    {
        proof {
            lemma_field_masks();
        }
        DACC2DHR_R::new(((self.0.bits >> 4) & 0x0fff) as u16)
    }
}

impl W {
    /// Bits 4:15 - DAC channel2 12-bit left-aligned data
    pub fn dacc2dhr(&mut self) -> (r: DACC2DHR_W<'_, 4>)
        ensures
            *r.w == *old(self),
            *final(self) == *final(r.w),
    {
        DACC2DHR_W::new(self)
    }
}

impl W {
    /// Writes raw bits to the register.
    pub fn bits(&mut self, bits: u32) -> (r: &mut Self)
        ensures
            r.0.bits == bits,
            *final(self) == *final(r),
    {
        self.0.bits = bits;
        self
    }
}

/// channel2 12-bit left aligned data holding register
#[allow(non_camel_case_types)]
pub struct DHR12L2_SPEC;

impl generic::RegisterSpec for DHR12L2_SPEC {
}

impl generic::Readable for DHR12L2_SPEC {
    type Reader = R;
}

impl generic::Writable for DHR12L2_SPEC {
    type Writer = W;
}

/// The register's value on reset is `0`.
impl generic::Resettable for DHR12L2_SPEC {
    open spec fn spec_reset_value() -> u32 {
        0
    }

    fn reset_value() -> (r: u32) {
        0
    }
}

} // verus!
