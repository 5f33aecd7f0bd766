//! Key register of the independent watchdog (STM32F401 `IWDG.KR`).
use super::generic;
use super::generic::{field_mask, lemma_field_masks, read_field, write_field, RegWriter};
use vstd::prelude::*;

verus! {

/// Register `KR` writer.
pub struct W(pub generic::W<KR_SPEC>);

impl From<generic::W<KR_SPEC>> for W {
    fn from(writer: generic::W<KR_SPEC>) -> (r: Self) {
        W(writer)
    }
}

impl vstd::std_specs::convert::FromSpecImpl<generic::W<KR_SPEC>> for W {
    open spec fn obeys_from_spec() -> bool {
        true
    }

    open spec fn from_spec(writer: generic::W<KR_SPEC>) -> Self {
        W(writer)
    }
}

impl RegWriter for W {
    open spec fn spec_bits(&self) -> u32 {
        self.0.bits
    }

    fn current_bits(&self) -> (r: u32) {
        self.0.bits
    }

    fn store_bits(&mut self, bits: u32) {
        self.0.bits = bits;
    }
}

/// Key value.
#[allow(non_camel_case_types)]
#[derive(Clone, Copy, Debug, PartialEq, Eq, Structural)]
pub enum KEY_AW {
    /// 21845: Enable access to PR, RLR and WINR registers (0x5555)
    Enable,
    /// 43690: Reset the watchdog value (0xAAAA)
    Reset,
    /// 52428: Start the watchdog (0xCCCC)
    Start,
}

/// The key each variant writes.
pub open spec fn key_value(variant: KEY_AW) -> u16 {
    match variant {
        KEY_AW::Enable => 21845,
        KEY_AW::Reset => 43690,
        KEY_AW::Start => 52428,
    }
}

impl From<KEY_AW> for u16 {
    fn from(variant: KEY_AW) -> (r: Self) {
        match variant {
            KEY_AW::Enable => 21845,
            KEY_AW::Reset => 43690,
            KEY_AW::Start => 52428,
        }
    }
}

impl vstd::std_specs::convert::FromSpecImpl<KEY_AW> for u16 {
    open spec fn obeys_from_spec() -> bool {
        true
    }

    open spec fn from_spec(variant: KEY_AW) -> Self {
        key_value(variant)
    }
}

/// Field `KEY` writer - Key value
#[allow(non_camel_case_types)]
pub type KEY_W<'a, const O: u8> = generic::FieldWriter<'a, u32, KR_SPEC, u16, KEY_AW, 16, O>;

impl<'a, const O: u8> KEY_W<'a, O> {
    /// Enable access to PR, RLR and WINR registers (0x5555)
    pub fn enable(self) -> (r: &'a mut W)
        requires
            O <= 16,
        ensures
            r.spec_bits() == write_field(old(self.w).spec_bits(), 16, O, 0x5555),
            *final(self.w) == *final(r),
    {
        self.variant(KEY_AW::Enable)
    }

    /// Reset the watchdog value (0xAAAA)
    pub fn reset(self) -> (r: &'a mut W)
        requires
            O <= 16,
        ensures
            r.spec_bits() == write_field(old(self.w).spec_bits(), 16, O, 0xaaaa),
            *final(self.w) == *final(r),
    {
        self.variant(KEY_AW::Reset)
    }

    /// Start the watchdog (0xCCCC)
    pub fn start(self) -> (r: &'a mut W)
        requires
            O <= 16,
        ensures
            r.spec_bits() == write_field(old(self.w).spec_bits(), 16, O, 0xcccc),
            *final(self.w) == *final(r),
    {
        self.variant(KEY_AW::Start)
    }
}

impl W {
    /// Bits 0:15 - Key value
    pub fn key(&mut self) -> (r: KEY_W<'_, 0>)
        ensures
            *r.w == *old(self),
            *final(self) == *final(r.w),
    {
        KEY_W::new(self)
    }
}

impl W {
    /// Writes raw bits to the register.
    pub fn bits(&mut self, bits: u32) -> (r: &mut Self)
        ensures
            r.0.bits == bits,
            *final(self) == *final(r),
    {
        self.0.bits = bits;
        self
    }
}

/// Key register
#[allow(non_camel_case_types)]
pub struct KR_SPEC;

impl generic::RegisterSpec for KR_SPEC {
}

impl generic::Writable for KR_SPEC {
    type Writer = W;
}

/// The register's value on reset is `0`.
impl generic::Resettable for KR_SPEC {
    open spec fn spec_reset_value() -> u32 {
        0
    }

    fn reset_value() -> (r: u32) {
        0
    }
}

} // verus!
