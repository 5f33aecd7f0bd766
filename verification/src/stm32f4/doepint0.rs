//! Device endpoint-0 interrupt register (STM32F427 `OTG_FS_DEVICE.DOEPINT0`).
use super::generic;
use super::generic::{lemma_field_masks, read_field, RegWriter};
use vstd::prelude::*;

verus! {

/// Register `DOEPINT0` reader.
pub struct R(pub generic::R<DOEPINT0_SPEC>);

impl From<generic::R<DOEPINT0_SPEC>> for R {
    fn from(reader: generic::R<DOEPINT0_SPEC>) -> (r: Self) {
        R(reader)
    }
}

impl vstd::std_specs::convert::FromSpecImpl<generic::R<DOEPINT0_SPEC>> for R {
    open spec fn obeys_from_spec() -> bool {
        true
    }

    open spec fn from_spec(reader: generic::R<DOEPINT0_SPEC>) -> Self {
        R(reader)
    }
}

impl R {
    /// The register's bits.
    pub fn bits(&self) -> (r: u32)
        ensures
            r == self.0.bits,
    {
        self.0.bits
    }
}

/// Register `DOEPINT0` writer.
pub struct W(pub generic::W<DOEPINT0_SPEC>);

impl From<generic::W<DOEPINT0_SPEC>> for W {
    fn from(writer: generic::W<DOEPINT0_SPEC>) -> (r: Self) {
        W(writer)
    }
}

impl vstd::std_specs::convert::FromSpecImpl<generic::W<DOEPINT0_SPEC>> for W {
    open spec fn obeys_from_spec() -> bool {
        true
    }

    open spec fn from_spec(writer: generic::W<DOEPINT0_SPEC>) -> Self {
        W(writer)
    }
}

impl RegWriter for W {
    open spec fn spec_bits(&self) -> u32 {
        self.0.bits
    }

    fn current_bits(&self) -> (r: u32) {
        self.0.bits
    }

    fn store_bits(&mut self, bits: u32) {
        self.0.bits = bits;
    }
}

/// Field `B2BSTUP` reader - B2BSTUP
#[allow(non_camel_case_types)]
pub type B2BSTUP_R = generic::BitReader<bool>;

/// Field `B2BSTUP` writer - B2BSTUP
#[allow(non_camel_case_types)]
pub type B2BSTUP_W<'a, const O: u8> = generic::BitWriter<'a, u32, DOEPINT0_SPEC, bool, O>;

/// Field `OTEPDIS` reader - OTEPDIS
#[allow(non_camel_case_types)]
pub type OTEPDIS_R = generic::BitReader<bool>;

/// Field `OTEPDIS` writer - OTEPDIS
#[allow(non_camel_case_types)]
pub type OTEPDIS_W<'a, const O: u8> = generic::BitWriter<'a, u32, DOEPINT0_SPEC, bool, O>;

/// Field `STUP` reader - STUP
#[allow(non_camel_case_types)]
pub type STUP_R = generic::BitReader<bool>;

/// Field `STUP` writer - STUP
#[allow(non_camel_case_types)]
pub type STUP_W<'a, const O: u8> = generic::BitWriter<'a, u32, DOEPINT0_SPEC, bool, O>;

/// Field `EPDISD` reader - EPDISD
#[allow(non_camel_case_types)]
pub type EPDISD_R = generic::BitReader<bool>;

/// Field `EPDISD` writer - EPDISD
#[allow(non_camel_case_types)]
pub type EPDISD_W<'a, const O: u8> = generic::BitWriter<'a, u32, DOEPINT0_SPEC, bool, O>;

/// Field `XFRC` reader - XFRC
#[allow(non_camel_case_types)]
pub type XFRC_R = generic::BitReader<bool>;

/// Field `XFRC` writer - XFRC
#[allow(non_camel_case_types)]
pub type XFRC_W<'a, const O: u8> = generic::BitWriter<'a, u32, DOEPINT0_SPEC, bool, O>;

impl R {
    /// Bit 6 - B2BSTUP
    pub fn b2bstup(&self) -> (r: B2BSTUP_R)
        ensures
            r.bits == (read_field(self.0.bits, 1, 6) != 0),
    {
        proof {
            lemma_field_masks();
        }
        B2BSTUP_R::new(((self.0.bits >> 6) & 1) != 0)
    }

    /// Bit 4 - OTEPDIS
    pub fn otepdis(&self) -> (r: OTEPDIS_R)
        ensures
            r.bits == (read_field(self.0.bits, 1, 4) != 0),
    {
        proof {
            lemma_field_masks();
        }
        OTEPDIS_R::new(((self.0.bits >> 4) & 1) != 0)
    }

    /// Bit 3 - STUP
    pub fn stup(&self) -> (r: STUP_R)
        ensures
            r.bits == (read_field(self.0.bits, 1, 3) != 0),
    {
        proof {
            lemma_field_masks();
        }
        STUP_R::new(((self.0.bits >> 3) & 1) != 0)
    }

    /// Bit 1 - EPDISD
    pub fn epdisd(&self) -> (r: EPDISD_R)
        ensures
            r.bits == (read_field(self.0.bits, 1, 1) != 0),
    {
        proof {
            lemma_field_masks();
        }
        EPDISD_R::new(((self.0.bits >> 1) & 1) != 0)
    }

    /// Bit 0 - XFRC
    pub fn xfrc(&self) -> (r: XFRC_R)
        ensures
            r.bits == (read_field(self.0.bits, 1, 0) != 0),
    {
        proof {
            lemma_field_masks();
            let b: u32 = self.0.bits;
            assert((b >> 0u8) == b) by (bit_vector);
        }
        XFRC_R::new((self.0.bits & 1) != 0)
    }
}

impl W {
    /// Bit 6 - B2BSTUP
    pub fn b2bstup(&mut self) -> (r: B2BSTUP_W<'_, 6>)
        ensures
            *r.w == *old(self),
            *final(self) == *final(r.w),
    {
        B2BSTUP_W::new(self)
    }

    /// Bit 4 - OTEPDIS
    pub fn otepdis(&mut self) -> (r: OTEPDIS_W<'_, 4>)
        ensures
            *r.w == *old(self),
            *final(self) == *final(r.w),
    {
        OTEPDIS_W::new(self)
    }

    /// Bit 3 - STUP
    pub fn stup(&mut self) -> (r: STUP_W<'_, 3>)
        ensures
            *r.w == *old(self),
            *final(self) == *final(r.w),
    {
        STUP_W::new(self)
    }

    /// Bit 1 - EPDISD
    pub fn epdisd(&mut self) -> (r: EPDISD_W<'_, 1>)
        ensures
            *r.w == *old(self),
            *final(self) == *final(r.w),
    {
        EPDISD_W::new(self)
    }

    /// Bit 0 - XFRC
    pub fn xfrc(&mut self) -> (r: XFRC_W<'_, 0>)
        ensures
            *r.w == *old(self),
            *final(self) == *final(r.w),
    {
        XFRC_W::new(self)
    }
}

impl W {
    /// Writes raw bits to the register.
    pub fn bits(&mut self, bits: u32) -> (r: &mut Self)
        ensures
            r.0.bits == bits,
            *final(self) == *final(r),
    {
        self.0.bits = bits;
        self
    }
}

/// Device endpoint-0 interrupt register
#[allow(non_camel_case_types)]
pub struct DOEPINT0_SPEC;

impl generic::RegisterSpec for DOEPINT0_SPEC {
}

impl generic::Readable for DOEPINT0_SPEC {
    type Reader = R;
}

impl generic::Writable for DOEPINT0_SPEC {
    type Writer = W;
}

/// The register's value on reset is `0x80`.
impl generic::Resettable for DOEPINT0_SPEC {
    open spec fn spec_reset_value() -> u32 {
        0x80
    }

    fn reset_value() -> (r: u32) {
        0x80
    }
}

} // verus!
