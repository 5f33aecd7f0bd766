//! Compensation cell control register (STM32F412 `SYSCFG.CMPCR`).
use super::generic;
use super::generic::{lemma_field_masks, read_field};
use vstd::prelude::*;

verus! {

/// Register `CMPCR` reader.
pub struct R(pub generic::R<CMPCR_SPEC>);

impl From<generic::R<CMPCR_SPEC>> for R {
    fn from(reader: generic::R<CMPCR_SPEC>) -> (r: Self) {
        R(reader)
    }
}

impl vstd::std_specs::convert::FromSpecImpl<generic::R<CMPCR_SPEC>> for R {
    open spec fn obeys_from_spec() -> bool {
        true
    }

    open spec fn from_spec(reader: generic::R<CMPCR_SPEC>) -> Self {
        R(reader)
    }
}

impl R {
    /// The register's bits.
    pub fn bits(&self) -> (r: u32)
        ensures
            r == self.0.bits,
    {
        self.0.bits
    }
}

/// Field `READY` reader - READY
#[allow(non_camel_case_types)]
pub type READY_R = generic::BitReader<bool>;

/// Field `CMP_PD` reader - Compensation cell power-down
#[allow(non_camel_case_types)]
pub type CMP_PD_R = generic::BitReader<bool>;

impl R {
    /// Bit 8 - READY
    pub fn ready(&self) -> (r: READY_R)
        ensures
            r.bits == (read_field(self.0.bits, 1, 8) != 0),
    {
        proof {
            lemma_field_masks();
        }
        READY_R::new(((self.0.bits >> 8) & 1) != 0)
    }

    /// Bit 0 - Compensation cell power-down
    pub fn cmp_pd(&self) -> (r: CMP_PD_R)
        ensures
            r.bits == (read_field(self.0.bits, 1, 0) != 0),
    {
        proof {
            lemma_field_masks();
            let b: u32 = self.0.bits;
            assert((b >> 0u8) == b) by (bit_vector);
        }
        CMP_PD_R::new((self.0.bits & 1) != 0)
    }
}

/// Compensation cell control register
#[allow(non_camel_case_types)]
pub struct CMPCR_SPEC;

impl generic::RegisterSpec for CMPCR_SPEC {
}

impl generic::Readable for CMPCR_SPEC {
    type Reader = R;
}

/// The register's value on reset is `0`.
impl generic::Resettable for CMPCR_SPEC {
    open spec fn spec_reset_value() -> u32 {
        0
    }

    fn reset_value() -> (r: u32) {
        0
    }
}

} // verus!
