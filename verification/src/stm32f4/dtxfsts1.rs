//! Device IN endpoint transmit FIFO status register (STM32F429 `OTG_FS_DEVICE.DTXFSTS1`).
use super::generic;
use super::generic::{lemma_field_masks, read_field};
use vstd::prelude::*;

verus! {

/// Register `DTXFSTS1` reader.
pub struct R(pub generic::R<DTXFSTS1_SPEC>);

impl From<generic::R<DTXFSTS1_SPEC>> for R {
    fn from(reader: generic::R<DTXFSTS1_SPEC>) -> (r: Self) {
        R(reader)
    }
}

impl vstd::std_specs::convert::FromSpecImpl<generic::R<DTXFSTS1_SPEC>> for R {
    open spec fn obeys_from_spec() -> bool {
        true
    }

    open spec fn from_spec(reader: generic::R<DTXFSTS1_SPEC>) -> Self {
        R(reader)
    }
}

impl R {
    /// The register's bits.
    pub fn bits(&self) -> (r: u32)
        ensures
            r == self.0.bits,
    {
        self.0.bits
    }
}

/// Field `INEPTFSAV` reader - IN endpoint TxFIFO space available
#[allow(non_camel_case_types)]
pub type INEPTFSAV_R = generic::FieldReader<u16, u16>;

impl R {
    /// Bits 0:15 - IN endpoint TxFIFO space available
    pub fn ineptfsav(&self) -> (r: INEPTFSAV_R)
        ensures
            r.bits == read_field(self.0.bits, 16, 0) as u16,
    {
        proof {
            lemma_field_masks();
            let b: u32 = self.0.bits;
            assert((b >> 0u8) == b) by (bit_vector);
        }
        INEPTFSAV_R::new((self.0.bits & 0xffff) as u16)
    }
}

/// OTG_FS device IN endpoint transmit FIFO status register
#[allow(non_camel_case_types)]
pub struct DTXFSTS1_SPEC;

impl generic::RegisterSpec for DTXFSTS1_SPEC {
}

impl generic::Readable for DTXFSTS1_SPEC {
    type Reader = R;
}

/// The register's value on reset is `0`.
impl generic::Resettable for DTXFSTS1_SPEC {
    open spec fn spec_reset_value() -> u32 {
        0
    }

    fn reset_value() -> (r: u32) {
        0
    }
}

} // verus!
