//! Flexible memory controller register block (STM32F469 `FMC`): the layout
//! of its registers in memory, reserved gaps included.
use super::generic::{Reg, RegisterSpec};
use vstd::prelude::*;

verus! {

/// SRAM/NOR-Flash chip-select control register 1
#[allow(non_camel_case_types)]
pub struct BCR1_SPEC;

impl RegisterSpec for BCR1_SPEC {
}

/// BCR1 register accessor: an alias for `Reg<BCR1_SPEC>`
pub type BCR1 = Reg<BCR1_SPEC>;

/// SRAM/NOR-Flash chip-select timing register 1
#[allow(non_camel_case_types)]
pub struct BTR_SPEC;

impl RegisterSpec for BTR_SPEC {
}

/// BTR register accessor: an alias for `Reg<BTR_SPEC>`
pub type BTR = Reg<BTR_SPEC>;

/// SRAM/NOR-Flash chip-select control register 2
#[allow(non_camel_case_types)]
pub struct BCR_SPEC;

impl RegisterSpec for BCR_SPEC {
}

/// BCR register accessor: an alias for `Reg<BCR_SPEC>`
pub type BCR = Reg<BCR_SPEC>;

/// PC Card/NAND Flash control register 3
#[allow(non_camel_case_types)]
pub struct PCR_SPEC;

impl RegisterSpec for PCR_SPEC {
}

/// PCR register accessor: an alias for `Reg<PCR_SPEC>`
pub type PCR = Reg<PCR_SPEC>;

/// FIFO status and interrupt register 3
#[allow(non_camel_case_types)]
pub struct SR_SPEC;

impl RegisterSpec for SR_SPEC {
}

/// SR register accessor: an alias for `Reg<SR_SPEC>`
pub type SR = Reg<SR_SPEC>;

/// Common memory space timing register 3
#[allow(non_camel_case_types)]
pub struct PMEM_SPEC;

impl RegisterSpec for PMEM_SPEC {
}

/// PMEM register accessor: an alias for `Reg<PMEM_SPEC>`
pub type PMEM = Reg<PMEM_SPEC>;

/// Attribute memory space timing register 3
#[allow(non_camel_case_types)]
pub struct PATT_SPEC;

impl RegisterSpec for PATT_SPEC {
}

/// PATT register accessor: an alias for `Reg<PATT_SPEC>`
pub type PATT = Reg<PATT_SPEC>;

/// ECC result register 3
#[allow(non_camel_case_types)]
pub struct ECCR_SPEC;

impl RegisterSpec for ECCR_SPEC {
}

/// ECCR register accessor: an alias for `Reg<ECCR_SPEC>`
pub type ECCR = Reg<ECCR_SPEC>;

/// SRAM/NOR-Flash write timing registers 1
#[allow(non_camel_case_types)]
pub struct BWTR_SPEC;

impl RegisterSpec for BWTR_SPEC {
}

/// BWTR register accessor: an alias for `Reg<BWTR_SPEC>`
pub type BWTR = Reg<BWTR_SPEC>;

/// SDRAM Control Register 1
#[allow(non_camel_case_types)]
pub struct SDCR_SPEC;

impl RegisterSpec for SDCR_SPEC {
}

/// SDCR register accessor: an alias for `Reg<SDCR_SPEC>`
pub type SDCR = Reg<SDCR_SPEC>;

/// SDRAM Timing register 1
#[allow(non_camel_case_types)]
pub struct SDTR_SPEC;

impl RegisterSpec for SDTR_SPEC {
}

/// SDTR register accessor: an alias for `Reg<SDTR_SPEC>`
pub type SDTR = Reg<SDTR_SPEC>;

/// SDRAM Command Mode register
#[allow(non_camel_case_types)]
pub struct SDCMR_SPEC;

impl RegisterSpec for SDCMR_SPEC {
}

/// SDCMR register accessor: an alias for `Reg<SDCMR_SPEC>`
pub type SDCMR = Reg<SDCMR_SPEC>;

/// SDRAM Refresh Timer register
#[allow(non_camel_case_types)]
pub struct SDRTR_SPEC;

impl RegisterSpec for SDRTR_SPEC {
}

/// SDRTR register accessor: an alias for `Reg<SDRTR_SPEC>`
pub type SDRTR = Reg<SDRTR_SPEC>;

/// SDRAM Status register
#[allow(non_camel_case_types)]
pub struct SDSR_SPEC;

impl RegisterSpec for SDSR_SPEC {
}

/// SDSR register accessor: an alias for `Reg<SDSR_SPEC>`
pub type SDSR = Reg<SDSR_SPEC>;

/// Register block, laid out in the order of the registers in memory.
pub struct RegisterBlock {
    /// 0x00 - SRAM/NOR-Flash chip-select control register 1
    pub bcr1: Reg<BCR1_SPEC>,
    /// 0x04 - SRAM/NOR-Flash chip-select timing register 1
    pub btr1: Reg<BTR_SPEC>,
    /// 0x08 - SRAM/NOR-Flash chip-select control register 2
    pub bcr2: Reg<BCR_SPEC>,
    /// 0x0c - SRAM/NOR-Flash chip-select timing register 1
    pub btr2: Reg<BTR_SPEC>,
    /// 0x10 - SRAM/NOR-Flash chip-select control register 2
    pub bcr3: Reg<BCR_SPEC>,
    /// 0x14 - SRAM/NOR-Flash chip-select timing register 1
    pub btr3: Reg<BTR_SPEC>,
    /// 0x18 - SRAM/NOR-Flash chip-select control register 2
    pub bcr4: Reg<BCR_SPEC>,
    /// 0x1c - SRAM/NOR-Flash chip-select timing register 1
    pub btr4: Reg<BTR_SPEC>,
    /// Reserved: 96 bytes with no register.
    pub _reserved8: [u8; 96],
    /// 0x80 - PC Card/NAND Flash control register 3
    pub pcr: Reg<PCR_SPEC>,
    /// 0x84 - FIFO status and interrupt register 3
    pub sr: Reg<SR_SPEC>,
    /// 0x88 - Common memory space timing register 3
    pub pmem: Reg<PMEM_SPEC>,
    /// 0x8c - Attribute memory space timing register 3
    pub patt: Reg<PATT_SPEC>,
    /// Reserved: 4 bytes with no register.
    pub _reserved12: [u8; 4],
    /// 0x94 - ECC result register 3
    pub eccr: Reg<ECCR_SPEC>,
    /// Reserved: 108 bytes with no register.
    pub _reserved13: [u8; 108],
    /// 0x104 - SRAM/NOR-Flash write timing registers 1
    pub bwtr1: Reg<BWTR_SPEC>,
    /// Reserved: 4 bytes with no register.
    pub _reserved14: [u8; 4],
    /// 0x10c - SRAM/NOR-Flash write timing registers 1
    pub bwtr2: Reg<BWTR_SPEC>,
    /// Reserved: 4 bytes with no register.
    pub _reserved15: [u8; 4],
    /// 0x114 - SRAM/NOR-Flash write timing registers 1
    pub bwtr3: Reg<BWTR_SPEC>,
    /// Reserved: 4 bytes with no register.
    pub _reserved16: [u8; 4],
    /// 0x11c - SRAM/NOR-Flash write timing registers 1
    pub bwtr4: Reg<BWTR_SPEC>,
    /// Reserved: 32 bytes with no register.
    pub _reserved17: [u8; 32],
    /// 0x140..0x148 - SDRAM Control Register 1
    pub sdcr: [Reg<SDCR_SPEC>; 2],
    /// 0x148..0x150 - SDRAM Timing register 1
    pub sdtr: [Reg<SDTR_SPEC>; 2],
    /// 0x150 - SDRAM Command Mode register
    pub sdcmr: Reg<SDCMR_SPEC>,
    /// 0x154 - SDRAM Refresh Timer register
    pub sdrtr: Reg<SDRTR_SPEC>,
    /// 0x158 - SDRAM Status register
    pub sdsr: Reg<SDSR_SPEC>,
}

impl RegisterBlock {
    /// 0x140 - SDRAM Control Register 1
    pub fn sdcr1(&self) -> (r: &Reg<SDCR_SPEC>)
        ensures
            *r == self.sdcr[0],
    {
        &self.sdcr[0]
    }

    /// 0x144 - SDRAM Control Register 1
    pub fn sdcr2(&self) -> (r: &Reg<SDCR_SPEC>)
        ensures
            *r == self.sdcr[1],
    {
        &self.sdcr[1]
    }

    /// 0x148 - SDRAM Timing register 1
    pub fn sdtr1(&self) -> (r: &Reg<SDTR_SPEC>)
        ensures
            *r == self.sdtr[0],
    {
        &self.sdtr[0]
    }

    /// 0x14c - SDRAM Timing register 1
    pub fn sdtr2(&self) -> (r: &Reg<SDTR_SPEC>)
        ensures
            *r == self.sdtr[1],
    {
        &self.sdtr[1]
    }
}

} // verus!
