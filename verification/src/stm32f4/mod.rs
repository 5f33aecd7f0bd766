//! Register access for STM32F4 peripherals: the generic reader and writer
//! types, and the registers of the peripheral benchmark.
pub mod generic;
pub mod kr;
pub mod maca3lr;
pub mod cmpcr;
pub mod doepint0;
pub mod dtxfsts1;
pub mod wutr;
pub mod dhr12l2;
pub mod prer;
pub mod fmc;
