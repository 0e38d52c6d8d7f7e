//! Register-level driver for the AXI DMA transfer engine and the reset-flow
//! controller of a root-of-trust boot ROM, stated over plain-value models of
//! the peripheral's register file and of the boot environment.

pub mod regs;
pub mod dma;
pub mod flow;
