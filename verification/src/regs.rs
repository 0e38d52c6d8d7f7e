//! Plain-value image of the DMA engine's register block.

use vstd::prelude::*;

verus! {

/// Endpoint selected for the read side of a transaction.
#[derive(Clone, Copy, Debug, PartialEq, Eq, Structural)]
pub enum RdRoute {
    Disable,
    Mbox,
    AhbFifo,
    AxiWr,
}

/// Endpoint selected for the write side of a transaction.
#[derive(Clone, Copy, Debug, PartialEq, Eq, Structural)]
pub enum WrRoute {
    Disable,
    Mbox,
    AhbFifo,
    AxiRd,
}

/// The control register, field by field.
#[derive(Clone, Copy, Debug, PartialEq, Eq, Structural)]
pub struct Control {
    pub go: bool,
    pub flush: bool,
    pub rd_route: RdRoute,
    pub rd_fixed: bool,
    pub wr_route: WrRoute,
    pub wr_fixed: bool,
}

/// The status register, field by field.
#[derive(Clone, Copy, Debug, PartialEq, Eq, Structural)]
pub struct Status0 {
    pub busy: bool,
    pub error: bool,
    pub fifo_depth: u32,
}

/// The register block.
#[derive(Clone, Copy, Debug, PartialEq, Eq, Structural)]
pub struct DmaRegs {
    pub src_addr_l: u32,
    pub src_addr_h: u32,
    pub dst_addr_l: u32,
    pub dst_addr_h: u32,
    pub byte_count: u32,
    pub ctrl: Control,
    pub status0: Status0,
    pub fifo_max_depth: u32,
}

impl Control {
    /// The value of the control register with every field cleared.
    pub open spec fn cleared() -> Control {
        Control {
            go: false,
            flush: false,
            rd_route: RdRoute::Disable,
            rd_fixed: false,
            wr_route: WrRoute::Disable,
            wr_fixed: false,
        }
    }
}

impl DmaRegs {
    /// Bytes that the FIFO can still take.
    pub open spec fn fifo_room(&self) -> int {
        self.fifo_max_depth - self.status0.fifo_depth
    }

    /// The registers of an idle engine whose FIFO, of the given capacity,
    /// is empty.
    pub fn new(fifo_max_depth: u32) -> (regs: DmaRegs)
        ensures
            regs.fifo_max_depth == fifo_max_depth,
            regs.ctrl == Control::cleared(),
            regs.status0 == (Status0 { busy: false, error: false, fifo_depth: 0 }),
            regs.src_addr_l == 0 && regs.src_addr_h == 0,
            regs.dst_addr_l == 0 && regs.dst_addr_h == 0,
            regs.byte_count == 0,
    {
        DmaRegs {
            src_addr_l: 0,
            src_addr_h: 0,
            dst_addr_l: 0,
            dst_addr_h: 0,
            byte_count: 0,
            ctrl: Control {
                go: false,
                flush: false,
                rd_route: RdRoute::Disable,
                rd_fixed: false,
                wr_route: WrRoute::Disable,
                wr_fixed: false,
            },
            status0: Status0 { busy: false, error: false, fifo_depth: 0 },
            fifo_max_depth,
        }
    }
}

} // verus!
