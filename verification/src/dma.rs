//! Driver for the DMA transfer engine.
//!
//! The driver works on a plain-value image of the engine: its register block
//! and the bytes that its FIFO holds. Whoever owns the hardware moves the
//! image to and from the memory-mapped registers and reports what the status
//! register shows; every decision is taken here.

use vstd::prelude::*;
use crate::regs::{Control, DmaRegs, RdRoute, Status0, WrRoute};

verus! {

/// Where the data of a read transaction goes.
#[derive(Clone, Copy, Debug, PartialEq, Eq)]
pub enum DmaReadTarget {
    Mbox,
    AhbFifo,
    AxiWr(usize),
}

/// A transfer whose source is the AXI address `read_addr`.
#[derive(Clone, Copy, Debug, PartialEq, Eq)]
pub struct DmaReadTransaction {
    pub read_addr: usize,
    pub fixed_addr: bool,
    pub length: u32,
    pub target: DmaReadTarget,
}

/// Where the data of a write transaction comes from.
#[derive(Clone, Copy, Debug, PartialEq, Eq)]
pub enum DmaWriteOrigin {
    Mbox,
    AhbFifo,
    AxiRd(usize),
}

/// A transfer whose destination is the AXI address `write_addr`.
#[derive(Clone, Copy, Debug, PartialEq, Eq)]
pub struct DmaWriteTransaction {
    pub write_addr: usize,
    pub fixed_addr: bool,
    pub length: u32,
    pub origin: DmaWriteOrigin,
}

/// Why an operation of the engine failed.
#[derive(Clone, Copy, Debug, PartialEq, Eq, Structural)]
pub enum DmaError {
    TransactionAlreadyBusy,
    TransactionError,
    FifoUnderrun,
    FifoOverrun,
}

/// What one look at the status register means for a running transaction.
#[derive(Clone, Copy, Debug, PartialEq, Eq, Structural)]
pub enum TransactionPoll {
    /// The engine is still busy: look again.
    Pending,
    /// The transfer completed and no error was seen.
    Complete,
    /// The engine reported an error.
    Failed,
}

impl TransactionPoll {
    /// The result of the transaction where the look decided it, and `None`
    /// where the transfer goes on.
    pub fn result(self) -> (r: Option<Result<(), DmaError>>)
        ensures
            r == poll_result(self),
    {
        match self {
            TransactionPoll::Pending => None,
            TransactionPoll::Complete => Some(Ok(())),
            TransactionPoll::Failed => Some(Err(DmaError::TransactionError)),
        }
    }
}

/// The engine: its registers and the bytes in its FIFO, oldest first.
#[derive(Clone, Debug, PartialEq, Eq)]
pub struct Dma {
    pub regs: DmaRegs,
    pub fifo: Vec<u8>,
}

/// Bytes that one access of a FIFO data register moves at most.
pub const FIFO_STRIDE: usize = 4;

/// The low 32 bits of an address.
pub open spec fn addr_low(addr: usize) -> u32 {
    (addr as int % 0x1_0000_0000) as u32
}

/// The bits of an address above the low 32.
pub open spec fn addr_high(addr: usize) -> u32 {
    (addr as int / 0x1_0000_0000) as u32
}

/// Whether addresses are wider than 32 bits, so that the high address
/// registers take part.
pub open spec fn wide_addresses() -> bool {
    vstd::layout::size_of::<usize>() > 4
}

/// The read route that a read target selects.
pub open spec fn read_target_route(target: DmaReadTarget) -> RdRoute {
    match target {
        DmaReadTarget::Mbox => RdRoute::Mbox,
        DmaReadTarget::AhbFifo => RdRoute::AhbFifo,
        DmaReadTarget::AxiWr(_) => RdRoute::AxiWr,
    }
}

/// The write route that goes with a read target: the write side takes part
/// only in a move from AXI to AXI.
pub open spec fn read_target_write_route(target: DmaReadTarget) -> WrRoute {
    match target {
        DmaReadTarget::AxiWr(_) => WrRoute::AxiRd,
        _ => WrRoute::Disable,
    }
}

/// The write route that a write origin selects.
pub open spec fn write_origin_route(origin: DmaWriteOrigin) -> WrRoute {
    match origin {
        DmaWriteOrigin::Mbox => WrRoute::Mbox,
        DmaWriteOrigin::AhbFifo => WrRoute::AhbFifo,
        DmaWriteOrigin::AxiRd(_) => WrRoute::AxiRd,
    }
}

/// The read route that goes with a write origin: the read side takes part
/// only in a move from AXI to AXI.
pub open spec fn write_origin_read_route(origin: DmaWriteOrigin) -> RdRoute {
    match origin {
        DmaWriteOrigin::AxiRd(_) => RdRoute::AxiWr,
        _ => RdRoute::Disable,
    }
}

/// The registers after a read transaction was set up on `regs`.
pub open spec fn read_setup(regs: DmaRegs, t: DmaReadTransaction) -> DmaRegs {
    DmaRegs {
        src_addr_l: addr_low(t.read_addr),
        src_addr_h: if wide_addresses() {
            addr_high(t.read_addr)
        } else {
            regs.src_addr_h
        },
        dst_addr_l: match t.target {
            DmaReadTarget::AxiWr(dst) => addr_low(dst),
            _ => regs.dst_addr_l,
        },
        dst_addr_h: match t.target {
            DmaReadTarget::AxiWr(dst) if wide_addresses() => addr_high(dst),
            _ => regs.dst_addr_h,
        },
        byte_count: t.length,
        ctrl: Control {
            rd_route: read_target_route(t.target),
            rd_fixed: t.fixed_addr,
            wr_route: read_target_write_route(t.target),
            ..regs.ctrl
        },
        ..regs
    }
}

/// The destination address that a write transaction leaves in the
/// registers: that of an AXI origin where there is one, which is programmed
/// after `write_addr` into the same registers.
pub open spec fn write_setup_dst(t: DmaWriteTransaction) -> usize {
    match t.origin {
        DmaWriteOrigin::AxiRd(origin_addr) => origin_addr,
        _ => t.write_addr,
    }
}

/// The registers after a write transaction was set up on `regs`.
pub open spec fn write_setup(regs: DmaRegs, t: DmaWriteTransaction) -> DmaRegs {
    DmaRegs {
        dst_addr_l: addr_low(write_setup_dst(t)),
        dst_addr_h: if wide_addresses() {
            addr_high(write_setup_dst(t))
        } else {
            regs.dst_addr_h
        },
        byte_count: t.length,
        ctrl: Control {
            wr_route: write_origin_route(t.origin),
            wr_fixed: t.fixed_addr,
            rd_route: write_origin_read_route(t.origin),
            ..regs.ctrl
        },
        ..regs
    }
}

/// What a look at the status flags means while a transaction runs: an error
/// flag fails it, whatever the busy flag shows; without one it runs for as
/// long as the engine is busy.
pub open spec fn poll_outcome(busy: bool, error: bool) -> TransactionPoll {
    if error {
        TransactionPoll::Failed
    } else if busy {
        TransactionPoll::Pending
    } else {
        TransactionPoll::Complete
    }
}

/// Whether a transaction can start on an engine that shows this status: not
/// on a busy engine, and not on one with a latched error.
pub open spec fn start_result(status0: Status0) -> Result<(), DmaError> {
    if status0.busy {
        Err(DmaError::TransactionAlreadyBusy)
    } else if status0.error {
        Err(DmaError::TransactionError)
    } else {
        Ok(())
    }
}

/// The registers after a start was tried: the go bit is set where the
/// transaction can start, and nothing changes where it cannot.
pub open spec fn started(regs: DmaRegs) -> DmaRegs {
    if start_result(regs.status0) is Ok {
        DmaRegs { ctrl: Control { go: true, ..regs.ctrl }, ..regs }
    } else {
        regs
    }
}

/// The registers after a flush was requested.
pub open spec fn flush_requested(regs: DmaRegs) -> DmaRegs {
    DmaRegs { ctrl: Control { flush: true, ..Control::cleared() }, ..regs }
}

/// The result that a look at the status register decides, if any.
pub open spec fn poll_result(poll: TransactionPoll) -> Option<Result<(), DmaError>> {
    match poll {
        TransactionPoll::Pending => None,
        TransactionPoll::Complete => Some(Ok(())),
        TransactionPoll::Failed => Some(Err(DmaError::TransactionError)),
    }
}

/// The result of a whole transaction on an engine that shows `status0`
/// before the start and `polls` after it.
pub open spec fn transaction_result(status0: Status0, polls: Seq<(bool, bool)>) -> Option<
    Result<(), DmaError>,
> {
    match start_result(status0) {
        Err(e) => Some(Err(e)),
        Ok(_) => poll_result(polls_outcome(polls)),
    }
}

/// How a transaction ends when the status register shows `polls`, pairs of
/// the busy and the error flag, in this order: the first look that is not
/// pending decides, and without one the transaction is still pending.
pub open spec fn polls_outcome(polls: Seq<(bool, bool)>) -> TransactionPoll
    decreases polls.len(),
{
    if polls.len() == 0 {
        TransactionPoll::Pending
    } else if poll_outcome(polls[0].0, polls[0].1) != TransactionPoll::Pending {
        poll_outcome(polls[0].0, polls[0].1)
    } else {
        polls_outcome(polls.drop_first())
    }
}

/// The status register after a transaction was followed over `polls`: it
/// holds the flags of the last look that was taken.
pub open spec fn polls_status(status0: Status0, polls: Seq<(bool, bool)>) -> Status0
    decreases polls.len(),
{
    if polls.len() == 0 {
        status0
    } else {
        let seen = Status0 { busy: polls[0].0, error: polls[0].1, ..status0 };
        if poll_outcome(polls[0].0, polls[0].1) != TransactionPoll::Pending {
            seen
        } else {
            polls_status(seen, polls.drop_first())
        }
    }
}

/// Whether a flush is over when the status register shows `polls`, in this
/// order: the first look that finds the engine neither busy nor in error
/// ends it.
pub open spec fn flush_done(polls: Seq<(bool, bool)>) -> bool
    decreases polls.len(),
{
    if polls.len() == 0 {
        false
    } else if !polls[0].0 && !polls[0].1 {
        true
    } else {
        flush_done(polls.drop_first())
    }
}

/// The status register after a flush was followed over `polls`.
pub open spec fn flush_status(status0: Status0, polls: Seq<(bool, bool)>) -> Status0
    decreases polls.len(),
{
    if polls.len() == 0 {
        status0
    } else {
        let seen = Status0 { busy: polls[0].0, error: polls[0].1, ..status0 };
        if !polls[0].0 && !polls[0].1 {
            seen
        } else {
            flush_status(seen, polls.drop_first())
        }
    }
}

/// The FIFO after `data` went in behind what it held.
pub open spec fn fifo_push(fifo: Seq<u8>, data: Seq<u8>) -> Seq<u8> {
    fifo + data
}

/// The `n` oldest bytes of the FIFO.
pub open spec fn fifo_front(fifo: Seq<u8>, n: int) -> Seq<u8>
    recommends
        0 <= n <= fifo.len(),
{
    fifo.subrange(0, n)
}

/// The FIFO after its `n` oldest bytes left.
pub open spec fn fifo_rest(fifo: Seq<u8>, n: int) -> Seq<u8>
    recommends
        0 <= n <= fifo.len(),
{
    fifo.subrange(n, fifo.len() as int)
}

/// The bytes that the next access of a data register moves: a full stride,
/// or what is left where that is less.
pub open spec fn stride_len(remaining: usize) -> usize {
    if remaining < FIFO_STRIDE {
        remaining
    } else {
        FIFO_STRIDE
    }
}

/// The number of bytes that the next access of a data register moves when
/// `remaining` bytes are left.
pub fn fifo_stride(remaining: usize) -> (n: usize)
    ensures
        n == stride_len(remaining),
{
    if remaining < FIFO_STRIDE {
        remaining
    } else {
        FIFO_STRIDE
    }
}

/// Splits an address into its low and high 32 bits.
fn split_addr(addr: usize) -> (halves: (u32, u32))
    ensures
        halves.0 == addr_low(addr),
        halves.1 == addr_high(addr),
{
    let a: u64 = addr as u64;
    let low: u64 = a & 0xffff_ffff;
    let high: u64 = a >> 32;
    proof {
        assert(a & 0xffff_ffff == a % 0x1_0000_0000) by (bit_vector);
        assert(a >> 32 == a / 0x1_0000_0000) by (bit_vector);
    }
    (low as u32, high as u32)
}

/// Whether this target has addresses wider than 32 bits.
fn has_wide_addresses() -> (wide: bool)
    ensures
        wide == wide_addresses(),
{
    core::mem::size_of::<usize>() > 4
}

impl Dma {
    /// The reported depth is the number of bytes that the FIFO holds, and
    /// is never above the engine's capacity.
    pub open spec fn wf(&self) -> bool {
        &&& self.fifo@.len() == self.regs.status0.fifo_depth
        &&& self.regs.status0.fifo_depth <= self.regs.fifo_max_depth
    }

    /// A driver for the engine with these registers and an empty FIFO.
    pub fn new(regs: DmaRegs) -> (dma: Dma)
        ensures
            dma.regs == regs,
            dma.fifo@ == Seq::<u8>::empty(),
    {
        Dma { regs, fifo: Vec::new() }
    }

    /// Programs the engine for a read transaction, without starting it.
    pub fn setup_dma_read(&mut self, read_transaction: DmaReadTransaction)
        ensures
            final(self).regs == read_setup(old(self).regs, read_transaction),
            final(self).fifo@ == old(self).fifo@,
    {
        let wide = has_wide_addresses();
        let (low, high) = split_addr(read_transaction.read_addr);
        if wide {
            self.regs.src_addr_h = high;
        }
        self.regs.src_addr_l = low;

        match read_transaction.target {
            DmaReadTarget::AxiWr(target_addr) => {
                let (low, high) = split_addr(target_addr);
                if wide {
                    self.regs.dst_addr_h = high;
                }
                self.regs.dst_addr_l = low;
            },
            _ => {},
        }

        self.regs.ctrl.rd_route = match read_transaction.target {
            DmaReadTarget::Mbox => RdRoute::Mbox,
            DmaReadTarget::AhbFifo => RdRoute::AhbFifo,
            DmaReadTarget::AxiWr(_) => RdRoute::AxiWr,
        };
        self.regs.ctrl.rd_fixed = read_transaction.fixed_addr;
        self.regs.ctrl.wr_route = match read_transaction.target {
            DmaReadTarget::AxiWr(_) => WrRoute::AxiRd,
            _ => WrRoute::Disable,
        };

        self.regs.byte_count = read_transaction.length;
    }

    /// Programs the engine for a write transaction, without starting it.
    pub fn setup_dma_write(&mut self, write_transaction: DmaWriteTransaction)
        ensures
            final(self).regs == write_setup(old(self).regs, write_transaction),
            final(self).fifo@ == old(self).fifo@,
    {
        let wide = has_wide_addresses();
        let (low, high) = split_addr(write_transaction.write_addr);
        if wide {
            self.regs.dst_addr_h = high;
        }
        self.regs.dst_addr_l = low;

        match write_transaction.origin {
            DmaWriteOrigin::AxiRd(origin_addr) => {
                let (low, high) = split_addr(origin_addr);
                if wide {
                    self.regs.dst_addr_h = high;
                }
                self.regs.dst_addr_l = low;
            },
            _ => {},
        }

        self.regs.ctrl.wr_route = match write_transaction.origin {
            DmaWriteOrigin::Mbox => WrRoute::Mbox,
            DmaWriteOrigin::AhbFifo => WrRoute::AhbFifo,
            DmaWriteOrigin::AxiRd(_) => WrRoute::AxiRd,
        };
        self.regs.ctrl.wr_fixed = write_transaction.fixed_addr;
        self.regs.ctrl.rd_route = match write_transaction.origin {
            DmaWriteOrigin::AxiRd(_) => RdRoute::AxiWr,
            _ => RdRoute::Disable,
        };

        self.regs.byte_count = write_transaction.length;
    }

    /// Starts the transaction that was set up. A busy engine, or one with a
    /// latched error, is left alone; otherwise the go bit is set.
    pub fn start_transaction(&mut self) -> (r: Result<(), DmaError>)
        ensures
            r == start_result(old(self).regs.status0),
            final(self).fifo@ == old(self).fifo@,
            final(self).regs == started(old(self).regs),
    {
        let status0 = self.regs.status0;
        if status0.busy {
            return Err(DmaError::TransactionAlreadyBusy);
        }
        if status0.error {
            return Err(DmaError::TransactionError);
        }
        self.regs.ctrl.go = true;
        Ok(())
    }

    /// Takes one look at the status flags of a running transaction: records
    /// them and says whether the transfer failed, completed or goes on.
    pub fn poll_transaction(&mut self, busy: bool, error: bool) -> (poll: TransactionPoll)
        ensures
            poll == poll_outcome(busy, error),
            final(self).fifo@ == old(self).fifo@,
            final(self).regs == (DmaRegs {
                status0: Status0 { busy, error, ..old(self).regs.status0 },
                ..old(self).regs
            }),
    {
        self.regs.status0.busy = busy;
        self.regs.status0.error = error;
        if error {
            TransactionPoll::Failed
        } else if busy {
            TransactionPoll::Pending
        } else {
            TransactionPoll::Complete
        }
    }

    /// Runs the transaction that was set up: starts it, then looks at the
    /// status register until the transfer completes or fails. The looks are
    /// those of `polls`, pairs of the busy and the error flag in the order
    /// in which the register shows them. A busy engine, or one with a
    /// latched error, is refused and left alone. `None` says that the
    /// engine was still busy, without error, at the last look.
    pub fn do_transaction(&mut self, polls: &[(bool, bool)]) -> (r: Option<Result<(), DmaError>>)
        ensures
            r == transaction_result(old(self).regs.status0, polls@),
            final(self).fifo@ == old(self).fifo@,
            start_result(old(self).regs.status0) is Err ==> final(self).regs == old(self).regs,
            start_result(old(self).regs.status0) is Ok ==> final(self).regs == (DmaRegs {
                status0: polls_status(old(self).regs.status0, polls@),
                ..started(old(self).regs)
            }),
    {
        match self.start_transaction() {
            Err(e) => {
                return Some(Err(e));
            },
            Ok(_) => {},
        }
        let mut i: usize = 0;
        assert(polls@.subrange(0, polls@.len() as int) =~= polls@);
        while i < polls.len()
            invariant
                i <= polls@.len(),
                self.fifo@ == old(self).fifo@,
                start_result(old(self).regs.status0) is Ok,
                self.regs == (DmaRegs { status0: self.regs.status0, ..started(old(self).regs) }),
                polls_outcome(polls@) == polls_outcome(
                    polls@.subrange(i as int, polls@.len() as int),
                ),
                polls_status(old(self).regs.status0, polls@) == polls_status(
                    self.regs.status0,
                    polls@.subrange(i as int, polls@.len() as int),
                ),
            decreases polls@.len() - i,
        {
            let (busy, error) = polls[i];
            proof {
                let rest = polls@.subrange(i as int, polls@.len() as int);
                assert(rest[0] == polls@[i as int]);
                assert(rest.drop_first() =~= polls@.subrange(i + 1, polls@.len() as int));
            }
            let poll = self.poll_transaction(busy, error);
            match poll {
                TransactionPoll::Pending => {},
                _ => {
                    return poll.result();
                },
            }
            i += 1;
        }
        None
    }

    /// Requests a flush: the control register is written with the flush bit
    /// set and every other field cleared.
    pub fn request_flush(&mut self)
        ensures
            final(self).fifo@ == old(self).fifo@,
            final(self).regs == flush_requested(old(self).regs),
    {
        self.regs.ctrl = Control {
            go: false,
            flush: true,
            rd_route: RdRoute::Disable,
            rd_fixed: false,
            wr_route: WrRoute::Disable,
            wr_fixed: false,
        };
    }

    /// Takes one look at the status flags after a flush was requested:
    /// records them and returns `true` once the engine is neither busy nor
    /// in error.
    pub fn flush_poll(&mut self, busy: bool, error: bool) -> (done: bool)
        ensures
            done == (!busy && !error),
            final(self).fifo@ == old(self).fifo@,
            final(self).regs == (DmaRegs {
                status0: Status0 { busy, error, ..old(self).regs.status0 },
                ..old(self).regs
            }),
    {
        self.regs.status0.busy = busy;
        self.regs.status0.error = error;
        !busy && !error
    }

    /// Flushes the engine: requests the flush, whatever state the engine is
    /// in, then looks at the status register until the engine is neither
    /// busy nor in error. The looks are those of `polls`, pairs of the busy
    /// and the error flag in the order in which the register shows them.
    /// `false` says that the last look still found the engine busy or in
    /// error.
    pub fn flush(&mut self, polls: &[(bool, bool)]) -> (done: bool)
        ensures
            done == flush_done(polls@),
            final(self).fifo@ == old(self).fifo@,
            final(self).regs == (DmaRegs {
                status0: flush_status(old(self).regs.status0, polls@),
                ..flush_requested(old(self).regs)
            }),
    {
        self.request_flush();
        let mut i: usize = 0;
        assert(polls@.subrange(0, polls@.len() as int) =~= polls@);
        while i < polls.len()
            invariant
                i <= polls@.len(),
                self.fifo@ == old(self).fifo@,
                self.regs == (DmaRegs {
                    status0: self.regs.status0,
                    ..flush_requested(old(self).regs)
                }),
                flush_done(polls@) == flush_done(polls@.subrange(i as int, polls@.len() as int)),
                flush_status(old(self).regs.status0, polls@) == flush_status(
                    self.regs.status0,
                    polls@.subrange(i as int, polls@.len() as int),
                ),
            decreases polls@.len() - i,
        {
            let (busy, error) = polls[i];
            proof {
                let rest = polls@.subrange(i as int, polls@.len() as int);
                assert(rest[0] == polls@[i as int]);
                assert(rest.drop_first() =~= polls@.subrange(i + 1, polls@.len() as int));
            }
            if self.flush_poll(busy, error) {
                return true;
            }
            i += 1;
        }
        false
    }

    /// Whether `len` bytes can be read from the FIFO: no more than the
    /// reported depth.
    pub fn fifo_read_check(&self, len: usize) -> (r: Result<(), DmaError>)
        ensures
            len > self.regs.status0.fifo_depth ==> r == Err::<(), DmaError>(
                DmaError::FifoUnderrun,
            ),
            len <= self.regs.status0.fifo_depth ==> r == Ok::<(), DmaError>(()),
    {
        if len > self.regs.status0.fifo_depth as usize {
            Err(DmaError::FifoUnderrun)
        } else {
            Ok(())
        }
    }

    /// Whether `len` bytes can be written to the FIFO: no more than the
    /// capacity less the reported depth.
    pub fn fifo_write_check(&self, len: usize) -> (r: Result<(), DmaError>)
        ensures
            len > self.regs.fifo_room() ==> r == Err::<(), DmaError>(DmaError::FifoOverrun),
            len <= self.regs.fifo_room() ==> r == Ok::<(), DmaError>(()),
    {
        let max_fifo_depth = self.regs.fifo_max_depth;
        let current_fifo_depth = self.regs.status0.fifo_depth;
        if current_fifo_depth > max_fifo_depth || len > (max_fifo_depth
            - current_fifo_depth) as usize {
            Err(DmaError::FifoOverrun)
        } else {
            Ok(())
        }
    }

    /// Streams bytes out of the FIFO into `read_data`, oldest first, one
    /// access of the data register, of up to four bytes, at a time. A buffer longer than
    /// the reported depth is refused and nothing is read.
    pub fn dma_read_fifo(&mut self, read_data: &mut [u8]) -> (r: Result<(), DmaError>)
        requires
            old(self).wf(),
        ensures
            final(self).wf(),
            final(read_data)@.len() == old(read_data)@.len(),
            old(read_data)@.len() > old(self).regs.status0.fifo_depth ==> {
                &&& r == Err::<(), DmaError>(DmaError::FifoUnderrun)
                &&& final(self).regs == old(self).regs
                &&& final(self).fifo@ == old(self).fifo@
                &&& final(read_data)@ == old(read_data)@
            },
            old(read_data)@.len() <= old(self).regs.status0.fifo_depth ==> {
                &&& r == Ok::<(), DmaError>(())
                &&& final(read_data)@ == fifo_front(old(self).fifo@, old(read_data)@.len() as int)
                &&& final(self).fifo@ == fifo_rest(old(self).fifo@, old(read_data)@.len() as int)
                &&& final(self).regs == (DmaRegs {
                    status0: Status0 {
                        fifo_depth: (old(self).regs.status0.fifo_depth - old(read_data)@.len()) as u32,
                        ..old(self).regs.status0
                    },
                    ..old(self).regs
                })
            },
    {
        let len = read_data.len();
        let depth = self.regs.status0.fifo_depth;
        match self.fifo_read_check(len) {
            Err(e) => {
                return Err(e);
            },
            Ok(_) => {},
        }
        let mut offset: usize = 0;
        while offset < len
            invariant
                offset <= len,
                len == read_data@.len(),
                len <= self.fifo@.len(),
                self.fifo@ == old(self).fifo@,
                self.regs == old(self).regs,
                read_data@.subrange(0, offset as int) == self.fifo@.subrange(0, offset as int),
            decreases len - offset,
        {
            let stride: usize = fifo_stride(len - offset);
            let mut k: usize = 0;
            while k < stride
                invariant
                    k <= stride,
                    offset + stride <= len,
                    len == read_data@.len(),
                    len <= self.fifo@.len(),
                    self.fifo@ == old(self).fifo@,
                    self.regs == old(self).regs,
                    read_data@.subrange(0, offset + k) == self.fifo@.subrange(0, offset + k),
                decreases stride - k,
            {
                let byte: u8 = self.fifo[offset + k];
                let ghost before = read_data@;
                read_data[offset + k] = byte;
                assert(read_data@.subrange(0, offset + k + 1) =~= before.subrange(
                    0,
                    offset + k,
                ).push(byte));
                assert(self.fifo@.subrange(0, offset + k + 1) =~= self.fifo@.subrange(
                    0,
                    offset + k,
                ).push(byte));
                k += 1;
            }
            offset += stride;
        }
        assert(read_data@ =~= read_data@.subrange(0, len as int));
        let rest = self.fifo.split_off(len);
        self.fifo = rest;
        self.regs.status0.fifo_depth = depth - len as u32;
        Ok(())
    }

    /// Streams `write_data` into the FIFO behind what it holds, one
    /// access of the data register, of up to four bytes, at a time. Data longer than the
    /// room that is left is refused and nothing is written.
    pub fn dma_write_fifo(&mut self, write_data: &[u8]) -> (r: Result<(), DmaError>)
        requires
            old(self).wf(),
        ensures
            final(self).wf(),
            write_data@.len() > old(self).regs.fifo_room() ==> {
                &&& r == Err::<(), DmaError>(DmaError::FifoOverrun)
                &&& final(self).regs == old(self).regs
                &&& final(self).fifo@ == old(self).fifo@
            },
            write_data@.len() <= old(self).regs.fifo_room() ==> {
                &&& r == Ok::<(), DmaError>(())
                &&& final(self).fifo@ == fifo_push(old(self).fifo@, write_data@)
                &&& final(self).regs == (DmaRegs {
                    status0: Status0 {
                        fifo_depth: (old(self).regs.status0.fifo_depth + write_data@.len()) as u32,
                        ..old(self).regs.status0
                    },
                    ..old(self).regs
                })
            },
    {
        let len = write_data.len();
        let current_fifo_depth = self.regs.status0.fifo_depth;
        match self.fifo_write_check(len) {
            Err(e) => {
                return Err(e);
            },
            Ok(_) => {},
        }
        let mut offset: usize = 0;
        while offset < len
            invariant
                offset <= len,
                len == write_data@.len(),
                self.regs == old(self).regs,
                self.fifo@ == old(self).fifo@ + write_data@.subrange(0, offset as int),
            decreases len - offset,
        {
            let stride: usize = fifo_stride(len - offset);
            let mut k: usize = 0;
            while k < stride
                invariant
                    k <= stride,
                    offset + stride <= len,
                    len == write_data@.len(),
                    self.regs == old(self).regs,
                    self.fifo@ == old(self).fifo@ + write_data@.subrange(0, offset + k),
                decreases stride - k,
            {
                let byte: u8 = write_data[offset + k];
                self.fifo.push(byte);
                assert(write_data@.subrange(0, offset + k + 1) =~= write_data@.subrange(
                    0,
                    offset + k,
                ).push(byte));
                assert(self.fifo@ =~= old(self).fifo@ + write_data@.subrange(
                    0,
                    offset + k + 1,
                ));
                k += 1;
            }
            offset += stride;
        }
        assert(write_data@ =~= write_data@.subrange(0, len as int));
        self.regs.status0.fifo_depth = current_fifo_depth + len as u32;
        Ok(())
    }
}

/// What goes into an empty FIFO comes out unchanged, whatever its length,
/// and leaves the FIFO empty.
pub proof fn lemma_fifo_round_trip(data: Seq<u8>)
    ensures
        fifo_front(fifo_push(Seq::<u8>::empty(), data), data.len() as int) == data,
        fifo_rest(fifo_push(Seq::<u8>::empty(), data), data.len() as int) == Seq::<u8>::empty(),
{
    assert(fifo_front(fifo_push(Seq::<u8>::empty(), data), data.len() as int) =~= data);
    assert(fifo_rest(fifo_push(Seq::<u8>::empty(), data), data.len() as int) =~= Seq::<
        u8,
    >::empty());
}

/// The FIFO keeps order: behind `held`, `data` comes out after `held` has
/// left, and a read of everything gives `held` followed by `data`.
pub proof fn lemma_fifo_order(held: Seq<u8>, data: Seq<u8>)
    ensures
        fifo_front(fifo_push(held, data), held.len() as int) == held,
        fifo_rest(fifo_push(held, data), held.len() as int) == data,
        fifo_front(fifo_push(held, data), (held.len() + data.len()) as int) == held + data,
{
    assert(fifo_front(fifo_push(held, data), held.len() as int) =~= held);
    assert(fifo_rest(fifo_push(held, data), held.len() as int) =~= data);
    assert(fifo_front(fifo_push(held, data), (held.len() + data.len()) as int) =~= held + data);
}

/// Whether the engine was busy without error at each of the first `n`
/// looks.
pub open spec fn busy_until(polls: Seq<(bool, bool)>, n: int) -> bool {
    &&& 0 <= n <= polls.len()
    &&& forall|k: int| 0 <= k < n ==> (#[trigger] polls[k]).0 && !polls[k].1
}

/// Whether look `n` finds the engine idle without error, after looks that
/// all found it busy without error.
pub open spec fn completes_at(polls: Seq<(bool, bool)>, n: int) -> bool {
    0 <= n < polls.len() && !polls[n].0 && !polls[n].1 && busy_until(polls, n)
}

/// Whether look `n` shows an error, after looks that all found the engine
/// busy without error.
pub open spec fn fails_at(polls: Seq<(bool, bool)>, n: int) -> bool {
    0 <= n < polls.len() && polls[n].1 && busy_until(polls, n)
}

/// A transaction that is followed completes exactly where some look finds
/// the engine idle and no look up to it showed an error; it fails exactly
/// where a look shows an error before the transfer completed.
pub proof fn lemma_polls_outcome(polls: Seq<(bool, bool)>)
    ensures
        polls_outcome(polls) == TransactionPoll::Complete <==> exists|n: int|
            #[trigger] completes_at(polls, n),
        polls_outcome(polls) == TransactionPoll::Failed <==> exists|n: int|
            #[trigger] fails_at(polls, n),
    decreases polls.len(),
{
    if polls.len() == 0 {
    } else if poll_outcome(polls[0].0, polls[0].1) != TransactionPoll::Pending {
        if polls[0].1 {
            assert(fails_at(polls, 0));
        } else {
            assert(completes_at(polls, 0));
        }
        assert forall|n: int| n != 0 implies !completes_at(polls, n) && !fails_at(polls, n) by {
            if 0 < n < polls.len() && busy_until(polls, n) {
                assert(polls[0].0 && !polls[0].1);
            }
        }
    } else {
        let rest = polls.drop_first();
        lemma_polls_outcome(rest);
        assert forall|n: int| busy_until(rest, n) implies busy_until(polls, n + 1) by {
            assert forall|k: int| 0 <= k < n + 1 implies (#[trigger] polls[k]).0 && !polls[k].1 by {
                if k > 0 {
                    assert(rest[k - 1] == polls[k]);
                }
            }
        }
        assert forall|n: int| n > 0 && busy_until(polls, n) implies busy_until(rest, n - 1) by {
            assert forall|k: int| 0 <= k < n - 1 implies (#[trigger] rest[k]).0 && !rest[k].1 by {
                assert(rest[k] == polls[k + 1]);
            }
        }
        if polls_outcome(rest) == TransactionPoll::Complete {
            let n = choose|n: int| #[trigger] completes_at(rest, n);
            assert(rest[n] == polls[n + 1]);
            assert(completes_at(polls, n + 1));
        }
        if polls_outcome(rest) == TransactionPoll::Failed {
            let n = choose|n: int| #[trigger] fails_at(rest, n);
            assert(rest[n] == polls[n + 1]);
            assert(fails_at(polls, n + 1));
        }
        assert forall|n: int| completes_at(polls, n) implies polls_outcome(rest)
            == TransactionPoll::Complete by {
            assert(n > 0);
            assert(rest[n - 1] == polls[n]);
            assert(completes_at(rest, n - 1));
        }
        assert forall|n: int| fails_at(polls, n) implies polls_outcome(rest)
            == TransactionPoll::Failed by {
            assert(n > 0);
            assert(rest[n - 1] == polls[n]);
            assert(fails_at(rest, n - 1));
        }
    }
}

/// A transaction succeeds only when it could start and the transfer then
/// completed with no error seen; the status register then shows an engine
/// that is neither busy nor in error. A start on a busy engine, or on one
/// with a latched error, fails whatever the looks would show, and the go
/// bit stays as it was.
pub proof fn lemma_transaction_result(regs: DmaRegs, polls: Seq<(bool, bool)>)
    ensures
        transaction_result(regs.status0, polls) == Some(Ok::<(), DmaError>(())) <==> !regs.status0.busy
            && !regs.status0.error && exists|n: int| #[trigger] completes_at(polls, n),
        regs.status0.busy ==> transaction_result(regs.status0, polls) == Some(
            Err::<(), DmaError>(DmaError::TransactionAlreadyBusy),
        ) && started(regs) == regs,
        !regs.status0.busy && regs.status0.error ==> transaction_result(regs.status0, polls)
            == Some(Err::<(), DmaError>(DmaError::TransactionError)) && started(regs) == regs,
        polls_outcome(polls) == TransactionPoll::Complete ==> !polls_status(
            regs.status0,
            polls,
        ).busy && !polls_status(regs.status0, polls).error,
        polls_status(regs.status0, polls).fifo_depth == regs.status0.fifo_depth,
{
    lemma_polls_outcome(polls);
    lemma_polls_status(regs.status0, polls);
}

/// Following a transaction changes the two flags of the status register
/// only, and leaves flags that show an idle engine where the transfer
/// completed.
proof fn lemma_polls_status(status0: Status0, polls: Seq<(bool, bool)>)
    ensures
        polls_outcome(polls) == TransactionPoll::Complete ==> !polls_status(status0, polls).busy
            && !polls_status(status0, polls).error,
        polls_status(status0, polls).fifo_depth == status0.fifo_depth,
    decreases polls.len(),
{
    if polls.len() > 0 && poll_outcome(polls[0].0, polls[0].1) == TransactionPoll::Pending {
        let seen = Status0 { busy: polls[0].0, error: polls[0].1, ..status0 };
        lemma_polls_status(seen, polls.drop_first());
    }
}

/// A flush is over exactly when some look finds the engine neither busy nor
/// in error, and the status register then shows that; the flush changes
/// the two flags of the status register only.
pub proof fn lemma_flush_done(status0: Status0, polls: Seq<(bool, bool)>)
    ensures
        flush_done(polls) <==> exists|n: int|
            0 <= n < polls.len() && !(#[trigger] polls[n]).0 && !polls[n].1,
        flush_done(polls) ==> !flush_status(status0, polls).busy && !flush_status(
            status0,
            polls,
        ).error,
        flush_status(status0, polls).fifo_depth == status0.fifo_depth,
    decreases polls.len(),
{
    if polls.len() > 0 {
        if !polls[0].0 && !polls[0].1 {
        } else {
            let rest = polls.drop_first();
            let seen = Status0 { busy: polls[0].0, error: polls[0].1, ..status0 };
            lemma_flush_done(seen, rest);
            if flush_done(rest) {
                let n = choose|n: int| 0 <= n < rest.len() && !(#[trigger] rest[n]).0 && !rest[n].1;
                assert(polls[n + 1] == rest[n]);
            }
            assert forall|n: int|
                0 <= n < polls.len() && !(#[trigger] polls[n]).0 && !polls[n].1 implies flush_done(
                rest,
            ) by {
                assert(n > 0);
                assert(rest[n - 1] == polls[n]);
            }
        }
    }
}

/// The two halves of an address give the address back.
pub proof fn lemma_addr_halves(addr: usize)
    ensures
        addr_high(addr) * 0x1_0000_0000 + addr_low(addr) == addr,
        !wide_addresses() ==> addr_high(addr) == 0,
{
    broadcast use vstd::layout::layout_of_primitives;
}

/// A set-up read transaction routes the write side to the AXI read channel
/// exactly for an AXI target, and disables it otherwise; a set-up write
/// transaction does the same with the read side.
pub proof fn lemma_setup_routes(regs: DmaRegs, r: DmaReadTransaction, w: DmaWriteTransaction)
    ensures
        (r.target is AxiWr) ==> read_setup(regs, r).ctrl.wr_route == WrRoute::AxiRd,
        !(r.target is AxiWr) ==> read_setup(regs, r).ctrl.wr_route == WrRoute::Disable,
        (w.origin is AxiRd) ==> write_setup(regs, w).ctrl.rd_route == RdRoute::AxiWr,
        !(w.origin is AxiRd) ==> write_setup(regs, w).ctrl.rd_route == RdRoute::Disable,
        read_setup(regs, r).ctrl.go == regs.ctrl.go,
        read_setup(regs, r).status0 == regs.status0,
        write_setup(regs, w).ctrl.go == regs.ctrl.go,
        write_setup(regs, w).status0 == regs.status0,
{
}

} // verus!
