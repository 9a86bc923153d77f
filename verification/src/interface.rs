//! Bus interface abstraction for the ADXL372 driver.
//!
//! [`Adxl372Interface`] is the narrow capability contract the driver core
//! consumes: single-register reads and writes plus burst transfers, each
//! fallible with a transport-specific error. Every implementation carries a
//! ghost [`history`](Adxl372Interface::history) of the operations it has
//! performed; the driver's contracts describe the bus traffic an operation
//! may issue in terms of that history, which is how properties such as
//! write suppression and reset accounting are stated and proved.

use vstd::prelude::*;

use crate::registers::REG_RESET;
use crate::registers::RESET_COMMAND;

pub mod memory;
pub mod spi;

verus! {

/// One bus operation, as recorded in an interface's history.
pub enum BusOp {
    /// A single-register read that returned the given byte.
    Read { addr: u8, value: u8 },
    /// A single-register write of the given byte.
    Write { addr: u8, value: u8 },
    /// A burst read starting at the given address that returned the given
    /// bytes.
    ReadBurst { addr: u8, values: Seq<u8> },
    /// A burst write of the given bytes starting at the given address.
    WriteBurst { addr: u8, values: Seq<u8> },
}

impl BusOp {
    /// The register address the operation touched (the start address for
    /// bursts).
    pub open spec fn op_addr(self) -> u8 {
        match self {
            BusOp::Read { addr, .. } => addr,
            BusOp::Write { addr, .. } => addr,
            BusOp::ReadBurst { addr, .. } => addr,
            BusOp::WriteBurst { addr, .. } => addr,
        }
    }

    /// The byte moved by a single-register operation (zero for bursts).
    pub open spec fn op_byte(self) -> u8 {
        match self {
            BusOp::Read { value, .. } => value,
            BusOp::Write { value, .. } => value,
            BusOp::ReadBurst { .. } => 0,
            BusOp::WriteBurst { .. } => 0,
        }
    }

    /// Whether the operation wrote to the device.
    pub open spec fn is_write_op(self) -> bool {
        self is Write || self is WriteBurst
    }
}

/// The number of write operations (single or burst) in a history.
pub open spec fn writes_in(h: Seq<BusOp>) -> nat
    decreases h.len(),
{
    if h.len() == 0 {
        0
    } else {
        writes_in(h.drop_last()) + if h.last().is_write_op() {
            1nat
        } else {
            0nat
        }
    }
}

/// The number of soft-reset commands in a history: single-register writes
/// of the reset command byte to the reset register.
pub open spec fn resets_in(h: Seq<BusOp>) -> nat
    decreases h.len(),
{
    if h.len() == 0 {
        0
    } else {
        resets_in(h.drop_last()) + if h.last() == (BusOp::Write {
            addr: REG_RESET,
            value: RESET_COMMAND,
        }) {
            1nat
        } else {
            0nat
        }
    }
}

/// The byte most recently moved by a single-register operation at the given
/// address, if any.
pub open spec fn last_reg_byte(h: Seq<BusOp>, addr: u8) -> Option<u8>
    decreases h.len(),
{
    if h.len() == 0 {
        None
    } else if (h.last() is Read || h.last() is Write) && h.last().op_addr() == addr {
        Some(h.last().op_byte())
    } else {
        last_reg_byte(h.drop_last(), addr)
    }
}

/// Counting writes distributes over history concatenation.
pub proof fn lemma_writes_in_concat(a: Seq<BusOp>, b: Seq<BusOp>)
    ensures
        writes_in(a + b) == writes_in(a) + writes_in(b),
    decreases b.len(),
{
    if b.len() == 0 {
        assert(a + b =~= a);
    } else {
        lemma_writes_in_concat(a, b.drop_last());
        assert((a + b).drop_last() =~= a + b.drop_last());
        assert((a + b).last() == b.last());
    }
}

/// The most recent single-register byte at an address is decided by the
/// suffix when the suffix touches the address, and by the prefix otherwise.
pub proof fn lemma_last_reg_byte_concat(a: Seq<BusOp>, b: Seq<BusOp>, addr: u8)
    ensures
        last_reg_byte(a + b, addr) == if last_reg_byte(b, addr) is Some {
            last_reg_byte(b, addr)
        } else {
            last_reg_byte(a, addr)
        },
    decreases b.len(),
{
    if b.len() == 0 {
        assert(a + b =~= a);
    } else {
        lemma_last_reg_byte_concat(a, b.drop_last(), addr);
        assert((a + b).drop_last() =~= a + b.drop_last());
        assert((a + b).last() == b.last());
    }
}

/// Being a prefix, stated through `take`, is transitive.
pub proof fn lemma_take_prefix_trans<T>(a: Seq<T>, b: Seq<T>, c: Seq<T>)
    requires
        a.len() <= b.len(),
        b.len() <= c.len(),
        b.take(a.len() as int) == a,
        c.take(b.len() as int) == b,
    ensures
        c.take(a.len() as int) == a,
{
    assert forall|i: int| 0 <= i < a.len() implies c.take(a.len() as int)[i] == a[i] by {
        assert(c.take(a.len() as int)[i] == c[i]);
        assert(c.take(b.len() as int)[i] == c[i]);
        assert(b.take(a.len() as int)[i] == b[i]);
    }
    assert(c.take(a.len() as int) =~= a);
}

/// Abstraction over the low-level bus access required by the driver.
///
/// Beyond moving bytes, every method records what it did in the ghost
/// [`history`](Self::history): writes are recorded whether or not the bus
/// reports success (the transaction was issued either way), while a failed
/// read returns no byte and records nothing.
pub trait Adxl372Interface: Sized {
    /// Error type produced by the concrete bus implementation.
    type Error;

    /// The bus operations this interface has performed, oldest first.
    spec fn history(&self) -> Seq<BusOp>;

    /// Writes a single register.
    fn write_register(&mut self, register: u8, value: u8) -> (r: Result<(), Self::Error>)
        ensures
            final(self).history() == old(self).history().push(
                BusOp::Write { addr: register, value },
            ),
    ;

    /// Reads a single register.
    fn read_register(&mut self, register: u8) -> (r: Result<u8, Self::Error>)
        ensures
            r matches Ok(v) ==> final(self).history() == old(self).history().push(
                BusOp::Read { addr: register, value: v },
            ),
            r is Err ==> final(self).history() == old(self).history(),
    ;

    /// Reads multiple consecutive registers into the provided buffer,
    /// filling it completely on success.
    fn read_many(&mut self, register: u8, buf: &mut Vec<u8>) -> (r: Result<(), Self::Error>)
        ensures
            final(buf)@.len() == old(buf)@.len(),
            old(buf)@.len() == 0 ==> r is Ok,
            r is Ok ==> final(self).history() == old(self).history().push(
                BusOp::ReadBurst { addr: register, values: final(buf)@ },
            ),
            r is Err ==> final(self).history() == old(self).history(),
    ;

    /// Writes multiple consecutive registers from the provided buffer.
    fn write_many(&mut self, register: u8, data: &[u8]) -> (r: Result<(), Self::Error>)
        ensures
            final(self).history() == old(self).history().push(
                BusOp::WriteBurst { addr: register, values: data@ },
            ),
            data@.len() == 0 ==> r is Ok,
    ;
}

/// Blocking delay capability consumed by the self-test engine.
///
/// Both calls block the calling thread for at least the requested duration
/// and return nothing; the engine never reads a clock, so no contract is
/// attached to them.
pub trait DelayProvider {
    /// Blocks for at least the given number of milliseconds.
    fn delay_ms(&mut self, ms: u32);

    /// Blocks for at least the given number of nanoseconds.
    fn delay_ns(&mut self, ns: u32);
}

} // verus!
