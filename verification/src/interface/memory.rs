//! In-memory implementation of the bus capability.
//!
//! [`MemoryInterface`] holds a full register file in memory and implements
//! [`Adxl372Interface`] without touching any hardware, so the driver core
//! can be exercised and tested against it. It also counts the writes and
//! soft resets it receives, can feed a scripted stream of Z-axis sample
//! bytes to burst reads, can report self-test completion after a chosen
//! number of status reads, and can fail a chosen Z-axis read, which is what
//! the self-test scenarios need.

use vstd::prelude::*;

use crate::interface::Adxl372Interface;
use crate::interface::BusOp;
use crate::interface::DelayProvider;
use crate::registers::REG_RESET;
use crate::registers::REG_SELF_TEST;
use crate::registers::REG_ZDATA_H;
use crate::registers::RESET_COMMAND;

verus! {

/// Transport failure reported by a [`MemoryInterface`] when a scripted
/// fault is reached.
#[derive(Debug, Clone, Copy, PartialEq, Eq, Structural)]
pub struct MemoryBusError;

/// An in-memory register file that acts as the device bus.
pub struct MemoryInterface {
    regs: Vec<u8>,
    write_count: u64,
    reset_count: u64,
    st_reads_until_done: u32,
    st_pass_flag: bool,
    armed: bool,
    st_reads_since_arm: u32,
    z_script: Vec<(u8, u8)>,
    z_index: usize,
    z_fail_at: u64,
    z_read_count: u64,
    hist: Ghost<Seq<BusOp>>,
}

impl MemoryInterface {
    #[verifier::type_invariant]
    spec fn type_wf(self) -> bool {
        self.regs@.len() == 256
    }

    /// The contents of one register.
    pub closed spec fn spec_register(self, addr: u8) -> u8 {
        self.regs@[addr as int]
    }

    /// How many write operations (single or burst) have been received.
    pub closed spec fn spec_write_count(self) -> u64 {
        self.write_count
    }

    /// How many soft-reset commands have been received.
    pub closed spec fn spec_reset_count(self) -> u64 {
        self.reset_count
    }

    /// Creates an interface whose registers are all zero, with no scripted
    /// samples, no scripted fault, and self-test completion never reported.
    pub fn new() -> (r: MemoryInterface)
        ensures
            r.history() == Seq::<BusOp>::empty(),
            r.spec_write_count() == 0,
            r.spec_reset_count() == 0,
            forall|addr: u8| r.spec_register(addr) == 0u8,
    {
        let regs = vec_of_zeros();
        MemoryInterface {
            regs,
            write_count: 0,
            reset_count: 0,
            st_reads_until_done: u32::MAX,
            st_pass_flag: false,
            armed: false,
            st_reads_since_arm: 0,
            z_script: Vec::new(),
            z_index: 0,
            z_fail_at: 0,
            z_read_count: 0,
            hist: Ghost(Seq::empty()),
        }
    }

    /// Pokes a register directly, without recording a bus operation. Meant
    /// for arranging a device state before exercising the driver.
    pub fn set_register(&mut self, addr: u8, value: u8)
        ensures
            final(self).spec_register(addr) == value,
            final(self).history() == old(self).history(),
            final(self).spec_write_count() == old(self).spec_write_count(),
            final(self).spec_reset_count() == old(self).spec_reset_count(),
    {
        proof {
            use_type_invariant(&*self);
        }
        self.regs[addr as usize] = value;
    }

    /// Reads a register directly, without recording a bus operation.
    pub fn register(&self, addr: u8) -> (r: u8)
        ensures
            r == self.spec_register(addr),
    {
        proof {
            use_type_invariant(self);
        }
        self.regs[addr as usize]
    }

    /// How many write operations (single or burst) have been received.
    pub fn write_count(&self) -> (r: u64)
        ensures
            r == self.spec_write_count(),
    {
        self.write_count
    }

    /// How many soft-reset commands have been received.
    pub fn reset_count(&self) -> (r: u64)
        ensures
            r == self.spec_reset_count(),
    {
        self.reset_count
    }

    /// Arranges self-test completion: once the self-test trigger bit has
    /// been set, the given number of trigger-register reads still report
    /// "in progress", and every later read reports completion, with the
    /// user pass flag set as given.
    pub fn script_self_test(&mut self, reads_until_done: u32, pass_flag: bool)
        ensures
            final(self).history() == old(self).history(),
            final(self).spec_write_count() == old(self).spec_write_count(),
            final(self).spec_reset_count() == old(self).spec_reset_count(),
    {
        proof {
            use_type_invariant(&*self);
        }
        self.st_reads_until_done = reads_until_done;
        self.st_pass_flag = pass_flag;
    }

    /// Supplies the byte pairs that successive Z-axis burst reads return;
    /// reads past the end of the script return zero bytes.
    pub fn script_z_samples(&mut self, samples: Vec<(u8, u8)>)
        ensures
            final(self).history() == old(self).history(),
            final(self).spec_write_count() == old(self).spec_write_count(),
            final(self).spec_reset_count() == old(self).spec_reset_count(),
    {
        proof {
            use_type_invariant(&*self);
        }
        self.z_script = samples;
        self.z_index = 0;
    }

    /// Makes the Z-axis burst read with the given one-based ordinal fail;
    /// zero means no read fails.
    pub fn fail_z_read_at(&mut self, ordinal: u64)
        ensures
            final(self).history() == old(self).history(),
            final(self).spec_write_count() == old(self).spec_write_count(),
            final(self).spec_reset_count() == old(self).spec_reset_count(),
    {
        proof {
            use_type_invariant(&*self);
        }
        self.z_fail_at = ordinal;
    }
}

/// A vector of 256 zero bytes, one per register address.
fn vec_of_zeros() -> (r: Vec<u8>)
    ensures
        r@.len() == 256,
        forall|i: int| 0 <= i < 256 ==> r@[i] == 0u8,
{
    let mut v: Vec<u8> = Vec::new();
    let mut i: usize = 0;
    while i < 256
        invariant
            i <= 256,
            v@.len() == i,
            forall|j: int| 0 <= j < i ==> v@[j] == 0u8,
        decreases 256 - i,
    {
        v.push(0);
        i = i + 1;
    }
    v
}

impl Adxl372Interface for MemoryInterface {
    type Error = MemoryBusError;

    closed spec fn history(&self) -> Seq<BusOp> {
        self.hist@
    }

    fn write_register(&mut self, register: u8, value: u8) -> (r: Result<(), Self::Error>) {
        proof {
            use_type_invariant(&*self);
        }
        self.regs[register as usize] = value;
        if self.write_count < u64::MAX {
            self.write_count = self.write_count + 1;
        }
        if register == REG_RESET && value == RESET_COMMAND && self.reset_count < u64::MAX {
            self.reset_count = self.reset_count + 1;
        }
        if register == REG_SELF_TEST {
            self.armed = value & 0x01 == 0x01;
            self.st_reads_since_arm = 0;
        }
        self.hist = Ghost(self.hist@.push(BusOp::Write { addr: register, value }));
        Ok(())
    }

    fn read_register(&mut self, register: u8) -> (r: Result<u8, Self::Error>) {
        proof {
            use_type_invariant(&*self);
        }
        let mut value = self.regs[register as usize];
        if register == REG_SELF_TEST && self.armed {
            if self.st_reads_since_arm >= self.st_reads_until_done {
                value = value | 0x02 | (if self.st_pass_flag {
                    0x04
                } else {
                    0x00
                });
            } else {
                self.st_reads_since_arm = self.st_reads_since_arm + 1;
            }
        }
        self.hist = Ghost(self.hist@.push(BusOp::Read { addr: register, value }));
        Ok(value)
    }

    fn read_many(&mut self, register: u8, buf: &mut Vec<u8>) -> (r: Result<(), Self::Error>) {
        proof {
            use_type_invariant(&*self);
        }
        if register == REG_ZDATA_H && buf.len() == 2 {
            if self.z_read_count < u64::MAX {
                self.z_read_count = self.z_read_count + 1;
            }
            if self.z_fail_at != 0 && self.z_read_count == self.z_fail_at {
                return Err(MemoryBusError);
            }
            let pair: (u8, u8) = if self.z_index < self.z_script.len() {
                let p = self.z_script[self.z_index];
                self.z_index = self.z_index + 1;
                p
            } else {
                (0, 0)
            };
            buf[0] = pair.0;
            buf[1] = pair.1;
            self.hist = Ghost(self.hist@.push(BusOp::ReadBurst { addr: register, values: buf@ }));
            return Ok(());
        }
        let len = buf.len();
        let ghost h0 = self.hist@;
        let mut i: usize = 0;
        while i < len
            invariant
                i <= len,
                buf@.len() == len,
                self.regs@.len() == 256,
                self.hist@ == h0,
            decreases len - i,
        {
            let addr = (register as usize + i % 256) % 256;
            buf[i] = self.regs[addr];
            i = i + 1;
        }
        self.hist = Ghost(self.hist@.push(BusOp::ReadBurst { addr: register, values: buf@ }));
        Ok(())
    }

    fn write_many(&mut self, register: u8, data: &[u8]) -> (r: Result<(), Self::Error>) {
        proof {
            use_type_invariant(&*self);
        }
        let len = data.len();
        let ghost h0 = self.hist@;
        let mut i: usize = 0;
        while i < len
            invariant
                i <= len,
                data@.len() == len,
                self.regs@.len() == 256,
                self.hist@ == h0,
            decreases len - i,
        {
            let addr = (register as usize + i % 256) % 256;
            self.regs[addr] = data[i];
            i = i + 1;
        }
        if self.write_count < u64::MAX {
            self.write_count = self.write_count + 1;
        }
        self.hist = Ghost(self.hist@.push(BusOp::WriteBurst { addr: register, values: data@ }));
        Ok(())
    }
}

/// A delay capability that returns immediately. The self-test engine
/// accounts for elapsed time by summing its own per-sample delays, so tests
/// that use this delay still observe the same timeout decisions as real
/// hardware would.
#[derive(Debug, Clone, Copy, PartialEq, Eq, Structural)]
pub struct NoopDelay;

impl DelayProvider for NoopDelay {
    fn delay_ms(&mut self, _ms: u32) {
    }

    fn delay_ns(&mut self, _ns: u32) {
    }
}

} // verus!
