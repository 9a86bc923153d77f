//! SPI implementation of the bus capability, built on `embedded-hal`'s
//! `SpiDevice`, together with a delay capability built on `embedded-hal`'s
//! `DelayNs`.
//!
//! Every ADXL372 bus operation is one SPI transaction that writes a command
//! byte addressing the register and then moves the payload. The command
//! byte is the register address shifted left once, with the lowest bit set
//! for reads.
//!
//! Verus cannot take an `embedded-hal` trait as a bound on an
//! implementation of [`Adxl372Interface`], so the single transaction entry
//! point is captured as a monomorphised function pointer ([`SpiVtable`])
//! when the interface is created; the interface methods themselves are then
//! verified code that maintains the operation history.

use vstd::prelude::*;

use crate::interface::Adxl372Interface;
use crate::interface::BusOp;
use crate::interface::DelayProvider;

verus! {

/// Transport failure reported by a [`SpiInterface`].
///
/// The underlying `embedded-hal` error type is device-specific and opaque
/// to the verified core, so it is collapsed into this marker type.
#[derive(Debug, Clone, Copy, PartialEq, Eq, Structural)]
pub struct SpiBusError;

/// Relies on embedded-hal's `SpiDevice::transaction`: performs one SPI
/// transaction that writes the command byte and then, for a read, fills
/// `data` in place from the bus or, for a write, sends `data` out. The
/// buffer keeps its length either way.
#[verifier::external_body]
fn spi_transact<SPI: embedded_hal::spi::SpiDevice>(
    spi: &mut SPI,
    command: u8,
    is_read: bool,
    data: &mut Vec<u8>,
) -> (r: Result<(), SpiBusError>)
    ensures
        final(data)@.len() == old(data)@.len(),
{
    let cmd = [command];
    let mut operations = if is_read {
        [
            embedded_hal::spi::Operation::Write(&cmd),
            embedded_hal::spi::Operation::Read(data.as_mut_slice()),
        ]
    } else {
        [
            embedded_hal::spi::Operation::Write(&cmd),
            embedded_hal::spi::Operation::Write(data.as_slice()),
        ]
    };
    spi.transaction(&mut operations).map_err(|_| SpiBusError)
}

/// The monomorphised SPI transaction entry for one device type, captured as
/// a plain function pointer so that the verified interface code needs no
/// `embedded-hal` bound. Opaque to Verus.
#[verifier::external_body]
#[verifier::reject_recursive_types(SPI)]
pub struct SpiVtable<SPI> {
    transact: fn(&mut SPI, u8, bool, &mut Vec<u8>) -> Result<(), SpiBusError>,
}

impl<SPI> SpiVtable<SPI> {
    /// Invokes the captured transaction entry; the entry is always
    /// [`spi_transact`], so this performs one SPI transaction and preserves
    /// the buffer length.
    #[verifier::external_body]
    fn call(&self, spi: &mut SPI, command: u8, is_read: bool, data: &mut Vec<u8>) -> (r: Result<
        (),
        SpiBusError,
    >)
        ensures
            final(data)@.len() == old(data)@.len(),
    {
        (self.transact)(spi, command, is_read, data)
    }
}

/// Captures the transaction entry for one `embedded-hal` device type.
#[verifier::external_body]
fn make_vtable<SPI: embedded_hal::spi::SpiDevice>() -> (r: SpiVtable<SPI>) {
    SpiVtable { transact: spi_transact::<SPI> }
}

/// SPI-based interface implementation for the ADXL372 driver.
#[verifier::reject_recursive_types(SPI)]
pub struct SpiInterface<SPI> {
    spi: SPI,
    vtable: SpiVtable<SPI>,
    hist: Ghost<Seq<BusOp>>,
}

impl<SPI> SpiInterface<SPI> {
    /// The wrapped SPI device.
    pub closed spec fn spec_device(&self) -> SPI {
        self.spi
    }

    /// The bus operations performed so far, oldest first; equal to
    /// [`Adxl372Interface::history`].
    pub closed spec fn ops_log(&self) -> Seq<BusOp> {
        self.hist@
    }

    /// Builds the command byte used to address registers over SPI.
    fn command_byte(register: u8, is_read: bool) -> (r: u8)
        ensures
            r == ((register & 0x7F) << 1) | (if is_read {
                1u8
            } else {
                0u8
            }),
    {
        ((register & 0x7F) << 1) | (if is_read {
            1u8
        } else {
            0u8
        })
    }

    /// Provides mutable access to the wrapped SPI device.
    pub fn spi_mut(&mut self) -> (r: &mut SPI)
        ensures
            *r == old(self).spec_device(),
            final(self).spec_device() == *final(r),
            final(self).ops_log() == old(self).ops_log(),
    {
        &mut self.spi
    }

    /// Consumes the interface and returns the owned SPI device.
    pub fn release(self) -> (r: SPI)
        ensures
            r == self.spec_device(),
    {
        self.spi
    }
}

impl<SPI: embedded_hal::spi::SpiDevice> SpiInterface<SPI> {
    /// Creates a new interface from the provided SPI device abstraction.
    pub fn new(spi: SPI) -> (r: Self)
        ensures
            r.spec_device() == spi,
            r.ops_log() == Seq::<BusOp>::empty(),
    {
        SpiInterface { spi, vtable: make_vtable(), hist: Ghost(Seq::empty()) }
    }
}

impl<SPI> Adxl372Interface for SpiInterface<SPI> {
    type Error = SpiBusError;

    closed spec fn history(&self) -> Seq<BusOp> {
        self.hist@
    }

    fn write_register(&mut self, register: u8, value: u8) -> (r: Result<(), Self::Error>) {
        let mut data: Vec<u8> = Vec::new();
        data.push(value);
        let command = Self::command_byte(register, false);
        let outcome = self.vtable.call(&mut self.spi, command, false, &mut data);
        self.hist = Ghost(self.hist@.push(BusOp::Write { addr: register, value }));
        outcome
    }

    fn read_register(&mut self, register: u8) -> (r: Result<u8, Self::Error>) {
        let mut data: Vec<u8> = Vec::new();
        data.push(0);
        let command = Self::command_byte(register, true);
        match self.vtable.call(&mut self.spi, command, true, &mut data) {
            Ok(()) => {
                let value = data[0];
                self.hist = Ghost(self.hist@.push(BusOp::Read { addr: register, value }));
                Ok(value)
            },
            Err(e) => Err(e),
        }
    }

    fn read_many(&mut self, register: u8, buf: &mut Vec<u8>) -> (r: Result<(), Self::Error>) {
        if buf.len() == 0 {
            self.hist = Ghost(self.hist@.push(BusOp::ReadBurst { addr: register, values: buf@ }));
            return Ok(());
        }
        let command = Self::command_byte(register, true);
        match self.vtable.call(&mut self.spi, command, true, buf) {
            Ok(()) => {
                self.hist = Ghost(
                    self.hist@.push(BusOp::ReadBurst { addr: register, values: buf@ }),
                );
                Ok(())
            },
            Err(e) => Err(e),
        }
    }

    fn write_many(&mut self, register: u8, data: &[u8]) -> (r: Result<(), Self::Error>) {
        let mut payload = vstd::slice::slice_to_vec(data);
        self.hist = Ghost(self.hist@.push(BusOp::WriteBurst { addr: register, values: data@ }));
        if payload.len() == 0 {
            return Ok(());
        }
        let command = Self::command_byte(register, false);
        self.vtable.call(&mut self.spi, command, false, &mut payload)
    }
}

/// Relies on embedded-hal's `DelayNs::delay_ms`: blocks for at least the
/// given number of milliseconds.
#[verifier::external_body]
fn hal_delay_ms<D: embedded_hal::delay::DelayNs>(delay: &mut D, ms: u32) {
    delay.delay_ms(ms);
}

/// Relies on embedded-hal's `DelayNs::delay_ns`: blocks for at least the
/// given number of nanoseconds.
#[verifier::external_body]
fn hal_delay_ns<D: embedded_hal::delay::DelayNs>(delay: &mut D, ns: u32) {
    delay.delay_ns(ns);
}

/// The monomorphised delay entries for one `embedded-hal` delay type,
/// captured as plain function pointers so that the verified adapter needs
/// no `embedded-hal` bound. Opaque to Verus.
#[verifier::external_body]
#[verifier::reject_recursive_types(D)]
pub struct DelayVtable<D> {
    ms: fn(&mut D, u32),
    ns: fn(&mut D, u32),
}

impl<D> DelayVtable<D> {
    /// Invokes the captured millisecond entry; the entry is always
    /// [`hal_delay_ms`], so this blocks for at least the given duration.
    #[verifier::external_body]
    fn call_ms(&self, delay: &mut D, ms: u32) {
        (self.ms)(delay, ms)
    }

    /// Invokes the captured nanosecond entry; the entry is always
    /// [`hal_delay_ns`], so this blocks for at least the given duration.
    #[verifier::external_body]
    fn call_ns(&self, delay: &mut D, ns: u32) {
        (self.ns)(delay, ns)
    }
}

/// Captures the delay entries for one `embedded-hal` delay type.
#[verifier::external_body]
fn make_delay_vtable<D: embedded_hal::delay::DelayNs>() -> (r: DelayVtable<D>) {
    DelayVtable { ms: hal_delay_ms::<D>, ns: hal_delay_ns::<D> }
}

/// Delay capability backed by an `embedded-hal` delay implementation.
#[verifier::reject_recursive_types(D)]
pub struct HalDelay<D> {
    delay: D,
    vtable: DelayVtable<D>,
}

impl<D> HalDelay<D> {
    /// Consumes the adapter and returns the wrapped delay implementation.
    pub fn release(self) -> D {
        self.delay
    }
}

impl<D: embedded_hal::delay::DelayNs> HalDelay<D> {
    /// Wraps an `embedded-hal` delay implementation.
    pub fn new(delay: D) -> Self {
        HalDelay { delay, vtable: make_delay_vtable() }
    }
}

impl<D> DelayProvider for HalDelay<D> {
    fn delay_ms(&mut self, ms: u32) {
        self.vtable.call_ms(&mut self.delay, ms);
    }

    fn delay_ns(&mut self, ns: u32) {
        self.vtable.call_ns(&mut self.delay, ns);
    }
}

} // verus!
