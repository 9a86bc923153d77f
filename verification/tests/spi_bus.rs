//! Tests of the SPI transport: command-byte framing and transaction shapes
//! against a mock `embedded-hal` SPI device.

use core::convert::Infallible;

use adxl372::interface::spi::SpiInterface;
use adxl372::interface::Adxl372Interface;
use embedded_hal::spi::ErrorType;
use embedded_hal::spi::Operation;
use embedded_hal::spi::SpiDevice;

struct MockDevice<'a> {
    expectations: &'a [TransactionExpectation<'a>],
    index: usize,
}

impl<'a> MockDevice<'a> {
    fn new(expectations: &'a [TransactionExpectation<'a>]) -> Self {
        Self { expectations, index: 0 }
    }
}

impl<'a> Drop for MockDevice<'a> {
    fn drop(&mut self) {
        assert_eq!(
            self.index,
            self.expectations.len(),
            "not all SPI expectations consumed"
        );
    }
}

impl<'a> ErrorType for MockDevice<'a> {
    type Error = Infallible;
}

impl<'a> SpiDevice for MockDevice<'a> {
    fn transaction<'b>(
        &mut self,
        operations: &mut [Operation<'b, u8>],
    ) -> Result<(), Self::Error> {
        let expected = self
            .expectations
            .get(self.index)
            .expect("unexpected SPI transaction");
        self.index += 1;

        match *expected {
            TransactionExpectation::Read { command, response } => {
                assert_eq!(operations.len(), 2, "expected write+read operations");
                let (first, rest) = operations.split_first_mut().expect("missing first op");
                match first {
                    Operation::Write(data) => {
                        assert_eq!(data.len(), 1, "command length mismatch");
                        assert_eq!(data[0], command, "command byte mismatch");
                    }
                    _ => panic!("first operation must be write"),
                }

                let second = rest.first_mut().expect("missing second op");
                match second {
                    Operation::Read(buf) => {
                        assert_eq!(buf.len(), response.len(), "response length mismatch");
                        buf.copy_from_slice(response);
                    }
                    _ => panic!("second operation must be read"),
                }
            }
            TransactionExpectation::Write { command, payload } => {
                assert_eq!(operations.len(), 2, "expected write+write operations");
                let (first, rest) = operations.split_first_mut().expect("missing first op");
                match first {
                    Operation::Write(data) => {
                        assert_eq!(data.len(), 1, "command length mismatch");
                        assert_eq!(data[0], command, "command byte mismatch");
                    }
                    _ => panic!("first operation must be write"),
                }

                let second = rest.first_mut().expect("missing second op");
                match second {
                    Operation::Write(data) => {
                        assert_eq!(*data, payload, "payload mismatch");
                    }
                    _ => panic!("second operation must be write"),
                }
            }
        }

        Ok(())
    }
}

#[derive(Clone, Copy)]
enum TransactionExpectation<'a> {
    Read { command: u8, response: &'a [u8] },
    Write { command: u8, payload: &'a [u8] },
}

#[test]
fn read_many_transfers_command_and_fills_buffer() {
    let expectations = [TransactionExpectation::Read {
        command: 0x11,
        response: &[0xAA, 0x55],
    }];
    let mock = MockDevice::new(&expectations);
    let mut interface = SpiInterface::new(mock);

    let mut buffer: Vec<u8> = vec![0u8; 2];
    interface.read_many(0x08, &mut buffer).unwrap();
    assert_eq!(buffer, [0xAA, 0x55]);
}

#[test]
fn write_many_transfers_command_and_payload() {
    let expectations = [TransactionExpectation::Write {
        command: 0x82,
        payload: &[0x12, 0x34, 0x56],
    }];
    let mock = MockDevice::new(&expectations);
    let mut interface = SpiInterface::new(mock);

    interface.write_many(0x41, &[0x12, 0x34, 0x56]).unwrap();
}

#[test]
fn read_register_reuses_read_many() {
    let expectations = [TransactionExpectation::Read {
        command: 0x03,
        response: &[0x5A],
    }];
    let mock = MockDevice::new(&expectations);
    let mut interface = SpiInterface::new(mock);

    let value = interface.read_register(0x01).unwrap();
    assert_eq!(value, 0x5A);
}

#[test]
fn write_register_reuses_write_many() {
    let expectations = [TransactionExpectation::Write {
        command: 0x02,
        payload: &[0x7E],
    }];
    let mock = MockDevice::new(&expectations);
    let mut interface = SpiInterface::new(mock);

    interface.write_register(0x01, 0x7E).unwrap();
}

#[test]
fn read_many_ignores_empty_buffer() {
    let expectations: [TransactionExpectation; 0] = [];
    let mock = MockDevice::new(&expectations);
    let mut interface = SpiInterface::new(mock);

    let mut buffer: Vec<u8> = Vec::new();
    interface.read_many(0x08, &mut buffer).unwrap();
}

#[test]
fn write_many_ignores_empty_payload() {
    let expectations: [TransactionExpectation; 0] = [];
    let mock = MockDevice::new(&expectations);
    let mut interface = SpiInterface::new(mock);

    interface.write_many(0x08, &[]).unwrap();
}

/// A device wired through the SPI convenience constructor performs the same
/// framed transactions.
#[test]
fn device_over_spi_reads_ids() {
    let expectations = [TransactionExpectation::Read {
        command: 0x01,
        response: &[0xAD, 0x1D, 0xFA, 0x02],
    }];
    let mock = MockDevice::new(&expectations);
    let mut device = adxl372::Adxl372::new_spi(mock, adxl372::config::Config::default());
    let ids = device.device_id().unwrap();
    assert_eq!(ids, [0xAD, 0x1D, 0xFA, 0x02]);
    let (mock, _cfg) = device.release_spi();
    drop(mock);
}
